//! Conversion of spreadsheet and delimited sources into typed row records.
//!
//! The rows of a source are handed to this crate as plain values. It derives
//! the keys of the columns from a header row, coerces every cell to the type
//! declared for its column, and returns the records together with the number
//! of rows in the source. Rows can be read at once ([`pipeline`]) or one by
//! one ([`row_reader`]), and delivered to a save sink as they come
//! ([`delivery`]).
//!
//! Numbers are exact decimals ([`decimal`]), so truncation and rounding are
//! free of binary approximation. The contracts of the functions state their
//! results over the mathematical content of their arguments.

pub mod args;
pub mod cell;
pub mod column;
pub mod data_set;
pub mod db;
pub mod decimal;
pub mod delivery;
pub mod error;
pub mod euro_number_format;
pub mod format;
pub mod fuzzy_datetime;
pub mod headers;
pub mod is_truthy;
pub mod json_text;
pub mod modes;
pub mod numerals;
pub mod options;
pub mod path_data;
pub mod pipeline;
pub mod reader;
pub mod row_reader;
pub mod text;
pub mod value;

pub use crate::cell::{DateTimeParts, RawCell};
pub use crate::column::{Column, RowOptionSet};
pub use crate::data_set::{
    match_sheet_name_and_index, DataSet, ResultSet, SheetDataSet, SpreadData, WorkbookInfo,
};
pub use crate::decimal::{Decimal, RoundDecimal};
pub use crate::error::GenericError;
pub use crate::format::Format;
pub use crate::modes::{FieldNameMode, ReadMode};
pub use crate::options::{OptionSet, DEFAULT_MAX_ROWS, DEFAULT_MAX_ROWS_PREVIEW};
pub use crate::path_data::{Extension, PathData};
pub use crate::pipeline::{
    process_spreadsheet_core, process_spreadsheet_direct, read_csv_core, read_single_worksheet,
    read_workbook_core, SheetSource, Source,
};
pub use crate::reader::to_index_map;
pub use crate::value::CellValue;
