//! The cells of a source as its reader classifies them.

use vstd::prelude::*;
use vstd::string::*;
use crate::decimal::{Decimal, DecimalView};
use crate::numerals::{push_zero_padded, zero_padded};
use crate::text::string_of_chars;
use crate::value::{integer_text, integer_to_string};

verus! {

/// A calendar date and a time of day, as resolved by the reader of the source.
#[derive(Debug, Clone, Copy, PartialEq, Eq, Structural)]
pub struct DateTimeParts {
    pub year: u16,
    pub month: u8,
    pub day: u8,
    pub hour: u8,
    pub minute: u8,
    pub second: u8,
}

/// One cell of a source.
#[derive(Debug)]
pub enum RawCell {
    /// A whole number.
    Int(i64),
    /// A decimal number.
    Float(Decimal),
    /// A boolean.
    Bool(bool),
    /// A date or time; `None` where the source could not resolve it.
    DateTime(Option<DateTimeParts>),
    /// A text. Every cell of a delimited file is one.
    Text(String),
    /// A cell of any other kind, by the text that the source shows for it.
    Other(String),
    /// An empty cell.
    Empty,
}

/// The mathematical content of a [`RawCell`].
pub enum RawCellView {
    Int(i64),
    Float(DecimalView),
    Bool(bool),
    DateTime(Option<DateTimeParts>),
    Text(Seq<char>),
    Other(Seq<char>),
    Empty,
}

impl View for RawCell {
    type V = RawCellView;

    open spec fn view(&self) -> RawCellView {
        match self {
            RawCell::Int(i) => RawCellView::Int(*i),
            RawCell::Float(d) => RawCellView::Float(d@),
            RawCell::Bool(b) => RawCellView::Bool(*b),
            RawCell::DateTime(p) => RawCellView::DateTime(*p),
            RawCell::Text(s) => RawCellView::Text(s@),
            RawCell::Other(s) => RawCellView::Other(s@),
            RawCell::Empty => RawCellView::Empty,
        }
    }
}

/// The contents of a row of cells.
pub open spec fn cells_view(row: Seq<RawCell>) -> Seq<RawCellView> {
    Seq::new(row.len(), |i: int| row[i]@)
}

/// The contents of the rows of a sheet.
pub open spec fn sheet_view(rows: Seq<Vec<RawCell>>) -> Seq<Seq<RawCellView>> {
    Seq::new(rows.len(), |i: int| cells_view(rows[i]@))
}

/// A date as `YYYY-MM-DD`.
pub open spec fn date_text(p: DateTimeParts) -> Seq<char> {
    zero_padded(p.year as nat, 4) + seq!['-'] + zero_padded(p.month as nat, 2) + seq!['-']
        + zero_padded(p.day as nat, 2)
}

/// A date and time as `YYYY-MM-DDTHH:MM:SS`.
pub open spec fn datetime_text(p: DateTimeParts) -> Seq<char> {
    date_text(p) + seq!['T'] + zero_padded(p.hour as nat, 2) + seq![':'] + zero_padded(
        p.minute as nat,
        2,
    ) + seq![':'] + zero_padded(p.second as nat, 2)
}

/// The text that a cell shows.
pub open spec fn cell_text(cell: RawCellView) -> Seq<char> {
    match cell {
        RawCellView::Int(i) => integer_text(i as int),
        RawCellView::Float(d) => d.text(),
        RawCellView::Bool(b) => if b {
            "true"@
        } else {
            "false"@
        },
        RawCellView::DateTime(Some(p)) => datetime_text(p),
        RawCellView::DateTime(None) => Seq::<char>::empty(),
        RawCellView::Text(s) => s,
        RawCellView::Other(s) => s,
        RawCellView::Empty => Seq::<char>::empty(),
    }
}

impl DateTimeParts {
    /// Appends the date as `YYYY-MM-DD`.
    fn push_date(&self, out: &mut Vec<char>)
        ensures
            final(out)@ == old(out)@ + date_text(*self),
    {
        push_zero_padded(out, self.year as u128, 4);
        out.push('-');
        push_zero_padded(out, self.month as u128, 2);
        out.push('-');
        push_zero_padded(out, self.day as u128, 2);
        assert(final(out)@ =~= old(out)@ + date_text(*self));
    }

    /// The date as `YYYY-MM-DD`.
    pub fn to_date_string(&self) -> (r: String)
        ensures
            r@ == date_text(*self),
    {
        let mut out: Vec<char> = Vec::new();
        self.push_date(&mut out);
        assert(out@ =~= date_text(*self));
        string_of_chars(&out)
    }

    /// The date and time as `YYYY-MM-DDTHH:MM:SS`.
    pub fn to_datetime_string(&self) -> (r: String)
        ensures
            r@ == datetime_text(*self),
    {
        let mut out: Vec<char> = Vec::new();
        self.push_date(&mut out);
        out.push('T');
        push_zero_padded(&mut out, self.hour as u128, 2);
        out.push(':');
        push_zero_padded(&mut out, self.minute as u128, 2);
        out.push(':');
        push_zero_padded(&mut out, self.second as u128, 2);
        assert(out@ =~= datetime_text(*self));
        string_of_chars(&out)
    }
}

impl RawCell {
    /// The text that the cell shows: a number as a numeral, a date as
    /// `YYYY-MM-DDTHH:MM:SS`, nothing for an empty cell.
    pub fn display_text(&self) -> (r: String)
        ensures
            r@ == cell_text(self@),
    {
        match self {
            RawCell::Int(i) => integer_to_string(*i),
            RawCell::Float(d) => d.to_text(),
            RawCell::Bool(b) => if *b {
                "true".to_string()
            } else {
                "false".to_string()
            },
            RawCell::DateTime(Some(p)) => p.to_datetime_string(),
            RawCell::DateTime(None) => String::new(),
            RawCell::Text(s) => s.clone(),
            RawCell::Other(s) => s.clone(),
            RawCell::Empty => String::new(),
        }
    }
}

impl Clone for RawCell {
    fn clone(&self) -> (r: Self)
        ensures
            r@ == self@,
    {
        match self {
            RawCell::Int(i) => RawCell::Int(*i),
            RawCell::Float(d) => RawCell::Float(d.duplicate()),
            RawCell::Bool(b) => RawCell::Bool(*b),
            RawCell::DateTime(p) => RawCell::DateTime(*p),
            RawCell::Text(s) => RawCell::Text(s.clone()),
            RawCell::Other(s) => RawCell::Other(s.clone()),
            RawCell::Empty => RawCell::Empty,
        }
    }
}

} // verus!
