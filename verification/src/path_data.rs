//! The kinds of file that can be read, told by the extension of a path.

use vstd::prelude::*;
use vstd::string::*;
use crate::text::{chars_are, lowercase_of, to_chars};

verus! {

/// A kind of source file; `Unmatched` for a file that is not read.
#[derive(Debug, Clone, Copy, PartialEq, Eq, Structural)]
pub enum Extension {
    Unmatched,
    Ods,
    Xlsx,
    Xlsb,
    Xls,
    Csv,
    Tsv,
}

/// Calls `Path::extension` of the standard library on the path and gives
/// the extension as text, if the path has one that is valid Unicode. What
/// counts as the file name of a path depends on the platform, so nothing is
/// claimed of the result.
#[verifier::external_body]
fn path_extension(path: &str) -> (r: Option<String>) {
    std::path::Path::new(path).extension().and_then(|e| e.to_str()).map(|e| e.to_string())
}

/// Calls `Path::file_name` of the standard library on the path and gives
/// the last component as text, if the path has one. What counts as a
/// component depends on the platform, so nothing is claimed of the result.
#[verifier::external_body]
pub(crate) fn path_file_name(path: &str) -> (r: Option<String>) {
    std::path::Path::new(path).file_name().map(|f| f.to_string_lossy().to_string())
}

/// The kind of file that an extension in lower case names.
pub open spec fn extension_of(lower: Seq<char>) -> Extension {
    if lower == "ods"@ {
        Extension::Ods
    } else if lower == "xlsx"@ {
        Extension::Xlsx
    } else if lower == "xlsb"@ {
        Extension::Xlsb
    } else if lower == "xls"@ {
        Extension::Xls
    } else if lower == "csv"@ {
        Extension::Csv
    } else if lower == "tsv"@ {
        Extension::Tsv
    } else {
        Extension::Unmatched
    }
}

impl Extension {
    /// The kind of file that an extension names, whatever its case.
    pub fn from_extension(ext: &str) -> (r: Extension)
        ensures
            r == extension_of(lowercase_of(ext@)),
    {
        let lower = ext.to_lowercase();
        let v = to_chars(lower.as_str());
        if chars_are(&v, "ods") {
            Extension::Ods
        } else if chars_are(&v, "xlsx") {
            Extension::Xlsx
        } else if chars_are(&v, "xlsb") {
            Extension::Xlsb
        } else if chars_are(&v, "xls") {
            Extension::Xls
        } else if chars_are(&v, "csv") {
            Extension::Csv
        } else if chars_are(&v, "tsv") {
            Extension::Tsv
        } else {
            Extension::Unmatched
        }
    }

    /// The kind of file that the extension of a path names; `Unmatched` for
    /// a path without extension.
    pub fn from_path(path: &str) -> (r: Extension)
        ensures
            r == Extension::Unmatched || exists|ext: Seq<char>|
                r == extension_of(lowercase_of(ext)),
    {
        match path_extension(path) {
            Some(ext) => Extension::from_extension(ext.as_str()),
            None => Extension::Unmatched,
        }
    }

    /// Whether the file is a workbook.
    pub fn use_calamine(&self) -> (r: bool)
        ensures
            r == (*self == Extension::Ods || *self == Extension::Xlsx || *self == Extension::Xlsb
                || *self == Extension::Xls),
    {
        match self {
            Extension::Ods | Extension::Xlsx | Extension::Xlsb | Extension::Xls => true,
            _ => false,
        }
    }

    /// Whether the file is delimited text.
    pub fn use_csv(&self) -> (r: bool)
        ensures
            r == (*self == Extension::Csv || *self == Extension::Tsv),
    {
        match self {
            Extension::Csv | Extension::Tsv => true,
            _ => false,
        }
    }

    /// The extension in lower case; empty for `Unmatched`.
    pub open spec fn name(self) -> Seq<char> {
        match self {
            Extension::Ods => "ods"@,
            Extension::Xlsx => "xlsx"@,
            Extension::Xlsb => "xlsb"@,
            Extension::Xls => "xls"@,
            Extension::Csv => "csv"@,
            Extension::Tsv => "tsv"@,
            Extension::Unmatched => ""@,
        }
    }

    /// The extension in lower case; empty for `Unmatched`.
    pub fn to_string(&self) -> (r: String)
        ensures
            r@ == self.name(),
    {
        match self {
            Extension::Ods => "ods".to_string(),
            Extension::Xlsx => "xlsx".to_string(),
            Extension::Xlsb => "xlsb".to_string(),
            Extension::Xls => "xls".to_string(),
            Extension::Csv => "csv".to_string(),
            Extension::Tsv => "tsv".to_string(),
            Extension::Unmatched => "".to_string(),
        }
    }
}

/// A path together with what the platform finds in it: the kind of file
/// that its extension names, and the name of the file.
pub struct PathData<'a> {
    path: &'a str,
    ext: Extension,
    name: Option<String>,
}

impl<'a> PathData<'a> {
    /// The kind of file.
    pub closed spec fn kind(&self) -> Extension {
        self.ext
    }

    /// A path with the kind of file that its extension names and the name
    /// of the file, both as the platform finds them in the path.
    pub fn new(path: &'a str) -> (r: Self)
        ensures
            r.path_text() == path@,
            r.kind() == Extension::Unmatched || exists|ext: Seq<char>|
                r.kind() == extension_of(lowercase_of(ext)),
    {
        PathData { path, ext: Extension::from_path(path), name: path_file_name(path) }
    }

    /// The kind of file.
    pub fn mode(&self) -> (r: Extension)
        ensures
            r == self.kind(),
    {
        self.ext
    }

    /// The extension in lower case.
    pub fn extension(&self) -> (r: String)
        ensures
            r@ == self.kind().name(),
    {
        self.ext.to_string()
    }

    /// The kind of file.
    pub fn ext(&self) -> (r: Extension)
        ensures
            r == self.kind(),
    {
        self.ext
    }

    /// The path as given.
    pub fn path(&self) -> (r: &'a str)
        ensures
            r@ == self.path_text(),
    {
        self.path
    }

    /// Whether the file is of a kind that is read.
    pub fn is_valid(&self) -> (r: bool)
        ensures
            r == (self.kind() != Extension::Unmatched),
    {
        match self.ext {
            Extension::Unmatched => false,
            _ => true,
        }
    }

    /// Whether the file is a workbook.
    pub fn use_calamine(&self) -> (r: bool)
        ensures
            r == (self.kind() == Extension::Ods || self.kind() == Extension::Xlsx || self.kind()
                == Extension::Xlsb || self.kind() == Extension::Xls),
    {
        self.ext.use_calamine()
    }

    /// The name of the file: the last component of the path; empty if it has none.
    pub fn filename(&self) -> (r: String)
        ensures
            r@ == self.file_label(),
    {
        match &self.name {
            Some(name) => name.clone(),
            None => String::new(),
        }
    }

    /// The path as given.
    pub closed spec fn path_text(&self) -> Seq<char> {
        self.path@
    }

    /// The last component of the path as the platform finds it, if it finds one.
    pub closed spec fn found_name(&self) -> Option<Seq<char>> {
        match self.name {
            Some(name) => Some(name@),
            None => None,
        }
    }

    /// The name of the file: the last component of the path, empty if the
    /// platform finds none.
    pub open spec fn file_label(&self) -> Seq<char> {
        match self.found_name() {
            Some(name) => name,
            None => Seq::<char>::empty(),
        }
    }
}

} // verus!
