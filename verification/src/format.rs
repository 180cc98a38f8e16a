//! The value types a column can be declared with, and the compact grammar
//! that names them (`i`, `d3`, `dt:<pattern>`, `tr:<yes>,<no>`, ...).

use vstd::prelude::*;
use vstd::string::*;
use crate::error::GenericError;
use crate::is_truthy::{extract_truth_patterns, options_view, to_truth_options, truth_options_of,
    truth_patterns_of, TruthyOption, TruthyOptionView};
use crate::numerals::{decimal_digits, push_decimal};
use crate::text::{chars_are, chars_range, has_prefix_ci, head_of, join_texts, joined, push_text,
    split_head_tail, starts_with_ci, string_of_chars, tail_of, to_chars, trim_chars, trimmed};

verus! {

/// The declared type of a column's values.
#[derive(Debug)]
pub enum Format {
    /// Follow the source cell's own type.
    Auto,
    /// Text.
    Text,
    /// Whole numbers.
    Integer,
    /// Decimal numbers rounded to a number of fraction digits.
    Decimal(u8),
    /// Decimal numbers as they come.
    Float,
    /// Booleans by the strict rules.
    Boolean,
    /// Dates without a time.
    Date,
    /// Dates with a time.
    DateTime,
    /// Dates with a time, in a pattern of the caller's.
    DateTimeCustom(String),
    /// Booleans by the strict rules and common English words.
    Truthy,
    /// Booleans by rules of the caller's.
    TruthyCustom(Vec<TruthyOption>),
}

/// The mathematical content of a [`Format`].
pub enum FormatView {
    Auto,
    Text,
    Integer,
    Decimal(u8),
    Float,
    Boolean,
    Date,
    DateTime,
    DateTimeCustom(Seq<char>),
    Truthy,
    TruthyCustom(Seq<TruthyOptionView>),
}

impl View for Format {
    type V = FormatView;

    open spec fn view(&self) -> FormatView {
        match self {
            Format::Auto => FormatView::Auto,
            Format::Text => FormatView::Text,
            Format::Integer => FormatView::Integer,
            Format::Decimal(n) => FormatView::Decimal(*n),
            Format::Float => FormatView::Float,
            Format::Boolean => FormatView::Boolean,
            Format::Date => FormatView::Date,
            Format::DateTime => FormatView::DateTime,
            Format::DateTimeCustom(p) => FormatView::DateTimeCustom(p@),
            Format::Truthy => FormatView::Truthy,
            Format::TruthyCustom(opts) => FormatView::TruthyCustom(options_view(opts@)),
        }
    }
}

/// The pattern of a key of the form `dt:<pattern>` (whatever the case of `dt`).
pub open spec fn custom_dt_of(key: Seq<char>) -> Option<Seq<char>> {
    let t = trimmed(key);
    if has_prefix_ci(t, "dt:"@) && t.len() >= 3 {
        Some(t.skip(3))
    } else {
        None
    }
}

/// The two pattern lists of a key of the form `tr...:<yes>,<no>`: the part
/// before the first `:` begins with `tr` (whatever the case) and both lists
/// are non-empty.
pub open spec fn custom_truthy_of(key: Seq<char>) -> Option<(Seq<char>, Seq<char>)> {
    let t = trimmed(key);
    let head = head_of(t, ':');
    let tail = tail_of(t, ':');
    let yes = head_of(tail, ',');
    let no = tail_of(tail, ',');
    if tail.len() > 1 && head.len() > 1 && has_prefix_ci(head, "tr"@) && yes.len() > 0 && no.len()
        > 0 {
        Some((yes, no))
    } else {
        None
    }
}

/// The format that one of the fixed keys names, if it is one.
pub open spec fn fixed_format_of(key: Seq<char>) -> Option<FormatView> {
    if key == "s"@ || key == "str"@ || key == "string"@ || key == "t"@ || key == "txt"@ || key
        == "text"@ {
        Some(FormatView::Text)
    } else if key == "i"@ || key == "int"@ || key == "integer"@ {
        Some(FormatView::Integer)
    } else if key == "d1"@ || key == "decimal_1"@ {
        Some(FormatView::Decimal(1))
    } else if key == "d2"@ || key == "decimal_2"@ {
        Some(FormatView::Decimal(2))
    } else if key == "d3"@ || key == "decimal_3"@ {
        Some(FormatView::Decimal(3))
    } else if key == "d4"@ || key == "decimal_4"@ {
        Some(FormatView::Decimal(4))
    } else if key == "d5"@ || key == "decimal_5"@ {
        Some(FormatView::Decimal(5))
    } else if key == "d6"@ || key == "decimal_6"@ || key == "d7"@ || key == "decimal_7"@ || key
        == "d8"@ || key == "decimal_8"@ {
        Some(FormatView::Decimal(6))
    } else if key == "fl"@ || key == "f"@ || key == "float"@ {
        Some(FormatView::Float)
    } else if key == "b"@ || key == "bool"@ || key == "boolean"@ {
        Some(FormatView::Boolean)
    } else if key == "da"@ || key == "date"@ {
        Some(FormatView::Date)
    } else if key == "dt"@ || key == "datetime"@ {
        Some(FormatView::DateTime)
    } else if key == "tr"@ || key == "truthy"@ {
        Some(FormatView::Truthy)
    } else {
        None
    }
}

/// The format that a key names. A key that names none gives `Auto`: no key
/// is ever refused.
pub open spec fn format_of_key(key: Seq<char>) -> FormatView {
    match fixed_format_of(key) {
        Some(f) => f,
        None => match custom_dt_of(key) {
            Some(pattern) => FormatView::DateTimeCustom(pattern),
            None => match custom_truthy_of(key) {
                Some((yes, no)) => FormatView::TruthyCustom(
                    truth_options_of(yes, no, false, false),
                ),
                None => FormatView::Auto,
            },
        },
    }
}

/// The name under which a format is shown.
pub open spec fn format_name(f: FormatView) -> Seq<char> {
    match f {
        FormatView::Auto => "auto"@,
        FormatView::Text => "text"@,
        FormatView::Integer => "integer"@,
        FormatView::Decimal(n) => "decimal("@ + decimal_digits(n as nat) + ")"@,
        FormatView::Float => "float"@,
        FormatView::Boolean => "boolean"@,
        FormatView::Date => "date"@,
        FormatView::DateTime => "datetime"@,
        FormatView::DateTimeCustom(p) => "datetime("@ + p + ")"@,
        FormatView::Truthy => "truthy"@,
        FormatView::TruthyCustom(opts) => "truthy("@ + joined(truth_patterns_of(opts, true), "|"@)
            + ","@ + joined(truth_patterns_of(opts, false), "|"@) + ")"@,
    }
}

/// The pattern of a key of the form `dt:<pattern>`.
pub fn match_custom_dt(key: &str) -> (r: Option<String>)
    ensures
        match r {
            Some(p) => custom_dt_of(key@) == Some(p@),
            None => custom_dt_of(key@) is None,
        },
{
    let t = trim_chars(&to_chars(key));
    let text = string_of_chars(&t);
    if starts_with_ci(text.as_str(), "dt:") && t.len() >= 3 {
        let p = string_of_chars(&chars_range(&t, 3, t.len()));
        assert(t@.subrange(3, t@.len() as int) =~= t@.skip(3));
        Some(p)
    } else {
        None
    }
}

/// The two pattern lists, for true and for false, of a key of the form `tr:<yes>,<no>`.
pub fn match_custom_truthy(key: &str) -> (r: Option<(String, String)>)
    ensures
        match r {
            Some(lists) => custom_truthy_of(key@) == Some((lists.0@, lists.1@)),
            None => custom_truthy_of(key@) is None,
        },
{
    let t = trim_chars(&to_chars(key));
    let (head, tail) = split_head_tail(&t, ':');
    if tail.len() > 1 && head.len() > 1 && starts_with_ci(string_of_chars(&head).as_str(), "tr") {
        let (yes, no) = split_head_tail(&tail, ',');
        if yes.len() > 0 && no.len() > 0 {
            return Some((string_of_chars(&yes), string_of_chars(&no)));
        }
    }
    None
}

/// The format that one of the fixed keys names.
fn fixed_format(key: &str) -> (r: Option<Format>)
    ensures
        match r {
            Some(f) => fixed_format_of(key@) == Some(f@),
            None => fixed_format_of(key@) is None,
        },
{
    let k = to_chars(key);
    if chars_are(&k, "s") || chars_are(&k, "str") || chars_are(&k, "string") || chars_are(&k, "t")
        || chars_are(&k, "txt") || chars_are(&k, "text") {
        Some(Format::Text)
    } else if chars_are(&k, "i") || chars_are(&k, "int") || chars_are(&k, "integer") {
        Some(Format::Integer)
    } else if chars_are(&k, "d1") || chars_are(&k, "decimal_1") {
        Some(Format::Decimal(1))
    } else if chars_are(&k, "d2") || chars_are(&k, "decimal_2") {
        Some(Format::Decimal(2))
    } else if chars_are(&k, "d3") || chars_are(&k, "decimal_3") {
        Some(Format::Decimal(3))
    } else if chars_are(&k, "d4") || chars_are(&k, "decimal_4") {
        Some(Format::Decimal(4))
    } else if chars_are(&k, "d5") || chars_are(&k, "decimal_5") {
        Some(Format::Decimal(5))
    } else if chars_are(&k, "d6") || chars_are(&k, "decimal_6") || chars_are(&k, "d7")
        || chars_are(&k, "decimal_7") || chars_are(&k, "d8") || chars_are(&k, "decimal_8") {
        Some(Format::Decimal(6))
    } else if chars_are(&k, "fl") || chars_are(&k, "f") || chars_are(&k, "float") {
        Some(Format::Float)
    } else if chars_are(&k, "b") || chars_are(&k, "bool") || chars_are(&k, "boolean") {
        Some(Format::Boolean)
    } else if chars_are(&k, "da") || chars_are(&k, "date") {
        Some(Format::Date)
    } else if chars_are(&k, "dt") || chars_are(&k, "datetime") {
        Some(Format::DateTime)
    } else if chars_are(&k, "tr") || chars_are(&k, "truthy") {
        Some(Format::Truthy)
    } else {
        None
    }
}

/// A copy of a list of rules.
pub fn clone_options(opts: &Vec<TruthyOption>) -> (r: Vec<TruthyOption>)
    ensures
        options_view(r@) == options_view(opts@),
{
    let mut r: Vec<TruthyOption> = Vec::new();
    let mut i: usize = 0;
    while i < opts.len()
        invariant
            i <= opts.len(),
            r.len() == i,
            forall|j: int| 0 <= j < i ==> r@[j]@ == opts@[j]@,
        decreases opts.len() - i,
    {
        r.push(opts[i].duplicate());
        i += 1;
    }
    assert(options_view(r@) =~= options_view(opts@));
    r
}

impl Format {
    /// The format that a key of the grammar names; `Auto` for any other key.
    pub fn from_key(key: &str) -> (r: Format)
        ensures
            r@ == format_of_key(key@),
    {
        match fixed_format(key) {
            Some(f) => f,
            None => match match_custom_dt(key) {
                Some(pattern) => Format::DateTimeCustom(pattern),
                None => match match_custom_truthy(key) {
                    Some((yes, no)) => Format::TruthyCustom(
                        to_truth_options(yes.as_str(), no.as_str(), false, false),
                    ),
                    None => Format::Auto,
                },
            },
        }
    }

    /// Booleans by two `|`-separated lists of patterns, for true and for false.
    pub fn truthy_custom(yes: &str, no: &str) -> (r: Format)
        ensures
            r@ == FormatView::TruthyCustom(truth_options_of(yes@, no@, false, false)),
    {
        Format::TruthyCustom(to_truth_options(yes, no, false, false))
    }

    /// The name under which the format is shown, such as `decimal(3)`.
    pub fn to_string(&self) -> (r: String)
        ensures
            r@ == format_name(self@),
    {
        match self {
            Format::Auto => "auto".to_string(),
            Format::Text => "text".to_string(),
            Format::Integer => "integer".to_string(),
            Format::Decimal(n) => {
                let mut out: Vec<char> = Vec::new();
                push_text(&mut out, "decimal(");
                push_decimal(&mut out, *n as u128);
                push_text(&mut out, ")");
                assert(out@ =~= "decimal("@ + decimal_digits(*n as nat) + ")"@);
                string_of_chars(&out)
            },
            Format::Float => "float".to_string(),
            Format::Boolean => "boolean".to_string(),
            Format::Date => "date".to_string(),
            Format::DateTime => "datetime".to_string(),
            Format::DateTimeCustom(p) => {
                let mut out: Vec<char> = Vec::new();
                push_text(&mut out, "datetime(");
                push_text(&mut out, p.as_str());
                push_text(&mut out, ")");
                assert(out@ =~= "datetime("@ + p@ + ")"@);
                string_of_chars(&out)
            },
            Format::Truthy => "truthy".to_string(),
            Format::TruthyCustom(opts) => {
                let yes = join_texts(&extract_truth_patterns(opts.as_slice(), true), "|");
                let no = join_texts(&extract_truth_patterns(opts.as_slice(), false), "|");
                let mut out: Vec<char> = Vec::new();
                push_text(&mut out, "truthy(");
                push_text(&mut out, yes.as_str());
                push_text(&mut out, ",");
                push_text(&mut out, no.as_str());
                push_text(&mut out, ")");
                assert(out@ =~= "truthy("@ + yes@ + ","@ + no@ + ")"@);
                string_of_chars(&out)
            },
        }
    }

    /// A copy of the format.
    pub fn duplicate(&self) -> (r: Format)
        ensures
            r@ == self@,
    {
        match self {
            Format::Auto => Format::Auto,
            Format::Text => Format::Text,
            Format::Integer => Format::Integer,
            Format::Decimal(n) => Format::Decimal(*n),
            Format::Float => Format::Float,
            Format::Boolean => Format::Boolean,
            Format::Date => Format::Date,
            Format::DateTime => Format::DateTime,
            Format::DateTimeCustom(p) => Format::DateTimeCustom(p.clone()),
            Format::Truthy => Format::Truthy,
            Format::TruthyCustom(opts) => Format::TruthyCustom(clone_options(opts)),
        }
    }
}

impl Clone for Format {
    fn clone(&self) -> (r: Self)
        ensures
            r@ == self@,
    {
        self.duplicate()
    }
}

impl std::str::FromStr for Format {
    type Err = GenericError;

    /// Reads a key of the grammar; this never fails.
    fn from_str(key: &str) -> (r: Result<Self, Self::Err>)
        ensures
            r is Ok,
            r->Ok_0@ == format_of_key(key@),
    {
        Ok(Format::from_key(key))
    }
}

} // verus!
