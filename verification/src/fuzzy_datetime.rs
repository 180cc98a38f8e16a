//! Repair of loosely written dates and times into a canonical ISO-like form.
//!
//! A text such as `2023-8-29 19:34:39` is read as a date word and a time
//! word; each is cut into numeric fields, missing fields are filled in, the
//! calendar bounds are checked and the result is written with fixed widths.

use vstd::prelude::*;
use vstd::string::*;
use crate::error::GenericError;
use crate::numerals::{digits_value, parse_bounded, parse_u8, push_zero_padded, zero_padded};
use crate::text::{
    after_last_index_of, all_digits, chars_range, contains_alphabetic, digit_fields,
    find_after_last_char, find_char, first_index_of, has_alphabetic, is_all_digits,
    lemma_after_last_index_of, lemma_first_index_of, replace_char, replaced, skip_spaces,
    skip_spaces_from, skip_word, skip_word_from, split_digit_fields, string_of_chars, texts_of,
    to_chars,
};

verus! {

/// The part of the text before its last `.`; the whole text if it has none.
pub open spec fn before_fraction(dt: Seq<char>) -> Seq<char> {
    let k = after_last_index_of(dt, '.');
    if k == 0 {
        dt
    } else {
        dt.take(k - 1)
    }
}

/// The part of the text after its last `.`; empty if it has none.
pub open spec fn after_fraction(dt: Seq<char>) -> Seq<char> {
    let k = after_last_index_of(dt, '.');
    if k == 0 {
        Seq::<char>::empty()
    } else {
        dt.skip(k)
    }
}

/// The text in which date and time are read: the part before the fraction,
/// with every `T` turned into a space.
pub open spec fn date_time_words(dt: Seq<char>) -> Seq<char> {
    replaced(before_fraction(dt), 'T', ' ')
}

/// The first whitespace-separated word, or `0000-01-01` if there is none.
pub open spec fn date_word(dt: Seq<char>) -> Seq<char> {
    let s = date_time_words(dt);
    let a = skip_spaces(s, 0);
    let b = skip_word(s, a);
    if a == b {
        "0000-01-01"@
    } else {
        s.subrange(a, b)
    }
}

/// The second whitespace-separated word, or `00:00:00` if there is none.
pub open spec fn time_word(dt: Seq<char>) -> Seq<char> {
    let s = date_time_words(dt);
    let b = skip_word(s, skip_spaces(s, 0));
    let a2 = skip_spaces(s, b);
    let b2 = skip_word(s, a2);
    if a2 == b2 {
        "00:00:00"@
    } else {
        s.subrange(a2, b2)
    }
}

/// The number up to 255 that a field denotes, or 0 if it denotes none.
pub open spec fn field_number(field: Seq<char>) -> nat {
    if field.len() > 0 && all_digits(field) && digits_value(field) <= 255 {
        digits_value(field)
    } else {
        0
    }
}

/// The month of a date word: its second numeric field, or 1 if it has one field only.
pub open spec fn month_of(word: Seq<char>) -> nat {
    let fields = digit_fields(word, '-');
    if fields.len() > 1 {
        field_number(fields[1])
    } else {
        1
    }
}

/// The day of a date word: its third numeric field, or 1 if it has fewer.
pub open spec fn day_of(word: Seq<char>) -> nat {
    let fields = digit_fields(word, '-');
    if fields.len() > 2 {
        field_number(fields[2])
    } else {
        1
    }
}

/// The canonical date `Y-MM-DD` of a date word, if it has one.
///
/// The word may hold no letter and needs at least one numeric field, which is
/// the year and is kept as written. The month lies in 1..=12, the day in 1..=31.
pub open spec fn normalized_date_word(word: Seq<char>) -> Option<Seq<char>> {
    let fields = digit_fields(word, '-');
    let month = month_of(word);
    let day = day_of(word);
    if has_alphabetic(word) || fields.len() < 1 {
        None
    } else if month < 1 || month > 12 || day < 1 || day > 31 {
        None
    } else {
        Some(fields[0] + seq!['-'] + zero_padded(month, 2) + seq!['-'] + zero_padded(day, 2))
    }
}

/// The `i`th numeric field of a time word as a number, 0 if it is missing.
pub open spec fn time_number(word: Seq<char>, i: int) -> nat {
    let fields = digit_fields(word, ':');
    if 0 <= i < fields.len() {
        field_number(fields[i])
    } else {
        0
    }
}

/// The canonical time `HH:MM:SS` of a time word, if it has one.
///
/// The text before the first `:` holds digits only; hours lie in 0..=23,
/// minutes and seconds in 0..=59.
pub open spec fn normalized_time_word(word: Seq<char>) -> Option<Seq<char>> {
    let hrs = time_number(word, 0);
    let mins = time_number(word, 1);
    let secs = time_number(word, 2);
    if !all_digits(word.take(first_index_of(word, ':'))) {
        None
    } else if hrs > 23 || mins > 59 || secs > 59 {
        None
    } else {
        Some(
            zero_padded(hrs, 2) + seq![':'] + zero_padded(mins, 2) + seq![':'] + zero_padded(
                secs,
                2,
            ),
        )
    }
}

/// The milliseconds that a fraction denotes: its first three characters read
/// as a number (a leading `+` is allowed), 0 if they are no number.
pub open spec fn millis_of(fraction: Seq<char>) -> nat {
    let head = if fraction.len() > 3 {
        fraction.take(3)
    } else {
        fraction
    };
    let body = if head.len() > 0 && head[0] == '+' {
        head.drop_first()
    } else {
        head
    };
    if body.len() > 0 && all_digits(body) && digits_value(body) <= 999 {
        digits_value(body)
    } else {
        0
    }
}

/// The canonical date of a loosely written date-time, if it has one.
pub open spec fn normalized_date(dt: Seq<char>) -> Option<Seq<char>> {
    normalized_date_word(date_word(dt))
}

/// The suffix `.mmmZ` for a fraction.
pub open spec fn zone_suffix(fraction: Seq<char>) -> Seq<char> {
    seq!['.'] + zero_padded(millis_of(fraction), 3) + seq!['Z']
}

/// The canonical form of a loosely written date-time, if it has one: date,
/// `separator`, time and, where `add_z` is set, milliseconds and `Z`.
pub open spec fn normalized_datetime(dt: Seq<char>, separator: char, add_z: bool) -> Option<
    Seq<char>,
> {
    match (normalized_date(dt), normalized_time_word(time_word(dt))) {
        (Some(date), Some(time)) => Some(
            date + seq![separator] + time + (if add_z {
                zone_suffix(after_fraction(dt))
            } else {
                Seq::<char>::empty()
            }),
        ),
        _ => None,
    }
}

/// The date word, the time word and the fraction of a loosely written date-time.
pub fn split_date_time(v: &Vec<char>) -> (r: (Vec<char>, Vec<char>, Vec<char>))
    ensures
        r.0@ == date_word(v@),
        r.1@ == time_word(v@),
        r.2@ == after_fraction(v@),
{
    let k = find_after_last_char(v, '.');
    proof {
        lemma_after_last_index_of(v@, '.');
    }
    let base = if k == 0 {
        chars_range(v, 0, v.len())
    } else {
        chars_range(v, 0, k - 1)
    };
    let fraction = if k == 0 {
        Vec::new()
    } else {
        chars_range(v, k, v.len())
    };
    assert(v@.subrange(0, v.len() as int) =~= v@);
    assert(base@ =~= before_fraction(v@));
    assert(fraction@ =~= after_fraction(v@));
    let words = replace_char(&base, 'T', ' ');
    let a = skip_spaces_from(&words, 0);
    let b = skip_word_from(&words, a);
    let a2 = skip_spaces_from(&words, b);
    let b2 = skip_word_from(&words, a2);
    let date = if a == b {
        to_chars("0000-01-01")
    } else {
        chars_range(&words, a, b)
    };
    let time = if a2 == b2 {
        to_chars("00:00:00")
    } else {
        chars_range(&words, a2, b2)
    };
    (date, time, fraction)
}

/// The number up to 255 that a field denotes, or 0 if it denotes none.
pub fn field_to_number(field: &Vec<char>) -> (r: u8)
    ensures
        r == field_number(field@),
{
    match parse_u8(field) {
        Some(n) => n,
        None => 0,
    }
}

/// Appends a two-digit number.
fn push_two_digits(out: &mut Vec<char>, n: u8)
    ensures
        final(out)@ == old(out)@ + zero_padded(n as nat, 2),
{
    push_zero_padded(out, n as u128, 2);
}

/// The canonical date `Y-MM-DD` of a date word, if it has one.
pub fn normalize_date_word(word: &Vec<char>) -> (r: Option<Vec<char>>)
    ensures
        match r {
            Some(d) => normalized_date_word(word@) == Some(d@),
            None => normalized_date_word(word@) is None,
        },
{
    if contains_alphabetic(word) {
        return None;
    }
    let fields = split_digit_fields(word, '-');
    if fields.len() < 1 {
        return None;
    }
    assert(texts_of(fields@)[0] == fields@[0]@);
    let month = if fields.len() > 1 {
        assert(texts_of(fields@)[1] == fields@[1]@);
        field_to_number(&fields[1])
    } else {
        1
    };
    let day = if fields.len() > 2 {
        assert(texts_of(fields@)[2] == fields@[2]@);
        field_to_number(&fields[2])
    } else {
        1
    };
    if month < 1 || month > 12 || day < 1 || day > 31 {
        return None;
    }
    let mut out: Vec<char> = chars_range(&fields[0], 0, fields[0].len());
    assert(out@ =~= fields@[0]@);
    out.push('-');
    push_two_digits(&mut out, month);
    out.push('-');
    push_two_digits(&mut out, day);
    assert(out@ =~= fields@[0]@ + seq!['-'] + zero_padded(month as nat, 2) + seq!['-']
        + zero_padded(day as nat, 2));
    Some(out)
}

/// The canonical time `HH:MM:SS` of a time word, if it has one.
pub fn normalize_time_word(word: &Vec<char>) -> (r: Option<Vec<char>>)
    ensures
        match r {
            Some(t) => normalized_time_word(word@) == Some(t@),
            None => normalized_time_word(word@) is None,
        },
{
    let k = find_char(word, ':');
    proof {
        lemma_first_index_of(word@, ':');
    }
    let first = chars_range(word, 0, k);
    assert(first@ =~= word@.take(k as int));
    if !is_all_digits(&first) {
        return None;
    }
    let fields = split_digit_fields(word, ':');
    let hrs = if fields.len() > 0 {
        assert(texts_of(fields@)[0] == fields@[0]@);
        field_to_number(&fields[0])
    } else {
        0
    };
    let mins = if fields.len() > 1 {
        assert(texts_of(fields@)[1] == fields@[1]@);
        field_to_number(&fields[1])
    } else {
        0
    };
    let secs = if fields.len() > 2 {
        assert(texts_of(fields@)[2] == fields@[2]@);
        field_to_number(&fields[2])
    } else {
        0
    };
    if hrs > 23 || mins > 59 || secs > 59 {
        return None;
    }
    let mut out: Vec<char> = Vec::new();
    push_two_digits(&mut out, hrs);
    out.push(':');
    push_two_digits(&mut out, mins);
    out.push(':');
    push_two_digits(&mut out, secs);
    assert(out@ =~= zero_padded(hrs as nat, 2) + seq![':'] + zero_padded(mins as nat, 2) + seq![
        ':',
    ] + zero_padded(secs as nat, 2));
    Some(out)
}

/// The milliseconds that a fraction denotes.
pub fn fraction_to_millis(fraction: &Vec<char>) -> (r: u16)
    ensures
        r == millis_of(fraction@),
{
    let end: usize = if fraction.len() > 3 {
        3
    } else {
        fraction.len()
    };
    let start: usize = if end > 0 && fraction[0] == '+' {
        1
    } else {
        0
    };
    let body = chars_range(fraction, start, end);
    proof {
        let head = if fraction@.len() > 3 {
            fraction@.take(3)
        } else {
            fraction@
        };
        assert(head =~= fraction@.subrange(0, end as int));
        if start == 1 {
            assert(head.drop_first() =~= body@);
        } else {
            assert(head =~= body@);
        }
    }
    match parse_bounded(&body, 999) {
        Some(n) => n,
        None => 0,
    }
}

/// Repairs a loosely written date-time and gives its canonical date, its
/// time word as written and what follows the last `.`.
///
/// `None` where the date word holds a letter, has no numeric field, or its
/// month or day is out of range.
pub fn fuzzy_to_date_string_with_time(dt: &str) -> (r: Option<(String, String, String)>)
    ensures
        match r {
            Some(parts) => normalized_date(dt@) == Some(parts.0@) && parts.1@ == time_word(dt@)
                && parts.2@ == after_fraction(dt@),
            None => normalized_date(dt@) is None,
        },
{
    let v = to_chars(dt);
    let (date, time, fraction) = split_date_time(&v);
    match normalize_date_word(&date) {
        Some(d) => Some((string_of_chars(&d), string_of_chars(&time), string_of_chars(&fraction))),
        None => None,
    }
}

/// Repairs a loosely written date and gives it as `Y-MM-DD`.
pub fn fuzzy_to_date_string(dt: &str) -> (r: Option<String>)
    ensures
        match r {
            Some(d) => normalized_date(dt@) == Some(d@),
            None => normalized_date(dt@) is None,
        },
{
    let v = to_chars(dt);
    let (date, _time, _fraction) = split_date_time(&v);
    match normalize_date_word(&date) {
        Some(d) => Some(string_of_chars(&d)),
        None => None,
    }
}

/// Repairs a loosely written date-time and gives it as date, `separator`,
/// `HH:MM:SS` and, where `add_z` is set, `.mmmZ`.
///
/// `None` where the date or the time cannot be repaired.
pub fn fuzzy_to_datetime_string_opts(dt: &str, separator: char, add_z: bool) -> (r: Option<String>)
    ensures
        match r {
            Some(s) => normalized_datetime(dt@, separator, add_z) == Some(s@),
            None => normalized_datetime(dt@, separator, add_z) is None,
        },
{
    let v = to_chars(dt);
    let (date, time, fraction) = split_date_time(&v);
    let d = match normalize_date_word(&date) {
        Some(d) => d,
        None => {
            return None;
        },
    };
    let t = match normalize_time_word(&time) {
        Some(t) => t,
        None => {
            return None;
        },
    };
    let mut out: Vec<char> = d;
    out.push(separator);
    let mut i: usize = 0;
    let ghost head = out@;
    while i < t.len()
        invariant
            i <= t.len(),
            out@ =~= head + t@.take(i as int),
        decreases t.len() - i,
    {
        out.push(t[i]);
        i += 1;
    }
    assert(t@.take(t.len() as int) =~= t@);
    if add_z {
        let ms = fraction_to_millis(&fraction);
        out.push('.');
        push_zero_padded(&mut out, ms as u128, 3);
        out.push('Z');
        assert(out@ =~= head + t@ + zone_suffix(fraction@));
    } else {
        assert(out@ =~= head + t@ + Seq::<char>::empty());
    }
    Some(string_of_chars(&out))
}

/// Repairs a loosely written date-time into `Y-MM-DDTHH:MM:SS.mmmZ`.
pub fn fuzzy_to_datetime_string(dt: &str) -> (r: Option<String>)
    ensures
        match r {
            Some(s) => normalized_datetime(dt@, 'T', true) == Some(s@),
            None => normalized_datetime(dt@, 'T', true) is None,
        },
{
    fuzzy_to_datetime_string_opts(dt, 'T', true)
}

/// Whether the text can be repaired into a date-time.
pub fn is_datetime_like(text: &str) -> (r: bool)
    ensures
        r == normalized_datetime(text@, 'T', true).is_some(),
{
    fuzzy_to_datetime_string(text).is_some()
}

/// `chrono::NaiveDateTime`, a calendar date with a time of day; carried, never inspected.
#[verifier::external_type_specification]
#[verifier::external_body]
pub struct ExNaiveDateTime(chrono::NaiveDateTime);

/// Why the calendar library did not accept a text.
#[derive(Debug, Clone, Copy, PartialEq, Eq, Structural)]
pub enum ParseFailure {
    /// The format pattern itself was faulty.
    BadFormat,
    /// The text does not denote a date and time in the pattern.
    Other,
}

/// What `chrono::NaiveDateTime::parse_from_str` makes of a text under a
/// pattern: `None` where it accepts the text, else the failure.
pub uninterp spec fn chrono_failure(text: Seq<char>, pattern: Seq<char>) -> Option<ParseFailure>;

/// Calls `chrono::NaiveDateTime::parse_from_str`. Whether it accepts depends
/// on the text and the pattern alone; the outcome is named [`chrono_failure`].
/// Of the parsed value nothing is claimed. A failure is reported by its kind:
/// `BadFormat` or any other.
#[verifier::external_body]
fn parse_naive_datetime(text: &str, pattern: &str) -> (r: Result<
    chrono::NaiveDateTime,
    ParseFailure,
>)
    ensures
        match r {
            Ok(_) => chrono_failure(text@, pattern@) is None,
            Err(f) => chrono_failure(text@, pattern@) == Some(f),
        },
{
    match chrono::NaiveDateTime::parse_from_str(text, pattern) {
        Ok(parsed) => Ok(parsed),
        Err(e) => Err(
            match e.kind() {
                chrono::format::ParseErrorKind::BadFormat => ParseFailure::BadFormat,
                _ => ParseFailure::Other,
            },
        ),
    }
}

/// The reason code for a calendar failure.
pub open spec fn failure_code(f: ParseFailure) -> Seq<char> {
    match f {
        ParseFailure::BadFormat => "bad_format"@,
        ParseFailure::Other => "invalid_date_string"@,
    }
}

/// Whether a loosely written date-time denotes a moment of the calendar: it
/// can be repaired, and the calendar library accepts the repaired text.
pub open spec fn denotes_datetime(dt: Seq<char>) -> bool {
    match normalized_datetime(dt, 'T', true) {
        Some(s) => chrono_failure(s, "%Y-%m-%dT%H:%M:%S%.3fZ"@) is None,
        None => false,
    }
}

/// The reason code with which a text that denotes no moment is refused.
pub open spec fn datetime_refusal(dt: Seq<char>) -> Seq<char> {
    match normalized_datetime(dt, 'T', true) {
        Some(s) => match chrono_failure(s, "%Y-%m-%dT%H:%M:%S%.3fZ"@) {
            Some(f) => failure_code(f),
            None => Seq::<char>::empty(),
        },
        None => "invalid_date_string"@,
    }
}

/// Turns the calendar library's verdict into this crate's result: a parsed
/// value is passed on, a failure becomes its reason code.
pub fn datetime_result(parsed: Result<chrono::NaiveDateTime, ParseFailure>) -> (r: Result<
    chrono::NaiveDateTime,
    GenericError,
>)
    ensures
        match (parsed, r) {
            (Ok(d), Ok(e)) => d == e,
            (Err(f), Err(e)) => e.code() == failure_code(f),
            _ => false,
        },
{
    match parsed {
        Ok(d) => Ok(d),
        Err(ParseFailure::BadFormat) => Err(GenericError("bad_format")),
        Err(ParseFailure::Other) => Err(GenericError("invalid_date_string")),
    }
}

/// Repairs a loosely written date-time and reads it as a moment of the calendar.
///
/// Fails with `invalid_date_string` where the text cannot be repaired or the
/// repaired text denotes no moment, and with `bad_format` where the calendar
/// library reports a faulty pattern.
pub fn fuzzy_to_datetime(dt: &str) -> (r: Result<chrono::NaiveDateTime, GenericError>)
    ensures
        r is Ok <==> denotes_datetime(dt@),
        r is Err ==> r->Err_0.code() == datetime_refusal(dt@),
{
    match fuzzy_to_datetime_string(dt) {
        Some(formatted) => datetime_result(
            parse_naive_datetime(formatted.as_str(), "%Y-%m-%dT%H:%M:%S%.3fZ"),
        ),
        None => Err(GenericError("invalid_date_string")),
    }
}

} // verus!
