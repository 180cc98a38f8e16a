//! Column keys: from the header row, from declared columns, or from the position.

use vstd::prelude::*;
use vstd::string::*;
use indexmap::IndexMap;
use crate::column::{columns_view, Column, ColumnView};
use crate::modes::FieldNameMode;
use crate::numerals::{decimal_digits, digit_value, digits_value, lemma_digits_value_of_numeral,
    push_zero_padded, zero_padded};
use crate::text::{contains_text, push_text, snake_case_of, string_of_chars, strings_view,
    to_snake_case};
use crate::value::{record_entries, record_entry_at, record_len, value_text, CellValue,
    CellValueView};

verus! {

/// `char::from_u32` of the standard library: the character with a given
/// code, if the code is a Unicode scalar value (at most `0x10FFFF` and no
/// surrogate).
pub assume_specification[ char::from_u32 ](i: u32) -> (r: Option<char>)
    ensures
        r is Some <==> is_scalar_value(i),
        r is Some ==> r->0 as u32 == i,
;

/// Whether a code is a Unicode scalar value.
pub open spec fn is_scalar_value(i: u32) -> bool {
    i <= 0x10FFFF && !(0xD800 <= i <= 0xDFFF)
}

/// Whether `c` is the letter of a position in the alphabet: `a` for 0, up
/// to `z` for 25. Beyond that, the character whose code is 97 plus the
/// position, or a space if there is none.
pub open spec fn is_letter_of(c: char, index: u32) -> bool {
    if index <= u32::MAX - 97 && is_scalar_value((97 + index) as u32) {
        c as u32 == 97 + index
    } else {
        c == ' '
    }
}

/// The small letter at a position below 26.
pub open spec fn small_letter(position: nat) -> char
    recommends
        position < 26,
{
    ((position + 97) as u8) as char
}

/// The key of a column in spreadsheet letters: `a` to `z`, then `aa`, `ab`, ...
pub open spec fn a1_key(index: nat) -> Seq<char>
    decreases index,
{
    if index < 26 {
        seq![small_letter(index)]
    } else {
        a1_key((index / 26 - 1) as nat).push(small_letter(index % 26))
    }
}

/// The width of a padded number for a count of columns: 2 digits under 100
/// columns, 3 under 1000, 4 under 10000, else 5.
pub open spec fn pad_width(num_cols: nat) -> nat {
    if num_cols < 100 {
        2
    } else if num_cols < 1000 {
        3
    } else if num_cols < 10000 {
        4
    } else {
        5
    }
}

/// A prefix followed by the number of a column, counted from 1 and padded with zeros.
pub open spec fn padded_key(prefix: Seq<char>, index: nat, num_cols: nat) -> Seq<char> {
    prefix + zero_padded(index + 1, pad_width(num_cols))
}

/// The synthetic key of a column: by padded number or by letters.
pub open spec fn head_key(index: nat, field_mode: FieldNameMode, num_cols: nat) -> Seq<char> {
    if field_mode.spec_use_c01() {
        padded_key("c"@, index, num_cols)
    } else {
        a1_key(index)
    }
}

/// A key that is free to use as it is, or else with the padded number of the
/// column behind it.
pub open spec fn unique_key(
    earlier: Seq<Seq<char>>,
    key: Seq<char>,
    index: nat,
    num_cols: nat,
) -> Seq<char> {
    if earlier.contains(key) {
        padded_key(key, index, num_cols)
    } else {
        key
    }
}

/// The key declared for a column, if one is declared and it is not empty.
pub open spec fn declared_key(columns: Seq<ColumnView>, index: int) -> Option<Seq<char>> {
    if 0 <= index < columns.len() {
        match columns[index].key {
            Some(k) => if k.len() > 0 {
                Some(k)
            } else {
                None
            },
            None => None,
        }
    } else {
        None
    }
}

/// The key of one column, given the keys of the columns before it.
///
/// 1. A declared, non-empty key is used as it is.
/// 2. Else, where headers are kept and the cell's snake-case form is not
///    empty, that form is used.
/// 3. Else the key is synthetic, by position.
///
/// In the first two cases a key that an earlier column already has is
/// followed by the padded number of the column.
pub open spec fn header_key(
    earlier: Seq<Seq<char>>,
    cell: Seq<char>,
    declared: Option<Seq<char>>,
    field_mode: FieldNameMode,
    index: nat,
    num_cols: nat,
) -> Seq<char> {
    match declared {
        Some(k) => unique_key(earlier, k, index, num_cols),
        None => {
            let sn = snake_case_of(cell);
            if field_mode.spec_keep_headers() && sn.len() > 0 {
                unique_key(earlier, sn, index, num_cols)
            } else {
                head_key(index, field_mode, num_cols)
            }
        },
    }
}

/// The keys of the first `n` columns of a header row.
pub open spec fn header_keys_upto(
    first_row: Seq<Seq<char>>,
    columns: Seq<ColumnView>,
    field_mode: FieldNameMode,
    n: nat,
) -> Seq<Seq<char>>
    decreases n,
{
    if n == 0 || n > first_row.len() {
        Seq::<Seq<char>>::empty()
    } else {
        let earlier = header_keys_upto(first_row, columns, field_mode, (n - 1) as nat);
        earlier.push(
            header_key(
                earlier,
                first_row[n - 1],
                declared_key(columns, n - 1),
                field_mode,
                (n - 1) as nat,
                first_row.len(),
            ),
        )
    }
}

/// The keys of all the columns of a header row.
pub open spec fn header_keys(
    first_row: Seq<Seq<char>>,
    columns: Seq<ColumnView>,
    field_mode: FieldNameMode,
) -> Seq<Seq<char>> {
    header_keys_upto(first_row, columns, field_mode, first_row.len())
}

/// There is one key for each column of the header row.
pub proof fn lemma_header_keys_len(
    first_row: Seq<Seq<char>>,
    columns: Seq<ColumnView>,
    field_mode: FieldNameMode,
    n: nat,
)
    requires
        n <= first_row.len(),
    ensures
        header_keys_upto(first_row, columns, field_mode, n).len() == n,
    decreases n,
{
    if n > 0 {
        lemma_header_keys_len(first_row, columns, field_mode, (n - 1) as nat);
    }
}

/// A declared or captured key that an earlier column already has is never
/// used as it is: the key that results is longer, so it differs from it.
pub proof fn lemma_collision_is_suffixed(
    earlier: Seq<Seq<char>>,
    key: Seq<char>,
    index: nat,
    num_cols: nat,
)
    requires
        earlier.contains(key),
    ensures
        unique_key(earlier, key, index, num_cols) == key + zero_padded(
            index + 1,
            pad_width(num_cols),
        ),
        unique_key(earlier, key, index, num_cols).len() > key.len(),
        unique_key(earlier, key, index, num_cols) != key,
{
    crate::numerals::lemma_decimal_digits_shape(index + 1);
}

/// Without declared columns and with headers kept, the key of a column is
/// the snake-case form of its header cell, made unique among the earlier
/// keys, and for a cell whose snake-case form is empty the synthetic key
/// of its position.
pub proof fn lemma_header_key_without_overrides(
    earlier: Seq<Seq<char>>,
    cell: Seq<char>,
    field_mode: FieldNameMode,
    index: nat,
    num_cols: nat,
)
    requires
        field_mode.spec_keep_headers(),
    ensures
        header_key(earlier, cell, declared_key(Seq::empty(), index as int), field_mode, index, num_cols)
            == (if snake_case_of(cell).len() > 0 {
            unique_key(earlier, snake_case_of(cell), index, num_cols)
        } else {
            head_key(index, field_mode, num_cols)
        }),
{
}

/// The letter of a position in the alphabet, `a` for 0.
pub fn to_letter(index: u32) -> (r: char)
    ensures
        is_letter_of(r, index),
        index < 26 ==> r == small_letter(index as nat),
{
    if index < 26 {
        return ((index as u8) + 97) as char;
    }
    if index > u32::MAX - 97 {
        return ' ';
    }
    match char::from_u32(97 + index) {
        Some(c) => c,
        None => ' ',
    }
}

/// Appends the key of a column in spreadsheet letters.
fn push_a1_key(out: &mut Vec<char>, index: usize)
    ensures
        final(out)@ == old(out)@ + a1_key(index as nat),
    decreases index,
{
    if index >= 26 {
        push_a1_key(out, index / 26 - 1);
    }
    let remainder = (index % 26) as u8;
    out.push((remainder + 97) as char);
    assert(final(out)@ =~= old(out)@ + a1_key(index as nat));
}

/// The key of a column in spreadsheet letters: `a` for 0, `z` for 25, `aa` for 26.
pub fn to_a1_col_key(index: usize) -> (r: String)
    ensures
        r@ == a1_key(index as nat),
{
    let mut out: Vec<char> = Vec::new();
    push_a1_key(&mut out, index);
    assert(out@ =~= a1_key(index as nat));
    string_of_chars(&out)
}

/// The width of a padded number for a count of columns.
fn width_for(num_cols: usize) -> (r: usize)
    ensures
        r == pad_width(num_cols as nat),
{
    if num_cols < 100 {
        2
    } else if num_cols < 1000 {
        3
    } else if num_cols < 10000 {
        4
    } else {
        5
    }
}

/// A prefix followed by the number of a column, counted from 1 and padded
/// with zeros to a width that depends on the number of columns.
pub fn to_padded_col_suffix(prefix: &str, index: usize, num_cols: usize) -> (r: String)
    ensures
        r@ == padded_key(prefix@, index as nat, num_cols as nat),
{
    let mut out: Vec<char> = Vec::new();
    push_text(&mut out, prefix);
    push_zero_padded(&mut out, index as u128 + 1, width_for(num_cols));
    assert(out@ =~= padded_key(prefix@, index as nat, num_cols as nat));
    string_of_chars(&out)
}

/// The key of a column by padded number: `c01`, `c02`, ...
pub fn to_c01_col_key(index: usize, num_cols: usize) -> (r: String)
    ensures
        r@ == padded_key("c"@, index as nat, num_cols as nat),
{
    to_padded_col_suffix("c", index, num_cols)
}

/// The synthetic key of a column, by padded number or by letters as the mode says.
pub fn to_head_key(index: usize, field_mode: &FieldNameMode, num_cols: usize) -> (r: String)
    ensures
        r@ == head_key(index as nat, *field_mode, num_cols as nat),
{
    if field_mode.use_c01() {
        to_c01_col_key(index, num_cols)
    } else {
        to_a1_col_key(index)
    }
}

/// The key of a column by padded number in a sheet of a thousand columns: `c0001`, ...
pub fn to_head_key_default(index: usize) -> (r: String)
    ensures
        r@ == padded_key("c"@, index as nat, 1000),
{
    to_c01_col_key(index, 1000)
}

/// A key as it is if no earlier column has it, else followed by the padded
/// number of the column.
fn make_unique(headers: &Vec<String>, key: String, index: usize, num_cols: usize) -> (r: String)
    ensures
        r@ == unique_key(strings_view(headers@), key@, index as nat, num_cols as nat),
{
    if contains_text(headers, key.as_str()) {
        to_padded_col_suffix(key.as_str(), index, num_cols)
    } else {
        key
    }
}

/// The key that is declared for a column and not empty.
fn declared_key_of(columns: &[Column], index: usize) -> (r: Option<String>)
    ensures
        crate::column::optional_text(r) == declared_key(columns_view(columns@), index as int),
{
    if index < columns.len() {
        assert(columns_view(columns@)[index as int] == columns@[index as int]@);
        match &columns[index].key {
            Some(k) => {
                if k.as_str().unicode_len() > 0 {
                    Some(k.clone())
                } else {
                    None
                }
            },
            None => None,
        }
    } else {
        None
    }
}

/// Builds the keys of the columns from a header row: see [`header_key`].
///
/// There is one key for each cell of the row.
pub fn build_header_keys(first_row: &[String], columns: &[Column], field_mode: &FieldNameMode) -> (r:
    Vec<String>)
    ensures
        strings_view(r@) == header_keys(
            strings_view(first_row@),
            columns_view(columns@),
            *field_mode,
        ),
        r@.len() == first_row@.len(),
{
    let mut headers: Vec<String> = Vec::new();
    let num_cols = first_row.len();
    let keep_headers = field_mode.keep_headers();
    let ghost cells = strings_view(first_row@);
    let ghost cols = columns_view(columns@);
    let mut h_index: usize = 0;
    assert(strings_view(headers@) =~= header_keys_upto(cells, cols, *field_mode, 0));
    while h_index < num_cols
        invariant
            h_index <= num_cols,
            num_cols == first_row@.len(),
            cells == strings_view(first_row@),
            cols == columns_view(columns@),
            keep_headers == field_mode.spec_keep_headers(),
            headers@.len() == h_index,
            strings_view(headers@) == header_keys_upto(cells, cols, *field_mode, h_index as nat),
        decreases num_cols - h_index,
    {
        let ghost earlier = strings_view(headers@);
        assert(cells[h_index as int] == first_row@[h_index as int]@);
        let key = match declared_key_of(columns, h_index) {
            Some(k) => make_unique(&headers, k, h_index, num_cols),
            None => {
                let sn = to_snake_case(first_row[h_index].as_str());
                if keep_headers && sn.as_str().unicode_len() > 0 {
                    make_unique(&headers, sn, h_index, num_cols)
                } else {
                    to_head_key(h_index, field_mode, num_cols)
                }
            },
        };
        assert(key@ == header_key(
            earlier,
            cells[h_index as int],
            declared_key(cols, h_index as int),
            *field_mode,
            h_index as nat,
            num_cols as nat,
        ));
        headers.push(key);
        assert(strings_view(headers@) =~= earlier.push(key@));
        h_index += 1;
    }
    headers
}

/// The keys of the columns by letters, whatever the header row holds.
pub fn build_a1_headers(first_row: &[String]) -> (r: Vec<String>)
    ensures
        strings_view(r@) == header_keys(
            strings_view(first_row@),
            Seq::<ColumnView>::empty(),
            FieldNameMode::A1,
        ),
        r@.len() == first_row@.len(),
{
    let columns: Vec<Column> = Vec::new();
    assert(columns_view(columns@) =~= Seq::<ColumnView>::empty());
    build_header_keys(first_row, columns.as_slice(), &FieldNameMode::A1)
}

/// The keys of the columns by padded numbers, whatever the header row holds.
pub fn build_c01_headers(first_row: &[String]) -> (r: Vec<String>)
    ensures
        strings_view(r@) == header_keys(
            strings_view(first_row@),
            Seq::<ColumnView>::empty(),
            FieldNameMode::NumPadded,
        ),
        r@.len() == first_row@.len(),
{
    let columns: Vec<Column> = Vec::new();
    assert(columns_view(columns@) =~= Seq::<ColumnView>::empty());
    build_header_keys(first_row, columns.as_slice(), &FieldNameMode::NumPadded)
}

/// Whether every value of a record, written as text and put in snake case, is one of the keys.
pub open spec fn repeats_header(
    entries: Seq<(Seq<char>, CellValueView)>,
    headers: Seq<Seq<char>>,
) -> bool {
    forall|i: int|
        0 <= i < entries.len() ==> headers.contains(
            snake_case_of(value_text((#[trigger] entries[i]).1)),
        )
}

/// Whether the record of a data row is kept, given the position of the row
/// among the data rows: any record but the first, and the first unless it
/// repeats the header.
pub open spec fn is_data_row(
    entries: Seq<(Seq<char>, CellValueView)>,
    row_index: nat,
    headers: Seq<Seq<char>>,
) -> bool {
    row_index > 0 || !repeats_header(entries, headers)
}

/// Whether the record of a data row is kept, given the position of the row
/// among the data rows. The first data row is dropped if every one of its
/// values, in snake case, is one of the header keys: such a row repeats the header.
pub fn is_not_header_row(
    row_map: &IndexMap<String, CellValue>,
    row_index: usize,
    headers: &Vec<String>,
) -> (r: bool)
    ensures
        r == is_data_row(record_entries(*row_map), row_index as nat, strings_view(headers@)),
{
    if row_index > 0 {
        return true;
    }
    let n = record_len(row_map);
    let ghost entries = record_entries(*row_map);
    let mut i: usize = 0;
    while i < n
        invariant
            i <= n,
            n == entries.len(),
            entries == record_entries(*row_map),
            forall|j: int|
                0 <= j < i ==> strings_view(headers@).contains(
                    snake_case_of(value_text((#[trigger] entries[j]).1)),
                ),
        decreases n - i,
    {
        let (_key, value) = record_entry_at(row_map, i);
        let ref_key = to_snake_case(value.to_json_text().as_str());
        if !contains_text(headers, ref_key.as_str()) {
            assert(!strings_view(headers@).contains(snake_case_of(value_text(entries[i as int].1))));
            return true;
        }
        i += 1;
    }
    false
}

/// The position that a key in spreadsheet letters stands for.
pub open spec fn a1_index(key: Seq<char>) -> int
    decreases key.len(),
{
    if key.len() == 0 {
        -1
    } else {
        (a1_index(key.drop_last()) + 1) * 26 + (key.last() as int - 97)
    }
}

/// The key of a position in spreadsheet letters stands for that position.
pub proof fn lemma_a1_index_of_key(index: nat)
    ensures
        a1_key(index).len() >= 1,
        a1_index(a1_key(index)) == index,
    decreases index,
{
    let key = a1_key(index);
    if index < 26 {
        assert(key.drop_last() =~= Seq::<char>::empty());
        assert(a1_index(key.drop_last()) == -1);
        assert(key.last() == small_letter(index));
    } else {
        let front = (index / 26 - 1) as nat;
        lemma_a1_index_of_key(front);
        assert(key.drop_last() =~= a1_key(front));
        assert(key.last() == small_letter(index % 26));
    }
}

/// Zeros in front of a numeral do not change the number it denotes.
proof fn lemma_leading_zeros(k: nat, d: Seq<char>)
    ensures
        digits_value(Seq::new(k, |i: int| '0') + d) == digits_value(d),
    decreases d.len(), k,
{
    let zeros = Seq::new(k, |i: int| '0');
    if d.len() > 0 {
        lemma_leading_zeros(k, d.drop_last());
        assert((zeros + d).drop_last() =~= zeros + d.drop_last());
        assert((zeros + d).last() == d.last());
    } else if k > 0 {
        let fewer = Seq::new((k - 1) as nat, |i: int| '0');
        lemma_leading_zeros((k - 1) as nat, d);
        assert(zeros + d =~= zeros);
        assert(fewer + d =~= fewer);
        assert(zeros.drop_last() =~= fewer);
        assert(zeros.last() == '0');
        assert(digit_value('0') == 0);
    } else {
        assert(zeros + d =~= d);
    }
}

/// A padded numeral denotes its number.
pub proof fn lemma_zero_padded_value(n: nat, width: nat)
    ensures
        digits_value(zero_padded(n, width)) == n,
{
    lemma_digits_value_of_numeral(n);
    let d = decimal_digits(n);
    if d.len() < width {
        lemma_leading_zeros((width - d.len()) as nat, d);
    }
}

/// Synthetic keys of different positions are different.
pub proof fn lemma_head_keys_differ(i: nat, j: nat, field_mode: FieldNameMode, num_cols: nat)
    requires
        i != j,
    ensures
        head_key(i, field_mode, num_cols) != head_key(j, field_mode, num_cols),
{
    if field_mode.spec_use_c01() {
        let w = pad_width(num_cols);
        let a = zero_padded(i + 1, w);
        let b = zero_padded(j + 1, w);
        lemma_zero_padded_value(i + 1, w);
        lemma_zero_padded_value(j + 1, w);
        assert(a != b);
        if "c"@ + a == "c"@ + b {
            assert(a =~= ("c"@ + a).skip("c"@.len() as int));
            assert(b =~= ("c"@ + b).skip("c"@.len() as int));
        }
    } else {
        lemma_a1_index_of_key(i);
        lemma_a1_index_of_key(j);
    }
}

/// Where the source headers are dropped and no key is declared, every
/// column has the synthetic key of its position.
pub proof fn lemma_keys_are_synthetic(
    first_row: Seq<Seq<char>>,
    field_mode: FieldNameMode,
    n: nat,
    i: int,
)
    requires
        field_mode.spec_override_headers(),
        0 <= i < n <= first_row.len(),
    ensures
        header_keys_upto(first_row, Seq::empty(), field_mode, n).len() == n,
        header_keys_upto(first_row, Seq::empty(), field_mode, n)[i] == head_key(
            i as nat,
            field_mode,
            first_row.len(),
        ),
    decreases n,
{
    lemma_header_keys_len(first_row, Seq::empty(), field_mode, n);
    lemma_header_keys_len(first_row, Seq::empty(), field_mode, (n - 1) as nat);
    if i < n - 1 {
        lemma_keys_are_synthetic(first_row, field_mode, (n - 1) as nat, i);
    }
}

/// Where the source headers are dropped and no key is declared, the keys
/// of the columns are all different.
pub proof fn lemma_synthetic_keys_are_distinct(
    first_row: Seq<Seq<char>>,
    field_mode: FieldNameMode,
    i: int,
    j: int,
)
    requires
        field_mode.spec_override_headers(),
        0 <= i < j < first_row.len(),
    ensures
        header_keys(first_row, Seq::empty(), field_mode)[i] != header_keys(
            first_row,
            Seq::empty(),
            field_mode,
        )[j],
{
    lemma_keys_are_synthetic(first_row, field_mode, first_row.len(), i);
    lemma_keys_are_synthetic(first_row, field_mode, first_row.len(), j);
    lemma_head_keys_differ(i as nat, j as nat, field_mode, first_row.len());
}

/// The key that a column asks for: the key declared for it, or else, where
/// headers are kept, the snake-case form of its header cell if that is not
/// empty. A column that asks for no key gets the synthetic key of its position.
pub open spec fn wanted_key(
    first_row: Seq<Seq<char>>,
    columns: Seq<ColumnView>,
    field_mode: FieldNameMode,
    index: int,
) -> Option<Seq<char>> {
    match declared_key(columns, index) {
        Some(k) => Some(k),
        None => {
            let sn = snake_case_of(first_row[index]);
            if field_mode.spec_keep_headers() && sn.len() > 0 {
                Some(sn)
            } else {
                None
            }
        },
    }
}

/// No two of the keys are the same.
pub open spec fn no_duplicate(keys: Seq<Seq<char>>) -> bool {
    forall|i: int, j: int| 0 <= i < j < keys.len() ==> keys[i] != keys[j]
}

/// Whether the key built for a column is none of the keys built before it.
pub open spec fn builds_new_key(
    first_row: Seq<Seq<char>>,
    columns: Seq<ColumnView>,
    field_mode: FieldNameMode,
    index: int,
) -> bool {
    let earlier = header_keys_upto(first_row, columns, field_mode, index as nat);
    !earlier.contains(
        header_key(
            earlier,
            first_row[index],
            declared_key(columns, index),
            field_mode,
            index as nat,
            first_row.len(),
        ),
    )
}

/// The keys of a header row have no duplicate exactly on the inputs on
/// which every column builds a key that none of the columns before it has
/// built. A key can fail to be new in two ways only: a synthetic key that
/// an earlier column has taken as its header or declared key, and a key
/// with a number behind it that an earlier column has taken as it stands.
pub proof fn lemma_no_duplicate_keys(
    first_row: Seq<Seq<char>>,
    columns: Seq<ColumnView>,
    field_mode: FieldNameMode,
    n: nat,
)
    requires
        n <= first_row.len(),
    ensures
        no_duplicate(header_keys_upto(first_row, columns, field_mode, n)) <==> (forall|k: int|
            0 <= k < n ==> #[trigger] builds_new_key(first_row, columns, field_mode, k)),
    decreases n,
{
    let keys = header_keys_upto(first_row, columns, field_mode, n);
    lemma_header_keys_len(first_row, columns, field_mode, n);
    if n > 0 {
        let earlier = header_keys_upto(first_row, columns, field_mode, (n - 1) as nat);
        lemma_no_duplicate_keys(first_row, columns, field_mode, (n - 1) as nat);
        lemma_header_keys_len(first_row, columns, field_mode, (n - 1) as nat);
        let last = keys[n - 1];
        assert(keys =~= earlier.push(last));
        if no_duplicate(keys) {
            assert forall|i: int, j: int| 0 <= i < j < earlier.len() implies earlier[i]
                != earlier[j] by {
                assert(keys[i] == earlier[i] && keys[j] == earlier[j]);
            }
            if earlier.contains(last) {
                let i = choose|i: int| 0 <= i < earlier.len() && earlier[i] == last;
                assert(keys[i] == keys[n - 1]);
            }
            assert(builds_new_key(first_row, columns, field_mode, n - 1));
        }
        if forall|k: int| 0 <= k < n ==> #[trigger] builds_new_key(first_row, columns, field_mode, k) {
            assert(builds_new_key(first_row, columns, field_mode, n - 1));
            assert(no_duplicate(earlier));
            assert forall|i: int, j: int| 0 <= i < j < keys.len() implies keys[i] != keys[j] by {
                if j < n - 1 {
                    assert(keys[i] == earlier[i] && keys[j] == earlier[j]);
                } else {
                    assert(keys[i] == earlier[i]);
                    assert(earlier.contains(earlier[i]));
                }
            }
        }
    }
}

/// Where every column asks for a key and no two ask for the same, each
/// column gets the key it asks for, and the keys have no duplicate.
pub proof fn lemma_wanted_keys_are_kept(
    first_row: Seq<Seq<char>>,
    columns: Seq<ColumnView>,
    field_mode: FieldNameMode,
    n: nat,
)
    requires
        n <= first_row.len(),
        forall|i: int| 0 <= i < n ==> (#[trigger] wanted_key(first_row, columns, field_mode, i)) is Some,
        forall|i: int, j: int|
            0 <= i < j < n ==> wanted_key(first_row, columns, field_mode, i) != wanted_key(
                first_row,
                columns,
                field_mode,
                j,
            ),
    ensures
        header_keys_upto(first_row, columns, field_mode, n) == Seq::new(
            n,
            |i: int| wanted_key(first_row, columns, field_mode, i)->0,
        ),
        no_duplicate(header_keys_upto(first_row, columns, field_mode, n)),
    decreases n,
{
    let wanted = Seq::new(n, |i: int| wanted_key(first_row, columns, field_mode, i)->0);
    if n == 0 {
        assert(header_keys_upto(first_row, columns, field_mode, n) =~= wanted);
    } else {
        lemma_wanted_keys_are_kept(first_row, columns, field_mode, (n - 1) as nat);
        let earlier = header_keys_upto(first_row, columns, field_mode, (n - 1) as nat);
        let mine = wanted_key(first_row, columns, field_mode, n - 1);
        assert(mine is Some);
        assert(!earlier.contains(mine->0)) by {
            if earlier.contains(mine->0) {
                let i = choose|i: int| 0 <= i < earlier.len() && earlier[i] == mine->0;
                assert(wanted_key(first_row, columns, field_mode, i) is Some);
                assert(wanted_key(first_row, columns, field_mode, i) != mine);
            }
        }
        assert(header_keys_upto(first_row, columns, field_mode, n) =~= wanted);
    }
    assert forall|i: int, j: int| 0 <= i < j < n implies wanted[i] != wanted[j] by {
        assert(wanted_key(first_row, columns, field_mode, i) is Some);
        assert(wanted_key(first_row, columns, field_mode, j) is Some);
        assert(wanted_key(first_row, columns, field_mode, i) != wanted_key(
            first_row,
            columns,
            field_mode,
            j,
        ));
    }
}

} // verus!
