//! Detection of the decimal separator in a numeric-looking text.

use vstd::prelude::*;
use crate::text::{first_index_of, lemma_first_index_of, to_chars};

verus! {

/// How often `c` occurs in `s`.
pub open spec fn count_char(s: Seq<char>, c: char) -> nat
    decreases s.len(),
{
    if s.len() == 0 {
        0
    } else {
        count_char(s.drop_last(), c) + (if s.last() == c {
            1nat
        } else {
            0nat
        })
    }
}

/// Whether a text writes its number with `,` as the decimal separator.
///
/// - With both a dot and a comma, the one that comes later is the decimal
///   separator: the answer is whether the first dot precedes the first comma.
/// - With dots only, several dots are thousand separators (so the comma is the
///   decimal separator); a single dot is one only if `enforce_euro_mode` is set.
/// - With a single comma and no dot, the comma is a decimal separator unless
///   exactly three characters follow it, or if `enforce_euro_mode` is set.
/// - With several commas and no dot, or with neither, the answer is no.
pub open spec fn euro_number_format(s: Seq<char>, enforce_euro_mode: bool) -> bool {
    let dots = count_char(s, '.');
    let commas = count_char(s, ',');
    if dots > 0 {
        if commas > 0 {
            first_index_of(s, '.') < first_index_of(s, ',')
        } else {
            dots > 1 || enforce_euro_mode
        }
    } else if commas == 1 {
        s.len() - first_index_of(s, ',') != 4 || enforce_euro_mode
    } else {
        false
    }
}

/// A text with exactly one comma and no dot uses the comma as decimal
/// separator if and only if the comma is not followed by exactly three
/// characters or the enforcement flag is set.
pub proof fn lemma_single_comma_rule(s: Seq<char>, enforce_euro_mode: bool)
    requires
        count_char(s, ',') == 1,
        count_char(s, '.') == 0,
    ensures
        euro_number_format(s, enforce_euro_mode) <==> (s.len() - first_index_of(s, ',') != 4
            || enforce_euro_mode),
{
}

/// A character that occurs is counted, and one that is counted occurs.
pub proof fn lemma_count_char_contains(s: Seq<char>, c: char)
    ensures
        count_char(s, c) > 0 <==> s.contains(c),
        count_char(s, c) <= s.len(),
    decreases s.len(),
{
    if s.len() > 0 {
        let t = s.drop_last();
        lemma_count_char_contains(t, c);
        if s.last() == c {
            assert(s[s.len() - 1] == c);
            assert(s.contains(c));
        } else if t.contains(c) {
            let j = choose|j: int| 0 <= j < t.len() && t[j] == c;
            assert(s[j] == c);
            assert(s.contains(c));
        } else if s.contains(c) {
            let j = choose|j: int| 0 <= j < s.len() && s[j] == c;
            assert(t[j] == c);
            assert(t.contains(c));
        }
    }
}

/// Whether a numeric text uses the European format, with `,` as the decimal
/// separator and `.` between thousands.
pub fn is_euro_number_format(txt: &str, enforce_euro_mode: bool) -> (r: bool)
    ensures
        r == euro_number_format(txt@, enforce_euro_mode),
{
    let v = to_chars(txt);
    let n = v.len();
    let mut dot_pos: usize = n;
    let mut comma_pos: usize = n;
    let mut num_dots: usize = 0;
    let mut num_commas: usize = 0;
    let mut i: usize = 0;
    assert(v@.take(0) =~= Seq::<char>::empty());
    while i < n
        invariant
            i <= n,
            n == v.len(),
            num_dots == count_char(v@.take(i as int), '.'),
            num_commas == count_char(v@.take(i as int), ','),
            num_dots <= i,
            num_commas <= i,
            num_dots > 0 ==> dot_pos < i && v@[dot_pos as int] == '.',
            num_commas > 0 ==> comma_pos < i && v@[comma_pos as int] == ',',
            forall|j: int| 0 <= j < i && j < dot_pos ==> v@[j] != '.',
            forall|j: int| 0 <= j < i && j < comma_pos ==> v@[j] != ',',
            num_dots == 0 ==> dot_pos == n,
            num_commas == 0 ==> comma_pos == n,
        decreases n - i,
    {
        assert(v@.take(i as int + 1).drop_last() =~= v@.take(i as int));
        let c = v[i];
        if c == '.' {
            if num_dots == 0 {
                dot_pos = i;
            }
            num_dots += 1;
        } else if c == ',' {
            if num_commas == 0 {
                comma_pos = i;
            }
            num_commas += 1;
        }
        i += 1;
    }
    proof {
        assert(v@.take(n as int) =~= v@);
        lemma_first_index_of(v@, '.');
        lemma_first_index_of(v@, ',');
        lemma_count_char_contains(v@, '.');
        lemma_count_char_contains(v@, ',');
        if num_dots > 0 {
            crate::text::lemma_first_index_is(v@, '.', dot_pos as int);
        }
        if num_commas > 0 {
            crate::text::lemma_first_index_is(v@, ',', comma_pos as int);
        }
    }
    if num_dots > 0 {
        if num_commas > 0 {
            dot_pos < comma_pos
        } else {
            num_dots > 1 || enforce_euro_mode
        }
    } else if num_commas == 1 {
        n - comma_pos != 4 || enforce_euro_mode
    } else {
        false
    }
}

} // verus!
