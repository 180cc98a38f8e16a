//! Character-level text helpers shared by the parsers of this crate.
//!
//! Text is examined as a sequence of `char`s. The few questions that need
//! Unicode tables (is this whitespace, a letter, what is the lower-case form)
//! are asked of the standard library and appear in contracts under a name.

use vstd::prelude::*;
use vstd::string::*;

verus! {

/// Whether a character beyond ASCII has the Unicode `Alphabetic` property,
/// as `char::is_alphabetic` reports it.
pub uninterp spec fn alphabetic_beyond_ascii(c: char) -> bool;

/// Whether a character beyond ASCII is a Unicode letter or number, as
/// `char::is_alphanumeric` reports it.
pub uninterp spec fn alphanumeric_beyond_ascii(c: char) -> bool;

/// The lower-case form of a text that is not all ASCII, as `str::to_lowercase` computes it.
pub uninterp spec fn lowercase_beyond_ascii(s: Seq<char>) -> Seq<char>;

/// The snake-case form of a text of more than one word, as `heck` computes it.
pub uninterp spec fn snake_case_of_words(text: Seq<char>) -> Seq<char>;

/// `char::is_whitespace` of the standard library: whether the character
/// has the Unicode `White_Space` property, a fixed list of code points.
pub assume_specification[ char::is_whitespace ](c: char) -> (r: bool)
    ensures
        r == char_is_whitespace(c),
;

/// `char::is_alphabetic` of the standard library: among ASCII characters
/// the letters; beyond ASCII a fixed property of the character, named
/// [`alphabetic_beyond_ascii`].
pub assume_specification[ char::is_alphabetic ](c: char) -> (r: bool)
    ensures
        r == char_is_alphabetic(c),
        !is_ascii_char(c) ==> r == alphabetic_beyond_ascii(c),
;

/// `char::is_alphanumeric` of the standard library: among ASCII characters
/// the letters and the digits; beyond ASCII a fixed property of the
/// character, named [`alphanumeric_beyond_ascii`].
pub assume_specification[ char::is_alphanumeric ](c: char) -> (r: bool)
    ensures
        r == char_is_alphanumeric(c),
        !is_ascii_char(c) ==> r == alphanumeric_beyond_ascii(c),
;

/// `str::to_lowercase` of the standard library: in a text of ASCII
/// characters every capital becomes its small letter and nothing else
/// changes; for any other text the result depends on the characters of the
/// text alone and is named [`lowercase_beyond_ascii`].
pub assume_specification[ str::to_lowercase ](s: &str) -> (r: String)
    ensures
        r@ == lowercase_of(s@),
        !is_ascii_text(s@) ==> r@ == lowercase_beyond_ascii(s@),
;

/// `String::push` of the standard library appends the character at the end.
pub assume_specification[ String::push ](s: &mut String, c: char)
    ensures
        final(s)@ == old(s)@.push(c),
;

/// Calls `ToSnakeCase::to_snake_case` of `heck`, which cuts the text into
/// words at every character that is no letter or number and at changes of
/// case, and joins the words in lower case with underscores. A text
/// without letter or number has no word and gives the empty text. An ASCII
/// text of letters and digits with no capital after its first character is
/// one word and gives its lower-case form. For any other text the result
/// depends on the text alone and is named [`snake_case_of_words`].
#[verifier::external_body]
pub(crate) fn to_snake_case(text: &str) -> (r: String)
    ensures
        r@ == snake_case_of(text@),
        !has_no_alphanumeric(text@) && !is_single_word(text@) ==> r@ == snake_case_of_words(text@),
{
    heck::ToSnakeCase::to_snake_case(text)
}

/// Whether a character has the Unicode `White_Space` property: the
/// controls U+0009 to U+000D, the space, U+0085, U+00A0, U+1680, U+2000 to
/// U+200A, U+2028, U+2029, U+202F, U+205F and U+3000.
pub open spec fn char_is_whitespace(c: char) -> bool {
    let u = c as u32;
    (0x09 <= u <= 0x0D) || u == 0x20 || u == 0x85 || u == 0xA0 || u == 0x1680 || (0x2000 <= u
        <= 0x200A) || u == 0x2028 || u == 0x2029 || u == 0x202F || u == 0x205F || u == 0x3000
}

/// An ASCII character.
pub open spec fn is_ascii_char(c: char) -> bool {
    (c as u32) < 128
}

/// A text of ASCII characters (true of the empty text).
pub open spec fn is_ascii_text(s: Seq<char>) -> bool {
    forall|i: int| 0 <= i < s.len() ==> is_ascii_char(#[trigger] s[i])
}

/// An ASCII letter, capital or small.
pub open spec fn is_ascii_letter(c: char) -> bool {
    ('a' <= c <= 'z') || ('A' <= c <= 'Z')
}

/// Whether a character has the Unicode `Alphabetic` property, as
/// `char::is_alphabetic` reports it: among ASCII characters, the letters.
pub open spec fn char_is_alphabetic(c: char) -> bool {
    if is_ascii_char(c) {
        is_ascii_letter(c)
    } else {
        alphabetic_beyond_ascii(c)
    }
}

/// Whether a character is a Unicode letter or number, as
/// `char::is_alphanumeric` reports it: among ASCII characters, the letters
/// and the digits.
pub open spec fn char_is_alphanumeric(c: char) -> bool {
    if is_ascii_char(c) {
        is_ascii_letter(c) || is_digit_char(c)
    } else {
        alphanumeric_beyond_ascii(c)
    }
}

/// The small letter of an ASCII capital; any other character as it is.
pub open spec fn ascii_lower(c: char) -> char {
    if 'A' <= c <= 'Z' {
        ((c as u8) + 32) as char
    } else {
        c
    }
}

/// The text with every ASCII capital replaced by its small letter.
pub open spec fn ascii_lowercase(s: Seq<char>) -> Seq<char> {
    Seq::new(s.len(), |i: int| ascii_lower(s[i]))
}

/// The lower-case form of a text, as `str::to_lowercase` computes it: for
/// a text of ASCII characters, the text with its capitals made small.
pub open spec fn lowercase_of(s: Seq<char>) -> Seq<char> {
    if is_ascii_text(s) {
        ascii_lowercase(s)
    } else {
        lowercase_beyond_ascii(s)
    }
}

/// No character of the text is a letter or a number (true of the empty text).
pub open spec fn has_no_alphanumeric(s: Seq<char>) -> bool {
    forall|i: int| 0 <= i < s.len() ==> !char_is_alphanumeric(#[trigger] s[i])
}

/// An ASCII text of letters and digits, not empty, with no capital after
/// its first character.
pub open spec fn is_single_word(s: Seq<char>) -> bool {
    s.len() > 0 && forall|i: int|
        0 <= i < s.len() ==> (is_ascii_letter(#[trigger] s[i]) || is_digit_char(s[i])) && (i > 0
            ==> !('A' <= s[i] <= 'Z'))
}

/// The snake-case form of a text, as `heck` computes it: words in lower
/// case joined by `_`. A text without letter or number gives the empty
/// text; a single word gives its lower-case form.
pub open spec fn snake_case_of(text: Seq<char>) -> Seq<char> {
    if has_no_alphanumeric(text) {
        Seq::<char>::empty()
    } else if is_single_word(text) {
        ascii_lowercase(text)
    } else {
        snake_case_of_words(text)
    }
}

/// An ASCII decimal digit, `'0'` to `'9'`.
pub open spec fn is_digit_char(c: char) -> bool {
    '0' <= c <= '9'
}

/// Every character of `s` is an ASCII decimal digit (true of the empty text).
pub open spec fn all_digits(s: Seq<char>) -> bool {
    forall|i: int| 0 <= i < s.len() ==> is_digit_char(#[trigger] s[i])
}

/// `p` is a prefix of `s`.
pub open spec fn has_prefix(s: Seq<char>, p: Seq<char>) -> bool {
    p.len() <= s.len() && s.subrange(0, p.len() as int) == p
}

/// The text without its leading whitespace.
pub open spec fn trim_start_of(s: Seq<char>) -> Seq<char>
    decreases s.len(),
{
    if s.len() > 0 && char_is_whitespace(s[0]) {
        trim_start_of(s.drop_first())
    } else {
        s
    }
}

/// The text without its trailing whitespace.
pub open spec fn trim_end_of(s: Seq<char>) -> Seq<char>
    decreases s.len(),
{
    if s.len() > 0 && char_is_whitespace(s.last()) {
        trim_end_of(s.drop_last())
    } else {
        s
    }
}

/// The text without leading and trailing whitespace.
pub open spec fn trimmed(s: Seq<char>) -> Seq<char> {
    trim_end_of(trim_start_of(s))
}

/// The position of the first `c` in `s`, or the length of `s` if there is none.
pub open spec fn first_index_of(s: Seq<char>, c: char) -> int
    decreases s.len(),
{
    if s.len() == 0 {
        0
    } else if s[0] == c {
        0
    } else {
        1 + first_index_of(s.drop_first(), c)
    }
}

/// The position just after the last `c` in `s`, or 0 if there is none.
pub open spec fn after_last_index_of(s: Seq<char>, c: char) -> int
    decreases s.len(),
{
    if s.len() == 0 {
        0
    } else if s.last() == c {
        s.len() as int
    } else {
        after_last_index_of(s.drop_last(), c)
    }
}

/// The fields of `s` between occurrences of `c` that consist of digits alone
/// (an empty field counts as one), in order.
pub open spec fn digit_fields(s: Seq<char>, c: char) -> Seq<Seq<char>>
    decreases s.len(),
{
    let k = first_index_of(s, c);
    let head = s.take(k);
    let mine = if all_digits(head) {
        seq![head]
    } else {
        Seq::<Seq<char>>::empty()
    };
    if 0 <= k < s.len() {
        mine + digit_fields(s.skip(k + 1), c)
    } else {
        mine
    }
}

/// The texts that a vector of character vectors holds.
pub open spec fn texts_of(parts: Seq<Vec<char>>) -> Seq<Seq<char>> {
    Seq::new(parts.len(), |i: int| parts[i]@)
}

/// The first position at or after `i` that holds no whitespace.
pub open spec fn skip_spaces(s: Seq<char>, i: int) -> int
    decreases s.len() - i,
{
    if 0 <= i < s.len() && char_is_whitespace(s[i]) {
        skip_spaces(s, i + 1)
    } else {
        i
    }
}

/// The first position at or after `i` that holds whitespace.
pub open spec fn skip_word(s: Seq<char>, i: int) -> int
    decreases s.len() - i,
{
    if 0 <= i < s.len() && !char_is_whitespace(s[i]) {
        skip_word(s, i + 1)
    } else {
        i
    }
}

/// Whether some character of `s` is alphabetic.
pub open spec fn has_alphabetic(s: Seq<char>) -> bool {
    exists|i: int| 0 <= i < s.len() && char_is_alphabetic(#[trigger] s[i])
}

/// The text with every `from` replaced by `to`.
pub open spec fn replaced(s: Seq<char>, from: char, to: char) -> Seq<char> {
    Seq::new(s.len(), |i: int| if s[i] == from { to } else { s[i] })
}

/// The text with every `c` left out.
pub open spec fn without_char(s: Seq<char>, c: char) -> Seq<char>
    decreases s.len(),
{
    if s.len() == 0 {
        s
    } else if s.last() == c {
        without_char(s.drop_last(), c)
    } else {
        without_char(s.drop_last(), c).push(s.last())
    }
}

/// The non-empty fields of `s` between occurrences of `c`, in order.
pub open spec fn segments_of(s: Seq<char>, c: char) -> Seq<Seq<char>>
    decreases s.len(),
{
    let k = first_index_of(s, c);
    let head = s.take(k);
    let mine = if head.len() > 0 {
        seq![head]
    } else {
        Seq::<Seq<char>>::empty()
    };
    if 0 <= k < s.len() {
        mine + segments_of(s.skip(k + 1), c)
    } else {
        mine
    }
}

/// The characters of `s` that are letters or numbers, in order.
pub open spec fn alphanumeric_only(s: Seq<char>) -> Seq<char>
    decreases s.len(),
{
    if s.len() == 0 {
        s
    } else if char_is_alphanumeric(s.last()) {
        alphanumeric_only(s.drop_last()).push(s.last())
    } else {
        alphanumeric_only(s.drop_last())
    }
}

/// The texts that a list of strings holds.
pub open spec fn strings_view(v: Seq<String>) -> Seq<Seq<char>> {
    Seq::new(v.len(), |i: int| v[i]@)
}

/// The texts put one after another with `sep` between them.
pub open spec fn joined(parts: Seq<Seq<char>>, sep: Seq<char>) -> Seq<char>
    decreases parts.len(),
{
    if parts.len() == 0 {
        Seq::<char>::empty()
    } else if parts.len() == 1 {
        parts[0]
    } else {
        joined(parts.drop_last(), sep) + sep + parts.last()
    }
}

/// The part of `s` before its first `c`; empty if there is none.
pub open spec fn head_of(s: Seq<char>, c: char) -> Seq<char> {
    let k = first_index_of(s, c);
    if 0 <= k < s.len() {
        s.take(k)
    } else {
        Seq::<char>::empty()
    }
}

/// The part of `s` after its first `c`; all of `s` if there is none.
pub open spec fn tail_of(s: Seq<char>, c: char) -> Seq<char> {
    let k = first_index_of(s, c);
    if 0 <= k < s.len() {
        s.skip(k + 1)
    } else {
        s
    }
}

/// Whether the text in lower case begins with the pattern in lower case.
pub open spec fn has_prefix_ci(s: Seq<char>, p: Seq<char>) -> bool {
    has_prefix(lowercase_of(s), lowercase_of(p))
}

/// Whether the letters and numbers of the text in lower case begin with the
/// pattern in lower case.
pub open spec fn has_prefix_ci_alphanum(s: Seq<char>, p: Seq<char>) -> bool {
    has_prefix(alphanumeric_only(lowercase_of(s)), lowercase_of(p))
}

/// What the first position of a character is: within the text, with no
/// occurrence before it and one at it, and past the end exactly if there is none.
pub proof fn lemma_first_index_of(s: Seq<char>, c: char)
    ensures
        0 <= first_index_of(s, c) <= s.len(),
        forall|i: int| 0 <= i < first_index_of(s, c) ==> s[i] != c,
        first_index_of(s, c) < s.len() ==> s[first_index_of(s, c)] == c,
        first_index_of(s, c) == s.len() <==> !s.contains(c),
    decreases s.len(),
{
    if s.len() == 0 {
    } else if s[0] == c {
        assert(s.contains(c));
    } else {
        let t = s.drop_first();
        lemma_first_index_of(t, c);
        let k = first_index_of(t, c);
        assert forall|i: int| 0 <= i < k + 1 implies s[i] != c by {
            if i > 0 {
                assert(s[i] == t[i - 1]);
            }
        }
        if k < t.len() {
            assert(s[k + 1] == t[k]);
            assert(s.contains(c));
        } else {
            if s.contains(c) {
                let j = choose|j: int| 0 <= j < s.len() && s[j] == c;
                assert(t[j - 1] == c);
                assert(t.contains(c));
            }
        }
    }
}

/// What the position after the last occurrence of a character is: within
/// the text, with no occurrence from it on and one just before it, and
/// zero exactly if there is none.
pub proof fn lemma_after_last_index_of(s: Seq<char>, c: char)
    ensures
        0 <= after_last_index_of(s, c) <= s.len(),
        forall|i: int| after_last_index_of(s, c) <= i < s.len() ==> s[i] != c,
        after_last_index_of(s, c) > 0 ==> s[after_last_index_of(s, c) - 1] == c,
        after_last_index_of(s, c) == 0 <==> !s.contains(c),
    decreases s.len(),
{
    if s.len() == 0 {
    } else if s.last() == c {
        assert(s.contains(c));
    } else {
        let t = s.drop_last();
        lemma_after_last_index_of(t, c);
        let k = after_last_index_of(t, c);
        assert forall|i: int| k <= i < s.len() implies s[i] != c by {
            if i < t.len() {
                assert(s[i] == t[i]);
            }
        }
        if k > 0 {
            assert(s[k - 1] == t[k - 1]);
            assert(s.contains(c));
        } else {
            if s.contains(c) {
                let j = choose|j: int| 0 <= j < s.len() && s[j] == c;
                assert(t[j] == c);
                assert(t.contains(c));
            }
        }
    }
}

/// Leading whitespace can be dropped before the leading whitespace is trimmed.
pub proof fn lemma_trim_start_skip(s: Seq<char>, i: int)
    requires
        0 <= i <= s.len(),
        forall|j: int| 0 <= j < i ==> char_is_whitespace(#[trigger] s[j]),
    ensures
        trim_start_of(s) == trim_start_of(s.subrange(i, s.len() as int)),
    decreases i,
{
    if i == 0 {
        assert(s.subrange(0, s.len() as int) =~= s);
    } else {
        assert(char_is_whitespace(s[0]));
        let t = s.drop_first();
        assert forall|j: int| 0 <= j < i - 1 implies char_is_whitespace(#[trigger] t[j]) by {
            assert(t[j] == s[j + 1]);
        }
        lemma_trim_start_skip(t, i - 1);
        assert(t.subrange(i - 1, t.len() as int) =~= s.subrange(i, s.len() as int));
    }
}

/// Trailing whitespace can be dropped before the trailing whitespace is trimmed.
pub proof fn lemma_trim_end_skip(s: Seq<char>, i: int)
    requires
        0 <= i <= s.len(),
        forall|j: int| i <= j < s.len() ==> char_is_whitespace(#[trigger] s[j]),
    ensures
        trim_end_of(s) == trim_end_of(s.subrange(0, i)),
    decreases s.len() - i,
{
    if i == s.len() {
        assert(s.subrange(0, i) =~= s);
    } else {
        assert(char_is_whitespace(s.last()));
        let t = s.drop_last();
        assert forall|j: int| i <= j < t.len() implies char_is_whitespace(#[trigger] t[j]) by {
            assert(t[j] == s[j]);
        }
        lemma_trim_end_skip(t, i);
        assert(t.subrange(0, i) =~= s.subrange(0, i));
    }
}

/// A position with an occurrence at it, or at the end, and none before it
/// is the first position of the character.
pub proof fn lemma_first_index_is(s: Seq<char>, c: char, k: int)
    requires
        0 <= k <= s.len(),
        forall|i: int| 0 <= i < k ==> s[i] != c,
        k < s.len() ==> s[k] == c,
    ensures
        first_index_of(s, c) == k,
{
    lemma_first_index_of(s, c);
}

/// The characters of a text, in order.
pub fn to_chars(s: &str) -> (v: Vec<char>)
    ensures
        v@ == s@,
{
    let mut v: Vec<char> = Vec::new();
    for c in it: s.chars()
        invariant
            it.seq() == s@,
            v@ =~= s@.take(it.index() as int),
    {
        v.push(c);
    }
    assert(v@ =~= s@);
    v
}

/// The text made of the characters `v[from..to]`.
pub fn string_of_range(v: &Vec<char>, from: usize, to: usize) -> (s: String)
    requires
        from <= to <= v.len(),
    ensures
        s@ == v@.subrange(from as int, to as int),
{
    let mut s = String::new();
    let mut i: usize = from;
    while i < to
        invariant
            from <= i <= to <= v.len(),
            s@ =~= v@.subrange(from as int, i as int),
        decreases to - i,
    {
        s.push(v[i]);
        i += 1;
    }
    s
}

/// The text made of the characters of `v`.
pub fn string_of_chars(v: &Vec<char>) -> (s: String)
    ensures
        s@ == v@,
{
    let s = string_of_range(v, 0, v.len());
    assert(v@.subrange(0, v.len() as int) =~= v@);
    s
}

/// The characters `v[from..to]` as a vector of their own.
pub fn chars_range(v: &Vec<char>, from: usize, to: usize) -> (r: Vec<char>)
    requires
        from <= to <= v.len(),
    ensures
        r@ == v@.subrange(from as int, to as int),
{
    let mut r: Vec<char> = Vec::new();
    let mut i: usize = from;
    while i < to
        invariant
            from <= i <= to <= v.len(),
            r@ =~= v@.subrange(from as int, i as int),
        decreases to - i,
    {
        r.push(v[i]);
        i += 1;
    }
    r
}

/// Whether two character vectors hold the same text.
pub fn chars_equal(a: &Vec<char>, b: &Vec<char>) -> (r: bool)
    ensures
        r == (a@ == b@),
{
    if a.len() != b.len() {
        return false;
    }
    let mut i: usize = 0;
    while i < a.len()
        invariant
            a.len() == b.len(),
            i <= a.len(),
            forall|j: int| 0 <= j < i ==> a@[j] == b@[j],
        decreases a.len() - i,
    {
        if a[i] != b[i] {
            return false;
        }
        i += 1;
    }
    assert(a@ =~= b@);
    true
}

/// Whether the characters are exactly those of the text `t`.
pub fn chars_are(a: &Vec<char>, t: &str) -> (r: bool)
    ensures
        r == (a@ == t@),
{
    let b = to_chars(t);
    chars_equal(a, &b)
}

/// Whether every character is an ASCII decimal digit.
pub fn is_all_digits(v: &Vec<char>) -> (r: bool)
    ensures
        r == all_digits(v@),
{
    let mut i: usize = 0;
    while i < v.len()
        invariant
            i <= v.len(),
            forall|j: int| 0 <= j < i ==> is_digit_char(#[trigger] v@[j]),
        decreases v.len() - i,
    {
        let c = v[i];
        if !(c >= '0' && c <= '9') {
            return false;
        }
        i += 1;
    }
    true
}

/// Whether `v` begins with the characters of `p`.
pub fn starts_with_chars(v: &Vec<char>, p: &Vec<char>) -> (r: bool)
    ensures
        r == has_prefix(v@, p@),
{
    if p.len() > v.len() {
        return false;
    }
    let mut i: usize = 0;
    while i < p.len()
        invariant
            p.len() <= v.len(),
            i <= p.len(),
            forall|j: int| 0 <= j < i ==> v@[j] == p@[j],
        decreases p.len() - i,
    {
        if v[i] != p[i] {
            assert(v@.subrange(0, p.len() as int)[i as int] != p@[i as int]);
            return false;
        }
        i += 1;
    }
    assert(v@.subrange(0, p.len() as int) =~= p@);
    true
}

/// The position of the first `c`, or the length if there is none.
pub fn find_char(v: &Vec<char>, c: char) -> (r: usize)
    ensures
        r == first_index_of(v@, c),
{
    let mut i: usize = 0;
    proof {
        lemma_first_index_of(v@, c);
    }
    while i < v.len()
        invariant
            i <= v.len(),
            forall|j: int| 0 <= j < i ==> v@[j] != c,
            0 <= first_index_of(v@, c) <= v.len(),
            forall|j: int| 0 <= j < first_index_of(v@, c) ==> v@[j] != c,
            first_index_of(v@, c) < v.len() ==> v@[first_index_of(v@, c)] == c,
        decreases v.len() - i,
    {
        if v[i] == c {
            return i;
        }
        i += 1;
    }
    i
}

/// The position just after the last `c`, or 0 if there is none.
pub fn find_after_last_char(v: &Vec<char>, c: char) -> (r: usize)
    ensures
        r == after_last_index_of(v@, c),
{
    let mut i: usize = v.len();
    proof {
        lemma_after_last_index_of(v@, c);
    }
    while i > 0
        invariant
            i <= v.len(),
            forall|j: int| i <= j < v.len() ==> v@[j] != c,
            0 <= after_last_index_of(v@, c) <= v.len(),
            forall|j: int| after_last_index_of(v@, c) <= j < v.len() ==> v@[j] != c,
            after_last_index_of(v@, c) > 0 ==> v@[after_last_index_of(v@, c) - 1] == c,
        decreases i,
    {
        if v[i - 1] == c {
            return i;
        }
        i -= 1;
    }
    i
}

/// The characters without leading and trailing whitespace.
pub fn trim_chars(v: &Vec<char>) -> (r: Vec<char>)
    ensures
        r@ == trimmed(v@),
{
    let n = v.len();
    let mut start: usize = 0;
    while start < n && v[start].is_whitespace()
        invariant
            start <= n,
            n == v.len(),
            forall|j: int| 0 <= j < start ==> char_is_whitespace(#[trigger] v@[j]),
        decreases n - start,
    {
        start += 1;
    }
    let mut end: usize = n;
    while end > start && v[end - 1].is_whitespace()
        invariant
            start <= end <= n,
            n == v.len(),
            forall|j: int| end <= j < n ==> char_is_whitespace(#[trigger] v@[j]),
        decreases end,
    {
        end -= 1;
    }
    let r = chars_range(v, start, end);
    proof {
        let s = v@;
        let rest = s.subrange(start as int, n as int);
        lemma_trim_start_skip(s, start as int);
        if start < n {
            assert(rest[0] == s[start as int]);
        }
        assert(trim_start_of(rest) == rest);
        assert forall|j: int| end - start <= j < rest.len() implies char_is_whitespace(
            #[trigger] rest[j],
        ) by {
            assert(rest[j] == s[j + start]);
        }
        lemma_trim_end_skip(rest, end - start);
        let kept = rest.subrange(0, end - start);
        assert(kept =~= r@);
        if end > start {
            assert(kept.last() == s[end - 1]);
        }
        assert(trim_end_of(kept) == kept);
    }
    r
}

/// The text without leading and trailing whitespace.
pub fn trim_text(s: &str) -> (r: String)
    ensures
        r@ == trimmed(s@),
{
    let v = to_chars(s);
    let t = trim_chars(&v);
    string_of_chars(&t)
}

/// The digit-only fields of `v` between occurrences of `c`.
pub fn split_digit_fields(v: &Vec<char>, c: char) -> (r: Vec<Vec<char>>)
    ensures
        texts_of(r@) == digit_fields(v@, c),
{
    let n = v.len();
    let mut out: Vec<Vec<char>> = Vec::new();
    let mut start: usize = 0;
    let mut done = false;
    assert(v@.skip(0) =~= v@);
    assert(texts_of(out@) + digit_fields(v@.skip(0), c) =~= digit_fields(v@, c));
    while !done
        invariant
            n == v.len(),
            start <= n,
            !done ==> texts_of(out@) + digit_fields(v@.skip(start as int), c) == digit_fields(
                v@,
                c,
            ),
            done ==> texts_of(out@) == digit_fields(v@, c),
        decreases n - start + (if done { 0int } else { 1int }),
    {
        let mut k: usize = start;
        while k < n && v[k] != c
            invariant
                start <= k <= n,
                n == v.len(),
                forall|j: int| start <= j < k ==> v@[j] != c,
            decreases n - k,
        {
            k += 1;
        }
        let field = chars_range(v, start, k);
        let ghost rest = v@.skip(start as int);
        let ghost before = texts_of(out@);
        proof {
            assert forall|i: int| 0 <= i < k - start implies rest[i] != c by {
                assert(rest[i] == v@[i + start]);
            }
            lemma_first_index_is(rest, c, k - start);
            assert(rest.take(k - start) =~= field@);
        }
        if is_all_digits(&field) {
            out.push(field);
            assert(texts_of(out@) =~= before + seq![field@]);
        }
        if k >= n {
            done = true;
            assert(texts_of(out@) =~= digit_fields(v@, c));
        } else {
            proof {
                assert(rest.skip(k - start + 1) =~= v@.skip(k as int + 1));
                assert(texts_of(out@) + digit_fields(v@.skip(k as int + 1), c) =~= digit_fields(
                    v@,
                    c,
                ));
            }
            start = k + 1;
        }
    }
    out
}

/// The first position at or after `i` that holds no whitespace.
pub fn skip_spaces_from(v: &Vec<char>, i: usize) -> (r: usize)
    requires
        i <= v.len(),
    ensures
        r == skip_spaces(v@, i as int),
        i <= r <= v.len(),
{
    let mut j: usize = i;
    while j < v.len() && v[j].is_whitespace()
        invariant
            i <= j <= v.len(),
            skip_spaces(v@, i as int) == skip_spaces(v@, j as int),
        decreases v.len() - j,
    {
        j += 1;
    }
    j
}

/// The first position at or after `i` that holds whitespace.
pub fn skip_word_from(v: &Vec<char>, i: usize) -> (r: usize)
    requires
        i <= v.len(),
    ensures
        r == skip_word(v@, i as int),
        i <= r <= v.len(),
{
    let mut j: usize = i;
    while j < v.len() && !v[j].is_whitespace()
        invariant
            i <= j <= v.len(),
            skip_word(v@, i as int) == skip_word(v@, j as int),
        decreases v.len() - j,
    {
        j += 1;
    }
    j
}

/// Whether some character is alphabetic.
pub fn contains_alphabetic(v: &Vec<char>) -> (r: bool)
    ensures
        r == has_alphabetic(v@),
{
    let mut i: usize = 0;
    while i < v.len()
        invariant
            i <= v.len(),
            forall|j: int| 0 <= j < i ==> !char_is_alphabetic(#[trigger] v@[j]),
        decreases v.len() - i,
    {
        if v[i].is_alphabetic() {
            return true;
        }
        i += 1;
    }
    false
}

/// The characters with every `from` replaced by `to`.
pub fn replace_char(v: &Vec<char>, from: char, to: char) -> (r: Vec<char>)
    ensures
        r@ == replaced(v@, from, to),
{
    let mut r: Vec<char> = Vec::new();
    let mut i: usize = 0;
    while i < v.len()
        invariant
            i <= v.len(),
            r.len() == i,
            forall|j: int| 0 <= j < i ==> r@[j] == (if v@[j] == from { to } else { v@[j] }),
        decreases v.len() - i,
    {
        let c = v[i];
        r.push(if c == from { to } else { c });
        i += 1;
    }
    assert(r@ =~= replaced(v@, from, to));
    r
}

/// The characters with every `c` left out.
pub fn remove_char(v: &Vec<char>, c: char) -> (r: Vec<char>)
    ensures
        r@ == without_char(v@, c),
{
    let mut r: Vec<char> = Vec::new();
    let mut i: usize = 0;
    assert(v@.take(0) =~= Seq::<char>::empty());
    while i < v.len()
        invariant
            i <= v.len(),
            r@ == without_char(v@.take(i as int), c),
        decreases v.len() - i,
    {
        assert(v@.take(i as int + 1).drop_last() =~= v@.take(i as int));
        if v[i] != c {
            r.push(v[i]);
        }
        i += 1;
    }
    assert(v@.take(v.len() as int) =~= v@);
    r
}

/// The non-empty fields of `v` between occurrences of `c`.
pub fn split_segments(v: &Vec<char>, c: char) -> (r: Vec<Vec<char>>)
    ensures
        texts_of(r@) == segments_of(v@, c),
{
    let n = v.len();
    let mut out: Vec<Vec<char>> = Vec::new();
    let mut start: usize = 0;
    let mut done = false;
    assert(v@.skip(0) =~= v@);
    assert(texts_of(out@) + segments_of(v@.skip(0), c) =~= segments_of(v@, c));
    while !done
        invariant
            n == v.len(),
            start <= n,
            !done ==> texts_of(out@) + segments_of(v@.skip(start as int), c) == segments_of(
                v@,
                c,
            ),
            done ==> texts_of(out@) == segments_of(v@, c),
        decreases n - start + (if done { 0int } else { 1int }),
    {
        let mut k: usize = start;
        while k < n && v[k] != c
            invariant
                start <= k <= n,
                n == v.len(),
                forall|j: int| start <= j < k ==> v@[j] != c,
            decreases n - k,
        {
            k += 1;
        }
        let field = chars_range(v, start, k);
        let ghost rest = v@.skip(start as int);
        let ghost before = texts_of(out@);
        proof {
            assert forall|i: int| 0 <= i < k - start implies rest[i] != c by {
                assert(rest[i] == v@[i + start]);
            }
            lemma_first_index_is(rest, c, k - start);
            assert(rest.take(k - start) =~= field@);
        }
        if field.len() > 0 {
            out.push(field);
            assert(texts_of(out@) =~= before + seq![field@]);
        }
        if k >= n {
            done = true;
            assert(texts_of(out@) =~= segments_of(v@, c));
        } else {
            proof {
                assert(rest.skip(k - start + 1) =~= v@.skip(k as int + 1));
                assert(texts_of(out@) + segments_of(v@.skip(k as int + 1), c) =~= segments_of(
                    v@,
                    c,
                ));
            }
            start = k + 1;
        }
    }
    out
}

/// The letters and numbers among the characters, in order.
pub fn keep_alphanumeric(v: &Vec<char>) -> (r: Vec<char>)
    ensures
        r@ == alphanumeric_only(v@),
{
    let mut r: Vec<char> = Vec::new();
    let mut i: usize = 0;
    assert(v@.take(0) =~= Seq::<char>::empty());
    while i < v.len()
        invariant
            i <= v.len(),
            r@ == alphanumeric_only(v@.take(i as int)),
        decreases v.len() - i,
    {
        assert(v@.take(i as int + 1).drop_last() =~= v@.take(i as int));
        if v[i].is_alphanumeric() {
            r.push(v[i]);
        }
        i += 1;
    }
    assert(v@.take(v.len() as int) =~= v@);
    r
}

/// Whether the text begins with the pattern, whatever the case of either.
pub fn starts_with_ci(text: &str, pattern: &str) -> (r: bool)
    ensures
        r == has_prefix_ci(text@, pattern@),
{
    let t = text.to_lowercase();
    let p = pattern.to_lowercase();
    starts_with_chars(&to_chars(t.as_str()), &to_chars(p.as_str()))
}

/// Whether the letters and numbers of the text begin with the pattern,
/// whatever the case of either.
pub fn starts_with_ci_alphanum(text: &str, pattern: &str) -> (r: bool)
    ensures
        r == has_prefix_ci_alphanum(text@, pattern@),
{
    let t = text.to_lowercase();
    let p = pattern.to_lowercase();
    let kept = keep_alphanumeric(&to_chars(t.as_str()));
    starts_with_chars(&kept, &to_chars(p.as_str()))
}

/// Appends the characters of a text.
pub fn push_text(out: &mut Vec<char>, text: &str)
    ensures
        final(out)@ == old(out)@ + text@,
{
    let v = to_chars(text);
    let ghost before = out@;
    let mut i: usize = 0;
    while i < v.len()
        invariant
            i <= v.len(),
            out@ =~= before + v@.take(i as int),
        decreases v.len() - i,
    {
        out.push(v[i]);
        i += 1;
    }
    assert(v@.take(v.len() as int) =~= v@);
}

/// The texts put one after another with `sep` between them.
pub fn join_texts(parts: &Vec<String>, sep: &str) -> (r: String)
    ensures
        r@ == joined(strings_view(parts@), sep@),
{
    let mut out: Vec<char> = Vec::new();
    let ghost texts = strings_view(parts@);
    let mut i: usize = 0;
    assert(texts.take(0) =~= Seq::<Seq<char>>::empty());
    while i < parts.len()
        invariant
            i <= parts.len(),
            texts == strings_view(parts@),
            out@ == joined(texts.take(i as int), sep@),
        decreases parts.len() - i,
    {
        assert(texts.take(i as int + 1).drop_last() =~= texts.take(i as int));
        assert(texts.take(i as int + 1).last() == parts@[i as int]@);
        if i > 0 {
            push_text(&mut out, sep);
        }
        push_text(&mut out, parts[i].as_str());
        proof {
            if i == 0 {
                assert(out@ =~= parts@[0]@);
                assert(texts.take(1)[0] == parts@[0]@);
            }
        }
        i += 1;
    }
    assert(texts.take(parts.len() as int) =~= texts);
    string_of_chars(&out)
}

/// A copy of a list of strings.
pub fn clone_strings(v: &[String]) -> (r: Vec<String>)
    ensures
        strings_view(r@) == strings_view(v@),
{
    let mut r: Vec<String> = Vec::new();
    let mut i: usize = 0;
    while i < v.len()
        invariant
            i <= v.len(),
            r.len() == i,
            forall|j: int| 0 <= j < i ==> r@[j]@ == v@[j]@,
        decreases v.len() - i,
    {
        r.push(v[i].clone());
        i += 1;
    }
    assert(strings_view(r@) =~= strings_view(v@));
    r
}

/// Whether one of the strings is the text `t`.
pub fn contains_text(v: &Vec<String>, t: &str) -> (r: bool)
    ensures
        r == strings_view(v@).contains(t@),
{
    let target = to_chars(t);
    let mut i: usize = 0;
    while i < v.len()
        invariant
            i <= v.len(),
            target@ == t@,
            forall|j: int| 0 <= j < i ==> v@[j]@ != t@,
        decreases v.len() - i,
    {
        if chars_equal(&to_chars(v[i].as_str()), &target) {
            assert(strings_view(v@)[i as int] == t@);
            return true;
        }
        i += 1;
    }
    assert forall|j: int| 0 <= j < strings_view(v@).len() implies strings_view(v@)[j] != t@ by {
        assert(strings_view(v@)[j] == v@[j]@);
    }
    false
}

/// The parts of the characters before and after the first `c`; with no `c`,
/// an empty first part and everything as the second.
pub fn split_head_tail(v: &Vec<char>, c: char) -> (r: (Vec<char>, Vec<char>))
    ensures
        r.0@ == head_of(v@, c),
        r.1@ == tail_of(v@, c),
{
    let k = find_char(v, c);
    proof {
        lemma_first_index_of(v@, c);
    }
    if k < v.len() {
        let head = chars_range(v, 0, k);
        let tail = chars_range(v, k + 1, v.len());
        assert(head@ =~= v@.take(k as int));
        assert(tail@ =~= v@.skip(k as int + 1));
        (head, tail)
    } else {
        let tail = chars_range(v, 0, v.len());
        assert(tail@ =~= v@);
        (Vec::new(), tail)
    }
}

/// Two texts, one after the other.
pub fn concat_text(a: &str, b: &str) -> (r: String)
    ensures
        r@ == a@ + b@,
{
    let mut out: Vec<char> = Vec::new();
    push_text(&mut out, a);
    push_text(&mut out, b);
    assert(out@ =~= a@ + b@);
    string_of_chars(&out)
}

/// Appends a line to a list of lines.
pub fn push_line(lines: &mut Vec<String>, line: String)
    ensures
        strings_view(final(lines)@) == strings_view(old(lines)@).push(line@),
{
    lines.push(line);
    assert(strings_view(final(lines)@) =~= strings_view(old(lines)@).push(line@));
}

/// Appends a list of lines to another.
pub fn append_lines(lines: &mut Vec<String>, more: Vec<String>)
    ensures
        strings_view(final(lines)@) == strings_view(old(lines)@) + strings_view(more@),
{
    let mut more = more;
    let ghost added = more@;
    lines.append(&mut more);
    assert(strings_view(lines@) =~= strings_view(old(lines)@) + strings_view(added));
}

} // verus!
