//! Reading a text as a boolean, by layered rule sets: a strict core, common
//! English words, and rule sets given by the caller.

use vstd::prelude::*;
use vstd::string::*;
use simple_string_patterns::StripCharacters;
use crate::numerals::digits_value;
use crate::text::{all_digits, chars_are, chars_equal, has_prefix, has_prefix_ci_alphanum,
    is_all_digits, lowercase_of, segments_of, split_segments, starts_with_chars,
    starts_with_ci_alphanum, string_of_chars, strings_view, texts_of, to_chars, trim_text, trimmed};

verus! {

/// One rule of a rule set: a pattern and the boolean that a match asserts.
#[derive(Debug)]
pub struct TruthyOption {
    /// The boolean that a matching text is read as.
    pub is_true: bool,
    /// The text to look for.
    pub pattern: String,
    /// Whether capitals and small letters differ.
    pub case_sensitive: bool,
    /// Whether the pattern need only stand at the start of the text.
    pub starts_with: bool,
}

/// The mathematical content of a [`TruthyOption`].
pub struct TruthyOptionView {
    pub is_true: bool,
    pub pattern: Seq<char>,
    pub case_sensitive: bool,
    pub starts_with: bool,
}

impl View for TruthyOption {
    type V = TruthyOptionView;

    open spec fn view(&self) -> TruthyOptionView {
        TruthyOptionView {
            is_true: self.is_true,
            pattern: self.pattern@,
            case_sensitive: self.case_sensitive,
            starts_with: self.starts_with,
        }
    }
}

/// The contents of a list of rules.
pub open spec fn options_view(opts: Seq<TruthyOption>) -> Seq<TruthyOptionView> {
    Seq::new(opts.len(), |i: int| opts[i]@)
}

/// The first number up to 255 that `to_first_number` of
/// `simple_string_patterns` finds in a text that is not all digits.
pub uninterp spec fn first_u8_beyond_digits(text: Seq<char>) -> Option<u8>;

/// The first number up to 255 that `to_first_number` of
/// `simple_string_patterns` finds in a text. A text of digits is one
/// numeric part: it gives the number it denotes, or nothing if that is above 255.
pub open spec fn first_u8_of(text: Seq<char>) -> Option<u8> {
    if text.len() > 0 && all_digits(text) {
        if digits_value(text) <= 255 {
            Some(digits_value(text) as u8)
        } else {
            None
        }
    } else {
        first_u8_beyond_digits(text)
    }
}

/// Calls `StripCharacters::to_first_number::<u8>` of `simple_string_patterns`,
/// which collects the numeric parts of the text and returns the first that
/// reads as a number of 0 to 255. A text of digits is its own single
/// numeric part. For any other text the result depends on the text alone
/// and is named [`first_u8_beyond_digits`].
#[verifier::external_body]
fn first_number_u8(text: &str) -> (r: Option<u8>)
    ensures
        r == first_u8_of(text@),
        !(text@.len() > 0 && all_digits(text@)) ==> r == first_u8_beyond_digits(text@),
{
    text.to_first_number::<u8>()
}

/// The strict reading of a normalized text (trimmed, lower case).
///
/// Empty: `false` if `empty_is_false`, else nothing. `0`, `-1`, `false`: false.
/// `1`, `2`, `true`: true. Any other text of digits: whether `first_number`,
/// the number found in it, is above zero. Anything else: nothing.
pub open spec fn truthy_core_of(
    normalized: Seq<char>,
    first_number: Option<u8>,
    empty_is_false: bool,
) -> Option<bool> {
    if normalized.len() == 0 {
        if empty_is_false {
            Some(false)
        } else {
            None
        }
    } else if normalized == "0"@ || normalized == "-1"@ || normalized == "false"@ {
        Some(false)
    } else if normalized == "1"@ || normalized == "2"@ || normalized == "true"@ {
        Some(true)
    } else if all_digits(normalized) {
        match first_number {
            Some(n) => Some(n > 0),
            None => None,
        }
    } else {
        None
    }
}

/// The normalized form under which the rule sets look a text up: trimmed and in lower case.
pub open spec fn normalized_text(txt: Seq<char>) -> Seq<char> {
    lowercase_of(trimmed(txt))
}

/// The strict reading of a text.
pub open spec fn truthy_core(txt: Seq<char>, empty_is_false: bool) -> Option<bool> {
    truthy_core_of(normalized_text(txt), first_u8_of(normalized_text(txt)), empty_is_false)
}

/// The reading of a normalized text as a common English word, if it is one.
pub open spec fn truthy_word_of(normalized: Seq<char>) -> Option<bool> {
    if normalized == "no"@ || normalized == "not"@ || normalized == "none"@ || normalized == "n"@
        || normalized == "f"@ {
        Some(false)
    } else if normalized == "ok"@ || normalized == "okay"@ || normalized == "y"@ || normalized
        == "yes"@ || normalized == "t"@ {
        Some(true)
    } else {
        None
    }
}

/// The standard reading of a text: the strict reading, else a common English word.
pub open spec fn truthy_standard(txt: Seq<char>, empty_is_false: bool) -> Option<bool> {
    match truthy_core(txt, empty_is_false) {
        Some(b) => Some(b),
        None => truthy_word_of(normalized_text(txt)),
    }
}

/// Whether a trimmed text matches a rule.
pub open spec fn option_matches(txt: Seq<char>, opt: TruthyOptionView) -> bool {
    if opt.starts_with {
        if opt.case_sensitive {
            has_prefix(txt, opt.pattern)
        } else {
            has_prefix_ci_alphanum(txt, opt.pattern)
        }
    } else {
        if opt.case_sensitive {
            txt == opt.pattern
        } else {
            lowercase_of(txt) == lowercase_of(opt.pattern)
        }
    }
}

/// What the first matching rule asserts, if any rule matches.
pub open spec fn first_match(txt: Seq<char>, opts: Seq<TruthyOptionView>) -> Option<bool>
    decreases opts.len(),
{
    if opts.len() == 0 {
        None
    } else if option_matches(txt, opts[0]) {
        Some(opts[0].is_true)
    } else {
        first_match(txt, opts.drop_first())
    }
}

/// The reading of a text under a rule set: what the first rule that matches
/// the trimmed text asserts; with no match, the strict reading if
/// `use_defaults` is set, else nothing.
pub open spec fn truthy_custom(
    txt: Seq<char>,
    opts: Seq<TruthyOptionView>,
    use_defaults: bool,
    empty_is_false: bool,
) -> Option<bool> {
    match first_match(trimmed(txt), opts) {
        Some(b) => Some(b),
        None => if use_defaults {
            truthy_core(trimmed(txt), empty_is_false)
        } else {
            None
        },
    }
}

/// Rules of the caller's replace the built-in ones: without `use_defaults`,
/// a text that no rule matches is unmatched, whatever the strict or the
/// standard rules would read.
pub proof fn lemma_custom_rules_exclude_defaults(
    txt: Seq<char>,
    opts: Seq<TruthyOptionView>,
    empty_is_false: bool,
)
    requires
        first_match(trimmed(txt), opts) is None,
    ensures
        truthy_custom(txt, opts, false, empty_is_false) is None,
        truthy_custom(txt, opts, true, empty_is_false) == truthy_core(trimmed(txt), empty_is_false),
{
}

/// The standard rules read everything that the strict rules read, and the same.
pub proof fn lemma_standard_extends_core(txt: Seq<char>, empty_is_false: bool)
    requires
        truthy_core(txt, empty_is_false) is Some,
    ensures
        truthy_standard(txt, empty_is_false) == truthy_core(txt, empty_is_false),
{
}

/// The strict reading of a text that is already trimmed and in lower case,
/// given the number found in it.
pub fn truthy_core_from(normalized: &str, first_number: Option<u8>, empty_is_false: bool) -> (r:
    Option<bool>)
    ensures
        r == truthy_core_of(normalized@, first_number, empty_is_false),
{
    let v = to_chars(normalized);
    if v.len() == 0 {
        if empty_is_false {
            Some(false)
        } else {
            None
        }
    } else if chars_are(&v, "0") || chars_are(&v, "-1") || chars_are(&v, "false") {
        Some(false)
    } else if chars_are(&v, "1") || chars_are(&v, "2") || chars_are(&v, "true") {
        Some(true)
    } else if is_all_digits(&v) {
        match first_number {
            Some(n) => Some(n > 0),
            None => None,
        }
    } else {
        None
    }
}

/// The reading of a normalized text as a common English word.
pub fn truthy_word(normalized: &str) -> (r: Option<bool>)
    ensures
        r == truthy_word_of(normalized@),
{
    let v = to_chars(normalized);
    if chars_are(&v, "no") || chars_are(&v, "not") || chars_are(&v, "none") || chars_are(&v, "n")
        || chars_are(&v, "f") {
        Some(false)
    } else if chars_are(&v, "ok") || chars_are(&v, "okay") || chars_are(&v, "y") || chars_are(
        &v,
        "yes",
    ) || chars_are(&v, "t") {
        Some(true)
    } else {
        None
    }
}

/// The text trimmed and in lower case.
pub fn normalize_text(txt: &str) -> (r: String)
    ensures
        r@ == normalized_text(txt@),
{
    let t = trim_text(txt);
    t.as_str().to_lowercase()
}

/// Reads a text as a boolean by the strict rules: only `true`, `false` and
/// whole numbers count, whatever their case and the whitespace around them.
pub fn is_truthy_core(txt: &str, empty_is_false: bool) -> (r: Option<bool>)
    ensures
        r == truthy_core(txt@, empty_is_false),
{
    let normalized = normalize_text(txt);
    let first_number = first_number_u8(normalized.as_str());
    truthy_core_from(normalized.as_str(), first_number, empty_is_false)
}

/// Reads a text as a boolean by the strict rules and, failing those, as one
/// of the words `yes`, `no`, `y`, `n`, `ok`, `okay`, `t`, `f`, `none`, `not`.
pub fn is_truthy_standard(txt: &str, empty_is_false: bool) -> (r: Option<bool>)
    ensures
        r == truthy_standard(txt@, empty_is_false),
{
    match is_truthy_core(txt, empty_is_false) {
        Some(b) => Some(b),
        None => {
            let normalized = normalize_text(txt);
            truthy_word(normalized.as_str())
        },
    }
}

/// Whether a trimmed text matches a rule.
pub fn matches_option(txt: &str, opt: &TruthyOption) -> (r: bool)
    ensures
        r == option_matches(txt@, opt@),
{
    if opt.starts_with {
        if opt.case_sensitive {
            let t = to_chars(txt);
            let p = to_chars(opt.pattern.as_str());
            starts_with_chars(&t, &p)
        } else {
            starts_with_ci_alphanum(txt, opt.pattern.as_str())
        }
    } else {
        if opt.case_sensitive {
            let t = to_chars(txt);
            let p = to_chars(opt.pattern.as_str());
            chars_equal(&t, &p)
        } else {
            let t = txt.to_lowercase();
            let p = opt.pattern.as_str().to_lowercase();
            let tv = to_chars(t.as_str());
            let pv = to_chars(p.as_str());
            chars_equal(&tv, &pv)
        }
    }
}

/// Reads a text as a boolean under a rule set of the caller's: the first rule
/// that matches decides. With no match the strict rules apply if
/// `use_defaults` is set; otherwise the text is unmatched.
pub fn is_truthy_custom(
    txt: &str,
    opts: &[TruthyOption],
    use_defaults: bool,
    empty_is_false: bool,
) -> (r: Option<bool>)
    ensures
        r == truthy_custom(txt@, options_view(opts@), use_defaults, empty_is_false),
{
    let trimmed_txt = trim_text(txt);
    let ghost all = options_view(opts@);
    let mut i: usize = 0;
    assert(all.skip(0) =~= all);
    while i < opts.len()
        invariant
            i <= opts.len(),
            all == options_view(opts@),
            trimmed_txt@ == trimmed(txt@),
            first_match(trimmed_txt@, all) == first_match(trimmed_txt@, all.skip(i as int)),
        decreases opts.len() - i,
    {
        let ghost rest = all.skip(i as int);
        assert(rest[0] == opts@[i as int]@);
        assert(rest.drop_first() =~= all.skip(i as int + 1));
        if matches_option(trimmed_txt.as_str(), &opts[i]) {
            return Some(opts[i].is_true);
        }
        i += 1;
    }
    assert(all.skip(opts.len() as int) =~= Seq::<TruthyOptionView>::empty());
    if use_defaults {
        is_truthy_core(trimmed_txt.as_str(), empty_is_false)
    } else {
        None
    }
}

impl TruthyOption {
    /// A rule from its parts.
    pub fn new(is_true: bool, pattern: &str, case_sensitive: bool, starts_with: bool) -> (r: Self)
        ensures
            r@ == (TruthyOptionView { is_true, pattern: pattern@, case_sensitive, starts_with }),
    {
        TruthyOption { is_true, pattern: pattern.to_string(), case_sensitive, starts_with }
    }

    /// The pattern of the rule.
    pub fn sample(&self) -> (r: String)
        ensures
            r@ == self.pattern@,
    {
        self.pattern.clone()
    }

    /// A copy of the rule.
    pub fn duplicate(&self) -> (r: Self)
        ensures
            r@ == self@,
    {
        TruthyOption {
            is_true: self.is_true,
            pattern: self.pattern.clone(),
            case_sensitive: self.case_sensitive,
            starts_with: self.starts_with,
        }
    }
}

/// One rule for each pattern, all asserting `is_true`.
pub open spec fn rules_for(
    patterns: Seq<Seq<char>>,
    is_true: bool,
    case_sensitive: bool,
    starts_with: bool,
) -> Seq<TruthyOptionView> {
    Seq::new(
        patterns.len(),
        |i: int| TruthyOptionView { is_true, pattern: patterns[i], case_sensitive, starts_with },
    )
}

/// The rules that two `|`-separated lists of patterns describe: first those
/// that assert true, then those that assert false. Empty patterns are skipped.
pub open spec fn truth_options_of(
    yes: Seq<char>,
    no: Seq<char>,
    case_sensitive: bool,
    starts_with: bool,
) -> Seq<TruthyOptionView> {
    rules_for(segments_of(yes, '|'), true, case_sensitive, starts_with) + rules_for(
        segments_of(no, '|'),
        false,
        case_sensitive,
        starts_with,
    )
}

/// Appends one rule for each `|`-separated pattern.
fn push_rules(
    out: &mut Vec<TruthyOption>,
    patterns: &Vec<char>,
    is_true: bool,
    case_sensitive: bool,
    starts_with: bool,
)
    ensures
        options_view(final(out)@) == options_view(old(out)@) + rules_for(
            segments_of(patterns@, '|'),
            is_true,
            case_sensitive,
            starts_with,
        ),
{
    let parts = split_segments(patterns, '|');
    let ghost before = options_view(out@);
    let ghost texts = segments_of(patterns@, '|');
    let mut i: usize = 0;
    while i < parts.len()
        invariant
            i <= parts.len(),
            texts_of(parts@) == texts,
            options_view(out@) =~= before + rules_for(
                texts.take(i as int),
                is_true,
                case_sensitive,
                starts_with,
            ),
        decreases parts.len() - i,
    {
        assert(texts_of(parts@)[i as int] == parts@[i as int]@);
        let pattern = string_of_chars(&parts[i]);
        let ghost prev = options_view(out@);
        out.push(TruthyOption { is_true, pattern, case_sensitive, starts_with });
        proof {
            let added = TruthyOptionView {
                is_true,
                pattern: texts[i as int],
                case_sensitive,
                starts_with,
            };
            assert(out@[out@.len() - 1]@ == added);
            assert(options_view(out@) =~= prev.push(added));
            assert(rules_for(texts.take(i as int + 1), is_true, case_sensitive, starts_with)
                =~= rules_for(texts.take(i as int), is_true, case_sensitive, starts_with).push(
                added,
            ));
        }
        i += 1;
    }
    assert(texts.take(parts.len() as int) =~= texts);
}

/// The rules that two `|`-separated lists of patterns describe.
pub fn to_truth_options(yes: &str, no: &str, case_sensitive: bool, starts_with: bool) -> (r: Vec<
    TruthyOption,
>)
    ensures
        options_view(r@) == truth_options_of(yes@, no@, case_sensitive, starts_with),
{
    let mut out: Vec<TruthyOption> = Vec::new();
    assert(options_view(out@) =~= Seq::<TruthyOptionView>::empty());
    push_rules(&mut out, &to_chars(yes), true, case_sensitive, starts_with);
    push_rules(&mut out, &to_chars(no), false, case_sensitive, starts_with);
    assert(options_view(out@) =~= truth_options_of(yes@, no@, case_sensitive, starts_with));
    out
}

/// The rules that a setting of the form `truthy,yes|ok,no|bad` describes.
///
/// The setting is cut at commas into non-empty parts. With three parts or
/// more, of which the first begins with `tru` (letters and numbers only,
/// whatever the case), the second part lists the patterns for true and the
/// third those for false. Any other setting describes no rule.
pub open spec fn custom_option_rules(
    custom: Seq<char>,
    case_sensitive: bool,
    starts_with: bool,
) -> Seq<TruthyOptionView> {
    let parts = segments_of(custom, ',');
    if parts.len() > 2 && has_prefix_ci_alphanum(parts[0], "tru"@) {
        truth_options_of(parts[1], parts[2], case_sensitive, starts_with)
    } else {
        Seq::<TruthyOptionView>::empty()
    }
}

/// Turns a setting such as `truthy,ok|good,failed|bad` into rules: `ok` and
/// `good` for true, `failed` and `bad` for false.
pub fn split_truthy_custom_option_str(custom_str: &str, case_sensitive: bool, starts_with: bool) -> (r:
    Vec<TruthyOption>)
    ensures
        options_view(r@) == custom_option_rules(custom_str@, case_sensitive, starts_with),
{
    let parts = split_segments(&to_chars(custom_str), ',');
    let mut out: Vec<TruthyOption> = Vec::new();
    assert(options_view(out@) =~= Seq::<TruthyOptionView>::empty());
    if parts.len() > 2 {
        assert(texts_of(parts@)[0] == parts@[0]@);
        assert(texts_of(parts@)[1] == parts@[1]@);
        assert(texts_of(parts@)[2] == parts@[2]@);
        let first = string_of_chars(&parts[0]);
        if starts_with_ci_alphanum(first.as_str(), "tru") {
            push_rules(&mut out, &parts[1], true, case_sensitive, starts_with);
            push_rules(&mut out, &parts[2], false, case_sensitive, starts_with);
            assert(options_view(out@) =~= truth_options_of(
                parts@[1]@,
                parts@[2]@,
                case_sensitive,
                starts_with,
            ));
        }
    }
    out
}

/// The patterns of the rules that assert `is_true`, in order.
pub open spec fn truth_patterns_of(opts: Seq<TruthyOptionView>, is_true: bool) -> Seq<Seq<char>>
    decreases opts.len(),
{
    if opts.len() == 0 {
        Seq::<Seq<char>>::empty()
    } else if opts.last().is_true == is_true {
        truth_patterns_of(opts.drop_last(), is_true).push(opts.last().pattern)
    } else {
        truth_patterns_of(opts.drop_last(), is_true)
    }
}

/// The patterns of the rules that assert `is_true`, in order.
pub fn extract_truth_patterns(opts: &[TruthyOption], is_true: bool) -> (r: Vec<String>)
    ensures
        strings_view(r@) == truth_patterns_of(options_view(opts@), is_true),
{
    let mut out: Vec<String> = Vec::new();
    let ghost all = options_view(opts@);
    let mut i: usize = 0;
    assert(all.take(0) =~= Seq::<TruthyOptionView>::empty());
    assert(strings_view(out@) =~= Seq::<Seq<char>>::empty());
    while i < opts.len()
        invariant
            i <= opts.len(),
            all == options_view(opts@),
            strings_view(out@) == truth_patterns_of(all.take(i as int), is_true),
        decreases opts.len() - i,
    {
        let ghost before = strings_view(out@);
        assert(all.take(i as int + 1).drop_last() =~= all.take(i as int));
        assert(all.take(i as int + 1).last() == opts@[i as int]@);
        if opts[i].is_true == is_true {
            out.push(opts[i].pattern.clone());
            assert(strings_view(out@) =~= before.push(opts@[i as int].pattern@));
        }
        i += 1;
    }
    assert(all.take(opts.len() as int) =~= all);
    out
}

impl Clone for TruthyOption {
    fn clone(&self) -> (r: Self)
        ensures
            r@ == self@,
    {
        self.duplicate()
    }
}

} // verus!
