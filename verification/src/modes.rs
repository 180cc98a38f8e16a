//! How a source is read and how its columns are named.

use vstd::prelude::*;
use vstd::string::*;
use crate::text::{alphanumeric_only, chars_are, has_prefix_ci, keep_alphanumeric, lowercase_of,
    starts_with_ci, to_chars};

verus! {

/// How many rows are kept in memory and how many sheets are read.
#[derive(Debug, Clone, Copy, PartialEq, Eq, Structural)]
pub enum ReadMode {
    /// One sheet, rows kept in memory.
    Sync,
    /// Every sheet, a bounded number of rows of each kept in memory.
    PreviewMultiple,
    /// One sheet, rows handed on one by one and none kept.
    Async,
}

impl Default for ReadMode {
    fn default() -> (r: Self)
        ensures
            r == ReadMode::Sync,
    {
        ReadMode::Sync
    }
}

/// The read mode that a key names once put in lower case and stripped of
/// everything but letters and numbers; `Sync` for any other key.
pub open spec fn read_mode_of(sample: Seq<char>) -> ReadMode {
    if sample == "async"@ || sample == "defer"@ || sample == "deferred"@ || sample == "a"@ {
        ReadMode::Async
    } else if sample == "preview"@ || sample == "p"@ || sample == "pre"@ || sample == "multimode"@
        || sample == "multiple"@ || sample == "previewmultiple"@ || sample == "previewmulti"@
        || sample == "m"@ {
        ReadMode::PreviewMultiple
    } else {
        ReadMode::Sync
    }
}

impl ReadMode {
    /// The read mode that a key names: `async`, `preview` or `sync` and
    /// their synonyms, whatever the case and punctuation. Any other key gives `Sync`.
    pub fn from_key(key: &str) -> (r: Self)
        ensures
            r == read_mode_of(alphanumeric_only(lowercase_of(key@))),
    {
        let lower = key.to_lowercase();
        let s = keep_alphanumeric(&to_chars(lower.as_str()));
        if chars_are(&s, "async") || chars_are(&s, "defer") || chars_are(&s, "deferred")
            || chars_are(&s, "a") {
            ReadMode::Async
        } else if chars_are(&s, "preview") || chars_are(&s, "p") || chars_are(&s, "pre")
            || chars_are(&s, "multimode") || chars_are(&s, "multiple") || chars_are(
            &s,
            "previewmultiple",
        ) || chars_are(&s, "previewmulti") || chars_are(&s, "m") {
            ReadMode::PreviewMultiple
        } else {
            ReadMode::Sync
        }
    }

    /// Whether rows are handed on one by one.
    pub fn is_async(&self) -> (r: bool)
        ensures
            r == (*self == ReadMode::Async),
    {
        match self {
            ReadMode::Async => true,
            _ => false,
        }
    }

    /// Whether every sheet is read.
    pub fn is_multimode(&self) -> (r: bool)
        ensures
            r == (*self == ReadMode::PreviewMultiple),
    {
        match self {
            ReadMode::PreviewMultiple => true,
            _ => false,
        }
    }

    /// The name under which the mode is shown.
    pub open spec fn name(self) -> Seq<char> {
        match self {
            ReadMode::Async => "deferred"@,
            ReadMode::PreviewMultiple => "preview"@,
            ReadMode::Sync => "direct"@,
        }
    }

    /// The name under which the mode is shown: `deferred`, `preview` or `direct`.
    pub fn to_string(&self) -> (r: String)
        ensures
            r@ == self.name(),
    {
        match self {
            ReadMode::Async => "deferred".to_string(),
            ReadMode::PreviewMultiple => "preview".to_string(),
            ReadMode::Sync => "direct".to_string(),
        }
    }
}

/// How columns are named: by letters or by padded numbers, and whether the
/// headers found in the source are kept.
#[derive(Debug, Clone, Copy, PartialEq, Eq, Structural)]
pub enum FieldNameMode {
    /// Headers of the source; letters (`a`, `b`, ...) where there is none.
    AutoA1,
    /// Headers of the source; padded numbers (`c01`, `c02`, ...) where there is none.
    AutoNumPadded,
    /// Letters, whatever the source holds.
    A1,
    /// Padded numbers, whatever the source holds.
    NumPadded,
}

impl Default for FieldNameMode {
    fn default() -> (r: Self)
        ensures
            r == FieldNameMode::AutoA1,
    {
        FieldNameMode::AutoA1
    }
}

impl FieldNameMode {
    /// The naming that a key selects.
    pub open spec fn of_key(system: Seq<char>, override_header: bool) -> FieldNameMode {
        if has_prefix_ci(system, "a1"@) {
            if override_header {
                FieldNameMode::A1
            } else {
                FieldNameMode::AutoA1
            }
        } else if has_prefix_ci(system, "c"@) || has_prefix_ci(system, "n"@) {
            if override_header {
                FieldNameMode::NumPadded
            } else {
                FieldNameMode::AutoNumPadded
            }
        } else {
            FieldNameMode::AutoA1
        }
    }

    /// The naming that a key selects: letters for a key that begins with
    /// `a1`, padded numbers for one that begins with `c` or `n` (whatever the
    /// case); `override_header` decides whether source headers are dropped.
    /// Any other key gives `AutoA1`.
    pub fn from_key(system: &str, override_header: bool) -> (r: Self)
        ensures
            r == FieldNameMode::of_key(system@, override_header),
    {
        if starts_with_ci(system, "a1") {
            if override_header {
                FieldNameMode::A1
            } else {
                FieldNameMode::AutoA1
            }
        } else if starts_with_ci(system, "c") || starts_with_ci(system, "n") {
            if override_header {
                FieldNameMode::NumPadded
            } else {
                FieldNameMode::AutoNumPadded
            }
        } else {
            FieldNameMode::AutoA1
        }
    }

    /// Whether synthetic keys are letters.
    #[verifier::when_used_as_spec(spec_use_a1)]
    pub fn use_a1(&self) -> (r: bool)
        ensures
            r == self.spec_use_a1(),
    {
        match self {
            FieldNameMode::AutoA1 | FieldNameMode::A1 => true,
            _ => false,
        }
    }

    /// Whether synthetic keys are letters.
    pub open spec fn spec_use_a1(&self) -> bool {
        *self == FieldNameMode::AutoA1 || *self == FieldNameMode::A1
    }

    /// Whether synthetic keys are padded numbers.
    #[verifier::when_used_as_spec(spec_use_c01)]
    pub fn use_c01(&self) -> (r: bool)
        ensures
            r == self.spec_use_c01(),
    {
        match self {
            FieldNameMode::AutoNumPadded | FieldNameMode::NumPadded => true,
            _ => false,
        }
    }

    /// Whether synthetic keys are padded numbers.
    pub open spec fn spec_use_c01(&self) -> bool {
        *self == FieldNameMode::AutoNumPadded || *self == FieldNameMode::NumPadded
    }

    /// Whether the headers of the source are dropped.
    #[verifier::when_used_as_spec(spec_override_headers)]
    pub fn override_headers(&self) -> (r: bool)
        ensures
            r == self.spec_override_headers(),
    {
        match self {
            FieldNameMode::NumPadded | FieldNameMode::A1 => true,
            _ => false,
        }
    }

    /// Whether the headers of the source are dropped.
    pub open spec fn spec_override_headers(&self) -> bool {
        *self == FieldNameMode::NumPadded || *self == FieldNameMode::A1
    }

    /// Whether the headers of the source are kept.
    #[verifier::when_used_as_spec(spec_keep_headers)]
    pub fn keep_headers(&self) -> (r: bool)
        ensures
            r == self.spec_keep_headers(),
    {
        !self.override_headers()
    }

    /// Whether the headers of the source are kept.
    pub open spec fn spec_keep_headers(&self) -> bool {
        !self.spec_override_headers()
    }

    /// The name under which the naming is shown.
    pub open spec fn name(self) -> Seq<char> {
        match self {
            FieldNameMode::AutoNumPadded => "C01 auto"@,
            FieldNameMode::NumPadded => "C01 override"@,
            FieldNameMode::A1 => "A1 override"@,
            FieldNameMode::AutoA1 => "A1 auto"@,
        }
    }

    /// The name under which the naming is shown.
    pub fn to_string(&self) -> (r: String)
        ensures
            r@ == self.name(),
    {
        match self {
            FieldNameMode::AutoNumPadded => "C01 auto".to_string(),
            FieldNameMode::NumPadded => "C01 override".to_string(),
            FieldNameMode::A1 => "A1 override".to_string(),
            FieldNameMode::AutoA1 => "A1 auto".to_string(),
        }
    }
}

} // verus!
