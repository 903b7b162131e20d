//! Severity levels of log records, and the case-insensitive recognition of
//! their names.

use vstd::prelude::*;
use vstd::string::StrSliceExecFns;

verus! {

/// Severity of a log record, from least to most severe.
#[derive(Clone, Copy, Debug, PartialEq, Eq, Structural)]
pub enum Level {
    Trace,
    Debug,
    Info,
    Warn,
    Error,
}

impl Level {
    /// Numeric rank of a level; a higher rank is more severe.
    pub open spec fn rank(self) -> int {
        match self {
            Level::Trace => 0,
            Level::Debug => 1,
            Level::Info => 2,
            Level::Warn => 3,
            Level::Error => 4,
        }
    }

    /// Executable rank.
    pub fn rank_u8(self) -> (r: u8)
        ensures
            r as int == self.rank(),
    {
        match self {
            Level::Trace => 0,
            Level::Debug => 1,
            Level::Info => 2,
            Level::Warn => 3,
            Level::Error => 4,
        }
    }

    /// A record at level `self` passes a threshold of `min` when it is at
    /// least as severe.
    pub open spec fn spec_passes(self, min: Level) -> bool {
        self.rank() >= min.rank()
    }

    /// Executable threshold test.
    pub fn passes(self, min: Level) -> (r: bool)
        ensures
            r == self.spec_passes(min),
    {
        self.rank_u8() >= min.rank_u8()
    }
}

/// ASCII lower-casing of one character; characters outside `A`..`Z` are
/// unchanged.
pub open spec fn lower_char(c: char) -> char {
    if 65 <= c as u32 && c as u32 <= 90 {
        ((c as u32 + 32) as u8) as char
    } else {
        c
    }
}

/// Two character sequences are equal up to ASCII case.
pub open spec fn eq_ignore_case(a: Seq<char>, b: Seq<char>) -> bool {
    a.map_values(|c: char| lower_char(c)) == b.map_values(|c: char| lower_char(c))
}

/// Executable ASCII lower-casing of one character.
fn to_lower(c: char) -> (r: char)
    ensures
        r == lower_char(c),
{
    let u = c as u32;
    if 65 <= u && u <= 90 {
        ((u + 32) as u8) as char
    } else {
        c
    }
}

/// Executable case-insensitive comparison of two strings.
pub fn str_eq_ignore_case(a: &str, b: &str) -> (r: bool)
    ensures
        r == eq_ignore_case(a@, b@),
{
    let n = a.unicode_len();
    if n != b.unicode_len() {
        proof {
            assert(a@.map_values(|c: char| lower_char(c)).len() == a@.len());
            assert(b@.map_values(|c: char| lower_char(c)).len() == b@.len());
        }
        return false;
    }
    let mut i: usize = 0;
    while i < n
        invariant
            i <= n,
            n == a@.len(),
            n == b@.len(),
            forall|k: int| 0 <= k < i ==> lower_char(a@[k]) == lower_char(b@[k]),
        decreases n - i,
    {
        let ca = a.get_char(i);
        let cb = b.get_char(i);
        if to_lower(ca) != to_lower(cb) {
            proof {
                assert(a@.map_values(|c: char| lower_char(c))[i as int] == lower_char(a@[i as int]));
                assert(b@.map_values(|c: char| lower_char(c))[i as int] == lower_char(b@[i as int]));
            }
            return false;
        }
        i += 1;
    }
    proof {
        assert(a@.map_values(|c: char| lower_char(c)) =~= b@.map_values(|c: char| lower_char(c)));
    }
    true
}

/// Recognize a level name, up to ASCII case.
pub open spec fn spec_parse_level(s: Seq<char>) -> Option<Level> {
    if eq_ignore_case(s, "trace"@) {
        Some(Level::Trace)
    } else if eq_ignore_case(s, "debug"@) {
        Some(Level::Debug)
    } else if eq_ignore_case(s, "info"@) {
        Some(Level::Info)
    } else if eq_ignore_case(s, "warn"@) {
        Some(Level::Warn)
    } else if eq_ignore_case(s, "error"@) {
        Some(Level::Error)
    } else {
        None
    }
}

/// Executable recognition of a level name, up to ASCII case.
pub fn parse_level(s: &str) -> (r: Option<Level>)
    ensures
        r == spec_parse_level(s@),
{
    if str_eq_ignore_case(s, "trace") {
        Some(Level::Trace)
    } else if str_eq_ignore_case(s, "debug") {
        Some(Level::Debug)
    } else if str_eq_ignore_case(s, "info") {
        Some(Level::Info)
    } else if str_eq_ignore_case(s, "warn") {
        Some(Level::Warn)
    } else if str_eq_ignore_case(s, "error") {
        Some(Level::Error)
    } else {
        None
    }
}

} // verus!
