//! Logging verbosity chosen by name.
use vstd::prelude::*;

use crate::text::chars_of;

verus! {

/// The level of the process-wide logger.
#[derive(Clone, Copy, Debug, PartialEq, Eq, Structural)]
pub enum LogLevel {
    Off,
    Trace,
    Debug,
    Info,
    Error,
    Warn,
}

/// What `str::to_lowercase` gives for `s`.
pub uninterp spec fn lower_of(s: Seq<char>) -> Seq<char>;

/// Relies on `str::to_lowercase`: the Unicode lowercase mapping of `s`, which
/// depends on the characters of `s` alone.
#[verifier::external_body]
fn lowercase(s: &str) -> (r: String)
    ensures
        r@ == lower_of(s@),
{
    s.to_lowercase()
}

/// The level that a lowercase name selects; any other name selects `Warn`.
pub open spec fn level_named(s: Seq<char>) -> LogLevel {
    if s == seq!['o', 'f', 'f'] || s == seq!['n', 'o', 'n', 'e'] {
        LogLevel::Off
    } else if s == seq!['t', 'r', 'a', 'c', 'e'] {
        LogLevel::Trace
    } else if s == seq!['d', 'e', 'b', 'u', 'g'] {
        LogLevel::Debug
    } else if s == seq!['i', 'n', 'f', 'o'] {
        LogLevel::Info
    } else if s == seq!['e', 'r', 'r', 'o', 'r'] {
        LogLevel::Error
    } else {
        LogLevel::Warn
    }
}

/// The level chosen by an optional name, compared without regard to case.
pub open spec fn level_for(name: Option<Seq<char>>) -> LogLevel {
    match name {
        None => LogLevel::Warn,
        Some(s) => level_named(lower_of(s)),
    }
}

/// Whether `v` holds exactly the characters of `w`.
fn is_word(v: &Vec<char>, w: &[char]) -> (r: bool)
    ensures
        r == (v@ == w@),
{
    if v.len() != w.len() {
        return false;
    }
    let mut i: usize = 0;
    while i < v.len()
        invariant
            v@.len() == w@.len(),
            i <= v@.len(),
            forall|k: int| 0 <= k < i ==> #[trigger] v@[k] == w@[k],
        decreases v@.len() - i,
    {
        if v[i] != w[i] {
            return false;
        }
        i = i + 1;
    }
    assert(v@ =~= w@);
    true
}

impl LogLevel {
    /// The level named by an already lowercase `name`.
    pub fn from_lowercase(name: &str) -> (r: LogLevel)
        ensures
            r == level_named(name@),
    {
        let v = chars_of(name);
        let off: [char; 3] = ['o', 'f', 'f'];
        let none: [char; 4] = ['n', 'o', 'n', 'e'];
        let trace: [char; 5] = ['t', 'r', 'a', 'c', 'e'];
        let debug: [char; 5] = ['d', 'e', 'b', 'u', 'g'];
        let info: [char; 4] = ['i', 'n', 'f', 'o'];
        let error: [char; 5] = ['e', 'r', 'r', 'o', 'r'];
        assert(off@ =~= seq!['o', 'f', 'f']);
        assert(none@ =~= seq!['n', 'o', 'n', 'e']);
        assert(trace@ =~= seq!['t', 'r', 'a', 'c', 'e']);
        assert(debug@ =~= seq!['d', 'e', 'b', 'u', 'g']);
        assert(info@ =~= seq!['i', 'n', 'f', 'o']);
        assert(error@ =~= seq!['e', 'r', 'r', 'o', 'r']);
        if is_word(&v, off.as_slice()) || is_word(&v, none.as_slice()) {
            LogLevel::Off
        } else if is_word(&v, trace.as_slice()) {
            LogLevel::Trace
        } else if is_word(&v, debug.as_slice()) {
            LogLevel::Debug
        } else if is_word(&v, info.as_slice()) {
            LogLevel::Info
        } else if is_word(&v, error.as_slice()) {
            LogLevel::Error
        } else {
            LogLevel::Warn
        }
    }

    /// The level chosen by an optional name, without regard to case:
    /// "off" or "none", "trace", "debug", "info", "error"; `Warn` when the
    /// name is absent or not one of these.
    pub fn from_name(name: Option<&str>) -> (r: LogLevel)
        ensures
            r == level_for(
                match name {
                    Some(s) => Some(s@),
                    None => None,
                },
            ),
    {
        match name {
            None => LogLevel::Warn,
            Some(s) => {
                let lower = lowercase(s);
                LogLevel::from_lowercase(lower.as_str())
            },
        }
    }
}

} // verus!
