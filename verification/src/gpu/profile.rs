//! Named ranges for a profiler.

use vstd::prelude::*;

use crate::text::{chars_of, same_text};

verus! {

/// Ranges are switched on by one of four words.
pub open spec fn is_on(word: Seq<char>) -> bool {
    word == "1"@ || word == "true"@ || word == "yes"@ || word == "on"@
}

/// Whether ranges are reported, by what `QWEN3_HIP_ROCTX` is set to.
pub fn ranges_enabled(setting: Option<&str>) -> (enabled: bool)
    ensures
        enabled == match setting {
            Some(word) => is_on(word@),
            None => false,
        },
{
    match setting {
        None => false,
        Some(word) => same_text(word, "1") || same_text(word, "true") || same_text(word, "yes")
            || same_text(word, "on"),
    }
}

/// A range that has been opened, where it was reported to a profiler.
#[derive(Debug, PartialEq, Eq, Structural)]
pub struct RangeGuard {
    pub active: bool,
}

/// A name that can be handed to the profiler: it has no NUL character.
pub open spec fn is_c_name(name: Seq<char>) -> bool {
    forall|i: int| 0 <= i < name.len() ==> #[trigger] name[i] != '\0'
}

/// Opens a range. It is active, and is to be pushed, where there is a profiler that can
/// take its name.
pub fn range(has_profiler: bool, name: &str) -> (guard: RangeGuard)
    ensures
        guard.active == (has_profiler && is_c_name(name@)),
{
    if !has_profiler {
        return RangeGuard { active: false };
    }
    let chars: Vec<char> = chars_of(name);
    let mut index: usize = 0;
    while index < chars.len()
        invariant
            chars@ == name@,
            index <= chars@.len(),
            forall|i: int| 0 <= i < index ==> #[trigger] name@[i] != '\0',
        decreases chars@.len() - index,
    {
        if chars[index] == '\0' {
            proof {
                assert(name@[index as int] == '\0');
            }
            return RangeGuard { active: false };
        }
        index += 1;
    }
    RangeGuard { active: true }
}

impl RangeGuard {
    /// Whether the range is to be popped when it ends: where it was pushed.
    pub fn pops(&self, has_profiler: bool) -> (pops: bool)
        ensures
            pops == (self.active && has_profiler),
    {
        self.active && has_profiler
    }
}

} // verus!
