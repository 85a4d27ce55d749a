//! The switches of the optional timing log.

use vstd::prelude::*;

use std::time::Instant;

use crate::img_cache::instant_now;
use crate::text::{ascii_lower, lower_chars, str_eq};

verus! {

/// The timing log is on when its variable is set to anything but `0` or,
/// in any letter case, `false`.
pub open spec fn perf_flag_spec(value: Option<Seq<char>>) -> bool {
    match value {
        None => false,
        Some(v) => v != "0"@ && ascii_lower(v) != "false"@,
    }
}

/// Whether a value of the timing variable turns the log on; `None` when the
/// variable is unset or not unicode.
pub fn perf_flag_enabled(value: Option<&str>) -> (r: bool)
    ensures
        r == perf_flag_spec(match value {
            Some(v) => Some(v@),
            None => None,
        }),
{
    match value {
        None => false,
        Some(v) => {
            if str_eq(v, "0") {
                return false;
            }
            let lowered = lower_chars(v);
            let target = crate::text::chars_of("false");
            if lowered.len() != target.len() {
                assert(ascii_lower(v@).len() != "false"@.len());
                return true;
            }
            let mut i: usize = 0;
            while i < lowered.len()
                invariant
                    lowered@ == ascii_lower(v@),
                    v@ != "0"@,
                    value == Some(v),
                    target@ == "false"@,
                    lowered.len() == target.len(),
                    i <= lowered.len(),
                    forall|j: int| 0 <= j < i ==> lowered@[j] == target@[j],
                decreases lowered.len() - i,
            {
                if lowered[i] != target[i] {
                    assert(lowered@[i as int] != target@[i as int]);
                    return true;
                }
                i = i + 1;
            }
            assert(lowered@ =~= target@);
            false
        },
    }
}

/// A timed scope is logged when it took at least its threshold.
pub fn is_slow(elapsed_ms: u128, threshold_ms: u128) -> (r: bool)
    ensures
        r == (elapsed_ms >= threshold_ms),
{
    elapsed_ms >= threshold_ms
}

/// `Instant::elapsed`, in whole milliseconds: time since `t`, read from the
/// clock.
#[verifier::external_body]
fn millis_since(t: &Instant) -> u128 {
    t.elapsed().as_millis()
}

/// A timed scope: its label and start when timing is on.
pub struct ScopeTimer {
    pub label: String,
    pub start: Option<Instant>,
    pub threshold_ms: u128,
}

impl ScopeTimer {
    /// Starts timing a scope when the timing log is on; otherwise keeps no
    /// label and no start.
    pub fn with_threshold(label: String, threshold_ms: u128, enabled: bool) -> (r: Self)
        ensures
            r.threshold_ms == threshold_ms,
            enabled ==> r.label == label && r.start is Some,
            !enabled ==> r.label@.len() == 0 && r.start is None,
    {
        if !enabled {
            return ScopeTimer { label: String::new(), start: None, threshold_ms };
        }
        ScopeTimer { label, start: Some(instant_now()), threshold_ms }
    }

    /// What the end of the scope logs: the milliseconds it took, when it was
    /// timed and took at least its threshold.
    pub fn finish(&self) -> (r: Option<u128>)
        ensures
            self.start is None ==> r is None,
            r matches Some(ms) ==> ms >= self.threshold_ms,
    {
        match &self.start {
            None => None,
            Some(start) => {
                let ms = millis_since(start);
                if is_slow(ms, self.threshold_ms) {
                    Some(ms)
                } else {
                    None
                }
            },
        }
    }
}

/// The milliseconds since `start` to log, when the timing log is on and
/// they reach the threshold.
pub fn log_elapsed_with_threshold(enabled: bool, start: &Instant, threshold_ms: u128) -> (r: Option<u128>)
    ensures
        !enabled ==> r is None,
        r matches Some(ms) ==> ms >= threshold_ms,
{
    if !enabled {
        return None;
    }
    let ms = millis_since(start);
    if is_slow(ms, threshold_ms) {
        Some(ms)
    } else {
        None
    }
}

} // verus!
