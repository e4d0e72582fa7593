use vstd::prelude::*;

verus! {

/// Minute-boundary rollover policy: the window rolls exactly when the
/// minute-of-hour has changed since the last emission. The absolute
/// difference of the two minute values is at least one exactly when they
/// differ, so the hour wraparound (59 to 0, difference 59) still rolls.
pub fn should_roll(last_window_minute: u32, current_minute: u32) -> (r: bool)
    ensures
        r <==> last_window_minute != current_minute,
{
    let diff = if last_window_minute >= current_minute {
        last_window_minute - current_minute
    } else {
        current_minute - last_window_minute
    };
    diff >= 1
}

} // verus!
