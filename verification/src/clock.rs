use chrono::Timelike;
use vstd::prelude::*;

verus! {

/// Relies on chrono's `Local::now` and `Timelike::minute`: the minute number
/// of the current local wall-clock time, documented as 0 to 59.
#[verifier::external_body]
pub(crate) fn current_minute() -> (m: u32)
    ensures
        m < 60,
{
    chrono::Local::now().minute()
}

/// Relies on chrono's `Local::now` and the `Display` form of its
/// `DateTime<Local>`: the current local date and time as text. The clock
/// decides the value, so nothing is promised of it.
#[verifier::external_body]
pub(crate) fn now_text() -> String {
    format!("{}", chrono::Local::now())
}

} // verus!
