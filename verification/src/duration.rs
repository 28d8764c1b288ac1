//! From a count of milliseconds to a `std::time::Duration`.

use vstd::prelude::*;
use std::time::Duration;
use crate::error::{Error, ErrorView};
use crate::std_specs::duration_new;

verus! {

/// Whether a `Duration` can hold `ms` milliseconds: its whole seconds fit in a `u64`.
pub open spec fn fits_duration(ms: nat) -> bool {
    ms / 1000 <= u64::MAX
}

/// The duration of `ms` milliseconds: `ms / 1000` whole seconds and the
/// remaining milliseconds as nanoseconds.
pub open spec fn duration_of_millis(ms: nat) -> Duration
    recommends
        fits_duration(ms),
{
    duration_new((ms / 1000) as u64, ((ms % 1000) * 1_000_000) as u32)
}

/// The duration of `ms` milliseconds, or `DurationOverflow` where no
/// `Duration` can hold as much.
pub open spec fn to_duration(ms: nat) -> Result<Duration, ErrorView> {
    if fits_duration(ms) {
        Ok(duration_of_millis(ms))
    } else {
        Err(ErrorView::DurationOverflow)
    }
}

/// What a function that gives a duration returned, as a mathematical value.
pub open spec fn duration_result_view(r: Result<Duration, Error>) -> Result<Duration, ErrorView> {
    match r {
        Ok(d) => Ok(d),
        Err(e) => Err(e@),
    }
}

/// Makes a `Duration` of a count of milliseconds.
pub fn duration_from_millis(ms: u128) -> (r: Result<Duration, Error>)
    ensures
        duration_result_view(r) == to_duration(ms as nat),
{
    let secs: u128 = ms / 1000;
    if secs > u64::MAX as u128 {
        Err(Error::DurationOverflow)
    } else {
        let nanos: u128 = (ms % 1000) * 1_000_000;
        Ok(Duration::new(secs as u64, nanos as u32))
    }
}

} // verus!
