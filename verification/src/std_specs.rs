//! What this library assumes of the standard library without proof: the
//! contracts of three functions that it calls.

use vstd::prelude::*;
use std::time::Duration;

verus! {

/// `String::push`: appends one character to the end of the string.
pub assume_specification[ String::push ](s: &mut String, c: char)
    ensures
        final(s)@ == old(s)@.push(c),
;

/// `str::eq`: whether two string slices hold the same characters.
pub assume_specification[ <str as PartialEq>::eq ](a: &str, b: &str) -> (equal: bool)
    ensures
        equal == (a@ == b@),
;

/// The duration that `Duration::new` makes of `secs` whole seconds and `nanos`
/// additional nanoseconds.
pub uninterp spec fn duration_new(secs: u64, nanos: u32) -> Duration;

/// `Duration::new`: the duration of `secs` whole seconds and `nanos` additional
/// nanoseconds. With `nanos` below one second nothing carries into the seconds,
/// so the call does not panic.
pub assume_specification[ Duration::new ](secs: u64, nanos: u32) -> (d: Duration)
    requires
        nanos < 1_000_000_000,
    ensures
        d == duration_new(secs, nanos),
;

} // verus!
