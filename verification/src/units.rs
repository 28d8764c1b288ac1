//! The unit table: which names stand for which unit of time, and how many
//! milliseconds each unit has.

use vstd::prelude::*;

verus! {

/// A unit of time that a duration string can name.
#[derive(Debug, PartialEq, Eq, Clone, Copy, Structural)]
pub enum TimeUnit {
    /// A thousandth of a second.
    Millisecond,
    /// A second.
    Second,
    /// Sixty seconds.
    Minute,
    /// Sixty minutes.
    Hour,
}

impl TimeUnit {
    /// The number of milliseconds in one of this unit.
    pub open spec fn spec_millis(self) -> nat {
        match self {
            TimeUnit::Millisecond => 1,
            TimeUnit::Second => 1_000,
            TimeUnit::Minute => 60_000,
            TimeUnit::Hour => 3_600_000,
        }
    }

    /// The number of milliseconds in one of this unit.
    pub fn millis(self) -> (ms: u64)
        ensures
            ms == self.spec_millis(),
    {
        match self {
            TimeUnit::Millisecond => 1,
            TimeUnit::Second => 1_000,
            TimeUnit::Minute => 60_000,
            TimeUnit::Hour => 3_600_000,
        }
    }
}

/// The unit that `name` stands for, if it is one of the table's spellings.
/// Spellings are lower case and matched exactly.
pub open spec fn unit_named(name: Seq<char>) -> Option<TimeUnit> {
    if name == "ms"@ || name == "msec"@ || name == "msecs"@ || name == "millisecond"@ || name
        == "milliseconds"@ {
        Some(TimeUnit::Millisecond)
    } else if name == "s"@ || name == "sec"@ || name == "secs"@ || name == "second"@ || name
        == "seconds"@ {
        Some(TimeUnit::Second)
    } else if name == "m"@ || name == "min"@ || name == "mins"@ || name == "minute"@ || name
        == "minutes"@ {
        Some(TimeUnit::Minute)
    } else if name == "h"@ || name == "hr"@ || name == "hrs"@ || name == "hour"@ || name
        == "hours"@ {
        Some(TimeUnit::Hour)
    } else {
        None
    }
}

/// Each of the twenty spellings names its unit: none is hidden by another.
pub proof fn law_unit_table()
    ensures
        unit_named("ms"@) == Some(TimeUnit::Millisecond),
        unit_named("msec"@) == Some(TimeUnit::Millisecond),
        unit_named("msecs"@) == Some(TimeUnit::Millisecond),
        unit_named("millisecond"@) == Some(TimeUnit::Millisecond),
        unit_named("milliseconds"@) == Some(TimeUnit::Millisecond),
        unit_named("s"@) == Some(TimeUnit::Second),
        unit_named("sec"@) == Some(TimeUnit::Second),
        unit_named("secs"@) == Some(TimeUnit::Second),
        unit_named("second"@) == Some(TimeUnit::Second),
        unit_named("seconds"@) == Some(TimeUnit::Second),
        unit_named("m"@) == Some(TimeUnit::Minute),
        unit_named("min"@) == Some(TimeUnit::Minute),
        unit_named("mins"@) == Some(TimeUnit::Minute),
        unit_named("minute"@) == Some(TimeUnit::Minute),
        unit_named("minutes"@) == Some(TimeUnit::Minute),
        unit_named("h"@) == Some(TimeUnit::Hour),
        unit_named("hr"@) == Some(TimeUnit::Hour),
        unit_named("hrs"@) == Some(TimeUnit::Hour),
        unit_named("hour"@) == Some(TimeUnit::Hour),
        unit_named("hours"@) == Some(TimeUnit::Hour),
{
    reveal_strlit("ms");
    assert("ms"@.len() == 2 && "ms"@[0] == 'm' && "ms"@[1] == 's');
    reveal_strlit("msec");
    assert("msec"@.len() == 4 && "msec"@[0] == 'm' && "msec"@[1] == 's');
    reveal_strlit("msecs");
    assert("msecs"@.len() == 5 && "msecs"@[0] == 'm' && "msecs"@[1] == 's');
    reveal_strlit("millisecond");
    assert("millisecond"@.len() == 11 && "millisecond"@[0] == 'm' && "millisecond"@[1] == 'i');
    reveal_strlit("milliseconds");
    assert("milliseconds"@.len() == 12 && "milliseconds"@[0] == 'm' && "milliseconds"@[1] == 'i');
    reveal_strlit("s");
    assert("s"@.len() == 1 && "s"@[0] == 's');
    reveal_strlit("sec");
    assert("sec"@.len() == 3 && "sec"@[0] == 's' && "sec"@[1] == 'e');
    reveal_strlit("secs");
    assert("secs"@.len() == 4 && "secs"@[0] == 's' && "secs"@[1] == 'e');
    reveal_strlit("second");
    assert("second"@.len() == 6 && "second"@[0] == 's' && "second"@[1] == 'e');
    reveal_strlit("seconds");
    assert("seconds"@.len() == 7 && "seconds"@[0] == 's' && "seconds"@[1] == 'e');
    reveal_strlit("m");
    assert("m"@.len() == 1 && "m"@[0] == 'm');
    reveal_strlit("min");
    assert("min"@.len() == 3 && "min"@[0] == 'm' && "min"@[1] == 'i');
    reveal_strlit("mins");
    assert("mins"@.len() == 4 && "mins"@[0] == 'm' && "mins"@[1] == 'i');
    reveal_strlit("minute");
    assert("minute"@.len() == 6 && "minute"@[0] == 'm' && "minute"@[1] == 'i');
    reveal_strlit("minutes");
    assert("minutes"@.len() == 7 && "minutes"@[0] == 'm' && "minutes"@[1] == 'i');
    reveal_strlit("h");
    assert("h"@.len() == 1 && "h"@[0] == 'h');
    reveal_strlit("hr");
    assert("hr"@.len() == 2 && "hr"@[0] == 'h' && "hr"@[1] == 'r');
    reveal_strlit("hrs");
    assert("hrs"@.len() == 3 && "hrs"@[0] == 'h' && "hrs"@[1] == 'r');
    reveal_strlit("hour");
    assert("hour"@.len() == 4 && "hour"@[0] == 'h' && "hour"@[1] == 'o');
    reveal_strlit("hours");
    assert("hours"@.len() == 5 && "hours"@[0] == 'h' && "hours"@[1] == 'o');
}

/// Looks a name up in the unit table.
pub fn lookup_unit(name: &str) -> (unit: Option<TimeUnit>)
    ensures
        unit == unit_named(name@),
{
    if name.eq("ms") || name.eq("msec") || name.eq("msecs") || name.eq("millisecond") || name.eq(
        "milliseconds",
    ) {
        Some(TimeUnit::Millisecond)
    } else if name.eq("s") || name.eq("sec") || name.eq("secs") || name.eq("second") || name.eq(
        "seconds",
    ) {
        Some(TimeUnit::Second)
    } else if name.eq("m") || name.eq("min") || name.eq("mins") || name.eq("minute") || name.eq(
        "minutes",
    ) {
        Some(TimeUnit::Minute)
    } else if name.eq("h") || name.eq("hr") || name.eq("hrs") || name.eq("hour") || name.eq(
        "hours",
    ) {
        Some(TimeUnit::Hour)
    } else {
        None
    }
}

/// The lower-case form of an ASCII upper-case letter; any other character unchanged.
pub open spec fn ascii_lower(c: char) -> char {
    if 'A' <= c <= 'Z' {
        ((c as u8) + 32) as char
    } else {
        c
    }
}

/// `name` with each ASCII upper-case letter replaced by its lower-case form.
pub open spec fn ascii_lowercase(name: Seq<char>) -> Seq<char> {
    name.map_values(|c: char| ascii_lower(c))
}

/// The lower-case form of an ASCII upper-case letter; any other character unchanged.
pub fn to_ascii_lower(c: char) -> (l: char)
    ensures
        l == ascii_lower(c),
{
    if c >= 'A' && c <= 'Z' {
        ((c as u8) + 32) as char
    } else {
        c
    }
}

/// A copy of `name` in which each ASCII upper-case letter is lower case.
pub fn to_ascii_lowercase(name: &str) -> (lowered: String)
    ensures
        lowered@ == ascii_lowercase(name@),
{
    let mut lowered = String::new();
    for c in it: name.chars()
        invariant
            it.seq() == name@,
            lowered@ == ascii_lowercase(it.seq().take(it.index())),
    {
        proof {
            let done = it.seq().take(it.index());
            assert(it.seq().take(it.index() + 1) == done.push(c));
            assert(ascii_lowercase(done.push(c)) == ascii_lowercase(done).push(ascii_lower(c)));
        }
        lowered.push(to_ascii_lower(c));
    }
    assert(name@.take(name@.len() as int) == name@);
    lowered
}

} // verus!
