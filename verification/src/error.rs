//! The ways in which parsing a duration string can fail.

use vstd::prelude::*;

verus! {

/// An error that can occur when parsing a duration string.
///
/// Every error ends the call that produced it: scanning and accumulation both
/// stop at the first one.
#[derive(Debug, PartialEq, Eq)]
pub enum Error {
    /// A character that is neither a separator, a digit nor a letter was found.
    UnexpectedChar(char),
    /// A unit name was found that the unit table does not hold. The name is
    /// carried as it was looked up: lowercased when case is ignored.
    UnexpectedUnit(String),
    /// A number was not followed by a unit.
    ExpectedUnit,
    /// A unit stood where a number was expected.
    ExpectedNumber,
    /// A run of digits denotes a number above `u32::MAX`.
    NumberOverflow,
    /// The total is more than a `Duration` can hold.
    DurationOverflow,
}

/// The mathematical value of an [`Error`]: the same variants, with the unit
/// name as a sequence of characters.
pub enum ErrorView {
    UnexpectedChar(char),
    UnexpectedUnit(Seq<char>),
    ExpectedUnit,
    ExpectedNumber,
    NumberOverflow,
    DurationOverflow,
}

impl View for Error {
    type V = ErrorView;

    open spec fn view(&self) -> ErrorView {
        match *self {
            Error::UnexpectedChar(c) => ErrorView::UnexpectedChar(c),
            Error::UnexpectedUnit(name) => ErrorView::UnexpectedUnit(name@),
            Error::ExpectedUnit => ErrorView::ExpectedUnit,
            Error::ExpectedNumber => ErrorView::ExpectedNumber,
            Error::NumberOverflow => ErrorView::NumberOverflow,
            Error::DurationOverflow => ErrorView::DurationOverflow,
        }
    }
}

} // verus!
