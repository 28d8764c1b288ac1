//! Parsing of human-readable duration strings, such as `"1hr 2min 3sec"` or
//! `"21 minutes, 12 seconds"`, into a `std::time::Duration`.
//!
//! A duration string is a sequence of `<number><unit>` pairs. Whitespace and
//! commas may stand anywhere between numbers and units and mean nothing. The
//! result is the sum of the pairs.
//!
//! | Unit        | Names                                                  |
//! |-------------|--------------------------------------------------------|
//! | Millisecond | `ms`, `msec`, `msecs`, `millisecond`, `milliseconds`   |
//! | Second      | `s`, `sec`, `secs`, `second`, `seconds`                |
//! | Minute      | `m`, `min`, `mins`, `minute`, `minutes`                |
//! | Hour        | `h`, `hr`, `hrs`, `hour`, `hours`                      |
//!
//! ```
//! use durstr::parse;
//! use std::time::Duration;
//!
//! assert_eq!(parse("12 minutes, 21 seconds"), Ok(Duration::from_secs(741)));
//! assert_eq!(parse("1hr 2min 3sec"), Ok(Duration::from_secs(3723)));
//! ```
//!
//! The contracts are stated over [`parse_spec`], which says what a string
//! parses to; the module [`laws`] proves what follows from it.

use vstd::prelude::*;
use std::time::Duration;

pub mod duration;
pub mod error;
pub mod laws;
pub mod scanner;
pub mod std_specs;
pub mod units;

pub use error::Error;
pub use scanner::{Scanner, Token};
use duration::{duration_from_millis, duration_result_view, to_duration};
use error::ErrorView;
use scanner::{scan, tokens_view, TokenView};
use units::{ascii_lowercase, lookup_unit, to_ascii_lowercase, unit_named, TimeUnit};

verus! {

/// The unit that `name` stands for under a case policy, or the error that
/// carries the name as it was looked up.
pub open spec fn resolve_unit(name: Seq<char>, ignore_case: bool) -> Result<TimeUnit, ErrorView> {
    let looked_up = if ignore_case {
        ascii_lowercase(name)
    } else {
        name
    };
    match unit_named(looked_up) {
        Some(unit) => Ok(unit),
        None => Err(ErrorView::UnexpectedUnit(looked_up)),
    }
}

/// `ms` more than what the rest came to, or the error that the rest gave.
pub open spec fn add_millis(ms: nat, rest: Result<nat, ErrorView>) -> Result<nat, ErrorView> {
    match rest {
        Ok(more) => Ok(ms + more),
        Err(e) => Err(e),
    }
}

/// The total of a token sequence in milliseconds, or the first error in it.
///
/// The tokens are read in pairs of a number and a unit. Each pair counts for
/// the number times the milliseconds of the unit. The first pair that is not a
/// number followed by a known unit gives the error.
pub open spec fn accumulate(tokens: Seq<TokenView>, ignore_case: bool) -> Result<nat, ErrorView>
    decreases tokens.len(),
{
    if tokens.len() == 0 {
        Ok(0)
    } else {
        match tokens[0] {
            TokenView::Unit(_) => Err(ErrorView::ExpectedNumber),
            TokenView::Number(n) => {
                if tokens.len() >= 2 && tokens[1] is Unit {
                    match resolve_unit(tokens[1]->Unit_0, ignore_case) {
                        Ok(unit) => add_millis(
                            n * unit.spec_millis(),
                            accumulate(tokens.skip(2), ignore_case),
                        ),
                        Err(e) => Err(e),
                    }
                } else {
                    Err(ErrorView::ExpectedUnit)
                }
            },
        }
    }
}

/// The total of a duration string in milliseconds, or the first error: that of
/// the scanner if there is one, else that of the accumulation.
pub open spec fn total_millis(input: Seq<char>, ignore_case: bool) -> Result<nat, ErrorView> {
    match scan(input) {
        Ok(tokens) => accumulate(tokens, ignore_case),
        Err(e) => Err(e),
    }
}

/// The total as a `Duration`, or the error in its place.
pub open spec fn duration_of_total(total: Result<nat, ErrorView>) -> Result<Duration, ErrorView> {
    match total {
        Ok(ms) => to_duration(ms),
        Err(e) => Err(e),
    }
}

/// What parsing a duration string gives: the duration of its total, or the
/// first error.
pub open spec fn parse_spec(input: Seq<char>, ignore_case: bool) -> Result<Duration, ErrorView> {
    duration_of_total(total_millis(input, ignore_case))
}

/// The most that one pair can count for: `u32::MAX` hours, in milliseconds.
const MAX_PAIR_MILLIS: u128 = 15_461_882_262_000_000;

/// How a [`Parser`] reads a duration string.
#[derive(Debug, Clone, Copy)]
pub struct ParserOptions {
    /// Whether unit names are matched without regard to case. Off by default.
    pub ignore_case: bool,
}

impl Default for ParserOptions {
    fn default() -> (options: Self)
        ensures
            !options.ignore_case,
    {
        ParserOptions { ignore_case: false }
    }
}

/// A parser of duration strings.
#[derive(Debug, Clone, Copy)]
pub struct Parser {
    options: ParserOptions,
}

impl Default for Parser {
    fn default() -> (parser: Self)
        ensures
            !parser.ignore_case(),
    {
        Parser { options: ParserOptions { ignore_case: false } }
    }
}

impl Parser {
    /// Whether this parser matches unit names without regard to case.
    pub closed spec fn ignore_case(&self) -> bool {
        self.options.ignore_case
    }

    /// A parser with the given options.
    pub fn new(options: ParserOptions) -> (parser: Self)
        ensures
            parser.ignore_case() == options.ignore_case,
    {
        Parser { options }
    }

    /// Parses a duration string.
    pub fn parse(&self, input: &str) -> (r: Result<Duration, Error>)
        ensures
            duration_result_view(r) == parse_spec(input@, self.ignore_case()),
    {
        match Scanner::new(input).scan_tokens() {
            Ok(tokens) => self.parse_tokens(tokens),
            Err(e) => Err(e),
        }
    }

    /// Adds up a token sequence and returns the total as a `Duration`.
    pub fn parse_tokens(&self, tokens: Vec<Token>) -> (r: Result<Duration, Error>)
        ensures
            duration_result_view(r) == duration_of_total(
                accumulate(tokens_view(tokens@), self.ignore_case()),
            ),
    {
        let ghost all = tokens_view(tokens@);
        let mut total: u128 = 0;
        let mut i: usize = 0;
        assert(all.skip(0) == all);
        while i < tokens.len()
            invariant
                all == tokens_view(tokens@),
                i <= tokens.len(),
                total <= i * MAX_PAIR_MILLIS,
                accumulate(all, self.ignore_case()) == add_millis(
                    total as nat,
                    accumulate(all.skip(i as int), self.ignore_case()),
                ),
            decreases tokens.len() - i,
        {
            let ghost rest = all.skip(i as int);
            assert(rest[0] == tokens@[i as int]@);
            let number: u32 = match &tokens[i] {
                Token::Number(n) => *n,
                Token::Unit(_) => {
                    return Err(Error::ExpectedNumber);
                },
            };
            if tokens.len() - i < 2 {
                return Err(Error::ExpectedUnit);
            }
            assert(rest[1] == tokens@[i + 1]@);
            let per_unit: u64 = match &tokens[i + 1] {
                Token::Unit(name) => match self.get_unit_duration(name.as_str()) {
                    Ok(ms) => ms,
                    Err(e) => {
                        return Err(e);
                    },
                },
                Token::Number(_) => {
                    return Err(Error::ExpectedUnit);
                },
            };
            assert(number * per_unit <= MAX_PAIR_MILLIS) by (nonlinear_arith)
                requires
                    number <= 0xffff_ffff,
                    per_unit <= 3_600_000,
                    MAX_PAIR_MILLIS == 0xffff_ffff * 3_600_000,
            ;
            assert(rest.skip(2) == all.skip(i + 2));
            total = total + (number as u128) * (per_unit as u128);
            i = i + 2;
        }
        duration_from_millis(total)
    }

    /// The number of milliseconds in the unit that `unit` names, read with or
    /// without regard to case as this parser's options say.
    pub fn get_unit_duration(&self, unit: &str) -> (r: Result<u64, Error>)
        ensures
            match r {
                Ok(ms) => resolve_unit(unit@, self.ignore_case()) matches Ok(u) && ms
                    == u.spec_millis(),
                Err(e) => resolve_unit(unit@, self.ignore_case()) == Err::<TimeUnit, ErrorView>(e@),
            },
    {
        if self.options.ignore_case {
            let lowered = to_ascii_lowercase(unit);
            match lookup_unit(lowered.as_str()) {
                Some(found) => Ok(found.millis()),
                None => Err(Error::UnexpectedUnit(lowered)),
            }
        } else {
            match lookup_unit(unit) {
                Some(found) => Ok(found.millis()),
                None => Err(Error::UnexpectedUnit(unit.to_owned())),
            }
        }
    }
}

/// Parses a duration string with the default options: unit names are matched
/// exactly, in lower case.
///
/// Construct a [`Parser`] to match unit names without regard to case.
pub fn parse(input: &str) -> (r: Result<Duration, Error>)
    ensures
        duration_result_view(r) == parse_spec(input@, false),
{
    Parser::default().parse(input)
}

} // verus!
