//! Laws of parsing: what a duration string made of `<number><unit>` pairs
//! parses to, and which error a string gives that is not made so.

use vstd::prelude::*;
use std::time::Duration;
use crate::duration::{duration_of_millis, to_duration};
use crate::error::ErrorView;
use crate::laws::scanning::{
    all_of, lemma_scan_concat, lemma_scan_digits, lemma_scan_letters, lemma_scan_separators,
};
use crate::scanner::{
    class_of, decimal_value, lemma_prepend_assoc, prepend, scan, CharClass, TokenView,
};
use crate::units::ascii_lowercase;
use crate::{accumulate, add_millis, parse_spec, resolve_unit, total_millis};

verus! {

/// One `<number><unit>` pair as it is written: separators, the digits of the
/// number, separators, the letters of the unit name. Either run of separators
/// may be empty.
pub struct PairText {
    pub lead: Seq<char>,
    pub digits: Seq<char>,
    pub gap: Seq<char>,
    pub unit: Seq<char>,
}

impl PairText {
    /// The parts are what their names say, and the number fits in a `u32`.
    pub open spec fn well_formed(self) -> bool {
        &&& all_of(self.lead, CharClass::Separator)
        &&& self.digits.len() > 0
        &&& all_of(self.digits, CharClass::Digit)
        &&& decimal_value(self.digits) <= u32::MAX
        &&& all_of(self.gap, CharClass::Separator)
        &&& self.unit.len() > 0
        &&& all_of(self.unit, CharClass::Letter)
    }

    /// The characters of the pair.
    pub open spec fn text(self) -> Seq<char> {
        self.lead + self.digits + self.gap + self.unit
    }

    /// The number that the pair gives.
    pub open spec fn number(self) -> nat {
        decimal_value(self.digits)
    }

    /// The two tokens of the pair.
    pub open spec fn tokens(self) -> Seq<TokenView> {
        seq![TokenView::Number(self.number()), TokenView::Unit(self.unit)]
    }
}

/// Every pair is well formed.
pub open spec fn all_well_formed(pairs: Seq<PairText>) -> bool {
    forall|i: int| 0 <= i < pairs.len() ==> (#[trigger] pairs[i]).well_formed()
}

/// Every pair names a unit that the table holds under the case policy.
pub open spec fn all_known(pairs: Seq<PairText>, ignore_case: bool) -> bool {
    forall|i: int|
        0 <= i < pairs.len() ==> resolve_unit((#[trigger] pairs[i]).unit, ignore_case) is Ok
}

/// The pairs written one after the other, followed by `tail`.
pub open spec fn written(pairs: Seq<PairText>, tail: Seq<char>) -> Seq<char>
    decreases pairs.len(),
{
    if pairs.len() == 0 {
        tail
    } else {
        pairs[0].text() + written(pairs.skip(1), tail)
    }
}

/// The tokens of the pairs, in order.
pub open spec fn pair_tokens(pairs: Seq<PairText>) -> Seq<TokenView>
    decreases pairs.len(),
{
    if pairs.len() == 0 {
        Seq::empty()
    } else {
        pairs[0].tokens() + pair_tokens(pairs.skip(1))
    }
}

/// The sum over the pairs of the number times the milliseconds of the unit.
pub open spec fn pairs_total(pairs: Seq<PairText>, ignore_case: bool) -> nat
    decreases pairs.len(),
{
    if pairs.len() == 0 {
        0
    } else {
        pairs[0].number() * resolve_unit(pairs[0].unit, ignore_case)->Ok_0.spec_millis()
            + pairs_total(pairs.skip(1), ignore_case)
    }
}

/// The text of a well-formed pair scans to its two tokens, whatever follows
/// it, as long as no letter follows it directly.
pub proof fn lemma_scan_pair(pair: PairText, rest: Seq<char>)
    requires
        pair.well_formed(),
        rest.len() > 0 ==> class_of(rest[0]) != CharClass::Letter,
    ensures
        scan(pair.text() + rest) == prepend(pair.tokens(), scan(rest)),
{
    let after_unit = pair.unit + rest;
    let after_gap = pair.gap + after_unit;
    let after_digits = pair.digits + after_gap;
    assert(pair.text() + rest == pair.lead + after_digits);
    assert(pair.unit.last() == pair.unit[pair.unit.len() - 1]);
    assert(pair.digits.last() == pair.digits[pair.digits.len() - 1]);
    assert(after_unit[0] == pair.unit[0]);
    if pair.gap.len() > 0 {
        assert(pair.gap.last() == pair.gap[pair.gap.len() - 1]);
        assert(after_gap[0] == pair.gap[0]);
    } else {
        assert(after_gap == after_unit);
    }
    assert(after_digits[0] == pair.digits[0]);
    if pair.lead.len() > 0 {
        assert(pair.lead.last() == pair.lead[pair.lead.len() - 1]);
    }
    lemma_scan_concat(pair.unit, rest);
    lemma_scan_letters(pair.unit);
    lemma_scan_concat(pair.gap, after_unit);
    lemma_scan_separators(pair.gap);
    lemma_scan_concat(pair.digits, after_gap);
    lemma_scan_digits(pair.digits);
    lemma_scan_concat(pair.lead, after_digits);
    lemma_scan_separators(pair.lead);
    let number = seq![TokenView::Number(pair.number())];
    let unit = seq![TokenView::Unit(pair.unit)];
    assert(number + unit == pair.tokens());
    assert(scan(after_unit) == prepend(unit, scan(rest)));
    if let Ok(tokens) = scan(after_unit) {
        assert(Seq::<TokenView>::empty() + tokens == tokens);
    }
    assert(scan(after_gap) == scan(after_unit));
    assert(scan(after_digits) == prepend(number, scan(after_gap)));
    lemma_prepend_assoc(number, unit, scan(rest));
    if let Ok(tokens) = scan(after_digits) {
        assert(Seq::<TokenView>::empty() + tokens == tokens);
    }
}

/// Well-formed pairs written one after the other scan to their tokens,
/// whatever separators stand between them, and the scan goes on with what
/// follows the last pair. Only a letter may not follow the last pair directly:
/// it would belong to the last unit name.
pub proof fn law_scan_pairs(pairs: Seq<PairText>, tail: Seq<char>)
    requires
        all_well_formed(pairs),
        pairs.len() > 0 && tail.len() > 0 ==> class_of(tail[0]) != CharClass::Letter,
    ensures
        scan(written(pairs, tail)) == prepend(pair_tokens(pairs), scan(tail)),
    decreases pairs.len(),
{
    if pairs.len() == 0 {
        if let Ok(tokens) = scan(tail) {
            assert(Seq::<TokenView>::empty() + tokens == tokens);
        }
    } else {
        let first = pairs[0];
        let others = pairs.skip(1);
        let rest = written(others, tail);
        assert forall|i: int| 0 <= i < others.len() implies (#[trigger] others[i]).well_formed() by {
            assert(others[i] == pairs[i + 1]);
        }
        law_scan_pairs(others, tail);
        if others.len() > 0 {
            let next = others[0];
            let beyond = written(others.skip(1), tail);
            assert(next.well_formed());
            assert(rest == next.lead + (next.digits + next.gap + next.unit + beyond));
            if next.lead.len() > 0 {
                assert(rest[0] == next.lead[0]);
            } else {
                assert(rest[0] == next.digits[0]);
            }
        }
        lemma_scan_pair(first, rest);
        lemma_prepend_assoc(first.tokens(), pair_tokens(others), scan(tail));
    }
}

/// The tokens of pairs with known units add up to the sum of the pairs, and
/// the accumulation goes on with the tokens that follow them.
pub proof fn law_accumulate_pairs(pairs: Seq<PairText>, rest: Seq<TokenView>, ignore_case: bool)
    requires
        all_known(pairs, ignore_case),
    ensures
        accumulate(pair_tokens(pairs) + rest, ignore_case) == add_millis(
            pairs_total(pairs, ignore_case),
            accumulate(rest, ignore_case),
        ),
    decreases pairs.len(),
{
    if pairs.len() == 0 {
        assert(pair_tokens(pairs) + rest == rest);
    } else {
        let first = pairs[0];
        let others = pairs.skip(1);
        let tokens = pair_tokens(pairs) + rest;
        assert forall|i: int| 0 <= i < others.len() implies resolve_unit(
            (#[trigger] others[i]).unit,
            ignore_case,
        ) is Ok by {
            assert(others[i] == pairs[i + 1]);
        }
        law_accumulate_pairs(others, rest, ignore_case);
        assert(tokens == first.tokens() + (pair_tokens(others) + rest));
        assert(tokens[0] == TokenView::Number(first.number()));
        assert(tokens[1] == TokenView::Unit(first.unit));
        assert(tokens.skip(2) == pair_tokens(others) + rest);
        assert(resolve_unit(first.unit, ignore_case) is Ok);
    }
}

/// A duration string made of well-formed `<number><unit>` pairs with known
/// units parses to the sum over the pairs of the number times the length of
/// the unit. The separators before, inside, between and after the pairs, and
/// whether there are any, do not matter: the sum does not depend on them.
///
/// The result is that sum as a `Duration`, or `DurationOverflow` where the sum
/// is more than a `Duration` can hold.
pub proof fn law_sum_of_pairs(pairs: Seq<PairText>, tail: Seq<char>, ignore_case: bool)
    requires
        all_well_formed(pairs),
        all_known(pairs, ignore_case),
        all_of(tail, CharClass::Separator),
    ensures
        scan(written(pairs, tail)) == Ok::<Seq<TokenView>, ErrorView>(pair_tokens(pairs)),
        total_millis(written(pairs, tail), ignore_case) == Ok::<nat, ErrorView>(
            pairs_total(pairs, ignore_case),
        ),
        parse_spec(written(pairs, tail), ignore_case) == to_duration(
            pairs_total(pairs, ignore_case),
        ),
{
    if tail.len() > 0 {
        assert(class_of(tail[0]) == CharClass::Separator);
    }
    law_scan_pairs(pairs, tail);
    lemma_scan_separators(tail);
    assert(pair_tokens(pairs) + Seq::<TokenView>::empty() == pair_tokens(pairs));
    law_accumulate_pairs(pairs, Seq::empty(), ignore_case);
}

/// The empty string parses to the zero duration.
pub proof fn law_empty_is_zero(ignore_case: bool)
    ensures
        parse_spec(Seq::empty(), ignore_case) == Ok::<Duration, ErrorView>(duration_of_millis(0)),
{
    law_no_tokens_is_zero(Seq::empty(), ignore_case);
}

/// A string of separators alone parses to the zero duration, like the empty
/// string.
pub proof fn law_no_tokens_is_zero(input: Seq<char>, ignore_case: bool)
    requires
        all_of(input, CharClass::Separator),
    ensures
        total_millis(input, ignore_case) == Ok::<nat, ErrorView>(0),
        parse_spec(input, ignore_case) == Ok::<Duration, ErrorView>(duration_of_millis(0)),
{
    lemma_scan_separators(input);
}

/// The result depends on a unit name only through the unit that it stands
/// for: two duration strings whose pairs give the same numbers and name the
/// same units, by whichever of their names, parse to the same result.
pub proof fn law_alias_insensitive(
    a: Seq<PairText>,
    a_tail: Seq<char>,
    b: Seq<PairText>,
    b_tail: Seq<char>,
    ignore_case: bool,
)
    requires
        all_well_formed(a),
        all_well_formed(b),
        all_of(a_tail, CharClass::Separator),
        all_of(b_tail, CharClass::Separator),
        a.len() == b.len(),
        forall|i: int|
            0 <= i < a.len() ==> {
                &&& (#[trigger] a[i]).number() == b[i].number()
                &&& resolve_unit(a[i].unit, ignore_case) is Ok
                &&& resolve_unit(a[i].unit, ignore_case) == resolve_unit(b[i].unit, ignore_case)
            },
    ensures
        parse_spec(written(a, a_tail), ignore_case) == parse_spec(written(b, b_tail), ignore_case),
{
    assert forall|i: int| 0 <= i < b.len() implies resolve_unit(
        (#[trigger] b[i]).unit,
        ignore_case,
    ) is Ok by {
        assert(a[i].number() == b[i].number());
    }
    lemma_same_total(a, b, ignore_case);
    law_sum_of_pairs(a, a_tail, ignore_case);
    law_sum_of_pairs(b, b_tail, ignore_case);
}

/// Pairs with the same numbers and the same units have the same sum.
proof fn lemma_same_total(a: Seq<PairText>, b: Seq<PairText>, ignore_case: bool)
    requires
        a.len() == b.len(),
        forall|i: int|
            0 <= i < a.len() ==> {
                &&& (#[trigger] a[i]).number() == b[i].number()
                &&& resolve_unit(a[i].unit, ignore_case) == resolve_unit(b[i].unit, ignore_case)
            },
    ensures
        pairs_total(a, ignore_case) == pairs_total(b, ignore_case),
    decreases a.len(),
{
    if a.len() > 0 {
        let a_rest = a.skip(1);
        let b_rest = b.skip(1);
        assert forall|i: int| 0 <= i < a_rest.len() implies {
            &&& (#[trigger] a_rest[i]).number() == b_rest[i].number()
            &&& resolve_unit(a_rest[i].unit, ignore_case) == resolve_unit(
                b_rest[i].unit,
                ignore_case,
            )
        } by {
            assert(a_rest[i] == a[i + 1]);
            assert(b_rest[i] == b[i + 1]);
        }
        lemma_same_total(a_rest, b_rest, ignore_case);
        assert(a[0].number() == b[0].number());
    }
}

/// A unit name that the table does not hold makes parsing fail with
/// `UnexpectedUnit` of the name as it was looked up: after any pairs with
/// known units, a well-formed pair whose unit is unknown, followed by
/// anything that scans without error.
pub proof fn law_unexpected_unit(
    pairs: Seq<PairText>,
    unknown: PairText,
    after: Seq<char>,
    ignore_case: bool,
)
    requires
        all_well_formed(pairs),
        all_known(pairs, ignore_case),
        unknown.well_formed(),
        resolve_unit(unknown.unit, ignore_case) is Err,
        after.len() > 0 ==> class_of(after[0]) != CharClass::Letter,
        scan(after) is Ok,
    ensures
        parse_spec(written(pairs, unknown.text() + after), ignore_case) == Err::<
            Duration,
            ErrorView,
        >(resolve_unit(unknown.unit, ignore_case)->Err_0),
        resolve_unit(unknown.unit, ignore_case)->Err_0 == ErrorView::UnexpectedUnit(
            if ignore_case {
                ascii_lowercase(unknown.unit)
            } else {
                unknown.unit
            },
        ),
{
    let tail = unknown.text() + after;
    let following = scan(after)->Ok_0;
    let tokens = unknown.tokens() + following;
    assert(tail == unknown.lead + (unknown.digits + unknown.gap + unknown.unit + after));
    if unknown.lead.len() > 0 {
        assert(tail[0] == unknown.lead[0]);
    } else {
        assert(tail[0] == unknown.digits[0]);
    }
    lemma_scan_pair(unknown, after);
    law_scan_pairs(pairs, tail);
    law_accumulate_pairs(pairs, tokens, ignore_case);
    assert(tokens[0] == unknown.tokens()[0]);
    assert(tokens[1] == unknown.tokens()[1]);
}

/// A number that no unit follows makes parsing fail with `ExpectedUnit`: after
/// any pairs with known units, a number at the end of the input, or one
/// followed by another number.
pub proof fn law_expected_unit(
    pairs: Seq<PairText>,
    lead: Seq<char>,
    digits: Seq<char>,
    after: Seq<char>,
    ignore_case: bool,
)
    requires
        all_well_formed(pairs),
        all_known(pairs, ignore_case),
        all_of(lead, CharClass::Separator),
        digits.len() > 0,
        all_of(digits, CharClass::Digit),
        decimal_value(digits) <= u32::MAX,
        after.len() > 0 ==> class_of(after[0]) == CharClass::Separator,
        scan(after) matches Ok(tokens) && (tokens.len() == 0 || tokens[0] is Number),
    ensures
        parse_spec(written(pairs, lead + digits + after), ignore_case) == Err::<
            Duration,
            ErrorView,
        >(ErrorView::ExpectedUnit),
{
    let tail = lead + digits + after;
    let number = seq![TokenView::Number(decimal_value(digits))];
    let following = scan(after)->Ok_0;
    assert(tail == lead + (digits + after));
    assert(digits.last() == digits[digits.len() - 1]);
    assert((digits + after)[0] == digits[0]);
    if lead.len() > 0 {
        assert(lead.last() == lead[lead.len() - 1]);
        assert(tail[0] == lead[0]);
    } else {
        assert(tail[0] == digits[0]);
    }
    lemma_scan_concat(digits, after);
    lemma_scan_digits(digits);
    lemma_scan_concat(lead, digits + after);
    lemma_scan_separators(lead);
    assert(Seq::<TokenView>::empty() + (number + following) == number + following);
    assert(scan(tail) == Ok::<Seq<TokenView>, ErrorView>(number + following));
    law_scan_pairs(pairs, tail);
    law_accumulate_pairs(pairs, number + following, ignore_case);
    assert((number + following)[0] == number[0]);
    if following.len() > 0 {
        assert((number + following)[1] == following[0]);
    }
}

/// A unit name that no number stands before makes parsing fail with
/// `ExpectedNumber`: after any pairs with known units and at least one
/// separator, or at the very start, a run of letters, followed by anything
/// that scans without error.
pub proof fn law_expected_number(
    pairs: Seq<PairText>,
    lead: Seq<char>,
    unit: Seq<char>,
    after: Seq<char>,
    ignore_case: bool,
)
    requires
        all_well_formed(pairs),
        all_known(pairs, ignore_case),
        all_of(lead, CharClass::Separator),
        pairs.len() > 0 ==> lead.len() > 0,
        unit.len() > 0,
        all_of(unit, CharClass::Letter),
        after.len() > 0 ==> class_of(after[0]) != CharClass::Letter,
        scan(after) is Ok,
    ensures
        parse_spec(written(pairs, lead + unit + after), ignore_case) == Err::<
            Duration,
            ErrorView,
        >(ErrorView::ExpectedNumber),
{
    let tail = lead + unit + after;
    let name = seq![TokenView::Unit(unit)];
    let following = scan(after)->Ok_0;
    assert(tail == lead + (unit + after));
    assert(unit.last() == unit[unit.len() - 1]);
    assert((unit + after)[0] == unit[0]);
    if lead.len() > 0 {
        assert(lead.last() == lead[lead.len() - 1]);
        assert(tail[0] == lead[0]);
    } else {
        assert(tail[0] == unit[0]);
    }
    lemma_scan_concat(unit, after);
    lemma_scan_letters(unit);
    lemma_scan_concat(lead, unit + after);
    lemma_scan_separators(lead);
    assert(Seq::<TokenView>::empty() + (name + following) == name + following);
    assert(scan(tail) == Ok::<Seq<TokenView>, ErrorView>(name + following));
    law_scan_pairs(pairs, tail);
    law_accumulate_pairs(pairs, name + following, ignore_case);
    assert((name + following)[0] == name[0]);
}

} // verus!
