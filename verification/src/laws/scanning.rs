//! Laws of the scanner: how scanning a string relates to scanning its parts.

use vstd::prelude::*;
use std::time::Duration;
use crate::error::ErrorView;
use crate::parse_spec;
use crate::scanner::{
    class_of, decimal_value, lemma_prepend_assoc, lemma_run_len_bound, lemma_run_len_is, prepend,
    run_len, scan, CharClass, TokenView,
};

verus! {

/// Every character of `s` has class `class`.
pub open spec fn all_of(s: Seq<char>, class: CharClass) -> bool {
    forall|i: int| 0 <= i < s.len() ==> class_of(#[trigger] s[i]) == class
}

/// The last character of `a` and the first of `b` are both digits or both
/// letters, so that a run at the end of `a` goes on into `b`.
pub open spec fn run_continues(a: Seq<char>, b: Seq<char>) -> bool {
    &&& a.len() > 0
    &&& b.len() > 0
    &&& class_of(a.last()) == class_of(b[0])
    &&& (class_of(b[0]) == CharClass::Digit || class_of(b[0]) == CharClass::Letter)
}

/// What two scans give one after the other: the tokens of `first` followed by
/// those of `second`, or the error of `first`, or else that of `second`.
pub open spec fn scan_then(
    first: Result<Seq<TokenView>, ErrorView>,
    second: Result<Seq<TokenView>, ErrorView>,
) -> Result<Seq<TokenView>, ErrorView> {
    match first {
        Ok(tokens) => prepend(tokens, second),
        Err(e) => Err(e),
    }
}

/// The characters of a run have its class, and the character after it, if
/// there is one, does not.
pub proof fn lemma_run_len_props(s: Seq<char>, class: CharClass)
    ensures
        run_len(s, class) <= s.len(),
        forall|i: int| 0 <= i < run_len(s, class) ==> class_of(#[trigger] s[i]) == class,
        run_len(s, class) < s.len() ==> class_of(s[run_len(s, class) as int]) != class,
    decreases s.len(),
{
    if s.len() > 0 && class_of(s[0]) == class {
        let rest = s.skip(1);
        lemma_run_len_props(rest, class);
        assert forall|i: int| 0 <= i < run_len(s, class) implies class_of(#[trigger] s[i])
            == class by {
            if i > 0 {
                assert(s[i] == rest[i - 1]);
            }
        }
        if run_len(s, class) < s.len() {
            assert(s[run_len(s, class) as int] == rest[run_len(rest, class) as int]);
        }
    }
}

/// A run at the front of `a` is the run at the front of `a + b`, unless it
/// reaches the end of `a` and goes on into `b`.
pub proof fn lemma_run_len_concat(a: Seq<char>, b: Seq<char>, class: CharClass)
    requires
        a.len() > 0,
        class_of(a[0]) == class,
        class == CharClass::Digit || class == CharClass::Letter,
        !run_continues(a, b),
    ensures
        run_len(a + b, class) == run_len(a, class),
{
    let n = run_len(a, class);
    let whole = a + b;
    lemma_run_len_props(a, class);
    assert forall|i: int| 0 <= i < n implies class_of(#[trigger] whole[i]) == class by {
        assert(whole[i] == a[i]);
    }
    if n < a.len() {
        assert(whole[n as int] == a[n as int]);
    } else if b.len() > 0 {
        assert(whole[n as int] == b[0]);
        assert(a.last() == a[n - 1]);
    }
    lemma_run_len_is(whole, class, n);
}

/// Scanning a concatenation is scanning its parts one after the other,
/// unless a run of digits or of letters goes on from the first part into the
/// second.
pub proof fn lemma_scan_concat(a: Seq<char>, b: Seq<char>)
    requires
        !run_continues(a, b),
    ensures
        scan(a + b) == scan_then(scan(a), scan(b)),
    decreases a.len(), 1nat,
{
    let whole = a + b;
    if a.len() == 0 {
        assert(whole == b);
        if let Ok(tokens) = scan(b) {
            assert(Seq::<TokenView>::empty() + tokens == tokens);
        }
    } else {
        assert(whole[0] == a[0]);
        match class_of(a[0]) {
            CharClass::Separator => {
                assert(whole.skip(1) == a.skip(1) + b);
                if a.skip(1).len() > 0 {
                    assert(a.skip(1).last() == a.last());
                }
                lemma_scan_concat(a.skip(1), b);
            },
            CharClass::Digit => {
                lemma_scan_concat_run(a, b, CharClass::Digit);
            },
            CharClass::Letter => {
                lemma_scan_concat_run(a, b, CharClass::Letter);
            },
            CharClass::Other => {},
        }
    }
}

/// The step of [`lemma_scan_concat`] for an `a` that starts with a run.
proof fn lemma_scan_concat_run(a: Seq<char>, b: Seq<char>, class: CharClass)
    requires
        a.len() > 0,
        class_of(a[0]) == class,
        class == CharClass::Digit || class == CharClass::Letter,
        !run_continues(a, b),
    ensures
        scan(a + b) == scan_then(scan(a), scan(b)),
    decreases a.len(), 0nat,
{
    let whole = a + b;
    let n = run_len(a, class) as int;
    lemma_run_len_concat(a, b, class);
    lemma_run_len_bound(a, class);
    assert(whole[0] == a[0]);
    assert(whole.take(n) == a.take(n));
    assert(whole.skip(n) == a.skip(n) + b);
    if a.skip(n).len() > 0 {
        assert(a.skip(n).last() == a.last());
    }
    lemma_scan_concat(a.skip(n), b);
    let first = if class == CharClass::Digit {
        seq![TokenView::Number(decimal_value(a.take(n)))]
    } else {
        seq![TokenView::Unit(a.take(n))]
    };
    if let Ok(tokens) = scan(a.skip(n)) {
        lemma_prepend_assoc(first, tokens, scan(b));
    }
}

/// A sequence of separators holds no token.
pub proof fn lemma_scan_separators(s: Seq<char>)
    requires
        all_of(s, CharClass::Separator),
    ensures
        scan(s) == Ok::<Seq<TokenView>, ErrorView>(Seq::empty()),
    decreases s.len(),
{
    if s.len() > 0 {
        let rest = s.skip(1);
        assert forall|i: int| 0 <= i < rest.len() implies class_of(#[trigger] rest[i])
            == CharClass::Separator by {
            assert(rest[i] == s[i + 1]);
        }
        lemma_scan_separators(rest);
    }
}

/// A sequence of digits is one number: the one it denotes, if a `u32` can hold it.
pub proof fn lemma_scan_digits(s: Seq<char>)
    requires
        s.len() > 0,
        all_of(s, CharClass::Digit),
    ensures
        scan(s) == if decimal_value(s) <= u32::MAX {
            Ok::<Seq<TokenView>, ErrorView>(seq![TokenView::Number(decimal_value(s))])
        } else {
            Err::<Seq<TokenView>, ErrorView>(ErrorView::NumberOverflow)
        },
{
    lemma_run_len_is(s, CharClass::Digit, s.len());
    assert(class_of(s[0]) == CharClass::Digit);
    assert(s.take(s.len() as int) == s);
    lemma_scan_separators(s.skip(s.len() as int));
    let one = seq![TokenView::Number(decimal_value(s))];
    assert(one + Seq::<TokenView>::empty() == one);
}

/// A sequence of letters is one unit name.
pub proof fn lemma_scan_letters(s: Seq<char>)
    requires
        s.len() > 0,
        all_of(s, CharClass::Letter),
    ensures
        scan(s) == Ok::<Seq<TokenView>, ErrorView>(seq![TokenView::Unit(s)]),
{
    lemma_run_len_is(s, CharClass::Letter, s.len());
    assert(class_of(s[0]) == CharClass::Letter);
    assert(s.take(s.len() as int) == s);
    lemma_scan_separators(s.skip(s.len() as int));
    let one = seq![TokenView::Unit(s)];
    assert(one + Seq::<TokenView>::empty() == one);
}

/// What the scanner promises of a token: a number fits in a `u32`, and a unit
/// name is a run of one or more ASCII letters.
pub open spec fn token_well_formed(token: TokenView) -> bool {
    match token {
        TokenView::Number(n) => n <= u32::MAX,
        TokenView::Unit(name) => name.len() > 0 && all_of(name, CharClass::Letter),
    }
}

/// Every token that a scan gives is well formed.
pub proof fn law_tokens_well_formed(s: Seq<char>)
    ensures
        scan(s) matches Ok(tokens) ==> forall|i: int|
            0 <= i < tokens.len() ==> token_well_formed(#[trigger] tokens[i]),
    decreases s.len(),
{
    if s.len() > 0 {
        let class = class_of(s[0]);
        if class == CharClass::Separator {
            law_tokens_well_formed(s.skip(1));
        } else if class == CharClass::Digit || class == CharClass::Letter {
            let n = run_len(s, class) as int;
            lemma_run_len_props(s, class);
            law_tokens_well_formed(s.skip(n));
        }
    }
}

/// A run of digits that denotes a number above `u32::MAX` makes the scan fail
/// with `NumberOverflow`, whatever follows it, provided that what stands
/// before it scans without error. Where it does not, the error before it is
/// the result.
pub proof fn law_number_overflow(
    before: Seq<char>,
    digits: Seq<char>,
    after: Seq<char>,
    ignore_case: bool,
)
    requires
        digits.len() > 0,
        all_of(digits, CharClass::Digit),
        decimal_value(digits) > u32::MAX,
        before.len() > 0 ==> class_of(before.last()) != CharClass::Digit,
        after.len() > 0 ==> class_of(after[0]) != CharClass::Digit,
    ensures
        scan(before + digits + after) == match scan(before) {
            Ok(_) => Err::<Seq<TokenView>, ErrorView>(ErrorView::NumberOverflow),
            Err(e) => Err(e),
        },
        scan(before) is Ok ==> parse_spec(before + digits + after, ignore_case) == Err::<
            Duration,
            ErrorView,
        >(ErrorView::NumberOverflow),
{
    let rest = digits + after;
    assert(before + digits + after == before + rest);
    assert(rest[0] == digits[0]);
    assert(digits.last() == digits[digits.len() - 1]);
    lemma_scan_digits(digits);
    lemma_scan_concat(digits, after);
    lemma_scan_concat(before, rest);
}

/// A character that is neither a separator, a digit nor a letter makes the
/// scan fail with `UnexpectedChar` of that character, whatever follows it,
/// provided that what stands before it scans without error. Where it does
/// not, the error before it is the result.
pub proof fn law_unexpected_char(before: Seq<char>, c: char, after: Seq<char>, ignore_case: bool)
    requires
        class_of(c) == CharClass::Other,
    ensures
        scan(before + seq![c] + after) == match scan(before) {
            Ok(_) => Err::<Seq<TokenView>, ErrorView>(ErrorView::UnexpectedChar(c)),
            Err(e) => Err(e),
        },
        scan(before) is Ok ==> parse_spec(before + seq![c] + after, ignore_case) == Err::<
            Duration,
            ErrorView,
        >(ErrorView::UnexpectedChar(c)),
{
    let rest = seq![c] + after;
    assert(before + seq![c] + after == before + rest);
    assert(rest[0] == c);
    lemma_scan_concat(before, rest);
}

} // verus!
