//! The law of case: parsing without regard to case is parsing the lower-case
//! form of the input.

use vstd::prelude::*;
use crate::error::ErrorView;
use crate::laws::scanning::lemma_run_len_props;
use crate::scanner::{class_of, decimal_value, run_len, scan, CharClass, TokenView};
use crate::units::{ascii_lower, ascii_lowercase};
use crate::{accumulate, parse_spec, total_millis};

verus! {

/// A token with its unit name in lower case; a number unchanged.
pub open spec fn lower_token(token: TokenView) -> TokenView {
    match token {
        TokenView::Number(n) => TokenView::Number(n),
        TokenView::Unit(name) => TokenView::Unit(ascii_lowercase(name)),
    }
}

/// The tokens with their unit names in lower case.
pub open spec fn lower_tokens(tokens: Seq<TokenView>) -> Seq<TokenView> {
    tokens.map_values(|t: TokenView| lower_token(t))
}

/// Lower case keeps the class of a character, and changes letters only.
pub proof fn lemma_lower_class(c: char)
    ensures
        class_of(ascii_lower(c)) == class_of(c),
        class_of(c) != CharClass::Letter ==> ascii_lower(c) == c,
{
}

/// Lower case keeps the length of every run.
pub proof fn lemma_lowercase_run_len(s: Seq<char>, class: CharClass)
    ensures
        run_len(ascii_lowercase(s), class) == run_len(s, class),
    decreases s.len(),
{
    if s.len() > 0 {
        lemma_lower_class(s[0]);
        assert(ascii_lowercase(s).skip(1) == ascii_lowercase(s.skip(1)));
        lemma_lowercase_run_len(s.skip(1), class);
    }
}

/// Scanning the lower-case form of a string gives the tokens of the string
/// with their unit names in lower case, or the same error.
pub proof fn lemma_scan_lowercase(s: Seq<char>)
    ensures
        scan(ascii_lowercase(s)) == match scan(s) {
            Ok(tokens) => Ok::<Seq<TokenView>, ErrorView>(lower_tokens(tokens)),
            Err(e) => Err(e),
        },
    decreases s.len(),
{
    let low = ascii_lowercase(s);
    if s.len() == 0 {
        assert(lower_tokens(Seq::empty()) == Seq::<TokenView>::empty());
    } else {
        lemma_lower_class(s[0]);
        let class = class_of(s[0]);
        if class == CharClass::Separator {
            assert(low.skip(1) == ascii_lowercase(s.skip(1)));
            lemma_scan_lowercase(s.skip(1));
        } else if class == CharClass::Digit || class == CharClass::Letter {
            let n = run_len(s, class) as int;
            lemma_lowercase_run_len(s, class);
            lemma_run_len_props(s, class);
            assert(low.skip(n) == ascii_lowercase(s.skip(n)));
            assert(low.take(n) == ascii_lowercase(s.take(n)));
            lemma_scan_lowercase(s.skip(n));
            if class == CharClass::Digit {
                assert(ascii_lowercase(s.take(n)) == s.take(n)) by {
                    assert forall|i: int| 0 <= i < n implies ascii_lowercase(s.take(n))[i] == s.take(
                        n,
                    )[i] by {
                        lemma_lower_class(s[i]);
                    }
                }
            }
            let first = if class == CharClass::Digit {
                seq![TokenView::Number(decimal_value(s.take(n)))]
            } else {
                seq![TokenView::Unit(s.take(n))]
            };
            if let Ok(tokens) = scan(s.skip(n)) {
                assert(lower_tokens(first + tokens) == lower_tokens(first) + lower_tokens(tokens));
                assert(lower_tokens(first) == if class == CharClass::Digit {
                    first
                } else {
                    seq![TokenView::Unit(ascii_lowercase(s.take(n)))]
                });
            }
        }
    }
}

/// Adding up tokens without regard to case is adding up the tokens with
/// lower-case unit names exactly.
pub proof fn lemma_accumulate_lowercase(tokens: Seq<TokenView>)
    ensures
        accumulate(lower_tokens(tokens), false) == accumulate(tokens, true),
    decreases tokens.len(),
{
    let low = lower_tokens(tokens);
    if tokens.len() >= 2 {
        assert(low.skip(2) == lower_tokens(tokens.skip(2)));
        lemma_accumulate_lowercase(tokens.skip(2));
    }
}

/// Parsing without regard to case is parsing the lower-case form of the
/// input exactly. So a unit name in any mixture of cases gives what its
/// lower-case spelling gives.
pub proof fn law_ignore_case(input: Seq<char>)
    ensures
        total_millis(input, true) == total_millis(ascii_lowercase(input), false),
        parse_spec(input, true) == parse_spec(ascii_lowercase(input), false),
{
    lemma_scan_lowercase(input);
    if let Ok(tokens) = scan(input) {
        lemma_accumulate_lowercase(tokens);
    }
}

} // verus!
