//! The scanner: from the characters of a duration string to its tokens.
//!
//! A duration string is read as runs of digits (numbers) and runs of ASCII
//! letters (unit names), with ASCII whitespace and commas between them. Any
//! other character is an error.

use vstd::prelude::*;
use crate::error::{Error, ErrorView};

verus! {

/// What a character means to the scanner.
#[derive(Debug, PartialEq, Eq, Clone, Copy, Structural)]
pub enum CharClass {
    /// ASCII whitespace or a comma: skipped.
    Separator,
    /// An ASCII decimal digit.
    Digit,
    /// An ASCII letter, of either case.
    Letter,
    /// Any other character: not part of a duration string.
    Other,
}

/// ASCII whitespace (space, tab, line feed, form feed, carriage return) or a comma.
pub open spec fn is_separator(c: char) -> bool {
    c == ' ' || c == '\t' || c == '\n' || c == '\x0C' || c == '\r' || c == ','
}

/// An ASCII decimal digit.
pub open spec fn is_digit(c: char) -> bool {
    '0' <= c <= '9'
}

/// An ASCII letter.
pub open spec fn is_letter(c: char) -> bool {
    'a' <= c <= 'z' || 'A' <= c <= 'Z'
}

/// The class of a character.
pub open spec fn class_of(c: char) -> CharClass {
    if is_separator(c) {
        CharClass::Separator
    } else if is_digit(c) {
        CharClass::Digit
    } else if is_letter(c) {
        CharClass::Letter
    } else {
        CharClass::Other
    }
}

/// The length of the longest prefix of `s` whose characters all have class `class`.
pub open spec fn run_len(s: Seq<char>, class: CharClass) -> nat
    decreases s.len(),
{
    if s.len() > 0 && class_of(s[0]) == class {
        1 + run_len(s.skip(1), class)
    } else {
        0
    }
}

/// The digit that an ASCII decimal digit character stands for.
pub open spec fn digit_value(c: char) -> nat {
    (c as nat - '0' as nat) as nat
}

/// The number that a sequence of decimal digits denotes, most significant
/// digit first. Leading zeros do not change it; the empty sequence denotes 0.
pub open spec fn decimal_value(digits: Seq<char>) -> nat
    decreases digits.len(),
{
    if digits.len() == 0 {
        0
    } else {
        10 * decimal_value(digits.drop_last()) + digit_value(digits.last())
    }
}

/// A lexical unit of a duration string.
#[derive(Debug, PartialEq, Eq)]
pub enum Token {
    /// The value of a run of decimal digits.
    Number(u32),
    /// A run of ASCII letters, as written.
    Unit(String),
}

/// The mathematical value of a [`Token`].
pub enum TokenView {
    Number(nat),
    Unit(Seq<char>),
}

impl View for Token {
    type V = TokenView;

    open spec fn view(&self) -> TokenView {
        match *self {
            Token::Number(n) => TokenView::Number(n as nat),
            Token::Unit(name) => TokenView::Unit(name@),
        }
    }
}

/// The values of a sequence of tokens.
pub open spec fn tokens_view(tokens: Seq<Token>) -> Seq<TokenView> {
    tokens.map_values(|t: Token| t@)
}

/// `first` followed by what scanning the rest gave, or the error that the rest gave.
pub open spec fn prepend(
    first: Seq<TokenView>,
    rest: Result<Seq<TokenView>, ErrorView>,
) -> Result<Seq<TokenView>, ErrorView> {
    match rest {
        Ok(tokens) => Ok(first + tokens),
        Err(e) => Err(e),
    }
}

/// The tokens of the character sequence `s`, or the first lexical error in it.
///
/// Separators are dropped. A maximal run of digits is one `Number`, and is an
/// error where its value is above `u32::MAX`. A maximal run of letters is one
/// `Unit`. The first character of any other kind is an error, and so is the
/// first run of digits that is too large, whichever comes first.
pub open spec fn scan(s: Seq<char>) -> Result<Seq<TokenView>, ErrorView>
    decreases s.len(),
    via scan_decreases
{
    if s.len() == 0 {
        Ok(Seq::empty())
    } else {
        match class_of(s[0]) {
            CharClass::Separator => scan(s.skip(1)),
            CharClass::Digit => {
                let n = run_len(s, CharClass::Digit);
                let value = decimal_value(s.take(n as int));
                if value > u32::MAX {
                    Err(ErrorView::NumberOverflow)
                } else {
                    prepend(seq![TokenView::Number(value)], scan(s.skip(n as int)))
                }
            },
            CharClass::Letter => {
                let n = run_len(s, CharClass::Letter);
                prepend(seq![TokenView::Unit(s.take(n as int))], scan(s.skip(n as int)))
            },
            CharClass::Other => Err(ErrorView::UnexpectedChar(s[0])),
        }
    }
}

#[via_fn]
proof fn scan_decreases(s: Seq<char>) {
    if s.len() > 0 {
        lemma_run_len_bound(s, class_of(s[0]));
    }
}

/// What a scan returned, as a mathematical value.
pub open spec fn scan_result_view(r: Result<Vec<Token>, Error>) -> Result<
    Seq<TokenView>,
    ErrorView,
> {
    match r {
        Ok(tokens) => Ok(tokens_view(tokens@)),
        Err(e) => Err(e@),
    }
}

/// A run is never longer than the sequence it starts.
pub proof fn lemma_run_len_bound(s: Seq<char>, class: CharClass)
    ensures
        run_len(s, class) <= s.len(),
    decreases s.len(),
{
    if s.len() > 0 && class_of(s[0]) == class {
        lemma_run_len_bound(s.skip(1), class);
    }
}

/// Sorts a character into its class.
pub fn classify(c: char) -> (class: CharClass)
    ensures
        class == class_of(c),
{
    if c == ' ' || c == '\t' || c == '\n' || c == '\x0C' || c == '\r' || c == ',' {
        CharClass::Separator
    } else if c >= '0' && c <= '9' {
        CharClass::Digit
    } else if (c >= 'a' && c <= 'z') || (c >= 'A' && c <= 'Z') {
        CharClass::Letter
    } else {
        CharClass::Other
    }
}

/// The run at the front of `s` has length `n` when the first `n` characters have
/// class `class` and the next one, if there is one, does not.
pub proof fn lemma_run_len_is(s: Seq<char>, class: CharClass, n: nat)
    requires
        n <= s.len(),
        forall|i: int| 0 <= i < n ==> class_of(#[trigger] s[i]) == class,
        n < s.len() ==> class_of(s[n as int]) != class,
    ensures
        run_len(s, class) == n,
    decreases n,
{
    if n > 0 {
        let rest = s.skip(1);
        assert forall|i: int| 0 <= i < n - 1 implies class_of(#[trigger] rest[i]) == class by {
            assert(rest[i] == s[i + 1]);
        }
        lemma_run_len_is(rest, class, (n - 1) as nat);
    }
}

/// A cursor over the characters of a duration string: the characters, and how
/// many of them have been consumed.
pub struct Scanner {
    chars: Vec<char>,
    pos: usize,
}

impl Scanner {
    #[verifier::type_invariant]
    spec fn within_input(&self) -> bool {
        self.pos <= self.chars@.len()
    }

    /// The characters that have not been consumed yet.
    pub closed spec fn remaining(&self) -> Seq<char> {
        self.chars@.skip(self.pos as int)
    }

    /// A scanner at the start of `source`.
    pub fn new(source: &str) -> (scanner: Scanner)
        ensures
            scanner.remaining() == source@,
    {
        let mut chars: Vec<char> = Vec::new();
        for c in it: source.chars()
            invariant
                it.seq() == source@,
                chars@ == it.seq().take(it.index()),
        {
            chars.push(c);
        }
        Scanner { chars, pos: 0 }
    }

    /// The next character, if there is one. Nothing is consumed.
    fn peek(&self) -> (next: Option<char>)
        ensures
            next == if self.remaining().len() > 0 {
                Some(self.remaining()[0])
            } else {
                None
            },
    {
        proof {
            use_type_invariant(self);
        }
        if self.pos < self.chars.len() {
            Some(self.chars[self.pos])
        } else {
            None
        }
    }

    /// Whether there is a next character and it has class `class`.
    fn next_is(&self, class: CharClass) -> (yes: bool)
        ensures
            yes == (self.remaining().len() > 0 && class_of(self.remaining()[0]) == class),
    {
        match self.peek() {
            Some(c) => classify(c) == class,
            None => false,
        }
    }

    /// Consumes the next character.
    fn advance(&mut self) -> (c: char)
        requires
            old(self).remaining().len() > 0,
        ensures
            c == old(self).remaining()[0],
            final(self).remaining() == old(self).remaining().skip(1),
    {
        proof {
            use_type_invariant(&*self);
        }
        assert(self.pos < self.chars.len());
        let c = self.chars[self.pos];
        self.pos = self.pos + 1;
        assert(self.remaining() == old(self).remaining().skip(1));
        c
    }

    /// Consumes the run of digits at the cursor and returns the number that it
    /// denotes, or `NumberOverflow` where that number is above `u32::MAX`. The
    /// whole run is consumed either way.
    fn scan_number(&mut self) -> (r: Result<u32, Error>)
        ensures
            ({
                let n = run_len(old(self).remaining(), CharClass::Digit);
                let value = decimal_value(old(self).remaining().take(n as int));
                &&& final(self).remaining() == old(self).remaining().skip(n as int)
                &&& match r {
                    Ok(v) => v == value,
                    Err(e) => e@ == ErrorView::NumberOverflow && value > u32::MAX,
                }
            }),
    {
        let ghost input = self.remaining();
        let ghost digits = Seq::<char>::empty();
        let mut value: u32 = 0;
        let mut overflow = false;
        assert(digits + input == input);
        while self.next_is(CharClass::Digit)
            invariant
                input == digits + self.remaining(),
                forall|i: int|
                    0 <= i < digits.len() ==> class_of(#[trigger] input[i]) == CharClass::Digit,
                !overflow ==> value == decimal_value(digits),
                overflow ==> decimal_value(digits) > u32::MAX,
            decreases self.remaining().len(),
        {
            let ghost rest = self.remaining();
            let c = self.advance();
            let digit: u32 = c as u32 - '0' as u32;
            proof {
                assert(input[digits.len() as int] == c);
                assert(digits.push(c).drop_last() == digits);
                assert(digits.push(c) + rest.skip(1) == digits + rest);
                digits = digits.push(c);
            }
            if !overflow {
                match value.checked_mul(10) {
                    Some(tens) => match tens.checked_add(digit) {
                        Some(next) => {
                            value = next;
                        },
                        None => {
                            overflow = true;
                        },
                    },
                    None => {
                        overflow = true;
                    },
                }
            }
        }
        proof {
            lemma_split_at_run(input, digits, self.remaining(), CharClass::Digit);
        }
        if overflow {
            Err(Error::NumberOverflow)
        } else {
            Ok(value)
        }
    }

    /// Consumes the run of letters at the cursor and returns it as written.
    fn scan_unit(&mut self) -> (name: String)
        ensures
            ({
                let n = run_len(old(self).remaining(), CharClass::Letter);
                &&& name@ == old(self).remaining().take(n as int)
                &&& final(self).remaining() == old(self).remaining().skip(n as int)
            }),
    {
        let ghost input = self.remaining();
        let mut name = String::new();
        assert(name@ + input == input);
        while self.next_is(CharClass::Letter)
            invariant
                input == name@ + self.remaining(),
                forall|i: int|
                    0 <= i < name@.len() ==> class_of(#[trigger] input[i]) == CharClass::Letter,
            decreases self.remaining().len(),
        {
            let ghost rest = self.remaining();
            let ghost before = name@;
            let c = self.advance();
            name.push(c);
            proof {
                assert(input[before.len() as int] == c);
                assert(before.push(c) + rest.skip(1) == before + rest);
            }
        }
        proof {
            lemma_split_at_run(input, name@, self.remaining(), CharClass::Letter);
        }
        name
    }

    /// Scans the rest of the input into tokens, stopping at the first error.
    pub fn scan_tokens(self) -> (r: Result<Vec<Token>, Error>)
        ensures
            scan_result_view(r) == scan(self.remaining()),
    {
        let mut scanner = self;
        let mut tokens: Vec<Token> = Vec::new();
        assert(tokens_view(tokens@) + Seq::<TokenView>::empty() == tokens_view(tokens@));
        loop
            invariant
                scan(self.remaining()) == prepend(tokens_view(tokens@), scan(scanner.remaining())),
            decreases scanner.remaining().len(),
        {
            let ghost rest = scanner.remaining();
            let ghost before = tokens_view(tokens@);
            let c = match scanner.peek() {
                Some(c) => c,
                None => {
                    assert(before + Seq::<TokenView>::empty() == before);
                    return Ok(tokens);
                },
            };
            match classify(c) {
                CharClass::Separator => {
                    scanner.advance();
                },
                CharClass::Digit => {
                    let value: u32 = match scanner.scan_number() {
                        Ok(value) => value,
                        Err(e) => {
                            return Err(e);
                        },
                    };
                    tokens.push(Token::Number(value));
                    proof {
                        lemma_run_len_bound(rest, CharClass::Digit);
                        let one = seq![TokenView::Number(value as nat)];
                        assert(tokens_view(tokens@) == before + one);
                        lemma_prepend_assoc(before, one, scan(scanner.remaining()));
                    }
                },
                CharClass::Letter => {
                    let name = scanner.scan_unit();
                    let ghost one = seq![TokenView::Unit(name@)];
                    tokens.push(Token::Unit(name));
                    proof {
                        lemma_run_len_bound(rest, CharClass::Letter);
                        assert(tokens_view(tokens@) == before + one);
                        lemma_prepend_assoc(before, one, scan(scanner.remaining()));
                    }
                },
                CharClass::Other => {
                    return Err(Error::UnexpectedChar(c));
                },
            }
        }
    }
}

/// Where `s` is `run` followed by `rest`, every character of `run` has class
/// `class` and `rest` does not start with one that has, `run` is the run at
/// the front of `s`.
proof fn lemma_split_at_run(s: Seq<char>, run: Seq<char>, rest: Seq<char>, class: CharClass)
    requires
        s == run + rest,
        forall|i: int| 0 <= i < run.len() ==> class_of(#[trigger] s[i]) == class,
        rest.len() > 0 ==> class_of(rest[0]) != class,
    ensures
        run_len(s, class) == run.len(),
        s.take(run.len() as int) == run,
        s.skip(run.len() as int) == rest,
{
    if rest.len() > 0 {
        assert(s[run.len() as int] == rest[0]);
    }
    lemma_run_len_is(s, class, run.len());
}

/// Prepending in two steps is prepending the concatenation.
pub proof fn lemma_prepend_assoc(
    a: Seq<TokenView>,
    b: Seq<TokenView>,
    rest: Result<Seq<TokenView>, ErrorView>,
)
    ensures
        prepend(a, prepend(b, rest)) == prepend(a + b, rest),
{
    if let Ok(tokens) = rest {
        assert(a + (b + tokens) == (a + b) + tokens);
    }
}

} // verus!
