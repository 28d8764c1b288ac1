use durstr::duration::duration_from_millis;
use durstr::scanner::{classify, CharClass};
use durstr::units::{lookup_unit, to_ascii_lower, to_ascii_lowercase, TimeUnit};
use durstr::{parse, Error, Parser, ParserOptions, Scanner, Token};
use std::time::Duration;

fn ignoring_case() -> Parser {
    Parser::new(ParserOptions { ignore_case: true })
}

#[test]
fn worked_examples() {
    assert_eq!(parse("2 minutes, 12 seconds"), Ok(Duration::from_millis(132_000)));
    assert_eq!(parse("1hr 2min 3sec"), Ok(Duration::from_millis(3_723_000)));
    assert_eq!(parse("1h2min3s62ms"), Ok(Duration::from_millis(3_723_062)));
    assert_eq!(parse("2min 1*2 sec"), Err(Error::UnexpectedChar('*')));
    assert_eq!(parse("2 min 1 r"), Err(Error::UnexpectedUnit("r".to_owned())));
    assert_eq!(parse("12 minutes, 21 seconds"), Ok(Duration::from_secs(741)));
}

#[test]
fn empty_string_is_zero() {
    assert_eq!(parse(""), Ok(Duration::ZERO));
    assert_eq!(ignoring_case().parse(""), Ok(Duration::ZERO));
}

#[test]
fn separators_only_is_zero() {
    assert_eq!(parse(" "), Ok(Duration::ZERO));
    assert_eq!(parse(","), Ok(Duration::ZERO));
    assert_eq!(parse(" \t\n\r\x0C,, "), Ok(Duration::ZERO));
}

#[test]
fn every_spelling_names_its_unit() {
    for name in ["ms", "msec", "msecs", "millisecond", "milliseconds"] {
        assert_eq!(parse(&format!("7 {name}")), Ok(Duration::from_millis(7)));
    }
    for name in ["s", "sec", "secs", "second", "seconds"] {
        assert_eq!(parse(&format!("7 {name}")), Ok(Duration::from_millis(7_000)));
    }
    for name in ["m", "min", "mins", "minute", "minutes"] {
        assert_eq!(parse(&format!("7 {name}")), Ok(Duration::from_millis(420_000)));
    }
    for name in ["h", "hr", "hrs", "hour", "hours"] {
        assert_eq!(parse(&format!("7 {name}")), Ok(Duration::from_millis(25_200_000)));
    }
}

#[test]
fn spellings_of_one_unit_agree() {
    assert_eq!(parse("1 s"), parse("1 sec"));
    assert_eq!(parse("1 sec"), parse("1 seconds"));
    assert_eq!(parse("1 s"), Ok(Duration::from_secs(1)));
    assert_eq!(parse("3h 4m"), parse("3 hours 4 minutes"));
}

#[test]
fn separator_style_does_not_matter() {
    let expected = Ok(Duration::from_millis(3_723_000));
    assert_eq!(parse("1h2min3s"), expected);
    assert_eq!(parse("1h, 2 min, 3s"), expected);
    assert_eq!(parse(",1,h,2,min,3,s,"), expected);
    assert_eq!(parse("\t1 h\n2 min\r\n3 s\x0C"), expected);
}

#[test]
fn repeated_units_add() {
    assert_eq!(parse("1 min 2 min"), Ok(Duration::from_secs(180)));
    assert_eq!(parse("1ms 1ms 1ms"), Ok(Duration::from_millis(3)));
}

#[test]
fn order_of_units_is_free() {
    assert_eq!(parse("3s 1h 62ms 2min"), Ok(Duration::from_millis(3_723_062)));
}

#[test]
fn leading_zeros_are_read_as_digits() {
    assert_eq!(parse("007s"), Ok(Duration::from_secs(7)));
    assert_eq!(parse("0ms"), Ok(Duration::ZERO));
    assert_eq!(parse("000000000000000000000001s"), Ok(Duration::from_secs(1)));
    assert_eq!(parse("0000000004294967295ms"), Ok(Duration::from_millis(4_294_967_295)));
}

#[test]
fn largest_number_is_u32_max() {
    assert_eq!(parse("4294967295ms"), Ok(Duration::from_millis(4_294_967_295)));
    assert_eq!(
        parse("4294967295h"),
        Ok(Duration::from_secs(4_294_967_295 * 3_600))
    );
    assert_eq!(parse("4294967296ms"), Err(Error::NumberOverflow));
    assert_eq!(parse("4294967300ms"), Err(Error::NumberOverflow));
    assert_eq!(parse("99999999999999999999999999s"), Err(Error::NumberOverflow));
}

#[test]
fn first_lexical_error_wins() {
    assert_eq!(parse("4294967296*"), Err(Error::NumberOverflow));
    assert_eq!(parse("*4294967296"), Err(Error::UnexpectedChar('*')));
    assert_eq!(parse("1s ? !"), Err(Error::UnexpectedChar('?')));
}

#[test]
fn lexical_errors_come_before_structural_ones() {
    assert_eq!(parse("1 2 *"), Err(Error::UnexpectedChar('*')));
    assert_eq!(parse("s 1 #"), Err(Error::UnexpectedChar('#')));
    assert_eq!(parse("1 parsec 4294967296"), Err(Error::NumberOverflow));
}

#[test]
fn characters_outside_ascii_are_unexpected() {
    assert_eq!(parse("1 \u{b5}s"), Err(Error::UnexpectedChar('\u{b5}')));
    assert_eq!(parse("1s \u{e9}"), Err(Error::UnexpectedChar('\u{e9}')));
    assert_eq!(parse("\u{661}s"), Err(Error::UnexpectedChar('\u{661}')));
    assert_eq!(parse("1\u{a0}s"), Err(Error::UnexpectedChar('\u{a0}')));
    assert_eq!(parse("1\u{b}s"), Err(Error::UnexpectedChar('\u{b}')));
    assert_eq!(parse("-1s"), Err(Error::UnexpectedChar('-')));
    assert_eq!(parse("+1s"), Err(Error::UnexpectedChar('+')));
    assert_eq!(parse("1_000s"), Err(Error::UnexpectedChar('_')));
}

#[test]
fn number_without_unit() {
    assert_eq!(parse("1"), Err(Error::ExpectedUnit));
    assert_eq!(parse("1 s 2"), Err(Error::ExpectedUnit));
    assert_eq!(parse("1 2 s"), Err(Error::ExpectedUnit));
    assert_eq!(parse("1,2"), Err(Error::ExpectedUnit));
}

#[test]
fn unit_without_number() {
    assert_eq!(parse("s"), Err(Error::ExpectedNumber));
    assert_eq!(parse("min 1"), Err(Error::ExpectedNumber));
    assert_eq!(parse("1 min sec"), Err(Error::ExpectedNumber));
    assert_eq!(parse("nonsense"), Err(Error::ExpectedNumber));
}

#[test]
fn unknown_units() {
    assert_eq!(parse("1 days"), Err(Error::UnexpectedUnit("days".to_owned())));
    assert_eq!(parse("1 sm"), Err(Error::UnexpectedUnit("sm".to_owned())));
    assert_eq!(parse("1 mss"), Err(Error::UnexpectedUnit("mss".to_owned())));
    assert_eq!(parse("1 x 2 y"), Err(Error::UnexpectedUnit("x".to_owned())));
    assert_eq!(parse("1 x 2"), Err(Error::UnexpectedUnit("x".to_owned())));
}

#[test]
fn first_structural_error_wins() {
    assert_eq!(parse("1 2 x"), Err(Error::ExpectedUnit));
    assert_eq!(parse("s 1 x"), Err(Error::ExpectedNumber));
    assert_eq!(parse("1 s m 2 2"), Err(Error::ExpectedNumber));
}

#[test]
fn case_is_kept_unless_ignored() {
    assert_eq!(parse("1 S"), Err(Error::UnexpectedUnit("S".to_owned())));
    assert_eq!(parse("1 Min"), Err(Error::UnexpectedUnit("Min".to_owned())));
    assert_eq!(ignoring_case().parse("1 Min"), parse("1 min"));
    assert_eq!(ignoring_case().parse("1 Min"), Ok(Duration::from_secs(60)));
    assert_eq!(ignoring_case().parse("3 HoUrS"), Ok(Duration::from_secs(10_800)));
}

#[test]
fn unknown_unit_is_reported_in_lower_case_when_case_is_ignored() {
    assert_eq!(
        ignoring_case().parse("1 Foo"),
        Err(Error::UnexpectedUnit("foo".to_owned()))
    );
    assert_eq!(
        ignoring_case().parse("1 DAYS"),
        Err(Error::UnexpectedUnit("days".to_owned()))
    );
}

#[test]
fn ignoring_case_is_parsing_the_lower_case_input() {
    for input in [
        "1 MIN 2 SEC",
        "1H2Min3S62mS",
        "1 Foo",
        "2.1 MIN",
        "1 2",
        "1 S M",
        "4294967296 H",
        "",
    ] {
        assert_eq!(
            ignoring_case().parse(input),
            parse(&input.to_ascii_lowercase())
        );
    }
}

#[test]
fn default_parser_is_case_sensitive() {
    assert_eq!(Parser::default().parse("1 min"), Ok(Duration::from_secs(60)));
    assert_eq!(
        Parser::default().parse("1 MIN"),
        Err(Error::UnexpectedUnit("MIN".to_owned()))
    );
    assert!(!ParserOptions::default().ignore_case);
}

#[test]
fn unit_durations() {
    let exact = Parser::default();
    assert_eq!(exact.get_unit_duration("ms"), Ok(1));
    assert_eq!(exact.get_unit_duration("millisecond"), Ok(1));
    assert_eq!(exact.get_unit_duration("s"), Ok(1_000));
    assert_eq!(exact.get_unit_duration("second"), Ok(1_000));
    assert_eq!(exact.get_unit_duration("m"), Ok(60_000));
    assert_eq!(exact.get_unit_duration("minute"), Ok(60_000));
    assert_eq!(exact.get_unit_duration("h"), Ok(3_600_000));
    assert_eq!(exact.get_unit_duration("hour"), Ok(3_600_000));
    assert_eq!(
        exact.get_unit_duration("Hour"),
        Err(Error::UnexpectedUnit("Hour".to_owned()))
    );
    assert_eq!(
        exact.get_unit_duration(""),
        Err(Error::UnexpectedUnit(String::new()))
    );
    let loose = ignoring_case();
    assert_eq!(loose.get_unit_duration("Hour"), Ok(3_600_000));
    assert_eq!(loose.get_unit_duration("MSECS"), Ok(1));
    assert_eq!(
        loose.get_unit_duration("Week"),
        Err(Error::UnexpectedUnit("week".to_owned()))
    );
}

#[test]
fn unit_table() {
    assert_eq!(lookup_unit("ms"), Some(TimeUnit::Millisecond));
    assert_eq!(lookup_unit("secs"), Some(TimeUnit::Second));
    assert_eq!(lookup_unit("mins"), Some(TimeUnit::Minute));
    assert_eq!(lookup_unit("hrs"), Some(TimeUnit::Hour));
    assert_eq!(lookup_unit("hr "), None);
    assert_eq!(lookup_unit("H"), None);
    assert_eq!(lookup_unit("d"), None);
    assert_eq!(TimeUnit::Millisecond.millis(), 1);
    assert_eq!(TimeUnit::Second.millis(), 1_000);
    assert_eq!(TimeUnit::Minute.millis(), 60_000);
    assert_eq!(TimeUnit::Hour.millis(), 3_600_000);
}

#[test]
fn lower_case() {
    assert_eq!(to_ascii_lower('A'), 'a');
    assert_eq!(to_ascii_lower('Z'), 'z');
    assert_eq!(to_ascii_lower('m'), 'm');
    assert_eq!(to_ascii_lower('@'), '@');
    assert_eq!(to_ascii_lower('['), '[');
    assert_eq!(to_ascii_lower('\u{c9}'), '\u{c9}');
    assert_eq!(to_ascii_lowercase("MiNuTeS"), "minutes");
    assert_eq!(to_ascii_lowercase(""), "");
    assert_eq!(to_ascii_lowercase("a1 B2"), "a1 b2");
}

#[test]
fn character_classes() {
    for c in [' ', '\t', '\n', '\x0C', '\r', ','] {
        assert_eq!(classify(c), CharClass::Separator);
    }
    for c in ['0', '5', '9'] {
        assert_eq!(classify(c), CharClass::Digit);
    }
    for c in ['a', 'm', 'z', 'A', 'M', 'Z'] {
        assert_eq!(classify(c), CharClass::Letter);
    }
    for c in ['*', '.', '-', '/', ':', '@', '[', '`', '{', '\x0B', '\0', '\u{e9}', '\u{661}'] {
        assert_eq!(classify(c), CharClass::Other);
    }
}

#[test]
fn scanner_keeps_order_and_case() {
    let tokens = Scanner::new(" 12,MiN\t0003 x ").scan_tokens();
    assert_eq!(
        tokens,
        Ok(vec![
            Token::Number(12),
            Token::Unit("MiN".to_owned()),
            Token::Number(3),
            Token::Unit("x".to_owned()),
        ])
    );
}

#[test]
fn scanner_splits_at_every_change_of_class() {
    let tokens = Scanner::new("1a2b").scan_tokens();
    assert_eq!(
        tokens,
        Ok(vec![
            Token::Number(1),
            Token::Unit("a".to_owned()),
            Token::Number(2),
            Token::Unit("b".to_owned()),
        ])
    );
    assert_eq!(
        Scanner::new("ab cd").scan_tokens(),
        Ok(vec![Token::Unit("ab".to_owned()), Token::Unit("cd".to_owned())])
    );
    assert_eq!(
        Scanner::new("12 34").scan_tokens(),
        Ok(vec![Token::Number(12), Token::Number(34)])
    );
}

#[test]
fn scanner_on_no_tokens() {
    assert_eq!(Scanner::new("").scan_tokens(), Ok(vec![]));
    assert_eq!(Scanner::new(" , ").scan_tokens(), Ok(vec![]));
}

#[test]
fn scanner_errors() {
    assert_eq!(
        Scanner::new("1 s %").scan_tokens(),
        Err(Error::UnexpectedChar('%'))
    );
    assert_eq!(
        Scanner::new("1 s 4294967296").scan_tokens(),
        Err(Error::NumberOverflow)
    );
    assert_eq!(
        Scanner::new("4294967295").scan_tokens(),
        Ok(vec![Token::Number(u32::MAX)])
    );
}

#[test]
fn tokens_add_up() {
    let parser = Parser::default();
    assert_eq!(parser.parse_tokens(vec![]), Ok(Duration::ZERO));
    assert_eq!(
        parser.parse_tokens(vec![
            Token::Number(2),
            Token::Unit("min".to_owned()),
            Token::Number(500),
            Token::Unit("ms".to_owned()),
        ]),
        Ok(Duration::from_millis(120_500))
    );
    assert_eq!(
        parser.parse_tokens(vec![Token::Number(2)]),
        Err(Error::ExpectedUnit)
    );
    assert_eq!(
        parser.parse_tokens(vec![Token::Number(2), Token::Number(3)]),
        Err(Error::ExpectedUnit)
    );
    assert_eq!(
        parser.parse_tokens(vec![Token::Unit("s".to_owned())]),
        Err(Error::ExpectedNumber)
    );
    assert_eq!(
        parser.parse_tokens(vec![Token::Number(2), Token::Unit("Min".to_owned())]),
        Err(Error::UnexpectedUnit("Min".to_owned()))
    );
    assert_eq!(
        ignoring_case().parse_tokens(vec![Token::Number(2), Token::Unit("Min".to_owned())]),
        Ok(Duration::from_secs(120))
    );
}

#[test]
fn milliseconds_to_duration() {
    assert_eq!(duration_from_millis(0), Ok(Duration::ZERO));
    assert_eq!(duration_from_millis(1), Ok(Duration::new(0, 1_000_000)));
    assert_eq!(duration_from_millis(999), Ok(Duration::new(0, 999_000_000)));
    assert_eq!(duration_from_millis(1_000), Ok(Duration::new(1, 0)));
    assert_eq!(duration_from_millis(3_723_062), Ok(Duration::new(3_723, 62_000_000)));
    assert_eq!(
        duration_from_millis(u64::MAX as u128 + 1),
        Ok(Duration::new(18_446_744_073_709_551, 616_000_000))
    );
}

#[test]
fn largest_duration() {
    let most = u64::MAX as u128 * 1_000 + 999;
    assert_eq!(
        duration_from_millis(most),
        Ok(Duration::new(u64::MAX, 999_000_000))
    );
    assert_eq!(duration_from_millis(most + 1), Err(Error::DurationOverflow));
    assert_eq!(duration_from_millis(u128::MAX), Err(Error::DurationOverflow));
}

/// `u64::MAX` seconds and 999 milliseconds as a duration string: as many
/// pairs of `u32::MAX` hours as fit, and the rest in hours, seconds and
/// milliseconds.
fn largest_duration_string() -> String {
    let hours_per_pair: u64 = 4_294_967_295;
    let secs_per_pair = hours_per_pair * 3_600;
    let pairs = u64::MAX / secs_per_pair;
    let rest = u64::MAX % secs_per_pair;
    let mut input = "4294967295h".repeat(pairs as usize);
    input.push_str(&format!("{}h{}s999ms", rest / 3_600, rest % 3_600));
    input
}

#[test]
fn total_at_the_limit_of_a_duration() {
    let input = largest_duration_string();
    assert_eq!(parse(&input), Ok(Duration::new(u64::MAX, 999_000_000)));
}

#[test]
fn total_beyond_a_duration() {
    let mut input = largest_duration_string();
    input.push_str("1ms");
    assert_eq!(parse(&input), Err(Error::DurationOverflow));
}

#[test]
fn structural_error_comes_before_duration_overflow() {
    let mut input = largest_duration_string();
    input.push_str("1ms 1 week");
    assert_eq!(parse(&input), Err(Error::UnexpectedUnit("week".to_owned())));
}
