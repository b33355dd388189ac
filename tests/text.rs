use kfkscript::parser::{format_tokens, is_whitespace, parse, parse_number, ParseError};
use kfkscript::token::Token;
use kfkscript::value::{join_texts, number_to_text, Argument};

#[test]
fn number_text_is_canonical() {
    assert_eq!(number_to_text(6_000_000_000), "6");
    assert_eq!(number_to_text(2_500_000_000), "2.5");
    assert_eq!(number_to_text(-250_000_000), "-0.25");
    assert_eq!(number_to_text(0), "0");
    assert_eq!(number_to_text(1), "0.000000001");
    assert_eq!(number_to_text(i128::MIN), "-170141183460469231731687303715.884105728");
}

#[test]
fn arguments_join_with_spaces() {
    let args = vec![Argument::KfkString("a".to_string()), Argument::Number(1_500_000_000), Argument::KfkString("b c".to_string())];
    assert_eq!(join_texts(&args), "a 1.5 b c");
    assert_eq!(join_texts(&vec![]), "");
}

#[test]
fn number_literals_are_read_exactly() {
    let read = |s: &str| parse_number(&s.chars().collect());
    assert_eq!(read("12.5"), Some(12_500_000_000));
    assert_eq!(read("-3"), Some(-3_000_000_000));
    assert_eq!(read("0.000000001"), Some(1));
    assert_eq!(read("3."), Some(3_000_000_000));
    assert_eq!(read("1.2345678901"), None);
    assert_eq!(read("1e5"), None);
    assert_eq!(read("-"), None);
    assert_eq!(read(".5"), None);
    assert_eq!(read("1.2.3"), None);
    assert_eq!(read("1000000000000000000000000000000"), None);
    assert_eq!(read("100000000000000000000000000000"), Some(100_000_000_000_000_000_000_000_000_000_000_000_000));
}

#[test]
fn source_splits_into_tokens() {
    let tokens = parse("let $x -4.5\n  println 'a b\" # note\n- 1 2").unwrap();
    let shown: Vec<String> = tokens
        .iter()
        .map(|t| match t {
            Token::Keyword(k) => format!("K{}:{}", k.line_number, k.lexem),
            Token::KfkString(s) => format!("S{}:{}", s.line_number, s.lexem),
            Token::Number(n) => format!("N{}:{}", n.line_number, n.number),
        })
        .collect();
    assert_eq!(
        shown,
        vec!["K1:let", "S1:x", "N1:-4500000000", "K2:println", "S2:a b", "K3:-", "N3:1000000000", "N3:2000000000"]
    );
}

#[test]
fn bad_number_is_refused() {
    assert!(matches!(parse("println 12x"), Err(ParseError::InvalidNumber { .. })));
    assert!(matches!(parse("println 'open"), Err(ParseError::UnterminatedString { .. })));
}

#[test]
fn token_listing_keeps_lines() {
    let tokens = parse("println $a\n\nlet $x 1").unwrap();
    assert_eq!(format_tokens(&tokens), "println 'a\" \n\nlet 'x\" 1 \n");
}

#[test]
fn whitespace_matches_std() {
    for u in 0u32..0x3100 {
        if let Some(c) = char::from_u32(u) {
            assert_eq!(is_whitespace(c), c.is_whitespace(), "U+{:04X}", u);
        }
    }
    for c in ['\u{FEFF}', '\u{10FFFF}', 'x', '\u{205F}'] {
        assert_eq!(is_whitespace(c), c.is_whitespace());
    }
}
