use minijinja::lexer::{tokenize, Token};
use minijinja::ErrorKind;

#[test]
fn tokens_of_a_call() {
    let toks = tokenize("obj.add(12, \"a b\") - x_1").unwrap();
    assert_eq!(toks.len(), 10);
    assert!(matches!(&toks[0], Token::Name(n) if n == "obj"));
    assert!(matches!(toks[1], Token::Dot));
    assert!(matches!(&toks[2], Token::Name(n) if n == "add"));
    assert!(matches!(toks[3], Token::LParen));
    assert!(matches!(toks[4], Token::Int(12)));
    assert!(matches!(toks[5], Token::Comma));
    assert!(matches!(&toks[6], Token::Str(s) if s == "a b"));
    assert!(matches!(toks[7], Token::RParen));
    assert!(matches!(toks[8], Token::Minus));
    assert!(matches!(&toks[9], Token::Name(n) if n == "x_1"));
}

#[test]
fn empty_and_blank_text_have_no_tokens() {
    assert!(tokenize("").unwrap().is_empty());
    assert!(tokenize(" \t\n").unwrap().is_empty());
}

#[test]
fn largest_integer_literal() {
    let toks = tokenize("9223372036854775807").unwrap();
    assert!(matches!(toks[0], Token::Int(i64::MAX)));
    assert_eq!(tokenize("9223372036854775808").unwrap_err().kind(), ErrorKind::SyntaxError);
}

#[test]
fn lexing_errors() {
    assert_eq!(tokenize("a $ b").unwrap_err().kind(), ErrorKind::SyntaxError);
    assert_eq!(tokenize("\"no end").unwrap_err().kind(), ErrorKind::SyntaxError);
}
