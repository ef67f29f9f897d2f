use expr::tokens::{tokenize, Token, Tokenizer};

#[derive(Debug, PartialEq)]
enum Lex {
    Float(f64),
    Symbol(String),
    Plus,
    Minus,
    Star,
    Slash,
    Power,
    Open,
    Close,
    Error,
}

use crate::Lex::{Float, Minus, Plus, Slash, Star, Symbol};

fn lex(t: Token) -> Lex {
    match t {
        Token::Number(s) => Lex::Float(s.parse::<f64>().unwrap()),
        Token::Symbol(s) => Lex::Symbol(s),
        Token::Plus => Lex::Plus,
        Token::Minus => Lex::Minus,
        Token::Star => Lex::Star,
        Token::Slash => Lex::Slash,
        Token::Power => Lex::Power,
        Token::Open => Lex::Open,
        Token::Close => Lex::Close,
        Token::Error => Lex::Error,
    }
}

fn assert_tokens(text: &str, expected: Vec<Lex>) {
    let tokens: Vec<Lex> = tokenize(text).into_iter().map(lex).collect();
    assert_eq!(tokens, expected);
}

#[test]
fn basic() {
    assert_tokens("", vec![]);
    assert_tokens("   ", vec![]);
    assert_tokens("\t  \n1", vec![Float(1.0)]);
    assert_tokens("\t  \n-1", vec![Minus, Float(1.0)]);
}

#[test]
fn operators() {
    let x = "x".to_string();
    let y = "y".to_string();
    assert_tokens("10+", vec![Float(10.0), Plus]);
    assert_tokens("-12", vec![Minus, Float(12.0)]);
    assert_tokens("+*-/", vec![Plus, Star, Minus, Slash]);
    assert_tokens("12.0+y", vec![Float(12.0), Plus, Symbol(y.clone())]);
    assert_tokens("12/y", vec![Float(12.0), Slash, Symbol(y.clone())]);
    assert_tokens("x+12.0", vec![Symbol(x.clone()), Plus, Float(12.0)]);
}

#[test]
fn variables() {
    let x = "x".to_string();
    assert_tokens("x12", vec![Symbol("x12".to_string())]);
    assert_tokens("12x", vec![Float(12.0), Symbol(x)]);
    assert_tokens("12.0zzz", vec![Float(12.0), Symbol("zzz".to_string())]);
    assert_tokens("12.a_3", vec![Float(12.0), Symbol("a_3".to_string())]);
    assert_tokens("a_12", vec![Symbol("a_12".to_string())]);
}

#[test]
fn numbers() {
    assert_tokens("12", vec![Float(12.0)]);
    assert_tokens("13.", vec![Float(13.0)]);
    assert_tokens("13.1", vec![Float(13.1)]);
    assert_tokens("0.2", vec![Float(0.2)]);
    assert_tokens("0.2", vec![Float(0.2)]);
    assert_tokens("012.2", vec![Float(12.2)]);
    assert_tokens("00000012.2", vec![Float(12.2)]);
    assert_tokens("000012.2", vec![Float(12.2)]);
}

#[test]
fn number_keeps_its_literal() {
    assert_eq!(tokenize("012.2"), vec![Token::Number("012.2".to_string())]);
    assert_eq!(tokenize("13."), vec![Token::Number("13.".to_string())]);
}

#[test]
fn malformed_number_ends_the_tokens() {
    assert_eq!(tokenize("1.2.3"), vec![]);
    assert_eq!(tokenize("x + 1..2 * 3"), vec![Token::Symbol("x".to_string()), Token::Plus]);
}

#[test]
fn unknown_character_ends_the_tokens() {
    assert_eq!(tokenize("1 + $ 2"), vec![Token::Number("1".to_string()), Token::Plus]);
    assert_eq!(tokenize("a.b"), vec![Token::Symbol("a".to_string())]);
}

#[test]
fn power_and_parentheses() {
    assert_eq!(
        tokenize("(2)^3"),
        vec![
            Token::Open,
            Token::Number("2".to_string()),
            Token::Close,
            Token::Power,
            Token::Number("3".to_string())
        ]
    );
}

#[test]
fn unicode_letters_and_spaces() {
    assert_eq!(
        tokenize("\u{a0}été_2\u{2003}+ 1"),
        vec![
            Token::Symbol("été_2".to_string()),
            Token::Plus,
            Token::Number("1".to_string())
        ]
    );
}

#[test]
fn tokenizer_reads_one_token_at_a_time() {
    let mut t = Tokenizer::new("  ab + 7");
    assert_eq!(t.next(), Some(Token::Symbol("ab".to_string())));
    assert_eq!(t.next(), Some(Token::Plus));
    assert_eq!(t.next(), Some(Token::Number("7".to_string())));
    assert_eq!(t.next(), None);
    assert_eq!(t.next(), None);
}

#[test]
fn tokenizer_take_and_skip() {
    let mut t = Tokenizer::new("héllo world");
    assert_eq!(t.take(3), "hél".to_string());
    t.skip(2);
    assert_eq!(t.take(1), " ".to_string());
    assert_eq!(t.take(100), "world".to_string());
    assert_eq!(t.take(1), "".to_string());
}

#[test]
fn tokenizer_take_while_and_skip_while() {
    let mut t = Tokenizer::new("   123abc");
    t.skip_while(|c: char| c == ' ');
    assert_eq!(t.take_while(|c: char| c.is_ascii_digit()), "123".to_string());
    assert_eq!(t.take_while(|c: char| c.is_ascii_digit()), "".to_string());
    assert_eq!(t.take_while(|c: char| c != 'c'), "ab".to_string());
}

#[test]
fn token_text() {
    assert_eq!(Token::Number("012.5".to_string()).text(), "012.5".to_string());
    assert_eq!(Token::Symbol("x".to_string()).text(), "x".to_string());
    assert_eq!(Token::Close.text(), ")".to_string());
    assert_eq!(Token::Power.text(), "^".to_string());
    assert_eq!(Token::Error.text(), "ERROR".to_string());
}
