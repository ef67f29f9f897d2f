use expr::parse;
use expr::parser::Error::{UnexpectedEndOfInput, UnexpectedToken};
use expr::tokens::Token;
use expr::tree::ExprTree;

#[derive(Debug, PartialEq)]
enum Tree {
    Var(String),
    Float(f64),
    Neg(Box<Tree>),
    Add(Box<Tree>, Box<Tree>),
    Sub(Box<Tree>, Box<Tree>),
    Mul(Box<Tree>, Box<Tree>),
    Div(Box<Tree>, Box<Tree>),
}

use crate::Tree::{Add, Float, Mul, Neg, Sub, Var};

fn tree(t: ExprTree) -> Tree {
    match t {
        ExprTree::Var(n) => Tree::Var(n),
        ExprTree::Number(s) => Tree::Float(s.parse::<f64>().unwrap()),
        ExprTree::Neg(e) => Tree::Neg(Box::new(tree(*e))),
        ExprTree::Add(l, r) => Tree::Add(Box::new(tree(*l)), Box::new(tree(*r))),
        ExprTree::Sub(l, r) => Tree::Sub(Box::new(tree(*l)), Box::new(tree(*r))),
        ExprTree::Mul(l, r) => Tree::Mul(Box::new(tree(*l)), Box::new(tree(*r))),
        ExprTree::Div(l, r) => Tree::Div(Box::new(tree(*l)), Box::new(tree(*r))),
    }
}

fn parsed(expr: &str) -> Result<Tree, expr::parser::Error> {
    parse(expr).map(tree)
}

fn check(expr: &str, t: Tree) {
    assert_eq!(parsed(expr), Ok(t));
}

#[test]
fn good_parse() {
    assert_eq!(parsed("10"), Ok(Float(10.0)));
    assert_eq!(parsed("-10"), Ok(Neg(Box::new(Float(10.0)))));
    check("10+12", Add(Box::new(Float(10.0)), Box::new(Float(12.0))));
    check(
        "10+x",
        Add(Box::new(Float(10.0)), Box::new(Var("x".to_string()))),
    );

    check(
        "10+-x",
        Add(
            Box::new(Float(10.0)),
            Box::new(Neg(Box::new(Var("x".to_string())))),
        ),
    );
    check(
        "10 + +x",
        Add(Box::new(Float(10.0)), Box::new(Var("x".to_string()))),
    );
    check(
        "10+x*y",
        Add(
            Box::new(Float(10.0)),
            Box::new(Mul(
                Box::new(Var("x".to_string())),
                Box::new(Var("y".to_string())),
            )),
        ),
    );
    check(
        "10 + 12 * 20 - 2",
        Sub(
            Box::new(Add(
                Box::new(Float(10.0)),
                Box::new(Mul(Box::new(Float(12.0)), Box::new(Float(20.0)))),
            )),
            Box::new(Float(2.0)),
        ),
    );
}

#[test]
fn bad_parse() {
    assert!(matches!(
        parse("10 20"),
        Err(UnexpectedToken {
            token: Token::Number(ref num),
            rule: "expr",
            ..
        }) if num.parse::<f64>() == Ok(20.0)
    ));
    assert!(matches!(
        parse("10++"),
        Err(UnexpectedEndOfInput { rule: "factor", .. })
    ));
    assert!(matches!(
        parse("10+("),
        Err(UnexpectedEndOfInput { rule: "factor", .. })
    ));
}

#[test]
fn left_associative_subtraction() {
    check(
        "10 - 2 - 3",
        Sub(
            Box::new(Sub(Box::new(Float(10.0)), Box::new(Float(2.0)))),
            Box::new(Float(3.0)),
        ),
    );
    check(
        "8 / 4 * 2",
        Mul(
            Box::new(Tree::Div(Box::new(Float(8.0)), Box::new(Float(4.0)))),
            Box::new(Float(2.0)),
        ),
    );
}

#[test]
fn parentheses_override_precedence() {
    check(
        "(10 + 2) * 3",
        Mul(
            Box::new(Add(Box::new(Float(10.0)), Box::new(Float(2.0)))),
            Box::new(Float(3.0)),
        ),
    );
    check("((x))", Var("x".to_string()));
    check(
        "-(x)",
        Neg(Box::new(Var("x".to_string()))),
    );
}

#[test]
fn minus_minus_is_subtraction_of_a_negation() {
    check(
        "x--3",
        Sub(
            Box::new(Var("x".to_string())),
            Box::new(Neg(Box::new(Float(3.0)))),
        ),
    );
    check(
        "x-+3",
        Sub(Box::new(Var("x".to_string())), Box::new(Float(3.0))),
    );
}

#[test]
fn double_unary_prefix_is_rejected() {
    assert_eq!(
        parse("--x"),
        Err(UnexpectedToken {
            token: Token::Minus,
            rule: "factor",
            expect: "number, variable, or '('",
        })
    );
    assert_eq!(
        parse("+-x"),
        Err(UnexpectedToken {
            token: Token::Minus,
            rule: "factor",
            expect: "number, variable, or '('",
        })
    );
}

#[test]
fn missing_operand_and_parenthesis() {
    assert_eq!(
        parse(""),
        Err(UnexpectedEndOfInput {
            rule: "factor",
            expect: "number, variable, or '('",
        })
    );
    assert_eq!(
        parse("(1"),
        Err(UnexpectedEndOfInput { rule: "factor", expect: "')'" })
    );
    assert_eq!(
        parse("(1 2"),
        Err(UnexpectedToken {
            token: Token::Number("2".to_string()),
            rule: "factor",
            expect: "')'",
        })
    );
    assert_eq!(
        parse("1 * )"),
        Err(UnexpectedToken {
            token: Token::Close,
            rule: "factor",
            expect: "number, variable, or '('",
        })
    );
    assert_eq!(
        parse("2 ^ 3"),
        Err(UnexpectedToken {
            token: Token::Power,
            rule: "expr",
            expect: "end of input",
        })
    );
}

#[test]
fn malformed_number_reads_as_end_of_input() {
    assert_eq!(
        parse("1 + 1.2.3"),
        Err(UnexpectedEndOfInput {
            rule: "factor",
            expect: "number, variable, or '('",
        })
    );
}

#[test]
fn parse_error_messages() {
    let e = parse("(1").unwrap_err();
    assert_eq!(
        e.message(),
        "unexpected end of input when parsing factor, expected ')'".to_string()
    );
    assert_eq!(e.description(), "unexpected end of input");
    let e = parse("x y").unwrap_err();
    assert_eq!(
        e.message(),
        "unexpected token 'y' when parsing expr, expected end of input".to_string()
    );
    assert_eq!(e.description(), "unexpected token");
}
