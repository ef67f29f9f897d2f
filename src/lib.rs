//! Arithmetic expressions: a tokenizer, a predictive recursive-descent parser
//! and the expression tree that it builds, with the variables that the tree reads.
use vstd::prelude::*;
use vstd::string::StringExecFns;

pub mod parser;
pub mod tokens;
pub mod tree;

pub use parser::parse;

use parser::{Failure, parse_spec};
use tokens::tokenize_spec;
use tree::{ExprTree, Tree, bound_names, first_unbound};

verus! {

/// Failure of an expression: while parsing it, or while reading its variables.
#[derive(Debug, PartialEq)]
pub enum Error {
    Parser(parser::Error),
    Eval(tree::Error),
}

/// The mathematical model of a failure.
pub enum Fault {
    Parse(Failure),
    Unbound(Seq<char>),
}

impl View for Error {
    type V = Fault;

    open spec fn view(&self) -> Fault {
        match self {
            Error::Parser(e) => Fault::Parse(e@),
            Error::Eval(tree::Error::NoValue(n)) => Fault::Unbound(n@),
        }
    }
}

impl From<parser::Error> for Error {
    fn from(error: parser::Error) -> Error {
        Error::Parser(error)
    }
}

impl vstd::std_specs::convert::FromSpecImpl<parser::Error> for Error {
    open spec fn obeys_from_spec() -> bool {
        true
    }

    open spec fn from_spec(v: parser::Error) -> Error {
        Error::Parser(v)
    }
}

impl From<tree::Error> for Error {
    fn from(error: tree::Error) -> Error {
        Error::Eval(error)
    }
}

impl vstd::std_specs::convert::FromSpecImpl<tree::Error> for Error {
    open spec fn obeys_from_spec() -> bool {
        true
    }

    open spec fn from_spec(v: tree::Error) -> Error {
        Error::Eval(v)
    }
}

impl Error {
    /// The message that describes the failure, after the phase in which it came.
    pub fn message(&self) -> (r: String)
        ensures
            r@ == match self {
                Error::Parser(e) => "parse error: "@ + parser::failure_message(e@),
                Error::Eval(tree::Error::NoValue(n)) => "eval error: "@ + tree::unbound_message(n@),
            },
    {
        match self {
            Error::Parser(e) => {
                let mut m = String::from_str("parse error: ");
                let inner = e.message();
                m.append(inner.as_str());
                m
            },
            Error::Eval(e) => {
                let mut m = String::from_str("eval error: ");
                let inner = e.message();
                m.append(inner.as_str());
                m
            },
        }
    }

    /// A short description of the phase that failed.
    pub fn description(&self) -> (r: &'static str)
        ensures
            r@ == match self {
                Error::Parser(_) => "parser error"@,
                Error::Eval(_) => "eval error"@,
            },
    {
        match self {
            Error::Parser(_) => "parser error",
            Error::Eval(_) => "eval error",
        }
    }
}

/// The outcome of reading the expression `text` with the variables `names` bound:
/// its tree, or the first failure.
pub open spec fn resolve_spec(text: Seq<char>, names: Set<Seq<char>>) -> Result<Tree, Fault> {
    match parse_spec(tokenize_spec(text)) {
        Err(e) => Err(Fault::Parse(e)),
        Ok(t) => match first_unbound(t, names) {
            Some(n) => Err(Fault::Unbound(n)),
            None => Ok(t),
        },
    }
}

/// The model of an outcome.
pub open spec fn outcome(r: Result<ExprTree, Error>) -> Result<Tree, Fault> {
    match r {
        Ok(t) => Ok(t@),
        Err(e) => Err(e@),
    }
}

/// Parses `text` and checks that each of its variables is among `names`: the tree of
/// the expression, ready for evaluation, or the failure that evaluating it would meet
/// first (a parse failure, else the leftmost variable without a value).
pub fn resolve(text: &str, names: &Vec<String>) -> (r: Result<ExprTree, Error>)
    ensures
        outcome(r) == resolve_spec(text@, bound_names(names@)),
{
    let tree = match parse(text) {
        Ok(t) => t,
        Err(e) => return Err(Error::Parser(e)),
    };
    match tree.check(names) {
        Ok(()) => Ok(tree),
        Err(e) => Err(Error::Eval(e)),
    }
}

/// Reading an expression is a function of its text and of the names bound: two reads of
/// the same text, with the same names, have the same outcome.
pub proof fn law_repeatable(
    text: Seq<char>,
    names: Seq<String>,
    r1: Result<ExprTree, Error>,
    r2: Result<ExprTree, Error>,
)
    requires
        outcome(r1) == resolve_spec(text, bound_names(names)),
        outcome(r2) == resolve_spec(text, bound_names(names)),
    ensures
        outcome(r1) == outcome(r2),
{
}

} // verus!
