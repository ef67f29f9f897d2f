//! Predictive recursive-descent parser for expressions:
//!
//! ```text
//! expr   ::= term (("+" | "-") term)*
//! term   ::= factor (("*" | "/") factor)*
//! factor ::= ("-" | "+")? (number | variable | "(" expr ")")
//! ```
use vstd::prelude::*;
use vstd::string::StringExecFns;
use crate::tokens::{Tok, Token, tokenize, tokenize_spec, tok_text};
use crate::tree::{ExprTree, Tree};

verus! {

/// Failure of a parse: the rule that failed and what it expected there.
#[derive(Debug, PartialEq)]
pub enum Error {
    UnexpectedEndOfInput { rule: &'static str, expect: &'static str },
    UnexpectedToken { token: Token, rule: &'static str, expect: &'static str },
}

/// The mathematical model of a parse failure.
pub enum Failure {
    EndOfInput { rule: Seq<char>, expect: Seq<char> },
    BadToken { token: Tok, rule: Seq<char>, expect: Seq<char> },
}

impl View for Error {
    type V = Failure;

    open spec fn view(&self) -> Failure {
        match self {
            Error::UnexpectedEndOfInput { rule, expect } => Failure::EndOfInput {
                rule: rule@,
                expect: expect@,
            },
            Error::UnexpectedToken { token, rule, expect } => Failure::BadToken {
                token: token@,
                rule: rule@,
                expect: expect@,
            },
        }
    }
}

/// The message that describes a parse failure.
pub open spec fn failure_message(f: Failure) -> Seq<char> {
    match f {
        Failure::EndOfInput { rule, expect } => "unexpected end of input when parsing "@ + rule
            + ", expected "@ + expect,
        Failure::BadToken { token, rule, expect } => "unexpected token '"@ + tok_text(token)
            + "' when parsing "@ + rule + ", expected "@ + expect,
    }
}

impl Error {
    /// A short description of the kind of failure.
    pub fn description(&self) -> (r: &'static str)
        ensures
            r@ == match self {
                Error::UnexpectedEndOfInput { .. } => "unexpected end of input"@,
                Error::UnexpectedToken { .. } => "unexpected token"@,
            },
    {
        match self {
            Error::UnexpectedEndOfInput { .. } => "unexpected end of input",
            Error::UnexpectedToken { .. } => "unexpected token",
        }
    }

    /// The message that describes the failure: the rule, what it expected and, where a
    /// token was there instead, that token.
    pub fn message(&self) -> (r: String)
        ensures
            r@ == failure_message(self@),
    {
        match self {
            Error::UnexpectedEndOfInput { rule, expect } => {
                let mut m = String::from_str("unexpected end of input when parsing ");
                m.append(rule);
                m.append(", expected ");
                m.append(expect);
                m
            },
            Error::UnexpectedToken { token, rule, expect } => {
                let mut m = String::from_str("unexpected token '");
                let text = token.text();
                m.append(text.as_str());
                m.append("' when parsing ");
                m.append(rule);
                m.append(", expected ");
                m.append(expect);
                m
            },
        }
    }
}

/// What a factor expects where it begins.
pub open spec fn operand_expected() -> Seq<char> {
    "number, variable, or '('"@
}

/// The result of a rule: the tree it built and the tokens left after it.
pub type Parsed = Result<(Tree, Seq<Tok>), Failure>;

// A rule that succeeds has read at least one token, so of the branches below that compare
// the lengths of `rest` and `ts`, the second is never taken: the comparison only lets the
// recursion be seen to end.

/// `expr ::= term (("+" | "-") term)*`, on the tokens `ts`.
pub open spec fn expr_spec(ts: Seq<Tok>) -> Parsed
    decreases ts.len(), 4nat,
{
    match term_spec(ts) {
        Err(e) => Err(e),
        Ok((t, rest)) => if rest.len() <= ts.len() {
            expr_tail(t, rest)
        } else {
            Ok((t, rest))
        },
    }
}

/// The repetition of `expr`, folded to the left onto `acc`.
pub open spec fn expr_tail(acc: Tree, ts: Seq<Tok>) -> Parsed
    decreases ts.len(), 3nat,
{
    if ts.len() > 0 && (ts[0] is Plus || ts[0] is Minus) {
        match term_spec(ts.drop_first()) {
            Err(e) => Err(e),
            Ok((rhs, rest)) => if rest.len() < ts.len() {
                let t = if ts[0] is Plus {
                    Tree::Add(Box::new(acc), Box::new(rhs))
                } else {
                    Tree::Sub(Box::new(acc), Box::new(rhs))
                };
                expr_tail(t, rest)
            } else {
                Ok((acc, ts))
            },
        }
    } else {
        Ok((acc, ts))
    }
}

/// `term ::= factor (("*" | "/") factor)*`, on the tokens `ts`.
pub open spec fn term_spec(ts: Seq<Tok>) -> Parsed
    decreases ts.len(), 2nat,
{
    match factor_spec(ts) {
        Err(e) => Err(e),
        Ok((t, rest)) => if rest.len() <= ts.len() {
            term_tail(t, rest)
        } else {
            Ok((t, rest))
        },
    }
}

/// The repetition of `term`, folded to the left onto `acc`.
pub open spec fn term_tail(acc: Tree, ts: Seq<Tok>) -> Parsed
    decreases ts.len(), 1nat,
{
    if ts.len() > 0 && (ts[0] is Star || ts[0] is Slash) {
        match factor_spec(ts.drop_first()) {
            Err(e) => Err(e),
            Ok((rhs, rest)) => if rest.len() < ts.len() {
                let t = if ts[0] is Star {
                    Tree::Mul(Box::new(acc), Box::new(rhs))
                } else {
                    Tree::Div(Box::new(acc), Box::new(rhs))
                };
                term_tail(t, rest)
            } else {
                Ok((acc, ts))
            },
        }
    } else {
        Ok((acc, ts))
    }
}

/// `t`, negated where `negate` holds.
pub open spec fn signed(negate: bool, t: Tree) -> Tree {
    if negate {
        Tree::Neg(Box::new(t))
    } else {
        t
    }
}

/// `factor ::= ("-" | "+")? (number | variable | "(" expr ")")`, on the tokens `ts`.
pub open spec fn factor_spec(ts: Seq<Tok>) -> Parsed
    decreases ts.len(), 0nat,
{
    let signed_start = ts.len() > 0 && (ts[0] is Minus || ts[0] is Plus);
    let negate = ts.len() > 0 && ts[0] is Minus;
    let body = if signed_start {
        ts.drop_first()
    } else {
        ts
    };
    if body.len() == 0 {
        Err(Failure::EndOfInput { rule: "factor"@, expect: operand_expected() })
    } else {
        match body[0] {
            Tok::Number(n) => Ok((signed(negate, Tree::Number(n)), body.drop_first())),
            Tok::Symbol(n) => Ok((signed(negate, Tree::Var(n)), body.drop_first())),
            Tok::Open => match expr_spec(body.drop_first()) {
                Err(e) => Err(e),
                Ok((inner, rest)) => if rest.len() == 0 {
                    Err(Failure::EndOfInput { rule: "factor"@, expect: "')'"@ })
                } else if rest[0] is Close {
                    Ok((signed(negate, inner), rest.drop_first()))
                } else {
                    Err(Failure::BadToken { token: rest[0], rule: "factor"@, expect: "')'"@ })
                },
            },
            t => Err(Failure::BadToken { token: t, rule: "factor"@, expect: operand_expected() }),
        }
    }
}

/// A whole token sequence as one expression, with nothing left after it.
pub open spec fn parse_spec(ts: Seq<Tok>) -> Result<Tree, Failure> {
    match expr_spec(ts) {
        Err(e) => Err(e),
        Ok((t, rest)) => if rest.len() == 0 {
            Ok(t)
        } else {
            Err(Failure::BadToken { token: rest[0], rule: "expr"@, expect: "end of input"@ })
        },
    }
}

/// The tokens still to be read, with one token of lookahead.
pub struct TokenStream {
    /// The remaining tokens, last one first.
    rev: Vec<Token>,
}

impl TokenStream {
    /// The remaining tokens, in order.
    pub closed spec fn rest(&self) -> Seq<Tok> {
        Seq::new(self.rev.len() as nat, |i: int| self.rev@[self.rev.len() - 1 - i]@)
    }

    pub fn new(text: &str) -> (r: TokenStream)
        ensures
            r.rest() == tokenize_spec(text@),
    {
        let mut all = tokenize(text);
        let ghost whole = all@.map_values(|t: Token| t@);
        let mut rev: Vec<Token> = Vec::new();
        while all.len() > 0
            invariant
                all.len() + rev.len() == whole.len(),
                forall|k: int| 0 <= k < all.len() ==> all@[k]@ == whole[k],
                forall|k: int|
                    0 <= k < rev.len() ==> rev@[k]@ == whole[whole.len() - 1 - k],
            decreases all.len(),
        {
            let t = all.pop().unwrap();
            rev.push(t);
        }
        let r = TokenStream { rev };
        assert(r.rest() =~= whole);
        r
    }

    /// The next token, without reading it.
    pub fn peek(&self) -> (r: Option<&Token>)
        ensures
            r is None <==> self.rest().len() == 0,
            r is Some ==> r->0@ == self.rest()[0],
    {
        if self.rev.len() == 0 {
            None
        } else {
            Some(&self.rev[self.rev.len() - 1])
        }
    }

    /// Reads the next token.
    pub fn next(&mut self) -> (r: Option<Token>)
        ensures
            r is None <==> old(self).rest().len() == 0,
            r is Some ==> r->0@ == old(self).rest()[0],
            final(self).rest() == if old(self).rest().len() == 0 {
                old(self).rest()
            } else {
                old(self).rest().drop_first()
            },
    {
        let r = self.rev.pop();
        assert(self.rest() =~= if old(self).rest().len() == 0 {
            old(self).rest()
        } else {
            old(self).rest().drop_first()
        });
        r
    }
}

/// What a rule's result says of the tokens it read, against its model `m` on the tokens
/// before it: the same tree or failure, and on success the tokens left, at least one fewer.
pub open spec fn agrees(r: Result<ExprTree, Error>, m: Parsed, before: Seq<Tok>, after: Seq<Tok>) -> bool {
    match r {
        Ok(t) => m == Parsed::Ok((t@, after)) && after.len() < before.len(),
        Err(e) => m == Parsed::Err(e@),
    }
}

/// Parses the text as an expression.
///
/// Succeeds with the tree of the whole text where its tokens form one expression;
/// otherwise fails with the first rule that could not go on.
pub fn parse(text: &str) -> (r: Result<ExprTree, Error>)
    ensures
        match r {
            Ok(t) => parse_spec(tokenize_spec(text@)) == Ok::<Tree, Failure>(t@),
            Err(e) => parse_spec(tokenize_spec(text@)) == Err::<Tree, Failure>(e@),
        },
{
    let mut tokens = TokenStream::new(text);
    let tree = expr_rule(&mut tokens);
    match tree {
        Err(e) => Err(e),
        Ok(t) => match tokens.next() {
            None => Ok(t),
            Some(tok) => Err(Error::UnexpectedToken { token: tok, rule: "expr", expect: "end of input" }),
        },
    }
}

fn expr_rule(tokens: &mut TokenStream) -> (r: Result<ExprTree, Error>)
    ensures
        agrees(r, expr_spec(old(tokens).rest()), old(tokens).rest(), final(tokens).rest()),
    decreases old(tokens).rest().len(), 4nat,
{
    let ghost start = tokens.rest();
    let mut tree = match term_rule(tokens) {
        Ok(t) => t,
        Err(e) => return Err(e),
    };
    loop
        invariant
            start == old(tokens).rest(),
            tokens.rest().len() < start.len(),
            expr_spec(start) == expr_tail(tree@, tokens.rest()),
        decreases tokens.rest().len(),
    {
        let ghost before = tokens.rest();
        let plus = match tokens.peek() {
            Some(Token::Plus) => true,
            Some(Token::Minus) => false,
            _ => return Ok(tree),
        };
        let _ = tokens.next();
        let rhs = match term_rule(tokens) {
            Ok(t) => t,
            Err(e) => return Err(e),
        };
        tree = if plus {
            ExprTree::Add(Box::new(tree), Box::new(rhs))
        } else {
            ExprTree::Sub(Box::new(tree), Box::new(rhs))
        };
        assert(before[0] is Plus <==> plus);
    }
}

fn term_rule(tokens: &mut TokenStream) -> (r: Result<ExprTree, Error>)
    ensures
        agrees(r, term_spec(old(tokens).rest()), old(tokens).rest(), final(tokens).rest()),
    decreases old(tokens).rest().len(), 2nat,
{
    let ghost start = tokens.rest();
    let mut tree = match factor_rule(tokens) {
        Ok(t) => t,
        Err(e) => return Err(e),
    };
    loop
        invariant
            start == old(tokens).rest(),
            tokens.rest().len() < start.len(),
            term_spec(start) == term_tail(tree@, tokens.rest()),
        decreases tokens.rest().len(),
    {
        let ghost before = tokens.rest();
        let star = match tokens.peek() {
            Some(Token::Star) => true,
            Some(Token::Slash) => false,
            _ => return Ok(tree),
        };
        let _ = tokens.next();
        let rhs = match factor_rule(tokens) {
            Ok(t) => t,
            Err(e) => return Err(e),
        };
        tree = if star {
            ExprTree::Mul(Box::new(tree), Box::new(rhs))
        } else {
            ExprTree::Div(Box::new(tree), Box::new(rhs))
        };
        assert(before[0] is Star <==> star);
    }
}

fn factor_rule(tokens: &mut TokenStream) -> (r: Result<ExprTree, Error>)
    ensures
        agrees(r, factor_spec(old(tokens).rest()), old(tokens).rest(), final(tokens).rest()),
    decreases old(tokens).rest().len(), 0nat,
{
    let ghost ts = tokens.rest();
    let ghost body = if ts.len() > 0 && (ts[0] is Minus || ts[0] is Plus) {
        ts.drop_first()
    } else {
        ts
    };
    let tok = tokens.next();
    let (negate, tok) = match tok {
        Some(Token::Minus) => (true, tokens.next()),
        Some(Token::Plus) => (false, tokens.next()),
        _ => (false, tok),
    };
    assert(negate <==> ts.len() > 0 && ts[0] is Minus);
    assert(tok is None <==> body.len() == 0);
    assert(tok is Some ==> tok->0@ == body[0] && tokens.rest() == body.drop_first());
    let result = match tok {
        Some(Token::Number(n)) => ExprTree::Number(n),
        Some(Token::Symbol(name)) => ExprTree::Var(name),
        Some(Token::Open) => {
            let inner = match expr_rule(tokens) {
                Ok(t) => t,
                Err(e) => return Err(e),
            };
            match tokens.next() {
                Some(Token::Close) => inner,
                Some(tok) => {
                    return Err(Error::UnexpectedToken { token: tok, rule: "factor", expect: "')'" });
                },
                None => {
                    return Err(Error::UnexpectedEndOfInput { rule: "factor", expect: "')'" });
                },
            }
        },
        Some(tok) => {
            return Err(
                Error::UnexpectedToken {
                    token: tok,
                    rule: "factor",
                    expect: "number, variable, or '('",
                },
            );
        },
        None => {
            return Err(
                Error::UnexpectedEndOfInput { rule: "factor", expect: "number, variable, or '('" },
            );
        },
    };
    assert(factor_spec(ts) == Parsed::Ok((signed(negate, result@), tokens.rest())));
    if negate {
        Ok(ExprTree::Neg(Box::new(result)))
    } else {
        Ok(result)
    }
}

/// `ts` in parentheses.
pub open spec fn parens(ts: Seq<Tok>) -> Seq<Tok> {
    seq![Tok::Open] + ts + seq![Tok::Close]
}

/// Whether `t` is a binary operation.
pub open spec fn is_binary(t: Tree) -> bool {
    t is Add || t is Sub || t is Mul || t is Div
}

/// The tokens of `t` as an expression, written with the usual precedence and
/// left associativity, and with parentheses only where they are needed.
pub open spec fn show_expr(t: Tree) -> Seq<Tok>
    decreases t, 2nat,
{
    match t {
        Tree::Add(l, r) => show_expr(*l) + seq![Tok::Plus] + show_term(*r),
        Tree::Sub(l, r) => show_expr(*l) + seq![Tok::Minus] + show_term(*r),
        _ => show_term(t),
    }
}

/// The tokens of `t` as a term.
pub open spec fn show_term(t: Tree) -> Seq<Tok>
    decreases t, if t is Add || t is Sub {
        3nat
    } else {
        1nat
    },
{
    match t {
        Tree::Mul(l, r) => show_term(*l) + seq![Tok::Star] + show_factor(*r),
        Tree::Div(l, r) => show_term(*l) + seq![Tok::Slash] + show_factor(*r),
        Tree::Add(_, _) | Tree::Sub(_, _) => parens(show_expr(t)),
        _ => show_factor(t),
    }
}

/// The tokens of `t` as a factor.
pub open spec fn show_factor(t: Tree) -> Seq<Tok>
    decreases t, if is_binary(t) {
        3nat
    } else {
        0nat
    },
{
    match t {
        Tree::Number(n) => seq![Tok::Number(n)],
        Tree::Var(n) => seq![Tok::Symbol(n)],
        Tree::Neg(e) => seq![Tok::Minus] + if *e is Number || *e is Var {
            show_factor(*e)
        } else {
            parens(show_expr(*e))
        },
        _ => parens(show_expr(t)),
    }
}

/// A parenthesized expression followed by anything is read as a factor.
proof fn lemma_parens(t: Tree, rest: Seq<Tok>)
    requires
        expr_spec(show_expr(t) + (seq![Tok::Close] + rest)) == expr_tail(t, seq![Tok::Close] + rest),
    ensures
        factor_spec(parens(show_expr(t)) + rest) == Parsed::Ok((t, rest)),
        factor_spec(seq![Tok::Minus] + parens(show_expr(t)) + rest) == Parsed::Ok(
            (Tree::Neg(Box::new(t)), rest),
        ),
{
    let closed = seq![Tok::Close] + rest;
    assert(closed[0] == Tok::Close);
    assert(expr_tail(t, closed) == Parsed::Ok((t, closed)));
    let ts = parens(show_expr(t)) + rest;
    assert(ts[0] == Tok::Open);
    assert(ts.drop_first() =~= show_expr(t) + closed);
    assert(closed.drop_first() =~= rest);
    let ms = seq![Tok::Minus] + parens(show_expr(t)) + rest;
    assert(ms.drop_first() =~= ts);
}

/// A factor followed by anything is read back as itself.
proof fn lemma_read_factor(t: Tree, rest: Seq<Tok>)
    ensures
        factor_spec(show_factor(t) + rest) == Parsed::Ok((t, rest)),
    decreases t, if is_binary(t) {
        3nat
    } else {
        0nat
    },
{
    let ts = show_factor(t) + rest;
    match t {
        Tree::Number(n) => {
            assert(ts.drop_first() =~= rest);
        },
        Tree::Var(n) => {
            assert(ts.drop_first() =~= rest);
        },
        Tree::Neg(e) => {
            if *e is Number || *e is Var {
                assert(ts.drop_first() =~= show_factor(*e) + rest);
                assert(ts.drop_first().drop_first() =~= rest);
            } else {
                lemma_read_expr(*e, seq![Tok::Close] + rest);
                lemma_parens(*e, rest);
                assert(ts =~= seq![Tok::Minus] + parens(show_expr(*e)) + rest);
            }
        },
        _ => {
            lemma_read_expr(t, seq![Tok::Close] + rest);
            lemma_parens(t, rest);
        },
    }
}

/// One more `*` or `/` and a factor, in the tail of `term`.
proof fn lemma_term_step(acc: Tree, op: Tok, r: Tree, rest: Seq<Tok>)
    requires
        op is Star || op is Slash,
    ensures
        term_tail(acc, seq![op] + show_factor(r) + rest) == term_tail(
            if op is Star {
                Tree::Mul(Box::new(acc), Box::new(r))
            } else {
                Tree::Div(Box::new(acc), Box::new(r))
            },
            rest,
        ),
    decreases r, 4nat,
{
    let more = seq![op] + show_factor(r) + rest;
    lemma_read_factor(r, rest);
    assert(more.drop_first() =~= show_factor(r) + rest);
    assert(more[0] == op);
}

/// One more `+` or `-` and a term, in the tail of `expr`.
proof fn lemma_expr_step(acc: Tree, op: Tok, r: Tree, rest: Seq<Tok>)
    requires
        op is Plus || op is Minus,
        rest.len() > 0 ==> !(rest[0] is Star || rest[0] is Slash),
    ensures
        expr_tail(acc, seq![op] + show_term(r) + rest) == expr_tail(
            if op is Plus {
                Tree::Add(Box::new(acc), Box::new(r))
            } else {
                Tree::Sub(Box::new(acc), Box::new(r))
            },
            rest,
        ),
    decreases r, 4nat,
{
    let more = seq![op] + show_term(r) + rest;
    lemma_read_term(r, rest);
    assert(term_tail(r, rest) == Parsed::Ok((r, rest)));
    assert(more.drop_first() =~= show_term(r) + rest);
    assert(more[0] == op);
}

/// A term followed by anything is read as itself, then the tail of `term` goes on.
proof fn lemma_read_term(t: Tree, rest: Seq<Tok>)
    ensures
        term_spec(show_term(t) + rest) == term_tail(t, rest),
    decreases t, if t is Add || t is Sub {
        3nat
    } else {
        1nat
    },
{
    match t {
        Tree::Mul(l, r) => {
            let more = seq![Tok::Star] + show_factor(*r) + rest;
            lemma_read_term(*l, more);
            assert(show_term(t) + rest =~= show_term(*l) + more);
            lemma_term_step(*l, Tok::Star, *r, rest);
        },
        Tree::Div(l, r) => {
            let more = seq![Tok::Slash] + show_factor(*r) + rest;
            lemma_read_term(*l, more);
            assert(show_term(t) + rest =~= show_term(*l) + more);
            lemma_term_step(*l, Tok::Slash, *r, rest);
        },
        Tree::Add(_, _) | Tree::Sub(_, _) => {
            lemma_read_expr(t, seq![Tok::Close] + rest);
            lemma_parens(t, rest);
        },
        _ => {
            lemma_read_factor(t, rest);
        },
    }
}

/// An expression followed by anything but `*` or `/` is read as itself, then the tail of
/// `expr` goes on.
proof fn lemma_read_expr(t: Tree, rest: Seq<Tok>)
    requires
        rest.len() > 0 ==> !(rest[0] is Star || rest[0] is Slash),
    ensures
        expr_spec(show_expr(t) + rest) == expr_tail(t, rest),
    decreases t, 2nat,
{
    match t {
        Tree::Add(l, r) => {
            let more = seq![Tok::Plus] + show_term(*r) + rest;
            lemma_read_expr(*l, more);
            assert(show_expr(t) + rest =~= show_expr(*l) + more);
            lemma_expr_step(*l, Tok::Plus, *r, rest);
        },
        Tree::Sub(l, r) => {
            let more = seq![Tok::Minus] + show_term(*r) + rest;
            lemma_read_expr(*l, more);
            assert(show_expr(t) + rest =~= show_expr(*l) + more);
            lemma_expr_step(*l, Tok::Minus, *r, rest);
        },
        _ => {
            lemma_read_term(t, rest);
        },
    }
}

/// Precedence and associativity: the tokens of any tree, written with the usual
/// precedence (`*` and `/` over `+` and `-`), left associativity and only the
/// parentheses needed, parse back to that same tree.
pub proof fn law_precedence(t: Tree)
    ensures
        parse_spec(show_expr(t)) == Ok::<Tree, Failure>(t),
{
    lemma_read_expr(t, seq![]);
    assert(show_expr(t) + seq![] =~= show_expr(t));
}

} // verus!
