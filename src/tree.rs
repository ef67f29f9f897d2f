//! Expression trees, and the variables that they read.
use vstd::prelude::*;
use vstd::string::StringExecFns;

verus! {

/// Failure of an evaluation.
#[derive(Debug, PartialEq)]
pub enum Error {
    /// The variable of this name has no value.
    NoValue(String),
}

/// An expression tree. A number keeps the text of its literal.
#[derive(Debug, PartialEq)]
pub enum ExprTree {
    Var(String),
    Number(String),
    Neg(Box<ExprTree>),
    Add(Box<ExprTree>, Box<ExprTree>),
    Sub(Box<ExprTree>, Box<ExprTree>),
    Mul(Box<ExprTree>, Box<ExprTree>),
    Div(Box<ExprTree>, Box<ExprTree>),
}

/// The mathematical model of an expression tree.
pub enum Tree {
    Var(Seq<char>),
    Number(Seq<char>),
    Neg(Box<Tree>),
    Add(Box<Tree>, Box<Tree>),
    Sub(Box<Tree>, Box<Tree>),
    Mul(Box<Tree>, Box<Tree>),
    Div(Box<Tree>, Box<Tree>),
}

impl View for ExprTree {
    type V = Tree;

    open spec fn view(&self) -> Tree
        decreases self,
    {
        match self {
            ExprTree::Var(n) => Tree::Var(n@),
            ExprTree::Number(s) => Tree::Number(s@),
            ExprTree::Neg(e) => Tree::Neg(Box::new((**e).view())),
            ExprTree::Add(l, r) => Tree::Add(Box::new((**l).view()), Box::new((**r).view())),
            ExprTree::Sub(l, r) => Tree::Sub(Box::new((**l).view()), Box::new((**r).view())),
            ExprTree::Mul(l, r) => Tree::Mul(Box::new((**l).view()), Box::new((**r).view())),
            ExprTree::Div(l, r) => Tree::Div(Box::new((**l).view()), Box::new((**r).view())),
        }
    }
}

/// The names that have a value.
pub open spec fn bound_names(names: Seq<String>) -> Set<Seq<char>> {
    names.map_values(|n: String| n@).to_set()
}

/// The first variable of `t`, from left to right, whose name is not in `names`.
pub open spec fn first_unbound(t: Tree, names: Set<Seq<char>>) -> Option<Seq<char>>
    decreases t,
{
    match t {
        Tree::Var(n) => if names.contains(n) {
            None
        } else {
            Some(n)
        },
        Tree::Number(_) => None,
        Tree::Neg(e) => first_unbound(*e, names),
        Tree::Add(l, r) | Tree::Sub(l, r) | Tree::Mul(l, r) | Tree::Div(l, r) => match first_unbound(
            *l,
            names,
        ) {
            Some(n) => Some(n),
            None => first_unbound(*r, names),
        },
    }
}

/// Whether `name` is among `names`.
fn has_name(names: &Vec<String>, name: &String) -> (r: bool)
    ensures
        r == bound_names(names@).contains(name@),
{
    let mut i: usize = 0;
    while i < names.len()
        invariant
            i <= names.len(),
            forall|k: int| 0 <= k < i ==> names@[k]@ != name@,
        decreases names.len() - i,
    {
        if names[i] == *name {
            assert(names@.map_values(|n: String| n@)[i as int] == name@);
            return true;
        }
        i = i + 1;
    }
    assert(!names@.map_values(|n: String| n@).contains(name@));
    false
}

/// The message for a variable `n` without a value.
pub open spec fn unbound_message(n: Seq<char>) -> Seq<char> {
    "variable '"@ + n + "' has no value"@
}

impl Error {
    /// The message that describes the failure.
    pub fn message(&self) -> (r: String)
        ensures
            r@ == match self {
                Error::NoValue(n) => unbound_message(n@),
            },
    {
        match self {
            Error::NoValue(n) => {
                let mut m = String::from_str("variable '");
                m.append(n.as_str());
                m.append("' has no value");
                m
            },
        }
    }
}

impl ExprTree {
    /// Checks, from left to right, that every variable of the tree is among `names`:
    /// fails on the first one that is not, as evaluating the tree would.
    pub fn check(&self, names: &Vec<String>) -> (r: Result<(), Error>)
        ensures
            match r {
                Ok(()) => first_unbound(self@, bound_names(names@)) is None,
                Err(Error::NoValue(n)) => first_unbound(self@, bound_names(names@)) == Some(n@),
            },
        decreases self,
    {
        match self {
            ExprTree::Var(n) => {
                if has_name(names, n) {
                    Ok(())
                } else {
                    Err(Error::NoValue(n.clone()))
                }
            },
            ExprTree::Number(_) => Ok(()),
            ExprTree::Neg(e) => e.check(names),
            ExprTree::Add(l, r) | ExprTree::Sub(l, r) | ExprTree::Mul(l, r) | ExprTree::Div(l, r) => {
                match l.check(names) {
                    Ok(()) => r.check(names),
                    Err(e) => Err(e),
                }
            },
        }
    }
}

} // verus!
