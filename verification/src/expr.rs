//! Arithmetic trees over doubles.
//!
//! A tree is a number or an operation on two trees. Its value is computed
//! by the host, one operation at a time, through the journal.

use crate::host::{Journal, JournalView, Request, RequestView};
use std::rc::Rc;
use vstd::prelude::*;

verus! {

/// The four operations on two doubles.
#[derive(Debug, Clone, Copy, PartialEq, Eq, Structural)]
pub enum Op {
    Add,
    Sub,
    Mul,
    Div,
}

/// An arithmetic tree.
pub enum Expr {
    /// An operation on the values of two trees, the left one first.
    Binary(Op, Rc<Expr>, Rc<Expr>),
    /// A double, held as its IEEE 754 bit pattern.
    Numeric(u64),
}

/// A value that rests on the host's replies, or the request that has no
/// reply yet, and the journal after the replies were read.
pub struct Valued {
    pub value: Result<u64, RequestView>,
    pub journal: JournalView,
}

/// What a computation came to, with the journal that it left.
pub open spec fn valued(r: Result<u64, Request>, journal: Journal) -> Valued {
    Valued {
        value: match r {
            Ok(bits) => Ok(bits),
            Err(request) => Err(request@),
        },
        journal: journal@,
    }
}

impl Expr {
    /// The value of the tree: that of a number is the number; that of an
    /// operation is what the host replies for the values of the left and
    /// the right tree, computed in this order.
    pub open spec fn value(self, journal: JournalView) -> Valued
        decreases self,
    {
        match self {
            Expr::Numeric(bits) => Valued { value: Ok(bits), journal },
            Expr::Binary(op, lhs, rhs) => {
                let left = lhs.value(journal);
                match left.value {
                    Err(_) => left,
                    Ok(a) => {
                        let right = rhs.value(left.journal);
                        match right.value {
                            Err(_) => right,
                            Ok(b) => match right.journal.number() {
                                Some(bits) => Valued {
                                    value: Ok(bits),
                                    journal: right.journal.advanced(),
                                },
                                None => Valued {
                                    value: Err(RequestView::Arith(op, a, b)),
                                    journal: right.journal,
                                },
                            },
                        }
                    },
                }
            },
        }
    }

    /// The tree for `op` on `lhs` and `rhs`.
    pub fn binary(op: Op, lhs: Rc<Expr>, rhs: Rc<Expr>) -> (e: Rc<Expr>)
        ensures
            *e == Expr::Binary(op, lhs, rhs),
    {
        Rc::new(Expr::Binary(op, lhs, rhs))
    }

    /// The tree for the number whose bit pattern is `n`.
    pub fn numeric(n: u64) -> (e: Rc<Expr>)
        ensures
            *e == Expr::Numeric(n),
    {
        Rc::new(Expr::Numeric(n))
    }

    /// Computes the value of the tree, reading the host's replies from
    /// `journal`: the bit pattern, or the request that the host has to
    /// answer first.
    pub fn eval(&self, journal: &mut Journal) -> (r: Result<u64, Request>)
        ensures
            valued(r, *final(journal)) == self.value(old(journal)@),
        decreases self,
    {
        match self {
            Expr::Numeric(bits) => Ok(*bits),
            Expr::Binary(op, lhs, rhs) => {
                let a = match lhs.eval(journal) {
                    Ok(a) => a,
                    Err(request) => {
                        return Err(request);
                    },
                };
                let b = match rhs.eval(journal) {
                    Ok(b) => b,
                    Err(request) => {
                        return Err(request);
                    },
                };
                journal.number(Request::Arith(*op, a, b))
            },
        }
    }
}

/// A tree that may be missing.
pub struct ExprTree {
    pub root: Option<Rc<Expr>>,
}

impl ExprTree {
    /// No tree.
    pub fn new() -> (tree: ExprTree)
        ensures
            tree.root is None,
    {
        ExprTree { root: None }
    }

    /// The tree `expr`.
    pub fn from_expr(expr: Rc<Expr>) -> (tree: ExprTree)
        ensures
            tree.root == Some(expr),
    {
        ExprTree { root: Some(expr) }
    }

    /// Computes the value of the tree, if there is a tree: `None` without
    /// one, else what `Expr::eval` gives.
    pub fn eval(&self, journal: &mut Journal) -> (r: Option<Result<u64, Request>>)
        ensures
            match self.root {
                None => r is None && final(journal)@ == old(journal)@,
                Some(expr) => r is Some && valued(r->Some_0, *final(journal)) == expr.value(
                    old(journal)@,
                ),
            },
    {
        match &self.root {
            None => None,
            Some(expr) => Some(expr.eval(journal)),
        }
    }
}

} // verus!
