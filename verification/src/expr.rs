//! Expressions as the parser hands them on: trees whose leaves are numeric
//! literals and the values of constants and variables.

use vstd::prelude::*;

verus! {

/// The operators that take two operands.
#[derive(Clone, Copy, Debug, PartialEq, Eq, Structural)]
pub enum BinaryOp {
    Add,
    Sub,
    Mul,
    Div,
    Mod,
    Pow,
}

/// The mathematical content of an [`Expr`].
pub enum SpecExpr {
    Literal(Seq<char>),
    Value(u64),
    Negate(Box<SpecExpr>),
    Binary(BinaryOp, Box<SpecExpr>, Box<SpecExpr>),
    Call(Seq<char>, Seq<SpecExpr>),
}

/// An expression that is ready to be evaluated: every name in it is resolved
/// and every call has a number of arguments that its function takes.
#[derive(Debug, PartialEq, Eq)]
pub enum Expr {
    /// A numeric literal, by its text: digits with an optional fraction and an
    /// optional exponent.
    Literal(String),
    /// The value of a constant or of a variable: the 64 bits of a double.
    Value(u64),
    /// The operand with its sign changed.
    Negate(Box<Expr>),
    /// An operator applied to a left and a right operand.
    Binary(BinaryOp, Box<Expr>, Box<Expr>),
    /// The function of this name applied to the arguments.
    Call(String, Vec<Expr>),
}

impl Expr {
    /// The tree as a mathematical value.
    pub open spec fn model(&self) -> SpecExpr
        decreases self,
    {
        match self {
            Expr::Literal(text) => SpecExpr::Literal(text@),
            Expr::Value(bits) => SpecExpr::Value(*bits),
            Expr::Negate(operand) => SpecExpr::Negate(Box::new(operand.model())),
            Expr::Binary(op, left, right) => SpecExpr::Binary(
                *op,
                Box::new(left.model()),
                Box::new(right.model()),
            ),
            Expr::Call(name, args) => SpecExpr::Call(
                name@,
                Seq::new(
                    args.len() as nat,
                    |i: int|
                        if 0 <= i < args.len() {
                            args[i].model()
                        } else {
                            SpecExpr::Value(0)
                        },
                ),
            ),
        }
    }
}

impl View for Expr {
    type V = SpecExpr;

    open spec fn view(&self) -> SpecExpr {
        self.model()
    }
}

/// The mathematical contents of a list of expressions.
pub open spec fn views(exprs: Seq<Expr>) -> Seq<SpecExpr> {
    Seq::new(exprs.len(), |i: int| exprs[i]@)
}

/// A call's content is its name and the contents of its arguments.
pub proof fn lemma_call_view(name: String, args: Vec<Expr>)
    ensures
        Expr::Call(name, args)@ == SpecExpr::Call(name@, views(args@)),
{
    assert(Expr::Call(name, args)@->Call_1 =~= views(args@));
}

/// The mathematical content of a [`PResult`].
pub struct SpecResult {
    pub var: Option<Seq<char>>,
    pub val: SpecExpr,
}

/// What a line asks for: an expression to evaluate and, for an assignment,
/// the variable that is to receive its value.
#[derive(Debug)]
pub struct PResult {
    pub var: Option<String>,
    pub val: Expr,
}

impl View for PResult {
    type V = SpecResult;

    open spec fn view(&self) -> SpecResult {
        SpecResult {
            var: match self.var {
                Some(name) => Some(name@),
                None => None,
            },
            val: self.val@,
        }
    }
}

} // verus!
