//! What the calculator knows of a built-in function: how many arguments it
//! takes and how its use is described.

use vstd::prelude::*;

verus! {

/// The number of arguments that a function takes.
#[derive(Clone, Copy, Debug, PartialEq, Eq, Structural)]
pub enum Arity {
    /// Exactly this many.
    Exact(usize),
    /// This many or more.
    AtLeast(usize),
}

impl Arity {
    /// A call with `n` arguments is in order.
    pub open spec fn admits(self, n: nat) -> bool {
        match self {
            Arity::Exact(k) => n == k,
            Arity::AtLeast(k) => n >= k,
        }
    }

    /// Whether a call with `n` arguments is in order.
    pub fn accepts(&self, n: usize) -> (r: bool)
        ensures
            r == self.admits(n as nat),
    {
        match self {
            Arity::Exact(k) => n == *k,
            Arity::AtLeast(k) => n >= *k,
        }
    }
}

/// The mathematical content of a [`Function`].
pub struct Signature {
    pub arity: Arity,
    pub usage: Seq<char>,
}

/// An entry of the table of functions. The entry's name is its key in the
/// table; what the function computes is kept by whoever evaluates calls.
#[derive(Debug)]
pub struct Function {
    pub arity: Arity,
    pub desc: String,
}

impl View for Function {
    type V = Signature;

    open spec fn view(&self) -> Signature {
        Signature { arity: self.arity, usage: self.desc@ }
    }
}

/// The mathematical content of a table of functions.
pub open spec fn signatures(table: Map<Seq<char>, Function>) -> Map<Seq<char>, Signature> {
    table.map_values(|f: Function| f@)
}

} // verus!
