//! The ways in which a line can fail, and the message of each.

use crate::function::Arity;
use crate::text::{decimal, push_decimal};
use vstd::prelude::*;
use vstd::string::StringExecFns;

verus! {

/// Why a line was rejected.
pub enum Fault {
    /// The tokens do not follow the grammar.
    InvalidSyntax,
    /// A numeric token is no number.
    InvalidNumber,
    /// A name that is neither a constant nor a variable.
    UnknownVariable(Seq<char>),
    /// A call of a name that is no function.
    UnknownFunction(Seq<char>),
    /// A call with a number of arguments that the function does not take.
    WrongArity(Seq<char>, Arity),
    /// An assignment to `ans`, to a constant or to a function.
    InvalidAssignment,
}

impl Fault {
    /// The message that reports the fault.
    pub open spec fn text(self) -> Seq<char> {
        match self {
            Fault::InvalidSyntax => "invalid syntax"@,
            Fault::InvalidNumber => "invalid float literal"@,
            Fault::UnknownVariable(name) => "unknown variable: "@ + name,
            Fault::UnknownFunction(name) => "unknown function: "@ + name,
            Fault::WrongArity(name, arity) => match arity {
                Arity::Exact(n) => name + " requires "@ + decimal(n as nat) + " arguments"@,
                Arity::AtLeast(n) => name + " requires "@ + decimal(n as nat)
                    + " or more arguments"@,
            },
            Fault::InvalidAssignment => "cannot assign to built-in vars, constants or functions"@,
        }
    }
}

/// The message of [`Fault::InvalidSyntax`].
pub fn invalid_syntax() -> (r: String)
    ensures
        r@ == Fault::InvalidSyntax.text(),
{
    "invalid syntax".to_owned()
}

/// The message of [`Fault::InvalidNumber`].
pub fn invalid_number() -> (r: String)
    ensures
        r@ == Fault::InvalidNumber.text(),
{
    "invalid float literal".to_owned()
}

/// The message of [`Fault::UnknownVariable`].
pub fn unknown_variable(name: &str) -> (r: String)
    ensures
        r@ == Fault::UnknownVariable(name@).text(),
{
    "unknown variable: ".to_owned().concat(name)
}

/// The message of [`Fault::UnknownFunction`].
pub fn unknown_function(name: &str) -> (r: String)
    ensures
        r@ == Fault::UnknownFunction(name@).text(),
{
    "unknown function: ".to_owned().concat(name)
}

/// The message of [`Fault::WrongArity`].
pub fn wrong_arity(name: &str, arity: Arity) -> (r: String)
    ensures
        r@ == Fault::WrongArity(name@, arity).text(),
{
    let mut r = name.to_owned();
    r.append(" requires ");
    match arity {
        Arity::Exact(n) => {
            push_decimal(&mut r, n);
            r.append(" arguments");
        },
        Arity::AtLeast(n) => {
            push_decimal(&mut r, n);
            r.append(" or more arguments");
        },
    }
    r
}

/// The message of [`Fault::InvalidAssignment`].
pub fn invalid_assignment() -> (r: String)
    ensures
        r@ == Fault::InvalidAssignment.text(),
{
    "cannot assign to built-in vars, constants or functions".to_owned()
}

} // verus!
