//! The grammar of a line, and what each of its rules makes of a sequence of
//! tokens.
//!
//! ```text
//! Line    = [ Identifier "=" ] Exp
//! Exp     = Addend { ("+" | "-") Addend }
//! Addend  = Factor { ("*" | "/" | "%") Factor }
//! Factor  = Power [ "^" Factor ]
//! Power   = Literal | Call | "(" Exp ")" | ("+" | "-") Power
//! Call    = Identifier [ "(" [ Exp { "," Exp } ] ")" ]
//! Literal = Integer | Float | Exponent
//! ```
//!
//! A rule is a spec function from the tokens that are left of the line to the
//! expression that it reads and the tokens that it leaves, or to the fault on
//! which it stops. The rules read from left to right and never go back, so the
//! first fault in the line is the one that is reported.
//!
//! The rules call one another, and they end because the tokens get fewer.
//! Where a rule goes on behind another, it first asks whether the other left
//! fewer tokens than it found. It always did: see [`lemma_rules_take_tokens`].

use crate::expr::{BinaryOp, SpecExpr, SpecResult};
use crate::fault::Fault;
use crate::function::Signature;
use crate::scanner::{head, peek, rest, skip, CharClass};
use crate::token::{SpecToken, TokenType};
use vstd::prelude::*;

verus! {

/// The rules of the grammar.
#[derive(Clone, Copy, Debug, PartialEq, Eq, Hash, Structural)]
pub enum NonTerminal {
    Op0,
    Op1,
    Op2,
    Line,
    Exp,
    Addend,
    Factor,
    Power,
    Call,
    ExpList,
    Literal,
}

/// The kinds of token with which a sentence of the rule `nt` can begin.
pub open spec fn first(nt: NonTerminal) -> Set<TokenType> {
    match nt {
        NonTerminal::Literal => set![TokenType::Integer, TokenType::Float, TokenType::Exponent],
        NonTerminal::Op0 => set![TokenType::Add, TokenType::Sub],
        NonTerminal::Op1 => set![TokenType::Mul, TokenType::Div, TokenType::Mod],
        NonTerminal::Op2 => set![TokenType::Pow],
        NonTerminal::Call => set![TokenType::Identifier],
        _ => set![
            TokenType::Integer,
            TokenType::Float,
            TokenType::Exponent,
            TokenType::Identifier,
            TokenType::OpenParen,
            TokenType::Add,
            TokenType::Sub,
        ],
    }
}

/// The names that a line may use.
pub struct Env {
    /// The functions, by name.
    pub functions: Map<Seq<char>, Signature>,
    /// The values of the constants, by name.
    pub constants: Map<Seq<char>, u64>,
    /// The values of the variables, by name.
    pub memory: Map<Seq<char>, u64>,
}

/// What a rule makes of the tokens: the expression read and the tokens left,
/// or the fault.
pub type Parsed = Result<(SpecExpr, Seq<SpecToken>), Fault>;

/// `text` is a number: digits with an optional fraction, of which at least
/// one digit stands before or behind the point, and an optional exponent of
/// an `e`, an optional sign and at least one digit.
pub open spec fn is_number(text: Seq<char>) -> bool {
    let point = skip(text, 0, CharClass::Digit);
    let mantissa = if peek(text, point) == '.' {
        skip(text, point + 1, CharClass::Digit)
    } else {
        point
    };
    let digits = if peek(text, point) == '.' {
        mantissa - 1
    } else {
        mantissa
    };
    let exponent = if peek(text, mantissa + 1) == '+' || peek(text, mantissa + 1) == '-' {
        mantissa + 2
    } else {
        mantissa + 1
    };
    &&& digits >= 1
    &&& mantissa == text.len() || (peek(text, mantissa) == 'e' && exponent < text.len() && skip(
        text,
        exponent,
        CharClass::Digit,
    ) == text.len())
}

/// The operator that a token of an operator's kind stands for.
pub open spec fn operator(kind: TokenType) -> BinaryOp {
    match kind {
        TokenType::Add => BinaryOp::Add,
        TokenType::Sub => BinaryOp::Sub,
        TokenType::Mul => BinaryOp::Mul,
        TokenType::Div => BinaryOp::Div,
        TokenType::Mod => BinaryOp::Mod,
        _ => BinaryOp::Pow,
    }
}

/// `left` and `right` joined by the operator of kind `kind`.
pub open spec fn binary(kind: TokenType, left: SpecExpr, right: SpecExpr) -> SpecExpr {
    SpecExpr::Binary(operator(kind), Box::new(left), Box::new(right))
}

/// `operand` under the sign of kind `kind`: a minus changes it, a plus does not.
pub open spec fn signed(kind: TokenType, operand: SpecExpr) -> SpecExpr {
    if kind == TokenType::Sub {
        SpecExpr::Negate(Box::new(operand))
    } else {
        operand
    }
}

/// `name` may stand on the left of an assignment: it is not `ans`, no
/// constant and no function.
pub open spec fn assignable(name: Seq<char>, env: Env) -> bool {
    &&& name != "ans"@
    &&& !env.constants.contains_key(name)
    &&& !env.functions.contains_key(name)
}

/// A name that stands alone: a constant first, else a variable.
pub open spec fn resolve(name: Seq<char>, env: Env) -> Result<SpecExpr, Fault> {
    if env.constants.contains_key(name) {
        Ok(SpecExpr::Value(env.constants[name]))
    } else if env.memory.contains_key(name) {
        Ok(SpecExpr::Value(env.memory[name]))
    } else {
        Err(Fault::UnknownVariable(name))
    }
}

/// A call of `name` with the arguments `args`: the function must exist and
/// take that many.
pub open spec fn apply(name: Seq<char>, args: Seq<SpecExpr>, env: Env) -> Result<SpecExpr, Fault> {
    if !env.functions.contains_key(name) {
        Err(Fault::UnknownFunction(name))
    } else if !env.functions[name].arity.admits(args.len()) {
        Err(Fault::WrongArity(name, env.functions[name].arity))
    } else {
        Ok(SpecExpr::Call(name, args))
    }
}

/// `Literal = Integer | Float | Exponent`
pub open spec fn literal(s: Seq<SpecToken>) -> Parsed {
    if !first(NonTerminal::Literal).contains(head(s).token_type) {
        Err(Fault::InvalidSyntax)
    } else if !is_number(head(s).lexeme) {
        Err(Fault::InvalidNumber)
    } else {
        Ok((SpecExpr::Literal(head(s).lexeme), rest(s)))
    }
}

/// `Call = Identifier [ "(" [ Exp { "," Exp } ] ")" ]`
pub open spec fn call(s: Seq<SpecToken>, env: Env) -> Parsed
    decreases s.len(), 0nat,
{
    let name = head(s).lexeme;
    if head(s).token_type != TokenType::Identifier {
        Err(Fault::InvalidSyntax)
    } else if head(rest(s)).token_type == TokenType::OpenParen {
        match exp_list(rest(rest(s)), env) {
            Ok((args, r)) => if head(r).token_type != TokenType::CloseParen {
                Err(Fault::InvalidSyntax)
            } else {
                match apply(name, args, env) {
                    Ok(e) => Ok((e, rest(r))),
                    Err(f) => Err(f),
                }
            },
            Err(f) => Err(f),
        }
    } else {
        match resolve(name, env) {
            Ok(e) => Ok((e, rest(s))),
            Err(f) => Err(f),
        }
    }
}

/// `Power = Literal | Call | "(" Exp ")" | ("+" | "-") Power`
pub open spec fn power(s: Seq<SpecToken>, env: Env) -> Parsed
    decreases s.len(), 1nat,
{
    let kind = head(s).token_type;
    if first(NonTerminal::Literal).contains(kind) {
        literal(s)
    } else if first(NonTerminal::Call).contains(kind) {
        call(s, env)
    } else if kind == TokenType::OpenParen {
        match exp(rest(s), env) {
            Ok((e, r)) => if head(r).token_type == TokenType::CloseParen {
                Ok((e, rest(r)))
            } else {
                Err(Fault::InvalidSyntax)
            },
            Err(f) => Err(f),
        }
    } else if first(NonTerminal::Op0).contains(kind) {
        match power(rest(s), env) {
            Ok((e, r)) => Ok((signed(kind, e), r)),
            Err(f) => Err(f),
        }
    } else {
        Err(Fault::InvalidSyntax)
    }
}

/// `Factor = Power [ "^" Factor ]`: the operator groups to the right.
pub open spec fn factor(s: Seq<SpecToken>, env: Env) -> Parsed
    decreases s.len(), 2nat,
{
    match power(s, env) {
        Ok((base, r)) => if r.len() < s.len() && first(NonTerminal::Op2).contains(
            head(r).token_type,
        ) {
            match factor(rest(r), env) {
                Ok((e, r2)) => Ok((binary(head(r).token_type, base, e), r2)),
                Err(f) => Err(f),
            }
        } else {
            Ok((base, r))
        },
        Err(f) => Err(f),
    }
}

/// `{ ("*" | "/" | "%") Factor }` behind the operand `left`: the operators
/// group to the left.
pub open spec fn addend_rest(left: SpecExpr, s: Seq<SpecToken>, env: Env) -> Parsed
    decreases s.len(), 0nat,
{
    if first(NonTerminal::Op1).contains(head(s).token_type) {
        match factor(rest(s), env) {
            Ok((right, r)) => if r.len() < s.len() {
                addend_rest(binary(head(s).token_type, left, right), r, env)
            } else {
                Ok((binary(head(s).token_type, left, right), r))
            },
            Err(f) => Err(f),
        }
    } else {
        Ok((left, s))
    }
}

/// `Addend = Factor { ("*" | "/" | "%") Factor }`
pub open spec fn addend(s: Seq<SpecToken>, env: Env) -> Parsed
    decreases s.len(), 3nat,
{
    match factor(s, env) {
        Ok((left, r)) => if r.len() < s.len() {
            addend_rest(left, r, env)
        } else {
            Ok((left, r))
        },
        Err(f) => Err(f),
    }
}

/// `{ ("+" | "-") Addend }` behind the operand `left`: the operators group to
/// the left.
pub open spec fn exp_rest(left: SpecExpr, s: Seq<SpecToken>, env: Env) -> Parsed
    decreases s.len(), 0nat,
{
    if first(NonTerminal::Op0).contains(head(s).token_type) {
        match addend(rest(s), env) {
            Ok((right, r)) => if r.len() < s.len() {
                exp_rest(binary(head(s).token_type, left, right), r, env)
            } else {
                Ok((binary(head(s).token_type, left, right), r))
            },
            Err(f) => Err(f),
        }
    } else {
        Ok((left, s))
    }
}

/// `Exp = Addend { ("+" | "-") Addend }`
pub open spec fn exp(s: Seq<SpecToken>, env: Env) -> Parsed
    decreases s.len(), 4nat,
{
    match addend(s, env) {
        Ok((left, r)) => if r.len() < s.len() {
            exp_rest(left, r, env)
        } else {
            Ok((left, r))
        },
        Err(f) => Err(f),
    }
}

/// `{ "," Exp }` behind the arguments `args`.
pub open spec fn exp_list_rest(args: Seq<SpecExpr>, s: Seq<SpecToken>, env: Env) -> Result<
    (Seq<SpecExpr>, Seq<SpecToken>),
    Fault,
>
    decreases s.len(), 0nat,
{
    if head(s).token_type == TokenType::Comma {
        match exp(rest(s), env) {
            Ok((e, r)) => if r.len() < s.len() {
                exp_list_rest(args.push(e), r, env)
            } else {
                Ok((args.push(e), r))
            },
            Err(f) => Err(f),
        }
    } else {
        Ok((args, s))
    }
}

/// `[ Exp { "," Exp } ]`: the arguments of a call.
pub open spec fn exp_list(s: Seq<SpecToken>, env: Env) -> Result<
    (Seq<SpecExpr>, Seq<SpecToken>),
    Fault,
>
    decreases s.len(), 5nat,
{
    if first(NonTerminal::Exp).contains(head(s).token_type) {
        match exp(s, env) {
            Ok((e, r)) => if r.len() < s.len() {
                exp_list_rest(seq![e], r, env)
            } else {
                Ok((seq![e], r))
            },
            Err(f) => Err(f),
        }
    } else {
        Ok((Seq::empty(), s))
    }
}

/// `[ Identifier "=" ] Exp`: an expression, which a name and an equals sign
/// before it make an assignment. The name is tested before the expression is
/// read.
pub open spec fn input(s: Seq<SpecToken>, env: Env) -> Result<
    (SpecResult, Seq<SpecToken>),
    Fault,
> {
    if head(s).token_type == TokenType::Identifier && head(rest(s)).token_type
        == TokenType::Equal {
        if !assignable(head(s).lexeme, env) {
            Err(Fault::InvalidAssignment)
        } else {
            match exp(rest(rest(s)), env) {
                Ok((e, r)) => Ok((SpecResult { var: Some(head(s).lexeme), val: e }, r)),
                Err(f) => Err(f),
            }
        }
    } else {
        match exp(s, env) {
            Ok((e, r)) => Ok((SpecResult { var: None, val: e }, r)),
            Err(f) => Err(f),
        }
    }
}

/// A whole line: nothing, or one `Line` of the grammar with nothing behind it.
pub open spec fn line(s: Seq<SpecToken>, env: Env) -> Result<Option<SpecResult>, Fault> {
    if first(NonTerminal::Line).contains(head(s).token_type) {
        match input(s, env) {
            Ok((result, r)) => if r.len() == 0 {
                Ok(Some(result))
            } else {
                Err(Fault::InvalidSyntax)
            },
            Err(f) => Err(f),
        }
    } else if s.len() == 0 {
        Ok(None)
    } else {
        Err(Fault::InvalidSyntax)
    }
}

/// A rule that reads an expression takes at least one token, and no rule
/// leaves more tokens than it found. So where a rule asks whether the rule
/// before it left fewer tokens, the answer is always yes: the question is
/// there to show that the rules end, and changes nothing in what they read.
pub proof fn lemma_rules_take_tokens(s: Seq<SpecToken>, env: Env)
    ensures
        call(s, env) matches Ok((_, r)) ==> r.len() < s.len(),
        power(s, env) matches Ok((_, r)) ==> r.len() < s.len(),
        factor(s, env) matches Ok((_, r)) ==> r.len() < s.len(),
        addend(s, env) matches Ok((_, r)) ==> r.len() < s.len(),
        exp(s, env) matches Ok((_, r)) ==> r.len() < s.len(),
        exp_list(s, env) matches Ok((_, r)) ==> r.len() <= s.len(),
        forall|left: SpecExpr|
            #[trigger] addend_rest(left, s, env) matches Ok((_, r)) ==> r.len() <= s.len(),
        forall|left: SpecExpr|
            #[trigger] exp_rest(left, s, env) matches Ok((_, r)) ==> r.len() <= s.len(),
        forall|args: Seq<SpecExpr>|
            #[trigger] exp_list_rest(args, s, env) matches Ok((_, r)) ==> r.len() <= s.len(),
{
    lemma_takes(s, env, 5);
    assert forall|left: SpecExpr|
        #[trigger] addend_rest(left, s, env) matches Ok((_, r)) ==> r.len() <= s.len() by {
        lemma_addend_rest_takes(left, s, env);
    }
    assert forall|left: SpecExpr|
        #[trigger] exp_rest(left, s, env) matches Ok((_, r)) ==> r.len() <= s.len() by {
        lemma_exp_rest_takes(left, s, env);
    }
    assert forall|args: Seq<SpecExpr>|
        #[trigger] exp_list_rest(args, s, env) matches Ok((_, r)) ==> r.len() <= s.len() by {
        lemma_exp_list_rest_takes(args, s, env);
    }
}

/// What [`lemma_rules_take_tokens`] says of the rules up to the one of rank
/// `rank`: 0 for `Call`, then `Power`, `Factor`, `Addend`, `Exp` and, at 5,
/// the list of arguments.
proof fn lemma_takes(s: Seq<SpecToken>, env: Env, rank: nat)
    requires
        rank <= 5,
    ensures
        call(s, env) matches Ok((_, r)) ==> r.len() < s.len(),
        rank >= 1 ==> (power(s, env) matches Ok((_, r)) ==> r.len() < s.len()),
        rank >= 2 ==> (factor(s, env) matches Ok((_, r)) ==> r.len() < s.len()),
        rank >= 3 ==> (addend(s, env) matches Ok((_, r)) ==> r.len() < s.len()),
        rank >= 4 ==> (exp(s, env) matches Ok((_, r)) ==> r.len() < s.len()),
        rank >= 5 ==> (exp_list(s, env) matches Ok((_, r)) ==> r.len() <= s.len()),
    decreases s.len(), rank,
{
    if rank == 0 {
        if head(s).token_type == TokenType::Identifier && head(rest(s)).token_type
            == TokenType::OpenParen {
            lemma_takes(rest(rest(s)), env, 5);
        }
    } else {
        lemma_takes(s, env, (rank - 1) as nat);
        if rank == 1 {
            if head(s).token_type == TokenType::OpenParen {
                lemma_takes(rest(s), env, 5);
            } else if first(NonTerminal::Op0).contains(head(s).token_type) {
                lemma_takes(rest(s), env, 5);
            }
        } else if rank == 2 {
            if let Ok((_, r)) = power(s, env) {
                if r.len() < s.len() {
                    lemma_takes(rest(r), env, 5);
                }
            }
        } else if rank == 3 {
            if let Ok((left, r)) = factor(s, env) {
                lemma_addend_rest_takes(left, r, env);
            }
        } else if rank == 4 {
            if let Ok((left, r)) = addend(s, env) {
                lemma_exp_rest_takes(left, r, env);
            }
        } else {
            if first(NonTerminal::Exp).contains(head(s).token_type) {
                if let Ok((e, r)) = exp(s, env) {
                    lemma_exp_list_rest_takes(seq![e], r, env);
                }
            }
        }
    }
}

proof fn lemma_addend_rest_takes(left: SpecExpr, s: Seq<SpecToken>, env: Env)
    ensures
        addend_rest(left, s, env) matches Ok((_, r)) ==> r.len() <= s.len(),
    decreases s.len(), 0nat,
{
    if first(NonTerminal::Op1).contains(head(s).token_type) {
        lemma_takes(rest(s), env, 5);
        if let Ok((right, r)) = factor(rest(s), env) {
            if r.len() < s.len() {
                lemma_addend_rest_takes(binary(head(s).token_type, left, right), r, env);
            }
        }
    }
}

proof fn lemma_exp_rest_takes(left: SpecExpr, s: Seq<SpecToken>, env: Env)
    ensures
        exp_rest(left, s, env) matches Ok((_, r)) ==> r.len() <= s.len(),
    decreases s.len(), 0nat,
{
    if first(NonTerminal::Op0).contains(head(s).token_type) {
        lemma_takes(rest(s), env, 5);
        if let Ok((right, r)) = addend(rest(s), env) {
            if r.len() < s.len() {
                lemma_exp_rest_takes(binary(head(s).token_type, left, right), r, env);
            }
        }
    }
}

proof fn lemma_exp_list_rest_takes(args: Seq<SpecExpr>, s: Seq<SpecToken>, env: Env)
    ensures
        exp_list_rest(args, s, env) matches Ok((_, r)) ==> r.len() <= s.len(),
    decreases s.len(), 0nat,
{
    if head(s).token_type == TokenType::Comma {
        lemma_takes(rest(s), env, 5);
        if let Ok((e, r)) = exp(rest(s), env) {
            if r.len() < s.len() {
                lemma_exp_list_rest_takes(args.push(e), r, env);
            }
        }
    }
}

} // verus!
