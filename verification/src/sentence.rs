//! The sentences of the grammar that name nothing, and the law that the
//! rules read each of them as the usual rules of arithmetic do: power before
//! multiplication and division, these before addition and subtraction,
//! operators of one level from left to right, powers from right to left, and
//! a sign with the operand behind it.
//!
//! A [`Sentence`] is a derivation: it records which rule of the grammar made
//! which part of the line. [`words`] writes it out as tokens, [`meaning`] is
//! the expression that it stands for.

use crate::calc::{plan, SpecOutcome};
use crate::expr::{SpecExpr, SpecResult};
use crate::fault::Fault;
use crate::grammar::{
    addend, addend_rest, binary, exp, exp_rest, factor, first, input, is_number, line, literal,
    power, signed, Env, NonTerminal,
};
use crate::scanner::{head, rest, tokenize};
use crate::token::{SpecToken, TokenType};
use vstd::prelude::*;

verus! {

/// A part of a line, with the parts that it is made of.
pub enum Sentence {
    /// A number.
    Number(SpecToken),
    /// A sentence between an opening and a closing parenthesis.
    Group(SpecToken, Box<Sentence>, SpecToken),
    /// A sign before a sentence.
    Signed(SpecToken, Box<Sentence>),
    /// Two sentences with an operator between them.
    Infix(Box<Sentence>, SpecToken, Box<Sentence>),
}

/// The place of a rule among the rules for expressions: the tighter a rule
/// binds, the lower it stands.
pub open spec fn rank(nt: NonTerminal) -> nat {
    match nt {
        NonTerminal::Power => 0,
        NonTerminal::Factor => 1,
        NonTerminal::Addend => 2,
        _ => 3,
    }
}

/// `c` is a sentence of the rule `nt`, where `nt` is one of `Exp`, `Addend`,
/// `Factor` and `Power`:
///
/// ```text
/// Exp     = Addend | Exp ("+" | "-") Addend
/// Addend  = Factor | Addend ("*" | "/" | "%") Factor
/// Factor  = Power  | Power "^" Factor
/// Power   = Number | "(" Exp ")" | ("+" | "-") Power
/// ```
pub open spec fn derives(nt: NonTerminal, c: Sentence) -> bool
    decreases c, rank(nt),
{
    match nt {
        NonTerminal::Exp => derives(NonTerminal::Addend, c) || match c {
            Sentence::Infix(left, op, right) => first(NonTerminal::Op0).contains(op.token_type)
                && derives(NonTerminal::Exp, *left) && derives(NonTerminal::Addend, *right),
            _ => false,
        },
        NonTerminal::Addend => derives(NonTerminal::Factor, c) || match c {
            Sentence::Infix(left, op, right) => first(NonTerminal::Op1).contains(op.token_type)
                && derives(NonTerminal::Addend, *left) && derives(NonTerminal::Factor, *right),
            _ => false,
        },
        NonTerminal::Factor => derives(NonTerminal::Power, c) || match c {
            Sentence::Infix(left, op, right) => first(NonTerminal::Op2).contains(op.token_type)
                && derives(NonTerminal::Power, *left) && derives(NonTerminal::Factor, *right),
            _ => false,
        },
        NonTerminal::Power => match c {
            Sentence::Number(t) => first(NonTerminal::Literal).contains(t.token_type)
                && is_number(t.lexeme),
            Sentence::Group(open, inner, close) => open.token_type == TokenType::OpenParen
                && close.token_type == TokenType::CloseParen && derives(NonTerminal::Exp, *inner),
            Sentence::Signed(sign, operand) => first(NonTerminal::Op0).contains(sign.token_type)
                && derives(NonTerminal::Power, *operand),
            Sentence::Infix(_, _, _) => false,
        },
        _ => false,
    }
}

/// The tokens of the sentence, from left to right.
pub open spec fn words(c: Sentence) -> Seq<SpecToken>
    decreases c,
{
    match c {
        Sentence::Number(t) => seq![t],
        Sentence::Group(open, inner, close) => seq![open] + words(*inner) + seq![close],
        Sentence::Signed(sign, operand) => seq![sign] + words(*operand),
        Sentence::Infix(left, op, right) => words(*left) + seq![op] + words(*right),
    }
}

/// The expression that the sentence stands for: a number for itself, a group
/// for what is in it, a minus for the negated operand and a plus for the
/// operand, an operator for itself applied to what stands on its left and on
/// its right.
pub open spec fn meaning(c: Sentence) -> SpecExpr
    decreases c,
{
    match c {
        Sentence::Number(t) => SpecExpr::Literal(t.lexeme),
        Sentence::Group(_, inner, _) => meaning(*inner),
        Sentence::Signed(sign, operand) => signed(sign.token_type, meaning(*operand)),
        Sentence::Infix(left, op, right) => binary(op.token_type, meaning(*left), meaning(*right)),
    }
}

/// The token at the head of `s` can begin a sentence of `nt`.
pub open spec fn continues(s: Seq<SpecToken>, nt: NonTerminal) -> bool {
    first(nt).contains(head(s).token_type)
}

/// A sentence has a first token, and that token begins an expression and is
/// no name.
proof fn lemma_first_word(nt: NonTerminal, c: Sentence)
    requires
        derives(nt, c),
    ensures
        words(c).len() > 0,
        first(NonTerminal::Exp).contains(words(c)[0].token_type),
        words(c)[0].token_type != TokenType::Identifier,
    decreases c, rank(nt),
{
    match nt {
        NonTerminal::Exp => {
            if derives(NonTerminal::Addend, c) {
                lemma_first_word(NonTerminal::Addend, c);
            } else {
                lemma_first_word(NonTerminal::Exp, *c->Infix_0);
            }
        },
        NonTerminal::Addend => {
            if derives(NonTerminal::Factor, c) {
                lemma_first_word(NonTerminal::Factor, c);
            } else {
                lemma_first_word(NonTerminal::Addend, *c->Infix_0);
            }
        },
        NonTerminal::Factor => {
            if derives(NonTerminal::Power, c) {
                lemma_first_word(NonTerminal::Power, c);
            } else {
                lemma_first_word(NonTerminal::Power, *c->Infix_0);
            }
        },
        _ => {},
    }
}

/// The rule `Power` reads a sentence of its own, whatever follows.
proof fn lemma_power(c: Sentence, after: Seq<SpecToken>, env: Env)
    requires
        derives(NonTerminal::Power, c),
    ensures
        power(words(c) + after, env) == Ok::<(SpecExpr, Seq<SpecToken>), Fault>(
            (meaning(c), after),
        ),
    decreases c, 0nat,
{
    let s = words(c) + after;
    match c {
        Sentence::Number(t) => {
            assert(head(s) == t);
            assert(rest(s) =~= after);
            assert(power(s, env) == literal(s));
        },
        Sentence::Group(open, inner, close) => {
            let behind = seq![close] + after;
            assert(head(s) == open);
            assert(rest(s) =~= words(*inner) + behind);
            lemma_exp(*inner, behind, env);
            assert(head(behind) == close);
            assert(exp_rest(meaning(*inner), behind, env) == Ok::<
                (SpecExpr, Seq<SpecToken>),
                Fault,
            >((meaning(*inner), behind)));
            assert(rest(behind) =~= after);
        },
        Sentence::Signed(sign, operand) => {
            assert(head(s) == sign);
            assert(rest(s) =~= words(*operand) + after);
            lemma_power(*operand, after, env);
        },
        Sentence::Infix(_, _, _) => {},
    }
}

/// The rule `Factor` reads a sentence of its own, unless a power follows.
proof fn lemma_factor(c: Sentence, after: Seq<SpecToken>, env: Env)
    requires
        derives(NonTerminal::Factor, c),
        !continues(after, NonTerminal::Op2),
    ensures
        factor(words(c) + after, env) == Ok::<(SpecExpr, Seq<SpecToken>), Fault>(
            (meaning(c), after),
        ),
    decreases c, 1nat,
{
    let s = words(c) + after;
    if derives(NonTerminal::Power, c) {
        lemma_first_word(NonTerminal::Power, c);
        lemma_power(c, after, env);
    } else {
        let left = *c->Infix_0;
        let op = c->Infix_1;
        let right = *c->Infix_2;
        let behind = seq![op] + (words(right) + after);
        assert(s =~= words(left) + behind);
        lemma_first_word(NonTerminal::Power, left);
        lemma_power(left, behind, env);
        assert(head(behind) == op);
        assert(rest(behind) =~= words(right) + after);
        lemma_factor(right, after, env);
    }
}

/// The rule `Addend` reads a sentence of its own and goes on with what
/// follows, unless a power follows.
proof fn lemma_addend(c: Sentence, after: Seq<SpecToken>, env: Env)
    requires
        derives(NonTerminal::Addend, c),
        !continues(after, NonTerminal::Op2),
    ensures
        addend(words(c) + after, env) == addend_rest(meaning(c), after, env),
    decreases c, 2nat,
{
    let s = words(c) + after;
    if derives(NonTerminal::Factor, c) {
        lemma_first_word(NonTerminal::Factor, c);
        lemma_factor(c, after, env);
    } else {
        let left = *c->Infix_0;
        let op = c->Infix_1;
        let right = *c->Infix_2;
        let behind = seq![op] + (words(right) + after);
        assert(s =~= words(left) + behind);
        assert(head(behind) == op);
        lemma_addend(left, behind, env);
        assert(rest(behind) =~= words(right) + after);
        lemma_first_word(NonTerminal::Factor, right);
        lemma_factor(right, after, env);
    }
}

/// The rule `Exp` reads a sentence of its own and goes on with what follows,
/// unless a multiplication, a division or a power follows.
proof fn lemma_exp(c: Sentence, after: Seq<SpecToken>, env: Env)
    requires
        derives(NonTerminal::Exp, c),
        !continues(after, NonTerminal::Op1),
        !continues(after, NonTerminal::Op2),
    ensures
        exp(words(c) + after, env) == exp_rest(meaning(c), after, env),
    decreases c, 3nat,
{
    let s = words(c) + after;
    if derives(NonTerminal::Addend, c) {
        lemma_first_word(NonTerminal::Addend, c);
        lemma_addend(c, after, env);
    } else {
        let left = *c->Infix_0;
        let op = c->Infix_1;
        let right = *c->Infix_2;
        let behind = seq![op] + (words(right) + after);
        assert(s =~= words(left) + behind);
        assert(head(behind) == op);
        lemma_exp(left, behind, env);
        assert(rest(behind) =~= words(right) + after);
        lemma_first_word(NonTerminal::Addend, right);
        lemma_addend(right, after, env);
    }
}

/// An expression that names nothing is read as the usual rules of arithmetic
/// read it: for every sentence `c` of the rule `Exp`, the line of its tokens
/// asks for the expression that `c` stands for, and assigns it to no variable.
pub proof fn law_sentences_are_read_by_the_usual_rules(c: Sentence, env: Env)
    requires
        derives(NonTerminal::Exp, c),
    ensures
        line(words(c), env) == Ok::<Option<SpecResult>, Fault>(
            Some(SpecResult { var: None, val: meaning(c) }),
        ),
{
    let s = words(c);
    let nothing = Seq::<SpecToken>::empty();
    assert(s =~= s + nothing);
    lemma_first_word(NonTerminal::Exp, c);
    lemma_exp(c, nothing, env);
    assert(exp(s, env) == Ok::<(SpecExpr, Seq<SpecToken>), Fault>((meaning(c), nothing)));
    assert(input(s, env) == Ok::<(SpecResult, Seq<SpecToken>), Fault>(
        (SpecResult { var: None, val: meaning(c) }, nothing),
    ));
}

/// A line whose tokens are those of a sentence of the rule `Exp` asks for the
/// expression that the sentence stands for, whatever the calculator's names
/// and variables are.
pub proof fn law_lines_are_read_by_the_usual_rules(c: Sentence, input: Seq<char>, env: Env)
    requires
        derives(NonTerminal::Exp, c),
        tokenize(input) == words(c),
    ensures
        plan(input, env) == Ok::<SpecOutcome, Seq<char>>(
            SpecOutcome::Pending(SpecResult { var: None, val: meaning(c) }),
        ),
{
    law_sentences_are_read_by_the_usual_rules(c, env);
}

} // verus!
