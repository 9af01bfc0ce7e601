//! What holds of the calculator whatever the line and whatever the variables:
//! laws, each stated over the spec functions that the contracts of
//! [`crate::calc::Calculator`] use, and proved.

use crate::calc::{fresh_memory, is_identifier, plan, sound, stored, SpecOutcome};
use crate::expr::{SpecExpr, SpecResult};
use crate::fault::Fault;
use crate::grammar::{
    addend, addend_rest, assignable, binary, call, exp, exp_list, exp_list_rest, exp_rest, factor,
    first, is_number, line, power, resolve, Env, NonTerminal,
};
use crate::scanner::{
    belongs, ends_line, head, lemma_scan_bounds, lemma_skip_bounds, lemma_skip_run, rest, scan,
    skip, tokenize, tokens, CharClass,
};
use crate::token::{SpecToken, TokenType};
use vstd::prelude::*;

verus! {

/// No token of a line is the end-of-line token, and none is empty.
pub proof fn law_tokens_have_text(line: Seq<char>)
    ensures
        forall|k: int|
            0 <= k < tokenize(line).len() ==> (#[trigger] tokenize(line)[k]).token_type
                != TokenType::EOL && tokenize(line)[k].lexeme.len() > 0,
{
    lemma_tokens_have_text(line, 0);
}

proof fn lemma_tokens_have_text(s: Seq<char>, i: int)
    ensures
        forall|k: int|
            0 <= k < tokens(s, i).len() ==> (#[trigger] tokens(s, i)[k]).token_type
                != TokenType::EOL && tokens(s, i)[k].lexeme.len() > 0,
    decreases s.len() - i,
{
    let start = skip(s, i, CharClass::Blank);
    if 0 <= i && start < s.len() && !ends_line(s[start]) {
        lemma_skip_bounds(s, i, CharClass::Blank);
        lemma_scan_bounds(s, start);
        lemma_tokens_have_text(s, scan(s, start).1);
    }
}

/// The functions and constants of `env` with the variables `memory`.
pub open spec fn with_memory(env: Env, memory: Map<Seq<char>, u64>) -> Env {
    Env { functions: env.functions, constants: env.constants, memory }
}

/// A line that is one identifier has one token.
pub proof fn lemma_identifier_tokens(name: Seq<char>)
    requires
        is_identifier(name),
    ensures
        tokenize(name) == seq![(SpecToken { lexeme: name, token_type: TokenType::Identifier })],
{
    let n = name.len() as int;
    assert(skip(name, 0, CharClass::Blank) == 0);
    assert forall|k: int| 1 <= k < n implies belongs(name[k], CharClass::Word) by {}
    lemma_skip_run(name, 1, n, CharClass::Word);
    assert(skip(name, n, CharClass::Word) == n);
    assert(scan(name, 0) == (TokenType::Identifier, n));
    assert(tokens(name, n) =~= Seq::<SpecToken>::empty());
    assert(name.subrange(0, n) =~= name);
    assert(tokenize(name) =~= seq![
        SpecToken { lexeme: name, token_type: TokenType::Identifier },
    ]);
}

/// A line that is one name is read as that name: its value where it has
/// one, else the fault of an unknown variable.
pub proof fn lemma_lone_name(name: Seq<char>, env: Env)
    requires
        is_identifier(name),
    ensures
        line(tokenize(name), env) == match resolve(name, env) {
            Ok(e) => Ok::<Option<SpecResult>, Fault>(Some(SpecResult { var: None, val: e })),
            Err(f) => Err(f),
        },
{
    lemma_identifier_tokens(name);
    let s = tokenize(name);
    let nothing = Seq::<SpecToken>::empty();
    assert(rest(s) =~= nothing);
    assert(head(s).token_type == TokenType::Identifier);
    assert(head(rest(s)).token_type == TokenType::EOL);
    assert(call(s, env) == match resolve(name, env) {
        Ok(e) => Ok::<(SpecExpr, Seq<SpecToken>), Fault>((e, nothing)),
        Err(f) => Err(f),
    });
    assert(power(s, env) == call(s, env));
    match resolve(name, env) {
        Ok(e) => {
            assert(factor(s, env) == Ok::<(SpecExpr, Seq<SpecToken>), Fault>((e, nothing)));
            assert(addend_rest(e, nothing, env) == Ok::<(SpecExpr, Seq<SpecToken>), Fault>(
                (e, nothing),
            ));
            assert(addend(s, env) == Ok::<(SpecExpr, Seq<SpecToken>), Fault>((e, nothing)));
            assert(exp_rest(e, nothing, env) == Ok::<(SpecExpr, Seq<SpecToken>), Fault>(
                (e, nothing),
            ));
            assert(exp(s, env) == Ok::<(SpecExpr, Seq<SpecToken>), Fault>((e, nothing)));
        },
        Err(f) => {
            assert(factor(s, env) == Err::<(SpecExpr, Seq<SpecToken>), Fault>(f));
            assert(addend(s, env) == Err::<(SpecExpr, Seq<SpecToken>), Fault>(f));
            assert(exp(s, env) == Err::<(SpecExpr, Seq<SpecToken>), Fault>(f));
        },
    }
}

/// After a reset, the line `ans` asks for zero.
pub proof fn law_reset_then_ans(env: Env)
    requires
        sound(env),
        env.memory == fresh_memory(),
    ensures
        plan("ans"@, env) == Ok::<SpecOutcome, Seq<char>>(
            SpecOutcome::Pending(SpecResult { var: None, val: SpecExpr::Value(0) }),
        ),
{
    reveal_strlit("ans");
    lemma_lone_name("ans"@, env);
}

/// Once a line has a value, the line `ans` asks for that value, whether the
/// line assigned it to a variable or not.
pub proof fn law_ans_is_the_last_value(env: Env, var: Option<Seq<char>>, value: u64)
    requires
        sound(env),
        var is Some ==> assignable(var->0, env),
    ensures
        plan("ans"@, with_memory(env, stored(env.memory, var, value))) == Ok::<
            SpecOutcome,
            Seq<char>,
        >(SpecOutcome::Pending(SpecResult { var: None, val: SpecExpr::Value(value) })),
{
    reveal_strlit("ans");
    lemma_lone_name("ans"@, with_memory(env, stored(env.memory, var, value)));
}

/// The line `input` is an assignment: it begins with a name and an equals
/// sign.
pub open spec fn assigns(input: Seq<char>) -> bool {
    &&& head(tokenize(input)).token_type == TokenType::Identifier
    &&& head(rest(tokenize(input))).token_type == TokenType::Equal
}

/// The name that the assignment `input` assigns to.
pub open spec fn target(input: Seq<char>) -> Seq<char> {
    head(tokenize(input)).lexeme
}

/// The tokens on the right of the assignment `input`.
pub open spec fn right_side(input: Seq<char>) -> Seq<SpecToken> {
    rest(rest(tokenize(input)))
}

/// An assignment is no function's name.
proof fn lemma_assignment_is_no_name(env: Env, input: Seq<char>)
    requires
        sound(env),
        assigns(input),
    ensures
        !env.functions.contains_key(input),
{
    if env.functions.contains_key(input) {
        lemma_identifier_tokens(input);
        assert(rest(tokenize(input)) =~= Seq::<SpecToken>::empty());
    }
}

/// An assignment to `ans`, to a constant or to a function fails as an
/// invalid assignment, whatever stands on its right.
pub proof fn law_reserved_names_are_not_assigned(env: Env, input: Seq<char>)
    requires
        sound(env),
        assigns(input),
        !assignable(target(input), env),
    ensures
        plan(input, env) == Err::<SpecOutcome, Seq<char>>(Fault::InvalidAssignment.text()),
{
    lemma_assignment_is_no_name(env, input);
}

/// An assignment to any other name asks for the expression on its right and
/// names the variable that is to receive the value. It fails only where the
/// right side is no expression, or is one with something behind it.
pub proof fn law_other_names_are_assigned(env: Env, input: Seq<char>)
    requires
        sound(env),
        assigns(input),
        assignable(target(input), env),
    ensures
        plan(input, env) == match exp(right_side(input), env) {
            Ok((e, r)) => if r.len() == 0 {
                Ok::<SpecOutcome, Seq<char>>(
                    SpecOutcome::Pending(SpecResult { var: Some(target(input)), val: e }),
                )
            } else {
                Err(Fault::InvalidSyntax.text())
            },
            Err(f) => Err(f.text()),
        },
{
    lemma_assignment_is_no_name(env, input);
}

/// A name that was assigned a value resolves as that value from then on.
pub proof fn law_assigned_name_resolves(env: Env, name: Seq<char>, value: u64)
    requires
        is_identifier(name),
        assignable(name, env),
    ensures
        plan(name, with_memory(env, stored(env.memory, Some(name), value))) == Ok::<
            SpecOutcome,
            Seq<char>,
        >(SpecOutcome::Pending(SpecResult { var: None, val: SpecExpr::Value(value) })),
{
    lemma_lone_name(name, with_memory(env, stored(env.memory, Some(name), value)));
}

/// A line that is a function's name and nothing else is answered with the
/// description of the function's use.
pub proof fn law_function_name_gives_usage(env: Env, name: Seq<char>)
    requires
        sound(env),
        env.functions.contains_key(name),
    ensures
        plan(name, env) == Ok::<SpecOutcome, Seq<char>>(
            SpecOutcome::Reply(env.functions[name].usage),
        ),
{
    lemma_lone_name(name, env);
}

/// A line that fails leaves an answer only where it is a function's name:
/// every other failure is reported with the message of its fault.
pub proof fn law_failures_are_reported(env: Env, input: Seq<char>)
    requires
        line(tokenize(input), env) is Err,
        !env.functions.contains_key(input),
    ensures
        plan(input, env) == Err::<SpecOutcome, Seq<char>>(
            line(tokenize(input), env)->Err_0.text(),
        ),
{
}

/// The variable that a line names can be assigned to: the value of what the
/// line asks for is never refused when it is stored.
pub proof fn law_named_variables_can_be_assigned(env: Env, input: Seq<char>)
    ensures
        plan(input, env) matches Ok(SpecOutcome::Pending(result)) ==> (result.var matches Some(
            name,
        ) ==> assignable(name, env)),
{
}

/// The expression can be evaluated with the functions of `env`: each of its
/// literals is a number, and each of its calls names a function of `env`
/// with a number of arguments that the function takes.
pub open spec fn evaluable(e: SpecExpr, env: Env) -> bool
    decreases e,
{
    match e {
        SpecExpr::Literal(text) => is_number(text),
        SpecExpr::Value(_) => true,
        SpecExpr::Negate(operand) => evaluable(*operand, env),
        SpecExpr::Binary(_, left, right) => evaluable(*left, env) && evaluable(*right, env),
        SpecExpr::Call(name, args) => {
            &&& env.functions.contains_key(name)
            &&& env.functions[name].arity.admits(args.len())
            &&& forall|i: int| 0 <= i < args.len() ==> evaluable(#[trigger] args[i], env)
        },
    }
}

/// Each of the expressions can be evaluated.
pub open spec fn all_evaluable(args: Seq<SpecExpr>, env: Env) -> bool {
    forall|i: int| 0 <= i < args.len() ==> evaluable(#[trigger] args[i], env)
}

/// An expression that a line asks for can be evaluated: whoever evaluates it
/// finds a number in every literal and, for every call, a function of that
/// name and as many arguments as the function takes.
pub proof fn law_what_is_asked_for_can_be_evaluated(env: Env, input: Seq<char>)
    ensures
        plan(input, env) matches Ok(SpecOutcome::Pending(result)) ==> evaluable(result.val, env),
{
    let s = tokenize(input);
    lemma_evaluable(s, env, 5);
    lemma_evaluable(rest(rest(s)), env, 5);
}

/// What the rules up to the one of rank `rank` read can be evaluated: 0 for
/// `Call`, then `Power`, `Factor`, `Addend`, `Exp` and, at 5, the list of
/// arguments.
proof fn lemma_evaluable(s: Seq<SpecToken>, env: Env, rank: nat)
    requires
        rank <= 5,
    ensures
        call(s, env) matches Ok((e, _)) ==> evaluable(e, env),
        rank >= 1 ==> (power(s, env) matches Ok((e, _)) ==> evaluable(e, env)),
        rank >= 2 ==> (factor(s, env) matches Ok((e, _)) ==> evaluable(e, env)),
        rank >= 3 ==> (addend(s, env) matches Ok((e, _)) ==> evaluable(e, env)),
        rank >= 4 ==> (exp(s, env) matches Ok((e, _)) ==> evaluable(e, env)),
        rank >= 5 ==> (exp_list(s, env) matches Ok((args, _)) ==> all_evaluable(args, env)),
    decreases s.len(), rank,
{
    if rank == 0 {
        if head(s).token_type == TokenType::Identifier && head(rest(s)).token_type
            == TokenType::OpenParen {
            lemma_evaluable(rest(rest(s)), env, 5);
        }
    } else {
        lemma_evaluable(s, env, (rank - 1) as nat);
        if rank == 1 {
            if head(s).token_type == TokenType::OpenParen {
                lemma_evaluable(rest(s), env, 5);
            } else if first(NonTerminal::Op0).contains(head(s).token_type) {
                lemma_evaluable(rest(s), env, 5);
            }
        } else if rank == 2 {
            if let Ok((_, r)) = power(s, env) {
                if r.len() < s.len() {
                    lemma_evaluable(rest(r), env, 5);
                }
            }
        } else if rank == 3 {
            if let Ok((left, r)) = factor(s, env) {
                if r.len() < s.len() {
                    lemma_addend_rest_evaluable(left, r, env);
                }
            }
        } else if rank == 4 {
            if let Ok((left, r)) = addend(s, env) {
                if r.len() < s.len() {
                    lemma_exp_rest_evaluable(left, r, env);
                }
            }
        } else {
            if first(NonTerminal::Exp).contains(head(s).token_type) {
                if let Ok((e, r)) = exp(s, env) {
                    if r.len() < s.len() {
                        lemma_exp_list_rest_evaluable(seq![e], r, env);
                    }
                }
            }
        }
    }
}

proof fn lemma_addend_rest_evaluable(left: SpecExpr, s: Seq<SpecToken>, env: Env)
    requires
        evaluable(left, env),
    ensures
        addend_rest(left, s, env) matches Ok((e, _)) ==> evaluable(e, env),
    decreases s.len(), 0nat,
{
    if first(NonTerminal::Op1).contains(head(s).token_type) {
        lemma_evaluable(rest(s), env, 5);
        if let Ok((right, r)) = factor(rest(s), env) {
            if r.len() < s.len() {
                lemma_addend_rest_evaluable(binary(head(s).token_type, left, right), r, env);
            }
        }
    }
}

proof fn lemma_exp_rest_evaluable(left: SpecExpr, s: Seq<SpecToken>, env: Env)
    requires
        evaluable(left, env),
    ensures
        exp_rest(left, s, env) matches Ok((e, _)) ==> evaluable(e, env),
    decreases s.len(), 0nat,
{
    if first(NonTerminal::Op0).contains(head(s).token_type) {
        lemma_evaluable(rest(s), env, 5);
        if let Ok((right, r)) = addend(rest(s), env) {
            if r.len() < s.len() {
                lemma_exp_rest_evaluable(binary(head(s).token_type, left, right), r, env);
            }
        }
    }
}

proof fn lemma_exp_list_rest_evaluable(args: Seq<SpecExpr>, s: Seq<SpecToken>, env: Env)
    requires
        all_evaluable(args, env),
    ensures
        exp_list_rest(args, s, env) matches Ok((all, _)) ==> all_evaluable(all, env),
    decreases s.len(), 0nat,
{
    if head(s).token_type == TokenType::Comma {
        lemma_evaluable(rest(s), env, 5);
        if let Ok((e, r)) = exp(rest(s), env) {
            if r.len() < s.len() {
                lemma_exp_list_rest_evaluable(args.push(e), r, env);
            }
        }
    }
}

} // verus!
