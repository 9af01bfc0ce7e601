//! The parser: reads the tokens of a line by predictive descent and builds
//! the expression that the line stands for.
//!
//! Every rule of the grammar is one method. Which rule applies is decided by
//! the kind of the current token alone, looked up in the rule's set of first
//! tokens; only an assignment needs one token more. What a method returns is
//! what the rule's spec function in [`crate::grammar`] says.

use crate::expr::{lemma_call_view, views, BinaryOp, Expr, PResult, SpecExpr, SpecResult};
use crate::fault::{
    invalid_assignment, invalid_number, invalid_syntax, unknown_function, unknown_variable,
    wrong_arity, Fault,
};
use crate::function::{signatures, Function, Signature};
use crate::grammar::{
    addend, addend_rest, assignable, call, exp, exp_list, exp_list_rest, exp_rest, factor, first,
    input, is_number, line, literal, operator, power, Env, NonTerminal, Parsed,
};
use crate::scanner::{head, rest, skip, CharClass, Scanner};
use crate::text::{chars_of, same_text};
use crate::token::{end_of_line, SpecToken, Token, TokenSet, TokenType};
use std::collections::HashMap;
use vstd::hash_map::StringHashMap;
use vstd::prelude::*;

verus! {

/// The key under which the first tokens of `nt` are kept.
pub open spec fn key_of(nt: NonTerminal) -> u64 {
    match nt {
        NonTerminal::Op0 => 0,
        NonTerminal::Op1 => 1,
        NonTerminal::Op2 => 2,
        NonTerminal::Line => 3,
        NonTerminal::Exp => 4,
        NonTerminal::Addend => 5,
        NonTerminal::Factor => 6,
        NonTerminal::Power => 7,
        NonTerminal::Call => 8,
        NonTerminal::ExpList => 9,
        NonTerminal::Literal => 10,
    }
}

fn key(nt: &NonTerminal) -> (k: u64)
    ensures
        k == key_of(*nt),
{
    match nt {
        NonTerminal::Op0 => 0,
        NonTerminal::Op1 => 1,
        NonTerminal::Op2 => 2,
        NonTerminal::Line => 3,
        NonTerminal::Exp => 4,
        NonTerminal::Addend => 5,
        NonTerminal::Factor => 6,
        NonTerminal::Power => 7,
        NonTerminal::Call => 8,
        NonTerminal::ExpList => 9,
        NonTerminal::Literal => 10,
    }
}

/// The end of the run of digits that starts at `from`.
fn skip_digits(chars: &Vec<char>, from: usize) -> (to: usize)
    requires
        from <= chars.len(),
    ensures
        to == skip(chars@, from as int, CharClass::Digit),
        from <= to <= chars.len(),
{
    let mut to: usize = from;
    while to < chars.len() && chars[to] >= '0' && chars[to] <= '9'
        invariant
            from <= to <= chars.len(),
            skip(chars@, to as int, CharClass::Digit) == skip(
                chars@,
                from as int,
                CharClass::Digit,
            ),
        decreases chars.len() - to,
    {
        to += 1;
    }
    to
}

/// Whether `text` is a number: digits with an optional fraction and an
/// optional exponent. The library's numeric tokens have this form or lack a
/// digit where one is due; for text of this form, conversion to a double by
/// the standard library succeeds.
pub fn valid_number(text: &str) -> (r: bool)
    ensures
        r == is_number(text@),
{
    let chars = chars_of(text);
    let n = chars.len();
    let point = skip_digits(&chars, 0);
    let dotted = point < n && chars[point] == '.';
    let mantissa = if dotted {
        skip_digits(&chars, point + 1)
    } else {
        point
    };
    let digits = if dotted {
        mantissa - 1
    } else {
        mantissa
    };
    if digits < 1 {
        false
    } else if mantissa == n {
        true
    } else if chars[mantissa] != 'e' {
        false
    } else {
        let signed = mantissa + 1 < n && (chars[mantissa + 1] == '+' || chars[mantissa + 1] == '-');
        let exponent = if signed {
            mantissa + 2
        } else {
            mantissa + 1
        };
        exponent < n && skip_digits(&chars, exponent) == n
    }
}

/// The content of what `parse` returns.
pub open spec fn result_view(result: Option<PResult>) -> Option<SpecResult> {
    match result {
        Some(r) => Some(r@),
        None => None,
    }
}

/// `result` is what the rule made of the tokens `before`, and `left` are the
/// tokens behind it.
pub open spec fn reads(
    result: Result<Expr, String>,
    expected: Parsed,
    left: Seq<SpecToken>,
    before: Seq<SpecToken>,
) -> bool {
    match expected {
        Ok((e, r)) => result is Ok && result->Ok_0@ == e && left == r && r.len() < before.len(),
        Err(f) => result is Err && result->Err_0@ == f.text(),
    }
}

/// A parser for lines, with the functions and constants that lines may name.
pub struct Parser {
    scanner: Option<Scanner>,
    token: Token,
    first_sets: HashMap<u64, TokenSet>,
    functions: StringHashMap<Function>,
    constants: StringHashMap<u64>,
}

impl Parser {
    /// The functions that a line may call, by name.
    pub closed spec fn functions(&self) -> Map<Seq<char>, Signature> {
        signatures(self.functions@)
    }

    /// The values of the constants that a line may name.
    pub closed spec fn constants(&self) -> Map<Seq<char>, u64> {
        self.constants@
    }

    /// The names that a line may use, given the variables in `memory`.
    pub open spec fn env(&self, memory: Map<Seq<char>, u64>) -> Env {
        Env { functions: self.functions(), constants: self.constants(), memory }
    }

    /// Each rule's set of first tokens is the one that the grammar gives.
    pub closed spec fn wf(&self) -> bool {
        forall|nt: NonTerminal|
            #![trigger key_of(nt)]
            self.first_sets@.contains_key(key_of(nt)) && self.first_sets@[key_of(nt)]@ == first(nt)
    }

    /// The tokens of the line that are not yet accepted: the current one first.
    spec fn stream(&self) -> Seq<SpecToken> {
        if self.token.token_type == TokenType::EOL {
            Seq::empty()
        } else {
            seq![self.token@] + self.scanner->0@
        }
    }

    /// The parser is at work on a line.
    spec fn ready(&self) -> bool {
        &&& self.wf()
        &&& self.scanner is Some
        &&& self.scanner->0.wf()
        &&& self.token.token_type == TokenType::EOL ==> self.scanner->0@.len() == 0 && self.token@
            == end_of_line()
    }

    /// The tables are those of `before`.
    spec fn same_tables(&self, before: Parser) -> bool {
        &&& self.first_sets == before.first_sets
        &&& self.functions == before.functions
        &&& self.constants == before.constants
    }

    /// A parser for lines that may call `functions` and name `constants`.
    pub fn new(functions: StringHashMap<Function>, constants: StringHashMap<u64>) -> (r: Parser)
        ensures
            r.wf(),
            r.functions() == signatures(functions@),
            r.constants() == constants@,
    {
        broadcast use vstd::std_specs::hash::group_hash_axioms;

        let mut first_sets: HashMap<u64, TokenSet> = HashMap::new();

        let mut fs = TokenSet::new();
        fs.insert(TokenType::Integer);
        fs.insert(TokenType::Float);
        fs.insert(TokenType::Exponent);
        assert(fs@ =~= first(NonTerminal::Literal));
        first_sets.insert(key(&NonTerminal::Literal), fs);

        let mut fs = TokenSet::new();
        fs.insert(TokenType::Add);
        fs.insert(TokenType::Sub);
        assert(fs@ =~= first(NonTerminal::Op0));
        first_sets.insert(key(&NonTerminal::Op0), fs);

        let mut fs = TokenSet::new();
        fs.insert(TokenType::Mul);
        fs.insert(TokenType::Div);
        fs.insert(TokenType::Mod);
        assert(fs@ =~= first(NonTerminal::Op1));
        first_sets.insert(key(&NonTerminal::Op1), fs);

        let mut fs = TokenSet::new();
        fs.insert(TokenType::Pow);
        assert(fs@ =~= first(NonTerminal::Op2));
        first_sets.insert(key(&NonTerminal::Op2), fs);

        let mut fs = TokenSet::new();
        fs.insert(TokenType::Identifier);
        assert(fs@ =~= first(NonTerminal::Call));
        first_sets.insert(key(&NonTerminal::Call), fs);

        let mut fs = TokenSet::new();
        fs.extend(first_sets.get(&key(&NonTerminal::Literal)).unwrap());
        fs.extend(first_sets.get(&key(&NonTerminal::Call)).unwrap());
        fs.insert(TokenType::OpenParen);
        fs.extend(first_sets.get(&key(&NonTerminal::Op0)).unwrap());
        assert(fs@ =~= first(NonTerminal::Power));
        first_sets.insert(key(&NonTerminal::Power), fs);

        let mut fs = TokenSet::new();
        fs.extend(first_sets.get(&key(&NonTerminal::Power)).unwrap());
        assert(fs@ =~= first(NonTerminal::Factor));
        first_sets.insert(key(&NonTerminal::Factor), fs);

        let mut fs = TokenSet::new();
        fs.extend(first_sets.get(&key(&NonTerminal::Factor)).unwrap());
        assert(fs@ =~= first(NonTerminal::Addend));
        first_sets.insert(key(&NonTerminal::Addend), fs);

        let mut fs = TokenSet::new();
        fs.extend(first_sets.get(&key(&NonTerminal::Addend)).unwrap());
        assert(fs@ =~= first(NonTerminal::Exp));
        first_sets.insert(key(&NonTerminal::Exp), fs);

        let mut fs = TokenSet::new();
        fs.extend(first_sets.get(&key(&NonTerminal::Exp)).unwrap());
        assert(fs@ =~= first(NonTerminal::ExpList));
        first_sets.insert(key(&NonTerminal::ExpList), fs);

        let mut fs = TokenSet::new();
        fs.extend(first_sets.get(&key(&NonTerminal::Exp)).unwrap());
        fs.insert(TokenType::Identifier);
        assert(fs@ =~= first(NonTerminal::Line));
        first_sets.insert(key(&NonTerminal::Line), fs);

        Parser {
            scanner: None,
            token: Token { token_type: TokenType::EOL, lexeme: "".to_owned() },
            first_sets,
            functions,
            constants,
        }
    }

    /// Whether the current token can begin a sentence of `nt`.
    fn have_nt(&self, nt: &NonTerminal) -> (r: bool)
        requires
            self.ready(),
        ensures
            r == first(*nt).contains(head(self.stream()).token_type),
    {
        broadcast use vstd::std_specs::hash::group_hash_axioms;

        assert(self.first_sets@.contains_key(key_of(*nt)));
        match self.first_sets.get(&key(nt)) {
            Some(set) => set.contains(self.token.token_type),
            None => false,
        }
    }

    /// Whether the current token is of the kind `token_type`.
    fn have(&self, token_type: &TokenType) -> (r: bool)
        requires
            self.ready(),
        ensures
            r == (head(self.stream()).token_type == *token_type),
    {
        self.token.token_type == *token_type
    }

    /// Whether the token behind the current one is of the kind `token_type`.
    fn have_next(&mut self, token_type: &TokenType) -> (r: bool)
        requires
            old(self).ready(),
        ensures
            final(self).ready(),
            final(self).same_tables(*old(self)),
            final(self).stream() == old(self).stream(),
            r == (head(rest(old(self).stream())).token_type == *token_type),
    {
        let ghost before = self.stream();
        let r = match &mut self.scanner {
            Some(scanner) => scanner.look_ahead().token_type == *token_type,
            None => false,
        };
        assert(rest(before) =~= self.scanner->0@);
        r
    }

    /// Makes the next token of the line the current one.
    fn advance(&mut self)
        requires
            old(self).ready(),
        ensures
            final(self).ready(),
            final(self).same_tables(*old(self)),
            final(self).stream() == rest(old(self).stream()),
    {
        let ghost before = self.stream();
        let ghost left = self.scanner->0@;
        match &mut self.scanner {
            Some(scanner) => {
                self.token = scanner.next_token();
            },
            None => {},
        }
        assert(rest(before) =~= left);
        assert(self.stream() =~= left);
    }

    /// Passes the current token if it is of the kind `token_type`.
    fn accept(&mut self, token_type: &TokenType) -> (r: bool)
        requires
            old(self).ready(),
        ensures
            final(self).ready(),
            final(self).same_tables(*old(self)),
            r == (head(old(self).stream()).token_type == *token_type),
            final(self).stream() == if r {
                rest(old(self).stream())
            } else {
                old(self).stream()
            },
    {
        if self.have(token_type) {
            self.advance();
            true
        } else {
            false
        }
    }

    /// Passes the current token if it can begin a sentence of `nt`.
    fn accept_nt(&mut self, nt: &NonTerminal) -> (r: bool)
        requires
            old(self).ready(),
        ensures
            final(self).ready(),
            final(self).same_tables(*old(self)),
            r == first(*nt).contains(head(old(self).stream()).token_type),
            final(self).stream() == if r {
                rest(old(self).stream())
            } else {
                old(self).stream()
            },
    {
        if self.have_nt(nt) {
            self.advance();
            true
        } else {
            false
        }
    }

    /// Passes a token of the kind `token_type`, or fails.
    fn expect(&mut self, token_type: &TokenType) -> (r: Result<(), String>)
        requires
            old(self).ready(),
        ensures
            final(self).ready(),
            final(self).same_tables(*old(self)),
            r is Ok == (head(old(self).stream()).token_type == *token_type),
            r is Ok ==> final(self).stream() == rest(old(self).stream()),
            r is Err ==> r->Err_0@ == Fault::InvalidSyntax.text(),
    {
        if self.accept(token_type) {
            Ok(())
        } else {
            Err(invalid_syntax())
        }
    }

    /// Passes a token of the kind `token_type` and returns it, or fails.
    fn expect_retrieve(&mut self, token_type: &TokenType) -> (r: Result<Token, String>)
        requires
            old(self).ready(),
        ensures
            final(self).ready(),
            final(self).same_tables(*old(self)),
            r is Ok == (head(old(self).stream()).token_type == *token_type),
            r is Ok ==> r->Ok_0@ == head(old(self).stream()) && final(self).stream() == rest(
                old(self).stream(),
            ),
            r is Err ==> r->Err_0@ == Fault::InvalidSyntax.text(),
    {
        let token = self.token.clone();
        if self.accept(token_type) {
            Ok(token)
        } else {
            Err(invalid_syntax())
        }
    }

    /// Passes a token that can begin a sentence of `nt` and returns it, or fails.
    fn expect_nt_retrieve(&mut self, nt: &NonTerminal) -> (r: Result<Token, String>)
        requires
            old(self).ready(),
        ensures
            final(self).ready(),
            final(self).same_tables(*old(self)),
            r is Ok == first(*nt).contains(head(old(self).stream()).token_type),
            r is Ok ==> r->Ok_0@ == head(old(self).stream()) && final(self).stream() == rest(
                old(self).stream(),
            ),
            r is Err ==> r->Err_0@ == Fault::InvalidSyntax.text(),
    {
        let token = self.token.clone();
        if self.accept_nt(nt) {
            Ok(token)
        } else {
            Err(invalid_syntax())
        }
    }

    /// `Op0 = "+" | "-"`
    fn op0(&mut self) -> (r: Result<Token, String>)
        requires
            old(self).ready(),
        ensures
            final(self).ready(),
            final(self).same_tables(*old(self)),
            r is Ok == first(NonTerminal::Op0).contains(head(old(self).stream()).token_type),
            r is Ok ==> r->Ok_0@ == head(old(self).stream()) && final(self).stream() == rest(
                old(self).stream(),
            ),
            r is Err ==> r->Err_0@ == Fault::InvalidSyntax.text(),
    {
        self.expect_nt_retrieve(&NonTerminal::Op0)
    }

    /// `Op1 = "*" | "/" | "%"`
    fn op1(&mut self) -> (r: Result<Token, String>)
        requires
            old(self).ready(),
        ensures
            final(self).ready(),
            final(self).same_tables(*old(self)),
            r is Ok == first(NonTerminal::Op1).contains(head(old(self).stream()).token_type),
            r is Ok ==> r->Ok_0@ == head(old(self).stream()) && final(self).stream() == rest(
                old(self).stream(),
            ),
            r is Err ==> r->Err_0@ == Fault::InvalidSyntax.text(),
    {
        self.expect_nt_retrieve(&NonTerminal::Op1)
    }

    /// `Op2 = "^"`
    fn op2(&mut self) -> (r: Result<Token, String>)
        requires
            old(self).ready(),
        ensures
            final(self).ready(),
            final(self).same_tables(*old(self)),
            r is Ok == first(NonTerminal::Op2).contains(head(old(self).stream()).token_type),
            r is Ok ==> r->Ok_0@ == head(old(self).stream()) && final(self).stream() == rest(
                old(self).stream(),
            ),
            r is Err ==> r->Err_0@ == Fault::InvalidSyntax.text(),
    {
        self.expect_nt_retrieve(&NonTerminal::Op2)
    }

    /// The operator of a token of an operator's kind.
    fn operator(kind: TokenType) -> (op: BinaryOp)
        ensures
            op == operator(kind),
    {
        match kind {
            TokenType::Add => BinaryOp::Add,
            TokenType::Sub => BinaryOp::Sub,
            TokenType::Mul => BinaryOp::Mul,
            TokenType::Div => BinaryOp::Div,
            TokenType::Mod => BinaryOp::Mod,
            _ => BinaryOp::Pow,
        }
    }

    /// `Literal = Integer | Float | Exponent`
    fn literal(&mut self) -> (r: Result<Expr, String>)
        requires
            old(self).ready(),
        ensures
            final(self).ready(),
            final(self).same_tables(*old(self)),
            reads(r, literal(old(self).stream()), final(self).stream(), old(self).stream()),
    {
        let token = self.expect_nt_retrieve(&NonTerminal::Literal)?;
        if valid_number(token.lexeme.as_str()) {
            Ok(Expr::Literal(token.lexeme))
        } else {
            Err(invalid_number())
        }
    }

    /// `Power = Literal | Call | "(" Exp ")" | Op0 Power`
    fn power(&mut self, memory: &StringHashMap<u64>) -> (r: Result<Expr, String>)
        requires
            old(self).ready(),
        ensures
            final(self).ready(),
            final(self).same_tables(*old(self)),
            reads(
                r,
                power(old(self).stream(), old(self).env(memory@)),
                final(self).stream(),
                old(self).stream(),
            ),
        decreases old(self).stream().len(), 1nat,
    {
        if self.have_nt(&NonTerminal::Literal) {
            Ok(self.literal()?)
        } else if self.have_nt(&NonTerminal::Call) {
            Ok(self.call(memory)?)
        } else if self.accept(&TokenType::OpenParen) {
            let v = self.exp(memory)?;
            self.expect(&TokenType::CloseParen)?;
            Ok(v)
        } else if self.have_nt(&NonTerminal::Op0) {
            let op0 = self.op0()?;
            let val = self.power(memory)?;
            match op0.token_type {
                TokenType::Sub => Ok(Expr::Negate(Box::new(val))),
                _ => Ok(val),
            }
        } else {
            Err(invalid_syntax())
        }
    }

    /// `Factor = Power [ Op2 Factor ]`
    fn factor(&mut self, memory: &StringHashMap<u64>) -> (r: Result<Expr, String>)
        requires
            old(self).ready(),
        ensures
            final(self).ready(),
            final(self).same_tables(*old(self)),
            reads(
                r,
                factor(old(self).stream(), old(self).env(memory@)),
                final(self).stream(),
                old(self).stream(),
            ),
        decreases old(self).stream().len(), 2nat,
    {
        let mut a = self.power(memory)?;
        if self.have_nt(&NonTerminal::Op2) {
            let op2 = self.op2()?;
            let b = self.factor(memory)?;
            a = Expr::Binary(Self::operator(op2.token_type), Box::new(a), Box::new(b));
        }
        Ok(a)
    }

    /// `Addend = Factor { Op1 Factor }`
    fn addend(&mut self, memory: &StringHashMap<u64>) -> (r: Result<Expr, String>)
        requires
            old(self).ready(),
        ensures
            final(self).ready(),
            final(self).same_tables(*old(self)),
            reads(
                r,
                addend(old(self).stream(), old(self).env(memory@)),
                final(self).stream(),
                old(self).stream(),
            ),
        decreases old(self).stream().len(), 3nat,
    {
        let ghost env = self.env(memory@);
        let mut a = self.factor(memory)?;

        while self.have_nt(&NonTerminal::Op1)
            invariant
                self.ready(),
                self.same_tables(*old(self)),
                env == old(self).env(memory@),
                self.stream().len() < old(self).stream().len(),
                addend(old(self).stream(), env) == addend_rest(a@, self.stream(), env),
            decreases self.stream().len(),
        {
            let op1 = self.op1()?;
            let b = self.factor(memory)?;
            a = Expr::Binary(Self::operator(op1.token_type), Box::new(a), Box::new(b));
        }

        Ok(a)
    }

    /// `Exp = Addend { Op0 Addend }`
    fn exp(&mut self, memory: &StringHashMap<u64>) -> (r: Result<Expr, String>)
        requires
            old(self).ready(),
        ensures
            final(self).ready(),
            final(self).same_tables(*old(self)),
            reads(
                r,
                exp(old(self).stream(), old(self).env(memory@)),
                final(self).stream(),
                old(self).stream(),
            ),
        decreases old(self).stream().len(), 4nat,
    {
        let ghost env = self.env(memory@);
        let mut a = self.addend(memory)?;

        while self.have_nt(&NonTerminal::Op0)
            invariant
                self.ready(),
                self.same_tables(*old(self)),
                env == old(self).env(memory@),
                self.stream().len() < old(self).stream().len(),
                exp(old(self).stream(), env) == exp_rest(a@, self.stream(), env),
            decreases self.stream().len(),
        {
            let op0 = self.op0()?;
            let b = self.addend(memory)?;
            a = Expr::Binary(Self::operator(op0.token_type), Box::new(a), Box::new(b));
        }

        Ok(a)
    }

    /// `ExpList = [ Exp { "," Exp } ]`
    fn exp_list(&mut self, memory: &StringHashMap<u64>) -> (r: Result<Vec<Expr>, String>)
        requires
            old(self).ready(),
        ensures
            final(self).ready(),
            final(self).same_tables(*old(self)),
            match exp_list(old(self).stream(), old(self).env(memory@)) {
                Ok((args, left)) => r is Ok && views(r->Ok_0@) == args && final(self).stream()
                    == left && left.len() <= old(self).stream().len(),
                Err(f) => r is Err && r->Err_0@ == f.text(),
            },
        decreases old(self).stream().len(), 5nat,
    {
        let ghost env = self.env(memory@);
        let mut list: Vec<Expr> = Vec::new();
        if self.have_nt(&NonTerminal::Exp) {
            let first_arg = self.exp(memory)?;
            list.push(first_arg);
            assert(views(list@) =~= seq![first_arg@]);

            loop
                invariant
                    self.ready(),
                    self.same_tables(*old(self)),
                    env == old(self).env(memory@),
                    self.stream().len() < old(self).stream().len(),
                    exp_list(old(self).stream(), env) == exp_list_rest(
                        views(list@),
                        self.stream(),
                        env,
                    ),
                ensures
                    self.ready(),
                    self.same_tables(*old(self)),
                    self.stream().len() < old(self).stream().len(),
                    exp_list(old(self).stream(), env) == Ok::<
                        (Seq<SpecExpr>, Seq<SpecToken>),
                        Fault,
                    >((views(list@), self.stream())),
                decreases self.stream().len(),
            {
                if !self.accept(&TokenType::Comma) {
                    break ;
                }
                let ghost seen = views(list@);
                let arg = self.exp(memory)?;
                list.push(arg);
                assert(views(list@) =~= seen.push(arg@));
            }
        } else {
            assert(views(list@) =~= Seq::<SpecExpr>::empty());
        }

        Ok(list)
    }

    /// `Call = Identifier [ "(" ExpList ")" ]`
    fn call(&mut self, memory: &StringHashMap<u64>) -> (r: Result<Expr, String>)
        requires
            old(self).ready(),
        ensures
            final(self).ready(),
            final(self).same_tables(*old(self)),
            reads(
                r,
                call(old(self).stream(), old(self).env(memory@)),
                final(self).stream(),
                old(self).stream(),
            ),
        decreases old(self).stream().len(), 0nat,
    {
        let lexeme = self.expect_retrieve(&TokenType::Identifier)?.lexeme;

        if self.accept(&TokenType::OpenParen) {
            let params = self.exp_list(memory)?;
            self.expect(&TokenType::CloseParen)?;
            match self.functions.get(lexeme.as_str()) {
                Some(function) => {
                    if function.arity.accepts(params.len()) {
                        proof {
                            lemma_call_view(lexeme, params);
                        }
                        Ok(Expr::Call(lexeme, params))
                    } else {
                        Err(wrong_arity(lexeme.as_str(), function.arity))
                    }
                },
                None => Err(unknown_function(lexeme.as_str())),
            }
        } else {
            match self.constants.get(lexeme.as_str()) {
                Some(v) => Ok(Expr::Value(*v)),
                None => match memory.get(lexeme.as_str()) {
                    Some(v) => Ok(Expr::Value(*v)),
                    None => Err(unknown_variable(lexeme.as_str())),
                },
            }
        }
    }

    /// The description of the use of the function `name`, if there is such a
    /// function.
    pub fn usage(&self, name: &str) -> (r: Option<String>)
        ensures
            r is Some == self.functions().contains_key(name@),
            r is Some ==> r->0@ == self.functions()[name@].usage,
    {
        match self.functions.get(name) {
            Some(function) => Some(function.desc.clone()),
            None => None,
        }
    }

    /// Whether `var` may stand on the left of an assignment.
    pub fn is_valid_assignment(&self, var: &str) -> (r: bool)
        ensures
            r == assignable(var@, self.env(Map::empty())),
    {
        if same_text(var, "ans") {
            false
        } else {
            if self.constants.get(var).is_some() {
                return false;
            }
            if self.functions.get(var).is_some() {
                return false;
            }
            true
        }
    }

    /// `Line = [ Identifier "=" ] Exp`
    fn input(&mut self, memory: &StringHashMap<u64>) -> (r: Result<PResult, String>)
        requires
            old(self).ready(),
        ensures
            final(self).ready(),
            final(self).same_tables(*old(self)),
            match input(old(self).stream(), old(self).env(memory@)) {
                Ok((result, left)) => r is Ok && r->Ok_0@ == result && final(self).stream() == left,
                Err(f) => r is Err && r->Err_0@ == f.text(),
            },
    {
        let mut result = PResult { var: None, val: Expr::Value(0) };
        if self.have(&TokenType::Identifier) && self.have_next(&TokenType::Equal) {
            if !self.is_valid_assignment(self.token.lexeme.as_str()) {
                return Err(invalid_assignment());
            }
            result.var = Some(self.token.lexeme.clone());
            self.accept(&TokenType::Identifier);
            self.accept(&TokenType::Equal);
        }
        result.val = self.exp(memory)?;

        Ok(result)
    }

    /// Reads the line that `scanner` delivers. The result is `None` for a line
    /// without tokens, else the expression of the line and the variable that
    /// it assigns to, if any; the variables that the line may name are those
    /// of `memory`.
    pub fn parse(&mut self, scanner: Scanner, memory: &StringHashMap<u64>) -> (r: Result<
        Option<PResult>,
        String,
    >)
        requires
            old(self).wf(),
            scanner.wf(),
        ensures
            final(self).wf(),
            final(self).functions() == old(self).functions(),
            final(self).constants() == old(self).constants(),
            match line(scanner@, old(self).env(memory@)) {
                Ok(expected) => r is Ok && result_view(r->Ok_0) == expected,
                Err(f) => r is Err && r->Err_0@ == f.text(),
            },
    {
        let mut scanner = scanner;
        let ghost all = scanner@;
        self.token = scanner.next_token();
        self.scanner = Some(scanner);
        assert(self.stream() =~= all);

        let mut result: Option<PResult> = None;

        if self.have_nt(&NonTerminal::Line) {
            result = Some(self.input(memory)?);
        }
        self.expect(&TokenType::EOL)?;
        Ok(result)
    }
}

} // verus!
