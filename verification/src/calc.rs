//! The calculator: the tables of functions and constants, the variables, and
//! what each line does to them.
//!
//! The calculator decides; it does not compute with doubles. [`Calculator::run`]
//! reads a line and answers with text or with an expression that is to be
//! evaluated. Whoever evaluates it hands the value to [`Calculator::commit`],
//! which stores it and words the answer.

use crate::expr::{PResult, SpecResult};
use crate::fault::{invalid_assignment, Fault};
use crate::function::{signatures, Arity, Function, Signature};
use crate::grammar::{assignable, line, Env};
use crate::names::{ascending, texts, Names};
use crate::parser::Parser;
use crate::scanner::{is_word, is_word_start, tokenize, Scanner};
use vstd::hash_map::StringHashMap;
use vstd::prelude::*;
use vstd::string::StringExecFns;

verus! {

/// The table `table` with one more function.
pub open spec fn with(
    table: Map<Seq<char>, Signature>,
    name: &str,
    arity: Arity,
    usage: &str,
) -> Map<Seq<char>, Signature> {
    table.insert(name@, Signature { arity, usage: usage@ })
}

/// The built-in trigonometric functions.
pub open spec fn builtin_trigonometry() -> Map<Seq<char>, Signature> {
    let t = Map::empty();
    let t = with(t, "sin", Arity::Exact(1), "sin(n)");
    let t = with(t, "cos", Arity::Exact(1), "cos(n)");
    let t = with(t, "tan", Arity::Exact(1), "tan(n)");
    let t = with(t, "sinh", Arity::Exact(1), "sinh(n)");
    let t = with(t, "cosh", Arity::Exact(1), "cosh(n)");
    let t = with(t, "tanh", Arity::Exact(1), "tan(n)");
    let t = with(t, "asin", Arity::Exact(1), "asin(n)");
    let t = with(t, "acos", Arity::Exact(1), "acos(n)");
    let t = with(t, "atan", Arity::Exact(1), "atan(n)");
    let t = with(t, "atan2", Arity::Exact(2), "atan2(x, y)");
    t
}

/// The built-in trigonometric and algebraic functions.
pub open spec fn builtin_algebra() -> Map<Seq<char>, Signature> {
    let t = builtin_trigonometry();
    let t = with(t, "abs", Arity::Exact(1), "abs(n)");
    let t = with(t, "log10", Arity::Exact(1), "log10(n)");
    let t = with(t, "ln", Arity::Exact(1), "ln(n)");
    let t = with(t, "log2", Arity::Exact(1), "log2(n)");
    let t = with(t, "log", Arity::Exact(2), "log(n, base)");
    let t = with(t, "sqrt", Arity::Exact(1), "sqrt(n)");
    let t = with(t, "cbrt", Arity::Exact(1), "cbrt(n)");
    let t = with(t, "root", Arity::Exact(2), "root(n, root)");
    let t = with(t, "sign", Arity::Exact(1), "sign(n)");
    let t = with(t, "exp", Arity::Exact(1), "exp(n)");
    t
}

/// The built-in functions but for the conversions of angles.
pub open spec fn builtin_rounding() -> Map<Seq<char>, Signature> {
    let t = builtin_algebra();
    let t = with(t, "trunc", Arity::Exact(1), "trunc(n)");
    let t = with(t, "round", Arity::Exact(1), "round(n)");
    let t = with(t, "floor", Arity::Exact(1), "floor(n)");
    let t = with(t, "ceil", Arity::Exact(1), "ceil(n)");
    let t = with(t, "min", Arity::AtLeast(2), "min(n, ...)");
    let t = with(t, "max", Arity::AtLeast(2), "max(n, ...)");
    t
}

/// The built-in functions: each name with the number of its arguments and
/// the description of its use.
pub open spec fn builtin_functions() -> Map<Seq<char>, Signature> {
    let t = builtin_rounding();
    let t = with(t, "rad2deg", Arity::Exact(1), "rad2deg(radians)");
    let t = with(t, "deg2rad", Arity::Exact(1), "deg2rad(degrees)");
    let t = with(t, "grad2deg", Arity::Exact(1), "grad2deg(gradians)");
    let t = with(t, "deg2grad", Arity::Exact(1), "deg2grad(degrees)");
    let t = with(t, "grad2rad", Arity::Exact(1), "grad2rad(gradians)");
    let t = with(t, "rad2grad", Arity::Exact(1), "rad2grad(radians)");
    t
}

/// The built-in constants: the circle number, Euler's number and infinity,
/// each as the 64 bits of its double.
pub open spec fn builtin_constants() -> Map<Seq<char>, u64> {
    Map::empty().insert("PI"@, 0x4009_21FB_5444_2D18u64).insert(
        "E"@,
        0x4005_BF0A_8B14_5769u64,
    ).insert("INF"@, 0x7FF0_0000_0000_0000u64)
}

/// The variables of a fresh calculator: `ans`, which is zero.
pub open spec fn fresh_memory() -> Map<Seq<char>, u64> {
    Map::empty().insert("ans"@, 0u64)
}

/// `name` has the form of an identifier: a letter or an underscore, then
/// letters, digits and underscores.
pub open spec fn is_identifier(name: Seq<char>) -> bool {
    &&& name.len() > 0
    &&& is_word_start(name[0])
    &&& forall|i: int| 0 <= i < name.len() ==> is_word(#[trigger] name[i])
}

/// The names are kept apart: `ans` is a variable and neither a constant nor a
/// function, and the name of a function has the form of an identifier and is
/// neither a constant nor a variable.
pub open spec fn sound(env: Env) -> bool {
    &&& env.memory.contains_key("ans"@)
    &&& !env.constants.contains_key("ans"@)
    &&& !env.functions.contains_key("ans"@)
    &&& forall|name: Seq<char>| #[trigger]
        env.functions.contains_key(name) ==> is_identifier(name) && !env.constants.contains_key(
            name,
        ) && !env.memory.contains_key(name)
}

/// `names` lists the keys of `table` in ascending order, each once.
pub open spec fn lists<V>(names: Seq<Seq<char>>, table: Map<Seq<char>, V>) -> bool {
    &&& ascending(names)
    &&& forall|name: Seq<char>| table.contains_key(name) <==> names.contains(name)
}

/// The mathematical content of an [`Outcome`].
pub enum SpecOutcome {
    Reply(Seq<char>),
    Pending(SpecResult),
}

/// What a line comes to.
#[derive(Debug)]
pub enum Outcome {
    /// The answer to the line, which is empty for a line without tokens and
    /// the description of a function's use for a line that is a function's name.
    Reply(String),
    /// The line asks for the value of an expression. Once it is evaluated,
    /// [`Calculator::commit`] stores the value and gives the answer.
    Pending(PResult),
}

impl View for Outcome {
    type V = SpecOutcome;

    open spec fn view(&self) -> SpecOutcome {
        match self {
            Outcome::Reply(text) => SpecOutcome::Reply(text@),
            Outcome::Pending(result) => SpecOutcome::Pending(result@),
        }
    }
}

/// What the line `input` comes to where the names are those of `env`: the
/// expression that it asks for, an empty answer for a line without tokens, the
/// description of the function's use where the line fails and is exactly a
/// function's name, else the message of the first fault in the line.
pub open spec fn plan(input: Seq<char>, env: Env) -> Result<SpecOutcome, Seq<char>> {
    match line(tokenize(input), env) {
        Ok(Some(result)) => Ok(SpecOutcome::Pending(result)),
        Ok(None) => Ok(SpecOutcome::Reply(Seq::empty())),
        Err(fault) => if env.functions.contains_key(input) {
            Ok(SpecOutcome::Reply(env.functions[input].usage))
        } else {
            Err(fault.text())
        },
    }
}

/// The variables once the value `value` was found for a line that assigns to
/// `var`: `ans` holds the value, and so does the variable.
pub open spec fn stored(memory: Map<Seq<char>, u64>, var: Option<Seq<char>>, value: u64) -> Map<
    Seq<char>,
    u64,
> {
    match var {
        Some(name) => memory.insert("ans"@, value).insert(name, value),
        None => memory.insert("ans"@, value),
    }
}

/// The answer to a line whose value is printed as `shown`: the value alone,
/// or the variable, an equals sign and the value.
pub open spec fn answer(var: Option<Seq<char>>, shown: Seq<char>) -> Seq<char> {
    match var {
        Some(name) => name + " = "@ + shown,
        None => shown,
    }
}

/// The content of an optional name.
pub open spec fn name_view(var: Option<String>) -> Option<Seq<char>> {
    match var {
        Some(name) => Some(name@),
        None => None,
    }
}

/// A calculator: the built-in functions and constants, and the variables
/// that the lines so far have set.
pub struct Calculator {
    parser: Parser,
    memory: StringHashMap<u64>,
    function_names: Names,
    constant_names: Names,
}

impl Calculator {
    /// The values of the variables, by name.
    pub closed spec fn memory(&self) -> Map<Seq<char>, u64> {
        self.memory@
    }

    /// The functions, by name.
    pub closed spec fn functions(&self) -> Map<Seq<char>, Signature> {
        self.parser.functions()
    }

    /// The values of the constants, by name.
    pub closed spec fn constants(&self) -> Map<Seq<char>, u64> {
        self.parser.constants()
    }

    /// The names that a line may use.
    pub open spec fn env(&self) -> Env {
        Env { functions: self.functions(), constants: self.constants(), memory: self.memory() }
    }

    /// The parser's tables are in order, and the lists of names are those of
    /// the tables.
    pub closed spec fn intact(&self) -> bool {
        &&& self.parser.wf()
        &&& self.function_names.wf()
        &&& self.constant_names.wf()
        &&& lists(self.function_names@, self.functions())
        &&& lists(self.constant_names@, self.constants())
    }

    /// The calculator is in order: its tables are as they were made, and its
    /// names are kept apart.
    pub open spec fn wf(&self) -> bool {
        &&& self.intact()
        &&& sound(self.env())
    }

    /// Adds a function to the table.
    fn register(
        functions: &mut StringHashMap<Function>,
        names: &mut Names,
        name: &str,
        arity: Arity,
        desc: &str,
    )
        requires
            old(names).wf(),
            lists(old(names)@, signatures(old(functions)@)),
        ensures
            final(names).wf(),
            lists(final(names)@, signatures(final(functions)@)),
            signatures(final(functions)@) == with(signatures(old(functions)@), name, arity, desc),
    {
        names.insert(name);
        functions.insert(name.to_owned(), Function { arity, desc: desc.to_owned() });
        assert(signatures(functions@) =~= with(signatures(old(functions)@), name, arity, desc));
    }

    /// Adds a constant to the table.
    fn define(constants: &mut StringHashMap<u64>, names: &mut Names, name: &str, value: u64)
        requires
            old(names).wf(),
            lists(old(names)@, old(constants)@),
        ensures
            final(names).wf(),
            lists(final(names)@, final(constants)@),
            final(constants)@ == old(constants)@.insert(name@, value),
    {
        names.insert(name);
        constants.insert(name.to_owned(), value);
    }

    /// A calculator with the built-in functions and constants and the one
    /// variable `ans`, which is zero.
    pub fn new() -> (r: Calculator)
        ensures
            r.wf(),
            r.functions() == builtin_functions(),
            r.constants() == builtin_constants(),
            r.memory() == fresh_memory(),
    {
        let mut memory: StringHashMap<u64> = StringHashMap::new();
        let mut constants: StringHashMap<u64> = StringHashMap::new();
        let mut functions: StringHashMap<Function> = StringHashMap::new();
        let mut constant_names = Names::new();
        let mut function_names = Names::new();

        memory.insert("ans".to_owned(), 0);

        Self::define(&mut constants, &mut constant_names, "PI", 0x4009_21FB_5444_2D18);
        Self::define(&mut constants, &mut constant_names, "E", 0x4005_BF0A_8B14_5769);
        Self::define(&mut constants, &mut constant_names, "INF", 0x7FF0_0000_0000_0000);

        assert(signatures(functions@) =~= Map::empty());
        Self::register(&mut functions, &mut function_names, "sin", Arity::Exact(1), "sin(n)");
        Self::register(&mut functions, &mut function_names, "cos", Arity::Exact(1), "cos(n)");
        Self::register(&mut functions, &mut function_names, "tan", Arity::Exact(1), "tan(n)");
        Self::register(&mut functions, &mut function_names, "sinh", Arity::Exact(1), "sinh(n)");
        Self::register(&mut functions, &mut function_names, "cosh", Arity::Exact(1), "cosh(n)");
        Self::register(&mut functions, &mut function_names, "tanh", Arity::Exact(1), "tan(n)");
        Self::register(&mut functions, &mut function_names, "asin", Arity::Exact(1), "asin(n)");
        Self::register(&mut functions, &mut function_names, "acos", Arity::Exact(1), "acos(n)");
        Self::register(&mut functions, &mut function_names, "atan", Arity::Exact(1), "atan(n)");
        Self::register(
            &mut functions,
            &mut function_names,
            "atan2",
            Arity::Exact(2),
            "atan2(x, y)",
        );
        assert(signatures(functions@) == builtin_trigonometry());

        Self::register(&mut functions, &mut function_names, "abs", Arity::Exact(1), "abs(n)");
        Self::register(&mut functions, &mut function_names, "log10", Arity::Exact(1), "log10(n)");
        Self::register(&mut functions, &mut function_names, "ln", Arity::Exact(1), "ln(n)");
        Self::register(&mut functions, &mut function_names, "log2", Arity::Exact(1), "log2(n)");
        Self::register(
            &mut functions,
            &mut function_names,
            "log",
            Arity::Exact(2),
            "log(n, base)",
        );
        Self::register(&mut functions, &mut function_names, "sqrt", Arity::Exact(1), "sqrt(n)");
        Self::register(&mut functions, &mut function_names, "cbrt", Arity::Exact(1), "cbrt(n)");
        Self::register(
            &mut functions,
            &mut function_names,
            "root",
            Arity::Exact(2),
            "root(n, root)",
        );
        Self::register(&mut functions, &mut function_names, "sign", Arity::Exact(1), "sign(n)");
        Self::register(&mut functions, &mut function_names, "exp", Arity::Exact(1), "exp(n)");
        assert(signatures(functions@) == builtin_algebra());

        Self::register(&mut functions, &mut function_names, "trunc", Arity::Exact(1), "trunc(n)");
        Self::register(&mut functions, &mut function_names, "round", Arity::Exact(1), "round(n)");
        Self::register(&mut functions, &mut function_names, "floor", Arity::Exact(1), "floor(n)");
        Self::register(&mut functions, &mut function_names, "ceil", Arity::Exact(1), "ceil(n)");
        Self::register(
            &mut functions,
            &mut function_names,
            "min",
            Arity::AtLeast(2),
            "min(n, ...)",
        );
        Self::register(
            &mut functions,
            &mut function_names,
            "max",
            Arity::AtLeast(2),
            "max(n, ...)",
        );
        assert(signatures(functions@) == builtin_rounding());

        Self::register(
            &mut functions,
            &mut function_names,
            "rad2deg",
            Arity::Exact(1),
            "rad2deg(radians)",
        );
        Self::register(
            &mut functions,
            &mut function_names,
            "deg2rad",
            Arity::Exact(1),
            "deg2rad(degrees)",
        );
        Self::register(
            &mut functions,
            &mut function_names,
            "grad2deg",
            Arity::Exact(1),
            "grad2deg(gradians)",
        );
        Self::register(
            &mut functions,
            &mut function_names,
            "deg2grad",
            Arity::Exact(1),
            "deg2grad(degrees)",
        );
        Self::register(
            &mut functions,
            &mut function_names,
            "grad2rad",
            Arity::Exact(1),
            "grad2rad(gradians)",
        );
        Self::register(
            &mut functions,
            &mut function_names,
            "rad2grad",
            Arity::Exact(1),
            "rad2grad(radians)",
        );
        assert(signatures(functions@) == builtin_functions());

        proof {
            lemma_builtin_sound();
        }
        Calculator {
            parser: Parser::new(functions, constants),
            memory,
            function_names,
            constant_names,
        }
    }

    /// Reads the line `input`. The calculator's names stay as they are.
    pub fn run(&mut self, input: &str) -> (r: Result<Outcome, String>)
        requires
            old(self).wf(),
        ensures
            final(self).wf(),
            final(self).env() == old(self).env(),
            match plan(input@, old(self).env()) {
                Ok(outcome) => r is Ok && r->Ok_0@ == outcome,
                Err(message) => r is Err && r->Err_0@ == message,
            },
    {
        proof {
            reveal_strlit("");
        }
        match self.parser.parse(Scanner::new(input), &self.memory) {
            Ok(result) => {
                match result {
                    Some(result) => Ok(Outcome::Pending(result)),
                    None => {
                        let nothing = "".to_owned();
                        assert(nothing@ =~= Seq::<char>::empty());
                        Ok(Outcome::Reply(nothing))
                    },
                }
            },
            Err(e) => match self.parser.usage(input) {
                Some(desc) => Ok(Outcome::Reply(desc)),
                None => Err(e),
            },
        }
    }

    /// Stores the value of a line that [`Calculator::run`] handed out for
    /// evaluation, and gives the answer to the line. `var` is the variable
    /// that the line assigns to, `value` the 64 bits of the value and `shown`
    /// the value as it is printed. `ans` takes the value, and so does the
    /// variable. Nothing is stored where `var` cannot be assigned to.
    pub fn commit(&mut self, var: Option<String>, value: u64, shown: &str) -> (r: Result<
        String,
        String,
    >)
        requires
            old(self).wf(),
        ensures
            final(self).wf(),
            final(self).functions() == old(self).functions(),
            final(self).constants() == old(self).constants(),
            if var is Some && !assignable(var->0@, old(self).env()) {
                &&& r is Err
                &&& r->Err_0@ == Fault::InvalidAssignment.text()
                &&& final(self).memory() == old(self).memory()
            } else {
                &&& r is Ok
                &&& r->Ok_0@ == answer(name_view(var), shown@)
                &&& final(self).memory() == stored(old(self).memory(), name_view(var), value)
            },
    {
        match var {
            Some(name) => {
                if !self.parser.is_valid_assignment(name.as_str()) {
                    return Err(invalid_assignment());
                }
                let mut text = name.clone();
                text.append(" = ");
                text.append(shown);
                self.memory.insert("ans".to_owned(), value);
                self.memory.insert(name, value);
                Ok(text)
            },
            None => {
                self.memory.insert("ans".to_owned(), value);
                Ok(shown.to_owned())
            },
        }
    }

    /// Forgets every variable: only `ans` is left, and it is zero.
    pub fn reset(&mut self)
        requires
            old(self).wf(),
        ensures
            final(self).wf(),
            final(self).functions() == old(self).functions(),
            final(self).constants() == old(self).constants(),
            final(self).memory() == fresh_memory(),
    {
        self.memory.clear();
        self.memory.insert("ans".to_owned(), 0);
    }

    /// The names of the constants in ascending order, each once.
    pub fn get_constants(&self) -> (names: Vec<String>)
        requires
            self.wf(),
        ensures
            lists(texts(names@), self.constants()),
    {
        self.constant_names.to_vec()
    }

    /// The names of the functions in ascending order, each once.
    pub fn get_functions(&self) -> (names: Vec<String>)
        requires
            self.wf(),
        ensures
            lists(texts(names@), self.functions()),
    {
        self.function_names.to_vec()
    }
}

/// The built-in tables keep their names apart.
pub proof fn lemma_builtin_sound()
    ensures
        sound(
            Env {
                functions: builtin_functions(),
                constants: builtin_constants(),
                memory: fresh_memory(),
            },
        ),
{
    lemma_conversion_names();
    reveal_strlit("ans");
    reveal_strlit("PI");
    reveal_strlit("E");
    reveal_strlit("INF");
    let functions = builtin_functions();
    let constants = builtin_constants();
    assert(!proper("ans"@));
    assert(!functions.contains_key("ans"@));
    assert(!constants.contains_key("ans"@));
    assert forall|name: Seq<char>| #[trigger] functions.contains_key(name) implies is_identifier(
        name,
    ) && !constants.contains_key(name) && !fresh_memory().contains_key(name) by {
        assert(proper(name));
    }
}

/// `name` has the form of an identifier and is neither `ans` nor a constant.
spec fn proper(name: Seq<char>) -> bool {
    &&& is_identifier(name)
    &&& name.len() >= 2
    &&& name[0] != 'a' || name[1] != 'n'
    &&& name[0] != 'P' && name[0] != 'E' && name[0] != 'I'
}

proof fn lemma_trigonometry_names()
    ensures
        forall|name: Seq<char>| #[trigger]
            builtin_trigonometry().contains_key(name) ==> proper(name),
{
    reveal_strlit("sin");
    reveal_strlit("cos");
    reveal_strlit("tan");
    reveal_strlit("sinh");
    reveal_strlit("cosh");
    reveal_strlit("tanh");
    reveal_strlit("asin");
    reveal_strlit("acos");
    reveal_strlit("atan");
    reveal_strlit("atan2");
}

proof fn lemma_algebra_names()
    ensures
        forall|name: Seq<char>| #[trigger]
            builtin_algebra().contains_key(name) ==> proper(name),
{
    lemma_trigonometry_names();
    reveal_strlit("abs");
    reveal_strlit("log10");
    reveal_strlit("ln");
    reveal_strlit("log2");
    reveal_strlit("log");
    reveal_strlit("sqrt");
    reveal_strlit("cbrt");
    reveal_strlit("root");
    reveal_strlit("sign");
    reveal_strlit("exp");
}

proof fn lemma_rounding_names()
    ensures
        forall|name: Seq<char>| #[trigger]
            builtin_rounding().contains_key(name) ==> proper(name),
{
    lemma_algebra_names();
    reveal_strlit("trunc");
    reveal_strlit("round");
    reveal_strlit("floor");
    reveal_strlit("ceil");
    reveal_strlit("min");
    reveal_strlit("max");
}

proof fn lemma_conversion_names()
    ensures
        forall|name: Seq<char>| #[trigger]
            builtin_functions().contains_key(name) ==> proper(name),
{
    lemma_rounding_names();
    reveal_strlit("rad2deg");
    reveal_strlit("deg2rad");
    reveal_strlit("grad2deg");
    reveal_strlit("deg2grad");
    reveal_strlit("grad2rad");
    reveal_strlit("rad2grad");
}

} // verus!
