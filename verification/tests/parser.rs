use calc::fault::wrong_arity;
use calc::names::{before, Names};
use calc::function::{Arity, Function};
use calc::parser::{valid_number, Parser};
use calc::text::{chars_of, push_decimal, same_text};
use calc::{BinaryOp, Calculator, Expr, Outcome, PResult, Scanner, TokenSet, TokenType};

fn lit(text: &str) -> Box<Expr> {
    Box::new(Expr::Literal(text.to_string()))
}

fn binary(op: BinaryOp, left: Box<Expr>, right: Box<Expr>) -> Box<Expr> {
    Box::new(Expr::Binary(op, left, right))
}

fn plan(calc: &mut Calculator, input: &str) -> PResult {
    match calc.run(input).unwrap() {
        Outcome::Pending(result) => result,
        Outcome::Reply(text) => panic!("{} => {}", input, text),
    }
}

fn tree(input: &str) -> Expr {
    let result = plan(&mut Calculator::new(), input);
    assert_eq!(result.var, None);
    result.val
}

#[test]
fn addition_and_subtraction_group_to_the_left() {
    assert_eq!(
        tree("1-2+3"),
        *binary(BinaryOp::Add, binary(BinaryOp::Sub, lit("1"), lit("2")), lit("3"))
    );
}

#[test]
fn multiplication_binds_tighter_than_addition() {
    assert_eq!(
        tree("1+2*3"),
        *binary(BinaryOp::Add, lit("1"), binary(BinaryOp::Mul, lit("2"), lit("3")))
    );
    assert_eq!(
        tree("1*2+3"),
        *binary(BinaryOp::Add, binary(BinaryOp::Mul, lit("1"), lit("2")), lit("3"))
    );
    assert_eq!(
        tree("8/4%3*2"),
        *binary(
            BinaryOp::Mul,
            binary(BinaryOp::Mod, binary(BinaryOp::Div, lit("8"), lit("4")), lit("3")),
            lit("2")
        )
    );
}

#[test]
fn power_groups_to_the_right() {
    assert_eq!(
        tree("2^3^2"),
        *binary(BinaryOp::Pow, lit("2"), binary(BinaryOp::Pow, lit("3"), lit("2")))
    );
    assert_eq!(
        tree("2*3^2"),
        *binary(BinaryOp::Mul, lit("2"), binary(BinaryOp::Pow, lit("3"), lit("2")))
    );
}

#[test]
fn a_sign_belongs_to_the_operand_of_a_power() {
    assert_eq!(
        tree("-2^2"),
        *binary(BinaryOp::Pow, Box::new(Expr::Negate(lit("2"))), lit("2"))
    );
    assert_eq!(
        tree("2^-2"),
        *binary(BinaryOp::Pow, lit("2"), Box::new(Expr::Negate(lit("2"))))
    );
    assert_eq!(tree("+2"), *lit("2"));
    assert_eq!(tree("--2"), Expr::Negate(Box::new(Expr::Negate(lit("2")))));
    assert_eq!(tree("-+-2"), Expr::Negate(Box::new(Expr::Negate(lit("2")))));
}

#[test]
fn parentheses_leave_no_trace_but_the_grouping() {
    assert_eq!(tree("(2)"), *lit("2"));
    assert_eq!(tree("((2))"), *lit("2"));
    assert_eq!(
        tree("(1+2)*3"),
        *binary(BinaryOp::Mul, binary(BinaryOp::Add, lit("1"), lit("2")), lit("3"))
    );
    assert_eq!(
        tree("1-(2-3)"),
        *binary(BinaryOp::Sub, lit("1"), binary(BinaryOp::Sub, lit("2"), lit("3")))
    );
}

#[test]
fn literals_keep_their_text() {
    assert_eq!(tree("1.50"), *lit("1.50"));
    assert_eq!(tree(" 1e+3 "), *lit("1e+3"));
    assert_eq!(tree("007"), *lit("007"));
}

#[test]
fn names_resolve_to_values() {
    assert_eq!(tree("PI"), Expr::Value(std::f64::consts::PI.to_bits()));
    assert_eq!(tree("E"), Expr::Value(std::f64::consts::E.to_bits()));
    assert_eq!(tree("INF"), Expr::Value(f64::INFINITY.to_bits()));
    assert_eq!(tree("ans"), Expr::Value(0));
    let mut calc = Calculator::new();
    assert_eq!(calc.commit(Some("w".to_string()), 7, "seven"), Ok("w = seven".to_string()));
    assert_eq!(plan(&mut calc, "w").val, Expr::Value(7));
    assert_eq!(plan(&mut calc, "ans").val, Expr::Value(7));
    assert_eq!(
        plan(&mut calc, "w+PI").val,
        *binary(
            BinaryOp::Add,
            Box::new(Expr::Value(7)),
            Box::new(Expr::Value(std::f64::consts::PI.to_bits()))
        )
    );
}

#[test]
fn calls_keep_their_arguments_in_order() {
    assert_eq!(
        tree("atan2(1, 2+3)"),
        Expr::Call(
            "atan2".to_string(),
            vec![*lit("1"), *binary(BinaryOp::Add, lit("2"), lit("3"))]
        )
    );
    assert_eq!(
        tree("max(1, min(2, 3), 4)"),
        Expr::Call(
            "max".to_string(),
            vec![
                *lit("1"),
                Expr::Call("min".to_string(), vec![*lit("2"), *lit("3")]),
                *lit("4")
            ]
        )
    );
}

#[test]
fn an_assignment_names_its_variable() {
    let result = plan(&mut Calculator::new(), "x1 = 2 * 3");
    assert_eq!(result.var, Some("x1".to_string()));
    assert_eq!(result.val, *binary(BinaryOp::Mul, lit("2"), lit("3")));
    let result = plan(&mut Calculator::new(), "ans");
    assert_eq!(result.var, None);
}

#[test]
fn only_the_first_equals_sign_assigns() {
    let mut calc = Calculator::new();
    assert_eq!(calc.run("a = b = 2").unwrap_err(), "unknown variable: b");
    assert_eq!(calc.run("a == 2").unwrap_err(), "invalid syntax");
    assert_eq!(calc.run("(a) = 2").unwrap_err(), "unknown variable: a");
    assert_eq!(calc.run("2 = 2").unwrap_err(), "invalid syntax");
}

#[test]
fn a_parser_takes_its_own_tables() {
    let mut functions = vstd::hash_map::StringHashMap::new();
    functions.insert(
        "twice".to_string(),
        Function { arity: Arity::Exact(1), desc: "twice(n)".to_string() },
    );
    functions.insert(
        "sum".to_string(),
        Function { arity: Arity::AtLeast(0), desc: "sum(...)".to_string() },
    );
    let mut constants = vstd::hash_map::StringHashMap::new();
    constants.insert("ONE".to_string(), 1.0_f64.to_bits());
    let mut memory = vstd::hash_map::StringHashMap::new();
    memory.insert("v".to_string(), 5);
    memory.insert("ONE".to_string(), 6);
    let mut parser = Parser::new(functions, constants);

    let result = parser.parse(Scanner::new("twice(v) + ONE"), &memory).unwrap().unwrap();
    assert_eq!(
        result.val,
        *binary(
            BinaryOp::Add,
            Box::new(Expr::Call("twice".to_string(), vec![Expr::Value(5)])),
            Box::new(Expr::Value(1.0_f64.to_bits()))
        )
    );
    assert_eq!(parser.parse(Scanner::new("sum()"), &memory).unwrap().unwrap().val, Expr::Call("sum".to_string(), vec![]));
    assert!(parser.parse(Scanner::new("   "), &memory).unwrap().is_none());
    assert_eq!(parser.parse(Scanner::new("sin(1)"), &memory).unwrap_err(), "unknown function: sin");
    assert_eq!(parser.parse(Scanner::new("twice()"), &memory).unwrap_err(), "twice requires 1 arguments");
    assert_eq!(parser.parse(Scanner::new("u"), &memory).unwrap_err(), "unknown variable: u");
    assert_eq!(
        parser.parse(Scanner::new("twice = 1"), &memory).unwrap_err(),
        "cannot assign to built-in vars, constants or functions"
    );
    let result = parser.parse(Scanner::new("v = v ^ 2"), &memory).unwrap().unwrap();
    assert_eq!(result.var, Some("v".to_string()));
    assert_eq!(parser.usage("twice"), Some("twice(n)".to_string()));
    assert_eq!(parser.usage("thrice"), None);
    assert!(parser.is_valid_assignment("v"));
    assert!(parser.is_valid_assignment("anss"));
    assert!(!parser.is_valid_assignment("ans"));
    assert!(!parser.is_valid_assignment("ONE"));
    assert!(!parser.is_valid_assignment("sum"));
}

#[test]
fn a_scanner_that_was_read_gives_the_rest_of_its_line() {
    let memory = vstd::hash_map::StringHashMap::new();
    let mut parser = Parser::new(
        vstd::hash_map::StringHashMap::new(),
        vstd::hash_map::StringHashMap::new(),
    );
    let mut scanner = Scanner::new("1 + 2 * 3");
    scanner.next_token();
    scanner.next_token();
    let result = parser.parse(scanner, &memory).unwrap().unwrap();
    assert_eq!(result.val, *binary(BinaryOp::Mul, lit("2"), lit("3")));
    let mut scanner = Scanner::new("1");
    scanner.next_token();
    scanner.next_token();
    assert!(parser.parse(scanner, &memory).unwrap().is_none());
}

#[test]
fn numbers_need_their_digits() {
    for text in ["0", "12", "1.", ".5", "1.5", "1e5", "1e+5", "1e-5", "1.e5", ".5e5", "1.5e05"] {
        assert!(valid_number(text), "{}", text);
        assert!(text.parse::<f64>().is_ok(), "{}", text);
    }
    for text in ["", ".", "e", "e5", ".e5", "1e", "1e+", "1e-", "1.5e", "1e5x", "1..5", "1e5.", "+1", "-1", "1e++5", "x"] {
        assert!(!valid_number(text), "{}", text);
    }
    for text in ["", ".", "e", "e5", ".e5", "1e", "1e+", "1e-", "1.5e", "1e5x", "1..5", "1e5.", "1e++5", "x"] {
        assert!(text.parse::<f64>().is_err(), "{}", text);
    }
}

#[test]
fn token_sets_hold_each_kind_once() {
    let mut set = TokenSet::new();
    assert!(!set.contains(TokenType::Add));
    set.insert(TokenType::Add);
    set.insert(TokenType::Sub);
    set.insert(TokenType::Add);
    assert!(set.contains(TokenType::Add));
    assert!(set.contains(TokenType::Sub));
    assert!(!set.contains(TokenType::Mul));
    let mut other = TokenSet::new();
    other.insert(TokenType::Mul);
    other.insert(TokenType::Add);
    set.extend(&other);
    assert!(set.contains(TokenType::Add));
    assert!(set.contains(TokenType::Sub));
    assert!(set.contains(TokenType::Mul));
    assert!(!set.contains(TokenType::EOL));
    assert!(!other.contains(TokenType::Sub));
}

#[test]
fn arities_admit_their_counts() {
    assert!(Arity::Exact(0).accepts(0));
    assert!(!Arity::Exact(0).accepts(1));
    assert!(Arity::Exact(2).accepts(2));
    assert!(!Arity::Exact(2).accepts(1));
    assert!(!Arity::Exact(2).accepts(3));
    assert!(Arity::AtLeast(2).accepts(2));
    assert!(Arity::AtLeast(2).accepts(9));
    assert!(!Arity::AtLeast(2).accepts(1));
    assert!(Arity::AtLeast(0).accepts(0));
}

#[test]
fn messages_spell_numbers_in_decimal() {
    assert_eq!(wrong_arity("f", Arity::Exact(0)), "f requires 0 arguments");
    assert_eq!(wrong_arity("f", Arity::Exact(12)), "f requires 12 arguments");
    assert_eq!(wrong_arity("g", Arity::AtLeast(305)), "g requires 305 or more arguments");
    let mut text = "n = ".to_string();
    push_decimal(&mut text, 9);
    assert_eq!(text, "n = 9");
    push_decimal(&mut text, 10);
    assert_eq!(text, "n = 910");
    let mut text = String::new();
    push_decimal(&mut text, 18446744073709551615);
    assert_eq!(text, "18446744073709551615");
}

#[test]
fn text_helpers_agree_with_the_text() {
    assert_eq!(chars_of("a\u{3c0}c"), vec!['a', '\u{3c0}', 'c']);
    assert_eq!(chars_of(""), Vec::<char>::new());
    assert!(same_text("ans", "ans"));
    assert!(!same_text("ans", "an"));
    assert!(!same_text("ans", "anS"));
    assert!(same_text("", ""));
}

#[test]
fn names_are_ordered_as_in_a_dictionary() {
    assert!(before("a", "b"));
    assert!(!before("b", "a"));
    assert!(!before("a", "a"));
    assert!(before("", "a"));
    assert!(!before("a", ""));
    assert!(!before("", ""));
    assert!(before("atan", "atan2"));
    assert!(!before("atan2", "atan"));
    assert!(before("log10", "log2"));
    assert!(before("E", "INF"));
    assert!(before("PI", "a"));
    assert!(before("Z", "_"));
    assert!(before("_", "a"));
    assert!(before("abc", "abd"));
    assert!(before("ab", "abc"));
    assert!(before("z", "\u{3c0}"));
    for (a, b) in [("sin", "cos"), ("x1", "x10"), ("", "q"), ("Ab", "aB"), ("r\u{e9}", "rz")] {
        assert_eq!(before(a, b), a < b, "{} {}", a, b);
        assert_eq!(before(b, a), b < a, "{} {}", b, a);
    }
}

#[test]
fn a_list_of_names_keeps_its_order_however_it_is_filled() {
    let mut one = Names::new();
    for name in ["sin", "cos", "tan", "abs", "cos", "atan2", "atan", "sin"] {
        one.insert(name);
    }
    let mut other = Names::new();
    for name in ["atan", "tan", "sin", "atan2", "abs", "cos"] {
        other.insert(name);
    }
    assert_eq!(one.to_vec(), vec!["abs", "atan", "atan2", "cos", "sin", "tan"]);
    assert_eq!(one.to_vec(), other.to_vec());
    assert_eq!(Names::new().to_vec(), Vec::<String>::new());
}

#[test]
fn a_text_that_is_no_number_fails_with_the_message_of_the_conversion() {
    let mut calc = Calculator::new();
    for text in [".", "1e", "1e+", "1.5e-", ".e1"] {
        let message = text.parse::<f64>().unwrap_err().to_string();
        assert_eq!(message, "invalid float literal");
        assert_eq!(calc.run(text).unwrap_err(), message, "{}", text);
    }
}
