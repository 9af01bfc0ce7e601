use calc::{BinaryOp, Calculator, Expr, Outcome};

fn apply(name: &str, p: &[f64]) -> f64 {
    match name {
        "sin" => p[0].sin_cos().0,
        "cos" => p[0].sin_cos().1,
        "tan" => p[0].tan(),
        "sinh" => p[0].sinh(),
        "cosh" => p[0].cosh(),
        "tanh" => p[0].tanh(),
        "asin" => p[0].asin(),
        "acos" => p[0].acos(),
        "atan" => p[0].atan(),
        "atan2" => p[1].atan2(p[0]),
        "abs" => p[0].abs(),
        "log10" => p[0].log10(),
        "ln" => p[0].ln(),
        "log2" => p[0].log2(),
        "log" => p[0].log(p[1]),
        "sqrt" => p[0].sqrt(),
        "cbrt" => p[0].cbrt(),
        "root" => p[0].powf(p[1].recip()),
        "sign" => p[0].signum(),
        "exp" => p[0].exp(),
        "trunc" => p[0].trunc(),
        "round" => p[0].round(),
        "floor" => p[0].floor(),
        "ceil" => p[0].ceil(),
        "min" => p.iter().skip(1).fold(p[0], |a, &b| a.min(b)),
        "max" => p.iter().skip(1).fold(p[0], |a, &b| a.max(b)),
        "rad2deg" => p[0] * (180_f64 / std::f64::consts::PI),
        "deg2rad" => p[0] * (std::f64::consts::PI / 180_f64),
        "grad2deg" => p[0] * (9_f64 / 10_f64),
        "deg2grad" => p[0] * (10_f64 / 9_f64),
        "grad2rad" => p[0] * (std::f64::consts::PI / 200_f64),
        "rad2grad" => p[0] * (200_f64 / std::f64::consts::PI),
        other => panic!("no such function: {}", other),
    }
}

fn eval(expr: &Expr) -> f64 {
    match expr {
        Expr::Literal(text) => text.parse::<f64>().unwrap(),
        Expr::Value(bits) => f64::from_bits(*bits),
        Expr::Negate(operand) => -eval(operand),
        Expr::Binary(op, left, right) => {
            let a = eval(left);
            let b = eval(right);
            match op {
                BinaryOp::Add => a + b,
                BinaryOp::Sub => a - b,
                BinaryOp::Mul => a * b,
                BinaryOp::Div => a / b,
                BinaryOp::Mod => a % b,
                BinaryOp::Pow => a.powf(b),
            }
        }
        Expr::Call(name, args) => {
            let values: Vec<f64> = args.iter().map(eval).collect();
            apply(name, &values)
        }
    }
}

fn run(calc: &mut Calculator, input: &str) -> Result<String, String> {
    match calc.run(input)? {
        Outcome::Reply(text) => Ok(text),
        Outcome::Pending(result) => {
            let value = eval(&result.val);
            calc.commit(result.var, value.to_bits(), &format!("{}", value))
        }
    }
}

fn run_test(input: &str, expected: &str) {
    let result = run(&mut Calculator::new(), input).unwrap();
    println!("{} => {}", input, result);
    assert_eq!(result, expected);
}

fn run_test_with(calc: &mut Calculator, input: &str, expected: &str) {
    let result = run(calc, input).unwrap();
    println!("{} => {}", input, result);
    assert_eq!(result, expected);
}

fn run_test_err(input: &str) {
    let result = run(&mut Calculator::new(), input);
    println!("{} => {:?}", input, result);
    assert!(result.is_err());
}

fn run_test_message(input: &str, message: &str) {
    let result = run(&mut Calculator::new(), input);
    println!("{} => {:?}", input, result);
    assert_eq!(result, Err(message.to_string()));
}

#[test]
fn basic() {
    run_test("2+3", "5");
    run_test("2-3", "-1");
    run_test("5*10", "50");
    run_test("5*-10", "-50");
    run_test("-5*-10", "50");
    run_test("-5*10", "-50");
    run_test("10/2", "5");
    run_test("26%12", "2");
    run_test("3^3", "27");
    run_test("1e2", "100");
    run_test("5 + 1e2", "105");
}

#[test]
fn constants() {
    run_test("PI", &format!("{}", std::f64::consts::PI));
    run_test("E", &format!("{}", std::f64::consts::E));
    run_test("INF", &format!("{}", std::f64::INFINITY));
}

#[test]
fn op_precedence() {
    run_test("1+3/6*2", "2");
    run_test("1+3*6/2", "10");
    run_test("2^3^2", "512");
    run_test("2^3+2", "10");
    run_test("2^3*2", "16");
    run_test("2^(3+2)", "32");
    run_test("2^abs(-5)", "32");
    run_test("1+4-2^5/2+8*2", "5");
    run_test("(1+4-2)^5/2+8*2", "137.5");

    let a = (1_f64 + 4_f64 - 2_f64).powf(5_f64) / ((2_f64 + 8_f64).sin_cos().1) * 2_f64;
    run_test("(1+4-2)^5/cos(2+8)*2", &format!("{}", a));
}

#[test]
fn ans() {
    let mut calc = Calculator::new();
    assert_eq!(run(&mut calc, "1+2").unwrap(), "3");
    assert_eq!(run(&mut calc, "ans").unwrap(), "3");
    assert_eq!(run(&mut calc, "4*(2*(3+2))").unwrap(), "40");
    assert_eq!(run(&mut calc, "5*4").unwrap(), "20");
    assert_eq!(run(&mut calc, "12/10").unwrap(), (12.0 as f64 / 10.0 as f64).to_string());
    assert_eq!(run(&mut calc, "2+5").unwrap(), "7");
    assert_eq!(run(&mut calc, "ans").unwrap(), "7");
    assert_eq!(run(&mut calc, "ans*2").unwrap(), "14");
}

#[test]
fn vars() {
    let mut calc = Calculator::new();
    run_test_with(&mut calc, "a=2", "a = 2");
    run_test_with(&mut calc, "a*5", "10");
    run_test_with(&mut calc, "-a", "-2");
    run_test_with(&mut calc, "-(a)", "-2");
    run_test_with(&mut calc, "a = -(a)*10", "a = -20");
    run_test_with(&mut calc, "a = -(a) - 21", "a = -1");
    run_test_with(&mut calc, "-(a)^2", "1");
    run_test_with(&mut calc, "-(a^2)", "-1");
}

#[test]
fn builtins() {
    run_test("sin(PI)", &format!("{}", std::f64::consts::PI.sin_cos().0));
    run_test("sin(PI/2)", &format!("{}", (std::f64::consts::PI / 2.0).sin_cos().0));
    run_test("cos(PI)", &format!("{}", std::f64::consts::PI.sin_cos().1));
    run_test("cos(PI/2)", &format!("{}", (std::f64::consts::PI / 2.0).sin_cos().1));
    run_test("tan(PI)", &format!("{}", std::f64::consts::PI.tan()));
    run_test("tan(PI/2)", &format!("{}", (std::f64::consts::PI / 2.0).tan()));
    run_test("abs(5)", "5");
    run_test("abs(-5)", "5");
    run_test("abs(-1.23)", "1.23");
    run_test("abs(4.5)", "4.5");
    run_test("sinh(20)", &format!("{}", 20_f64.sinh()));
    run_test("cosh(20)", &format!("{}", 20_f64.cosh()));
    run_test("tanh(20)", &format!("{}", 20_f64.tanh()));
    run_test("asin(20)", &format!("{}", 20_f64.asin()));
    run_test("acos(20)", &format!("{}", 20_f64.acos()));
    run_test("atan(20)", &format!("{}", 20_f64.atan()));
    run_test("atan2(10, 20)", &format!("{}", 20_f64.atan2(10_f64)));
    run_test("sin", "sin(n)");
    run_test("log(64, 8)", "2");
    run_test("ln(E)", "1");
    run_test("log2(32)", "5");
    run_test("sqrt(16)", &format!("{}", 16_f64.sqrt()));
    run_test("cbrt(125)", &format!("{}", 125_f64.cbrt()));
    run_test("root(140, 5)", &format!("{}", 140_f64.powf(5_f64.recip())));
    run_test("sign(1)", &format!("{}", 1_f64.signum()));
    run_test("sign(-1)", &format!("{}", -1_f64.signum()));
    run_test("exp(20)", &format!("{}", 20_f64.exp()));
    run_test("trunc(43.123)", &format!("{}", 43.123_f64.trunc()));
    run_test("round(12.1234)", &format!("{}", 12.1234_f64.round()));
    run_test("floor(18.9)", &format!("{}", 18.9_f64.floor()));
    run_test("ceil(4.1)", &format!("{}", 4.1_f64.ceil()));
    run_test("min(-5, -1, 2, 30, -49)", "-49");
    run_test("max(-5, -1, 8, 15, 4)", "15");

    run_test("rad2deg(16)", &format!("{}", 16_f64.to_degrees()));
    run_test("deg2rad(16)", &format!("{}", 16_f64.to_radians()));

    run_test("rad2grad(16)", &format!("{}", 16_f64 * 200_f64 / std::f64::consts::PI));
    run_test("grad2rad(16)", &format!("{}", 16_f64 * std::f64::consts::PI / 200_f64));

    run_test("deg2grad(16)", &format!("{}", 16_f64 * 10_f64 / 9_f64));
    run_test("grad2deg(16)", &format!("{}", 16_f64 * 9_f64 / 10_f64));
}

#[test]
fn error_handling() {
    run_test_err("(2");
    run_test_err("2-");
    run_test_err("sin 2");
    run_test_err("()");
    run_test_err("a");
}

#[test]
fn misc() {
    run_test("2", "2");
    run_test("(2)", "2");
    run_test("-2", "-2");
    run_test("--2", "2");
    run_test("---2", "-2");
    run_test("2", "2");
    run_test("2+-3", "-1");
    run_test("-2+3", "1");
    run_test("-2+-3", "-5");
    run_test("2--3", "5");
    run_test("-(2)", "-2");
    run_test("-(-2)", "2");
    run_test("-(-2) + 3", "5");
    run_test("-(-2) + (3-4)", "1");
    run_test("1 - -(-2) + (3-4)", "-2");
    run_test("(2+2)", "4");
    run_test("(-2+2)", "0");
}

#[test]
fn unary_sign_binds_tighter_than_power() {
    run_test("-2^2", "4");
    run_test("-(2^2)", "-4");
    run_test("2^-1", "0.5");
    run_test("+2", "2");
    run_test("+-+2", "-2");
}

#[test]
fn operators_of_one_level_group_to_the_left() {
    run_test("10-4-3", "3");
    run_test("100/10/5", "2");
    run_test("100/10*5", "50");
    run_test("17%5%2", "0");
    run_test("2*3%4", "2");
}

#[test]
fn division_by_zero_is_no_error() {
    run_test("1/0", "inf");
    run_test("-1/0", "-inf");
    run_test("0/0", "NaN");
    run_test("5%0", "NaN");
}

#[test]
fn an_empty_line_gives_an_empty_answer_and_changes_nothing() {
    let mut calc = Calculator::new();
    run_test_with(&mut calc, "7", "7");
    run_test_with(&mut calc, "", "");
    run_test_with(&mut calc, "   \t ", "");
    run_test_with(&mut calc, "ans", "7");
}

#[test]
fn ans_follows_every_value_and_no_failure() {
    let mut calc = Calculator::new();
    run_test_with(&mut calc, "ans", "0");
    run_test_with(&mut calc, "x = 4", "x = 4");
    run_test_with(&mut calc, "ans", "4");
    assert!(run(&mut calc, "4 +").is_err());
    assert!(run(&mut calc, "y = nothing").is_err());
    run_test_with(&mut calc, "ans", "4");
    assert!(run(&mut calc, "y").is_err());
    run_test_with(&mut calc, "ans + 1", "5");
    run_test_with(&mut calc, "ans", "5");
}

#[test]
fn reset_leaves_only_ans_at_zero() {
    let mut calc = Calculator::new();
    run_test_with(&mut calc, "a = 3", "a = 3");
    run_test_with(&mut calc, "ans", "3");
    calc.reset();
    run_test_with(&mut calc, "ans", "0");
    assert_eq!(run(&mut calc, "a"), Err("unknown variable: a".to_string()));
    run_test_with(&mut calc, "sin(0)", "0");
    run_test_with(&mut calc, "PI", &format!("{}", std::f64::consts::PI));
}

#[test]
fn built_in_names_cannot_be_assigned_to() {
    let message = "cannot assign to built-in vars, constants or functions";
    run_test_message("ans = 1", message);
    run_test_message("PI = 3", message);
    run_test_message("E = 3", message);
    run_test_message("INF = 3", message);
    run_test_message("sin = 1", message);
    run_test_message("min=1", message);
    run_test_message("ans = ", message);
    run_test_message("PI = )", message);
}

#[test]
fn other_names_can_be_assigned_to_and_read_back() {
    let mut calc = Calculator::new();
    run_test_with(&mut calc, "answer = 42", "answer = 42");
    run_test_with(&mut calc, "answer", "42");
    run_test_with(&mut calc, "_x1 = answer / 4", "_x1 = 10.5");
    run_test_with(&mut calc, "_x1 * 2", "21");
    run_test_with(&mut calc, "pi = 3", "pi = 3");
    run_test_with(&mut calc, "pi", "3");
    run_test_with(&mut calc, "answer = answer + 1", "answer = 43");
    run_test_with(&mut calc, "answer", "43");
}

#[test]
fn commit_refuses_a_name_that_cannot_be_assigned_to() {
    let mut calc = Calculator::new();
    let message = "cannot assign to built-in vars, constants or functions".to_string();
    assert_eq!(calc.commit(Some("ans".to_string()), 1, "x"), Err(message.clone()));
    assert_eq!(calc.commit(Some("PI".to_string()), 1, "x"), Err(message.clone()));
    assert_eq!(calc.commit(Some("cos".to_string()), 1, "x"), Err(message));
    run_test_with(&mut calc, "ans", "0");
    assert_eq!(calc.commit(None, 2.5_f64.to_bits(), "2.5"), Ok("2.5".to_string()));
    run_test_with(&mut calc, "ans", "2.5");
    assert_eq!(calc.commit(Some("k".to_string()), 8_f64.to_bits(), "8"), Ok("k = 8".to_string()));
    run_test_with(&mut calc, "k + ans", "16");
}

#[test]
fn a_function_name_alone_gives_its_usage() {
    run_test("sin", "sin(n)");
    run_test("atan2", "atan2(x, y)");
    run_test("log", "log(n, base)");
    run_test("root", "root(n, root)");
    run_test("min", "min(n, ...)");
    run_test("max", "max(n, ...)");
    run_test("rad2grad", "rad2grad(radians)");
    run_test("tanh", "tan(n)");
    let mut calc = Calculator::new();
    for name in calc.get_functions() {
        let usage = run(&mut calc, &name).unwrap();
        assert!(usage.ends_with(")"), "{} => {}", name, usage);
    }
    run_test_message(" sin", "unknown variable: sin");
    run_test_message("sin ", "unknown variable: sin");
    run_test_message("sin + 1", "unknown variable: sin");
}

#[test]
fn each_fault_has_its_message() {
    run_test_message("(2", "invalid syntax");
    run_test_message("2-", "invalid syntax");
    run_test_message("()", "invalid syntax");
    run_test_message("2 3", "invalid syntax");
    run_test_message("2)", "invalid syntax");
    run_test_message("2 $", "invalid syntax");
    run_test_message("$", "invalid syntax");
    run_test_message("= 2", "invalid syntax");
    run_test_message("abs(1,)", "invalid syntax");
    run_test_message("abs(1", "invalid syntax");
    run_test_message(".", "invalid float literal");
    run_test_message("1e", "invalid float literal");
    run_test_message("1e+", "invalid float literal");
    run_test_message(".e5", "invalid float literal");
    run_test_message("a", "unknown variable: a");
    run_test_message("sin 2", "unknown variable: sin");
    run_test_message("2 + bcd * 3", "unknown variable: bcd");
    run_test_message("foo(1)", "unknown function: foo");
    run_test_message("PI(1)", "unknown function: PI");
    run_test_message("sin()", "sin requires 1 arguments");
    run_test_message("sin(1, 2)", "sin requires 1 arguments");
    run_test_message("atan2(1)", "atan2 requires 2 arguments");
    run_test_message("min(1)", "min requires 2 or more arguments");
    run_test_message("max()", "max requires 2 or more arguments");
    run_test_message("ans = 1", "cannot assign to built-in vars, constants or functions");
}

#[test]
fn the_first_fault_in_the_line_is_reported() {
    run_test_message("1e + foo(", "invalid float literal");
    run_test_message("foo + 1e", "unknown variable: foo");
    run_test_message("foo(bar)", "unknown variable: bar");
    run_test_message("foo(1e)", "invalid float literal");
    run_test_message("sin(1, 2) +", "sin requires 1 arguments");
    run_test_message("sin(1, 2 +", "invalid syntax");
    run_test_message("ans = 1e", "cannot assign to built-in vars, constants or functions");
}

#[test]
fn numbers_are_read_in_every_form() {
    run_test("5.", "5");
    run_test(".5", "0.5");
    run_test("0.25", "0.25");
    run_test("1e3", "1000");
    run_test("1e+3", "1000");
    run_test("25e-1", "2.5");
    run_test("2.5e1", "25");
    run_test("1.e2", "100");
    run_test(".5e1", "5");
    run_test("007", "7");
}

#[test]
fn printing_a_value_and_reading_it_back_gives_the_same_double() {
    let values = [
        0.1_f64,
        1.0 / 3.0,
        2.0_f64.sqrt(),
        123456789.125,
        1e21,
        1.5e-7,
        5e-324,
        1.7976931348623157e308,
        0.30000000000000004,
        9007199254740993.0,
    ];
    for value in values {
        let text = format!("{}", value);
        let mut calc = Calculator::new();
        match calc.run(&text).unwrap() {
            Outcome::Pending(result) => {
                assert_eq!(result.val, Expr::Literal(text.clone()));
                assert_eq!(eval(&result.val).to_bits(), value.to_bits(), "{}", text);
            }
            Outcome::Reply(reply) => panic!("{} => {}", text, reply),
        }
        assert_eq!(run(&mut calc, &text).unwrap(), text);
    }
}

#[test]
fn integral_values_print_without_a_fraction() {
    run_test("5.0", "5");
    run_test("2.50", "2.5");
    run_test("137.5", "137.5");
    run_test("10/4", "2.5");
    run_test("0.1+0.2", "0.30000000000000004");
    run_test("-0", "-0");
}

#[test]
fn variadic_functions_fold_over_their_arguments() {
    run_test("min(-5, -1, 2, 30, -49)", "-49");
    run_test("max(-5, -1, 8, 15, 4)", "15");
    run_test("min(3, 2)", "2");
    run_test("max(1, 2, 3)", "3");
    run_test("min(max(1, 2), 3, 4)", "2");
}

#[test]
fn the_tables_list_the_built_in_names_in_ascending_order() {
    let calc = Calculator::new();
    assert_eq!(calc.get_constants(), vec!["E", "INF", "PI"]);
    assert_eq!(
        calc.get_functions(),
        vec![
            "abs",
            "acos",
            "asin",
            "atan",
            "atan2",
            "cbrt",
            "ceil",
            "cos",
            "cosh",
            "deg2grad",
            "deg2rad",
            "exp",
            "floor",
            "grad2deg",
            "grad2rad",
            "ln",
            "log",
            "log10",
            "log2",
            "max",
            "min",
            "rad2deg",
            "rad2grad",
            "root",
            "round",
            "sign",
            "sin",
            "sinh",
            "sqrt",
            "tan",
            "tanh",
            "trunc",
        ]
    );
}

#[test]
fn calculators_do_not_share_their_variables() {
    let mut one = Calculator::new();
    let mut other = Calculator::new();
    run_test_with(&mut one, "a = 1", "a = 1");
    assert!(run(&mut other, "a").is_err());
    run_test_with(&mut other, "ans", "0");
    run_test_with(&mut one, "ans", "1");
}
