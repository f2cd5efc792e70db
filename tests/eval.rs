use scriptlang::ast::{Code, Expr, Statement};
use scriptlang::env::Env;
use scriptlang::error::EvalError;
use scriptlang::eval::{eval, exec, initial_env, run_line, run_program, LineOutcome};
use scriptlang::ops::{CompOp, Host, Op};
use scriptlang::parser::{ast, expression};
use scriptlang::text::print_text;
use scriptlang::value::{Type, Value};

struct Ieee {
    out: String,
}

impl Host for Ieee {
    fn apply(&self, op: &Op, a: u64, b: u64) -> u64 {
        let (x, y) = (f64::from_bits(a), f64::from_bits(b));
        let r = match op {
            Op::Add => x + y,
            Op::Sub => x - y,
            Op::Mul => x * y,
            Op::Div => x / y,
            Op::Mod => x % y,
            Op::Exp => x.powf(y),
        };
        r.to_bits()
    }

    fn compare(&self, op: &CompOp, a: u64, b: u64) -> bool {
        let (x, y) = (f64::from_bits(a), f64::from_bits(b));
        match op {
            CompOp::Equal => x == y,
            CompOp::NotEq => x != y,
            CompOp::Gt => x > y,
            CompOp::Ge => x >= y,
            CompOp::Lt => x < y,
            CompOp::Le => x <= y,
        }
    }

    fn render(&self, a: u64) -> String {
        f64::from_bits(a).to_string()
    }

    fn parse(&self, text: &str) -> Option<u64> {
        text.parse::<f64>().ok().map(|x| x.to_bits())
    }

    fn index(&self, a: u64) -> Option<usize> {
        let x = f64::from_bits(a).trunc();
        if x >= 0.0 && x < usize::MAX as f64 {
            Some(x as usize)
        } else {
            None
        }
    }

    fn count(&self, n: usize) -> u64 {
        (n as f64).to_bits()
    }

    fn status(&self, a: u64) -> i32 {
        f64::from_bits(a) as i32
    }

    fn write(&mut self, text: &str) {
        self.out.push_str(text);
    }
}

const FUEL: u64 = 1_000_000;

fn num(x: f64) -> Value {
    Value::Num(x.to_bits())
}

fn host() -> Ieee {
    Ieee { out: String::new() }
}

/// Runs a script; gives the outcome, the final environment and the output.
fn run(src: &str, fuel: u64) -> (Result<(), EvalError>, Env, String) {
    let prog = ast(src).unwrap();
    let mut h = host();
    let mut env = Env::new();
    let r = run_program(&mut h, &prog.code, &mut env, &prog.main, fuel);
    (r, env, h.out)
}

/// Evaluates one expression in an empty environment.
fn value_of(src: &str) -> Result<Value, EvalError> {
    let parsed = expression(src).unwrap();
    let mut h = host();
    eval(&mut h, &parsed.code, &Env::new(), &parsed.node, FUEL)
}

fn var(env: &Env, name: &str) -> Value {
    env.get(&name.to_string()).unwrap()
}

fn empty_code() -> Code {
    Code { bodies: Vec::new() }
}

#[test]
fn literal_number_is_returned_unchanged() {
    for x in [0.0, -0.0, 1.5, 1e300, f64::INFINITY, f64::NAN] {
        let e = Expr::Literal(num(x));
        let r = eval(&mut host(), &empty_code(), &Env::new(), &e, 1).unwrap();
        assert_eq!(r, Value::Num(x.to_bits()));
    }
}

#[test]
fn unbound_reference_fails() {
    let (_, env, _) = run("let a = 1; let b = \"x\";", FUEL);
    let e = Expr::Reference("missing".to_string());
    let r = eval(&mut host(), &empty_code(), &env, &e, FUEL);
    assert_eq!(r, Err(EvalError::UndefinedVariable("missing".to_string())));
    assert_eq!(value_of("nothing_here"), Err(EvalError::UndefinedVariable("nothing_here".to_string())));
}

#[test]
fn reserved_word_is_not_an_identifier() {
    let e = Expr::Reference("while".to_string());
    let r = eval(&mut host(), &empty_code(), &Env::new(), &e, FUEL);
    assert_eq!(r, Err(EvalError::InvalidIdentifier("while".to_string())));
}

#[test]
fn closure_reads_caller_binding_declared_later() {
    let (r, env, _) = run("let f = func() { return x; }; let x = 1; x = 2; let y = f();", FUEL);
    assert_eq!(r, Ok(()));
    assert_eq!(var(&env, "y"), num(2.0));
}

#[test]
fn caller_binding_overrides_captured_binding() {
    let (r, env, _) = run("let x = 1; let f = func() { return x; }; x = 5; let y = f();", FUEL);
    assert_eq!(r, Ok(()));
    assert_eq!(var(&env, "y"), num(5.0));
}

#[test]
fn captured_binding_seen_when_caller_lacks_it() {
    let src = "let make = func() { let hidden = 7; return func() { return hidden; }; }; let g = make(); let y = g();";
    let (r, env, _) = run(src, FUEL);
    assert_eq!(r, Ok(()));
    assert_eq!(var(&env, "y"), num(7.0));
}

#[test]
fn parameter_overrides_caller_binding() {
    let (r, env, _) = run("let n = 1; let f = func(n: num) { return n; }; let y = f(9);", FUEL);
    assert_eq!(r, Ok(()));
    assert_eq!(var(&env, "y"), num(9.0));
    assert_eq!(var(&env, "n"), num(1.0));
}

#[test]
fn while_runs_until_condition_is_false() {
    let (r, env, _) = run("let i = 0; let n = 0; while i < 5 { i += 1; n = n + 2; }", FUEL);
    assert_eq!(r, Ok(()));
    assert_eq!(var(&env, "i"), num(5.0));
    assert_eq!(var(&env, "n"), num(10.0));
}

#[test]
fn while_false_never_runs_body() {
    let (r, env, _) = run("let i = 0; while false { i = 1; }", FUEL);
    assert_eq!(r, Ok(()));
    assert_eq!(var(&env, "i"), num(0.0));
}

#[test]
fn while_that_never_ends_runs_out_of_fuel() {
    let (r, _, _) = run("let i = 0; while true { i += 1; }", 10_000);
    assert_eq!(r, Err(EvalError::OutOfFuel));
    let st = Statement::While(Expr::Literal(Value::Boolean(true)), Vec::new());
    let r = exec(&mut host(), &empty_code(), &mut Env::new(), &st, 500);
    assert_eq!(r, Err(EvalError::OutOfFuel));
}

#[test]
fn while_condition_must_be_boolean() {
    let (r, _, _) = run("while 1 { }", FUEL);
    assert_eq!(r, Err(EvalError::ExpectedBoolean(Type::Num)));
}

#[test]
fn return_ends_a_loop() {
    let src = "let f = func() { let i = 0; while true { i += 1; if i == 3 { return i; } } }; let y = f();";
    let (r, env, _) = run(src, FUEL);
    assert_eq!(r, Ok(()));
    assert_eq!(var(&env, "y"), num(3.0));
}

#[test]
fn bool_chain_evaluates_both_operands() {
    assert_eq!(
        value_of("false and undefined_reference()"),
        Err(EvalError::UndefinedVariable("undefined_reference".to_string()))
    );
    assert_eq!(
        value_of("true || undefined_reference"),
        Err(EvalError::UndefinedVariable("undefined_reference".to_string()))
    );
    assert_eq!(value_of("true && false"), Ok(Value::Boolean(false)));
    assert_eq!(value_of("false or true"), Ok(Value::Boolean(true)));
    assert_eq!(value_of("true and 1"), Err(EvalError::InvalidBooleanOperands(Type::Boolean, Type::Num)));
}

#[test]
fn typecast_round_trip() {
    let inner = Expr::Typecast(
        Box::new(Expr::Literal(Value::String("42".to_string()))),
        Box::new(Expr::Literal(Value::Type(Type::Num))),
    );
    let outer = Expr::Typecast(Box::new(inner), Box::new(Expr::Literal(Value::Type(Type::String))));
    let r = eval(&mut host(), &empty_code(), &Env::new(), &outer, FUEL);
    assert_eq!(r, Ok(Value::String("42".to_string())));
}

#[test]
fn typecasts() {
    assert_eq!(value_of("\"12.5\" as num"), Ok(num(12.5)));
    assert_eq!(value_of("\"true\" as bool"), Ok(Value::Boolean(true)));
    assert_eq!(value_of("\"false\" as bool"), Ok(Value::Boolean(false)));
    assert_eq!(value_of("\"num\" as type"), Ok(Value::Type(Type::Num)));
    assert_eq!(value_of("true as string"), Ok(Value::String("true".to_string())));
    assert_eq!(value_of("array as string"), Ok(Value::String("array".to_string())));
    assert_eq!(value_of("2.5 as string"), Ok(Value::String("2.5".to_string())));
    assert_eq!(
        value_of("\"ab\" as array"),
        Ok(Value::Array(vec![Value::String("a".to_string()), Value::String("b".to_string())]))
    );
    assert_eq!(value_of("\"abc\" as num"), Err(EvalError::ParseError("abc".to_string())));
    assert_eq!(value_of("\"yes\" as bool"), Err(EvalError::ParseError("yes".to_string())));
    assert_eq!(value_of("\"nope\" as type"), Err(EvalError::ParseError("nope".to_string())));
    assert_eq!(value_of("1 as num"), Err(EvalError::InvalidTypecast(Type::Num, Type::Num)));
    assert_eq!(value_of("[1] as string"), Err(EvalError::InvalidTypecast(Type::Array, Type::String)));
    assert_eq!(value_of("1 as 2"), Err(EvalError::ExpectedType(Type::Num)));
    assert_eq!(value_of("3 as typeof(\"foobar\")"), Ok(Value::String("3".to_string())));
}

#[test]
fn calling_with_wrong_count_or_type() {
    let (r, _, _) = run("let f = func() { return 1; }; f(1);", FUEL);
    assert_eq!(r, Err(EvalError::WrongArgCount(0, 1)));
    let (r, _, _) = run("let g = func(n: num) { return n; }; g(\"s\");", FUEL);
    assert_eq!(r, Err(EvalError::WrongArgType(Type::Num, Type::String)));
    let (r, _, _) = run("let x = 1; x(2);", FUEL);
    assert_eq!(r, Err(EvalError::NotCallable(Type::Num)));
}

#[test]
fn function_without_return_gives_void() {
    let (r, env, _) = run("let f = func() { let a = 1; }; let y = f();", FUEL);
    assert_eq!(r, Ok(()));
    assert_eq!(var(&env, "y"), Value::Void);
}

#[test]
fn indexing() {
    assert_eq!(value_of("[1,2,3][5]"), Err(EvalError::IndexOutOfBounds(5.0f64.to_bits(), 3)));
    assert_eq!(value_of("[1,2,3][1]"), Ok(num(2.0)));
    assert_eq!(value_of("[1,2,3][1.9]"), Ok(num(2.0)));
    assert_eq!(value_of("[1,2,3][-1]"), Err(EvalError::IndexOutOfBounds((-1.0f64).to_bits(), 3)));
    assert_eq!(value_of("[1,2,3][\"a\"]"), Err(EvalError::InvalidIndexType(Type::String)));
    assert_eq!(value_of("5[0]"), Err(EvalError::NotIndexable(Type::Num)));
}

#[test]
fn arithmetic_and_strings() {
    assert_eq!(value_of("1 + 2 * 3"), Ok(num(7.0)));
    assert_eq!(value_of("2 ** 3 ** 2"), Ok(num(512.0)));
    assert_eq!(value_of("7 % 4 - 10 / 4"), Ok(num(0.5)));
    assert_eq!(value_of("1 / 0"), Ok(num(f64::INFINITY)));
    assert_eq!(value_of("\"ab\" + \"cd\""), Ok(Value::String("abcd".to_string())));
    assert_eq!(value_of("\"ab\" - \"cd\""), Err(EvalError::InvalidOperation(Type::String, Type::String)));
    assert_eq!(value_of("\"ab\" + 1"), Err(EvalError::InvalidOperation(Type::String, Type::Num)));
}

#[test]
fn comparisons() {
    assert_eq!(value_of("1 < 2"), Ok(Value::Boolean(true)));
    assert_eq!(value_of("2 <= 1"), Ok(Value::Boolean(false)));
    assert_eq!(value_of("\"abc\" < \"abd\""), Ok(Value::Boolean(true)));
    assert_eq!(value_of("\"ab\" < \"abc\""), Ok(Value::Boolean(true)));
    assert_eq!(value_of("\"b\" >= \"abc\""), Ok(Value::Boolean(true)));
    assert_eq!(value_of("\"x\" == \"x\""), Ok(Value::Boolean(true)));
    assert_eq!(value_of("\"x\" != \"x\""), Ok(Value::Boolean(false)));
    assert_eq!(value_of("1 == \"1\""), Err(EvalError::InvalidComparison(Type::Num, Type::String)));
}

#[test]
fn unary_and_builtins() {
    assert_eq!(value_of("!true"), Ok(Value::Boolean(false)));
    assert_eq!(value_of("!1"), Err(EvalError::CannotNegate(Type::Num)));
    assert_eq!(value_of("length([1, 2, 3])"), Ok(num(3.0)));
    assert_eq!(value_of("length(\"test\" as array)"), Ok(num(4.0)));
    assert_eq!(value_of("length(1)"), Err(EvalError::NoLength(Type::Num)));
    assert_eq!(value_of("to_upper(\"foo\")"), Ok(Value::String("FOO".to_string())));
    assert_eq!(value_of("to_lower(\"BaR\")"), Ok(Value::String("bar".to_string())));
    assert_eq!(value_of("to_upper(1)"), Err(EvalError::WrongType(Type::Num)));
    assert_eq!(value_of("typeof(5)"), Ok(Value::Type(Type::Num)));
    assert_eq!(
        value_of("typeof(func(a: num, b: string) { })"),
        Ok(Value::Type(Type::Func(vec![Type::Num, Type::String])))
    );
}

#[test]
fn mutation_rules() {
    let (r, _, _) = run("y = 1;", FUEL);
    assert_eq!(r, Err(EvalError::UndeclaredVariable("y".to_string())));
    let (r, _, _) = run("let s = \"a\"; s += 1;", FUEL);
    assert_eq!(r, Err(EvalError::InvalidCompoundAssign(Type::String)));
    let (r, env, _) = run("let s = \"a\"; s = 3; let t = 2; t **= 3; t %= 5;", FUEL);
    assert_eq!(r, Ok(()));
    assert_eq!(var(&env, "s"), num(3.0));
    assert_eq!(var(&env, "t"), num(3.0));
    let (r, env, _) = run("let a = 1; let a = \"again\";", FUEL);
    assert_eq!(r, Ok(()));
    assert_eq!(var(&env, "a"), Value::String("again".to_string()));
}

#[test]
fn if_elif_else_picks_first_true_branch() {
    let src = "let x = 2; let r = 0; if x == 1 { r = 1; } elif x == 2 { r = 2; } elif x == 2 { r = 3; } else { r = 4; }";
    let (res, env, _) = run(src, FUEL);
    assert_eq!(res, Ok(()));
    assert_eq!(var(&env, "r"), num(2.0));
    let (res, env, _) = run("let r = 0; if false { r = 1; } else { r = 9; }", FUEL);
    assert_eq!(res, Ok(()));
    assert_eq!(var(&env, "r"), num(9.0));
    let (res, _, _) = run("if 1 { }", FUEL);
    assert_eq!(res, Err(EvalError::ExpectedBoolean(Type::Num)));
}

#[test]
fn printing() {
    let (r, _, out) = run("print 1, \"a\", true; println [1, \"b\"], void, num; println func(n: num, s: string) { };", FUEL);
    assert_eq!(r, Ok(()));
    assert_eq!(out, "1atrue[1, b]voidnum\nfunc(num, string)\n");
    let (r, _, out) = run("println 1, missing;", FUEL);
    assert_eq!(r, Err(EvalError::UndefinedVariable("missing".to_string())));
    assert_eq!(out, "");
}

#[test]
fn exit_stops_the_program() {
    let (r, env, out) = run("let a = 1; exit 0; let b = 2; println b;", FUEL);
    assert_eq!(r, Err(EvalError::Exit(0)));
    assert!(env.get(&"b".to_string()).is_none());
    assert_eq!(out, "");
    let (r, _, _) = run("exit 3.7;", FUEL);
    assert_eq!(r, Err(EvalError::Exit(3)));
    let (r, _, _) = run("exit \"no\";", FUEL);
    assert_eq!(r, Err(EvalError::ExitNotNumber(Type::String)));
}

#[test]
fn argv_is_bound_for_scripts() {
    let prog = ast("let first = ARGV[1]; let n = length(ARGV);").unwrap();
    let mut h = host();
    let mut env = initial_env(&vec!["prog".to_string(), "file.txt".to_string()]);
    let r = run_program(&mut h, &prog.code, &mut env, &prog.main, FUEL);
    assert_eq!(r, Ok(()));
    assert_eq!(var(&env, "first"), Value::String("file.txt".to_string()));
    assert_eq!(var(&env, "n"), num(2.0));
}

#[test]
fn prompt_lines_share_an_environment() {
    let mut h = host();
    let mut code = Code { bodies: Vec::new() };
    let mut env = Env::new();
    assert_eq!(run_line(&mut h, &mut code, &mut env, "let sq = func(n: num) { return n * n; };", FUEL), LineOutcome::Done);
    assert_eq!(run_line(&mut h, &mut code, &mut env, "let k = 3;", FUEL), LineOutcome::Done);
    assert_eq!(run_line(&mut h, &mut code, &mut env, "sq(k) + 1", FUEL), LineOutcome::Value(num(10.0)));
    let before = env.vars.len();
    let failed = run_line(&mut h, &mut code, &mut env, "while k < 10 { k += 1; if k == 6 { nope(); } }", FUEL);
    assert_eq!(failed, LineOutcome::Failed(EvalError::UndefinedVariable("nope".to_string())));
    assert_eq!(env.vars.len(), before);
    assert_eq!(var(&env, "k"), num(3.0));
    assert!(matches!(run_line(&mut h, &mut code, &mut env, "let = ;", FUEL), LineOutcome::Syntax(_)));
}

#[test]
fn value_and_type_text() {
    let h = host();
    let v = Value::Array(vec![num(1.0), Value::String("x".to_string()), Value::Array(vec![Value::Boolean(false)])]);
    assert_eq!(v.to_text(&h), "[1, x, [false]]");
    assert_eq!(Value::Array(Vec::new()).to_text(&h), "[]");
    assert_eq!(Type::Func(vec![Type::Num, Type::Func(vec![]), Type::Array]).to_text(), "func(num, func(), array)");
    assert_eq!(Value::Type(Type::Boolean).to_text(&h), "bool");
}

#[test]
fn print_text_of_values() {
    let h = host();
    let vs = vec![num(1.0), Value::String("a".to_string()), Value::Boolean(true)];
    assert_eq!(print_text(&h, &vs, false), "1atrue");
    assert_eq!(print_text(&h, &vs, true), "1atrue\n");
    assert_eq!(print_text(&h, &Vec::new(), true), "\n");
    let v = Value::Array(vec![
        num(1.0),
        Value::String("a".to_string()),
        Value::Boolean(true),
        Value::Void,
        Value::Array(vec![]),
    ]);
    assert_eq!(v.to_text(&h), "[1, a, true, void, []]");
}
