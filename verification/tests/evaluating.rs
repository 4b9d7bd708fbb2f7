use libnm::eval::{default_env, eval_string, Env, EvalErr, IoState};
use std::f32::consts::{E, PI};
use libnm::host::Host;
use libnm::list::List;
use libnm::program::{BinaryComparator, BinaryOperator, Item, UnaryOperator};

fn k_arith(op: BinaryOperator, a: u32, b: u32) -> u32 {
    let (x, y) = (f32::from_bits(a), f32::from_bits(b));
    match op {
        BinaryOperator::Mul => x * y,
        BinaryOperator::Div => x / y,
        BinaryOperator::Add => x + y,
        BinaryOperator::Sub => x - y,
    }
    .to_bits()
}

fn k_cmp(op: BinaryComparator, a: u32, b: u32) -> bool {
    let (x, y) = (f32::from_bits(a), f32::from_bits(b));
    match op {
        BinaryComparator::Eq => x == y,
        BinaryComparator::Neq => x != y,
        BinaryComparator::Lt => x < y,
        BinaryComparator::Gt => x > y,
        BinaryComparator::Lte => x <= y,
        BinaryComparator::Gte => x >= y,
    }
}

fn k_unary(op: UnaryOperator, a: u32) -> u32 {
    let x = f32::from_bits(a);
    match op {
        UnaryOperator::Exp => x.exp(),
        UnaryOperator::Log => x.ln(),
        UnaryOperator::Sin => x.sin(),
        UnaryOperator::Rec => 1.0 / x,
    }
    .to_bits()
}

fn k_of_int(i: i32) -> u32 {
    (i as f32).to_bits()
}

fn k_parse(s: &str) -> Option<u32> {
    s.parse::<f32>().ok().map(|f| f.to_bits())
}

fn k_text(b: u32) -> String {
    format!("{:?}", f32::from_bits(b))
}

type FnHost = Host<
    fn(BinaryOperator, u32, u32) -> u32,
    fn(BinaryComparator, u32, u32) -> bool,
    fn(UnaryOperator, u32) -> u32,
    fn(i32) -> u32,
    fn(&str) -> Option<u32>,
    fn(u32) -> String,
>;

fn new_host() -> FnHost {
    Host {
        arith: k_arith,
        cmp: k_cmp,
        unary: k_unary,
        of_int: k_of_int,
        parse: k_parse,
        text: k_text,
    }
}

fn run(text: &str, env: Env) -> Result<Item, EvalErr> {
    let mut io = IoState { inputs: Vec::new(), outputs: Vec::new() };
    eval_string(&String::from(text), env, &mut io, &new_host())
}

#[test]
fn float_constants_are_the_intended_bit_patterns() {
    assert_eq!(libnm::eval::E_BITS, std::f32::consts::E.to_bits());
    assert_eq!(libnm::eval::PI_BITS, std::f32::consts::PI.to_bits());
    assert_eq!(libnm::eval::ONE_BITS, 1.0f32.to_bits());
    assert_eq!(libnm::eval::EPS_BITS, 0.000001f32.to_bits());
}

#[test]
fn arithmetic() {
    let env: Env = List::new();
    match run("(* 3 2)", env) {
        Ok(Item::Number(num)) => assert!(num == 6),
        Err(_) => assert!(false),
        _ => assert!(false),
    }

    let env: Env = List::new();
    match run("(+ 3 2)", env) {
        Ok(Item::Number(num)) => assert!(num == 5),
        Err(_) => assert!(false),
        _ => assert!(false),
    }

    let env: Env = List::new();
    match run("(/ 10 2)", env) {
        Ok(Item::Number(num)) => assert!(num == 5),
        Err(_) => assert!(false),
        _ => assert!(false),
    }

    let env: Env = List::new();
    match run("(- 10 2)", env) {
        Ok(Item::Number(num)) => assert!(num == 8),
        Err(_) => assert!(false),
        _ => assert!(false),
    }
}

#[test]
fn math_functions() {
    match run("(* e 2.0)", default_env()) {
        Ok(Item::Float(bits)) => assert!(f32::abs((E * 2.0) - f32::from_bits(bits)) < 0.01),
        Err(_) => assert!(false),
        _ => assert!(false),
    }

    match run("(* pi 3.4)", default_env()) {
        Ok(Item::Float(bits)) => assert!(f32::abs((PI * 3.4) - f32::from_bits(bits)) < 0.01),
        Err(_) => assert!(false),
        _ => assert!(false),
    }
}

#[test]
fn lets_and_funcs() {
    match run("(let (x 4) (* x 2))", default_env()) {
        Ok(Item::Number(num)) => assert!(num == 8),
        _ => assert!(false),
    }

    let let_func_program = "(let (f \
                                (func (x) (* 2 x))) \
                                    (f 3))";
    match run(let_func_program, default_env()) {
        Ok(Item::Number(num)) => assert!(num == 6),
        _ => assert!(false),
    }

    let let_func_program = "(let (f \
                                (func (x y) (* x y))) \
                                    (f 3 5))";
    match run(let_func_program, default_env()) {
        Ok(Item::Number(num)) => assert!(num == 15),
        _ => assert!(false),
    }

    let let_func_program = "(let (f \
                                (func (x y z) (* x (+ y z)))) \
                                    (f 3 5 7))";
    match run(let_func_program, default_env()) {
        Ok(Item::Number(num)) => assert!(num == 36),
        _ => assert!(false),
    }

    let if_works = matches!(
        run("(if (< 3 2) (* 2 4) (+ 1 5))", default_env()),
        Ok(Item::Number(6))
    );
    assert!(if_works);
}

#[test]
fn compare() {
    let three_eq_three = matches!(run("(== 3 3)", default_env()), Ok(Item::Boolean(true)));
    assert!(three_eq_three);

    let three_eq_two = matches!(run("(== 3 2)", default_env()), Ok(Item::Boolean(true)));
    assert!(!three_eq_two);

    let three_lt_2 = matches!(run("(< 3 2)", default_env()), Ok(Item::Boolean(true)));
    assert!(!three_lt_2);

    let three_gt_2 = matches!(run("(> 3 2)", default_env()), Ok(Item::Boolean(true)));
    assert!(three_gt_2);

    let multi = matches!(
        run("(== (* 3.1 2.5) (* 2.5 3.1))", default_env()),
        Ok(Item::Boolean(true))
    );
    assert!(multi);

    let and = matches!(run("(and true true)", default_env()), Ok(Item::Boolean(true)));
    assert!(and);

    let not_and = matches!(run("(and true false)", default_env()), Ok(Item::Boolean(true)));
    assert!(!not_and);

    let and_complex = matches!(
        run("(and (== 2 2) (< 2 8))", default_env()),
        Ok(Item::Boolean(true))
    );
    assert!(and_complex);

    let or = matches!(
        run("(or (!= 3 2) (> 2 8))", default_env()),
        Ok(Item::Boolean(true))
    );
    assert!(or);
}

#[test]
fn float_equality_tolerance() {
    // Within the 1e-6 tolerance, floats compare equal.
    assert!(matches!(
        run("(== 1.0 1.0000001)", default_env()),
        Ok(Item::Boolean(true))
    ));
    assert!(matches!(
        run("(== 1.0 1.5)", default_env()),
        Ok(Item::Boolean(false))
    ));
}

#[test]
fn unary_operators() {
    match run("(exp 0)", default_env()) {
        Ok(Item::Float(bits)) => assert!((f32::from_bits(bits) - 1.0).abs() < 1e-6),
        _ => assert!(false),
    }
    match run("(rec 4.0)", default_env()) {
        Ok(Item::Float(bits)) => assert!((f32::from_bits(bits) - 0.25).abs() < 1e-6),
        _ => assert!(false),
    }
    match run("(sin 0.0)", default_env()) {
        Ok(Item::Float(bits)) => assert!(f32::from_bits(bits).abs() < 1e-6),
        _ => assert!(false),
    }
    match run("(log e)", default_env()) {
        Ok(Item::Float(bits)) => assert!((f32::from_bits(bits) - 1.0).abs() < 1e-5),
        _ => assert!(false),
    }
    // The integer operand is promoted to float.
    match run("(^ 1)", default_env()) {
        Ok(Item::Float(bits)) => {
            assert!((f32::from_bits(bits) - std::f32::consts::E).abs() < 1e-5)
        },
        _ => assert!(false),
    }
}

#[test]
fn parallel_let_bindings_do_not_see_each_other() {
    // Both value expressions are evaluated against the pre-let environment,
    // so `y`'s expression must not see `x`.
    assert!(matches!(
        run("(let (x 1) (y x) y)", default_env()),
        Err(EvalErr::Unbound(_))
    ));
    // Shadowing an outer binding works, and the outer value feeds the inner
    // expression.
    match run("(let (x 2) (let (x (* x 3)) x))", default_env()) {
        Ok(Item::Number(n)) => assert_eq!(n, 6),
        _ => assert!(false),
    }
}

#[test]
fn function_wrong_arity_is_an_error() {
    assert!(matches!(
        run("(let (f (func (x) x)) (f 1 2))", default_env()),
        Err(EvalErr::WrongArity)
    ));
    assert!(matches!(
        run("(let (f (func (x y) x)) (f 1))", default_env()),
        Err(EvalErr::WrongArity)
    ));
}

#[test]
fn comparator_type_mismatch_is_an_error() {
    assert!(matches!(
        run("(== 1 2.0)", default_env()),
        Err(EvalErr::OperandType)
    ));
    assert!(matches!(
        run("(< \"a\" \"b\")", default_env()),
        Err(EvalErr::OperandType)
    ));
    assert!(matches!(
        run("(+ 1 2.0)", default_env()),
        Err(EvalErr::OperandType)
    ));
}

#[test]
fn recursion_works_and_runaway_recursion_is_an_error() {
    let fact_program = "(let \
            (fac (func (x) \
                (if (<= x 1) 1 (* x (fac (- x 1))))))\
            (fac 12)\
        )";
    match run(fact_program, default_env()) {
        Ok(Item::Number(n)) => assert_eq!(n, 479001600),
        _ => assert!(false),
    }
    assert!(matches!(
        run("(let (f (func (x) (f x))) (f 1))", default_env()),
        Err(EvalErr::RecursionLimit)
    ));
}

#[test]
fn error_variants() {
    assert!(matches!(run("(/ 1 0)", default_env()), Err(EvalErr::DivByZero)));
    assert!(matches!(
        run("(* 2000000000 2)", default_env()),
        Err(EvalErr::Overflow)
    ));
    assert!(matches!(run("(progn)", default_env()), Err(EvalErr::EmptyProgn)));
    assert!(matches!(run("(let)", default_env()), Err(EvalErr::EmptyLet)));
    assert!(matches!(
        run("(let (5 5) 1)", default_env()),
        Err(EvalErr::BadLetBinding)
    ));
    assert!(matches!(run("(func)", default_env()), Err(EvalErr::BadFuncShape)));
    assert!(matches!(run("(print)", default_env()), Err(EvalErr::MissingPrintArg)));
    assert!(matches!(run("(if true)", default_env()), Err(EvalErr::MissingIfPart)));
    assert!(matches!(run("(if 1 2 3)", default_env()), Err(EvalErr::CondNotBool)));
    assert!(matches!(
        run("(cat \"a\")", default_env()),
        Err(EvalErr::MissingCatArg)
    ));
    assert!(matches!(
        run("(cat 1 \"a\")", default_env()),
        Err(EvalErr::CatType)
    ));
    assert!(matches!(run("(+ 1)", default_env()), Err(EvalErr::MissingOperand)));
    assert!(matches!(run("zzz", default_env()), Err(EvalErr::Unbound(_))));
    assert!(matches!(run("(a # b)", default_env()), Err(EvalErr::Lex(_))));
    assert!(matches!(run("(a (b)", default_env()), Err(EvalErr::Parse(_))));
    assert!(matches!(run("(input)", default_env()), Err(EvalErr::InputExhausted)));
}

#[test]
fn strings_print_and_input() {
    let host = new_host();

    let mut io = IoState { inputs: Vec::new(), outputs: Vec::new() };
    match eval_string(
        &String::from("(cat \"ab\" \"cd\")"),
        default_env(),
        &mut io,
        &host,
    ) {
        Ok(Item::String(s)) => assert_eq!(s.as_str(), "abcd"),
        _ => assert!(false),
    }

    let mut io = IoState { inputs: Vec::new(), outputs: Vec::new() };
    match eval_string(
        &String::from("(progn (print \"hi\") (print 5))"),
        default_env(),
        &mut io,
        &host,
    ) {
        Ok(Item::Nil) => {},
        _ => assert!(false),
    }
    assert_eq!(io.outputs, vec![String::from("hi"), String::from("5")]);

    let mut io = IoState {
        inputs: vec![String::from("first line"), String::from("second")],
        outputs: Vec::new(),
    };
    match eval_string(
        &String::from("(cat (input) (input))"),
        default_env(),
        &mut io,
        &host,
    ) {
        Ok(Item::String(s)) => assert_eq!(s.as_str(), "first linesecond"),
        _ => assert!(false),
    }
    assert!(io.inputs.is_empty());
}

#[test]
fn print_renders_through_the_host() {
    let host = new_host();
    let mut io = IoState { inputs: Vec::new(), outputs: Vec::new() };
    match eval_string(
        &String::from("(progn (print 2.5) (print (1 2)))"),
        default_env(),
        &mut io,
        &host,
    ) {
        Ok(Item::Nil) => {},
        _ => assert!(false),
    }
    assert_eq!(io.outputs, vec![String::from("2.5"), String::from("(1 2)")]);
}

#[test]
fn list_literals() {
    match run("(1 2 3)", default_env()) {
        Ok(Item::ListLiteral(l)) => {
            assert!(matches!(l.car(), Some(Item::Number(1))));
            assert!(matches!(l.cdr().car(), Some(Item::Number(2))));
            assert!(matches!(l.cdr().cdr().car(), Some(Item::Number(3))));
            assert!(l.cdr().cdr().cdr().car().is_none());
        },
        _ => assert!(false),
    }
    // An empty list evaluates to nil.
    assert!(matches!(run("()", default_env()), Ok(Item::Nil)));
}

#[test]
fn multi_form_programs_yield_the_last_value() {
    match run("5 4 3 2 1", default_env()) {
        Ok(Item::Number(n)) => assert_eq!(n, 1),
        _ => assert!(false),
    }
}

#[test]
fn serialization_round_trip() {
    // Re-serializing a parse and re-parsing yields a structurally equal
    // AST; structural equality is compared through the renderer.
    let host = new_host();
    for text in [
        "(let (x 4) (* x 2))",
        "(if (< 3 2) (* 2 4) (+ 1 5))",
        "(sin (a b c) c d e (1 2 3) abcdefg)",
        "(cat \"a b\" \"c\") 12.5 nil true",
    ] {
        let toks = libnm::lexer::lex(text).unwrap();
        let fp: fn(&str) -> Option<u32> = k_parse;
        let ast = libnm::parser::parse(toks, &fp).unwrap();
        let rendered = libnm::render::item_text(&ast, &(k_text as fn(u32) -> String));
        // The rendering of the whole parse carries the progn head; render
        // the forms only, by re-parsing the rendered forms of the program.
        let again_toks = libnm::lexer::lex(&rendered).unwrap();
        assert_eq!(again_toks[1], "progn");
        let inner: Vec<String> = again_toks[2..again_toks.len() - 1].to_vec();
        let ast2 = libnm::parser::parse(inner, &fp).unwrap();
        let rendered2 = libnm::render::item_text(&ast2, &(k_text as fn(u32) -> String));
        assert_eq!(rendered, rendered2);
    }
}
