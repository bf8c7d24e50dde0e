use fiber::ast::{Ast, Expr, Statement};
use fiber::interpreter::{Interpreter, RuntimeError, Value};
use fiber::token::Literal;
use fiber::lexer::Lexer;
use fiber::parser::Parser;

fn parse(src: &str) -> Ast {
    let mut lexer = Lexer::new(src);
    let tokens = lexer.tokenize().expect("lexing failed");
    let mut parser = Parser::new(tokens, "test.fib".to_string(), src.to_string());
    parser.parse_program().expect("parsing failed")
}

fn run(src: &str) -> Result<Vec<Value>, RuntimeError> {
    let ast = parse(src);
    let mut interpreter = Interpreter::new();
    interpreter.eval(&ast)
}

fn run_with_output(src: &str) -> (Result<Vec<Value>, RuntimeError>, String) {
    let ast = parse(src);
    let mut interpreter = Interpreter::new();
    let result = interpreter.eval(&ast);
    let output: String = interpreter.output_chars().iter().collect();
    (result, output)
}

#[test]
fn test_end_to_end_add() {
    let values = run(
        "function add(a: int, b: int) -> int { return a + b; } add(2, 3)",
    )
    .unwrap();
    assert_eq!(values, vec![Value::Number(5)]);
}

#[test]
fn test_division_by_zero_is_a_runtime_error() {
    assert_eq!(run("10 / 0"), Err(RuntimeError::DivisionByZero));
}

#[test]
fn test_runtime_error_messages() {
    assert_eq!(
        RuntimeError::DivisionByZero.message(),
        "eval: division by zero"
    );
    assert_eq!(
        RuntimeError::VariableNotFound { name: "y".to_string() }.message(),
        "variable 'y' not found"
    );
}

#[test]
fn test_division_truncates_toward_zero() {
    assert_eq!(run("7 / 2").unwrap(), vec![Value::Number(3)]);
    assert_eq!(run("(0 - 7) / 2").unwrap(), vec![Value::Number(-3)]);
}

#[test]
fn test_println_writes_value_and_newline() {
    let (result, output) = run_with_output("println(7)");
    assert_eq!(result.unwrap(), vec![Value::Nothing]);
    assert_eq!(output, "7\n");
}

#[test]
fn test_print_int_writes_no_newline() {
    let (_, output) = run_with_output("print_int(1) print_int(2)");
    assert_eq!(output, "12");
}

#[test]
fn test_stack_balance_on_success_and_error() {
    let ast = parse("function boom() -> int { return 1 / 0; } function fine() -> int { return 4; }");
    let mut interpreter = Interpreter::new();
    interpreter.eval(&ast).unwrap();
    let before = interpreter.stack_depth();
    assert_eq!(
        interpreter.call_function("fine", &[]),
        Ok(Value::Number(4))
    );
    assert_eq!(interpreter.stack_depth(), before);
    assert_eq!(
        interpreter.call_function("boom", &[]),
        Err(RuntimeError::DivisionByZero)
    );
    assert_eq!(interpreter.stack_depth(), before);
    assert!(interpreter.call_function("missing", &[]).is_err());
    assert_eq!(interpreter.stack_depth(), before);
}

#[test]
fn test_runtime_arity_mismatch() {
    let result = run("function zero() -> int { return 0; } zero(1)");
    match result {
        Err(RuntimeError::ArityMismatch { name, expected, got }) => {
            assert_eq!(name, "zero");
            assert_eq!(expected, 0);
            assert_eq!(got, 1);
        }
        other => panic!("expected an arity error, got {:?}", other),
    }
}

#[test]
fn test_variable_not_found() {
    assert_eq!(
        run("1 + y"),
        Err(RuntimeError::VariableNotFound { name: "y".to_string() })
    );
}

#[test]
fn test_non_boolean_condition() {
    assert_eq!(run("if 1 { 2 }"), Err(RuntimeError::NonBooleanCondition));
}

#[test]
fn test_unbounded_recursion_is_refused() {
    assert_eq!(
        run("function f() -> int { return f(); } f()"),
        Err(RuntimeError::RecursionLimit)
    );
}

#[test]
fn test_arithmetic_wraps() {
    assert_eq!(
        run("2147483647 + 1").unwrap(),
        vec![Value::Number(i32::MIN)]
    );
}

#[test]
fn test_dynamic_scoping_sees_caller_locals() {
    let values = run(
        "function get() -> int { return hidden; } let hidden: int = 9 get()",
    )
    .unwrap();
    assert_eq!(values, vec![Value::Number(9)]);
}

#[test]
fn test_assignment_walks_the_stack() {
    let values = run(
        "function set() { flag = 2; return; } let flag: int = 1 set() flag",
    )
    .unwrap();
    assert_eq!(values, vec![Value::Nothing, Value::Number(2)]);
}

#[test]
fn test_read_int_consumes_one_line() {
    let ast = parse("read_int() read_int()");
    let mut interpreter = Interpreter::new();
    interpreter.push_input_line(" 41 ".to_string());
    interpreter.push_input_line("oops".to_string());
    let values = interpreter.eval(&ast).unwrap();
    assert_eq!(values, vec![Value::Number(41), Value::Nothing]);
}

#[test]
fn test_read_char_takes_first_character() {
    let ast = parse("read_char() read_char()");
    let mut interpreter = Interpreter::new();
    interpreter.push_input_line("zebra".to_string());
    interpreter.push_input_line("".to_string());
    let values = interpreter.eval(&ast).unwrap();
    assert_eq!(values, vec![Value::Char('z'), Value::Nothing]);
}

#[test]
fn test_if_else_branches() {
    assert_eq!(
        run("if 1 > 2 { 10 } else { 20 }").unwrap(),
        vec![Value::Number(20)]
    );
    assert_eq!(
        run("if 2 > 1 { 10 } else { 20 }").unwrap(),
        vec![Value::Number(10)]
    );
}

#[test]
fn test_boolean_operators() {
    assert_eq!(
        run("true && false || true").unwrap(),
        vec![Value::Boolean(true)]
    );
    assert_eq!(run("!true").unwrap(), vec![Value::Boolean(false)]);
}

#[test]
fn test_body_stops_at_first_produced_value() {
    let values = run(
        "function f() -> int { return 1; return 2; } f()",
    )
    .unwrap();
    assert_eq!(values, vec![Value::Number(1)]);
}

#[test]
fn test_call_without_return_yields_nothing() {
    let values = run("function noop() { let a: int = 1; } noop()").unwrap();
    assert_eq!(values, vec![Value::Nothing]);
}

#[test]
fn test_float_literal_expression_is_refused_at_runtime() {
    let ast = Ast {
        statements: vec![Statement::Expr(Expr::Literal(Literal::Float("1.5".to_string())))],
    };
    let mut interpreter = Interpreter::new();
    assert_eq!(
        interpreter.eval(&ast),
        Err(RuntimeError::UnsupportedLiteral)
    );
}

#[test]
fn test_hex_and_binary_literals_evaluate() {
    assert_eq!(run("0x10 + 0b10").unwrap(), vec![Value::Number(18)]);
    assert_eq!(run("0d12").unwrap(), vec![Value::Number(12)]);
}

#[test]
fn test_println_booleans_and_chars() {
    let (_, output) = run_with_output("println(true) println('c') println(0 - 12)");
    assert_eq!(output, "true\nc\n-12\n");
}
