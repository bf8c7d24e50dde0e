use fiber::driver::{run_entry, run_interpreter, run_lexer, run_parser, run_type_checking};
use fiber::interpreter::{RuntimeError, Value};

#[test]
fn test_pipeline_runs_a_program() {
    let src = "function main() -> int { return 6 * 7; } main()";
    let tokens = run_lexer(src).unwrap();
    let ast = run_parser(tokens, "main.fib".to_string(), src.to_string()).unwrap();
    let diagnostics = run_type_checking(&ast);
    assert!(diagnostics.is_empty());
    let (result, output) = run_interpreter(&ast, Vec::new());
    assert_eq!(result.unwrap(), vec![Value::Number(42)]);
    assert!(output.is_empty());
}

#[test]
fn test_run_entry_calls_named_function() {
    let src = "function main() -> int { return 11; }";
    let tokens = run_lexer(src).unwrap();
    let ast = run_parser(tokens, "main.fib".to_string(), src.to_string()).unwrap();
    let values = run_entry(&ast, "main").unwrap();
    assert_eq!(values, vec![Value::Number(11)]);
}

#[test]
fn test_run_entry_missing_function_is_an_error() {
    let src = "1 + 1";
    let tokens = run_lexer(src).unwrap();
    let ast = run_parser(tokens, "main.fib".to_string(), src.to_string()).unwrap();
    assert!(run_entry(&ast, "main").is_err());
}

#[test]
fn test_run_entry_refuses_a_builtin_as_entry() {
    let src = "1 + 1";
    let tokens = run_lexer(src).unwrap();
    let ast = run_parser(tokens, "main.fib".to_string(), src.to_string()).unwrap();
    assert_eq!(
        run_entry(&ast, "read_int"),
        Err(RuntimeError::FunctionNotFound { name: "read_int".to_string() })
    );
    assert_eq!(
        run_entry(&ast, "println"),
        Err(RuntimeError::FunctionNotFound { name: "println".to_string() })
    );
}

#[test]
fn test_run_entry_prefers_the_program_declaration() {
    let src = "function println() -> int { return 3; }";
    let tokens = run_lexer(src).unwrap();
    let ast = run_parser(tokens, "main.fib".to_string(), src.to_string()).unwrap();
    assert_eq!(run_entry(&ast, "println").unwrap(), vec![Value::Number(3)]);
}

#[test]
fn test_pipeline_with_input_lines() {
    let src = "println(read_int() + 1)";
    let tokens = run_lexer(src).unwrap();
    let ast = run_parser(tokens, "io.fib".to_string(), src.to_string()).unwrap();
    let (result, output) = run_interpreter(&ast, vec!["41".to_string()]);
    assert!(result.is_ok());
    let text: String = output.iter().collect();
    assert_eq!(text, "42\n");
}
