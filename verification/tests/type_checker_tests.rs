use fiber::ast::Ast;
use fiber::lexer::Lexer;
use fiber::parser::Parser;
use fiber::type_checker::{TypeChecker, TypeErrorKind};

fn parse(src: &str) -> Ast {
    let mut lexer = Lexer::new(src);
    let tokens = lexer.tokenize().expect("lexing failed");
    let mut parser = Parser::new(tokens, "test.fib".to_string(), src.to_string());
    parser.parse_program().expect("parsing failed")
}

fn check(src: &str) -> Vec<TypeErrorKind> {
    let ast = parse(src);
    let mut checker = TypeChecker::new();
    checker.check_ast(&ast).into_iter().map(|e| e.kind).collect()
}

#[test]
fn test_decl_type_mismatch_is_reported() {
    let errs = check("let x: int = true");
    assert_eq!(errs.len(), 1);
    assert!(matches!(errs[0], TypeErrorKind::DeclMismatch { .. }));
}

#[test]
fn test_assign_type_mismatch_is_reported() {
    let errs = check("let x: int = 1 x = true");
    assert_eq!(errs.len(), 1);
    assert!(matches!(errs[0], TypeErrorKind::AssignMismatch { .. }));
}

#[test]
fn test_assign_undeclared_is_reported() {
    let errs = check("y = 1");
    assert!(matches!(errs[0], TypeErrorKind::AssignUndeclared { .. }));
}

#[test]
fn test_call_arity_is_enforced() {
    let errs = check("function zero() -> int { return 0; } zero(1)");
    assert_eq!(errs.len(), 1);
    match &errs[0] {
        TypeErrorKind::CallArityMismatch { name, expected, got } => {
            assert_eq!(name, "zero");
            assert_eq!(*expected, 0);
            assert_eq!(*got, 1);
        }
        other => panic!("expected an arity violation, got {:?}", other),
    }
}

#[test]
fn test_call_argument_types_are_enforced() {
    let errs = check("function inc(a: int) -> int { return a + 1; } inc(true)");
    assert_eq!(errs.len(), 1);
    match &errs[0] {
        TypeErrorKind::CallArgMismatch { index, .. } => assert_eq!(*index, 1),
        other => panic!("expected an argument violation, got {:?}", other),
    }
}

#[test]
fn test_checking_continues_past_errors() {
    let errs = check("let x: int = true let y: bool = 2");
    assert_eq!(errs.len(), 2);
}

#[test]
fn test_builtins_are_pre_seeded() {
    assert_eq!(check("print_int(3)"), vec![]);
    assert_eq!(check("println(3)"), vec![]);
    assert_eq!(check("let n: int = read_int()"), vec![]);
    assert_eq!(check("let c: char = read_char()"), vec![]);
}

#[test]
fn test_type_error_message_text() {
    let ast = parse("let x: int = true");
    let mut checker = TypeChecker::new();
    let errs = checker.check_ast(&ast);
    assert_eq!(
        errs[0].message(),
        "type error: type mismatch in variable declaration"
    );
}

#[test]
fn test_if_condition_must_be_boolean() {
    let errs = check("if 1 { 2 }");
    assert!(matches!(errs[0], TypeErrorKind::IfConditionNotBoolean));
}

#[test]
fn test_arithmetic_needs_numbers() {
    let errs = check("true + false");
    assert!(matches!(errs[0], TypeErrorKind::ArithmeticNeedsNumbers));
}

#[test]
fn test_operands_must_agree() {
    let errs = check("1 + true");
    assert!(matches!(errs[0], TypeErrorKind::OperandsDiffer));
}

#[test]
fn test_missing_return_is_reported() {
    let errs = check("function f() -> int { 1; }");
    assert!(matches!(errs[0], TypeErrorKind::MissingReturn { .. }));
}

#[test]
fn test_return_type_must_match() {
    let errs = check("function f() -> int { return true; }");
    assert!(matches!(errs[0], TypeErrorKind::ReturnTypeMismatch { .. }));
}

#[test]
fn test_recursive_function_can_call_itself() {
    let errs = check("function f(n: int) -> int { return f(n - 1); } f(3)");
    assert_eq!(errs, vec![]);
}

#[test]
fn test_undeclared_variable_read_is_reported() {
    let errs = check("1 + y");
    assert!(matches!(errs[0], TypeErrorKind::UndeclaredVariable { .. }));
}

#[test]
fn test_unknown_function_is_reported() {
    let errs = check("nope()");
    assert!(matches!(errs[0], TypeErrorKind::UnknownFunction { .. }));
}
