use fiber::ast::{Ast, Expr, Statement};
use fiber::lexer::Lexer;
use fiber::parser::Parser;
use fiber::token::{Literal, Operator};

fn parse(src: &str) -> Ast {
    let mut lexer = Lexer::new(src);
    let tokens = lexer.tokenize().expect("lexing failed");
    let mut parser = Parser::new(tokens, "test.fib".to_string(), src.to_string());
    parser.parse_program().expect("parsing failed")
}

fn number(n: u32) -> Expr {
    Expr::Literal(Literal::Integer(n))
}

#[test]
fn test_operator_precedence() {
    let ast = parse("1 + 2 * 3");
    let expected = Statement::Expr(Expr::Binary {
        left: Box::new(number(1)),
        op: Operator::Plus,
        right: Box::new(Expr::Binary {
            left: Box::new(number(2)),
            op: Operator::Multiply,
            right: Box::new(number(3)),
        }),
    });
    assert_eq!(ast.statements.len(), 1);
    assert_eq!(ast.statements[0], expected);
}

#[test]
fn test_assignment_statement() {
    let ast = parse("x = 5");
    let expected = Statement::Assignment {
        identifier: "x".to_string(),
        expr: number(5),
    };
    assert_eq!(ast.statements, vec![expected]);
}

#[test]
fn test_expression_statement() {
    let ast = parse("x + 5");
    let expected = Statement::Expr(Expr::Binary {
        left: Box::new(Expr::Ident("x".to_string())),
        op: Operator::Plus,
        right: Box::new(number(5)),
    });
    assert_eq!(ast.statements, vec![expected]);
}

#[test]
fn test_increment_desugars_to_assignment() {
    let incremented = parse("x++");
    let written_out = parse("x = x + 1");
    assert_eq!(incremented, written_out);
}

#[test]
fn test_decrement_desugars_to_assignment() {
    let decremented = parse("x--");
    let written_out = parse("x = x - 1");
    assert_eq!(decremented, written_out);
}

#[test]
fn test_var_decl_with_colon() {
    let ast = parse("let x: int = 5;");
    match &ast.statements[0] {
        Statement::VarDecl(d) => {
            assert_eq!(d.identifier, "x");
            assert_eq!(d.var_type, fiber::token::TypeIdentifier::Number);
            assert_eq!(d.expr, number(5));
        }
        other => panic!("expected a declaration, got {:?}", other),
    }
}

#[test]
fn test_function_declaration_shape() {
    let ast = parse("function add(a: int, b: int) -> int { return a + b; }");
    match &ast.statements[0] {
        Statement::FunctionDeclaration(f) => {
            assert_eq!(f.signature.name, "add");
            assert_eq!(f.signature.parameters.len(), 2);
            assert_eq!(f.signature.parameters[0].parameter_name, "a");
            assert_eq!(
                f.signature.return_type,
                Some(fiber::token::TypeIdentifier::Number)
            );
        }
        other => panic!("expected a function declaration, got {:?}", other),
    }
}

#[test]
fn test_if_else_statement() {
    let ast = parse("if x > 0 { 1 } else { 2 }");
    match &ast.statements[0] {
        Statement::If { then_branch, else_branch, .. } => {
            assert_eq!(then_branch.len(), 1);
            assert_eq!(else_branch.as_ref().unwrap().len(), 1);
        }
        other => panic!("expected an if statement, got {:?}", other),
    }
}

#[test]
fn test_call_with_arguments() {
    let ast = parse("f(1, 2)");
    match &ast.statements[0] {
        Statement::Expr(Expr::Call { callee, args }) => {
            assert_eq!(**callee, Expr::Ident("f".to_string()));
            assert_eq!(args.len(), 2);
        }
        other => panic!("expected a call, got {:?}", other),
    }
}

#[test]
fn test_grouping_is_kept() {
    let ast = parse("(1 + 2) * 3");
    match &ast.statements[0] {
        Statement::Expr(Expr::Binary { left, op, .. }) => {
            assert_eq!(*op, Operator::Multiply);
            assert!(matches!(**left, Expr::Grouping(_)));
        }
        other => panic!("expected a product, got {:?}", other),
    }
}

#[test]
fn test_parse_error_is_positioned() {
    let mut lexer = Lexer::new("1 + ;");
    let tokens = lexer.tokenize().unwrap();
    let mut parser = Parser::new(tokens, "test.fib".to_string(), "1 + ;".to_string());
    let err = parser.parse_program().unwrap_err();
    assert_eq!(err.filename, "test.fib");
    assert_eq!(err.line, 1);
    assert_eq!(err.column, 5);
    assert_eq!(err.source_line, "1 + ;");
}

#[test]
fn test_for_loop_body_is_discarded() {
    let ast = parse("for x > 0 { x-- }");
    match &ast.statements[0] {
        Statement::Expr(Expr::Call { callee, args }) => {
            assert_eq!(**callee, Expr::Ident("while".to_string()));
            assert_eq!(args.len(), 1);
        }
        other => panic!("expected the loop placeholder, got {:?}", other),
    }
}
