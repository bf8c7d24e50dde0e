use fiber::lexer::Lexer;
use fiber::token::{Keyword, Literal, Operator, Token, TokenKind};

fn lex(src: &str) -> Vec<Token> {
    let mut lexer = Lexer::new(src);
    lexer.tokenize().expect("lexing failed")
}

#[test]
fn test_literal_integer() {
    let test_string = "1234 01234 0x12AB 0b1100";
    let expected: [u32; 4] = [1234, 01234, 0x12AB, 0b1100];
    let tokens = lex(test_string);
    assert_eq!(tokens.len(), expected.len());
    for (t, e) in tokens.iter().zip(expected) {
        assert_eq!(t.kind, TokenKind::Literal(Literal::Integer(e)));
    }
}

#[test]
fn test_literal_integer_fail() {
    let test_string = "0b4";
    let mut lexer = Lexer::new(test_string);
    assert!(lexer.tokenize().is_err());
}

#[test]
fn test_literal_float() {
    let test_string = "3.14 0.14 12.4 1.0";
    let expected: [f32; 4] = [3.14, 0.14, 12.4, 1.0];
    let tokens = lex(test_string);
    assert_eq!(tokens.len(), expected.len());
    for (t, e) in tokens.iter().zip(expected) {
        match &t.kind {
            TokenKind::Literal(Literal::Float(digits)) => {
                let decoded: f32 = ("0".to_string() + digits).parse().unwrap();
                assert_eq!(decoded, e);
            }
            other => panic!("expected a float literal, got {:?}", other),
        }
    }
}

#[test]
fn test_literal_bool() {
    let test_string = "true false";
    let expected = [true, false];
    let tokens = lex(test_string);
    assert_eq!(tokens.len(), expected.len());
    for (t, e) in tokens.iter().zip(expected) {
        assert_eq!(t.kind, TokenKind::Literal(Literal::Boolean(e)));
    }
}

#[test]
fn test_literal_character() {
    let test_string = "'c' 'e' 'r' 'Ñ'";
    let expected = ['c', 'e', 'r', 'Ñ'];
    let tokens = lex(test_string);
    assert_eq!(tokens.len(), expected.len());
    for (t, e) in tokens.iter().zip(expected) {
        assert_eq!(t.kind, TokenKind::Literal(Literal::Character(e)));
    }
}

#[test]
fn test_let_keyword() {
    for t in lex("let") {
        assert_eq!(t.kind, TokenKind::Keyword(Keyword::Let));
    }
}

#[test]
fn test_if_keyword() {
    for t in lex("if") {
        assert_eq!(t.kind, TokenKind::Keyword(Keyword::If));
    }
}

#[test]
fn test_else_keyword() {
    for t in lex("else") {
        assert_eq!(t.kind, TokenKind::Keyword(Keyword::Else));
    }
}

#[test]
fn test_for_keyword() {
    for t in lex("for") {
        assert_eq!(t.kind, TokenKind::Keyword(Keyword::For));
    }
}

#[test]
fn test_return_keyword() {
    for t in lex("return") {
        assert_eq!(t.kind, TokenKind::Keyword(Keyword::Return));
    }
}

#[test]
fn test_function_keyword() {
    for t in lex("function") {
        assert_eq!(t.kind, TokenKind::Keyword(Keyword::Function));
    }
}

#[test]
fn test_integer_out_of_range_is_error() {
    let mut lexer = Lexer::new("4294967296");
    let err = lexer.tokenize().unwrap_err();
    assert_eq!(err.message(), "integer literal out of range");
}

#[test]
fn test_float_with_two_dots_is_error() {
    let mut lexer = Lexer::new("1.2.3");
    assert!(lexer.tokenize().is_err());
}

#[test]
fn test_comments_yield_no_tokens() {
    let tokens = lex("1 // the rest of this line is ignored\n2");
    assert_eq!(tokens.len(), 2);
    assert_eq!(tokens[0].kind, TokenKind::Literal(Literal::Integer(1)));
    assert_eq!(tokens[1].kind, TokenKind::Literal(Literal::Integer(2)));
}

#[test]
fn test_two_character_operators() {
    let tokens = lex("== != >= <= ++ -- && || = ! > < + - * /");
    let expected = [
        Operator::Equals,
        Operator::Different,
        Operator::GreaterEqual,
        Operator::LesserEqual,
        Operator::Increment,
        Operator::Decrement,
        Operator::And,
        Operator::Or,
        Operator::Assign,
        Operator::Not,
        Operator::GreaterThan,
        Operator::LesserThan,
        Operator::Plus,
        Operator::Minus,
        Operator::Multiply,
        Operator::Divide,
    ];
    assert_eq!(tokens.len(), expected.len());
    for (t, e) in tokens.iter().zip(expected) {
        assert_eq!(t.kind, TokenKind::Operator(e));
    }
}

#[test]
fn test_token_positions() {
    let tokens = lex("let x\n  = 5");
    assert_eq!((tokens[0].line, tokens[0].column), (1, 1));
    assert_eq!((tokens[1].line, tokens[1].column), (1, 5));
    assert_eq!((tokens[2].line, tokens[2].column), (2, 3));
    assert_eq!((tokens[3].line, tokens[3].column), (2, 5));
}

#[test]
fn test_unterminated_char_literal_degrades_to_unknown() {
    let tokens = lex("'cx");
    assert_eq!(tokens[0].kind, TokenKind::Unknown('c'));
}

#[test]
fn test_unknown_character_is_surfaced_as_data() {
    let tokens = lex("#");
    assert_eq!(tokens.len(), 1);
    assert_eq!(tokens[0].kind, TokenKind::Unknown('#'));
}
