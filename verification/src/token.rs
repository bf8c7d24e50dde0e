use vstd::prelude::*;

verus! {

/// The static type tags of the language.
#[derive(Debug, Clone, Copy, PartialEq, Eq, Structural)]
pub enum TypeIdentifier {
    Number,
    Boolean,
    Char,
    UserDefinedType,
}

/// The reserved words of the language.
#[derive(Debug, Clone, Copy, PartialEq, Eq, Structural)]
pub enum Keyword {
    Let,
    Function,
    If,
    Else,
    For,
    Return,
}

/// The operators of the language.
#[derive(Debug, Clone, Copy, PartialEq, Eq, Structural)]
pub enum Operator {
    Plus,
    Minus,
    Multiply,
    Divide,
    Equals,
    Different,
    GreaterThan,
    LesserThan,
    GreaterEqual,
    LesserEqual,
    Assign,
    Increment,
    Decrement,
    And,
    Or,
    Not,
}

/// The punctuation characters of the language.
#[derive(Debug, Clone, Copy, PartialEq, Eq, Structural)]
pub enum Punctuation {
    OpenParen,
    CloseParen,
    OpenCurly,
    CloseCurly,
    Semicolon,
    Comma,
    Colon,
}

/// A literal as decoded by the lexer.  An integer literal holds its numeric
/// value; a float literal keeps the digit text exactly as it stood in the
/// source (digits and one `.`), so no floating-point value lives here.
#[derive(Debug, Clone, PartialEq)]
pub enum Literal {
    Integer(u32),
    Float(String),
    Boolean(bool),
    Character(char),
}

/// A classified, positioned lexical unit.
#[derive(Debug, Clone, PartialEq)]
pub enum TokenKind {
    Identifier(String),
    TypeIdentifier(TypeIdentifier),
    Literal(Literal),
    Keyword(Keyword),
    Operator(Operator),
    Punctuation(Punctuation),
    Unknown(char),
}

/// A token together with the line and column where it starts.
#[derive(Debug, Clone, PartialEq)]
pub struct Token {
    pub kind: TokenKind,
    pub line: usize,
    pub column: usize,
}

/// Mathematical mirror of `Literal`: strings become character sequences.
pub enum LiteralView {
    Integer(u32),
    Float(Seq<char>),
    Boolean(bool),
    Character(char),
}

/// Mathematical mirror of `TokenKind`.
pub enum TokenKindView {
    Identifier(Seq<char>),
    TypeIdentifier(TypeIdentifier),
    Literal(LiteralView),
    Keyword(Keyword),
    Operator(Operator),
    Punctuation(Punctuation),
    Unknown(char),
}

/// Mathematical mirror of `Token`.
pub struct TokenView {
    pub kind: TokenKindView,
    pub line: usize,
    pub column: usize,
}

impl View for Literal {
    type V = LiteralView;

    open spec fn view(&self) -> LiteralView {
        match self {
            Literal::Integer(n) => LiteralView::Integer(*n),
            Literal::Float(s) => LiteralView::Float(s@),
            Literal::Boolean(b) => LiteralView::Boolean(*b),
            Literal::Character(c) => LiteralView::Character(*c),
        }
    }
}

impl View for TokenKind {
    type V = TokenKindView;

    open spec fn view(&self) -> TokenKindView {
        match self {
            TokenKind::Identifier(s) => TokenKindView::Identifier(s@),
            TokenKind::TypeIdentifier(t) => TokenKindView::TypeIdentifier(*t),
            TokenKind::Literal(l) => TokenKindView::Literal(l@),
            TokenKind::Keyword(k) => TokenKindView::Keyword(*k),
            TokenKind::Operator(o) => TokenKindView::Operator(*o),
            TokenKind::Punctuation(p) => TokenKindView::Punctuation(*p),
            TokenKind::Unknown(c) => TokenKindView::Unknown(*c),
        }
    }
}

impl View for Token {
    type V = TokenView;

    open spec fn view(&self) -> TokenView {
        TokenView { kind: self.kind@, line: self.line, column: self.column }
    }
}

/// The view of a whole token stream.
pub open spec fn tokens_view(ts: Seq<Token>) -> Seq<TokenView> {
    ts.map(|_i: int, t: Token| t@)
}

impl Token {
    pub fn new(kind: TokenKind, line: usize, column: usize) -> (t: Self)
        ensures
            t.kind == kind,
            t.line == line,
            t.column == column,
    {
        Self { kind, line, column }
    }
}

} // verus!
