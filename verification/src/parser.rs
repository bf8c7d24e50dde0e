use vstd::prelude::*;
use vstd::string::*;
use crate::ast::{Expr, ExprView, Statement, StmtView};
use crate::text::{clone_string, strings_view};
use crate::token::{tokens_view, Keyword, Literal, LiteralView, Operator, Punctuation, Token,
    TokenKind, TokenKindView, TokenView, TypeIdentifier};

verus! {

// ---------------------------------------------------------------------------
// Errors
// ---------------------------------------------------------------------------

/// A positioned syntax error: the file, a message, where the offending token
/// stood, and the source line it stood on.  Parsing halts at the first error.
#[derive(Debug)]
pub struct ParseError {
    pub filename: String,
    pub message: String,
    pub line: usize,
    pub column: usize,
    pub source_line: String,
}

/// The mathematical mirror of a `ParseError`, without the parts that only
/// depend on the parser (file name, source line).
pub struct PErrView {
    pub line: usize,
    pub column: usize,
    pub msg: Seq<char>,
}

/// The placeholder error of specification branches that no run reaches.
pub open spec fn stuck_err() -> PErrView {
    PErrView { line: 0, column: 0, msg: Seq::empty() }
}

/// The source line an error at `line` points at: line numbers are 1-based,
/// and an unknown position yields an empty line.
pub open spec fn spec_source_line(lines: Seq<Seq<char>>, line: usize) -> Seq<char> {
    let idx: int = if line == 0 {
        0
    } else {
        line - 1
    };
    if idx < lines.len() {
        lines[idx]
    } else {
        Seq::empty()
    }
}

// ---------------------------------------------------------------------------
// The parser
// ---------------------------------------------------------------------------

/// A recursive-descent parser over a token stream, with operator-precedence
/// climbing and positioned errors.
pub struct Parser {
    tokens: Vec<Token>,
    filename: String,
    source_lines: Vec<String>,
}

impl Parser {
    /// The token stream being parsed.
    pub closed spec fn toks(&self) -> Seq<TokenView> {
        tokens_view(self.tokens@)
    }

    /// The name of the file the tokens came from.
    pub closed spec fn fname(&self) -> Seq<char> {
        self.filename@
    }

    /// The source text, line by line.
    pub closed spec fn lines(&self) -> Seq<Seq<char>> {
        strings_view(self.source_lines@)
    }

    pub closed spec fn wf(&self) -> bool {
        self.tokens@.len() < usize::MAX
    }

    /// An executable error agrees with its mirror.
    pub open spec fn err_matches(&self, e: ParseError, se: PErrView) -> bool {
        &&& e.line == se.line
        &&& e.column == se.column
        &&& e.message@ == se.msg
        &&& e.filename@ == self.fname()
        &&& e.source_line@ == spec_source_line(self.lines(), se.line)
    }

    pub fn new(tokens: Vec<Token>, filename: String, source: String) -> (p: Parser)
        requires
            tokens@.len() < usize::MAX,
            source@.len() < usize::MAX,
        ensures
            p.wf(),
            p.toks() == tokens_view(tokens@),
            p.fname() == filename@,
            p.lines() == crate::text::spec_lines(source@),
    {
        let chars = crate::text::chars_of_str(source.as_str());
        let source_lines = crate::text::split_lines(&chars);
        Parser { tokens, filename, source_lines }
    }

    /// Build a positioned error carrying the offending source line.
    fn error(&self, message: &str, line: usize, column: usize) -> (e: ParseError)
        ensures
            self.err_matches(e, PErrView { line, column, msg: message@ }),
    {
        let idx: usize = if line == 0 {
            0
        } else {
            line - 1
        };
        let source_line = if idx < self.source_lines.len() {
            clone_string(&self.source_lines[idx])
        } else {
            String::new()
        };
        ParseError {
            filename: clone_string(&self.filename),
            message: String::from_str(message),
            line,
            column,
            source_line,
        }
    }

    /// The token at index `i`.
    fn tok_at(&self, i: usize) -> (t: &Token)
        requires
            self.wf(),
            i < self.tokens@.len(),
        ensures
            *t == self.tokens@[i as int],
            t@ == self.toks()[i as int],
    {
        &self.tokens[i]
    }

    /// How many tokens there are.
    fn n_toks(&self) -> (n: usize)
        ensures
            n == self.toks().len(),
    {
        self.tokens.len()
    }
}

// ---------------------------------------------------------------------------
// What each expression level parses to.  Each function mirrors one level of
// the precedence chain: or, and, equality, comparison, additive, term,
// unary, atom; atoms take call suffixes.
// ---------------------------------------------------------------------------

pub open spec fn spec_parse_atom(toks: Seq<TokenView>, pos: int) -> Result<
    (ExprView, int),
    PErrView,
>
    decreases toks.len() - pos, 2int,
{
    if !(0 <= pos < toks.len()) {
        Err(
            PErrView {
                line: 0,
                column: 0,
                msg: "parse_atom: expected a token, found none"@,
            },
        )
    } else {
        let t = toks[pos];
        match t.kind {
            TokenKindView::Literal(LiteralView::Integer(n)) => spec_parse_call_suffix(
                toks,
                pos + 1,
                ExprView::Literal(LiteralView::Integer(n)),
            ),
            TokenKindView::Literal(LiteralView::Boolean(b)) => spec_parse_call_suffix(
                toks,
                pos + 1,
                ExprView::Literal(LiteralView::Boolean(b)),
            ),
            TokenKindView::Literal(LiteralView::Character(c)) => spec_parse_call_suffix(
                toks,
                pos + 1,
                ExprView::Literal(LiteralView::Character(c)),
            ),
            TokenKindView::Identifier(name) => spec_parse_call_suffix(
                toks,
                pos + 1,
                ExprView::Ident(name),
            ),
            TokenKindView::Punctuation(Punctuation::OpenParen) => match spec_parse_expression(
                toks,
                pos + 1,
            ) {
                Ok((inner, p2)) => if !(pos + 1 < p2 <= toks.len()) {
                    Err(stuck_err())
                } else if p2 < toks.len() && toks[p2].kind matches TokenKindView::Punctuation(
                    Punctuation::CloseParen,
                ) {
                    spec_parse_call_suffix(toks, p2 + 1, ExprView::Grouping(Box::new(inner)))
                } else if p2 < toks.len() {
                    Err(
                        PErrView {
                            line: toks[p2].line,
                            column: toks[p2].column,
                            msg: "parse_atom: expected ')'"@,
                        },
                    )
                } else {
                    Err(PErrView { line: 0, column: 0, msg: "parse_atom: expected ')'"@ })
                },
                Err(e) => Err(e),
            },
            _ => Err(
                PErrView {
                    line: t.line,
                    column: t.column,
                    msg: "parse_atom: expected an atom"@,
                },
            ),
        }
    }
}

/// Zero or more call suffixes `(arg, ...)` after an atom.
pub open spec fn spec_parse_call_suffix(toks: Seq<TokenView>, pos: int, callee: ExprView) -> Result<
    (ExprView, int),
    PErrView,
>
    decreases toks.len() - pos, 12int,
{
    if 0 <= pos < toks.len() && toks[pos].kind matches TokenKindView::Punctuation(
        Punctuation::OpenParen,
    ) {
        if pos + 1 < toks.len() && toks[pos + 1].kind matches TokenKindView::Punctuation(
            Punctuation::CloseParen,
        ) {
            // empty argument list
            spec_parse_call_suffix(
                toks,
                pos + 2,
                ExprView::Call { callee: Box::new(callee), args: Seq::empty() },
            )
        } else {
            match spec_parse_args(toks, pos + 1) {
                Ok((args, p2)) => if !(pos + 1 <= p2 <= toks.len()) {
                    Err(stuck_err())
                } else if p2 < toks.len() && toks[p2].kind matches TokenKindView::Punctuation(
                    Punctuation::CloseParen,
                ) {
                    if pos < p2 + 1 {
                        spec_parse_call_suffix(
                            toks,
                            p2 + 1,
                            ExprView::Call { callee: Box::new(callee), args },
                        )
                    } else {
                        Err(stuck_err())
                    }
                } else if p2 < toks.len() {
                    Err(
                        PErrView {
                            line: toks[p2].line,
                            column: toks[p2].column,
                            msg: "parse_atom: expected ')' after function call arguments"@,
                        },
                    )
                } else {
                    Err(
                        PErrView {
                            line: 0,
                            column: 0,
                            msg: "parse_atom: expected ')' after function call arguments"@,
                        },
                    )
                },
                Err(e) => Err(e),
            }
        }
    } else {
        Ok((callee, pos))
    }
}

/// A comma-separated, non-empty argument list.
pub open spec fn spec_parse_args(toks: Seq<TokenView>, pos: int) -> Result<
    (Seq<ExprView>, int),
    PErrView,
>
    decreases toks.len() - pos, 11int,
{
    match spec_parse_expression(toks, pos) {
        Ok((arg, p2)) => if !(pos < p2 <= toks.len()) {
            Err(stuck_err())
        } else if p2 < toks.len() && toks[p2].kind matches TokenKindView::Punctuation(
            Punctuation::Comma,
        ) {
            match spec_parse_args(toks, p2 + 1) {
                Ok((rest, p3)) => Ok((seq![arg] + rest, p3)),
                Err(e) => Err(e),
            }
        } else {
            Ok((seq![arg], p2))
        },
        Err(e) => Err(e),
    }
}

/// Unary expressions: `!` chains ending in an atom.
pub open spec fn spec_parse_unary(toks: Seq<TokenView>, pos: int) -> Result<
    (ExprView, int),
    PErrView,
>
    decreases toks.len() - pos, 3int,
{
    if 0 <= pos < toks.len() && toks[pos].kind matches TokenKindView::Operator(Operator::Not) {
        match spec_parse_unary(toks, pos + 1) {
            Ok((inner, p2)) => Ok(
                (ExprView::Unary { op: Operator::Not, expr: Box::new(inner) }, p2),
            ),
            Err(e) => Err(e),
        }
    } else {
        spec_parse_atom(toks, pos)
    }
}

/// The operator at `pos`, if it is one of this level's operators.
pub open spec fn level_op(toks: Seq<TokenView>, pos: int, rank: int) -> Option<Operator> {
    if 0 <= pos < toks.len() {
        match toks[pos].kind {
            TokenKindView::Operator(op) => if rank == 4 && (op == Operator::Multiply || op
                == Operator::Divide) {
                Some(op)
            } else if rank == 5 && (op == Operator::Plus || op == Operator::Minus) {
                Some(op)
            } else if rank == 6 && (op == Operator::GreaterThan || op == Operator::LesserThan || op
                == Operator::GreaterEqual || op == Operator::LesserEqual) {
                Some(op)
            } else if rank == 7 && (op == Operator::Equals || op == Operator::Different) {
                Some(op)
            } else if rank == 8 && op == Operator::And {
                Some(op)
            } else if rank == 9 && op == Operator::Or {
                Some(op)
            } else {
                None
            },
            _ => None,
        }
    } else {
        None
    }
}

pub open spec fn spec_parse_term(toks: Seq<TokenView>, pos: int) -> Result<
    (ExprView, int),
    PErrView,
>
    decreases toks.len() - pos, 4int,
{
    match spec_parse_unary(toks, pos) {
        Ok((left, p2)) => if pos < p2 <= toks.len() {
            spec_parse_term_rest(toks, p2, left)
        } else {
            Err(stuck_err())
        },
        Err(e) => Err(e),
    }
}

pub open spec fn spec_parse_term_rest(toks: Seq<TokenView>, pos: int, left: ExprView) -> Result<
    (ExprView, int),
    PErrView,
>
    decreases toks.len() - pos, 4int,
{
    match level_op(toks, pos, 4) {
        Some(op) => match spec_parse_unary(toks, pos + 1) {
            Ok((right, p2)) => if pos + 1 <= p2 <= toks.len() && pos < p2 {
                spec_parse_term_rest(
                    toks,
                    p2,
                    ExprView::Binary { left: Box::new(left), op, right: Box::new(right) },
                )
            } else {
                Err(stuck_err())
            },
            Err(e) => Err(e),
        },
        None => Ok((left, pos)),
    }
}

pub open spec fn spec_parse_additive(toks: Seq<TokenView>, pos: int) -> Result<
    (ExprView, int),
    PErrView,
>
    decreases toks.len() - pos, 5int,
{
    match spec_parse_term(toks, pos) {
        Ok((left, p2)) => if pos < p2 <= toks.len() {
            spec_parse_additive_rest(toks, p2, left)
        } else {
            Err(stuck_err())
        },
        Err(e) => Err(e),
    }
}

pub open spec fn spec_parse_additive_rest(toks: Seq<TokenView>, pos: int, left: ExprView) -> Result<
    (ExprView, int),
    PErrView,
>
    decreases toks.len() - pos, 5int,
{
    match level_op(toks, pos, 5) {
        Some(op) => match spec_parse_term(toks, pos + 1) {
            Ok((right, p2)) => if pos + 1 <= p2 <= toks.len() && pos < p2 {
                spec_parse_additive_rest(
                    toks,
                    p2,
                    ExprView::Binary { left: Box::new(left), op, right: Box::new(right) },
                )
            } else {
                Err(stuck_err())
            },
            Err(e) => Err(e),
        },
        None => Ok((left, pos)),
    }
}

pub open spec fn spec_parse_comparison(toks: Seq<TokenView>, pos: int) -> Result<
    (ExprView, int),
    PErrView,
>
    decreases toks.len() - pos, 6int,
{
    match spec_parse_additive(toks, pos) {
        Ok((left, p2)) => if pos < p2 <= toks.len() {
            spec_parse_comparison_rest(toks, p2, left)
        } else {
            Err(stuck_err())
        },
        Err(e) => Err(e),
    }
}

pub open spec fn spec_parse_comparison_rest(toks: Seq<TokenView>, pos: int, left: ExprView)
    -> Result<(ExprView, int), PErrView>
    decreases toks.len() - pos, 6int,
{
    match level_op(toks, pos, 6) {
        Some(op) => match spec_parse_additive(toks, pos + 1) {
            Ok((right, p2)) => if pos + 1 <= p2 <= toks.len() && pos < p2 {
                spec_parse_comparison_rest(
                    toks,
                    p2,
                    ExprView::Binary { left: Box::new(left), op, right: Box::new(right) },
                )
            } else {
                Err(stuck_err())
            },
            Err(e) => Err(e),
        },
        None => Ok((left, pos)),
    }
}

pub open spec fn spec_parse_equality(toks: Seq<TokenView>, pos: int) -> Result<
    (ExprView, int),
    PErrView,
>
    decreases toks.len() - pos, 7int,
{
    match spec_parse_comparison(toks, pos) {
        Ok((left, p2)) => if pos < p2 <= toks.len() {
            spec_parse_equality_rest(toks, p2, left)
        } else {
            Err(stuck_err())
        },
        Err(e) => Err(e),
    }
}

pub open spec fn spec_parse_equality_rest(toks: Seq<TokenView>, pos: int, left: ExprView) -> Result<
    (ExprView, int),
    PErrView,
>
    decreases toks.len() - pos, 7int,
{
    match level_op(toks, pos, 7) {
        Some(op) => match spec_parse_comparison(toks, pos + 1) {
            Ok((right, p2)) => if pos + 1 <= p2 <= toks.len() && pos < p2 {
                spec_parse_equality_rest(
                    toks,
                    p2,
                    ExprView::Binary { left: Box::new(left), op, right: Box::new(right) },
                )
            } else {
                Err(stuck_err())
            },
            Err(e) => Err(e),
        },
        None => Ok((left, pos)),
    }
}

pub open spec fn spec_parse_logical_and(toks: Seq<TokenView>, pos: int) -> Result<
    (ExprView, int),
    PErrView,
>
    decreases toks.len() - pos, 8int,
{
    match spec_parse_equality(toks, pos) {
        Ok((left, p2)) => if pos < p2 <= toks.len() {
            spec_parse_logical_and_rest(toks, p2, left)
        } else {
            Err(stuck_err())
        },
        Err(e) => Err(e),
    }
}

pub open spec fn spec_parse_logical_and_rest(toks: Seq<TokenView>, pos: int, left: ExprView)
    -> Result<(ExprView, int), PErrView>
    decreases toks.len() - pos, 8int,
{
    match level_op(toks, pos, 8) {
        Some(op) => match spec_parse_equality(toks, pos + 1) {
            Ok((right, p2)) => if pos + 1 <= p2 <= toks.len() && pos < p2 {
                spec_parse_logical_and_rest(
                    toks,
                    p2,
                    ExprView::Binary { left: Box::new(left), op, right: Box::new(right) },
                )
            } else {
                Err(stuck_err())
            },
            Err(e) => Err(e),
        },
        None => Ok((left, pos)),
    }
}

pub open spec fn spec_parse_logical_or(toks: Seq<TokenView>, pos: int) -> Result<
    (ExprView, int),
    PErrView,
>
    decreases toks.len() - pos, 9int,
{
    match spec_parse_logical_and(toks, pos) {
        Ok((left, p2)) => if pos < p2 <= toks.len() {
            spec_parse_logical_or_rest(toks, p2, left)
        } else {
            Err(stuck_err())
        },
        Err(e) => Err(e),
    }
}

pub open spec fn spec_parse_logical_or_rest(toks: Seq<TokenView>, pos: int, left: ExprView)
    -> Result<(ExprView, int), PErrView>
    decreases toks.len() - pos, 9int,
{
    match level_op(toks, pos, 9) {
        Some(op) => match spec_parse_logical_and(toks, pos + 1) {
            Ok((right, p2)) => if pos + 1 <= p2 <= toks.len() && pos < p2 {
                spec_parse_logical_or_rest(
                    toks,
                    p2,
                    ExprView::Binary { left: Box::new(left), op, right: Box::new(right) },
                )
            } else {
                Err(stuck_err())
            },
            Err(e) => Err(e),
        },
        None => Ok((left, pos)),
    }
}

/// A whole expression: the top of the precedence chain.
pub open spec fn spec_parse_expression(toks: Seq<TokenView>, pos: int) -> Result<
    (ExprView, int),
    PErrView,
>
    decreases toks.len() - pos, 10int,
{
    spec_parse_logical_or(toks, pos)
}

// ---------------------------------------------------------------------------
// Executable expression parsing
// ---------------------------------------------------------------------------

/// The executable result of parsing an expression agrees with the mirror's.
pub open spec fn expr_res(
    p: Parser,
    lo: int,
    r: Result<(Expr, usize), ParseError>,
    sr: Result<(ExprView, int), PErrView>,
) -> bool {
    match (r, sr) {
        (Ok((e, np)), Ok((ev, sp))) => e@ == ev && np as int == sp && lo < np <= p.toks().len(),
        (Err(e), Err(se)) => p.err_matches(e, se),
        _ => false,
    }
}

/// Like `expr_res`, for steps that may consume nothing.
pub open spec fn expr_res_opt(
    p: Parser,
    lo: int,
    r: Result<(Expr, usize), ParseError>,
    sr: Result<(ExprView, int), PErrView>,
) -> bool {
    match (r, sr) {
        (Ok((e, np)), Ok((ev, sp))) => e@ == ev && np as int == sp && lo <= np <= p.toks().len(),
        (Err(e), Err(se)) => p.err_matches(e, se),
        _ => false,
    }
}

impl Parser {
    #[verifier::rlimit(100)]
    fn parse_atom(&self, pos: usize) -> (r: Result<(Expr, usize), ParseError>)
        requires
            self.wf(),
            pos <= self.toks().len(),
        ensures
            expr_res(*self, pos as int, r, spec_parse_atom(self.toks(), pos as int)),
        decreases self.toks().len() - pos, 2int,
    {
        if pos >= self.n_toks() {
            return Err(self.error("parse_atom: expected a token, found none", 0, 0));
        }
        let t = self.tok_at(pos);
        let t_line = t.line;
        let t_column = t.column;
        match &t.kind {
            TokenKind::Literal(lit) => match lit {
                Literal::Integer(n) => self.parse_call_suffix(
                    Expr::Literal(Literal::Integer(*n)),
                    pos + 1,
                ),
                Literal::Boolean(b) => self.parse_call_suffix(
                    Expr::Literal(Literal::Boolean(*b)),
                    pos + 1,
                ),
                Literal::Character(c) => self.parse_call_suffix(
                    Expr::Literal(Literal::Character(*c)),
                    pos + 1,
                ),
                Literal::Float(_) => Err(self.error("parse_atom: expected an atom", t_line,
                t_column)),
            },
            TokenKind::Identifier(name) => {
                let id = clone_string(name);
                self.parse_call_suffix(Expr::Ident(id), pos + 1)
            },
            TokenKind::Punctuation(Punctuation::OpenParen) => {
                match self.parse_expression(pos + 1) {
                    Ok((inner, p2)) => {
                        if p2 < self.n_toks() {
                            let close = self.tok_at(p2);
                            let c_line = close.line;
                            let c_column = close.column;
                            if matches!(close.kind, TokenKind::Punctuation(Punctuation::CloseParen)) {
                                self.parse_call_suffix(Expr::Grouping(Box::new(inner)), p2 + 1)
                            } else {
                                Err(self.error("parse_atom: expected ')'", c_line, c_column))
                            }
                        } else {
                            Err(self.error("parse_atom: expected ')'", 0, 0))
                        }
                    },
                    Err(e) => Err(e),
                }
            },
            _ => Err(self.error("parse_atom: expected an atom", t_line, t_column)),
        }
    }

    fn parse_call_suffix(&self, callee: Expr, pos: usize) -> (r: Result<(Expr, usize), ParseError>)
        requires
            self.wf(),
            pos <= self.toks().len(),
        ensures
            expr_res_opt(
                *self,
                pos as int,
                r,
                spec_parse_call_suffix(self.toks(), pos as int, callee@),
            ),
        decreases self.toks().len() - pos, 12int,
    {
        if pos < self.n_toks() && matches!(
            self.tok_at(pos).kind,
            TokenKind::Punctuation(Punctuation::OpenParen),
        ) {
            if pos + 1 < self.n_toks() && matches!(
                self.tok_at(pos + 1).kind,
                TokenKind::Punctuation(Punctuation::CloseParen),
            ) {
                let empty_args: Vec<Expr> = Vec::new();
                proof {
                    assert(crate::ast::exprs_view(empty_args) =~= Seq::<ExprView>::empty());
                }
                self.parse_call_suffix(
                    Expr::Call { callee: Box::new(callee), args: empty_args },
                    pos + 2,
                )
            } else {
                match self.parse_args(pos + 1) {
                    Ok((args, p2)) => {
                        if p2 < self.n_toks() {
                            let close = self.tok_at(p2);
                            let c_line = close.line;
                            let c_column = close.column;
                            if matches!(close.kind, TokenKind::Punctuation(Punctuation::CloseParen)) {
                                self.parse_call_suffix(
                                    Expr::Call { callee: Box::new(callee), args },
                                    p2 + 1,
                                )
                            } else {
                                Err(
                                    self.error(
                                        "parse_atom: expected ')' after function call arguments",
                                        c_line,
                                        c_column,
                                    ),
                                )
                            }
                        } else {
                            Err(
                                self.error(
                                    "parse_atom: expected ')' after function call arguments",
                                    0,
                                    0,
                                ),
                            )
                        }
                    },
                    Err(e) => Err(e),
                }
            }
        } else {
            Ok((callee, pos))
        }
    }

    #[verifier::rlimit(100)]
    fn parse_args(&self, pos: usize) -> (r: Result<(Vec<Expr>, usize), ParseError>)
        requires
            self.wf(),
            pos <= self.toks().len(),
        ensures
            match (r, spec_parse_args(self.toks(), pos as int)) {
                (Ok((args, np)), Ok((argsv, sp))) => crate::ast::exprs_view(args) == argsv && np
                    as int == sp && pos < np <= self.toks().len(),
                (Err(e), Err(se)) => self.err_matches(e, se),
                _ => false,
            },
        decreases self.toks().len() - pos, 11int,
    {
        match self.parse_expression(pos) {
            Ok((arg, p2)) => {
                if p2 < self.n_toks() && matches!(
                    self.tok_at(p2).kind,
                    TokenKind::Punctuation(Punctuation::Comma),
                ) {
                    match self.parse_args(p2 + 1) {
                        Ok((rest, p3)) => {
                            let ghost argv = arg@;
                            let mut args = rest;
                            let ghost old_vec = args;
                            args.insert(0, arg);
                            proof {
                                crate::ast::lemma_exprs_view_from(args, 0);
                                crate::ast::lemma_exprs_view_from(old_vec, 0);
                                assert(args@ =~= seq![args@[0]] + old_vec@);
                                let lhs = crate::ast::exprs_view(args);
                                let rhs = seq![argv] + crate::ast::exprs_view(old_vec);
                                assert(lhs.len() == rhs.len());
                                assert forall|q: int| 0 <= q < lhs.len() implies lhs[q] == rhs[q] by {
                                    assert(lhs[q] == crate::ast::expr_view(args@[q]));
                                    if q > 0 {
                                        assert(args@[q] == old_vec@[q - 1]);
                                        assert(rhs[q] == crate::ast::exprs_view(old_vec)[q - 1]);
                                    }
                                }
                                assert(lhs =~= rhs);
                            }
                            Ok((args, p3))
                        },
                        Err(e) => Err(e),
                    }
                } else {
                    let mut args: Vec<Expr> = Vec::new();
                    args.push(arg);
                    proof {
                        crate::ast::lemma_exprs_view_from(args, 0);
                        assert(crate::ast::exprs_view(args) =~= seq![args@[0]@]);
                    }
                    Ok((args, p2))
                }
            },
            Err(e) => Err(e),
        }
    }

    fn parse_unary(&self, pos: usize) -> (r: Result<(Expr, usize), ParseError>)
        requires
            self.wf(),
            pos <= self.toks().len(),
        ensures
            expr_res(*self, pos as int, r, spec_parse_unary(self.toks(), pos as int)),
        decreases self.toks().len() - pos, 3int,
    {
        if pos < self.n_toks() && matches!(
            self.tok_at(pos).kind,
            TokenKind::Operator(Operator::Not),
        ) {
            match self.parse_unary(pos + 1) {
                Ok((inner, p2)) => Ok(
                    (Expr::Unary { op: Operator::Not, expr: Box::new(inner) }, p2),
                ),
                Err(e) => Err(e),
            }
        } else {
            self.parse_atom(pos)
        }
    }

    /// The operator at `pos` when it belongs to the given precedence level.
    fn level_op_at(&self, pos: usize, rank: u8) -> (r: Option<Operator>)
        requires
            self.wf(),
            pos <= self.toks().len(),
            4 <= rank <= 9,
        ensures
            r == level_op(self.toks(), pos as int, rank as int),
    {
        if pos >= self.n_toks() {
            return None;
        }
        let t = self.tok_at(pos);
        match &t.kind {
            TokenKind::Operator(op) => {
                let op = *op;
                let hit: bool = if rank == 4 {
                    matches!(op, Operator::Multiply | Operator::Divide)
                } else if rank == 5 {
                    matches!(op, Operator::Plus | Operator::Minus)
                } else if rank == 6 {
                    matches!(
                        op,
                        Operator::GreaterThan | Operator::LesserThan | Operator::GreaterEqual
                            | Operator::LesserEqual,
                    )
                } else if rank == 7 {
                    matches!(op, Operator::Equals | Operator::Different)
                } else if rank == 8 {
                    matches!(op, Operator::And)
                } else {
                    matches!(op, Operator::Or)
                };
                if hit {
                    Some(op)
                } else {
                    None
                }
            },
            _ => None,
        }
    }

    fn parse_term(&self, pos: usize) -> (r: Result<(Expr, usize), ParseError>)
        requires
            self.wf(),
            pos <= self.toks().len(),
        ensures
            expr_res(*self, pos as int, r, spec_parse_term(self.toks(), pos as int)),
        decreases self.toks().len() - pos, 4int,
    {
        match self.parse_unary(pos) {
            Ok((left, p2)) => self.parse_term_rest(left, p2),
            Err(e) => Err(e),
        }
    }

    fn parse_term_rest(&self, left: Expr, pos: usize) -> (r: Result<(Expr, usize), ParseError>)
        requires
            self.wf(),
            pos <= self.toks().len(),
        ensures
            expr_res_opt(
                *self,
                pos as int,
                r,
                spec_parse_term_rest(self.toks(), pos as int, left@),
            ),
        decreases self.toks().len() - pos, 12int,
    {
        match self.level_op_at(pos, 4) {
            Some(op) => match self.parse_unary(pos + 1) {
                Ok((right, p2)) => self.parse_term_rest(
                    Expr::Binary { left: Box::new(left), op, right: Box::new(right) },
                    p2,
                ),
                Err(e) => Err(e),
            },
            None => Ok((left, pos)),
        }
    }

    fn parse_additive(&self, pos: usize) -> (r: Result<(Expr, usize), ParseError>)
        requires
            self.wf(),
            pos <= self.toks().len(),
        ensures
            expr_res(*self, pos as int, r, spec_parse_additive(self.toks(), pos as int)),
        decreases self.toks().len() - pos, 5int,
    {
        match self.parse_term(pos) {
            Ok((left, p2)) => self.parse_additive_rest(left, p2),
            Err(e) => Err(e),
        }
    }

    fn parse_additive_rest(&self, left: Expr, pos: usize) -> (r: Result<(Expr, usize), ParseError>)
        requires
            self.wf(),
            pos <= self.toks().len(),
        ensures
            expr_res_opt(
                *self,
                pos as int,
                r,
                spec_parse_additive_rest(self.toks(), pos as int, left@),
            ),
        decreases self.toks().len() - pos, 12int,
    {
        match self.level_op_at(pos, 5) {
            Some(op) => match self.parse_term(pos + 1) {
                Ok((right, p2)) => self.parse_additive_rest(
                    Expr::Binary { left: Box::new(left), op, right: Box::new(right) },
                    p2,
                ),
                Err(e) => Err(e),
            },
            None => Ok((left, pos)),
        }
    }

    fn parse_comparison(&self, pos: usize) -> (r: Result<(Expr, usize), ParseError>)
        requires
            self.wf(),
            pos <= self.toks().len(),
        ensures
            expr_res(*self, pos as int, r, spec_parse_comparison(self.toks(), pos as int)),
        decreases self.toks().len() - pos, 6int,
    {
        match self.parse_additive(pos) {
            Ok((left, p2)) => self.parse_comparison_rest(left, p2),
            Err(e) => Err(e),
        }
    }

    fn parse_comparison_rest(&self, left: Expr, pos: usize) -> (r: Result<
        (Expr, usize),
        ParseError,
    >)
        requires
            self.wf(),
            pos <= self.toks().len(),
        ensures
            expr_res_opt(
                *self,
                pos as int,
                r,
                spec_parse_comparison_rest(self.toks(), pos as int, left@),
            ),
        decreases self.toks().len() - pos, 12int,
    {
        match self.level_op_at(pos, 6) {
            Some(op) => match self.parse_additive(pos + 1) {
                Ok((right, p2)) => self.parse_comparison_rest(
                    Expr::Binary { left: Box::new(left), op, right: Box::new(right) },
                    p2,
                ),
                Err(e) => Err(e),
            },
            None => Ok((left, pos)),
        }
    }

    fn parse_equality(&self, pos: usize) -> (r: Result<(Expr, usize), ParseError>)
        requires
            self.wf(),
            pos <= self.toks().len(),
        ensures
            expr_res(*self, pos as int, r, spec_parse_equality(self.toks(), pos as int)),
        decreases self.toks().len() - pos, 7int,
    {
        match self.parse_comparison(pos) {
            Ok((left, p2)) => self.parse_equality_rest(left, p2),
            Err(e) => Err(e),
        }
    }

    fn parse_equality_rest(&self, left: Expr, pos: usize) -> (r: Result<(Expr, usize), ParseError>)
        requires
            self.wf(),
            pos <= self.toks().len(),
        ensures
            expr_res_opt(
                *self,
                pos as int,
                r,
                spec_parse_equality_rest(self.toks(), pos as int, left@),
            ),
        decreases self.toks().len() - pos, 12int,
    {
        match self.level_op_at(pos, 7) {
            Some(op) => match self.parse_comparison(pos + 1) {
                Ok((right, p2)) => self.parse_equality_rest(
                    Expr::Binary { left: Box::new(left), op, right: Box::new(right) },
                    p2,
                ),
                Err(e) => Err(e),
            },
            None => Ok((left, pos)),
        }
    }

    fn parse_logical_and(&self, pos: usize) -> (r: Result<(Expr, usize), ParseError>)
        requires
            self.wf(),
            pos <= self.toks().len(),
        ensures
            expr_res(*self, pos as int, r, spec_parse_logical_and(self.toks(), pos as int)),
        decreases self.toks().len() - pos, 8int,
    {
        match self.parse_equality(pos) {
            Ok((left, p2)) => self.parse_logical_and_rest(left, p2),
            Err(e) => Err(e),
        }
    }

    fn parse_logical_and_rest(&self, left: Expr, pos: usize) -> (r: Result<
        (Expr, usize),
        ParseError,
    >)
        requires
            self.wf(),
            pos <= self.toks().len(),
        ensures
            expr_res_opt(
                *self,
                pos as int,
                r,
                spec_parse_logical_and_rest(self.toks(), pos as int, left@),
            ),
        decreases self.toks().len() - pos, 12int,
    {
        match self.level_op_at(pos, 8) {
            Some(op) => match self.parse_equality(pos + 1) {
                Ok((right, p2)) => self.parse_logical_and_rest(
                    Expr::Binary { left: Box::new(left), op, right: Box::new(right) },
                    p2,
                ),
                Err(e) => Err(e),
            },
            None => Ok((left, pos)),
        }
    }

    fn parse_logical_or(&self, pos: usize) -> (r: Result<(Expr, usize), ParseError>)
        requires
            self.wf(),
            pos <= self.toks().len(),
        ensures
            expr_res(*self, pos as int, r, spec_parse_logical_or(self.toks(), pos as int)),
        decreases self.toks().len() - pos, 9int,
    {
        match self.parse_logical_and(pos) {
            Ok((left, p2)) => self.parse_logical_or_rest(left, p2),
            Err(e) => Err(e),
        }
    }

    fn parse_logical_or_rest(&self, left: Expr, pos: usize) -> (r: Result<
        (Expr, usize),
        ParseError,
    >)
        requires
            self.wf(),
            pos <= self.toks().len(),
        ensures
            expr_res_opt(
                *self,
                pos as int,
                r,
                spec_parse_logical_or_rest(self.toks(), pos as int, left@),
            ),
        decreases self.toks().len() - pos, 12int,
    {
        match self.level_op_at(pos, 9) {
            Some(op) => match self.parse_logical_and(pos + 1) {
                Ok((right, p2)) => self.parse_logical_or_rest(
                    Expr::Binary { left: Box::new(left), op, right: Box::new(right) },
                    p2,
                ),
                Err(e) => Err(e),
            },
            None => Ok((left, pos)),
        }
    }

    /// Parse one expression starting at `pos`.
    fn parse_expression(&self, pos: usize) -> (r: Result<(Expr, usize), ParseError>)
        requires
            self.wf(),
            pos <= self.toks().len(),
        ensures
            expr_res(*self, pos as int, r, spec_parse_expression(self.toks(), pos as int)),
        decreases self.toks().len() - pos, 10int,
    {
        self.parse_logical_or(pos)
    }
}


// ---------------------------------------------------------------------------
// Statements, declarations and the whole program
// ---------------------------------------------------------------------------

/// The position after an optional trailing semicolon.
pub open spec fn skip_semi(toks: Seq<TokenView>, p: int) -> int {
    if 0 <= p < toks.len() && toks[p].kind matches TokenKindView::Punctuation(
        Punctuation::Semicolon,
    ) {
        p + 1
    } else {
        p
    }
}

/// `= expression`.
pub open spec fn spec_parse_initializer(toks: Seq<TokenView>, pos: int) -> Result<
    (ExprView, int),
    PErrView,
>
    decreases toks.len() - pos, 13int,
{
    if 0 <= pos < toks.len() && toks[pos].kind matches TokenKindView::Operator(Operator::Assign) {
        spec_parse_expression(toks, pos + 1)
    } else if 0 <= pos < toks.len() {
        Err(PErrView { line: toks[pos].line, column: toks[pos].column, msg: "expected '='"@ })
    } else {
        Err(PErrView { line: 0, column: 0, msg: "expected '='"@ })
    }
}

/// `let name: type = expression` (the colon may be omitted).
pub open spec fn spec_parse_var_decl(toks: Seq<TokenView>, pos: int) -> Result<
    (StmtView, int),
    PErrView,
>
    decreases toks.len() - pos, 14int,
{
    if !(0 <= pos < toks.len() && toks[pos].kind matches TokenKindView::Keyword(Keyword::Let)) {
        if 0 <= pos < toks.len() {
            Err(
                PErrView {
                    line: toks[pos].line,
                    column: toks[pos].column,
                    msg: "parse_var_decl: expected 'let' keyword"@,
                },
            )
        } else {
            Err(PErrView { line: 0, column: 0, msg: "parse_var_decl: expected 'let' keyword"@ })
        }
    } else if !(pos + 1 < toks.len() && toks[pos + 1].kind matches TokenKindView::Identifier(_)) {
        if pos + 1 < toks.len() {
            Err(
                PErrView {
                    line: toks[pos + 1].line,
                    column: toks[pos + 1].column,
                    msg: "parse_var_decl: expected identifier"@,
                },
            )
        } else {
            Err(PErrView { line: 0, column: 0, msg: "parse_var_decl: expected identifier"@ })
        }
    } else {
        let name = toks[pos + 1].kind->Identifier_0;
        let tpos: int = if pos + 2 < toks.len() && toks[pos + 2].kind
            matches TokenKindView::Punctuation(Punctuation::Colon) {
            pos + 3
        } else {
            pos + 2
        };
        if !(tpos < toks.len() && toks[tpos].kind matches TokenKindView::TypeIdentifier(_)) {
            if tpos < toks.len() {
                Err(
                    PErrView {
                        line: toks[tpos].line,
                        column: toks[tpos].column,
                        msg: "parse_var_decl: expected type identifier"@,
                    },
                )
            } else {
                Err(
                    PErrView {
                        line: 0,
                        column: 0,
                        msg: "parse_var_decl: expected type identifier"@,
                    },
                )
            }
        } else {
            let ty = toks[tpos].kind->TypeIdentifier_0;
            match spec_parse_initializer(toks, tpos + 1) {
                Ok((init, p2)) => Ok((StmtView::VarDecl { name, ty, init }, p2)),
                Err(e) => Err(e),
            }
        }
    }
}

/// `name = expression`.
pub open spec fn spec_parse_assignment(toks: Seq<TokenView>, pos: int) -> Result<
    (StmtView, int),
    PErrView,
>
    decreases toks.len() - pos, 14int,
{
    if 0 <= pos < toks.len() && toks[pos].kind matches TokenKindView::Identifier(_) {
        let name = toks[pos].kind->Identifier_0;
        match spec_parse_initializer(toks, pos + 1) {
            Ok((e, p2)) => Ok((StmtView::Assignment { name, expr: e }, p2)),
            Err(e) => Err(e),
        }
    } else if 0 <= pos < toks.len() {
        Err(
            PErrView {
                line: toks[pos].line,
                column: toks[pos].column,
                msg: "parse_assignment: expected identifier"@,
            },
        )
    } else {
        Err(PErrView { line: 0, column: 0, msg: "parse_assignment: expected identifier"@ })
    }
}

/// `name++` or `name--`, desugared at parse time into `name = name + 1` or
/// `name = name - 1`.
pub open spec fn spec_parse_increment_decrement(toks: Seq<TokenView>, pos: int) -> Result<
    (StmtView, int),
    PErrView,
>
    decreases toks.len() - pos, 14int,
{
    if !(0 <= pos < toks.len() && toks[pos].kind matches TokenKindView::Identifier(_)) {
        if 0 <= pos < toks.len() {
            Err(
                PErrView {
                    line: toks[pos].line,
                    column: toks[pos].column,
                    msg: "parse_increment_decrement: expected identifier"@,
                },
            )
        } else {
            Err(
                PErrView {
                    line: 0,
                    column: 0,
                    msg: "parse_increment_decrement: expected identifier"@,
                },
            )
        }
    } else {
        let name = toks[pos].kind->Identifier_0;
        if pos + 1 < toks.len() && toks[pos + 1].kind matches TokenKindView::Operator(
            Operator::Increment,
        ) {
            Ok((desugared_step(name, Operator::Plus), pos + 2))
        } else if pos + 1 < toks.len() && toks[pos + 1].kind matches TokenKindView::Operator(
            Operator::Decrement,
        ) {
            Ok((desugared_step(name, Operator::Minus), pos + 2))
        } else if pos + 1 < toks.len() {
            Err(
                PErrView {
                    line: toks[pos + 1].line,
                    column: toks[pos + 1].column,
                    msg: "parse_increment_decrement: expected '++' or '--'"@,
                },
            )
        } else {
            Err(
                PErrView {
                    line: 0,
                    column: 0,
                    msg: "parse_increment_decrement: expected '++' or '--'"@,
                },
            )
        }
    }
}

/// The desugaring of `name++` / `name--`: an assignment of `name op 1`.
pub open spec fn desugared_step(name: Seq<char>, op: Operator) -> StmtView {
    StmtView::Assignment {
        name: name,
        expr: ExprView::Binary {
            left: Box::new(ExprView::Ident(name)),
            op,
            right: Box::new(ExprView::Literal(LiteralView::Integer(1))),
        },
    }
}

/// The parameter list after `(`: `name: type` pairs with optional commas,
/// ended by `)` (the colon may be omitted).  Ends silently at end of input.
pub open spec fn spec_parse_params(toks: Seq<TokenView>, pos: int) -> Result<
    (Seq<crate::ast::ParamView>, int),
    PErrView,
>
    decreases toks.len() - pos, 15int,
{
    if !(0 <= pos < toks.len()) {
        Ok((Seq::empty(), pos))
    } else if toks[pos].kind matches TokenKindView::Punctuation(Punctuation::CloseParen) {
        Ok((Seq::empty(), pos + 1))
    } else if toks[pos].kind matches TokenKindView::Identifier(_) {
        let name = toks[pos].kind->Identifier_0;
        let tpos: int = if pos + 1 < toks.len() && toks[pos + 1].kind
            matches TokenKindView::Punctuation(Punctuation::Colon) {
            pos + 2
        } else {
            pos + 1
        };
        if !(tpos < toks.len() && toks[tpos].kind matches TokenKindView::TypeIdentifier(_)) {
            if tpos < toks.len() {
                Err(
                    PErrView {
                        line: toks[tpos].line,
                        column: toks[tpos].column,
                        msg: "parse_func_decl: expected parameter type"@,
                    },
                )
            } else {
                Err(
                    PErrView {
                        line: 0,
                        column: 0,
                        msg: "parse_func_decl: expected parameter type"@,
                    },
                )
            }
        } else {
            let ty = toks[tpos].kind->TypeIdentifier_0;
            let next: int = if tpos + 1 < toks.len() && toks[tpos + 1].kind
                matches TokenKindView::Punctuation(Punctuation::Comma) {
                tpos + 2
            } else {
                tpos + 1
            };
            match spec_parse_params(toks, next) {
                Ok((rest, p2)) => Ok(
                    (seq![crate::ast::ParamView { name, ty }] + rest, p2),
                ),
                Err(e) => Err(e),
            }
        }
    } else {
        Err(
            PErrView {
                line: toks[pos].line,
                column: toks[pos].column,
                msg: "parse_func_decl: unexpected token in parameter list"@,
            },
        )
    }
}

/// The optional return type after the parameter list: either a bare type
/// name, or `->` followed by a type name.
pub open spec fn spec_parse_ret_type(toks: Seq<TokenView>, pos: int) -> Result<
    (Option<TypeIdentifier>, int),
    PErrView,
> {
    if 0 <= pos < toks.len() && toks[pos].kind matches TokenKindView::TypeIdentifier(_) {
        Ok((Some(toks[pos].kind->TypeIdentifier_0), pos + 1))
    } else if 0 <= pos && pos + 1 < toks.len() && (toks[pos].kind matches TokenKindView::Operator(
        Operator::Minus,
    )) && (toks[pos + 1].kind matches TokenKindView::Operator(Operator::GreaterThan)) {
        if pos + 2 < toks.len() && toks[pos + 2].kind matches TokenKindView::TypeIdentifier(_) {
            Ok((Some(toks[pos + 2].kind->TypeIdentifier_0), pos + 3))
        } else if pos + 2 < toks.len() {
            Err(
                PErrView {
                    line: toks[pos + 2].line,
                    column: toks[pos + 2].column,
                    msg: "parse_func_decl: expected return type"@,
                },
            )
        } else {
            Err(PErrView { line: 0, column: 0, msg: "parse_func_decl: expected return type"@ })
        }
    } else {
        Ok((None, pos))
    }
}

/// A block body: `{` then statements until the matching `}` (tolerating end
/// of input).
pub open spec fn spec_parse_body(toks: Seq<TokenView>, pos: int) -> Result<
    (Seq<StmtView>, int),
    PErrView,
>
    decreases toks.len() - pos, 22int,
{
    if 0 <= pos < toks.len() && toks[pos].kind matches TokenKindView::Punctuation(
        Punctuation::OpenCurly,
    ) {
        spec_parse_block_rest(toks, pos + 1)
    } else if 0 <= pos < toks.len() {
        Err(
            PErrView {
                line: toks[pos].line,
                column: toks[pos].column,
                msg: "parse_body: expected '{'"@,
            },
        )
    } else {
        Err(PErrView { line: 0, column: 0, msg: "parse_body: expected '{'"@ })
    }
}

pub open spec fn spec_parse_block_rest(toks: Seq<TokenView>, pos: int) -> Result<
    (Seq<StmtView>, int),
    PErrView,
>
    decreases toks.len() - pos, 21int,
{
    if !(0 <= pos < toks.len()) {
        Ok((Seq::empty(), pos))
    } else if toks[pos].kind matches TokenKindView::Punctuation(Punctuation::CloseCurly) {
        Ok((Seq::empty(), pos + 1))
    } else {
        match spec_parse_statement(toks, pos) {
            Ok((st, p2)) => if pos < p2 <= toks.len() {
                match spec_parse_block_rest(toks, p2) {
                    Ok((rest, p3)) => Ok((seq![st] + rest, p3)),
                    Err(e) => Err(e),
                }
            } else {
                Err(stuck_err())
            },
            Err(e) => Err(e),
        }
    }
}

/// `function name(params) [-> type] { body }`.
pub open spec fn spec_parse_function_declaration(toks: Seq<TokenView>, pos: int) -> Result<
    (crate::ast::FunctionView, int),
    PErrView,
>
    decreases toks.len() - pos, 16int,
{
    if !(0 <= pos < toks.len() && toks[pos].kind matches TokenKindView::Keyword(
        Keyword::Function,
    )) {
        if 0 <= pos < toks.len() {
            Err(
                PErrView {
                    line: toks[pos].line,
                    column: toks[pos].column,
                    msg: "parse_func_decl: expected 'function' keyword"@,
                },
            )
        } else {
            Err(
                PErrView {
                    line: 0,
                    column: 0,
                    msg: "parse_func_decl: expected 'function' keyword"@,
                },
            )
        }
    } else if !(pos + 1 < toks.len() && toks[pos + 1].kind matches TokenKindView::Identifier(_)) {
        if pos + 1 < toks.len() {
            Err(
                PErrView {
                    line: toks[pos + 1].line,
                    column: toks[pos + 1].column,
                    msg: "parse_func_decl: expected function name"@,
                },
            )
        } else {
            Err(PErrView { line: 0, column: 0, msg: "parse_func_decl: expected function name"@ })
        }
    } else if !(pos + 2 < toks.len() && toks[pos + 2].kind matches TokenKindView::Punctuation(
        Punctuation::OpenParen,
    )) {
        if pos + 2 < toks.len() {
            Err(
                PErrView {
                    line: toks[pos + 2].line,
                    column: toks[pos + 2].column,
                    msg: "parse_func_decl: expected '('"@,
                },
            )
        } else {
            Err(PErrView { line: 0, column: 0, msg: "parse_func_decl: expected '('"@ })
        }
    } else {
        let name = toks[pos + 1].kind->Identifier_0;
        match spec_parse_params(toks, pos + 3) {
            Ok((params, p2)) => if pos + 3 <= p2 <= toks.len() {
                match spec_parse_ret_type(toks, p2) {
                    Ok((ret, p3)) => if p2 <= p3 <= toks.len() && pos < p3 {
                        match spec_parse_body(toks, p3) {
                            Ok((body, p4)) => Ok(
                                (
                                    crate::ast::FunctionView {
                                        signature: crate::ast::SignatureView {
                                            name,
                                            params,
                                            return_type: ret,
                                        },
                                        body: crate::ast::BodyView::User(body),
                                    },
                                    p4,
                                ),
                            ),
                            Err(e) => Err(e),
                        }
                    } else {
                        Err(stuck_err())
                    },
                    Err(e) => Err(e),
                }
            } else {
                Err(stuck_err())
            },
            Err(e) => Err(e),
        }
    }
}

/// One statement, with its optional trailing semicolon consumed.
pub open spec fn spec_parse_statement(toks: Seq<TokenView>, pos: int) -> Result<
    (StmtView, int),
    PErrView,
>
    decreases toks.len() - pos, 20int,
{
    if !(0 <= pos < toks.len()) {
        Err(
            PErrView {
                line: 0,
                column: 0,
                msg: "parse_statement: expected a token, found none"@,
            },
        )
    } else {
        let raw: Result<(StmtView, int), PErrView> = match toks[pos].kind {
            TokenKindView::Keyword(Keyword::If) => match spec_parse_expression(toks, pos + 1) {
                Ok((cond, p2)) => if pos + 1 < p2 <= toks.len() {
                    match spec_parse_body(toks, p2) {
                        Ok((then_b, p3)) => if p2 < p3 <= toks.len() {
                            if p3 < toks.len() && toks[p3].kind matches TokenKindView::Keyword(
                                Keyword::Else,
                            ) {
                                match spec_parse_body(toks, p3 + 1) {
                                    Ok((else_b, p4)) => Ok(
                                        (
                                            StmtView::If {
                                                condition: cond,
                                                then_branch: then_b,
                                                else_branch: Some(else_b),
                                            },
                                            p4,
                                        ),
                                    ),
                                    Err(e) => Err(e),
                                }
                            } else {
                                Ok(
                                    (
                                        StmtView::If {
                                            condition: cond,
                                            then_branch: then_b,
                                            else_branch: None,
                                        },
                                        p3,
                                    ),
                                )
                            }
                        } else {
                            Err(stuck_err())
                        },
                        Err(e) => Err(e),
                    }
                } else {
                    Err(stuck_err())
                },
                Err(e) => Err(e),
            },
            TokenKindView::Keyword(Keyword::Function) => match spec_parse_function_declaration(
                toks,
                pos,
            ) {
                Ok((f, p2)) => Ok((StmtView::FunctionDeclaration(f), p2)),
                Err(e) => Err(e),
            },
            TokenKindView::Keyword(Keyword::Let) => spec_parse_var_decl(toks, pos),
            TokenKindView::Keyword(Keyword::Return) => if pos + 1 < toks.len() {
                if (toks[pos + 1].kind matches TokenKindView::Punctuation(
                    Punctuation::Semicolon,
                )) || (toks[pos + 1].kind matches TokenKindView::Punctuation(
                    Punctuation::CloseCurly,
                )) {
                    Ok((StmtView::Return(None), pos + 1))
                } else {
                    match spec_parse_expression(toks, pos + 1) {
                        Ok((e, p2)) => Ok((StmtView::Return(Some(e)), p2)),
                        Err(e) => Err(e),
                    }
                }
            } else {
                Ok((StmtView::Return(None), pos + 1))
            },
            TokenKindView::Keyword(Keyword::For) => match spec_parse_expression(toks, pos + 1) {
                Ok((cond, p2)) => if pos + 1 < p2 <= toks.len() {
                    match spec_parse_body(toks, p2) {
                        Ok((_body, p3)) => Ok(
                            (
                                StmtView::Expr(
                                    ExprView::Call {
                                        callee: Box::new(ExprView::Ident("while"@)),
                                        args: seq![cond],
                                    },
                                ),
                                p3,
                            ),
                        ),
                        Err(e) => Err(e),
                    }
                } else {
                    Err(stuck_err())
                },
                Err(e) => Err(e),
            },
            TokenKindView::Identifier(_) => if pos + 1 < toks.len() && toks[pos + 1].kind
                matches TokenKindView::Operator(Operator::Assign) {
                spec_parse_assignment(toks, pos)
            } else if pos + 1 < toks.len() && (toks[pos + 1].kind matches TokenKindView::Operator(
                Operator::Increment,
            ) || toks[pos + 1].kind matches TokenKindView::Operator(Operator::Decrement)) {
                spec_parse_increment_decrement(toks, pos)
            } else {
                match spec_parse_expression(toks, pos) {
                    Ok((e, p2)) => Ok((StmtView::Expr(e), p2)),
                    Err(e) => Err(e),
                }
            },
            _ => match spec_parse_expression(toks, pos) {
                Ok((e, p2)) => Ok((StmtView::Expr(e), p2)),
                Err(e) => Err(e),
            },
        };
        match raw {
            Ok((sv, p)) => Ok((sv, skip_semi(toks, p))),
            Err(e) => Err(e),
        }
    }
}

/// All statements to the end of the token stream.
pub open spec fn spec_parse_program_rest(toks: Seq<TokenView>, pos: int) -> Result<
    (Seq<StmtView>, int),
    PErrView,
>
    decreases toks.len() - pos, 23int,
{
    if !(0 <= pos < toks.len()) {
        Ok((Seq::empty(), pos))
    } else {
        match spec_parse_statement(toks, pos) {
            Ok((st, p2)) => if pos < p2 <= toks.len() {
                match spec_parse_program_rest(toks, p2) {
                    Ok((rest, p3)) => Ok((seq![st] + rest, p3)),
                    Err(e) => Err(e),
                }
            } else {
                Err(stuck_err())
            },
            Err(e) => Err(e),
        }
    }
}

/// What the whole token stream parses to: the program, or the first error.
pub open spec fn spec_parse_program(toks: Seq<TokenView>) -> Result<Seq<StmtView>, PErrView> {
    match spec_parse_program_rest(toks, 0) {
        Ok((stmts, _p)) => Ok(stmts),
        Err(e) => Err(e),
    }
}

// ---------------------------------------------------------------------------
// Executable statement parsing
// ---------------------------------------------------------------------------

pub open spec fn stmt_res(
    p: Parser,
    lo: int,
    r: Result<(Statement, usize), ParseError>,
    sr: Result<(StmtView, int), PErrView>,
) -> bool {
    match (r, sr) {
        (Ok((st, np)), Ok((sv, sp))) => st@ == sv && np as int == sp && lo < np <= p.toks().len(),
        (Err(e), Err(se)) => p.err_matches(e, se),
        _ => false,
    }
}

pub open spec fn stmts_res(
    p: Parser,
    lo: int,
    r: Result<(Vec<Statement>, usize), ParseError>,
    sr: Result<(Seq<StmtView>, int), PErrView>,
) -> bool {
    match (r, sr) {
        (Ok((sts, np)), Ok((svs, sp))) => crate::ast::stmts_view(sts) == svs && np as int == sp
            && lo <= np <= p.toks().len(),
        (Err(e), Err(se)) => p.err_matches(e, se),
        _ => false,
    }
}

impl Parser {
    /// Consume an optional trailing semicolon.
    fn skip_semi_at(&self, p: usize) -> (np: usize)
        requires
            self.wf(),
            p <= self.toks().len(),
        ensures
            np as int == skip_semi(self.toks(), p as int),
            p <= np <= self.toks().len(),
    {
        if p < self.n_toks() && matches!(
            self.tok_at(p).kind,
            TokenKind::Punctuation(Punctuation::Semicolon),
        ) {
            p + 1
        } else {
            p
        }
    }

    fn parse_initializer(&self, pos: usize) -> (r: Result<(Expr, usize), ParseError>)
        requires
            self.wf(),
            pos <= self.toks().len(),
        ensures
            expr_res(*self, pos as int, r, spec_parse_initializer(self.toks(), pos as int)),
        decreases self.toks().len() - pos, 13int,
    {
        if pos < self.n_toks() {
            let t = self.tok_at(pos);
            let t_line = t.line;
            let t_column = t.column;
            if matches!(t.kind, TokenKind::Operator(Operator::Assign)) {
                self.parse_expression(pos + 1)
            } else {
                Err(self.error("expected '='", t_line, t_column))
            }
        } else {
            Err(self.error("expected '='", 0, 0))
        }
    }

    fn parse_var_decl(&self, pos: usize) -> (r: Result<(Statement, usize), ParseError>)
        requires
            self.wf(),
            pos <= self.toks().len(),
        ensures
            stmt_res(*self, pos as int, r, spec_parse_var_decl(self.toks(), pos as int)),
        decreases self.toks().len() - pos, 14int,
    {
        if !(pos < self.n_toks() && matches!(
            self.tok_at(pos).kind,
            TokenKind::Keyword(Keyword::Let),
        )) {
            if pos < self.n_toks() {
                let t = self.tok_at(pos);
                return Err(self.error("parse_var_decl: expected 'let' keyword", t.line, t.column));
            }
            return Err(self.error("parse_var_decl: expected 'let' keyword", 0, 0));
        }
        if !(pos + 1 < self.n_toks() && matches!(
            self.tok_at(pos + 1).kind,
            TokenKind::Identifier(_),
        )) {
            if pos + 1 < self.n_toks() {
                let t = self.tok_at(pos + 1);
                return Err(self.error("parse_var_decl: expected identifier", t.line, t.column));
            }
            return Err(self.error("parse_var_decl: expected identifier", 0, 0));
        }
        let name = match &self.tok_at(pos + 1).kind {
            TokenKind::Identifier(n) => clone_string(n),
            _ => {
                proof {
                    assert(false);
                }
                String::new()
            },
        };
        let tpos: usize = if pos + 2 < self.n_toks() && matches!(
            self.tok_at(pos + 2).kind,
            TokenKind::Punctuation(Punctuation::Colon),
        ) {
            pos + 3
        } else {
            pos + 2
        };
        if !(tpos < self.n_toks() && matches!(
            self.tok_at(tpos).kind,
            TokenKind::TypeIdentifier(_),
        )) {
            if tpos < self.n_toks() {
                let t = self.tok_at(tpos);
                return Err(
                    self.error("parse_var_decl: expected type identifier", t.line, t.column),
                );
            }
            return Err(self.error("parse_var_decl: expected type identifier", 0, 0));
        }
        let ty = match &self.tok_at(tpos).kind {
            TokenKind::TypeIdentifier(t) => *t,
            _ => {
                proof {
                    assert(false);
                }
                TypeIdentifier::Number
            },
        };
        match self.parse_initializer(tpos + 1) {
            Ok((init, p2)) => Ok(
                (
                    Statement::VarDecl(
                        crate::ast::VarDecl { identifier: name, var_type: ty, expr: init },
                    ),
                    p2,
                ),
            ),
            Err(e) => Err(e),
        }
    }

    fn parse_assignment(&self, pos: usize) -> (r: Result<(Statement, usize), ParseError>)
        requires
            self.wf(),
            pos <= self.toks().len(),
        ensures
            stmt_res(*self, pos as int, r, spec_parse_assignment(self.toks(), pos as int)),
        decreases self.toks().len() - pos, 14int,
    {
        if pos < self.n_toks() {
            let t = self.tok_at(pos);
            let t_line = t.line;
            let t_column = t.column;
            match &t.kind {
                TokenKind::Identifier(n) => {
                    let name = clone_string(n);
                    match self.parse_initializer(pos + 1) {
                        Ok((e, p2)) => Ok(
                            (Statement::Assignment { identifier: name, expr: e }, p2),
                        ),
                        Err(e) => Err(e),
                    }
                },
                _ => Err(self.error("parse_assignment: expected identifier", t_line, t_column)),
            }
        } else {
            Err(self.error("parse_assignment: expected identifier", 0, 0))
        }
    }

    #[verifier::rlimit(100)]
    fn parse_increment_decrement(&self, pos: usize) -> (r: Result<(Statement, usize), ParseError>)
        requires
            self.wf(),
            pos <= self.toks().len(),
        ensures
            stmt_res(
                *self,
                pos as int,
                r,
                spec_parse_increment_decrement(self.toks(), pos as int),
            ),
        decreases self.toks().len() - pos, 14int,
    {
        if !(pos < self.n_toks() && matches!(self.tok_at(pos).kind, TokenKind::Identifier(_))) {
            if pos < self.n_toks() {
                let t = self.tok_at(pos);
                return Err(
                    self.error("parse_increment_decrement: expected identifier", t.line, t.column),
                );
            }
            return Err(self.error("parse_increment_decrement: expected identifier", 0, 0));
        }
        let name = match &self.tok_at(pos).kind {
            TokenKind::Identifier(n) => clone_string(n),
            _ => {
                proof {
                    assert(false);
                }
                String::new()
            },
        };
        if pos + 1 < self.n_toks() {
            let t2 = self.tok_at(pos + 1);
            let t_line = t2.line;
            let t_column = t2.column;
            let op: Option<Operator> = match &t2.kind {
                TokenKind::Operator(Operator::Increment) => Some(Operator::Plus),
                TokenKind::Operator(Operator::Decrement) => Some(Operator::Minus),
                _ => None,
            };
            match op {
                Some(op) => {
                    let target = clone_string(&name);
                    let left = Expr::Ident(target);
                    let right = Expr::Literal(Literal::Integer(1));
                    proof {
                        assert(left@ == ExprView::Ident(name@));
                        assert(right@ == ExprView::Literal(LiteralView::Integer(1)));
                    }
                    Ok(
                        (
                            Statement::Assignment {
                                identifier: name,
                                expr: Expr::Binary {
                                    left: Box::new(left),
                                    op,
                                    right: Box::new(right),
                                },
                            },
                            pos + 2,
                        ),
                    )
                },
                None => Err(
                    self.error("parse_increment_decrement: expected '++' or '--'", t_line,
                    t_column),
                ),
            }
        } else {
            Err(self.error("parse_increment_decrement: expected '++' or '--'", 0, 0))
        }
    }

    fn parse_params(&self, pos: usize) -> (r: Result<
        (Vec<crate::ast::FunctionParameter>, usize),
        ParseError,
    >)
        requires
            self.wf(),
            pos <= self.toks().len(),
        ensures
            match (r, spec_parse_params(self.toks(), pos as int)) {
                (Ok((params, np)), Ok((paramsv, sp))) => params@.map(
                    |_i: int, q: crate::ast::FunctionParameter| crate::ast::param_view(q),
                ) == paramsv && np as int == sp && pos <= np <= self.toks().len(),
                (Err(e), Err(se)) => self.err_matches(e, se),
                _ => false,
            },
        decreases self.toks().len() - pos, 15int,
    {
        if pos >= self.n_toks() {
            let r: Vec<crate::ast::FunctionParameter> = Vec::new();
            proof {
                assert(r@.map(
                    |_i: int, q: crate::ast::FunctionParameter| crate::ast::param_view(q),
                ) =~= Seq::<crate::ast::ParamView>::empty());
            }
            return Ok((r, pos));
        }
        let t = self.tok_at(pos);
        let t_line = t.line;
        let t_column = t.column;
        if matches!(t.kind, TokenKind::Punctuation(Punctuation::CloseParen)) {
            let r: Vec<crate::ast::FunctionParameter> = Vec::new();
            proof {
                assert(r@.map(
                    |_i: int, q: crate::ast::FunctionParameter| crate::ast::param_view(q),
                ) =~= Seq::<crate::ast::ParamView>::empty());
            }
            return Ok((r, pos + 1));
        }
        let name = match &t.kind {
            TokenKind::Identifier(n) => clone_string(n),
            _ => {
                return Err(
                    self.error("parse_func_decl: unexpected token in parameter list", t_line,
                    t_column),
                );
            },
        };
        let tpos: usize = if pos + 1 < self.n_toks() && matches!(
            self.tok_at(pos + 1).kind,
            TokenKind::Punctuation(Punctuation::Colon),
        ) {
            pos + 2
        } else {
            pos + 1
        };
        if !(tpos < self.n_toks() && matches!(
            self.tok_at(tpos).kind,
            TokenKind::TypeIdentifier(_),
        )) {
            if tpos < self.n_toks() {
                let t2 = self.tok_at(tpos);
                return Err(
                    self.error("parse_func_decl: expected parameter type", t2.line, t2.column),
                );
            }
            return Err(self.error("parse_func_decl: expected parameter type", 0, 0));
        }
        let ty = match &self.tok_at(tpos).kind {
            TokenKind::TypeIdentifier(t2) => *t2,
            _ => {
                proof {
                    assert(false);
                }
                TypeIdentifier::Number
            },
        };
        let next: usize = if tpos + 1 < self.n_toks() && matches!(
            self.tok_at(tpos + 1).kind,
            TokenKind::Punctuation(Punctuation::Comma),
        ) {
            tpos + 2
        } else {
            tpos + 1
        };
        match self.parse_params(next) {
            Ok((rest, p2)) => {
                let param = crate::ast::FunctionParameter {
                    parameter_name: name,
                    parameter_type: ty,
                };
                let ghost paramv = crate::ast::param_view(param);
                let mut params = rest;
                let ghost old_vec = params;
                params.insert(0, param);
                proof {
                    assert(params@ =~= seq![params@[0]] + old_vec@);
                    let f = |_i: int, q: crate::ast::FunctionParameter| crate::ast::param_view(q);
                    let lhs = params@.map(f);
                    let rhs = seq![paramv] + old_vec@.map(f);
                    assert(lhs.len() == rhs.len());
                    assert forall|q: int| 0 <= q < lhs.len() implies lhs[q] == rhs[q] by {
                        assert(lhs[q] == f(q, params@[q]));
                        if q > 0 {
                            assert(params@[q] == old_vec@[q - 1]);
                            assert(rhs[q] == old_vec@.map(f)[q - 1]);
                            assert(old_vec@.map(f)[q - 1] == f(q - 1, old_vec@[q - 1]));
                        }
                    }
                    assert(lhs =~= rhs);
                }
                Ok((params, p2))
            },
            Err(e) => Err(e),
        }
    }

    /// The optional return type after the parameter list.
    fn parse_ret_type(&self, pos: usize) -> (r: Result<
        (Option<TypeIdentifier>, usize),
        ParseError,
    >)
        requires
            self.wf(),
            pos <= self.toks().len(),
        ensures
            match (r, spec_parse_ret_type(self.toks(), pos as int)) {
                (Ok((ret, np)), Ok((sret, sp))) => ret == sret && np as int == sp && pos <= np
                    <= self.toks().len(),
                (Err(e), Err(se)) => self.err_matches(e, se),
                _ => false,
            },
    {
        if pos < self.n_toks() && matches!(self.tok_at(pos).kind, TokenKind::TypeIdentifier(_)) {
            let ty = match &self.tok_at(pos).kind {
                TokenKind::TypeIdentifier(t) => *t,
                _ => {
                    proof {
                        assert(false);
                    }
                    TypeIdentifier::Number
                },
            };
            Ok((Some(ty), pos + 1))
        } else if pos + 1 < self.n_toks() && matches!(
            self.tok_at(pos).kind,
            TokenKind::Operator(Operator::Minus),
        ) && matches!(self.tok_at(pos + 1).kind, TokenKind::Operator(Operator::GreaterThan)) {
            if pos + 2 < self.n_toks() && matches!(
                self.tok_at(pos + 2).kind,
                TokenKind::TypeIdentifier(_),
            ) {
                let ty = match &self.tok_at(pos + 2).kind {
                    TokenKind::TypeIdentifier(t) => *t,
                    _ => {
                        proof {
                            assert(false);
                        }
                        TypeIdentifier::Number
                    },
                };
                Ok((Some(ty), pos + 3))
            } else if pos + 2 < self.n_toks() {
                let t = self.tok_at(pos + 2);
                Err(self.error("parse_func_decl: expected return type", t.line, t.column))
            } else {
                Err(self.error("parse_func_decl: expected return type", 0, 0))
            }
        } else {
            Ok((None, pos))
        }
    }

    fn parse_body(&self, pos: usize) -> (r: Result<(Vec<Statement>, usize), ParseError>)
        requires
            self.wf(),
            pos <= self.toks().len(),
        ensures
            stmts_res(*self, pos as int, r, spec_parse_body(self.toks(), pos as int)),
            r.is_ok() ==> r.unwrap().1 > pos,
        decreases self.toks().len() - pos, 22int,
    {
        if pos < self.n_toks() {
            let t = self.tok_at(pos);
            let t_line = t.line;
            let t_column = t.column;
            if matches!(t.kind, TokenKind::Punctuation(Punctuation::OpenCurly)) {
                self.parse_block_rest(pos + 1)
            } else {
                Err(self.error("parse_body: expected '{'", t_line, t_column))
            }
        } else {
            Err(self.error("parse_body: expected '{'", 0, 0))
        }
    }

    fn parse_block_rest(&self, pos: usize) -> (r: Result<(Vec<Statement>, usize), ParseError>)
        requires
            self.wf(),
            pos <= self.toks().len(),
        ensures
            stmts_res(*self, pos as int, r, spec_parse_block_rest(self.toks(), pos as int)),
        decreases self.toks().len() - pos, 21int,
    {
        if pos >= self.n_toks() {
            let r: Vec<Statement> = Vec::new();
            proof {
                crate::ast::lemma_stmts_view_from(r, 0);
                assert(crate::ast::stmts_view(r) =~= Seq::<StmtView>::empty());
            }
            return Ok((r, pos));
        }
        if matches!(self.tok_at(pos).kind, TokenKind::Punctuation(Punctuation::CloseCurly)) {
            let r: Vec<Statement> = Vec::new();
            proof {
                crate::ast::lemma_stmts_view_from(r, 0);
                assert(crate::ast::stmts_view(r) =~= Seq::<StmtView>::empty());
            }
            return Ok((r, pos + 1));
        }
        match self.parse_statement(pos) {
            Ok((st, p2)) => match self.parse_block_rest(p2) {
                Ok((rest, p3)) => {
                    let ghost stv = st@;
                    let mut stmts = rest;
                    let ghost old_vec = stmts;
                    stmts.insert(0, st);
                    proof {
                        crate::ast::lemma_stmts_view_from(stmts, 0);
                        crate::ast::lemma_stmts_view_from(old_vec, 0);
                        assert(stmts@ =~= seq![stmts@[0]] + old_vec@);
                        let lhs = crate::ast::stmts_view(stmts);
                        let rhs = seq![stv] + crate::ast::stmts_view(old_vec);
                        assert(lhs.len() == rhs.len());
                        assert forall|q: int| 0 <= q < lhs.len() implies lhs[q] == rhs[q] by {
                            assert(lhs[q] == crate::ast::stmt_view(stmts@[q]));
                            if q > 0 {
                                assert(stmts@[q] == old_vec@[q - 1]);
                                assert(rhs[q] == crate::ast::stmts_view(old_vec)[q - 1]);
                            }
                        }
                        assert(lhs =~= rhs);
                    }
                    Ok((stmts, p3))
                },
                Err(e) => Err(e),
            },
            Err(e) => Err(e),
        }
    }

    fn parse_function_declaration(&self, pos: usize) -> (r: Result<
        (crate::ast::Function, usize),
        ParseError,
    >)
        requires
            self.wf(),
            pos <= self.toks().len(),
        ensures
            match (r, spec_parse_function_declaration(self.toks(), pos as int)) {
                (Ok((f, np)), Ok((fv, sp))) => f@ == fv && np as int == sp && pos < np
                    <= self.toks().len(),
                (Err(e), Err(se)) => self.err_matches(e, se),
                _ => false,
            },
        decreases self.toks().len() - pos, 16int,
    {
        if !(pos < self.n_toks() && matches!(
            self.tok_at(pos).kind,
            TokenKind::Keyword(Keyword::Function),
        )) {
            if pos < self.n_toks() {
                let t = self.tok_at(pos);
                return Err(
                    self.error("parse_func_decl: expected 'function' keyword", t.line, t.column),
                );
            }
            return Err(self.error("parse_func_decl: expected 'function' keyword", 0, 0));
        }
        if !(pos + 1 < self.n_toks() && matches!(
            self.tok_at(pos + 1).kind,
            TokenKind::Identifier(_),
        )) {
            if pos + 1 < self.n_toks() {
                let t = self.tok_at(pos + 1);
                return Err(
                    self.error("parse_func_decl: expected function name", t.line, t.column),
                );
            }
            return Err(self.error("parse_func_decl: expected function name", 0, 0));
        }
        if !(pos + 2 < self.n_toks() && matches!(
            self.tok_at(pos + 2).kind,
            TokenKind::Punctuation(Punctuation::OpenParen),
        )) {
            if pos + 2 < self.n_toks() {
                let t = self.tok_at(pos + 2);
                return Err(self.error("parse_func_decl: expected '('", t.line, t.column));
            }
            return Err(self.error("parse_func_decl: expected '('", 0, 0));
        }
        let name = match &self.tok_at(pos + 1).kind {
            TokenKind::Identifier(n) => clone_string(n),
            _ => {
                proof {
                    assert(false);
                }
                String::new()
            },
        };
        match self.parse_params(pos + 3) {
            Ok((params, p2)) => match self.parse_ret_type(p2) {
                Ok((ret, p3)) => match self.parse_body(p3) {
                    Ok((body, p4)) => Ok(
                        (
                            crate::ast::Function {
                                signature: crate::ast::FunctionSignature {
                                    name,
                                    parameters: params,
                                    return_type: ret,
                                },
                                body: crate::ast::FunctionBody::UserDefinedBody(body),
                            },
                            p4,
                        ),
                    ),
                    Err(e) => Err(e),
                },
                Err(e) => Err(e),
            },
            Err(e) => Err(e),
        }
    }

    /// Parse one statement: keyword dispatch with a two-token lookahead to
    /// tell assignment and `++`/`--` from bare expression statements.
    #[verifier::rlimit(100)]
    fn parse_statement(&self, pos: usize) -> (r: Result<(Statement, usize), ParseError>)
        requires
            self.wf(),
            pos <= self.toks().len(),
        ensures
            stmt_res(*self, pos as int, r, spec_parse_statement(self.toks(), pos as int)),
        decreases self.toks().len() - pos, 20int,
    {
        if pos >= self.n_toks() {
            return Err(self.error("parse_statement: expected a token, found none", 0, 0));
        }
        let raw: Result<(Statement, usize), ParseError> = if matches!(
            self.tok_at(pos).kind,
            TokenKind::Keyword(Keyword::If),
        ) {
            match self.parse_expression(pos + 1) {
                Ok((cond, p2)) => match self.parse_body(p2) {
                    Ok((then_b, p3)) => {
                        if p3 < self.n_toks() && matches!(
                            self.tok_at(p3).kind,
                            TokenKind::Keyword(Keyword::Else),
                        ) {
                            match self.parse_body(p3 + 1) {
                                Ok((else_b, p4)) => Ok(
                                    (
                                        Statement::If {
                                            condition: cond,
                                            then_branch: then_b,
                                            else_branch: Some(else_b),
                                        },
                                        p4,
                                    ),
                                ),
                                Err(e) => Err(e),
                            }
                        } else {
                            Ok(
                                (
                                    Statement::If {
                                        condition: cond,
                                        then_branch: then_b,
                                        else_branch: None,
                                    },
                                    p3,
                                ),
                            )
                        }
                    },
                    Err(e) => Err(e),
                },
                Err(e) => Err(e),
            }
        } else if matches!(self.tok_at(pos).kind, TokenKind::Keyword(Keyword::Function)) {
            match self.parse_function_declaration(pos) {
                Ok((f, p2)) => Ok((Statement::FunctionDeclaration(f), p2)),
                Err(e) => Err(e),
            }
        } else if matches!(self.tok_at(pos).kind, TokenKind::Keyword(Keyword::Let)) {
            self.parse_var_decl(pos)
        } else if matches!(self.tok_at(pos).kind, TokenKind::Keyword(Keyword::Return)) {
            if pos + 1 < self.n_toks() {
                if matches!(
                    self.tok_at(pos + 1).kind,
                    TokenKind::Punctuation(Punctuation::Semicolon),
                ) || matches!(
                    self.tok_at(pos + 1).kind,
                    TokenKind::Punctuation(Punctuation::CloseCurly),
                ) {
                    Ok((Statement::Return(None), pos + 1))
                } else {
                    match self.parse_expression(pos + 1) {
                        Ok((e, p2)) => Ok((Statement::Return(Some(e)), p2)),
                        Err(e) => Err(e),
                    }
                }
            } else {
                Ok((Statement::Return(None), pos + 1))
            }
        } else if matches!(self.tok_at(pos).kind, TokenKind::Keyword(Keyword::For)) {
            match self.parse_expression(pos + 1) {
                Ok((cond, p2)) => match self.parse_body(p2) {
                    Ok((_body, p3)) => {
                        let ghost condv = cond@;
                        let mut args: Vec<Expr> = Vec::new();
                        args.push(cond);
                        proof {
                            crate::ast::lemma_exprs_view_from(args, 0);
                            assert(crate::ast::exprs_view(args) =~= seq![condv]);
                        }
                        let callee = Expr::Ident(String::from_str("while"));
                        proof {
                            assert(callee@ == ExprView::Ident("while"@));
                        }
                        Ok(
                            (
                                Statement::Expr(Expr::Call { callee: Box::new(callee), args }),
                                p3,
                            ),
                        )
                    },
                    Err(e) => Err(e),
                },
                Err(e) => Err(e),
            }
        } else if matches!(self.tok_at(pos).kind, TokenKind::Identifier(_)) {
            if pos + 1 < self.n_toks() && matches!(
                self.tok_at(pos + 1).kind,
                TokenKind::Operator(Operator::Assign),
            ) {
                self.parse_assignment(pos)
            } else if pos + 1 < self.n_toks() && (matches!(
                self.tok_at(pos + 1).kind,
                TokenKind::Operator(Operator::Increment),
            ) || matches!(
                self.tok_at(pos + 1).kind,
                TokenKind::Operator(Operator::Decrement),
            )) {
                self.parse_increment_decrement(pos)
            } else {
                match self.parse_expression(pos) {
                    Ok((e, p2)) => Ok((Statement::Expr(e), p2)),
                    Err(e) => Err(e),
                }
            }
        } else {
            match self.parse_expression(pos) {
                Ok((e, p2)) => Ok((Statement::Expr(e), p2)),
                Err(e) => Err(e),
            }
        };
        match raw {
            Ok((sv, p)) => Ok((sv, self.skip_semi_at(p))),
            Err(e) => Err(e),
        }
    }

    fn parse_program_rest(&self, pos: usize) -> (r: Result<(Vec<Statement>, usize), ParseError>)
        requires
            self.wf(),
            pos <= self.toks().len(),
        ensures
            stmts_res(*self, pos as int, r, spec_parse_program_rest(self.toks(), pos as int)),
        decreases self.toks().len() - pos, 23int,
    {
        if pos >= self.n_toks() {
            let r: Vec<Statement> = Vec::new();
            proof {
                crate::ast::lemma_stmts_view_from(r, 0);
                assert(crate::ast::stmts_view(r) =~= Seq::<StmtView>::empty());
            }
            return Ok((r, pos));
        }
        match self.parse_statement(pos) {
            Ok((st, p2)) => match self.parse_program_rest(p2) {
                Ok((rest, p3)) => {
                    let ghost stv = st@;
                    let mut stmts = rest;
                    let ghost old_vec = stmts;
                    stmts.insert(0, st);
                    proof {
                        crate::ast::lemma_stmts_view_from(stmts, 0);
                        crate::ast::lemma_stmts_view_from(old_vec, 0);
                        assert(stmts@ =~= seq![stmts@[0]] + old_vec@);
                        let lhs = crate::ast::stmts_view(stmts);
                        let rhs = seq![stv] + crate::ast::stmts_view(old_vec);
                        assert(lhs.len() == rhs.len());
                        assert forall|q: int| 0 <= q < lhs.len() implies lhs[q] == rhs[q] by {
                            assert(lhs[q] == crate::ast::stmt_view(stmts@[q]));
                            if q > 0 {
                                assert(stmts@[q] == old_vec@[q - 1]);
                                assert(rhs[q] == crate::ast::stmts_view(old_vec)[q - 1]);
                            }
                        }
                        assert(lhs =~= rhs);
                    }
                    Ok((stmts, p3))
                },
                Err(e) => Err(e),
            },
            Err(e) => Err(e),
        }
    }

    /// Parse the whole token stream into a program, or halt at the first
    /// positioned error.
    pub fn parse_program(&mut self) -> (r: Result<crate::ast::Ast, ParseError>)
        requires
            old(self).wf(),
        ensures
            *final(self) == *old(self),
            match (r, spec_parse_program(old(self).toks())) {
                (Ok(ast), Ok(stmtsv)) => ast@.statements == stmtsv,
                (Err(e), Err(se)) => old(self).err_matches(e, se),
                _ => false,
            },
    {
        match self.parse_program_rest(0) {
            Ok((statements, _p)) => Ok(crate::ast::Ast { statements }),
            Err(e) => Err(e),
        }
    }
}

} // verus!
