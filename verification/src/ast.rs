use vstd::prelude::*;
use crate::token::{Literal, LiteralView, Operator, TypeIdentifier};
use crate::text::clone_string;

verus! {

broadcast use vstd::seq::axiom_seq_index_decreases, vstd::std_specs::vec::axiom_vec_index_decreases;

// ---------------------------------------------------------------------------
// The abstract syntax tree
// ---------------------------------------------------------------------------

/// An expression of the language.
#[derive(Debug, PartialEq)]
pub enum Expr {
    Binary { left: Box<Expr>, op: Operator, right: Box<Expr> },
    Unary { op: Operator, expr: Box<Expr> },
    Literal(Literal),
    Ident(String),
    Grouping(Box<Expr>),
    Call { callee: Box<Expr>, args: Vec<Expr> },
}

/// A variable declaration: `let name: type = expr`.
#[derive(Debug, PartialEq)]
pub struct VarDecl {
    pub identifier: String,
    pub var_type: TypeIdentifier,
    pub expr: Expr,
}

/// One typed parameter of a function signature.
#[derive(Debug, PartialEq)]
pub struct FunctionParameter {
    pub parameter_name: String,
    pub parameter_type: TypeIdentifier,
}

/// A function's name, ordered parameters and optional return type.
#[derive(Debug, PartialEq)]
pub struct FunctionSignature {
    pub name: String,
    pub parameters: Vec<FunctionParameter>,
    pub return_type: Option<TypeIdentifier>,
}

/// The fixed set of host-provided routines the language offers.
#[derive(Debug, Clone, Copy, PartialEq, Eq, Structural)]
pub enum NativeFn {
    PrintInt,
    PrintLn,
    ReadInt,
    ReadChar,
}

/// A function body: interpreted statements, or one of the builtin routines.
#[derive(Debug, PartialEq)]
pub enum FunctionBody {
    UserDefinedBody(Vec<Statement>),
    NativeBody(NativeFn),
}

/// A callable function: its signature and its body.
#[derive(Debug, PartialEq)]
pub struct Function {
    pub signature: FunctionSignature,
    pub body: FunctionBody,
}

/// A statement of the language.
#[derive(Debug, PartialEq)]
pub enum Statement {
    VarDecl(VarDecl),
    Assignment { identifier: String, expr: Expr },
    Expr(Expr),
    FunctionDeclaration(Function),
    Return(Option<Expr>),
    If { condition: Expr, then_branch: Vec<Statement>, else_branch: Option<Vec<Statement>> },
}

/// The parsed program: an ordered sequence of statements.
#[derive(Debug, PartialEq)]
pub struct Ast {
    pub statements: Vec<Statement>,
}

impl Ast {
    pub fn new() -> (a: Self)
        ensures
            a.statements@.len() == 0,
    {
        Self { statements: Vec::new() }
    }

    pub fn get_stmts(&self) -> (r: &Vec<Statement>)
        ensures
            *r == self.statements,
    {
        &self.statements
    }
}

impl VarDecl {
    pub fn new(identifier: String, var_type: TypeIdentifier, expr: Expr) -> (d: Self)
        ensures
            d.identifier == identifier,
            d.var_type == var_type,
            d.expr == expr,
    {
        Self { identifier, var_type, expr }
    }
}

// ---------------------------------------------------------------------------
// Mathematical mirrors: strings become character sequences, vectors become
// sequences.  Contracts throughout the crate speak of these views.
// ---------------------------------------------------------------------------

pub enum ExprView {
    Binary { left: Box<ExprView>, op: Operator, right: Box<ExprView> },
    Unary { op: Operator, expr: Box<ExprView> },
    Literal(LiteralView),
    Ident(Seq<char>),
    Grouping(Box<ExprView>),
    Call { callee: Box<ExprView>, args: Seq<ExprView> },
}

pub struct ParamView {
    pub name: Seq<char>,
    pub ty: TypeIdentifier,
}

pub struct SignatureView {
    pub name: Seq<char>,
    pub params: Seq<ParamView>,
    pub return_type: Option<TypeIdentifier>,
}

pub enum BodyView {
    User(Seq<StmtView>),
    Native(NativeFn),
}

pub struct FunctionView {
    pub signature: SignatureView,
    pub body: BodyView,
}

pub enum StmtView {
    VarDecl { name: Seq<char>, ty: TypeIdentifier, init: ExprView },
    Assignment { name: Seq<char>, expr: ExprView },
    Expr(ExprView),
    FunctionDeclaration(FunctionView),
    Return(Option<ExprView>),
    If { condition: ExprView, then_branch: Seq<StmtView>, else_branch: Option<Seq<StmtView>> },
}

pub struct AstView {
    pub statements: Seq<StmtView>,
}

pub open spec fn expr_view(e: Expr) -> ExprView
    decreases e, 0int,
{
    match e {
        Expr::Binary { left, op, right } => ExprView::Binary {
            left: Box::new(expr_view(*left)),
            op,
            right: Box::new(expr_view(*right)),
        },
        Expr::Unary { op, expr } => ExprView::Unary { op, expr: Box::new(expr_view(*expr)) },
        Expr::Literal(l) => ExprView::Literal(l@),
        Expr::Ident(s) => ExprView::Ident(s@),
        Expr::Grouping(inner) => ExprView::Grouping(Box::new(expr_view(*inner))),
        Expr::Call { callee, args } => ExprView::Call {
            callee: Box::new(expr_view(*callee)),
            args: exprs_view_from(args, 0),
        },
    }
}

pub open spec fn exprs_view_from(args: Vec<Expr>, i: int) -> Seq<ExprView>
    decreases args, args@.len() - i,
{
    if 0 <= i < args@.len() {
        seq![expr_view(args@[i])] + exprs_view_from(args, i + 1)
    } else {
        Seq::empty()
    }
}

/// The views of a whole expression vector.
pub open spec fn exprs_view(args: Vec<Expr>) -> Seq<ExprView> {
    exprs_view_from(args, 0)
}

pub open spec fn param_view(p: FunctionParameter) -> ParamView {
    ParamView { name: p.parameter_name@, ty: p.parameter_type }
}

pub open spec fn signature_view(sig: FunctionSignature) -> SignatureView {
    SignatureView {
        name: sig.name@,
        params: sig.parameters@.map(|_i: int, p: FunctionParameter| param_view(p)),
        return_type: sig.return_type,
    }
}

pub open spec fn function_view(f: Function) -> FunctionView
    decreases f, 0int,
{
    FunctionView { signature: signature_view(f.signature), body: body_view(f.body) }
}

pub open spec fn body_view(b: FunctionBody) -> BodyView
    decreases b, 1int,
{
    match b {
        FunctionBody::UserDefinedBody(stmts) => BodyView::User(stmts_view_from(stmts, 0)),
        FunctionBody::NativeBody(n) => BodyView::Native(n),
    }
}

pub open spec fn stmt_view(s: Statement) -> StmtView
    decreases s, 2int,
{
    match s {
        Statement::VarDecl(d) => StmtView::VarDecl {
            name: d.identifier@,
            ty: d.var_type,
            init: expr_view(d.expr),
        },
        Statement::Assignment { identifier, expr } => StmtView::Assignment {
            name: identifier@,
            expr: expr_view(expr),
        },
        Statement::Expr(e) => StmtView::Expr(expr_view(e)),
        Statement::FunctionDeclaration(f) => StmtView::FunctionDeclaration(function_view(f)),
        Statement::Return(oe) => StmtView::Return(
            match oe {
                Some(e) => Some(expr_view(e)),
                None => None,
            },
        ),
        Statement::If { condition, then_branch, else_branch } => StmtView::If {
            condition: expr_view(condition),
            then_branch: stmts_view_from(then_branch, 0),
            else_branch: match else_branch {
                Some(els) => Some(stmts_view_from(els, 0)),
                None => None,
            },
        },
    }
}

pub open spec fn stmts_view_from(stmts: Vec<Statement>, i: int) -> Seq<StmtView>
    decreases stmts, stmts@.len() - i + 3,
{
    if 0 <= i < stmts@.len() {
        seq![stmt_view(stmts@[i])] + stmts_view_from(stmts, i + 1)
    } else {
        Seq::empty()
    }
}

/// The views of a whole statement vector.
pub open spec fn stmts_view(stmts: Vec<Statement>) -> Seq<StmtView> {
    stmts_view_from(stmts, 0)
}

impl View for Expr {
    type V = ExprView;

    open spec fn view(&self) -> ExprView {
        expr_view(*self)
    }
}

impl View for Statement {
    type V = StmtView;

    open spec fn view(&self) -> StmtView {
        stmt_view(*self)
    }
}

impl View for Function {
    type V = FunctionView;

    open spec fn view(&self) -> FunctionView {
        function_view(*self)
    }
}

impl View for FunctionSignature {
    type V = SignatureView;

    open spec fn view(&self) -> SignatureView {
        signature_view(*self)
    }
}

impl View for Ast {
    type V = AstView;

    open spec fn view(&self) -> AstView {
        AstView { statements: stmts_view_from(self.statements, 0) }
    }
}

// ---------------------------------------------------------------------------
// Length and indexing facts about the sequence views
// ---------------------------------------------------------------------------

pub proof fn lemma_exprs_view_from(args: Vec<Expr>, i: int)
    requires
        0 <= i <= args@.len(),
    ensures
        exprs_view_from(args, i).len() == args@.len() - i,
        forall|j: int|
            i <= j < args@.len() ==> exprs_view_from(args, i)[j - i] == expr_view(args@[j]),
    decreases args@.len() - i,
{
    if i < args@.len() {
        lemma_exprs_view_from(args, i + 1);
    }
}

pub proof fn lemma_stmts_view_from(stmts: Vec<Statement>, i: int)
    requires
        0 <= i <= stmts@.len(),
    ensures
        stmts_view_from(stmts, i).len() == stmts@.len() - i,
        forall|j: int|
            i <= j < stmts@.len() ==> stmts_view_from(stmts, i)[j - i] == stmt_view(stmts@[j]),
    decreases stmts@.len() - i,
{
    if i < stmts@.len() {
        lemma_stmts_view_from(stmts, i + 1);
    }
}

// ---------------------------------------------------------------------------
// Structural depth, the measure recursion over the tree is checked against
// ---------------------------------------------------------------------------

pub open spec fn depth_expr(e: ExprView) -> nat
    decreases e, 0int,
{
    match e {
        ExprView::Binary { left, op, right } => 1 + depth_expr(*left) + depth_expr(*right),
        ExprView::Unary { op, expr } => 1 + depth_expr(*expr),
        ExprView::Literal(_) => 1,
        ExprView::Ident(_) => 1,
        ExprView::Grouping(inner) => 1 + depth_expr(*inner),
        ExprView::Call { callee, args } => 1 + depth_expr(*callee) + depth_exprs(args),
    }
}

pub open spec fn depth_exprs(args: Seq<ExprView>) -> nat
    decreases args, 1int,
{
    if args.len() == 0 {
        0
    } else {
        1 + depth_expr(args[0]) + depth_exprs(args.skip(1))
    }
}

pub open spec fn depth_stmt(s: StmtView) -> nat
    decreases s, 0int,
{
    match s {
        StmtView::VarDecl { name, ty, init } => 1 + depth_expr(init),
        StmtView::Assignment { name, expr } => 1 + depth_expr(expr),
        StmtView::Expr(e) => 1 + depth_expr(e),
        StmtView::FunctionDeclaration(f) => 1 + depth_function(f),
        StmtView::Return(oe) => match oe {
            Some(e) => 1 + depth_expr(e),
            None => 1,
        },
        StmtView::If { condition, then_branch, else_branch } => {
            1 + depth_expr(condition) + depth_stmts(then_branch) + (match else_branch {
                Some(els) => depth_stmts(els),
                None => 0,
            })
        },
    }
}

pub open spec fn depth_stmts(stmts: Seq<StmtView>) -> nat
    decreases stmts, 1int,
{
    if stmts.len() == 0 {
        0
    } else {
        1 + depth_stmt(stmts[0]) + depth_stmts(stmts.skip(1))
    }
}

pub open spec fn depth_function(f: FunctionView) -> nat
    decreases f, 2int,
{
    match f.body {
        BodyView::User(stmts) => 2 + depth_stmts(stmts),
        BodyView::Native(_) => 1,
    }
}

/// Each element of a sequence sits strictly below the whole.
pub proof fn lemma_depth_stmts_element(stmts: Seq<StmtView>, i: int)
    requires
        0 <= i < stmts.len(),
    ensures
        depth_stmt(stmts[i]) < depth_stmts(stmts),
    decreases stmts.len(),
{
    if i > 0 {
        lemma_depth_stmts_element(stmts.skip(1), i - 1);
        assert(stmts.skip(1)[i - 1] == stmts[i]);
    }
}

/// Each argument of a call sits strictly below the argument list.
pub proof fn lemma_depth_exprs_element(args: Seq<ExprView>, i: int)
    requires
        0 <= i < args.len(),
    ensures
        depth_expr(args[i]) < depth_exprs(args),
    decreases args.len(),
{
    if i > 0 {
        lemma_depth_exprs_element(args.skip(1), i - 1);
        assert(args.skip(1)[i - 1] == args[i]);
    }
}

// ---------------------------------------------------------------------------
// Deep clones, with their views pinned
// ---------------------------------------------------------------------------

pub fn clone_literal(l: &Literal) -> (r: Literal)
    ensures
        r@ == l@,
{
    match l {
        Literal::Integer(n) => Literal::Integer(*n),
        Literal::Float(s) => Literal::Float(clone_string(s)),
        Literal::Boolean(b) => Literal::Boolean(*b),
        Literal::Character(c) => Literal::Character(*c),
    }
}

pub fn clone_expr(e: &Expr) -> (r: Expr)
    ensures
        r@ == e@,
    decreases *e, 0int,
{
    match e {
        Expr::Binary { left, op, right } => Expr::Binary {
            left: Box::new(clone_expr(left)),
            op: *op,
            right: Box::new(clone_expr(right)),
        },
        Expr::Unary { op, expr } => Expr::Unary { op: *op, expr: Box::new(clone_expr(expr)) },
        Expr::Literal(l) => Expr::Literal(clone_literal(l)),
        Expr::Ident(s) => Expr::Ident(clone_string(s)),
        Expr::Grouping(inner) => Expr::Grouping(Box::new(clone_expr(inner))),
        Expr::Call { callee, args } => {
            let cloned_callee = Box::new(clone_expr(callee));
            let cloned_args = clone_exprs(args);
            Expr::Call { callee: cloned_callee, args: cloned_args }
        },
    }
}

/// Clone an argument vector.
fn clone_exprs(args: &Vec<Expr>) -> (r: Vec<Expr>)
    ensures
        exprs_view(r) == exprs_view(*args),
    decreases *args, 5int,
{
    let mut out: Vec<Expr> = Vec::new();
    let mut i: usize = 0;
    proof {
        lemma_exprs_view_from(*args, 0);
    }
    while i < args.len()
        invariant
            i <= args@.len(),
            exprs_view(out) == exprs_view(*args).take(i as int),
        decreases args@.len() - i,
    {
        let ghost prev = out;
        let c = clone_expr(&args[i]);
        out.push(c);
        i = i + 1;
        proof {
            let k = i as int;
            lemma_exprs_view_from(*args, 0);
            lemma_exprs_view_from(prev, 0);
            lemma_exprs_view_from(out, 0);
            assert(out@ == prev@.push(c));
            assert forall|j: int| 0 <= j < k implies exprs_view(out)[j] == exprs_view(*args).take(
                k,
            )[j] by {
                if j < k - 1 {
                    assert(exprs_view(prev)[j] == expr_view(prev@[j]));
                    assert(exprs_view(prev)[j] == exprs_view(*args).take(k - 1)[j]);
                } else {
                    assert(out@[j] == c);
                }
                assert(exprs_view(out)[j] == expr_view(out@[j]));
            }
            assert(exprs_view(out) =~= exprs_view(*args).take(k));
        }
    }
    proof {
        assert(exprs_view(*args).take(args@.len() as int) =~= exprs_view(*args));
    }
    out
}

pub fn clone_signature(sig: &FunctionSignature) -> (r: FunctionSignature)
    ensures
        r@ == sig@,
{
    let mut params: Vec<FunctionParameter> = Vec::new();
    let mut i: usize = 0;
    while i < sig.parameters.len()
        invariant
            i <= sig.parameters@.len(),
            params@.len() == i,
            forall|j: int| 0 <= j < i ==> param_view(params@[j]) == param_view(
                sig.parameters@[j],
            ),
        decreases sig.parameters@.len() - i,
    {
        let p = &sig.parameters[i];
        params.push(
            FunctionParameter {
                parameter_name: clone_string(&p.parameter_name),
                parameter_type: p.parameter_type,
            },
        );
        i = i + 1;
    }
    let r = FunctionSignature {
        name: clone_string(&sig.name),
        parameters: params,
        return_type: sig.return_type,
    };
    proof {
        assert(r@.params =~= sig@.params);
    }
    r
}

pub fn clone_function(f: &Function) -> (r: Function)
    ensures
        r@ == f@,
    decreases *f, 2int,
{
    Function { signature: clone_signature(&f.signature), body: clone_body(&f.body) }
}

fn clone_body(b: &FunctionBody) -> (r: FunctionBody)
    ensures
        body_view(r) == body_view(*b),
    decreases *b, 1int,
{
    match b {
        FunctionBody::UserDefinedBody(stmts) => FunctionBody::UserDefinedBody(clone_stmts(stmts)),
        FunctionBody::NativeBody(n) => FunctionBody::NativeBody(*n),
    }
}

pub fn clone_statement(s: &Statement) -> (r: Statement)
    ensures
        r@ == s@,
    decreases *s, 4int,
{
    match s {
        Statement::VarDecl(d) => Statement::VarDecl(
            VarDecl {
                identifier: clone_string(&d.identifier),
                var_type: d.var_type,
                expr: clone_expr(&d.expr),
            },
        ),
        Statement::Assignment { identifier, expr } => Statement::Assignment {
            identifier: clone_string(identifier),
            expr: clone_expr(expr),
        },
        Statement::Expr(e) => Statement::Expr(clone_expr(e)),
        Statement::FunctionDeclaration(f) => Statement::FunctionDeclaration(clone_function(f)),
        Statement::Return(oe) => Statement::Return(
            match oe {
                Some(e) => Some(clone_expr(e)),
                None => None,
            },
        ),
        Statement::If { condition, then_branch, else_branch } => Statement::If {
            condition: clone_expr(condition),
            then_branch: clone_stmts(then_branch),
            else_branch: match else_branch {
                Some(els) => Some(clone_stmts(els)),
                None => None,
            },
        },
    }
}

/// Clone a statement block.
pub fn clone_stmts(stmts: &Vec<Statement>) -> (r: Vec<Statement>)
    ensures
        stmts_view(r) == stmts_view(*stmts),
    decreases *stmts, 5int,
{
    let mut out: Vec<Statement> = Vec::new();
    let mut i: usize = 0;
    proof {
        lemma_stmts_view_from(*stmts, 0);
    }
    while i < stmts.len()
        invariant
            i <= stmts@.len(),
            stmts_view(out) == stmts_view(*stmts).take(i as int),
        decreases stmts@.len() - i,
    {
        let ghost prev = out;
        let c = clone_statement(&stmts[i]);
        out.push(c);
        i = i + 1;
        proof {
            let k = i as int;
            lemma_stmts_view_from(*stmts, 0);
            lemma_stmts_view_from(prev, 0);
            lemma_stmts_view_from(out, 0);
            assert(out@ == prev@.push(c));
            assert forall|j: int| 0 <= j < k implies stmts_view(out)[j] == stmts_view(*stmts).take(
                k,
            )[j] by {
                if j < k - 1 {
                    assert(stmts_view(prev)[j] == stmt_view(prev@[j]));
                    assert(stmts_view(prev)[j] == stmts_view(*stmts).take(k - 1)[j]);
                } else {
                    assert(out@[j] == c);
                }
                assert(stmts_view(out)[j] == stmt_view(out@[j]));
            }
            assert(stmts_view(out) =~= stmts_view(*stmts).take(k));
        }
    }
    proof {
        assert(stmts_view(*stmts).take(stmts@.len() as int) =~= stmts_view(*stmts));
    }
    out
}

/// Clone a whole program.
pub fn clone_ast(a: &Ast) -> (r: Ast)
    ensures
        r@ == a@,
{
    let statements = clone_stmts(&a.statements);
    Ast { statements }
}

} // verus!
