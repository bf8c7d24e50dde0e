use vstd::prelude::*;
use crate::ast::{clone_signature, signature_view, Ast, BodyView, Expr, ExprView, Function, FunctionSignature,
    FunctionView, ParamView, SignatureView, Statement, StmtView};
use crate::builtins::{builtin_function_views, load_std_functions};
use crate::text::clone_string;
use crate::token::{Literal, LiteralView, Operator, TypeIdentifier};

verus! {

broadcast use vstd::seq::axiom_seq_index_decreases, vstd::std_specs::vec::axiom_vec_index_decreases;

/// A static type violation.  Checking is advisory: every violation is
/// reported and checking continues past it.
#[derive(Debug, PartialEq)]
pub enum TypeErrorKind {
    IfConditionNotBoolean,
    DeclMismatch { name: String, declared: TypeIdentifier, found: TypeIdentifier },
    AssignMismatch { name: String, declared: TypeIdentifier, found: TypeIdentifier },
    AssignUndeclared { name: String },
    OperandsDiffer,
    ArithmeticNeedsNumbers,
    ComparisonNeedsNumbers,
    LogicalNeedsBooleans,
    UnsupportedBinaryOperator,
    UnsupportedUnaryOperator,
    UndeclaredVariable { name: String },
    UnknownFunction { name: String },
    CallArityMismatch { name: String, expected: usize, got: usize },
    CallArgMismatch { name: String, index: usize, expected: TypeIdentifier, found: TypeIdentifier },
    ReturnTypeMismatch { name: String, declared: TypeIdentifier, found: TypeIdentifier },
    MissingReturn { name: String },
    CalleeNotIdentifier,
    UnsupportedLiteral,
}

/// The mathematical mirror of `TypeErrorKind`.
pub enum TcErr {
    IfConditionNotBoolean,
    DeclMismatch { name: Seq<char>, declared: TypeIdentifier, found: TypeIdentifier },
    AssignMismatch { name: Seq<char>, declared: TypeIdentifier, found: TypeIdentifier },
    AssignUndeclared { name: Seq<char> },
    OperandsDiffer,
    ArithmeticNeedsNumbers,
    ComparisonNeedsNumbers,
    LogicalNeedsBooleans,
    UnsupportedBinaryOperator,
    UnsupportedUnaryOperator,
    UndeclaredVariable { name: Seq<char> },
    UnknownFunction { name: Seq<char> },
    CallArityMismatch { name: Seq<char>, expected: usize, got: usize },
    CallArgMismatch {
        name: Seq<char>,
        index: usize,
        expected: TypeIdentifier,
        found: TypeIdentifier,
    },
    ReturnTypeMismatch { name: Seq<char>, declared: TypeIdentifier, found: TypeIdentifier },
    MissingReturn { name: Seq<char> },
    CalleeNotIdentifier,
    UnsupportedLiteral,
}

pub open spec fn tc_err_view(e: TypeErrorKind) -> TcErr {
    match e {
        TypeErrorKind::IfConditionNotBoolean => TcErr::IfConditionNotBoolean,
        TypeErrorKind::DeclMismatch { name, declared, found } => TcErr::DeclMismatch {
            name: name@,
            declared,
            found,
        },
        TypeErrorKind::AssignMismatch { name, declared, found } => TcErr::AssignMismatch {
            name: name@,
            declared,
            found,
        },
        TypeErrorKind::AssignUndeclared { name } => TcErr::AssignUndeclared { name: name@ },
        TypeErrorKind::OperandsDiffer => TcErr::OperandsDiffer,
        TypeErrorKind::ArithmeticNeedsNumbers => TcErr::ArithmeticNeedsNumbers,
        TypeErrorKind::ComparisonNeedsNumbers => TcErr::ComparisonNeedsNumbers,
        TypeErrorKind::LogicalNeedsBooleans => TcErr::LogicalNeedsBooleans,
        TypeErrorKind::UnsupportedBinaryOperator => TcErr::UnsupportedBinaryOperator,
        TypeErrorKind::UnsupportedUnaryOperator => TcErr::UnsupportedUnaryOperator,
        TypeErrorKind::UndeclaredVariable { name } => TcErr::UndeclaredVariable { name: name@ },
        TypeErrorKind::UnknownFunction { name } => TcErr::UnknownFunction { name: name@ },
        TypeErrorKind::CallArityMismatch { name, expected, got } => TcErr::CallArityMismatch {
            name: name@,
            expected,
            got,
        },
        TypeErrorKind::CallArgMismatch { name, index, expected, found } => TcErr::CallArgMismatch {
            name: name@,
            index,
            expected,
            found,
        },
        TypeErrorKind::ReturnTypeMismatch { name, declared, found } => TcErr::ReturnTypeMismatch {
            name: name@,
            declared,
            found,
        },
        TypeErrorKind::MissingReturn { name } => TcErr::MissingReturn { name: name@ },
        TypeErrorKind::CalleeNotIdentifier => TcErr::CalleeNotIdentifier,
        TypeErrorKind::UnsupportedLiteral => TcErr::UnsupportedLiteral,
    }
}

/// One reported violation.
#[derive(Debug, PartialEq)]
pub struct TypeCheckerError {
    pub kind: TypeErrorKind,
}

/// The text `TypeCheckerError::message` renders for each violation.
pub open spec fn spec_tc_message(e: TcErr) -> Seq<char> {
    "type error: "@ + (match e {
        TcErr::IfConditionNotBoolean => "if condition has to be boolean"@,
        TcErr::DeclMismatch { .. } => "type mismatch in variable declaration"@,
        TcErr::AssignMismatch { .. } => "type mismatch in assignment"@,
        TcErr::AssignUndeclared { .. } => "assignment to undeclared variable"@,
        TcErr::OperandsDiffer => "left and right types are not the same"@,
        TcErr::ArithmeticNeedsNumbers => "arithmetic operators require number types"@,
        TcErr::ComparisonNeedsNumbers => "comparison operators require number types"@,
        TcErr::LogicalNeedsBooleans => "logical operators require boolean types"@,
        TcErr::UnsupportedBinaryOperator => "unsupported operator in binary expression"@,
        TcErr::UnsupportedUnaryOperator => "unsupported operator in unary expression"@,
        TcErr::UndeclaredVariable { .. } => "use of undeclared variable"@,
        TcErr::UnknownFunction { .. } => "call to undefined function"@,
        TcErr::CallArityMismatch { .. } => "wrong number of arguments in call"@,
        TcErr::CallArgMismatch { .. } => "type mismatch in call argument"@,
        TcErr::ReturnTypeMismatch { .. } => "return type does not match declaration"@,
        TcErr::MissingReturn { .. } => "missing return statement"@,
        TcErr::CalleeNotIdentifier => "only identifier function calls are supported"@,
        TcErr::UnsupportedLiteral => "unsupported literal"@,
    })
}

impl TypeCheckerError {
    /// A human-readable description of the violation.
    pub fn message(&self) -> (r: String)
        ensures
            r@ == spec_tc_message(tc_err_view(self.kind)),
    {
        let tail: &str = match &self.kind {
            TypeErrorKind::IfConditionNotBoolean => "if condition has to be boolean",
            TypeErrorKind::DeclMismatch { .. } => "type mismatch in variable declaration",
            TypeErrorKind::AssignMismatch { .. } => "type mismatch in assignment",
            TypeErrorKind::AssignUndeclared { .. } => "assignment to undeclared variable",
            TypeErrorKind::OperandsDiffer => "left and right types are not the same",
            TypeErrorKind::ArithmeticNeedsNumbers => "arithmetic operators require number types",
            TypeErrorKind::ComparisonNeedsNumbers => "comparison operators require number types",
            TypeErrorKind::LogicalNeedsBooleans => "logical operators require boolean types",
            TypeErrorKind::UnsupportedBinaryOperator => "unsupported operator in binary expression",
            TypeErrorKind::UnsupportedUnaryOperator => "unsupported operator in unary expression",
            TypeErrorKind::UndeclaredVariable { .. } => "use of undeclared variable",
            TypeErrorKind::UnknownFunction { .. } => "call to undefined function",
            TypeErrorKind::CallArityMismatch { .. } => "wrong number of arguments in call",
            TypeErrorKind::CallArgMismatch { .. } => "type mismatch in call argument",
            TypeErrorKind::ReturnTypeMismatch { .. } => "return type does not match declaration",
            TypeErrorKind::MissingReturn { .. } => "missing return statement",
            TypeErrorKind::CalleeNotIdentifier => "only identifier function calls are supported",
            TypeErrorKind::UnsupportedLiteral => "unsupported literal",
        };
        String::from_str("type error: ").concat(tail)
    }
}

// ---------------------------------------------------------------------------
// The typing rules
// ---------------------------------------------------------------------------

/// The declared type of a variable; the most recent declaration wins.
pub open spec fn lookup_tenv(env: Seq<(Seq<char>, TypeIdentifier)>, name: Seq<char>) -> Option<
    TypeIdentifier,
>
    decreases env.len(),
{
    if env.len() == 0 {
        None
    } else if env.last().0 == name {
        Some(env.last().1)
    } else {
        lookup_tenv(env.drop_last(), name)
    }
}

/// The registered signature under a name; the most recent wins.
pub open spec fn lookup_fenv(env: Seq<(Seq<char>, SignatureView)>, name: Seq<char>) -> Option<
    SignatureView,
>
    decreases env.len(),
{
    if env.len() == 0 {
        None
    } else if env.last().0 == name {
        Some(env.last().1)
    } else {
        lookup_fenv(env.drop_last(), name)
    }
}

/// What type an expression checks to, if any.
pub open spec fn spec_check_expr(
    venv: Seq<(Seq<char>, TypeIdentifier)>,
    fenv: Seq<(Seq<char>, SignatureView)>,
    e: ExprView,
) -> Result<TypeIdentifier, TcErr>
    decreases e, 0int,
{
    match e {
        ExprView::Literal(lv) => match lv {
            LiteralView::Integer(_) => Ok(TypeIdentifier::Number),
            LiteralView::Boolean(_) => Ok(TypeIdentifier::Boolean),
            LiteralView::Character(_) => Ok(TypeIdentifier::Char),
            LiteralView::Float(_) => Err(TcErr::UnsupportedLiteral),
        },
        ExprView::Ident(name) => match lookup_tenv(venv, name) {
            Some(t) => Ok(t),
            None => Err(TcErr::UndeclaredVariable { name }),
        },
        ExprView::Grouping(inner) => spec_check_expr(venv, fenv, *inner),
        ExprView::Unary { op, expr } => match spec_check_expr(venv, fenv, *expr) {
            Err(e2) => Err(e2),
            Ok(t) => if op is Not {
                if t == TypeIdentifier::Boolean {
                    Ok(TypeIdentifier::Boolean)
                } else {
                    Err(TcErr::LogicalNeedsBooleans)
                }
            } else {
                Err(TcErr::UnsupportedUnaryOperator)
            },
        },
        ExprView::Binary { left, op, right } => match spec_check_expr(venv, fenv, *left) {
            Err(e2) => Err(e2),
            Ok(lt) => match spec_check_expr(venv, fenv, *right) {
                Err(e2) => Err(e2),
                Ok(rt) => if lt != rt {
                    Err(TcErr::OperandsDiffer)
                } else {
                    spec_binop_type(op, lt)
                },
            },
        },
        ExprView::Call { callee, args } => match *callee {
            ExprView::Ident(name) => match lookup_fenv(fenv, name) {
                None => Err(TcErr::UnknownFunction { name }),
                Some(sig) => if args.len() != sig.params.len() {
                    Err(
                        TcErr::CallArityMismatch {
                            name,
                            expected: sig.params.len() as usize,
                            got: args.len() as usize,
                        },
                    )
                } else {
                    match spec_check_args(venv, fenv, name, args, sig.params, 0) {
                        Err(e2) => Err(e2),
                        Ok(_) => Ok(
                            match sig.return_type {
                                Some(t) => t,
                                None => TypeIdentifier::UserDefinedType,
                            },
                        ),
                    }
                },
            },
            _ => Err(TcErr::CalleeNotIdentifier),
        },
    }
}

/// The operator-specific rule once both operand types agree.
pub open spec fn spec_binop_type(op: Operator, t: TypeIdentifier) -> Result<
    TypeIdentifier,
    TcErr,
> {
    match op {
        Operator::Plus | Operator::Minus | Operator::Multiply | Operator::Divide => if t
            == TypeIdentifier::Number {
            Ok(TypeIdentifier::Number)
        } else {
            Err(TcErr::ArithmeticNeedsNumbers)
        },
        Operator::Equals | Operator::Different | Operator::GreaterThan | Operator::LesserThan
            | Operator::GreaterEqual | Operator::LesserEqual => if t == TypeIdentifier::Number {
            Ok(TypeIdentifier::Boolean)
        } else {
            Err(TcErr::ComparisonNeedsNumbers)
        },
        Operator::And | Operator::Or => if t == TypeIdentifier::Boolean {
            Ok(TypeIdentifier::Boolean)
        } else {
            Err(TcErr::LogicalNeedsBooleans)
        },
        _ => Err(TcErr::UnsupportedBinaryOperator),
    }
}

/// Check each argument against the parameter type at its position.
pub open spec fn spec_check_args(
    venv: Seq<(Seq<char>, TypeIdentifier)>,
    fenv: Seq<(Seq<char>, SignatureView)>,
    name: Seq<char>,
    args: Seq<ExprView>,
    params: Seq<ParamView>,
    idx: int,
) -> Result<(), TcErr>
    decreases args, 1int,
{
    if args.len() == 0 {
        Ok(())
    } else {
        match spec_check_expr(venv, fenv, args[0]) {
            Err(e2) => Err(e2),
            Ok(t) => if params.len() > 0 && t != params[0].ty {
                Err(
                    TcErr::CallArgMismatch {
                        name,
                        index: (idx + 1) as usize,
                        expected: params[0].ty,
                        found: t,
                    },
                )
            } else {
                spec_check_args(venv, fenv, name, args.skip(1), params.skip(1), idx + 1)
            },
        }
    }
}


// ---------------------------------------------------------------------------
// Statement checking
// ---------------------------------------------------------------------------

/// The scope a function body starts with: the outer scope plus the
/// parameters.
pub open spec fn params_env(
    venv: Seq<(Seq<char>, TypeIdentifier)>,
    params: Seq<ParamView>,
) -> Seq<(Seq<char>, TypeIdentifier)>
    decreases params.len(),
{
    if params.len() == 0 {
        venv
    } else {
        params_env(venv, params.drop_last()).push((params.last().name, params.last().ty))
    }
}

/// What one statement does to the scopes, and the violation it raises, if
/// any.  Checking a declaration adds the variable on success; a function
/// declaration registers its signature (enabling self-recursion) before its
/// body is checked in a scope seeded with its parameters.
pub open spec fn spec_check_stmt(
    venv: Seq<(Seq<char>, TypeIdentifier)>,
    fenv: Seq<(Seq<char>, SignatureView)>,
    s: StmtView,
) -> (Seq<(Seq<char>, TypeIdentifier)>, Seq<(Seq<char>, SignatureView)>, Result<
    TypeIdentifier,
    TcErr,
>)
    decreases s, 2int,
{
    match s {
        StmtView::VarDecl { name, ty, init } => match spec_check_expr(venv, fenv, init) {
            Err(e2) => (venv, fenv, Err(e2)),
            Ok(t) => if t != ty {
                (venv, fenv, Err(TcErr::DeclMismatch { name, declared: ty, found: t }))
            } else {
                (venv.push((name, ty)), fenv, Ok(ty))
            },
        },
        StmtView::Assignment { name, expr } => match spec_check_expr(venv, fenv, expr) {
            Err(e2) => (venv, fenv, Err(e2)),
            Ok(t) => match lookup_tenv(venv, name) {
                None => (venv, fenv, Err(TcErr::AssignUndeclared { name })),
                Some(vt) => if vt != t {
                    (venv, fenv, Err(TcErr::AssignMismatch { name, declared: vt, found: t }))
                } else {
                    (venv, fenv, Ok(vt))
                },
            },
        },
        StmtView::Expr(e) => (venv, fenv, spec_check_expr(venv, fenv, e)),
        StmtView::Return(oe) => match oe {
            Some(e) => (venv, fenv, spec_check_expr(venv, fenv, e)),
            None => (venv, fenv, Ok(TypeIdentifier::UserDefinedType)),
        },
        StmtView::If { condition, then_branch, else_branch } => {
            match spec_check_expr(venv, fenv, condition) {
                Err(e2) => (venv, fenv, Err(e2)),
                Ok(t) => if t != TypeIdentifier::Boolean {
                    (venv, fenv, Err(TcErr::IfConditionNotBoolean))
                } else {
                    let (venv1, fenv1, r1) = spec_check_block(venv, fenv, then_branch);
                    match r1 {
                        Err(e2) => (venv1, fenv1, Err(e2)),
                        Ok(_) => match else_branch {
                            Some(els) => {
                                let (venv2, fenv2, r2) = spec_check_block(venv1, fenv1, els);
                                match r2 {
                                    Err(e2) => (venv2, fenv2, Err(e2)),
                                    Ok(_) => (venv2, fenv2, Ok(TypeIdentifier::Boolean)),
                                }
                            },
                            None => (venv1, fenv1, Ok(TypeIdentifier::Boolean)),
                        },
                    }
                },
            }
        },
        StmtView::FunctionDeclaration(f) => {
            let fenv1 = fenv.push((f.signature.name, f.signature));
            match f.body {
                BodyView::User(stmts) => {
                    let scope = params_env(venv, f.signature.params);
                    let (_venv2, fenv2, r) = spec_check_func_body(
                        scope,
                        fenv1,
                        f.signature,
                        stmts,
                        false,
                    );
                    match r {
                        Err(e2) => (venv, fenv2, Err(e2)),
                        Ok(_) => (venv, fenv2, Ok(TypeIdentifier::UserDefinedType)),
                    }
                },
                BodyView::Native(_) => (venv, fenv1, Ok(TypeIdentifier::UserDefinedType)),
            }
        },
    }
}

/// Check a block of statements in order, stopping at the first violation.
pub open spec fn spec_check_block(
    venv: Seq<(Seq<char>, TypeIdentifier)>,
    fenv: Seq<(Seq<char>, SignatureView)>,
    stmts: Seq<StmtView>,
) -> (Seq<(Seq<char>, TypeIdentifier)>, Seq<(Seq<char>, SignatureView)>, Result<(), TcErr>)
    decreases stmts, 3int,
{
    if stmts.len() == 0 {
        (venv, fenv, Ok(()))
    } else {
        let (venv1, fenv1, r) = spec_check_stmt(venv, fenv, stmts[0]);
        match r {
            Err(e2) => (venv1, fenv1, Err(e2)),
            Ok(_) => spec_check_block(venv1, fenv1, stmts.skip(1)),
        }
    }
}

/// Check a function body: each top-level `return` must match the declared
/// return type, and a declared return type demands at least one `return`.
pub open spec fn spec_check_func_body(
    venv: Seq<(Seq<char>, TypeIdentifier)>,
    fenv: Seq<(Seq<char>, SignatureView)>,
    sig: SignatureView,
    stmts: Seq<StmtView>,
    found_return: bool,
) -> (Seq<(Seq<char>, TypeIdentifier)>, Seq<(Seq<char>, SignatureView)>, Result<(), TcErr>)
    decreases stmts, 4int,
{
    if stmts.len() == 0 {
        if sig.return_type is Some && !found_return {
            (venv, fenv, Err(TcErr::MissingReturn { name: sig.name }))
        } else {
            (venv, fenv, Ok(()))
        }
    } else {
        match stmts[0] {
            StmtView::Return(oe) => {
                let rt = match oe {
                    Some(e) => spec_check_expr(venv, fenv, e),
                    None => Ok(TypeIdentifier::UserDefinedType),
                };
                match rt {
                    Err(e2) => (venv, fenv, Err(e2)),
                    Ok(t) => match sig.return_type {
                        Some(expected) => if expected != t {
                            (
                                venv,
                                fenv,
                                Err(
                                    TcErr::ReturnTypeMismatch {
                                        name: sig.name,
                                        declared: expected,
                                        found: t,
                                    },
                                ),
                            )
                        } else {
                            spec_check_func_body(venv, fenv, sig, stmts.skip(1), true)
                        },
                        None => spec_check_func_body(venv, fenv, sig, stmts.skip(1), true),
                    },
                }
            },
            _ => {
                let (venv1, fenv1, r) = spec_check_stmt(venv, fenv, stmts[0]);
                match r {
                    Err(e2) => (venv1, fenv1, Err(e2)),
                    Ok(_) => spec_check_func_body(venv1, fenv1, sig, stmts.skip(1), found_return),
                }
            },
        }
    }
}

/// Check every top-level statement, collecting one violation per failing
/// statement and continuing past it.
pub open spec fn spec_check_program(
    venv: Seq<(Seq<char>, TypeIdentifier)>,
    fenv: Seq<(Seq<char>, SignatureView)>,
    stmts: Seq<StmtView>,
) -> (Seq<(Seq<char>, TypeIdentifier)>, Seq<(Seq<char>, SignatureView)>, Seq<TcErr>)
    decreases stmts.len(),
{
    if stmts.len() == 0 {
        (venv, fenv, Seq::empty())
    } else {
        let (venv1, fenv1, r) = spec_check_stmt(venv, fenv, stmts[0]);
        let (venv2, fenv2, rest) = spec_check_program(venv1, fenv1, stmts.skip(1));
        match r {
            Err(e2) => (venv2, fenv2, seq![e2] + rest),
            Ok(_) => (venv2, fenv2, rest),
        }
    }
}

/// The signature table a checker starts with: the builtins, in order.
pub open spec fn builtin_signatures() -> Seq<(Seq<char>, SignatureView)> {
    builtin_function_views().map(|_i: int, f: FunctionView| (f.signature.name, f.signature))
}


// ---------------------------------------------------------------------------
// The executable checker
// ---------------------------------------------------------------------------

/// Walks the program, keeping a table of variable types and one of function
/// signatures, and reports every violation without stopping.
pub struct TypeChecker {
    variables: Vec<(String, TypeIdentifier)>,
    functions: Vec<(String, FunctionSignature)>,
}

/// The violations of a report, as mathematics.
pub open spec fn errors_view(v: Seq<TypeCheckerError>) -> Seq<TcErr> {
    v.map(|_i: int, e: TypeCheckerError| tc_err_view(e.kind))
}

impl TypeChecker {
    /// The variable-type table.
    pub closed spec fn venv(&self) -> Seq<(Seq<char>, TypeIdentifier)> {
        self.variables@.map(|_i: int, p: (String, TypeIdentifier)| (p.0@, p.1))
    }

    /// The function-signature table.
    pub closed spec fn fenv(&self) -> Seq<(Seq<char>, SignatureView)> {
        self.functions@.map(|_i: int, p: (String, FunctionSignature)| (p.0@, p.1@))
    }

    /// A fresh checker: no variables, and the builtin signatures.
    pub fn new() -> (r: TypeChecker)
        ensures
            r.venv() =~= Seq::<(Seq<char>, TypeIdentifier)>::empty(),
            r.fenv() =~= builtin_signatures(),
    {
        let builtins = load_std_functions();
        let mut functions: Vec<(String, FunctionSignature)> = Vec::new();
        let mut i: usize = 0;
        while i < builtins.len()
            invariant
                i <= builtins@.len(),
                builtins@.len() == builtin_function_views().len(),
                forall|k: int|
                    0 <= k < builtins@.len() ==> #[trigger] builtins@[k]@
                        == builtin_function_views()[k],
                functions@.len() == i,
                forall|k: int|
                    0 <= k < i ==> #[trigger] functions@[k].0@ == builtin_signatures()[k].0
                        && functions@[k].1@ == builtin_signatures()[k].1,
            decreases builtins@.len() - i,
        {
            let name = clone_string(&builtins[i].signature.name);
            let sig = clone_signature(&builtins[i].signature);
            proof {
                assert(builtin_signatures()[i as int] == (
                    builtin_function_views()[i as int].signature.name,
                    builtin_function_views()[i as int].signature,
                ));
                assert(builtins@[i as int]@.signature == signature_view(
                    builtins@[i as int].signature,
                ));
            }
            functions.push((name, sig));
            i = i + 1;
        }
        let r = TypeChecker { variables: Vec::new(), functions };
        proof {
            let reg = builtin_signatures();
            assert(r.fenv().len() == reg.len());
            assert forall|k: int| 0 <= k < r.fenv().len() implies r.fenv()[k] == reg[k] by {
                assert(r.fenv()[k] == (functions@[k].0@, functions@[k].1@));
                assert(reg[k] == (
                    builtin_function_views()[k].signature.name,
                    builtin_function_views()[k].signature,
                ));
            }
            assert(r.fenv() =~= reg);
        }
        r
    }

    /// The declared type of a variable, most recent declaration first.
    fn lookup_var_type(&self, name: &String) -> (r: Option<TypeIdentifier>)
        ensures
            r == lookup_tenv(self.venv(), name@),
    {
        let ghost env = self.venv();
        proof {
            assert(env.take(env.len() as int) =~= env);
        }
        let mut i: usize = self.variables.len();
        loop
            invariant
                i <= self.variables@.len(),
                env == self.venv(),
                env.len() == self.variables@.len(),
                lookup_tenv(env.take(i as int), name@) == lookup_tenv(env, name@),
            ensures
                i == 0,
                lookup_tenv(env.take(0), name@) == lookup_tenv(env, name@),
            decreases i,
        {
            if i == 0 {
                break;
            }
            let entry = &self.variables[i - 1];
            proof {
                assert(env[i - 1] == (entry.0@, entry.1));
                assert(env.take(i as int).last() == env[i - 1]);
                assert(env.take(i as int).drop_last() =~= env.take(i - 1));
            }
            if entry.0 == *name {
                return Some(entry.1);
            }
            i = i - 1;
        }
        proof {
            assert(env.take(0) =~= Seq::<(Seq<char>, TypeIdentifier)>::empty());
        }
        None
    }

    /// The registered signature under a name, as a fresh copy.
    fn lookup_signature(&self, name: &String) -> (r: Option<FunctionSignature>)
        ensures
            match (r, lookup_fenv(self.fenv(), name@)) {
                (Some(sig), Some(sv)) => sig@ == sv,
                (None, None) => true,
                _ => false,
            },
    {
        let ghost env = self.fenv();
        proof {
            assert(env.take(env.len() as int) =~= env);
        }
        let mut i: usize = self.functions.len();
        loop
            invariant
                i <= self.functions@.len(),
                env == self.fenv(),
                env.len() == self.functions@.len(),
                lookup_fenv(env.take(i as int), name@) == lookup_fenv(env, name@),
            ensures
                i == 0,
                lookup_fenv(env.take(0), name@) == lookup_fenv(env, name@),
            decreases i,
        {
            if i == 0 {
                break;
            }
            let entry = &self.functions[i - 1];
            proof {
                assert(env[i - 1] == (entry.0@, entry.1@));
                assert(env.take(i as int).last() == env[i - 1]);
                assert(env.take(i as int).drop_last() =~= env.take(i - 1));
            }
            if entry.0 == *name {
                return Some(clone_signature(&entry.1));
            }
            i = i - 1;
        }
        proof {
            assert(env.take(0) =~= Seq::<(Seq<char>, SignatureView)>::empty());
        }
        None
    }

    /// Infer the type of an expression, or report the first violation in it.
    fn check_expr(&self, e: &Expr) -> (r: Result<TypeIdentifier, TypeErrorKind>)
        ensures
            match (r, spec_check_expr(self.venv(), self.fenv(), e@)) {
                (Ok(t), Ok(st)) => t == st,
                (Err(k), Err(se)) => tc_err_view(k) == se,
                _ => false,
            },
        decreases *e, 0int,
    {
        match e {
            Expr::Literal(lit) => match lit {
                Literal::Integer(_) => Ok(TypeIdentifier::Number),
                Literal::Boolean(_) => Ok(TypeIdentifier::Boolean),
                Literal::Character(_) => Ok(TypeIdentifier::Char),
                Literal::Float(_) => Err(TypeErrorKind::UnsupportedLiteral),
            },
            Expr::Ident(name) => match self.lookup_var_type(name) {
                Some(t) => Ok(t),
                None => Err(TypeErrorKind::UndeclaredVariable { name: clone_string(name) }),
            },
            Expr::Grouping(inner) => self.check_expr(inner),
            Expr::Unary { op, expr } => match self.check_expr(expr) {
                Err(k) => Err(k),
                Ok(t) => {
                    if matches!(op, Operator::Not) {
                        if matches!(t, TypeIdentifier::Boolean) {
                            Ok(TypeIdentifier::Boolean)
                        } else {
                            Err(TypeErrorKind::LogicalNeedsBooleans)
                        }
                    } else {
                        Err(TypeErrorKind::UnsupportedUnaryOperator)
                    }
                },
            },
            Expr::Binary { left, op, right } => match self.check_expr(left) {
                Err(k) => Err(k),
                Ok(lt) => match self.check_expr(right) {
                    Err(k) => Err(k),
                    Ok(rt) => {
                        if lt != rt {
                            Err(TypeErrorKind::OperandsDiffer)
                        } else {
                            match op {
                                Operator::Plus | Operator::Minus | Operator::Multiply
                                    | Operator::Divide => {
                                    if matches!(lt, TypeIdentifier::Number) {
                                        Ok(TypeIdentifier::Number)
                                    } else {
                                        Err(TypeErrorKind::ArithmeticNeedsNumbers)
                                    }
                                },
                                Operator::Equals | Operator::Different | Operator::GreaterThan
                                    | Operator::LesserThan | Operator::GreaterEqual
                                    | Operator::LesserEqual => {
                                    if matches!(lt, TypeIdentifier::Number) {
                                        Ok(TypeIdentifier::Boolean)
                                    } else {
                                        Err(TypeErrorKind::ComparisonNeedsNumbers)
                                    }
                                },
                                Operator::And | Operator::Or => {
                                    if matches!(lt, TypeIdentifier::Boolean) {
                                        Ok(TypeIdentifier::Boolean)
                                    } else {
                                        Err(TypeErrorKind::LogicalNeedsBooleans)
                                    }
                                },
                                _ => Err(TypeErrorKind::UnsupportedBinaryOperator),
                            }
                        }
                    },
                },
            },
            Expr::Call { callee, args } => {
                let fname = match &**callee {
                    Expr::Ident(n) => n,
                    _ => {
                        return Err(TypeErrorKind::CalleeNotIdentifier);
                    },
                };
                proof {
                    assert((**callee)@ == ExprView::Ident(fname@));
                    crate::ast::lemma_exprs_view_from(*args, 0);
                }
                let sig = match self.lookup_signature(fname) {
                    Some(sig) => sig,
                    None => {
                        return Err(
                            TypeErrorKind::UnknownFunction { name: clone_string(fname) },
                        );
                    },
                };
                proof {
                    assert(sig@.params.len() == sig.parameters@.len());
                }
                if args.len() != sig.parameters.len() {
                    return Err(
                        TypeErrorKind::CallArityMismatch {
                            name: clone_string(fname),
                            expected: sig.parameters.len(),
                            got: args.len(),
                        },
                    );
                }
                match self.check_args(fname, args, &sig) {
                    Err(k) => Err(k),
                    Ok(_) => Ok(
                        match sig.return_type {
                            Some(t) => t,
                            None => TypeIdentifier::UserDefinedType,
                        },
                    ),
                }
            },
        }
    }

    /// Check each call argument against the parameter at its position.
    fn check_args(&self, name: &String, args: &Vec<Expr>, sig: &FunctionSignature) -> (r: Result<
        (),
        TypeErrorKind,
    >)
        requires
            args@.len() == sig.parameters@.len(),
        ensures
            match (r, spec_check_args(
                self.venv(),
                self.fenv(),
                name@,
                crate::ast::exprs_view(*args),
                sig@.params,
                0,
            )) {
                (Ok(u), Ok(su)) => true,
                (Err(k), Err(se)) => tc_err_view(k) == se,
                _ => false,
            },
        decreases *args, 1int,
    {
        let ghost argsv = crate::ast::exprs_view(*args);
        let ghost paramsv = sig@.params;
        proof {
            crate::ast::lemma_exprs_view_from(*args, 0);
            assert(argsv.skip(0) =~= argsv);
            assert(paramsv.skip(0) =~= paramsv);
        }
        let mut i: usize = 0;
        while i < args.len()
            invariant
                i <= args@.len(),
                args@.len() == sig.parameters@.len(),
                argsv == crate::ast::exprs_view(*args),
                argsv.len() == args@.len(),
                paramsv == sig@.params,
                paramsv.len() == args@.len(),
                spec_check_args(self.venv(), self.fenv(), name@, argsv, paramsv, 0)
                    == spec_check_args(
                    self.venv(),
                    self.fenv(),
                    name@,
                    argsv.skip(i as int),
                    paramsv.skip(i as int),
                    i as int,
                ),
            decreases args@.len() - i,
        {
            proof {
                crate::ast::lemma_exprs_view_from(*args, 0);
                assert(argsv.skip(i as int)[0] == argsv[i as int]);
                assert(paramsv.skip(i as int)[0] == paramsv[i as int]);
            }
            let pty = sig.parameters[i].parameter_type;
            proof {
                assert(paramsv[i as int] == crate::ast::param_view(sig.parameters@[i as int]));
            }
            match self.check_expr(&args[i]) {
                Err(k) => {
                    return Err(k);
                },
                Ok(t) => {
                    if t != pty {
                        return Err(
                            TypeErrorKind::CallArgMismatch {
                                name: clone_string(name),
                                index: i + 1,
                                expected: pty,
                                found: t,
                            },
                        );
                    }
                },
            }
            i = i + 1;
            proof {
                assert(argsv.skip(i - 1).skip(1) =~= argsv.skip(i as int));
                assert(paramsv.skip(i - 1).skip(1) =~= paramsv.skip(i as int));
            }
        }
        proof {
            assert(argsv.skip(i as int) =~= Seq::<ExprView>::empty());
        }
        Ok(())
    }
}


impl TypeChecker {
    /// Check one statement, updating the tables as the typing rules say.
    pub fn check_statement(&mut self, s: &Statement) -> (r: Result<TypeIdentifier, TypeErrorKind>)
        ensures
            ({
                let (venv2, fenv2, r2) = spec_check_stmt(old(self).venv(), old(self).fenv(), s@);
                final(self).venv() == venv2 && final(self).fenv() == fenv2 && match (r, r2) {
                    (Ok(t), Ok(st)) => t == st,
                    (Err(k), Err(se)) => tc_err_view(k) == se,
                    _ => false,
                }
            }),
        decreases *s, 2int,
    {
        match s {
            Statement::VarDecl(d) => {
                match self.check_expr(&d.expr) {
                    Err(k) => Err(k),
                    Ok(t) => {
                        if t != d.var_type {
                            Err(
                                TypeErrorKind::DeclMismatch {
                                    name: clone_string(&d.identifier),
                                    declared: d.var_type,
                                    found: t,
                                },
                            )
                        } else {
                            self.variables.push((clone_string(&d.identifier), d.var_type));
                            proof {
                                assert(self.venv() =~= old(self).venv().push(
                                    (d.identifier@, d.var_type),
                                ));
                                assert(self.fenv() =~= old(self).fenv());
                            }
                            Ok(d.var_type)
                        }
                    },
                }
            },
            Statement::Assignment { identifier, expr } => {
                match self.check_expr(expr) {
                    Err(k) => Err(k),
                    Ok(t) => match self.lookup_var_type(identifier) {
                        None => Err(
                            TypeErrorKind::AssignUndeclared { name: clone_string(identifier) },
                        ),
                        Some(vt) => {
                            if vt != t {
                                Err(
                                    TypeErrorKind::AssignMismatch {
                                        name: clone_string(identifier),
                                        declared: vt,
                                        found: t,
                                    },
                                )
                            } else {
                                Ok(vt)
                            }
                        },
                    },
                }
            },
            Statement::Expr(e) => self.check_expr(e),
            Statement::Return(oe) => match oe {
                Some(e) => self.check_expr(e),
                None => Ok(TypeIdentifier::UserDefinedType),
            },
            Statement::If { condition, then_branch, else_branch } => {
                match self.check_expr(condition) {
                    Err(k) => Err(k),
                    Ok(t) => {
                        if !matches!(t, TypeIdentifier::Boolean) {
                            Err(TypeErrorKind::IfConditionNotBoolean)
                        } else {
                            match self.check_block(then_branch) {
                                Err(k) => Err(k),
                                Ok(_) => match else_branch {
                                    Some(els) => match self.check_block(els) {
                                        Err(k) => Err(k),
                                        Ok(_) => Ok(TypeIdentifier::Boolean),
                                    },
                                    None => Ok(TypeIdentifier::Boolean),
                                },
                            }
                        }
                    },
                }
            },
            Statement::FunctionDeclaration(f) => {
                let sig_copy = clone_signature(&f.signature);
                self.functions.push((clone_string(&f.signature.name), sig_copy));
                proof {
                    assert(self.fenv() =~= old(self).fenv().push(
                        (f.signature.name@, f.signature@),
                    ));
                    assert(self.venv() =~= old(self).venv());
                }
                match &f.body {
                    crate::ast::FunctionBody::UserDefinedBody(stmts) => {
                        let saved = self.clone_variables();
                        let ghost venv0 = self.venv();
                        let mut k: usize = 0;
                        while k < f.signature.parameters.len()
                            invariant
                                k <= f.signature.parameters@.len(),
                                f@.signature.params.len() == f.signature.parameters@.len(),
                                f@.signature.params == f.signature@.params,
                                self.fenv() == old(self).fenv().push(
                                    (f.signature.name@, f.signature@),
                                ),
                                self.venv() == params_env(venv0, f@.signature.params.take(k as int)),
                            decreases f.signature.parameters@.len() - k,
                        {
                            let p = &f.signature.parameters[k];
                            let pname = clone_string(&p.parameter_name);
                            self.variables.push((pname, p.parameter_type));
                            k = k + 1;
                            proof {
                                let ps = f@.signature.params;
                                assert(ps.take(k as int).drop_last() =~= ps.take(k - 1));
                                assert(ps.take(k as int).last() == ps[k - 1]);
                                assert(ps[k - 1] == crate::ast::param_view(
                                    f.signature.parameters@[k - 1],
                                ));
                                assert(self.venv() =~= params_env(venv0, ps.take(k as int)));
                            }
                        }
                        proof {
                            assert(f@.signature.params.take(f@.signature.params.len() as int)
                                =~= f@.signature.params);
                        }
                        let body_result = self.check_func_body(&f.signature, stmts, false);
                        self.variables = saved;
                        proof {
                            assert(self.venv() == old(self).venv());
                        }
                        match body_result {
                            Err(k2) => Err(k2),
                            Ok(_) => Ok(TypeIdentifier::UserDefinedType),
                        }
                    },
                    crate::ast::FunctionBody::NativeBody(_) => Ok(TypeIdentifier::UserDefinedType),
                }
            },
        }
    }

    /// A copy of the variable table.
    fn clone_variables(&self) -> (r: Vec<(String, TypeIdentifier)>)
        ensures
            r@.map(|_i: int, p: (String, TypeIdentifier)| (p.0@, p.1)) == self.venv(),
    {
        let mut r: Vec<(String, TypeIdentifier)> = Vec::new();
        let mut i: usize = 0;
        while i < self.variables.len()
            invariant
                i <= self.variables@.len(),
                r@.len() == i,
                forall|k: int|
                    0 <= k < i ==> (#[trigger] r@[k].0)@ == self.venv()[k].0 && r@[k].1
                        == self.venv()[k].1,
            decreases self.variables@.len() - i,
        {
            let entry = &self.variables[i];
            r.push((clone_string(&entry.0), entry.1));
            i = i + 1;
        }
        proof {
            assert(r@.map(|_i: int, p: (String, TypeIdentifier)| (p.0@, p.1)) =~= self.venv());
        }
        r
    }

    /// Check a block of statements in order, stopping at the first violation.
    fn check_block(&mut self, stmts: &Vec<Statement>) -> (r: Result<(), TypeErrorKind>)
        ensures
            ({
                let (venv2, fenv2, r2) = spec_check_block(
                    old(self).venv(),
                    old(self).fenv(),
                    crate::ast::stmts_view(*stmts),
                );
                final(self).venv() == venv2 && final(self).fenv() == fenv2 && match (r, r2) {
                    (Ok(u), Ok(su)) => true,
                    (Err(k), Err(se)) => tc_err_view(k) == se,
                    _ => false,
                }
            }),
        decreases *stmts, 3int,
    {
        let ghost sv = crate::ast::stmts_view(*stmts);
        proof {
            crate::ast::lemma_stmts_view_from(*stmts, 0);
            assert(sv.skip(0) =~= sv);
        }
        let mut i: usize = 0;
        while i < stmts.len()
            invariant
                i <= stmts@.len(),
                sv == crate::ast::stmts_view(*stmts),
                sv.len() == stmts@.len(),
                spec_check_block(old(self).venv(), old(self).fenv(), sv) == spec_check_block(
                    self.venv(),
                    self.fenv(),
                    sv.skip(i as int),
                ),
            decreases stmts@.len() - i,
        {
            proof {
                crate::ast::lemma_stmts_view_from(*stmts, 0);
                assert(sv.skip(i as int)[0] == sv[i as int]);
            }
            match self.check_statement(&stmts[i]) {
                Err(k) => {
                    return Err(k);
                },
                Ok(_) => {
                },
            }
            i = i + 1;
            proof {
                assert(sv.skip(i - 1).skip(1) =~= sv.skip(i as int));
            }
        }
        proof {
            assert(sv.skip(i as int) =~= Seq::<StmtView>::empty());
        }
        Ok(())
    }

    /// Check a function body: each top-level `return` must match the
    /// declared return type, and a declared return type demands at least one
    /// `return`.
    fn check_func_body(&mut self, sig: &FunctionSignature, stmts: &Vec<Statement>, found: bool)
        -> (r: Result<(), TypeErrorKind>)
        ensures
            ({
                let (venv2, fenv2, r2) = spec_check_func_body(
                    old(self).venv(),
                    old(self).fenv(),
                    sig@,
                    crate::ast::stmts_view(*stmts),
                    found,
                );
                final(self).venv() == venv2 && final(self).fenv() == fenv2 && match (r, r2) {
                    (Ok(u), Ok(su)) => true,
                    (Err(k), Err(se)) => tc_err_view(k) == se,
                    _ => false,
                }
            }),
        decreases *stmts, 4int,
    {
        let ghost sv = crate::ast::stmts_view(*stmts);
        proof {
            crate::ast::lemma_stmts_view_from(*stmts, 0);
            assert(sv.skip(0) =~= sv);
        }
        let mut i: usize = 0;
        let mut found_return = found;
        while i < stmts.len()
            invariant
                i <= stmts@.len(),
                sv == crate::ast::stmts_view(*stmts),
                sv.len() == stmts@.len(),
                sig@ == sig@,
                spec_check_func_body(old(self).venv(), old(self).fenv(), sig@, sv, found)
                    == spec_check_func_body(
                    self.venv(),
                    self.fenv(),
                    sig@,
                    sv.skip(i as int),
                    found_return,
                ),
            decreases stmts@.len() - i,
        {
            proof {
                crate::ast::lemma_stmts_view_from(*stmts, 0);
                assert(sv.skip(i as int)[0] == sv[i as int]);
            }
            match &stmts[i] {
                Statement::Return(oe) => {
                    let rt: Result<TypeIdentifier, TypeErrorKind> = match oe {
                        Some(e) => self.check_expr(e),
                        None => Ok(TypeIdentifier::UserDefinedType),
                    };
                    match rt {
                        Err(k) => {
                            return Err(k);
                        },
                        Ok(t) => {
                            match sig.return_type {
                                Some(expected) => {
                                    if expected != t {
                                        return Err(
                                            TypeErrorKind::ReturnTypeMismatch {
                                                name: clone_string(&sig.name),
                                                declared: expected,
                                                found: t,
                                            },
                                        );
                                    }
                                    found_return = true;
                                },
                                None => {
                                    found_return = true;
                                },
                            }
                        },
                    }
                },
                other => {
                    match self.check_statement(other) {
                        Err(k) => {
                            return Err(k);
                        },
                        Ok(_) => {
                        },
                    }
                },
            }
            i = i + 1;
            proof {
                assert(sv.skip(i - 1).skip(1) =~= sv.skip(i as int));
            }
        }
        proof {
            assert(sv.skip(i as int) =~= Seq::<StmtView>::empty());
        }
        if matches!(sig.return_type, Some(_)) && !found_return {
            return Err(TypeErrorKind::MissingReturn { name: clone_string(&sig.name) });
        }
        Ok(())
    }

    /// Check every statement of a program, collecting one violation per
    /// failing statement and continuing past it.
    pub fn check_ast(&mut self, ast: &Ast) -> (r: Vec<TypeCheckerError>)
        ensures
            ({
                let (venv2, fenv2, errs) = spec_check_program(
                    old(self).venv(),
                    old(self).fenv(),
                    ast@.statements,
                );
                final(self).venv() == venv2 && final(self).fenv() == fenv2 && errors_view(r@)
                    == errs
            }),
    {
        let stmts = &ast.statements;
        let ghost sv = ast@.statements;
        proof {
            crate::ast::lemma_stmts_view_from(*stmts, 0);
            assert(sv.skip(0) =~= sv);
            assert forall|rest: Seq<TcErr>|
                true implies Seq::<TcErr>::empty() + rest =~= rest by {}
        }
        let mut out: Vec<TypeCheckerError> = Vec::new();
        let mut i: usize = 0;
        while i < stmts.len()
            invariant
                i <= stmts@.len(),
                sv == crate::ast::stmts_view(*stmts),
                sv == ast@.statements,
                sv.len() == stmts@.len(),
                spec_check_program(old(self).venv(), old(self).fenv(), sv) == (match
                    spec_check_program(self.venv(), self.fenv(), sv.skip(i as int)) {
                    (v2, f2, rest) => (v2, f2, errors_view(out@) + rest),
                }),
            decreases stmts@.len() - i,
        {
            proof {
                crate::ast::lemma_stmts_view_from(*stmts, 0);
                assert(sv.skip(i as int)[0] == sv[i as int]);
            }
            let ghost out0 = out@;
            match self.check_statement(&stmts[i]) {
                Err(k) => {
                    out.push(TypeCheckerError { kind: k });
                    proof {
                        assert(errors_view(out@) =~= errors_view(out0).push(tc_err_view(k)));
                        assert forall|rest: Seq<TcErr>|
                            true implies errors_view(out0) + (seq![tc_err_view(k)] + rest)
                            =~= errors_view(out@) + rest by {}
                    }
                },
                Ok(_) => {
                },
            }
            i = i + 1;
            proof {
                assert(sv.skip(i - 1).skip(1) =~= sv.skip(i as int));
            }
        }
        proof {
            assert(sv.skip(i as int) =~= Seq::<StmtView>::empty());
            assert(errors_view(out@) + Seq::<TcErr>::empty() =~= errors_view(out@));
        }
        out
    }
}

} // verus!
