use vstd::prelude::*;
use crate::text::clone_string;
use crate::ast::{clone_function, depth_expr, depth_exprs, depth_function, depth_stmt,
    depth_stmts, exprs_view, lemma_depth_exprs_element, lemma_depth_stmts_element,
    lemma_exprs_view_from, lemma_stmts_view_from, stmts_view, Ast, BodyView, Expr, ExprView,
    Function, FunctionBody, FunctionView, NativeFn, ParamView, Statement, StmtView, VarDecl};
use crate::builtins::{builtin_function_views, load_std_functions};
use crate::num::{div_trunc, div_trunc_i32, i32_to_chars, int_chars, parse_i32_chars,
    spec_parse_i32};
use crate::text::{chars_of_str, push_char};
use crate::token::{Literal, LiteralView, Operator};

verus! {

broadcast use vstd::seq::axiom_seq_index_decreases, vstd::std_specs::vec::axiom_vec_index_decreases;

/// A runtime value of the language: all values are small copyable scalars.
/// `Nothing` stands for "no value produced" (for instance a call that
/// returns nothing); it is never observable through arithmetic.
#[derive(Debug, Clone, Copy, PartialEq, Eq, Structural)]
pub enum Value {
    Number(i32),
    Boolean(bool),
    Char(char),
    Nothing,
}

/// How deep the call stack may grow before a call is refused with a
/// `RecursionLimit` error.  Verified code must not recurse without bound,
/// and the bound also keeps the host's own stack safe.
pub const MAX_CALL_DEPTH: u64 = 1024;

/// Why an evaluation was aborted.
#[derive(Debug, PartialEq)]
pub enum RuntimeError {
    VariableNotFound { name: String },
    FunctionNotFound { name: String },
    CalleeNotIdentifier,
    ArityMismatch { name: String, expected: usize, got: usize },
    TypeMismatch,
    UnsupportedOperator,
    NonBooleanCondition,
    DivisionByZero,
    UnsupportedLiteral,
    RecursionLimit,
}

/// The mathematical mirror of `RuntimeError`.
pub enum RtErr {
    VariableNotFound(Seq<char>),
    FunctionNotFound(Seq<char>),
    CalleeNotIdentifier,
    ArityMismatch { name: Seq<char>, expected: usize, got: usize },
    TypeMismatch,
    UnsupportedOperator,
    NonBooleanCondition,
    DivisionByZero,
    UnsupportedLiteral,
    RecursionLimit,
}

pub open spec fn err_view(e: RuntimeError) -> RtErr {
    match e {
        RuntimeError::VariableNotFound { name } => RtErr::VariableNotFound(name@),
        RuntimeError::FunctionNotFound { name } => RtErr::FunctionNotFound(name@),
        RuntimeError::CalleeNotIdentifier => RtErr::CalleeNotIdentifier,
        RuntimeError::ArityMismatch { name, expected, got } => RtErr::ArityMismatch {
            name: name@,
            expected,
            got,
        },
        RuntimeError::TypeMismatch => RtErr::TypeMismatch,
        RuntimeError::UnsupportedOperator => RtErr::UnsupportedOperator,
        RuntimeError::NonBooleanCondition => RtErr::NonBooleanCondition,
        RuntimeError::DivisionByZero => RtErr::DivisionByZero,
        RuntimeError::UnsupportedLiteral => RtErr::UnsupportedLiteral,
        RuntimeError::RecursionLimit => RtErr::RecursionLimit,
    }
}

/// The text `RuntimeError::message` renders for each error.
pub open spec fn spec_rt_message(e: RtErr) -> Seq<char> {
    match e {
        RtErr::VariableNotFound(name) => "variable '"@ + name + "' not found"@,
        RtErr::FunctionNotFound(name) => "function '"@ + name + "' not found"@,
        RtErr::CalleeNotIdentifier => "eval: only identifier function calls are supported"@,
        RtErr::ArityMismatch { name, expected, got } => "function '"@ + name
            + "' called with the wrong number of arguments"@,
        RtErr::TypeMismatch => "eval: type mismatch in operation"@,
        RtErr::UnsupportedOperator => "eval: unsupported operator"@,
        RtErr::NonBooleanCondition => "eval: if condition does not evaluate to a boolean"@,
        RtErr::DivisionByZero => "eval: division by zero"@,
        RtErr::UnsupportedLiteral => "eval: unsupported literal"@,
        RtErr::RecursionLimit => "eval: call depth limit reached"@,
    }
}

impl RuntimeError {
    /// A human-readable description of the error.
    pub fn message(&self) -> (r: String)
        ensures
            r@ == spec_rt_message(err_view(*self)),
    {
        match self {
            RuntimeError::VariableNotFound { name } => String::from_str("variable '").concat(
                name.as_str(),
            ).concat("' not found"),
            RuntimeError::FunctionNotFound { name } => String::from_str("function '").concat(
                name.as_str(),
            ).concat("' not found"),
            RuntimeError::CalleeNotIdentifier => String::from_str(
                "eval: only identifier function calls are supported",
            ),
            RuntimeError::ArityMismatch { name, expected, got } => String::from_str(
                "function '",
            ).concat(name.as_str()).concat("' called with the wrong number of arguments"),
            RuntimeError::TypeMismatch => String::from_str("eval: type mismatch in operation"),
            RuntimeError::UnsupportedOperator => String::from_str("eval: unsupported operator"),
            RuntimeError::NonBooleanCondition => String::from_str(
                "eval: if condition does not evaluate to a boolean",
            ),
            RuntimeError::DivisionByZero => String::from_str("eval: division by zero"),
            RuntimeError::UnsupportedLiteral => String::from_str("eval: unsupported literal"),
            RuntimeError::RecursionLimit => String::from_str("eval: call depth limit reached"),
        }
    }
}

// ---------------------------------------------------------------------------
// The machine state and its mathematical mirror
// ---------------------------------------------------------------------------

/// A single function call's variable bindings.
#[derive(Debug)]
pub struct StackFrame {
    pub vars: Vec<(String, Value)>,
}

/// The whole interpreter state, as mathematics: frames of name/value
/// bindings, the function registry, the input lines not yet read, and
/// everything written so far.
pub struct MachineView {
    pub stack: Seq<Seq<(Seq<char>, Value)>>,
    pub funcs: Seq<(Seq<char>, FunctionView)>,
    pub input: Seq<Seq<char>>,
    pub output: Seq<char>,
}

pub open spec fn frame_view(f: StackFrame) -> Seq<(Seq<char>, Value)> {
    f.vars@.map(|_i: int, p: (String, Value)| (p.0@, p.1))
}

/// A tree-walking interpreter with an explicit call stack, a function
/// registry seeded with the builtins, a queue of input lines and an output
/// buffer.
pub struct Interpreter {
    stack: Vec<StackFrame>,
    functions: Vec<(String, Function)>,
    input: Vec<String>,
    input_pos: usize,
    output: Vec<char>,
}

impl View for Interpreter {
    type V = MachineView;

    closed spec fn view(&self) -> MachineView {
        MachineView {
            stack: self.stack@.map(|_i: int, f: StackFrame| frame_view(f)),
            funcs: self.functions@.map(|_i: int, p: (String, Function)| (p.0@, p.1@)),
            input: self.input@.skip(self.input_pos as int).map(|_i: int, l: String| l@),
            output: self.output@,
        }
    }
}

// ---------------------------------------------------------------------------
// Lookups and assignment over the mirror
// ---------------------------------------------------------------------------

/// The value bound to `name` in one frame; the most recent binding wins.
pub open spec fn lookup_frame(frame: Seq<(Seq<char>, Value)>, name: Seq<char>) -> Option<Value>
    decreases frame.len(),
{
    if frame.len() == 0 {
        None
    } else if frame.last().0 == name {
        Some(frame.last().1)
    } else {
        lookup_frame(frame.drop_last(), name)
    }
}

/// The value `name` reads as: frames are searched from the most recent call
/// down, so a callee can observe a caller's still-live locals.
pub open spec fn lookup_stack(stack: Seq<Seq<(Seq<char>, Value)>>, name: Seq<char>) -> Option<
    Value,
>
    decreases stack.len(),
{
    if stack.len() == 0 {
        None
    } else {
        match lookup_frame(stack.last(), name) {
            Some(v) => Some(v),
            None => lookup_stack(stack.drop_last(), name),
        }
    }
}

/// The function registered under `name`; the most recent registration wins.
pub open spec fn lookup_registry(funcs: Seq<(Seq<char>, FunctionView)>, name: Seq<char>) -> Option<
    FunctionView,
>
    decreases funcs.len(),
{
    if funcs.len() == 0 {
        None
    } else if funcs.last().0 == name {
        Some(funcs.last().1)
    } else {
        lookup_registry(funcs.drop_last(), name)
    }
}

/// Assignment mutates the binding in the topmost frame that has one; when no
/// frame has one, it creates a binding in the current frame.
pub open spec fn assign_stack(
    stack: Seq<Seq<(Seq<char>, Value)>>,
    name: Seq<char>,
    v: Value,
) -> Seq<Seq<(Seq<char>, Value)>>
    decreases stack.len(),
{
    if stack.len() == 0 {
        stack
    } else if lookup_frame(stack.last(), name) is Some || lookup_stack(stack.drop_last(), name)
        is None {
        stack.drop_last().push(stack.last().push((name, v)))
    } else {
        assign_stack(stack.drop_last(), name, v).push(stack.last())
    }
}

/// Binding a declared variable adds it to the current (topmost) frame.
pub open spec fn bind_top(
    stack: Seq<Seq<(Seq<char>, Value)>>,
    name: Seq<char>,
    v: Value,
) -> Seq<Seq<(Seq<char>, Value)>> {
    stack.update(stack.len() - 1, stack.last().push((name, v)))
}

proof fn lemma_assign_stack_len(stack: Seq<Seq<(Seq<char>, Value)>>, name: Seq<char>, v: Value)
    ensures
        assign_stack(stack, name, v).len() == stack.len(),
    decreases stack.len(),
{
    if stack.len() > 0 {
        lemma_assign_stack_len(stack.drop_last(), name, v);
    }
}

// ---------------------------------------------------------------------------
// The meaning of the language, one construct at a time
// ---------------------------------------------------------------------------

/// What a literal evaluates to.  Integer literals are taken as 32-bit
/// two's-complement values.
pub open spec fn lit_value(lv: LiteralView) -> Result<Value, RtErr> {
    match lv {
        LiteralView::Integer(u) => Ok(Value::Number(u as i32)),
        LiteralView::Boolean(b) => Ok(Value::Boolean(b)),
        LiteralView::Character(c) => Ok(Value::Char(c)),
        LiteralView::Float(_) => Err(RtErr::UnsupportedLiteral),
    }
}

/// What a binary operator yields on two evaluated operands.  Arithmetic is
/// 32-bit two's-complement, division truncates toward zero, and division by
/// zero is an error.
pub open spec fn apply_binop(op: Operator, l: Value, r: Value) -> Result<Value, RtErr> {
    match (l, r) {
        (Value::Number(a), Value::Number(b)) => match op {
            Operator::Plus => Ok(Value::Number(a.wrapping_add(b))),
            Operator::Minus => Ok(Value::Number(a.wrapping_sub(b))),
            Operator::Multiply => Ok(Value::Number(a.wrapping_mul(b))),
            Operator::Divide => if b == 0 {
                Err(RtErr::DivisionByZero)
            } else {
                Ok(Value::Number(div_trunc_i32(a, b)))
            },
            Operator::Equals => Ok(Value::Boolean(a == b)),
            Operator::Different => Ok(Value::Boolean(a != b)),
            Operator::GreaterThan => Ok(Value::Boolean(a > b)),
            Operator::LesserThan => Ok(Value::Boolean(a < b)),
            Operator::GreaterEqual => Ok(Value::Boolean(a >= b)),
            Operator::LesserEqual => Ok(Value::Boolean(a <= b)),
            _ => Err(RtErr::UnsupportedOperator),
        },
        (Value::Boolean(a), Value::Boolean(b)) => match op {
            Operator::Equals => Ok(Value::Boolean(a == b)),
            Operator::Different => Ok(Value::Boolean(a != b)),
            Operator::And => Ok(Value::Boolean(a && b)),
            Operator::Or => Ok(Value::Boolean(a || b)),
            _ => Err(RtErr::UnsupportedOperator),
        },
        _ => Err(RtErr::TypeMismatch),
    }
}

/// How a value is written by the printing builtins.
pub open spec fn render_value(v: Value) -> Seq<char> {
    match v {
        Value::Number(n) => int_chars(n as int),
        Value::Boolean(b) => if b {
            "true"@
        } else {
            "false"@
        },
        Value::Char(c) => seq![c],
        Value::Nothing => Seq::empty(),
    }
}

/// What one builtin routine does: printing appends to the output, reading
/// consumes one input line (end of input reads as an absent line).
pub open spec fn spec_native(st: MachineView, nf: NativeFn, vals: Seq<Value>) -> (
    MachineView,
    Option<Value>,
) {
    match nf {
        NativeFn::PrintInt => {
            let out = if vals.len() > 0 {
                st.output + render_value(vals[0])
            } else {
                st.output
            };
            (MachineView { output: out, ..st }, None)
        },
        NativeFn::PrintLn => {
            let out = if vals.len() == 0 {
                st.output.push('\n')
            } else if vals[0] is Nothing {
                st.output
            } else {
                st.output + render_value(vals[0]).push('\n')
            };
            (MachineView { output: out, ..st }, None)
        },
        NativeFn::ReadInt => {
            if st.input.len() > 0 {
                let st2 = MachineView { input: st.input.skip(1), ..st };
                match spec_parse_i32(st.input[0]) {
                    Some(n) => (st2, Some(Value::Number(n))),
                    None => (st2, None),
                }
            } else {
                (st, None)
            }
        },
        NativeFn::ReadChar => {
            if st.input.len() > 0 {
                let st2 = MachineView { input: st.input.skip(1), ..st };
                if st.input[0].len() > 0 {
                    (st2, Some(Value::Char(st.input[0][0])))
                } else {
                    (st2, None)
                }
            } else {
                (st, None)
            }
        },
    }
}

/// The frame a call starts with: each parameter bound to its argument.
pub open spec fn params_frame(params: Seq<ParamView>, vals: Seq<Value>) -> Seq<
    (Seq<char>, Value),
> {
    Seq::new(params.len(), |i: int| (params[i].name, vals[i]))
}

/// What an expression evaluates to, and the state it leaves behind.  `fuel`
/// bounds the depth of nested calls.
pub open spec fn spec_eval_expr(st: MachineView, e: ExprView, fuel: nat) -> (
    MachineView,
    Result<Value, RtErr>,
)
    decreases fuel, depth_expr(e), 0int,
{
    match e {
        ExprView::Literal(lv) => (st, lit_value(lv)),
        ExprView::Ident(name) => (
            st,
            match lookup_stack(st.stack, name) {
                Some(v) => Ok(v),
                None => Err(RtErr::VariableNotFound(name)),
            },
        ),
        ExprView::Grouping(inner) => spec_eval_expr(st, *inner, fuel),
        ExprView::Unary { op, expr } => {
            let (st1, r) = spec_eval_expr(st, *expr, fuel);
            match r {
                Err(e) => (st1, Err(e)),
                Ok(v) => if op is Not {
                    match v {
                        Value::Boolean(b) => (st1, Ok(Value::Boolean(!b))),
                        _ => (st1, Err(RtErr::TypeMismatch)),
                    }
                } else {
                    (st1, Err(RtErr::UnsupportedOperator))
                },
            }
        },
        ExprView::Binary { left, op, right } => {
            let (st1, rl) = spec_eval_expr(st, *left, fuel);
            match rl {
                Err(e) => (st1, Err(e)),
                Ok(lv) => {
                    let (st2, rr) = spec_eval_expr(st1, *right, fuel);
                    match rr {
                        Err(e) => (st2, Err(e)),
                        Ok(rv) => (st2, apply_binop(op, lv, rv)),
                    }
                },
            }
        },
        ExprView::Call { callee, args } => {
            match *callee {
                ExprView::Ident(fname) => {
                    match lookup_registry(st.funcs, fname) {
                        None => (st, Err(RtErr::FunctionNotFound(fname))),
                        Some(f) => {
                            if args.len() != f.signature.params.len() {
                                (
                                    st,
                                    Err(
                                        RtErr::ArityMismatch {
                                            name: fname,
                                            expected: f.signature.params.len() as usize,
                                            got: args.len() as usize,
                                        },
                                    ),
                                )
                            } else {
                                let (st1, ra) = spec_eval_exprs(st, args, fuel);
                                match ra {
                                    Err(e) => (st1, Err(e)),
                                    Ok(vals) => if fuel == 0 {
                                        (st1, Err(RtErr::RecursionLimit))
                                    } else {
                                        spec_call(st1, f, vals, (fuel - 1) as nat)
                                    },
                                }
                            }
                        },
                    }
                },
                _ => (st, Err(RtErr::CalleeNotIdentifier)),
            }
        },
    }
}

/// Evaluate the arguments of a call, left to right.
pub open spec fn spec_eval_exprs(st: MachineView, args: Seq<ExprView>, fuel: nat) -> (
    MachineView,
    Result<Seq<Value>, RtErr>,
)
    decreases fuel, depth_exprs(args), 0int,
{
    if args.len() == 0 {
        (st, Ok(Seq::empty()))
    } else {
        let (st1, r) = spec_eval_expr(st, args[0], fuel);
        match r {
            Err(e) => (st1, Err(e)),
            Ok(v) => {
                let (st2, rr) = spec_eval_exprs(st1, args.skip(1), fuel);
                match rr {
                    Err(e) => (st2, Err(e)),
                    Ok(rest) => (st2, Ok(seq![v] + rest)),
                }
            },
        }
    }
}

/// Run a call on already-evaluated arguments: push a frame binding the
/// parameters, run the body (user statements, or a builtin routine), and pop
/// the frame again whatever happened, so the stack never leaks a frame.
pub open spec fn spec_call(st: MachineView, f: FunctionView, vals: Seq<Value>, fuel: nat) -> (
    MachineView,
    Result<Value, RtErr>,
)
    decreases fuel, depth_function(f), 0int,
{
    let frame = params_frame(f.signature.params, vals);
    let pushed = MachineView { stack: st.stack.push(frame), ..st };
    match f.body {
        BodyView::User(stmts) => {
            let (st2, r) = spec_eval_block(pushed, stmts, fuel);
            let popped = MachineView { stack: st2.stack.drop_last(), ..st2 };
            match r {
                Err(e) => (popped, Err(e)),
                Ok(Some(v)) => (popped, Ok(v)),
                Ok(None) => (popped, Ok(Value::Nothing)),
            }
        },
        BodyView::Native(nf) => {
            let (st2, rv) = spec_native(pushed, nf, vals);
            let popped = MachineView { stack: st2.stack.drop_last(), ..st2 };
            match rv {
                Some(v) => (popped, Ok(v)),
                None => (popped, Ok(Value::Nothing)),
            }
        },
    }
}

/// Run the statements of a block in order; the first statement that
/// produces a value supplies the block's result and stops it.
pub open spec fn spec_eval_block(st: MachineView, stmts: Seq<StmtView>, fuel: nat) -> (
    MachineView,
    Result<Option<Value>, RtErr>,
)
    decreases fuel, depth_stmts(stmts), 0int,
{
    if stmts.len() == 0 {
        (st, Ok(None))
    } else {
        let (st1, r) = spec_eval_stmt(st, stmts[0], fuel);
        match r {
            Err(e) => (st1, Err(e)),
            Ok(Some(v)) => (st1, Ok(Some(v))),
            Ok(None) => spec_eval_block(st1, stmts.skip(1), fuel),
        }
    }
}

/// What one statement does, and the value it produces, if any: a bare
/// expression or a `return` with an expression produces a value; everything
/// else produces none.
pub open spec fn spec_eval_stmt(st: MachineView, s: StmtView, fuel: nat) -> (
    MachineView,
    Result<Option<Value>, RtErr>,
)
    decreases fuel, depth_stmt(s), 0int,
{
    match s {
        StmtView::VarDecl { name, ty, init } => {
            let (st1, r) = spec_eval_expr(st, init, fuel);
            match r {
                Err(e) => (st1, Err(e)),
                Ok(v) => (MachineView { stack: bind_top(st1.stack, name, v), ..st1 }, Ok(None)),
            }
        },
        StmtView::Assignment { name, expr } => {
            let (st1, r) = spec_eval_expr(st, expr, fuel);
            match r {
                Err(e) => (st1, Err(e)),
                Ok(v) => (
                    MachineView { stack: assign_stack(st1.stack, name, v), ..st1 },
                    Ok(None),
                ),
            }
        },
        StmtView::Expr(e) => {
            let (st1, r) = spec_eval_expr(st, e, fuel);
            match r {
                Err(e) => (st1, Err(e)),
                Ok(v) => (st1, Ok(Some(v))),
            }
        },
        StmtView::FunctionDeclaration(_) => (st, Ok(None)),
        StmtView::Return(oe) => match oe {
            None => (st, Ok(None)),
            Some(e) => {
                let (st1, r) = spec_eval_expr(st, e, fuel);
                match r {
                    Err(e) => (st1, Err(e)),
                    Ok(v) => (st1, Ok(Some(v))),
                }
            },
        },
        StmtView::If { condition, then_branch, else_branch } => {
            let (st1, r) = spec_eval_expr(st, condition, fuel);
            match r {
                Err(e) => (st1, Err(e)),
                Ok(Value::Boolean(true)) => spec_eval_block(st1, then_branch, fuel),
                Ok(Value::Boolean(false)) => match else_branch {
                    Some(els) => spec_eval_block(st1, els, fuel),
                    None => (st1, Ok(None)),
                },
                Ok(_) => (st1, Err(RtErr::NonBooleanCondition)),
            }
        },
    }
}

/// Register every top-level function declaration into the registry, in
/// order; a later declaration of the same name wins.
pub open spec fn register_decls(
    funcs: Seq<(Seq<char>, FunctionView)>,
    stmts: Seq<StmtView>,
) -> Seq<(Seq<char>, FunctionView)>
    decreases stmts.len(),
{
    if stmts.len() == 0 {
        funcs
    } else {
        let prior = register_decls(funcs, stmts.drop_last());
        match stmts.last() {
            StmtView::FunctionDeclaration(f) => prior.push((f.signature.name, f)),
            _ => prior,
        }
    }
}

/// Run the top-level statements from index `i` on, collecting the values of
/// bare-expression statements.
pub open spec fn spec_run_top(st: MachineView, stmts: Seq<StmtView>, i: int, fuel: nat) -> (
    MachineView,
    Result<Seq<Value>, RtErr>,
)
    decreases stmts.len() - i,
{
    if !(0 <= i < stmts.len()) {
        (st, Ok(Seq::empty()))
    } else {
        let (st1, r) = spec_eval_stmt(st, stmts[i], fuel);
        match r {
            Err(e) => (st1, Err(e)),
            Ok(opt) => {
                let (st2, rr) = spec_run_top(st1, stmts, i + 1, fuel);
                match rr {
                    Err(e) => (st2, Err(e)),
                    Ok(rest) => (
                        st2,
                        Ok(
                            match opt {
                                Some(v) => seq![v] + rest,
                                None => rest,
                            },
                        ),
                    ),
                }
            },
        }
    }
}

/// What evaluating a whole program does: register the top-level function
/// declarations, then run the statements in order, collecting the values of
/// the bare-expression statements.
pub open spec fn spec_eval_program(st: MachineView, prog: Seq<StmtView>, fuel: nat) -> (
    MachineView,
    Result<Seq<Value>, RtErr>,
) {
    let st1 = MachineView { funcs: register_decls(st.funcs, prog), ..st };
    spec_run_top(st1, prog, 0, fuel)
}

/// The registry an interpreter starts with: the builtins, in order.
pub open spec fn builtin_registry() -> Seq<(Seq<char>, FunctionView)> {
    builtin_function_views().map(|_i: int, f: FunctionView| (f.signature.name, f))
}


// ---------------------------------------------------------------------------
// Small proofs about assignment
// ---------------------------------------------------------------------------

proof fn lemma_lookup_stack_none(sv: Seq<Seq<(Seq<char>, Value)>>, name: Seq<char>)
    requires
        forall|k: int| 0 <= k < sv.len() ==> lookup_frame(#[trigger] sv[k], name) is None,
    ensures
        lookup_stack(sv, name) is None,
    decreases sv.len(),
{
    if sv.len() > 0 {
        assert(sv.last() == sv[sv.len() - 1]);
        lemma_lookup_stack_none(sv.drop_last(), name);
    }
}

proof fn lemma_assign_at(
    sv: Seq<Seq<(Seq<char>, Value)>>,
    name: Seq<char>,
    v: Value,
    j: int,
)
    requires
        0 <= j < sv.len(),
        lookup_frame(sv[j], name) is Some,
        forall|k: int| j < k < sv.len() ==> lookup_frame(#[trigger] sv[k], name) is None,
    ensures
        assign_stack(sv, name, v) == sv.update(j, sv[j].push((name, v))),
    decreases sv.len(),
{
    if j == sv.len() - 1 {
        assert(assign_stack(sv, name, v) =~= sv.update(j, sv[j].push((name, v))));
    } else {
        let rest = sv.drop_last();
        assert(lookup_frame(sv.last(), name) is None);
        assert(rest[j] == sv[j]);
        lemma_assign_at(rest, name, v, j);
        assert(lookup_stack(rest, name) is Some) by {
            lemma_lookup_stack_some(rest, name, j);
        }
        assert(assign_stack(sv, name, v) == assign_stack(rest, name, v).push(sv.last()));
        assert(assign_stack(sv, name, v) =~= sv.update(j, sv[j].push((name, v))));
    }
}

proof fn lemma_lookup_stack_some(sv: Seq<Seq<(Seq<char>, Value)>>, name: Seq<char>, j: int)
    requires
        0 <= j < sv.len(),
        lookup_frame(sv[j], name) is Some,
    ensures
        lookup_stack(sv, name) is Some,
    decreases sv.len(),
{
    if j < sv.len() - 1 {
        lemma_lookup_stack_some(sv.drop_last(), name, j);
    } else {
        assert(sv.last() == sv[j]);
    }
}

proof fn lemma_assign_nowhere(sv: Seq<Seq<(Seq<char>, Value)>>, name: Seq<char>, v: Value)
    requires
        sv.len() >= 1,
        forall|k: int| 0 <= k < sv.len() ==> lookup_frame(#[trigger] sv[k], name) is None,
    ensures
        assign_stack(sv, name, v) == bind_top(sv, name, v),
{
    lemma_lookup_stack_none(sv.drop_last(), name);
    assert(assign_stack(sv, name, v) =~= bind_top(sv, name, v));
}

// ---------------------------------------------------------------------------
// The executable interpreter
// ---------------------------------------------------------------------------

/// Render a value the way the printing builtins write it.
pub fn render_value_chars(v: &Value) -> (r: Vec<char>)
    ensures
        r@ == render_value(*v),
{
    match v {
        Value::Number(n) => i32_to_chars(*n),
        Value::Boolean(b) => {
            if *b {
                let r = vec!['t', 'r', 'u', 'e'];
                proof {
                    reveal_strlit("true");
                    assert(r@ =~= "true"@);
                }
                r
            } else {
                let r = vec!['f', 'a', 'l', 's', 'e'];
                proof {
                    reveal_strlit("false");
                    assert(r@ =~= "false"@);
                }
                r
            }
        },
        Value::Char(c) => {
            let r = vec![*c];
            proof {
                assert(r@ =~= seq![*c]);
            }
            r
        },
        Value::Nothing => {
            let r: Vec<char> = Vec::new();
            proof {
                assert(r@ =~= Seq::<char>::empty());
            }
            r
        },
    }
}

impl Interpreter {
    /// The interpreter is sound to run: at least one live frame, and the
    /// input cursor inside the queue.
    pub closed spec fn wf(&self) -> bool {
        &&& self.stack@.len() >= 1
        &&& self.input_pos <= self.input@.len()
    }

    /// A fresh interpreter: one empty frame, the builtin registry, no input
    /// consumed and nothing written yet.
    pub fn new() -> (r: Interpreter)
        ensures
            r.wf(),
            r@.stack =~~= seq![Seq::<(Seq<char>, Value)>::empty()],
            r@.funcs =~= builtin_registry(),
            r@.input =~= Seq::<Seq<char>>::empty(),
            r@.output =~= Seq::<char>::empty(),
    {
        let builtins = load_std_functions();
        let mut functions: Vec<(String, Function)> = Vec::new();
        let mut i: usize = 0;
        while i < builtins.len()
            invariant
                i <= builtins@.len(),
                builtins@.len() == builtin_function_views().len(),
                forall|k: int|
                    0 <= k < builtins@.len() ==> #[trigger] builtins@[k]@
                        == builtin_function_views()[k],
                functions@.len() == i,
                forall|k: int|
                    0 <= k < i ==> #[trigger] functions@[k].0@ == builtin_registry()[k].0
                        && functions@[k].1@ == builtin_registry()[k].1,
            decreases builtins@.len() - i,
        {
            let name = clone_string(&builtins[i].signature.name);
            let func = clone_function(&builtins[i]);
            functions.push((name, func));
            i = i + 1;
        }
        let mut stack: Vec<StackFrame> = Vec::new();
        stack.push(StackFrame { vars: Vec::new() });
        let r = Interpreter { stack, functions, input: Vec::new(), input_pos: 0, output: Vec::new() };
        proof {
            assert(r@.stack =~~= seq![Seq::<(Seq<char>, Value)>::empty()]);
            assert(r@.funcs.len() == builtin_registry().len());

            let ghost reg = builtin_registry();
            assert forall|k: int| 0 <= k < r@.funcs.len() implies r@.funcs[k] == reg[k] by {
                assert(r@.funcs[k] == (functions@[k].0@, functions@[k].1@));
                assert(reg[k] == (
                    builtin_function_views()[k].signature.name,
                    builtin_function_views()[k],
                ));
            }
            assert(r@.funcs =~= reg);
            assert(r@.input =~= Seq::<Seq<char>>::empty());
        }
        r
    }

    /// Queue one line of input for the reading builtins.
    pub fn push_input_line(&mut self, line: String)
        requires
            old(self).wf(),
        ensures
            final(self).wf(),
            final(self)@ == (MachineView { input: old(self)@.input.push(line@), ..old(self)@ }),
    {
        self.input.push(line);
        proof {
            assert(self@.input =~= old(self)@.input.push(line@));
            assert(self@.stack =~= old(self)@.stack);
            assert(self@.funcs =~= old(self)@.funcs);
        }
    }

    /// Everything the program has written so far.
    pub fn output_chars(&self) -> (r: &Vec<char>)
        ensures
            r@ == self@.output,
    {
        &self.output
    }

    /// How many frames are live on the call stack.
    pub fn stack_depth(&self) -> (n: usize)
        ensures
            n == self@.stack.len(),
    {
        self.stack.len()
    }

    /// Surrender the output buffer.
    pub fn into_output(self) -> (r: Vec<char>)
        ensures
            r@ == self@.output,
    {
        self.output
    }

    /// Register a function under its own name; a later registration of the
    /// same name wins.
    pub fn register_function(&mut self, function: Function)
        requires
            old(self).wf(),
        ensures
            final(self).wf(),
            final(self)@ == (MachineView {
                funcs: old(self)@.funcs.push((function.signature.name@, function@)),
                ..old(self)@
            }),
    {
        let name = clone_string(&function.signature.name);
        self.functions.push((name, function));
        proof {
            assert(self@.funcs =~= old(self)@.funcs.push((function.signature.name@, function@)));
            assert(self@.stack =~= old(self)@.stack);
            assert(self@.input =~= old(self)@.input);
        }
    }

    /// The registered function under `name`, if any, as a fresh copy.
    fn lookup_function(&self, name: &String) -> (r: Option<Function>)
        ensures
            match (r, lookup_registry(self@.funcs, name@)) {
                (Some(f), Some(fv)) => f@ == fv,
                (None, None) => true,
                _ => false,
            },
    {
        let ghost fv = self@.funcs;
        proof {
            assert(fv.take(fv.len() as int) =~= fv);
        }
        let mut i: usize = self.functions.len();
        loop
            invariant
                i <= self.functions@.len(),
                fv == self@.funcs,
                fv.len() == self.functions@.len(),
                lookup_registry(fv.take(i as int), name@) == lookup_registry(fv, name@),
            ensures
                i == 0,
                lookup_registry(fv.take(0), name@) == lookup_registry(fv, name@),
            decreases i,
        {
            if i == 0 {
                break;
            }
            let entry = &self.functions[i - 1];
            proof {
                assert(fv[i - 1] == (entry.0@, entry.1@));
                assert(fv.take(i as int).last() == fv[i - 1]);
                assert(fv.take(i as int).drop_last() =~= fv.take(i - 1));
            }
            if entry.0 == *name {
                let f = clone_function(&entry.1);
                return Some(f);
            }
            i = i - 1;
        }
        proof {
            assert(fv.take(0) =~= Seq::<(Seq<char>, FunctionView)>::empty());
        }
        None
    }

    /// The value bound in one frame, most recent binding first.
    fn frame_lookup(frame: &StackFrame, name: &String) -> (r: Option<Value>)
        ensures
            r == lookup_frame(frame_view(*frame), name@),
    {
        let ghost fv = frame_view(*frame);
        proof {
            assert(fv.take(fv.len() as int) =~= fv);
        }
        let mut i: usize = frame.vars.len();
        loop
            invariant
                i <= frame.vars@.len(),
                fv == frame_view(*frame),
                fv.len() == frame.vars@.len(),
                lookup_frame(fv.take(i as int), name@) == lookup_frame(fv, name@),
            ensures
                i == 0,
                lookup_frame(fv.take(0), name@) == lookup_frame(fv, name@),
            decreases i,
        {
            if i == 0 {
                break;
            }
            let entry = &frame.vars[i - 1];
            proof {
                assert(fv[i - 1] == (entry.0@, entry.1));
                assert(fv.take(i as int).last() == fv[i - 1]);
                assert(fv.take(i as int).drop_last() =~= fv.take(i - 1));
            }
            if entry.0 == *name {
                return Some(entry.1);
            }
            i = i - 1;
        }
        proof {
            assert(fv.take(0) =~= Seq::<(Seq<char>, Value)>::empty());
        }
        None
    }

    /// Read a variable: frames are searched from the most recent call down,
    /// and the first binding found wins.
    pub fn lookup_var(&self, id: &str) -> (r: Result<Value, RuntimeError>)
        ensures
            match (r, lookup_stack(self@.stack, id@)) {
                (Ok(v), Some(sv)) => v == sv,
                (Err(e), None) => err_view(e) == RtErr::VariableNotFound(id@),
                _ => false,
            },
    {
        let key = String::from_str(id);
        let ghost sv = self@.stack;
        proof {
            assert(sv.take(sv.len() as int) =~= sv);
        }
        let mut j: usize = self.stack.len();
        loop
            invariant
                j <= self.stack@.len(),
                sv == self@.stack,
                sv.len() == self.stack@.len(),
                key@ == id@,
                lookup_stack(sv.take(j as int), key@) == lookup_stack(sv, key@),
            ensures
                j == 0,
                lookup_stack(sv.take(0), key@) == lookup_stack(sv, key@),
            decreases j,
        {
            if j == 0 {
                break;
            }
            let frame = &self.stack[j - 1];
            proof {
                assert(sv[j - 1] == frame_view(*frame));
                assert(sv.take(j as int).last() == sv[j - 1]);
                assert(sv.take(j as int).drop_last() =~= sv.take(j - 1));
            }
            match Self::frame_lookup(frame, &key) {
                Some(v) => {
                    return Ok(v);
                },
                None => {
                },
            }
            j = j - 1;
        }
        proof {
            assert(sv.take(0) =~= Seq::<Seq<(Seq<char>, Value)>>::empty());
        }
        Err(RuntimeError::VariableNotFound { name: key })
    }

    /// Add a binding to the current (topmost) frame.
    fn bind_top_frame(&mut self, name: String, v: Value)
        requires
            old(self).wf(),
        ensures
            final(self).wf(),
            final(self)@ == (MachineView {
                stack: bind_top(old(self)@.stack, name@, v),
                ..old(self)@
            }),
            final(self)@.stack.len() == old(self)@.stack.len(),
    {
        let j = self.stack.len() - 1;
        let mut frame = self.stack.remove(j);
        let ghost fr0 = frame;
        frame.vars.push((name, v));
        proof {
            assert(frame_view(frame) =~= frame_view(fr0).push((name@, v)));
        }
        self.stack.insert(j, frame);
        proof {
            assert(self.stack@ =~= old(self).stack@.update(j as int, frame));
            assert(self@.stack =~= bind_top(old(self)@.stack, name@, v));
            assert(self@.funcs =~= old(self)@.funcs);
            assert(self@.input =~= old(self)@.input);
            assert(self@ =~= (MachineView {
                stack: bind_top(old(self)@.stack, name@, v),
                ..old(self)@
            }));
        }
    }

    /// Assign to a variable: the topmost frame that has a binding is
    /// updated; when none has one, the current frame gains the binding.
    pub fn assign_var(&mut self, id: &str, value: Value)
        requires
            old(self).wf(),
        ensures
            final(self).wf(),
            final(self)@ == (MachineView {
                stack: assign_stack(old(self)@.stack, id@, value),
                ..old(self)@
            }),
            final(self)@.stack.len() == old(self)@.stack.len(),
    {
        let key = String::from_str(id);
        let ghost sv = self@.stack;
        proof {
            lemma_assign_stack_len(sv, id@, value);
        }
        let mut j: usize = self.stack.len();
        loop
            invariant
                self.wf(),
                j <= self.stack@.len(),
                *self == *old(self),
                sv == self@.stack,
                sv.len() == self.stack@.len(),
                key@ == id@,
                forall|k: int| j <= k < sv.len() ==> lookup_frame(#[trigger] sv[k], key@) is None,
            ensures
                self.wf(),
                *self == *old(self),
                sv == self@.stack,
                j == 0,
                forall|k: int| 0 <= k < sv.len() ==> lookup_frame(#[trigger] sv[k], key@) is None,
            decreases j,
        {
            if j == 0 {
                break;
            }
            let frame = &self.stack[j - 1];
            proof {
                assert(sv[j - 1] == frame_view(*frame));
            }
            match Self::frame_lookup(frame, &key) {
                Some(_) => {
                    proof {
                        lemma_assign_at(sv, key@, value, j - 1);
                    }
                    let ghost frame0 = frame_view(*frame);
                    let mut fr = self.stack.remove(j - 1);
                    let ghost fr0 = fr;
                    fr.vars.push((key, value));
                    proof {
                        assert(frame_view(fr) =~= frame_view(fr0).push((key@, value)));
                    }
                    self.stack.insert(j - 1, fr);
                    proof {
                        assert(self.stack@ =~= old(self).stack@.update(j - 1, fr));
                        assert(self@.stack =~= sv.update(j - 1, sv[j - 1].push((key@, value))));
                        assert(self@.funcs =~= old(self)@.funcs);
                        assert(self@.input =~= old(self)@.input);
                        assert(self@ =~= (MachineView {
                            stack: assign_stack(old(self)@.stack, id@, value),
                            ..old(self)@
                        }));
                    }
                    return ;
                },
                None => {
                },
            }
            j = j - 1;
        }
        proof {
            lemma_assign_nowhere(sv, key@, value);
        }
        self.bind_top_frame(key, value);
    }

    /// Append text to the output buffer.
    fn append_output(&mut self, chars: &Vec<char>)
        requires
            old(self).wf(),
        ensures
            final(self).wf(),
            final(self)@ == (MachineView { output: old(self)@.output + chars@, ..old(self)@ }),
    {
        let mut i: usize = 0;
        while i < chars.len()
            invariant
                self.wf(),
                i <= chars@.len(),
                self@.stack == old(self)@.stack,
                self@.funcs == old(self)@.funcs,
                self@.input == old(self)@.input,
                self@.output == old(self)@.output + chars@.take(i as int),
            decreases chars@.len() - i,
        {
            self.output.push(chars[i]);
            i = i + 1;
            proof {
                assert(self@.output =~= old(self)@.output + chars@.take(i as int));
            }
        }
        proof {
            assert(old(self)@.output + chars@.take(chars@.len() as int) =~= old(self)@.output
                + chars@);
            assert(self@ =~= (MachineView { output: old(self)@.output + chars@, ..old(self)@ }));
        }
    }

    /// Take the next input line, if any remains.
    fn next_input_line(&mut self) -> (r: Option<String>)
        requires
            old(self).wf(),
        ensures
            final(self).wf(),
            if old(self)@.input.len() > 0 {
                r is Some && r.unwrap()@ == old(self)@.input[0] && final(self)@ == (MachineView {
                    input: old(self)@.input.skip(1),
                    ..old(self)@
                })
            } else {
                r is None && final(self)@ == old(self)@
            },
    {
        if self.input_pos < self.input.len() {
            let line = clone_string(&self.input[self.input_pos]);
            self.input_pos = self.input_pos + 1;
            proof {
                assert(line@ == old(self)@.input[0]);
                assert(self@.input =~= old(self)@.input.skip(1));
                assert(self@.stack =~= old(self)@.stack);
                assert(self@.funcs =~= old(self)@.funcs);
            }
            Some(line)
        } else {
            proof {
                assert(self@.input.len() == 0);
            }
            None
        }
    }

    /// Run one builtin routine on already-evaluated arguments.
    fn run_native(&mut self, nf: NativeFn, vals: &Vec<Value>) -> (r: Option<Value>)
        requires
            old(self).wf(),
        ensures
            final(self).wf(),
            (final(self)@, r) == spec_native(old(self)@, nf, vals@),
            final(self)@.stack == old(self)@.stack,
    {
        match nf {
            NativeFn::PrintInt => {
                if vals.len() > 0 {
                    let chars = render_value_chars(&vals[0]);
                    self.append_output(&chars);
                } else {
                    proof {
                        assert(old(self)@ =~= (MachineView {
                            output: old(self)@.output,
                            ..old(self)@
                        }));
                    }
                }
                None
            },
            NativeFn::PrintLn => {
                if vals.len() == 0 {
                    let nl = vec!['\n'];
                    proof {
                        assert(nl@ =~= old(self)@.output.push('\n').skip(
                            old(self)@.output.len() as int,
                        ));
                        assert(old(self)@.output + nl@ =~= old(self)@.output.push('\n'));
                    }
                    self.append_output(&nl);
                    None
                } else {
                    let first = vals[0];
                    match first {
                        Value::Nothing => {
                            proof {
                                assert(old(self)@ =~= (MachineView {
                                    output: old(self)@.output,
                                    ..old(self)@
                                }));
                            }
                            None
                        },
                        v => {
                            let mut chars = render_value_chars(&v);
                            chars.push('\n');
                            proof {
                                assert(chars@ =~= render_value(vals@[0]).push('\n'));
                                assert(old(self)@.output + render_value(vals@[0]).push('\n')
                                    =~= old(self)@.output + chars@);
                            }
                            self.append_output(&chars);
                            None
                        },
                    }
                }
            },
            NativeFn::ReadInt => {
                match self.next_input_line() {
                    Some(line) => {
                        let chars = chars_of_str(line.as_str());
                        match parse_i32_chars(&chars) {
                            Some(n) => Some(Value::Number(n)),
                            None => None,
                        }
                    },
                    None => None,
                }
            },
            NativeFn::ReadChar => {
                match self.next_input_line() {
                    Some(line) => {
                        let sl = line.as_str();
                        if sl.unicode_len() > 0 {
                            Some(Value::Char(sl.get_char(0)))
                        } else {
                            None
                        }
                    },
                    None => None,
                }
            },
        }
    }
}


// ---------------------------------------------------------------------------
// Result correspondence
// ---------------------------------------------------------------------------

pub open spec fn val_res(r: Result<Value, RuntimeError>, sr: Result<Value, RtErr>) -> bool {
    match (r, sr) {
        (Ok(v), Ok(sv)) => v == sv,
        (Err(e), Err(se)) => err_view(e) == se,
        _ => false,
    }
}

pub open spec fn opt_res(r: Result<Option<Value>, RuntimeError>, sr: Result<
    Option<Value>,
    RtErr,
>) -> bool {
    match (r, sr) {
        (Ok(v), Ok(sv)) => v == sv,
        (Err(e), Err(se)) => err_view(e) == se,
        _ => false,
    }
}

/// What calling a function by name does: resolve it, check the arity, then
/// run the call.
pub open spec fn spec_call_function(
    st: MachineView,
    name: Seq<char>,
    vals: Seq<Value>,
    fuel: nat,
) -> (MachineView, Result<Value, RtErr>) {
    match lookup_registry(st.funcs, name) {
        None => (st, Err(RtErr::FunctionNotFound(name))),
        Some(f) => if vals.len() != f.signature.params.len() {
            (
                st,
                Err(
                    RtErr::ArityMismatch {
                        name: name,
                        expected: f.signature.params.len() as usize,
                        got: vals.len() as usize,
                    },
                ),
            )
        } else {
            spec_call(st, f, vals, fuel)
        },
    }
}

/// One binary operation on evaluated operands.
fn apply_binop_exec(op: Operator, l: Value, r: Value) -> (res: Result<Value, RuntimeError>)
    ensures
        match (res, apply_binop(op, l, r)) {
            (Ok(v), Ok(sv)) => v == sv,
            (Err(e), Err(se)) => err_view(e) == se,
            _ => false,
        },
{
    match (l, r) {
        (Value::Number(a), Value::Number(b)) => match op {
            Operator::Plus => Ok(Value::Number(a.wrapping_add(b))),
            Operator::Minus => Ok(Value::Number(a.wrapping_sub(b))),
            Operator::Multiply => Ok(Value::Number(a.wrapping_mul(b))),
            Operator::Divide => {
                if b == 0 {
                    Err(RuntimeError::DivisionByZero)
                } else {
                    Ok(Value::Number(div_trunc(a, b)))
                }
            },
            Operator::Equals => Ok(Value::Boolean(a == b)),
            Operator::Different => Ok(Value::Boolean(a != b)),
            Operator::GreaterThan => Ok(Value::Boolean(a > b)),
            Operator::LesserThan => Ok(Value::Boolean(a < b)),
            Operator::GreaterEqual => Ok(Value::Boolean(a >= b)),
            Operator::LesserEqual => Ok(Value::Boolean(a <= b)),
            _ => Err(RuntimeError::UnsupportedOperator),
        },
        (Value::Boolean(a), Value::Boolean(b)) => match op {
            Operator::Equals => Ok(Value::Boolean(a == b)),
            Operator::Different => Ok(Value::Boolean(a != b)),
            Operator::And => Ok(Value::Boolean(a && b)),
            Operator::Or => Ok(Value::Boolean(a || b)),
            _ => Err(RuntimeError::UnsupportedOperator),
        },
        _ => Err(RuntimeError::TypeMismatch),
    }
}

impl Interpreter {
    /// Evaluate one expression.  The state moves exactly as the language's
    /// meaning (`spec_eval_expr`) says, and the stack keeps its depth
    /// whether the evaluation succeeds or fails.
    pub fn eval_expr(&mut self, e: &Expr, fuel: u64) -> (r: Result<Value, RuntimeError>)
        requires
            old(self).wf(),
        ensures
            final(self).wf(),
            final(self)@.stack.len() == old(self)@.stack.len(),
            ({
                let (st2, rr) = spec_eval_expr(old(self)@, e@, fuel as nat);
                final(self)@ == st2 && val_res(r, rr)
            }),
        decreases fuel, depth_expr(e@), 0int,
    {
        match e {
            Expr::Literal(lit) => match lit {
                Literal::Integer(u) => Ok(Value::Number(#[verifier::truncate] (*u as i32))),
                Literal::Boolean(b) => Ok(Value::Boolean(*b)),
                Literal::Character(c) => Ok(Value::Char(*c)),
                Literal::Float(_) => Err(RuntimeError::UnsupportedLiteral),
            },
            Expr::Ident(id) => self.lookup_var(id.as_str()),
            Expr::Grouping(inner) => self.eval_expr(inner, fuel),
            Expr::Unary { op, expr } => {
                match self.eval_expr(expr, fuel) {
                    Err(e2) => Err(e2),
                    Ok(v) => {
                        if matches!(op, Operator::Not) {
                            match v {
                                Value::Boolean(b) => Ok(Value::Boolean(!b)),
                                _ => Err(RuntimeError::TypeMismatch),
                            }
                        } else {
                            Err(RuntimeError::UnsupportedOperator)
                        }
                    },
                }
            },
            Expr::Binary { left, op, right } => {
                match self.eval_expr(left, fuel) {
                    Err(e2) => Err(e2),
                    Ok(lv) => match self.eval_expr(right, fuel) {
                        Err(e2) => Err(e2),
                        Ok(rv) => apply_binop_exec(*op, lv, rv),
                    },
                }
            },
            Expr::Call { callee, args } => {
                let fname = match &**callee {
                    Expr::Ident(n) => n,
                    _ => {
                        return Err(RuntimeError::CalleeNotIdentifier);
                    },
                };
                proof {
                    assert((**callee)@ == ExprView::Ident(fname@));
                    lemma_exprs_view_from(*args, 0);
                }
                let f = match self.lookup_function(fname) {
                    Some(f) => f,
                    None => {
                        return Err(
                            RuntimeError::FunctionNotFound { name: clone_string(fname) },
                        );
                    },
                };
                proof {
                    assert(f@.signature.params.len() == f.signature.parameters@.len());
                }
                if args.len() != f.signature.parameters.len() {
                    return Err(
                        RuntimeError::ArityMismatch {
                            name: clone_string(fname),
                            expected: f.signature.parameters.len(),
                            got: args.len(),
                        },
                    );
                }
                let vals = match self.eval_exprs(args, fuel) {
                    Ok(vals) => vals,
                    Err(e2) => {
                        return Err(e2);
                    },
                };
                if fuel == 0 {
                    return Err(RuntimeError::RecursionLimit);
                }
                self.run_call(&f, vals, fuel - 1)
            },
        }
    }

    /// Evaluate a call's arguments, left to right.
    fn eval_exprs(&mut self, args: &Vec<Expr>, fuel: u64) -> (r: Result<Vec<Value>, RuntimeError>)
        requires
            old(self).wf(),
        ensures
            final(self).wf(),
            final(self)@.stack.len() == old(self)@.stack.len(),
            ({
                let (st2, rr) = spec_eval_exprs(old(self)@, exprs_view(*args), fuel as nat);
                final(self)@ == st2 && match (r, rr) {
                    (Ok(v), Ok(sv)) => v@ == sv && v@.len() == args@.len(),
                    (Err(e), Err(se)) => err_view(e) == se,
                    _ => false,
                }
            }),
        decreases fuel, depth_exprs(exprs_view(*args)), 1int,
    {
        let ghost argsv = exprs_view(*args);
        let ghost st0 = self@;
        proof {
            lemma_exprs_view_from(*args, 0);
            assert(argsv.skip(0) =~= argsv);
            assert forall|rest: Seq<Value>|
                true implies Seq::<Value>::empty() + rest =~= rest by {}
        }
        let mut vals: Vec<Value> = Vec::new();
        let mut i: usize = 0;
        while i < args.len()
            invariant
                self.wf(),
                i <= args@.len(),
                st0 == old(self)@,
                argsv == exprs_view(*args),
                argsv.len() == args@.len(),
                st0.stack.len() == self@.stack.len(),
                vals@.len() == i,
                spec_eval_exprs(st0, argsv, fuel as nat) == (match spec_eval_exprs(
                    self@,
                    argsv.skip(i as int),
                    fuel as nat,
                ) {
                    (st2, Ok(rest)) => (st2, Ok::<Seq<Value>, RtErr>(vals@ + rest)),
                    (st2, Err(e2)) => (st2, Err(e2)),
                }),
            decreases args@.len() - i,
        {
            proof {
                lemma_depth_exprs_element(argsv, i as int);
                lemma_exprs_view_from(*args, 0);
                assert(argsv.skip(i as int)[0] == argsv[i as int]);
            }
            let ghost pre = self@;
            let ghost vals0 = vals@;
            match self.eval_expr(&args[i], fuel) {
                Ok(v) => {
                    vals.push(v);
                    i = i + 1;
                    proof {
                        assert(argsv.skip(i - 1).skip(1) =~= argsv.skip(i as int));
                        assert forall|rest: Seq<Value>|
                            true implies vals0 + (seq![v] + rest) =~= vals@ + rest by {
                            assert(vals@ == vals0.push(v));
                        }
                    }
                },
                Err(e2) => {
                    proof {
                        assert(argsv.skip(i as int).len() > 0);
                    }
                    return Err(e2);
                },
            }
        }
        proof {
            assert(argsv.skip(i as int) =~= Seq::<ExprView>::empty());
            assert(vals@ + Seq::<Value>::empty() =~= vals@);
        }
        Ok(vals)
    }

    /// Run a call on already-evaluated arguments: push a frame binding the
    /// parameters, run the body, and pop the frame again whatever happened.
    fn run_call(&mut self, f: &Function, vals: Vec<Value>, fuel: u64) -> (r: Result<
        Value,
        RuntimeError,
    >)
        requires
            old(self).wf(),
            vals@.len() == f.signature.parameters@.len(),
        ensures
            final(self).wf(),
            final(self)@.stack.len() == old(self)@.stack.len(),
            ({
                let (st2, rr) = spec_call(old(self)@, f@, vals@, fuel as nat);
                final(self)@ == st2 && val_res(r, rr)
            }),
        decreases fuel, depth_function(f@), 0int,
    {
        let ghost st0 = self@;
        let ghost frame_spec = params_frame(f@.signature.params, vals@);
        let mut fvars: Vec<(String, Value)> = Vec::new();
        let mut k: usize = 0;
        while k < f.signature.parameters.len()
            invariant
                k <= f.signature.parameters@.len(),
                vals@.len() == f.signature.parameters@.len(),
                frame_spec == params_frame(f@.signature.params, vals@),
                f@.signature.params.len() == f.signature.parameters@.len(),
                fvars@.len() == k,
                forall|q: int|
                    0 <= q < k ==> (#[trigger] fvars@[q].0@, fvars@[q].1) == frame_spec[q],
            decreases f.signature.parameters@.len() - k,
        {
            let pname = clone_string(&f.signature.parameters[k].parameter_name);
            fvars.push((pname, vals[k]));
            k = k + 1;
        }
        let frame = StackFrame { vars: fvars };
        proof {
            assert(frame_view(frame) =~= frame_spec);
        }
        self.stack.push(frame);
        proof {
            assert(self@.stack =~= st0.stack.push(frame_spec));
            assert(self@.funcs =~= st0.funcs);
            assert(self@.input =~= st0.input);
            assert(self@ =~= (MachineView { stack: st0.stack.push(frame_spec), ..st0 }));
        }
        let result: Result<Option<Value>, RuntimeError> = match &f.body {
            FunctionBody::UserDefinedBody(stmts) => self.eval_block(stmts, fuel),
            FunctionBody::NativeBody(nf) => {
                let rv = self.run_native(*nf, &vals);
                Ok(rv)
            },
        };
        let ghost before_pop = self@;
        self.stack.pop();
        proof {
            assert(self@.stack =~= before_pop.stack.drop_last());
            assert(self@.funcs =~= before_pop.funcs);
            assert(self@.input =~= before_pop.input);
            assert(self@ =~= (MachineView { stack: before_pop.stack.drop_last(), ..before_pop }));
        }
        match result {
            Ok(Some(v)) => Ok(v),
            Ok(None) => Ok(Value::Nothing),
            Err(e2) => Err(e2),
        }
    }

    /// Run the statements of a block in order; the first statement that
    /// produces a value supplies the block's result and stops it.
    fn eval_block(&mut self, stmts: &Vec<Statement>, fuel: u64) -> (r: Result<
        Option<Value>,
        RuntimeError,
    >)
        requires
            old(self).wf(),
        ensures
            final(self).wf(),
            final(self)@.stack.len() == old(self)@.stack.len(),
            ({
                let (st2, rr) = spec_eval_block(old(self)@, stmts_view(*stmts), fuel as nat);
                final(self)@ == st2 && opt_res(r, rr)
            }),
        decreases fuel, depth_stmts(stmts_view(*stmts)), 1int,
    {
        let ghost sv = stmts_view(*stmts);
        let ghost st0 = self@;
        proof {
            lemma_stmts_view_from(*stmts, 0);
            assert(sv.skip(0) =~= sv);
        }
        let mut i: usize = 0;
        while i < stmts.len()
            invariant
                self.wf(),
                i <= stmts@.len(),
                st0 == old(self)@,
                sv == stmts_view(*stmts),
                sv.len() == stmts@.len(),
                st0.stack.len() == self@.stack.len(),
                spec_eval_block(st0, sv, fuel as nat) == spec_eval_block(
                    self@,
                    sv.skip(i as int),
                    fuel as nat,
                ),
            decreases stmts@.len() - i,
        {
            proof {
                lemma_depth_stmts_element(sv, i as int);
                lemma_stmts_view_from(*stmts, 0);
                assert(sv.skip(i as int)[0] == sv[i as int]);
            }
            match self.eval_statement(&stmts[i], fuel) {
                Ok(Some(v)) => {
                    proof {
                        assert(sv.skip(i as int).len() > 0);
                    }
                    return Ok(Some(v));
                },
                Ok(None) => {
                    i = i + 1;
                    proof {
                        assert(sv.skip(i - 1).skip(1) =~= sv.skip(i as int));
                    }
                },
                Err(e2) => {
                    proof {
                        assert(sv.skip(i as int).len() > 0);
                    }
                    return Err(e2);
                },
            }
        }
        proof {
            assert(sv.skip(i as int) =~= Seq::<StmtView>::empty());
        }
        Ok(None)
    }

    /// Execute one statement.  A bare expression or a `return` with an
    /// expression produces a value; everything else produces none.
    pub fn eval_statement(&mut self, s: &Statement, fuel: u64) -> (r: Result<
        Option<Value>,
        RuntimeError,
    >)
        requires
            old(self).wf(),
        ensures
            final(self).wf(),
            final(self)@.stack.len() == old(self)@.stack.len(),
            ({
                let (st2, rr) = spec_eval_stmt(old(self)@, s@, fuel as nat);
                final(self)@ == st2 && opt_res(r, rr)
            }),
        decreases fuel, depth_stmt(s@), 0int,
    {
        match s {
            Statement::VarDecl(d) => {
                match self.eval_expr(&d.expr, fuel) {
                    Err(e2) => Err(e2),
                    Ok(v) => {
                        self.bind_top_frame(clone_string(&d.identifier), v);
                        Ok(None)
                    },
                }
            },
            Statement::Assignment { identifier, expr } => {
                match self.eval_expr(expr, fuel) {
                    Err(e2) => Err(e2),
                    Ok(v) => {
                        self.assign_var(identifier.as_str(), v);
                        Ok(None)
                    },
                }
            },
            Statement::Expr(e) => {
                match self.eval_expr(e, fuel) {
                    Err(e2) => Err(e2),
                    Ok(v) => Ok(Some(v)),
                }
            },
            Statement::FunctionDeclaration(_) => Ok(None),
            Statement::Return(oe) => match oe {
                None => Ok(None),
                Some(e) => match self.eval_expr(e, fuel) {
                    Err(e2) => Err(e2),
                    Ok(v) => Ok(Some(v)),
                },
            },
            Statement::If { condition, then_branch, else_branch } => {
                match self.eval_expr(condition, fuel) {
                    Err(e2) => Err(e2),
                    Ok(Value::Boolean(true)) => self.eval_block(then_branch, fuel),
                    Ok(Value::Boolean(false)) => match else_branch {
                        Some(els) => self.eval_block(els, fuel),
                        None => Ok(None),
                    },
                    Ok(_) => Err(RuntimeError::NonBooleanCondition),
                }
            },
        }
    }

    /// Declare a variable: evaluate the initializer and bind the name in the
    /// current frame.
    pub fn eval_decl(&mut self, decl: &VarDecl, fuel: u64) -> (r: Result<(), RuntimeError>)
        requires
            old(self).wf(),
        ensures
            final(self).wf(),
            final(self)@.stack.len() == old(self)@.stack.len(),
            ({
                let (st1, rr) = spec_eval_expr(old(self)@, decl.expr@, fuel as nat);
                match (r, rr) {
                    (Ok(u), Ok(v)) => final(self)@ == (MachineView {
                        stack: bind_top(st1.stack, decl.identifier@, v),
                        ..st1
                    }),
                    (Err(e2), Err(se)) => err_view(e2) == se && final(self)@ == st1,
                    _ => false,
                }
            }),
    {
        match self.eval_expr(&decl.expr, fuel) {
            Err(e2) => Err(e2),
            Ok(v) => {
                self.bind_top_frame(clone_string(&decl.identifier), v);
                Ok(())
            },
        }
    }

    /// Call a registered function by name on already-evaluated arguments.
    pub fn call_function(&mut self, name: &str, args: &[Value]) -> (r: Result<
        Value,
        RuntimeError,
    >)
        requires
            old(self).wf(),
        ensures
            final(self).wf(),
            final(self)@.stack.len() == old(self)@.stack.len(),
            ({
                let (st2, rr) = spec_call_function(
                    old(self)@,
                    name@,
                    args@,
                    MAX_CALL_DEPTH as nat,
                );
                final(self)@ == st2 && val_res(r, rr)
            }),
    {
        let key = String::from_str(name);
        let f = match self.lookup_function(&key) {
            Some(f) => f,
            None => {
                return Err(RuntimeError::FunctionNotFound { name: key });
            },
        };
        if args.len() != f.signature.parameters.len() {
            return Err(
                RuntimeError::ArityMismatch {
                    name: key,
                    expected: f.signature.parameters.len(),
                    got: args.len(),
                },
            );
        }
        let mut vals: Vec<Value> = Vec::new();
        let mut k: usize = 0;
        while k < args.len()
            invariant
                k <= args@.len(),
                vals@ == args@.take(k as int),
            decreases args@.len() - k,
        {
            vals.push(args[k]);
            k = k + 1;
            proof {
                assert(vals@ =~= args@.take(k as int));
            }
        }
        proof {
            assert(args@.take(args@.len() as int) =~= args@);
        }
        self.run_call(&f, vals, MAX_CALL_DEPTH)
    }

    /// Evaluate a whole program for its effects alone, discarding the values
    /// of its bare-expression statements.
    pub fn eval_ast(&mut self, ast: &Ast) -> (r: Result<(), RuntimeError>)
        requires
            old(self).wf(),
        ensures
            final(self).wf(),
            ({
                let (st2, rr) = spec_eval_program(
                    old(self)@,
                    ast@.statements,
                    MAX_CALL_DEPTH as nat,
                );
                final(self)@ == st2 && match (r, rr) {
                    (Ok(u), Ok(_)) => true,
                    (Err(e2), Err(se)) => err_view(e2) == se,
                    _ => false,
                }
            }),
    {
        match self.eval(ast) {
            Ok(_) => Ok(()),
            Err(e2) => Err(e2),
        }
    }

    /// Evaluate a whole program: register its top-level function
    /// declarations, then run its statements in order, collecting the values
    /// of the bare-expression statements.  A runtime error aborts the run
    /// and is surfaced to the caller.
    pub fn eval(&mut self, ast: &Ast) -> (r: Result<Vec<Value>, RuntimeError>)
        requires
            old(self).wf(),
        ensures
            final(self).wf(),
            ({
                let (st2, rr) = spec_eval_program(
                    old(self)@,
                    ast@.statements,
                    MAX_CALL_DEPTH as nat,
                );
                final(self)@ == st2 && match (r, rr) {
                    (Ok(v), Ok(sv)) => v@ == sv,
                    (Err(e2), Err(se)) => err_view(e2) == se,
                    _ => false,
                }
            }),
    {
        let ghost sv = ast@.statements;
        let ghost st0 = self@;
        proof {
            lemma_stmts_view_from(ast.statements, 0);
        }
        let stmts = &ast.statements;
        let mut i: usize = 0;
        while i < stmts.len()
            invariant
                self.wf(),
                i <= stmts@.len(),
                st0 == old(self)@,
                sv == stmts_view(*stmts),
                sv == ast@.statements,
                sv.len() == stmts@.len(),
                self@ == (MachineView { funcs: register_decls(st0.funcs, sv.take(i as int)), ..st0 }),
            decreases stmts@.len() - i,
        {
            proof {
                lemma_stmts_view_from(*stmts, 0);
                assert(sv.take(i + 1).drop_last() =~= sv.take(i as int));
                assert(sv.take(i + 1).last() == sv[i as int]);
            }
            match &stmts[i] {
                Statement::FunctionDeclaration(fd) => {
                    let fc = clone_function(fd);
                    self.register_function(fc);
                },
                _ => {
                },
            }
            i = i + 1;
        }
        proof {
            assert(sv.take(sv.len() as int) =~= sv);
        }
        let ghost st_reg = self@;
        proof {
            assert forall|rest: Seq<Value>|
                true implies Seq::<Value>::empty() + rest =~= rest by {}
        }
        let mut results: Vec<Value> = Vec::new();
        let mut j: usize = 0;
        while j < stmts.len()
            invariant
                self.wf(),
                j <= stmts@.len(),
                sv == stmts_view(*stmts),
                sv == ast@.statements,
                sv.len() == stmts@.len(),
                st_reg == (MachineView {
                    funcs: register_decls(old(self)@.funcs, sv),
                    ..old(self)@
                }),
                spec_run_top(st_reg, sv, 0, MAX_CALL_DEPTH as nat) == (match spec_run_top(
                    self@,
                    sv,
                    j as int,
                    MAX_CALL_DEPTH as nat,
                ) {
                    (st2, Ok(rest)) => (st2, Ok::<Seq<Value>, RtErr>(results@ + rest)),
                    (st2, Err(e2)) => (st2, Err(e2)),
                }),
            decreases stmts@.len() - j,
        {
            proof {
                lemma_stmts_view_from(*stmts, 0);
            }
            let ghost res0 = results@;
            match self.eval_statement(&stmts[j], MAX_CALL_DEPTH) {
                Err(e2) => {
                    return Err(e2);
                },
                Ok(Some(v)) => {
                    results.push(v);
                    j = j + 1;
                    proof {
                        assert forall|rest: Seq<Value>|
                            true implies res0 + (seq![v] + rest) =~= results@ + rest by {
                            assert(results@ == res0.push(v));
                        }
                    }
                },
                Ok(None) => {
                    j = j + 1;
                },
            }
        }
        proof {
            assert(results@ + Seq::<Value>::empty() =~= results@);
        }
        Ok(results)
    }
}

} // verus!
