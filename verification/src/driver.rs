use vstd::prelude::*;
use crate::ast::{clone_function, Ast};
use crate::interpreter::{builtin_registry, lookup_registry, register_decls, spec_call_function,
    spec_eval_program, Interpreter, MachineView, RtErr, RuntimeError, Value, MAX_CALL_DEPTH};
use crate::lexer::{spec_tokenize, LexError, Lexer};
use crate::parser::{spec_parse_program, ParseError, Parser};
use crate::token::{tokens_view, Token};
use crate::type_checker::{builtin_signatures, spec_check_program, errors_view, TypeChecker,
    TypeCheckerError};

verus! {

/// Lex a whole source text into tokens, or fail on the first malformed
/// numeric literal.
pub fn run_lexer(src: &str) -> (r: Result<Vec<Token>, LexError>)
    requires
        src@.len() < usize::MAX,
    ensures
        match (r, spec_tokenize(src@, 0)) {
            (Ok(v), Ok(sv)) => tokens_view(v@) == sv,
            (Err(e), Err(se)) => e == se,
            _ => false,
        },
{
    let mut lexer = Lexer::new(src);
    lexer.tokenize()
}

/// Parse a token stream into a program, or halt at the first positioned
/// syntax error.
pub fn run_parser(tokens: Vec<Token>, filename: String, source: String) -> (r: Result<
    Ast,
    ParseError,
>)
    requires
        tokens@.len() < usize::MAX,
        source@.len() < usize::MAX,
    ensures
        match (r, spec_parse_program(tokens_view(tokens@))) {
            (Ok(ast), Ok(stmtsv)) => ast@.statements == stmtsv,
            (Err(e), Err(se)) => e.line == se.line && e.column == se.column && e.message@ == se.msg
                && e.filename@ == filename@,
            _ => false,
        },
{
    let mut parser = Parser::new(tokens, filename, source);
    parser.parse_program()
}

/// Type-check a program against a fresh checker seeded with the builtin
/// signatures, reporting every violation.
pub fn run_type_checking(ast: &Ast) -> (r: Vec<TypeCheckerError>)
    ensures
        ({
            let (venv2, fenv2, errs) = spec_check_program(
                Seq::empty(),
                builtin_signatures(),
                ast@.statements,
            );
            errors_view(r@) == errs
        }),
{
    let mut checker = TypeChecker::new();
    checker.check_ast(ast)
}

/// Evaluate a program on a fresh interpreter with the given input lines.
/// Returns the values of the top-level bare-expression statements (or the
/// first runtime error), and everything the program wrote.
pub fn run_interpreter(ast: &Ast, input: Vec<String>) -> (r: (
    Result<Vec<Value>, RuntimeError>,
    Vec<char>,
))
    ensures
        ({
            let st0 = MachineView {
                stack: seq![Seq::empty()],
                funcs: builtin_registry(),
                input: input@.map(|_i: int, l: String| l@),
                output: Seq::empty(),
            };
            let (st2, rr) = spec_eval_program(st0, ast@.statements, MAX_CALL_DEPTH as nat);
            r.1@ == st2.output && match (r.0, rr) {
                (Ok(v), Ok(sv)) => v@ == sv,
                (Err(e), Err(se)) => crate::interpreter::err_view(e) == se,
                _ => false,
            }
        }),
{
    let mut interpreter = Interpreter::new();
    let mut k: usize = 0;
    let ghost linesv = input@.map(|_i: int, l: String| l@);
    while k < input.len()
        invariant
            k <= input@.len(),
            linesv == input@.map(|_i: int, l: String| l@),
            interpreter.wf(),
            interpreter@.stack =~= seq![Seq::<(Seq<char>, Value)>::empty()],
            interpreter@.funcs =~= builtin_registry(),
            interpreter@.output =~= Seq::<char>::empty(),
            interpreter@.input =~= linesv.take(k as int),
        decreases input@.len() - k,
    {
        let line = crate::text::clone_string(&input[k]);
        interpreter.push_input_line(line);
        k = k + 1;
        proof {
            assert(interpreter@.input =~= linesv.take(k as int));
        }
    }
    proof {
        assert(linesv.take(linesv.len() as int) =~= linesv);
        assert(interpreter@ =~= (MachineView {
            stack: seq![Seq::empty()],
            funcs: builtin_registry(),
            input: linesv,
            output: Seq::empty(),
        }));
    }
    let result = interpreter.eval(ast);
    let output = interpreter.into_output();
    (result, output)
}

/// Run a named function of the program as the entry point, with no
/// arguments.  Only a function the program itself declares may serve as the
/// entry point; any other name is refused, builtins included.  Every
/// top-level function declaration is registered before the call.
pub fn run_entry(ast: &Ast, function_name: &str) -> (r: Result<Vec<Value>, RuntimeError>)
    ensures
        ({
            let declared = lookup_registry(
                register_decls(Seq::empty(), ast@.statements),
                function_name@,
            );
            if declared is None {
                match r {
                    Err(e) => crate::interpreter::err_view(e) == RtErr::FunctionNotFound(
                        function_name@,
                    ),
                    _ => false,
                }
            } else {
                let st0 = MachineView {
                    stack: seq![Seq::empty()],
                    funcs: register_decls(builtin_registry(), ast@.statements),
                    input: Seq::empty(),
                    output: Seq::empty(),
                };
                let (st2, rr) = spec_call_function(
                    st0,
                    function_name@,
                    Seq::empty(),
                    MAX_CALL_DEPTH as nat,
                );
                match (r, rr) {
                    (Ok(v), Ok(sv)) => v@ =~= seq![sv],
                    (Err(e), Err(se)) => crate::interpreter::err_view(e) == se,
                    _ => false,
                }
            }
        }),
{
    let key = String::from_str(function_name);
    let ghost sv = ast@.statements;
    proof {
        crate::ast::lemma_stmts_view_from(ast.statements, 0);
    }
    let stmts = &ast.statements;

    // the entry point must be one of the program's own declarations
    let mut declared = false;
    let mut j: usize = 0;
    while j < stmts.len()
        invariant
            j <= stmts@.len(),
            key@ == function_name@,
            sv == crate::ast::stmts_view(*stmts),
            sv == ast@.statements,
            sv.len() == stmts@.len(),
            declared == (lookup_registry(
                register_decls(Seq::empty(), sv.take(j as int)),
                function_name@,
            ) is Some),
        decreases stmts@.len() - j,
    {
        proof {
            crate::ast::lemma_stmts_view_from(*stmts, 0);
            assert(sv.take(j + 1).drop_last() =~= sv.take(j as int));
            assert(sv.take(j + 1).last() == sv[j as int]);
        }
        let ghost prior = register_decls(Seq::empty(), sv.take(j as int));
        match &stmts[j] {
            crate::ast::Statement::FunctionDeclaration(fd) => {
                if fd.signature.name == key {
                    declared = true;
                }
                proof {
                    let nxt = register_decls(Seq::empty(), sv.take(j + 1));
                    assert(nxt == prior.push((fd.signature.name@, fd@)));
                    assert(nxt.drop_last() =~= prior);
                }
            },
            _ => {
            },
        }
        j = j + 1;
    }
    proof {
        assert(sv.take(sv.len() as int) =~= sv);
    }
    if !declared {
        return Err(RuntimeError::FunctionNotFound { name: key });
    }

    let mut interpreter = Interpreter::new();
    let ghost st_init = interpreter@;
    let mut i: usize = 0;
    while i < stmts.len()
        invariant
            interpreter.wf(),
            i <= stmts@.len(),
            sv == crate::ast::stmts_view(*stmts),
            sv == ast@.statements,
            sv.len() == stmts@.len(),
            interpreter@ == (MachineView {
                funcs: register_decls(st_init.funcs, sv.take(i as int)),
                ..st_init
            }),
            st_init.stack =~= seq![Seq::<(Seq<char>, Value)>::empty()],
            st_init.funcs =~= builtin_registry(),
            st_init.input =~= Seq::<Seq<char>>::empty(),
            st_init.output =~= Seq::<char>::empty(),
        decreases stmts@.len() - i,
    {
        proof {
            crate::ast::lemma_stmts_view_from(*stmts, 0);
            assert(sv.take(i + 1).drop_last() =~= sv.take(i as int));
            assert(sv.take(i + 1).last() == sv[i as int]);
        }
        match &stmts[i] {
            crate::ast::Statement::FunctionDeclaration(fd) => {
                let fc = clone_function(fd);
                interpreter.register_function(fc);
            },
            _ => {
            },
        }
        i = i + 1;
    }
    proof {
        assert(sv.take(sv.len() as int) =~= sv);
        assert(interpreter@ =~= (MachineView {
            stack: seq![Seq::empty()],
            funcs: register_decls(builtin_registry(), ast@.statements),
            input: Seq::empty(),
            output: Seq::empty(),
        }));
    }
    let args: [Value; 0] = [];
    proof {
        assert(args@ =~= Seq::<Value>::empty());
    }
    match interpreter.call_function(function_name, &args) {
        Ok(v) => {
            let mut out: Vec<Value> = Vec::new();
            out.push(v);
            proof {
                assert(out@ =~= seq![v]);
            }
            Ok(out)
        },
        Err(e) => Err(e),
    }
}

} // verus!
