use vstd::prelude::*;
use crate::ast::{BodyView, Function, FunctionBody, FunctionParameter, FunctionSignature,
    FunctionView, NativeFn, ParamView, SignatureView};
use crate::token::TypeIdentifier;

verus! {

/// The signatures of the four builtin routines, the single source of truth
/// for both the type checker's table and the interpreter's registry.
pub open spec fn builtin_function_views() -> Seq<FunctionView> {
    seq![
        FunctionView {
            signature: SignatureView {
                name: "print_int"@,
                params: seq![ParamView { name: "n"@, ty: TypeIdentifier::Number }],
                return_type: None,
            },
            body: BodyView::Native(NativeFn::PrintInt),
        },
        FunctionView {
            signature: SignatureView {
                name: "println"@,
                params: seq![ParamView { name: "n"@, ty: TypeIdentifier::Number }],
                return_type: None,
            },
            body: BodyView::Native(NativeFn::PrintLn),
        },
        FunctionView {
            signature: SignatureView {
                name: "read_int"@,
                params: Seq::empty(),
                return_type: Some(TypeIdentifier::Number),
            },
            body: BodyView::Native(NativeFn::ReadInt),
        },
        FunctionView {
            signature: SignatureView {
                name: "read_char"@,
                params: Seq::empty(),
                return_type: Some(TypeIdentifier::Char),
            },
            body: BodyView::Native(NativeFn::ReadChar),
        },
    ]
}

fn number_param(name: &str) -> (p: FunctionParameter)
    ensures
        crate::ast::param_view(p) == (ParamView { name: name@, ty: TypeIdentifier::Number }),
{
    FunctionParameter {
        parameter_name: String::from_str(name),
        parameter_type: TypeIdentifier::Number,
    }
}

/// The four builtin routines: `print_int`, `println`, `read_int` and
/// `read_char`, in that order.
pub fn load_std_functions() -> (v: Vec<Function>)
    ensures
        v@.len() == builtin_function_views().len(),
        forall|i: int| 0 <= i < v@.len() ==> #[trigger] v@[i]@ == builtin_function_views()[i],
{
    let mut v: Vec<Function> = Vec::new();
    let mut params1: Vec<FunctionParameter> = Vec::new();
    params1.push(number_param("n"));
    let print_int = Function {
        signature: FunctionSignature {
            name: String::from_str("print_int"),
            parameters: params1,
            return_type: None,
        },
        body: FunctionBody::NativeBody(NativeFn::PrintInt),
    };
    proof {
        assert(print_int@.signature.params =~= seq![
            ParamView { name: "n"@, ty: TypeIdentifier::Number },
        ]);
    }
    v.push(print_int);
    let mut params2: Vec<FunctionParameter> = Vec::new();
    params2.push(number_param("n"));
    let println_f = Function {
        signature: FunctionSignature {
            name: String::from_str("println"),
            parameters: params2,
            return_type: None,
        },
        body: FunctionBody::NativeBody(NativeFn::PrintLn),
    };
    proof {
        assert(println_f@.signature.params =~= seq![
            ParamView { name: "n"@, ty: TypeIdentifier::Number },
        ]);
    }
    v.push(println_f);
    let read_int = Function {
        signature: FunctionSignature {
            name: String::from_str("read_int"),
            parameters: Vec::new(),
            return_type: Some(TypeIdentifier::Number),
        },
        body: FunctionBody::NativeBody(NativeFn::ReadInt),
    };
    proof {
        assert(read_int@.signature.params =~= Seq::<ParamView>::empty());
    }
    v.push(read_int);
    let read_char = Function {
        signature: FunctionSignature {
            name: String::from_str("read_char"),
            parameters: Vec::new(),
            return_type: Some(TypeIdentifier::Char),
        },
        body: FunctionBody::NativeBody(NativeFn::ReadChar),
    };
    proof {
        assert(read_char@.signature.params =~= Seq::<ParamView>::empty());
    }
    v.push(read_char);
    v
}

/// The two builtin tables stay in lockstep: the signature the type checker
/// is seeded with is, entry for entry, the signature of the function the
/// interpreter's registry is seeded with.
pub proof fn lemma_builtin_tables_lockstep()
    ensures
        crate::type_checker::builtin_signatures().len()
            == crate::interpreter::builtin_registry().len(),
        forall|i: int|
            0 <= i < crate::interpreter::builtin_registry().len()
                ==> #[trigger] crate::type_checker::builtin_signatures()[i].0
                == crate::interpreter::builtin_registry()[i].0
                && crate::type_checker::builtin_signatures()[i].1
                == crate::interpreter::builtin_registry()[i].1.signature,
{
}

} // verus!
