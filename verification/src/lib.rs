//! A translator from an SSA intermediate representation with explicit
//! control flow (basic blocks, branches, phi nodes) into structured
//! Cairo source text built only from `if`/`else`, `loop`/`break` and
//! `return`.

use vstd::prelude::*;

use crate::builder::function::model::{spec_compile, spec_module_upto, spec_translate};
use crate::builder::{CairoBuilder, CairoFunctions, TranslateError};
use crate::graph::spec_reducible;
use crate::ir::{func_wf, module_wf, ModuleIr};

pub mod text;
pub mod ir;
pub mod vars;
pub mod graph;
pub mod builder;

verus! {

/// Translate every function of a module, in order.  A module whose
/// functions all have reducible control flow translates to exactly the
/// model's output, so equal inputs give equal outputs; a module with an
/// irreducible function is refused rather than translated wrongly.
#[verifier::loop_isolation(false)]
pub fn compile(module: &ModuleIr) -> (r: Result<CairoFunctions, TranslateError>)
    requires
        module_wf(module@),
    ensures
        r is Ok <==> (forall|k: int|
            0 <= k < module@.functions.len() ==> spec_reducible(#[trigger] module@.functions[k])),
        match r {
            Ok(c) => c@ =~~= spec_compile(module@),
            Err(e) => e == TranslateError::UnsupportedControlFlow,
        },
{
    let mut builder = CairoBuilder::default();
    let n = module.functions.len();
    let mut k: usize = 0;
    while k < n
        invariant
            k <= n,
            n == module@.functions.len(),
            builder.functions@.len() == k,
            forall|j: int| 0 <= j < k ==> spec_reducible(#[trigger] module@.functions[j]),
            builder.functions@ =~~= spec_module_upto(module@, k as int),
        decreases n - k,
    {
        proof {
            assert(module@.functions[k as int] == module.functions@[k as int]@);
            assert(func_wf(module@.functions[k as int]));
        }
        let translated = match builder.translate_function(&module.functions[k]) {
            Ok(c) => c,
            Err(e) => {
                proof {
                    assert(!spec_reducible(module@.functions[k as int]));
                }
                return Err(e);
            },
        };
        builder.functions.push_function(translated);
        proof {
            assert(builder.functions@ =~~= spec_module_upto(module@, k + 1));
        }
        k += 1;
    }
    Ok(builder.functions)
}

} // verus!
