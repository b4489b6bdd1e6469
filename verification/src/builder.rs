//! The module driver: translates every function of a module and collects
//! the results in order.

use vstd::prelude::*;
use vstd::string::StringExecFns;

use crate::builder::function::model::{
    lemma_is_from_frame, spec_init_builder, spec_is_from_decls_upto, spec_translate,
};
use crate::builder::function::{
    st_wf, BuilderSpec, CairoFunction, CairoFunctionBuilder, CairoFunctionV,
};
use crate::graph::spec_reducible;
use crate::ir::{func_wf, FunctionIr};

pub mod function;

verus! {

/// The ordered collection of translated functions.
#[derive(Debug)]
pub struct CairoFunctions(pub Vec<CairoFunction>);

impl View for CairoFunctions {
    type V = Seq<CairoFunctionV>;

    open spec fn view(&self) -> Seq<CairoFunctionV> {
        self.0@.map_values(|f: CairoFunction| f@)
    }
}

impl CairoFunctions {
    pub fn functions(&self) -> (r: &[CairoFunction])
        ensures
            r@.map_values(|f: CairoFunction| f@) =~= self@,
    {
        self.0.as_slice()
    }

    pub fn count_functions(&self) -> (r: usize)
        ensures
            r == self@.len(),
    {
        self.0.len()
    }

    pub fn push_function(&mut self, function: CairoFunction)
        ensures
            final(self)@ =~= old(self)@.push(function@),
    {
        self.0.push(function)
    }
}

/// Why a function was refused: control flow outside the supported
/// class (two distinct blocks on a common cycle) is not translated,
/// rather than translated wrongly.
#[derive(Clone, Copy, Debug, PartialEq, Eq, Structural)]
pub enum TranslateError {
    UnsupportedControlFlow,
}

/// Translation state across the functions of one module.
pub struct CairoBuilder {
    pub functions: CairoFunctions,
}

impl Default for CairoBuilder {
    fn default() -> (r: Self)
        ensures
            r.functions@ =~= Seq::<CairoFunctionV>::empty(),
    {
        CairoBuilder { functions: CairoFunctions(Vec::new()) }
    }
}

impl CairoFunctions {
    /// All translated functions as Cairo text, joined by a blank line.
    pub fn render(&self) -> (r: String)
        ensures
            r@ == crate::text::spec_join(
                self@.map_values(|f: CairoFunctionV| crate::builder::function::spec_function_text(f)),
                "\n\n"@,
            ),
    {
        let n = self.0.len();
        let mut parts: Vec<String> = Vec::new();
        let mut k: usize = 0;
        while k < n
            invariant
                k <= n,
                n == self.0@.len(),
                parts@.len() == k,
                forall|j: int|
                    0 <= j < k ==> (#[trigger] parts@[j])@
                        == crate::builder::function::spec_function_text(self@[j]),
            decreases n - k,
        {
            let item = self.0[k].render();
            proof {
                assert(self@[k as int] == self.0@[k as int]@);
                assert(item@ == crate::builder::function::spec_function_text(self@[k as int]));
            }
            parts.push(item);
            k += 1;
        }
        proof {
            assert(parts@.map_values(|s: String| s@) =~~= self@.map_values(
                |f: CairoFunctionV| crate::builder::function::spec_function_text(f),
            ));
        }
        crate::text::join_strings(&parts, "\n\n")
    }
}

impl PartialEq for CairoFunctions {
    fn eq(&self, other: &Self) -> (r: bool) {
        if self.0.len() != other.0.len() {
            proof {
                assert(self@.len() != other@.len());
            }
            return false;
        }
        let n = self.0.len();
        let mut k: usize = 0;
        while k < n
            invariant
                k <= n,
                n == self.0@.len(),
                n == other.0@.len(),
                forall|j: int| 0 <= j < k ==> self@[j] == other@[j],
            decreases n - k,
        {
            if !(self.0[k] == other.0[k]) {
                proof {
                    assert(self@[k as int] != other@[k as int]);
                }
                return false;
            }
            k += 1;
        }
        proof {
            assert(self@ =~~= other@);
        }
        true
    }
}

impl vstd::std_specs::cmp::PartialEqSpecImpl for CairoFunctions {
    open spec fn obeys_eq_spec() -> bool {
        true
    }

    open spec fn eq_spec(&self, other: &Self) -> bool {
        self@ == other@
    }
}

impl CairoBuilder {
    /// Translate one function: structural analysis, the signature, one
    /// provenance boolean declaration per phi predecessor block, then
    /// the walk from the entry block.  Control flow outside the
    /// supported class is refused; exactly otherwise the result is the
    /// model's translation, with the number of functions translated so
    /// far as the fallback name id.
    #[verifier::loop_isolation(false)]
    pub fn translate_function(&self, func: &FunctionIr) -> (r: Result<
        CairoFunction,
        TranslateError,
    >)
        requires
            func_wf(func@),
        ensures
            r is Ok <==> spec_reducible(func@),
            match r {
                Ok(c) => c@ =~~= spec_translate(func@, self.functions@.len() as int),
                Err(e) => e == TranslateError::UnsupportedControlFlow,
            },
    {
        let mut function_builder = CairoFunctionBuilder::default();
        let reducible = function_builder.preprocess_function(func);
        if !reducible {
            return Err(TranslateError::UnsupportedControlFlow);
        }
        proof {
            assert(function_builder@ =~~= spec_init_builder(func@));
        }
        let fn_id = self.functions.count_functions();
        let sig = function_builder.process_function_signature(func, fn_id);
        function_builder.function.signature = sig;
        let ghost st1 = function_builder@;
        let n = function_builder.phis_bblock.len();
        let mut k: usize = 0;
        while k < n
            invariant
                k <= n,
                n == st1.phis_bblock.len(),
                function_builder@ =~~= (BuilderSpec {
                    body: spec_is_from_decls_upto(st1, func@, k as int).body,
                    ..st1
                }),
                st_wf(function_builder@, func@),
            decreases n - k,
        {
            proof {
                lemma_is_from_frame(st1, func@, k as int);
                lemma_is_from_frame(st1, func@, k + 1);
                assert(func@.blocks[st1.phis_bblock[k as int]].name == func.blocks@[st1.phis_bblock[k as int]]@.name);
            }
            let p = function_builder.phis_bblock[k];
            let nm = function_builder.get_name(func.blocks[p].name.as_str());
            let mut line = "let mut is_from_".to_owned();
            line.append(nm.as_str());
            line.append(" = false;");
            function_builder.push_body_line(line);
            k += 1;
        }
        proof {
            lemma_is_from_frame(st1, func@, n as int);
        }
        if func.blocks.len() > 0 {
            function_builder.process_basic_block(func, 0, func.blocks.len());
        }
        Ok(function_builder.function)
    }
}

} // verus!
