//! Type rendering, the function signature, and the return instruction.

use vstd::prelude::*;
use vstd::string::StrSliceExecFns;
use vstd::string::StringExecFns;

use crate::builder::function::model::{
    spec_ret_ty, spec_return_line, spec_sig_params_upto, spec_signature, spec_ty,
};
use crate::builder::function::{
    BuilderSpec, CairoFunctionBuilder, CairoFunctionSignature, CairoParameter,
};
use crate::ir::{operand_wf, FunctionIr, OperandIr};
use crate::text::{dec_string, dec_string_usize};
use crate::vars::{func_wf_bound, vm_wf};

verus! {

/// The Cairo spelling of the integer type of width `w`: `i<w>`.
pub fn ty_text(width: u32) -> (r: String)
    ensures
        r@ == spec_ty(width),
{
    let mut s = "i".to_owned();
    let d = dec_string(width as i128);
    s.append(d.as_str());
    s
}

/// The rendered return type; a void function returns the unit type.
pub fn ret_ty_text(r: &Option<u32>) -> (t: String)
    ensures
        t@ == spec_ret_ty(*r),
{
    match r {
        Some(w) => ty_text(*w),
        None => "()".to_owned(),
    }
}

impl CairoFunctionBuilder {
    /// Translates the function signature and seeds the parameter names in
    /// the variable map.  `fn_id` only matters when the source function
    /// has no name: the output is then called `function{fn_id}`.
    pub fn process_function_signature(&mut self, f: &FunctionIr, fn_id: usize) -> (sig:
        CairoFunctionSignature)
        requires
            vm_wf(old(self)@.vars, f@),
            func_wf_bound(f@),
        ensures
            sig@ =~~= spec_signature(f@, fn_id as int, old(self)@.vars).0,
            final(self)@ =~~= (BuilderSpec {
                vars: spec_signature(f@, fn_id as int, old(self)@.vars).1,
                ..old(self)@
            }),
            vm_wf(final(self)@.vars, f@),
    {
        let name = if f.name.as_str().unicode_len() > 0 {
            f.name.clone()
        } else {
            let mut n = "function".to_owned();
            let d = dec_string_usize(fn_id);
            n.append(d.as_str());
            n
        };
        let mut parameters: Vec<CairoParameter> = Vec::new();
        let np = f.params.len();
        let mut k: usize = 0;
        while k < np
            invariant
                k <= np,
                np == f@.params.len(),
                func_wf_bound(f@),
                vm_wf(self@.vars, f@),
                parameters@.map_values(|p: CairoParameter| p@) =~~= spec_sig_params_upto(
                    f@,
                    k as int,
                    old(self)@.vars,
                ).0,
                self@ =~~= (BuilderSpec {
                    vars: spec_sig_params_upto(f@, k as int, old(self)@.vars).1,
                    ..old(self)@
                }),
            decreases np - k,
        {
            proof {
                assert(f@.params[k as int] == f.params@[k as int]@);
            }
            let pname = self.get_name(f.params[k].name.as_str());
            let pty = ty_text(f.params[k].width);
            self.variables.set_param(k, pname.clone(), Ghost(f@));
            parameters.push(CairoParameter { name: pname, ty: pty });
            k += 1;
        }
        let ret = ret_ty_text(&f.ret_width);
        CairoFunctionSignature::new(name, parameters, ret)
    }

    /// Translates a return instruction to `return <value>;`.
    pub fn process_return(&self, f: &FunctionIr, value: &Option<OperandIr>) -> (r: String)
        requires
            match *value {
                Some(op) => operand_wf(op, f@),
                None => true,
            },
            vm_wf(self@.vars, f@),
        ensures
            r@ == spec_return_line(self@, f@, *value),
    {
        match value {
            Some(op) => {
                let mut s = "return ".to_owned();
                let n = self.resolve_plain(f, op);
                s.append(n.as_str());
                s.append(";");
                s
            },
            None => "return ;".to_owned(),
        }
    }
}

} // verus!
