//! Zero extension: widening an integer is a plain cast in the output.

use vstd::prelude::*;
use vstd::string::StringExecFns;

use crate::builder::function::model::spec_zext_parts;
use crate::builder::function::types::ty_text;
use crate::builder::function::CairoFunctionBuilder;
use crate::ir::{operand_wf, FunctionIr, OperandIr};
use crate::vars::{func_wf_bound, vm_wf};

verus! {

impl CairoFunctionBuilder {
    /// Translates a zero extension to `<target> = <arg> as <ty>;` and
    /// returns the line.
    pub fn process_zext(&mut self, f: &FunctionIr, bb: usize, i: usize, arg: &OperandIr) -> (r:
        String)
        requires
            bb < f@.blocks.len(),
            i < f@.blocks[bb as int].instrs.len(),
            operand_wf(*arg, f@),
            vm_wf(old(self)@.vars, f@),
            func_wf_bound(f@),
            bb < old(self)@.shadows.len(),
        ensures
            r@ == spec_zext_parts(old(self)@, f@, bb as int, i as int, *arg).1,
            final(self)@ =~~= spec_zext_parts(old(self)@, f@, bb as int, i as int, *arg).0,
            vm_wf(final(self)@.vars, f@),
    {
        proof {
            assert(f@.blocks[bb as int].instrs[i as int] == f.blocks@[bb as int]@.instrs[i as int]);
        }
        let target = self.result_name(f, bb, i);
        let aname = self.resolve_shadow(f, bb, arg);
        let t = ty_text(f.blocks[bb].instrs[i].width);
        let mut line = target;
        line.append(" = ");
        line.append(aname.as_str());
        line.append(" as ");
        line.append(t.as_str());
        line.append(";");
        line
    }
}

} // verus!
