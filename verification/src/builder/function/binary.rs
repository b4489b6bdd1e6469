//! Binary integer operations (additions, subtractions, comparisons) and
//! the rendering of integer constants.

use vstd::prelude::*;
use vstd::string::StringExecFns;

use crate::builder::function::model::{spec_binary_parts, spec_const_text};
use crate::builder::function::types::ty_text;
use crate::builder::function::{BuilderSpec, CairoFunctionBuilder};
use crate::ir::{operand_wf, FunctionIr, OperandIr};
use crate::text::dec_string;
use crate::vars::{func_wf_bound, vm_wf};

verus! {

/// An integer constant of type `i<width>` rendered Cairo style, with the
/// mandatory width suffix: `<value>_i<width>`.
pub fn extract_const_int_value(value: i128, width: u32) -> (r: String)
    ensures
        r@ == spec_const_text(value, width),
{
    let mut s = dec_string(value);
    s.append("_");
    let t = ty_text(width);
    s.append(t.as_str());
    s
}

impl CairoFunctionBuilder {
    /// Translates one binary operation to `<target> = <lhs> <op> <rhs>;`
    /// and returns the line.  The `let` keyword is part of the target
    /// exactly when the result was not pre-declared.
    pub fn process_binary_int_op(
        &mut self,
        f: &FunctionIr,
        bb: usize,
        i: usize,
        operator: &str,
        lhs: &OperandIr,
        rhs: &OperandIr,
    ) -> (r: String)
        requires
            bb < f@.blocks.len(),
            i < f@.blocks[bb as int].instrs.len(),
            operand_wf(*lhs, f@),
            operand_wf(*rhs, f@),
            vm_wf(old(self)@.vars, f@),
            func_wf_bound(f@),
            bb < old(self)@.shadows.len(),
        ensures
            r@ == spec_binary_parts(
                old(self)@,
                f@,
                bb as int,
                i as int,
                operator@,
                *lhs,
                *rhs,
            ).1,
            final(self)@ =~~= spec_binary_parts(
                old(self)@,
                f@,
                bb as int,
                i as int,
                operator@,
                *lhs,
                *rhs,
            ).0,
            vm_wf(final(self)@.vars, f@),
    {
        let target = self.result_name(f, bb, i);
        let lname = self.resolve_shadow(f, bb, lhs);
        let rname = self.resolve_shadow(f, bb, rhs);
        let mut line = target;
        line.append(" = ");
        line.append(lname.as_str());
        line.append(" ");
        line.append(operator);
        line.append(" ");
        line.append(rname.as_str());
        line.append(";");
        line
    }
}

} // verus!
