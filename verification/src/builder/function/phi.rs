//! Phi elimination: a phi becomes a conditional over the provenance
//! booleans of its two incoming blocks.

use vstd::prelude::*;
use vstd::string::StringExecFns;

use crate::builder::function::model::spec_phi_parts;
use crate::builder::function::BuilderSpec;
use crate::builder::function::CairoFunctionBuilder;
use crate::ir::{operand_wf, FunctionIr, OperandIr};
use crate::vars::{func_wf_bound, vm_wf};

verus! {

impl CairoFunctionBuilder {
    /// Translates one phi.  The result name is the `_temp` shadow when
    /// the phi is shadowed in this block; the `let` keyword is left out
    /// when the scope planner pre-declared the name; a guard line for an
    /// impossible state (no provenance boolean set) completes the
    /// conditional.
    pub fn process_phi(
        &mut self,
        f: &FunctionIr,
        bb: usize,
        i: usize,
        v1: &OperandIr,
        b1: usize,
        v2: &OperandIr,
        b2: usize,
    ) -> (r: String)
        requires
            bb < f@.blocks.len(),
            i < f@.blocks[bb as int].instrs.len(),
            operand_wf(*v1, f@),
            operand_wf(*v2, f@),
            b1 < f@.blocks.len(),
            b2 < f@.blocks.len(),
            vm_wf(old(self)@.vars, f@),
            func_wf_bound(f@),
            bb < old(self)@.shadows.len(),
        ensures
            r@ == spec_phi_parts(
                old(self)@,
                f@,
                bb as int,
                i as int,
                *v1,
                b1 as int,
                *v2,
                b2 as int,
            ).1,
            final(self)@ =~~= spec_phi_parts(
                old(self)@,
                f@,
                bb as int,
                i as int,
                *v1,
                b1 as int,
                *v2,
                b2 as int,
            ).0,
            vm_wf(final(self)@.vars, f@),
    {
        proof {
            assert(f@.blocks[bb as int].instrs[i as int] == f.blocks@[bb as int]@.instrs[i as int]);
            assert(f@.blocks[b1 as int].name == f.blocks@[b1 as int]@.name);
            assert(f@.blocks[b2 as int].name == f.blocks@[b2 as int]@.name);
        }
        let (phi_name, has_let) = match self.shadow_assoc(bb, i) {
            Some(n) => (n, true),
            None => match self.variables.lookup_value(bb, i) {
                Some(n) => (n, false),
                None => {
                    let nm = self.get_name(f.blocks[bb].instrs[i].name.as_str());
                    self.variables.set_value(bb, i, nm.clone(), Ghost(f@));
                    (nm, true)
                },
            },
        };
        let lname = self.resolve_value(f, v1);
        let rname = self.resolve_value(f, v2);
        let bn1 = self.get_name(f.blocks[b1].name.as_str());
        let bn2 = self.get_name(f.blocks[b2].name.as_str());
        let mut line = if has_let {
            "let ".to_owned()
        } else {
            String::new()
        };
        line.append(phi_name.as_str());
        line.append(" = if is_from_");
        line.append(bn1.as_str());
        line.append(" { ");
        line.append(lname.as_str());
        line.append(" } else if is_from_");
        line.append(bn2.as_str());
        line.append(" { ");
        line.append(rname.as_str());
        line.append(" } else { panic!(\"There is a bug in the compiler at var ");
        line.append(phi_name.as_str());
        line.append(" please report it\")};");
        line
    }
}

} // verus!
