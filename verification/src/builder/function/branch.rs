//! Branches: the commit of shadowed phis, the provenance updates, and
//! the recursion into successor blocks.

use vstd::prelude::*;
use vstd::string::StrSliceExecFns;
use vstd::string::StringExecFns;

use crate::builder::function::model::{
    lemma_commits_frame, spec_commits_upto, spec_is_branch, spec_process_branch, spec_trim_temp,
};
use crate::builder::function::{st_wf, BuilderSpec, CairoFunctionBuilder};
use crate::ir::{func_wf, FunctionIr, OpIr};

verus! {

/// A name with every trailing `_temp` suffix removed.
pub fn trim_temp(name: &str) -> (r: String)
    ensures
        r@ == spec_trim_temp(name@),
    decreases name@.len(),
{
    let n = name.unicode_len();
    if n >= 5 {
        let c0 = name.get_char(n - 5);
        let c1 = name.get_char(n - 4);
        let c2 = name.get_char(n - 3);
        let c3 = name.get_char(n - 2);
        let c4 = name.get_char(n - 1);
        proof {
            reveal_strlit("_temp");
        }
        if c0 == '_' && c1 == 't' && c2 == 'e' && c3 == 'm' && c4 == 'p' {
            proof {
                assert(name@.subrange(n - 5, n as int) =~= "_temp"@);
            }
            let head = name.substring_char(0, n - 5);
            return trim_temp(head);
        }
        proof {
            if name@.subrange(n - 5, n as int) == "_temp"@ {
                assert(name@.subrange(n - 5, n as int)[0] == '_');
                assert(name@.subrange(n - 5, n as int)[1] == 't');
                assert(name@.subrange(n - 5, n as int)[2] == 'e');
                assert(name@.subrange(n - 5, n as int)[3] == 'm');
                assert(name@.subrange(n - 5, n as int)[4] == 'p');
                assert(c0 == '_' && c1 == 't' && c2 == 'e' && c3 == 'm' && c4 == 'p');
                assert(false);
            }
        }
    }
    name.to_owned()
}

impl CairoFunctionBuilder {
    /// A terminator: commit the shadowed phis of `bb`, set the
    /// provenance booleans, then follow the branch.  An unconditional
    /// branch walks straight into its successor.  A conditional branch
    /// inside a loop emits the loop-exit test and hands back `{break;}`;
    /// outside a loop it opens an if/else pair and walks both arms.
    #[verifier::loop_isolation(false)]
    pub fn process_branch(
        &mut self,
        f: &FunctionIr,
        bb: usize,
        i: usize,
        is_loop: bool,
        is_else: bool,
        fuel: usize,
    ) -> (r: String)
        requires
            func_wf(f@),
            st_wf(old(self)@, f@),
            bb < f@.blocks.len(),
            i < f@.blocks[bb as int].instrs.len(),
            spec_is_branch(f@.blocks[bb as int].instrs[i as int].op),
            fuel >= 1,
        ensures
            r@ == spec_process_branch(
                old(self)@,
                f@,
                bb as int,
                i as int,
                is_loop,
                is_else,
                fuel as nat,
            ).1,
            final(self)@ =~~= spec_process_branch(
                old(self)@,
                f@,
                bb as int,
                i as int,
                is_loop,
                is_else,
                fuel as nat,
            ).0,
            st_wf(final(self)@, f@),
        decreases fuel, 0int,
    {
        let ghost st0 = self@;
        let nsh = self.bblock_variables[bb].len();
        proof {
            assert(st0.shadows[bb as int].len() == nsh);
            lemma_commits_frame(st0, bb as int, 0);
        }
        let mut k: usize = 0;
        while k < nsh
            invariant
                k <= nsh,
                self@ =~~= (BuilderSpec {
                    body: spec_commits_upto(st0, bb as int, k as int).body,
                    ..st0
                }),
            decreases nsh - k,
        {
            proof {
                lemma_commits_frame(st0, bb as int, k as int);
                lemma_commits_frame(st0, bb as int, k + 1);
                assert(self@.shadows[bb as int][k as int] == (
                    self.bblock_variables@[bb as int]@[k as int].0 as int,
                    self.bblock_variables@[bb as int]@[k as int].1@,
                ));
            }
            let nm = self.bblock_variables[bb][k].1.clone();
            let t = trim_temp(nm.as_str());
            let mut line = t;
            line.append(" = ");
            line.append(nm.as_str());
            line.append(";");
            self.push_body_line(line);
            k += 1;
        }
        proof {
            lemma_commits_frame(st0, bb as int, nsh as int);
        }
        let ghost st1 = self@;
        self.set_basic_block_booleans(f, bb);
        proof {
            crate::builder::function::model::lemma_booleans_frame(
                st1,
                f@,
                bb as int,
                st1.phis_bblock.len() as int,
            );
            assert(st_wf(self@, f@));
            assert(f@.blocks[bb as int].instrs[i as int] == f.blocks@[bb as int]@.instrs[i as int]);
            assert(crate::ir::op_wf(f@.blocks[bb as int].instrs[i as int].op, f@));
        }
        match f.blocks[bb].instrs[i].op {
            OpIr::Br { target } => {
                self.process_basic_block(f, target, fuel - 1);
                String::new()
            },
            OpIr::CondBr { cond, then_target, else_target } => {
                if is_loop {
                    let mut line = "if ".to_owned();
                    let c = self.resolve_plain(f, &cond);
                    line.append(c.as_str());
                    self.push_body_line(line);
                    "{break;}".to_owned()
                } else {
                    self.close_scopes(bb, is_else, is_loop);
                    self.if_blocks.set(then_target, Some(cond));
                    proof {
                        assert(st_wf(self@, f@));
                    }
                    self.process_basic_block(f, then_target, fuel - 1);
                    self.else_blocks.set(else_target, true);
                    proof {
                        assert(st_wf(self@, f@));
                    }
                    self.process_basic_block(f, else_target, fuel - 1);
                    String::new()
                }
            },
            _ => String::new(),
        }
    }
}

} // verus!
