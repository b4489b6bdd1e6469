//! Properties of the translation model, proved once and for all: the
//! phi predecessor set is total, shadowed phi pairs are committed, the
//! join block is a post-dominator, and constants carry their width.

use vstd::prelude::*;

use crate::builder::function::model::{
    lemma_push_contains, spec_block_phi_used, spec_bool_line, spec_commits_upto, spec_const_text,
    spec_phi_insert, spec_phi_op_uses, spec_phis_bblock, spec_phis_blocks_upto,
    spec_phis_in_block_upto, spec_set_booleans, spec_set_booleans_upto, spec_shadow_row_upto,
    spec_shadows, spec_trim_temp,
};
use crate::builder::function::BuilderSpec;
use crate::graph::{reach, spec_all_lead_to, spec_cfg_edges, spec_return_block, spec_return_block_upto};
use crate::ir::{FuncV, OpIr};
use crate::text::{spec_dec, spec_resolved_name, spec_udec};

verus! {

proof fn lemma_phi_insert_keeps(s: Seq<int>, b: int, x: int)
    ensures
        spec_phi_insert(s, b).contains(b),
        s.contains(x) ==> spec_phi_insert(s, b).contains(x),
{
    lemma_push_contains(s, b, b);
    lemma_push_contains(s, b, x);
}

proof fn lemma_phis_in_block_monotone(f: FuncV, b: int, i: int, s: Seq<int>, x: int)
    requires
        s.contains(x),
        0 <= i,
    ensures
        spec_phis_in_block_upto(f, b, i, s).contains(x),
    decreases i,
{
    if i > 0 {
        lemma_phis_in_block_monotone(f, b, i - 1, s, x);
        let sp = spec_phis_in_block_upto(f, b, i - 1, s);
        match f.blocks[b].instrs[i - 1].op {
            OpIr::Phi { v1, b1, v2, b2 } => {
                lemma_phi_insert_keeps(sp, b1 as int, x);
                lemma_phi_insert_keeps(spec_phi_insert(sp, b1 as int), b2 as int, x);
            },
            _ => {},
        }
    }
}

proof fn lemma_phis_in_block_collects(f: FuncV, b: int, i: int, s: Seq<int>, j: int)
    requires
        0 <= j < i,
    ensures
        match f.blocks[b].instrs[j].op {
            OpIr::Phi { b1, b2, .. } => spec_phis_in_block_upto(f, b, i, s).contains(b1 as int)
                && spec_phis_in_block_upto(f, b, i, s).contains(b2 as int),
            _ => true,
        },
    decreases i,
{
    let sp = spec_phis_in_block_upto(f, b, i - 1, s);
    if j == i - 1 {
        match f.blocks[b].instrs[j].op {
            OpIr::Phi { v1, b1, v2, b2 } => {
                lemma_phi_insert_keeps(sp, b1 as int, b1 as int);
                lemma_phi_insert_keeps(spec_phi_insert(sp, b1 as int), b2 as int, b1 as int);
                lemma_phi_insert_keeps(spec_phi_insert(sp, b1 as int), b2 as int, b2 as int);
            },
            _ => {},
        }
    } else {
        lemma_phis_in_block_collects(f, b, i - 1, s, j);
        match f.blocks[b].instrs[j].op {
            OpIr::Phi { v1, b1, v2, b2 } => {
                match f.blocks[b].instrs[i - 1].op {
                    OpIr::Phi { v1: w1, b1: c1, v2: w2, b2: c2 } => {
                        lemma_phi_insert_keeps(sp, c1 as int, b1 as int);
                        lemma_phi_insert_keeps(spec_phi_insert(sp, c1 as int), c2 as int, b1 as int);
                        lemma_phi_insert_keeps(sp, c1 as int, b2 as int);
                        lemma_phi_insert_keeps(spec_phi_insert(sp, c1 as int), c2 as int, b2 as int);
                    },
                    _ => {},
                }
            },
            _ => {},
        }
    }
}

proof fn lemma_phis_blocks_collects(f: FuncV, bb: int, b: int, j: int)
    requires
        0 <= b < bb,
        0 <= j < f.blocks[b].instrs.len(),
    ensures
        match f.blocks[b].instrs[j].op {
            OpIr::Phi { b1, b2, .. } => spec_phis_blocks_upto(f, bb).contains(b1 as int)
                && spec_phis_blocks_upto(f, bb).contains(b2 as int),
            _ => true,
        },
    decreases bb,
{
    if b == bb - 1 {
        lemma_phis_in_block_collects(
            f,
            bb - 1,
            f.blocks[bb - 1].instrs.len() as int,
            spec_phis_blocks_upto(f, bb - 1),
            j,
        );
    } else {
        lemma_phis_blocks_collects(f, bb - 1, b, j);
        match f.blocks[b].instrs[j].op {
            OpIr::Phi { v1, b1, v2, b2 } => {
                lemma_phis_in_block_monotone(
                    f,
                    bb - 1,
                    f.blocks[bb - 1].instrs.len() as int,
                    spec_phis_blocks_upto(f, bb - 1),
                    b1 as int,
                );
                lemma_phis_in_block_monotone(
                    f,
                    bb - 1,
                    f.blocks[bb - 1].instrs.len() as int,
                    spec_phis_blocks_upto(f, bb - 1),
                    b2 as int,
                );
            },
            _ => {},
        }
    }
}

/// Provenance totality, first half: both incoming predecessor blocks of
/// every phi are members of the phi predecessor set.
pub proof fn lemma_phi_preds_in_set(f: FuncV, b: int, i: int)
    requires
        0 <= b < f.blocks.len(),
        0 <= i < f.blocks[b].instrs.len(),
    ensures
        match f.blocks[b].instrs[i].op {
            OpIr::Phi { b1, b2, .. } => spec_phis_bblock(f).contains(b1 as int)
                && spec_phis_bblock(f).contains(b2 as int),
            _ => true,
        },
{
    lemma_phis_blocks_collects(f, f.blocks.len() as int, b, i);
}

proof fn lemma_booleans_upto_emits(st: BuilderSpec, f: FuncV, bb: int, k: int)
    requires
        0 <= k,
    ensures
        spec_set_booleans_upto(st, f, bb, k).body.len() == st.body.len() + k,
        forall|j: int|
            0 <= j < k ==> spec_set_booleans_upto(st, f, bb, k).body[st.body.len() + j]
                == spec_bool_line(f, st.phis_bblock[j], bb, st.vars.n),
        forall|j: int|
            0 <= j < st.body.len() ==> spec_set_booleans_upto(st, f, bb, k).body[j] == st.body[j],
    decreases k,
{
    if k > 0 {
        lemma_booleans_upto_emits(st, f, bb, k - 1);
    }
}

/// Provenance totality, second half: at every terminator outside the
/// return block, one `is_from` update is emitted for every member of
/// the phi predecessor set, in order, on top of the body so far.
pub proof fn lemma_terminator_updates_all(st: BuilderSpec, f: FuncV, bb: int)
    requires
        st.return_block != Some(bb),
    ensures
        spec_set_booleans(st, f, bb).body.len() == st.body.len() + st.phis_bblock.len(),
        forall|k: int|
            0 <= k < st.phis_bblock.len() ==> spec_set_booleans(st, f, bb).body[st.body.len() + k]
                == spec_bool_line(f, st.phis_bblock[k], bb, st.vars.n),
{
    lemma_booleans_upto_emits(st, f, bb, st.phis_bblock.len() as int);
}

/// Provenance totality, combined: for every phi, both incoming blocks
/// are in the phi predecessor set, and every terminator outside the
/// return block updates each member's boolean.
pub proof fn lemma_provenance_totality(st: BuilderSpec, f: FuncV, bb: int, b: int, i: int)
    requires
        st.phis_bblock == spec_phis_bblock(f),
        st.return_block != Some(bb),
        0 <= b < f.blocks.len(),
        0 <= i < f.blocks[b].instrs.len(),
    ensures
        match f.blocks[b].instrs[i].op {
            OpIr::Phi { b1, b2, .. } => st.phis_bblock.contains(b1 as int)
                && st.phis_bblock.contains(b2 as int),
            _ => true,
        },
        spec_set_booleans(st, f, bb).body.len() == st.body.len() + st.phis_bblock.len(),
        forall|k: int|
            0 <= k < st.phis_bblock.len() ==> spec_set_booleans(st, f, bb).body[st.body.len() + k]
                == spec_bool_line(f, st.phis_bblock[k], bb, st.vars.n),
{
    lemma_phi_preds_in_set(f, b, i);
    lemma_terminator_updates_all(st, f, bb);
}

proof fn lemma_shadow_row_collects(f: FuncV, b: int, i: int, j: int)
    requires
        0 <= j < i,
        spec_block_phi_used(f, b, j),
        match f.blocks[b].instrs[j].op {
            OpIr::Phi { .. } => true,
            _ => false,
        },
    ensures
        exists|k: int|
            0 <= k < spec_shadow_row_upto(f, b, i).len() && #[trigger] spec_shadow_row_upto(
                f,
                b,
                i,
            )[k] == (j, spec_resolved_name(f.blocks[b].instrs[j].name, 0) + "_temp"@),
    decreases i,
{
    let row = spec_shadow_row_upto(f, b, i);
    let prev = spec_shadow_row_upto(f, b, i - 1);
    if j == i - 1 {
        assert(row[prev.len() as int] == (
            j,
            spec_resolved_name(f.blocks[b].instrs[j].name, 0) + "_temp"@,
        ));
    } else {
        lemma_shadow_row_collects(f, b, i - 1, j);
        let k = choose|k: int|
            0 <= k < prev.len() && #[trigger] prev[k] == (
                j,
                spec_resolved_name(f.blocks[b].instrs[j].name, 0) + "_temp"@,
            );
        assert(row[k] == (j, spec_resolved_name(f.blocks[b].instrs[j].name, 0) + "_temp"@));
    }
}

/// Shadow correctness, first half: when two phis of one block form a
/// use cycle, both get a `_temp` shadow entry.
pub proof fn lemma_shadow_cycle_both(f: FuncV, b: int, i1: int, i2: int)
    requires
        0 <= b < f.blocks.len(),
        0 <= i1 < f.blocks[b].instrs.len(),
        0 <= i2 < f.blocks[b].instrs.len(),
        match f.blocks[b].instrs[i1].op {
            OpIr::Phi { .. } => true,
            _ => false,
        },
        match f.blocks[b].instrs[i2].op {
            OpIr::Phi { .. } => true,
            _ => false,
        },
        spec_phi_op_uses(f.blocks[b].instrs[i2].op, crate::ir::OperandIr::Value {
            b: b as usize,
            i: i1 as usize,
        }),
        spec_phi_op_uses(f.blocks[b].instrs[i1].op, crate::ir::OperandIr::Value {
            b: b as usize,
            i: i2 as usize,
        }),
    ensures
        exists|k: int|
            0 <= k < spec_shadows(f)[b].len() && #[trigger] spec_shadows(f)[b][k] == (
                i1,
                spec_resolved_name(f.blocks[b].instrs[i1].name, 0) + "_temp"@,
            ),
        exists|k: int|
            0 <= k < spec_shadows(f)[b].len() && #[trigger] spec_shadows(f)[b][k] == (
                i2,
                spec_resolved_name(f.blocks[b].instrs[i2].name, 0) + "_temp"@,
            ),
{
    assert(spec_block_phi_used(f, b, i1));
    assert(spec_block_phi_used(f, b, i2));
    lemma_shadow_row_collects(f, b, f.blocks[b].instrs.len() as int, i1);
    lemma_shadow_row_collects(f, b, f.blocks[b].instrs.len() as int, i2);
    assert(spec_shadows(f)[b] == spec_shadow_row_upto(f, b, f.blocks[b].instrs.len() as int));
}

proof fn lemma_commits_upto_emits(st: BuilderSpec, bb: int, k: int)
    requires
        0 <= k,
    ensures
        spec_commits_upto(st, bb, k).body.len() == st.body.len() + k,
        forall|j: int|
            0 <= j < k ==> spec_commits_upto(st, bb, k).body[st.body.len() + j] == spec_trim_temp(
                st.shadows[bb][j].1,
            ) + " = "@ + st.shadows[bb][j].1 + ";"@,
        forall|j: int|
            0 <= j < st.body.len() ==> spec_commits_upto(st, bb, k).body[j] == st.body[j],
    decreases k,
{
    if k > 0 {
        lemma_commits_upto_emits(st, bb, k - 1);
    }
}

/// Shadow correctness, second half: the terminator emission commits
/// every shadow entry of the block, in order, before the provenance
/// updates and anything that follows them.
pub proof fn lemma_shadows_committed(st: BuilderSpec, bb: int)
    ensures
        spec_commits_upto(st, bb, st.shadows[bb].len() as int).body.len() == st.body.len()
            + st.shadows[bb].len(),
        forall|j: int|
            0 <= j < st.shadows[bb].len() ==> spec_commits_upto(
                st,
                bb,
                st.shadows[bb].len() as int,
            ).body[st.body.len() + j] == spec_trim_temp(st.shadows[bb][j].1) + " = "@
                + st.shadows[bb][j].1 + ";"@,
{
    lemma_commits_upto_emits(st, bb, st.shadows[bb].len() as int);
}

proof fn lemma_return_upto_leads(f: FuncV, n: int, j: int)
    requires
        spec_return_block_upto(f, n) == Some(j),
    ensures
        0 <= j < n,
        spec_all_lead_to(f, j),
    decreases n,
{
    if n > 0 {
        if spec_all_lead_to(f, n - 1) {
        } else {
            lemma_return_upto_leads(f, n - 1, j);
        }
    }
}

/// Join-block singularity, first half: the computed join block is a
/// post-dominator of every other block.
pub proof fn lemma_join_block_postdominates(f: FuncV, j: int)
    requires
        spec_return_block(f) == Some(j),
    ensures
        0 <= j < f.blocks.len(),
        forall|s: int|
            0 <= s < f.blocks.len() && s != j ==> #[trigger] reach(spec_cfg_edges(f), s, j),
{
    lemma_return_upto_leads(f, f.blocks.len() as int, j);
}

/// Scope balance for loops, opening half: preparing a loop block always
/// ends by emitting the `loop {` opener.
pub proof fn lemma_loop_scope_opens(st: BuilderSpec, f: FuncV, bb: int, is_else: bool)
    ensures
        crate::builder::function::model::spec_prepare_new_scopes(st, f, bb, is_else, true).body.len()
            >= 1,
        crate::builder::function::model::spec_prepare_new_scopes(
            st,
            f,
            bb,
            is_else,
            true,
        ).body.last() == "loop {"@,
{
}

/// Scope balance for loops, closing half: processing any branch of a
/// loop block ends by emitting the matching `};`.
pub proof fn lemma_loop_scope_closes(
    st: BuilderSpec,
    f: FuncV,
    bb: int,
    i: int,
    is_else: bool,
    fuel: nat,
)
    ensures
        crate::builder::function::model::spec_branch_and_close(
            st,
            f,
            bb,
            i,
            true,
            is_else,
            fuel,
        ).body.len() >= 1,
        crate::builder::function::model::spec_branch_and_close(
            st,
            f,
            bb,
            i,
            true,
            is_else,
            fuel,
        ).body.last() == "};"@,
{
}

/// Constant typing: every rendered integer constant is its decimal
/// digits followed by `_i<W>`, with `W` exactly the operand's width.
pub proof fn lemma_const_typing(value: i128, width: u32)
    ensures
        spec_const_text(value, width) == spec_dec(value as int) + "_i"@ + spec_udec(width as nat),
{
    reveal_strlit("_");
    reveal_strlit("i");
    reveal_strlit("_i");
    assert(("_"@ + "i"@) =~= "_i"@);
    assert(spec_dec(value as int) + "_"@ + ("i"@ + spec_udec(width as nat)) =~= spec_dec(
        value as int,
    ) + "_i"@ + spec_udec(width as nat));
}

} // verus!
