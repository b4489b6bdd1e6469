//! Structural analysis before emission: build the control-flow graph,
//! find the loop blocks and the return block, collect the phi
//! predecessor set and the shadowed phis.

use vstd::prelude::*;
use vstd::string::StringExecFns;

use crate::builder::function::model::{
    lemma_incs_characterize, lemma_predeclare_frame, spec_block_phi_used, spec_close_scopes,
    spec_incs_upto, spec_phi_insert, spec_phis_bblock, spec_phis_blocks_upto,
    spec_phis_in_block_upto, spec_prepare_new_scopes, spec_predeclare_upto, spec_shadow_row_upto,
    spec_shadows,
};
use crate::builder::function::types::ty_text;
use crate::builder::function::{st_wf, BuilderSpec, CairoFunctionBuilder};
use crate::graph::{
    graph_add_edge, graph_add_node, graph_edge_count, graph_edges, graph_has_edge, graph_has_path,
    graph_new, graph_node_count, graph_sccs, reach, sccs_contain, spec_all_lead_to, spec_cfg_edges,
    spec_edges_blocks_upto, spec_edges_in_block_upto, spec_loop_blocks, spec_reducible,
    spec_return_block, spec_return_block_upto,
};
use crate::ir::{
    func_wf, lemma_total_instrs_prefix_le, lemma_total_instrs_step, total_instrs, FunctionIr, OpIr,
    OperandIr,
};
use crate::text::spec_resolved_name;
use crate::vars::{lemma_vm_init_wf, spec_vm_init, VarMap};

verus! {

impl CairoFunctionBuilder {
    /// Append a block to the phi predecessor listing unless it is there.
    fn phis_insert(&mut self, b: usize)
        ensures
            final(self)@ =~~= (BuilderSpec {
                phis_bblock: spec_phi_insert(old(self)@.phis_bblock, b as int),
                ..old(self)@
            }),
    {
        let n = self.phis_bblock.len();
        let mut k: usize = 0;
        let mut found = false;
        while k < n
            invariant
                k <= n,
                n == self.phis_bblock@.len(),
                found <==> exists|j: int| 0 <= j < k && self.phis_bblock@[j] == b,
            decreases n - k,
        {
            if self.phis_bblock[k] == b {
                found = true;
            }
            k += 1;
        }
        proof {
            if found {
                let j = choose|j: int| 0 <= j < n && self.phis_bblock@[j] == b;
                assert(self@.phis_bblock[j] == b as int);
                assert(self@.phis_bblock.contains(b as int));
            }
            if self@.phis_bblock.contains(b as int) {
                let j = choose|j: int|
                    0 <= j < self@.phis_bblock.len() && self@.phis_bblock[j] == b as int;
                assert(self.phis_bblock@[j] == b);
            }
        }
        if !found {
            self.phis_bblock.push(b);
            proof {
                assert(self@.phis_bblock =~= old(self)@.phis_bblock.push(b as int));
            }
        }
    }

    /// Mark the loop blocks from the strongly connected components: a
    /// group of more than one block by its first listed block, a single
    /// block exactly when it branches to itself.  Returns whether the
    /// flow is reducible (no group holds more than one block); exactly
    /// then the outcome is precisely the self-branching blocks.
    #[verifier::loop_isolation(false)]
    fn compute_loop_set(&mut self, g: &petgraph::graph::DiGraph<(), ()>, f: &FunctionIr) -> (reducible: bool)
        requires
            graph_node_count(*g) == f@.blocks.len(),
            graph_edges(*g) == spec_cfg_edges(f@),
            old(self)@.bb_loop =~= Set::<int>::empty(),
        ensures
            final(self)@ =~~= (BuilderSpec { bb_loop: final(self)@.bb_loop, ..old(self)@ }),
            forall|x: int| final(self)@.bb_loop.contains(x) ==> 0 <= x < f@.blocks.len(),
            reducible == spec_reducible(f@),
            reducible ==> final(self)@.bb_loop =~= spec_loop_blocks(f@),
    {
        let nb = f.blocks.len();
        let groups = graph_sccs(g);
        let ng = groups.len();
        let mut any_big = false;
        let mut k: usize = 0;
        while k < ng
            invariant
                k <= ng,
                any_big <==> exists|k2: int| 0 <= k2 < k && (#[trigger] groups@[k2])@.len() > 1,
                forall|x: int|
                    #[trigger] self@.bb_loop.contains(x) <==> exists|k2: int|
                        0 <= k2 < k && groups@[k2]@[0] == x && (groups@[k2]@.len() > 1
                            || graph_edges(*g).contains((x, x))),
                forall|x: int| self@.bb_loop.contains(x) ==> 0 <= x < nb,
                self@ =~~= (BuilderSpec { bb_loop: self@.bb_loop, ..old(self)@ }),
            decreases ng - k,
        {
            let grp = &groups[k];
            let big = grp.len() > 1;
            if big {
                any_big = true;
            }
            let mark = if big {
                true
            } else {
                let n0 = grp[0];
                graph_has_edge(g, n0, n0)
            };
            let ghost prev = self@.bb_loop;
            let ghost prev_vec = self.bb_loop@;
            if mark {
                let n0 = grp[0];
                self.bb_loop.push(n0);
                proof {
                    lemma_loopset_push(prev_vec, n0);
                    assert(self@.bb_loop =~= prev.insert(n0 as int));
                }
            }
            k += 1;
        }
        proof {
            if any_big {
                let k2 = choose|k2: int| 0 <= k2 < ng && (#[trigger] groups@[k2])@.len() > 1;
                let a = groups@[k2]@[0];
                let c = groups@[k2]@[1];
                assert(a != c);
                assert(reach(graph_edges(*g), a as int, c as int));
                assert(reach(graph_edges(*g), c as int, a as int));
                assert(!spec_reducible(f@));
            } else {
                assert forall|a: int, b: int|
                    0 <= a < f@.blocks.len() && 0 <= b < f@.blocks.len() && a != b implies !(
                #[trigger] reach(spec_cfg_edges(f@), a, b) && #[trigger] reach(
                    spec_cfg_edges(f@),
                    b,
                    a,
                )) by {
                    if reach(spec_cfg_edges(f@), a, b) && reach(spec_cfg_edges(f@), b, a) {
                        assert(sccs_contain(groups@, a));
                        assert(sccs_contain(groups@, b));
                        let (k1, j1) = choose|k1: int, j1: int|
                            0 <= k1 < groups@.len() && 0 <= j1 < groups@[k1]@.len()
                                && #[trigger] groups@[k1]@[j1] == a;
                        let (k2, j2) = choose|k2: int, j2: int|
                            0 <= k2 < groups@.len() && 0 <= j2 < groups@[k2]@.len()
                                && #[trigger] groups@[k2]@[j2] == b;
                        assert(k1 == k2);
                        assert(groups@[k1]@.len() == 1);
                        assert(j1 == 0 && j2 == 0);
                        assert(false);
                    }
                }
                assert(spec_reducible(f@));
                assert forall|k2: int| 0 <= k2 < ng implies groups@[k2]@.len() == 1 by {}
                assert forall|x: int| #[trigger] spec_loop_blocks(f@).contains(x) implies self@.bb_loop.contains(
                    x,
                ) by {
                    assert(sccs_contain(groups@, x));
                    let (k2, j) = choose|k2: int, j: int|
                        0 <= k2 < groups@.len() && 0 <= j < groups@[k2]@.len()
                            && #[trigger] groups@[k2]@[j] == x;
                    assert(groups@[k2]@.len() == 1);
                    assert(groups@[k2]@[0] == x);
                }
                assert(self@.bb_loop =~= spec_loop_blocks(f@));
            }
        }
        !any_big
    }

    /// Find the block all other blocks have a path to; the last one in
    /// index order wins.  Emission keeps its text at the outermost
    /// structural level, so it is always reached.
    #[verifier::loop_isolation(false)]
    fn compute_return_block(&mut self, g: &petgraph::graph::DiGraph<(), ()>, f: &FunctionIr)
        requires
            graph_node_count(*g) == f@.blocks.len(),
            graph_edges(*g) == spec_cfg_edges(f@),
        ensures
            final(self)@ =~~= (BuilderSpec {
                return_block: spec_return_block(f@),
                ..old(self)@
            }),
            match spec_return_block(f@) {
                Some(rb) => 0 <= rb < f@.blocks.len(),
                None => true,
            },
    {
        let nb = f.blocks.len();
        self.return_block = None;
        let mut t: usize = 0;
        while t < nb
            invariant
                t <= nb,
                self@.return_block == spec_return_block_upto(f@, t as int),
                match self@.return_block {
                    Some(rb) => 0 <= rb < nb,
                    None => true,
                },
                self@ =~~= (BuilderSpec { return_block: self@.return_block, ..old(self)@ }),
            decreases nb - t,
        {
            let mut all = true;
            let mut s: usize = 0;
            while s < nb
                invariant
                    s <= nb,
                    t < nb,
                    all ==> forall|s2: int|
                        0 <= s2 < s && s2 != t ==> #[trigger] reach(
                            spec_cfg_edges(f@),
                            s2,
                            t as int,
                        ),
                    !all ==> !spec_all_lead_to(f@, t as int),
                decreases nb - s,
            {
                if s != t {
                    if !graph_has_path(g, s, t) {
                        all = false;
                    }
                }
                s += 1;
            }
            if all {
                self.return_block = Some(t);
            }
            t += 1;
        }
    }

    /// Build the graph of basic blocks, mark the loop blocks, find the
    /// return block, and collect the phi bookkeeping: the phi
    /// predecessor set and the `_temp` shadows for phis whose result
    /// another phi of the same block uses.  Returns whether the flow is
    /// reducible; translation is refused when it is not.
    #[verifier::loop_isolation(false)]
    #[verifier::rlimit(100)]
    pub fn preprocess_function(&mut self, f: &FunctionIr) -> (reducible: bool)
        requires
            func_wf(f@),
        ensures
            final(self)@.vars =~~= spec_vm_init(f@),
            final(self)@.phis_bblock =~= spec_phis_bblock(f@),
            final(self)@.shadows =~~= spec_shadows(f@),
            final(self)@.if_blocks =~= Seq::new(f@.blocks.len(), |b: int| None::<OperandIr>),
            final(self)@.else_blocks =~= Seq::new(f@.blocks.len(), |b: int| false),
            final(self)@.return_block == spec_return_block(f@),
            reducible == spec_reducible(f@),
            reducible ==> final(self)@.bb_loop =~= spec_loop_blocks(f@),
            final(self)@.sig == old(self)@.sig,
            final(self)@.body == old(self)@.body,
            final(self)@.truncated == old(self)@.truncated,
            st_wf(final(self)@, f@),
    {
        proof {
            lemma_vm_init_wf(f@);
        }
        self.variables = VarMap::new_for(f);
        self.bb_loop = Vec::new();
        self.phis_bblock = Vec::new();
        self.bblock_variables = Vec::new();
        self.if_blocks = Vec::new();
        self.else_blocks = Vec::new();
        self.return_block = None;
        let nb = f.blocks.len();

        // One graph node per block, in order: node index == block index.
        let mut g = graph_new();
        let mut b: usize = 0;
        while b < nb
            invariant
                b <= nb,
                graph_node_count(g) == b,
                graph_edge_count(g) == 0,
                graph_edges(g) =~= Set::<(int, int)>::empty(),
            decreases nb - b,
        {
            graph_add_node(&mut g);
            b += 1;
        }

        // Edges from every branch, phi predecessors, and shadowed phis.
        let mut b: usize = 0;
        while b < nb
            invariant
                b <= nb,
                graph_node_count(g) == nb,
                graph_edges(g) =~= spec_edges_blocks_upto(f@, b as int),
                graph_edge_count(g) <= 2 * total_instrs(f@.blocks.subrange(0, b as int)),
                0 <= 2 * total_instrs(f@.blocks.subrange(0, b as int)),
                self@.phis_bblock =~= spec_phis_blocks_upto(f@, b as int),
                forall|k: int|
                    0 <= k < self@.phis_bblock.len() ==> 0 <= #[trigger] self@.phis_bblock[k]
                        < nb,
                self@.shadows =~~= Seq::new(
                    b as nat,
                    |bb: int| spec_shadow_row_upto(f@, bb, f@.blocks[bb].instrs.len() as int),
                ),
                forall|bb: int, k: int|
                    0 <= bb < self@.shadows.len() && 0 <= k < self@.shadows[bb].len() ==> 0 <= (
                    #[trigger] self@.shadows[bb][k]).0 < f@.blocks[bb].instrs.len(),
                self@.if_blocks =~= Seq::new(b as nat, |bb: int| None::<OperandIr>),
                self@.else_blocks =~= Seq::new(b as nat, |bb: int| false),
                self@.vars =~~= spec_vm_init(f@),
                self@.sig == old(self)@.sig,
                self@.body == old(self)@.body,
                self@.truncated == old(self)@.truncated,
                self@.return_block is None,
                self@.bb_loop =~= Set::<int>::empty(),
            decreases nb - b,
        {
            proof {
                lemma_total_instrs_step(f@.blocks, b as int);
                lemma_total_instrs_prefix_le(f@.blocks, b as int + 1);
            }
            let ni = f.blocks[b].instrs.len();
            proof {
                assert(f@.blocks[b as int].instrs.len() == ni);
            }
            let mut incs: Vec<OperandIr> = Vec::new();
            let mut i: usize = 0;
            while i < ni
                invariant
                    i <= ni,
                    graph_node_count(g) == nb,
                    graph_edges(g) =~= spec_edges_in_block_upto(
                        f@,
                        b as int,
                        i as int,
                        spec_edges_blocks_upto(f@, b as int),
                    ),
                    graph_edge_count(g) <= 2 * (total_instrs(f@.blocks.subrange(0, b as int))
                        + i),
                    incs@ =~= spec_incs_upto(f@, b as int, i as int),
                    self@.phis_bblock =~= spec_phis_in_block_upto(
                        f@,
                        b as int,
                        i as int,
                        spec_phis_blocks_upto(f@, b as int),
                    ),
                    forall|k: int|
                        0 <= k < self@.phis_bblock.len() ==> 0 <= #[trigger] self@.phis_bblock[k]
                            < nb,
                    self@.shadows =~~= Seq::new(
                        b as nat,
                        |bb: int| spec_shadow_row_upto(f@, bb, f@.blocks[bb].instrs.len() as int),
                    ),
                    self@.if_blocks =~= Seq::new(b as nat, |bb: int| None::<OperandIr>),
                    self@.else_blocks =~= Seq::new(b as nat, |bb: int| false),
                    self@.vars =~~= spec_vm_init(f@),
                    self@.sig == old(self)@.sig,
                    self@.body == old(self)@.body,
                    self@.truncated == old(self)@.truncated,
                    self@.return_block is None,
                    self@.bb_loop =~= Set::<int>::empty(),
                decreases ni - i,
            {
                proof {
                    assert(f@.blocks[b as int].instrs[i as int] == f.blocks@[b as int]@.instrs[i as int]);
                    assert(crate::ir::op_wf(f@.blocks[b as int].instrs[i as int].op, f@));
                }
                match f.blocks[b].instrs[i].op {
                    OpIr::Br { target } => {
                        graph_add_edge(&mut g, b, target);
                    },
                    OpIr::CondBr { cond: _, then_target, else_target } => {
                        graph_add_edge(&mut g, b, then_target);
                        graph_add_edge(&mut g, b, else_target);
                    },
                    OpIr::Phi { v1, b1, v2, b2 } => {
                        incs.push(v1);
                        incs.push(v2);
                        self.phis_insert(b1);
                        self.phis_insert(b2);
                    },
                    _ => {},
                }
                i += 1;
            }
            // Phis whose result another phi of this block uses get a
            // `_temp` shadow; the map is still empty, so names use 0.
            let mut row: Vec<(usize, String)> = Vec::new();
            let mut i: usize = 0;
            while i < ni
                invariant
                    i <= ni,
                    incs@ =~= spec_incs_upto(f@, b as int, ni as int),
                    row@.map_values(|e: (usize, String)| (e.0 as int, e.1@)) =~~= spec_shadow_row_upto(
                        f@,
                        b as int,
                        i as int,
                    ),
                    forall|k: int| 0 <= k < row@.len() ==> (#[trigger] row@[k]).0 < ni,
                    self@.vars =~~= spec_vm_init(f@),
                decreases ni - i,
            {
                proof {
                    assert(f@.blocks[b as int].instrs[i as int] == f.blocks@[b as int]@.instrs[i as int]);
                }
                let is_phi = matches!(f.blocks[b].instrs[i].op, OpIr::Phi { .. });
                if is_phi {
                    let used = operand_list_contains(&incs, OperandIr::Value { b, i });
                    proof {
                        lemma_incs_characterize(f@, b as int, ni as int, OperandIr::Value { b, i });
                        assert(used == spec_block_phi_used(f@, b as int, i as int));
                    }
                    if used {
                        let mut nm = self.get_name(f.blocks[b].instrs[i].name.as_str());
                        nm.append("_temp");
                        row.push((i, nm));
                    }
                }
                i += 1;
            }
            proof {
                assert(row@.map_values(|e: (usize, String)| (e.0 as int, e.1@)) =~~= spec_shadow_row_upto(
                    f@,
                    b as int,
                    f@.blocks[b as int].instrs.len() as int,
                ));
            }
            let ghost pre_sh = self@.shadows;
            self.bblock_variables.push(row);
            self.if_blocks.push(None);
            self.else_blocks.push(false);
            proof {
                assert(self@.shadows =~~= pre_sh.push(
                    spec_shadow_row_upto(f@, b as int, f@.blocks[b as int].instrs.len() as int),
                ));
                assert(self@.shadows =~~= Seq::new(
                    (b + 1) as nat,
                    |bb: int| spec_shadow_row_upto(f@, bb, f@.blocks[bb].instrs.len() as int),
                ));
                assert(self@.if_blocks =~= Seq::new((b + 1) as nat, |bb: int| None::<OperandIr>));
                assert(self@.else_blocks =~= Seq::new((b + 1) as nat, |bb: int| false));
            }
            b += 1;
        }
        proof {
            assert(self@.phis_bblock =~= spec_phis_bblock(f@));
            assert(self@.shadows =~~= spec_shadows(f@));
            assert(graph_edges(g) =~= spec_cfg_edges(f@));
        }

        let reducible = self.compute_loop_set(&g, f);
        self.compute_return_block(&g, f);
        reducible
    }
}

impl CairoFunctionBuilder {
    /// Create mutable, zero-initialized bindings for every value a
    /// scope-opening block defines, so the values stay reachable outside
    /// the new scope, then open the scope itself.
    #[verifier::loop_isolation(false)]
    pub fn prepare_new_scopes(&mut self, f: &FunctionIr, bb: usize, is_else: bool, is_loop: bool)
        requires
            func_wf(f@),
            st_wf(old(self)@, f@),
            bb < f@.blocks.len(),
        ensures
            final(self)@ =~~= spec_prepare_new_scopes(old(self)@, f@, bb as int, is_else, is_loop),
            st_wf(final(self)@, f@),
    {
        let opens = is_loop || self.if_blocks[bb].is_some() || is_else;
        if opens {
            let ni = f.blocks[bb].instrs.len();
            proof {
                assert(f@.blocks[bb as int].instrs.len() == ni);
                lemma_predeclare_frame(old(self)@, f@, bb as int, 0);
            }
            let mut i: usize = 0;
            while i < ni
                invariant
                    i <= ni,
                    self@ =~~= (BuilderSpec {
                        vars: spec_predeclare_upto(old(self)@, f@, bb as int, i as int).vars,
                        body: spec_predeclare_upto(old(self)@, f@, bb as int, i as int).body,
                        ..old(self)@
                    }),
                    crate::vars::vm_wf(self@.vars, f@),
                decreases ni - i,
            {
                proof {
                    lemma_predeclare_frame(old(self)@, f@, bb as int, i as int);
                    lemma_predeclare_frame(old(self)@, f@, bb as int, i + 1);
                    assert(f@.blocks[bb as int].instrs[i as int] == f.blocks@[bb as int]@.instrs[i as int]);
                }
                match f.blocks[bb].instrs[i].op {
                    OpIr::Br { .. } => {},
                    OpIr::CondBr { .. } => {},
                    OpIr::Ret { .. } => {},
                    _ => {
                        let nm = self.get_name(f.blocks[bb].instrs[i].name.as_str());
                        let w = f.blocks[bb].instrs[i].width;
                        let mut line = "let mut ".to_owned();
                        line.append(nm.as_str());
                        line.append(" = ");
                        if w == 1 {
                            line.append("false");
                        } else {
                            line.append("0_");
                            let t = ty_text(w);
                            line.append(t.as_str());
                        }
                        line.append(";");
                        self.variables.set_value(bb, i, nm, Ghost(f@));
                        self.push_body_line(line);
                    },
                }
                i += 1;
            }
            proof {
                lemma_predeclare_frame(old(self)@, f@, bb as int, ni as int);
            }
        }
        let opt = self.if_blocks[bb];
        match opt {
            Some(cond) => {
                let mut line = "if !".to_owned();
                let c = self.resolve_plain(f, &cond);
                line.append(c.as_str());
                line.append(" {");
                self.push_body_line(line);
            },
            None => {
                let at_ret = match self.return_block {
                    Some(rb) => rb == bb,
                    None => false,
                };
                if at_ret && is_else {
                    self.push_body_line("}".to_owned());
                } else if is_else {
                    self.push_body_line("} else {".to_owned());
                }
            },
        }
        if is_loop {
            self.push_body_line("loop {".to_owned());
        }
    }

    /// Close the scopes a block opened: the `if`/`else` brace when the
    /// block ends an else arm or is the return block, and the loop brace.
    pub fn close_scopes(&mut self, bb: usize, is_else: bool, is_loop: bool)
        ensures
            final(self)@ =~~= spec_close_scopes(old(self)@, bb as int, is_else, is_loop),
    {
        let in_else = match self.return_block {
            Some(rb) => rb != bb,
            None => false,
        } && is_else;
        let at_ret = match self.return_block {
            Some(rb) => rb == bb,
            None => false,
        };
        if in_else || at_ret {
            self.push_body_line("}".to_owned());
        }
        if is_loop {
            self.push_body_line("};".to_owned());
        }
    }
}

/// Pushing an index onto the loop listing inserts it into the set view.
proof fn lemma_loopset_push(v: Seq<usize>, x: usize)
    ensures
        v.push(x).map_values(|y: usize| y as int).to_set() =~= v.map_values(
            |y: usize| y as int,
        ).to_set().insert(x as int),
{
    let m0 = v.map_values(|y: usize| y as int);
    let m1 = v.push(x).map_values(|y: usize| y as int);
    assert(m1 =~= m0.push(x as int));
    assert forall|a: int| #[trigger] m0.push(x as int).to_set().contains(a) implies m0.to_set().contains(
        a,
    ) || a == x as int by {
        crate::builder::function::model::lemma_push_contains(m0, x as int, a);
    }
    assert forall|a: int| m0.to_set().contains(a) || a == x as int implies #[trigger] m0.push(
        x as int,
    ).to_set().contains(a) by {
        crate::builder::function::model::lemma_push_contains(m0, x as int, a);
    }
}

/// Does the operand list hold `x`?
pub fn operand_list_contains(list: &Vec<OperandIr>, x: OperandIr) -> (r: bool)
    ensures
        r == list@.contains(x),
{
    let n = list.len();
    let mut k: usize = 0;
    while k < n
        invariant
            k <= n,
            n == list@.len(),
            forall|j: int| 0 <= j < k ==> list@[j] != x,
        decreases n - k,
    {
        if list[k] == x {
            return true;
        }
        k += 1;
    }
    false
}

} // verus!
