//! The variable name map: for every SSA value (parameter or instruction
//! result) the Cairo identifier chosen for it, populated lazily.  The
//! counter `n` is the number of names stored so far; it is what a
//! synthesized `var{k}` name is numbered with.

use vstd::prelude::*;

use crate::ir::{FuncV, FunctionIr, total_instrs};

verus! {

pub struct VarMap {
    /// One slot per function parameter.
    pub params: Vec<Option<String>>,
    /// One slot per instruction, laid out as the blocks are.
    pub instrs: Vec<Vec<Option<String>>>,
    /// How many slots hold a name.
    pub n: usize,
}

#[verifier::ext_equal]
pub struct VarMapV {
    pub params: Seq<Option<Seq<char>>>,
    pub instrs: Seq<Seq<Option<Seq<char>>>>,
    pub n: nat,
}

pub open spec fn opt_name_view(o: Option<String>) -> Option<Seq<char>> {
    match o {
        Some(s) => Some(s@),
        None => None,
    }
}

impl View for VarMap {
    type V = VarMapV;

    open spec fn view(&self) -> VarMapV {
        VarMapV {
            params: self.params@.map_values(|x: Option<String>| opt_name_view(x)),
            instrs: self.instrs@.map_values(
                |row: Vec<Option<String>>| row@.map_values(|x: Option<String>| opt_name_view(x)),
            ),
            n: self.n as nat,
        }
    }
}

/// How many slots of a row hold a name.
pub open spec fn count_row(s: Seq<Option<Seq<char>>>) -> int
    decreases s.len(),
{
    if s.len() == 0 {
        0
    } else {
        count_row(s.drop_last()) + if s.last() is Some {
            1int
        } else {
            0int
        }
    }
}

pub open spec fn count_rows(ss: Seq<Seq<Option<Seq<char>>>>) -> int
    decreases ss.len(),
{
    if ss.len() == 0 {
        0
    } else {
        count_rows(ss.drop_last()) + count_row(ss.last())
    }
}

pub proof fn lemma_count_row_le(s: Seq<Option<Seq<char>>>)
    ensures
        0 <= count_row(s) <= s.len(),
    decreases s.len(),
{
    if s.len() > 0 {
        lemma_count_row_le(s.drop_last());
    }
}

pub proof fn lemma_count_row_update(s: Seq<Option<Seq<char>>>, i: int, name: Seq<char>)
    requires
        0 <= i < s.len(),
    ensures
        count_row(s.update(i, Some(name))) == count_row(s) + if s[i] is None {
            1int
        } else {
            0int
        },
    decreases s.len(),
{
    let u = s.update(i, Some(name));
    if i == s.len() - 1 {
        assert(u.drop_last() =~= s.drop_last());
    } else {
        assert(u.drop_last() =~= s.drop_last().update(i, Some(name)));
        lemma_count_row_update(s.drop_last(), i, name);
    }
}

pub proof fn lemma_count_rows_update(
    ss: Seq<Seq<Option<Seq<char>>>>,
    b: int,
    i: int,
    name: Seq<char>,
)
    requires
        0 <= b < ss.len(),
        0 <= i < ss[b].len(),
    ensures
        count_rows(ss.update(b, ss[b].update(i, Some(name)))) == count_rows(ss) + if ss[b][i]
            is None {
            1int
        } else {
            0int
        },
    decreases ss.len(),
{
    let u = ss.update(b, ss[b].update(i, Some(name)));
    if b == ss.len() - 1 {
        assert(u.drop_last() =~= ss.drop_last());
        lemma_count_row_update(ss[b], i, name);
    } else {
        assert(u.drop_last() =~= ss.drop_last().update(b, ss[b].update(i, Some(name))));
        assert(u.last() =~= ss.last());
        lemma_count_rows_update(ss.drop_last(), b, i, name);
    }
}

/// The map has one slot per value of `f`, and `n` counts the filled ones.
pub open spec fn vm_wf(v: VarMapV, f: FuncV) -> bool {
    &&& v.params.len() == f.params.len()
    &&& v.instrs.len() == f.blocks.len()
    &&& forall|b: int|
        0 <= b < v.instrs.len() ==> (#[trigger] v.instrs[b]).len() == f.blocks[b].instrs.len()
    &&& v.n == count_row(v.params) + count_rows(v.instrs)
}

/// `n` never exceeds the number of slots.
pub proof fn lemma_vm_n_bound(v: VarMapV, f: FuncV)
    requires
        vm_wf(v, f),
    ensures
        v.n <= f.params.len() + total_instrs(f.blocks),
{
    lemma_count_row_le(v.params);
    lemma_count_rows_le(v.instrs, f.blocks);
}

pub proof fn lemma_count_rows_le(ss: Seq<Seq<Option<Seq<char>>>>, blocks: Seq<crate::ir::BlockV>)
    requires
        ss.len() == blocks.len(),
        forall|b: int| 0 <= b < ss.len() ==> (#[trigger] ss[b]).len() == blocks[b].instrs.len(),
    ensures
        0 <= count_rows(ss) <= total_instrs(blocks),
    decreases ss.len(),
{
    if ss.len() > 0 {
        lemma_count_row_le(ss.last());
        assert(ss.drop_last().len() == blocks.drop_last().len());
        assert forall|b: int| 0 <= b < ss.drop_last().len() implies (#[trigger] ss.drop_last()[b]).len()
            == blocks.drop_last()[b].instrs.len() by {
            assert(ss.drop_last()[b] =~= ss[b]);
        }
        lemma_count_rows_le(ss.drop_last(), blocks.drop_last());
    }
}

pub proof fn lemma_count_row_all_none(s: Seq<Option<Seq<char>>>)
    requires
        forall|k: int| 0 <= k < s.len() ==> s[k] is None,
    ensures
        count_row(s) == 0,
    decreases s.len(),
{
    if s.len() > 0 {
        lemma_count_row_all_none(s.drop_last());
    }
}

/// The fresh map is well formed for its function.
pub proof fn lemma_vm_init_wf(f: FuncV)
    ensures
        vm_wf(spec_vm_init(f), f),
{
    let v = spec_vm_init(f);
    lemma_count_row_all_none(v.params);
    lemma_count_rows_all_none(v.instrs);
}

pub proof fn lemma_count_rows_all_none(ss: Seq<Seq<Option<Seq<char>>>>)
    requires
        forall|b: int, k: int|
            0 <= b < ss.len() && 0 <= k < ss[b].len() ==> #[trigger] ss[b][k] is None,
    ensures
        count_rows(ss) == 0,
    decreases ss.len(),
{
    if ss.len() > 0 {
        lemma_count_row_all_none(ss.last());
        assert forall|b: int, k: int|
            0 <= b < ss.drop_last().len() && 0 <= k < ss.drop_last()[b].len() implies #[trigger] ss.drop_last()[b][k] is None by {
            assert(ss.drop_last()[b] =~= ss[b]);
        }
        lemma_count_rows_all_none(ss.drop_last());
    }
}

/// The fresh empty map for a function.
pub open spec fn spec_vm_init(f: FuncV) -> VarMapV {
    VarMapV {
        params: Seq::new(f.params.len(), |i: int| None),
        instrs: Seq::new(f.blocks.len(), |b: int| Seq::new(f.blocks[b].instrs.len(), |i: int| None)),
        n: 0,
    }
}

/// Storing a name for a parameter: `n` grows only when the slot was empty.
pub open spec fn spec_vm_set_param(v: VarMapV, i: int, name: Seq<char>) -> VarMapV {
    VarMapV {
        params: v.params.update(i, Some(name)),
        instrs: v.instrs,
        n: if v.params[i] is None {
            (v.n + 1) as nat
        } else {
            v.n
        },
    }
}

/// Storing a name for an instruction result.
pub open spec fn spec_vm_set_value(v: VarMapV, b: int, i: int, name: Seq<char>) -> VarMapV {
    VarMapV {
        params: v.params,
        instrs: v.instrs.update(b, v.instrs[b].update(i, Some(name))),
        n: if v.instrs[b][i] is None {
            (v.n + 1) as nat
        } else {
            v.n
        },
    }
}

impl VarMap {
    pub fn new_for(f: &FunctionIr) -> (r: VarMap)
        ensures
            r@ =~~= spec_vm_init(f@),
    {
        let mut params: Vec<Option<String>> = Vec::new();
        let np = f.params.len();
        let mut i: usize = 0;
        while i < np
            invariant
                i <= np,
                params@.len() == i,
                forall|k: int| 0 <= k < i ==> params@[k] is None,
            decreases np - i,
        {
            params.push(None);
            i += 1;
        }
        let mut instrs: Vec<Vec<Option<String>>> = Vec::new();
        let nb = f.blocks.len();
        let mut b: usize = 0;
        while b < nb
            invariant
                b <= nb,
                nb == f.blocks.len(),
                instrs@.len() == b,
                forall|bb: int, k: int|
                    0 <= bb < b && 0 <= k < instrs@[bb]@.len() ==> #[trigger] instrs@[bb]@[k]
                        is None,
                forall|bb: int|
                    0 <= bb < b ==> (#[trigger] instrs@[bb])@.len() == f@.blocks[bb].instrs.len(),
            decreases nb - b,
        {
            let mut row: Vec<Option<String>> = Vec::new();
            let ni = f.blocks[b].instrs.len();
            let mut i: usize = 0;
            while i < ni
                invariant
                    i <= ni,
                    row@.len() == i,
                    forall|k: int| 0 <= k < i ==> row@[k] is None,
                decreases ni - i,
            {
                row.push(None);
                i += 1;
            }
            proof {
                assert(f@.blocks[b as int].instrs.len() == f.blocks[b as int].instrs@.len());
            }
            instrs.push(row);
            b += 1;
        }
        let r = VarMap { params, instrs, n: 0 };
        proof {
            assert(r@.params =~= spec_vm_init(f@).params);
            assert(r@.instrs =~~= spec_vm_init(f@).instrs);
        }
        r
    }

    pub fn lookup_param(&self, i: usize) -> (r: Option<String>)
        requires
            i < self@.params.len(),
        ensures
            opt_name_view(r) == self@.params[i as int],
    {
        match &self.params[i] {
            Some(s) => Some(s.clone()),
            None => None,
        }
    }

    pub fn lookup_value(&self, b: usize, i: usize) -> (r: Option<String>)
        requires
            b < self@.instrs.len(),
            i < self@.instrs[b as int].len(),
        ensures
            opt_name_view(r) == self@.instrs[b as int][i as int],
    {
        match &self.instrs[b][i] {
            Some(s) => Some(s.clone()),
            None => None,
        }
    }

    pub fn set_param(&mut self, i: usize, name: String, Ghost(f): Ghost<FuncV>)
        requires
            vm_wf(old(self)@, f),
            i < old(self)@.params.len(),
            func_wf_bound(f),
        ensures
            final(self)@ =~~= spec_vm_set_param(old(self)@, i as int, name@),
            vm_wf(final(self)@, f),
    {
        proof {
            lemma_vm_n_bound(self@, f);
            lemma_count_row_update(self@.params, i as int, name@);
        }
        let fresh = self.params[i].is_none();
        self.params.set(i, Some(name));
        if fresh {
            self.n += 1;
        }
    }

    pub fn set_value(&mut self, b: usize, i: usize, name: String, Ghost(f): Ghost<FuncV>)
        requires
            vm_wf(old(self)@, f),
            b < old(self)@.instrs.len(),
            i < old(self)@.instrs[b as int].len(),
            func_wf_bound(f),
        ensures
            final(self)@ =~~= spec_vm_set_value(old(self)@, b as int, i as int, name@),
            vm_wf(final(self)@, f),
    {
        proof {
            lemma_vm_n_bound(self@, f);
            lemma_count_rows_update(self@.instrs, b as int, i as int, name@);
        }
        let ghost prev = self@.instrs;
        let ghost nm = name@;
        let mut r = self.instrs.remove(b);
        let fresh = r[i].is_none();
        r.set(i, Some(name));
        self.instrs.insert(b, r);
        if fresh {
            self.n += 1;
        }
        proof {
            assert(self@.instrs =~~= prev.update(b as int, prev[b as int].update(i as int, Some(nm))));
        }
    }
}

/// The machine bound from `func_wf`, restated for the map alone.
pub open spec fn func_wf_bound(f: FuncV) -> bool {
    f.params.len() + total_instrs(f.blocks) < usize::MAX
}

} // verus!
