//! The per-function translation context and the Cairo text it produces.

use vstd::prelude::*;

use crate::builder::function::binary::extract_const_int_value;
use crate::builder::function::model::{
    spec_assoc, spec_resolve_plain, spec_resolve_shadow, spec_resolve_value, spec_result_name,
    spec_vm_get, spec_vm_set,
};
use crate::ir::{operand_wf, FuncV, FunctionIr, OperandIr};
use crate::text::{spec_resolved_name, resolved_name};
use crate::vars::{func_wf_bound, vm_wf, opt_name_view, VarMap, VarMapV};

pub mod model;
pub mod types;
pub mod binary;
pub mod extend;
pub mod phi;
pub mod branch;
pub mod preprocessing;
pub mod props;
pub mod balance;

verus! {

/// One Cairo parameter, rendered: `name: ty`.
#[derive(Debug)]
pub struct CairoParameter {
    pub name: String,
    pub ty: String,
}

#[verifier::ext_equal]
pub struct ParamTextV {
    pub name: Seq<char>,
    pub ty: Seq<char>,
}

impl View for CairoParameter {
    type V = ParamTextV;

    open spec fn view(&self) -> ParamTextV {
        ParamTextV { name: self.name@, ty: self.ty@ }
    }
}

impl CairoParameter {
    pub fn new(name: String, ty: String) -> (r: Self)
        ensures
            r@ == (ParamTextV { name: name@, ty: ty@ }),
    {
        Self { name, ty }
    }
}

/// The ordered parameter list of a signature.
#[derive(Debug)]
pub struct CairoParameters(pub Vec<CairoParameter>);

impl View for CairoParameters {
    type V = Seq<ParamTextV>;

    open spec fn view(&self) -> Seq<ParamTextV> {
        self.0@.map_values(|p: CairoParameter| p@)
    }
}

/// A Cairo function signature: `pub fn name(params) -> ret`.
#[derive(Debug)]
pub struct CairoFunctionSignature {
    pub name: String,
    pub parameters: CairoParameters,
    pub return_type: String,
}

#[verifier::ext_equal]
pub struct SigV {
    pub name: Seq<char>,
    pub params: Seq<ParamTextV>,
    pub ret: Seq<char>,
}

impl View for CairoFunctionSignature {
    type V = SigV;

    open spec fn view(&self) -> SigV {
        SigV { name: self.name@, params: self.parameters@, ret: self.return_type@ }
    }
}

impl CairoFunctionSignature {
    pub fn new(name: String, parameters: Vec<CairoParameter>, return_type: String) -> (r: Self)
        ensures
            r@.name == name@,
            r@.params == CairoParameters(parameters)@,
            r@.ret == return_type@,
    {
        Self { name, parameters: CairoParameters(parameters), return_type }
    }
}

/// The ordered lines of a Cairo function body.
#[derive(Debug)]
pub struct CairoFunctionBody(pub Vec<String>);

impl View for CairoFunctionBody {
    type V = Seq<Seq<char>>;

    open spec fn view(&self) -> Seq<Seq<char>> {
        self.0@.map_values(|l: String| l@)
    }
}

impl CairoFunctionBody {
    pub fn new(body: Vec<String>) -> (r: Self)
        ensures
            r@ == CairoFunctionBody(body)@,
    {
        Self(body)
    }

    pub fn push_line(&mut self, line: String)
        ensures
            final(self)@ =~= old(self)@.push(line@),
    {
        self.0.push(line)
    }
}

/// One translated function: its signature and its body.
#[derive(Debug)]
pub struct CairoFunction {
    pub signature: CairoFunctionSignature,
    pub body: CairoFunctionBody,
}

#[verifier::ext_equal]
pub struct CairoFunctionV {
    pub sig: SigV,
    pub body: Seq<Seq<char>>,
}

impl View for CairoFunction {
    type V = CairoFunctionV;

    open spec fn view(&self) -> CairoFunctionV {
        CairoFunctionV { sig: self.signature@, body: self.body@ }
    }
}

/// The whole mutable state of translating one function.
pub struct CairoFunctionBuilder {
    /// Blocks that open a `loop { ... };`.
    pub bb_loop: Vec<usize>,
    /// The variable name map (with its fill counter).
    pub variables: VarMap,
    /// The function being emitted.
    pub function: CairoFunction,
    /// Blocks that appear as a phi incoming somewhere: each keeps a
    /// runtime `is_from_<name>` boolean.
    pub phis_bblock: Vec<usize>,
    /// Per block: the phi results that need a `_temp` shadow, with the
    /// shadow name, in instruction order.
    pub bblock_variables: Vec<Vec<(usize, String)>>,
    /// Per block: the branch condition under which it is entered as the
    /// `if` arm, if any.
    pub if_blocks: Vec<Option<OperandIr>>,
    /// Per block: whether it is entered as an `else` arm.
    pub else_blocks: Vec<bool>,
    /// The block every other block leads to, when there is one.
    pub return_block: Option<usize>,
    /// Set when the block recursion hit its depth bound, so the emitted
    /// body may be incomplete.  Never set for the control flow in scope.
    pub truncated: bool,
}

/// The mathematical state mirrored by [`CairoFunctionBuilder`].
#[verifier::ext_equal]
pub struct BuilderSpec {
    pub bb_loop: Set<int>,
    pub vars: VarMapV,
    pub sig: SigV,
    pub body: Seq<Seq<char>>,
    pub phis_bblock: Seq<int>,
    pub shadows: Seq<Seq<(int, Seq<char>)>>,
    pub if_blocks: Seq<Option<OperandIr>>,
    pub else_blocks: Seq<bool>,
    pub return_block: Option<int>,
    pub truncated: bool,
}

impl View for CairoFunctionBuilder {
    type V = BuilderSpec;

    open spec fn view(&self) -> BuilderSpec {
        BuilderSpec {
            bb_loop: self.bb_loop@.map_values(|x: usize| x as int).to_set(),
            vars: self.variables@,
            sig: self.function.signature@,
            body: self.function.body@,
            phis_bblock: self.phis_bblock@.map_values(|x: usize| x as int),
            shadows: self.bblock_variables@.map_values(
                |row: Vec<(usize, String)>| row@.map_values(
                    |e: (usize, String)| (e.0 as int, e.1@),
                ),
            ),
            if_blocks: self.if_blocks@,
            else_blocks: self.else_blocks@,
            return_block: match self.return_block {
                Some(b) => Some(b as int),
                None => None,
            },
            truncated: self.truncated,
        }
    }
}

/// The builder state is shaped like the function it translates.
pub open spec fn st_wf(st: BuilderSpec, f: FuncV) -> bool {
    &&& vm_wf(st.vars, f)
    &&& st.shadows.len() == f.blocks.len()
    &&& st.if_blocks.len() == f.blocks.len()
    &&& st.else_blocks.len() == f.blocks.len()
    &&& forall|k: int| 0 <= k < st.phis_bblock.len() ==> 0 <= #[trigger] st.phis_bblock[k] < f.blocks.len()
    &&& match st.return_block {
        Some(b) => 0 <= b < f.blocks.len(),
        None => true,
    }
    &&& forall|b: int, k: int|
        0 <= b < st.shadows.len() && 0 <= k < st.shadows[b].len() ==> 0 <= (
        #[trigger] st.shadows[b][k]).0 < f.blocks[b].instrs.len()
    &&& forall|b: int|
        0 <= b < st.if_blocks.len() ==> match #[trigger] st.if_blocks[b] {
            Some(c) => crate::ir::operand_wf(c, f),
            None => true,
        }
}

impl Default for CairoFunctionBuilder {
    fn default() -> (r: Self)
        ensures
            r@.bb_loop =~= Set::<int>::empty(),
            r@.vars =~~= (VarMapV { params: Seq::empty(), instrs: Seq::empty(), n: 0 }),
            r@.sig =~~= (SigV { name: Seq::empty(), params: Seq::empty(), ret: Seq::empty() }),
            r@.body =~= Seq::<Seq<char>>::empty(),
            r@.phis_bblock =~= Seq::<int>::empty(),
            r@.shadows =~~= Seq::<Seq<(int, Seq<char>)>>::empty(),
            r@.if_blocks =~= Seq::<Option<OperandIr>>::empty(),
            r@.else_blocks =~= Seq::<bool>::empty(),
            r@.return_block is None,
            !r@.truncated,
    {
        CairoFunctionBuilder {
            bb_loop: Vec::new(),
            variables: VarMap { params: Vec::new(), instrs: Vec::new(), n: 0 },
            function: CairoFunction {
                signature: CairoFunctionSignature {
                    name: String::new(),
                    parameters: CairoParameters(Vec::new()),
                    return_type: String::new(),
                },
                body: CairoFunctionBody(Vec::new()),
            },
            phis_bblock: Vec::new(),
            bblock_variables: Vec::new(),
            if_blocks: Vec::new(),
            else_blocks: Vec::new(),
            return_block: None,
            truncated: false,
        }
    }
}

impl CairoFunctionBuilder {
    pub fn name(&self) -> (r: &str)
        ensures
            r@ == self@.sig.name,
    {
        self.function.signature.name.as_str()
    }

    pub fn arg(&self, parameter_nb: usize) -> (r: &CairoParameter)
        requires
            parameter_nb < self@.sig.params.len(),
        ensures
            r@ == self@.sig.params[parameter_nb as int],
    {
        &self.function.signature.parameters.0[parameter_nb]
    }

    pub fn return_type(&self) -> (r: &str)
        ensures
            r@ == self@.sig.ret,
    {
        self.function.signature.return_type.as_str()
    }

    pub fn push_body_line(&mut self, line: String)
        ensures
            final(self)@ =~~= (BuilderSpec { body: old(self)@.body.push(line@), ..old(self)@ }),
    {
        self.function.body.push_line(line)
    }

    /// The output name for a raw source name: sanitized if nonempty, else
    /// `var{k}` with `k` the number of names given out so far.
    pub fn get_name(&self, name: &str) -> (r: String)
        ensures
            r@ == spec_resolved_name(name@, self@.vars.n),
    {
        resolved_name(name, self.variables.n)
    }

    /// The stored name of an operand's value, if any.
    fn vm_get(&self, f: &FunctionIr, op: &OperandIr) -> (r: Option<String>)
        requires
            operand_wf(*op, f@),
            vm_wf(self@.vars, f@),
        ensures
            opt_name_view(r) == spec_vm_get(self@.vars, *op),
    {
        match op {
            OperandIr::Param { i } => self.variables.lookup_param(*i),
            OperandIr::Value { b, i } => self.variables.lookup_value(*b, *i),
            OperandIr::ConstInt { .. } => None,
        }
    }

    /// Store a name for an operand's value.
    fn vm_set(&mut self, f: &FunctionIr, op: &OperandIr, name: String)
        requires
            operand_wf(*op, f@),
            vm_wf(old(self)@.vars, f@),
            func_wf_bound(f@),
        ensures
            final(self)@ =~~= (BuilderSpec {
                vars: spec_vm_set(old(self)@.vars, *op, name@),
                ..old(self)@
            }),
            vm_wf(final(self)@.vars, f@),
    {
        match op {
            OperandIr::Param { i } => self.variables.set_param(*i, name, Ghost(f@)),
            OperandIr::Value { b, i } => self.variables.set_value(*b, *i, name, Ghost(f@)),
            OperandIr::ConstInt { .. } => {},
        }
    }

    /// First matching shadow entry of block `bb` for instruction `i`.
    fn shadow_assoc(&self, bb: usize, i: usize) -> (r: Option<String>)
        requires
            bb < self@.shadows.len(),
        ensures
            opt_name_view(r) == spec_assoc(self@.shadows[bb as int], i as int),
    {
        let row = &self.bblock_variables[bb];
        proof {
            assert(row@.map_values(|e: (usize, String)| (e.0 as int, e.1@)) =~= self@.shadows[bb as int]);
            assert(self@.shadows[bb as int].skip(0) =~= self@.shadows[bb as int]);
        }
        let n = row.len();
        let mut k: usize = 0;
        while k < n
            invariant
                k <= n,
                n == row@.len(),
                row@.map_values(|e: (usize, String)| (e.0 as int, e.1@)) == self@.shadows[bb as int],
                spec_assoc(self@.shadows[bb as int], i as int) == spec_assoc(
                    self@.shadows[bb as int].skip(k as int),
                    i as int,
                ),
            decreases n - k,
        {
            let ghost sh = self@.shadows[bb as int];
            proof {
                assert(sh.skip(k as int)[0] == sh[k as int]);
                assert(sh.skip(k as int).drop_first() =~= sh.skip(k + 1));
            }
            if row[k].0 == i {
                return Some(row[k].1.clone());
            }
            k += 1;
        }
        None
    }

    /// Resolution for return values and branch conditions.
    pub fn resolve_plain(&self, f: &FunctionIr, op: &OperandIr) -> (r: String)
        requires
            operand_wf(*op, f@),
            vm_wf(self@.vars, f@),
        ensures
            r@ == spec_resolve_plain(self@, f@, *op),
    {
        match op {
            OperandIr::ConstInt { value, width } => extract_const_int_value(*value, *width),
            _ => match self.vm_get(f, op) {
                Some(n) => n,
                None => {
                    let src = operand_source_name(f, op);
                    self.get_name(src.as_str())
                },
            },
        }
    }

    /// Resolution for the operands of binary operations and extensions:
    /// the block-local `_temp` shadow wins, else the value resolves
    /// through the map.
    pub fn resolve_shadow(&mut self, f: &FunctionIr, bb: usize, op: &OperandIr) -> (r: String)
        requires
            operand_wf(*op, f@),
            vm_wf(old(self)@.vars, f@),
            func_wf_bound(f@),
            bb < old(self)@.shadows.len(),
        ensures
            r@ == spec_resolve_shadow(old(self)@, f@, bb as int, *op).0,
            final(self)@ =~~= (BuilderSpec {
                vars: spec_resolve_shadow(old(self)@, f@, bb as int, *op).1,
                ..old(self)@
            }),
            vm_wf(final(self)@.vars, f@),
    {
        match op {
            OperandIr::Value { b, i } => {
                let sh = if *b == bb {
                    self.shadow_assoc(bb, *i)
                } else {
                    None
                };
                match sh {
                    Some(n) => n,
                    None => self.resolve_value(f, op),
                }
            },
            _ => self.resolve_value(f, op),
        }
    }

    /// Resolution of a value for use in an expression: fresh names are
    /// stored in the map.
    pub fn resolve_value(&mut self, f: &FunctionIr, op: &OperandIr) -> (r: String)
        requires
            operand_wf(*op, f@),
            vm_wf(old(self)@.vars, f@),
            func_wf_bound(f@),
        ensures
            r@ == spec_resolve_value(old(self)@.vars, f@, *op).0,
            final(self)@ =~~= (BuilderSpec {
                vars: spec_resolve_value(old(self)@.vars, f@, *op).1,
                ..old(self)@
            }),
            vm_wf(final(self)@.vars, f@),
    {
        match op {
            OperandIr::ConstInt { value, width } => extract_const_int_value(*value, *width),
            _ => match self.vm_get(f, op) {
                Some(n) => n,
                None => {
                    let src = operand_source_name(f, op);
                    let nm = self.get_name(src.as_str());
                    self.vm_set(f, op, nm.clone());
                    nm
                },
            },
        }
    }

    /// The assignment target for the result of instruction `i` of block
    /// `bb`: the stored name, or a fresh `let <name>` that is stored.
    pub fn result_name(&mut self, f: &FunctionIr, bb: usize, i: usize) -> (r: String)
        requires
            bb < f@.blocks.len(),
            i < f@.blocks[bb as int].instrs.len(),
            vm_wf(old(self)@.vars, f@),
            func_wf_bound(f@),
        ensures
            r@ == spec_result_name(old(self)@.vars, f@, bb as int, i as int).0,
            final(self)@ =~~= (BuilderSpec {
                vars: spec_result_name(old(self)@.vars, f@, bb as int, i as int).1,
                ..old(self)@
            }),
            vm_wf(final(self)@.vars, f@),
    {
        match self.variables.lookup_value(bb, i) {
            Some(n) => n,
            None => {
                let nm = self.get_name(f.blocks[bb].instrs[i].name.as_str());
                self.variables.set_value(bb, i, nm.clone(), Ghost(f@));
                let mut r = "let ".to_owned();
                r.append(nm.as_str());
                r
            },
        }
    }
}

impl CairoFunctionBuilder {
    /// Is this block part of a loop?
    fn bb_loop_contains(&self, b: usize) -> (r: bool)
        ensures
            r == self@.bb_loop.contains(b as int),
    {
        let n = self.bb_loop.len();
        let mut k: usize = 0;
        let mut found = false;
        while k < n
            invariant
                k <= n,
                n == self.bb_loop@.len(),
                found <==> exists|j: int| 0 <= j < k && self.bb_loop@[j] == b,
            decreases n - k,
        {
            if self.bb_loop[k] == b {
                found = true;
            }
            k += 1;
        }
        proof {
            let m = self.bb_loop@.map_values(|y: usize| y as int);
            if found {
                let j = choose|j: int| 0 <= j < n && self.bb_loop@[j] == b;
                assert(m[j] == b as int);
                assert(m.contains(b as int));
            }
            if self@.bb_loop.contains(b as int) {
                let j = choose|j: int| 0 <= j < m.len() && m[j] == b as int;
                assert(self.bb_loop@[j] == b);
            }
        }
        found
    }

    /// Translate one block: open its scopes, then its instructions in
    /// order, pushing each emitted line.  Branches recurse into the
    /// successor blocks; `fuel` bounds that recursion and only runs out
    /// on control flow outside the supported class.
    #[verifier::loop_isolation(false)]
    pub fn process_basic_block(&mut self, f: &FunctionIr, bb: usize, fuel: usize)
        requires
            crate::ir::func_wf(f@),
            st_wf(old(self)@, f@),
            bb < f@.blocks.len(),
        ensures
            final(self)@ =~~= crate::builder::function::model::spec_process_basic_block(
                old(self)@,
                f@,
                bb as int,
                fuel as nat,
            ),
            st_wf(final(self)@, f@),
        decreases fuel, 2int,
    {
        if fuel == 0 {
            self.truncated = true;
            return;
        }
        let is_loop = self.bb_loop_contains(bb);
        let is_else = self.else_blocks[bb];
        self.prepare_new_scopes(f, bb, is_else, is_loop);
        let ghost st1 = self@;
        let ni = f.blocks[bb].instrs.len();
        proof {
            assert(f@.blocks[bb as int].instrs.len() == ni);
        }
        let mut i: usize = 0;
        while i < ni
            invariant
                i <= ni,
                fuel >= 1,
                self@ =~~= crate::builder::function::model::spec_instrs_upto(
                    st1,
                    f@,
                    bb as int,
                    i as int,
                    is_loop,
                    is_else,
                    fuel as nat,
                ),
                st_wf(self@, f@),
            decreases ni - i,
        {
            self.instr_step(f, bb, i, is_loop, is_else, fuel);
            proof {
                assert(self@ =~~= crate::builder::function::model::spec_instrs_upto(
                    st1,
                    f@,
                    bb as int,
                    i + 1,
                    is_loop,
                    is_else,
                    fuel as nat,
                ));
            }
            i += 1;
        }
    }

    /// One instruction of a block: emit through the matching translator
    /// and push the resulting line; a branch in a loop closes the loop
    /// scope right after.
    fn instr_step(
        &mut self,
        f: &FunctionIr,
        bb: usize,
        i: usize,
        is_loop: bool,
        is_else: bool,
        fuel: usize,
    )
        requires
            crate::ir::func_wf(f@),
            st_wf(old(self)@, f@),
            bb < f@.blocks.len(),
            i < f@.blocks[bb as int].instrs.len(),
            fuel >= 1,
        ensures
            final(self)@ =~~= crate::builder::function::model::spec_instr_step(
                old(self)@,
                f@,
                bb as int,
                i as int,
                is_loop,
                is_else,
                fuel as nat,
            ),
            st_wf(final(self)@, f@),
        decreases fuel, 1int,
    {
        proof {
            assert(f@.blocks[bb as int].instrs[i as int] == f.blocks@[bb as int]@.instrs[i as int]);
            assert(crate::ir::op_wf(f@.blocks[bb as int].instrs[i as int].op, f@));
        }
        let instr_op = f.blocks[bb].instrs[i].op;
        match instr_op {
            crate::ir::OpIr::Add { lhs, rhs } => {
                let line = self.process_binary_int_op(f, bb, i, "+", &lhs, &rhs);
                self.push_body_line(line);
            },
            crate::ir::OpIr::Sub { lhs, rhs } => {
                let line = self.process_binary_int_op(f, bb, i, "-", &lhs, &rhs);
                self.push_body_line(line);
            },
            crate::ir::OpIr::Icmp { pred, lhs, rhs } => {
                let line = match pred {
                    crate::ir::IcmpPredIr::Eq => self.process_binary_int_op(
                        f,
                        bb,
                        i,
                        "==",
                        &lhs,
                        &rhs,
                    ),
                    crate::ir::IcmpPredIr::Ne => self.process_binary_int_op(
                        f,
                        bb,
                        i,
                        "!=",
                        &lhs,
                        &rhs,
                    ),
                    crate::ir::IcmpPredIr::Ult => self.process_binary_int_op(
                        f,
                        bb,
                        i,
                        "<",
                        &lhs,
                        &rhs,
                    ),
                    crate::ir::IcmpPredIr::Unsupported => String::new(),
                };
                self.push_body_line(line);
            },
            crate::ir::OpIr::Ret { value } => {
                let line = self.process_return(f, &value);
                self.push_body_line(line);
            },
            crate::ir::OpIr::Br { .. } => {
                let line = self.process_branch(f, bb, i, is_loop, is_else, fuel);
                self.push_body_line(line);
                if is_loop {
                    self.close_scopes(bb, is_else, is_loop);
                }
            },
            crate::ir::OpIr::CondBr { .. } => {
                let line = self.process_branch(f, bb, i, is_loop, is_else, fuel);
                self.push_body_line(line);
                if is_loop {
                    self.close_scopes(bb, is_else, is_loop);
                }
            },
            crate::ir::OpIr::Zext { arg } => {
                let line = self.process_zext(f, bb, i, &arg);
                self.push_body_line(line);
            },
            crate::ir::OpIr::Phi { v1, b1, v2, b2 } => {
                let line = self.process_phi(f, bb, i, &v1, b1, &v2, b2);
                self.push_body_line(line);
            },
            crate::ir::OpIr::Other => {
                self.push_body_line(String::new());
            },
        }
    }

    /// Set every provenance boolean before leaving block `bb`: true for
    /// `bb` itself, false for the others.  Nothing is emitted when `bb`
    /// is the return block, where no jump follows.
    pub fn set_basic_block_booleans(&mut self, f: &FunctionIr, bb: usize)
        requires
            bb < f@.blocks.len(),
            forall|k: int|
                0 <= k < old(self)@.phis_bblock.len() ==> 0 <= #[trigger] old(
                    self,
                )@.phis_bblock[k] < f@.blocks.len(),
        ensures
            final(self)@ =~~= crate::builder::function::model::spec_set_booleans(
                old(self)@,
                f@,
                bb as int,
            ),
    {
        let skip = match self.return_block {
            Some(rb) => rb == bb,
            None => false,
        };
        proof {
            crate::builder::function::model::lemma_booleans_frame(
                old(self)@,
                f@,
                bb as int,
                old(self)@.phis_bblock.len() as int,
            );
        }
        if !skip {
            let n = self.phis_bblock.len();
            let mut k: usize = 0;
            while k < n
                invariant
                    k <= n,
                    n == old(self)@.phis_bblock.len(),
                    bb < f@.blocks.len(),
                    forall|j: int|
                        0 <= j < old(self)@.phis_bblock.len() ==> 0 <= #[trigger] old(
                            self,
                        )@.phis_bblock[j] < f@.blocks.len(),
                    self@ =~~= (BuilderSpec {
                        body: crate::builder::function::model::spec_set_booleans_upto(
                            old(self)@,
                            f@,
                            bb as int,
                            k as int,
                        ).body,
                        ..old(self)@
                    }),
                decreases n - k,
            {
                proof {
                    crate::builder::function::model::lemma_booleans_frame(
                        old(self)@,
                        f@,
                        bb as int,
                        k as int,
                    );
                    assert(f@.blocks[old(self)@.phis_bblock[k as int]].name == f.blocks@[old(
                        self,
                    )@.phis_bblock[k as int]]@.name);
                }
                let p = self.phis_bblock[k];
                let pname = self.get_name(f.blocks[p].name.as_str());
                let bbname = self.get_name(f.blocks[bb].name.as_str());
                let mut line = "is_from_".to_owned();
                line.append(pname.as_str());
                if pname == bbname {
                    line.append(" = true;");
                } else {
                    line.append(" = false;");
                }
                self.push_body_line(line);
                k += 1;
            }
        }
    }
}

/// The source name of the value an operand refers to (empty for constants).
pub fn operand_source_name(f: &FunctionIr, op: &OperandIr) -> (r: String)
    requires
        operand_wf(*op, f@),
    ensures
        r@ == crate::ir::spec_operand_source_name(*op, f@),
{
    match op {
        OperandIr::Param { i } => f.params[*i].name.clone(),
        OperandIr::Value { b, i } => f.blocks[*b].instrs[*i].name.clone(),
        OperandIr::ConstInt { .. } => String::new(),
    }
}

/// The rendered form of one parameter: `name: ty`.
pub open spec fn spec_param_text(p: ParamTextV) -> Seq<char> {
    p.name + ": "@ + p.ty
}

/// The rendered parameter list, comma separated.
pub open spec fn spec_params_text(ps: Seq<ParamTextV>) -> Seq<char> {
    crate::text::spec_join(ps.map_values(|p: ParamTextV| spec_param_text(p)), ","@)
}

/// The rendered signature: `pub fn name(params) -> ret`.
pub open spec fn spec_sig_text(s: SigV) -> Seq<char> {
    "pub fn "@ + s.name + "("@ + spec_params_text(s.params) + ") -> "@ + s.ret
}

/// The rendered body: its lines joined by newlines.
pub open spec fn spec_body_text(b: Seq<Seq<char>>) -> Seq<char> {
    crate::text::spec_join(b, "\n"@)
}

/// The rendered function: signature, an opening brace, the body, and a
/// closing brace on its own line.
pub open spec fn spec_function_text(f: CairoFunctionV) -> Seq<char> {
    spec_sig_text(f.sig) + " {\n"@ + spec_body_text(f.body) + "\n}"@
}

impl CairoParameter {
    /// This parameter as Cairo text.
    pub fn render(&self) -> (r: String)
        ensures
            r@ == spec_param_text(self@),
    {
        let mut out = self.name.clone();
        out.append(": ");
        out.append(self.ty.as_str());
        out
    }
}

impl CairoParameters {
    /// The comma-separated parameter list as Cairo text.
    pub fn render(&self) -> (r: String)
        ensures
            r@ == spec_params_text(self@),
    {
        let n = self.0.len();
        let mut parts: Vec<String> = Vec::new();
        let mut k: usize = 0;
        while k < n
            invariant
                k <= n,
                n == self.0@.len(),
                parts@.len() == k,
                forall|j: int|
                    0 <= j < k ==> (#[trigger] parts@[j])@ == spec_param_text(self@[j]),
            decreases n - k,
        {
            let item = self.0[k].render();
            proof {
                assert(self@[k as int] == self.0@[k as int]@);
                assert(item@ == spec_param_text(self@[k as int]));
            }
            parts.push(item);
            k += 1;
        }
        proof {
            assert(parts@.map_values(|s: String| s@) =~~= self@.map_values(
                |p: ParamTextV| spec_param_text(p),
            ));
        }
        crate::text::join_strings(&parts, ",")
    }
}

impl CairoFunctionSignature {
    /// The signature as Cairo text.
    pub fn render(&self) -> (r: String)
        ensures
            r@ == spec_sig_text(self@),
    {
        let mut out = "pub fn ".to_owned();
        out.append(self.name.as_str());
        out.append("(");
        let ps = self.parameters.render();
        out.append(ps.as_str());
        out.append(") -> ");
        out.append(self.return_type.as_str());
        out
    }
}

impl CairoFunctionBody {
    /// The body as Cairo text: its lines joined by newlines.
    pub fn render(&self) -> (r: String)
        ensures
            r@ == spec_body_text(self@),
    {
        crate::text::join_strings(&self.0, "\n")
    }
}

impl CairoFunction {
    /// The whole function as Cairo text.
    pub fn render(&self) -> (r: String)
        ensures
            r@ == spec_function_text(self@),
    {
        let mut out = self.signature.render();
        out.append(" {\n");
        let b = self.body.render();
        out.append(b.as_str());
        out.append("\n}");
        out
    }
}

impl PartialEq for CairoParameter {
    fn eq(&self, other: &Self) -> (r: bool) {
        let r = self.name == other.name && self.ty == other.ty;
        proof {
            if r {
                assert(self@ =~~= other@);
            }
        }
        r
    }
}

impl vstd::std_specs::cmp::PartialEqSpecImpl for CairoParameter {
    open spec fn obeys_eq_spec() -> bool {
        true
    }

    open spec fn eq_spec(&self, other: &Self) -> bool {
        self@ == other@
    }
}

impl PartialEq for CairoParameters {
    fn eq(&self, other: &Self) -> (r: bool) {
        if self.0.len() != other.0.len() {
            proof {
                assert(self@.len() != other@.len());
            }
            return false;
        }
        let n = self.0.len();
        let mut k: usize = 0;
        while k < n
            invariant
                k <= n,
                n == self.0@.len(),
                n == other.0@.len(),
                forall|j: int| 0 <= j < k ==> self@[j] == other@[j],
            decreases n - k,
        {
            if !(self.0[k] == other.0[k]) {
                proof {
                    assert(self@[k as int] != other@[k as int]);
                }
                return false;
            }
            k += 1;
        }
        proof {
            assert(self@ =~~= other@);
        }
        true
    }
}

impl vstd::std_specs::cmp::PartialEqSpecImpl for CairoParameters {
    open spec fn obeys_eq_spec() -> bool {
        true
    }

    open spec fn eq_spec(&self, other: &Self) -> bool {
        self@ == other@
    }
}

impl PartialEq for CairoFunctionSignature {
    fn eq(&self, other: &Self) -> (r: bool) {
        let r = self.name == other.name && self.parameters == other.parameters
            && self.return_type == other.return_type;
        proof {
            if r {
                assert(self@ =~~= other@);
            }
        }
        r
    }
}

impl vstd::std_specs::cmp::PartialEqSpecImpl for CairoFunctionSignature {
    open spec fn obeys_eq_spec() -> bool {
        true
    }

    open spec fn eq_spec(&self, other: &Self) -> bool {
        self@ == other@
    }
}

impl PartialEq for CairoFunctionBody {
    fn eq(&self, other: &Self) -> (r: bool) {
        if self.0.len() != other.0.len() {
            proof {
                assert(self@.len() != other@.len());
            }
            return false;
        }
        let n = self.0.len();
        let mut k: usize = 0;
        while k < n
            invariant
                k <= n,
                n == self.0@.len(),
                n == other.0@.len(),
                forall|j: int| 0 <= j < k ==> self@[j] == other@[j],
            decreases n - k,
        {
            if !(self.0[k] == other.0[k]) {
                proof {
                    assert(self@[k as int] != other@[k as int]);
                }
                return false;
            }
            k += 1;
        }
        proof {
            assert(self@ =~~= other@);
        }
        true
    }
}

impl vstd::std_specs::cmp::PartialEqSpecImpl for CairoFunctionBody {
    open spec fn obeys_eq_spec() -> bool {
        true
    }

    open spec fn eq_spec(&self, other: &Self) -> bool {
        self@ == other@
    }
}

impl PartialEq for CairoFunction {
    fn eq(&self, other: &Self) -> (r: bool) {
        let r = self.signature == other.signature && self.body == other.body;
        proof {
            if r {
                assert(self@ =~~= other@);
            }
        }
        r
    }
}

impl vstd::std_specs::cmp::PartialEqSpecImpl for CairoFunction {
    open spec fn obeys_eq_spec() -> bool {
        true
    }

    open spec fn eq_spec(&self, other: &Self) -> bool {
        self@ == other@
    }
}

} // verus!
