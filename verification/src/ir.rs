//! The input model: a read-only module tree of functions in SSA form.
//!
//! Loading and parsing the textual IR is the job of an external loader;
//! the translator only consumes this tree.  Every value is identified by
//! position: a parameter by its index, an instruction result by the pair
//! of its block index and its position inside the block.

use vstd::prelude::*;

verus! {

/// A reference to an SSA value, or an integer constant with its bit width.
#[derive(Clone, Copy, PartialEq, Eq, Structural)]
pub enum OperandIr {
    /// The `i`-th parameter of the enclosing function.
    Param { i: usize },
    /// The result of instruction `i` of block `b`.
    Value { b: usize, i: usize },
    /// An integer constant of type `i<width>`.
    ConstInt { value: i128, width: u32 },
}

/// Integer comparison predicates the translator understands.
#[derive(Clone, Copy, PartialEq, Eq, Structural)]
pub enum IcmpPredIr {
    Eq,
    Ne,
    Ult,
    /// Any other predicate: the instruction is skipped.
    Unsupported,
}

/// The operation an instruction performs, with its typed operands.
#[derive(Clone, Copy, PartialEq, Eq, Structural)]
pub enum OpIr {
    Add { lhs: OperandIr, rhs: OperandIr },
    Sub { lhs: OperandIr, rhs: OperandIr },
    Icmp { pred: IcmpPredIr, lhs: OperandIr, rhs: OperandIr },
    Zext { arg: OperandIr },
    /// Unconditional branch to block `target`.
    Br { target: usize },
    /// Conditional branch: `then_target` is the first label operand after
    /// the condition, `else_target` the second.
    CondBr { cond: OperandIr, then_target: usize, else_target: usize },
    /// A phi with exactly two incomings: each is a value together with
    /// the block index it comes from.
    Phi { v1: OperandIr, b1: usize, v2: OperandIr, b2: usize },
    /// Return; `None` models a void return.
    Ret { value: Option<OperandIr> },
    /// Any opcode outside the supported set: emits an empty line.
    Other,
}

/// One instruction: its source name (possibly empty), the bit width of
/// its result type, and its operation.
pub struct InstrIr {
    pub name: String,
    pub width: u32,
    pub op: OpIr,
}

/// One basic block: its source name (possibly empty) and its instructions.
pub struct BlockIr {
    pub name: String,
    pub instrs: Vec<InstrIr>,
}

/// One function parameter: its source name and the bit width of its type.
pub struct ParamIr {
    pub name: String,
    pub width: u32,
}

/// A function: name, parameters, return width (`None` for void) and its
/// basic blocks.  The first block is the entry.
pub struct FunctionIr {
    pub name: String,
    pub params: Vec<ParamIr>,
    pub ret_width: Option<u32>,
    pub blocks: Vec<BlockIr>,
}

/// A module: an ordered sequence of functions.
pub struct ModuleIr {
    pub functions: Vec<FunctionIr>,
}

#[verifier::ext_equal]
pub struct InstrV {
    pub name: Seq<char>,
    pub width: u32,
    pub op: OpIr,
}

#[verifier::ext_equal]
pub struct BlockV {
    pub name: Seq<char>,
    pub instrs: Seq<InstrV>,
}

#[verifier::ext_equal]
pub struct ParamV {
    pub name: Seq<char>,
    pub width: u32,
}

#[verifier::ext_equal]
pub struct FuncV {
    pub name: Seq<char>,
    pub params: Seq<ParamV>,
    pub ret_width: Option<u32>,
    pub blocks: Seq<BlockV>,
}

#[verifier::ext_equal]
pub struct ModuleV {
    pub functions: Seq<FuncV>,
}

impl View for InstrIr {
    type V = InstrV;

    open spec fn view(&self) -> InstrV {
        InstrV { name: self.name@, width: self.width, op: self.op }
    }
}

impl View for BlockIr {
    type V = BlockV;

    open spec fn view(&self) -> BlockV {
        BlockV { name: self.name@, instrs: self.instrs@.map_values(|x: InstrIr| x@) }
    }
}

impl View for ParamIr {
    type V = ParamV;

    open spec fn view(&self) -> ParamV {
        ParamV { name: self.name@, width: self.width }
    }
}

impl View for FunctionIr {
    type V = FuncV;

    open spec fn view(&self) -> FuncV {
        FuncV {
            name: self.name@,
            params: self.params@.map_values(|x: ParamIr| x@),
            ret_width: self.ret_width,
            blocks: self.blocks@.map_values(|x: BlockIr| x@),
        }
    }
}

impl View for ModuleIr {
    type V = ModuleV;

    open spec fn view(&self) -> ModuleV {
        ModuleV { functions: self.functions@.map_values(|x: FunctionIr| x@) }
    }
}

/// An operand only refers to parameters and instructions that exist.
pub open spec fn operand_wf(op: OperandIr, f: FuncV) -> bool {
    match op {
        OperandIr::Param { i } => i < f.params.len(),
        OperandIr::Value { b, i } => b < f.blocks.len() && i < f.blocks[b as int].instrs.len(),
        OperandIr::ConstInt { .. } => true,
    }
}

/// All operands and block targets of an operation are in bounds.
pub open spec fn op_wf(o: OpIr, f: FuncV) -> bool {
    match o {
        OpIr::Add { lhs, rhs } => operand_wf(lhs, f) && operand_wf(rhs, f),
        OpIr::Sub { lhs, rhs } => operand_wf(lhs, f) && operand_wf(rhs, f),
        OpIr::Icmp { lhs, rhs, .. } => operand_wf(lhs, f) && operand_wf(rhs, f),
        OpIr::Zext { arg } => operand_wf(arg, f),
        OpIr::Br { target } => target < f.blocks.len(),
        OpIr::CondBr { cond, then_target, else_target } => operand_wf(cond, f) && then_target
            < f.blocks.len() && else_target < f.blocks.len(),
        OpIr::Phi { v1, b1, v2, b2 } => operand_wf(v1, f) && b1 < f.blocks.len() && operand_wf(
            v2,
            f,
        ) && b2 < f.blocks.len(),
        OpIr::Ret { value } => match value {
            Some(v) => operand_wf(v, f),
            None => true,
        },
        OpIr::Other => true,
    }
}

/// Total number of instructions of the function.
pub open spec fn total_instrs(blocks: Seq<BlockV>) -> int
    decreases blocks.len(),
{
    if blocks.len() == 0 {
        0
    } else {
        total_instrs(blocks.drop_last()) + blocks.last().instrs.len()
    }
}

/// Well-formed input: every operand and branch target is in bounds, and
/// the function is small enough for the machine (the graph is indexed
/// with 32-bit node and edge indices).
pub open spec fn func_wf(f: FuncV) -> bool {
    &&& forall|b: int, i: int|
        0 <= b < f.blocks.len() && 0 <= i < f.blocks[b].instrs.len() ==> op_wf(
            #[trigger] f.blocks[b].instrs[i].op,
            f,
        )
    &&& f.params.len() + total_instrs(f.blocks) < usize::MAX
    &&& f.blocks.len() + 1 < 0xffff_ffff
    &&& 2 * total_instrs(f.blocks) + 2 < 0xffff_ffff
}

pub proof fn lemma_total_instrs_nonneg(blocks: Seq<BlockV>)
    ensures
        0 <= total_instrs(blocks),
    decreases blocks.len(),
{
    if blocks.len() > 0 {
        lemma_total_instrs_nonneg(blocks.drop_last());
    }
}

/// One block more in the prefix adds that block's instruction count.
pub proof fn lemma_total_instrs_step(blocks: Seq<BlockV>, b: int)
    requires
        0 <= b < blocks.len(),
    ensures
        total_instrs(blocks.subrange(0, b + 1)) == total_instrs(blocks.subrange(0, b))
            + blocks[b].instrs.len(),
{
    assert(blocks.subrange(0, b + 1).drop_last() =~= blocks.subrange(0, b));
    assert(blocks.subrange(0, b + 1).last() == blocks[b]);
}

/// A prefix never holds more instructions than the whole.
pub proof fn lemma_total_instrs_prefix_le(blocks: Seq<BlockV>, b: int)
    requires
        0 <= b <= blocks.len(),
    ensures
        0 <= total_instrs(blocks.subrange(0, b)) <= total_instrs(blocks),
    decreases blocks.len() - b,
{
    lemma_total_instrs_nonneg(blocks.subrange(0, b));
    if b == blocks.len() {
        assert(blocks.subrange(0, b) =~= blocks);
    } else {
        lemma_total_instrs_step(blocks, b);
        lemma_total_instrs_prefix_le(blocks, b + 1);
    }
}

pub open spec fn module_wf(m: ModuleV) -> bool {
    forall|i: int| 0 <= i < m.functions.len() ==> func_wf(#[trigger] m.functions[i])
}

/// The source name of the value an operand refers to; constants have none.
pub open spec fn spec_operand_source_name(op: OperandIr, f: FuncV) -> Seq<char> {
    match op {
        OperandIr::Param { i } => f.params[i as int].name,
        OperandIr::Value { b, i } => f.blocks[b as int].instrs[i as int].name,
        OperandIr::ConstInt { .. } => Seq::empty(),
    }
}

} // verus!
