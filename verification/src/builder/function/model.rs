//! The mathematical model of the translation: for every step the emitter
//! takes, a specification function that says exactly which lines come out
//! and how the name map evolves.  The executable translator is proved to
//! match this model line for line.

use vstd::prelude::*;

use crate::builder::function::{BuilderSpec, CairoFunctionV, ParamTextV, SigV};
use crate::graph::{spec_loop_blocks, spec_return_block};
use crate::ir::{FuncV, ModuleV, OpIr, OperandIr, IcmpPredIr, spec_operand_source_name};
use crate::text::{spec_dec, spec_resolved_name, spec_udec};
use crate::vars::{VarMapV, spec_vm_init, spec_vm_set_param, spec_vm_set_value};

verus! {

/// The rendered type of an integer of width `w`: `i<w>`.
pub open spec fn spec_ty(w: u32) -> Seq<char> {
    "i"@ + spec_udec(w as nat)
}

/// The rendered return type; void renders as the unit type.
pub open spec fn spec_ret_ty(r: Option<u32>) -> Seq<char> {
    match r {
        Some(w) => spec_ty(w),
        None => "()"@,
    }
}

/// A constant with its mandatory width suffix: `<k>_i<w>`.
pub open spec fn spec_const_text(value: i128, width: u32) -> Seq<char> {
    spec_dec(value as int) + "_"@ + spec_ty(width)
}

/// The stored name of the value an operand refers to, if any.
pub open spec fn spec_vm_get(vars: VarMapV, op: OperandIr) -> Option<Seq<char>> {
    match op {
        OperandIr::Param { i } => vars.params[i as int],
        OperandIr::Value { b, i } => vars.instrs[b as int][i as int],
        OperandIr::ConstInt { .. } => None,
    }
}

/// Store a name for the value an operand refers to.
pub open spec fn spec_vm_set(vars: VarMapV, op: OperandIr, name: Seq<char>) -> VarMapV {
    match op {
        OperandIr::Param { i } => spec_vm_set_param(vars, i as int, name),
        OperandIr::Value { b, i } => spec_vm_set_value(vars, b as int, i as int, name),
        OperandIr::ConstInt { .. } => vars,
    }
}

/// First match in an association list of shadow entries.
pub open spec fn spec_assoc(row: Seq<(int, Seq<char>)>, i: int) -> Option<Seq<char>>
    decreases row.len(),
{
    if row.len() == 0 {
        None
    } else if row[0].0 == i {
        Some(row[0].1)
    } else {
        spec_assoc(row.drop_first(), i)
    }
}

/// Resolution used for return values and branch conditions: a constant
/// renders directly, a value uses its stored name, else a name is derived
/// from the source (without storing it).
pub open spec fn spec_resolve_plain(st: BuilderSpec, f: FuncV, op: OperandIr) -> Seq<char> {
    match op {
        OperandIr::ConstInt { value, width } => spec_const_text(value, width),
        _ => match spec_vm_get(st.vars, op) {
            Some(n) => n,
            None => spec_resolved_name(spec_operand_source_name(op, f), st.vars.n),
        },
    }
}

/// Resolution used for binary operands: a value shadowed in this block
/// uses its `_temp` name; everything else resolves through the map (a
/// stored name, a rendered constant, or a fresh name that is stored).
pub open spec fn spec_resolve_shadow(st: BuilderSpec, f: FuncV, bb: int, op: OperandIr) -> (
    Seq<char>,
    VarMapV,
) {
    match op {
        OperandIr::Value { b, i } => {
            let sh = if b == bb {
                spec_assoc(st.shadows[bb], i as int)
            } else {
                None
            };
            match sh {
                Some(n) => (n, st.vars),
                None => spec_resolve_value(st.vars, f, op),
            }
        },
        _ => spec_resolve_value(st.vars, f, op),
    }
}

/// Resolution of a value for use in an expression: the stored name when
/// there is one, a rendered constant, else a fresh name that is stored.
pub open spec fn spec_resolve_value(vars: VarMapV, f: FuncV, op: OperandIr) -> (
    Seq<char>,
    VarMapV,
) {
    match op {
        OperandIr::ConstInt { value, width } => (spec_const_text(value, width), vars),
        _ => match spec_vm_get(vars, op) {
            Some(n) => (n, vars),
            None => {
                let nm = spec_resolved_name(spec_operand_source_name(op, f), vars.n);
                (nm, spec_vm_set(vars, op, nm))
            },
        },
    }
}

/// The text an instruction result is assigned through: the bare stored
/// name when it was pre-declared, else `let <fresh name>`, stored.
pub open spec fn spec_result_name(vars: VarMapV, f: FuncV, bb: int, i: int) -> (
    Seq<char>,
    VarMapV,
) {
    match vars.instrs[bb][i] {
        Some(n) => (n, vars),
        None => {
            let nm = spec_resolved_name(f.blocks[bb].instrs[i].name, vars.n);
            ("let "@ + nm, spec_vm_set_value(vars, bb, i, nm))
        },
    }
}

/// A binary operation: `<target> = <lhs> <op> <rhs>;`, as the new state
/// and the emitted line (pushed by the block walker).
pub open spec fn spec_binary_parts(
    st: BuilderSpec,
    f: FuncV,
    bb: int,
    i: int,
    opstr: Seq<char>,
    lhs: OperandIr,
    rhs: OperandIr,
) -> (BuilderSpec, Seq<char>) {
    let (target, vars1) = spec_result_name(st.vars, f, bb, i);
    let st1 = BuilderSpec { vars: vars1, ..st };
    let (lname, vars2) = spec_resolve_shadow(st1, f, bb, lhs);
    let st2 = BuilderSpec { vars: vars2, ..st1 };
    let (rname, vars3) = spec_resolve_shadow(st2, f, bb, rhs);
    let st3 = BuilderSpec { vars: vars3, ..st2 };
    let line = target + " = "@ + lname + " "@ + opstr + " "@ + rname + ";"@;
    (st3, line)
}

pub open spec fn spec_binary_step(
    st: BuilderSpec,
    f: FuncV,
    bb: int,
    i: int,
    opstr: Seq<char>,
    lhs: OperandIr,
    rhs: OperandIr,
) -> BuilderSpec {
    let (st1, line) = spec_binary_parts(st, f, bb, i, opstr, lhs, rhs);
    BuilderSpec { body: st1.body.push(line), ..st1 }
}

/// A zero extension: `<target> = <arg> as <ty>;`.
pub open spec fn spec_zext_parts(st: BuilderSpec, f: FuncV, bb: int, i: int, arg: OperandIr) -> (
    BuilderSpec,
    Seq<char>,
) {
    let (target, vars1) = spec_result_name(st.vars, f, bb, i);
    let st1 = BuilderSpec { vars: vars1, ..st };
    let (aname, vars2) = spec_resolve_shadow(st1, f, bb, arg);
    let st2 = BuilderSpec { vars: vars2, ..st1 };
    let line = target + " = "@ + aname + " as "@ + spec_ty(f.blocks[bb].instrs[i].width) + ";"@;
    (st2, line)
}

pub open spec fn spec_zext_step(st: BuilderSpec, f: FuncV, bb: int, i: int, arg: OperandIr) -> BuilderSpec {
    let (st1, line) = spec_zext_parts(st, f, bb, i, arg);
    BuilderSpec { body: st1.body.push(line), ..st1 }
}

/// The text of a return line.
pub open spec fn spec_return_line(st: BuilderSpec, f: FuncV, value: Option<OperandIr>) -> Seq<
    char,
> {
    match value {
        Some(op) => "return "@ + spec_resolve_plain(st, f, op) + ";"@,
        None => "return ;"@,
    }
}

/// A phi becomes a conditional over the provenance booleans of its two
/// incoming blocks; a shadowed phi assigns its `_temp` name instead.
/// The `let` keyword is suppressed when the name was pre-declared by the
/// scope planner; a `_temp` shadow name never is, so it keeps its `let`.
pub open spec fn spec_phi_parts(
    st: BuilderSpec,
    f: FuncV,
    bb: int,
    i: int,
    v1: OperandIr,
    b1: int,
    v2: OperandIr,
    b2: int,
) -> (BuilderSpec, Seq<char>) {
    let (phi_name, has_let, vars1) = match spec_assoc(st.shadows[bb], i) {
        Some(n) => (n, true, st.vars),
        None => match st.vars.instrs[bb][i] {
            Some(n) => (n, false, st.vars),
            None => {
                let nm = spec_resolved_name(f.blocks[bb].instrs[i].name, st.vars.n);
                (nm, true, spec_vm_set_value(st.vars, bb, i, nm))
            },
        },
    };
    let (lname, vars2) = spec_resolve_value(vars1, f, v1);
    let (rname, vars3) = spec_resolve_value(vars2, f, v2);
    let bn1 = spec_resolved_name(f.blocks[b1].name, vars3.n);
    let bn2 = spec_resolved_name(f.blocks[b2].name, vars3.n);
    let lp = if has_let {
        "let "@
    } else {
        Seq::<char>::empty()
    };
    let line = lp + phi_name + " = if is_from_"@ + bn1 + " { "@ + lname
        + " } else if is_from_"@ + bn2 + " { "@ + rname
        + " } else { panic!(\"There is a bug in the compiler at var "@ + phi_name
        + " please report it\")};"@;
    (BuilderSpec { vars: vars3, ..st }, line)
}

pub open spec fn spec_phi_step(
    st: BuilderSpec,
    f: FuncV,
    bb: int,
    i: int,
    v1: OperandIr,
    b1: int,
    v2: OperandIr,
    b2: int,
) -> BuilderSpec {
    let (st1, line) = spec_phi_parts(st, f, bb, i, v1, b1, v2, b2);
    BuilderSpec { body: st1.body.push(line), ..st1 }
}

/// One provenance update line for block `p`, while leaving block `bb`.
pub open spec fn spec_bool_line(f: FuncV, p: int, bb: int, n: nat) -> Seq<char> {
    let pname = spec_resolved_name(f.blocks[p].name, n);
    let bbname = spec_resolved_name(f.blocks[bb].name, n);
    "is_from_"@ + pname + (if pname == bbname {
        " = true;"@
    } else {
        " = false;"@
    })
}

pub open spec fn spec_set_booleans_upto(st: BuilderSpec, f: FuncV, bb: int, k: int) -> BuilderSpec
    decreases k,
{
    if k <= 0 {
        st
    } else {
        let stp = spec_set_booleans_upto(st, f, bb, k - 1);
        BuilderSpec {
            body: stp.body.push(spec_bool_line(f, st.phis_bblock[k - 1], bb, st.vars.n)),
            ..stp
        }
    }
}

/// At every terminator outside the return block, one update per member
/// of the phi predecessor set, in order.
pub open spec fn spec_set_booleans(st: BuilderSpec, f: FuncV, bb: int) -> BuilderSpec {
    if st.return_block == Some(bb) {
        st
    } else {
        spec_set_booleans_upto(st, f, bb, st.phis_bblock.len() as int)
    }
}

/// Shadow names end in `_temp`; the committed variable drops every such
/// trailing suffix.
pub open spec fn spec_trim_temp(nm: Seq<char>) -> Seq<char>
    decreases nm.len(),
{
    if nm.len() >= 5 && nm.subrange(nm.len() - 5, nm.len() as int) == "_temp"@ {
        spec_trim_temp(nm.subrange(0, nm.len() - 5))
    } else {
        nm
    }
}

/// The commit lines for the shadowed phis of a block, in order.
pub open spec fn spec_commits_upto(st: BuilderSpec, bb: int, k: int) -> BuilderSpec
    decreases k,
{
    if k <= 0 {
        st
    } else {
        let stp = spec_commits_upto(st, bb, k - 1);
        let e = st.shadows[bb][k - 1];
        BuilderSpec { body: stp.body.push(spec_trim_temp(e.1) + " = "@ + e.1 + ";"@), ..stp }
    }
}

pub open spec fn spec_is_branch(o: OpIr) -> bool {
    match o {
        OpIr::Br { .. } => true,
        OpIr::CondBr { .. } => true,
        _ => false,
    }
}

pub open spec fn spec_is_ret(o: OpIr) -> bool {
    match o {
        OpIr::Ret { .. } => true,
        _ => false,
    }
}

pub open spec fn spec_is_phi(o: OpIr) -> bool {
    match o {
        OpIr::Phi { .. } => true,
        _ => false,
    }
}

/// Pre-declaration of every value a scope-opening block defines, as a
/// zero-initialized mutable binding.
pub open spec fn spec_predeclare_upto(st: BuilderSpec, f: FuncV, bb: int, k: int) -> BuilderSpec
    decreases k,
{
    if k <= 0 {
        st
    } else {
        let stp = spec_predeclare_upto(st, f, bb, k - 1);
        let instr = f.blocks[bb].instrs[k - 1];
        if spec_is_branch(instr.op) || spec_is_ret(instr.op) {
            stp
        } else {
            let nm = spec_resolved_name(instr.name, stp.vars.n);
            let val = if instr.width == 1 {
                "false"@
            } else {
                "0_"@ + spec_ty(instr.width)
            };
            BuilderSpec {
                vars: spec_vm_set_value(stp.vars, bb, k - 1, nm),
                body: stp.body.push("let mut "@ + nm + " = "@ + val + ";"@),
                ..stp
            }
        }
    }
}

/// Everything emitted when a block starts: pre-declarations when a new
/// scope opens, then the scope opener itself.
pub open spec fn spec_prepare_new_scopes(
    st: BuilderSpec,
    f: FuncV,
    bb: int,
    is_else: bool,
    is_loop: bool,
) -> BuilderSpec {
    let st1 = if is_loop || st.if_blocks[bb] is Some || is_else {
        spec_predeclare_upto(st, f, bb, f.blocks[bb].instrs.len() as int)
    } else {
        st
    };
    let st2 = match st1.if_blocks[bb] {
        Some(cond) => BuilderSpec {
            body: st1.body.push("if !"@ + spec_resolve_plain(st1, f, cond) + " {"@),
            ..st1
        },
        None => {
            if st1.return_block == Some(bb) && is_else {
                BuilderSpec { body: st1.body.push("}"@), ..st1 }
            } else if is_else {
                BuilderSpec { body: st1.body.push("} else {"@), ..st1 }
            } else {
                st1
            }
        },
    };
    if is_loop {
        BuilderSpec { body: st2.body.push("loop {"@), ..st2 }
    } else {
        st2
    }
}

/// Everything emitted when a block's scopes close.
pub open spec fn spec_close_scopes(st: BuilderSpec, bb: int, is_else: bool, is_loop: bool) -> BuilderSpec {
    let in_else_outside_return = match st.return_block {
        Some(rb) => rb != bb,
        None => false,
    } && is_else;
    let at_return = st.return_block == Some(bb);
    let st1 = if in_else_outside_return || at_return {
        BuilderSpec { body: st.body.push("}"@), ..st }
    } else {
        st
    };
    if is_loop {
        BuilderSpec { body: st1.body.push("};"@), ..st1 }
    } else {
        st1
    }
}

/// Translating one whole block: open its scopes, then its instructions
/// in order.  `fuel` bounds the recursion through branches; it only runs
/// out on control flow outside the supported class, and then the state
/// is marked truncated.
pub open spec fn spec_process_basic_block(st: BuilderSpec, f: FuncV, bb: int, fuel: nat) -> BuilderSpec
    decreases fuel, 2int, 0int,
{
    if fuel == 0 {
        BuilderSpec { truncated: true, ..st }
    } else {
        let is_loop = st.bb_loop.contains(bb);
        let is_else = st.else_blocks[bb];
        let st1 = spec_prepare_new_scopes(st, f, bb, is_else, is_loop);
        spec_instrs_upto(st1, f, bb, f.blocks[bb].instrs.len() as int, is_loop, is_else, fuel)
    }
}

/// The first `k` instructions of block `bb`, processed in order.
pub open spec fn spec_instrs_upto(
    st: BuilderSpec,
    f: FuncV,
    bb: int,
    k: int,
    is_loop: bool,
    is_else: bool,
    fuel: nat,
) -> BuilderSpec
    decreases fuel, 1int, k,
{
    if k <= 0 {
        st
    } else {
        let stp = spec_instrs_upto(st, f, bb, k - 1, is_loop, is_else, fuel);
        spec_instr_step(stp, f, bb, k - 1, is_loop, is_else, fuel)
    }
}

/// One instruction: the emitted line is pushed after the step; a branch
/// inside a loop closes the loop right after.
pub open spec fn spec_instr_step(
    st: BuilderSpec,
    f: FuncV,
    bb: int,
    i: int,
    is_loop: bool,
    is_else: bool,
    fuel: nat,
) -> BuilderSpec
    decreases fuel, 0int, 1int,
{
    let instr = f.blocks[bb].instrs[i];
    match instr.op {
        OpIr::Add { lhs, rhs } => spec_binary_step(st, f, bb, i, "+"@, lhs, rhs),
        OpIr::Sub { lhs, rhs } => spec_binary_step(st, f, bb, i, "-"@, lhs, rhs),
        OpIr::Icmp { pred, lhs, rhs } => match pred {
            IcmpPredIr::Eq => spec_binary_step(st, f, bb, i, "=="@, lhs, rhs),
            IcmpPredIr::Ne => spec_binary_step(st, f, bb, i, "!="@, lhs, rhs),
            IcmpPredIr::Ult => spec_binary_step(st, f, bb, i, "<"@, lhs, rhs),
            IcmpPredIr::Unsupported => BuilderSpec {
                body: st.body.push(Seq::empty()),
                ..st
            },
        },
        OpIr::Zext { arg } => spec_zext_step(st, f, bb, i, arg),
        OpIr::Phi { v1, b1, v2, b2 } => spec_phi_step(st, f, bb, i, v1, b1 as int, v2, b2 as int),
        OpIr::Ret { value } => BuilderSpec {
            body: st.body.push(spec_return_line(st, f, value)),
            ..st
        },
        OpIr::Br { .. } => spec_branch_and_close(st, f, bb, i, is_loop, is_else, fuel),
        OpIr::CondBr { .. } => spec_branch_and_close(st, f, bb, i, is_loop, is_else, fuel),
        OpIr::Other => BuilderSpec { body: st.body.push(Seq::empty()), ..st },
    }
}

/// A branch step followed by pushing its returned line, and closing the
/// loop scope when the block is a loop.
pub open spec fn spec_branch_and_close(
    st: BuilderSpec,
    f: FuncV,
    bb: int,
    i: int,
    is_loop: bool,
    is_else: bool,
    fuel: nat,
) -> BuilderSpec
    decreases fuel, 0int, 0int, 1int,
{
    let (st2, line) = spec_process_branch(st, f, bb, i, is_loop, is_else, fuel);
    let st3 = BuilderSpec { body: st2.body.push(line), ..st2 };
    if is_loop {
        spec_close_scopes(st3, bb, is_else, is_loop)
    } else {
        st3
    }
}

/// A terminator: commit the shadowed phis, update the provenance
/// booleans, then follow the branch.  An unconditional branch recurses
/// into its successor; a conditional one either breaks the loop or
/// opens an if/else pair and recurses into both arms.
pub open spec fn spec_process_branch(
    st: BuilderSpec,
    f: FuncV,
    bb: int,
    i: int,
    is_loop: bool,
    is_else: bool,
    fuel: nat,
) -> (BuilderSpec, Seq<char>)
    decreases fuel, 0int, 0int, 0int,
{
    let st1 = spec_commits_upto(st, bb, st.shadows[bb].len() as int);
    let st2 = spec_set_booleans(st1, f, bb);
    if fuel == 0 {
        (st2, Seq::empty())
    } else {
        match f.blocks[bb].instrs[i].op {
            OpIr::Br { target } => (
                spec_process_basic_block(st2, f, target as int, (fuel - 1) as nat),
                Seq::empty(),
            ),
            OpIr::CondBr { cond, then_target, else_target } => {
                if is_loop {
                    let st3 = BuilderSpec {
                        body: st2.body.push("if "@ + spec_resolve_plain(st2, f, cond)),
                        ..st2
                    };
                    (st3, "{break;}"@)
                } else {
                    let st3 = spec_close_scopes(st2, bb, is_else, is_loop);
                    let st4 = BuilderSpec {
                        if_blocks: st3.if_blocks.update(then_target as int, Some(cond)),
                        ..st3
                    };
                    let st5 = spec_process_basic_block(st4, f, then_target as int, (fuel - 1) as nat);
                    let st6 = BuilderSpec {
                        else_blocks: st5.else_blocks.update(else_target as int, true),
                        ..st5
                    };
                    let st7 = spec_process_basic_block(st6, f, else_target as int, (fuel - 1) as nat);
                    (st7, Seq::empty())
                }
            },
            _ => (st2, Seq::empty()),
        }
    }
}

/// Ordered insertion into the phi predecessor listing.
pub open spec fn spec_phi_insert(s: Seq<int>, b: int) -> Seq<int> {
    if s.contains(b) {
        s
    } else {
        s.push(b)
    }
}

pub open spec fn spec_phis_in_block_upto(f: FuncV, b: int, i: int, s: Seq<int>) -> Seq<int>
    decreases i,
{
    if i <= 0 {
        s
    } else {
        let sp = spec_phis_in_block_upto(f, b, i - 1, s);
        match f.blocks[b].instrs[i - 1].op {
            OpIr::Phi { v1, b1, v2, b2 } => spec_phi_insert(spec_phi_insert(sp, b1 as int), b2 as int),
            _ => sp,
        }
    }
}

pub open spec fn spec_phis_blocks_upto(f: FuncV, b: int) -> Seq<int>
    decreases b,
{
    if b <= 0 {
        Seq::empty()
    } else {
        spec_phis_in_block_upto(
            f,
            b - 1,
            f.blocks[b - 1].instrs.len() as int,
            spec_phis_blocks_upto(f, b - 1),
        )
    }
}

/// Every block that appears as a phi incoming, in first-seen order.
pub open spec fn spec_phis_bblock(f: FuncV) -> Seq<int> {
    spec_phis_blocks_upto(f, f.blocks.len() as int)
}

/// Does this phi have `x` among its incomings?
pub open spec fn spec_phi_op_uses(o: OpIr, x: OperandIr) -> bool {
    match o {
        OpIr::Phi { v1, b1, v2, b2 } => v1 == x || v2 == x,
        _ => false,
    }
}

/// Does this phi use the result of instruction `i` of block `b`?
pub open spec fn spec_phi_uses_value(o: OpIr, b: int, i: int) -> bool {
    spec_phi_op_uses(o, OperandIr::Value { b: b as usize, i: i as usize })
}

/// All phi incomings of the first `i` instructions of block `b`, in order.
pub open spec fn spec_incs_upto(f: FuncV, b: int, i: int) -> Seq<OperandIr>
    decreases i,
{
    if i <= 0 {
        Seq::empty()
    } else {
        let sp = spec_incs_upto(f, b, i - 1);
        match f.blocks[b].instrs[i - 1].op {
            OpIr::Phi { v1, b1, v2, b2 } => sp.push(v1).push(v2),
            _ => sp,
        }
    }
}

pub proof fn lemma_push_contains<A>(s: Seq<A>, x: A, y: A)
    ensures
        s.push(x).contains(y) <==> s.contains(y) || x == y,
{
    if s.contains(y) {
        let j = choose|j: int| 0 <= j < s.len() && s[j] == y;
        assert(s.push(x)[j] == y);
    }
    if x == y {
        assert(s.push(x)[s.len() as int] == y);
    }
    if s.push(x).contains(y) {
        let j = choose|j: int| 0 <= j < s.push(x).len() && s.push(x)[j] == y;
        if j < s.len() {
            assert(s[j] == y);
        }
    }
}

/// The collected incoming list holds exactly what some phi among the
/// first `i` instructions uses.
pub proof fn lemma_incs_characterize(f: FuncV, b: int, i: int, x: OperandIr)
    requires
        0 <= i,
    ensures
        spec_incs_upto(f, b, i).contains(x) <==> exists|j: int|
            0 <= j < i && spec_phi_op_uses(#[trigger] f.blocks[b].instrs[j].op, x),
    decreases i,
{
    if i > 0 {
        lemma_incs_characterize(f, b, i - 1, x);
        let sp = spec_incs_upto(f, b, i - 1);
        match f.blocks[b].instrs[i - 1].op {
            OpIr::Phi { v1, b1, v2, b2 } => {
                lemma_push_contains(sp, v1, x);
                lemma_push_contains(sp.push(v1), v2, x);
            },
            _ => {},
        }
        if exists|j: int| 0 <= j < i - 1 && spec_phi_op_uses(#[trigger] f.blocks[b].instrs[j].op, x) {
            let j = choose|j: int|
                0 <= j < i - 1 && spec_phi_op_uses(#[trigger] f.blocks[b].instrs[j].op, x);
            assert(0 <= j < i && spec_phi_op_uses(f.blocks[b].instrs[j].op, x));
        }
    }
}

/// Is the result of instruction `i` of block `b` an incoming of any phi
/// of the same block?
pub open spec fn spec_block_phi_used(f: FuncV, b: int, i: int) -> bool {
    exists|j: int|
        0 <= j < f.blocks[b].instrs.len() && spec_phi_uses_value(
            #[trigger] f.blocks[b].instrs[j].op,
            b,
            i,
        )
}

/// The shadow entries of block `b` among its first `i` instructions:
/// phis whose result another phi of the block uses, with `_temp` names.
/// Names are derived while the map is still empty, so the counter is 0.
pub open spec fn spec_shadow_row_upto(f: FuncV, b: int, i: int) -> Seq<(int, Seq<char>)>
    decreases i,
{
    if i <= 0 {
        Seq::empty()
    } else {
        let sp = spec_shadow_row_upto(f, b, i - 1);
        let instr = f.blocks[b].instrs[i - 1];
        if spec_is_phi(instr.op) && spec_block_phi_used(f, b, i - 1) {
            sp.push((i - 1, spec_resolved_name(instr.name, 0) + "_temp"@))
        } else {
            sp
        }
    }
}

pub open spec fn spec_shadows(f: FuncV) -> Seq<Seq<(int, Seq<char>)>> {
    Seq::new(f.blocks.len(), |b: int| spec_shadow_row_upto(f, b, f.blocks[b].instrs.len() as int))
}

/// The builder state right after the structural analysis, when the flow
/// is reducible: loops are the self-branching blocks, the return block
/// is the last one all others lead to, and the phi bookkeeping is set.
pub open spec fn spec_init_builder(f: FuncV) -> BuilderSpec {
    BuilderSpec {
        bb_loop: spec_loop_blocks(f),
        vars: spec_vm_init(f),
        sig: SigV { name: Seq::empty(), params: Seq::empty(), ret: Seq::empty() },
        body: Seq::empty(),
        phis_bblock: spec_phis_bblock(f),
        shadows: spec_shadows(f),
        if_blocks: Seq::new(f.blocks.len(), |b: int| None),
        else_blocks: Seq::new(f.blocks.len(), |b: int| false),
        return_block: spec_return_block(f),
        truncated: false,
    }
}

/// The parameter list of the signature, naming each parameter in order.
pub open spec fn spec_sig_params_upto(f: FuncV, k: int, vars: VarMapV) -> (
    Seq<ParamTextV>,
    VarMapV,
)
    decreases k,
{
    if k <= 0 {
        (Seq::empty(), vars)
    } else {
        let (ps, vp) = spec_sig_params_upto(f, k - 1, vars);
        let nm = spec_resolved_name(f.params[k - 1].name, vp.n);
        (
            ps.push(ParamTextV { name: nm, ty: spec_ty(f.params[k - 1].width) }),
            spec_vm_set_param(vp, k - 1, nm),
        )
    }
}

/// The emitted function name: the source name, or `function{id}` when
/// the source has none.
pub open spec fn spec_fn_name(f: FuncV, fn_id: int) -> Seq<char> {
    if f.name.len() > 0 {
        f.name
    } else {
        "function"@ + spec_udec(fn_id as nat)
    }
}

pub open spec fn spec_signature(f: FuncV, fn_id: int, vars: VarMapV) -> (SigV, VarMapV) {
    let (ps, v1) = spec_sig_params_upto(f, f.params.len() as int, vars);
    (SigV { name: spec_fn_name(f, fn_id), params: ps, ret: spec_ret_ty(f.ret_width) }, v1)
}

/// The `let mut is_from_<block> = false;` declarations, one per member
/// of the phi predecessor set, in order.
pub open spec fn spec_is_from_decls_upto(st: BuilderSpec, f: FuncV, k: int) -> BuilderSpec
    decreases k,
{
    if k <= 0 {
        st
    } else {
        let stp = spec_is_from_decls_upto(st, f, k - 1);
        let p = st.phis_bblock[k - 1];
        BuilderSpec {
            body: stp.body.push(
                "let mut is_from_"@ + spec_resolved_name(f.blocks[p].name, st.vars.n)
                    + " = false;"@,
            ),
            ..stp
        }
    }
}

/// The whole translation of one function, as the final builder state.
/// This is the reference the executable translator is held to whenever
/// the control flow is reducible.
pub open spec fn spec_translate_builder(f: FuncV, fn_id: int) -> BuilderSpec {
    let st0 = spec_init_builder(f);
    let (sig, vars1) = spec_signature(f, fn_id, st0.vars);
    let st1 = BuilderSpec { sig: sig, vars: vars1, ..st0 };
    let st2 = spec_is_from_decls_upto(st1, f, st1.phis_bblock.len() as int);
    if f.blocks.len() > 0 {
        spec_process_basic_block(st2, f, 0, f.blocks.len() as nat)
    } else {
        st2
    }
}

/// The translated function: its signature and its emitted body.
pub open spec fn spec_translate(f: FuncV, fn_id: int) -> CairoFunctionV {
    let stf = spec_translate_builder(f, fn_id);
    CairoFunctionV { sig: stf.sig, body: stf.body }
}

/// The first `k` functions of the module, each translated with its
/// position as identifier.
pub open spec fn spec_module_upto(m: ModuleV, k: int) -> Seq<CairoFunctionV>
    decreases k,
{
    if k <= 0 {
        Seq::empty()
    } else {
        spec_module_upto(m, k - 1).push(spec_translate(m.functions[k - 1], k - 1))
    }
}

pub open spec fn spec_compile(m: ModuleV) -> Seq<CairoFunctionV> {
    spec_module_upto(m, m.functions.len() as int)
}

/// Emitting provenance updates only grows the body.
pub proof fn lemma_booleans_frame(st: BuilderSpec, f: FuncV, bb: int, k: int)
    ensures
        spec_set_booleans_upto(st, f, bb, k) =~~= (BuilderSpec {
            body: spec_set_booleans_upto(st, f, bb, k).body,
            ..st
        }),
    decreases k,
{
    if k > 0 {
        lemma_booleans_frame(st, f, bb, k - 1);
    }
}

/// Emitting shadow commits only grows the body.
pub proof fn lemma_commits_frame(st: BuilderSpec, bb: int, k: int)
    ensures
        spec_commits_upto(st, bb, k) =~~= (BuilderSpec {
            body: spec_commits_upto(st, bb, k).body,
            ..st
        }),
    decreases k,
{
    if k > 0 {
        lemma_commits_frame(st, bb, k - 1);
    }
}

/// Pre-declaration only grows the body and fills the name map.
pub proof fn lemma_predeclare_frame(st: BuilderSpec, f: FuncV, bb: int, k: int)
    ensures
        spec_predeclare_upto(st, f, bb, k) =~~= (BuilderSpec {
            vars: spec_predeclare_upto(st, f, bb, k).vars,
            body: spec_predeclare_upto(st, f, bb, k).body,
            ..st
        }),
    decreases k,
{
    if k > 0 {
        lemma_predeclare_frame(st, f, bb, k - 1);
    }
}

/// The `is_from` declarations only grow the body.
pub proof fn lemma_is_from_frame(st: BuilderSpec, f: FuncV, k: int)
    ensures
        spec_is_from_decls_upto(st, f, k) =~~= (BuilderSpec {
            body: spec_is_from_decls_upto(st, f, k).body,
            ..st
        }),
    decreases k,
{
    if k > 0 {
        lemma_is_from_frame(st, f, k - 1);
    }
}

} // verus!
