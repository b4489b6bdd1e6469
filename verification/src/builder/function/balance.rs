//! Brace accounting over emitted text: the net brace count of every
//! line the emitter can produce, building toward scope balance.

use vstd::prelude::*;

use crate::builder::function::model::{
    lemma_booleans_frame, lemma_commits_frame, lemma_predeclare_frame, spec_assoc,
    spec_binary_parts, spec_bool_line, spec_branch_and_close, spec_close_scopes,
    spec_commits_upto, spec_const_text, spec_instr_step, spec_instrs_upto, spec_is_branch,
    spec_phi_parts, spec_predeclare_upto, spec_prepare_new_scopes, spec_process_basic_block,
    spec_process_branch, spec_resolve_value, spec_resolve_plain, spec_resolve_shadow,
    spec_result_name, spec_return_line, spec_set_booleans, spec_set_booleans_upto,
    spec_trim_temp, spec_ty, spec_vm_get, spec_vm_set, spec_zext_parts,
};
use crate::builder::function::model::{
    lemma_is_from_frame, spec_init_builder, spec_is_from_decls_upto, spec_phi_insert,
    spec_phis_bblock, spec_phis_blocks_upto, spec_phis_in_block_upto, spec_shadow_row_upto,
    spec_shadows, spec_sig_params_upto, spec_signature, spec_translate_builder,
};
use crate::graph::{spec_loop_blocks, spec_return_block};
use crate::ir::{func_wf, op_wf, OpIr};
use crate::builder::function::BuilderSpec;
use crate::ir::{operand_wf, FuncV, OperandIr};
use crate::text::{spec_dec, spec_digit, spec_is_ident_char, spec_resolved_name, spec_sanitize, spec_udec};
use crate::vars::{vm_wf, VarMapV};

verus! {

/// Net brace count of a piece of text: opening braces minus closing ones.
pub open spec fn nb(s: Seq<char>) -> int
    decreases s.len(),
{
    if s.len() == 0 {
        0
    } else {
        nb(s.drop_last()) + if s.last() == '{' {
            1int
        } else if s.last() == '}' {
            -1int
        } else {
            0int
        }
    }
}

proof fn lemma_nb_concat(a: Seq<char>, b: Seq<char>)
    ensures
        nb(a + b) == nb(a) + nb(b),
    decreases b.len(),
{
    if b.len() == 0 {
        assert(a + b =~= a);
    } else {
        assert((a + b).drop_last() =~= a + b.drop_last());
        assert((a + b).last() == b.last());
        lemma_nb_concat(a, b.drop_last());
    }
}

/// Text that holds no brace at all.
pub open spec fn no_braces(s: Seq<char>) -> bool {
    forall|i: int| 0 <= i < s.len() ==> s[i] != '{' && s[i] != '}'
}

proof fn lemma_nb_no_braces(s: Seq<char>)
    requires
        no_braces(s),
    ensures
        nb(s) == 0,
    decreases s.len(),
{
    if s.len() > 0 {
        assert(no_braces(s.drop_last()));
        lemma_nb_no_braces(s.drop_last());
        assert(s.last() == s[s.len() - 1]);
    }
}

proof fn lemma_no_braces_concat(a: Seq<char>, b: Seq<char>)
    requires
        no_braces(a),
        no_braces(b),
    ensures
        no_braces(a + b),
{
    assert forall|i: int| 0 <= i < (a + b).len() implies (a + b)[i] != '{' && (a + b)[i] != '}' by {
        if i < a.len() {
            assert((a + b)[i] == a[i]);
        } else {
            assert((a + b)[i] == b[i - a.len()]);
        }
    }
}

proof fn lemma_no_braces_subrange(s: Seq<char>, lo: int, hi: int)
    requires
        no_braces(s),
        0 <= lo <= hi <= s.len(),
    ensures
        no_braces(s.subrange(lo, hi)),
{
}

/// Identifier characters are never braces.
proof fn lemma_ident_no_brace(c: char)
    requires
        spec_is_ident_char(c),
    ensures
        c != '{' && c != '}',
{
    assert('{' as u32 == 123);
    assert('}' as u32 == 125);
}

proof fn lemma_no_braces_sanitize(s: Seq<char>)
    ensures
        no_braces(spec_sanitize(s)),
    decreases s.len(),
{
    if s.len() > 0 {
        lemma_no_braces_sanitize(s.drop_last());
        if spec_is_ident_char(s.last()) {
            lemma_ident_no_brace(s.last());
            lemma_no_braces_concat(spec_sanitize(s.drop_last()), seq![s.last()]);
        } else {
            lemma_no_braces_concat(spec_sanitize(s.drop_last()), Seq::empty());
        }
    }
}

proof fn lemma_no_braces_digit(d: int)
    ensures
        spec_digit(d) != '{' && spec_digit(d) != '}',
{
}

proof fn lemma_no_braces_udec(n: nat)
    ensures
        no_braces(spec_udec(n)),
    decreases n,
{
    if n < 10 {
        lemma_no_braces_digit(n as int);
    } else {
        lemma_no_braces_udec(n / 10);
        lemma_no_braces_digit((n % 10) as int);
        assert forall|i: int| 0 <= i < spec_udec(n).len() implies spec_udec(n)[i] != '{'
            && spec_udec(n)[i] != '}' by {
            if i < spec_udec(n / 10).len() {
                assert(spec_udec(n)[i] == spec_udec(n / 10)[i]);
            } else {
                assert(spec_udec(n)[i] == spec_digit((n % 10) as int));
            }
        }
    }
}

proof fn lemma_no_braces_dec(v: int)
    ensures
        no_braces(spec_dec(v)),
{
    if v < 0 {
        lemma_no_braces_udec((-v) as nat);
        assert(no_braces(seq!['-']));
        lemma_no_braces_concat(seq!['-'], spec_udec((-v) as nat));
    } else {
        lemma_no_braces_udec(v as nat);
    }
}

proof fn lemma_no_braces_ty(w: u32)
    ensures
        no_braces(spec_ty(w)),
{
    reveal_strlit("i");
    assert(no_braces("i"@));
    lemma_no_braces_udec(w as nat);
    lemma_no_braces_concat("i"@, spec_udec(w as nat));
}

proof fn lemma_no_braces_const(value: i128, width: u32)
    ensures
        no_braces(spec_const_text(value, width)),
{
    reveal_strlit("_");
    assert(no_braces("_"@));
    lemma_no_braces_dec(value as int);
    lemma_no_braces_ty(width);
    lemma_no_braces_concat(spec_dec(value as int), "_"@);
    lemma_no_braces_concat(spec_dec(value as int) + "_"@, spec_ty(width));
}

proof fn lemma_no_braces_resolved(name: Seq<char>, k: nat)
    ensures
        no_braces(spec_resolved_name(name, k)),
{
    if name.len() > 0 {
        lemma_no_braces_sanitize(name);
    } else {
        reveal_strlit("var");
        assert(no_braces("var"@));
        lemma_no_braces_udec(k);
        lemma_no_braces_concat("var"@, spec_udec(k));
    }
}

proof fn lemma_nb_one(c: char)
    ensures
        nb(seq![c]) == (if c == '{' {
            1int
        } else if c == '}' {
            -1int
        } else {
            0int
        }),
{
    assert(seq![c].drop_last() =~= Seq::<char>::empty());
    assert(seq![c].last() == c);
    assert(nb(Seq::<char>::empty()) == 0);
}

/// The net count of a text whose only brace can sit at position `i`.
proof fn lemma_nb_one_brace_at(s: Seq<char>, i: int)
    requires
        0 <= i < s.len(),
        forall|j: int| 0 <= j < s.len() && j != i ==> s[j] != '{' && s[j] != '}',
    ensures
        nb(s) == (if s[i] == '{' {
            1int
        } else if s[i] == '}' {
            -1int
        } else {
            0int
        }),
{
    let a = s.subrange(0, i);
    let m = seq![s[i]];
    let b = s.subrange(i + 1, s.len() as int);
    assert(s =~= a + m + b);
    assert(no_braces(a));
    assert(no_braces(b));
    lemma_nb_no_braces(a);
    lemma_nb_no_braces(b);
    lemma_nb_one(s[i]);
    lemma_nb_concat(a, m);
    lemma_nb_concat(a + m, b);
}

/// The net count of a text with braces only at positions `i` and `j`.
proof fn lemma_nb_two_braces_at(s: Seq<char>, i: int, j: int)
    requires
        0 <= i < j < s.len(),
        forall|k: int| 0 <= k < s.len() && k != i && k != j ==> s[k] != '{' && s[k] != '}',
    ensures
        nb(s) == (if s[i] == '{' {
            1int
        } else if s[i] == '}' {
            -1int
        } else {
            0int
        }) + (if s[j] == '{' {
            1int
        } else if s[j] == '}' {
            -1int
        } else {
            0int
        }),
{
    let a = s.subrange(0, j);
    let b = s.subrange(j, s.len() as int);
    assert(s =~= a + b);
    lemma_nb_one_brace_at(a, i);
    lemma_nb_one_brace_at(b, 0);
    lemma_nb_concat(a, b);
}

/// Net braces summed over a sequence of lines.
pub open spec fn nb_lines(b: Seq<Seq<char>>) -> int
    decreases b.len(),
{
    if b.len() == 0 {
        0
    } else {
        nb_lines(b.drop_last()) + nb(b.last())
    }
}

proof fn lemma_nb_lines_push(b: Seq<Seq<char>>, l: Seq<char>)
    ensures
        nb_lines(b.push(l)) == nb_lines(b) + nb(l),
{
    assert(b.push(l).drop_last() =~= b);
    assert(b.push(l).last() == l);
}

/// How many lines equal `t`.
pub open spec fn line_count(b: Seq<Seq<char>>, t: Seq<char>) -> int
    decreases b.len(),
{
    if b.len() == 0 {
        0
    } else {
        line_count(b.drop_last(), t) + if b.last() == t {
            1int
        } else {
            0int
        }
    }
}

proof fn lemma_line_count_push(b: Seq<Seq<char>>, l: Seq<char>, t: Seq<char>)
    ensures
        line_count(b.push(l), t) == line_count(b, t) + if l == t {
            1int
        } else {
            0int
        },
{
    assert(b.push(l).drop_last() =~= b);
    assert(b.push(l).last() == l);
}

/// The difference between opened and closed loop scopes over the lines.
pub open spec fn nl_lines(b: Seq<Seq<char>>) -> int {
    line_count(b, "loop {"@) - line_count(b, "};"@)
}

/// A line without braces is neither the loop opener nor the loop closer.
proof fn lemma_neutral_no_braces(l: Seq<char>)
    requires
        no_braces(l),
    ensures
        l != "loop {"@,
        l != "};"@,
{
    reveal_strlit("loop {");
    reveal_strlit("};");
    if l == "loop {"@ {
        assert(l[5] == '{');
        assert(false);
    }
    if l == "};"@ {
        assert(l[0] == '}');
        assert(false);
    }
}

/// A line of nine or more characters is neither of the two loop lines.
proof fn lemma_neutral_long(l: Seq<char>)
    requires
        l.len() >= 9,
    ensures
        l != "loop {"@,
        l != "};"@,
{
    reveal_strlit("loop {");
    reveal_strlit("};");
}

/// A line starting with a character other than `l` or `}` is neither.
proof fn lemma_neutral_first(l: Seq<char>)
    requires
        l.len() >= 1,
        l[0] != 'l',
        l[0] != '}',
    ensures
        l != "loop {"@,
        l != "};"@,
{
    reveal_strlit("loop {");
    reveal_strlit("};");
}

proof fn lemma_push_neutral(b: Seq<Seq<char>>, l: Seq<char>)
    requires
        l != "loop {"@,
        l != "};"@,
    ensures
        nl_lines(b.push(l)) == nl_lines(b),
{
    lemma_line_count_push(b, l, "loop {"@);
    lemma_line_count_push(b, l, "};"@);
}

proof fn lemma_push_loop_open(b: Seq<Seq<char>>)
    ensures
        nl_lines(b.push("loop {"@)) == nl_lines(b) + 1,
{
    reveal_strlit("loop {");
    reveal_strlit("};");
    assert("loop {"@.len() == 6);
    assert("};"@.len() == 2);
    assert("loop {"@ != "};"@);
    lemma_line_count_push(b, "loop {"@, "loop {"@);
    lemma_line_count_push(b, "loop {"@, "};"@);
}

proof fn lemma_push_loop_close(b: Seq<Seq<char>>)
    ensures
        nl_lines(b.push("};"@)) == nl_lines(b) - 1,
{
    reveal_strlit("loop {");
    reveal_strlit("};");
    assert("loop {"@.len() == 6);
    assert("};"@.len() == 2);
    assert("loop {"@ != "};"@);
    lemma_line_count_push(b, "};"@, "loop {"@);
    lemma_line_count_push(b, "};"@, "};"@);
}

proof fn lemma_push_short_neutral(b: Seq<Seq<char>>, l: Seq<char>)
    requires
        l.len() != 6,
        l.len() != 2,
    ensures
        nl_lines(b.push(l)) == nl_lines(b),
{
    reveal_strlit("loop {");
    reveal_strlit("};");
    lemma_line_count_push(b, l, "loop {"@);
    lemma_line_count_push(b, l, "};"@);
}

pub open spec fn clean_opt(o: Option<Seq<char>>) -> bool {
    match o {
        Some(n) => no_braces(n),
        None => true,
    }
}

/// Every name stored in the map is brace free.
pub open spec fn vars_clean(v: VarMapV) -> bool {
    &&& forall|p: int| 0 <= p < v.params.len() ==> clean_opt(#[trigger] v.params[p])
    &&& forall|b: int, i: int|
        0 <= b < v.instrs.len() && 0 <= i < v.instrs[b].len() ==> clean_opt(
            #[trigger] v.instrs[b][i],
        )
}

/// Every shadow name is brace free.
pub open spec fn shadows_clean(sh: Seq<Seq<(int, Seq<char>)>>) -> bool {
    forall|b: int, k: int|
        0 <= b < sh.len() && 0 <= k < sh[b].len() ==> no_braces((#[trigger] sh[b][k]).1)
}

pub open spec fn st_clean(st: BuilderSpec) -> bool {
    vars_clean(st.vars) && shadows_clean(st.shadows)
}

proof fn lemma_clean_vm_get(v: VarMapV, f: FuncV, op: OperandIr)
    requires
        vars_clean(v),
        vm_wf(v, f),
        operand_wf(op, f),
    ensures
        clean_opt(spec_vm_get(v, op)),
{
}

proof fn lemma_clean_vm_set(v: VarMapV, f: FuncV, op: OperandIr, name: Seq<char>)
    requires
        vars_clean(v),
        vm_wf(v, f),
        operand_wf(op, f),
        no_braces(name),
    ensures
        vars_clean(spec_vm_set(v, op, name)),
{
    let w = spec_vm_set(v, op, name);
    assert forall|p: int| 0 <= p < w.params.len() implies clean_opt(#[trigger] w.params[p]) by {
        assert(clean_opt(v.params[p]));
    }
    assert forall|b: int, i: int|
        0 <= b < w.instrs.len() && 0 <= i < w.instrs[b].len() implies clean_opt(
        #[trigger] w.instrs[b][i],
    ) by {
        assert(clean_opt(v.instrs[b][i]));
    }
}

proof fn lemma_clean_vm_set_value(v: VarMapV, bb: int, i: int, name: Seq<char>)
    requires
        vars_clean(v),
        0 <= bb < v.instrs.len(),
        0 <= i < v.instrs[bb].len(),
        no_braces(name),
    ensures
        vars_clean(crate::vars::spec_vm_set_value(v, bb, i, name)),
{
    let w = crate::vars::spec_vm_set_value(v, bb, i, name);
    assert forall|b: int, j: int|
        0 <= b < w.instrs.len() && 0 <= j < w.instrs[b].len() implies clean_opt(
        #[trigger] w.instrs[b][j],
    ) by {
        assert(clean_opt(v.instrs[b][j]));
    }
}

proof fn lemma_vm_wf_set_value(v: VarMapV, f: FuncV, bb: int, i: int, name: Seq<char>)
    requires
        vm_wf(v, f),
        0 <= bb < v.instrs.len(),
        0 <= i < v.instrs[bb].len(),
    ensures
        vm_wf(crate::vars::spec_vm_set_value(v, bb, i, name), f),
{
    crate::vars::lemma_count_rows_update(v.instrs, bb, i, name);
}

proof fn lemma_vm_wf_set(v: VarMapV, f: FuncV, op: OperandIr, name: Seq<char>)
    requires
        vm_wf(v, f),
        operand_wf(op, f),
    ensures
        vm_wf(spec_vm_set(v, op, name), f),
{
    match op {
        OperandIr::Param { i } => {
            crate::vars::lemma_count_row_update(v.params, i as int, name);
        },
        OperandIr::Value { b, i } => {
            crate::vars::lemma_count_rows_update(v.instrs, b as int, i as int, name);
        },
        OperandIr::ConstInt { .. } => {},
    }
}

proof fn lemma_clean_assoc(row: Seq<(int, Seq<char>)>, i: int)
    requires
        forall|k: int| 0 <= k < row.len() ==> no_braces((#[trigger] row[k]).1),
    ensures
        clean_opt(spec_assoc(row, i)),
    decreases row.len(),
{
    if row.len() > 0 && row[0].0 != i {
        assert forall|k: int| 0 <= k < row.drop_first().len() implies no_braces(
            (#[trigger] row.drop_first()[k]).1,
        ) by {
            assert(row.drop_first()[k] == row[k + 1]);
        }
        lemma_clean_assoc(row.drop_first(), i);
    }
}

proof fn lemma_clean_resolve_plain(st: BuilderSpec, f: FuncV, op: OperandIr)
    requires
        st_clean(st),
        vm_wf(st.vars, f),
        operand_wf(op, f),
    ensures
        no_braces(spec_resolve_plain(st, f, op)),
{
    match op {
        OperandIr::ConstInt { value, width } => {
            lemma_no_braces_const(value, width);
        },
        _ => {
            lemma_clean_vm_get(st.vars, f, op);
            match spec_vm_get(st.vars, op) {
                Some(n) => {},
                None => {
                    lemma_no_braces_resolved(
                        crate::ir::spec_operand_source_name(op, f),
                        st.vars.n,
                    );
                },
            }
        },
    }
}

proof fn lemma_clean_resolve_shadow(st: BuilderSpec, f: FuncV, bb: int, op: OperandIr)
    requires
        st_clean(st),
        vm_wf(st.vars, f),
        operand_wf(op, f),
        0 <= bb < st.shadows.len(),
    ensures
        no_braces(spec_resolve_shadow(st, f, bb, op).0),
        vars_clean(spec_resolve_shadow(st, f, bb, op).1),
        vm_wf(spec_resolve_shadow(st, f, bb, op).1, f),
{
    match op {
        OperandIr::Value { b, i } => {
            if b == bb {
                lemma_clean_assoc(st.shadows[bb], i as int);
            }
            lemma_clean_resolve_value(st.vars, f, op);
        },
        _ => {
            lemma_clean_resolve_value(st.vars, f, op);
        },
    }
}

proof fn lemma_clean_resolve_value(v: VarMapV, f: FuncV, op: OperandIr)
    requires
        vars_clean(v),
        vm_wf(v, f),
        operand_wf(op, f),
    ensures
        no_braces(spec_resolve_value(v, f, op).0),
        vars_clean(spec_resolve_value(v, f, op).1),
        vm_wf(spec_resolve_value(v, f, op).1, f),
{
    match op {
        OperandIr::ConstInt { value, width } => {
            lemma_no_braces_const(value, width);
        },
        _ => {
            lemma_clean_vm_get(v, f, op);
            match spec_vm_get(v, op) {
                Some(n) => {},
                None => {
                    let nm = spec_resolved_name(crate::ir::spec_operand_source_name(op, f), v.n);
                    lemma_no_braces_resolved(crate::ir::spec_operand_source_name(op, f), v.n);
                    lemma_clean_vm_set(v, f, op, nm);
                    lemma_vm_wf_set(v, f, op, nm);
                },
            }
        },
    }
}

proof fn lemma_clean_result_name(v: VarMapV, f: FuncV, bb: int, i: int)
    requires
        vars_clean(v),
        vm_wf(v, f),
        0 <= bb < f.blocks.len(),
        0 <= i < f.blocks[bb].instrs.len(),
    ensures
        no_braces(spec_result_name(v, f, bb, i).0),
        vars_clean(spec_result_name(v, f, bb, i).1),
        vm_wf(spec_result_name(v, f, bb, i).1, f),
{
    match v.instrs[bb][i] {
        Some(n) => {
            assert(clean_opt(v.instrs[bb][i]));
        },
        None => {
            let nm = spec_resolved_name(f.blocks[bb].instrs[i].name, v.n);
            lemma_no_braces_resolved(f.blocks[bb].instrs[i].name, v.n);
            reveal_strlit("let ");
            assert(no_braces("let "@));
            lemma_no_braces_concat("let "@, nm);
            lemma_clean_vm_set_value(v, bb, i, nm);
            lemma_vm_wf_set_value(v, f, bb, i, nm);
        },
    }
}

/// A binary line has no net braces and keeps the map clean.
proof fn lemma_nb_binary(
    st: BuilderSpec,
    f: FuncV,
    bb: int,
    i: int,
    opstr: Seq<char>,
    lhs: OperandIr,
    rhs: OperandIr,
)
    requires
        st_clean(st),
        vm_wf(st.vars, f),
        operand_wf(lhs, f),
        operand_wf(rhs, f),
        0 <= bb < f.blocks.len(),
        0 <= bb < st.shadows.len(),
        0 <= i < f.blocks[bb].instrs.len(),
        no_braces(opstr),
    ensures
        nb(spec_binary_parts(st, f, bb, i, opstr, lhs, rhs).1) == 0,
        no_braces(spec_binary_parts(st, f, bb, i, opstr, lhs, rhs).1),
        vars_clean(spec_binary_parts(st, f, bb, i, opstr, lhs, rhs).0.vars),
        vm_wf(spec_binary_parts(st, f, bb, i, opstr, lhs, rhs).0.vars, f),
{
    lemma_clean_result_name(st.vars, f, bb, i);
    let (target, vars1) = spec_result_name(st.vars, f, bb, i);
    let st1 = BuilderSpec { vars: vars1, ..st };
    lemma_clean_resolve_shadow(st1, f, bb, lhs);
    let (lname, vars2) = spec_resolve_shadow(st1, f, bb, lhs);
    let st2 = BuilderSpec { vars: vars2, ..st1 };
    lemma_clean_resolve_shadow(st2, f, bb, rhs);
    let (rname, vars3) = spec_resolve_shadow(st2, f, bb, rhs);
    reveal_strlit(" = ");
    reveal_strlit(" ");
    reveal_strlit(";");
    assert(no_braces(" = "@));
    assert(no_braces(" "@));
    assert(no_braces(";"@));
    lemma_no_braces_concat(target, " = "@);
    lemma_no_braces_concat(target + " = "@, lname);
    lemma_no_braces_concat(target + " = "@ + lname, " "@);
    lemma_no_braces_concat(target + " = "@ + lname + " "@, opstr);
    lemma_no_braces_concat(target + " = "@ + lname + " "@ + opstr, " "@);
    lemma_no_braces_concat(target + " = "@ + lname + " "@ + opstr + " "@, rname);
    lemma_no_braces_concat(target + " = "@ + lname + " "@ + opstr + " "@ + rname, ";"@);
    lemma_nb_no_braces(target + " = "@ + lname + " "@ + opstr + " "@ + rname + ";"@);
}

/// A zero-extension line has no net braces and keeps the map clean.
proof fn lemma_nb_zext(st: BuilderSpec, f: FuncV, bb: int, i: int, arg: OperandIr)
    requires
        st_clean(st),
        vm_wf(st.vars, f),
        operand_wf(arg, f),
        0 <= bb < f.blocks.len(),
        0 <= bb < st.shadows.len(),
        0 <= i < f.blocks[bb].instrs.len(),
    ensures
        nb(spec_zext_parts(st, f, bb, i, arg).1) == 0,
        no_braces(spec_zext_parts(st, f, bb, i, arg).1),
        vars_clean(spec_zext_parts(st, f, bb, i, arg).0.vars),
        vm_wf(spec_zext_parts(st, f, bb, i, arg).0.vars, f),
{
    lemma_clean_result_name(st.vars, f, bb, i);
    let (target, vars1) = spec_result_name(st.vars, f, bb, i);
    let st1 = BuilderSpec { vars: vars1, ..st };
    lemma_clean_resolve_shadow(st1, f, bb, arg);
    let (aname, vars2) = spec_resolve_shadow(st1, f, bb, arg);
    let ty = spec_ty(f.blocks[bb].instrs[i].width);
    reveal_strlit(" = ");
    reveal_strlit(" as ");
    reveal_strlit(";");
    assert(no_braces(" = "@));
    assert(no_braces(" as "@));
    assert(no_braces(";"@));
    lemma_no_braces_ty(f.blocks[bb].instrs[i].width);
    lemma_no_braces_concat(target, " = "@);
    lemma_no_braces_concat(target + " = "@, aname);
    lemma_no_braces_concat(target + " = "@ + aname, " as "@);
    lemma_no_braces_concat(target + " = "@ + aname + " as "@, ty);
    lemma_no_braces_concat(target + " = "@ + aname + " as "@ + ty, ";"@);
    lemma_nb_no_braces(target + " = "@ + aname + " as "@ + ty + ";"@);
}

/// A return line has no net braces.
proof fn lemma_nb_return_line(st: BuilderSpec, f: FuncV, value: Option<OperandIr>)
    requires
        st_clean(st),
        vm_wf(st.vars, f),
        match value {
            Some(op) => operand_wf(op, f),
            None => true,
        },
    ensures
        nb(spec_return_line(st, f, value)) == 0,
        no_braces(spec_return_line(st, f, value)),
{
    match value {
        Some(op) => {
            lemma_clean_resolve_plain(st, f, op);
            reveal_strlit("return ");
            reveal_strlit(";");
            assert(no_braces("return "@));
            assert(no_braces(";"@));
            lemma_no_braces_concat("return "@, spec_resolve_plain(st, f, op));
            lemma_no_braces_concat("return "@ + spec_resolve_plain(st, f, op), ";"@);
            lemma_nb_no_braces("return "@ + spec_resolve_plain(st, f, op) + ";"@);
        },
        None => {
            reveal_strlit("return ;");
            assert(no_braces("return ;"@));
            lemma_nb_no_braces("return ;"@);
        },
    }
}

/// A provenance update line has no net braces.
proof fn lemma_nb_bool_line(f: FuncV, p: int, bb: int, n: nat)
    requires
        0 <= p < f.blocks.len(),
        0 <= bb < f.blocks.len(),
    ensures
        nb(spec_bool_line(f, p, bb, n)) == 0,
        no_braces(spec_bool_line(f, p, bb, n)),
{
    let pname = spec_resolved_name(f.blocks[p].name, n);
    lemma_no_braces_resolved(f.blocks[p].name, n);
    reveal_strlit("is_from_");
    reveal_strlit(" = true;");
    reveal_strlit(" = false;");
    assert(no_braces("is_from_"@));
    assert(no_braces(" = true;"@));
    assert(no_braces(" = false;"@));
    lemma_no_braces_concat("is_from_"@, pname);
    lemma_no_braces_concat("is_from_"@ + pname, " = true;"@);
    lemma_no_braces_concat("is_from_"@ + pname, " = false;"@);
    if pname == spec_resolved_name(f.blocks[bb].name, n) {
        lemma_nb_no_braces("is_from_"@ + pname + " = true;"@);
    } else {
        lemma_nb_no_braces("is_from_"@ + pname + " = false;"@);
    }
}

proof fn lemma_no_braces_trim(nm: Seq<char>)
    requires
        no_braces(nm),
    ensures
        no_braces(spec_trim_temp(nm)),
    decreases nm.len(),
{
    if nm.len() >= 5 && nm.subrange(nm.len() - 5, nm.len() as int) == "_temp"@ {
        lemma_no_braces_subrange(nm, 0, nm.len() - 5);
        lemma_no_braces_trim(nm.subrange(0, nm.len() - 5));
    }
}

/// A shadow commit line has no net braces.
proof fn lemma_nb_commit_line(nm: Seq<char>)
    requires
        no_braces(nm),
    ensures
        nb(spec_trim_temp(nm) + " = "@ + nm + ";"@) == 0,
        no_braces(spec_trim_temp(nm) + " = "@ + nm + ";"@),
{
    lemma_no_braces_trim(nm);
    reveal_strlit(" = ");
    reveal_strlit(";");
    assert(no_braces(" = "@));
    assert(no_braces(";"@));
    lemma_no_braces_concat(spec_trim_temp(nm), " = "@);
    lemma_no_braces_concat(spec_trim_temp(nm) + " = "@, nm);
    lemma_no_braces_concat(spec_trim_temp(nm) + " = "@ + nm, ";"@);
    lemma_nb_no_braces(spec_trim_temp(nm) + " = "@ + nm + ";"@);
}

/// A pre-declaration line has no net braces.
proof fn lemma_nb_predeclare_line(nm: Seq<char>, width: u32)
    requires
        no_braces(nm),
    ensures
        nb(
            "let mut "@ + nm + " = "@ + (if width == 1 {
                "false"@
            } else {
                "0_"@ + spec_ty(width)
            }) + ";"@,
        ) == 0,
        no_braces(
            "let mut "@ + nm + " = "@ + (if width == 1 {
                "false"@
            } else {
                "0_"@ + spec_ty(width)
            }) + ";"@,
        ),
{
    let val = if width == 1 {
        "false"@
    } else {
        "0_"@ + spec_ty(width)
    };
    reveal_strlit("let mut ");
    reveal_strlit(" = ");
    reveal_strlit(";");
    reveal_strlit("false");
    reveal_strlit("0_");
    assert(no_braces("let mut "@));
    assert(no_braces(" = "@));
    assert(no_braces(";"@));
    assert(no_braces("false"@));
    assert(no_braces("0_"@));
    if width != 1 {
        lemma_no_braces_ty(width);
        lemma_no_braces_concat("0_"@, spec_ty(width));
    }
    lemma_no_braces_concat("let mut "@, nm);
    lemma_no_braces_concat("let mut "@ + nm, " = "@);
    lemma_no_braces_concat("let mut "@ + nm + " = "@, val);
    lemma_no_braces_concat("let mut "@ + nm + " = "@ + val, ";"@);
    lemma_nb_no_braces("let mut "@ + nm + " = "@ + val + ";"@);
}

/// The phi line's braces even out: two conditional arms open and close,
/// and the guard arm's pair closes the statement.
proof fn lemma_nb_phi(
    st: BuilderSpec,
    f: FuncV,
    bb: int,
    i: int,
    v1: OperandIr,
    b1: int,
    v2: OperandIr,
    b2: int,
)
    requires
        st_clean(st),
        vm_wf(st.vars, f),
        operand_wf(v1, f),
        operand_wf(v2, f),
        0 <= bb < st.shadows.len(),
        0 <= bb < f.blocks.len(),
        0 <= i < f.blocks[bb].instrs.len(),
        0 <= b1 < f.blocks.len(),
        0 <= b2 < f.blocks.len(),
    ensures
        nb(spec_phi_parts(st, f, bb, i, v1, b1, v2, b2).1) == 0,
        spec_phi_parts(st, f, bb, i, v1, b1, v2, b2).1.len() >= 14,
        vars_clean(spec_phi_parts(st, f, bb, i, v1, b1, v2, b2).0.vars),
        vm_wf(spec_phi_parts(st, f, bb, i, v1, b1, v2, b2).0.vars, f),
{
    lemma_clean_assoc(st.shadows[bb], i);
    let (phi_name, has_let, vars1) = match spec_assoc(st.shadows[bb], i) {
        Some(n) => (n, true, st.vars),
        None => match st.vars.instrs[bb][i] {
            Some(n) => (n, false, st.vars),
            None => {
                let nm = spec_resolved_name(f.blocks[bb].instrs[i].name, st.vars.n);
                (nm, true, crate::vars::spec_vm_set_value(st.vars, bb, i, nm))
            },
        },
    };
    match spec_assoc(st.shadows[bb], i) {
        Some(n) => {},
        None => match st.vars.instrs[bb][i] {
            Some(n) => {
                assert(clean_opt(st.vars.instrs[bb][i]));
            },
            None => {
                lemma_no_braces_resolved(f.blocks[bb].instrs[i].name, st.vars.n);
                lemma_clean_vm_set_value(st.vars, bb, i, phi_name);
                lemma_vm_wf_set_value(st.vars, f, bb, i, phi_name);
            },
        },
    }
    assert(no_braces(phi_name));
    assert(vars_clean(vars1));
    assert(vm_wf(vars1, f));
    lemma_clean_resolve_value(vars1, f, v1);
    let (lname, vars2) = spec_resolve_value(vars1, f, v1);
    lemma_clean_resolve_value(vars2, f, v2);
    let (rname, vars3) = spec_resolve_value(vars2, f, v2);
    let bn1 = spec_resolved_name(f.blocks[b1].name, vars3.n);
    let bn2 = spec_resolved_name(f.blocks[b2].name, vars3.n);
    lemma_no_braces_resolved(f.blocks[b1].name, vars3.n);
    lemma_no_braces_resolved(f.blocks[b2].name, vars3.n);
    reveal_strlit("let ");
    reveal_strlit(" = if is_from_");
    reveal_strlit(" { ");
    reveal_strlit(" } else if is_from_");
    reveal_strlit(" } else { panic!(\"There is a bug in the compiler at var ");
    reveal_strlit(" please report it\")};");
    assert(no_braces("let "@));
    assert(no_braces(" = if is_from_"@));
    assert(nb(" { "@) == 1) by {
        lemma_nb_one_brace_at(" { "@, 1);
    }
    assert(nb(" } else if is_from_"@) == -1) by {
        lemma_nb_one_brace_at(" } else if is_from_"@, 1);
    }
    assert(nb(" } else { panic!(\"There is a bug in the compiler at var "@) == 0) by {
        lemma_nb_two_braces_at(" } else { panic!(\"There is a bug in the compiler at var "@, 1, 8);
    }
    assert(nb(" please report it\")};"@) == -1) by {
        lemma_nb_one_brace_at(" please report it\")};"@, 19);
    }
    let lp = if has_let {
        "let "@
    } else {
        Seq::<char>::empty()
    };
    assert(no_braces(lp));
    let p0 = lp + phi_name;
    let p1 = p0 + " = if is_from_"@;
    let p2 = p1 + bn1;
    let p3 = p2 + " { "@;
    let p4 = p3 + lname;
    let p5 = p4 + " } else if is_from_"@;
    let p6 = p5 + bn2;
    let p7 = p6 + " { "@;
    let p8 = p7 + rname;
    let p9 = p8 + " } else { panic!(\"There is a bug in the compiler at var "@;
    let p10 = p9 + phi_name;
    let p11 = p10 + " please report it\")};"@;
    lemma_nb_no_braces(lp);
    lemma_nb_no_braces(phi_name);
    lemma_nb_no_braces(" = if is_from_"@);
    lemma_nb_no_braces(bn1);
    lemma_nb_no_braces(lname);
    lemma_nb_no_braces(bn2);
    lemma_nb_no_braces(rname);
    lemma_nb_concat(lp, phi_name);
    lemma_nb_concat(p0, " = if is_from_"@);
    lemma_nb_concat(p1, bn1);
    lemma_nb_concat(p2, " { "@);
    lemma_nb_concat(p3, lname);
    lemma_nb_concat(p4, " } else if is_from_"@);
    lemma_nb_concat(p5, bn2);
    lemma_nb_concat(p6, " { "@);
    lemma_nb_concat(p7, rname);
    lemma_nb_concat(p8, " } else { panic!(\"There is a bug in the compiler at var "@);
    lemma_nb_concat(p9, phi_name);
    lemma_nb_concat(p10, " please report it\")};"@);
    assert(nb(p11) == 0);
    assert(p11.len() >= 14) by {
        assert(" = if is_from_"@.len() == 14);
    }
}

/// Is some conditional branch's first arm aimed at block `t`?
pub open spec fn spec_is_then_target(f: FuncV, t: int) -> bool {
    exists|b: int, i: int|
        0 <= b < f.blocks.len() && 0 <= i < f.blocks[b].instrs.len()
            && match #[trigger] f.blocks[b].instrs[i].op {
            OpIr::CondBr { then_target, .. } => then_target == t,
            _ => false,
        }
}

pub open spec fn spec_is_condbr(o: OpIr) -> bool {
    match o {
        OpIr::CondBr { .. } => true,
        _ => false,
    }
}

/// The class of control flow whose emission provably balances: a single
/// join block `r` holding no branch, every other block ending in its
/// only branch, every conditional's second arm aimed at `r` and first
/// arm elsewhere, plain jumps never aimed at a conditional's first arm,
/// and loops ending in their conditional exit.
pub open spec fn shape_ok(f: FuncV, r: int) -> bool {
    &&& spec_return_block(f) == Some(r)
    &&& 0 <= r < f.blocks.len()
    &&& forall|i: int|
        0 <= i < f.blocks[r].instrs.len() ==> !spec_is_branch(#[trigger] f.blocks[r].instrs[i].op)
    &&& forall|b: int|
        0 <= b < f.blocks.len() && b != r ==> (#[trigger] f.blocks[b].instrs).len() >= 1
            && spec_is_branch(f.blocks[b].instrs[f.blocks[b].instrs.len() - 1].op)
    &&& forall|b: int, i: int|
        0 <= b < f.blocks.len() && 0 <= i < f.blocks[b].instrs.len() - 1 ==> !spec_is_branch(
            #[trigger] f.blocks[b].instrs[i].op,
        )
    &&& forall|b: int, i: int|
        0 <= b < f.blocks.len() && 0 <= i < f.blocks[b].instrs.len()
            ==> match #[trigger] f.blocks[b].instrs[i].op {
            OpIr::CondBr { then_target, else_target, .. } => else_target == r && then_target != r,
            OpIr::Br { target } => !spec_is_then_target(f, target as int),
            _ => true,
        }
    &&& forall|b: int|
        #[trigger] spec_loop_blocks(f).contains(b) ==> 0 <= b < f.blocks.len()
            && f.blocks[b].instrs.len() >= 1 && spec_is_condbr(
            f.blocks[b].instrs[f.blocks[b].instrs.len() - 1].op,
        )
    &&& !spec_loop_blocks(f).contains(r)
}

/// What the walk maintains: clean names, the analysis results in place,
/// else marks only on the join block, if marks only on first arms.
pub open spec fn walk_inv(st: BuilderSpec, f: FuncV, r: int) -> bool {
    &&& st_clean(st)
    &&& vm_wf(st.vars, f)
    &&& st.shadows.len() == f.blocks.len()
    &&& st.if_blocks.len() == f.blocks.len()
    &&& st.else_blocks.len() == f.blocks.len()
    &&& st.return_block == Some(r)
    &&& st.bb_loop == spec_loop_blocks(f)
    &&& forall|j: int|
        0 <= j < st.phis_bblock.len() ==> 0 <= #[trigger] st.phis_bblock[j] < f.blocks.len()
    &&& forall|b: int| 0 <= b < f.blocks.len() && #[trigger] st.else_blocks[b] ==> b == r
    &&& forall|b: int|
        0 <= b < f.blocks.len() && (#[trigger] st.if_blocks[b]) is Some ==> spec_is_then_target(
            f,
            b,
        ) && b != r
    &&& forall|b: int|
        0 <= b < f.blocks.len() ==> match #[trigger] st.if_blocks[b] {
            Some(c) => operand_wf(c, f),
            None => true,
        }
}

/// The net braces a block's own processing owes its caller.
pub open spec fn role_delta(st: BuilderSpec, bb: int, r: int) -> int {
    if st.if_blocks[bb] is Some {
        1
    } else if st.else_blocks[bb] && bb == r {
        -1
    } else {
        0
    }
}

proof fn lemma_nb_commits_upto(st: BuilderSpec, bb: int, k: int)
    requires
        shadows_clean(st.shadows),
        0 <= bb < st.shadows.len(),
        0 <= k <= st.shadows[bb].len(),
    ensures
        nb_lines(spec_commits_upto(st, bb, k).body) == nb_lines(st.body),
        nl_lines(spec_commits_upto(st, bb, k).body) == nl_lines(st.body),
    decreases k,
{
    if k > 0 {
        lemma_nb_commits_upto(st, bb, k - 1);
        let stp = spec_commits_upto(st, bb, k - 1);
        let line = spec_trim_temp(st.shadows[bb][k - 1].1) + " = "@ + st.shadows[bb][k - 1].1
            + ";"@;
        lemma_nb_commit_line(st.shadows[bb][k - 1].1);
        lemma_nb_lines_push(stp.body, line);
        lemma_neutral_no_braces(line);
        lemma_push_neutral(stp.body, line);
    }
}

proof fn lemma_nb_booleans_upto(st: BuilderSpec, f: FuncV, bb: int, k: int)
    requires
        0 <= bb < f.blocks.len(),
        forall|j: int| 0 <= j < st.phis_bblock.len() ==> 0 <= #[trigger] st.phis_bblock[j] < f.blocks.len(),
        0 <= k <= st.phis_bblock.len(),
    ensures
        nb_lines(spec_set_booleans_upto(st, f, bb, k).body) == nb_lines(st.body),
        nl_lines(spec_set_booleans_upto(st, f, bb, k).body) == nl_lines(st.body),
    decreases k,
{
    if k > 0 {
        lemma_nb_booleans_upto(st, f, bb, k - 1);
        let stp = spec_set_booleans_upto(st, f, bb, k - 1);
        let line = spec_bool_line(f, st.phis_bblock[k - 1], bb, st.vars.n);
        lemma_nb_bool_line(f, st.phis_bblock[k - 1], bb, st.vars.n);
        lemma_nb_lines_push(stp.body, line);
        lemma_neutral_no_braces(line);
        lemma_push_neutral(stp.body, line);
    }
}

proof fn lemma_nb_predeclare_upto(st: BuilderSpec, f: FuncV, bb: int, k: int)
    requires
        vars_clean(st.vars),
        vm_wf(st.vars, f),
        0 <= bb < f.blocks.len(),
        0 <= k <= f.blocks[bb].instrs.len(),
    ensures
        nb_lines(spec_predeclare_upto(st, f, bb, k).body) == nb_lines(st.body),
        nl_lines(spec_predeclare_upto(st, f, bb, k).body) == nl_lines(st.body),
        vars_clean(spec_predeclare_upto(st, f, bb, k).vars),
        vm_wf(spec_predeclare_upto(st, f, bb, k).vars, f),
    decreases k,
{
    if k > 0 {
        lemma_nb_predeclare_upto(st, f, bb, k - 1);
        let stp = spec_predeclare_upto(st, f, bb, k - 1);
        let instr = f.blocks[bb].instrs[k - 1];
        if crate::builder::function::model::spec_is_branch(instr.op)
            || crate::builder::function::model::spec_is_ret(instr.op) {
        } else {
            let nm = spec_resolved_name(instr.name, stp.vars.n);
            let line = "let mut "@ + nm + " = "@ + (if instr.width == 1 {
                "false"@
            } else {
                "0_"@ + spec_ty(instr.width)
            }) + ";"@;
            lemma_no_braces_resolved(instr.name, stp.vars.n);
            lemma_nb_predeclare_line(nm, instr.width);
            lemma_nb_lines_push(stp.body, line);
            lemma_neutral_no_braces(line);
            lemma_push_neutral(stp.body, line);
            lemma_clean_vm_set_value(stp.vars, bb, k - 1, nm);
            lemma_vm_wf_set_value(stp.vars, f, bb, k - 1, nm);
        }
    }
}

/// Opening a block's scopes adds exactly its role's worth of braces,
/// plus one for a loop.
proof fn lemma_nb_prepare(st: BuilderSpec, f: FuncV, r: int, bb: int, is_else: bool, is_loop: bool)
    requires
        walk_inv(st, f, r),
        0 <= bb < f.blocks.len(),
    ensures
        ({
            let res = spec_prepare_new_scopes(st, f, bb, is_else, is_loop);
            &&& nb_lines(res.body) == nb_lines(st.body) + (if st.if_blocks[bb] is Some {
                1int
            } else if st.return_block == Some(bb) && is_else {
                -1int
            } else {
                0int
            }) + (if is_loop {
                1int
            } else {
                0int
            })
            &&& nl_lines(res.body) == nl_lines(st.body) + (if is_loop {
                1int
            } else {
                0int
            })
            &&& res =~~= (BuilderSpec { vars: res.vars, body: res.body, ..st })
            &&& vars_clean(res.vars)
            &&& vm_wf(res.vars, f)
        }),
{
    let st1 = if is_loop || st.if_blocks[bb] is Some || is_else {
        spec_predeclare_upto(st, f, bb, f.blocks[bb].instrs.len() as int)
    } else {
        st
    };
    if is_loop || st.if_blocks[bb] is Some || is_else {
        lemma_nb_predeclare_upto(st, f, bb, f.blocks[bb].instrs.len() as int);
        lemma_predeclare_frame(st, f, bb, f.blocks[bb].instrs.len() as int);
    }
    let st2 = match st1.if_blocks[bb] {
        Some(cond) => BuilderSpec {
            body: st1.body.push("if !"@ + spec_resolve_plain(st1, f, cond) + " {"@),
            ..st1
        },
        None => {
            if st1.return_block == Some(bb) && is_else {
                BuilderSpec { body: st1.body.push("}"@), ..st1 }
            } else if is_else {
                BuilderSpec { body: st1.body.push("} else {"@), ..st1 }
            } else {
                st1
            }
        },
    };
    match st1.if_blocks[bb] {
        Some(cond) => {
            assert(operand_wf(cond, f));
            lemma_clean_resolve_plain(
                BuilderSpec { vars: st1.vars, ..st },
                f,
                cond,
            );
            assert(spec_resolve_plain(st1, f, cond) == spec_resolve_plain(
                BuilderSpec { vars: st1.vars, ..st },
                f,
                cond,
            ));
            let c = spec_resolve_plain(st1, f, cond);
            reveal_strlit("if !");
            reveal_strlit(" {");
            assert(no_braces("if !"@));
            lemma_no_braces_concat("if !"@, c);
            lemma_nb_no_braces("if !"@ + c);
            assert(nb(" {"@) == 1) by {
                lemma_nb_one_brace_at(" {"@, 1);
            }
            lemma_nb_concat("if !"@ + c, " {"@);
            lemma_nb_lines_push(st1.body, "if !"@ + c + " {"@);
            assert(("if !"@ + c + " {"@)[0] == 'i');
            lemma_neutral_first("if !"@ + c + " {"@);
            lemma_push_neutral(st1.body, "if !"@ + c + " {"@);
        },
        None => {
            if st1.return_block == Some(bb) && is_else {
                reveal_strlit("}");
                assert(nb("}"@) == -1) by {
                    lemma_nb_one_brace_at("}"@, 0);
                }
                lemma_nb_lines_push(st1.body, "}"@);
                assert("}"@.len() == 1);
                lemma_push_short_neutral(st1.body, "}"@);
            } else if is_else {
                reveal_strlit("} else {");
                assert(nb("} else {"@) == 0) by {
                    lemma_nb_two_braces_at("} else {"@, 0, 7);
                }
                lemma_nb_lines_push(st1.body, "} else {"@);
                assert("} else {"@.len() == 8);
                lemma_push_short_neutral(st1.body, "} else {"@);
            }
        },
    }
    if is_loop {
        reveal_strlit("loop {");
        assert(nb("loop {"@) == 1) by {
            lemma_nb_one_brace_at("loop {"@, 5);
        }
        lemma_nb_lines_push(st2.body, "loop {"@);
        lemma_push_loop_open(st2.body);
    }
}

/// Closing a block's scopes removes the matching braces.
proof fn lemma_nb_close(st: BuilderSpec, bb: int, is_else: bool, is_loop: bool)
    ensures
        ({
            let res = spec_close_scopes(st, bb, is_else, is_loop);
            &&& nb_lines(res.body) == nb_lines(st.body) + (if ((match st.return_block {
                Some(rb) => rb != bb,
                None => false,
            } && is_else) || st.return_block == Some(bb)) {
                -1int
            } else {
                0int
            }) + (if is_loop {
                -1int
            } else {
                0int
            })
            &&& nl_lines(res.body) == nl_lines(st.body) + (if is_loop {
                -1int
            } else {
                0int
            })
            &&& res =~~= (BuilderSpec { body: res.body, ..st })
        }),
{
    let in_else = match st.return_block {
        Some(rb) => rb != bb,
        None => false,
    } && is_else;
    let at_ret = st.return_block == Some(bb);
    let st1 = if in_else || at_ret {
        BuilderSpec { body: st.body.push("}"@), ..st }
    } else {
        st
    };
    if in_else || at_ret {
        reveal_strlit("}");
        assert(nb("}"@) == -1) by {
            lemma_nb_one_brace_at("}"@, 0);
        }
        lemma_nb_lines_push(st.body, "}"@);
        assert("}"@.len() == 1);
        lemma_push_short_neutral(st.body, "}"@);
    }
    if is_loop {
        reveal_strlit("};");
        assert(nb("};"@) == -1) by {
            lemma_nb_one_brace_at("};"@, 0);
        }
        lemma_nb_lines_push(st1.body, "};"@);
        lemma_push_loop_close(st1.body);
    }
}

/// The walk, block by block: every block's processing owes its caller
/// exactly its role's worth of braces, unless the depth bound was hit.
proof fn lemma_balance_block(st: BuilderSpec, f: FuncV, r: int, bb: int, fuel: nat)
    requires
        func_wf(f),
        shape_ok(f, r),
        walk_inv(st, f, r),
        0 <= bb < f.blocks.len(),
        forall|b: int| 0 <= b < f.blocks.len() && #[trigger] st.else_blocks[b] ==> bb == r,
    ensures
        ({
            let res = spec_process_basic_block(st, f, bb, fuel);
            &&& walk_inv(res, f, r)
            &&& (st.truncated ==> res.truncated)
            &&& (res.truncated || nb_lines(res.body) == nb_lines(st.body) + role_delta(st, bb, r))
            &&& (res.truncated || nl_lines(res.body) == nl_lines(st.body))
        }),
    decreases fuel, 2int,
{
    let res = spec_process_basic_block(st, f, bb, fuel);
    if fuel == 0 {
    } else {
        let is_loop = st.bb_loop.contains(bb);
        let is_else = st.else_blocks[bb];
        lemma_nb_prepare(st, f, r, bb, is_else, is_loop);
        let st1 = spec_prepare_new_scopes(st, f, bb, is_else, is_loop);
        assert(walk_inv(st1, f, r));
        let n = f.blocks[bb].instrs.len() as int;
        if bb == r {
            assert(forall|i: int|
                0 <= i < n ==> !spec_is_branch(#[trigger] f.blocks[bb].instrs[i].op));
            lemma_balance_prefix(st1, f, r, bb, n, is_loop, is_else, fuel);
            assert(st.if_blocks[bb] is Some ==> false) by {
                if st.if_blocks[bb] is Some {
                    assert(spec_is_then_target(f, bb) && bb != r);
                }
            }
            assert(!is_loop);
        } else {
            assert(n >= 1);
            assert(forall|i: int|
                0 <= i < n - 1 ==> !spec_is_branch(#[trigger] f.blocks[bb].instrs[i].op));
            lemma_balance_prefix(st1, f, r, bb, n - 1, is_loop, is_else, fuel);
            let stp = spec_instrs_upto(st1, f, bb, n - 1, is_loop, is_else, fuel);
            assert(walk_inv(stp, f, r));
            assert(forall|b: int| 0 <= b < f.blocks.len() ==> !stp.else_blocks[b]);
            assert(!is_else);
            assert(spec_is_branch(f.blocks[bb].instrs[n - 1].op));
            lemma_balance_branch(stp, f, r, bb, n - 1, is_loop, is_else, fuel);
            assert(res == spec_branch_and_close(stp, f, bb, n - 1, is_loop, is_else, fuel));
        }
    }
}

/// One instruction that is not a branch: its line balances and only
/// names and text change.
proof fn lemma_balance_one_step(
    stp: BuilderSpec,
    f: FuncV,
    r: int,
    bb: int,
    j: int,
    is_loop: bool,
    is_else: bool,
    fuel: nat,
)
    requires
        func_wf(f),
        walk_inv(stp, f, r),
        0 <= bb < f.blocks.len(),
        0 <= j < f.blocks[bb].instrs.len(),
        !spec_is_branch(f.blocks[bb].instrs[j].op),
    ensures
        ({
            let res = spec_instr_step(stp, f, bb, j, is_loop, is_else, fuel);
            &&& res =~~= (BuilderSpec { vars: res.vars, body: res.body, ..stp })
            &&& vars_clean(res.vars)
            &&& vm_wf(res.vars, f)
            &&& nb_lines(res.body) == nb_lines(stp.body)
            &&& nl_lines(res.body) == nl_lines(stp.body)
        }),
{
    let instr = f.blocks[bb].instrs[j];
    assert(op_wf(instr.op, f));
    match instr.op {
        OpIr::Add { lhs, rhs } => {
            reveal_strlit("+");
            assert(no_braces("+"@));
            lemma_nb_binary(stp, f, bb, j, "+"@, lhs, rhs);
            let parts = spec_binary_parts(stp, f, bb, j, "+"@, lhs, rhs);
            lemma_nb_lines_push(parts.0.body, parts.1);
            lemma_neutral_no_braces(parts.1);
            lemma_push_neutral(parts.0.body, parts.1);
        },
        OpIr::Sub { lhs, rhs } => {
            reveal_strlit("-");
            assert(no_braces("-"@));
            lemma_nb_binary(stp, f, bb, j, "-"@, lhs, rhs);
            let parts = spec_binary_parts(stp, f, bb, j, "-"@, lhs, rhs);
            lemma_nb_lines_push(parts.0.body, parts.1);
            lemma_neutral_no_braces(parts.1);
            lemma_push_neutral(parts.0.body, parts.1);
        },
        OpIr::Icmp { pred, lhs, rhs } => {
            match pred {
                crate::ir::IcmpPredIr::Eq => {
                    reveal_strlit("==");
                    assert(no_braces("=="@));
                    lemma_nb_binary(stp, f, bb, j, "=="@, lhs, rhs);
                    let parts = spec_binary_parts(stp, f, bb, j, "=="@, lhs, rhs);
                    lemma_nb_lines_push(parts.0.body, parts.1);
                    lemma_neutral_no_braces(parts.1);
                    lemma_push_neutral(parts.0.body, parts.1);
                },
                crate::ir::IcmpPredIr::Ne => {
                    reveal_strlit("!=");
                    assert(no_braces("!="@));
                    lemma_nb_binary(stp, f, bb, j, "!="@, lhs, rhs);
                    let parts = spec_binary_parts(stp, f, bb, j, "!="@, lhs, rhs);
                    lemma_nb_lines_push(parts.0.body, parts.1);
                    lemma_neutral_no_braces(parts.1);
                    lemma_push_neutral(parts.0.body, parts.1);
                },
                crate::ir::IcmpPredIr::Ult => {
                    reveal_strlit("<");
                    assert(no_braces("<"@));
                    lemma_nb_binary(stp, f, bb, j, "<"@, lhs, rhs);
                    let parts = spec_binary_parts(stp, f, bb, j, "<"@, lhs, rhs);
                    lemma_nb_lines_push(parts.0.body, parts.1);
                    lemma_neutral_no_braces(parts.1);
                    lemma_push_neutral(parts.0.body, parts.1);
                },
                crate::ir::IcmpPredIr::Unsupported => {
                    assert(nb(Seq::<char>::empty()) == 0);
                    lemma_nb_lines_push(stp.body, Seq::<char>::empty());
                    lemma_push_short_neutral(stp.body, Seq::<char>::empty());
                },
            }
        },
        OpIr::Zext { arg } => {
            lemma_nb_zext(stp, f, bb, j, arg);
            let parts = spec_zext_parts(stp, f, bb, j, arg);
            lemma_nb_lines_push(parts.0.body, parts.1);
            lemma_neutral_no_braces(parts.1);
            lemma_push_neutral(parts.0.body, parts.1);
        },
        OpIr::Phi { v1, b1, v2, b2 } => {
            lemma_nb_phi(stp, f, bb, j, v1, b1 as int, v2, b2 as int);
            let parts = spec_phi_parts(stp, f, bb, j, v1, b1 as int, v2, b2 as int);
            lemma_nb_lines_push(parts.0.body, parts.1);
            lemma_neutral_long(parts.1);
            lemma_push_neutral(parts.0.body, parts.1);
        },
        OpIr::Ret { value } => {
            lemma_nb_return_line(stp, f, value);
            lemma_nb_lines_push(stp.body, spec_return_line(stp, f, value));
            lemma_neutral_no_braces(spec_return_line(stp, f, value));
            lemma_push_neutral(stp.body, spec_return_line(stp, f, value));
        },
        OpIr::Br { .. } => {
            assert(false);
        },
        OpIr::CondBr { .. } => {
            assert(false);
        },
        OpIr::Other => {
            assert(nb(Seq::<char>::empty()) == 0);
            lemma_nb_lines_push(stp.body, Seq::<char>::empty());
            lemma_push_short_neutral(stp.body, Seq::<char>::empty());
        },
    }
}

/// A non-branch prefix of a block emits only balanced lines and touches
/// nothing but names and text.
proof fn lemma_balance_prefix(
    st: BuilderSpec,
    f: FuncV,
    r: int,
    bb: int,
    k: int,
    is_loop: bool,
    is_else: bool,
    fuel: nat,
)
    requires
        func_wf(f),
        walk_inv(st, f, r),
        0 <= bb < f.blocks.len(),
        0 <= k <= f.blocks[bb].instrs.len(),
        forall|i: int| 0 <= i < k ==> !spec_is_branch(#[trigger] f.blocks[bb].instrs[i].op),
    ensures
        ({
            let res = spec_instrs_upto(st, f, bb, k, is_loop, is_else, fuel);
            &&& res =~~= (BuilderSpec { vars: res.vars, body: res.body, ..st })
            &&& vars_clean(res.vars)
            &&& vm_wf(res.vars, f)
            &&& nb_lines(res.body) == nb_lines(st.body)
            &&& nl_lines(res.body) == nl_lines(st.body)
        }),
    decreases k,
{
    if k > 0 {
        lemma_balance_prefix(st, f, r, bb, k - 1, is_loop, is_else, fuel);
        let stp = spec_instrs_upto(st, f, bb, k - 1, is_loop, is_else, fuel);
        assert(walk_inv(stp, f, r));
        lemma_balance_one_step(stp, f, r, bb, k - 1, is_loop, is_else, fuel);
        assert(spec_instrs_upto(st, f, bb, k, is_loop, is_else, fuel) == spec_instr_step(
            stp,
            f,
            bb,
            k - 1,
            is_loop,
            is_else,
            fuel,
        ));
    }
}

/// The two arms of a conditional outside a loop: the first arm walk
/// owes one closing brace, which the join-block walk as the else arm
/// repays.
proof fn lemma_balance_condbr(
    st2: BuilderSpec,
    f: FuncV,
    r: int,
    bb: int,
    cond: crate::ir::OperandIr,
    then_target: int,
    else_target: int,
    fuel: nat,
)
    requires
        func_wf(f),
        shape_ok(f, r),
        walk_inv(st2, f, r),
        0 <= bb < f.blocks.len(),
        bb != r,
        operand_wf(cond, f),
        0 <= then_target < f.blocks.len(),
        then_target != r,
        else_target == r,
        spec_is_then_target(f, then_target),
        forall|b: int| 0 <= b < f.blocks.len() ==> !st2.else_blocks[b],
        fuel >= 1,
    ensures
        ({
            let st3 = spec_close_scopes(st2, bb, false, false);
            let st4 = BuilderSpec {
                if_blocks: st3.if_blocks.update(then_target, Some(cond)),
                ..st3
            };
            let r5 = spec_process_basic_block(st4, f, then_target, (fuel - 1) as nat);
            let st6 = BuilderSpec { else_blocks: r5.else_blocks.update(else_target, true), ..r5 };
            let r7 = spec_process_basic_block(st6, f, r, (fuel - 1) as nat);
            &&& walk_inv(r7, f, r)
            &&& (st2.truncated ==> r7.truncated)
            &&& (r7.truncated || nb_lines(r7.body) == nb_lines(st2.body))
            &&& (r7.truncated || nl_lines(r7.body) == nl_lines(st2.body))
        }),
    decreases fuel, 0int,
{
    lemma_nb_close(st2, bb, false, false);
    let st3 = spec_close_scopes(st2, bb, false, false);
    assert(walk_inv(st3, f, r));
    let st4 = BuilderSpec { if_blocks: st3.if_blocks.update(then_target, Some(cond)), ..st3 };
    assert(walk_inv(st4, f, r));
    lemma_balance_block(st4, f, r, then_target, (fuel - 1) as nat);
    let r5 = spec_process_basic_block(st4, f, then_target, (fuel - 1) as nat);
    assert(role_delta(st4, then_target, r) == 1);
    let st6 = BuilderSpec { else_blocks: r5.else_blocks.update(else_target, true), ..r5 };
    assert(walk_inv(st6, f, r));
    assert(st6.if_blocks[r] is Some ==> false) by {
        if st6.if_blocks[r] is Some {
            assert(spec_is_then_target(f, r) && r != r);
        }
    }
    lemma_balance_block(st6, f, r, r, (fuel - 1) as nat);
    let r7 = spec_process_basic_block(st6, f, r, (fuel - 1) as nat);
    assert(role_delta(st6, r, r) == -1);
}

/// The loop exit: the test line and the `{break;}` line balance, and
/// the close emits the loop's `};`.
proof fn lemma_balance_loop_exit(
    st2: BuilderSpec,
    f: FuncV,
    r: int,
    bb: int,
    cond: crate::ir::OperandIr,
    is_else: bool,
)
    requires
        walk_inv(st2, f, r),
        0 <= bb < f.blocks.len(),
        bb != r,
        operand_wf(cond, f),
        !is_else,
    ensures
        ({
            let st3 = BuilderSpec {
                body: st2.body.push("if "@ + spec_resolve_plain(st2, f, cond)),
                ..st2
            };
            let st4 = BuilderSpec { body: st3.body.push("{break;}"@), ..st3 };
            let res = spec_close_scopes(st4, bb, is_else, true);
            &&& walk_inv(res, f, r)
            &&& res.truncated == st2.truncated
            &&& nb_lines(res.body) == nb_lines(st2.body) - 1
            &&& nl_lines(res.body) == nl_lines(st2.body) - 1
        }),
{
    lemma_clean_resolve_plain(st2, f, cond);
    let c = spec_resolve_plain(st2, f, cond);
    reveal_strlit("if ");
    assert(no_braces("if "@));
    lemma_no_braces_concat("if "@, c);
    lemma_nb_no_braces("if "@ + c);
    let st3 = BuilderSpec { body: st2.body.push("if "@ + c), ..st2 };
    lemma_nb_lines_push(st2.body, "if "@ + c);
    assert(("if "@ + c)[0] == 'i');
    lemma_neutral_first("if "@ + c);
    lemma_push_neutral(st2.body, "if "@ + c);
    reveal_strlit("{break;}");
    assert(nb("{break;}"@) == 0) by {
        lemma_nb_two_braces_at("{break;}"@, 0, 7);
    }
    let st4 = BuilderSpec { body: st3.body.push("{break;}"@), ..st3 };
    lemma_nb_lines_push(st3.body, "{break;}"@);
    assert("{break;}"@.len() == 8);
    lemma_push_short_neutral(st3.body, "{break;}"@);
    lemma_nb_close(st4, bb, is_else, true);
}

/// The terminator of a non-join block: the branch's own lines balance,
/// both successor walks cancel each other, and a loop closes its brace.
#[verifier::rlimit(100)]
proof fn lemma_balance_branch(
    st: BuilderSpec,
    f: FuncV,
    r: int,
    bb: int,
    i: int,
    is_loop: bool,
    is_else: bool,
    fuel: nat,
)
    requires
        func_wf(f),
        shape_ok(f, r),
        walk_inv(st, f, r),
        0 <= bb < f.blocks.len(),
        bb != r,
        i == f.blocks[bb].instrs.len() - 1,
        0 <= i,
        spec_is_branch(f.blocks[bb].instrs[i].op),
        is_loop == spec_loop_blocks(f).contains(bb),
        !is_else,
        forall|b: int| 0 <= b < f.blocks.len() ==> !st.else_blocks[b],
        fuel >= 1,
    ensures
        ({
            let res = spec_branch_and_close(st, f, bb, i, is_loop, is_else, fuel);
            &&& walk_inv(res, f, r)
            &&& (st.truncated ==> res.truncated)
            &&& (res.truncated || nb_lines(res.body) == nb_lines(st.body) + (if is_loop {
                -1int
            } else {
                0int
            }))
            &&& (res.truncated || nl_lines(res.body) == nl_lines(st.body) + (if is_loop {
                -1int
            } else {
                0int
            }))
        }),
    decreases fuel, 1int,
{
    let nsh = st.shadows[bb].len() as int;
    lemma_nb_commits_upto(st, bb, nsh);
    lemma_commits_frame(st, bb, nsh);
    let st1 = spec_commits_upto(st, bb, nsh);
    assert(walk_inv(st1, f, r));
    let st2 = spec_set_booleans(st1, f, bb);
    if st1.return_block == Some(bb) {
        assert(false);
    }
    lemma_nb_booleans_upto(st1, f, bb, st1.phis_bblock.len() as int);
    lemma_booleans_frame(st1, f, bb, st1.phis_bblock.len() as int);
    assert(walk_inv(st2, f, r));
    assert(nb_lines(st2.body) == nb_lines(st.body));
    assert(op_wf(f.blocks[bb].instrs[i].op, f));
    match f.blocks[bb].instrs[i].op {
        OpIr::Br { target } => {
            if is_loop {
                assert(spec_is_condbr(f.blocks[bb].instrs[f.blocks[bb].instrs.len() - 1].op));
                assert(false);
            }
            assert(st2.if_blocks[target as int] is Some ==> false) by {
                if st2.if_blocks[target as int] is Some {
                    assert(spec_is_then_target(f, target as int));
                }
            }
            lemma_balance_block(st2, f, r, target as int, (fuel - 1) as nat);
            let r1 = spec_process_basic_block(st2, f, target as int, (fuel - 1) as nat);
            assert(role_delta(st2, target as int, r) == 0);
            assert(nb(Seq::<char>::empty()) == 0);
            lemma_nb_lines_push(r1.body, Seq::<char>::empty());
            lemma_push_short_neutral(r1.body, Seq::<char>::empty());
        },
        OpIr::CondBr { cond, then_target, else_target } => {
            assert(else_target == r && then_target != r);
            if is_loop {
                lemma_balance_loop_exit(st2, f, r, bb, cond, is_else);
            } else {
                assert(spec_is_then_target(f, then_target as int)) by {
                    assert(0 <= bb < f.blocks.len() && 0 <= i < f.blocks[bb].instrs.len()
                        && match f.blocks[bb].instrs[i].op {
                        OpIr::CondBr { then_target: t2, .. } => t2 == then_target,
                        _ => false,
                    });
                }
                lemma_balance_condbr(
                    st2,
                    f,
                    r,
                    bb,
                    cond,
                    then_target as int,
                    else_target as int,
                    fuel,
                );
                let st3 = spec_close_scopes(st2, bb, false, false);
                let st4 = BuilderSpec {
                    if_blocks: st3.if_blocks.update(then_target as int, Some(cond)),
                    ..st3
                };
                let r5 = spec_process_basic_block(st4, f, then_target as int, (fuel - 1) as nat);
                let st6 = BuilderSpec {
                    else_blocks: r5.else_blocks.update(else_target as int, true),
                    ..r5
                };
                let r7 = spec_process_basic_block(st6, f, r, (fuel - 1) as nat);
                assert(nb(Seq::<char>::empty()) == 0);
                lemma_nb_lines_push(r7.body, Seq::<char>::empty());
                lemma_push_short_neutral(r7.body, Seq::<char>::empty());
            }
        },
        _ => {
            assert(false);
        },
    }
}

proof fn lemma_clean_vm_set_param(v: VarMapV, i: int, name: Seq<char>)
    requires
        vars_clean(v),
        0 <= i < v.params.len(),
        no_braces(name),
    ensures
        vars_clean(crate::vars::spec_vm_set_param(v, i, name)),
{
    let w = crate::vars::spec_vm_set_param(v, i, name);
    assert forall|p: int| 0 <= p < w.params.len() implies clean_opt(#[trigger] w.params[p]) by {
        assert(clean_opt(v.params[p]));
    }
}

proof fn lemma_vm_wf_set_param(v: VarMapV, f: FuncV, i: int, name: Seq<char>)
    requires
        vm_wf(v, f),
        0 <= i < v.params.len(),
    ensures
        vm_wf(crate::vars::spec_vm_set_param(v, i, name), f),
{
    crate::vars::lemma_count_row_update(v.params, i, name);
}

proof fn lemma_sig_params_clean(f: FuncV, k: int, vars: VarMapV)
    requires
        vars_clean(vars),
        vm_wf(vars, f),
        0 <= k <= f.params.len(),
    ensures
        vars_clean(spec_sig_params_upto(f, k, vars).1),
        vm_wf(spec_sig_params_upto(f, k, vars).1, f),
    decreases k,
{
    if k > 0 {
        lemma_sig_params_clean(f, k - 1, vars);
        let vp = spec_sig_params_upto(f, k - 1, vars).1;
        let nm = spec_resolved_name(f.params[k - 1].name, vp.n);
        lemma_no_braces_resolved(f.params[k - 1].name, vp.n);
        lemma_clean_vm_set_param(vp, k - 1, nm);
        lemma_vm_wf_set_param(vp, f, k - 1, nm);
    }
}

proof fn lemma_shadow_row_clean(f: FuncV, b: int, i: int)
    ensures
        forall|k: int|
            0 <= k < spec_shadow_row_upto(f, b, i).len() ==> no_braces(
                (#[trigger] spec_shadow_row_upto(f, b, i)[k]).1,
            ),
    decreases i,
{
    if i > 0 {
        lemma_shadow_row_clean(f, b, i - 1);
        let sp = spec_shadow_row_upto(f, b, i - 1);
        let instr = f.blocks[b].instrs[i - 1];
        if crate::builder::function::model::spec_is_phi(instr.op)
            && crate::builder::function::model::spec_block_phi_used(f, b, i - 1) {
            lemma_no_braces_resolved(instr.name, 0);
            reveal_strlit("_temp");
            assert(no_braces("_temp"@));
            lemma_no_braces_concat(spec_resolved_name(instr.name, 0), "_temp"@);
            assert forall|k: int|
                0 <= k < spec_shadow_row_upto(f, b, i).len() implies no_braces(
                (#[trigger] spec_shadow_row_upto(f, b, i)[k]).1,
            ) by {
                if k < sp.len() {
                    assert(spec_shadow_row_upto(f, b, i)[k] == sp[k]);
                }
            }
        }
    }
}

proof fn lemma_shadows_all_clean(f: FuncV)
    ensures
        shadows_clean(spec_shadows(f)),
{
    assert forall|b: int, k: int|
        0 <= b < spec_shadows(f).len() && 0 <= k < spec_shadows(f)[b].len() implies no_braces(
        (#[trigger] spec_shadows(f)[b][k]).1,
    ) by {
        lemma_shadow_row_clean(f, b, f.blocks[b].instrs.len() as int);
    }
}

proof fn lemma_phi_insert_bounds(s: Seq<int>, b: int, lo: int, hi: int)
    requires
        forall|j: int| 0 <= j < s.len() ==> lo <= #[trigger] s[j] < hi,
        lo <= b < hi,
    ensures
        forall|j: int|
            0 <= j < spec_phi_insert(s, b).len() ==> lo <= #[trigger] spec_phi_insert(s, b)[j]
                < hi,
{
    if !s.contains(b) {
        assert forall|j: int|
            0 <= j < s.push(b).len() implies lo <= #[trigger] s.push(b)[j] < hi by {
            if j < s.len() {
                assert(s.push(b)[j] == s[j]);
            }
        }
    }
}

proof fn lemma_phis_in_block_bounds(f: FuncV, b: int, i: int, s: Seq<int>)
    requires
        func_wf(f),
        0 <= b < f.blocks.len(),
        0 <= i <= f.blocks[b].instrs.len(),
        forall|j: int| 0 <= j < s.len() ==> 0 <= #[trigger] s[j] < f.blocks.len(),
    ensures
        forall|j: int|
            0 <= j < spec_phis_in_block_upto(f, b, i, s).len() ==> 0 <= #[trigger] spec_phis_in_block_upto(
                f,
                b,
                i,
                s,
            )[j] < f.blocks.len(),
    decreases i,
{
    if i > 0 {
        lemma_phis_in_block_bounds(f, b, i - 1, s);
        let sp = spec_phis_in_block_upto(f, b, i - 1, s);
        assert(op_wf(f.blocks[b].instrs[i - 1].op, f));
        match f.blocks[b].instrs[i - 1].op {
            OpIr::Phi { v1, b1, v2, b2 } => {
                lemma_phi_insert_bounds(sp, b1 as int, 0, f.blocks.len() as int);
                lemma_phi_insert_bounds(
                    spec_phi_insert(sp, b1 as int),
                    b2 as int,
                    0,
                    f.blocks.len() as int,
                );
            },
            _ => {},
        }
    }
}

proof fn lemma_phis_bblock_bounds(f: FuncV, b: int)
    requires
        func_wf(f),
        0 <= b <= f.blocks.len(),
    ensures
        forall|j: int|
            0 <= j < spec_phis_blocks_upto(f, b).len() ==> 0 <= #[trigger] spec_phis_blocks_upto(
                f,
                b,
            )[j] < f.blocks.len(),
    decreases b,
{
    if b > 0 {
        lemma_phis_bblock_bounds(f, b - 1);
        lemma_phis_in_block_bounds(
            f,
            b - 1,
            f.blocks[b - 1].instrs.len() as int,
            spec_phis_blocks_upto(f, b - 1),
        );
    }
}

proof fn lemma_is_from_nb(st: BuilderSpec, f: FuncV, k: int)
    requires
        0 <= k <= st.phis_bblock.len(),
        forall|j: int|
            0 <= j < st.phis_bblock.len() ==> 0 <= #[trigger] st.phis_bblock[j] < f.blocks.len(),
    ensures
        nb_lines(spec_is_from_decls_upto(st, f, k).body) == nb_lines(st.body),
        nl_lines(spec_is_from_decls_upto(st, f, k).body) == nl_lines(st.body),
    decreases k,
{
    if k > 0 {
        lemma_is_from_nb(st, f, k - 1);
        let stp = spec_is_from_decls_upto(st, f, k - 1);
        let p = st.phis_bblock[k - 1];
        let nm = spec_resolved_name(f.blocks[p].name, st.vars.n);
        let line = "let mut is_from_"@ + nm + " = false;"@;
        lemma_no_braces_resolved(f.blocks[p].name, st.vars.n);
        reveal_strlit("let mut is_from_");
        reveal_strlit(" = false;");
        assert(no_braces("let mut is_from_"@));
        assert(no_braces(" = false;"@));
        lemma_no_braces_concat("let mut is_from_"@, nm);
        lemma_no_braces_concat("let mut is_from_"@ + nm, " = false;"@);
        lemma_nb_no_braces(line);
        lemma_nb_lines_push(stp.body, line);
        lemma_neutral_no_braces(line);
        lemma_push_neutral(stp.body, line);
    }
}

/// Scope balance: for the control flow in scope (a single join block as
/// every conditional's second arm, branches only as terminators, loops
/// exiting through their conditional), the translated body's opening
/// and closing braces even out, and the `loop {` lines are matched one
/// for one by the `};` lines, unless the depth bound was hit.
pub proof fn lemma_scope_balance(f: FuncV, r: int, fn_id: int)
    requires
        func_wf(f),
        shape_ok(f, r),
        f.blocks.len() > 0,
    ensures
        spec_translate_builder(f, fn_id).truncated || nb_lines(
            spec_translate_builder(f, fn_id).body,
        ) == 0,
        spec_translate_builder(f, fn_id).truncated || line_count(
            spec_translate_builder(f, fn_id).body,
            "loop {"@,
        ) == line_count(spec_translate_builder(f, fn_id).body, "};"@),
{
    let st0 = spec_init_builder(f);
    crate::vars::lemma_vm_init_wf(f);
    let (sig, vars1) = spec_signature(f, fn_id, st0.vars);
    lemma_sig_params_clean(f, f.params.len() as int, st0.vars);
    let st1 = BuilderSpec { sig: sig, vars: vars1, ..st0 };
    lemma_shadows_all_clean(f);
    lemma_phis_bblock_bounds(f, f.blocks.len() as int);
    let st2 = spec_is_from_decls_upto(st1, f, st1.phis_bblock.len() as int);
    lemma_is_from_frame(st1, f, st1.phis_bblock.len() as int);
    lemma_is_from_nb(st1, f, st1.phis_bblock.len() as int);
    assert(nb_lines(st1.body) == 0);
    assert(line_count(st1.body, "loop {"@) == 0);
    assert(line_count(st1.body, "};"@) == 0);
    assert(nl_lines(st1.body) == 0);
    assert(walk_inv(st2, f, r));
    assert(st2.if_blocks[0] is None);
    assert(role_delta(st2, 0, r) == 0);
    lemma_balance_block(st2, f, r, 0, f.blocks.len() as nat);
}

} // verus!
