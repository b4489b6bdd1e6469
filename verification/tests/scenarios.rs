use llvm_to_cairo::builder::function::binary::extract_const_int_value;
use llvm_to_cairo::builder::function::branch::trim_temp;
use llvm_to_cairo::builder::function::CairoFunctionBody;
use llvm_to_cairo::builder::{CairoBuilder, CairoFunctions, TranslateError};
use llvm_to_cairo::compile;
use llvm_to_cairo::ir::{
    BlockIr, FunctionIr, IcmpPredIr, InstrIr, ModuleIr, OpIr, OperandIr, ParamIr,
};
use llvm_to_cairo::text::{resolved_name, sanitize};

fn param(name: &str, width: u32) -> ParamIr {
    ParamIr { name: name.to_owned(), width }
}

fn instr(name: &str, width: u32, op: OpIr) -> InstrIr {
    InstrIr { name: name.to_owned(), width, op }
}

fn block(name: &str, instrs: Vec<InstrIr>) -> BlockIr {
    BlockIr { name: name.to_owned(), instrs }
}

fn one_function_module(f: FunctionIr) -> ModuleIr {
    ModuleIr { functions: vec![f] }
}

fn compile_ok(m: &ModuleIr) -> CairoFunctions {
    compile(m).unwrap()
}

#[test]
fn single_block_return_arg() {
    let code = compile_ok(&one_function_module(FunctionIr {
        name: "id".to_owned(),
        params: vec![param("x", 64)],
        ret_width: Some(64),
        blocks: vec![block(
            "start",
            vec![instr("", 64, OpIr::Ret { value: Some(OperandIr::Param { i: 0 }) })],
        )],
    }));
    assert_eq!(code.count_functions(), 1);
    let function = code.functions().first().unwrap();
    assert_eq!(function.signature.render(), "pub fn id(x: i64) -> i64".to_owned());
    // No phi bookkeeping and no scope opens: just the return.
    assert_eq!(function.body, CairoFunctionBody::new(vec!["return x;".to_owned()]));
}

#[test]
fn void_function_with_no_parameters() {
    let code = compile_ok(&one_function_module(FunctionIr {
        name: "f".to_owned(),
        params: vec![],
        ret_width: None,
        blocks: vec![block("start", vec![instr("", 1, OpIr::Ret { value: None })])],
    }));
    let function = code.functions().first().unwrap();
    assert_eq!(function.signature.render(), "pub fn f() -> ()".to_owned());
    assert_eq!(function.body, CairoFunctionBody::new(vec!["return ;".to_owned()]));
}

#[test]
fn unsupported_opcode_is_skipped() {
    // A `mul`-like opcode in the middle: its line is empty, everything
    // around it is still emitted.
    let code = compile_ok(&one_function_module(FunctionIr {
        name: "m".to_owned(),
        params: vec![param("a", 32), param("b", 32)],
        ret_width: Some(32),
        blocks: vec![block(
            "start",
            vec![
                instr(
                    "_0",
                    32,
                    OpIr::Add {
                        lhs: OperandIr::Param { i: 0 },
                        rhs: OperandIr::Param { i: 1 },
                    },
                ),
                instr("_1", 32, OpIr::Other),
                instr("", 32, OpIr::Ret { value: Some(OperandIr::Value { b: 0, i: 0 }) }),
            ],
        )],
    }));
    let function = code.functions().first().unwrap();
    assert_eq!(
        function.body,
        CairoFunctionBody::new(vec![
            "let _0 = a + b;".to_owned(),
            "".to_owned(),
            "return _0;".to_owned(),
        ])
    );
}

#[test]
fn unsupported_icmp_predicate_is_skipped() {
    let code = compile_ok(&one_function_module(FunctionIr {
        name: "c".to_owned(),
        params: vec![param("a", 32), param("b", 32)],
        ret_width: Some(32),
        blocks: vec![block(
            "start",
            vec![
                instr(
                    "",
                    1,
                    OpIr::Icmp {
                        pred: IcmpPredIr::Unsupported,
                        lhs: OperandIr::Param { i: 0 },
                        rhs: OperandIr::Param { i: 1 },
                    },
                ),
                instr("", 32, OpIr::Ret { value: Some(OperandIr::Param { i: 0 }) }),
            ],
        )],
    }));
    let function = code.functions().first().unwrap();
    assert_eq!(
        function.body,
        CairoFunctionBody::new(vec!["".to_owned(), "return a;".to_owned()])
    );
}

#[test]
fn zext_is_a_cast() {
    let code = compile_ok(&one_function_module(FunctionIr {
        name: "widen".to_owned(),
        params: vec![param("x", 32)],
        ret_width: Some(64),
        blocks: vec![block(
            "start",
            vec![
                instr("_1", 64, OpIr::Zext { arg: OperandIr::Param { i: 0 } }),
                instr("", 64, OpIr::Ret { value: Some(OperandIr::Value { b: 0, i: 0 }) }),
            ],
        )],
    }));
    let function = code.functions().first().unwrap();
    assert_eq!(
        function.body,
        CairoFunctionBody::new(vec!["let _1 = x as i64;".to_owned(), "return _1;".to_owned()])
    );
}

#[test]
fn unconditional_branch_walks_into_successor() {
    // start jumps to a second block holding the return; the branch line
    // itself is empty and comes last.
    let code = compile_ok(&one_function_module(FunctionIr {
        name: "chain".to_owned(),
        params: vec![param("x", 64)],
        ret_width: Some(64),
        blocks: vec![
            block("start", vec![instr("", 1, OpIr::Br { target: 1 })]),
            block(
                "end",
                vec![instr("", 64, OpIr::Ret { value: Some(OperandIr::Param { i: 0 }) })],
            ),
        ],
    }));
    let function = code.functions().first().unwrap();
    assert_eq!(
        function.body,
        CairoFunctionBody::new(vec!["return x;".to_owned(), "".to_owned()])
    );
}

#[test]
fn return_block_is_not_the_last_block() {
    // The entry returns and the second block jumps back to it: the
    // entry is the block all others lead to.
    let code = compile_ok(&one_function_module(FunctionIr {
        name: "back".to_owned(),
        params: vec![param("x", 64)],
        ret_width: Some(64),
        blocks: vec![
            block(
                "start",
                vec![instr("", 64, OpIr::Ret { value: Some(OperandIr::Param { i: 0 }) })],
            ),
            block("other", vec![instr("", 1, OpIr::Br { target: 0 })]),
        ],
    }));
    let function = code.functions().first().unwrap();
    assert_eq!(function.body, CairoFunctionBody::new(vec!["return x;".to_owned()]));
}

#[test]
fn self_loop_hits_the_recursion_bound() {
    // A block branching only to itself: the loop opens and closes, and
    // the walk stops at the depth bound instead of diverging.
    let code = compile_ok(&one_function_module(FunctionIr {
        name: "spin".to_owned(),
        params: vec![],
        ret_width: None,
        blocks: vec![block("start", vec![instr("", 1, OpIr::Br { target: 0 })])],
    }));
    let function = code.functions().first().unwrap();
    assert_eq!(
        function.body,
        CairoFunctionBody::new(vec![
            "loop {".to_owned(),
            "".to_owned(),
            "}".to_owned(),
            "};".to_owned(),
        ])
    );
}

#[test]
fn two_functions_translate_in_order() {
    let module = ModuleIr {
        functions: vec![
            FunctionIr {
                name: "first".to_owned(),
                params: vec![param("x", 8)],
                ret_width: Some(8),
                blocks: vec![block(
                    "start",
                    vec![instr("", 8, OpIr::Ret { value: Some(OperandIr::Param { i: 0 }) })],
                )],
            },
            FunctionIr {
                name: "".to_owned(),
                params: vec![],
                ret_width: None,
                blocks: vec![block("start", vec![instr("", 1, OpIr::Ret { value: None })])],
            },
        ],
    };
    let code = compile(&module).unwrap();
    assert_eq!(code.count_functions(), 2);
    assert_eq!(code.functions()[0].signature.render(), "pub fn first(x: i8) -> i8".to_owned());
    // The second function has no source name: it is numbered by its
    // position among the translated functions.
    assert_eq!(code.functions()[1].signature.render(), "pub fn function1() -> ()".to_owned());
}

#[test]
fn repeated_translation_is_byte_identical() {
    let make = || {
        one_function_module(FunctionIr {
            name: "add".to_owned(),
            params: vec![param("left", 64), param("right", 64)],
            ret_width: Some(64),
            blocks: vec![block(
                "start",
                vec![
                    instr(
                        "_0",
                        64,
                        OpIr::Add {
                            lhs: OperandIr::Param { i: 1 },
                            rhs: OperandIr::Param { i: 0 },
                        },
                    ),
                    instr("", 64, OpIr::Ret { value: Some(OperandIr::Value { b: 0, i: 0 }) }),
                ],
            )],
        })
    };
    let first = compile(&make()).unwrap().render();
    let second = compile(&make()).unwrap().render();
    assert_eq!(first, second);
}

#[test]
fn constants_carry_their_width_suffix() {
    assert_eq!(extract_const_int_value(0, 1), "0_i1".to_owned());
    assert_eq!(extract_const_int_value(-42, 16), "-42_i16".to_owned());
    assert_eq!(extract_const_int_value(7, 64), "7_i64".to_owned());
    assert_eq!(
        extract_const_int_value(-170141183460469231731687303715884105728, 128),
        "-170141183460469231731687303715884105728_i128".to_owned()
    );
}

#[test]
fn names_are_sanitized_and_synthesized() {
    assert_eq!(sanitize("a.b$c_9"), "abc_9".to_owned());
    assert_eq!(sanitize("n_tr.3"), "n_tr3".to_owned());
    assert_eq!(resolved_name("", 7), "var7".to_owned());
    assert_eq!(resolved_name("ok_name", 7), "ok_name".to_owned());
}

#[test]
fn trailing_temp_suffixes_are_trimmed() {
    assert_eq!(trim_temp("b_tr2_temp"), "b_tr2".to_owned());
    assert_eq!(trim_temp("x_temp_temp"), "x".to_owned());
    assert_eq!(trim_temp("plain"), "plain".to_owned());
    assert_eq!(trim_temp("tempo"), "tempo".to_owned());
}

#[test]
fn emitted_braces_balance_in_the_loop_example() {
    // Scope balance, checked on the worked loop example: counting over
    // the emitted lines, `{` and `}` match and `loop {` pairs with `};`.
    let code = compile_ok(&one_function_module(FunctionIr {
        name: "fib".to_owned(),
        params: vec![param("a", 128), param("b", 128), param("n", 128)],
        ret_width: Some(128),
        blocks: vec![
            block(
                "start",
                vec![
                    instr(
                        "",
                        1,
                        OpIr::Icmp {
                            pred: IcmpPredIr::Eq,
                            lhs: OperandIr::Param { i: 2 },
                            rhs: OperandIr::ConstInt { value: 0, width: 128 },
                        },
                    ),
                    instr(
                        "",
                        1,
                        OpIr::CondBr {
                            cond: OperandIr::Value { b: 0, i: 0 },
                            then_target: 2,
                            else_target: 1,
                        },
                    ),
                ],
            ),
            block(
                "bb1",
                vec![
                    instr(
                        "res",
                        128,
                        OpIr::Phi {
                            v1: OperandIr::Param { i: 0 },
                            b1: 0,
                            v2: OperandIr::Value { b: 2, i: 0 },
                            b2: 2,
                        },
                    ),
                    instr("", 128, OpIr::Ret { value: Some(OperandIr::Value { b: 1, i: 0 }) }),
                ],
            ),
            block(
                "bb2",
                vec![
                    instr(
                        "acc",
                        128,
                        OpIr::Phi {
                            v1: OperandIr::Value { b: 2, i: 1 },
                            b1: 2,
                            v2: OperandIr::Param { i: 0 },
                            b2: 0,
                        },
                    ),
                    instr(
                        "next",
                        128,
                        OpIr::Add {
                            lhs: OperandIr::Value { b: 2, i: 0 },
                            rhs: OperandIr::ConstInt { value: -1, width: 128 },
                        },
                    ),
                    instr(
                        "",
                        1,
                        OpIr::Icmp {
                            pred: IcmpPredIr::Eq,
                            lhs: OperandIr::Value { b: 2, i: 1 },
                            rhs: OperandIr::ConstInt { value: 0, width: 128 },
                        },
                    ),
                    instr(
                        "",
                        1,
                        OpIr::CondBr {
                            cond: OperandIr::Value { b: 2, i: 2 },
                            then_target: 2,
                            else_target: 1,
                        },
                    ),
                ],
            ),
        ],
    }));
    let text = code.render();
    let opens = text.chars().filter(|c| *c == '{').count();
    let closes = text.chars().filter(|c| *c == '}').count();
    assert_eq!(opens, closes);
    let loop_opens = text.lines().filter(|l| *l == "loop {").count();
    let loop_closes = text.lines().filter(|l| *l == "};").count();
    assert_eq!(loop_opens, loop_closes);
}

#[test]
fn rendering_matches_the_display_shape() {
    let code = compile_ok(&one_function_module(FunctionIr {
        name: "add".to_owned(),
        params: vec![param("left", 64), param("right", 64)],
        ret_width: Some(64),
        blocks: vec![block(
            "start",
            vec![
                instr(
                    "_0",
                    64,
                    OpIr::Add {
                        lhs: OperandIr::Param { i: 1 },
                        rhs: OperandIr::Param { i: 0 },
                    },
                ),
                instr("", 64, OpIr::Ret { value: Some(OperandIr::Value { b: 0, i: 0 }) }),
            ],
        )],
    }));
    let function = code.functions().first().unwrap();
    assert_eq!(
        function.render(),
        "pub fn add(left: i64,right: i64) -> i64 {\nlet _0 = right + left;\nreturn _0;\n}"
            .to_owned()
    );
    assert_eq!(code.render(), function.render());
}

#[test]
fn rendered_functions_are_separated_by_a_blank_line() {
    let module = ModuleIr {
        functions: vec![
            FunctionIr {
                name: "one".to_owned(),
                params: vec![],
                ret_width: None,
                blocks: vec![block("start", vec![instr("", 1, OpIr::Ret { value: None })])],
            },
            FunctionIr {
                name: "two".to_owned(),
                params: vec![],
                ret_width: None,
                blocks: vec![block("start", vec![instr("", 1, OpIr::Ret { value: None })])],
            },
        ],
    };
    let code = compile(&module).unwrap();
    assert_eq!(
        code.render(),
        "pub fn one() -> () {\nreturn ;\n}\n\npub fn two() -> () {\nreturn ;\n}".to_owned()
    );
}

#[test]
fn unnamed_values_resolve_to_their_stored_names() {
    // An unnamed result referenced later resolves through the map to the
    // name it was declared under, not to a fresh number.
    let code = compile_ok(&one_function_module(FunctionIr {
        name: "anon".to_owned(),
        params: vec![param("x", 32)],
        ret_width: Some(32),
        blocks: vec![block(
            "start",
            vec![
                instr(
                    "",
                    32,
                    OpIr::Add {
                        lhs: OperandIr::Param { i: 0 },
                        rhs: OperandIr::ConstInt { value: 1, width: 32 },
                    },
                ),
                instr(
                    "",
                    32,
                    OpIr::Add {
                        lhs: OperandIr::Value { b: 0, i: 0 },
                        rhs: OperandIr::ConstInt { value: 1, width: 32 },
                    },
                ),
                instr("", 32, OpIr::Ret { value: Some(OperandIr::Value { b: 0, i: 1 }) }),
            ],
        )],
    }));
    let function = code.functions().first().unwrap();
    assert_eq!(
        function.body,
        CairoFunctionBody::new(vec![
            "let var1 = x + 1_i32;".to_owned(),
            "let var2 = var1 + 1_i32;".to_owned(),
            "return var2;".to_owned(),
        ])
    );
}

#[test]
fn irreducible_flow_is_refused() {
    // Two distinct blocks jumping to each other lie on a common cycle:
    // translation is refused instead of emitting wrong code.
    let module = one_function_module(FunctionIr {
        name: "twist".to_owned(),
        params: vec![],
        ret_width: None,
        blocks: vec![
            block("start", vec![instr("", 1, OpIr::Br { target: 1 })]),
            block("back", vec![instr("", 1, OpIr::Br { target: 0 })]),
        ],
    });
    assert!(matches!(compile(&module), Err(TranslateError::UnsupportedControlFlow)));
}

#[test]
fn shadowed_phi_keeps_its_let_and_predeclared_phis_lose_it() {
    // In a loop block the scope planner pre-declares the phi results, so
    // their phi lines carry no `let`; the `_temp` shadow name was never
    // pre-declared, so its line keeps the `let`.
    let module = one_function_module(FunctionIr {
        name: "pair".to_owned(),
        params: vec![param("a", 32), param("b", 32)],
        ret_width: Some(32),
        blocks: vec![
            block(
                "start",
                vec![
                    instr(
                        "",
                        1,
                        OpIr::Icmp {
                            pred: IcmpPredIr::Eq,
                            lhs: OperandIr::Param { i: 0 },
                            rhs: OperandIr::ConstInt { value: 0, width: 32 },
                        },
                    ),
                    instr(
                        "",
                        1,
                        OpIr::CondBr {
                            cond: OperandIr::Value { b: 0, i: 0 },
                            then_target: 2,
                            else_target: 1,
                        },
                    ),
                ],
            ),
            block(
                "done",
                vec![instr("", 32, OpIr::Ret { value: Some(OperandIr::Param { i: 0 }) })],
            ),
            block(
                "cycle",
                vec![
                    instr(
                        "p",
                        32,
                        OpIr::Phi {
                            v1: OperandIr::Value { b: 2, i: 1 },
                            b1: 2,
                            v2: OperandIr::Param { i: 0 },
                            b2: 0,
                        },
                    ),
                    instr(
                        "q",
                        32,
                        OpIr::Phi {
                            v1: OperandIr::Value { b: 2, i: 0 },
                            b1: 2,
                            v2: OperandIr::Param { i: 1 },
                            b2: 0,
                        },
                    ),
                    instr(
                        "",
                        1,
                        OpIr::Icmp {
                            pred: IcmpPredIr::Eq,
                            lhs: OperandIr::Value { b: 2, i: 0 },
                            rhs: OperandIr::ConstInt { value: 0, width: 32 },
                        },
                    ),
                    instr(
                        "",
                        1,
                        OpIr::CondBr {
                            cond: OperandIr::Value { b: 2, i: 2 },
                            then_target: 2,
                            else_target: 1,
                        },
                    ),
                ],
            ),
        ],
    });
    let code = compile(&module).unwrap();
    let function = code.functions().first().unwrap();
    let lines: Vec<String> = function.body.0.clone();
    // Both phis form a use cycle, so both are shadowed and keep `let`.
    assert!(lines.contains(&"let p_temp = if is_from_cycle { q } else if is_from_start { a } else { panic!(\"There is a bug in the compiler at var p_temp please report it\")};".to_owned()));
    assert!(lines.contains(&"let q_temp = if is_from_cycle { p } else if is_from_start { b } else { panic!(\"There is a bug in the compiler at var q_temp please report it\")};".to_owned()));
    assert!(lines.contains(&"p = p_temp;".to_owned()));
    assert!(lines.contains(&"q = q_temp;".to_owned()));
}

#[test]
fn builder_accessors_read_the_signature() {
    let builder = CairoBuilder::default();
    let f = FunctionIr {
        name: "probe".to_owned(),
        params: vec![param("x", 16)],
        ret_width: Some(16),
        blocks: vec![block(
            "start",
            vec![instr("", 16, OpIr::Ret { value: Some(OperandIr::Param { i: 0 }) })],
        )],
    };
    let translated = builder.translate_function(&f).unwrap();
    assert_eq!(translated.signature.name, "probe".to_owned());
    assert_eq!(translated.signature.parameters.0.len(), 1);
    assert_eq!(translated.signature.parameters.0[0].render(), "x: i16".to_owned());
    assert_eq!(translated.signature.return_type, "i16".to_owned());
}

#[test]
fn body_lines_push_in_order() {
    let mut body = CairoFunctionBody::new(vec!["a;".to_owned()]);
    body.push_line("b;".to_owned());
    assert_eq!(body, CairoFunctionBody::new(vec!["a;".to_owned(), "b;".to_owned()]));
    assert_eq!(body.render(), "a;\nb;".to_owned());
}

#[test]
fn functions_collect_in_push_order() {
    let mut collected = CairoFunctions(Vec::new());
    assert_eq!(collected.count_functions(), 0);
    let builder = CairoBuilder::default();
    let f = FunctionIr {
        name: "only".to_owned(),
        params: vec![],
        ret_width: None,
        blocks: vec![block("start", vec![instr("", 1, OpIr::Ret { value: None })])],
    };
    let translated = builder.translate_function(&f).unwrap();
    collected.push_function(translated);
    assert_eq!(collected.count_functions(), 1);
    assert_eq!(collected.functions()[0].signature.render(), "pub fn only() -> ()".to_owned());
}
