use llvm_to_cairo::builder::function::binary::extract_const_int_value;
use llvm_to_cairo::builder::function::{
    CairoFunctionBody, CairoFunctionSignature, CairoParameter,
};
use llvm_to_cairo::compile;
use llvm_to_cairo::ir::{
    BlockIr, FunctionIr, IcmpPredIr, InstrIr, ModuleIr, OpIr, OperandIr, ParamIr,
};

fn param(name: &str, width: u32) -> ParamIr {
    ParamIr { name: name.to_owned(), width }
}

fn instr(name: &str, width: u32, op: OpIr) -> InstrIr {
    InstrIr { name: name.to_owned(), width, op }
}

fn block(name: &str, instrs: Vec<InstrIr>) -> BlockIr {
    BlockIr { name: name.to_owned(), instrs }
}

/// The module the `add.ll` example parses to: one function adding its
/// two 64-bit parameters.
fn add_module() -> ModuleIr {
    ModuleIr {
        functions: vec![FunctionIr {
            name: "add".to_owned(),
            params: vec![param("left", 64), param("right", 64)],
            ret_width: Some(64),
            blocks: vec![block(
                "start",
                vec![
                    instr(
                        "_0",
                        64,
                        OpIr::Add {
                            lhs: OperandIr::Param { i: 1 },
                            rhs: OperandIr::Param { i: 0 },
                        },
                    ),
                    instr(
                        "",
                        64,
                        OpIr::Ret { value: Some(OperandIr::Value { b: 0, i: 0 }) },
                    ),
                ],
            )],
        }],
    }
}

/// The module the `increment.ll` example parses to: one function adding
/// the largest 128-bit constant to its parameter.
fn increment_module() -> ModuleIr {
    ModuleIr {
        functions: vec![FunctionIr {
            name: "increment".to_owned(),
            params: vec![param("left", 128)],
            ret_width: Some(128),
            blocks: vec![block(
                "start",
                vec![
                    instr(
                        "_0",
                        128,
                        OpIr::Add {
                            lhs: OperandIr::Param { i: 0 },
                            rhs: OperandIr::ConstInt {
                                value: 170141183460469231731687303715884105727,
                                width: 128,
                            },
                        },
                    ),
                    instr(
                        "",
                        128,
                        OpIr::Ret { value: Some(OperandIr::Value { b: 0, i: 0 }) },
                    ),
                ],
            )],
        }],
    }
}

/// The module the `fib.ll` example parses to: an iterative Fibonacci
/// over three 128-bit parameters, with a single loop block whose phis
/// include a self-referential pair.
fn fib_module() -> ModuleIr {
    let start = block(
        "start",
        vec![
            instr(
                "",
                1,
                OpIr::Icmp {
                    pred: IcmpPredIr::Eq,
                    lhs: OperandIr::Param { i: 2 },
                    rhs: OperandIr::ConstInt { value: 0, width: 128 },
                },
            ),
            instr(
                "",
                1,
                OpIr::CondBr {
                    cond: OperandIr::Value { b: 0, i: 0 },
                    then_target: 2,
                    else_target: 1,
                },
            ),
        ],
    );
    let ret_block = block(
        "bb1",
        vec![
            instr(
                "a_tr_lcssa",
                128,
                OpIr::Phi {
                    v1: OperandIr::Param { i: 0 },
                    b1: 0,
                    v2: OperandIr::Value { b: 2, i: 1 },
                    b2: 2,
                },
            ),
            instr(
                "",
                128,
                OpIr::Ret { value: Some(OperandIr::Value { b: 1, i: 0 }) },
            ),
        ],
    );
    let loop_block = block(
        "bb2",
        vec![
            instr(
                "n_tr3",
                128,
                OpIr::Phi {
                    v1: OperandIr::Value { b: 2, i: 4 },
                    b1: 2,
                    v2: OperandIr::Param { i: 2 },
                    b2: 0,
                },
            ),
            instr(
                "b_tr2",
                128,
                OpIr::Phi {
                    v1: OperandIr::Value { b: 2, i: 3 },
                    b1: 2,
                    v2: OperandIr::Param { i: 1 },
                    b2: 0,
                },
            ),
            instr(
                "a_tr1",
                128,
                OpIr::Phi {
                    v1: OperandIr::Value { b: 2, i: 1 },
                    b1: 2,
                    v2: OperandIr::Param { i: 0 },
                    b2: 0,
                },
            ),
            instr(
                "_4",
                128,
                OpIr::Add {
                    lhs: OperandIr::Value { b: 2, i: 1 },
                    rhs: OperandIr::Value { b: 2, i: 2 },
                },
            ),
            instr(
                "_5",
                128,
                OpIr::Add {
                    lhs: OperandIr::Value { b: 2, i: 0 },
                    rhs: OperandIr::ConstInt { value: -1, width: 128 },
                },
            ),
            instr(
                "",
                1,
                OpIr::Icmp {
                    pred: IcmpPredIr::Eq,
                    lhs: OperandIr::Value { b: 2, i: 4 },
                    rhs: OperandIr::ConstInt { value: 0, width: 128 },
                },
            ),
            instr(
                "",
                1,
                OpIr::CondBr {
                    cond: OperandIr::Value { b: 2, i: 5 },
                    then_target: 2,
                    else_target: 1,
                },
            ),
        ],
    );
    ModuleIr {
        functions: vec![FunctionIr {
            name: "fib".to_owned(),
            params: vec![param("a", 128), param("b", 128), param("n", 128)],
            ret_width: Some(128),
            blocks: vec![start, ret_block, loop_block],
        }],
    }
}

#[test]
fn it_compiles() {
    println!("Cairo code:\n{}", compile(&fib_module()).unwrap().render());
}

#[test]
fn test_add() {
    let expected_name = "add".to_owned();
    let expected_return_type = "i64".to_owned();
    let expected_params = vec![
        CairoParameter::new("left".to_owned(), "i64".to_owned()),
        CairoParameter::new("right".to_owned(), "i64".to_owned()),
    ];
    let code = compile(&add_module()).unwrap();

    // Check number of functions generated
    assert_eq!(code.count_functions(), 1, "Add function should generate exactly 1 function");
    let function = code.functions().first().unwrap();
    // Check function signature
    assert_eq!(
        function.signature,
        CairoFunctionSignature::new(expected_name, expected_params, expected_return_type)
    );

    // Check function body
    assert_eq!(
        function.body,
        CairoFunctionBody::new(vec!["let _0 = right + left;".to_owned(), "return _0;".to_owned()])
    );
}

#[test]
fn test_increment() {
    let expected_name = "increment".to_owned();
    let expected_return_type = "i128".to_owned();
    let expected_params = vec![CairoParameter::new("left".to_owned(), "i128".to_owned())];
    let code = compile(&increment_module()).unwrap();

    // Check number of functions generated
    assert_eq!(code.count_functions(), 1, "Add function should generate exactly 1 function");
    let function = code.functions().first().unwrap();
    // Check function signature
    assert_eq!(
        function.signature,
        CairoFunctionSignature::new(expected_name, expected_params, expected_return_type)
    );

    // Check function body
    assert_eq!(
        function.body,
        CairoFunctionBody::new(vec![
            "let _0 = left + 170141183460469231731687303715884105727_i128;".to_owned(),
            "return _0;".to_owned()
        ])
    );
}

#[test]
fn test_fib() {
    let expected_name = "fib".to_owned();
    let expected_return_type = "i128".to_owned();
    let expected_params = vec![
        CairoParameter::new("a".to_owned(), "i128".to_owned()),
        CairoParameter::new("b".to_owned(), "i128".to_owned()),
        CairoParameter::new("n".to_owned(), "i128".to_owned()),
    ];
    let code = compile(&fib_module()).unwrap();

    // Check number of functions generated
    assert_eq!(code.count_functions(), 1, "Add function should generate exactly 1 function");
    let function = code.functions().first().unwrap();
    // Check function signature
    assert_eq!(
        function.signature,
        CairoFunctionSignature::new(expected_name, expected_params, expected_return_type)
    );

    // Check function body
    assert_eq!(
        function.body,
        CairoFunctionBody::new(vec![
            "let mut is_from_start = false;".to_owned(),
            "let mut is_from_bb2 = false;".to_owned(),
            "let var3 = n == 0_i128;".to_owned(),
            "is_from_start = true;".to_owned(),
            "is_from_bb2 = false;".to_owned(),
            "let mut n_tr3 = 0_i128;".to_owned(),
            "let mut b_tr2 = 0_i128;".to_owned(),
            "let mut a_tr1 = 0_i128;".to_owned(),
            "let mut _4 = 0_i128;".to_owned(),
            "let mut _5 = 0_i128;".to_owned(),
            "let mut var9 = false;".to_owned(),
            "if !var3 {".to_owned(),
            "loop {".to_owned(),
            "n_tr3 = if is_from_bb2 { _5 } else if is_from_start { n } else { panic!(\"There is a bug in the \
             compiler at var n_tr3 please report it\")};"
                .to_owned(),
            "let b_tr2_temp = if is_from_bb2 { _4 } else if is_from_start { b } else { panic!(\"There is a bug in \
             the compiler at var b_tr2_temp please report it\")};"
                .to_owned(),
            "a_tr1 = if is_from_bb2 { b_tr2 } else if is_from_start { a } else { panic!(\"There is a bug in \
             the compiler at var a_tr1 please report it\")};"
                .to_owned(),
            "_4 = b_tr2_temp + a_tr1;".to_owned(),
            "_5 = n_tr3 + -1_i128;".to_owned(),
            "var9 = _5 == 0_i128;".to_owned(),
            "b_tr2 = b_tr2_temp;".to_owned(),
            "is_from_start = false;".to_owned(),
            "is_from_bb2 = true;".to_owned(),
            "if var9".to_owned(),
            "{break;}".to_owned(),
            "};".to_owned(),
            "let mut a_tr_lcssa = 0_i128;".to_owned(),
            "}".to_owned(),
            "a_tr_lcssa = if is_from_start { a } else if is_from_bb2 { b_tr2 } else { panic!(\"There is a bug \
             in the compiler at var a_tr_lcssa please report it\")};"
                .to_owned(),
            "return a_tr_lcssa;".to_owned(),
            "".to_owned(),
        ]),
    );
}
