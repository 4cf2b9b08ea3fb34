use wasm_vk::error::CompileError;
use wasm_vk::ir::{Base, Const, Fun, Global, ICompOp, INumOp, Local, ValueType, Width};
use wasm_vk::spirv::compile;
use wasm_vk::tree::{compile_module, parse_from, to_fun};
use wasm_vk::wasm::{Ender, Function, GlobalType, Instr, Label, Signature, WasmModule};

fn i32c(v: i32) -> Base {
    Base::Const(Const::I32(v))
}

fn seq(a: Base, b: Base) -> Base {
    Base::Sequence(Box::new(a), Box::new(b))
}

fn local(idx: u32) -> Local {
    Local { idx, ty: ValueType::I32 }
}

fn add(a: Base, b: Base) -> Base {
    Base::INumOp(Width::W32, INumOp::Add, Box::new(a), Box::new(b))
}

fn void_function(locals: usize, body: Vec<Instr>) -> Function {
    Function {
        sig: Signature { params: vec![], ty: None },
        locals: vec![ValueType::I32; locals],
        body,
    }
}

fn thread_id_module(funs: Vec<Function>) -> WasmModule {
    WasmModule { globals: vec![GlobalType { ty: ValueType::I32, mutable: false }], funs }
}

/// The body of a function without parameters and result, with two locals.
fn body_of(instrs: Vec<Instr>) -> Result<Base, CompileError> {
    let module = thread_id_module(vec![void_function(2, instrs)]);
    to_fun(&module, 0).map(|f| f.body)
}

fn thread_id() -> Base {
    Base::GetGlobal(Global { idx: 0, ty: ValueType::I32, mutable: false })
}

const MUL: Instr = Instr::Num(Width::W32, INumOp::Mul);
const ADD: Instr = Instr::Num(Width::W32, INumOp::Add);

fn c(v: i32) -> Instr {
    Instr::Const(Const::I32(v))
}

#[test]
fn empty_body_does_nothing() {
    assert_eq!(body_of(vec![Instr::End]), Ok(Base::Nop));
    assert_eq!(body_of(vec![Instr::Nop, Instr::Nop, Instr::End]), Ok(Base::Nop));
}

#[test]
fn operands_are_popped_in_the_order_in_which_they_were_pushed() {
    let body = body_of(vec![c(7), c(2), Instr::Num(Width::W32, INumOp::Sub), Instr::Drop, Instr::End]);
    let sub = Base::INumOp(Width::W32, INumOp::Sub, Box::new(i32c(7)), Box::new(i32c(2)));
    assert_eq!(body, Ok(seq(sub, Base::Nop)));

    let body = body_of(vec![
        c(1),
        c(2),
        Instr::Comp(Width::W64, ICompOp::LtS),
        Instr::SetLocal(0),
        Instr::End,
    ]);
    let less = Base::ICompOp(Width::W64, ICompOp::LtS, Box::new(i32c(1)), Box::new(i32c(2)));
    assert_eq!(body, Ok(Base::SetLocal(local(0), Box::new(less))));
}

#[test]
fn add_and_store_kernel() {
    // buf[i] = buf[i] + buf[i + 16], with i the thread id
    let instrs = vec![
        Instr::GetGlobal(0),
        c(4),
        MUL,
        Instr::GetGlobal(0),
        c(4),
        MUL,
        Instr::Load(ValueType::I32, 0),
        Instr::GetGlobal(0),
        c(4),
        MUL,
        Instr::Load(ValueType::I32, 64),
        ADD,
        Instr::Store(ValueType::I32, 0),
        Instr::End,
    ];
    let address = || Base::INumOp(Width::W32, INumOp::Mul, Box::new(thread_id()), Box::new(i32c(4)));
    let expected = Base::Store(
        ValueType::I32,
        Box::new(address()),
        Box::new(add(
            Base::Load(ValueType::I32, Box::new(address())),
            Base::Load(ValueType::I32, Box::new(add(address(), i32c(64)))),
        )),
    );
    assert_eq!(body_of(instrs.clone()), Ok(expected));

    // and the module compiles to what the tree compiles to
    let module = thread_id_module(vec![void_function(0, instrs)]);
    let f = to_fun(&module, 0).unwrap();
    let bytes = compile_module(&module, Some(0)).unwrap();
    assert_eq!(bytes, compile(&vec![f], Some(0)).unwrap());
    assert_eq!(&bytes[0..4], &[0x03, 0x02, 0x23, 0x07]);
    assert!(rspirv::dr::load_bytes(&bytes).is_ok());
}

#[test]
fn statements_are_sequenced() {
    let body = body_of(vec![
        c(1),
        Instr::SetLocal(0),
        c(2),
        Instr::SetLocal(1),
        Instr::GetLocal(0),
        Instr::Drop,
        Instr::End,
    ]);
    let expected = seq(
        Base::SetLocal(local(0), Box::new(i32c(1))),
        seq(
            Base::SetLocal(local(1), Box::new(i32c(2))),
            seq(Base::GetLocal(local(0)), Base::Nop),
        ),
    );
    assert_eq!(body, Ok(expected));
}

#[test]
fn tee_local_writes_and_yields() {
    let body = body_of(vec![c(5), Instr::TeeLocal(1), Instr::SetLocal(0), Instr::End]);
    let tee = seq(Base::SetLocal(local(1), Box::new(i32c(5))), Base::GetLocal(local(1)));
    assert_eq!(body, Ok(Base::SetLocal(local(0), Box::new(tee))));
}

#[test]
fn locals_take_their_types_from_the_function() {
    let function = Function {
        sig: Signature { params: vec![ValueType::F32, ValueType::I64], ty: Some(ValueType::F64) },
        locals: vec![ValueType::F64],
        body: vec![Instr::GetLocal(0), Instr::Drop, Instr::GetLocal(1), Instr::Drop, Instr::GetLocal(2), Instr::End],
    };
    let f = to_fun(&thread_id_module(vec![function]), 0).unwrap();
    assert_eq!(f.params, vec![ValueType::F32, ValueType::I64]);
    assert_eq!(f.ty, Some(ValueType::F64));
    assert_eq!(
        f.body,
        seq(
            seq(Base::GetLocal(Local { idx: 0, ty: ValueType::F32 }), Base::Nop),
            seq(
                seq(Base::GetLocal(Local { idx: 1, ty: ValueType::I64 }), Base::Nop),
                Base::GetLocal(Local { idx: 2, ty: ValueType::F64 }),
            ),
        )
    );
    assert_eq!(body_of(vec![Instr::GetLocal(2), Instr::Drop, Instr::End]), Err(CompileError::UnsupportedInstruction));
    assert_eq!(body_of(vec![c(0), Instr::SetLocal(2), Instr::End]), Err(CompileError::UnsupportedInstruction));
    assert_eq!(body_of(vec![c(0), Instr::TeeLocal(2), Instr::End]), Err(CompileError::UnsupportedInstruction));
}

#[test]
fn globals_take_their_types_from_the_module() {
    let module = WasmModule {
        globals: vec![
            GlobalType { ty: ValueType::I32, mutable: false },
            GlobalType { ty: ValueType::F32, mutable: true },
        ],
        funs: vec![void_function(0, vec![Instr::GetGlobal(1), Instr::Drop, Instr::End])],
    };
    let f = to_fun(&module, 0).unwrap();
    assert_eq!(f.body, seq(Base::GetGlobal(Global { idx: 1, ty: ValueType::F32, mutable: true }), Base::Nop));
    // the tree is there, but it is not lowered
    assert_eq!(compile_module(&module, None), Err(CompileError::UnsupportedGlobal));

    assert_eq!(body_of(vec![Instr::GetGlobal(1), Instr::Drop, Instr::End]), Err(CompileError::UnsupportedGlobal));
    assert_eq!(body_of(vec![c(0), Instr::SetGlobal(0), Instr::End]), Err(CompileError::UnsupportedGlobal));
}

#[test]
fn loads_and_stores_add_their_offset() {
    assert_eq!(
        body_of(vec![c(8), Instr::Load(ValueType::F32, 0), Instr::Drop, Instr::End]),
        Ok(seq(Base::Load(ValueType::F32, Box::new(i32c(8))), Base::Nop))
    );
    assert_eq!(
        body_of(vec![c(8), Instr::Load(ValueType::I32, 12), Instr::Drop, Instr::End]),
        Ok(seq(Base::Load(ValueType::I32, Box::new(add(i32c(8), i32c(12)))), Base::Nop))
    );
    assert_eq!(
        body_of(vec![c(8), c(1), Instr::Store(ValueType::I32, u32::MAX), Instr::End]),
        Ok(Base::Store(ValueType::I32, Box::new(add(i32c(8), i32c(-1))), Box::new(i32c(1))))
    );
}

#[test]
fn block_is_a_loop_that_a_branch_leaves() {
    let body = body_of(vec![Instr::Block(false), Instr::Br(0), c(1), Instr::SetLocal(0), Instr::End, Instr::End]);
    assert_eq!(
        body,
        Ok(Base::Loop(Box::new(seq(Base::Break, Base::SetLocal(local(0), Box::new(i32c(1)))))))
    );
}

#[test]
fn loop_is_a_loop_that_a_branch_starts_again() {
    let body = body_of(vec![Instr::Loop(false), Instr::Br(0), Instr::End, Instr::End]);
    assert_eq!(body, Ok(Base::Loop(Box::new(Base::Continue))));
}

#[test]
fn conditional_branch_is_a_selection() {
    let body = body_of(vec![
        Instr::Loop(false),
        Instr::GetLocal(0),
        Instr::BrIf(0),
        Instr::End,
        Instr::End,
    ]);
    let branch = Base::If {
        cond: Box::new(Base::GetLocal(local(0))),
        t: Box::new(Base::Continue),
        f: Box::new(Base::Nop),
    };
    assert_eq!(body, Ok(Base::Loop(Box::new(branch))));

    let body = body_of(vec![Instr::Block(false), c(1), Instr::BrIf(0), Instr::End, Instr::End]);
    let branch = Base::If { cond: Box::new(i32c(1)), t: Box::new(Base::Break), f: Box::new(Base::Nop) };
    assert_eq!(body, Ok(Base::Loop(Box::new(branch))));
}

#[test]
fn loop_with_a_branch_back_and_a_branch_out() {
    // block { loop { if local 0 < 10 then continue; } break; }
    let instrs = vec![
        Instr::Block(false),
        Instr::Loop(false),
        Instr::GetLocal(0),
        c(10),
        Instr::Comp(Width::W32, ICompOp::LtU),
        Instr::BrIf(0),
        Instr::End,
        Instr::Br(0),
        Instr::End,
        Instr::End,
    ];
    let less = Base::ICompOp(
        Width::W32,
        ICompOp::LtU,
        Box::new(Base::GetLocal(local(0))),
        Box::new(i32c(10)),
    );
    let inner = Base::Loop(Box::new(Base::If {
        cond: Box::new(less),
        t: Box::new(Base::Continue),
        f: Box::new(Base::Nop),
    }));
    assert_eq!(body_of(instrs.clone()), Ok(Base::Loop(Box::new(seq(inner, Base::Break)))));

    let bytes = compile_module(&thread_id_module(vec![void_function(1, instrs)]), Some(0)).unwrap();
    let module = rspirv::dr::load_bytes(&bytes).unwrap();
    let merges: Vec<_> = module.functions[0]
        .blocks
        .iter()
        .flat_map(|b| b.instructions.iter())
        .filter(|i| i.class.opcode == spirv_headers::Op::LoopMerge)
        .collect();
    assert_eq!(merges.len(), 2);
    for m in merges {
        assert_ne!(m.operands[0], m.operands[1]);
    }
}

#[test]
fn branches_over_more_than_one_level_are_rejected() {
    let rejected = Err(CompileError::MultiLevelBranch);
    assert_eq!(body_of(vec![Instr::Loop(false), Instr::Br(1), Instr::End, Instr::End]), rejected);
    assert_eq!(
        body_of(vec![Instr::Block(false), Instr::Loop(false), Instr::Br(1), Instr::End, Instr::End, Instr::End]),
        rejected
    );
    assert_eq!(body_of(vec![Instr::Loop(false), c(1), Instr::BrIf(2), Instr::End, Instr::End]), rejected);
    // the function itself is no loop
    assert_eq!(body_of(vec![Instr::Br(0), Instr::End]), rejected);
    assert_eq!(body_of(vec![c(1), Instr::BrIf(0), Instr::End]), rejected);
    // nor is a selection, whose label is the innermost one inside it
    assert_eq!(
        body_of(vec![Instr::Loop(false), c(1), Instr::If(false), Instr::Br(0), Instr::End, Instr::End, Instr::End]),
        rejected
    );
    assert_eq!(
        body_of(vec![
            Instr::Loop(false),
            c(1),
            Instr::If(false),
            Instr::Else,
            Instr::Br(0),
            Instr::End,
            Instr::End,
            Instr::End,
        ]),
        rejected
    );
    // the branch is looked at before its condition
    assert_eq!(body_of(vec![Instr::Loop(false), Instr::BrIf(1), Instr::End, Instr::End]), rejected);
}

#[test]
fn selection_with_and_without_a_second_branch() {
    let body = body_of(vec![
        Instr::GetLocal(0),
        Instr::If(false),
        c(1),
        Instr::SetLocal(0),
        Instr::End,
        Instr::End,
    ]);
    assert_eq!(
        body,
        Ok(Base::If {
            cond: Box::new(Base::GetLocal(local(0))),
            t: Box::new(Base::SetLocal(local(0), Box::new(i32c(1)))),
            f: Box::new(Base::Nop),
        })
    );
    let body = body_of(vec![
        Instr::GetLocal(0),
        Instr::If(false),
        c(1),
        Instr::SetLocal(0),
        Instr::Else,
        c(2),
        Instr::SetLocal(1),
        Instr::Return,
        Instr::End,
        Instr::End,
    ]);
    assert_eq!(
        body,
        Ok(Base::If {
            cond: Box::new(Base::GetLocal(local(0))),
            t: Box::new(Base::SetLocal(local(0), Box::new(i32c(1)))),
            f: Box::new(seq(Base::SetLocal(local(1), Box::new(i32c(2))), Base::Return)),
        })
    );
}

#[test]
fn if_without_else_compiles_to_one_selection() {
    let instrs = vec![
        Instr::GetGlobal(0),
        Instr::If(false),
        c(1),
        Instr::SetLocal(0),
        Instr::End,
        Instr::End,
    ];
    let bytes = compile_module(&thread_id_module(vec![void_function(1, instrs)]), Some(0)).unwrap();
    let module = rspirv::dr::load_bytes(&bytes).unwrap();
    let ops: Vec<spirv_headers::Op> = module.functions[0]
        .blocks
        .iter()
        .flat_map(|b| b.instructions.iter())
        .map(|i| i.class.opcode)
        .collect();
    let count = |op: spirv_headers::Op| ops.iter().filter(|o| **o == op).count();
    assert_eq!(count(spirv_headers::Op::SelectionMerge), 1);
    assert_eq!(count(spirv_headers::Op::BranchConditional), 1);
    assert_eq!(count(spirv_headers::Op::Branch), 2);
    assert_eq!(count(spirv_headers::Op::Phi), 0);
    assert_eq!(module.functions[0].blocks.len(), 4);
}

#[test]
fn blocks_that_yield_a_value_are_unsupported() {
    let rejected = Err(CompileError::UnsupportedInstruction);
    assert_eq!(body_of(vec![Instr::Block(true), c(1), Instr::End, Instr::Drop, Instr::End]), rejected);
    assert_eq!(body_of(vec![Instr::Loop(true), c(1), Instr::End, Instr::Drop, Instr::End]), rejected);
    assert_eq!(
        body_of(vec![c(1), Instr::If(true), c(1), Instr::Else, c(2), Instr::End, Instr::Drop, Instr::End]),
        rejected
    );
}

#[test]
fn calls_take_their_arguments_off_the_stack() {
    let callee = Function {
        sig: Signature { params: vec![ValueType::I32, ValueType::I32], ty: Some(ValueType::I32) },
        locals: vec![],
        body: vec![Instr::GetLocal(0), Instr::GetLocal(1), ADD, Instr::End],
    };
    let quiet = void_function(0, vec![Instr::End]);
    let caller = void_function(
        1,
        vec![c(1), c(2), c(3), Instr::Call(0), ADD, Instr::SetLocal(0), Instr::Call(1), Instr::End],
    );
    let module = thread_id_module(vec![callee, quiet, caller]);
    let f = to_fun(&module, 2).unwrap();
    assert_eq!(
        f.body,
        seq(
            Base::SetLocal(local(0), Box::new(add(i32c(1), Base::Call(0, vec![i32c(2), i32c(3)])))),
            Base::Call(1, vec![]),
        )
    );
    assert!(compile_module(&module, Some(2)).is_ok());

    // a call that yields nothing is no operand
    let wrong = void_function(0, vec![Instr::Call(1), Instr::Drop, Instr::End]);
    let module = thread_id_module(vec![void_function(0, vec![Instr::End]), void_function(0, vec![Instr::End]), wrong]);
    assert_eq!(to_fun(&module, 2), Err(CompileError::UnsupportedInstruction));
}

#[test]
fn calls_need_a_function_and_its_arguments() {
    let callee = Function {
        sig: Signature { params: vec![ValueType::I32, ValueType::I32], ty: None },
        locals: vec![],
        body: vec![Instr::End],
    };
    let unknown = void_function(0, vec![Instr::Call(4), Instr::End]);
    let short = void_function(0, vec![c(1), Instr::Call(0), Instr::End]);
    let statement = void_function(1, vec![c(1), c(1), Instr::SetLocal(0), Instr::Nop, c(2), Instr::Call(0), Instr::End]);
    let module = thread_id_module(vec![callee, unknown, short, statement]);
    assert_eq!(to_fun(&module, 1), Err(CompileError::UnknownFunction));
    assert_eq!(to_fun(&module, 2), Err(CompileError::UnsupportedInstruction));
    assert_eq!(to_fun(&module, 3), Err(CompileError::UnsupportedInstruction));
    assert_eq!(compile_module(&module, None), Err(CompileError::UnknownFunction));
}

#[test]
fn operands_must_be_values_on_the_stack() {
    let rejected = Err(CompileError::UnsupportedInstruction);
    assert_eq!(body_of(vec![ADD, Instr::End]), rejected);
    assert_eq!(body_of(vec![c(1), ADD, Instr::End]), rejected);
    assert_eq!(body_of(vec![Instr::Drop, Instr::End]), rejected);
    assert_eq!(body_of(vec![Instr::SetLocal(0), Instr::End]), rejected);
    assert_eq!(body_of(vec![c(0), Instr::Store(ValueType::I32, 0), Instr::End]), rejected);
    assert_eq!(body_of(vec![Instr::Load(ValueType::I32, 0), Instr::End]), rejected);
    assert_eq!(body_of(vec![Instr::If(false), Instr::End, Instr::End]), rejected);
    // a statement between two operands cannot be moved out of the way
    assert_eq!(
        body_of(vec![c(1), c(2), Instr::SetLocal(0), c(3), ADD, Instr::Drop, Instr::End]),
        rejected
    );
    assert_eq!(
        body_of(vec![c(1), Instr::Nop, c(3), ADD, Instr::Drop, Instr::End]),
        Ok(seq(add(i32c(1), i32c(3)), Base::Nop))
    );
}

#[test]
fn other_instructions_are_unsupported() {
    assert_eq!(body_of(vec![Instr::Unsupported, Instr::End]), Err(CompileError::UnsupportedInstruction));
    assert_eq!(body_of(vec![Instr::Else, Instr::End]), Err(CompileError::UnsupportedInstruction));
    assert_eq!(
        body_of(vec![Instr::Block(false), Instr::Else, Instr::End, Instr::End]),
        Err(CompileError::UnsupportedInstruction)
    );
}

#[test]
fn body_must_end_where_the_function_ends() {
    let rejected = Err(CompileError::UnsupportedInstruction);
    assert_eq!(body_of(vec![]), rejected);
    assert_eq!(body_of(vec![c(1), Instr::Drop]), rejected);
    assert_eq!(body_of(vec![Instr::End, Instr::End]), rejected);
    assert_eq!(body_of(vec![Instr::End, Instr::Nop]), rejected);
    assert_eq!(body_of(vec![Instr::Block(false), Instr::End]), rejected);
    assert_eq!(body_of(vec![Instr::Loop(false), Instr::Block(false), Instr::End, Instr::End]), rejected);
    assert_eq!(body_of(vec![c(1), Instr::If(false), Instr::Else, Instr::End]), rejected);
}

#[test]
fn function_with_a_result_must_yield_it() {
    let f = |body: Vec<Instr>| {
        let function = Function { sig: Signature { params: vec![], ty: Some(ValueType::I32) }, locals: vec![ValueType::I32], body };
        to_fun(&thread_id_module(vec![function]), 0)
    };
    assert_eq!(f(vec![c(1), Instr::End]).map(|f| f.body), Ok(i32c(1)));
    assert_eq!(
        f(vec![c(1), Instr::SetLocal(0), Instr::GetLocal(0), Instr::End]).map(|f| f.body),
        Ok(seq(Base::SetLocal(local(0), Box::new(i32c(1))), Base::GetLocal(local(0))))
    );
    assert_eq!(f(vec![Instr::End]), Err(CompileError::UnsupportedInstruction));
    assert_eq!(f(vec![c(1), Instr::SetLocal(0), Instr::End]), Err(CompileError::UnsupportedInstruction));
    // a return cannot carry the value
    assert_eq!(f(vec![c(1), Instr::Return, Instr::End]), Err(CompileError::UnsupportedInstruction));
}

#[test]
fn return_leaves_a_function_without_a_result() {
    assert_eq!(body_of(vec![Instr::Return, Instr::End]), Ok(Base::Return));
    assert_eq!(
        body_of(vec![Instr::Loop(false), Instr::Return, Instr::End, Instr::End]),
        Ok(Base::Loop(Box::new(Base::Return)))
    );
}

#[test]
fn constants_of_64_bits_are_translated_but_not_lowered() {
    let instrs = vec![Instr::Const(Const::I64(0)), Instr::Drop, Instr::End];
    assert_eq!(body_of(instrs.clone()), Ok(seq(Base::Const(Const::I64(0)), Base::Nop)));
    let module = thread_id_module(vec![void_function(0, vec![Instr::End]), void_function(0, instrs)]);
    assert_eq!(compile_module(&module, Some(0)), Err(CompileError::UnsupportedInstruction));
}

#[test]
fn every_function_is_translated_before_any_is_lowered() {
    // the first function cannot be lowered, the second cannot be translated
    let first = void_function(0, vec![Instr::Const(Const::F64(0)), Instr::Drop, Instr::End]);
    let second = void_function(0, vec![Instr::Br(3), Instr::End]);
    let module = thread_id_module(vec![first, second]);
    assert_eq!(compile_module(&module, None), Err(CompileError::MultiLevelBranch));
}

#[test]
fn compile_module_is_deterministic() {
    let kernel = || {
        thread_id_module(vec![void_function(
            1,
            vec![
                Instr::GetGlobal(0),
                c(4),
                MUL,
                Instr::TeeLocal(0),
                Instr::GetLocal(0),
                Instr::Load(ValueType::I32, 0),
                c(1),
                ADD,
                Instr::Store(ValueType::I32, 0),
                Instr::End,
            ],
        )])
    };
    let first = compile_module(&kernel(), Some(0));
    assert!(first.is_ok());
    assert_eq!(first, compile_module(&kernel(), Some(0)));
    assert_eq!(compile_module(&kernel(), Some(1)), Err(CompileError::UnknownFunction));
}

#[test]
fn parse_stops_at_the_end_of_what_encloses_it() {
    let module = thread_id_module(vec![]);
    let locals = vec![ValueType::I32];
    let instrs = vec![c(1), Instr::SetLocal(0), Instr::Else, c(2), Instr::End, Instr::Nop];
    let first = parse_from(&locals, &module, false, &instrs, 0, Label::Then).unwrap();
    assert_eq!(first.tree, Base::SetLocal(local(0), Box::new(i32c(1))));
    assert_eq!(first.next, 3);
    assert_eq!(first.ender, Ender::Else);
    assert!(!first.yields);
    let second = parse_from(&locals, &module, false, &instrs, 3, Label::Otherwise).unwrap();
    assert_eq!(second.tree, i32c(2));
    assert_eq!(second.next, 5);
    assert_eq!(second.ender, Ender::End);
    assert!(second.yields);
    assert!(parse_from(&locals, &module, false, &instrs, 5, Label::Function).is_err());
    assert!(parse_from(&locals, &module, false, &instrs, 6, Label::Function).is_err());
}

#[test]
fn translated_functions_keep_their_signature() {
    let function = Function {
        sig: Signature { params: vec![ValueType::I32, ValueType::F32], ty: None },
        locals: vec![ValueType::I64],
        body: vec![Instr::End],
    };
    assert_eq!(
        to_fun(&thread_id_module(vec![function]), 0),
        Ok(Fun { params: vec![ValueType::I32, ValueType::F32], ty: None, body: Base::Nop })
    );
}
