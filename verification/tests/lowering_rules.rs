use rspirv::dr::{Block, Function, Instruction, Module, Operand};
use spirv_headers::Op;
use wasm_vk::ir::{Base, Const, Fun, Global, ICompOp, INumOp, Local, ValueType, Width};
use wasm_vk::spirv::Ctx;

fn thread_id() -> Base {
    Base::GetGlobal(Global { idx: 0, ty: ValueType::I32, mutable: false })
}

fn i32c(v: i32) -> Base {
    Base::Const(Const::I32(v))
}

fn local(idx: u32) -> Local {
    Local { idx, ty: ValueType::I32 }
}

fn seq(a: Base, b: Base) -> Base {
    Base::Sequence(Box::new(a), Box::new(b))
}

fn void_fun(body: Base) -> Fun {
    Fun { params: vec![], ty: None, body }
}

fn i32_fun(body: Base) -> Fun {
    Fun { params: vec![], ty: Some(ValueType::I32), body }
}

fn module_of(funs: Vec<Fun>) -> Module {
    let mut ctx = Ctx::new();
    for f in funs {
        assert_eq!(ctx.fun(f), Ok(()));
    }
    ctx.finish(None)
}

/// The instructions of a function's blocks, in order, without the labels.
fn code(f: &Function) -> Vec<&Instruction> {
    f.blocks.iter().flat_map(|b| b.instructions.iter()).collect()
}

fn ops(f: &Function) -> Vec<Op> {
    code(f).iter().map(|i| i.class.opcode).collect()
}

fn label(b: &Block) -> u32 {
    b.label.as_ref().unwrap().result_id.unwrap()
}

fn global<'a>(m: &'a Module, id: u32) -> &'a Instruction {
    m.types_global_values.iter().find(|i| i.result_id == Some(id)).unwrap()
}

fn id(o: &Operand) -> u32 {
    match o {
        Operand::IdRef(i) => *i,
        _ => panic!("no id: {:?}", o),
    }
}

fn is_uint(m: &Module, ty: u32) -> bool {
    let t = global(m, ty);
    t.class.opcode == Op::TypeInt
        && t.operands == vec![Operand::LiteralInt32(32), Operand::LiteralInt32(0)]
}

fn is_constant(m: &Module, c: u32, value: u32) -> bool {
    let inst = global(m, c);
    inst.class.opcode == Op::Constant && inst.operands == vec![Operand::LiteralInt32(value)]
}

fn is_terminator(op: Op) -> bool {
    op == Op::Branch || op == Op::BranchConditional || op == Op::Return || op == Op::ReturnValue
}

/// The ops of the body of a function, after the load of the thread id that
/// every function starts with.
fn body_ops(f: &Function) -> Vec<Op> {
    let all = ops(f);
    assert_eq!(&all[0..2], &[Op::AccessChain, Op::Load]);
    all[2..].to_vec()
}

#[test]
fn every_function_loads_the_thread_id_first() {
    let m = module_of(vec![void_fun(Base::Nop)]);
    let f = &m.functions[0];
    let c = code(f);
    assert_eq!(ops(f), vec![Op::AccessChain, Op::Load, Op::Return]);
    // the x component of the input variable, through a pointer to uint in class Input
    assert_eq!(c[0].operands[0], Operand::IdRef(9));
    assert!(is_constant(&m, id(&c[0].operands[1]), 0));
    let pointer = global(&m, c[0].result_type.unwrap());
    assert_eq!(pointer.class.opcode, Op::TypePointer);
    assert_eq!(pointer.operands[0], Operand::StorageClass(spirv_headers::StorageClass::Input));
    assert!(is_uint(&m, id(&pointer.operands[1])));
    assert_eq!(c[1].operands, vec![Operand::IdRef(c[0].result_id.unwrap())]);
    assert!(is_uint(&m, c[1].result_type.unwrap()));
}

#[test]
fn nop_emits_nothing() {
    let m = module_of(vec![void_fun(Base::Nop)]);
    assert_eq!(body_ops(&m.functions[0]), vec![Op::Return]);
}

#[test]
fn void_function_has_a_void_result_type() {
    let m = module_of(vec![void_fun(Base::Nop)]);
    let def = m.functions[0].def.as_ref().unwrap();
    assert_eq!(def.class.opcode, Op::Function);
    let ret = global(&m, def.result_type.unwrap());
    assert_eq!(ret.class.opcode, Op::TypeVoid);
    let ty = global(&m, id(&def.operands[1]));
    assert_eq!(ty.class.opcode, Op::TypeFunction);
    assert_eq!(ty.operands, vec![Operand::IdRef(ret.result_id.unwrap())]);
    assert_eq!(
        def.operands[0],
        Operand::FunctionControl(spirv_headers::FunctionControl::NONE)
    );
    assert_eq!(m.functions[0].end.as_ref().unwrap().class.opcode, Op::FunctionEnd);
}

#[test]
fn function_type_lists_the_parameter_types() {
    let f = Fun {
        params: vec![ValueType::I32, ValueType::F32, ValueType::I32],
        ty: Some(ValueType::F32),
        body: Base::Const(Const::F32(0x3f80_0000)),
    };
    let m = module_of(vec![f]);
    let def = m.functions[0].def.as_ref().unwrap();
    let ty = global(&m, id(&def.operands[1]));
    assert_eq!(ty.class.opcode, Op::TypeFunction);
    assert_eq!(ty.operands.len(), 4);
    let float = global(&m, id(&ty.operands[0]));
    assert_eq!(float.class.opcode, Op::TypeFloat);
    assert_eq!(float.operands, vec![Operand::LiteralInt32(32)]);
    assert_eq!(def.result_type, float.result_id);
    assert!(is_uint(&m, id(&ty.operands[1])));
    assert_eq!(ty.operands[2], ty.operands[0]);
    assert_eq!(ty.operands[3], ty.operands[1]);
    assert_eq!(m.functions[0].parameters.len(), 3);
    assert_eq!(m.functions[0].parameters[0].class.opcode, Op::FunctionParameter);
    assert_eq!(Some(id(&ty.operands[1])), m.functions[0].parameters[0].result_type);
    assert_eq!(Some(id(&ty.operands[2])), m.functions[0].parameters[1].result_type);
}

#[test]
fn value_function_returns_the_value_of_its_body() {
    let m = module_of(vec![i32_fun(i32c(7))]);
    let f = &m.functions[0];
    let c = code(f);
    assert_eq!(body_ops(f), vec![Op::ReturnValue]);
    let returned = id(&c[2].operands[0]);
    assert!(is_constant(&m, returned, 7));
    assert!(is_uint(&m, global(&m, returned).result_type.unwrap()));
}

#[test]
fn constants_carry_their_bit_patterns() {
    let m = module_of(vec![i32_fun(i32c(-1))]);
    let returned = id(&code(&m.functions[0])[2].operands[0]);
    assert!(is_constant(&m, returned, 0xffff_ffff));

    let m = module_of(vec![i32_fun(i32c(i32::MIN))]);
    let returned = id(&code(&m.functions[0])[2].operands[0]);
    assert!(is_constant(&m, returned, 0x8000_0000));

    let f = Fun { params: vec![], ty: Some(ValueType::F32), body: Base::Const(Const::F32(0x4049_0fdb)) };
    let m = module_of(vec![f]);
    let returned = id(&code(&m.functions[0])[2].operands[0]);
    assert!(is_constant(&m, returned, 0x4049_0fdb));
    let ty = global(&m, global(&m, returned).result_type.unwrap());
    assert_eq!(ty.class.opcode, Op::TypeFloat);
    assert_eq!(ty.operands, vec![Operand::LiteralInt32(32)]);
}

#[test]
fn float_constants_are_encoded_as_their_bits() {
    let f = Fun { params: vec![], ty: Some(ValueType::F32), body: Base::Const(Const::F32(1.5f32.to_bits())) };
    let mut ctx = Ctx::new();
    assert_eq!(ctx.fun(f), Ok(()));
    let bytes = wasm_vk::spirv::module_bytes(ctx.finish(None));
    let back = rspirv::dr::load_bytes(&bytes).unwrap();
    let constant = back
        .types_global_values
        .iter()
        .find(|i| i.class.opcode == Op::Constant && i.operands == vec![Operand::LiteralFloat32(1.5)]);
    assert!(constant.is_some());
}

#[test]
fn arithmetic_selects_the_opcode() {
    let cases = vec![
        (INumOp::Mul, Op::IMul),
        (INumOp::Add, Op::IAdd),
        (INumOp::Sub, Op::ISub),
        (INumOp::Shl, Op::ShiftLeftLogical),
        (INumOp::ShrS, Op::ShiftRightArithmetic),
        (INumOp::ShrU, Op::ShiftRightLogical),
        (INumOp::DivU, Op::UDiv),
        (INumOp::DivS, Op::SDiv),
    ];
    for (op, expected) in cases {
        let body = Base::INumOp(Width::W32, op, Box::new(i32c(6)), Box::new(i32c(3)));
        let m = module_of(vec![i32_fun(body)]);
        let f = &m.functions[0];
        let c = code(f);
        assert_eq!(body_ops(f), vec![expected, Op::ReturnValue]);
        // left operand first
        assert!(is_constant(&m, id(&c[2].operands[0]), 6));
        assert!(is_constant(&m, id(&c[2].operands[1]), 3));
        assert!(is_uint(&m, c[2].result_type.unwrap()));
        assert_eq!(c[3].operands, vec![Operand::IdRef(c[2].result_id.unwrap())]);
    }
}

#[test]
fn arithmetic_of_64_bits_has_the_type_of_64_bits() {
    let body = Base::INumOp(Width::W64, INumOp::Add, Box::new(i32c(6)), Box::new(i32c(3)));
    let m = module_of(vec![void_fun(body)]);
    let c = code(&m.functions[0]);
    let ty = global(&m, c[2].result_type.unwrap());
    assert_eq!(ty.class.opcode, Op::TypeInt);
    assert_eq!(ty.operands, vec![Operand::LiteralInt32(64), Operand::LiteralInt32(0)]);
}

#[test]
fn comparisons_select_the_opcode_and_yield_an_integer() {
    let cases = vec![
        (ICompOp::Eq, Op::IEqual),
        (ICompOp::NEq, Op::INotEqual),
        (ICompOp::LeU, Op::ULessThanEqual),
        (ICompOp::GeU, Op::UGreaterThanEqual),
        (ICompOp::LtU, Op::ULessThan),
        (ICompOp::GtU, Op::UGreaterThan),
        (ICompOp::LeS, Op::SLessThanEqual),
        (ICompOp::GeS, Op::SGreaterThanEqual),
        (ICompOp::LtS, Op::SLessThan),
        (ICompOp::GtS, Op::SGreaterThan),
    ];
    for (op, expected) in cases {
        let body = Base::ICompOp(Width::W32, op, Box::new(i32c(6)), Box::new(i32c(3)));
        let m = module_of(vec![i32_fun(body)]);
        let f = &m.functions[0];
        let c = code(f);
        assert_eq!(body_ops(f), vec![expected, Op::Select, Op::ReturnValue]);
        let comparison = c[2];
        let select = c[3];
        assert_eq!(global(&m, comparison.result_type.unwrap()).class.opcode, Op::TypeBool);
        assert!(is_constant(&m, id(&comparison.operands[0]), 6));
        assert!(is_constant(&m, id(&comparison.operands[1]), 3));
        // the boolean selects between one and zero
        assert!(is_uint(&m, select.result_type.unwrap()));
        assert_eq!(select.operands[0], Operand::IdRef(comparison.result_id.unwrap()));
        assert!(is_constant(&m, id(&select.operands[1]), 1));
        assert!(is_constant(&m, id(&select.operands[2]), 0));
        assert_eq!(c[4].operands, vec![Operand::IdRef(select.result_id.unwrap())]);
    }
}

#[test]
fn sequence_yields_the_second_value() {
    let body = seq(
        Base::INumOp(Width::W32, INumOp::Add, Box::new(i32c(1)), Box::new(i32c(2))),
        Base::INumOp(Width::W32, INumOp::Mul, Box::new(i32c(3)), Box::new(i32c(4))),
    );
    let m = module_of(vec![i32_fun(body)]);
    let f = &m.functions[0];
    let c = code(f);
    assert_eq!(body_ops(f), vec![Op::IAdd, Op::IMul, Op::ReturnValue]);
    assert_eq!(c[4].operands, vec![Operand::IdRef(c[3].result_id.unwrap())]);
}

#[test]
fn get_global_is_the_thread_id() {
    let m = module_of(vec![i32_fun(thread_id())]);
    let f = &m.functions[0];
    let c = code(f);
    assert_eq!(body_ops(f), vec![Op::ReturnValue]);
    assert_eq!(c[2].operands, vec![Operand::IdRef(c[1].result_id.unwrap())]);
}

#[test]
fn locals_get_a_variable_each() {
    let body = seq(
        Base::SetLocal(local(3), Box::new(i32c(5))),
        seq(
            Base::SetLocal(local(1), Box::new(Base::GetLocal(local(3)))),
            Base::GetLocal(local(3)),
        ),
    );
    let m = module_of(vec![i32_fun(body)]);
    let f = &m.functions[0];
    let c = code(f);
    assert_eq!(
        ops(f),
        vec![
            Op::Variable,
            Op::Variable,
            Op::AccessChain,
            Op::Load,
            Op::Store,
            Op::Load,
            Op::Store,
            Op::Load,
            Op::ReturnValue,
        ]
    );
    let var_3 = c[0].result_id.unwrap();
    let var_1 = c[1].result_id.unwrap();
    assert_ne!(var_3, var_1);
    // both are variables in class Function of a pointer to uint in that class
    assert_eq!(c[0].operands, vec![Operand::StorageClass(spirv_headers::StorageClass::Function)]);
    assert_eq!(c[0].result_type, c[1].result_type);
    let pointer = global(&m, c[0].result_type.unwrap());
    assert_eq!(pointer.class.opcode, Op::TypePointer);
    assert_eq!(pointer.operands[0], Operand::StorageClass(spirv_headers::StorageClass::Function));
    assert!(is_uint(&m, id(&pointer.operands[1])));
    // local 3 = 5
    assert_eq!(c[4].operands[0], Operand::IdRef(var_3));
    assert!(is_constant(&m, id(&c[4].operands[1]), 5));
    // local 1 = local 3
    assert_eq!(c[5].operands, vec![Operand::IdRef(var_3)]);
    assert_eq!(c[6].operands, vec![Operand::IdRef(var_1), Operand::IdRef(c[5].result_id.unwrap())]);
    // the value of the body
    assert_eq!(c[7].operands, vec![Operand::IdRef(var_3)]);
    assert_eq!(c[8].operands, vec![Operand::IdRef(c[7].result_id.unwrap())]);
}

#[test]
fn parameters_are_stored_into_their_locals() {
    let f = Fun {
        params: vec![ValueType::I32, ValueType::I32],
        ty: Some(ValueType::I32),
        body: Base::INumOp(
            Width::W32,
            INumOp::Add,
            Box::new(Base::GetLocal(local(1))),
            Box::new(Base::GetLocal(local(0))),
        ),
    };
    let m = module_of(vec![f]);
    let f = &m.functions[0];
    let c = code(f);
    assert_eq!(
        ops(f),
        vec![
            Op::Variable,
            Op::Variable,
            Op::Store,
            Op::Store,
            Op::AccessChain,
            Op::Load,
            Op::Load,
            Op::Load,
            Op::IAdd,
            Op::ReturnValue,
        ]
    );
    // the variables come in the order in which the body refers to the locals
    let var_1 = c[0].result_id.unwrap();
    let var_0 = c[1].result_id.unwrap();
    let param_0 = f.parameters[0].result_id.unwrap();
    let param_1 = f.parameters[1].result_id.unwrap();
    assert_eq!(c[2].operands, vec![Operand::IdRef(var_0), Operand::IdRef(param_0)]);
    assert_eq!(c[3].operands, vec![Operand::IdRef(var_1), Operand::IdRef(param_1)]);
    assert_eq!(c[6].operands, vec![Operand::IdRef(var_1)]);
    assert_eq!(c[7].operands, vec![Operand::IdRef(var_0)]);
}

#[test]
fn unused_parameters_are_declared_but_not_stored() {
    let f = Fun {
        params: vec![ValueType::I32, ValueType::I32, ValueType::I32],
        ty: Some(ValueType::I32),
        body: Base::GetLocal(local(1)),
    };
    let m = module_of(vec![f]);
    let f = &m.functions[0];
    let c = code(f);
    assert_eq!(f.parameters.len(), 3);
    assert_eq!(
        ops(f),
        vec![Op::Variable, Op::Store, Op::AccessChain, Op::Load, Op::Load, Op::ReturnValue]
    );
    assert_eq!(
        c[1].operands,
        vec![
            Operand::IdRef(c[0].result_id.unwrap()),
            Operand::IdRef(f.parameters[1].result_id.unwrap()),
        ]
    );
}

#[test]
fn load_divides_the_address_by_four() {
    let body = Base::Load(ValueType::I32, Box::new(i32c(12)));
    let m = module_of(vec![i32_fun(body)]);
    let f = &m.functions[0];
    let c = code(f);
    assert_eq!(body_ops(f), vec![Op::UDiv, Op::AccessChain, Op::Load, Op::ReturnValue]);
    let (div, chain, load) = (c[2], c[3], c[4]);
    assert!(is_uint(&m, div.result_type.unwrap()));
    assert!(is_constant(&m, id(&div.operands[0]), 12));
    assert!(is_constant(&m, id(&div.operands[1]), 4));
    assert!(is_uint(&m, global(&m, id(&div.operands[1])).result_type.unwrap()));
    // into the storage buffer: member 0, then the word
    assert_eq!(chain.operands.len(), 3);
    assert_eq!(chain.operands[0], Operand::IdRef(6));
    assert!(is_constant(&m, id(&chain.operands[1]), 0));
    assert!(is_uint(&m, global(&m, id(&chain.operands[1])).result_type.unwrap()));
    assert_eq!(chain.operands[2], Operand::IdRef(div.result_id.unwrap()));
    let pointer = global(&m, chain.result_type.unwrap());
    assert_eq!(pointer.class.opcode, Op::TypePointer);
    assert_eq!(pointer.operands[0], Operand::StorageClass(spirv_headers::StorageClass::Uniform));
    assert!(is_uint(&m, id(&pointer.operands[1])));
    assert_eq!(load.operands, vec![Operand::IdRef(chain.result_id.unwrap())]);
    assert!(is_uint(&m, load.result_type.unwrap()));
}

#[test]
fn store_evaluates_the_address_before_the_value() {
    let body = Base::Store(
        ValueType::I32,
        Box::new(Base::INumOp(Width::W32, INumOp::Mul, Box::new(thread_id()), Box::new(i32c(4)))),
        Box::new(Base::INumOp(Width::W32, INumOp::Add, Box::new(i32c(1)), Box::new(i32c(2)))),
    );
    let m = module_of(vec![void_fun(body)]);
    let f = &m.functions[0];
    let c = code(f);
    assert_eq!(
        body_ops(f),
        vec![Op::IMul, Op::IAdd, Op::UDiv, Op::AccessChain, Op::Store, Op::Return]
    );
    let (address, value, div, chain, store) = (c[2], c[3], c[4], c[5], c[6]);
    assert_eq!(div.operands[0], Operand::IdRef(address.result_id.unwrap()));
    assert!(is_constant(&m, id(&div.operands[1]), 4));
    assert_eq!(chain.operands[0], Operand::IdRef(6));
    assert!(is_constant(&m, id(&chain.operands[1]), 0));
    assert_eq!(chain.operands[2], Operand::IdRef(div.result_id.unwrap()));
    assert_eq!(
        store.operands,
        vec![
            Operand::IdRef(chain.result_id.unwrap()),
            Operand::IdRef(value.result_id.unwrap()),
        ]
    );
}

#[test]
fn call_passes_the_arguments_in_order() {
    let callee = Fun {
        params: vec![ValueType::I32, ValueType::I32],
        ty: Some(ValueType::I32),
        body: Base::GetLocal(local(0)),
    };
    let caller = i32_fun(Base::Call(0, vec![i32c(10), i32c(20)]));
    let m = module_of(vec![callee, caller]);
    let f = &m.functions[1];
    let c = code(f);
    assert_eq!(body_ops(f), vec![Op::FunctionCall, Op::ReturnValue]);
    let call = c[2];
    let callee = m.functions[0].def.as_ref().unwrap();
    assert_eq!(call.result_type, callee.result_type);
    assert_eq!(call.operands.len(), 3);
    assert_eq!(call.operands[0], Operand::IdRef(callee.result_id.unwrap()));
    assert!(is_constant(&m, id(&call.operands[1]), 10));
    assert!(is_constant(&m, id(&call.operands[2]), 20));
    assert_eq!(c[3].operands, vec![Operand::IdRef(call.result_id.unwrap())]);
}

#[test]
fn if_without_else() {
    let body = Base::If {
        cond: Box::new(thread_id()),
        t: Box::new(Base::SetLocal(local(0), Box::new(i32c(1)))),
        f: Box::new(Base::Nop),
    };
    let m = module_of(vec![void_fun(body)]);
    let f = &m.functions[0];
    assert_eq!(
        ops(f),
        vec![
            Op::Variable,
            Op::AccessChain,
            Op::Load,
            Op::INotEqual,
            Op::SelectionMerge,
            Op::BranchConditional,
            Op::Store,
            Op::Branch,
            Op::Branch,
            Op::Return,
        ]
    );
    assert_eq!(f.blocks.len(), 4);
    let (entry, then, other, merge) = (&f.blocks[0], &f.blocks[1], &f.blocks[2], &f.blocks[3]);
    let n = entry.instructions.len();
    let (test, merge_decl, branch) =
        (&entry.instructions[n - 3], &entry.instructions[n - 2], &entry.instructions[n - 1]);
    // the condition is compared with zero
    assert_eq!(test.class.opcode, Op::INotEqual);
    assert_eq!(global(&m, test.result_type.unwrap()).class.opcode, Op::TypeBool);
    assert_eq!(test.operands[0], Operand::IdRef(entry.instructions[2].result_id.unwrap()));
    assert!(is_constant(&m, id(&test.operands[1]), 0));
    // one merge declaration, right before the conditional branch
    assert_eq!(
        merge_decl.operands,
        vec![
            Operand::IdRef(label(merge)),
            Operand::SelectionControl(spirv_headers::SelectionControl::NONE),
        ]
    );
    assert_eq!(
        branch.operands,
        vec![
            Operand::IdRef(test.result_id.unwrap()),
            Operand::IdRef(label(then)),
            Operand::IdRef(label(other)),
        ]
    );
    // both branches go to the merge block
    assert_eq!(then.instructions.last().unwrap().operands, vec![Operand::IdRef(label(merge))]);
    assert_eq!(other.instructions.len(), 1);
    assert_eq!(other.instructions[0].class.opcode, Op::Branch);
    assert_eq!(other.instructions[0].operands, vec![Operand::IdRef(label(merge))]);
    // no phi
    assert!(!ops(f).contains(&Op::Phi));
    let count = |op: Op| ops(f).iter().filter(|o| **o == op).count();
    assert_eq!(count(Op::SelectionMerge), 1);
    assert_eq!(count(Op::BranchConditional), 1);
}

#[test]
fn if_yields_no_value() {
    let body = Base::If { cond: Box::new(i32c(1)), t: Box::new(i32c(2)), f: Box::new(i32c(3)) };
    let m = module_of(vec![i32_fun(body)]);
    let c = code(&m.functions[0]);
    assert_eq!(c.last().unwrap().class.opcode, Op::ReturnValue);
    assert_eq!(c.last().unwrap().operands, vec![Operand::IdRef(0)]);
}

#[test]
fn loop_with_break() {
    // loop { if thread_id { continue } else { break } }
    let body = Base::Loop(Box::new(Base::If {
        cond: Box::new(thread_id()),
        t: Box::new(Base::Continue),
        f: Box::new(Base::Break),
    }));
    let m = module_of(vec![void_fun(body)]);
    let f = &m.functions[0];
    let merges: Vec<_> = code(f).into_iter().filter(|i| i.class.opcode == Op::LoopMerge).collect();
    assert_eq!(merges.len(), 1);
    let end = id(&merges[0].operands[0]);
    let cont = id(&merges[0].operands[1]);
    assert_eq!(merges[0].operands[2], Operand::LoopControl(spirv_headers::LoopControl::NONE));

    // the header holds the merge declaration and branches to the body
    let head_at = f.blocks.iter().position(|b| b.instructions.iter().any(|i| i.class.opcode == Op::LoopMerge)).unwrap();
    let head = label(&f.blocks[head_at]);
    assert_eq!(f.blocks[head_at].instructions.len(), 2);
    let first = id(&f.blocks[head_at].instructions[1].operands[0]);
    assert_eq!(label(&f.blocks[head_at + 1]), first);
    // the block before the header branches to it
    assert_eq!(
        f.blocks[head_at - 1].instructions.last().unwrap().operands,
        vec![Operand::IdRef(head)]
    );

    // four distinct labels
    let mut labels = vec![head, cont, end, first];
    labels.sort();
    labels.dedup();
    assert_eq!(labels.len(), 4);

    // the continue block comes after the body, and branches back to the header
    let cont_at = f.blocks.iter().position(|b| label(b) == cont).unwrap();
    let end_at = f.blocks.iter().position(|b| label(b) == end).unwrap();
    assert!(cont_at > head_at + 1);
    assert_eq!(end_at, cont_at + 1);
    assert_eq!(end_at, f.blocks.len() - 1);
    assert_eq!(f.blocks[cont_at].instructions.len(), 1);
    assert_eq!(f.blocks[cont_at].instructions[0].class.opcode, Op::Branch);
    assert_eq!(f.blocks[cont_at].instructions[0].operands, vec![Operand::IdRef(head)]);
    // a body that runs to its end leaves the loop
    assert_eq!(
        f.blocks[cont_at - 1].instructions.last().unwrap().operands,
        vec![Operand::IdRef(end)]
    );

    // `continue` goes to the continue block, `break` to the merge block
    let branches: Vec<u32> = f.blocks[head_at + 2..cont_at]
        .iter()
        .map(|b| b.instructions.last().unwrap())
        .filter(|i| i.class.opcode == Op::Branch)
        .map(|i| id(&i.operands[0]))
        .collect();
    assert!(branches.contains(&cont));
    assert!(branches.contains(&end));
}

#[test]
fn continue_and_break_open_an_unreachable_block() {
    let body = Base::Loop(Box::new(seq(Base::Continue, seq(Base::Break, i32c(1)))));
    let m = module_of(vec![void_fun(body)]);
    let f = &m.functions[0];
    let merge = code(f).into_iter().find(|i| i.class.opcode == Op::LoopMerge).unwrap();
    let end = id(&merge.operands[0]);
    let cont = id(&merge.operands[1]);
    // entry, header, body, after continue, after break, continue block, merge block
    assert_eq!(f.blocks.len(), 7);
    assert_eq!(f.blocks[2].instructions.last().unwrap().operands, vec![Operand::IdRef(cont)]);
    assert_eq!(f.blocks[3].instructions.last().unwrap().operands, vec![Operand::IdRef(end)]);
    // nothing branches to the two blocks that were opened after the jumps
    let dead = vec![label(&f.blocks[3]), label(&f.blocks[4])];
    for i in code(f) {
        for o in &i.operands {
            if let Operand::IdRef(target) = o {
                assert!(!dead.contains(target));
            }
        }
    }
}

#[test]
fn return_opens_an_unreachable_block() {
    let body = seq(Base::Return, Base::SetLocal(local(0), Box::new(i32c(1))));
    let m = module_of(vec![void_fun(body)]);
    let f = &m.functions[0];
    assert_eq!(f.blocks.len(), 2);
    assert_eq!(f.blocks[0].instructions.last().unwrap().class.opcode, Op::Return);
    let ops: Vec<Op> = f.blocks[1].instructions.iter().map(|i| i.class.opcode).collect();
    assert_eq!(ops, vec![Op::Store, Op::Return]);
}

#[test]
fn every_block_ends_with_one_terminator() {
    let body = seq(
        Base::Loop(Box::new(seq(
            Base::If {
                cond: Box::new(thread_id()),
                t: Box::new(seq(Base::Continue, Base::Return)),
                f: Box::new(Base::Loop(Box::new(Base::Break))),
            },
            Base::Break,
        ))),
        seq(Base::Return, Base::If { cond: Box::new(i32c(0)), t: Box::new(Base::Nop), f: Box::new(Base::Return) }),
    );
    let m = module_of(vec![void_fun(body), i32_fun(i32c(1))]);
    let mut blocks = 0;
    for f in &m.functions {
        for b in &f.blocks {
            blocks += 1;
            assert_eq!(b.label.as_ref().unwrap().class.opcode, Op::Label);
            let n = b.instructions.len();
            assert!(n > 0);
            assert!(is_terminator(b.instructions[n - 1].class.opcode));
            for i in &b.instructions[..n - 1] {
                assert!(!is_terminator(i.class.opcode));
            }
        }
    }
    assert!(blocks > 10);
}

#[test]
fn every_branch_stays_inside_its_function() {
    let nest = Base::Loop(Box::new(seq(
        Base::If {
            cond: Box::new(thread_id()),
            t: Box::new(seq(Base::Continue, Base::Return)),
            f: Box::new(Base::Loop(Box::new(Base::Break))),
        },
        Base::Break,
    )));
    let other = Base::If {
        cond: Box::new(i32c(1)),
        t: Box::new(Base::Loop(Box::new(Base::Continue))),
        f: Box::new(Base::Nop),
    };
    let m = module_of(vec![void_fun(nest), void_fun(other)]);
    let mut named = 0;
    for f in &m.functions {
        let labels: Vec<u32> = f.blocks.iter().map(label).collect();
        for i in code(f) {
            let targets: Vec<u32> = match i.class.opcode {
                Op::Branch | Op::SelectionMerge => vec![id(&i.operands[0])],
                Op::BranchConditional => vec![id(&i.operands[1]), id(&i.operands[2])],
                Op::LoopMerge => vec![id(&i.operands[0]), id(&i.operands[1])],
                _ => vec![],
            };
            for t in targets {
                named += 1;
                assert!(labels.contains(&t), "{} is no label of {:?}", t, labels);
            }
        }
    }
    assert!(named > 15);
    // no label of one function is a label of the other
    let first: Vec<u32> = m.functions[0].blocks.iter().map(label).collect();
    assert!(m.functions[1].blocks.iter().all(|b| !first.contains(&label(b))));
}

#[test]
fn type_caching() {
    let mut body = i32c(0);
    for i in 1..30 {
        body = Base::INumOp(Width::W32, INumOp::Add, Box::new(body), Box::new(i32c(i)));
    }
    let m = module_of(vec![i32_fun(body), i32_fun(i32c(1))]);
    let ints: Vec<_> = m
        .types_global_values
        .iter()
        .filter(|i| i.class.opcode == Op::TypeInt)
        .collect();
    assert_eq!(ints.len(), 1);
    assert_eq!(ints[0].operands, vec![Operand::LiteralInt32(32), Operand::LiteralInt32(0)]);
}

#[test]
fn every_scalar_type_is_declared_once() {
    let use_all = || {
        seq(
            Base::GetLocal(Local { idx: 0, ty: ValueType::I32 }),
            seq(
                Base::GetLocal(Local { idx: 1, ty: ValueType::I64 }),
                seq(
                    Base::GetLocal(Local { idx: 2, ty: ValueType::F32 }),
                    seq(
                        Base::GetLocal(Local { idx: 3, ty: ValueType::F64 }),
                        Base::ICompOp(Width::W64, ICompOp::Eq, Box::new(i32c(0)), Box::new(i32c(0))),
                    ),
                ),
            ),
        )
    };
    let m = module_of(vec![void_fun(use_all()), void_fun(use_all())]);
    let g = &m.types_global_values;
    let count = |op: Op, operands: Vec<Operand>| {
        g.iter().filter(|i| i.class.opcode == op && i.operands == operands).count()
    };
    assert_eq!(count(Op::TypeInt, vec![Operand::LiteralInt32(32), Operand::LiteralInt32(0)]), 1);
    assert_eq!(count(Op::TypeInt, vec![Operand::LiteralInt32(64), Operand::LiteralInt32(0)]), 1);
    assert_eq!(count(Op::TypeFloat, vec![Operand::LiteralInt32(32)]), 1);
    assert_eq!(count(Op::TypeFloat, vec![Operand::LiteralInt32(64)]), 1);
    assert_eq!(count(Op::TypeBool, vec![]), 1);
    assert_eq!(g.iter().filter(|i| i.class.opcode == Op::TypeInt).count(), 2);
    assert_eq!(g.iter().filter(|i| i.class.opcode == Op::TypeFloat).count(), 2);
}

#[test]
fn pointer_types_are_declared_once() {
    let access = || {
        seq(
            Base::Store(ValueType::I32, Box::new(i32c(0)), Box::new(Base::GetLocal(local(0)))),
            seq(
                Base::Load(ValueType::I32, Box::new(i32c(4))),
                Base::Load(ValueType::F32, Box::new(i32c(8))),
            ),
        )
    };
    let m = module_of(vec![void_fun(access()), void_fun(access()), void_fun(Base::Nop)]);
    let g = &m.types_global_values;
    let pointers: Vec<_> = g.iter().filter(|i| i.class.opcode == Op::TypePointer).collect();
    for (i, p) in pointers.iter().enumerate() {
        for q in &pointers[i + 1..] {
            assert_ne!(p.operands, q.operands);
        }
    }
    // to the buffer and to the thread id; to uint in Function, Input and Uniform; to float in Uniform
    assert_eq!(pointers.len(), 6);
}

#[test]
fn two_buffers_kernel_has_the_expected_shape() {
    // buf[i] = buf[i] + buf[i + 65536], with i the thread id
    let address = || Base::INumOp(Width::W32, INumOp::Mul, Box::new(thread_id()), Box::new(i32c(4)));
    let body = Base::Store(
        ValueType::I32,
        Box::new(address()),
        Box::new(Base::INumOp(
            Width::W32,
            INumOp::Add,
            Box::new(Base::Load(ValueType::I32, Box::new(address()))),
            Box::new(Base::Load(
                ValueType::I32,
                Box::new(Base::INumOp(Width::W32, INumOp::Add, Box::new(address()), Box::new(i32c(262144)))),
            )),
        )),
    );
    let m = module_of(vec![void_fun(body)]);
    assert_eq!(
        body_ops(&m.functions[0]),
        vec![
            Op::IMul,
            Op::IMul,
            Op::UDiv,
            Op::AccessChain,
            Op::Load,
            Op::IMul,
            Op::IAdd,
            Op::UDiv,
            Op::AccessChain,
            Op::Load,
            Op::IAdd,
            Op::UDiv,
            Op::AccessChain,
            Op::Store,
            Op::Return,
        ]
    );
}
