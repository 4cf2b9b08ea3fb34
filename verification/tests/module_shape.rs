use rspirv::binary::{Assemble, Disassemble};
use rspirv::dr::{Instruction, Module, Operand};
use spirv_headers::Op;
use wasm_vk::error::CompileError;
use wasm_vk::ir::{Base, Const, Fun, Global, INumOp, ValueType, Width};
use wasm_vk::spirv::{compile, module_bytes, Ctx};

fn void_fun(body: Base) -> Fun {
    Fun { params: vec![], ty: None, body }
}

fn thread_id() -> Base {
    Base::GetGlobal(Global { idx: 0, ty: ValueType::I32, mutable: false })
}

fn word_address() -> Base {
    Base::INumOp(
        Width::W32,
        INumOp::Mul,
        Box::new(thread_id()),
        Box::new(Base::Const(Const::I32(4))),
    )
}

/// buf[i] = buf[i] + buf[i], with i the thread id.
fn doubling_kernel() -> Fun {
    void_fun(Base::Store(
        ValueType::I32,
        Box::new(word_address()),
        Box::new(Base::INumOp(
            Width::W32,
            INumOp::Add,
            Box::new(Base::Load(ValueType::I32, Box::new(word_address()))),
            Box::new(Base::Load(ValueType::I32, Box::new(word_address()))),
        )),
    ))
}

fn module_of(funs: Vec<Fun>, entry: Option<u32>) -> Module {
    let mut ctx = Ctx::new();
    for f in funs {
        assert_eq!(ctx.fun(f), Ok(()));
    }
    ctx.finish(entry)
}

fn words_of(bytes: &[u8]) -> Vec<u32> {
    assert_eq!(bytes.len() % 4, 0);
    bytes
        .chunks(4)
        .map(|c| u32::from(c[0]) | u32::from(c[1]) << 8 | u32::from(c[2]) << 16 | u32::from(c[3]) << 24)
        .collect()
}

fn with_op(insts: &[Instruction], op: Op) -> Vec<&Instruction> {
    insts.iter().filter(|i| i.class.opcode == op).collect()
}

fn decorations(m: &Module, decoration: spirv_headers::Decoration) -> Vec<&Instruction> {
    m.annotations
        .iter()
        .filter(|i| i.class.opcode == Op::Decorate && i.operands[1] == Operand::Decoration(decoration))
        .collect()
}

#[test]
fn output_starts_with_magic_number() {
    let bytes = module_bytes(module_of(vec![doubling_kernel()], Some(0)));
    assert_eq!(&bytes[0..4], &[0x03, 0x02, 0x23, 0x07]);
    let bytes = module_bytes(module_of(vec![], None));
    assert_eq!(&bytes[0..4], &[0x03, 0x02, 0x23, 0x07]);
}

#[test]
fn header_carries_version_generator_bound_and_schema() {
    let bytes = module_bytes(module_of(vec![], None));
    let words = words_of(&bytes);
    assert_eq!(words[0], 0x0723_0203);
    assert_eq!(words[1], 0x0001_0000);
    assert_eq!(words[2], 0x000f_0000);
    // ids 1 to 9 are taken by the context that every compilation starts from
    assert_eq!(words[3], 10);
    assert_eq!(words[4], 0);
}

#[test]
fn bound_is_above_every_id() {
    let m = module_of(vec![doubling_kernel()], Some(0));
    let bound = m.header.as_ref().unwrap().bound;
    let mut largest = 0;
    for i in m.types_global_values.iter().chain(m.ext_inst_imports.iter()) {
        largest = largest.max(i.result_id.unwrap_or(0));
    }
    for f in &m.functions {
        largest = largest.max(f.def.as_ref().unwrap().result_id.unwrap());
        for b in &f.blocks {
            largest = largest.max(b.label.as_ref().unwrap().result_id.unwrap());
            for i in &b.instructions {
                largest = largest.max(i.result_id.unwrap_or(0));
            }
        }
    }
    assert_eq!(bound, largest + 1);
}

#[test]
fn no_id_is_declared_twice() {
    let looping = void_fun(Base::Loop(Box::new(Base::If {
        cond: Box::new(thread_id()),
        t: Box::new(Base::Continue),
        f: Box::new(Base::Loop(Box::new(Base::Break))),
    })));
    let m = module_of(vec![doubling_kernel(), looping, doubling_kernel()], Some(1));
    let mut ids: Vec<u32> = Vec::new();
    let globals = m
        .ext_inst_imports
        .iter()
        .chain(m.annotations.iter())
        .chain(m.entry_points.iter())
        .chain(m.execution_modes.iter())
        .chain(m.types_global_values.iter());
    for i in globals {
        ids.extend(i.result_id);
    }
    for f in &m.functions {
        ids.extend(f.def.as_ref().unwrap().result_id);
        for p in &f.parameters {
            ids.extend(p.result_id);
        }
        for b in &f.blocks {
            ids.extend(b.label.as_ref().unwrap().result_id);
            for i in &b.instructions {
                ids.extend(i.result_id);
            }
        }
    }
    let declared = ids.len();
    assert!(declared > 60);
    ids.sort();
    ids.dedup();
    assert_eq!(ids.len(), declared);
    let bound = m.header.as_ref().unwrap().bound;
    assert!(ids.iter().all(|id| 0 < *id && *id < bound));
    // every id that was handed out is declared
    assert_eq!(declared as u32, bound - 1);
}

#[test]
fn bytes_are_the_words_least_significant_byte_first() {
    let words = module_of(vec![doubling_kernel()], Some(0)).assemble();
    let bytes = module_bytes(module_of(vec![doubling_kernel()], Some(0)));
    assert_eq!(bytes.len(), 4 * words.len());
    for (i, w) in words.iter().enumerate() {
        assert_eq!(bytes[4 * i], (w & 0xff) as u8);
        assert_eq!(bytes[4 * i + 1], (w >> 8 & 0xff) as u8);
        assert_eq!(bytes[4 * i + 2], (w >> 16 & 0xff) as u8);
        assert_eq!(bytes[4 * i + 3], (w >> 24) as u8);
    }
}

#[test]
fn emitted_module_parses_back() {
    let text = module_of(vec![doubling_kernel()], Some(0)).disassemble();
    let bytes = module_bytes(module_of(vec![doubling_kernel()], Some(0)));
    let back = rspirv::dr::load_bytes(&bytes);
    assert!(back.is_ok());
    assert_eq!(back.unwrap().disassemble(), text);
}

#[test]
fn prelude_declares_capability_import_and_memory_model() {
    let m = module_of(vec![], None);
    assert_eq!(m.capabilities.len(), 1);
    assert_eq!(m.capabilities[0].class.opcode, Op::Capability);
    assert_eq!(
        m.capabilities[0].operands,
        vec![Operand::Capability(spirv_headers::Capability::Shader)]
    );
    assert_eq!(m.ext_inst_imports.len(), 1);
    assert_eq!(m.ext_inst_imports[0].result_id, Some(1));
    assert_eq!(
        m.ext_inst_imports[0].operands,
        vec![Operand::LiteralString("GLSL.std.450".to_string())]
    );
    let model = m.memory_model.as_ref().unwrap();
    assert_eq!(
        model.operands,
        vec![
            Operand::AddressingModel(spirv_headers::AddressingModel::Logical),
            Operand::MemoryModel(spirv_headers::MemoryModel::GLSL450),
        ]
    );
    assert!(m.extensions.is_empty());
    assert!(m.debugs.is_empty());
    let text = m.disassemble();
    assert!(text.starts_with("; SPIR-V\n; Version: 1.0\n; Generator: rspirv\n; Bound: 10\n"));
}

#[test]
fn storage_buffer_is_declared_and_decorated() {
    let m = module_of(vec![doubling_kernel()], Some(0));
    let g = &m.types_global_values;

    // one variable in class Uniform
    let variables = with_op(g, Op::Variable);
    let uniform: Vec<_> = variables
        .iter()
        .filter(|v| v.operands[0] == Operand::StorageClass(spirv_headers::StorageClass::Uniform))
        .collect();
    assert_eq!(uniform.len(), 1);
    let buffer = uniform[0].result_id.unwrap();

    // which points to a struct whose one member is a runtime array of uint
    let pointer = g.iter().find(|i| i.result_id == uniform[0].result_type).unwrap();
    assert_eq!(pointer.class.opcode, Op::TypePointer);
    assert_eq!(
        pointer.operands[0],
        Operand::StorageClass(spirv_headers::StorageClass::Uniform)
    );
    let structs = with_op(g, Op::TypeStruct);
    assert_eq!(structs.len(), 1);
    let t_struct = structs[0].result_id.unwrap();
    assert_eq!(pointer.operands[1], Operand::IdRef(t_struct));
    let arrays = with_op(g, Op::TypeRuntimeArray);
    assert_eq!(arrays.len(), 1);
    let t_arr = arrays[0].result_id.unwrap();
    assert_eq!(structs[0].operands, vec![Operand::IdRef(t_arr)]);
    let uint = g.iter().find(|i| Operand::IdRef(i.result_id.unwrap()) == arrays[0].operands[0]).unwrap();
    assert_eq!(uint.class.opcode, Op::TypeInt);
    assert_eq!(uint.operands, vec![Operand::LiteralInt32(32), Operand::LiteralInt32(0)]);

    // exactly one of each decoration
    let set = decorations(&m, spirv_headers::Decoration::DescriptorSet);
    assert_eq!(set.len(), 1);
    assert_eq!(set[0].operands[0], Operand::IdRef(buffer));
    assert_eq!(set[0].operands[2], Operand::LiteralInt32(0));
    let binding = decorations(&m, spirv_headers::Decoration::Binding);
    assert_eq!(binding.len(), 1);
    assert_eq!(binding[0].operands[0], Operand::IdRef(buffer));
    assert_eq!(binding[0].operands[2], Operand::LiteralInt32(0));
    let stride = decorations(&m, spirv_headers::Decoration::ArrayStride);
    assert_eq!(stride.len(), 1);
    assert_eq!(stride[0].operands[0], Operand::IdRef(t_arr));
    assert_eq!(stride[0].operands[2], Operand::LiteralInt32(4));
    let block = decorations(&m, spirv_headers::Decoration::BufferBlock);
    assert_eq!(block.len(), 1);
    assert_eq!(block[0].operands.len(), 2);
    assert_eq!(block[0].operands[0], Operand::IdRef(t_struct));
    let members = with_op(&m.annotations, Op::MemberDecorate);
    assert_eq!(members.len(), 1);
    assert_eq!(
        members[0].operands,
        vec![
            Operand::IdRef(t_struct),
            Operand::LiteralInt32(0),
            Operand::Decoration(spirv_headers::Decoration::Offset),
            Operand::LiteralInt32(0),
        ]
    );
}

#[test]
fn storage_buffer_decorations_in_the_disassembly() {
    let text = module_of(vec![doubling_kernel()], Some(0)).disassemble();
    let lines: Vec<&str> = text.lines().collect();
    let count = |wanted: &str| lines.iter().filter(|l| l.trim() == wanted).count();
    assert_eq!(count("OpDecorate %6 DescriptorSet 0"), 1);
    assert_eq!(count("OpDecorate %6 Binding 0"), 1);
    assert_eq!(count("OpDecorate %3 ArrayStride 4"), 1);
    assert_eq!(count("OpMemberDecorate %4 0 Offset 0"), 1);
    assert_eq!(lines.iter().filter(|l| l.contains("DescriptorSet")).count(), 1);
    assert_eq!(lines.iter().filter(|l| l.contains("Binding")).count(), 1);
    assert_eq!(lines.iter().filter(|l| l.contains("ArrayStride")).count(), 1);
    assert_eq!(lines.iter().filter(|l| l.contains("OpMemberDecorate")).count(), 1);
}

#[test]
fn thread_id_is_the_global_invocation_id() {
    let m = module_of(vec![], None);
    let g = &m.types_global_values;
    let inputs: Vec<_> = with_op(g, Op::Variable)
        .into_iter()
        .filter(|v| v.operands[0] == Operand::StorageClass(spirv_headers::StorageClass::Input))
        .collect();
    assert_eq!(inputs.len(), 1);
    let thread_id = inputs[0].result_id.unwrap();
    let pointer = g.iter().find(|i| i.result_id == inputs[0].result_type).unwrap();
    assert_eq!(pointer.class.opcode, Op::TypePointer);
    let vectors = with_op(g, Op::TypeVector);
    assert_eq!(vectors.len(), 1);
    assert_eq!(pointer.operands[1], Operand::IdRef(vectors[0].result_id.unwrap()));
    assert_eq!(vectors[0].operands[1], Operand::LiteralInt32(3));
    let built_in = decorations(&m, spirv_headers::Decoration::BuiltIn);
    assert_eq!(built_in.len(), 1);
    assert_eq!(
        built_in[0].operands,
        vec![
            Operand::IdRef(thread_id),
            Operand::Decoration(spirv_headers::Decoration::BuiltIn),
            Operand::BuiltIn(spirv_headers::BuiltIn::GlobalInvocationId),
        ]
    );
}

#[test]
fn exactly_one_entry_point_named_main() {
    let m = module_of(vec![doubling_kernel()], Some(0));
    assert_eq!(m.entry_points.len(), 1);
    let e = &m.entry_points[0];
    assert_eq!(e.class.opcode, Op::EntryPoint);
    let function = m.functions[0].def.as_ref().unwrap().result_id.unwrap();
    // the thread id is the ninth id of every module
    assert_eq!(
        e.operands,
        vec![
            Operand::ExecutionModel(spirv_headers::ExecutionModel::GLCompute),
            Operand::IdRef(function),
            Operand::LiteralString("main".to_string()),
            Operand::IdRef(9),
        ]
    );
}

#[test]
fn local_size_is_64_1_1() {
    let m = module_of(vec![doubling_kernel()], Some(0));
    assert_eq!(m.execution_modes.len(), 1);
    let function = m.functions[0].def.as_ref().unwrap().result_id.unwrap();
    assert_eq!(m.execution_modes[0].class.opcode, Op::ExecutionMode);
    assert_eq!(
        m.execution_modes[0].operands,
        vec![
            Operand::IdRef(function),
            Operand::ExecutionMode(spirv_headers::ExecutionMode::LocalSize),
            Operand::LiteralInt32(64),
            Operand::LiteralInt32(1),
            Operand::LiteralInt32(1),
        ]
    );
}

#[test]
fn no_entry_point_without_an_entry() {
    let m = module_of(vec![doubling_kernel()], None);
    assert!(m.entry_points.is_empty());
    assert!(m.execution_modes.is_empty());
    assert_eq!(m.functions.len(), 1);
}

#[test]
fn entry_point_is_the_function_with_the_index() {
    let m = module_of(vec![void_fun(Base::Nop), doubling_kernel(), void_fun(Base::Nop)], Some(1));
    assert_eq!(m.functions.len(), 3);
    let second = m.functions[1].def.as_ref().unwrap().result_id.unwrap();
    assert_eq!(m.entry_points.len(), 1);
    assert_eq!(m.entry_points[0].operands[1], Operand::IdRef(second));
    assert_eq!(m.execution_modes[0].operands[0], Operand::IdRef(second));
}

#[test]
fn fun_count_counts_the_functions_lowered() {
    let mut ctx = Ctx::new();
    assert_eq!(ctx.fun_count(), 0);
    assert_eq!(ctx.fun(doubling_kernel()), Ok(()));
    assert_eq!(ctx.fun_count(), 1);
    assert!(ctx.fun(void_fun(Base::Break)).is_err());
    assert_eq!(ctx.fun_count(), 1);
}

#[test]
fn compile_is_deterministic() {
    let first = compile(&vec![doubling_kernel(), void_fun(Base::Nop)], Some(0));
    let second = compile(&vec![doubling_kernel(), void_fun(Base::Nop)], Some(0));
    assert!(first.is_ok());
    assert_eq!(first, second);
}

#[test]
fn compile_gives_the_bytes_of_the_finished_module() {
    let compiled = compile(&vec![doubling_kernel()], Some(0)).unwrap();
    let by_hand = module_bytes(module_of(vec![doubling_kernel()], Some(0)));
    assert_eq!(compiled, by_hand);
    let compiled = compile(&vec![], None).unwrap();
    assert_eq!(compiled, module_bytes(module_of(vec![], None)));
}

#[test]
fn compile_rejects_an_entry_that_is_no_function() {
    assert_eq!(compile(&vec![doubling_kernel()], Some(1)), Err(CompileError::UnknownFunction));
    assert_eq!(compile(&vec![], Some(0)), Err(CompileError::UnknownFunction));
}

#[test]
fn compile_gives_nothing_out_when_a_function_is_rejected() {
    let funs = vec![doubling_kernel(), void_fun(Base::Const(Const::I64(0))), void_fun(Base::Break)];
    assert_eq!(compile(&funs, Some(0)), Err(CompileError::UnsupportedInstruction));
}
