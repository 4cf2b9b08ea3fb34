//! What holds of every module that the library gives out.

use vstd::prelude::*;
use crate::bytes::{le_bytes, lemma_le_bytes, word_bytes};
use crate::error::CompileError;
use crate::frame::lemma_lower_fun;
use crate::ir::{FunView, Tree, ValueType};
use crate::lowering::{
    entry_name, glsl_std, CtxView, LOCAL_SIZE_X, LOCAL_SIZE_Y, LOCAL_SIZE_Z,
    THREAD_ID_COMPONENTS, WORD_BYTES,
};
use crate::model::{
    AddressingModel, BuiltIn, Capability, Decoration, ExecutionMode, ExecutionModel, HeaderView,
    Inst, MemoryModel, Op, Operand, StorageClass, GENERATOR, MAGIC_NUMBER,
};
use crate::preserve::lemma_lower_sound;
use crate::sound::{
    cache_ok, code_ok, declared_bool, declared_pointer, declared_scalar, pointer_of, scalar_of,
};
use crate::spirv::{compiled, lemma_lower_all, lower_all, module_words};
use crate::steady::{lemma_load_begin_steady, lemma_lower_steady, lemma_store_begin_steady};
use crate::targets::{labelled_in, named_in_blocks, refs_ok};

verus! {

/// The bytes of the magic number, least significant first.
pub open spec fn magic_bytes() -> Seq<u8> {
    seq![0x03u8, 0x02u8, 0x23u8, 0x07u8]
}

/// The module that a context gives up starts with the magic number, least
/// significant byte first.
pub proof fn lemma_starts_with_magic(s: CtxView, entry: Option<u32>)
    ensures
        le_bytes(module_words(s.finish(entry))).len() >= 4,
        le_bytes(module_words(s.finish(entry))).subrange(0, 4) == magic_bytes(),
{
    let words = module_words(s.finish(entry));
    assert(words[0] == MAGIC_NUMBER);
    lemma_le_bytes(words, 0);
    assert(word_bytes(MAGIC_NUMBER) =~= magic_bytes());
}

/// Whatever is compiled starts with the magic number, least significant
/// byte first.
pub proof fn lemma_output_starts_with_magic(funs: Seq<FunView>, entry: Option<u32>)
    requires
        compiled(funs, entry) is Ok,
    ensures
        compiled(funs, entry)->Ok_0.len() >= 4,
        compiled(funs, entry)->Ok_0.subrange(0, 4) == magic_bytes(),
{
    lemma_starts_with_magic(lower_all(funs, funs.len())->Ok_0, entry);
}

/// The id of the type `uint` in every module.
pub const UINT: u32 = 2;

/// The id of the type of the array of words in every module.
pub const WORDS: u32 = 3;

/// The id of the type of the storage buffer in every module.
pub const BUFFER_TYPE: u32 = 4;

/// The id of the type of pointers to the storage buffer in every module.
pub const BUFFER_POINTER: u32 = 5;

/// The id of the storage buffer in every module.
pub const BUFFER: u32 = 6;

/// The id of the type of the thread id in every module.
pub const UVEC3: u32 = 7;

/// The id of the type of pointers to the thread id in every module.
pub const UVEC3_POINTER: u32 = 8;

/// The id of the thread id in every module.
pub const THREAD_ID: u32 = 9;

/// What the types and globals of every module begin with: the type `uint`,
/// the storage buffer, a variable in class `Uniform` that points to a struct
/// whose one member is a runtime array of `uint`, and the thread id, a
/// variable in class `Input` of three `uint`.
pub open spec fn first_globals() -> Seq<Inst> {
    seq![
        Inst::definition(
            Op::TypeInt,
            UINT,
            seq![Operand::LiteralInt32(32), Operand::LiteralInt32(0)],
        ),
        Inst::definition(Op::TypeRuntimeArray, WORDS, seq![Operand::IdRef(UINT)]),
        Inst::definition(Op::TypeStruct, BUFFER_TYPE, seq![Operand::IdRef(WORDS)]),
        Inst::definition(
            Op::TypePointer,
            BUFFER_POINTER,
            seq![Operand::StorageClass(StorageClass::Uniform), Operand::IdRef(BUFFER_TYPE)],
        ),
        Inst::value(
            Op::Variable,
            BUFFER_POINTER,
            BUFFER,
            seq![Operand::StorageClass(StorageClass::Uniform)],
        ),
        Inst::definition(
            Op::TypeVector,
            UVEC3,
            seq![Operand::IdRef(UINT), Operand::LiteralInt32(THREAD_ID_COMPONENTS)],
        ),
        Inst::definition(
            Op::TypePointer,
            UVEC3_POINTER,
            seq![Operand::StorageClass(StorageClass::Input), Operand::IdRef(UVEC3)],
        ),
        Inst::value(
            Op::Variable,
            UVEC3_POINTER,
            THREAD_ID,
            seq![Operand::StorageClass(StorageClass::Input)],
        ),
    ]
}

/// The decorations of every module: the struct of the storage buffer is a
/// `BufferBlock`, the buffer is bound to descriptor set 0 at binding 0, the
/// array of words has a stride of 4, the one member of the struct is at
/// offset 0, and the thread id is the `GlobalInvocationId`.
pub open spec fn decorations() -> Seq<Inst> {
    seq![
        Inst::effect(
            Op::Decorate,
            seq![Operand::IdRef(BUFFER_TYPE), Operand::Decoration(Decoration::BufferBlock)],
        ),
        Inst::effect(
            Op::Decorate,
            seq![
                Operand::IdRef(BUFFER),
                Operand::Decoration(Decoration::DescriptorSet),
                Operand::LiteralInt32(0),
            ],
        ),
        Inst::effect(
            Op::Decorate,
            seq![
                Operand::IdRef(BUFFER),
                Operand::Decoration(Decoration::Binding),
                Operand::LiteralInt32(0),
            ],
        ),
        Inst::effect(
            Op::Decorate,
            seq![
                Operand::IdRef(WORDS),
                Operand::Decoration(Decoration::ArrayStride),
                Operand::LiteralInt32(WORD_BYTES),
            ],
        ),
        Inst::effect(
            Op::MemberDecorate,
            seq![
                Operand::IdRef(BUFFER_TYPE),
                Operand::LiteralInt32(0),
                Operand::Decoration(Decoration::Offset),
                Operand::LiteralInt32(0),
            ],
        ),
        Inst::effect(
            Op::Decorate,
            seq![
                Operand::IdRef(THREAD_ID),
                Operand::Decoration(Decoration::BuiltIn),
                Operand::BuiltIn(BuiltIn::GlobalInvocationId),
            ],
        ),
    ]
}

/// The context that every compilation starts from has declared the storage
/// buffer and the thread id, and decorated them.
pub proof fn lemma_initial_shape()
    ensures
        CtxView::initial().b.module.types_global_values == first_globals(),
        CtxView::initial().b.module.annotations == decorations(),
        CtxView::initial().buffer == BUFFER,
        CtxView::initial().thread_id_v3 == THREAD_ID,
        CtxView::initial().b.version == Some((1u8, 0u8)),
        CtxView::initial().b.module.capabilities == seq![
            Inst::effect(Op::Capability, seq![Operand::Capability(Capability::Shader)]),
        ],
        CtxView::initial().b.module.ext_inst_imports == seq![
            Inst::definition(Op::ExtInstImport, 1, seq![Operand::LiteralString(glsl_std())]),
        ],
        CtxView::initial().b.module.memory_model == Some(
            Inst::effect(
                Op::MemoryModel,
                seq![
                    Operand::AddressingModel(AddressingModel::Logical),
                    Operand::MemoryModel(MemoryModel::GLSL450),
                ],
            ),
        ),
        CtxView::initial().b.module.extensions.len() == 0,
        CtxView::initial().b.module.debugs.len() == 0,
{
    let c = crate::ends::bare();
    let (c1, t_uint) = c.scalar_type(ValueType::I32);
    let (c2, t_arr) = c1.global(Op::TypeRuntimeArray, seq![Operand::IdRef(t_uint)]);
    let (c3, t_struct) = c2.global(Op::TypeStruct, seq![Operand::IdRef(t_arr)]);
    let (c4, t_ptr) = c3.global(
        Op::TypePointer,
        seq![Operand::StorageClass(StorageClass::Uniform), Operand::IdRef(t_struct)],
    );
    let (c5, buffer) = c4.variable(t_ptr, StorageClass::Uniform);
    assert(t_uint == UINT && t_arr == WORDS && t_struct == BUFFER_TYPE && t_ptr == BUFFER_POINTER
        && buffer == BUFFER);
    let d1 = c5.decorate(t_struct, Decoration::BufferBlock, Seq::empty());
    let d2 = d1.decorate(buffer, Decoration::DescriptorSet, seq![Operand::LiteralInt32(0)]);
    let d3 = d2.decorate(buffer, Decoration::Binding, seq![Operand::LiteralInt32(0)]);
    let d4 = d3.decorate(t_arr, Decoration::ArrayStride, seq![Operand::LiteralInt32(WORD_BYTES)]);
    let c6 = d4.member_decorate(t_struct, 0, Decoration::Offset, seq![Operand::LiteralInt32(0)]);
    let (c7, t_uvec3) = c6.global(
        Op::TypeVector,
        seq![Operand::IdRef(t_uint), Operand::LiteralInt32(THREAD_ID_COMPONENTS)],
    );
    let (c8, t_uvec3_ptr) = c7.global(
        Op::TypePointer,
        seq![Operand::StorageClass(StorageClass::Input), Operand::IdRef(t_uvec3)],
    );
    let (c9, thread_id_v3) = c8.variable(t_uvec3_ptr, StorageClass::Input);
    assert(t_uvec3 == UVEC3 && t_uvec3_ptr == UVEC3_POINTER && thread_id_v3 == THREAD_ID);
    let c10 = c9.decorate(
        thread_id_v3,
        Decoration::BuiltIn,
        seq![Operand::BuiltIn(BuiltIn::GlobalInvocationId)],
    );
    assert(CtxView::initial().b == c10.b);
    assert(c5.b.module.types_global_values =~= first_globals().take(5));
    assert(c10.b.module.types_global_values =~= first_globals());
    let a = c10.b.module.annotations;
    assert(a.len() == 6);
    assert(a[0].operands =~= decorations()[0].operands);
    assert(a[1].operands =~= decorations()[1].operands);
    assert(a[2].operands =~= decorations()[2].operands);
    assert(a[3].operands =~= decorations()[3].operands);
    assert(a[4].operands =~= decorations()[4].operands);
    assert(a[5].operands =~= decorations()[5].operands);
    assert(a =~= decorations());
    assert(c10.b.module.capabilities =~= seq![
        Inst::effect(Op::Capability, seq![Operand::Capability(Capability::Shader)]),
    ]);
    assert(c10.b.module.ext_inst_imports =~= seq![
        Inst::definition(Op::ExtInstImport, 1, seq![Operand::LiteralString(glsl_std())]),
    ]);
}

/// Every module has version 1.0 in its header, declares the capability
/// `Shader`, imports `GLSL.std.450`, has the memory model `Logical` and
/// `GLSL450`, carries the decorations of the storage buffer and the thread
/// id and no other, and begins its types and globals with those of the
/// storage buffer and the thread id.
pub proof fn lemma_module_shape(s: CtxView, entry: Option<u32>)
    requires
        s.inv(),
    ensures
        s.finish(entry).header == Some(
            HeaderView {
                magic_number: MAGIC_NUMBER,
                version: 0x0001_0000,
                generator: GENERATOR,
                bound: s.b.next_id,
                reserved_word: 0,
            },
        ),
        s.finish(entry).capabilities == seq![
            Inst::effect(Op::Capability, seq![Operand::Capability(Capability::Shader)]),
        ],
        s.finish(entry).extensions.len() == 0,
        s.finish(entry).ext_inst_imports == seq![
            Inst::definition(Op::ExtInstImport, 1, seq![Operand::LiteralString(glsl_std())]),
        ],
        s.finish(entry).memory_model == Some(
            Inst::effect(
                Op::MemoryModel,
                seq![
                    Operand::AddressingModel(AddressingModel::Logical),
                    Operand::MemoryModel(MemoryModel::GLSL450),
                ],
            ),
        ),
        s.finish(entry).debugs.len() == 0,
        s.finish(entry).annotations == decorations(),
        first_globals().is_prefix_of(s.finish(entry).types_global_values),
        s.buffer == BUFFER,
        s.thread_id_v3 == THREAD_ID,
{
    lemma_initial_shape();
    assert(s.b.prelude() == CtxView::initial().b.prelude());
    assert(s.b.version == CtxView::initial().b.prelude().version);
    assert(s.b.module.capabilities == CtxView::initial().b.prelude().capabilities);
    assert(s.b.module.extensions == CtxView::initial().b.prelude().extensions);
    assert(s.b.module.ext_inst_imports == CtxView::initial().b.prelude().ext_inst_imports);
    assert(s.b.module.memory_model == CtxView::initial().b.prelude().memory_model);
    assert(s.b.module.debugs == CtxView::initial().b.prelude().debugs);
    assert(s.b.module.annotations == CtxView::initial().b.prelude().annotations);
}

/// The entry point of the function with the id `f`: a `GLCompute` kernel
/// named `main` whose interface is the variable `thread_id_v3`.
pub open spec fn entry_point_of(f: u32, thread_id_v3: u32) -> Inst {
    Inst::effect(
        Op::EntryPoint,
        seq![
            Operand::ExecutionModel(ExecutionModel::GLCompute),
            Operand::IdRef(f),
            Operand::LiteralString(entry_name()),
            Operand::IdRef(thread_id_v3),
        ],
    )
}

/// The execution mode of the function with the id `f`: a local size of 64 by
/// 1 by 1.
pub open spec fn local_size_of(f: u32) -> Inst {
    Inst::effect(
        Op::ExecutionMode,
        seq![
            Operand::IdRef(f),
            Operand::ExecutionMode(ExecutionMode::LocalSize),
            Operand::LiteralInt32(LOCAL_SIZE_X),
            Operand::LiteralInt32(LOCAL_SIZE_Y),
            Operand::LiteralInt32(LOCAL_SIZE_Z),
        ],
    )
}

/// A module that is given up with an entry declares exactly one entry point:
/// a `GLCompute` kernel named `main`, which is the function with the index
/// of the entry.
pub proof fn lemma_one_entry_point(s: CtxView, k: u32)
    requires
        s.inv(),
        k < s.funs.len(),
    ensures
        s.finish(Some(k)).entry_points == seq![entry_point_of(s.funs[k as int].0, s.thread_id_v3)],
        s.finish(Some(k)).functions[k as int].def->Some_0.result_id == Some(s.funs[k as int].0),
{
    reveal(code_ok);
    let m = s.finish(Some(k));
    assert(m.entry_points =~= seq![entry_point_of(s.funs[k as int].0, s.thread_id_v3)]);
    assert(m.functions[k as int] == s.b.module.functions[k as int]);
}

/// A module that is given up with an entry declares exactly one execution
/// mode: a local size of 64 by 1 by 1 for the entry point.
pub proof fn lemma_local_size(s: CtxView, k: u32)
    requires
        s.inv(),
        k < s.funs.len(),
    ensures
        s.finish(Some(k)).execution_modes == seq![local_size_of(s.funs[k as int].0)],
{
    reveal(code_ok);
    let m = s.finish(Some(k));
    assert(m.execution_modes =~= seq![local_size_of(s.funs[k as int].0)]);
}

/// For every value type, at most one instruction of the module declares its
/// SPIR-V type.
pub proof fn lemma_one_type_per_value_type(
    s: CtxView,
    entry: Option<u32>,
    t: ValueType,
    i: int,
    j: int,
)
    requires
        s.inv(),
        0 <= i < s.finish(entry).types_global_values.len(),
        0 <= j < s.finish(entry).types_global_values.len(),
        scalar_of(s.finish(entry).types_global_values[i]) == Some(t),
        scalar_of(s.finish(entry).types_global_values[j]) == Some(t),
    ensures
        i == j,
        s.finish(entry).types_global_values[i].result_id == s.tys.of(t),
{
    reveal(cache_ok);
    assert(s.finish(entry).types_global_values == s.b.module.types_global_values);
}

/// At most one instruction of the module declares the boolean type.
pub proof fn lemma_one_bool_type(s: CtxView, entry: Option<u32>, i: int, j: int)
    requires
        s.inv(),
        0 <= i < s.finish(entry).types_global_values.len(),
        0 <= j < s.finish(entry).types_global_values.len(),
        s.finish(entry).types_global_values[i].op is TypeBool,
        s.finish(entry).types_global_values[j].op is TypeBool,
    ensures
        i == j,
{
    reveal(cache_ok);
    assert(s.finish(entry).types_global_values == s.b.module.types_global_values);
}

/// For every value type and every storage class, at most one instruction of
/// the module declares the type of pointers to the type of the value type in
/// the storage class.
pub proof fn lemma_one_pointer_type_per_pair(
    s: CtxView,
    entry: Option<u32>,
    t: ValueType,
    class: StorageClass,
    i: int,
    j: int,
)
    requires
        s.inv(),
        s.tys.of(t) is Some,
        0 <= i < s.finish(entry).types_global_values.len(),
        0 <= j < s.finish(entry).types_global_values.len(),
        pointer_of(s.finish(entry).types_global_values[i]) == Some((class, s.tys.of(t)->Some_0)),
        pointer_of(s.finish(entry).types_global_values[j]) == Some((class, s.tys.of(t)->Some_0)),
    ensures
        i == j,
{
    reveal(cache_ok);
    assert(s.finish(entry).types_global_values == s.b.module.types_global_values);
}

/// Every type that the context remembers is declared by an instruction of
/// the module, under the id that is remembered.
pub proof fn lemma_remembered_types_are_declared(s: CtxView, entry: Option<u32>)
    requires
        s.inv(),
    ensures
        forall|t: ValueType|
            (#[trigger] s.tys.of(t)) matches Some(id) ==> declared_scalar(
                s.finish(entry).types_global_values,
                t,
                id,
            ),
        s.tys.b matches Some(id) ==> declared_bool(s.finish(entry).types_global_values, id),
        forall|t: ValueType, class: StorageClass|
            (#[trigger] s.ptrs[crate::lowering::slot(t, class)]) matches Some(id) ==> s.tys.of(t)
                is Some && declared_pointer(
                s.finish(entry).types_global_values,
                class,
                s.tys.of(t)->Some_0,
                id,
            ),
{
    reveal(cache_ok);
    assert(s.finish(entry).types_global_values == s.b.module.types_global_values);
}

/// No two instructions of the module declare the same id, and every id
/// that is declared is less than the bound in the header of the module.
pub proof fn lemma_ids_unique(s: CtxView, entry: Option<u32>, x: u32)
    requires
        s.inv(),
    ensures
        s.finish(entry).count(x) <= 1,
        s.finish(entry).count(x) > 0 ==> x < s.finish(entry).header->Some_0.bound,
{
    reveal(crate::ids::ids_ok);
    assert(s.b.count(x) <= 1);
    assert(s.b.count(x) == s.b.module.count(x));
    match entry {
        Some(k) => {
            let f = s.funs[k as int].0;
            let b1 = s.b.add_entry_point(entry_point_of(f, s.thread_id_v3));
            crate::ids::lemma_count_steps(s.b, entry_point_of(f, s.thread_id_v3), x);
            crate::ids::lemma_count_steps(b1, local_size_of(f), x);
        },
        None => {},
    }
}

/// No loop is entered when a function has been lowered.
pub proof fn lemma_no_loop_left(s: CtxView, f: FunView)
    requires
        s.inv(),
        s.judge(f) is Ok,
    ensures
        s.lower_fun(f).loops.len() == 0,
{
    lemma_lower_fun(s, f);
}

/// Every block of every function of the module has a label and ends with
/// exactly one instruction that ends a block: a branch, a conditional branch
/// or a return.
pub proof fn lemma_blocks_terminated(s: CtxView, entry: Option<u32>, k: int, b: int)
    requires
        s.inv(),
        0 <= k < s.finish(entry).functions.len(),
        0 <= b < s.finish(entry).functions[k].blocks.len(),
    ensures
        s.finish(entry).functions[k].blocks[b].terminated(),
{
    reveal(code_ok);
    assert(s.finish(entry).functions == s.b.module.functions);
    assert(s.b.module.functions[k].blocks_terminated());
}

/// Every branch stays inside its function: a label that an instruction of
/// a function of the module names, as the target of a branch or as the merge
/// block or the continue block of a selection or a loop, is the label of a
/// block of that function.
pub proof fn lemma_branches_stay_inside(s: CtxView, entry: Option<u32>, k: int, t: u32)
    requires
        s.inv(),
        0 <= k < s.finish(entry).functions.len(),
        named_in_blocks(s.finish(entry).functions[k].blocks, t),
    ensures
        labelled_in(s.finish(entry).functions[k].blocks, t),
{
    reveal(refs_ok);
    assert(s.finish(entry).functions == s.b.module.functions);
    assert(s.b.module.functions[k].closed());
}

/// Whether the constant `id` of type `ty` with the bit pattern `value` is
/// among the globals `g`.
pub open spec fn has_constant(g: Seq<Inst>, ty: u32, id: u32, value: u32) -> bool {
    exists|i: int|
        0 <= i < g.len() && #[trigger] g[i] == Inst::value(
            Op::Constant,
            ty,
            id,
            seq![Operand::LiteralInt32(value)],
        )
}

/// Whether the open block of a context ends with an access to the word of
/// the storage buffer at the byte address `addr`, and one instruction with
/// the opcode `user` that uses it: the address is divided by the constant 4
/// of the type `uint`, which is the integer type of 32 bits without a sign,
/// the access chain goes into the buffer with the constant 0 of that type as
/// its first index and the quotient as its second, and the pointer that it
/// yields is the first operand of the last instruction.
pub open spec fn accesses_word(after: CtxView, addr: u32, user: Op) -> bool {
    let code = after.b.block->Some_0.instructions;
    let g = after.b.module.types_global_values;
    let n = code.len();
    &&& after.b.block is Some
    &&& n >= 3
    &&& after.tys.of(ValueType::I32) matches Some(uint)
    &&& declared_scalar(g, ValueType::I32, uint)
    &&& code[n - 3].op is UDiv
    &&& code[n - 3].result_type == Some(uint)
    &&& code[n - 3].operands.len() == 2
    &&& code[n - 3].operands[0] == Operand::IdRef(addr)
    &&& code[n - 3].operands[1] matches Operand::IdRef(four)
    &&& has_constant(g, uint, four, WORD_BYTES)
    &&& code[n - 2].op is AccessChain
    &&& code[n - 2].operands.len() == 3
    &&& code[n - 2].operands[0] == Operand::IdRef(after.buffer)
    &&& code[n - 2].operands[1] matches Operand::IdRef(zero)
    &&& has_constant(g, uint, zero, 0)
    &&& code[n - 2].operands[2] matches Operand::IdRef(index)
    &&& code[n - 3].result_id == Some(index)
    &&& code[n - 1].op == user
    &&& code[n - 1].operands.len() >= 1
    &&& code[n - 1].operands[0] matches Operand::IdRef(pointer)
    &&& code[n - 2].result_id == Some(pointer)
}

/// A load is lowered to an access chain into the storage buffer whose first
/// index is the constant 0 and whose second index is the address divided by
/// 4, and a load through it.
pub proof fn lemma_load_accesses_word(s: CtxView, ty: ValueType, addr: Tree)
    requires
        s.sound(),
        s.inside(),
        s.b.next_id + addr.cost() + 9 <= u32::MAX,
    ensures
        accesses_word(
            s.lower(Tree::Load(ty, Box::new(addr))).0,
            s.load_begin(ty).0.lower(addr).1,
            Op::Load,
        ),
{
    let node = Tree::Load(ty, Box::new(addr));
    assert(node.cost() == addr.cost() + 9);
    lemma_lower_sound(s, node);
    assert(cache_ok(
        s.lower(node).0.tys,
        s.lower(node).0.ptrs,
        s.lower(node).0.b.module.types_global_values,
        s.lower(node).0.b.next_id,
    ));
    reveal(cache_ok);
    lemma_load_begin_steady(s, ty);
    let (s1, access) = s.load_begin(ty);
    lemma_lower_steady(s1, addr);
    let (s2, a) = s1.lower(addr);
    assert(s.lower(node) == s2.load_end(access, a));
    let after = s2.load_end(access, a).0;
    let g1 = s1.b.module.types_global_values;
    let g2 = s2.b.module.types_global_values;
    let g = after.b.module.types_global_values;
    // the constant 0 is declared before the address is lowered, and stays
    let zero_at = choose|i: int|
        0 <= i < g1.len() && #[trigger] g1[i] == Inst::value(
            Op::Constant,
            access.uint,
            access.zero,
            seq![Operand::LiteralInt32(0)],
        ) && s1.tys.of(ValueType::I32) == Some(access.uint);
    assert(0 <= zero_at < g1.len() && g1[zero_at] == Inst::value(
        Op::Constant,
        access.uint,
        access.zero,
        seq![Operand::LiteralInt32(0)],
    ) && s1.tys.of(ValueType::I32) == Some(access.uint)) by {
        lemma_load_begin_declares_zero(s, ty);
    }
    reveal(CtxView::load_end);
    assert(g2[zero_at] == g1[zero_at]);
    assert(g[zero_at] == g2[zero_at]);
    assert(g[g2.len() as int] == Inst::value(
        Op::Constant,
        access.uint,
        s2.b.next_id,
        seq![Operand::LiteralInt32(WORD_BYTES)],
    ));
}

/// What a load declares before its address is lowered has the constant 0 of
/// the type that is remembered for `I32` among it.
pub proof fn lemma_load_begin_declares_zero(s: CtxView, ty: ValueType)
    requires
        s.inside(),
        s.b.next_id + 5 <= u32::MAX,
    ensures
        s.load_begin(ty).0.tys.of(ValueType::I32) == Some(s.load_begin(ty).1.uint),
        has_constant(
            s.load_begin(ty).0.b.module.types_global_values,
            s.load_begin(ty).1.uint,
            s.load_begin(ty).1.zero,
            0,
        ),
{
    reveal(CtxView::load_begin);
    let (s1, uint) = s.scalar_type(ValueType::I32);
    let (s2, zero) = s1.constant(uint, 0);
    let at = s1.b.module.types_global_values.len() as int;
    let g = s.load_begin(ty).0.b.module.types_global_values;
    assert(g[at] == Inst::value(Op::Constant, uint, zero, seq![Operand::LiteralInt32(0)]));
}

/// A store is lowered to an access chain into the storage buffer whose first
/// index is the constant 0 and whose second index is the address divided by
/// 4, and a store through it.
pub proof fn lemma_store_accesses_word(s: CtxView, ty: ValueType, addr: Tree, val: Tree)
    requires
        s.sound(),
        s.inside(),
        s.b.next_id + addr.cost() + val.cost() + 7 <= u32::MAX,
    ensures
        accesses_word(
            s.lower(Tree::Store(ty, Box::new(addr), Box::new(val))).0,
            s.store_begin().0.lower(addr).1,
            Op::Store,
        ),
{
    let node = Tree::Store(ty, Box::new(addr), Box::new(val));
    assert(node.cost() == addr.cost() + val.cost() + 7);
    lemma_lower_sound(s, node);
    assert(cache_ok(
        s.lower(node).0.tys,
        s.lower(node).0.ptrs,
        s.lower(node).0.b.module.types_global_values,
        s.lower(node).0.b.next_id,
    ));
    reveal(cache_ok);
    lemma_store_begin_steady(s);
    let (s1, (uint, zero)) = s.store_begin();
    lemma_lower_steady(s1, addr);
    let (s2, a) = s1.lower(addr);
    lemma_lower_steady(s2, val);
    let (s3, v) = s2.lower(val);
    assert(s.lower(node).0 == s3.store_end(ty, uint, zero, a, v));
    let after = s3.store_end(ty, uint, zero, a, v);
    let g1 = s1.b.module.types_global_values;
    let g3 = s3.b.module.types_global_values;
    let g = after.b.module.types_global_values;
    let zero_at = (g1.len() - 1) as int;
    assert(g1.len() > 0 && g1[zero_at] == Inst::value(
        Op::Constant,
        uint,
        zero,
        seq![Operand::LiteralInt32(0)],
    ) && s1.tys.of(ValueType::I32) == Some(uint)) by {
        reveal(CtxView::store_begin);
    }
    assert(g3[zero_at] == g1[zero_at]);
    reveal(CtxView::store_end);
    crate::steady::lemma_pointer_type_steady(s3, ty, StorageClass::Uniform);
    let (s4, pointer_type) = s3.pointer_type(ty, StorageClass::Uniform);
    let g4 = s4.b.module.types_global_values;
    assert(g4[zero_at] == g3[zero_at]);
    assert(g[zero_at] == g4[zero_at]);
    assert(g[g4.len() as int] == Inst::value(
        Op::Constant,
        uint,
        s4.b.next_id,
        seq![Operand::LiteralInt32(WORD_BYTES)],
    ));
}

/// The same functions with the same entry are compiled to the same bytes,
/// or rejected for the same reason.
pub proof fn lemma_deterministic(
    funs: Seq<FunView>,
    entry: Option<u32>,
    first: Result<Seq<u8>, CompileError>,
    second: Result<Seq<u8>, CompileError>,
)
    requires
        first == compiled(funs, entry),
        second == compiled(funs, entry),
    ensures
        first == second,
{
}

/// Whatever is compiled is the module that the context gives up after each
/// function was lowered in turn, and that context is in order.
pub proof fn lemma_compiled(funs: Seq<FunView>, entry: Option<u32>)
    requires
        compiled(funs, entry) is Ok,
    ensures
        lower_all(funs, funs.len()) matches Ok(s) && s.inv() && s.funs.len() == funs.len()
            && compiled(funs, entry) == Ok::<Seq<u8>, CompileError>(
            le_bytes(module_words(s.finish(entry))),
        ),
{
    lemma_lower_all(funs, funs.len());
}

} // verus!
