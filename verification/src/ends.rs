//! What holds at the two ends of a compilation: the context that it starts
//! from is in order, and the module that it gives up can be encoded.

use vstd::prelude::*;
use crate::ir::ValueType;
use crate::lowering::CtxView;
use crate::model::{operands_known, Decoration, Inst, Op, Operand, StorageClass};
use crate::ids::{
    extends, ids_ok, lemma_count_empty, lemma_count_steps, lemma_extends_by_next,
    lemma_extends_by_nothing, lemma_extends_ok, lemma_extends_twice,
};
use crate::preserve::{lemma_global_sound, lemma_scalar_type_sound};
use crate::unique::{
    lemma_declare_variable_extends, lemma_define_global_extends, lemma_scalar_type_extends,
};
use crate::sound::{
    cache_ok, code_ok, lemma_code_add_annotation, lemma_code_add_global, lemma_code_take_id,
    pointer_of, scalar_of,
};

verus! {

/// The first id that is free in the context that every compilation starts
/// from.
pub const FIRST_FREE_ID: u32 = 10;

/// A type of pointers to something that is no scalar type leaves the context
/// in order.
pub proof fn lemma_foreign_pointer_sound(s: CtxView, class: StorageClass, pointee: u32)
    requires
        s.sound(),
        s.b.next_id + 1 <= u32::MAX,
        pointee < s.b.next_id,
        forall|t: ValueType| s.tys.of(t) != Some(pointee),
    ensures
        s.global(
            Op::TypePointer,
            seq![Operand::StorageClass(class), Operand::IdRef(pointee)],
        ).0.sound(),
{
    let x = Inst::definition(
        Op::TypePointer,
        s.b.next_id,
        seq![Operand::StorageClass(class), Operand::IdRef(pointee)],
    );
    let g = s.b.module.types_global_values;
    let g2 = g.push(x);
    assert(cache_ok(s.tys, s.ptrs, g2, (s.b.next_id + 1) as u32)) by {
        reveal(cache_ok);
        crate::sound::lemma_declared_push(g, x);
        assert(scalar_of(x) is None);
        assert(pointer_of(x) == Some((class, pointee)));
        assert forall|i: int| 0 <= i < g.len() implies g2[i] == g[i] by {}
    }
    lemma_code_take_id(s.b);
    lemma_code_add_global(s.b.take_id(), x);
}

/// A variable outside every function leaves the context in order.
pub proof fn lemma_global_variable_sound(s: CtxView, ty: u32, class: StorageClass)
    requires
        s.sound(),
        s.b.block is None,
        s.b.next_id + 1 <= u32::MAX,
    ensures
        s.variable(ty, class).0.sound(),
{
    lemma_global_sound(s, Op::Variable, Some(ty), seq![Operand::StorageClass(class)]);
    assert(s.variable(ty, class).0 == s.with_builder(
        s.b.define_global(Op::Variable, Some(ty), seq![Operand::StorageClass(class)]),
    ));
}

/// A decoration with known operands leaves the context in order.
pub proof fn lemma_decorate_sound(
    s: CtxView,
    target: u32,
    decoration: Decoration,
    extra: Seq<Operand>,
)
    requires
        s.sound(),
        operands_known(extra),
    ensures
        s.decorate(target, decoration, extra).sound(),
{
    lemma_code_add_annotation(
        s.b,
        Inst::effect(
            Op::Decorate,
            seq![Operand::IdRef(target), Operand::Decoration(decoration)] + extra,
        ),
    );
}

/// A decoration of a member with known operands leaves the context in
/// order.
pub proof fn lemma_member_decorate_sound(
    s: CtxView,
    structure: u32,
    member: u32,
    decoration: Decoration,
    extra: Seq<Operand>,
)
    requires
        s.sound(),
        operands_known(extra),
    ensures
        s.member_decorate(structure, member, decoration, extra).sound(),
{
    lemma_code_add_annotation(
        s.b,
        Inst::effect(
            Op::MemberDecorate,
            seq![
                Operand::IdRef(structure),
                Operand::LiteralInt32(member),
                Operand::Decoration(decoration),
            ] + extra,
        ),
    );
}

/// The context before anything but the capability, the instruction set and
/// the memory model is declared.
pub open spec fn bare() -> CtxView {
    let b0 = crate::model::BuilderView {
        version: Some((1u8, 0u8)),
        ..crate::model::BuilderView::fresh()
    };
    let b1 = b0.add_capability(
        Inst::effect(
            Op::Capability,
            seq![Operand::Capability(crate::model::Capability::Shader)],
        ),
    );
    let b2 = b1.take_id().add_ext_inst_import(
        Inst::definition(
            Op::ExtInstImport,
            b1.next_id,
            seq![Operand::LiteralString(crate::lowering::glsl_std())],
        ),
    );
    let b3 = b2.set_memory_model(
        Inst::effect(
            Op::MemoryModel,
            seq![
                Operand::AddressingModel(crate::model::AddressingModel::Logical),
                Operand::MemoryModel(crate::model::MemoryModel::GLSL450),
            ],
        ),
    );
    CtxView {
        tys: crate::lowering::Types::empty(),
        ptrs: Seq::new(crate::lowering::POINTER_SLOTS as nat, |i: int| None),
        buffer: 0,
        thread_id: 0,
        thread_id_v3: 0,
        locals: Map::empty(),
        b: b3,
        funs: Seq::empty(),
        loops: Seq::empty(),
        reserved: 0,
    }
}

/// The ids of the bare context are in order.
pub proof fn lemma_bare_ids()
    ensures
        ids_ok(bare().b, Set::empty()),
{
    let b0 = crate::model::BuilderView {
        version: Some((1u8, 0u8)),
        ..crate::model::BuilderView::fresh()
    };
    let capability = Inst::effect(
        Op::Capability,
        seq![Operand::Capability(crate::model::Capability::Shader)],
    );
    let b1 = b0.add_capability(capability);
    let import = Inst::definition(
        Op::ExtInstImport,
        b1.next_id,
        seq![Operand::LiteralString(crate::lowering::glsl_std())],
    );
    let b2 = b1.take_id().add_ext_inst_import(import);
    let model = Inst::effect(
        Op::MemoryModel,
        seq![
            Operand::AddressingModel(crate::model::AddressingModel::Logical),
            Operand::MemoryModel(crate::model::MemoryModel::GLSL450),
        ],
    );
    let b3 = b2.set_memory_model(model);
    assert(ids_ok(b0, Set::empty())) by {
        reveal(ids_ok);
        assert forall|x: u32| #[trigger] b0.count(x) == 0 by {
            lemma_count_empty(x);
        }
    }
    assert forall|x: u32| #[trigger] b1.count(x) == b0.count(x) by {
        lemma_count_steps(b0, capability, x);
    }
    lemma_extends_by_nothing(b0, b1);
    assert forall|x: u32|
        #[trigger] b2.count(x) == b1.count(x) + (if x == b1.next_id {
            1nat
        } else {
            0nat
        }) by {
        lemma_count_steps(b1, import, x);
        lemma_count_steps(b1.take_id(), import, x);
    }
    lemma_extends_by_next(b1, b2);
    assert forall|x: u32| #[trigger] b3.count(x) == b2.count(x) by {
        lemma_count_steps(b2, model, x);
    }
    lemma_extends_by_nothing(b2, b3);
    lemma_extends_twice(b0, b1, b2);
    lemma_extends_twice(b0, b2, b3);
    lemma_extends_ok(b0, b3, Set::empty());
    assert(bare().b == b3);
}

/// A decoration extends the builder.
pub proof fn lemma_annotation_extends(b: crate::model::BuilderView, inst: Inst)
    requires
        inst.result_id is None,
    ensures
        extends(b, b.add_annotation(inst)),
{
    assert forall|x: u32| #[trigger] b.add_annotation(inst).count(x) == b.count(x) by {
        lemma_count_steps(b, inst, x);
    }
    lemma_extends_by_nothing(b, b.add_annotation(inst));
}

/// The ids of the context that every compilation starts from are in order.
pub proof fn lemma_initial_ids()
    ensures
        ids_ok(CtxView::initial().b, Set::empty()),
{
    lemma_bare_ids();
    let c = bare();
    let none = Set::<u32>::empty();
    lemma_scalar_type_extends(c, ValueType::I32);
    let (c1, t_uint) = c.scalar_type(ValueType::I32);
    lemma_extends_ok(c.b, c1.b, none);
    lemma_define_global_extends(c1.b, Op::TypeRuntimeArray, None, seq![Operand::IdRef(t_uint)]);
    let (c2, t_arr) = c1.global(Op::TypeRuntimeArray, seq![Operand::IdRef(t_uint)]);
    lemma_extends_ok(c1.b, c2.b, none);
    lemma_define_global_extends(c2.b, Op::TypeStruct, None, seq![Operand::IdRef(t_arr)]);
    let (c3, t_struct) = c2.global(Op::TypeStruct, seq![Operand::IdRef(t_arr)]);
    lemma_extends_ok(c2.b, c3.b, none);
    lemma_define_global_extends(
        c3.b,
        Op::TypePointer,
        None,
        seq![Operand::StorageClass(StorageClass::Uniform), Operand::IdRef(t_struct)],
    );
    let (c4, t_ptr) = c3.global(
        Op::TypePointer,
        seq![Operand::StorageClass(StorageClass::Uniform), Operand::IdRef(t_struct)],
    );
    lemma_extends_ok(c3.b, c4.b, none);
    lemma_declare_variable_extends(c4.b, t_ptr, StorageClass::Uniform);
    let (c5, buffer) = c4.variable(t_ptr, StorageClass::Uniform);
    lemma_extends_ok(c4.b, c5.b, none);
    let d1 = c5.decorate(t_struct, Decoration::BufferBlock, Seq::empty());
    lemma_annotation_extends(
        c5.b,
        Inst::effect(
            Op::Decorate,
            seq![Operand::IdRef(t_struct), Operand::Decoration(Decoration::BufferBlock)]
                + Seq::empty(),
        ),
    );
    lemma_extends_ok(c5.b, d1.b, none);
    let d2 = d1.decorate(buffer, Decoration::DescriptorSet, seq![Operand::LiteralInt32(0)]);
    lemma_annotation_extends(
        d1.b,
        Inst::effect(
            Op::Decorate,
            seq![Operand::IdRef(buffer), Operand::Decoration(Decoration::DescriptorSet)]
                + seq![Operand::LiteralInt32(0)],
        ),
    );
    lemma_extends_ok(d1.b, d2.b, none);
    let d3 = d2.decorate(buffer, Decoration::Binding, seq![Operand::LiteralInt32(0)]);
    lemma_annotation_extends(
        d2.b,
        Inst::effect(
            Op::Decorate,
            seq![Operand::IdRef(buffer), Operand::Decoration(Decoration::Binding)]
                + seq![Operand::LiteralInt32(0)],
        ),
    );
    lemma_extends_ok(d2.b, d3.b, none);
    let d4 = d3.decorate(
        t_arr,
        Decoration::ArrayStride,
        seq![Operand::LiteralInt32(crate::lowering::WORD_BYTES)],
    );
    lemma_annotation_extends(
        d3.b,
        Inst::effect(
            Op::Decorate,
            seq![Operand::IdRef(t_arr), Operand::Decoration(Decoration::ArrayStride)]
                + seq![Operand::LiteralInt32(crate::lowering::WORD_BYTES)],
        ),
    );
    lemma_extends_ok(d3.b, d4.b, none);
    let c6 = d4.member_decorate(t_struct, 0, Decoration::Offset, seq![Operand::LiteralInt32(0)]);
    lemma_annotation_extends(
        d4.b,
        Inst::effect(
            Op::MemberDecorate,
            seq![
                Operand::IdRef(t_struct),
                Operand::LiteralInt32(0),
                Operand::Decoration(Decoration::Offset),
            ] + seq![Operand::LiteralInt32(0)],
        ),
    );
    lemma_extends_ok(d4.b, c6.b, none);
    lemma_define_global_extends(
        c6.b,
        Op::TypeVector,
        None,
        seq![
            Operand::IdRef(t_uint),
            Operand::LiteralInt32(crate::lowering::THREAD_ID_COMPONENTS),
        ],
    );
    let (c7, t_uvec3) = c6.global(
        Op::TypeVector,
        seq![
            Operand::IdRef(t_uint),
            Operand::LiteralInt32(crate::lowering::THREAD_ID_COMPONENTS),
        ],
    );
    lemma_extends_ok(c6.b, c7.b, none);
    lemma_define_global_extends(
        c7.b,
        Op::TypePointer,
        None,
        seq![Operand::StorageClass(StorageClass::Input), Operand::IdRef(t_uvec3)],
    );
    let (c8, t_uvec3_ptr) = c7.global(
        Op::TypePointer,
        seq![Operand::StorageClass(StorageClass::Input), Operand::IdRef(t_uvec3)],
    );
    lemma_extends_ok(c7.b, c8.b, none);
    lemma_declare_variable_extends(c8.b, t_uvec3_ptr, StorageClass::Input);
    let (c9, thread_id_v3) = c8.variable(t_uvec3_ptr, StorageClass::Input);
    lemma_extends_ok(c8.b, c9.b, none);
    let c10 = c9.decorate(
        thread_id_v3,
        Decoration::BuiltIn,
        seq![Operand::BuiltIn(crate::model::BuiltIn::GlobalInvocationId)],
    );
    lemma_annotation_extends(
        c9.b,
        Inst::effect(
            Op::Decorate,
            seq![Operand::IdRef(thread_id_v3), Operand::Decoration(Decoration::BuiltIn)]
                + seq![Operand::BuiltIn(crate::model::BuiltIn::GlobalInvocationId)],
        ),
    );
    lemma_extends_ok(c9.b, c10.b, none);
    assert(CtxView::initial().b == c10.b);
}

/// The bare context is in order.
pub proof fn lemma_bare()
    ensures
        bare().sound(),
        bare().b.next_id == 2,
        bare().b.block is None,
        bare().b.function is None,
        bare().loops.len() == 0,
{
    let c = bare();
    assert(cache_ok(c.tys, c.ptrs, c.b.module.types_global_values, c.b.next_id)) by {
        reveal(cache_ok);
    }
    assert(code_ok(c.b)) by {
        reveal(code_ok);
    }
}

/// The context that every compilation starts from is in order, and its
/// first free id is 10.
pub proof fn lemma_initial()
    ensures
        CtxView::initial().inv(),
        CtxView::initial().b.next_id == FIRST_FREE_ID,
        CtxView::initial().reserved == FIRST_FREE_ID,
        CtxView::initial().funs.len() == 0,
{
    lemma_initial_ids();
    lemma_bare();
    let c = bare();
    lemma_scalar_type_sound(c, ValueType::I32);
    let (c1, t_uint) = c.scalar_type(ValueType::I32);
    lemma_global_sound(c1, Op::TypeRuntimeArray, None, seq![Operand::IdRef(t_uint)]);
    let (c2, t_arr) = c1.global(Op::TypeRuntimeArray, seq![Operand::IdRef(t_uint)]);
    lemma_global_sound(c2, Op::TypeStruct, None, seq![Operand::IdRef(t_arr)]);
    let (c3, t_struct) = c2.global(Op::TypeStruct, seq![Operand::IdRef(t_arr)]);
    lemma_foreign_pointer_sound(c3, StorageClass::Uniform, t_struct);
    let (c4, t_ptr) = c3.global(
        Op::TypePointer,
        seq![Operand::StorageClass(StorageClass::Uniform), Operand::IdRef(t_struct)],
    );
    lemma_global_variable_sound(c4, t_ptr, StorageClass::Uniform);
    let (c5, buffer) = c4.variable(t_ptr, StorageClass::Uniform);
    lemma_decorate_sound(c5, t_struct, Decoration::BufferBlock, Seq::empty());
    let d1 = c5.decorate(t_struct, Decoration::BufferBlock, Seq::empty());
    lemma_decorate_sound(d1, buffer, Decoration::DescriptorSet, seq![Operand::LiteralInt32(0)]);
    let d2 = d1.decorate(buffer, Decoration::DescriptorSet, seq![Operand::LiteralInt32(0)]);
    lemma_decorate_sound(d2, buffer, Decoration::Binding, seq![Operand::LiteralInt32(0)]);
    let d3 = d2.decorate(buffer, Decoration::Binding, seq![Operand::LiteralInt32(0)]);
    lemma_decorate_sound(
        d3,
        t_arr,
        Decoration::ArrayStride,
        seq![Operand::LiteralInt32(crate::lowering::WORD_BYTES)],
    );
    let d4 = d3.decorate(
        t_arr,
        Decoration::ArrayStride,
        seq![Operand::LiteralInt32(crate::lowering::WORD_BYTES)],
    );
    lemma_member_decorate_sound(
        d4,
        t_struct,
        0,
        Decoration::Offset,
        seq![Operand::LiteralInt32(0)],
    );
    let c6 = d4.member_decorate(t_struct, 0, Decoration::Offset, seq![Operand::LiteralInt32(0)]);
    lemma_global_sound(
        c6,
        Op::TypeVector,
        None,
        seq![
            Operand::IdRef(t_uint),
            Operand::LiteralInt32(crate::lowering::THREAD_ID_COMPONENTS),
        ],
    );
    let (c7, t_uvec3) = c6.global(
        Op::TypeVector,
        seq![
            Operand::IdRef(t_uint),
            Operand::LiteralInt32(crate::lowering::THREAD_ID_COMPONENTS),
        ],
    );
    lemma_foreign_pointer_sound(c7, StorageClass::Input, t_uvec3);
    let (c8, t_uvec3_ptr) = c7.global(
        Op::TypePointer,
        seq![Operand::StorageClass(StorageClass::Input), Operand::IdRef(t_uvec3)],
    );
    lemma_global_variable_sound(c8, t_uvec3_ptr, StorageClass::Input);
    let (c9, thread_id_v3) = c8.variable(t_uvec3_ptr, StorageClass::Input);
    lemma_decorate_sound(
        c9,
        thread_id_v3,
        Decoration::BuiltIn,
        seq![Operand::BuiltIn(crate::model::BuiltIn::GlobalInvocationId)],
    );
    let c10 = c9.decorate(
        thread_id_v3,
        Decoration::BuiltIn,
        seq![Operand::BuiltIn(crate::model::BuiltIn::GlobalInvocationId)],
    );
    let last = CtxView { buffer, thread_id_v3, reserved: c10.b.next_id, ..c10 };
    assert(last == CtxView::initial());
    crate::targets::lemma_refs_at_rest(last.b);
}

/// The module that a context in order gives up can be encoded, and where an
/// entry is given it has one entry point and one execution mode.
pub proof fn lemma_finish(s: CtxView, entry: Option<u32>)
    requires
        s.inv(),
    ensures
        s.finish(entry).known(),
        s.finish(entry).header is Some,
        entry is Some ==> s.finish(entry).entry_points.len() == 1,
        entry is Some ==> s.finish(entry).execution_modes.len() == 1,
        entry is None ==> s.finish(entry).entry_points.len() == 0,
{
    reveal(code_ok);
}

} // verus!
