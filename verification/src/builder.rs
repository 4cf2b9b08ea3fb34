//! The calls into the outside module builder, each under the contract that
//! the rest of the library relies on.
//!
//! Nothing in this file is proved.  Each function makes one call into the
//! outside crate, and its contract says over [`BuilderView`] and
//! [`ModuleView`] what that call does.

use vstd::prelude::*;
use crate::model::{
    AddressingModel, BuilderView, BuiltIn, Capability, Control, Decoration, DecorationParam,
    ExecutionMode, ExecutionModel, Inst, MemoryModel, ModuleView, Op, Operand, StorageClass,
    decoration_operands, id_refs, literals,
};

verus! {

/// The outside crate's module builder.
#[verifier::external_type_specification]
#[verifier::external_body]
pub struct ExBuilder(rspirv::dr::Builder);

/// The outside crate's module.
#[verifier::external_type_specification]
#[verifier::external_body]
pub struct ExModule(rspirv::dr::Module);

/// The outside crate's error for an instruction that is out of place.
#[verifier::external_type_specification]
#[verifier::external_body]
pub struct ExBuildError(rspirv::dr::Error);

/// What a builder holds, field by field: its module, its next unused id,
/// the function and the block that are under construction, and the version
/// that was asked for.  An instruction is held as its opcode, its result
/// type, its result id and its operands; an opcode or an operand that
/// [`Op`] or [`Operand`] has no form for is held as `Other`.
pub uninterp spec fn builder_view(b: rspirv::dr::Builder) -> BuilderView;

/// What a module holds, field by field, with its instructions held as those
/// of a builder are.
pub uninterp spec fn module_view(m: rspirv::dr::Module) -> ModuleView;

/// The words that `Assemble::assemble` encodes the instructions of a module
/// to, section by section and function by function, without the header.
pub uninterp spec fn instruction_words(m: ModuleView) -> Seq<u32>;

/// `Builder::new`: a builder that holds nothing and starts its ids at 1.
#[verifier::external_body]
pub(crate) fn new_builder() -> (b: rspirv::dr::Builder)
    ensures
        builder_view(b) == BuilderView::fresh(),
{
    rspirv::dr::Builder::new()
}

/// `Builder::set_version`: records the version for the header.
#[verifier::external_body]
pub(crate) fn set_version(b: &mut rspirv::dr::Builder, major: u8, minor: u8)
    ensures
        builder_view(*final(b)) == (BuilderView {
            version: Some((major, minor)),
            ..builder_view(*old(b))
        }),
{
    b.set_version(major, minor)
}

/// `Builder::capability`: appends an `OpCapability` to the capabilities.
#[verifier::external_body]
pub(crate) fn capability(b: &mut rspirv::dr::Builder, capability: Capability)
    ensures
        builder_view(*final(b)) == builder_view(*old(b)).add_capability(
            Inst::effect(Op::Capability, seq![Operand::Capability(capability)]),
        ),
{
    b.capability(
        match capability {
            Capability::Shader => spirv_headers::Capability::Shader,
        },
    )
}

/// `Builder::ext_inst_import`: appends an `OpExtInstImport` with a fresh id
/// to the imports and returns the id.
#[verifier::external_body]
pub(crate) fn ext_inst_import(b: &mut rspirv::dr::Builder, name: &str) -> (id: u32)
    requires
        builder_view(*old(b)).next_id < u32::MAX,
    ensures
        id == builder_view(*old(b)).next_id,
        builder_view(*final(b)) == builder_view(*old(b)).take_id().add_ext_inst_import(
            Inst::definition(Op::ExtInstImport, id, seq![Operand::LiteralString(name@)]),
        ),
{
    b.ext_inst_import(name)
}

/// `Builder::memory_model`: sets the module's `OpMemoryModel`.
#[verifier::external_body]
pub(crate) fn memory_model(
    b: &mut rspirv::dr::Builder,
    addressing: AddressingModel,
    memory: MemoryModel,
)
    ensures
        builder_view(*final(b)) == builder_view(*old(b)).set_memory_model(
            Inst::effect(
                Op::MemoryModel,
                seq![Operand::AddressingModel(addressing), Operand::MemoryModel(memory)],
            ),
        ),
{
    b.memory_model(
        match addressing {
            AddressingModel::Logical => spirv_headers::AddressingModel::Logical,
        },
        match memory {
            MemoryModel::GLSL450 => spirv_headers::MemoryModel::GLSL450,
        },
    )
}

/// `Builder::entry_point`: appends an `OpEntryPoint` to the entry points.
#[verifier::external_body]
pub(crate) fn entry_point(
    b: &mut rspirv::dr::Builder,
    model: ExecutionModel,
    function: u32,
    name: &str,
    interface: &Vec<u32>,
)
    ensures
        builder_view(*final(b)) == builder_view(*old(b)).add_entry_point(
            Inst::effect(
                Op::EntryPoint,
                seq![
                    Operand::ExecutionModel(model),
                    Operand::IdRef(function),
                    Operand::LiteralString(name@),
                ] + id_refs(interface@),
            ),
        ),
{
    b.entry_point(
        match model {
            ExecutionModel::GLCompute => spirv_headers::ExecutionModel::GLCompute,
        },
        function,
        name,
        interface,
    )
}

/// `Builder::execution_mode`: appends an `OpExecutionMode` to the execution
/// modes.
#[verifier::external_body]
pub(crate) fn execution_mode(
    b: &mut rspirv::dr::Builder,
    function: u32,
    mode: ExecutionMode,
    params: &Vec<u32>,
)
    ensures
        builder_view(*final(b)) == builder_view(*old(b)).add_execution_mode(
            Inst::effect(
                Op::ExecutionMode,
                seq![Operand::IdRef(function), Operand::ExecutionMode(mode)] + literals(params@),
            ),
        ),
{
    b.execution_mode(
        function,
        match mode {
            ExecutionMode::LocalSize => spirv_headers::ExecutionMode::LocalSize,
        },
        params,
    )
}

/// `Builder::decorate`: appends an `OpDecorate` to the annotations.
#[verifier::external_body]
pub(crate) fn decorate(
    b: &mut rspirv::dr::Builder,
    target: u32,
    decoration: Decoration,
    params: &Vec<DecorationParam>,
)
    ensures
        builder_view(*final(b)) == builder_view(*old(b)).add_annotation(
            Inst::effect(
                Op::Decorate,
                seq![Operand::IdRef(target), Operand::Decoration(decoration)]
                    + decoration_operands(params@),
            ),
        ),
{
    let extra: Vec<rspirv::dr::Operand> = params.iter().map(|p| match p {
        DecorationParam::Literal(v) => rspirv::dr::Operand::LiteralInt32(*v),
        DecorationParam::BuiltIn(BuiltIn::GlobalInvocationId) =>
            rspirv::dr::Operand::BuiltIn(spirv_headers::BuiltIn::GlobalInvocationId),
    }).collect();
    let outside = match decoration {
        Decoration::BufferBlock => spirv_headers::Decoration::BufferBlock,
        Decoration::ArrayStride => spirv_headers::Decoration::ArrayStride,
        Decoration::BuiltIn => spirv_headers::Decoration::BuiltIn,
        Decoration::Binding => spirv_headers::Decoration::Binding,
        Decoration::DescriptorSet => spirv_headers::Decoration::DescriptorSet,
        Decoration::Offset => spirv_headers::Decoration::Offset,
    };
    b.decorate(target, outside, extra)
}

/// `Builder::member_decorate`: appends an `OpMemberDecorate` to the
/// annotations.
#[verifier::external_body]
pub(crate) fn member_decorate(
    b: &mut rspirv::dr::Builder,
    structure: u32,
    member: u32,
    decoration: Decoration,
    params: &Vec<DecorationParam>,
)
    ensures
        builder_view(*final(b)) == builder_view(*old(b)).add_annotation(
            Inst::effect(
                Op::MemberDecorate,
                seq![
                    Operand::IdRef(structure),
                    Operand::LiteralInt32(member),
                    Operand::Decoration(decoration),
                ] + decoration_operands(params@),
            ),
        ),
{
    let extra: Vec<rspirv::dr::Operand> = params.iter().map(|p| match p {
        DecorationParam::Literal(v) => rspirv::dr::Operand::LiteralInt32(*v),
        DecorationParam::BuiltIn(BuiltIn::GlobalInvocationId) =>
            rspirv::dr::Operand::BuiltIn(spirv_headers::BuiltIn::GlobalInvocationId),
    }).collect();
    let outside = match decoration {
        Decoration::BufferBlock => spirv_headers::Decoration::BufferBlock,
        Decoration::ArrayStride => spirv_headers::Decoration::ArrayStride,
        Decoration::BuiltIn => spirv_headers::Decoration::BuiltIn,
        Decoration::Binding => spirv_headers::Decoration::Binding,
        Decoration::DescriptorSet => spirv_headers::Decoration::DescriptorSet,
        Decoration::Offset => spirv_headers::Decoration::Offset,
    };
    b.member_decorate(structure, member, outside, extra)
}

/// `Builder::type_void`: appends an `OpTypeVoid` with a fresh id to the types and
/// returns the id.
#[verifier::external_body]
pub(crate) fn type_void(b: &mut rspirv::dr::Builder) -> (id: u32)
    requires
        builder_view(*old(b)).next_id < u32::MAX,
    ensures
        id == builder_view(*old(b)).next_id,
        builder_view(*final(b)) == builder_view(*old(b)).define_global(
            Op::TypeVoid,
            None,
            Seq::empty(),
        ),
{
    b.type_void()
}

/// `Builder::type_bool`: appends an `OpTypeBool` with a fresh id to the types and
/// returns the id.
#[verifier::external_body]
pub(crate) fn type_bool(b: &mut rspirv::dr::Builder) -> (id: u32)
    requires
        builder_view(*old(b)).next_id < u32::MAX,
    ensures
        id == builder_view(*old(b)).next_id,
        builder_view(*final(b)) == builder_view(*old(b)).define_global(
            Op::TypeBool,
            None,
            Seq::empty(),
        ),
{
    b.type_bool()
}

/// `Builder::type_int`: appends an `OpTypeInt` with a fresh id to the types and
/// returns the id.
#[verifier::external_body]
pub(crate) fn type_int(b: &mut rspirv::dr::Builder, width: u32, signedness: u32) -> (id: u32)
    requires
        builder_view(*old(b)).next_id < u32::MAX,
    ensures
        id == builder_view(*old(b)).next_id,
        builder_view(*final(b)) == builder_view(*old(b)).define_global(
            Op::TypeInt,
            None,
            seq![Operand::LiteralInt32(width), Operand::LiteralInt32(signedness)],
        ),
{
    b.type_int(width, signedness)
}

/// `Builder::type_float`: appends an `OpTypeFloat` with a fresh id to the types and
/// returns the id.
#[verifier::external_body]
pub(crate) fn type_float(b: &mut rspirv::dr::Builder, width: u32) -> (id: u32)
    requires
        builder_view(*old(b)).next_id < u32::MAX,
    ensures
        id == builder_view(*old(b)).next_id,
        builder_view(*final(b)) == builder_view(*old(b)).define_global(
            Op::TypeFloat,
            None,
            seq![Operand::LiteralInt32(width)],
        ),
{
    b.type_float(width)
}

/// `Builder::type_vector`: appends an `OpTypeVector` with a fresh id to the types and
/// returns the id.
#[verifier::external_body]
pub(crate) fn type_vector(b: &mut rspirv::dr::Builder, component: u32, count: u32) -> (id: u32)
    requires
        builder_view(*old(b)).next_id < u32::MAX,
    ensures
        id == builder_view(*old(b)).next_id,
        builder_view(*final(b)) == builder_view(*old(b)).define_global(
            Op::TypeVector,
            None,
            seq![Operand::IdRef(component), Operand::LiteralInt32(count)],
        ),
{
    b.type_vector(component, count)
}

/// `Builder::type_runtime_array`: appends an `OpTypeRuntimeArray` with a fresh id to
/// the types and returns the id.
#[verifier::external_body]
pub(crate) fn type_runtime_array(b: &mut rspirv::dr::Builder, element: u32) -> (id: u32)
    requires
        builder_view(*old(b)).next_id < u32::MAX,
    ensures
        id == builder_view(*old(b)).next_id,
        builder_view(*final(b)) == builder_view(*old(b)).define_global(
            Op::TypeRuntimeArray,
            None,
            seq![Operand::IdRef(element)],
        ),
{
    b.type_runtime_array(element)
}

/// `Builder::type_struct`: appends an `OpTypeStruct` with a fresh id to the types
/// and returns the id.
#[verifier::external_body]
pub(crate) fn type_struct(b: &mut rspirv::dr::Builder, members: &Vec<u32>) -> (id: u32)
    requires
        builder_view(*old(b)).next_id < u32::MAX,
    ensures
        id == builder_view(*old(b)).next_id,
        builder_view(*final(b)) == builder_view(*old(b)).define_global(
            Op::TypeStruct,
            None,
            id_refs(members@),
        ),
{
    b.type_struct(members)
}

/// `Builder::type_function`: appends an `OpTypeFunction` with a fresh id to the
/// types and returns the id.
#[verifier::external_body]
pub(crate) fn type_function(b: &mut rspirv::dr::Builder, return_type: u32, params: &Vec<u32>) -> (id: u32)
    requires
        builder_view(*old(b)).next_id < u32::MAX,
    ensures
        id == builder_view(*old(b)).next_id,
        builder_view(*final(b)) == builder_view(*old(b)).define_global(
            Op::TypeFunction,
            None,
            seq![Operand::IdRef(return_type)] + id_refs(params@),
        ),
{
    b.type_function(return_type, params)
}

/// `Builder::type_pointer`: appends an `OpTypePointer` with a fresh id to the
/// types and returns the id.
#[verifier::external_body]
pub(crate) fn type_pointer(b: &mut rspirv::dr::Builder, class: StorageClass, pointee: u32) -> (id:
    u32)
    requires
        builder_view(*old(b)).next_id < u32::MAX,
    ensures
        id == builder_view(*old(b)).next_id,
        builder_view(*final(b)) == builder_view(*old(b)).define_global(
            Op::TypePointer,
            None,
            seq![Operand::StorageClass(class), Operand::IdRef(pointee)],
        ),
{
    let outside = match class {
        StorageClass::Input => spirv_headers::StorageClass::Input,
        StorageClass::Uniform => spirv_headers::StorageClass::Uniform,
        StorageClass::Function => spirv_headers::StorageClass::Function,
    };
    b.type_pointer(None, outside, pointee)
}

/// `Builder::constant_u32`: appends an `OpConstant` with a fresh id to the globals
/// and returns the id.
#[verifier::external_body]
pub(crate) fn constant_u32(b: &mut rspirv::dr::Builder, result_type: u32, value: u32) -> (id: u32)
    requires
        builder_view(*old(b)).next_id < u32::MAX,
    ensures
        id == builder_view(*old(b)).next_id,
        builder_view(*final(b)) == builder_view(*old(b)).define_global(
            Op::Constant,
            Some(result_type),
            seq![Operand::LiteralInt32(value)],
        ),
{
    b.constant_u32(result_type, value)
}

/// `Builder::variable`: appends an `OpVariable` with a fresh id, to the open
/// block if there is one and else to the globals, and returns the id.
#[verifier::external_body]
pub(crate) fn variable(b: &mut rspirv::dr::Builder, result_type: u32, class: StorageClass) -> (id:
    u32)
    requires
        builder_view(*old(b)).next_id < u32::MAX,
    ensures
        id == builder_view(*old(b)).next_id,
        builder_view(*final(b)) == builder_view(*old(b)).declare_variable(result_type, class),
{
    let outside = match class {
        StorageClass::Input => spirv_headers::StorageClass::Input,
        StorageClass::Uniform => spirv_headers::StorageClass::Uniform,
        StorageClass::Function => spirv_headers::StorageClass::Function,
    };
    b.variable(result_type, None, outside, None)
}

/// `Builder::id`: hands out the next unused id.
#[verifier::external_body]
pub(crate) fn fresh_id(b: &mut rspirv::dr::Builder) -> (id: u32)
    requires
        builder_view(*old(b)).next_id < u32::MAX,
    ensures
        id == builder_view(*old(b)).next_id,
        builder_view(*final(b)) == builder_view(*old(b)).take_id(),
{
    b.id()
}

/// `Builder::begin_function`: begins a function under a fresh id and returns
/// the id; fails, changing nothing, where a function is open already.
#[verifier::external_body]
pub(crate) fn begin_function(
    b: &mut rspirv::dr::Builder,
    return_type: u32,
    control: Control,
    function_type: u32,
) -> (r: Result<u32, rspirv::dr::Error>)
    requires
        builder_view(*old(b)).next_id < u32::MAX,
    ensures
        r is Ok <==> builder_view(*old(b)).function is None,
        r matches Ok(id) ==> id == builder_view(*old(b)).next_id,
        builder_view(*final(b)) == builder_view(*old(b)).begin_function(
            return_type,
            control,
            function_type,
        ),
{
    let outside = match control {
        Control::Unset => spirv_headers::FunctionControl::NONE,
    };
    b.begin_function(return_type, None, outside, function_type)
}

/// `Builder::end_function`: ends the open function and appends it to the
/// module; fails, changing nothing, where no function is open.
#[verifier::external_body]
pub(crate) fn end_function(b: &mut rspirv::dr::Builder) -> (r: Result<(), rspirv::dr::Error>)
    ensures
        r is Ok <==> builder_view(*old(b)).function is Some,
        builder_view(*final(b)) == builder_view(*old(b)).close_function(),
{
    b.end_function()
}

/// `Builder::function_parameter`: declares a parameter of the open function
/// under a fresh id and returns the id; fails, changing nothing, where no
/// function is open.
#[verifier::external_body]
pub(crate) fn function_parameter(b: &mut rspirv::dr::Builder, result_type: u32) -> (r: Result<
    u32,
    rspirv::dr::Error,
>)
    requires
        builder_view(*old(b)).next_id < u32::MAX,
    ensures
        r is Ok <==> builder_view(*old(b)).function is Some,
        r matches Ok(id) ==> id == builder_view(*old(b)).next_id,
        builder_view(*final(b)) == builder_view(*old(b)).declare_parameter(result_type),
{
    b.function_parameter(result_type)
}

/// `Builder::begin_block`: begins a block under the given label, or under a
/// fresh id where none is given, and returns the label; fails, changing
/// nothing, where no function is open or a block is open already.
#[verifier::external_body]
pub(crate) fn begin_block(b: &mut rspirv::dr::Builder, label: Option<u32>) -> (r: Result<
    u32,
    rspirv::dr::Error,
>)
    requires
        label is None ==> builder_view(*old(b)).next_id < u32::MAX,
    ensures
        r is Ok <==> builder_view(*old(b)).can_begin_block(),
        r matches Ok(id) ==> id == (match label {
            Some(l) => l,
            None => builder_view(*old(b)).next_id,
        }),
        builder_view(*final(b)) == builder_view(*old(b)).begin_block(label),
{
    b.begin_block(label)
}

/// `Builder::function_call`: appends an `OpFunctionCall` with a fresh id to the open block
/// and returns the id; fails, changing nothing, where no block is open.
#[verifier::external_body]
pub(crate) fn function_call(b: &mut rspirv::dr::Builder, result_type: u32, function: u32, args: &Vec<u32>) -> (r: Result<
    u32,
    rspirv::dr::Error,
>)
    requires
        builder_view(*old(b)).next_id < u32::MAX,
    ensures
        r is Ok <==> builder_view(*old(b)).block is Some,
        r matches Ok(id) ==> id == builder_view(*old(b)).next_id,
        builder_view(*final(b)) == builder_view(*old(b)).emit_value(
            Op::FunctionCall,
            result_type,
            seq![Operand::IdRef(function)] + id_refs(args@),
        ),
{
    b.function_call(result_type, None, function, args)
}

/// `Builder::load`: appends an `OpLoad` with a fresh id to the open block
/// and returns the id; fails, changing nothing, where no block is open.
#[verifier::external_body]
pub(crate) fn load(b: &mut rspirv::dr::Builder, result_type: u32, pointer: u32) -> (r: Result<
    u32,
    rspirv::dr::Error,
>)
    requires
        builder_view(*old(b)).next_id < u32::MAX,
    ensures
        r is Ok <==> builder_view(*old(b)).block is Some,
        r matches Ok(id) ==> id == builder_view(*old(b)).next_id,
        builder_view(*final(b)) == builder_view(*old(b)).emit_value(
            Op::Load,
            result_type,
            seq![Operand::IdRef(pointer)],
        ),
{
    b.load(result_type, None, pointer, None, [])
}

/// `Builder::store`: appends an `OpStore` to the open block; fails, changing
/// nothing, where no block is open.
#[verifier::external_body]
pub(crate) fn store(b: &mut rspirv::dr::Builder, pointer: u32, object: u32) -> (r: Result<(), rspirv::dr::Error>)
    ensures
        r is Ok <==> builder_view(*old(b)).block is Some,
        builder_view(*final(b)) == builder_view(*old(b)).emit_effect(
            Op::Store,
            seq![Operand::IdRef(pointer), Operand::IdRef(object)],
        ),
{
    b.store(pointer, object, None, [])
}

/// `Builder::access_chain`: appends an `OpAccessChain` with a fresh id to the open block
/// and returns the id; fails, changing nothing, where no block is open.
#[verifier::external_body]
pub(crate) fn access_chain(b: &mut rspirv::dr::Builder, result_type: u32, base: u32, indexes: &Vec<u32>) -> (r: Result<
    u32,
    rspirv::dr::Error,
>)
    requires
        builder_view(*old(b)).next_id < u32::MAX,
    ensures
        r is Ok <==> builder_view(*old(b)).block is Some,
        r matches Ok(id) ==> id == builder_view(*old(b)).next_id,
        builder_view(*final(b)) == builder_view(*old(b)).emit_value(
            Op::AccessChain,
            result_type,
            seq![Operand::IdRef(base)] + id_refs(indexes@),
        ),
{
    b.access_chain(result_type, None, base, indexes)
}

/// `Builder::i_mul`: appends an `OpIMul` with a fresh id to the open block
/// and returns the id; fails, changing nothing, where no block is open.
#[verifier::external_body]
pub(crate) fn i_mul(b: &mut rspirv::dr::Builder, result_type: u32, lhs: u32, rhs: u32) -> (r: Result<
    u32,
    rspirv::dr::Error,
>)
    requires
        builder_view(*old(b)).next_id < u32::MAX,
    ensures
        r is Ok <==> builder_view(*old(b)).block is Some,
        r matches Ok(id) ==> id == builder_view(*old(b)).next_id,
        builder_view(*final(b)) == builder_view(*old(b)).emit_value(
            Op::IMul,
            result_type,
            seq![Operand::IdRef(lhs), Operand::IdRef(rhs)],
        ),
{
    b.i_mul(result_type, None, lhs, rhs)
}

/// `Builder::i_add`: appends an `OpIAdd` with a fresh id to the open block
/// and returns the id; fails, changing nothing, where no block is open.
#[verifier::external_body]
pub(crate) fn i_add(b: &mut rspirv::dr::Builder, result_type: u32, lhs: u32, rhs: u32) -> (r: Result<
    u32,
    rspirv::dr::Error,
>)
    requires
        builder_view(*old(b)).next_id < u32::MAX,
    ensures
        r is Ok <==> builder_view(*old(b)).block is Some,
        r matches Ok(id) ==> id == builder_view(*old(b)).next_id,
        builder_view(*final(b)) == builder_view(*old(b)).emit_value(
            Op::IAdd,
            result_type,
            seq![Operand::IdRef(lhs), Operand::IdRef(rhs)],
        ),
{
    b.i_add(result_type, None, lhs, rhs)
}

/// `Builder::i_sub`: appends an `OpISub` with a fresh id to the open block
/// and returns the id; fails, changing nothing, where no block is open.
#[verifier::external_body]
pub(crate) fn i_sub(b: &mut rspirv::dr::Builder, result_type: u32, lhs: u32, rhs: u32) -> (r: Result<
    u32,
    rspirv::dr::Error,
>)
    requires
        builder_view(*old(b)).next_id < u32::MAX,
    ensures
        r is Ok <==> builder_view(*old(b)).block is Some,
        r matches Ok(id) ==> id == builder_view(*old(b)).next_id,
        builder_view(*final(b)) == builder_view(*old(b)).emit_value(
            Op::ISub,
            result_type,
            seq![Operand::IdRef(lhs), Operand::IdRef(rhs)],
        ),
{
    b.i_sub(result_type, None, lhs, rhs)
}

/// `Builder::shift_left_logical`: appends an `OpShiftLeftLogical` with a fresh id to the open block
/// and returns the id; fails, changing nothing, where no block is open.
#[verifier::external_body]
pub(crate) fn shift_left_logical(b: &mut rspirv::dr::Builder, result_type: u32, lhs: u32, rhs: u32) -> (r: Result<
    u32,
    rspirv::dr::Error,
>)
    requires
        builder_view(*old(b)).next_id < u32::MAX,
    ensures
        r is Ok <==> builder_view(*old(b)).block is Some,
        r matches Ok(id) ==> id == builder_view(*old(b)).next_id,
        builder_view(*final(b)) == builder_view(*old(b)).emit_value(
            Op::ShiftLeftLogical,
            result_type,
            seq![Operand::IdRef(lhs), Operand::IdRef(rhs)],
        ),
{
    b.shift_left_logical(result_type, None, lhs, rhs)
}

/// `Builder::shift_right_arithmetic`: appends an `OpShiftRightArithmetic` with a fresh id to the open block
/// and returns the id; fails, changing nothing, where no block is open.
#[verifier::external_body]
pub(crate) fn shift_right_arithmetic(b: &mut rspirv::dr::Builder, result_type: u32, lhs: u32, rhs: u32) -> (r: Result<
    u32,
    rspirv::dr::Error,
>)
    requires
        builder_view(*old(b)).next_id < u32::MAX,
    ensures
        r is Ok <==> builder_view(*old(b)).block is Some,
        r matches Ok(id) ==> id == builder_view(*old(b)).next_id,
        builder_view(*final(b)) == builder_view(*old(b)).emit_value(
            Op::ShiftRightArithmetic,
            result_type,
            seq![Operand::IdRef(lhs), Operand::IdRef(rhs)],
        ),
{
    b.shift_right_arithmetic(result_type, None, lhs, rhs)
}

/// `Builder::shift_right_logical`: appends an `OpShiftRightLogical` with a fresh id to the open block
/// and returns the id; fails, changing nothing, where no block is open.
#[verifier::external_body]
pub(crate) fn shift_right_logical(b: &mut rspirv::dr::Builder, result_type: u32, lhs: u32, rhs: u32) -> (r: Result<
    u32,
    rspirv::dr::Error,
>)
    requires
        builder_view(*old(b)).next_id < u32::MAX,
    ensures
        r is Ok <==> builder_view(*old(b)).block is Some,
        r matches Ok(id) ==> id == builder_view(*old(b)).next_id,
        builder_view(*final(b)) == builder_view(*old(b)).emit_value(
            Op::ShiftRightLogical,
            result_type,
            seq![Operand::IdRef(lhs), Operand::IdRef(rhs)],
        ),
{
    b.shift_right_logical(result_type, None, lhs, rhs)
}

/// `Builder::u_div`: appends an `OpUDiv` with a fresh id to the open block
/// and returns the id; fails, changing nothing, where no block is open.
#[verifier::external_body]
pub(crate) fn u_div(b: &mut rspirv::dr::Builder, result_type: u32, lhs: u32, rhs: u32) -> (r: Result<
    u32,
    rspirv::dr::Error,
>)
    requires
        builder_view(*old(b)).next_id < u32::MAX,
    ensures
        r is Ok <==> builder_view(*old(b)).block is Some,
        r matches Ok(id) ==> id == builder_view(*old(b)).next_id,
        builder_view(*final(b)) == builder_view(*old(b)).emit_value(
            Op::UDiv,
            result_type,
            seq![Operand::IdRef(lhs), Operand::IdRef(rhs)],
        ),
{
    b.u_div(result_type, None, lhs, rhs)
}

/// `Builder::s_div`: appends an `OpSDiv` with a fresh id to the open block
/// and returns the id; fails, changing nothing, where no block is open.
#[verifier::external_body]
pub(crate) fn s_div(b: &mut rspirv::dr::Builder, result_type: u32, lhs: u32, rhs: u32) -> (r: Result<
    u32,
    rspirv::dr::Error,
>)
    requires
        builder_view(*old(b)).next_id < u32::MAX,
    ensures
        r is Ok <==> builder_view(*old(b)).block is Some,
        r matches Ok(id) ==> id == builder_view(*old(b)).next_id,
        builder_view(*final(b)) == builder_view(*old(b)).emit_value(
            Op::SDiv,
            result_type,
            seq![Operand::IdRef(lhs), Operand::IdRef(rhs)],
        ),
{
    b.s_div(result_type, None, lhs, rhs)
}

/// `Builder::i_equal`: appends an `OpIEqual` with a fresh id to the open block
/// and returns the id; fails, changing nothing, where no block is open.
#[verifier::external_body]
pub(crate) fn i_equal(b: &mut rspirv::dr::Builder, result_type: u32, lhs: u32, rhs: u32) -> (r: Result<
    u32,
    rspirv::dr::Error,
>)
    requires
        builder_view(*old(b)).next_id < u32::MAX,
    ensures
        r is Ok <==> builder_view(*old(b)).block is Some,
        r matches Ok(id) ==> id == builder_view(*old(b)).next_id,
        builder_view(*final(b)) == builder_view(*old(b)).emit_value(
            Op::IEqual,
            result_type,
            seq![Operand::IdRef(lhs), Operand::IdRef(rhs)],
        ),
{
    b.i_equal(result_type, None, lhs, rhs)
}

/// `Builder::i_not_equal`: appends an `OpINotEqual` with a fresh id to the open block
/// and returns the id; fails, changing nothing, where no block is open.
#[verifier::external_body]
pub(crate) fn i_not_equal(b: &mut rspirv::dr::Builder, result_type: u32, lhs: u32, rhs: u32) -> (r: Result<
    u32,
    rspirv::dr::Error,
>)
    requires
        builder_view(*old(b)).next_id < u32::MAX,
    ensures
        r is Ok <==> builder_view(*old(b)).block is Some,
        r matches Ok(id) ==> id == builder_view(*old(b)).next_id,
        builder_view(*final(b)) == builder_view(*old(b)).emit_value(
            Op::INotEqual,
            result_type,
            seq![Operand::IdRef(lhs), Operand::IdRef(rhs)],
        ),
{
    b.i_not_equal(result_type, None, lhs, rhs)
}

/// `Builder::u_less_than_equal`: appends an `OpULessThanEqual` with a fresh id to the open block
/// and returns the id; fails, changing nothing, where no block is open.
#[verifier::external_body]
pub(crate) fn u_less_than_equal(b: &mut rspirv::dr::Builder, result_type: u32, lhs: u32, rhs: u32) -> (r: Result<
    u32,
    rspirv::dr::Error,
>)
    requires
        builder_view(*old(b)).next_id < u32::MAX,
    ensures
        r is Ok <==> builder_view(*old(b)).block is Some,
        r matches Ok(id) ==> id == builder_view(*old(b)).next_id,
        builder_view(*final(b)) == builder_view(*old(b)).emit_value(
            Op::ULessThanEqual,
            result_type,
            seq![Operand::IdRef(lhs), Operand::IdRef(rhs)],
        ),
{
    b.u_less_than_equal(result_type, None, lhs, rhs)
}

/// `Builder::u_greater_than_equal`: appends an `OpUGreaterThanEqual` with a fresh id to the open block
/// and returns the id; fails, changing nothing, where no block is open.
#[verifier::external_body]
pub(crate) fn u_greater_than_equal(b: &mut rspirv::dr::Builder, result_type: u32, lhs: u32, rhs: u32) -> (r: Result<
    u32,
    rspirv::dr::Error,
>)
    requires
        builder_view(*old(b)).next_id < u32::MAX,
    ensures
        r is Ok <==> builder_view(*old(b)).block is Some,
        r matches Ok(id) ==> id == builder_view(*old(b)).next_id,
        builder_view(*final(b)) == builder_view(*old(b)).emit_value(
            Op::UGreaterThanEqual,
            result_type,
            seq![Operand::IdRef(lhs), Operand::IdRef(rhs)],
        ),
{
    b.u_greater_than_equal(result_type, None, lhs, rhs)
}

/// `Builder::u_less_than`: appends an `OpULessThan` with a fresh id to the open block
/// and returns the id; fails, changing nothing, where no block is open.
#[verifier::external_body]
pub(crate) fn u_less_than(b: &mut rspirv::dr::Builder, result_type: u32, lhs: u32, rhs: u32) -> (r: Result<
    u32,
    rspirv::dr::Error,
>)
    requires
        builder_view(*old(b)).next_id < u32::MAX,
    ensures
        r is Ok <==> builder_view(*old(b)).block is Some,
        r matches Ok(id) ==> id == builder_view(*old(b)).next_id,
        builder_view(*final(b)) == builder_view(*old(b)).emit_value(
            Op::ULessThan,
            result_type,
            seq![Operand::IdRef(lhs), Operand::IdRef(rhs)],
        ),
{
    b.u_less_than(result_type, None, lhs, rhs)
}

/// `Builder::u_greater_than`: appends an `OpUGreaterThan` with a fresh id to the open block
/// and returns the id; fails, changing nothing, where no block is open.
#[verifier::external_body]
pub(crate) fn u_greater_than(b: &mut rspirv::dr::Builder, result_type: u32, lhs: u32, rhs: u32) -> (r: Result<
    u32,
    rspirv::dr::Error,
>)
    requires
        builder_view(*old(b)).next_id < u32::MAX,
    ensures
        r is Ok <==> builder_view(*old(b)).block is Some,
        r matches Ok(id) ==> id == builder_view(*old(b)).next_id,
        builder_view(*final(b)) == builder_view(*old(b)).emit_value(
            Op::UGreaterThan,
            result_type,
            seq![Operand::IdRef(lhs), Operand::IdRef(rhs)],
        ),
{
    b.u_greater_than(result_type, None, lhs, rhs)
}

/// `Builder::s_less_than_equal`: appends an `OpSLessThanEqual` with a fresh id to the open block
/// and returns the id; fails, changing nothing, where no block is open.
#[verifier::external_body]
pub(crate) fn s_less_than_equal(b: &mut rspirv::dr::Builder, result_type: u32, lhs: u32, rhs: u32) -> (r: Result<
    u32,
    rspirv::dr::Error,
>)
    requires
        builder_view(*old(b)).next_id < u32::MAX,
    ensures
        r is Ok <==> builder_view(*old(b)).block is Some,
        r matches Ok(id) ==> id == builder_view(*old(b)).next_id,
        builder_view(*final(b)) == builder_view(*old(b)).emit_value(
            Op::SLessThanEqual,
            result_type,
            seq![Operand::IdRef(lhs), Operand::IdRef(rhs)],
        ),
{
    b.s_less_than_equal(result_type, None, lhs, rhs)
}

/// `Builder::s_greater_than_equal`: appends an `OpSGreaterThanEqual` with a fresh id to the open block
/// and returns the id; fails, changing nothing, where no block is open.
#[verifier::external_body]
pub(crate) fn s_greater_than_equal(b: &mut rspirv::dr::Builder, result_type: u32, lhs: u32, rhs: u32) -> (r: Result<
    u32,
    rspirv::dr::Error,
>)
    requires
        builder_view(*old(b)).next_id < u32::MAX,
    ensures
        r is Ok <==> builder_view(*old(b)).block is Some,
        r matches Ok(id) ==> id == builder_view(*old(b)).next_id,
        builder_view(*final(b)) == builder_view(*old(b)).emit_value(
            Op::SGreaterThanEqual,
            result_type,
            seq![Operand::IdRef(lhs), Operand::IdRef(rhs)],
        ),
{
    b.s_greater_than_equal(result_type, None, lhs, rhs)
}

/// `Builder::s_less_than`: appends an `OpSLessThan` with a fresh id to the open block
/// and returns the id; fails, changing nothing, where no block is open.
#[verifier::external_body]
pub(crate) fn s_less_than(b: &mut rspirv::dr::Builder, result_type: u32, lhs: u32, rhs: u32) -> (r: Result<
    u32,
    rspirv::dr::Error,
>)
    requires
        builder_view(*old(b)).next_id < u32::MAX,
    ensures
        r is Ok <==> builder_view(*old(b)).block is Some,
        r matches Ok(id) ==> id == builder_view(*old(b)).next_id,
        builder_view(*final(b)) == builder_view(*old(b)).emit_value(
            Op::SLessThan,
            result_type,
            seq![Operand::IdRef(lhs), Operand::IdRef(rhs)],
        ),
{
    b.s_less_than(result_type, None, lhs, rhs)
}

/// `Builder::s_greater_than`: appends an `OpSGreaterThan` with a fresh id to the open block
/// and returns the id; fails, changing nothing, where no block is open.
#[verifier::external_body]
pub(crate) fn s_greater_than(b: &mut rspirv::dr::Builder, result_type: u32, lhs: u32, rhs: u32) -> (r: Result<
    u32,
    rspirv::dr::Error,
>)
    requires
        builder_view(*old(b)).next_id < u32::MAX,
    ensures
        r is Ok <==> builder_view(*old(b)).block is Some,
        r matches Ok(id) ==> id == builder_view(*old(b)).next_id,
        builder_view(*final(b)) == builder_view(*old(b)).emit_value(
            Op::SGreaterThan,
            result_type,
            seq![Operand::IdRef(lhs), Operand::IdRef(rhs)],
        ),
{
    b.s_greater_than(result_type, None, lhs, rhs)
}

/// `Builder::select`: appends an `OpSelect` with a fresh id to the open block
/// and returns the id; fails, changing nothing, where no block is open.
#[verifier::external_body]
pub(crate) fn select(b: &mut rspirv::dr::Builder, result_type: u32, condition: u32, object_1: u32, object_2: u32) -> (r: Result<
    u32,
    rspirv::dr::Error,
>)
    requires
        builder_view(*old(b)).next_id < u32::MAX,
    ensures
        r is Ok <==> builder_view(*old(b)).block is Some,
        r matches Ok(id) ==> id == builder_view(*old(b)).next_id,
        builder_view(*final(b)) == builder_view(*old(b)).emit_value(
            Op::Select,
            result_type,
            seq![Operand::IdRef(condition), Operand::IdRef(object_1), Operand::IdRef(object_2)],
        ),
{
    b.select(result_type, None, condition, object_1, object_2)
}

/// `Builder::selection_merge`: appends an `OpSelectionMerge` to the open block; fails, changing
/// nothing, where no block is open.
#[verifier::external_body]
pub(crate) fn selection_merge(b: &mut rspirv::dr::Builder, merge: u32, control: Control) -> (r: Result<(), rspirv::dr::Error>)
    ensures
        r is Ok <==> builder_view(*old(b)).block is Some,
        builder_view(*final(b)) == builder_view(*old(b)).emit_effect(
            Op::SelectionMerge,
            seq![Operand::IdRef(merge), Operand::SelectionControl(control)],
        ),
{
    let outside = match control {
        Control::Unset => spirv_headers::SelectionControl::NONE,
    };
    b.selection_merge(merge, outside)
}

/// `Builder::loop_merge`: appends an `OpLoopMerge` to the open block; fails, changing
/// nothing, where no block is open.
#[verifier::external_body]
pub(crate) fn loop_merge(b: &mut rspirv::dr::Builder, merge: u32, continue_target: u32, control: Control) -> (r: Result<(), rspirv::dr::Error>)
    ensures
        r is Ok <==> builder_view(*old(b)).block is Some,
        builder_view(*final(b)) == builder_view(*old(b)).emit_effect(
            Op::LoopMerge,
            seq![
                Operand::IdRef(merge),
                Operand::IdRef(continue_target),
                Operand::LoopControl(control),
            ],
        ),
{
    let outside = match control {
        Control::Unset => spirv_headers::LoopControl::NONE,
    };
    b.loop_merge(merge, continue_target, outside, [])
}

/// `Builder::branch`: ends the open block with an `OpBranch` and appends the
/// block to the open function; fails, changing nothing, where no block is
/// open.
#[verifier::external_body]
pub(crate) fn branch(b: &mut rspirv::dr::Builder, target: u32) -> (r: Result<(), rspirv::dr::Error>)
    requires
        builder_view(*old(b)).block is Some ==> builder_view(*old(b)).function is Some,
    ensures
        r is Ok <==> builder_view(*old(b)).block is Some,
        builder_view(*final(b)) == builder_view(*old(b)).terminate(
            Op::Branch,
            seq![Operand::IdRef(target)],
        ),
{
    b.branch(target)
}

/// `Builder::branch_conditional`: ends the open block with an `OpBranchConditional` and appends the
/// block to the open function; fails, changing nothing, where no block is
/// open.
#[verifier::external_body]
pub(crate) fn branch_conditional(b: &mut rspirv::dr::Builder, condition: u32, if_true: u32, if_false: u32) -> (r: Result<(), rspirv::dr::Error>)
    requires
        builder_view(*old(b)).block is Some ==> builder_view(*old(b)).function is Some,
    ensures
        r is Ok <==> builder_view(*old(b)).block is Some,
        builder_view(*final(b)) == builder_view(*old(b)).terminate(
            Op::BranchConditional,
            seq![Operand::IdRef(condition), Operand::IdRef(if_true), Operand::IdRef(if_false)],
        ),
{
    b.branch_conditional(condition, if_true, if_false, [])
}

/// `Builder::ret`: ends the open block with an `OpReturn` and appends the
/// block to the open function; fails, changing nothing, where no block is
/// open.
#[verifier::external_body]
pub(crate) fn ret(b: &mut rspirv::dr::Builder) -> (r: Result<(), rspirv::dr::Error>)
    requires
        builder_view(*old(b)).block is Some ==> builder_view(*old(b)).function is Some,
    ensures
        r is Ok <==> builder_view(*old(b)).block is Some,
        builder_view(*final(b)) == builder_view(*old(b)).terminate(
            Op::Return,
            Seq::empty(),
        ),
{
    b.ret()
}

/// `Builder::ret_value`: ends the open block with an `OpReturnValue` and appends the
/// block to the open function; fails, changing nothing, where no block is
/// open.
#[verifier::external_body]
pub(crate) fn ret_value(b: &mut rspirv::dr::Builder, value: u32) -> (r: Result<(), rspirv::dr::Error>)
    requires
        builder_view(*old(b)).block is Some ==> builder_view(*old(b)).function is Some,
    ensures
        r is Ok <==> builder_view(*old(b)).block is Some,
        builder_view(*final(b)) == builder_view(*old(b)).terminate(
            Op::ReturnValue,
            seq![Operand::IdRef(value)],
        ),
{
    b.ret_value(value)
}

/// `Builder::module`: gives up the module, under a header that carries the
/// magic number, the version asked for (1.4 where none was), the generator
/// word and the next unused id as the bound.
#[verifier::external_body]
pub(crate) fn into_module(b: rspirv::dr::Builder) -> (m: rspirv::dr::Module)
    ensures
        module_view(m) == builder_view(b).finished(),
{
    b.module()
}

/// `Assemble::assemble` of a module: the words of the header, if there is
/// one, and then the words of the instructions.  The call does not return on
/// an operand that it cannot encode, which is why every instruction has to
/// be known.
#[verifier::external_body]
pub(crate) fn assemble(m: &rspirv::dr::Module) -> (words: Vec<u32>)
    requires
        module_view(*m).known(),
    ensures
        words@ == module_view(*m).header_words() + instruction_words(module_view(*m)),
{
    rspirv::binary::Assemble::assemble(m)
}

} // verus!
