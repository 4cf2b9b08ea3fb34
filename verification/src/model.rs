//! A mathematical picture of a SPIR-V module under construction.
//!
//! The module builder and the finished module are held by an outside crate
//! and cannot be looked into from verified code.  Contracts therefore speak
//! of the values defined here: instructions as plain data, the sections of a
//! module as sequences of instructions, and the builder as a module together
//! with the function and block that are still open.

use vstd::prelude::*;

verus! {

/// Capabilities a module can declare.
#[derive(Clone, Copy, Debug, PartialEq, Eq)]
pub enum Capability {
    Shader,
}

/// Addressing models.
#[derive(Clone, Copy, Debug, PartialEq, Eq)]
pub enum AddressingModel {
    Logical,
}

/// Memory models.
#[derive(Clone, Copy, Debug, PartialEq, Eq)]
pub enum MemoryModel {
    GLSL450,
}

/// Execution models of an entry point.
#[derive(Clone, Copy, Debug, PartialEq, Eq)]
pub enum ExecutionModel {
    GLCompute,
}

/// Execution modes of an entry point.
#[derive(Clone, Copy, Debug, PartialEq, Eq)]
pub enum ExecutionMode {
    LocalSize,
}

/// Storage classes of pointers and variables.
#[derive(Clone, Copy, Debug, PartialEq, Eq)]
pub enum StorageClass {
    Input,
    Uniform,
    Function,
}

/// Decorations attached to ids and struct members.
#[derive(Clone, Copy, Debug, PartialEq, Eq)]
pub enum Decoration {
    BufferBlock,
    ArrayStride,
    BuiltIn,
    Binding,
    DescriptorSet,
    Offset,
}

/// Built-in variables.
#[derive(Clone, Copy, Debug, PartialEq, Eq)]
pub enum BuiltIn {
    GlobalInvocationId,
}

/// Control masks of functions, selections and loops.  Only the empty mask
/// is ever emitted.
#[derive(Clone, Copy, Debug, PartialEq, Eq)]
pub enum Control {
    Unset,
}

/// An extra operand of a decoration.
#[derive(Clone, Copy, Debug, PartialEq, Eq)]
pub enum DecorationParam {
    Literal(u32),
    BuiltIn(BuiltIn),
}

/// Opcodes of the instructions this library emits.  `Other` stands for
/// every opcode that is not listed.
pub enum Op {
    Capability,
    ExtInstImport,
    MemoryModel,
    EntryPoint,
    ExecutionMode,
    Decorate,
    MemberDecorate,
    TypeVoid,
    TypeBool,
    TypeInt,
    TypeFloat,
    TypeVector,
    TypeRuntimeArray,
    TypeStruct,
    TypePointer,
    TypeFunction,
    Constant,
    Variable,
    Function,
    FunctionParameter,
    FunctionEnd,
    FunctionCall,
    Label,
    Load,
    Store,
    AccessChain,
    IMul,
    IAdd,
    ISub,
    ShiftLeftLogical,
    ShiftRightArithmetic,
    ShiftRightLogical,
    UDiv,
    SDiv,
    IEqual,
    INotEqual,
    ULessThanEqual,
    UGreaterThanEqual,
    ULessThan,
    UGreaterThan,
    SLessThanEqual,
    SGreaterThanEqual,
    SLessThan,
    SGreaterThan,
    Select,
    SelectionMerge,
    LoopMerge,
    Branch,
    BranchConditional,
    Return,
    ReturnValue,
    Other,
}

/// One operand of an instruction.  `Other` stands for every operand that
/// none of the listed forms describes.
pub enum Operand {
    IdRef(u32),
    LiteralInt32(u32),
    LiteralString(Seq<char>),
    Capability(Capability),
    AddressingModel(AddressingModel),
    MemoryModel(MemoryModel),
    ExecutionModel(ExecutionModel),
    ExecutionMode(ExecutionMode),
    StorageClass(StorageClass),
    Decoration(Decoration),
    BuiltIn(BuiltIn),
    FunctionControl(Control),
    SelectionControl(Control),
    LoopControl(Control),
    Other,
}

/// One instruction: opcode, optional result type and result id, operands.
pub struct Inst {
    pub op: Op,
    pub result_type: Option<u32>,
    pub result_id: Option<u32>,
    pub operands: Seq<Operand>,
}

/// A basic block: its label and the instructions after it.
pub struct BlockView {
    pub label: Option<Inst>,
    pub instructions: Seq<Inst>,
}

/// A function: definition, parameters, blocks, end marker.
pub struct FunctionView {
    pub def: Option<Inst>,
    pub end: Option<Inst>,
    pub parameters: Seq<Inst>,
    pub blocks: Seq<BlockView>,
}

/// The five words in front of a module's instructions.
pub struct HeaderView {
    pub magic_number: u32,
    pub version: u32,
    pub generator: u32,
    pub bound: u32,
    pub reserved_word: u32,
}

/// A module, section by section.
pub struct ModuleView {
    pub header: Option<HeaderView>,
    pub capabilities: Seq<Inst>,
    pub extensions: Seq<Inst>,
    pub ext_inst_imports: Seq<Inst>,
    pub memory_model: Option<Inst>,
    pub entry_points: Seq<Inst>,
    pub execution_modes: Seq<Inst>,
    pub debugs: Seq<Inst>,
    pub annotations: Seq<Inst>,
    pub types_global_values: Seq<Inst>,
    pub functions: Seq<FunctionView>,
}

/// A builder: the module so far, the next unused id, the function and the
/// block that are open, and the version asked for.
pub struct BuilderView {
    pub module: ModuleView,
    pub next_id: u32,
    pub function: Option<FunctionView>,
    pub block: Option<BlockView>,
    pub version: Option<(u8, u8)>,
}

/// What a module holds in front of its types and its functions, and the
/// version asked for.
pub struct Prelude {
    pub version: Option<(u8, u8)>,
    pub capabilities: Seq<Inst>,
    pub extensions: Seq<Inst>,
    pub ext_inst_imports: Seq<Inst>,
    pub memory_model: Option<Inst>,
    pub entry_points: Seq<Inst>,
    pub execution_modes: Seq<Inst>,
    pub debugs: Seq<Inst>,
    pub annotations: Seq<Inst>,
}

/// The first word of every SPIR-V module.
pub const MAGIC_NUMBER: u32 = 0x0723_0203;

/// The generator word the builder writes into a header.
pub const GENERATOR: u32 = 0x000f_0000;

/// The version a header carries when none was asked for.
pub open spec fn default_version() -> (u8, u8) {
    (1u8, 4u8)
}

/// The header word for a version: major in the third byte, minor in the
/// second.
pub open spec fn version_word(version: (u8, u8)) -> u32 {
    (version.0 as u32 * 0x1_0000 + version.1 as u32 * 0x100) as u32
}

/// The sequence of an instruction's id operands.
pub open spec fn id_refs(ids: Seq<u32>) -> Seq<Operand> {
    ids.map_values(|id: u32| Operand::IdRef(id))
}

/// The sequence of an instruction's literal operands.
pub open spec fn literals(values: Seq<u32>) -> Seq<Operand> {
    values.map_values(|v: u32| Operand::LiteralInt32(v))
}

impl DecorationParam {
    /// The operand that stands for this parameter.
    pub open spec fn operand(self) -> Operand {
        match self {
            DecorationParam::Literal(v) => Operand::LiteralInt32(v),
            DecorationParam::BuiltIn(b) => Operand::BuiltIn(b),
        }
    }
}

/// The operands that stand for a list of decoration parameters.
pub open spec fn decoration_operands(params: Seq<DecorationParam>) -> Seq<Operand> {
    params.map_values(|p: DecorationParam| p.operand())
}

impl Op {
    /// Whether an instruction with this opcode ends a block.
    pub open spec fn is_terminator(self) -> bool {
        self is Branch || self is BranchConditional || self is Return || self is ReturnValue
    }
}

impl Inst {
    /// An instruction that yields a value of type `ty` under the id `id`.
    pub open spec fn value(op: Op, ty: u32, id: u32, operands: Seq<Operand>) -> Inst {
        Inst { op, result_type: Some(ty), result_id: Some(id), operands }
    }

    /// An instruction that declares the id `id` and has no result type.
    pub open spec fn definition(op: Op, id: u32, operands: Seq<Operand>) -> Inst {
        Inst { op, result_type: None, result_id: Some(id), operands }
    }

    /// An instruction without a result.
    pub open spec fn effect(op: Op, operands: Seq<Operand>) -> Inst {
        Inst { op, result_type: None, result_id: None, operands }
    }

    /// Whether the opcode and every operand are among the listed forms.
    pub open spec fn known(self) -> bool {
        !(self.op is Other) && operands_known(self.operands)
    }
}

/// Whether every operand of a sequence is among the listed forms.
pub open spec fn operands_known(operands: Seq<Operand>) -> bool {
    forall|i: int| 0 <= i < operands.len() ==> !(#[trigger] operands[i] is Other)
}

/// Whether every instruction of a sequence is known.
pub open spec fn all_known(insts: Seq<Inst>) -> bool {
    forall|i: int| 0 <= i < insts.len() ==> (#[trigger] insts[i]).known()
}

/// Whether an optional instruction, if present, is known.
pub open spec fn known_if_present(inst: Option<Inst>) -> bool {
    inst matches Some(i) ==> i.known()
}

impl BlockView {
    /// Whether every instruction of the block is known.
    pub open spec fn known(self) -> bool {
        known_if_present(self.label) && all_known(self.instructions)
    }

    /// Whether the block is closed properly: it has a label, its last
    /// instruction ends it, and no instruction before that does.
    pub open spec fn terminated(self) -> bool {
        &&& self.label matches Some(l) && l.op is Label
        &&& self.instructions.len() > 0
        &&& self.instructions.last().op.is_terminator()
        &&& forall|i: int|
            0 <= i < self.instructions.len() - 1 ==> !(#[trigger] self.instructions[i]).op.is_terminator()
    }

    /// Whether the block is open properly: it has a label and nothing in it
    /// ends it.
    pub open spec fn unterminated(self) -> bool {
        &&& self.label matches Some(l) && l.op is Label
        &&& forall|i: int|
            0 <= i < self.instructions.len() ==> !(#[trigger] self.instructions[i]).op.is_terminator()
    }
}

impl FunctionView {
    /// Whether every instruction of the function is known.
    pub open spec fn known(self) -> bool {
        &&& known_if_present(self.def)
        &&& known_if_present(self.end)
        &&& all_known(self.parameters)
        &&& forall|i: int| 0 <= i < self.blocks.len() ==> (#[trigger] self.blocks[i]).known()
    }

    /// Whether every block of the function is closed properly.
    pub open spec fn blocks_terminated(self) -> bool {
        forall|i: int| 0 <= i < self.blocks.len() ==> (#[trigger] self.blocks[i]).terminated()
    }
}

impl ModuleView {
    /// The module without any content.
    pub open spec fn empty() -> ModuleView {
        ModuleView {
            header: None,
            capabilities: Seq::empty(),
            extensions: Seq::empty(),
            ext_inst_imports: Seq::empty(),
            memory_model: None,
            entry_points: Seq::empty(),
            execution_modes: Seq::empty(),
            debugs: Seq::empty(),
            annotations: Seq::empty(),
            types_global_values: Seq::empty(),
            functions: Seq::empty(),
        }
    }

    /// Whether every instruction of the module is known.
    pub open spec fn known(self) -> bool {
        &&& all_known(self.capabilities)
        &&& all_known(self.extensions)
        &&& all_known(self.ext_inst_imports)
        &&& known_if_present(self.memory_model)
        &&& all_known(self.entry_points)
        &&& all_known(self.execution_modes)
        &&& all_known(self.debugs)
        &&& all_known(self.annotations)
        &&& all_known(self.types_global_values)
        &&& forall|i: int| 0 <= i < self.functions.len() ==> (#[trigger] self.functions[i]).known()
    }

    /// The words of the header, none if there is no header.
    pub open spec fn header_words(self) -> Seq<u32> {
        match self.header {
            Some(h) => seq![h.magic_number, h.version, h.generator, h.bound, h.reserved_word],
            None => Seq::empty(),
        }
    }
}

impl BuilderView {
    /// A builder that has been told nothing yet.  Ids start at 1.
    pub open spec fn fresh() -> BuilderView {
        BuilderView {
            module: ModuleView::empty(),
            next_id: 1,
            function: None,
            block: None,
            version: None,
        }
    }

    /// What the builder holds in front of the types and the functions.
    pub open spec fn prelude(self) -> Prelude {
        Prelude {
            version: self.version,
            capabilities: self.module.capabilities,
            extensions: self.module.extensions,
            ext_inst_imports: self.module.ext_inst_imports,
            memory_model: self.module.memory_model,
            entry_points: self.module.entry_points,
            execution_modes: self.module.execution_modes,
            debugs: self.module.debugs,
            annotations: self.module.annotations,
        }
    }

    /// The builder after one id was handed out.
    pub open spec fn take_id(self) -> BuilderView {
        BuilderView { next_id: (self.next_id + 1) as u32, ..self }
    }

    /// The builder after a capability was declared.
    pub open spec fn add_capability(self, inst: Inst) -> BuilderView {
        BuilderView {
            module: ModuleView { capabilities: self.module.capabilities.push(inst), ..self.module },
            ..self
        }
    }

    /// The builder after an extended instruction set was imported.
    pub open spec fn add_ext_inst_import(self, inst: Inst) -> BuilderView {
        BuilderView {
            module: ModuleView {
                ext_inst_imports: self.module.ext_inst_imports.push(inst),
                ..self.module
            },
            ..self
        }
    }

    /// The builder after the memory model was set.
    pub open spec fn set_memory_model(self, inst: Inst) -> BuilderView {
        BuilderView { module: ModuleView { memory_model: Some(inst), ..self.module }, ..self }
    }

    /// The builder after an entry point was declared.
    pub open spec fn add_entry_point(self, inst: Inst) -> BuilderView {
        BuilderView {
            module: ModuleView { entry_points: self.module.entry_points.push(inst), ..self.module },
            ..self
        }
    }

    /// The builder after an execution mode was declared.
    pub open spec fn add_execution_mode(self, inst: Inst) -> BuilderView {
        BuilderView {
            module: ModuleView {
                execution_modes: self.module.execution_modes.push(inst),
                ..self.module
            },
            ..self
        }
    }

    /// The builder after a decoration was added.
    pub open spec fn add_annotation(self, inst: Inst) -> BuilderView {
        BuilderView {
            module: ModuleView { annotations: self.module.annotations.push(inst), ..self.module },
            ..self
        }
    }

    /// The builder after a type, constant or global variable was added.
    pub open spec fn add_global(self, inst: Inst) -> BuilderView {
        BuilderView {
            module: ModuleView {
                types_global_values: self.module.types_global_values.push(inst),
                ..self.module
            },
            ..self
        }
    }

    /// The builder after an instruction was appended to the open block.
    pub open spec fn add_instruction(self, inst: Inst) -> BuilderView
        recommends
            self.block is Some,
    {
        BuilderView {
            block: Some(
                BlockView {
                    instructions: self.block.unwrap().instructions.push(inst),
                    ..self.block.unwrap()
                },
            ),
            ..self
        }
    }

    /// The builder after a parameter was added to the open function.
    pub open spec fn add_parameter(self, inst: Inst) -> BuilderView
        recommends
            self.function is Some,
    {
        BuilderView {
            function: Some(
                FunctionView {
                    parameters: self.function.unwrap().parameters.push(inst),
                    ..self.function.unwrap()
                },
            ),
            ..self
        }
    }

    /// The builder after a new global with a fresh result id was added: a
    /// type, a constant or a variable outside any block.
    pub open spec fn define_global(
        self,
        op: Op,
        result_type: Option<u32>,
        operands: Seq<Operand>,
    ) -> BuilderView {
        self.take_id().add_global(
            Inst { op, result_type, result_id: Some(self.next_id), operands },
        )
    }

    /// The builder after an instruction with a fresh result id was appended
    /// to the open block; unchanged where no block is open.
    pub open spec fn emit_value(self, op: Op, ty: u32, operands: Seq<Operand>) -> BuilderView {
        if self.block is Some {
            self.take_id().add_instruction(Inst::value(op, ty, self.next_id, operands))
        } else {
            self
        }
    }

    /// The builder after an instruction without a result was appended to the
    /// open block; unchanged where no block is open.
    pub open spec fn emit_effect(self, op: Op, operands: Seq<Operand>) -> BuilderView {
        if self.block is Some {
            self.add_instruction(Inst::effect(op, operands))
        } else {
            self
        }
    }

    /// The builder after the open block was ended by the given instruction
    /// and moved into the open function; unchanged where no block is open.
    pub open spec fn terminate(self, op: Op, operands: Seq<Operand>) -> BuilderView
        recommends
            self.block is Some ==> self.function is Some,
    {
        if self.block is Some {
            let closed = BlockView {
                instructions: self.block.unwrap().instructions.push(Inst::effect(op, operands)),
                ..self.block.unwrap()
            };
            BuilderView {
                function: Some(
                    FunctionView {
                        blocks: self.function.unwrap().blocks.push(closed),
                        ..self.function.unwrap()
                    },
                ),
                block: None,
                ..self
            }
        } else {
            self
        }
    }

    /// The builder after a variable with a fresh result id was declared: in
    /// the open block if there is one, else among the globals.
    pub open spec fn declare_variable(self, result_type: u32, class: StorageClass) -> BuilderView {
        let inst = Inst::value(
            Op::Variable,
            result_type,
            self.next_id,
            seq![Operand::StorageClass(class)],
        );
        if self.block is Some {
            self.take_id().add_instruction(inst)
        } else {
            self.take_id().add_global(inst)
        }
    }

    /// The builder after a function was begun under a fresh id; unchanged
    /// where a function is open already.
    pub open spec fn begin_function(
        self,
        return_type: u32,
        control: Control,
        function_type: u32,
    ) -> BuilderView {
        if self.function is None {
            self.take_id().open_function(
                Inst::value(
                    Op::Function,
                    return_type,
                    self.next_id,
                    seq![Operand::FunctionControl(control), Operand::IdRef(function_type)],
                ),
            )
        } else {
            self
        }
    }

    /// The builder after a parameter with a fresh id was declared for the
    /// open function; unchanged where no function is open.
    pub open spec fn declare_parameter(self, result_type: u32) -> BuilderView {
        if self.function is Some {
            self.take_id().add_parameter(
                Inst::value(Op::FunctionParameter, result_type, self.next_id, Seq::empty()),
            )
        } else {
            self
        }
    }

    /// Whether a block can be begun: a function is open and no block is.
    pub open spec fn can_begin_block(self) -> bool {
        self.function is Some && self.block is None
    }

    /// The builder after a block was begun, under the given label or else
    /// under a fresh id; unchanged where no block can be begun.
    pub open spec fn begin_block(self, label: Option<u32>) -> BuilderView {
        if self.can_begin_block() {
            match label {
                Some(l) => self.open_block(l),
                None => self.take_id().open_block(self.next_id),
            }
        } else {
            self
        }
    }

    /// The builder after a block with the given label id was opened.
    pub open spec fn open_block(self, label: u32) -> BuilderView {
        BuilderView {
            block: Some(
                BlockView {
                    label: Some(Inst::definition(Op::Label, label, Seq::empty())),
                    instructions: Seq::empty(),
                },
            ),
            ..self
        }
    }

    /// The builder after a function with the given definition was opened.
    pub open spec fn open_function(self, def: Inst) -> BuilderView {
        BuilderView {
            function: Some(
                FunctionView {
                    def: Some(def),
                    end: None,
                    parameters: Seq::empty(),
                    blocks: Seq::empty(),
                },
            ),
            ..self
        }
    }

    /// The builder after the open function was ended and moved into the
    /// module; unchanged where no function is open.
    pub open spec fn close_function(self) -> BuilderView {
        if self.function is Some {
            let done = FunctionView {
                end: Some(Inst::effect(Op::FunctionEnd, Seq::empty())),
                ..self.function.unwrap()
            };
            BuilderView {
                module: ModuleView { functions: self.module.functions.push(done), ..self.module },
                function: None,
                ..self
            }
        } else {
            self
        }
    }

    /// The module a builder gives up when it is done: its sections, under a
    /// header that carries the version asked for and the next unused id as
    /// the bound.  A function or block that is still open is left out.
    pub open spec fn finished(self) -> ModuleView {
        ModuleView {
            header: Some(
                HeaderView {
                    magic_number: MAGIC_NUMBER,
                    version: version_word(
                        match self.version {
                            Some(v) => v,
                            None => default_version(),
                        },
                    ),
                    generator: GENERATOR,
                    bound: self.next_id,
                    reserved_word: 0,
                },
            ),
            ..self.module
        }
    }

    /// Whether every instruction the builder holds is known.
    pub open spec fn known(self) -> bool {
        &&& self.module.known()
        &&& self.function matches Some(f) ==> f.known()
        &&& self.block matches Some(b) ==> b.known()
    }
}

} // verus!
