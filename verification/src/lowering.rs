//! What lowering means: the translation context as a mathematical value,
//! and each rule of the translation as a function from a context to the
//! context after it.
//!
//! The executable translation is held to these functions.  They follow the
//! order in which instructions are emitted, because ids are handed out in
//! that order and the module that comes out depends on it.

use vstd::prelude::*;
use crate::error::CompileError;
use crate::ir::{Const, FunView, ICompOp, INumOp, Local, Tree, ValueType, Width};
use crate::model::{
    AddressingModel, BuilderView, BuiltIn, Capability, Control, Decoration, ExecutionMode,
    ExecutionModel, Inst, MemoryModel, ModuleView, Op, Operand, StorageClass, id_refs,
};

verus! {

/// The ids of the scalar types that have been declared so far.
#[derive(Clone, Copy, Debug)]
pub struct Types {
    pub b: Option<u32>,
    pub i_32: Option<u32>,
    pub i_64: Option<u32>,
    pub f_32: Option<u32>,
    pub f_64: Option<u32>,
}

/// The three labels that bound one loop.
#[derive(Clone, Copy, Debug)]
pub struct Loop {
    pub head: u32,
    pub cont: u32,
    pub end: u32,
}

/// The three labels of one selection: the two branches and the merge block.
#[derive(Clone, Copy, Debug)]
pub struct Selection {
    pub l_t: u32,
    pub l_f: u32,
    pub l_m: u32,
}

/// The ids that a load needs beside its address.
#[derive(Clone, Copy, Debug)]
pub struct Access {
    /// The type `uint`.
    pub uint: u32,
    /// The constant 0 of type `uint`.
    pub zero: u32,
    /// The type of pointers into the storage buffer.
    pub pointer_type: u32,
    /// The type of the value that is loaded.
    pub result_type: u32,
}

/// The translation context as a mathematical value.
pub struct CtxView {
    /// The scalar types declared so far.
    pub tys: Types,
    /// The pointer types declared so far, one slot for each pair of a value
    /// type and a storage class.
    pub ptrs: Seq<Option<u32>>,
    /// The storage buffer.
    pub buffer: u32,
    /// The x component of the thread id, loaded at the entry of the function
    /// that is being lowered.
    pub thread_id: u32,
    /// The input variable that holds the thread id.
    pub thread_id_v3: u32,
    /// The variable of each local of the function that is being lowered.
    pub locals: Map<u32, u32>,
    /// The builder.
    pub b: BuilderView,
    /// The id and the result type of each function lowered so far.
    pub funs: Seq<(u32, u32)>,
    /// The loops around the node that is being lowered, innermost last.
    pub loops: Seq<Loop>,
    /// A bound on the ids taken so far: the ids of the context that every
    /// compilation starts from, and the cost of each function lowered since.
    pub reserved: u32,
}

/// The width in bytes of the words that the storage buffer is made of.
pub const WORD_BYTES: u32 = 4;

/// The number of invocations in a workgroup along x.
pub const LOCAL_SIZE_X: u32 = 64;

/// The number of invocations in a workgroup along y.
pub const LOCAL_SIZE_Y: u32 = 1;

/// The number of invocations in a workgroup along z.
pub const LOCAL_SIZE_Z: u32 = 1;

/// The number of slots for pointer types: one for each pair of a value type
/// and a storage class.
pub const POINTER_SLOTS: usize = 12;

/// The number of components of the thread id.
pub const THREAD_ID_COMPONENTS: u32 = 3;

/// The name of the extended instruction set that every module imports.
pub open spec fn glsl_std() -> Seq<char> {
    "GLSL.std.450"@
}

/// The name of the entry point.
pub open spec fn entry_name() -> Seq<char> {
    "main"@
}

/// The number of ids that a function may take beside those of its body, its
/// locals and its parameters.
pub const FUN_BASE_COST: u64 = 10;

/// The number of ids that one local or one parameter of a function may take.
pub const FUN_ITEM_COST: u64 = 3;

impl ValueType {
    /// The position of a value type among the four.
    pub open spec fn index(self) -> int {
        match self {
            ValueType::I32 => 0,
            ValueType::I64 => 1,
            ValueType::F32 => 2,
            ValueType::F64 => 3,
        }
    }

    /// The opcode that declares the SPIR-V type of a value type.
    pub open spec fn type_op(self) -> Op {
        match self {
            ValueType::I32 | ValueType::I64 => Op::TypeInt,
            ValueType::F32 | ValueType::F64 => Op::TypeFloat,
        }
    }

    /// The operands that declare the SPIR-V type of a value type: the width,
    /// and for integers a signedness of 0.
    pub open spec fn type_operands(self) -> Seq<Operand> {
        match self {
            ValueType::I32 => seq![Operand::LiteralInt32(32), Operand::LiteralInt32(0)],
            ValueType::I64 => seq![Operand::LiteralInt32(64), Operand::LiteralInt32(0)],
            ValueType::F32 => seq![Operand::LiteralInt32(32)],
            ValueType::F64 => seq![Operand::LiteralInt32(64)],
        }
    }
}

impl StorageClass {
    /// The position of a storage class among the three.
    pub open spec fn index(self) -> int {
        match self {
            StorageClass::Input => 0,
            StorageClass::Uniform => 1,
            StorageClass::Function => 2,
        }
    }
}

/// The slot of the pointer type for a value type in a storage class.
pub open spec fn slot(t: ValueType, class: StorageClass) -> int {
    t.index() * 3 + class.index()
}

impl Width {
    /// The integer type of a width.
    pub open spec fn value_type(self) -> ValueType {
        match self {
            Width::W32 => ValueType::I32,
            Width::W64 => ValueType::I64,
        }
    }
}

impl INumOp {
    /// The opcode that an arithmetic operation is lowered to.
    pub open spec fn op(self) -> Op {
        match self {
            INumOp::Mul => Op::IMul,
            INumOp::Add => Op::IAdd,
            INumOp::Sub => Op::ISub,
            INumOp::Shl => Op::ShiftLeftLogical,
            INumOp::ShrS => Op::ShiftRightArithmetic,
            INumOp::ShrU => Op::ShiftRightLogical,
            INumOp::DivU => Op::UDiv,
            INumOp::DivS => Op::SDiv,
        }
    }
}

impl ICompOp {
    /// The opcode that a comparison is lowered to.
    pub open spec fn op(self) -> Op {
        match self {
            ICompOp::Eq => Op::IEqual,
            ICompOp::NEq => Op::INotEqual,
            ICompOp::LeU => Op::ULessThanEqual,
            ICompOp::GeU => Op::UGreaterThanEqual,
            ICompOp::LtU => Op::ULessThan,
            ICompOp::GtU => Op::UGreaterThan,
            ICompOp::LeS => Op::SLessThanEqual,
            ICompOp::GeS => Op::SGreaterThanEqual,
            ICompOp::LtS => Op::SLessThan,
            ICompOp::GtS => Op::SGreaterThan,
        }
    }
}

impl Types {
    /// No type declared.
    pub open spec fn empty() -> Types {
        Types { b: None, i_32: None, i_64: None, f_32: None, f_64: None }
    }

    /// The id of the type of `t`, if it has been declared.
    pub open spec fn of(self, t: ValueType) -> Option<u32> {
        match t {
            ValueType::I32 => self.i_32,
            ValueType::I64 => self.i_64,
            ValueType::F32 => self.f_32,
            ValueType::F64 => self.f_64,
        }
    }

    /// Whether `after` remembers every type that is remembered here, under
    /// the same id.
    pub open spec fn kept_by(self, after: Types) -> bool {
        &&& self.b is Some ==> after.b == self.b
        &&& self.i_32 is Some ==> after.i_32 == self.i_32
        &&& self.i_64 is Some ==> after.i_64 == self.i_64
        &&& self.f_32 is Some ==> after.f_32 == self.f_32
        &&& self.f_64 is Some ==> after.f_64 == self.f_64
    }

    /// The types after the type of `t` was declared under `id`.
    pub open spec fn with(self, t: ValueType, id: u32) -> Types {
        match t {
            ValueType::I32 => Types { i_32: Some(id), ..self },
            ValueType::I64 => Types { i_64: Some(id), ..self },
            ValueType::F32 => Types { f_32: Some(id), ..self },
            ValueType::F64 => Types { f_64: Some(id), ..self },
        }
    }
}

impl CtxView {
    /// The id of the SPIR-V type of `t`, declared now unless it was before.
    pub open spec fn scalar_type(self, t: ValueType) -> (CtxView, u32) {
        match self.tys.of(t) {
            Some(id) => (self, id),
            None => (
                CtxView {
                    tys: self.tys.with(t, self.b.next_id),
                    b: self.b.define_global(t.type_op(), None, t.type_operands()),
                    ..self
                },
                self.b.next_id,
            ),
        }
    }

    /// The id of the boolean type, declared now unless it was before.
    pub open spec fn bool_type(self) -> (CtxView, u32) {
        match self.tys.b {
            Some(id) => (self, id),
            None => (
                CtxView {
                    tys: Types { b: Some(self.b.next_id), ..self.tys },
                    b: self.b.define_global(Op::TypeBool, None, Seq::empty()),
                    ..self
                },
                self.b.next_id,
            ),
        }
    }

    /// The id of the integer type of a width.
    pub open spec fn int_type(self, w: Width) -> (CtxView, u32) {
        self.scalar_type(w.value_type())
    }

    /// The id of the type of pointers to `t` in `class`, declared now unless
    /// it was before.
    pub open spec fn pointer_type(self, t: ValueType, class: StorageClass) -> (CtxView, u32) {
        match self.ptrs[slot(t, class)] {
            Some(id) => (self, id),
            None => {
                let (s, pointee) = self.scalar_type(t);
                (
                    CtxView {
                        ptrs: s.ptrs.update(slot(t, class), Some(s.b.next_id)),
                        b: s.b.define_global(
                            Op::TypePointer,
                            None,
                            seq![Operand::StorageClass(class), Operand::IdRef(pointee)],
                        ),
                        ..s
                    },
                    s.b.next_id,
                )
            },
        }
    }

    /// A new global that is declared by `op` and has no result type.
    pub open spec fn global(self, op: Op, operands: Seq<Operand>) -> (CtxView, u32) {
        (CtxView { b: self.b.define_global(op, None, operands), ..self }, self.b.next_id)
    }

    /// A new constant of type `ty` with the bit pattern `value`.
    pub open spec fn constant(self, ty: u32, value: u32) -> (CtxView, u32) {
        (
            CtxView {
                b: self.b.define_global(Op::Constant, Some(ty), seq![Operand::LiteralInt32(value)]),
                ..self
            },
            self.b.next_id,
        )
    }

    /// A new variable of the pointer type `ty` in `class`.
    pub open spec fn variable(self, ty: u32, class: StorageClass) -> (CtxView, u32) {
        (CtxView { b: self.b.declare_variable(ty, class), ..self }, self.b.next_id)
    }

    /// A new decoration of `target`.
    pub open spec fn decorate(
        self,
        target: u32,
        decoration: Decoration,
        extra: Seq<Operand>,
    ) -> CtxView {
        CtxView {
            b: self.b.add_annotation(
                Inst::effect(
                    Op::Decorate,
                    seq![Operand::IdRef(target), Operand::Decoration(decoration)] + extra,
                ),
            ),
            ..self
        }
    }

    /// A new decoration of a member of the struct type `structure`.
    pub open spec fn member_decorate(
        self,
        structure: u32,
        member: u32,
        decoration: Decoration,
        extra: Seq<Operand>,
    ) -> CtxView {
        CtxView {
            b: self.b.add_annotation(
                Inst::effect(
                    Op::MemberDecorate,
                    seq![
                        Operand::IdRef(structure),
                        Operand::LiteralInt32(member),
                        Operand::Decoration(decoration),
                    ] + extra,
                ),
            ),
            ..self
        }
    }

    /// A new instruction in the open block that yields a value of type `ty`.
    pub open spec fn value(self, op: Op, ty: u32, operands: Seq<Operand>) -> (CtxView, u32) {
        (CtxView { b: self.b.emit_value(op, ty, operands), ..self }, self.b.next_id)
    }

    /// A new instruction in the open block that yields nothing.
    pub open spec fn effect(self, op: Op, operands: Seq<Operand>) -> CtxView {
        CtxView { b: self.b.emit_effect(op, operands), ..self }
    }

    /// The end of the open block.
    pub open spec fn terminate(self, op: Op, operands: Seq<Operand>) -> CtxView {
        CtxView { b: self.b.terminate(op, operands), ..self }
    }

    /// A fresh id, for a label that is referred to before its block begins.
    pub open spec fn label(self) -> (CtxView, u32) {
        (CtxView { b: self.b.take_id(), ..self }, self.b.next_id)
    }

    /// The begin of the block with the given label.
    pub open spec fn block(self, label: u32) -> CtxView {
        CtxView { b: self.b.begin_block(Some(label)), ..self }
    }

    /// The begin of a block that nothing branches to.  It takes up what is
    /// lowered after a branch or a return, so that every instruction stands
    /// in some block.
    pub open spec fn unreachable_block(self) -> CtxView {
        CtxView { b: self.b.begin_block(None), ..self }
    }

    /// The pointer to the word of the storage buffer that holds the byte
    /// address `addr`: the address is divided by the width of a word, and the
    /// quotient indexes the array that is member 0 of the buffer.
    pub open spec fn word_pointer(
        self,
        uint: u32,
        zero: u32,
        pointer_type: u32,
        addr: u32,
    ) -> (CtxView, u32) {
        let (s1, four) = self.constant(uint, WORD_BYTES);
        let (s2, index) = s1.value(Op::UDiv, uint, seq![Operand::IdRef(addr), Operand::IdRef(four)]);
        s2.value(
            Op::AccessChain,
            pointer_type,
            seq![Operand::IdRef(self.buffer), Operand::IdRef(zero), Operand::IdRef(index)],
        )
    }

    /// The call of the function with index `i` on arguments that have been
    /// lowered to `args`.
    #[verifier::opaque]
    pub open spec fn call(self, i: u32, args: Seq<u32>) -> (CtxView, u32) {
        let (f, t) = self.funs[i as int];
        self.value(Op::FunctionCall, t, seq![Operand::IdRef(f)] + id_refs(args))
    }

    /// Arithmetic on operands that have been lowered to `lhs` and `rhs`.
    /// The result has the integer type of the width.
    #[verifier::opaque]
    pub open spec fn num_op(self, w: Width, op: INumOp, lhs: u32, rhs: u32) -> (CtxView, u32) {
        let (s1, ty) = self.int_type(w);
        s1.value(op.op(), ty, seq![Operand::IdRef(lhs), Operand::IdRef(rhs)])
    }

    /// A comparison of operands that have been lowered to `lhs` and `rhs`.
    /// The comparison yields a boolean, which selects between the integers 1
    /// and 0 of the width.
    #[verifier::opaque]
    pub open spec fn comp_op(self, w: Width, op: ICompOp, lhs: u32, rhs: u32) -> (CtxView, u32) {
        let (s1, ty) = self.int_type(w);
        let (s2, t_bool) = s1.bool_type();
        let (s3, flag) = s2.value(op.op(), t_bool, seq![Operand::IdRef(lhs), Operand::IdRef(rhs)]);
        let (s4, zero) = s3.constant(ty, 0);
        let (s5, one) = s4.constant(ty, 1);
        s5.value(
            Op::Select,
            ty,
            seq![Operand::IdRef(flag), Operand::IdRef(one), Operand::IdRef(zero)],
        )
    }

    /// A constant of 32 bits, by its bit pattern; nothing for one of 64 bits,
    /// which is never lowered.
    #[verifier::opaque]
    pub open spec fn constant_of(self, c: Const) -> (CtxView, u32) {
        match c {
            Const::I32(i) => {
                let (s1, ty) = self.scalar_type(ValueType::I32);
                s1.constant(ty, i as u32)
            },
            Const::F32(bits) => {
                let (s1, ty) = self.scalar_type(ValueType::F32);
                s1.constant(ty, bits)
            },
            _ => (self, 0),
        }
    }

    /// A read of the local `l`.
    #[verifier::opaque]
    pub open spec fn get_local(self, l: Local) -> (CtxView, u32) {
        let (s1, ty) = self.scalar_type(l.ty);
        s1.value(Op::Load, ty, seq![Operand::IdRef(self.locals[l.idx])])
    }

    /// A write of the value `v` to the variable `var`.
    #[verifier::opaque]
    pub open spec fn set_local(self, var: u32, v: u32) -> CtxView {
        self.effect(Op::Store, seq![Operand::IdRef(var), Operand::IdRef(v)])
    }

    /// What a load of type `ty` declares before its address is lowered.
    #[verifier::opaque]
    pub open spec fn load_begin(self, ty: ValueType) -> (CtxView, Access) {
        let (s1, uint) = self.scalar_type(ValueType::I32);
        let (s2, zero) = s1.constant(uint, 0);
        let (s3, pointer_type) = s2.pointer_type(ty, StorageClass::Uniform);
        let (s4, result_type) = s3.scalar_type(ty);
        (s4, Access { uint, zero, pointer_type, result_type })
    }

    /// The load itself, from the byte address that has been lowered to
    /// `addr`.
    #[verifier::opaque]
    pub open spec fn load_end(self, access: Access, addr: u32) -> (CtxView, u32) {
        let (s1, pointer) = self.word_pointer(
            access.uint,
            access.zero,
            access.pointer_type,
            addr,
        );
        s1.value(Op::Load, access.result_type, seq![Operand::IdRef(pointer)])
    }

    /// What a store declares before its address and its value are lowered:
    /// the type `uint` and the constant 0 of it.
    #[verifier::opaque]
    pub open spec fn store_begin(self) -> (CtxView, (u32, u32)) {
        let (s1, uint) = self.scalar_type(ValueType::I32);
        let (s2, zero) = s1.constant(uint, 0);
        (s2, (uint, zero))
    }

    /// The store itself, of the value that has been lowered to `v`, to the
    /// byte address that has been lowered to `addr`.
    #[verifier::opaque]
    pub open spec fn store_end(
        self,
        ty: ValueType,
        uint: u32,
        zero: u32,
        addr: u32,
        v: u32,
    ) -> CtxView {
        let (s1, pointer_type) = self.pointer_type(ty, StorageClass::Uniform);
        let (s2, pointer) = s1.word_pointer(uint, zero, pointer_type, addr);
        s2.effect(Op::Store, seq![Operand::IdRef(pointer), Operand::IdRef(v)])
    }

    /// The labels of a selection, taken before its condition is lowered.
    #[verifier::opaque]
    pub open spec fn if_begin(self) -> (CtxView, Selection) {
        let (s1, l_t) = self.label();
        let (s2, l_f) = s1.label();
        let (s3, l_m) = s2.label();
        (s3, Selection { l_t, l_f, l_m })
    }

    /// The branch of a selection on the condition that has been lowered to
    /// `cond`: the condition is compared with 0, the merge block is declared,
    /// the open block ends with the conditional branch, and the block of the
    /// first branch begins.
    #[verifier::opaque]
    pub open spec fn if_then(self, labels: Selection, cond: u32) -> CtxView {
        let (s1, uint) = self.scalar_type(ValueType::I32);
        let (s2, zero) = s1.constant(uint, 0);
        let (s3, t_bool) = s2.bool_type();
        let (s4, flag) = s3.value(
            Op::INotEqual,
            t_bool,
            seq![Operand::IdRef(cond), Operand::IdRef(zero)],
        );
        s4.effect(
            Op::SelectionMerge,
            seq![Operand::IdRef(labels.l_m), Operand::SelectionControl(Control::Unset)],
        ).terminate(
            Op::BranchConditional,
            seq![Operand::IdRef(flag), Operand::IdRef(labels.l_t), Operand::IdRef(labels.l_f)],
        ).block(labels.l_t)
    }

    /// The end of the first branch of a selection and the begin of the
    /// second.
    #[verifier::opaque]
    pub open spec fn if_else(self, labels: Selection) -> CtxView {
        self.terminate(Op::Branch, seq![Operand::IdRef(labels.l_m)]).block(labels.l_f)
    }

    /// The end of the second branch of a selection and the begin of the
    /// merge block.
    #[verifier::opaque]
    pub open spec fn if_end(self, labels: Selection) -> CtxView {
        self.terminate(Op::Branch, seq![Operand::IdRef(labels.l_m)]).block(labels.l_m)
    }

    /// The head of a loop: the open block branches to the header, the header
    /// declares the merge block and the continue target and branches to the
    /// first block of the body, which begins.  The loop is the innermost one
    /// from here on.
    #[verifier::opaque]
    pub open spec fn loop_begin(self) -> (CtxView, Loop) {
        let (s1, head) = self.label();
        let (s2, cont) = s1.label();
        let (s3, end) = s2.label();
        let (s4, first) = s3.label();
        let s5 = s4.terminate(Op::Branch, seq![Operand::IdRef(head)]).block(head).effect(
            Op::LoopMerge,
            seq![
                Operand::IdRef(end),
                Operand::IdRef(cont),
                Operand::LoopControl(Control::Unset),
            ],
        ).terminate(Op::Branch, seq![Operand::IdRef(first)]).block(first);
        (CtxView { loops: s5.loops.push(Loop { head, cont, end }), ..s5 }, Loop { head, cont, end })
    }

    /// The end of a loop: the loop is no longer the innermost one, the body
    /// branches to the merge block (a body that runs to its end leaves the
    /// loop), the continue block follows the body and branches back to the
    /// header, and the merge block begins.
    #[verifier::opaque]
    pub open spec fn loop_end(self, frame: Loop) -> CtxView {
        CtxView { loops: self.loops.drop_last(), ..self }.terminate(
            Op::Branch,
            seq![Operand::IdRef(frame.end)],
        ).block(frame.cont).terminate(Op::Branch, seq![Operand::IdRef(frame.head)]).block(
            frame.end,
        )
    }

    /// A branch to `target`, and after it the begin of an unreachable block.
    #[verifier::opaque]
    pub open spec fn jump(self, target: u32) -> CtxView {
        self.terminate(Op::Branch, seq![Operand::IdRef(target)]).unreachable_block()
    }

    /// A return without a value, and after it the begin of an unreachable
    /// block.
    #[verifier::opaque]
    pub open spec fn leave(self) -> CtxView {
        self.terminate(Op::Return, Seq::empty()).unreachable_block()
    }

    /// The context after `node` was lowered, and the id of the value that
    /// the node yields (0 where it yields none).  Operands are lowered from
    /// left to right.
    pub open spec fn lower(self, node: Tree) -> (CtxView, u32)
        decreases node, 0nat,
    {
        match node {
            Tree::Call(i, args) => {
                let (s1, ids) = self.lower_list(args, args.len());
                s1.call(i, ids)
            },
            Tree::Nop => (self, 0),
            Tree::INumOp(w, op, a, b) => {
                let (s1, lhs) = self.lower(*a);
                let (s2, rhs) = s1.lower(*b);
                s2.num_op(w, op, lhs, rhs)
            },
            Tree::ICompOp(w, op, a, b) => {
                let (s1, lhs) = self.lower(*a);
                let (s2, rhs) = s1.lower(*b);
                s2.comp_op(w, op, lhs, rhs)
            },
            Tree::Const(c) => self.constant_of(c),
            Tree::Sequence(a, b) => self.lower(*a).0.lower(*b),
            Tree::GetLocal(l) => self.get_local(l),
            Tree::SetLocal(l, val) => {
                let (s1, v) = self.lower(*val);
                (s1.set_local(self.locals[l.idx], v), 0)
            },
            Tree::GetGlobal(_) => (self, self.thread_id),
            Tree::Load(ty, addr) => {
                let (s1, access) = self.load_begin(ty);
                let (s2, a) = s1.lower(*addr);
                s2.load_end(access, a)
            },
            Tree::Store(ty, addr, val) => {
                let (s1, (uint, zero)) = self.store_begin();
                let (s2, a) = s1.lower(*addr);
                let (s3, v) = s2.lower(*val);
                (s3.store_end(ty, uint, zero, a, v), 0)
            },
            Tree::If { cond, t, f } => {
                let (s1, labels) = self.if_begin();
                let (s2, c) = s1.lower(*cond);
                let s3 = s2.if_then(labels, c).lower(*t).0;
                let s4 = s3.if_else(labels).lower(*f).0;
                (s4.if_end(labels), 0)
            },
            Tree::Loop(body) => {
                let (s1, frame) = self.loop_begin();
                (s1.lower(*body).0.loop_end(frame), 0)
            },
            Tree::Continue => (self.jump(self.loops.last().cont), 0),
            Tree::Break => (self.jump(self.loops.last().end), 0),
            Tree::Return => (self.leave(), 0),
        }
    }

    /// The context after the first `n` of `nodes` were lowered from left to
    /// right, and the ids of their values.
    pub open spec fn lower_list(self, nodes: Seq<Tree>, n: nat) -> (CtxView, Seq<u32>)
        decreases nodes, n,
    {
        if n == 0 || n > nodes.len() {
            (self, Seq::empty())
        } else {
            let (s1, ids) = self.lower_list(nodes, (n - 1) as nat);
            let (s2, id) = s1.lower(nodes[n - 1]);
            (s2, ids.push(id))
        }
    }
}

impl FunView {
    /// A bound on the number of ids that lowering this function takes.
    pub open spec fn cost(self) -> nat {
        (FUN_BASE_COST + FUN_ITEM_COST * (self.params.len() + self.body.locals_spec().len())
            + self.body.cost()) as nat
    }
}

impl CtxView {
    /// The context that every compilation starts from.  It has set version
    /// 1.0, declared the `Shader` capability, imported `GLSL.std.450` and set
    /// the memory model; it has declared the storage buffer, a variable in
    /// class `Uniform` that points to a `BufferBlock` struct whose one member,
    /// at offset 0, is a runtime array of `uint` with a stride of 4, bound to
    /// descriptor set 0 at binding 0; and it has declared the thread id, an
    /// input variable of three `uint` that is the `GlobalInvocationId`.
    pub open spec fn initial() -> CtxView {
        let b0 = BuilderView { version: Some((1u8, 0u8)), ..BuilderView::fresh() };
        let b1 = b0.add_capability(
            Inst::effect(Op::Capability, seq![Operand::Capability(Capability::Shader)]),
        );
        let b2 = b1.take_id().add_ext_inst_import(
            Inst::definition(
                Op::ExtInstImport,
                b1.next_id,
                seq![Operand::LiteralString(glsl_std())],
            ),
        );
        let b3 = b2.set_memory_model(
            Inst::effect(
                Op::MemoryModel,
                seq![
                    Operand::AddressingModel(AddressingModel::Logical),
                    Operand::MemoryModel(MemoryModel::GLSL450),
                ],
            ),
        );
        let c = CtxView {
            tys: Types::empty(),
            ptrs: Seq::new(POINTER_SLOTS as nat, |i: int| None),
            buffer: 0,
            thread_id: 0,
            thread_id_v3: 0,
            locals: Map::empty(),
            b: b3,
            funs: Seq::empty(),
            loops: Seq::empty(),
            reserved: 0,
        };
        let (c1, t_uint) = c.scalar_type(ValueType::I32);
        let (c2, t_arr) = c1.global(Op::TypeRuntimeArray, seq![Operand::IdRef(t_uint)]);
        let (c3, t_struct) = c2.global(Op::TypeStruct, seq![Operand::IdRef(t_arr)]);
        let (c4, t_ptr) = c3.global(
            Op::TypePointer,
            seq![Operand::StorageClass(StorageClass::Uniform), Operand::IdRef(t_struct)],
        );
        let (c5, buffer) = c4.variable(t_ptr, StorageClass::Uniform);
        let c6 = c5.decorate(t_struct, Decoration::BufferBlock, Seq::empty()).decorate(
            buffer,
            Decoration::DescriptorSet,
            seq![Operand::LiteralInt32(0)],
        ).decorate(buffer, Decoration::Binding, seq![Operand::LiteralInt32(0)]).decorate(
            t_arr,
            Decoration::ArrayStride,
            seq![Operand::LiteralInt32(WORD_BYTES)],
        ).member_decorate(t_struct, 0, Decoration::Offset, seq![Operand::LiteralInt32(0)]);
        let (c7, t_uvec3) = c6.global(
            Op::TypeVector,
            seq![Operand::IdRef(t_uint), Operand::LiteralInt32(THREAD_ID_COMPONENTS)],
        );
        let (c8, t_uvec3_ptr) = c7.global(
            Op::TypePointer,
            seq![Operand::StorageClass(StorageClass::Input), Operand::IdRef(t_uvec3)],
        );
        let (c9, thread_id_v3) = c8.variable(t_uvec3_ptr, StorageClass::Input);
        let c10 = c9.decorate(
            thread_id_v3,
            Decoration::BuiltIn,
            seq![Operand::BuiltIn(BuiltIn::GlobalInvocationId)],
        );
        CtxView { buffer, thread_id_v3, reserved: c10.b.next_id, ..c10 }
    }

    /// The context after the types of the first `n` of `types` were asked
    /// for, from left to right, and their ids.
    pub open spec fn scalar_types(self, types: Seq<ValueType>, n: nat) -> (CtxView, Seq<u32>)
        decreases n,
    {
        if n == 0 || n > types.len() {
            (self, Seq::empty())
        } else {
            let (s1, ids) = self.scalar_types(types, (n - 1) as nat);
            let (s2, id) = s1.scalar_type(types[n - 1]);
            (s2, ids.push(id))
        }
    }

    /// The context after a variable was declared for the local `l`, and the
    /// variable.
    #[verifier::opaque]
    pub open spec fn declare_local(self, l: Local) -> (CtxView, u32) {
        let (s1, ty) = self.pointer_type(l.ty, StorageClass::Function);
        s1.variable(ty, StorageClass::Function)
    }

    /// The context after a variable was declared for each of the first `n`
    /// of `locals`, and the variable of each.
    pub open spec fn declare_locals(self, locals: Seq<Local>, n: nat) -> (CtxView, Map<u32, u32>)
        decreases n,
    {
        if n == 0 || n > locals.len() {
            (self, Map::empty())
        } else {
            let (s1, vars) = self.declare_locals(locals, (n - 1) as nat);
            let (s2, var) = s1.declare_local(locals[n - 1]);
            (s2, vars.insert(locals[n - 1].idx, var))
        }
    }

    /// The context after a parameter of type `ty` was declared.  Where the
    /// parameter has a variable, it is stored into it; a parameter that the
    /// body never refers to is declared and left alone.
    #[verifier::opaque]
    pub open spec fn declare_param(self, ty: ValueType, var: Option<u32>) -> CtxView {
        let (s1, t) = self.scalar_type(ty);
        let s2 = CtxView { b: s1.b.declare_parameter(t), ..s1 };
        match var {
            Some(v) => s2.effect(Op::Store, seq![Operand::IdRef(v), Operand::IdRef(s1.b.next_id)]),
            None => s2,
        }
    }

    /// The context after the first `n` of `params` were declared.  The
    /// variable of a parameter is the one that `vars` has for its index.
    pub open spec fn declare_params(
        self,
        params: Seq<ValueType>,
        n: nat,
        vars: Map<u32, u32>,
    ) -> CtxView
        decreases n,
    {
        if n == 0 || n > params.len() {
            self
        } else {
            let idx = (n - 1) as u32;
            self.declare_params(params, (n - 1) as nat, vars).declare_param(
                params[n - 1],
                if vars.contains_key(idx) {
                    Some(vars[idx])
                } else {
                    None
                },
            )
        }
    }

    /// The context after the function with the given result type and
    /// function type was begun under a fresh id, and its first block under
    /// another.
    #[verifier::opaque]
    pub open spec fn open_fun(self, ret: u32, function_type: u32) -> CtxView {
        CtxView {
            b: self.b.begin_function(ret, Control::Unset, function_type),
            ..self
        }.unreachable_block()
    }

    /// The context after a function was begun: its result type (the type
    /// `void` where it returns nothing), the types of its parameters and its
    /// function type are there, and the function and its first block are
    /// open.  With it come the id of the function and the id of its result
    /// type.
    pub open spec fn begin_fun(self, f: FunView) -> (CtxView, (u32, u32)) {
        let (s1, ret) = match f.ty {
            Some(t) => self.scalar_type(t),
            None => self.global(Op::TypeVoid, Seq::empty()),
        };
        let (s2, param_types) = s1.scalar_types(f.params, f.params.len());
        let (s3, function_type) = s2.global(
            Op::TypeFunction,
            seq![Operand::IdRef(ret)] + id_refs(param_types),
        );
        (s3.open_fun(ret, function_type), (s3.b.next_id, ret))
    }

    /// The context after the x component of the thread id was loaded, for
    /// the function that is being lowered to read it from.
    #[verifier::opaque]
    pub open spec fn load_thread_id(self) -> CtxView {
        let (s1, uint) = self.scalar_type(ValueType::I32);
        let (s2, uint_ptr) = s1.pointer_type(ValueType::I32, StorageClass::Input);
        let (s3, zero) = s2.constant(uint, 0);
        let (s4, component) = s3.value(
            Op::AccessChain,
            uint_ptr,
            seq![Operand::IdRef(self.thread_id_v3), Operand::IdRef(zero)],
        );
        let (s5, thread_id) = s4.value(Op::Load, uint, seq![Operand::IdRef(component)]);
        CtxView { thread_id, ..s5 }
    }

    /// The context at the entry of a function's body: the function is begun,
    /// its locals and parameters are declared, and the x component of the
    /// thread id is loaded.
    pub open spec fn enter_fun(self, f: FunView) -> CtxView {
        let locals = f.body.locals_spec();
        let s1 = self.begin_fun(f).0;
        let (s2, vars) = s1.declare_locals(locals, locals.len());
        let s3 = s2.declare_params(f.params, f.params.len(), vars);
        CtxView { locals: vars, ..s3 }.load_thread_id()
    }

    /// The context after the body of a function was left: the open block
    /// ends with a return, of the value `result` where the function returns
    /// one, and the function ends.
    #[verifier::opaque]
    pub open spec fn end_fun(self, valued: bool, result: u32) -> CtxView {
        let s1 = if valued {
            self.terminate(Op::ReturnValue, seq![Operand::IdRef(result)])
        } else {
            self.terminate(Op::Return, Seq::empty())
        };
        CtxView { b: s1.b.close_function(), ..s1 }
    }

    /// The context after the function `f` was lowered and added to the
    /// module.
    pub open spec fn lower_fun(self, f: FunView) -> CtxView {
        let (s1, result) = self.enter_fun(f).lower(f.body);
        let s2 = s1.end_fun(f.ty is Some, result);
        CtxView {
            funs: s2.funs.push(self.begin_fun(f).1),
            reserved: (self.reserved + f.cost()) as u32,
            ..s2
        }
    }

    /// Whether the function `f` is lowered, and if not, why not: for the
    /// first reason for which its body cannot be lowered, or else because the
    /// ids reserved so far and the cost of the function are more than there
    /// are ids.
    pub open spec fn judge(self, f: FunView) -> Result<(), CompileError> {
        match f.body.first_error(false, self.funs.len()) {
            Some(e) => Err(e),
            None => if self.reserved + f.cost() > u32::MAX {
                Err(CompileError::TooManyIds)
            } else {
                Ok(())
            },
        }
    }

    /// The module that comes out when the context is done.  Where an entry is
    /// given, the function with that index becomes the one entry point: a
    /// `GLCompute` kernel named `main` whose interface is the thread id, with
    /// a local size of 64 by 1 by 1.
    pub open spec fn finish(self, entry: Option<u32>) -> ModuleView {
        match entry {
            Some(k) => {
                let f = self.funs[k as int].0;
                self.b.add_entry_point(
                    Inst::effect(
                        Op::EntryPoint,
                        seq![
                            Operand::ExecutionModel(ExecutionModel::GLCompute),
                            Operand::IdRef(f),
                            Operand::LiteralString(entry_name()),
                            Operand::IdRef(self.thread_id_v3),
                        ],
                    ),
                ).add_execution_mode(
                    Inst::effect(
                        Op::ExecutionMode,
                        seq![
                            Operand::IdRef(f),
                            Operand::ExecutionMode(ExecutionMode::LocalSize),
                            Operand::LiteralInt32(LOCAL_SIZE_X),
                            Operand::LiteralInt32(LOCAL_SIZE_Y),
                            Operand::LiteralInt32(LOCAL_SIZE_Z),
                        ],
                    ),
                ).finished()
            },
            None => self.b.finished(),
        }
    }
}

} // verus!
