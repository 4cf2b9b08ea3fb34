//! Every step of the translation leaves the ids in order: what it declares,
//! it declares under an id that was handed out for it and for nothing else.

use vstd::prelude::*;
use crate::ids::{
    extends, ids_ok, lemma_count_close_function, lemma_count_open_block, lemma_count_steps,
    lemma_count_terminate, lemma_extends_by_next, lemma_extends_by_nothing, lemma_extends_ok,
    lemma_extends_self, lemma_extends_twice, lemma_ids_begin_pending, lemma_ids_reserve,
};
use crate::ir::{Const, FunView, ICompOp, INumOp, Local, Tree, ValueType, Width};
use crate::lowering::{slot, Access, CtxView, Loop, Selection, WORD_BYTES};
use crate::model::{BuilderView, Control, Inst, Op, Operand, StorageClass};
use crate::steady::{
    lemma_if_begin_steady, lemma_if_else_steady, lemma_if_then_steady, lemma_load_begin_steady,
    lemma_loop_begin_steady, lemma_lower_list_steady, lemma_lower_steady,
    lemma_pointer_type_steady, lemma_scalar_type_steady, lemma_store_begin_steady,
    lemma_word_pointer_steady,
};

verus! {

/// A global with a fresh id extends the builder.
pub proof fn lemma_define_global_extends(
    b: BuilderView,
    op: Op,
    result_type: Option<u32>,
    operands: Seq<Operand>,
)
    requires
        b.next_id < u32::MAX,
    ensures
        extends(b, b.define_global(op, result_type, operands)),
{
    let inst = Inst { op, result_type, result_id: Some(b.next_id), operands };
    let after = b.define_global(op, result_type, operands);
    assert forall|x: u32|
        #[trigger] after.count(x) == b.count(x) + (if x == b.next_id {
            1nat
        } else {
            0nat
        }) by {
        lemma_count_steps(b, inst, x);
        lemma_count_steps(b.take_id(), inst, x);
    }
    lemma_extends_by_next(b, after);
}

/// An instruction with a fresh id in the open block extends the builder.
pub proof fn lemma_emit_value_extends(b: BuilderView, op: Op, ty: u32, operands: Seq<Operand>)
    requires
        b.next_id < u32::MAX,
        b.block is Some,
    ensures
        extends(b, b.emit_value(op, ty, operands)),
{
    let inst = Inst::value(op, ty, b.next_id, operands);
    let after = b.emit_value(op, ty, operands);
    assert forall|x: u32|
        #[trigger] after.count(x) == b.count(x) + (if x == b.next_id {
            1nat
        } else {
            0nat
        }) by {
        lemma_count_steps(b, inst, x);
        lemma_count_steps(b.take_id(), inst, x);
    }
    lemma_extends_by_next(b, after);
}

/// An instruction without an id in the open block extends the builder.
pub proof fn lemma_emit_effect_extends(b: BuilderView, op: Op, operands: Seq<Operand>)
    ensures
        extends(b, b.emit_effect(op, operands)),
{
    let after = b.emit_effect(op, operands);
    assert forall|x: u32| #[trigger] after.count(x) == b.count(x) by {
        lemma_count_steps(b, Inst::effect(op, operands), x);
    }
    lemma_extends_by_nothing(b, after);
}

/// The end of the open block extends the builder.
pub proof fn lemma_terminate_extends(b: BuilderView, op: Op, operands: Seq<Operand>)
    requires
        b.block is Some ==> b.function is Some,
    ensures
        extends(b, b.terminate(op, operands)),
{
    let after = b.terminate(op, operands);
    assert forall|x: u32| #[trigger] after.count(x) == b.count(x) by {
        if b.block is Some {
            lemma_count_terminate(b, op, operands, x);
        }
    }
    lemma_extends_by_nothing(b, after);
}

/// The begin of a block under a fresh label extends the builder.
pub proof fn lemma_begin_fresh_block_extends(b: BuilderView)
    requires
        b.next_id < u32::MAX,
        b.can_begin_block(),
    ensures
        extends(b, b.begin_block(None)),
{
    let after = b.begin_block(None);
    assert forall|x: u32|
        #[trigger] after.count(x) == b.count(x) + (if x == b.next_id {
            1nat
        } else {
            0nat
        }) by {
        lemma_count_steps(b, Inst::effect(Op::Label, Seq::empty()), x);
        lemma_count_open_block(b.take_id(), b.next_id, x);
    }
    lemma_extends_by_next(b, after);
}

/// A variable with a fresh id extends the builder.
pub proof fn lemma_declare_variable_extends(b: BuilderView, ty: u32, class: StorageClass)
    requires
        b.next_id < u32::MAX,
    ensures
        extends(b, b.declare_variable(ty, class)),
{
    let inst = Inst::value(Op::Variable, ty, b.next_id, seq![Operand::StorageClass(class)]);
    let after = b.declare_variable(ty, class);
    assert forall|x: u32|
        #[trigger] after.count(x) == b.count(x) + (if x == b.next_id {
            1nat
        } else {
            0nat
        }) by {
        lemma_count_steps(b, inst, x);
        lemma_count_steps(b.take_id(), inst, x);
    }
    lemma_extends_by_next(b, after);
}

/// A parameter with a fresh id extends the builder.
pub proof fn lemma_declare_parameter_extends(b: BuilderView, ty: u32)
    requires
        b.next_id < u32::MAX,
    ensures
        extends(b, b.declare_parameter(ty)),
{
    let inst = Inst::value(Op::FunctionParameter, ty, b.next_id, Seq::empty());
    let after = b.declare_parameter(ty);
    if b.function is Some {
        assert forall|x: u32|
            #[trigger] after.count(x) == b.count(x) + (if x == b.next_id {
                1nat
            } else {
                0nat
            }) by {
            lemma_count_steps(b, inst, x);
            lemma_count_steps(b.take_id(), inst, x);
        }
        lemma_extends_by_next(b, after);
    } else {
        lemma_extends_self(b);
    }
}

/// A function with a fresh id extends the builder.
pub proof fn lemma_begin_function_extends(b: BuilderView, ret: u32, function_type: u32)
    requires
        b.next_id < u32::MAX,
    ensures
        extends(b, b.begin_function(ret, Control::Unset, function_type)),
{
    let inst = Inst::value(
        Op::Function,
        ret,
        b.next_id,
        seq![Operand::FunctionControl(Control::Unset), Operand::IdRef(function_type)],
    );
    let after = b.begin_function(ret, Control::Unset, function_type);
    if b.function is None {
        assert forall|x: u32|
            #[trigger] after.count(x) == b.count(x) + (if x == b.next_id {
                1nat
            } else {
                0nat
            }) by {
            lemma_count_steps(b, inst, x);
            lemma_count_steps(b.take_id(), inst, x);
        }
        lemma_extends_by_next(b, after);
    } else {
        lemma_extends_self(b);
    }
}

/// The end of the open function extends the builder.
pub proof fn lemma_close_function_extends(b: BuilderView)
    requires
        b.function matches Some(f) ==> f.end is None,
    ensures
        extends(b, b.close_function()),
{
    let after = b.close_function();
    assert forall|x: u32| #[trigger] after.count(x) == b.count(x) by {
        if b.function is Some {
            lemma_count_close_function(b, x);
        }
    }
    lemma_extends_by_nothing(b, after);
}

/// Asking for the type of a value type extends the builder.
pub proof fn lemma_scalar_type_extends(s: CtxView, t: ValueType)
    requires
        s.b.next_id + 1 <= u32::MAX,
    ensures
        extends(s.b, s.scalar_type(t).0.b),
{
    if s.tys.of(t) is None {
        lemma_define_global_extends(s.b, t.type_op(), None, t.type_operands());
    } else {
        lemma_extends_self(s.b);
    }
}

/// Asking for the boolean type extends the builder.
pub proof fn lemma_bool_type_extends(s: CtxView)
    requires
        s.b.next_id + 1 <= u32::MAX,
    ensures
        extends(s.b, s.bool_type().0.b),
{
    if s.tys.b is None {
        lemma_define_global_extends(s.b, Op::TypeBool, None, Seq::empty());
    } else {
        lemma_extends_self(s.b);
    }
}

/// Asking for a type of pointers extends the builder.
pub proof fn lemma_pointer_type_extends(s: CtxView, t: ValueType, class: StorageClass)
    requires
        s.b.next_id + 2 <= u32::MAX,
    ensures
        extends(s.b, s.pointer_type(t, class).0.b),
{
    if s.ptrs[slot(t, class)] is None {
        lemma_scalar_type_extends(s, t);
        let (s1, pointee) = s.scalar_type(t);
        lemma_define_global_extends(
            s1.b,
            Op::TypePointer,
            None,
            seq![Operand::StorageClass(class), Operand::IdRef(pointee)],
        );
        lemma_extends_twice(s.b, s1.b, s.pointer_type(t, class).0.b);
    } else {
        lemma_extends_self(s.b);
    }
}

/// A constant extends the builder.
pub proof fn lemma_constant_extends(s: CtxView, ty: u32, value: u32)
    requires
        s.b.next_id + 1 <= u32::MAX,
    ensures
        extends(s.b, s.constant(ty, value).0.b),
{
    lemma_define_global_extends(s.b, Op::Constant, Some(ty), seq![Operand::LiteralInt32(value)]);
}

/// An instruction with a value extends the builder.
pub proof fn lemma_value_extends(s: CtxView, op: Op, ty: u32, operands: Seq<Operand>)
    requires
        s.b.next_id + 1 <= u32::MAX,
    ensures
        extends(s.b, s.value(op, ty, operands).0.b),
{
    if s.b.block is Some {
        lemma_emit_value_extends(s.b, op, ty, operands);
    } else {
        lemma_extends_self(s.b);
    }
}

/// The end of the open block and the begin of an unreachable block extend
/// the builder.
pub proof fn lemma_dead_block_extends(s: CtxView, op: Op, operands: Seq<Operand>)
    requires
        s.inside(),
        s.b.next_id + 1 <= u32::MAX,
    ensures
        extends(s.b, s.terminate(op, operands).unreachable_block().b),
{
    lemma_terminate_extends(s.b, op, operands);
    let b1 = s.b.terminate(op, operands);
    lemma_begin_fresh_block_extends(b1);
    lemma_extends_twice(s.b, b1, b1.begin_block(None));
}

/// The pointer to a word of the storage buffer extends the builder.
pub proof fn lemma_word_pointer_extends(
    s: CtxView,
    uint: u32,
    zero: u32,
    pointer_type: u32,
    addr: u32,
)
    requires
        s.inside(),
        s.b.next_id + 3 <= u32::MAX,
    ensures
        extends(s.b, s.word_pointer(uint, zero, pointer_type, addr).0.b),
{
    lemma_constant_extends(s, uint, WORD_BYTES);
    let (s1, four) = s.constant(uint, WORD_BYTES);
    lemma_value_extends(s1, Op::UDiv, uint, seq![Operand::IdRef(addr), Operand::IdRef(four)]);
    let (s2, index) = s1.value(Op::UDiv, uint, seq![Operand::IdRef(addr), Operand::IdRef(four)]);
    lemma_value_extends(
        s2,
        Op::AccessChain,
        pointer_type,
        seq![Operand::IdRef(s.buffer), Operand::IdRef(zero), Operand::IdRef(index)],
    );
    lemma_extends_twice(s.b, s1.b, s2.b);
    lemma_extends_twice(s.b, s2.b, s.word_pointer(uint, zero, pointer_type, addr).0.b);
}

/// A call extends the builder.
pub proof fn lemma_call_extends(s: CtxView, i: u32, args: Seq<u32>)
    requires
        s.b.next_id + 1 <= u32::MAX,
    ensures
        extends(s.b, s.call(i, args).0.b),
{
    reveal(CtxView::call);
    let (f, t) = s.funs[i as int];
    lemma_value_extends(
        s,
        Op::FunctionCall,
        t,
        seq![Operand::IdRef(f)] + crate::model::id_refs(args),
    );
}

/// Arithmetic extends the builder.
pub proof fn lemma_num_op_extends(s: CtxView, w: Width, op: INumOp, lhs: u32, rhs: u32)
    requires
        s.b.next_id + 2 <= u32::MAX,
    ensures
        extends(s.b, s.num_op(w, op, lhs, rhs).0.b),
{
    reveal(CtxView::num_op);
    lemma_scalar_type_extends(s, w.value_type());
    let (s1, ty) = s.int_type(w);
    lemma_value_extends(s1, op.op(), ty, seq![Operand::IdRef(lhs), Operand::IdRef(rhs)]);
    lemma_extends_twice(s.b, s1.b, s.num_op(w, op, lhs, rhs).0.b);
}

/// A comparison extends the builder.
pub proof fn lemma_comp_op_extends(s: CtxView, w: Width, op: ICompOp, lhs: u32, rhs: u32)
    requires
        s.b.next_id + 6 <= u32::MAX,
    ensures
        extends(s.b, s.comp_op(w, op, lhs, rhs).0.b),
{
    reveal(CtxView::comp_op);
    lemma_scalar_type_extends(s, w.value_type());
    let (s1, ty) = s.int_type(w);
    lemma_bool_type_extends(s1);
    let (s2, t_bool) = s1.bool_type();
    lemma_extends_twice(s.b, s1.b, s2.b);
    lemma_value_extends(s2, op.op(), t_bool, seq![Operand::IdRef(lhs), Operand::IdRef(rhs)]);
    let (s3, flag) = s2.value(op.op(), t_bool, seq![Operand::IdRef(lhs), Operand::IdRef(rhs)]);
    lemma_extends_twice(s.b, s2.b, s3.b);
    lemma_constant_extends(s3, ty, 0);
    let (s4, zero) = s3.constant(ty, 0);
    lemma_extends_twice(s.b, s3.b, s4.b);
    lemma_constant_extends(s4, ty, 1);
    let (s5, one) = s4.constant(ty, 1);
    lemma_extends_twice(s.b, s4.b, s5.b);
    lemma_value_extends(
        s5,
        Op::Select,
        ty,
        seq![Operand::IdRef(flag), Operand::IdRef(one), Operand::IdRef(zero)],
    );
    lemma_extends_twice(s.b, s5.b, s.comp_op(w, op, lhs, rhs).0.b);
}

/// A constant of the tree extends the builder.
pub proof fn lemma_constant_of_extends(s: CtxView, c: Const)
    requires
        s.b.next_id + 2 <= u32::MAX,
    ensures
        extends(s.b, s.constant_of(c).0.b),
{
    reveal(CtxView::constant_of);
    match c {
        Const::I32(i) => {
            lemma_scalar_type_extends(s, ValueType::I32);
            let (s1, ty) = s.scalar_type(ValueType::I32);
            lemma_constant_extends(s1, ty, i as u32);
            lemma_extends_twice(s.b, s1.b, s.constant_of(c).0.b);
        },
        Const::F32(bits) => {
            lemma_scalar_type_extends(s, ValueType::F32);
            let (s1, ty) = s.scalar_type(ValueType::F32);
            lemma_constant_extends(s1, ty, bits);
            lemma_extends_twice(s.b, s1.b, s.constant_of(c).0.b);
        },
        _ => {
            lemma_extends_self(s.b);
        },
    }
}

/// The read of a local extends the builder.
pub proof fn lemma_get_local_extends(s: CtxView, l: Local)
    requires
        s.b.next_id + 2 <= u32::MAX,
    ensures
        extends(s.b, s.get_local(l).0.b),
{
    reveal(CtxView::get_local);
    lemma_scalar_type_extends(s, l.ty);
    let (s1, ty) = s.scalar_type(l.ty);
    lemma_value_extends(s1, Op::Load, ty, seq![Operand::IdRef(s.locals[l.idx])]);
    lemma_extends_twice(s.b, s1.b, s.get_local(l).0.b);
}

/// The write of a local extends the builder.
pub proof fn lemma_set_local_extends(s: CtxView, var: u32, v: u32)
    ensures
        extends(s.b, s.set_local(var, v).b),
{
    reveal(CtxView::set_local);
    lemma_emit_effect_extends(s.b, Op::Store, seq![Operand::IdRef(var), Operand::IdRef(v)]);
}

/// What a load declares before its address extends the builder.
pub proof fn lemma_load_begin_extends(s: CtxView, ty: ValueType)
    requires
        s.inside(),
        s.b.next_id + 5 <= u32::MAX,
    ensures
        extends(s.b, s.load_begin(ty).0.b),
{
    reveal(CtxView::load_begin);
    lemma_scalar_type_extends(s, ValueType::I32);
    lemma_scalar_type_steady(s, ValueType::I32);
    let (s1, uint) = s.scalar_type(ValueType::I32);
    lemma_constant_extends(s1, uint, 0);
    let (s2, zero) = s1.constant(uint, 0);
    lemma_extends_twice(s.b, s1.b, s2.b);
    lemma_pointer_type_extends(s2, ty, StorageClass::Uniform);
    lemma_pointer_type_steady(s2, ty, StorageClass::Uniform);
    let (s3, pointer_type) = s2.pointer_type(ty, StorageClass::Uniform);
    lemma_extends_twice(s.b, s2.b, s3.b);
    lemma_scalar_type_extends(s3, ty);
    lemma_extends_twice(s.b, s3.b, s.load_begin(ty).0.b);
}

/// A load extends the builder.
pub proof fn lemma_load_end_extends(s: CtxView, access: Access, addr: u32)
    requires
        s.inside(),
        s.b.next_id + 4 <= u32::MAX,
    ensures
        extends(s.b, s.load_end(access, addr).0.b),
{
    reveal(CtxView::load_end);
    lemma_word_pointer_extends(s, access.uint, access.zero, access.pointer_type, addr);
    lemma_word_pointer_steady(s, access.uint, access.zero, access.pointer_type, addr);
    let (s1, pointer) = s.word_pointer(access.uint, access.zero, access.pointer_type, addr);
    lemma_value_extends(s1, Op::Load, access.result_type, seq![Operand::IdRef(pointer)]);
    lemma_extends_twice(s.b, s1.b, s.load_end(access, addr).0.b);
}

/// What a store declares before its operands extends the builder.
pub proof fn lemma_store_begin_extends(s: CtxView)
    requires
        s.b.next_id + 2 <= u32::MAX,
    ensures
        extends(s.b, s.store_begin().0.b),
{
    reveal(CtxView::store_begin);
    lemma_scalar_type_extends(s, ValueType::I32);
    let (s1, uint) = s.scalar_type(ValueType::I32);
    lemma_constant_extends(s1, uint, 0);
    lemma_extends_twice(s.b, s1.b, s.store_begin().0.b);
}

/// A store extends the builder.
pub proof fn lemma_store_end_extends(
    s: CtxView,
    ty: ValueType,
    uint: u32,
    zero: u32,
    addr: u32,
    v: u32,
)
    requires
        s.inside(),
        s.b.next_id + 5 <= u32::MAX,
    ensures
        extends(s.b, s.store_end(ty, uint, zero, addr, v).b),
{
    reveal(CtxView::store_end);
    lemma_pointer_type_extends(s, ty, StorageClass::Uniform);
    lemma_pointer_type_steady(s, ty, StorageClass::Uniform);
    let (s1, pointer_type) = s.pointer_type(ty, StorageClass::Uniform);
    lemma_word_pointer_extends(s1, uint, zero, pointer_type, addr);
    let (s2, pointer) = s1.word_pointer(uint, zero, pointer_type, addr);
    lemma_extends_twice(s.b, s1.b, s2.b);
    lemma_emit_effect_extends(s2.b, Op::Store, seq![Operand::IdRef(pointer), Operand::IdRef(v)]);
    lemma_extends_twice(s.b, s2.b, s.store_end(ty, uint, zero, addr, v).b);
}

/// A branch out of the open block extends the builder.
pub proof fn lemma_jump_extends(s: CtxView, target: u32)
    requires
        s.inside(),
        s.b.next_id + 1 <= u32::MAX,
    ensures
        extends(s.b, s.jump(target).b),
{
    reveal(CtxView::jump);
    lemma_dead_block_extends(s, Op::Branch, seq![Operand::IdRef(target)]);
}

/// A return out of the open block extends the builder.
pub proof fn lemma_leave_extends(s: CtxView)
    requires
        s.inside(),
        s.b.next_id + 1 <= u32::MAX,
    ensures
        extends(s.b, s.leave().b),
{
    reveal(CtxView::leave);
    lemma_dead_block_extends(s, Op::Return, Seq::empty());
}

/// The labels of a selection are pending when they are taken.
pub proof fn lemma_if_begin_ids(s: CtxView, pending: Set<u32>)
    requires
        ids_ok(s.b, pending),
        s.b.next_id + 3 <= u32::MAX,
    ensures
        ids_ok(
            s.if_begin().0.b,
            pending.insert(s.if_begin().1.l_t).insert(s.if_begin().1.l_f).insert(s.if_begin().1.l_m),
        ),
        !pending.contains(s.if_begin().1.l_t),
        !pending.contains(s.if_begin().1.l_f),
        !pending.contains(s.if_begin().1.l_m),
        s.if_begin().1.l_t != s.if_begin().1.l_f,
        s.if_begin().1.l_t != s.if_begin().1.l_m,
        s.if_begin().1.l_f != s.if_begin().1.l_m,
{
    reveal(CtxView::if_begin);
    assert(!pending.contains(s.b.next_id) && !pending.contains((s.b.next_id + 1) as u32)
        && !pending.contains((s.b.next_id + 2) as u32)) by {
        reveal(ids_ok);
    }
    lemma_ids_reserve(s.b, pending);
    let (s1, l_t) = s.label();
    lemma_ids_reserve(s1.b, pending.insert(l_t));
    let (s2, l_f) = s1.label();
    lemma_ids_reserve(s2.b, pending.insert(l_t).insert(l_f));
}

/// The branch of a selection begins the block of its first label.
pub proof fn lemma_if_then_ids(s: CtxView, labels: Selection, cond: u32, pending: Set<u32>)
    requires
        ids_ok(s.b, pending),
        pending.contains(labels.l_t),
        s.inside(),
        s.b.next_id + 4 <= u32::MAX,
    ensures
        ids_ok(s.if_then(labels, cond).b, pending.remove(labels.l_t)),
{
    reveal(CtxView::if_then);
    lemma_scalar_type_extends(s, ValueType::I32);
    lemma_scalar_type_steady(s, ValueType::I32);
    let (s1, uint) = s.scalar_type(ValueType::I32);
    lemma_constant_extends(s1, uint, 0);
    let (s2, zero) = s1.constant(uint, 0);
    lemma_extends_twice(s.b, s1.b, s2.b);
    lemma_bool_type_extends(s2);
    let (s3, t_bool) = s2.bool_type();
    lemma_extends_twice(s.b, s2.b, s3.b);
    lemma_value_extends(s3, Op::INotEqual, t_bool, seq![Operand::IdRef(cond), Operand::IdRef(zero)]);
    let (s4, flag) = s3.value(
        Op::INotEqual,
        t_bool,
        seq![Operand::IdRef(cond), Operand::IdRef(zero)],
    );
    lemma_extends_twice(s.b, s3.b, s4.b);
    lemma_emit_effect_extends(
        s4.b,
        Op::SelectionMerge,
        seq![Operand::IdRef(labels.l_m), Operand::SelectionControl(Control::Unset)],
    );
    let s5 = s4.effect(
        Op::SelectionMerge,
        seq![Operand::IdRef(labels.l_m), Operand::SelectionControl(Control::Unset)],
    );
    lemma_extends_twice(s.b, s4.b, s5.b);
    lemma_terminate_extends(
        s5.b,
        Op::BranchConditional,
        seq![Operand::IdRef(flag), Operand::IdRef(labels.l_t), Operand::IdRef(labels.l_f)],
    );
    let s6 = s5.terminate(
        Op::BranchConditional,
        seq![Operand::IdRef(flag), Operand::IdRef(labels.l_t), Operand::IdRef(labels.l_f)],
    );
    lemma_extends_twice(s.b, s5.b, s6.b);
    lemma_extends_ok(s.b, s6.b, pending);
    lemma_ids_begin_pending(s6.b, pending, labels.l_t);
}

/// The end of the open block and the begin of the block of a pending label.
pub proof fn lemma_next_block_ids(
    s: CtxView,
    op: Op,
    operands: Seq<Operand>,
    label: u32,
    pending: Set<u32>,
)
    requires
        ids_ok(s.b, pending),
        pending.contains(label),
        s.inside(),
    ensures
        ids_ok(s.terminate(op, operands).block(label).b, pending.remove(label)),
{
    lemma_terminate_extends(s.b, op, operands);
    let s1 = s.terminate(op, operands);
    lemma_extends_ok(s.b, s1.b, pending);
    lemma_ids_begin_pending(s1.b, pending, label);
}

/// The second branch of a selection begins the block of its second label.
pub proof fn lemma_if_else_ids(s: CtxView, labels: Selection, pending: Set<u32>)
    requires
        ids_ok(s.b, pending),
        pending.contains(labels.l_f),
        s.inside(),
    ensures
        ids_ok(s.if_else(labels).b, pending.remove(labels.l_f)),
{
    reveal(CtxView::if_else);
    lemma_next_block_ids(s, Op::Branch, seq![Operand::IdRef(labels.l_m)], labels.l_f, pending);
}

/// The end of a selection begins the block of its third label.
pub proof fn lemma_if_end_ids(s: CtxView, labels: Selection, pending: Set<u32>)
    requires
        ids_ok(s.b, pending),
        pending.contains(labels.l_m),
        s.inside(),
    ensures
        ids_ok(s.if_end(labels).b, pending.remove(labels.l_m)),
{
    reveal(CtxView::if_end);
    lemma_next_block_ids(s, Op::Branch, seq![Operand::IdRef(labels.l_m)], labels.l_m, pending);
}

/// The head of a loop leaves the labels of its continue block and its merge
/// block pending.
pub proof fn lemma_loop_begin_ids(s: CtxView, pending: Set<u32>)
    requires
        ids_ok(s.b, pending),
        s.inside(),
        s.b.next_id + 4 <= u32::MAX,
    ensures
        ids_ok(
            s.loop_begin().0.b,
            pending.insert(s.loop_begin().1.cont).insert(s.loop_begin().1.end),
        ),
        !pending.contains(s.loop_begin().1.cont),
        !pending.contains(s.loop_begin().1.end),
        s.loop_begin().1.cont != s.loop_begin().1.end,
{
    reveal(CtxView::loop_begin);
    assert(!pending.contains(s.b.next_id) && !pending.contains((s.b.next_id + 1) as u32)
        && !pending.contains((s.b.next_id + 2) as u32) && !pending.contains(
        (s.b.next_id + 3) as u32,
    )) by {
        reveal(ids_ok);
    }
    lemma_ids_reserve(s.b, pending);
    let (s1, head) = s.label();
    let q1 = pending.insert(head);
    lemma_ids_reserve(s1.b, q1);
    let (s2, cont) = s1.label();
    let q2 = q1.insert(cont);
    lemma_ids_reserve(s2.b, q2);
    let (s3, end) = s2.label();
    let q3 = q2.insert(end);
    lemma_ids_reserve(s3.b, q3);
    let (s4, first) = s3.label();
    let q4 = q3.insert(first);
    lemma_next_block_ids(s4, Op::Branch, seq![Operand::IdRef(head)], head, q4);
    let s5 = s4.terminate(Op::Branch, seq![Operand::IdRef(head)]).block(head);
    let q5 = q4.remove(head);
    lemma_emit_effect_extends(
        s5.b,
        Op::LoopMerge,
        seq![Operand::IdRef(end), Operand::IdRef(cont), Operand::LoopControl(Control::Unset)],
    );
    let s6 = s5.effect(
        Op::LoopMerge,
        seq![Operand::IdRef(end), Operand::IdRef(cont), Operand::LoopControl(Control::Unset)],
    );
    lemma_extends_ok(s5.b, s6.b, q5);
    lemma_next_block_ids(s6, Op::Branch, seq![Operand::IdRef(first)], first, q5);
    assert(q5.remove(first) =~= pending.insert(cont).insert(end));
}

/// The end of a loop begins the blocks of its two pending labels.
pub proof fn lemma_loop_end_ids(s: CtxView, frame: Loop, pending: Set<u32>)
    requires
        ids_ok(s.b, pending),
        pending.contains(frame.cont),
        pending.contains(frame.end),
        frame.cont != frame.end,
        s.inside(),
    ensures
        ids_ok(s.loop_end(frame).b, pending.remove(frame.cont).remove(frame.end)),
{
    reveal(CtxView::loop_end);
    let s0 = s.with_loops(s.loops.drop_last());
    lemma_next_block_ids(s0, Op::Branch, seq![Operand::IdRef(frame.end)], frame.cont, pending);
    let s1 = s0.terminate(Op::Branch, seq![Operand::IdRef(frame.end)]).block(frame.cont);
    lemma_next_block_ids(
        s1,
        Op::Branch,
        seq![Operand::IdRef(frame.head)],
        frame.end,
        pending.remove(frame.cont),
    );
}

/// Lowering a node inside a function leaves the ids in order, and the
/// pending labels pending.
pub proof fn lemma_lower_ids(s: CtxView, node: Tree, pending: Set<u32>)
    requires
        ids_ok(s.b, pending),
        s.inside(),
        s.b.next_id + node.cost() <= u32::MAX,
    ensures
        ids_ok(s.lower(node).0.b, pending),
    decreases node, 0nat,
{
    match node {
        Tree::Call(i, args) => {
            lemma_lower_list_ids(s, args, args.len(), pending);
            lemma_lower_list_steady(s, args, args.len());
            let (s1, ids) = s.lower_list(args, args.len());
            lemma_call_extends(s1, i, ids);
            lemma_extends_ok(s1.b, s1.call(i, ids).0.b, pending);
        },
        Tree::Nop => {},
        Tree::INumOp(w, op, a, b) => {
            lemma_lower_ids(s, *a, pending);
            lemma_lower_steady(s, *a);
            let (s1, lhs) = s.lower(*a);
            lemma_lower_ids(s1, *b, pending);
            lemma_lower_steady(s1, *b);
            let (s2, rhs) = s1.lower(*b);
            lemma_num_op_extends(s2, w, op, lhs, rhs);
            lemma_extends_ok(s2.b, s2.num_op(w, op, lhs, rhs).0.b, pending);
        },
        Tree::ICompOp(w, op, a, b) => {
            lemma_lower_ids(s, *a, pending);
            lemma_lower_steady(s, *a);
            let (s1, lhs) = s.lower(*a);
            lemma_lower_ids(s1, *b, pending);
            lemma_lower_steady(s1, *b);
            let (s2, rhs) = s1.lower(*b);
            lemma_comp_op_extends(s2, w, op, lhs, rhs);
            lemma_extends_ok(s2.b, s2.comp_op(w, op, lhs, rhs).0.b, pending);
        },
        Tree::Const(c) => {
            lemma_constant_of_extends(s, c);
            lemma_extends_ok(s.b, s.constant_of(c).0.b, pending);
        },
        Tree::Sequence(a, b) => {
            lemma_lower_ids(s, *a, pending);
            lemma_lower_steady(s, *a);
            lemma_lower_ids(s.lower(*a).0, *b, pending);
        },
        Tree::GetLocal(l) => {
            lemma_get_local_extends(s, l);
            lemma_extends_ok(s.b, s.get_local(l).0.b, pending);
        },
        Tree::SetLocal(l, val) => {
            lemma_lower_ids(s, *val, pending);
            let (s1, v) = s.lower(*val);
            lemma_set_local_extends(s1, s.locals[l.idx], v);
            lemma_extends_ok(s1.b, s1.set_local(s.locals[l.idx], v).b, pending);
        },
        Tree::GetGlobal(_) => {},
        Tree::Load(ty, addr) => {
            lemma_load_begin_extends(s, ty);
            lemma_load_begin_steady(s, ty);
            let (s1, access) = s.load_begin(ty);
            lemma_extends_ok(s.b, s1.b, pending);
            lemma_lower_ids(s1, *addr, pending);
            lemma_lower_steady(s1, *addr);
            let (s2, a) = s1.lower(*addr);
            lemma_load_end_extends(s2, access, a);
            lemma_extends_ok(s2.b, s2.load_end(access, a).0.b, pending);
        },
        Tree::Store(ty, addr, val) => {
            lemma_store_begin_extends(s);
            lemma_store_begin_steady(s);
            let (s1, (uint, zero)) = s.store_begin();
            lemma_extends_ok(s.b, s1.b, pending);
            lemma_lower_ids(s1, *addr, pending);
            lemma_lower_steady(s1, *addr);
            let (s2, a) = s1.lower(*addr);
            lemma_lower_ids(s2, *val, pending);
            lemma_lower_steady(s2, *val);
            let (s3, v) = s2.lower(*val);
            lemma_store_end_extends(s3, ty, uint, zero, a, v);
            lemma_extends_ok(s3.b, s3.store_end(ty, uint, zero, a, v).b, pending);
        },
        Tree::If { cond, t, f } => {
            lemma_if_begin_ids(s, pending);
            lemma_if_begin_steady(s);
            let (s1, labels) = s.if_begin();
            let q3 = pending.insert(labels.l_t).insert(labels.l_f).insert(labels.l_m);
            lemma_lower_ids(s1, *cond, q3);
            lemma_lower_steady(s1, *cond);
            let (s2, c) = s1.lower(*cond);
            lemma_if_then_ids(s2, labels, c, q3);
            lemma_if_then_steady(s2, labels, c);
            let s3 = s2.if_then(labels, c);
            let q2 = q3.remove(labels.l_t);
            lemma_lower_ids(s3, *t, q2);
            lemma_lower_steady(s3, *t);
            let s4 = s3.lower(*t).0;
            lemma_if_else_ids(s4, labels, q2);
            lemma_if_else_steady(s4, labels);
            let s5 = s4.if_else(labels);
            let q1 = q2.remove(labels.l_f);
            lemma_lower_ids(s5, *f, q1);
            lemma_lower_steady(s5, *f);
            let s6 = s5.lower(*f).0;
            lemma_if_end_ids(s6, labels, q1);
            assert(q1.remove(labels.l_m) =~= pending);
        },
        Tree::Loop(body) => {
            lemma_loop_begin_ids(s, pending);
            lemma_loop_begin_steady(s);
            let (s1, frame) = s.loop_begin();
            let q2 = pending.insert(frame.cont).insert(frame.end);
            lemma_lower_ids(s1, *body, q2);
            lemma_lower_steady(s1, *body);
            let s2 = s1.lower(*body).0;
            lemma_loop_end_ids(s2, frame, q2);
            assert(q2.remove(frame.cont).remove(frame.end) =~= pending);
        },
        Tree::Continue => {
            lemma_jump_extends(s, s.loops.last().cont);
            lemma_extends_ok(s.b, s.jump(s.loops.last().cont).b, pending);
        },
        Tree::Break => {
            lemma_jump_extends(s, s.loops.last().end);
            lemma_extends_ok(s.b, s.jump(s.loops.last().end).b, pending);
        },
        Tree::Return => {
            lemma_leave_extends(s);
            lemma_extends_ok(s.b, s.leave().b, pending);
        },
    }
}

/// Lowering a list of nodes inside a function leaves the ids in order, and
/// the pending labels pending.
pub proof fn lemma_lower_list_ids(s: CtxView, nodes: Seq<Tree>, n: nat, pending: Set<u32>)
    requires
        ids_ok(s.b, pending),
        s.inside(),
        n <= nodes.len(),
        s.b.next_id + Tree::cost_of(nodes, n) <= u32::MAX,
    ensures
        ids_ok(s.lower_list(nodes, n).0.b, pending),
    decreases nodes, n,
{
    if n > 0 {
        lemma_lower_list_ids(s, nodes, (n - 1) as nat, pending);
        lemma_lower_list_steady(s, nodes, (n - 1) as nat);
        let s1 = s.lower_list(nodes, (n - 1) as nat).0;
        lemma_lower_ids(s1, nodes[n - 1], pending);
    }
}

/// Asking for the types of a list of value types extends the builder.
pub proof fn lemma_scalar_types_extends(s: CtxView, types: Seq<ValueType>, n: nat)
    requires
        n <= types.len(),
        s.b.next_id + n <= u32::MAX,
    ensures
        extends(s.b, s.scalar_types(types, n).0.b),
        s.scalar_types(types, n).0.b.next_id <= s.b.next_id + n,
    decreases n,
{
    if n > 0 {
        lemma_scalar_types_extends(s, types, (n - 1) as nat);
        let s1 = s.scalar_types(types, (n - 1) as nat).0;
        lemma_scalar_type_extends(s1, types[n - 1]);
        lemma_extends_twice(s.b, s1.b, s.scalar_types(types, n).0.b);
    } else {
        lemma_extends_self(s.b);
    }
}

/// Beginning a function extends the builder.
pub proof fn lemma_begin_fun_extends(s: CtxView, f: FunView)
    requires
        s.sound(),
        s.outside(),
        s.b.next_id + f.params.len() + 4 <= u32::MAX,
    ensures
        extends(s.b, s.begin_fun(f).0.b),
{
    let (s1, ret) = match f.ty {
        Some(t) => s.scalar_type(t),
        None => s.global(Op::TypeVoid, Seq::empty()),
    };
    match f.ty {
        Some(t) => {
            lemma_scalar_type_extends(s, t);
        },
        None => {
            lemma_define_global_extends(s.b, Op::TypeVoid, None, Seq::empty());
        },
    }
    lemma_scalar_types_extends(s1, f.params, f.params.len());
    let (s2, param_types) = s1.scalar_types(f.params, f.params.len());
    lemma_extends_twice(s.b, s1.b, s2.b);
    lemma_define_global_extends(
        s2.b,
        Op::TypeFunction,
        None,
        seq![Operand::IdRef(ret)] + crate::model::id_refs(param_types),
    );
    let (s3, function_type) = s2.global(
        Op::TypeFunction,
        seq![Operand::IdRef(ret)] + crate::model::id_refs(param_types),
    );
    lemma_extends_twice(s.b, s2.b, s3.b);
    match f.ty {
        Some(t) => {
            crate::preserve::lemma_scalar_type_sound(s, t);
        },
        None => {
            crate::preserve::lemma_global_sound(s, Op::TypeVoid, None, Seq::empty());
        },
    }
    crate::frame::lemma_scalar_types(s1, f.params, f.params.len());
    reveal(CtxView::open_fun);
    lemma_begin_function_extends(s3.b, ret, function_type);
    let b4 = s3.b.begin_function(ret, Control::Unset, function_type);
    lemma_extends_twice(s.b, s3.b, b4);
    lemma_begin_fresh_block_extends(b4);
    lemma_extends_twice(s.b, b4, b4.begin_block(None));
}

/// Declaring the variable of a local extends the builder.
pub proof fn lemma_declare_local_extends(s: CtxView, l: Local)
    requires
        s.b.next_id + 3 <= u32::MAX,
    ensures
        extends(s.b, s.declare_local(l).0.b),
{
    reveal(CtxView::declare_local);
    lemma_pointer_type_extends(s, l.ty, StorageClass::Function);
    let (s1, ty) = s.pointer_type(l.ty, StorageClass::Function);
    lemma_declare_variable_extends(s1.b, ty, StorageClass::Function);
    lemma_extends_twice(s.b, s1.b, s.declare_local(l).0.b);
}

/// Declaring the variables of locals extends the builder.
pub proof fn lemma_declare_locals_extends(s: CtxView, locals: Seq<Local>, n: nat)
    requires
        n <= locals.len(),
        s.b.next_id + 3 * n <= u32::MAX,
    ensures
        extends(s.b, s.declare_locals(locals, n).0.b),
        s.declare_locals(locals, n).0.b.next_id <= s.b.next_id + 3 * n,
    decreases n,
{
    if n > 0 {
        lemma_declare_locals_extends(s, locals, (n - 1) as nat);
        let s1 = s.declare_locals(locals, (n - 1) as nat).0;
        lemma_declare_local_extends(s1, locals[n - 1]);
        lemma_extends_twice(s.b, s1.b, s.declare_locals(locals, n).0.b);
        reveal(CtxView::declare_local);
    } else {
        lemma_extends_self(s.b);
    }
}

/// Declaring a parameter extends the builder.
pub proof fn lemma_declare_param_extends(s: CtxView, ty: ValueType, var: Option<u32>)
    requires
        s.b.next_id + 2 <= u32::MAX,
    ensures
        extends(s.b, s.declare_param(ty, var).b),
        s.declare_param(ty, var).b.next_id <= s.b.next_id + 2,
{
    reveal(CtxView::declare_param);
    lemma_scalar_type_extends(s, ty);
    let (s1, t) = s.scalar_type(ty);
    lemma_declare_parameter_extends(s1.b, t);
    let s2 = s1.with_builder(s1.b.declare_parameter(t));
    lemma_extends_twice(s.b, s1.b, s2.b);
    match var {
        Some(v) => {
            lemma_emit_effect_extends(
                s2.b,
                Op::Store,
                seq![Operand::IdRef(v), Operand::IdRef(s1.b.next_id)],
            );
            lemma_extends_twice(s.b, s2.b, s.declare_param(ty, var).b);
        },
        None => {},
    }
}

/// Declaring the parameters of a function extends the builder.
pub proof fn lemma_declare_params_extends(
    s: CtxView,
    params: Seq<ValueType>,
    n: nat,
    vars: Map<u32, u32>,
)
    requires
        n <= params.len(),
        s.b.next_id + 2 * n <= u32::MAX,
    ensures
        extends(s.b, s.declare_params(params, n, vars).b),
        s.declare_params(params, n, vars).b.next_id <= s.b.next_id + 2 * n,
    decreases n,
{
    if n > 0 {
        lemma_declare_params_extends(s, params, (n - 1) as nat, vars);
        let s1 = s.declare_params(params, (n - 1) as nat, vars);
        let idx = (n - 1) as u32;
        let var = if vars.contains_key(idx) {
            Some(vars[idx])
        } else {
            None
        };
        lemma_declare_param_extends(s1, params[n - 1], var);
        lemma_extends_twice(s.b, s1.b, s.declare_params(params, n, vars).b);
    } else {
        lemma_extends_self(s.b);
    }
}

/// Loading the thread id extends the builder.
pub proof fn lemma_load_thread_id_extends(s: CtxView)
    requires
        s.inside(),
        s.b.next_id + 6 <= u32::MAX,
    ensures
        extends(s.b, s.load_thread_id().b),
{
    reveal(CtxView::load_thread_id);
    lemma_scalar_type_extends(s, ValueType::I32);
    lemma_scalar_type_steady(s, ValueType::I32);
    let (s1, uint) = s.scalar_type(ValueType::I32);
    lemma_pointer_type_extends(s1, ValueType::I32, StorageClass::Input);
    lemma_pointer_type_steady(s1, ValueType::I32, StorageClass::Input);
    let (s2, uint_ptr) = s1.pointer_type(ValueType::I32, StorageClass::Input);
    lemma_extends_twice(s.b, s1.b, s2.b);
    lemma_constant_extends(s2, uint, 0);
    let (s3, zero) = s2.constant(uint, 0);
    lemma_extends_twice(s.b, s2.b, s3.b);
    lemma_value_extends(
        s3,
        Op::AccessChain,
        uint_ptr,
        seq![Operand::IdRef(s.thread_id_v3), Operand::IdRef(zero)],
    );
    let (s4, component) = s3.value(
        Op::AccessChain,
        uint_ptr,
        seq![Operand::IdRef(s.thread_id_v3), Operand::IdRef(zero)],
    );
    lemma_extends_twice(s.b, s3.b, s4.b);
    lemma_value_extends(s4, Op::Load, uint, seq![Operand::IdRef(component)]);
    lemma_extends_twice(s.b, s4.b, s.load_thread_id().b);
}

/// The steps before the body of a function extend the builder.
pub proof fn lemma_enter_fun_extends(s: CtxView, f: FunView)
    requires
        s.sound(),
        s.outside(),
        s.b.next_id + f.cost() <= u32::MAX,
    ensures
        extends(s.b, s.enter_fun(f).b),
{
    let locals = f.body.locals_spec();
    let p = f.params.len();
    let l = locals.len();
    assert(crate::lowering::FUN_ITEM_COST * (p + l) == 3 * p + 3 * l) by (nonlinear_arith);
    crate::frame::lemma_begin_fun(s, f);
    lemma_begin_fun_extends(s, f);
    let s1 = s.begin_fun(f).0;
    crate::frame::lemma_declare_locals(s1, locals, l);
    lemma_declare_locals_extends(s1, locals, l);
    let (s2, vars) = s1.declare_locals(locals, l);
    lemma_extends_twice(s.b, s1.b, s2.b);
    crate::frame::lemma_declare_params(s2, f.params, p, vars);
    lemma_declare_params_extends(s2, f.params, p, vars);
    let s3 = s2.declare_params(f.params, p, vars);
    lemma_extends_twice(s.b, s2.b, s3.b);
    let s4 = CtxView { locals: vars, ..s3 };
    lemma_load_thread_id_extends(s4);
    lemma_extends_twice(s.b, s3.b, s4.load_thread_id().b);
}

/// The steps after the body of a function extend the builder.
pub proof fn lemma_end_fun_extends(s: CtxView, valued: bool, result: u32)
    requires
        s.sound(),
        s.inside(),
    ensures
        extends(s.b, s.end_fun(valued, result).b),
{
    reveal(CtxView::end_fun);
    reveal(crate::sound::code_ok);
    let s1 = if valued {
        s.terminate(Op::ReturnValue, seq![Operand::IdRef(result)])
    } else {
        s.terminate(Op::Return, Seq::empty())
    };
    if valued {
        lemma_terminate_extends(s.b, Op::ReturnValue, seq![Operand::IdRef(result)]);
    } else {
        lemma_terminate_extends(s.b, Op::Return, Seq::empty());
    }
    lemma_close_function_extends(s1.b);
    lemma_extends_twice(s.b, s1.b, s1.b.close_function());
}

/// Lowering a function that is accepted leaves the ids in order.
pub proof fn lemma_lower_fun_ids(s: CtxView, f: FunView)
    requires
        s.sound(),
        s.outside(),
        ids_ok(s.b, Set::empty()),
        s.b.next_id + f.cost() <= u32::MAX,
    ensures
        ids_ok(s.lower_fun(f).b, Set::empty()),
{
    crate::frame::lemma_enter_fun(s, f);
    lemma_enter_fun_extends(s, f);
    let s0 = s.enter_fun(f);
    lemma_extends_ok(s.b, s0.b, Set::empty());
    lemma_lower_ids(s0, f.body, Set::empty());
    crate::preserve::lemma_lower_sound(s0, f.body);
    lemma_lower_steady(s0, f.body);
    let (s1, result) = s0.lower(f.body);
    lemma_end_fun_extends(s1, f.ty is Some, result);
    lemma_extends_ok(s1.b, s1.end_fun(f.ty is Some, result).b, Set::empty());
}

} // verus!
