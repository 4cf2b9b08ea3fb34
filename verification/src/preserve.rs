//! Every step of the translation leaves a context that is in order in
//! order.

use vstd::prelude::*;
use crate::ir::{Const, ICompOp, INumOp, Local, Tree, ValueType, Width};
use crate::lowering::{Access, CtxView, Loop, Selection, WORD_BYTES};
use crate::model::{operands_known, Control, Inst, Op, Operand, StorageClass};
use crate::sound::{
    declares_type, lemma_cache_bool, lemma_cache_grows, lemma_cache_pointer,
    lemma_cache_push_plain, lemma_cache_scalar, lemma_code_add_global, lemma_code_add_instruction,
    lemma_code_begin_block, lemma_code_take_id, lemma_code_terminate, lemma_id_refs_known,
    lemma_operands_known_add,
};
use crate::steady::{
    lemma_lower_list_steady, lemma_lower_steady, lemma_pointer_type_steady,
    lemma_scalar_type_steady, lemma_word_pointer_steady,
};

verus! {

/// Asking for the type of a value type leaves the context in order, and
/// the type is remembered afterwards.
pub proof fn lemma_scalar_type_sound(s: CtxView, t: ValueType)
    requires
        s.sound(),
        s.b.next_id + 1 <= u32::MAX,
    ensures
        s.scalar_type(t).0.sound(),
        s.scalar_type(t).0.tys.of(t) == Some(s.scalar_type(t).1),
{
    if s.tys.of(t) is None {
        lemma_cache_scalar(s.tys, s.ptrs, s.b.module.types_global_values, s.b.next_id, t);
        lemma_code_take_id(s.b);
        lemma_code_add_global(
            s.b.take_id(),
            Inst::definition(t.type_op(), s.b.next_id, t.type_operands()),
        );
    }
}

/// Asking for the boolean type leaves the context in order.
pub proof fn lemma_bool_type_sound(s: CtxView)
    requires
        s.sound(),
        s.b.next_id + 1 <= u32::MAX,
    ensures
        s.bool_type().0.sound(),
{
    if s.tys.b is None {
        lemma_cache_bool(s.tys, s.ptrs, s.b.module.types_global_values, s.b.next_id);
        lemma_code_take_id(s.b);
        lemma_code_add_global(
            s.b.take_id(),
            Inst::definition(Op::TypeBool, s.b.next_id, Seq::empty()),
        );
    }
}

/// Asking for a type of pointers to the type of a value type leaves the
/// context in order.
pub proof fn lemma_pointer_type_sound(s: CtxView, t: ValueType, class: StorageClass)
    requires
        s.sound(),
        s.b.next_id + 2 <= u32::MAX,
    ensures
        s.pointer_type(t, class).0.sound(),
{
    if s.ptrs[crate::lowering::slot(t, class)] is None {
        lemma_scalar_type_sound(s, t);
        let (s1, pointee) = s.scalar_type(t);
        lemma_cache_pointer(
            s1.tys,
            s1.ptrs,
            s1.b.module.types_global_values,
            s1.b.next_id,
            t,
            class,
        );
        lemma_code_take_id(s1.b);
        lemma_code_add_global(
            s1.b.take_id(),
            Inst::definition(
                Op::TypePointer,
                s1.b.next_id,
                seq![Operand::StorageClass(class), Operand::IdRef(pointee)],
            ),
        );
    }
}

/// A global that declares none of the remembered kinds of types.
pub proof fn lemma_global_sound(s: CtxView, op: Op, result_type: Option<u32>, operands: Seq<Operand>)
    requires
        s.sound(),
        s.b.next_id + 1 <= u32::MAX,
        !(op is Other),
        !(op is TypeInt),
        !(op is TypeFloat),
        !(op is TypeBool),
        !(op is TypePointer),
        operands_known(operands),
    ensures
        s.with_builder(s.b.define_global(op, result_type, operands)).sound(),
{
    let x = Inst { op, result_type, result_id: Some(s.b.next_id), operands };
    assert(!declares_type(x));
    lemma_cache_push_plain(s.tys, s.ptrs, s.b.module.types_global_values, s.b.next_id, x);
    lemma_cache_grows(
        s.tys,
        s.ptrs,
        s.b.module.types_global_values.push(x),
        s.b.next_id,
        (s.b.next_id + 1) as u32,
    );
    lemma_code_take_id(s.b);
    lemma_code_add_global(s.b.take_id(), x);
}

/// A constant leaves the context in order.
pub proof fn lemma_constant_sound(s: CtxView, ty: u32, value: u32)
    requires
        s.sound(),
        s.b.next_id + 1 <= u32::MAX,
    ensures
        s.constant(ty, value).0.sound(),
{
    lemma_global_sound(s, Op::Constant, Some(ty), seq![Operand::LiteralInt32(value)]);
}

/// Taking a label leaves the context in order.
pub proof fn lemma_label_sound(s: CtxView)
    requires
        s.sound(),
        s.b.next_id + 1 <= u32::MAX,
    ensures
        s.label().0.sound(),
{
    lemma_cache_grows(
        s.tys,
        s.ptrs,
        s.b.module.types_global_values,
        s.b.next_id,
        (s.b.next_id + 1) as u32,
    );
    lemma_code_take_id(s.b);
}

/// An instruction in the open block that yields a value.
pub proof fn lemma_value_sound(s: CtxView, op: Op, ty: u32, operands: Seq<Operand>)
    requires
        s.sound(),
        s.inside(),
        s.b.next_id + 1 <= u32::MAX,
        !(op is Other),
        !op.is_terminator(),
        operands_known(operands),
    ensures
        s.value(op, ty, operands).0.sound(),
{
    lemma_cache_grows(
        s.tys,
        s.ptrs,
        s.b.module.types_global_values,
        s.b.next_id,
        (s.b.next_id + 1) as u32,
    );
    lemma_code_take_id(s.b);
    lemma_code_add_instruction(s.b.take_id(), Inst::value(op, ty, s.b.next_id, operands));
}

/// An instruction in the open block that yields nothing.
pub proof fn lemma_effect_sound(s: CtxView, op: Op, operands: Seq<Operand>)
    requires
        s.sound(),
        s.inside(),
        !(op is Other),
        !op.is_terminator(),
        operands_known(operands),
    ensures
        s.effect(op, operands).sound(),
{
    lemma_code_add_instruction(s.b, Inst::effect(op, operands));
}

/// The end of the open block and the begin of the block with a given label.
pub proof fn lemma_next_block_sound(s: CtxView, op: Op, operands: Seq<Operand>, label: u32)
    requires
        s.sound(),
        s.inside(),
        op.is_terminator(),
        operands_known(operands),
    ensures
        s.terminate(op, operands).block(label).sound(),
{
    lemma_code_terminate(s.b, op, operands);
    lemma_code_begin_block(s.b.terminate(op, operands), Some(label));
}

/// The end of the open block and the begin of an unreachable block.
pub proof fn lemma_dead_block_sound(s: CtxView, op: Op, operands: Seq<Operand>)
    requires
        s.sound(),
        s.inside(),
        s.b.next_id + 1 <= u32::MAX,
        op.is_terminator(),
        operands_known(operands),
    ensures
        s.terminate(op, operands).unreachable_block().sound(),
{
    lemma_code_terminate(s.b, op, operands);
    let s1 = s.terminate(op, operands);
    lemma_code_begin_block(s1.b, None);
    lemma_cache_grows(
        s.tys,
        s.ptrs,
        s.b.module.types_global_values,
        s.b.next_id,
        (s.b.next_id + 1) as u32,
    );
}

/// The pointer to a word of the storage buffer leaves the context in order.
pub proof fn lemma_word_pointer_sound(
    s: CtxView,
    uint: u32,
    zero: u32,
    pointer_type: u32,
    addr: u32,
)
    requires
        s.sound(),
        s.inside(),
        s.b.next_id + 3 <= u32::MAX,
    ensures
        s.word_pointer(uint, zero, pointer_type, addr).0.sound(),
{
    lemma_constant_sound(s, uint, WORD_BYTES);
    let (s1, four) = s.constant(uint, WORD_BYTES);
    lemma_value_sound(s1, Op::UDiv, uint, seq![Operand::IdRef(addr), Operand::IdRef(four)]);
    let (s2, index) = s1.value(Op::UDiv, uint, seq![Operand::IdRef(addr), Operand::IdRef(four)]);
    lemma_value_sound(
        s2,
        Op::AccessChain,
        pointer_type,
        seq![Operand::IdRef(s.buffer), Operand::IdRef(zero), Operand::IdRef(index)],
    );
}

/// A call leaves the context in order.
pub proof fn lemma_call_sound(s: CtxView, i: u32, args: Seq<u32>)
    requires
        s.sound(),
        s.inside(),
        s.b.next_id + 1 <= u32::MAX,
    ensures
        s.call(i, args).0.sound(),
{
    reveal(CtxView::call);
    let (f, t) = s.funs[i as int];
    lemma_id_refs_known(args);
    lemma_operands_known_add(seq![Operand::IdRef(f)], crate::model::id_refs(args));
    lemma_value_sound(
        s,
        Op::FunctionCall,
        t,
        seq![Operand::IdRef(f)] + crate::model::id_refs(args),
    );
}

/// Arithmetic leaves the context in order.
pub proof fn lemma_num_op_sound(s: CtxView, w: Width, op: INumOp, lhs: u32, rhs: u32)
    requires
        s.sound(),
        s.inside(),
        s.b.next_id + 2 <= u32::MAX,
    ensures
        s.num_op(w, op, lhs, rhs).0.sound(),
{
    reveal(CtxView::num_op);
    lemma_scalar_type_sound(s, w.value_type());
    lemma_scalar_type_steady(s, w.value_type());
    let (s1, ty) = s.int_type(w);
    lemma_value_sound(s1, op.op(), ty, seq![Operand::IdRef(lhs), Operand::IdRef(rhs)]);
}

/// A comparison leaves the context in order.
pub proof fn lemma_comp_op_sound(s: CtxView, w: Width, op: ICompOp, lhs: u32, rhs: u32)
    requires
        s.sound(),
        s.inside(),
        s.b.next_id + 6 <= u32::MAX,
    ensures
        s.comp_op(w, op, lhs, rhs).0.sound(),
{
    reveal(CtxView::comp_op);
    lemma_scalar_type_sound(s, w.value_type());
    lemma_scalar_type_steady(s, w.value_type());
    let (s1, ty) = s.int_type(w);
    lemma_bool_type_sound(s1);
    let (s2, t_bool) = s1.bool_type();
    lemma_value_sound(s2, op.op(), t_bool, seq![Operand::IdRef(lhs), Operand::IdRef(rhs)]);
    let (s3, flag) = s2.value(op.op(), t_bool, seq![Operand::IdRef(lhs), Operand::IdRef(rhs)]);
    lemma_constant_sound(s3, ty, 0);
    let (s4, zero) = s3.constant(ty, 0);
    lemma_constant_sound(s4, ty, 1);
    let (s5, one) = s4.constant(ty, 1);
    lemma_value_sound(
        s5,
        Op::Select,
        ty,
        seq![Operand::IdRef(flag), Operand::IdRef(one), Operand::IdRef(zero)],
    );
}

/// A constant of the tree leaves the context in order.
pub proof fn lemma_constant_of_sound(s: CtxView, c: Const)
    requires
        s.sound(),
        s.inside(),
        s.b.next_id + 2 <= u32::MAX,
    ensures
        s.constant_of(c).0.sound(),
{
    reveal(CtxView::constant_of);
    match c {
        Const::I32(i) => {
            lemma_scalar_type_sound(s, ValueType::I32);
            let (s1, ty) = s.scalar_type(ValueType::I32);
            lemma_constant_sound(s1, ty, i as u32);
        },
        Const::F32(bits) => {
            lemma_scalar_type_sound(s, ValueType::F32);
            let (s1, ty) = s.scalar_type(ValueType::F32);
            lemma_constant_sound(s1, ty, bits);
        },
        _ => {},
    }
}

/// The read of a local leaves the context in order.
pub proof fn lemma_get_local_sound(s: CtxView, l: Local)
    requires
        s.sound(),
        s.inside(),
        s.b.next_id + 2 <= u32::MAX,
    ensures
        s.get_local(l).0.sound(),
{
    reveal(CtxView::get_local);
    lemma_scalar_type_sound(s, l.ty);
    lemma_scalar_type_steady(s, l.ty);
    let (s1, ty) = s.scalar_type(l.ty);
    lemma_value_sound(s1, Op::Load, ty, seq![Operand::IdRef(s.locals[l.idx])]);
}

/// The write of a local leaves the context in order.
pub proof fn lemma_set_local_sound(s: CtxView, var: u32, v: u32)
    requires
        s.sound(),
        s.inside(),
    ensures
        s.set_local(var, v).sound(),
{
    reveal(CtxView::set_local);
    lemma_effect_sound(s, Op::Store, seq![Operand::IdRef(var), Operand::IdRef(v)]);
}

/// What a load declares before its address leaves the context in order.
pub proof fn lemma_load_begin_sound(s: CtxView, ty: ValueType)
    requires
        s.sound(),
        s.inside(),
        s.b.next_id + 5 <= u32::MAX,
    ensures
        s.load_begin(ty).0.sound(),
{
    reveal(CtxView::load_begin);
    lemma_scalar_type_sound(s, ValueType::I32);
    lemma_scalar_type_steady(s, ValueType::I32);
    let (s1, uint) = s.scalar_type(ValueType::I32);
    lemma_constant_sound(s1, uint, 0);
    let (s2, zero) = s1.constant(uint, 0);
    lemma_pointer_type_sound(s2, ty, StorageClass::Uniform);
    lemma_pointer_type_steady(s2, ty, StorageClass::Uniform);
    let (s3, pointer_type) = s2.pointer_type(ty, StorageClass::Uniform);
    lemma_scalar_type_sound(s3, ty);
}

/// A load leaves the context in order.
pub proof fn lemma_load_end_sound(s: CtxView, access: Access, addr: u32)
    requires
        s.sound(),
        s.inside(),
        s.b.next_id + 4 <= u32::MAX,
    ensures
        s.load_end(access, addr).0.sound(),
{
    reveal(CtxView::load_end);
    lemma_word_pointer_sound(s, access.uint, access.zero, access.pointer_type, addr);
    lemma_word_pointer_steady(s, access.uint, access.zero, access.pointer_type, addr);
    let (s1, pointer) = s.word_pointer(access.uint, access.zero, access.pointer_type, addr);
    lemma_value_sound(s1, Op::Load, access.result_type, seq![Operand::IdRef(pointer)]);
}

/// What a store declares before its operands leaves the context in order.
pub proof fn lemma_store_begin_sound(s: CtxView)
    requires
        s.sound(),
        s.inside(),
        s.b.next_id + 2 <= u32::MAX,
    ensures
        s.store_begin().0.sound(),
{
    reveal(CtxView::store_begin);
    lemma_scalar_type_sound(s, ValueType::I32);
    let (s1, uint) = s.scalar_type(ValueType::I32);
    lemma_constant_sound(s1, uint, 0);
}

/// A store leaves the context in order.
pub proof fn lemma_store_end_sound(
    s: CtxView,
    ty: ValueType,
    uint: u32,
    zero: u32,
    addr: u32,
    v: u32,
)
    requires
        s.sound(),
        s.inside(),
        s.b.next_id + 5 <= u32::MAX,
    ensures
        s.store_end(ty, uint, zero, addr, v).sound(),
{
    reveal(CtxView::store_end);
    lemma_pointer_type_sound(s, ty, StorageClass::Uniform);
    lemma_pointer_type_steady(s, ty, StorageClass::Uniform);
    let (s1, pointer_type) = s.pointer_type(ty, StorageClass::Uniform);
    lemma_word_pointer_sound(s1, uint, zero, pointer_type, addr);
    lemma_word_pointer_steady(s1, uint, zero, pointer_type, addr);
    let (s2, pointer) = s1.word_pointer(uint, zero, pointer_type, addr);
    lemma_effect_sound(s2, Op::Store, seq![Operand::IdRef(pointer), Operand::IdRef(v)]);
}

/// The labels of a selection leave the context in order.
pub proof fn lemma_if_begin_sound(s: CtxView)
    requires
        s.sound(),
        s.inside(),
        s.b.next_id + 3 <= u32::MAX,
    ensures
        s.if_begin().0.sound(),
{
    reveal(CtxView::if_begin);
    lemma_label_sound(s);
    let (s1, l_t) = s.label();
    lemma_label_sound(s1);
    let (s2, l_f) = s1.label();
    lemma_label_sound(s2);
}

/// The branch of a selection leaves the context in order.
pub proof fn lemma_if_then_sound(s: CtxView, labels: Selection, cond: u32)
    requires
        s.sound(),
        s.inside(),
        s.b.next_id + 4 <= u32::MAX,
    ensures
        s.if_then(labels, cond).sound(),
{
    reveal(CtxView::if_then);
    lemma_scalar_type_sound(s, ValueType::I32);
    lemma_scalar_type_steady(s, ValueType::I32);
    let (s1, uint) = s.scalar_type(ValueType::I32);
    lemma_constant_sound(s1, uint, 0);
    let (s2, zero) = s1.constant(uint, 0);
    lemma_bool_type_sound(s2);
    let (s3, t_bool) = s2.bool_type();
    lemma_value_sound(s3, Op::INotEqual, t_bool, seq![Operand::IdRef(cond), Operand::IdRef(zero)]);
    let (s4, flag) = s3.value(
        Op::INotEqual,
        t_bool,
        seq![Operand::IdRef(cond), Operand::IdRef(zero)],
    );
    lemma_effect_sound(
        s4,
        Op::SelectionMerge,
        seq![Operand::IdRef(labels.l_m), Operand::SelectionControl(Control::Unset)],
    );
    let s5 = s4.effect(
        Op::SelectionMerge,
        seq![Operand::IdRef(labels.l_m), Operand::SelectionControl(Control::Unset)],
    );
    lemma_next_block_sound(
        s5,
        Op::BranchConditional,
        seq![Operand::IdRef(flag), Operand::IdRef(labels.l_t), Operand::IdRef(labels.l_f)],
        labels.l_t,
    );
}

/// The change from the first branch of a selection to the second leaves
/// the context in order.
pub proof fn lemma_if_else_sound(s: CtxView, labels: Selection)
    requires
        s.sound(),
        s.inside(),
    ensures
        s.if_else(labels).sound(),
{
    reveal(CtxView::if_else);
    lemma_next_block_sound(s, Op::Branch, seq![Operand::IdRef(labels.l_m)], labels.l_f);
}

/// The end of a selection leaves the context in order.
pub proof fn lemma_if_end_sound(s: CtxView, labels: Selection)
    requires
        s.sound(),
        s.inside(),
    ensures
        s.if_end(labels).sound(),
{
    reveal(CtxView::if_end);
    lemma_next_block_sound(s, Op::Branch, seq![Operand::IdRef(labels.l_m)], labels.l_m);
}

/// The head of a loop leaves the context in order.
pub proof fn lemma_loop_begin_sound(s: CtxView)
    requires
        s.sound(),
        s.inside(),
        s.b.next_id + 4 <= u32::MAX,
    ensures
        s.loop_begin().0.sound(),
{
    reveal(CtxView::loop_begin);
    lemma_label_sound(s);
    let (s1, head) = s.label();
    lemma_label_sound(s1);
    let (s2, cont) = s1.label();
    lemma_label_sound(s2);
    let (s3, end) = s2.label();
    lemma_label_sound(s3);
    let (s4, first) = s3.label();
    lemma_next_block_sound(s4, Op::Branch, seq![Operand::IdRef(head)], head);
    let s5 = s4.terminate(Op::Branch, seq![Operand::IdRef(head)]).block(head);
    lemma_effect_sound(
        s5,
        Op::LoopMerge,
        seq![Operand::IdRef(end), Operand::IdRef(cont), Operand::LoopControl(Control::Unset)],
    );
    let s6 = s5.effect(
        Op::LoopMerge,
        seq![Operand::IdRef(end), Operand::IdRef(cont), Operand::LoopControl(Control::Unset)],
    );
    lemma_next_block_sound(s6, Op::Branch, seq![Operand::IdRef(first)], first);
}

/// The end of a loop leaves the context in order.
pub proof fn lemma_loop_end_sound(s: CtxView, frame: Loop)
    requires
        s.sound(),
        s.inside(),
    ensures
        s.loop_end(frame).sound(),
{
    reveal(CtxView::loop_end);
    let s0 = s.with_loops(s.loops.drop_last());
    lemma_next_block_sound(s0, Op::Branch, seq![Operand::IdRef(frame.end)], frame.cont);
    let s1 = s0.terminate(Op::Branch, seq![Operand::IdRef(frame.end)]).block(frame.cont);
    lemma_next_block_sound(s1, Op::Branch, seq![Operand::IdRef(frame.head)], frame.end);
}

/// A branch out of the open block leaves the context in order.
pub proof fn lemma_jump_sound(s: CtxView, target: u32)
    requires
        s.sound(),
        s.inside(),
        s.b.next_id + 1 <= u32::MAX,
    ensures
        s.jump(target).sound(),
{
    reveal(CtxView::jump);
    lemma_dead_block_sound(s, Op::Branch, seq![Operand::IdRef(target)]);
}

/// A return out of the open block leaves the context in order.
pub proof fn lemma_leave_sound(s: CtxView)
    requires
        s.sound(),
        s.inside(),
        s.b.next_id + 1 <= u32::MAX,
    ensures
        s.leave().sound(),
{
    reveal(CtxView::leave);
    lemma_dead_block_sound(s, Op::Return, Seq::empty());
}

/// Lowering a node inside a function leaves a context that is in order in
/// order.
pub proof fn lemma_lower_sound(s: CtxView, node: Tree)
    requires
        s.sound(),
        s.inside(),
        s.b.next_id + node.cost() <= u32::MAX,
    ensures
        s.lower(node).0.sound(),
    decreases node, 0nat,
{
    match node {
        Tree::Call(i, args) => {
            lemma_lower_list_sound(s, args, args.len());
            lemma_lower_list_steady(s, args, args.len());
            let (s1, ids) = s.lower_list(args, args.len());
            lemma_call_sound(s1, i, ids);
        },
        Tree::Nop => {},
        Tree::INumOp(w, op, a, b) => {
            lemma_lower_sound(s, *a);
            lemma_lower_steady(s, *a);
            let (s1, lhs) = s.lower(*a);
            lemma_lower_sound(s1, *b);
            lemma_lower_steady(s1, *b);
            let (s2, rhs) = s1.lower(*b);
            lemma_num_op_sound(s2, w, op, lhs, rhs);
        },
        Tree::ICompOp(w, op, a, b) => {
            lemma_lower_sound(s, *a);
            lemma_lower_steady(s, *a);
            let (s1, lhs) = s.lower(*a);
            lemma_lower_sound(s1, *b);
            lemma_lower_steady(s1, *b);
            let (s2, rhs) = s1.lower(*b);
            lemma_comp_op_sound(s2, w, op, lhs, rhs);
        },
        Tree::Const(c) => {
            lemma_constant_of_sound(s, c);
        },
        Tree::Sequence(a, b) => {
            lemma_lower_sound(s, *a);
            lemma_lower_steady(s, *a);
            lemma_lower_sound(s.lower(*a).0, *b);
        },
        Tree::GetLocal(l) => {
            lemma_get_local_sound(s, l);
        },
        Tree::SetLocal(l, val) => {
            lemma_lower_sound(s, *val);
            lemma_lower_steady(s, *val);
            let (s1, v) = s.lower(*val);
            lemma_set_local_sound(s1, s.locals[l.idx], v);
        },
        Tree::GetGlobal(_) => {},
        Tree::Load(ty, addr) => {
            lemma_load_begin_sound(s, ty);
            crate::steady::lemma_load_begin_steady(s, ty);
            let (s1, access) = s.load_begin(ty);
            lemma_lower_sound(s1, *addr);
            lemma_lower_steady(s1, *addr);
            let (s2, a) = s1.lower(*addr);
            lemma_load_end_sound(s2, access, a);
        },
        Tree::Store(ty, addr, val) => {
            lemma_store_begin_sound(s);
            crate::steady::lemma_store_begin_steady(s);
            let (s1, (uint, zero)) = s.store_begin();
            lemma_lower_sound(s1, *addr);
            lemma_lower_steady(s1, *addr);
            let (s2, a) = s1.lower(*addr);
            lemma_lower_sound(s2, *val);
            lemma_lower_steady(s2, *val);
            let (s3, v) = s2.lower(*val);
            lemma_store_end_sound(s3, ty, uint, zero, a, v);
        },
        Tree::If { cond, t, f } => {
            lemma_if_begin_sound(s);
            crate::steady::lemma_if_begin_steady(s);
            let (s1, labels) = s.if_begin();
            lemma_lower_sound(s1, *cond);
            lemma_lower_steady(s1, *cond);
            let (s2, c) = s1.lower(*cond);
            lemma_if_then_sound(s2, labels, c);
            crate::steady::lemma_if_then_steady(s2, labels, c);
            let s3 = s2.if_then(labels, c);
            lemma_lower_sound(s3, *t);
            lemma_lower_steady(s3, *t);
            let s4 = s3.lower(*t).0;
            lemma_if_else_sound(s4, labels);
            crate::steady::lemma_if_else_steady(s4, labels);
            let s5 = s4.if_else(labels);
            lemma_lower_sound(s5, *f);
            lemma_lower_steady(s5, *f);
            let s6 = s5.lower(*f).0;
            lemma_if_end_sound(s6, labels);
        },
        Tree::Loop(body) => {
            lemma_loop_begin_sound(s);
            crate::steady::lemma_loop_begin_steady(s);
            let (s1, frame) = s.loop_begin();
            lemma_lower_sound(s1, *body);
            lemma_lower_steady(s1, *body);
            let s2 = s1.lower(*body).0;
            lemma_loop_end_sound(s2, frame);
        },
        Tree::Continue => {
            lemma_jump_sound(s, s.loops.last().cont);
        },
        Tree::Break => {
            lemma_jump_sound(s, s.loops.last().end);
        },
        Tree::Return => {
            lemma_leave_sound(s);
        },
    }
}

/// Lowering a list of nodes inside a function leaves a context that is in
/// order in order.
pub proof fn lemma_lower_list_sound(s: CtxView, nodes: Seq<Tree>, n: nat)
    requires
        s.sound(),
        s.inside(),
        n <= nodes.len(),
        s.b.next_id + Tree::cost_of(nodes, n) <= u32::MAX,
    ensures
        s.lower_list(nodes, n).0.sound(),
    decreases nodes, n,
{
    if n > 0 {
        lemma_lower_list_sound(s, nodes, (n - 1) as nat);
        lemma_lower_list_steady(s, nodes, (n - 1) as nat);
        let s1 = s.lower_list(nodes, (n - 1) as nat).0;
        lemma_lower_sound(s1, nodes[n - 1]);
    }
}

} // verus!
