//! Every step of the translation leaves the branches in order: what it
//! names as a target is the label of a block of the function, or the label
//! of a block that is yet to begin.

use vstd::prelude::*;
use crate::ids::{ids_ok, lemma_extends_ok};
use crate::ir::{Const, FunView, ICompOp, INumOp, Local, Tree, ValueType, Width};
use crate::lowering::{Access, CtxView, Loop, Selection, WORD_BYTES};
use crate::model::{BuilderView, Control, Inst, Op, Operand, StorageClass};
use crate::steady::{
    lemma_if_begin_steady, lemma_if_else_steady, lemma_if_then_steady, lemma_load_begin_steady,
    lemma_loop_begin_steady, lemma_lower_list_steady, lemma_lower_steady, lemma_scalar_type_steady,
    lemma_store_begin_steady,
};
use crate::targets::{
    aims, heads, lemma_aims_add_instruction, lemma_aims_open_block, lemma_aims_open_function,
    lemma_aims_parameters, lemma_aims_terminate, lemma_closed_at_end, named_by, refs_ok,
};
use crate::unique::{
    lemma_if_begin_ids, lemma_if_else_ids, lemma_if_then_ids, lemma_load_begin_extends,
    lemma_loop_begin_ids, lemma_lower_ids, lemma_lower_list_ids, lemma_store_begin_extends,
};

verus! {

impl Op {
    /// Whether an instruction with this opcode can name a label.
    pub open spec fn aims_at_labels(self) -> bool {
        self is Branch || self is BranchConditional || self is SelectionMerge || self is LoopMerge
    }
}

/// Whether `after` names what `before` names and has the labels and the
/// functions that `before` has.
pub open spec fn plain(before: BuilderView, after: BuilderView) -> bool {
    &&& aims(after.function, after.block) == aims(before.function, before.block)
    &&& heads(after.function, after.block) == heads(before.function, before.block)
    &&& after.module.functions == before.module.functions
}

/// Whether the continue block and the merge block of every loop are
/// pending.
pub open spec fn frames_pending(loops: Seq<Loop>, pending: Set<u32>) -> bool {
    forall|i: int|
        0 <= i < loops.len() ==> pending.contains((#[trigger] loops[i]).cont) && pending.contains(
            loops[i].end,
        )
}

/// A step that names nothing and begins no block leaves the branches in
/// order.
pub proof fn lemma_plain_ok(before: BuilderView, after: BuilderView, pending: Set<u32>)
    requires
        refs_ok(before, pending),
        plain(before, after),
    ensures
        refs_ok(after, pending),
{
    reveal(refs_ok);
}

/// An instruction that can name no label names none.
pub proof fn lemma_names_nothing(inst: Inst)
    requires
        !inst.op.aims_at_labels(),
    ensures
        named_by(inst) == Set::<u32>::empty(),
{
    assert(named_by(inst) =~= Set::<u32>::empty());
}

/// An instruction with a value that names nothing is plain.
pub proof fn lemma_value_plain(s: CtxView, op: Op, ty: u32, operands: Seq<Operand>)
    requires
        !op.aims_at_labels(),
    ensures
        plain(s.b, s.value(op, ty, operands).0.b),
{
    if s.b.block is Some {
        let x = Inst::value(op, ty, s.b.next_id, operands);
        lemma_names_nothing(x);
        lemma_aims_add_instruction(s.b.take_id(), x);
        assert(aims(s.b.function, s.b.block).union(Set::<u32>::empty()) =~= aims(
            s.b.function,
            s.b.block,
        ));
    }
}

/// An instruction without a value that names nothing is plain.
pub proof fn lemma_effect_plain(s: CtxView, op: Op, operands: Seq<Operand>)
    requires
        !op.aims_at_labels(),
    ensures
        plain(s.b, s.effect(op, operands).b),
{
    if s.b.block is Some {
        let x = Inst::effect(op, operands);
        lemma_names_nothing(x);
        lemma_aims_add_instruction(s.b, x);
        assert(aims(s.b.function, s.b.block).union(Set::<u32>::empty()) =~= aims(
            s.b.function,
            s.b.block,
        ));
    }
}

/// The pointer to a word of the storage buffer is plain.
pub proof fn lemma_word_pointer_plain(
    s: CtxView,
    uint: u32,
    zero: u32,
    pointer_type: u32,
    addr: u32,
)
    ensures
        plain(s.b, s.word_pointer(uint, zero, pointer_type, addr).0.b),
{
    let (s1, four) = s.constant(uint, WORD_BYTES);
    lemma_value_plain(s1, Op::UDiv, uint, seq![Operand::IdRef(addr), Operand::IdRef(four)]);
    let (s2, index) = s1.value(Op::UDiv, uint, seq![Operand::IdRef(addr), Operand::IdRef(four)]);
    lemma_value_plain(
        s2,
        Op::AccessChain,
        pointer_type,
        seq![Operand::IdRef(s.buffer), Operand::IdRef(zero), Operand::IdRef(index)],
    );
}

/// A call is plain.
pub proof fn lemma_call_plain(s: CtxView, i: u32, args: Seq<u32>)
    ensures
        plain(s.b, s.call(i, args).0.b),
{
    reveal(CtxView::call);
    let (f, t) = s.funs[i as int];
    lemma_value_plain(s, Op::FunctionCall, t, seq![Operand::IdRef(f)] + crate::model::id_refs(args));
}

/// Arithmetic is plain.
pub proof fn lemma_num_op_plain(s: CtxView, w: Width, op: INumOp, lhs: u32, rhs: u32)
    ensures
        plain(s.b, s.num_op(w, op, lhs, rhs).0.b),
{
    reveal(CtxView::num_op);
    let (s1, ty) = s.int_type(w);
    lemma_value_plain(s1, op.op(), ty, seq![Operand::IdRef(lhs), Operand::IdRef(rhs)]);
}

/// A comparison is plain.
pub proof fn lemma_comp_op_plain(s: CtxView, w: Width, op: ICompOp, lhs: u32, rhs: u32)
    ensures
        plain(s.b, s.comp_op(w, op, lhs, rhs).0.b),
{
    reveal(CtxView::comp_op);
    let (s1, ty) = s.int_type(w);
    let (s2, t_bool) = s1.bool_type();
    lemma_value_plain(s2, op.op(), t_bool, seq![Operand::IdRef(lhs), Operand::IdRef(rhs)]);
    let (s3, flag) = s2.value(op.op(), t_bool, seq![Operand::IdRef(lhs), Operand::IdRef(rhs)]);
    let (s4, zero) = s3.constant(ty, 0);
    let (s5, one) = s4.constant(ty, 1);
    lemma_value_plain(
        s5,
        Op::Select,
        ty,
        seq![Operand::IdRef(flag), Operand::IdRef(one), Operand::IdRef(zero)],
    );
}

/// A constant of the tree is plain.
pub proof fn lemma_constant_of_plain(s: CtxView, c: Const)
    ensures
        plain(s.b, s.constant_of(c).0.b),
{
    reveal(CtxView::constant_of);
}

/// The read of a local is plain.
pub proof fn lemma_get_local_plain(s: CtxView, l: Local)
    ensures
        plain(s.b, s.get_local(l).0.b),
{
    reveal(CtxView::get_local);
    let (s1, ty) = s.scalar_type(l.ty);
    lemma_value_plain(s1, Op::Load, ty, seq![Operand::IdRef(s.locals[l.idx])]);
}

/// The write of a local is plain.
pub proof fn lemma_set_local_plain(s: CtxView, var: u32, v: u32)
    ensures
        plain(s.b, s.set_local(var, v).b),
{
    reveal(CtxView::set_local);
    lemma_effect_plain(s, Op::Store, seq![Operand::IdRef(var), Operand::IdRef(v)]);
}

/// What a load declares before its address is plain.
pub proof fn lemma_load_begin_plain(s: CtxView, ty: ValueType)
    ensures
        plain(s.b, s.load_begin(ty).0.b),
{
    reveal(CtxView::load_begin);
}

/// A load is plain.
pub proof fn lemma_load_end_plain(s: CtxView, access: Access, addr: u32)
    ensures
        plain(s.b, s.load_end(access, addr).0.b),
{
    reveal(CtxView::load_end);
    lemma_word_pointer_plain(s, access.uint, access.zero, access.pointer_type, addr);
    let (s1, pointer) = s.word_pointer(access.uint, access.zero, access.pointer_type, addr);
    lemma_value_plain(s1, Op::Load, access.result_type, seq![Operand::IdRef(pointer)]);
}

/// What a store declares before its operands is plain.
pub proof fn lemma_store_begin_plain(s: CtxView)
    ensures
        plain(s.b, s.store_begin().0.b),
{
    reveal(CtxView::store_begin);
}

/// A store is plain.
pub proof fn lemma_store_end_plain(
    s: CtxView,
    ty: ValueType,
    uint: u32,
    zero: u32,
    addr: u32,
    v: u32,
)
    ensures
        plain(s.b, s.store_end(ty, uint, zero, addr, v).b),
{
    reveal(CtxView::store_end);
    let (s1, pointer_type) = s.pointer_type(ty, StorageClass::Uniform);
    lemma_word_pointer_plain(s1, uint, zero, pointer_type, addr);
    let (s2, pointer) = s1.word_pointer(uint, zero, pointer_type, addr);
    lemma_effect_plain(s2, Op::Store, seq![Operand::IdRef(pointer), Operand::IdRef(v)]);
}

/// The end of the open block, with what it names among the labels or
/// pending, and the begin of the block of a pending label.
pub proof fn lemma_next_block_refs(
    s: CtxView,
    op: Op,
    operands: Seq<Operand>,
    label: u32,
    pending: Set<u32>,
)
    requires
        refs_ok(s.b, pending),
        s.inside(),
        named_by(Inst::effect(op, operands)).subset_of(
            heads(s.b.function, s.b.block).union(pending),
        ),
    ensures
        refs_ok(s.terminate(op, operands).block(label).b, pending.remove(label)),
        heads(
            s.terminate(op, operands).block(label).b.function,
            s.terminate(op, operands).block(label).b.block,
        ) == heads(s.b.function, s.b.block).insert(label),
        s.terminate(op, operands).block(label).b.module.functions == s.b.module.functions,
{
    reveal(refs_ok);
    lemma_aims_terminate(s.b, op, operands);
    let b1 = s.b.terminate(op, operands);
    lemma_aims_open_block(b1, label);
}

/// The end of the open block, with what it names among the labels or
/// pending, and the begin of an unreachable block.
pub proof fn lemma_dead_block_refs(s: CtxView, op: Op, operands: Seq<Operand>, pending: Set<u32>)
    requires
        refs_ok(s.b, pending),
        s.inside(),
        named_by(Inst::effect(op, operands)).subset_of(
            heads(s.b.function, s.b.block).union(pending),
        ),
    ensures
        refs_ok(s.terminate(op, operands).unreachable_block().b, pending),
        heads(s.b.function, s.b.block).subset_of(
            heads(
                s.terminate(op, operands).unreachable_block().b.function,
                s.terminate(op, operands).unreachable_block().b.block,
            ),
        ),
        s.terminate(op, operands).unreachable_block().b.module.functions == s.b.module.functions,
{
    reveal(refs_ok);
    lemma_aims_terminate(s.b, op, operands);
    let b1 = s.b.terminate(op, operands);
    lemma_aims_open_block(b1.take_id(), b1.next_id);
}

/// What a branch to one label names.
pub proof fn lemma_branch_names(target: u32)
    ensures
        named_by(Inst::effect(Op::Branch, seq![Operand::IdRef(target)])) == Set::<u32>::empty().insert(
            target,
        ),
{
    assert(named_by(Inst::effect(Op::Branch, seq![Operand::IdRef(target)]))
        =~= Set::<u32>::empty().insert(target));
}

/// The labels of a selection, once taken, leave the branches in order.
pub proof fn lemma_if_begin_refs(s: CtxView, pending: Set<u32>)
    requires
        refs_ok(s.b, pending),
    ensures
        refs_ok(
            s.if_begin().0.b,
            pending.insert(s.if_begin().1.l_t).insert(s.if_begin().1.l_f).insert(s.if_begin().1.l_m),
        ),
        plain(s.b, s.if_begin().0.b),
{
    reveal(CtxView::if_begin);
    reveal(refs_ok);
}

/// The branch of a selection names the three labels of the selection and
/// begins the block of the first.
pub proof fn lemma_if_then_refs(s: CtxView, labels: Selection, cond: u32, pending: Set<u32>)
    requires
        refs_ok(s.b, pending),
        pending.contains(labels.l_t),
        pending.contains(labels.l_f),
        pending.contains(labels.l_m),
        s.inside(),
        s.b.next_id + 4 <= u32::MAX,
    ensures
        refs_ok(s.if_then(labels, cond).b, pending.remove(labels.l_t)),
        heads(s.if_then(labels, cond).b.function, s.if_then(labels, cond).b.block) == heads(
            s.b.function,
            s.b.block,
        ).insert(labels.l_t),
        s.if_then(labels, cond).b.module.functions == s.b.module.functions,
{
    reveal(CtxView::if_then);
    lemma_scalar_type_steady(s, ValueType::I32);
    let (s1, uint) = s.scalar_type(ValueType::I32);
    let (s2, zero) = s1.constant(uint, 0);
    let (s3, t_bool) = s2.bool_type();
    lemma_value_plain(s3, Op::INotEqual, t_bool, seq![Operand::IdRef(cond), Operand::IdRef(zero)]);
    let (s4, flag) = s3.value(
        Op::INotEqual,
        t_bool,
        seq![Operand::IdRef(cond), Operand::IdRef(zero)],
    );
    lemma_plain_ok(s.b, s4.b, pending);
    let merge = Inst::effect(
        Op::SelectionMerge,
        seq![Operand::IdRef(labels.l_m), Operand::SelectionControl(Control::Unset)],
    );
    lemma_aims_add_instruction(s4.b, merge);
    let s5 = s4.effect(
        Op::SelectionMerge,
        seq![Operand::IdRef(labels.l_m), Operand::SelectionControl(Control::Unset)],
    );
    assert(named_by(merge) =~= Set::<u32>::empty().insert(labels.l_m));
    assert(refs_ok(s5.b, pending)) by {
        reveal(refs_ok);
    }
    let branch = Inst::effect(
        Op::BranchConditional,
        seq![Operand::IdRef(flag), Operand::IdRef(labels.l_t), Operand::IdRef(labels.l_f)],
    );
    assert(named_by(branch) =~= Set::<u32>::empty().insert(labels.l_t).insert(labels.l_f));
    lemma_next_block_refs(
        s5,
        Op::BranchConditional,
        seq![Operand::IdRef(flag), Operand::IdRef(labels.l_t), Operand::IdRef(labels.l_f)],
        labels.l_t,
        pending,
    );
}

/// The change from the first branch of a selection to the second names the
/// merge block and begins the block of the second label.
pub proof fn lemma_if_else_refs(s: CtxView, labels: Selection, pending: Set<u32>)
    requires
        refs_ok(s.b, pending),
        pending.contains(labels.l_f),
        pending.contains(labels.l_m),
        s.inside(),
    ensures
        refs_ok(s.if_else(labels).b, pending.remove(labels.l_f)),
        heads(s.if_else(labels).b.function, s.if_else(labels).b.block) == heads(
            s.b.function,
            s.b.block,
        ).insert(labels.l_f),
        s.if_else(labels).b.module.functions == s.b.module.functions,
{
    reveal(CtxView::if_else);
    lemma_branch_names(labels.l_m);
    lemma_next_block_refs(s, Op::Branch, seq![Operand::IdRef(labels.l_m)], labels.l_f, pending);
}

/// The end of a selection names the merge block and begins it.
pub proof fn lemma_if_end_refs(s: CtxView, labels: Selection, pending: Set<u32>)
    requires
        refs_ok(s.b, pending),
        pending.contains(labels.l_m),
        s.inside(),
    ensures
        refs_ok(s.if_end(labels).b, pending.remove(labels.l_m)),
        heads(s.if_end(labels).b.function, s.if_end(labels).b.block) == heads(
            s.b.function,
            s.b.block,
        ).insert(labels.l_m),
        s.if_end(labels).b.module.functions == s.b.module.functions,
{
    reveal(CtxView::if_end);
    lemma_branch_names(labels.l_m);
    lemma_next_block_refs(s, Op::Branch, seq![Operand::IdRef(labels.l_m)], labels.l_m, pending);
}

/// The head of a loop names the four labels of the loop and begins the
/// blocks of the header and of the body.
pub proof fn lemma_loop_begin_refs(s: CtxView, pending: Set<u32>)
    requires
        refs_ok(s.b, pending),
        s.inside(),
        s.b.next_id + 4 <= u32::MAX,
    ensures
        refs_ok(
            s.loop_begin().0.b,
            pending.insert(s.loop_begin().1.cont).insert(s.loop_begin().1.end),
        ),
        heads(s.b.function, s.b.block).subset_of(
            heads(s.loop_begin().0.b.function, s.loop_begin().0.b.block),
        ),
        heads(s.loop_begin().0.b.function, s.loop_begin().0.b.block).contains(
            s.loop_begin().1.head,
        ),
        s.loop_begin().0.b.module.functions == s.b.module.functions,
{
    reveal(CtxView::loop_begin);
    let (s1, head) = s.label();
    let (s2, cont) = s1.label();
    let (s3, end) = s2.label();
    let (s4, first) = s3.label();
    let q4 = pending.insert(head).insert(cont).insert(end).insert(first);
    assert(refs_ok(s4.b, q4)) by {
        reveal(refs_ok);
    }
    lemma_branch_names(head);
    lemma_next_block_refs(s4, Op::Branch, seq![Operand::IdRef(head)], head, q4);
    let s5 = s4.terminate(Op::Branch, seq![Operand::IdRef(head)]).block(head);
    let q5 = q4.remove(head);
    let merge = Inst::effect(
        Op::LoopMerge,
        seq![Operand::IdRef(end), Operand::IdRef(cont), Operand::LoopControl(Control::Unset)],
    );
    lemma_aims_add_instruction(s5.b, merge);
    let s6 = s5.effect(
        Op::LoopMerge,
        seq![Operand::IdRef(end), Operand::IdRef(cont), Operand::LoopControl(Control::Unset)],
    );
    assert(named_by(merge) =~= Set::<u32>::empty().insert(end).insert(cont));
    assert(refs_ok(s6.b, q5)) by {
        reveal(refs_ok);
    }
    lemma_branch_names(first);
    lemma_next_block_refs(s6, Op::Branch, seq![Operand::IdRef(first)], first, q5);
    let after = s6.terminate(Op::Branch, seq![Operand::IdRef(first)]).block(first);
    assert(refs_ok(after.b, pending.insert(cont).insert(end))) by {
        reveal(refs_ok);
    }
}

/// The end of a loop names its merge block and its header and begins the
/// blocks of its continue block and of its merge block.
pub proof fn lemma_loop_end_refs(s: CtxView, frame: Loop, pending: Set<u32>)
    requires
        refs_ok(s.b, pending),
        pending.contains(frame.cont),
        pending.contains(frame.end),
        frame.cont != frame.end,
        heads(s.b.function, s.b.block).contains(frame.head),
        s.inside(),
    ensures
        refs_ok(s.loop_end(frame).b, pending.remove(frame.cont).remove(frame.end)),
        heads(s.b.function, s.b.block).subset_of(
            heads(s.loop_end(frame).b.function, s.loop_end(frame).b.block),
        ),
        s.loop_end(frame).b.module.functions == s.b.module.functions,
{
    reveal(CtxView::loop_end);
    let s0 = s.with_loops(s.loops.drop_last());
    lemma_branch_names(frame.end);
    lemma_next_block_refs(s0, Op::Branch, seq![Operand::IdRef(frame.end)], frame.cont, pending);
    let s1 = s0.terminate(Op::Branch, seq![Operand::IdRef(frame.end)]).block(frame.cont);
    lemma_branch_names(frame.head);
    lemma_next_block_refs(
        s1,
        Op::Branch,
        seq![Operand::IdRef(frame.head)],
        frame.end,
        pending.remove(frame.cont),
    );
}

/// A branch to a label that is pending or the label of a block leaves the
/// branches in order.
pub proof fn lemma_jump_refs(s: CtxView, target: u32, pending: Set<u32>)
    requires
        refs_ok(s.b, pending),
        s.inside(),
        heads(s.b.function, s.b.block).union(pending).contains(target),
    ensures
        refs_ok(s.jump(target).b, pending),
        heads(s.b.function, s.b.block).subset_of(
            heads(s.jump(target).b.function, s.jump(target).b.block),
        ),
        s.jump(target).b.module.functions == s.b.module.functions,
{
    reveal(CtxView::jump);
    lemma_branch_names(target);
    lemma_dead_block_refs(s, Op::Branch, seq![Operand::IdRef(target)], pending);
}

/// A return leaves the branches in order.
pub proof fn lemma_leave_refs(s: CtxView, pending: Set<u32>)
    requires
        refs_ok(s.b, pending),
        s.inside(),
    ensures
        refs_ok(s.leave().b, pending),
        heads(s.b.function, s.b.block).subset_of(
            heads(s.leave().b.function, s.leave().b.block),
        ),
        s.leave().b.module.functions == s.b.module.functions,
{
    reveal(CtxView::leave);
    lemma_names_nothing(Inst::effect(Op::Return, Seq::empty()));
    lemma_dead_block_refs(s, Op::Return, Seq::empty(), pending);
}

/// Whether `after` has the labels that `before` has, and the functions.
pub open spec fn keeps_heads(before: BuilderView, after: BuilderView) -> bool {
    &&& heads(before.function, before.block).subset_of(heads(after.function, after.block))
    &&& after.module.functions == before.module.functions
}

/// Lowering a node that is accepted inside a function leaves the branches
/// in order, the pending labels pending, and the labels of the blocks
/// theirs.
pub proof fn lemma_lower_refs(s: CtxView, node: Tree, pending: Set<u32>)
    requires
        refs_ok(s.b, pending),
        ids_ok(s.b, pending),
        frames_pending(s.loops, pending),
        s.inside(),
        s.b.next_id + node.cost() <= u32::MAX,
        node.first_error(s.loops.len() > 0, s.funs.len()) is None,
    ensures
        refs_ok(s.lower(node).0.b, pending),
        keeps_heads(s.b, s.lower(node).0.b),
    decreases node, 0nat,
{
    match node {
        Tree::Call(i, args) => {
            lemma_lower_list_refs(s, args, args.len(), pending);
            let (s1, ids) = s.lower_list(args, args.len());
            lemma_call_plain(s1, i, ids);
            lemma_plain_ok(s1.b, s1.call(i, ids).0.b, pending);
        },
        Tree::Nop => {},
        Tree::INumOp(w, op, a, b) => {
            lemma_lower_refs(s, *a, pending);
            lemma_lower_ids(s, *a, pending);
            lemma_lower_steady(s, *a);
            let (s1, lhs) = s.lower(*a);
            lemma_lower_refs(s1, *b, pending);
            let (s2, rhs) = s1.lower(*b);
            lemma_num_op_plain(s2, w, op, lhs, rhs);
            lemma_plain_ok(s2.b, s2.num_op(w, op, lhs, rhs).0.b, pending);
        },
        Tree::ICompOp(w, op, a, b) => {
            lemma_lower_refs(s, *a, pending);
            lemma_lower_ids(s, *a, pending);
            lemma_lower_steady(s, *a);
            let (s1, lhs) = s.lower(*a);
            lemma_lower_refs(s1, *b, pending);
            let (s2, rhs) = s1.lower(*b);
            lemma_comp_op_plain(s2, w, op, lhs, rhs);
            lemma_plain_ok(s2.b, s2.comp_op(w, op, lhs, rhs).0.b, pending);
        },
        Tree::Const(c) => {
            lemma_constant_of_plain(s, c);
            lemma_plain_ok(s.b, s.constant_of(c).0.b, pending);
        },
        Tree::Sequence(a, b) => {
            lemma_lower_refs(s, *a, pending);
            lemma_lower_ids(s, *a, pending);
            lemma_lower_steady(s, *a);
            lemma_lower_refs(s.lower(*a).0, *b, pending);
        },
        Tree::GetLocal(l) => {
            lemma_get_local_plain(s, l);
            lemma_plain_ok(s.b, s.get_local(l).0.b, pending);
        },
        Tree::SetLocal(l, val) => {
            lemma_lower_refs(s, *val, pending);
            let (s1, v) = s.lower(*val);
            lemma_set_local_plain(s1, s.locals[l.idx], v);
            lemma_plain_ok(s1.b, s1.set_local(s.locals[l.idx], v).b, pending);
        },
        Tree::GetGlobal(_) => {},
        Tree::Load(ty, addr) => {
            lemma_load_begin_plain(s, ty);
            lemma_load_begin_extends(s, ty);
            lemma_load_begin_steady(s, ty);
            let (s1, access) = s.load_begin(ty);
            lemma_plain_ok(s.b, s1.b, pending);
            lemma_extends_ok(s.b, s1.b, pending);
            lemma_lower_refs(s1, *addr, pending);
            let (s2, a) = s1.lower(*addr);
            lemma_load_end_plain(s2, access, a);
            lemma_plain_ok(s2.b, s2.load_end(access, a).0.b, pending);
        },
        Tree::Store(ty, addr, val) => {
            lemma_store_begin_plain(s);
            lemma_store_begin_extends(s);
            lemma_store_begin_steady(s);
            let (s1, (uint, zero)) = s.store_begin();
            lemma_plain_ok(s.b, s1.b, pending);
            lemma_extends_ok(s.b, s1.b, pending);
            lemma_lower_refs(s1, *addr, pending);
            lemma_lower_ids(s1, *addr, pending);
            lemma_lower_steady(s1, *addr);
            let (s2, a) = s1.lower(*addr);
            lemma_lower_refs(s2, *val, pending);
            let (s3, v) = s2.lower(*val);
            lemma_store_end_plain(s3, ty, uint, zero, a, v);
            lemma_plain_ok(s3.b, s3.store_end(ty, uint, zero, a, v).b, pending);
        },
        Tree::If { cond, t, f } => {
            lemma_if_begin_refs(s, pending);
            lemma_if_begin_ids(s, pending);
            lemma_if_begin_steady(s);
            let (s1, labels) = s.if_begin();
            let q3 = pending.insert(labels.l_t).insert(labels.l_f).insert(labels.l_m);
            lemma_lower_refs(s1, *cond, q3);
            lemma_lower_ids(s1, *cond, q3);
            lemma_lower_steady(s1, *cond);
            let (s2, c) = s1.lower(*cond);
            lemma_if_then_refs(s2, labels, c, q3);
            lemma_if_then_ids(s2, labels, c, q3);
            lemma_if_then_steady(s2, labels, c);
            let s3 = s2.if_then(labels, c);
            let q2 = q3.remove(labels.l_t);
            lemma_lower_refs(s3, *t, q2);
            lemma_lower_ids(s3, *t, q2);
            lemma_lower_steady(s3, *t);
            let s4 = s3.lower(*t).0;
            lemma_if_else_refs(s4, labels, q2);
            lemma_if_else_ids(s4, labels, q2);
            lemma_if_else_steady(s4, labels);
            let s5 = s4.if_else(labels);
            let q1 = q2.remove(labels.l_f);
            lemma_lower_refs(s5, *f, q1);
            lemma_lower_ids(s5, *f, q1);
            lemma_lower_steady(s5, *f);
            let s6 = s5.lower(*f).0;
            lemma_if_end_refs(s6, labels, q1);
            assert(q1.remove(labels.l_m) =~= pending);
        },
        Tree::Loop(body) => {
            lemma_loop_begin_refs(s, pending);
            lemma_loop_begin_ids(s, pending);
            lemma_loop_begin_steady(s);
            let (s1, frame) = s.loop_begin();
            let q2 = pending.insert(frame.cont).insert(frame.end);
            assert(frames_pending(s1.loops, q2)) by {
                assert forall|i: int| 0 <= i < s1.loops.len() implies q2.contains(
                    (#[trigger] s1.loops[i]).cont,
                ) && q2.contains(s1.loops[i].end) by {
                    if i < s.loops.len() {
                        assert(s1.loops[i] == s.loops[i]);
                    }
                }
            }
            lemma_lower_refs(s1, *body, q2);
            lemma_lower_steady(s1, *body);
            let s2 = s1.lower(*body).0;
            lemma_loop_end_refs(s2, frame, q2);
            assert(q2.remove(frame.cont).remove(frame.end) =~= pending);
        },
        Tree::Continue => {
            assert(pending.contains(s.loops[s.loops.len() - 1].cont));
            lemma_jump_refs(s, s.loops.last().cont, pending);
        },
        Tree::Break => {
            assert(pending.contains(s.loops[s.loops.len() - 1].end));
            lemma_jump_refs(s, s.loops.last().end, pending);
        },
        Tree::Return => {
            lemma_leave_refs(s, pending);
        },
    }
}

/// Lowering a list of nodes that are accepted inside a function leaves the
/// branches in order.
pub proof fn lemma_lower_list_refs(s: CtxView, nodes: Seq<Tree>, n: nat, pending: Set<u32>)
    requires
        refs_ok(s.b, pending),
        ids_ok(s.b, pending),
        frames_pending(s.loops, pending),
        s.inside(),
        n <= nodes.len(),
        s.b.next_id + Tree::cost_of(nodes, n) <= u32::MAX,
        Tree::first_error_in(nodes, n, s.loops.len() > 0, s.funs.len()) is None,
    ensures
        refs_ok(s.lower_list(nodes, n).0.b, pending),
        keeps_heads(s.b, s.lower_list(nodes, n).0.b),
    decreases nodes, n,
{
    if n > 0 {
        lemma_lower_list_refs(s, nodes, (n - 1) as nat, pending);
        lemma_lower_list_ids(s, nodes, (n - 1) as nat, pending);
        lemma_lower_list_steady(s, nodes, (n - 1) as nat);
        let s1 = s.lower_list(nodes, (n - 1) as nat).0;
        lemma_lower_refs(s1, nodes[n - 1], pending);
    }
}

/// Beginning a function and its first block leaves the branches in order.
pub proof fn lemma_open_fun_refs(s: CtxView, ret: u32, function_type: u32)
    requires
        refs_ok(s.b, Set::empty()),
        s.outside(),
    ensures
        refs_ok(s.open_fun(ret, function_type).b, Set::empty()),
{
    reveal(CtxView::open_fun);
    reveal(refs_ok);
    let def = Inst::value(
        Op::Function,
        ret,
        s.b.next_id,
        seq![Operand::FunctionControl(Control::Unset), Operand::IdRef(function_type)],
    );
    lemma_aims_open_function(def);
    let b1 = s.b.begin_function(ret, Control::Unset, function_type);
    lemma_aims_open_block(b1.take_id(), b1.next_id);
}

/// Beginning a function leaves the branches in order.
pub proof fn lemma_begin_fun_refs(s: CtxView, f: FunView)
    requires
        s.sound(),
        s.outside(),
        refs_ok(s.b, Set::empty()),
        s.b.next_id + f.params.len() + 4 <= u32::MAX,
    ensures
        refs_ok(s.begin_fun(f).0.b, Set::empty()),
{
    let (s1, ret) = match f.ty {
        Some(t) => s.scalar_type(t),
        None => s.global(Op::TypeVoid, Seq::empty()),
    };
    match f.ty {
        Some(t) => {
            crate::preserve::lemma_scalar_type_sound(s, t);
        },
        None => {
            crate::preserve::lemma_global_sound(s, Op::TypeVoid, None, Seq::empty());
        },
    }
    crate::frame::lemma_scalar_types(s1, f.params, f.params.len());
    let (s2, param_types) = s1.scalar_types(f.params, f.params.len());
    let (s3, function_type) = s2.global(
        Op::TypeFunction,
        seq![Operand::IdRef(ret)] + crate::model::id_refs(param_types),
    );
    assert(plain(s.b, s3.b));
    lemma_plain_ok(s.b, s3.b, Set::empty());
    lemma_open_fun_refs(s3, ret, function_type);
}

/// The variable of a local is plain.
pub proof fn lemma_declare_local_plain(s: CtxView, l: Local)
    requires
        s.inside(),
    ensures
        plain(s.b, s.declare_local(l).0.b),
{
    reveal(CtxView::declare_local);
    let (s1, ty) = s.pointer_type(l.ty, StorageClass::Function);
    lemma_value_plain(s1, Op::Variable, ty, seq![Operand::StorageClass(StorageClass::Function)]);
    assert(s1.variable(ty, StorageClass::Function) == s1.value(
        Op::Variable,
        ty,
        seq![Operand::StorageClass(StorageClass::Function)],
    ));
}

/// The variables of locals are plain.
pub proof fn lemma_declare_locals_plain(s: CtxView, locals: Seq<Local>, n: nat)
    requires
        s.sound(),
        s.inside(),
        n <= locals.len(),
        s.b.next_id + crate::lowering::FUN_ITEM_COST * n <= u32::MAX,
    ensures
        plain(s.b, s.declare_locals(locals, n).0.b),
    decreases n,
{
    if n > 0 {
        lemma_declare_locals_plain(s, locals, (n - 1) as nat);
        crate::frame::lemma_declare_locals(s, locals, (n - 1) as nat);
        lemma_declare_local_plain(s.declare_locals(locals, (n - 1) as nat).0, locals[n - 1]);
    }
}

/// A parameter is plain.
pub proof fn lemma_declare_param_plain(s: CtxView, ty: ValueType, var: Option<u32>)
    requires
        s.inside(),
    ensures
        plain(s.b, s.declare_param(ty, var).b),
{
    reveal(CtxView::declare_param);
    let (s1, t) = s.scalar_type(ty);
    let x = Inst::value(Op::FunctionParameter, t, s1.b.next_id, Seq::empty());
    let function = s1.b.function->Some_0;
    lemma_aims_parameters(function, function.parameters.push(x), s1.b.block);
    let s2 = s1.with_builder(s1.b.declare_parameter(t));
    assert(plain(s1.b, s2.b));
    match var {
        Some(v) => {
            lemma_effect_plain(s2, Op::Store, seq![Operand::IdRef(v), Operand::IdRef(s1.b.next_id)]);
        },
        None => {},
    }
}

/// The parameters of a function are plain.
pub proof fn lemma_declare_params_plain(
    s: CtxView,
    params: Seq<ValueType>,
    n: nat,
    vars: Map<u32, u32>,
)
    requires
        s.sound(),
        s.inside(),
        n <= params.len(),
        s.b.next_id + 2 * n <= u32::MAX,
    ensures
        plain(s.b, s.declare_params(params, n, vars).b),
    decreases n,
{
    if n > 0 {
        lemma_declare_params_plain(s, params, (n - 1) as nat, vars);
        crate::frame::lemma_declare_params(s, params, (n - 1) as nat, vars);
        let idx = (n - 1) as u32;
        lemma_declare_param_plain(
            s.declare_params(params, (n - 1) as nat, vars),
            params[n - 1],
            if vars.contains_key(idx) {
                Some(vars[idx])
            } else {
                None
            },
        );
    }
}

/// The load of the thread id is plain.
pub proof fn lemma_load_thread_id_plain(s: CtxView)
    requires
        s.inside(),
    ensures
        plain(s.b, s.load_thread_id().b),
{
    reveal(CtxView::load_thread_id);
    let (s1, uint) = s.scalar_type(ValueType::I32);
    let (s2, uint_ptr) = s1.pointer_type(ValueType::I32, StorageClass::Input);
    let (s3, zero) = s2.constant(uint, 0);
    lemma_value_plain(
        s3,
        Op::AccessChain,
        uint_ptr,
        seq![Operand::IdRef(s.thread_id_v3), Operand::IdRef(zero)],
    );
    let (s4, component) = s3.value(
        Op::AccessChain,
        uint_ptr,
        seq![Operand::IdRef(s.thread_id_v3), Operand::IdRef(zero)],
    );
    lemma_value_plain(s4, Op::Load, uint, seq![Operand::IdRef(component)]);
}

/// The steps before the body of a function leave the branches in order.
pub proof fn lemma_enter_fun_refs(s: CtxView, f: FunView)
    requires
        s.sound(),
        s.outside(),
        refs_ok(s.b, Set::empty()),
        s.b.next_id + f.cost() <= u32::MAX,
    ensures
        refs_ok(s.enter_fun(f).b, Set::empty()),
{
    let locals = f.body.locals_spec();
    let p = f.params.len();
    let l = locals.len();
    assert(crate::lowering::FUN_ITEM_COST * (p + l) == 3 * p + 3 * l) by (nonlinear_arith);
    crate::frame::lemma_begin_fun(s, f);
    lemma_begin_fun_refs(s, f);
    let s1 = s.begin_fun(f).0;
    crate::frame::lemma_declare_locals(s1, locals, l);
    lemma_declare_locals_plain(s1, locals, l);
    let (s2, vars) = s1.declare_locals(locals, l);
    crate::frame::lemma_declare_params(s2, f.params, p, vars);
    lemma_declare_params_plain(s2, f.params, p, vars);
    let s3 = s2.declare_params(f.params, p, vars);
    let s4 = CtxView { locals: vars, ..s3 };
    lemma_load_thread_id_plain(s4);
    lemma_plain_ok(s1.b, s4.load_thread_id().b, Set::empty());
}

/// The steps after the body of a function close it, and leave the branches
/// in order.
pub proof fn lemma_end_fun_refs(s: CtxView, valued: bool, result: u32)
    requires
        refs_ok(s.b, Set::empty()),
        s.inside(),
    ensures
        refs_ok(s.end_fun(valued, result).b, Set::empty()),
{
    reveal(CtxView::end_fun);
    let (op, operands) = if valued {
        (Op::ReturnValue, seq![Operand::IdRef(result)])
    } else {
        (Op::Return, Seq::empty())
    };
    lemma_names_nothing(Inst::effect(op, operands));
    lemma_aims_terminate(s.b, op, operands);
    let s1 = s.terminate(op, operands);
    assert(refs_ok(s1.b, Set::empty())) by {
        reveal(refs_ok);
    }
    lemma_closed_at_end(s1.b);
}

/// Lowering a function that is accepted leaves the branches in order: the
/// function that is added to the module is closed.
pub proof fn lemma_lower_fun_refs(s: CtxView, f: FunView)
    requires
        s.sound(),
        s.outside(),
        s.loops.len() == 0,
        ids_ok(s.b, Set::empty()),
        refs_ok(s.b, Set::empty()),
        s.judge(f) is Ok,
        s.b.next_id <= s.reserved,
    ensures
        refs_ok(s.lower_fun(f).b, Set::empty()),
{
    crate::frame::lemma_enter_fun(s, f);
    crate::unique::lemma_enter_fun_extends(s, f);
    lemma_enter_fun_refs(s, f);
    let s0 = s.enter_fun(f);
    lemma_extends_ok(s.b, s0.b, Set::empty());
    lemma_lower_refs(s0, f.body, Set::empty());
    lemma_lower_steady(s0, f.body);
    let (s1, result) = s0.lower(f.body);
    lemma_end_fun_refs(s1, f.ty is Some, result);
}

} // verus!
