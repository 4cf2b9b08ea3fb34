//! What lowering a node leaves as it was: the open function stays open, a
//! block is open afterwards as it was before, the locals, the functions and
//! the loops are the same, and no more ids are taken than the node's cost.

use vstd::prelude::*;
use crate::ir::{Const, ICompOp, INumOp, Local, Tree, ValueType, Width};
use crate::lowering::{Access, CtxView, Loop, Selection, POINTER_SLOTS};
use crate::model::StorageClass;

verus! {

impl CtxView {
    /// Whether the context stands inside a function, with a block open.
    pub open spec fn inside(self) -> bool {
        &&& self.b.function is Some
        &&& self.b.block is Some
        &&& self.ptrs.len() == POINTER_SLOTS
    }

    /// This context with another builder.
    pub open spec fn with_builder(self, b: crate::model::BuilderView) -> CtxView {
        CtxView { b, ..self }
    }

    /// This context inside other loops.
    pub open spec fn with_loops(self, loops: Seq<Loop>) -> CtxView {
        CtxView { loops, ..self }
    }

    /// Whether `after` differs from this context at most by what lowering
    /// inside a function may change: the types, the globals, the blocks of
    /// the open function, and at most `cost` ids.
    pub open spec fn steady(self, after: CtxView, cost: nat) -> bool {
        &&& after.inside()
        &&& self.b.next_id <= after.b.next_id <= self.b.next_id + cost
        &&& after.locals == self.locals
        &&& after.funs == self.funs
        &&& after.loops == self.loops
        &&& after.buffer == self.buffer
        &&& after.thread_id == self.thread_id
        &&& after.thread_id_v3 == self.thread_id_v3
        &&& after.reserved == self.reserved
        &&& after.b.prelude() == self.b.prelude()
        &&& after.b.function->Some_0.def == self.b.function->Some_0.def
        &&& after.b.module.functions == self.b.module.functions
        &&& self.b.module.types_global_values.is_prefix_of(after.b.module.types_global_values)
        &&& self.tys.kept_by(after.tys)
    }
}

/// Asking for the type of a value type takes one id at most and leaves the
/// type remembered.
pub proof fn lemma_scalar_type_steady(s: CtxView, t: ValueType)
    requires
        s.inside(),
        s.b.next_id + 1 <= u32::MAX,
    ensures
        s.steady(s.scalar_type(t).0, 1),
        s.scalar_type(t).0.tys.of(t) is Some,
{
}

/// Asking for a type of pointers takes two ids at most.
pub proof fn lemma_pointer_type_steady(s: CtxView, t: ValueType, class: StorageClass)
    requires
        s.inside(),
        s.b.next_id + 2 <= u32::MAX,
    ensures
        s.steady(s.pointer_type(t, class).0, 2),
{
    lemma_scalar_type_steady(s, t);
}

/// The pointer to a word of the storage buffer takes three ids.
pub proof fn lemma_word_pointer_steady(
    s: CtxView,
    uint: u32,
    zero: u32,
    pointer_type: u32,
    addr: u32,
)
    requires
        s.inside(),
        s.b.next_id + 3 <= u32::MAX,
    ensures
        s.steady(s.word_pointer(uint, zero, pointer_type, addr).0, 3),
{
}

/// A call takes one id.
pub proof fn lemma_call_steady(s: CtxView, i: u32, args: Seq<u32>)
    requires
        s.inside(),
        s.b.next_id + 1 <= u32::MAX,
    ensures
        s.steady(s.call(i, args).0, 1),
{
    reveal(CtxView::call);
}

/// Arithmetic takes two ids at most.
pub proof fn lemma_num_op_steady(s: CtxView, w: Width, op: INumOp, lhs: u32, rhs: u32)
    requires
        s.inside(),
        s.b.next_id + 2 <= u32::MAX,
    ensures
        s.steady(s.num_op(w, op, lhs, rhs).0, 2),
{
    reveal(CtxView::num_op);
    lemma_scalar_type_steady(s, w.value_type());
}

/// A comparison takes six ids at most.
pub proof fn lemma_comp_op_steady(s: CtxView, w: Width, op: ICompOp, lhs: u32, rhs: u32)
    requires
        s.inside(),
        s.b.next_id + 6 <= u32::MAX,
    ensures
        s.steady(s.comp_op(w, op, lhs, rhs).0, 6),
{
    reveal(CtxView::comp_op);
    lemma_scalar_type_steady(s, w.value_type());
}

/// A constant takes two ids at most.
pub proof fn lemma_constant_of_steady(s: CtxView, c: Const)
    requires
        s.inside(),
        s.b.next_id + 2 <= u32::MAX,
    ensures
        s.steady(s.constant_of(c).0, 2),
{
    reveal(CtxView::constant_of);
}

/// The read of a local takes two ids at most.
pub proof fn lemma_get_local_steady(s: CtxView, l: Local)
    requires
        s.inside(),
        s.b.next_id + 2 <= u32::MAX,
    ensures
        s.steady(s.get_local(l).0, 2),
{
    reveal(CtxView::get_local);
}

/// The write of a local takes no id.
pub proof fn lemma_set_local_steady(s: CtxView, var: u32, v: u32)
    requires
        s.inside(),
    ensures
        s.steady(s.set_local(var, v), 0),
{
    reveal(CtxView::set_local);
}

/// What a load declares before its address takes five ids at most.
pub proof fn lemma_load_begin_steady(s: CtxView, ty: ValueType)
    requires
        s.inside(),
        s.b.next_id + 5 <= u32::MAX,
    ensures
        s.steady(s.load_begin(ty).0, 5),
{
    reveal(CtxView::load_begin);
    let (s1, uint) = s.scalar_type(ValueType::I32);
    let (s2, zero) = s1.constant(uint, 0);
    lemma_pointer_type_steady(s2, ty, StorageClass::Uniform);
}

/// The load itself takes four ids.
pub proof fn lemma_load_end_steady(s: CtxView, access: Access, addr: u32)
    requires
        s.inside(),
        s.b.next_id + 4 <= u32::MAX,
    ensures
        s.steady(s.load_end(access, addr).0, 4),
{
    reveal(CtxView::load_end);
    lemma_word_pointer_steady(s, access.uint, access.zero, access.pointer_type, addr);
}

/// What a store declares before its operands takes two ids at most.
pub proof fn lemma_store_begin_steady(s: CtxView)
    requires
        s.inside(),
        s.b.next_id + 2 <= u32::MAX,
    ensures
        s.steady(s.store_begin().0, 2),
{
    reveal(CtxView::store_begin);
}

/// The store itself takes five ids at most.
pub proof fn lemma_store_end_steady(
    s: CtxView,
    ty: ValueType,
    uint: u32,
    zero: u32,
    addr: u32,
    v: u32,
)
    requires
        s.inside(),
        s.b.next_id + 5 <= u32::MAX,
    ensures
        s.steady(s.store_end(ty, uint, zero, addr, v), 5),
{
    reveal(CtxView::store_end);
    lemma_pointer_type_steady(s, ty, StorageClass::Uniform);
    let (s1, pointer_type) = s.pointer_type(ty, StorageClass::Uniform);
    lemma_word_pointer_steady(s1, uint, zero, pointer_type, addr);
}

/// The labels of a selection take three ids.
pub proof fn lemma_if_begin_steady(s: CtxView)
    requires
        s.inside(),
        s.b.next_id + 3 <= u32::MAX,
    ensures
        s.steady(s.if_begin().0, 3),
{
    reveal(CtxView::if_begin);
}

/// The branch of a selection takes four ids at most.
pub proof fn lemma_if_then_steady(s: CtxView, labels: Selection, cond: u32)
    requires
        s.inside(),
        s.b.next_id + 4 <= u32::MAX,
    ensures
        s.steady(s.if_then(labels, cond), 4),
{
    reveal(CtxView::if_then);
}

/// The change from the first branch of a selection to the second takes no
/// id.
pub proof fn lemma_if_else_steady(s: CtxView, labels: Selection)
    requires
        s.inside(),
    ensures
        s.steady(s.if_else(labels), 0),
{
    reveal(CtxView::if_else);
}

/// The end of a selection takes no id.
pub proof fn lemma_if_end_steady(s: CtxView, labels: Selection)
    requires
        s.inside(),
    ensures
        s.steady(s.if_end(labels), 0),
{
    reveal(CtxView::if_end);
}

/// The head of a loop leaves everything but the loops as it was, and puts
/// the loop's frame on top of them.
pub proof fn lemma_loop_begin_steady(s: CtxView)
    requires
        s.inside(),
        s.b.next_id + 4 <= u32::MAX,
    ensures
        s.with_loops(s.loop_begin().0.loops).steady(s.loop_begin().0, 4),
        s.loop_begin().0.loops == s.loops.push(s.loop_begin().1),
{
    reveal(CtxView::loop_begin);
}

/// The end of a loop leaves everything but the loops as it was, and takes
/// the innermost loop off them.
pub proof fn lemma_loop_end_steady(s: CtxView, frame: Loop)
    requires
        s.inside(),
    ensures
        s.with_loops(s.loops.drop_last()).steady(s.loop_end(frame), 0),
{
    reveal(CtxView::loop_end);
}

/// A branch out of the open block takes one id, for the block that follows.
pub proof fn lemma_jump_steady(s: CtxView, target: u32)
    requires
        s.inside(),
        s.b.next_id + 1 <= u32::MAX,
    ensures
        s.steady(s.jump(target), 1),
{
    reveal(CtxView::jump);
}

/// A return out of the open block takes one id, for the block that follows.
pub proof fn lemma_leave_steady(s: CtxView)
    requires
        s.inside(),
        s.b.next_id + 1 <= u32::MAX,
    ensures
        s.steady(s.leave(), 1),
{
    reveal(CtxView::leave);
}

/// Lowering a node inside a function leaves the context inside it and takes
/// no more ids than the node's cost.
pub proof fn lemma_lower_steady(s: CtxView, node: Tree)
    requires
        s.inside(),
        s.b.next_id + node.cost() <= u32::MAX,
    ensures
        s.steady(s.lower(node).0, node.cost()),
    decreases node, 0nat,
{
    match node {
        Tree::Call(i, args) => {
            lemma_lower_list_steady(s, args, args.len());
            let (s1, ids) = s.lower_list(args, args.len());
            lemma_call_steady(s1, i, ids);
        },
        Tree::Nop => {},
        Tree::INumOp(w, op, a, b) => {
            lemma_lower_steady(s, *a);
            let (s1, lhs) = s.lower(*a);
            lemma_lower_steady(s1, *b);
            let (s2, rhs) = s1.lower(*b);
            lemma_num_op_steady(s2, w, op, lhs, rhs);
        },
        Tree::ICompOp(w, op, a, b) => {
            lemma_lower_steady(s, *a);
            let (s1, lhs) = s.lower(*a);
            lemma_lower_steady(s1, *b);
            let (s2, rhs) = s1.lower(*b);
            lemma_comp_op_steady(s2, w, op, lhs, rhs);
        },
        Tree::Const(c) => {
            lemma_constant_of_steady(s, c);
        },
        Tree::Sequence(a, b) => {
            lemma_lower_steady(s, *a);
            lemma_lower_steady(s.lower(*a).0, *b);
        },
        Tree::GetLocal(l) => {
            lemma_get_local_steady(s, l);
        },
        Tree::SetLocal(l, val) => {
            lemma_lower_steady(s, *val);
            let (s1, v) = s.lower(*val);
            lemma_set_local_steady(s1, s.locals[l.idx], v);
        },
        Tree::GetGlobal(_) => {},
        Tree::Load(ty, addr) => {
            lemma_load_begin_steady(s, ty);
            let (s1, access) = s.load_begin(ty);
            lemma_lower_steady(s1, *addr);
            let (s2, a) = s1.lower(*addr);
            lemma_load_end_steady(s2, access, a);
        },
        Tree::Store(ty, addr, val) => {
            lemma_store_begin_steady(s);
            let (s1, (uint, zero)) = s.store_begin();
            lemma_lower_steady(s1, *addr);
            let (s2, a) = s1.lower(*addr);
            lemma_lower_steady(s2, *val);
            let (s3, v) = s2.lower(*val);
            lemma_store_end_steady(s3, ty, uint, zero, a, v);
        },
        Tree::If { cond, t, f } => {
            lemma_if_begin_steady(s);
            let (s1, labels) = s.if_begin();
            lemma_lower_steady(s1, *cond);
            let (s2, c) = s1.lower(*cond);
            lemma_if_then_steady(s2, labels, c);
            let s3 = s2.if_then(labels, c);
            lemma_lower_steady(s3, *t);
            let s4 = s3.lower(*t).0;
            lemma_if_else_steady(s4, labels);
            let s5 = s4.if_else(labels);
            lemma_lower_steady(s5, *f);
            let s6 = s5.lower(*f).0;
            lemma_if_end_steady(s6, labels);
        },
        Tree::Loop(body) => {
            lemma_loop_begin_steady(s);
            let (s1, frame) = s.loop_begin();
            lemma_lower_steady(s1, *body);
            let s2 = s1.lower(*body).0;
            lemma_loop_end_steady(s2, frame);
            assert(s.loops.push(frame).drop_last() =~= s.loops);
        },
        Tree::Continue => {
            lemma_jump_steady(s, s.loops.last().cont);
        },
        Tree::Break => {
            lemma_jump_steady(s, s.loops.last().end);
        },
        Tree::Return => {
            lemma_leave_steady(s);
        },
    }
}

/// Lowering a list of nodes inside a function leaves the context inside it,
/// takes no more ids than the nodes' cost, and yields one id for each node.
pub proof fn lemma_lower_list_steady(s: CtxView, nodes: Seq<Tree>, n: nat)
    requires
        s.inside(),
        n <= nodes.len(),
        s.b.next_id + Tree::cost_of(nodes, n) <= u32::MAX,
    ensures
        s.steady(s.lower_list(nodes, n).0, Tree::cost_of(nodes, n)),
        s.lower_list(nodes, n).1.len() == n,
    decreases nodes, n,
{
    if n > 0 {
        lemma_lower_list_steady(s, nodes, (n - 1) as nat);
        let s1 = s.lower_list(nodes, (n - 1) as nat).0;
        lemma_lower_steady(s1, nodes[n - 1]);
    }
}

} // verus!
