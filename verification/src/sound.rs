//! What holds of every context that a compilation can reach: the types that
//! the context remembers are the types that the module declares, every
//! block that was begun and left is ended properly, and every instruction
//! can be encoded.

use vstd::prelude::*;
use crate::ir::ValueType;
use crate::lowering::{slot, CtxView, Types, POINTER_SLOTS};
use crate::model::{
    id_refs, operands_known, BlockView, BuilderView, Control, FunctionView, Inst, Op, Operand,
    StorageClass,
};

verus! {

/// The value type whose SPIR-V type an instruction declares, if it declares
/// one: an integer type of 32 or 64 bits without a sign, or a floating-point
/// type of 32 or 64 bits.
pub open spec fn scalar_of(inst: Inst) -> Option<ValueType> {
    if inst.op is TypeInt && inst.operands.len() == 2 && inst.operands[1] == Operand::LiteralInt32(
        0,
    ) {
        if inst.operands[0] == Operand::LiteralInt32(32) {
            Some(ValueType::I32)
        } else if inst.operands[0] == Operand::LiteralInt32(64) {
            Some(ValueType::I64)
        } else {
            None
        }
    } else if inst.op is TypeFloat && inst.operands.len() == 1 {
        if inst.operands[0] == Operand::LiteralInt32(32) {
            Some(ValueType::F32)
        } else if inst.operands[0] == Operand::LiteralInt32(64) {
            Some(ValueType::F64)
        } else {
            None
        }
    } else {
        None
    }
}

/// The storage class and the pointee of the pointer type that an
/// instruction declares, if it declares one.
pub open spec fn pointer_of(inst: Inst) -> Option<(StorageClass, u32)> {
    if inst.op is TypePointer && inst.operands.len() == 2 && inst.operands[0] is StorageClass
        && inst.operands[1] is IdRef {
        Some((inst.operands[0]->StorageClass_0, inst.operands[1]->IdRef_0))
    } else {
        None
    }
}

/// Whether an instruction declares a type that the context remembers: a
/// scalar type, the boolean type or a pointer type.
pub open spec fn declares_type(inst: Inst) -> bool {
    scalar_of(inst) is Some || inst.op is TypeBool || pointer_of(inst) is Some
}

/// Whether an instruction among `g` declares the SPIR-V type of `t` under
/// `id`.
pub open spec fn declared_scalar(g: Seq<Inst>, t: ValueType, id: u32) -> bool {
    exists|i: int|
        0 <= i < g.len() && (#[trigger] scalar_of(g[i])) == Some(t) && g[i].result_id == Some(id)
}

/// Whether an instruction among `g` declares the boolean type under `id`.
pub open spec fn declared_bool(g: Seq<Inst>, id: u32) -> bool {
    exists|i: int| 0 <= i < g.len() && (#[trigger] g[i]).op is TypeBool && g[i].result_id == Some(id)
}

/// Whether an instruction among `g` declares the type of pointers to
/// `pointee` in `class` under `id`.
pub open spec fn declared_pointer(g: Seq<Inst>, class: StorageClass, pointee: u32, id: u32) -> bool {
    exists|i: int|
        0 <= i < g.len() && (#[trigger] pointer_of(g[i])) == Some((class, pointee))
            && g[i].result_id == Some(id)
}

/// What is declared among globals is declared among them and one more.
pub proof fn lemma_declared_push(g: Seq<Inst>, x: Inst)
    ensures
        forall|t: ValueType, id: u32|
            declared_scalar(g, t, id) ==> #[trigger] declared_scalar(g.push(x), t, id),
        forall|id: u32| declared_bool(g, id) ==> #[trigger] declared_bool(g.push(x), id),
        forall|class: StorageClass, pointee: u32, id: u32|
            declared_pointer(g, class, pointee, id) ==> #[trigger] declared_pointer(
                g.push(x),
                class,
                pointee,
                id,
            ),
        scalar_of(x) is Some && x.result_id is Some ==> declared_scalar(
            g.push(x),
            scalar_of(x)->Some_0,
            x.result_id->Some_0,
        ),
        x.op is TypeBool && x.result_id is Some ==> declared_bool(g.push(x), x.result_id->Some_0),
        pointer_of(x) is Some && x.result_id is Some ==> declared_pointer(
            g.push(x),
            pointer_of(x)->Some_0.0,
            pointer_of(x)->Some_0.1,
            x.result_id->Some_0,
        ),
{
    let g2 = g.push(x);
    assert forall|t: ValueType, id: u32| declared_scalar(g, t, id) implies #[trigger] declared_scalar(
        g2,
        t,
        id,
    ) by {
        let i = choose|i: int|
            0 <= i < g.len() && (#[trigger] scalar_of(g[i])) == Some(t) && g[i].result_id == Some(
                id,
            );
        assert(g2[i] == g[i]);
        assert(scalar_of(g2[i]) == Some(t));
    }
    assert forall|id: u32| declared_bool(g, id) implies #[trigger] declared_bool(g2, id) by {
        let i = choose|i: int|
            0 <= i < g.len() && (#[trigger] g[i]).op is TypeBool && g[i].result_id == Some(id);
        assert(g2[i] == g[i]);
        assert(g2[i].op is TypeBool);
    }
    assert forall|class: StorageClass, pointee: u32, id: u32|
        declared_pointer(g, class, pointee, id) implies #[trigger] declared_pointer(
        g2,
        class,
        pointee,
        id,
    ) by {
        let i = choose|i: int|
            0 <= i < g.len() && (#[trigger] pointer_of(g[i])) == Some((class, pointee))
                && g[i].result_id == Some(id);
        assert(g2[i] == g[i]);
        assert(pointer_of(g2[i]) == Some((class, pointee)));
    }
    let last = g.len() as int;
    assert(g2[last] == x);
    if scalar_of(x) is Some && x.result_id is Some {
        assert(scalar_of(g2[last]) == scalar_of(x));
    }
    if x.op is TypeBool && x.result_id is Some {
        assert(g2[last].op is TypeBool);
    }
    if pointer_of(x) is Some && x.result_id is Some {
        assert(pointer_of(g2[last]) == pointer_of(x));
    }
}

/// Whether the types that a context remembers are the types among the
/// globals `g`, with `next_id` as the next unused id:
/// - every id that is remembered has been handed out and is the id of an
///   instruction that declares the type, and no two value types share one;
/// - an instruction that declares the type of a value type, or the boolean
///   type, has the id that is remembered for it, and no other instruction
///   declares the same type;
/// - an instruction that declares a type of pointers to the type of a value
///   type has the id that is remembered for that value type and the storage
///   class, and no other instruction declares the same type.
#[verifier::opaque]
pub open spec fn cache_ok(tys: Types, ptrs: Seq<Option<u32>>, g: Seq<Inst>, next_id: u32) -> bool {
    &&& ptrs.len() == POINTER_SLOTS
    &&& tys.b matches Some(x) ==> x < next_id
    &&& forall|t: ValueType| (#[trigger] tys.of(t)) matches Some(x) ==> x < next_id
    &&& forall|t1: ValueType, t2: ValueType|
        (#[trigger] tys.of(t1)) is Some && tys.of(t1) == (#[trigger] tys.of(t2)) ==> t1 == t2
    &&& forall|i: int|
        0 <= i < g.len() ==> ((#[trigger] scalar_of(g[i])) matches Some(t) ==> g[i].result_id
            is Some && tys.of(t) == g[i].result_id)
    &&& forall|i: int, j: int|
        0 <= i < g.len() && 0 <= j < g.len() && i != j && (#[trigger] scalar_of(g[i])) is Some
            ==> scalar_of(g[i]) != (#[trigger] scalar_of(g[j]))
    &&& forall|i: int|
        0 <= i < g.len() && (#[trigger] g[i]).op is TypeBool ==> g[i].result_id is Some && tys.b
            == g[i].result_id
    &&& forall|i: int, j: int|
        0 <= i < g.len() && 0 <= j < g.len() && i != j && (#[trigger] g[i]).op is TypeBool ==> !((
        #[trigger] g[j]).op is TypeBool)
    &&& forall|i: int|
        0 <= i < g.len() ==> ((#[trigger] pointer_of(g[i])) matches Some(p) ==> p.1 < next_id)
    &&& forall|i: int, t: ValueType|
        0 <= i < g.len() && (#[trigger] pointer_of(g[i])) is Some && (#[trigger] tys.of(t))
            == Some(pointer_of(g[i])->Some_0.1) ==> g[i].result_id is Some && ptrs[slot(
            t,
            pointer_of(g[i])->Some_0.0,
        )] == g[i].result_id
    &&& forall|i: int, j: int, t: ValueType|
        0 <= i < g.len() && 0 <= j < g.len() && i != j && (#[trigger] pointer_of(g[i])) is Some && (
        #[trigger] tys.of(t)) == Some(pointer_of(g[i])->Some_0.1) ==> pointer_of(g[i]) != (
        #[trigger] pointer_of(g[j]))
    &&& forall|t: ValueType| (#[trigger] tys.of(t)) matches Some(x) ==> declared_scalar(g, t, x)
    &&& tys.b matches Some(x) ==> declared_bool(g, x)
    &&& forall|t: ValueType, c: StorageClass|
        (#[trigger] ptrs[slot(t, c)]) matches Some(x) ==> tys.of(t) is Some && declared_pointer(
            g,
            c,
            tys.of(t)->Some_0,
            x,
        )
}

/// Whether what a builder holds is in order:
/// - every instruction is known;
/// - no entry point and no execution mode is declared yet;
/// - every block of every function, the open one among them, is ended
///   properly, and the open function is not ended;
/// - the open block, if there is one, has a label and no instruction that
///   ends a block, and stands in an open function.
#[verifier::opaque]
pub open spec fn code_ok(b: BuilderView) -> bool {
    &&& b.known()
    &&& b.module.entry_points.len() == 0
    &&& b.module.execution_modes.len() == 0
    &&& forall|k: int|
        0 <= k < b.module.functions.len() ==> (#[trigger] b.module.functions[k]).blocks_terminated()
    &&& b.function matches Some(f) ==> f.blocks_terminated() && f.end is None
    &&& b.block matches Some(open) ==> open.unterminated() && b.function is Some
}

impl CtxView {
    /// Whether the functions that the context remembers are the functions of
    /// the module, in their order: each with its id and its result type.
    pub open spec fn tables_ok(self) -> bool {
        &&& self.funs.len() == self.b.module.functions.len()
        &&& forall|k: int|
            0 <= k < self.funs.len() ==> {
                &&& (#[trigger] self.b.module.functions[k]).def matches Some(d)
                &&& d.op is Function
                &&& d.result_id == Some(self.funs[k].0)
                &&& d.result_type == Some(self.funs[k].1)
            }
    }

    /// Whether the context is in order, inside a function or outside.
    pub open spec fn sound(self) -> bool {
        &&& cache_ok(self.tys, self.ptrs, self.b.module.types_global_values, self.b.next_id)
        &&& code_ok(self.b)
        &&& self.tables_ok()
    }

    /// Whether the context is in order and stands between two functions:
    /// nothing is open, no loop is entered, no id is declared twice or
    /// before it was handed out, every branch of a function stays inside
    /// the function, no more ids are taken than are reserved,
    /// and what the module holds in front of its types and its functions,
    /// and what its types and globals begin with, is what every compilation
    /// starts from.
    pub open spec fn inv(self) -> bool {
        &&& self.sound()
        &&& self.b.prelude() == CtxView::initial().b.prelude()
        &&& CtxView::initial().b.module.types_global_values.is_prefix_of(
            self.b.module.types_global_values,
        )
        &&& self.buffer == CtxView::initial().buffer
        &&& self.thread_id_v3 == CtxView::initial().thread_id_v3
        &&& crate::ids::ids_ok(self.b, Set::empty())
        &&& crate::targets::refs_ok(self.b, Set::empty())
        &&& self.b.function is None
        &&& self.b.block is None
        &&& self.loops.len() == 0
        &&& self.b.next_id <= self.reserved
    }
}

/// The slots of two pairs are the same only if the pairs are.
pub proof fn lemma_slot_injective(t1: ValueType, c1: StorageClass, t2: ValueType, c2: StorageClass)
    ensures
        0 <= slot(t1, c1) < POINTER_SLOTS,
        slot(t1, c1) == slot(t2, c2) ==> t1 == t2 && c1 == c2,
{
}

/// Handing out ids leaves the remembered types in order.
pub proof fn lemma_cache_grows(
    tys: Types,
    ptrs: Seq<Option<u32>>,
    g: Seq<Inst>,
    n1: u32,
    n2: u32,
)
    requires
        cache_ok(tys, ptrs, g, n1),
        n1 <= n2,
    ensures
        cache_ok(tys, ptrs, g, n2),
{
    reveal(cache_ok);
}

/// A global that declares none of the remembered kinds of types leaves them
/// in order.
pub proof fn lemma_cache_push_plain(
    tys: Types,
    ptrs: Seq<Option<u32>>,
    g: Seq<Inst>,
    n: u32,
    x: Inst,
)
    requires
        cache_ok(tys, ptrs, g, n),
        !declares_type(x),
    ensures
        cache_ok(tys, ptrs, g.push(x), n),
{
    reveal(cache_ok);
    lemma_declared_push(g, x);
    let g2 = g.push(x);
    assert forall|i: int| 0 <= i < g2.len() implies ((#[trigger] scalar_of(g2[i])) matches Some(
        t,
    ) ==> g2[i].result_id is Some && tys.of(t) == g2[i].result_id) by {
        if i < g.len() {
            assert(g2[i] == g[i]);
        }
    }
}

/// A newly declared scalar type is remembered in order.
pub proof fn lemma_cache_scalar(
    tys: Types,
    ptrs: Seq<Option<u32>>,
    g: Seq<Inst>,
    n: u32,
    t: ValueType,
)
    requires
        cache_ok(tys, ptrs, g, n),
        tys.of(t) is None,
        n < u32::MAX,
    ensures
        cache_ok(
            tys.with(t, n),
            ptrs,
            g.push(Inst::definition(t.type_op(), n, t.type_operands())),
            (n + 1) as u32,
        ),
{
    reveal(cache_ok);
    let x = Inst::definition(t.type_op(), n, t.type_operands());
    lemma_declared_push(g, x);
    let g2 = g.push(x);
    let tys2 = tys.with(t, n);
    assert(scalar_of(x) == Some(t));
    assert(pointer_of(x) is None);
    assert forall|u: ValueType| u != t implies tys2.of(u) == tys.of(u) by {}
    assert(tys2.of(t) == Some(n));
    assert forall|i: int| 0 <= i < g.len() implies g2[i] == g[i] by {}
}

/// The newly declared boolean type is remembered in order.
pub proof fn lemma_cache_bool(tys: Types, ptrs: Seq<Option<u32>>, g: Seq<Inst>, n: u32)
    requires
        cache_ok(tys, ptrs, g, n),
        tys.b is None,
        n < u32::MAX,
    ensures
        cache_ok(
            Types { b: Some(n), ..tys },
            ptrs,
            g.push(Inst::definition(Op::TypeBool, n, Seq::empty())),
            (n + 1) as u32,
        ),
{
    reveal(cache_ok);
    let x = Inst::definition(Op::TypeBool, n, Seq::empty());
    lemma_declared_push(g, x);
    let g2 = g.push(x);
    let tys2 = Types { b: Some(n), ..tys };
    assert(scalar_of(x) is None);
    assert(pointer_of(x) is None);
    assert forall|u: ValueType| tys2.of(u) == tys.of(u) by {}
    assert forall|i: int| 0 <= i < g.len() implies g2[i] == g[i] by {}
}

/// A newly declared type of pointers to a scalar type is remembered in
/// order.
pub proof fn lemma_cache_pointer(
    tys: Types,
    ptrs: Seq<Option<u32>>,
    g: Seq<Inst>,
    n: u32,
    t: ValueType,
    class: StorageClass,
)
    requires
        cache_ok(tys, ptrs, g, n),
        tys.of(t) is Some,
        ptrs[slot(t, class)] is None,
        n < u32::MAX,
    ensures
        cache_ok(
            tys,
            ptrs.update(slot(t, class), Some(n)),
            g.push(
                Inst::definition(
                    Op::TypePointer,
                    n,
                    seq![Operand::StorageClass(class), Operand::IdRef(tys.of(t)->Some_0)],
                ),
            ),
            (n + 1) as u32,
        ),
{
    reveal(cache_ok);
    let pointee = tys.of(t)->Some_0;
    let x = Inst::definition(
        Op::TypePointer,
        n,
        seq![Operand::StorageClass(class), Operand::IdRef(pointee)],
    );
    lemma_declared_push(g, x);
    let g2 = g.push(x);
    let ptrs2 = ptrs.update(slot(t, class), Some(n));
    assert(scalar_of(x) is None);
    assert(pointer_of(x) == Some((class, pointee)));
    assert forall|i: int| 0 <= i < g.len() implies g2[i] == g[i] by {}
    assert forall|t1: ValueType, c1: StorageClass, t2: ValueType, c2: StorageClass|
        slot(t1, c1) == slot(t2, c2) implies t1 == t2 && c1 == c2 by {
        lemma_slot_injective(t1, c1, t2, c2);
    }
    assert forall|i: int, u: ValueType|
        0 <= i < g2.len() && (#[trigger] pointer_of(g2[i])) is Some && (#[trigger] tys.of(u))
            == Some(pointer_of(g2[i])->Some_0.1) implies g2[i].result_id is Some && ptrs2[slot(
        u,
        pointer_of(g2[i])->Some_0.0,
    )] == g2[i].result_id by {
        lemma_slot_injective(u, pointer_of(g2[i])->Some_0.0, t, class);
        if i < g.len() {
            assert(g2[i] == g[i]);
            assert(ptrs[slot(u, pointer_of(g[i])->Some_0.0)] == g[i].result_id);
        } else {
            assert(tys.of(u) == tys.of(t));
        }
    }
    assert forall|i: int, j: int, u: ValueType|
        0 <= i < g2.len() && 0 <= j < g2.len() && i != j && (#[trigger] pointer_of(g2[i]))
            is Some && (#[trigger] tys.of(u)) == Some(pointer_of(g2[i])->Some_0.1)
        implies pointer_of(g2[i]) != (#[trigger] pointer_of(g2[j])) by {
        if i < g.len() && j < g.len() {
            assert(g2[i] == g[i]);
            assert(g2[j] == g[j]);
        } else if i < g.len() {
            assert(g2[i] == g[i]);
            if pointer_of(g[i]) == pointer_of(x) {
                assert(ptrs[slot(u, class)] == g[i].result_id);
                assert(tys.of(u) == tys.of(t));
            }
        } else {
            assert(g2[j] == g[j]);
            if pointer_of(g[j]) == pointer_of(x) {
                assert(tys.of(t) == Some(pointer_of(g[j])->Some_0.1));
                assert(ptrs[slot(t, class)] == g[j].result_id);
            }
        }
    }
}

} // verus!

verus! {

/// Ids are known operands.
pub proof fn lemma_id_refs_known(ids: Seq<u32>)
    ensures
        operands_known(id_refs(ids)),
        id_refs(ids).len() == ids.len(),
{
}

/// Operands that are known one by one are known together.
pub proof fn lemma_operands_known_add(a: Seq<Operand>, b: Seq<Operand>)
    requires
        operands_known(a),
        operands_known(b),
    ensures
        operands_known(a + b),
{
}

/// Handing out an id leaves the builder in order.
pub proof fn lemma_code_take_id(b: BuilderView)
    requires
        code_ok(b),
    ensures
        code_ok(b.take_id()),
{
    reveal(code_ok);
}

/// A known global leaves the builder in order.
pub proof fn lemma_code_add_global(b: BuilderView, x: Inst)
    requires
        code_ok(b),
        x.known(),
    ensures
        code_ok(b.add_global(x)),
{
    reveal(code_ok);
}

/// A known decoration leaves the builder in order.
pub proof fn lemma_code_add_annotation(b: BuilderView, x: Inst)
    requires
        code_ok(b),
        x.known(),
    ensures
        code_ok(b.add_annotation(x)),
{
    reveal(code_ok);
}

/// A known instruction that does not end a block leaves the builder in
/// order when it is appended to the open block.
pub proof fn lemma_code_add_instruction(b: BuilderView, x: Inst)
    requires
        code_ok(b),
        b.block is Some,
        x.known(),
        !x.op.is_terminator(),
    ensures
        code_ok(b.add_instruction(x)),
{
    reveal(code_ok);
}

/// A known parameter leaves the builder in order.
pub proof fn lemma_code_add_parameter(b: BuilderView, x: Inst)
    requires
        code_ok(b),
        b.function is Some,
        x.known(),
    ensures
        code_ok(b.add_parameter(x)),
{
    reveal(code_ok);
    let f = b.function->Some_0;
    let f2 = b.add_parameter(x).function->Some_0;
    assert(f2.blocks == f.blocks);
}

/// Ending the open block with a known instruction that ends a block leaves
/// the builder in order, with no block open.
pub proof fn lemma_code_terminate(b: BuilderView, op: Op, operands: Seq<Operand>)
    requires
        code_ok(b),
        b.block is Some,
        op.is_terminator(),
        operands_known(operands),
    ensures
        code_ok(b.terminate(op, operands)),
        b.terminate(op, operands).block is None,
        b.terminate(op, operands).function is Some,
        b.terminate(op, operands).function->Some_0.def == b.function->Some_0.def,
{
    reveal(code_ok);
    let open = b.block->Some_0;
    let t = Inst::effect(op, operands);
    let closed = BlockView { instructions: open.instructions.push(t), ..open };
    assert(closed.terminated()) by {
        assert(closed.instructions.last() == t);
        assert forall|i: int| 0 <= i < closed.instructions.len() - 1 implies !(
        #[trigger] closed.instructions[i]).op.is_terminator() by {
            assert(closed.instructions[i] == open.instructions[i]);
        }
    }
    assert(closed.known());
    let f = b.function->Some_0;
    let f2 = b.terminate(op, operands).function->Some_0;
    assert(f2.blocks == f.blocks.push(closed));
    assert(f2.blocks_terminated()) by {
        assert forall|i: int| 0 <= i < f2.blocks.len() implies (#[trigger] f2.blocks[i]).terminated(
        ) by {
            if i < f.blocks.len() {
                assert(f2.blocks[i] == f.blocks[i]);
            }
        }
    }
    assert(f2.known()) by {
        assert forall|i: int| 0 <= i < f2.blocks.len() implies (#[trigger] f2.blocks[i]).known() by {
            if i < f.blocks.len() {
                assert(f2.blocks[i] == f.blocks[i]);
            }
        }
    }
}

/// Beginning a block in an open function leaves the builder in order, with
/// the block open.
pub proof fn lemma_code_begin_block(b: BuilderView, label: Option<u32>)
    requires
        code_ok(b),
        b.can_begin_block(),
    ensures
        code_ok(b.begin_block(label)),
        b.begin_block(label).block is Some,
        b.begin_block(label).function == b.function,
{
    reveal(code_ok);
}

/// Beginning a function with a known definition leaves the builder in
/// order, with the function open.
pub proof fn lemma_code_begin_function(b: BuilderView, return_type: u32, function_type: u32)
    requires
        code_ok(b),
        b.function is None,
        b.block is None,
    ensures
        code_ok(b.begin_function(return_type, Control::Unset, function_type)),
{
    reveal(code_ok);
    let b2 = b.begin_function(return_type, Control::Unset, function_type);
    let f = b2.function->Some_0;
    assert(f.def->Some_0.known());
}

/// Ending the open function leaves the builder in order, with nothing open.
pub proof fn lemma_code_close_function(b: BuilderView)
    requires
        code_ok(b),
        b.function is Some,
        b.block is None,
    ensures
        code_ok(b.close_function()),
{
    reveal(code_ok);
    let f = b.function->Some_0;
    let done = FunctionView { end: Some(Inst::effect(Op::FunctionEnd, Seq::empty())), ..f };
    let b2 = b.close_function();
    assert(b2.module.functions == b.module.functions.push(done));
    assert(done.blocks == f.blocks);
    assert(done.known());
    assert forall|k: int| 0 <= k < b2.module.functions.len() implies (
    #[trigger] b2.module.functions[k]).blocks_terminated() by {
        if k < b.module.functions.len() {
            assert(b2.module.functions[k] == b.module.functions[k]);
        }
    }
    assert forall|k: int| 0 <= k < b2.module.functions.len() implies (
    #[trigger] b2.module.functions[k]).known() by {
        if k < b.module.functions.len() {
            assert(b2.module.functions[k] == b.module.functions[k]);
        }
    }
}

} // verus!
