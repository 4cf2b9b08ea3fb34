//! Ids are unique: no two instructions of a module declare the same id,
//! and every id that is declared has been handed out.

use vstd::prelude::*;
use crate::model::{BlockView, BuilderView, FunctionView, Inst, ModuleView, Op, Operand};

verus! {

/// How often an instruction declares the id `x`: once or never.
pub open spec fn declares(inst: Inst, x: u32) -> nat {
    if inst.result_id == Some(x) {
        1
    } else {
        0
    }
}

/// How often an instruction that may be there declares the id `x`.
pub open spec fn may_declare(inst: Option<Inst>, x: u32) -> nat {
    match inst {
        Some(i) => declares(i, x),
        None => 0,
    }
}

/// How often the instructions `insts` declare the id `x`.
pub open spec fn count(insts: Seq<Inst>, x: u32) -> nat
    decreases insts.len(),
{
    if insts.len() == 0 {
        0
    } else {
        count(insts.drop_last(), x) + declares(insts.last(), x)
    }
}

impl BlockView {
    /// How often the block declares the id `x`.
    pub open spec fn count(self, x: u32) -> nat {
        may_declare(self.label, x) + count(self.instructions, x)
    }
}

/// How often the blocks `blocks` declare the id `x`.
pub open spec fn count_in_blocks(blocks: Seq<BlockView>, x: u32) -> nat
    decreases blocks.len(),
{
    if blocks.len() == 0 {
        0
    } else {
        count_in_blocks(blocks.drop_last(), x) + blocks.last().count(x)
    }
}

impl FunctionView {
    /// How often the function declares the id `x`.
    pub open spec fn count(self, x: u32) -> nat {
        may_declare(self.def, x) + may_declare(self.end, x) + count(self.parameters, x)
            + count_in_blocks(self.blocks, x)
    }
}

/// How often the functions `functions` declare the id `x`.
pub open spec fn count_in_functions(functions: Seq<FunctionView>, x: u32) -> nat
    decreases functions.len(),
{
    if functions.len() == 0 {
        0
    } else {
        count_in_functions(functions.drop_last(), x) + functions.last().count(x)
    }
}

impl ModuleView {
    /// How often the module declares the id `x`.
    pub open spec fn count(self, x: u32) -> nat {
        count(self.capabilities, x) + count(self.extensions, x) + count(self.ext_inst_imports, x)
            + may_declare(self.memory_model, x) + count(self.entry_points, x) + count(
            self.execution_modes,
            x,
        ) + count(self.debugs, x) + count(self.annotations, x) + count(self.types_global_values, x)
            + count_in_functions(self.functions, x)
    }
}

impl BuilderView {
    /// How often what the builder holds declares the id `x`.
    pub open spec fn count(self, x: u32) -> nat {
        self.module.count(x) + (match self.function {
            Some(f) => f.count(x),
            None => 0,
        }) + (match self.block {
            Some(b) => b.count(x),
            None => 0,
        })
    }
}

/// Whether the ids of a builder are in order, with `pending` as the labels
/// that were taken for blocks that are yet to begin: no id is declared
/// twice, every id that is declared has been handed out and is not pending,
/// and every pending id has been handed out.
#[verifier::opaque]
pub open spec fn ids_ok(b: BuilderView, pending: Set<u32>) -> bool {
    &&& forall|x: u32| #[trigger] b.count(x) <= 1
    &&& forall|x: u32| #[trigger] b.count(x) > 0 ==> x < b.next_id && !pending.contains(x)
    &&& forall|x: u32| #[trigger] pending.contains(x) ==> x < b.next_id
}

/// Whether `after` holds what `before` holds and, beside it, declarations of
/// ids that were handed out in between, each once.
#[verifier::opaque]
pub open spec fn extends(before: BuilderView, after: BuilderView) -> bool {
    &&& before.next_id <= after.next_id
    &&& forall|x: u32| before.count(x) <= #[trigger] after.count(x) <= before.count(x) + 1
    &&& forall|x: u32| #[trigger] after.count(x) > before.count(x) ==> before.next_id <= x < after.next_id
}

/// One more instruction declares what it declares.
pub proof fn lemma_count_push(insts: Seq<Inst>, inst: Inst, x: u32)
    ensures
        count(insts.push(inst), x) == count(insts, x) + declares(inst, x),
{
    assert(insts.push(inst).drop_last() =~= insts);
}

/// One more block declares what it declares.
pub proof fn lemma_count_push_block(blocks: Seq<BlockView>, block: BlockView, x: u32)
    ensures
        count_in_blocks(blocks.push(block), x) == count_in_blocks(blocks, x) + block.count(x),
{
    assert(blocks.push(block).drop_last() =~= blocks);
}

/// One more function declares what it declares.
pub proof fn lemma_count_push_function(functions: Seq<FunctionView>, f: FunctionView, x: u32)
    ensures
        count_in_functions(functions.push(f), x) == count_in_functions(functions, x) + f.count(x),
{
    assert(functions.push(f).drop_last() =~= functions);
}

/// Nothing declares nothing.
pub proof fn lemma_count_empty(x: u32)
    ensures
        count(Seq::empty(), x) == 0,
        count_in_blocks(Seq::empty(), x) == 0,
        count_in_functions(Seq::empty(), x) == 0,
{
}

/// What the builder declares after one of its steps, for each step.
pub proof fn lemma_count_steps(b: BuilderView, inst: Inst, x: u32)
    ensures
        b.take_id().count(x) == b.count(x),
        b.add_capability(inst).count(x) == b.count(x) + declares(inst, x),
        b.add_ext_inst_import(inst).count(x) == b.count(x) + declares(inst, x),
        b.add_entry_point(inst).count(x) == b.count(x) + declares(inst, x),
        b.add_execution_mode(inst).count(x) == b.count(x) + declares(inst, x),
        b.add_annotation(inst).count(x) == b.count(x) + declares(inst, x),
        b.add_global(inst).count(x) == b.count(x) + declares(inst, x),
        b.module.memory_model is None ==> b.set_memory_model(inst).count(x) == b.count(x) + declares(
            inst,
            x,
        ),
        b.block is Some ==> b.add_instruction(inst).count(x) == b.count(x) + declares(inst, x),
        b.function is Some ==> b.add_parameter(inst).count(x) == b.count(x) + declares(inst, x),
        b.function is None ==> b.open_function(inst).count(x) == b.count(x) + declares(inst, x),
{
    lemma_count_push(b.module.capabilities, inst, x);
    lemma_count_push(b.module.ext_inst_imports, inst, x);
    lemma_count_push(b.module.entry_points, inst, x);
    lemma_count_push(b.module.execution_modes, inst, x);
    lemma_count_push(b.module.annotations, inst, x);
    lemma_count_push(b.module.types_global_values, inst, x);
    if b.block is Some {
        lemma_count_push(b.block->Some_0.instructions, inst, x);
    }
    if b.function is Some {
        lemma_count_push(b.function->Some_0.parameters, inst, x);
    }
    lemma_count_empty(x);
}

/// Ending the open block declares nothing: the block is moved, and what
/// ends it has no id.
pub proof fn lemma_count_terminate(b: BuilderView, op: Op, operands: Seq<Operand>, x: u32)
    requires
        b.block is Some,
        b.function is Some,
    ensures
        b.terminate(op, operands).count(x) == b.count(x),
{
    let open = b.block->Some_0;
    let f = b.function->Some_0;
    let closed = BlockView {
        instructions: open.instructions.push(Inst::effect(op, operands)),
        ..open
    };
    lemma_count_push(open.instructions, Inst::effect(op, operands), x);
    lemma_count_push_block(f.blocks, closed, x);
}

/// Beginning a block declares its label.
pub proof fn lemma_count_open_block(b: BuilderView, label: u32, x: u32)
    requires
        b.block is None,
    ensures
        b.open_block(label).count(x) == b.count(x) + (if x == label {
            1nat
        } else {
            0nat
        }),
{
    lemma_count_empty(x);
}

/// Ending the open function declares nothing: the function is moved, and
/// what ends it has no id.
pub proof fn lemma_count_close_function(b: BuilderView, x: u32)
    requires
        b.function is Some,
        b.function->Some_0.end is None,
    ensures
        b.close_function().count(x) == b.count(x),
{
    let f = b.function->Some_0;
    let done = FunctionView { end: Some(Inst::effect(Op::FunctionEnd, Seq::empty())), ..f };
    lemma_count_push_function(b.module.functions, done, x);
}

/// A builder extends itself.
pub proof fn lemma_extends_self(b: BuilderView)
    ensures
        extends(b, b),
{
    reveal(extends);
}

/// What extends what extends a builder extends the builder.
pub proof fn lemma_extends_twice(a: BuilderView, b: BuilderView, c: BuilderView)
    requires
        extends(a, b),
        extends(b, c),
    ensures
        extends(a, c),
{
    reveal(extends);
    assert forall|x: u32| a.count(x) <= #[trigger] c.count(x) <= a.count(x) + 1 by {
        assert(a.count(x) <= b.count(x) <= a.count(x) + 1);
        assert(b.count(x) <= c.count(x) <= b.count(x) + 1);
        if c.count(x) > b.count(x) && b.count(x) > a.count(x) {
            assert(b.next_id <= x);
            assert(x < b.next_id);
        }
    }
    assert forall|x: u32| #[trigger] c.count(x) > a.count(x) implies a.next_id <= x < c.next_id by {
        assert(a.count(x) <= b.count(x) <= a.count(x) + 1);
        assert(b.count(x) <= c.count(x) <= b.count(x) + 1);
    }
}

/// Ids that are in order stay in order when declarations of ids that were
/// handed out since are added.
pub proof fn lemma_extends_ok(before: BuilderView, after: BuilderView, pending: Set<u32>)
    requires
        ids_ok(before, pending),
        extends(before, after),
    ensures
        ids_ok(after, pending),
{
    reveal(extends);
    reveal(ids_ok);
    assert forall|x: u32| #[trigger] after.count(x) <= 1 by {
        assert(before.count(x) <= after.count(x) <= before.count(x) + 1);
        if after.count(x) > before.count(x) {
            assert(before.next_id <= x);
            assert(before.count(x) > 0 ==> x < before.next_id);
        }
        assert(before.count(x) <= 1);
    }
    assert forall|x: u32| #[trigger] after.count(x) > 0 implies x < after.next_id
        && !pending.contains(x) by {
        assert(before.count(x) <= after.count(x) <= before.count(x) + 1);
        if after.count(x) > before.count(x) {
            assert(before.next_id <= x < after.next_id);
            assert(pending.contains(x) ==> x < before.next_id);
        } else {
            assert(before.count(x) > 0);
        }
    }
    assert forall|x: u32| #[trigger] pending.contains(x) implies x < after.next_id by {
        assert(x < before.next_id);
    }
}

/// A step that declares nothing extends the builder.
pub proof fn lemma_extends_by_nothing(before: BuilderView, after: BuilderView)
    requires
        before.next_id <= after.next_id,
        forall|x: u32| #[trigger] after.count(x) == before.count(x),
    ensures
        extends(before, after),
{
    reveal(extends);
}

/// A step that declares the next id, and hands it out, extends the builder.
pub proof fn lemma_extends_by_next(before: BuilderView, after: BuilderView)
    requires
        before.next_id < u32::MAX,
        after.next_id == before.next_id + 1,
        forall|x: u32|
            #[trigger] after.count(x) == before.count(x) + (if x == before.next_id {
                1nat
            } else {
                0nat
            }),
    ensures
        extends(before, after),
{
    reveal(extends);
}

/// Taking a label leaves the ids in order, with the label pending.
pub proof fn lemma_ids_reserve(b: BuilderView, pending: Set<u32>)
    requires
        ids_ok(b, pending),
        b.next_id < u32::MAX,
    ensures
        ids_ok(b.take_id(), pending.insert(b.next_id)),
{
    reveal(ids_ok);
    let after = b.take_id();
    assert forall|x: u32| #[trigger] after.count(x) == b.count(x) by {
        lemma_count_steps(b, Inst::effect(Op::Label, Seq::empty()), x);
    }
    assert forall|x: u32| #[trigger] after.count(x) > 0 implies x < after.next_id
        && !pending.insert(b.next_id).contains(x) by {
        assert(b.count(x) > 0);
    }
}

/// Beginning the block of a pending label leaves the ids in order, with the
/// label no longer pending.
pub proof fn lemma_ids_begin_pending(b: BuilderView, pending: Set<u32>, label: u32)
    requires
        ids_ok(b, pending),
        pending.contains(label),
        b.can_begin_block(),
    ensures
        ids_ok(b.begin_block(Some(label)), pending.remove(label)),
{
    reveal(ids_ok);
    let after = b.begin_block(Some(label));
    assert forall|x: u32|
        #[trigger] after.count(x) == b.count(x) + (if x == label {
            1nat
        } else {
            0nat
        }) by {
        lemma_count_open_block(b, label, x);
    }
    assert forall|x: u32| #[trigger] after.count(x) <= 1 by {
        assert(b.count(x) <= 1);
        assert(b.count(label) > 0 ==> !pending.contains(label));
    }
    assert forall|x: u32| #[trigger] after.count(x) > 0 implies x < after.next_id
        && !pending.remove(label).contains(x) by {
        if x != label {
            assert(b.count(x) > 0);
        }
    }
    assert forall|x: u32| #[trigger] pending.remove(label).contains(x) implies x
        < after.next_id by {
        assert(pending.contains(x));
    }
}

} // verus!
