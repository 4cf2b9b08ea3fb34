//! Branches stay inside their function: every label that an instruction of
//! a function names, as the target of a branch or as a merge block or a
//! continue block, is the label of a block of that function.

use vstd::prelude::*;
use crate::model::{BlockView, BuilderView, FunctionView, Inst, Op, Operand};

verus! {

/// Whether an instruction names the label `t`: as the target of a branch,
/// or as the merge block or the continue block of a selection or a loop.
pub open spec fn names(inst: Inst, t: u32) -> bool {
    match inst.op {
        Op::Branch => inst.operands.len() >= 1 && inst.operands[0] == Operand::IdRef(t),
        Op::BranchConditional => inst.operands.len() >= 3 && (inst.operands[1] == Operand::IdRef(t)
            || inst.operands[2] == Operand::IdRef(t)),
        Op::SelectionMerge => inst.operands.len() >= 1 && inst.operands[0] == Operand::IdRef(t),
        Op::LoopMerge => inst.operands.len() >= 2 && (inst.operands[0] == Operand::IdRef(t)
            || inst.operands[1] == Operand::IdRef(t)),
        _ => false,
    }
}

/// Whether one of `insts` names the label `t`.
pub open spec fn named_in(insts: Seq<Inst>, t: u32) -> bool {
    exists|i: int| 0 <= i < insts.len() && names(#[trigger] insts[i], t)
}

impl BlockView {
    /// Whether `t` is the label of the block.
    pub open spec fn labelled(self, t: u32) -> bool {
        self.label matches Some(l) && l.result_id == Some(t)
    }
}

/// Whether an instruction of one of `blocks` names the label `t`.
pub open spec fn named_in_blocks(blocks: Seq<BlockView>, t: u32) -> bool {
    exists|b: int| 0 <= b < blocks.len() && named_in((#[trigger] blocks[b]).instructions, t)
}

/// Whether `t` is the label of one of `blocks`.
pub open spec fn labelled_in(blocks: Seq<BlockView>, t: u32) -> bool {
    exists|b: int| 0 <= b < blocks.len() && (#[trigger] blocks[b]).labelled(t)
}

impl FunctionView {
    /// Whether every label that an instruction of the function names is the
    /// label of a block of the function.
    pub open spec fn closed(self) -> bool {
        forall|t: u32| #[trigger] named_in_blocks(self.blocks, t) ==> labelled_in(self.blocks, t)
    }
}

/// The labels that the instructions of a function under construction name:
/// those of its blocks and of the open block.
pub open spec fn aims(function: Option<FunctionView>, block: Option<BlockView>) -> Set<u32> {
    Set::new(
        |t: u32|
            (function matches Some(f) && named_in_blocks(f.blocks, t)) || (block matches Some(o)
                && named_in(o.instructions, t)),
    )
}

/// The labels of the blocks of a function under construction, the open
/// block among them.
pub open spec fn heads(function: Option<FunctionView>, block: Option<BlockView>) -> Set<u32> {
    Set::new(
        |t: u32|
            (function matches Some(f) && labelled_in(f.blocks, t)) || (block matches Some(o)
                && o.labelled(t)),
    )
}

/// The labels that an instruction names.
pub open spec fn named_by(inst: Inst) -> Set<u32> {
    Set::new(|t: u32| names(inst, t))
}

/// Whether the branches of a builder are in order, with `pending` as the
/// labels that were taken for blocks that are yet to begin: every function
/// of the module is closed, and every label that the function under
/// construction names is the label of one of its blocks or pending.
#[verifier::opaque]
pub open spec fn refs_ok(b: BuilderView, pending: Set<u32>) -> bool {
    &&& forall|k: int|
        0 <= k < b.module.functions.len() ==> (#[trigger] b.module.functions[k]).closed()
    &&& aims(b.function, b.block).subset_of(heads(b.function, b.block).union(pending))
}

/// What one more instruction names is named.
pub proof fn lemma_named_push(insts: Seq<Inst>, x: Inst, t: u32)
    ensures
        named_in(insts.push(x), t) <==> named_in(insts, t) || names(x, t),
{
    let next = insts.push(x);
    if named_in(next, t) {
        let i = choose|i: int| 0 <= i < next.len() && names(#[trigger] next[i], t);
        if i < insts.len() {
            assert(names(insts[i], t));
        }
    }
    if named_in(insts, t) {
        let i = choose|i: int| 0 <= i < insts.len() && names(#[trigger] insts[i], t);
        assert(names(next[i], t));
    }
    if names(x, t) {
        assert(names(next[insts.len() as int], t));
    }
}

/// What one more block names is named, and its label is a label.
pub proof fn lemma_blocks_push(blocks: Seq<BlockView>, block: BlockView, t: u32)
    ensures
        named_in_blocks(blocks.push(block), t) <==> named_in_blocks(blocks, t) || named_in(
            block.instructions,
            t,
        ),
        labelled_in(blocks.push(block), t) <==> labelled_in(blocks, t) || block.labelled(t),
{
    let next = blocks.push(block);
    if named_in_blocks(next, t) {
        let b = choose|b: int| 0 <= b < next.len() && named_in((#[trigger] next[b]).instructions, t);
        if b < blocks.len() {
            assert(named_in(blocks[b].instructions, t));
        }
    }
    if named_in_blocks(blocks, t) {
        let b = choose|b: int|
            0 <= b < blocks.len() && named_in((#[trigger] blocks[b]).instructions, t);
        assert(named_in(next[b].instructions, t));
    }
    if named_in(block.instructions, t) {
        assert(named_in(next[blocks.len() as int].instructions, t));
    }
    if labelled_in(next, t) {
        let b = choose|b: int| 0 <= b < next.len() && (#[trigger] next[b]).labelled(t);
        if b < blocks.len() {
            assert(blocks[b].labelled(t));
        }
    }
    if labelled_in(blocks, t) {
        let b = choose|b: int| 0 <= b < blocks.len() && (#[trigger] blocks[b]).labelled(t);
        assert(next[b].labelled(t));
    }
    if block.labelled(t) {
        assert(next[blocks.len() as int].labelled(t));
    }
}

/// An instruction in the open block adds what it names to what is named.
pub proof fn lemma_aims_add_instruction(b: BuilderView, x: Inst)
    requires
        b.block is Some,
    ensures
        aims(b.add_instruction(x).function, b.add_instruction(x).block) == aims(
            b.function,
            b.block,
        ).union(named_by(x)),
        heads(b.add_instruction(x).function, b.add_instruction(x).block) == heads(
            b.function,
            b.block,
        ),
{
    let after = b.add_instruction(x);
    assert forall|t: u32|
        aims(after.function, after.block).contains(t) <==> aims(b.function, b.block).union(
            named_by(x),
        ).contains(t) by {
        lemma_named_push(b.block->Some_0.instructions, x, t);
    }
    assert(aims(after.function, after.block) =~= aims(b.function, b.block).union(named_by(x)));
    assert(heads(after.function, after.block) =~= heads(b.function, b.block));
}

/// The end of the open block adds what it names to what is named, and
/// leaves the labels as they are.
pub proof fn lemma_aims_terminate(b: BuilderView, op: Op, operands: Seq<Operand>)
    requires
        b.block is Some,
        b.function is Some,
    ensures
        aims(b.terminate(op, operands).function, b.terminate(op, operands).block) == aims(
            b.function,
            b.block,
        ).union(named_by(Inst::effect(op, operands))),
        heads(b.terminate(op, operands).function, b.terminate(op, operands).block) == heads(
            b.function,
            b.block,
        ),
{
    let after = b.terminate(op, operands);
    let x = Inst::effect(op, operands);
    let open = b.block->Some_0;
    let f = b.function->Some_0;
    let closed = BlockView { instructions: open.instructions.push(x), ..open };
    assert(after.function->Some_0.blocks == f.blocks.push(closed));
    assert forall|t: u32|
        aims(after.function, after.block).contains(t) <==> aims(b.function, b.block).union(
            named_by(x),
        ).contains(t) by {
        lemma_named_push(open.instructions, x, t);
        lemma_blocks_push(f.blocks, closed, t);
    }
    assert forall|t: u32|
        heads(after.function, after.block).contains(t) <==> heads(b.function, b.block).contains(
            t,
        ) by {
        lemma_blocks_push(f.blocks, closed, t);
    }
    assert(aims(after.function, after.block) =~= aims(b.function, b.block).union(named_by(x)));
    assert(heads(after.function, after.block) =~= heads(b.function, b.block));
}

/// The begin of a block adds its label to the labels.
pub proof fn lemma_aims_open_block(b: BuilderView, label: u32)
    requires
        b.block is None,
    ensures
        aims(b.open_block(label).function, b.open_block(label).block) == aims(b.function, b.block),
        heads(b.open_block(label).function, b.open_block(label).block) == heads(
            b.function,
            b.block,
        ).insert(label),
{
    let after = b.open_block(label);
    assert forall|t: u32| !named_in(Seq::<Inst>::empty(), t) by {}
    assert(aims(after.function, after.block) =~= aims(b.function, b.block));
    assert(heads(after.function, after.block) =~= heads(b.function, b.block).insert(label));
}

/// A function that is begun names nothing and has no labels.
pub proof fn lemma_aims_open_function(def: Inst)
    ensures
        aims(
            Some(
                FunctionView {
                    def: Some(def),
                    end: None,
                    parameters: Seq::empty(),
                    blocks: Seq::empty(),
                },
            ),
            None,
        ) == Set::<u32>::empty(),
        heads(
            Some(
                FunctionView {
                    def: Some(def),
                    end: None,
                    parameters: Seq::empty(),
                    blocks: Seq::empty(),
                },
            ),
            None,
        ) == Set::<u32>::empty(),
{
    let f = Some(
        FunctionView {
            def: Some(def),
            end: None,
            parameters: Seq::empty(),
            blocks: Seq::empty(),
        },
    );
    assert(aims(f, None) =~= Set::<u32>::empty());
    assert(heads(f, None) =~= Set::<u32>::empty());
}

/// What the parameters of a function are makes no difference to what it
/// names and to its labels.
pub proof fn lemma_aims_parameters(f: FunctionView, parameters: Seq<Inst>, block: Option<BlockView>)
    ensures
        aims(Some(FunctionView { parameters, ..f }), block) == aims(Some(f), block),
        heads(Some(FunctionView { parameters, ..f }), block) == heads(Some(f), block),
{
    let g = Some(FunctionView { parameters, ..f });
    assert(aims(g, block) =~= aims(Some(f), block));
    assert(heads(g, block) =~= heads(Some(f), block));
}

/// A function under construction that names its own labels only is closed
/// when it ends.
pub proof fn lemma_closed_at_end(b: BuilderView)
    requires
        refs_ok(b, Set::empty()),
        b.function is Some,
        b.block is None,
    ensures
        refs_ok(b.close_function(), Set::empty()),
{
    reveal(refs_ok);
    let f = b.function->Some_0;
    let done = FunctionView { end: Some(Inst::effect(Op::FunctionEnd, Seq::empty())), ..f };
    let after = b.close_function();
    assert(done.closed()) by {
        assert forall|t: u32| #[trigger] named_in_blocks(done.blocks, t) implies labelled_in(
            done.blocks,
            t,
        ) by {
            assert(aims(b.function, b.block).contains(t));
            assert(heads(b.function, b.block).union(Set::empty()).contains(t));
        }
    }
    assert forall|k: int| 0 <= k < after.module.functions.len() implies (
    #[trigger] after.module.functions[k]).closed() by {
        if k < b.module.functions.len() {
            assert(after.module.functions[k] == b.module.functions[k]);
        }
    }
    assert(aims(after.function, after.block) =~= Set::<u32>::empty());
}

/// With no function in the module and none under construction the branches
/// are in order.
pub proof fn lemma_refs_at_rest(b: BuilderView)
    requires
        b.function is None,
        b.block is None,
        b.module.functions.len() == 0,
    ensures
        refs_ok(b, Set::empty()),
{
    reveal(refs_ok);
    assert(aims(b.function, b.block) =~= Set::<u32>::empty());
}

} // verus!
