//! Every `Break` and every `Continue` of a tree that instructions are
//! translated to stands inside a loop.

use vstd::prelude::*;
use crate::error::CompileError;
use crate::ir::Tree;
use crate::wasm::{
    env_of, fold, fold_onto, nodes, parse, pop, statement, step, translated, Ender, EntryView,
    Env, Function, Instr, Label, WasmModule,
};

verus! {

impl Tree {
    /// Whether a loop encloses every `Break` and every `Continue` of this
    /// node.  `in_loop` says whether a loop encloses the node itself.
    pub open spec fn enclosed(self, in_loop: bool) -> bool
        decreases self, 0nat,
    {
        match self {
            Tree::Call(_, args) => Self::all_enclosed(args, args.len(), in_loop),
            Tree::INumOp(_, _, a, b) => a.enclosed(in_loop) && b.enclosed(in_loop),
            Tree::ICompOp(_, _, a, b) => a.enclosed(in_loop) && b.enclosed(in_loop),
            Tree::Sequence(a, b) => a.enclosed(in_loop) && b.enclosed(in_loop),
            Tree::SetLocal(_, val) => val.enclosed(in_loop),
            Tree::Load(_, addr) => addr.enclosed(in_loop),
            Tree::Store(_, addr, val) => addr.enclosed(in_loop) && val.enclosed(in_loop),
            Tree::If { cond, t, f } => cond.enclosed(in_loop) && t.enclosed(in_loop) && f.enclosed(
                in_loop,
            ),
            Tree::Loop(body) => body.enclosed(true),
            Tree::Continue | Tree::Break => in_loop,
            _ => true,
        }
    }

    /// The same of the first `n` of `nodes`.
    pub open spec fn all_enclosed(nodes: Seq<Tree>, n: nat, in_loop: bool) -> bool
        decreases nodes, n,
    {
        if n == 0 || n > nodes.len() {
            true
        } else {
            Self::all_enclosed(nodes, (n - 1) as nat, in_loop) && nodes[n - 1].enclosed(in_loop)
        }
    }
}

impl Label {
    /// Whether a branch to the label becomes a `Break` or a `Continue`.
    pub open spec fn loopish(self) -> bool {
        self is Block || self is Loop
    }
}

/// Whether a loop encloses every `Break` and every `Continue` of the trees
/// of a stack.
pub open spec fn stack_enclosed(stack: Seq<EntryView>, in_loop: bool) -> bool {
    forall|i: int| 0 <= i < stack.len() ==> (#[trigger] stack[i]).node.enclosed(in_loop)
}

/// What stands enclosed outside a loop stands enclosed inside one.
pub proof fn lemma_enclosed_inside(node: Tree, in_loop: bool)
    requires
        node.enclosed(false),
    ensures
        node.enclosed(in_loop),
    decreases node, 0nat,
{
    match node {
        Tree::Call(_, args) => {
            lemma_all_enclosed_inside(args, args.len(), in_loop);
        },
        Tree::INumOp(_, _, a, b) => {
            lemma_enclosed_inside(*a, in_loop);
            lemma_enclosed_inside(*b, in_loop);
        },
        Tree::ICompOp(_, _, a, b) => {
            lemma_enclosed_inside(*a, in_loop);
            lemma_enclosed_inside(*b, in_loop);
        },
        Tree::Sequence(a, b) => {
            lemma_enclosed_inside(*a, in_loop);
            lemma_enclosed_inside(*b, in_loop);
        },
        Tree::SetLocal(_, val) => {
            lemma_enclosed_inside(*val, in_loop);
        },
        Tree::Load(_, addr) => {
            lemma_enclosed_inside(*addr, in_loop);
        },
        Tree::Store(_, addr, val) => {
            lemma_enclosed_inside(*addr, in_loop);
            lemma_enclosed_inside(*val, in_loop);
        },
        Tree::If { cond, t, f } => {
            lemma_enclosed_inside(*cond, in_loop);
            lemma_enclosed_inside(*t, in_loop);
            lemma_enclosed_inside(*f, in_loop);
        },
        _ => {},
    }
}

/// The same of the first `n` nodes of a list.
pub proof fn lemma_all_enclosed_inside(nodes: Seq<Tree>, n: nat, in_loop: bool)
    requires
        n <= nodes.len(),
        Tree::all_enclosed(nodes, n, false),
    ensures
        Tree::all_enclosed(nodes, n, in_loop),
    decreases nodes, n,
{
    if n > 0 {
        lemma_all_enclosed_inside(nodes, (n - 1) as nat, in_loop);
        lemma_enclosed_inside(nodes[n - 1], in_loop);
    }
}

/// Nodes that stand enclosed one by one stand enclosed as a list.
pub proof fn lemma_all_enclosed(nodes: Seq<Tree>, n: nat, in_loop: bool)
    requires
        n <= nodes.len(),
        forall|i: int| 0 <= i < n ==> (#[trigger] nodes[i]).enclosed(in_loop),
    ensures
        Tree::all_enclosed(nodes, n, in_loop),
    decreases n,
{
    if n > 0 {
        lemma_all_enclosed(nodes, (n - 1) as nat, in_loop);
    }
}

/// A tree whose branches stand enclosed is never rejected for a branch
/// outside of a loop.
pub proof fn lemma_enclosed_is_accepted(node: Tree, in_loop: bool, funs: nat)
    requires
        node.enclosed(in_loop),
    ensures
        node.first_error(in_loop, funs) != Some(CompileError::BranchOutsideLoop),
    decreases node, 0nat,
{
    match node {
        Tree::Call(_, args) => {
            lemma_all_enclosed_is_accepted(args, args.len(), in_loop, funs);
        },
        Tree::INumOp(_, _, a, b) => {
            lemma_enclosed_is_accepted(*a, in_loop, funs);
            lemma_enclosed_is_accepted(*b, in_loop, funs);
        },
        Tree::ICompOp(_, _, a, b) => {
            lemma_enclosed_is_accepted(*a, in_loop, funs);
            lemma_enclosed_is_accepted(*b, in_loop, funs);
        },
        Tree::Sequence(a, b) => {
            lemma_enclosed_is_accepted(*a, in_loop, funs);
            lemma_enclosed_is_accepted(*b, in_loop, funs);
        },
        Tree::SetLocal(_, val) => {
            lemma_enclosed_is_accepted(*val, in_loop, funs);
        },
        Tree::Load(_, addr) => {
            lemma_enclosed_is_accepted(*addr, in_loop, funs);
        },
        Tree::Store(_, addr, val) => {
            lemma_enclosed_is_accepted(*addr, in_loop, funs);
            lemma_enclosed_is_accepted(*val, in_loop, funs);
        },
        Tree::If { cond, t, f } => {
            lemma_enclosed_is_accepted(*cond, in_loop, funs);
            lemma_enclosed_is_accepted(*t, in_loop, funs);
            lemma_enclosed_is_accepted(*f, in_loop, funs);
        },
        Tree::Loop(body) => {
            lemma_enclosed_is_accepted(*body, true, funs);
        },
        _ => {},
    }
}

/// The same of the first `n` nodes of a list.
pub proof fn lemma_all_enclosed_is_accepted(nodes: Seq<Tree>, n: nat, in_loop: bool, funs: nat)
    requires
        n <= nodes.len(),
        Tree::all_enclosed(nodes, n, in_loop),
    ensures
        Tree::first_error_in(nodes, n, in_loop, funs) != Some(CompileError::BranchOutsideLoop),
    decreases nodes, n,
{
    if n > 0 {
        lemma_all_enclosed_is_accepted(nodes, (n - 1) as nat, in_loop, funs);
        lemma_enclosed_is_accepted(nodes[n - 1], in_loop, funs);
    }
}

/// Trees that stand enclosed stand enclosed as one tree.
pub proof fn lemma_fold_onto_enclosed(entries: Seq<EntryView>, last: Tree, in_loop: bool)
    requires
        stack_enclosed(entries, in_loop),
        last.enclosed(in_loop),
    ensures
        fold_onto(entries, last).enclosed(in_loop),
    decreases entries.len(),
{
    if entries.len() > 0 {
        let rest = entries.drop_last();
        assert forall|i: int| 0 <= i < rest.len() implies (#[trigger] rest[i]).node.enclosed(
            in_loop,
        ) by {
            assert(rest[i] == entries[i]);
        }
        lemma_fold_onto_enclosed(
            rest,
            Tree::Sequence(Box::new(entries.last().node), Box::new(last)),
            in_loop,
        );
    }
}

/// Trees that stand enclosed stand enclosed as one tree.
pub proof fn lemma_fold_enclosed(stack: Seq<EntryView>, in_loop: bool)
    requires
        stack_enclosed(stack, in_loop),
    ensures
        fold(stack).enclosed(in_loop),
{
    if stack.len() > 0 {
        let rest = stack.drop_last();
        assert forall|i: int| 0 <= i < rest.len() implies (#[trigger] rest[i]).node.enclosed(
            in_loop,
        ) by {
            assert(rest[i] == stack[i]);
        }
        lemma_fold_onto_enclosed(rest, stack.last().node, in_loop);
    }
}

/// A tree that stands enclosed can be pushed onto trees that do.
pub proof fn lemma_push_enclosed(stack: Seq<EntryView>, e: EntryView, in_loop: bool)
    requires
        stack_enclosed(stack, in_loop),
        e.node.enclosed(in_loop),
    ensures
        stack_enclosed(stack.push(e), in_loop),
{
    let next = stack.push(e);
    assert forall|i: int| 0 <= i < next.len() implies (#[trigger] next[i]).node.enclosed(
        in_loop,
    ) by {
        if i < stack.len() {
            assert(next[i] == stack[i]);
        }
    }
}

/// What is popped off trees that stand enclosed stands enclosed, and so
/// does what is left.
pub proof fn lemma_pop_enclosed(stack: Seq<EntryView>, in_loop: bool)
    requires
        stack_enclosed(stack, in_loop),
    ensures
        pop(stack) matches Some(p) ==> stack_enclosed(p.0, in_loop) && p.1.enclosed(in_loop),
{
    if stack.len() > 0 {
        let rest = stack.drop_last();
        assert forall|i: int| 0 <= i < rest.len() implies (#[trigger] rest[i]).node.enclosed(
            in_loop,
        ) by {
            assert(rest[i] == stack[i]);
        }
        assert(stack[stack.len() - 1].node.enclosed(in_loop));
    }
}

/// An instruction that opens and closes nothing leaves trees that stand
/// enclosed enclosed.
pub proof fn lemma_step_enclosed(env: Env, instr: Instr, label: Label, stack: Seq<EntryView>)
    requires
        stack_enclosed(stack, label.loopish()),
    ensures
        step(env, instr, label, stack) matches Ok(next) ==> stack_enclosed(next, label.loopish()),
{
    reveal_with_fuel(Tree::enclosed, 4);
    let l = label.loopish();
    match step(env, instr, label, stack) {
        Err(_) => {},
        Ok(next) => {
            lemma_pop_enclosed(stack, l);
            match pop(stack) {
                Some((rest, _)) => {
                    lemma_pop_enclosed(rest, l);
                },
                None => {},
            }
            match instr {
                Instr::Nop => {},
                Instr::Call(f) => {
                    let n = env.sigs[f as int].0;
                    let kept = stack.take(stack.len() - n);
                    let args = nodes(stack.skip(stack.len() - n));
                    assert forall|i: int| 0 <= i < kept.len() implies (
                    #[trigger] kept[i]).node.enclosed(l) by {
                        assert(kept[i] == stack[i]);
                    }
                    assert forall|i: int| 0 <= i < args.len() implies (#[trigger] args[i]).enclosed(
                        l,
                    ) by {
                        assert(args[i] == stack[stack.len() - n + i].node);
                    }
                    lemma_all_enclosed(args, args.len(), l);
                    lemma_push_enclosed(kept, next.last(), l);
                    assert(next =~= kept.push(next.last()));
                },
                Instr::Const(_) | Instr::GetLocal(_) | Instr::GetGlobal(_) | Instr::Return
                | Instr::Br(_) => {
                    lemma_push_enclosed(stack, next.last(), l);
                    assert(next =~= stack.push(next.last()));
                },
                Instr::Drop | Instr::SetLocal(_) | Instr::TeeLocal(_) | Instr::Load(_, _)
                | Instr::BrIf(_) => {
                    let rest = pop(stack)->Some_0.0;
                    lemma_push_enclosed(rest, next.last(), l);
                    assert(next =~= rest.push(next.last()));
                },
                Instr::Store(_, _) | Instr::Num(_, _) | Instr::Comp(_, _) => {
                    let rest = pop(pop(stack)->Some_0.0)->Some_0.0;
                    lemma_push_enclosed(rest, next.last(), l);
                    assert(next =~= rest.push(next.last()));
                },
                _ => {},
            }
        },
    }
}

/// Instructions are translated to a tree whose branches stand enclosed, if
/// they do in the trees of the instructions before.
pub proof fn lemma_parse_enclosed(
    env: Env,
    instrs: Seq<Instr>,
    pos: nat,
    label: Label,
    stack: Seq<EntryView>,
)
    requires
        stack_enclosed(stack, label.loopish()),
    ensures
        parse(env, instrs, pos, label, stack) matches Ok(p) ==> p.tree.enclosed(label.loopish()),
    decreases instrs.len() - pos,
{
    reveal_with_fuel(Tree::enclosed, 2);
    let l = label.loopish();
    if pos < instrs.len() {
        match instrs[pos as int] {
            Instr::End => {
                lemma_fold_enclosed(stack, l);
            },
            Instr::Else => {
                lemma_fold_enclosed(stack, l);
            },
            Instr::Block(valued) => {
                if !valued {
                    lemma_parse_enclosed(env, instrs, pos + 1, Label::Block, Seq::empty());
                    match parse(env, instrs, pos + 1, Label::Block, Seq::empty()) {
                        Ok(body) => {
                            if body.next > pos && body.next <= instrs.len() {
                                let e = statement(Tree::Loop(Box::new(body.tree)));
                                lemma_push_enclosed(stack, e, l);
                                lemma_parse_enclosed(env, instrs, body.next, label, stack.push(e));
                            }
                        },
                        Err(_) => {},
                    }
                }
            },
            Instr::Loop(valued) => {
                if !valued {
                    lemma_parse_enclosed(env, instrs, pos + 1, Label::Loop, Seq::empty());
                    match parse(env, instrs, pos + 1, Label::Loop, Seq::empty()) {
                        Ok(body) => {
                            if body.next > pos && body.next <= instrs.len() {
                                let e = statement(Tree::Loop(Box::new(body.tree)));
                                lemma_push_enclosed(stack, e, l);
                                lemma_parse_enclosed(env, instrs, body.next, label, stack.push(e));
                            }
                        },
                        Err(_) => {},
                    }
                }
            },
            Instr::If(valued) => {
                lemma_pop_enclosed(stack, l);
                match pop(stack) {
                    Some((rest, cond)) => {
                        if !valued {
                            lemma_parse_enclosed(env, instrs, pos + 1, Label::Then, Seq::empty());
                            match parse(env, instrs, pos + 1, Label::Then, Seq::empty()) {
                                Ok(first) => {
                                    if first.next > pos && first.next <= instrs.len() {
                                        lemma_enclosed_inside(first.tree, l);
                                        match first.ender {
                                            Ender::End => {
                                                let e = statement(
                                                    Tree::If {
                                                        cond: Box::new(cond),
                                                        t: Box::new(first.tree),
                                                        f: Box::new(Tree::Nop),
                                                    },
                                                );
                                                lemma_push_enclosed(rest, e, l);
                                                lemma_parse_enclosed(
                                                    env,
                                                    instrs,
                                                    first.next,
                                                    label,
                                                    rest.push(e),
                                                );
                                            },
                                            Ender::Else => {
                                                lemma_parse_enclosed(
                                                    env,
                                                    instrs,
                                                    first.next,
                                                    Label::Otherwise,
                                                    Seq::empty(),
                                                );
                                                match parse(
                                                    env,
                                                    instrs,
                                                    first.next,
                                                    Label::Otherwise,
                                                    Seq::empty(),
                                                ) {
                                                    Ok(second) => {
                                                        if second.next > first.next && second.next
                                                            <= instrs.len() {
                                                            lemma_enclosed_inside(second.tree, l);
                                                            let e = statement(
                                                                Tree::If {
                                                                    cond: Box::new(cond),
                                                                    t: Box::new(first.tree),
                                                                    f: Box::new(second.tree),
                                                                },
                                                            );
                                                            lemma_push_enclosed(rest, e, l);
                                                            lemma_parse_enclosed(
                                                                env,
                                                                instrs,
                                                                second.next,
                                                                label,
                                                                rest.push(e),
                                                            );
                                                        }
                                                    },
                                                    Err(_) => {},
                                                }
                                            },
                                        }
                                    }
                                },
                                Err(_) => {},
                            }
                        }
                    },
                    None => {},
                }
            },
            instr => {
                lemma_step_enclosed(env, instr, label, stack);
                match step(env, instr, label, stack) {
                    Ok(next) => {
                        lemma_parse_enclosed(env, instrs, pos + 1, label, next);
                    },
                    Err(_) => {},
                }
            },
        }
    }
}

/// A loop encloses every `Break` and every `Continue` of the body of a
/// function that instructions are translated to, so that no such function
/// is rejected for a branch outside of a loop.
pub proof fn lemma_translated_enclosed(module: WasmModule, function: Function, funs: nat)
    requires
        translated(module, function) is Ok,
    ensures
        translated(module, function)->Ok_0.body.enclosed(false),
        translated(module, function)->Ok_0.body.first_error(false, funs) != Some(
            CompileError::BranchOutsideLoop,
        ),
{
    lemma_parse_enclosed(
        env_of(module, function),
        function.body@,
        0,
        Label::Function,
        Seq::empty(),
    );
    lemma_enclosed_is_accepted(translated(module, function)->Ok_0.body, false, funs);
}

} // verus!
