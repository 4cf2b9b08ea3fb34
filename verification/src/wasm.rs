//! The part of a WASM module that a kernel is made of, and what its
//! translation into trees means.
//!
//! The body of a function is a sequence of instructions for a stack machine.
//! It is translated by running it on a stack of trees: an instruction pops
//! the trees of its operands and pushes the tree of its result.  What is on
//! the stack at an `end` is the body of the block that ends there, each tree
//! to be evaluated in its turn.

use vstd::prelude::*;
use crate::error::CompileError;
use crate::ir::{Const, FunView, Global, ICompOp, INumOp, Local, Tree, ValueType, Width};

verus! {

/// One instruction.  A block, a loop and a selection say whether they yield
/// a value; a load and a store give the offset that is added to the address.
#[derive(Clone, Copy, Debug, PartialEq, Eq)]
pub enum Instr {
    Nop,
    Drop,
    Block(bool),
    Loop(bool),
    If(bool),
    Else,
    End,
    Br(u32),
    BrIf(u32),
    Return,
    Call(u32),
    GetLocal(u32),
    SetLocal(u32),
    TeeLocal(u32),
    GetGlobal(u32),
    SetGlobal(u32),
    Load(ValueType, u32),
    Store(ValueType, u32),
    Const(Const),
    Num(Width, INumOp),
    Comp(Width, ICompOp),
    /// Any other instruction.
    Unsupported,
}

/// The type of a global.
#[derive(Clone, Copy, Debug, PartialEq, Eq)]
pub struct GlobalType {
    pub ty: ValueType,
    pub mutable: bool,
}

/// The type of a function.
#[derive(Debug, PartialEq, Eq)]
pub struct Signature {
    pub params: Vec<ValueType>,
    pub ty: Option<ValueType>,
}

/// A function: its type, the types of the locals that it declares beside
/// its parameters, and its body, which ends with an `End`.
#[derive(Debug, PartialEq, Eq)]
pub struct Function {
    pub sig: Signature,
    pub locals: Vec<ValueType>,
    pub body: Vec<Instr>,
}

/// A WASM module: its globals and its functions.
#[derive(Debug, PartialEq, Eq)]
pub struct WasmModule {
    pub globals: Vec<GlobalType>,
    pub funs: Vec<Function>,
}

/// What encloses the instructions that are being translated.
#[derive(Clone, Copy, Debug, PartialEq, Eq)]
pub enum Label {
    /// The function itself.
    Function,
    /// A block: a branch to it leaves it.
    Block,
    /// A loop: a branch to it starts it again.
    Loop,
    /// The first branch of a selection.
    Then,
    /// The second branch of a selection.
    Otherwise,
}

/// The instruction at which a sequence of instructions ended.
#[derive(Clone, Copy, Debug, PartialEq, Eq)]
pub enum Ender {
    End,
    Else,
}

/// What the instructions of a function are translated against.
pub struct Env {
    /// The types of the locals, the parameters first.
    pub locals: Seq<ValueType>,
    /// The types of the globals.
    pub globals: Seq<GlobalType>,
    /// Of each function, the number of its parameters and whether it returns
    /// a value.
    pub sigs: Seq<(nat, bool)>,
    /// Whether the function that is being translated returns a value.
    pub valued: bool,
}

/// A tree on the stack, and whether it yields a value.
pub struct EntryView {
    pub node: Tree,
    pub yields: bool,
}

/// A sequence of instructions as one tree.
pub struct ParsedView {
    /// The tree.
    pub tree: Tree,
    /// Whether the tree yields a value.
    pub yields: bool,
    /// The position after the instruction that ended the sequence.
    pub next: nat,
    /// The instruction that ended the sequence.
    pub ender: Ender,
}

/// A tree that yields a value.
pub open spec fn value(node: Tree) -> EntryView {
    EntryView { node, yields: true }
}

/// A tree that yields none.
pub open spec fn statement(node: Tree) -> EntryView {
    EntryView { node, yields: false }
}

/// The stack without its top, and the tree on top, if that yields a value.
pub open spec fn pop(stack: Seq<EntryView>) -> Option<(Seq<EntryView>, Tree)> {
    if stack.len() > 0 && stack.last().yields {
        Some((stack.drop_last(), stack.last().node))
    } else {
        None
    }
}

/// The stack without its two topmost trees, and those trees, the lower one
/// first, if both yield a value.
pub open spec fn pop2(stack: Seq<EntryView>) -> Option<(Seq<EntryView>, Tree, Tree)> {
    match pop(stack) {
        Some((rest, second)) => match pop(rest) {
            Some((rest, first)) => Some((rest, first, second)),
            None => None,
        },
        None => None,
    }
}

/// Whether each of `entries` yields a value.
pub open spec fn all_yield(entries: Seq<EntryView>) -> bool {
    forall|i: int| 0 <= i < entries.len() ==> (#[trigger] entries[i]).yields
}

/// The trees of `entries`.
pub open spec fn nodes(entries: Seq<EntryView>) -> Seq<Tree> {
    entries.map_values(|e: EntryView| e.node)
}

/// The address `addr` with `offset` added, which is `addr` itself where the
/// offset is 0.
pub open spec fn with_offset(addr: Tree, offset: u32) -> Tree {
    if offset == 0 {
        addr
    } else {
        Tree::INumOp(
            Width::W32,
            INumOp::Add,
            Box::new(addr),
            Box::new(Tree::Const(Const::I32(offset as i32))),
        )
    }
}

/// `entries` before `last`: each tree is evaluated for its effect, in order,
/// and the value is that of `last`.
pub open spec fn fold_onto(entries: Seq<EntryView>, last: Tree) -> Tree
    decreases entries.len(),
{
    if entries.len() == 0 {
        last
    } else {
        fold_onto(
            entries.drop_last(),
            Tree::Sequence(Box::new(entries.last().node), Box::new(last)),
        )
    }
}

/// The trees of a stack as one tree: each tree is evaluated in order, and
/// the value is that of the last.  An empty stack does nothing.
pub open spec fn fold(stack: Seq<EntryView>) -> Tree {
    if stack.len() == 0 {
        Tree::Nop
    } else {
        fold_onto(stack.drop_last(), stack.last().node)
    }
}

/// What a branch to the label at `depth` becomes.  Only the innermost label
/// can be branched to, and only if it is that of a loop, which is started
/// again, or that of a block, which is left.
pub open spec fn branch(label: Label, depth: u32) -> Result<Tree, CompileError> {
    if depth != 0 {
        Err(CompileError::MultiLevelBranch)
    } else {
        match label {
            Label::Loop => Ok(Tree::Continue),
            Label::Block => Ok(Tree::Break),
            _ => Err(CompileError::MultiLevelBranch),
        }
    }
}

/// The stack after an instruction that opens and closes nothing, or the
/// reason for which the instruction is rejected.  An instruction whose
/// operands are not on the stack, or do not yield values, is unsupported.
pub open spec fn step(env: Env, instr: Instr, label: Label, stack: Seq<EntryView>) -> Result<
    Seq<EntryView>,
    CompileError,
> {
    match instr {
        Instr::Nop => Ok(stack),
        Instr::Drop => match pop(stack) {
            Some((rest, v)) => Ok(
                rest.push(statement(Tree::Sequence(Box::new(v), Box::new(Tree::Nop)))),
            ),
            None => Err(CompileError::UnsupportedInstruction),
        },
        Instr::Const(c) => Ok(stack.push(value(Tree::Const(c)))),
        Instr::GetLocal(i) => if i < env.locals.len() {
            Ok(stack.push(value(Tree::GetLocal(Local { idx: i, ty: env.locals[i as int] }))))
        } else {
            Err(CompileError::UnsupportedInstruction)
        },
        Instr::SetLocal(i) => match pop(stack) {
            Some((rest, v)) if i < env.locals.len() => Ok(
                rest.push(
                    statement(
                        Tree::SetLocal(Local { idx: i, ty: env.locals[i as int] }, Box::new(v)),
                    ),
                ),
            ),
            _ => Err(CompileError::UnsupportedInstruction),
        },
        Instr::TeeLocal(i) => match pop(stack) {
            Some((rest, v)) if i < env.locals.len() => {
                let l = Local { idx: i, ty: env.locals[i as int] };
                Ok(
                    rest.push(
                        value(
                            Tree::Sequence(
                                Box::new(Tree::SetLocal(l, Box::new(v))),
                                Box::new(Tree::GetLocal(l)),
                            ),
                        ),
                    ),
                )
            },
            _ => Err(CompileError::UnsupportedInstruction),
        },
        Instr::GetGlobal(i) => if i < env.globals.len() {
            Ok(
                stack.push(
                    value(
                        Tree::GetGlobal(
                            Global {
                                idx: i,
                                ty: env.globals[i as int].ty,
                                mutable: env.globals[i as int].mutable,
                            },
                        ),
                    ),
                ),
            )
        } else {
            Err(CompileError::UnsupportedGlobal)
        },
        Instr::SetGlobal(_) => Err(CompileError::UnsupportedGlobal),
        Instr::Load(ty, offset) => match pop(stack) {
            Some((rest, addr)) => Ok(
                rest.push(value(Tree::Load(ty, Box::new(with_offset(addr, offset))))),
            ),
            None => Err(CompileError::UnsupportedInstruction),
        },
        Instr::Store(ty, offset) => match pop2(stack) {
            Some((rest, addr, val)) => Ok(
                rest.push(
                    statement(Tree::Store(ty, Box::new(with_offset(addr, offset)), Box::new(val))),
                ),
            ),
            None => Err(CompileError::UnsupportedInstruction),
        },
        Instr::Num(w, op) => match pop2(stack) {
            Some((rest, a, b)) => Ok(rest.push(value(Tree::INumOp(w, op, Box::new(a), Box::new(b))))),
            None => Err(CompileError::UnsupportedInstruction),
        },
        Instr::Comp(w, op) => match pop2(stack) {
            Some((rest, a, b)) => Ok(
                rest.push(value(Tree::ICompOp(w, op, Box::new(a), Box::new(b)))),
            ),
            None => Err(CompileError::UnsupportedInstruction),
        },
        Instr::Call(f) => if f >= env.sigs.len() {
            Err(CompileError::UnknownFunction)
        } else {
            let n = env.sigs[f as int].0;
            if n <= stack.len() && all_yield(stack.skip(stack.len() - n)) {
                Ok(
                    stack.take(stack.len() - n).push(
                        EntryView {
                            node: Tree::Call(f, nodes(stack.skip(stack.len() - n))),
                            yields: env.sigs[f as int].1,
                        },
                    ),
                )
            } else {
                Err(CompileError::UnsupportedInstruction)
            }
        },
        Instr::Br(depth) => match branch(label, depth) {
            Ok(t) => Ok(stack.push(statement(t))),
            Err(e) => Err(e),
        },
        Instr::BrIf(depth) => match branch(label, depth) {
            Ok(t) => match pop(stack) {
                Some((rest, cond)) => Ok(
                    rest.push(
                        statement(
                            Tree::If {
                                cond: Box::new(cond),
                                t: Box::new(t),
                                f: Box::new(Tree::Nop),
                            },
                        ),
                    ),
                ),
                None => Err(CompileError::UnsupportedInstruction),
            },
            Err(e) => Err(e),
        },
        Instr::Return => if env.valued {
            Err(CompileError::UnsupportedInstruction)
        } else {
            Ok(stack.push(statement(Tree::Return)))
        },
        _ => Err(CompileError::UnsupportedInstruction),
    }
}

/// Whether `next` cannot be the position after the instruction that ended
/// the instructions from `pos` on.
pub open spec fn misplaced(instrs: Seq<Instr>, pos: nat, next: nat) -> bool {
    next <= pos || next > instrs.len()
}

/// The tree of the instructions from `pos` up to the `End` that closes what
/// encloses them (or the `Else`, in the first branch of a selection), with
/// `stack` as the trees of the instructions before `pos`; or the reason for
/// which the first instruction that is rejected is rejected.
///
/// A block and a loop become a loop, which runs once unless it is started
/// again.  A selection becomes a selection whose second branch does nothing
/// unless it is given.  None of them may yield a value.  Instructions that
/// run out before the `End` are unsupported.
pub open spec fn parse(
    env: Env,
    instrs: Seq<Instr>,
    pos: nat,
    label: Label,
    stack: Seq<EntryView>,
) -> Result<ParsedView, CompileError>
    decreases instrs.len() - pos,
{
    if pos >= instrs.len() {
        Err(CompileError::UnsupportedInstruction)
    } else {
        let here = ParsedView {
            tree: fold(stack),
            yields: stack.len() > 0 && stack.last().yields,
            next: pos + 1,
            ender: Ender::End,
        };
        match instrs[pos as int] {
            Instr::End => Ok(here),
            Instr::Else => if label is Then {
                Ok(ParsedView { ender: Ender::Else, ..here })
            } else {
                Err(CompileError::UnsupportedInstruction)
            },
            Instr::Block(valued) => if valued {
                Err(CompileError::UnsupportedInstruction)
            } else {
                match parse(env, instrs, pos + 1, Label::Block, Seq::empty()) {
                    Err(e) => Err(e),
                    Ok(body) => if misplaced(instrs, pos, body.next) {
                        Err(CompileError::UnsupportedInstruction)
                    } else {
                        parse(
                            env,
                            instrs,
                            body.next,
                            label,
                            stack.push(statement(Tree::Loop(Box::new(body.tree)))),
                        )
                    },
                }
            },
            Instr::Loop(valued) => if valued {
                Err(CompileError::UnsupportedInstruction)
            } else {
                match parse(env, instrs, pos + 1, Label::Loop, Seq::empty()) {
                    Err(e) => Err(e),
                    Ok(body) => if misplaced(instrs, pos, body.next) {
                        Err(CompileError::UnsupportedInstruction)
                    } else {
                        parse(
                            env,
                            instrs,
                            body.next,
                            label,
                            stack.push(statement(Tree::Loop(Box::new(body.tree)))),
                        )
                    },
                }
            },
            Instr::If(valued) => match pop(stack) {
                Some((rest, cond)) if !valued => match parse(
                    env,
                    instrs,
                    pos + 1,
                    Label::Then,
                    Seq::empty(),
                ) {
                    Err(e) => Err(e),
                    Ok(first) => if misplaced(instrs, pos, first.next) {
                        Err(CompileError::UnsupportedInstruction)
                    } else {
                        match first.ender {
                            Ender::End => parse(
                                env,
                                instrs,
                                first.next,
                                label,
                                rest.push(
                                    statement(
                                        Tree::If {
                                            cond: Box::new(cond),
                                            t: Box::new(first.tree),
                                            f: Box::new(Tree::Nop),
                                        },
                                    ),
                                ),
                            ),
                            Ender::Else => match parse(
                                env,
                                instrs,
                                first.next,
                                Label::Otherwise,
                                Seq::empty(),
                            ) {
                                Err(e) => Err(e),
                                Ok(second) => if misplaced(instrs, first.next, second.next) {
                                    Err(CompileError::UnsupportedInstruction)
                                } else {
                                    parse(
                                        env,
                                        instrs,
                                        second.next,
                                        label,
                                        rest.push(
                                            statement(
                                                Tree::If {
                                                    cond: Box::new(cond),
                                                    t: Box::new(first.tree),
                                                    f: Box::new(second.tree),
                                                },
                                            ),
                                        ),
                                    )
                                },
                            },
                        }
                    },
                },
                _ => Err(CompileError::UnsupportedInstruction),
            },
            instr => match step(env, instr, label, stack) {
                Err(e) => Err(e),
                Ok(next) => parse(env, instrs, pos + 1, label, next),
            },
        }
    }
}

/// What a function of a module is translated against.
pub open spec fn env_of(module: WasmModule, function: Function) -> Env {
    Env {
        locals: function.sig.params@ + function.locals@,
        globals: module.globals@,
        sigs: module.funs@.map_values(|f: Function| (f.sig.params@.len(), f.sig.ty is Some)),
        valued: function.sig.ty is Some,
    }
}

/// The function that a function of a module is translated to, or the
/// reason for which it is rejected.  Its body is the tree of its
/// instructions, which must end with the `End` of the function and, where
/// the function returns a value, yield one.
pub open spec fn translated(module: WasmModule, function: Function) -> Result<FunView, CompileError> {
    match parse(env_of(module, function), function.body@, 0, Label::Function, Seq::empty()) {
        Err(e) => Err(e),
        Ok(p) => if p.next != function.body@.len() || (function.sig.ty is Some && !p.yields) {
            Err(CompileError::UnsupportedInstruction)
        } else {
            Ok(FunView { params: function.sig.params@, ty: function.sig.ty, body: p.tree })
        },
    }
}

/// The functions that the first `n` functions of a module are translated
/// to, or the reason for which the first one that is rejected is rejected.
pub open spec fn translated_all(module: WasmModule, n: nat) -> Result<Seq<FunView>, CompileError>
    decreases n,
{
    if n == 0 || n > module.funs@.len() {
        Ok(Seq::empty())
    } else {
        match translated_all(module, (n - 1) as nat) {
            Err(e) => Err(e),
            Ok(funs) => match translated(module, module.funs@[n - 1]) {
                Err(e) => Err(e),
                Ok(f) => Ok(funs.push(f)),
            },
        }
    }
}

} // verus!
