//! The translation of the instructions of a function into a tree.

use vstd::prelude::*;
use crate::error::CompileError;
use crate::ir::{Base, Const, Fun, FunView, Global, INumOp, Local, Tree, ValueType, Width};
use crate::spirv::{compile, compiled, fun_views};
use crate::wasm::{
    all_yield, env_of, fold, fold_onto, nodes, parse, step, translated, translated_all,
    with_offset, Ender, EntryView, Env, Function, Instr, Label, ParsedView, WasmModule,
};

verus! {

/// A tree on the stack, and whether it yields a value.
pub struct Entry {
    pub node: Base,
    pub yields: bool,
}

impl View for Entry {
    type V = EntryView;

    open spec fn view(&self) -> EntryView {
        EntryView { node: self.node@, yields: self.yields }
    }
}

/// A sequence of instructions as one tree.
pub struct Parsed {
    /// The tree.
    pub tree: Base,
    /// Whether the tree yields a value.
    pub yields: bool,
    /// The position after the instruction that ended the sequence.
    pub next: usize,
    /// The instruction that ended the sequence.
    pub ender: Ender,
}

impl View for Parsed {
    type V = ParsedView;

    open spec fn view(&self) -> ParsedView {
        ParsedView {
            tree: self.tree@,
            yields: self.yields,
            next: self.next as nat,
            ender: self.ender,
        }
    }
}

/// The values of the entries of a stack.
pub open spec fn views(stack: Seq<Entry>) -> Seq<EntryView> {
    stack.map_values(|e: Entry| e@)
}

/// What instructions are translated against: the types of the locals, the
/// module, and whether the function that is being translated returns a
/// value.
pub open spec fn env(locals: Seq<ValueType>, module: WasmModule, valued: bool) -> Env {
    Env {
        locals,
        globals: module.globals@,
        sigs: module.funs@.map_values(|f: Function| (f.sig.params@.len(), f.sig.ty is Some)),
        valued,
    }
}

/// A translation that is not rejected ends after the position that it
/// started from, and within the instructions.
pub proof fn lemma_parse_advances(
    env: Env,
    instrs: Seq<Instr>,
    pos: nat,
    label: Label,
    stack: Seq<EntryView>,
)
    ensures
        parse(env, instrs, pos, label, stack) matches Ok(p) ==> pos < p.next <= instrs.len(),
    decreases instrs.len() - pos,
{
    if pos < instrs.len() {
        match instrs[pos as int] {
            Instr::End => {},
            Instr::Else => {},
            Instr::Block(valued) => {
                if !valued {
                    lemma_parse_advances(env, instrs, pos + 1, Label::Block, Seq::empty());
                    match parse(env, instrs, pos + 1, Label::Block, Seq::empty()) {
                        Ok(body) => {
                            lemma_parse_advances(
                                env,
                                instrs,
                                body.next,
                                label,
                                stack.push(crate::wasm::statement(Tree::Loop(Box::new(body.tree)))),
                            );
                        },
                        Err(_) => {},
                    }
                }
            },
            Instr::Loop(valued) => {
                if !valued {
                    lemma_parse_advances(env, instrs, pos + 1, Label::Loop, Seq::empty());
                    match parse(env, instrs, pos + 1, Label::Loop, Seq::empty()) {
                        Ok(body) => {
                            lemma_parse_advances(
                                env,
                                instrs,
                                body.next,
                                label,
                                stack.push(crate::wasm::statement(Tree::Loop(Box::new(body.tree)))),
                            );
                        },
                        Err(_) => {},
                    }
                }
            },
            Instr::If(valued) => {
                match crate::wasm::pop(stack) {
                    Some((rest, cond)) => {
                        if !valued {
                            lemma_parse_advances(env, instrs, pos + 1, Label::Then, Seq::empty());
                            match parse(env, instrs, pos + 1, Label::Then, Seq::empty()) {
                                Ok(first) => {
                                    match first.ender {
                                        Ender::End => {
                                            lemma_parse_advances(
                                                env,
                                                instrs,
                                                first.next,
                                                label,
                                                rest.push(
                                                    crate::wasm::statement(
                                                        Tree::If {
                                                            cond: Box::new(cond),
                                                            t: Box::new(first.tree),
                                                            f: Box::new(Tree::Nop),
                                                        },
                                                    ),
                                                ),
                                            );
                                        },
                                        Ender::Else => {
                                            lemma_parse_advances(
                                                env,
                                                instrs,
                                                first.next,
                                                Label::Otherwise,
                                                Seq::empty(),
                                            );
                                            match parse(
                                                env,
                                                instrs,
                                                first.next,
                                                Label::Otherwise,
                                                Seq::empty(),
                                            ) {
                                                Ok(second) => {
                                                    lemma_parse_advances(
                                                        env,
                                                        instrs,
                                                        second.next,
                                                        label,
                                                        rest.push(
                                                            crate::wasm::statement(
                                                                Tree::If {
                                                                    cond: Box::new(cond),
                                                                    t: Box::new(first.tree),
                                                                    f: Box::new(second.tree),
                                                                },
                                                            ),
                                                        ),
                                                    );
                                                },
                                                Err(_) => {},
                                            }
                                        },
                                    }
                                },
                                Err(_) => {},
                            }
                        }
                    },
                    None => {},
                }
            },
            instr => {
                match step(env, instr, label, stack) {
                    Ok(next) => {
                        lemma_parse_advances(env, instrs, pos + 1, label, next);
                    },
                    Err(_) => {},
                }
            },
        }
    }
}

/// Pushes a tree.
fn push(stack: &mut Vec<Entry>, node: Base, yields: bool)
    ensures
        views(final(stack)@) == views(old(stack)@).push(EntryView { node: node@, yields }),
{
    stack.push(Entry { node, yields });
    assert(views(stack@) =~= views(old(stack)@).push(EntryView { node: node@, yields }));
}

/// Pops the tree on top, if it yields a value.
fn pop(stack: &mut Vec<Entry>) -> (r: Option<Base>)
    ensures
        match crate::wasm::pop(views(old(stack)@)) {
            Some((rest, v)) => r matches Some(n) && n@ == v && views(final(stack)@) == rest,
            None => r is None,
        },
{
    if stack.len() > 0 && stack[stack.len() - 1].yields {
        let e = stack.pop().unwrap();
        assert(views(stack@) =~= views(old(stack)@).drop_last());
        Some(e.node)
    } else {
        None
    }
}

/// Pops the two topmost trees, if both yield a value; the lower one comes
/// first.
fn pop2(stack: &mut Vec<Entry>) -> (r: Option<(Base, Base)>)
    ensures
        match crate::wasm::pop2(views(old(stack)@)) {
            Some((rest, a, b)) => r matches Some(n) && n.0@ == a && n.1@ == b && views(
                final(stack)@,
            ) == rest,
            None => r is None,
        },
{
    match pop(stack) {
        Some(second) => {
            match pop(stack) {
                Some(first) => Some((first, second)),
                None => None,
            }
        },
        None => None,
    }
}

/// The address `addr` with `offset` added.
fn offset_address(addr: Base, offset: u32) -> (r: Base)
    ensures
        r@ == with_offset(addr@, offset),
{
    proof {
        reveal_with_fuel(Base::tree, 3);
    }
    if offset == 0 {
        addr
    } else {
        Base::INumOp(
            Width::W32,
            INumOp::Add,
            Box::new(addr),
            Box::new(Base::Const(Const::I32(offset as i32))),
        )
    }
}

/// The tree that evaluates `v` and yields nothing.
fn dropped(v: Base) -> (r: Base)
    ensures
        r@ == Tree::Sequence(Box::new(v@), Box::new(Tree::Nop)),
{
    proof {
        reveal_with_fuel(Base::tree, 2);
    }
    Base::Sequence(Box::new(v), Box::new(Base::Nop))
}

/// The tree that writes `v` to the local `l` and yields the local.
fn teed(l: Local, v: Base) -> (r: Base)
    ensures
        r@ == Tree::Sequence(
            Box::new(Tree::SetLocal(l, Box::new(v@))),
            Box::new(Tree::GetLocal(l)),
        ),
{
    proof {
        reveal_with_fuel(Base::tree, 2);
    }
    Base::Sequence(Box::new(Base::SetLocal(l, Box::new(v))), Box::new(Base::GetLocal(l)))
}

/// The selection on `cond` between `t` and doing nothing.
fn selected(cond: Base, t: Base) -> (r: Base)
    ensures
        r@ == (Tree::If { cond: Box::new(cond@), t: Box::new(t@), f: Box::new(Tree::Nop) }),
{
    proof {
        reveal_with_fuel(Base::tree, 2);
    }
    Base::If { cond: Box::new(cond), t: Box::new(t), f: Box::new(Base::Nop) }
}

/// The trees of entries that all yield a value, in their order.
fn into_nodes(entries: Vec<Entry>) -> (r: Option<Vec<Base>>)
    ensures
        all_yield(views(entries@)) ==> r is Some,
        r matches Some(a) ==> all_yield(views(entries@)) && Base::views(a@, a@.len()) == nodes(
            views(entries@),
        ),
{
    let ghost all = entries@;
    let mut rest = entries;
    let mut out: Vec<Base> = Vec::new();
    while rest.len() > 0
        invariant
            all == entries@,
            out@.len() + rest@.len() == all.len(),
            forall|i: int|
                0 <= i < out@.len() ==> (#[trigger] all[i]).yields && out@[i]@ == all[i].node@,
            forall|i: int| 0 <= i < rest@.len() ==> (#[trigger] rest@[i]) == all[out@.len() + i],
        decreases rest.len(),
    {
        let ghost first = rest@[0];
        let e = rest.remove(0);
        assert(e == first);
        assert(first == all[out@.len() as int]);
        if !e.yields {
            assert(!(#[trigger] views(all)[out@.len() as int]).yields);
            return None;
        }
        out.push(e.node);
    }
    proof {
        Base::lemma_views(out@, out@.len());
        assert(Base::views(out@, out@.len()) =~= nodes(views(all)));
    }
    Some(out)
}

/// The trees of a stack as one tree.
fn fold_stack(stack: Vec<Entry>) -> (r: Base)
    ensures
        r@ == fold(views(stack@)),
{
    let mut stack = stack;
    let ghost all = stack@;
    match stack.pop() {
        None => Base::Nop,
        Some(last) => {
            let mut tree = last.node;
            assert(views(stack@) =~= views(all).drop_last());
            while stack.len() > 0
                invariant
                    fold(views(all)) == fold_onto(views(stack@), tree@),
                decreases stack.len(),
            {
                let ghost before = stack@;
                let e = stack.pop().unwrap();
                assert(views(stack@) =~= views(before).drop_last());
                tree = Base::Sequence(Box::new(e.node), Box::new(tree));
            }
            tree
        },
    }
}

/// Runs an instruction that opens and closes nothing on the stack.
fn run(
    locals: &Vec<ValueType>,
    module: &WasmModule,
    valued: bool,
    instr: Instr,
    label: Label,
    stack: &mut Vec<Entry>,
) -> (r: Result<(), CompileError>)
    ensures
        match step(env(locals@, *module, valued), instr, label, views(old(stack)@)) {
            Ok(next) => r is Ok && views(final(stack)@) == next,
            Err(e) => r == Err::<(), CompileError>(e),
        },
{
    match instr {
        Instr::Nop => Ok(()),
        Instr::Drop => {
            match pop(stack) {
                Some(v) => {
                    push(stack, dropped(v), false);
                    Ok(())
                },
                None => Err(CompileError::UnsupportedInstruction),
            }
        },
        Instr::Const(c) => {
            push(stack, Base::Const(c), true);
            Ok(())
        },
        Instr::GetLocal(i) => {
            if (i as usize) < locals.len() {
                push(stack, Base::GetLocal(Local { idx: i, ty: locals[i as usize] }), true);
                Ok(())
            } else {
                Err(CompileError::UnsupportedInstruction)
            }
        },
        Instr::SetLocal(i) => {
            if (i as usize) < locals.len() {
                match pop(stack) {
                    Some(v) => {
                        let l = Local { idx: i, ty: locals[i as usize] };
                        push(stack, Base::SetLocal(l, Box::new(v)), false);
                        Ok(())
                    },
                    None => Err(CompileError::UnsupportedInstruction),
                }
            } else {
                Err(CompileError::UnsupportedInstruction)
            }
        },
        Instr::TeeLocal(i) => {
            if (i as usize) < locals.len() {
                match pop(stack) {
                    Some(v) => {
                        let l = Local { idx: i, ty: locals[i as usize] };
                        push(stack, teed(l, v), true);
                        Ok(())
                    },
                    None => Err(CompileError::UnsupportedInstruction),
                }
            } else {
                Err(CompileError::UnsupportedInstruction)
            }
        },
        Instr::GetGlobal(i) => {
            if (i as usize) < module.globals.len() {
                let g = module.globals[i as usize];
                push(stack, Base::GetGlobal(Global { idx: i, ty: g.ty, mutable: g.mutable }), true);
                Ok(())
            } else {
                Err(CompileError::UnsupportedGlobal)
            }
        },
        Instr::SetGlobal(_) => Err(CompileError::UnsupportedGlobal),
        Instr::Load(ty, offset) => {
            match pop(stack) {
                Some(addr) => {
                    push(stack, Base::Load(ty, Box::new(offset_address(addr, offset))), true);
                    Ok(())
                },
                None => Err(CompileError::UnsupportedInstruction),
            }
        },
        Instr::Store(ty, offset) => {
            match pop2(stack) {
                Some((addr, val)) => {
                    push(
                        stack,
                        Base::Store(ty, Box::new(offset_address(addr, offset)), Box::new(val)),
                        false,
                    );
                    Ok(())
                },
                None => Err(CompileError::UnsupportedInstruction),
            }
        },
        Instr::Num(w, op) => {
            match pop2(stack) {
                Some((a, b)) => {
                    push(stack, Base::INumOp(w, op, Box::new(a), Box::new(b)), true);
                    Ok(())
                },
                None => Err(CompileError::UnsupportedInstruction),
            }
        },
        Instr::Comp(w, op) => {
            match pop2(stack) {
                Some((a, b)) => {
                    push(stack, Base::ICompOp(w, op, Box::new(a), Box::new(b)), true);
                    Ok(())
                },
                None => Err(CompileError::UnsupportedInstruction),
            }
        },
        Instr::Call(f) => {
            if f as usize >= module.funs.len() {
                return Err(CompileError::UnknownFunction);
            }
            let n = module.funs[f as usize].sig.params.len();
            let yields = module.funs[f as usize].sig.ty.is_some();
            if n > stack.len() {
                return Err(CompileError::UnsupportedInstruction);
            }
            let ghost before = views(stack@);
            let top = stack.split_off(stack.len() - n);
            proof {
                assert(views(top@) =~= before.skip(before.len() - n));
                assert(views(stack@) =~= before.take(before.len() - n));
            }
            match into_nodes(top) {
                Some(args) => {
                    push(stack, Base::Call(f, args), yields);
                    Ok(())
                },
                None => Err(CompileError::UnsupportedInstruction),
            }
        },
        Instr::Br(depth) => {
            match target(label, depth) {
                Ok(t) => {
                    push(stack, t, false);
                    Ok(())
                },
                Err(e) => Err(e),
            }
        },
        Instr::BrIf(depth) => {
            match target(label, depth) {
                Ok(t) => {
                    match pop(stack) {
                        Some(cond) => {
                            push(stack, selected(cond, t), false);
                            Ok(())
                        },
                        None => Err(CompileError::UnsupportedInstruction),
                    }
                },
                Err(e) => Err(e),
            }
        },
        Instr::Return => {
            if valued {
                Err(CompileError::UnsupportedInstruction)
            } else {
                push(stack, Base::Return, false);
                Ok(())
            }
        },
        _ => Err(CompileError::UnsupportedInstruction),
    }
}

/// What a branch to the label at `depth` becomes.
fn target(label: Label, depth: u32) -> (r: Result<Base, CompileError>)
    ensures
        match crate::wasm::branch(label, depth) {
            Ok(t) => r matches Ok(b) && b@ == t,
            Err(e) => r matches Err(x) && x == e,
        },
{
    proof {
        reveal_with_fuel(Base::tree, 2);
    }
    if depth != 0 {
        Err(CompileError::MultiLevelBranch)
    } else {
        match label {
            Label::Loop => Ok(Base::Continue),
            Label::Block => Ok(Base::Break),
            _ => Err(CompileError::MultiLevelBranch),
        }
    }
}

/// Whether `r` is what the specification `expected` asks for.
pub open spec fn parsed_as(r: Result<Parsed, CompileError>, expected: Result<ParsedView, CompileError>) -> bool {
    match expected {
        Ok(p) => r matches Ok(q) && q@ == p,
        Err(e) => r matches Err(x) && x == e,
    }
}

/// Translates the instructions from `start` up to the `End` that closes
/// what encloses them, or the `Else` in the first branch of a selection.
pub fn parse_from(
    locals: &Vec<ValueType>,
    module: &WasmModule,
    valued: bool,
    instrs: &Vec<Instr>,
    start: usize,
    label: Label,
) -> (r: Result<Parsed, CompileError>)
    requires
        start <= instrs.len(),
    ensures
        parsed_as(r, parse(env(locals@, *module, valued), instrs@, start as nat, label, Seq::empty())),
    decreases instrs.len() - start,
{
    let ghost e = env(locals@, *module, valued);
    let ghost goal = parse(e, instrs@, start as nat, label, Seq::empty());
    let mut stack: Vec<Entry> = Vec::new();
    let mut pos = start;
    assert(views(stack@) =~= Seq::empty());
    loop
        invariant
            start <= pos <= instrs.len(),
            e == env(locals@, *module, valued),
            goal == parse(e, instrs@, pos as nat, label, views(stack@)),
            goal == parse(e, instrs@, start as nat, label, Seq::empty()),
        decreases instrs.len() - pos,
    {
        if pos >= instrs.len() {
            return Err(CompileError::UnsupportedInstruction);
        }
        let instr = instrs[pos];
        let ghost before = views(stack@);
        match instr {
            Instr::End => {
                let yields = stack.len() > 0 && stack[stack.len() - 1].yields;
                let tree = fold_stack(stack);
                return Ok(Parsed { tree, yields, next: pos + 1, ender: Ender::End });
            },
            Instr::Else => {
                match label {
                    Label::Then => {
                        let yields = stack.len() > 0 && stack[stack.len() - 1].yields;
                        let tree = fold_stack(stack);
                        return Ok(Parsed { tree, yields, next: pos + 1, ender: Ender::Else });
                    },
                    _ => {
                        return Err(CompileError::UnsupportedInstruction);
                    },
                }
            },
            Instr::Block(yielding) => {
                if yielding {
                    return Err(CompileError::UnsupportedInstruction);
                }
                proof {
                    lemma_parse_advances(e, instrs@, (pos + 1) as nat, Label::Block, Seq::empty());
                }
                match parse_from(locals, module, valued, instrs, pos + 1, Label::Block) {
                    Err(x) => {
                        return Err(x);
                    },
                    Ok(body) => {
                        push(&mut stack, Base::Loop(Box::new(body.tree)), false);
                        pos = body.next;
                    },
                }
            },
            Instr::Loop(yielding) => {
                if yielding {
                    return Err(CompileError::UnsupportedInstruction);
                }
                proof {
                    lemma_parse_advances(e, instrs@, (pos + 1) as nat, Label::Loop, Seq::empty());
                }
                match parse_from(locals, module, valued, instrs, pos + 1, Label::Loop) {
                    Err(x) => {
                        return Err(x);
                    },
                    Ok(body) => {
                        push(&mut stack, Base::Loop(Box::new(body.tree)), false);
                        pos = body.next;
                    },
                }
            },
            Instr::If(yielding) => {
                let cond = match pop(&mut stack) {
                    Some(c) => c,
                    None => {
                        return Err(CompileError::UnsupportedInstruction);
                    },
                };
                if yielding {
                    return Err(CompileError::UnsupportedInstruction);
                }
                proof {
                    lemma_parse_advances(e, instrs@, (pos + 1) as nat, Label::Then, Seq::empty());
                }
                match parse_from(locals, module, valued, instrs, pos + 1, Label::Then) {
                    Err(x) => {
                        return Err(x);
                    },
                    Ok(first) => {
                        match first.ender {
                            Ender::End => {
                                push(&mut stack, selected(cond, first.tree), false);
                                pos = first.next;
                            },
                            Ender::Else => {
                                proof {
                                    lemma_parse_advances(
                                        e,
                                        instrs@,
                                        first.next as nat,
                                        Label::Otherwise,
                                        Seq::empty(),
                                    );
                                }
                                match parse_from(
                                    locals,
                                    module,
                                    valued,
                                    instrs,
                                    first.next,
                                    Label::Otherwise,
                                ) {
                                    Err(x) => {
                                        return Err(x);
                                    },
                                    Ok(second) => {
                                        push(
                                            &mut stack,
                                            Base::If {
                                                cond: Box::new(cond),
                                                t: Box::new(first.tree),
                                                f: Box::new(second.tree),
                                            },
                                            false,
                                        );
                                        pos = second.next;
                                    },
                                }
                            },
                        }
                    },
                }
            },
            _ => {
                match run(locals, module, valued, instr, label, &mut stack) {
                    Err(x) => {
                        return Err(x);
                    },
                    Ok(()) => {
                        pos = pos + 1;
                    },
                }
            },
        }
    }
}

/// A copy of a list of value types.
fn copy_types(types: &Vec<ValueType>, out: &mut Vec<ValueType>)
    ensures
        final(out)@ == old(out)@ + types@,
{
    let mut i: usize = 0;
    while i < types.len()
        invariant
            i <= types.len(),
            out@ == old(out)@ + types@.take(i as int),
        decreases types.len() - i,
    {
        out.push(types[i]);
        assert(out@ =~= old(out)@ + types@.take(i + 1));
        i += 1;
    }
    assert(types@.take(i as int) =~= types@);
}

/// Whether `r` is what the specification `expected` asks for.
pub open spec fn fun_as(r: Result<Fun, CompileError>, expected: Result<FunView, CompileError>) -> bool {
    match expected {
        Ok(f) => r matches Ok(g) && g@ == f,
        Err(e) => r matches Err(x) && x == e,
    }
}

/// Translates the function with the index `index` of a module.
pub fn to_fun(module: &WasmModule, index: usize) -> (r: Result<Fun, CompileError>)
    requires
        index < module.funs@.len(),
    ensures
        fun_as(r, translated(*module, module.funs@[index as int])),
{
    let function = &module.funs[index];
    let mut locals: Vec<ValueType> = Vec::new();
    copy_types(&function.sig.params, &mut locals);
    copy_types(&function.locals, &mut locals);
    let valued = function.sig.ty.is_some();
    proof {
        assert(locals@ =~= function.sig.params@ + function.locals@);
        assert(env(locals@, *module, valued) == env_of(*module, *function));
    }
    match parse_from(&locals, module, valued, &function.body, 0, Label::Function) {
        Err(e) => Err(e),
        Ok(p) => {
            if p.next != function.body.len() || (valued && !p.yields) {
                Err(CompileError::UnsupportedInstruction)
            } else {
                let mut params: Vec<ValueType> = Vec::new();
                copy_types(&function.sig.params, &mut params);
                assert(params@ =~= function.sig.params@);
                Ok(Fun { params, ty: function.sig.ty, body: p.tree })
            }
        },
    }
}

/// What a module is compiled to: the bytes of the SPIR-V module of its
/// functions, each translated into a tree and lowered in turn, or the reason
/// for which the first function that is rejected is rejected.
pub open spec fn compiled_module(module: WasmModule, entry: Option<u32>) -> Result<
    Seq<u8>,
    CompileError,
> {
    match translated_all(module, module.funs@.len()) {
        Err(e) => Err(e),
        Ok(funs) => compiled(funs, entry),
    }
}

/// Compiles a module to the bytes of a SPIR-V module.  Every function is
/// translated before any is lowered.
pub fn compile_module(module: &WasmModule, entry: Option<u32>) -> (r: Result<Vec<u8>, CompileError>)
    ensures
        r matches Ok(bytes) ==> compiled_module(*module, entry) == Ok::<Seq<u8>, CompileError>(
            bytes@,
        ),
        r matches Err(e) ==> compiled_module(*module, entry) == Err::<Seq<u8>, CompileError>(e),
{
    let mut funs: Vec<Fun> = Vec::new();
    let mut i: usize = 0;
    assert(fun_views(funs@) =~= Seq::empty());
    while i < module.funs.len()
        invariant
            i <= module.funs.len(),
            translated_all(*module, i as nat) == Ok::<Seq<FunView>, CompileError>(fun_views(funs@)),
        decreases module.funs.len() - i,
    {
        let ghost before = fun_views(funs@);
        match to_fun(module, i) {
            Err(e) => {
                proof {
                    lemma_translated_all_rejected(*module, (i + 1) as nat, module.funs@.len());
                }
                return Err(e);
            },
            Ok(f) => {
                funs.push(f);
                assert(fun_views(funs@) =~= before.push(f@));
            },
        }
        i += 1;
    }
    compile(&funs, entry)
}

/// A module of which one function is rejected is rejected for the same
/// reason, however many functions follow.
pub proof fn lemma_translated_all_rejected(module: WasmModule, m: nat, n: nat)
    requires
        m <= n <= module.funs@.len(),
        translated_all(module, m) is Err,
    ensures
        translated_all(module, n) == translated_all(module, m),
    decreases n - m,
{
    if m < n {
        lemma_translated_all_rejected(module, m, (n - 1) as nat);
    }
}

} // verus!
