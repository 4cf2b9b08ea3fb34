//! What can be said of a tree before it is lowered: which locals it refers
//! to, whether it can be lowered at all, and how many ids it may need.

use vstd::prelude::*;
use crate::error::CompileError;
use crate::ir::{Const, Global, Local, Tree, ValueType};

verus! {

/// Whether one of `locals` has the index `idx`.
pub open spec fn has_index(locals: Seq<Local>, idx: u32) -> bool {
    exists|i: int| 0 <= i < locals.len() && (#[trigger] locals[i]).idx == idx
}

/// `locals`, with `l` added at the end unless its index is there already.
pub open spec fn noted(locals: Seq<Local>, l: Local) -> Seq<Local> {
    if has_index(locals, l.idx) {
        locals
    } else {
        locals.push(l)
    }
}

/// Whether no two of `locals` have the same index.
pub open spec fn distinct_indices(locals: Seq<Local>) -> bool {
    forall|i: int, j: int|
        0 <= i < j < locals.len() ==> (#[trigger] locals[i]).idx != (#[trigger] locals[j]).idx
}

/// The first of two possible errors.
pub open spec fn first_of(a: Option<CompileError>, b: Option<CompileError>) -> Option<
    CompileError,
> {
    match a {
        Some(e) => Some(e),
        None => b,
    }
}

impl Global {
    /// Whether this is the one global that is recognised: the immutable
    /// `I32` with index 0, which stands for the thread id.
    pub open spec fn is_thread_id(self) -> bool {
        self.idx == 0 && self.ty == ValueType::I32 && !self.mutable
    }

    /// Whether this is the global that stands for the thread id.
    pub fn stands_for_thread_id(&self) -> (r: bool)
        ensures
            r == self.is_thread_id(),
    {
        let is_i32 = match self.ty {
            ValueType::I32 => true,
            _ => false,
        };
        self.idx == 0 && is_i32 && !self.mutable
    }
}

impl Const {
    /// Whether the constant has 32 bits.
    pub open spec fn is_32_bit(self) -> bool {
        self is I32 || self is F32
    }
}

impl Tree {
    /// `acc`, followed by the locals that this node reads or writes and that
    /// are not in `acc` yet, each once, in the order in which the node refers
    /// to them.  A node's own local comes before those of its operands.
    pub open spec fn referenced(self, acc: Seq<Local>) -> Seq<Local>
        decreases self, 0nat,
    {
        match self {
            Tree::Call(_, args) => Self::referenced_in(args, args.len(), acc),
            Tree::INumOp(_, _, a, b) => b.referenced(a.referenced(acc)),
            Tree::ICompOp(_, _, a, b) => b.referenced(a.referenced(acc)),
            Tree::Sequence(a, b) => b.referenced(a.referenced(acc)),
            Tree::GetLocal(l) => noted(acc, l),
            Tree::SetLocal(l, val) => val.referenced(noted(acc, l)),
            Tree::Load(_, addr) => addr.referenced(acc),
            Tree::Store(_, addr, val) => val.referenced(addr.referenced(acc)),
            Tree::If { cond, t, f } => f.referenced(t.referenced(cond.referenced(acc))),
            Tree::Loop(body) => body.referenced(acc),
            _ => acc,
        }
    }

    /// `acc`, followed by the locals that the first `n` of `nodes` refer to.
    pub open spec fn referenced_in(nodes: Seq<Tree>, n: nat, acc: Seq<Local>) -> Seq<Local>
        decreases nodes, n,
    {
        if n == 0 || n > nodes.len() {
            acc
        } else {
            nodes[n - 1].referenced(Self::referenced_in(nodes, (n - 1) as nat, acc))
        }
    }

    /// The locals that this node reads or writes, each once.
    pub open spec fn locals_spec(self) -> Seq<Local> {
        self.referenced(Seq::empty())
    }

    /// Whether every local that this node refers to has its index in `dom`.
    pub open spec fn locals_within(self, dom: Set<u32>) -> bool
        decreases self, 0nat,
    {
        match self {
            Tree::Call(_, args) => Self::all_locals_within(args, args.len(), dom),
            Tree::INumOp(_, _, a, b) => a.locals_within(dom) && b.locals_within(dom),
            Tree::ICompOp(_, _, a, b) => a.locals_within(dom) && b.locals_within(dom),
            Tree::Sequence(a, b) => a.locals_within(dom) && b.locals_within(dom),
            Tree::GetLocal(l) => dom.contains(l.idx),
            Tree::SetLocal(l, val) => dom.contains(l.idx) && val.locals_within(dom),
            Tree::Load(_, addr) => addr.locals_within(dom),
            Tree::Store(_, addr, val) => addr.locals_within(dom) && val.locals_within(dom),
            Tree::If { cond, t, f } => cond.locals_within(dom) && t.locals_within(dom)
                && f.locals_within(dom),
            Tree::Loop(body) => body.locals_within(dom),
            _ => true,
        }
    }

    /// Whether every local that the first `n` of `nodes` refer to has its
    /// index in `dom`.
    pub open spec fn all_locals_within(nodes: Seq<Tree>, n: nat, dom: Set<u32>) -> bool
        decreases nodes, n,
    {
        if n == 0 || n > nodes.len() {
            true
        } else {
            Self::all_locals_within(nodes, (n - 1) as nat, dom) && nodes[n - 1].locals_within(dom)
        }
    }

    /// The first reason, in the order of evaluation, for which this node
    /// cannot be lowered, if there is one.  `in_loop` says whether a loop
    /// encloses the node, `funs` how many functions have been lowered.
    pub open spec fn first_error(self, in_loop: bool, funs: nat) -> Option<CompileError>
        decreases self, 0nat,
    {
        match self {
            Tree::Call(i, args) => if i >= funs {
                Some(CompileError::UnknownFunction)
            } else {
                Self::first_error_in(args, args.len(), in_loop, funs)
            },
            Tree::INumOp(_, _, a, b) => first_of(
                a.first_error(in_loop, funs),
                b.first_error(in_loop, funs),
            ),
            Tree::ICompOp(_, _, a, b) => first_of(
                a.first_error(in_loop, funs),
                b.first_error(in_loop, funs),
            ),
            Tree::Const(c) => if c.is_32_bit() {
                None
            } else {
                Some(CompileError::UnsupportedInstruction)
            },
            Tree::Sequence(a, b) => first_of(
                a.first_error(in_loop, funs),
                b.first_error(in_loop, funs),
            ),
            Tree::SetLocal(_, val) => val.first_error(in_loop, funs),
            Tree::GetGlobal(g) => if g.is_thread_id() {
                None
            } else {
                Some(CompileError::UnsupportedGlobal)
            },
            Tree::Load(_, addr) => addr.first_error(in_loop, funs),
            Tree::Store(_, addr, val) => first_of(
                addr.first_error(in_loop, funs),
                val.first_error(in_loop, funs),
            ),
            Tree::If { cond, t, f } => first_of(
                first_of(cond.first_error(in_loop, funs), t.first_error(in_loop, funs)),
                f.first_error(in_loop, funs),
            ),
            Tree::Loop(body) => body.first_error(true, funs),
            Tree::Continue | Tree::Break => if in_loop {
                None
            } else {
                Some(CompileError::BranchOutsideLoop)
            },
            Tree::Nop | Tree::GetLocal(_) | Tree::Return => None,
        }
    }

    /// The first reason for which one of the first `n` of `nodes` cannot be
    /// lowered, from left to right.
    pub open spec fn first_error_in(nodes: Seq<Tree>, n: nat, in_loop: bool, funs: nat) -> Option<
        CompileError,
    >
        decreases nodes, n,
    {
        if n == 0 || n > nodes.len() {
            None
        } else {
            first_of(
                Self::first_error_in(nodes, (n - 1) as nat, in_loop, funs),
                nodes[n - 1].first_error(in_loop, funs),
            )
        }
    }

    /// A bound on the number of ids that lowering this node takes.  Every
    /// type that the node needs is counted as if it had to be declared.
    pub open spec fn cost(self) -> nat
        decreases self, 0nat,
    {
        match self {
            Tree::Call(_, args) => Self::cost_of(args, args.len()) + 1,
            Tree::Nop => 0,
            Tree::INumOp(_, _, a, b) => a.cost() + b.cost() + 2,
            Tree::ICompOp(_, _, a, b) => a.cost() + b.cost() + 6,
            Tree::Const(_) => 2,
            Tree::Sequence(a, b) => a.cost() + b.cost(),
            Tree::GetLocal(_) => 2,
            Tree::SetLocal(_, val) => val.cost(),
            Tree::GetGlobal(_) => 0,
            Tree::Load(_, addr) => addr.cost() + 9,
            Tree::Store(_, addr, val) => addr.cost() + val.cost() + 7,
            Tree::If { cond, t, f } => cond.cost() + t.cost() + f.cost() + 7,
            Tree::Loop(body) => body.cost() + 4,
            Tree::Continue | Tree::Break | Tree::Return => 1,
        }
    }

    /// A bound on the number of ids that lowering the first `n` of `nodes`
    /// takes.
    pub open spec fn cost_of(nodes: Seq<Tree>, n: nat) -> nat
        decreases nodes, n,
    {
        if n == 0 || n > nodes.len() {
            0
        } else {
            Self::cost_of(nodes, (n - 1) as nat) + nodes[n - 1].cost()
        }
    }
}

/// What holds of a list of nodes holds of each of them: a list without an
/// error has no node with an error, a list whose locals are within a set has
/// no node with a local outside it, and the cost of a part of a list is at
/// most the cost of the whole.
pub proof fn lemma_list_item(nodes: Seq<Tree>, k: nat, in_loop: bool, funs: nat, dom: Set<u32>)
    requires
        k < nodes.len(),
    ensures
        Tree::first_error_in(nodes, nodes.len(), in_loop, funs) is None
            ==> nodes[k as int].first_error(in_loop, funs) is None,
        Tree::all_locals_within(nodes, nodes.len(), dom) ==> nodes[k as int].locals_within(dom),
        Tree::cost_of(nodes, k + 1) == Tree::cost_of(nodes, k) + nodes[k as int].cost(),
        Tree::cost_of(nodes, k + 1) <= Tree::cost_of(nodes, nodes.len()),
{
    lemma_list_prefix(nodes, (k + 1) as nat, nodes.len(), in_loop, funs, dom);
}

/// What holds of the first `n` nodes of a list holds of the first `m` of
/// them, for `m` up to `n`.
pub proof fn lemma_list_prefix(
    nodes: Seq<Tree>,
    m: nat,
    n: nat,
    in_loop: bool,
    funs: nat,
    dom: Set<u32>,
)
    requires
        m <= n <= nodes.len(),
    ensures
        Tree::first_error_in(nodes, n, in_loop, funs) is None ==> Tree::first_error_in(
            nodes,
            m,
            in_loop,
            funs,
        ) is None,
        Tree::all_locals_within(nodes, n, dom) ==> Tree::all_locals_within(nodes, m, dom),
        Tree::cost_of(nodes, m) <= Tree::cost_of(nodes, n),
    decreases n - m,
{
    if m < n {
        lemma_list_prefix(nodes, m, (n - 1) as nat, in_loop, funs, dom);
    }
}

/// Noting a local keeps the indices distinct.
pub proof fn lemma_noted_distinct(acc: Seq<Local>, l: Local)
    requires
        distinct_indices(acc),
    ensures
        distinct_indices(noted(acc, l)),
{
    if !has_index(acc, l.idx) {
        let r = acc.push(l);
        assert forall|i: int, j: int| 0 <= i < j < r.len() implies (#[trigger] r[i]).idx != (
        #[trigger] r[j]).idx by {
            if j == acc.len() {
                assert(r[i] == acc[i]);
            }
        }
    }
}

/// No two of the locals that are collected from a node have the same
/// index, if no two of those that were there before have.
pub proof fn lemma_referenced_distinct(node: Tree, acc: Seq<Local>)
    requires
        distinct_indices(acc),
    ensures
        distinct_indices(node.referenced(acc)),
    decreases node, 0nat,
{
    match node {
        Tree::Call(_, args) => {
            lemma_referenced_in_distinct(args, args.len(), acc);
        },
        Tree::INumOp(_, _, a, b) => {
            lemma_referenced_distinct(*a, acc);
            lemma_referenced_distinct(*b, a.referenced(acc));
        },
        Tree::ICompOp(_, _, a, b) => {
            lemma_referenced_distinct(*a, acc);
            lemma_referenced_distinct(*b, a.referenced(acc));
        },
        Tree::Sequence(a, b) => {
            lemma_referenced_distinct(*a, acc);
            lemma_referenced_distinct(*b, a.referenced(acc));
        },
        Tree::GetLocal(l) => {
            lemma_noted_distinct(acc, l);
        },
        Tree::SetLocal(l, val) => {
            lemma_noted_distinct(acc, l);
            lemma_referenced_distinct(*val, noted(acc, l));
        },
        Tree::Load(_, addr) => {
            lemma_referenced_distinct(*addr, acc);
        },
        Tree::Store(_, addr, val) => {
            lemma_referenced_distinct(*addr, acc);
            lemma_referenced_distinct(*val, addr.referenced(acc));
        },
        Tree::If { cond, t, f } => {
            lemma_referenced_distinct(*cond, acc);
            lemma_referenced_distinct(*t, cond.referenced(acc));
            lemma_referenced_distinct(*f, t.referenced(cond.referenced(acc)));
        },
        Tree::Loop(body) => {
            lemma_referenced_distinct(*body, acc);
        },
        _ => {},
    }
}

/// The same of the first `n` nodes of a list.
pub proof fn lemma_referenced_in_distinct(nodes: Seq<Tree>, n: nat, acc: Seq<Local>)
    requires
        n <= nodes.len(),
        distinct_indices(acc),
    ensures
        distinct_indices(Tree::referenced_in(nodes, n, acc)),
    decreases nodes, n,
{
    if n > 0 {
        lemma_referenced_in_distinct(nodes, (n - 1) as nat, acc);
        lemma_referenced_distinct(nodes[n - 1], Tree::referenced_in(nodes, (n - 1) as nat, acc));
    }
}

/// The locals of a node are collected once each: no two of them have the
/// same index.
pub proof fn lemma_locals_distinct(node: Tree)
    ensures
        distinct_indices(node.locals_spec()),
{
    lemma_referenced_distinct(node, Seq::empty());
}

} // verus!
