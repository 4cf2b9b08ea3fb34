//! The walks over a tree that are made before it is lowered: they collect
//! its locals, look for what cannot be lowered, and count the ids that it
//! may need.

use vstd::prelude::*;
use crate::analysis::{has_index, noted};
use crate::error::CompileError;
use crate::ir::{Base, Const, Local, Tree};

verus! {

/// Adds `l` at the end of `acc` unless its index is there already.
fn note(acc: &mut Vec<Local>, l: Local)
    ensures
        final(acc)@ == noted(old(acc)@, l),
{
    let mut i: usize = 0;
    while i < acc.len()
        invariant
            i <= acc.len(),
            acc@ == old(acc)@,
            forall|j: int| 0 <= j < i ==> (#[trigger] acc@[j]).idx != l.idx,
        decreases acc.len() - i,
    {
        if acc[i].idx == l.idx {
            assert(has_index(acc@, l.idx));
            return ;
        }
        i += 1;
    }
    assert(!has_index(acc@, l.idx));
    acc.push(l);
}

/// The sum of two counts of ids, as long as it can be an id.
fn add_cost(a: Option<u32>, b: Option<u32>) -> (r: Option<u32>)
    ensures
        r matches Some(c) ==> a is Some && b is Some && c == a->Some_0 + b->Some_0,
        r is None ==> a is None || b is None || a->Some_0 + b->Some_0 > u32::MAX,
{
    match (a, b) {
        (Some(x), Some(y)) => x.checked_add(y),
        _ => None,
    }
}

impl Base {
    /// Adds to `acc` the locals that this node reads or writes and that are
    /// not in `acc` yet.
    fn collect(&self, acc: &mut Vec<Local>)
        ensures
            final(acc)@ == self@.referenced(old(acc)@),
        decreases self,
    {
        match self {
            Base::Call(_, args) => {
                let ghost trees = Base::views(args@, args@.len());
                let mut k: usize = 0;
                assert(decreases_to!(*self => *args));
                proof {
                    Base::lemma_views(args@, args@.len());
                }
                while k < args.len()
                    invariant
                        k <= args.len(),
                        decreases_to!(*self => *args),
                        trees == Base::views(args@, args@.len()),
                        trees.len() == args.len(),
                        forall|j: int| 0 <= j < args.len() ==> (#[trigger] trees[j]) == args@[j]@,
                        acc@ == Tree::referenced_in(trees, k as nat, old(acc)@),
                    decreases args.len() - k,
                {
                    assert(decreases_to!(*args => args[k as int]));
                    args[k].collect(acc);
                    k += 1;
                }
            },
            Base::INumOp(_, _, a, b) => {
                a.collect(acc);
                b.collect(acc);
            },
            Base::ICompOp(_, _, a, b) => {
                a.collect(acc);
                b.collect(acc);
            },
            Base::Sequence(a, b) => {
                a.collect(acc);
                b.collect(acc);
            },
            Base::GetLocal(l) => {
                note(acc, *l);
            },
            Base::SetLocal(l, val) => {
                note(acc, *l);
                val.collect(acc);
            },
            Base::Load(_, addr) => {
                addr.collect(acc);
            },
            Base::Store(_, addr, val) => {
                addr.collect(acc);
                val.collect(acc);
            },
            Base::If { cond, t, f } => {
                cond.collect(acc);
                t.collect(acc);
                f.collect(acc);
            },
            Base::Loop(body) => {
                body.collect(acc);
            },
            _ => {},
        }
    }

    /// The locals that this node reads or writes, each once, in the order in
    /// which the node refers to them.
    pub fn locals(&self) -> (r: Vec<Local>)
        ensures
            r@ == self@.locals_spec(),
    {
        let mut acc: Vec<Local> = Vec::new();
        self.collect(&mut acc);
        acc
    }

    /// Looks for the first reason, in the order of evaluation, for which
    /// this node cannot be lowered.  `in_loop` says whether a loop encloses
    /// the node, `funs` how many functions have been lowered.
    pub fn check(&self, in_loop: bool, funs: usize) -> (r: Result<(), CompileError>)
        ensures
            r is Ok <==> self@.first_error(in_loop, funs as nat) is None,
            r matches Err(e) ==> self@.first_error(in_loop, funs as nat) == Some(e),
        decreases self,
    {
        match self {
            Base::Call(i, args) => {
                if *i as usize >= funs {
                    return Err(CompileError::UnknownFunction);
                }
                let ghost trees = Base::views(args@, args@.len());
                let mut k: usize = 0;
                assert(decreases_to!(*self => *args));
                proof {
                    Base::lemma_views(args@, args@.len());
                }
                while k < args.len()
                    invariant
                        k <= args.len(),
                        decreases_to!(*self => *args),
                        trees.len() == args.len(),
                        forall|j: int| 0 <= j < args.len() ==> (#[trigger] trees[j]) == args@[j]@,
                        self@.first_error(in_loop, funs as nat) == Tree::first_error_in(
                            trees,
                            trees.len(),
                            in_loop,
                            funs as nat,
                        ),
                        Tree::first_error_in(trees, k as nat, in_loop, funs as nat) is None,
                    decreases args.len() - k,
                {
                    assert(decreases_to!(*args => args[k as int]));
                    match args[k].check(in_loop, funs) {
                        Err(e) => {
                            proof {
                                lemma_first_error_found(
                                    trees,
                                    (k + 1) as nat,
                                    trees.len(),
                                    in_loop,
                                    funs as nat,
                                );
                            }
                            return Err(e);
                        },
                        Ok(()) => {},
                    }
                    k += 1;
                }
                Ok(())
            },
            Base::INumOp(_, _, a, b) => {
                match a.check(in_loop, funs) {
                    Err(e) => Err(e),
                    Ok(()) => b.check(in_loop, funs),
                }
            },
            Base::ICompOp(_, _, a, b) => {
                match a.check(in_loop, funs) {
                    Err(e) => Err(e),
                    Ok(()) => b.check(in_loop, funs),
                }
            },
            Base::Const(c) => {
                match c {
                    Const::I32(_) | Const::F32(_) => Ok(()),
                    _ => Err(CompileError::UnsupportedInstruction),
                }
            },
            Base::Sequence(a, b) => {
                match a.check(in_loop, funs) {
                    Err(e) => Err(e),
                    Ok(()) => b.check(in_loop, funs),
                }
            },
            Base::SetLocal(_, val) => val.check(in_loop, funs),
            Base::GetGlobal(g) => {
                if g.stands_for_thread_id() {
                    Ok(())
                } else {
                    Err(CompileError::UnsupportedGlobal)
                }
            },
            Base::Load(_, addr) => addr.check(in_loop, funs),
            Base::Store(_, addr, val) => {
                match addr.check(in_loop, funs) {
                    Err(e) => Err(e),
                    Ok(()) => val.check(in_loop, funs),
                }
            },
            Base::If { cond, t, f } => {
                match cond.check(in_loop, funs) {
                    Err(e) => Err(e),
                    Ok(()) => {
                        match t.check(in_loop, funs) {
                            Err(e) => Err(e),
                            Ok(()) => f.check(in_loop, funs),
                        }
                    },
                }
            },
            Base::Loop(body) => body.check(true, funs),
            Base::Continue | Base::Break => {
                if in_loop {
                    Ok(())
                } else {
                    Err(CompileError::BranchOutsideLoop)
                }
            },
            Base::Nop | Base::GetLocal(_) | Base::Return => Ok(()),
        }
    }

    /// The bound on the number of ids that lowering this node takes, as long
    /// as it can be an id.
    pub fn id_cost(&self) -> (r: Option<u32>)
        ensures
            r matches Some(c) ==> c == self@.cost(),
            r is None ==> self@.cost() > u32::MAX,
        decreases self,
    {
        match self {
            Base::Call(_, args) => {
                let ghost trees = Base::views(args@, args@.len());
                let mut total: Option<u32> = Some(1);
                let mut k: usize = 0;
                assert(decreases_to!(*self => *args));
                proof {
                    Base::lemma_views(args@, args@.len());
                }
                while k < args.len()
                    invariant
                        k <= args.len(),
                        decreases_to!(*self => *args),
                        trees.len() == args.len(),
                        forall|j: int| 0 <= j < args.len() ==> (#[trigger] trees[j]) == args@[j]@,
                        total matches Some(c) ==> c == Tree::cost_of(trees, k as nat) + 1,
                        total is None ==> Tree::cost_of(trees, k as nat) + 1 > u32::MAX,
                    decreases args.len() - k,
                {
                    assert(decreases_to!(*args => args[k as int]));
                    total = add_cost(total, args[k].id_cost());
                    k += 1;
                }
                total
            },
            Base::Nop | Base::GetGlobal(_) => Some(0),
            Base::INumOp(_, _, a, b) => add_cost(add_cost(a.id_cost(), b.id_cost()), Some(2)),
            Base::ICompOp(_, _, a, b) => add_cost(add_cost(a.id_cost(), b.id_cost()), Some(6)),
            Base::Const(_) | Base::GetLocal(_) => Some(2),
            Base::Sequence(a, b) => add_cost(a.id_cost(), b.id_cost()),
            Base::SetLocal(_, val) => val.id_cost(),
            Base::Load(_, addr) => add_cost(addr.id_cost(), Some(9)),
            Base::Store(_, addr, val) => add_cost(
                add_cost(addr.id_cost(), val.id_cost()),
                Some(7),
            ),
            Base::If { cond, t, f } => add_cost(
                add_cost(add_cost(cond.id_cost(), t.id_cost()), f.id_cost()),
                Some(7),
            ),
            Base::Loop(body) => add_cost(body.id_cost(), Some(4)),
            Base::Continue | Base::Break | Base::Return => Some(1),
        }
    }
}

/// An error among the first `m` nodes of a list is the first error among
/// the first `n`, for `n` from `m` on, if the nodes before the `m`-th have
/// none.
pub proof fn lemma_first_error_found(
    nodes: Seq<Tree>,
    m: nat,
    n: nat,
    in_loop: bool,
    funs: nat,
)
    requires
        0 < m <= n <= nodes.len(),
        Tree::first_error_in(nodes, (m - 1) as nat, in_loop, funs) is None,
        nodes[m - 1].first_error(in_loop, funs) is Some,
    ensures
        Tree::first_error_in(nodes, n, in_loop, funs) == nodes[m - 1].first_error(in_loop, funs),
    decreases n - m,
{
    if m < n {
        lemma_first_error_found(nodes, m, (n - 1) as nat, in_loop, funs);
    }
}

} // verus!
