//! The structured intermediate representation that kernels are lowered
//! from: a tree of operations whose operands are evaluated left to right.

use vstd::prelude::*;

verus! {

/// The type of a WASM value.
#[derive(Clone, Copy, Debug, PartialEq, Eq)]
pub enum ValueType {
    I32,
    I64,
    F32,
    F64,
}

/// The width of an integer operation.
#[derive(Clone, Copy, Debug, PartialEq, Eq)]
pub enum Width {
    W32,
    W64,
}

/// A local variable of a function.  Parameters are the first locals.
#[derive(Clone, Copy, Debug, PartialEq, Eq)]
pub struct Local {
    pub idx: u32,
    pub ty: ValueType,
}

/// A global variable of the module.
#[derive(Clone, Copy, Debug, PartialEq, Eq)]
pub struct Global {
    pub idx: u32,
    pub ty: ValueType,
    pub mutable: bool,
}

/// A constant.  Floating-point constants are held as their bit patterns.
#[derive(Clone, Copy, Debug, PartialEq, Eq)]
pub enum Const {
    I32(i32),
    I64(i64),
    F32(u32),
    F64(u64),
}

/// Integer arithmetic.
#[derive(Clone, Copy, Debug, PartialEq, Eq)]
pub enum INumOp {
    Mul,
    Add,
    Sub,
    Shl,
    ShrS,
    ShrU,
    DivU,
    DivS,
}

/// Integer comparisons.
#[derive(Clone, Copy, Debug, PartialEq, Eq)]
pub enum ICompOp {
    Eq,
    NEq,
    LeU,
    GeU,
    LtU,
    GtU,
    LeS,
    GeS,
    LtS,
    GtS,
}

/// One node of the tree.
#[derive(Debug, PartialEq, Eq)]
pub enum Base {
    /// Calls the function with the given index on the given arguments.
    Call(u32, Vec<Base>),
    /// Does nothing.
    Nop,
    /// Integer arithmetic on two operands.
    INumOp(Width, INumOp, Box<Base>, Box<Base>),
    /// Integer comparison of two operands; yields 0 or 1.
    ICompOp(Width, ICompOp, Box<Base>, Box<Base>),
    /// A constant.
    Const(Const),
    /// Evaluates the first node for its effect, then the second for its value.
    Sequence(Box<Base>, Box<Base>),
    /// Reads a local.
    GetLocal(Local),
    /// Writes a local.
    SetLocal(Local, Box<Base>),
    /// Reads a global.
    GetGlobal(Global),
    /// Reads a value of the given type from the byte address.
    Load(ValueType, Box<Base>),
    /// Writes a value of the given type to the byte address.
    Store(ValueType, Box<Base>, Box<Base>),
    /// Runs one of two branches, depending on whether the condition is nonzero.
    If { cond: Box<Base>, t: Box<Base>, f: Box<Base> },
    /// Runs the body once; `Continue` inside it starts it again.
    Loop(Box<Base>),
    /// Starts the innermost enclosing loop again.
    Continue,
    /// Leaves the innermost enclosing loop.
    Break,
    /// Leaves the function.
    Return,
}

/// A function: parameter types, result type (none for a function that
/// returns nothing) and body.
#[derive(Debug, PartialEq, Eq)]
pub struct Fun {
    pub params: Vec<ValueType>,
    pub ty: Option<ValueType>,
    pub body: Base,
}

/// A node as a mathematical value: what [`Base`] holds, with the arguments of
/// a call as a sequence.
pub enum Tree {
    Call(u32, Seq<Tree>),
    Nop,
    INumOp(Width, INumOp, Box<Tree>, Box<Tree>),
    ICompOp(Width, ICompOp, Box<Tree>, Box<Tree>),
    Const(Const),
    Sequence(Box<Tree>, Box<Tree>),
    GetLocal(Local),
    SetLocal(Local, Box<Tree>),
    GetGlobal(Global),
    Load(ValueType, Box<Tree>),
    Store(ValueType, Box<Tree>, Box<Tree>),
    If { cond: Box<Tree>, t: Box<Tree>, f: Box<Tree> },
    Loop(Box<Tree>),
    Continue,
    Break,
    Return,
}

/// A function as a mathematical value.
pub struct FunView {
    pub params: Seq<ValueType>,
    pub ty: Option<ValueType>,
    pub body: Tree,
}

impl Base {
    /// The value of a node.
    pub open spec fn tree(self) -> Tree
        decreases self, 0nat,
    {
        match self {
            Base::Call(i, args) => Tree::Call(i, Base::views(args@, args@.len())),
            Base::Nop => Tree::Nop,
            Base::INumOp(w, op, a, b) => Tree::INumOp(w, op, Box::new(a.tree()), Box::new(b.tree())),
            Base::ICompOp(w, op, a, b) => Tree::ICompOp(
                w,
                op,
                Box::new(a.tree()),
                Box::new(b.tree()),
            ),
            Base::Const(c) => Tree::Const(c),
            Base::Sequence(a, b) => Tree::Sequence(Box::new(a.tree()), Box::new(b.tree())),
            Base::GetLocal(l) => Tree::GetLocal(l),
            Base::SetLocal(l, val) => Tree::SetLocal(l, Box::new(val.tree())),
            Base::GetGlobal(g) => Tree::GetGlobal(g),
            Base::Load(ty, addr) => Tree::Load(ty, Box::new(addr.tree())),
            Base::Store(ty, addr, val) => Tree::Store(
                ty,
                Box::new(addr.tree()),
                Box::new(val.tree()),
            ),
            Base::If { cond, t, f } => Tree::If {
                cond: Box::new(cond.tree()),
                t: Box::new(t.tree()),
                f: Box::new(f.tree()),
            },
            Base::Loop(body) => Tree::Loop(Box::new(body.tree())),
            Base::Continue => Tree::Continue,
            Base::Break => Tree::Break,
            Base::Return => Tree::Return,
        }
    }

    /// The values of the first `n` of `nodes`.
    pub open spec fn views(nodes: Seq<Base>, n: nat) -> Seq<Tree>
        decreases nodes, n,
    {
        if n == 0 || n > nodes.len() {
            Seq::empty()
        } else {
            Self::views(nodes, (n - 1) as nat).push(nodes[n - 1].tree())
        }
    }

    /// The values of a list of nodes are the values of the nodes, one by
    /// one.
    pub proof fn lemma_views(nodes: Seq<Base>, n: nat)
        requires
            n <= nodes.len(),
        ensures
            Self::views(nodes, n).len() == n,
            forall|k: int| 0 <= k < n ==> (#[trigger] Self::views(nodes, n)[k]) == nodes[k]@,
        decreases n,
    {
        if n > 0 {
            Self::lemma_views(nodes, (n - 1) as nat);
        }
    }
}

impl View for Base {
    type V = Tree;

    open spec fn view(&self) -> Tree {
        self.tree()
    }
}

impl View for Fun {
    type V = FunView;

    open spec fn view(&self) -> FunView {
        FunView { params: self.params@, ty: self.ty, body: self.body@ }
    }
}

} // verus!
