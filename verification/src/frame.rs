//! What holds of the steps around a function's body: they take the context
//! from between two functions into the function and back, they leave it in
//! order, and they take no more ids than the function's cost.

use vstd::prelude::*;
use crate::analysis::{has_index, noted};
use crate::ir::{FunView, Local, Tree, ValueType};
use crate::lowering::{CtxView, FUN_ITEM_COST, POINTER_SLOTS};
use crate::model::{id_refs, Control, Inst, Op, Operand, StorageClass};
use crate::preserve::{
    lemma_constant_sound, lemma_effect_sound, lemma_global_sound, lemma_lower_sound,
    lemma_pointer_type_sound, lemma_scalar_type_sound, lemma_value_sound,
};
use crate::sound::{
    cache_ok, code_ok, lemma_cache_grows, lemma_code_add_parameter, lemma_code_begin_block,
    lemma_code_begin_function, lemma_code_close_function, lemma_code_take_id,
    lemma_code_terminate, lemma_id_refs_known, lemma_operands_known_add,
};
use crate::steady::{lemma_lower_steady, lemma_pointer_type_steady, lemma_scalar_type_steady};

verus! {

/// Whether `dom` holds the index of each of `locals`.
pub open spec fn covers(dom: Set<u32>, locals: Seq<Local>) -> bool {
    forall|idx: u32| has_index(locals, idx) ==> dom.contains(idx)
}

/// A set that holds the indices of the locals that were noted holds the
/// index of the local that was noted last and those that were there before.
pub proof fn lemma_noted_covered(acc: Seq<Local>, l: Local, dom: Set<u32>)
    requires
        covers(dom, noted(acc, l)),
    ensures
        dom.contains(l.idx),
        covers(dom, acc),
{
    if has_index(acc, l.idx) {
    } else {
        let r = acc.push(l);
        assert(r[acc.len() as int].idx == l.idx);
        assert(has_index(r, l.idx));
        assert forall|idx: u32| has_index(acc, idx) implies dom.contains(idx) by {
            let i = choose|i: int| 0 <= i < acc.len() && (#[trigger] acc[i]).idx == idx;
            assert(r[i].idx == idx);
            assert(has_index(r, idx));
        }
    }
}

/// A set that holds the indices of the locals that were collected from a
/// node holds the index of every local that the node refers to, and those of
/// the locals that were there before.
pub proof fn lemma_referenced_covered(node: Tree, acc: Seq<Local>, dom: Set<u32>)
    requires
        covers(dom, node.referenced(acc)),
    ensures
        node.locals_within(dom),
        covers(dom, acc),
    decreases node, 0nat,
{
    match node {
        Tree::Call(_, args) => {
            lemma_referenced_in_covered(args, args.len(), acc, dom);
        },
        Tree::INumOp(_, _, a, b) => {
            lemma_referenced_covered(*b, a.referenced(acc), dom);
            lemma_referenced_covered(*a, acc, dom);
        },
        Tree::ICompOp(_, _, a, b) => {
            lemma_referenced_covered(*b, a.referenced(acc), dom);
            lemma_referenced_covered(*a, acc, dom);
        },
        Tree::Sequence(a, b) => {
            lemma_referenced_covered(*b, a.referenced(acc), dom);
            lemma_referenced_covered(*a, acc, dom);
        },
        Tree::GetLocal(l) => {
            lemma_noted_covered(acc, l, dom);
        },
        Tree::SetLocal(l, val) => {
            lemma_referenced_covered(*val, noted(acc, l), dom);
            lemma_noted_covered(acc, l, dom);
        },
        Tree::Load(_, addr) => {
            lemma_referenced_covered(*addr, acc, dom);
        },
        Tree::Store(_, addr, val) => {
            lemma_referenced_covered(*val, addr.referenced(acc), dom);
            lemma_referenced_covered(*addr, acc, dom);
        },
        Tree::If { cond, t, f } => {
            lemma_referenced_covered(*f, t.referenced(cond.referenced(acc)), dom);
            lemma_referenced_covered(*t, cond.referenced(acc), dom);
            lemma_referenced_covered(*cond, acc, dom);
        },
        Tree::Loop(body) => {
            lemma_referenced_covered(*body, acc, dom);
        },
        _ => {},
    }
}

/// The same of the first `n` nodes of a list.
pub proof fn lemma_referenced_in_covered(nodes: Seq<Tree>, n: nat, acc: Seq<Local>, dom: Set<u32>)
    requires
        n <= nodes.len(),
        covers(dom, Tree::referenced_in(nodes, n, acc)),
    ensures
        Tree::all_locals_within(nodes, n, dom),
        covers(dom, acc),
    decreases nodes, n,
{
    if n > 0 {
        lemma_referenced_covered(
            nodes[n - 1],
            Tree::referenced_in(nodes, (n - 1) as nat, acc),
            dom,
        );
        lemma_referenced_in_covered(nodes, (n - 1) as nat, acc, dom);
    }
}

impl CtxView {
    /// Whether `after` differs from this context at most by types and
    /// globals that were declared, with at most `cost` ids.
    pub open spec fn grows(self, after: CtxView, cost: nat) -> bool {
        &&& self.b.next_id <= after.b.next_id <= self.b.next_id + cost
        &&& after.b.function == self.b.function
        &&& after.b.block == self.b.block
        &&& after.b.module.functions == self.b.module.functions
        &&& after.ptrs.len() == self.ptrs.len()
        &&& after.locals == self.locals
        &&& after.funs == self.funs
        &&& after.loops == self.loops
        &&& after.buffer == self.buffer
        &&& after.thread_id == self.thread_id
        &&& after.thread_id_v3 == self.thread_id_v3
        &&& after.reserved == self.reserved
        &&& after.b.prelude() == self.b.prelude()
        &&& self.b.module.types_global_values.is_prefix_of(after.b.module.types_global_values)
    }

    /// Whether nothing is open.
    pub open spec fn outside(self) -> bool {
        &&& self.b.function is None
        &&& self.b.block is None
        &&& self.ptrs.len() == POINTER_SLOTS
    }
}

/// Asking for the types of a list of value types declares types only, one
/// for each value type at most, and leaves the context in order.
pub proof fn lemma_scalar_types(s: CtxView, types: Seq<ValueType>, n: nat)
    requires
        s.sound(),
        n <= types.len(),
        s.b.next_id + n <= u32::MAX,
    ensures
        s.scalar_types(types, n).0.sound(),
        s.grows(s.scalar_types(types, n).0, n),
        s.scalar_types(types, n).1.len() == n,
    decreases n,
{
    if n > 0 {
        lemma_scalar_types(s, types, (n - 1) as nat);
        let s1 = s.scalar_types(types, (n - 1) as nat).0;
        lemma_scalar_type_sound(s1, types[n - 1]);
    }
}

/// Beginning a function and its first block takes the context from outside
/// into the function.
pub proof fn lemma_open_fun(s: CtxView, ret: u32, function_type: u32)
    requires
        s.sound(),
        s.outside(),
        s.b.next_id + 2 <= u32::MAX,
    ensures
        s.open_fun(ret, function_type).sound(),
        s.open_fun(ret, function_type).inside(),
        s.open_fun(ret, function_type).b.next_id == s.b.next_id + 2,
        s.open_fun(ret, function_type).b.module.functions == s.b.module.functions,
        s.open_fun(ret, function_type).locals == s.locals,
        s.open_fun(ret, function_type).funs == s.funs,
        s.open_fun(ret, function_type).loops == s.loops,
        s.open_fun(ret, function_type).reserved == s.reserved,
        s.open_fun(ret, function_type).b.prelude() == s.b.prelude(),
        s.open_fun(ret, function_type).b.module.types_global_values
            == s.b.module.types_global_values,
        s.open_fun(ret, function_type).buffer == s.buffer,
        s.open_fun(ret, function_type).thread_id_v3 == s.thread_id_v3,
        s.open_fun(ret, function_type).b.function->Some_0.def == Some(
            Inst::value(
                Op::Function,
                ret,
                s.b.next_id,
                seq![Operand::FunctionControl(Control::Unset), Operand::IdRef(function_type)],
            ),
        ),
{
    reveal(CtxView::open_fun);
    lemma_code_begin_function(s.b, ret, function_type);
    let b1 = s.b.begin_function(ret, Control::Unset, function_type);
    assert(code_ok(b1) && b1.function is Some && b1.block is None) by {
        reveal(code_ok);
    }
    lemma_code_begin_block(b1, None);
    lemma_cache_grows(
        s.tys,
        s.ptrs,
        s.b.module.types_global_values,
        s.b.next_id,
        (s.b.next_id + 2) as u32,
    );
}

/// Beginning a function takes the context from outside into the function,
/// leaves it in order and takes at most four ids and one for each parameter.
pub proof fn lemma_begin_fun(s: CtxView, f: FunView)
    requires
        s.sound(),
        s.outside(),
        s.b.next_id + f.params.len() + 4 <= u32::MAX,
    ensures
        s.begin_fun(f).0.sound(),
        s.begin_fun(f).0.inside(),
        s.b.next_id <= s.begin_fun(f).0.b.next_id <= s.b.next_id + f.params.len() + 4,
        s.begin_fun(f).0.b.module.functions == s.b.module.functions,
        s.begin_fun(f).0.locals == s.locals,
        s.begin_fun(f).0.funs == s.funs,
        s.begin_fun(f).0.loops == s.loops,
        s.begin_fun(f).0.reserved == s.reserved,
        s.begin_fun(f).0.b.prelude() == s.b.prelude(),
        s.b.module.types_global_values.is_prefix_of(
            s.begin_fun(f).0.b.module.types_global_values,
        ),
        s.begin_fun(f).0.buffer == s.buffer,
        s.begin_fun(f).0.thread_id_v3 == s.thread_id_v3,
        s.begin_fun(f).0.b.function->Some_0.def matches Some(d) && d.op is Function && d.result_id
            == Some(s.begin_fun(f).1.0) && d.result_type == Some(s.begin_fun(f).1.1),
{
    let (s1, ret) = match f.ty {
        Some(t) => s.scalar_type(t),
        None => s.global(Op::TypeVoid, Seq::empty()),
    };
    match f.ty {
        Some(t) => {
            lemma_scalar_type_sound(s, t);
        },
        None => {
            lemma_global_sound(s, Op::TypeVoid, None, Seq::empty());
        },
    }
    assert(s.grows(s1, 1));
    lemma_scalar_types(s1, f.params, f.params.len());
    let (s2, param_types) = s1.scalar_types(f.params, f.params.len());
    lemma_id_refs_known(param_types);
    lemma_operands_known_add(seq![Operand::IdRef(ret)], id_refs(param_types));
    lemma_global_sound(
        s2,
        Op::TypeFunction,
        None,
        seq![Operand::IdRef(ret)] + id_refs(param_types),
    );
    let (s3, function_type) = s2.global(
        Op::TypeFunction,
        seq![Operand::IdRef(ret)] + id_refs(param_types),
    );
    assert(s2.grows(s3, 1));
    lemma_open_fun(s3, ret, function_type);
}

/// Declaring the variable of a local inside a function.
pub proof fn lemma_declare_local(s: CtxView, l: Local)
    requires
        s.sound(),
        s.inside(),
        s.b.next_id + 3 <= u32::MAX,
    ensures
        s.declare_local(l).0.sound(),
        s.steady(s.declare_local(l).0, 3),
{
    reveal(CtxView::declare_local);
    lemma_pointer_type_sound(s, l.ty, StorageClass::Function);
    lemma_pointer_type_steady(s, l.ty, StorageClass::Function);
    let (s1, ty) = s.pointer_type(l.ty, StorageClass::Function);
    lemma_value_sound(s1, Op::Variable, ty, seq![Operand::StorageClass(StorageClass::Function)]);
    assert(s1.variable(ty, StorageClass::Function) == s1.value(
        Op::Variable,
        ty,
        seq![Operand::StorageClass(StorageClass::Function)],
    ));
}

/// Declaring the variables of locals inside a function gives each local a
/// variable.
pub proof fn lemma_declare_locals(s: CtxView, locals: Seq<Local>, n: nat)
    requires
        s.sound(),
        s.inside(),
        n <= locals.len(),
        s.b.next_id + FUN_ITEM_COST * n <= u32::MAX,
    ensures
        s.declare_locals(locals, n).0.sound(),
        s.steady(s.declare_locals(locals, n).0, (FUN_ITEM_COST * n) as nat),
        forall|i: int| 0 <= i < n ==> s.declare_locals(locals, n).1.contains_key(
            (#[trigger] locals[i]).idx,
        ),
    decreases n,
{
    if n > 0 {
        lemma_declare_locals(s, locals, (n - 1) as nat);
        let (s1, vars) = s.declare_locals(locals, (n - 1) as nat);
        lemma_declare_local(s1, locals[n - 1]);
    }
}

/// Declaring a parameter inside a function.
pub proof fn lemma_declare_param(s: CtxView, ty: ValueType, var: Option<u32>)
    requires
        s.sound(),
        s.inside(),
        s.b.next_id + 2 <= u32::MAX,
    ensures
        s.declare_param(ty, var).sound(),
        s.steady_but_parameters(s.declare_param(ty, var), 2),
{
    reveal(CtxView::declare_param);
    lemma_scalar_type_sound(s, ty);
    lemma_scalar_type_steady(s, ty);
    let (s1, t) = s.scalar_type(ty);
    let x = Inst::value(Op::FunctionParameter, t, s1.b.next_id, Seq::empty());
    lemma_code_take_id(s1.b);
    lemma_code_add_parameter(s1.b.take_id(), x);
    lemma_cache_grows(
        s1.tys,
        s1.ptrs,
        s1.b.module.types_global_values,
        s1.b.next_id,
        (s1.b.next_id + 1) as u32,
    );
    let s2 = s1.with_builder(s1.b.declare_parameter(t));
    assert(s2.sound());
    match var {
        Some(v) => {
            lemma_effect_sound(
                s2,
                Op::Store,
                seq![Operand::IdRef(v), Operand::IdRef(s1.b.next_id)],
            );
        },
        None => {},
    }
}

impl CtxView {
    /// Whether `after` differs from this context at most by what declaring
    /// parameters inside a function changes.
    pub open spec fn steady_but_parameters(self, after: CtxView, cost: nat) -> bool {
        &&& after.inside()
        &&& self.b.next_id <= after.b.next_id <= self.b.next_id + cost
        &&& after.locals == self.locals
        &&& after.funs == self.funs
        &&& after.loops == self.loops
        &&& after.buffer == self.buffer
        &&& after.thread_id == self.thread_id
        &&& after.thread_id_v3 == self.thread_id_v3
        &&& after.reserved == self.reserved
        &&& after.b.prelude() == self.b.prelude()
        &&& after.b.function->Some_0.def == self.b.function->Some_0.def
        &&& after.b.module.functions == self.b.module.functions
        &&& self.b.module.types_global_values.is_prefix_of(after.b.module.types_global_values)
    }
}

/// Declaring the parameters of a function inside it.
pub proof fn lemma_declare_params(s: CtxView, params: Seq<ValueType>, n: nat, vars: Map<u32, u32>)
    requires
        s.sound(),
        s.inside(),
        n <= params.len(),
        s.b.next_id + 2 * n <= u32::MAX,
    ensures
        s.declare_params(params, n, vars).sound(),
        s.steady_but_parameters(s.declare_params(params, n, vars), 2 * n),
    decreases n,
{
    if n > 0 {
        lemma_declare_params(s, params, (n - 1) as nat, vars);
        let s1 = s.declare_params(params, (n - 1) as nat, vars);
        let idx = (n - 1) as u32;
        lemma_declare_param(
            s1,
            params[n - 1],
            if vars.contains_key(idx) {
                Some(vars[idx])
            } else {
                None
            },
        );
    }
}

/// Loading the thread id inside a function.
pub proof fn lemma_load_thread_id(s: CtxView)
    requires
        s.sound(),
        s.inside(),
        s.b.next_id + 6 <= u32::MAX,
    ensures
        s.load_thread_id().sound(),
        s.load_thread_id().inside(),
        s.b.next_id <= s.load_thread_id().b.next_id <= s.b.next_id + 6,
        s.load_thread_id().locals == s.locals,
        s.load_thread_id().funs == s.funs,
        s.load_thread_id().loops == s.loops,
        s.load_thread_id().reserved == s.reserved,
        s.load_thread_id().b.prelude() == s.b.prelude(),
        s.b.module.types_global_values.is_prefix_of(
            s.load_thread_id().b.module.types_global_values,
        ),
        s.load_thread_id().buffer == s.buffer,
        s.load_thread_id().thread_id_v3 == s.thread_id_v3,
        s.load_thread_id().b.function->Some_0.def == s.b.function->Some_0.def,
        s.load_thread_id().b.module.functions == s.b.module.functions,
{
    reveal(CtxView::load_thread_id);
    lemma_scalar_type_sound(s, ValueType::I32);
    lemma_scalar_type_steady(s, ValueType::I32);
    let (s1, uint) = s.scalar_type(ValueType::I32);
    lemma_pointer_type_sound(s1, ValueType::I32, StorageClass::Input);
    lemma_pointer_type_steady(s1, ValueType::I32, StorageClass::Input);
    let (s2, uint_ptr) = s1.pointer_type(ValueType::I32, StorageClass::Input);
    lemma_constant_sound(s2, uint, 0);
    let (s3, zero) = s2.constant(uint, 0);
    lemma_value_sound(
        s3,
        Op::AccessChain,
        uint_ptr,
        seq![Operand::IdRef(s.thread_id_v3), Operand::IdRef(zero)],
    );
    let (s4, component) = s3.value(
        Op::AccessChain,
        uint_ptr,
        seq![Operand::IdRef(s.thread_id_v3), Operand::IdRef(zero)],
    );
    lemma_value_sound(s4, Op::Load, uint, seq![Operand::IdRef(component)]);
}

/// The steps before the body of a function take the context from outside
/// into the function, where every local of the body has a variable, leave it
/// in order, and take no more ids than the cost of the function has beside
/// that of its body.
pub proof fn lemma_enter_fun(s: CtxView, f: FunView)
    requires
        s.sound(),
        s.outside(),
        s.b.next_id + f.cost() <= u32::MAX,
    ensures
        s.enter_fun(f).sound(),
        s.enter_fun(f).inside(),
        s.b.next_id <= s.enter_fun(f).b.next_id,
        s.enter_fun(f).b.next_id + f.body.cost() <= s.b.next_id + f.cost(),
        f.body.locals_within(s.enter_fun(f).locals.dom()),
        s.enter_fun(f).funs == s.funs,
        s.enter_fun(f).loops == s.loops,
        s.enter_fun(f).reserved == s.reserved,
        s.enter_fun(f).b.prelude() == s.b.prelude(),
        s.b.module.types_global_values.is_prefix_of(
            s.enter_fun(f).b.module.types_global_values,
        ),
        s.enter_fun(f).buffer == s.buffer,
        s.enter_fun(f).thread_id_v3 == s.thread_id_v3,
        s.enter_fun(f).b.module.functions == s.b.module.functions,
        s.enter_fun(f).b.function->Some_0.def matches Some(d) && d.op is Function && d.result_id
            == Some(s.begin_fun(f).1.0) && d.result_type == Some(s.begin_fun(f).1.1),
{
    let locals = f.body.locals_spec();
    let p = f.params.len();
    let l = locals.len();
    assert(FUN_ITEM_COST * (p + l) == FUN_ITEM_COST * p + FUN_ITEM_COST * l) by (nonlinear_arith);
    lemma_begin_fun(s, f);
    let s1 = s.begin_fun(f).0;
    lemma_declare_locals(s1, locals, l);
    let (s2, vars) = s1.declare_locals(locals, l);
    lemma_declare_params(s2, f.params, p, vars);
    let s3 = s2.declare_params(f.params, p, vars);
    let s4 = CtxView { locals: vars, ..s3 };
    assert(s4.sound());
    lemma_load_thread_id(s4);
    assert(covers(vars.dom(), locals)) by {
        assert forall|idx: u32| has_index(locals, idx) implies vars.dom().contains(idx) by {
            let i = choose|i: int| 0 <= i < locals.len() && (#[trigger] locals[i]).idx == idx;
            assert(vars.contains_key(locals[i].idx));
        }
    }
    lemma_referenced_covered(f.body, Seq::empty(), vars.dom());
}

/// The steps after the body of a function take the context back outside
/// and add the function to the module.
pub proof fn lemma_end_fun(s: CtxView, valued: bool, result: u32)
    requires
        s.sound(),
        s.inside(),
    ensures
        code_ok(s.end_fun(valued, result).b),
        cache_ok(
            s.end_fun(valued, result).tys,
            s.end_fun(valued, result).ptrs,
            s.end_fun(valued, result).b.module.types_global_values,
            s.end_fun(valued, result).b.next_id,
        ),
        s.end_fun(valued, result).outside(),
        s.end_fun(valued, result).b.next_id == s.b.next_id,
        s.end_fun(valued, result).loops == s.loops,
        s.end_fun(valued, result).funs == s.funs,
        s.end_fun(valued, result).reserved == s.reserved,
        s.end_fun(valued, result).b.prelude() == s.b.prelude(),
        s.end_fun(valued, result).b.module.types_global_values
            == s.b.module.types_global_values,
        s.end_fun(valued, result).buffer == s.buffer,
        s.end_fun(valued, result).thread_id_v3 == s.thread_id_v3,
        s.end_fun(valued, result).b.module.functions.len() == s.b.module.functions.len() + 1,
        forall|k: int|
            0 <= k < s.b.module.functions.len() ==> s.end_fun(valued, result).b.module.functions[k]
                == s.b.module.functions[k],
        s.end_fun(valued, result).b.module.functions.last().def == s.b.function->Some_0.def,
{
    reveal(CtxView::end_fun);
    let s1 = if valued {
        s.terminate(Op::ReturnValue, seq![Operand::IdRef(result)])
    } else {
        s.terminate(Op::Return, Seq::empty())
    };
    if valued {
        lemma_code_terminate(s.b, Op::ReturnValue, seq![Operand::IdRef(result)]);
    } else {
        lemma_code_terminate(s.b, Op::Return, Seq::empty());
    }
    lemma_code_close_function(s1.b);
}

/// Lowering a function that is accepted takes a context that is in order
/// between two functions to one that is in order between two functions.
pub proof fn lemma_lower_fun(s: CtxView, f: FunView)
    requires
        s.inv(),
        s.judge(f) is Ok,
    ensures
        s.lower_fun(f).inv(),
        s.lower_fun(f).funs.len() == s.funs.len() + 1,
{
    reveal(cache_ok);
    crate::unique::lemma_lower_fun_ids(s, f);
    crate::branches::lemma_lower_fun_refs(s, f);
    lemma_enter_fun(s, f);
    let s0 = s.enter_fun(f);
    lemma_lower_sound(s0, f.body);
    lemma_lower_steady(s0, f.body);
    let (s1, result) = s0.lower(f.body);
    lemma_end_fun(s1, f.ty is Some, result);
    let s2 = s1.end_fun(f.ty is Some, result);
    let s3 = s.lower_fun(f);
    assert(s3.tables_ok()) by {
        assert forall|k: int| 0 <= k < s3.funs.len() implies {
            &&& (#[trigger] s3.b.module.functions[k]).def matches Some(d)
            &&& d.op is Function
            &&& d.result_id == Some(s3.funs[k].0)
            &&& d.result_type == Some(s3.funs[k].1)
        } by {
            if k < s.funs.len() {
                assert(s3.b.module.functions[k] == s.b.module.functions[k]);
                assert(s3.funs[k] == s.funs[k]);
            } else {
                assert(s3.b.module.functions[k] == s2.b.module.functions.last());
            }
        }
    }
}

} // verus!
