//! The translation context: it walks the tree of a function and emits the
//! SPIR-V for it, one instruction after the other.

use vstd::prelude::*;
use crate::builder::{
    access_chain, assemble, begin_block, begin_function, branch, branch_conditional, builder_view,
    capability, constant_u32, decorate, end_function, entry_point, execution_mode,
    ext_inst_import, fresh_id, function_call, function_parameter, i_add, i_equal, i_mul,
    i_not_equal, i_sub, instruction_words, into_module, load, loop_merge, member_decorate,
    memory_model, module_view, new_builder, ret, ret_value, s_div, s_greater_than,
    s_greater_than_equal, s_less_than, s_less_than_equal, select, selection_merge, set_version,
    shift_left_logical, shift_right_arithmetic, shift_right_logical, store, type_bool,
    type_float, type_function, type_int, type_pointer, type_runtime_array, type_struct,
    type_vector, type_void, u_div, u_greater_than, u_greater_than_equal, u_less_than,
    u_less_than_equal, variable,
};
use crate::analysis::lemma_list_item;
use crate::bytes::{le_bytes, words_to_bytes};
use crate::ends::{lemma_finish, lemma_initial, FIRST_FREE_ID};
use crate::error::CompileError;
use crate::frame::{
    lemma_begin_fun, lemma_declare_locals, lemma_declare_params, lemma_enter_fun, lemma_lower_fun,
};
use crate::index_map::{index_map_view, MAX_CAPACITY};
use crate::ir::{Base, Const, Fun, FunView, ICompOp, INumOp, Local, Tree, ValueType, Width};
use crate::lowering::{
    entry_name, slot, Access, CtxView, Loop, Selection, Types, FUN_BASE_COST, FUN_ITEM_COST,
    LOCAL_SIZE_X, LOCAL_SIZE_Y, LOCAL_SIZE_Z, POINTER_SLOTS, THREAD_ID_COMPONENTS, WORD_BYTES,
};
use crate::model::{
    decoration_operands, id_refs, literals, AddressingModel, BuiltIn, Capability, Control,
    Decoration, DecorationParam, ExecutionMode, ExecutionModel, MemoryModel, ModuleView, Operand,
    StorageClass,
};
use crate::sound::cache_ok;
use crate::steady::{
    lemma_load_begin_steady, lemma_pointer_type_steady, lemma_scalar_type_steady,
};

verus! {

/// The translation context.  It owns the builder, the types declared so
/// far, the storage buffer and the thread id, the variables of the function
/// that is being lowered, the functions lowered so far, and the loops around
/// the node that is being lowered.
pub struct Ctx {
    tys: Types,
    ptrs: Vec<Option<u32>>,
    buffer: u32,
    /// The x component of the thread id, loaded anew in every function.
    thread_id: u32,
    /// The input variable that holds the thread id.
    thread_id_v3: u32,
    locals: parity_wasm::elements::IndexMap<u32>,
    b: rspirv::dr::Builder,
    /// The id and the result type of each function lowered so far.
    funs: Vec<(u32, u32)>,
    loops: Vec<Loop>,
    reserved: u32,
}

impl View for Ctx {
    type V = CtxView;

    closed spec fn view(&self) -> CtxView {
        CtxView {
            tys: self.tys,
            ptrs: self.ptrs@,
            buffer: self.buffer,
            thread_id: self.thread_id,
            thread_id_v3: self.thread_id_v3,
            locals: index_map_view(self.locals),
            b: builder_view(self.b),
            funs: self.funs@,
            loops: self.loops@,
            reserved: self.reserved,
        }
    }
}

/// The slot of the pointer type for a value type in a storage class.
fn slot_of(t: ValueType, class: StorageClass) -> (i: usize)
    ensures
        i == slot(t, class),
        i < POINTER_SLOTS,
{
    let row: usize = match t {
        ValueType::I32 => 0,
        ValueType::I64 => 1,
        ValueType::F32 => 2,
        ValueType::F64 => 3,
    };
    let column: usize = match class {
        StorageClass::Input => 0,
        StorageClass::Uniform => 1,
        StorageClass::Function => 2,
    };
    row * 3 + column
}

impl Ctx {
    /// The id of the boolean type, declared now unless it was before.
    fn bool(&mut self) -> (id: u32)
        requires
            old(self)@.b.next_id < u32::MAX,
        ensures
            (final(self)@, id) == old(self)@.bool_type(),
    {
        match self.tys.b {
            Some(i) => i,
            None => {
                let i = type_bool(&mut self.b);
                self.tys.b = Some(i);
                i
            },
        }
    }

    /// The id of the integer type of a width.
    fn int_of(&mut self, width: Width) -> (id: u32)
        requires
            old(self)@.b.next_id < u32::MAX,
        ensures
            (final(self)@, id) == old(self)@.int_type(width),
    {
        match width {
            Width::W32 => self.get(ValueType::I32),
            Width::W64 => self.get(ValueType::I64),
        }
    }

    /// The id of the type of pointers to `t` in `class`, declared now unless
    /// it was before.
    fn ptr(&mut self, t: ValueType, class: StorageClass) -> (id: u32)
        requires
            old(self)@.ptrs.len() == POINTER_SLOTS,
            old(self)@.b.next_id + 2 <= u32::MAX,
        ensures
            (final(self)@, id) == old(self)@.pointer_type(t, class),
    {
        let at = slot_of(t, class);
        match self.ptrs[at] {
            Some(i) => i,
            None => {
                let pointee = self.get(t);
                let i = type_pointer(&mut self.b, class, pointee);
                self.ptrs.set(at, Some(i));
                i
            },
        }
    }

    /// The id of the SPIR-V type of `t`, declared now unless it was before.
    /// Integers are declared without a sign; which operation is signed shows
    /// in the opcode.
    fn get(&mut self, t: ValueType) -> (id: u32)
        requires
            old(self)@.b.next_id < u32::MAX,
        ensures
            (final(self)@, id) == old(self)@.scalar_type(t),
    {
        match t {
            ValueType::I32 => {
                match self.tys.i_32 {
                    Some(i) => i,
                    None => {
                        let i = type_int(&mut self.b, 32, 0);
                        self.tys.i_32 = Some(i);
                        i
                    },
                }
            },
            ValueType::I64 => {
                match self.tys.i_64 {
                    Some(i) => i,
                    None => {
                        let i = type_int(&mut self.b, 64, 0);
                        self.tys.i_64 = Some(i);
                        i
                    },
                }
            },
            ValueType::F32 => {
                match self.tys.f_32 {
                    Some(i) => i,
                    None => {
                        let i = type_float(&mut self.b, 32);
                        self.tys.f_32 = Some(i);
                        i
                    },
                }
            },
            ValueType::F64 => {
                match self.tys.f_64 {
                    Some(i) => i,
                    None => {
                        let i = type_float(&mut self.b, 64);
                        self.tys.f_64 = Some(i);
                        i
                    },
                }
            },
        }
    }

    /// The pointer to the word of the storage buffer at the byte address
    /// `addr`.
    fn word_pointer(&mut self, uint: u32, zero: u32, pointer_type: u32, addr: u32) -> (id: u32)
        requires
            old(self)@.inside(),
            old(self)@.b.next_id + 3 <= u32::MAX,
        ensures
            (final(self)@, id) == old(self)@.word_pointer(uint, zero, pointer_type, addr),
            old(self)@.steady(final(self)@, 3),
    {
        // the buffer is an array of words, the address counts bytes
        let four = constant_u32(&mut self.b, uint, WORD_BYTES);
        let index = u_div(&mut self.b, uint, addr, four).unwrap();
        let indexes = vec![zero, index];
        proof {
            assert(seq![Operand::IdRef(self.buffer)] + id_refs(indexes@) =~= seq![
                Operand::IdRef(self.buffer),
                Operand::IdRef(zero),
                Operand::IdRef(index),
            ]);
        }
        access_chain(&mut self.b, pointer_type, self.buffer, &indexes).unwrap()
    }

    /// Emits the call of the function with index `i`.
    fn call(&mut self, i: u32, args: &Vec<u32>) -> (id: u32)
        requires
            old(self)@.inside(),
            old(self)@.b.next_id + 1 <= u32::MAX,
            i < old(self)@.funs.len(),
        ensures
            (final(self)@, id) == old(self)@.call(i, args@),
            old(self)@.steady(final(self)@, 1),
    {
        proof {
            reveal(CtxView::call);
        }
        let (f, t) = self.funs[i as usize];
        function_call(&mut self.b, t, f, args).unwrap()
    }

    /// Emits integer arithmetic.
    fn num_op(&mut self, w: Width, op: INumOp, lhs: u32, rhs: u32) -> (id: u32)
        requires
            old(self)@.inside(),
            old(self)@.b.next_id + 2 <= u32::MAX,
        ensures
            (final(self)@, id) == old(self)@.num_op(w, op, lhs, rhs),
            old(self)@.steady(final(self)@, 2),
    {
        proof {
            reveal(CtxView::num_op);
        }
        let ty = self.int_of(w);
        match op {
            INumOp::Mul => i_mul(&mut self.b, ty, lhs, rhs).unwrap(),
            INumOp::Add => i_add(&mut self.b, ty, lhs, rhs).unwrap(),
            INumOp::Sub => i_sub(&mut self.b, ty, lhs, rhs).unwrap(),
            INumOp::Shl => shift_left_logical(&mut self.b, ty, lhs, rhs).unwrap(),
            INumOp::ShrS => shift_right_arithmetic(&mut self.b, ty, lhs, rhs).unwrap(),
            INumOp::ShrU => shift_right_logical(&mut self.b, ty, lhs, rhs).unwrap(),
            INumOp::DivU => u_div(&mut self.b, ty, lhs, rhs).unwrap(),
            INumOp::DivS => s_div(&mut self.b, ty, lhs, rhs).unwrap(),
        }
    }

    /// Emits an integer comparison and turns its boolean into an integer.
    fn comp_op(&mut self, w: Width, op: ICompOp, lhs: u32, rhs: u32) -> (id: u32)
        requires
            old(self)@.inside(),
            old(self)@.b.next_id + 6 <= u32::MAX,
        ensures
            (final(self)@, id) == old(self)@.comp_op(w, op, lhs, rhs),
            old(self)@.steady(final(self)@, 6),
    {
        proof {
            reveal(CtxView::comp_op);
        }
        let ty = self.int_of(w);
        // a comparison yields a boolean in SPIR-V and an integer in WASM
        let t_bool = self.bool();
        let flag = match op {
            ICompOp::Eq => i_equal(&mut self.b, t_bool, lhs, rhs).unwrap(),
            ICompOp::NEq => i_not_equal(&mut self.b, t_bool, lhs, rhs).unwrap(),
            ICompOp::LeU => u_less_than_equal(&mut self.b, t_bool, lhs, rhs).unwrap(),
            ICompOp::GeU => u_greater_than_equal(&mut self.b, t_bool, lhs, rhs).unwrap(),
            ICompOp::LtU => u_less_than(&mut self.b, t_bool, lhs, rhs).unwrap(),
            ICompOp::GtU => u_greater_than(&mut self.b, t_bool, lhs, rhs).unwrap(),
            ICompOp::LeS => s_less_than_equal(&mut self.b, t_bool, lhs, rhs).unwrap(),
            ICompOp::GeS => s_greater_than_equal(&mut self.b, t_bool, lhs, rhs).unwrap(),
            ICompOp::LtS => s_less_than(&mut self.b, t_bool, lhs, rhs).unwrap(),
            ICompOp::GtS => s_greater_than(&mut self.b, t_bool, lhs, rhs).unwrap(),
        };
        let zero = constant_u32(&mut self.b, ty, 0);
        let one = constant_u32(&mut self.b, ty, 1);
        select(&mut self.b, ty, flag, one, zero).unwrap()
    }

    /// Emits a constant of 32 bits.
    fn constant_of(&mut self, c: Const) -> (id: u32)
        requires
            old(self)@.inside(),
            old(self)@.b.next_id + 2 <= u32::MAX,
            c.is_32_bit(),
        ensures
            (final(self)@, id) == old(self)@.constant_of(c),
            old(self)@.steady(final(self)@, 2),
    {
        proof {
            reveal(CtxView::constant_of);
        }
        match c {
            Const::I32(i) => {
                let ty = self.get(ValueType::I32);
                constant_u32(&mut self.b, ty, i as u32)
            },
            Const::F32(bits) => {
                let ty = self.get(ValueType::F32);
                constant_u32(&mut self.b, ty, bits)
            },
            _ => 0,
        }
    }

    /// Emits the read of a local.
    fn get_local(&mut self, l: Local) -> (id: u32)
        requires
            old(self)@.inside(),
            old(self)@.b.next_id + 2 <= u32::MAX,
            old(self)@.locals.contains_key(l.idx),
        ensures
            (final(self)@, id) == old(self)@.get_local(l),
            old(self)@.steady(final(self)@, 2),
    {
        proof {
            reveal(CtxView::get_local);
        }
        let ty = self.get(l.ty);
        let var = crate::index_map::get(&self.locals, l.idx).unwrap();
        load(&mut self.b, ty, var).unwrap()
    }

    /// The variable of a local.
    fn local(&self, l: Local) -> (var: u32)
        requires
            self@.locals.contains_key(l.idx),
        ensures
            var == self@.locals[l.idx],
    {
        crate::index_map::get(&self.locals, l.idx).unwrap()
    }

    /// Emits the write of a local.
    fn set_local(&mut self, var: u32, v: u32)
        requires
            old(self)@.inside(),
        ensures
            final(self)@ == old(self)@.set_local(var, v),
            old(self)@.steady(final(self)@, 0),
    {
        proof {
            reveal(CtxView::set_local);
        }
        store(&mut self.b, var, v).unwrap()
    }

    /// Declares what a load needs before its address.
    fn load_begin(&mut self, ty: ValueType) -> (access: Access)
        requires
            old(self)@.inside(),
            old(self)@.b.next_id + 5 <= u32::MAX,
        ensures
            (final(self)@, access) == old(self)@.load_begin(ty),
            old(self)@.steady(final(self)@, 5),
    {
        proof {
            reveal(CtxView::load_begin);
            lemma_load_begin_steady(self@, ty);
        }
        let ghost s0 = self@;
        let uint = self.get(ValueType::I32);
        let zero = constant_u32(&mut self.b, uint, 0);
        proof {
            lemma_pointer_type_steady(self@, ty, StorageClass::Uniform);
        }
        let pointer_type = self.ptr(ty, StorageClass::Uniform);
        let result_type = self.get(ty);
        Access { uint, zero, pointer_type, result_type }
    }

    /// Emits the load itself.
    fn load_end(&mut self, access: Access, addr: u32) -> (id: u32)
        requires
            old(self)@.inside(),
            old(self)@.b.next_id + 4 <= u32::MAX,
        ensures
            (final(self)@, id) == old(self)@.load_end(access, addr),
            old(self)@.steady(final(self)@, 4),
    {
        proof {
            reveal(CtxView::load_end);
        }
        let pointer = self.word_pointer(access.uint, access.zero, access.pointer_type, addr);
        load(&mut self.b, access.result_type, pointer).unwrap()
    }

    /// Declares what a store needs before its address and its value.
    fn store_begin(&mut self) -> (r: (u32, u32))
        requires
            old(self)@.inside(),
            old(self)@.b.next_id + 2 <= u32::MAX,
        ensures
            (final(self)@, r) == old(self)@.store_begin(),
            old(self)@.steady(final(self)@, 2),
    {
        proof {
            reveal(CtxView::store_begin);
        }
        let uint = self.get(ValueType::I32);
        let zero = constant_u32(&mut self.b, uint, 0);
        (uint, zero)
    }

    /// Emits the store itself.
    fn store_end(&mut self, ty: ValueType, uint: u32, zero: u32, addr: u32, v: u32)
        requires
            old(self)@.inside(),
            old(self)@.b.next_id + 5 <= u32::MAX,
        ensures
            final(self)@ == old(self)@.store_end(ty, uint, zero, addr, v),
            old(self)@.steady(final(self)@, 5),
    {
        proof {
            reveal(CtxView::store_end);
            lemma_pointer_type_steady(self@, ty, StorageClass::Uniform);
        }
        let pointer_type = self.ptr(ty, StorageClass::Uniform);
        let pointer = self.word_pointer(uint, zero, pointer_type, addr);
        store(&mut self.b, pointer, v).unwrap()
    }

    /// Takes the labels of a selection.
    fn if_begin(&mut self) -> (labels: Selection)
        requires
            old(self)@.inside(),
            old(self)@.b.next_id + 3 <= u32::MAX,
        ensures
            (final(self)@, labels) == old(self)@.if_begin(),
            old(self)@.steady(final(self)@, 3),
    {
        proof {
            reveal(CtxView::if_begin);
        }
        let l_t = fresh_id(&mut self.b);
        let l_f = fresh_id(&mut self.b);
        let l_m = fresh_id(&mut self.b);
        Selection { l_t, l_f, l_m }
    }

    /// Emits the branch of a selection and begins its first branch.
    fn if_then(&mut self, labels: Selection, cond: u32)
        requires
            old(self)@.inside(),
            old(self)@.b.next_id + 4 <= u32::MAX,
        ensures
            final(self)@ == old(self)@.if_then(labels, cond),
            old(self)@.steady(final(self)@, 4),
    {
        proof {
            reveal(CtxView::if_then);
        }
        // the condition is a number: it holds where it is not zero
        let t_uint = self.get(ValueType::I32);
        let zero = constant_u32(&mut self.b, t_uint, 0);
        let t_bool = self.bool();
        let flag = i_not_equal(&mut self.b, t_bool, cond, zero).unwrap();
        selection_merge(&mut self.b, labels.l_m, Control::Unset).unwrap();
        branch_conditional(&mut self.b, flag, labels.l_t, labels.l_f).unwrap();
        begin_block(&mut self.b, Some(labels.l_t)).unwrap();
    }

    /// Ends the first branch of a selection and begins the second.
    fn if_else(&mut self, labels: Selection)
        requires
            old(self)@.inside(),
        ensures
            final(self)@ == old(self)@.if_else(labels),
            old(self)@.steady(final(self)@, 0),
    {
        proof {
            reveal(CtxView::if_else);
        }
        branch(&mut self.b, labels.l_m).unwrap();
        begin_block(&mut self.b, Some(labels.l_f)).unwrap();
    }

    /// Ends the second branch of a selection and begins the merge block.
    fn if_end(&mut self, labels: Selection)
        requires
            old(self)@.inside(),
        ensures
            final(self)@ == old(self)@.if_end(labels),
            old(self)@.steady(final(self)@, 0),
    {
        proof {
            reveal(CtxView::if_end);
        }
        branch(&mut self.b, labels.l_m).unwrap();
        begin_block(&mut self.b, Some(labels.l_m)).unwrap();
    }

    /// Emits the head of a loop and makes the loop the innermost one.
    fn loop_begin(&mut self) -> (frame: Loop)
        requires
            old(self)@.inside(),
            old(self)@.b.next_id + 4 <= u32::MAX,
        ensures
            (final(self)@, frame) == old(self)@.loop_begin(),
            old(self)@.with_loops(final(self)@.loops).steady(final(self)@, 4),
            final(self)@.loops == old(self)@.loops.push(frame),
    {
        proof {
            reveal(CtxView::loop_begin);
        }
        let head = fresh_id(&mut self.b);
        let cont = fresh_id(&mut self.b);
        let end = fresh_id(&mut self.b);
        let first = fresh_id(&mut self.b);
        branch(&mut self.b, head).unwrap();
        begin_block(&mut self.b, Some(head)).unwrap();
        loop_merge(&mut self.b, end, cont, Control::Unset).unwrap();
        branch(&mut self.b, first).unwrap();
        begin_block(&mut self.b, Some(first)).unwrap();
        let frame = Loop { head, cont, end };
        self.loops.push(frame);
        frame
    }

    /// Takes the innermost loop off and emits its end.
    fn loop_end(&mut self, frame: Loop)
        requires
            old(self)@.inside(),
            old(self)@.loops.len() > 0,
        ensures
            final(self)@ == old(self)@.loop_end(frame),
            old(self)@.with_loops(old(self)@.loops.drop_last()).steady(final(self)@, 0),
    {
        proof {
            reveal(CtxView::loop_end);
        }
        self.loops.pop();
        // a body that runs to its end leaves the loop
        branch(&mut self.b, frame.end).unwrap();
        // the continue block has to follow the body
        begin_block(&mut self.b, Some(frame.cont)).unwrap();
        branch(&mut self.b, frame.head).unwrap();
        begin_block(&mut self.b, Some(frame.end)).unwrap();
    }

    /// Emits a branch and begins an unreachable block.
    fn jump(&mut self, target: u32)
        requires
            old(self)@.inside(),
            old(self)@.b.next_id + 1 <= u32::MAX,
        ensures
            final(self)@ == old(self)@.jump(target),
            old(self)@.steady(final(self)@, 1),
    {
        proof {
            reveal(CtxView::jump);
        }
        branch(&mut self.b, target).unwrap();
        begin_block(&mut self.b, None).unwrap();
    }

    /// Emits a return and begins an unreachable block.
    fn leave(&mut self)
        requires
            old(self)@.inside(),
            old(self)@.b.next_id + 1 <= u32::MAX,
        ensures
            final(self)@ == old(self)@.leave(),
            old(self)@.steady(final(self)@, 1),
    {
        proof {
            reveal(CtxView::leave);
        }
        ret(&mut self.b).unwrap();
        // what follows stands in a block that nothing branches to
        begin_block(&mut self.b, None).unwrap();
    }

    /// The innermost loop.
    fn innermost(&self) -> (frame: Loop)
        requires
            self@.loops.len() > 0,
        ensures
            frame == self@.loops.last(),
    {
        self.loops[self.loops.len() - 1]
    }
}

impl Base {
    /// Lowers this node and returns the id of the value that it yields, 0
    /// where it yields none.
    pub(crate) fn spv(&self, ctx: &mut Ctx) -> (id: u32)
        requires
            old(ctx)@.inside(),
            old(ctx)@.b.next_id + self@.cost() <= u32::MAX,
            self@.first_error(old(ctx)@.loops.len() > 0, old(ctx)@.funs.len()) is None,
            self@.locals_within(old(ctx)@.locals.dom()),
        ensures
            (final(ctx)@, id) == old(ctx)@.lower(self@),
            old(ctx)@.steady(final(ctx)@, self@.cost()),
        decreases self,
    {
        match self {
            Base::Call(i, args) => {
                let ghost s0 = ctx@;
                let ghost trees = Base::views(args@, args@.len());
                let mut ids: Vec<u32> = Vec::new();
                let mut k: usize = 0;
                assert(decreases_to!(*self => *args));
                proof {
                    Base::lemma_views(args@, args@.len());
                }
                while k < args.len()
                    invariant
                        k <= args.len(),
                        decreases_to!(*self => *args),
                        trees.len() == args.len(),
                        forall|j: int| 0 <= j < args.len() ==> (#[trigger] trees[j]) == args@[j]@,
                        (ctx@, ids@) == s0.lower_list(trees, k as nat),
                        s0.steady(ctx@, Tree::cost_of(trees, k as nat)),
                        s0.inside(),
                        s0.b.next_id + Tree::cost_of(trees, trees.len()) + 1 <= u32::MAX,
                        Tree::first_error_in(
                            trees,
                            trees.len(),
                            s0.loops.len() > 0,
                            s0.funs.len(),
                        ) is None,
                        Tree::all_locals_within(trees, trees.len(), s0.locals.dom()),
                    decreases args.len() - k,
                {
                    proof {
                        lemma_list_item(
                            trees,
                            k as nat,
                            s0.loops.len() > 0,
                            s0.funs.len(),
                            s0.locals.dom(),
                        );
                        assert(decreases_to!(*args => args[k as int]));
                    }
                    let id = args[k].spv(ctx);
                    ids.push(id);
                    k += 1;
                }
                ctx.call(*i, &ids)
            },
            Base::Nop => 0,
            Base::INumOp(w, op, a, b) => {
                let lhs = a.spv(ctx);
                let rhs = b.spv(ctx);
                ctx.num_op(*w, *op, lhs, rhs)
            },
            Base::ICompOp(w, op, a, b) => {
                let lhs = a.spv(ctx);
                let rhs = b.spv(ctx);
                ctx.comp_op(*w, *op, lhs, rhs)
            },
            Base::Const(c) => ctx.constant_of(*c),
            Base::Sequence(a, b) => {
                a.spv(ctx);
                b.spv(ctx)
            },
            Base::GetLocal(l) => ctx.get_local(*l),
            Base::SetLocal(l, val) => {
                let var = ctx.local(*l);
                let v = val.spv(ctx);
                ctx.set_local(var, v);
                0
            },
            Base::GetGlobal(_) => ctx.thread_id,
            Base::Load(ty, addr) => {
                let access = ctx.load_begin(*ty);
                let a = addr.spv(ctx);
                ctx.load_end(access, a)
            },
            Base::Store(ty, addr, val) => {
                let (uint, zero) = ctx.store_begin();
                // the address is pushed before the value, so it is evaluated first
                let a = addr.spv(ctx);
                let v = val.spv(ctx);
                ctx.store_end(*ty, uint, zero, a, v);
                0
            },
            Base::If { cond, t, f } => {
                let labels = ctx.if_begin();
                let c = cond.spv(ctx);
                ctx.if_then(labels, c);
                t.spv(ctx);
                ctx.if_else(labels);
                f.spv(ctx);
                ctx.if_end(labels);
                0
            },
            Base::Loop(body) => {
                let ghost s0 = ctx@;
                let frame = ctx.loop_begin();
                body.spv(ctx);
                ctx.loop_end(frame);
                proof {
                    assert(s0.loops.push(frame).drop_last() =~= s0.loops);
                }
                0
            },
            Base::Continue => {
                let l = ctx.innermost();
                ctx.jump(l.cont);
                0
            },
            Base::Break => {
                let l = ctx.innermost();
                ctx.jump(l.end);
                0
            },
            Base::Return => {
                ctx.leave();
                0
            },
        }
    }
}

impl Fun {
    /// The bound on the number of ids that lowering this function takes, as
    /// long as it can be an id.
    pub fn id_cost(&self) -> (r: Option<u32>)
        ensures
            r matches Some(c) ==> c == self@.cost(),
            r is None ==> self@.cost() > u32::MAX,
    {
        let locals = self.body.locals();
        self.cost_with(locals.len())
    }

    /// The bound on the number of ids that lowering this function takes, as
    /// long as it can be an id.  `locals` is the number of locals that the
    /// body refers to.
    fn cost_with(&self, locals: usize) -> (r: Option<u32>)
        requires
            locals == self@.body.locals_spec().len(),
        ensures
            r matches Some(c) ==> c == self@.cost(),
            r is None ==> self@.cost() > u32::MAX,
    {
        let body = match self.body.id_cost() {
            Some(c) => c,
            None => {
                return None;
            },
        };
        let params = self.params.len();
        if params > 0xffff_ffff || locals > 0xffff_ffff {
            return None;
        }
        let items: u64 = (params as u64 + locals as u64) * FUN_ITEM_COST;
        let total: u64 = FUN_BASE_COST + items + body as u64;
        if total > 0xffff_ffff {
            None
        } else {
            Some(total as u32)
        }
    }
}

impl Ctx {
    /// Whether the context is in order and stands between two functions.
    pub open spec fn wf(&self) -> bool {
        self@.inv()
    }

    /// The number of functions lowered so far.
    pub fn fun_count(&self) -> (n: usize)
        ensures
            n == self@.funs.len(),
    {
        self.funs.len()
    }

    /// The context that every compilation starts from: it has declared the
    /// capability, the instruction set and the memory model of the module,
    /// the storage buffer, and the thread id.
    pub fn new() -> (c: Ctx)
        ensures
            c@ == CtxView::initial(),
            c.wf(),
    {
        let mut b = new_builder();

        set_version(&mut b, 1, 0);
        capability(&mut b, Capability::Shader);
        ext_inst_import(&mut b, "GLSL.std.450");
        memory_model(&mut b, AddressingModel::Logical, MemoryModel::GLSL450);

        let mut ptrs: Vec<Option<u32>> = Vec::new();
        let mut i: usize = 0;
        while i < POINTER_SLOTS
            invariant
                i <= POINTER_SLOTS,
                ptrs@.len() == i,
                forall|j: int| 0 <= j < i ==> ptrs@[j] is None,
            decreases POINTER_SLOTS - i,
        {
            ptrs.push(None);
            i += 1;
        }
        assert(ptrs@ =~= Seq::new(POINTER_SLOTS as nat, |i: int| None));

        // the context is needed for the type cache before it is complete
        let mut c = Ctx {
            tys: Types { b: None, i_32: None, i_64: None, f_32: None, f_64: None },
            ptrs,
            buffer: 0,
            thread_id: 0,
            thread_id_v3: 0,
            locals: crate::index_map::with_capacity(0),
            b,
            funs: Vec::new(),
            loops: Vec::new(),
            reserved: 0,
        };

        let t_uint = c.get(ValueType::I32);
        let t_arr = type_runtime_array(&mut c.b, t_uint);
        let members = vec![t_arr];
        assert(id_refs(members@) =~= seq![Operand::IdRef(t_arr)]);
        let t_struct = type_struct(&mut c.b, &members);
        let t_ptr = type_pointer(&mut c.b, StorageClass::Uniform, t_struct);
        let buffer = variable(&mut c.b, t_ptr, StorageClass::Uniform);

        // `BufferBlock` in class `Uniform` is what Vulkan 1.0 takes; from SPIR-V 1.3 on,
        // the class `StorageBuffer` with `Block` takes its place
        let no_params: Vec<DecorationParam> = Vec::new();
        let zero = vec![DecorationParam::Literal(0)];
        let stride = vec![DecorationParam::Literal(WORD_BYTES)];
        let invocation = vec![DecorationParam::BuiltIn(BuiltIn::GlobalInvocationId)];
        proof {
            assert(decoration_operands(no_params@) =~= Seq::empty());
            assert(decoration_operands(zero@) =~= seq![Operand::LiteralInt32(0)]);
            assert(decoration_operands(stride@) =~= seq![Operand::LiteralInt32(WORD_BYTES)]);
            assert(decoration_operands(invocation@) =~= seq![
                Operand::BuiltIn(BuiltIn::GlobalInvocationId),
            ]);
        }
        decorate(&mut c.b, t_struct, Decoration::BufferBlock, &no_params);
        // descriptor set 0, binding 0
        decorate(&mut c.b, buffer, Decoration::DescriptorSet, &zero);
        decorate(&mut c.b, buffer, Decoration::Binding, &zero);
        decorate(&mut c.b, t_arr, Decoration::ArrayStride, &stride);
        member_decorate(&mut c.b, t_struct, 0, Decoration::Offset, &zero);

        let t_uvec3 = type_vector(&mut c.b, t_uint, THREAD_ID_COMPONENTS);
        let t_uvec3_ptr = type_pointer(&mut c.b, StorageClass::Input, t_uvec3);
        let thread_id_v3 = variable(&mut c.b, t_uvec3_ptr, StorageClass::Input);
        decorate(&mut c.b, thread_id_v3, Decoration::BuiltIn, &invocation);

        c.buffer = buffer;
        c.thread_id_v3 = thread_id_v3;
        c.reserved = FIRST_FREE_ID;
        proof {
            lemma_initial();
        }
        c
    }

    /// Begins a function: declares its types, and begins the function and
    /// its first block.  Returns the id of the function and the id of its
    /// result type.
    fn begin_fun(&mut self, f: &Fun) -> (r: (u32, u32))
        requires
            old(self)@.sound(),
            old(self)@.outside(),
            old(self)@.b.next_id + f.params@.len() + 4 <= u32::MAX,
        ensures
            (final(self)@, r) == old(self)@.begin_fun(f@),
    {
        let ghost s0 = self@;
        let ret = match f.ty {
            Some(ty) => self.get(ty),
            None => type_void(&mut self.b),
        };
        let ghost s1 = self@;
        let mut param_tys: Vec<u32> = Vec::new();
        let mut i: usize = 0;
        while i < f.params.len()
            invariant
                i <= f.params.len(),
                (self@, param_tys@) == s1.scalar_types(f.params@, i as nat),
                self@.b.next_id <= s1.b.next_id + i,
                self@.b.function is None,
                self@.b.block is None,
                s1.b.next_id + f.params@.len() + 3 <= u32::MAX,
            decreases f.params.len() - i,
        {
            let id = self.get(f.params[i]);
            param_tys.push(id);
            i += 1;
        }
        let t = type_function(&mut self.b, ret, &param_tys);
        proof {
            reveal(CtxView::open_fun);
        }
        let fun = begin_function(&mut self.b, ret, Control::Unset, t).unwrap();
        begin_block(&mut self.b, None).unwrap();
        (fun, ret)
    }

    /// Declares the variable of a local.
    fn declare_local(&mut self, l: Local) -> (var: u32)
        requires
            old(self)@.inside(),
            old(self)@.b.next_id + 3 <= u32::MAX,
        ensures
            (final(self)@, var) == old(self)@.declare_local(l),
    {
        proof {
            reveal(CtxView::declare_local);
            lemma_pointer_type_steady(self@, l.ty, StorageClass::Function);
        }
        let ty = self.ptr(l.ty, StorageClass::Function);
        variable(&mut self.b, ty, StorageClass::Function)
    }

    /// Declares the variables of the locals of a function.
    fn declare_locals(&mut self, locals: &Vec<Local>) -> (vars: parity_wasm::elements::IndexMap<
        u32,
    >)
        requires
            old(self)@.sound(),
            old(self)@.inside(),
            old(self)@.b.next_id + FUN_ITEM_COST * locals@.len() <= u32::MAX,
        ensures
            (final(self)@, index_map_view(vars)) == old(self)@.declare_locals(
                locals@,
                locals@.len(),
            ),
    {
        let ghost s0 = self@;
        let capacity = if locals.len() <= MAX_CAPACITY {
            locals.len()
        } else {
            MAX_CAPACITY
        };
        let mut vars = crate::index_map::with_capacity(capacity);
        let mut i: usize = 0;
        while i < locals.len()
            invariant
                i <= locals.len(),
                (self@, index_map_view(vars)) == s0.declare_locals(locals@, i as nat),
                s0.sound(),
                s0.inside(),
                s0.b.next_id + FUN_ITEM_COST * locals@.len() <= u32::MAX,
            decreases locals.len() - i,
        {
            proof {
                lemma_declare_locals(s0, locals@, i as nat);
            }
            let l = locals[i];
            let var = self.declare_local(l);
            crate::index_map::insert(&mut vars, l.idx, var);
            i += 1;
        }
        vars
    }

    /// Declares a parameter and stores it into its variable, if it has one.
    fn declare_param(&mut self, ty: ValueType, var: Option<u32>)
        requires
            old(self)@.inside(),
            old(self)@.b.next_id + 2 <= u32::MAX,
        ensures
            final(self)@ == old(self)@.declare_param(ty, var),
    {
        proof {
            reveal(CtxView::declare_param);
        }
        let ty = self.get(ty);
        let n = function_parameter(&mut self.b, ty).unwrap();
        // a parameter without a variable is never read
        match var {
            Some(l) => {
                store(&mut self.b, l, n).unwrap();
            },
            None => {},
        }
    }

    /// Declares the parameters of a function.
    fn declare_params(&mut self, params: &Vec<ValueType>, vars: &parity_wasm::elements::IndexMap<u32>)
        requires
            old(self)@.sound(),
            old(self)@.inside(),
            old(self)@.b.next_id + 2 * params@.len() <= u32::MAX,
        ensures
            final(self)@ == old(self)@.declare_params(
                params@,
                params@.len(),
                index_map_view(*vars),
            ),
    {
        let ghost s0 = self@;
        let mut i: usize = 0;
        while i < params.len()
            invariant
                i <= params.len(),
                self@ == s0.declare_params(params@, i as nat, index_map_view(*vars)),
                s0.sound(),
                s0.inside(),
                s0.b.next_id + 2 * params@.len() <= u32::MAX,
            decreases params.len() - i,
        {
            proof {
                lemma_declare_params(s0, params@, i as nat, index_map_view(*vars));
            }
            let var = crate::index_map::get(vars, i as u32);
            self.declare_param(params[i], var);
            i += 1;
        }
    }

    /// Loads the x component of the thread id.
    fn load_thread_id(&mut self)
        requires
            old(self)@.inside(),
            old(self)@.b.next_id + 6 <= u32::MAX,
        ensures
            final(self)@ == old(self)@.load_thread_id(),
    {
        proof {
            reveal(CtxView::load_thread_id);
            lemma_scalar_type_steady(self@, ValueType::I32);
        }
        let t_uint = self.get(ValueType::I32);
        proof {
            lemma_pointer_type_steady(self@, ValueType::I32, StorageClass::Input);
        }
        let t_uint_ptr = self.ptr(ValueType::I32, StorageClass::Input);
        let const_0 = constant_u32(&mut self.b, t_uint, 0);
        let thread_id_v3 = self.thread_id_v3;
        let indexes = vec![const_0];
        proof {
            assert(seq![Operand::IdRef(thread_id_v3)] + id_refs(indexes@) =~= seq![
                Operand::IdRef(thread_id_v3),
                Operand::IdRef(const_0),
            ]);
        }
        let component = access_chain(&mut self.b, t_uint_ptr, thread_id_v3, &indexes).unwrap();
        let thread_id = load(&mut self.b, t_uint, component).unwrap();
        self.thread_id = thread_id;
    }

    /// Ends the body of a function with a return, and the function.
    fn end_fun(&mut self, valued: bool, result: u32)
        requires
            old(self)@.inside(),
        ensures
            final(self)@ == old(self)@.end_fun(valued, result),
    {
        proof {
            reveal(CtxView::end_fun);
        }
        if valued {
            ret_value(&mut self.b, result).unwrap();
        } else {
            ret(&mut self.b).unwrap();
        }
        end_function(&mut self.b).unwrap();
    }

    /// Lowers one function and adds it to the module.
    fn lower_fun(&mut self, f: &Fun) -> (r: Result<(), CompileError>)
        requires
            old(self).wf(),
        ensures
            final(self).wf(),
            r == old(self)@.judge(f@),
            r is Ok ==> final(self)@ == old(self)@.lower_fun(f@),
            r is Err ==> final(self)@ == old(self)@,
    {
        let ghost s0 = self@;
        let locals = f.body.locals();
        match f.body.check(false, self.funs.len()) {
            Err(e) => {
                return Err(e);
            },
            Ok(()) => {},
        }
        let cost = match f.cost_with(locals.len()) {
            Some(c) => c,
            None => {
                return Err(CompileError::TooManyIds);
            },
        };
        if cost > u32::MAX - self.reserved {
            return Err(CompileError::TooManyIds);
        }
        let reserved = self.reserved + cost;
        proof {
            reveal(cache_ok);
            lemma_begin_fun(s0, f@);
            lemma_enter_fun(s0, f@);
        }
        let (fun, ret) = self.begin_fun(f);
        proof {
            lemma_declare_locals(self@, locals@, locals@.len());
        }
        let vars = self.declare_locals(&locals);
        proof {
            lemma_declare_params(self@, f.params@, f.params@.len(), index_map_view(vars));
        }
        self.declare_params(&f.params, &vars);
        self.locals = vars;
        self.load_thread_id();

        let result = f.body.spv(self);
        self.end_fun(f.ty.is_some(), result);

        self.funs.push((fun, ret));
        self.reserved = reserved;
        proof {
            lemma_lower_fun(s0, f@);
        }
        Ok(())
    }

    /// Lowers the function `f` and adds it to the module, unless it is
    /// rejected: for the first reason for which its body cannot be lowered,
    /// or for want of ids.  A function that is rejected leaves the context
    /// as it was.
    pub fn fun(&mut self, f: Fun) -> (r: Result<(), CompileError>)
        requires
            old(self).wf(),
        ensures
            final(self).wf(),
            r == old(self)@.judge(f@),
            r is Ok ==> final(self)@ == old(self)@.lower_fun(f@),
            r is Err ==> final(self)@ == old(self)@,
            final(self)@.loops.len() == 0,
    {
        self.lower_fun(&f)
    }

    /// Gives up the module.  Where an entry is given, the function with that
    /// index becomes the entry point of the module.
    pub fn finish(self, entry: Option<u32>) -> (m: rspirv::dr::Module)
        requires
            self.wf(),
            entry matches Some(k) ==> k < self@.funs.len(),
        ensures
            module_view(m) == self@.finish(entry),
            module_view(m).known(),
    {
        let mut this = self;
        proof {
            lemma_finish(this@, entry);
        }
        match entry {
            Some(entry) => {
                let (entry, _) = this.funs[entry as usize];

                let id = this.thread_id_v3;
                let interface = vec![id];
                let size = vec![LOCAL_SIZE_X, LOCAL_SIZE_Y, LOCAL_SIZE_Z];
                proof {
                    assert(seq![
                        Operand::ExecutionModel(ExecutionModel::GLCompute),
                        Operand::IdRef(entry),
                        Operand::LiteralString("main"@),
                    ] + id_refs(interface@) =~= seq![
                        Operand::ExecutionModel(ExecutionModel::GLCompute),
                        Operand::IdRef(entry),
                        Operand::LiteralString(entry_name()),
                        Operand::IdRef(id),
                    ]);
                    assert(seq![
                        Operand::IdRef(entry),
                        Operand::ExecutionMode(ExecutionMode::LocalSize),
                    ] + literals(size@) =~= seq![
                        Operand::IdRef(entry),
                        Operand::ExecutionMode(ExecutionMode::LocalSize),
                        Operand::LiteralInt32(LOCAL_SIZE_X),
                        Operand::LiteralInt32(LOCAL_SIZE_Y),
                        Operand::LiteralInt32(LOCAL_SIZE_Z),
                    ]);
                }
                entry_point(&mut this.b, ExecutionModel::GLCompute, entry, "main", &interface);
                execution_mode(&mut this.b, entry, ExecutionMode::LocalSize, &size);
            },
            None => {},
        }
        into_module(this.b)
    }
}

/// The words that a module is encoded to: its header, if it has one, and
/// its instructions.
pub open spec fn module_words(m: ModuleView) -> Seq<u32> {
    m.header_words() + instruction_words(m)
}

/// The bytes of a module: its words, each with its least significant byte
/// first.
pub fn module_bytes(m: rspirv::dr::Module) -> (bytes: Vec<u8>)
    requires
        module_view(m).known(),
    ensures
        bytes@ == le_bytes(module_words(module_view(m))),
{
    let spv = assemble(&m);
    words_to_bytes(&spv)
}

/// What compiling a list of functions comes to: each function is lowered in
/// turn, from the context that every compilation starts from, up to the
/// first one that is rejected.
pub open spec fn lower_all(funs: Seq<FunView>, n: nat) -> Result<CtxView, CompileError>
    decreases n,
{
    if n == 0 || n > funs.len() {
        Ok(CtxView::initial())
    } else {
        match lower_all(funs, (n - 1) as nat) {
            Err(e) => Err(e),
            Ok(s) => match s.judge(funs[n - 1]) {
                Err(e) => Err(e),
                Ok(()) => Ok(s.lower_fun(funs[n - 1])),
            },
        }
    }
}

/// The bytes that a list of functions is compiled to, or the reason for
/// which it is rejected: for the first reason for which a function is, or
/// else because the entry is no function of the list.
pub open spec fn compiled(funs: Seq<FunView>, entry: Option<u32>) -> Result<
    Seq<u8>,
    CompileError,
> {
    match lower_all(funs, funs.len()) {
        Err(e) => Err(e),
        Ok(s) => if entry matches Some(k) && k >= funs.len() {
            Err(CompileError::UnknownFunction)
        } else {
            Ok(le_bytes(module_words(s.finish(entry))))
        },
    }
}

/// Every function that was lowered is remembered, and the context is in
/// order.
pub proof fn lemma_lower_all(funs: Seq<FunView>, n: nat)
    requires
        n <= funs.len(),
    ensures
        lower_all(funs, n) matches Ok(s) ==> s.inv() && s.funs.len() == n,
    decreases n,
{
    if n == 0 {
        lemma_initial();
    } else {
        lemma_lower_all(funs, (n - 1) as nat);
        match lower_all(funs, (n - 1) as nat) {
            Err(e) => {},
            Ok(s) => {
                if s.judge(funs[n - 1]) is Ok {
                    lemma_lower_fun(s, funs[n - 1]);
                }
            },
        }
    }
}

/// Compiles a list of functions to the bytes of a SPIR-V module.  The
/// function with the index `entry`, where one is given, becomes the entry
/// point.  Nothing is given out if a function is rejected.
pub fn compile(funs: &Vec<Fun>, entry: Option<u32>) -> (r: Result<Vec<u8>, CompileError>)
    ensures
        r matches Ok(bytes) ==> compiled(fun_views(funs@), entry) == Ok::<Seq<u8>, CompileError>(
            bytes@,
        ),
        r matches Err(e) ==> compiled(fun_views(funs@), entry) == Err::<Seq<u8>, CompileError>(e),
{
    let ghost views = fun_views(funs@);
    let mut ctx = Ctx::new();
    let mut i: usize = 0;
    while i < funs.len()
        invariant
            i <= funs.len(),
            ctx.wf(),
            views == fun_views(funs@),
            lower_all(views, i as nat) == Ok::<CtxView, CompileError>(ctx@),
        decreases funs.len() - i,
    {
        match ctx.lower_fun(&funs[i]) {
            Err(e) => {
                proof {
                    lemma_lower_all_rejected(views, (i + 1) as nat, views.len());
                }
                return Err(e);
            },
            Ok(()) => {},
        }
        i += 1;
    }
    proof {
        lemma_lower_all(views, views.len());
    }
    match entry {
        Some(k) => {
            if k as usize >= funs.len() {
                return Err(CompileError::UnknownFunction);
            }
        },
        None => {},
    }
    let m = ctx.finish(entry);
    Ok(module_bytes(m))
}

/// The values of a list of functions.
pub open spec fn fun_views(funs: Seq<Fun>) -> Seq<FunView> {
    funs.map_values(|f: Fun| f@)
}

/// A list of functions of which one is rejected is rejected for the same
/// reason, however many functions follow.
pub proof fn lemma_lower_all_rejected(funs: Seq<FunView>, m: nat, n: nat)
    requires
        m <= n <= funs.len(),
        lower_all(funs, m) is Err,
    ensures
        lower_all(funs, n) == lower_all(funs, m),
    decreases n - m,
{
    if m < n {
        lemma_lower_all_rejected(funs, m, (n - 1) as nat);
    }
}

} // verus!
