use wasm_vk::bytes::words_to_bytes;
use wasm_vk::error::CompileError;
use wasm_vk::ir::{Base, Const, Fun, Global, ICompOp, INumOp, Local, ValueType, Width};

fn i32c(v: i32) -> Base {
    Base::Const(Const::I32(v))
}

fn seq(a: Base, b: Base) -> Base {
    Base::Sequence(Box::new(a), Box::new(b))
}

fn get(idx: u32, ty: ValueType) -> Base {
    Base::GetLocal(Local { idx, ty })
}

fn set(idx: u32, ty: ValueType, v: Base) -> Base {
    Base::SetLocal(Local { idx, ty }, Box::new(v))
}

fn indices(locals: &[Local]) -> Vec<u32> {
    locals.iter().map(|l| l.idx).collect()
}

#[test]
fn locals_are_collected_once_in_the_order_of_reference() {
    assert!(Base::Nop.locals().is_empty());
    assert!(i32c(1).locals().is_empty());

    let body = seq(
        set(4, ValueType::I32, get(2, ValueType::F32)),
        seq(
            Base::INumOp(
                Width::W32,
                INumOp::Add,
                Box::new(get(9, ValueType::I64)),
                Box::new(get(2, ValueType::F32)),
            ),
            get(4, ValueType::I32),
        ),
    );
    let locals = body.locals();
    assert_eq!(indices(&locals), vec![4, 2, 9]);
    assert_eq!(locals[0], Local { idx: 4, ty: ValueType::I32 });
    assert_eq!(locals[1], Local { idx: 2, ty: ValueType::F32 });
    assert_eq!(locals[2], Local { idx: 9, ty: ValueType::I64 });
}

#[test]
fn locals_are_found_in_every_kind_of_node() {
    let body = Base::Loop(Box::new(Base::If {
        cond: Box::new(Base::ICompOp(
            Width::W32,
            ICompOp::Eq,
            Box::new(get(0, ValueType::I32)),
            Box::new(get(1, ValueType::I32)),
        )),
        t: Box::new(Base::Store(
            ValueType::I32,
            Box::new(get(2, ValueType::I32)),
            Box::new(get(3, ValueType::I32)),
        )),
        f: Box::new(Base::Call(
            0,
            vec![
                Base::Load(ValueType::I32, Box::new(get(4, ValueType::I32))),
                get(5, ValueType::I32),
                get(0, ValueType::I32),
            ],
        )),
    }));
    assert_eq!(indices(&body.locals()), vec![0, 1, 2, 3, 4, 5]);
}

#[test]
fn a_local_keeps_the_type_of_its_first_reference() {
    let body = seq(get(1, ValueType::F64), get(1, ValueType::I32));
    assert_eq!(body.locals(), vec![Local { idx: 1, ty: ValueType::F64 }]);
}

#[test]
fn id_cost_of_each_kind_of_node() {
    let leaf = || i32c(0);
    assert_eq!(Base::Nop.id_cost(), Some(0));
    assert_eq!(leaf().id_cost(), Some(2));
    assert_eq!(get(0, ValueType::I32).id_cost(), Some(2));
    assert_eq!(set(0, ValueType::I32, leaf()).id_cost(), Some(2));
    assert_eq!(
        Base::GetGlobal(Global { idx: 0, ty: ValueType::I32, mutable: false }).id_cost(),
        Some(0)
    );
    assert_eq!(
        Base::INumOp(Width::W32, INumOp::Add, Box::new(leaf()), Box::new(leaf())).id_cost(),
        Some(6)
    );
    assert_eq!(
        Base::ICompOp(Width::W32, ICompOp::Eq, Box::new(leaf()), Box::new(leaf())).id_cost(),
        Some(10)
    );
    assert_eq!(seq(leaf(), leaf()).id_cost(), Some(4));
    assert_eq!(Base::Load(ValueType::I32, Box::new(leaf())).id_cost(), Some(11));
    assert_eq!(
        Base::Store(ValueType::I32, Box::new(leaf()), Box::new(leaf())).id_cost(),
        Some(11)
    );
    assert_eq!(
        Base::If { cond: Box::new(leaf()), t: Box::new(leaf()), f: Box::new(Base::Nop) }.id_cost(),
        Some(11)
    );
    assert_eq!(Base::Loop(Box::new(leaf())).id_cost(), Some(6));
    assert_eq!(Base::Continue.id_cost(), Some(1));
    assert_eq!(Base::Break.id_cost(), Some(1));
    assert_eq!(Base::Return.id_cost(), Some(1));
    assert_eq!(Base::Call(0, vec![]).id_cost(), Some(1));
    assert_eq!(Base::Call(0, vec![leaf(), leaf(), Base::Nop]).id_cost(), Some(5));
}

#[test]
fn id_cost_of_a_function() {
    // 10, and 3 for each parameter and each local, and the cost of the body
    let f = Fun { params: vec![], ty: None, body: Base::Nop };
    assert_eq!(f.id_cost(), Some(10));
    let body = seq(get(0, ValueType::I32), get(7, ValueType::I32));
    assert_eq!(body.locals().len(), 2);
    let f = Fun { params: vec![ValueType::I32, ValueType::I32], ty: Some(ValueType::I32), body };
    assert_eq!(f.id_cost(), Some(10 + 3 * 4 + 4));
}

#[test]
fn id_cost_is_a_bound_on_the_ids_taken() {
    let body = seq(
        Base::Store(
            ValueType::I32,
            Box::new(get(0, ValueType::I32)),
            Box::new(Base::Load(ValueType::F32, Box::new(i32c(4)))),
        ),
        Base::Loop(Box::new(Base::If {
            cond: Box::new(Base::ICompOp(
                Width::W64,
                ICompOp::LtS,
                Box::new(get(1, ValueType::I64)),
                Box::new(i32c(3)),
            )),
            t: Box::new(Base::Continue),
            f: Box::new(Base::Break),
        })),
    );
    let f = Fun { params: vec![ValueType::I32], ty: None, body };
    let cost = f.id_cost().unwrap();
    let mut ctx = wasm_vk::spirv::Ctx::new();
    let before = ctx.finish(None).header.unwrap().bound;
    ctx = wasm_vk::spirv::Ctx::new();
    assert_eq!(ctx.fun(f), Ok(()));
    let after = ctx.finish(None).header.unwrap().bound;
    assert!(after > before);
    assert!(after - before <= cost);
}

#[test]
fn check_finds_the_first_error() {
    assert_eq!(Base::Nop.check(false, 0), Ok(()));
    assert_eq!(Base::Break.check(false, 0), Err(CompileError::BranchOutsideLoop));
    assert_eq!(Base::Break.check(true, 0), Ok(()));
    assert_eq!(Base::Continue.check(false, 3), Err(CompileError::BranchOutsideLoop));
    assert_eq!(Base::Call(2, vec![]).check(false, 2), Err(CompileError::UnknownFunction));
    assert_eq!(Base::Call(2, vec![]).check(false, 3), Ok(()));
    assert_eq!(
        Base::Call(0, vec![Base::Nop, Base::Break, Base::Const(Const::F64(1))]).check(false, 1),
        Err(CompileError::BranchOutsideLoop)
    );
    assert_eq!(
        Base::Const(Const::F64(1)).check(true, 1),
        Err(CompileError::UnsupportedInstruction)
    );
    assert_eq!(
        Base::GetGlobal(Global { idx: 0, ty: ValueType::I32, mutable: true }).check(true, 1),
        Err(CompileError::UnsupportedGlobal)
    );
}

#[test]
fn thread_id_global_is_recognised() {
    assert!(Global { idx: 0, ty: ValueType::I32, mutable: false }.stands_for_thread_id());
    assert!(!Global { idx: 1, ty: ValueType::I32, mutable: false }.stands_for_thread_id());
    assert!(!Global { idx: 0, ty: ValueType::F32, mutable: false }.stands_for_thread_id());
    assert!(!Global { idx: 0, ty: ValueType::I32, mutable: true }.stands_for_thread_id());
}

#[test]
fn words_are_written_least_significant_byte_first() {
    assert_eq!(words_to_bytes(&vec![]), Vec::<u8>::new());
    assert_eq!(words_to_bytes(&vec![0x0723_0203]), vec![0x03, 0x02, 0x23, 0x07]);
    assert_eq!(
        words_to_bytes(&vec![1, 0x0102_0304, u32::MAX, 0x8000_0000]),
        vec![1, 0, 0, 0, 4, 3, 2, 1, 255, 255, 255, 255, 0, 0, 0, 0x80]
    );
}
