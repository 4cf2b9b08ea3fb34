use rspirv::binary::Disassemble;
use wasm_vk::error::CompileError;
use wasm_vk::ir::{Base, Const, Fun, Global, INumOp, Local, ValueType, Width};
use wasm_vk::spirv::{module_bytes, Ctx};

fn void_fun(body: Base) -> Fun {
    Fun { params: vec![], ty: None, body }
}

fn i32c(v: i32) -> Base {
    Base::Const(Const::I32(v))
}

fn seq(a: Base, b: Base) -> Base {
    Base::Sequence(Box::new(a), Box::new(b))
}

fn rejection(body: Base) -> Option<CompileError> {
    let mut ctx = Ctx::new();
    ctx.fun(void_fun(body)).err()
}

#[test]
fn constants_of_64_bits_are_unsupported() {
    assert_eq!(rejection(Base::Const(Const::I64(0))), Some(CompileError::UnsupportedInstruction));
    assert_eq!(rejection(Base::Const(Const::F64(0))), Some(CompileError::UnsupportedInstruction));
    assert_eq!(rejection(Base::Const(Const::I32(0))), None);
    assert_eq!(rejection(Base::Const(Const::F32(0))), None);
    // wherever they stand
    let nested = Base::Loop(Box::new(Base::If {
        cond: Box::new(i32c(1)),
        t: Box::new(Base::Nop),
        f: Box::new(Base::Store(
            ValueType::I32,
            Box::new(i32c(0)),
            Box::new(Base::Const(Const::I64(7))),
        )),
    }));
    assert_eq!(rejection(nested), Some(CompileError::UnsupportedInstruction));
}

#[test]
fn rejected_function_leaves_no_trace() {
    let fresh = module_bytes(Ctx::new().finish(None));

    let mut ctx = Ctx::new();
    let body = seq(
        Base::Store(ValueType::F64, Box::new(i32c(0)), Box::new(i32c(1))),
        Base::Const(Const::I64(0)),
    );
    assert_eq!(ctx.fun(void_fun(body)), Err(CompileError::UnsupportedInstruction));
    assert_eq!(ctx.fun_count(), 0);
    assert_eq!(module_bytes(ctx.finish(None)), fresh);
}

#[test]
fn context_works_on_after_a_rejection() {
    let kernel = || void_fun(Base::Store(ValueType::I32, Box::new(i32c(0)), Box::new(i32c(1))));
    let mut clean = Ctx::new();
    assert_eq!(clean.fun(kernel()), Ok(()));
    let expected = clean.finish(Some(0)).disassemble();

    let mut ctx = Ctx::new();
    assert!(ctx.fun(void_fun(Base::Break)).is_err());
    assert_eq!(ctx.fun(kernel()), Ok(()));
    assert_eq!(ctx.finish(Some(0)).disassemble(), expected);
}

#[test]
fn only_the_thread_id_global_is_supported() {
    let global = |idx: u32, ty: ValueType, mutable: bool| Base::GetGlobal(Global { idx, ty, mutable });
    assert_eq!(rejection(global(0, ValueType::I32, false)), None);
    assert_eq!(rejection(global(1, ValueType::I32, false)), Some(CompileError::UnsupportedGlobal));
    assert_eq!(rejection(global(0, ValueType::I32, true)), Some(CompileError::UnsupportedGlobal));
    assert_eq!(rejection(global(0, ValueType::I64, false)), Some(CompileError::UnsupportedGlobal));
    assert_eq!(rejection(global(0, ValueType::F32, false)), Some(CompileError::UnsupportedGlobal));
    assert_eq!(rejection(global(0, ValueType::F64, false)), Some(CompileError::UnsupportedGlobal));
}

#[test]
fn break_and_continue_need_a_loop() {
    assert_eq!(rejection(Base::Break), Some(CompileError::BranchOutsideLoop));
    assert_eq!(rejection(Base::Continue), Some(CompileError::BranchOutsideLoop));
    assert_eq!(rejection(Base::Loop(Box::new(Base::Break))), None);
    assert_eq!(rejection(Base::Loop(Box::new(Base::Continue))), None);
    // a selection is no loop
    let selected = Base::If { cond: Box::new(i32c(1)), t: Box::new(Base::Break), f: Box::new(Base::Nop) };
    assert_eq!(rejection(selected), Some(CompileError::BranchOutsideLoop));
    // a loop encloses what is nested in it, however deep
    let nested = Base::Loop(Box::new(Base::If {
        cond: Box::new(i32c(1)),
        t: Box::new(seq(Base::Nop, Base::Break)),
        f: Box::new(Base::Continue),
    }));
    assert_eq!(rejection(nested), None);
    assert_eq!(rejection(Base::Return), None);
}

#[test]
fn no_loop_is_entered_after_a_loop() {
    // after the loop
    let after = seq(Base::Loop(Box::new(Base::Break)), Base::Break);
    assert_eq!(rejection(after), Some(CompileError::BranchOutsideLoop));
    // in the next function
    let mut ctx = Ctx::new();
    let loops = Base::Loop(Box::new(Base::Loop(Box::new(Base::Loop(Box::new(Base::Continue))))));
    assert_eq!(ctx.fun(void_fun(loops)), Ok(()));
    assert_eq!(ctx.fun(void_fun(Base::Break)), Err(CompileError::BranchOutsideLoop));
    assert_eq!(ctx.fun(void_fun(Base::Continue)), Err(CompileError::BranchOutsideLoop));
}

#[test]
fn calls_need_a_function_that_was_lowered() {
    let mut ctx = Ctx::new();
    assert_eq!(ctx.fun(void_fun(Base::Call(0, vec![]))), Err(CompileError::UnknownFunction));
    assert_eq!(ctx.fun(void_fun(Base::Nop)), Ok(()));
    assert_eq!(ctx.fun(void_fun(Base::Call(0, vec![]))), Ok(()));
    assert_eq!(ctx.fun(void_fun(Base::Call(1, vec![]))), Ok(()));
    // a function cannot call itself, nor one that follows it
    assert_eq!(ctx.fun(void_fun(Base::Call(3, vec![]))), Err(CompileError::UnknownFunction));
    assert_eq!(ctx.fun(void_fun(Base::Call(u32::MAX, vec![]))), Err(CompileError::UnknownFunction));
    assert_eq!(ctx.fun_count(), 3);
}

#[test]
fn first_error_in_the_order_of_evaluation_is_reported() {
    let bad_const = || Base::Const(Const::I64(0));
    let bad_global = || Base::GetGlobal(Global { idx: 5, ty: ValueType::I32, mutable: false });
    let pair = |a: Base, b: Base| Base::INumOp(Width::W32, INumOp::Add, Box::new(a), Box::new(b));

    assert_eq!(rejection(pair(bad_const(), bad_global())), Some(CompileError::UnsupportedInstruction));
    assert_eq!(rejection(pair(bad_global(), bad_const())), Some(CompileError::UnsupportedGlobal));
    assert_eq!(rejection(seq(Base::Break, bad_const())), Some(CompileError::BranchOutsideLoop));
    assert_eq!(
        rejection(Base::Store(ValueType::I32, Box::new(bad_global()), Box::new(bad_const()))),
        Some(CompileError::UnsupportedGlobal)
    );
    assert_eq!(
        rejection(Base::If {
            cond: Box::new(i32c(0)),
            t: Box::new(bad_const()),
            f: Box::new(bad_global()),
        }),
        Some(CompileError::UnsupportedInstruction)
    );
    // the function of a call is looked up before its arguments are lowered
    assert_eq!(
        rejection(Base::Call(0, vec![bad_const()])),
        Some(CompileError::UnknownFunction)
    );
    // arguments from left to right
    let mut ctx = Ctx::new();
    assert_eq!(ctx.fun(void_fun(Base::Nop)), Ok(()));
    assert_eq!(
        ctx.fun(void_fun(Base::Call(0, vec![i32c(1), bad_global(), bad_const()]))),
        Err(CompileError::UnsupportedGlobal)
    );
    assert_eq!(
        ctx.fun(void_fun(Base::SetLocal(
            Local { idx: 0, ty: ValueType::I32 },
            Box::new(Base::Load(ValueType::I32, Box::new(bad_const()))),
        ))),
        Err(CompileError::UnsupportedInstruction)
    );
}

#[test]
fn too_many_ids_are_rejected() {
    // every parameter is counted with three ids
    let params = vec![ValueType::I32; 1_431_655_762];
    let f = Fun { params, ty: None, body: Base::Nop };
    let mut ctx = Ctx::new();
    assert_eq!(ctx.fun(f), Err(CompileError::TooManyIds));
    assert_eq!(ctx.fun_count(), 0);
    assert_eq!(ctx.fun(void_fun(Base::Nop)), Ok(()));
}

#[test]
fn errors_describe_themselves() {
    let all = vec![
        CompileError::UnsupportedInstruction,
        CompileError::UnsupportedGlobal,
        CompileError::MultiLevelBranch,
        CompileError::BranchOutsideLoop,
        CompileError::UnknownFunction,
        CompileError::TooManyIds,
    ];
    let mut messages: Vec<&str> = all.iter().map(|e| e.message()).collect();
    assert_eq!(messages[0], "unsupported instruction");
    assert_eq!(messages[1], "unsupported global");
    messages.sort();
    messages.dedup();
    assert_eq!(messages.len(), 6);
}
