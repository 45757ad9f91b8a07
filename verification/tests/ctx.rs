use chip8::ctx::{Ctx, CtxError, NIL_USER_ID};

#[test]
fn root_ctx_is_the_nil_user() {
    let ctx = Ctx::root_ctx();
    assert_eq!(ctx.user_id(), NIL_USER_ID);
    assert_eq!(ctx.user_id(), 0);
    assert_eq!(ctx.conv_id(), None);
}

#[test]
fn new_refuses_the_nil_user() {
    assert_eq!(Ctx::new(0).err(), Some(CtxError::CtxCannotNewRootCtx));
}

#[test]
fn new_takes_any_other_user() {
    let ctx = Ctx::new(7).unwrap();
    assert_eq!(ctx.user_id(), 7);
    assert_eq!(ctx.conv_id(), None);
    let ctx = Ctx::new(u128::MAX).unwrap();
    assert_eq!(ctx.user_id(), u128::MAX);
}

#[test]
fn add_conv_id_keeps_the_user() {
    let ctx = Ctx::new(42).unwrap();
    let in_conv = ctx.add_conv_id(-5);
    assert_eq!(in_conv.user_id(), 42);
    assert_eq!(in_conv.conv_id(), Some(-5));
    assert_eq!(ctx.conv_id(), None);
}
