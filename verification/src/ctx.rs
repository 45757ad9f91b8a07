//! The context in which a request is made: who makes it, and within which
//! conversation.

use vstd::prelude::*;

verus! {

/// The identifier that stands for nobody: all 128 bits zero.
pub const NIL_USER_ID: u128 = 0;

/// Why a context could not be made.
#[derive(Clone, Copy, Debug, PartialEq, Eq, Structural)]
pub enum CtxError {
    /// Only `Ctx::root_ctx` makes the context of the nil user.
    CtxCannotNewRootCtx,
}

/// A request context. The user is known by the 128 bits of its identifier.
#[derive(Clone, Copy, Debug)]
pub struct Ctx {
    user_id: u128,
    conv_id: Option<i64>,
}

impl Ctx {
    /// The user of the context.
    pub closed spec fn spec_user_id(&self) -> u128 {
        self.user_id
    }

    /// The conversation of the context, if it has one.
    pub closed spec fn spec_conv_id(&self) -> Option<i64> {
        self.conv_id
    }

    /// The context of the nil user, with no conversation.
    pub fn root_ctx() -> (ctx: Self)
        ensures
            ctx.spec_user_id() == NIL_USER_ID,
            ctx.spec_conv_id() is None,
    {
        Ctx { user_id: NIL_USER_ID, conv_id: None }
    }

    /// The context of `user_id` with no conversation; the nil user is
    /// refused.
    pub fn new(user_id: u128) -> (res: Result<Self, CtxError>)
        ensures
            user_id == NIL_USER_ID ==> (res matches Err(e) && e == CtxError::CtxCannotNewRootCtx),
            user_id != NIL_USER_ID ==> (res matches Ok(ctx) && ctx.spec_user_id() == user_id
                && ctx.spec_conv_id() is None),
    {
        if user_id == NIL_USER_ID {
            Err(CtxError::CtxCannotNewRootCtx)
        } else {
            Ok(Self { user_id, conv_id: None })
        }
    }

    /// The same context within conversation `conv_id`.
    pub fn add_conv_id(&self, conv_id: i64) -> (ctx: Ctx)
        ensures
            ctx.spec_user_id() == self.spec_user_id(),
            ctx.spec_conv_id() == Some(conv_id),
    {
        Ctx { user_id: self.user_id, conv_id: Some(conv_id) }
    }

    /// The user of the context.
    pub fn user_id(&self) -> (user_id: u128)
        ensures
            user_id == self.spec_user_id(),
    {
        self.user_id
    }

    /// The conversation of the context, if it has one.
    pub fn conv_id(&self) -> (conv_id: Option<i64>)
        ensures
            conv_id == self.spec_conv_id(),
    {
        self.conv_id
    }
}

} // verus!
