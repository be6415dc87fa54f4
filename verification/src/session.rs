//! The session context: who is signed in, and which transfer is staged.

use vstd::prelude::*;

verus! {

/// What one session holds between screens: at most one authenticated account
/// id and at most one staged transfer, kept as a receiver id and an amount.
pub struct SessionContext {
    pub user_id: Option<String>,
    pub receiver_id: Option<String>,
    pub t_amount: Option<i64>,
}

/// The mathematical content of a `SessionContext`.
pub struct SessionView {
    pub user_id: Option<Seq<char>>,
    pub receiver_id: Option<Seq<char>>,
    pub t_amount: Option<int>,
}

/// The characters of an optional string.
pub open spec fn opt_text(s: Option<String>) -> Option<Seq<char>> {
    match s {
        Some(t) => Some(t@),
        None => None,
    }
}

/// An optional machine integer as a mathematical one.
pub open spec fn opt_int(a: Option<i64>) -> Option<int> {
    match a {
        Some(v) => Some(v as int),
        None => None,
    }
}

impl View for SessionContext {
    type V = SessionView;

    open spec fn view(&self) -> SessionView {
        SessionView {
            user_id: opt_text(self.user_id),
            receiver_id: opt_text(self.receiver_id),
            t_amount: opt_int(self.t_amount),
        }
    }
}

impl SessionContext {
    /// A session in which nobody is signed in and nothing is staged.
    pub fn new() -> (ctx: SessionContext)
        ensures
            ctx@.user_id is None,
            ctx@.receiver_id is None,
            ctx@.t_amount is None,
    {
        SessionContext { user_id: None, receiver_id: None, t_amount: None }
    }

    /// A transfer is staged when both its receiver and its amount are set.
    pub open spec fn has_staged(&self) -> bool {
        self@.receiver_id is Some && self@.t_amount is Some
    }

    /// Stages a transfer, replacing whatever was staged before.
    pub fn stage_transfer(&mut self, receiver_id: String, amount: i64)
        ensures
            final(self)@.user_id == old(self)@.user_id,
            final(self)@.receiver_id == Some(receiver_id@),
            final(self)@.t_amount == Some(amount as int),
    {
        self.receiver_id = Some(receiver_id);
        self.t_amount = Some(amount);
    }

    /// Discards the staged transfer and leaves the signed-in account alone.
    pub fn clear_staged(&mut self)
        ensures
            final(self)@.user_id == old(self)@.user_id,
            final(self)@.receiver_id is None,
            final(self)@.t_amount is None,
    {
        self.receiver_id = None;
        self.t_amount = None;
    }
}

/// Records the amount of the staged transfer.
pub fn set_t_amount(ctx: &mut SessionContext, amount: i64)
    ensures
        final(ctx)@.t_amount == Some(amount as int),
        final(ctx)@.user_id == old(ctx)@.user_id,
        final(ctx)@.receiver_id == old(ctx)@.receiver_id,
{
    ctx.t_amount = Some(amount);
}

/// The amount of the staged transfer, if one was recorded.
pub fn get_t_amount(ctx: &SessionContext) -> (amount: Option<i64>)
    ensures
        opt_int(amount) == ctx@.t_amount,
{
    ctx.t_amount
}

/// Records the authenticated account.
pub fn set_user_id(ctx: &mut SessionContext, id: String)
    ensures
        final(ctx)@.user_id == Some(id@),
        final(ctx)@.receiver_id == old(ctx)@.receiver_id,
        final(ctx)@.t_amount == old(ctx)@.t_amount,
{
    ctx.user_id = Some(id);
}

/// Records the receiver of the staged transfer.
pub fn set_receiver_id(ctx: &mut SessionContext, id: String)
    ensures
        final(ctx)@.receiver_id == Some(id@),
        final(ctx)@.user_id == old(ctx)@.user_id,
        final(ctx)@.t_amount == old(ctx)@.t_amount,
{
    ctx.receiver_id = Some(id);
}

/// A copy of the receiver of the staged transfer, if one was recorded.
pub fn get_receiver_id(ctx: &SessionContext) -> (id: Option<String>)
    ensures
        opt_text(id) == ctx@.receiver_id,
{
    match &ctx.receiver_id {
        Some(s) => Some(s.clone()),
        None => None,
    }
}

/// A copy of the authenticated account id, if somebody is signed in.
pub fn get_user_id(ctx: &SessionContext) -> (id: Option<String>)
    ensures
        opt_text(id) == ctx@.user_id,
{
    match &ctx.user_id {
        Some(s) => Some(s.clone()),
        None => None,
    }
}

/// The id that stands for the account while nobody is signed in.
pub const NO_USER: &'static str = "NULL";

/// The id to act under: the authenticated account's, or `NO_USER`.
pub fn user_id_or_none(ctx: &SessionContext) -> (id: String)
    ensures
        id@ == (match ctx@.user_id {
            Some(user) => user,
            None => NO_USER@,
        }),
{
    match &ctx.user_id {
        Some(s) => s.clone(),
        None => String::from_str(NO_USER),
    }
}

} // verus!
