//! Whom the bot trusts: a few operations do more for users of a role
//! above that of a guest.

use crate::bot::db::{Uid, User};
use crate::bot::{is_trusted_role, trusted_role};
use vstd::prelude::*;

verus! {

/// What is known of the trust in a call before the owner of the code is
/// looked up.
#[derive(Clone, Copy, Debug)]
pub struct PendingTrustCtx {
    tag_owner: Option<Uid>,
    msg_user_trusted: bool,
}

/// Whether a call is trusted.
#[derive(Clone, Copy, Debug, Default, PartialEq, Eq, Structural)]
pub struct TrustCtx {
    pub trusted: bool,
}

impl PendingTrustCtx {
    /// The user to whom the code belongs, if it is not the author of the
    /// message.
    pub closed spec fn owner(&self) -> Option<Uid> {
        self.tag_owner
    }

    /// Whether the author of the message holds a role above that of a
    /// guest.
    pub closed spec fn author_trusted(&self) -> bool {
        self.msg_user_trusted
    }

    /// The trust in a call that `msg_user` asked for, running code that
    /// belongs to `tag_owner` if that is somebody else.
    pub fn new(msg_user: &User, tag_owner: Option<Uid>) -> (r: PendingTrustCtx)
        ensures
            r.owner() == tag_owner,
            r.author_trusted() == trusted_role(msg_user.role@),
    {
        PendingTrustCtx {
            tag_owner,
            msg_user_trusted: is_trusted_role(msg_user.role.as_str()),
        }
    }

    /// The user who has to be looked up before the trust is known.
    pub fn needs_owner(&self) -> (r: Option<Uid>)
        ensures
            r == self.owner(),
    {
        self.tag_owner
    }

    /// The trust in the call. Code that belongs to somebody else runs
    /// with the trust in its owner, `owner` being what the store knows of
    /// them, and with none if the store knows nothing. Code of the author
    /// runs with the trust in the author.
    pub fn resolve(self, owner: Option<&User>) -> (r: TrustCtx)
        ensures
            r.trusted == if self.owner() is Some {
                owner matches Some(user) && trusted_role(user.role@)
            } else {
                self.author_trusted()
            },
    {
        let trusted = match self.tag_owner {
            Some(_) => match owner {
                Some(user) => is_trusted_role(user.role.as_str()),
                None => false,
            },
            None => self.msg_user_trusted,
        };
        TrustCtx { trusted }
    }
}

/// Where the trust in the running call can be asked for.
pub trait Trust {
    /// The trust in the call that is running, if one is.
    spec fn context(&self) -> Option<TrustCtx>;

    /// The trust in the call that is running, if one is.
    fn find_trust_context(&self) -> (r: Option<TrustCtx>)
        ensures
            r == self.context(),
    ;

    /// Whether the call that is running is trusted. Where no call is
    /// running, nothing is.
    fn is_in_trusted_context(&self) -> (r: bool)
        ensures
            r == (self.context() matches Some(ctx) && ctx.trusted),
    ;
}

/// The calls that are running, innermost last, each with the trust in it.
pub struct TrustScope {
    stack: Vec<TrustCtx>,
}

impl TrustScope {
    /// The trust in each running call, innermost last.
    pub closed spec fn calls(&self) -> Seq<TrustCtx> {
        self.stack@
    }

    /// The trust in the innermost call.
    pub open spec fn current(&self) -> Option<TrustCtx> {
        if self.calls().len() > 0 {
            Some(self.calls().last())
        } else {
            None
        }
    }

    /// No call is running.
    pub fn new() -> (r: TrustScope)
        ensures
            r.calls() == Seq::<TrustCtx>::empty(),
    {
        TrustScope { stack: Vec::new() }
    }

    /// A call begins.
    pub fn enter(&mut self, ctx: TrustCtx)
        ensures
            final(self).calls() == old(self).calls().push(ctx),
    {
        self.stack.push(ctx);
    }

    /// The innermost call ends.
    pub fn leave(&mut self) -> (r: Option<TrustCtx>)
        ensures
            r == old(self).current(),
            final(self).calls() == if old(self).calls().len() > 0 {
                old(self).calls().drop_last()
            } else {
                old(self).calls()
            },
    {
        self.stack.pop()
    }
}

impl Trust for TrustScope {
    open spec fn context(&self) -> Option<TrustCtx> {
        self.current()
    }

    fn find_trust_context(&self) -> (r: Option<TrustCtx>) {
        if self.stack.len() > 0 {
            Some(self.stack[self.stack.len() - 1])
        } else {
            None
        }
    }

    fn is_in_trusted_context(&self) -> (r: bool) {
        match self.find_trust_context() {
            Some(ctx) => ctx.trusted,
            None => false,
        }
    }
}

} // verus!
