//! The session that a command runs in, and everything a command does through
//! it: replies, keys, nested calls, the log.
pub mod allocator;
pub mod call;
pub mod command;
pub mod expiry;
pub mod integer;
pub mod key;
pub mod laws;
pub mod ledger;
mod native;
pub mod raw;
pub mod reply;
pub mod string;
pub mod text;

pub use crate::redis::allocator::RedisAlloc;
pub use crate::redis::call::RedisCallReply;
pub use crate::redis::command::Command;
pub use crate::redis::key::KeyMode;
pub use crate::redis::key::RedisKey;
pub use crate::redis::key::RedisKeyWritable;
pub use crate::redis::string::RedisString;

use crate::error::RModError;
use crate::error::RModErrorView;
use crate::redis::ledger::lemma_outstanding_push;
use crate::redis::ledger::outstanding;
use crate::redis::ledger::Ledger;
use crate::redis::ledger::Resource;
use crate::redis::raw::Exchange;
use crate::redis::raw::Host;
use crate::redis::raw::RedisModuleCtx;
use crate::redis::raw::Status;
use vstd::prelude::*;

verus! {

/// `LogLevel` is a level of logging to be specified with a log directive.
#[derive(Clone, Copy, Debug)]
pub enum LogLevel {
    Debug,
    Notice,
    Verbose,
    Warning,
}

/// `Reply` represents the various types of replies that we can receive after
/// executing a command.
#[derive(Debug)]
pub enum Reply {
    Array,
    Error,
    Integer(i64),
    Nil,
    String(String),
    Unknown,
}

/// A result as contracts see it: a value by its view, an error by its view.
pub open spec fn outcome<T: DeepView>(res: Result<T, RModError>) -> Result<T::V, RModErrorView> {
    match res {
        Ok(value) => Ok(value.deep_view()),
        Err(err) => Err(err@),
    }
}

/// What a status means to the caller: success is `Ok`, failure is a generic
/// error with the given message.
pub open spec fn status_result(status: Status, message: Seq<char>) -> Result<(), RModErrorView> {
    match status {
        Status::Success => Ok(()),
        Status::Failure => Err(RModErrorView::Generic(message)),
    }
}

pub(crate) fn handle_status(status: Status, message: &str) -> (res: Result<(), RModError>)
    ensures
        outcome(res) == status_result(status, message@),
{
    match status {
        Status::Success => Ok(()),
        Status::Failure => Err(RModError::generic(message)),
    }
}

/// `Redis` is the session of one invocation: the host, the context that the
/// host passed in, and the account of every native call made through it.
///
/// A session must not be kept once the invocation that it was made for has
/// returned: the context and every handle obtained through it end with it.
pub struct Redis<H: Host> {
    host: H,
    ctx: RedisModuleCtx,
    ledger: Ledger,
}

impl<H: Host> Redis<H> {
    /// The host that the session talks to.
    pub closed spec fn host(&self) -> H {
        self.host
    }

    /// The context of the invocation.
    pub closed spec fn ctx(&self) -> RedisModuleCtx {
        self.ctx
    }

    /// The native calls made through this session so far, oldest first.
    pub closed spec fn trace(&self) -> Seq<Exchange> {
        self.ledger.trace()
    }

    /// The native handles that this session still has to give back.
    pub open spec fn outstanding(&self) -> Seq<Resource> {
        outstanding(self.trace())
    }

    /// Whether this session is `before` after exactly the calls `calls`.
    pub open spec fn after(&self, before: &Self, calls: Seq<Exchange>) -> bool {
        &&& self.ctx() == before.ctx()
        &&& self.trace() == before.trace() + calls
    }

    /// A session over `host` for the invocation with context `ctx`.
    pub fn new(host: H, ctx: RedisModuleCtx) -> (r: Self)
        ensures
            r.host() == host,
            r.ctx() == ctx,
            r.trace() == Seq::<Exchange>::empty(),
    {
        Redis { host, ctx, ledger: Ledger::new() }
    }

    /// Ends the session and hands the host back.
    pub fn into_host(self) -> (host: H)
        ensures
            host == self.host(),
    {
        self.host
    }

    /// Takes the session apart: the host, and the account of the calls.
    pub(crate) fn into_parts(self) -> (parts: (H, Ledger))
        ensures
            parts.1.trace() == self.trace(),
    {
        let Redis { host, ctx: _, ledger } = self;
        (host, ledger)
    }

    /// A session over `host` that has the calls of `ledger` behind it.
    pub(crate) fn from_parts(host: H, ctx: RedisModuleCtx, ledger: Ledger) -> (r: Self)
        ensures
            r.ctx() == ctx,
            r.trace() == ledger.trace(),
    {
        Redis { host, ctx, ledger }
    }

    /// Records a call that neither hands out nor gives back a handle.
    pub(crate) fn note(&mut self, Ghost(e): Ghost<Exchange>)
        requires
            ledger::acquired(e) is None,
            ledger::released(e) is None,
        ensures
            final(self).ctx() == old(self).ctx(),
            final(self).trace() == old(self).trace().push(e),
            final(self).outstanding() == old(self).outstanding(),
    {
        let mut ledger = Ledger::new();
        std::mem::swap(&mut ledger, &mut self.ledger);
        self.ledger = ledger.noted(Ghost(e));
        proof {
            lemma_outstanding_push(old(self).trace(), e);
        }
    }

    /// Records a call that handed `res` to the module.
    pub(crate) fn credit(&mut self, res: Resource, Ghost(e): Ghost<Exchange>)
        requires
            ledger::acquired(e) == Some(res),
        ensures
            final(self).ctx() == old(self).ctx(),
            final(self).trace() == old(self).trace().push(e),
            final(self).outstanding() == old(self).outstanding().push(res),
    {
        let mut ledger = Ledger::new();
        std::mem::swap(&mut ledger, &mut self.ledger);
        self.ledger = ledger.credited(res, Ghost(e));
        proof {
            lemma_outstanding_push(old(self).trace(), e);
        }
    }

    /// Records a call that gave `res`, found at `at`, back to the host.
    pub(crate) fn debit(&mut self, res: Resource, at: usize, Ghost(e): Ghost<Exchange>)
        requires
            ledger::released(e) == Some(res),
            ledger::acquired(e) is None,
            at == ledger::last_index_of(old(self).outstanding(), res),
        ensures
            final(self).ctx() == old(self).ctx(),
            final(self).trace() == old(self).trace().push(e),
            final(self).outstanding() == ledger::without_last(old(self).outstanding(), res),
    {
        let mut ledger = Ledger::new();
        std::mem::swap(&mut ledger, &mut self.ledger);
        self.ledger = ledger.debited(res, at, Ghost(e));
        proof {
            lemma_outstanding_push(old(self).trace(), e);
        }
    }
}

} // verus!
