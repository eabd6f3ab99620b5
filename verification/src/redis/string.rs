//! `RedisString`: a native string that the session has to give back.
use crate::redis::ledger::without_last;
use crate::redis::ledger::Resource;
use crate::redis::ledger::release_of;
use crate::redis::raw::Exchange;
use crate::redis::raw::Host;
use crate::redis::raw::RedisModuleCtx;
use crate::redis::raw::RedisModuleString;
use crate::redis::text::c_string;
use crate::redis::text::nul_terminated;
use crate::redis::Redis;
use vstd::prelude::*;
use vstd::utf8::encode_utf8;

verus! {

/// The call that makes a native string of `text`: the host is handed the
/// UTF-8 bytes of `text` with a NUL byte behind them, and their number without
/// that byte, so that text with a NUL byte inside arrives whole.
pub open spec fn create_string_call(
    ctx: RedisModuleCtx,
    text: Seq<char>,
    string: RedisModuleString,
) -> Exchange {
    Exchange::CreateString {
        ctx,
        ptr: nul_terminated(text),
        len: encode_utf8(text).len() as usize,
        string,
    }
}

/// `RedisString` owns one native string. The string is given back to the
/// host by `release`, or at the latest when the invocation ends.
#[derive(Debug)]
pub struct RedisString {
    str_inner: RedisModuleString,
}

impl RedisString {
    /// The native string that this value owns.
    pub closed spec fn handle(&self) -> RedisModuleString {
        self.str_inner
    }

    pub(crate) fn inner(&self) -> (string: RedisModuleString)
        ensures
            string == self.handle(),
    {
        self.str_inner
    }

    pub(crate) fn create<H: Host>(r: &mut Redis<H>, s: &str) -> (string: RedisString)
        ensures
            final(r).after(old(r), seq![create_string_call(old(r).ctx(), s@, string.handle())]),
            final(r).outstanding() == old(r).outstanding().push(Resource::String(string.handle())),
    {
        let buf = c_string(s);
        let str_inner = r.host_create_string(buf.as_slice(), s.len());
        proof {
            assert(old(r).trace().push(create_string_call(old(r).ctx(), s@, str_inner))
                =~= old(r).trace() + seq![create_string_call(old(r).ctx(), s@, str_inner)]);
        }
        RedisString { str_inner }
    }

    /// Gives the native string back to the host. Nothing is handed to the host
    /// where the session does not hold the string.
    pub fn release<H: Host>(self, r: &mut Redis<H>)
        ensures
            final(r).ctx() == old(r).ctx(),
            final(r).trace() == release_of(
                old(r).trace(),
                old(r).outstanding(),
                Resource::String(self.handle()),
                Exchange::FreeString { ctx: old(r).ctx(), string: self.handle() },
            ),
            final(r).outstanding() == without_last(
                old(r).outstanding(),
                Resource::String(self.handle()),
            ),
    {
        r.host_free_string(self.str_inner);
    }
}

} // verus!
