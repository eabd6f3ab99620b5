//! What a command says to the host through its session: the replies, the
//! request to replicate, and lines for the log.
use crate::error::RModError;
use crate::redis::handle_status;
use crate::redis::ledger::lemma_newest_is_out;
use crate::redis::ledger::Resource;
use crate::redis::outcome;
use crate::redis::raw::Exchange;
use crate::redis::raw::Host;
use crate::redis::raw::RedisModuleCtx;
use crate::redis::raw::RedisModuleString;
use crate::redis::raw::Status;
use crate::redis::status_result;
use crate::redis::string::create_string_call;
use crate::redis::string::RedisString;
use crate::redis::text::c_string;
use crate::redis::text::nul_terminated;
use crate::redis::integer::parse_integer;
use crate::redis::integer::spelled_integer;
use crate::redis::LogLevel;
use crate::redis::Redis;
use crate::redis::Reply;
use vstd::prelude::*;

verus! {

/// The name of a log level, as the host spells it.
pub open spec fn level_name(level: LogLevel) -> Seq<char> {
    match level {
        LogLevel::Debug => "debug"@,
        LogLevel::Notice => "notice"@,
        LogLevel::Verbose => "verbose"@,
        LogLevel::Warning => "warning"@,
    }
}

/// The calls of a string reply: the text becomes a native string, which is
/// handed over as the reply and then given back.
pub open spec fn reply_string_calls(
    ctx: RedisModuleCtx,
    message: Seq<char>,
    string: RedisModuleString,
    status: Status,
) -> Seq<Exchange> {
    seq![
        create_string_call(ctx, message, string),
        Exchange::ReplyWithString { ctx, string, status },
        Exchange::FreeString { ctx, string },
    ]
}

/// A reply with text in place of an integer, where the text spells one.
pub open spec fn coerced(reply_res: Result<Reply, RModError>) -> Result<Reply, RModError> {
    match reply_res {
        Ok(Reply::String(s)) => match spelled_integer(s@) {
            Some(n) => Ok(Reply::Integer(n)),
            None => reply_res,
        },
        _ => reply_res,
    }
}

impl<H: Host> Redis<H> {
    /// Coerces a string reply as an integer.
    ///
    /// An integer set in the store looks like a string (i.e. "1234") until
    /// some operation forces its coercion. This method turns a string reply
    /// that spells an integer into an integer reply. All other replies, and
    /// errors, are passed through unmodified.
    pub fn coerce_integer(&self, reply_res: Result<Reply, RModError>) -> (res: Result<Reply, RModError>)
        ensures
            res == coerced(reply_res),
    {
        match reply_res {
            Ok(Reply::String(s)) => match parse_integer(s.as_str()) {
                Some(n) => Ok(Reply::Integer(n)),
                None => Ok(Reply::String(s)),
            },
            other => other,
        }
    }

    /// Makes a native string of `s`. The session gives it back when the
    /// invocation ends, unless it is released before.
    pub fn create_string(&mut self, s: &str) -> (string: RedisString)
        ensures
            final(self).after(
                old(self),
                seq![create_string_call(old(self).ctx(), s@, string.handle())],
            ),
            final(self).outstanding() == old(self).outstanding().push(
                Resource::String(string.handle()),
            ),
    {
        RedisString::create(self, s)
    }

    /// Writes a line to the host's log. The level goes over by its name in
    /// lower case; level and message are NUL-terminated.
    pub fn log(&mut self, level: LogLevel, message: &str)
        ensures
            final(self).after(
                old(self),
                seq![
                    Exchange::Log {
                        ctx: old(self).ctx(),
                        level: nul_terminated(level_name(level)),
                        fmt: nul_terminated(message@),
                    },
                ],
            ),
            final(self).outstanding() == old(self).outstanding(),
    {
        let name = match level {
            LogLevel::Debug => "debug",
            LogLevel::Notice => "notice",
            LogLevel::Verbose => "verbose",
            LogLevel::Warning => "warning",
        };
        let level_buf = c_string(name);
        let message_buf = c_string(message);
        self.host_log(level_buf.as_slice(), message_buf.as_slice());
        proof {
            let e = Exchange::Log {
                ctx: old(self).ctx(),
                level: nul_terminated(level_name(level)),
                fmt: nul_terminated(message@),
            };
            assert(old(self).trace().push(e) =~= old(self).trace() + seq![e]);
        }
    }

    /// Writes a debugging line to the host's log.
    ///
    /// The line is logged at notice level, so that it shows up with the
    /// host's default configuration.
    pub fn log_debug(&mut self, message: &str)
        ensures
            final(self).after(
                old(self),
                seq![
                    Exchange::Log {
                        ctx: old(self).ctx(),
                        level: nul_terminated(level_name(LogLevel::Notice)),
                        fmt: nul_terminated(message@),
                    },
                ],
            ),
            final(self).outstanding() == old(self).outstanding(),
    {
        self.log(LogLevel::Notice, message);
    }

    /// Tells the host that we're about to reply with an array.
    /// Used by invoking once with the expected length and then calling any
    /// combination of the other reply methods exactly that number of times.
    pub fn reply_array(&mut self, len: i64) -> (res: Result<(), RModError>)
        ensures
            exists|status: Status|
                {
                    &&& final(self).after(
                        old(self),
                        seq![Exchange::ReplyWithArray { ctx: old(self).ctx(), len, status }],
                    )
                    &&& outcome(res) == #[trigger] status_result(
                        status,
                        "Could not reply with long"@,
                    )
                },
            final(self).outstanding() == old(self).outstanding(),
    {
        let status = self.host_reply_with_array(len);
        proof {
            let e = Exchange::ReplyWithArray { ctx: old(self).ctx(), len, status };
            assert(old(self).trace().push(e) =~= old(self).trace() + seq![e]);
        }
        handle_status(status, "Could not reply with long")
    }

    pub fn reply_integer(&mut self, integer: i64) -> (res: Result<(), RModError>)
        ensures
            exists|status: Status|
                {
                    &&& final(self).after(
                        old(self),
                        seq![
                            Exchange::ReplyWithLongLong { ctx: old(self).ctx(), ll: integer, status },
                        ],
                    )
                    &&& outcome(res) == #[trigger] status_result(
                        status,
                        "Could not reply with longlong"@,
                    )
                },
            final(self).outstanding() == old(self).outstanding(),
    {
        let status = self.host_reply_with_long_long(integer);
        proof {
            let e = Exchange::ReplyWithLongLong { ctx: old(self).ctx(), ll: integer, status };
            assert(old(self).trace().push(e) =~= old(self).trace() + seq![e]);
        }
        handle_status(status, "Could not reply with longlong")
    }

    pub fn reply_string(&mut self, message: &str) -> (res: Result<(), RModError>)
        ensures
            exists|string: RedisModuleString, status: Status|
                {
                    &&& final(self).after(
                        old(self),
                        #[trigger] reply_string_calls(old(self).ctx(), message@, string, status),
                    )
                    &&& outcome(res) == status_result(status, "Could not reply with string"@)
                },
            final(self).outstanding() == old(self).outstanding(),
    {
        let redis_str = self.create_string(message);
        let status = self.host_reply_with_string(redis_str.inner());
        proof {
            lemma_newest_is_out(old(self).outstanding(), Resource::String(redis_str.handle()));
        }
        let ghost string = redis_str.handle();
        redis_str.release(self);
        proof {
            let calls = reply_string_calls(old(self).ctx(), message@, string, status);
            assert(old(self).trace() + seq![calls[0]] =~= old(self).trace().push(calls[0]));
            assert(old(self).trace().push(calls[0]).push(calls[1]).push(calls[2]) =~= old(
                self,
            ).trace() + calls);
        }
        handle_status(status, "Could not reply with string")
    }

    pub fn reply_with_simple_string(&mut self, message: &str)
        ensures
            final(self).after(
                old(self),
                seq![
                    Exchange::ReplyWithSimpleString {
                        ctx: old(self).ctx(),
                        msg: nul_terminated(message@),
                    },
                ],
            ),
            final(self).outstanding() == old(self).outstanding(),
    {
        let buf = c_string(message);
        self.host_reply_with_simple_string(buf.as_slice());
        proof {
            let e = Exchange::ReplyWithSimpleString {
                ctx: old(self).ctx(),
                msg: nul_terminated(message@),
            };
            assert(old(self).trace().push(e) =~= old(self).trace() + seq![e]);
        }
    }

    /// Replies with the simple string `OK`.
    pub fn reply_ok(&mut self)
        ensures
            final(self).after(
                old(self),
                seq![
                    Exchange::ReplyWithSimpleString {
                        ctx: old(self).ctx(),
                        msg: nul_terminated("OK"@),
                    },
                ],
            ),
            final(self).outstanding() == old(self).outstanding(),
    {
        self.reply_with_simple_string("OK");
    }

    pub fn reply_null(&mut self)
        ensures
            final(self).after(old(self), seq![Exchange::ReplyWithNull { ctx: old(self).ctx() }]),
            final(self).outstanding() == old(self).outstanding(),
    {
        self.host_reply_with_null();
        proof {
            let e = Exchange::ReplyWithNull { ctx: old(self).ctx() };
            assert(old(self).trace().push(e) =~= old(self).trace() + seq![e]);
        }
    }

    /// Asks the host to propagate the running command as it was received.
    pub fn replicate_verbatim(&mut self)
        ensures
            final(self).after(
                old(self),
                seq![Exchange::ReplicateVerbatim { ctx: old(self).ctx() }],
            ),
            final(self).outstanding() == old(self).outstanding(),
    {
        self.host_replicate_verbatim();
        proof {
            let e = Exchange::ReplicateVerbatim { ctx: old(self).ctx() };
            assert(old(self).trace().push(e) =~= old(self).trace() + seq![e]);
        }
    }
}

} // verus!
