//! Commands, and the harness that runs one for the host.
use crate::error::RModError;
use crate::redis::key::decode_result;
use crate::redis::key::manifest_redis_string;
use crate::redis::ledger::acquisitions;
use crate::redis::ledger::disciplined;
use crate::redis::ledger::lemma_disciplined_push;
use crate::redis::ledger::lemma_last_is_out;
use crate::redis::ledger::lemma_outstanding_push;
use crate::redis::ledger::lemma_settled_trace_is_balanced;
use crate::redis::ledger::outstanding;
use crate::redis::ledger::releases;
use crate::redis::ledger::Resource;
use crate::redis::raw::Exchange;
use crate::redis::raw::Host;
use crate::redis::raw::RedisModuleCtx;
use crate::redis::raw::RedisModuleString;
use crate::redis::raw::Status;
use crate::redis::text::c_string;
use crate::redis::text::decoded;
use crate::redis::text::nul_terminated;
use crate::redis::text::utf8_error_bytes;
use crate::redis::Redis;
use vstd::prelude::*;
use vstd::string::to_string_from_display_ensures;
use vstd::string::StringExecFns;

verus! {

/// The call that gives `res` back to the host.
pub open spec fn release_exchange(ctx: RedisModuleCtx, res: Resource) -> Exchange {
    match res {
        Resource::String(string) => Exchange::FreeString { ctx, string },
        Resource::Key(key) => Exchange::CloseKey { key },
        Resource::Reply(reply) => Exchange::FreeCallReply { reply },
    }
}

/// The calls that give back every handle of `live`, the newest first.
pub open spec fn sweep_calls(ctx: RedisModuleCtx, live: Seq<Resource>) -> Seq<Exchange> {
    Seq::new(live.len(), |i: int| release_exchange(ctx, live[live.len() - 1 - i]))
}

/// The error reply that reports a failure whose text is `text`.
pub open spec fn error_reply(ctx: RedisModuleCtx, text: Seq<char>) -> Exchange {
    Exchange::ReplyWithError { ctx, err: nul_terminated("RMod error: "@ + text) }
}

/// The calls that end an invocation: every handle of `live` is given back,
/// the newest first, and a failure is reported by an error reply.
pub open spec fn finish_calls(
    ctx: RedisModuleCtx,
    live: Seq<Resource>,
    failure: Option<String>,
) -> Seq<Exchange> {
    match failure {
        Some(text) => sweep_calls(ctx, live).push(error_reply(ctx, text@)),
        None => sweep_calls(ctx, live),
    }
}

/// The calls that read the arguments whose bytes are `bytes`, in order.
pub open spec fn parse_args_calls(argv: Seq<RedisModuleString>, bytes: Seq<Seq<u8>>) -> Seq<Exchange> {
    Seq::new(bytes.len(), |i: int| Exchange::StringPtrLen { string: argv[i], bytes: bytes[i] })
}

/// Whether `bytes` can be what the host handed out while the arguments were
/// read: the arguments are read in order, and reading stops behind the first
/// one that is no text.
pub open spec fn args_read(argv: Seq<RedisModuleString>, bytes: Seq<Seq<u8>>) -> bool {
    &&& bytes.len() <= argv.len()
    &&& forall|i: int| 0 <= i < bytes.len() - 1 ==> decoded(#[trigger] bytes[i]) is Some
    &&& bytes.len() < argv.len() ==> bytes.len() > 0 && decoded(bytes.last()) is None
}

/// Whether every argument read is text.
pub open spec fn all_text(bytes: Seq<Seq<u8>>) -> bool {
    forall|i: int| 0 <= i < bytes.len() ==> decoded(#[trigger] bytes[i]) is Some
}

/// What reading the arguments gives: their texts, or the failure to decode
/// the first one that is no text.
pub open spec fn parse_args_result(
    bytes: Seq<Seq<u8>>,
    res: Result<Vec<String>, std::string::FromUtf8Error>,
) -> bool {
    match res {
        Ok(args) => {
            &&& all_text(bytes)
            &&& args@.len() == bytes.len()
            &&& forall|i: int| 0 <= i < bytes.len() ==> decoded(bytes[i]) == Some(#[trigger] args@[i]@)
        },
        Err(err) => {
            &&& bytes.len() > 0
            &&& decoded(bytes.last()) is None
            &&& utf8_error_bytes(err) == bytes.last()
        },
    }
}

/// Reads the arguments of an invocation as text.
pub(crate) fn parse_args<H: Host>(r: &mut Redis<H>, argv: &[RedisModuleString]) -> (res: Result<
    Vec<String>,
    std::string::FromUtf8Error,
>)
    ensures
        exists|bytes: Seq<Seq<u8>>|
            {
                &&& args_read(argv@, bytes)
                &&& res is Ok ==> bytes.len() == argv@.len()
                &&& final(r).after(old(r), #[trigger] parse_args_calls(argv@, bytes))
                &&& parse_args_result(bytes, res)
            },
        final(r).outstanding() == old(r).outstanding(),
{
    let mut args: Vec<String> = Vec::new();
    let ghost mut bytes: Seq<Seq<u8>> = Seq::empty();
    let mut i: usize = 0;
    proof {
        assert(r.trace() =~= old(r).trace() + parse_args_calls(argv@, bytes));
    }
    while i < argv.len()
        invariant
            i <= argv@.len(),
            bytes.len() == i,
            args@.len() == i,
            r.ctx() == old(r).ctx(),
            r.outstanding() == old(r).outstanding(),
            r.trace() == old(r).trace() + parse_args_calls(argv@, bytes),
            forall|j: int| 0 <= j < i ==> decoded(#[trigger] bytes[j]) == Some(args@[j]@),
        decreases argv@.len() - i,
    {
        let ghost so_far = r.trace();
        let text = manifest_redis_string(r, argv[i]);
        proof {
            let given = choose|given: Seq<u8>|
                {
                    &&& r.trace() == so_far.push(
                        Exchange::StringPtrLen { string: argv@[i as int], bytes: given },
                    )
                    &&& #[trigger] decode_result(given, text)
                };
            let read = bytes.push(given);
            assert(r.trace() =~= old(r).trace() + parse_args_calls(argv@, read));
            bytes = read;
        }
        match text {
            Ok(arg) => {
                args.push(arg);
            },
            Err(err) => {
                let res = Err(err);
                assert(parse_args_result(bytes, res));
                return res;
            },
        }
        i += 1;
    }
    let res = Ok(args);
    assert(parse_args_result(bytes, res));
    res
}

/// The texts of `args`, borrowed, one for one and in the same order: the
/// argument list that a command is run on.
pub fn borrowed_texts<'a>(args: &'a Vec<String>) -> (texts: Vec<&'a str>)
    ensures
        texts@.len() == args@.len(),
        forall|i: int| 0 <= i < args@.len() ==> (#[trigger] texts@[i])@ == args@[i]@,
{
    let mut texts: Vec<&'a str> = Vec::new();
    let mut i: usize = 0;
    while i < args.len()
        invariant
            i <= args@.len(),
            texts@.len() == i,
            forall|j: int| 0 <= j < i ==> (#[trigger] texts@[j])@ == args@[j]@,
        decreases args@.len() - i,
    {
        texts.push(args[i].as_str());
        i += 1;
    }
    texts
}

impl<H: Host> Redis<H> {
    /// Gives one handle back to the host.
    fn give_back(&mut self, res: Resource)
        requires
            old(self).outstanding().len() > 0,
            old(self).outstanding().last() == res,
        ensures
            final(self).ctx() == old(self).ctx(),
            final(self).trace() == old(self).trace().push(release_exchange(old(self).ctx(), res)),
            final(self).outstanding() == old(self).outstanding().drop_last(),
    {
        proof {
            lemma_last_is_out(self.outstanding(), res);
        }
        match res {
            Resource::String(string) => self.host_free_string(string),
            Resource::Key(key) => self.host_close_key(key),
            Resource::Reply(reply) => self.host_free_call_reply(reply),
        }
    }

    /// Gives back every handle that is still out, the newest first.
    pub(crate) fn sweep(&mut self)
        ensures
            final(self).after(old(self), sweep_calls(old(self).ctx(), old(self).outstanding())),
            final(self).outstanding() == Seq::<Resource>::empty(),
            disciplined(final(self).trace()),
    {
        let ghost live = self.outstanding();
        let ghost ctx = self.ctx();
        let ghost mut done: int = 0;
        proof {
            assert(self.trace() =~= old(self).trace() + sweep_calls(ctx, live).take(0));
            assert(live.take(live.len() as int) == live);
        }
        loop
            invariant
                0 <= done <= live.len(),
                ctx == old(self).ctx(),
                live == old(self).outstanding(),
                self.ctx() == ctx,
                self.outstanding() == live.take(live.len() - done),
                self.trace() == old(self).trace() + sweep_calls(ctx, live).take(done),
            ensures
                done == live.len(),
                self.ctx() == ctx,
                self.outstanding() == Seq::<Resource>::empty(),
                self.trace() == old(self).trace() + sweep_calls(ctx, live).take(done),
                disciplined(self.trace()),
            decreases live.len() - done,
        {
            match self.ledger.newest() {
                None => {
                    proof {
                        assert(self.outstanding() =~= Seq::<Resource>::empty());
                    }
                    break ;
                },
                Some(res) => {
                    let ghost so_far = self.trace();
                    self.give_back(res);
                    proof {
                        let calls = sweep_calls(ctx, live);
                        assert(live.take(live.len() - done).drop_last() == live.take(
                            live.len() - done - 1,
                        ));
                        assert(so_far.push(release_exchange(ctx, res)) =~= old(self).trace()
                            + calls.take(done + 1));
                        done = done + 1;
                    }
                },
            }
        }
        proof {
            let calls = sweep_calls(ctx, live);
            assert(calls.take(calls.len() as int) == calls);
        }
    }

    /// Ends an invocation whose command came back with `outcome`.
    ///
    /// Every handle that is still out is given back, the newest first. Then a
    /// failure is reported to the host as an error reply that holds the text
    /// of the error. After that the session has given back exactly as many
    /// handles as it was handed.
    pub fn finish(&mut self, outcome: Result<(), RModError>) -> (status: Status)
        ensures
            exists|failure: Option<String>|
                {
                    &&& final(self).after(
                        old(self),
                        #[trigger] finish_calls(old(self).ctx(), old(self).outstanding(), failure),
                    )
                    &&& match outcome {
                        Ok(_) => status == Status::Success && failure is None,
                        Err(err) => status == Status::Failure && (failure matches Some(text)
                            && err.displays_as(text)),
                    }
                },
            final(self).outstanding() == Seq::<Resource>::empty(),
            disciplined(final(self).trace()),
            acquisitions(final(self).trace()) == releases(final(self).trace()),
    {
        let ghost ctx = self.ctx();
        let ghost live = self.outstanding();
        self.sweep();
        proof {
            lemma_settled_trace_is_balanced(self.trace());
        }
        match outcome {
            Ok(_) => {
                proof {
                    assert(self.trace() == old(self).trace() + finish_calls(ctx, live, None));
                }
                Status::Success
            },
            Err(e) => {
                let text = e.to_string();
                let mut message = String::from_str("RMod error: ");
                message.append(text.as_str());
                let buf = c_string(message.as_str());
                let ghost swept = self.trace();
                self.host_reply_with_error(buf.as_slice());
                proof {
                    assert(self.trace() =~= old(self).trace() + finish_calls(
                        ctx,
                        live,
                        Some(text),
                    ));
                    lemma_disciplined_push(swept, error_reply(ctx, text@));
                    lemma_outstanding_push(swept, error_reply(ctx, text@));
                    lemma_settled_trace_is_balanced(self.trace());
                }
                Status::Failure
            },
        }
    }
}

/// A command that the module offers to the host.
pub trait Command {
    /// Should return the name of the command to be registered.
    fn name(&self) -> &'static str;

    /// Run the command.
    fn run<H: Host>(&self, r: &mut Redis<H>, args: &[&str]) -> Result<(), RModError>;

    /// Should return any flags to be registered with the name as a string
    /// separated list. The host defines what each of them means; they are
    /// passed on as they are.
    ///
    /// - "write": The command may modify the data set (it may also read from it).
    /// - "readonly": The command returns data from keys but never writes.
    /// - "admin": The command is an administrative command.
    /// - "deny-oom": The command may use additional memory and should be denied during out of memory conditions.
    /// - "deny-script": Don't allow this command in scripts.
    /// - "allow-loading": Allow this command while the server is loading data.
    /// - "pubsub": The command publishes things on Pub/Sub channels.
    /// - "random": The command may have different outputs even starting from the same input arguments and key values.
    /// - "allow-stale": The command is allowed to run on replicas that don't serve stale data.
    /// - "no-monitor": Don't propagate the command on monitor.
    /// - "fast": The command time complexity is not greater than O(log(N)).
    /// - "getkeys-api": The command implements the interface to return the arguments that are keys.
    /// - "no-cluster": The command should not register in a cluster.
    fn str_flags(&self) -> &'static str;

    /// Runs the command for the host, in a session of its own over `host`
    /// and `ctx`: reads the arguments as text, runs the command once on the
    /// list that `borrowed_texts` makes of them, in a session over `ctx` that
    /// has no call behind it, and ends the invocation with what the command
    /// came back with, as `Redis::finish` says. The session is handed back
    /// with the status.
    ///
    /// Where an argument is no text, the command is not run: the host gets
    /// an error reply and a failure. Whatever the command did, no handle is
    /// out when the harness returns, and none was given back twice: the
    /// session has given back exactly as many handles as it was handed.
    fn harness<H: Host>(&self, host: H, ctx: RedisModuleCtx, argv: &[RedisModuleString]) -> (done: (
        Status,
        Redis<H>,
    ))
        ensures
            done.1.ctx() == ctx,
            done.1.outstanding() == Seq::<Resource>::empty(),
            disciplined(done.1.trace()),
            acquisitions(done.1.trace()) == releases(done.1.trace()),
            exists|bytes: Seq<Seq<u8>>, ran: Seq<Exchange>, failure: Option<String>|
                {
                    &&& args_read(argv@, bytes)
                    &&& disciplined(ran)
                    &&& done.1.trace() == #[trigger] harness_calls(
                        ctx,
                        argv@,
                        bytes,
                        ran,
                        failure,
                    )
                    &&& done.0 == if failure is Some {
                        Status::Failure
                    } else {
                        Status::Success
                    }
                    &&& !all_text(bytes) ==> decode_failure(bytes.last(), failure)
                },
    {
        let mut outer = Redis::new(host, ctx);
        let parsed = parse_args(&mut outer, argv);
        let ghost bytes = choose|bytes: Seq<Seq<u8>>|
            {
                &&& args_read(argv@, bytes)
                &&& parsed is Ok ==> bytes.len() == argv@.len()
                &&& outer.trace() == Seq::<Exchange>::empty() + #[trigger] parse_args_calls(
                    argv@,
                    bytes,
                )
                &&& parse_args_result(bytes, parsed)
            };
        let ghost read = parse_args_calls(argv@, bytes);
        proof {
            assert(Seq::<Exchange>::empty() + read == read);
        }
        match parsed {
            Err(err) => {
                let failure = RModError::from(err);
                let status = outer.finish(Err(failure));
                proof {
                    let told = choose|told: Option<String>|
                        {
                            &&& outer.trace() == read + #[trigger] finish_calls(
                                ctx,
                                Seq::<Resource>::empty(),
                                told,
                            )
                            &&& (told matches Some(text) && failure.displays_as(text))
                        };
                    assert(outer.trace() == harness_calls(ctx, argv@, bytes, Seq::empty(), told));
                    assert(decode_failure(bytes.last(), told));
                    assert(disciplined(Seq::<Exchange>::empty()));
                }
                (status, outer)
            },
            Ok(args) => {
                let str_args = borrowed_texts(&args);
                assert(str_args@.len() == argv@.len());
                assert forall|i: int| 0 <= i < argv@.len() implies decoded(bytes[i]) == Some(
                    (#[trigger] str_args@[i])@,
                ) by {
                    assert(decoded(bytes[i]) == Some(args@[i]@));
                }
                let (host, read_ledger) = outer.into_parts();
                let mut inner = Redis::new(host, ctx);
                assert(inner.ctx() == ctx && inner.trace() == Seq::<Exchange>::empty());
                let outcome = self.run(&mut inner, str_args.as_slice());
                let ghost ran = inner.trace();
                let (host, ran_ledger) = inner.into_parts();
                let mut whole = Redis::from_parts(host, ctx, read_ledger.joined(ran_ledger));
                let status = whole.finish(outcome);
                proof {
                    assert(all_text(bytes));
                    let told = choose|told: Option<String>|
                        {
                            &&& whole.trace() == read + ran + #[trigger] finish_calls(
                                ctx,
                                outstanding(ran),
                                told,
                            )
                            &&& match outcome {
                                Ok(_) => status == Status::Success && told is None,
                                Err(err) => status == Status::Failure && told is Some,
                            }
                        };
                    assert(whole.trace() == harness_calls(ctx, argv@, bytes, ran, told));
                }
                (status, whole)
            },
        }
    }
}

/// The calls of an invocation: the arguments are read; where all of them
/// are text, the command makes the calls `ran`; and the invocation is ended.
pub open spec fn harness_calls(
    ctx: RedisModuleCtx,
    argv: Seq<RedisModuleString>,
    bytes: Seq<Seq<u8>>,
    ran: Seq<Exchange>,
    failure: Option<String>,
) -> Seq<Exchange> {
    if all_text(bytes) {
        parse_args_calls(argv, bytes) + ran + finish_calls(ctx, outstanding(ran), failure)
    } else {
        parse_args_calls(argv, bytes) + finish_calls(ctx, Seq::empty(), failure)
    }
}

/// Whether `failure` is the text of the failure to decode `bytes`.
pub open spec fn decode_failure(bytes: Seq<u8>, failure: Option<String>) -> bool {
    failure matches Some(text) && exists|err: std::string::FromUtf8Error|
        utf8_error_bytes(err) == bytes && #[trigger] to_string_from_display_ensures::<
            std::string::FromUtf8Error,
        >(&err, text)
}

} // verus!
