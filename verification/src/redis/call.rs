//! Nested calls: a command that the module runs on the host, and the reply
//! that comes back.
use crate::error::store_error_prefix;
use crate::error::RModError;
use crate::error::RModErrorView;
use crate::redis::ledger::lemma_last_is_out;
use crate::redis::ledger::lemma_newest_is_out;
use crate::redis::ledger::without_last;
use crate::redis::ledger::Resource;
use crate::redis::outcome;
use crate::redis::ledger::release_of;
use crate::redis::raw::Exchange;
use crate::redis::raw::Host;
use crate::redis::raw::RedisModuleCallReply;
use crate::redis::raw::RedisModuleCtx;
use crate::redis::raw::ReplyType;
use crate::redis::text::c_string;
use crate::redis::text::decoded;
use crate::redis::text::from_byte_string;
use crate::redis::text::no_nul;
use crate::redis::text::nul_terminated;
use crate::redis::Redis;
use vstd::prelude::*;

verus! {

/// The calls that read a reply as an integer: its kind is asked for, and its
/// integer only where the kind is right.
pub open spec fn to_integer_calls(reply: RedisModuleCallReply, kind: ReplyType, integer: i64) -> Seq<
    Exchange,
> {
    if kind == ReplyType::Integer {
        seq![
            Exchange::CallReplyType { reply, kind },
            Exchange::CallReplyInteger { reply, integer },
        ]
    } else {
        seq![Exchange::CallReplyType { reply, kind }]
    }
}

/// What reading a reply as an integer gives.
pub open spec fn to_integer_result(kind: ReplyType, integer: i64) -> Result<i64, RModErrorView> {
    if kind == ReplyType::Integer {
        Ok(integer)
    } else {
        Err(RModErrorView::Generic("Invalid type of CallReply, not Integer"@))
    }
}

/// The calls that read a reply as text: its kind is asked for, and its bytes
/// only where the kind is right.
pub open spec fn to_string_calls(reply: RedisModuleCallReply, kind: ReplyType, bytes: Seq<u8>) -> Seq<
    Exchange,
> {
    if kind == ReplyType::String {
        seq![
            Exchange::CallReplyType { reply, kind },
            Exchange::CallReplyStringPtr { reply, bytes },
        ]
    } else {
        seq![Exchange::CallReplyType { reply, kind }]
    }
}

/// What reading a reply as text gives.
pub open spec fn to_string_result(kind: ReplyType, bytes: Seq<u8>) -> Result<Seq<char>, RModErrorView> {
    if kind != ReplyType::String {
        Err(RModErrorView::Generic("Invalid type of CallReply, not String"@))
    } else {
        match decoded(bytes) {
            Some(text) => Ok(text),
            None => Err(RModErrorView::Generic("failed to parse char pointer"@)),
        }
    }
}

/// The calls that take an element of an array reply: its kind is asked for,
/// and the element only where the kind is right.
pub open spec fn element_calls(
    reply: RedisModuleCallReply,
    idx: usize,
    kind: ReplyType,
    element: RedisModuleCallReply,
) -> Seq<Exchange> {
    if kind == ReplyType::Array {
        seq![
            Exchange::CallReplyType { reply, kind },
            Exchange::CallReplyArrayElement { reply, idx, element },
        ]
    } else {
        seq![Exchange::CallReplyType { reply, kind }]
    }
}

/// `RedisCallReply` owns the reply to a nested call. The reply is given back
/// to the host by `release`, or at the latest when the invocation ends.
#[derive(Debug)]
pub struct RedisCallReply {
    reply: RedisModuleCallReply,
}

impl RedisCallReply {
    /// The native reply that this value owns.
    pub closed spec fn handle(&self) -> RedisModuleCallReply {
        self.reply
    }

    pub(crate) fn create(reply: RedisModuleCallReply) -> (wrapped: RedisCallReply)
        ensures
            wrapped.handle() == reply,
    {
        RedisCallReply { reply }
    }

    /// The kind of the reply, as the host tells it.
    pub(crate) fn check_type<H: Host>(&self, r: &mut Redis<H>) -> (kind: ReplyType)
        ensures
            final(r).ctx() == old(r).ctx(),
            final(r).trace() == old(r).trace().push(
                Exchange::CallReplyType { reply: self.handle(), kind },
            ),
            final(r).outstanding() == old(r).outstanding(),
    {
        r.host_call_reply_type(self.reply)
    }

    /// The integer of the reply; an error where the reply is no integer.
    pub(crate) fn to_integer<H: Host>(&self, r: &mut Redis<H>) -> (res: Result<i64, RModError>)
        ensures
            exists|kind: ReplyType, integer: i64|
                {
                    &&& final(r).after(
                        old(r),
                        #[trigger] to_integer_calls(self.handle(), kind, integer),
                    )
                    &&& outcome(res) == to_integer_result(kind, integer)
                },
            final(r).outstanding() == old(r).outstanding(),
    {
        let kind = self.check_type(r);
        if kind != ReplyType::Integer {
            proof {
                let calls = to_integer_calls(self.handle(), kind, 0);
                assert(r.trace() =~= old(r).trace() + calls);
            }
            return Err(RModError::generic("Invalid type of CallReply, not Integer"));
        }
        let integer = r.host_call_reply_integer(self.reply);
        proof {
            let calls = to_integer_calls(self.handle(), kind, integer);
            assert(r.trace() =~= old(r).trace() + calls);
        }
        Ok(integer)
    }

    /// The text of the reply; an error where the reply is no string, or no text.
    pub(crate) fn to_string<H: Host>(&self, r: &mut Redis<H>) -> (res: Result<String, RModError>)
        ensures
            exists|kind: ReplyType, bytes: Seq<u8>|
                {
                    &&& final(r).after(
                        old(r),
                        #[trigger] to_string_calls(self.handle(), kind, bytes),
                    )
                    &&& outcome(res) == to_string_result(kind, bytes)
                },
            final(r).outstanding() == old(r).outstanding(),
    {
        let kind = self.check_type(r);
        if kind != ReplyType::String {
            proof {
                let calls = to_string_calls(self.handle(), kind, seq![]);
                assert(r.trace() =~= old(r).trace() + calls);
            }
            return Err(RModError::generic("Invalid type of CallReply, not String"));
        }
        let bytes = r.host_call_reply_string_ptr(self.reply);
        proof {
            let calls = to_string_calls(self.handle(), kind, bytes@);
            assert(r.trace() =~= old(r).trace() + calls);
        }
        match from_byte_string(bytes) {
            Ok(s) => Ok(s),
            Err(_) => Err(RModError::generic("failed to parse char pointer")),
        }
    }

    /// The number of elements of the reply, as the host tells it.
    pub(crate) fn check_length<H: Host>(&self, r: &mut Redis<H>) -> (length: usize)
        ensures
            final(r).ctx() == old(r).ctx(),
            final(r).trace() == old(r).trace().push(
                Exchange::CallReplyLength { reply: self.handle(), length },
            ),
            final(r).outstanding() == old(r).outstanding(),
    {
        r.host_call_reply_length(self.reply)
    }

    /// The element at `idx`; an error where the reply is no array. The index
    /// goes to the host as it is: what the host does with one that is out of
    /// range is the host's affair.
    pub(crate) fn reply_array_element<H: Host>(&self, r: &mut Redis<H>, idx: usize) -> (res: Result<
        RedisCallReply,
        RModError,
    >)
        ensures
            exists|kind: ReplyType, element: RedisModuleCallReply|
                {
                    &&& final(r).after(
                        old(r),
                        #[trigger] element_calls(self.handle(), idx, kind, element),
                    )
                    &&& match res {
                        Ok(wrapped) => kind == ReplyType::Array && wrapped.handle() == element
                            && final(r).outstanding() == old(r).outstanding().push(
                            Resource::Reply(element),
                        ),
                        Err(err) => kind != ReplyType::Array && err@ == RModErrorView::Generic(
                            "Invalid type of CallReply, not Array"@,
                        ) && final(r).outstanding() == old(r).outstanding(),
                    }
                },
    {
        let kind = self.check_type(r);
        if kind != ReplyType::Array {
            proof {
                let calls = element_calls(self.handle(), idx, kind, self.handle());
                assert(r.trace() =~= old(r).trace() + calls);
            }
            return Err(RModError::generic("Invalid type of CallReply, not Array"));
        }
        let element = r.host_call_reply_array_element(self.reply, idx);
        proof {
            let calls = element_calls(self.handle(), idx, kind, element);
            assert(r.trace() =~= old(r).trace() + calls);
        }
        Ok(RedisCallReply::create(element))
    }

    /// Gives the reply back to the host. Nothing is handed to the host where
    /// the session does not hold the reply.
    pub(crate) fn release<H: Host>(self, r: &mut Redis<H>)
        ensures
            final(r).ctx() == old(r).ctx(),
            final(r).trace() == release_of(
                old(r).trace(),
                old(r).outstanding(),
                Resource::Reply(self.handle()),
                Exchange::FreeCallReply { reply: self.handle() },
            ),
            final(r).outstanding() == without_last(
                old(r).outstanding(),
                Resource::Reply(self.handle()),
            ),
    {
        r.host_free_call_reply(self.reply);
    }
}

/// The nested call of `cmdname` with `args`: every text goes over as a C string.
pub open spec fn call_exchange(
    ctx: RedisModuleCtx,
    cmdname: Seq<char>,
    args: Seq<Seq<char>>,
    reply: RedisModuleCallReply,
) -> Exchange {
    Exchange::Call {
        ctx,
        cmdname: nul_terminated(cmdname),
        args: args.map_values(|arg: Seq<char>| nul_terminated(arg)),
        reply,
    }
}

/// The calls of a nested call that is read as an integer: the call, the
/// reading of the reply, and the reply's release.
pub open spec fn call_integer_calls(
    ctx: RedisModuleCtx,
    cmdname: Seq<char>,
    args: Seq<Seq<char>>,
    reply: RedisModuleCallReply,
    kind: ReplyType,
    integer: i64,
) -> Seq<Exchange> {
    seq![call_exchange(ctx, cmdname, args, reply)] + to_integer_calls(reply, kind, integer)
        + seq![Exchange::FreeCallReply { reply }]
}

/// The calls of a nested call that is read as text: the call, the reading of
/// the reply, and the reply's release.
pub open spec fn call_string_calls(
    ctx: RedisModuleCtx,
    cmdname: Seq<char>,
    args: Seq<Seq<char>>,
    reply: RedisModuleCallReply,
    kind: ReplyType,
    bytes: Seq<u8>,
) -> Seq<Exchange> {
    seq![call_exchange(ctx, cmdname, args, reply)] + to_string_calls(reply, kind, bytes)
        + seq![Exchange::FreeCallReply { reply }]
}

/// What the host answered while one element of a reply to `keys` was taken.
pub struct ElementAnswer {
    /// The kind of the whole reply.
    pub kind: ReplyType,
    /// The element, where the reply is an array.
    pub element: RedisModuleCallReply,
    /// The kind of the element.
    pub element_kind: ReplyType,
    /// The bytes of the element, where it is a string.
    pub bytes: Seq<u8>,
}

/// The calls that take the element at `idx` as text: the element is taken,
/// read and given back. Where the reply is no array, nothing follows the
/// question for its kind.
pub open spec fn key_element_calls(reply: RedisModuleCallReply, idx: usize, answer: ElementAnswer) -> Seq<
    Exchange,
> {
    if answer.kind == ReplyType::Array {
        element_calls(reply, idx, answer.kind, answer.element) + to_string_calls(
            answer.element,
            answer.element_kind,
            answer.bytes,
        ) + seq![Exchange::FreeCallReply { reply: answer.element }]
    } else {
        element_calls(reply, idx, answer.kind, answer.element)
    }
}

/// The entry that an element gives: its text, or, where it is no string or
/// no text, the text of the error that says so.
pub open spec fn key_element_text(answer: ElementAnswer) -> Seq<char> {
    match to_string_result(answer.element_kind, answer.bytes) {
        Ok(text) => text,
        Err(RModErrorView::Generic(message)) => store_error_prefix() + message,
        Err(_) => Seq::empty(),
    }
}

/// The calls that take the elements at the indices below `answers.len()`.
pub open spec fn key_elements_calls(reply: RedisModuleCallReply, answers: Seq<ElementAnswer>) -> Seq<
    Exchange,
>
    decreases answers.len(),
{
    if answers.len() == 0 {
        Seq::empty()
    } else {
        key_elements_calls(reply, answers.drop_last()) + key_element_calls(
            reply,
            (answers.len() - 1) as usize,
            answers.last(),
        )
    }
}

/// The calls of a `keys` query: the call, the question for the length of the
/// reply, the taking of its elements, and the reply's release.
pub open spec fn call_keys_calls(
    ctx: RedisModuleCtx,
    pattern: Seq<char>,
    reply: RedisModuleCallReply,
    length: usize,
    answers: Seq<ElementAnswer>,
) -> Seq<Exchange> {
    seq![
        call_exchange(ctx, "keys"@, seq![pattern], reply),
        Exchange::CallReplyLength { reply, length },
    ] + key_elements_calls(reply, answers) + seq![Exchange::FreeCallReply { reply }]
}

/// What a `keys` query gives. The elements are taken in order, up to the
/// length that the host told. If the reply turns out to be no array when an
/// element is asked for, the query fails there; else every element gives an
/// entry.
pub open spec fn call_keys_result(
    length: usize,
    answers: Seq<ElementAnswer>,
    res: Result<Vec<String>, RModError>,
) -> bool {
    &&& answers.len() <= length
    &&& forall|i: int| 0 <= i < answers.len() - 1 ==> (#[trigger] answers[i]).kind == ReplyType::Array
    &&& match res {
        Ok(keys) => {
            &&& answers.len() == length
            &&& keys@.len() == length
            &&& forall|i: int|
                0 <= i < length ==> (#[trigger] answers[i]).kind == ReplyType::Array && keys@[i]@
                    == key_element_text(answers[i])
        },
        Err(err) => {
            &&& answers.len() > 0
            &&& answers.last().kind != ReplyType::Array
            &&& err@ == RModErrorView::Generic("Failed to take element from reply array"@)
        },
    }
}

impl<H: Host> Redis<H> {
    /// Reads the newest reply as an integer and gives it back.
    fn integer_of(&mut self, reply: RedisCallReply) -> (res: Result<i64, RModError>)
        requires
            old(self).outstanding().len() > 0,
            old(self).outstanding().last() == Resource::Reply(reply.handle()),
        ensures
            exists|kind: ReplyType, integer: i64|
                {
                    &&& final(self).after(
                        old(self),
                        #[trigger] to_integer_calls(reply.handle(), kind, integer) + seq![
                            Exchange::FreeCallReply { reply: reply.handle() },
                        ],
                    )
                    &&& outcome(res) == to_integer_result(kind, integer)
                },
            final(self).outstanding() == old(self).outstanding().drop_last(),
    {
        let ghost handle = reply.handle();
        let res = reply.to_integer(self);
        let ghost (kind, integer) = choose|kind: ReplyType, integer: i64|
            {
                &&& self.after(old(self), #[trigger] to_integer_calls(handle, kind, integer))
                &&& outcome(res) == to_integer_result(kind, integer)
            };
        proof {
            lemma_last_is_out(old(self).outstanding(), Resource::Reply(handle));
        }
        reply.release(self);
        proof {
            let calls = to_integer_calls(handle, kind, integer) + seq![
                Exchange::FreeCallReply { reply: handle },
            ];
            assert(self.trace() =~= old(self).trace() + calls);
        }
        res
    }

    /// Reads the newest reply as text and gives it back.
    fn string_of(&mut self, reply: RedisCallReply) -> (res: Result<String, RModError>)
        requires
            old(self).outstanding().len() > 0,
            old(self).outstanding().last() == Resource::Reply(reply.handle()),
        ensures
            exists|kind: ReplyType, bytes: Seq<u8>|
                {
                    &&& final(self).after(
                        old(self),
                        #[trigger] to_string_calls(reply.handle(), kind, bytes) + seq![
                            Exchange::FreeCallReply { reply: reply.handle() },
                        ],
                    )
                    &&& outcome(res) == to_string_result(kind, bytes)
                },
            final(self).outstanding() == old(self).outstanding().drop_last(),
    {
        let ghost handle = reply.handle();
        let res = reply.to_string(self);
        let ghost (kind, bytes) = choose|kind: ReplyType, bytes: Seq<u8>|
            {
                &&& self.after(old(self), #[trigger] to_string_calls(handle, kind, bytes))
                &&& outcome(res) == to_string_result(kind, bytes)
            };
        proof {
            lemma_last_is_out(old(self).outstanding(), Resource::Reply(handle));
        }
        reply.release(self);
        proof {
            let calls = to_string_calls(handle, kind, bytes) + seq![
                Exchange::FreeCallReply { reply: handle },
            ];
            assert(self.trace() =~= old(self).trace() + calls);
        }
        res
    }

    /// Runs `cmdname` on the key `args0` with the argument `args1` and hands
    /// back the integer that the host made of the reply.
    pub fn call2_reply_int(&mut self, cmdname: &str, args0: &str, args1: &str) -> (integer: i64)
        requires
            no_nul(cmdname@),
            no_nul(args0@),
            no_nul(args1@),
        ensures
            final(self).after(
                old(self),
                seq![
                    Exchange::CallInteger {
                        ctx: old(self).ctx(),
                        cmdname: nul_terminated(cmdname@),
                        key: nul_terminated(args0@),
                        arg0: nul_terminated(args1@),
                        integer,
                    },
                ],
            ),
            final(self).outstanding() == old(self).outstanding(),
    {
        let cmdname = c_string(cmdname);
        let key = c_string(args0);
        let arg0 = c_string(args1);
        let integer = self.host_callable2_reply_int(
            cmdname.as_slice(),
            key.as_slice(),
            arg0.as_slice(),
        );
        proof {
            let e = Exchange::CallInteger {
                ctx: old(self).ctx(),
                cmdname: cmdname@,
                key: key@,
                arg0: arg0@,
                integer,
            };
            assert(old(self).trace().push(e) =~= old(self).trace() + seq![e]);
        }
        integer
    }

    /// Runs `cmdname` with one argument; the reply has to be an integer.
    pub fn call1_reply_integer(&mut self, cmdname: &str, arg0: &str) -> (res: Result<i64, RModError>)
        requires
            no_nul(cmdname@),
            no_nul(arg0@),
        ensures
            exists|reply: RedisModuleCallReply, kind: ReplyType, integer: i64|
                {
                    &&& final(self).after(
                        old(self),
                        #[trigger] call_integer_calls(
                            old(self).ctx(),
                            cmdname@,
                            seq![arg0@],
                            reply,
                            kind,
                            integer,
                        ),
                    )
                    &&& outcome(res) == to_integer_result(kind, integer)
                },
            final(self).outstanding() == old(self).outstanding(),
    {
        let ghost ctx = self.ctx();
        let ghost args = seq![arg0@];
        let cmd = c_string(cmdname);
        let arg = c_string(arg0);
        let handle = self.host_call1_reply(cmd.as_slice(), arg.as_slice());
        proof {
            assert(seq![arg@] =~= args.map_values(|arg: Seq<char>| nul_terminated(arg)));
        }
        let ghost called = self.trace();
        let res = self.integer_of(RedisCallReply::create(handle));
        proof {
            let (kind, integer) = choose|kind: ReplyType, integer: i64|
                {
                    &&& self.trace() == called + (#[trigger] to_integer_calls(handle, kind, integer)
                        + seq![Exchange::FreeCallReply { reply: handle }])
                    &&& outcome(res) == to_integer_result(kind, integer)
                };
            let calls = call_integer_calls(ctx, cmdname@, args, handle, kind, integer);
            assert(self.trace() =~= old(self).trace() + calls);
            assert(old(self).outstanding().push(Resource::Reply(handle)).drop_last() == old(
                self,
            ).outstanding());
        }
        res
    }

    /// Runs `cmdname` with two arguments; the reply has to be an integer.
    pub fn call2_reply_integer(&mut self, cmdname: &str, arg0: &str, arg1: &str) -> (res: Result<
        i64,
        RModError,
    >)
        requires
            no_nul(cmdname@),
            no_nul(arg0@),
            no_nul(arg1@),
        ensures
            exists|reply: RedisModuleCallReply, kind: ReplyType, integer: i64|
                {
                    &&& final(self).after(
                        old(self),
                        #[trigger] call_integer_calls(
                            old(self).ctx(),
                            cmdname@,
                            seq![arg0@].push(arg1@),
                            reply,
                            kind,
                            integer,
                        ),
                    )
                    &&& outcome(res) == to_integer_result(kind, integer)
                },
            final(self).outstanding() == old(self).outstanding(),
    {
        let ghost ctx = self.ctx();
        let ghost args = seq![arg0@].push(arg1@);
        let cmd = c_string(cmdname);
        let first = c_string(arg0);
        let second = c_string(arg1);
        let handle = self.host_call2_reply(cmd.as_slice(), first.as_slice(), second.as_slice());
        proof {
            assert(seq![first@, second@] =~= args.map_values(
                |arg: Seq<char>| nul_terminated(arg),
            ));
        }
        let ghost called = self.trace();
        let res = self.integer_of(RedisCallReply::create(handle));
        proof {
            let (kind, integer) = choose|kind: ReplyType, integer: i64|
                {
                    &&& self.trace() == called + (#[trigger] to_integer_calls(handle, kind, integer)
                        + seq![Exchange::FreeCallReply { reply: handle }])
                    &&& outcome(res) == to_integer_result(kind, integer)
                };
            let calls = call_integer_calls(ctx, cmdname@, args, handle, kind, integer);
            assert(self.trace() =~= old(self).trace() + calls);
            assert(old(self).outstanding().push(Resource::Reply(handle)).drop_last() == old(
                self,
            ).outstanding());
        }
        res
    }

    /// Runs `cmdname` with three arguments; the reply has to be an integer.
    pub fn call3_reply_integer(&mut self, cmdname: &str, arg0: &str, arg1: &str, arg2: &str) -> (res:
        Result<i64, RModError>)
        requires
            no_nul(cmdname@),
            no_nul(arg0@),
            no_nul(arg1@),
            no_nul(arg2@),
        ensures
            exists|reply: RedisModuleCallReply, kind: ReplyType, integer: i64|
                {
                    &&& final(self).after(
                        old(self),
                        #[trigger] call_integer_calls(
                            old(self).ctx(),
                            cmdname@,
                            seq![arg0@].push(arg1@).push(arg2@),
                            reply,
                            kind,
                            integer,
                        ),
                    )
                    &&& outcome(res) == to_integer_result(kind, integer)
                },
            final(self).outstanding() == old(self).outstanding(),
    {
        let ghost ctx = self.ctx();
        let ghost args = seq![arg0@].push(arg1@).push(arg2@);
        let cmd = c_string(cmdname);
        let first = c_string(arg0);
        let second = c_string(arg1);
        let third = c_string(arg2);
        let handle = self.host_call3_reply(
            cmd.as_slice(),
            first.as_slice(),
            second.as_slice(),
            third.as_slice(),
        );
        proof {
            assert(seq![first@, second@, third@] =~= args.map_values(
                |arg: Seq<char>| nul_terminated(arg),
            ));
        }
        let ghost called = self.trace();
        let res = self.integer_of(RedisCallReply::create(handle));
        proof {
            let (kind, integer) = choose|kind: ReplyType, integer: i64|
                {
                    &&& self.trace() == called + (#[trigger] to_integer_calls(handle, kind, integer)
                        + seq![Exchange::FreeCallReply { reply: handle }])
                    &&& outcome(res) == to_integer_result(kind, integer)
                };
            let calls = call_integer_calls(ctx, cmdname@, args, handle, kind, integer);
            assert(self.trace() =~= old(self).trace() + calls);
            assert(old(self).outstanding().push(Resource::Reply(handle)).drop_last() == old(
                self,
            ).outstanding());
        }
        res
    }

    /// Runs `cmdname` with one argument; the reply has to be a string.
    pub fn call1_reply_string(&mut self, cmdname: &str, arg0: &str) -> (res: Result<String, RModError>)
        requires
            no_nul(cmdname@),
            no_nul(arg0@),
        ensures
            exists|reply: RedisModuleCallReply, kind: ReplyType, bytes: Seq<u8>|
                {
                    &&& final(self).after(
                        old(self),
                        #[trigger] call_string_calls(
                            old(self).ctx(),
                            cmdname@,
                            seq![arg0@],
                            reply,
                            kind,
                            bytes,
                        ),
                    )
                    &&& outcome(res) == to_string_result(kind, bytes)
                },
            final(self).outstanding() == old(self).outstanding(),
    {
        let ghost ctx = self.ctx();
        let ghost args = seq![arg0@];
        let cmd = c_string(cmdname);
        let arg = c_string(arg0);
        let handle = self.host_call1_reply(cmd.as_slice(), arg.as_slice());
        proof {
            assert(seq![arg@] =~= args.map_values(|arg: Seq<char>| nul_terminated(arg)));
        }
        let ghost called = self.trace();
        let res = self.string_of(RedisCallReply::create(handle));
        proof {
            let (kind, bytes) = choose|kind: ReplyType, bytes: Seq<u8>|
                {
                    &&& self.trace() == called + (#[trigger] to_string_calls(handle, kind, bytes)
                        + seq![Exchange::FreeCallReply { reply: handle }])
                    &&& outcome(res) == to_string_result(kind, bytes)
                };
            let calls = call_string_calls(ctx, cmdname@, args, handle, kind, bytes);
            assert(self.trace() =~= old(self).trace() + calls);
            assert(old(self).outstanding().push(Resource::Reply(handle)).drop_last() == old(
                self,
            ).outstanding());
        }
        res
    }

    /// Runs `cmdname` with two arguments; the reply has to be a string.
    pub fn call2_reply_string(&mut self, cmdname: &str, arg0: &str, arg1: &str) -> (res: Result<
        String,
        RModError,
    >)
        requires
            no_nul(cmdname@),
            no_nul(arg0@),
            no_nul(arg1@),
        ensures
            exists|reply: RedisModuleCallReply, kind: ReplyType, bytes: Seq<u8>|
                {
                    &&& final(self).after(
                        old(self),
                        #[trigger] call_string_calls(
                            old(self).ctx(),
                            cmdname@,
                            seq![arg0@].push(arg1@),
                            reply,
                            kind,
                            bytes,
                        ),
                    )
                    &&& outcome(res) == to_string_result(kind, bytes)
                },
            final(self).outstanding() == old(self).outstanding(),
    {
        let ghost ctx = self.ctx();
        let ghost args = seq![arg0@].push(arg1@);
        let cmd = c_string(cmdname);
        let first = c_string(arg0);
        let second = c_string(arg1);
        let handle = self.host_call2_reply(cmd.as_slice(), first.as_slice(), second.as_slice());
        proof {
            assert(seq![first@, second@] =~= args.map_values(
                |arg: Seq<char>| nul_terminated(arg),
            ));
        }
        let ghost called = self.trace();
        let res = self.string_of(RedisCallReply::create(handle));
        proof {
            let (kind, bytes) = choose|kind: ReplyType, bytes: Seq<u8>|
                {
                    &&& self.trace() == called + (#[trigger] to_string_calls(handle, kind, bytes)
                        + seq![Exchange::FreeCallReply { reply: handle }])
                    &&& outcome(res) == to_string_result(kind, bytes)
                };
            let calls = call_string_calls(ctx, cmdname@, args, handle, kind, bytes);
            assert(self.trace() =~= old(self).trace() + calls);
            assert(old(self).outstanding().push(Resource::Reply(handle)).drop_last() == old(
                self,
            ).outstanding());
        }
        res
    }

    /// Runs `cmdname` with three arguments; the reply has to be a string.
    pub fn call3_reply_string(&mut self, cmdname: &str, arg0: &str, arg1: &str, arg2: &str) -> (res:
        Result<String, RModError>)
        requires
            no_nul(cmdname@),
            no_nul(arg0@),
            no_nul(arg1@),
            no_nul(arg2@),
        ensures
            exists|reply: RedisModuleCallReply, kind: ReplyType, bytes: Seq<u8>|
                {
                    &&& final(self).after(
                        old(self),
                        #[trigger] call_string_calls(
                            old(self).ctx(),
                            cmdname@,
                            seq![arg0@].push(arg1@).push(arg2@),
                            reply,
                            kind,
                            bytes,
                        ),
                    )
                    &&& outcome(res) == to_string_result(kind, bytes)
                },
            final(self).outstanding() == old(self).outstanding(),
    {
        let ghost ctx = self.ctx();
        let ghost args = seq![arg0@].push(arg1@).push(arg2@);
        let cmd = c_string(cmdname);
        let first = c_string(arg0);
        let second = c_string(arg1);
        let third = c_string(arg2);
        let handle = self.host_call3_reply(
            cmd.as_slice(),
            first.as_slice(),
            second.as_slice(),
            third.as_slice(),
        );
        proof {
            assert(seq![first@, second@, third@] =~= args.map_values(
                |arg: Seq<char>| nul_terminated(arg),
            ));
        }
        let ghost called = self.trace();
        let res = self.string_of(RedisCallReply::create(handle));
        proof {
            let (kind, bytes) = choose|kind: ReplyType, bytes: Seq<u8>|
                {
                    &&& self.trace() == called + (#[trigger] to_string_calls(handle, kind, bytes)
                        + seq![Exchange::FreeCallReply { reply: handle }])
                    &&& outcome(res) == to_string_result(kind, bytes)
                };
            let calls = call_string_calls(ctx, cmdname@, args, handle, kind, bytes);
            assert(self.trace() =~= old(self).trace() + calls);
            assert(old(self).outstanding().push(Resource::Reply(handle)).drop_last() == old(
                self,
            ).outstanding());
        }
        res
    }

    /// Asks the host for the names of the keys that match `arg` and hands them
    /// back in the order in which the host gave them.
    ///
    /// An element of the reply that is no string, or no text, does not fail
    /// the query: its place is taken by the text of the error that says so.
    pub fn call_keys(&mut self, arg: &str) -> (res: Result<Vec<String>, RModError>)
        requires
            no_nul(arg@),
        ensures
            exists|reply: RedisModuleCallReply, length: usize, answers: Seq<ElementAnswer>|
                {
                    &&& final(self).after(
                        old(self),
                        #[trigger] call_keys_calls(old(self).ctx(), arg@, reply, length, answers),
                    )
                    &&& call_keys_result(length, answers, res)
                },
            final(self).outstanding() == old(self).outstanding(),
    {
        let ghost ctx = self.ctx();
        let ghost before = self.trace();
        let ghost out = self.outstanding();
        let pattern = c_string(arg);
        let cmd = c_string("keys");
        let handle = self.host_call1_reply(cmd.as_slice(), pattern.as_slice());
        let reply = RedisCallReply::create(handle);
        let size = reply.check_length(self);
        let ghost base = self.trace();
        proof {
            assert(seq![pattern@] =~= seq![arg@].map_values(|arg: Seq<char>| nul_terminated(arg)));
            assert(base =~= before + seq![
                call_exchange(ctx, "keys"@, seq![arg@], handle),
                Exchange::CallReplyLength { reply: handle, length: size },
            ]);
        }
        let mut vec_keys: Vec<String> = Vec::new();
        let ghost mut answers: Seq<ElementAnswer> = Seq::empty();
        let mut idx: usize = 0;
        while idx < size
            invariant
                idx <= size,
                answers.len() == idx,
                vec_keys@.len() == idx,
                reply.handle() == handle,
                self.ctx() == ctx,
                ctx == old(self).ctx(),
                before == old(self).trace(),
                out == old(self).outstanding(),
                base == before + seq![
                    call_exchange(ctx, "keys"@, seq![arg@], handle),
                    Exchange::CallReplyLength { reply: handle, length: size },
                ],
                self.trace() == base + key_elements_calls(handle, answers),
                self.outstanding() == out.push(Resource::Reply(handle)),
                forall|i: int|
                    0 <= i < idx ==> (#[trigger] answers[i]).kind == ReplyType::Array
                        && vec_keys@[i]@ == key_element_text(answers[i]),
            decreases size - idx,
        {
            let ghost so_far = self.trace();
            let taken = reply.reply_array_element(self, idx);
            let ghost (kind, element) = choose|kind: ReplyType, element: RedisModuleCallReply|
                {
                    &&& self.trace() == so_far + #[trigger] element_calls(handle, idx, kind, element)
                    &&& match taken {
                        Ok(wrapped) => kind == ReplyType::Array && wrapped.handle() == element,
                        Err(err) => kind != ReplyType::Array,
                    }
                };
            match taken {
                Err(_) => {
                    let ghost answer = ElementAnswer {
                        kind,
                        element,
                        element_kind: ReplyType::Unknown,
                        bytes: seq![],
                    };
                    proof {
                        lemma_newest_is_out(out, Resource::Reply(handle));
                    }
                    reply.release(self);
                    proof {
                        let all = answers.push(answer);
                        assert(all.drop_last() == answers);
                        assert(self.trace() =~= before + call_keys_calls(
                            ctx,
                            arg@,
                            handle,
                            size,
                            all,
                        ));
                    }
                    let res = Err(RModError::generic("Failed to take element from reply array"));
                    assert(call_keys_result(size, answers.push(answer), res));
                    return res;
                },
                Ok(reply2) => {
                    let ghost taken_trace = self.trace();
                    let ele_str = reply2.to_string(self);
                    let ghost (element_kind, bytes) = choose|element_kind: ReplyType, bytes: Seq<u8>|
                        {
                            &&& self.trace() == taken_trace + #[trigger] to_string_calls(
                                element,
                                element_kind,
                                bytes,
                            )
                            &&& outcome(ele_str) == to_string_result(element_kind, bytes)
                        };
                    proof {
                        lemma_newest_is_out(out.push(Resource::Reply(handle)), Resource::Reply(element));
                    }
                    reply2.release(self);
                    let entry = match ele_str {
                        Ok(s) => s,
                        Err(msg) => msg.to_string(),
                    };
                    vec_keys.push(entry);
                    proof {
                        let answer = ElementAnswer { kind, element, element_kind, bytes };
                        let all = answers.push(answer);
                        assert(all.drop_last() == answers);
                        assert(self.trace() =~= base + key_elements_calls(handle, all));
                        answers = all;
                    }
                },
            }
            idx += 1;
        }
        proof {
            lemma_newest_is_out(out, Resource::Reply(handle));
        }
        reply.release(self);
        proof {
            assert(self.trace() =~= before + call_keys_calls(ctx, arg@, handle, size, answers));
        }
        Ok(vec_keys)
    }
}

} // verus!
