//! Laws that hold of the calls this crate makes, whatever the host answers.
use crate::error::RModError;
use crate::redis::key::open_key_calls;
use crate::redis::key::opens_for_writing;
use crate::redis::key::read_result;
use crate::redis::key::write_calls;
use crate::redis::key::KeyMode;
use crate::redis::raw;
use crate::redis::raw::Exchange;
use crate::redis::raw::RedisModuleCtx;
use crate::redis::raw::RedisModuleKey;
use crate::redis::raw::RedisModuleString;
use crate::redis::raw::Status;
use vstd::prelude::*;
use vstd::utf8::encode_utf8;
use vstd::utf8::encode_utf8_decode_utf8;
use vstd::utf8::encode_utf8_valid_utf8;

verus! {

/// Opening a key for reading never asks the host for the right to write.
pub proof fn lemma_read_only_open_never_asks_to_write(
    ctx: RedisModuleCtx,
    name: Seq<char>,
    string: RedisModuleString,
    key: RedisModuleKey,
)
    ensures
        forall|i: int|
            0 <= i < open_key_calls(ctx, name, KeyMode::Read, string, key).len()
                ==> !opens_for_writing(
                #[trigger] open_key_calls(ctx, name, KeyMode::Read, string, key)[i],
            ),
{
    assert(1i32 & 2i32 != 2i32) by (bit_vector);
}

/// Opening a key for reading and writing always asks the host for the right
/// to write.
pub proof fn lemma_read_write_open_asks_to_write(
    ctx: RedisModuleCtx,
    name: Seq<char>,
    string: RedisModuleString,
    key: RedisModuleKey,
)
    ensures
        exists|i: int|
            0 <= i < open_key_calls(ctx, name, KeyMode::ReadWrite, string, key).len()
                && opens_for_writing(
                #[trigger] open_key_calls(ctx, name, KeyMode::ReadWrite, string, key)[i],
            ),
{
    assert(3i32 & 2i32 == 2i32) by (bit_vector);
    assert(opens_for_writing(open_key_calls(ctx, name, KeyMode::ReadWrite, string, key)[1]));
}

/// The bytes of a native string that a call makes: as many bytes of the
/// buffer as the call says.
pub open spec fn created_bytes(e: Exchange) -> Seq<u8> {
    match e {
        Exchange::CreateString { ptr, len, .. } => ptr.take(len as int),
        _ => Seq::empty(),
    }
}

/// A text that is written reads back as the same text: where a read gets
/// from the host the bytes that a write of `val` handed to it, the read gives
/// `val`.
pub proof fn lemma_written_text_reads_back(
    ctx: RedisModuleCtx,
    key: RedisModuleKey,
    val: Seq<char>,
    string: RedisModuleString,
    status: Status,
    res: Result<Option<String>, RModError>,
)
    requires
        encode_utf8(val).len() <= usize::MAX,
        read_result(created_bytes(write_calls(ctx, key, val, string, status)[0]), res),
    ensures
        res matches Ok(Some(text)) && text@ == val,
{
    encode_utf8_valid_utf8(val);
    encode_utf8_decode_utf8(val);
    let bytes = encode_utf8(val);
    assert(bytes.push(0u8).take(bytes.len() as int) == bytes);
}

/// How many replies the module owes the host after one more call, if it owed
/// `owed` before: every reply pays one, and the announcement of an array adds
/// one for each of its elements.
pub open spec fn owed_after(owed: int, e: Exchange) -> int {
    match e {
        Exchange::ReplyWithArray { len, .. } => owed - 1 + len,
        Exchange::ReplyWithError { .. } => owed - 1,
        Exchange::ReplyWithLongLong { .. } => owed - 1,
        Exchange::ReplyWithString { .. } => owed - 1,
        Exchange::ReplyWithSimpleString { .. } => owed - 1,
        Exchange::ReplyWithNull { .. } => owed - 1,
        _ => owed,
    }
}

/// How many replies the module owes the host after `calls`, if it owed
/// `owed` before them.
pub open spec fn owed_replies(owed: int, calls: Seq<Exchange>) -> int
    decreases calls.len(),
{
    if calls.len() == 0 {
        owed
    } else {
        owed_after(owed_replies(owed, calls.drop_last()), calls.last())
    }
}

/// Whether `e` is a reply that is no announcement of an array.
pub open spec fn is_plain_reply(e: Exchange) -> bool {
    match e {
        Exchange::ReplyWithError { .. } => true,
        Exchange::ReplyWithLongLong { .. } => true,
        Exchange::ReplyWithString { .. } => true,
        Exchange::ReplyWithSimpleString { .. } => true,
        Exchange::ReplyWithNull { .. } => true,
        _ => false,
    }
}

/// Plain replies pay one reply each.
proof fn lemma_plain_replies_pay(owed: int, replies: Seq<Exchange>)
    requires
        forall|i: int| 0 <= i < replies.len() ==> is_plain_reply(#[trigger] replies[i]),
    ensures
        owed_replies(owed, replies) == owed - replies.len(),
    decreases replies.len(),
{
    if replies.len() > 0 {
        let front = replies.drop_last();
        assert forall|i: int| 0 <= i < front.len() implies is_plain_reply(#[trigger] front[i]) by {
            assert(front[i] == replies[i]);
        }
        lemma_plain_replies_pay(owed, front);
        assert(is_plain_reply(replies[replies.len() - 1]));
    }
}

/// What is owed after two runs of calls is what is owed after the second,
/// starting from what is owed after the first.
proof fn lemma_owed_replies_concat(owed: int, first: Seq<Exchange>, second: Seq<Exchange>)
    ensures
        owed_replies(owed, first + second) == owed_replies(owed_replies(owed, first), second),
    decreases second.len(),
{
    if second.len() == 0 {
        assert(first + second == first);
    } else {
        lemma_owed_replies_concat(owed, first, second.drop_last());
        assert((first + second).drop_last() == first + second.drop_last());
        assert((first + second).last() == second.last());
    }
}

/// An array of `len` elements is paid for by exactly `len` replies: after
/// the announcement and any number of plain replies, the module owes what it
/// owed before, less the one reply that the array is, if and only if the
/// replies are `len`.
pub proof fn lemma_array_is_paid_by_its_length(
    owed: int,
    ctx: RedisModuleCtx,
    len: i64,
    status: Status,
    replies: Seq<Exchange>,
)
    requires
        forall|i: int| 0 <= i < replies.len() ==> is_plain_reply(#[trigger] replies[i]),
    ensures
        owed_replies(owed, seq![Exchange::ReplyWithArray { ctx, len, status }] + replies) == owed
            - 1 + len - replies.len(),
        owed_replies(owed, seq![Exchange::ReplyWithArray { ctx, len, status }] + replies) == owed
            - 1 <==> replies.len() == len,
{
    let announced = seq![Exchange::ReplyWithArray { ctx, len, status }];
    assert(announced.drop_last() == Seq::<Exchange>::empty());
    assert(owed_replies(owed, announced) == owed - 1 + len) by {
        assert(owed_replies(owed, announced.drop_last()) == owed);
    }
    lemma_owed_replies_concat(owed, announced, replies);
    lemma_plain_replies_pay(owed - 1 + len, replies);
}

} // verus!
