//! One function for each native call. Each makes the call and records it; the
//! ones that hand out or give back a handle keep the account as well.
use crate::redis::ledger::lemma_last_index_of;
use crate::redis::ledger::release_of;
use crate::redis::ledger::without_last;
use crate::redis::ledger::Resource;
use crate::redis::raw::Exchange;
use crate::redis::raw::Host;
use crate::redis::raw::KeyMode;
use crate::redis::raw::KeyType;
use crate::redis::raw::RedisModuleCallReply;
use crate::redis::raw::RedisModuleCmdFunc;
use crate::redis::raw::RedisModuleKey;
use crate::redis::raw::RedisModuleString;
use crate::redis::raw::ReplyType;
use crate::redis::raw::Status;
use crate::redis::Redis;
use vstd::prelude::*;

verus! {

impl<H: Host> Redis<H> {
    pub(crate) fn host_create_string(&mut self, ptr: &[u8], len: usize) -> (string: RedisModuleString)
        ensures
            final(self).ctx() == old(self).ctx(),
            final(self).trace() == old(self).trace().push(
                Exchange::CreateString { ctx: old(self).ctx(), ptr: ptr@, len, string },
            ),
            final(self).outstanding() == old(self).outstanding().push(Resource::String(string)),
    {
        let string = self.host.create_string(self.ctx, ptr, len);
        self.credit(
            Resource::String(string),
            Ghost(Exchange::CreateString { ctx: self.ctx, ptr: ptr@, len, string }),
        );
        string
    }

    /// Gives a native string back, unless this session does not hold it.
    pub(crate) fn host_free_string(&mut self, string: RedisModuleString)
        ensures
            final(self).ctx() == old(self).ctx(),
            final(self).trace() == release_of(
                old(self).trace(),
                old(self).outstanding(),
                Resource::String(string),
                Exchange::FreeString { ctx: old(self).ctx(), string },
            ),
            final(self).outstanding() == without_last(
                old(self).outstanding(),
                Resource::String(string),
            ),
    {
        proof {
            lemma_last_index_of(self.outstanding(), Resource::String(string));
        }
        match self.ledger.position(Resource::String(string)) {
            Some(at) => {
                self.host.free_string(self.ctx, string);
                self.debit(
                    Resource::String(string),
                    at,
                    Ghost(Exchange::FreeString { ctx: self.ctx, string }),
                );
            },
            None => {},
        }
    }

    pub(crate) fn host_string_ptr_len(&mut self, string: RedisModuleString) -> (bytes: Vec<u8>)
        ensures
            final(self).ctx() == old(self).ctx(),
            final(self).trace() == old(self).trace().push(
                Exchange::StringPtrLen { string, bytes: bytes@ },
            ),
            final(self).outstanding() == old(self).outstanding(),
    {
        let bytes = self.host.string_ptr_len(string);
        self.note(Ghost(Exchange::StringPtrLen { string, bytes: bytes@ }));
        bytes
    }

    pub(crate) fn host_init(&mut self, modulename: &[u8], module_version: i32, api_version: i32) -> (status: Status)
        ensures
            final(self).ctx() == old(self).ctx(),
            final(self).trace() == old(self).trace().push(Exchange::Init { ctx: old(self).ctx(), modulename: modulename@, module_version, api_version, status }),
            final(self).outstanding() == old(self).outstanding(),
    {
        let status = self.host.init(self.ctx, modulename, module_version, api_version);
        self.note(Ghost(Exchange::Init { ctx: self.ctx, modulename: modulename@, module_version, api_version, status }));
        status
    }

    pub(crate) fn host_create_command(&mut self, name: &[u8], cmdfunc: Option<RedisModuleCmdFunc>, strflags: &[u8], firstkey: i32, lastkey: i32, keystep: i32) -> (status: Status)
        ensures
            final(self).ctx() == old(self).ctx(),
            final(self).trace() == old(self).trace().push(Exchange::CreateCommand {
                ctx: old(self).ctx(),
                name: name@,
                cmdfunc,
                strflags: strflags@,
                firstkey,
                lastkey,
                keystep,
                status,
            }),
            final(self).outstanding() == old(self).outstanding(),
    {
        let status = self.host.create_command(self.ctx, name, cmdfunc, strflags, firstkey, lastkey, keystep);
        self.note(Ghost(Exchange::CreateCommand {
                ctx: self.ctx,
                name: name@,
                cmdfunc,
                strflags: strflags@,
                firstkey,
                lastkey,
                keystep,
                status,
            }));
        status
    }

    pub(crate) fn host_open_key(&mut self, name: RedisModuleString, mode: KeyMode) -> (key: RedisModuleKey)
        ensures
            final(self).ctx() == old(self).ctx(),
            final(self).trace() == old(self).trace().push(Exchange::OpenKey { ctx: old(self).ctx(), name, mode, key }),
            final(self).outstanding() == old(self).outstanding().push(Resource::Key(key)),
    {
        let key = self.host.open_key(self.ctx, name, mode);
        self.credit(Resource::Key(key), Ghost(Exchange::OpenKey { ctx: self.ctx, name, mode, key }));
        key
    }

    /// Gives a native key back, unless this session does not hold it.
    pub(crate) fn host_close_key(&mut self, key: RedisModuleKey)
        ensures
            final(self).ctx() == old(self).ctx(),
            final(self).trace() == release_of(
                old(self).trace(),
                old(self).outstanding(),
                Resource::Key(key),
                Exchange::CloseKey { key },
            ),
            final(self).outstanding() == without_last(old(self).outstanding(), Resource::Key(key)),
    {
        proof {
            lemma_last_index_of(self.outstanding(), Resource::Key(key));
        }
        match self.ledger.position(Resource::Key(key)) {
            Some(at) => {
                self.host.close_key(key);
                self.debit(Resource::Key(key), at, Ghost(Exchange::CloseKey { key }));
            },
            None => {},
        }
    }

    pub(crate) fn host_key_type(&mut self, key: RedisModuleKey) -> (kind: KeyType)
        ensures
            final(self).ctx() == old(self).ctx(),
            final(self).trace() == old(self).trace().push(Exchange::KeyType { key, kind }),
            final(self).outstanding() == old(self).outstanding(),
    {
        let kind = self.host.key_type(key);
        self.note(Ghost(Exchange::KeyType { key, kind }));
        kind
    }

    pub(crate) fn host_string_set(&mut self, key: RedisModuleKey, val: RedisModuleString) -> (status: Status)
        ensures
            final(self).ctx() == old(self).ctx(),
            final(self).trace() == old(self).trace().push(Exchange::StringSet { key, val, status }),
            final(self).outstanding() == old(self).outstanding(),
    {
        let status = self.host.string_set(key, val);
        self.note(Ghost(Exchange::StringSet { key, val, status }));
        status
    }

    pub(crate) fn host_string_dma(&mut self, key: RedisModuleKey, mode: KeyMode) -> (bytes: Vec<u8>)
        ensures
            final(self).ctx() == old(self).ctx(),
            final(self).trace() == old(self).trace().push(Exchange::StringDma { key, mode, bytes: bytes@ }),
            final(self).outstanding() == old(self).outstanding(),
    {
        let bytes = self.host.string_dma(key, mode);
        self.note(Ghost(Exchange::StringDma { key, mode, bytes: bytes@ }));
        bytes
    }

    pub(crate) fn host_delete_key(&mut self, key: RedisModuleKey) -> (status: Status)
        ensures
            final(self).ctx() == old(self).ctx(),
            final(self).trace() == old(self).trace().push(Exchange::DeleteKey { key, status }),
            final(self).outstanding() == old(self).outstanding(),
    {
        let status = self.host.delete_key(key);
        self.note(Ghost(Exchange::DeleteKey { key, status }));
        status
    }

    pub(crate) fn host_set_expire(&mut self, key: RedisModuleKey, expire: i64) -> (status: Status)
        ensures
            final(self).ctx() == old(self).ctx(),
            final(self).trace() == old(self).trace().push(Exchange::SetExpire { key, expire, status }),
            final(self).outstanding() == old(self).outstanding(),
    {
        let status = self.host.set_expire(key, expire);
        self.note(Ghost(Exchange::SetExpire { key, expire, status }));
        status
    }

    pub(crate) fn host_list_push(&mut self, key: RedisModuleKey, place: i32, ele: RedisModuleString) -> (status: Status)
        ensures
            final(self).ctx() == old(self).ctx(),
            final(self).trace() == old(self).trace().push(Exchange::ListPush { key, place, ele, status }),
            final(self).outstanding() == old(self).outstanding(),
    {
        let status = self.host.list_push(key, place, ele);
        self.note(Ghost(Exchange::ListPush { key, place, ele, status }));
        status
    }

    pub(crate) fn host_list_pop(&mut self, key: RedisModuleKey, place: i32) -> (string: RedisModuleString)
        ensures
            final(self).ctx() == old(self).ctx(),
            final(self).trace() == old(self).trace().push(Exchange::ListPop { key, place, string }),
            final(self).outstanding() == if string.is_null() {
                old(self).outstanding()
            } else {
                old(self).outstanding().push(Resource::String(string))
            },
    {
        let string = self.host.list_pop(key, place);
        if string.is_null() {
            self.note(Ghost(Exchange::ListPop { key, place, string }));
        } else {
            self.credit(Resource::String(string), Ghost(Exchange::ListPop { key, place, string }));
        }
        string
    }

    pub(crate) fn host_rm_hash_get(&mut self, key: RedisModuleKey, field: RedisModuleString) -> (string: RedisModuleString)
        ensures
            final(self).ctx() == old(self).ctx(),
            final(self).trace() == old(self).trace().push(Exchange::HashGet { key, field, string }),
            final(self).outstanding() == if string.is_null() {
                old(self).outstanding()
            } else {
                old(self).outstanding().push(Resource::String(string))
            },
    {
        let string = self.host.rm_hash_get(key, field);
        if string.is_null() {
            self.note(Ghost(Exchange::HashGet { key, field, string }));
        } else {
            self.credit(Resource::String(string), Ghost(Exchange::HashGet { key, field, string }));
        }
        string
    }

    pub(crate) fn host_rm_hash_set(&mut self, key: RedisModuleKey, field: RedisModuleString, val: RedisModuleString) -> (status: Status)
        ensures
            final(self).ctx() == old(self).ctx(),
            final(self).trace() == old(self).trace().push(Exchange::HashSet { key, field, val, status }),
            final(self).outstanding() == old(self).outstanding(),
    {
        let status = self.host.rm_hash_set(key, field, val);
        self.note(Ghost(Exchange::HashSet { key, field, val, status }));
        status
    }

    pub(crate) fn host_reply_with_array(&mut self, len: i64) -> (status: Status)
        ensures
            final(self).ctx() == old(self).ctx(),
            final(self).trace() == old(self).trace().push(Exchange::ReplyWithArray { ctx: old(self).ctx(), len, status }),
            final(self).outstanding() == old(self).outstanding(),
    {
        let status = self.host.reply_with_array(self.ctx, len);
        self.note(Ghost(Exchange::ReplyWithArray { ctx: self.ctx, len, status }));
        status
    }

    pub(crate) fn host_reply_with_error(&mut self, err: &[u8])
        ensures
            final(self).ctx() == old(self).ctx(),
            final(self).trace() == old(self).trace().push(Exchange::ReplyWithError { ctx: old(self).ctx(), err: err@ }),
            final(self).outstanding() == old(self).outstanding(),
    {
        self.host.reply_with_error(self.ctx, err);
        self.note(Ghost(Exchange::ReplyWithError { ctx: self.ctx, err: err@ }));
    }

    pub(crate) fn host_reply_with_long_long(&mut self, ll: i64) -> (status: Status)
        ensures
            final(self).ctx() == old(self).ctx(),
            final(self).trace() == old(self).trace().push(Exchange::ReplyWithLongLong { ctx: old(self).ctx(), ll, status }),
            final(self).outstanding() == old(self).outstanding(),
    {
        let status = self.host.reply_with_long_long(self.ctx, ll);
        self.note(Ghost(Exchange::ReplyWithLongLong { ctx: self.ctx, ll, status }));
        status
    }

    pub(crate) fn host_reply_with_string(&mut self, string: RedisModuleString) -> (status: Status)
        ensures
            final(self).ctx() == old(self).ctx(),
            final(self).trace() == old(self).trace().push(Exchange::ReplyWithString { ctx: old(self).ctx(), string, status }),
            final(self).outstanding() == old(self).outstanding(),
    {
        let status = self.host.reply_with_string(self.ctx, string);
        self.note(Ghost(Exchange::ReplyWithString { ctx: self.ctx, string, status }));
        status
    }

    pub(crate) fn host_reply_with_simple_string(&mut self, msg: &[u8])
        ensures
            final(self).ctx() == old(self).ctx(),
            final(self).trace() == old(self).trace().push(Exchange::ReplyWithSimpleString { ctx: old(self).ctx(), msg: msg@ }),
            final(self).outstanding() == old(self).outstanding(),
    {
        self.host.reply_with_simple_string(self.ctx, msg);
        self.note(Ghost(Exchange::ReplyWithSimpleString { ctx: self.ctx, msg: msg@ }));
    }

    pub(crate) fn host_reply_with_null(&mut self)
        ensures
            final(self).ctx() == old(self).ctx(),
            final(self).trace() == old(self).trace().push(Exchange::ReplyWithNull { ctx: old(self).ctx() }),
            final(self).outstanding() == old(self).outstanding(),
    {
        self.host.reply_with_null(self.ctx);
        self.note(Ghost(Exchange::ReplyWithNull { ctx: self.ctx }));
    }

    pub(crate) fn host_log(&mut self, level: &[u8], fmt: &[u8])
        ensures
            final(self).ctx() == old(self).ctx(),
            final(self).trace() == old(self).trace().push(Exchange::Log { ctx: old(self).ctx(), level: level@, fmt: fmt@ }),
            final(self).outstanding() == old(self).outstanding(),
    {
        self.host.log(self.ctx, level, fmt);
        self.note(Ghost(Exchange::Log { ctx: self.ctx, level: level@, fmt: fmt@ }));
    }

    pub(crate) fn host_replicate_verbatim(&mut self)
        ensures
            final(self).ctx() == old(self).ctx(),
            final(self).trace() == old(self).trace().push(Exchange::ReplicateVerbatim { ctx: old(self).ctx() }),
            final(self).outstanding() == old(self).outstanding(),
    {
        self.host.replicate_verbatim(self.ctx);
        self.note(Ghost(Exchange::ReplicateVerbatim { ctx: self.ctx }));
    }

    pub(crate) fn host_call1_reply(&mut self, cmdname: &[u8], arg0: &[u8]) -> (reply: RedisModuleCallReply)
        ensures
            final(self).ctx() == old(self).ctx(),
            final(self).trace() == old(self).trace().push(Exchange::Call { ctx: old(self).ctx(), cmdname: cmdname@, args: seq![arg0@], reply }),
            final(self).outstanding() == old(self).outstanding().push(Resource::Reply(reply)),
    {
        let reply = self.host.call1_reply(self.ctx, cmdname, arg0);
        self.credit(Resource::Reply(reply), Ghost(Exchange::Call { ctx: self.ctx, cmdname: cmdname@, args: seq![arg0@], reply }));
        reply
    }

    pub(crate) fn host_call2_reply(&mut self, cmdname: &[u8], arg0: &[u8], arg1: &[u8]) -> (reply: RedisModuleCallReply)
        ensures
            final(self).ctx() == old(self).ctx(),
            final(self).trace() == old(self).trace().push(Exchange::Call { ctx: old(self).ctx(), cmdname: cmdname@, args: seq![arg0@, arg1@], reply }),
            final(self).outstanding() == old(self).outstanding().push(Resource::Reply(reply)),
    {
        let reply = self.host.call2_reply(self.ctx, cmdname, arg0, arg1);
        self.credit(Resource::Reply(reply), Ghost(Exchange::Call { ctx: self.ctx, cmdname: cmdname@, args: seq![arg0@, arg1@], reply }));
        reply
    }

    pub(crate) fn host_call3_reply(&mut self, cmdname: &[u8], arg0: &[u8], arg1: &[u8], arg2: &[u8]) -> (reply: RedisModuleCallReply)
        ensures
            final(self).ctx() == old(self).ctx(),
            final(self).trace() == old(self).trace().push(Exchange::Call {
                ctx: old(self).ctx(),
                cmdname: cmdname@,
                args: seq![arg0@, arg1@, arg2@],
                reply,
            }),
            final(self).outstanding() == old(self).outstanding().push(Resource::Reply(reply)),
    {
        let reply = self.host.call3_reply(self.ctx, cmdname, arg0, arg1, arg2);
        self.credit(Resource::Reply(reply), Ghost(Exchange::Call {
                ctx: self.ctx,
                cmdname: cmdname@,
                args: seq![arg0@, arg1@, arg2@],
                reply,
            }));
        reply
    }

    pub(crate) fn host_callable2_reply_int(&mut self, cmdname: &[u8], key: &[u8], arg0: &[u8]) -> (integer: i64)
        ensures
            final(self).ctx() == old(self).ctx(),
            final(self).trace() == old(self).trace().push(Exchange::CallInteger { ctx: old(self).ctx(), cmdname: cmdname@, key: key@, arg0: arg0@, integer }),
            final(self).outstanding() == old(self).outstanding(),
    {
        let integer = self.host.callable2_reply_int(self.ctx, cmdname, key, arg0);
        self.note(Ghost(Exchange::CallInteger { ctx: self.ctx, cmdname: cmdname@, key: key@, arg0: arg0@, integer }));
        integer
    }

    pub(crate) fn host_call_reply_type(&mut self, reply: RedisModuleCallReply) -> (kind: ReplyType)
        ensures
            final(self).ctx() == old(self).ctx(),
            final(self).trace() == old(self).trace().push(Exchange::CallReplyType { reply, kind }),
            final(self).outstanding() == old(self).outstanding(),
    {
        let kind = self.host.call_reply_type(reply);
        self.note(Ghost(Exchange::CallReplyType { reply, kind }));
        kind
    }

    pub(crate) fn host_call_reply_integer(&mut self, reply: RedisModuleCallReply) -> (integer: i64)
        ensures
            final(self).ctx() == old(self).ctx(),
            final(self).trace() == old(self).trace().push(Exchange::CallReplyInteger { reply, integer }),
            final(self).outstanding() == old(self).outstanding(),
    {
        let integer = self.host.call_reply_integer(reply);
        self.note(Ghost(Exchange::CallReplyInteger { reply, integer }));
        integer
    }

    pub(crate) fn host_call_reply_string_ptr(&mut self, reply: RedisModuleCallReply) -> (bytes: Vec<u8>)
        ensures
            final(self).ctx() == old(self).ctx(),
            final(self).trace() == old(self).trace().push(Exchange::CallReplyStringPtr { reply, bytes: bytes@ }),
            final(self).outstanding() == old(self).outstanding(),
    {
        let bytes = self.host.call_reply_string_ptr(reply);
        self.note(Ghost(Exchange::CallReplyStringPtr { reply, bytes: bytes@ }));
        bytes
    }

    pub(crate) fn host_call_reply_length(&mut self, reply: RedisModuleCallReply) -> (length: usize)
        ensures
            final(self).ctx() == old(self).ctx(),
            final(self).trace() == old(self).trace().push(Exchange::CallReplyLength { reply, length }),
            final(self).outstanding() == old(self).outstanding(),
    {
        let length = self.host.call_reply_length(reply);
        self.note(Ghost(Exchange::CallReplyLength { reply, length }));
        length
    }

    pub(crate) fn host_call_reply_array_element(&mut self, reply: RedisModuleCallReply, idx: usize) -> (element: RedisModuleCallReply)
        ensures
            final(self).ctx() == old(self).ctx(),
            final(self).trace() == old(self).trace().push(Exchange::CallReplyArrayElement { reply, idx, element }),
            final(self).outstanding() == old(self).outstanding().push(Resource::Reply(element)),
    {
        let element = self.host.call_reply_array_element(reply, idx);
        self.credit(Resource::Reply(element), Ghost(Exchange::CallReplyArrayElement { reply, idx, element }));
        element
    }

    /// Gives a native reply back, unless this session does not hold it.
    pub(crate) fn host_free_call_reply(&mut self, reply: RedisModuleCallReply)
        ensures
            final(self).ctx() == old(self).ctx(),
            final(self).trace() == release_of(
                old(self).trace(),
                old(self).outstanding(),
                Resource::Reply(reply),
                Exchange::FreeCallReply { reply },
            ),
            final(self).outstanding() == without_last(old(self).outstanding(), Resource::Reply(reply)),
    {
        proof {
            lemma_last_index_of(self.outstanding(), Resource::Reply(reply));
        }
        match self.ledger.position(Resource::Reply(reply)) {
            Some(at) => {
                self.host.free_call_reply(reply);
                self.debit(Resource::Reply(reply), at, Ghost(Exchange::FreeCallReply { reply }));
            },
            None => {},
        }
    }
}

} // verus!
