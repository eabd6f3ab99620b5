//! The host's native interface: handle types, status codes and the table of
//! functions that the host offers to a module.
//!
//! Nothing in this module decides anything. The [`Host`] trait names every
//! native function that the rest of the crate uses; an [`Exchange`] is the
//! record of one such call, with what was handed over and what came back.
use vstd::prelude::*;

verus! {

/// The version of the module interface that a module announces when it loads.
pub const REDISMODULE_APIVER_1: i32 = 1;

/// The access rights asked for when a key is opened, as a set of bit flags.
#[derive(Clone, Copy, Debug, PartialEq, Eq, Structural)]
pub struct KeyMode {
    pub bits: i32,
}

impl KeyMode {
    /// The flag for read access.
    pub open spec fn spec_read() -> KeyMode {
        KeyMode { bits: 1 }
    }

    /// The flag for write access.
    pub open spec fn spec_write() -> KeyMode {
        KeyMode { bits: 2 }
    }

    /// Both flags together.
    pub open spec fn spec_read_write() -> KeyMode {
        KeyMode { bits: 3 }
    }

    /// Whether every flag of `other` is set in `self`.
    pub open spec fn spec_contains(&self, other: KeyMode) -> bool {
        self.bits & other.bits == other.bits
    }

    #[verifier::when_used_as_spec(spec_read)]
    pub fn read() -> (mode: KeyMode)
        ensures
            mode == KeyMode::spec_read(),
    {
        KeyMode { bits: 1 }
    }

    #[verifier::when_used_as_spec(spec_write)]
    pub fn write() -> (mode: KeyMode)
        ensures
            mode == KeyMode::spec_write(),
    {
        KeyMode { bits: 2 }
    }

    /// The flags of `self` and those of `other`.
    pub fn union(self, other: KeyMode) -> (mode: KeyMode)
        ensures
            mode.bits == self.bits | other.bits,
    {
        KeyMode { bits: self.bits | other.bits }
    }

    #[verifier::when_used_as_spec(spec_contains)]
    pub fn contains(&self, other: KeyMode) -> (held: bool)
        ensures
            held == self.spec_contains(other),
    {
        self.bits & other.bits == other.bits
    }
}

/// The kind of value that a reply to a nested call carries.
#[derive(Clone, Copy, Debug, PartialEq, Eq, Structural)]
pub enum ReplyType {
    Unknown,
    String,
    Error,
    Integer,
    Array,
    Nil,
}

/// What the host reports of a call that can fail.
#[derive(Clone, Copy, Debug, PartialEq, Eq, Structural)]
pub enum Status {
    Success,
    Failure,
}

/// The kind of value stored under a key.
#[derive(Clone, Copy, Debug, PartialEq, Eq, Structural)]
pub enum KeyType {
    Empty,
    String,
    List,
    Hash,
    PlainSet,
    Zset,
    Module,
}

/// The host's per-invocation context, by its address.
#[derive(Clone, Copy, Debug, PartialEq, Eq, Structural)]
pub struct RedisModuleCtx {
    pub addr: usize,
}

/// A native key object, by its address. Address 0 is the null handle.
#[derive(Clone, Copy, Debug, PartialEq, Eq, Structural)]
pub struct RedisModuleKey {
    pub addr: usize,
}

/// A native string object, by its address. Address 0 is the null handle.
#[derive(Clone, Copy, Debug, PartialEq, Eq, Structural)]
pub struct RedisModuleString {
    pub addr: usize,
}

/// A native reply object, by its address. Address 0 is the null handle.
#[derive(Clone, Copy, Debug, PartialEq, Eq, Structural)]
pub struct RedisModuleCallReply {
    pub addr: usize,
}

/// The entry point of a command, by its address.
#[derive(Clone, Copy, Debug, PartialEq, Eq, Structural)]
pub struct RedisModuleCmdFunc {
    pub addr: usize,
}

impl RedisModuleKey {
    pub open spec fn spec_is_null(&self) -> bool {
        self.addr == 0
    }

    #[verifier::when_used_as_spec(spec_is_null)]
    pub fn is_null(&self) -> (null: bool)
        ensures
            null == self.spec_is_null(),
    {
        self.addr == 0
    }
}

impl RedisModuleString {
    pub open spec fn spec_is_null(&self) -> bool {
        self.addr == 0
    }

    #[verifier::when_used_as_spec(spec_is_null)]
    pub fn is_null(&self) -> (null: bool)
        ensures
            null == self.spec_is_null(),
    {
        self.addr == 0
    }
}

/// The native functions of the host.
///
/// Text travels in two forms. Names, flags and messages are byte buffers that
/// end in a NUL byte; payloads are a buffer with an explicit length. Where the
/// host hands back a pointer and a length, the method returns those bytes.
///
/// The methods say what a host is used for. Nothing in this crate relies on
/// what a host answers: every contract gives what is handed to the host, and
/// what is made of each answer that it can give.
pub trait Host {
    /// Announces the module: its NUL-terminated name, its version and the
    /// interface version it was built for.
    fn init(
        &mut self,
        ctx: RedisModuleCtx,
        modulename: &[u8],
        module_version: i32,
        api_version: i32,
    ) -> Status;

    /// Registers a command under a NUL-terminated name with NUL-terminated flags.
    fn create_command(
        &mut self,
        ctx: RedisModuleCtx,
        name: &[u8],
        cmdfunc: Option<RedisModuleCmdFunc>,
        strflags: &[u8],
        firstkey: i32,
        lastkey: i32,
        keystep: i32,
    ) -> Status;

    /// Creates a native string from the first `len` bytes of `ptr`.
    fn create_string(&mut self, ctx: RedisModuleCtx, ptr: &[u8], len: usize) -> RedisModuleString;

    /// Releases a native string.
    fn free_string(&mut self, ctx: RedisModuleCtx, string: RedisModuleString);

    /// The bytes of a native string.
    fn string_ptr_len(&mut self, string: RedisModuleString) -> Vec<u8>;

    /// Opens the key of that name; in read mode the null handle stands for an absent key.
    fn open_key(
        &mut self,
        ctx: RedisModuleCtx,
        name: RedisModuleString,
        mode: KeyMode,
    ) -> RedisModuleKey;

    /// Releases a native key.
    fn close_key(&mut self, kp: RedisModuleKey);

    /// The kind of value stored under an open key.
    fn key_type(&mut self, kp: RedisModuleKey) -> KeyType;

    /// Replaces the string value of an open key.
    fn string_set(&mut self, key: RedisModuleKey, val: RedisModuleString) -> Status;

    /// The bytes of the string value of an open key.
    fn string_dma(&mut self, key: RedisModuleKey, mode: KeyMode) -> Vec<u8>;

    /// Deletes an open key.
    fn delete_key(&mut self, key: RedisModuleKey) -> Status;

    /// Sets the time to live of an open key, in milliseconds.
    fn set_expire(&mut self, key: RedisModuleKey, expire: i64) -> Status;

    /// Pushes an element to the list under an open key: at the head for place 0,
    /// at the tail for place -1.
    fn list_push(&mut self, key: RedisModuleKey, place: i32, ele: RedisModuleString) -> Status;

    /// Pops an element from the list under an open key, head or tail as for
    /// `list_push`. The element is a new native string, or the null handle.
    fn list_pop(&mut self, key: RedisModuleKey, place: i32) -> RedisModuleString;

    /// The value of a field of the hash under an open key, as a new native
    /// string, or the null handle.
    fn rm_hash_get(&mut self, key: RedisModuleKey, field: RedisModuleString) -> RedisModuleString;

    /// Sets a field of the hash under an open key.
    fn rm_hash_set(
        &mut self,
        key: RedisModuleKey,
        field: RedisModuleString,
        val: RedisModuleString,
    ) -> Status;

    /// Announces an array reply of `len` elements.
    fn reply_with_array(&mut self, ctx: RedisModuleCtx, len: i64) -> Status;

    /// Replies with an error whose text is NUL-terminated.
    fn reply_with_error(&mut self, ctx: RedisModuleCtx, err: &[u8]);

    /// Replies with an integer.
    fn reply_with_long_long(&mut self, ctx: RedisModuleCtx, ll: i64) -> Status;

    /// Replies with a native string.
    fn reply_with_string(&mut self, ctx: RedisModuleCtx, string: RedisModuleString) -> Status;

    /// Replies with a simple string whose text is NUL-terminated.
    fn reply_with_simple_string(&mut self, ctx: RedisModuleCtx, msg: &[u8]);

    /// Replies with the null value.
    fn reply_with_null(&mut self, ctx: RedisModuleCtx);

    /// Writes a NUL-terminated message to the host's log at a NUL-terminated level.
    fn log(&mut self, ctx: RedisModuleCtx, level: &[u8], fmt: &[u8]);

    /// Asks the host to propagate the running command as it was received.
    fn replicate_verbatim(&mut self, ctx: RedisModuleCtx);

    /// Runs a command with one argument; all text is NUL-terminated.
    fn call1_reply(&mut self, ctx: RedisModuleCtx, cmdname: &[u8], arg0: &[u8]) -> RedisModuleCallReply;

    /// Runs a command with two arguments; all text is NUL-terminated.
    fn call2_reply(
        &mut self,
        ctx: RedisModuleCtx,
        cmdname: &[u8],
        arg0: &[u8],
        arg1: &[u8],
    ) -> RedisModuleCallReply;

    /// Runs a command with three arguments; all text is NUL-terminated.
    fn call3_reply(
        &mut self,
        ctx: RedisModuleCtx,
        cmdname: &[u8],
        arg0: &[u8],
        arg1: &[u8],
        arg2: &[u8],
    ) -> RedisModuleCallReply;

    /// Runs a command on a key with one argument and hands back the integer it
    /// replied with; all text is NUL-terminated.
    fn callable2_reply_int(&mut self, ctx: RedisModuleCtx, cmdname: &[u8], key: &[u8], arg0: &[u8]) -> i64;

    /// The kind of a reply.
    fn call_reply_type(&mut self, reply: RedisModuleCallReply) -> ReplyType;

    /// The integer of an integer reply.
    fn call_reply_integer(&mut self, reply: RedisModuleCallReply) -> i64;

    /// The bytes of a string reply.
    fn call_reply_string_ptr(&mut self, reply: RedisModuleCallReply) -> Vec<u8>;

    /// The number of elements of an array reply.
    fn call_reply_length(&mut self, reply: RedisModuleCallReply) -> usize;

    /// The element of an array reply at an index.
    fn call_reply_array_element(&mut self, reply: RedisModuleCallReply, idx: usize) -> RedisModuleCallReply;

    /// Releases a reply and everything below it.
    fn free_call_reply(&mut self, reply: RedisModuleCallReply);
}

/// One call of a native function: its arguments and the host's answer.
#[allow(inconsistent_fields)]
pub enum Exchange {
    Init { ctx: RedisModuleCtx, modulename: Seq<u8>, module_version: i32, api_version: i32, status: Status },
    CreateCommand {
        ctx: RedisModuleCtx,
        name: Seq<u8>,
        cmdfunc: Option<RedisModuleCmdFunc>,
        strflags: Seq<u8>,
        firstkey: i32,
        lastkey: i32,
        keystep: i32,
        status: Status,
    },
    CreateString { ctx: RedisModuleCtx, ptr: Seq<u8>, len: usize, string: RedisModuleString },
    FreeString { ctx: RedisModuleCtx, string: RedisModuleString },
    StringPtrLen { string: RedisModuleString, bytes: Seq<u8> },
    OpenKey { ctx: RedisModuleCtx, name: RedisModuleString, mode: KeyMode, key: RedisModuleKey },
    CloseKey { key: RedisModuleKey },
    KeyType { key: RedisModuleKey, kind: KeyType },
    StringSet { key: RedisModuleKey, val: RedisModuleString, status: Status },
    StringDma { key: RedisModuleKey, mode: KeyMode, bytes: Seq<u8> },
    DeleteKey { key: RedisModuleKey, status: Status },
    SetExpire { key: RedisModuleKey, expire: i64, status: Status },
    ListPush { key: RedisModuleKey, place: i32, ele: RedisModuleString, status: Status },
    ListPop { key: RedisModuleKey, place: i32, string: RedisModuleString },
    HashGet { key: RedisModuleKey, field: RedisModuleString, string: RedisModuleString },
    HashSet { key: RedisModuleKey, field: RedisModuleString, val: RedisModuleString, status: Status },
    ReplyWithArray { ctx: RedisModuleCtx, len: i64, status: Status },
    ReplyWithError { ctx: RedisModuleCtx, err: Seq<u8> },
    ReplyWithLongLong { ctx: RedisModuleCtx, ll: i64, status: Status },
    ReplyWithString { ctx: RedisModuleCtx, string: RedisModuleString, status: Status },
    ReplyWithSimpleString { ctx: RedisModuleCtx, msg: Seq<u8> },
    ReplyWithNull { ctx: RedisModuleCtx },
    Log { ctx: RedisModuleCtx, level: Seq<u8>, fmt: Seq<u8> },
    ReplicateVerbatim { ctx: RedisModuleCtx },
    Call { ctx: RedisModuleCtx, cmdname: Seq<u8>, args: Seq<Seq<u8>>, reply: RedisModuleCallReply },
    CallInteger { ctx: RedisModuleCtx, cmdname: Seq<u8>, key: Seq<u8>, arg0: Seq<u8>, integer: i64 },
    CallReplyType { reply: RedisModuleCallReply, kind: ReplyType },
    CallReplyInteger { reply: RedisModuleCallReply, integer: i64 },
    CallReplyStringPtr { reply: RedisModuleCallReply, bytes: Seq<u8> },
    CallReplyLength { reply: RedisModuleCallReply, length: usize },
    CallReplyArrayElement { reply: RedisModuleCallReply, idx: usize, element: RedisModuleCallReply },
    FreeCallReply { reply: RedisModuleCallReply },
}

} // verus!
