//! Keys: `RedisKey` for reading, `RedisKeyWritable` for reading and writing.
//!
//! Which operations a key offers is decided by its type. A `RedisKey` has no
//! operation that writes, and it is opened without the right to.
use crate::error::RModError;
use crate::error::RModErrorView;
use crate::redis::handle_status;
use crate::redis::ledger::lemma_newest_is_out;
use crate::redis::ledger::without_last;
use crate::redis::ledger::Resource;
use crate::redis::outcome;
use crate::redis::ledger::release_of;
use crate::redis::raw;
use crate::redis::raw::Exchange;
use crate::redis::raw::Host;
use crate::redis::raw::KeyType;
use crate::redis::raw::RedisModuleCtx;
use crate::redis::raw::RedisModuleKey;
use crate::redis::raw::RedisModuleString;
use crate::redis::raw::Status;
use crate::redis::status_result;
use crate::redis::string::create_string_call;
use crate::redis::string::RedisString;
use crate::redis::text::decoded;
use crate::redis::text::from_byte_string;
use crate::redis::text::utf8_error_bytes;
use crate::redis::Redis;
use vstd::prelude::*;

verus! {

/// How a key is opened.
#[derive(Clone, Copy, Debug, PartialEq, Eq, Structural)]
pub enum KeyMode {
    Read,
    ReadWrite,
}

/// The access rights that the host is asked for in each mode: read alone, or
/// read and write.
pub open spec fn raw_mode(mode: KeyMode) -> raw::KeyMode {
    match mode {
        KeyMode::Read => raw::KeyMode::spec_read(),
        KeyMode::ReadWrite => raw::KeyMode::spec_read_write(),
    }
}

pub(crate) fn to_raw_mode(mode: KeyMode) -> (flags: raw::KeyMode)
    ensures
        flags == raw_mode(mode),
{
    match mode {
        KeyMode::Read => raw::KeyMode::read(),
        KeyMode::ReadWrite => {
            let flags = raw::KeyMode::read().union(raw::KeyMode::write());
            assert(1i32 | 2i32 == 3i32) by (bit_vector);
            flags
        },
    }
}

/// Whether `e` asks the host for the right to write to a key.
pub open spec fn opens_for_writing(e: Exchange) -> bool {
    e matches Exchange::OpenKey { mode, .. } && mode.spec_contains(raw::KeyMode::spec_write())
}

/// The calls that open the key called `name`: the name becomes a native
/// string, and the key of that name is opened.
pub open spec fn open_key_calls(
    ctx: RedisModuleCtx,
    name: Seq<char>,
    mode: KeyMode,
    string: RedisModuleString,
    key: RedisModuleKey,
) -> Seq<Exchange> {
    seq![
        create_string_call(ctx, name, string),
        Exchange::OpenKey { ctx, name: string, mode: raw_mode(mode), key },
    ]
}

/// What reading a value gives when the host hands back `bytes`: the text
/// they spell, or the failure to decode them.
pub open spec fn read_result(bytes: Seq<u8>, res: Result<Option<String>, RModError>) -> bool {
    match res {
        Ok(Some(text)) => decoded(bytes) == Some(text@),
        Ok(None) => false,
        Err(RModError::FromUtf8(err)) => decoded(bytes) is None && utf8_error_bytes(err) == bytes,
        Err(_) => false,
    }
}

/// Whether `res` is what decoding `bytes` gives.
pub open spec fn decode_result(bytes: Seq<u8>, res: Result<String, std::string::FromUtf8Error>) -> bool {
    match res {
        Ok(text) => decoded(bytes) == Some(text@),
        Err(err) => decoded(bytes) is None && utf8_error_bytes(err) == bytes,
    }
}

/// The text of a native string.
pub(crate) fn manifest_redis_string<H: Host>(r: &mut Redis<H>, redis_str: RedisModuleString) -> (res:
    Result<String, std::string::FromUtf8Error>)
    ensures
        exists|bytes: Seq<u8>|
            {
                &&& final(r).trace() == old(r).trace().push(
                    Exchange::StringPtrLen { string: redis_str, bytes },
                )
                &&& #[trigger] decode_result(bytes, res)
            },
        final(r).ctx() == old(r).ctx(),
        final(r).outstanding() == old(r).outstanding(),
{
    let bytes = r.host_string_ptr_len(redis_str);
    let ghost given = bytes@;
    let res = from_byte_string(bytes);
    assert(decode_result(given, res));
    res
}

/// The text of the value under an open key.
pub(crate) fn read_key<H: Host>(r: &mut Redis<H>, key: RedisModuleKey) -> (res: Result<
    String,
    std::string::FromUtf8Error,
>)
    ensures
        exists|bytes: Seq<u8>|
            {
                &&& final(r).trace() == old(r).trace().push(
                    Exchange::StringDma { key, mode: raw::KeyMode::spec_read(), bytes },
                )
                &&& #[trigger] decode_result(bytes, res)
            },
        final(r).ctx() == old(r).ctx(),
        final(r).outstanding() == old(r).outstanding(),
{
    let bytes = r.host_string_dma(key, raw::KeyMode::read());
    let ghost given = bytes@;
    let res = from_byte_string(bytes);
    assert(decode_result(given, res));
    res
}

/// Reads the value under an open key for one of the two key types.
fn read_value<H: Host>(r: &mut Redis<H>, key: RedisModuleKey) -> (res: Result<
    Option<String>,
    RModError,
>)
    ensures
        exists|bytes: Seq<u8>|
            {
                &&& final(r).after(
                    old(r),
                    seq![Exchange::StringDma { key, mode: raw::KeyMode::spec_read(), bytes }],
                )
                &&& #[trigger] read_result(bytes, res)
            },
        final(r).outstanding() == old(r).outstanding(),
{
    let res = read_key(r, key);
    let ghost bytes = choose|bytes: Seq<u8>|
        {
            &&& r.trace() == old(r).trace().push(
                Exchange::StringDma { key, mode: raw::KeyMode::spec_read(), bytes },
            )
            &&& #[trigger] decode_result(bytes, res)
        };
    proof {
        let e = Exchange::StringDma { key, mode: raw::KeyMode::spec_read(), bytes };
        assert(old(r).trace().push(e) =~= old(r).trace() + seq![e]);
    }
    let out = match res {
        Ok(text) => Ok(Some(text)),
        Err(err) => Err(RModError::from(err)),
    };
    assert(read_result(bytes, out));
    out
}

/// `RedisKey` is an abstraction over a key that allows readonly operations.
///
/// It owns the native key and the native string that names it. Both are given
/// back to the host by `release`, or at the latest when the invocation ends.
#[derive(Debug)]
pub struct RedisKey {
    key_inner: RedisModuleKey,
    key_str: RedisString,
}

impl RedisKey {
    /// The native key that this value owns.
    pub closed spec fn handle(&self) -> RedisModuleKey {
        self.key_inner
    }

    /// The native string that names the key.
    pub closed spec fn name_handle(&self) -> RedisModuleString {
        self.key_str.handle()
    }

    pub(crate) fn open<H: Host>(r: &mut Redis<H>, key: &str) -> (opened: RedisKey)
        ensures
            final(r).after(
                old(r),
                open_key_calls(
                    old(r).ctx(),
                    key@,
                    KeyMode::Read,
                    opened.name_handle(),
                    opened.handle(),
                ),
            ),
            final(r).outstanding() == old(r).outstanding().push(
                Resource::String(opened.name_handle()),
            ).push(Resource::Key(opened.handle())),
    {
        let key_str = RedisString::create(r, key);
        let key_inner = r.host_open_key(key_str.inner(), to_raw_mode(KeyMode::Read));
        proof {
            let calls = open_key_calls(
                old(r).ctx(),
                key@,
                KeyMode::Read,
                key_str.handle(),
                key_inner,
            );
            assert((old(r).trace() + seq![calls[0]]).push(calls[1]) =~= old(r).trace() + calls);
        }
        RedisKey { key_inner, key_str }
    }

    pub open spec fn spec_is_null(&self) -> bool {
        self.handle().is_null()
    }

    /// Detects whether the key pointer given to us by the host is null: in
    /// read mode that is how the host says that the key is absent.
    #[verifier::when_used_as_spec(spec_is_null)]
    pub fn is_null(&self) -> (null: bool)
        ensures
            null == self.spec_is_null(),
    {
        self.key_inner.is_null()
    }

    /// The text stored under the key, or `None` where the key is absent. The
    /// host is asked only where the key is present.
    pub fn read<H: Host>(&self, r: &mut Redis<H>) -> (res: Result<Option<String>, RModError>)
        ensures
            self.is_null() ==> final(r).after(old(r), seq![]) && res == Ok::<
                Option<String>,
                RModError,
            >(None),
            !self.is_null() ==> exists|bytes: Seq<u8>|
                {
                    &&& final(r).after(
                        old(r),
                        seq![
                            Exchange::StringDma {
                                key: self.handle(),
                                mode: raw::KeyMode::spec_read(),
                                bytes,
                            },
                        ],
                    )
                    &&& #[trigger] read_result(bytes, res)
                },
            final(r).outstanding() == old(r).outstanding(),
    {
        if self.is_null() {
            proof {
                assert(old(r).trace() + Seq::<Exchange>::empty() =~= old(r).trace());
            }
            Ok(None)
        } else {
            read_value(r, self.key_inner)
        }
    }

    /// Gives the key and then its name back to the host. Nothing is handed to
    /// the host for what the session does not hold.
    pub fn release<H: Host>(self, r: &mut Redis<H>)
        ensures
            final(r).ctx() == old(r).ctx(),
            final(r).trace() == release_of(
                release_of(
                    old(r).trace(),
                    old(r).outstanding(),
                    Resource::Key(self.handle()),
                    Exchange::CloseKey { key: self.handle() },
                ),
                without_last(old(r).outstanding(), Resource::Key(self.handle())),
                Resource::String(self.name_handle()),
                Exchange::FreeString { ctx: old(r).ctx(), string: self.name_handle() },
            ),
            final(r).outstanding() == without_last(
                without_last(old(r).outstanding(), Resource::Key(self.handle())),
                Resource::String(self.name_handle()),
            ),
    {
        r.host_close_key(self.key_inner);
        self.key_str.release(r);
    }
}

/// The calls that replace the string value of a key: the text becomes a
/// native string, which is set as the value and then given back.
pub open spec fn write_calls(
    ctx: RedisModuleCtx,
    key: RedisModuleKey,
    val: Seq<char>,
    string: RedisModuleString,
    status: Status,
) -> Seq<Exchange> {
    seq![
        create_string_call(ctx, val, string),
        Exchange::StringSet { key, val: string, status },
        Exchange::FreeString { ctx, string },
    ]
}

/// The calls that push an element to a list: the text becomes a native
/// string, which is pushed at `place` and then given back.
pub open spec fn push_calls(
    ctx: RedisModuleCtx,
    key: RedisModuleKey,
    place: i32,
    ele: Seq<char>,
    string: RedisModuleString,
    status: Status,
) -> Seq<Exchange> {
    seq![
        create_string_call(ctx, ele, string),
        Exchange::ListPush { key, place, ele: string, status },
        Exchange::FreeString { ctx, string },
    ]
}

/// The calls that pop an element from a list. The host is asked what the key
/// holds; it is asked for an element only where that is a list; and an
/// element that it hands out is read and given back.
pub open spec fn pop_calls(
    ctx: RedisModuleCtx,
    key: RedisModuleKey,
    place: i32,
    kind: KeyType,
    string: RedisModuleString,
    bytes: Seq<u8>,
) -> Seq<Exchange> {
    let asked = seq![Exchange::KeyType { key, kind }];
    if kind != KeyType::List {
        asked
    } else if string.is_null() {
        asked.push(Exchange::ListPop { key, place, string })
    } else {
        asked.push(Exchange::ListPop { key, place, string }).push(
            Exchange::StringPtrLen { string, bytes },
        ).push(Exchange::FreeString { ctx, string })
    }
}

/// The message of the error for a pop from a key that holds something other
/// than a list.
pub open spec fn not_a_list() -> Seq<char> {
    "Error while lpop to key, not List structure"@
}

/// What a pop gives: nothing from an empty key, an error from a key that
/// holds no list, and otherwise the text of the element. Where the host hands
/// out no element, or one that is no text, the error carries `no_element`.
pub open spec fn pop_result(
    kind: KeyType,
    string: RedisModuleString,
    bytes: Seq<u8>,
    no_element: Seq<char>,
) -> Result<Option<Seq<char>>, RModErrorView> {
    match kind {
        KeyType::Empty => Ok(None),
        KeyType::List => if string.is_null() {
            Err(RModErrorView::Generic(no_element))
        } else {
            match decoded(bytes) {
                Some(text) => Ok(Some(text)),
                None => Err(RModErrorView::Generic(no_element)),
            }
        },
        _ => Err(RModErrorView::Generic(not_a_list())),
    }
}

/// The calls that look up a field of a hash: the field's name becomes a
/// native string; a value that the host hands out is read and given back; the
/// name is given back last.
pub open spec fn hget_calls(
    ctx: RedisModuleCtx,
    key: RedisModuleKey,
    field: Seq<char>,
    field_string: RedisModuleString,
    value: RedisModuleString,
    bytes: Seq<u8>,
) -> Seq<Exchange> {
    let asked = seq![
        create_string_call(ctx, field, field_string),
        Exchange::HashGet { key, field: field_string, string: value },
    ];
    if value.is_null() {
        asked.push(Exchange::FreeString { ctx, string: field_string })
    } else {
        asked.push(Exchange::StringPtrLen { string: value, bytes }).push(
            Exchange::FreeString { ctx, string: value },
        ).push(Exchange::FreeString { ctx, string: field_string })
    }
}

/// What a lookup gives: the text of the value, or nothing where the host
/// hands out no value or one that is no text.
pub open spec fn hget_result(value: RedisModuleString, bytes: Seq<u8>) -> Option<Seq<char>> {
    if value.is_null() {
        None
    } else {
        decoded(bytes)
    }
}

/// The calls that set a field of a hash: name and value become native
/// strings, the field is set, and the strings are given back, the value first.
pub open spec fn hset_calls(
    ctx: RedisModuleCtx,
    key: RedisModuleKey,
    field: Seq<char>,
    val: Seq<char>,
    field_string: RedisModuleString,
    val_string: RedisModuleString,
    status: Status,
) -> Seq<Exchange> {
    seq![
        create_string_call(ctx, field, field_string),
        create_string_call(ctx, val, val_string),
        Exchange::HashSet { key, field: field_string, val: val_string, status },
        Exchange::FreeString { ctx, string: val_string },
        Exchange::FreeString { ctx, string: field_string },
    ]
}

/// What asking whether a key is empty gives when the host hands back
/// `bytes`: whether the text they spell is empty, or the failure to decode them.
pub open spec fn is_empty_result(bytes: Seq<u8>, res: Result<bool, RModError>) -> bool {
    match res {
        Ok(empty) => decoded(bytes) matches Some(text) && empty == (text.len() == 0),
        Err(RModError::FromUtf8(err)) => decoded(bytes) is None && utf8_error_bytes(err) == bytes,
        Err(_) => false,
    }
}

/// `RedisKeyWritable` is an abstraction over a key that allows read and
/// write operations.
///
/// It owns the native key and the native string that names it. Both are given
/// back to the host by `release`, or at the latest when the invocation ends.
#[derive(Debug)]
pub struct RedisKeyWritable {
    key_inner: RedisModuleKey,
    key_str: RedisString,
}

impl RedisKeyWritable {
    /// The native key that this value owns.
    pub closed spec fn handle(&self) -> RedisModuleKey {
        self.key_inner
    }

    /// The native string that names the key.
    pub closed spec fn name_handle(&self) -> RedisModuleString {
        self.key_str.handle()
    }

    pub(crate) fn raw_key(&self) -> (key: RedisModuleKey)
        ensures
            key == self.handle(),
    {
        self.key_inner
    }

    pub(crate) fn open<H: Host>(r: &mut Redis<H>, key: &str) -> (opened: RedisKeyWritable)
        ensures
            final(r).after(
                old(r),
                open_key_calls(
                    old(r).ctx(),
                    key@,
                    KeyMode::ReadWrite,
                    opened.name_handle(),
                    opened.handle(),
                ),
            ),
            final(r).outstanding() == old(r).outstanding().push(
                Resource::String(opened.name_handle()),
            ).push(Resource::Key(opened.handle())),
    {
        let key_str = RedisString::create(r, key);
        let key_inner = r.host_open_key(key_str.inner(), to_raw_mode(KeyMode::ReadWrite));
        proof {
            let calls = open_key_calls(
                old(r).ctx(),
                key@,
                KeyMode::ReadWrite,
                key_str.handle(),
                key_inner,
            );
            assert((old(r).trace() + seq![calls[0]]).push(calls[1]) =~= old(r).trace() + calls);
        }
        RedisKeyWritable { key_inner, key_str }
    }

    /// Detects whether the value stored in a key is empty.
    ///
    /// An absent key shows as a null handle when it is opened for reading, but
    /// for writing the host hands out a handle even then, so that the key can
    /// be written to: here the value has to be looked at instead.
    pub fn is_empty<H: Host>(&self, r: &mut Redis<H>) -> (res: Result<bool, RModError>)
        ensures
            exists|bytes: Seq<u8>|
                {
                    &&& final(r).after(
                        old(r),
                        seq![
                            Exchange::StringDma {
                                key: self.handle(),
                                mode: raw::KeyMode::spec_read(),
                                bytes,
                            },
                        ],
                    )
                    &&& #[trigger] is_empty_result(bytes, res)
                },
            final(r).outstanding() == old(r).outstanding(),
    {
        let read = self.read(r);
        let ghost bytes = choose|bytes: Seq<u8>|
            {
                &&& r.after(
                    old(r),
                    seq![
                        Exchange::StringDma {
                            key: self.handle(),
                            mode: raw::KeyMode::spec_read(),
                            bytes,
                        },
                    ],
                )
                &&& #[trigger] read_result(bytes, read)
            };
        let res = match read {
            Ok(Some(s)) => Ok(s.as_str().is_empty()),
            Ok(None) => Ok(false),
            Err(err) => Err(err),
        };
        assert(is_empty_result(bytes, res));
        res
    }

    /// The text stored under the key.
    pub fn read<H: Host>(&self, r: &mut Redis<H>) -> (res: Result<Option<String>, RModError>)
        ensures
            exists|bytes: Seq<u8>|
                {
                    &&& final(r).after(
                        old(r),
                        seq![
                            Exchange::StringDma {
                                key: self.handle(),
                                mode: raw::KeyMode::spec_read(),
                                bytes,
                            },
                        ],
                    )
                    &&& #[trigger] read_result(bytes, res)
                },
            final(r).outstanding() == old(r).outstanding(),
    {
        read_value(r, self.key_inner)
    }

    /// Replaces the string value of the key.
    pub fn write<H: Host>(&self, r: &mut Redis<H>, val: &str) -> (res: Result<(), RModError>)
        ensures
            exists|string: RedisModuleString, status: Status|
                {
                    &&& final(r).after(
                        old(r),
                        #[trigger] write_calls(old(r).ctx(), self.handle(), val@, string, status),
                    )
                    &&& outcome(res) == status_result(status, "Error while setting key"@)
                },
            final(r).outstanding() == old(r).outstanding(),
    {
        let val_str = RedisString::create(r, val);
        let status = r.host_string_set(self.key_inner, val_str.inner());
        let ghost string = val_str.handle();
        proof {
            lemma_newest_is_out(old(r).outstanding(), Resource::String(string));
        }
        val_str.release(r);
        proof {
            let calls = write_calls(old(r).ctx(), self.handle(), val@, string, status);
            assert((old(r).trace() + seq![calls[0]]).push(calls[1]).push(calls[2]) =~= old(
                r,
            ).trace() + calls);
        }
        handle_status(status, "Error while setting key")
    }

    /// Deletes the key.
    pub fn erace<H: Host>(&self, r: &mut Redis<H>) -> (res: Result<(), RModError>)
        ensures
            exists|status: Status|
                {
                    &&& final(r).after(
                        old(r),
                        seq![Exchange::DeleteKey { key: self.handle(), status }],
                    )
                    &&& outcome(res) == #[trigger] status_result(
                        status,
                        "Error while eracing key"@,
                    )
                },
            final(r).outstanding() == old(r).outstanding(),
    {
        let status = r.host_delete_key(self.key_inner);
        proof {
            let e = Exchange::DeleteKey { key: self.handle(), status };
            assert(old(r).trace().push(e) =~= old(r).trace() + seq![e]);
        }
        handle_status(status, "Error while eracing key")
    }

    /// Pushes an element at `place`; a failure carries `message`.
    fn push<H: Host>(&self, r: &mut Redis<H>, place: i32, ele: &str, message: &str) -> (res: Result<
        (),
        RModError,
    >)
        ensures
            exists|string: RedisModuleString, status: Status|
                {
                    &&& final(r).after(
                        old(r),
                        #[trigger] push_calls(
                            old(r).ctx(),
                            self.handle(),
                            place,
                            ele@,
                            string,
                            status,
                        ),
                    )
                    &&& outcome(res) == status_result(status, message@)
                },
            final(r).outstanding() == old(r).outstanding(),
    {
        let ele_str = RedisString::create(r, ele);
        let status = r.host_list_push(self.key_inner, place, ele_str.inner());
        let ghost string = ele_str.handle();
        proof {
            lemma_newest_is_out(old(r).outstanding(), Resource::String(string));
        }
        ele_str.release(r);
        proof {
            let calls = push_calls(old(r).ctx(), self.handle(), place, ele@, string, status);
            assert((old(r).trace() + seq![calls[0]]).push(calls[1]).push(calls[2]) =~= old(
                r,
            ).trace() + calls);
        }
        handle_status(status, message)
    }

    /// Pushes an element to the tail of the list under the key. The host
    /// refuses where the key holds something other than a list.
    pub fn rpush<H: Host>(&self, r: &mut Redis<H>, ele: &str) -> (res: Result<(), RModError>)
        ensures
            exists|string: RedisModuleString, status: Status|
                {
                    &&& final(r).after(
                        old(r),
                        #[trigger] push_calls(
                            old(r).ctx(),
                            self.handle(),
                            -1i32,
                            ele@,
                            string,
                            status,
                        ),
                    )
                    &&& outcome(res) == status_result(
                        status,
                        "Error while rpush to key, tried to the wrong type"@,
                    )
                },
            final(r).outstanding() == old(r).outstanding(),
    {
        self.push(r, -1, ele, "Error while rpush to key, tried to the wrong type")
    }

    /// Pushes an element to the head of the list under the key. The host
    /// refuses where the key holds something other than a list.
    pub fn lpush<H: Host>(&self, r: &mut Redis<H>, ele: &str) -> (res: Result<(), RModError>)
        ensures
            exists|string: RedisModuleString, status: Status|
                {
                    &&& final(r).after(
                        old(r),
                        #[trigger] push_calls(
                            old(r).ctx(),
                            self.handle(),
                            0,
                            ele@,
                            string,
                            status,
                        ),
                    )
                    &&& outcome(res) == status_result(
                        status,
                        "Error while lpush to key, tried to the wrong type"@,
                    )
                },
            final(r).outstanding() == old(r).outstanding(),
    {
        self.push(r, 0, ele, "Error while lpush to key, tried to the wrong type")
    }

    /// Pops an element at `place`; a missing or undecodable element gives an
    /// error that carries `no_element`.
    fn pop<H: Host>(&self, r: &mut Redis<H>, place: i32, no_element: &str) -> (res: Result<
        Option<String>,
        RModError,
    >)
        ensures
            exists|kind: KeyType, string: RedisModuleString, bytes: Seq<u8>|
                {
                    &&& final(r).after(
                        old(r),
                        #[trigger] pop_calls(
                            old(r).ctx(),
                            self.handle(),
                            place,
                            kind,
                            string,
                            bytes,
                        ),
                    )
                    &&& outcome(res) == pop_result(kind, string, bytes, no_element@)
                },
            final(r).outstanding() == old(r).outstanding(),
    {
        let ghost ctx = r.ctx();
        let ghost before = r.trace();
        let kind = r.host_key_type(self.key_inner);
        let ghost asked = Exchange::KeyType { key: self.handle(), kind };
        let ghost nothing = RedisModuleString { addr: 0 };
        match kind {
            KeyType::Empty => {
                proof {
                    let calls = pop_calls(ctx, self.handle(), place, kind, nothing, seq![]);
                    assert(before.push(asked) =~= before + calls);
                }
                return Ok(None);
            },
            KeyType::List => (),
            _ => {
                proof {
                    let calls = pop_calls(ctx, self.handle(), place, kind, nothing, seq![]);
                    assert(before.push(asked) =~= before + calls);
                }
                return Err(RModError::generic("Error while lpop to key, not List structure"));
            },
        }
        let redis_str = r.host_list_pop(self.key_inner, place);
        let ghost popped = Exchange::ListPop { key: self.handle(), place, string: redis_str };
        if redis_str.is_null() {
            proof {
                let calls = pop_calls(ctx, self.handle(), place, kind, redis_str, seq![]);
                assert(before.push(asked).push(popped) =~= before + calls);
            }
            return Err(RModError::generic(no_element));
        }
        let text = manifest_redis_string(r, redis_str);
        let ghost bytes = choose|bytes: Seq<u8>|
            {
                &&& r.trace() == before.push(asked).push(popped).push(
                    Exchange::StringPtrLen { string: redis_str, bytes },
                )
                &&& #[trigger] decode_result(bytes, text)
            };
        proof {
            lemma_newest_is_out(old(r).outstanding(), Resource::String(redis_str));
        }
        r.host_free_string(redis_str);
        proof {
            let calls = pop_calls(ctx, self.handle(), place, kind, redis_str, bytes);
            assert(r.trace() =~= before + calls);
        }
        match text {
            Ok(s) => Ok(Some(s)),
            Err(_) => Err(RModError::generic(no_element)),
        }
    }

    /// Pops the element at the tail of the list under the key: `None` where
    /// the key is empty, an error where it holds something other than a list.
    pub fn rpop<H: Host>(&self, r: &mut Redis<H>) -> (res: Result<Option<String>, RModError>)
        ensures
            exists|kind: KeyType, string: RedisModuleString, bytes: Seq<u8>|
                {
                    &&& final(r).after(
                        old(r),
                        #[trigger] pop_calls(
                            old(r).ctx(),
                            self.handle(),
                            -1i32,
                            kind,
                            string,
                            bytes,
                        ),
                    )
                    &&& outcome(res) == pop_result(
                        kind,
                        string,
                        bytes,
                        "Error while rpop to key, tried to the wrong type"@,
                    )
                },
            final(r).outstanding() == old(r).outstanding(),
    {
        self.pop(r, -1, "Error while rpop to key, tried to the wrong type")
    }

    /// Pops the element at the head of the list under the key: `None` where
    /// the key is empty, an error where it holds something other than a list.
    pub fn lpop<H: Host>(&self, r: &mut Redis<H>) -> (res: Result<Option<String>, RModError>)
        ensures
            exists|kind: KeyType, string: RedisModuleString, bytes: Seq<u8>|
                {
                    &&& final(r).after(
                        old(r),
                        #[trigger] pop_calls(
                            old(r).ctx(),
                            self.handle(),
                            0i32,
                            kind,
                            string,
                            bytes,
                        ),
                    )
                    &&& outcome(res) == pop_result(
                        kind,
                        string,
                        bytes,
                        "Error while lpop to key, tried to the wrong type"@,
                    )
                },
            final(r).outstanding() == old(r).outstanding(),
    {
        self.pop(r, 0, "Error while lpop to key, tried to the wrong type")
    }

    /// The value of a field of the hash under the key, or `None` where the
    /// key or the field is absent.
    pub fn rm_hget<H: Host>(&self, r: &mut Redis<H>, field: &str) -> (res: Option<String>)
        ensures
            exists|field_string: RedisModuleString, value: RedisModuleString, bytes: Seq<u8>|
                {
                    &&& final(r).after(
                        old(r),
                        #[trigger] hget_calls(
                            old(r).ctx(),
                            self.handle(),
                            field@,
                            field_string,
                            value,
                            bytes,
                        ),
                    )
                    &&& res.deep_view() == hget_result(value, bytes)
                },
            final(r).outstanding() == old(r).outstanding(),
    {
        let ghost ctx = r.ctx();
        let ghost before = r.trace();
        let fld_str = RedisString::create(r, field);
        let ghost field_string = fld_str.handle();
        let ghost created = create_string_call(ctx, field@, field_string);
        let val_str = r.host_rm_hash_get(self.key_inner, fld_str.inner());
        let ghost got = Exchange::HashGet { key: self.handle(), field: field_string, string: val_str };
        proof {
            assert(before + seq![created] =~= before.push(created));
            lemma_newest_is_out(old(r).outstanding(), Resource::String(field_string));
        }
        if val_str.is_null() {
            fld_str.release(r);
            proof {
                let calls = hget_calls(ctx, self.handle(), field@, field_string, val_str, seq![]);
                assert(r.trace() =~= before + calls);
            }
            return None;
        }
        let text = manifest_redis_string(r, val_str);
        let ghost bytes = choose|bytes: Seq<u8>|
            {
                &&& r.trace() == before.push(created).push(got).push(
                    Exchange::StringPtrLen { string: val_str, bytes },
                )
                &&& #[trigger] decode_result(bytes, text)
            };
        proof {
            lemma_newest_is_out(
                old(r).outstanding().push(Resource::String(field_string)),
                Resource::String(val_str),
            );
        }
        r.host_free_string(val_str);
        fld_str.release(r);
        proof {
            let calls = hget_calls(ctx, self.handle(), field@, field_string, val_str, bytes);
            assert(r.trace() =~= before + calls);
        }
        match text {
            Ok(s) => Some(s),
            Err(_) => None,
        }
    }

    /// Sets a field of the hash under the key.
    pub fn rm_hset<H: Host>(&self, r: &mut Redis<H>, field: &str, val: &str) -> (res: Result<
        (),
        RModError,
    >)
        ensures
            exists|field_string: RedisModuleString, val_string: RedisModuleString, status: Status|
                {
                    &&& final(r).after(
                        old(r),
                        #[trigger] hset_calls(
                            old(r).ctx(),
                            self.handle(),
                            field@,
                            val@,
                            field_string,
                            val_string,
                            status,
                        ),
                    )
                    &&& outcome(res) == status_result(
                        status,
                        "Error while hset key value, sth of err occured inside redismodule api"@,
                    )
                },
            final(r).outstanding() == old(r).outstanding(),
    {
        let ghost ctx = r.ctx();
        let ghost before = r.trace();
        let fld_str = RedisString::create(r, field);
        let ghost field_string = fld_str.handle();
        proof {
            assert(before + seq![create_string_call(ctx, field@, field_string)] =~= before.push(
                create_string_call(ctx, field@, field_string),
            ));
        }
        let ghost middle = r.trace();
        let val_str = RedisString::create(r, val);
        let ghost val_string = val_str.handle();
        proof {
            assert(middle + seq![create_string_call(ctx, val@, val_string)] =~= middle.push(
                create_string_call(ctx, val@, val_string),
            ));
        }
        let status = r.host_rm_hash_set(self.key_inner, fld_str.inner(), val_str.inner());
        proof {
            lemma_newest_is_out(
                old(r).outstanding().push(Resource::String(field_string)),
                Resource::String(val_string),
            );
            lemma_newest_is_out(old(r).outstanding(), Resource::String(field_string));
        }
        val_str.release(r);
        fld_str.release(r);
        proof {
            let calls = hset_calls(
                ctx,
                self.handle(),
                field@,
                val@,
                field_string,
                val_string,
                status,
            );
            assert(r.trace() =~= before + calls);
        }
        handle_status(
            status,
            "Error while hset key value, sth of err occured inside redismodule api",
        )
    }

    /// Gives the key and then its name back to the host. Nothing is handed to
    /// the host for what the session does not hold.
    pub fn release<H: Host>(self, r: &mut Redis<H>)
        ensures
            final(r).ctx() == old(r).ctx(),
            final(r).trace() == release_of(
                release_of(
                    old(r).trace(),
                    old(r).outstanding(),
                    Resource::Key(self.handle()),
                    Exchange::CloseKey { key: self.handle() },
                ),
                without_last(old(r).outstanding(), Resource::Key(self.handle())),
                Resource::String(self.name_handle()),
                Exchange::FreeString { ctx: old(r).ctx(), string: self.name_handle() },
            ),
            final(r).outstanding() == without_last(
                without_last(old(r).outstanding(), Resource::Key(self.handle())),
                Resource::String(self.name_handle()),
            ),
    {
        r.host_close_key(self.key_inner);
        self.key_str.release(r);
    }
}

impl<H: Host> Redis<H> {
    /// Opens a key for read access. The host is never asked for the right to
    /// write.
    pub fn open_key(&mut self, key: &str) -> (opened: RedisKey)
        ensures
            final(self).after(
                old(self),
                open_key_calls(
                    old(self).ctx(),
                    key@,
                    KeyMode::Read,
                    opened.name_handle(),
                    opened.handle(),
                ),
            ),
            forall|i: int|
                old(self).trace().len() <= i < final(self).trace().len() ==> !opens_for_writing(
                    #[trigger] final(self).trace()[i],
                ),
            final(self).outstanding() == old(self).outstanding().push(
                Resource::String(opened.name_handle()),
            ).push(Resource::Key(opened.handle())),
    {
        let opened = RedisKey::open(self, key);
        proof {
            assert(1i32 & 2i32 != 2i32) by (bit_vector);
        }
        opened
    }

    /// Opens a key for read and write access. The host is always asked for
    /// the right to write.
    pub fn open_key_writable(&mut self, key: &str) -> (opened: RedisKeyWritable)
        ensures
            final(self).after(
                old(self),
                open_key_calls(
                    old(self).ctx(),
                    key@,
                    KeyMode::ReadWrite,
                    opened.name_handle(),
                    opened.handle(),
                ),
            ),
            opens_for_writing(final(self).trace().last()),
            final(self).outstanding() == old(self).outstanding().push(
                Resource::String(opened.name_handle()),
            ).push(Resource::Key(opened.handle())),
    {
        let opened = RedisKeyWritable::open(self, key);
        proof {
            assert(3i32 & 2i32 == 2i32) by (bit_vector);
        }
        opened
    }
}

} // verus!
