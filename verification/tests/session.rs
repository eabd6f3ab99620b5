//! The session against a host that keeps everything in memory and writes down
//! every call that it gets.
use redis_mod::raw::{
    Host, KeyMode, KeyType, RedisModuleCallReply, RedisModuleCmdFunc, RedisModuleCtx,
    RedisModuleKey, RedisModuleString, ReplyType, Status,
};
use redis_mod::redis::{LogLevel, Redis};
use redis_mod::{load, Command, RModError, RedisModuleInitializer, Registration};
use std::collections::BTreeMap;

#[derive(Clone, Debug, PartialEq)]
enum Value {
    Text(Vec<u8>),
    List(Vec<Vec<u8>>),
    Hash(BTreeMap<Vec<u8>, Vec<u8>>),
}

#[derive(Clone, Debug, PartialEq)]
enum Node {
    Integer(i64),
    Text(Vec<u8>),
    Array(Vec<usize>),
    Nil,
    Error,
}

#[derive(Default)]
struct MemoryHost {
    next: usize,
    calls: Vec<String>,
    strings: BTreeMap<usize, Vec<u8>>,
    keys: BTreeMap<usize, (Vec<u8>, i32)>,
    replies: BTreeMap<usize, Node>,
    store: BTreeMap<Vec<u8>, Value>,
    expires: BTreeMap<Vec<u8>, i64>,
    refused: Vec<&'static str>,
    handed_out: usize,
    taken_back: usize,
    bad_releases: usize,
    replied: Vec<String>,
    logged: Vec<(String, String)>,
    replicated: usize,
    registered: Vec<(String, String, usize)>,
    keys_reply: Option<Node>,
}

fn c_text(buf: &[u8]) -> Vec<u8> {
    assert_eq!(buf.last(), Some(&0u8), "a C string ends in a NUL byte");
    buf[..buf.len() - 1].to_vec()
}

fn show(bytes: &[u8]) -> String {
    String::from_utf8_lossy(bytes).into_owned()
}

impl MemoryHost {
    fn fresh(&mut self) -> usize {
        self.next += 1;
        self.next
    }

    fn status(&self, call: &'static str) -> Status {
        if self.refused.contains(&call) {
            Status::Failure
        } else {
            Status::Success
        }
    }

    fn argument(&mut self, bytes: &[u8]) -> RedisModuleString {
        let addr = self.fresh();
        self.strings.insert(addr, bytes.to_vec());
        RedisModuleString { addr }
    }

    fn reply(&mut self, node: Node) -> RedisModuleCallReply {
        let addr = self.fresh();
        self.replies.insert(addr, node);
        self.handed_out += 1;
        RedisModuleCallReply { addr }
    }

    fn text_reply(&mut self, bytes: &[u8]) -> RedisModuleCallReply {
        self.reply(Node::Text(bytes.to_vec()))
    }

    fn name_of(&self, key: RedisModuleKey) -> Vec<u8> {
        self.keys.get(&key.addr).expect("the key is open").0.clone()
    }

    fn run(&mut self, cmdname: &[u8], args: &[Vec<u8>]) -> RedisModuleCallReply {
        let cmd = show(cmdname);
        self.calls.push(format!(
            "call {} {:?}",
            cmd,
            args.iter().map(|a| show(a)).collect::<Vec<String>>()
        ));
        if cmd == "keys" && self.keys_reply.is_some() {
            let node = self.keys_reply.take().unwrap();
            return self.reply(node);
        }
        match cmd.as_str() {
            "keys" => {
                let prefix: Vec<u8> = args[0].iter().cloned().take_while(|b| *b != b'*').collect();
                let names: Vec<Vec<u8>> =
                    self.store.keys().filter(|k| k.starts_with(&prefix)).cloned().collect();
                let mut elements = Vec::new();
                for name in names {
                    let addr = self.fresh();
                    self.replies.insert(addr, Node::Text(name));
                    elements.push(addr);
                }
                self.reply(Node::Array(elements))
            }
            "get" => match self.store.get(&args[0]).cloned() {
                Some(Value::Text(bytes)) => self.text_reply(&bytes),
                Some(_) => self.reply(Node::Error),
                None => self.reply(Node::Nil),
            },
            "strlen" => match self.store.get(&args[0]).cloned() {
                Some(Value::Text(bytes)) => self.reply(Node::Integer(bytes.len() as i64)),
                Some(_) => self.reply(Node::Error),
                None => self.reply(Node::Integer(0)),
            },
            "append" => {
                let mut bytes = match self.store.get(&args[0]) {
                    Some(Value::Text(bytes)) => bytes.clone(),
                    _ => Vec::new(),
                };
                bytes.extend_from_slice(&args[1]);
                let len = bytes.len() as i64;
                self.store.insert(args[0].clone(), Value::Text(bytes));
                self.reply(Node::Integer(len))
            }
            "hget" => match self.store.get(&args[0]).cloned() {
                Some(Value::Hash(fields)) => match fields.get(&args[1]) {
                    Some(bytes) => self.text_reply(bytes),
                    None => self.reply(Node::Nil),
                },
                _ => self.reply(Node::Nil),
            },
            "hset" => {
                let mut fields = match self.store.get(&args[0]) {
                    Some(Value::Hash(fields)) => fields.clone(),
                    _ => BTreeMap::new(),
                };
                let added = fields.insert(args[1].clone(), args[2].clone()).is_none();
                self.store.insert(args[0].clone(), Value::Hash(fields));
                self.reply(Node::Integer(if added { 1 } else { 0 }))
            }
            "getrange" => {
                let bytes = match self.store.get(&args[0]) {
                    Some(Value::Text(bytes)) => bytes.clone(),
                    _ => Vec::new(),
                };
                let from: usize = show(&args[1]).parse().unwrap();
                let to: usize = show(&args[2]).parse().unwrap();
                self.text_reply(&bytes[from..=to])
            }
            _ => RedisModuleCallReply { addr: 0 },
        }
    }
}

impl Host for MemoryHost {
    fn init(
        &mut self,
        ctx: RedisModuleCtx,
        modulename: &[u8],
        module_version: i32,
        api_version: i32,
    ) -> Status {
        self.calls.push(format!(
            "init {} {} {} {}",
            ctx.addr,
            show(&c_text(modulename)),
            module_version,
            api_version
        ));
        self.status("init")
    }

    fn create_command(
        &mut self,
        ctx: RedisModuleCtx,
        name: &[u8],
        cmdfunc: Option<RedisModuleCmdFunc>,
        strflags: &[u8],
        firstkey: i32,
        lastkey: i32,
        keystep: i32,
    ) -> Status {
        let name = show(&c_text(name));
        let flags = show(&c_text(strflags));
        self.calls.push(format!(
            "create_command {} {} {} {} {} {}",
            ctx.addr, name, flags, firstkey, lastkey, keystep
        ));
        if self.refused.contains(&"create_command") && name == "ns.bad" {
            return Status::Failure;
        }
        self.registered.push((name, flags, cmdfunc.expect("an entry point").addr));
        Status::Success
    }

    fn create_string(&mut self, ctx: RedisModuleCtx, ptr: &[u8], len: usize) -> RedisModuleString {
        assert_eq!(ptr.len(), len + 1, "the buffer holds the bytes and a NUL byte");
        assert_eq!(ptr[len], 0u8);
        let addr = self.fresh();
        self.strings.insert(addr, ptr[..len].to_vec());
        self.handed_out += 1;
        self.calls.push(format!("create_string {} {:?} -> {}", ctx.addr, show(&ptr[..len]), addr));
        RedisModuleString { addr }
    }

    fn free_string(&mut self, ctx: RedisModuleCtx, string: RedisModuleString) {
        self.calls.push(format!("free_string {} {}", ctx.addr, string.addr));
        if self.strings.remove(&string.addr).is_some() {
            self.taken_back += 1;
        } else {
            self.bad_releases += 1;
        }
    }

    fn string_ptr_len(&mut self, string: RedisModuleString) -> Vec<u8> {
        self.calls.push(format!("string_ptr_len {}", string.addr));
        self.strings.get(&string.addr).expect("the string is live").clone()
    }

    fn open_key(
        &mut self,
        ctx: RedisModuleCtx,
        name: RedisModuleString,
        mode: KeyMode,
    ) -> RedisModuleKey {
        let bytes = self.strings.get(&name.addr).expect("the name is live").clone();
        self.handed_out += 1;
        let absent = !self.store.contains_key(&bytes);
        let addr = if absent && mode.bits == 1 {
            0
        } else {
            let addr = self.fresh();
            self.keys.insert(addr, (bytes.clone(), mode.bits));
            addr
        };
        self.calls.push(format!(
            "open_key {} {} mode {} -> {}",
            ctx.addr,
            show(&bytes),
            mode.bits,
            addr
        ));
        RedisModuleKey { addr }
    }

    fn close_key(&mut self, kp: RedisModuleKey) {
        self.calls.push(format!("close_key {}", kp.addr));
        if kp.addr == 0 || self.keys.remove(&kp.addr).is_some() {
            self.taken_back += 1;
        } else {
            self.bad_releases += 1;
        }
    }

    fn key_type(&mut self, kp: RedisModuleKey) -> KeyType {
        self.calls.push(format!("key_type {}", kp.addr));
        match self.store.get(&self.name_of(kp)) {
            None => KeyType::Empty,
            Some(Value::Text(_)) => KeyType::String,
            Some(Value::List(_)) => KeyType::List,
            Some(Value::Hash(_)) => KeyType::Hash,
        }
    }

    fn string_set(&mut self, key: RedisModuleKey, val: RedisModuleString) -> Status {
        self.calls.push(format!("string_set {} {}", key.addr, val.addr));
        if self.status("string_set") == Status::Failure {
            return Status::Failure;
        }
        let (name, mode) = self.keys.get(&key.addr).expect("the key is open").clone();
        assert_eq!(mode & 2, 2, "the key is open for writing");
        let bytes = self.strings.get(&val.addr).expect("the value is live").clone();
        self.store.insert(name, Value::Text(bytes));
        Status::Success
    }

    fn string_dma(&mut self, key: RedisModuleKey, mode: KeyMode) -> Vec<u8> {
        self.calls.push(format!("string_dma {} mode {}", key.addr, mode.bits));
        match self.store.get(&self.name_of(key)) {
            Some(Value::Text(bytes)) => bytes.clone(),
            _ => Vec::new(),
        }
    }

    fn delete_key(&mut self, key: RedisModuleKey) -> Status {
        self.calls.push(format!("delete_key {}", key.addr));
        if self.status("delete_key") == Status::Failure {
            return Status::Failure;
        }
        let name = self.name_of(key);
        self.store.remove(&name);
        Status::Success
    }

    fn set_expire(&mut self, key: RedisModuleKey, expire: i64) -> Status {
        self.calls.push(format!("set_expire {} {}", key.addr, expire));
        let name = self.name_of(key);
        if !self.store.contains_key(&name) {
            return Status::Failure;
        }
        self.expires.insert(name, expire);
        Status::Success
    }

    fn list_push(&mut self, key: RedisModuleKey, place: i32, ele: RedisModuleString) -> Status {
        self.calls.push(format!("list_push {} {} {}", key.addr, place, ele.addr));
        let name = self.name_of(key);
        let bytes = self.strings.get(&ele.addr).expect("the element is live").clone();
        let mut list = match self.store.get(&name) {
            None => Vec::new(),
            Some(Value::List(list)) => list.clone(),
            Some(_) => return Status::Failure,
        };
        if place == 0 {
            list.insert(0, bytes);
        } else {
            list.push(bytes);
        }
        self.store.insert(name, Value::List(list));
        Status::Success
    }

    fn list_pop(&mut self, key: RedisModuleKey, place: i32) -> RedisModuleString {
        self.calls.push(format!("list_pop {} {}", key.addr, place));
        let name = self.name_of(key);
        let mut list = match self.store.get(&name) {
            Some(Value::List(list)) => list.clone(),
            _ => return RedisModuleString { addr: 0 },
        };
        let bytes = if place == 0 { list.remove(0) } else { list.pop().unwrap() };
        if list.is_empty() {
            self.store.remove(&name);
        } else {
            self.store.insert(name, Value::List(list));
        }
        let addr = self.fresh();
        self.strings.insert(addr, bytes);
        self.handed_out += 1;
        RedisModuleString { addr }
    }

    fn rm_hash_get(&mut self, key: RedisModuleKey, field: RedisModuleString) -> RedisModuleString {
        self.calls.push(format!("rm_hash_get {} {}", key.addr, field.addr));
        let name = self.name_of(key);
        let field = self.strings.get(&field.addr).expect("the field is live").clone();
        let found = match self.store.get(&name) {
            Some(Value::Hash(fields)) => fields.get(&field).cloned(),
            _ => None,
        };
        match found {
            Some(bytes) => {
                let addr = self.fresh();
                self.strings.insert(addr, bytes);
                self.handed_out += 1;
                RedisModuleString { addr }
            }
            None => RedisModuleString { addr: 0 },
        }
    }

    fn rm_hash_set(
        &mut self,
        key: RedisModuleKey,
        field: RedisModuleString,
        val: RedisModuleString,
    ) -> Status {
        self.calls.push(format!("rm_hash_set {} {} {}", key.addr, field.addr, val.addr));
        let name = self.name_of(key);
        let field = self.strings.get(&field.addr).expect("the field is live").clone();
        let val = self.strings.get(&val.addr).expect("the value is live").clone();
        let mut fields = match self.store.get(&name) {
            None => BTreeMap::new(),
            Some(Value::Hash(fields)) => fields.clone(),
            Some(_) => return Status::Failure,
        };
        fields.insert(field, val);
        self.store.insert(name, Value::Hash(fields));
        Status::Success
    }

    fn reply_with_array(&mut self, ctx: RedisModuleCtx, len: i64) -> Status {
        self.calls.push(format!("reply_with_array {} {}", ctx.addr, len));
        self.replied.push(format!("*{}", len));
        self.status("reply_with_array")
    }

    fn reply_with_error(&mut self, ctx: RedisModuleCtx, err: &[u8]) {
        let text = show(&c_text(err));
        self.calls.push(format!("reply_with_error {} {:?}", ctx.addr, text));
        self.replied.push(format!("-{}", text));
    }

    fn reply_with_long_long(&mut self, ctx: RedisModuleCtx, ll: i64) -> Status {
        self.calls.push(format!("reply_with_long_long {} {}", ctx.addr, ll));
        self.replied.push(format!(":{}", ll));
        self.status("reply_with_long_long")
    }

    fn reply_with_string(&mut self, ctx: RedisModuleCtx, string: RedisModuleString) -> Status {
        self.calls.push(format!("reply_with_string {} {}", ctx.addr, string.addr));
        let bytes = self.strings.get(&string.addr).expect("the string is live").clone();
        self.replied.push(format!("${}", show(&bytes)));
        self.status("reply_with_string")
    }

    fn reply_with_simple_string(&mut self, ctx: RedisModuleCtx, msg: &[u8]) {
        let text = show(&c_text(msg));
        self.calls.push(format!("reply_with_simple_string {} {:?}", ctx.addr, text));
        self.replied.push(format!("+{}", text));
    }

    fn reply_with_null(&mut self, ctx: RedisModuleCtx) {
        self.calls.push(format!("reply_with_null {}", ctx.addr));
        self.replied.push(String::from("_"));
    }

    fn log(&mut self, ctx: RedisModuleCtx, level: &[u8], fmt: &[u8]) {
        self.calls.push(format!("log {}", ctx.addr));
        self.logged.push((show(&c_text(level)), show(&c_text(fmt))));
    }

    fn replicate_verbatim(&mut self, ctx: RedisModuleCtx) {
        self.calls.push(format!("replicate_verbatim {}", ctx.addr));
        self.replicated += 1;
    }

    fn call1_reply(&mut self, _ctx: RedisModuleCtx, cmdname: &[u8], arg0: &[u8]) -> RedisModuleCallReply {
        let cmd = c_text(cmdname);
        self.run(&cmd, &[c_text(arg0)])
    }

    fn call2_reply(
        &mut self,
        _ctx: RedisModuleCtx,
        cmdname: &[u8],
        arg0: &[u8],
        arg1: &[u8],
    ) -> RedisModuleCallReply {
        let cmd = c_text(cmdname);
        self.run(&cmd, &[c_text(arg0), c_text(arg1)])
    }

    fn call3_reply(
        &mut self,
        _ctx: RedisModuleCtx,
        cmdname: &[u8],
        arg0: &[u8],
        arg1: &[u8],
        arg2: &[u8],
    ) -> RedisModuleCallReply {
        let cmd = c_text(cmdname);
        self.run(&cmd, &[c_text(arg0), c_text(arg1), c_text(arg2)])
    }

    fn callable2_reply_int(&mut self, _ctx: RedisModuleCtx, cmdname: &[u8], key: &[u8], arg0: &[u8]) -> i64 {
        let cmd = show(&c_text(cmdname));
        let key = c_text(key);
        let arg = show(&c_text(arg0));
        self.calls.push(format!("callable2_reply_int {} {} {}", cmd, show(&key), arg));
        assert_eq!(cmd, "incrby");
        let now = match self.store.get(&key) {
            Some(Value::Text(bytes)) => show(bytes).parse::<i64>().unwrap(),
            _ => 0,
        };
        let next = now + arg.parse::<i64>().unwrap();
        self.store.insert(key, Value::Text(next.to_string().into_bytes()));
        next
    }

    fn call_reply_type(&mut self, reply: RedisModuleCallReply) -> ReplyType {
        self.calls.push(format!("call_reply_type {}", reply.addr));
        match self.replies.get(&reply.addr) {
            None => ReplyType::Unknown,
            Some(Node::Integer(_)) => ReplyType::Integer,
            Some(Node::Text(_)) => ReplyType::String,
            Some(Node::Array(_)) => ReplyType::Array,
            Some(Node::Nil) => ReplyType::Nil,
            Some(Node::Error) => ReplyType::Error,
        }
    }

    fn call_reply_integer(&mut self, reply: RedisModuleCallReply) -> i64 {
        self.calls.push(format!("call_reply_integer {}", reply.addr));
        match self.replies.get(&reply.addr) {
            Some(Node::Integer(n)) => *n,
            _ => 0,
        }
    }

    fn call_reply_string_ptr(&mut self, reply: RedisModuleCallReply) -> Vec<u8> {
        self.calls.push(format!("call_reply_string_ptr {}", reply.addr));
        match self.replies.get(&reply.addr) {
            Some(Node::Text(bytes)) => bytes.clone(),
            _ => Vec::new(),
        }
    }

    fn call_reply_length(&mut self, reply: RedisModuleCallReply) -> usize {
        self.calls.push(format!("call_reply_length {}", reply.addr));
        match self.replies.get(&reply.addr) {
            Some(Node::Array(elements)) => elements.len(),
            Some(Node::Text(bytes)) => bytes.len(),
            _ => 0,
        }
    }

    fn call_reply_array_element(&mut self, reply: RedisModuleCallReply, idx: usize) -> RedisModuleCallReply {
        self.calls.push(format!("call_reply_array_element {} {}", reply.addr, idx));
        self.handed_out += 1;
        match self.replies.get(&reply.addr) {
            Some(Node::Array(elements)) if idx < elements.len() => {
                RedisModuleCallReply { addr: elements[idx] }
            }
            _ => RedisModuleCallReply { addr: 0 },
        }
    }

    fn free_call_reply(&mut self, reply: RedisModuleCallReply) {
        self.calls.push(format!("free_call_reply {}", reply.addr));
        if reply.addr == 0 || self.replies.remove(&reply.addr).is_some() {
            self.taken_back += 1;
        } else {
            self.bad_releases += 1;
        }
    }
}

const CTX: RedisModuleCtx = RedisModuleCtx { addr: 7 };

fn session() -> Redis<MemoryHost> {
    Redis::new(MemoryHost::default(), CTX)
}

fn session_with(store: &[(&str, Value)]) -> Redis<MemoryHost> {
    let mut host = MemoryHost::default();
    for (name, value) in store {
        host.store.insert(name.as_bytes().to_vec(), value.clone());
    }
    Redis::new(host, CTX)
}

fn text_value(text: &str) -> Value {
    Value::Text(text.as_bytes().to_vec())
}

fn list_value(items: &[&str]) -> Value {
    Value::List(items.iter().map(|i| i.as_bytes().to_vec()).collect())
}

fn message(res: Result<(), RModError>) -> String {
    match res {
        Ok(()) => String::from("ok"),
        Err(err) => err.to_string(),
    }
}

struct SetCommand;

impl Command for SetCommand {
    fn name(&self) -> &'static str {
        "ns.set"
    }

    fn run<H: Host>(&self, r: &mut Redis<H>, args: &[&str]) -> Result<(), RModError> {
        if args.len() != 3 {
            return Err(RModError::generic("Usage: ns.set <key> <value>"));
        }
        let key = r.open_key_writable(args[1]);
        key.write(r, args[2])?;
        r.reply_ok();
        Ok(())
    }

    fn str_flags(&self) -> &'static str {
        "write deny-oom"
    }
}

/// Opens keys and strings and then fails without giving any of them back.
struct LeakyCommand;

impl Command for LeakyCommand {
    fn name(&self) -> &'static str {
        "ns.leaky"
    }

    fn run<H: Host>(&self, r: &mut Redis<H>, args: &[&str]) -> Result<(), RModError> {
        let _first = r.open_key(args[1]);
        let _second = r.open_key_writable(args[1]);
        let _third = r.create_string("scratch");
        let popped = _second.rpop(r)?;
        r.reply_string(&popped.unwrap_or_default())?;
        Ok(())
    }

    fn str_flags(&self) -> &'static str {
        "write"
    }
}

/// Replies with the number of its arguments and then with each of them.
struct EchoCommand;

impl Command for EchoCommand {
    fn name(&self) -> &'static str {
        "ns.echo"
    }

    fn run<H: Host>(&self, r: &mut Redis<H>, args: &[&str]) -> Result<(), RModError> {
        r.reply_array(args.len() as i64)?;
        for arg in args {
            r.reply_with_simple_string(arg);
        }
        Ok(())
    }

    fn str_flags(&self) -> &'static str {
        "readonly"
    }
}

#[test]
fn harness_runs_the_command_once_on_the_arguments_in_host_order() {
    let mut host = MemoryHost::default();
    let argv = vec![host.argument(b"ns.set"), host.argument(b"k"), host.argument(b"v")];
    let (status, r) = EchoCommand.harness(host, CTX, &argv);
    assert_eq!(status, Status::Success);
    let host = r.into_host();
    assert_eq!(host.replied, vec!["*3", "+ns.set", "+k", "+v"]);
    assert!(!host.calls.iter().any(|c| c.starts_with("reply_with_error")));
    assert!(host.calls.iter().all(|c| !c.starts_with("reply_") || c.contains(" 7")));
}

#[test]
fn harness_runs_the_command_on_an_empty_argument_list() {
    let (status, r) = EchoCommand.harness(MemoryHost::default(), CTX, &[]);
    assert_eq!(status, Status::Success);
    assert_eq!(r.into_host().replied, vec!["*0"]);
}

#[test]
fn harness_keeps_arguments_that_are_equal_or_empty() {
    let mut host = MemoryHost::default();
    let argv = vec![
        host.argument(b"a"),
        host.argument(b""),
        host.argument(b"a"),
        host.argument("é".as_bytes()),
    ];
    let (status, r) = EchoCommand.harness(host, CTX, &argv);
    assert_eq!(status, Status::Success);
    assert_eq!(r.into_host().replied, vec!["*4", "+a", "+", "+a", "+é"]);
}

#[test]
fn set_command_writes_the_key_and_replies_ok() {
    let mut host = MemoryHost::default();
    let argv = vec![host.argument(b"ns.set"), host.argument(b"k"), host.argument(b"v")];
    let (status, r) = SetCommand.harness(host, CTX, &argv);
    assert_eq!(status, Status::Success);
    let host = r.into_host();
    assert_eq!(host.store.get(&b"k".to_vec()), Some(&text_value("v")));
    assert_eq!(host.replied, vec![String::from("+OK")]);
    assert!(host.calls.iter().any(|c| c.starts_with("open_key 7 k mode 3")));
    assert_eq!(host.handed_out, host.taken_back);
    assert_eq!(host.bad_releases, 0);
    assert!(host.keys.is_empty());
}

#[test]
fn set_command_with_a_missing_argument_reports_its_usage() {
    let mut host = MemoryHost::default();
    let argv = vec![host.argument(b"ns.set"), host.argument(b"k")];
    let (status, r) = SetCommand.harness(host, CTX, &argv);
    assert_eq!(status, Status::Failure);
    let host = r.into_host();
    assert_eq!(
        host.replied,
        vec![String::from("-RMod error: Store error: Usage: ns.set <key> <value>")]
    );
    assert!(host.replied[0].contains("Usage: ns.set"));
    assert!(host.store.is_empty());
    assert!(!host.calls.iter().any(|c| c.starts_with("open_key")));
}

#[test]
fn harness_reads_every_argument_once_and_in_order() {
    let mut host = MemoryHost::default();
    let argv = vec![host.argument(b"ns.set"), host.argument(b"k"), host.argument(b"v")];
    let (_, r) = SetCommand.harness(host, CTX, &argv);
    let host = r.into_host();
    assert_eq!(
        &host.calls[..3],
        &[
            String::from("string_ptr_len 1"),
            String::from("string_ptr_len 2"),
            String::from("string_ptr_len 3")
        ]
    );
}

#[test]
fn harness_reports_an_argument_that_is_no_text() {
    let mut host = MemoryHost::default();
    let argv = vec![host.argument(b"ns.set"), host.argument(&[0xff, 0xfe]), host.argument(b"v")];
    let (status, r) = SetCommand.harness(host, CTX, &argv);
    assert_eq!(status, Status::Failure);
    let host = r.into_host();
    let expected = String::from_utf8(vec![0xff, 0xfe]).unwrap_err().to_string();
    assert_eq!(host.replied, vec![format!("-RMod error: {}", expected)]);
    assert_eq!(
        host.calls,
        vec![
            String::from("string_ptr_len 1"),
            String::from("string_ptr_len 2"),
            format!("reply_with_error 7 {:?}", format!("RMod error: {}", expected)),
        ]
    );
    assert!(host.store.is_empty());
}

#[test]
fn harness_gives_back_what_a_failing_command_left_open() {
    let mut host = MemoryHost::default();
    host.store.insert(b"k".to_vec(), text_value("not a list"));
    let argv = vec![host.argument(b"ns.leaky"), host.argument(b"k")];
    let (status, r) = LeakyCommand.harness(host, CTX, &argv);
    assert_eq!(status, Status::Failure);
    let host = r.into_host();
    assert_eq!(host.handed_out, 5);
    assert_eq!(host.taken_back, 5);
    assert_eq!(host.bad_releases, 0);
    assert!(host.keys.is_empty());
    assert_eq!(host.strings.len(), 2, "only the host's own arguments are left");
    let releases: Vec<&String> = host
        .calls
        .iter()
        .filter(|c| c.starts_with("free_string") || c.starts_with("close_key"))
        .collect();
    assert_eq!(
        releases,
        vec![
            "free_string 7 7",
            "close_key 6",
            "free_string 7 5",
            "close_key 4",
            "free_string 7 3"
        ]
    );
    assert_eq!(
        host.replied,
        vec![String::from("-RMod error: Store error: Error while lpop to key, not List structure")]
    );
    assert!(host.calls.last().unwrap().starts_with("reply_with_error"));
}

#[test]
fn harness_gives_back_what_a_successful_command_left_open() {
    let mut host = MemoryHost::default();
    host.store.insert(b"k".to_vec(), list_value(&["a", "b"]));
    let argv = vec![host.argument(b"ns.leaky"), host.argument(b"k")];
    let (status, r) = LeakyCommand.harness(host, CTX, &argv);
    assert_eq!(status, Status::Success);
    let host = r.into_host();
    assert_eq!(host.replied, vec![String::from("$b")]);
    assert_eq!(host.handed_out, host.taken_back);
    assert_eq!(host.handed_out, 7);
    assert_eq!(host.bad_releases, 0);
    assert!(host.keys.is_empty());
    assert_eq!(host.strings.len(), 2);
}

#[test]
fn finish_reports_success_without_a_reply() {
    let mut r = session();
    assert_eq!(r.finish(Ok(())), Status::Success);
    let host = r.into_host();
    assert!(host.calls.is_empty());
}

#[test]
fn finish_reports_a_failure_as_an_error_reply() {
    let mut r = session();
    assert_eq!(r.finish(Err(RModError::generic("boom"))), Status::Failure);
    let host = r.into_host();
    assert_eq!(host.calls, vec![String::from("reply_with_error 7 \"RMod error: Store error: boom\"")]);
}

#[test]
fn finish_releases_newest_first_and_then_replies() {
    let mut r = session();
    let _string = r.create_string("a");
    let _key = r.open_key_writable("k");
    assert_eq!(r.finish(Err(RModError::generic("late"))), Status::Failure);
    let host = r.into_host();
    assert_eq!(
        &host.calls[3..],
        &[
            String::from("close_key 3"),
            String::from("free_string 7 2"),
            String::from("free_string 7 1"),
            String::from("reply_with_error 7 \"RMod error: Store error: late\""),
        ]
    );
}

#[test]
fn a_released_wrapper_is_not_released_again_at_the_end() {
    let mut r = session();
    let string = r.create_string("a");
    let key = r.open_key_writable("k");
    key.release(&mut r);
    string.release(&mut r);
    r.finish(Ok(()));
    let host = r.into_host();
    assert_eq!(host.handed_out, 3);
    assert_eq!(host.taken_back, 3);
    assert_eq!(host.bad_releases, 0);
    assert_eq!(
        host.calls,
        vec![
            String::from("create_string 7 \"a\" -> 1"),
            String::from("create_string 7 \"k\" -> 2"),
            String::from("open_key 7 k mode 3 -> 3"),
            String::from("close_key 3"),
            String::from("free_string 7 2"),
            String::from("free_string 7 1"),
        ]
    );
}

#[test]
fn a_wrapper_of_another_session_is_not_released() {
    let mut first = session();
    let mut second = session();
    let string = first.create_string("a");
    string.release(&mut second);
    let host = second.into_host();
    assert!(host.calls.is_empty());
    first.finish(Ok(()));
    let host = first.into_host();
    assert_eq!(host.taken_back, 1);
    assert_eq!(host.bad_releases, 0);
}

#[test]
fn create_string_hands_over_bytes_and_length() {
    let mut r = session();
    let _s = r.create_string("a\0b");
    let _t = r.create_string("héllo");
    let host = r.into_host();
    assert_eq!(host.strings.get(&1), Some(&b"a\0b".to_vec()));
    assert_eq!(host.strings.get(&2), Some(&"héllo".as_bytes().to_vec()));
}

#[test]
fn open_key_asks_for_read_access_only() {
    let mut r = session_with(&[("k", text_value("v"))]);
    let key = r.open_key("k");
    assert!(!key.is_null());
    let host = r.into_host();
    assert_eq!(host.calls[1], "open_key 7 k mode 1 -> 2");
    assert_eq!(host.keys.get(&2), Some(&(b"k".to_vec(), 1)));
    assert!(!host.calls.iter().any(|c| c.contains("mode 3") || c.contains("mode 2")));
}

#[test]
fn open_key_writable_asks_for_read_and_write_access() {
    let mut r = session();
    let _key = r.open_key_writable("k");
    let host = r.into_host();
    assert_eq!(host.calls[1], "open_key 7 k mode 3 -> 2");
}

#[test]
fn reading_an_absent_key_gives_none_without_asking() {
    let mut r = session();
    let key = r.open_key("missing");
    assert!(key.is_null());
    let read = key.read(&mut r).unwrap();
    assert_eq!(read, None);
    let host = r.into_host();
    assert_eq!(host.calls.len(), 2);
}

#[test]
fn reading_a_present_key_gives_its_text() {
    let mut r = session_with(&[("k", text_value("value"))]);
    let key = r.open_key("k");
    assert_eq!(key.read(&mut r).unwrap(), Some(String::from("value")));
    let host = r.into_host();
    assert_eq!(host.calls[2], "string_dma 2 mode 1");
}

#[test]
fn reading_bytes_that_are_no_text_fails_to_decode() {
    let mut r = session_with(&[("k", Value::Text(vec![0xc3, 0x28]))]);
    let key = r.open_key("k");
    let err = key.read(&mut r).unwrap_err();
    assert!(matches!(err, RModError::FromUtf8(_)));
    assert_eq!(err.to_string(), String::from_utf8(vec![0xc3, 0x28]).unwrap_err().to_string());
    match err {
        RModError::FromUtf8(inner) => assert_eq!(inner.into_bytes(), vec![0xc3, 0x28]),
        _ => unreachable!(),
    }
}

#[test]
fn a_written_value_reads_back() {
    let mut r = session();
    let key = r.open_key_writable("k");
    for text in ["v", "", "héllo wörld", "nul\0inside", "日本語"] {
        key.write(&mut r, text).unwrap();
        assert_eq!(key.read(&mut r).unwrap(), Some(String::from(text)));
    }
    let reader = r.open_key("k");
    assert_eq!(reader.read(&mut r).unwrap(), Some(String::from("日本語")));
}

#[test]
fn write_gives_its_native_string_back() {
    let mut r = session();
    let key = r.open_key_writable("k");
    key.write(&mut r, "v").unwrap();
    let host = r.into_host();
    assert_eq!(
        &host.calls[2..],
        &[
            String::from("create_string 7 \"v\" -> 3"),
            String::from("string_set 2 3"),
            String::from("free_string 7 3"),
        ]
    );
}

#[test]
fn write_reports_a_refusal() {
    let mut r = session();
    let key = r.open_key_writable("k");
    let mut host = r.into_host();
    host.refused.push("string_set");
    let mut r = Redis::new(host, CTX);
    assert_eq!(message(key.write(&mut r, "v")), "Store error: Error while setting key");
    let host = r.into_host();
    assert_eq!(host.calls.last().unwrap(), "free_string 7 3");
}

#[test]
fn is_empty_looks_at_the_value() {
    let mut r = session_with(&[("full", text_value("x")), ("blank", text_value(""))]);
    let full = r.open_key_writable("full");
    let blank = r.open_key_writable("blank");
    let absent = r.open_key_writable("absent");
    assert_eq!(full.is_empty(&mut r).unwrap(), false);
    assert_eq!(blank.is_empty(&mut r).unwrap(), true);
    assert_eq!(absent.is_empty(&mut r).unwrap(), true);
    assert_eq!(absent.read(&mut r).unwrap(), Some(String::new()));
}

#[test]
fn is_empty_fails_on_bytes_that_are_no_text() {
    let mut r = session_with(&[("k", Value::Text(vec![0x80]))]);
    let key = r.open_key_writable("k");
    assert!(matches!(key.is_empty(&mut r), Err(RModError::FromUtf8(_))));
}

#[test]
fn erace_deletes_the_key() {
    let mut r = session_with(&[("k", text_value("v"))]);
    let key = r.open_key_writable("k");
    key.erace(&mut r).unwrap();
    let host = r.into_host();
    assert!(host.store.is_empty());
}

#[test]
fn erace_reports_a_refusal() {
    let mut host = MemoryHost::default();
    host.refused.push("delete_key");
    let mut r = Redis::new(host, CTX);
    let key = r.open_key_writable("k");
    assert_eq!(message(key.erace(&mut r)), "Store error: Error while eracing key");
}

#[test]
fn set_expire_milliseconds_hands_the_number_over() {
    let mut r = session_with(&[("k", text_value("v"))]);
    let key = r.open_key_writable("k");
    key.set_expire_milliseconds(&mut r, 1500).unwrap();
    let host = r.into_host();
    assert_eq!(host.expires.get(&b"k".to_vec()), Some(&1500));
}

#[test]
fn set_expire_hands_over_whole_milliseconds() {
    let mut r = session_with(&[("k", text_value("v"))]);
    let key = r.open_key_writable("k");
    key.set_expire(&mut r, time::Duration::seconds(2)).unwrap();
    key.set_expire(&mut r, time::Duration::microseconds(2_500_999)).unwrap();
    key.set_expire(&mut r, time::Duration::milliseconds(-7)).unwrap();
    let host = r.into_host();
    let sets: Vec<&String> = host.calls.iter().filter(|c| c.starts_with("set_expire")).collect();
    assert_eq!(sets, vec!["set_expire 2 2000", "set_expire 2 2500", "set_expire 2 -7"]);
}

#[test]
fn set_expire_on_an_empty_key_is_refused() {
    let mut r = session();
    let key = r.open_key_writable("k");
    assert_eq!(
        message(key.set_expire(&mut r, time::Duration::seconds(1))),
        "Store error: Error while setting key expire"
    );
}

#[test]
fn try_set_expire_takes_the_ends_of_the_range() {
    let mut r = session_with(&[("k", text_value("v"))]);
    let key = r.open_key_writable("k");
    assert!(matches!(key.try_set_expire(&mut r, time::Duration::max_value()), Some(Ok(()))));
    assert!(matches!(key.try_set_expire(&mut r, time::Duration::min_value()), Some(Ok(()))));
    let host = r.into_host();
    let sets: Vec<&String> = host.calls.iter().filter(|c| c.starts_with("set_expire")).collect();
    assert_eq!(
        sets,
        vec![
            &format!("set_expire 2 {}", i64::MAX),
            &format!("set_expire 2 {}", i64::MIN),
        ]
    );
}

#[test]
fn try_set_expire_leaves_a_duration_out_of_range_alone() {
    let mut r = session_with(&[("k", text_value("v"))]);
    let key = r.open_key_writable("k");
    let too_long = time::Duration::max_value() + time::Duration::seconds(1);
    assert!(key.try_set_expire(&mut r, too_long).is_none());
    let host = r.into_host();
    assert!(!host.calls.iter().any(|c| c.starts_with("set_expire")));
}

#[test]
fn rpush_and_lpush_put_elements_at_the_ends() {
    let mut r = session();
    let key = r.open_key_writable("l");
    key.rpush(&mut r, "b").unwrap();
    key.lpush(&mut r, "a").unwrap();
    key.rpush(&mut r, "c").unwrap();
    let host = r.into_host();
    assert_eq!(host.store.get(&b"l".to_vec()), Some(&list_value(&["a", "b", "c"])));
    let pushes: Vec<&String> = host.calls.iter().filter(|c| c.starts_with("list_push")).collect();
    assert_eq!(pushes, vec!["list_push 2 -1 3", "list_push 2 0 4", "list_push 2 -1 5"]);
    assert_eq!(host.strings.len(), 1);
}

#[test]
fn rpush_to_a_string_is_a_type_error() {
    let mut r = session_with(&[("k", text_value("v"))]);
    let key = r.open_key_writable("k");
    assert_eq!(
        message(key.rpush(&mut r, "x")),
        "Store error: Error while rpush to key, tried to the wrong type"
    );
}

#[test]
fn lpush_to_a_string_is_a_type_error() {
    let mut r = session_with(&[("k", text_value("v"))]);
    let key = r.open_key_writable("k");
    assert_eq!(
        message(key.lpush(&mut r, "x")),
        "Store error: Error while lpush to key, tried to the wrong type"
    );
}

#[test]
fn rpop_and_lpop_take_elements_from_the_ends() {
    let mut r = session_with(&[("l", list_value(&["a", "b", "c"]))]);
    let key = r.open_key_writable("l");
    assert_eq!(key.rpop(&mut r).unwrap(), Some(String::from("c")));
    assert_eq!(key.lpop(&mut r).unwrap(), Some(String::from("a")));
    assert_eq!(key.lpop(&mut r).unwrap(), Some(String::from("b")));
    assert_eq!(key.lpop(&mut r).unwrap(), None);
    assert_eq!(key.rpop(&mut r).unwrap(), None);
    let host = r.into_host();
    let pops: Vec<&String> = host.calls.iter().filter(|c| c.starts_with("list_pop")).collect();
    assert_eq!(pops, vec!["list_pop 2 -1", "list_pop 2 0", "list_pop 2 0"]);
    assert_eq!(host.strings.len(), 1, "every popped element was given back");
    assert_eq!(host.bad_releases, 0);
}

#[test]
fn pop_from_an_empty_key_gives_none() {
    let mut r = session();
    let key = r.open_key_writable("nothing");
    assert_eq!(key.rpop(&mut r).unwrap(), None);
    assert_eq!(key.lpop(&mut r).unwrap(), None);
    let host = r.into_host();
    assert!(!host.calls.iter().any(|c| c.starts_with("list_pop")));
}

#[test]
fn pop_from_a_key_that_is_no_list_is_a_type_error() {
    let mut fields = BTreeMap::new();
    fields.insert(b"f".to_vec(), b"v".to_vec());
    let mut r = session_with(&[("s", text_value("v")), ("h", Value::Hash(fields))]);
    let string = r.open_key_writable("s");
    let hash = r.open_key_writable("h");
    for res in [string.rpop(&mut r), string.lpop(&mut r), hash.rpop(&mut r), hash.lpop(&mut r)] {
        let err = res.unwrap_err();
        assert!(matches!(err, RModError::Generic(_)));
        assert_eq!(err.to_string(), "Store error: Error while lpop to key, not List structure");
    }
    let host = r.into_host();
    assert!(!host.calls.iter().any(|c| c.starts_with("list_pop")));
}

#[test]
fn pop_of_an_element_that_is_no_text_is_an_error() {
    let mut r = session_with(&[("l", Value::List(vec![vec![0xff], vec![0xfe]]))]);
    let key = r.open_key_writable("l");
    assert_eq!(
        key.rpop(&mut r).unwrap_err().to_string(),
        "Store error: Error while rpop to key, tried to the wrong type"
    );
    assert_eq!(
        key.lpop(&mut r).unwrap_err().to_string(),
        "Store error: Error while lpop to key, tried to the wrong type"
    );
    let host = r.into_host();
    assert_eq!(host.strings.len(), 1, "the elements were given back all the same");
}

#[test]
fn hash_fields_are_set_and_got() {
    let mut r = session();
    let key = r.open_key_writable("h");
    key.rm_hset(&mut r, "field", "value").unwrap();
    assert_eq!(key.rm_hget(&mut r, "field"), Some(String::from("value")));
    assert_eq!(key.rm_hget(&mut r, "other"), None);
    let host = r.into_host();
    assert_eq!(host.strings.len(), 1);
    assert_eq!(host.bad_releases, 0);
    assert_eq!(
        &host.calls[2..7],
        &[
            String::from("create_string 7 \"field\" -> 3"),
            String::from("create_string 7 \"value\" -> 4"),
            String::from("rm_hash_set 2 3 4"),
            String::from("free_string 7 4"),
            String::from("free_string 7 3"),
        ]
    );
}

#[test]
fn hget_on_an_absent_key_gives_none() {
    let mut r = session();
    let key = r.open_key_writable("h");
    assert_eq!(key.rm_hget(&mut r, "field"), None);
    let host = r.into_host();
    assert_eq!(
        &host.calls[2..],
        &[
            String::from("create_string 7 \"field\" -> 3"),
            String::from("rm_hash_get 2 3"),
            String::from("free_string 7 3"),
        ]
    );
}

#[test]
fn hget_of_a_value_that_is_no_text_gives_none() {
    let mut fields = BTreeMap::new();
    fields.insert(b"f".to_vec(), vec![0xff]);
    let mut r = session_with(&[("h", Value::Hash(fields))]);
    let key = r.open_key_writable("h");
    assert_eq!(key.rm_hget(&mut r, "f"), None);
    let host = r.into_host();
    assert_eq!(host.strings.len(), 1);
}

#[test]
fn hset_on_a_string_is_an_error() {
    let mut r = session_with(&[("k", text_value("v"))]);
    let key = r.open_key_writable("k");
    assert_eq!(
        message(key.rm_hset(&mut r, "f", "v")),
        "Store error: Error while hset key value, sth of err occured inside redismodule api"
    );
}

#[test]
fn replies_reach_the_host() {
    let mut r = session();
    r.reply_array(5).unwrap();
    r.reply_integer(-42).unwrap();
    r.reply_string("bulk\0text").unwrap();
    r.reply_with_simple_string("PONG");
    r.reply_ok();
    r.reply_null();
    let host = r.into_host();
    assert_eq!(host.replied, vec!["*5", ":-42", "$bulk\0text", "+PONG", "+OK", "_"]);
    assert!(host.strings.is_empty());
}

#[test]
fn an_announced_array_is_followed_by_as_many_replies() {
    let mut r = session();
    let names = ["a", "b", "c"];
    r.reply_array(names.len() as i64).unwrap();
    for name in names {
        r.reply_string(name).unwrap();
    }
    let host = r.into_host();
    assert_eq!(host.replied[0], "*3");
    assert_eq!(host.replied.len() - 1, 3);
}

#[test]
fn refused_replies_are_errors() {
    let mut host = MemoryHost::default();
    host.refused = vec!["reply_with_array", "reply_with_long_long", "reply_with_string"];
    let mut r = Redis::new(host, CTX);
    assert_eq!(message(r.reply_array(1)), "Store error: Could not reply with long");
    assert_eq!(message(r.reply_integer(1)), "Store error: Could not reply with longlong");
    assert_eq!(message(r.reply_string("x")), "Store error: Could not reply with string");
    let host = r.into_host();
    assert!(host.strings.is_empty());
}

#[test]
fn replicate_verbatim_reaches_the_host() {
    let mut r = session();
    r.replicate_verbatim();
    let host = r.into_host();
    assert_eq!(host.replicated, 1);
}

#[test]
fn log_spells_the_level_in_lower_case() {
    let mut r = session();
    r.log(LogLevel::Debug, "one");
    r.log(LogLevel::Notice, "two");
    r.log(LogLevel::Verbose, "three");
    r.log(LogLevel::Warning, "four");
    r.log_debug("five");
    let host = r.into_host();
    let expected: Vec<(String, String)> = [
        ("debug", "one"),
        ("notice", "two"),
        ("verbose", "three"),
        ("warning", "four"),
        ("notice", "five"),
    ]
    .iter()
    .map(|(l, m)| (l.to_string(), m.to_string()))
    .collect();
    assert_eq!(host.logged, expected);
}

#[test]
fn call_keys_gives_the_names_in_the_hosts_order() {
    let mut r = session_with(&[
        ("user:1", text_value("a")),
        ("user:2", text_value("b")),
        ("other", text_value("c")),
    ]);
    let keys = r.call_keys("user:*").unwrap();
    assert_eq!(keys, vec![String::from("user:1"), String::from("user:2")]);
    let host = r.into_host();
    assert!(host.replies.is_empty(), "the reply and its elements were given back");
    assert_eq!(host.bad_releases, 0);
    assert_eq!(host.calls[0], "call keys [\"user:*\"]");
}

#[test]
fn call_keys_without_a_match_gives_nothing() {
    let mut r = session_with(&[("other", text_value("c"))]);
    assert_eq!(r.call_keys("user:*").unwrap(), Vec::<String>::new());
}

#[test]
fn call_keys_puts_the_error_text_in_place_of_an_element_that_is_no_text() {
    let mut host = MemoryHost::default();
    host.store.insert(vec![b'u', 0xff], text_value("a"));
    host.store.insert(b"u1".to_vec(), text_value("b"));
    let mut r = Redis::new(host, CTX);
    let keys = r.call_keys("u*").unwrap();
    assert_eq!(
        keys,
        vec![String::from("u1"), String::from("Store error: failed to parse char pointer")]
    );
}

#[test]
fn call_keys_fails_where_the_reply_is_no_array() {
    let mut host = MemoryHost::default();
    host.keys_reply = Some(Node::Text(b"abc".to_vec()));
    let mut r = Redis::new(host, CTX);
    let err = r.call_keys("user:*").unwrap_err();
    assert!(matches!(err, RModError::Generic(_)));
    assert_eq!(err.to_string(), "Store error: Failed to take element from reply array");
    let host = r.into_host();
    assert!(host.replies.is_empty());
    assert_eq!(host.bad_releases, 0);
    assert_eq!(
        host.calls,
        vec![
            String::from("call keys [\"user:*\"]"),
            String::from("call_reply_length 1"),
            String::from("call_reply_type 1"),
            String::from("free_call_reply 1"),
        ]
    );
}

#[test]
fn call_keys_of_a_reply_without_length_asks_for_no_element() {
    let mut host = MemoryHost::default();
    host.keys_reply = Some(Node::Nil);
    let mut r = Redis::new(host, CTX);
    assert_eq!(r.call_keys("user:*").unwrap(), Vec::<String>::new());
    let host = r.into_host();
    assert_eq!(
        host.calls,
        vec![
            String::from("call keys [\"user:*\"]"),
            String::from("call_reply_length 1"),
            String::from("free_call_reply 1"),
        ]
    );
}

#[test]
fn call_keys_puts_the_error_text_in_place_of_an_element_that_is_no_string() {
    let mut host = MemoryHost::default();
    let first = host.fresh();
    host.replies.insert(first, Node::Integer(5));
    let second = host.fresh();
    host.replies.insert(second, Node::Text(b"k".to_vec()));
    host.keys_reply = Some(Node::Array(vec![first, second]));
    let mut r = Redis::new(host, CTX);
    assert_eq!(
        r.call_keys("*").unwrap(),
        vec![String::from("Store error: Invalid type of CallReply, not String"), String::from("k")]
    );
    let host = r.into_host();
    assert!(host.replies.is_empty());
}

#[test]
fn nested_calls_that_reply_with_an_integer() {
    let mut r = session_with(&[("k", text_value("abc"))]);
    assert_eq!(r.call1_reply_integer("strlen", "k").unwrap(), 3);
    assert_eq!(r.call2_reply_integer("append", "k", "de").unwrap(), 5);
    assert_eq!(r.call3_reply_integer("hset", "h", "f", "v").unwrap(), 1);
    assert_eq!(r.call3_reply_integer("hset", "h", "f", "w").unwrap(), 0);
    let host = r.into_host();
    assert!(host.replies.is_empty());
    assert_eq!(host.handed_out, host.taken_back);
    assert_eq!(host.store.get(&b"k".to_vec()), Some(&text_value("abcde")));
}

#[test]
fn nested_calls_that_reply_with_a_string() {
    let mut fields = BTreeMap::new();
    fields.insert(b"f".to_vec(), b"value".to_vec());
    let mut r = session_with(&[("k", text_value("abcdef")), ("h", Value::Hash(fields))]);
    assert_eq!(r.call1_reply_string("get", "k").unwrap(), "abcdef");
    assert_eq!(r.call2_reply_string("hget", "h", "f").unwrap(), "value");
    assert_eq!(r.call3_reply_string("getrange", "k", "1", "3").unwrap(), "bcd");
    let host = r.into_host();
    assert!(host.replies.is_empty());
    assert_eq!(
        &host.calls[..4],
        &[
            String::from("call get [\"k\"]"),
            String::from("call_reply_type 1"),
            String::from("call_reply_string_ptr 1"),
            String::from("free_call_reply 1"),
        ]
    );
}

#[test]
fn a_reply_that_is_no_integer_is_a_type_error() {
    let mut r = session_with(&[("k", text_value("abc"))]);
    let wrong = "Store error: Invalid type of CallReply, not Integer";
    assert_eq!(r.call1_reply_integer("get", "k").unwrap_err().to_string(), wrong);
    assert_eq!(r.call1_reply_integer("get", "absent").unwrap_err().to_string(), wrong);
    assert_eq!(r.call1_reply_integer("keys", "*").unwrap_err().to_string(), wrong);
    assert_eq!(r.call2_reply_integer("hget", "k", "f").unwrap_err().to_string(), wrong);
    assert_eq!(r.call3_reply_integer("getrange", "k", "0", "1").unwrap_err().to_string(), wrong);
    assert_eq!(r.call1_reply_integer("nonsense", "k").unwrap_err().to_string(), wrong);
    let host = r.into_host();
    assert!(!host.calls.iter().any(|c| c.starts_with("call_reply_integer")));
}

#[test]
fn a_reply_that_is_no_string_is_a_type_error() {
    let mut r = session_with(&[("k", text_value("abc"))]);
    let wrong = "Store error: Invalid type of CallReply, not String";
    assert_eq!(r.call1_reply_string("strlen", "k").unwrap_err().to_string(), wrong);
    assert_eq!(r.call1_reply_string("get", "absent").unwrap_err().to_string(), wrong);
    assert_eq!(r.call2_reply_string("append", "k", "d").unwrap_err().to_string(), wrong);
    assert_eq!(r.call3_reply_string("hset", "h", "f", "v").unwrap_err().to_string(), wrong);
    let host = r.into_host();
    assert!(!host.calls.iter().any(|c| c.starts_with("call_reply_string_ptr")));
}

#[test]
fn a_string_reply_that_is_no_text_is_an_error() {
    let mut r = session_with(&[("k", Value::Text(vec![0xff]))]);
    assert_eq!(
        r.call1_reply_string("get", "k").unwrap_err().to_string(),
        "Store error: failed to parse char pointer"
    );
}

#[test]
fn call2_reply_int_hands_back_the_hosts_integer() {
    let mut r = session_with(&[("n", text_value("40"))]);
    assert_eq!(r.call2_reply_int("incrby", "n", "2"), 42);
    let host = r.into_host();
    assert_eq!(host.calls, vec![String::from("callable2_reply_int incrby n 2")]);
}

#[test]
fn initializer_announces_the_module() {
    let mut r = session();
    let status = RedisModuleInitializer::new("mymodule", 3).run(&mut r);
    assert_eq!(status, Status::Success);
    let host = r.into_host();
    assert_eq!(host.calls, vec![String::from("init 7 mymodule 3 1")]);
}

fn table() -> Vec<Registration> {
    vec![
        Registration {
            name: String::from(SetCommand.name()),
            flags: String::from(SetCommand.str_flags()),
            entry: RedisModuleCmdFunc { addr: 0x10 },
        },
        Registration {
            name: String::from("ns.bad"),
            flags: String::from("readonly"),
            entry: RedisModuleCmdFunc { addr: 0x20 },
        },
        Registration {
            name: String::from(LeakyCommand.name()),
            flags: String::from(LeakyCommand.str_flags()),
            entry: RedisModuleCmdFunc { addr: 0x30 },
        },
    ]
}

#[test]
fn load_registers_every_command_in_order() {
    let mut r = session();
    let status = load(&mut r, &RedisModuleInitializer::new("mymodule", 1), &table());
    assert_eq!(status, Status::Success);
    let host = r.into_host();
    assert_eq!(
        host.calls,
        vec![
            String::from("init 7 mymodule 1 1"),
            String::from("create_command 7 ns.set write deny-oom 0 0 0"),
            String::from("create_command 7 ns.bad readonly 0 0 0"),
            String::from("create_command 7 ns.leaky write 0 0 0"),
        ]
    );
    assert_eq!(
        host.registered,
        vec![
            (String::from("ns.set"), String::from("write deny-oom"), 0x10),
            (String::from("ns.bad"), String::from("readonly"), 0x20),
            (String::from("ns.leaky"), String::from("write"), 0x30),
        ]
    );
}

#[test]
fn load_stops_at_a_refused_announcement() {
    let mut host = MemoryHost::default();
    host.refused.push("init");
    let mut r = Redis::new(host, CTX);
    let status = load(&mut r, &RedisModuleInitializer::new("mymodule", 1), &table());
    assert_eq!(status, Status::Failure);
    let host = r.into_host();
    assert_eq!(host.calls.len(), 1);
    assert!(host.registered.is_empty());
}

#[test]
fn load_stops_at_the_first_refused_command() {
    let mut host = MemoryHost::default();
    host.refused.push("create_command");
    let mut r = Redis::new(host, CTX);
    let status = load(&mut r, &RedisModuleInitializer::new("mymodule", 1), &table());
    assert_eq!(status, Status::Failure);
    let host = r.into_host();
    assert_eq!(host.calls.len(), 3);
    assert_eq!(host.registered.len(), 1);
}

#[test]
fn load_of_an_empty_table_only_announces() {
    let mut r = session();
    let status = load(&mut r, &RedisModuleInitializer::new("m", 0), &[]);
    assert_eq!(status, Status::Success);
    assert_eq!(r.into_host().calls.len(), 1);
}
