use crate::text::{
    contains_seq, contains_str, lowercase, same_text, split_words, to_lowercase, views_of, words,
};
use vstd::hash_map::StringHashMap;
use vstd::prelude::*;

verus! {

/// The kinds of request of the key-value service.
#[derive(Clone, Copy, Debug, PartialEq, Eq, Structural)]
pub enum RequestType {
    Get,
    /// Store a value under a key.
    SetKey,
    Del,
    Ping,
    Publish,
    Subscribe,
}

/// The kinds of response of the key-value service.
#[derive(Clone, Copy, Debug, PartialEq, Eq, Structural)]
pub enum ResponseType {
    Done,
}

/// A request to the key-value service.
#[derive(Clone, Debug)]
pub struct RedisRequest {
    pub req_type: RequestType,
    pub key: Option<String>,
    pub value: Option<String>,
    pub expire_time: Option<i64>,
}

/// A response of the key-value service.
#[derive(Clone, Debug)]
pub struct RedisResponse {
    pub resp_type: ResponseType,
    pub value: Option<String>,
}

/// The characters of an optional string.
pub open spec fn opt_view(o: Option<String>) -> Option<Seq<char>> {
    match o {
        Some(s) => Some(s@),
        None => None,
    }
}

/// A request carries the fields its kind reads: a key for `Get` and `Del`,
/// a key and a value for `Set`.
pub open spec fn request_complete(req: RedisRequest) -> bool {
    match req.req_type {
        RequestType::SetKey => req.key is Some && req.value is Some,
        RequestType::Get => req.key is Some,
        RequestType::Del => req.key is Some,
        _ => true,
    }
}

/// Whether `req` carries the fields its kind reads.
pub fn is_complete(req: &RedisRequest) -> (r: bool)
    ensures
        r == request_complete(*req),
{
    match req.req_type {
        RequestType::SetKey => req.key.is_some() && req.value.is_some(),
        RequestType::Get => req.key.is_some(),
        RequestType::Del => req.key.is_some(),
        _ => true,
    }
}

/// The response that the service gives to `req` when its table is `t`, as
/// characters: `None` for the empty response to `Publish` and `Subscribe`.
pub open spec fn reply_text(t: Map<Seq<char>, Seq<char>>, req: RedisRequest) -> Option<Seq<char>> {
    match req.req_type {
        RequestType::SetKey => Some("OK"@),
        RequestType::Get => if t.contains_key(req.key->0@) {
            Some(t[req.key->0@])
        } else {
            Some("(nil)"@)
        },
        RequestType::Del => if t.contains_key(req.key->0@) {
            Some("(integer) 1"@)
        } else {
            Some("(integer) 0"@)
        },
        RequestType::Ping => match req.value {
            Some(v) => Some(v@),
            None => Some("PONG"@),
        },
        _ => None,
    }
}

/// The table after the service handled `req` on table `t`.
pub open spec fn table_after(t: Map<Seq<char>, Seq<char>>, req: RedisRequest) -> Map<
    Seq<char>,
    Seq<char>,
> {
    match req.req_type {
        RequestType::SetKey => t.insert(req.key->0@, req.value->0@),
        RequestType::Del => t.remove(req.key->0@),
        _ => t,
    }
}

/// The key-value service: a table from keys to values.
pub struct S {
    kvtbl: StringHashMap<String>,
}

impl S {
    /// The table, as characters.
    pub closed spec fn table(&self) -> Map<Seq<char>, Seq<char>> {
        self.kvtbl@.map_values(|v: String| v@)
    }

    /// An empty service.
    pub fn new() -> (s: Self)
        ensures
            s.table() == Map::<Seq<char>, Seq<char>>::empty(),
    {
        let s = S { kvtbl: StringHashMap::new() };
        assert(s.table() =~= Map::<Seq<char>, Seq<char>>::empty());
        s
    }

    /// Handles one request: `Set` stores the value and answers `OK`; `Get`
    /// answers the stored value or `(nil)`; `Del` removes the key and answers
    /// `(integer) 1` if it was there, `(integer) 0` if not; `Ping` echoes its
    /// value or answers `PONG`; `Publish` and `Subscribe` get an empty
    /// response. Every response is of type `Done`.
    pub fn redis_command(&mut self, req: RedisRequest) -> (resp: RedisResponse)
        requires
            request_complete(req),
        ensures
            resp.resp_type == ResponseType::Done,
            opt_view(resp.value) == reply_text(old(self).table(), req),
            final(self).table() == table_after(old(self).table(), req),
    {
        proof {
            reveal_strlit("OK");
        }
        match req.req_type {
            RequestType::SetKey => {
                let key = req.key.unwrap();
                let value = req.value.unwrap();
                let ghost k = key@;
                let ghost v = value@;
                self.kvtbl.insert(key, value);
                assert(self.table() =~= old(self).table().insert(k, v));
                RedisResponse { resp_type: ResponseType::Done, value: Some(String::from_str("OK")) }
            },
            RequestType::Get => {
                let key = req.key.unwrap();
                match self.kvtbl.get(key.as_str()) {
                    Some(val) => RedisResponse {
                        resp_type: ResponseType::Done,
                        value: Some(val.clone()),
                    },
                    None => RedisResponse {
                        resp_type: ResponseType::Done,
                        value: Some(String::from_str("(nil)")),
                    },
                }
            },
            RequestType::Del => {
                let key = req.key.unwrap();
                let present = self.kvtbl.contains_key(key.as_str());
                self.kvtbl.remove(key.as_str());
                assert(self.table() =~= old(self).table().remove(key@));
                if present {
                    RedisResponse {
                        resp_type: ResponseType::Done,
                        value: Some(String::from_str("(integer) 1")),
                    }
                } else {
                    RedisResponse {
                        resp_type: ResponseType::Done,
                        value: Some(String::from_str("(integer) 0")),
                    }
                }
            },
            RequestType::Ping => {
                let value = match req.value {
                    Some(val) => Some(val),
                    None => Some(String::from_str("PONG")),
                };
                RedisResponse { resp_type: ResponseType::Done, value }
            },
            _ => RedisResponse { resp_type: ResponseType::Done, value: None },
        }
    }
}

} // verus!

verus! {

/// What the client does with one line typed at its prompt.
#[derive(Clone, Debug)]
pub enum Command {
    /// The line holds no word: prompt again.
    Blank,
    /// Send this request to the service.
    Send(RedisRequest),
    /// The command has the wrong number of arguments.
    WrongArgCount,
    /// Leave the client.
    Quit,
    /// The first word names no command.
    Unknown,
}

/// `c` is a `Send` of a request of kind `t` with no expiry and the given key
/// and value.
pub open spec fn sends(c: Command, t: RequestType, key: Option<Seq<char>>, value: Option<Seq<char>>) -> bool {
    &&& c is Send
    &&& c->Send_0.req_type == t
    &&& opt_view(c->Send_0.key) == key
    &&& opt_view(c->Send_0.value) == value
    &&& c->Send_0.expire_time is None
}

/// The command that the words `ws` of a line stand for. The first word
/// names the command whatever its case; `get` and `del` take a key, `set` a
/// key and a value, `ping` at most one value; `publish` and `subscribe` take
/// no argument that is used.
pub open spec fn command_of(ws: Seq<Seq<char>>, c: Command) -> bool {
    if ws.len() == 0 {
        c is Blank
    } else {
        let w = lowercase(ws[0]);
        if w == "get"@ {
            if ws.len() != 2 {
                c is WrongArgCount
            } else {
                sends(c, RequestType::Get, Some(ws[1]), None)
            }
        } else if w == "set"@ {
            if ws.len() != 3 {
                c is WrongArgCount
            } else {
                sends(c, RequestType::SetKey, Some(ws[1]), Some(ws[2]))
            }
        } else if w == "ping"@ {
            if ws.len() > 2 {
                c is WrongArgCount
            } else if ws.len() == 2 {
                sends(c, RequestType::Ping, None, Some(ws[1]))
            } else {
                sends(c, RequestType::Ping, None, None)
            }
        } else if w == "del"@ {
            if ws.len() != 2 {
                c is WrongArgCount
            } else {
                sends(c, RequestType::Del, Some(ws[1]), None)
            }
        } else if w == "publish"@ {
            sends(c, RequestType::Publish, None, None)
        } else if w == "subscribe"@ {
            sends(c, RequestType::Subscribe, None, None)
        } else if w == "quit"@ {
            c is Quit
        } else {
            c is Unknown
        }
    }
}

fn request(t: RequestType, key: Option<String>, value: Option<String>) -> (c: Command)
    ensures
        sends(c, t, opt_view(key), opt_view(value)),
{
    Command::Send(RedisRequest { req_type: t, key, value, expire_time: None })
}

/// Reads one line typed at the client's prompt.
pub fn parse_command(line: &str) -> (c: Command)
    ensures
        command_of(words(line@), c),
{
    let ws = split_words(line);
    let ghost wv = views_of(ws@);
    assert(wv.len() == ws.len());
    if ws.len() == 0 {
        return Command::Blank;
    }
    assert(wv[0] == ws@[0]@);
    let lower = to_lowercase(ws[0].as_str());
    let n = ws.len();
    if same_text(lower.as_str(), "get") {
        if n != 2 {
            Command::WrongArgCount
        } else {
            assert(wv[1] == ws@[1]@);
            request(RequestType::Get, Some(ws[1].clone()), None)
        }
    } else if same_text(lower.as_str(), "set") {
        if n != 3 {
            Command::WrongArgCount
        } else {
            assert(wv[1] == ws@[1]@);
            assert(wv[2] == ws@[2]@);
            request(RequestType::SetKey, Some(ws[1].clone()), Some(ws[2].clone()))
        }
    } else if same_text(lower.as_str(), "ping") {
        if n > 2 {
            Command::WrongArgCount
        } else if n == 2 {
            assert(wv[1] == ws@[1]@);
            request(RequestType::Ping, None, Some(ws[1].clone()))
        } else {
            request(RequestType::Ping, None, None)
        }
    } else if same_text(lower.as_str(), "del") {
        if n != 2 {
            Command::WrongArgCount
        } else {
            assert(wv[1] == ws@[1]@);
            request(RequestType::Del, Some(ws[1].clone()), None)
        }
    } else if same_text(lower.as_str(), "publish") {
        request(RequestType::Publish, None, None)
    } else if same_text(lower.as_str(), "subscribe") {
        request(RequestType::Subscribe, None, None)
    } else if same_text(lower.as_str(), "quit") {
        Command::Quit
    } else {
        Command::Unknown
    }
}

/// The guard in front of the key-value service: it refuses every request
/// whose printed form mentions `rust`.
pub struct FilterLayer;

impl FilterLayer {
    /// Whether the request printed as `request_text` is refused.
    pub fn blocks(&self, request_text: &str) -> (r: bool)
        ensures
            r == contains_seq(request_text@, "rust"@),
    {
        contains_str(request_text, "rust")
    }

    /// The answer to the request printed as `request_text`: the refusal
    /// message `"rust" is filtered.` when the guard refuses it, `None` when
    /// the request goes on to the service.
    pub fn refusal(&self, request_text: &str) -> (r: Option<String>)
        ensures
            r is Some == contains_seq(request_text@, "rust"@),
            r matches Some(m) ==> m@ == "\"rust\" is filtered."@,
    {
        if self.blocks(request_text) {
            Some(String::from_str("\"rust\" is filtered."))
        } else {
            None
        }
    }
}

} // verus!

verus! {

/// A read gives back the last write: after `set` of a key, `get` of that
/// key answers the value that was set.
pub proof fn law_get_after_set(t: Map<Seq<char>, Seq<char>>, set: RedisRequest, get: RedisRequest)
    requires
        set.req_type == RequestType::SetKey,
        request_complete(set),
        get.req_type == RequestType::Get,
        request_complete(get),
        get.key->0@ == set.key->0@,
    ensures
        reply_text(table_after(t, set), get) == Some(set.value->0@),
{
}

/// A delete reports whether the key was there and removes it: after `set`
/// of a key, `del` of it answers `(integer) 1`; afterwards `get` answers
/// `(nil)` and a second `del` answers `(integer) 0`.
pub proof fn law_del_after_set(
    t: Map<Seq<char>, Seq<char>>,
    set: RedisRequest,
    del: RedisRequest,
    get: RedisRequest,
)
    requires
        set.req_type == RequestType::SetKey,
        request_complete(set),
        del.req_type == RequestType::Del,
        request_complete(del),
        get.req_type == RequestType::Get,
        request_complete(get),
        del.key->0@ == set.key->0@,
        get.key->0@ == set.key->0@,
    ensures
        reply_text(table_after(t, set), del) == Some("(integer) 1"@),
        reply_text(table_after(table_after(t, set), del), get) == Some("(nil)"@),
        reply_text(table_after(table_after(t, set), del), del) == Some("(integer) 0"@),
{
}

/// Requests other than `set` and `del` leave the table as it was.
pub proof fn law_reads_do_not_write(t: Map<Seq<char>, Seq<char>>, req: RedisRequest)
    requires
        req.req_type != RequestType::SetKey,
        req.req_type != RequestType::Del,
    ensures
        table_after(t, req) == t,
{
}

} // verus!

verus! {

/// A `set` stores its value under its key and leaves every other key as it
/// was; a `del` removes its key and leaves every other key as it was.
pub proof fn law_writes_touch_only_their_key(t: Map<Seq<char>, Seq<char>>, req: RedisRequest, other: Seq<char>)
    requires
        req.req_type == RequestType::SetKey || req.req_type == RequestType::Del,
        request_complete(req),
        other != req.key->0@,
    ensures
        table_after(t, req).contains_key(other) == t.contains_key(other),
        t.contains_key(other) ==> table_after(t, req)[other] == t[other],
        req.req_type == RequestType::SetKey ==> table_after(t, req).contains_key(req.key->0@)
            && table_after(t, req)[req.key->0@] == req.value->0@,
        req.req_type == RequestType::Del ==> !table_after(t, req).contains_key(req.key->0@),
{
}

/// A write to one key does not change what a `get` of another key answers.
pub proof fn law_get_other_key_unchanged(t: Map<Seq<char>, Seq<char>>, write: RedisRequest, get: RedisRequest)
    requires
        write.req_type == RequestType::SetKey || write.req_type == RequestType::Del,
        request_complete(write),
        get.req_type == RequestType::Get,
        request_complete(get),
        get.key->0@ != write.key->0@,
    ensures
        reply_text(table_after(t, write), get) == reply_text(t, get),
{
    law_writes_touch_only_their_key(t, write, get.key->0@);
}

/// The command word is read whatever its case: two lines whose words agree
/// except for the first, and whose first words have the same lowercase
/// form, stand for the same command.
pub proof fn law_command_case_insensitive(ws: Seq<Seq<char>>, vs: Seq<Seq<char>>, c: Command)
    requires
        ws.len() == vs.len(),
        ws.len() > 0,
        lowercase(ws[0]) == lowercase(vs[0]),
        forall|i: int| 1 <= i < ws.len() ==> ws[i] == vs[i],
    ensures
        command_of(ws, c) == command_of(vs, c),
{
    if ws.len() >= 2 {
        assert(ws[1] == vs[1]);
    }
    if ws.len() >= 3 {
        assert(ws[2] == vs[2]);
    }
}

/// The command names are pairwise different.
proof fn lemma_command_names_distinct()
    ensures
        "get"@ != "set"@,
        "get"@ != "ping"@,
        "get"@ != "del"@,
        "set"@ != "ping"@,
        "set"@ != "del"@,
        "ping"@ != "del"@,
        "publish"@ != "get"@,
        "publish"@ != "set"@,
        "publish"@ != "ping"@,
        "publish"@ != "del"@,
        "subscribe"@ != "get"@,
        "subscribe"@ != "set"@,
        "subscribe"@ != "ping"@,
        "subscribe"@ != "del"@,
        "subscribe"@ != "publish"@,
        "quit"@ != "get"@,
        "quit"@ != "set"@,
        "quit"@ != "ping"@,
        "quit"@ != "del"@,
        "quit"@ != "publish"@,
        "quit"@ != "subscribe"@,
{
    reveal_strlit("get");
    reveal_strlit("set");
    reveal_strlit("ping");
    reveal_strlit("del");
    reveal_strlit("publish");
    reveal_strlit("subscribe");
    reveal_strlit("quit");
    assert("get"@[0] != "set"@[0]);
    assert("get"@[0] != "ping"@[0]);
    assert("get"@[0] != "del"@[0]);
    assert("set"@[0] != "ping"@[0]);
    assert("set"@[0] != "del"@[0]);
    assert("ping"@[0] != "del"@[0]);
    assert("publish"@.len() != "get"@.len());
    assert("publish"@.len() != "set"@.len());
    assert("publish"@[1] != "ping"@[1]);
    assert("publish"@.len() != "del"@.len());
    assert("subscribe"@.len() != "get"@.len());
    assert("subscribe"@[1] != "set"@[1]);
    assert("subscribe"@.len() != "ping"@.len());
    assert("subscribe"@.len() != "del"@.len());
    assert("subscribe"@.len() != "publish"@.len());
    assert("quit"@[0] != "get"@[0]);
    assert("quit"@[0] != "set"@[0]);
    assert("quit"@[0] != "ping"@[0]);
    assert("quit"@[0] != "del"@[0]);
    assert("quit"@[0] != "publish"@[0]);
    assert("quit"@[0] != "subscribe"@[0]);
}

/// Whatever its case, a command word whose lowercase form names a command
/// gives that command: `set` with a key and a value sends a store request,
/// `get` and `del` with a key send a read or a delete, `ping` sends a ping,
/// `quit` leaves.
pub proof fn law_named_commands(ws: Seq<Seq<char>>, c: Command)
    requires
        ws.len() > 0,
        command_of(ws, c),
    ensures
        lowercase(ws[0]) == "set"@ && ws.len() == 3 ==> sends(c, RequestType::SetKey, Some(ws[1]), Some(ws[2])),
        lowercase(ws[0]) == "get"@ && ws.len() == 2 ==> sends(c, RequestType::Get, Some(ws[1]), None),
        lowercase(ws[0]) == "del"@ && ws.len() == 2 ==> sends(c, RequestType::Del, Some(ws[1]), None),
        lowercase(ws[0]) == "ping"@ && ws.len() == 1 ==> sends(c, RequestType::Ping, None, None),
        lowercase(ws[0]) == "ping"@ && ws.len() == 2 ==> sends(c, RequestType::Ping, None, Some(ws[1])),
        lowercase(ws[0]) == "quit"@ ==> c is Quit,
{
    lemma_command_names_distinct();
}

} // verus!
