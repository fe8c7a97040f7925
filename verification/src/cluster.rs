use crate::text::{contains_seq, contains_str, same_text};
use std::collections::hash_map::DefaultHasher;
use std::hash::{Hash, Hasher};
use vstd::hash_map::StringHashMap;
use vstd::prelude::*;
use vstd::std_specs::hash::DefaultHasherAdditionalSpecFns;

verus! {

/// A request to an item store node.
#[derive(Clone, Debug)]
pub struct ItemRequest {
    pub op: String,
    pub key: String,
    pub val: String,
}

/// The answer of an item store node.
#[derive(Clone, Debug)]
pub struct ItemResponse {
    pub op: String,
    pub key: String,
    pub val: String,
    pub status: bool,
}

/// What feeding a string into a hasher does to the hasher's record of
/// writes, as `<String as Hash>::hash` does it.
pub uninterp spec fn string_hash_feed(state: Seq<Seq<u8>>, key: Seq<char>) -> Seq<Seq<u8>>;

/// `<String as Hash>::hash`: feeds the string into the hasher. The contract
/// names the hasher's new record of writes as a function of the old record
/// and the characters of `key`; the exact bytes written are not stated.
#[verifier::external_body]
fn hash_string(key: &String, state: &mut DefaultHasher)
    ensures
        final(state)@ == string_hash_feed(old(state)@, key@),
{
    key.hash(state)
}

/// The hash of `key` under a fresh `DefaultHasher`.
pub open spec fn key_hash(key: Seq<char>) -> u64 {
    DefaultHasher::spec_finish(string_hash_feed(Seq::empty(), key))
}

/// The shard that `key` belongs to among `n` shards.
pub open spec fn shard_of(key: Seq<char>, n: int) -> int {
    ((key_hash(key) as usize) as int) % n
}

/// An item store node: a table, and its place in a replicated or sharded
/// deployment. A node with a master is a replica (slave); a node with a
/// cluster is a proxy that routes each key to one member; a node with
/// neither is a master that forwards its writes to its slaves.
pub struct S {
    pub kv: StringHashMap<String>,
    pub file_name: String,
    pub port: String,
    pub master: Option<String>,
    pub slaves: Vec<String>,
    pub cluster: Vec<String>,
}

impl S {
    /// The table, as characters.
    pub open spec fn table(&self) -> Map<Seq<char>, Seq<char>> {
        self.kv@.map_values(|v: String| v@)
    }

    /// The node accepts writes and forwards them to its slaves.
    pub open spec fn master_role(&self) -> bool {
        self.master is None && self.cluster@.len() == 0
    }

    /// The node routes requests to the members of its cluster.
    pub open spec fn proxy_role(&self) -> bool {
        self.cluster@.len() > 0
    }

    /// The member of the cluster that `key` is routed to.
    pub open spec fn route(&self, key: Seq<char>) -> Seq<char> {
        self.cluster@[shard_of(key, self.cluster@.len() as int)]@
    }

    /// A node with an empty table and no peers that logs to `fname`.
    pub fn new(fname: String) -> (s: Self)
        ensures
            s.table() == Map::<Seq<char>, Seq<char>>::empty(),
            s.file_name@ == fname@,
            s.port@ == Seq::<char>::empty(),
            s.master is None,
            s.slaves@.len() == 0,
            s.cluster@.len() == 0,
    {
        let s = S {
            kv: StringHashMap::new(),
            file_name: fname,
            port: String::new(),
            master: None,
            slaves: Vec::new(),
            cluster: Vec::new(),
        };
        assert(s.table() =~= Map::<Seq<char>, Seq<char>>::empty());
        s
    }

    /// Appends `port_` to the node's port.
    pub fn set_port(&mut self, port_: &str)
        ensures
            final(self).port@ == old(self).port@ + port_@,
            final(self).table() == old(self).table(),
            final(self).file_name == old(self).file_name,
            final(self).master == old(self).master,
            final(self).slaves == old(self).slaves,
            final(self).cluster == old(self).cluster,
    {
        self.port.append(port_);
    }

    /// Makes the node a replica of `master_`.
    pub fn set_master(&mut self, master_: String)
        ensures
            final(self).master == Some(master_),
            final(self).table() == old(self).table(),
            final(self).file_name == old(self).file_name,
            final(self).port == old(self).port,
            final(self).slaves == old(self).slaves,
            final(self).cluster == old(self).cluster,
    {
        self.master = Some(master_);
    }

    /// Adds a slave that receives the node's writes.
    pub fn set_slave(&mut self, slave_: String)
        ensures
            final(self).slaves@ == old(self).slaves@.push(slave_),
            final(self).table() == old(self).table(),
            final(self).file_name == old(self).file_name,
            final(self).port == old(self).port,
            final(self).master == old(self).master,
            final(self).cluster == old(self).cluster,
    {
        self.slaves.push(slave_);
    }

    /// Adds a member to the cluster the node routes to.
    pub fn add_cluster(&mut self, serv: String)
        ensures
            final(self).cluster@ == old(self).cluster@.push(serv),
            final(self).table() == old(self).table(),
            final(self).file_name == old(self).file_name,
            final(self).port == old(self).port,
            final(self).master == old(self).master,
            final(self).slaves == old(self).slaves,
    {
        self.cluster.push(serv);
    }

    /// Whether the node is a master: no master of its own and no cluster.
    pub fn is_master(&self) -> (r: bool)
        ensures
            r == self.master_role(),
    {
        self.master.is_none() && self.cluster.len() == 0
    }

    /// Whether the node is a replica of a master.
    pub fn is_slave(&self) -> (r: bool)
        ensures
            r == (self.master is Some),
    {
        self.master.is_some()
    }

    /// Whether the node routes requests to a cluster.
    pub fn is_proxy(&self) -> (r: bool)
        ensures
            r == self.proxy_role(),
    {
        self.cluster.len() != 0
    }

    /// The cluster member that holds `key`: the one at the key's hash modulo
    /// the size of the cluster.
    pub fn distr_port(&self, key: String) -> (r: String)
        requires
            self.proxy_role(),
        ensures
            r@ == self.route(key@),
    {
        let mut s = DefaultHasher::new();
        hash_string(&key, &mut s);
        let num = s.finish();
        let cluster_size = self.cluster.len();
        let ind = (num as usize) % cluster_size;
        self.cluster[ind].clone()
    }
}

} // verus!

verus! {

/// A request to send to another node, whose answer is not used.
pub struct Forward {
    pub port: String,
    pub request: ItemRequest,
}

/// How the answer of the node a proxy routes to enters the proxy's answer.
#[derive(Clone, Copy, Debug, PartialEq, Eq, Structural)]
pub enum Merge {
    /// The proxy answers on its own.
    Ignore,
    /// A successful answer gives the value; an unsuccessful one clears the
    /// status.
    TakeValue,
    /// The answer gives the status.
    TakeStatus,
}

/// A request that a proxy routes to a cluster member.
pub struct Relay {
    pub port: String,
    pub request: ItemRequest,
    pub merge: Merge,
}

/// What a node does for one request: its answer (to be completed with the
/// relayed answer, if any), the writes it forwards to its slaves, the line
/// it appends to its log, and the request it relays as a proxy. They are
/// carried out in that order.
pub struct Plan {
    pub response: ItemResponse,
    pub replicate: Vec<Forward>,
    pub log_line: Option<String>,
    pub relay: Option<Relay>,
}

/// The operations [`S::handle`] serves.
pub open spec fn handled_op(op: Seq<char>) -> bool {
    ||| op == "set"@
    ||| op == "mset"@
    ||| op == "get"@
    ||| op == "del"@
    ||| op == "mdel"@
    ||| op == "ping"@
}

/// The line a node appends to its log for a write: the operation, the key
/// and the value, separated by tabs and ended by a newline.
pub open spec fn log_line_of(op: Seq<char>, key: Seq<char>, val: Seq<char>) -> Seq<char> {
    op + "\t"@ + key + "\t"@ + val + "\n"@
}

/// The table of node `s` after it serves `op` on `key` and `val`: a master
/// stores on `set` and removes on `del`; a slave does so on `mset` and
/// `mdel` from its master.
pub open spec fn table_after(s: S, op: Seq<char>, key: Seq<char>, val: Seq<char>) -> Map<
    Seq<char>,
    Seq<char>,
> {
    if op == "set"@ && s.master_role() {
        s.table().insert(key, val)
    } else if op == "mset"@ {
        s.table().insert(key, val)
    } else if op == "del"@ && s.master_role() {
        s.table().remove(key)
    } else if op == "mdel"@ {
        s.table().remove(key)
    } else {
        s.table()
    }
}

/// The status of the answer of node `s` to `op` on `key`, before any relayed
/// answer is merged in.
pub open spec fn status_of(s: S, op: Seq<char>, key: Seq<char>) -> bool {
    if op == "set"@ {
        s.master_role() || s.proxy_role()
    } else if op == "get"@ {
        !s.proxy_role() && s.table().contains_key(key)
    } else if op == "del"@ {
        s.master_role() && s.table().contains_key(key)
    } else {
        true
    }
}

/// The value in the answer of node `s` to `op` on `key`, before any relayed
/// answer is merged in: the stored value for a local `get` that finds the
/// key, a single space otherwise.
pub open spec fn value_of(s: S, op: Seq<char>, key: Seq<char>) -> Seq<char> {
    if op == "get"@ && !s.proxy_role() && s.table().contains_key(key) {
        s.table()[key]
    } else {
        " "@
    }
}

/// Whether node `s` forwards `op` on `key` to its slaves and logs it: a
/// master does so for every `set` and for a `del` of a present key.
pub open spec fn replicates(s: S, op: Seq<char>, key: Seq<char>) -> bool {
    ||| op == "set"@ && s.master_role()
    ||| op == "del"@ && s.master_role() && s.table().contains_key(key)
}

/// The operation a master sends its slaves for `op`.
pub open spec fn replica_op(op: Seq<char>) -> Seq<char> {
    if op == "set"@ {
        "mset"@
    } else {
        "mdel"@
    }
}

/// Whether node `s` relays `op` to a cluster member: a proxy relays `set`,
/// `get` and `del`.
pub open spec fn relays(s: S, op: Seq<char>) -> bool {
    s.proxy_role() && (op == "set"@ || op == "get"@ || op == "del"@)
}

/// How the relayed answer to `op` is merged.
pub open spec fn merge_of(op: Seq<char>) -> Merge {
    if op == "get"@ {
        Merge::TakeValue
    } else if op == "del"@ {
        Merge::TakeStatus
    } else {
        Merge::Ignore
    }
}

/// `a` holds the given operation, key and value.
pub open spec fn request_is(a: ItemRequest, op: Seq<char>, key: Seq<char>, val: Seq<char>) -> bool {
    a.op@ == op && a.key@ == key && a.val@ == val
}

/// `p` is what node `s` plans for `req`.
pub open spec fn plan_for(s: S, req: ItemRequest, p: Plan) -> bool {
    let (op, k, v) = (req.op@, req.key@, req.val@);
    &&& p.response.op@ == op
    &&& p.response.key@ == " "@
    &&& p.response.val@ == value_of(s, op, k)
    &&& p.response.status == status_of(s, op, k)
    &&& p.replicate@.len() == (if replicates(s, op, k) {
        s.slaves@.len()
    } else {
        0
    })
    &&& forall|i: int|
        0 <= i < p.replicate@.len() ==> {
            &&& (#[trigger] p.replicate@[i]).port@ == s.slaves@[i]@
            &&& request_is(p.replicate@[i].request, replica_op(op), k, v)
        }
    &&& if replicates(s, op, k) {
        p.log_line matches Some(l) && l@ == log_line_of(op, k, v)
    } else {
        p.log_line is None
    }
    &&& if relays(s, op) {
        &&& p.relay is Some
        &&& p.relay->0.port@ == s.route(k)
        &&& request_is(p.relay->0.request, op, k, v)
        &&& p.relay->0.merge == merge_of(op)
    } else {
        p.relay is None
    }
}

/// `s2` is `s1` with a possibly different table.
pub open spec fn same_peers(s1: S, s2: S) -> bool {
    &&& s1.file_name == s2.file_name
    &&& s1.port == s2.port
    &&& s1.master == s2.master
    &&& s1.slaves == s2.slaves
    &&& s1.cluster == s2.cluster
}

/// The names of the operations are pairwise different.
proof fn lemma_ops_distinct()
    ensures
        "set"@ != "mset"@,
        "set"@ != "get"@,
        "set"@ != "del"@,
        "set"@ != "mdel"@,
        "set"@ != "ping"@,
        "mset"@ != "get"@,
        "mset"@ != "del"@,
        "mset"@ != "mdel"@,
        "mset"@ != "ping"@,
        "get"@ != "del"@,
        "get"@ != "mdel"@,
        "get"@ != "ping"@,
        "del"@ != "mdel"@,
        "del"@ != "ping"@,
        "mdel"@ != "ping"@,
{
    reveal_strlit("set");
    reveal_strlit("mset");
    reveal_strlit("get");
    reveal_strlit("del");
    reveal_strlit("mdel");
    reveal_strlit("ping");
    assert("set"@[0] != "mset"@[0]);
    assert("set"@[0] != "get"@[0]);
    assert("set"@[0] != "del"@[0]);
    assert("set"@[0] != "mdel"@[0]);
    assert("set"@[0] != "ping"@[0]);
    assert("mset"@[0] != "get"@[0]);
    assert("mset"@[0] != "del"@[0]);
    assert("mset"@[1] != "mdel"@[1]);
    assert("mset"@[0] != "ping"@[0]);
    assert("get"@[0] != "del"@[0]);
    assert("get"@[0] != "mdel"@[0]);
    assert("get"@[0] != "ping"@[0]);
    assert("del"@[0] != "mdel"@[0]);
    assert("del"@[0] != "ping"@[0]);
    assert("mdel"@[0] != "ping"@[0]);
}

fn text(s: &str) -> (r: String)
    ensures
        r@ == s@,
{
    String::from_str(s)
}

fn copy_request(op: &str, req: &ItemRequest) -> (r: ItemRequest)
    ensures
        request_is(r, op@, req.key@, req.val@),
{
    ItemRequest { op: text(op), key: req.key.clone(), val: req.val.clone() }
}

/// The log line for `req`.
fn log_line(req: &ItemRequest) -> (r: String)
    ensures
        r@ == log_line_of(req.op@, req.key@, req.val@),
{
    let mut l = req.op.clone();
    l.append("\t");
    l.append(req.key.as_str());
    l.append("\t");
    l.append(req.val.as_str());
    l.append("\n");
    l
}

impl S {
    fn forwards(&self, op: &str, req: &ItemRequest) -> (r: Vec<Forward>)
        ensures
            r@.len() == self.slaves@.len(),
            forall|i: int|
                0 <= i < r@.len() ==> {
                    &&& (#[trigger] r@[i]).port@ == self.slaves@[i]@
                    &&& request_is(r@[i].request, op@, req.key@, req.val@)
                },
    {
        let mut out: Vec<Forward> = Vec::new();
        let mut i: usize = 0;
        while i < self.slaves.len()
            invariant
                i <= self.slaves.len(),
                out@.len() == i,
                forall|j: int|
                    0 <= j < i ==> {
                        &&& (#[trigger] out@[j]).port@ == self.slaves@[j]@
                        &&& request_is(out@[j].request, op@, req.key@, req.val@)
                    },
            decreases self.slaves.len() - i,
        {
            out.push(Forward { port: self.slaves[i].clone(), request: copy_request(op, req) });
            i = i + 1;
        }
        out
    }

    fn blank_response(req: &ItemRequest) -> (r: ItemResponse)
        ensures
            r.op@ == req.op@,
            r.key@ == " "@,
            r.val@ == " "@,
            !r.status,
    {
        ItemResponse { op: req.op.clone(), key: text(" "), val: text(" "), status: false }
    }

    fn handle_set(&mut self, req: &ItemRequest) -> (p: Plan)
        requires
            req.op@ == "set"@,
        ensures
            final(self).table() == table_after(*old(self), req.op@, req.key@, req.val@),
            same_peers(*old(self), *final(self)),
            plan_for(*old(self), *req, p),
    {
        proof {
            lemma_ops_distinct();
        }
        let mut response = Self::blank_response(req);
        let mut replicate: Vec<Forward> = Vec::new();
        let mut log: Option<String> = None;
        let mut relay: Option<Relay> = None;
        if self.is_master() {
            self.kv.insert(req.key.clone(), req.val.clone());
            assert(self.table() =~= old(self).table().insert(req.key@, req.val@));
            response.status = true;
            replicate = self.forwards("mset", req);
            log = Some(log_line(req));
        }
        if self.is_proxy() {
            response.status = true;
            relay = Some(
                Relay {
                    port: self.distr_port(req.key.clone()),
                    request: copy_request("set", req),
                    merge: Merge::Ignore,
                },
            );
        }
        Plan { response, replicate, log_line: log, relay }
    }

    fn handle_get(&mut self, req: &ItemRequest) -> (p: Plan)
        requires
            req.op@ == "get"@,
        ensures
            final(self).table() == table_after(*old(self), req.op@, req.key@, req.val@),
            same_peers(*old(self), *final(self)),
            plan_for(*old(self), *req, p),
    {
        proof {
            lemma_ops_distinct();
        }
        let mut response = Self::blank_response(req);
        let mut relay: Option<Relay> = None;
        if self.is_proxy() {
            relay = Some(
                Relay {
                    port: self.distr_port(req.key.clone()),
                    request: copy_request("get", req),
                    merge: Merge::TakeValue,
                },
            );
        } else {
            match self.kv.get(req.key.as_str()) {
                Some(t) => {
                    response.val = t.clone();
                    response.status = true;
                },
                None => {},
            }
        }
        Plan { response, replicate: Vec::new(), log_line: None, relay }
    }

    fn handle_del(&mut self, req: &ItemRequest) -> (p: Plan)
        requires
            req.op@ == "del"@,
        ensures
            final(self).table() == table_after(*old(self), req.op@, req.key@, req.val@),
            same_peers(*old(self), *final(self)),
            plan_for(*old(self), *req, p),
    {
        proof {
            lemma_ops_distinct();
        }
        let mut response = Self::blank_response(req);
        let mut replicate: Vec<Forward> = Vec::new();
        let mut log: Option<String> = None;
        let mut relay: Option<Relay> = None;
        if self.is_master() {
            let present = self.kv.contains_key(req.key.as_str());
            self.kv.remove(req.key.as_str());
            assert(self.table() =~= old(self).table().remove(req.key@));
            if present {
                response.status = true;
                replicate = self.forwards("mdel", req);
                log = Some(log_line(req));
            }
        }
        if self.is_proxy() {
            relay = Some(
                Relay {
                    port: self.distr_port(req.key.clone()),
                    request: copy_request("del", req),
                    merge: Merge::TakeStatus,
                },
            );
        }
        Plan { response, replicate, log_line: log, relay }
    }

    fn handle_replica(&mut self, req: &ItemRequest) -> (p: Plan)
        requires
            req.op@ == "mset"@ || req.op@ == "mdel"@ || req.op@ == "ping"@,
        ensures
            final(self).table() == table_after(*old(self), req.op@, req.key@, req.val@),
            same_peers(*old(self), *final(self)),
            plan_for(*old(self), *req, p),
    {
        proof {
            lemma_ops_distinct();
        }
        let mut response = Self::blank_response(req);
        if same_text(req.op.as_str(), "mset") {
            self.kv.insert(req.key.clone(), req.val.clone());
            assert(self.table() =~= old(self).table().insert(req.key@, req.val@));
        } else if same_text(req.op.as_str(), "mdel") {
            self.kv.remove(req.key.as_str());
            assert(self.table() =~= old(self).table().remove(req.key@));
        }
        response.status = true;
        Plan { response, replicate: Vec::new(), log_line: None, relay: None }
    }

    /// Serves `set`, `mset`, `get`, `del`, `mdel` and `ping`: updates the
    /// table and plans the answer and the messages to other nodes.
    pub fn handle(&mut self, req: &ItemRequest) -> (p: Plan)
        requires
            handled_op(req.op@),
        ensures
            final(self).table() == table_after(*old(self), req.op@, req.key@, req.val@),
            same_peers(*old(self), *final(self)),
            plan_for(*old(self), *req, p),
    {
        if same_text(req.op.as_str(), "set") {
            self.handle_set(req)
        } else if same_text(req.op.as_str(), "get") {
            self.handle_get(req)
        } else if same_text(req.op.as_str(), "del") {
            self.handle_del(req)
        } else {
            self.handle_replica(req)
        }
    }
}

} // verus!

verus! {

/// The answer a proxy gives after merging the answer `reply` of the member
/// it relayed to (`None` when the member could not be reached).
pub open spec fn merged(resp: ItemResponse, merge: Merge, reply: Option<ItemResponse>) -> ItemResponse {
    match (merge, reply) {
        (Merge::TakeValue, Some(info)) => if info.status {
            ItemResponse { val: info.val, status: true, ..resp }
        } else {
            ItemResponse { status: false, ..resp }
        },
        (Merge::TakeStatus, Some(info)) => ItemResponse { status: info.status, ..resp },
        _ => resp,
    }
}

/// Completes a proxy's answer with the answer of the member it relayed to.
pub fn finish(resp: ItemResponse, merge: Merge, reply: Option<ItemResponse>) -> (r: ItemResponse)
    ensures
        r == merged(resp, merge, reply),
{
    let mut resp = resp;
    match (merge, reply) {
        (Merge::TakeValue, Some(info)) => {
            if info.status {
                resp.val = info.val;
                resp.status = true;
            } else {
                resp.status = false;
            }
        },
        (Merge::TakeStatus, Some(info)) => {
            resp.status = info.status;
        },
        _ => {},
    }
    resp
}

/// The decimal digit character for `d`.
pub open spec fn digit_char(d: nat) -> char {
    (('0' as u32) + d) as char
}

/// The decimal notation of `n`, without leading zeros.
pub open spec fn decimal(n: nat) -> Seq<char>
    decreases n,
{
    if n < 10 {
        seq![digit_char(n)]
    } else {
        decimal(n / 10) + seq![digit_char(n % 10)]
    }
}

fn digit_text(d: u8) -> (r: &'static str)
    requires
        d < 10,
    ensures
        r@ == seq![digit_char(d as nat)],
{
    match d {
        0 => {
            proof {
                reveal_strlit("0");
            }
            "0"
        },
        1 => {
            proof {
                reveal_strlit("1");
            }
            "1"
        },
        2 => {
            proof {
                reveal_strlit("2");
            }
            "2"
        },
        3 => {
            proof {
                reveal_strlit("3");
            }
            "3"
        },
        4 => {
            proof {
                reveal_strlit("4");
            }
            "4"
        },
        5 => {
            proof {
                reveal_strlit("5");
            }
            "5"
        },
        6 => {
            proof {
                reveal_strlit("6");
            }
            "6"
        },
        7 => {
            proof {
                reveal_strlit("7");
            }
            "7"
        },
        8 => {
            proof {
                reveal_strlit("8");
            }
            "8"
        },
        _ => {
            proof {
                reveal_strlit("9");
            }
            "9"
        },
    }
}

/// The decimal notation of a byte.
pub fn byte_decimal(n: u8) -> (r: String)
    ensures
        r@ == decimal(n as nat),
{
    let mut r = String::new();
    if n >= 100 {
        r.append(digit_text(n / 100));
        r.append(digit_text((n / 10) % 10));
        r.append(digit_text(n % 10));
        proof {
            let m = n as nat;
            assert(decimal(m / 100) == seq![digit_char(m / 100)]);
            assert((m / 10) / 10 == m / 100);
            assert(decimal(m / 10) == decimal(m / 100) + seq![digit_char((m / 10) % 10)]);
            assert(decimal(m) == decimal(m / 10) + seq![digit_char(m % 10)]);
            assert(r@ =~= decimal(m));
        }
    } else if n >= 10 {
        r.append(digit_text(n / 10));
        r.append(digit_text(n % 10));
        proof {
            let m = n as nat;
            assert(decimal(m / 10) == seq![digit_char(m / 10)]);
            assert(decimal(m) == decimal(m / 10) + seq![digit_char(m % 10)]);
            assert(r@ =~= decimal(m));
        }
    } else {
        r.append(digit_text(n));
        assert(r@ =~= decimal(n as nat));
    }
    r
}

/// The answer to a `subscribe` on the channel `req.key`, given the first
/// message published there (`None` when the channel closed), and the line
/// to log: a received message is the value, and the request is logged.
pub fn subscribed(req: &ItemRequest, message: Option<String>) -> (r: (ItemResponse, Option<String>))
    ensures
        r.0.op@ == "subscribe"@,
        r.0.key@ == " "@,
        r.0.status == (message is Some),
        r.0.val@ == (match message {
            Some(m) => m@,
            None => " "@,
        }),
        r.1 is Some == message is Some,
        r.1 matches Some(l) ==> l@ == log_line_of(req.op@, req.key@, req.val@),
{
    let mut resp = ItemResponse {
        op: text("subscribe"),
        key: text(" "),
        val: text(" "),
        status: false,
    };
    match message {
        Some(m) => {
            resp.val = m;
            resp.status = true;
            (resp, Some(log_line(req)))
        },
        None => (resp, None),
    }
}

} // verus!

verus! {

/// The answer to a `publish` of `req.val` on the channel `req.key`, given
/// how many subscribers received it (`None` when the channel does not exist
/// or nobody listens), and the line to log: a delivered message is answered
/// with the number of receivers, taken modulo 256, and the request is
/// logged.
pub fn published(req: &ItemRequest, receivers: Option<usize>) -> (r: (ItemResponse, Option<String>))
    ensures
        r.0.op@ == "publish"@,
        r.0.key@ == " "@,
        r.0.status == (receivers is Some),
        r.0.val@ == (match receivers {
            Some(n) => decimal((n % 256) as nat),
            None => " "@,
        }),
        r.1 is Some == receivers is Some,
        r.1 matches Some(l) ==> l@ == log_line_of(req.op@, req.key@, req.val@),
{
    let mut resp = ItemResponse {
        op: text("publish"),
        key: text(" "),
        val: text(" "),
        status: false,
    };
    match receivers {
        Some(n) => {
            resp.status = true;
            resp.val = byte_decimal((n % 256) as u8);
            (resp, Some(log_line(req)))
        },
        None => (resp, None),
    }
}

/// Whether a node serves the operation `op` at all.
pub open spec fn known_op(op: Seq<char>) -> bool {
    handled_op(op) || op == "subscribe"@ || op == "publish"@
}

/// Whether a node serves the operation `op` at all; any other operation is
/// a fault of the caller.
pub fn is_known_op(op: &str) -> (r: bool)
    ensures
        r == known_op(op@),
{
    same_text(op, "set") || same_text(op, "mset") || same_text(op, "get") || same_text(op, "del")
        || same_text(op, "mdel") || same_text(op, "ping") || same_text(op, "subscribe")
        || same_text(op, "publish")
}

/// The position of the first tab in `s`, or its length if it has none.
pub open spec fn tab_index(s: Seq<char>) -> nat
    decreases s.len(),
{
    if s.len() == 0 || s[0] == '\t' {
        0
    } else {
        1 + tab_index(s.drop_first())
    }
}

/// `s` after its first tab.
pub open spec fn after_tab(s: Seq<char>) -> Seq<char> {
    s.skip(tab_index(s) + 1int)
}

/// `s` up to its first tab.
pub open spec fn before_tab(s: Seq<char>) -> Seq<char> {
    s.take(tab_index(s) as int)
}

/// `s` has at least two tabs: three tab-separated fields.
pub open spec fn has_fields(s: Seq<char>) -> bool {
    &&& tab_index(s) < s.len()
    &&& tab_index(after_tab(s)) < after_tab(s).len()
}

/// The table after replaying the log line `line`, whose first three
/// tab-separated fields are an operation, a key and a value: `set` stores
/// the value, `del` removes the key, anything else changes nothing.
pub open spec fn replayed(t: Map<Seq<char>, Seq<char>>, line: Seq<char>) -> Map<
    Seq<char>,
    Seq<char>,
> {
    let op = before_tab(line);
    let key = before_tab(after_tab(line));
    let val = before_tab(after_tab(after_tab(line)));
    if op == "set"@ {
        t.insert(key, val)
    } else if op == "del"@ {
        t.remove(key)
    } else {
        t
    }
}

proof fn lemma_tab_index_bound(s: Seq<char>)
    ensures
        tab_index(s) <= s.len(),
        tab_index(s) < s.len() ==> s[tab_index(s) as int] == '\t',
        forall|j: int| 0 <= j < tab_index(s) ==> s[j] != '\t',
    decreases s.len(),
{
    if s.len() > 0 && s[0] != '\t' {
        lemma_tab_index_bound(s.drop_first());
        assert forall|j: int| 0 <= j < tab_index(s) implies s[j] != '\t' by {
            if j > 0 {
                assert(s[j] == s.drop_first()[j - 1]);
            }
        }
    }
}

proof fn lemma_tab_index_skip(s: Seq<char>, i: int)
    requires
        0 <= i <= s.len(),
        forall|j: int| 0 <= j < i ==> s[j] != '\t',
    ensures
        tab_index(s) == i + tab_index(s.skip(i)),
    decreases i,
{
    if i > 0 {
        assert(s[0] != '\t');
        assert(s.drop_first().skip(i - 1) =~= s.skip(i));
        lemma_tab_index_skip(s.drop_first(), i - 1);
    } else {
        assert(s.skip(0) =~= s);
    }
}

/// The position of the first tab at or after `from` in `s`, or its length.
fn next_tab(s: &Vec<char>, from: usize) -> (r: usize)
    requires
        from <= s.len(),
    ensures
        r == from + tab_index(s@.skip(from as int)),
{
    let mut i = from;
    while i < s.len() && s[i] != '\t'
        invariant
            from <= i <= s.len(),
            forall|j: int| from <= j < i ==> s@[j] != '\t',
        decreases s.len() - i,
    {
        i = i + 1;
    }
    proof {
        let t = s@.skip(from as int);
        assert forall|j: int| 0 <= j < i - from implies t[j] != '\t' by {
            assert(t[j] == s@[from + j]);
        }
        lemma_tab_index_skip(t, i - from);
        assert(t.skip(i - from) =~= s@.skip(i as int));
        if i < s.len() {
            assert(s@.skip(i as int)[0] == '\t');
        }
    }
    i
}

/// Whether the log line `line` has the three fields a replay reads.
pub fn has_log_fields(line: &str) -> (r: bool)
    ensures
        r == has_fields(line@),
{
    let s = crate::text::chars_of(line);
    let a = next_tab(&s, 0);
    proof {
        assert(s@.skip(0) =~= s@);
        lemma_tab_index_bound(line@);
    }
    if a >= s.len() {
        return false;
    }
    let b = next_tab(&s, a + 1);
    proof {
        lemma_tab_index_bound(after_tab(line@));
    }
    b < s.len()
}

impl S {
    /// Replays one line of the node's log onto its table.
    pub fn replay_line(&mut self, line: &str)
        requires
            has_fields(line@),
        ensures
            final(self).table() == replayed(old(self).table(), line@),
            same_peers(*old(self), *final(self)),
    {
        let s = crate::text::chars_of(line);
        let a = next_tab(&s, 0);
        proof {
            assert(s@.skip(0) =~= s@);
            lemma_tab_index_bound(line@);
            lemma_tab_index_bound(after_tab(line@));
        }
        let b = next_tab(&s, a + 1);
        let c = next_tab(&s, b + 1);
        proof {
            let l = line@;
            let r1 = after_tab(l);
            let r2 = after_tab(r1);
            assert(r1 =~= l.skip(a + 1));
            assert(r2 =~= l.skip(b + 1));
            lemma_tab_index_bound(r2);
            assert(before_tab(l) =~= l.subrange(0, a as int));
            assert(before_tab(r1) =~= l.subrange(a + 1, b as int));
            assert(before_tab(r2) =~= l.subrange(b + 1, c as int));
        }
        let operator = line.substring_char(0, a);
        let operand1 = String::from_str(line.substring_char(a + 1, b));
        let operand2 = String::from_str(line.substring_char(b + 1, c));
        if same_text(operator, "set") {
            let ghost k = operand1@;
            let ghost v = operand2@;
            self.kv.insert(operand1, operand2);
            assert(self.table() =~= old(self).table().insert(k, v));
        } else if same_text(operator, "del") {
            self.kv.remove(operand1.as_str());
            assert(self.table() =~= old(self).table().remove(operand1@));
        }
    }
}

/// The guard in front of an item store node: it refuses every request whose
/// printed form holds one of three blocked words.
pub struct FilterLayer;

/// The words a [`FilterLayer`] blocks.
pub open spec fn blocked_words() -> Seq<Seq<char>> {
    seq!["\u{539f}\u{795e}"@, "\u{50bb}\u{903c}"@, "\u{64cd}\u{4f60}\u{5988}"@]
}

impl FilterLayer {
    /// Whether the request printed as `request_text` is refused.
    pub fn blocks(&self, request_text: &str) -> (r: bool)
        ensures
            r == exists|i: int| 0 <= i < 3 && contains_seq(request_text@, blocked_words()[i]),
    {
        let a = contains_str(request_text, "\u{539f}\u{795e}");
        let b = contains_str(request_text, "\u{50bb}\u{903c}");
        let c = contains_str(request_text, "\u{64cd}\u{4f60}\u{5988}");
        assert(a ==> contains_seq(request_text@, blocked_words()[0]));
        assert(b ==> contains_seq(request_text@, blocked_words()[1]));
        assert(c ==> contains_seq(request_text@, blocked_words()[2]));
        a || b || c
    }

    /// The answer to the request printed as `request_text`: a refusal that
    /// tells the sender to mind their language when the guard refuses it,
    /// `None` when the request goes on to the node.
    pub fn refusal(&self, request_text: &str) -> (r: Option<String>)
        ensures
            r is Some == exists|i: int| 0 <= i < 3 && contains_seq(request_text@, blocked_words()[i]),
            r matches Some(m) ==> m@ == refusal_message(),
    {
        if self.blocks(request_text) {
            Some(String::from_str("\u{4f60}\u{600e}\u{4e48}\u{9a82}\u{4eba}\u{5462}\u{ff1f}\u{7ed9}\u{6211}\u{5237}\u{4e86}\u{7259}\u{518d}\u{6765}"))
        } else {
            None
        }
    }
}

/// The message a [`FilterLayer`] answers a refused request with.
pub open spec fn refusal_message() -> Seq<char> {
    "\u{4f60}\u{600e}\u{4e48}\u{9a82}\u{4eba}\u{5462}\u{ff1f}\u{7ed9}\u{6211}\u{5237}\u{4e86}\u{7259}\u{518d}\u{6765}"@
}

} // verus!

verus! {

/// A slave that held the same table as its master still does after
/// applying what the master forwards for a `set` or `del`.
pub proof fn law_replicas_agree(m: S, r: S, op: Seq<char>, key: Seq<char>, val: Seq<char>)
    requires
        m.master_role(),
        r.table() == m.table(),
        op == "set"@ || op == "del"@,
    ensures
        table_after(r, replica_op(op), key, val) == table_after(m, op, key, val),
{
    lemma_ops_distinct();
}

proof fn lemma_tab_index_concat(a: Seq<char>, b: Seq<char>)
    requires
        forall|j: int| 0 <= j < a.len() ==> a[j] != '\t',
    ensures
        tab_index(a + b) == a.len() + tab_index(b),
{
    lemma_tab_index_skip(a + b, a.len() as int);
    assert((a + b).skip(a.len() as int) =~= b);
}

/// Text without tabs.
pub open spec fn tab_free(s: Seq<char>) -> bool {
    forall|j: int| 0 <= j < s.len() ==> s[j] != '\t'
}

/// The table of a master after it serves `op` on `key` and `val`, given
/// its table `t`.
pub open spec fn master_step(t: Map<Seq<char>, Seq<char>>, op: Seq<char>, key: Seq<char>, val: Seq<char>) -> Map<
    Seq<char>,
    Seq<char>,
> {
    if op == "set"@ {
        t.insert(key, val)
    } else if op == "del"@ {
        t.remove(key)
    } else {
        t
    }
}

proof fn lemma_replay_one(t: Map<Seq<char>, Seq<char>>, op: Seq<char>, key: Seq<char>, val: Seq<char>)
    requires
        op == "set"@ || op == "del"@,
        tab_free(key),
        tab_free(val),
    ensures
        replayed(t, log_line_of(op, key, val).drop_last()) == master_step(t, op, key, val),
{
    lemma_ops_distinct();
    reveal_strlit("set");
    reveal_strlit("del");
    reveal_strlit("\t");
    reveal_strlit("\n");
    let tab = "\t"@;
    let line = log_line_of(op, key, val).drop_last();
    assert(line =~= op + (tab + (key + (tab + val))));
    let r1 = tab + (key + (tab + val));
    let r2 = tab + val;
    lemma_tab_index_concat(op, r1);
    lemma_tab_index_concat(Seq::<char>::empty(), r1);
    assert(tab_index(r1) == 0);
    assert(before_tab(line) =~= op);
    assert(after_tab(line) =~= key + r2);
    lemma_tab_index_concat(key, r2);
    assert(tab_index(r2) == 0);
    assert(before_tab(after_tab(line)) =~= key);
    assert(after_tab(after_tab(line)) =~= val);
    lemma_tab_index_concat(val, Seq::<char>::empty());
    assert(val + Seq::<char>::empty() =~= val);
    assert(before_tab(after_tab(after_tab(line))) =~= val);
}

/// Replaying the log restores the table: the line a master logs for a `set`
/// or `del` (read back without its newline) has the same effect on a table
/// as the request had on the master's, for keys and values without tabs.
pub proof fn law_log_replay(m: S, op: Seq<char>, key: Seq<char>, val: Seq<char>)
    requires
        m.master_role(),
        op == "set"@ || op == "del"@,
        tab_free(key),
        tab_free(val),
    ensures
        replayed(m.table(), log_line_of(op, key, val).drop_last()) == table_after(m, op, key, val),
{
    lemma_ops_distinct();
    lemma_replay_one(m.table(), op, key, val);
}

/// A proxy routes every key to a member of its cluster.
pub proof fn law_route_in_cluster(s: S, key: Seq<char>)
    requires
        s.proxy_role(),
    ensures
        0 <= shard_of(key, s.cluster@.len() as int) < s.cluster@.len(),
        s.route(key) == s.cluster@[shard_of(key, s.cluster@.len() as int)]@,
{
}

/// On a master, a read gives back the last write: after `set` of a key, a
/// `get` of it succeeds with the value that was set.
pub proof fn law_get_after_set(m: S, after: S, key: Seq<char>, val: Seq<char>)
    requires
        m.master_role(),
        same_peers(m, after),
        after.table() == table_after(m, "set"@, key, val),
    ensures
        status_of(after, "get"@, key),
        value_of(after, "get"@, key) == val,
{
    lemma_ops_distinct();
}

/// A master confirms a `del` exactly when the key was present, and the key
/// is gone afterwards either way.
pub proof fn law_del_removes(m: S, key: Seq<char>, val: Seq<char>)
    requires
        m.master_role(),
    ensures
        status_of(m, "del"@, key) == m.table().contains_key(key),
        !table_after(m, "del"@, key, val).contains_key(key),
{
    lemma_ops_distinct();
}

/// A proxy's own answer to a `set` stands whatever the member answers.
pub proof fn law_merge_ignore(resp: ItemResponse, reply: Option<ItemResponse>)
    ensures
        merged(resp, Merge::Ignore, reply) == resp,
{
}

} // verus!

verus! {

/// The log lines, without their newlines, that a master with table `t`
/// writes when it serves `op` on `key` and `val`: one for a `set`, one for
/// a `del` of a present key, none otherwise.
pub open spec fn master_logs(t: Map<Seq<char>, Seq<char>>, op: Seq<char>, key: Seq<char>, val: Seq<char>) -> Seq<
    Seq<char>,
> {
    if op == "set"@ || (op == "del"@ && t.contains_key(key)) {
        seq![log_line_of(op, key, val).drop_last()]
    } else {
        Seq::empty()
    }
}

/// A master's table and log step are those of [`master_step`] and
/// [`master_logs`].
pub proof fn law_master_step(m: S, op: Seq<char>, key: Seq<char>, val: Seq<char>)
    requires
        m.master_role(),
        op == "set"@ || op == "del"@ || op == "get"@,
    ensures
        table_after(m, op, key, val) == master_step(m.table(), op, key, val),
        replicates(m, op, key) == (master_logs(m.table(), op, key, val).len() == 1),
        !replicates(m, op, key) ==> master_logs(m.table(), op, key, val).len() == 0,
        replicates(m, op, key) ==> master_logs(m.table(), op, key, val)[0] == log_line_of(
            op,
            key,
            val,
        ).drop_last(),
{
    lemma_ops_distinct();
}

/// A request to a master: operation, key and value.
pub type ItemOp = (Seq<char>, Seq<char>, Seq<char>);

/// The table of a master with table `t` after it served `reqs` in order.
pub open spec fn history_table(t: Map<Seq<char>, Seq<char>>, reqs: Seq<ItemOp>) -> Map<
    Seq<char>,
    Seq<char>,
>
    decreases reqs.len(),
{
    if reqs.len() == 0 {
        t
    } else {
        history_table(master_step(t, reqs[0].0, reqs[0].1, reqs[0].2), reqs.drop_first())
    }
}

/// The log lines a master with table `t` writes while it serves `reqs`.
pub open spec fn history_log(t: Map<Seq<char>, Seq<char>>, reqs: Seq<ItemOp>) -> Seq<Seq<char>>
    decreases reqs.len(),
{
    if reqs.len() == 0 {
        Seq::empty()
    } else {
        master_logs(t, reqs[0].0, reqs[0].1, reqs[0].2) + history_log(
            master_step(t, reqs[0].0, reqs[0].1, reqs[0].2),
            reqs.drop_first(),
        )
    }
}

/// The table after replaying `lines` in order onto `t`, as `init` does.
pub open spec fn replay_all(t: Map<Seq<char>, Seq<char>>, lines: Seq<Seq<char>>) -> Map<
    Seq<char>,
    Seq<char>,
>
    decreases lines.len(),
{
    if lines.len() == 0 {
        t
    } else {
        replay_all(replayed(t, lines[0]), lines.drop_first())
    }
}

/// Every request is a `set`, `del` or `get` whose key and value hold no tab.
pub open spec fn loggable(reqs: Seq<ItemOp>) -> bool {
    forall|i: int|
        0 <= i < reqs.len() ==> {
            &&& (#[trigger] reqs[i]).0 == "set"@ || reqs[i].0 == "del"@ || reqs[i].0 == "get"@
            &&& tab_free(reqs[i].1)
            &&& tab_free(reqs[i].2)
        }
}

proof fn lemma_replay_all_concat(t: Map<Seq<char>, Seq<char>>, a: Seq<Seq<char>>, b: Seq<Seq<char>>)
    ensures
        replay_all(t, a + b) == replay_all(replay_all(t, a), b),
    decreases a.len(),
{
    if a.len() == 0 {
        assert(a + b =~= b);
    } else {
        assert((a + b).drop_first() =~= a.drop_first() + b);
        assert((a + b)[0] == a[0]);
        lemma_replay_all_concat(replayed(t, a[0]), a.drop_first(), b);
    }
}

/// Replaying a master's whole log rebuilds its table: starting from the
/// same table, replaying the lines a master wrote while serving any run of
/// `set`, `del` and `get` requests (keys and values without tabs) gives the
/// table the master ended with. In particular a node restarted from the log
/// of a master that started empty holds the master's table.
pub proof fn law_history_replay(t: Map<Seq<char>, Seq<char>>, reqs: Seq<ItemOp>)
    requires
        loggable(reqs),
    ensures
        replay_all(t, history_log(t, reqs)) == history_table(t, reqs),
    decreases reqs.len(),
{
    lemma_ops_distinct();
    if reqs.len() > 0 {
        let (op, k, v) = reqs[0];
        assert(loggable(reqs.drop_first())) by {
            assert forall|i: int| 0 <= i < reqs.drop_first().len() implies {
                &&& (#[trigger] reqs.drop_first()[i]).0 == "set"@ || reqs.drop_first()[i].0
                    == "del"@ || reqs.drop_first()[i].0 == "get"@
                &&& tab_free(reqs.drop_first()[i].1)
                &&& tab_free(reqs.drop_first()[i].2)
            } by {
                assert(reqs.drop_first()[i] == reqs[i + 1]);
            }
        }
        assert(reqs[0] == reqs[0]);
        let t1 = master_step(t, op, k, v);
        law_history_replay(t1, reqs.drop_first());
        let first = master_logs(t, op, k, v);
        lemma_replay_all_concat(t, first, history_log(t1, reqs.drop_first()));
        if op == "set"@ || (op == "del"@ && t.contains_key(k)) {
            lemma_replay_one(t, op, k, v);
            assert(first.drop_first() =~= Seq::<Seq<char>>::empty());
            assert(replay_all(t, first) == replay_all(replayed(t, first[0]), first.drop_first()));
        } else {
            assert(first =~= Seq::<Seq<char>>::empty());
            if op == "del"@ {
                assert(t.remove(k) =~= t);
            }
            assert(t1 == t);
        }
    }
}

} // verus!

verus! {

/// A node's writes touch only their own key: whatever `op` a node serves on
/// `key`, every other key keeps whether it is present and its value; a
/// stored key holds the value written.
pub proof fn law_writes_touch_only_their_key(s: S, op: Seq<char>, key: Seq<char>, val: Seq<char>, other: Seq<char>)
    requires
        other != key,
    ensures
        table_after(s, op, key, val).contains_key(other) == s.table().contains_key(other),
        s.table().contains_key(other) ==> table_after(s, op, key, val)[other] == s.table()[other],
        (op == "mset"@ || (op == "set"@ && s.master_role())) ==> table_after(s, op, key, val)[key] == val,
        (op == "mdel"@ || (op == "del"@ && s.master_role())) ==> !table_after(s, op, key, val).contains_key(key),
{
    lemma_ops_distinct();
}

} // verus!
