//! The strategy engine's shared pieces: the per-request view handed to a
//! strategy, liveness predicates, and the lookup and scan primitives the
//! strategies are specified with.

use vstd::prelude::*;

use crate::algorithm::ip_hash::{spec_client_key, IPHash};
use crate::algorithm::least_latency::LeastLatency;
use crate::algorithm::random::Random;
use crate::algorithm::round_robin::RoundRobin;
use crate::algorithm::url_hash::UriPathHash;
use crate::config::{BackendConfig, Config, ServerStatus};
use crate::text::str_eq;

verus! {

broadcast use vstd::string::group_string_axioms;

/// Selection could not produce a server for a request.
#[derive(Debug, Clone)]
pub struct ServerSelectionError;

impl ServerSelectionError {
    /// The error's description.
    pub fn message(&self) -> (r: String)
        ensures
            r@ == "There was an internal error in choosing an appropriate server for this request."@,
    {
        "There was an internal error in choosing an appropriate server for this request.".to_owned()
    }
}

/// What a strategy may read of one request: the URI's path and host, the
/// connection's remote address, the Host header, and the Cookie headers.
pub struct RequestInfo {
    pub uri_path: String,
    pub uri_host: String,
    pub remote_ip: String,
    pub host_header: String,
    pub cookie_headers: Vec<String>,
}

impl RequestInfo {
    pub fn new(
        uri_path: String,
        uri_host: String,
        remote_ip: String,
        host_header: String,
        cookie_headers: Vec<String>,
    ) -> (r: Self)
        ensures
            r.uri_path == uri_path,
            r.uri_host == uri_host,
            r.remote_ip == remote_ip,
            r.host_header == host_header,
            r.cookie_headers == cookie_headers,
    {
        RequestInfo { uri_path, uri_host, remote_ip, host_header, cookie_headers }
    }
}

/// Whether a backend may receive traffic.
pub open spec fn spec_alive(b: BackendConfig) -> bool {
    b.status == ServerStatus::Alive
}

/// Whether some backend of `s` is alive.
pub open spec fn spec_exists_alive(s: Seq<BackendConfig>) -> bool {
    exists|i: int| 0 <= i < s.len() && spec_alive(s[i])
}

/// The next position after `i` on the ring of `len` positions.
pub open spec fn spec_ring_next(i: int, len: int) -> int {
    if i + 1 == len {
        0
    } else {
        i + 1
    }
}

/// Index of the first alive backend reached from `start`, walking the
/// ring for at most `k` steps.
pub open spec fn spec_scan_alive(s: Seq<BackendConfig>, start: int, k: nat) -> Option<int>
    recommends
        0 <= start < s.len(),
    decreases k,
{
    if k == 0 {
        None
    } else if spec_alive(s[start]) {
        Some(start)
    } else {
        spec_scan_alive(s, spec_ring_next(start, s.len() as int), (k - 1) as nat)
    }
}

/// The position reached after `o` steps from `start` on the ring of
/// `len` positions, for `start` and `o` below `len`.
pub open spec fn spec_ring_at(start: int, o: int, len: int) -> int {
    if start + o < len {
        start + o
    } else {
        start + o - len
    }
}

/// A scan of a whole ring that finds nothing means nothing is alive.
pub proof fn lemma_scan_alive_none(s: Seq<BackendConfig>, start: int, k: nat)
    requires
        0 <= start < s.len(),
        k <= s.len(),
        spec_scan_alive(s, start, k) is None,
    ensures
        forall|o: int| 0 <= o < k ==> !spec_alive(s[#[trigger] spec_ring_at(start, o, s.len() as int)]),
    decreases k,
{
    if k != 0 {
        let len = s.len() as int;
        let next = spec_ring_next(start, len);
        lemma_scan_alive_none(s, next, (k - 1) as nat);
        assert forall|o: int| 0 <= o < k implies !spec_alive(
            s[#[trigger] spec_ring_at(start, o, len)],
        ) by {
            if o > 0 {
                let o2 = o - 1;
                assert(!spec_alive(s[spec_ring_at(next, o2, len)]));
                assert(spec_ring_at(next, o2, len) == spec_ring_at(start, o, len));
            }
        }
    }
}

/// When a scan of the whole ring fails, no backend at all is alive.
pub proof fn lemma_scan_alive_covers(s: Seq<BackendConfig>, start: int)
    requires
        0 <= start < s.len(),
        spec_scan_alive(s, start, s.len() as nat) is None,
    ensures
        !spec_exists_alive(s),
{
    let len = s.len() as int;
    lemma_scan_alive_none(s, start, s.len() as nat);
    assert forall|i: int| 0 <= i < len implies !spec_alive(s[i]) by {
        let o = if i >= start {
            i - start
        } else {
            i + len - start
        };
        assert(0 <= o < len);
        assert(spec_ring_at(start, o, len) == i);
    }
}

/// Finds the first alive backend on the ring, starting at `start`.
///
/// Returns its index; `None` means no backend of the vector is alive.
pub fn scan_alive_from(servers: &Vec<BackendConfig>, start: usize) -> (r: Option<usize>)
    requires
        start < servers@.len(),
    ensures
        r matches Some(i) ==> spec_scan_alive(servers@, start as int, servers@.len() as nat)
            == Some(i as int) && i < servers@.len() && spec_alive(servers@[i as int]),
        r is None ==> spec_scan_alive(servers@, start as int, servers@.len() as nat) is None
            && !spec_exists_alive(servers@),
{
    let len = servers.len();
    let mut k: usize = 0;
    let mut idx = start;
    while k < len
        invariant
            len == servers@.len(),
            k <= len,
            0 <= idx < len,
            spec_scan_alive(servers@, start as int, len as nat) == spec_scan_alive(
                servers@,
                idx as int,
                (len - k) as nat,
            ),
        decreases len - k,
    {
        if servers[idx].status == ServerStatus::Alive {
            return Some(idx);
        }
        idx = if idx + 1 == len {
            0
        } else {
            idx + 1
        };
        k += 1;
    }
    proof {
        lemma_scan_alive_covers(servers@, start as int);
    }
    None
}

/// The value bound to the first pair whose key is `key`.
pub open spec fn spec_assoc(s: Seq<(String, BackendConfig)>, key: Seq<char>) -> Option<
    BackendConfig,
>
    decreases s.len(),
{
    if s.len() == 0 {
        None
    } else if s[0].0@ == key {
        Some(s[0].1)
    } else {
        spec_assoc(s.drop_first(), key)
    }
}

/// The first matching position determines `spec_assoc`.
proof fn lemma_assoc_first(s: Seq<(String, BackendConfig)>, key: Seq<char>, i: int)
    requires
        0 <= i < s.len(),
        s[i].0@ == key,
        forall|j: int| 0 <= j < i ==> s[j].0@ != key,
    ensures
        spec_assoc(s, key) == Some(s[i].1),
    decreases s.len(),
{
    if i > 0 {
        assert forall|j: int| 0 <= j < i - 1 implies s.drop_first()[j].0@ != key by {
            assert(s.drop_first()[j] == s[j + 1]);
        }
        assert(s.drop_first()[i - 1] == s[i]);
        lemma_assoc_first(s.drop_first(), key, i - 1);
    }
}

/// A key carried by no pair is not bound.
proof fn lemma_assoc_absent(s: Seq<(String, BackendConfig)>, key: Seq<char>)
    requires
        forall|j: int| 0 <= j < s.len() ==> s[j].0@ != key,
    ensures
        spec_assoc(s, key) is None,
    decreases s.len(),
{
    if s.len() > 0 {
        assert forall|j: int| 0 <= j < s.drop_first().len() implies s.drop_first()[j].0@ != key by {
            assert(s.drop_first()[j] == s[j + 1]);
        }
        lemma_assoc_absent(s.drop_first(), key);
    }
}

/// Appending a pair changes a lookup only when the key was absent.
pub proof fn lemma_assoc_push(s: Seq<(String, BackendConfig)>, p: (String, BackendConfig), key: Seq<char>)
    ensures
        spec_assoc(s, key) is Some ==> spec_assoc(s.push(p), key) == spec_assoc(s, key),
        spec_assoc(s, key) is None && p.0@ == key ==> spec_assoc(s.push(p), key) == Some(p.1),
        spec_assoc(s, key) is None && p.0@ != key ==> spec_assoc(s.push(p), key) is None,
    decreases s.len(),
{
    if s.len() == 0 {
        assert(s.push(p)[0] == p);
        if p.0@ == key {
        } else {
            assert forall|j: int| 0 <= j < s.push(p).len() implies s.push(p)[j].0@ != key by {}
            lemma_assoc_absent(s.push(p), key);
        }
    } else {
        assert(s.push(p)[0] == s[0]);
        if s[0].0@ == key {
        } else {
            lemma_assoc_push(s.drop_first(), p, key);
            assert(s.push(p).drop_first() =~= s.drop_first().push(p));
        }
    }
}

/// Looks up `key` among the pairs, first match winning, and hands back a
/// copy of the bound backend.
pub fn assoc_get(v: &Vec<(String, BackendConfig)>, key: &str) -> (r: Option<BackendConfig>)
    ensures
        r == spec_assoc(v@, key@),
{
    let n = v.len();
    let mut i: usize = 0;
    while i < n
        invariant
            n == v@.len(),
            i <= n,
            forall|j: int| 0 <= j < i ==> v@[j].0@ != key@,
        decreases n - i,
    {
        if str_eq(v[i].0.as_str(), key) {
            proof {
                lemma_assoc_first(v@, key@, i as int);
            }
            return Some(v[i].1.clone());
        }
        i += 1;
    }
    proof {
        lemma_assoc_absent(v@, key@);
    }
    None
}

/// The same backend, with its liveness flag set to `Alive`.
pub open spec fn spec_copy_alive(b: BackendConfig) -> BackendConfig {
    BackendConfig {
        status: ServerStatus::Alive,
        ..b
    }
}

/// The backends of a configuration, in order, each marked alive.
pub open spec fn spec_alive_copies(s: Seq<(String, BackendConfig)>) -> Seq<BackendConfig> {
    s.map_values(|p: (String, BackendConfig)| spec_copy_alive(p.1))
}

/// Copies `b` with its status set to `Alive`.
pub fn copy_alive(b: &BackendConfig) -> (r: BackendConfig)
    ensures
        r == spec_copy_alive(*b),
{
    BackendConfig {
        ip: b.ip.clone(),
        port: b.port.clone(),
        path: b.path.clone(),
        scheme: b.scheme.clone(),
        status: ServerStatus::Alive,
        num_connections: b.num_connections,
    }
}

/// Appends an alive-marked copy of every configured backend, in
/// configuration order.
pub fn append_alive_copies(dst: &mut Vec<BackendConfig>, backends: &Vec<(String, BackendConfig)>)
    ensures
        final(dst)@ == old(dst)@ + spec_alive_copies(backends@),
{
    let n = backends.len();
    let mut i: usize = 0;
    while i < n
        invariant
            n == backends@.len(),
            i <= n,
            dst@ == old(dst)@ + spec_alive_copies(backends@.subrange(0, i as int)),
        decreases n - i,
    {
        dst.push(copy_alive(&backends[i].1));
        proof {
            assert(backends@.subrange(0, i as int).push(backends@[i as int]) =~= backends@.subrange(
                0,
                i as int + 1,
            ));
            assert(spec_alive_copies(backends@.subrange(0, i as int + 1))
                =~= spec_alive_copies(backends@.subrange(0, i as int)).push(
                spec_copy_alive(backends@[i as int].1),
            ));
            assert(dst@ =~= old(dst)@ + spec_alive_copies(backends@.subrange(0, i as int + 1)));
        }
        i += 1;
    }
    proof {
        assert(backends@.subrange(0, n as int) =~= backends@);
    }
}

/// The alive backends of a registry, in registry order.
pub open spec fn spec_alive_list(s: Seq<BackendConfig>) -> Seq<BackendConfig>
    decreases s.len(),
{
    if s.len() == 0 {
        Seq::empty()
    } else {
        spec_alive_list(s.drop_last()) + (if spec_alive(s.last()) {
            seq![s.last()]
        } else {
            Seq::empty()
        })
    }
}

/// Copies the backends that may receive traffic, in registry order.
pub fn list_alive(servers: &Vec<BackendConfig>) -> (r: Vec<BackendConfig>)
    ensures
        r@ == spec_alive_list(servers@),
{
    let n = servers.len();
    let mut out: Vec<BackendConfig> = Vec::new();
    let mut i: usize = 0;
    while i < n
        invariant
            n == servers@.len(),
            i <= n,
            out@ == spec_alive_list(servers@.subrange(0, i as int)),
        decreases n - i,
    {
        if servers[i].status == ServerStatus::Alive {
            out.push(servers[i].clone());
        }
        proof {
            let pre = servers@.subrange(0, i as int);
            let cur = servers@.subrange(0, i as int + 1);
            assert(cur.drop_last() =~= pre);
            assert(cur.last() == servers@[i as int]);
            assert(spec_alive_list(cur) == spec_alive_list(pre) + (if spec_alive(cur.last()) {
                seq![cur.last()]
            } else {
                Seq::empty()
            }));
            assert(out@ =~= spec_alive_list(cur));
        }
        i += 1;
    }
    proof {
        assert(servers@.subrange(0, n as int) =~= servers@);
    }
    out
}

/// The same backend with another liveness flag.
pub open spec fn spec_with_status(b: BackendConfig, st: ServerStatus) -> BackendConfig {
    BackendConfig {
        status: st,
        ..b
    }
}

/// `b` with its status replaced when its address is `(ip, port)`.
pub open spec fn spec_status_at_addr(
    b: BackendConfig,
    ip: Seq<char>,
    port: Seq<char>,
    st: ServerStatus,
) -> BackendConfig {
    if b.ip@ == ip && b.port@ == port {
        spec_with_status(b, st)
    } else {
        b
    }
}

/// Sets the status of every held backend whose address is `(ip, port)`.
pub fn set_status_by_addr(
    servers: &mut Vec<BackendConfig>,
    ip: &str,
    port: &str,
    st: ServerStatus,
)
    ensures
        final(servers)@ == old(servers)@.map_values(
            |b: BackendConfig| spec_status_at_addr(b, ip@, port@, st),
        ),
{
    let n = servers.len();
    let mut i: usize = 0;
    while i < n
        invariant
            n == servers@.len(),
            i <= n,
            servers@.len() == old(servers)@.len(),
            forall|j: int| 0 <= j < i ==> servers@[j] == spec_status_at_addr(
                old(servers)@[j],
                ip@,
                port@,
                st,
            ),
            forall|j: int| i <= j < n ==> servers@[j] == old(servers)@[j],
        decreases n - i,
    {
        if str_eq(servers[i].ip.as_str(), ip) && str_eq(servers[i].port.as_str(), port) {
            let b = &mut servers[i];
            b.status = st;
        }
        i += 1;
    }
    proof {
        assert(servers@ =~= old(servers)@.map_values(
            |b: BackendConfig| spec_status_at_addr(b, ip@, port@, st),
        ));
    }
}

/// Whether `n` names one of the declared strategies.
pub open spec fn spec_known_strategy(n: Seq<char>) -> bool {
    n == "RoundRobin"@ || n == "WeightedRoundRobin"@ || n == "Random"@ || n == "LeastConnections"@
        || n == "WeightedLeastConnections"@ || n == "UriPathHash"@ || n == "SourceIPHash"@ || n
        == "LeastTraffic"@ || n == "LeastLatency"@
}

/// A user-chosen policy for forwarding requests: each request is fed to
/// the strategy and a backend, when one is eligible, comes out.
///
/// The weighted, connection-counting and traffic-counting variants are
/// declared but not implemented: they configure to nothing and never
/// select a backend.
pub enum Strategy {
    RoundRobin(RoundRobin),
    WeightedRoundRobin(RoundRobin),
    Random(Random),
    LeastConnections(RoundRobin),
    WeightedLeastConnections(RoundRobin),
    UriPathHash(UriPathHash),
    SourceIPHash(IPHash),
    LeastTraffic(RoundRobin),
    LeastLatency(LeastLatency),
}

/// What one selection call promises, per variant: only alive backends
/// come out; round robin returns the scanned backend and steps its
/// cursor; random returns a held alive backend, one existing exactly
/// when something is alive; the path and host tables and the latency
/// choice are exact functions of the request and the probe outcomes,
/// with the state untouched; an unimplemented variant returns nothing
/// and changes nothing.
pub open spec fn spec_server_contract(
    pre: Strategy,
    post: Strategy,
    req: RequestInfo,
    probes: Seq<Option<u64>>,
    r: Option<BackendConfig>,
) -> bool {
    &&& (r matches Some(b) ==> spec_alive(b))
    &&& (pre matches Strategy::RoundRobin(a) ==> (post matches Strategy::RoundRobin(b) && b.servers
        == a.servers && ((r is Some) == spec_exists_alive(a.servers@)) && (
    a.spec_selection() matches Some(i) ==> r == Some(a.servers@[i]) && b.current_server as int
        == spec_ring_next(i, a.servers@.len() as int)) && (a.spec_selection() is None ==> r is None
        && b.current_server == a.current_server)))
    &&& (pre matches Strategy::Random(a) ==> (post == pre && ((r is Some) == spec_exists_alive(
        a.servers@,
    )) && (r matches Some(b) ==> (exists|j: int| 0 <= j < a.servers@.len() && a.servers@[j] == b))))
    &&& (pre matches Strategy::UriPathHash(a) ==> (post == pre && r == a.spec_select_path(
        req.uri_path@,
    )))
    &&& (pre matches Strategy::SourceIPHash(a) ==> (post == pre && r == a.spec_select_host(
        spec_client_key(req),
    )))
    &&& (pre matches Strategy::LeastLatency(a) ==> (post == pre && r == a.spec_select_least(
        probes,
    )))
    &&& (!pre.spec_implemented() ==> (post == pre && r is None))
}

impl Strategy {
    /// Whether the variant is one of the implemented strategies.
    pub open spec fn spec_implemented(self) -> bool {
        self matches Strategy::RoundRobin(_) || self matches Strategy::Random(_)
            || self matches Strategy::UriPathHash(_) || self matches Strategy::SourceIPHash(_)
            || self matches Strategy::LeastLatency(_)
    }

    /// Whether this is one of the implemented strategies; a declared
    /// but unimplemented variant never selects a backend.
    pub fn implemented(&self) -> (r: bool)
        ensures
            r == self.spec_implemented(),
    {
        match self {
            Strategy::RoundRobin(_) => true,
            Strategy::Random(_) => true,
            Strategy::UriPathHash(_) => true,
            Strategy::SourceIPHash(_) => true,
            Strategy::LeastLatency(_) => true,
            Strategy::WeightedRoundRobin(_) => false,
            Strategy::LeastConnections(_) => false,
            Strategy::WeightedLeastConnections(_) => false,
            Strategy::LeastTraffic(_) => false,
        }
    }

    /// Chooses the strategy by its configured name; an unknown name
    /// yields nothing, which callers treat as a fatal start-up error.
    pub fn from_name(name: &str) -> (r: Option<Strategy>)
        ensures
            (r is Some) == spec_known_strategy(name@),
            name@ == "RoundRobin"@ ==> (r matches Some(Strategy::RoundRobin(rr))
                && rr.current_server == 0 && rr.servers@ == Seq::<BackendConfig>::empty()),
            name@ == "Random"@ ==> (r matches Some(Strategy::Random(rd)) && rd.servers@
                == Seq::<BackendConfig>::empty()),
            name@ == "UriPathHash"@ ==> (r matches Some(Strategy::UriPathHash(u))
                && u.spec_mappings() == Seq::<(String, BackendConfig)>::empty()),
            name@ == "SourceIPHash"@ ==> (r matches Some(Strategy::SourceIPHash(h))
                && h.spec_mappings() == Seq::<(String, BackendConfig)>::empty()),
            name@ == "LeastLatency"@ ==> (r matches Some(Strategy::LeastLatency(l))
                && l.current_server == 0 && l.servers@ == Seq::<BackendConfig>::empty()),
            name@ == "WeightedRoundRobin"@ || name@ == "LeastConnections"@ || name@
                == "WeightedLeastConnections"@ || name@ == "LeastTraffic"@ ==> (r matches Some(s)
                && !s.spec_implemented()),
    {
        proof {
            reveal_strlit("RoundRobin");
            reveal_strlit("WeightedRoundRobin");
            reveal_strlit("Random");
            reveal_strlit("LeastConnections");
            reveal_strlit("WeightedLeastConnections");
            reveal_strlit("UriPathHash");
            reveal_strlit("SourceIPHash");
            reveal_strlit("LeastTraffic");
            reveal_strlit("LeastLatency");
            assert("RoundRobin"@.len() == 10);
            assert("WeightedRoundRobin"@.len() == 18);
            assert("Random"@.len() == 6);
            assert("LeastConnections"@.len() == 16);
            assert("WeightedLeastConnections"@.len() == 24);
            assert("UriPathHash"@.len() == 11);
            assert("SourceIPHash"@.len() == 12);
            assert("LeastTraffic"@.len() == 12);
            assert("LeastLatency"@.len() == 12);
            assert("SourceIPHash"@[0] == 'S' && "LeastTraffic"@[0] == 'L' && "LeastLatency"@[0]
                == 'L');
            assert("LeastTraffic"@[5] == 'T' && "LeastLatency"@[5] == 'L');
        }
        if str_eq(name, "RoundRobin") {
            Some(Strategy::RoundRobin(RoundRobin::new()))
        } else if str_eq(name, "WeightedRoundRobin") {
            Some(Strategy::WeightedRoundRobin(RoundRobin::new()))
        } else if str_eq(name, "Random") {
            Some(Strategy::Random(Random::new()))
        } else if str_eq(name, "LeastConnections") {
            Some(Strategy::LeastConnections(RoundRobin::new()))
        } else if str_eq(name, "WeightedLeastConnections") {
            Some(Strategy::WeightedLeastConnections(RoundRobin::new()))
        } else if str_eq(name, "UriPathHash") {
            Some(Strategy::UriPathHash(UriPathHash::new()))
        } else if str_eq(name, "SourceIPHash") {
            Some(Strategy::SourceIPHash(IPHash::new()))
        } else if str_eq(name, "LeastTraffic") {
            Some(Strategy::LeastTraffic(RoundRobin::new()))
        } else if str_eq(name, "LeastLatency") {
            Some(Strategy::LeastLatency(LeastLatency::new()))
        } else {
            None
        }
    }

    /// How many probe outcomes a selection call expects: one per held
    /// backend for the latency strategy, none otherwise.
    pub fn probe_count(&self) -> (r: usize)
        ensures
            self matches Strategy::LeastLatency(l) ==> r == l.servers@.len(),
            !(self matches Strategy::LeastLatency(_)) ==> r == 0,
    {
        match self {
            Strategy::LeastLatency(l) => l.servers.len(),
            _ => 0,
        }
    }

    /// The addresses a selection call expects probe outcomes for, in
    /// order: the latency strategy's held backends; no other variant
    /// wants probes.
    pub fn probe_targets(&self) -> (r: Vec<(String, String)>)
        ensures
            self matches Strategy::LeastLatency(l) ==> r@.len() == l.servers@.len() && (forall|
                i: int,
            |
                0 <= i < r@.len() ==> r@[i].0@ == l.servers@[i].ip@ && r@[i].1@
                    == l.servers@[i].port@),
            !(self matches Strategy::LeastLatency(_)) ==> r@.len() == 0,
    {
        let mut out: Vec<(String, String)> = Vec::new();
        match self {
            Strategy::LeastLatency(l) => {
                let n = l.servers.len();
                let mut i: usize = 0;
                while i < n
                    invariant
                        n == l.servers@.len(),
                        i <= n,
                        out@.len() == i,
                        forall|j: int| 0 <= j < i ==> out@[j].0@ == l.servers@[j].ip@
                            && out@[j].1@ == l.servers@[j].port@,
                    decreases n - i,
                {
                    out.push((l.servers[i].ip.clone(), l.servers[i].port.clone()));
                    i += 1;
                }
                out
            },
            _ => out,
        }
    }

    /// Configures the chosen variant from the loaded configuration; the
    /// unimplemented variants configure to nothing.
    pub fn configure(&mut self, config: &Config)
        ensures
            (*old(self)) matches Strategy::RoundRobin(a) ==> ((*final(self)) matches Strategy::RoundRobin(
                b,
            ) && b.current_server == a.current_server && b.servers@ == a.servers@
                + spec_alive_copies(config.backends@)),
            (*old(self)) matches Strategy::Random(a) ==> ((*final(self)) matches Strategy::Random(b)
                && b.servers@ == a.servers@ + spec_alive_copies(config.backends@)),
            (*old(self)) matches Strategy::UriPathHash(a) ==> ((*final(self))
                matches Strategy::UriPathHash(b) && b.spec_mappings() == a.spec_mappings()
                + crate::algorithm::url_hash::spec_mapping_entries(
                config.backends@,
                config.mappings@,
            )),
            (*old(self)) matches Strategy::SourceIPHash(a) ==> ((*final(self))
                matches Strategy::SourceIPHash(b) && b.spec_mappings() == a.spec_mappings()
                + crate::algorithm::url_hash::spec_mapping_entries(
                config.backends@,
                config.mappings@,
            )),
            (*old(self)) matches Strategy::LeastLatency(a) ==> ((*final(self))
                matches Strategy::LeastLatency(b) && b.current_server == a.current_server
                && b.servers@ == a.servers@ + spec_alive_copies(config.backends@)),
            !old(self).spec_implemented() ==> *final(self) == *old(self),
    {
        match self {
            Strategy::RoundRobin(s) => s.configure(config),
            Strategy::Random(s) => s.configure(config),
            Strategy::UriPathHash(s) => s.configure(config),
            Strategy::SourceIPHash(s) => s.configure(config),
            Strategy::LeastLatency(s) => s.configure(config),
            Strategy::WeightedRoundRobin(_) => {},
            Strategy::LeastConnections(_) => {},
            Strategy::WeightedLeastConnections(_) => {},
            Strategy::LeastTraffic(_) => {},
        }
    }

    /// Selects the backend the request should be forwarded to, or
    /// nothing when no eligible backend exists; only alive backends come
    /// out. `probes` carries the latency strategy's measured outcomes,
    /// one per held backend, and is ignored by every other variant.
    pub fn server(&mut self, req: &RequestInfo, probes: &Vec<Option<u64>>) -> (r: Option<
        BackendConfig,
    >)
        requires
            (*old(self)) matches Strategy::LeastLatency(l) ==> probes@.len() == l.servers@.len(),
        ensures
            spec_server_contract(*old(self), *final(self), *req, probes@, r),
    {
        match self {
            Strategy::RoundRobin(s) => s.server(req),
            Strategy::Random(s) => s.server(req),
            Strategy::UriPathHash(s) => s.server(req),
            Strategy::SourceIPHash(s) => s.server(req),
            Strategy::LeastLatency(s) => s.server_from_probes(probes),
            Strategy::WeightedRoundRobin(_) => None,
            Strategy::LeastConnections(_) => None,
            Strategy::WeightedLeastConnections(_) => None,
            Strategy::LeastTraffic(_) => None,
        }
    }

    /// Writes the liveness flag of every backend the strategy holds at
    /// `(ip, port)`: the health supervisor's single entry point into
    /// selection state.
    pub fn set_status(&mut self, ip: &str, port: &str, st: ServerStatus)
        ensures
            (*old(self)) matches Strategy::RoundRobin(a) ==> ((*final(self)) matches Strategy::RoundRobin(
                b,
            ) && b.current_server == a.current_server && b.servers@ == a.servers@.map_values(
                |x: BackendConfig| spec_status_at_addr(x, ip@, port@, st),
            )),
            (*old(self)) matches Strategy::Random(a) ==> ((*final(self)) matches Strategy::Random(b)
                && b.servers@ == a.servers@.map_values(
                |x: BackendConfig| spec_status_at_addr(x, ip@, port@, st),
            )),
            (*old(self)) matches Strategy::UriPathHash(a) ==> ((*final(self))
                matches Strategy::UriPathHash(b) && b.spec_mappings()
                == a.spec_mappings().map_values(
                |p: (String, BackendConfig)| (p.0, spec_status_at_addr(p.1, ip@, port@, st)),
            )),
            (*old(self)) matches Strategy::SourceIPHash(a) ==> ((*final(self))
                matches Strategy::SourceIPHash(b) && b.spec_mappings()
                == a.spec_mappings().map_values(
                |p: (String, BackendConfig)| (p.0, spec_status_at_addr(p.1, ip@, port@, st)),
            )),
            (*old(self)) matches Strategy::LeastLatency(a) ==> ((*final(self))
                matches Strategy::LeastLatency(b) && b.current_server == a.current_server
                && b.servers@ == a.servers@.map_values(
                |x: BackendConfig| spec_status_at_addr(x, ip@, port@, st),
            )),
            !old(self).spec_implemented() ==> *final(self) == *old(self),
    {
        match self {
            Strategy::RoundRobin(s) => s.set_status(ip, port, st),
            Strategy::Random(s) => s.set_status(ip, port, st),
            Strategy::UriPathHash(s) => s.set_status(ip, port, st),
            Strategy::SourceIPHash(s) => s.set_status(ip, port, st),
            Strategy::LeastLatency(s) => s.set_status(ip, port, st),
            Strategy::WeightedRoundRobin(_) => {},
            Strategy::LeastConnections(_) => {},
            Strategy::WeightedLeastConnections(_) => {},
            Strategy::LeastTraffic(_) => {},
        }
    }
}

} // verus!
