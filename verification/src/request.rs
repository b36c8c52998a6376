//! The per-request pipeline: computing the session id, resolving the
//! backend through the session mapper with the strategy as fallback,
//! rewriting the URI, and installing the session cookie on the way out.

use vstd::prelude::*;

use crate::algorithm::algorithm::{spec_alive, spec_assoc, spec_server_contract, assoc_get,
    lemma_assoc_push, RequestInfo, Strategy};
use crate::config::{BackendConfig, PersistenceType};
use crate::cookie::{build_cookie_header, spec_cookie_header, spec_find_cookie, spec_has_cookie,
    spec_is_cookie_named, Cookie};
use crate::text::{spec_decimal, spec_fnv64, spec_pair_bytes, hash_pair, u64_to_decimal};
use vstd::string::StringExecFns;

verus! {

/// The pair a synthesised session id is derived from.
#[derive(Hash)]
pub struct User {
    pub client_host: String,
    pub server_host: String,
}

/// The deterministic session id synthesised for a client without a
/// session cookie: the decimal text of the 64-bit hash of the ordered
/// pair (client host, server host).
pub open spec fn spec_unique_id(client: Seq<char>, server: Seq<char>) -> Seq<char> {
    spec_decimal(spec_fnv64(spec_pair_bytes(client, server)) as nat)
}

impl User {
    /// Synthesises the session id for the pair of hosts.
    pub fn generate_unique_id(client_host: String, server_host: String) -> (r: String)
        ensures
            r@ == spec_unique_id(client_host@, server_host@),
    {
        let user = User { client_host, server_host };
        let h = hash_pair(user.client_host.as_str(), user.server_host.as_str());
        u64_to_decimal(h)
    }
}

/// The session id of a request under a persistence policy: the value of
/// its session cookie, or a synthesised id, under `Cookie`; the remote
/// address under `IP`; nothing under `Disabled`, which bypasses the
/// session mapper.
pub open spec fn spec_session_id(req: RequestInfo, pt: PersistenceType) -> Option<Seq<char>> {
    match pt {
        PersistenceType::Cookie => Some(
            match spec_find_cookie(req.cookie_headers@, "session"@) {
                Some(v) => v,
                None => spec_unique_id(req.remote_ip@, req.host_header@),
            },
        ),
        PersistenceType::IP => Some(req.remote_ip@),
        PersistenceType::Disabled => None,
    }
}

/// Computes the request's session id under the persistence policy.
pub fn session_id_of(req: &RequestInfo, pt: PersistenceType) -> (r: Option<String>)
    ensures
        r matches Some(s) ==> spec_session_id(*req, pt) == Some(s@),
        (r is None) == (pt == PersistenceType::Disabled),
{
    match pt {
        PersistenceType::Cookie => {
            match Cookie::parse_cookie_value(&req.cookie_headers, "session") {
                Some(v) => Some(v),
                None => Some(
                    User::generate_unique_id(req.remote_ip.clone(), req.host_header.clone()),
                ),
            }
        },
        PersistenceType::IP => Some(req.remote_ip.clone()),
        PersistenceType::Disabled => None,
    }
}

/// The session mapper: once a session is bound to a backend, every
/// later request of that session reads the same binding.
pub struct SessionMap {
    entries: Vec<(String, BackendConfig)>,
}

impl SessionMap {
    /// The stored bindings, in insertion order.
    pub closed spec fn spec_entries(self) -> Seq<(String, BackendConfig)> {
        self.entries@
    }

    /// The backend bound to `id`, first binding winning.
    pub open spec fn spec_lookup(self, id: Seq<char>) -> Option<BackendConfig> {
        spec_assoc(self.spec_entries(), id)
    }

    pub fn new() -> (r: Self)
        ensures
            r.spec_entries() == Seq::<(String, BackendConfig)>::empty(),
    {
        SessionMap { entries: Vec::new() }
    }

    /// Reads the binding of `id`, if one was installed.
    pub fn lookup(&self, id: &str) -> (r: Option<BackendConfig>)
        ensures
            r == self.spec_lookup(id@),
    {
        assoc_get(&self.entries, id)
    }

    /// Installs a binding for `id`.
    pub fn insert(&mut self, id: String, b: BackendConfig)
        ensures
            final(self).spec_entries() == old(self).spec_entries().push((id, b)),
    {
        self.entries.push((id, b));
    }
}

/// What a resolution returns: the session's cached binding when one
/// exists, else whatever the strategy offered.
pub open spec fn spec_resolve_backend(
    m: SessionMap,
    id: Seq<char>,
    choice: Option<BackendConfig>,
) -> Option<BackendConfig> {
    match m.spec_lookup(id) {
        Some(b) => Some(b),
        None => choice,
    }
}

/// Session affinity: while a session's binding exists, a resolution of
/// that session returns the bound backend, whatever the strategy would
/// now choose — even a backend that has since died stays bound.
pub proof fn lemma_session_affinity(
    m: SessionMap,
    s: Seq<char>,
    b: BackendConfig,
    c1: Option<BackendConfig>,
    c2: Option<BackendConfig>,
)
    requires
        m.spec_lookup(s) == Some(b),
    ensures
        spec_resolve_backend(m, s, c1) == Some(b),
        spec_resolve_backend(m, s, c1) == spec_resolve_backend(m, s, c2),
{
}

/// Resolves a session against the map: a cached binding wins; otherwise
/// the offered choice, when there is one, is installed and returned.
pub fn resolve_with(map: &mut SessionMap, id: &str, choice: Option<BackendConfig>) -> (r: Option<
    BackendConfig,
>)
    ensures
        r == spec_resolve_backend(*old(map), id@, choice),
        old(map).spec_lookup(id@) matches Some(b) ==> r == Some(b) && final(map).spec_entries()
            == old(map).spec_entries(),
        old(map).spec_lookup(id@) is None ==> r == choice,
        old(map).spec_lookup(id@) is None && choice is None
            ==> final(map).spec_entries() == old(map).spec_entries(),
        r matches Some(b) ==> final(map).spec_lookup(id@) == Some(b),
        forall|k: Seq<char>| k != id@ ==> final(map).spec_lookup(k) == old(map).spec_lookup(k),
{
    let cached = map.lookup(id);
    match cached {
        Some(b) => Some(b),
        None => {
            match choice {
                Some(b) => {
                    let key = id.to_owned();
                    map.insert(key, b.clone());
                    proof {
                        let entries0 = old(map).spec_entries();
                        let p = final(map).spec_entries().last();
                        assert(final(map).spec_entries() == entries0.push(p));
                        lemma_assoc_push(entries0, p, id@);
                        assert forall|k: Seq<char>| k != id@ implies final(map).spec_lookup(k)
                            == old(map).spec_lookup(k) by {
                            lemma_assoc_push(entries0, p, k);
                        }
                    }
                    Some(b)
                },
                None => None,
            }
        },
    }
}

/// Resolves the request's backend: the session's cached binding when
/// one exists, else a fresh selection by the strategy, which is then
/// bound to the session.
///
/// On a miss the strategy is consulted exactly once: the result and the
/// strategy's new state obey the selection contract of the variant in
/// use, and a returned selection is installed under the session id.
pub fn get_server(
    strategy: &mut Strategy,
    mappings: &mut SessionMap,
    req_info: &RequestInfo,
    session_id: &String,
    probes: &Vec<Option<u64>>,
) -> (r: Option<BackendConfig>)
    requires
        (*old(strategy)) matches Strategy::LeastLatency(l) ==> probes@.len() == l.servers@.len(),
    ensures
        old(mappings).spec_lookup(session_id@) matches Some(b) ==> r == Some(b)
            && final(mappings).spec_entries() == old(mappings).spec_entries()
            && *final(strategy) == *old(strategy),
        old(mappings).spec_lookup(session_id@) is None ==> spec_server_contract(
            *old(strategy),
            *final(strategy),
            *req_info,
            probes@,
            r,
        ),
        r matches Some(b) ==> final(mappings).spec_lookup(session_id@) == Some(b),
        old(mappings).spec_lookup(session_id@) is None ==> (r matches Some(b) ==> spec_alive(b)),
        old(mappings).spec_lookup(session_id@) is None && r is None
            ==> final(mappings).spec_entries() == old(mappings).spec_entries(),
        forall|k: Seq<char>| k != session_id@
            ==> final(mappings).spec_lookup(k) == old(mappings).spec_lookup(k),
{
    let cached = mappings.lookup(session_id.as_str());
    match cached {
        Some(b) => Some(b),
        None => {
            let choice = strategy.server(req_info, probes);
            resolve_with(mappings, session_id.as_str(), choice)
        },
    }
}

/// The URI a request is rewritten to: the backend's scheme, authority
/// and path; the request's query is kept when the backend path is a
/// prefix of the request path.
pub open spec fn spec_target_uri(b: BackendConfig, req_path: Seq<char>, req_query: Seq<char>) -> Seq<
    char,
> {
    b.scheme@ + "://"@ + b.ip@ + ":"@ + b.port@ + (if crate::text::spec_starts_with(
        req_path,
        b.path@,
    ) && req_query.len() > 0 {
        b.path@ + "?"@ + req_query
    } else {
        b.path@
    })
}

/// Rewrites a request's URI onto the chosen backend.
pub fn rewrite_uri(b: &BackendConfig, req_path: &str, req_query: &str) -> (r: String)
    ensures
        r@ == spec_target_uri(*b, req_path@, req_query@),
{
    let mut s = b.scheme.clone();
    s.append("://");
    s.append(b.ip.as_str());
    s.append(":");
    s.append(b.port.as_str());
    s.append(b.path.as_str());
    if crate::text::str_starts_with(req_path, b.path.as_str()) && !req_query.is_empty() {
        s.append("?");
        s.append(req_query);
    }
    s
}

/// The `Forwarded` header recording the immediate client: appended on
/// every forwarded request, never overwriting earlier hops.
pub fn forwarded_header(remote_ip: &str) -> (r: (String, String))
    ensures
        r.0@ == "Forwarded"@,
        r.1@ == remote_ip@,
{
    ("Forwarded".to_owned(), remote_ip.to_owned())
}

/// How one cookie installation step relates the response's Set-Cookie
/// headers before and after: nothing changes when a session cookie is
/// already set; otherwise exactly one session cookie header, carrying
/// `id`, is appended.
pub open spec fn spec_installed(pre: Seq<String>, post: Seq<String>, id: Seq<char>) -> bool {
    if spec_has_cookie(pre, "session"@) {
        post == pre
    } else {
        post.len() == pre.len() + 1 && post.subrange(0, pre.len() as int) == pre && post.last()@
            == spec_cookie_header("session"@, id)
    }
}

/// Installs the proxy's session cookie on a response's Set-Cookie
/// headers, unless the upstream already set one.
pub fn install_session_cookie(headers: &mut Vec<String>, session_id: &str)
    ensures
        spec_installed(old(headers)@, final(headers)@, session_id@),
{
    if !Cookie::has_cookie(headers, "session") {
        let h = build_cookie_header("session", session_id);
        headers.push(h);
        proof {
            assert(final(headers)@.subrange(0, old(headers)@.len() as int) =~= old(headers)@);
        }
    }
}

/// A replayed session cookie carries the same id back: the header the
/// proxy installs for a synthesised id parses to exactly that id, so a
/// client that returns the cookie stays in the session it was given.
pub proof fn lemma_synthesised_id_roundtrip(client: Seq<char>, server: Seq<char>)
    ensures
        crate::cookie::spec_cookie_value(
            spec_cookie_header("session"@, spec_unique_id(client, server)),
            "session"@,
        ) == spec_unique_id(client, server),
{
    let id = spec_unique_id(client, server);
    crate::text::lemma_decimal_plain(
        spec_fnv64(spec_pair_bytes(client, server)) as nat,
    );
    crate::cookie::lemma_cookie_header_value("session"@, id);
}

/// Cookie installation is idempotent: a response that already sets a
/// session cookie is forwarded unchanged, so a second installation —
/// with any id — changes nothing, and over any number of installations
/// exactly one session cookie header is appended.
pub proof fn lemma_session_cookie_idempotent(
    hs0: Seq<String>,
    hs1: Seq<String>,
    hs2: Seq<String>,
    id1: Seq<char>,
    id2: Seq<char>,
)
    requires
        spec_installed(hs0, hs1, id1),
        spec_installed(hs1, hs2, id2),
    ensures
        hs2 == hs1,
{
    if spec_has_cookie(hs0, "session"@) {
    } else {
        crate::cookie::lemma_cookie_header_named("session"@, id1);
        let w: int = hs0.len() as int;
        assert(spec_is_cookie_named(hs1[w]@, "session"@));
        assert(spec_has_cookie(hs1, "session"@));
    }
}

} // verus!
