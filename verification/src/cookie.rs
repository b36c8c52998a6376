//! Cookie headers, read and written as plain strings.
//!
//! A header names a cookie `key` when it starts with `key` followed by
//! `=`; its value then runs to the first `;` or to the end. The proxy
//! writes its own session cookie in that shape.

use vstd::prelude::*;

use crate::text::str_starts_with;
use vstd::string::StrSliceExecFns;
use vstd::string::StringExecFns;

verus! {

/// Whether the header `h` carries a cookie named `key`: `key`
/// immediately followed by `=`.
pub open spec fn spec_is_cookie_named(h: Seq<char>, key: Seq<char>) -> bool {
    h.len() > key.len() && h.subrange(0, key.len() as int) == key && h[key.len() as int] == '='
}

/// Index of the first `;` of `h` at or after `from`; the length of `h`
/// when there is none.
pub open spec fn spec_value_end(h: Seq<char>, from: int) -> int
    recommends
        0 <= from,
    decreases h.len() - from,
{
    if from < 0 || from >= h.len() {
        h.len() as int
    } else if h[from] == ';' {
        from
    } else {
        spec_value_end(h, from + 1)
    }
}

/// The value of the cookie named `key` in the header `h`: what stands
/// between the `=` and the first `;` after it, or the end.
pub open spec fn spec_cookie_value(h: Seq<char>, key: Seq<char>) -> Seq<char>
    recommends
        spec_is_cookie_named(h, key),
{
    h.subrange(key.len() as int + 1, spec_value_end(h, key.len() as int + 1))
}

/// Whether some header of `hs` carries a cookie named `key`.
pub open spec fn spec_has_cookie(hs: Seq<String>, key: Seq<char>) -> bool {
    exists|i: int| 0 <= i < hs.len() && spec_is_cookie_named(hs[i]@, key)
}

/// The value of the first header of `hs` carrying a cookie named `key`.
pub open spec fn spec_find_cookie(hs: Seq<String>, key: Seq<char>) -> Option<Seq<char>>
    decreases hs.len(),
{
    if hs.len() == 0 {
        None
    } else if spec_is_cookie_named(hs[0]@, key) {
        Some(spec_cookie_value(hs[0]@, key))
    } else {
        spec_find_cookie(hs.drop_first(), key)
    }
}

/// The first carrying position determines `spec_find_cookie`.
proof fn lemma_find_cookie_first(hs: Seq<String>, key: Seq<char>, i: int)
    requires
        0 <= i < hs.len(),
        spec_is_cookie_named(hs[i]@, key),
        forall|j: int| 0 <= j < i ==> !spec_is_cookie_named(hs[j]@, key),
    ensures
        spec_find_cookie(hs, key) == Some(spec_cookie_value(hs[i]@, key)),
    decreases hs.len(),
{
    if i > 0 {
        assert forall|j: int| 0 <= j < i - 1 implies !spec_is_cookie_named(
            hs.drop_first()[j]@,
            key,
        ) by {
            assert(hs.drop_first()[j] == hs[j + 1]);
        }
        assert(hs.drop_first()[i - 1] == hs[i]);
        lemma_find_cookie_first(hs.drop_first(), key, i - 1);
    }
}

/// With no carrying header there is no value.
proof fn lemma_find_cookie_absent(hs: Seq<String>, key: Seq<char>)
    requires
        forall|j: int| 0 <= j < hs.len() ==> !spec_is_cookie_named(hs[j]@, key),
    ensures
        spec_find_cookie(hs, key) is None,
    decreases hs.len(),
{
    if hs.len() > 0 {
        assert forall|j: int| 0 <= j < hs.drop_first().len() implies !spec_is_cookie_named(
            hs.drop_first()[j]@,
            key,
        ) by {
            assert(hs.drop_first()[j] == hs[j + 1]);
        }
        lemma_find_cookie_absent(hs.drop_first(), key);
    }
}

/// Checks whether the header `h` carries a cookie named `key`.
pub fn is_cookie_named(h: &str, key: &str) -> (r: bool)
    ensures
        r == spec_is_cookie_named(h@, key@),
{
    let kl = key.unicode_len();
    if h.unicode_len() <= kl {
        return false;
    }
    if !str_starts_with(h, key) {
        return false;
    }
    h.get_char(kl) == '='
}

/// Finds the first `;` of `h` at or after `from`, or the end of `h`.
pub fn value_end(h: &str, from: usize) -> (r: usize)
    requires
        from <= h@.len(),
    ensures
        r as int == spec_value_end(h@, from as int),
        from <= r <= h@.len(),
    decreases h@.len() - from,
{
    let n = h.unicode_len();
    let mut i = from;
    while i < n
        invariant
            n == h@.len(),
            from <= i <= n,
            spec_value_end(h@, from as int) == spec_value_end(h@, i as int),
        decreases n - i,
    {
        if h.get_char(i) == ';' {
            return i;
        }
        i += 1;
    }
    n
}

/// Reading and writing of the proxy's cookie headers.
pub struct Cookie;

impl Cookie {
    /// Whether one of the given headers carries a cookie named
    /// `cookie_key`.
    pub fn has_cookie(headers: &Vec<String>, cookie_key: &str) -> (r: bool)
        ensures
            r == spec_has_cookie(headers@, cookie_key@),
    {
        let n = headers.len();
        let mut i: usize = 0;
        while i < n
            invariant
                n == headers@.len(),
                i <= n,
                forall|j: int| 0 <= j < i ==> !spec_is_cookie_named(headers@[j]@, cookie_key@),
            decreases n - i,
        {
            if is_cookie_named(headers[i].as_str(), cookie_key) {
                return true;
            }
            i += 1;
        }
        false
    }

    /// Resolves a request to a backend by its raw cookie header: a
    /// request carrying cookies is pinned by its first cookie header,
    /// through the session mapper with the strategy as fallback; one
    /// without cookies goes straight to the strategy.
    ///
    /// Wherever the mapper does not answer from its cache — a request
    /// without cookies, or a first-seen cookie header — the result and
    /// the strategy's new state obey the selection contract of the
    /// variant in use, and a selection made for a cookie header is
    /// installed under it.
    pub fn parse_cookies(
        req: &crate::algorithm::algorithm::RequestInfo,
        strategy: &mut crate::algorithm::algorithm::Strategy,
        mappings: &mut crate::request::SessionMap,
        probes: &Vec<Option<u64>>,
    ) -> (r: Option<crate::config::BackendConfig>)
        requires
            (*old(strategy)) matches crate::algorithm::algorithm::Strategy::LeastLatency(l)
                ==> probes@.len() == l.servers@.len(),
        ensures
            req.cookie_headers@.len() == 0 ==> final(mappings).spec_entries() == old(
                mappings,
            ).spec_entries() && crate::algorithm::algorithm::spec_server_contract(
                *old(strategy),
                *final(strategy),
                *req,
                probes@,
                r,
            ),
            req.cookie_headers@.len() > 0 ==> (old(mappings).spec_lookup(req.cookie_headers@[0]@)
                matches Some(b) ==> r == Some(b) && final(mappings).spec_entries() == old(
                mappings,
            ).spec_entries() && *final(strategy) == *old(strategy)),
            req.cookie_headers@.len() > 0 && old(mappings).spec_lookup(req.cookie_headers@[0]@)
                is None ==> crate::algorithm::algorithm::spec_server_contract(
                *old(strategy),
                *final(strategy),
                *req,
                probes@,
                r,
            ),
            req.cookie_headers@.len() > 0 ==> (r matches Some(b) ==> final(mappings).spec_lookup(
                req.cookie_headers@[0]@,
            ) == Some(b)),
            req.cookie_headers@.len() > 0 && r is None ==> final(mappings).spec_entries() == old(
                mappings,
            ).spec_entries(),
            req.cookie_headers@.len() > 0 ==> (forall|k: Seq<char>|
                k != req.cookie_headers@[0]@ ==> final(mappings).spec_lookup(k) == old(
                    mappings,
                ).spec_lookup(k)),
    {
        if req.cookie_headers.len() > 0 {
            let key = req.cookie_headers[0].clone();
            crate::request::get_server(strategy, mappings, req, &key, probes)
        } else {
            strategy.server(req, probes)
        }
    }

    /// The value of the first header carrying a cookie named
    /// `cookie_key`, when one does.
    pub fn parse_cookie_value(headers: &Vec<String>, cookie_key: &str) -> (r: Option<String>)
        ensures
            r matches Some(v) ==> spec_find_cookie(headers@, cookie_key@) == Some(v@),
            r is None ==> spec_find_cookie(headers@, cookie_key@) is None,
    {
        let n = headers.len();
        let mut i: usize = 0;
        while i < n
            invariant
                n == headers@.len(),
                i <= n,
                forall|j: int| 0 <= j < i ==> !spec_is_cookie_named(headers@[j]@, cookie_key@),
            decreases n - i,
        {
            let h = headers[i].as_str();
            if is_cookie_named(h, cookie_key) {
                let kl = cookie_key.unicode_len();
                let hl = h.unicode_len();
                assert(kl < hl);
                let end = value_end(h, kl + 1);
                let v = h.substring_char(kl + 1, end);
                proof {
                    lemma_find_cookie_first(headers@, cookie_key@, i as int);
                }
                return Some(v.to_owned());
            }
            i += 1;
        }
        proof {
            lemma_find_cookie_absent(headers@, cookie_key@);
        }
        None
    }
}

impl Cookie {
    /// Appends a cookie header for `cookie_key`, valued with the
    /// session id synthesised from the pair of hosts.
    pub fn set_cookie(
        headers: &mut Vec<String>,
        client_host: String,
        server_host: String,
        cookie_key: &str,
    )
        ensures
            final(headers)@.len() == old(headers)@.len() + 1,
            final(headers)@.subrange(0, old(headers)@.len() as int) == old(headers)@,
            final(headers)@.last()@ == spec_cookie_header(
                cookie_key@,
                crate::request::spec_unique_id(client_host@, server_host@),
            ),
    {
        let id = crate::request::User::generate_unique_id(client_host, server_host);
        let h = build_cookie_header(cookie_key, id.as_str());
        headers.push(h);
        proof {
            assert(final(headers)@.subrange(0, old(headers)@.len() as int) =~= old(headers)@);
        }
    }
}

/// The header the proxy sets for the cookie `key` with value `id`:
/// thirty seconds of life, out of the browser scripts' reach.
pub open spec fn spec_cookie_header(key: Seq<char>, id: Seq<char>) -> Seq<char> {
    key + "="@ + id + "; Max-Age=30; HttpOnly"@
}

/// Builds the proxy's cookie header for `key` and `id`.
pub fn build_cookie_header(key: &str, id: &str) -> (r: String)
    ensures
        r@ == spec_cookie_header(key@, id@),
{
    let mut s = key.to_owned();
    s.append("=");
    s.append(id);
    s.append("; Max-Age=30; HttpOnly");
    s
}

/// The built header carries the cookie it names.
pub proof fn lemma_cookie_header_named(key: Seq<char>, id: Seq<char>)
    ensures
        spec_is_cookie_named(spec_cookie_header(key, id), key),
{
    let h = spec_cookie_header(key, id);
    reveal_strlit("=");
    reveal_strlit("; Max-Age=30; HttpOnly");
    assert("="@.len() == 1);
    assert("; Max-Age=30; HttpOnly"@.len() == 22);
    assert(h.len() == key.len() + 1 + id.len() + 22);
    assert(h.subrange(0, key.len() as int) =~= key);
    assert(h[key.len() as int] == '=');
}

/// The built header carries exactly the value it was built from,
/// provided the value holds no `;`.
pub proof fn lemma_cookie_header_value(key: Seq<char>, id: Seq<char>)
    requires
        forall|i: int| 0 <= i < id.len() ==> id[i] != ';',
    ensures
        spec_cookie_value(spec_cookie_header(key, id), key) == id,
{
    let h = spec_cookie_header(key, id);
    reveal_strlit("=");
    reveal_strlit("; Max-Age=30; HttpOnly");
    assert("="@.len() == 1);
    assert("; Max-Age=30; HttpOnly"@.len() == 22);
    assert(h.len() == key.len() + 1 + id.len() + 22);
    let vstart: int = key.len() as int + 1;
    let tail = "; Max-Age=30; HttpOnly"@;
    assert forall|i: int| vstart <= i < vstart + id.len() implies h[i] != ';' by {
        assert(h[i] == id[i - vstart]);
    }
    assert(h[vstart + id.len()] == tail[0]);
    assert(tail[0] == ';');
    lemma_value_end_at(h, vstart, vstart + id.len());
    assert(h.subrange(vstart, vstart + id.len()) =~= id);
}

/// `spec_value_end` lands on the first `;` at or after `from`.
proof fn lemma_value_end_at(h: Seq<char>, from: int, semi: int)
    requires
        0 <= from <= semi < h.len(),
        h[semi] == ';',
        forall|i: int| from <= i < semi ==> h[i] != ';',
    ensures
        spec_value_end(h, from) == semi,
    decreases semi - from,
{
    if from < semi {
        lemma_value_end_at(h, from + 1, semi);
    }
}

} // verus!
