use vstd::prelude::*;

use crate::headers::{same_name, same_name_at};
use crate::names::{
    http_prefix_bytes, http_prefix_name, https_prefix_bytes, https_prefix_name, url_param_bytes,
    url_param_name,
};

verus! {

/// The `host:port` a CONNECT request asks to be tunnelled to.
#[derive(Debug)]
pub struct Authority {
    pub host: Vec<u8>,
    pub port: u16,
}

/// The host to dial: an IPv6 literal without its brackets, any other host as it is.
pub open spec fn dial_host_spec(h: Seq<u8>) -> Seq<u8> {
    if h.len() >= 2 && h[0] == 91 && h.last() == 93 {
        h.subrange(1, h.len() - 1)
    } else {
        h
    }
}

impl Authority {
    pub fn dial_host(&self) -> (r: Vec<u8>)
        ensures
            r@ == dial_host_spec(self.host@),
    {
        let n = self.host.len();
        if n >= 2 && self.host[0] == 91 && self.host[n - 1] == 93 {
            copy_range(self.host.as_slice(), 1, n - 1)
        } else {
            copy_range(self.host.as_slice(), 0, n)
        }
    }
}

/// The largest index below `n` at which `v` holds `b`, or -1.
pub open spec fn last_index(v: Seq<u8>, b: u8, n: int) -> int
    decreases n,
{
    if n <= 0 {
        -1
    } else if v[n - 1] == b {
        n - 1
    } else {
        last_index(v, b, n - 1)
    }
}

/// The smallest index at or after `i` at which `v` holds `b`, or `v.len()`.
pub open spec fn next_index(v: Seq<u8>, b: u8, i: int) -> int
    decreases v.len() - i,
{
    if i >= v.len() {
        v.len() as int
    } else if v[i] == b {
        i
    } else {
        next_index(v, b, i + 1)
    }
}

pub open spec fn is_digit(c: u8) -> bool {
    48 <= c <= 57
}

/// The decimal value of a string of digits.
pub open spec fn digits_value(s: Seq<u8>) -> int
    decreases s.len(),
{
    if s.len() == 0 {
        0
    } else {
        digits_value(s.drop_last()) * 10 + (s.last() - 48)
    }
}

/// A host of an authority: non-empty, no white space or `/`, and a `:` only
/// inside an IPv6 literal in brackets.
pub open spec fn host_ok(h: Seq<u8>) -> bool {
    &&& h.len() > 0
    &&& forall|i: int|
        0 <= i < h.len() ==> #[trigger] h[i] != 32 && h[i] != 9 && h[i] != 47 && (h[i] == 58
            ==> h[0] == 91 && h.last() == 93)
}

/// What `host:port` parses to: the part before the last `:` as host and one
/// to five digits after it as a port in 1..=65535.
pub open spec fn authority_spec(v: Seq<u8>) -> Option<(Seq<u8>, int)> {
    let c = last_index(v, 58, v.len() as int);
    let host = v.subrange(0, c);
    let port = v.subrange(c + 1, v.len() as int);
    if c >= 1 && 1 <= port.len() <= 5 && (forall|i: int| 0 <= i < port.len() ==> is_digit(
        #[trigger] port[i],
    )) && 1 <= digits_value(port) <= 65535 && host_ok(host) {
        Some((host, digits_value(port)))
    } else {
        None
    }
}

proof fn lemma_last_index(v: Seq<u8>, b: u8, n: int)
    requires
        0 <= n <= v.len(),
    ensures
        -1 <= last_index(v, b, n) < n,
        last_index(v, b, n) >= 0 ==> v[last_index(v, b, n)] == b,
        forall|k: int| last_index(v, b, n) < k < n ==> v[k] != b,
    decreases n,
{
    if n > 0 && v[n - 1] != b {
        lemma_last_index(v, b, n - 1);
    }
}

pub(crate) proof fn lemma_digits_bound(s: Seq<u8>)
    requires
        forall|i: int| 0 <= i < s.len() ==> is_digit(#[trigger] s[i]),
    ensures
        0 <= digits_value(s),
        s.len() <= 5 ==> digits_value(s) < 100000,
    decreases s.len(),
{
    if s.len() > 0 {
        let p = s.drop_last();
        assert forall|i: int| 0 <= i < p.len() implies is_digit(#[trigger] p[i]) by {
            assert(p[i] == s[i]);
        }
        lemma_digits_bound(p);
        assert(is_digit(s[s.len() - 1]));
        if s.len() <= 5 {
            assert(digits_value(p) < 10000) by {
                lemma_digits_small(p);
            }
        }
    }
}

proof fn lemma_digits_small(s: Seq<u8>)
    requires
        forall|i: int| 0 <= i < s.len() ==> is_digit(#[trigger] s[i]),
        s.len() <= 4,
    ensures
        0 <= digits_value(s) < 10000,
        s.len() <= 3 ==> digits_value(s) < 1000,
        s.len() <= 2 ==> digits_value(s) < 100,
        s.len() <= 1 ==> digits_value(s) < 10,
    decreases s.len(),
{
    if s.len() > 0 {
        let p = s.drop_last();
        assert forall|i: int| 0 <= i < p.len() implies is_digit(#[trigger] p[i]) by {
            assert(p[i] == s[i]);
        }
        lemma_digits_small(p);
        assert(is_digit(s[s.len() - 1]));
    }
}

/// Parses the target of a CONNECT request as `host:port`.
#[verifier::loop_isolation(false)]
pub fn parse_authority(v: &[u8]) -> (r: Option<Authority>)
    ensures
        authority_spec(v@) is None ==> r is None,
        authority_spec(v@) matches Some(p) ==> r matches Some(a) && a.host@ == p.0 && a.port
            as int == p.1,
{
    let n = v.len();
    let mut j: usize = n;
    while j > 0 && v[j - 1] != 58
        invariant
            j <= n,
            n == v@.len(),
            last_index(v@, 58, j as int) == last_index(v@, 58, n as int),
        decreases j,
    {
        j = j - 1;
    }
    proof {
        lemma_last_index(v@, 58, n as int);
        if j > 0 {
            assert(last_index(v@, 58, j as int) == j - 1);
        }
    }
    if j < 2 || n - j < 1 || n - j > 5 {
        return None;
    }
    let c = j - 1;
    let ghost port = v@.subrange(c + 1, n as int);
    let mut val: u32 = 0;
    let mut k: usize = j;
    while k < n
        invariant
            j <= k <= n,
            n == v@.len(),
            n - j <= 5,
            c + 1 == j,
            port == v@.subrange(j as int, n as int),
            forall|i: int| j <= i < k ==> is_digit(#[trigger] v@[i]),
            val as int == digits_value(v@.subrange(j as int, k as int)),
            val < 100000,
        decreases n - k,
    {
        let d = v[k];
        if d < 48 || d > 57 {
            assert(!is_digit(port[k - j]));
            return None;
        }
        proof {
            let s = v@.subrange(j as int, k + 1);
            assert(s.drop_last() =~= v@.subrange(j as int, k as int));
            assert forall|i: int| 0 <= i < s.len() implies is_digit(#[trigger] s[i]) by {
                assert(s[i] == v@[j + i]);
            }
            lemma_digits_bound(s);
        }
        val = val * 10 + (d - 48) as u32;
        k = k + 1;
    }
    assert(v@.subrange(j as int, n as int) =~= port);
    if val < 1 || val > 65535 {
        return None;
    }
    let ghost host = v@.subrange(0, c as int);
    let mut h: usize = 0;
    while h < c
        invariant
            h <= c,
            c < n,
            n == v@.len(),
            host == v@.subrange(0, c as int),
            forall|i: int|
                0 <= i < h ==> #[trigger] host[i] != 32 && host[i] != 9 && host[i] != 47 && (
                host[i] == 58 ==> host[0] == 91 && host.last() == 93),
        decreases c - h,
    {
        let b = v[h];
        assert(host[h as int] == b && host[0] == v@[0] && host.last() == v@[c - 1]);
        if b == 32 || b == 9 || b == 47 || (b == 58 && !(v[0] == 91 && v[c - 1] == 93)) {
            assert(!host_ok(host)) by {
                assert(host[h as int] == b);
            }
            return None;
        }
        h = h + 1;
    }
    let mut hv: Vec<u8> = Vec::new();
    let mut i: usize = 0;
    while i < c
        invariant
            i <= c,
            c < n,
            n == v@.len(),
            hv@ == v@.subrange(0, i as int),
        decreases c - i,
    {
        hv.push(v[i]);
        assert(hv@ =~= v@.subrange(0, i + 1));
        i = i + 1;
    }
    Some(Authority { host: hv, port: val as u16 })
}

/// How a plain-forward request names the URL to fetch.
#[derive(Clone, Copy, PartialEq, Eq, Debug, Structural)]
pub enum TargetMode {
    /// The request URI itself, in absolute form.
    RequestUri,
    /// The `url` query parameter of the request URI.
    UrlParam,
}

/// `v` begins with `p`, ignoring ASCII case.
pub open spec fn starts_with_ci(v: Seq<u8>, p: Seq<u8>) -> bool {
    v.len() >= p.len() && same_name(v.subrange(0, p.len() as int), p)
}

/// An absolute `http` or `https` URL with a non-empty authority.
pub open spec fn is_http_url(u: Seq<u8>) -> bool {
    (starts_with_ci(u, http_prefix_name()) && u.len() > 7 && u[7] != 47) || (starts_with_ci(
        u,
        https_prefix_name(),
    ) && u.len() > 8 && u[8] != 47)
}

/// The value of the first `url=` field among the `&`-separated fields that
/// start at `s` or later.
pub open spec fn param_from(v: Seq<u8>, s: int) -> Option<Seq<u8>>
    decreases v.len() - s,
{
    let e = next_index(v, 38, s);
    if 0 <= s <= v.len() && s <= e {
        if starts_with_ci(v.subrange(s, e), url_param_name()) {
            Some(v.subrange(s + 4, e))
        } else if e < v.len() {
            param_from(v, e + 1)
        } else {
            None
        }
    } else {
        None
    }
}

/// The URL a plain-forward request asks for under `mode`, if it names a valid one.
pub open spec fn plain_target_spec(mode: TargetMode, uri: Seq<u8>) -> Option<Seq<u8>> {
    match mode {
        TargetMode::RequestUri => if is_http_url(uri) {
            Some(uri)
        } else {
            None
        },
        TargetMode::UrlParam => {
            let q = next_index(uri, 63, 0);
            if q < uri.len() {
                match param_from(uri, q + 1) {
                    Some(u) => if is_http_url(u) {
                        Some(u)
                    } else {
                        None
                    },
                    None => None,
                }
            } else {
                None
            }
        },
    }
}

proof fn lemma_next_index(v: Seq<u8>, b: u8, i: int)
    requires
        0 <= i <= v.len(),
    ensures
        i <= next_index(v, b, i) <= v.len(),
        next_index(v, b, i) < v.len() ==> v[next_index(v, b, i)] == b,
    decreases v.len() - i,
{
    if i < v.len() && v[i] != b {
        lemma_next_index(v, b, i + 1);
    }
}

fn find_next(v: &[u8], b: u8, i: usize) -> (r: usize)
    requires
        i <= v@.len(),
    ensures
        r as int == next_index(v@, b, i as int),
{
    let mut k = i;
    while k < v.len() && v[k] != b
        invariant
            i <= k <= v@.len(),
            next_index(v@, b, k as int) == next_index(v@, b, i as int),
        decreases v@.len() - k,
    {
        k = k + 1;
    }
    k
}

fn starts_with_at(v: &[u8], s: usize, e: usize, p: &[u8]) -> (r: bool)
    requires
        s <= e <= v@.len(),
    ensures
        r == starts_with_ci(v@.subrange(s as int, e as int), p@),
{
    if e - s < p.len() {
        return false;
    }
    let r = same_name_at(v, s, s + p.len(), p);
    assert(v@.subrange(s as int, e as int).subrange(0, p@.len() as int) =~= v@.subrange(
        s as int,
        s + p@.len(),
    ));
    r
}

fn copy_range(v: &[u8], s: usize, e: usize) -> (r: Vec<u8>)
    requires
        s <= e <= v@.len(),
    ensures
        r@ == v@.subrange(s as int, e as int),
{
    let mut out: Vec<u8> = Vec::new();
    let mut i = s;
    while i < e
        invariant
            s <= i <= e <= v@.len(),
            out@ == v@.subrange(s as int, i as int),
        decreases e - i,
    {
        out.push(v[i]);
        assert(out@ =~= v@.subrange(s as int, i + 1));
        i = i + 1;
    }
    out
}

/// Whether `u` is an absolute `http` or `https` URL with a non-empty authority.
pub fn is_http_url_exec(u: &[u8]) -> (r: bool)
    ensures
        r == is_http_url(u@),
{
    let n = u.len();
    let http = http_prefix_bytes();
    let https = https_prefix_bytes();
    assert(u@.subrange(0, n as int) =~= u@);
    (starts_with_at(u, 0, n, http.as_slice()) && n > 7 && u[7] != 47) || (starts_with_at(
        u,
        0,
        n,
        https.as_slice(),
    ) && n > 8 && u[8] != 47)
}

/// The value of the first `url=` field of the query that starts at `s`.
fn find_param(v: &[u8], start: usize) -> (r: Option<Vec<u8>>)
    requires
        start <= v@.len(),
    ensures
        r matches Some(x) ==> param_from(v@, start as int) == Some(x@),
        r is None ==> param_from(v@, start as int) is None,
{
    let key = url_param_bytes();
    let mut s = start;
    loop
        invariant
            s <= v@.len(),
            key@ == url_param_name(),
            param_from(v@, s as int) == param_from(v@, start as int),
        decreases v@.len() - s,
    {
        let e = find_next(v, 38, s);
        proof {
            lemma_next_index(v@, 38, s as int);
        }
        if starts_with_at(v, s, e, key.as_slice()) {
            assert(param_from(v@, s as int) == Some(v@.subrange(s + 4, e as int)));
            return Some(copy_range(v, s + 4, e));
        }
        if e >= v.len() {
            return None;
        }
        s = e + 1;
    }
}

/// Resolves the URL a plain-forward request asks for; `None` is a bad target.
pub fn resolve_target(mode: TargetMode, uri: &[u8]) -> (r: Option<Vec<u8>>)
    ensures
        r matches Some(x) ==> plain_target_spec(mode, uri@) == Some(x@),
        r is None ==> plain_target_spec(mode, uri@) is None,
{
    match mode {
        TargetMode::RequestUri => {
            if is_http_url_exec(uri) {
                Some(copy_range(uri, 0, uri.len()))
            } else {
                None
            }
        },
        TargetMode::UrlParam => {
            let q = find_next(uri, 63, 0);
            if q >= uri.len() {
                return None;
            }
            match find_param(uri, q + 1) {
                Some(u) => if is_http_url_exec(u.as_slice()) {
                    Some(u)
                } else {
                    None
                },
                None => None,
            }
        },
    }
}

} // verus!
