use vstd::prelude::*;

use crate::headers::{eq_ignore_case, same_name, view_all, Header};
use crate::names::{
    authorization_bytes, bearer_scheme_name, authorization_name, proxy_authorization_bytes, proxy_authorization_name,
    proxy_user_bytes, proxy_user_name,
};

verus! {

/// How a caller presents the proxy credential; exactly one is active per configuration.
#[derive(Clone, Copy, PartialEq, Eq, Debug, Structural)]
pub enum AuthScheme {
    /// `Authorization: Bearer <token>`.
    Bearer,
    /// `Proxy-Authorization: Basic ...` with the fixed user name `proxy`.
    ProxyBasic,
}

/// The outcome of checking a caller's credential; it carries no secret.
#[derive(Clone, Copy, PartialEq, Eq, Debug, Structural)]
pub enum AuthResult {
    Authorized,
    Unauthorized,
}

/// The first position at or after `i` that is not a space, or `v.len()`.
pub open spec fn skip_spaces(v: Seq<u8>, i: int) -> int
    decreases v.len() - i,
{
    if 0 <= i < v.len() && v[i] == 32 {
        skip_spaces(v, i + 1)
    } else {
        i
    }
}

/// The token of a `Bearer <token>` value: the scheme in any case, one
/// separator byte, spaces skipped, then a non-empty run of visible ASCII.
pub open spec fn bearer_spec(v: Seq<u8>) -> Option<Seq<u8>> {
    let rest = v.subrange(7, v.len() as int);
    let p = skip_spaces(rest, 0);
    if v.len() > 7 && same_name(v.subrange(0, 6), bearer_scheme_name()) && v[6] < 128 && p
        < rest.len() && (forall|i: int| p <= i < rest.len() ==> 32 <= #[trigger] rest[i] < 127) {
        Some(rest.subrange(p, rest.len() as int))
    } else {
        None
    }
}

/// The (user, password) pair that rama's `Basic` parser reads out of a
/// `Proxy-Authorization` value.
pub uninterp spec fn basic_pair_of(v: Seq<u8>) -> Option<(Seq<u8>, Seq<u8>)>;

/// Relies on `rama::net::user::Bearer::try_from_header_str` on the value read as
/// UTF-8: longer than `Bearer` and one byte, the scheme compared without case,
/// leading spaces of the rest skipped, and the token non-empty visible ASCII.
/// The separator byte is ASCII because the whole value must be UTF-8 while the
/// byte after it is ASCII.
#[verifier::external_body]
fn decode_bearer(value: &[u8]) -> (r: Option<Vec<u8>>)
    ensures
        r matches Some(t) ==> bearer_spec(value@) == Some(t@),
        r is None ==> bearer_spec(value@) is None,
{
    match std::str::from_utf8(value) {
        Ok(s) => match rama::net::user::Bearer::try_from_header_str(s) {
            Ok(b) => Some(b.token().as_bytes().to_vec()),
            Err(_) => None,
        },
        Err(_) => None,
    }
}

/// Relies on `rama::net::user::Basic::try_from_header_str`: it base64-decodes a
/// `Basic ...` value into user name and password. A value that is not UTF-8
/// has no credentials.
#[verifier::external_body]
fn decode_basic(value: &[u8]) -> (r: Option<(Vec<u8>, Vec<u8>)>)
    ensures
        r matches Some(p) ==> basic_pair_of(value@) == Some((p.0@, p.1@)),
        r is None ==> basic_pair_of(value@) is None,
{
    match std::str::from_utf8(value) {
        Ok(s) => match rama::net::user::Basic::try_from_header_str(s) {
            Ok(b) => Some((b.username().as_bytes().to_vec(), b.password().as_bytes().to_vec())),
            Err(_) => None,
        },
        Err(_) => None,
    }
}

proof fn lemma_or_xor_zero(d: u8, x: u8, y: u8)
    ensures
        (d | (x ^ y)) == 0 <==> (d == 0 && x == y),
{
    assert((d | (x ^ y)) == 0 <==> (d == 0 && x == y)) by (bit_vector);
}

/// Byte-string equality whose running time depends on the lengths only: every
/// position is visited, whatever position first differs.
pub fn ct_eq(a: &[u8], b: &[u8]) -> (r: bool)
    ensures
        r == (a@ == b@),
{
    let n: usize = if a.len() > b.len() {
        a.len()
    } else {
        b.len()
    };
    let mut diff: u8 = if a.len() == b.len() {
        0
    } else {
        1
    };
    let mut i: usize = 0;
    while i < n
        invariant
            i <= n,
            n == if a@.len() > b@.len() {
                a@.len()
            } else {
                b@.len()
            },
            (diff == 0) == (a@.len() == b@.len() && forall|k: int|
                0 <= k < i ==> #[trigger] a@[k] == b@[k]),
        decreases n - i,
    {
        let x: u8 = if i < a.len() {
            a[i]
        } else {
            0
        };
        let y: u8 = if i < b.len() {
            b[i]
        } else {
            0
        };
        proof {
            lemma_or_xor_zero(diff, x, y);
        }
        diff = diff | (x ^ y);
        i = i + 1;
    }
    if diff == 0 {
        assert(a@ =~= b@);
    }
    diff == 0
}

/// The caller is authorized exactly when a token was presented and it equals
/// the configured one; the comparison takes constant time.
pub fn authenticate(presented: Option<&[u8]>, configured: &[u8]) -> (r: AuthResult)
    ensures
        (r == AuthResult::Authorized) <==> (presented matches Some(t) && t@ == configured@),
{
    match presented {
        Some(t) => {
            if ct_eq(t, configured) {
                AuthResult::Authorized
            } else {
                AuthResult::Unauthorized
            }
        },
        None => AuthResult::Unauthorized,
    }
}

/// The value of the first header of `h` named `name`, if any.
pub open spec fn first_value(h: Seq<(Seq<u8>, Seq<u8>)>, name: Seq<u8>) -> Option<Seq<u8>>
    decreases h.len(),
{
    if h.len() == 0 {
        None
    } else if same_name(h[0].0, name) {
        Some(h[0].1)
    } else {
        first_value(h.drop_first(), name)
    }
}

/// The header that carries the credential under `scheme`.
pub open spec fn credential_header(scheme: AuthScheme) -> Seq<u8> {
    match scheme {
        AuthScheme::Bearer => authorization_name(),
        AuthScheme::ProxyBasic => proxy_authorization_name(),
    }
}

/// The token a request presents under `scheme`: the bearer token, or the
/// password of Basic credentials whose user name is `proxy`.
pub open spec fn presented_spec(scheme: AuthScheme, h: Seq<(Seq<u8>, Seq<u8>)>) -> Option<
    Seq<u8>,
> {
    match first_value(h, credential_header(scheme)) {
        None => None,
        Some(v) => match scheme {
            AuthScheme::Bearer => bearer_spec(v),
            AuthScheme::ProxyBasic => match basic_pair_of(v) {
                Some(p) => if p.0 == proxy_user_name() {
                    Some(p.1)
                } else {
                    None
                },
                None => None,
            },
        },
    }
}

/// The value of the first header named `name`.
pub fn find_value(headers: &Vec<Header>, name: &[u8]) -> (r: Option<Vec<u8>>)
    ensures
        r matches Some(v) ==> first_value(view_all(headers@), name@) == Some(v@),
        r is None ==> first_value(view_all(headers@), name@) is None,
{
    let ghost all = view_all(headers@);
    let mut i: usize = 0;
    assert(all.subrange(0, all.len() as int) =~= all);
    while i < headers.len()
        invariant
            i <= headers@.len(),
            all == view_all(headers@),
            first_value(all, name@) == first_value(all.subrange(i as int, all.len() as int), name@),
        decreases headers@.len() - i,
    {
        let h = &headers[i];
        let ghost rest = all.subrange(i as int, all.len() as int);
        assert(rest[0] == h@);
        if eq_ignore_case(h.name.as_slice(), name) {
            return Some(h.value.clone());
        }
        assert(rest.drop_first() =~= all.subrange(i + 1, all.len() as int));
        i = i + 1;
    }
    None
}

/// Reads the credential a request presents under `scheme`.
pub fn presented_token(scheme: AuthScheme, headers: &Vec<Header>) -> (r: Option<Vec<u8>>)
    ensures
        r matches Some(t) ==> presented_spec(scheme, view_all(headers@)) == Some(t@),
        r is None ==> presented_spec(scheme, view_all(headers@)) is None,
{
    let name = match scheme {
        AuthScheme::Bearer => authorization_bytes(),
        AuthScheme::ProxyBasic => proxy_authorization_bytes(),
    };
    match find_value(headers, name.as_slice()) {
        None => None,
        Some(v) => match scheme {
            AuthScheme::Bearer => decode_bearer(v.as_slice()),
            AuthScheme::ProxyBasic => match decode_basic(v.as_slice()) {
                Some(p) => {
                    let user = proxy_user_bytes();
                    if ct_eq(p.0.as_slice(), user.as_slice()) {
                        Some(p.1)
                    } else {
                        None
                    }
                },
                None => None,
            },
        },
    }
}

/// Reads the credential of a request and checks it against the configured one.
pub fn authenticate_request(scheme: AuthScheme, headers: &Vec<Header>, configured: &[u8]) -> (r:
    AuthResult)
    ensures
        (r == AuthResult::Authorized) <==> (presented_spec(scheme, view_all(headers@)) == Some(
            configured@,
        )),
{
    let t = presented_token(scheme, headers);
    match t {
        Some(t) => authenticate(Some(t.as_slice()), configured),
        None => authenticate(None, configured),
    }
}

} // verus!
