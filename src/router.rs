use vstd::prelude::*;

use crate::auth::{authenticate_request, ct_eq, credential_header, presented_spec, AuthResult, AuthScheme};
use crate::config::ProxyConfig;
use crate::headers::{
    eq_ignore_case, same_name, sanitize, sanitize_idempotent, sanitized, view_all, Direction, Header,
};
use crate::names::{
    authorization_bytes, bad_gateway_body, bad_gateway_body_bytes, bad_target_body,
    bad_target_body_bytes, connect_method_bytes, connect_method_name, internal_body,
    internal_body_bytes, not_found_body, not_found_body_bytes, proxy_authorization_bytes,
    too_large_body, too_large_body_bytes, unauthorized_body, unauthorized_body_bytes,
};
use crate::target::{
    authority_spec, parse_authority, plain_target_spec, resolve_target, Authority,
};

verus! {

/// A request as the proxy receives it.
pub struct InboundRequest {
    pub method: Vec<u8>,
    /// `host:port` for CONNECT; the request URI otherwise.
    pub target: Vec<u8>,
    pub headers: Vec<Header>,
}

/// The request the proxy sends on to the upstream.
pub struct OutboundRequest {
    pub method: Vec<u8>,
    pub url: Vec<u8>,
    pub headers: Vec<Header>,
}

/// A response as the proxy hands it back to its caller.
pub struct Response {
    pub status: u16,
    pub headers: Vec<Header>,
    pub body: Vec<u8>,
}

/// Failures of a request, each turned into a status and a short body.
#[derive(Clone, Copy, PartialEq, Eq, Debug, Structural)]
pub enum ProxyError {
    Unauthorized,
    BadTarget,
    UpstreamUnreachable,
    BodyTooLarge,
    InternalFault,
    NotFound,
}

/// What the router decided to do with a request.
pub enum Decision {
    /// Answer at once.
    Respond(Response),
    /// Answer `200 Connection Established` and relay bytes to this authority.
    Tunnel(Authority),
    /// Send this request upstream and relay its response.
    Forward(OutboundRequest),
}

/// How an upstream exchange went wrong.
#[derive(Clone, Copy, PartialEq, Eq, Debug, Structural)]
pub enum UpstreamFailure {
    Connect,
    Dns,
    Tls,
    Timeout,
    Other,
}

/// The status that reports `e`.
pub open spec fn status_spec(e: ProxyError) -> u16 {
    match e {
        ProxyError::Unauthorized => 401,
        ProxyError::BadTarget => 400,
        ProxyError::UpstreamUnreachable => 502,
        ProxyError::BodyTooLarge => 502,
        ProxyError::InternalFault => 500,
        ProxyError::NotFound => 404,
    }
}

/// The short, fixed body that reports `e`; it never carries upstream or internal detail.
pub open spec fn body_spec(e: ProxyError) -> Seq<u8> {
    match e {
        ProxyError::Unauthorized => unauthorized_body(),
        ProxyError::BadTarget => bad_target_body(),
        ProxyError::UpstreamUnreachable => bad_gateway_body(),
        ProxyError::BodyTooLarge => too_large_body(),
        ProxyError::InternalFault => internal_body(),
        ProxyError::NotFound => not_found_body(),
    }
}

/// Dial, name resolution, TLS and timeout failures all mean the upstream is unreachable.
pub open spec fn failure_spec(f: UpstreamFailure) -> ProxyError {
    match f {
        UpstreamFailure::Other => ProxyError::InternalFault,
        _ => ProxyError::UpstreamUnreachable,
    }
}

impl ProxyError {
    pub fn status(&self) -> (r: u16)
        ensures
            r == status_spec(*self),
    {
        match self {
            ProxyError::Unauthorized => 401,
            ProxyError::BadTarget => 400,
            ProxyError::UpstreamUnreachable => 502,
            ProxyError::BodyTooLarge => 502,
            ProxyError::InternalFault => 500,
            ProxyError::NotFound => 404,
        }
    }

    pub fn body(&self) -> (r: Vec<u8>)
        ensures
            r@ == body_spec(*self),
    {
        match self {
            ProxyError::Unauthorized => unauthorized_body_bytes(),
            ProxyError::BadTarget => bad_target_body_bytes(),
            ProxyError::UpstreamUnreachable => bad_gateway_body_bytes(),
            ProxyError::BodyTooLarge => too_large_body_bytes(),
            ProxyError::InternalFault => internal_body_bytes(),
            ProxyError::NotFound => not_found_body_bytes(),
        }
    }

    /// The response that reports this error: its status, its fixed body, no headers.
    pub fn to_response(&self) -> (r: Response)
        ensures
            r.status == status_spec(*self),
            r.body@ == body_spec(*self),
            r.headers@.len() == 0,
    {
        Response { status: self.status(), headers: Vec::new(), body: self.body() }
    }
}

/// Maps how the upstream exchange failed to the error the caller sees.
pub fn classify_failure(f: UpstreamFailure) -> (r: ProxyError)
    ensures
        r == failure_spec(f),
{
    match f {
        UpstreamFailure::Other => ProxyError::InternalFault,
        _ => ProxyError::UpstreamUnreachable,
    }
}

/// A method token: non-empty upper-case ASCII letters.
pub open spec fn is_method(m: Seq<u8>) -> bool {
    m.len() > 0 && forall|i: int| 0 <= i < m.len() ==> 65 <= #[trigger] m[i] <= 90
}

fn is_method_exec(m: &[u8]) -> (r: bool)
    ensures
        r == is_method(m@),
{
    if m.len() == 0 {
        return false;
    }
    let mut i: usize = 0;
    while i < m.len()
        invariant
            i <= m@.len(),
            forall|k: int| 0 <= k < i ==> 65 <= #[trigger] m@[k] <= 90,
        decreases m@.len() - i,
    {
        if m[i] < 65 || m[i] > 90 {
            return false;
        }
        i = i + 1;
    }
    true
}

/// `h` without the headers named `name`, in order.
pub open spec fn without(h: Seq<(Seq<u8>, Seq<u8>)>, name: Seq<u8>) -> Seq<(Seq<u8>, Seq<u8>)>
    decreases h.len(),
{
    if h.len() == 0 {
        seq![]
    } else {
        let r = without(h.drop_last(), name);
        if same_name(h.last().0, name) {
            r
        } else {
            r.push(h.last())
        }
    }
}

/// Drops every header named `name`.
pub fn remove_named(headers: &Vec<Header>, name: &[u8]) -> (r: Vec<Header>)
    ensures
        view_all(r@) == without(view_all(headers@), name@),
{
    let ghost all = view_all(headers@);
    let mut out: Vec<Header> = Vec::new();
    let mut i: usize = 0;
    while i < headers.len()
        invariant
            i <= headers@.len(),
            all == view_all(headers@),
            view_all(out@) == without(all.subrange(0, i as int), name@),
        decreases headers@.len() - i,
    {
        let h = &headers[i];
        proof {
            assert(all.subrange(0, i + 1).drop_last() =~= all.subrange(0, i as int));
            assert(all.subrange(0, i + 1).last() == h@);
        }
        if !eq_ignore_case(h.name.as_slice(), name) {
            let ghost before = view_all(out@);
            out.push(h.copy());
            assert(view_all(out@) =~= before.push(h@));
        }
        i = i + 1;
    }
    assert(all.subrange(0, headers@.len() as int) =~= all);
    out
}

/// The headers sent upstream: the proxy credential never leaves the proxy,
/// hop-by-hop headers are stripped and the configured `User-Agent` is set.
pub open spec fn outbound_spec(
    scheme: AuthScheme,
    ua: Seq<u8>,
    h: Seq<(Seq<u8>, Seq<u8>)>,
) -> Seq<(Seq<u8>, Seq<u8>)> {
    sanitized(without(h, credential_header(scheme)), Direction::OutboundRequest, ua)
}

/// The request is authorized under the configuration.
pub open spec fn authorized_spec(cfg: &ProxyConfig, req: &InboundRequest) -> bool {
    presented_spec(cfg.auth_scheme, view_all(req.headers@)) == Some(cfg.auth_token@)
}

/// The request opens a tunnel.
pub open spec fn is_tunnel_spec(cfg: &ProxyConfig, req: &InboundRequest) -> bool {
    req.method@ == connect_method_name() && cfg.tunnel_enabled
}

/// The request has no route: CONNECT while tunnelling is off, or no method.
pub open spec fn unrouted_spec(cfg: &ProxyConfig, req: &InboundRequest) -> bool {
    !is_tunnel_spec(cfg, req) && (req.method@ == connect_method_name() || !is_method(req.method@))
}

/// A response reporting `e`.
pub open spec fn reports(d: Decision, e: ProxyError) -> bool {
    d matches Decision::Respond(resp) && resp.status == status_spec(e) && resp.body@ == body_spec(
        e,
    ) && resp.headers@.len() == 0
}

/// Decides what to do with an inbound request: authenticate first, then
/// tunnel a CONNECT, forward anything else, or answer with an error. Nothing
/// is forwarded or tunnelled for an unauthorized caller.
pub fn route(cfg: &ProxyConfig, req: &InboundRequest) -> (r: Decision)
    requires
        cfg.wf(),
    ensures
        !authorized_spec(cfg, req) ==> reports(r, ProxyError::Unauthorized),
        authorized_spec(cfg, req) && is_tunnel_spec(cfg, req) ==> match authority_spec(
            req.target@,
        ) {
            Some(p) => r matches Decision::Tunnel(a) && a.host@ == p.0 && a.port as int == p.1,
            None => reports(r, ProxyError::BadTarget),
        },
        authorized_spec(cfg, req) && unrouted_spec(cfg, req) ==> reports(r, ProxyError::NotFound),
        authorized_spec(cfg, req) && !is_tunnel_spec(cfg, req) && !unrouted_spec(cfg, req)
            ==> match plain_target_spec(cfg.target_mode, req.target@) {
            Some(u) => r matches Decision::Forward(o) && o.url@ == u && o.method@ == req.method@
                && view_all(o.headers@) == outbound_spec(
                cfg.auth_scheme,
                cfg.user_agent@,
                view_all(req.headers@),
            ) && sanitized(view_all(o.headers@), Direction::OutboundRequest, cfg.user_agent@)
                == view_all(o.headers@),
            None => reports(r, ProxyError::BadTarget),
        },
{
    let auth = authenticate_request(cfg.auth_scheme, &req.headers, cfg.auth_token.as_slice());
    if auth == AuthResult::Unauthorized {
        return Decision::Respond(ProxyError::Unauthorized.to_response());
    }
    let connect = connect_method_bytes();
    let is_connect = ct_eq(req.method.as_slice(), connect.as_slice());
    if is_connect && cfg.tunnel_enabled {
        return match parse_authority(req.target.as_slice()) {
            Some(a) => Decision::Tunnel(a),
            None => Decision::Respond(ProxyError::BadTarget.to_response()),
        };
    }
    if is_connect || !is_method_exec(req.method.as_slice()) {
        return Decision::Respond(ProxyError::NotFound.to_response());
    }
    match resolve_target(cfg.target_mode, req.target.as_slice()) {
        None => Decision::Respond(ProxyError::BadTarget.to_response()),
        Some(url) => {
            let cred = match cfg.auth_scheme {
                AuthScheme::Bearer => authorization_bytes(),
                AuthScheme::ProxyBasic => proxy_authorization_bytes(),
            };
            let stripped = remove_named(&req.headers, cred.as_slice());
            let headers = sanitize(
                Direction::OutboundRequest,
                &stripped,
                cfg.user_agent.as_slice(),
            );
            proof {
                sanitize_idempotent(
                    view_all(stripped@),
                    Direction::OutboundRequest,
                    cfg.user_agent@,
                );
            }
            Decision::Forward(OutboundRequest { method: req.method.clone(), url, headers })
        },
    }
}

/// What the upstream answered.
pub struct UpstreamResponse {
    pub status: u16,
    pub headers: Vec<Header>,
    pub body: Vec<u8>,
}

/// Turns the outcome of an upstream exchange into the caller's response: the
/// upstream status and body verbatim with hop-by-hop headers stripped, or an
/// error response. A body over the limit is an error, never cut short.
pub fn finish_forward(cfg: &ProxyConfig, outcome: Result<UpstreamResponse, UpstreamFailure>) -> (r:
    Response)
    ensures
        match outcome {
            Ok(u) => if u.body@.len() <= cfg.body_limit_bytes {
                &&& r.status == u.status
                &&& r.body@ == u.body@
                &&& view_all(r.headers@) == sanitized(
                    view_all(u.headers@),
                    Direction::InboundResponse,
                    seq![],
                )
            } else {
                &&& r.status == status_spec(ProxyError::BodyTooLarge)
                &&& r.body@ == body_spec(ProxyError::BodyTooLarge)
                &&& r.headers@.len() == 0
            },
            Err(f) => {
                &&& r.status == status_spec(failure_spec(f))
                &&& r.body@ == body_spec(failure_spec(f))
                &&& r.headers@.len() == 0
            },
        },
{
    match outcome {
        Ok(u) => {
            if u.body.len() > cfg.body_limit_bytes {
                return ProxyError::BodyTooLarge.to_response();
            }
            let empty: Vec<u8> = Vec::new();
            let headers = sanitize(Direction::InboundResponse, &u.headers, empty.as_slice());
            assert(empty@ =~= Seq::<u8>::empty());
            Response { status: u.status, headers, body: u.body }
        },
        Err(f) => classify_failure(f).to_response(),
    }
}

/// An unreachable upstream reports `502` whatever kind of failure made it
/// unreachable: a refused dial, a failed name lookup, TLS or a timeout.
pub proof fn forward_status_law(f: UpstreamFailure)
    requires
        f != UpstreamFailure::Other,
    ensures
        status_spec(failure_spec(f)) == 502,
{
}

} // verus!
