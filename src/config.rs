use vstd::prelude::*;

use crate::auth::AuthScheme;
use crate::target::{digits_value, is_digit, TargetMode};

verus! {

pub const DEFAULT_PORT: u16 = 7788;

pub const DEFAULT_BODY_LIMIT: usize = 2097152;

pub const DEFAULT_GRACE_SECS: u64 = 30;

pub const DEFAULT_REDIRECT_LIMIT: u32 = 3;

pub const DEFAULT_TIMEOUT_SECS: u64 = 5;

/// Process-wide settings, fixed at start-up and shared read-only by every handler.
pub struct ProxyConfig {
    pub listen_port: u16,
    pub auth_token: Vec<u8>,
    pub user_agent: Vec<u8>,
    pub body_limit_bytes: usize,
    pub shutdown_grace_secs: u64,
    pub redirect_limit: u32,
    pub request_timeout_secs: u64,
    pub auth_scheme: AuthScheme,
    pub target_mode: TargetMode,
    pub tunnel_enabled: bool,
}

/// Why the proxy cannot start.
#[derive(Clone, Copy, PartialEq, Eq, Debug, Structural)]
pub enum ConfigError {
    /// No secret, or an empty one, was configured.
    MissingToken,
    /// The listening port is not a number in 1..=65535.
    BadPort,
    /// The configured `User-Agent` holds a byte that no header value may hold.
    BadUserAgent,
}

/// A byte string that may stand as a header value: visible ASCII, space,
/// tab, or any byte from 128 up.
pub open spec fn is_header_value(v: Seq<u8>) -> bool {
    forall|i: int| 0 <= i < v.len() ==> (#[trigger] v[i] >= 32 && v[i] != 127) || v[i] == 9
}

/// Whether `v` may stand as a header value, by the rule `b >= 32 && b != 127`
/// or tab on every byte that the HTTP types apply.
pub fn header_value_ok(v: &[u8]) -> (r: bool)
    ensures
        r == is_header_value(v@),
{
    let mut i: usize = 0;
    while i < v.len()
        invariant
            i <= v@.len(),
            forall|k: int| 0 <= k < i ==> (#[trigger] v@[k] >= 32 && v@[k] != 127) || v@[k] == 9,
        decreases v@.len() - i,
    {
        let b = v[i];
        if !((b >= 32 && b != 127) || b == 9) {
            return false;
        }
        i = i + 1;
    }
    true
}

impl ProxyConfig {
    /// A configured secret is never empty.
    pub open spec fn wf(&self) -> bool {
        self.auth_token@.len() > 0
    }

    /// Builds the configuration with the default limits: a 2 MiB body limit,
    /// a 30 s shutdown grace, 3 redirects and a 5 s request timeout, Basic proxy
    /// authentication, targets taken from the request URI, CONNECT enabled.
    /// The secret must not be empty and the `User-Agent` must be a valid header value.
    pub fn new(listen_port: u16, auth_token: Vec<u8>, user_agent: Vec<u8>) -> (r: Result<
        ProxyConfig,
        ConfigError,
    >)
        ensures
            auth_token@.len() == 0 <==> r == Err::<ProxyConfig, ConfigError>(
                ConfigError::MissingToken,
            ),
            auth_token@.len() > 0 && !is_header_value(user_agent@) <==> r == Err::<
                ProxyConfig,
                ConfigError,
            >(ConfigError::BadUserAgent),
            auth_token@.len() > 0 && is_header_value(user_agent@) ==> r is Ok,
            r matches Ok(c) ==> {
                &&& c.wf()
                &&& c.listen_port == listen_port
                &&& c.auth_token@ == auth_token@
                &&& c.user_agent@ == user_agent@
                &&& c.body_limit_bytes == DEFAULT_BODY_LIMIT
                &&& c.shutdown_grace_secs == DEFAULT_GRACE_SECS
                &&& c.redirect_limit == DEFAULT_REDIRECT_LIMIT
                &&& c.request_timeout_secs == DEFAULT_TIMEOUT_SECS
                &&& c.auth_scheme == AuthScheme::ProxyBasic
                &&& c.target_mode == TargetMode::RequestUri
                &&& c.tunnel_enabled
            },
    {
        if auth_token.len() == 0 {
            return Err(ConfigError::MissingToken);
        }
        if !header_value_ok(user_agent.as_slice()) {
            return Err(ConfigError::BadUserAgent);
        }
        Ok(
            ProxyConfig {
                listen_port,
                auth_token,
                user_agent,
                body_limit_bytes: DEFAULT_BODY_LIMIT,
                shutdown_grace_secs: DEFAULT_GRACE_SECS,
                redirect_limit: DEFAULT_REDIRECT_LIMIT,
                request_timeout_secs: DEFAULT_TIMEOUT_SECS,
                auth_scheme: AuthScheme::ProxyBasic,
                target_mode: TargetMode::RequestUri,
                tunnel_enabled: true,
            },
        )
    }
}

/// A port setting: one to five digits with a value in 1..=65535.
pub open spec fn port_spec(s: Seq<u8>) -> Option<int> {
    if 1 <= s.len() <= 5 && (forall|i: int| 0 <= i < s.len() ==> is_digit(#[trigger] s[i])) && 1
        <= digits_value(s) <= 65535 {
        Some(digits_value(s))
    } else {
        None
    }
}

/// Reads a port setting; an absent one means the default port.
#[verifier::loop_isolation(false)]
pub fn parse_port(s: Option<&[u8]>) -> (r: Result<u16, ConfigError>)
    ensures
        s is None ==> r == Ok::<u16, ConfigError>(DEFAULT_PORT),
        s matches Some(v) ==> match port_spec(v@) {
            Some(p) => r matches Ok(q) && q as int == p,
            None => r == Err::<u16, ConfigError>(ConfigError::BadPort),
        },
{
    let v = match s {
        None => return Ok(DEFAULT_PORT),
        Some(v) => v,
    };
    let n = v.len();
    if n < 1 || n > 5 {
        return Err(ConfigError::BadPort);
    }
    let mut val: u32 = 0;
    let mut k: usize = 0;
    while k < n
        invariant
            k <= n,
            n == v@.len(),
            1 <= n <= 5,
            forall|i: int| 0 <= i < k ==> is_digit(#[trigger] v@[i]),
            val as int == digits_value(v@.subrange(0, k as int)),
            val < 100000,
        decreases n - k,
    {
        let d = v[k];
        if d < 48 || d > 57 {
            assert(!is_digit(v@[k as int]));
            return Err(ConfigError::BadPort);
        }
        proof {
            let t = v@.subrange(0, k + 1);
            assert(t.drop_last() =~= v@.subrange(0, k as int));
            assert forall|i: int| 0 <= i < t.len() implies is_digit(#[trigger] t[i]) by {
                assert(t[i] == v@[i]);
            }
            crate::target::lemma_digits_bound(t);
        }
        val = val * 10 + (d - 48) as u32;
        k = k + 1;
    }
    assert(v@.subrange(0, n as int) =~= v@);
    if val < 1 || val > 65535 {
        return Err(ConfigError::BadPort);
    }
    Ok(val as u16)
}

} // verus!
