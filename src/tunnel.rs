use vstd::prelude::*;

use crate::router::ProxyError;
use crate::target::{authority_spec, parse_authority, Authority};

verus! {

/// The status sent once a CONNECT target has been accepted.
pub const ESTABLISHED: u16 = 200;

/// Where a CONNECT session stands.
#[derive(Clone, Copy, PartialEq, Eq, Debug, Structural)]
pub enum TunnelState {
    AwaitingHandshake,
    Accepted,
    Relaying,
    Closed,
}

/// One end of a tunnel.
#[derive(Clone, Copy, PartialEq, Eq, Debug, Structural)]
pub enum Side {
    Client,
    Upstream,
}

/// How one direction of a relay stopped.
#[derive(Clone, Copy, PartialEq, Eq, Debug, Structural)]
pub enum EndKind {
    Eof,
    Reset,
    BrokenPipe,
    Other,
}

/// A counter that sticks at the largest `u64`.
pub open spec fn sat(n: int) -> u64 {
    if n > u64::MAX {
        u64::MAX
    } else {
        n as u64
    }
}

/// One CONNECT session: its state, its byte counters, and a record of the
/// bytes read from and written to each side.
pub struct TunnelSession {
    pub state: TunnelState,
    /// Bytes relayed from the client to the upstream.
    pub bytes_upstream: u64,
    /// Bytes relayed from the upstream to the client.
    pub bytes_downstream: u64,
    pub from_client: Ghost<Seq<u8>>,
    pub to_upstream: Ghost<Seq<u8>>,
    pub from_upstream: Ghost<Seq<u8>>,
    pub to_client: Ghost<Seq<u8>>,
}

impl TunnelSession {
    /// What was written to each side is exactly what was read from the
    /// other, in order, and the counters count it.
    pub open spec fn wf(&self) -> bool {
        &&& self.to_client@ == self.from_upstream@
        &&& self.to_upstream@ == self.from_client@
        &&& self.bytes_upstream == sat(self.to_upstream@.len() as int)
        &&& self.bytes_downstream == sat(self.to_client@.len() as int)
    }

    pub fn new() -> (r: TunnelSession)
        ensures
            r.wf(),
            r.state == TunnelState::AwaitingHandshake,
            r.bytes_upstream == 0,
            r.bytes_downstream == 0,
            r.to_client@.len() == 0,
            r.to_upstream@.len() == 0,
    {
        TunnelSession {
            state: TunnelState::AwaitingHandshake,
            bytes_upstream: 0,
            bytes_downstream: 0,
            from_client: Ghost(Seq::empty()),
            to_upstream: Ghost(Seq::empty()),
            from_upstream: Ghost(Seq::empty()),
            to_client: Ghost(Seq::empty()),
        }
    }

    /// Reads the CONNECT target. A valid `host:port` accepts the session (the
    /// caller answers `200` and dials); anything else closes it with `BadTarget`.
    pub fn handshake(&mut self, target: &[u8]) -> (r: Result<Authority, ProxyError>)
        requires
            old(self).state == TunnelState::AwaitingHandshake,
            old(self).wf(),
        ensures
            final(self).wf(),
            final(self).bytes_upstream == old(self).bytes_upstream,
            final(self).bytes_downstream == old(self).bytes_downstream,
            match authority_spec(target@) {
                Some(p) => final(self).state == TunnelState::Accepted && (r matches Ok(a)
                    && a.host@ == p.0 && a.port as int == p.1),
                None => final(self).state == TunnelState::Closed && r == Err::<
                    Authority,
                    ProxyError,
                >(ProxyError::BadTarget),
            },
    {
        match parse_authority(target) {
            Some(a) => {
                self.state = TunnelState::Accepted;
                Ok(a)
            },
            None => {
                self.state = TunnelState::Closed;
                Err(ProxyError::BadTarget)
            },
        }
    }

    /// Records the outcome of dialing the upstream: relaying starts, or the
    /// session closes without a further response.
    pub fn dialed(&mut self, ok: bool)
        requires
            old(self).state == TunnelState::Accepted,
            old(self).wf(),
        ensures
            final(self).wf(),
            final(self).state == if ok {
                TunnelState::Relaying
            } else {
                TunnelState::Closed
            },
            final(self).bytes_upstream == old(self).bytes_upstream,
            final(self).bytes_downstream == old(self).bytes_downstream,
    {
        self.state = if ok {
            TunnelState::Relaying
        } else {
            TunnelState::Closed
        };
    }

    /// Relays one chunk read from side `from`: the bytes to write to the other
    /// side are the chunk itself, and the counter of that direction grows by its length.
    pub fn relay(&mut self, from: Side, chunk: Vec<u8>) -> (r: Vec<u8>)
        requires
            old(self).state == TunnelState::Relaying,
            old(self).wf(),
        ensures
            final(self).wf(),
            final(self).state == TunnelState::Relaying,
            r@ == chunk@,
            from == Side::Client ==> {
                &&& final(self).from_client@ == old(self).from_client@ + chunk@
                &&& final(self).to_upstream@ == old(self).to_upstream@ + chunk@
                &&& final(self).from_upstream@ == old(self).from_upstream@
                &&& final(self).bytes_upstream == sat(
                    old(self).bytes_upstream as int + chunk@.len(),
                )
                &&& final(self).bytes_downstream == old(self).bytes_downstream
            },
            from == Side::Upstream ==> {
                &&& final(self).from_upstream@ == old(self).from_upstream@ + chunk@
                &&& final(self).to_client@ == old(self).to_client@ + chunk@
                &&& final(self).from_client@ == old(self).from_client@
                &&& final(self).bytes_downstream == sat(
                    old(self).bytes_downstream as int + chunk@.len(),
                )
                &&& final(self).bytes_upstream == old(self).bytes_upstream
            },
    {
        let n = chunk.len() as u64;
        match from {
            Side::Client => {
                self.from_client = Ghost(self.from_client@ + chunk@);
                self.to_upstream = Ghost(self.to_upstream@ + chunk@);
                self.bytes_upstream = self.bytes_upstream.saturating_add(n);
            },
            Side::Upstream => {
                self.from_upstream = Ghost(self.from_upstream@ + chunk@);
                self.to_client = Ghost(self.to_client@ + chunk@);
                self.bytes_downstream = self.bytes_downstream.saturating_add(n);
            },
        }
        chunk
    }

    /// Either direction ending ends the whole session. Returns whether the end
    /// is worth an error report: peer disconnects and end of stream are not.
    pub fn end(&mut self, kind: EndKind) -> (log_error: bool)
        requires
            old(self).wf(),
        ensures
            final(self).wf(),
            final(self).state == TunnelState::Closed,
            final(self).bytes_upstream == old(self).bytes_upstream,
            final(self).bytes_downstream == old(self).bytes_downstream,
            final(self).to_client@ == old(self).to_client@,
            final(self).to_upstream@ == old(self).to_upstream@,
            log_error == (kind == EndKind::Other),
    {
        self.state = TunnelState::Closed;
        kind == EndKind::Other
    }
}

/// Relay fidelity: in every well-formed session, the bytes written to the
/// client are the bytes read from the upstream, in order, and the bytes
/// written to the upstream are the bytes read from the client.
pub proof fn relay_fidelity(s: TunnelSession)
    requires
        s.wf(),
    ensures
        s.to_client@ == s.from_upstream@,
        s.to_upstream@ == s.from_client@,
{
}

} // verus!
