use vstd::prelude::*;

verus! {

/// Where the server stands in its lifetime.
#[derive(Clone, Copy, PartialEq, Eq, Debug, Structural)]
pub enum Phase {
    /// Accepting connections.
    Running,
    /// A termination signal came; in-flight sessions may still finish.
    Draining,
    /// Every session has finished or was closed.
    Done,
}

/// Tracks in-flight sessions and enforces a bounded grace period on termination.
#[derive(Clone, Copy, PartialEq, Eq, Debug, Structural)]
pub struct ShutdownCoordinator {
    pub phase: Phase,
    pub in_flight: u64,
    /// When draining, the instant (in seconds) after which remaining sessions are closed.
    pub deadline: u64,
    pub grace_secs: u64,
}

/// The state after a new connection asks to be served.
pub open spec fn accept_next(c: ShutdownCoordinator) -> ShutdownCoordinator {
    if accepts(c) {
        ShutdownCoordinator { in_flight: (c.in_flight + 1) as u64, ..c }
    } else {
        c
    }
}

/// A new connection is served only while running.
pub open spec fn accepts(c: ShutdownCoordinator) -> bool {
    c.phase == Phase::Running && c.in_flight < u64::MAX
}

/// The state after one in-flight session finished.
pub open spec fn finished_next(c: ShutdownCoordinator) -> ShutdownCoordinator {
    let n = if c.in_flight > 0 {
        (c.in_flight - 1) as u64
    } else {
        0
    };
    if c.phase == Phase::Draining && n == 0 {
        ShutdownCoordinator { phase: Phase::Done, in_flight: n, ..c }
    } else {
        ShutdownCoordinator { in_flight: n, ..c }
    }
}

/// The state after a termination signal at `now`; a second signal changes nothing.
pub open spec fn signal_next(c: ShutdownCoordinator, now: u64) -> ShutdownCoordinator {
    if c.phase == Phase::Running {
        let deadline = if now as int + c.grace_secs as int > u64::MAX {
            u64::MAX
        } else {
            (now + c.grace_secs) as u64
        };
        ShutdownCoordinator {
            phase: if c.in_flight == 0 {
                Phase::Done
            } else {
                Phase::Draining
            },
            deadline,
            ..c
        }
    } else {
        c
    }
}

/// The grace period has run out at `now`: remaining sessions are to be closed.
pub open spec fn expires(c: ShutdownCoordinator, now: u64) -> bool {
    c.phase == Phase::Draining && now >= c.deadline
}

/// The state after the clock reads `now`.
pub open spec fn tick_next(c: ShutdownCoordinator, now: u64) -> ShutdownCoordinator {
    if expires(c, now) {
        ShutdownCoordinator { phase: Phase::Done, in_flight: 0, ..c }
    } else {
        c
    }
}

impl ShutdownCoordinator {
    pub fn new(grace_secs: u64) -> (r: ShutdownCoordinator)
        ensures
            r.phase == Phase::Running,
            r.in_flight == 0,
            r.grace_secs == grace_secs,
    {
        ShutdownCoordinator { phase: Phase::Running, in_flight: 0, deadline: 0, grace_secs }
    }

    /// Admits a new connection if the server still accepts them.
    pub fn try_accept(&mut self) -> (r: bool)
        ensures
            r == accepts(*old(self)),
            *final(self) == accept_next(*old(self)),
    {
        if self.phase == Phase::Running && self.in_flight < u64::MAX {
            self.in_flight = self.in_flight + 1;
            true
        } else {
            false
        }
    }

    /// Records that an in-flight session finished.
    pub fn finished(&mut self)
        ensures
            *final(self) == finished_next(*old(self)),
    {
        if self.in_flight > 0 {
            self.in_flight = self.in_flight - 1;
        }
        if self.phase == Phase::Draining && self.in_flight == 0 {
            self.phase = Phase::Done;
        }
    }

    /// Receives a termination signal at `now` (seconds).
    pub fn signal(&mut self, now: u64)
        ensures
            *final(self) == signal_next(*old(self), now),
    {
        if self.phase == Phase::Running {
            self.deadline = self.grace_secs.saturating_add(now);
            self.phase = if self.in_flight == 0 {
                Phase::Done
            } else {
                Phase::Draining
            };
        }
    }

    /// Observes the clock at `now`; returns whether the remaining sessions
    /// must be closed because the grace period ran out.
    pub fn tick(&mut self, now: u64) -> (force_close: bool)
        ensures
            force_close == expires(*old(self), now),
            *final(self) == tick_next(*old(self), now),
    {
        if self.phase == Phase::Draining && now >= self.deadline {
            self.phase = Phase::Done;
            self.in_flight = 0;
            true
        } else {
            false
        }
    }

    pub fn is_done(&self) -> (r: bool)
        ensures
            r == (self.phase == Phase::Done),
    {
        self.phase == Phase::Done
    }
}

/// Once a termination signal has come, no connection is accepted again, no
/// step brings the server back to running, and by `grace` seconds after the
/// signal every session has finished or is closed.
pub proof fn shutdown_law(c: ShutdownCoordinator, t: u64, now: u64)
    requires
        c.phase == Phase::Running,
        now as int >= t as int + c.grace_secs as int,
    ensures
        ({
            let d = signal_next(c, t);
            &&& d.phase != Phase::Running
            &&& !accepts(d)
            &&& accept_next(d) == d
            &&& finished_next(d).phase != Phase::Running
            &&& signal_next(d, now) == d
            &&& tick_next(d, now).phase == Phase::Done
        }),
{
}

/// No transition leaves a stopped server running again.
pub proof fn stays_stopped(c: ShutdownCoordinator, now: u64)
    requires
        c.phase != Phase::Running,
    ensures
        !accepts(c),
        accept_next(c).phase != Phase::Running,
        finished_next(c).phase != Phase::Running,
        signal_next(c, now).phase != Phase::Running,
        tick_next(c, now).phase != Phase::Running,
{
}

} // verus!
