//! The live session and the reconnect signal that the supervisor consumes.

use vstd::prelude::*;

verus! {

/// Why the supervisor's wait ended.
#[derive(Debug, Clone, Copy, PartialEq, Eq, Structural)]
pub enum WaitReason {
    Shutdown,
    Reconnect,
    Timeout,
}

/// Which session is live, by its id, and whether a reconnect was asked for.
#[derive(Debug)]
pub struct AdapterHandle {
    pub current: Option<u64>,
    pub reconnect_pending: bool,
}

impl AdapterHandle {
    /// Why a wait is over; `None` is to wait on.
    pub open spec fn reason(self, shutdown: bool, timed_out: bool) -> Option<WaitReason> {
        if shutdown {
            Some(WaitReason::Shutdown)
        } else if self.reconnect_pending {
            Some(WaitReason::Reconnect)
        } else if timed_out {
            Some(WaitReason::Timeout)
        } else {
            None
        }
    }

    /// The handle after a wait was looked at.
    pub open spec fn waited(self, shutdown: bool) -> AdapterHandle {
        AdapterHandle { reconnect_pending: self.reconnect_pending && shutdown, ..self }
    }

    pub fn new() -> (r: AdapterHandle)
        ensures
            r.current is None,
            !r.reconnect_pending,
    {
        AdapterHandle { current: None, reconnect_pending: false }
    }

    pub fn set(&mut self, session: Option<u64>)
        ensures
            *final(self) == (AdapterHandle { current: session, ..*old(self) }),
    {
        self.current = session;
    }

    pub fn get(&self) -> (r: Option<u64>)
        ensures
            r == self.current,
    {
        self.current
    }

    pub fn ready(&self) -> (r: bool)
        ensures
            r == self.current is Some,
    {
        self.current.is_some()
    }

    /// Asks the supervisor to tear down and reopen the session. Asking twice is asking once.
    pub fn signal_reconnect(&mut self)
        ensures
            *final(self) == (AdapterHandle { reconnect_pending: true, ..*old(self) }),
    {
        self.reconnect_pending = true;
    }

    /// Whether a wait is over: a shutdown ends it first, then a reconnect that was asked for (which
    /// is thereby consumed), then the timeout. `None` is to wait on.
    pub fn wait_for(&mut self, shutdown: bool, timed_out: bool) -> (r: Option<WaitReason>)
        ensures
            r == old(self).reason(shutdown, timed_out),
            *final(self) == old(self).waited(shutdown),
    {
        if shutdown {
            return Some(WaitReason::Shutdown);
        }
        if self.reconnect_pending {
            self.reconnect_pending = false;
            return Some(WaitReason::Reconnect);
        }
        if timed_out {
            return Some(WaitReason::Timeout);
        }
        None
    }
}

/// A reconnect that was asked for is told once, even where the wait has also run out, and no
/// reconnect is told that was not asked for; a shutdown comes before everything. The wait goes on
/// exactly where there is nothing to tell, and the session is left as it is.
pub proof fn law_reconnect_is_told_once(h: AdapterHandle, shutdown: bool, timed_out: bool)
    ensures
        (h.reason(shutdown, timed_out) == Some(WaitReason::Shutdown)) == shutdown,
        (h.reason(shutdown, timed_out) == Some(WaitReason::Reconnect)) == (!shutdown
            && h.reconnect_pending),
        (h.reason(shutdown, timed_out) is None) == (!shutdown && !h.reconnect_pending
            && !timed_out),
        h.reason(shutdown, timed_out) == Some(WaitReason::Reconnect) ==> h.waited(shutdown).reason(
            shutdown,
            timed_out,
        ) != Some(WaitReason::Reconnect),
        h.waited(shutdown).current == h.current,
{
}

} // verus!
