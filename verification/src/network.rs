//! The connectivity prober's state and decisions.
//!
//! The probing itself (an HTTP reachability check, the system bus's state
//! signals) is an external collaborator; what is specified here is the
//! state it maintains and the rule that a transition event is emitted
//! exactly when the observed state differs from the recorded one — never on
//! a poll that confirms it.

use vstd::prelude::*;

verus! {

/// Whether the machine currently has network connectivity.
#[derive(Debug, Clone, Copy, PartialEq, Eq, Structural)]
pub struct NetworkStatus {
    pub online: bool,
}

impl Default for NetworkStatus {
    /// Until the first probe answers, the network is presumed reachable.
    fn default() -> (r: Self)
        ensures
            r.online,
    {
        NetworkStatus { online: true }
    }
}

/// Applies one observation: the new status records what was observed, and
/// the second component says whether a status-changed event must be
/// emitted — true exactly when the observation differs from the current
/// status.
pub fn status_transition(current: NetworkStatus, observed: bool) -> (r: (NetworkStatus, bool))
    ensures
        r.0.online == observed,
        r.1 == (current.online != observed),
{
    (NetworkStatus { online: observed }, current.online != observed)
}

/// Maps a NetworkManager state value to connectivity: 70 and above means
/// globally connected; everything below (20 is disconnected) does not.
pub fn network_manager_online(state: u32) -> (r: bool)
    ensures
        r == (state >= 70),
{
    state >= 70
}

/// The connectivity prober's recorded state.  The probing transport and the
/// event emission are the caller's; this records each observation and says
/// when an event is due.
#[derive(Debug, Clone)]
pub struct NetworkMonitor {
    status: NetworkStatus,
}

impl View for NetworkMonitor {
    type V = bool;

    closed spec fn view(&self) -> bool {
        self.status.online
    }
}

impl NetworkMonitor {
    /// A monitor that presumes the network reachable until told otherwise.
    pub fn new() -> (r: Self)
        ensures
            r@ == true,
    {
        NetworkMonitor { status: NetworkStatus::default() }
    }

    /// The status as last recorded.
    pub fn get_status(&self) -> (r: NetworkStatus)
        ensures
            r.online == self@,
    {
        self.status
    }

    /// Records one observation and says whether a status-changed event must
    /// be emitted — true exactly when the observation differs from the
    /// recorded status, so confirming polls stay silent.
    pub fn update_status(&mut self, online: bool) -> (emit: bool)
        ensures
            final(self)@ == online,
            emit == (old(self)@ != online),
    {
        let (next, emit) = status_transition(self.status, online);
        self.status = next;
        emit
    }
}

} // verus!
