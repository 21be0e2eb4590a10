//! The per-connection lifecycle: the attempt state machine and the
//! established connection with its two relay directions.
//!
//! Every accepted client goes through the same phases: it is screened by the
//! filter, then either denied, or the target is dialed; a successful dial
//! establishes a connection whose two directions relay independently; and
//! every path ends with both sockets closed together, exactly once.

use vstd::prelude::*;
use crate::filter::{spec_names, spec_permit, FilterDecision, permit};
use crate::relay::{DirectionStatus, RelayDirection, RelayEvent, RelayStep};

verus! {

/// The phase a connection attempt is in.
#[derive(Clone, Copy, PartialEq, Eq, Structural, Debug)]
pub enum AttemptPhase {
    /// Just accepted; the filter has not spoken yet.
    Accepted,
    /// Rejected by the filter; the client socket is to be closed, the target
    /// is never contacted.
    Denied,
    /// Permitted; the target is being dialed.
    Dialing,
    /// The dial failed; the client socket is to be shut down, this attempt is
    /// over and the accept loop goes on.
    DialFailed,
    /// The dial succeeded; the two relay directions are running.
    Relaying,
    /// Both sockets are closed; reached exactly once on every path.
    Closed,
}

/// One accepted client connection's progress through the service.
pub struct ConnectionAttempt {
    /// The current phase.
    pub phase: AttemptPhase,
    /// Whether this attempt ever asked for the target to be dialed.
    pub dialed: Ghost<bool>,
}

impl ConnectionAttempt {
    /// The attempt's invariant: a dial happens only after the filter permits,
    /// so an attempt that never dialed is at most accepted or denied.
    pub open spec fn wf(self) -> bool {
        !self.dialed@ ==> self.phase == AttemptPhase::Accepted || self.phase
            == AttemptPhase::Denied || self.phase == AttemptPhase::Closed
    }

    /// A freshly accepted attempt.
    pub fn new() -> (a: ConnectionAttempt)
        ensures
            a.wf(),
            a.phase == AttemptPhase::Accepted,
            !a.dialed@,
    {
        ConnectionAttempt { phase: AttemptPhase::Accepted, dialed: Ghost(false) }
    }

    /// Screen the peer against the allow-list.
    ///
    /// A permitted peer moves the attempt to dialing; a denied one ends it:
    /// the target is not contacted, and denial is an expected outcome, not an
    /// error of the service.
    pub fn screen(&mut self, allow_list: &Vec<String>, peer_ip: &String) -> (d: FilterDecision)
        requires
            old(self).wf(),
            old(self).phase == AttemptPhase::Accepted,
            !old(self).dialed@,
        ensures
            final(self).wf(),
            (d == FilterDecision::Permitted) == spec_permit(spec_names(allow_list@), peer_ip@),
            spec_permit(spec_names(allow_list@), peer_ip@) ==> final(self).phase
                == AttemptPhase::Dialing && final(self).dialed@,
            !spec_permit(spec_names(allow_list@), peer_ip@) ==> final(self).phase
                == AttemptPhase::Denied && !final(self).dialed@,
    {
        if permit(allow_list, peer_ip) {
            self.phase = AttemptPhase::Dialing;
            proof {
                self.dialed@ = true;
            }
            FilterDecision::Permitted
        } else {
            self.phase = AttemptPhase::Denied;
            FilterDecision::Denied
        }
    }

    /// Take the outcome of dialing the target.
    ///
    /// Failure ends only this attempt; the accept loop is not to stop.
    pub fn on_dial_result(&mut self, ok: bool)
        requires
            old(self).wf(),
            old(self).phase == AttemptPhase::Dialing,
        ensures
            final(self).wf(),
            final(self).dialed@ == old(self).dialed@,
            ok ==> final(self).phase == AttemptPhase::Relaying,
            !ok ==> final(self).phase == AttemptPhase::DialFailed,
    {
        if ok {
            self.phase = AttemptPhase::Relaying;
        } else {
            self.phase = AttemptPhase::DialFailed;
        }
    }

    /// Close the attempt, whatever path led here.
    ///
    /// Callable exactly once, from every terminal-bound phase but never from
    /// an attempt already closed.
    pub fn finish(&mut self)
        requires
            old(self).wf(),
            old(self).phase == AttemptPhase::Denied || old(self).phase == AttemptPhase::DialFailed
                || old(self).phase == AttemptPhase::Relaying,
        ensures
            final(self).wf(),
            final(self).phase == AttemptPhase::Closed,
            final(self).dialed@ == old(self).dialed@,
    {
        self.phase = AttemptPhase::Closed;
    }
}

/// A denied attempt never dials: whatever later steps it takes, its dial flag
/// stays false, so no attempt that the filter rejected ever contacts the
/// target, and no bytes are ever transferred on its behalf.
pub proof fn lemma_denied_attempt_never_dialed(a: ConnectionAttempt)
    requires
        a.wf(),
        a.phase == AttemptPhase::Denied,
    ensures
        a.phase != AttemptPhase::Dialing,
        a.phase != AttemptPhase::Relaying,
{
}

/// An established connection: two relay directions and the pair of sockets
/// they run on.
///
/// The counters start at zero for every fresh connection; nothing is carried
/// over from any earlier connection on the same listener. Both sockets are
/// closed together, exactly once, when the connection's lifetime ends.
pub struct Connection {
    /// The client-to-target direction; its counter is the connection's
    /// received-bytes total.
    pub client_to_target: RelayDirection,
    /// The target-to-client direction; its counter is the connection's
    /// transmitted-bytes total.
    pub target_to_client: RelayDirection,
    /// Whether the connection's two sockets have been closed.
    pub sockets_closed: bool,
}

impl Connection {
    /// The connection's invariant: both directions are well formed, and the
    /// sockets are still open while either direction runs.
    pub open spec fn wf(self) -> bool {
        &&& self.client_to_target.wf()
        &&& self.target_to_client.wf()
        &&& (self.sockets_closed ==> self.client_to_target.status != DirectionStatus::Running
            && self.target_to_client.status != DirectionStatus::Running)
    }

    /// A fresh connection: both counters at zero, both directions running,
    /// sockets open.
    pub fn new() -> (c: Connection)
        ensures
            c.wf(),
            c.client_to_target.total == 0,
            c.target_to_client.total == 0,
            c.client_to_target.status == DirectionStatus::Running,
            c.target_to_client.status == DirectionStatus::Running,
            c.client_to_target.received@ == Seq::<u8>::empty(),
            c.target_to_client.received@ == Seq::<u8>::empty(),
            !c.sockets_closed,
    {
        Connection {
            client_to_target: RelayDirection::new(),
            target_to_client: RelayDirection::new(),
            sockets_closed: false,
        }
    }

    /// Total bytes read from the client so far.
    pub fn rx_bytes(&self) -> (r: u64)
        ensures
            r == self.client_to_target.total,
    {
        self.client_to_target.total
    }

    /// Total bytes read from the target so far.
    pub fn tx_bytes(&self) -> (r: u64)
        ensures
            r == self.target_to_client.total,
    {
        self.target_to_client.total
    }

    /// Take the outcome of one read of the client socket.
    pub fn on_client_read(&mut self, ev: RelayEvent) -> (step: RelayStep)
        requires
            old(self).wf(),
            !old(self).sockets_closed,
            old(self).client_to_target.status == DirectionStatus::Running,
            old(self).client_to_target.in_flight@.len() == 0,
            ev matches RelayEvent::ChunkRead(chunk) ==> chunk@.len() >= 1
                && old(self).client_to_target.total + chunk@.len() <= u64::MAX,
        ensures
            final(self).wf(),
            !final(self).sockets_closed,
            final(self).target_to_client == old(self).target_to_client,
            final(self).client_to_target.total >= old(self).client_to_target.total,
            match ev {
                RelayEvent::PeerClosed => {
                    &&& final(self).client_to_target.status == DirectionStatus::ClosedByPeer
                    &&& final(self).client_to_target.total == old(self).client_to_target.total
                },
                RelayEvent::ChunkRead(chunk) => {
                    &&& final(self).client_to_target.received@ == old(
                        self,
                    ).client_to_target.received@ + chunk@
                    &&& final(self).client_to_target.total == old(self).client_to_target.total
                        + chunk@.len()
                    &&& (step matches RelayStep::Forward(out) && out@ == chunk@)
                },
                RelayEvent::ReadFailed => {
                    &&& final(self).client_to_target.status == DirectionStatus::Failed
                    &&& final(self).client_to_target.total == old(self).client_to_target.total
                },
            },
    {
        self.client_to_target.on_read(ev)
    }

    /// Take the outcome of writing forwarded client bytes to the target.
    pub fn on_target_write_result(&mut self, ok: bool)
        requires
            old(self).wf(),
            !old(self).sockets_closed,
            old(self).client_to_target.status == DirectionStatus::Running,
            old(self).client_to_target.in_flight@.len() > 0,
        ensures
            final(self).wf(),
            !final(self).sockets_closed,
            final(self).target_to_client == old(self).target_to_client,
            final(self).client_to_target.total == old(self).client_to_target.total,
            ok ==> final(self).client_to_target.delivered@ == old(self).client_to_target.delivered@
                + old(self).client_to_target.in_flight@,
            !ok ==> final(self).client_to_target.status == DirectionStatus::Failed,
    {
        self.client_to_target.on_write_result(ok)
    }

    /// Take the outcome of one read of the target socket.
    pub fn on_target_read(&mut self, ev: RelayEvent) -> (step: RelayStep)
        requires
            old(self).wf(),
            !old(self).sockets_closed,
            old(self).target_to_client.status == DirectionStatus::Running,
            old(self).target_to_client.in_flight@.len() == 0,
            ev matches RelayEvent::ChunkRead(chunk) ==> chunk@.len() >= 1
                && old(self).target_to_client.total + chunk@.len() <= u64::MAX,
        ensures
            final(self).wf(),
            !final(self).sockets_closed,
            final(self).client_to_target == old(self).client_to_target,
            final(self).target_to_client.total >= old(self).target_to_client.total,
            match ev {
                RelayEvent::PeerClosed => {
                    &&& final(self).target_to_client.status == DirectionStatus::ClosedByPeer
                    &&& final(self).target_to_client.total == old(self).target_to_client.total
                },
                RelayEvent::ChunkRead(chunk) => {
                    &&& final(self).target_to_client.received@ == old(
                        self,
                    ).target_to_client.received@ + chunk@
                    &&& final(self).target_to_client.total == old(self).target_to_client.total
                        + chunk@.len()
                    &&& (step matches RelayStep::Forward(out) && out@ == chunk@)
                },
                RelayEvent::ReadFailed => {
                    &&& final(self).target_to_client.status == DirectionStatus::Failed
                    &&& final(self).target_to_client.total == old(self).target_to_client.total
                },
            },
    {
        self.target_to_client.on_read(ev)
    }

    /// Take the outcome of writing forwarded target bytes to the client.
    pub fn on_client_write_result(&mut self, ok: bool)
        requires
            old(self).wf(),
            !old(self).sockets_closed,
            old(self).target_to_client.status == DirectionStatus::Running,
            old(self).target_to_client.in_flight@.len() > 0,
        ensures
            final(self).wf(),
            !final(self).sockets_closed,
            final(self).client_to_target == old(self).client_to_target,
            final(self).target_to_client.total == old(self).target_to_client.total,
            ok ==> final(self).target_to_client.delivered@ == old(self).target_to_client.delivered@
                + old(self).target_to_client.in_flight@,
            !ok ==> final(self).target_to_client.status == DirectionStatus::Failed,
    {
        self.target_to_client.on_write_result(ok)
    }

    /// Whether both directions have stopped, so the sockets may be closed.
    pub fn relay_done(&self) -> (r: bool)
        ensures
            r == (self.client_to_target.status != DirectionStatus::Running
                && self.target_to_client.status != DirectionStatus::Running),
    {
        self.client_to_target.is_done() && self.target_to_client.is_done()
    }

    /// Close both sockets together.
    ///
    /// Callable exactly once, only after both directions have stopped; the
    /// counters are final at this point and never change again.
    pub fn close(&mut self)
        requires
            old(self).wf(),
            !old(self).sockets_closed,
            old(self).client_to_target.status != DirectionStatus::Running,
            old(self).target_to_client.status != DirectionStatus::Running,
        ensures
            final(self).wf(),
            final(self).sockets_closed,
            final(self).client_to_target == old(self).client_to_target,
            final(self).target_to_client == old(self).target_to_client,
    {
        self.sockets_closed = true;
    }
}

} // verus!
