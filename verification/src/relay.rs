//! One direction of a relay: the state machine behind the copy loop.
//!
//! The loop that moves bytes from one socket to the other runs outside this
//! crate; what it decides at every step is decided here. Each successful read
//! is reported as an event, the machine answers with the bytes to forward,
//! and the write's outcome is reported back. The machine keeps the direction's
//! byte counter and, as ghost state, the exact byte streams read and
//! delivered, so that what the loop forwards can be pinned down: the same
//! bytes, in the same order, nothing duplicated, dropped or reordered.

use vstd::prelude::*;
use vstd::seq_lib::*;

verus! {

/// How many bytes one read of a source socket may return at most: each
/// direction copies through a fixed buffer of this size, a power of two
/// small enough to keep a slow connection from holding much memory.
pub const RELAY_BUFFER_SIZE: usize = 1024;

/// Why a direction stopped.
#[derive(Clone, Copy, PartialEq, Eq, Structural, Debug)]
pub enum StopCause {
    /// The reading side returned no bytes: an orderly close by the peer.
    CleanEof,
    /// A read or write failed: abnormal termination of this direction only.
    IoError,
}

/// The state a direction is in.
#[derive(Clone, Copy, PartialEq, Eq, Structural, Debug)]
pub enum DirectionStatus {
    /// Still copying.
    Running,
    /// Stopped because the peer closed its sending side.
    ClosedByPeer,
    /// Stopped because a read or write failed.
    Failed,
}

/// What one read of the source socket produced.
#[derive(Debug)]
pub enum RelayEvent {
    /// The read returned zero bytes: the peer closed.
    PeerClosed,
    /// The read returned these bytes.
    ChunkRead(Vec<u8>),
    /// The read failed.
    ReadFailed,
}

/// What the copy loop must do next.
#[derive(Debug)]
pub enum RelayStep {
    /// Write these bytes, whole and in order, to the destination socket.
    Forward(Vec<u8>),
    /// Stop this direction.
    Stop(StopCause),
}

/// One direction of an established connection's relay.
pub struct RelayDirection {
    /// Where the direction stands.
    pub status: DirectionStatus,
    /// Bytes successfully read from the source so far; monotonically
    /// increasing, final when the direction has stopped.
    pub total: u64,
    /// The exact bytes read from the source, in order.
    pub received: Ghost<Seq<u8>>,
    /// The bytes whose write to the destination was confirmed, in order.
    pub delivered: Ghost<Seq<u8>>,
    /// Bytes read and counted whose write is not yet confirmed.
    pub in_flight: Ghost<Seq<u8>>,
}

impl RelayDirection {
    /// The direction's invariant: the counter counts exactly the bytes read,
    /// and the bytes read are the bytes delivered followed by the bytes still
    /// in flight; a clean close leaves nothing in flight.
    pub open spec fn wf(self) -> bool {
        &&& self.total == self.received@.len()
        &&& self.received@ == self.delivered@ + self.in_flight@
        &&& (self.status == DirectionStatus::ClosedByPeer ==> self.in_flight@.len() == 0)
    }

    /// A fresh direction: counter at zero, nothing read, nothing delivered.
    pub fn new() -> (d: RelayDirection)
        ensures
            d.wf(),
            d.status == DirectionStatus::Running,
            d.total == 0,
            d.received@ == Seq::<u8>::empty(),
            d.delivered@ == Seq::<u8>::empty(),
            d.in_flight@ == Seq::<u8>::empty(),
    {
        let d = RelayDirection {
            status: DirectionStatus::Running,
            total: 0,
            received: Ghost(Seq::empty()),
            delivered: Ghost(Seq::empty()),
            in_flight: Ghost(Seq::empty()),
        };
        proof {
            assert(d.received@ =~= d.delivered@ + d.in_flight@);
        }
        d
    }

    /// Take the outcome of one read of the source socket.
    ///
    /// Zero bytes read stop the direction cleanly; a failed read stops it
    /// abnormally; bytes read are counted at once and handed back, unchanged
    /// and whole, to be written to the destination.
    pub fn on_read(&mut self, ev: RelayEvent) -> (step: RelayStep)
        requires
            old(self).wf(),
            old(self).status == DirectionStatus::Running,
            old(self).in_flight@.len() == 0,
            ev matches RelayEvent::ChunkRead(chunk) ==> chunk@.len() >= 1 && old(self).total
                + chunk@.len() <= u64::MAX,
        ensures
            final(self).wf(),
            final(self).delivered@ == old(self).delivered@,
            final(self).total >= old(self).total,
            old(self).received@.is_prefix_of(final(self).received@),
            match ev {
                RelayEvent::PeerClosed => {
                    &&& final(self).status == DirectionStatus::ClosedByPeer
                    &&& final(self).received@ == old(self).received@
                    &&& final(self).total == old(self).total
                    &&& step == RelayStep::Stop(StopCause::CleanEof)
                },
                RelayEvent::ChunkRead(chunk) => {
                    &&& final(self).status == DirectionStatus::Running
                    &&& final(self).received@ == old(self).received@ + chunk@
                    &&& final(self).total == old(self).total + chunk@.len()
                    &&& final(self).in_flight@ == chunk@
                    &&& (step matches RelayStep::Forward(out) && out@ == chunk@)
                },
                RelayEvent::ReadFailed => {
                    &&& final(self).status == DirectionStatus::Failed
                    &&& final(self).received@ == old(self).received@
                    &&& final(self).total == old(self).total
                    &&& step == RelayStep::Stop(StopCause::IoError)
                },
            },
    {
        match ev {
            RelayEvent::PeerClosed => {
                self.status = DirectionStatus::ClosedByPeer;
                RelayStep::Stop(StopCause::CleanEof)
            },
            RelayEvent::ChunkRead(chunk) => {
                proof {
                    self.received@ = self.received@ + chunk@;
                    self.in_flight@ = chunk@;
                }
                self.total = self.total + chunk.len() as u64;
                RelayStep::Forward(chunk)
            },
            RelayEvent::ReadFailed => {
                self.status = DirectionStatus::Failed;
                RelayStep::Stop(StopCause::IoError)
            },
        }
    }

    /// Take the outcome of writing the forwarded bytes to the destination.
    ///
    /// A successful write confirms the in-flight bytes as delivered; a failed
    /// write stops the direction, and those bytes were never delivered.
    pub fn on_write_result(&mut self, ok: bool)
        requires
            old(self).wf(),
            old(self).status == DirectionStatus::Running,
            old(self).in_flight@.len() > 0,
        ensures
            final(self).wf(),
            final(self).received@ == old(self).received@,
            final(self).total == old(self).total,
            ok ==> {
                &&& final(self).status == DirectionStatus::Running
                &&& final(self).delivered@ == old(self).delivered@ + old(self).in_flight@
                &&& final(self).in_flight@.len() == 0
            },
            !ok ==> {
                &&& final(self).status == DirectionStatus::Failed
                &&& final(self).delivered@ == old(self).delivered@
                &&& final(self).in_flight@ == old(self).in_flight@
            },
    {
        if ok {
            proof {
                self.delivered@ = self.delivered@ + self.in_flight@;
                self.in_flight@ = Seq::empty();
            }
        } else {
            self.status = DirectionStatus::Failed;
        }
    }

    /// Whether the direction has stopped, cleanly or not.
    pub fn is_done(&self) -> (r: bool)
        ensures
            r == (self.status != DirectionStatus::Running),
    {
        match self.status {
            DirectionStatus::Running => false,
            _ => true,
        }
    }

    /// The direction's byte counter.
    pub fn bytes_total(&self) -> (r: u64)
        ensures
            r == self.total,
    {
        self.total
    }
}

/// What the relay delivers is exactly what it read, in order: the delivered
/// stream is a prefix of the received stream, and a direction that stopped
/// because its peer closed cleanly has delivered the received stream whole.
pub proof fn lemma_delivered_is_received_prefix(d: RelayDirection)
    requires
        d.wf(),
    ensures
        d.delivered@ =~= d.received@.subrange(0, d.delivered@.len() as int),
        d.status == DirectionStatus::ClosedByPeer ==> d.delivered@ == d.received@,
{
    assert(d.received@ =~= d.delivered@ + d.in_flight@);
    if d.status == DirectionStatus::ClosedByPeer {
        assert(d.delivered@ =~= d.received@);
    }
}

/// The byte counter of a direction counts exactly the bytes successfully read
/// from its source so far, and nothing else.
pub proof fn lemma_counter_counts_received(d: RelayDirection)
    requires
        d.wf(),
    ensures
        d.total == d.received@.len(),
{
}

} // verus!
