//! The connection filter: decides whether an inbound peer may proceed.
//!
//! An empty allow-list means an open proxy; a non-empty one permits exactly
//! the peers whose textual address is a member, compared character for
//! character — no CIDR ranges, no name resolution.

use vstd::prelude::*;

verus! {

/// The outcome of screening one accepted connection.
#[derive(Clone, Copy, PartialEq, Eq, Structural, Debug)]
pub enum FilterDecision {
    Permitted,
    Denied,
}

/// The textual contents of a list of owned strings.
pub open spec fn spec_names(l: Seq<String>) -> Seq<Seq<char>> {
    Seq::new(l.len(), |i: int| l[i]@)
}

/// Whether a peer with the given textual address may proceed: always when the
/// allow-list is empty, otherwise exactly when the address is a member.
pub open spec fn spec_permit(list: Seq<Seq<char>>, peer: Seq<char>) -> bool {
    list.len() == 0 || list.contains(peer)
}

/// With an empty allow-list every peer is permitted, whatever its address.
pub proof fn lemma_empty_allow_list_permits(list: Seq<Seq<char>>, peer: Seq<char>)
    requires
        list.len() == 0,
    ensures
        spec_permit(list, peer),
{
}

/// A peer absent from a non-empty allow-list is denied.
pub proof fn lemma_absent_peer_denied(list: Seq<Seq<char>>, peer: Seq<char>)
    requires
        list.len() > 0,
        !list.contains(peer),
    ensures
        !spec_permit(list, peer),
{
}

/// Decide whether the peer with address `peer_ip` may proceed.
pub fn permit(allow_list: &Vec<String>, peer_ip: &String) -> (r: bool)
    ensures
        r == spec_permit(spec_names(allow_list@), peer_ip@),
{
    if allow_list.len() == 0 {
        return true;
    }
    let ghost names = spec_names(allow_list@);
    let mut i: usize = 0;
    while i < allow_list.len()
        invariant
            0 <= i <= allow_list@.len(),
            names == spec_names(allow_list@),
            forall|j: int| 0 <= j < i ==> names[j] != peer_ip@,
        decreases allow_list@.len() - i,
    {
        if allow_list[i] == *peer_ip {
            assert(names[i as int] == peer_ip@);
            return true;
        }
        i = i + 1;
    }
    assert(!names.contains(peer_ip@));
    false
}

} // verus!
