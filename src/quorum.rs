use crate::types::NodeId;
use vstd::prelude::*;

verus! {

/// The thresholds the ordering protocol derives from the number of
/// responders it expects.
pub trait QuorumRule {
    /// Votes needed on one value to finalize, for `n` responders.
    spec fn quorum_spec(&self, n: nat) -> nat;

    /// Byzantine faults tolerated among `n` responders.
    spec fn faults_spec(&self, n: nat) -> nat;

    fn get_quorum_for_n(&self, n: usize) -> (r: usize)
        ensures
            r as nat == self.quorum_spec(n as nat),
    ;

    fn get_f_for_n(&self, n: usize) -> (r: usize)
        ensures
            r as nat == self.faults_spec(n as nat),
    ;
}

/// A view that names the members of its quorum.
pub trait NetworkView {
    fn quorum_members(&self) -> Vec<NodeId>;
}

/// `f = floor((n - 1) / 3)`, and no fault for no responder.
pub open spec fn byzantine_f(n: nat) -> nat {
    if n == 0 {
        0
    } else {
        ((n - 1) as nat) / 3
    }
}

/// `ceil((n + f + 1) / 2)`.
pub open spec fn byzantine_quorum(n: nat) -> nat {
    (n + byzantine_f(n) + 2) / 2
}

/// The usual thresholds of a system of `n = 3f + 1` replicas.
#[derive(Clone, Copy, Debug)]
pub struct ByzantineQuorum;

impl QuorumRule for ByzantineQuorum {
    open spec fn quorum_spec(&self, n: nat) -> nat {
        byzantine_quorum(n)
    }

    open spec fn faults_spec(&self, n: nat) -> nat {
        byzantine_f(n)
    }

    fn get_quorum_for_n(&self, n: usize) -> (r: usize) {
        if n == 0 {
            1
        } else {
            let f = self.get_f_for_n(n);
            n - (n - f - 1) / 2
        }
    }

    fn get_f_for_n(&self, n: usize) -> (r: usize) {
        if n == 0 {
            0
        } else {
            (n - 1) / 3
        }
    }
}

} // verus!
