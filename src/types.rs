use vstd::prelude::*;

verus! {

/// Identifier of a replica.
#[derive(Clone, Copy, Debug, PartialEq, Eq, Structural, Hash)]
pub struct NodeId(pub u32);

/// Sequence number that ties a response to the request it answers.
#[derive(Clone, Copy, Debug, PartialEq, Eq, Structural, Hash)]
pub struct SeqNo(pub u64);

impl SeqNo {
    pub fn zero() -> (r: SeqNo)
        ensures
            r.0 == 0,
    {
        SeqNo(0)
    }

    /// The following sequence number; the largest value is kept, so the
    /// counter never moves backwards.
    pub open spec fn next_spec(self) -> SeqNo {
        if self.0 < u64::MAX {
            SeqNo((self.0 + 1) as u64)
        } else {
            self
        }
    }

    pub fn next(self) -> (r: SeqNo)
        ensures
            r == self.next_spec(),
    {
        if self.0 < u64::MAX {
            SeqNo(self.0 + 1)
        } else {
            self
        }
    }
}

/// Content hash that the transport attaches to each inbound message.
#[derive(Clone, Copy, Debug)]
pub struct Digest {
    bytes: [u8; 32],
}

impl Digest {
    pub fn new(bytes: [u8; 32]) -> (r: Digest)
        ensures
            r.bytes_spec() == bytes,
    {
        Digest { bytes }
    }

    pub closed spec fn bytes_spec(&self) -> [u8; 32] {
        self.bytes
    }

    pub fn as_bytes(&self) -> (r: [u8; 32])
        ensures
            r == self.bytes_spec(),
    {
        self.bytes
    }
}

impl PartialEq for Digest {
    fn eq(&self, other: &Digest) -> (r: bool) {
        let mut i: usize = 0;
        while i < 32
            invariant
                0 <= i <= 32,
                forall|k: int| 0 <= k < i ==> self.bytes@[k] == other.bytes@[k],
            decreases 32 - i,
        {
            if self.bytes[i] != other.bytes[i] {
                return false;
            }
            i = i + 1;
        }
        proof {
            assert(self.bytes =~= other.bytes);
        }
        true
    }
}

impl vstd::std_specs::cmp::PartialEqSpecImpl for Digest {
    open spec fn obeys_eq_spec() -> bool {
        true
    }

    open spec fn eq_spec(&self, other: &Digest) -> bool {
        *self == *other
    }
}

} // verus!
