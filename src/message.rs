use crate::types::{Digest, NodeId, SeqNo};
use std::marker::PhantomData;
use vstd::prelude::*;

verus! {

/// The two kinds of view transfer messages.
#[derive(Clone, Debug)]
pub enum ViewTransferMessageKind<V> {
    RequestView,
    ViewResponse(V),
}

/// A view transfer message: the originator's sequence number and its kind.
#[derive(Clone, Debug)]
pub struct ViewTransferMessage<V> {
    pub sequence: SeqNo,
    pub view_transfer_message_kind: ViewTransferMessageKind<V>,
}

impl<V> ViewTransferMessage<V> {
    pub fn new(seq: SeqNo, message_kind: ViewTransferMessageKind<V>) -> (r: Self)
        ensures
            r.sequence == seq,
            r.view_transfer_message_kind == message_kind,
    {
        ViewTransferMessage { sequence: seq, view_transfer_message_kind: message_kind }
    }

    pub fn kind(&self) -> (r: &ViewTransferMessageKind<V>)
        ensures
            *r == self.view_transfer_message_kind,
    {
        &self.view_transfer_message_kind
    }

    pub fn into_kind(self) -> (r: ViewTransferMessageKind<V>)
        ensures
            r == self.view_transfer_message_kind,
    {
        self.view_transfer_message_kind
    }

    pub fn sequence_number(&self) -> (r: SeqNo)
        ensures
            r == self.sequence,
    {
        self.sequence
    }
}

/// What the transport tells about an inbound message: its sender and the
/// digest of its signed payload.
#[derive(Clone, Copy, Debug)]
pub struct Header {
    pub from: NodeId,
    pub digest: Digest,
}

impl Header {
    pub fn from(&self) -> (r: NodeId)
        ensures
            r == self.from,
    {
        self.from
    }

    pub fn digest(&self) -> (r: &Digest)
        ensures
            *r == self.digest,
    {
        &self.digest
    }
}

/// An inbound message together with the header the transport attached.
#[derive(Clone, Debug)]
pub struct StoredMessage<M> {
    pub header: Header,
    pub message: M,
}

impl<M> StoredMessage<M> {
    pub fn new(header: Header, message: M) -> (r: Self)
        ensures
            r.header == header,
            r.message == message,
    {
        StoredMessage { header, message }
    }

    pub fn header(&self) -> (r: &Header)
        ensures
            *r == self.header,
    {
        &self.header
    }

    pub fn message(&self) -> (r: &M)
        ensures
            *r == self.message,
    {
        &self.message
    }

    pub fn into_inner(self) -> (r: (Header, M))
        ensures
            r == (self.header, self.message),
    {
        (self.header, self.message)
    }
}

/// Marker for the serialization of this protocol's messages over views `VT`.
pub struct ViewTransfer<VT>(pub PhantomData<VT>);

/// Marker for the verifier of this protocol's messages over views `VT`.
pub struct ViewTransferVerifier<VT>(pub PhantomData<VT>);

} // verus!
