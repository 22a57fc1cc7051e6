//! View transfer for a permissioned BFT replication stack: a replica that
//! does not know the current view polls its peers and accepts a view only
//! once a Byzantine quorum of them reports the same digest.
//!
//! The protocol is a state machine (`engine`) over a vote ledger (`ledger`);
//! it returns the messages to send and the view to install, and the host
//! carries them out.

use vstd::prelude::*;

pub mod config;
pub mod engine;
pub mod ledger;
pub mod message;
pub mod metrics;
pub mod quorum;
pub mod types;

pub use config::ViewTransferConfig;
pub use engine::{Outbound, SimpleViewTransferProtocol, Step, TransferState, VTPollResult, VTResult};
pub use ledger::{ReceivedView, VoteLedger};
pub use message::{
    Header, StoredMessage, ViewTransfer, ViewTransferMessage, ViewTransferMessageKind, ViewTransferVerifier,
};
pub use quorum::{ByzantineQuorum, NetworkView, QuorumRule};
pub use types::{Digest, NodeId, SeqNo};

verus! {

} // verus!
