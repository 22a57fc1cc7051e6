use crate::config::ViewTransferConfig;
use crate::ledger::{
    count, has_voter, ledger_wf, many_candidates, sole_candidate, total, with_response,
    Candidates, ReceivedView, VoteLedger,
};
use crate::message::{StoredMessage, ViewTransferMessage, ViewTransferMessageKind};
use crate::quorum::{NetworkView, QuorumRule};
use crate::types::{Digest, NodeId, SeqNo};
use vstd::prelude::*;

verus! {

/// Name under which the protocol registers with the timeout driver.
pub const MOD_NAME: &'static str = "ATLAS_VIEW_TRANSFER";

/// What the protocol reports to the ordering protocol after a message.
#[derive(Clone, Copy, Debug, PartialEq, Eq, Structural)]
pub enum VTResult {
    VTransferNotNeeded,
    VTransferRunning,
    VTransferFinished,
}

/// What the driver of the protocol should do next.
#[derive(Clone, Debug)]
pub enum VTPollResult<M> {
    ReceiveMsg,
    Execute(M),
    NoOp,
}

/// A message the host must hand to the transport, signed.
#[derive(Clone, Debug)]
pub enum Outbound<V> {
    Send { to: NodeId, message: ViewTransferMessage<V> },
    Broadcast { targets: Vec<NodeId>, message: ViewTransferMessage<V> },
}

/// The outcome of handling one message: the result, a view to install in
/// the ordering protocol, and a message to send.
pub struct Step<V> {
    pub result: VTResult,
    pub install: Option<V>,
    pub outbound: Option<Outbound<V>>,
}

/// A broadcast of a view request with sequence `seq` to `targets`.
pub open spec fn is_request_broadcast<V>(out: Outbound<V>, targets: Seq<NodeId>, seq: SeqNo) -> bool {
    &&& out matches Outbound::Broadcast { targets: t, message }
    &&& t@ == targets
    &&& message.sequence == seq
    &&& message.view_transfer_message_kind is RequestView
}

/// The reply to a view request from `to` with sequence `seq`, carrying `view`.
pub open spec fn view_reply<V>(to: NodeId, seq: SeqNo, view: V) -> Outbound<V> {
    Outbound::Send {
        to,
        message: ViewTransferMessage {
            sequence: seq,
            view_transfer_message_kind: ViewTransferMessageKind::ViewResponse(view),
        },
    }
}

/// How a message is handled outside of a round of our own: a request is
/// answered with `view`, anything else is dropped.
pub open spec fn off_context_step<V>(message: StoredMessage<ViewTransferMessage<V>>, view: V) -> Step<V> {
    Step {
        result: VTResult::VTransferNotNeeded,
        install: None,
        outbound: if message.message.view_transfer_message_kind is RequestView {
            Some(view_reply(message.header.from, message.message.sequence, view))
        } else {
            None
        },
    }
}

/// The response a message carries, as it would be filed in the ledger.
pub open spec fn as_received<V>(message: StoredMessage<ViewTransferMessage<V>>) -> ReceivedView<V> {
    ReceivedView {
        node: message.header.from,
        digest: message.header.digest,
        view: message.message.view_transfer_message_kind->ViewResponse_0,
    }
}

/// Bucket `k` holds at least `q` responses, from distinct nodes, all
/// carrying its digest.
pub open spec fn quorum_bucket<V>(s: Seq<(Digest, Seq<ReceivedView<V>>)>, k: int, q: nat) -> bool {
    &&& 0 <= k < s.len()
    &&& s[k].1.len() >= q
    &&& forall|i: int, j: int|
        0 <= i < s[k].1.len() && 0 <= j < s[k].1.len() && i != j ==> s[k].1[i].node != s[k].1[j].node
    &&& forall|i: int| 0 <= i < s[k].1.len() ==> s[k].1[i].digest == s[k].0
}

/// Every node of `small` is in `big`.
pub open spec fn includes(big: Seq<NodeId>, small: Seq<NodeId>) -> bool {
    forall|n: NodeId| small.contains(n) ==> big.contains(n)
}

/// The state of the protocol.
pub enum TransferState<V> {
    /// No request of ours is outstanding.
    Idle,
    /// A request is outstanding: responders expected, responses accepted,
    /// and the votes so far.
    Requested(usize, usize, VoteLedger<V>),
}

/// A view transfer protocol that polls the known peers for their view and
/// accepts one that a quorum of them reports.
pub struct SimpleViewTransferProtocol<V> {
    current_seq_no: SeqNo,
    known_nodes: Vec<NodeId>,
    current_state: TransferState<V>,
}

impl<V> SimpleViewTransferProtocol<V> {
    pub closed spec fn seq_no(&self) -> SeqNo {
        self.current_seq_no
    }

    /// The peers known so far, without repetition, in order of discovery.
    pub closed spec fn known(&self) -> Seq<NodeId> {
        self.known_nodes@
    }

    pub closed spec fn is_requested(&self) -> bool {
        self.current_state is Requested
    }

    /// Responders expected in the current round (none when idle).
    pub closed spec fn expected(&self) -> nat {
        match self.current_state {
            TransferState::Requested(n, _, _) => n as nat,
            TransferState::Idle => 0,
        }
    }

    /// Responses accepted in the current round (none when idle).
    pub closed spec fn received(&self) -> nat {
        match self.current_state {
            TransferState::Requested(_, r, _) => r as nat,
            TransferState::Idle => 0,
        }
    }

    /// Votes of the current round (none when idle).
    pub closed spec fn ledger(&self) -> Seq<(Digest, Seq<ReceivedView<V>>)> {
        match self.current_state {
            TransferState::Requested(_, _, l) => l@,
            TransferState::Idle => Seq::empty(),
        }
    }

    pub closed spec fn wf(&self) -> bool {
        &&& self.known_nodes@.no_duplicates()
        &&& match self.current_state {
            TransferState::Requested(n, r, l) => {
                &&& l.wf()
                &&& r as nat == total(l@)
                &&& n as nat == self.known_nodes@.len()
            },
            TransferState::Idle => true,
        }
    }

    /// A fresh round started from `pre`: same sequence number and peers,
    /// every peer expected, nothing received.
    pub open spec fn fresh_round(pre: &Self, post: &Self) -> bool {
        &&& post.wf()
        &&& post.seq_no() == pre.seq_no()
        &&& post.known() == pre.known()
        &&& post.is_requested()
        &&& post.expected() == pre.known().len()
        &&& post.received() == 0
        &&& post.ledger() == Seq::<(Digest, Seq<ReceivedView<V>>)>::empty()
    }

    /// Starts with the given peers, idle, at sequence number zero.
    pub fn initialize_view_transfer_protocol(_config: ViewTransferConfig, view: Vec<NodeId>) -> (r: Self)
        ensures
            r.wf(),
            r.seq_no().0 == 0,
            !r.is_requested(),
            forall|n: NodeId| r.known().contains(n) <==> view@.contains(n),
            view@.no_duplicates() ==> r.known() == view@,
    {
        let mut r = SimpleViewTransferProtocol {
            current_seq_no: SeqNo::zero(),
            known_nodes: Vec::new(),
            current_state: TransferState::Idle,
        };
        let mut i: usize = 0;
        while i < view.len()
            invariant
                0 <= i <= view@.len(),
                r.wf(),
                r.current_seq_no.0 == 0,
                r.current_state is Idle,
                forall|n: NodeId| r.known_nodes@.contains(n) <==> view@.take(i as int).contains(n),
                view@.no_duplicates() ==> r.known_nodes@ == view@.take(i as int),
            decreases view@.len() - i,
        {
            let ghost before = r.known_nodes@;
            r.add_known(view[i]);
            proof {
                if view@.no_duplicates() {
                    assert(!view@.take(i as int).contains(view@[i as int]));
                    assert(r.known_nodes@ =~= before.push(view@[i as int]));
                }
                let prev = view@.take(i as int);
                let next = view@.take(i + 1);
                assert(next =~= prev.push(view@[i as int]));
                assert forall|n: NodeId| next.contains(n) <==> (prev.contains(n) || n == view@[i as int]) by {
                    if next.contains(n) && n != view@[i as int] {
                        let k = choose|k: int| 0 <= k < next.len() && next[k] == n;
                        assert(prev[k] == n);
                    }
                    if prev.contains(n) {
                        let k = choose|k: int| 0 <= k < prev.len() && prev[k] == n;
                        assert(next[k] == n);
                    }
                    assert(next[i as int] == view@[i as int]);
                }
            }
            i = i + 1;
        }
        assert(view@.take(view@.len() as int) =~= view@);
        r
    }

    fn add_known(&mut self, node: NodeId)
        requires
            old(self).wf(),
            !old(self).is_requested(),
        ensures
            final(self).wf(),
            final(self).current_seq_no == old(self).current_seq_no,
            final(self).current_state == old(self).current_state,
            includes(final(self).known_nodes@, old(self).known_nodes@),
            forall|n: NodeId|
                final(self).known_nodes@.contains(n) <==> (old(self).known_nodes@.contains(n) || n
                    == node),
            !old(self).known_nodes@.contains(node) ==> final(self).known_nodes@ == old(
                self,
            ).known_nodes@.push(node),
    {
        let mut i: usize = 0;
        while i < self.known_nodes.len()
            invariant
                *self == *old(self),
                self.wf(),
                0 <= i <= self.known_nodes@.len(),
                forall|k: int| 0 <= k < i ==> self.known_nodes@[k] != node,
            decreases self.known_nodes@.len() - i,
        {
            if self.known_nodes[i] == node {
                assert(self.known_nodes@[i as int] == node);
                return;
            }
            i = i + 1;
        }
        let ghost before = self.known_nodes@;
        self.known_nodes.push(node);
        proof {
            let after = self.known_nodes@;
            assert(!before.contains(node));
            assert forall|a: int, b: int| 0 <= a < after.len() && 0 <= b < after.len() && a != b implies after[a]
                != after[b] by {
                if a == before.len() {
                    assert(before[b] == after[b]);
                } else if b == before.len() {
                    assert(before[a] == after[a]);
                }
            }
            assert forall|n: NodeId| after.contains(n) <==> (before.contains(n) || n == node) by {
                if after.contains(n) && n != node {
                    let k = choose|k: int| 0 <= k < after.len() && after[k] == n;
                    assert(before[k] == n);
                }
                if before.contains(n) {
                    let k = choose|k: int| 0 <= k < before.len() && before[k] == n;
                    assert(after[k] == n);
                }
                assert(after[before.len() as int] == node);
            }
        }
    }

    fn next_seq(&mut self)
        ensures
            final(self).current_seq_no == old(self).current_seq_no.next_spec(),
            final(self).known_nodes == old(self).known_nodes,
            final(self).current_state == old(self).current_state,
    {
        self.current_seq_no = self.current_seq_no.next();
    }

    /// The current sequence number.
    pub fn sequence_number(&self) -> (r: SeqNo)
        ensures
            r == self.seq_no(),
    {
        self.current_seq_no
    }

    /// The name the protocol registers with the timeout driver under.
    pub fn mod_name() -> (r: &'static str)
        ensures
            r == MOD_NAME,
    {
        MOD_NAME
    }

    /// The protocol is driven by inbound messages only.
    pub fn poll(&self) -> (r: VTPollResult<StoredMessage<ViewTransferMessage<V>>>)
        ensures
            r is ReceiveMsg,
    {
        VTPollResult::ReceiveMsg
    }

    /// Starts a round: abandons any round in progress and broadcasts a view
    /// request with the current sequence number to every known peer.
    pub fn request_latest_view(&mut self) -> (r: Outbound<V>)
        requires
            old(self).wf(),
        ensures
            Self::fresh_round(old(self), final(self)),
            is_request_broadcast(r, final(self).known(), final(self).seq_no()),
    {
        let message = ViewTransferMessage::new(self.current_seq_no, ViewTransferMessageKind::RequestView);
        self.current_state = TransferState::Requested(self.known_nodes.len(), 0, VoteLedger::new());
        proof {
            assert(total(Seq::<(Digest, Seq<ReceivedView<V>>)>::empty()) == 0);
        }
        let targets = self.known_nodes.clone();
        assert(targets@ =~= self.known_nodes@);
        Outbound::Broadcast { targets, message }
    }

    /// Handles a message that belongs to no round of ours: a view request is
    /// answered with `current_view`, a view response is dropped.
    pub fn handle_off_context_msg(
        &mut self,
        current_view: V,
        message: StoredMessage<ViewTransferMessage<V>>,
    ) -> (r: Step<V>)
        ensures
            *final(self) == *old(self),
            r == off_context_step(message, current_view),
    {
        let (header, msg) = message.into_inner();
        let seq = msg.sequence_number();
        match msg.into_kind() {
            ViewTransferMessageKind::RequestView => {
                let reply = ViewTransferMessage::new(
                    seq,
                    ViewTransferMessageKind::ViewResponse(current_view),
                );
                Step {
                    result: VTResult::VTransferNotNeeded,
                    install: None,
                    outbound: Some(Outbound::Send { to: header.from(), message: reply }),
                }
            },
            ViewTransferMessageKind::ViewResponse(_) => Step {
                result: VTResult::VTransferNotNeeded,
                install: None,
                outbound: None,
            },
        }
    }
}


impl<V> SimpleViewTransferProtocol<V> {
    /// A view response is tallied: it answers our current request, a round is
    /// in progress, and its sender has not voted in it yet.
    pub open spec fn accepts(pre: &Self, message: StoredMessage<ViewTransferMessage<V>>) -> bool {
        &&& message.message.view_transfer_message_kind is ViewResponse
        &&& message.message.sequence == pre.seq_no()
        &&& pre.is_requested()
        &&& !has_voter(pre.ledger(), message.header.from)
    }

    /// Whether the protocol is without a round of its own.
    pub fn is_idle(&self) -> (r: bool)
        ensures
            r == !self.is_requested(),
    {
        match self.current_state {
            TransferState::Idle => true,
            TransferState::Requested(..) => false,
        }
    }

    /// The peers known so far.
    pub fn known_nodes(&self) -> (r: &Vec<NodeId>)
        ensures
            r@ == self.known(),
    {
        &self.known_nodes
    }

    /// Responders expected in the current round.
    pub fn expected_responders(&self) -> (r: Option<usize>)
        ensures
            r matches Some(n) ==> self.is_requested() && n as nat == self.expected(),
            r is None ==> !self.is_requested(),
    {
        match &self.current_state {
            TransferState::Requested(n, _, _) => Some(*n),
            TransferState::Idle => None,
        }
    }

    /// Responses accepted in the current round.
    pub fn responses_received(&self) -> (r: Option<usize>)
        ensures
            r matches Some(n) ==> self.is_requested() && n as nat == self.received(),
            r is None ==> !self.is_requested(),
    {
        match &self.current_state {
            TransferState::Requested(_, n, _) => Some(*n),
            TransferState::Idle => None,
        }
    }

    /// Votes for digest `d` in the current round.
    pub fn votes_for(&self, d: &Digest) -> (r: usize)
        requires
            self.wf(),
        ensures
            r == count(self.ledger(), *d),
    {
        match &self.current_state {
            TransferState::Requested(_, _, l) => l.count_of(d),
            TransferState::Idle => {
                assert(!crate::ledger::holds_digest(self.ledger(), *d));
                0
            },
        }
    }

    /// Each digest voted for in the current round with its number of votes.
    pub fn tallies(&self) -> (r: Vec<(Digest, usize)>)
        ensures
            r@.len() == self.ledger().len(),
            forall|k: int|
                0 <= k < r@.len() ==> r@[k].0 == self.ledger()[k].0 && r@[k].1 == self.ledger()[k].1.len(),
    {
        match &self.current_state {
            TransferState::Requested(_, _, l) => l.tallies(),
            TransferState::Idle => Vec::new(),
        }
    }

    /// On a timeout of the current round, starts a new round with the next
    /// sequence number, so that late answers to the old one are dropped.
    /// Without a round in progress nothing happens.
    pub fn handle_timeout(&mut self) -> (r: Option<Outbound<V>>)
        requires
            old(self).wf(),
        ensures
            final(self).wf(),
            final(self).seq_no().0 >= old(self).seq_no().0,
            includes(final(self).known(), old(self).known()),
            !old(self).is_requested() ==> *final(self) == *old(self) && r is None,
            old(self).is_requested() ==> {
                &&& final(self).seq_no() == old(self).seq_no().next_spec()
                &&& final(self).known() == old(self).known()
                &&& final(self).is_requested()
                &&& final(self).expected() == old(self).known().len()
                &&& final(self).received() == 0
                &&& final(self).ledger() == Seq::<(Digest, Seq<ReceivedView<V>>)>::empty()
                &&& r matches Some(out) && is_request_broadcast(out, final(self).known(), final(self).seq_no())
            },
    {
        if self.is_idle() {
            return None;
        }
        self.next_seq();
        Some(self.request_latest_view())
    }

    /// Responses accepted never outnumber the expected responders while
    /// every voter is a known peer, and the ledger holds exactly the
    /// accepted responses.
    pub proof fn lemma_ledger_containment(e: &Self)
        requires
            e.wf(),
            e.is_requested(),
            forall|n: NodeId| has_voter(e.ledger(), n) ==> e.known().contains(n),
        ensures
            total(e.ledger()) <= e.received() <= e.expected(),
    {
        match e.current_state {
            TransferState::Requested(_, _, l) => {
                e.known_nodes@.unique_seq_to_set();
                assert forall|n: NodeId| has_voter(l@, n) implies e.known_nodes@.to_set().contains(n) by {
                    assert(e.ledger() == l@);
                    assert(has_voter(e.ledger(), n));
                    assert(e.known().contains(n));
                    assert(e.known_nodes@.contains(n));
                }
                l.lemma_voters_bound(e.known_nodes@.to_set());
            },
            TransferState::Idle => {},
        }
    }

    /// Starting a round twice in a row leaves the same state as starting it
    /// once.
    pub proof fn lemma_request_twice(a: &Self, b: &Self, c: &Self)
        requires
            Self::fresh_round(a, b),
            Self::fresh_round(b, c),
        ensures
            c.seq_no() == b.seq_no(),
            c.known() == b.known(),
            c.is_requested() && b.is_requested(),
            c.expected() == b.expected(),
            c.received() == b.received(),
            c.ledger() == b.ledger(),
    {
    }
}

/// Two view requests from one sender with one sequence number get the same
/// answer.
pub proof fn lemma_off_context_repeatable<V>(
    m1: StoredMessage<ViewTransferMessage<V>>,
    m2: StoredMessage<ViewTransferMessage<V>>,
    view: V,
)
    requires
        m1.header.from == m2.header.from,
        m1.message.sequence == m2.message.sequence,
        m1.message.view_transfer_message_kind is RequestView,
        m2.message.view_transfer_message_kind is RequestView,
    ensures
        off_context_step(m1, view) == off_context_step(m2, view),
{
}

impl<V: NetworkView> SimpleViewTransferProtocol<V> {
    /// What tallying an accepted response does, from `pre` to `post` with
    /// step `r`.
    pub open spec fn tallied<Q: QuorumRule>(
        pre: &Self,
        post: &Self,
        rule: &Q,
        message: StoredMessage<ViewTransferMessage<V>>,
        r: Step<V>,
    ) -> bool {
        let s = with_response(pre.ledger(), as_received(message));
        let n = pre.expected();
        let q = rule.quorum_spec(n);
        let f = rule.faults_spec(n);
        let reached = count(s, message.header.digest) >= q;
        if reached && exists|k: int| sole_candidate(s, f, k) && s[k].1.len() >= q {
            let k = choose|k: int| sole_candidate(s, f, k) && s[k].1.len() >= q;
            &&& ledger_wf(s)
            &&& s[k].1.len() >= q
            &&& r.result == VTResult::VTransferFinished
            &&& r.install == Some(s[k].1.last().view)
            &&& r.outbound is None
            &&& !post.is_requested()
            &&& post.known() == pre.known()
        } else if reached && many_candidates(s, f) {
            &&& r.result == VTResult::VTransferRunning
            &&& r.install is None
            &&& post.is_requested()
            &&& post.expected() == post.known().len()
            &&& post.received() == 0
            &&& post.ledger() == Seq::<(Digest, Seq<ReceivedView<V>>)>::empty()
            &&& r.outbound matches Some(out) && is_request_broadcast(out, post.known(), post.seq_no())
        } else {
            &&& r.result == VTResult::VTransferRunning
            &&& r.install is None
            &&& r.outbound is None
            &&& post.is_requested()
            &&& post.expected() == n
            &&& post.received() == pre.received() + 1
            &&& post.ledger() == s
            &&& post.known() == pre.known()
        }
    }

    /// What handling `message` does, from `pre` to `post` with step `r`.
    pub open spec fn processed<Q: QuorumRule>(
        pre: &Self,
        post: &Self,
        rule: &Q,
        current_view: V,
        message: StoredMessage<ViewTransferMessage<V>>,
        r: Step<V>,
    ) -> bool {
        if message.message.view_transfer_message_kind is RequestView {
            &&& *post == *pre
            &&& r.result == VTResult::VTransferRunning
            &&& r.install is None
            &&& r.outbound == Some(view_reply(message.header.from, message.message.sequence, current_view))
        } else if !Self::accepts(pre, message) {
            &&& *post == *pre
            &&& r.result == VTResult::VTransferNotNeeded
            &&& r.install is None
            &&& r.outbound is None
        } else {
            Self::tallied(pre, post, rule, message, r)
        }
    }

    /// A view is only finalized once a quorum of distinct peers reported its
    /// digest in the current round; the installed view is one of theirs.
    pub proof fn lemma_finalization_threshold<Q: QuorumRule>(
        pre: &Self,
        post: &Self,
        rule: &Q,
        current_view: V,
        message: StoredMessage<ViewTransferMessage<V>>,
        r: Step<V>,
    )
        requires
            Self::processed(pre, post, rule, current_view, message, r),
            r.result == VTResult::VTransferFinished,
        ensures
            Self::accepts(pre, message),
            exists|k: int|
                #[trigger] quorum_bucket(
                    with_response(pre.ledger(), as_received(message)),
                    k,
                    rule.quorum_spec(pre.expected()),
                ) && r.install == Some(
                    with_response(pre.ledger(), as_received(message))[k].1.last().view,
                ),
    {
        let s = with_response(pre.ledger(), as_received(message));
        let n = pre.expected();
        let q = rule.quorum_spec(n);
        let f = rule.faults_spec(n);
        let k = choose|k: int| sole_candidate(s, f, k) && s[k].1.len() >= q;
        assert(ledger_wf(s));
        assert forall|i: int, j: int|
            0 <= i < s[k].1.len() && 0 <= j < s[k].1.len() && i != j implies s[k].1[i].node
            != s[k].1[j].node by {
        }
        assert(quorum_bucket(s, k, q));
    }

    /// A response that does not carry the current sequence number changes
    /// nothing and is reported as not needed.
    pub proof fn lemma_stale_response_rejected<Q: QuorumRule>(
        pre: &Self,
        post: &Self,
        rule: &Q,
        current_view: V,
        message: StoredMessage<ViewTransferMessage<V>>,
        r: Step<V>,
    )
        requires
            Self::processed(pre, post, rule, current_view, message, r),
            message.message.view_transfer_message_kind is ViewResponse,
            message.message.sequence != pre.seq_no(),
        ensures
            *post == *pre,
            r.result == VTResult::VTransferNotNeeded,
            r.install is None,
            r.outbound is None,
    {
    }

    /// Adds the quorum members of the first view of every bucket with more
    /// than `f` votes to the known peers.
    fn absorb_members(&mut self, ledger: &VoteLedger<V>, f: usize)
        requires
            old(self).wf(),
            !old(self).is_requested(),
            ledger.wf(),
        ensures
            final(self).wf(),
            !final(self).is_requested(),
            final(self).current_seq_no == old(self).current_seq_no,
            includes(final(self).known_nodes@, old(self).known_nodes@),
    {
        let mut k: usize = 0;
        while k < ledger.len()
            invariant
                self.wf(),
                !self.is_requested(),
                self.current_seq_no == old(self).current_seq_no,
                ledger.wf(),
                0 <= k <= ledger@.len(),
                includes(self.known_nodes@, old(self).known_nodes@),
            decreases ledger@.len() - k,
        {
            if ledger.bucket_len(k) > f {
                let members = ledger.first_view(k).quorum_members();
                let mut j: usize = 0;
                while j < members.len()
                    invariant
                        self.wf(),
                        !self.is_requested(),
                        self.current_seq_no == old(self).current_seq_no,
                        0 <= j <= members@.len(),
                        includes(self.known_nodes@, old(self).known_nodes@),
                    decreases members@.len() - j,
                {
                    self.add_known(members[j]);
                    j = j + 1;
                }
            }
            k = k + 1;
        }
    }

    /// Handles a message of the protocol.
    ///
    /// A view request is answered with `current_view`. A view response is
    /// dropped unless it answers the current request of a round in progress
    /// and its sender has not voted in that round. Otherwise it is filed under
    /// its digest; once its bucket reaches the quorum, a single bucket above
    /// the fault bound finalizes its last view, and two or more start a new
    /// round that also polls the quorum members of each of their views.
    pub fn process_message<Q: QuorumRule>(
        &mut self,
        rule: &Q,
        current_view: V,
        message: StoredMessage<ViewTransferMessage<V>>,
    ) -> (r: Step<V>)
        requires
            old(self).wf(),
        ensures
            final(self).wf(),
            final(self).seq_no() == old(self).seq_no(),
            includes(final(self).known(), old(self).known()),
            old(self).is_requested() && !final(self).is_requested() ==> final(self).received() == 0
                && final(self).ledger() == Seq::<(Digest, Seq<ReceivedView<V>>)>::empty(),
            Self::processed(old(self), final(self), rule, current_view, message, r),
    {
        let ghost pre = *self;
        let (header, msg) = message.into_inner();
        let seq = msg.sequence_number();
        match msg.into_kind() {
            ViewTransferMessageKind::RequestView => {
                let reply = ViewTransferMessage::new(
                    seq,
                    ViewTransferMessageKind::ViewResponse(current_view),
                );
                Step {
                    result: VTResult::VTransferRunning,
                    install: None,
                    outbound: Some(Outbound::Send { to: header.from(), message: reply }),
                }
            },
            ViewTransferMessageKind::ViewResponse(view) => {
                let ignored = Step { result: VTResult::VTransferNotNeeded, install: None, outbound: None };
                if seq != self.current_seq_no {
                    return ignored;
                }
                let mut state = TransferState::Idle;
                core::mem::swap(&mut self.current_state, &mut state);
                match state {
                    TransferState::Idle => ignored,
                    TransferState::Requested(n, received, mut ledger) => {
                        let from = header.from();
                        if ledger.has_voted(from) {
                            self.current_state = TransferState::Requested(n, received, ledger);
                            return ignored;
                        }
                        let digest = header.digest;
                        ledger.record(ReceivedView::new(from, digest, view));
                        let ghost s = ledger@;
                        assert(s == with_response(pre.ledger(), as_received(message)));
                        let received = ledger.responses();
                        let quorum = rule.get_quorum_for_n(n);
                        let running = Step { result: VTResult::VTransferRunning, install: None, outbound: None };
                        if ledger.count_of(&digest) < quorum {
                            self.current_state = TransferState::Requested(n, received, ledger);
                            return running;
                        }
                        let f = rule.get_f_for_n(n);
                        match ledger.candidates(f) {
                            Candidates::One(k) => {
                                if ledger.bucket_len(k) >= quorum {
                                    proof {
                                        assert(sole_candidate(s, f as nat, k as int) && s[k as int].1.len() >= quorum);
                                        let c = choose|c: int| sole_candidate(s, f as nat, c) && s[c].1.len() >= quorum;
                                        assert(c == k);
                                    }
                                    let v = ledger.into_last_view(k);
                                    return Step { result: VTResult::VTransferFinished, install: Some(v), outbound: None };
                                }
                                proof {
                                    assert forall|c: int| !(sole_candidate(s, f as nat, c) && s[c].1.len() >= quorum) by {
                                        if sole_candidate(s, f as nat, c) && c != k {
                                            assert(s[k as int].1.len() > f);
                                        }
                                    }
                                    assert(!many_candidates(s, f as nat));
                                }
                                self.current_state = TransferState::Requested(n, received, ledger);
                                running
                            },
                            Candidates::Many => {
                                proof {
                                    assert forall|c: int| !(sole_candidate(s, f as nat, c) && s[c].1.len() >= quorum) by {
                                        if sole_candidate(s, f as nat, c) {
                                            let (j, i) = choose|j: int, i: int|
                                                0 <= j < s.len() && 0 <= i < s.len() && j != i && s[j].1.len() > f && s[i].1.len() > f;
                                            assert(j == c || i == c);
                                        }
                                    }
                                }
                                self.absorb_members(&ledger, f);
                                let out = self.request_latest_view();
                                Step { result: VTResult::VTransferRunning, install: None, outbound: Some(out) }
                            },
                            Candidates::Zero => {
                                proof {
                                    assert forall|c: int| !(sole_candidate(s, f as nat, c) && s[c].1.len() >= quorum) by {
                                    }
                                }
                                self.current_state = TransferState::Requested(n, received, ledger);
                                running
                            },
                        }
                    },
                }
            },
        }
    }
}

} // verus!
