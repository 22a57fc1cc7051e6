use atlas_view_transfer::metrics::{metrics, MetricKind, MetricLevel};
use atlas_view_transfer::{
    ByzantineQuorum, Digest, Header, NetworkView, NodeId, Outbound, QuorumRule, SeqNo,
    SimpleViewTransferProtocol, Step, StoredMessage, VTPollResult, VTResult, ViewTransferConfig,
    ViewTransferMessage, ViewTransferMessageKind,
};
use std::time::Duration;

#[derive(Clone, Debug, PartialEq)]
struct TestView {
    number: u32,
    members: Vec<NodeId>,
}

impl NetworkView for TestView {
    fn quorum_members(&self) -> Vec<NodeId> {
        self.members.clone()
    }
}

type Engine = SimpleViewTransferProtocol<TestView>;

fn nodes(ids: &[u32]) -> Vec<NodeId> {
    ids.iter().map(|i| NodeId(*i)).collect()
}

fn view(number: u32, ids: &[u32]) -> TestView {
    TestView { number, members: nodes(ids) }
}

fn engine(ids: &[u32]) -> Engine {
    let config = ViewTransferConfig::new(Duration::from_secs(1));
    SimpleViewTransferProtocol::initialize_view_transfer_protocol(config, nodes(ids))
}

fn digest(b: u8) -> Digest {
    Digest::new([b; 32])
}

fn response(from: u32, d: u8, seq: u64, v: TestView) -> StoredMessage<ViewTransferMessage<TestView>> {
    StoredMessage::new(
        Header { from: NodeId(from), digest: digest(d) },
        ViewTransferMessage::new(SeqNo(seq), ViewTransferMessageKind::ViewResponse(v)),
    )
}

fn request(from: u32, seq: u64) -> StoredMessage<ViewTransferMessage<TestView>> {
    StoredMessage::new(
        Header { from: NodeId(from), digest: digest(0) },
        ViewTransferMessage::new(SeqNo(seq), ViewTransferMessageKind::RequestView),
    )
}

fn own_view() -> TestView {
    view(99, &[1, 2, 3, 4])
}

fn deliver(e: &mut Engine, m: StoredMessage<ViewTransferMessage<TestView>>) -> Step<TestView> {
    e.process_message(&ByzantineQuorum, own_view(), m)
}

fn broadcast_of(out: &Outbound<TestView>) -> (Vec<NodeId>, SeqNo, bool) {
    match out {
        Outbound::Broadcast { targets, message } => (
            targets.clone(),
            message.sequence_number(),
            matches!(message.kind(), ViewTransferMessageKind::RequestView),
        ),
        Outbound::Send { .. } => panic!("expected a broadcast"),
    }
}

#[test]
fn quorum_thresholds() {
    let q = ByzantineQuorum;
    assert_eq!((q.get_f_for_n(4), q.get_quorum_for_n(4)), (1, 3));
    assert_eq!((q.get_f_for_n(7), q.get_quorum_for_n(7)), (2, 5));
    assert_eq!((q.get_f_for_n(1), q.get_quorum_for_n(1)), (0, 1));
    assert_eq!((q.get_f_for_n(5), q.get_quorum_for_n(5)), (1, 4));
    assert_eq!((q.get_f_for_n(0), q.get_quorum_for_n(0)), (0, 1));
    assert_eq!(q.get_f_for_n(10), 3);
    assert_eq!(q.get_quorum_for_n(10), 7);
}

#[test]
fn starts_idle_with_given_peers() {
    let e = engine(&[1, 2, 3, 2, 4]);
    assert!(e.is_idle());
    assert_eq!(e.sequence_number(), SeqNo(0));
    assert_eq!(e.known_nodes(), &nodes(&[1, 2, 3, 4]));
    assert!(matches!(e.poll(), VTPollResult::ReceiveMsg));
    assert_eq!(Engine::mod_name(), "ATLAS_VIEW_TRANSFER");
}

#[test]
fn request_broadcasts_to_known_peers() {
    let mut e = engine(&[1, 2, 3, 4]);
    let out = e.request_latest_view();
    assert_eq!(broadcast_of(&out), (nodes(&[1, 2, 3, 4]), SeqNo(0), true));
    assert!(!e.is_idle());
    assert_eq!(e.expected_responders(), Some(4));
    assert_eq!(e.responses_received(), Some(0));
}

#[test]
fn happy_path_finalizes_on_quorum() {
    let mut e = engine(&[1, 2, 3, 4]);
    e.request_latest_view();
    let v = view(5, &[1, 2, 3, 4]);
    let s = deliver(&mut e, response(2, 0xAA, 0, v.clone()));
    assert_eq!(s.result, VTResult::VTransferRunning);
    assert!(s.install.is_none());
    assert_eq!(e.votes_for(&digest(0xAA)), 1);
    let s = deliver(&mut e, response(3, 0xAA, 0, v.clone()));
    assert_eq!(s.result, VTResult::VTransferRunning);
    assert_eq!(e.votes_for(&digest(0xAA)), 2);
    let s = deliver(&mut e, response(4, 0xAA, 0, v.clone()));
    assert_eq!(s.result, VTResult::VTransferFinished);
    assert_eq!(s.install, Some(v));
    assert!(s.outbound.is_none());
    assert!(e.is_idle());
    assert_eq!(e.responses_received(), None);
    assert_eq!(e.votes_for(&digest(0xAA)), 0);
}

#[test]
fn split_votes_wait_then_recover() {
    let mut e = engine(&[1, 2, 3, 4]);
    e.request_latest_view();
    let x = view(5, &[1, 2, 3, 4]);
    let y = view(6, &[1, 2, 3, 4]);
    assert_eq!(deliver(&mut e, response(2, 0x01, 0, x.clone())).result, VTResult::VTransferRunning);
    assert_eq!(deliver(&mut e, response(3, 0x01, 0, x.clone())).result, VTResult::VTransferRunning);
    let s = deliver(&mut e, response(4, 0x02, 0, y));
    assert_eq!(s.result, VTResult::VTransferRunning);
    assert!(s.install.is_none());
    assert_eq!(e.responses_received(), Some(3));
    assert_eq!(e.votes_for(&digest(0x01)), 2);
    assert_eq!(e.votes_for(&digest(0x02)), 1);
    let s = deliver(&mut e, response(5, 0x01, 0, x.clone()));
    assert_eq!(s.result, VTResult::VTransferFinished);
    assert_eq!(s.install, Some(x));
    assert!(e.is_idle());
}

#[test]
fn conflicting_quorums_rerun() {
    let mut e = engine(&[1, 2, 3, 4, 5, 6, 7]);
    e.request_latest_view();
    let x = view(5, &[1, 2, 3, 4, 5, 6, 7]);
    let y = view(6, &[1, 2, 8, 9]);
    let order = [(1, true), (2, false), (3, true), (4, false), (5, true), (6, false), (7, true)];
    for (node, is_x) in order {
        let s = if is_x {
            deliver(&mut e, response(node, 0x01, 0, x.clone()))
        } else {
            deliver(&mut e, response(node, 0x02, 0, y.clone()))
        };
        assert_eq!(s.result, VTResult::VTransferRunning);
        assert!(s.outbound.is_none());
    }
    let s = deliver(&mut e, response(10, 0x01, 0, x));
    assert_eq!(s.result, VTResult::VTransferRunning);
    assert!(s.install.is_none());
    let out = s.outbound.expect("a new round is broadcast");
    let known = nodes(&[1, 2, 3, 4, 5, 6, 7, 8, 9]);
    assert_eq!(broadcast_of(&out), (known.clone(), SeqNo(0), true));
    assert_eq!(e.known_nodes(), &known);
    assert!(!e.is_idle());
    assert_eq!(e.expected_responders(), Some(9));
    assert_eq!(e.responses_received(), Some(0));
    assert_eq!(e.votes_for(&digest(0x01)), 0);
    assert_eq!(e.votes_for(&digest(0x02)), 0);
}

#[test]
fn stale_response_is_dropped() {
    let mut e = engine(&[1, 2, 3, 4]);
    for _ in 0..7 {
        e.request_latest_view();
        e.handle_timeout();
    }
    assert_eq!(e.sequence_number(), SeqNo(7));
    deliver(&mut e, response(2, 0x01, 7, view(5, &[1])));
    assert_eq!(e.responses_received(), Some(1));
    let s = deliver(&mut e, response(3, 0x01, 6, view(5, &[1])));
    assert_eq!(s.result, VTResult::VTransferNotNeeded);
    assert!(s.install.is_none() && s.outbound.is_none());
    assert_eq!(e.sequence_number(), SeqNo(7));
    assert_eq!(e.responses_received(), Some(1));
    assert_eq!(e.votes_for(&digest(0x01)), 1);
}

#[test]
fn stale_response_while_idle() {
    let mut e = engine(&[1, 2, 3, 4]);
    for _ in 0..7 {
        e.request_latest_view();
        e.handle_timeout();
    }
    let v = view(5, &[1]);
    let s = deliver(&mut e, response(2, 0x01, 7, v.clone()));
    assert_eq!(s.result, VTResult::VTransferRunning);
    let done = deliver(&mut e, response(3, 0x01, 7, v.clone()));
    assert_eq!(done.result, VTResult::VTransferRunning);
    let done = deliver(&mut e, response(4, 0x01, 7, v.clone()));
    assert_eq!(done.result, VTResult::VTransferFinished);
    assert!(e.is_idle());
    assert_eq!(e.sequence_number(), SeqNo(7));
    let s = deliver(&mut e, response(2, 0x02, 6, view(6, &[1])));
    assert_eq!(s.result, VTResult::VTransferNotNeeded);
    assert!(s.install.is_none() && s.outbound.is_none());
    assert!(e.is_idle());
    assert_eq!(e.sequence_number(), SeqNo(7));
}

#[test]
fn response_while_idle_is_dropped() {
    let mut e = engine(&[1, 2, 3, 4]);
    let s = deliver(&mut e, response(2, 0x01, 0, view(5, &[1])));
    assert_eq!(s.result, VTResult::VTransferNotNeeded);
    assert!(e.is_idle());
}

#[test]
fn request_during_round_is_answered() {
    let mut e = engine(&[1, 2, 3, 4]);
    e.request_latest_view();
    deliver(&mut e, response(2, 0x01, 0, view(5, &[1])));
    let s = deliver(&mut e, request(9, 42));
    assert_eq!(s.result, VTResult::VTransferRunning);
    assert!(s.install.is_none());
    match s.outbound {
        Some(Outbound::Send { to, message }) => {
            assert_eq!(to, NodeId(9));
            assert_eq!(message.sequence_number(), SeqNo(42));
            match message.into_kind() {
                ViewTransferMessageKind::ViewResponse(v) => assert_eq!(v, own_view()),
                ViewTransferMessageKind::RequestView => panic!("expected a view response"),
            }
        }
        _ => panic!("expected a reply"),
    }
    assert!(!e.is_idle());
    assert_eq!(e.responses_received(), Some(1));
    assert_eq!(e.votes_for(&digest(0x01)), 1);
}

#[test]
fn off_context_request_answered_twice_alike() {
    let mut e = engine(&[1, 2, 3, 4]);
    e.request_latest_view();
    let a = e.handle_off_context_msg(own_view(), request(7, 3));
    let b = e.handle_off_context_msg(own_view(), request(7, 3));
    for s in [&a, &b] {
        assert_eq!(s.result, VTResult::VTransferNotNeeded);
        match &s.outbound {
            Some(Outbound::Send { to, message }) => {
                assert_eq!(*to, NodeId(7));
                assert_eq!(message.sequence_number(), SeqNo(3));
                assert!(matches!(message.kind(), ViewTransferMessageKind::ViewResponse(v) if *v == own_view()));
            }
            _ => panic!("expected a reply"),
        }
    }
    assert_eq!(e.responses_received(), Some(0));
    assert_eq!(e.sequence_number(), SeqNo(0));
    let s = e.handle_off_context_msg(own_view(), response(2, 0x01, 0, view(5, &[1])));
    assert_eq!(s.result, VTResult::VTransferNotNeeded);
    assert!(s.outbound.is_none());
    assert_eq!(e.responses_received(), Some(0));
}

#[test]
fn rerequest_resets_round() {
    let mut e = engine(&[1, 2, 3, 4]);
    e.request_latest_view();
    deliver(&mut e, response(2, 0x01, 0, view(5, &[1])));
    let first = e.request_latest_view();
    let second = e.request_latest_view();
    assert_eq!(broadcast_of(&first), broadcast_of(&second));
    assert_eq!(e.expected_responders(), Some(4));
    assert_eq!(e.responses_received(), Some(0));
    assert_eq!(e.votes_for(&digest(0x01)), 0);
    assert_eq!(e.sequence_number(), SeqNo(0));
}

#[test]
fn timeout_reruns_with_next_sequence() {
    let mut e = engine(&[1, 2, 3, 4]);
    e.request_latest_view();
    deliver(&mut e, response(2, 0x01, 0, view(5, &[1])));
    let out = e.handle_timeout().expect("a new round is broadcast");
    assert_eq!(broadcast_of(&out), (nodes(&[1, 2, 3, 4]), SeqNo(1), true));
    assert_eq!(e.responses_received(), Some(0));
    assert_eq!(e.votes_for(&digest(0x01)), 0);
    let s = deliver(&mut e, response(3, 0x01, 0, view(5, &[1])));
    assert_eq!(s.result, VTResult::VTransferNotNeeded);
    assert_eq!(e.responses_received(), Some(0));
}

#[test]
fn timeout_when_idle_does_nothing() {
    let mut e = engine(&[1, 2, 3, 4]);
    assert!(e.handle_timeout().is_none());
    assert_eq!(e.sequence_number(), SeqNo(0));
    assert!(e.is_idle());
}

#[test]
fn duplicate_vote_is_ignored() {
    let mut e = engine(&[1, 2, 3, 4]);
    e.request_latest_view();
    let v = view(5, &[1]);
    deliver(&mut e, response(2, 0x01, 0, v.clone()));
    let s = deliver(&mut e, response(2, 0x01, 0, v.clone()));
    assert_eq!(s.result, VTResult::VTransferNotNeeded);
    assert_eq!(e.responses_received(), Some(1));
    let s = deliver(&mut e, response(2, 0x02, 0, v.clone()));
    assert_eq!(s.result, VTResult::VTransferNotNeeded);
    assert_eq!(e.responses_received(), Some(1));
    assert_eq!(e.votes_for(&digest(0x01)), 1);
    assert_eq!(e.votes_for(&digest(0x02)), 0);
    deliver(&mut e, response(3, 0x01, 0, v.clone()));
    assert_eq!(deliver(&mut e, response(2, 0x01, 0, v.clone())).result, VTResult::VTransferNotNeeded);
    assert_eq!(deliver(&mut e, response(4, 0x01, 0, v)).result, VTResult::VTransferFinished);
}

#[test]
fn responses_stay_within_expected() {
    let mut e = engine(&[1, 2, 3, 4]);
    e.request_latest_view();
    for (node, d) in [(1, 1u8), (2, 2), (3, 3), (4, 4)] {
        deliver(&mut e, response(node, d, 0, view(d as u32, &[1])));
        let received = e.responses_received().unwrap();
        assert!(received <= e.expected_responders().unwrap());
    }
    assert_eq!(e.responses_received(), Some(4));
}

#[test]
fn peers_only_grow() {
    let mut e = engine(&[1, 2, 3, 4]);
    let before = e.known_nodes().clone();
    e.request_latest_view();
    let x = view(5, &[1, 2, 3, 4]);
    let y = view(6, &[4, 5]);
    deliver(&mut e, response(1, 0x01, 0, x.clone()));
    deliver(&mut e, response(2, 0x02, 0, y.clone()));
    deliver(&mut e, response(3, 0x02, 0, y));
    let s = deliver(&mut e, response(4, 0x01, 0, x.clone()));
    assert_eq!(s.result, VTResult::VTransferRunning);
    let s = deliver(&mut e, response(5, 0x01, 0, x));
    assert_eq!(s.result, VTResult::VTransferRunning);
    assert!(s.outbound.is_some());
    let after = e.known_nodes().clone();
    assert!(before.iter().all(|n| after.contains(n)));
    assert_eq!(after, nodes(&[1, 2, 3, 4, 5]));
}

#[test]
fn sequence_numbers_never_decrease() {
    let mut e = engine(&[1, 2]);
    let mut last = e.sequence_number();
    for i in 0..5u32 {
        e.request_latest_view();
        deliver(&mut e, response(1, 1, last.0, view(i, &[1, 2])));
        e.handle_timeout();
        assert!(e.sequence_number().0 >= last.0);
        last = e.sequence_number();
    }
    assert_eq!(last, SeqNo(5));
    assert_eq!(SeqNo(u64::MAX).next(), SeqNo(u64::MAX));
    assert_eq!(SeqNo(3).next(), SeqNo(4));
}

#[test]
fn digests_compare_by_content() {
    assert!(digest(1) == digest(1));
    assert!(digest(1) != digest(2));
    let mut bytes = [7u8; 32];
    bytes[31] = 8;
    assert!(Digest::new(bytes) != digest(7));
    assert_eq!(Digest::new(bytes).as_bytes(), bytes);
}

#[test]
fn published_metrics() {
    let m = metrics();
    assert_eq!(m.len(), 1);
    assert_eq!(m[0].id, 900);
    assert_eq!(m[0].name, "VT_MSG_PROCESS_TIME");
    assert_eq!(m[0].kind, MetricKind::Duration);
    assert_eq!(m[0].level, MetricLevel::Info);
}

#[test]
fn off_context_request_during_own_round() {
    let mut e = engine(&[1, 2, 3, 4]);
    e.request_latest_view();
    deliver(&mut e, response(2, 0x01, 0, view(5, &[1])));
    let s = e.handle_off_context_msg(own_view(), request(8, 11));
    assert_eq!(s.result, VTResult::VTransferNotNeeded);
    assert!(s.install.is_none());
    match s.outbound {
        Some(Outbound::Send { to, message }) => {
            assert_eq!(to, NodeId(8));
            assert_eq!(message.sequence_number(), SeqNo(11));
            assert!(matches!(message.into_kind(), ViewTransferMessageKind::ViewResponse(v) if v == own_view()));
        }
        _ => panic!("expected a reply"),
    }
    assert!(!e.is_idle());
    assert_eq!(e.sequence_number(), SeqNo(0));
    assert_eq!(e.responses_received(), Some(1));
    assert_eq!(e.tallies(), vec![(digest(0x01), 1)]);
}
