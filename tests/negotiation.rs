use webrtc_signaling::error::SignalingError;
use webrtc_signaling::negotiation::{Action, Event, Negotiation, Phase, Role};

/// One simulated side: a negotiation and a fake media transport.
struct Side {
    n: Negotiation,
    local: Vec<Vec<u8>>,
    pulled: usize,
    descriptor: Vec<u8>,
    remote_descriptor: Option<Vec<u8>>,
    applied: usize,
    end_applied: bool,
    action: Action,
}

impl Side {
    fn new(role: Role, candidates: usize, descriptor: &[u8]) -> Side {
        let local = (0..candidates).map(|i| format!("{{\"candidate\":{}}}", i).into_bytes()).collect();
        Side {
            n: Negotiation::new(role),
            local,
            pulled: 0,
            descriptor: descriptor.to_vec(),
            remote_descriptor: None,
            applied: 0,
            end_applied: false,
            action: Action::Idle,
        }
    }

    fn done(&self) -> bool {
        matches!(self.n.phase(), Phase::Done | Phase::Failed(_))
    }
}

fn well_formed(text: &[u8]) -> bool {
    text.first() == Some(&b'{') && text.last() == Some(&b'}')
}

/// Runs both sides over a loopback pair until both stop.
fn run(init: &mut Side, resp: &mut Side) {
    let mut to_resp: Vec<u8> = Vec::new();
    let mut to_init: Vec<u8> = Vec::new();
    init.action = init.n.step(Event::Start);
    resp.action = resp.n.step(Event::Start);
    for _ in 0..100_000 {
        if init.done() && resp.done() {
            return;
        }
        to_resp.extend(init.n.take_outgoing());
        to_init.extend(resp.n.take_outgoing());
        let init_failed = matches!(init.n.phase(), Phase::Failed(_));
        let resp_failed = matches!(resp.n.phase(), Phase::Failed(_));
        let init_done = init.n.phase() == Phase::Done;
        drive(init, &mut to_init, &mut to_resp, resp_failed, true);
        drive(resp, &mut to_resp, &mut to_init, init_failed, init_done);
    }
    panic!("negotiation did not finish");
}

fn drive(s: &mut Side, inbound: &mut Vec<u8>, outbound: &mut Vec<u8>, peer_failed: bool, channel_open: bool) {
    let event = match &s.action {
        Action::CreateLocalDescriptor => Some(Event::LocalDescriptor(s.descriptor.clone())),
        Action::ApplyRemoteDescriptor(d) => {
            if well_formed(d) {
                s.remote_descriptor = Some(d.clone());
                Some(Event::Applied)
            } else {
                Some(Event::Fault(SignalingError::Codec))
            }
        }
        Action::ApplyRemoteCandidate(c) => {
            if well_formed(c) {
                s.applied += 1;
                Some(Event::Applied)
            } else {
                Some(Event::Fault(SignalingError::Codec))
            }
        }
        Action::ApplyEndOfCandidates => {
            s.end_applied = true;
            Some(Event::Applied)
        }
        Action::PullLocalCandidate => {
            let c = s.local.get(s.pulled).cloned();
            if c.is_some() {
                s.pulled += 1;
            }
            Some(Event::LocalCandidate(c))
        }
        Action::ReadMore => {
            if inbound.is_empty() {
                if peer_failed {
                    Some(Event::PeerFinished)
                } else {
                    None
                }
            } else {
                Some(Event::Incoming(std::mem::take(inbound)))
            }
        }
        Action::AwaitWriteClosed => {
            if peer_failed {
                Some(Event::Fault(SignalingError::TransportWrite))
            } else if outbound.is_empty() {
                Some(Event::WriteClosed)
            } else {
                None
            }
        }
        Action::AwaitChannel => {
            if channel_open {
                Some(Event::ChannelOpened)
            } else {
                None
            }
        }
        Action::Finished | Action::Failed(_) | Action::Idle => None,
    };
    if let Some(e) = event {
        s.action = s.n.step(e);
    }
}

fn exchange(init_candidates: usize, resp_candidates: usize) -> (Side, Side) {
    let mut init = Side::new(Role::Initiator, init_candidates, b"{\"type\":\"offer\"}");
    let mut resp = Side::new(Role::Responder, resp_candidates, b"{\"type\":\"answer\"}");
    run(&mut init, &mut resp);
    (init, resp)
}

#[test]
fn initiator_without_candidates_meets_responder_with_two() {
    let (init, resp) = exchange(0, 2);
    assert_eq!(init.n.phase(), Phase::Done);
    assert_eq!(resp.n.phase(), Phase::Done);
    assert_eq!(init.applied, 2);
    assert_eq!(resp.applied, 0);
    assert!(init.end_applied && resp.end_applied);
    assert_eq!(init.remote_descriptor, Some(b"{\"type\":\"answer\"}".to_vec()));
    assert_eq!(resp.remote_descriptor, Some(b"{\"type\":\"offer\"}".to_vec()));
}

#[test]
fn applied_counts_match_discovered_counts() {
    for (a, b) in [(0, 0), (1, 0), (3, 1), (5, 7), (20, 20)] {
        let (init, resp) = exchange(a, b);
        assert_eq!(init.n.phase(), Phase::Done);
        assert_eq!(resp.n.phase(), Phase::Done);
        assert_eq!(init.applied, b);
        assert_eq!(resp.applied, a);
    }
}

#[test]
fn malformed_descriptor_fails_with_codec_error() {
    let mut init = Side::new(Role::Initiator, 1, b"not a descriptor");
    let mut resp = Side::new(Role::Responder, 1, b"{\"type\":\"answer\"}");
    run(&mut init, &mut resp);
    assert_eq!(resp.n.phase(), Phase::Failed(SignalingError::Codec));
    assert!(matches!(resp.action, Action::Failed(SignalingError::Codec)));
    assert!(resp.remote_descriptor.is_none());
    assert_eq!(init.n.phase(), Phase::Failed(SignalingError::TransportRead));

    // A later, independent connection still negotiates.
    let (init2, resp2) = exchange(1, 1);
    assert_eq!(init2.n.phase(), Phase::Done);
    assert_eq!(resp2.n.phase(), Phase::Done);
}

#[test]
fn stream_ending_before_descriptor_is_a_read_error() {
    let mut resp = Negotiation::new(Role::Responder);
    assert!(matches!(resp.step(Event::Start), Action::ReadMore));
    assert!(matches!(resp.step(Event::PeerFinished), Action::Failed(SignalingError::TransportRead)));
    assert_eq!(resp.phase(), Phase::Failed(SignalingError::TransportRead));
    assert!(matches!(resp.step(Event::Applied), Action::Idle));
}

#[test]
fn oversized_local_descriptor_fails_before_writing() {
    let mut init = Negotiation::new(Role::Initiator);
    assert!(matches!(init.step(Event::Start), Action::CreateLocalDescriptor));
    let big = vec![b'a'; 70_000];
    assert!(matches!(init.step(Event::LocalDescriptor(big)), Action::Failed(SignalingError::TransportWrite)));
    assert!(init.take_outgoing().is_empty());
}

#[test]
fn fault_ends_the_negotiation() {
    let mut init = Negotiation::new(Role::Initiator);
    init.step(Event::Start);
    assert!(matches!(init.step(Event::Fault(SignalingError::MediaTransport)), Action::Failed(SignalingError::MediaTransport)));
    assert_eq!(init.phase(), Phase::Failed(SignalingError::MediaTransport));
    assert_eq!(init.role(), Role::Initiator);
}

#[test]
fn initiator_writes_all_candidates_before_reading() {
    let mut init = Negotiation::new(Role::Initiator);
    init.step(Event::Start);
    init.step(Event::LocalDescriptor(b"{}".to_vec()));
    let _ = init.take_outgoing();
    let mut answer = Vec::new();
    answer.extend_from_slice(&[0u8, 2, b'{', b'}']);
    assert!(matches!(init.step(Event::Incoming(answer)), Action::ApplyRemoteDescriptor(_)));
    assert!(matches!(init.step(Event::Applied), Action::PullLocalCandidate));
    // A remote candidate arriving now is kept, not read.
    assert!(matches!(init.step(Event::Incoming(vec![0u8, 2, b'{', b'}', 0, 0])), Action::Idle));
    assert!(matches!(init.step(Event::LocalCandidate(Some(b"{1}".to_vec()))), Action::PullLocalCandidate));
    assert!(matches!(init.step(Event::LocalCandidate(None)), Action::AwaitWriteClosed));
    assert_eq!(init.take_outgoing(), vec![0u8, 3, b'{', b'1', b'}', 0, 0]);
    match init.step(Event::WriteClosed) {
        Action::ApplyRemoteCandidate(c) => assert_eq!(c, b"{}".to_vec()),
        _ => panic!("expected a remote candidate"),
    }
    assert!(matches!(init.step(Event::Applied), Action::ApplyEndOfCandidates));
    assert!(matches!(init.step(Event::Applied), Action::Finished));
}
