use vstd::prelude::*;

use crate::channel::{
    close_spec, deliver_spec, end_marker, finish_spec, frames_of, lemma_frame_header,
    receive_spec, send_ok, send_spec, valid_payload, Channel, ChannelView, Received,
};
use crate::error::SignalingError;

verus! {

/// Which side of the negotiation this is; fixed for its lifetime.
#[derive(Debug, Clone, Copy, PartialEq, Eq, Structural)]
pub enum Role {
    /// Opens the stream and sends the offer; writes its candidates first.
    Initiator,
    /// Accepts the stream and sends the answer; reads the peer's candidates first.
    Responder,
}

/// Where a negotiation stands.
#[derive(Debug, Clone, Copy, PartialEq, Eq, Structural)]
pub enum Phase {
    /// Nothing done yet.
    Start,
    /// Waiting for the media transport's local descriptor.
    AwaitLocalDescriptor,
    /// Reading the remote descriptor from the stream.
    ReadDescriptor,
    /// The media transport is applying the remote descriptor.
    ApplyingDescriptor,
    /// Pulling local candidates and sending each one.
    SendingCandidates,
    /// The write half is closed; waiting for the peer to acknowledge it.
    AwaitClosed,
    /// Reading remote candidates from the stream.
    ReadCandidates,
    /// The media transport is applying one remote candidate.
    ApplyingCandidate,
    /// The media transport is told that no remote candidate follows.
    ApplyingEnd,
    /// Waiting for the peer to open the data channel.
    AwaitChannel,
    /// The negotiation succeeded.
    Done,
    /// The negotiation failed with this error.
    Failed(SignalingError),
}

/// What happened outside since the last step.
pub enum Event {
    /// Begin the negotiation (the stream is open).
    Start,
    /// The media transport made the local descriptor, as text.
    LocalDescriptor(Vec<u8>),
    /// Bytes arrived on the stream.
    Incoming(Vec<u8>),
    /// The peer closed its write half.
    PeerFinished,
    /// The media transport accepted what it was given.
    Applied,
    /// The next local candidate as text, or `None` once discovery is done.
    LocalCandidate(Option<Vec<u8>>),
    /// The peer acknowledged that our write half is closed.
    WriteClosed,
    /// The peer opened the data channel.
    ChannelOpened,
    /// An outside operation failed.
    Fault(SignalingError),
}

/// What the driver must do next. Whatever `take_outgoing` then hands over
/// is written to the stream first.
pub enum Action {
    /// Ask the media transport for the local descriptor.
    CreateLocalDescriptor,
    /// Decode and apply the remote descriptor (text).
    ApplyRemoteDescriptor(Vec<u8>),
    /// Decode and apply one remote candidate (text).
    ApplyRemoteCandidate(Vec<u8>),
    /// Tell the media transport that no remote candidate follows.
    ApplyEndOfCandidates,
    /// Pull the next local candidate.
    PullLocalCandidate,
    /// Read more bytes from the stream.
    ReadMore,
    /// Wait until the peer acknowledges that our write half is closed.
    AwaitWriteClosed,
    /// Wait for the peer to open the data channel.
    AwaitChannel,
    /// The negotiation succeeded.
    Finished,
    /// The negotiation failed: stop.
    Failed(SignalingError),
    /// The event was not expected now: nothing to do.
    Idle,
}

/// An action as a value.
pub enum ActionView {
    CreateLocalDescriptor,
    ApplyRemoteDescriptor(Seq<u8>),
    ApplyRemoteCandidate(Seq<u8>),
    ApplyEndOfCandidates,
    PullLocalCandidate,
    ReadMore,
    AwaitWriteClosed,
    AwaitChannel,
    Finished,
    Failed(SignalingError),
    Idle,
}

pub open spec fn action_view(a: &Action) -> ActionView {
    match a {
        Action::CreateLocalDescriptor => ActionView::CreateLocalDescriptor,
        Action::ApplyRemoteDescriptor(d) => ActionView::ApplyRemoteDescriptor(d@),
        Action::ApplyRemoteCandidate(c) => ActionView::ApplyRemoteCandidate(c@),
        Action::ApplyEndOfCandidates => ActionView::ApplyEndOfCandidates,
        Action::PullLocalCandidate => ActionView::PullLocalCandidate,
        Action::ReadMore => ActionView::ReadMore,
        Action::AwaitWriteClosed => ActionView::AwaitWriteClosed,
        Action::AwaitChannel => ActionView::AwaitChannel,
        Action::Finished => ActionView::Finished,
        Action::Failed(e) => ActionView::Failed(*e),
        Action::Idle => ActionView::Idle,
    }
}

/// The state of a negotiation.
pub struct NegotiationView {
    pub role: Role,
    pub phase: Phase,
    pub channel: ChannelView,
}

pub open spec fn fail(v: NegotiationView, e: SignalingError) -> (NegotiationView, ActionView) {
    (NegotiationView { phase: Phase::Failed(e), ..v }, ActionView::Failed(e))
}

pub open spec fn goto(v: NegotiationView, p: Phase, a: ActionView) -> (NegotiationView, ActionView) {
    (NegotiationView { phase: p, ..v }, a)
}

/// Reads the next message with channel state `c`: a descriptor, or a
/// candidate. A stream that ends before the descriptor fails the
/// negotiation; one that ends among candidates means no more candidates.
pub open spec fn read_next(v: NegotiationView, c: ChannelView, descriptor: bool) -> (NegotiationView, ActionView) {
    let (r, c2) = receive_spec(c);
    let v2 = NegotiationView { channel: c2, ..v };
    match r {
        None => if descriptor {
            goto(v2, Phase::ReadDescriptor, ActionView::ReadMore)
        } else {
            goto(v2, Phase::ReadCandidates, ActionView::ReadMore)
        },
        Some(None) => if descriptor {
            fail(v2, SignalingError::TransportRead)
        } else {
            goto(v2, Phase::ApplyingEnd, ActionView::ApplyEndOfCandidates)
        },
        Some(Some(m)) => if descriptor {
            goto(v2, Phase::ApplyingDescriptor, ActionView::ApplyRemoteDescriptor(m))
        } else {
            goto(v2, Phase::ApplyingCandidate, ActionView::ApplyRemoteCandidate(m))
        },
    }
}

pub open spec fn is_terminal(p: Phase) -> bool {
    p is Done || p is Failed
}

/// The phases in which the stream is being read.
pub open spec fn is_reading(p: Phase) -> bool {
    p is ReadDescriptor || p is ReadCandidates
}

/// One step: the state after `e` and the action asked for. The initiator
/// creates and sends the offer, reads and applies the answer, sends all its
/// candidates and closes its write half, then reads and applies the peer's
/// candidates. The responder reads and applies the offer, creates and sends
/// the answer, reads and applies all the peer's candidates, then sends its
/// own, closes its write half and waits for the data channel. A fault ends
/// the negotiation with that fault; an event that does not fit the phase
/// changes nothing (bytes from the stream are kept).
pub open spec fn step_spec(v: NegotiationView, e: &Event) -> (NegotiationView, ActionView) {
    let c = v.channel;
    let init = v.role == Role::Initiator;
    let idle = (v, ActionView::Idle);
    if is_terminal(v.phase) {
        idle
    } else {
        match e {
            Event::Fault(err) => fail(v, *err),
            Event::Incoming(b) => if is_reading(v.phase) {
                read_next(v, deliver_spec(c, b@), v.phase is ReadDescriptor)
            } else {
                (NegotiationView { channel: deliver_spec(c, b@), ..v }, ActionView::Idle)
            },
            Event::PeerFinished => if is_reading(v.phase) {
                read_next(v, finish_spec(c), v.phase is ReadDescriptor)
            } else {
                (NegotiationView { channel: finish_spec(c), ..v }, ActionView::Idle)
            },
            Event::Start => if v.phase is Start {
                if init {
                    goto(v, Phase::AwaitLocalDescriptor, ActionView::CreateLocalDescriptor)
                } else {
                    read_next(v, c, true)
                }
            } else {
                idle
            },
            Event::LocalDescriptor(d) => if v.phase is AwaitLocalDescriptor {
                if send_ok(c, d@) {
                    read_next(v, send_spec(c, d@), init)
                } else {
                    fail(v, SignalingError::TransportWrite)
                }
            } else {
                idle
            },
            Event::Applied => match v.phase {
                Phase::ApplyingDescriptor => if init {
                    goto(v, Phase::SendingCandidates, ActionView::PullLocalCandidate)
                } else {
                    goto(v, Phase::AwaitLocalDescriptor, ActionView::CreateLocalDescriptor)
                },
                Phase::ApplyingCandidate => read_next(v, c, false),
                Phase::ApplyingEnd => if init {
                    goto(v, Phase::Done, ActionView::Finished)
                } else {
                    goto(v, Phase::SendingCandidates, ActionView::PullLocalCandidate)
                },
                _ => idle,
            },
            Event::LocalCandidate(oc) => if v.phase is SendingCandidates {
                match oc {
                    Some(p) => if send_ok(c, p@) {
                        (
                            NegotiationView { channel: send_spec(c, p@), ..v },
                            ActionView::PullLocalCandidate,
                        )
                    } else {
                        fail(v, SignalingError::TransportWrite)
                    },
                    None => if !c.write_closed {
                        (
                            NegotiationView {
                                phase: Phase::AwaitClosed,
                                channel: close_spec(c),
                                ..v
                            },
                            ActionView::AwaitWriteClosed,
                        )
                    } else {
                        fail(v, SignalingError::TransportWrite)
                    },
                }
            } else {
                idle
            },
            Event::WriteClosed => if v.phase is AwaitClosed {
                if init {
                    read_next(v, c, false)
                } else {
                    goto(v, Phase::AwaitChannel, ActionView::AwaitChannel)
                }
            } else {
                idle
            },
            Event::ChannelOpened => if v.phase is AwaitChannel {
                goto(v, Phase::Done, ActionView::Finished)
            } else {
                idle
            },
        }
    }
}

/// The turn-taking discipline on the candidate phase of the stream: the
/// initiator reads no remote candidate before its own write half is closed
/// (all its candidates are written); the responder writes no candidate of
/// its own before it has read the end of the peer's.
pub open spec fn turn_taking(v: NegotiationView) -> bool {
    match v.role {
        Role::Initiator => (v.phase is AwaitClosed || v.phase is ReadCandidates
            || v.phase is ApplyingCandidate || v.phase is ApplyingEnd) ==> v.channel.write_closed,
        Role::Responder => (v.phase is ApplyingEnd || v.phase is SendingCandidates
            || v.phase is AwaitClosed || v.phase is AwaitChannel) ==> v.channel.ended,
    }
}

/// A negotiation for one role over one signaling stream.
pub struct Negotiation {
    role: Role,
    phase: Phase,
    channel: Channel,
}

impl View for Negotiation {
    type V = NegotiationView;

    closed spec fn view(&self) -> NegotiationView {
        NegotiationView { role: self.role, phase: self.phase, channel: self.channel@ }
    }
}

impl Negotiation {
    /// A negotiation that has not started, over a fresh stream.
    pub fn new(role: Role) -> (n: Negotiation)
        ensures
            n@.role == role,
            n@.phase == Phase::Start,
            n@.channel == (ChannelView {
                outbox: Seq::empty(),
                inbox: Seq::empty(),
                peer_finished: false,
                ended: false,
                write_closed: false,
            }),
            turn_taking(n@),
    {
        Negotiation { role, phase: Phase::Start, channel: Channel::new() }
    }

    pub fn role(&self) -> (r: Role)
        ensures
            r == self@.role,
    {
        self.role
    }

    pub fn phase(&self) -> (p: Phase)
        ensures
            p == self@.phase,
    {
        self.phase
    }

    /// Hands over the bytes to write to the stream, leaving none behind.
    pub fn take_outgoing(&mut self) -> (r: Vec<u8>)
        ensures
            r@ == old(self)@.channel.outbox,
            final(self)@ == (NegotiationView {
                channel: ChannelView { outbox: Seq::empty(), ..old(self)@.channel },
                ..old(self)@
            }),
            turn_taking(old(self)@) ==> turn_taking(final(self)@),
    {
        self.channel.take_outgoing()
    }

    fn fail_with(&mut self, e: SignalingError) -> (a: Action)
        ensures
            (final(self)@, action_view(&a)) == fail(old(self)@, e),
    {
        self.phase = Phase::Failed(e);
        Action::Failed(e)
    }

    fn read_next(&mut self, descriptor: bool) -> (a: Action)
        ensures
            (final(self)@, action_view(&a)) == read_next(old(self)@, old(self)@.channel, descriptor),
    {
        match self.channel.receive() {
            Received::Pending => {
                self.phase = if descriptor {
                    Phase::ReadDescriptor
                } else {
                    Phase::ReadCandidates
                };
                Action::ReadMore
            },
            Received::End => if descriptor {
                self.fail_with(SignalingError::TransportRead)
            } else {
                self.phase = Phase::ApplyingEnd;
                Action::ApplyEndOfCandidates
            },
            Received::Message(m) => if descriptor {
                self.phase = Phase::ApplyingDescriptor;
                Action::ApplyRemoteDescriptor(m)
            } else {
                self.phase = Phase::ApplyingCandidate;
                Action::ApplyRemoteCandidate(m)
            },
        }
    }

    /// Takes one event and says what to do next (see `step_spec`). The
    /// turn-taking discipline holds after every step.
    pub fn step(&mut self, e: Event) -> (a: Action)
        ensures
            (final(self)@, action_view(&a)) == step_spec(old(self)@, &e),
            turn_taking(old(self)@) ==> turn_taking(final(self)@),
    {
        proof {
            lemma_step_keeps_turn_taking(self@, &e);
        }
        let init = match self.role {
            Role::Initiator => true,
            Role::Responder => false,
        };
        let terminal = match self.phase {
            Phase::Done | Phase::Failed(_) => true,
            _ => false,
        };
        if terminal {
            return Action::Idle;
        }
        let reading = match self.phase {
            Phase::ReadDescriptor | Phase::ReadCandidates => true,
            _ => false,
        };
        let reading_descriptor = match self.phase {
            Phase::ReadDescriptor => true,
            _ => false,
        };
        match e {
            Event::Fault(err) => self.fail_with(err),
            Event::Incoming(b) => {
                self.channel.push_incoming(b.as_slice());
                if reading {
                    self.read_next(reading_descriptor)
                } else {
                    Action::Idle
                }
            },
            Event::PeerFinished => {
                self.channel.peer_finished();
                if reading {
                    self.read_next(reading_descriptor)
                } else {
                    Action::Idle
                }
            },
            Event::Start => match self.phase {
                Phase::Start => if init {
                    self.phase = Phase::AwaitLocalDescriptor;
                    Action::CreateLocalDescriptor
                } else {
                    self.read_next(true)
                },
                _ => Action::Idle,
            },
            Event::LocalDescriptor(d) => match self.phase {
                Phase::AwaitLocalDescriptor => match self.channel.send(d.as_slice()) {
                    Ok(()) => self.read_next(init),
                    Err(err) => self.fail_with(err),
                },
                _ => Action::Idle,
            },
            Event::Applied => match self.phase {
                Phase::ApplyingDescriptor => if init {
                    self.phase = Phase::SendingCandidates;
                    Action::PullLocalCandidate
                } else {
                    self.phase = Phase::AwaitLocalDescriptor;
                    Action::CreateLocalDescriptor
                },
                Phase::ApplyingCandidate => self.read_next(false),
                Phase::ApplyingEnd => if init {
                    self.phase = Phase::Done;
                    Action::Finished
                } else {
                    self.phase = Phase::SendingCandidates;
                    Action::PullLocalCandidate
                },
                _ => Action::Idle,
            },
            Event::LocalCandidate(oc) => match self.phase {
                Phase::SendingCandidates => match oc {
                    Some(p) => match self.channel.send(p.as_slice()) {
                        Ok(()) => Action::PullLocalCandidate,
                        Err(err) => self.fail_with(err),
                    },
                    None => match self.channel.close_for_writing() {
                        Ok(()) => {
                            self.phase = Phase::AwaitClosed;
                            Action::AwaitWriteClosed
                        },
                        Err(err) => self.fail_with(err),
                    },
                },
                _ => Action::Idle,
            },
            Event::WriteClosed => match self.phase {
                Phase::AwaitClosed => if init {
                    self.read_next(false)
                } else {
                    self.phase = Phase::AwaitChannel;
                    Action::AwaitChannel
                },
                _ => Action::Idle,
            },
            Event::ChannelOpened => match self.phase {
                Phase::AwaitChannel => {
                    self.phase = Phase::Done;
                    Action::Finished
                },
                _ => Action::Idle,
            },
        }
    }
}

/// Every step keeps the turn-taking discipline: whatever the events, the
/// two sides never both write the candidate phase of the stream.
pub proof fn lemma_step_keeps_turn_taking(v: NegotiationView, e: &Event)
    ensures
        turn_taking(v) ==> turn_taking(step_spec(v, e).0),
{
}

/// A run of events from state `v`: the final state and the actions asked
/// for, one per event.
pub open spec fn run(v: NegotiationView, es: Seq<Event>) -> (NegotiationView, Seq<ActionView>)
    decreases es.len(),
{
    if es.len() == 0 {
        (v, Seq::empty())
    } else {
        let (v1, a) = step_spec(v, &es[0]);
        let (v2, acts) = run(v1, es.drop_first());
        (v2, seq![a] + acts)
    }
}

/// The events that hand over candidates `ps` and then the end of discovery.
pub open spec fn hands_over(es: Seq<Event>, ps: Seq<Seq<u8>>) -> bool {
    &&& es.len() == ps.len() + 1
    &&& forall|i: int| 0 <= i < ps.len() ==> (match #[trigger] es[i] {
        Event::LocalCandidate(Some(x)) => x@ == ps[i],
        _ => false,
    })
    &&& es[ps.len() as int] matches Event::LocalCandidate(None)
}

/// Writing side of the candidate phase: a side that sends its candidates
/// `ps` one by one and then learns that discovery is done puts on the
/// stream exactly their frames followed by the end marker, and closes.
pub proof fn lemma_sender_writes_all(v: NegotiationView, es: Seq<Event>, ps: Seq<Seq<u8>>)
    requires
        v.phase is SendingCandidates,
        !v.channel.write_closed,
        hands_over(es, ps),
        forall|i: int| 0 <= i < ps.len() ==> valid_payload(#[trigger] ps[i]),
    ensures
        run(v, es).0.phase is AwaitClosed,
        run(v, es).0.channel.outbox == v.channel.outbox + frames_of(ps) + end_marker(),
        run(v, es).0.channel.write_closed,
        run(v, es).0.channel.inbox == v.channel.inbox,
    decreases ps.len(),
{
    if ps.len() == 0 {
        assert(es.drop_first().len() == 0);
        assert(v.channel.outbox + frames_of(ps) =~= v.channel.outbox);
    } else {
        let e0 = es[0];
        assert(es[0] matches Event::LocalCandidate(Some(x)) && x@ == ps[0]);
        let v1 = step_spec(v, &e0).0;
        assert(v1.channel.outbox == v.channel.outbox + crate::channel::frame_of(ps[0]));
        let tail = ps.drop_first();
        let es1 = es.drop_first();
        assert forall|i: int| 0 <= i < tail.len() implies valid_payload(#[trigger] tail[i]) by {
            assert(tail[i] == ps[i + 1]);
        }
        assert forall|i: int| 0 <= i < tail.len() implies (match #[trigger] es1[i] {
            Event::LocalCandidate(Some(x)) => x@ == tail[i],
            _ => false,
        }) by {
            assert(es1[i] == es[i + 1]);
            assert(tail[i] == ps[i + 1]);
        }
        assert(es1[tail.len() as int] == es[ps.len() as int]);
        lemma_sender_writes_all(v1, es1, tail);
        assert(v.channel.outbox + frames_of(ps) =~= v1.channel.outbox + frames_of(tail));
    }
}

/// `n` events saying that the media transport accepted what it was given.
pub open spec fn all_applied(es: Seq<Event>) -> bool {
    forall|i: int| 0 <= i < es.len() ==> #[trigger] es[i] matches Event::Applied
}

/// Reading side of the candidate phase: from a state whose next event
/// starts reading candidates (the initiator's acknowledged close, the
/// responder's sent answer, or an applied candidate), with the frames of
/// candidates `ps` and the end marker unread, the side is asked to apply
/// exactly those candidates, in order, and then the end of the remote
/// candidates, as the media transport accepts each: it applies as many
/// candidates as the peer sent.
pub proof fn lemma_reader_applies_all(v: NegotiationView, es: Seq<Event>, ps: Seq<Seq<u8>>)
    requires
        !v.channel.ended,
        v.channel.inbox == frames_of(ps) + end_marker(),
        forall|i: int| 0 <= i < ps.len() ==> valid_payload(#[trigger] ps[i]),
        es.len() == ps.len() + 1,
        step_spec(v, &es[0]) == read_next(v, v.channel, false),
        all_applied(es.drop_first()),
    ensures
        ({
            let (v2, acts) = run(v, es);
            &&& acts.len() == ps.len() + 1
            &&& forall|i: int| 0 <= i < ps.len() ==>
                #[trigger] acts[i] == ActionView::ApplyRemoteCandidate(ps[i])
            &&& acts[ps.len() as int] == ActionView::ApplyEndOfCandidates
            &&& v2.phase is ApplyingEnd
            &&& v2.channel.ended
        }),
    decreases ps.len(),
{
    let c = v.channel;
    if ps.len() == 0 {
        assert(c.inbox =~= end_marker());
        let (v1, a0) = step_spec(v, &es[0]);
        assert(a0 == ActionView::ApplyEndOfCandidates);
        assert(v1.phase is ApplyingEnd && v1.channel.ended);
        assert(es.drop_first().len() == 0);
        assert(run(v1, es.drop_first()) == (v1, Seq::<ActionView>::empty()));
        assert(run(v, es).1 =~= seq![a0]);
    } else {
        let tail = ps.drop_first();
        assert(c.inbox =~= crate::channel::frame_of(ps[0]) + (frames_of(tail) + end_marker()));
        lemma_frame_header(ps[0], frames_of(tail) + end_marker());
        let (v1, a0) = step_spec(v, &es[0]);
        assert(a0 == ActionView::ApplyRemoteCandidate(ps[0]));
        assert(v1.channel.inbox == frames_of(tail) + end_marker());
        let es1 = es.drop_first();
        assert forall|i: int| 0 <= i < tail.len() implies valid_payload(#[trigger] tail[i]) by {
            assert(tail[i] == ps[i + 1]);
        }
        assert(es1[0] matches Event::Applied);
        assert forall|i: int| 0 <= i < es1.drop_first().len() implies
            #[trigger] es1.drop_first()[i] matches Event::Applied by {
            assert(es1.drop_first()[i] == es1[i + 1]);
        }
        lemma_reader_applies_all(v1, es1, tail);
        let (v2, acts1) = run(v1, es1);
        let acts = run(v, es).1;
        assert(acts == seq![a0] + acts1);
        assert forall|i: int| 0 <= i < ps.len() implies
            #[trigger] acts[i] == ActionView::ApplyRemoteCandidate(ps[i]) by {
            if i > 0 {
                assert(acts[i] == acts1[i - 1]);
                assert(ps[i] == tail[i - 1]);
            }
        }
    }
}

/// Where reading candidates starts: the initiator reads the peer's
/// candidates only once its own close has been acknowledged, and each side
/// goes on reading after every applied candidate.
pub proof fn lemma_reading_starts(v: NegotiationView)
    ensures
        v.role == Role::Initiator && v.phase is AwaitClosed ==> step_spec(v, &Event::WriteClosed)
            == read_next(v, v.channel, false),
        v.phase is ApplyingCandidate ==> step_spec(v, &Event::Applied) == read_next(
            v,
            v.channel,
            false,
        ),
{
}

/// The reader's state once the writer's bytes have all arrived.
pub open spec fn with_arrived(r: NegotiationView, bytes: Seq<u8>) -> NegotiationView {
    NegotiationView { channel: deliver_spec(r.channel, bytes), ..r }
}

/// The candidate phase across the stream: when one side sends its
/// candidates `ps` and ends discovery, and the other side, with nothing
/// unread, receives every byte written and then reads candidates while its
/// media transport accepts each, the reader is asked to apply exactly the
/// writer's candidates, as many as were discovered, in order, and then the
/// end of the remote candidates.
pub proof fn lemma_candidates_cross_over(
    w: NegotiationView,
    ws: Seq<Event>,
    ps: Seq<Seq<u8>>,
    r: NegotiationView,
    rs: Seq<Event>,
)
    requires
        w.phase is SendingCandidates,
        !w.channel.write_closed,
        w.channel.outbox.len() == 0,
        hands_over(ws, ps),
        forall|i: int| 0 <= i < ps.len() ==> valid_payload(#[trigger] ps[i]),
        !r.channel.ended,
        r.channel.inbox.len() == 0,
        rs.len() == ps.len() + 1,
        ({
            let r1 = with_arrived(r, run(w, ws).0.channel.outbox);
            step_spec(r1, &rs[0]) == read_next(r1, r1.channel, false)
        }),
        all_applied(rs.drop_first()),
    ensures
        ({
            let (r2, acts) = run(with_arrived(r, run(w, ws).0.channel.outbox), rs);
            &&& acts.len() == ps.len() + 1
            &&& forall|i: int| 0 <= i < ps.len() ==>
                #[trigger] acts[i] == ActionView::ApplyRemoteCandidate(ps[i])
            &&& acts[ps.len() as int] == ActionView::ApplyEndOfCandidates
            &&& r2.channel.ended
        }),
{
    lemma_sender_writes_all(w, ws, ps);
    let r1 = with_arrived(r, run(w, ws).0.channel.outbox);
    assert(r1.channel.inbox =~= frames_of(ps) + end_marker());
    lemma_reader_applies_all(r1, rs, ps);
}

} // verus!
