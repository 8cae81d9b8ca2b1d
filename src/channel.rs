use vstd::prelude::*;

use crate::error::SignalingError;

verus! {

/// The largest payload a frame can carry: its length must fit in two bytes.
pub const MAX_PAYLOAD: usize = 65535;

/// A payload that may travel in a frame: not empty (a zero length is the
/// end-of-stream marker) and short enough for the two-byte length.
pub open spec fn valid_payload(p: Seq<u8>) -> bool {
    1 <= p.len() <= MAX_PAYLOAD
}

/// The frame for a payload: its length in two bytes, high byte first, then
/// the payload itself.
pub open spec fn frame_of(p: Seq<u8>) -> Seq<u8> {
    seq![(p.len() / 256) as u8, (p.len() % 256) as u8] + p
}

/// The zero-length frame that ends a writer's side of the stream.
pub open spec fn end_marker() -> Seq<u8> {
    seq![0u8, 0u8]
}

/// The length announced by the first two bytes of `b`.
pub open spec fn declared_len(b: Seq<u8>) -> int
    recommends
        b.len() >= 2,
{
    b[0] as int * 256 + b[1] as int
}

/// `b` begins with a whole frame that carries a message.
pub open spec fn frame_complete(b: Seq<u8>) -> bool {
    b.len() >= 2 && declared_len(b) > 0 && b.len() >= 2 + declared_len(b)
}

/// What a receiver reads at the start of `b`: the end-of-stream marker, or
/// a stream closed by the peer before the next frame was complete.
pub open spec fn stream_ends(b: Seq<u8>, peer_finished: bool) -> bool {
    (b.len() >= 2 && declared_len(b) == 0) || (peer_finished && !frame_complete(b))
}

/// The state of one end of a signaling stream.
pub struct ChannelView {
    /// Bytes written by this end and not yet handed to the transport.
    pub outbox: Seq<u8>,
    /// Bytes received from the peer and not yet read.
    pub inbox: Seq<u8>,
    /// The peer has closed its write half.
    pub peer_finished: bool,
    /// `receive` has reported the end of the stream.
    pub ended: bool,
    /// This end has closed its write half.
    pub write_closed: bool,
}

/// What one `receive` yields.
pub enum Received {
    /// No whole frame yet: more bytes are needed.
    Pending,
    /// The peer's side is over: end marker, or closed mid-frame.
    End,
    /// One message.
    Message(Vec<u8>),
}

/// A `receive` result as a value: `None` while pending, `Some(None)` at the
/// end of the stream, `Some(Some(p))` for a message `p`.
pub open spec fn received_view(r: &Received) -> Option<Option<Seq<u8>>> {
    match r {
        Received::Pending => None,
        Received::End => Some(None),
        Received::Message(m) => Some(Some(m@)),
    }
}

/// `send` of `p`: on success the frame joins the outgoing bytes.
pub open spec fn send_ok(v: ChannelView, p: Seq<u8>) -> bool {
    valid_payload(p) && !v.write_closed
}

pub open spec fn send_spec(v: ChannelView, p: Seq<u8>) -> ChannelView {
    if send_ok(v, p) {
        ChannelView { outbox: v.outbox + frame_of(p), ..v }
    } else {
        v
    }
}

pub open spec fn close_spec(v: ChannelView) -> ChannelView {
    if v.write_closed {
        v
    } else {
        ChannelView { outbox: v.outbox + end_marker(), write_closed: true, ..v }
    }
}

/// Bytes from the peer arrive.
pub open spec fn deliver_spec(v: ChannelView, bytes: Seq<u8>) -> ChannelView {
    ChannelView { inbox: v.inbox + bytes, ..v }
}

/// The peer closes its write half.
pub open spec fn finish_spec(v: ChannelView) -> ChannelView {
    ChannelView { peer_finished: true, ..v }
}

/// One `receive`: what it yields and the state after it.
pub open spec fn receive_spec(v: ChannelView) -> (Option<Option<Seq<u8>>>, ChannelView) {
    if v.ended {
        (Some(None), v)
    } else if frame_complete(v.inbox) {
        let n = declared_len(v.inbox);
        (
            Some(Some(v.inbox.subrange(2, 2 + n))),
            ChannelView { inbox: v.inbox.subrange(2 + n, v.inbox.len() as int), ..v },
        )
    } else if stream_ends(v.inbox, v.peer_finished) {
        (Some(None), ChannelView { ended: true, ..v })
    } else {
        (None, v)
    }
}

/// One end of the signaling stream: frames what it sends and unframes what
/// it receives. The bytes themselves are moved by the caller.
pub struct Channel {
    outbox: Vec<u8>,
    inbox: Vec<u8>,
    peer_finished: bool,
    ended: bool,
    write_closed: bool,
}

impl View for Channel {
    type V = ChannelView;

    closed spec fn view(&self) -> ChannelView {
        ChannelView {
            outbox: self.outbox@,
            inbox: self.inbox@,
            peer_finished: self.peer_finished,
            ended: self.ended,
            write_closed: self.write_closed,
        }
    }
}

/// Writes the frame for `payload`; nothing is written for a payload that is
/// empty or longer than `MAX_PAYLOAD`.
pub fn encode_frame(payload: &[u8]) -> (r: Result<Vec<u8>, SignalingError>)
    ensures
        r is Ok <==> valid_payload(payload@),
        r matches Ok(f) ==> f@ == frame_of(payload@),
        r matches Err(e) ==> e == SignalingError::TransportWrite,
{
    let n = payload.len();
    if n == 0 || n > MAX_PAYLOAD {
        return Err(SignalingError::TransportWrite);
    }
    let mut f: Vec<u8> = Vec::new();
    f.push((n / 256) as u8);
    f.push((n % 256) as u8);
    let mut i: usize = 0;
    while i < n
        invariant
            n == payload@.len(),
            i <= n,
            f@ == seq![(n / 256) as u8, (n % 256) as u8] + payload@.subrange(0, i as int),
        decreases n - i,
    {
        f.push(payload[i]);
        i = i + 1;
        assert(payload@.subrange(0, i as int) == payload@.subrange(0, i - 1) + seq![payload@[i - 1]]);
    }
    assert(payload@.subrange(0, n as int) == payload@);
    Ok(f)
}

/// Copies `b[lo..hi]` into a new vector.
fn copy_range(b: &Vec<u8>, lo: usize, hi: usize) -> (r: Vec<u8>)
    requires
        lo <= hi <= b@.len(),
    ensures
        r@ == b@.subrange(lo as int, hi as int),
{
    let mut r: Vec<u8> = Vec::new();
    let mut i: usize = lo;
    while i < hi
        invariant
            lo <= i <= hi,
            hi <= b@.len(),
            r@ == b@.subrange(lo as int, i as int),
        decreases hi - i,
    {
        r.push(b[i]);
        i = i + 1;
        assert(b@.subrange(lo as int, i as int) == b@.subrange(lo as int, i - 1) + seq![b@[i - 1]]);
    }
    r
}

impl Channel {
    /// A fresh end: nothing sent, nothing received, both halves open.
    pub fn new() -> (c: Channel)
        ensures
            c@ == (ChannelView {
                outbox: Seq::empty(),
                inbox: Seq::empty(),
                peer_finished: false,
                ended: false,
                write_closed: false,
            }),
    {
        Channel {
            outbox: Vec::new(),
            inbox: Vec::new(),
            peer_finished: false,
            ended: false,
            write_closed: false,
        }
    }

    /// Queues the frame for `payload`. A payload that is empty or too long,
    /// or a send after `close_for_writing`, fails and writes nothing.
    pub fn send(&mut self, payload: &[u8]) -> (r: Result<(), SignalingError>)
        ensures
            r is Ok <==> send_ok(old(self)@, payload@),
            r matches Err(e) ==> e == SignalingError::TransportWrite,
            final(self)@ == send_spec(old(self)@, payload@),
    {
        if self.write_closed {
            return Err(SignalingError::TransportWrite);
        }
        match encode_frame(payload) {
            Err(e) => Err(e),
            Ok(f) => {
                let mut i: usize = 0;
                let ghost start = self.outbox@;
                while i < f.len()
                    invariant
                        i <= f@.len(),
                        self.outbox@ == start + f@.subrange(0, i as int),
                        self.inbox@ == old(self).inbox@,
                        self.peer_finished == old(self).peer_finished,
                        self.ended == old(self).ended,
                        self.write_closed == old(self).write_closed,
                    decreases f@.len() - i,
                {
                    self.outbox.push(f[i]);
                    i = i + 1;
                    assert(f@.subrange(0, i as int) == f@.subrange(0, i - 1) + seq![f@[i - 1]]);
                }
                assert(f@.subrange(0, f@.len() as int) == f@);
                Ok(())
            },
        }
    }

    /// Queues the end-of-stream marker and closes the write half. This is
    /// the only way the writer side ends; a second call fails.
    pub fn close_for_writing(&mut self) -> (r: Result<(), SignalingError>)
        ensures
            r is Ok <==> !old(self)@.write_closed,
            r matches Err(e) ==> e == SignalingError::TransportWrite,
            final(self)@ == close_spec(old(self)@),
    {
        if self.write_closed {
            return Err(SignalingError::TransportWrite);
        }
        self.outbox.push(0u8);
        self.outbox.push(0u8);
        self.write_closed = true;
        assert(self.outbox@ == old(self).outbox@ + end_marker());
        Ok(())
    }

    /// This end has closed its write half.
    pub fn is_write_closed(&self) -> (r: bool)
        ensures
            r == self@.write_closed,
    {
        self.write_closed
    }

    /// Hands over the bytes waiting to be written, leaving none behind.
    pub fn take_outgoing(&mut self) -> (r: Vec<u8>)
        ensures
            r@ == old(self)@.outbox,
            final(self)@ == (ChannelView { outbox: Seq::empty(), ..old(self)@ }),
    {
        let mut out: Vec<u8> = Vec::new();
        std::mem::swap(&mut out, &mut self.outbox);
        out
    }

    /// Bytes read from the peer are added to those not yet read.
    pub fn push_incoming(&mut self, bytes: &[u8])
        ensures
            final(self)@ == deliver_spec(old(self)@, bytes@),
    {
        let mut i: usize = 0;
        while i < bytes.len()
            invariant
                i <= bytes@.len(),
                self.inbox@ == old(self).inbox@ + bytes@.subrange(0, i as int),
                self.outbox@ == old(self).outbox@,
                self.peer_finished == old(self).peer_finished,
                self.ended == old(self).ended,
                self.write_closed == old(self).write_closed,
            decreases bytes@.len() - i,
        {
            self.inbox.push(bytes[i]);
            i = i + 1;
            assert(bytes@.subrange(0, i as int) == bytes@.subrange(0, i - 1) + seq![bytes@[i - 1]]);
        }
        assert(bytes@.subrange(0, bytes@.len() as int) == bytes@);
    }

    /// The peer has closed its write half: no more bytes will arrive.
    pub fn peer_finished(&mut self)
        ensures
            final(self)@ == finish_spec(old(self)@),
    {
        self.peer_finished = true;
    }

    /// Reads the next message. Once the end of the stream has been reported
    /// (marker, or the peer closed before a frame was whole), every later
    /// call reports it again.
    pub fn receive(&mut self) -> (r: Received)
        ensures
            (received_view(&r), final(self)@) == receive_spec(old(self)@),
    {
        if self.ended {
            return Received::End;
        }
        let k = self.inbox.len();
        if k >= 2 {
            let n: usize = (self.inbox[0] as usize) * 256 + (self.inbox[1] as usize);
            if n == 0 {
                self.ended = true;
                return Received::End;
            }
            if k >= 2 + n {
                let m = copy_range(&self.inbox, 2, 2 + n);
                self.inbox = copy_range(&self.inbox, 2 + n, k);
                return Received::Message(m);
            }
        }
        if self.peer_finished {
            self.ended = true;
            Received::End
        } else {
            Received::Pending
        }
    }
}


/// The frames of several payloads, one after the other.
pub open spec fn frames_of(ps: Seq<Seq<u8>>) -> Seq<u8>
    decreases ps.len(),
{
    if ps.len() == 0 {
        Seq::empty()
    } else {
        frame_of(ps[0]) + frames_of(ps.drop_first())
    }
}

/// `n` successive `receive` calls: what they yield, in order, and the state
/// after the last.
pub open spec fn receive_n(v: ChannelView, n: nat) -> (Seq<Option<Option<Seq<u8>>>>, ChannelView)
    decreases n,
{
    if n == 0 {
        (Seq::empty(), v)
    } else {
        let (r, v1) = receive_spec(v);
        let (rs, v2) = receive_n(v1, (n - 1) as nat);
        (seq![r] + rs, v2)
    }
}

/// The announced length of a payload's frame is the payload's length.
pub proof fn lemma_frame_header(p: Seq<u8>, rest: Seq<u8>)
    requires
        valid_payload(p),
    ensures
        frame_complete(frame_of(p) + rest),
        declared_len(frame_of(p) + rest) == p.len(),
        (frame_of(p) + rest).subrange(2, 2 + p.len() as int) == p,
        (frame_of(p) + rest).subrange(2 + p.len() as int, (frame_of(p) + rest).len() as int) == rest,
{
    let l = p.len() as int;
    let b = frame_of(p) + rest;
    assert(l / 256 < 256);
    assert(b[0] as int == l / 256);
    assert(b[1] as int == l % 256);
    assert(declared_len(b) == l);
    assert(b.subrange(2, 2 + l) =~= p);
    assert(b.subrange(2 + l, b.len() as int) =~= rest);
}

/// Round trip: a payload sent by one end and delivered to a peer with
/// nothing unread comes out of the peer's next `receive` unchanged, and
/// leaves nothing unread.
pub proof fn lemma_send_receive_round_trip(a: ChannelView, b: ChannelView, p: Seq<u8>)
    requires
        valid_payload(p),
        !a.write_closed,
        !b.ended,
        b.inbox.len() == 0,
    ensures
        ({
            let a2 = send_spec(a, p);
            let sent = a2.outbox.subrange(a.outbox.len() as int, a2.outbox.len() as int);
            let (r, b2) = receive_spec(deliver_spec(b, sent));
            sent == frame_of(p) && r == Some(Some(p)) && b2.inbox.len() == 0
        }),
{
    let a2 = send_spec(a, p);
    let sent = a2.outbox.subrange(a.outbox.len() as int, a2.outbox.len() as int);
    assert(sent =~= frame_of(p));
    assert(deliver_spec(b, sent).inbox =~= frame_of(p) + Seq::<u8>::empty());
    lemma_frame_header(p, Seq::empty());
}

/// After `close_for_writing`, a peer with nothing unread receives the end
/// of the stream, and from then on only the end, whatever else arrives.
pub proof fn lemma_close_ends_stream(a: ChannelView, b: ChannelView, later: Seq<u8>)
    requires
        !a.write_closed,
        !b.ended,
        b.inbox.len() == 0,
    ensures
        ({
            let a2 = close_spec(a);
            let sent = a2.outbox.subrange(a.outbox.len() as int, a2.outbox.len() as int);
            let (r1, b2) = receive_spec(deliver_spec(b, sent));
            let (r2, b3) = receive_spec(deliver_spec(b2, later));
            sent == end_marker() && r1 == Some(None::<Seq<u8>>) && r2 == Some(None::<Seq<u8>>)
                && b3.ended
        }),
{
    let a2 = close_spec(a);
    let sent = a2.outbox.subrange(a.outbox.len() as int, a2.outbox.len() as int);
    assert(sent =~= end_marker());
    assert(deliver_spec(b, sent).inbox =~= end_marker());
}

/// A writer's whole candidate phase (its messages, then the end marker)
/// reaches a peer as exactly those messages, in order, then the end: the
/// peer applies as many as were sent.
pub proof fn lemma_frames_then_end(b: ChannelView, ps: Seq<Seq<u8>>)
    requires
        forall|i: int| 0 <= i < ps.len() ==> valid_payload(#[trigger] ps[i]),
        !b.ended,
        b.inbox == frames_of(ps) + end_marker(),
    ensures
        ({
            let (rs, b2) = receive_n(b, ps.len() + 1);
            &&& rs.len() == ps.len() + 1
            &&& forall|i: int| 0 <= i < ps.len() ==> rs[i] == Some(Some(#[trigger] ps[i]))
            &&& rs[ps.len() as int] == Some(None::<Seq<u8>>)
            &&& b2.ended
        }),
    decreases ps.len(),
{
    if ps.len() == 0 {
        assert(b.inbox =~= end_marker());
        let (r, b1) = receive_spec(b);
        assert(receive_n(b1, 0).0 =~= Seq::<Option<Option<Seq<u8>>>>::empty());
    } else {
        let p = ps[0];
        let tail = ps.drop_first();
        assert(b.inbox =~= frame_of(p) + (frames_of(tail) + end_marker()));
        lemma_frame_header(p, frames_of(tail) + end_marker());
        let (r, b1) = receive_spec(b);
        assert(r == Some(Some(p)));
        assert(b1.inbox == frames_of(tail) + end_marker());
        assert forall|i: int| 0 <= i < tail.len() implies valid_payload(#[trigger] tail[i]) by {
            assert(tail[i] == ps[i + 1]);
        }
        lemma_frames_then_end(b1, tail);
        let (rs1, b2) = receive_n(b1, tail.len() + 1);
        assert(ps.len() + 1 - 1 == tail.len() + 1);
        let (rs, b3) = receive_n(b, ps.len() + 1);
        assert(rs == seq![r] + rs1);
        assert forall|i: int| 0 <= i < ps.len() implies rs[i] == Some(Some(#[trigger] ps[i])) by {
            if i > 0 {
                assert(rs[i] == rs1[i - 1]);
                assert(ps[i] == tail[i - 1]);
            }
        }
    }
}

} // verus!
