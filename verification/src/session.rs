//! The state machine of one client connection.
//!
//! The connection loop (in the program around this library) reads whatever
//! bytes the socket has, hands them to the session, decodes each complete
//! payload the session hands back, and writes the replies. The session
//! reassembles frames from those pieces: a header or a payload may arrive
//! in any number of reads, and a read that finds nothing yet only pauses
//! the loop. An oversized payload is answered at once and then discarded
//! without being decoded.
//!
//! The model of the byte stream is `feed`, defined byte by byte; each call
//! of `Session::on_data` moves the session exactly as `feed` does, so the
//! way the stream is cut into reads does not change what is answered
//! (`lemma_feed_split`, `lemma_frames_answered`).
use vstd::prelude::*;

use crate::message::{ClientMessage, ReplyBodyModel, ReplyModel, RequestModel, ServerMessage};
use crate::protocol::{
    add_overflows_spec, be_u32, error_reply, frame_bytes, lemma_be_roundtrip, payload_size,
    process_message, reply_to, respond_with_error, HEADER_SIZE, INVALID_FORMAT,
    MAX_MESSAGE_SIZE, PAYLOAD_TOO_LARGE, STATUS_ERROR, STATUS_OK, STATUS_UNSUPPORTED,
    UNSUPPORTED_TYPE,
};

verus! {

/// Where a connection stands in the byte stream.
pub enum Phase {
    /// Reading a size header; these bytes of it have arrived.
    AwaitHeader(Seq<u8>),
    /// Reading a payload of this size; these bytes of it have arrived.
    AwaitPayload(nat, Seq<u8>),
    /// Discarding an oversized payload; this many bytes of it remain.
    Draining(nat),
    /// The server has stopped while the client was inside a frame and had
    /// nothing more to send: the client is to be told, then let go.
    Stopped,
    /// The connection is over.
    Closed,
}

/// What the byte stream yields when a part of a frame is complete.
pub enum Output {
    /// A header announced more than `MAX_MESSAGE_SIZE` bytes.
    TooLarge,
    /// A payload within the limit, to be decoded and answered.
    Frame(Seq<u8>),
}

/// Model of a session: its place in the stream, and a complete payload
/// that waits to be decoded and answered.
pub struct SessionModel {
    pub phase: Phase,
    pub pending: Option<Seq<u8>>,
}

/// What the connection loop does next.
#[derive(Clone, Copy, Debug, PartialEq, Eq, Structural)]
pub enum Next {
    /// Read at most this many bytes (at least one) and hand them in.
    Read(usize),
    /// Decode the pending payload and hand in the outcome.
    Decode,
    /// The server is stopping: tell the client and end the connection.
    Shutdown,
    /// End the connection.
    Close,
}

/// How a read failed.
#[derive(Clone, Copy, Debug, PartialEq, Eq, Structural)]
pub enum ReadError {
    /// No data was available yet on the non-blocking connection.
    WouldBlock,
    /// The read failed otherwise: the peer closed the connection, or an
    /// I/O error.
    Failed,
}

/// The phase between two frames.
pub open spec fn between_frames() -> Phase {
    Phase::AwaitHeader(Seq::empty())
}

/// Whether a phase is one that a session can be in.
pub open spec fn phase_wf(phase: Phase) -> bool {
    match phase {
        Phase::AwaitHeader(h) => h.len() < HEADER_SIZE,
        Phase::AwaitPayload(n, p) => 0 < n <= MAX_MESSAGE_SIZE && p.len() < n,
        Phase::Draining(r) => r >= 1,
        Phase::Stopped => true,
        Phase::Closed => true,
    }
}

/// How many more bytes complete the part of the frame being read.
pub open spec fn wanted(phase: Phase) -> nat {
    match phase {
        Phase::AwaitHeader(h) => (HEADER_SIZE - h.len()) as nat,
        Phase::AwaitPayload(n, p) => (n - p.len()) as nat,
        Phase::Draining(r) => r,
        Phase::Stopped => 0,
        Phase::Closed => 0,
    }
}

/// The phase and outputs once a header announcing `size` bytes is
/// complete: an oversized payload is reported and then discarded, an empty
/// one is complete at once, any other is read next.
pub open spec fn header_done(size: int) -> (Phase, Seq<Output>) {
    if size > MAX_MESSAGE_SIZE {
        (Phase::Draining(size as nat), seq![Output::TooLarge])
    } else if size == 0 {
        (between_frames(), seq![Output::Frame(Seq::empty())])
    } else {
        (Phase::AwaitPayload(size as nat, Seq::empty()), Seq::empty())
    }
}

/// The phase and outputs after one more byte of the stream.
pub open spec fn feed_byte(phase: Phase, b: u8) -> (Phase, Seq<Output>) {
    match phase {
        Phase::AwaitHeader(h) => if h.push(b).len() < HEADER_SIZE {
            (Phase::AwaitHeader(h.push(b)), Seq::empty())
        } else {
            header_done(be_u32(h.push(b)))
        },
        Phase::AwaitPayload(n, p) => if p.push(b).len() < n {
            (Phase::AwaitPayload(n, p.push(b)), Seq::empty())
        } else {
            (between_frames(), seq![Output::Frame(p.push(b))])
        },
        Phase::Draining(r) => if r > 1 {
            (Phase::Draining((r - 1) as nat), Seq::empty())
        } else {
            (between_frames(), Seq::empty())
        },
        Phase::Stopped => (Phase::Stopped, Seq::empty()),
        Phase::Closed => (Phase::Closed, Seq::empty()),
    }
}

/// The phase and outputs after the bytes `bytes` of the stream, in order.
pub open spec fn feed(phase: Phase, bytes: Seq<u8>) -> (Phase, Seq<Output>)
    decreases bytes.len(),
{
    if bytes.len() == 0 {
        (phase, Seq::empty())
    } else {
        let (p1, o1) = feed(phase, bytes.drop_last());
        let (p2, o2) = feed_byte(p1, bytes.last());
        (p2, o1 + o2)
    }
}

/// The reply sent at once for outputs of one read: only an oversized
/// payload is answered before anything is decoded.
pub open spec fn immediate_reply(outputs: Seq<Output>) -> Option<ReplyModel> {
    if outputs.len() == 1 && outputs[0] is TooLarge {
        Some(error_reply(STATUS_ERROR, PAYLOAD_TOO_LARGE@))
    } else {
        None
    }
}

/// The payload that outputs of one read leave to be decoded.
pub open spec fn pending_payload_of(outputs: Seq<Output>) -> Option<Seq<u8>> {
    if outputs.len() == 1 && outputs[0] is Frame {
        Some(outputs[0]->Frame_0)
    } else {
        None
    }
}

/// The reply to a payload: `decoded` is `None` when the payload did not
/// decode, which is answered with `STATUS_ERROR`.
pub open spec fn payload_reply(decoded: Option<Option<RequestModel>>) -> ReplyModel {
    match decoded {
        Some(request) => reply_to(request),
        None => error_reply(STATUS_ERROR, INVALID_FORMAT@),
    }
}

/// The model of a decode outcome.
pub open spec fn decoded_model(decoded: Option<ClientMessage>) -> Option<Option<RequestModel>> {
    match decoded {
        Some(m) => Some(m@),
        None => None,
    }
}

/// What to do next; `running` tells whether the server still serves. A
/// stopped server ends a connection between frames; a frame under way is
/// read to its end.
pub open spec fn next_spec(s: SessionModel, running: bool) -> Next {
    if s.pending is Some {
        Next::Decode
    } else {
        match s.phase {
            Phase::Closed => Next::Close,
            Phase::Stopped => Next::Shutdown,
            Phase::AwaitHeader(h) => if h.len() == 0 && !running {
                Next::Shutdown
            } else {
                Next::Read(wanted(s.phase) as usize)
            },
            _ => Next::Read(wanted(s.phase) as usize),
        }
    }
}

/// The session after a failed read. A read that finds nothing yet changes
/// nothing while the server runs; once the server has stopped, a client
/// that stalls inside a frame is to be told of the shutdown and let go
/// (`Stopped`). Any other failure ends the connection.
pub open spec fn after_read_error(s: SessionModel, error: ReadError, running: bool) -> SessionModel {
    match error {
        ReadError::WouldBlock => if running || (s.phase == between_frames() && s.pending is None)
            || s.phase is Closed {
            s
        } else {
            SessionModel { phase: Phase::Stopped, pending: None }
        },
        ReadError::Failed => SessionModel { phase: Phase::Closed, pending: None },
    }
}

/// The output that a whole frame with payload `payload` yields.
pub open spec fn frame_output(payload: Seq<u8>) -> Output {
    if payload.len() > MAX_MESSAGE_SIZE {
        Output::TooLarge
    } else {
        Output::Frame(payload)
    }
}

/// The bytes of consecutive frames with payloads `payloads`.
pub open spec fn frames_bytes(payloads: Seq<Seq<u8>>) -> Seq<u8>
    decreases payloads.len(),
{
    if payloads.len() == 0 {
        Seq::empty()
    } else {
        frames_bytes(payloads.drop_last()) + frame_bytes(payloads.last())
    }
}

/// The pieces `chunks` put back together.
pub open spec fn joined(chunks: Seq<Seq<u8>>) -> Seq<u8>
    decreases chunks.len(),
{
    if chunks.len() == 0 {
        Seq::empty()
    } else {
        joined(chunks.drop_last()) + chunks.last()
    }
}

/// The phase and outputs after the stream arrives in the pieces `chunks`,
/// one after the other.
pub open spec fn feed_chunks(phase: Phase, chunks: Seq<Seq<u8>>) -> (Phase, Seq<Output>)
    decreases chunks.len(),
{
    if chunks.len() == 0 {
        (phase, Seq::empty())
    } else {
        let (p1, o1) = feed_chunks(phase, chunks.drop_last());
        let (p2, o2) = feed(p1, chunks.last());
        (p2, o1 + o2)
    }
}

/// Taking in `a` and then `b` is taking in `a + b`: same phase, same
/// outputs in the same order.
pub proof fn lemma_feed_split(phase: Phase, a: Seq<u8>, b: Seq<u8>)
    ensures
        feed(phase, a + b) == (
            feed(feed(phase, a).0, b).0,
            feed(phase, a).1 + feed(feed(phase, a).0, b).1,
        ),
    decreases b.len(),
{
    let (p1, o1) = feed(phase, a);
    if b.len() == 0 {
        assert(a + b =~= a);
        assert(o1 + Seq::<Output>::empty() =~= o1);
    } else {
        assert((a + b).drop_last() =~= a + b.drop_last());
        assert((a + b).last() == b.last());
        lemma_feed_split(phase, a, b.drop_last());
        let (p2, o2) = feed(p1, b.drop_last());
        let (p3, o3) = feed_byte(p2, b.last());
        assert(o1 + o2 + o3 =~= o1 + (o2 + o3));
    }
}

/// However the stream is cut into pieces, the session ends in the same
/// phase with the same outputs, in the same order, as when it arrives in
/// one piece.
pub proof fn lemma_any_split(phase: Phase, chunks: Seq<Seq<u8>>)
    ensures
        feed_chunks(phase, chunks) == feed(phase, joined(chunks)),
    decreases chunks.len(),
{
    if chunks.len() > 0 {
        lemma_any_split(phase, chunks.drop_last());
        lemma_feed_split(phase, joined(chunks.drop_last()), chunks.last());
    }
}

/// A whole header, from between frames, leads to what `header_done` says
/// of the size it announces.
pub proof fn lemma_feed_header(h: Seq<u8>)
    requires
        h.len() == HEADER_SIZE,
    ensures
        feed(between_frames(), h) == header_done(be_u32(h)),
{
    let e = between_frames();
    let h1 = h.take(1);
    let h2 = h.take(2);
    let h3 = h.take(3);
    assert(h1.drop_last() =~= Seq::<u8>::empty());
    assert(h2.drop_last() =~= h1);
    assert(h3.drop_last() =~= h2);
    assert(h.drop_last() =~= h3);
    assert(Seq::<u8>::empty().push(h[0]) =~= h1);
    assert(h1.push(h[1]) =~= h2);
    assert(h2.push(h[2]) =~= h3);
    assert(h3.push(h[3]) =~= h);
    assert(feed(e, Seq::<u8>::empty()) == (e, Seq::<Output>::empty()));
    assert(feed(e, h1).0 == Phase::AwaitHeader(h1));
    assert(feed(e, h1).1 =~= Seq::<Output>::empty());
    assert(feed(e, h2).0 == Phase::AwaitHeader(h2));
    assert(feed(e, h2).1 =~= Seq::<Output>::empty());
    assert(feed(e, h3).0 == Phase::AwaitHeader(h3));
    assert(feed(e, h3).1 =~= Seq::<Output>::empty());
    assert(feed(e, h).1 =~= header_done(be_u32(h)).1);
}

/// Bytes that do not complete a payload are added to it, with no output.
pub proof fn lemma_feed_payload_part(n: nat, q: Seq<u8>, c: Seq<u8>)
    requires
        q.len() + c.len() < n,
    ensures
        feed(Phase::AwaitPayload(n, q), c) == (Phase::AwaitPayload(n, q + c), Seq::<Output>::empty()),
    decreases c.len(),
{
    if c.len() == 0 {
        assert(q + c =~= q);
    } else {
        lemma_feed_payload_part(n, q, c.drop_last());
        assert((q + c.drop_last()).push(c.last()) =~= q + c);
        assert(Seq::<Output>::empty() + Seq::<Output>::empty() =~= Seq::<Output>::empty());
    }
}

/// The bytes of a whole payload complete it: it is output, to be decoded,
/// and the session is between frames.
pub proof fn lemma_feed_payload_whole(n: nat, c: Seq<u8>)
    requires
        c.len() == n,
        n > 0,
    ensures
        feed(Phase::AwaitPayload(n, Seq::empty()), c) == (between_frames(), seq![Output::Frame(c)]),
{
    let e = Seq::<u8>::empty();
    lemma_feed_payload_part(n, e, c.drop_last());
    assert((e + c.drop_last()).push(c.last()) =~= c);
    assert(Seq::<Output>::empty() + seq![Output::Frame(c)] =~= seq![Output::Frame(c)]);
}

/// Discarded bytes that do not end an oversized payload only count down.
pub proof fn lemma_feed_drain_part(r: nat, c: Seq<u8>)
    requires
        c.len() < r,
    ensures
        feed(Phase::Draining(r), c) == (Phase::Draining((r - c.len()) as nat), Seq::<Output>::empty()),
    decreases c.len(),
{
    if c.len() > 0 {
        lemma_feed_drain_part(r, c.drop_last());
        assert(Seq::<Output>::empty() + Seq::<Output>::empty() =~= Seq::<Output>::empty());
    }
}

/// The last bytes of an oversized payload end it, with no output: the
/// session is between frames.
pub proof fn lemma_feed_drain_whole(r: nat, c: Seq<u8>)
    requires
        c.len() == r,
        r > 0,
    ensures
        feed(Phase::Draining(r), c) == (between_frames(), Seq::<Output>::empty()),
{
    lemma_feed_drain_part(r, c.drop_last());
    assert(Seq::<Output>::empty() + Seq::<Output>::empty() =~= Seq::<Output>::empty());
}

/// A whole frame, from between frames, yields exactly one output and ends
/// between frames: its payload to decode when it is within the limit,
/// otherwise `TooLarge`, its bytes never handed to the decoder.
pub proof fn lemma_frame_answered(payload: Seq<u8>)
    requires
        payload.len() <= u32::MAX,
    ensures
        feed(between_frames(), frame_bytes(payload)) == (
            between_frames(),
            seq![frame_output(payload)],
        ),
        payload.len() <= 512 ==> feed(between_frames(), frame_bytes(payload)).1 == seq![
            Output::Frame(payload),
        ],
        payload.len() > 512 ==> feed(between_frames(), frame_bytes(payload)).1 == seq![
            Output::TooLarge,
        ],
{
    let n = payload.len();
    let e = between_frames();
    let header = crate::protocol::be_bytes(n as int);
    lemma_be_roundtrip(n as int);
    lemma_feed_split(e, header, payload);
    lemma_feed_header(header);
    if n > MAX_MESSAGE_SIZE {
        lemma_feed_drain_whole(n, payload);
        assert(seq![Output::TooLarge] + Seq::<Output>::empty() =~= seq![Output::TooLarge]);
    } else if n == 0 {
        assert(payload =~= Seq::<u8>::empty());
        assert(seq![Output::Frame(Seq::<u8>::empty())] + Seq::<Output>::empty() =~= seq![
            frame_output(payload),
        ]);
    } else {
        lemma_feed_payload_whole(n, payload);
        assert(Seq::<Output>::empty() + seq![Output::Frame(payload)] =~= seq![
            frame_output(payload),
        ]);
    }
}

/// A stream of whole frames yields one output per frame, in order, and
/// ends between frames; with `lemma_any_split`, this holds however the
/// stream is cut into reads.
pub proof fn lemma_frames_answered(payloads: Seq<Seq<u8>>)
    requires
        forall|i: int| 0 <= i < payloads.len() ==> #[trigger] payloads[i].len() <= u32::MAX,
    ensures
        feed(between_frames(), frames_bytes(payloads)) == (
            between_frames(),
            payloads.map_values(|p: Seq<u8>| frame_output(p)),
        ),
    decreases payloads.len(),
{
    if payloads.len() == 0 {
        assert(payloads.map_values(|p: Seq<u8>| frame_output(p)) =~= Seq::<Output>::empty());
    } else {
        let init = payloads.drop_last();
        let last = payloads.last();
        assert forall|i: int| 0 <= i < init.len() implies #[trigger] init[i].len() <= u32::MAX by {
            assert(init[i] == payloads[i]);
        }
        assert(payloads[payloads.len() - 1].len() <= u32::MAX);
        lemma_frames_answered(init);
        lemma_feed_split(between_frames(), frames_bytes(init), frame_bytes(last));
        lemma_frame_answered(last);
        assert(init.map_values(|p: Seq<u8>| frame_output(p)) + seq![frame_output(last)]
            =~= payloads.map_values(|p: Seq<u8>| frame_output(p)));
    }
}

/// The reply to a payload that decoded is the reply owed to what it
/// decoded to: an echo gives back its text, whatever its characters, and
/// an addition without overflow its sum `a + b`, both with status 1; a
/// payload without a known request gets status 3, and one that did not
/// decode status 2, each with its error text.
pub proof fn lemma_payload_answers(
    decoded: Option<Option<RequestModel>>,
    text: Seq<char>,
    a: i32,
    b: i32,
)
    ensures
        decoded matches Some(r) ==> payload_reply(decoded) == reply_to(r),
        payload_reply(Some(Some(RequestModel::Echo(text)))) == (ReplyModel {
            body: Some(ReplyBodyModel::Echo(text)),
            status: 1,
        }),
        i32::MIN <= a + b <= i32::MAX ==> payload_reply(Some(Some(RequestModel::Add(a, b))))
            == (ReplyModel { body: Some(ReplyBodyModel::Add((a + b) as i32)), status: 1 }),
        payload_reply(Some(None)) == (ReplyModel {
            body: Some(ReplyBodyModel::Echo(UNSUPPORTED_TYPE@)),
            status: 3,
        }),
        payload_reply(None) == (ReplyModel {
            body: Some(ReplyBodyModel::Echo(INVALID_FORMAT@)),
            status: 2,
        }),
{
}

/// What the loop is told to do: decode a payload that waits, end a
/// closed connection, tell a stopped one of the shutdown, and otherwise
/// read at least one byte of what the frame under way still misses; a new
/// connection of a running server reads a whole header first.
pub proof fn lemma_next_steps(s: SessionModel, running: bool)
    requires
        phase_wf(s.phase),
    ensures
        s.pending is Some ==> next_spec(s, running) == Next::Decode,
        s.pending is None && s.phase is Closed ==> next_spec(s, running) == Next::Close,
        s.pending is None && s.phase is Stopped ==> next_spec(s, running) == Next::Shutdown,
        next_spec(SessionModel { phase: between_frames(), pending: None }, true) == Next::Read(4),
        s.pending is None && running && !(s.phase is Closed) && !(s.phase is Stopped)
            ==> next_spec(s, running) == Next::Read(wanted(s.phase) as usize) && wanted(s.phase)
            >= 1,
{
}

/// A read that finds nothing while the server runs changes nothing, in
/// every phase; any other failed read ends the connection, with nothing
/// left to answer.
pub proof fn lemma_read_errors(s: SessionModel, running: bool)
    ensures
        after_read_error(s, ReadError::WouldBlock, true) == s,
        after_read_error(s, ReadError::Failed, running) == (SessionModel {
            phase: Phase::Closed,
            pending: None,
        }),
{
}

/// What one read yields is answered at once only for an oversized
/// payload, with status 2 and its error text; a completed payload is left,
/// byte for byte, to be decoded.
pub proof fn lemma_read_outputs(payload: Seq<u8>)
    ensures
        immediate_reply(seq![Output::TooLarge]) == Some(
            ReplyModel { body: Some(ReplyBodyModel::Echo(PAYLOAD_TOO_LARGE@)), status: 2 },
        ),
        pending_payload_of(seq![Output::TooLarge]) is None,
        immediate_reply(seq![Output::Frame(payload)]) is None,
        pending_payload_of(seq![Output::Frame(payload)]) == Some(payload),
        immediate_reply(Seq::empty()) is None,
        pending_payload_of(Seq::empty()) is None,
{
}

/// A payload is answered with `STATUS_OK` exactly when it decoded to a
/// known request; one that did not decode gets `STATUS_ERROR`, one without
/// a known request `STATUS_UNSUPPORTED`, and every reply carries a body.
pub proof fn lemma_payload_status(decoded: Option<Option<RequestModel>>)
    ensures
        payload_reply(decoded).status == STATUS_OK <==> decoded matches Some(Some(_)),
        decoded is None ==> payload_reply(decoded).status == STATUS_ERROR,
        decoded == Some(None::<RequestModel>) ==> payload_reply(decoded).status
            == STATUS_UNSUPPORTED,
        payload_reply(decoded).body is Some,
{
}

/// Stopping the server ends a connection only between frames, or when its
/// client stalls inside one: a frame that is still arriving, or a payload
/// waiting to be answered, is carried on whatever `running` says.
pub proof fn lemma_stop_between_frames(s: SessionModel)
    ensures
        next_spec(s, false) == Next::Shutdown <==> (s.pending is None && (s.phase == between_frames()
            || s.phase is Stopped)),
        !(s.phase == between_frames() && s.pending is None) ==> next_spec(s, false) == next_spec(
            s,
            true,
        ),
{
    if let Phase::AwaitHeader(h) = s.phase {
        if h.len() == 0 {
            assert(h =~= Seq::<u8>::empty());
        }
    }
}

/// Once the server has stopped, every connection that is not already over
/// and has nothing left to answer is told of the shutdown as soon as its
/// client has nothing more to send.
pub proof fn lemma_stopped_server_notifies(s: SessionModel)
    requires
        s.pending is None,
        !(s.phase is Closed),
    ensures
        next_spec(after_read_error(s, ReadError::WouldBlock, false), false) == Next::Shutdown,
{
    if let Phase::AwaitHeader(h) = s.phase {
        if h.len() == 0 {
            assert(h =~= Seq::<u8>::empty());
        }
    }
}

/// A closed connection stays closed: reads and failures leave it closed,
/// and the loop is told to end it.
pub proof fn lemma_closed_is_final(bytes: Seq<u8>, error: ReadError, running: bool)
    ensures
        feed(Phase::Closed, bytes) == (Phase::Closed, Seq::<Output>::empty()),
        after_read_error(SessionModel { phase: Phase::Closed, pending: None }, error, running).phase
            == Phase::Closed,
        next_spec(SessionModel { phase: Phase::Closed, pending: None }, running) == Next::Close,
    decreases bytes.len(),
{
    if bytes.len() > 0 {
        lemma_closed_is_final(bytes.drop_last(), error, running);
        assert(Seq::<Output>::empty() + Seq::<Output>::empty() =~= Seq::<Output>::empty());
    }
}

/// The part of a session's stage kept in a small copyable tag.
#[derive(Clone, Copy, PartialEq, Eq, Structural)]
enum Stage {
    Header,
    Payload,
    Draining,
    Ready,
    Stopped,
    Closed,
}

/// One client connection.
pub struct Session {
    stage: Stage,
    /// The header or payload bytes received so far; in `Ready`, the
    /// complete payload.
    buffer: Vec<u8>,
    /// In `Payload`, the payload size; in `Draining`, the bytes left.
    size: usize,
}

impl View for Session {
    type V = SessionModel;

    closed spec fn view(&self) -> SessionModel {
        SessionModel {
            phase: match self.stage {
                Stage::Header => Phase::AwaitHeader(self.buffer@),
                Stage::Payload => Phase::AwaitPayload(self.size as nat, self.buffer@),
                Stage::Draining => Phase::Draining(self.size as nat),
                Stage::Ready => between_frames(),
                Stage::Stopped => Phase::Stopped,
                Stage::Closed => Phase::Closed,
            },
            pending: if self.stage == Stage::Ready {
                Some(self.buffer@)
            } else {
                None
            },
        }
    }
}

impl Session {
    /// Whether the session is in a state it can be in.
    pub closed spec fn wf(&self) -> bool {
        &&& phase_wf(self@.phase)
        &&& (self.stage == Stage::Ready ==> self.buffer@.len() <= MAX_MESSAGE_SIZE)
        &&& (self.stage == Stage::Draining ==> self.buffer@.len() == 0)
    }

    /// A new connection, waiting for its first header.
    pub fn new() -> (session: Session)
        ensures
            session.wf(),
            session@ == (SessionModel { phase: between_frames(), pending: None }),
    {
        Session { stage: Stage::Header, buffer: Vec::new(), size: 0 }
    }

    /// What the connection loop does next; `running` tells whether the
    /// server still serves.
    pub fn next(&self, running: bool) -> (next: Next)
        requires
            self.wf(),
        ensures
            next == next_spec(self@, running),
            next matches Next::Read(n) ==> n >= 1,
    {
        match self.stage {
            Stage::Ready => Next::Decode,
            Stage::Closed => Next::Close,
            Stage::Stopped => Next::Shutdown,
            Stage::Header => if self.buffer.len() == 0 && !running {
                Next::Shutdown
            } else {
                Next::Read(HEADER_SIZE - self.buffer.len())
            },
            Stage::Payload => Next::Read(self.size - self.buffer.len()),
            Stage::Draining => Next::Read(self.size),
        }
    }

    /// Hands in bytes read from the connection, at most as many as `next`
    /// asked for. Returns the reply to send at once: an oversized payload
    /// is answered as soon as its header is complete. A payload that is
    /// complete is then pending, for the loop to decode.
    pub fn on_data(&mut self, data: &[u8]) -> (reply: Option<ServerMessage>)
        requires
            old(self).wf(),
            old(self)@.pending is None,
            !(old(self)@.phase is Closed),
            0 < data@.len() <= wanted(old(self)@.phase),
        ensures
            final(self).wf(),
            final(self)@.phase == feed(old(self)@.phase, data@).0,
            final(self)@.pending == pending_payload_of(feed(old(self)@.phase, data@).1),
            feed(old(self)@.phase, data@).1.len() <= 1,
            match (reply, immediate_reply(feed(old(self)@.phase, data@).1)) {
                (Some(r), Some(m)) => r@ == m,
                (None, None) => true,
                _ => false,
            },
    {
        let ghost start = self@.phase;
        let ghost want0 = wanted(start);
        let mut reply: Option<ServerMessage> = None;
        let mut i: usize = 0;
        while i < data.len()
            invariant
                0 <= i <= data@.len() <= want0,
                want0 == wanted(start),
                phase_wf(start),
                self.wf(),
                self@.phase == feed(start, data@.take(i as int)).0,
                self@.pending == pending_payload_of(feed(start, data@.take(i as int)).1),
                feed(start, data@.take(i as int)).1.len() <= 1,
                i < data@.len() ==> {
                    &&& feed(start, data@.take(i as int)).1.len() == 0
                    &&& i + wanted(self@.phase) == want0
                    &&& self.stage != Stage::Ready
                    &&& self.stage != Stage::Closed
                    &&& self.stage != Stage::Stopped
                },
                match (reply, immediate_reply(feed(start, data@.take(i as int)).1)) {
                    (Some(r), Some(m)) => r@ == m,
                    (None, None) => true,
                    _ => false,
                },
            decreases data@.len() - i,
        {
            let b: u8 = data[i];
            let ghost before = self@.phase;
            proof {
                assert(data@.take(i + 1).drop_last() =~= data@.take(i as int));
                assert(data@.take(i + 1).last() == b);
            }
            match self.stage {
                Stage::Header => {
                    self.buffer.push(b);
                    if self.buffer.len() == HEADER_SIZE {
                        let header: [u8; 4] = [
                            self.buffer[0],
                            self.buffer[1],
                            self.buffer[2],
                            self.buffer[3],
                        ];
                        proof {
                            assert(header@ =~= self.buffer@);
                        }
                        let size: usize = payload_size(header) as usize;
                        self.buffer.clear();
                        proof {
                            assert(self.buffer@ =~= Seq::<u8>::empty());
                        }
                        if size > MAX_MESSAGE_SIZE {
                            self.stage = Stage::Draining;
                            self.size = size;
                            reply = Some(respond_with_error(STATUS_ERROR, PAYLOAD_TOO_LARGE));
                        } else if size == 0 {
                            self.stage = Stage::Ready;
                        } else {
                            self.stage = Stage::Payload;
                            self.size = size;
                        }
                    }
                },
                Stage::Payload => {
                    self.buffer.push(b);
                    if self.buffer.len() == self.size {
                        self.stage = Stage::Ready;
                    }
                },
                Stage::Draining => {
                    if self.size > 1 {
                        self.size = self.size - 1;
                    } else {
                        self.stage = Stage::Header;
                        self.size = 0;
                        proof {
                            assert(self.buffer@ =~= Seq::<u8>::empty());
                        }
                    }
                },
                Stage::Ready => {},
                Stage::Stopped => {},
                Stage::Closed => {},
            }
            proof {
                assert(self@.phase == feed_byte(before, b).0);
                let prev = feed(start, data@.take(i as int));
                let step = feed_byte(before, b);
                assert(feed(start, data@.take(i + 1)) == (step.0, prev.1 + step.1));
                assert(prev.1 + step.1 =~= step.1);
            }
            i = i + 1;
        }
        proof {
            assert(data@.take(data@.len() as int) =~= data@);
        }
        reply
    }

    /// The payload that waits to be decoded.
    pub fn pending_payload(&self) -> (payload: &[u8])
        requires
            self@.pending is Some,
        ensures
            payload@ == self@.pending->Some_0,
    {
        self.buffer.as_slice()
    }

    /// Takes in the outcome of decoding the pending payload (`None`: it did
    /// not decode) and gives the reply; the session then waits for the next
    /// header.
    pub fn on_payload(&mut self, decoded: Option<ClientMessage>) -> (reply: ServerMessage)
        requires
            old(self).wf(),
            old(self)@.pending is Some,
            decoded matches Some(m) ==> !add_overflows_spec(m@),
        ensures
            final(self).wf(),
            final(self)@ == (SessionModel { phase: between_frames(), pending: None }),
            reply@ == payload_reply(decoded_model(decoded)),
    {
        self.buffer.clear();
        self.stage = Stage::Header;
        self.size = 0;
        match decoded {
            Some(client_message) => process_message(client_message),
            None => respond_with_error(STATUS_ERROR, INVALID_FORMAT),
        }
    }

    /// Takes in a failed read. Returns whether the loop pauses before it
    /// goes on: a read that found nothing yet while the server runs.
    pub fn on_read_error(&mut self, error: ReadError, running: bool) -> (pause: bool)
        requires
            old(self).wf(),
        ensures
            final(self).wf(),
            final(self)@ == after_read_error(old(self)@, error, running),
            pause == (error == ReadError::WouldBlock && running),
    {
        match error {
            ReadError::WouldBlock => {
                if running {
                    true
                } else {
                    if self.stage == Stage::Header && self.buffer.len() == 0 {
                        proof {
                            assert(self.buffer@ =~= Seq::<u8>::empty());
                        }
                    } else if self.stage != Stage::Closed {
                        self.buffer.clear();
                        self.stage = Stage::Stopped;
                    }
                    false
                }
            },
            ReadError::Failed => {
                self.buffer.clear();
                self.stage = Stage::Closed;
                false
            },
        }
    }
}

} // verus!
