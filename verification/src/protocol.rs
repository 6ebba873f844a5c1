//! The wire rules of the protocol: status codes, size limit, framing, and
//! the reply owed to each request.
use vstd::prelude::*;

use crate::message::{
    client_message, server_message, AddResponse, ClientMessage, EchoMessage, ReplyBodyModel,
    ReplyModel, RequestModel, ServerMessage,
};

verus! {

/// Size of the header that precedes each payload.
pub const HEADER_SIZE: usize = 4;

/// Largest payload, in bytes, that the server decodes.
pub const MAX_MESSAGE_SIZE: usize = 512;

/// Status of a reply to a request that was served.
pub const STATUS_OK: i32 = 1;

/// Status of a reply to an oversized or malformed payload.
pub const STATUS_ERROR: i32 = 2;

/// Status of a reply to a payload that carried no known request.
pub const STATUS_UNSUPPORTED: i32 = 3;

/// Text of the reply to an oversized payload.
pub const PAYLOAD_TOO_LARGE: &'static str = "Payload too large";

/// Text of the reply to a payload that does not decode.
pub const INVALID_FORMAT: &'static str = "Invalid message format";

/// Text of the reply to a payload without a known request.
pub const UNSUPPORTED_TYPE: &'static str = "Unsupported message type";

/// What an admitted client is told when it connects.
pub const HANDSHAKE_ACCEPTED: &'static str = "CONNECTED";

/// What a client is told when the server is full or stopping.
pub const HANDSHAKE_REFUSED: &'static str = "REFUSED";

/// What a served client is told when the server stops.
pub const SHUTDOWN_NOTICE: &'static str = "SHUTDOWN";

/// The number that four bytes denote in big-endian order.
pub open spec fn be_u32(b: Seq<u8>) -> int
    recommends
        b.len() == 4,
{
    b[0] * 0x1000000 + b[1] * 0x10000 + b[2] * 0x100 + b[3]
}

/// The four bytes that denote `n` in big-endian order.
pub open spec fn be_bytes(n: int) -> Seq<u8> {
    seq![
        (n / 0x1000000 % 0x100) as u8,
        (n / 0x10000 % 0x100) as u8,
        (n / 0x100 % 0x100) as u8,
        (n % 0x100) as u8,
    ]
}

/// A frame: the size header of the payload, then the payload.
pub open spec fn frame_bytes(payload: Seq<u8>) -> Seq<u8> {
    be_bytes(payload.len() as int) + payload
}

/// The reply that carries an error text with a status.
pub open spec fn error_reply(status: i32, text: Seq<char>) -> ReplyModel {
    ReplyModel { body: Some(ReplyBodyModel::Echo(text)), status }
}

/// Whether serving the request would add beyond the range of `i32`.
pub open spec fn add_overflows_spec(req: Option<RequestModel>) -> bool {
    match req {
        Some(RequestModel::Add(a, b)) => !(i32::MIN <= a + b <= i32::MAX),
        _ => false,
    }
}

/// The reply owed to a decoded request: an echo gives back its text, an
/// addition its sum, both with `STATUS_OK`; a payload without a known
/// request is answered with `STATUS_UNSUPPORTED`.
pub open spec fn reply_to(req: Option<RequestModel>) -> ReplyModel {
    match req {
        Some(RequestModel::Echo(text)) => ReplyModel {
            body: Some(ReplyBodyModel::Echo(text)),
            status: STATUS_OK,
        },
        Some(RequestModel::Add(a, b)) => ReplyModel {
            body: Some(ReplyBodyModel::Add((a + b) as i32)),
            status: STATUS_OK,
        },
        None => error_reply(STATUS_UNSUPPORTED, UNSUPPORTED_TYPE@),
    }
}

/// Reads the payload size that a header announces (big-endian).
pub fn payload_size(header: [u8; 4]) -> (size: u32)
    ensures
        size as int == be_u32(header@),
{
    let b0: u32 = header[0] as u32;
    let b1: u32 = header[1] as u32;
    let b2: u32 = header[2] as u32;
    let b3: u32 = header[3] as u32;
    b0 * 0x1000000 + b1 * 0x10000 + b2 * 0x100 + b3
}

/// The header that announces a payload of `size` bytes (big-endian).
pub fn size_header(size: u32) -> (header: [u8; 4])
    ensures
        header@ == be_bytes(size as int),
        be_u32(header@) == size as int,
{
    let b0: u8 = (size / 0x1000000) as u8;
    let b1: u8 = (size / 0x10000 % 0x100) as u8;
    let b2: u8 = (size / 0x100 % 0x100) as u8;
    let b3: u8 = (size % 0x100) as u8;
    let header: [u8; 4] = [b0, b1, b2, b3];
    assert(header@ =~= seq![b0, b1, b2, b3]);
    header
}

/// Why a payload cannot be framed.
#[derive(Clone, Copy, Debug, PartialEq, Eq)]
pub enum FrameError {
    /// The payload is longer than a size header can announce.
    PayloadTooLarge,
}

/// Frames `payload` for sending: its size header, then the payload. Fails
/// when the size does not fit the four-byte header.
pub fn encode_frame(payload: &[u8]) -> (frame: Result<Vec<u8>, FrameError>)
    ensures
        frame is Ok <==> payload@.len() <= u32::MAX,
        frame matches Ok(bytes) ==> bytes@ == frame_bytes(payload@),
{
    let len: usize = payload.len();
    if len > u32::MAX as usize {
        return Err(FrameError::PayloadTooLarge);
    }
    let header: [u8; 4] = size_header(len as u32);
    let mut bytes: Vec<u8> = Vec::new();
    let mut i: usize = 0;
    while i < HEADER_SIZE
        invariant
            i <= HEADER_SIZE,
            bytes@ == header@.take(i as int),
        decreases HEADER_SIZE - i,
    {
        bytes.push(header[i]);
        i = i + 1;
        assert(bytes@ =~= header@.take(i as int));
    }
    let mut j: usize = 0;
    while j < len
        invariant
            j <= len,
            len == payload@.len(),
            bytes@ == header@ + payload@.take(j as int),
        decreases len - j,
    {
        bytes.push(payload[j]);
        j = j + 1;
        assert(bytes@ =~= header@ + payload@.take(j as int));
    }
    assert(payload@.take(len as int) =~= payload@);
    Ok(bytes)
}

/// Whether serving `msg` would add beyond the range of `i32`; serving such
/// a request panics, so callers test this first.
pub fn add_overflows(msg: &ClientMessage) -> (overflows: bool)
    ensures
        overflows == add_overflows_spec(msg@),
{
    match &msg.message {
        Some(client_message::Message::AddRequest(r)) => r.a.checked_add(r.b).is_none(),
        _ => false,
    }
}

/// The reply that carries `error_message` with `status`.
pub fn respond_with_error(status: i32, error_message: &str) -> (reply: ServerMessage)
    ensures
        reply@ == error_reply(status, error_message@),
{
    ServerMessage {
        message: Some(
            server_message::Message::EchoMessage(EchoMessage { content: error_message.to_owned() }),
        ),
        status,
    }
}

/// The reply to a decoded request.
pub fn process_message(client_message: ClientMessage) -> (reply: ServerMessage)
    requires
        !add_overflows_spec(client_message@),
    ensures
        reply@ == reply_to(client_message@),
{
    match client_message.message {
        Some(client_message::Message::EchoMessage(echo)) => ServerMessage {
            message: Some(server_message::Message::EchoMessage(EchoMessage { content: echo.content })),
            status: STATUS_OK,
        },
        Some(client_message::Message::AddRequest(add_request)) => {
            let result: i32 = add_request.a + add_request.b;
            ServerMessage {
                message: Some(server_message::Message::AddResponse(AddResponse { result })),
                status: STATUS_OK,
            }
        },
        None => respond_with_error(STATUS_UNSUPPORTED, UNSUPPORTED_TYPE),
    }
}

/// The greeting sent to a connecting client: only an admitted client is
/// told `HANDSHAKE_ACCEPTED`.
pub fn handshake(admitted: bool) -> (greeting: &'static str)
    ensures
        greeting@ == (if admitted {
            HANDSHAKE_ACCEPTED@
        } else {
            HANDSHAKE_REFUSED@
        }),
{
    if admitted {
        HANDSHAKE_ACCEPTED
    } else {
        HANDSHAKE_REFUSED
    }
}

/// An add request is flagged exactly when the mathematical sum of its
/// operands lies outside the range of `i32`; no other request is flagged.
pub proof fn lemma_overflow_exact(a: i32, b: i32, text: Seq<char>)
    ensures
        add_overflows_spec(Some(RequestModel::Add(a, b))) <==> (a + b < -0x8000_0000 || a + b
            > 0x7fff_ffff),
        !add_overflows_spec(Some(RequestModel::Echo(text))),
        !add_overflows_spec(None),
{
}

/// The four bytes of a header are, in order, the most to the least
/// significant byte of the size it announces.
pub proof fn lemma_header_big_endian(h: Seq<u8>)
    requires
        h.len() == 4,
    ensures
        0 <= be_u32(h) < 0x1_0000_0000,
        be_u32(h) / 0x1000000 == h[0],
        be_u32(h) / 0x10000 % 0x100 == h[1],
        be_u32(h) / 0x100 % 0x100 == h[2],
        be_u32(h) % 0x100 == h[3],
{
    let b0: int = h[0] as int;
    let b1: int = h[1] as int;
    let b2: int = h[2] as int;
    let b3: int = h[3] as int;
    assert(0 <= b0 < 256 && 0 <= b1 < 256 && 0 <= b2 < 256 && 0 <= b3 < 256);
    let n: int = b0 * 0x1000000 + b1 * 0x10000 + b2 * 0x100 + b3;
    assert(n == be_u32(h));
    assert(0 <= n < 0x1_0000_0000 && n / 0x1000000 == b0 && n / 0x10000 % 0x100 == b1 && n
        / 0x100 % 0x100 == b2 && n % 0x100 == b3) by (nonlinear_arith)
        requires
            0 <= b0 < 256,
            0 <= b1 < 256,
            0 <= b2 < 256,
            0 <= b3 < 256,
            n == b0 * 0x1000000 + b1 * 0x10000 + b2 * 0x100 + b3,
    ;
}

/// An error reply carries the given status, and the given text as its
/// body.
pub proof fn lemma_error_reply_carries(status: i32, text: Seq<char>)
    ensures
        error_reply(status, text).status == status,
        error_reply(status, text).body == Some(ReplyBodyModel::Echo(text)),
{
}

/// An echo request is answered with its own text and status 1; a payload
/// without a known request gets status 3 and its error text.
pub proof fn lemma_echo_returns_text(text: Seq<char>)
    ensures
        reply_to(Some(RequestModel::Echo(text))) == (ReplyModel {
            body: Some(ReplyBodyModel::Echo(text)),
            status: 1,
        }),
        reply_to(None) == (ReplyModel {
            body: Some(ReplyBodyModel::Echo(UNSUPPORTED_TYPE@)),
            status: 3,
        }),
{
}

/// An add request is answered with the sum of its operands and
/// `STATUS_OK`.
pub proof fn lemma_add_returns_sum(a: i32, b: i32)
    requires
        !add_overflows_spec(Some(RequestModel::Add(a, b))),
    ensures
        reply_to(Some(RequestModel::Add(a, b))) matches ReplyModel {
            body: Some(ReplyBodyModel::Add(result)),
            status,
        } && result == a + b && status == 1,
{
}

/// The four big-endian bytes of a size denote that size again.
pub proof fn lemma_be_roundtrip(n: int)
    requires
        0 <= n <= u32::MAX,
    ensures
        be_bytes(n).len() == 4,
        be_u32(be_bytes(n)) == n,
{
    let b0: int = n / 0x1000000 % 0x100;
    let b1: int = n / 0x10000 % 0x100;
    let b2: int = n / 0x100 % 0x100;
    let b3: int = n % 0x100;
    assert(b0 * 0x1000000 + b1 * 0x10000 + b2 * 0x100 + b3 == n) by (nonlinear_arith)
        requires
            0 <= n <= u32::MAX,
            b0 == n / 0x1000000 % 0x100,
            b1 == n / 0x10000 % 0x100,
            b2 == n / 0x100 % 0x100,
            b3 == n % 0x100,
    ;
}

/// Reading the header of a frame gives back the size of its payload, and
/// what follows the header is the payload itself.
pub proof fn lemma_frame_roundtrip(payload: Seq<u8>)
    requires
        payload.len() <= u32::MAX,
    ensures
        frame_bytes(payload).len() == HEADER_SIZE + payload.len(),
        be_u32(frame_bytes(payload).take(HEADER_SIZE as int)) == payload.len(),
        frame_bytes(payload).skip(HEADER_SIZE as int) == payload,
{
    let n: int = payload.len() as int;
    let f = frame_bytes(payload);
    lemma_be_roundtrip(n);
    assert(f.take(4) =~= be_bytes(n));
    assert(f.skip(4) =~= payload);
}

} // verus!
