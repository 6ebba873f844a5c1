use embedded_recruitment_task::admission::Admission;
use embedded_recruitment_task::message::{
    client_message, server_message, AddRequest, AddResponse, ClientMessage, EchoMessage,
    ServerMessage,
};
use embedded_recruitment_task::protocol::{
    encode_frame, handshake, respond_with_error, HANDSHAKE_ACCEPTED,
    HANDSHAKE_REFUSED, STATUS_ERROR, STATUS_OK,
};
use embedded_recruitment_task::session::{Next, Session};

/// The protobuf bytes of a `ClientMessage` carrying an echo request.
fn echo_payload(content: &str) -> Vec<u8> {
    let mut inner = Vec::new();
    prost::encoding::string::encode(1, &content.to_string(), &mut inner);
    let mut outer = Vec::new();
    prost::encoding::encode_key(1, prost::encoding::WireType::LengthDelimited, &mut outer);
    prost::encoding::encode_varint(inner.len() as u64, &mut outer);
    outer.extend_from_slice(&inner);
    outer
}

/// The protobuf bytes of a `ClientMessage` carrying an add request.
fn add_payload(a: i32, b: i32) -> Vec<u8> {
    let mut inner = Vec::new();
    prost::encoding::int32::encode(1, &a, &mut inner);
    prost::encoding::int32::encode(2, &b, &mut inner);
    let mut outer = Vec::new();
    prost::encoding::encode_key(2, prost::encoding::WireType::LengthDelimited, &mut outer);
    prost::encoding::encode_varint(inner.len() as u64, &mut outer);
    outer.extend_from_slice(&inner);
    outer
}

fn echo_request(content: &str) -> ClientMessage {
    ClientMessage {
        message: Some(client_message::Message::EchoMessage(EchoMessage {
            content: content.to_string(),
        })),
    }
}

fn add_request(a: i32, b: i32) -> ClientMessage {
    ClientMessage { message: Some(client_message::Message::AddRequest(AddRequest { a, b })) }
}

/// What the decoder makes of the payloads in these tests: each known
/// payload is paired with its message; anything else does not decode.
struct Decoder(Vec<(Vec<u8>, ClientMessage)>);

impl Decoder {
    fn decode(&self, payload: &[u8]) -> Option<ClientMessage> {
        self.0.iter().find(|(bytes, _)| bytes.as_slice() == payload).map(|(_, m)| m.clone())
    }
}

/// Hands `chunks` to `session` as the connection loop does, reading at
/// most what the session asks for; returns the replies sent.
fn serve_chunks(session: &mut Session, chunks: &[&[u8]], decoder: &Decoder) -> Vec<ServerMessage> {
    let mut replies = Vec::new();
    for chunk in chunks {
        let mut rest: &[u8] = chunk;
        while !rest.is_empty() {
            match session.next(true) {
                Next::Read(wanted) => {
                    let n = wanted.min(rest.len());
                    if let Some(reply) = session.on_data(&rest[..n]) {
                        replies.push(reply);
                    }
                    rest = &rest[n..];
                }
                Next::Decode => {
                    let decoded = decoder.decode(session.pending_payload());
                    replies.push(session.on_payload(decoded));
                }
                other => panic!("unexpected step {:?}", other),
            }
        }
    }
    if session.next(true) == Next::Decode {
        let decoded = decoder.decode(session.pending_payload());
        replies.push(session.on_payload(decoded));
    }
    replies
}

/// Drives `session` through one frame arriving in one piece.
fn serve_frame(
    session: &mut Session,
    frame: &[u8],
    decoded: Option<ClientMessage>,
) -> Vec<ServerMessage> {
    let payload = frame[4..].to_vec();
    let decoder = Decoder(decoded.into_iter().map(|m| (payload.clone(), m)).collect());
    let replies = serve_chunks(session, &[frame], &decoder);
    assert_eq!(session.next(true), Next::Read(4));
    replies
}

fn echoed_content(reply: &ServerMessage) -> String {
    match &reply.message {
        Some(server_message::Message::EchoMessage(echo)) => echo.content.clone(),
        _ => panic!("Expected EchoMessage, but received a different message"),
    }
}

fn connect(admission: &mut Admission) -> bool {
    let admitted = admission.try_admit();
    let greeting = handshake(admitted);
    assert_eq!(greeting.trim() == "CONNECTED", admitted);
    admitted
}

#[test]
fn test_client_connection() {
    let mut admission = Admission::new(100);
    admission.start();
    assert!(connect(&mut admission), "Failed to connect to the server");
    assert_eq!(admission.active_connections(), 1);
    admission.release();
    assert_eq!(admission.active_connections(), 0);
    assert!(!admission.has_shut_down());
    admission.stop();
    assert!(!admission.is_running());
    assert!(admission.has_shut_down());
}

#[test]
fn test_client_echo_message() {
    let mut session = Session::new();
    let frame = encode_frame(&echo_payload("Hello, World!")).unwrap();
    let replies = serve_frame(&mut session, &frame, Some(echo_request("Hello, World!")));
    assert_eq!(replies.len(), 1);
    assert_eq!(echoed_content(&replies[0]), "Hello, World!", "Echoed message content does not match");
    assert_eq!(replies[0].status, STATUS_OK);
}

#[test]
fn test_huge_payload() {
    let huge_content = "A".repeat(600);
    let payload = echo_payload(&huge_content);
    assert_eq!(payload.len(), 606);
    let frame = encode_frame(&payload).unwrap();
    let mut session = Session::new();
    let replies = serve_frame(&mut session, &frame, None);
    assert_eq!(replies.len(), 1, "Failed to receive response for huge payload");
    assert_eq!(replies[0].status, 2, "Expected status 2 (error) for oversized payload");
    assert_eq!(echoed_content(&replies[0]), "Payload too large");
}

#[test]
fn test_multiple_echo_messages() {
    let mut session = Session::new();
    let messages = vec![
        "Hello, World!".to_string(),
        "How are you?".to_string(),
        "Goodbye!".to_string(),
    ];
    for message_content in messages {
        let frame = encode_frame(&echo_payload(&message_content)).unwrap();
        let replies = serve_frame(&mut session, &frame, Some(echo_request(&message_content)));
        assert_eq!(replies.len(), 1, "Failed to receive response for EchoMessage");
        assert_eq!(echoed_content(&replies[0]), message_content, "Echoed message content does not match");
    }
}

#[test]
fn test_multiple_clients() {
    let mut admission = Admission::new(100);
    admission.start();
    let mut sessions = vec![Session::new(), Session::new(), Session::new()];
    for _ in 0..sessions.len() {
        assert!(connect(&mut admission), "Failed to connect to the server");
    }
    let messages = vec![
        "Hello, World!".to_string(),
        "How are you?".to_string(),
        "Goodbye!".to_string(),
    ];
    for message_content in messages {
        let frame = encode_frame(&echo_payload(&message_content)).unwrap();
        for session in sessions.iter_mut() {
            let replies = serve_frame(session, &frame, Some(echo_request(&message_content)));
            assert_eq!(replies.len(), 1, "Failed to receive response for EchoMessage");
            assert_eq!(echoed_content(&replies[0]), message_content, "Echoed message content does not match");
        }
    }
    for _ in 0..sessions.len() {
        admission.release();
    }
    assert_eq!(admission.active_connections(), 0);
}

#[test]
fn test_client_add_request() {
    let add = AddRequest { a: 10, b: 20 };
    let frame = encode_frame(&add_payload(add.a, add.b)).unwrap();
    let mut session = Session::new();
    let replies = serve_frame(&mut session, &frame, Some(add_request(add.a, add.b)));
    assert_eq!(replies.len(), 1, "Failed to receive response for AddRequest");
    match &replies[0].message {
        Some(server_message::Message::AddResponse(add_response)) => {
            assert_eq!(add_response.result, add.a + add.b, "AddResponse result does not match");
        }
        _ => panic!("Expected AddResponse, but received a different message"),
    }
    assert_eq!(replies[0].status, STATUS_OK);
}

#[test]
fn test_concurrent_requests() {
    let mut admission = Admission::new(100);
    admission.start();
    assert!(connect(&mut admission), "Client 1 failed to connect");
    assert!(connect(&mut admission), "Client 2 failed to connect");
    let mut session1 = Session::new();
    let mut session2 = Session::new();
    let echo_frame = encode_frame(&echo_payload("Concurrent echo")).unwrap();
    let add_frame = encode_frame(&add_payload(5, 10)).unwrap();
    // Both headers arrive before either payload.
    assert_eq!(session1.on_data(&echo_frame[..4]), None);
    assert_eq!(session2.on_data(&add_frame[..4]), None);
    assert_eq!(session1.on_data(&echo_frame[4..]), None);
    assert_eq!(session2.on_data(&add_frame[4..]), None);
    assert_eq!(session1.next(true), Next::Decode);
    assert_eq!(session1.pending_payload(), &echo_frame[4..]);
    assert_eq!(session2.pending_payload(), &add_frame[4..]);
    let response1 = session1.on_payload(Some(echo_request("Concurrent echo")));
    let response2 = session2.on_payload(Some(add_request(5, 10)));
    assert_eq!(echoed_content(&response1), "Concurrent echo");
    assert_eq!(
        response2.message,
        Some(server_message::Message::AddResponse(AddResponse { result: 15 }))
    );
    admission.release();
    admission.release();
    admission.stop();
}

#[test]
fn test_high_connection_volume() {
    let mut admission = Admission::new(100);
    admission.start();
    let client_count = 10;
    let mut sessions: Vec<Session> = (0..client_count).map(|_| Session::new()).collect();
    for _ in 0..client_count {
        assert!(connect(&mut admission), "Failed to connect client");
    }
    let frame = encode_frame(&echo_payload("High volume test")).unwrap();
    for session in sessions.iter_mut() {
        let replies = serve_frame(session, &frame, Some(echo_request("High volume test")));
        assert_eq!(replies.len(), 1, "Client failed to receive response during high connection volume");
    }
    for _ in 0..client_count {
        admission.release();
    }
    assert_eq!(admission.active_connections(), 0);
}

#[test]
fn test_multiple_servers_multiple_clients() {
    let mut servers = vec![Admission::new(100), Admission::new(100), Admission::new(100)];
    let messages = vec![
        "Hello, World!".to_string(),
        "How are you?".to_string(),
        "Goodbye!".to_string(),
    ];
    for server in servers.iter_mut() {
        server.start();
        let mut sessions = vec![Session::new(), Session::new(), Session::new()];
        for _ in 0..sessions.len() {
            assert!(connect(server), "Failed to connect to the server");
        }
        for message_content in messages.clone() {
            let frame = encode_frame(&echo_payload(&message_content)).unwrap();
            for session in sessions.iter_mut() {
                let replies = serve_frame(session, &frame, Some(echo_request(&message_content)));
                assert_eq!(echoed_content(&replies[0]), message_content, "Echoed message content does not match");
            }
        }
        assert_eq!(server.active_connections(), 3);
    }
    for server in servers.iter_mut() {
        for _ in 0..3 {
            server.release();
        }
        server.stop();
        assert_eq!(server.active_connections(), 0);
    }
}

#[test]
fn test_server_throttling() {
    let max_connections = 5;
    let mut admission = Admission::new(max_connections);
    admission.start();
    const NUM_CLIENTS: usize = 10;
    let mut connected_clients = 0;
    let mut rejected_clients = 0;
    for _ in 0..NUM_CLIENTS {
        if connect(&mut admission) {
            connected_clients += 1;
        } else {
            rejected_clients += 1;
        }
    }
    assert_eq!(connected_clients, max_connections);
    assert_eq!(rejected_clients, NUM_CLIENTS - max_connections);
    assert_eq!(admission.active_connections(), max_connections);
    for _ in 0..connected_clients {
        admission.release();
    }
    assert_eq!(admission.active_connections(), 0);
}

#[test]
fn test_server_shutdown() {
    let mut admission = Admission::new(5);
    admission.start();
    assert!(connect(&mut admission), "Failed to connect client");
    let session = Session::new();
    admission.stop();
    // The served client is told to go away; a new one is not served.
    assert_eq!(session.next(admission.is_running()), Next::Shutdown);
    assert!(!connect(&mut admission));
}

#[test]
fn test_malformed_payload() {
    let malformed_payload = vec![0x12u8, 0x34, 0x56, 0x78];
    let frame = encode_frame(&malformed_payload).unwrap();
    assert_eq!(frame, vec![0, 0, 0, 4, 0x12, 0x34, 0x56, 0x78]);
    // The bytes announce field 2 as 0x34 = 52 bytes long, of which only 2
    // follow: they do not decode.
    let mut rest: &[u8] = &malformed_payload;
    let (tag, wire_type) = prost::encoding::decode_key(&mut rest).unwrap();
    assert_eq!((tag, wire_type), (2, prost::encoding::WireType::LengthDelimited));
    assert!(prost::encoding::decode_varint(&mut rest).unwrap() > rest.len() as u64);
    // The client writes the header and the payload separately.
    let mut session = Session::new();
    let replies = serve_chunks(&mut session, &[&frame[..4], &frame[4..]], &Decoder(Vec::new()));
    assert_eq!(replies.len(), 1, "Expected an error response from the server, but got none");
    assert_eq!(replies[0].status, 2, "Expected status 2 (error) for malformed payload");
}

#[test]
fn test_server_shutdown_during_requests() {
    let mut admission = Admission::new(100);
    admission.start();
    assert!(connect(&mut admission), "Client 1 failed to connect");
    assert!(connect(&mut admission), "Client 2 failed to connect");
    let frame = encode_frame(&echo_payload("During shutdown")).unwrap();
    let mut session1 = Session::new();
    let session2 = Session::new();
    // Client 1 is inside a frame when the server stops; client 2 is not.
    assert_eq!(session1.on_data(&frame[..4]), None);
    admission.stop();
    assert_eq!(session1.next(admission.is_running()), Next::Read(frame.len() - 4));
    assert_eq!(session1.on_data(&frame[4..]), None);
    assert_eq!(session1.next(admission.is_running()), Next::Decode);
    let reply = session1.on_payload(Some(echo_request("During shutdown")));
    assert_eq!(echoed_content(&reply), "During shutdown");
    assert_eq!(session1.next(admission.is_running()), Next::Shutdown);
    assert_eq!(session2.next(admission.is_running()), Next::Shutdown);
}

#[test]
fn refused_client_is_told_so() {
    assert_eq!(handshake(true), HANDSHAKE_ACCEPTED);
    assert_eq!(handshake(false), HANDSHAKE_REFUSED);
    assert_eq!(HANDSHAKE_ACCEPTED, "CONNECTED");
    let mut admission = Admission::new(0);
    admission.start();
    assert!(!admission.try_admit());
    assert_eq!(respond_with_error(STATUS_ERROR, "x").status, STATUS_ERROR);
}
