//! The messages exchanged between client and server, and their models.
//!
//! The enums of what a request or a reply carries are `Message` in the
//! modules `client_message` and `server_message`.
use vstd::prelude::*;

pub mod client_message;
pub mod server_message;

verus! {

/// A text to be echoed back; also carries the text of error replies.
#[derive(Clone, Debug, PartialEq, Eq)]
pub struct EchoMessage {
    pub content: String,
}

/// A request to add two integers.
#[derive(Clone, Copy, Debug, PartialEq, Eq)]
pub struct AddRequest {
    pub a: i32,
    pub b: i32,
}

/// The sum computed for an `AddRequest`.
#[derive(Clone, Copy, Debug, PartialEq, Eq)]
pub struct AddResponse {
    pub result: i32,
}

/// A request from a client; `message` is `None` when the payload carried
/// no known request.
#[derive(Clone, Debug, PartialEq, Eq)]
pub struct ClientMessage {
    pub message: Option<client_message::Message>,
}

/// A reply from the server, with a status code.
#[derive(Clone, Debug, PartialEq, Eq)]
pub struct ServerMessage {
    pub message: Option<server_message::Message>,
    pub status: i32,
}

/// Model of a request: what a `client_message::Message` holds.
pub enum RequestModel {
    Echo(Seq<char>),
    Add(i32, i32),
}

/// Model of a reply body: what a `server_message::Message` holds.
pub enum ReplyBodyModel {
    Echo(Seq<char>),
    Add(i32),
}

/// Model of a `ServerMessage`.
pub struct ReplyModel {
    pub body: Option<ReplyBodyModel>,
    pub status: i32,
}

impl View for EchoMessage {
    type V = Seq<char>;

    open spec fn view(&self) -> Seq<char> {
        self.content@
    }
}

impl View for client_message::Message {
    type V = RequestModel;

    open spec fn view(&self) -> RequestModel {
        match self {
            client_message::Message::EchoMessage(e) => RequestModel::Echo(e.content@),
            client_message::Message::AddRequest(r) => RequestModel::Add(r.a, r.b),
        }
    }
}

impl View for ClientMessage {
    type V = Option<RequestModel>;

    open spec fn view(&self) -> Option<RequestModel> {
        match self.message {
            Some(m) => Some(m@),
            None => None,
        }
    }
}

impl View for server_message::Message {
    type V = ReplyBodyModel;

    open spec fn view(&self) -> ReplyBodyModel {
        match self {
            server_message::Message::EchoMessage(e) => ReplyBodyModel::Echo(e.content@),
            server_message::Message::AddResponse(r) => ReplyBodyModel::Add(r.result),
        }
    }
}

impl View for ServerMessage {
    type V = ReplyModel;

    open spec fn view(&self) -> ReplyModel {
        ReplyModel {
            body: match self.message {
                Some(m) => Some(m@),
                None => None,
            },
            status: self.status,
        }
    }
}

} // verus!
