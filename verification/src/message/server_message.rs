//! The bodies a `ServerMessage` can carry.
use vstd::prelude::*;

use crate::message::{AddResponse, EchoMessage};

verus! {

/// The body of one reply of the server.
#[derive(Clone, Debug, PartialEq, Eq)]
pub enum Message {
    EchoMessage(EchoMessage),
    AddResponse(AddResponse),
}

} // verus!
