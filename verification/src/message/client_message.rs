//! The requests a `ClientMessage` can carry.
use vstd::prelude::*;

use crate::message::{AddRequest, EchoMessage};

verus! {

/// One request of a client.
#[derive(Clone, Debug, PartialEq, Eq)]
pub enum Message {
    EchoMessage(EchoMessage),
    AddRequest(AddRequest),
}

} // verus!
