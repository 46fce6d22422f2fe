//! The envelope that travels through the internal channels.
use crate::status_message::{encode_status, StatusMessage};
use vstd::prelude::*;

verus! {

#[allow(non_camel_case_types)]
#[derive(Debug, Clone, Copy, PartialEq, Eq, Structural)]
pub enum MessageType {
    STATUS,
    DATA,
}

/// A kind, the identifier of the peer it concerns or comes from, and an opaque
/// payload: an encoded status message for STATUS, application bytes for DATA.
#[derive(Debug, Clone)]
pub struct Message {
    pub message_type: MessageType,
    pub peer_id: String,
    pub data: Vec<u8>,
}

impl View for Message {
    type V = (MessageType, Seq<char>, Seq<u8>);

    open spec fn view(&self) -> (MessageType, Seq<char>, Seq<u8>) {
        (self.message_type, self.peer_id@, self.data@)
    }
}

impl Message {
    pub fn new(message_type: MessageType, peer_id: String, data: Vec<u8>) -> (r: Self)
        ensures
            r@ == (message_type, peer_id@, data@),
    {
        Self { message_type, peer_id, data }
    }

    /// A STATUS message about `peer_id` that carries the encoding of `meta`.
    pub fn new_status(peer_id: String, meta: StatusMessage) -> (r: Self)
        ensures
            r@ == (MessageType::STATUS, peer_id@, encode_status(meta@)),
    {
        Self::new(MessageType::STATUS, peer_id, meta.encode())
    }

    /// A DATA message from `peer_id` that carries `data`.
    pub fn new_data(peer_id: String, data: Vec<u8>) -> (r: Self)
        ensures
            r@ == (MessageType::DATA, peer_id@, data@),
    {
        Self::new(MessageType::DATA, peer_id, data)
    }
}

} // verus!
