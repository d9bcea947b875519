//! The envelope of a message between peers.

use vstd::prelude::*;
use crate::clock::now_millis;
use crate::ids::random_uuid;
use vstd::utf8::encode_utf8;

verus! {

/// A message between peers: who sent it, to whom (no one for a broadcast),
/// its bytes, when it was made (milliseconds since the Unix epoch) and the
/// key it is routed by.
#[derive(Debug, Clone)]
pub struct NetworkMessage {
    pub id: u128,
    pub source: String,
    pub destination: Option<String>,
    pub payload: Vec<u8>,
    pub timestamp: u64,
    pub message_type: String,
}

/// The size of a message: sixteen bytes of id, eight of timestamp, and the
/// bytes of the texts (in UTF-8) and of the payload.
pub open spec fn message_size(m: NetworkMessage) -> int {
    16 + encode_utf8(m.source@).len() + match m.destination {
        Some(d) => encode_utf8(d@).len() as int,
        None => 0,
    } + m.payload@.len() + 8 + encode_utf8(m.message_type@).len()
}

impl NetworkMessage {
    /// A message with a random id, stamped with the current time.
    pub fn new(source: String, destination: Option<String>, payload: Vec<u8>, message_type: String) -> (res: Self)
        ensures
            res.source == source,
            res.destination == destination,
            res.payload == payload,
            res.message_type == message_type,
    {
        NetworkMessage {
            id: random_uuid(),
            source,
            destination,
            payload,
            timestamp: now_millis(),
            message_type,
        }
    }

    /// The size of the message in bytes, as `message_size` counts it.
    pub fn size(&self) -> (res: usize)
        requires
            message_size(*self) <= usize::MAX,
        ensures
            res == message_size(*self),
    {
        let dest: usize = match &self.destination {
            Some(d) => d.as_str().len(),
            None => 0,
        };
        16 + self.source.as_str().len() + dest + self.payload.len() + 8 + self.message_type.as_str().len()
    }
}

} // verus!
