//! One record of the dnstap stream, as far as the detector reads it.
//!
//! The resolver sends more than this: only the address of the client and the
//! query it sent are kept. Either may be absent from a record.

use vstd::prelude::*;

verus! {

/// What the resolver saw of one DNS exchange.
#[derive(Debug, PartialEq, Eq)]
pub struct Message {
    /// The address the query came from: four or sixteen bytes in network order.
    pub query_address: Option<Vec<u8>>,
    /// The query as it was on the wire.
    pub query_message: Option<Vec<u8>>,
}

/// One record of the stream.
#[derive(Debug, PartialEq, Eq)]
pub struct Dnstap {
    pub message: Option<Message>,
}

/// The bytes behind an optional field.
pub open spec fn field_view(field: Option<Vec<u8>>) -> Option<Seq<u8>> {
    match field {
        Some(bytes) => Some(bytes@),
        None => None,
    }
}

/// A message over plain sequences.
pub struct MessageView {
    pub query_address: Option<Seq<u8>>,
    pub query_message: Option<Seq<u8>>,
}

impl View for Message {
    type V = MessageView;

    open spec fn view(&self) -> MessageView {
        MessageView {
            query_address: field_view(self.query_address),
            query_message: field_view(self.query_message),
        }
    }
}

impl View for Dnstap {
    type V = Option<MessageView>;

    /// The message of the record, where it has one.
    open spec fn view(&self) -> Option<MessageView> {
        match self.message {
            Some(message) => Some(message@),
            None => None,
        }
    }
}

impl MessageView {
    /// The address field as the resolver's schema reads it: an absent field
    /// reads as no bytes at all.
    pub open spec fn address(self) -> Seq<u8> {
        match self.query_address {
            Some(bytes) => bytes,
            None => Seq::empty(),
        }
    }
}

} // verus!
