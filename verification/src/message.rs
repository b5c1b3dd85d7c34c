//! What a connection hands to a session and what a session hands back.

use vstd::prelude::*;

verus! {

/// One thing that a connection yields to its session.
#[derive(Debug, PartialEq, Eq)]
pub enum Inbound {
    /// A text message.
    Text(String),
    /// A binary message.
    Binary(Vec<u8>),
    /// A message that is neither text, binary nor close.
    Other,
    /// The peer asked to close.
    Close,
    /// The connection ended or failed.
    Lost,
}

/// An inbound message as the contracts see it.
pub enum InboundView {
    Text(Seq<char>),
    Binary(Seq<u8>),
    Other,
    Close,
    Lost,
}

impl View for Inbound {
    type V = InboundView;

    open spec fn view(&self) -> InboundView {
        match self {
            Inbound::Text(text) => InboundView::Text(text@),
            Inbound::Binary(bytes) => InboundView::Binary(bytes@),
            Inbound::Other => InboundView::Other,
            Inbound::Close => InboundView::Close,
            Inbound::Lost => InboundView::Lost,
        }
    }
}

impl InboundView {
    /// Whether the message ends the connection.
    pub open spec fn ends_connection(self) -> bool {
        self is Close || self is Lost
    }
}

/// One thing that a session hands to its connection to be written.
#[derive(Debug, PartialEq, Eq)]
pub enum Outbound {
    /// A text message.
    Text(String),
    /// A binary message.
    Binary(Vec<u8>),
}

/// An outbound message as the contracts see it.
pub enum OutboundView {
    Text(Seq<char>),
    Binary(Seq<u8>),
}

impl View for Outbound {
    type V = OutboundView;

    open spec fn view(&self) -> OutboundView {
        match self {
            Outbound::Text(text) => OutboundView::Text(text@),
            Outbound::Binary(bytes) => OutboundView::Binary(bytes@),
        }
    }
}

/// A list of outbound messages as the contracts see it.
pub open spec fn outbound_view(messages: Seq<Outbound>) -> Seq<OutboundView> {
    messages.map_values(|message: Outbound| message@)
}

} // verus!
