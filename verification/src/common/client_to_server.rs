//! Messages that a client sends to the server.

use crate::common::vec2::Vec2;
use vstd::prelude::*;

verus! {

/// What a client can ask of the server.
#[derive(Debug, PartialEq, Eq)]
pub enum ClientToServerMessage {
    Connect,
    Disconnect,
    ChatMessage { message: String },
    RequestToSpawnPlayer,
    RequestAllPlayers,
    EntityPosition { entity_id: u32, pos: Vec2 },
}

/// A client message as a mathematical value: text is a sequence of characters.
pub ghost enum ClientMessageView {
    Connect,
    Disconnect,
    ChatMessage { message: Seq<char> },
    RequestToSpawnPlayer,
    RequestAllPlayers,
    EntityPosition { entity_id: u32, pos: Vec2 },
}

impl View for ClientToServerMessage {
    type V = ClientMessageView;

    open spec fn view(&self) -> ClientMessageView {
        match *self {
            ClientToServerMessage::Connect => ClientMessageView::Connect,
            ClientToServerMessage::Disconnect => ClientMessageView::Disconnect,
            ClientToServerMessage::ChatMessage { message } => ClientMessageView::ChatMessage {
                message: message@,
            },
            ClientToServerMessage::RequestToSpawnPlayer => ClientMessageView::RequestToSpawnPlayer,
            ClientToServerMessage::RequestAllPlayers => ClientMessageView::RequestAllPlayers,
            ClientToServerMessage::EntityPosition { entity_id, pos } => {
                ClientMessageView::EntityPosition { entity_id, pos }
            },
        }
    }
}

impl Clone for ClientToServerMessage {
    fn clone(&self) -> (copy: Self)
        ensures
            copy@ == self@,
    {
        match self {
            ClientToServerMessage::Connect => ClientToServerMessage::Connect,
            ClientToServerMessage::Disconnect => ClientToServerMessage::Disconnect,
            ClientToServerMessage::ChatMessage { message } => ClientToServerMessage::ChatMessage {
                message: message.clone(),
            },
            ClientToServerMessage::RequestToSpawnPlayer => {
                ClientToServerMessage::RequestToSpawnPlayer
            },
            ClientToServerMessage::RequestAllPlayers => ClientToServerMessage::RequestAllPlayers,
            ClientToServerMessage::EntityPosition { entity_id, pos } => {
                ClientToServerMessage::EntityPosition { entity_id: *entity_id, pos: *pos }
            },
        }
    }
}

/// A client message together with the identity of the client that sent it.
#[derive(Debug, PartialEq, Eq)]
pub struct ClientToServerMessageBundle {
    pub client_id: u32,
    pub message: ClientToServerMessage,
}

/// A bundle as a mathematical value.
pub ghost struct BundleView {
    pub client_id: u32,
    pub message: ClientMessageView,
}

impl View for ClientToServerMessageBundle {
    type V = BundleView;

    open spec fn view(&self) -> BundleView {
        BundleView { client_id: self.client_id, message: self.message@ }
    }
}

} // verus!
