//! Messages that the server sends to a client.

use crate::common::vec2::Vec2;
use vstd::prelude::*;

verus! {

/// What the server can tell a client.
#[derive(Debug, PartialEq, Eq)]
pub enum ServerToClientMessage {
    ClientIdAssignment { new_client_id: u32 },
    Welcome { server_message: String },
    PlayerJoined { id: u32 },
    PlayerLeft { id: u32 },
    ChatMessage { from: u32, message: String },
    SpawnPlayer { owner_client_id: u32, entity_id: u32, pos: Vec2 },
    EntityPosition { entity_id: u32, pos: Vec2 },
}

/// A server message as a mathematical value: text is a sequence of characters.
pub ghost enum ServerMessageView {
    ClientIdAssignment { new_client_id: u32 },
    Welcome { server_message: Seq<char> },
    PlayerJoined { id: u32 },
    PlayerLeft { id: u32 },
    ChatMessage { from: u32, message: Seq<char> },
    SpawnPlayer { owner_client_id: u32, entity_id: u32, pos: Vec2 },
    EntityPosition { entity_id: u32, pos: Vec2 },
}

impl View for ServerToClientMessage {
    type V = ServerMessageView;

    open spec fn view(&self) -> ServerMessageView {
        match *self {
            ServerToClientMessage::ClientIdAssignment { new_client_id } => {
                ServerMessageView::ClientIdAssignment { new_client_id }
            },
            ServerToClientMessage::Welcome { server_message } => ServerMessageView::Welcome {
                server_message: server_message@,
            },
            ServerToClientMessage::PlayerJoined { id } => ServerMessageView::PlayerJoined { id },
            ServerToClientMessage::PlayerLeft { id } => ServerMessageView::PlayerLeft { id },
            ServerToClientMessage::ChatMessage { from, message } => ServerMessageView::ChatMessage {
                from,
                message: message@,
            },
            ServerToClientMessage::SpawnPlayer { owner_client_id, entity_id, pos } => {
                ServerMessageView::SpawnPlayer { owner_client_id, entity_id, pos }
            },
            ServerToClientMessage::EntityPosition { entity_id, pos } => {
                ServerMessageView::EntityPosition { entity_id, pos }
            },
        }
    }
}

impl Clone for ServerToClientMessage {
    fn clone(&self) -> (copy: Self)
        ensures
            copy@ == self@,
    {
        match self {
            ServerToClientMessage::ClientIdAssignment { new_client_id } => {
                ServerToClientMessage::ClientIdAssignment { new_client_id: *new_client_id }
            },
            ServerToClientMessage::Welcome { server_message } => ServerToClientMessage::Welcome {
                server_message: server_message.clone(),
            },
            ServerToClientMessage::PlayerJoined { id } => ServerToClientMessage::PlayerJoined {
                id: *id,
            },
            ServerToClientMessage::PlayerLeft { id } => ServerToClientMessage::PlayerLeft {
                id: *id,
            },
            ServerToClientMessage::ChatMessage { from, message } => {
                ServerToClientMessage::ChatMessage { from: *from, message: message.clone() }
            },
            ServerToClientMessage::SpawnPlayer { owner_client_id, entity_id, pos } => {
                ServerToClientMessage::SpawnPlayer {
                    owner_client_id: *owner_client_id,
                    entity_id: *entity_id,
                    pos: *pos,
                }
            },
            ServerToClientMessage::EntityPosition { entity_id, pos } => {
                ServerToClientMessage::EntityPosition { entity_id: *entity_id, pos: *pos }
            },
        }
    }
}

} // verus!
