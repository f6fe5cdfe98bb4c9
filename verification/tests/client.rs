use std::collections::HashMap;

use multiplayer::client::game::{
    advance_client, apply_server_message, position_reports, position_transmit_due,
    process_events_and_input, process_message_queue, step, ClientState, InputState,
    FRAMES_PER_SECOND, PLAYER_SPEED, POSITION_TRANSMIT_FREQUENCY, TIMESTEP_NANOS,
};
use multiplayer::common::client_to_server::ClientToServerMessage;
use multiplayer::common::game_objects::Player;
use multiplayer::common::queues::Mailbox;
use multiplayer::common::server_to_client::ServerToClientMessage;
use multiplayer::common::vec2::Vec2;

fn player(owner_client_id: u32, id: u32, x: i32, y: i32) -> Player {
    Player { owner_client_id, id, pos: Vec2 { x, y }, vel: Vec2 { x: 0, y: 0 } }
}

fn put(players: &mut HashMap<u32, Player>, player: Player) {
    players.insert(player.id, player);
}

/// The players, in the order of their identities.
fn listed(players: &HashMap<u32, Player>) -> Vec<Player> {
    let mut all: Vec<Player> = players.values().copied().collect();
    all.sort_by_key(|p| p.id);
    all
}

fn spawn(owner_client_id: u32, entity_id: u32, x: i32, y: i32) -> ServerToClientMessage {
    ServerToClientMessage::SpawnPlayer { owner_client_id, entity_id, pos: Vec2 { x, y } }
}

fn keys(up: bool, down: bool, left: bool, right: bool) -> InputState {
    InputState { escape: false, up, down, left, right }
}

#[test]
fn new_client_state() {
    let state = ClientState::new();
    assert!(state.running);
    assert_eq!(state.time_since_last_update, 0);
    assert_eq!(state.client_id, None);
    assert_eq!(state.player_id, None);
    assert!(state.players.is_empty());
    assert_eq!(FRAMES_PER_SECOND, 60);
    assert_eq!(TIMESTEP_NANOS, 16_666_666);
    assert_eq!(PLAYER_SPEED, 1);
    assert_eq!(POSITION_TRANSMIT_FREQUENCY, 1);
}

#[test]
fn identity_assignment_is_remembered() {
    let mut state = ClientState::new();
    apply_server_message(
        &mut state,
        &ServerToClientMessage::ClientIdAssignment { new_client_id: 4 },
    );
    assert_eq!(state.client_id, Some(4));
    assert_eq!(state.player_id, None);
}

#[test]
fn own_spawn_becomes_the_clients_player() {
    let mut state = ClientState::new();
    state.client_id = Some(4);
    apply_server_message(&mut state, &spawn(3, 10, 1, 1));
    assert_eq!(state.player_id, None);
    apply_server_message(&mut state, &spawn(4, 11, 2, 2));
    assert_eq!(state.player_id, Some(11));
    assert_eq!(listed(&state.players), vec![player(3, 10, 1, 1), player(4, 11, 2, 2)]);
}

#[test]
fn spawn_before_the_identity_is_known_is_not_taken_as_own() {
    let mut state = ClientState::new();
    apply_server_message(&mut state, &spawn(0, 0, 0, 0));
    assert_eq!(state.player_id, None);
    assert_eq!(listed(&state.players), vec![player(0, 0, 0, 0)]);
}

#[test]
fn spawn_of_a_known_entity_replaces_it() {
    let mut state = ClientState::new();
    put(&mut state.players, player(1, 5, 9, 9));
    state.players.get_mut(&5).unwrap().vel = Vec2 { x: 3, y: 3 };
    put(&mut state.players, player(2, 6, 0, 0));
    apply_server_message(&mut state, &spawn(7, 5, -1, -2));
    assert_eq!(listed(&state.players), vec![player(7, 5, -1, -2), player(2, 6, 0, 0)]);
}

#[test]
fn position_update_moves_a_known_entity_only() {
    let mut state = ClientState::new();
    put(&mut state.players, player(1, 5, 0, 0));
    state.players.get_mut(&5).unwrap().vel = Vec2 { x: 2, y: 2 };
    apply_server_message(
        &mut state,
        &ServerToClientMessage::EntityPosition { entity_id: 5, pos: Vec2 { x: 3, y: 4 } },
    );
    apply_server_message(
        &mut state,
        &ServerToClientMessage::EntityPosition { entity_id: 6, pos: Vec2 { x: 8, y: 8 } },
    );
    assert_eq!(state.players.len(), 1);
    assert_eq!(state.players[&5].pos, Vec2 { x: 3, y: 4 });
    assert_eq!(state.players[&5].vel, Vec2 { x: 2, y: 2 });
}

#[test]
fn notices_change_nothing() {
    let mut state = ClientState::new();
    state.client_id = Some(1);
    put(&mut state.players, player(1, 0, 5, 5));
    for message in [
        ServerToClientMessage::Welcome { server_message: "hi".to_string() },
        ServerToClientMessage::PlayerJoined { id: 2 },
        ServerToClientMessage::PlayerLeft { id: 2 },
        ServerToClientMessage::ChatMessage { from: 2, message: "yo".to_string() },
    ] {
        apply_server_message(&mut state, &message);
    }
    assert_eq!(state.client_id, Some(1));
    assert_eq!(state.player_id, None);
    assert_eq!(listed(&state.players), vec![player(1, 0, 5, 5)]);
    assert!(state.running);
}

#[test]
fn queue_is_applied_in_order_and_handed_back() {
    let mut incoming = Mailbox::new(10);
    let sent = vec![
        ServerToClientMessage::ClientIdAssignment { new_client_id: 2 },
        ServerToClientMessage::Welcome { server_message: "welcome to the server".to_string() },
        spawn(2, 0, 0, 0),
        ServerToClientMessage::EntityPosition { entity_id: 0, pos: Vec2 { x: 1, y: 0 } },
        ServerToClientMessage::EntityPosition { entity_id: 0, pos: Vec2 { x: 2, y: 0 } },
    ];
    for message in sent.iter() {
        incoming.push(message.clone()).unwrap();
    }
    let mut state = ClientState::new();
    let seen = process_message_queue(&mut state, &mut incoming);
    assert_eq!(seen, sent);
    assert_eq!(incoming.len(), 0);
    assert_eq!(state.client_id, Some(2));
    assert_eq!(state.player_id, Some(0));
    assert_eq!(listed(&state.players), vec![player(2, 0, 2, 0)]);
    assert!(process_message_queue(&mut state, &mut incoming).is_empty());
}

#[test]
fn escape_stops_the_client() {
    let mut state = ClientState::new();
    process_events_and_input(&mut state, &keys(true, false, false, false));
    assert!(state.running);
    process_events_and_input(
        &mut state,
        &InputState { escape: true, up: false, down: false, left: false, right: false },
    );
    assert!(!state.running);
    process_events_and_input(&mut state, &keys(false, false, false, false));
    assert!(!state.running);
}

#[test]
fn keys_move_the_clients_own_player() {
    let mut state = ClientState::new();
    put(&mut state.players, player(1, 7, 10, 10));
    put(&mut state.players, player(2, 8, 10, 10));
    state.player_id = Some(7);
    process_events_and_input(&mut state, &keys(true, false, false, false));
    assert_eq!(state.players[&7].pos, Vec2 { x: 10, y: 9 });
    process_events_and_input(&mut state, &keys(false, true, false, true));
    assert_eq!(state.players[&7].pos, Vec2 { x: 11, y: 10 });
    process_events_and_input(&mut state, &keys(false, false, true, false));
    assert_eq!(state.players[&7].pos, Vec2 { x: 10, y: 10 });
    process_events_and_input(&mut state, &keys(true, true, true, true));
    assert_eq!(state.players[&7].pos, Vec2 { x: 10, y: 10 });
    process_events_and_input(&mut state, &keys(false, false, false, false));
    assert_eq!(state.players[&7].pos, Vec2 { x: 10, y: 10 });
    assert_eq!(state.players[&8].pos, Vec2 { x: 10, y: 10 });
}

#[test]
fn keys_move_nothing_without_a_player() {
    let mut state = ClientState::new();
    put(&mut state.players, player(1, 7, 0, 0));
    process_events_and_input(&mut state, &keys(true, false, true, false));
    assert_eq!(state.players[&7].pos, Vec2 { x: 0, y: 0 });
    state.player_id = Some(8);
    process_events_and_input(&mut state, &keys(true, false, true, false));
    assert_eq!(state.players[&7].pos, Vec2 { x: 0, y: 0 });
}

#[test]
fn keys_stop_at_the_ends_of_the_range() {
    let mut state = ClientState::new();
    put(&mut state.players, player(1, 0, i32::MIN, i32::MAX));
    state.player_id = Some(0);
    process_events_and_input(&mut state, &keys(false, true, true, false));
    assert_eq!(state.players[&0].pos, Vec2 { x: i32::MIN, y: i32::MAX });
    state.players.get_mut(&0).unwrap().pos = Vec2 { x: i32::MIN, y: i32::MIN };
    process_events_and_input(&mut state, &keys(true, true, true, true));
    assert_eq!(state.players[&0].pos, Vec2 { x: i32::MIN + 1, y: i32::MIN + 1 });
}

#[test]
fn positions_of_owned_players_are_reported() {
    let mut state = ClientState::new();
    put(&mut state.players, player(1, 0, 1, 2));
    put(&mut state.players, player(2, 1, 3, 4));
    put(&mut state.players, player(1, 2, 5, 6));
    assert!(position_reports(&state).is_empty());
    state.client_id = Some(1);
    let mut reports = position_reports(&state);
    reports.sort_by_key(|report| match report {
        ClientToServerMessage::EntityPosition { entity_id, .. } => *entity_id,
        _ => u32::MAX,
    });
    assert_eq!(
        reports,
        vec![
            ClientToServerMessage::EntityPosition { entity_id: 0, pos: Vec2 { x: 1, y: 2 } },
            ClientToServerMessage::EntityPosition { entity_id: 2, pos: Vec2 { x: 5, y: 6 } },
        ]
    );
    state.client_id = Some(3);
    assert!(position_reports(&state).is_empty());
}

#[test]
fn positions_are_due_every_frame() {
    let mut counter = POSITION_TRANSMIT_FREQUENCY;
    assert!(position_transmit_due(&mut counter));
    assert_eq!(counter, 1);
    assert!(position_transmit_due(&mut counter));
    let mut counter = 3;
    assert!(!position_transmit_due(&mut counter));
    assert_eq!(counter, 2);
    assert!(!position_transmit_due(&mut counter));
    assert_eq!(counter, 1);
    assert!(position_transmit_due(&mut counter));
    assert_eq!(counter, 1);
    let mut counter = 0;
    assert!(position_transmit_due(&mut counter));
    assert_eq!(counter, 1);
}

#[test]
fn client_step_moves_every_player_by_its_velocity() {
    let mut state = ClientState::new();
    put(&mut state.players, player(1, 0, 1, 1));
    state.players.get_mut(&0).unwrap().vel = Vec2 { x: 2, y: -2 };
    put(&mut state.players, player(1, 1, 0, 0));
    state.client_id = Some(1);
    state.player_id = Some(0);
    step(&mut state);
    assert_eq!(state.players[&0].pos, Vec2 { x: 3, y: -1 });
    assert_eq!(state.players[&1].pos, Vec2 { x: 0, y: 0 });
    assert_eq!(state.client_id, Some(1));
    assert_eq!(state.player_id, Some(0));
    assert!(state.running);
}

#[test]
fn client_advances_by_whole_timesteps() {
    let mut state = ClientState::new();
    put(&mut state.players, player(1, 0, 0, 0));
    state.players.get_mut(&0).unwrap().vel = Vec2 { x: 1, y: 0 };
    assert_eq!(advance_client(&mut state, TIMESTEP_NANOS), 1);
    assert_eq!(state.time_since_last_update, 0);
    assert_eq!(state.players[&0].pos, Vec2 { x: 1, y: 0 });
    assert_eq!(advance_client(&mut state, 3 * TIMESTEP_NANOS), 3);
    assert_eq!(state.time_since_last_update, 0);
    assert_eq!(state.players[&0].pos, Vec2 { x: 4, y: 0 });
    assert_eq!(advance_client(&mut state, TIMESTEP_NANOS - 1), 0);
    assert_eq!(state.time_since_last_update, TIMESTEP_NANOS - 1);
    assert_eq!(advance_client(&mut state, 2), 1);
    assert_eq!(state.time_since_last_update, 1);
    assert_eq!(state.players[&0].pos, Vec2 { x: 5, y: 0 });
    assert_eq!(advance_client(&mut state, 0), 0);
    assert_eq!(state.time_since_last_update, 1);
}
