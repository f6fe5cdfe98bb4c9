//! The client's mirror of the world.
//!
//! The client applies what the server sends, moves its own player as the
//! keys say, reports the positions of the players it owns, and advances its
//! mirror in fixed timesteps.

use crate::common::client_to_server::{ClientMessageView, ClientToServerMessage};
use crate::common::game_objects::{all_stepped, all_stepped_times, identities_of};
use crate::common::game_objects::{move_entity, step_all, with_position, Player};
use crate::common::queues::Mailbox;
use crate::common::server_to_client::{ServerMessageView, ServerToClientMessage};
use crate::common::timestep::{steps_due, take_due_steps, time_left};
use crate::common::vec2::{add_coordinates, clamp_coordinate, Vec2};
use std::collections::HashMap;
use vstd::prelude::*;

verus! {

broadcast use vstd::std_specs::hash::group_hash_axioms;

/// How often per second the client advances its mirror.
pub const FRAMES_PER_SECOND: u32 = 60;

/// The length of one timestep in nanoseconds.
pub const TIMESTEP_NANOS: u64 = 1_000_000_000 / 60;

/// How far a held key moves the player in one frame.
pub const PLAYER_SPEED: i32 = 1;

/// Positions are reported every this many frames.
pub const POSITION_TRANSMIT_FREQUENCY: u32 = 1;

/// What the client knows of the world.
pub struct ClientState {
    /// Cleared when the user asks to quit.
    pub running: bool,
    /// Nanoseconds that have passed and are not yet simulated.
    pub time_since_last_update: u64,
    /// The identity the server gave this client, once it is known.
    pub client_id: Option<u32>,
    /// The entity this client plays, once it is known.
    pub player_id: Option<u32>,
    /// The entities the client has heard of, by their identities.
    pub players: HashMap<u32, Player>,
}

/// The client's state as a mathematical value.
pub ghost struct ClientStateView {
    pub running: bool,
    pub time_since_last_update: u64,
    pub client_id: Option<u32>,
    pub player_id: Option<u32>,
    pub players: Map<u32, Player>,
}

/// The keys that matter to the game, as they are held in one frame.
#[derive(Clone, Copy, Debug, PartialEq, Eq, Structural)]
pub struct InputState {
    /// The quit key was pressed.
    pub escape: bool,
    pub up: bool,
    pub down: bool,
    pub left: bool,
    pub right: bool,
}

/// A position moved as the held keys say: up and down change `y`, left and
/// right change `x`, each by `PLAYER_SPEED`.
pub open spec fn nudged(pos: Vec2, input: InputState) -> Vec2 {
    let y1 = if input.up {
        clamp_coordinate(pos.y - PLAYER_SPEED)
    } else {
        pos.y
    };
    let y2 = if input.down {
        clamp_coordinate(y1 + PLAYER_SPEED)
    } else {
        y1
    };
    let x1 = if input.left {
        clamp_coordinate(pos.x - PLAYER_SPEED)
    } else {
        pos.x
    };
    let x2 = if input.right {
        clamp_coordinate(x1 + PLAYER_SPEED)
    } else {
        x1
    };
    Vec2 { x: x2, y: y2 }
}

/// The message that reports where a player is.
pub open spec fn position_report(player: Player) -> ClientMessageView {
    ClientMessageView::EntityPosition { entity_id: player.id, pos: player.pos }
}

/// One position report for each player that the client owns, the players
/// taken in the given order of their identities.
pub open spec fn position_reports_in(players: Map<u32, Player>, order: Seq<u32>, client_id: u32) -> Seq<
    ClientMessageView,
>
    decreases order.len(),
{
    if order.len() == 0 {
        Seq::empty()
    } else {
        let earlier = position_reports_in(players, order.drop_last(), client_id);
        let player = players[order.last()];
        if player.owner_client_id == client_id {
            earlier.push(position_report(player))
        } else {
            earlier
        }
    }
}

/// Whether a sequence holds the identity of every player, each once.
pub open spec fn lists_identities(order: Seq<u32>, players: Map<u32, Player>) -> bool {
    order.no_duplicates() && forall|id: u32| order.contains(id) <==> players.contains_key(id)
}

impl ClientStateView {
    /// The state after one server message was applied.
    ///
    /// An identity assignment is remembered. A spawned player is put among
    /// the players under its identity, in the place of whatever was there,
    /// and becomes this client's player if this client owns it.
    /// A reported position overwrites that of the entity, if it is known.
    /// The other messages change nothing.
    pub open spec fn applied(self, message: ServerMessageView) -> ClientStateView {
        match message {
            ServerMessageView::ClientIdAssignment { new_client_id } => ClientStateView {
                client_id: Some(new_client_id),
                ..self
            },
            ServerMessageView::SpawnPlayer { owner_client_id, entity_id, pos } => ClientStateView {
                player_id: if self.client_id == Some(owner_client_id) {
                    Some(entity_id)
                } else {
                    self.player_id
                },
                players: self.players.insert(
                    entity_id,
                    Player { owner_client_id, id: entity_id, pos, vel: Vec2::spec_zero() },
                ),
                ..self
            },
            ServerMessageView::EntityPosition { entity_id, pos } => ClientStateView {
                players: with_position(self.players, entity_id, pos),
                ..self
            },
            _ => self,
        }
    }

    /// The state after the messages were applied, first to last.
    pub open spec fn applied_all(self, messages: Seq<ServerMessageView>) -> ClientStateView
        decreases messages.len(),
    {
        if messages.len() == 0 {
            self
        } else {
            self.applied_all(messages.drop_last()).applied(messages.last())
        }
    }

    /// The state after one frame of input: the quit key stops the client, and
    /// the held keys move the client's own player, if it is among the players.
    pub open spec fn with_input(self, input: InputState) -> ClientStateView {
        ClientStateView {
            running: self.running && !input.escape,
            players: match self.player_id {
                Some(id) => if self.players.contains_key(id) {
                    with_position(self.players, id, nudged(self.players[id].pos, input))
                } else {
                    self.players
                },
                None => self.players,
            },
            ..self
        }
    }

    /// The position reports that the client owes the server when its players
    /// are taken in the given order: one for each player it owns, and none
    /// while it does not know its own identity.
    pub open spec fn position_reports_in(self, order: Seq<u32>) -> Seq<ClientMessageView> {
        match self.client_id {
            Some(client_id) => position_reports_in(self.players, order, client_id),
            None => Seq::empty(),
        }
    }

    /// The state after `elapsed` nanoseconds have passed: the players advance
    /// by as many timesteps as are due.
    pub open spec fn advanced(self, elapsed: u64) -> ClientStateView {
        let total = (self.time_since_last_update + elapsed) as nat;
        ClientStateView {
            time_since_last_update: time_left(total, TIMESTEP_NANOS as nat) as u64,
            players: all_stepped_times(self.players, steps_due(total, TIMESTEP_NANOS as nat)),
            ..self
        }
    }
}

impl View for ClientState {
    type V = ClientStateView;

    open spec fn view(&self) -> ClientStateView {
        ClientStateView {
            running: self.running,
            time_since_last_update: self.time_since_last_update,
            client_id: self.client_id,
            player_id: self.player_id,
            players: self.players@,
        }
    }
}

impl ClientState {
    /// A running client that knows neither its identity nor any entity.
    pub fn new() -> (state: ClientState)
        ensures
            state@ == (ClientStateView {
                running: true,
                time_since_last_update: 0,
                client_id: None,
                player_id: None,
                players: Map::empty(),
            }),
    {
        ClientState {
            running: true,
            time_since_last_update: 0,
            client_id: None,
            player_id: None,
            players: HashMap::new(),
        }
    }
}

/// Advances every player by one timestep: its position moves by its velocity.
pub fn step(state: &mut ClientState)
    ensures
        final(state)@ == (ClientStateView {
            players: all_stepped(old(state)@.players),
            ..old(state)@
        }),
{
    step_all(&mut state.players);
}

/// Applies one server message to the client's state.
pub fn apply_server_message(state: &mut ClientState, message: &ServerToClientMessage)
    ensures
        final(state)@ == old(state)@.applied(message@),
{
    match message {
        ServerToClientMessage::ClientIdAssignment { new_client_id } => {
            state.client_id = Some(*new_client_id);
        },
        ServerToClientMessage::SpawnPlayer { owner_client_id, entity_id, pos } => {
            let ours = match state.client_id {
                Some(client_id) => client_id == *owner_client_id,
                None => false,
            };
            if ours {
                state.player_id = Some(*entity_id);
            }
            let _ = state.players.insert(
                *entity_id,
                Player {
                    owner_client_id: *owner_client_id,
                    id: *entity_id,
                    pos: *pos,
                    vel: Vec2::zero(),
                },
            );
        },
        ServerToClientMessage::EntityPosition { entity_id, pos } => {
            move_entity(&mut state.players, *entity_id, *pos);
        },
        _ => {},
    }
}

/// Applies every message that waits in the queue of server messages, oldest
/// first, and returns them in that order, so that the caller can show what
/// is meant for the user. The queue is empty afterwards.
pub fn process_message_queue(state: &mut ClientState, incoming: &mut Mailbox) -> (messages: Vec<
    ServerToClientMessage,
>)
    requires
        old(incoming).wf(),
    ensures
        final(incoming).wf(),
        messages.len() == old(incoming)@.items.len(),
        forall|i: int|
            0 <= i < messages.len() ==> (#[trigger] messages[i])@ == old(incoming)@.items[i],
        final(incoming)@ == old(incoming)@.without_first(messages.len() as nat),
        final(state)@ == old(state)@.applied_all(old(incoming)@.items),
{
    let ghost waiting = incoming@.items;
    let mut messages: Vec<ServerToClientMessage> = Vec::new();
    proof {
        incoming.lemma_wf_bounded();
        assert(waiting.skip(0) =~= waiting);
    }
    loop
        invariant
            incoming.wf(),
            waiting == old(incoming)@.items,
            messages.len() <= waiting.len() <= usize::MAX,
            forall|i: int| 0 <= i < messages.len() ==> (#[trigger] messages[i])@ == waiting[i],
            incoming@ == old(incoming)@.without_first(messages.len() as nat),
            state@ == old(state)@.applied_all(waiting.take(messages.len() as int)),
        ensures
            messages.len() == waiting.len(),
        decreases waiting.len() - messages.len(),
    {
        let ghost n = messages.len() as int;
        match incoming.pop() {
            Some(message) => {
                proof {
                    assert(waiting.take(n + 1).drop_last() =~= waiting.take(n));
                    assert(waiting.skip(n).drop_first() =~= waiting.skip(n + 1));
                }
                apply_server_message(state, &message);
                messages.push(message);
            },
            None => {
                break ;
            },
        }
    }
    messages
}

/// Moves a position as the held keys say.
fn nudge(pos: Vec2, input: &InputState) -> (moved: Vec2)
    ensures
        moved == nudged(pos, *input),
{
    let mut x = pos.x;
    let mut y = pos.y;
    if input.up {
        y = add_coordinates(y, -PLAYER_SPEED);
    }
    if input.down {
        y = add_coordinates(y, PLAYER_SPEED);
    }
    if input.left {
        x = add_coordinates(x, -PLAYER_SPEED);
    }
    if input.right {
        x = add_coordinates(x, PLAYER_SPEED);
    }
    Vec2 { x, y }
}

/// Applies one frame of input: the quit key stops the client, and the held
/// keys move the client's own player.
pub fn process_events_and_input(state: &mut ClientState, input: &InputState)
    ensures
        final(state)@ == old(state)@.with_input(*input),
{
    if input.escape {
        state.running = false;
    }
    if let Some(id) = state.player_id {
        let found = match state.players.get(&id) {
            Some(player) => Some(player.pos),
            None => None,
        };
        if let Some(pos) = found {
            move_entity(&mut state.players, id, nudge(pos, input));
        }
    }
}

/// Counts down the frames until positions are reported next, and says
/// whether they are to be reported in this frame.
pub fn position_transmit_due(counter: &mut u32) -> (due: bool)
    ensures
        due <==> *old(counter) <= 1,
        due ==> *final(counter) == POSITION_TRANSMIT_FREQUENCY,
        !due ==> *final(counter) == *old(counter) - 1,
{
    if *counter <= 1 {
        *counter = POSITION_TRANSMIT_FREQUENCY;
        true
    } else {
        *counter = *counter - 1;
        false
    }
}

/// The position reports that the client owes the server: one for each player
/// it owns, and none while it does not know its own identity. The players
/// are taken in the order in which the map hands them out.
pub fn position_reports(state: &ClientState) -> (reports: Vec<ClientToServerMessage>)
    ensures
        exists|order: Seq<u32>| #[trigger]
            lists_identities(order, state@.players) && reports@.map_values(
                |m: ClientToServerMessage| m@,
            ) == state@.position_reports_in(order),
{
    let mut reports: Vec<ClientToServerMessage> = Vec::new();
    let identities = identities_of(&state.players);
    let ghost view_of = |m: ClientToServerMessage| m@;
    assert(lists_identities(identities@, state@.players));
    if let Some(client_id) = state.client_id {
        let mut i: usize = 0;
        while i < identities.len()
            invariant
                i <= identities.len(),
                view_of == |m: ClientToServerMessage| m@,
                lists_identities(identities@, state@.players),
                reports@.map_values(view_of) == position_reports_in(
                    state@.players,
                    identities@.take(i as int),
                    client_id,
                ),
            decreases identities.len() - i,
        {
            let id = identities[i];
            assert(identities@.contains(id));
            assert(identities@.take(i + 1).drop_last() =~= identities@.take(i as int));
            if let Some(player) = state.players.get(&id) {
                if player.owner_client_id == client_id {
                    reports.push(
                        ClientToServerMessage::EntityPosition {
                            entity_id: player.id,
                            pos: player.pos,
                        },
                    );
                }
            }
            i += 1;
        }
        assert(identities@.take(i as int) =~= identities@);
    }
    reports
}

/// One round of the client's loop: adds the time that has passed since the
/// last round and advances the players by one timestep for each that is due.
/// Returns the number of timesteps taken.
pub fn advance_client(state: &mut ClientState, elapsed: u64) -> (steps: u64)
    ensures
        steps == steps_due(
            (old(state).time_since_last_update + elapsed) as nat,
            TIMESTEP_NANOS as nat,
        ),
        final(state)@ == old(state)@.advanced(elapsed),
        final(state).time_since_last_update < TIMESTEP_NANOS,
{
    let mut accumulated = state.time_since_last_update;
    let steps = take_due_steps(&mut accumulated, elapsed, TIMESTEP_NANOS);
    let mut taken: u64 = 0;
    while taken < steps
        invariant
            taken <= steps,
            state@ == (ClientStateView {
                players: all_stepped_times(old(state)@.players, taken as nat),
                ..old(state)@
            }),
        decreases steps - taken,
    {
        step(state);
        taken += 1;
    }
    state.time_since_last_update = accumulated;
    steps
}

} // verus!
