//! The authoritative simulation: it handles the queued client messages,
//! keeps the entities, and advances them in fixed timesteps.

use crate::common::client_to_server::{BundleView, ClientMessageView};
use crate::common::client_to_server::{ClientToServerMessage, ClientToServerMessageBundle};
use crate::common::game_objects::{all_stepped, all_stepped_times, move_entity, step_all};
use crate::common::game_objects::{with_position, Player};
use crate::common::server_to_client::{ServerMessageView, ServerToClientMessage};
use crate::common::timestep::{steps_due, take_due_steps, time_left};
use crate::common::vec2::Vec2;
use crate::server::connection_handling::{broadcast_to_all, broadcast_to_all_except};
use crate::server::connection_handling::{send_to_one_client, ClientRegistry, ServerContext};
use crate::server::connection_handling::{ContextView, RegistryView};
use std::collections::HashMap;
use vstd::prelude::*;

verus! {

broadcast use vstd::std_specs::hash::group_hash_axioms;

/// How often per second the simulation advances.
pub const FRAMES_PER_SECOND: u32 = 1;

/// The length of one timestep in nanoseconds.
pub const TIMESTEP_NANOS: u64 = 1_000_000_000;

/// The text of the welcome that a client gets when it connects.
pub open spec fn welcome_text() -> Seq<char> {
    "welcome to the server"@
}

/// The state of the simulation.
pub struct State {
    /// The entities, by their identities.
    pub players: HashMap<u32, Player>,
    /// The identity that the next entity gets.
    pub next_eid: u32,
    /// Nanoseconds that have passed and are not yet simulated.
    pub time_since_last_update: u64,
}

/// The state of the simulation as a mathematical value.
pub ghost struct StateView {
    pub players: Map<u32, Player>,
    pub next_eid: u32,
    pub time_since_last_update: u64,
}

/// The message that announces a player.
pub open spec fn spawn_message(player: Player) -> ServerMessageView {
    ServerMessageView::SpawnPlayer {
        owner_client_id: player.owner_client_id,
        entity_id: player.id,
        pos: player.pos,
    }
}

/// One spawn message for each entity whose identity is below `bound`, in the
/// order of the identities.
pub open spec fn spawn_messages_below(players: Map<u32, Player>, bound: nat) -> Seq<
    ServerMessageView,
>
    decreases bound,
{
    if bound == 0 {
        Seq::empty()
    } else {
        let earlier = spawn_messages_below(players, (bound - 1) as nat);
        let id = (bound - 1) as u32;
        if players.contains_key(id) {
            earlier.push(spawn_message(players[id]))
        } else {
            earlier
        }
    }
}

impl StateView {
    /// Every entity is kept under its own identity, and every identity was
    /// handed out by this state.
    pub open spec fn wf(self) -> bool {
        forall|id: u32| #[trigger]
            self.players.contains_key(id) ==> self.players[id].id == id && id < self.next_eid
    }

    /// Whether an entity with this identity exists.
    pub open spec fn has_entity(self, entity_id: u32) -> bool {
        self.players.contains_key(entity_id)
    }

    /// Whether no entity identity is left to hand out.
    pub open spec fn exhausted(self) -> bool {
        self.next_eid == u32::MAX
    }

    /// The state after a player owned by `owner` was spawned: one more
    /// entity, at rest at the origin, with the next identity.
    pub open spec fn spawned(self, owner: u32) -> StateView {
        StateView {
            players: self.players.insert(self.next_eid, Player::spec_new(owner, self.next_eid)),
            next_eid: (self.next_eid + 1) as u32,
            ..self
        }
    }

    /// The state after the position of an entity was overwritten. Nothing
    /// changes when there is no such entity.
    pub open spec fn moved(self, entity_id: u32, pos: Vec2) -> StateView {
        StateView { players: with_position(self.players, entity_id, pos), ..self }
    }

    /// The state after every entity was advanced by one timestep.
    pub open spec fn stepped(self) -> StateView {
        StateView { players: all_stepped(self.players), ..self }
    }

    /// The state after every entity was advanced by `steps` timesteps.
    pub open spec fn stepped_times(self, steps: nat) -> StateView {
        StateView { players: all_stepped_times(self.players, steps), ..self }
    }

    /// One spawn message for each entity that this state has spawned, in the
    /// order of their identities.
    pub open spec fn spawn_messages(self) -> Seq<ServerMessageView> {
        spawn_messages_below(self.players, self.next_eid as nat)
    }
}

impl View for State {
    type V = StateView;

    open spec fn view(&self) -> StateView {
        StateView {
            players: self.players@,
            next_eid: self.next_eid,
            time_since_last_update: self.time_since_last_update,
        }
    }
}

impl State {
    /// A state without entities, at time zero.
    pub fn new() -> (state: State)
        ensures
            state@ == (StateView { players: Map::empty(), next_eid: 0, time_since_last_update: 0 }),
            state@.wf(),
    {
        State { players: HashMap::new(), next_eid: 0, time_since_last_update: 0 }
    }
}

/// The registry after the messages were sent to one client, first to last.
pub open spec fn delivered_each(
    registry: RegistryView,
    id: u32,
    messages: Seq<ServerMessageView>,
) -> RegistryView
    decreases messages.len(),
{
    if messages.len() == 0 {
        registry
    } else {
        delivered_each(registry, id, messages.drop_last()).delivered(id, messages.last())
    }
}

/// The registry and the state after one client message was handled.
pub open spec fn handled(registry: RegistryView, state: StateView, bundle: BundleView) -> (
    RegistryView,
    StateView,
) {
    let sender = bundle.client_id;
    match bundle.message {
        ClientMessageView::Connect => (
            registry.delivered(
                sender,
                ServerMessageView::Welcome { server_message: welcome_text() },
            ).broadcast_except(sender, ServerMessageView::PlayerJoined { id: sender }),
            state,
        ),
        ClientMessageView::Disconnect => (
            registry.broadcast_except(sender, ServerMessageView::PlayerLeft { id: sender }),
            state,
        ),
        ClientMessageView::ChatMessage { message } => (
            registry.broadcast_except(
                sender,
                ServerMessageView::ChatMessage { from: sender, message },
            ),
            state,
        ),
        ClientMessageView::RequestToSpawnPlayer => if state.exhausted() {
            (registry, state)
        } else {
            (
                registry.broadcast(spawn_message(Player::spec_new(sender, state.next_eid))),
                state.spawned(sender),
            )
        },
        ClientMessageView::RequestAllPlayers => (
            delivered_each(registry, sender, state.spawn_messages()),
            state,
        ),
        ClientMessageView::EntityPosition { entity_id, pos } => (
            registry.broadcast_except(
                sender,
                ServerMessageView::EntityPosition { entity_id, pos },
            ),
            state.moved(entity_id, pos),
        ),
    }
}

/// The registry and the state after the bundles were handled, first to last.
pub open spec fn handled_all(registry: RegistryView, state: StateView, bundles: Seq<BundleView>) -> (
    RegistryView,
    StateView,
)
    decreases bundles.len(),
{
    if bundles.len() == 0 {
        (registry, state)
    } else {
        let (r, s) = handled_all(registry, state, bundles.drop_last());
        handled(r, s, bundles.last())
    }
}

/// Advances every entity by one timestep: its position moves by its velocity.
pub fn step(state: &mut State)
    ensures
        final(state)@ == old(state)@.stepped(),
        old(state)@.wf() ==> final(state)@.wf(),
{
    step_all(&mut state.players);
    assert forall|id: u32| #[trigger] state@.players.contains_key(id) implies old(
        state,
    )@.players.contains_key(id) && state@.players[id].id == old(state)@.players[id].id by {}
}

/// Sends the requester one spawn message for each entity that the state has
/// spawned, in the order of their identities, so that a client that joined
/// late can rebuild the world.
fn send_all_players(state: &State, registry: &mut ClientRegistry, requester: u32)
    requires
        old(registry).wf(),
    ensures
        final(registry).wf(),
        final(registry)@ == delivered_each(old(registry)@, requester, state@.spawn_messages()),
{
    let ghost before = registry@;
    let mut id: u32 = 0;
    while id < state.next_eid
        invariant
            id <= state.next_eid,
            registry.wf(),
            registry@ == delivered_each(
                before,
                requester,
                spawn_messages_below(state@.players, id as nat),
            ),
        decreases state.next_eid - id,
    {
        if let Some(player) = state.players.get(&id) {
            let message = ServerToClientMessage::SpawnPlayer {
                owner_client_id: player.owner_client_id,
                entity_id: player.id,
                pos: player.pos,
            };
            proof {
                let next = spawn_messages_below(state@.players, (id + 1) as nat);
                assert(next.drop_last() =~= spawn_messages_below(state@.players, id as nat));
                assert(next.last() == message@);
            }
            let _ = send_to_one_client(registry, requester, message);
        }
        id += 1;
    }
}

/// Handles one client message.
///
/// - `Connect`: the sender gets a welcome, everyone else learns that it joined.
/// - `Disconnect`: everyone else learns that the sender left.
/// - `ChatMessage`: everyone else gets the text, with the sender's identity.
/// - `RequestToSpawnPlayer`: a new entity owned by the sender appears at the
///   origin, and every client, the sender too, is told. When no entity
///   identity is left the request is ignored.
/// - `RequestAllPlayers`: the sender is told of every entity.
/// - `EntityPosition`: the entity, if it exists, takes the reported position,
///   whoever owns it, and everyone else is told.
pub fn handle_message(
    state: &mut State,
    registry: &mut ClientRegistry,
    bundle: ClientToServerMessageBundle,
)
    requires
        old(registry).wf(),
    ensures
        final(registry).wf(),
        (final(registry)@, final(state)@) == handled(old(registry)@, old(state)@, bundle@),
        old(state)@.wf() ==> final(state)@.wf(),
{
    let client_id = bundle.client_id;
    match bundle.message {
        ClientToServerMessage::Connect => {
            let welcome = ServerToClientMessage::Welcome {
                server_message: "welcome to the server".to_owned(),
            };
            let _ = send_to_one_client(registry, client_id, welcome);
            broadcast_to_all_except(
                registry,
                client_id,
                ServerToClientMessage::PlayerJoined { id: client_id },
            );
        },
        ClientToServerMessage::Disconnect => {
            broadcast_to_all_except(
                registry,
                client_id,
                ServerToClientMessage::PlayerLeft { id: client_id },
            );
        },
        ClientToServerMessage::ChatMessage { message } => {
            broadcast_to_all_except(
                registry,
                client_id,
                ServerToClientMessage::ChatMessage { from: client_id, message },
            );
        },
        ClientToServerMessage::RequestToSpawnPlayer => {
            if state.next_eid < u32::MAX {
                let eid = state.next_eid;
                state.next_eid = eid + 1;
                let player = Player::new(client_id, eid);
                let _ = state.players.insert(eid, player);
                broadcast_to_all(
                    registry,
                    ServerToClientMessage::SpawnPlayer {
                        owner_client_id: client_id,
                        entity_id: eid,
                        pos: player.pos,
                    },
                );
            }
        },
        ClientToServerMessage::RequestAllPlayers => {
            send_all_players(state, registry, client_id);
        },
        ClientToServerMessage::EntityPosition { entity_id, pos } => {
            move_entity(&mut state.players, entity_id, pos);
            broadcast_to_all_except(
                registry,
                client_id,
                ServerToClientMessage::EntityPosition { entity_id, pos },
            );
        },
    }
}

/// Handles every message that waits in the inbound queue, oldest first, and
/// returns how many there were. The queue is empty afterwards.
pub fn process_message_queue(state: &mut State, context: &mut ServerContext) -> (count: usize)
    requires
        old(context).wf(),
    ensures
        final(context).wf(),
        count == old(context)@.inbound.items.len(),
        final(context)@.inbound == old(context)@.inbound.without_first(count as nat),
        final(context)@.inbound.items.len() == 0,
        (final(context)@.registry, final(state)@) == handled_all(
            old(context)@.registry,
            old(state)@,
            old(context)@.inbound.items,
        ),
        old(state)@.wf() ==> final(state)@.wf(),
{
    let ghost waiting = context@.inbound.items;
    let mut count: usize = 0;
    proof {
        context.inbound.lemma_wf_bounded();
        assert(waiting.skip(0) =~= waiting);
    }
    loop
        invariant
            context.wf(),
            waiting == old(context)@.inbound.items,
            count <= waiting.len() <= usize::MAX,
            context@.inbound == old(context)@.inbound.without_first(count as nat),
            (context@.registry, state@) == handled_all(
                old(context)@.registry,
                old(state)@,
                waiting.take(count as int),
            ),
            old(state)@.wf() ==> state@.wf(),
        ensures
            count == waiting.len(),
        decreases waiting.len() - count,
    {
        match context.inbound.pop() {
            Some(bundle) => {
                proof {
                    assert(waiting.take(count + 1).drop_last() =~= waiting.take(count as int));
                    assert(waiting.skip(count as int).drop_first() =~= waiting.skip(count + 1));
                }
                handle_message(state, &mut context.registry, bundle);
                count += 1;
            },
            None => {
                break ;
            },
        }
    }
    count
}

/// The context and the state after `elapsed` nanoseconds have passed.
///
/// When at least one timestep is due, the waiting messages are handled and
/// the entities advance by as many timesteps as are due. Otherwise only the
/// time is added up.
pub open spec fn advanced(context: ContextView, state: StateView, elapsed: u64) -> (
    ContextView,
    StateView,
) {
    let total = (state.time_since_last_update + elapsed) as nat;
    let steps = steps_due(total, TIMESTEP_NANOS as nat);
    let left = time_left(total, TIMESTEP_NANOS as nat) as u64;
    if steps == 0 {
        (context, StateView { time_since_last_update: left, ..state })
    } else {
        let (registry, handled_state) = handled_all(
            context.registry,
            state,
            context.inbound.items,
        );
        (
            ContextView {
                registry,
                inbound: context.inbound.without_first(context.inbound.items.len()),
            },
            StateView {
                time_since_last_update: left,
                ..handled_state.stepped_times(steps)
            },
        )
    }
}

/// One round of the main loop: adds the time that has passed since the last
/// round and, for each whole timestep that has accumulated, handles the
/// waiting messages and advances the entities by one timestep. Less than one
/// timestep is carried over. Returns the number of timesteps taken.
pub fn advance_simulation(state: &mut State, context: &mut ServerContext, elapsed: u64) -> (steps:
    u64)
    requires
        old(context).wf(),
    ensures
        final(context).wf(),
        steps == steps_due(
            (old(state).time_since_last_update + elapsed) as nat,
            TIMESTEP_NANOS as nat,
        ),
        (final(context)@, final(state)@) == advanced(old(context)@, old(state)@, elapsed),
        final(state).time_since_last_update < TIMESTEP_NANOS,
        old(state)@.wf() ==> final(state)@.wf(),
{
    let mut accumulated = state.time_since_last_update;
    let steps = take_due_steps(&mut accumulated, elapsed, TIMESTEP_NANOS);
    let ghost (registry, handled_state) = handled_all(
        context@.registry,
        state@,
        context@.inbound.items,
    );
    let ghost emptied = context@.inbound.without_first(context@.inbound.items.len());
    let mut taken: u64 = 0;
    while taken < steps
        invariant
            taken <= steps,
            context.wf(),
            (registry, handled_state) == handled_all(
                old(context)@.registry,
                old(state)@,
                old(context)@.inbound.items,
            ),
            emptied == old(context)@.inbound.without_first(old(context)@.inbound.items.len()),
            taken == 0 ==> context@ == old(context)@ && state@ == old(state)@,
            taken > 0 ==> context@.registry == registry && context@.inbound == emptied && state@
                == handled_state.stepped_times(taken as nat),
            old(state)@.wf() ==> state@.wf(),
        decreases steps - taken,
    {
        assert(emptied.items.skip(0) =~= emptied.items);
        let _ = process_message_queue(state, context);
        step(state);
        assert(all_stepped_times(handled_state.players, 0) == handled_state.players);
        taken += 1;
    }
    state.time_since_last_update = accumulated;
    steps
}

/// A spawn request adds exactly one entity, owned by the sender and at rest
/// at the origin, and tells every registered client of it, the sender too.
pub proof fn lemma_spawn_reaches_all(
    registry: RegistryView,
    state: StateView,
    sender: u32,
    id: u32,
)
    requires
        registry.wf(),
        state.wf(),
        !state.exhausted(),
        registry.knows_id(id),
    ensures
        ({
            let request = BundleView {
                client_id: sender,
                message: ClientMessageView::RequestToSpawnPlayer,
            };
            let (after, world) = handled(registry, state, request);
            let player = Player::spec_new(sender, state.next_eid);
            &&& world.wf()
            &&& world.next_eid == state.next_eid + 1
            &&& !state.has_entity(player.id)
            &&& world.players == state.players.insert(player.id, player)
            &&& forall|other: u32|
                state.has_entity(other) ==> world.players[other] == state.players[other]
            &&& after.wf()
            &&& after.mailbox_of(id) == Some(
                registry.mailbox_of(id)->Some_0.offered(spawn_message(player)),
            )
            &&& !registry.mailbox_of(id)->Some_0.is_full() ==> after.mailbox_of(
                id,
            )->Some_0.items.last() == spawn_message(player)
        }),
{
    let player = Player::spec_new(sender, state.next_eid);
    registry.lemma_broadcast_reaches_all(spawn_message(player), id);
}

/// A reported position overwrites the stored position of the entity exactly,
/// whatever its velocity and whoever sent it; no other entity changes, and
/// everyone but the sender is told once.
pub proof fn lemma_position_overwritten(
    registry: RegistryView,
    state: StateView,
    sender: u32,
    entity_id: u32,
    pos: Vec2,
    other: u32,
)
    requires
        state.has_entity(entity_id),
        state.has_entity(other),
        other != entity_id,
    ensures
        ({
            let report = BundleView {
                client_id: sender,
                message: ClientMessageView::EntityPosition { entity_id, pos },
            };
            let (after, world) = handled(registry, state, report);
            &&& world.players.dom() == state.players.dom()
            &&& world.next_eid == state.next_eid
            &&& world.players[entity_id] == state.players[entity_id].moved_to(pos)
            &&& world.players[entity_id].pos == pos
            &&& world.players[entity_id].vel == state.players[entity_id].vel
            &&& world.players[other] == state.players[other]
            &&& after == registry.broadcast_except(
                sender,
                ServerMessageView::EntityPosition { entity_id, pos },
            )
        }),
{
    assert(with_position(state.players, entity_id, pos).dom() =~= state.players.dom());
}

/// Messages that wait while no timestep is due stay in the queue, and the
/// entities stay where they are.
pub proof fn lemma_nothing_due(context: ContextView, state: StateView, elapsed: u64)
    requires
        state.time_since_last_update + elapsed < TIMESTEP_NANOS,
    ensures
        advanced(context, state, elapsed).0 == context,
        advanced(context, state, elapsed).1 == (StateView {
            time_since_last_update: (state.time_since_last_update + elapsed) as u64,
            ..state
        }),
{
    crate::common::timestep::lemma_whole_timesteps(
        (state.time_since_last_update + elapsed) as nat,
        0,
        TIMESTEP_NANOS as nat,
    );
}

/// When exactly `n` timesteps pass, the entities advance by exactly `n`
/// timesteps, whatever time below one timestep was carried over before, and
/// that time is carried over again.
pub proof fn lemma_whole_timesteps_advance(context: ContextView, state: StateView, n: nat)
    requires
        state.time_since_last_update < TIMESTEP_NANOS,
        state.time_since_last_update + n * TIMESTEP_NANOS <= u64::MAX,
    ensures
        ({
            let elapsed = (n * TIMESTEP_NANOS) as u64;
            let total = (state.time_since_last_update + elapsed) as nat;
            let (_, world) = advanced(context, state, elapsed);
            let (_, handled_state) = handled_all(context.registry, state, context.inbound.items);
            &&& steps_due(total, TIMESTEP_NANOS as nat) == n
            &&& world.time_since_last_update == state.time_since_last_update
            &&& n == 0 ==> world.players == state.players
            &&& n > 0 ==> world.players == all_stepped_times(handled_state.players, n)
        }),
{
    crate::common::timestep::lemma_whole_timesteps(
        state.time_since_last_update as nat,
        n,
        TIMESTEP_NANOS as nat,
    );
}

} // verus!
