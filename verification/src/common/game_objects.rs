//! The simulated objects of the game, and the map that holds them by their
//! identities.

use crate::common::vec2::Vec2;
use std::collections::HashMap;
use vstd::prelude::*;
use vstd::std_specs::iter::IteratorSpec;

verus! {

broadcast use vstd::std_specs::hash::group_hash_axioms;

/// A player entity: who owns it, where it is and how fast it moves.
#[derive(Clone, Copy, Debug, PartialEq, Eq, Structural)]
pub struct Player {
    pub owner_client_id: u32,
    pub id: u32,
    pub pos: Vec2,
    pub vel: Vec2,
}

impl Player {
    /// A player at rest at the origin.
    pub open spec fn spec_new(owner_client_id: u32, id: u32) -> Player {
        Player { owner_client_id, id, pos: Vec2::spec_zero(), vel: Vec2::spec_zero() }
    }

    /// Creates a player at rest at the origin.
    #[verifier::when_used_as_spec(spec_new)]
    pub fn new(owner_client_id: u32, id: u32) -> (player: Player)
        ensures
            player == Player::spec_new(owner_client_id, id),
    {
        Player { owner_client_id, id, pos: Vec2::zero(), vel: Vec2::zero() }
    }

    /// The player after one unit timestep: moved by its velocity.
    pub open spec fn stepped(self) -> Player {
        Player { pos: self.pos.spec_plus(self.vel), ..self }
    }

    /// The player with its position replaced.
    pub open spec fn moved_to(self, pos: Vec2) -> Player {
        Player { pos, ..self }
    }

    /// Advances the player by one unit timestep.
    pub fn step(&mut self)
        ensures
            *final(self) == old(self).stepped(),
    {
        self.pos = self.pos.plus(self.vel);
    }
}

/// The players after each was advanced by one timestep.
pub open spec fn all_stepped(players: Map<u32, Player>) -> Map<u32, Player> {
    players.map_values(|p: Player| p.stepped())
}

/// The players after each was advanced by `steps` timesteps.
pub open spec fn all_stepped_times(players: Map<u32, Player>, steps: nat) -> Map<u32, Player>
    decreases steps,
{
    if steps == 0 {
        players
    } else {
        all_stepped(all_stepped_times(players, (steps - 1) as nat))
    }
}

/// The players with the position of one entity overwritten. Nothing changes
/// when no entity has this identity.
pub open spec fn with_position(players: Map<u32, Player>, entity_id: u32, pos: Vec2) -> Map<
    u32,
    Player,
> {
    if players.contains_key(entity_id) {
        players.insert(entity_id, players[entity_id].moved_to(pos))
    } else {
        players
    }
}

/// The identities of the players, each once, in the order in which the map
/// hands them out.
pub fn identities_of(players: &HashMap<u32, Player>) -> (identities: Vec<u32>)
    ensures
        identities@.no_duplicates(),
        forall|id: u32| identities@.contains(id) <==> players@.contains_key(id),
{
    let mut identities: Vec<u32> = Vec::new();
    for id in iter: players.keys()
        invariant
            identities.len() == iter.index(),
            forall|i: int| 0 <= i < identities.len() ==> identities@[i] == *iter.seq()[i],
            iter.seq() == players.keys().remaining(),
    {
        identities.push(*id);
    }
    proof {
        let all = players.keys().remaining();
        assert(identities@ =~= all.unref());
        assert forall|id: u32| identities@.contains(id) <==> players@.contains_key(id) by {
            assert(all.unref().to_set().contains(id) <==> players@.dom().contains(id));
        }
    }
    identities
}

/// Advances every player by one timestep: its position moves by its velocity.
pub fn step_all(players: &mut HashMap<u32, Player>)
    ensures
        final(players)@ == all_stepped(old(players)@),
{
    let identities = identities_of(players);
    let ghost before = players@;
    let mut i: usize = 0;
    while i < identities.len()
        invariant
            i <= identities.len(),
            identities@.no_duplicates(),
            forall|id: u32| identities@.contains(id) <==> before.contains_key(id),
            players@.dom() == before.dom(),
            forall|j: int|
                0 <= j < i ==> players@[#[trigger] identities@[j]] == before[identities@[j]].stepped(),
            forall|j: int|
                i <= j < identities.len() ==> players@[#[trigger] identities@[j]]
                    == before[identities@[j]],
        decreases identities.len() - i,
    {
        let id = identities[i];
        assert(identities@.contains(id));
        if let Some(player) = players.get(&id) {
            let mut moved = *player;
            moved.step();
            let _ = players.insert(id, moved);
        }
        assert(players@.dom() =~= before.dom());
        i += 1;
    }
    proof {
        assert forall|id: u32| before.contains_key(id) implies #[trigger] players@[id]
            == before[id].stepped() by {
            let j = choose|j: int| 0 <= j < identities@.len() && identities@[j] == id;
            assert(players@[identities@[j]] == before[identities@[j]].stepped());
        }
        assert(players@ =~= all_stepped(before));
    }
}

/// Overwrites the position of one entity. Nothing changes when no entity
/// has this identity.
pub fn move_entity(players: &mut HashMap<u32, Player>, entity_id: u32, pos: Vec2)
    ensures
        final(players)@ == with_position(old(players)@, entity_id, pos),
{
    let found = match players.get(&entity_id) {
        Some(player) => Some(*player),
        None => None,
    };
    if let Some(mut player) = found {
        player.pos = pos;
        let _ = players.insert(entity_id, player);
    }
}

/// Players at rest stay where they are however many timesteps pass.
pub proof fn lemma_resting_players_stay(players: Map<u32, Player>, steps: nat)
    requires
        forall|id: u32| #[trigger]
            players.contains_key(id) ==> players[id].vel == Vec2::spec_zero(),
    ensures
        all_stepped_times(players, steps) == players,
    decreases steps,
{
    if steps > 0 {
        lemma_resting_players_stay(players, (steps - 1) as nat);
        assert forall|id: u32| #[trigger] players.contains_key(id) implies players[id].stepped()
            == players[id] by {
            crate::common::vec2::lemma_plus_zero(players[id].pos);
        }
        assert(all_stepped(players) =~= players);
    }
}

} // verus!
