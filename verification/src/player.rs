//! Human participants: a player holds a ready flag (the turn-advance
//! gate) and a reference to the civilization it controls.

use vstd::prelude::*;
use crate::civilization::CivilizationId;

verus! {

/// Identifier of a player within a session.
#[derive(Clone, Copy, Debug, PartialEq, Eq, Structural)]
pub struct PlayerId(pub u8);

impl PlayerId {
    /// The table key for this id.
    pub open spec fn spec_key(self) -> u64 {
        self.0 as u64
    }

    #[verifier::when_used_as_spec(spec_key)]
    pub fn key(self) -> (r: u64)
        ensures
            r == self.spec_key(),
    {
        self.0 as u64
    }
}

/// Mints player ids, starting from one and never reusing one.
pub struct PlayerIdGenerator {
    pub next: u8,
}

/// The counter after minting: one more, until the id space is exhausted.
pub open spec fn spec_gen_next_u8(n: u8) -> u8 {
    if n < u8::MAX {
        (n + 1) as u8
    } else {
        n
    }
}

impl PlayerIdGenerator {
    pub fn new() -> (r: Self)
        ensures
            r.next == 0,
    {
        PlayerIdGenerator { next: 0 }
    }

    pub fn next(&mut self) -> (r: PlayerId)
        ensures
            final(self).next == spec_gen_next_u8(old(self).next),
            r == PlayerId(spec_gen_next_u8(old(self).next)),
    {
        if self.next < u8::MAX {
            self.next = self.next + 1;
        }
        PlayerId(self.next)
    }
}

/// What the lobby knows of a player when the world is created.
pub struct InitPlayer {
    pub id: PlayerId,
    pub name: String,
}

impl InitPlayer {
    pub fn duplicate(&self) -> (r: Self)
        ensures
            r == *self,
    {
        InitPlayer { id: self.id, name: self.name.clone() }
    }
}

/// The spec-level shape of a player.
#[verifier::ext_equal]
pub struct PlayerModel {
    pub id: PlayerId,
    pub name: Seq<char>,
    pub civilization_id: CivilizationId,
    pub ready: bool,
}

/// A human participant in a running game.
pub struct Player {
    pub id: PlayerId,
    pub name: String,
    pub civilization_id: CivilizationId,
    /// Ready for the next turn.
    pub ready: bool,
}

impl Player {
    pub open spec fn model(&self) -> PlayerModel {
        PlayerModel {
            id: self.id,
            name: self.name@,
            civilization_id: self.civilization_id,
            ready: self.ready,
        }
    }

    pub fn new(id: PlayerId, name: String, civilization_id: CivilizationId) -> (r: Self)
        ensures
            r.id == id,
            r.name == name,
            r.civilization_id == civilization_id,
            !r.ready,
    {
        Player { id, name, civilization_id, ready: false }
    }

    pub fn duplicate(&self) -> (r: Self)
        ensures
            r == *self,
    {
        Player {
            id: self.id,
            name: self.name.clone(),
            civilization_id: self.civilization_id,
            ready: self.ready,
        }
    }

    pub fn ready(&self) -> (r: bool)
        ensures
            r == self.ready,
    {
        self.ready
    }

    pub fn id(&self) -> (r: PlayerId)
        ensures
            r == self.id,
    {
        self.id
    }

    pub fn name(&self) -> (r: &String)
        ensures
            r == self.name,
    {
        &self.name
    }

    pub fn civilization_id(&self) -> (r: CivilizationId)
        ensures
            r == self.civilization_id,
    {
        self.civilization_id
    }
}

} // verus!
