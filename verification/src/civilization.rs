//! Civilizations: the in-world powers that players control, each with a
//! display name, a color, and its research state.

use vstd::prelude::*;
use crate::tech::{spec_tp_new, TechProgress, TechProgressModel, TechTree};

verus! {

/// A display color, as red, green and blue channels.
#[derive(Clone, Copy, Debug, PartialEq, Eq, Structural)]
pub struct CivilizationColor {
    pub r: u8,
    pub g: u8,
    pub b: u8,
}

/// Identifier of a civilization in the world.
#[derive(Clone, Copy, Debug, PartialEq, Eq, Structural)]
pub struct CivilizationId(pub u8);

impl CivilizationId {
    /// The table key for this id.
    pub open spec fn spec_key(self) -> u64 {
        self.0 as u64
    }

    #[verifier::when_used_as_spec(spec_key)]
    pub fn key(self) -> (r: u64)
        ensures
            r == self.spec_key(),
    {
        self.0 as u64
    }
}

/// Mints civilization ids, starting from zero and never reusing one.
pub struct CivilizationIdGenerator {
    pub next_civilization_id: u8,
}

impl CivilizationIdGenerator {
    pub fn new() -> (r: Self)
        ensures
            r.next_civilization_id == 0,
    {
        CivilizationIdGenerator { next_civilization_id: 0 }
    }

    pub fn next(&mut self) -> (r: CivilizationId)
        ensures
            r == CivilizationId(old(self).next_civilization_id),
            final(self).next_civilization_id == crate::player::spec_gen_next_u8(
                old(self).next_civilization_id,
            ),
    {
        let x = self.next_civilization_id;
        if self.next_civilization_id < u8::MAX {
            self.next_civilization_id = self.next_civilization_id + 1;
        }
        CivilizationId(x)
    }
}

/// The fixed palette color a civilization draws in, by id.
pub open spec fn spec_civilization_color(id: CivilizationId) -> CivilizationColor {
    let i = (id.0 as int) % 5;
    if i == 0 {
        CivilizationColor { r: 163, g: 30, b: 100 }
    } else if i == 1 {
        CivilizationColor { r: 136, g: 102, b: 204 }
    } else if i == 2 {
        CivilizationColor { r: 68, g: 6, b: 194 }
    } else if i == 3 {
        CivilizationColor { r: 140, g: 207, b: 8 }
    } else {
        CivilizationColor { r: 252, g: 81, b: 147 }
    }
}

/// The spec-level shape of a civilization.
#[verifier::ext_equal]
pub struct CivilizationModel {
    pub id: CivilizationId,
    pub player_name: Seq<char>,
    pub tech_progress: TechProgressModel,
}

/// An in-world power: identity, display name, research state.
pub struct Civilization {
    pub id: CivilizationId,
    pub player_name: String,
    pub tech_progress: TechProgress,
}

impl Civilization {
    pub open spec fn model(&self) -> CivilizationModel {
        CivilizationModel {
            id: self.id,
            player_name: self.player_name@,
            tech_progress: self.tech_progress.model(),
        }
    }

    pub open spec fn wf(&self) -> bool {
        self.tech_progress.wf()
    }

    /// A fresh civilization with the tree's starting research state.
    pub fn new(id: CivilizationId, player_name: String, tech_tree: &TechTree) -> (r: Self)
        requires
            tech_tree.initial_techs.wf(),
        ensures
            r.model() == (CivilizationModel {
                id,
                player_name: player_name@,
                tech_progress: spec_tp_new(tech_tree.model()),
            }),
            r.wf(),
    {
        Civilization { id, player_name, tech_progress: TechProgress::new(tech_tree) }
    }

    pub fn duplicate(&self) -> (r: Self)
        ensures
            r.model() == self.model(),
            r.wf() == self.wf(),
    {
        Civilization {
            id: self.id,
            player_name: self.player_name.clone(),
            tech_progress: self.tech_progress.duplicate(),
        }
    }

    pub fn color(&self) -> (r: CivilizationColor)
        ensures
            r == spec_civilization_color(self.id),
    {
        let i = self.id.0 % 5;
        if i == 0 {
            CivilizationColor { r: 163, g: 30, b: 100 }
        } else if i == 1 {
            CivilizationColor { r: 136, g: 102, b: 204 }
        } else if i == 2 {
            CivilizationColor { r: 68, g: 6, b: 194 }
        } else if i == 3 {
            CivilizationColor { r: 140, g: 207, b: 8 }
        } else {
            CivilizationColor { r: 252, g: 81, b: 147 }
        }
    }

    pub fn id(&self) -> (r: CivilizationId)
        ensures
            r == self.id,
    {
        self.id
    }

    pub fn player_name(&self) -> (r: &String)
        ensures
            r == self.player_name,
    {
        &self.player_name
    }

    pub fn tech_progress(&self) -> (r: &TechProgress)
        ensures
            r == self.tech_progress,
    {
        &self.tech_progress
    }
}

} // verus!
