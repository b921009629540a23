//! Actions: client-submitted intents, subject to validation by the
//! simulation kernel before any state changes.

use vstd::prelude::*;
use crate::city::{CityId, ProducingItemId, ProducingItemIdModel};
use crate::map_position::TilePosition;
use crate::tech::TechId;
use crate::unit::UnitId;

verus! {

/// A client's intent. Every action that names a unit or city is checked
/// against the actor's ownership before anything happens.
#[derive(Debug)]
pub enum GameActionType {
    MoveUnit { unit_id: UnitId, position: TilePosition },
    FoundCity { unit_id: UnitId },
    RenameCity { city_id: CityId, name: String },
    SetReady(bool),
    SetProducing { city_id: CityId, producing: Option<ProducingItemId> },
    SetSleeping { unit_id: UnitId, sleeping: bool },
    SetCitizenLocked { city_id: CityId, position: TilePosition, locked: bool },
    Harvest { unit_id: UnitId },
    SetResearch { tech_id: TechId },
}

/// The spec-level shape of an action.
#[verifier::ext_equal]
pub enum GameActionTypeModel {
    MoveUnit { unit_id: UnitId, position: TilePosition },
    FoundCity { unit_id: UnitId },
    RenameCity { city_id: CityId, name: Seq<char> },
    SetReady(bool),
    SetProducing { city_id: CityId, producing: Option<ProducingItemIdModel> },
    SetSleeping { unit_id: UnitId, sleeping: bool },
    SetCitizenLocked { city_id: CityId, position: TilePosition, locked: bool },
    Harvest { unit_id: UnitId },
    SetResearch { tech_id: TechId },
}

impl GameActionType {
    pub open spec fn model(&self) -> GameActionTypeModel {
        match self {
            GameActionType::MoveUnit { unit_id, position } => GameActionTypeModel::MoveUnit {
                unit_id: *unit_id,
                position: *position,
            },
            GameActionType::FoundCity { unit_id } => GameActionTypeModel::FoundCity {
                unit_id: *unit_id,
            },
            GameActionType::RenameCity { city_id, name } => GameActionTypeModel::RenameCity {
                city_id: *city_id,
                name: name@,
            },
            GameActionType::SetReady(ready) => GameActionTypeModel::SetReady(*ready),
            GameActionType::SetProducing { city_id, producing } => GameActionTypeModel::SetProducing {
                city_id: *city_id,
                producing: match producing {
                    Some(p) => Some(p.model()),
                    None => None,
                },
            },
            GameActionType::SetSleeping { unit_id, sleeping } => GameActionTypeModel::SetSleeping {
                unit_id: *unit_id,
                sleeping: *sleeping,
            },
            GameActionType::SetCitizenLocked { city_id, position, locked } =>
                GameActionTypeModel::SetCitizenLocked {
                city_id: *city_id,
                position: *position,
                locked: *locked,
            },
            GameActionType::Harvest { unit_id } => GameActionTypeModel::Harvest {
                unit_id: *unit_id,
            },
            GameActionType::SetResearch { tech_id } => GameActionTypeModel::SetResearch {
                tech_id: *tech_id,
            },
        }
    }

    pub fn duplicate(&self) -> (r: Self)
        ensures
            r.model() == self.model(),
    {
        match self {
            GameActionType::MoveUnit { unit_id, position } => GameActionType::MoveUnit {
                unit_id: *unit_id,
                position: *position,
            },
            GameActionType::FoundCity { unit_id } => GameActionType::FoundCity {
                unit_id: *unit_id,
            },
            GameActionType::RenameCity { city_id, name } => GameActionType::RenameCity {
                city_id: *city_id,
                name: name.clone(),
            },
            GameActionType::SetReady(ready) => GameActionType::SetReady(*ready),
            GameActionType::SetProducing { city_id, producing } => GameActionType::SetProducing {
                city_id: *city_id,
                producing: match producing {
                    Some(p) => Some(p.duplicate()),
                    None => None,
                },
            },
            GameActionType::SetSleeping { unit_id, sleeping } => GameActionType::SetSleeping {
                unit_id: *unit_id,
                sleeping: *sleeping,
            },
            GameActionType::SetCitizenLocked { city_id, position, locked } =>
                GameActionType::SetCitizenLocked {
                city_id: *city_id,
                position: *position,
                locked: *locked,
            },
            GameActionType::Harvest { unit_id } => GameActionType::Harvest { unit_id: *unit_id },
            GameActionType::SetResearch { tech_id } => GameActionType::SetResearch {
                tech_id: *tech_id,
            },
        }
    }
}

} // verus!
