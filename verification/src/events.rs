//! Events: authoritative, already-validated state deltas. Applying an
//! event is the only way the world ever changes, and every participant
//! applies the same events in the same order.

use vstd::prelude::*;
use crate::city::{CityId, ProducingItemId, ProducingItemIdModel};
use crate::civilization::CivilizationId;
use crate::map_position::{MapUnit, TilePosition};
use crate::player::PlayerId;
use crate::tech::TechId;
use crate::unit::{UnitId, UnitTemplate, UnitTemplateModel};

verus! {

/// A validated state delta, broadcast to every participant.
#[derive(Debug)]
pub enum GameEventType {
    NextTurn,
    MoveUnit { unit_id: UnitId, position: TilePosition, remaining_movement: MapUnit },
    DeleteUnit { unit_id: UnitId },
    FoundCity { position: TilePosition, owner: CivilizationId },
    RenameCity { city_id: CityId, name: String },
    SetPlayerReady { player_id: PlayerId, ready: bool },
    SetProducing { city_id: CityId, producing: Option<ProducingItemId> },
    NewUnit { template: UnitTemplate, owner: CivilizationId, position: TilePosition, unit_id: UnitId },
    NewBuilding { building_type_id: crate::building::BuildingTypeId, city_id: CityId },
    Crash { message: String },
    SetSleeping { unit_id: UnitId, sleeping: bool },
    SetCitizenLocked { city_id: CityId, position: TilePosition, locked: bool },
    IncreasePopulationFromFood { city_id: CityId },
    AddTerritoryToCity { city_id: CityId, position: TilePosition },
    Harvest { position: TilePosition },
    DepleteMovement { unit_id: UnitId },
    UseCharge { unit_id: UnitId },
    FinishResearch { civilization_id: CivilizationId },
    SetResearch { civilization_id: CivilizationId, tech_id: TechId },
}

/// The spec-level shape of an event.
#[verifier::ext_equal]
pub enum GameEventTypeModel {
    NextTurn,
    MoveUnit { unit_id: UnitId, position: TilePosition, remaining_movement: MapUnit },
    DeleteUnit { unit_id: UnitId },
    FoundCity { position: TilePosition, owner: CivilizationId },
    RenameCity { city_id: CityId, name: Seq<char> },
    SetPlayerReady { player_id: PlayerId, ready: bool },
    SetProducing { city_id: CityId, producing: Option<ProducingItemIdModel> },
    NewUnit {
        template: UnitTemplateModel,
        owner: CivilizationId,
        position: TilePosition,
        unit_id: UnitId,
    },
    NewBuilding { building_type_id: crate::building::BuildingTypeId, city_id: CityId },
    Crash { message: Seq<char> },
    SetSleeping { unit_id: UnitId, sleeping: bool },
    SetCitizenLocked { city_id: CityId, position: TilePosition, locked: bool },
    IncreasePopulationFromFood { city_id: CityId },
    AddTerritoryToCity { city_id: CityId, position: TilePosition },
    Harvest { position: TilePosition },
    DepleteMovement { unit_id: UnitId },
    UseCharge { unit_id: UnitId },
    FinishResearch { civilization_id: CivilizationId },
    SetResearch { civilization_id: CivilizationId, tech_id: TechId },
}

impl GameEventType {
    pub open spec fn model(&self) -> GameEventTypeModel {
        match self {
            GameEventType::NextTurn => GameEventTypeModel::NextTurn,
            GameEventType::MoveUnit { unit_id, position, remaining_movement } =>
                GameEventTypeModel::MoveUnit {
                unit_id: *unit_id,
                position: *position,
                remaining_movement: *remaining_movement,
            },
            GameEventType::DeleteUnit { unit_id } => GameEventTypeModel::DeleteUnit {
                unit_id: *unit_id,
            },
            GameEventType::FoundCity { position, owner } => GameEventTypeModel::FoundCity {
                position: *position,
                owner: *owner,
            },
            GameEventType::RenameCity { city_id, name } => GameEventTypeModel::RenameCity {
                city_id: *city_id,
                name: name@,
            },
            GameEventType::SetPlayerReady { player_id, ready } => GameEventTypeModel::SetPlayerReady {
                player_id: *player_id,
                ready: *ready,
            },
            GameEventType::SetProducing { city_id, producing } => GameEventTypeModel::SetProducing {
                city_id: *city_id,
                producing: match producing {
                    Some(p) => Some(p.model()),
                    None => None,
                },
            },
            GameEventType::NewUnit { template, owner, position, unit_id } =>
                GameEventTypeModel::NewUnit {
                template: template.model(),
                owner: *owner,
                position: *position,
                unit_id: *unit_id,
            },
            GameEventType::NewBuilding { building_type_id, city_id } =>
                GameEventTypeModel::NewBuilding {
                building_type_id: *building_type_id,
                city_id: *city_id,
            },
            GameEventType::Crash { message } => GameEventTypeModel::Crash { message: message@ },
            GameEventType::SetSleeping { unit_id, sleeping } => GameEventTypeModel::SetSleeping {
                unit_id: *unit_id,
                sleeping: *sleeping,
            },
            GameEventType::SetCitizenLocked { city_id, position, locked } =>
                GameEventTypeModel::SetCitizenLocked {
                city_id: *city_id,
                position: *position,
                locked: *locked,
            },
            GameEventType::IncreasePopulationFromFood { city_id } =>
                GameEventTypeModel::IncreasePopulationFromFood { city_id: *city_id },
            GameEventType::AddTerritoryToCity { city_id, position } =>
                GameEventTypeModel::AddTerritoryToCity {
                city_id: *city_id,
                position: *position,
            },
            GameEventType::Harvest { position } => GameEventTypeModel::Harvest {
                position: *position,
            },
            GameEventType::DepleteMovement { unit_id } => GameEventTypeModel::DepleteMovement {
                unit_id: *unit_id,
            },
            GameEventType::UseCharge { unit_id } => GameEventTypeModel::UseCharge {
                unit_id: *unit_id,
            },
            GameEventType::FinishResearch { civilization_id } => GameEventTypeModel::FinishResearch {
                civilization_id: *civilization_id,
            },
            GameEventType::SetResearch { civilization_id, tech_id } =>
                GameEventTypeModel::SetResearch {
                civilization_id: *civilization_id,
                tech_id: *tech_id,
            },
        }
    }

    pub fn duplicate(&self) -> (r: Self)
        ensures
            r.model() == self.model(),
    {
        match self {
            GameEventType::NextTurn => GameEventType::NextTurn,
            GameEventType::MoveUnit { unit_id, position, remaining_movement } =>
                GameEventType::MoveUnit {
                unit_id: *unit_id,
                position: *position,
                remaining_movement: *remaining_movement,
            },
            GameEventType::DeleteUnit { unit_id } => GameEventType::DeleteUnit {
                unit_id: *unit_id,
            },
            GameEventType::FoundCity { position, owner } => GameEventType::FoundCity {
                position: *position,
                owner: *owner,
            },
            GameEventType::RenameCity { city_id, name } => GameEventType::RenameCity {
                city_id: *city_id,
                name: name.clone(),
            },
            GameEventType::SetPlayerReady { player_id, ready } => GameEventType::SetPlayerReady {
                player_id: *player_id,
                ready: *ready,
            },
            GameEventType::SetProducing { city_id, producing } => GameEventType::SetProducing {
                city_id: *city_id,
                producing: match producing {
                    Some(p) => Some(p.duplicate()),
                    None => None,
                },
            },
            GameEventType::NewUnit { template, owner, position, unit_id } => GameEventType::NewUnit {
                template: template.duplicate(),
                owner: *owner,
                position: *position,
                unit_id: *unit_id,
            },
            GameEventType::NewBuilding { building_type_id, city_id } => GameEventType::NewBuilding {
                building_type_id: *building_type_id,
                city_id: *city_id,
            },
            GameEventType::Crash { message } => GameEventType::Crash { message: message.clone() },
            GameEventType::SetSleeping { unit_id, sleeping } => GameEventType::SetSleeping {
                unit_id: *unit_id,
                sleeping: *sleeping,
            },
            GameEventType::SetCitizenLocked { city_id, position, locked } =>
                GameEventType::SetCitizenLocked {
                city_id: *city_id,
                position: *position,
                locked: *locked,
            },
            GameEventType::IncreasePopulationFromFood { city_id } =>
                GameEventType::IncreasePopulationFromFood { city_id: *city_id },
            GameEventType::AddTerritoryToCity { city_id, position } =>
                GameEventType::AddTerritoryToCity {
                city_id: *city_id,
                position: *position,
            },
            GameEventType::Harvest { position } => GameEventType::Harvest { position: *position },
            GameEventType::DepleteMovement { unit_id } => GameEventType::DepleteMovement {
                unit_id: *unit_id,
            },
            GameEventType::UseCharge { unit_id } => GameEventType::UseCharge { unit_id: *unit_id },
            GameEventType::FinishResearch { civilization_id } => GameEventType::FinishResearch {
                civilization_id: *civilization_id,
            },
            GameEventType::SetResearch { civilization_id, tech_id } => GameEventType::SetResearch {
                civilization_id: *civilization_id,
                tech_id: *tech_id,
            },
        }
    }
}

} // verus!
