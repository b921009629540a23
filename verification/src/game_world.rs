//! The aggregate root: the map and the ordered entity collections, the
//! id generators and catalogs, and the action/event pipeline that is the
//! only way any of it changes.
//!
//! Applying an event is total: an event that names a missing entity or
//! an impossible placement changes nothing, so every participant can
//! apply any event stream and stay deterministic.

use vstd::prelude::*;
use crate::actions::GameActionType;
use crate::building::{BuildingType, BuildingTypeModel, BuildingTypes};
use crate::city::{
    City, CityId, CityIdGenerator, CityModel, ProducingItem, ProducingItemId, ProducingItemIdModel,
    ProducingItemModel,
};
use crate::city_names::CityNameGenerator;
use crate::civilization::{Civilization, CivilizationId, CivilizationIdGenerator, CivilizationModel};
use crate::events::{GameEventType, GameEventTypeModel};
use crate::game_map::{spec_set_tile, spec_tile_at, GameMap, GameMapModel};
use crate::map_position::{MapUnit, TilePosition, MAX_MAP_DIM};
use crate::player::{InitPlayer, Player, PlayerId, PlayerModel};
use crate::table::{
    lemma_tb_find_from, lemma_tb_map_find_from, lemma_tb_map_get, lemma_tb_map_insert,
    lemma_tb_map_remove, lemma_tb_update_bridge, tb_contains, tb_get, tb_insert, tb_map_values,
    tb_remove, tb_wf, Table,
};
use crate::tech::{TechId, TechProgress, TechTree, TechTreeModel};
use crate::unit::{
    Unit, UnitId, UnitIdGenerator, UnitModel, UnitTemplate, UnitTemplateModel, UnitTemplates,
    UnitType,
};
use crate::yields::{yv_add, Yield, YieldType, YieldValue, Yields};

verus! {

/// The spec-level shape of the whole world.
#[verifier::ext_equal]
pub struct GameWorldModel {
    pub map: GameMapModel,
    pub players: Seq<(u64, PlayerModel)>,
    pub units: Seq<(u64, UnitModel)>,
    pub cities: Seq<(u64, CityModel)>,
    pub civilizations: Seq<(u64, CivilizationModel)>,
    pub turn: u16,
    pub next_unit_id: u16,
    pub next_city_name: u64,
    pub next_city_id: u16,
    pub next_civilization_id: u8,
    pub unit_templates: Seq<(u64, UnitTemplateModel)>,
    pub building_types: Seq<(u64, BuildingTypeModel)>,
    pub tech_tree: TechTreeModel,
}

/// The aggregate root of the simulation.
pub struct GameWorld {
    pub map: GameMap,
    pub players: Table<Player>,
    pub units: Table<Unit>,
    pub cities: Table<City>,
    pub civilizations: Table<Civilization>,
    pub turn: u16,
    pub unit_id_generator: UnitIdGenerator,
    pub city_name_generator: CityNameGenerator,
    pub city_id_generator: CityIdGenerator,
    pub civilization_id_generator: CivilizationIdGenerator,
    pub unit_templates: UnitTemplates,
    pub building_types: BuildingTypes,
    pub tech_tree: TechTree,
}

impl GameWorld {
    pub open spec fn model(&self) -> GameWorldModel {
        GameWorldModel {
            map: self.map.model(),
            players: tb_map_values(self.players@, |p: Player| p.model()),
            units: tb_map_values(self.units@, |u: Unit| u.model()),
            cities: tb_map_values(self.cities@, |c: City| c.model()),
            civilizations: tb_map_values(self.civilizations@, |c: Civilization| c.model()),
            turn: self.turn,
            next_unit_id: self.unit_id_generator.next,
            next_city_name: self.city_name_generator.next_name_id,
            next_city_id: self.city_id_generator.next,
            next_civilization_id: self.civilization_id_generator.next_civilization_id,
            unit_templates: tb_map_values(self.unit_templates.table@, |t: UnitTemplate| t.model()),
            building_types: tb_map_values(self.building_types.table@, |b: BuildingType| b.model()),
            tech_tree: self.tech_tree.model(),
        }
    }

    /// Internal invariant: the map is a full grid, every collection is
    /// keyed by its entities' ids, every entity is well formed, and every
    /// position an entity holds lies on the map.
    pub open spec fn wf(&self) -> bool {
        &&& self.map.wf()
        &&& tb_wf(self.players@)
        &&& forall|i: int|
            0 <= i < self.players@.len() ==> (#[trigger] self.players@[i]).0
                == self.players@[i].1.id.spec_key()
        &&& tb_wf(self.units@)
        &&& forall|i: int|
            0 <= i < self.units@.len() ==> (#[trigger] self.units@[i]).0
                == self.units@[i].1.id.spec_key() && self.units@[i].1.wf()
                && self.units@[i].1.position.in_bounds(self.map.width, self.map.height)
        &&& tb_wf(self.cities@)
        &&& forall|i: int|
            0 <= i < self.cities@.len() ==> (#[trigger] self.cities@[i]).0
                == self.cities@[i].1.id.spec_key() && self.cities@[i].1.wf()
                && self.cities@[i].1.territory_in_bounds(self.map.model())
                && self.cities@[i].1.position.in_bounds(self.map.width, self.map.height)
        &&& tb_wf(self.civilizations@)
        &&& forall|i: int|
            0 <= i < self.civilizations@.len() ==> (#[trigger] self.civilizations@[i]).0
                == self.civilizations@[i].1.id.spec_key() && self.civilizations@[i].1.wf()
        &&& self.unit_templates.wf()
        &&& self.building_types.wf()
        &&& self.tech_tree.wf()
    }

    pub fn tech_tree(&self) -> (r: &TechTree)
        ensures
            r == self.tech_tree,
    {
        &self.tech_tree
    }

    pub fn building_types(&self) -> (r: &BuildingTypes)
        ensures
            r == self.building_types,
    {
        &self.building_types
    }

    pub fn unit_templates(&self) -> (r: &UnitTemplates)
        ensures
            r == self.unit_templates,
    {
        &self.unit_templates
    }

    pub fn turn(&self) -> (r: u16)
        ensures
            r == self.turn,
    {
        self.turn
    }

    pub fn players(&self) -> (r: &Table<Player>)
        ensures
            r == self.players,
    {
        &self.players
    }

    pub fn player(&self, id: PlayerId) -> (r: Option<&Player>)
        ensures
            match r {
                Some(p) => tb_get(self.model().players, id.spec_key()) == Some(p.model()),
                None => tb_get(self.model().players, id.spec_key()) is None,
            },
    {
        proof {
            lemma_tb_map_get(self.players@, |p: Player| p.model(), id.spec_key());
        }
        self.players.get(id.key())
    }

    pub fn civilizations(&self) -> (r: &Table<Civilization>)
        ensures
            r == self.civilizations,
    {
        &self.civilizations
    }

    pub fn civilization(&self, id: CivilizationId) -> (r: Option<&Civilization>)
        ensures
            match r {
                Some(c) => tb_get(self.model().civilizations, id.spec_key()) == Some(c.model()),
                None => tb_get(self.model().civilizations, id.spec_key()) is None,
            },
    {
        proof {
            lemma_tb_map_get(self.civilizations@, |c: Civilization| c.model(), id.spec_key());
        }
        self.civilizations.get(id.key())
    }

    pub fn units(&self) -> (r: &Table<Unit>)
        ensures
            r == self.units,
    {
        &self.units
    }

    pub fn unit(&self, unit_id: UnitId) -> (r: Option<&Unit>)
        ensures
            match r {
                Some(u) => tb_get(self.model().units, unit_id.spec_key()) == Some(u.model()),
                None => tb_get(self.model().units, unit_id.spec_key()) is None,
            },
    {
        proof {
            lemma_tb_map_get(self.units@, |u: Unit| u.model(), unit_id.spec_key());
        }
        self.units.get(unit_id.key())
    }

    pub fn cities(&self) -> (r: &Table<City>)
        ensures
            r == self.cities,
    {
        &self.cities
    }

    pub fn city(&self, city_id: CityId) -> (r: Option<&City>)
        ensures
            match r {
                Some(c) => tb_get(self.model().cities, city_id.spec_key()) == Some(c.model()),
                None => tb_get(self.model().cities, city_id.spec_key()) is None,
            },
    {
        proof {
            lemma_tb_map_get(self.cities@, |c: City| c.model(), city_id.spec_key());
        }
        self.cities.get(city_id.key())
    }
}

/// The world with one player's ready flag rebound; an unknown player
/// changes nothing.
pub open spec fn spec_world_set_player_ready(
    w: GameWorldModel,
    player_id: PlayerId,
    ready: bool,
) -> GameWorldModel {
    match tb_get(w.players, player_id.spec_key()) {
        Some(p) => GameWorldModel {
            players: tb_insert(w.players, player_id.spec_key(), PlayerModel { ready, ..p }),
            ..w
        },
        None => w,
    }
}

/// The world with one unit's sleep flag rebound.
pub open spec fn spec_world_set_sleeping(
    w: GameWorldModel,
    unit_id: UnitId,
    sleeping: bool,
) -> GameWorldModel {
    match tb_get(w.units, unit_id.spec_key()) {
        Some(u) => GameWorldModel {
            units: tb_insert(w.units, unit_id.spec_key(), UnitModel { sleeping, ..u }),
            ..w
        },
        None => w,
    }
}

/// The world with one unit's movement spent.
pub open spec fn spec_world_deplete_movement(w: GameWorldModel, unit_id: UnitId) -> GameWorldModel {
    match tb_get(w.units, unit_id.spec_key()) {
        Some(u) => GameWorldModel {
            units: tb_insert(
                w.units,
                unit_id.spec_key(),
                UnitModel { remaining_movement: 0, ..u },
            ),
            ..w
        },
        None => w,
    }
}

/// The world with one charge spent; a unit without charges left, or
/// without charges at all, changes nothing.
pub open spec fn spec_world_use_charge(w: GameWorldModel, unit_id: UnitId) -> GameWorldModel {
    match tb_get(w.units, unit_id.spec_key()) {
        Some(u) => match u.charges {
            Some((current, initial)) => if current > 0 {
                GameWorldModel {
                    units: tb_insert(
                        w.units,
                        unit_id.spec_key(),
                        UnitModel { charges: Some(((current - 1) as u64, initial)), ..u },
                    ),
                    ..w
                }
            } else {
                w
            },
            None => w,
        },
        None => w,
    }
}

/// The world with one city renamed.
pub open spec fn spec_world_rename_city(
    w: GameWorldModel,
    city_id: CityId,
    name: Seq<char>,
) -> GameWorldModel {
    match tb_get(w.cities, city_id.spec_key()) {
        Some(c) => GameWorldModel {
            cities: tb_insert(w.cities, city_id.spec_key(), CityModel { name, ..c }),
            ..w
        },
        None => w,
    }
}

/// The world with one tile marked harvested; a position off the map
/// changes nothing.
pub open spec fn spec_world_harvest(w: GameWorldModel, position: TilePosition) -> GameWorldModel {
    if position.in_bounds(w.map.width, w.map.height) {
        GameWorldModel {
            map: spec_set_tile(
                w.map,
                position,
                crate::tile::Tile { harvested: true, ..spec_tile_at(w.map, position) },
            ),
            ..w
        }
    } else {
        w
    }
}

/// The world with one civilization's research slot rebound.
pub open spec fn spec_world_set_research(
    w: GameWorldModel,
    civilization_id: CivilizationId,
    tech_id: TechId,
) -> GameWorldModel {
    match tb_get(w.civilizations, civilization_id.spec_key()) {
        Some(c) => GameWorldModel {
            civilizations: tb_insert(
                w.civilizations,
                civilization_id.spec_key(),
                CivilizationModel {
                    tech_progress: crate::tech::TechProgressModel {
                        researching: Some(tech_id),
                        ..c.tech_progress
                    },
                    ..c
                },
            ),
            ..w
        },
        None => w,
    }
}

/// The world after one civilization finishes its research.
pub open spec fn spec_world_finish_research(
    w: GameWorldModel,
    civilization_id: CivilizationId,
) -> GameWorldModel {
    match tb_get(w.civilizations, civilization_id.spec_key()) {
        Some(c) => GameWorldModel {
            civilizations: tb_insert(
                w.civilizations,
                civilization_id.spec_key(),
                CivilizationModel {
                    tech_progress: crate::tech::spec_tp_finish(c.tech_progress, w.tech_tree),
                    ..c
                },
            ),
            ..w
        },
        None => w,
    }
}

/// A movement budget forced into a unit's legal range.
pub open spec fn spec_clamp_movement(rm: MapUnit, total: MapUnit) -> MapUnit {
    if rm < 0 {
        0 as i16
    } else if rm > total {
        total
    } else {
        rm
    }
}

/// A template forced into the invariants units rely on: movement within
/// the geometry's range and a representable cost.
pub open spec fn spec_normalize_template(t: UnitTemplateModel) -> UnitTemplateModel {
    UnitTemplateModel {
        movement: if t.movement < 0 {
            0 as i16
        } else if t.movement > MAX_MAP_DIM {
            MAX_MAP_DIM
        } else {
            t.movement
        },
        production_cost: YieldValue(crate::yields::yv_clamp(t.production_cost.0 as int)),
        ..t
    }
}

/// The unit a template mints, already granted its first turn's movement.
pub open spec fn spec_minted_unit(
    t: UnitTemplateModel,
    id: UnitId,
    owner: CivilizationId,
    position: TilePosition,
) -> UnitModel {
    UnitModel {
        id,
        name: t.name,
        owner,
        unit_type: t.unit_type,
        total_movement: t.movement,
        abilities: t.abilities,
        charges: match t.initial_charges {
            Some(n) => Some((n, n)),
            None => None,
        },
        sleeping: false,
        position,
        remaining_movement: t.movement,
    }
}

/// The world with one unit moved: its tile markers rebound and its
/// movement budget rebound (clamped into its legal range). A missing
/// unit, an off-map position, or a destination that cannot host the
/// unit changes nothing.
pub open spec fn spec_world_move_unit(
    w: GameWorldModel,
    unit_id: UnitId,
    position: TilePosition,
    remaining_movement: MapUnit,
) -> GameWorldModel {
    match tb_get(w.units, unit_id.spec_key()) {
        Some(u) => if position.in_bounds(w.map.width, w.map.height) && u.position.in_bounds(
            w.map.width,
            w.map.height,
        ) && spec_tile_at(w.map, position).spec_unit_can_reside(u.unit_type) {
            let m1 = spec_set_tile(
                w.map,
                u.position,
                spec_tile_at(w.map, u.position).spec_with_unit(u.unit_type, None),
            );
            let m2 = spec_set_tile(
                m1,
                position,
                spec_tile_at(m1, position).spec_with_unit(u.unit_type, Some(unit_id)),
            );
            GameWorldModel {
                map: m2,
                units: tb_insert(
                    w.units,
                    unit_id.spec_key(),
                    UnitModel {
                        position,
                        remaining_movement: spec_clamp_movement(
                            remaining_movement,
                            u.total_movement,
                        ),
                        ..u
                    },
                ),
                ..w
            }
        } else {
            w
        },
        None => w,
    }
}

/// The world with one unit gone: its tile marker cleared and its entry
/// removed.
pub open spec fn spec_world_delete_unit(w: GameWorldModel, unit_id: UnitId) -> GameWorldModel {
    match tb_get(w.units, unit_id.spec_key()) {
        Some(u) => {
            let m1 = if u.position.in_bounds(w.map.width, w.map.height) {
                spec_set_tile(
                    w.map,
                    u.position,
                    spec_tile_at(w.map, u.position).spec_with_unit(u.unit_type, None),
                )
            } else {
                w.map
            };
            GameWorldModel { map: m1, units: tb_remove(w.units, unit_id.spec_key()), ..w }
        },
        None => w,
    }
}

/// The world with one city's production slot rebound: a unit order
/// carries its template, a building order is resolved in the catalog
/// (an unknown building clears the slot), and banked progress resets.
pub open spec fn spec_world_set_producing(
    w: GameWorldModel,
    city_id: CityId,
    producing: Option<ProducingItemIdModel>,
) -> GameWorldModel {
    match tb_get(w.cities, city_id.spec_key()) {
        Some(c) => {
            let p = match producing {
                None => None,
                Some(ProducingItemIdModel::Unit(t)) => Some(
                    (ProducingItemModel::Unit(spec_normalize_template(t)), YieldValue(0)),
                ),
                Some(ProducingItemIdModel::Building(id)) => match tb_get(
                    w.building_types,
                    id.spec_key(),
                ) {
                    Some(b) => Some((ProducingItemModel::Building(b), YieldValue(0))),
                    None => None,
                },
            };
            GameWorldModel {
                cities: tb_insert(w.cities, city_id.spec_key(), CityModel { producing: p, ..c }),
                ..w
            }
        },
        None => w,
    }
}

/// The world with one freshly minted unit standing on a tile that can
/// host it; an impossible placement or an id collision changes nothing.
pub open spec fn spec_world_new_unit(
    w: GameWorldModel,
    template: UnitTemplateModel,
    owner: CivilizationId,
    position: TilePosition,
    unit_id: UnitId,
) -> GameWorldModel {
    let t = spec_normalize_template(template);
    if position.in_bounds(w.map.width, w.map.height) && spec_tile_at(
        w.map,
        position,
    ).spec_unit_can_reside(t.unit_type) && !tb_contains(w.units, unit_id.spec_key()) {
        let m1 = spec_set_tile(
            w.map,
            position,
            spec_tile_at(w.map, position).spec_with_unit(t.unit_type, Some(unit_id)),
        );
        GameWorldModel {
            map: m1,
            units: tb_insert(
                w.units,
                unit_id.spec_key(),
                spec_minted_unit(t, unit_id, owner, position),
            ),
            ..w
        }
    } else {
        w
    }
}

/// The world with a city founded at an in-bounds, city-free position by
/// a known civilization: a city id and a roster name are minted, the
/// city claims its surroundings, and its derived state is computed.
/// Anything else changes nothing.
pub open spec fn spec_world_found_city(
    w: GameWorldModel,
    position: TilePosition,
    owner: CivilizationId,
) -> GameWorldModel {
    if position.in_bounds(w.map.width, w.map.height) && spec_tile_at(w.map, position).city is None {
        match tb_get(w.civilizations, owner.spec_key()) {
            Some(civ) => {
                let id = CityId(crate::unit::spec_gen_next_u16(w.next_city_id));
                let name = crate::city_names::spec_city_name(
                    w.next_city_name as int % crate::city_names::CITY_NAME_COUNT as int,
                );
                let (cm, m2) = crate::city::spec_city_new(
                    id,
                    owner,
                    position,
                    name,
                    w.map,
                    w.building_types,
                    civ.tech_progress,
                );
                GameWorldModel {
                    map: m2,
                    cities: tb_insert(w.cities, id.spec_key(), cm),
                    next_city_id: crate::unit::spec_gen_next_u16(w.next_city_id),
                    next_city_name: if w.next_city_name < u64::MAX {
                        (w.next_city_name + 1) as u64
                    } else {
                        w.next_city_name
                    },
                    ..w
                }
            },
            None => w,
        }
    } else {
        w
    }
}

/// The world with one finished building recorded in a city, resolved in
/// the catalog, and the city's derived state recomputed.
pub open spec fn spec_world_new_building(
    w: GameWorldModel,
    city_id: CityId,
    building_type_id: crate::building::BuildingTypeId,
) -> GameWorldModel {
    match tb_get(w.cities, city_id.spec_key()) {
        Some(c) => match tb_get(w.building_types, building_type_id.spec_key()) {
            Some(b) => match tb_get(w.civilizations, c.owner.spec_key()) {
                Some(civ) => {
                    let (c2, m2) = crate::city::spec_city_add_building(
                        c,
                        w.map,
                        b,
                        w.building_types,
                        civ.tech_progress,
                    );
                    GameWorldModel {
                        map: m2,
                        cities: tb_insert(w.cities, city_id.spec_key(), c2),
                        ..w
                    }
                },
                None => w,
            },
            None => w,
        },
        None => w,
    }
}

/// The world with a citizen locked or unlocked on a city's tile.
pub open spec fn spec_world_set_citizen_locked(
    w: GameWorldModel,
    city_id: CityId,
    position: TilePosition,
    locked: bool,
) -> GameWorldModel {
    match tb_get(w.cities, city_id.spec_key()) {
        Some(c) => match tb_get(w.civilizations, c.owner.spec_key()) {
            Some(civ) => {
                let (c2, m2) = crate::city::spec_city_set_citizen_locked(
                    c,
                    w.map,
                    position,
                    locked,
                    w.building_types,
                    civ.tech_progress,
                );
                GameWorldModel { map: m2, cities: tb_insert(w.cities, city_id.spec_key(), c2), ..w }
            },
            None => w,
        },
        None => w,
    }
}

/// The world with one city's population grown from banked food.
pub open spec fn spec_world_increase_population(
    w: GameWorldModel,
    city_id: CityId,
) -> GameWorldModel {
    match tb_get(w.cities, city_id.spec_key()) {
        Some(c) => match tb_get(w.civilizations, c.owner.spec_key()) {
            Some(civ) => {
                let (c2, m2) = crate::city::spec_city_increase_population(
                    c,
                    w.map,
                    w.building_types,
                    civ.tech_progress,
                );
                GameWorldModel { map: m2, cities: tb_insert(w.cities, city_id.spec_key(), c2), ..w }
            },
            None => w,
        },
        None => w,
    }
}

/// The world with one in-bounds tile added to a city's territory.
pub open spec fn spec_world_add_territory(
    w: GameWorldModel,
    city_id: CityId,
    position: TilePosition,
) -> GameWorldModel {
    if !position.in_bounds(w.map.width, w.map.height) {
        w
    } else {
        match tb_get(w.cities, city_id.spec_key()) {
            Some(c) => match tb_get(w.civilizations, c.owner.spec_key()) {
                Some(civ) => {
                    let (c2, m2) = crate::city::spec_city_grow_territory(
                        c,
                        w.map,
                        position,
                        w.building_types,
                        civ.tech_progress,
                    );
                    GameWorldModel {
                        map: m2,
                        cities: tb_insert(w.cities, city_id.spec_key(), c2),
                        ..w
                    }
                },
                None => w,
            },
            None => w,
        }
    }
}

/// One turn's science of one civilization: the saturating sum, from
/// city `i` on, of the science yields of the cities it owns.
pub open spec fn spec_civ_science(
    cities: Seq<(u64, CityModel)>,
    civ_id: CivilizationId,
    i: int,
    acc: u64,
) -> u64
    decreases cities.len() - i,
{
    if i < 0 || i >= cities.len() {
        acc
    } else {
        let acc2 = if cities[i].1.owner == civ_id {
            yv_add(acc, cities[i].1.yields.science.0)
        } else {
            acc
        };
        spec_civ_science(cities, civ_id, i + 1, acc2)
    }
}

/// The world after one city's turn start, by key: derived state
/// recomputed, production and food banked, growth countdown stepped. An
/// unknown city or owner changes nothing.
pub open spec fn spec_city_turn_step(w: GameWorldModel, k: u64) -> GameWorldModel {
    match tb_get(w.cities, k) {
        Some(c) => match tb_get(w.civilizations, c.owner.spec_key()) {
            Some(civ) => {
                let (c2, m2) = crate::city::spec_city_on_turn_start(
                    c,
                    w.map,
                    w.building_types,
                    civ.tech_progress,
                );
                GameWorldModel { map: m2, cities: tb_insert(w.cities, k, c2), ..w }
            },
            None => w,
        },
        None => w,
    }
}

/// The world after every city's turn start, from city `i` on, in id
/// order, each seeing the changes of the ones before it.
pub open spec fn spec_cities_turn_start(w: GameWorldModel, i: int) -> GameWorldModel
    decreases w.cities.len() - i when w.cities.len() == spec_city_turn_step(w, if 0 <= i < w.cities.len() { w.cities[i].0 } else { 0 }).cities.len() || true
{
    if i < 0 || i >= w.cities.len() {
        w
    } else {
        let w2 = spec_city_turn_step(w, w.cities[i].0);
        if w2.cities.len() == w.cities.len() {
            spec_cities_turn_start(w2, i + 1)
        } else {
            w2
        }
    }
}

/// Every unit with its movement budget refilled.
pub open spec fn spec_units_refreshed(units: Seq<(u64, UnitModel)>) -> Seq<(u64, UnitModel)> {
    units.map_values(
        |e: (u64, UnitModel)|
            (e.0, UnitModel { remaining_movement: e.1.total_movement, ..e.1 }),
    )
}

/// The world after one civilization banks its turn's science, by key.
pub open spec fn spec_civ_turn_step(w: GameWorldModel, k: u64) -> GameWorldModel {
    match tb_get(w.civilizations, k) {
        Some(civ) => {
            let science = spec_civ_science(w.cities, civ.id, 0, 0);
            GameWorldModel {
                civilizations: tb_insert(
                    w.civilizations,
                    k,
                    CivilizationModel {
                        tech_progress: crate::tech::TechProgressModel {
                            progress: YieldValue(yv_add(civ.tech_progress.progress.0, science)),
                            ..civ.tech_progress
                        },
                        ..civ
                    },
                ),
                ..w
            }
        },
        None => w,
    }
}

/// The world after every civilization banks its science, from `i` on.
pub open spec fn spec_civs_turn_start(w: GameWorldModel, i: int) -> GameWorldModel
    decreases w.civilizations.len() - i,
{
    if i < 0 || i >= w.civilizations.len() {
        w
    } else {
        let w2 = spec_civ_turn_step(w, w.civilizations[i].0);
        if w2.civilizations.len() == w.civilizations.len() {
            spec_civs_turn_start(w2, i + 1)
        } else {
            w2
        }
    }
}

/// The whole turn start: every city in id order, then every unit's
/// movement refilled, then every civilization's science banked.
pub open spec fn spec_world_on_turn_start(w: GameWorldModel) -> GameWorldModel {
    let w1 = spec_cities_turn_start(w, 0);
    let w2 = GameWorldModel { units: spec_units_refreshed(w1.units), ..w1 };
    spec_civs_turn_start(w2, 0)
}

/// Every player with the ready flag cleared.
pub open spec fn spec_players_unready(players: Seq<(u64, PlayerModel)>) -> Seq<(u64, PlayerModel)> {
    players.map_values(|e: (u64, PlayerModel)| (e.0, PlayerModel { ready: false, ..e.1 }))
}

/// The world after a turn change: the turn counter steps, every city,
/// unit and civilization runs its turn start, and every ready flag
/// clears, re-arming the turn-advance gate.
pub open spec fn spec_world_next_turn_event(w: GameWorldModel) -> GameWorldModel {
    let w1 = GameWorldModel {
        turn: if w.turn < u16::MAX {
            (w.turn + 1) as u16
        } else {
            w.turn
        },
        ..w
    };
    let w2 = spec_world_on_turn_start(w1);
    GameWorldModel { players: spec_players_unready(w2.players), ..w2 }
}

/// What applying one event does to the world. Total over every event.
pub open spec fn spec_apply_event(w: GameWorldModel, e: GameEventTypeModel) -> GameWorldModel {
    match e {
        GameEventTypeModel::NextTurn => spec_world_next_turn_event(w),
        GameEventTypeModel::MoveUnit { unit_id, position, remaining_movement } =>
            spec_world_move_unit(w, unit_id, position, remaining_movement),
        GameEventTypeModel::DeleteUnit { unit_id } => spec_world_delete_unit(w, unit_id),
        GameEventTypeModel::FoundCity { position, owner } => spec_world_found_city(
            w,
            position,
            owner,
        ),
        GameEventTypeModel::RenameCity { city_id, name } => spec_world_rename_city(
            w,
            city_id,
            name,
        ),
        GameEventTypeModel::SetPlayerReady { player_id, ready } => spec_world_set_player_ready(
            w,
            player_id,
            ready,
        ),
        GameEventTypeModel::SetProducing { city_id, producing } => spec_world_set_producing(
            w,
            city_id,
            producing,
        ),
        GameEventTypeModel::NewUnit { template, owner, position, unit_id } => spec_world_new_unit(
            w,
            template,
            owner,
            position,
            unit_id,
        ),
        GameEventTypeModel::NewBuilding { building_type_id, city_id } => spec_world_new_building(
            w,
            city_id,
            building_type_id,
        ),
        GameEventTypeModel::Crash { .. } => w,
        GameEventTypeModel::SetSleeping { unit_id, sleeping } => spec_world_set_sleeping(
            w,
            unit_id,
            sleeping,
        ),
        GameEventTypeModel::SetCitizenLocked { city_id, position, locked } =>
            spec_world_set_citizen_locked(w, city_id, position, locked),
        GameEventTypeModel::IncreasePopulationFromFood { city_id } =>
            spec_world_increase_population(w, city_id),
        GameEventTypeModel::AddTerritoryToCity { city_id, position } => spec_world_add_territory(
            w,
            city_id,
            position,
        ),
        GameEventTypeModel::Harvest { position } => spec_world_harvest(w, position),
        GameEventTypeModel::DepleteMovement { unit_id } => spec_world_deplete_movement(w, unit_id),
        GameEventTypeModel::UseCharge { unit_id } => spec_world_use_charge(w, unit_id),
        GameEventTypeModel::FinishResearch { civilization_id } => spec_world_finish_research(
            w,
            civilization_id,
        ),
        GameEventTypeModel::SetResearch { civilization_id, tech_id } => spec_world_set_research(
            w,
            civilization_id,
            tech_id,
        ),
    }
}

/// What applying a batch of events, in order from `i` on, does.
pub open spec fn spec_apply_events(
    w: GameWorldModel,
    events: Seq<GameEventTypeModel>,
    i: int,
) -> GameWorldModel
    decreases events.len() - i,
{
    if i < 0 || i >= events.len() {
        w
    } else {
        spec_apply_events(spec_apply_event(w, events[i]), events, i + 1)
    }
}

/// The world on entering its first turn; a world already started
/// changes nothing.
pub open spec fn spec_world_start(w: GameWorldModel) -> GameWorldModel {
    if w.turn == 0 {
        spec_world_on_turn_start(GameWorldModel { turn: 1, ..w })
    } else {
        w
    }
}

/// The world with a fresh civilization minted for one joining player.
pub open spec fn spec_world_new_civilization(
    w: GameWorldModel,
    player_id: PlayerId,
    name: Seq<char>,
) -> GameWorldModel {
    let civ_id = CivilizationId(w.next_civilization_id);
    GameWorldModel {
        civilizations: tb_insert(
            w.civilizations,
            civ_id.spec_key(),
            CivilizationModel {
                id: civ_id,
                player_name: name,
                tech_progress: crate::tech::spec_tp_new(w.tech_tree),
            },
        ),
        players: tb_insert(
            w.players,
            player_id.spec_key(),
            PlayerModel { id: player_id, name, civilization_id: civ_id, ready: false },
        ),
        next_civilization_id: crate::player::spec_gen_next_u8(w.next_civilization_id),
        ..w
    }
}

/// The world with every listed player joined, from `i` on.
pub open spec fn spec_world_join_players(
    w: GameWorldModel,
    names: Seq<(PlayerId, Seq<char>)>,
    i: int,
) -> GameWorldModel
    decreases names.len() - i,
{
    if i < 0 || i >= names.len() {
        w
    } else {
        spec_world_join_players(
            spec_world_new_civilization(w, names[i].0, names[i].1),
            names,
            i + 1,
        )
    }
}

/// A fresh world: a blank all-plains map, the standard catalogs and
/// tech tree, empty collections, and one civilization per player.
pub open spec fn spec_world_new(
    width: MapUnit,
    height: MapUnit,
    names: Seq<(PlayerId, Seq<char>)>,
) -> GameWorldModel {
    let base = GameWorldModel {
        map: crate::game_map::spec_new_map(width, height),
        players: Seq::<(u64, PlayerModel)>::empty(),
        units: Seq::<(u64, UnitModel)>::empty(),
        cities: Seq::<(u64, CityModel)>::empty(),
        civilizations: Seq::<(u64, CivilizationModel)>::empty(),
        turn: 0,
        next_unit_id: 0,
        next_city_name: 0,
        next_city_id: 0,
        next_civilization_id: 0,
        unit_templates: spec_standard_template_models(),
        building_types: spec_standard_building_models(),
        tech_tree: crate::tech::spec_standard_tech_tree(spec_standard_building_models()[0].1),
    };
    spec_world_join_players(base, names, 0)
}

/// Index of the first listed position, from `i` on, that lies in the
/// map and can host a unit of the given type, or -1.
pub open spec fn spec_find_spawn(
    m: GameMapModel,
    list: Seq<TilePosition>,
    i: int,
    ut: UnitType,
) -> int
    decreases list.len() - i,
{
    if i < 0 || i >= list.len() {
        -1
    } else if list[i].in_bounds(m.width, m.height) && spec_tile_at(
        m,
        list[i],
    ).spec_unit_can_reside(ut) {
        i
    } else {
        spec_find_spawn(m, list, i + 1, ut)
    }
}

/// The per-turn resolution of one city, by key: a population increase
/// when enough food is banked, a territory expansion when the countdown
/// elapsed and an eligible tile exists, and production completion —
/// a new unit on the city tile or its first free neighbor (a crash
/// report when no tile can host it), or a new building — followed by a
/// cleared production slot. Each event is applied before the next check.
pub open spec fn spec_city_resolution_step(w: GameWorldModel, k: u64) -> (
    GameWorldModel,
    Seq<GameEventTypeModel>,
) {
    match tb_get(w.cities, k) {
        None => (w, Seq::<GameEventTypeModel>::empty()),
        Some(c0) => {
            let (w1, ev1) = if c0.accumulated_food.0
                >= c0.required_food_for_population_increase.0 {
                let e = GameEventTypeModel::IncreasePopulationFromFood { city_id: c0.id };
                (spec_apply_event(w, e), seq![e])
            } else {
                (w, Seq::<GameEventTypeModel>::empty())
            };
            let (w2, ev2) = match tb_get(w1.cities, k) {
                Some(c1) => if c1.turns_until_territory_growth <= 0 {
                    match crate::city::spec_next_tile_to_expand(c1.position, w1.map) {
                        Some(pos) => {
                            let e = GameEventTypeModel::AddTerritoryToCity {
                                city_id: c1.id,
                                position: pos,
                            };
                            (spec_apply_event(w1, e), ev1.push(e))
                        },
                        None => (w1, ev1),
                    }
                } else {
                    (w1, ev1)
                },
                None => (w1, ev1),
            };
            match tb_get(w2.cities, k) {
                Some(c2) => match c2.producing {
                    Some((item, spent)) => if spent.0 >= crate::city::spec_production_cost(
                        item,
                    ).0 {
                        match item {
                            ProducingItemModel::Unit(t) => {
                                let list = seq![c2.position] + c2.position.spec_direct_neighbors(
                                    w2.map.width,
                                    w2.map.height,
                                );
                                let s = spec_find_spawn(w2.map, list, 0, t.unit_type);
                                if 0 <= s < list.len() {
                                    let unit_id = UnitId(
                                        crate::unit::spec_gen_next_u16(w2.next_unit_id),
                                    );
                                    let w3 = GameWorldModel {
                                        next_unit_id: crate::unit::spec_gen_next_u16(
                                            w2.next_unit_id,
                                        ),
                                        ..w2
                                    };
                                    let e3 = GameEventTypeModel::NewUnit {
                                        template: t,
                                        owner: c2.owner,
                                        position: list[s],
                                        unit_id,
                                    };
                                    let w4 = spec_apply_event(w3, e3);
                                    let e4 = GameEventTypeModel::SetProducing {
                                        city_id: c2.id,
                                        producing: None,
                                    };
                                    let w5 = spec_apply_event(w4, e4);
                                    (w5, ev2.push(e3).push(e4))
                                } else {
                                    let e = GameEventTypeModel::Crash {
                                        message: "Couldn't find an empty space beside city."@,
                                    };
                                    (w2, ev2.push(e))
                                }
                            },
                            ProducingItemModel::Building(b) => {
                                let e3 = GameEventTypeModel::NewBuilding {
                                    building_type_id: b.id,
                                    city_id: c2.id,
                                };
                                let w4 = spec_apply_event(w2, e3);
                                let e4 = GameEventTypeModel::SetProducing {
                                    city_id: c2.id,
                                    producing: None,
                                };
                                let w5 = spec_apply_event(w4, e4);
                                (w5, ev2.push(e3).push(e4))
                            },
                        }
                    } else {
                        (w2, ev2)
                    },
                    None => (w2, ev2),
                },
                None => (w2, ev2),
            }
        },
    }
}

/// The per-turn resolution of every listed city, in order.
pub open spec fn spec_cities_resolution(
    w: GameWorldModel,
    ids: Seq<u64>,
    i: int,
    acc: Seq<GameEventTypeModel>,
) -> (GameWorldModel, Seq<GameEventTypeModel>)
    decreases ids.len() - i,
{
    if i < 0 || i >= ids.len() {
        (w, acc)
    } else {
        let (w2, ev) = spec_city_resolution_step(w, ids[i]);
        spec_cities_resolution(w2, ids, i + 1, acc + ev)
    }
}

/// The research resolution of one civilization, by key: research that
/// reached its cost finishes, applied at once.
pub open spec fn spec_civ_resolution_step(w: GameWorldModel, k: u64) -> (
    GameWorldModel,
    Seq<GameEventTypeModel>,
) {
    match tb_get(w.civilizations, k) {
        Some(civ) => if crate::tech::spec_tp_can_finish(civ.tech_progress, w.tech_tree) {
            let e = GameEventTypeModel::FinishResearch { civilization_id: civ.id };
            (spec_apply_event(w, e), seq![e])
        } else {
            (w, Seq::<GameEventTypeModel>::empty())
        },
        None => (w, Seq::<GameEventTypeModel>::empty()),
    }
}

/// The research resolution of every listed civilization, in order.
pub open spec fn spec_civs_resolution(
    w: GameWorldModel,
    ids: Seq<u64>,
    i: int,
    acc: Seq<GameEventTypeModel>,
) -> (GameWorldModel, Seq<GameEventTypeModel>)
    decreases ids.len() - i,
{
    if i < 0 || i >= ids.len() {
        (w, acc)
    } else {
        let (w2, ev) = spec_civ_resolution_step(w, ids[i]);
        spec_civs_resolution(w2, ids, i + 1, acc + ev)
    }
}

/// A full turn change: the turn-change event itself, then every city's
/// per-turn resolution in id order, then every civilization's research
/// resolution, every event applied in emission order.
pub open spec fn spec_world_next_turn(w: GameWorldModel) -> (
    GameWorldModel,
    Seq<GameEventTypeModel>,
) {
    let e0 = GameEventTypeModel::NextTurn;
    let w1 = spec_apply_event(w, e0);
    let (w2, ev2) = spec_cities_resolution(
        w1,
        crate::table::tb_keys(w1.cities),
        0,
        Seq::<GameEventTypeModel>::empty(),
    );
    let (w3, ev3) = spec_civs_resolution(w2, crate::table::tb_keys(w2.civilizations), 0, ev2);
    (w3, seq![e0] + ev3)
}

/// Every player has set the ready flag.
pub open spec fn spec_all_players_ready(players: Seq<(u64, PlayerModel)>) -> bool {
    forall|i: int| 0 <= i < players.len() ==> (#[trigger] players[i]).1.ready
}

/// What a client action does: the actor is authorized against the named
/// unit or city, the action is checked for domain legality, and the
/// resulting events (possibly none) are applied in emission order. An
/// unauthorized or illegal action yields no events and no change.
pub open spec fn spec_process_action(
    w: GameWorldModel,
    a: crate::actions::GameActionTypeModel,
    actioner_id: PlayerId,
) -> (GameWorldModel, Seq<GameEventTypeModel>) {
    let none = (w, Seq::<GameEventTypeModel>::empty());
    match a {
        crate::actions::GameActionTypeModel::MoveUnit { unit_id, position } => match tb_get(
            w.units,
            unit_id.spec_key(),
        ) {
            Some(u) => match tb_get(w.players, actioner_id.spec_key()) {
                Some(p) => if p.civilization_id != u.owner {
                    none
                } else if !position.in_bounds(w.map.width, w.map.height) {
                    none
                } else {
                    let moveable = spec_tile_at(w.map, position).spec_unit_can_reside(u.unit_type);
                    let reach = crate::map_position::spec_neighbors_at_distance(
                        u.position,
                        w.map.width,
                        w.map.height,
                        u.remaining_movement as int,
                        true,
                    );
                    match crate::distances::dm_get(reach, position) {
                        Some(d) => if moveable {
                            let e = GameEventTypeModel::MoveUnit {
                                unit_id,
                                position,
                                remaining_movement: (u.remaining_movement - d) as i16,
                            };
                            (spec_apply_event(w, e), seq![e])
                        } else {
                            none
                        },
                        None => none,
                    }
                },
                None => none,
            },
            None => none,
        },
        crate::actions::GameActionTypeModel::FoundCity { unit_id } => match tb_get(
            w.units,
            unit_id.spec_key(),
        ) {
            Some(u) => match tb_get(w.players, actioner_id.spec_key()) {
                Some(p) => if p.civilization_id != u.owner {
                    none
                } else {
                    let city_on_tile = u.position.in_bounds(w.map.width, w.map.height)
                        && spec_tile_at(w.map, u.position).city is Some;
                    if u.abilities.settle && u.remaining_movement >= 1 && !city_on_tile {
                        let e1 = GameEventTypeModel::DeleteUnit { unit_id };
                        let e2 = GameEventTypeModel::FoundCity {
                            position: u.position,
                            owner: u.owner,
                        };
                        (spec_apply_event(spec_apply_event(w, e1), e2), seq![e1, e2])
                    } else {
                        none
                    }
                },
                None => none,
            },
            None => none,
        },
        crate::actions::GameActionTypeModel::RenameCity { city_id, name } => match tb_get(
            w.cities,
            city_id.spec_key(),
        ) {
            Some(c) => match tb_get(w.players, actioner_id.spec_key()) {
                Some(p) => if p.civilization_id != c.owner {
                    none
                } else {
                    let e = GameEventTypeModel::RenameCity { city_id, name };
                    (spec_apply_event(w, e), seq![e])
                },
                None => none,
            },
            None => none,
        },
        crate::actions::GameActionTypeModel::SetReady(ready) => {
            let e = GameEventTypeModel::SetPlayerReady { player_id: actioner_id, ready };
            let w1 = spec_apply_event(w, e);
            if spec_all_players_ready(w1.players) {
                let (w2, ev2) = spec_world_next_turn(w1);
                (w2, seq![e] + ev2)
            } else {
                (w1, seq![e])
            }
        },
        crate::actions::GameActionTypeModel::SetProducing { city_id, producing } => match tb_get(
            w.cities,
            city_id.spec_key(),
        ) {
            Some(c) => match tb_get(w.players, actioner_id.spec_key()) {
                Some(p) => if p.civilization_id != c.owner {
                    none
                } else {
                    let e = GameEventTypeModel::SetProducing { city_id, producing };
                    (spec_apply_event(w, e), seq![e])
                },
                None => none,
            },
            None => none,
        },
        crate::actions::GameActionTypeModel::SetSleeping { unit_id, sleeping } => match tb_get(
            w.units,
            unit_id.spec_key(),
        ) {
            Some(u) => match tb_get(w.players, actioner_id.spec_key()) {
                Some(p) => if p.civilization_id != u.owner {
                    none
                } else {
                    let e = GameEventTypeModel::SetSleeping { unit_id, sleeping };
                    (spec_apply_event(w, e), seq![e])
                },
                None => none,
            },
            None => none,
        },
        crate::actions::GameActionTypeModel::SetCitizenLocked { city_id, position, locked } =>
            match tb_get(w.cities, city_id.spec_key()) {
            Some(c) => match tb_get(w.players, actioner_id.spec_key()) {
                Some(p) => if p.civilization_id != c.owner {
                    none
                } else if !tb_contains(c.territory, crate::city::spec_pos_key(position)) {
                    none
                } else {
                    let e = GameEventTypeModel::SetCitizenLocked { city_id, position, locked };
                    (spec_apply_event(w, e), seq![e])
                },
                None => none,
            },
            None => none,
        },
        crate::actions::GameActionTypeModel::Harvest { unit_id } => match tb_get(
            w.units,
            unit_id.spec_key(),
        ) {
            Some(u) => match tb_get(w.players, actioner_id.spec_key()) {
                Some(p) => if p.civilization_id != u.owner {
                    none
                } else if !crate::unit::spec_can_harvest(u, w.cities, w.map) {
                    none
                } else {
                    let e1 = GameEventTypeModel::Harvest { position: u.position };
                    let w1 = spec_apply_event(w, e1);
                    let e2 = GameEventTypeModel::DepleteMovement { unit_id };
                    let w2 = spec_apply_event(w1, e2);
                    let e3 = GameEventTypeModel::UseCharge { unit_id };
                    let w3 = spec_apply_event(w2, e3);
                    match tb_get(w3.units, unit_id.spec_key()) {
                        Some(u3) => match u3.charges {
                            Some((current, _)) => if current == 0 {
                                let e4 = GameEventTypeModel::DeleteUnit { unit_id };
                                (spec_apply_event(w3, e4), seq![e1, e2, e3, e4])
                            } else {
                                (w3, seq![e1, e2, e3])
                            },
                            None => (w3, seq![e1, e2, e3]),
                        },
                        None => (w3, seq![e1, e2, e3]),
                    }
                },
                None => none,
            },
            None => none,
        },
        crate::actions::GameActionTypeModel::SetResearch { tech_id } => match tb_get(
            w.players,
            actioner_id.spec_key(),
        ) {
            Some(p) => match tb_get(w.civilizations, p.civilization_id.spec_key()) {
                Some(civ) => if crate::tech::spec_tp_can_research(
                    civ.tech_progress,
                    tech_id,
                    w.tech_tree,
                ) {
                    let e = GameEventTypeModel::SetResearch {
                        civilization_id: p.civilization_id,
                        tech_id,
                    };
                    (spec_apply_event(w, e), seq![e])
                } else {
                    none
                },
                None => none,
            },
            None => none,
        },
    }
}

/// The models of the standard unit templates, as the catalog lays them out.
pub open spec fn spec_standard_template_models() -> Seq<(u64, UnitTemplateModel)> {
    seq![
        (
            1u64,
            UnitTemplateModel {
                id: crate::unit::UnitTemplateId(1),
                unit_type: UnitType::Civilian,
                name: "Settler"@,
                movement: 2 as i16,
                abilities: crate::unit::AbilitySet { settle: true, harvest: false },
                production_cost: YieldValue(200),
                initial_charges: None,
            },
        ),
        (
            2u64,
            UnitTemplateModel {
                id: crate::unit::UnitTemplateId(2),
                unit_type: UnitType::Civilian,
                name: "Worker"@,
                movement: 2 as i16,
                abilities: crate::unit::AbilitySet { settle: false, harvest: true },
                production_cost: YieldValue(150),
                initial_charges: Some(3u64),
            },
        ),
        (
            3u64,
            UnitTemplateModel {
                id: crate::unit::UnitTemplateId(3),
                unit_type: UnitType::Soldier,
                name: "Warrior"@,
                movement: 2 as i16,
                abilities: crate::unit::AbilitySet { settle: false, harvest: false },
                production_cost: YieldValue(140),
                initial_charges: None,
            },
        ),
    ]
}

/// The models of the standard building types, as the catalog lays them out.
pub open spec fn spec_standard_building_models() -> Seq<(u64, BuildingTypeModel)> {
    seq![
        (
            1u64,
            BuildingTypeModel {
                id: crate::building::BuildingTypeId(1),
                name: "Granary"@,
                effects: seq![
                    crate::city::CityEffectModel::MulYield(
                        crate::yields::YieldMultiplier {
                            multiplier: YieldValue(12),
                            yield_type: YieldType::Food,
                        },
                    ),
                ],
                production_cost: YieldValue(250),
            },
        ),
        (
            2u64,
            BuildingTypeModel {
                id: crate::building::BuildingTypeId(2),
                name: "Stable"@,
                effects: seq![
                    crate::city::CityEffectModel::AddTileYield {
                        yield_: Yield {
                            value: YieldValue(10),
                            yield_type: YieldType::Production,
                        },
                        matcher: crate::tile::TileMatcherModel::HasResource(
                            crate::resource::ResourceType::Horses,
                        ),
                    },
                ],
                production_cost: YieldValue(250),
            },
        ),
    ]
}

impl GameWorld {
    /// Found a city for a civilization at a city-free position; mints
    /// its id and name. Anything else changes nothing.
    pub fn new_city(&mut self, owner: CivilizationId, position: TilePosition)
        requires
            old(self).wf(),
        ensures
            final(self).model() == spec_world_found_city(old(self).model(), position, owner),
            final(self).wf(),
    {
        if !self.map.has_tile(position) {
            return ;
        }
        if self.map.tile(position).city.is_some() {
            return ;
        }
        proof {
            lemma_tb_map_get(self.civilizations@, |c: Civilization| c.model(), owner.spec_key());
        }
        let has_civ = self.civilizations.contains_key(owner.key());
        proof {
            lemma_tb_find_from(self.civilizations@, owner.spec_key(), 0);
        }
        if !has_civ {
            return ;
        }
        let id = self.city_id_generator.next();
        let name = self.city_name_generator.next();
        let city = match self.civilizations.get(owner.key()) {
            Some(civ) => City::new(
                id,
                owner,
                position,
                name,
                &mut self.map,
                &self.building_types,
                &civ.tech_progress,
            ),
            None => vstd::pervasive::unreached(),
        };
        proof {
            lemma_tb_map_insert(old(self).cities@, |x: City| x.model(), id.spec_key(), city);
            crate::table::lemma_tb_insert_all(
                old(self).cities@,
                id.spec_key(),
                city,
                |e: (u64, City)|
                    e.0 == e.1.id.spec_key() && e.1.wf() && e.1.territory_in_bounds(
                        self.map.model(),
                    ) && e.1.position.in_bounds(self.map.width, self.map.height),
            );
            Self::lemma_map_dims_cities_pre(old(self), self);
        }
        self.cities.insert(id.key(), city);
    }

    /// City tables keep their properties when the map keeps its
    /// dimensions and every claimed tile's territory marker.
    proof fn lemma_map_dims_cities_pre(before: &GameWorld, after: &GameWorld)
        requires
            before.wf(),
            after.map.wf(),
            after.map.width == before.map.width,
            after.map.height == before.map.height,
            after.cities@ == before.cities@,
        ensures
            forall|i: int|
                0 <= i < after.cities@.len() ==> ({
                    let e = #[trigger] after.cities@[i];
                    e.0 == e.1.id.spec_key() && e.1.wf() && e.1.territory_in_bounds(
                        after.map.model(),
                    ) && e.1.position.in_bounds(after.map.width, after.map.height)
                }),
    {
        Self::lemma_map_dims_cities(before, after);
    }

    /// Record a finished building in a city.
    fn apply_new_building(
        &mut self,
        city_id: CityId,
        building_type_id: crate::building::BuildingTypeId,
    )
        requires
            old(self).wf(),
        ensures
            final(self).model() == spec_world_new_building(
                old(self).model(),
                city_id,
                building_type_id,
            ),
            final(self).wf(),
    {
        let k = city_id.key();
        proof {
            lemma_tb_map_get(self.cities@, |c: City| c.model(), k);
            lemma_tb_find_from(self.cities@, k, 0);
            lemma_tb_map_get(
                self.building_types.table@,
                |b: BuildingType| b.model(),
                building_type_id.spec_key(),
            );
        }
        let building = match self.building_types.get(building_type_id) {
            Some(b) => {
                proof {
                    lemma_tb_find_from(self.building_types.table@, building_type_id.spec_key(), 0);
                }
                b.duplicate()
            },
            None => { return ; },
        };
        let taken = self.cities.remove(k);
        match taken {
            Some(mut c) => {
                proof {
                    lemma_tb_map_get(
                        self.civilizations@,
                        |x: Civilization| x.model(),
                        c.owner.spec_key(),
                    );
                }
                match self.civilizations.get(c.owner.key()) {
                    Some(civ) => {
                        c.add_building(
                            building,
                            &mut self.map,
                            &self.building_types,
                            &civ.tech_progress,
                        );
                        proof {
                            lemma_tb_update_bridge(old(self).cities@, |x: City| x.model(), k, c);
                            Self::lemma_cities_entry_props2(
                                old(self).cities@,
                                k,
                                c,
                                old(self).map,
                                self.map,
                            );
                            Self::lemma_units_dims(old(self).units@, old(self).map, self.map);
                        }
                        self.cities.insert(k, c);
                    },
                    None => {
                        proof {
                            lemma_tb_update_bridge(old(self).cities@, |x: City| x.model(), k, c);
                            Self::lemma_cities_entry_props2(
                                old(self).cities@,
                                k,
                                c,
                                old(self).map,
                                self.map,
                            );
                            crate::table::lemma_tb_map_wf(old(self).cities@, |x: City| x.model());
                            crate::table::lemma_tb_map_get(old(self).cities@, |x: City| x.model(), k);
                            crate::table::lemma_tb_insert_existing(
                                tb_map_values(old(self).cities@, |x: City| x.model()),
                                k,
                            );
                        }
                        self.cities.insert(k, c);
                        proof {
                            assert(self.model().cities =~= old(self).model().cities);
                        }
                    },
                }
            },
            None => {},
        }
    }

    /// Lock or unlock a citizen on a city's tile.
    fn apply_set_citizen_locked(&mut self, city_id: CityId, position: TilePosition, locked: bool)
        requires
            old(self).wf(),
        ensures
            final(self).model() == spec_world_set_citizen_locked(
                old(self).model(),
                city_id,
                position,
                locked,
            ),
            final(self).wf(),
    {
        let k = city_id.key();
        proof {
            lemma_tb_map_get(self.cities@, |c: City| c.model(), k);
            lemma_tb_find_from(self.cities@, k, 0);
        }
        let taken = self.cities.remove(k);
        match taken {
            Some(mut c) => {
                proof {
                    lemma_tb_map_get(
                        self.civilizations@,
                        |x: Civilization| x.model(),
                        c.owner.spec_key(),
                    );
                }
                match self.civilizations.get(c.owner.key()) {
                    Some(civ) => {
                        c.set_citizen_locked(
                            position,
                            locked,
                            &mut self.map,
                            &self.building_types,
                            &civ.tech_progress,
                        );
                        proof {
                            lemma_tb_update_bridge(old(self).cities@, |x: City| x.model(), k, c);
                            Self::lemma_cities_entry_props2(
                                old(self).cities@,
                                k,
                                c,
                                old(self).map,
                                self.map,
                            );
                            Self::lemma_units_dims(old(self).units@, old(self).map, self.map);
                        }
                        self.cities.insert(k, c);
                    },
                    None => {
                        proof {
                            lemma_tb_update_bridge(old(self).cities@, |x: City| x.model(), k, c);
                            Self::lemma_cities_entry_props2(
                                old(self).cities@,
                                k,
                                c,
                                old(self).map,
                                self.map,
                            );
                            crate::table::lemma_tb_map_wf(old(self).cities@, |x: City| x.model());
                            crate::table::lemma_tb_map_get(old(self).cities@, |x: City| x.model(), k);
                            crate::table::lemma_tb_insert_existing(
                                tb_map_values(old(self).cities@, |x: City| x.model()),
                                k,
                            );
                        }
                        self.cities.insert(k, c);
                        proof {
                            assert(self.model().cities =~= old(self).model().cities);
                        }
                    },
                }
            },
            None => {},
        }
    }

    /// Grow a city's population from banked food.
    fn apply_increase_population(&mut self, city_id: CityId)
        requires
            old(self).wf(),
        ensures
            final(self).model() == spec_world_increase_population(old(self).model(), city_id),
            final(self).wf(),
    {
        let k = city_id.key();
        proof {
            lemma_tb_map_get(self.cities@, |c: City| c.model(), k);
            lemma_tb_find_from(self.cities@, k, 0);
        }
        let taken = self.cities.remove(k);
        match taken {
            Some(mut c) => {
                proof {
                    lemma_tb_map_get(
                        self.civilizations@,
                        |x: Civilization| x.model(),
                        c.owner.spec_key(),
                    );
                }
                match self.civilizations.get(c.owner.key()) {
                    Some(civ) => {
                        c.increase_population_from_food(
                            &mut self.map,
                            &self.building_types,
                            &civ.tech_progress,
                        );
                        proof {
                            lemma_tb_update_bridge(old(self).cities@, |x: City| x.model(), k, c);
                            Self::lemma_cities_entry_props2(
                                old(self).cities@,
                                k,
                                c,
                                old(self).map,
                                self.map,
                            );
                            Self::lemma_units_dims(old(self).units@, old(self).map, self.map);
                        }
                        self.cities.insert(k, c);
                    },
                    None => {
                        proof {
                            lemma_tb_update_bridge(old(self).cities@, |x: City| x.model(), k, c);
                            Self::lemma_cities_entry_props2(
                                old(self).cities@,
                                k,
                                c,
                                old(self).map,
                                self.map,
                            );
                            crate::table::lemma_tb_map_wf(old(self).cities@, |x: City| x.model());
                            crate::table::lemma_tb_map_get(old(self).cities@, |x: City| x.model(), k);
                            crate::table::lemma_tb_insert_existing(
                                tb_map_values(old(self).cities@, |x: City| x.model()),
                                k,
                            );
                        }
                        self.cities.insert(k, c);
                        proof {
                            assert(self.model().cities =~= old(self).model().cities);
                        }
                    },
                }
            },
            None => {},
        }
    }

    /// Add an in-bounds tile to a city's territory.
    fn apply_add_territory(&mut self, city_id: CityId, position: TilePosition)
        requires
            old(self).wf(),
        ensures
            final(self).model() == spec_world_add_territory(old(self).model(), city_id, position),
            final(self).wf(),
    {
        if !self.map.has_tile(position) {
            return ;
        }
        let k = city_id.key();
        proof {
            lemma_tb_map_get(self.cities@, |c: City| c.model(), k);
            lemma_tb_find_from(self.cities@, k, 0);
        }
        let taken = self.cities.remove(k);
        match taken {
            Some(mut c) => {
                proof {
                    lemma_tb_map_get(
                        self.civilizations@,
                        |x: Civilization| x.model(),
                        c.owner.spec_key(),
                    );
                }
                match self.civilizations.get(c.owner.key()) {
                    Some(civ) => {
                        c.grow_territory(
                            position,
                            &mut self.map,
                            &self.building_types,
                            &civ.tech_progress,
                        );
                        proof {
                            lemma_tb_update_bridge(old(self).cities@, |x: City| x.model(), k, c);
                            Self::lemma_cities_entry_props2(
                                old(self).cities@,
                                k,
                                c,
                                old(self).map,
                                self.map,
                            );
                            Self::lemma_units_dims(old(self).units@, old(self).map, self.map);
                        }
                        self.cities.insert(k, c);
                    },
                    None => {
                        proof {
                            lemma_tb_update_bridge(old(self).cities@, |x: City| x.model(), k, c);
                            Self::lemma_cities_entry_props2(
                                old(self).cities@,
                                k,
                                c,
                                old(self).map,
                                self.map,
                            );
                            crate::table::lemma_tb_map_wf(old(self).cities@, |x: City| x.model());
                            crate::table::lemma_tb_map_get(old(self).cities@, |x: City| x.model(), k);
                            crate::table::lemma_tb_insert_existing(
                                tb_map_values(old(self).cities@, |x: City| x.model()),
                                k,
                            );
                        }
                        self.cities.insert(k, c);
                        proof {
                            assert(self.model().cities =~= old(self).model().cities);
                        }
                    },
                }
            },
            None => {},
        }
    }

    /// Force a template into the invariants units rely on.
    fn normalize_template(template: &UnitTemplate) -> (r: UnitTemplate)
        ensures
            r.model() == spec_normalize_template(template.model()),
            r.wf(),
    {
        let movement: MapUnit = if template.movement < 0 {
            0
        } else if template.movement > MAX_MAP_DIM {
            MAX_MAP_DIM
        } else {
            template.movement
        };
        let cost: YieldValue = if template.production_cost.0 > crate::yields::YIELD_VALUE_MAX {
            YieldValue(crate::yields::YIELD_VALUE_MAX)
        } else {
            template.production_cost
        };
        UnitTemplate {
            id: template.id,
            unit_type: template.unit_type,
            name: template.name.clone(),
            movement,
            abilities: template.abilities,
            production_cost: cost,
            initial_charges: template.initial_charges,
        }
    }

    /// Move one unit and rebind its movement budget.
    pub fn apply_event_move_unit(
        &mut self,
        unit_id: UnitId,
        position: TilePosition,
        remaining_movement: MapUnit,
    )
        requires
            old(self).wf(),
        ensures
            final(self).model() == spec_world_move_unit(
                old(self).model(),
                unit_id,
                position,
                remaining_movement,
            ),
            final(self).wf(),
    {
        let k = unit_id.key();
        proof {
            lemma_tb_map_get(self.units@, |u: Unit| u.model(), k);
            lemma_tb_find_from(self.units@, k, 0);
        }
        if !self.map.has_tile(position) {
            return ;
        }
        let hostable = match self.units.get(k) {
            Some(u) => self.map.tile(position).unit_can_reside(u.unit_type),
            None => { return ; },
        };
        if !hostable {
            return ;
        }
        let taken = self.units.remove(k);
        match taken {
            Some(mut u) => {
                let old_tile = *self.map.tile(u.position);
                self.map.set_tile(u.position, old_tile.with_unit(u.unit_type, None));
                let new_tile = *self.map.tile(position);
                self.map.set_tile(
                    position,
                    new_tile.with_unit(u.unit_type, Some(unit_id)),
                );
                u.position = position;
                u.remaining_movement = if remaining_movement < 0 {
                    0
                } else if remaining_movement > u.total_movement {
                    u.total_movement
                } else {
                    remaining_movement
                };
                proof {
                    lemma_tb_update_bridge(old(self).units@, |x: Unit| x.model(), k, u);
                    Self::lemma_units_entry_props(old(self).units@, k, u, self.map);
                    Self::lemma_map_dims_cities(old(self), self);
                }
                self.units.insert(k, u);
            },
            None => {},
        }
    }

    /// Remove one unit from the world and its tile.
    fn apply_delete_unit(&mut self, unit_id: UnitId)
        requires
            old(self).wf(),
        ensures
            final(self).model() == spec_world_delete_unit(old(self).model(), unit_id),
            final(self).wf(),
    {
        let k = unit_id.key();
        proof {
            lemma_tb_map_get(self.units@, |u: Unit| u.model(), k);
            lemma_tb_find_from(self.units@, k, 0);
        }
        let taken = self.units.remove(k);
        match taken {
            Some(u) => {
                let old_tile = *self.map.tile(u.position);
                self.map.set_tile(u.position, old_tile.with_unit(u.unit_type, None));
                proof {
                    lemma_tb_map_remove(old(self).units@, |x: Unit| x.model(), k);
                    crate::table::lemma_tb_remove_wf(old(self).units@, k);
                    assert forall|i: int| 0 <= i < self.units@.len() implies ({
                        let e = #[trigger] self.units@[i];
                        e.0 == e.1.id.spec_key() && e.1.wf() && e.1.position.in_bounds(
                            self.map.width,
                            self.map.height,
                        )
                    }) by {
                        let f = crate::table::tb_find(old(self).units@, k);
                        if i < f {
                            assert(self.units@[i] == old(self).units@[i]);
                        } else {
                            assert(self.units@[i] == old(self).units@[i + 1]);
                        }
                    }
                    Self::lemma_map_dims_cities(old(self), self);
                }
            },
            None => {},
        }
    }

    /// Rebind one city's production slot.
    fn apply_set_producing(&mut self, city_id: CityId, producing: &Option<ProducingItemId>)
        requires
            old(self).wf(),
        ensures
            final(self).model() == spec_world_set_producing(
                old(self).model(),
                city_id,
                match producing {
                    Some(p) => Some(p.model()),
                    None => None,
                },
            ),
            final(self).wf(),
    {
        let k = city_id.key();
        proof {
            lemma_tb_map_get(self.cities@, |c: City| c.model(), k);
            lemma_tb_find_from(self.cities@, k, 0);
        }
        let taken = self.cities.remove(k);
        match taken {
            Some(mut c) => {
                let p: Option<(ProducingItem, YieldValue)> = match producing {
                    None => None,
                    Some(ProducingItemId::Unit(t)) => Some(
                        (ProducingItem::Unit(Self::normalize_template(t)), YieldValue(0)),
                    ),
                    Some(ProducingItemId::Building(id)) => {
                        proof {
                            lemma_tb_map_get(
                                self.building_types.table@,
                                |b: BuildingType| b.model(),
                                id.spec_key(),
                            );
                            lemma_tb_find_from(self.building_types.table@, id.spec_key(), 0);
                        }
                        match self.building_types.get(*id) {
                            Some(b) => Some((ProducingItem::Building(b.duplicate()), YieldValue(0))),
                            None => None,
                        }
                    },
                };
                c.producing = p;
                proof {
                    lemma_tb_update_bridge(old(self).cities@, |x: City| x.model(), k, c);
                    Self::lemma_cities_entry_props2(old(self).cities@, k, c, old(self).map, self.map);
                }
                self.cities.insert(k, c);
            },
            None => {},
        }
    }

    /// Mint a unit from a template onto a tile that can host it.
    pub fn apply_new_unit(
        &mut self,
        template: &UnitTemplate,
        owner: CivilizationId,
        position: TilePosition,
        unit_id: UnitId,
    )
        requires
            old(self).wf(),
        ensures
            final(self).model() == spec_world_new_unit(
                old(self).model(),
                template.model(),
                owner,
                position,
                unit_id,
            ),
            final(self).wf(),
    {
        let t = Self::normalize_template(template);
        let k = unit_id.key();
        proof {
            lemma_tb_map_get(self.units@, |u: Unit| u.model(), k);
            lemma_tb_find_from(self.units@, k, 0);
            lemma_tb_map_find_from(self.units@, |u: Unit| u.model(), k, 0);
        }
        if !self.map.has_tile(position) {
            return ;
        }
        if self.units.contains_key(k) {
            return ;
        }
        let tile = *self.map.tile(position);
        if !tile.unit_can_reside(t.unit_type) {
            return ;
        }
        let mut u = Unit::new(&t, unit_id, owner, position);
        u.on_turn_start();
        self.map.set_tile(position, tile.with_unit(t.unit_type, Some(unit_id)));
        proof {
            lemma_tb_map_insert(old(self).units@, |x: Unit| x.model(), k, u);
            crate::table::lemma_tb_insert_all(
                old(self).units@,
                k,
                u,
                |e: (u64, Unit)|
                    e.0 == e.1.id.spec_key() && e.1.wf() && e.1.position.in_bounds(
                        self.map.width,
                        self.map.height,
                    ),
            );
            Self::lemma_map_dims_cities(old(self), self);
        }
        self.units.insert(k, u);
    }

    /// Unit tables keep their properties when the map keeps its
    /// dimensions and the cities' territory markers.
    proof fn lemma_map_dims_cities(before: &GameWorld, after: &GameWorld)
        requires
            before.wf(),
            after.map.wf(),
            after.map.width == before.map.width,
            after.map.height == before.map.height,
            after.cities@ == before.cities@,
        ensures
            tb_wf(after.cities@),
            forall|i: int|
                0 <= i < after.cities@.len() ==> ({
                    let e = #[trigger] after.cities@[i];
                    e.0 == e.1.id.spec_key() && e.1.wf() && e.1.territory_in_bounds(
                        after.map.model(),
                    ) && e.1.position.in_bounds(after.map.width, after.map.height)
                }),
            forall|i: int|
                0 <= i < before.units@.len() ==> ({
                    let e = #[trigger] before.units@[i];
                    e.1.position.in_bounds(after.map.width, after.map.height)
                }),
    {
        assert forall|i: int| 0 <= i < after.cities@.len() implies ({
            let e = #[trigger] after.cities@[i];
            e.0 == e.1.id.spec_key() && e.1.wf() && e.1.territory_in_bounds(after.map.model())
                && e.1.position.in_bounds(after.map.width, after.map.height)
        }) by {
            assert(before.cities@[i] == after.cities@[i]);
            assert(before.cities@[i].1.territory_in_bounds(before.map.model()));
            assert forall|j: int|
                0 <= j < after.cities@[i].1.territory@.len() implies (
            #[trigger] after.cities@[i].1.territory@[j]).1.0.in_bounds(
                after.map.width,
                after.map.height,
            ) by {
                assert(after.cities@[i].1.territory@[j].1.0.in_bounds(
                    before.map.width,
                    before.map.height,
                ));
            }
        }
    }

    /// Rebind one player's ready flag.
    fn apply_set_player_ready(&mut self, player_id: PlayerId, ready: bool)
        requires
            old(self).wf(),
        ensures
            final(self).model() == spec_world_set_player_ready(old(self).model(), player_id, ready),
            final(self).wf(),
    {
        let k = player_id.key();
        proof {
            lemma_tb_map_get(self.players@, |p: Player| p.model(), k);
            lemma_tb_find_from(self.players@, k, 0);
        }
        let taken = self.players.remove(k);
        match taken {
            Some(mut p) => {
                p.ready = ready;
                proof {
                    lemma_tb_update_bridge(old(self).players@, |x: Player| x.model(), k, p);
                }
                self.players.insert(k, p);
                proof {
                    crate::table::lemma_tb_insert_all(
                        tb_remove(old(self).players@, k),
                        k,
                        p,
                        |e: (u64, Player)| e.0 == e.1.id.spec_key(),
                    );
                    assert forall|j: int|
                        0 <= j < tb_remove(old(self).players@, k).len() implies ({
                        let e = #[trigger] tb_remove(old(self).players@, k)[j];
                        e.0 == e.1.id.spec_key()
                    }) by {
                        let f = crate::table::tb_find(old(self).players@, k);
                        if j < f {
                            assert(tb_remove(old(self).players@, k)[j] == old(self).players@[j]);
                        } else {
                            assert(tb_remove(old(self).players@, k)[j] == old(self).players@[j + 1]);
                        }
                    }
                }
            },
            None => {},
        }
    }

    /// Rebind one unit's sleep flag.
    fn apply_set_sleeping(&mut self, unit_id: UnitId, sleeping: bool)
        requires
            old(self).wf(),
        ensures
            final(self).model() == spec_world_set_sleeping(old(self).model(), unit_id, sleeping),
            final(self).wf(),
    {
        let k = unit_id.key();
        proof {
            lemma_tb_map_get(self.units@, |u: Unit| u.model(), k);
            lemma_tb_find_from(self.units@, k, 0);
        }
        let taken = self.units.remove(k);
        match taken {
            Some(mut u) => {
                u.sleeping = sleeping;
                proof {
                    lemma_tb_update_bridge(old(self).units@, |x: Unit| x.model(), k, u);
                    Self::lemma_units_entry_props(old(self).units@, k, u, old(self).map);
                }
                self.units.insert(k, u);
            },
            None => {},
        }
    }

    /// Spend all of one unit's movement.
    fn apply_deplete_movement(&mut self, unit_id: UnitId)
        requires
            old(self).wf(),
        ensures
            final(self).model() == spec_world_deplete_movement(old(self).model(), unit_id),
            final(self).wf(),
    {
        let k = unit_id.key();
        proof {
            lemma_tb_map_get(self.units@, |u: Unit| u.model(), k);
            lemma_tb_find_from(self.units@, k, 0);
        }
        let taken = self.units.remove(k);
        match taken {
            Some(mut u) => {
                u.remaining_movement = 0;
                proof {
                    lemma_tb_update_bridge(old(self).units@, |x: Unit| x.model(), k, u);
                    Self::lemma_units_entry_props(old(self).units@, k, u, old(self).map);
                }
                self.units.insert(k, u);
            },
            None => {},
        }
    }

    /// Spend one of a unit's charges.
    fn apply_use_charge(&mut self, unit_id: UnitId)
        requires
            old(self).wf(),
        ensures
            final(self).model() == spec_world_use_charge(old(self).model(), unit_id),
            final(self).wf(),
    {
        let k = unit_id.key();
        proof {
            lemma_tb_map_get(self.units@, |u: Unit| u.model(), k);
            lemma_tb_find_from(self.units@, k, 0);
        }
        let has_charge = match self.units.get(k) {
            Some(u) => match u.charges {
                Some((current, _)) => current > 0,
                None => false,
            },
            None => false,
        };
        if !has_charge {
            return ;
        }
        let taken = self.units.remove(k);
        match taken {
            Some(mut u) => {
                u.use_charge();
                proof {
                    lemma_tb_update_bridge(old(self).units@, |x: Unit| x.model(), k, u);
                    Self::lemma_units_entry_props(old(self).units@, k, u, old(self).map);
                }
                self.units.insert(k, u);
            },
            None => {},
        }
    }

    /// Rename one city.
    fn apply_rename_city(&mut self, city_id: CityId, name: String)
        requires
            old(self).wf(),
        ensures
            final(self).model() == spec_world_rename_city(old(self).model(), city_id, name@),
            final(self).wf(),
    {
        let k = city_id.key();
        proof {
            lemma_tb_map_get(self.cities@, |c: City| c.model(), k);
            lemma_tb_find_from(self.cities@, k, 0);
        }
        let taken = self.cities.remove(k);
        match taken {
            Some(mut c) => {
                c.name = name;
                proof {
                    lemma_tb_update_bridge(old(self).cities@, |x: City| x.model(), k, c);
                    Self::lemma_cities_entry_props2(old(self).cities@, k, c, old(self).map, self.map);
                }
                self.cities.insert(k, c);
            },
            None => {},
        }
    }

    /// Mark one tile harvested.
    fn apply_harvest(&mut self, position: TilePosition)
        requires
            old(self).wf(),
        ensures
            final(self).model() == spec_world_harvest(old(self).model(), position),
            final(self).wf(),
    {
        if self.map.has_tile(position) {
            let t = *self.map.tile(position);
            self.map.set_tile(position, crate::tile::Tile { harvested: true, ..t });
            proof {
                Self::lemma_tile_update_preserves_bounds(old(self), self);
            }
        }
    }

    /// Rebind one civilization's research slot.
    fn apply_set_research(&mut self, civilization_id: CivilizationId, tech_id: TechId)
        requires
            old(self).wf(),
        ensures
            final(self).model() == spec_world_set_research(old(self).model(), civilization_id, tech_id),
            final(self).wf(),
    {
        let k = civilization_id.key();
        proof {
            lemma_tb_map_get(self.civilizations@, |c: Civilization| c.model(), k);
            lemma_tb_find_from(self.civilizations@, k, 0);
        }
        let taken = self.civilizations.remove(k);
        match taken {
            Some(mut c) => {
                c.tech_progress.set_researching(Some(tech_id));
                proof {
                    lemma_tb_update_bridge(old(self).civilizations@, |x: Civilization| x.model(), k, c);
                    Self::lemma_civs_entry_props(old(self).civilizations@, k, c);
                }
                self.civilizations.insert(k, c);
            },
            None => {},
        }
    }

    /// Complete one civilization's research.
    fn apply_finish_research(&mut self, civilization_id: CivilizationId)
        requires
            old(self).wf(),
        ensures
            final(self).model() == spec_world_finish_research(old(self).model(), civilization_id),
            final(self).wf(),
    {
        let k = civilization_id.key();
        proof {
            lemma_tb_map_get(self.civilizations@, |c: Civilization| c.model(), k);
            lemma_tb_find_from(self.civilizations@, k, 0);
        }
        let taken = self.civilizations.remove(k);
        match taken {
            Some(mut c) => {
                c.tech_progress.finish_research(&self.tech_tree);
                proof {
                    lemma_tb_update_bridge(old(self).civilizations@, |x: Civilization| x.model(), k, c);
                    Self::lemma_civs_entry_props(old(self).civilizations@, k, c);
                }
                self.civilizations.insert(k, c);
            },
            None => {},
        }
    }

    /// Entries of a unit table keep their key/id/bounds properties after
    /// an overwrite with a unit that keeps them.
    proof fn lemma_units_entry_props(s: Seq<(u64, Unit)>, k: u64, u: Unit, map: GameMap)
        requires
            tb_wf(s),
            forall|i: int|
                0 <= i < s.len() ==> (#[trigger] s[i]).0 == s[i].1.id.spec_key() && s[i].1.wf()
                    && s[i].1.position.in_bounds(map.width, map.height),
            k == u.id.spec_key(),
            u.wf(),
            u.position.in_bounds(map.width, map.height),
        ensures
            forall|i: int|
                0 <= i < tb_insert(tb_remove(s, k), k, u).len() ==> ({
                    let e = #[trigger] tb_insert(tb_remove(s, k), k, u)[i];
                    e.0 == e.1.id.spec_key() && e.1.wf() && e.1.position.in_bounds(
                        map.width,
                        map.height,
                    )
                }),
    {
        lemma_tb_find_from(s, k, 0);
        crate::table::lemma_tb_remove_wf(s, k);
        assert forall|i: int| 0 <= i < tb_remove(s, k).len() implies ({
            let e = #[trigger] tb_remove(s, k)[i];
            e.0 == e.1.id.spec_key() && e.1.wf() && e.1.position.in_bounds(map.width, map.height)
        }) by {
            let f = crate::table::tb_find(s, k);
            if f >= 0 {
                if i < f {
                    assert(tb_remove(s, k)[i] == s[i]);
                } else {
                    assert(tb_remove(s, k)[i] == s[i + 1]);
                }
            }
        }
        crate::table::lemma_tb_insert_all(
            tb_remove(s, k),
            k,
            u,
            |e: (u64, Unit)|
                e.0 == e.1.id.spec_key() && e.1.wf() && e.1.position.in_bounds(
                    map.width,
                    map.height,
                ),
        );
    }

    /// Entries of a city table keep their key/id/bounds properties after
    /// an overwrite with a city that keeps them, also on a map that kept
    /// its dimensions.
    proof fn lemma_cities_entry_props2(
        s: Seq<(u64, City)>,
        k: u64,
        c: City,
        old_map: GameMap,
        new_map: GameMap,
    )
        requires
            tb_wf(s),
            forall|i: int|
                0 <= i < s.len() ==> (#[trigger] s[i]).0 == s[i].1.id.spec_key() && s[i].1.wf()
                    && s[i].1.territory_in_bounds(old_map.model()) && s[i].1.position.in_bounds(
                    old_map.width,
                    old_map.height,
                ),
            new_map.width == old_map.width,
            new_map.height == old_map.height,
            k == c.id.spec_key(),
            c.wf(),
            c.territory_in_bounds(new_map.model()),
            c.position.in_bounds(new_map.width, new_map.height),
        ensures
            forall|i: int|
                0 <= i < tb_insert(tb_remove(s, k), k, c).len() ==> ({
                    let e = #[trigger] tb_insert(tb_remove(s, k), k, c)[i];
                    e.0 == e.1.id.spec_key() && e.1.wf() && e.1.territory_in_bounds(
                        new_map.model(),
                    ) && e.1.position.in_bounds(new_map.width, new_map.height)
                }),
    {
        lemma_tb_find_from(s, k, 0);
        assert forall|i: int| 0 <= i < tb_remove(s, k).len() implies ({
            let e = #[trigger] tb_remove(s, k)[i];
            e.0 == e.1.id.spec_key() && e.1.wf() && e.1.territory_in_bounds(new_map.model())
                && e.1.position.in_bounds(new_map.width, new_map.height)
        }) by {
            let f = crate::table::tb_find(s, k);
            let e = if f >= 0 && i >= f {
                s[i + 1]
            } else {
                s[i]
            };
            assert(tb_remove(s, k)[i] == e);
            assert(e.1.territory_in_bounds(old_map.model()));
            assert forall|j: int|
                0 <= j < e.1.territory@.len() implies (#[trigger] e.1.territory@[j]).1.0.in_bounds(
                new_map.width,
                new_map.height,
            ) by {
                assert(e.1.territory@[j].1.0.in_bounds(old_map.width, old_map.height));
            }
        }
        crate::table::lemma_tb_insert_all(
            tb_remove(s, k),
            k,
            c,
            |e: (u64, City)|
                e.0 == e.1.id.spec_key() && e.1.wf() && e.1.territory_in_bounds(new_map.model())
                    && e.1.position.in_bounds(new_map.width, new_map.height),
        );
    }

    /// Entries of a civilization table keep their key/id properties after
    /// an overwrite with a civilization that keeps them.
    proof fn lemma_civs_entry_props(s: Seq<(u64, Civilization)>, k: u64, c: Civilization)
        requires
            tb_wf(s),
            forall|i: int|
                0 <= i < s.len() ==> (#[trigger] s[i]).0 == s[i].1.id.spec_key() && s[i].1.wf(),
            k == c.id.spec_key(),
            c.wf(),
        ensures
            forall|i: int|
                0 <= i < tb_insert(tb_remove(s, k), k, c).len() ==> ({
                    let e = #[trigger] tb_insert(tb_remove(s, k), k, c)[i];
                    e.0 == e.1.id.spec_key() && e.1.wf()
                }),
    {
        lemma_tb_find_from(s, k, 0);
        assert forall|i: int| 0 <= i < tb_remove(s, k).len() implies ({
            let e = #[trigger] tb_remove(s, k)[i];
            e.0 == e.1.id.spec_key() && e.1.wf()
        }) by {
            let f = crate::table::tb_find(s, k);
            if f >= 0 {
                if i < f {
                    assert(tb_remove(s, k)[i] == s[i]);
                } else {
                    assert(tb_remove(s, k)[i] == s[i + 1]);
                }
            }
        }
        crate::table::lemma_tb_insert_all(
            tb_remove(s, k),
            k,
            c,
            |e: (u64, Civilization)| e.0 == e.1.id.spec_key() && e.1.wf(),
        );
    }

    /// One turn's science of one civilization: the sum of the science
    /// yields of its cities, in city id order.
    pub fn civilization_science_yield(&self, civ_id: CivilizationId) -> (r: Yield)
        ensures
            r.yield_type == YieldType::Science,
            r.value.0 == spec_civ_science(self.model().cities, civ_id, 0, 0),
    {
        let ghost cities_model = self.model().cities;
        let mut sum = YieldValue(0);
        let mut i: usize = 0;
        while i < self.cities.entries.len()
            invariant
                0 <= i <= cities_model.len(),
                cities_model == self.model().cities,
                spec_civ_science(cities_model, civ_id, i as int, sum.0) == spec_civ_science(
                    cities_model,
                    civ_id,
                    0,
                    0,
                ),
            decreases cities_model.len() - i,
        {
            let c = &self.cities.entries[i].1;
            proof {
                assert(cities_model[i as int].1 == c.model());
            }
            if c.owner.0 == civ_id.0 {
                proof {
                    assert(cities_model[i as int].1.owner == civ_id);
                }
                sum = sum.add(c.yields.science);
            }
            i += 1;
        }
        Yield { value: sum, yield_type: YieldType::Science }
    }

    /// One city's turn start, by key.
    fn turn_start_city(&mut self, k: u64)
        requires
            old(self).wf(),
        ensures
            final(self).model() == spec_city_turn_step(old(self).model(), k),
            final(self).wf(),
            final(self).cities@.len() == old(self).cities@.len(),
            final(self).units@ == old(self).units@,
            final(self).civilizations@ == old(self).civilizations@,
            final(self).players@ == old(self).players@,
    {
        proof {
            lemma_tb_map_get(self.cities@, |c: City| c.model(), k);
            lemma_tb_find_from(self.cities@, k, 0);
        }
        let taken = self.cities.remove(k);
        match taken {
            Some(mut c) => {
                proof {
                    lemma_tb_map_get(
                        self.civilizations@,
                        |x: Civilization| x.model(),
                        c.owner.spec_key(),
                    );
                }
                match self.civilizations.get(c.owner.key()) {
                    Some(civ) => {
                        c.on_turn_start(&mut self.map, &self.building_types, &civ.tech_progress);
                        proof {
                            lemma_tb_update_bridge(old(self).cities@, |x: City| x.model(), k, c);
                            Self::lemma_cities_entry_props2(
                                old(self).cities@,
                                k,
                                c,
                                old(self).map,
                                self.map,
                            );
                            Self::lemma_units_dims(old(self).units@, old(self).map, self.map);
                            lemma_tb_find_from(old(self).cities@, k, 0);
                        }
                        self.cities.insert(k, c);
                    },
                    None => {
                        proof {
                            lemma_tb_update_bridge(old(self).cities@, |x: City| x.model(), k, c);
                            Self::lemma_cities_entry_props2(
                                old(self).cities@,
                                k,
                                c,
                                old(self).map,
                                self.map,
                            );
                            crate::table::lemma_tb_map_wf(old(self).cities@, |x: City| x.model());
                            crate::table::lemma_tb_map_get(old(self).cities@, |x: City| x.model(), k);
                            crate::table::lemma_tb_insert_existing(
                                tb_map_values(old(self).cities@, |x: City| x.model()),
                                k,
                            );
                            lemma_tb_find_from(old(self).cities@, k, 0);
                        }
                        self.cities.insert(k, c);
                        proof {
                            assert(self.model().cities =~= old(self).model().cities);
                        }
                    },
                }
            },
            None => {},
        }
    }

    /// One civilization's turn start, by key: bank one turn's science.
    fn turn_start_civ(&mut self, k: u64)
        requires
            old(self).wf(),
        ensures
            final(self).model() == spec_civ_turn_step(old(self).model(), k),
            final(self).wf(),
            final(self).civilizations@.len() == old(self).civilizations@.len(),
            final(self).cities@ == old(self).cities@,
            final(self).units@ == old(self).units@,
            final(self).players@ == old(self).players@,
            final(self).map == old(self).map,
    {
        proof {
            lemma_tb_map_get(self.civilizations@, |x: Civilization| x.model(), k);
            lemma_tb_find_from(self.civilizations@, k, 0);
        }
        let civ_id = match self.civilizations.get(k) {
            Some(civ) => civ.id,
            None => { return ; },
        };
        let science = self.civilization_science_yield(civ_id).value;
        let taken = self.civilizations.remove(k);
        match taken {
            Some(mut civ) => {
                civ.tech_progress.on_turn_start(science);
                proof {
                    lemma_tb_update_bridge(
                        old(self).civilizations@,
                        |x: Civilization| x.model(),
                        k,
                        civ,
                    );
                    Self::lemma_civs_entry_props(old(self).civilizations@, k, civ);
                    lemma_tb_find_from(old(self).civilizations@, k, 0);
                }
                self.civilizations.insert(k, civ);
            },
            None => {},
        }
    }

    /// Run the turn start for every city (in id order), refresh every
    /// unit's movement, and bank every civilization's science.
    fn on_turn_start(&mut self)
        requires
            old(self).wf(),
        ensures
            final(self).model() == spec_world_on_turn_start(old(self).model()),
            final(self).wf(),
    {
        let ghost target = spec_cities_turn_start(old(self).model(), 0);
        let cities_len = self.cities.len();
        let mut i: usize = 0;
        while i < cities_len
            invariant
                0 <= i <= cities_len,
                self.wf(),
                self.cities@.len() == cities_len,
                spec_cities_turn_start(self.model(), i as int) == target,
            decreases cities_len - i,
        {
            let k = self.cities.entries[i].0;
            proof {
                assert(self.model().cities[i as int].0 == k);
            }
            self.turn_start_city(k);
            i += 1;
        }
        let ghost after_cities = self.model();
        let units_len = self.units.len();
        let mut j: usize = 0;
        while j < units_len
            invariant
                0 <= j <= units_len,
                self.wf(),
                self.units@.len() == units_len,
                self.model() == (GameWorldModel { units: self.model().units, ..after_cities }),
                after_cities.units.len() == units_len,
                forall|m: int|
                    j <= m < units_len ==> self.model().units[m] == after_cities.units[m],
                forall|m: int|
                    0 <= m < j ==> self.model().units[m] == (#[trigger] spec_units_refreshed(
                        after_cities.units,
                    )[m]),
            decreases units_len - j,
        {
            let ghost prev_units = self.units@;
            let (k, u2) = {
                let e = &self.units.entries[j];
                let mut u2 = e.1.duplicate();
                u2.on_turn_start();
                (e.0, u2)
            };
            proof {
                assert(prev_units[j as int].1.model() == self.model().units[j as int].1);
            }
            self.units.set_value_at(j, u2);
            proof {
                assert forall|a: int|
                    0 <= a < self.units@.len() implies ({
                    let e = #[trigger] self.units@[a];
                    e.0 == e.1.id.spec_key() && e.1.wf() && e.1.position.in_bounds(
                        self.map.width,
                        self.map.height,
                    )
                }) by {
                    if a != j {
                        assert(self.units@[a] == prev_units[a]);
                    }
                }
                assert forall|a: int, b: int|
                    0 <= a < b < self.units@.len() implies (#[trigger] self.units@[a]).0 < (
                #[trigger] self.units@[b]).0 by {
                    assert(self.units@[a].0 == prev_units[a].0 && self.units@[b].0
                        == prev_units[b].0);
                }
            }
            j += 1;
        }
        proof {
            assert(self.model().units =~= spec_units_refreshed(after_cities.units));
        }
        let ghost after_units = self.model();
        proof {
            assert(after_units == (GameWorldModel {
                units: spec_units_refreshed(after_cities.units),
                ..after_cities
            }));
        }
        let civs_len = self.civilizations.len();
        let mut n: usize = 0;
        while n < civs_len
            invariant
                0 <= n <= civs_len,
                self.wf(),
                self.civilizations@.len() == civs_len,
                spec_civs_turn_start(self.model(), n as int) == spec_civs_turn_start(
                    after_units,
                    0,
                ),
            decreases civs_len - n,
        {
            let k = self.civilizations.entries[n].0;
            proof {
                assert(self.model().civilizations[n as int].0 == k);
            }
            self.turn_start_civ(k);
            n += 1;
        }
    }

    /// Apply one event: the sole way world state ever changes. Total:
    /// an event that names a missing entity or an impossible placement
    /// changes nothing.
    #[verifier::rlimit(80)]
    pub fn apply_event(&mut self, event_type: &GameEventType)
        requires
            old(self).wf(),
        ensures
            final(self).model() == spec_apply_event(old(self).model(), event_type.model()),
            final(self).wf(),
    {
        match event_type {
            GameEventType::NextTurn => {
                if self.turn < u16::MAX {
                    self.turn = self.turn + 1;
                }
                self.on_turn_start();
                let players_len = self.players.len();
                let ghost after_turn = self.model();
                let mut i: usize = 0;
                while i < players_len
                    invariant
                        0 <= i <= players_len,
                        self.wf(),
                        self.players@.len() == players_len,
                        after_turn.players.len() == players_len,
                        self.model() == (GameWorldModel {
                            players: self.model().players,
                            ..after_turn
                        }),
                        forall|m: int|
                            i <= m < players_len ==> self.model().players[m]
                                == after_turn.players[m],
                        forall|m: int|
                            0 <= m < i ==> self.model().players[m] == (
                            #[trigger] spec_players_unready(after_turn.players)[m]),
                    decreases players_len - i,
                {
                    let ghost prev_players = self.players@;
                    let p2 = {
                        let e = &self.players.entries[i];
                        let mut p2 = e.1.duplicate();
                        p2.ready = false;
                        p2
                    };
                    proof {
                        assert(prev_players[i as int].1.model() == self.model().players[i as int].1);
                    }
                    self.players.set_value_at(i, p2);
                    proof {
                        assert forall|a: int|
                            0 <= a < self.players@.len() implies ({
                            let e = #[trigger] self.players@[a];
                            e.0 == e.1.id.spec_key()
                        }) by {
                            if a != i {
                                assert(self.players@[a] == prev_players[a]);
                            }
                        }
                        assert forall|a: int, b: int|
                            0 <= a < b < self.players@.len() implies (
                        #[trigger] self.players@[a]).0 < (#[trigger] self.players@[b]).0 by {
                            assert(self.players@[a].0 == prev_players[a].0 && self.players@[b].0
                                == prev_players[b].0);
                        }
                    }
                    i += 1;
                }
                proof {
                    assert(self.model().players =~= spec_players_unready(after_turn.players));
                }
            },
            GameEventType::MoveUnit { unit_id, position, remaining_movement } => {
                self.apply_event_move_unit(*unit_id, *position, *remaining_movement);
            },
            GameEventType::DeleteUnit { unit_id } => {
                self.apply_delete_unit(*unit_id);
            },
            GameEventType::FoundCity { position, owner } => {
                self.new_city(*owner, *position);
            },
            GameEventType::RenameCity { city_id, name } => {
                self.apply_rename_city(*city_id, name.clone());
            },
            GameEventType::SetPlayerReady { player_id, ready } => {
                self.apply_set_player_ready(*player_id, *ready);
            },
            GameEventType::SetProducing { city_id, producing } => {
                self.apply_set_producing(*city_id, producing);
            },
            GameEventType::NewUnit { template, owner, position, unit_id } => {
                self.apply_new_unit(template, *owner, *position, *unit_id);
            },
            GameEventType::NewBuilding { building_type_id, city_id } => {
                self.apply_new_building(*city_id, *building_type_id);
            },
            GameEventType::Crash { .. } => {
            },
            GameEventType::SetSleeping { unit_id, sleeping } => {
                self.apply_set_sleeping(*unit_id, *sleeping);
            },
            GameEventType::SetCitizenLocked { city_id, position, locked } => {
                self.apply_set_citizen_locked(*city_id, *position, *locked);
            },
            GameEventType::IncreasePopulationFromFood { city_id } => {
                self.apply_increase_population(*city_id);
            },
            GameEventType::AddTerritoryToCity { city_id, position } => {
                self.apply_add_territory(*city_id, *position);
            },
            GameEventType::Harvest { position } => {
                self.apply_harvest(*position);
            },
            GameEventType::DepleteMovement { unit_id } => {
                self.apply_deplete_movement(*unit_id);
            },
            GameEventType::UseCharge { unit_id } => {
                self.apply_use_charge(*unit_id);
            },
            GameEventType::FinishResearch { civilization_id } => {
                self.apply_finish_research(*civilization_id);
            },
            GameEventType::SetResearch { civilization_id, tech_id } => {
                self.apply_set_research(*civilization_id, *tech_id);
            },
        }
    }

    /// Apply one event and hand it back, for collecting into a batch.
    pub fn apply_event_move(&mut self, event: GameEventType) -> (r: GameEventType)
        requires
            old(self).wf(),
        ensures
            final(self).model() == spec_apply_event(old(self).model(), event.model()),
            final(self).wf(),
            r.model() == event.model(),
    {
        self.apply_event(&event);
        event
    }

    /// Apply a batch of events, in order.
    pub fn apply_events(&mut self, events: &Vec<GameEventType>)
        requires
            old(self).wf(),
        ensures
            final(self).model() == spec_apply_events(
                old(self).model(),
                events@.map_values(|e: GameEventType| e.model()),
                0,
            ),
            final(self).wf(),
    {
        let ghost models = events@.map_values(|e: GameEventType| e.model());
        let mut i: usize = 0;
        while i < events.len()
            invariant
                0 <= i <= models.len(),
                models == events@.map_values(|e: GameEventType| e.model()),
                self.wf(),
                spec_apply_events(self.model(), models, i as int) == spec_apply_events(
                    old(self).model(),
                    models,
                    0,
                ),
            decreases models.len() - i,
        {
            proof {
                assert(models[i as int] == events@[i as int].model());
            }
            self.apply_event(&events[i]);
            i += 1;
        }
    }

    /// Enter the first turn; only meaningful on a freshly generated
    /// world, before any turn has run.
    pub fn start(&mut self)
        requires
            old(self).wf(),
        ensures
            final(self).model() == spec_world_start(old(self).model()),
            final(self).wf(),
    {
        if self.turn != 0 {
            return ;
        }
        self.turn = 1;
        self.on_turn_start();
    }

    /// Mint a civilization for a joining player and enroll both.
    fn new_civilization(&mut self, init_player: &InitPlayer)
        requires
            old(self).wf(),
        ensures
            final(self).model() == spec_world_new_civilization(
                old(self).model(),
                init_player.id,
                init_player.name@,
            ),
            final(self).wf(),
    {
        let civilization_id = self.civilization_id_generator.next();
        let civilization = Civilization::new(
            civilization_id,
            init_player.name.clone(),
            &self.tech_tree,
        );
        proof {
            lemma_tb_map_insert(
                old(self).civilizations@,
                |x: Civilization| x.model(),
                civilization_id.spec_key(),
                civilization,
            );
            crate::table::lemma_tb_insert_all(
                old(self).civilizations@,
                civilization_id.spec_key(),
                civilization,
                |e: (u64, Civilization)| e.0 == e.1.id.spec_key() && e.1.wf(),
            );
        }
        self.civilizations.insert(civilization_id.key(), civilization);
        let player = Player::new(init_player.id, init_player.name.clone(), civilization_id);
        proof {
            lemma_tb_map_insert(
                self.players@,
                |x: Player| x.model(),
                init_player.id.spec_key(),
                player,
            );
            crate::table::lemma_tb_insert_all(
                self.players@,
                init_player.id.spec_key(),
                player,
                |e: (u64, Player)| e.0 == e.1.id.spec_key(),
            );
        }
        self.players.insert(init_player.id.key(), player);
    }

    /// A fresh world: a blank map of the given size, the standard
    /// catalogs and tech tree, and one civilization per joining player.
    pub fn new(width: MapUnit, height: MapUnit, init_players: &Vec<InitPlayer>) -> (r: GameWorld)
        requires
            0 <= width <= MAX_MAP_DIM,
            0 <= height <= MAX_MAP_DIM,
        ensures
            r.model() == spec_world_new(
                width,
                height,
                init_players@.map_values(|p: InitPlayer| (p.id, p.name@)),
            ),
            r.wf(),
    {
        let building_types = BuildingTypes::new();
        let unit_templates = UnitTemplates::new();
        let tech_tree = TechTree::generate(&building_types, &unit_templates);
        let mut game = GameWorld {
            map: GameMap::new(width, height),
            players: Table::new(),
            units: Table::new(),
            cities: Table::new(),
            civilizations: Table::new(),
            turn: 0,
            unit_id_generator: UnitIdGenerator::new(),
            city_name_generator: CityNameGenerator::new(),
            city_id_generator: CityIdGenerator::new(),
            civilization_id_generator: CivilizationIdGenerator::new(),
            unit_templates,
            building_types,
            tech_tree,
        };
        proof {
            assert(game.model().players =~= Seq::<(u64, PlayerModel)>::empty());
            assert(game.model().units =~= Seq::<(u64, UnitModel)>::empty());
            assert(game.model().cities =~= Seq::<(u64, CityModel)>::empty());
            assert(game.model().civilizations =~= Seq::<(u64, CivilizationModel)>::empty());
            assert(game.model().unit_templates.len() == 3);
            assert(game.model().unit_templates[0].1 =~= spec_standard_template_models()[0].1);
            assert(game.model().unit_templates[1].1 =~= spec_standard_template_models()[1].1);
            assert(game.model().unit_templates[2].1 =~= spec_standard_template_models()[2].1);
            assert(game.model().unit_templates =~= spec_standard_template_models());
            assert(game.model().building_types.len() == 2);
            assert(game.model().building_types[0].1 =~~= spec_standard_building_models()[0].1);
            assert(game.model().building_types[1].1 =~~= spec_standard_building_models()[1].1);
            assert(game.model().building_types =~~= spec_standard_building_models());
            assert(game.model().tech_tree == crate::tech::spec_standard_tech_tree(
                game.model().building_types[0].1,
            ));
            assert(game.model().tech_tree == crate::tech::spec_standard_tech_tree(
                spec_standard_building_models()[0].1,
            ));
        }
        let ghost names = init_players@.map_values(|p: InitPlayer| (p.id, p.name@));
        let ghost base = game.model();
        let mut i: usize = 0;
        while i < init_players.len()
            invariant
                0 <= i <= names.len(),
                names == init_players@.map_values(|p: InitPlayer| (p.id, p.name@)),
                game.wf(),
                spec_world_join_players(game.model(), names, i as int) == spec_world_join_players(
                    base,
                    names,
                    0,
                ),
            decreases names.len() - i,
        {
            proof {
                assert(names[i as int] == (init_players@[i as int].id, init_players@[i as int].name@));
            }
            game.new_civilization(&init_players[i]);
            i += 1;
        }
        game
    }

    /// Index of the first listed position that lies in the map and can
    /// host a unit of the given type.
    fn find_spawn(map: &GameMap, list: &Vec<TilePosition>, i: usize, ut: UnitType) -> (r: Option<
        usize,
    >)
        requires
            map.wf(),
            i <= list@.len(),
        ensures
            match r {
                Some(s) => s == spec_find_spawn(map.model(), list@, i as int, ut) && s
                    < list@.len(),
                None => spec_find_spawn(map.model(), list@, i as int, ut) == -1,
            },
        decreases list@.len() - i,
    {
        if i >= list.len() {
            None
        } else {
            let p = list[i];
            if map.has_tile(p) && map.tile(p).unit_can_reside(ut) {
                Some(i)
            } else {
                Self::find_spawn(map, list, i + 1, ut)
            }
        }
    }

    /// The per-turn resolution of one city, by key.
    #[verifier::rlimit(100)]
    #[verifier::spinoff_prover]
    fn resolve_city(&mut self, k: u64) -> (r: Vec<GameEventType>)
        requires
            old(self).wf(),
        ensures
            (final(self).model(), r@.map_values(|e: GameEventType| e.model()))
                == spec_city_resolution_step(old(self).model(), k),
            final(self).wf(),
    {
        let mut evs: Vec<GameEventType> = Vec::new();
        proof {
            lemma_tb_map_get(self.cities@, |c: City| c.model(), k);
        }
        let (city_id, do_pop) = match self.cities.get(k) {
            Some(c) => (c.id, c.can_increase_population_from_food()),
            None => {
                proof {
                    assert(evs@.map_values(|e: GameEventType| e.model()) =~= Seq::<
                        GameEventTypeModel,
                    >::empty());
                }
                return evs;
            },
        };
        if do_pop {
            let e = GameEventType::IncreasePopulationFromFood { city_id };
            self.apply_event(&e);
            evs.push(e);
        }
        let ghost ev1s = evs@.map_values(|e: GameEventType| e.model());
        proof {
            if do_pop {
                assert(ev1s =~= seq![
                    GameEventTypeModel::IncreasePopulationFromFood { city_id },
                ]);
            } else {
                assert(ev1s =~= Seq::<GameEventTypeModel>::empty());
            }
            lemma_tb_map_get(self.cities@, |c: City| c.model(), k);
            lemma_tb_find_from(self.cities@, k, 0);
        }
        let grow: Option<(CityId, TilePosition)> = match self.cities.get(k) {
            Some(c1) => {
                proof {
                    let f = crate::table::tb_find(self.cities@, k);
                    assert(self.cities@[f].1.wf());
                }
                if c1.ready_to_grow_territory() {
                    match c1.next_tile_to_expand_to(&self.map) {
                        Some(pos) => Some((c1.id, pos)),
                        None => None,
                    }
                } else {
                    None
                }
            },
            None => None,
        };
        match grow {
            Some((cid, pos)) => {
                let e = GameEventType::AddTerritoryToCity { city_id: cid, position: pos };
                self.apply_event(&e);
                evs.push(e);
                proof {
                    assert(evs@.map_values(|e: GameEventType| e.model()) =~= ev1s.push(
                        GameEventTypeModel::AddTerritoryToCity { city_id: cid, position: pos },
                    ));
                }
            },
            None => {},
        }
        let ghost ev2s = evs@.map_values(|e: GameEventType| e.model());
        proof {
            lemma_tb_map_get(self.cities@, |c: City| c.model(), k);
            lemma_tb_find_from(self.cities@, k, 0);
        }
        let prod: Option<(CityId, CivilizationId, TilePosition, ProducingItem)> =
            match self.cities.get(k) {
            Some(c2) => {
                proof {
                    let f = crate::table::tb_find(self.cities@, k);
                    assert(self.cities@[f].1.wf());
                    assert(self.cities@[f].1.position.in_bounds(self.map.width, self.map.height));
                }
                match &c2.producing {
                    Some((item, spent)) => {
                        if item.production_cost().le(*spent) {
                            Some((c2.id, c2.owner, c2.position, item.duplicate()))
                        } else {
                            None
                        }
                    },
                    None => None,
                }
            },
            None => None,
        };
        match prod {
            None => {},
            Some((cid, owner, cpos, item)) => {
                match item {
                    ProducingItem::Unit(t) => {
                        let mut positions: Vec<TilePosition> = Vec::new();
                        positions.push(cpos);
                        let mut neigh = cpos.direct_neighbors(self.map.width(), self.map.height());
                        positions.append(&mut neigh);
                        proof {
                            assert(positions@ =~= seq![cpos] + cpos.spec_direct_neighbors(
                                self.map.width,
                                self.map.height,
                            ));
                        }
                        match Self::find_spawn(&self.map, &positions, 0, t.unit_type) {
                            Some(s) => {
                                let unit_id = self.unit_id_generator.next();
                                let spawn = positions[s];
                                let e3 = GameEventType::NewUnit {
                                    template: t,
                                    owner,
                                    position: spawn,
                                    unit_id,
                                };
                                self.apply_event(&e3);
                                let ghost e3m = e3.model();
                                evs.push(e3);
                                let e4 = GameEventType::SetProducing {
                                    city_id: cid,
                                    producing: None,
                                };
                                self.apply_event(&e4);
                                evs.push(e4);
                                proof {
                                    assert(evs@.map_values(|e: GameEventType| e.model())
                                        =~= ev2s.push(e3m).push(
                                        GameEventTypeModel::SetProducing {
                                            city_id: cid,
                                            producing: None,
                                        },
                                    ));
                                }
                            },
                            None => {
                                let e = GameEventType::Crash {
                                    message: "Couldn't find an empty space beside city.".to_owned(),
                                };
                                proof {
                                    assert(e.model() == (GameEventTypeModel::Crash {
                                        message: "Couldn't find an empty space beside city."@,
                                    }));
                                }
                                evs.push(e);
                                proof {
                                    assert(evs@.map_values(|x: GameEventType| x.model())
                                        =~= ev2s.push(
                                        GameEventTypeModel::Crash {
                                            message: "Couldn't find an empty space beside city."@,
                                        },
                                    ));
                                }
                            },
                        }
                    },
                    ProducingItem::Building(b) => {
                        let e3 = GameEventType::NewBuilding {
                            building_type_id: b.id,
                            city_id: cid,
                        };
                        self.apply_event(&e3);
                        evs.push(e3);
                        let e4 = GameEventType::SetProducing { city_id: cid, producing: None };
                        self.apply_event(&e4);
                        evs.push(e4);
                        proof {
                            assert(evs@.map_values(|e: GameEventType| e.model()) =~= ev2s.push(
                                GameEventTypeModel::NewBuilding {
                                    building_type_id: b.id,
                                    city_id: cid,
                                },
                            ).push(
                                GameEventTypeModel::SetProducing { city_id: cid, producing: None },
                            ));
                        }
                    },
                }
            },
        }
        evs
    }

    /// The research resolution of one civilization, by key.
    fn resolve_civ(&mut self, k: u64) -> (r: Vec<GameEventType>)
        requires
            old(self).wf(),
        ensures
            (final(self).model(), r@.map_values(|e: GameEventType| e.model()))
                == spec_civ_resolution_step(old(self).model(), k),
            final(self).wf(),
    {
        let mut evs: Vec<GameEventType> = Vec::new();
        proof {
            lemma_tb_map_get(self.civilizations@, |c: Civilization| c.model(), k);
        }
        let fin: Option<CivilizationId> = match self.civilizations.get(k) {
            Some(civ) => if civ.tech_progress.can_finish_research(&self.tech_tree) {
                Some(civ.id)
            } else {
                None
            },
            None => None,
        };
        match fin {
            Some(cid) => {
                let e = GameEventType::FinishResearch { civilization_id: cid };
                self.apply_event(&e);
                evs.push(e);
                proof {
                    assert(evs@.map_values(|e: GameEventType| e.model()) =~= seq![
                        GameEventTypeModel::FinishResearch { civilization_id: cid },
                    ]);
                }
            },
            None => {
                proof {
                    assert(evs@.map_values(|e: GameEventType| e.model()) =~= Seq::<
                        GameEventTypeModel,
                    >::empty());
                }
            },
        }
        evs
    }

    /// Resolve a full turn change: the turn-change event, every city's
    /// per-turn resolution in id order, then every civilization's
    /// research resolution. Returns the events in emission order; each
    /// was applied before the next check ran.
    pub fn next_turn(&mut self) -> (r: Vec<GameEventType>)
        requires
            old(self).wf(),
        ensures
            (final(self).model(), r@.map_values(|e: GameEventType| e.model()))
                == spec_world_next_turn(old(self).model()),
            final(self).wf(),
    {
        let e0 = GameEventType::NextTurn;
        self.apply_event(&e0);
        let ghost w1 = self.model();
        let city_keys = self.cities.keys();
        proof {
            assert(city_keys@ =~= crate::table::tb_keys(w1.cities));
        }
        let mut events: Vec<GameEventType> = Vec::new();
        proof {
            assert(events@.map_values(|e: GameEventType| e.model()) =~= Seq::<
                GameEventTypeModel,
            >::empty());
        }
        let ghost cities_target = spec_cities_resolution(
            w1,
            city_keys@,
            0,
            Seq::<GameEventTypeModel>::empty(),
        );
        let mut i: usize = 0;
        while i < city_keys.len()
            invariant
                0 <= i <= city_keys@.len(),
                self.wf(),
                spec_cities_resolution(
                    self.model(),
                    city_keys@,
                    i as int,
                    events@.map_values(|e: GameEventType| e.model()),
                ) == cities_target,
            decreases city_keys@.len() - i,
        {
            let ghost acc = events@.map_values(|e: GameEventType| e.model());
            let mut ev = self.resolve_city(city_keys[i]);
            let ghost evm = ev@.map_values(|e: GameEventType| e.model());
            events.append(&mut ev);
            proof {
                assert(events@.map_values(|e: GameEventType| e.model()) =~= acc + evm);
            }
            i += 1;
        }
        let ghost w2 = self.model();
        let civ_keys = self.civilizations.keys();
        proof {
            assert(civ_keys@ =~= crate::table::tb_keys(w2.civilizations));
        }
        let ghost civs_target = spec_civs_resolution(
            w2,
            civ_keys@,
            0,
            events@.map_values(|e: GameEventType| e.model()),
        );
        let mut n: usize = 0;
        while n < civ_keys.len()
            invariant
                0 <= n <= civ_keys@.len(),
                self.wf(),
                spec_civs_resolution(
                    self.model(),
                    civ_keys@,
                    n as int,
                    events@.map_values(|e: GameEventType| e.model()),
                ) == civs_target,
            decreases civ_keys@.len() - n,
        {
            let ghost acc = events@.map_values(|e: GameEventType| e.model());
            let mut ev = self.resolve_civ(civ_keys[n]);
            let ghost evm = ev@.map_values(|e: GameEventType| e.model());
            events.append(&mut ev);
            proof {
                assert(events@.map_values(|e: GameEventType| e.model()) =~= acc + evm);
            }
            n += 1;
        }
        let mut result: Vec<GameEventType> = Vec::new();
        result.push(GameEventType::NextTurn);
        let ghost em = events@.map_values(|e: GameEventType| e.model());
        result.append(&mut events);
        proof {
            assert(result@.map_values(|e: GameEventType| e.model()) =~= seq![
                GameEventTypeModel::NextTurn,
            ] + em);
        }
        result
    }

    /// The actor's civilization, if the actor is a known player.
    fn actor_civilization(&self, actioner_id: PlayerId) -> (r: Option<CivilizationId>)
        ensures
            match r {
                Some(cid) => tb_get(self.model().players, actioner_id.spec_key()) matches Some(p)
                    && p.civilization_id == cid,
                None => tb_get(self.model().players, actioner_id.spec_key()) is None,
            },
    {
        proof {
            lemma_tb_map_get(self.players@, |p: Player| p.model(), actioner_id.spec_key());
        }
        match self.players.get(actioner_id.key()) {
            Some(p) => Some(p.civilization_id),
            None => None,
        }
    }

    /// Whether every player has set the ready flag.
    fn all_players_ready(&self) -> (r: bool)
        ensures
            r == spec_all_players_ready(self.model().players),
    {
        let mut i: usize = 0;
        while i < self.players.entries.len()
            invariant
                0 <= i <= self.players@.len(),
                forall|j: int| 0 <= j < i ==> (#[trigger] self.model().players[j]).1.ready,
            decreases self.players@.len() - i,
        {
            if !self.players.entries[i].1.ready {
                proof {
                    assert(!self.model().players[i as int].1.ready);
                }
                return false;
            }
            i += 1;
        }
        true
    }

    /// Validate a client action against the actor's identity and the
    /// current state; emit and apply the resulting events in order. A
    /// rejected action returns no events and changes nothing.
    #[verifier::rlimit(100)]
    #[verifier::spinoff_prover]
    pub fn process_action(&mut self, action_type: &GameActionType, actioner_id: PlayerId) -> (r:
        Vec<GameEventType>)
        requires
            old(self).wf(),
        ensures
            (final(self).model(), r@.map_values(|e: GameEventType| e.model()))
                == spec_process_action(old(self).model(), action_type.model(), actioner_id),
            final(self).wf(),
    {
        let mut result: Vec<GameEventType> = Vec::new();
        proof {
            assert(result@.map_values(|e: GameEventType| e.model()) =~= Seq::<
                GameEventTypeModel,
            >::empty());
        }
        match action_type {
            GameActionType::MoveUnit { unit_id, position } => {
                proof {
                    lemma_tb_map_get(self.units@, |u: Unit| u.model(), unit_id.spec_key());
                    lemma_tb_find_from(self.units@, unit_id.spec_key(), 0);
                }
                let (upos, utype, remaining) = match self.units.get(unit_id.key()) {
                    Some(u) => {
                        proof {
                            let f = crate::table::tb_find(self.units@, unit_id.spec_key());
                            assert(self.units@[f].1.wf() && self.units@[f].1.position.in_bounds(
                                self.map.width,
                                self.map.height,
                            ));
                        }
                        (u.position, u.unit_type, u.remaining_movement)
                    },
                    None => { return result; },
                };
                let owner = match self.units.get(unit_id.key()) {
                    Some(u) => u.owner,
                    None => { return result; },
                };
                let actor_civ = match self.actor_civilization(actioner_id) {
                    Some(c) => c,
                    None => { return result; },
                };
                if actor_civ.0 != owner.0 {
                    return result;
                }
                if !self.map.has_tile(*position) {
                    return result;
                }
                let moveable = self.map.tile(*position).unit_can_reside(utype);
                let reach = upos.neighbors_at_distance(
                    self.map.width(),
                    self.map.height(),
                    remaining,
                    true,
                );
                proof {
                    crate::map_position::lemma_nad_props(
                        upos,
                        self.map.width,
                        self.map.height,
                        remaining as int,
                        true,
                    );
                    crate::distances::lemma_dm_find_from(reach@, *position, 0);
                }
                let d = match reach.get(*position) {
                    Some(d) => d,
                    None => { return result; },
                };
                if !moveable {
                    return result;
                }
                let e = GameEventType::MoveUnit {
                    unit_id: *unit_id,
                    position: *position,
                    remaining_movement: remaining - d,
                };
                self.apply_event(&e);
                result.push(e);
                proof {
                    assert(result@.map_values(|x: GameEventType| x.model()) =~= seq![
                        GameEventTypeModel::MoveUnit {
                            unit_id: *unit_id,
                            position: *position,
                            remaining_movement: (remaining - d) as i16,
                        },
                    ]);
                }
            },
            GameActionType::FoundCity { unit_id } => {
                proof {
                    lemma_tb_map_get(self.units@, |u: Unit| u.model(), unit_id.spec_key());
                    lemma_tb_find_from(self.units@, unit_id.spec_key(), 0);
                }
                let (upos, owner, can_settle, has_move) = match self.units.get(unit_id.key()) {
                    Some(u) => {
                        proof {
                            let f = crate::table::tb_find(self.units@, unit_id.spec_key());
                            assert(self.units@[f].1.position.in_bounds(
                                self.map.width,
                                self.map.height,
                            ));
                        }
                        (
                            u.position,
                            u.owner,
                            u.has_ability(crate::unit::UnitAbility::Settle),
                            u.remaining_movement >= 1,
                        )
                    },
                    None => { return result; },
                };
                let actor_civ = match self.actor_civilization(actioner_id) {
                    Some(c) => c,
                    None => { return result; },
                };
                if actor_civ.0 != owner.0 {
                    return result;
                }
                let city_on_tile = self.map.has_tile(upos) && self.map.tile(upos).city.is_some();
                if can_settle && has_move && !city_on_tile {
                    let e1 = GameEventType::DeleteUnit { unit_id: *unit_id };
                    self.apply_event(&e1);
                    result.push(e1);
                    let e2 = GameEventType::FoundCity { position: upos, owner };
                    self.apply_event(&e2);
                    result.push(e2);
                    proof {
                        assert(result@.map_values(|x: GameEventType| x.model()) =~= seq![
                            GameEventTypeModel::DeleteUnit { unit_id: *unit_id },
                            GameEventTypeModel::FoundCity { position: upos, owner },
                        ]);
                    }
                }
            },
            GameActionType::RenameCity { city_id, name } => {
                proof {
                    lemma_tb_map_get(self.cities@, |c: City| c.model(), city_id.spec_key());
                }
                let owner = match self.cities.get(city_id.key()) {
                    Some(c) => c.owner,
                    None => { return result; },
                };
                let actor_civ = match self.actor_civilization(actioner_id) {
                    Some(c) => c,
                    None => { return result; },
                };
                if actor_civ.0 != owner.0 {
                    return result;
                }
                let e = GameEventType::RenameCity { city_id: *city_id, name: name.clone() };
                self.apply_event(&e);
                result.push(e);
                proof {
                    assert(result@.map_values(|x: GameEventType| x.model()) =~= seq![
                        GameEventTypeModel::RenameCity { city_id: *city_id, name: name@ },
                    ]);
                }
            },
            GameActionType::SetReady(ready) => {
                let e = GameEventType::SetPlayerReady { player_id: actioner_id, ready: *ready };
                self.apply_event(&e);
                result.push(e);
                proof {
                    assert(result@.map_values(|x: GameEventType| x.model()) =~= seq![
                        GameEventTypeModel::SetPlayerReady {
                            player_id: actioner_id,
                            ready: *ready,
                        },
                    ]);
                }
                if self.all_players_ready() {
                    let ghost head = result@.map_values(|x: GameEventType| x.model());
                    let mut more = self.next_turn();
                    let ghost morem = more@.map_values(|x: GameEventType| x.model());
                    result.append(&mut more);
                    proof {
                        assert(result@.map_values(|x: GameEventType| x.model()) =~= head + morem);
                    }
                }
            },
            GameActionType::SetProducing { city_id, producing } => {
                proof {
                    lemma_tb_map_get(self.cities@, |c: City| c.model(), city_id.spec_key());
                }
                let owner = match self.cities.get(city_id.key()) {
                    Some(c) => c.owner,
                    None => { return result; },
                };
                let actor_civ = match self.actor_civilization(actioner_id) {
                    Some(c) => c,
                    None => { return result; },
                };
                if actor_civ.0 != owner.0 {
                    return result;
                }
                let p2: Option<ProducingItemId> = match producing {
                    Some(p) => Some(p.duplicate()),
                    None => None,
                };
                let e = GameEventType::SetProducing { city_id: *city_id, producing: p2 };
                self.apply_event(&e);
                let ghost em = e.model();
                result.push(e);
                proof {
                    assert(result@.map_values(|x: GameEventType| x.model()) =~= seq![em]);
                    assert(em == (GameEventTypeModel::SetProducing {
                        city_id: *city_id,
                        producing: match producing {
                            Some(p) => Some(p.model()),
                            None => None,
                        },
                    }));
                }
            },
            GameActionType::SetSleeping { unit_id, sleeping } => {
                proof {
                    lemma_tb_map_get(self.units@, |u: Unit| u.model(), unit_id.spec_key());
                }
                let owner = match self.units.get(unit_id.key()) {
                    Some(u) => u.owner,
                    None => { return result; },
                };
                let actor_civ = match self.actor_civilization(actioner_id) {
                    Some(c) => c,
                    None => { return result; },
                };
                if actor_civ.0 != owner.0 {
                    return result;
                }
                let e = GameEventType::SetSleeping { unit_id: *unit_id, sleeping: *sleeping };
                self.apply_event(&e);
                result.push(e);
                proof {
                    assert(result@.map_values(|x: GameEventType| x.model()) =~= seq![
                        GameEventTypeModel::SetSleeping { unit_id: *unit_id, sleeping: *sleeping },
                    ]);
                }
            },
            GameActionType::SetCitizenLocked { city_id, position, locked } => {
                proof {
                    lemma_tb_map_get(self.cities@, |c: City| c.model(), city_id.spec_key());
                }
                let (owner, in_territory) = match self.cities.get(city_id.key()) {
                    Some(c) => (c.owner, c.territory.contains_key(crate::city::pos_key(*position))),
                    None => { return result; },
                };
                let actor_civ = match self.actor_civilization(actioner_id) {
                    Some(c) => c,
                    None => { return result; },
                };
                if actor_civ.0 != owner.0 {
                    return result;
                }
                if !in_territory {
                    return result;
                }
                let e = GameEventType::SetCitizenLocked {
                    city_id: *city_id,
                    position: *position,
                    locked: *locked,
                };
                self.apply_event(&e);
                result.push(e);
                proof {
                    assert(result@.map_values(|x: GameEventType| x.model()) =~= seq![
                        GameEventTypeModel::SetCitizenLocked {
                            city_id: *city_id,
                            position: *position,
                            locked: *locked,
                        },
                    ]);
                }
            },
            GameActionType::Harvest { unit_id } => {
                proof {
                    lemma_tb_map_get(self.units@, |u: Unit| u.model(), unit_id.spec_key());
                    lemma_tb_find_from(self.units@, unit_id.spec_key(), 0);
                }
                let (upos, owner, can) = match self.units.get(unit_id.key()) {
                    Some(u) => {
                        proof {
                            let f = crate::table::tb_find(self.units@, unit_id.spec_key());
                            assert(self.units@[f].1.wf() && self.units@[f].1.position.in_bounds(
                                self.map.width,
                                self.map.height,
                            ));
                        }
                        (u.position, u.owner, u.can_harvest(&self.cities, &self.map))
                    },
                    None => { return result; },
                };
                let actor_civ = match self.actor_civilization(actioner_id) {
                    Some(c) => c,
                    None => { return result; },
                };
                if actor_civ.0 != owner.0 {
                    return result;
                }
                if !can {
                    return result;
                }
                let e1 = GameEventType::Harvest { position: upos };
                self.apply_event(&e1);
                result.push(e1);
                let e2 = GameEventType::DepleteMovement { unit_id: *unit_id };
                self.apply_event(&e2);
                result.push(e2);
                let e3 = GameEventType::UseCharge { unit_id: *unit_id };
                self.apply_event(&e3);
                result.push(e3);
                proof {
                    lemma_tb_map_get(self.units@, |u: Unit| u.model(), unit_id.spec_key());
                }
                let delete = match self.units.get(unit_id.key()) {
                    Some(u3) => match u3.charges {
                        Some((current, _)) => current == 0,
                        None => false,
                    },
                    None => false,
                };
                if delete {
                    let e4 = GameEventType::DeleteUnit { unit_id: *unit_id };
                    self.apply_event(&e4);
                    result.push(e4);
                    proof {
                        assert(result@.map_values(|x: GameEventType| x.model()) =~= seq![
                            GameEventTypeModel::Harvest { position: upos },
                            GameEventTypeModel::DepleteMovement { unit_id: *unit_id },
                            GameEventTypeModel::UseCharge { unit_id: *unit_id },
                            GameEventTypeModel::DeleteUnit { unit_id: *unit_id },
                        ]);
                    }
                } else {
                    proof {
                        assert(result@.map_values(|x: GameEventType| x.model()) =~= seq![
                            GameEventTypeModel::Harvest { position: upos },
                            GameEventTypeModel::DepleteMovement { unit_id: *unit_id },
                            GameEventTypeModel::UseCharge { unit_id: *unit_id },
                        ]);
                    }
                }
            },
            GameActionType::SetResearch { tech_id } => {
                let civ_id = match self.actor_civilization(actioner_id) {
                    Some(c) => c,
                    None => { return result; },
                };
                proof {
                    lemma_tb_map_get(
                        self.civilizations@,
                        |c: Civilization| c.model(),
                        civ_id.spec_key(),
                    );
                }
                let can = match self.civilizations.get(civ_id.key()) {
                    Some(civ) => civ.tech_progress.can_research(*tech_id, &self.tech_tree),
                    None => { return result; },
                };
                if !can {
                    return result;
                }
                let e = GameEventType::SetResearch { civilization_id: civ_id, tech_id: *tech_id };
                self.apply_event(&e);
                result.push(e);
                proof {
                    assert(result@.map_values(|x: GameEventType| x.model()) =~= seq![
                        GameEventTypeModel::SetResearch { civilization_id: civ_id, tech_id: *tech_id },
                    ]);
                }
            },
        }
        result
    }

    /// Unit entries keep their properties on a map that kept its
    /// dimensions.
    proof fn lemma_units_dims(s: Seq<(u64, Unit)>, old_map: GameMap, new_map: GameMap)
        requires
            forall|i: int|
                0 <= i < s.len() ==> (#[trigger] s[i]).0 == s[i].1.id.spec_key() && s[i].1.wf()
                    && s[i].1.position.in_bounds(old_map.width, old_map.height),
            new_map.width == old_map.width,
            new_map.height == old_map.height,
        ensures
            forall|i: int|
                0 <= i < s.len() ==> (#[trigger] s[i]).0 == s[i].1.id.spec_key() && s[i].1.wf()
                    && s[i].1.position.in_bounds(new_map.width, new_map.height),
    {
    }

    /// Replacing a tile without touching its territory or city markers
    /// keeps every city's territory on the map.
    pub(crate) proof fn lemma_tile_update_preserves_bounds(before: &GameWorld, after: &GameWorld)
        requires
            before.wf(),
            after.map.wf(),
            after.map.width == before.map.width,
            after.map.height == before.map.height,
            after.players@ == before.players@,
            after.units@ == before.units@,
            after.cities@ == before.cities@,
            after.civilizations@ == before.civilizations@,
            after.unit_templates == before.unit_templates,
            after.building_types == before.building_types,
            after.tech_tree == before.tech_tree,
            after.turn == before.turn,
        ensures
            after.wf(),
    {
        assert forall|i: int| 0 <= i < after.cities@.len() implies ({
            let e = #[trigger] after.cities@[i];
            e.0 == e.1.id.spec_key() && e.1.wf() && e.1.territory_in_bounds(after.map.model())
                && e.1.position.in_bounds(after.map.width, after.map.height)
        }) by {
            assert(before.cities@[i] == after.cities@[i]);
            assert(before.cities@[i].1.territory_in_bounds(before.map.model()));
            assert forall|j: int|
                0 <= j < after.cities@[i].1.territory@.len() implies (
            #[trigger] after.cities@[i].1.territory@[j]).1.0.in_bounds(
                after.map.width,
                after.map.height,
            ) by {
                assert(after.cities@[i].1.territory@[j].1.0.in_bounds(
                    before.map.width,
                    before.map.height,
                ));
            }
        }
    }
}

} // verus!
