//! The global guarantees of the kernel, each stated over the same spec
//! functions the executable contracts use.

use vstd::prelude::*;
use crate::actions::GameActionTypeModel;
use crate::building::BuildingTypeModel;
use crate::city::{
    spec_assign_citizens, spec_city_update, spec_clear_normals, spec_employed_from,
    spec_territory_positions, spec_update_citizens, Citizen, CityId, CityModel, TerritoryEntry,
};
use crate::events::GameEventTypeModel;
use crate::game_map::{spec_tile_at, GameMapModel};
use crate::game_world::{
    spec_apply_events, spec_process_action, spec_world_delete_unit, spec_world_move_unit,
    spec_world_new_unit, GameWorldModel,
};
use crate::map_position::{MapUnit, TilePosition};
use crate::player::PlayerId;
use crate::table::{tb_contains, tb_get, tb_wf};
use crate::tech::{spec_tp_can_finish, spec_tp_finish, TechProgressModel, TechTreeModel};
use crate::unit::{UnitId, UnitTemplateModel, UnitType};
use crate::yields::yv_sub;

verus! {

/// The unit slot of the tile at grid cell `(x, y)` for one unit type.
pub open spec fn spec_slot_at(m: GameMapModel, x: int, y: int, ty: UnitType) -> Option<UnitId> {
    spec_tile_at(m, TilePosition { x: x as i16, y: y as i16 }).spec_unit_of_type(ty)
}

/// Every unit stands on an in-map tile whose slot for its unit type
/// names it, under its own id as table key.
pub open spec fn spec_units_on_tiles(w: GameWorldModel) -> bool {
    forall|i: int|
        0 <= i < w.units.len() ==> ({
            let e = #[trigger] w.units[i];
            &&& e.0 == e.1.id.spec_key()
            &&& e.1.position.in_bounds(w.map.width, w.map.height)
            &&& spec_slot_at(
                w.map,
                e.1.position.x as int,
                e.1.position.y as int,
                e.1.unit_type,
            ) == Some(e.1.id)
        })
}

/// Every occupied tile slot names a real unit that stands exactly there
/// with exactly that unit type — so a tile hosts at most one unit of
/// each type, and tile markers and unit positions never drift apart.
pub open spec fn spec_tiles_name_units(w: GameWorldModel) -> bool {
    forall|x: int, y: int, ty: UnitType|
        (0 <= x < w.map.width && 0 <= y < w.map.height) ==> match #[trigger] spec_slot_at(
            w.map,
            x,
            y,
            ty,
        ) {
            Some(id) => match tb_get(w.units, id.spec_key()) {
                Some(u) => u.position == (TilePosition { x: x as i16, y: y as i16 })
                    && u.unit_type == ty && u.id == id,
                None => false,
            },
            None => true,
        }
}

/// The data-model coupling of units and tiles: both directions at once.
pub open spec fn spec_units_tiles_coherent(w: GameWorldModel) -> bool {
    spec_units_on_tiles(w) && spec_tiles_name_units(w)
}

/// The map model is a full grid: as many columns as the width, each of
/// the height.
pub open spec fn spec_grid_wf(m: GameMapModel) -> bool {
    &&& m.tiles.len() == m.width
    &&& forall|x: int| 0 <= x < m.width ==> (#[trigger] m.tiles[x]).len() == m.height
}

/// Determinism: applying the same ordered event sequence to two worlds
/// in identical states leaves them in identical states. Event
/// application is a function of the prior state and the event content
/// alone, which is what keeps every client's copy in sync.
pub proof fn lemma_event_application_deterministic(
    w1: GameWorldModel,
    w2: GameWorldModel,
    events: Seq<GameEventTypeModel>,
)
    requires
        w1 == w2,
    ensures
        spec_apply_events(w1, events, 0) == spec_apply_events(w2, events, 0),
{
}

/// Authorization for unit actions: an action that names a unit is
/// rejected outright — no events, no state change — when the actor's
/// civilization does not own that unit.
pub proof fn lemma_unit_action_authorization(
    w: GameWorldModel,
    a: GameActionTypeModel,
    actioner_id: PlayerId,
    unit_id: UnitId,
)
    requires
        match a {
            GameActionTypeModel::MoveUnit { unit_id: u, .. } => u == unit_id,
            GameActionTypeModel::FoundCity { unit_id: u } => u == unit_id,
            GameActionTypeModel::SetSleeping { unit_id: u, .. } => u == unit_id,
            GameActionTypeModel::Harvest { unit_id: u } => u == unit_id,
            _ => false,
        },
        tb_get(w.units, unit_id.spec_key()) is Some,
        match tb_get(w.players, actioner_id.spec_key()) {
            Some(p) => p.civilization_id != tb_get(w.units, unit_id.spec_key())->Some_0.owner,
            None => true,
        },
    ensures
        spec_process_action(w, a, actioner_id) == (w, Seq::<GameEventTypeModel>::empty()),
{
}

/// Authorization for city actions: an action that names a city is
/// rejected outright — no events, no state change — when the actor's
/// civilization does not own that city.
pub proof fn lemma_city_action_authorization(
    w: GameWorldModel,
    a: GameActionTypeModel,
    actioner_id: PlayerId,
    city_id: CityId,
)
    requires
        match a {
            GameActionTypeModel::RenameCity { city_id: c, .. } => c == city_id,
            GameActionTypeModel::SetProducing { city_id: c, .. } => c == city_id,
            GameActionTypeModel::SetCitizenLocked { city_id: c, .. } => c == city_id,
            _ => false,
        },
        tb_get(w.cities, city_id.spec_key()) is Some,
        match tb_get(w.players, actioner_id.spec_key()) {
            Some(p) => p.civilization_id != tb_get(w.cities, city_id.spec_key())->Some_0.owner,
            None => true,
        },
    ensures
        spec_process_action(w, a, actioner_id) == (w, Seq::<GameEventTypeModel>::empty()),
{
}

/// Tech research: a civilization whose banked science has reached its
/// current research's cost ends up, after finishing, with that tech
/// completed, an empty research slot, and exactly the leftover science
/// carried forward — never negative, never lost.
pub proof fn lemma_finish_research(m: TechProgressModel, tree: TechTreeModel)
    requires
        spec_tp_can_finish(m, tree),
        m.progress.0 <= crate::yields::YIELD_VALUE_MAX,
        crate::table::tb_wf(m.completed),
    ensures
        ({
            let t = m.researching->Some_0;
            let cost = tb_get(tree.techs, t.spec_key())->Some_0.cost;
            let m2 = spec_tp_finish(m, tree);
            &&& crate::table::tb_contains(m2.completed, t.spec_key())
            &&& m2.researching is None
            &&& m2.progress.0 == m.progress.0 - cost.0
        }),
{
    let t = m.researching->Some_0;
    let cost = tb_get(tree.techs, t.spec_key())->Some_0.cost;
    assert(cost.0 <= m.progress.0);
    assert(yv_sub(m.progress.0, cost.0) == m.progress.0 - cost.0);
    let m1 = TechProgressModel {
        researching: None,
        progress: crate::yields::YieldValue(yv_sub(m.progress.0, cost.0)),
        ..m
    };
    crate::table::lemma_tb_insert_get(m1.completed, t.spec_key(), (), t.spec_key());
}

/// Minting a unit keeps units and tiles coherent: the event places it
/// only on a tile whose slot is free, under an id no unit holds.
pub proof fn lemma_new_unit_preserves_coherence(
    w: GameWorldModel,
    template: UnitTemplateModel,
    owner: crate::civilization::CivilizationId,
    position: TilePosition,
    unit_id: UnitId,
)
    requires
        tb_wf(w.units),
        spec_grid_wf(w.map),
        spec_units_tiles_coherent(w),
    ensures
        spec_units_tiles_coherent(spec_world_new_unit(w, template, owner, position, unit_id)),
{
    let t = crate::game_world::spec_normalize_template(template);
    let w2 = spec_world_new_unit(w, template, owner, position, unit_id);
    if position.in_bounds(w.map.width, w.map.height) && spec_tile_at(
        w.map,
        position,
    ).spec_unit_can_reside(t.unit_type) && !tb_contains(w.units, unit_id.spec_key()) {
        let minted = crate::game_world::spec_minted_unit(t, unit_id, owner, position);
        crate::table::lemma_tb_insert_get(w.units, unit_id.spec_key(), minted, unit_id.spec_key());
        assert forall|q: u64|
            q != unit_id.spec_key() implies tb_get(w2.units, q) == tb_get(w.units, q) by {
            crate::table::lemma_tb_insert_get(w.units, unit_id.spec_key(), minted, q);
        }
        // Only the minted unit's slot changed, and no unit claimed it.
        assert forall|x: int, y: int, ty: UnitType|
            #![trigger spec_slot_at(w2.map, x, y, ty)]
            (0 <= x < w.map.width && 0 <= y < w.map.height) && !(x == position.x as int && y
                == position.y as int && ty
                == t.unit_type) implies spec_slot_at(w2.map, x, y, ty) == spec_slot_at(
            w.map,
            x,
            y,
            ty,
        ) by {
            if x == position.x as int && y == position.y as int {
                assert(w2.map.tiles[x][y] == spec_tile_at(w.map, position).spec_with_unit(
                    t.unit_type,
                    Some(unit_id),
                ));
            } else if x == position.x as int {
                assert(w2.map.tiles[x][y] == w.map.tiles[x][y]);
            } else {
                assert(w2.map.tiles[x] == w.map.tiles[x]);
            }
        }
        assert(spec_slot_at(w2.map, position.x as int, position.y as int, t.unit_type) == Some(
            unit_id,
        ));
        // Unit side: old units keep their cells; none claimed the minted
        // unit's cell, because that slot was free.
        assert forall|i: int| 0 <= i < w2.units.len() implies ({
            let e = #[trigger] w2.units[i];
            &&& e.0 == e.1.id.spec_key()
            &&& e.1.position.in_bounds(w2.map.width, w2.map.height)
            &&& spec_slot_at(w2.map, e.1.position.x as int, e.1.position.y as int, e.1.unit_type)
                == Some(e.1.id)
        }) by {
            crate::table::lemma_tb_lower_from(w.units, unit_id.spec_key(), 0);
            let ins = crate::table::tb_lower_from(w.units, unit_id.spec_key(), 0);
            if ins < w.units.len() && w.units[ins].0 == unit_id.spec_key() {
                crate::table::lemma_tb_find_from_exact(w.units, unit_id.spec_key(), 0, ins);
            }
            assert(w2.units == w.units.insert(ins, (unit_id.spec_key(), minted)));
            if i == ins {
                assert(w2.units[i] == (unit_id.spec_key(), minted));
            } else {
                let e = if i < ins {
                    w.units[i]
                } else {
                    w.units[i - 1]
                };
                assert(w2.units[i] == e);
                if e.1.position == position && e.1.unit_type == t.unit_type {
                    assert(spec_slot_at(
                        w.map,
                        position.x as int,
                        position.y as int,
                        t.unit_type,
                    ) == Some(e.1.id));
                }
            }
        }
        // Tile side: the new cell names the minted unit; every other
        // occupied cell still names its old unit, whose id cannot be the
        // fresh one.
        assert forall|x: int, y: int, ty: UnitType|
            #![trigger spec_slot_at(w2.map, x, y, ty)]
            (0 <= x < w2.map.width && 0 <= y < w2.map.height) implies match spec_slot_at(
            w2.map,
            x,
            y,
            ty,
        ) {
            Some(id) => match tb_get(w2.units, id.spec_key()) {
                Some(u) => u.position == (TilePosition { x: x as i16, y: y as i16 })
                    && u.unit_type == ty && u.id == id,
                None => false,
            },
            None => true,
        } by {
            if x == position.x as int && y == position.y as int && ty == t.unit_type {
            } else {
                match spec_slot_at(w.map, x, y, ty) {
                    Some(id) => {
                        assert(tb_get(w.units, id.spec_key()) is Some);
                        crate::table::lemma_tb_find_from(w.units, id.spec_key(), 0);
                        assert(id.spec_key() != unit_id.spec_key());
                        crate::table::lemma_tb_insert_get(
                            w.units,
                            unit_id.spec_key(),
                            minted,
                            id.spec_key(),
                        );
                    },
                    None => {},
                }
            }
        }
    }
}

/// Deleting a unit keeps units and tiles coherent: exactly its own tile
/// slot clears, and no other slot named it.
pub proof fn lemma_delete_unit_preserves_coherence(w: GameWorldModel, unit_id: UnitId)
    requires
        tb_wf(w.units),
        spec_grid_wf(w.map),
        spec_units_tiles_coherent(w),
    ensures
        spec_units_tiles_coherent(spec_world_delete_unit(w, unit_id)),
{
    let w2 = spec_world_delete_unit(w, unit_id);
    match tb_get(w.units, unit_id.spec_key()) {
        None => {},
        Some(u) => {
            crate::table::lemma_tb_find_from(w.units, unit_id.spec_key(), 0);
            let fi = crate::table::tb_find(w.units, unit_id.spec_key());
            assert(w.units[fi] == (unit_id.spec_key(), u));
            assert(u.position.in_bounds(w.map.width, w.map.height) && u.id.spec_key()
                == unit_id.spec_key());
            crate::table::lemma_tb_remove_get(w.units, unit_id.spec_key(), unit_id.spec_key());
            assert forall|q: u64|
                q != unit_id.spec_key() implies tb_get(w2.units, q) == tb_get(w.units, q) by {
                crate::table::lemma_tb_remove_get(w.units, unit_id.spec_key(), q);
            }
            // Only the deleted unit's slot changed.
            assert forall|x: int, y: int, ty: UnitType|
                #![trigger spec_slot_at(w2.map, x, y, ty)]
                (0 <= x < w.map.width && 0 <= y < w.map.height) && !(x == u.position.x as int && y
                    == u.position.y as int && ty
                    == u.unit_type) implies spec_slot_at(w2.map, x, y, ty) == spec_slot_at(
                w.map,
                x,
                y,
                ty,
            ) by {
                if x == u.position.x as int && y == u.position.y as int {
                    assert(w2.map.tiles[x][y] == spec_tile_at(w.map, u.position).spec_with_unit(
                        u.unit_type,
                        None,
                    ));
                } else if x == u.position.x as int {
                    assert(w2.map.tiles[x][y] == w.map.tiles[x][y]);
                } else {
                    assert(w2.map.tiles[x] == w.map.tiles[x]);
                }
            }
            // Unit side: the survivors never shared the deleted unit's
            // cell, since its slot named the deleted unit alone.
            assert forall|i: int| 0 <= i < w2.units.len() implies ({
                let e = #[trigger] w2.units[i];
                &&& e.0 == e.1.id.spec_key()
                &&& e.1.position.in_bounds(w2.map.width, w2.map.height)
                &&& spec_slot_at(
                    w2.map,
                    e.1.position.x as int,
                    e.1.position.y as int,
                    e.1.unit_type,
                ) == Some(e.1.id)
            }) by {
                let e = if i < fi {
                    w.units[i]
                } else {
                    w.units[i + 1]
                };
                assert(w2.units[i] == e);
                if e.1.position == u.position && e.1.unit_type == u.unit_type {
                    assert(spec_slot_at(
                        w.map,
                        u.position.x as int,
                        u.position.y as int,
                        u.unit_type,
                    ) == Some(e.1.id));
                    assert(e.1.id == u.id);
                    assert(e.0 == w.units[fi].0);
                }
            }
            // Tile side: the cleared cell is empty; other cells never
            // named the deleted unit, which stood elsewhere.
            assert forall|x: int, y: int, ty: UnitType|
                #![trigger spec_slot_at(w2.map, x, y, ty)]
                (0 <= x < w2.map.width && 0 <= y < w2.map.height) implies match spec_slot_at(
                w2.map,
                x,
                y,
                ty,
            ) {
                Some(id) => match tb_get(w2.units, id.spec_key()) {
                    Some(u3) => u3.position == (TilePosition { x: x as i16, y: y as i16 })
                        && u3.unit_type == ty && u3.id == id,
                    None => false,
                },
                None => true,
            } by {
                if x == u.position.x as int && y == u.position.y as int && ty == u.unit_type {
                } else {
                    match spec_slot_at(w.map, x, y, ty) {
                        Some(id) => {
                            assert(tb_get(w.units, id.spec_key()) is Some);
                            if id.spec_key() == unit_id.spec_key() {
                                assert(tb_get(w.units, id.spec_key()) == Some(u));
                                assert(u.position == (TilePosition {
                                    x: x as i16,
                                    y: y as i16,
                                }) && u.unit_type == ty);
                            }
                            crate::table::lemma_tb_remove_get(
                                w.units,
                                unit_id.spec_key(),
                                id.spec_key(),
                            );
                        },
                        None => {},
                    }
                }
            }
        },
    }
}

/// Moving a unit keeps units and tiles coherent: the move only happens
/// onto a tile whose slot is free, its old slot named it alone, and
/// both markers are rebound together.
pub proof fn lemma_move_unit_preserves_coherence(
    w: GameWorldModel,
    unit_id: UnitId,
    position: TilePosition,
    remaining_movement: MapUnit,
)
    requires
        tb_wf(w.units),
        spec_grid_wf(w.map),
        spec_units_tiles_coherent(w),
    ensures
        spec_units_tiles_coherent(
            spec_world_move_unit(w, unit_id, position, remaining_movement),
        ),
{
    let w2 = spec_world_move_unit(w, unit_id, position, remaining_movement);
    match tb_get(w.units, unit_id.spec_key()) {
        None => {},
        Some(u) => {
            if position.in_bounds(w.map.width, w.map.height) && u.position.in_bounds(
                w.map.width,
                w.map.height,
            ) && spec_tile_at(w.map, position).spec_unit_can_reside(u.unit_type) {
                crate::table::lemma_tb_find_from(w.units, unit_id.spec_key(), 0);
                let fi = crate::table::tb_find(w.units, unit_id.spec_key());
                assert(w.units[fi] == (unit_id.spec_key(), u));
                assert(u.id.spec_key() == unit_id.spec_key());
                let moved = crate::unit::UnitModel {
                    position,
                    remaining_movement: crate::game_world::spec_clamp_movement(
                        remaining_movement,
                        u.total_movement,
                    ),
                    ..u
                };
                crate::table::lemma_tb_insert_get(
                    w.units,
                    unit_id.spec_key(),
                    moved,
                    unit_id.spec_key(),
                );
                assert forall|q: u64|
                    q != unit_id.spec_key() implies tb_get(w2.units, q) == tb_get(
                    w.units,
                    q,
                ) by {
                    crate::table::lemma_tb_insert_get(w.units, unit_id.spec_key(), moved, q);
                }
                // The move is never onto the unit's own tile: its own
                // slot is occupied by itself.
                assert(position != u.position);
                let m1 = crate::game_map::spec_set_tile(
                    w.map,
                    u.position,
                    spec_tile_at(w.map, u.position).spec_with_unit(u.unit_type, None),
                );
                // Exactly two slots changed: the old cell cleared, the
                // new cell bound.
                assert forall|x: int, y: int, ty: UnitType|
                    #![trigger spec_slot_at(w2.map, x, y, ty)]
                    (0 <= x < w.map.width && 0 <= y < w.map.height) && !(x == u.position.x as int
                        && y == u.position.y as int && ty == u.unit_type) && !(x
                        == position.x as int && y == position.y as int && ty
                        == u.unit_type) implies spec_slot_at(w2.map, x, y, ty) == spec_slot_at(
                    w.map,
                    x,
                    y,
                    ty,
                ) by {
                    if x == u.position.x as int && y == u.position.y as int {
                        assert(m1.tiles[x][y] == spec_tile_at(w.map, u.position).spec_with_unit(
                            u.unit_type,
                            None,
                        ));
                        assert(spec_slot_at(m1, x, y, ty) == spec_slot_at(w.map, x, y, ty));
                    } else if x == u.position.x as int {
                        assert(m1.tiles[x][y] == w.map.tiles[x][y]);
                    } else {
                        assert(m1.tiles[x] == w.map.tiles[x]);
                    }
                    if x == position.x as int && y == position.y as int {
                        assert(w2.map.tiles[x][y] == spec_tile_at(m1, position).spec_with_unit(
                            u.unit_type,
                            Some(unit_id),
                        ));
                        assert(spec_slot_at(w2.map, x, y, ty) == spec_slot_at(m1, x, y, ty));
                    } else if x == position.x as int {
                        assert(w2.map.tiles[x][y] == m1.tiles[x][y]);
                    } else {
                        assert(w2.map.tiles[x] == m1.tiles[x]);
                    }
                }
                assert(spec_slot_at(w2.map, position.x as int, position.y as int, u.unit_type)
                    == Some(unit_id));
                assert(spec_slot_at(
                    w2.map,
                    u.position.x as int,
                    u.position.y as int,
                    u.unit_type,
                ) == None::<UnitId>) by {
                    assert(m1.tiles[u.position.x as int][u.position.y as int] == spec_tile_at(
                        w.map,
                        u.position,
                    ).spec_with_unit(u.unit_type, None));
                    assert(w2.map.tiles[u.position.x as int][u.position.y as int]
                        == m1.tiles[u.position.x as int][u.position.y as int]);
                }
                // Unit side.
                assert forall|i: int| 0 <= i < w2.units.len() implies ({
                    let e = #[trigger] w2.units[i];
                    &&& e.0 == e.1.id.spec_key()
                    &&& e.1.position.in_bounds(w2.map.width, w2.map.height)
                    &&& spec_slot_at(
                        w2.map,
                        e.1.position.x as int,
                        e.1.position.y as int,
                        e.1.unit_type,
                    ) == Some(e.1.id)
                }) by {
                    assert(w2.units == crate::table::tb_insert(
                        w.units,
                        unit_id.spec_key(),
                        moved,
                    ));
                    crate::table::lemma_tb_wf_find_is_lower(w.units, unit_id.spec_key());
                    crate::table::lemma_tb_lower_from(w.units, unit_id.spec_key(), 0);
                    if i == fi {
                        assert(w2.units[i] == (unit_id.spec_key(), moved));
                    } else {
                        assert(w2.units[i] == w.units[i]);
                        let e = w.units[i];
                        if e.1.position == u.position && e.1.unit_type == u.unit_type {
                            assert(spec_slot_at(
                                w.map,
                                u.position.x as int,
                                u.position.y as int,
                                u.unit_type,
                            ) == Some(e.1.id));
                            assert(e.1.id == u.id && e.0 == w.units[fi].0);
                        }
                        if e.1.position == position && e.1.unit_type == u.unit_type {
                            assert(spec_slot_at(
                                w.map,
                                position.x as int,
                                position.y as int,
                                u.unit_type,
                            ) == Some(e.1.id));
                        }
                    }
                }
                // Tile side.
                assert forall|x: int, y: int, ty: UnitType|
                    #![trigger spec_slot_at(w2.map, x, y, ty)]
                    (0 <= x < w2.map.width && 0 <= y < w2.map.height) implies match spec_slot_at(
                    w2.map,
                    x,
                    y,
                    ty,
                ) {
                    Some(id) => match tb_get(w2.units, id.spec_key()) {
                        Some(u3) => u3.position == (TilePosition { x: x as i16, y: y as i16 })
                            && u3.unit_type == ty && u3.id == id,
                        None => false,
                    },
                    None => true,
                } by {
                    if x == position.x as int && y == position.y as int && ty == u.unit_type {
                    } else if x == u.position.x as int && y == u.position.y as int && ty
                        == u.unit_type {
                    } else {
                        match spec_slot_at(w.map, x, y, ty) {
                            Some(id) => {
                                assert(tb_get(w.units, id.spec_key()) is Some);
                                if id.spec_key() == unit_id.spec_key() {
                                    assert(tb_get(w.units, id.spec_key()) == Some(u));
                                    assert(u.position == (TilePosition {
                                        x: x as i16,
                                        y: y as i16,
                                    }) && u.unit_type == ty);
                                }
                                crate::table::lemma_tb_insert_get(
                                    w.units,
                                    unit_id.spec_key(),
                                    moved,
                                    id.spec_key(),
                                );
                            },
                            None => {},
                        }
                    }
                }
            }
        },
    }
}

/// Production completion, for one city's per-turn resolution: a city
/// whose banked production has reached its order's cost, and which is
/// not also growing this turn, ends the step with its production slot
/// cleared and exactly one new-unit or new-building event among the
/// events it emitted, followed by the clearing event.
pub proof fn lemma_production_completion(w: GameWorldModel, k: u64)
    requires
        crate::table::tb_wf(w.cities),
        tb_get(w.cities, k) is Some,
        ({
            let c = tb_get(w.cities, k)->Some_0;
            &&& c.producing is Some
            &&& c.producing->Some_0.1.0 >= crate::city::spec_production_cost(
                c.producing->Some_0.0,
            ).0
            &&& c.accumulated_food.0 < c.required_food_for_population_increase.0
            &&& c.turns_until_territory_growth > 0
        }),
    ensures
        ({
            let (w2, events) = crate::game_world::spec_city_resolution_step(w, k);
            &&& events.len() >= 1
            &&& (events[events.len() - 1] matches GameEventTypeModel::SetProducing {
                producing: None,
                ..
            } || events[events.len() - 1] matches GameEventTypeModel::Crash { .. })
            &&& (events.len() >= 2 ==> (events[events.len() - 2]
                matches GameEventTypeModel::NewUnit { .. } || events[events.len() - 2]
                matches GameEventTypeModel::NewBuilding { .. }))
        }),
{
}


/// Clearing city-placed citizens moves no territory tile.
proof fn lemma_positions_clear_normals(t: Seq<TerritoryEntry>)
    ensures
        spec_territory_positions(spec_clear_normals(t)) =~= spec_territory_positions(t),
{
}

/// Assigning citizens greedily moves no territory tile.
proof fn lemma_positions_assign(
    t: Seq<TerritoryEntry>,
    m: GameMapModel,
    cpos: TilePosition,
    k: int,
)
    ensures
        spec_territory_positions(spec_assign_citizens(t, m, cpos, k)) =~= spec_territory_positions(
            t,
        ),
    decreases k,
{
    if k <= 0 {
    } else {
        let b = crate::city::spec_pick_best_from(t, m, cpos, 0, -1);
        if b < 0 || b >= t.len() {
        } else {
            let e = (t[b].0, (t[b].1.0, Some(Citizen::Normal)));
            let t2 = t.update(b, e);
            assert(spec_territory_positions(t2) =~= spec_territory_positions(t));
            lemma_positions_assign(t2, m, cpos, k - 1);
        }
    }
}

/// The citizen reassignment step moves no territory tile.
proof fn lemma_positions_update_citizens(
    t: Seq<TerritoryEntry>,
    m: GameMapModel,
    cpos: TilePosition,
    population: i16,
)
    ensures
        spec_territory_positions(spec_update_citizens(t, m, cpos, population))
            == spec_territory_positions(t),
{
    let t1 = spec_clear_normals(t);
    lemma_positions_clear_normals(t);
    lemma_positions_assign(t1, m, cpos, population - spec_employed_from(t1, 0));
}

/// Recomputing a city's derived state a second time, with nothing
/// changed in between, reproduces the first recomputation's border
/// list, producible lists, active effect list and growth threshold.
pub proof fn lemma_city_update_stable(
    c: CityModel,
    m: GameMapModel,
    catalog: Seq<(u64, BuildingTypeModel)>,
    tp: TechProgressModel,
)
    ensures
        ({
            let (c1, m1) = spec_city_update(c, m, catalog, tp);
            let (c2, m2) = spec_city_update(c1, m1, catalog, tp);
            &&& c2.borders == c1.borders
            &&& c2.producible_buildings == c1.producible_buildings
            &&& c2.producible_units == c1.producible_units
            &&& c2.effects == c1.effects
            &&& c2.required_food_for_population_increase
                == c1.required_food_for_population_increase
        }),
{
    let (c1, m1) = spec_city_update(c, m, catalog, tp);
    let (c2, m2) = spec_city_update(c1, m1, catalog, tp);
    lemma_positions_update_citizens(c.territory, m, c.position, c.population);
    assert(spec_territory_positions(c1.territory) == spec_territory_positions(c.territory));
    assert(c1.buildings == c.buildings);
    assert(c1.population == c.population);
    assert(c2.borders == c1.borders);
}


} // verus!
