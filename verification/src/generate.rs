//! Randomness at world generation: drawing random numbers is trusted,
//! everything decided from a drawn number is verified for every value
//! the draw could take.

use vstd::prelude::*;
use crate::game_world::GameWorld;
use crate::map_position::{MapUnit, TilePosition};

verus! {

pub assume_specification<T>[ rand::random::<T> ]() -> (r: T)
    where
        rand::distributions::Standard: rand::distributions::Distribution<T>,
;

/// Draw a random number; nothing is promised of the result.
#[verifier::external_body]
fn random_u64() -> u64 {
    rand::random::<u64>()
}

/// The weighted choice a draw lands on: walk the entries, subtracting
/// each weight from the draw reduced modulo the total, and take the
/// first entry whose weight exceeds what is left.
pub open spec fn spec_weighted_choice<T>(inputs: Seq<(T, u64)>, r: u64, i: int) -> Option<T>
    decreases inputs.len() - i,
{
    if i < 0 || i >= inputs.len() {
        None
    } else if r < inputs[i].1 {
        Some(inputs[i].0)
    } else {
        spec_weighted_choice(inputs, (r - inputs[i].1) as u64, i + 1)
    }
}

/// The sum of the weights from entry `i` on.
pub open spec fn spec_weight_total<T>(inputs: Seq<(T, u64)>, i: int) -> int
    decreases inputs.len() - i,
{
    if i < 0 || i >= inputs.len() {
        0
    } else {
        inputs[i].1 + spec_weight_total(inputs, i + 1)
    }
}

/// A draw below the remaining total lands on some entry.
proof fn lemma_weighted_choice_hits<T>(inputs: Seq<(T, u64)>, r: u64, i: int)
    requires
        0 <= i <= inputs.len(),
        r < spec_weight_total(inputs, i),
    ensures
        spec_weighted_choice(inputs, r, i) is Some,
    decreases inputs.len() - i,
{
    if i < inputs.len() && r >= inputs[i].1 {
        lemma_weighted_choice_hits(inputs, (r - inputs[i].1) as u64, i + 1);
    }
}

/// Pick an entry with probability proportional to its weight, from the
/// given draw. The result is deterministic in the draw.
pub fn choose_with_weights<T: Copy>(inputs: &Vec<(T, u64)>, draw: u64) -> (r: T)
    requires
        inputs@.len() > 0,
        spec_weight_total(inputs@, 0) > 0,
        spec_weight_total(inputs@, 0) <= u64::MAX,
    ensures
        Some(r) == spec_weighted_choice(
            inputs@,
            (draw as int % spec_weight_total(inputs@, 0)) as u64,
            0,
        ),
{
    let mut total: u64 = 0;
    let mut i: usize = 0;
    while i < inputs.len()
        invariant
            0 <= i <= inputs@.len(),
            total == spec_weight_total(inputs@, 0) - spec_weight_total(inputs@, i as int),
            spec_weight_total(inputs@, i as int) >= 0,
            spec_weight_total(inputs@, 0) <= u64::MAX,
            total <= spec_weight_total(inputs@, 0),
        decreases inputs@.len() - i,
    {
        proof {
            lemma_weight_total_nonneg(inputs@, i + 1);
        }
        total = total + inputs[i].1;
        i += 1;
    }
    let mut r: u64 = draw % total;
    proof {
        assert(total == spec_weight_total(inputs@, 0));
        assert(r == (draw as int % spec_weight_total(inputs@, 0)) as u64);
        lemma_weighted_choice_hits(inputs@, r, 0);
    }
    let ghost target = spec_weighted_choice(inputs@, r, 0);
    let mut j: usize = 0;
    loop
        invariant
            0 <= j <= inputs@.len(),
            spec_weighted_choice(inputs@, r, j as int) == target,
            target is Some,
            target == spec_weighted_choice(
                inputs@,
                (draw as int % spec_weight_total(inputs@, 0)) as u64,
                0,
            ),
        decreases inputs@.len() - j,
    {
        if j < inputs.len() {
            if r < inputs[j].1 {
                proof {
                    assert(spec_weighted_choice(inputs@, r, j as int) == Some(
                        inputs@[j as int].0,
                    ));
                }
                return inputs[j].0;
            }
            r = r - inputs[j].1;
            j += 1;
        } else {
            proof {
                assert(false);
            }
        }
    }
}

/// Weight totals are never negative.
proof fn lemma_weight_total_nonneg<T>(inputs: Seq<(T, u64)>, i: int)
    ensures
        spec_weight_total(inputs, i) >= 0,
    decreases inputs.len() - i,
{
    if 0 <= i < inputs.len() {
        lemma_weight_total_nonneg(inputs, i + 1);
    }
}

impl GameWorld {
    /// A uniformly drawn in-bounds position of this world's map; what
    /// position comes out depends on the draw alone.
    pub fn random_tile_position(&self) -> (r: TilePosition)
        requires
            self.map.width > 0,
            self.map.height > 0,
        ensures
            r.in_bounds(self.map.width, self.map.height),
    {
        let draw = random_u64();
        let x: MapUnit = (draw % (self.map.width as u64)) as MapUnit;
        let y: MapUnit = ((draw / 65536) % (self.map.height as u64)) as MapUnit;
        TilePosition { x, y }
    }
}


/// The spawn position the world generation gives civilization number
/// `i` of `count`: spread across the width, alternating between the
/// upper and lower third of the map.
pub open spec fn spec_spawn_position(
    width: crate::map_position::MapUnit,
    height: crate::map_position::MapUnit,
    i: int,
    count: int,
) -> (int, int) {
    (
        width * (i + 1) / (count + 1),
        if i % 2 == 0 {
            height / 3
        } else {
            height / 3 * 2
        },
    )
}

/// The world after seeding one civilization's starting units: its spawn
/// tile is made habitable, and a settler and a warrior are minted there
/// under ids drawn from the world's own generator. A spawn off the map
/// or a catalog without the two templates seeds nothing.
pub open spec fn spec_place_units_step(
    w: crate::game_world::GameWorldModel,
    i: int,
) -> crate::game_world::GameWorldModel {
    let count = w.civilizations.len() as int;
    let (xi, yi) = spec_spawn_position(w.map.width, w.map.height, i, count);
    if !(0 <= xi < w.map.width && 0 <= yi < w.map.height) {
        w
    } else {
        match (
            crate::table::tb_get(w.unit_templates, 1),
            crate::table::tb_get(w.unit_templates, 3),
        ) {
            (Some(settler), Some(warrior)) => {
                let owner = w.civilizations[i].1.id;
                let pos = TilePosition { x: xi as i16, y: yi as i16 };
                let t = crate::game_map::spec_tile_at(w.map, pos);
                let m1 = if t.tile_type != crate::tile::TileType::Plains {
                    crate::game_map::spec_set_tile(
                        w.map,
                        pos,
                        crate::tile::Tile { tile_type: crate::tile::TileType::Plains, ..t },
                    )
                } else {
                    w.map
                };
                let id1 = crate::unit::UnitId(crate::unit::spec_gen_next_u16(w.next_unit_id));
                let w1 = crate::game_world::GameWorldModel {
                    map: m1,
                    next_unit_id: crate::unit::spec_gen_next_u16(w.next_unit_id),
                    ..w
                };
                let w2 = crate::game_world::spec_apply_event(
                    w1,
                    crate::events::GameEventTypeModel::NewUnit {
                        template: settler,
                        owner,
                        position: pos,
                        unit_id: id1,
                    },
                );
                let id2 = crate::unit::UnitId(crate::unit::spec_gen_next_u16(w2.next_unit_id));
                let w3 = crate::game_world::GameWorldModel {
                    next_unit_id: crate::unit::spec_gen_next_u16(w2.next_unit_id),
                    ..w2
                };
                crate::game_world::spec_apply_event(
                    w3,
                    crate::events::GameEventTypeModel::NewUnit {
                        template: warrior,
                        owner,
                        position: pos,
                        unit_id: id2,
                    },
                )
            },
            _ => w,
        }
    }
}

/// The world after seeding every civilization from `i` on.
pub open spec fn spec_place_starting_units_from(
    w: crate::game_world::GameWorldModel,
    i: int,
    count: int,
) -> crate::game_world::GameWorldModel
    decreases count - i,
{
    if i < 0 || i >= count {
        w
    } else {
        spec_place_starting_units_from(spec_place_units_step(w, i), i + 1, count)
    }
}

/// The world with every civilization's starting units placed.
pub open spec fn spec_place_starting_units(
    w: crate::game_world::GameWorldModel,
) -> crate::game_world::GameWorldModel {
    spec_place_starting_units_from(w, 0, w.civilizations.len() as int)
}

/// One step of a river walk along a fixed diagonal.
pub open spec fn spec_river_step(
    edge: crate::map_position::EdgePosition,
    dir: u64,
) -> crate::map_position::EdgePosition {
    if dir == 0 {
        edge.spec_top_left()
    } else if dir == 1 {
        edge.spec_top_right()
    } else if dir == 2 {
        edge.spec_bottom_left()
    } else {
        edge.spec_bottom_right()
    }
}

/// The map after a river wanders from an edge along a fixed diagonal:
/// each step marks the edge on its in-map sides, and the walk ends when
/// it leaves the map, leaves the geometry's range, or outlasts its fuel.
pub open spec fn spec_river_walk(
    m: crate::game_map::GameMapModel,
    edge: crate::map_position::EdgePosition,
    dir: u64,
    fuel: int,
) -> crate::game_map::GameMapModel
    decreases fuel,
{
    if fuel <= 0 || !edge.0.in_range() {
        m
    } else {
        let (m2, modified) = crate::game_map::spec_add_river(m, edge);
        if !modified {
            m2
        } else {
            spec_river_walk(m2, spec_river_step(edge, dir), dir, fuel - 1)
        }
    }
}

/// The fuel a river walk gets: twice the map's span, which a walk that
/// marks a tile each step cannot outlast before leaving the map.
pub open spec fn spec_river_fuel(m: crate::game_map::GameMapModel) -> int {
    2 * (m.width + m.height) + 8
}

/// The world after one river wanders from a start tile's top edge along
/// the diagonal a draw picked.
pub open spec fn spec_generate_river(
    w: crate::game_world::GameWorldModel,
    start: TilePosition,
    dir: u64,
) -> crate::game_world::GameWorldModel {
    crate::game_world::GameWorldModel {
        map: spec_river_walk(
            w.map,
            crate::map_position::EdgePosition(start, crate::map_position::CanonicalTileEdge::Top),
            dir % 4,
            spec_river_fuel(w.map),
        ),
        ..w
    }
}

impl GameWorld {
    /// Seed every civilization's starting units: a settler and a warrior
    /// on a habitable tile spread across the map, with unit ids drawn
    /// from the world's own generator — so ids minted later never
    /// collide with them.
    pub fn place_starting_units(&mut self)
        requires
            old(self).wf(),
        ensures
            final(self).model() == spec_place_starting_units(old(self).model()),
            final(self).wf(),
    {
        let count = self.civilizations.len();
        let ghost target = spec_place_starting_units_from(old(self).model(), 0, count as int);
        let mut i: usize = 0;
        while i < count
            invariant
                0 <= i <= count,
                self.wf(),
                self.model().civilizations.len() == count,
                self.civilizations@.len() == count,
                spec_place_starting_units_from(self.model(), i as int, count as int) == target,
            decreases count - i,
        {
            self.place_units_for(i);
            i += 1;
        }
    }

    /// Seed one civilization's starting units, by roster index.
    fn place_units_for(&mut self, i: usize)
        requires
            old(self).wf(),
            i < old(self).civilizations@.len(),
        ensures
            final(self).model() == spec_place_units_step(old(self).model(), i as int),
            final(self).wf(),
            final(self).model().civilizations == old(self).model().civilizations,
    {
        let count = self.civilizations.len();
        let width = self.map.width();
        let height = self.map.height();
        proof {
            assert((width as int) * (i as int + 1) <= (30000int) * 0x10000000000000000int)
                by (nonlinear_arith)
                requires
                    0 <= width <= 30000,
                    0 <= i as int + 1 <= 0x10000000000000000int,
            ;
        }
        let xi: u128 = (width as u128) * (i as u128 + 1) / (count as u128 + 1);
        let yi: i32 = if i % 2 == 0 {
            (height as i32) / 3
        } else {
            (height as i32) / 3 * 2
        };
        proof {
            assert(xi as int == spec_spawn_position(width, height, i as int, count as int).0);
            assert(yi as int == spec_spawn_position(width, height, i as int, count as int).1);
        }
        if !(xi < width as u128 && 0 <= yi && yi < height as i32) {
            return ;
        }
        proof {
            crate::table::lemma_tb_map_get(
                self.unit_templates.table@,
                |t: crate::unit::UnitTemplate| t.model(),
                1,
            );
            crate::table::lemma_tb_map_get(
                self.unit_templates.table@,
                |t: crate::unit::UnitTemplate| t.model(),
                3,
            );
        }
        let settler = match self.unit_templates.table.get(1) {
            Some(t) => t.duplicate(),
            None => { return ; },
        };
        let warrior = match self.unit_templates.table.get(3) {
            Some(t) => t.duplicate(),
            None => { return ; },
        };
        let owner = self.civilizations.entries[i].1.id;
        proof {
            assert(self.model().civilizations[i as int].1.id == owner);
        }
        let pos = TilePosition { x: xi as i16, y: yi as i16 };
        proof {
            assert(pos.x as int == spec_spawn_position(width, height, i as int, count as int).0);
        }
        let t = *self.map.tile(pos);
        if !(t.tile_type == crate::tile::TileType::Plains) {
            self.map.set_tile(
                pos,
                crate::tile::Tile { tile_type: crate::tile::TileType::Plains, ..t },
            );
            proof {
                GameWorld::lemma_tile_update_preserves_bounds(old(self), self);
            }
        }
        let id1 = self.unit_id_generator.next();
        self.apply_event(
            &crate::events::GameEventType::NewUnit {
                template: settler,
                owner,
                position: pos,
                unit_id: id1,
            },
        );
        let id2 = self.unit_id_generator.next();
        self.apply_event(
            &crate::events::GameEventType::NewUnit {
                template: warrior,
                owner,
                position: pos,
                unit_id: id2,
            },
        );
    }

    /// Walk one river from a start tile's top edge along the diagonal a
    /// draw picked, marking every in-map edge it crosses.
    pub fn generate_river(&mut self, start: TilePosition, dir: u64)
        requires
            old(self).wf(),
            start.in_range(),
        ensures
            final(self).model() == spec_generate_river(old(self).model(), start, dir),
            final(self).wf(),
    {
        let dir = dir % 4;
        let span: i32 = 2 * (self.map.width() as i32 + self.map.height() as i32) + 8;
        let mut fuel: i32 = span;
        let mut edge = crate::map_position::EdgePosition(
            start,
            crate::map_position::CanonicalTileEdge::Top,
        );
        let ghost target = spec_river_walk(
            old(self).model().map,
            edge,
            dir,
            spec_river_fuel(old(self).model().map),
        );
        proof {
            assert(span as int == spec_river_fuel(old(self).model().map));
        }
        loop
            invariant_except_break
                old(self).wf(),
                self.wf(),
                0 <= fuel,
                dir < 4,
                self.map.width == old(self).map.width,
                self.map.height == old(self).map.height,
                *self == (GameWorld { map: self.map, ..*old(self) }),
                spec_river_walk(self.model().map, edge, dir, fuel as int) == target,
            ensures
                self.wf(),
                self.map.width == old(self).map.width,
                self.map.height == old(self).map.height,
                *self == (GameWorld { map: self.map, ..*old(self) }),
                self.model().map == target,
            decreases fuel,
        {
            if fuel == 0 {
                break ;
            }
            if !(-crate::map_position::MAX_MAP_DIM <= edge.0.x
                && edge.0.x <= crate::map_position::MAX_MAP_DIM
                && -crate::map_position::MAX_MAP_DIM <= edge.0.y
                && edge.0.y <= crate::map_position::MAX_MAP_DIM) {
                break ;
            }
            let ghost before = self.model().map;
            let modified = self.map.add_river(edge);
            proof {
                GameWorld::lemma_tile_update_preserves_bounds(old(self), self);
                assert((self.model().map, modified) == crate::game_map::spec_add_river(
                    before,
                    edge,
                ));
            }
            if !modified {
                break ;
            }
            edge = match dir {
                0 => edge.top_left(),
                1 => edge.top_right(),
                2 => edge.bottom_left(),
                _ => edge.bottom_right(),
            };
            fuel = fuel - 1;
        }
    }
}


} // verus!
