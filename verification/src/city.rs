//! Cities: identity, population and citizen assignment, territory and
//! borders, production, and the building effects that modify yields.

use vstd::prelude::*;
use crate::building::{BuildingType, BuildingTypeId, BuildingTypeModel};
use crate::civilization::CivilizationId;
use crate::map_position::{EdgePosition, TilePosition};
use crate::tile::{TileMatcher, TileMatcherModel};
use crate::unit::{UnitTemplate, UnitTemplateId};
use crate::yields::{Yield, YieldMultiplier, YieldValue, Yields};

verus! {

/// A population unit assigned to work a territory tile: placed by the
/// city itself, or locked in place by the player.
#[derive(Clone, Copy, Debug, PartialEq, Eq, Structural)]
pub enum Citizen {
    Normal,
    Locked,
}

/// Identifier of a city in the world.
#[derive(Clone, Copy, Debug, PartialEq, Eq, Structural)]
pub struct CityId(pub u16);

impl CityId {
    /// The table key for this id.
    pub open spec fn spec_key(self) -> u64 {
        self.0 as u64
    }

    #[verifier::when_used_as_spec(spec_key)]
    pub fn key(self) -> (r: u64)
        ensures
            r == self.spec_key(),
    {
        self.0 as u64
    }
}

/// Mints city ids, starting from one and never reusing one.
pub struct CityIdGenerator {
    pub next: u16,
}

impl CityIdGenerator {
    pub fn new() -> (r: Self)
        ensures
            r.next == 0,
    {
        CityIdGenerator { next: 0 }
    }

    pub fn next(&mut self) -> (r: CityId)
        ensures
            final(self).next == crate::unit::spec_gen_next_u16(old(self).next),
            r == CityId(crate::unit::spec_gen_next_u16(old(self).next)),
    {
        if self.next < u16::MAX {
            self.next = self.next + 1;
        }
        CityId(self.next)
    }
}

/// A standing effect a building grants its city.
#[derive(Clone, Debug)]
pub enum CityEffect {
    /// A flat addition to the city's total yields.
    AddYield(Yield),
    /// A multiplier on one component of the city's total yields.
    MulYield(YieldMultiplier),
    /// A flat addition to each territory tile that meets a condition.
    AddTileYield { yield_: Yield, matcher: TileMatcher },
}

/// The spec-level shape of a city effect.
#[verifier::ext_equal]
pub enum CityEffectModel {
    AddYield(Yield),
    MulYield(YieldMultiplier),
    AddTileYield { yield_: Yield, matcher: TileMatcherModel },
}

impl CityEffect {
    pub open spec fn model(&self) -> CityEffectModel {
        match self {
            CityEffect::AddYield(y) => CityEffectModel::AddYield(*y),
            CityEffect::MulYield(m) => CityEffectModel::MulYield(*m),
            CityEffect::AddTileYield { yield_, matcher } => CityEffectModel::AddTileYield {
                yield_: *yield_,
                matcher: matcher.model(),
            },
        }
    }

    pub fn duplicate(&self) -> (r: Self)
        ensures
            r.model() == self.model(),
    {
        match self {
            CityEffect::AddYield(y) => CityEffect::AddYield(*y),
            CityEffect::MulYield(m) => CityEffect::MulYield(*m),
            CityEffect::AddTileYield { yield_, matcher } => CityEffect::AddTileYield {
                yield_: *yield_,
                matcher: matcher.duplicate(),
            },
        }
    }

    /// When effects apply: per-tile additions first, then flat additions,
    /// then multipliers. Lower applies earlier.
    pub open spec fn spec_priority(&self) -> u64 {
        match self {
            CityEffect::AddTileYield { .. } => 1,
            CityEffect::AddYield(..) => 2,
            CityEffect::MulYield(..) => 3,
        }
    }

    pub fn priority(&self) -> (r: u64)
        ensures
            r == self.spec_priority(),
    {
        match self {
            CityEffect::AddTileYield { .. } => 1,
            CityEffect::AddYield(..) => 2,
            CityEffect::MulYield(..) => 3,
        }
    }
}

/// The priority of an effect model; matches `CityEffect::spec_priority`.
pub open spec fn spec_effect_model_priority(e: CityEffectModel) -> u64 {
    match e {
        CityEffectModel::AddTileYield { .. } => 1,
        CityEffectModel::AddYield(..) => 2,
        CityEffectModel::MulYield(..) => 3,
    }
}

/// What a city's production slot can name, carried in events: a unit by
/// its full template, or a building by id.
#[derive(Debug)]
pub enum ProducingItemId {
    Unit(UnitTemplate),
    Building(BuildingTypeId),
}

/// The spec-level shape of a production order.
#[verifier::ext_equal]
pub enum ProducingItemIdModel {
    Unit(crate::unit::UnitTemplateModel),
    Building(BuildingTypeId),
}

impl ProducingItemId {
    pub open spec fn model(&self) -> ProducingItemIdModel {
        match self {
            ProducingItemId::Unit(t) => ProducingItemIdModel::Unit(t.model()),
            ProducingItemId::Building(id) => ProducingItemIdModel::Building(*id),
        }
    }

    pub fn duplicate(&self) -> (r: Self)
        ensures
            r.model() == self.model(),
    {
        match self {
            ProducingItemId::Unit(t) => ProducingItemId::Unit(t.duplicate()),
            ProducingItemId::Building(id) => ProducingItemId::Building(*id),
        }
    }
}

/// What a city is producing: a unit template or a full building type.
pub enum ProducingItem {
    Unit(UnitTemplate),
    Building(BuildingType),
}

/// The spec-level shape of what a city is producing.
#[verifier::ext_equal]
pub enum ProducingItemModel {
    Unit(crate::unit::UnitTemplateModel),
    Building(BuildingTypeModel),
}

impl ProducingItem {
    pub open spec fn model(&self) -> ProducingItemModel {
        match self {
            ProducingItem::Unit(t) => ProducingItemModel::Unit(t.model()),
            ProducingItem::Building(b) => ProducingItemModel::Building(b.model()),
        }
    }

    pub open spec fn wf(&self) -> bool {
        match self {
            ProducingItem::Unit(t) => t.wf(),
            ProducingItem::Building(b) => b.wf(),
        }
    }

    pub fn duplicate(&self) -> (r: Self)
        ensures
            r.model() == self.model(),
            r.wf() == self.wf(),
    {
        match self {
            ProducingItem::Unit(t) => ProducingItem::Unit(t.duplicate()),
            ProducingItem::Building(b) => ProducingItem::Building(b.duplicate()),
        }
    }

    pub fn name(&self) -> (r: &String)
        ensures
            r@ == match self.model() {
                ProducingItemModel::Unit(t) => t.name,
                ProducingItemModel::Building(b) => b.name,
            },
    {
        match self {
            ProducingItem::Unit(t) => &t.name,
            ProducingItem::Building(b) => &b.name,
        }
    }

    pub fn production_cost(&self) -> (r: YieldValue)
        ensures
            r == spec_production_cost(self.model()),
    {
        match self {
            ProducingItem::Unit(t) => t.production_cost,
            ProducingItem::Building(b) => b.production_cost,
        }
    }
}

/// The production cost of a production order.
pub open spec fn spec_production_cost(m: ProducingItemModel) -> YieldValue {
    match m {
        ProducingItemModel::Unit(t) => t.production_cost,
        ProducingItemModel::Building(b) => b.production_cost,
    }
}

/// The integer square root: the unique `r` with `r*r <= n < (r+1)*(r+1)`.
pub open spec fn spec_sqrt_floor(n: int) -> int {
    choose|r: int| 0 <= r && #[trigger] (r * r) <= n < (r + 1) * (r + 1)
}

/// Any value with the square-root property is the integer square root.
pub proof fn lemma_sqrt_floor_unique(n: int, r: int)
    requires
        0 <= r,
        r * r <= n,
        n < (r + 1) * (r + 1),
    ensures
        r == spec_sqrt_floor(n),
{
    let c = spec_sqrt_floor(n);
    assert(0 <= c && c * c <= n < (c + 1) * (c + 1));
    if c < r {
        assert((c + 1) * (c + 1) <= r * r) by (nonlinear_arith)
            requires
                0 <= c,
                c + 1 <= r,
        ;
    }
    if r < c {
        assert((r + 1) * (r + 1) <= c * c) by (nonlinear_arith)
            requires
                0 <= r,
                r + 1 <= c,
        ;
    }
}

/// The integer square root, by bisection.
pub fn isqrt(n: u64) -> (r: u64)
    ensures
        r * r <= n < (r + 1) * (r + 1),
        r == spec_sqrt_floor(n as int),
{
    let mut lo: u64 = 0;
    let mut hi: u64 = 4294967296;
    proof {
        assert((4294967296int) * 4294967296 > n);
    }
    while lo + 1 < hi
        invariant
            0 <= lo < hi <= 4294967296,
            (lo as int) * (lo as int) <= n,
            (n as int) < (hi as int) * (hi as int),
        decreases hi - lo,
    {
        let mid = lo + (hi - lo) / 2;
        proof {
            assert((mid as int) * (mid as int) <= (4294967295int) * 4294967295) by (nonlinear_arith)
                requires
                    0 <= mid <= 4294967295,
            ;
        }
        if mid * mid <= n {
            lo = mid;
        } else {
            hi = mid;
        }
    }
    proof {
        assert(lo + 1 == hi);
        lemma_sqrt_floor_unique(n as int, lo as int);
    }
    lo
}

/// Food needed for the next population increase, in tenths: a base of
/// fifteen points, eight points per citizen beyond the first, and a
/// superlinear term that grows with population to the power three halves.
pub open spec fn spec_required_food(population: i16) -> u64 {
    let q = if population >= 1 {
        population - 1
    } else {
        0
    };
    crate::yields::yv_clamp(150 + 80 * q + spec_sqrt_floor(100 * ((q * q) * q)))
}

/// Compute the food threshold for the next population increase.
pub fn required_food(population: i16) -> (r: YieldValue)
    ensures
        r.0 == spec_required_food(population),
        r.wf(),
{
    let q: u64 = if population >= 1 {
        (population - 1) as u64
    } else {
        0
    };
    proof {
        assert((q as int) * (q as int) <= (32767int) * 32767 && (q as int) * (q as int) * (
        q as int) <= (32767int) * 32767 * 32767) by (nonlinear_arith)
            requires
                0 <= q <= 32767,
        ;
    }
    let cubed: u64 = 100 * ((q * q) * q);
    let s = isqrt(cubed);
    proof {
        assert(cubed as int == 100 * (((q as int) * (q as int)) * (q as int)));
    }
    proof {
        assert(s * s <= cubed);
        assert((60000000int) * 60000000 > cubed);
        if s >= 60000000 {
            assert((s as int) * (s as int) >= (60000000int) * 60000000) by (nonlinear_arith)
                requires
                    s >= 60000000,
            ;
        }
        assert(s < 60000000);
    }
    let total: u64 = 150 + 80 * q + s;
    proof {
        assert(total <= crate::yields::YIELD_VALUE_MAX);
        assert(total == spec_required_food(population));
    }
    YieldValue(total)
}

/// One entry of a city's territory: the claimed position and the
/// citizen working it, if any, keyed by the position's table key.
pub type TerritoryEntry = (u64, (TilePosition, Option<Citizen>));

/// The table key of a position; distinct positions get distinct keys.
pub open spec fn spec_pos_key(p: TilePosition) -> u64 {
    ((p.x + 32768) * 65536 + (p.y + 32768)) as u64
}

/// Compute the table key of a position.
pub fn pos_key(p: TilePosition) -> (r: u64)
    ensures
        r == spec_pos_key(p),
{
    ((p.x as i64 + 32768) as u64) * 65536 + ((p.y as i64 + 32768) as u64)
}

/// The key names the position.
pub proof fn lemma_pos_key_injective(p: TilePosition, q: TilePosition)
    requires
        spec_pos_key(p) == spec_pos_key(q),
    ensures
        p == q,
{
}

/// The positions a territory claims, in table order.
pub open spec fn spec_territory_positions(terr: Seq<TerritoryEntry>) -> Seq<TilePosition> {
    terr.map_values(|e: TerritoryEntry| e.1.0)
}

/// The territory with every city-placed citizen unassigned; locked
/// citizens stay.
pub open spec fn spec_clear_normals(terr: Seq<TerritoryEntry>) -> Seq<TerritoryEntry> {
    terr.map_values(
        |e: TerritoryEntry|
            (
                e.0,
                (
                    e.1.0,
                    if e.1.1 == Some(Citizen::Normal) {
                        None
                    } else {
                        e.1.1
                    },
                ),
            ),
    )
}

/// How many territory tiles have a citizen assigned, from `i` on.
pub open spec fn spec_employed_from(terr: Seq<TerritoryEntry>, i: int) -> int
    decreases terr.len() - i,
{
    if i < 0 || i >= terr.len() {
        0
    } else {
        (if terr[i].1.1 is Some {
            1int
        } else {
            0int
        }) + spec_employed_from(terr, i + 1)
    }
}

/// Index of the best workable tile from `i` on: unworked, not the city
/// tile itself, with the highest total yields; ties keep the earlier
/// index. `best` is the best index seen so far, or -1.
pub open spec fn spec_pick_best_from(
    terr: Seq<TerritoryEntry>,
    m: crate::game_map::GameMapModel,
    cpos: TilePosition,
    i: int,
    best: int,
) -> int
    decreases terr.len() - i,
{
    if i < 0 || i >= terr.len() {
        best
    } else {
        let cand = terr[i].1.0 != cpos && terr[i].1.1 is None;
        let better = cand && (best < 0 || best >= terr.len() || crate::game_map::spec_tile_at(
            m,
            terr[i].1.0,
        ).spec_yields().spec_total() > crate::game_map::spec_tile_at(
            m,
            terr[best].1.0,
        ).spec_yields().spec_total());
        spec_pick_best_from(
            terr,
            m,
            cpos,
            i + 1,
            if better {
                i
            } else {
                best
            },
        )
    }
}

/// The territory after greedily assigning up to `k` citizens, one at a
/// time, each to the best workable tile left.
pub open spec fn spec_assign_citizens(
    terr: Seq<TerritoryEntry>,
    m: crate::game_map::GameMapModel,
    cpos: TilePosition,
    k: int,
) -> Seq<TerritoryEntry>
    decreases k,
{
    if k <= 0 {
        terr
    } else {
        let b = spec_pick_best_from(terr, m, cpos, 0, -1);
        if b < 0 || b >= terr.len() {
            terr
        } else {
            spec_assign_citizens(
                terr.update(b, (terr[b].0, (terr[b].1.0, Some(Citizen::Normal)))),
                m,
                cpos,
                k - 1,
            )
        }
    }
}

/// The territory after the citizen reassignment step: city-placed
/// citizens are cleared, then the unemployed are assigned greedily to
/// the highest-total-yield unworked tiles.
pub open spec fn spec_update_citizens(
    terr: Seq<TerritoryEntry>,
    m: crate::game_map::GameMapModel,
    cpos: TilePosition,
    population: i16,
) -> Seq<TerritoryEntry> {
    let t1 = spec_clear_normals(terr);
    let k = population - spec_employed_from(t1, 0);
    spec_assign_citizens(t1, m, cpos, k)
}

/// Sum of the yields of the city tile and every worked territory tile,
/// from `i` on.
pub open spec fn spec_worked_tile_sum(
    terr: Seq<TerritoryEntry>,
    m: crate::game_map::GameMapModel,
    cpos: TilePosition,
    i: int,
    acc: Yields,
) -> Yields
    decreases terr.len() - i,
{
    if i < 0 || i >= terr.len() {
        acc
    } else {
        let acc2 = if terr[i].1.0 == cpos || terr[i].1.1 is Some {
            crate::yields::spec_yields_add(
                acc,
                crate::game_map::spec_tile_at(m, terr[i].1.0).spec_yields(),
            )
        } else {
            acc
        };
        spec_worked_tile_sum(terr, m, cpos, i + 1, acc2)
    }
}

/// A city's recomputed total yields: population-derived science plus
/// the yields of the city tile and every worked tile.
pub open spec fn spec_city_base_yields(
    terr: Seq<TerritoryEntry>,
    m: crate::game_map::GameMapModel,
    cpos: TilePosition,
    population: i16,
) -> Yields {
    let pop_yields = Yields {
        food: YieldValue(0),
        production: YieldValue(0),
        science: YieldValue(crate::yields::yv_clamp(10 * population)),
    };
    crate::yields::spec_yields_add(
        pop_yields,
        spec_worked_tile_sum(
            terr,
            m,
            cpos,
            0,
            Yields { food: YieldValue(0), production: YieldValue(0), science: YieldValue(0) },
        ),
    )
}

/// The producible buildings: every unlocked building type, in id order,
/// that the city has not already built, resolved in the catalog.
pub open spec fn spec_producible_buildings(
    unlocked: Seq<(u64, ())>,
    owned: Seq<(u64, BuildingTypeModel)>,
    catalog: Seq<(u64, BuildingTypeModel)>,
    i: int,
    acc: Seq<BuildingTypeModel>,
) -> Seq<BuildingTypeModel>
    decreases unlocked.len() - i,
{
    if i < 0 || i >= unlocked.len() {
        acc
    } else {
        let k = unlocked[i].0;
        let acc2 = if !crate::table::tb_contains(owned, k) {
            match crate::table::tb_get(catalog, k) {
                Some(b) => acc.push(b),
                None => acc,
            }
        } else {
            acc
        };
        spec_producible_buildings(unlocked, owned, catalog, i + 1, acc2)
    }
}

/// The producible units: every unlocked unit template, in id order.
pub open spec fn spec_producible_units(
    unlocked: Seq<(u64, ())>,
    i: int,
    acc: Seq<UnitTemplateId>,
) -> Seq<UnitTemplateId>
    decreases unlocked.len() - i,
{
    if i < 0 || i >= unlocked.len() {
        acc
    } else {
        let k = unlocked[i].0;
        let acc2 = if k <= u16::MAX {
            acc.push(UnitTemplateId(k as u16))
        } else {
            acc
        };
        spec_producible_units(unlocked, i + 1, acc2)
    }
}

/// Every effect of every owned building, in building id order.
pub open spec fn spec_collect_effects(
    owned: Seq<(u64, BuildingTypeModel)>,
    i: int,
    acc: Seq<CityEffectModel>,
) -> Seq<CityEffectModel>
    decreases owned.len() - i,
{
    if i < 0 || i >= owned.len() {
        acc
    } else {
        spec_collect_effects(owned, i + 1, acc + owned[i].1.effects)
    }
}

/// The effects of one application priority, in building order.
pub open spec fn spec_effects_with_priority(
    all: Seq<CityEffectModel>,
    p: u64,
) -> Seq<CityEffectModel> {
    all.filter(|e: CityEffectModel| spec_effect_model_priority(e) == p)
}

/// The effects of priority up to `p`, in priority order.
pub open spec fn spec_filter_priorities(all: Seq<CityEffectModel>, p: u64) -> Seq<CityEffectModel>
    decreases p,
{
    if p == 0 {
        Seq::<CityEffectModel>::empty()
    } else {
        spec_filter_priorities(all, (p - 1) as u64) + spec_effects_with_priority(all, p)
    }
}

/// The active effects in application order: per-tile additions first,
/// then flat additions, then multipliers, keeping building order within
/// each class.
pub open spec fn spec_sorted_effects(owned: Seq<(u64, BuildingTypeModel)>) -> Seq<CityEffectModel> {
    spec_filter_priorities(spec_collect_effects(owned, 0, Seq::<CityEffectModel>::empty()), 3)
}

/// The map with every claimed tile's cached effect bonus cleared, from
/// entry `i` on.
pub open spec fn spec_reset_territory_yields(
    terr: Seq<TerritoryEntry>,
    m: crate::game_map::GameMapModel,
    i: int,
) -> crate::game_map::GameMapModel
    decreases terr.len() - i,
{
    if i < 0 || i >= terr.len() {
        m
    } else {
        let p = terr[i].1.0;
        let t = crate::game_map::spec_tile_at(m, p);
        let m2 = match t.territory {
            Some(ter) => crate::game_map::spec_set_tile(
                m,
                p,
                crate::tile::Tile {
                    territory: Some(
                        crate::tile::Territory {
                            city_effect_yields: Yields {
                                food: YieldValue(0),
                                production: YieldValue(0),
                                science: YieldValue(0),
                            },
                            ..ter
                        },
                    ),
                    ..t
                },
            ),
            None => m,
        };
        spec_reset_territory_yields(terr, m2, i + 1)
    }
}

/// The map with a per-tile bonus added to every claimed tile that meets
/// the condition, from entry `i` on.
pub open spec fn spec_apply_tile_effect(
    terr: Seq<TerritoryEntry>,
    m: crate::game_map::GameMapModel,
    y: Yield,
    matcher: TileMatcherModel,
    i: int,
) -> crate::game_map::GameMapModel
    decreases terr.len() - i,
{
    if i < 0 || i >= terr.len() {
        m
    } else {
        let p = terr[i].1.0;
        let t = crate::game_map::spec_tile_at(m, p);
        let m2 = if crate::tile::spec_matcher_matches(matcher, t) {
            match t.territory {
                Some(ter) => crate::game_map::spec_set_tile(
                    m,
                    p,
                    crate::tile::Tile {
                        territory: Some(
                            crate::tile::Territory {
                                city_effect_yields: crate::yields::spec_yields_add_yield(
                                    ter.city_effect_yields,
                                    y,
                                ),
                                ..ter
                            },
                        ),
                        ..t
                    },
                ),
                None => m,
            }
        } else {
            m
        };
        spec_apply_tile_effect(terr, m2, y, matcher, i + 1)
    }
}

/// One effect applied to the city's yields or to its territory tiles.
pub open spec fn spec_apply_one_effect(
    yields: Yields,
    terr: Seq<TerritoryEntry>,
    m: crate::game_map::GameMapModel,
    e: CityEffectModel,
) -> (Yields, crate::game_map::GameMapModel) {
    match e {
        CityEffectModel::AddYield(y) => (crate::yields::spec_yields_add_yield(yields, y), m),
        CityEffectModel::MulYield(mu) => (crate::yields::spec_yields_mul_multiplier(yields, mu), m),
        CityEffectModel::AddTileYield { yield_, matcher } => (
            yields,
            spec_apply_tile_effect(terr, m, yield_, matcher, 0),
        ),
    }
}

/// How many territory tiles have a locked citizen, from `i` on.
pub open spec fn spec_locked_from(terr: Seq<TerritoryEntry>, i: int) -> int
    decreases terr.len() - i,
{
    if i < 0 || i >= terr.len() {
        0
    } else {
        (if terr[i].1.1 == Some(Citizen::Locked) {
            1int
        } else {
            0int
        }) + spec_locked_from(terr, i + 1)
    }
}

/// Index of the first locked citizen from `i` on, or -1 if there is none.
pub open spec fn spec_first_locked(terr: Seq<TerritoryEntry>, i: int) -> int
    decreases terr.len() - i,
{
    if i < 0 || i >= terr.len() {
        -1
    } else if terr[i].1.1 == Some(Citizen::Locked) {
        i
    } else {
        spec_first_locked(terr, i + 1)
    }
}

/// Index of the best expansion candidate from `i` on: inside the map,
/// unclaimed, and of the highest total yields; ties keep the earlier one.
pub open spec fn spec_pick_expand_from(
    cands: Seq<(TilePosition, crate::map_position::MapUnit)>,
    m: crate::game_map::GameMapModel,
    i: int,
    best: int,
) -> int
    decreases cands.len() - i,
{
    if i < 0 || i >= cands.len() {
        best
    } else {
        let p = cands[i].0;
        let cand = p.in_bounds(m.width, m.height) && crate::game_map::spec_tile_at(
            m,
            p,
        ).territory is None;
        let better = cand && (best < 0 || best >= cands.len() || crate::game_map::spec_tile_at(
            m,
            p,
        ).spec_yields().spec_total() > crate::game_map::spec_tile_at(
            m,
            cands[best].0,
        ).spec_yields().spec_total());
        spec_pick_expand_from(
            cands,
            m,
            i + 1,
            if better {
                i
            } else {
                best
            },
        )
    }
}

/// The next tile a city at `cpos` would expand to: the best unclaimed
/// tile at distance two, then at distance three.
pub open spec fn spec_next_tile_to_expand(
    cpos: TilePosition,
    m: crate::game_map::GameMapModel,
) -> Option<TilePosition> {
    let s2 = crate::map_position::spec_neighbors_at_distance(cpos, m.width, m.height, 2, false);
    let b2 = spec_pick_expand_from(s2, m, 0, -1);
    if 0 <= b2 < s2.len() {
        Some(s2[b2].0)
    } else {
        let s3 = crate::map_position::spec_neighbors_at_distance(cpos, m.width, m.height, 3, false);
        let b3 = spec_pick_expand_from(s3, m, 0, -1);
        if 0 <= b3 < s3.len() {
            Some(s3[b3].0)
        } else {
            None
        }
    }
}

/// The spec-level shape of a city.
#[verifier::ext_equal]
pub struct CityModel {
    pub id: CityId,
    pub owner: CivilizationId,
    pub position: TilePosition,
    pub name: Seq<char>,
    pub producing: Option<(ProducingItemModel, YieldValue)>,
    pub population: i16,
    pub territory: Seq<TerritoryEntry>,
    pub borders: Seq<EdgePosition>,
    pub turns_until_territory_growth: i16,
    pub yields: Yields,
    pub accumulated_food: YieldValue,
    pub required_food_for_population_increase: YieldValue,
    pub buildings: Seq<(u64, BuildingTypeModel)>,
    pub producible_buildings: Seq<BuildingTypeModel>,
    pub producible_units: Seq<UnitTemplateId>,
    pub effects: Seq<CityEffectModel>,
}

/// The city and map after the full derived-state recomputation: borders
/// from territory, citizens reassigned, yields resummed, producible
/// lists rebuilt from unlocked tech, effects re-sorted and re-applied to
/// a cleared map cache, and the food threshold recomputed.
pub open spec fn spec_city_update(
    c: CityModel,
    m: crate::game_map::GameMapModel,
    catalog: Seq<(u64, BuildingTypeModel)>,
    tp: crate::tech::TechProgressModel,
) -> (CityModel, crate::game_map::GameMapModel) {
    let borders = crate::map_position::spec_borders(spec_territory_positions(c.territory));
    let terr = spec_update_citizens(c.territory, m, c.position, c.population);
    let yields0 = spec_city_base_yields(terr, m, c.position, c.population);
    let producible_b = spec_producible_buildings(
        tp.unlocked_buildings,
        c.buildings,
        catalog,
        0,
        Seq::<BuildingTypeModel>::empty(),
    );
    let producible_u = spec_producible_units(
        tp.unlocked_units,
        0,
        Seq::<UnitTemplateId>::empty(),
    );
    let effects = spec_sorted_effects(c.buildings);
    let m1 = spec_reset_territory_yields(terr, m, 0);
    let (yields1, m2) = spec_apply_effects_from(yields0, terr, m1, effects, 0);
    (
        CityModel {
            territory: terr,
            borders,
            yields: yields1,
            producible_buildings: producible_b,
            producible_units: producible_u,
            effects,
            required_food_for_population_increase: YieldValue(spec_required_food(c.population)),
            ..c
        },
        m2,
    )
}

/// Territory and map after claiming, from candidate `i` on, every
/// candidate tile that no city holds yet.
pub open spec fn spec_claim_tiles(
    cands: Seq<(TilePosition, crate::map_position::MapUnit)>,
    i: int,
    terr: Seq<TerritoryEntry>,
    m: crate::game_map::GameMapModel,
    id: CityId,
) -> (Seq<TerritoryEntry>, crate::game_map::GameMapModel)
    decreases cands.len() - i,
{
    if i < 0 || i >= cands.len() {
        (terr, m)
    } else {
        let p = cands[i].0;
        let (terr2, m2) = if p.in_bounds(m.width, m.height) && crate::game_map::spec_tile_at(
            m,
            p,
        ).territory is None {
            (
                crate::table::tb_insert(terr, spec_pos_key(p), (p, None::<Citizen>)),
                crate::game_map::spec_set_tile(
                    m,
                    p,
                    crate::tile::Tile {
                        territory: Some(
                            crate::tile::Territory {
                                city_id: id,
                                city_effect_yields: Yields {
                                    food: YieldValue(0),
                                    production: YieldValue(0),
                                    science: YieldValue(0),
                                },
                            },
                        ),
                        ..crate::game_map::spec_tile_at(m, p)
                    },
                ),
            )
        } else {
            (terr, m)
        };
        spec_claim_tiles(cands, i + 1, terr2, m2, id)
    }
}

/// A freshly founded city and the map it claimed its tiles on.
pub open spec fn spec_city_new(
    id: CityId,
    owner: CivilizationId,
    position: TilePosition,
    name: Seq<char>,
    m: crate::game_map::GameMapModel,
    catalog: Seq<(u64, BuildingTypeModel)>,
    tp: crate::tech::TechProgressModel,
) -> (CityModel, crate::game_map::GameMapModel) {
    let cands = crate::map_position::spec_neighbors_at_distance(position, m.width, m.height, 1, true);
    let (terr, m1) = spec_claim_tiles(cands, 0, Seq::<TerritoryEntry>::empty(), m, id);
    let m2 = crate::game_map::spec_set_tile(
        m1,
        position,
        crate::tile::Tile {
            city: Some(id),
            ..crate::game_map::spec_tile_at(m1, position)
        },
    );
    let base = CityModel {
        id,
        owner,
        position,
        name,
        producing: None,
        population: 1,
        territory: terr,
        borders: Seq::<EdgePosition>::empty(),
        turns_until_territory_growth: TERRITORY_EXPAND_TURNS,
        yields: Yields { food: YieldValue(0), production: YieldValue(0), science: YieldValue(0) },
        accumulated_food: YieldValue(0),
        required_food_for_population_increase: YieldValue(0),
        buildings: Seq::<(u64, BuildingTypeModel)>::empty(),
        producible_buildings: Seq::<BuildingTypeModel>::empty(),
        producible_units: Seq::<UnitTemplateId>::empty(),
        effects: Seq::<CityEffectModel>::empty(),
    };
    spec_city_update(base, m2, catalog, tp)
}

/// The city and map at a turn start: derived state recomputed, one
/// turn's production banked into the produced item, one turn's food
/// banked, and the growth countdown stepped.
pub open spec fn spec_city_on_turn_start(
    c: CityModel,
    m: crate::game_map::GameMapModel,
    catalog: Seq<(u64, BuildingTypeModel)>,
    tp: crate::tech::TechProgressModel,
) -> (CityModel, crate::game_map::GameMapModel) {
    let (c1, m1) = spec_city_update(c, m, catalog, tp);
    let c2 = CityModel {
        producing: match c1.producing {
            Some((item, spent)) => Some(
                (item, YieldValue(crate::yields::yv_add(spent.0, c1.yields.production.0))),
            ),
            None => None,
        },
        accumulated_food: YieldValue(
            crate::yields::yv_add(c1.accumulated_food.0, c1.yields.food.0),
        ),
        turns_until_territory_growth: if c1.turns_until_territory_growth > 0 {
            (c1.turns_until_territory_growth - 1) as i16
        } else {
            c1.turns_until_territory_growth
        },
        ..c1
    };
    (c2, m1)
}

/// The city and map after claiming one more tile and recomputing, with
/// the growth countdown restarted.
pub open spec fn spec_city_grow_territory(
    c: CityModel,
    m: crate::game_map::GameMapModel,
    position: TilePosition,
    catalog: Seq<(u64, BuildingTypeModel)>,
    tp: crate::tech::TechProgressModel,
) -> (CityModel, crate::game_map::GameMapModel) {
    let terr2 = crate::table::tb_insert(
        c.territory,
        spec_pos_key(position),
        (position, None::<Citizen>),
    );
    let m2 = crate::game_map::spec_set_tile(
        m,
        position,
        crate::tile::Tile {
            territory: Some(
                crate::tile::Territory {
                    city_id: c.id,
                    city_effect_yields: Yields {
                        food: YieldValue(0),
                        production: YieldValue(0),
                        science: YieldValue(0),
                    },
                },
            ),
            ..crate::game_map::spec_tile_at(m, position)
        },
    );
    let (c2, m3) = spec_city_update(CityModel { territory: terr2, ..c }, m2, catalog, tp);
    (CityModel { turns_until_territory_growth: TERRITORY_EXPAND_TURNS, ..c2 }, m3)
}

/// The city and map after a population increase from banked food.
pub open spec fn spec_city_increase_population(
    c: CityModel,
    m: crate::game_map::GameMapModel,
    catalog: Seq<(u64, BuildingTypeModel)>,
    tp: crate::tech::TechProgressModel,
) -> (CityModel, crate::game_map::GameMapModel) {
    let pop = if c.population < i16::MAX {
        (c.population + 1) as i16
    } else {
        c.population
    };
    spec_city_update(
        CityModel { population: pop, accumulated_food: YieldValue(0), ..c },
        m,
        catalog,
        tp,
    )
}

/// The city and map after locking or unlocking a citizen on one of the
/// city's territory tiles; other positions change nothing. When every
/// citizen is locked already, the first locked one is freed first.
pub open spec fn spec_city_set_citizen_locked(
    c: CityModel,
    m: crate::game_map::GameMapModel,
    position: TilePosition,
    locked: bool,
    catalog: Seq<(u64, BuildingTypeModel)>,
    tp: crate::tech::TechProgressModel,
) -> (CityModel, crate::game_map::GameMapModel) {
    let idx = crate::table::tb_find(c.territory, spec_pos_key(position));
    if idx < 0 {
        (c, m)
    } else {
        let terr2 = if locked {
            let t0 = if c.population == spec_locked_from(c.territory, 0) {
                let f = spec_first_locked(c.territory, 0);
                if 0 <= f < c.territory.len() {
                    c.territory.update(
                        f,
                        (c.territory[f].0, (c.territory[f].1.0, None::<Citizen>)),
                    )
                } else {
                    c.territory
                }
            } else {
                c.territory
            };
            let idx2 = crate::table::tb_find(t0, spec_pos_key(position));
            if 0 <= idx2 < t0.len() {
                t0.update(idx2, (t0[idx2].0, (t0[idx2].1.0, Some(Citizen::Locked))))
            } else {
                t0
            }
        } else {
            c.territory.update(
                idx,
                (c.territory[idx].0, (c.territory[idx].1.0, None::<Citizen>)),
            )
        };
        spec_city_update(CityModel { territory: terr2, ..c }, m, catalog, tp)
    }
}

/// The city and map after recording one finished building.
pub open spec fn spec_city_add_building(
    c: CityModel,
    m: crate::game_map::GameMapModel,
    b: BuildingTypeModel,
    catalog: Seq<(u64, BuildingTypeModel)>,
    tp: crate::tech::TechProgressModel,
) -> (CityModel, crate::game_map::GameMapModel) {
    spec_city_update(
        CityModel {
            buildings: crate::table::tb_insert(c.buildings, b.id.spec_key(), b),
            ..c
        },
        m,
        catalog,
        tp,
    )
}

/// Every recorded position lies in the map.
pub open spec fn spec_positions_in_bounds(
    s: Seq<(TilePosition, crate::map_position::MapUnit)>,
    width: crate::map_position::MapUnit,
    height: crate::map_position::MapUnit,
) -> bool {
    forall|j: int| 0 <= j < s.len() ==> (#[trigger] s[j]).0.in_bounds(width, height)
}

/// Every recorded position lies in the map or is the given center.
pub open spec fn spec_positions_in_bounds_or(
    s: Seq<(TilePosition, crate::map_position::MapUnit)>,
    width: crate::map_position::MapUnit,
    height: crate::map_position::MapUnit,
    center: TilePosition,
) -> bool {
    forall|j: int|
        0 <= j < s.len() ==> (#[trigger] s[j]).0.in_bounds(width, height) || s[j].0 == center
}

/// Every tile of the one-step neighborhood lies in the map or is the
/// center itself.
pub proof fn lemma_nad1_positions(
    p: TilePosition,
    width: crate::map_position::MapUnit,
    height: crate::map_position::MapUnit,
)
    requires
        p.in_range(),
        0 <= width <= crate::map_position::MAX_MAP_DIM,
        0 <= height <= crate::map_position::MAX_MAP_DIM,
    ensures
        spec_positions_in_bounds_or(
            crate::map_position::spec_neighbors_at_distance(p, width, height, 1, true),
            width,
            height,
            p,
        ),
{
    let list = p.spec_neighbor_list();
    lemma_ins_list_positions(Seq::<(TilePosition, crate::map_position::MapUnit)>::empty(), list, 0, width, height);
    let base = crate::map_position::spec_ins_list(
        Seq::<(TilePosition, crate::map_position::MapUnit)>::empty(),
        list,
        0,
        width,
        height,
    );
    crate::distances::lemma_dm_find_from(base, p, 0);
    let s = crate::distances::dm_insert(base, p, 0);
    assert(crate::map_position::spec_neighbors_at_distance(p, width, height, 1, true) == s);
    assert forall|j: int| 0 <= j < s.len() implies (#[trigger] s[j]).0.in_bounds(width, height)
        || s[j].0 == p by {
        let f = crate::distances::dm_find(base, p);
        if f >= 0 {
            if j != f {
                assert(s[j] == base[j]);
            }
        } else {
            if j < base.len() {
                assert(s[j] == base[j]);
            }
        }
    }
}

/// Recording in-map candidates keeps every position in the map.
proof fn lemma_ins_list_positions(
    acc: Seq<(TilePosition, crate::map_position::MapUnit)>,
    list: Seq<TilePosition>,
    i: int,
    width: crate::map_position::MapUnit,
    height: crate::map_position::MapUnit,
)
    requires
        spec_positions_in_bounds(acc, width, height),
    ensures
        spec_positions_in_bounds(
            crate::map_position::spec_ins_list(acc, list, i, width, height),
            width,
            height,
        ),
    decreases list.len() - i,
{
    if 0 <= i < list.len() {
        if list[i].in_bounds(width, height) {
            let acc2 = crate::distances::dm_insert(acc, list[i], 1);
            crate::distances::lemma_dm_find_from(acc, list[i], 0);
            assert forall|j: int| 0 <= j < acc2.len() implies (#[trigger] acc2[j]).0.in_bounds(
                width,
                height,
            ) by {
                let f = crate::distances::dm_find(acc, list[i]);
                if f >= 0 {
                    if j != f {
                        assert(acc2[j] == acc[j]);
                    }
                } else {
                    if j < acc.len() {
                        assert(acc2[j] == acc[j]);
                    }
                }
            }
            lemma_ins_list_positions(acc2, list, i + 1, width, height);
        } else {
            lemma_ins_list_positions(acc, list, i + 1, width, height);
        }
    }
}

/// Every effect from `i` on applied in order.
pub open spec fn spec_apply_effects_from(
    yields: Yields,
    terr: Seq<TerritoryEntry>,
    m: crate::game_map::GameMapModel,
    effects: Seq<CityEffectModel>,
    i: int,
) -> (Yields, crate::game_map::GameMapModel)
    decreases effects.len() - i,
{
    if i < 0 || i >= effects.len() {
        (yields, m)
    } else {
        let (y2, m2) = spec_apply_one_effect(yields, terr, m, effects[i]);
        spec_apply_effects_from(y2, terr, m2, effects, i + 1)
    }
}

/// Turns between two territory expansions of a city.
pub const TERRITORY_EXPAND_TURNS: i16 = 6;

/// A city: identity, economic state, production state, and its owned
/// buildings. Derived fields (borders, yields, producible lists,
/// effects) are recomputed wholesale by `update`, never patched.
pub struct City {
    pub id: CityId,
    pub owner: CivilizationId,
    pub position: TilePosition,
    pub name: String,
    /// The item being produced and the production banked toward it.
    pub producing: Option<(ProducingItem, YieldValue)>,
    pub population: i16,
    /// Claimed positions with their citizen assignment, keyed by position.
    pub territory: crate::table::Table<(TilePosition, Option<Citizen>)>,
    pub borders: Vec<EdgePosition>,
    pub turns_until_territory_growth: i16,
    pub yields: Yields,
    pub accumulated_food: YieldValue,
    pub required_food_for_population_increase: YieldValue,
    pub buildings: crate::table::Table<BuildingType>,
    pub producible_buildings: Vec<BuildingType>,
    pub producible_units: Vec<UnitTemplateId>,
    pub effects: Vec<CityEffect>,
}

impl City {
    pub open spec fn model(&self) -> CityModel {
        CityModel {
            id: self.id,
            owner: self.owner,
            position: self.position,
            name: self.name@,
            producing: match self.producing {
                Some((item, spent)) => Some((item.model(), spent)),
                None => None,
            },
            population: self.population,
            territory: self.territory@,
            borders: self.borders@,
            turns_until_territory_growth: self.turns_until_territory_growth,
            yields: self.yields,
            accumulated_food: self.accumulated_food,
            required_food_for_population_increase: self.required_food_for_population_increase,
            buildings: crate::table::tb_map_values(self.buildings@, |b: BuildingType| b.model()),
            producible_buildings: self.producible_buildings@.map_values(
                |b: BuildingType| b.model(),
            ),
            producible_units: self.producible_units@,
            effects: self.effects@.map_values(|e: CityEffect| e.model()),
        }
    }

    /// Internal invariant: identity and bookkeeping stay representable
    /// and the territory table is keyed by its positions.
    pub open spec fn wf(&self) -> bool {
        &&& self.position.in_range()
        &&& 0 <= self.position.x && 0 <= self.position.y
        &&& 1 <= self.population
        &&& 0 <= self.turns_until_territory_growth <= TERRITORY_EXPAND_TURNS
        &&& crate::table::tb_wf(self.territory@)
        &&& forall|i: int|
            0 <= i < self.territory@.len() ==> (#[trigger] self.territory@[i]).0 == spec_pos_key(
                self.territory@[i].1.0,
            ) && 0 <= self.territory@[i].1.0.x <= crate::map_position::MAX_MAP_DIM
                && 0 <= self.territory@[i].1.0.y <= crate::map_position::MAX_MAP_DIM
        &&& crate::table::tb_wf(self.buildings@)
        &&& forall|i: int| 0 <= i < self.buildings@.len() ==> (#[trigger] self.buildings@[i]).1.wf()
        &&& self.yields.wf()
        &&& self.accumulated_food.wf()
        &&& self.required_food_for_population_increase.wf()
        &&& match self.producing {
            Some((item, spent)) => item.wf() && spent.wf(),
            None => true,
        }
    }

    /// Every claimed position lies on the given map.
    pub open spec fn territory_in_bounds(&self, m: crate::game_map::GameMapModel) -> bool {
        forall|i: int|
            0 <= i < self.territory@.len() ==> (#[trigger] self.territory@[i]).1.0.in_bounds(
                m.width,
                m.height,
            )
    }

    /// The claimed positions, in table order.
    fn territory_position_list(&self) -> (r: Vec<TilePosition>)
        ensures
            r@ == spec_territory_positions(self.territory@),
    {
        let mut r: Vec<TilePosition> = Vec::new();
        let mut i: usize = 0;
        while i < self.territory.entries.len()
            invariant
                0 <= i <= self.territory@.len(),
                r@ == spec_territory_positions(self.territory@).take(i as int),
            decreases self.territory@.len() - i,
        {
            proof {
                assert(spec_territory_positions(self.territory@).take(i + 1 as int)
                    =~= spec_territory_positions(self.territory@).take(i as int).push(
                    self.territory@[i as int].1.0,
                ));
            }
            r.push(self.territory.entries[i].1.0);
            i += 1;
        }
        proof {
            assert(spec_territory_positions(self.territory@).take(
                self.territory@.len() as int,
            ) =~= spec_territory_positions(self.territory@));
        }
        r
    }

    /// Recompute the border edge list from the territory tile set.
    fn update_borders_from_territory(&mut self)
        requires
            old(self).wf(),
        ensures
            *final(self) == (City {
                borders: final(self).borders,
                ..*old(self)
            }),
            final(self).borders@ == crate::map_position::spec_borders(
                spec_territory_positions(old(self).territory@),
            ),
            final(self).wf(),
    {
        let positions = self.territory_position_list();
        proof {
            assert(forall|i: int|
                0 <= i < positions@.len() ==> (#[trigger] positions@[i]).in_range());
        }
        self.borders = TilePosition::borders(&positions);
    }

    /// Unassign every city-placed citizen, keeping locked ones.
    fn clear_normals(&mut self)
        requires
            old(self).wf(),
        ensures
            *final(self) == (City { territory: final(self).territory, ..*old(self) }),
            final(self).territory@ == spec_clear_normals(old(self).territory@),
            final(self).wf(),
    {
        let ghost orig = self.territory@;
        let mut i: usize = 0;
        while i < self.territory.entries.len()
            invariant
                0 <= i <= orig.len(),
                self.territory@.len() == orig.len(),
                crate::table::tb_wf(self.territory@),
                forall|j: int| i <= j < orig.len() ==> self.territory@[j] == orig[j],
                forall|j: int|
                    0 <= j < i ==> self.territory@[j] == (#[trigger] spec_clear_normals(orig)[j]),
                *self == (City { territory: self.territory, ..*old(self) }),
            decreases orig.len() - i,
        {
            let (pos, citizen) = self.territory.entries[i].1;
            let cleared: Option<Citizen> = match citizen {
                Some(Citizen::Normal) => None,
                other => other,
            };
            self.territory.set_value_at(i, (pos, cleared));
            i += 1;
        }
        proof {
            assert(self.territory@ =~= spec_clear_normals(orig));
            assert(forall|j: int|
                0 <= j < self.territory@.len() ==> (#[trigger] self.territory@[j]).0 == orig[j].0
                    && self.territory@[j].1.0 == orig[j].1.0);
        }
    }

    /// How many territory tiles have a citizen, from entry `i` on.
    fn employed_from(&self, i: usize) -> (r: usize)
        requires
            i <= self.territory@.len(),
        ensures
            r == spec_employed_from(self.territory@, i as int),
            r <= self.territory@.len() - i,
        decreases self.territory@.len() - i,
    {
        if i >= self.territory.entries.len() {
            0
        } else {
            let here: usize = if self.territory.entries[i].1.1.is_some() {
                1
            } else {
                0
            };
            here + self.employed_from(i + 1)
        }
    }

    /// Index of the best workable tile: unworked, not the city tile, and
    /// of the highest total yields, earliest on ties.
    fn pick_best(&self, map: &crate::game_map::GameMap) -> (r: Option<usize>)
        requires
            map.wf(),
            self.territory_in_bounds(map.model()),
        ensures
            match r {
                Some(b) => b == spec_pick_best_from(
                    self.territory@,
                    map.model(),
                    self.position,
                    0,
                    -1,
                ) && b < self.territory@.len(),
                None => spec_pick_best_from(self.territory@, map.model(), self.position, 0, -1)
                    == -1,
            },
    {
        let ghost terr = self.territory@;
        let ghost target = spec_pick_best_from(terr, map.model(), self.position, 0, -1);
        let mut best: Option<usize> = None;
        let mut i: usize = 0;
        while i < self.territory.entries.len()
            invariant
                0 <= i <= terr.len(),
                terr == self.territory@,
                map.wf(),
                self.territory_in_bounds(map.model()),
                match best {
                    Some(b) => b < i && spec_pick_best_from(
                        terr,
                        map.model(),
                        self.position,
                        i as int,
                        b as int,
                    ) == target,
                    None => spec_pick_best_from(terr, map.model(), self.position, i as int, -1)
                        == target,
                },
            decreases terr.len() - i,
        {
            let (pos, citizen) = self.territory.entries[i].1;
            let cand = !(pos.x == self.position.x && pos.y == self.position.y)
                && citizen.is_none();
            let better: bool = if cand {
                match best {
                    None => true,
                    Some(b) => {
                        let (bpos, _) = self.territory.entries[b].1;
                        map.tile_total_yields(pos).0 > map.tile_total_yields(bpos).0
                    },
                }
            } else {
                false
            };
            proof {
                assert(terr[i as int].1.0 == pos && terr[i as int].1.1 == citizen);
                assert(cand == (terr[i as int].1.0 != self.position && terr[i as int].1.1 is None));
            }
            if better {
                best = Some(i);
            }
            i += 1;
        }
        best
    }

    /// Greedily assign up to `k` citizens, one at a time, each to the
    /// best workable tile left.
    fn assign_citizens(&mut self, map: &crate::game_map::GameMap, k: usize)
        requires
            old(self).wf(),
            map.wf(),
            old(self).territory_in_bounds(map.model()),
        ensures
            *final(self) == (City { territory: final(self).territory, ..*old(self) }),
            final(self).territory@ == spec_assign_citizens(
                old(self).territory@,
                map.model(),
                old(self).position,
                k as int,
            ),
            final(self).wf(),
            final(self).territory_in_bounds(map.model()),
            spec_territory_positions(final(self).territory@) == spec_territory_positions(
                old(self).territory@,
            ),
        decreases k,
    {
        if k == 0 {
            return ;
        }
        let picked = self.pick_best(map);
        match picked {
            None => {},
            Some(b) => {
                let (pos, _) = self.territory.entries[b].1;
                self.territory.set_value_at(b, (pos, Some(Citizen::Normal)));
                proof {
                    assert(self.territory@ =~= old(self).territory@.update(
                        b as int,
                        (
                            old(self).territory@[b as int].0,
                            (old(self).territory@[b as int].1.0, Some(Citizen::Normal)),
                        ),
                    ));
                    assert(spec_territory_positions(self.territory@) =~= spec_territory_positions(
                        old(self).territory@,
                    ));
                }
                self.assign_citizens(map, k - 1);
                proof {
                    assert(spec_territory_positions(self.territory@) =~= spec_territory_positions(
                        old(self).territory@,
                    ));
                }
            },
        }
    }

    /// Recompute total yields: population science plus the yields of the
    /// city tile and every worked tile.
    fn update_yields(&mut self, map: &crate::game_map::GameMap)
        requires
            old(self).wf(),
            map.wf(),
            old(self).territory_in_bounds(map.model()),
        ensures
            *final(self) == (City { yields: final(self).yields, ..*old(self) }),
            final(self).yields == spec_city_base_yields(
                old(self).territory@,
                map.model(),
                old(self).position,
                old(self).population,
            ),
            final(self).wf(),
    {
        let science: u64 = 10 * (self.population as u64);
        proof {
            assert(science == crate::yields::yv_clamp(10 * self.population));
        }
        let pop_yields = Yields {
            food: YieldValue(0),
            production: YieldValue(0),
            science: YieldValue(science),
        };
        let ghost terr = self.territory@;
        let mut acc = Yields::zero();
        let mut i: usize = 0;
        while i < self.territory.entries.len()
            invariant
                0 <= i <= terr.len(),
                terr == self.territory@,
                map.wf(),
                self.territory_in_bounds(map.model()),
                acc.wf(),
                spec_worked_tile_sum(terr, map.model(), self.position, i as int, acc)
                    == spec_worked_tile_sum(
                    terr,
                    map.model(),
                    self.position,
                    0,
                    Yields {
                        food: YieldValue(0),
                        production: YieldValue(0),
                        science: YieldValue(0),
                    },
                ),
            decreases terr.len() - i,
        {
            let (pos, citizen) = self.territory.entries[i].1;
            proof {
                assert(terr[i as int].1.0 == pos && terr[i as int].1.1 == citizen);
            }
            if (pos.x == self.position.x && pos.y == self.position.y) || citizen.is_some() {
                proof {
                    assert(pos == self.position || citizen is Some);
                }
                let t = *map.tile(pos);
                acc = acc.add(t.yields());
            } else {
                proof {
                    assert(!(terr[i as int].1.0 == self.position || terr[i as int].1.1 is Some));
                }
            }
            i += 1;
        }
        self.yields = pop_yields.add(acc);
    }

    /// Recompute which buildings are producible from unlocked tech,
    /// excluding ones already built.
    fn update_producible_buildings(
        &mut self,
        building_types: &crate::building::BuildingTypes,
        tech_progress: &crate::tech::TechProgress,
    )
        requires
            old(self).wf(),
            building_types.wf(),
        ensures
            *final(self) == (City {
                producible_buildings: final(self).producible_buildings,
                ..*old(self)
            }),
            final(self).producible_buildings@.map_values(|b: BuildingType| b.model())
                == spec_producible_buildings(
                tech_progress.model().unlocked_buildings,
                old(self).model().buildings,
                crate::table::tb_map_values(building_types.table@, |b: BuildingType| b.model()),
                0,
                Seq::<BuildingTypeModel>::empty(),
            ),
            final(self).wf(),
    {
        let ghost unlocked = tech_progress.model().unlocked_buildings;
        let ghost owned = self.model().buildings;
        let ghost catalog = crate::table::tb_map_values(
            building_types.table@,
            |b: BuildingType| b.model(),
        );
        let mut out: Vec<BuildingType> = Vec::new();
        proof {
            assert(out@.map_values(|b: BuildingType| b.model()) =~= Seq::<
                BuildingTypeModel,
            >::empty());
        }
        let mut i: usize = 0;
        while i < tech_progress.unlocked_buildings.table.entries.len()
            invariant
                0 <= i <= unlocked.len(),
                unlocked == tech_progress.model().unlocked_buildings,
                owned == self.model().buildings,
                catalog == crate::table::tb_map_values(
                    building_types.table@,
                    |b: BuildingType| b.model(),
                ),
                building_types.wf(),
                self == old(self),
                spec_producible_buildings(
                    unlocked,
                    owned,
                    catalog,
                    i as int,
                    out@.map_values(|b: BuildingType| b.model()),
                ) == spec_producible_buildings(
                    unlocked,
                    owned,
                    catalog,
                    0,
                    Seq::<BuildingTypeModel>::empty(),
                ),
                forall|j: int| 0 <= j < out@.len() ==> (#[trigger] out@[j]).wf(),
            decreases unlocked.len() - i,
        {
            let k = tech_progress.unlocked_buildings.table.entries[i].0;
            proof {
                assert(unlocked[i as int].0 == k);
                crate::table::lemma_tb_map_find_from(
                    self.buildings@,
                    |b: BuildingType| b.model(),
                    k,
                    0,
                );
                crate::table::lemma_tb_map_get(
                    building_types.table@,
                    |b: BuildingType| b.model(),
                    k,
                );
                crate::table::lemma_tb_find_from(building_types.table@, k, 0);
            }
            if !self.buildings.contains_key(k) {
                match building_types.table.get(k) {
                    Some(b) => {
                        let ghost prev = out@.map_values(|x: BuildingType| x.model());
                        let dup = b.duplicate();
                        out.push(dup);
                        proof {
                            assert(out@.map_values(|x: BuildingType| x.model()) =~= prev.push(
                                dup.model(),
                            ));
                        }
                    },
                    None => {},
                }
            }
            i += 1;
        }
        self.producible_buildings = out;
    }

    /// Recompute which units are producible from unlocked tech.
    fn update_producible_units(&mut self, tech_progress: &crate::tech::TechProgress)
        requires
            old(self).wf(),
        ensures
            *final(self) == (City {
                producible_units: final(self).producible_units,
                ..*old(self)
            }),
            final(self).producible_units@ == spec_producible_units(
                tech_progress.model().unlocked_units,
                0,
                Seq::<UnitTemplateId>::empty(),
            ),
            final(self).wf(),
    {
        let ghost unlocked = tech_progress.model().unlocked_units;
        let mut out: Vec<UnitTemplateId> = Vec::new();
        let mut i: usize = 0;
        while i < tech_progress.unlocked_units.table.entries.len()
            invariant
                0 <= i <= unlocked.len(),
                unlocked == tech_progress.model().unlocked_units,
                spec_producible_units(unlocked, i as int, out@) == spec_producible_units(
                    unlocked,
                    0,
                    Seq::<UnitTemplateId>::empty(),
                ),
            decreases unlocked.len() - i,
        {
            let k = tech_progress.unlocked_units.table.entries[i].0;
            proof {
                assert(unlocked[i as int].0 == k);
            }
            if k <= u16::MAX as u64 {
                out.push(UnitTemplateId(k as u16));
            }
            i += 1;
        }
        self.producible_units = out;
    }

    /// Recompute the active effect list: every owned building's effects,
    /// sorted by application priority, building order kept within a class.
    fn update_effects(&mut self)
        requires
            old(self).wf(),
        ensures
            *final(self) == (City { effects: final(self).effects, ..*old(self) }),
            final(self).effects@.map_values(|e: CityEffect| e.model()) == spec_sorted_effects(
                old(self).model().buildings,
            ),
            final(self).wf(),
    {
        let ghost owned = self.model().buildings;
        let mut all: Vec<CityEffect> = Vec::new();
        let mut i: usize = 0;
        while i < self.buildings.entries.len()
            invariant
                0 <= i <= owned.len(),
                owned == self.model().buildings,
                self == old(self),
                spec_collect_effects(owned, i as int, all@.map_values(|e: CityEffect| e.model()))
                    == spec_collect_effects(owned, 0, Seq::<CityEffectModel>::empty()),
            decreases owned.len() - i,
        {
            let ghost before = all@.map_values(|e: CityEffect| e.model());
            let b = &self.buildings.entries[i].1;
            proof {
                assert(owned[i as int].1 == b.model());
            }
            let mut j: usize = 0;
            while j < b.effects.len()
                invariant
                    0 <= j <= b.effects@.len(),
                    all@.map_values(|e: CityEffect| e.model()) == before + b.model().effects.take(
                        j as int,
                    ),
                decreases b.effects@.len() - j,
            {
                let ghost sofar = all@.map_values(|e: CityEffect| e.model());
                let dup = b.effects[j].duplicate();
                all.push(dup);
                proof {
                    assert(all@.map_values(|e: CityEffect| e.model()) =~= sofar.push(dup.model()));
                    assert(before + b.model().effects.take(j + 1 as int) =~= (before
                        + b.model().effects.take(j as int)).push(b.model().effects[j as int]));
                }
                j += 1;
            }
            proof {
                assert(before + b.model().effects.take(b.model().effects.len() as int) =~= before
                    + b.model().effects);
            }
            i += 1;
        }
        let ghost all_models = all@.map_values(|e: CityEffect| e.model());
        proof {
            assert(all_models == spec_collect_effects(owned, 0, Seq::<CityEffectModel>::empty()));
        }
        let mut sorted: Vec<CityEffect> = Vec::new();
        proof {
            assert(sorted@.map_values(|e: CityEffect| e.model()) =~= spec_filter_priorities(
                all_models,
                0,
            ));
        }
        let mut pass: u64 = 1;
        while pass <= 3
            invariant
                1 <= pass <= 4,
                all_models == all@.map_values(|e: CityEffect| e.model()),
                sorted@.map_values(|e: CityEffect| e.model()) == spec_filter_priorities(
                    all_models,
                    (pass - 1) as u64,
                ),
            decreases 4 - pass,
        {
            let ghost done = spec_filter_priorities(all_models, (pass - 1) as u64);
            proof {
                assert(done + spec_effects_with_priority(all_models.take(0), pass) =~= done) by {
                    assert(all_models.take(0) =~= Seq::<CityEffectModel>::empty());
                    reveal_with_fuel(Seq::filter, 1);
                }
            }
            let mut j: usize = 0;
            while j < all.len()
                invariant
                    0 <= j <= all@.len(),
                    1 <= pass <= 3,
                    all_models == all@.map_values(|e: CityEffect| e.model()),
                    done == spec_filter_priorities(all_models, (pass - 1) as u64),
                    sorted@.map_values(|e: CityEffect| e.model()) == done
                        + spec_effects_with_priority(all_models.take(j as int), pass),
                decreases all@.len() - j,
            {
                let ghost sofar = sorted@.map_values(|e: CityEffect| e.model());
                proof {
                    assert(all_models.take(j + 1 as int).drop_last() == all_models.take(j as int));
                    reveal_with_fuel(Seq::filter, 2);
                    assert(all_models.take(j + 1 as int).last() == all_models[j as int]);
                }
                if all[j].priority() == pass {
                    let dup = all[j].duplicate();
                    sorted.push(dup);
                    proof {
                        assert(sorted@.map_values(|e: CityEffect| e.model()) =~= sofar.push(
                            dup.model(),
                        ));
                        assert(dup.model() == all_models[j as int]);
                        assert(sofar.push(all_models[j as int]) =~= done
                            + spec_effects_with_priority(all_models.take(j + 1 as int), pass));
                    }
                } else {
                    proof {
                        assert(spec_effects_with_priority(all_models.take(j + 1 as int), pass)
                            =~= spec_effects_with_priority(all_models.take(j as int), pass));
                    }
                }
                j += 1;
            }
            proof {
                assert(all_models.take(all_models.len() as int) =~= all_models);
                assert(sorted@.map_values(|e: CityEffect| e.model()) == spec_filter_priorities(
                    all_models,
                    pass,
                ));
            }
            pass += 1;
        }
        proof {
            assert(spec_filter_priorities(all_models, 3) == spec_sorted_effects(owned));
        }
        self.effects = sorted;
    }

    /// Clear the cached per-tile effect bonus of every claimed tile.
    fn reset_territory_yields(&self, map: &mut crate::game_map::GameMap)
        requires
            self.wf(),
            old(map).wf(),
            self.territory_in_bounds(old(map).model()),
        ensures
            final(map).model() == spec_reset_territory_yields(
                self.territory@,
                old(map).model(),
                0,
            ),
            final(map).wf(),
            final(map).width == old(map).width,
            final(map).height == old(map).height,
    {
        let ghost terr = self.territory@;
        let mut i: usize = 0;
        while i < self.territory.entries.len()
            invariant
                0 <= i <= terr.len(),
                terr == self.territory@,
                self.wf(),
                map.wf(),
                map.width == old(map).width,
                map.height == old(map).height,
                self.territory_in_bounds(map.model()),
                spec_reset_territory_yields(terr, map.model(), i as int)
                    == spec_reset_territory_yields(terr, old(map).model(), 0),
            decreases terr.len() - i,
        {
            let pos = self.territory.entries[i].1.0;
            proof {
                assert(terr[i as int].1.0 == pos);
            }
            let t = *map.tile(pos);
            match t.territory {
                Some(ter) => {
                    map.set_tile(
                        pos,
                        crate::tile::Tile {
                            territory: Some(
                                crate::tile::Territory {
                                    city_effect_yields: Yields {
                                        food: YieldValue(0),
                                        production: YieldValue(0),
                                        science: YieldValue(0),
                                    },
                                    ..ter
                                },
                            ),
                            ..t
                        },
                    );
                },
                None => {},
            }
            i += 1;
        }
    }

    /// Add a per-tile bonus to every claimed tile that meets a condition.
    fn apply_tile_effect(
        &self,
        map: &mut crate::game_map::GameMap,
        y: Yield,
        matcher: &TileMatcher,
    )
        requires
            self.wf(),
            old(map).wf(),
            self.territory_in_bounds(old(map).model()),
        ensures
            final(map).model() == spec_apply_tile_effect(
                self.territory@,
                old(map).model(),
                y,
                matcher.model(),
                0,
            ),
            final(map).wf(),
            final(map).width == old(map).width,
            final(map).height == old(map).height,
    {
        let ghost terr = self.territory@;
        let mut i: usize = 0;
        while i < self.territory.entries.len()
            invariant
                0 <= i <= terr.len(),
                terr == self.territory@,
                self.wf(),
                map.wf(),
                map.width == old(map).width,
                map.height == old(map).height,
                self.territory_in_bounds(map.model()),
                spec_apply_tile_effect(terr, map.model(), y, matcher.model(), i as int)
                    == spec_apply_tile_effect(terr, old(map).model(), y, matcher.model(), 0),
            decreases terr.len() - i,
        {
            let pos = self.territory.entries[i].1.0;
            proof {
                assert(terr[i as int].1.0 == pos);
            }
            let t = *map.tile(pos);
            if matcher.matches(&t) {
                match t.territory {
                    Some(ter) => {
                        map.set_tile(
                            pos,
                            crate::tile::Tile {
                                territory: Some(
                                    crate::tile::Territory {
                                        city_effect_yields: ter.city_effect_yields.add_yield(y),
                                        ..ter
                                    },
                                ),
                                ..t
                            },
                        );
                    },
                    None => {},
                }
            }
            i += 1;
        }
    }

    /// Clear the map's cached territory bonuses and re-apply every
    /// active effect in order, to the map and to the city's yields.
    fn apply_effects(&mut self, map: &mut crate::game_map::GameMap)
        requires
            old(self).wf(),
            old(map).wf(),
            old(self).territory_in_bounds(old(map).model()),
        ensures
            *final(self) == (City { yields: final(self).yields, ..*old(self) }),
            ({
                let m1 = spec_reset_territory_yields(
                    old(self).territory@,
                    old(map).model(),
                    0,
                );
                let (y2, m2) = spec_apply_effects_from(
                    old(self).yields,
                    old(self).territory@,
                    m1,
                    old(self).model().effects,
                    0,
                );
                final(self).yields == y2 && final(map).model() == m2
            }),
            final(self).wf(),
            final(map).wf(),
            final(map).width == old(map).width,
            final(map).height == old(map).height,
    {
        self.reset_territory_yields(map);
        let ghost effects_models = self.model().effects;
        let ghost terr = self.territory@;
        let ghost m1 = map.model();
        let ghost y1 = self.yields;
        let mut i: usize = 0;
        while i < self.effects.len()
            invariant
                0 <= i <= self.effects@.len(),
                effects_models == self.model().effects,
                terr == self.territory@,
                self.wf(),
                map.wf(),
                map.width == old(map).width,
                map.height == old(map).height,
                self.territory_in_bounds(map.model()),
                *self == (City { yields: self.yields, ..*old(self) }),
                spec_apply_effects_from(self.yields, terr, map.model(), effects_models, i as int)
                    == spec_apply_effects_from(y1, terr, m1, effects_models, 0),
            decreases self.effects@.len() - i,
        {
            proof {
                assert(effects_models[i as int] == self.effects@[i as int].model());
            }
            match &self.effects[i] {
                CityEffect::AddYield(y) => {
                    self.yields = self.yields.add_yield(*y);
                },
                CityEffect::MulYield(m) => {
                    self.yields = self.yields.mul_multiplier(*m);
                },
                CityEffect::AddTileYield { yield_, matcher } => {
                    let y = *yield_;
                    let m2 = matcher.duplicate();
                    let ghost map_before = map.model();
                    Self::apply_tile_effect_outer(self, map, y, &m2);
                    proof {
                        assert(spec_apply_one_effect(
                            self.yields,
                            terr,
                            map_before,
                            effects_models[i as int],
                        ).1 == map.model());
                    }
                },
            }
            i += 1;
        }
    }

    /// Recompute every derived field, in a fixed order: borders, citizen
    /// assignment, yields, producible lists, effects, the map's cached
    /// effect bonuses, and the food threshold.
    pub fn update(
        &mut self,
        map: &mut crate::game_map::GameMap,
        building_types: &crate::building::BuildingTypes,
        tech_progress: &crate::tech::TechProgress,
    )
        requires
            old(self).wf(),
            old(map).wf(),
            building_types.wf(),
            old(self).territory_in_bounds(old(map).model()),
        ensures
            (final(self).model(), final(map).model()) == spec_city_update(
                old(self).model(),
                old(map).model(),
                crate::table::tb_map_values(building_types.table@, |b: BuildingType| b.model()),
                tech_progress.model(),
            ),
            final(self).wf(),
            final(map).wf(),
            final(self).territory_in_bounds(final(map).model()),
            final(map).width == old(map).width,
            final(map).height == old(map).height,
    {
        self.update_borders_from_territory();
        self.clear_normals();
        let employed = self.employed_from(0);
        let k: usize = if self.population >= 0 && (self.population as usize) > employed {
            (self.population as usize) - employed
        } else {
            0
        };
        proof {
            assert(k as int == ({
                let t1 = spec_clear_normals(old(self).territory@);
                let kk = old(self).population - spec_employed_from(t1, 0);
                if kk >= 0 {
                    kk
                } else {
                    0
                }
            }));
            assert(spec_assign_citizens(self.territory@, map.model(), self.position, k as int)
                == spec_assign_citizens(
                self.territory@,
                map.model(),
                self.position,
                old(self).population - spec_employed_from(self.territory@, 0),
            ));
        }
        self.assign_citizens(map, k);
        self.update_yields(map);
        self.update_producible_buildings(building_types, tech_progress);
        self.update_producible_units(tech_progress);
        self.update_effects();
        self.apply_effects(map);
        self.required_food_for_population_increase = required_food(self.population);
    }

    /// A freshly founded city: claims its tile and the unclaimed tiles
    /// around it, marks the city on the map, and computes every derived
    /// field.
    pub fn new(
        id: CityId,
        owner: CivilizationId,
        position: TilePosition,
        name: String,
        map: &mut crate::game_map::GameMap,
        building_types: &crate::building::BuildingTypes,
        tech_progress: &crate::tech::TechProgress,
    ) -> (r: City)
        requires
            old(map).wf(),
            building_types.wf(),
            position.in_bounds(old(map).width, old(map).height),
        ensures
            (r.model(), final(map).model()) == spec_city_new(
                id,
                owner,
                position,
                name@,
                old(map).model(),
                crate::table::tb_map_values(building_types.table@, |b: BuildingType| b.model()),
                tech_progress.model(),
            ),
            r.wf(),
            final(map).wf(),
            r.territory_in_bounds(final(map).model()),
            final(map).width == old(map).width,
            final(map).height == old(map).height,
    {
        let candidates = position.neighbors_at_distance(map.width(), map.height(), 1, true);
        proof {
            lemma_nad1_positions(position, map.width, map.height);
        }
        let ghost cands = candidates@;
        let mut territory: crate::table::Table<(TilePosition, Option<Citizen>)> =
            crate::table::Table::new();
        let mut i: usize = 0;
        while i < candidates.entries.len()
            invariant
                0 <= i <= cands.len(),
                cands == candidates@,
                map.wf(),
                map.width == old(map).width,
                map.height == old(map).height,
                spec_positions_in_bounds_or(cands, map.width, map.height, position),
                position.in_bounds(map.width, map.height),
                crate::table::tb_wf(territory@),
                forall|j: int|
                    0 <= j < territory@.len() ==> (#[trigger] territory@[j]).0 == spec_pos_key(
                        territory@[j].1.0,
                    ) && territory@[j].1.0.in_bounds(map.width, map.height),
                spec_claim_tiles(cands, i as int, territory@, map.model(), id) == spec_claim_tiles(
                    cands,
                    0,
                    Seq::<TerritoryEntry>::empty(),
                    old(map).model(),
                    id,
                ),
            decreases cands.len() - i,
        {
            let p = candidates.entries[i].0;
            proof {
                assert(cands[i as int].0 == p);
            }
            if map.has_tile(p) {
                let t = *map.tile(p);
                if t.territory.is_none() {
                    let ghost wid = map.width;
                    let ghost hei = map.height;
                    proof {
                        crate::table::lemma_tb_insert_all(
                            territory@,
                            spec_pos_key(p),
                            (p, None::<Citizen>),
                            |e: TerritoryEntry|
                                e.0 == spec_pos_key(e.1.0) && e.1.0.in_bounds(wid, hei),
                        );
                    }
                    territory.insert(
                        pos_key(p),
                        (p, None),
                    );
                    map.set_tile(
                        p,
                        crate::tile::Tile {
                            territory: Some(
                                crate::tile::Territory {
                                    city_id: id,
                                    city_effect_yields: Yields {
                                        food: YieldValue(0),
                                        production: YieldValue(0),
                                        science: YieldValue(0),
                                    },
                                },
                            ),
                            ..t
                        },
                    );
                }
            }
            i += 1;
        }
        let ct = *map.tile(position);
        map.set_tile(position, crate::tile::Tile { city: Some(id), ..ct });
        let mut city = City {
            id,
            owner,
            position,
            name,
            producing: None,
            population: 1,
            territory,
            borders: Vec::new(),
            turns_until_territory_growth: TERRITORY_EXPAND_TURNS,
            yields: Yields::zero(),
            accumulated_food: YieldValue(0),
            required_food_for_population_increase: YieldValue(0),
            buildings: crate::table::Table::new(),
            producible_buildings: Vec::new(),
            producible_units: Vec::new(),
            effects: Vec::new(),
        };
        proof {
            assert(crate::table::tb_map_values(city.buildings@, |b: BuildingType| b.model())
                =~= Seq::<(u64, BuildingTypeModel)>::empty());
        }
        city.update(map, building_types, tech_progress);
        city
    }

    /// At a turn start a city recomputes its derived state, banks its
    /// production into the item being produced, banks its food, and
    /// counts down toward territory growth.
    pub fn on_turn_start(
        &mut self,
        map: &mut crate::game_map::GameMap,
        building_types: &crate::building::BuildingTypes,
        tech_progress: &crate::tech::TechProgress,
    )
        requires
            old(self).wf(),
            old(map).wf(),
            building_types.wf(),
            old(self).territory_in_bounds(old(map).model()),
        ensures
            (final(self).model(), final(map).model()) == spec_city_on_turn_start(
                old(self).model(),
                old(map).model(),
                crate::table::tb_map_values(building_types.table@, |b: BuildingType| b.model()),
                tech_progress.model(),
            ),
            final(self).wf(),
            final(map).wf(),
            final(self).territory_in_bounds(final(map).model()),
            final(map).width == old(map).width,
            final(map).height == old(map).height,
    {
        self.update(map, building_types, tech_progress);
        let production = self.yields.production;
        let food = self.yields.food;
        match &self.producing {
            Some(_) => {
                let taken = self.producing.take();
                match taken {
                    Some((item, spent)) => {
                        self.producing = Some((item, spent.add(production)));
                    },
                    None => {},
                }
            },
            None => {},
        }
        self.accumulated_food = self.accumulated_food.add(food);
        if self.turns_until_territory_growth > 0 {
            self.turns_until_territory_growth = self.turns_until_territory_growth - 1;
        }
    }

    pub fn id(&self) -> (r: CityId)
        ensures
            r == self.id,
    {
        self.id
    }

    pub fn owner(&self) -> (r: CivilizationId)
        ensures
            r == self.owner,
    {
        self.owner
    }

    pub fn position(&self) -> (r: TilePosition)
        ensures
            r == self.position,
    {
        self.position
    }

    pub fn name(&self) -> (r: &String)
        ensures
            r == self.name,
    {
        &self.name
    }

    pub fn accumulated_food(&self) -> (r: YieldValue)
        ensures
            r == self.accumulated_food,
    {
        self.accumulated_food
    }

    pub fn required_food_for_population_increase(&self) -> (r: YieldValue)
        ensures
            r == self.required_food_for_population_increase,
    {
        self.required_food_for_population_increase
    }

    /// Turns until the next population increase at the current food rate.
    pub fn turns_until_population_increase(&self) -> (r: u64)
        ensures
            r == YieldValue(
                crate::yields::yv_sub(
                    self.required_food_for_population_increase.0,
                    self.accumulated_food.0,
                ),
            ).spec_turn_count(self.yields.food),
    {
        self.required_food_for_population_increase.sub(self.accumulated_food).div_to_get_turn_count(
            self.yields.food,
        )
    }

    /// Enough food is banked for the population to grow.
    pub fn can_increase_population_from_food(&self) -> (r: bool)
        ensures
            r == (self.accumulated_food.0 >= self.required_food_for_population_increase.0),
    {
        self.required_food_for_population_increase.le(self.accumulated_food)
    }

    /// The territory-growth countdown has elapsed.
    pub fn ready_to_grow_territory(&self) -> (r: bool)
        ensures
            r == (self.turns_until_territory_growth <= 0),
    {
        self.turns_until_territory_growth <= 0
    }

    pub fn turns_until_territory_growth(&self) -> (r: i16)
        ensures
            r == self.turns_until_territory_growth,
    {
        self.turns_until_territory_growth
    }

    pub fn producing(&self) -> (r: &Option<(ProducingItem, YieldValue)>)
        ensures
            r == self.producing,
    {
        &self.producing
    }

    pub fn territory(&self) -> (r: &crate::table::Table<(TilePosition, Option<Citizen>)>)
        ensures
            r == self.territory,
    {
        &self.territory
    }

    /// The claimed positions, in table order.
    pub fn territory_tiles(&self) -> (r: Vec<TilePosition>)
        ensures
            r@ == spec_territory_positions(self.territory@),
    {
        self.territory_position_list()
    }

    pub fn population(&self) -> (r: i16)
        ensures
            r == self.population,
    {
        self.population
    }

    /// How many territory tiles have a citizen assigned.
    pub fn employed_citizen_count(&self) -> (r: usize)
        ensures
            r == spec_employed_from(self.territory@, 0),
    {
        self.employed_from(0)
    }

    /// How many territory tiles have a locked citizen.
    pub fn locked_citizen_count(&self) -> (r: usize)
        ensures
            r == spec_locked_from(self.territory@, 0),
    {
        self.locked_from(0)
    }

    fn locked_from(&self, i: usize) -> (r: usize)
        requires
            i <= self.territory@.len(),
        ensures
            r == spec_locked_from(self.territory@, i as int),
            r <= self.territory@.len() - i,
        decreases self.territory@.len() - i,
    {
        if i >= self.territory.entries.len() {
            0
        } else {
            let here: usize = match self.territory.entries[i].1.1 {
                Some(Citizen::Locked) => 1,
                _ => 0,
            };
            here + self.locked_from(i + 1)
        }
    }

    /// How many citizens are not working a tile.
    pub fn unemployed_citizen_count(&self) -> (r: usize)
        ensures
            r as int == ({
                let k = self.population - spec_employed_from(self.territory@, 0);
                if k >= 0 {
                    k
                } else {
                    0
                }
            }),
    {
        let employed = self.employed_from(0);
        if self.population >= 0 && (self.population as usize) > employed {
            (self.population as usize) - employed
        } else {
            0
        }
    }

    pub fn borders(&self) -> (r: &Vec<EdgePosition>)
        ensures
            r == self.borders,
    {
        &self.borders
    }

    pub fn yields(&self) -> (r: Yields)
        ensures
            r == self.yields,
    {
        self.yields
    }

    pub fn buildings(&self) -> (r: &crate::table::Table<BuildingType>)
        ensures
            r == self.buildings,
    {
        &self.buildings
    }

    pub fn producible_buildings(&self) -> (r: &Vec<BuildingType>)
        ensures
            r == self.producible_buildings,
    {
        &self.producible_buildings
    }

    pub fn producible_units(&self) -> (r: &Vec<UnitTemplateId>)
        ensures
            r == self.producible_units,
    {
        &self.producible_units
    }

    /// The next tile the city would expand to: the highest-total-yield
    /// unclaimed tile at distance two, then three; earliest on ties.
    pub fn next_tile_to_expand_to(&self, map: &crate::game_map::GameMap) -> (r: Option<
        TilePosition,
    >)
        requires
            self.wf(),
            map.wf(),
        ensures
            r == spec_next_tile_to_expand(self.position, map.model()),
    {
        let ring2 = self.position.neighbors_at_distance(map.width(), map.height(), 2, false);
        match Self::pick_expand(&ring2, map) {
            Some(i) => Some(ring2.entries[i].0),
            None => {
                let ring3 = self.position.neighbors_at_distance(map.width(), map.height(), 3, false);
                match Self::pick_expand(&ring3, map) {
                    Some(i) => Some(ring3.entries[i].0),
                    None => None,
                }
            },
        }
    }

    /// Index of the best expansion candidate: unclaimed, in the map, and
    /// of the highest total yields; earliest on ties.
    fn pick_expand(cands: &crate::distances::Distances, map: &crate::game_map::GameMap) -> (r:
        Option<usize>)
        requires
            map.wf(),
        ensures
            match r {
                Some(b) => b == spec_pick_expand_from(cands@, map.model(), 0, -1) && b
                    < cands@.len(),
                None => spec_pick_expand_from(cands@, map.model(), 0, -1) == -1,
            },
    {
        let ghost target = spec_pick_expand_from(cands@, map.model(), 0, -1);
        let mut best: Option<usize> = None;
        let mut i: usize = 0;
        while i < cands.entries.len()
            invariant
                0 <= i <= cands@.len(),
                map.wf(),
                match best {
                    Some(b) => b < i && cands@[b as int].0.in_bounds(map.width, map.height)
                        && spec_pick_expand_from(cands@, map.model(), i as int, b as int) == target,
                    None => spec_pick_expand_from(cands@, map.model(), i as int, -1) == target,
                },
            decreases cands@.len() - i,
        {
            let (pos, _) = cands.entries[i];
            proof {
                assert(cands@[i as int].0 == pos);
            }
            let cand = map.has_tile(pos) && map.tile(pos).territory.is_none();
            let better: bool = if cand {
                match best {
                    None => true,
                    Some(b) => {
                        let bpos = cands.entries[b].0;
                        map.tile_total_yields(pos).0 > map.tile_total_yields(bpos).0
                    },
                }
            } else {
                false
            };
            if better {
                best = Some(i);
            }
            i += 1;
        }
        best
    }

    /// Claim one more tile: record it in the territory, mark it on the
    /// map, recompute derived state, and restart the growth countdown.
    pub fn grow_territory(
        &mut self,
        position: TilePosition,
        map: &mut crate::game_map::GameMap,
        building_types: &crate::building::BuildingTypes,
        tech_progress: &crate::tech::TechProgress,
    )
        requires
            old(self).wf(),
            old(map).wf(),
            building_types.wf(),
            old(self).territory_in_bounds(old(map).model()),
            position.in_bounds(old(map).width, old(map).height),
        ensures
            (final(self).model(), final(map).model()) == spec_city_grow_territory(
                old(self).model(),
                old(map).model(),
                position,
                crate::table::tb_map_values(building_types.table@, |b: BuildingType| b.model()),
                tech_progress.model(),
            ),
            final(self).wf(),
            final(map).wf(),
            final(self).territory_in_bounds(final(map).model()),
            final(map).width == old(map).width,
            final(map).height == old(map).height,
    {
        let ghost wid = map.width;
        let ghost hei = map.height;
        proof {
            crate::table::lemma_tb_insert_all(
                self.territory@,
                spec_pos_key(position),
                (position, None::<Citizen>),
                |e: TerritoryEntry| e.0 == spec_pos_key(e.1.0) && e.1.0.in_bounds(wid, hei),
            );
        }
        self.territory.insert(pos_key(position), (position, None));
        let t = *map.tile(position);
        map.set_tile(
            position,
            crate::tile::Tile {
                territory: Some(
                    crate::tile::Territory {
                        city_id: self.id,
                        city_effect_yields: Yields {
                            food: YieldValue(0),
                            production: YieldValue(0),
                            science: YieldValue(0),
                        },
                    },
                ),
                ..t
            },
        );
        self.update(map, building_types, tech_progress);
        self.turns_until_territory_growth = TERRITORY_EXPAND_TURNS;
    }

    /// One more citizen: reset the food bank and recompute derived state.
    pub fn increase_population_from_food(
        &mut self,
        map: &mut crate::game_map::GameMap,
        building_types: &crate::building::BuildingTypes,
        tech_progress: &crate::tech::TechProgress,
    )
        requires
            old(self).wf(),
            old(map).wf(),
            building_types.wf(),
            old(self).territory_in_bounds(old(map).model()),
        ensures
            (final(self).model(), final(map).model()) == spec_city_increase_population(
                old(self).model(),
                old(map).model(),
                crate::table::tb_map_values(building_types.table@, |b: BuildingType| b.model()),
                tech_progress.model(),
            ),
            final(self).wf(),
            final(map).wf(),
            final(self).territory_in_bounds(final(map).model()),
            final(map).width == old(map).width,
            final(map).height == old(map).height,
    {
        if self.population < i16::MAX {
            self.population = self.population + 1;
        }
        self.accumulated_food = YieldValue(0);
        self.update(map, building_types, tech_progress);
    }

    /// Lock or unlock a citizen on a territory tile the city owns; when
    /// every citizen is already locked, the first locked one is freed to
    /// make room. A position outside the territory changes nothing.
    pub fn set_citizen_locked(
        &mut self,
        position: TilePosition,
        locked: bool,
        map: &mut crate::game_map::GameMap,
        building_types: &crate::building::BuildingTypes,
        tech_progress: &crate::tech::TechProgress,
    )
        requires
            old(self).wf(),
            old(map).wf(),
            building_types.wf(),
            old(self).territory_in_bounds(old(map).model()),
        ensures
            (final(self).model(), final(map).model()) == spec_city_set_citizen_locked(
                old(self).model(),
                old(map).model(),
                position,
                locked,
                crate::table::tb_map_values(building_types.table@, |b: BuildingType| b.model()),
                tech_progress.model(),
            ),
            final(self).wf(),
            final(map).wf(),
            final(self).territory_in_bounds(final(map).model()),
            final(map).width == old(map).width,
            final(map).height == old(map).height,
    {
        let key = pos_key(position);
        let idx = match self.territory.index_of(key) {
            Some(i) => i,
            None => { return ; },
        };
        proof {
            assert(self.territory@[idx as int].1.0 == position) by {
                lemma_pos_key_injective(self.territory@[idx as int].1.0, position);
            }
        }
        if locked {
            let lc = self.locked_from(0);
            if self.population >= 0 && (self.population as usize) == lc {
                match self.first_locked(0) {
                    Some(f) => {
                        let (p, _) = self.territory.entries[f].1;
                        self.territory.set_value_at(f, (p, None));
                    },
                    None => {},
                }
            }
            proof {
                crate::table::lemma_tb_find_from(self.territory@, key, 0);
            }
            match self.territory.index_of(key) {
                Some(i2) => {
                    let (p, _) = self.territory.entries[i2].1;
                    self.territory.set_value_at(i2, (p, Some(Citizen::Locked)));
                },
                None => {},
            }
        } else {
            let (p, _) = self.territory.entries[idx].1;
            self.territory.set_value_at(idx, (p, None));
        }
        proof {
            assert forall|j: int|
                0 <= j < self.territory@.len() implies (#[trigger] self.territory@[j]).0
                == spec_pos_key(self.territory@[j].1.0) && 0 <= self.territory@[j].1.0.x
                <= crate::map_position::MAX_MAP_DIM && 0 <= self.territory@[j].1.0.y
                <= crate::map_position::MAX_MAP_DIM && self.territory@[j].1.0.in_bounds(
                map.width,
                map.height,
            ) by {
                assert(self.territory@[j].1.0 == old(self).territory@[j].1.0 && self.territory@[j].0
                    == old(self).territory@[j].0);
            }
        }
        self.update(map, building_types, tech_progress);
    }

    /// Index of the first locked citizen from `i` on.
    fn first_locked(&self, i: usize) -> (r: Option<usize>)
        requires
            i <= self.territory@.len(),
        ensures
            match r {
                Some(f) => f == spec_first_locked(self.territory@, i as int) && i <= f
                    < self.territory@.len(),
                None => spec_first_locked(self.territory@, i as int) == -1,
            },
        decreases self.territory@.len() - i,
    {
        if i >= self.territory.entries.len() {
            None
        } else {
            match self.territory.entries[i].1.1 {
                Some(Citizen::Locked) => Some(i),
                _ => self.first_locked(i + 1),
            }
        }
    }

    /// Record a finished building and recompute derived state.
    pub fn add_building(
        &mut self,
        building: BuildingType,
        map: &mut crate::game_map::GameMap,
        building_types: &crate::building::BuildingTypes,
        tech_progress: &crate::tech::TechProgress,
    )
        requires
            old(self).wf(),
            old(map).wf(),
            building_types.wf(),
            old(self).territory_in_bounds(old(map).model()),
            building.wf(),
        ensures
            (final(self).model(), final(map).model()) == spec_city_add_building(
                old(self).model(),
                old(map).model(),
                building.model(),
                crate::table::tb_map_values(building_types.table@, |b: BuildingType| b.model()),
                tech_progress.model(),
            ),
            final(self).wf(),
            final(map).wf(),
            final(self).territory_in_bounds(final(map).model()),
            final(map).width == old(map).width,
            final(map).height == old(map).height,
    {
        let ghost bv = building;
        let k = building.id.key();
        proof {
            crate::table::lemma_tb_insert_all(
                self.buildings@,
                k,
                bv,
                |e: (u64, BuildingType)| e.1.wf(),
            );
        }
        self.buildings.insert(k, building);
        proof {
            crate::table::lemma_tb_map_insert(
                old(self).buildings@,
                |b: BuildingType| b.model(),
                k,
                bv,
            );
        }
        self.update(map, building_types, tech_progress);
    }

    /// Apply one per-tile effect through an immutable view of the city.
    fn apply_tile_effect_outer(
        city: &City,
        map: &mut crate::game_map::GameMap,
        y: Yield,
        matcher: &TileMatcher,
    )
        requires
            city.wf(),
            old(map).wf(),
            city.territory_in_bounds(old(map).model()),
        ensures
            final(map).model() == spec_apply_tile_effect(
                city.territory@,
                old(map).model(),
                y,
                matcher.model(),
                0,
            ),
            final(map).wf(),
            final(map).width == old(map).width,
            final(map).height == old(map).height,
    {
        city.apply_tile_effect(map, y, matcher);
    }
}

} // verus!
