//! Tiles of the map: terrain kind, occupying units, owning city,
//! territory claim, rivers, resource and vegetation, and the yields a
//! tile produces from all of these together.

use vstd::prelude::*;
use crate::city::CityId;
use crate::map_position::{TileEdge, TilePosition};
use crate::resource::{ResourceType, Vegetation};
use crate::unit::{UnitId, UnitType};
use crate::yields::{spec_yields_add, YieldValue, Yields};

verus! {

/// Terrain kind of a tile.
#[derive(Clone, Copy, Debug, PartialEq, Eq, Structural)]
pub enum TileType {
    Plains,
    Mountain,
    Ocean,
    Desert,
}

impl TileType {
    /// Resources this terrain can carry, each with its pick weight.
    pub open spec fn spec_supported_resources(self) -> Seq<(ResourceType, u64)> {
        match self {
            TileType::Plains => seq![
                (ResourceType::Sheep, 3u64),
                (ResourceType::Horses, 2u64),
                (ResourceType::Gold, 1u64),
                (ResourceType::Iron, 1u64),
                (ResourceType::Silver, 1u64),
                (ResourceType::Niter, 1u64),
                (ResourceType::Coal, 1u64),
                (ResourceType::Wheat, 3u64),
            ],
            _ => Seq::<(ResourceType, u64)>::empty(),
        }
    }

    pub fn supported_resources(self) -> (r: Vec<(ResourceType, u64)>)
        ensures
            r@ == self.spec_supported_resources(),
    {
        match self {
            TileType::Plains => {
                let v = vec![
                    (ResourceType::Sheep, 3u64),
                    (ResourceType::Horses, 2u64),
                    (ResourceType::Gold, 1u64),
                    (ResourceType::Iron, 1u64),
                    (ResourceType::Silver, 1u64),
                    (ResourceType::Niter, 1u64),
                    (ResourceType::Coal, 1u64),
                    (ResourceType::Wheat, 3u64),
                ];
                proof {
                    assert(v@ =~= self.spec_supported_resources());
                }
                v
            },
            _ => Vec::new(),
        }
    }

    /// Vegetation this terrain can carry, each with its pick weight.
    pub open spec fn spec_supported_vegetation(self) -> Seq<(Vegetation, u64)> {
        match self {
            TileType::Plains => seq![(Vegetation::Forest, 4u64), (Vegetation::Jungle, 1u64)],
            _ => Seq::<(Vegetation, u64)>::empty(),
        }
    }

    pub fn supported_vegetation(self) -> (r: Vec<(Vegetation, u64)>)
        ensures
            r@ == self.spec_supported_vegetation(),
    {
        match self {
            TileType::Plains => {
                let v = vec![(Vegetation::Forest, 4u64), (Vegetation::Jungle, 1u64)];
                proof {
                    assert(v@ =~= self.spec_supported_vegetation());
                }
                v
            },
            _ => Vec::new(),
        }
    }

    /// Base yields of bare terrain.
    pub open spec fn spec_yields(self) -> Yields {
        let zero = Yields { food: YieldValue(0), production: YieldValue(0), science: YieldValue(0) };
        match self {
            TileType::Plains => Yields { food: YieldValue(10), ..zero },
            TileType::Mountain => Yields { science: YieldValue(10), ..zero },
            TileType::Ocean => Yields { food: YieldValue(10), ..zero },
            TileType::Desert => zero,
        }
    }

    pub fn yields(self) -> (r: Yields)
        ensures
            r == self.spec_yields(),
            r.wf(),
    {
        let zero = Yields { food: YieldValue(0), production: YieldValue(0), science: YieldValue(0) };
        match self {
            TileType::Plains => Yields { food: YieldValue(10), ..zero },
            TileType::Mountain => Yields { science: YieldValue(10), ..zero },
            TileType::Ocean => Yields { food: YieldValue(10), ..zero },
            TileType::Desert => zero,
        }
    }
}

/// A city's claim on a tile, with the cached per-tile bonus its
/// building effects grant.
#[derive(Clone, Copy, Debug, PartialEq, Eq, Structural)]
pub struct Territory {
    pub city_id: CityId,
    pub city_effect_yields: Yields,
}

/// Which of a tile's six edges carry a river.
#[derive(Clone, Copy, Debug, PartialEq, Eq, Structural)]
pub struct RiverEdges {
    pub top_left: bool,
    pub top: bool,
    pub top_right: bool,
    pub bottom_right: bool,
    pub bottom: bool,
    pub bottom_left: bool,
}

impl RiverEdges {
    pub fn none() -> (r: Self)
        ensures
            r == RiverEdges::spec_none(),
    {
        RiverEdges {
            top_left: false,
            top: false,
            top_right: false,
            bottom_right: false,
            bottom: false,
            bottom_left: false,
        }
    }

    pub open spec fn spec_none() -> RiverEdges {
        RiverEdges {
            top_left: false,
            top: false,
            top_right: false,
            bottom_right: false,
            bottom: false,
            bottom_left: false,
        }
    }

    pub open spec fn spec_has(self, edge: TileEdge) -> bool {
        match edge {
            TileEdge::TopLeft => self.top_left,
            TileEdge::Top => self.top,
            TileEdge::TopRight => self.top_right,
            TileEdge::BottomRight => self.bottom_right,
            TileEdge::Bottom => self.bottom,
            TileEdge::BottomLeft => self.bottom_left,
        }
    }

    pub fn has(self, edge: TileEdge) -> (r: bool)
        ensures
            r == self.spec_has(edge),
    {
        match edge {
            TileEdge::TopLeft => self.top_left,
            TileEdge::Top => self.top,
            TileEdge::TopRight => self.top_right,
            TileEdge::BottomRight => self.bottom_right,
            TileEdge::Bottom => self.bottom,
            TileEdge::BottomLeft => self.bottom_left,
        }
    }

    /// This set with one more edge marked.
    pub open spec fn spec_with(self, edge: TileEdge) -> RiverEdges {
        match edge {
            TileEdge::TopLeft => RiverEdges { top_left: true, ..self },
            TileEdge::Top => RiverEdges { top: true, ..self },
            TileEdge::TopRight => RiverEdges { top_right: true, ..self },
            TileEdge::BottomRight => RiverEdges { bottom_right: true, ..self },
            TileEdge::Bottom => RiverEdges { bottom: true, ..self },
            TileEdge::BottomLeft => RiverEdges { bottom_left: true, ..self },
        }
    }

    pub fn with(self, edge: TileEdge) -> (r: RiverEdges)
        ensures
            r == self.spec_with(edge),
    {
        match edge {
            TileEdge::TopLeft => RiverEdges { top_left: true, ..self },
            TileEdge::Top => RiverEdges { top: true, ..self },
            TileEdge::TopRight => RiverEdges { top_right: true, ..self },
            TileEdge::BottomRight => RiverEdges { bottom_right: true, ..self },
            TileEdge::Bottom => RiverEdges { bottom: true, ..self },
            TileEdge::BottomLeft => RiverEdges { bottom_left: true, ..self },
        }
    }
}

/// One cell of the map.
#[derive(Clone, Copy, Debug, PartialEq, Eq, Structural)]
pub struct Tile {
    pub position: TilePosition,
    pub tile_type: TileType,
    /// The civilian unit standing here, if any; a tile hosts at most one
    /// unit of each unit type.
    pub civilian_unit: Option<UnitId>,
    /// The soldier unit standing here, if any.
    pub soldier_unit: Option<UnitId>,
    pub city: Option<CityId>,
    pub territory: Option<Territory>,
    pub rivers: RiverEdges,
    pub resource: Option<ResourceType>,
    pub vegetation: Option<Vegetation>,
    pub harvested: bool,
}

/// The separate contributions a tile's yields are composed of.
pub struct TileYieldContributors {
    pub type_yields: Option<Yields>,
    pub resource_yields: Option<Yields>,
    pub vegetation_yields: Option<Yields>,
    pub city_yields: Option<Yields>,
    pub city_effect_yields: Option<Yields>,
}

/// The flat bonus a tile gets for hosting a city, in place of its
/// terrain yields.
pub open spec fn spec_city_tile_yields() -> Yields {
    Yields { food: YieldValue(20), production: YieldValue(20), science: YieldValue(0) }
}

impl Tile {
    /// The tile's cached effect bonus stays representable.
    pub open spec fn wf(&self) -> bool {
        match self.territory {
            Some(t) => t.city_effect_yields.wf(),
            None => true,
        }
    }

    /// A blank tile of the given terrain.
    pub open spec fn spec_new(position: TilePosition, tile_type: TileType) -> Tile {
        Tile {
            position,
            tile_type,
            civilian_unit: None,
            soldier_unit: None,
            city: None,
            territory: None,
            rivers: RiverEdges::spec_none(),
            resource: None,
            vegetation: None,
            harvested: false,
        }
    }

    pub fn new(position: TilePosition, tile_type: TileType) -> (r: Tile)
        ensures
            r == Tile::spec_new(position, tile_type),
    {
        Tile {
            position,
            tile_type,
            civilian_unit: None,
            soldier_unit: None,
            city: None,
            territory: None,
            rivers: RiverEdges::none(),
            resource: None,
            vegetation: None,
            harvested: false,
        }
    }

    /// Units can stand only on plains.
    pub open spec fn spec_resideable(&self) -> bool {
        self.tile_type == TileType::Plains
    }

    pub fn resideable(&self) -> (r: bool)
        ensures
            r == self.spec_resideable(),
    {
        match self.tile_type {
            TileType::Plains => true,
            _ => false,
        }
    }

    /// The unit of the given type standing here, if any.
    pub open spec fn spec_unit_of_type(&self, unit_type: UnitType) -> Option<UnitId> {
        match unit_type {
            UnitType::Civilian => self.civilian_unit,
            UnitType::Soldier => self.soldier_unit,
        }
    }

    pub fn unit_of_type(&self, unit_type: UnitType) -> (r: Option<UnitId>)
        ensures
            r == self.spec_unit_of_type(unit_type),
    {
        match unit_type {
            UnitType::Civilian => self.civilian_unit,
            UnitType::Soldier => self.soldier_unit,
        }
    }

    /// This tile with the slot for the given unit type rebound.
    pub open spec fn spec_with_unit(&self, unit_type: UnitType, unit: Option<UnitId>) -> Tile {
        match unit_type {
            UnitType::Civilian => Tile { civilian_unit: unit, ..*self },
            UnitType::Soldier => Tile { soldier_unit: unit, ..*self },
        }
    }

    /// This tile with the slot for the given unit type rebound.
    pub fn with_unit(self, unit_type: UnitType, unit: Option<UnitId>) -> (r: Tile)
        ensures
            r == self.spec_with_unit(unit_type, unit),
    {
        match unit_type {
            UnitType::Civilian => Tile { civilian_unit: unit, ..self },
            UnitType::Soldier => Tile { soldier_unit: unit, ..self },
        }
    }

    pub fn set_unit(&mut self, unit_type: UnitType, unit: Option<UnitId>)
        ensures
            *final(self) == old(self).spec_with_unit(unit_type, unit),
    {
        match unit_type {
            UnitType::Civilian => self.civilian_unit = unit,
            UnitType::Soldier => self.soldier_unit = unit,
        }
    }

    /// A unit of the given type may move here: the terrain hosts units
    /// and no unit of that type is here already.
    pub open spec fn spec_unit_can_reside(&self, unit_type: UnitType) -> bool {
        self.spec_resideable() && self.spec_unit_of_type(unit_type) is None
    }

    pub fn unit_can_reside(&self, unit_type: UnitType) -> (r: bool)
        ensures
            r == self.spec_unit_can_reside(unit_type),
    {
        self.resideable() && self.unit_of_type(unit_type).is_none()
    }

    /// Each contribution to this tile's yields: resource (raised when
    /// harvested), vegetation, bare terrain (suppressed under a city),
    /// the flat city bonus, and the cached city-effect bonus.
    pub open spec fn spec_yield_contributors(&self) -> (
        Option<Yields>,
        Option<Yields>,
        Option<Yields>,
        Option<Yields>,
        Option<Yields>,
    ) {
        (
            match self.resource {
                Some(res) => Some(res.spec_yields(self.harvested)),
                None => None,
            },
            match self.vegetation {
                Some(veg) => Some(veg.spec_yields()),
                None => None,
            },
            if self.city is None {
                Some(self.tile_type.spec_yields())
            } else {
                None
            },
            if self.city is Some {
                Some(spec_city_tile_yields())
            } else {
                None
            },
            match self.territory {
                Some(t) => Some(t.city_effect_yields),
                None => None,
            },
        )
    }

    pub fn yield_contributors(&self) -> (r: TileYieldContributors)
        ensures
            (r.resource_yields, r.vegetation_yields, r.type_yields, r.city_yields,
            r.city_effect_yields) == self.spec_yield_contributors(),
    {
        TileYieldContributors {
            resource_yields: match self.resource {
                Some(res) => Some(res.yields(self.harvested)),
                None => None,
            },
            vegetation_yields: match self.vegetation {
                Some(veg) => Some(veg.yields()),
                None => None,
            },
            type_yields: if self.city.is_none() {
                Some(self.tile_type.yields())
            } else {
                None
            },
            city_yields: if self.city.is_some() {
                Some(Yields {
                    food: YieldValue(20),
                    production: YieldValue(20),
                    science: YieldValue(0),
                })
            } else {
                None
            },
            city_effect_yields: match self.territory {
                Some(t) => Some(t.city_effect_yields),
                None => None,
            },
        }
    }

    /// Total yields of the tile: the sum of every contribution.
    pub open spec fn spec_yields(&self) -> Yields {
        let (res, veg, ty, city, eff) = self.spec_yield_contributors();
        let zero = Yields { food: YieldValue(0), production: YieldValue(0), science: YieldValue(0) };
        let a = match res {
            Some(y) => spec_yields_add(zero, y),
            None => zero,
        };
        let b = match veg {
            Some(y) => spec_yields_add(a, y),
            None => a,
        };
        let c = match ty {
            Some(y) => spec_yields_add(b, y),
            None => b,
        };
        let d = match city {
            Some(y) => spec_yields_add(c, y),
            None => c,
        };
        match eff {
            Some(y) => spec_yields_add(d, y),
            None => d,
        }
    }

    pub fn yields(&self) -> (r: Yields)
        requires
            self.wf(),
        ensures
            r == self.spec_yields(),
            r.wf(),
    {
        let contributors = self.yield_contributors();
        let mut result = Yields::zero();
        if let Some(y) = contributors.resource_yields {
            result = result.add(y);
        }
        if let Some(y) = contributors.vegetation_yields {
            result = result.add(y);
        }
        if let Some(y) = contributors.type_yields {
            result = result.add(y);
        }
        if let Some(y) = contributors.city_yields {
            result = result.add(y);
        }
        if let Some(y) = contributors.city_effect_yields {
            result = result.add(y);
        }
        result
    }
}

/// A leaf condition on a tile.
#[derive(Clone, Copy, Debug, PartialEq, Eq, Structural)]
pub enum TileBaseMatcher {
    IsType(TileType),
    HasResource(ResourceType),
    HasVegetation(Vegetation),
}

impl TileBaseMatcher {
    pub open spec fn spec_matches(self, tile: Tile) -> bool {
        match self {
            TileBaseMatcher::IsType(tile_type) => tile.tile_type == tile_type,
            TileBaseMatcher::HasResource(resource_type) => tile.resource == Some(resource_type),
            TileBaseMatcher::HasVegetation(vegetation) => tile.vegetation == Some(vegetation),
        }
    }

    pub fn matches(self, tile: &Tile) -> (r: bool)
        ensures
            r == self.spec_matches(*tile),
    {
        match self {
            TileBaseMatcher::IsType(tile_type) => tile.tile_type == tile_type,
            TileBaseMatcher::HasResource(resource_type) => match tile.resource {
                Some(res) => res == resource_type,
                None => false,
            },
            TileBaseMatcher::HasVegetation(vegetation) => match tile.vegetation {
                Some(veg) => veg == vegetation,
                None => false,
            },
        }
    }
}

/// A condition on a tile: a leaf, or one level of conjunction or
/// disjunction over leaves.
#[derive(Clone, Debug)]
pub enum TileMatcher {
    IsType(TileType),
    HasResource(ResourceType),
    HasVegetation(Vegetation),
    And(Vec<TileBaseMatcher>),
    Or(Vec<TileBaseMatcher>),
}

/// The spec-level shape of a tile condition.
#[verifier::ext_equal]
pub enum TileMatcherModel {
    IsType(TileType),
    HasResource(ResourceType),
    HasVegetation(Vegetation),
    And(Seq<TileBaseMatcher>),
    Or(Seq<TileBaseMatcher>),
}

impl TileMatcher {
    pub open spec fn model(&self) -> TileMatcherModel {
        match self {
            TileMatcher::IsType(t) => TileMatcherModel::IsType(*t),
            TileMatcher::HasResource(r) => TileMatcherModel::HasResource(*r),
            TileMatcher::HasVegetation(v) => TileMatcherModel::HasVegetation(*v),
            TileMatcher::And(ms) => TileMatcherModel::And(ms@),
            TileMatcher::Or(ms) => TileMatcherModel::Or(ms@),
        }
    }

    pub fn duplicate(&self) -> (r: Self)
        ensures
            r.model() == self.model(),
    {
        match self {
            TileMatcher::IsType(t) => TileMatcher::IsType(*t),
            TileMatcher::HasResource(res) => TileMatcher::HasResource(*res),
            TileMatcher::HasVegetation(v) => TileMatcher::HasVegetation(*v),
            TileMatcher::And(ms) => {
                let mut v: Vec<TileBaseMatcher> = Vec::new();
                let mut i: usize = 0;
                while i < ms.len()
                    invariant
                        0 <= i <= ms@.len(),
                        v@ == ms@.take(i as int),
                    decreases ms@.len() - i,
                {
                    proof {
                        assert(ms@.take(i + 1 as int) =~= ms@.take(i as int).push(ms@[i as int]));
                    }
                    v.push(ms[i]);
                    i += 1;
                }
                proof {
                    assert(ms@.take(ms@.len() as int) =~= ms@);
                }
                TileMatcher::And(v)
            },
            TileMatcher::Or(ms) => {
                let mut v: Vec<TileBaseMatcher> = Vec::new();
                let mut i: usize = 0;
                while i < ms.len()
                    invariant
                        0 <= i <= ms@.len(),
                        v@ == ms@.take(i as int),
                    decreases ms@.len() - i,
                {
                    proof {
                        assert(ms@.take(i + 1 as int) =~= ms@.take(i as int).push(ms@[i as int]));
                    }
                    v.push(ms[i]);
                    i += 1;
                }
                proof {
                    assert(ms@.take(ms@.len() as int) =~= ms@);
                }
                TileMatcher::Or(v)
            },
        }
    }
}

/// Every leaf condition in the list holds of the tile.
pub open spec fn spec_all_match(ms: Seq<TileBaseMatcher>, tile: Tile) -> bool {
    forall|i: int| 0 <= i < ms.len() ==> (#[trigger] ms[i]).spec_matches(tile)
}

/// At least one leaf condition in the list holds of the tile.
pub open spec fn spec_any_match(ms: Seq<TileBaseMatcher>, tile: Tile) -> bool {
    exists|i: int| 0 <= i < ms.len() && (#[trigger] ms[i]).spec_matches(tile)
}

/// Whether a tile meets a condition: leaves directly, `And` when every
/// leaf holds, `Or` when at least one does.
pub open spec fn spec_matcher_matches(m: TileMatcherModel, tile: Tile) -> bool {
    match m {
        TileMatcherModel::IsType(t) => tile.tile_type == t,
        TileMatcherModel::HasResource(r) => tile.resource == Some(r),
        TileMatcherModel::HasVegetation(v) => tile.vegetation == Some(v),
        TileMatcherModel::And(ms) => spec_all_match(ms, tile),
        TileMatcherModel::Or(ms) => spec_any_match(ms, tile),
    }
}

impl TileMatcher {
    pub fn matches(&self, tile: &Tile) -> (r: bool)
        ensures
            r == spec_matcher_matches(self.model(), *tile),
    {
        match self {
            TileMatcher::IsType(t) => TileBaseMatcher::IsType(*t).matches(tile),
            TileMatcher::HasResource(res) => TileBaseMatcher::HasResource(*res).matches(tile),
            TileMatcher::HasVegetation(v) => TileBaseMatcher::HasVegetation(*v).matches(tile),
            TileMatcher::And(ms) => {
                let mut i: usize = 0;
                while i < ms.len()
                    invariant
                        0 <= i <= ms@.len(),
                        self.model() == TileMatcherModel::And(ms@),
                        forall|j: int| 0 <= j < i ==> (#[trigger] ms@[j]).spec_matches(*tile),
                    decreases ms@.len() - i,
                {
                    if !ms[i].matches(tile) {
                        proof {
                            assert(!ms@[i as int].spec_matches(*tile));
                            assert(!spec_all_match(ms@, *tile));
                        }
                        return false;
                    }
                    i += 1;
                }
                true
            },
            TileMatcher::Or(ms) => {
                let mut i: usize = 0;
                while i < ms.len()
                    invariant
                        0 <= i <= ms@.len(),
                        self.model() == TileMatcherModel::Or(ms@),
                        forall|j: int| 0 <= j < i ==> !(#[trigger] ms@[j]).spec_matches(*tile),
                    decreases ms@.len() - i,
                {
                    if ms[i].matches(tile) {
                        proof {
                            assert(0 <= (i as int) < ms@.len() && ms@[i as int].spec_matches(
                                *tile,
                            ));
                            assert(spec_any_match(ms@, *tile));
                        }
                        return true;
                    }
                    i += 1;
                }
                false
            },
        }
    }
}

} // verus!
