//! Building types: the catalog of what cities can construct, each with
//! its production cost and the standing effects it grants.

use vstd::prelude::*;
use crate::city::{CityEffect, CityEffectModel};
use crate::table::{tb_wf, Table};
use crate::tile::{TileBaseMatcher, TileMatcher, TileMatcherModel};
use crate::unit::spec_gen_next_u16;
use crate::yields::{Yield, YieldMultiplier, YieldType, YieldValue};

verus! {

/// Identifier of a building type in the catalog.
#[derive(Clone, Copy, Debug, PartialEq, Eq, Structural)]
pub struct BuildingTypeId(pub u16);

impl BuildingTypeId {
    /// The table key for this id.
    pub open spec fn spec_key(self) -> u64 {
        self.0 as u64
    }

    #[verifier::when_used_as_spec(spec_key)]
    pub fn key(self) -> (r: u64)
        ensures
            r == self.spec_key(),
    {
        self.0 as u64
    }
}

/// Mints building type ids, starting from one and never reusing one.
pub struct BuildingTypeIdGenerator {
    pub next: u16,
}

impl BuildingTypeIdGenerator {
    pub fn new() -> (r: Self)
        ensures
            r.next == 0,
    {
        BuildingTypeIdGenerator { next: 0 }
    }

    pub fn next(&mut self) -> (r: BuildingTypeId)
        ensures
            final(self).next == spec_gen_next_u16(old(self).next),
            r == BuildingTypeId(spec_gen_next_u16(old(self).next)),
    {
        if self.next < u16::MAX {
            self.next = self.next + 1;
        }
        BuildingTypeId(self.next)
    }
}

/// A kind of building a city can construct.
pub struct BuildingType {
    pub id: BuildingTypeId,
    pub name: String,
    pub effects: Vec<CityEffect>,
    pub production_cost: YieldValue,
}

/// The spec-level shape of a building type.
#[verifier::ext_equal]
pub struct BuildingTypeModel {
    pub id: BuildingTypeId,
    pub name: Seq<char>,
    pub effects: Seq<CityEffectModel>,
    pub production_cost: YieldValue,
}

impl BuildingType {
    pub open spec fn model(&self) -> BuildingTypeModel {
        BuildingTypeModel {
            id: self.id,
            name: self.name@,
            effects: self.effects@.map_values(|e: CityEffect| e.model()),
            production_cost: self.production_cost,
        }
    }

    pub open spec fn wf(&self) -> bool {
        self.production_cost.wf()
    }

    pub fn duplicate(&self) -> (r: Self)
        ensures
            r.model() == self.model(),
            r.wf() == self.wf(),
    {
        let mut effects: Vec<CityEffect> = Vec::new();
        let mut i: usize = 0;
        while i < self.effects.len()
            invariant
                0 <= i <= self.effects@.len(),
                effects@.map_values(|e: CityEffect| e.model()) == self.effects@.take(
                    i as int,
                ).map_values(|e: CityEffect| e.model()),
            decreases self.effects@.len() - i,
        {
            proof {
                assert(self.effects@.take(i + 1 as int).map_values(|e: CityEffect| e.model())
                    =~= self.effects@.take(i as int).map_values(|e: CityEffect| e.model()).push(
                    self.effects@[i as int].model(),
                ));
            }
            effects.push(self.effects[i].duplicate());
            i += 1;
        }
        proof {
            assert(self.effects@.take(self.effects@.len() as int) =~= self.effects@);
        }
        BuildingType {
            id: self.id,
            name: self.name.clone(),
            effects,
            production_cost: self.production_cost,
        }
    }

    /// Turns to finish this building at the given production rate.
    pub fn turn_cost(&self, production: YieldValue) -> (r: u64)
        requires
            self.wf(),
            production.wf(),
        ensures
            r == self.production_cost.spec_turn_count(production),
    {
        self.production_cost.div_to_get_turn_count(production)
    }
}

/// The granary in the standard catalog: multiplies food by 1.2.
pub open spec fn spec_granary_model(b: BuildingTypeModel) -> bool {
    &&& b.id == BuildingTypeId(1)
    &&& b.name == "Granary"@
    &&& b.production_cost == YieldValue(250)
    &&& b.effects == seq![
        CityEffectModel::MulYield(
            YieldMultiplier { multiplier: YieldValue(12), yield_type: YieldType::Food },
        ),
    ]
}

/// The stable in the standard catalog: adds production on horse tiles.
pub open spec fn spec_stable_model(b: BuildingTypeModel) -> bool {
    &&& b.id == BuildingTypeId(2)
    &&& b.name == "Stable"@
    &&& b.production_cost == YieldValue(250)
    &&& b.effects == seq![
        CityEffectModel::AddTileYield {
            yield_: Yield { value: YieldValue(10), yield_type: YieldType::Production },
            matcher: TileMatcherModel::HasResource(crate::resource::ResourceType::Horses),
        },
    ]
}

/// The standard catalog: granary and stable under keys 1 and 2.
pub open spec fn spec_standard_building_types(s: Seq<(u64, BuildingType)>) -> bool {
    &&& s.len() == 2
    &&& s[0].0 == 1 && spec_granary_model(s[0].1.model()) && s[0].1.wf()
    &&& s[1].0 == 2 && spec_stable_model(s[1].1.model()) && s[1].1.wf()
}

/// The read-only catalog of building types.
pub struct BuildingTypes {
    pub table: Table<BuildingType>,
}

impl BuildingTypes {
    pub open spec fn wf(&self) -> bool {
        tb_wf(self.table@) && forall|i: int|
            0 <= i < self.table@.len() ==> (#[trigger] self.table@[i]).1.wf()
    }

    /// The standard catalog.
    pub fn new() -> (r: Self)
        ensures
            spec_standard_building_types(r.table@),
            r.wf(),
    {
        let mut granary_effects: Vec<CityEffect> = Vec::new();
        granary_effects.push(
            CityEffect::MulYield(
                YieldMultiplier { multiplier: YieldValue(12), yield_type: YieldType::Food },
            ),
        );
        let granary = BuildingType {
            id: BuildingTypeId(1),
            name: "Granary".to_owned(),
            effects: granary_effects,
            production_cost: YieldValue(250),
        };
        let mut stable_effects: Vec<CityEffect> = Vec::new();
        stable_effects.push(
            CityEffect::AddTileYield {
                yield_: Yield { value: YieldValue(10), yield_type: YieldType::Production },
                matcher: TileMatcher::HasResource(crate::resource::ResourceType::Horses),
            },
        );
        let stable = BuildingType {
            id: BuildingTypeId(2),
            name: "Stable".to_owned(),
            effects: stable_effects,
            production_cost: YieldValue(250),
        };
        let mut entries: Vec<(u64, BuildingType)> = Vec::new();
        entries.push((1, granary));
        entries.push((2, stable));
        let table = Table { entries };
        proof {
            assert(tb_wf(table@));
            assert(table@[0].1.model().effects =~= seq![
                CityEffectModel::MulYield(
                    YieldMultiplier { multiplier: YieldValue(12), yield_type: YieldType::Food },
                ),
            ]);
            assert(table@[1].1.model().effects =~= seq![
                CityEffectModel::AddTileYield {
                    yield_: Yield { value: YieldValue(10), yield_type: YieldType::Production },
                    matcher: TileMatcherModel::HasResource(crate::resource::ResourceType::Horses),
                },
            ]);
        }
        BuildingTypes { table }
    }

    pub fn get(&self, id: BuildingTypeId) -> (r: Option<&BuildingType>)
        ensures
            match r {
                Some(b) => crate::table::tb_get(self.table@, id.spec_key()) == Some(*b),
                None => crate::table::tb_get(self.table@, id.spec_key()) is None,
            },
    {
        self.table.get(id.key())
    }

    /// The first building type with the given name, if any.
    pub fn get_by_name(&self, name: &str) -> (r: Option<&BuildingType>)
        ensures
            match r {
                Some(b) => exists|i: int|
                    0 <= i < self.table@.len() && (#[trigger] self.table@[i]).1 == *b
                        && b.name@ == name@,
                None => forall|i: int|
                    0 <= i < self.table@.len() ==> (#[trigger] self.table@[i]).1.name@ != name@,
            },
    {
        let needle: String = name.to_owned();
        let mut i: usize = 0;
        while i < self.table.entries.len()
            invariant
                0 <= i <= self.table@.len(),
                needle@ == name@,
                forall|j: int| 0 <= j < i ==> (#[trigger] self.table@[j]).1.name@ != name@,
            decreases self.table@.len() - i,
        {
            if self.table.entries[i].1.name == needle {
                return Some(&self.table.entries[i].1);
            }
            i += 1;
        }
        None
    }
}

} // verus!
