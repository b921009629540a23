//! Units: the template catalog they are minted from, and their identity
//! and turn-scoped state (position, remaining movement, sleep flag).

use vstd::prelude::*;
use crate::civilization::CivilizationId;
use crate::map_position::{MapUnit, TilePosition, MAX_MAP_DIM};
use crate::table::{tb_wf, Table};
use crate::yields::YieldValue;

verus! {

/// Identifier of a unit template in the catalog.
#[derive(Clone, Copy, Debug, PartialEq, Eq, Structural)]
pub struct UnitTemplateId(pub u16);

impl UnitTemplateId {
    /// The table key for this id.
    pub open spec fn spec_key(self) -> u64 {
        self.0 as u64
    }

    #[verifier::when_used_as_spec(spec_key)]
    pub fn key(self) -> (r: u64)
        ensures
            r == self.spec_key(),
    {
        self.0 as u64
    }
}

/// The counter after minting: one more, until the id space is exhausted.
pub open spec fn spec_gen_next_u16(n: u16) -> u16 {
    if n < u16::MAX {
        (n + 1) as u16
    } else {
        n
    }
}

/// Mints template ids, starting from one and never reusing one.
pub struct UnitTemplateIdGenerator {
    pub next: u16,
}

impl UnitTemplateIdGenerator {
    pub fn new() -> (r: Self)
        ensures
            r.next == 0,
    {
        UnitTemplateIdGenerator { next: 0 }
    }

    pub fn next(&mut self) -> (r: UnitTemplateId)
        ensures
            final(self).next == spec_gen_next_u16(old(self).next),
            r == UnitTemplateId(spec_gen_next_u16(old(self).next)),
    {
        if self.next < u16::MAX {
            self.next = self.next + 1;
        }
        UnitTemplateId(self.next)
    }
}

/// The broad kind of a unit; a tile hosts at most one unit of each kind.
#[derive(Clone, Copy, Debug, PartialEq, Eq, Structural)]
pub enum UnitType {
    Civilian,
    Soldier,
}

/// Identifier of a unit in the world.
#[derive(Clone, Copy, Debug, PartialEq, Eq, Structural)]
pub struct UnitId(pub u16);

impl UnitId {
    /// The table key for this id.
    pub open spec fn spec_key(self) -> u64 {
        self.0 as u64
    }

    #[verifier::when_used_as_spec(spec_key)]
    pub fn key(self) -> (r: u64)
        ensures
            r == self.spec_key(),
    {
        self.0 as u64
    }
}

/// Mints unit ids, starting from one and never reusing one.
pub struct UnitIdGenerator {
    pub next: u16,
}

impl UnitIdGenerator {
    pub fn new() -> (r: Self)
        ensures
            r.next == 0,
    {
        UnitIdGenerator { next: 0 }
    }

    pub fn next(&mut self) -> (r: UnitId)
        ensures
            final(self).next == spec_gen_next_u16(old(self).next),
            r == UnitId(spec_gen_next_u16(old(self).next)),
    {
        if self.next < u16::MAX {
            self.next = self.next + 1;
        }
        UnitId(self.next)
    }
}

/// A special action a unit can take.
#[derive(Clone, Copy, Debug, PartialEq, Eq, Structural)]
pub enum UnitAbility {
    Settle,
    Harvest,
}

/// Which abilities a unit has.
#[derive(Clone, Copy, Debug, PartialEq, Eq, Structural)]
pub struct AbilitySet {
    pub settle: bool,
    pub harvest: bool,
}

impl AbilitySet {
    pub open spec fn spec_has(self, ability: UnitAbility) -> bool {
        match ability {
            UnitAbility::Settle => self.settle,
            UnitAbility::Harvest => self.harvest,
        }
    }

    pub fn none() -> (r: Self)
        ensures
            r == (AbilitySet { settle: false, harvest: false }),
    {
        AbilitySet { settle: false, harvest: false }
    }

    pub fn has(self, ability: UnitAbility) -> (r: bool)
        ensures
            r == self.spec_has(ability),
    {
        match ability {
            UnitAbility::Settle => self.settle,
            UnitAbility::Harvest => self.harvest,
        }
    }

    /// The abilities as a list, in a fixed order.
    pub fn to_list(self) -> (r: Vec<UnitAbility>)
        ensures
            forall|a: UnitAbility| r@.contains(a) <==> self.spec_has(a),
    {
        let mut r: Vec<UnitAbility> = Vec::new();
        if self.settle {
            r.push(UnitAbility::Settle);
        }
        if self.harvest {
            r.push(UnitAbility::Harvest);
        }
        proof {
            if self.settle {
                if self.harvest {
                    assert(r@ =~= seq![UnitAbility::Settle, UnitAbility::Harvest]);
                } else {
                    assert(r@ =~= seq![UnitAbility::Settle]);
                }
            } else {
                if self.harvest {
                    assert(r@ =~= seq![UnitAbility::Harvest]);
                } else {
                    assert(r@ =~= Seq::<UnitAbility>::empty());
                }
            }
            assert forall|a: UnitAbility| r@.contains(a) implies self.spec_has(a) by {
                let i = choose|i: int| 0 <= i < r@.len() && r@[i] == a;
            }
            assert forall|a: UnitAbility| self.spec_has(a) implies r@.contains(a) by {
                if self.settle && a == UnitAbility::Settle {
                    assert(r@[0] == a);
                }
                if self.harvest && a == UnitAbility::Harvest {
                    assert(r@[r@.len() - 1] == a);
                }
            }
        }
        r
    }
}

/// The template a unit is minted from.
#[derive(Debug)]
pub struct UnitTemplate {
    pub id: UnitTemplateId,
    pub unit_type: UnitType,
    pub name: String,
    pub movement: MapUnit,
    pub abilities: AbilitySet,
    pub production_cost: YieldValue,
    pub initial_charges: Option<u64>,
}

/// The spec-level shape of a unit template.
#[verifier::ext_equal]
pub struct UnitTemplateModel {
    pub id: UnitTemplateId,
    pub unit_type: UnitType,
    pub name: Seq<char>,
    pub movement: MapUnit,
    pub abilities: AbilitySet,
    pub production_cost: YieldValue,
    pub initial_charges: Option<u64>,
}

impl UnitTemplate {
    pub open spec fn model(&self) -> UnitTemplateModel {
        UnitTemplateModel {
            id: self.id,
            unit_type: self.unit_type,
            name: self.name@,
            movement: self.movement,
            abilities: self.abilities,
            production_cost: self.production_cost,
            initial_charges: self.initial_charges,
        }
    }

    /// Movement fits the geometry's range and the cost is representable.
    pub open spec fn wf(&self) -> bool {
        0 <= self.movement <= MAX_MAP_DIM && self.production_cost.wf()
    }

    pub fn duplicate(&self) -> (r: Self)
        ensures
            r == *self,
    {
        UnitTemplate {
            id: self.id,
            unit_type: self.unit_type,
            name: self.name.clone(),
            movement: self.movement,
            abilities: self.abilities,
            production_cost: self.production_cost,
            initial_charges: self.initial_charges,
        }
    }

    /// Turns to finish this template at the given production rate.
    pub fn turn_cost(&self, production: YieldValue) -> (r: u64)
        requires
            self.wf(),
            production.wf(),
        ensures
            r == self.production_cost.spec_turn_count(production),
    {
        self.production_cost.div_to_get_turn_count(production)
    }
}

/// The settler template in the standard catalog.
pub open spec fn spec_settler_template(t: UnitTemplate) -> bool {
    &&& t.id == UnitTemplateId(1)
    &&& t.unit_type == UnitType::Civilian
    &&& t.name@ == "Settler"@
    &&& t.movement == 2
    &&& t.abilities == AbilitySet { settle: true, harvest: false }
    &&& t.production_cost == YieldValue(200)
    &&& t.initial_charges is None
}

/// The worker template in the standard catalog.
pub open spec fn spec_worker_template(t: UnitTemplate) -> bool {
    &&& t.id == UnitTemplateId(2)
    &&& t.unit_type == UnitType::Civilian
    &&& t.name@ == "Worker"@
    &&& t.movement == 2
    &&& t.abilities == AbilitySet { settle: false, harvest: true }
    &&& t.production_cost == YieldValue(150)
    &&& t.initial_charges == Some(3u64)
}

/// The warrior template in the standard catalog.
pub open spec fn spec_warrior_template(t: UnitTemplate) -> bool {
    &&& t.id == UnitTemplateId(3)
    &&& t.unit_type == UnitType::Soldier
    &&& t.name@ == "Warrior"@
    &&& t.movement == 2
    &&& t.abilities == AbilitySet { settle: false, harvest: false }
    &&& t.production_cost == YieldValue(140)
    &&& t.initial_charges is None
}

/// The standard catalog: settler, worker, warrior under keys 1, 2, 3.
pub open spec fn spec_standard_templates(s: Seq<(u64, UnitTemplate)>) -> bool {
    &&& s.len() == 3
    &&& s[0].0 == 1 && spec_settler_template(s[0].1)
    &&& s[1].0 == 2 && spec_worker_template(s[1].1)
    &&& s[2].0 == 3 && spec_warrior_template(s[2].1)
}

/// The read-only catalog of unit templates.
pub struct UnitTemplates {
    pub table: Table<UnitTemplate>,
}

impl UnitTemplates {
    pub open spec fn wf(&self) -> bool {
        tb_wf(self.table@) && forall|i: int|
            0 <= i < self.table@.len() ==> (#[trigger] self.table@[i]).1.wf()
    }

    /// The standard catalog.
    pub fn new() -> (r: Self)
        ensures
            spec_standard_templates(r.table@),
            r.wf(),
    {
        let mut gen = UnitTemplateIdGenerator::new();
        let settler = UnitTemplate {
            id: gen.next(),
            unit_type: UnitType::Civilian,
            name: "Settler".to_owned(),
            movement: 2,
            abilities: AbilitySet { settle: true, harvest: false },
            production_cost: YieldValue(200),
            initial_charges: None,
        };
        let worker = UnitTemplate {
            id: gen.next(),
            unit_type: UnitType::Civilian,
            name: "Worker".to_owned(),
            movement: 2,
            abilities: AbilitySet { settle: false, harvest: true },
            production_cost: YieldValue(150),
            initial_charges: Some(3),
        };
        let warrior = UnitTemplate {
            id: gen.next(),
            unit_type: UnitType::Soldier,
            name: "Warrior".to_owned(),
            movement: 2,
            abilities: AbilitySet { settle: false, harvest: false },
            production_cost: YieldValue(140),
            initial_charges: None,
        };
        let mut entries: Vec<(u64, UnitTemplate)> = Vec::new();
        entries.push((1, settler));
        entries.push((2, worker));
        entries.push((3, warrior));
        let table = Table { entries };
        proof {
            assert(tb_wf(table@));
        }
        UnitTemplates { table }
    }

    /// Every template with its key, in id order.
    pub fn all(&self) -> (r: &Vec<(u64, UnitTemplate)>)
        ensures
            r@ == self.table@,
    {
        &self.table.entries
    }

    pub fn get(&self, id: UnitTemplateId) -> (r: Option<&UnitTemplate>)
        ensures
            match r {
                Some(t) => crate::table::tb_get(self.table@, id.spec_key()) == Some(*t),
                None => crate::table::tb_get(self.table@, id.spec_key()) is None,
            },
    {
        self.table.get(id.key())
    }

    /// The first template with the given name, if any.
    pub fn get_by_name(&self, name: &str) -> (r: Option<&UnitTemplate>)
        ensures
            match r {
                Some(t) => exists|i: int|
                    0 <= i < self.table@.len() && (#[trigger] self.table@[i]).1 == *t
                        && t.name@ == name@,
                None => forall|i: int|
                    0 <= i < self.table@.len() ==> (#[trigger] self.table@[i]).1.name@ != name@,
            },
    {
        let needle: String = name.to_owned();
        let mut i: usize = 0;
        while i < self.table.entries.len()
            invariant
                0 <= i <= self.table@.len(),
                needle@ == name@,
                forall|j: int| 0 <= j < i ==> (#[trigger] self.table@[j]).1.name@ != name@,
            decreases self.table@.len() - i,
        {
            if self.table.entries[i].1.name == needle {
                return Some(&self.table.entries[i].1);
            }
            i += 1;
        }
        None
    }
}

/// Whether a unit could harvest where it stands.
pub open spec fn spec_can_harvest(
    u: UnitModel,
    cities: Seq<(u64, crate::city::CityModel)>,
    m: crate::game_map::GameMapModel,
) -> bool {
    &&& u.position.in_bounds(m.width, m.height)
    &&& match crate::game_map::spec_tile_at(m, u.position).territory {
        Some(t) => match crate::table::tb_get(cities, t.city_id.spec_key()) {
            Some(city) => {
                &&& u.abilities.harvest
                &&& u.remaining_movement > 0
                &&& !crate::game_map::spec_tile_at(m, u.position).harvested
                &&& crate::game_map::spec_tile_at(m, u.position).resource is Some
                &&& city.owner == u.owner
                &&& match u.charges {
                    Some((current, _)) => current > 0,
                    None => true,
                }
            },
            None => false,
        },
        None => false,
    }
}

/// A unit on the map: identity, template-derived attributes, and
/// turn-scoped mutable state.
pub struct Unit {
    pub id: UnitId,
    pub name: String,
    pub owner: CivilizationId,
    pub unit_type: UnitType,
    pub total_movement: MapUnit,
    pub abilities: AbilitySet,
    /// Remaining and initial charge count, for units that carry charges.
    pub charges: Option<(u64, u64)>,
    pub sleeping: bool,
    pub position: TilePosition,
    pub remaining_movement: MapUnit,
}

/// The spec-level shape of a unit.
#[verifier::ext_equal]
pub struct UnitModel {
    pub id: UnitId,
    pub name: Seq<char>,
    pub owner: CivilizationId,
    pub unit_type: UnitType,
    pub total_movement: MapUnit,
    pub abilities: AbilitySet,
    pub charges: Option<(u64, u64)>,
    pub sleeping: bool,
    pub position: TilePosition,
    pub remaining_movement: MapUnit,
}

impl Unit {
    pub open spec fn model(&self) -> UnitModel {
        UnitModel {
            id: self.id,
            name: self.name@,
            owner: self.owner,
            unit_type: self.unit_type,
            total_movement: self.total_movement,
            abilities: self.abilities,
            charges: self.charges,
            sleeping: self.sleeping,
            position: self.position,
            remaining_movement: self.remaining_movement,
        }
    }

    /// Movement stays within its budget and the position within range.
    pub open spec fn wf(&self) -> bool {
        &&& 0 <= self.remaining_movement <= self.total_movement <= MAX_MAP_DIM
        &&& self.position.in_range()
    }

    /// The freshly minted unit a template describes, waiting for its
    /// first turn to receive movement.
    pub open spec fn spec_new(
        template: UnitTemplate,
        id: UnitId,
        owner: CivilizationId,
        position: TilePosition,
    ) -> Unit {
        Unit {
            id,
            name: template.name,
            owner,
            unit_type: template.unit_type,
            total_movement: template.movement,
            abilities: template.abilities,
            charges: match template.initial_charges {
                Some(n) => Some((n, n)),
                None => None,
            },
            sleeping: false,
            position,
            remaining_movement: 0,
        }
    }

    pub fn new(template: &UnitTemplate, id: UnitId, owner: CivilizationId, position: TilePosition)
        -> (r: Unit)
        requires
            template.wf(),
            position.in_range(),
        ensures
            r == Unit::spec_new(*template, id, owner, position),
            r.wf(),
    {
        Unit {
            id,
            name: template.name.clone(),
            owner,
            unit_type: template.unit_type,
            total_movement: template.movement,
            abilities: template.abilities,
            charges: match template.initial_charges {
                Some(n) => Some((n, n)),
                None => None,
            },
            sleeping: false,
            position,
            remaining_movement: 0,
        }
    }

    pub fn duplicate(&self) -> (r: Self)
        ensures
            r == *self,
    {
        Unit {
            id: self.id,
            name: self.name.clone(),
            owner: self.owner,
            unit_type: self.unit_type,
            total_movement: self.total_movement,
            abilities: self.abilities,
            charges: self.charges,
            sleeping: self.sleeping,
            position: self.position,
            remaining_movement: self.remaining_movement,
        }
    }

    pub fn name(&self) -> (r: &String)
        ensures
            r == self.name,
    {
        &self.name
    }

    pub fn owner(&self) -> (r: CivilizationId)
        ensures
            r == self.owner,
    {
        self.owner
    }

    pub fn unit_type(&self) -> (r: UnitType)
        ensures
            r == self.unit_type,
    {
        self.unit_type
    }

    pub fn position(&self) -> (r: TilePosition)
        ensures
            r == self.position,
    {
        self.position
    }

    pub fn id(&self) -> (r: UnitId)
        ensures
            r == self.id,
    {
        self.id
    }

    /// At a turn start a unit's movement budget is refilled, exactly once.
    pub fn on_turn_start(&mut self)
        ensures
            *final(self) == (Unit { remaining_movement: old(self).total_movement, ..*old(self) }),
    {
        self.remaining_movement = self.total_movement;
    }

    pub fn total_movement(&self) -> (r: MapUnit)
        ensures
            r == self.total_movement,
    {
        self.total_movement
    }

    pub fn remaining_movement(&self) -> (r: MapUnit)
        ensures
            r == self.remaining_movement,
    {
        self.remaining_movement
    }

    pub fn sleeping(&self) -> (r: bool)
        ensures
            r == self.sleeping,
    {
        self.sleeping
    }

    pub fn has_ability(&self, ability: UnitAbility) -> (r: bool)
        ensures
            r == self.abilities.spec_has(ability),
    {
        self.abilities.has(ability)
    }

    /// The unit's abilities as a list, in a fixed order.
    pub fn abilities(&self) -> (r: Vec<UnitAbility>)
        ensures
            forall|a: UnitAbility| r@.contains(a) <==> self.abilities.spec_has(a),
    {
        self.abilities.to_list()
    }

    pub fn charges(&self) -> (r: Option<(u64, u64)>)
        ensures
            r == self.charges,
    {
        self.charges
    }

    /// The unit can harvest where it stands: it has the ability and
    /// movement left, the tile is an unharvested resource tile inside
    /// some city's territory, that city belongs to the unit's owner, and
    /// a charge is left (units without charges are unlimited).
    pub fn can_harvest(
        &self,
        cities: &Table<crate::city::City>,
        map: &crate::game_map::GameMap,
    ) -> (r: bool)
        requires
            map.wf(),
            self.wf(),
            self.position.in_bounds(map.width, map.height),
        ensures
            r == spec_can_harvest(
                self.model(),
                crate::table::tb_map_values(cities@, |c: crate::city::City| c.model()),
                map.model(),
            ),
    {
        let tile = *map.tile(self.position);
        let territory = match tile.territory {
            Some(t) => t,
            None => { return false; },
        };
        proof {
            crate::table::lemma_tb_map_get(
                cities@,
                |c: crate::city::City| c.model(),
                territory.city_id.spec_key(),
            );
        }
        let city_owner = match cities.get(territory.city_id.key()) {
            Some(city) => city.owner,
            None => { return false; },
        };
        self.has_ability(UnitAbility::Harvest) && self.remaining_movement > 0 && !tile.harvested
            && tile.resource.is_some() && city_owner.0 == self.owner.0 && (match self.charges {
            Some((current, _)) => current > 0,
            None => true,
        })
    }

    /// Spend one charge; only meaningful on a unit that has one left.
    pub fn use_charge(&mut self)
        requires
            old(self).charges matches Some((current, _)) && current > 0,
        ensures
            *final(self) == (Unit {
                charges: match old(self).charges {
                    Some((current, initial)) => Some(((current - 1) as u64, initial)),
                    None => None,
                },
                ..*old(self)
            }),
    {
        match self.charges {
            Some((current, initial)) => {
                self.charges = Some((current - 1, initial));
            },
            None => {},
        }
    }
}

} // verus!
