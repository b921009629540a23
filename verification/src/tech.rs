//! The technology tree and each civilization's research progress.
//!
//! A tech unlocks buildings and units; research is legal only when every
//! prerequisite is completed; finishing research carries leftover science
//! forward and recomputes the unlocked sets from the completed set.

use vstd::prelude::*;
use crate::building::{BuildingType, BuildingTypeModel, BuildingTypes};
use crate::table::{
    lemma_tb_find_from_exact, lemma_tb_map_get, tb_contains, tb_get, tb_insert, tb_keys,
    tb_map_values, tb_wf, IdSet, Table,
};
use crate::unit::{spec_standard_templates, UnitTemplateId, UnitTemplates};
use crate::yields::{yv_sub, YieldValue};

verus! {

/// Identifier of a tech in the tree.
#[derive(Clone, Copy, Debug, PartialEq, Eq, Structural)]
pub struct TechId(pub u8);

impl TechId {
    /// The table key for this id.
    pub open spec fn spec_key(self) -> u64 {
        self.0 as u64
    }

    #[verifier::when_used_as_spec(spec_key)]
    pub fn key(self) -> (r: u64)
        ensures
            r == self.spec_key(),
    {
        self.0 as u64
    }
}

/// A node of the tech tree.
pub struct Tech {
    pub name: String,
    pub dependencies: Vec<TechId>,
    pub buildings: Vec<BuildingType>,
    pub units: Vec<UnitTemplateId>,
    pub cost: YieldValue,
    /// Layout hint for a tree display, in per-mille of the drawing area.
    pub position: (u32, u32),
}

/// The spec-level shape of a tech node.
#[verifier::ext_equal]
pub struct TechModel {
    pub name: Seq<char>,
    pub dependencies: Seq<TechId>,
    pub buildings: Seq<BuildingTypeModel>,
    pub units: Seq<UnitTemplateId>,
    pub cost: YieldValue,
    pub position: (u32, u32),
}

impl Tech {
    pub open spec fn model(&self) -> TechModel {
        TechModel {
            name: self.name@,
            dependencies: self.dependencies@,
            buildings: self.buildings@.map_values(|b: BuildingType| b.model()),
            units: self.units@,
            cost: self.cost,
            position: self.position,
        }
    }

    pub open spec fn wf(&self) -> bool {
        self.cost.wf()
    }

    pub fn name(&self) -> (r: &str)
        ensures
            r@ == self.name@,
    {
        self.name.as_str()
    }

    pub fn dependencies(&self) -> (r: &Vec<TechId>)
        ensures
            r@ == self.dependencies@,
    {
        &self.dependencies
    }

    pub fn position(&self) -> (r: (u32, u32))
        ensures
            r == self.position,
    {
        self.position
    }

    pub fn cost(&self) -> (r: YieldValue)
        ensures
            r == self.cost,
    {
        self.cost
    }
}

/// The spec-level shape of the tech tree.
#[verifier::ext_equal]
pub struct TechTreeModel {
    pub techs: Seq<(u64, TechModel)>,
    pub next_id: u8,
    pub initial_techs: Seq<(u64, ())>,
}

/// A directed acyclic dependency graph of techs, built once at world
/// creation and immutable thereafter.
pub struct TechTree {
    pub techs: Table<Tech>,
    pub next_id: u8,
    pub initial_techs: IdSet,
}

impl TechTree {
    pub open spec fn model(&self) -> TechTreeModel {
        TechTreeModel {
            techs: tb_map_values(self.techs@, |t: Tech| t.model()),
            next_id: self.next_id,
            initial_techs: self.initial_techs.table@,
        }
    }

    pub open spec fn wf(&self) -> bool {
        &&& tb_wf(self.techs@)
        &&& self.initial_techs.wf()
        &&& forall|i: int|
            0 <= i < self.techs@.len() ==> (#[trigger] self.techs@[i]).0 <= u8::MAX
                && self.techs@[i].1.wf()
    }

    pub fn get(&self, tech_id: TechId) -> (r: Option<&Tech>)
        ensures
            match r {
                Some(t) => tb_get(self.model().techs, tech_id.spec_key()) == Some(t.model())
                    && tb_get(self.techs@, tech_id.spec_key()) == Some(*t),
                None => tb_get(self.model().techs, tech_id.spec_key()) is None,
            },
    {
        proof {
            lemma_tb_map_get(self.techs@, |t: Tech| t.model(), tech_id.spec_key());
        }
        self.techs.get(tech_id.key())
    }

    /// Every tech id in the tree, in increasing order.
    pub fn all(&self) -> (r: Vec<TechId>)
        requires
            self.wf(),
        ensures
            r@.len() == self.techs@.len(),
            forall|i: int|
                0 <= i < r@.len() ==> r@[i] == TechId((#[trigger] self.techs@[i]).0 as u8),
    {
        let mut r: Vec<TechId> = Vec::new();
        let mut i: usize = 0;
        while i < self.techs.entries.len()
            invariant
                0 <= i <= self.techs@.len(),
                self.wf(),
                r@.len() == i,
                forall|j: int|
                    0 <= j < i ==> r@[j] == TechId((#[trigger] self.techs@[j]).0 as u8),
            decreases self.techs@.len() - i,
        {
            let k = self.techs.entries[i].0;
            r.push(TechId(k as u8));
            i += 1;
        }
        r
    }

    pub fn initial_techs(&self) -> (r: &IdSet)
        ensures
            r == self.initial_techs,
    {
        &self.initial_techs
    }
}

/// The spec-level shape of a civilization's research state.
#[verifier::ext_equal]
pub struct TechProgressModel {
    pub completed: Seq<(u64, ())>,
    pub researching: Option<TechId>,
    pub progress: YieldValue,
    pub unlocked_buildings: Seq<(u64, ())>,
    pub unlocked_units: Seq<(u64, ())>,
}

/// The unlocked-building set after adding one tech's buildings.
pub open spec fn spec_unlock_b_inner(
    bs: Seq<BuildingTypeModel>,
    j: int,
    acc: Seq<(u64, ())>,
) -> Seq<(u64, ())>
    decreases bs.len() - j,
{
    if j < 0 || j >= bs.len() {
        acc
    } else {
        spec_unlock_b_inner(bs, j + 1, tb_insert(acc, bs[j].id.spec_key(), ()))
    }
}

/// The unlocked-building set: the union of the buildings of every
/// completed tech, walked in completed order.
pub open spec fn spec_unlock_buildings(
    techs: Seq<(u64, TechModel)>,
    completed: Seq<(u64, ())>,
    i: int,
    acc: Seq<(u64, ())>,
) -> Seq<(u64, ())>
    decreases completed.len() - i,
{
    if i < 0 || i >= completed.len() {
        acc
    } else {
        let acc2 = match tb_get(techs, completed[i].0) {
            Some(t) => spec_unlock_b_inner(t.buildings, 0, acc),
            None => acc,
        };
        spec_unlock_buildings(techs, completed, i + 1, acc2)
    }
}

/// The unlocked-unit set after adding one tech's units.
pub open spec fn spec_unlock_u_inner(
    us: Seq<UnitTemplateId>,
    j: int,
    acc: Seq<(u64, ())>,
) -> Seq<(u64, ())>
    decreases us.len() - j,
{
    if j < 0 || j >= us.len() {
        acc
    } else {
        spec_unlock_u_inner(us, j + 1, tb_insert(acc, us[j].spec_key(), ()))
    }
}

/// The unlocked-unit set: the union of the units of every completed
/// tech, walked in completed order.
pub open spec fn spec_unlock_units(
    techs: Seq<(u64, TechModel)>,
    completed: Seq<(u64, ())>,
    i: int,
    acc: Seq<(u64, ())>,
) -> Seq<(u64, ())>
    decreases completed.len() - i,
{
    if i < 0 || i >= completed.len() {
        acc
    } else {
        let acc2 = match tb_get(techs, completed[i].0) {
            Some(t) => spec_unlock_u_inner(t.units, 0, acc),
            None => acc,
        };
        spec_unlock_units(techs, completed, i + 1, acc2)
    }
}

/// The research state with both unlocked sets recomputed from the
/// completed set.
pub open spec fn spec_tp_recompute(m: TechProgressModel, tree: TechTreeModel) -> TechProgressModel {
    TechProgressModel {
        unlocked_buildings: spec_unlock_buildings(
            tree.techs,
            m.completed,
            0,
            Seq::<(u64, ())>::empty(),
        ),
        unlocked_units: spec_unlock_units(tree.techs, m.completed, 0, Seq::<(u64, ())>::empty()),
        ..m
    }
}

/// The starting research state: the tree's initial techs are completed,
/// nothing is being researched, and no science is banked.
pub open spec fn spec_tp_new(tree: TechTreeModel) -> TechProgressModel {
    spec_tp_recompute(
        TechProgressModel {
            completed: tree.initial_techs,
            researching: None,
            progress: YieldValue(0),
            unlocked_buildings: Seq::<(u64, ())>::empty(),
            unlocked_units: Seq::<(u64, ())>::empty(),
        },
        tree,
    )
}

/// The research state after a tech enters the completed set.
pub open spec fn spec_tp_add_completed(
    m: TechProgressModel,
    tech: TechId,
    tree: TechTreeModel,
) -> TechProgressModel {
    spec_tp_recompute(
        TechProgressModel { completed: tb_insert(m.completed, tech.spec_key(), ()), ..m },
        tree,
    )
}

/// Research can finish: something is being researched, the tree knows
/// it, and banked science has reached its cost.
pub open spec fn spec_tp_can_finish(m: TechProgressModel, tree: TechTreeModel) -> bool {
    match m.researching {
        Some(r) => match tb_get(tree.techs, r.spec_key()) {
            Some(t) => t.cost.0 <= m.progress.0,
            None => false,
        },
        None => false,
    }
}

/// The research state after finishing: the tech joins the completed set,
/// its cost is subtracted (the remainder carries forward), the research
/// slot clears, and the unlocked sets are recomputed. Finishing when
/// research cannot finish changes nothing.
pub open spec fn spec_tp_finish(m: TechProgressModel, tree: TechTreeModel) -> TechProgressModel {
    if spec_tp_can_finish(m, tree) {
        let r = m.researching->Some_0;
        let t = tb_get(tree.techs, r.spec_key())->Some_0;
        spec_tp_add_completed(
            TechProgressModel {
                researching: None,
                progress: YieldValue(yv_sub(m.progress.0, t.cost.0)),
                ..m
            },
            r,
            tree,
        )
    } else {
        m
    }
}

/// Every prerequisite in the list is in the completed set.
pub open spec fn spec_deps_completed(completed: Seq<(u64, ())>, deps: Seq<TechId>) -> bool {
    forall|j: int|
        0 <= j < deps.len() ==> tb_contains(completed, (#[trigger] deps[j]).spec_key())
}

/// A tech can be picked for research: not yet completed, known to the
/// tree, and all its prerequisites completed.
pub open spec fn spec_tp_can_research(
    m: TechProgressModel,
    tech_id: TechId,
    tree: TechTreeModel,
) -> bool {
    &&& !tb_contains(m.completed, tech_id.spec_key())
    &&& match tb_get(tree.techs, tech_id.spec_key()) {
        Some(t) => spec_deps_completed(m.completed, t.dependencies),
        None => false,
    }
}

/// A civilization's research state: completed techs, the tech being
/// researched with banked science, and the derived unlocked sets.
pub struct TechProgress {
    pub completed: IdSet,
    pub researching: Option<TechId>,
    pub progress: YieldValue,
    pub unlocked_buildings: IdSet,
    pub unlocked_units: IdSet,
}

impl TechProgress {
    pub open spec fn model(&self) -> TechProgressModel {
        TechProgressModel {
            completed: self.completed.table@,
            researching: self.researching,
            progress: self.progress,
            unlocked_buildings: self.unlocked_buildings.table@,
            unlocked_units: self.unlocked_units.table@,
        }
    }

    pub open spec fn wf(&self) -> bool {
        &&& self.completed.wf()
        &&& self.unlocked_buildings.wf()
        &&& self.unlocked_units.wf()
        &&& self.progress.wf()
    }

    /// Recompute both unlocked sets from the completed set.
    fn recompute_unlocked(&mut self, tree: &TechTree)
        requires
            old(self).wf(),
        ensures
            final(self).model() == spec_tp_recompute(old(self).model(), tree.model()),
            final(self).wf(),
    {
        let ghost techs_model = tree.model().techs;
        let ghost completed = self.completed.table@;
        let mut unlocked_b = IdSet::new();
        let mut i: usize = 0;
        while i < self.completed.table.entries.len()
            invariant
                0 <= i <= completed.len(),
                completed == self.completed.table@,
                techs_model == tree.model().techs,
                unlocked_b.wf(),
                spec_unlock_buildings(techs_model, completed, i as int, unlocked_b.table@)
                    == spec_unlock_buildings(techs_model, completed, 0, Seq::<(u64, ())>::empty()),
            decreases completed.len() - i,
        {
            let k = self.completed.table.entries[i].0;
            proof {
                lemma_tb_map_get(tree.techs@, |t: Tech| t.model(), k);
            }
            match self.techs_lookup(tree, k) {
                Some(tech) => {
                    let ghost bs = tech.model().buildings;
                    let ghost acc_in = unlocked_b.table@;
                    let mut j: usize = 0;
                    while j < tech.buildings.len()
                        invariant
                            0 <= j <= bs.len(),
                            bs == tech.model().buildings,
                            bs.len() == tech.buildings@.len(),
                            forall|m: int|
                                0 <= m < bs.len() ==> bs[m] == (#[trigger] tech.buildings@[m]).model(),
                            unlocked_b.wf(),
                            spec_unlock_b_inner(bs, j as int, unlocked_b.table@)
                                == spec_unlock_b_inner(bs, 0, acc_in),
                        decreases bs.len() - j,
                    {
                        unlocked_b.insert(tech.buildings[j].id.key());
                        j += 1;
                    }
                },
                None => {},
            }
            i += 1;
        }
        let mut unlocked_u = IdSet::new();
        let mut i2: usize = 0;
        while i2 < self.completed.table.entries.len()
            invariant
                0 <= i2 <= completed.len(),
                completed == self.completed.table@,
                techs_model == tree.model().techs,
                unlocked_u.wf(),
                spec_unlock_units(techs_model, completed, i2 as int, unlocked_u.table@)
                    == spec_unlock_units(techs_model, completed, 0, Seq::<(u64, ())>::empty()),
            decreases completed.len() - i2,
        {
            let k = self.completed.table.entries[i2].0;
            proof {
                lemma_tb_map_get(tree.techs@, |t: Tech| t.model(), k);
            }
            match self.techs_lookup(tree, k) {
                Some(tech) => {
                    let ghost us = tech.model().units;
                    let ghost acc_in = unlocked_u.table@;
                    let mut j: usize = 0;
                    while j < tech.units.len()
                        invariant
                            0 <= j <= us.len(),
                            us == tech.units@,
                            unlocked_u.wf(),
                            spec_unlock_u_inner(us, j as int, unlocked_u.table@)
                                == spec_unlock_u_inner(us, 0, acc_in),
                        decreases us.len() - j,
                    {
                        unlocked_u.insert(tech.units[j].key());
                        j += 1;
                    }
                },
                None => {},
            }
            i2 += 1;
        }
        self.unlocked_buildings = unlocked_b;
        self.unlocked_units = unlocked_u;
    }

    /// Look a tech up by raw key.
    fn techs_lookup<'a>(&self, tree: &'a TechTree, k: u64) -> (r: Option<&'a Tech>)
        ensures
            match r {
                Some(t) => tb_get(tree.model().techs, k) == Some(t.model()),
                None => tb_get(tree.model().techs, k) is None,
            },
    {
        proof {
            lemma_tb_map_get(tree.techs@, |t: Tech| t.model(), k);
        }
        tree.techs.get(k)
    }

    /// The starting research state for a fresh civilization.
    pub fn new(tech_tree: &TechTree) -> (r: Self)
        requires
            tech_tree.initial_techs.wf(),
        ensures
            r.model() == spec_tp_new(tech_tree.model()),
            r.wf(),
    {
        let mut ret = TechProgress {
            completed: tech_tree.initial_techs.duplicate(),
            researching: None,
            progress: YieldValue(0),
            unlocked_buildings: IdSet::new(),
            unlocked_units: IdSet::new(),
        };
        ret.recompute_unlocked(tech_tree);
        ret
    }

    pub fn duplicate(&self) -> (r: Self)
        ensures
            r.model() == self.model(),
            r.wf() == self.wf(),
    {
        TechProgress {
            completed: self.completed.duplicate(),
            researching: self.researching,
            progress: self.progress,
            unlocked_buildings: self.unlocked_buildings.duplicate(),
            unlocked_units: self.unlocked_units.duplicate(),
        }
    }

    pub fn has_completed(&self, tech_id: TechId) -> (r: bool)
        ensures
            r == tb_contains(self.model().completed, tech_id.spec_key()),
    {
        self.completed.contains(tech_id.key())
    }

    /// Move a tech into the completed set and recompute what is unlocked.
    pub fn add_completed(&mut self, tech: TechId, tech_tree: &TechTree)
        requires
            old(self).wf(),
        ensures
            final(self).model() == spec_tp_add_completed(old(self).model(), tech, tech_tree.model()),
            final(self).wf(),
    {
        self.completed.insert(tech.key());
        self.recompute_unlocked(tech_tree);
    }

    /// The completed techs, in id order.
    pub fn completed(&self) -> (r: Vec<u64>)
        ensures
            r@ == tb_keys(self.model().completed),
    {
        self.completed.to_list()
    }

    pub fn researching(&self) -> (r: Option<TechId>)
        ensures
            r == self.researching,
    {
        self.researching
    }

    pub fn set_researching(&mut self, researching: Option<TechId>)
        ensures
            *final(self) == (TechProgress { researching, ..*old(self) }),
    {
        self.researching = researching;
    }

    pub fn unlocked_buildings(&self) -> (r: &IdSet)
        ensures
            r == self.unlocked_buildings,
    {
        &self.unlocked_buildings
    }

    pub fn unlocked_units(&self) -> (r: &IdSet)
        ensures
            r == self.unlocked_units,
    {
        &self.unlocked_units
    }

    /// Bank one turn's science.
    pub fn on_turn_start(&mut self, science_yield: YieldValue)
        requires
            old(self).wf(),
        ensures
            *final(self) == (TechProgress {
                progress: YieldValue(crate::yields::yv_add(old(self).progress.0, science_yield.0)),
                ..*old(self)
            }),
            final(self).wf(),
    {
        self.progress = self.progress.add(science_yield);
    }

    pub fn can_finish_research(&self, tech_tree: &TechTree) -> (r: bool)
        ensures
            r == spec_tp_can_finish(self.model(), tech_tree.model()),
    {
        match self.researching {
            Some(researching) => match self.techs_lookup(tech_tree, researching.key()) {
                Some(t) => t.cost.le(self.progress),
                None => false,
            },
            None => false,
        }
    }

    /// Complete the current research: bank the remainder, clear the
    /// slot, and unlock what the tech grants. Does nothing when research
    /// cannot finish.
    pub fn finish_research(&mut self, tech_tree: &TechTree)
        requires
            old(self).wf(),
        ensures
            final(self).model() == spec_tp_finish(old(self).model(), tech_tree.model()),
            final(self).wf(),
    {
        if !self.can_finish_research(tech_tree) {
            return ;
        }
        let researching = match self.researching {
            Some(r) => r,
            None => { return ; },
        };
        let cost = match self.techs_lookup(tech_tree, researching.key()) {
            Some(t) => t.cost,
            None => { return ; },
        };
        self.progress = self.progress.sub(cost);
        self.researching = None;
        self.add_completed(researching, tech_tree);
    }

    pub fn can_research(&self, tech_id: TechId, tech_tree: &TechTree) -> (r: bool)
        ensures
            r == spec_tp_can_research(self.model(), tech_id, tech_tree.model()),
    {
        if self.has_completed(tech_id) {
            return false;
        }
        match self.techs_lookup(tech_tree, tech_id.key()) {
            Some(t) => {
                let mut j: usize = 0;
                while j < t.dependencies.len()
                    invariant
                        0 <= j <= t.dependencies@.len(),
                        !tb_contains(self.model().completed, tech_id.spec_key()),
                        tb_get(tech_tree.model().techs, tech_id.spec_key()) == Some(t.model()),
                        forall|m: int|
                            0 <= m < j ==> tb_contains(
                                self.model().completed,
                                (#[trigger] t.dependencies@[m]).spec_key(),
                            ),
                    decreases t.dependencies@.len() - j,
                {
                    if !self.has_completed(t.dependencies[j]) {
                        proof {
                            assert(!tb_contains(
                                self.model().completed,
                                t.model().dependencies[j as int].spec_key(),
                            ));
                            assert(!spec_deps_completed(
                                self.model().completed,
                                t.model().dependencies,
                            ));
                        }
                        return false;
                    }
                    j += 1;
                }
                true
            },
            None => false,
        }
    }

    /// Whether any tech is left to research.
    pub fn can_research_any(&self, tech_tree: &TechTree) -> (r: bool)
        ensures
            r == (self.model().completed.len() < tech_tree.model().techs.len()),
    {
        self.completed.len() < tech_tree.techs.len()
    }

    /// Turns until the current research finishes at the given science
    /// rate, if something is being researched that the tree knows.
    pub fn remaining_turns_for_current_research(
        &self,
        tech_tree: &TechTree,
        science: YieldValue,
    ) -> (r: Option<u64>)
        requires
            self.wf(),
            science.wf(),
            tech_tree.wf(),
        ensures
            match r {
                Some(n) => self.researching matches Some(researching) && match tb_get(
                    tech_tree.model().techs,
                    researching.spec_key(),
                ) {
                    Some(t) => n == YieldValue(yv_sub(t.cost.0, self.progress.0)).spec_turn_count(
                        science,
                    ),
                    None => false,
                },
                None => self.researching is None || tb_get(
                    tech_tree.model().techs,
                    self.researching->Some_0.spec_key(),
                ) is None,
            },
    {
        match self.researching {
            Some(researching) => match self.techs_lookup(tech_tree, researching.key()) {
                Some(t) => {
                    proof {
                        crate::table::lemma_tb_find_from(tech_tree.techs@, researching.spec_key(), 0);
                        lemma_tb_map_get(tech_tree.techs@, |x: Tech| x.model(), researching.spec_key());
                    }
                    Some(t.cost.sub(self.progress).div_to_get_turn_count(science))
                },
                None => None,
            },
            None => None,
        }
    }
}

/// The standard tech tree over the standard catalogs: a root that
/// unlocks the starting buildings and units, and a short chain of
/// placeholder techs behind it.
pub open spec fn spec_standard_tech_tree(granary: BuildingTypeModel) -> TechTreeModel {
    TechTreeModel {
        techs: seq![
            (
                1u64,
                TechModel {
                    name: "Agriculture"@,
                    dependencies: Seq::<TechId>::empty(),
                    buildings: seq![granary],
                    units: seq![UnitTemplateId(1), UnitTemplateId(3), UnitTemplateId(2)],
                    cost: YieldValue(0),
                    position: (500u32, 0u32),
                },
            ),
            (
                2u64,
                TechModel {
                    name: "A"@,
                    dependencies: seq![TechId(1)],
                    buildings: Seq::<BuildingTypeModel>::empty(),
                    units: Seq::<UnitTemplateId>::empty(),
                    cost: YieldValue(100),
                    position: (400u32, 100u32),
                },
            ),
            (
                3u64,
                TechModel {
                    name: "B"@,
                    dependencies: seq![TechId(2)],
                    buildings: Seq::<BuildingTypeModel>::empty(),
                    units: Seq::<UnitTemplateId>::empty(),
                    cost: YieldValue(100),
                    position: (400u32, 200u32),
                },
            ),
            (
                4u64,
                TechModel {
                    name: "C"@,
                    dependencies: seq![TechId(1), TechId(3)],
                    buildings: Seq::<BuildingTypeModel>::empty(),
                    units: Seq::<UnitTemplateId>::empty(),
                    cost: YieldValue(100),
                    position: (600u32, 300u32),
                },
            ),
            (
                5u64,
                TechModel {
                    name: "D"@,
                    dependencies: seq![TechId(4)],
                    buildings: Seq::<BuildingTypeModel>::empty(),
                    units: Seq::<UnitTemplateId>::empty(),
                    cost: YieldValue(100),
                    position: (600u32, 400u32),
                },
            ),
        ],
        next_id: 5,
        initial_techs: seq![(1u64, ())],
    }
}

impl TechTree {
    /// The standard tree over the standard catalogs.
    pub fn generate(buildings: &BuildingTypes, units: &UnitTemplates) -> (r: TechTree)
        requires
            crate::building::spec_standard_building_types(buildings.table@),
            spec_standard_templates(units.table@),
        ensures
            r.model() == spec_standard_tech_tree(buildings.table@[0].1.model()),
            r.wf(),
    {
        proof {
            lemma_tb_find_from_exact(buildings.table@, 1u64, 0, 0);
        }
        let granary = match buildings.get(crate::building::BuildingTypeId(1)) {
            Some(b) => b.duplicate(),
            None => vstd::pervasive::unreached(),
        };
        let ghost granary_model = buildings.table@[0].1.model();
        assert(granary.model() == granary_model);
        let mut root_buildings: Vec<BuildingType> = Vec::new();
        root_buildings.push(granary);
        let mut root_units: Vec<UnitTemplateId> = Vec::new();
        root_units.push(UnitTemplateId(1));
        root_units.push(UnitTemplateId(3));
        root_units.push(UnitTemplateId(2));
        let root = Tech {
            name: "Agriculture".to_owned(),
            dependencies: Vec::new(),
            buildings: root_buildings,
            units: root_units,
            cost: YieldValue(0),
            position: (500, 0),
        };
        let mut a_deps: Vec<TechId> = Vec::new();
        a_deps.push(TechId(1));
        let tech_a = Tech {
            name: "A".to_owned(),
            dependencies: a_deps,
            buildings: Vec::new(),
            units: Vec::new(),
            cost: YieldValue(100),
            position: (400, 100),
        };
        let mut b_deps: Vec<TechId> = Vec::new();
        b_deps.push(TechId(2));
        let tech_b = Tech {
            name: "B".to_owned(),
            dependencies: b_deps,
            buildings: Vec::new(),
            units: Vec::new(),
            cost: YieldValue(100),
            position: (400, 200),
        };
        let mut c_deps: Vec<TechId> = Vec::new();
        c_deps.push(TechId(1));
        c_deps.push(TechId(3));
        let tech_c = Tech {
            name: "C".to_owned(),
            dependencies: c_deps,
            buildings: Vec::new(),
            units: Vec::new(),
            cost: YieldValue(100),
            position: (600, 300),
        };
        let mut d_deps: Vec<TechId> = Vec::new();
        d_deps.push(TechId(4));
        let tech_d = Tech {
            name: "D".to_owned(),
            dependencies: d_deps,
            buildings: Vec::new(),
            units: Vec::new(),
            cost: YieldValue(100),
            position: (600, 400),
        };
        let mut entries: Vec<(u64, Tech)> = Vec::new();
        entries.push((1, root));
        entries.push((2, tech_a));
        entries.push((3, tech_b));
        entries.push((4, tech_c));
        entries.push((5, tech_d));
        let mut initial = IdSet::new();
        initial.insert(1);
        let tree = TechTree { techs: Table { entries }, next_id: 5, initial_techs: initial };
        proof {
            assert(tb_wf(tree.techs@));
            assert(tree.initial_techs.table@ =~= seq![(1u64, ())]);
            let m = tree.model();
            let sm = spec_standard_tech_tree(granary_model);
            assert(m.techs.len() == 5);
            assert(m.techs[0].1.buildings =~= sm.techs[0].1.buildings);
            assert(m.techs[0].1.units =~= sm.techs[0].1.units);
            assert(m.techs[0].1.dependencies =~= sm.techs[0].1.dependencies);
            assert(m.techs[1].1.buildings =~= sm.techs[1].1.buildings);
            assert(m.techs[1].1.units =~= sm.techs[1].1.units);
            assert(m.techs[1].1.dependencies =~= sm.techs[1].1.dependencies);
            assert(m.techs[2].1.buildings =~= sm.techs[2].1.buildings);
            assert(m.techs[2].1.units =~= sm.techs[2].1.units);
            assert(m.techs[2].1.dependencies =~= sm.techs[2].1.dependencies);
            assert(m.techs[3].1.buildings =~= sm.techs[3].1.buildings);
            assert(m.techs[3].1.units =~= sm.techs[3].1.units);
            assert(m.techs[3].1.dependencies =~= sm.techs[3].1.dependencies);
            assert(m.techs[4].1.buildings =~= sm.techs[4].1.buildings);
            assert(m.techs[4].1.units =~= sm.techs[4].1.units);
            assert(m.techs[4].1.dependencies =~= sm.techs[4].1.dependencies);
            assert(m.techs =~= sm.techs);
            assert(m.initial_techs =~= sm.initial_techs);
        }
        tree
    }
}

} // verus!
