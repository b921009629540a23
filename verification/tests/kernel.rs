//! End-to-end checks of the simulation kernel: world construction,
//! action validation, event application, and per-turn resolution.

use hexciv::actions::GameActionType;
use hexciv::building::BuildingTypeId;
use hexciv::city::{CityId, ProducingItemId};
use hexciv::events::GameEventType;
use hexciv::game_world::GameWorld;
use hexciv::map_position::TilePosition;
use hexciv::player::{InitPlayer, PlayerId};
use hexciv::tech::TechId;
use hexciv::unit::{UnitId, UnitTemplate};

fn two_players() -> Vec<InitPlayer> {
    vec![
        InitPlayer { id: PlayerId(1), name: "Ada".to_owned() },
        InitPlayer { id: PlayerId(2), name: "Grace".to_owned() },
    ]
}

fn settler_template(world: &GameWorld) -> UnitTemplate {
    world.unit_templates().get_by_name("Settler").expect("catalog has a settler").duplicate()
}

fn warrior_template(world: &GameWorld) -> UnitTemplate {
    world.unit_templates().get_by_name("Warrior").expect("catalog has a warrior").duplicate()
}

fn spawn_unit(world: &mut GameWorld, template: &UnitTemplate, player: u8, id: u16, x: i16, y: i16) {
    world.apply_event(&GameEventType::NewUnit {
        template: template.duplicate(),
        owner: hexciv::civilization::CivilizationId(player),
        position: TilePosition { x, y },
        unit_id: UnitId(id),
    });
}

#[test]
fn world_construction() {
    let world = GameWorld::new(10, 10, &two_players());
    assert_eq!(world.turn(), 0);
    assert_eq!(world.players().len(), 2);
    assert_eq!(world.civilizations().len(), 2);
    assert_eq!(world.map.width(), 10);
    assert_eq!(world.map.height(), 10);
    let p1 = world.player(PlayerId(1)).expect("player one is enrolled");
    assert_eq!(p1.name().as_str(), "Ada");
    let civ = world.civilization(p1.civilization_id()).expect("player one has a civilization");
    assert_eq!(civ.player_name().as_str(), "Ada");
}

#[test]
fn found_city_via_settler() {
    let mut world = GameWorld::new(10, 10, &two_players());
    world.start();
    assert_eq!(world.turn(), 1);
    let settler = settler_template(&world);
    spawn_unit(&mut world, &settler, 0, 1, 4, 4);
    let events = world.process_action(
        &GameActionType::FoundCity { unit_id: UnitId(1) },
        PlayerId(1),
    );
    assert_eq!(events.len(), 2);
    assert!(matches!(events[0], GameEventType::DeleteUnit { .. }));
    assert!(matches!(events[1], GameEventType::FoundCity { .. }));
    assert!(world.unit(UnitId(1)).is_none());
    let city = world.city(CityId(1)).expect("the city was founded");
    assert_eq!(city.position(), TilePosition { x: 4, y: 4 });
    assert_eq!(city.population(), 1);
    // The city claimed its own tile and its six neighbors.
    assert_eq!(city.territory().len(), 7);
    // The outline of the seven-tile flower: each ring tile keeps three
    // outward edges.
    assert_eq!(city.borders().len(), 18);
}

#[test]
fn movement_within_range() {
    let mut world = GameWorld::new(10, 10, &two_players());
    world.start();
    let warrior = warrior_template(&world);
    spawn_unit(&mut world, &warrior, 0, 1, 4, 4);
    let unit = world.unit(UnitId(1)).expect("warrior exists");
    assert_eq!(unit.remaining_movement(), 2);
    let events = world.process_action(
        &GameActionType::MoveUnit { unit_id: UnitId(1), position: TilePosition { x: 4, y: 6 } },
        PlayerId(1),
    );
    assert_eq!(events.len(), 1);
    let unit = world.unit(UnitId(1)).expect("warrior exists");
    assert_eq!(unit.position(), TilePosition { x: 4, y: 6 });
    assert_eq!(unit.remaining_movement(), 0);
}

#[test]
fn movement_beyond_range_rejected() {
    let mut world = GameWorld::new(10, 10, &two_players());
    world.start();
    let warrior = warrior_template(&world);
    spawn_unit(&mut world, &warrior, 0, 1, 4, 4);
    let events = world.process_action(
        &GameActionType::MoveUnit { unit_id: UnitId(1), position: TilePosition { x: 4, y: 8 } },
        PlayerId(1),
    );
    assert_eq!(events.len(), 0);
    let unit = world.unit(UnitId(1)).expect("warrior exists");
    assert_eq!(unit.position(), TilePosition { x: 4, y: 4 });
}

#[test]
fn unauthorized_action_rejected() {
    let mut world = GameWorld::new(10, 10, &two_players());
    world.start();
    let warrior = warrior_template(&world);
    spawn_unit(&mut world, &warrior, 0, 1, 4, 4);
    // Player two does not own player one's warrior.
    let events = world.process_action(
        &GameActionType::MoveUnit { unit_id: UnitId(1), position: TilePosition { x: 4, y: 5 } },
        PlayerId(2),
    );
    assert_eq!(events.len(), 0);
    let unit = world.unit(UnitId(1)).expect("warrior exists");
    assert_eq!(unit.position(), TilePosition { x: 4, y: 4 });
    assert_eq!(unit.remaining_movement(), 2);
    // The same action from the owner goes through.
    let events = world.process_action(
        &GameActionType::MoveUnit { unit_id: UnitId(1), position: TilePosition { x: 4, y: 5 } },
        PlayerId(1),
    );
    assert_eq!(events.len(), 1);
}

#[test]
fn determinism_same_events_same_state() {
    let events = {
        let mut world = GameWorld::new(8, 8, &two_players());
        world.start();
        let settler = settler_template(&world);
        spawn_unit(&mut world, &settler, 0, 1, 3, 3);
        let mut evs = world.process_action(
            &GameActionType::FoundCity { unit_id: UnitId(1) },
            PlayerId(1),
        );
        let mut more = world.process_action(&GameActionType::SetReady(true), PlayerId(1));
        evs.append(&mut more);
        let mut more = world.process_action(&GameActionType::SetReady(true), PlayerId(2));
        evs.append(&mut more);
        evs
    };
    let mut w1 = GameWorld::new(8, 8, &two_players());
    w1.start();
    let settler = settler_template(&w1);
    spawn_unit(&mut w1, &settler, 0, 1, 3, 3);
    let mut w2 = GameWorld::new(8, 8, &two_players());
    w2.start();
    spawn_unit(&mut w2, &settler, 0, 1, 3, 3);
    for e in &events {
        w1.apply_event(&e.duplicate());
        w2.apply_event(&e.duplicate());
    }
    assert_eq!(w1.turn(), w2.turn());
    let c1 = w1.city(CityId(1)).expect("city in world one");
    let c2 = w2.city(CityId(1)).expect("city in world two");
    assert_eq!(c1.yields(), c2.yields());
    assert_eq!(c1.borders(), c2.borders());
    assert_eq!(c1.population(), c2.population());
    assert_eq!(c1.territory().len(), c2.territory().len());
    assert_eq!(c1.producible_units(), c2.producible_units());
}

#[test]
fn production_completion_emits_one_build_event() {
    let mut world = GameWorld::new(10, 10, &two_players());
    world.start();
    let settler = settler_template(&world);
    spawn_unit(&mut world, &settler, 0, 1, 4, 4);
    world.process_action(&GameActionType::FoundCity { unit_id: UnitId(1) }, PlayerId(1));
    let warrior = warrior_template(&world);
    let events = world.process_action(
        &GameActionType::SetProducing {
            city_id: CityId(1),
            producing: Some(ProducingItemId::Unit(warrior)),
        },
        PlayerId(1),
    );
    assert_eq!(events.len(), 1);
    // Run turns until production completes; the warrior costs 14 points.
    let mut new_unit_events = 0;
    for _ in 0..12 {
        let mut evs = world.process_action(&GameActionType::SetReady(true), PlayerId(1));
        let mut more = world.process_action(&GameActionType::SetReady(true), PlayerId(2));
        evs.append(&mut more);
        for e in &evs {
            if matches!(e, GameEventType::NewUnit { .. }) {
                new_unit_events += 1;
            }
        }
        if new_unit_events > 0 {
            break;
        }
    }
    assert_eq!(new_unit_events, 1);
    let city = world.city(CityId(1)).expect("city exists");
    assert!(city.producing().is_none());
    // The minted warrior took the first generated unit id and stands on
    // the city tile or beside it.
    let minted = world.unit(UnitId(1)).expect("the produced warrior exists");
    let d = minted.position().distance_to(TilePosition { x: 4, y: 4 });
    assert!(d <= 1);
}

#[test]
fn tech_research_completes_with_leftover() {
    let mut world = GameWorld::new(10, 10, &two_players());
    world.start();
    let settler = settler_template(&world);
    spawn_unit(&mut world, &settler, 0, 1, 4, 4);
    world.process_action(&GameActionType::FoundCity { unit_id: UnitId(1) }, PlayerId(1));
    // Tech two ("A") costs ten science; its prerequisite is already done.
    let events = world.process_action(
        &GameActionType::SetResearch { tech_id: TechId(2) },
        PlayerId(1),
    );
    assert_eq!(events.len(), 1);
    let mut finished = false;
    for _ in 0..15 {
        let mut evs = world.process_action(&GameActionType::SetReady(true), PlayerId(1));
        let mut more = world.process_action(&GameActionType::SetReady(true), PlayerId(2));
        evs.append(&mut more);
        if evs.iter().any(|e| matches!(e, GameEventType::FinishResearch { .. })) {
            finished = true;
            break;
        }
    }
    assert!(finished);
    let p1 = world.player(PlayerId(1)).unwrap();
    let civ = world.civilization(p1.civilization_id()).unwrap();
    assert!(civ.tech_progress().has_completed(TechId(2)));
    assert!(civ.tech_progress().researching().is_none());
    // Ten tenths of science per turn while the city has one citizen and
    // twenty after it grows at turn five; the hundred-tenth cost line is
    // crossed at one hundred ten, so ten tenths carry forward.
    assert_eq!(civ.tech_progress().progress.0, 10);
}

#[test]
fn research_needs_prerequisites() {
    let mut world = GameWorld::new(10, 10, &two_players());
    world.start();
    // Tech three ("B") depends on tech two, which is not completed yet.
    let events = world.process_action(
        &GameActionType::SetResearch { tech_id: TechId(3) },
        PlayerId(1),
    );
    assert_eq!(events.len(), 0);
}

#[test]
fn city_update_is_idempotent() {
    let mut world = GameWorld::new(10, 10, &two_players());
    world.start();
    let settler = settler_template(&world);
    spawn_unit(&mut world, &settler, 0, 1, 4, 4);
    world.process_action(&GameActionType::FoundCity { unit_id: UnitId(1) }, PlayerId(1));
    let mut city = world.cities.remove(CityId(1).key()).expect("city exists");
    let bt = hexciv::building::BuildingTypes::new();
    let tp = {
        let p1 = world.player(PlayerId(1)).unwrap().civilization_id();
        world.civilization(p1).unwrap().tech_progress().duplicate()
    };
    city.update(&mut world.map, &bt, &tp);
    let yields_one = city.yields();
    let borders_one = city.borders().clone();
    let producible_units_one = city.producible_units().clone();
    let producible_buildings_one: Vec<BuildingTypeId> =
        city.producible_buildings().iter().map(|b| b.id).collect();
    city.update(&mut world.map, &bt, &tp);
    assert_eq!(city.yields(), yields_one);
    assert_eq!(city.borders(), &borders_one);
    assert_eq!(city.producible_units(), &producible_units_one);
    let producible_buildings_two: Vec<BuildingTypeId> =
        city.producible_buildings().iter().map(|b| b.id).collect();
    assert_eq!(producible_buildings_two, producible_buildings_one);
}

#[test]
fn starting_units_use_the_world_generator() {
    let mut world = GameWorld::new(10, 10, &two_players());
    world.place_starting_units();
    world.start();
    // Two civilizations got a settler and a warrior each, under ids the
    // world's own generator minted.
    assert_eq!(world.units().len(), 4);
    for id in [1u16, 2, 3, 4] {
        let unit = world.unit(UnitId(id)).expect("starting unit exists");
        let tile = world.map.tile(unit.position());
        assert_eq!(tile.unit_of_type(unit.unit_type()), Some(UnitId(id)));
    }
    // Ids minted later continue after the starting units: a settler
    // founds a city, and the first produced unit takes id five.
    let settler = world.unit(UnitId(1)).expect("first unit is a settler");
    assert!(settler.has_ability(hexciv::unit::UnitAbility::Settle));
    let pos = settler.position();
    world.process_action(&GameActionType::FoundCity { unit_id: UnitId(1) }, PlayerId(1));
    let city = world.city(CityId(1)).expect("the city was founded");
    assert_eq!(city.position(), pos);
    let warrior = warrior_template(&world);
    world.process_action(
        &GameActionType::SetProducing {
            city_id: CityId(1),
            producing: Some(ProducingItemId::Unit(warrior)),
        },
        PlayerId(1),
    );
    for _ in 0..12 {
        world.process_action(&GameActionType::SetReady(true), PlayerId(1));
        let evs = world.process_action(&GameActionType::SetReady(true), PlayerId(2));
        if evs.iter().any(|e| matches!(e, GameEventType::NewUnit { .. })) {
            break;
        }
    }
    assert!(world.unit(UnitId(5)).is_some());
}

#[test]
fn rivers_replay_deterministically() {
    let mut w1 = GameWorld::new(10, 10, &two_players());
    let mut w2 = GameWorld::new(10, 10, &two_players());
    for w in [&mut w1, &mut w2] {
        w.generate_river(TilePosition { x: 4, y: 4 }, 1);
    }
    for x in 0..10 {
        for y in 0..10 {
            let p = TilePosition { x, y };
            assert_eq!(w1.map.tile(p).rivers, w2.map.tile(p).rivers);
        }
    }
    // The walk marked at least its starting tile's edge.
    assert!(w1.map.tile(TilePosition { x: 4, y: 4 }).rivers.has(
        hexciv::map_position::TileEdge::Top,
    ));
}

#[test]
fn moving_onto_an_occupied_tile_is_refused() {
    let mut world = GameWorld::new(10, 10, &two_players());
    world.start();
    let warrior = warrior_template(&world);
    spawn_unit(&mut world, &warrior, 0, 1, 4, 4);
    spawn_unit(&mut world, &warrior, 0, 2, 4, 5);
    let events = world.process_action(
        &GameActionType::MoveUnit { unit_id: UnitId(1), position: TilePosition { x: 4, y: 5 } },
        PlayerId(1),
    );
    assert_eq!(events.len(), 0);
    // Both units keep their tiles, and both tile markers still agree.
    for (id, y) in [(1u16, 4i16), (2, 5)] {
        let unit = world.unit(UnitId(id)).expect("unit exists");
        assert_eq!(unit.position(), TilePosition { x: 4, y });
        let tile = world.map.tile(unit.position());
        assert_eq!(tile.unit_of_type(unit.unit_type()), Some(UnitId(id)));
    }
}

#[test]
fn harvest_spends_charge_and_movement() {
    let mut world = GameWorld::new(10, 10, &two_players());
    world.start();
    let settler = settler_template(&world);
    spawn_unit(&mut world, &settler, 0, 1, 4, 4);
    world.process_action(&GameActionType::FoundCity { unit_id: UnitId(1) }, PlayerId(1));
    // Put a resource on a territory tile and stand a worker on it.
    let pos = TilePosition { x: 4, y: 5 };
    let tile = *world.map.tile(pos);
    world.map.set_tile(
        pos,
        hexciv::tile::Tile { resource: Some(hexciv::resource::ResourceType::Iron), ..tile },
    );
    let worker = world.unit_templates().get_by_name("Worker").unwrap().duplicate();
    spawn_unit(&mut world, &worker, 0, 7, 4, 5);
    let events = world.process_action(
        &GameActionType::Harvest { unit_id: UnitId(7) },
        PlayerId(1),
    );
    assert_eq!(events.len(), 3);
    assert!(world.map.tile(pos).harvested);
    let unit = world.unit(UnitId(7)).expect("worker survives with charges left");
    assert_eq!(unit.remaining_movement(), 0);
    assert_eq!(unit.charges(), Some((2, 3)));
}
