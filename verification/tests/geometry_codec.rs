//! Checks of the hex geometry, the economy arithmetic, and the byte
//! codec round trip.

use hexciv::actions::GameActionType;
use hexciv::city::{CityId, ProducingItemId};
use hexciv::civilization::CivilizationId;
use hexciv::codec::{decode_action, decode_event, encode_action, encode_event};
use hexciv::events::GameEventType;
use hexciv::map_position::TilePosition;
use hexciv::player::{InitPlayer, PlayerId};
use hexciv::tech::TechId;
use hexciv::unit::{AbilitySet, UnitId, UnitTemplate, UnitTemplateId, UnitType};
use hexciv::yields::{YieldValue, Yields};
use hexciv::session::{LobbyInfo, MapDressing, MessageToClient, MessageToServer};

#[test]
fn neighbors_of_even_and_odd_columns() {
    let even = TilePosition { x: 4, y: 4 };
    assert_eq!(even.top(), TilePosition { x: 4, y: 3 });
    assert_eq!(even.bottom(), TilePosition { x: 4, y: 5 });
    assert_eq!(even.top_left(), TilePosition { x: 3, y: 3 });
    assert_eq!(even.bottom_left(), TilePosition { x: 3, y: 4 });
    assert_eq!(even.top_right(), TilePosition { x: 5, y: 3 });
    assert_eq!(even.bottom_right(), TilePosition { x: 5, y: 4 });
    let odd = TilePosition { x: 5, y: 4 };
    assert_eq!(odd.top_left(), TilePosition { x: 4, y: 4 });
    assert_eq!(odd.bottom_left(), TilePosition { x: 4, y: 5 });
    assert_eq!(odd.top_right(), TilePosition { x: 6, y: 4 });
    assert_eq!(odd.bottom_right(), TilePosition { x: 6, y: 5 });
}

#[test]
fn range_query_is_monotone_and_minimal() {
    let p = TilePosition { x: 4, y: 4 };
    let one = p.neighbors_at_distance(10, 10, 1, true);
    let two = p.neighbors_at_distance(10, 10, 2, true);
    // Distance one: the tile itself and its six neighbors.
    assert_eq!(one.len(), 7);
    // Distance two (inclusive) is a superset of distance one.
    for (pos, d1) in &one.entries {
        let d2 = two.get(*pos).expect("one-step reach stays reachable");
        assert_eq!(*d1, d2);
    }
    // Each entry's distance is the minimum number of hex steps.
    for (pos, d) in &two.entries {
        assert_eq!(p.distance_to(*pos), *d as i32);
    }
    // The full two-ball of an interior tile has nineteen tiles.
    assert_eq!(two.len(), 19);
    // The exclusive query returns only the outer ring.
    let ring = p.neighbors_at_distance(10, 10, 2, false);
    assert_eq!(ring.len(), 12);
    for (pos, d) in &ring.entries {
        assert_eq!(*d, 2);
        assert_eq!(p.distance_to(*pos), 2);
    }
}

#[test]
fn range_query_respects_map_bounds() {
    let corner = TilePosition { x: 0, y: 0 };
    let one = corner.neighbors_at_distance(10, 10, 1, true);
    // The corner keeps only its bottom and bottom-right neighbors, plus
    // itself.
    assert_eq!(one.len(), 3);
}

#[test]
fn path_query_returns_a_genuine_route() {
    let map = hexciv::game_map::GameMap::new(10, 10);
    let start = TilePosition { x: 1, y: 1 };
    let goal = TilePosition { x: 7, y: 6 };
    let path = map.shortest_path(start, goal).expect("a route exists on an open map");
    assert_eq!(path[0], start);
    assert_eq!(path[path.len() - 1], goal);
    // Each step is one hex move, so the route length matches the range
    // query's distance.
    let reach = start.neighbors_at_distance(10, 10, 12, true);
    let d = reach.get(goal).expect("the goal is in range") as usize;
    assert_eq!(path.len(), d + 1);
    for w in path.windows(2) {
        assert_eq!(w[0].distance_to(w[1]), 1);
    }
    // The trivial route.
    let same = map.shortest_path(start, start).expect("a tile reaches itself");
    assert_eq!(same.len(), 1);
    // Off-map endpoints have no route.
    assert!(map.shortest_path(start, TilePosition { x: 42, y: 1 }).is_none());
}

#[test]
fn borders_of_one_tile_are_its_six_edges() {
    let tiles = vec![TilePosition { x: 4, y: 4 }];
    let borders = TilePosition::borders(&tiles);
    assert_eq!(borders.len(), 6);
    // Two adjacent tiles share one edge, leaving ten border edges.
    let tiles = vec![TilePosition { x: 4, y: 4 }, TilePosition { x: 4, y: 5 }];
    let borders = TilePosition::borders(&tiles);
    assert_eq!(borders.len(), 10);
}

#[test]
fn yield_arithmetic_is_fixed_point() {
    let a = YieldValue(15);
    let b = YieldValue(7);
    assert_eq!(a.add(b).0, 22);
    assert_eq!(a.sub(b).0, 8);
    assert_eq!(b.sub(a).0, 0);
    // One and a half times one point two is one point eight.
    assert_eq!(YieldValue(15).mul(YieldValue(12)).0, 18);
    // Twenty-five points at two points per turn takes thirteen turns.
    assert_eq!(YieldValue(250).div_to_get_turn_count(YieldValue(20)), 13);
    assert_eq!(YieldValue(250).div_to_get_turn_count(YieldValue(0)), u64::MAX);
    assert_eq!(YieldValue(15).round(), 2);
    assert_eq!(YieldValue(14).round(), 1);
    let y = Yields::zero().with_food(YieldValue(10)).with_production(YieldValue(20));
    assert_eq!(y.total().0, 30);
}

#[test]
fn action_codec_round_trip() {
    let samples = vec![
        GameActionType::MoveUnit { unit_id: UnitId(7), position: TilePosition { x: -3, y: 11 } },
        GameActionType::FoundCity { unit_id: UnitId(65535) },
        GameActionType::RenameCity { city_id: CityId(2), name: "Port Arthur".to_owned() },
        GameActionType::SetReady(true),
        GameActionType::SetProducing { city_id: CityId(3), producing: None },
        GameActionType::SetProducing {
            city_id: CityId(3),
            producing: Some(ProducingItemId::Building(hexciv::building::BuildingTypeId(2))),
        },
        GameActionType::SetProducing {
            city_id: CityId(9),
            producing: Some(ProducingItemId::Unit(UnitTemplate {
                id: UnitTemplateId(3),
                unit_type: UnitType::Soldier,
                name: "Warrior".to_owned(),
                movement: 2,
                abilities: AbilitySet { settle: false, harvest: false },
                production_cost: YieldValue(140),
                initial_charges: Some(5),
            })),
        },
        GameActionType::SetSleeping { unit_id: UnitId(4), sleeping: false },
        GameActionType::SetCitizenLocked {
            city_id: CityId(1),
            position: TilePosition { x: 5, y: 5 },
            locked: true,
        },
        GameActionType::Harvest { unit_id: UnitId(12) },
        GameActionType::SetResearch { tech_id: TechId(4) },
    ];
    for a in &samples {
        let bytes = encode_action(a);
        let (back, used) = decode_action(&bytes, 0).expect("an encoded action decodes");
        assert_eq!(used, bytes.len());
        let bytes2 = encode_action(&back);
        assert_eq!(bytes, bytes2);
    }
}

#[test]
fn event_codec_round_trip() {
    let samples = vec![
        GameEventType::NextTurn,
        GameEventType::MoveUnit {
            unit_id: UnitId(7),
            position: TilePosition { x: 0, y: 0 },
            remaining_movement: -1,
        },
        GameEventType::DeleteUnit { unit_id: UnitId(1) },
        GameEventType::FoundCity {
            position: TilePosition { x: 3, y: 9 },
            owner: CivilizationId(0),
        },
        GameEventType::RenameCity { city_id: CityId(1), name: "Ostia".to_owned() },
        GameEventType::SetPlayerReady { player_id: PlayerId(2), ready: true },
        GameEventType::SetProducing { city_id: CityId(1), producing: None },
        GameEventType::NewUnit {
            template: UnitTemplate {
                id: UnitTemplateId(1),
                unit_type: UnitType::Civilian,
                name: "Settler".to_owned(),
                movement: 2,
                abilities: AbilitySet { settle: true, harvest: false },
                production_cost: YieldValue(200),
                initial_charges: None,
            },
            owner: CivilizationId(1),
            position: TilePosition { x: 2, y: 2 },
            unit_id: UnitId(30),
        },
        GameEventType::NewBuilding {
            building_type_id: hexciv::building::BuildingTypeId(1),
            city_id: CityId(1),
        },
        GameEventType::Crash { message: "no tile can host the unit".to_owned() },
        GameEventType::SetSleeping { unit_id: UnitId(3), sleeping: true },
        GameEventType::SetCitizenLocked {
            city_id: CityId(1),
            position: TilePosition { x: 4, y: 4 },
            locked: false,
        },
        GameEventType::IncreasePopulationFromFood { city_id: CityId(1) },
        GameEventType::AddTerritoryToCity {
            city_id: CityId(1),
            position: TilePosition { x: 6, y: 4 },
        },
        GameEventType::Harvest { position: TilePosition { x: 1, y: 1 } },
        GameEventType::DepleteMovement { unit_id: UnitId(9) },
        GameEventType::UseCharge { unit_id: UnitId(9) },
        GameEventType::FinishResearch { civilization_id: CivilizationId(1) },
        GameEventType::SetResearch { civilization_id: CivilizationId(0), tech_id: TechId(2) },
    ];
    for e in &samples {
        let bytes = encode_event(e);
        let (back, used) = decode_event(&bytes, 0).expect("an encoded event decodes");
        assert_eq!(used, bytes.len());
        let bytes2 = encode_event(&back);
        assert_eq!(bytes, bytes2);
    }
}

#[test]
fn session_envelope_round_trip() {
    let samples = vec![
        MessageToServer::Hello { name: "Ada".to_owned() },
        MessageToServer::Start,
        MessageToServer::Action(GameActionType::SetReady(true)),
        MessageToServer::Action(GameActionType::MoveUnit {
            unit_id: UnitId(3),
            position: TilePosition { x: 2, y: 7 },
        }),
        MessageToServer::Quit,
    ];
    for m in &samples {
        let bytes = hexciv::codec::encode_msg_to_server(m);
        let (back, used) =
            hexciv::codec::decode_msg_to_server(&bytes, 0).expect("an encoded message decodes");
        assert_eq!(used, bytes.len());
        let bytes2 = hexciv::codec::encode_msg_to_server(&back);
        assert_eq!(bytes, bytes2);
    }
    let garbage: Vec<u8> = vec![9, 9, 9];
    assert!(hexciv::codec::decode_msg_to_server(&garbage, 0).is_none());
}

#[test]
fn server_envelope_round_trip() {
    let dressing = MapDressing {
        tile_codes: vec![0, 1, 2, 3, 0, 0],
        resources: vec![(4, 1), (5, 7)],
        vegetation: vec![(2, 0)],
        rivers: vec![(1, 2, 3), (0, 0, 0)],
    };
    let samples = vec![
        MessageToClient::LobbyInfo(LobbyInfo {
            players: vec![("Ada".to_owned(), PlayerId(1)), ("Grace".to_owned(), PlayerId(2))],
            you: PlayerId(2),
            host: PlayerId(1),
        }),
        MessageToClient::InitializeWorld {
            width: 3,
            height: 2,
            players: vec![("Ada".to_owned(), PlayerId(1))],
            dressing,
            player_id: PlayerId(1),
        },
        MessageToClient::Event(GameEventType::NextTurn),
        MessageToClient::Kick,
    ];
    for m in &samples {
        let bytes = hexciv::codec::encode_msg_to_client(m);
        let (back, used) =
            hexciv::codec::decode_msg_to_client(&bytes, 0).expect("an encoded message decodes");
        assert_eq!(used, bytes.len());
        let bytes2 = hexciv::codec::encode_msg_to_client(&back);
        assert_eq!(bytes, bytes2);
    }
    // The dressing lists survive the trip field by field.
    let bytes = hexciv::codec::encode_msg_to_client(&samples[1]);
    match hexciv::codec::decode_msg_to_client(&bytes, 0).expect("decodes").0 {
        MessageToClient::InitializeWorld { width, height, players, dressing, player_id } => {
            assert_eq!((width, height), (3, 2));
            assert_eq!(players, vec![("Ada".to_owned(), PlayerId(1))]);
            assert_eq!(dressing.tile_codes, vec![0, 1, 2, 3, 0, 0]);
            assert_eq!(dressing.resources, vec![(4, 1), (5, 7)]);
            assert_eq!(dressing.vegetation, vec![(2, 0)]);
            assert_eq!(dressing.rivers, vec![(1, 2, 3), (0, 0, 0)]);
            assert_eq!(player_id, PlayerId(1));
        }
        other => panic!("wrong variant decoded: {:?}", other),
    }
    assert!(hexciv::codec::decode_msg_to_client(&vec![9u8, 9, 9], 0).is_none());
}

#[test]
fn codec_rejects_garbage() {
    let garbage: Vec<u8> = vec![250, 1, 2];
    assert!(decode_action(&garbage, 0).is_none());
    assert!(decode_event(&garbage, 0).is_none());
    let empty: Vec<u8> = Vec::new();
    assert!(decode_action(&empty, 0).is_none());
}

#[test]
fn end_to_end_two_clients_stay_in_sync() {
    let players = vec![
        InitPlayer { id: PlayerId(1), name: "Ada".to_owned() },
        InitPlayer { id: PlayerId(2), name: "Grace".to_owned() },
    ];
    // The server generates the world; each client builds the same world
    // from the same construction data, which is the snapshot they receive.
    let mut server = hexciv::game_world::GameWorld::new(8, 8, &players);
    server.start();
    let mut client_a = hexciv::game_world::GameWorld::new(8, 8, &players);
    client_a.start();
    let mut client_b = hexciv::game_world::GameWorld::new(8, 8, &players);
    client_b.start();
    assert_eq!(client_a.turn(), 1);
    assert_eq!(client_b.turn(), 1);
    // The server mints a warrior and broadcasts the event.
    let warrior = server.unit_templates().get_by_name("Warrior").unwrap().duplicate();
    let spawn = GameEventType::NewUnit {
        template: warrior,
        owner: CivilizationId(0),
        position: TilePosition { x: 3, y: 3 },
        unit_id: UnitId(1),
    };
    server.apply_event(&spawn);
    client_a.apply_event(&spawn.duplicate());
    client_b.apply_event(&spawn.duplicate());
    // Player one moves the unit within range; the server validates and
    // broadcasts; both clients apply the same events through the codec.
    let action = GameActionType::MoveUnit {
        unit_id: UnitId(1),
        position: TilePosition { x: 3, y: 5 },
    };
    let events = server.process_action(&action, PlayerId(1));
    assert_eq!(events.len(), 1);
    for e in &events {
        let bytes = encode_event(e);
        let (wire_event, _) = decode_event(&bytes, 0).expect("wire event decodes");
        client_a.apply_event(&wire_event);
        let (wire_event, _) = decode_event(&bytes, 0).expect("wire event decodes");
        client_b.apply_event(&wire_event);
    }
    for world in [&server, &client_a, &client_b] {
        let unit = world.unit(UnitId(1)).expect("unit exists everywhere");
        assert_eq!(unit.position(), TilePosition { x: 3, y: 5 });
        // The unit walked two hex steps out of its two movement points.
        assert_eq!(unit.remaining_movement(), 0);
    }
}
