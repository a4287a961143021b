use tonk_core::errors::JobError;
use tonk_core::feed::{update_locations_player, Data, Game as Game2, Node, State, Tile};
use tonk_core::proximity::{calculate_distance, proximity_run};
use tonk_core::types::{ActionStatus, Building, Game, GameStatus, Location, Player, Role, Time, WinResult};
use tonk_core::world::World;

fn hex(v: i32) -> String {
    format!("0x{:04x}", (v as i16) as u16)
}

fn loc(q: i32, r: i32, s: i32) -> Location {
    Location("0x0000".to_string(), hex(q), hex(r), hex(s))
}

fn player(id: &str, role: Option<Role>, unit: Option<&str>) -> Player {
    Player {
        id: id.to_string(),
        mobile_unit_id: unit.map(|u| u.to_string()),
        display_name: Some(format!("Name of {}", id)),
        secret_key: None,
        role,
        used_action: ActionStatus::Unused,
        last_round_action: None,
        eliminated: false,
    }
}

fn building_at(id: &str, is_tower: bool, q: i32, r: i32, s: i32) -> Building {
    Building {
        id: id.to_string(),
        readable_id: format!("b-{}", id),
        location: loc(q, r, s),
        task_message: format!("task at {}", id),
        is_tower,
    }
}

fn node(unit: &str, q: i32, r: i32, s: i32) -> Node {
    Node {
        id: unit.to_string(),
        player: tonk_core::feed::Player { id: format!("p-{}", unit), addr: "0x0".to_string() },
        location: tonk_core::feed::Location {
            id: format!("edge-{}", unit),
            tile: Tile {
                id: format!("tile-{}", unit),
                coords: vec!["0x0000".to_string(), hex(q), hex(r), hex(s)],
            },
        },
    }
}

#[test]
fn snapshots_reflect_distances_and_redaction() {
    // a saboteur at the origin, a crew member two tiles away, another crew
    // member far away; the tower three tiles out, a depot adjacent
    let players = vec![
        player("s", Some(Role::Bugged), None),
        player("c1", Some(Role::Normal), None),
        player("c2", Some(Role::Normal), None),
    ];
    let locations = vec![loc(0, 0, 0), loc(2, -2, 0), loc(8, -8, 0)];
    let buildings = vec![
        building_at("tower", true, 3, -3, 0),
        building_at("d1", false, 1, -1, 0),
    ];
    let out = calculate_distance(&players, &locations, &buildings).unwrap();
    assert_eq!(out.len(), 3);

    // the saboteur: depot adjacent, tower three away so immune, one neighbor
    let s = &out[0];
    assert_eq!(s.player_id, "s");
    assert_eq!(s.proximity.location.q, 0);
    assert!(s.proximity.immune);
    assert_eq!(s.proximity.nearby_buildings.len(), 1);
    assert_eq!(s.proximity.nearby_buildings[0].id, "d1");
    // the task message is stripped from the snapshot
    assert_eq!(s.proximity.nearby_buildings[0].task_message, "");
    assert_eq!(s.proximity.nearby_players.len(), 1);
    assert_eq!(s.proximity.nearby_players[0].id, "c1");
    // a saboteur viewing a crew neighbor sees no role
    assert_eq!(s.proximity.nearby_players[0].role, None);
    // the neighbor's own immunity is carried: c1 is two from the tower
    assert!(s.proximity.nearby_players[0].immune);

    // c1: near the tower (distance 1 < 4), sees the saboteur without a role
    let c1 = &out[1];
    assert!(c1.proximity.immune);
    assert_eq!(c1.proximity.nearby_players.len(), 1);
    assert_eq!(c1.proximity.nearby_players[0].id, "s");
    assert_eq!(c1.proximity.nearby_players[0].role, None);

    // c2: alone, far from everything
    let c2 = &out[2];
    assert!(!c2.proximity.immune);
    assert_eq!(c2.proximity.nearby_players.len(), 0);
    assert_eq!(c2.proximity.nearby_buildings.len(), 0);
}

#[test]
fn saboteurs_recognize_each_other() {
    let players = vec![
        player("s1", Some(Role::Bugged), None),
        player("s2", Some(Role::Bugged), None),
    ];
    let locations = vec![loc(0, 0, 0), loc(1, -1, 0)];
    let buildings = vec![];
    let out = calculate_distance(&players, &locations, &buildings).unwrap();
    assert_eq!(out[0].proximity.nearby_players[0].role, Some(Role::Bugged));
    assert_eq!(out[1].proximity.nearby_players[0].role, Some(Role::Bugged));
}

#[test]
fn unreadable_location_is_fatal_for_the_tick() {
    let players = vec![player("a", Some(Role::Normal), None)];
    let locations = vec![Location(
        "0x0000".to_string(),
        "garbage".to_string(),
        "0x0000".to_string(),
        "0x0000".to_string(),
    )];
    assert!(matches!(calculate_distance(&players, &locations, &vec![]), Err(JobError::Unknown)));
}

#[test]
fn unreadable_building_location_is_fatal_too() {
    let players = vec![player("a", Some(Role::Normal), None)];
    let locations = vec![loc(0, 0, 0)];
    let mut tower = building_at("tower", true, 0, 0, 0);
    tower.location = Location(
        "0x0000".to_string(),
        "".to_string(),
        "0x0000".to_string(),
        "0x0000".to_string(),
    );
    assert!(matches!(
        calculate_distance(&players, &locations, &vec![tower]),
        Err(JobError::Unknown)
    ));
}

#[test]
fn feed_locations_match_by_mobile_unit() {
    let data = Data {
        game: Game2 {
            id: "DOWNSTREAM".to_string(),
            state: State { nodes: vec![node("u1", 1, -1, 0), node("u2", 2, 0, -2)] },
        },
    };
    let players = vec![
        player("a", None, Some("u2")),
        player("b", None, Some("u1")),
    ];
    let locs = update_locations_player(&data, &players).unwrap();
    assert_eq!(locs.len(), 2);
    assert_eq!(locs[0].1, hex(2));
    assert_eq!(locs[1].1, hex(1));
    assert_eq!(locs[1].2, hex(-1));
}

#[test]
fn feed_missing_unit_is_fatal() {
    let data = Data {
        game: Game2 {
            id: "DOWNSTREAM".to_string(),
            state: State { nodes: vec![node("u1", 1, -1, 0)] },
        },
    };
    let players = vec![player("a", None, Some("zz"))];
    assert!(matches!(update_locations_player(&data, &players), Err(JobError::Unknown)));
    let unlinked = vec![player("a", None, None)];
    assert!(matches!(update_locations_player(&data, &unlinked), Err(JobError::Unknown)));
}

#[test]
fn feed_short_coordinates_are_fatal() {
    let mut n = node("u1", 1, -1, 0);
    n.location.tile.coords.truncate(2);
    let data = Data {
        game: Game2 { id: "DOWNSTREAM".to_string(), state: State { nodes: vec![n] } },
    };
    let players = vec![player("a", None, Some("u1"))];
    assert!(matches!(update_locations_player(&data, &players), Err(JobError::Unknown)));
}

#[test]
fn proximity_job_rewrites_snapshots() {
    let mut w = World {
        game: Game {
            id: "game".to_string(),
            status: GameStatus::Tasks,
            time: Time { round: 0, timer: 60 },
            win_result: WinResult::Null,
            corrupted_players: vec![],
            demo_play: false,
        },
        players: vec![player("a", Some(Role::Normal), Some("u1")), player("b", Some(Role::Normal), Some("u2"))],
        roster: vec!["a".to_string(), "b".to_string()],
        buildings: vec![building_at("tower", true, 0, 0, 0)],
        proximities: vec![],
        tasks: vec![],
        actions: vec![],
        votes: vec![],
        results: vec![],
    };
    let data = Data {
        game: Game2 {
            id: "DOWNSTREAM".to_string(),
            state: State { nodes: vec![node("u1", 1, -1, 0), node("u2", 9, -9, 0)] },
        },
    };
    assert_eq!(proximity_run(&mut w, &data), Ok(()));
    assert_eq!(w.proximities.len(), 2);
    assert_eq!(w.proximities[0].player_id, "a");
    assert!(w.proximities[0].proximity.immune);
    assert_eq!(w.proximities[0].proximity.location.q, 1);
    assert!(!w.proximities[1].proximity.immune);
    // an ended game is left alone
    w.game.status = GameStatus::End;
    w.proximities.clear();
    assert_eq!(proximity_run(&mut w, &data), Ok(()));
    assert_eq!(w.proximities.len(), 0);
    // a unit missing from the feed is fatal and writes nothing
    w.game.status = GameStatus::Tasks;
    let short = Data {
        game: Game2 {
            id: "DOWNSTREAM".to_string(),
            state: State { nodes: vec![node("u1", 1, -1, 0)] },
        },
    };
    assert!(matches!(proximity_run(&mut w, &short), Err(JobError::Unknown)));
    assert_eq!(w.proximities.len(), 0);
}
