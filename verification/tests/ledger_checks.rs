use tonk_core::errors::GameError;
use tonk_core::geometry::Cube;
use tonk_core::ledger::{get_task, post_action, post_task, post_vote};
use tonk_core::types::{
    ActionStatus, Building, Game, GameStatus, Location, NearbyPlayer, Player, PlayerProximity,
    Role, Task, Time, WinResult,
};
use tonk_core::world::{ProximityRecord, World};

fn player(id: &str, role: Option<Role>) -> Player {
    Player {
        id: id.to_string(),
        mobile_unit_id: Some(format!("unit-{}", id)),
        display_name: Some(format!("Name of {}", id)),
        secret_key: None,
        role,
        used_action: ActionStatus::Unused,
        last_round_action: None,
        eliminated: false,
    }
}

fn building(id: &str, is_tower: bool) -> Building {
    Building {
        id: id.to_string(),
        readable_id: format!("b-{}", id),
        location: Location(
            "0x0000".to_string(),
            "0x0000".to_string(),
            "0x0000".to_string(),
            "0x0000".to_string(),
        ),
        task_message: format!("go to {}", id),
        is_tower,
    }
}

fn game(status: GameStatus, round: u32, timer: u32) -> Game {
    Game {
        id: "game".to_string(),
        status,
        time: Time { round, timer },
        win_result: WinResult::Null,
        corrupted_players: vec![],
        demo_play: false,
    }
}

fn world(status: GameStatus, round: u32, timer: u32) -> World {
    World {
        game: game(status, round, timer),
        players: vec![],
        roster: vec![],
        buildings: vec![],
        proximities: vec![],
        tasks: vec![],
        actions: vec![],
        votes: vec![],
        results: vec![],
    }
}

fn task_for(id: &str, round: u32, complete: bool) -> Task {
    Task {
        assignee: Some(id.to_string()),
        destination: Some(building("depot1", false)),
        round,
        dropped_off: false,
        complete,
    }
}

fn snapshot(
    id: &str,
    nearby_players: Vec<NearbyPlayer>,
    nearby_buildings: Vec<Building>,
) -> ProximityRecord {
    ProximityRecord {
        player_id: id.to_string(),
        proximity: PlayerProximity {
            nearby_players,
            nearby_buildings,
            immune: false,
            location: Cube { q: 0, r: 0, s: 0 },
        },
    }
}

fn nearby(id: &str, role: Option<Role>, immune: bool) -> NearbyPlayer {
    NearbyPlayer { id: id.to_string(), display_name: None, role, immune }
}

#[test]
fn vote_happy_path_stamps_display_name() {
    let mut w = world(GameStatus::Vote, 1, 30);
    w.players = vec![player("a", Some(Role::Normal)), player("b", Some(Role::Bugged))];
    w.roster = vec!["a".to_string(), "b".to_string()];
    assert_eq!(post_vote(&mut w, 1, &"a".to_string(), &"b".to_string()), Ok(()));
    assert_eq!(w.votes.len(), 1);
    assert_eq!(w.votes[0].voter, "a");
    assert_eq!(w.votes[0].candidate, "b");
    assert_eq!(w.votes[0].candidate_name, Some("Name of b".to_string()));
    assert_eq!(w.players[0].used_action, ActionStatus::Voted);
    assert_eq!(w.players[0].last_round_action, Some(1));
}

#[test]
fn vote_rejections() {
    let mut w = world(GameStatus::Tasks, 1, 30);
    w.players = vec![player("a", Some(Role::Normal)), player("b", Some(Role::Bugged))];
    w.roster = vec!["a".to_string(), "b".to_string()];
    // wrong phase
    assert_eq!(
        post_vote(&mut w, 1, &"a".to_string(), &"b".to_string()),
        Err(GameError::PhaseViolation)
    );
    w.game.status = GameStatus::Vote;
    // wrong round
    assert_eq!(
        post_vote(&mut w, 2, &"a".to_string(), &"b".to_string()),
        Err(GameError::PhaseViolation)
    );
    // voter not on the roster
    assert_eq!(
        post_vote(&mut w, 1, &"z".to_string(), &"b".to_string()),
        Err(GameError::NotEligible)
    );
    // candidate not registered
    assert_eq!(
        post_vote(&mut w, 1, &"a".to_string(), &"z".to_string()),
        Err(GameError::NotFound)
    );
    // duplicate
    assert_eq!(post_vote(&mut w, 1, &"a".to_string(), &"b".to_string()), Ok(()));
    assert_eq!(
        post_vote(&mut w, 1, &"a".to_string(), &"b".to_string()),
        Err(GameError::DuplicateSubmission)
    );
    assert_eq!(w.votes.len(), 1);
}

#[test]
fn get_task_assigns_a_depot_once() {
    let mut w = world(GameStatus::Tasks, 0, 60);
    w.players = vec![player("a", Some(Role::Normal))];
    w.roster = vec!["a".to_string()];
    w.buildings = vec![
        building("tower", true),
        building("d1", false),
        building("d2", false),
        building("d3", false),
    ];
    let t = get_task(&mut w, &"a".to_string()).unwrap();
    assert_eq!(t.assignee, Some("a".to_string()));
    assert_eq!(t.round, 0);
    assert!(!t.dropped_off);
    assert!(!t.complete);
    let dest = t.destination.clone().unwrap();
    assert!(!dest.is_tower);
    assert!(dest.id == "d1" || dest.id == "d2" || dest.id == "d3");
    assert_eq!(w.tasks.len(), 1);
    // a second read returns the stored task, creating nothing new
    let t2 = get_task(&mut w, &"a".to_string()).unwrap();
    assert_eq!(t2.destination.unwrap().id, dest.id);
    assert_eq!(w.tasks.len(), 1);
}

#[test]
fn get_task_hands_saboteurs_a_stub() {
    let mut w = world(GameStatus::Tasks, 0, 60);
    w.players = vec![player("s", Some(Role::Bugged))];
    w.roster = vec!["s".to_string()];
    w.buildings = vec![building("tower", true), building("d1", false)];
    let t = get_task(&mut w, &"s".to_string()).unwrap();
    let dest = t.destination.unwrap();
    assert_eq!(dest.id, "");
    assert_eq!(dest.task_message, "You have been corrupted and seek to attack others.");
    assert_eq!(w.tasks.len(), 0);
}

#[test]
fn get_task_rejections() {
    let mut w = world(GameStatus::Vote, 0, 60);
    w.players = vec![player("a", Some(Role::Normal))];
    w.roster = vec!["a".to_string()];
    assert!(matches!(get_task(&mut w, &"a".to_string()), Err(GameError::PhaseViolation)));
    w.game.status = GameStatus::Tasks;
    assert!(matches!(get_task(&mut w, &"z".to_string()), Err(GameError::NotEligible)));
    // no depot registered
    w.buildings = vec![building("tower", true)];
    assert!(matches!(get_task(&mut w, &"a".to_string()), Err(GameError::NotFound)));
}

#[test]
fn task_drop_off_then_complete() {
    let mut w = world(GameStatus::Tasks, 0, 60);
    w.players = vec![player("a", Some(Role::Normal))];
    w.roster = vec!["a".to_string()];
    w.tasks = vec![task_for("a", 0, false)];
    // near the assigned depot
    w.proximities = vec![snapshot("a", vec![], vec![building("depot1", false)])];
    let t = post_task(&mut w, 0, &"a".to_string()).unwrap();
    assert!(t.dropped_off);
    assert!(!t.complete);
    assert_eq!(w.players[0].used_action, ActionStatus::Unused);
    // now near the tower
    w.proximities = vec![snapshot("a", vec![], vec![building("tower", true)])];
    let t2 = post_task(&mut w, 0, &"a".to_string()).unwrap();
    assert!(t2.complete);
    assert_eq!(w.players[0].used_action, ActionStatus::TaskComplete);
    assert_eq!(w.players[0].last_round_action, Some(0));
    // resubmission of a complete task is rejected
    assert!(matches!(
        post_task(&mut w, 0, &"a".to_string()),
        Err(GameError::DuplicateSubmission)
    ));
}

#[test]
fn task_complete_without_drop_off_at_tower() {
    let mut w = world(GameStatus::Tasks, 0, 60);
    w.players = vec![player("a", Some(Role::Normal))];
    w.roster = vec!["a".to_string()];
    w.tasks = vec![task_for("a", 0, false)];
    w.proximities = vec![snapshot("a", vec![], vec![building("tower", true)])];
    let t = post_task(&mut w, 0, &"a".to_string()).unwrap();
    assert!(t.complete);
    assert!(!t.dropped_off);
}

#[test]
fn task_out_of_range_and_missing() {
    let mut w = world(GameStatus::Tasks, 0, 60);
    w.players = vec![player("a", Some(Role::Normal))];
    w.roster = vec!["a".to_string()];
    w.tasks = vec![task_for("a", 0, false)];
    // near an unrelated depot only
    w.proximities = vec![snapshot("a", vec![], vec![building("other", false)])];
    assert!(matches!(post_task(&mut w, 0, &"a".to_string()), Err(GameError::OutOfRange)));
    // no task record at all
    w.tasks = vec![];
    assert!(matches!(post_task(&mut w, 0, &"a".to_string()), Err(GameError::NotFound)));
    // wrong phase
    w.game.status = GameStatus::Vote;
    assert!(matches!(post_task(&mut w, 0, &"a".to_string()), Err(GameError::PhaseViolation)));
}

#[test]
fn sabotage_rejected_while_target_immune_then_accepted() {
    let mut w = world(GameStatus::Tasks, 0, 60);
    w.players = vec![player("s", Some(Role::Bugged)), player("a", Some(Role::Normal))];
    w.roster = vec!["s".to_string(), "a".to_string()];
    w.tasks = vec![task_for("a", 0, false)];
    // the target stands near the tower: immune
    w.proximities = vec![snapshot("s", vec![nearby("a", None, true)], vec![])];
    assert_eq!(
        post_action(&mut w, 0, &"s".to_string(), &"a".to_string(), false),
        Err(GameError::NotEligible)
    );
    assert_eq!(w.actions.len(), 0);
    // the next tick shows the target no longer immune: the same request passes
    w.proximities = vec![snapshot("s", vec![nearby("a", None, false)], vec![])];
    assert_eq!(post_action(&mut w, 0, &"s".to_string(), &"a".to_string(), false), Ok(()));
    assert_eq!(w.actions.len(), 1);
    assert_eq!(w.actions[0].actor, "s");
    assert_eq!(w.actions[0].poison_target, "a");
    assert!(w.actions[0].interrupted_task);
    assert!(!w.actions[0].confirmed);
    assert_eq!(w.players[0].used_action, ActionStatus::ReturnToTower);
}

#[test]
fn sabotage_of_complete_task_does_not_interrupt() {
    let mut w = world(GameStatus::Tasks, 0, 60);
    w.players = vec![player("s", Some(Role::Bugged)), player("a", Some(Role::Normal))];
    w.roster = vec!["s".to_string(), "a".to_string()];
    w.tasks = vec![task_for("a", 0, true)];
    w.proximities = vec![snapshot("s", vec![nearby("a", None, false)], vec![])];
    assert_eq!(post_action(&mut w, 0, &"s".to_string(), &"a".to_string(), false), Ok(()));
    assert!(!w.actions[0].interrupted_task);
}

#[test]
fn sabotage_rejections() {
    let mut w = world(GameStatus::Tasks, 0, 60);
    w.players = vec![
        player("s", Some(Role::Bugged)),
        player("a", Some(Role::Normal)),
        player("t", Some(Role::Bugged)),
    ];
    w.roster = vec!["s".to_string(), "a".to_string(), "t".to_string()];
    w.tasks = vec![task_for("a", 0, false)];
    w.proximities = vec![snapshot(
        "s",
        vec![nearby("t", Some(Role::Bugged), false), nearby("a", None, false)],
        vec![],
    )];
    // wrong round
    assert_eq!(
        post_action(&mut w, 1, &"s".to_string(), &"a".to_string(), false),
        Err(GameError::PhaseViolation)
    );
    // crew cannot sabotage
    assert_eq!(
        post_action(&mut w, 0, &"a".to_string(), &"t".to_string(), false),
        Err(GameError::NotEligible)
    );
    // a fellow saboteur is no valid target
    assert_eq!(
        post_action(&mut w, 0, &"s".to_string(), &"t".to_string(), false),
        Err(GameError::NotEligible)
    );
    // a target out of range
    assert_eq!(
        post_action(&mut w, 0, &"s".to_string(), &"zz".to_string(), false),
        Err(GameError::OutOfRange)
    );
    // confirming before declaring
    assert_eq!(
        post_action(&mut w, 0, &"s".to_string(), &"a".to_string(), true),
        Err(GameError::NotFound)
    );
}

#[test]
fn sabotage_confirmation_at_tower() {
    let mut w = world(GameStatus::Tasks, 0, 60);
    w.players = vec![player("s", Some(Role::Bugged)), player("a", Some(Role::Normal))];
    w.roster = vec!["s".to_string(), "a".to_string()];
    w.tasks = vec![task_for("a", 0, false)];
    w.proximities = vec![snapshot("s", vec![nearby("a", None, false)], vec![])];
    assert_eq!(post_action(&mut w, 0, &"s".to_string(), &"a".to_string(), false), Ok(()));
    // away from the tower, confirming changes nothing and still succeeds
    assert_eq!(post_action(&mut w, 0, &"s".to_string(), &"a".to_string(), true), Ok(()));
    assert!(!w.actions[0].confirmed);
    // near the tower the sabotage is confirmed
    w.proximities = vec![snapshot("s", vec![], vec![building("tower", true)])];
    assert_eq!(post_action(&mut w, 0, &"s".to_string(), &"a".to_string(), true), Ok(()));
    assert!(w.actions[0].confirmed);
    assert_eq!(w.players[0].used_action, ActionStatus::TaskComplete);
    // and a confirmed sabotage rejects any further submission
    assert_eq!(
        post_action(&mut w, 0, &"s".to_string(), &"a".to_string(), true),
        Err(GameError::DuplicateSubmission)
    );
    assert_eq!(w.actions.len(), 1);
}
