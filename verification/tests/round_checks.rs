use tonk_core::controller::{
    check_all_tasks_in, check_all_votes_in, clock_run, create_game, mock_run, post_game,
    reset_round, update_logic, ClockTestInjection,
};
use tonk_core::errors::GameError;
use tonk_core::geometry::Cube;
use tonk_core::resolver::{check_end_game_condition, set_task_result, set_vote_result};
use tonk_core::types::{
    Action, ActionStatus, Building, Elimination, EliminationReason, Game, GameStatus, Location,
    Player, PlayerProximity, Role, RoundResult, Task, Time, Vote, WinResult,
};
use tonk_core::world::{get_result, ProximityRecord, World};

fn player(id: &str, role: Option<Role>, marker: ActionStatus) -> Player {
    Player {
        id: id.to_string(),
        mobile_unit_id: None,
        display_name: Some(format!("Name of {}", id)),
        secret_key: None,
        role,
        used_action: marker,
        last_round_action: None,
        eliminated: false,
    }
}

fn building(id: &str, is_tower: bool) -> Building {
    Building {
        id: id.to_string(),
        readable_id: format!("b-{}", id),
        location: Location(
            "0x0000".to_string(),
            "0x0000".to_string(),
            "0x0000".to_string(),
            "0x0000".to_string(),
        ),
        task_message: format!("go to {}", id),
        is_tower,
    }
}

fn world(status: GameStatus, round: u32, timer: u32, demo: bool) -> World {
    World {
        game: Game {
            id: "game".to_string(),
            status,
            time: Time { round, timer },
            win_result: WinResult::Null,
            corrupted_players: vec![],
            demo_play: demo,
        },
        players: vec![],
        roster: vec![],
        buildings: vec![],
        proximities: vec![],
        tasks: vec![],
        actions: vec![],
        votes: vec![],
        results: vec![],
    }
}

fn complete_task(id: &str, round: u32) -> Task {
    Task {
        assignee: Some(id.to_string()),
        destination: Some(building("depot1", false)),
        round,
        dropped_off: true,
        complete: true,
    }
}

fn vote(voter: &str, candidate: &str, round: u32) -> Vote {
    Vote {
        voter: voter.to_string(),
        round,
        candidate: candidate.to_string(),
        candidate_name: Some(format!("Name of {}", candidate)),
    }
}

fn elimination(p: &Player, reason: EliminationReason) -> Elimination {
    Elimination {
        player: Player {
            id: p.id.clone(),
            mobile_unit_id: p.mobile_unit_id.clone(),
            display_name: p.display_name.clone(),
            secret_key: None,
            role: p.role,
            used_action: p.used_action,
            last_round_action: p.last_round_action,
            eliminated: p.eliminated,
        },
        reason,
    }
}

/// Five players, one saboteur; all four crew complete their tasks, the
/// saboteur interrupts one of them. Three tasks count, the victim falls to
/// the sabotage, and nobody wins yet.
#[test]
fn sabotage_excludes_task_and_eliminates_victim() {
    let mut w = world(GameStatus::Tasks, 0, 0, false);
    w.players = vec![
        player("c1", Some(Role::Normal), ActionStatus::TaskComplete),
        player("c2", Some(Role::Normal), ActionStatus::TaskComplete),
        player("c3", Some(Role::Normal), ActionStatus::TaskComplete),
        player("c4", Some(Role::Normal), ActionStatus::TaskComplete),
        player("s1", Some(Role::Bugged), ActionStatus::TaskComplete),
    ];
    w.roster = vec![
        "c1".to_string(),
        "c2".to_string(),
        "c3".to_string(),
        "c4".to_string(),
        "s1".to_string(),
    ];
    w.tasks = vec![
        complete_task("c1", 0),
        complete_task("c2", 0),
        complete_task("c3", 0),
        complete_task("c4", 0),
    ];
    w.actions = vec![Action {
        actor: "s1".to_string(),
        poison_target: "c1".to_string(),
        interrupted_task: true,
        confirmed: true,
        round: 0,
    }];
    set_task_result(&mut w);
    let rr = get_result(&w).unwrap();
    assert_eq!(rr.round_type, GameStatus::Tasks);
    assert_eq!(rr.tasks_completed.len(), 3);
    assert_eq!(rr.eliminated.len(), 1);
    assert_eq!(rr.eliminated[0].player.id, "c1");
    assert_eq!(rr.eliminated[0].reason, EliminationReason::BuggedOut);
    // the published tasks carry neither assignee nor destination
    assert!(rr.tasks_completed.iter().all(|t| t.assignee.is_none() && t.destination.is_none()));
    // one saboteur among four remaining players: the game goes on
    let win = check_end_game_condition(&mut w).unwrap();
    assert_eq!(win, WinResult::Null);
}

/// Four remaining players with two saboteurs: half the remaining set, so the
/// saboteurs win.
#[test]
fn saboteur_majority_at_half() {
    let mut w = world(GameStatus::VoteResult, 2, 0, false);
    w.players = vec![
        player("c1", Some(Role::Normal), ActionStatus::Voted),
        player("c2", Some(Role::Normal), ActionStatus::Voted),
        player("s1", Some(Role::Bugged), ActionStatus::Voted),
        player("s2", Some(Role::Bugged), ActionStatus::Voted),
    ];
    w.roster = vec![
        "c1".to_string(),
        "c2".to_string(),
        "s1".to_string(),
        "s2".to_string(),
    ];
    w.results = vec![RoundResult {
        round_type: GameStatus::Vote,
        round: 2,
        eliminated: vec![],
        tasks_completed: vec![],
    }];
    let win = check_end_game_condition(&mut w).unwrap();
    assert_eq!(win, WinResult::Thuggery);
}

/// All saboteurs eliminated in a vote round while crew remain: the crew win,
/// and the next controller tick moves straight to the end, not back to tasks.
#[test]
fn all_saboteurs_removed_ends_the_game() {
    let mut w = world(GameStatus::VoteResult, 1, 0, false);
    let s1 = player("s1", Some(Role::Bugged), ActionStatus::Voted);
    let s2 = player("s2", Some(Role::Bugged), ActionStatus::Voted);
    w.players = vec![
        player("c1", Some(Role::Normal), ActionStatus::Voted),
        player("c2", Some(Role::Normal), ActionStatus::Voted),
        s1.clone(),
        s2.clone(),
    ];
    w.roster = vec![
        "c1".to_string(),
        "c2".to_string(),
        "s1".to_string(),
        "s2".to_string(),
    ];
    w.results = vec![RoundResult {
        round_type: GameStatus::Vote,
        round: 1,
        eliminated: vec![
            elimination(&s1, EliminationReason::VotedOut),
            elimination(&s2, EliminationReason::Inaction),
        ],
        tasks_completed: vec![],
    }];
    assert_eq!(update_logic(&mut w), Ok(()));
    assert_eq!(w.game.status, GameStatus::End);
    assert_eq!(w.game.win_result, WinResult::Democracy);
    assert_eq!(w.game.time.timer, 30);
    // the eliminated saboteurs left the roster
    assert_eq!(w.roster, vec!["c1".to_string(), "c2".to_string()]);
}

/// With relaxed rules set, a player who failed to act is spared; with them
/// unset the same setup produces one inaction elimination.
#[test]
fn relaxed_rules_spare_the_inactive() {
    let make = |demo: bool| {
        let mut w = world(GameStatus::Vote, 0, 0, demo);
        w.players = vec![
            player("a", Some(Role::Normal), ActionStatus::Voted),
            player("b", Some(Role::Normal), ActionStatus::Unused),
        ];
        w.roster = vec!["a".to_string(), "b".to_string()];
        w.votes = vec![vote("a", "a", 0)];
        set_vote_result(&mut w);
        get_result(&w).unwrap()
    };
    let relaxed = make(true);
    assert!(relaxed.eliminated.iter().all(|e| e.reason != EliminationReason::Inaction));
    assert_eq!(relaxed.eliminated.len(), 1);
    assert_eq!(relaxed.eliminated[0].player.id, "a");
    let strict = make(false);
    let inaction: Vec<&Elimination> = strict
        .eliminated
        .iter()
        .filter(|e| e.reason == EliminationReason::Inaction)
        .collect();
    assert_eq!(inaction.len(), 1);
    assert_eq!(inaction[0].player.id, "b");
}

/// The vote-out target is the strictly most-named candidate, ties resolving
/// to roster order, and an eliminated saboteur is revealed as corrupted.
#[test]
fn vote_tally_and_reveal() {
    let mut w = world(GameStatus::Vote, 0, 0, false);
    w.players = vec![
        player("a", Some(Role::Normal), ActionStatus::Voted),
        player("b", Some(Role::Bugged), ActionStatus::Voted),
        player("c", Some(Role::Normal), ActionStatus::Voted),
    ];
    w.roster = vec!["a".to_string(), "b".to_string(), "c".to_string()];
    w.votes = vec![vote("a", "b", 0), vote("b", "a", 0), vote("c", "b", 0)];
    set_vote_result(&mut w);
    let rr = get_result(&w).unwrap();
    assert_eq!(rr.eliminated.len(), 1);
    assert_eq!(rr.eliminated[0].player.id, "b");
    assert_eq!(rr.eliminated[0].reason, EliminationReason::VotedOut);
    assert_eq!(w.game.corrupted_players.len(), 1);
    assert_eq!(w.game.corrupted_players[0].id, "b");
}

/// A tie between two candidates goes to the one first in roster order.
#[test]
fn vote_tie_goes_to_roster_order() {
    let mut w = world(GameStatus::Vote, 0, 0, true);
    w.players = vec![
        player("a", Some(Role::Normal), ActionStatus::Voted),
        player("b", Some(Role::Normal), ActionStatus::Voted),
    ];
    w.roster = vec!["a".to_string(), "b".to_string()];
    w.votes = vec![vote("a", "b", 0), vote("b", "a", 0)];
    set_vote_result(&mut w);
    let rr = get_result(&w).unwrap();
    assert_eq!(rr.eliminated.len(), 1);
    assert_eq!(rr.eliminated[0].player.id, "a");
}

/// Feeding a produced round result into the reset leaves the roster equal to
/// the pre-round roster minus exactly the eliminated ids.
#[test]
fn reset_removes_exactly_the_eliminated() {
    let mut w = world(GameStatus::VoteResult, 0, 0, false);
    let b = player("b", Some(Role::Normal), ActionStatus::Voted);
    w.players = vec![
        player("a", Some(Role::Normal), ActionStatus::Voted),
        b.clone(),
        player("c", Some(Role::Normal), ActionStatus::Unused),
    ];
    w.roster = vec!["a".to_string(), "b".to_string(), "c".to_string()];
    w.votes = vec![vote("a", "b", 0)];
    w.results = vec![RoundResult {
        round_type: GameStatus::Vote,
        round: 0,
        eliminated: vec![elimination(&b, EliminationReason::VotedOut)],
        tasks_completed: vec![],
    }];
    assert_eq!(reset_round(&mut w), Ok(()));
    assert_eq!(w.roster, vec!["a".to_string(), "c".to_string()]);
    // markers cleared, the eliminated flagged, records gone
    assert!(w.players.iter().all(|p| p.used_action == ActionStatus::Unused));
    assert!(w.players[1].eliminated);
    assert!(!w.players[0].eliminated);
    assert_eq!(w.votes.len(), 0);
    assert_eq!(w.tasks.len(), 0);
    assert_eq!(w.actions.len(), 0);
}

/// Ticking the clock at a zero timer in a resolvable phase is a no-op: the
/// timer stays zero and no result appears.
#[test]
fn clock_is_idle_at_zero() {
    let mut w = world(GameStatus::Tasks, 3, 0, false);
    clock_run(&mut w);
    assert_eq!(w.game.time.timer, 0);
    assert_eq!(w.game.time.round, 3);
    assert_eq!(w.game.status, GameStatus::Tasks);
    assert_eq!(w.results.len(), 0);
    w.game.status = GameStatus::Vote;
    clock_run(&mut w);
    assert_eq!(w.game.time.timer, 0);
    assert_eq!(w.results.len(), 0);
}

#[test]
fn clock_counts_down_and_waits_in_lobby() {
    let mut w = world(GameStatus::Tasks, 1, 10, false);
    clock_run(&mut w);
    assert_eq!(w.game.time.timer, 9);
    w.game.status = GameStatus::Lobby;
    w.game.time = Time { round: 0, timer: 10 };
    clock_run(&mut w);
    assert_eq!(w.game.time.timer, 10);
}

#[test]
fn clock_injection_applies_when_different() {
    let mut w = world(GameStatus::Tasks, 1, 10, false);
    let inj = ClockTestInjection { time: Time { round: 1, timer: 0 }, status: GameStatus::Tasks };
    assert!(mock_run(&mut w, &inj));
    assert_eq!(w.game.time.timer, 0);
    assert!(!mock_run(&mut w, &inj));
}

#[test]
fn create_game_makes_a_fresh_lobby() {
    let mut w = world(GameStatus::End, 5, 0, true);
    create_game(&mut w);
    assert_eq!(w.game.status, GameStatus::Lobby);
    assert_eq!(w.game.time, Time { round: 0, timer: 0 });
    assert_eq!(w.game.win_result, WinResult::Null);
    assert_eq!(w.game.id.len(), 32);
    assert!(!w.game.demo_play);
}

#[test]
fn start_assigns_roles_with_a_saboteur() {
    let mut w = world(GameStatus::Lobby, 0, 0, false);
    w.players = vec![
        player("a", None, ActionStatus::Unused),
        player("b", None, ActionStatus::Unused),
        player("c", None, ActionStatus::Unused),
        player("d", None, ActionStatus::Unused),
        player("e", None, ActionStatus::Unused),
    ];
    w.roster = vec![
        "a".to_string(),
        "b".to_string(),
        "c".to_string(),
        "d".to_string(),
        "e".to_string(),
    ];
    w.buildings = vec![
        building("tower", true),
        building("d1", false),
        building("d2", false),
        building("d3", false),
    ];
    assert_eq!(post_game(&mut w), Ok(()));
    assert_eq!(w.game.status, GameStatus::Tasks);
    assert_eq!(w.game.time, Time { round: 0, timer: 90 });
    assert!(w.players.iter().all(|p| p.role.is_some()));
    assert!(w.players.iter().any(|p| p.role == Some(Role::Bugged)));
}

#[test]
fn start_rejections() {
    let mut w = world(GameStatus::Tasks, 0, 10, false);
    assert_eq!(post_game(&mut w), Err(GameError::PhaseViolation));
    w.game.status = GameStatus::Lobby;
    // no tower, too few buildings
    w.buildings = vec![building("d1", false), building("d2", false)];
    assert_eq!(post_game(&mut w), Err(GameError::NotEligible));
    w.buildings = vec![
        building("tower", true),
        building("d1", false),
        building("d2", false),
        building("d3", false),
    ];
    // one player is not enough
    w.players = vec![player("a", None, ActionStatus::Unused)];
    w.roster = vec!["a".to_string()];
    assert_eq!(post_game(&mut w), Err(GameError::NotEligible));
}

/// Once everyone has voted, the controller forces the timer to zero but does
/// not resolve yet; the next tick that observes zero resolves.
#[test]
fn early_completion_zeroes_timer_then_resolves() {
    let mut w = world(GameStatus::Vote, 0, 44, false);
    w.players = vec![
        player("a", Some(Role::Normal), ActionStatus::Voted),
        player("b", Some(Role::Bugged), ActionStatus::Voted),
    ];
    w.roster = vec!["a".to_string(), "b".to_string()];
    w.votes = vec![vote("a", "b", 0), vote("b", "a", 0)];
    assert!(check_all_votes_in(&w));
    assert_eq!(update_logic(&mut w), Ok(()));
    assert_eq!(w.game.time.timer, 0);
    assert_eq!(w.game.status, GameStatus::Vote);
    assert_eq!(w.results.len(), 0);
    // the next tick resolves and moves to the result display, same round
    assert_eq!(update_logic(&mut w), Ok(()));
    assert_eq!(w.game.status, GameStatus::VoteResult);
    assert_eq!(w.game.time, Time { round: 0, timer: 30 });
    assert_eq!(w.results.len(), 1);
}

/// A task phase at timer zero resolves and moves to the vote phase of the
/// same round, clearing the round's records.
#[test]
fn tasks_resolve_into_vote_same_round() {
    let mut w = world(GameStatus::Tasks, 2, 0, false);
    w.players = vec![
        player("a", Some(Role::Normal), ActionStatus::TaskComplete),
        player("b", Some(Role::Normal), ActionStatus::TaskComplete),
        player("c", Some(Role::Normal), ActionStatus::TaskComplete),
        player("d", Some(Role::Normal), ActionStatus::TaskComplete),
        player("s", Some(Role::Bugged), ActionStatus::TaskComplete),
    ];
    w.roster = vec![
        "a".to_string(),
        "b".to_string(),
        "c".to_string(),
        "d".to_string(),
        "s".to_string(),
    ];
    w.tasks = vec![
        complete_task("a", 2),
        complete_task("b", 2),
        complete_task("c", 2),
        complete_task("d", 2),
    ];
    w.actions = vec![Action {
        actor: "s".to_string(),
        poison_target: "a".to_string(),
        interrupted_task: true,
        confirmed: true,
        round: 2,
    }];
    assert!(check_all_tasks_in(&w));
    assert_eq!(update_logic(&mut w), Ok(()));
    // three of four tasks counted: no victory, on to the vote of round 2
    assert_eq!(w.game.status, GameStatus::Vote);
    assert_eq!(w.game.time, Time { round: 2, timer: 90 });
    assert_eq!(w.tasks.len(), 0);
    assert_eq!(w.actions.len(), 0);
    assert_eq!(w.results.len(), 1);
    // the sabotage victim left the roster
    assert!(!w.roster.contains(&"a".to_string()));
    assert_eq!(w.roster.len(), 4);
}

/// A finished vote-result display without victory moves to the next round's
/// task phase.
#[test]
fn vote_result_advances_the_round() {
    let mut w = world(GameStatus::VoteResult, 1, 0, false);
    w.players = vec![
        player("a", Some(Role::Normal), ActionStatus::Voted),
        player("b", Some(Role::Normal), ActionStatus::Voted),
        player("s", Some(Role::Bugged), ActionStatus::Voted),
    ];
    w.roster = vec!["a".to_string(), "b".to_string(), "s".to_string()];
    w.results = vec![RoundResult {
        round_type: GameStatus::Vote,
        round: 1,
        eliminated: vec![],
        tasks_completed: vec![],
    }];
    assert_eq!(update_logic(&mut w), Ok(()));
    assert_eq!(w.game.status, GameStatus::Tasks);
    assert_eq!(w.game.time, Time { round: 2, timer: 180 });
}

/// The end cooldown at timer zero erases the finished game and opens a fresh
/// lobby with everyone's per-game fields wiped.
#[test]
fn end_resets_to_a_new_game() {
    let mut w = world(GameStatus::End, 4, 0, false);
    w.game.win_result = WinResult::Democracy;
    w.players = vec![
        player("a", Some(Role::Normal), ActionStatus::Voted),
        player("s", Some(Role::Bugged), ActionStatus::TaskComplete),
    ];
    w.roster = vec!["a".to_string()];
    w.proximities = vec![ProximityRecord {
        player_id: "a".to_string(),
        proximity: PlayerProximity {
            nearby_players: vec![],
            nearby_buildings: vec![],
            immune: false,
            location: Cube { q: 0, r: 0, s: 0 },
        },
    }];
    w.results = vec![RoundResult {
        round_type: GameStatus::Vote,
        round: 0,
        eliminated: vec![],
        tasks_completed: vec![],
    }];
    assert_eq!(update_logic(&mut w), Ok(()));
    assert_eq!(w.game.status, GameStatus::Lobby);
    assert_ne!(w.game.id, "game");
    assert_eq!(w.game.id.len(), 32);
    assert_eq!(w.roster.len(), 0);
    assert_eq!(w.results.len(), 0);
    assert_eq!(w.proximities.len(), 0);
    assert!(w.players.iter().all(|p| p.role.is_none()
        && p.used_action == ActionStatus::Unused
        && !p.eliminated
        && p.display_name.is_some()));
}

/// An all-tasks-done task round wins outright and silently purges the still
/// active saboteur from the roster.
#[test]
fn perfection_purges_saboteurs() {
    let mut w = world(GameStatus::Tasks, 0, 0, false);
    w.players = vec![
        player("a", Some(Role::Normal), ActionStatus::TaskComplete),
        player("b", Some(Role::Normal), ActionStatus::TaskComplete),
        player("s", Some(Role::Bugged), ActionStatus::TaskComplete),
    ];
    w.roster = vec!["a".to_string(), "b".to_string(), "s".to_string()];
    w.tasks = vec![complete_task("a", 0), complete_task("b", 0)];
    w.actions = vec![Action {
        actor: "s".to_string(),
        poison_target: "a".to_string(),
        interrupted_task: false,
        confirmed: true,
        round: 0,
    }];
    assert_eq!(update_logic(&mut w), Ok(()));
    assert_eq!(w.game.status, GameStatus::End);
    assert_eq!(w.game.win_result, WinResult::Perfection);
    // the saboteur is gone without a formal elimination
    assert_eq!(w.roster, vec!["a".to_string(), "b".to_string()]);
    assert!(w.players[2].role.is_none());
    let rr = &w.results[0];
    assert_eq!(rr.eliminated.len(), 0);
    assert_eq!(rr.tasks_completed.len(), 2);
}

/// A missing vote result at the result display is fatal for the tick and
/// changes nothing.
#[test]
fn missing_result_aborts_the_tick() {
    let mut w = world(GameStatus::VoteResult, 1, 0, false);
    w.players = vec![player("a", Some(Role::Normal), ActionStatus::Voted)];
    w.roster = vec!["a".to_string()];
    let err = update_logic(&mut w);
    assert!(err.is_err());
    assert_eq!(w.game.status, GameStatus::VoteResult);
    assert_eq!(w.roster.len(), 1);
}

/// Everyone wiped out at once: mutual wipeout.
#[test]
fn mutual_wipeout() {
    let mut w = world(GameStatus::VoteResult, 0, 0, false);
    let a = player("a", Some(Role::Normal), ActionStatus::Unused);
    let s = player("s", Some(Role::Bugged), ActionStatus::Unused);
    w.players = vec![a.clone(), s.clone()];
    w.roster = vec!["a".to_string(), "s".to_string()];
    w.results = vec![RoundResult {
        round_type: GameStatus::Vote,
        round: 0,
        eliminated: vec![
            elimination(&a, EliminationReason::Inaction),
            elimination(&s, EliminationReason::Inaction),
        ],
        tasks_completed: vec![],
    }];
    w.game.demo_play = true;
    let win = check_end_game_condition(&mut w).unwrap();
    assert_eq!(win, WinResult::Armageddon);
}

/// One whole game, driven only through the public operations: start, tasks
/// with one sabotage, vote, result, end, and the reset back to the lobby.
#[test]
fn full_game_cycle() {
    let mut w = world(GameStatus::Lobby, 0, 0, false);
    w.players = vec![
        player("c1", None, ActionStatus::Unused),
        player("c2", None, ActionStatus::Unused),
        player("c3", None, ActionStatus::Unused),
        player("s", None, ActionStatus::Unused),
    ];
    w.roster = vec![
        "c1".to_string(),
        "c2".to_string(),
        "c3".to_string(),
        "s".to_string(),
    ];
    w.buildings = vec![
        building("tower", true),
        building("d1", false),
        building("d2", false),
        building("d3", false),
    ];
    assert_eq!(tonk_core::controller::post_game(&mut w), Ok(()));
    assert_eq!(w.game.status, GameStatus::Tasks);
    // fix the cast for a deterministic script: one saboteur, three crew
    for p in w.players.iter_mut() {
        p.role = Some(if p.id == "s" { Role::Bugged } else { Role::Normal });
    }

    // every crew member draws a task; the saboteur declares against c1
    // before c1 finishes, so the sabotage interrupts
    let near = |w: &mut World, id: &str, b: Building| {
        w.proximities = vec![ProximityRecord {
            player_id: id.to_string(),
            proximity: PlayerProximity {
                nearby_players: vec![],
                nearby_buildings: vec![b],
                immune: false,
                location: Cube { q: 0, r: 0, s: 0 },
            },
        }];
    };
    let crews = ["c1", "c2", "c3"];
    let mut dests = Vec::new();
    for c in crews {
        let t = tonk_core::ledger::get_task(&mut w, &c.to_string()).unwrap();
        dests.push(t.destination.unwrap());
    }
    // declaration first: c1's task is still incomplete
    w.proximities = vec![ProximityRecord {
        player_id: "s".to_string(),
        proximity: PlayerProximity {
            nearby_players: vec![tonk_core::types::NearbyPlayer {
                id: "c1".to_string(),
                display_name: None,
                role: None,
                immune: false,
            }],
            nearby_buildings: vec![],
            immune: false,
            location: Cube { q: 0, r: 0, s: 0 },
        },
    }];
    assert_eq!(
        tonk_core::ledger::post_action(&mut w, 0, &"s".to_string(), &"c1".to_string(), false),
        Ok(())
    );
    near(&mut w, "s", building("tower", true));
    assert_eq!(
        tonk_core::ledger::post_action(&mut w, 0, &"s".to_string(), &"c1".to_string(), true),
        Ok(())
    );
    for (i, c) in crews.iter().enumerate() {
        near(&mut w, c, dests[i].clone());
        tonk_core::ledger::post_task(&mut w, 0, &c.to_string()).unwrap();
        near(&mut w, c, building("tower", true));
        tonk_core::ledger::post_task(&mut w, 0, &c.to_string()).unwrap();
    }

    // everyone is done: one tick zeroes the timer, the next resolves
    assert!(check_all_tasks_in(&w));
    assert_eq!(update_logic(&mut w), Ok(()));
    assert_eq!(w.game.time.timer, 0);
    assert_eq!(update_logic(&mut w), Ok(()));
    assert_eq!(w.game.status, GameStatus::Vote);
    assert_eq!(w.game.time.round, 0);
    // c1 fell to the sabotage, two of three tasks counted
    assert_eq!(w.roster.len(), 3);
    assert!(!w.roster.contains(&"c1".to_string()));
    let rr = &w.results[0];
    assert_eq!(rr.tasks_completed.len(), 2);
    assert_eq!(rr.eliminated[0].player.id, "c1");
    assert_eq!(rr.eliminated[0].reason, EliminationReason::BuggedOut);

    // the survivors vote the saboteur out
    for (voter, candidate) in [("c2", "s"), ("c3", "s"), ("s", "c2")] {
        assert_eq!(
            tonk_core::ledger::post_vote(&mut w, 0, &voter.to_string(), &candidate.to_string()),
            Ok(())
        );
    }
    assert_eq!(update_logic(&mut w), Ok(()));
    assert_eq!(w.game.time.timer, 0);
    assert_eq!(update_logic(&mut w), Ok(()));
    assert_eq!(w.game.status, GameStatus::VoteResult);
    assert_eq!(w.game.corrupted_players.len(), 1);
    assert_eq!(w.game.corrupted_players[0].id, "s");

    // the display pause runs out: the saboteur is gone, the crew win
    while w.game.time.timer > 0 {
        clock_run(&mut w);
    }
    assert_eq!(update_logic(&mut w), Ok(()));
    assert_eq!(w.game.status, GameStatus::End);
    assert_eq!(w.game.win_result, WinResult::Democracy);
    assert_eq!(w.roster, vec!["c2".to_string(), "c3".to_string()]);

    // the cooldown runs out: everything is erased and a new lobby waits
    while w.game.time.timer > 0 {
        clock_run(&mut w);
    }
    assert_eq!(update_logic(&mut w), Ok(()));
    assert_eq!(w.game.status, GameStatus::Lobby);
    assert_eq!(w.game.id.len(), 32);
    assert_eq!(w.roster.len(), 0);
    assert_eq!(w.results.len(), 0);
    assert!(w.players.iter().all(|p| p.role.is_none() && !p.eliminated));
}
