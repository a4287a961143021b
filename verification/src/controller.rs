//! The round controller: the phase/timer state machine that creates the
//! game, advances it through its rounds, invokes the resolver at phase
//! boundaries, clears round-scoped data, and restarts everything after a
//! finished game. The clock that counts the timer down runs here too, as its
//! own independently scheduled step.

use vstd::prelude::*;

verus! {

use crate::types::{ActionStatus, Elimination, Game, GameStatus, Player, Role, Time, WinResult};
use crate::errors::{GameError, JobError};
use crate::world::{
    World, find_player, find_result, has_player, has_result, lemma_ids_preserved,
    lemma_player_index_unique, lemma_result_index_unique, roster_contains, roster_has,
    the_player, the_result, unique_ids,
};
use crate::resolver::{
    check_end_game_condition, completed_tasks, corrupted_of, elims_contain, is_task_result,
    is_vote_result, purged_players, purged_proximities, purged_roster, result_kind,
    set_task_result, set_vote_result, task_eliminations, victory_of, vote_eliminations,
    wiped_player,
};
use crate::world::{lemma_upsert_result_unique, roster_players, upsert_result};
use crate::types::RoundResult;

/// Seconds of the very first task phase, granted when a game starts.
pub const FIRST_TASKS_TIMER: u32 = 90;

/// Seconds of a task phase entered from a vote result.
pub const TASKS_TIMER: u32 = 180;

/// Seconds of a vote phase.
pub const VOTE_TIMER: u32 = 90;

/// Seconds the vote result stays on display.
pub const VOTE_RESULT_TIMER: u32 = 30;

/// Seconds of the cooldown after a game ends.
pub const END_TIMER: u32 = 30;

/// What one clock step does to the game: outside a running phase it waits;
/// a running timer is counted down by one; a timer at zero is left at zero,
/// for the controller's own step to observe and act on.
pub open spec fn clock_tick(g: Game) -> Game {
    if g.status == GameStatus::Null || g.status == GameStatus::Lobby {
        g
    } else if g.time.timer == 0 {
        g
    } else {
        Game { time: Time { round: g.time.round, timer: (g.time.timer - 1) as u32 }, ..g }
    }
}

/// Law: a clock step on a timer already at zero changes nothing, in any
/// phase; in particular no second resolution can be triggered by it.
pub proof fn lemma_clock_idempotent_at_zero(g: Game)
    requires
        g.time.timer == 0,
    ensures
        clock_tick(g) == g,
{
}

/// The clock job: counts the current phase's timer down by one second,
/// touching nothing else.
pub fn clock_run(w: &mut World)
    requires
        old(w).wf(),
    ensures
        final(w).wf(),
        final(w).game == clock_tick(old(w).game),
        final(w).players == old(w).players,
        final(w).roster == old(w).roster,
        final(w).buildings == old(w).buildings,
        final(w).proximities == old(w).proximities,
        final(w).tasks == old(w).tasks,
        final(w).actions == old(w).actions,
        final(w).votes == old(w).votes,
        final(w).results == old(w).results,
{
    if w.game.status == GameStatus::Null || w.game.status == GameStatus::Lobby {
        return ;
    }
    if w.game.timer_is_zero() {
        return ;
    }
    let t = w.game.time;
    w.game.time = Time { round: t.round, timer: t.timer - 1 };
}

/// A clock override injected by tests: the time and phase to force.
pub struct ClockTestInjection {
    pub time: Time,
    pub status: GameStatus,
}

/// The clock job's test mode: outside the lobby, applies an injected time
/// and phase when they differ from the game's own. Returns whether the
/// injection was applied, so the caller can consume it.
pub fn mock_run(w: &mut World, injected: &ClockTestInjection) -> (applied: bool)
    requires
        old(w).wf(),
    ensures
        final(w).wf(),
        applied == (!(old(w).game.status == GameStatus::Null || old(w).game.status
            == GameStatus::Lobby) && (injected.time != old(w).game.time || injected.status != old(
            w,
        ).game.status)),
        final(w).game == if applied {
            Game { status: injected.status, time: injected.time, ..old(w).game }
        } else {
            old(w).game
        },
        final(w).players == old(w).players,
        final(w).roster == old(w).roster,
        final(w).buildings == old(w).buildings,
        final(w).proximities == old(w).proximities,
        final(w).tasks == old(w).tasks,
        final(w).actions == old(w).actions,
        final(w).votes == old(w).votes,
        final(w).results == old(w).results,
{
    if w.game.status == GameStatus::Null || w.game.status == GameStatus::Lobby {
        return false;
    }
    if injected.time.timer == w.game.time.timer && injected.time.round == w.game.time.round
        && injected.status == w.game.status {
        return false;
    }
    w.game.status = injected.status;
    w.game.time = injected.time;
    true
}

/// Creates a brand-new game: a fresh random id, waiting in the lobby with
/// round and timer at zero, no victory, nobody revealed, strict rules.
pub fn create_game(w: &mut World)
    requires
        old(w).wf(),
    ensures
        final(w).wf(),
        final(w).game.id@.len() == 32,
        final(w).game.status == GameStatus::Lobby,
        final(w).game.time == (Time { round: 0u32, timer: 0u32 }),
        final(w).game.win_result == WinResult::Null,
        final(w).game.corrupted_players@.len() == 0,
        final(w).game.demo_play == false,
        final(w).players == old(w).players,
        final(w).roster == old(w).roster,
        final(w).buildings == old(w).buildings,
        final(w).proximities == old(w).proximities,
        final(w).tasks == old(w).tasks,
        final(w).actions == old(w).actions,
        final(w).votes == old(w).votes,
        final(w).results == old(w).results,
{
    w.game = Game {
        id: crate::entropy::new_game_id(),
        status: GameStatus::Lobby,
        time: Time { round: 0, timer: 0 },
        win_result: WinResult::Null,
        corrupted_players: Vec::new(),
        demo_play: false,
    };
}

impl Game {
    /// Whether the current phase's timer has run out.
    pub fn timer_is_zero(&self) -> (zero: bool)
        ensures
            zero == (self.time.timer == 0),
    {
        self.time.timer == 0
    }
}

/// Every active player has voted: as many votes stand as roster entries.
pub open spec fn all_votes_in(w: World) -> bool {
    w.votes@.len() == w.roster@.len()
}

/// Checks whether every active player has voted this round.
pub fn check_all_votes_in(w: &World) -> (all_in: bool)
    ensures
        all_in == all_votes_in(*w),
{
    w.votes.len() == w.roster.len()
}

/// Every active player finished: as many tasks and sabotage records stand as
/// roster entries, and every active player's marker reached `TaskComplete`.
pub open spec fn all_tasks_in(w: World) -> bool {
    &&& w.tasks@.len() + w.actions@.len() == w.roster@.len()
    &&& forall|i: int|
        0 <= i < w.roster@.len() ==> crate::world::the_player(
            w.players@,
            (#[trigger] w.roster@[i])@,
        ).used_action == ActionStatus::TaskComplete
}

/// Checks whether every active player completed a task or confirmed a
/// sabotage this round.
pub fn check_all_tasks_in(w: &World) -> (all_in: bool)
    requires
        w.wf(),
    ensures
        all_in == all_tasks_in(*w),
{
    let n_records = w.tasks.len();
    let n_actions = w.actions.len();
    let n = w.roster.len();
    if n_records > n || n_actions > n - n_records {
        return false;
    }
    if n_records + n_actions != n {
        return false;
    }
    let mut i: usize = 0;
    while i < n
        invariant
            i <= n,
            w.wf(),
            n == w.roster@.len(),
            forall|j: int|
                0 <= j < i ==> crate::world::the_player(
                    w.players@,
                    (#[trigger] w.roster@[j])@,
                ).used_action == ActionStatus::TaskComplete,
        decreases n - i,
    {
        let idx = match crate::world::find_player(&w.players, &w.roster[i]) {
            Some(k) => k,
            None => {
                proof {
                    assert(crate::world::has_player(w.players@, w.roster@[i as int]@));
                }
                vstd::pervasive::unreached()
            },
        };
        proof {
            crate::world::lemma_player_index_unique(w.players@, w.roster@[i as int]@, idx as int);
        }
        if !(w.players[idx].used_action == ActionStatus::TaskComplete) {
            return false;
        }
        i = i + 1;
    }
    true
}

/// A player with their per-round progress marker cleared.
pub open spec fn reset_marker(p: Player) -> Player {
    Player { used_action: ActionStatus::Unused, ..p }
}

/// What the end-of-round reset leaves of one player record: active players
/// get their marker cleared, and the round's eliminated are flagged.
pub open spec fn after_round_reset_player(
    p: Player,
    roster: Seq<String>,
    elims: Seq<Elimination>,
) -> Player {
    let q = if roster_has(roster, p.id@) {
        reset_marker(p)
    } else {
        p
    };
    if elims_contain(elims, p.id@) {
        Player { eliminated: true, ..q }
    } else {
        q
    }
}

pub open spec fn after_round_reset_players(
    players: Seq<Player>,
    roster: Seq<String>,
    elims: Seq<Elimination>,
) -> Seq<Player> {
    Seq::new(players.len(), |i: int| after_round_reset_player(players[i], roster, elims))
}

/// The roster less the round's eliminated, in order.
pub open spec fn roster_minus_elims(roster: Seq<String>, elims: Seq<Elimination>) -> Seq<String>
    decreases roster.len(),
{
    if roster.len() == 0 {
        Seq::empty()
    } else {
        let prev = roster_minus_elims(roster.drop_last(), elims);
        if elims_contain(elims, roster.last()@) {
            prev
        } else {
            prev.push(roster.last())
        }
    }
}

/// Law: the post-reset roster is the pre-round roster minus exactly the
/// eliminated ids — an id survives the reset if and only if it was on the
/// roster and was not eliminated.
pub proof fn lemma_round_trip_roster(roster: Seq<String>, elims: Seq<Elimination>, id: Seq<char>)
    ensures
        roster_has(roster_minus_elims(roster, elims), id) <==> (roster_has(roster, id)
            && !elims_contain(elims, id)),
    decreases roster.len(),
{
    if roster.len() > 0 {
        let prefix = roster.drop_last();
        lemma_round_trip_roster(prefix, elims, id);
        let prev = roster_minus_elims(prefix, elims);
        let out = roster_minus_elims(roster, elims);
        assert forall|i: int| 0 <= i < prefix.len() implies #[trigger] prefix[i] == roster[i]
            by {}
        if roster_has(roster, id) {
            let i = choose|i: int| 0 <= i < roster.len() && #[trigger] roster[i]@ == id;
            if i < prefix.len() {
                assert(prefix[i] == roster[i]);
                assert(prefix[i]@ == id);
                assert(roster_has(prefix, id));
            }
        }
        if !elims_contain(elims, roster.last()@) {
            assert(out == prev.push(roster.last()));
            if roster_has(out, id) {
                let i = choose|i: int| 0 <= i < out.len() && #[trigger] out[i]@ == id;
                if i < prev.len() {
                    assert(roster_has(prev, id));
                } else {
                    assert(out[i] == roster.last());
                    assert(roster[roster.len() - 1]@ == id);
                }
            }
            if roster_has(roster, id) && !elims_contain(elims, id) {
                if roster.last()@ == id {
                    assert(out[out.len() - 1]@ == id);
                } else {
                    assert(roster_has(prev, id));
                    let i = choose|i: int| 0 <= i < prev.len() && #[trigger] prev[i]@ == id;
                    assert(out[i]@ == id);
                }
            }
        } else {
            if roster_has(out, id) {
                assert(roster_has(prev, id));
            }
            if roster_has(roster, id) && !elims_contain(elims, id) {
                assert(roster.last()@ != id);
                assert(roster_has(prefix, id));
                let i = choose|i: int| 0 <= i < prev.len() && #[trigger] prev[i]@ == id;
                assert(out[i]@ == id);
            }
        }
    }
}

proof fn lemma_roster_minus_wf(roster: Seq<String>, elims: Seq<Elimination>)
    requires
        unique_ids(roster),
    ensures
        unique_ids(roster_minus_elims(roster, elims)),
        forall|i: int|
            0 <= i < roster_minus_elims(roster, elims).len() ==> roster_has(
                roster,
                (#[trigger] roster_minus_elims(roster, elims)[i])@,
            ),
    decreases roster.len(),
{
    if roster.len() > 0 {
        let prefix = roster.drop_last();
        assert(unique_ids(prefix));
        lemma_roster_minus_wf(prefix, elims);
        let prev = roster_minus_elims(prefix, elims);
        assert forall|i: int| 0 <= i < prev.len() implies roster_has(
            roster,
            (#[trigger] prev[i])@,
        ) by {
            assert(roster_has(prefix, prev[i]@));
            let j = choose|j: int| 0 <= j < prefix.len() && #[trigger] prefix[j]@ == prev[i]@;
            assert(roster[j]@ == prev[i]@);
        }
        if !elims_contain(elims, roster.last()@) {
            let out = prev.push(roster.last());
            assert forall|i: int, j: int|
                0 <= i < j < out.len() implies #[trigger] out[i]@ != #[trigger] out[j]@ by {
                if j == prev.len() as int {
                    assert(roster_has(prefix, out[i]@));
                    let m = choose|m: int|
                        0 <= m < prefix.len() && #[trigger] prefix[m]@ == out[i]@;
                    assert(roster[m]@ != roster.last()@);
                }
            }
        }
    }
}

/// Resets the finished round: clears every active player's progress marker,
/// flags the round's eliminated on their records and removes them from the
/// roster, and deletes all round-scoped task, sabotage and vote records. A
/// missing round result is fatal for the tick and changes nothing.
pub fn reset_round(w: &mut World) -> (outcome: Result<(), JobError>)
    requires
        old(w).wf(),
        old(w).game.status == GameStatus::Tasks || old(w).game.status == GameStatus::VoteResult,
    ensures
        final(w).wf(),
        match outcome {
            Ok(()) => {
                &&& has_result(
                    old(w).results@,
                    old(w).game.time.round,
                    result_kind(old(w).game.status),
                )
                &&& final(w).players@ == after_round_reset_players(
                    old(w).players@,
                    old(w).roster@,
                    the_result(
                        old(w).results@,
                        old(w).game.time.round,
                        result_kind(old(w).game.status),
                    ).eliminated@,
                )
                &&& final(w).roster@ == roster_minus_elims(
                    old(w).roster@,
                    the_result(
                        old(w).results@,
                        old(w).game.time.round,
                        result_kind(old(w).game.status),
                    ).eliminated@,
                )
                &&& final(w).tasks@.len() == 0
                &&& final(w).actions@.len() == 0
                &&& final(w).votes@.len() == 0
                &&& final(w).game == old(w).game
                &&& final(w).buildings == old(w).buildings
                &&& final(w).proximities == old(w).proximities
                &&& final(w).results == old(w).results
            },
            Err(e) => {
                &&& e == JobError::Unknown
                &&& *final(w) == *old(w)
                &&& !has_result(
                    old(w).results@,
                    old(w).game.time.round,
                    result_kind(old(w).game.status),
                )
            },
        },
{
    let round = w.game.time.round;
    let kind = if w.game.status == GameStatus::Tasks {
        GameStatus::Tasks
    } else {
        GameStatus::Vote
    };
    let ridx = match find_result(&w.results, round, kind) {
        Some(i) => i,
        None => {
            return Err(JobError::Unknown);
        },
    };
    proof {
        lemma_result_index_unique(w.results@, round, kind, ridx as int);
    }
    let ghost elims = w.results@[ridx as int].eliminated@;
    let ghost players0 = w.players@;
    let ghost roster0 = w.roster@;

    // the ids eliminated this round
    let n_elims = w.results[ridx].eliminated.len();
    let mut elim_ids: Vec<String> = Vec::new();
    let mut e: usize = 0;
    while e < n_elims
        invariant
            e <= n_elims,
            ridx < w.results@.len(),
            w.results@[ridx as int].eliminated@ == elims,
            n_elims == elims.len(),
            elim_ids@.len() == e,
            forall|a: int| 0 <= a < e ==> (#[trigger] elim_ids@[a])@ == elims[a].player.id@,
        decreases n_elims - e,
    {
        elim_ids.push(w.results[ridx].eliminated[e].player.id.clone());
        e = e + 1;
    }
    proof {
        assert forall|x: Seq<char>| roster_has(elim_ids@, x) == elims_contain(elims, x) by {
            if roster_has(elim_ids@, x) {
                let a = choose|a: int| 0 <= a < elim_ids@.len() && #[trigger] elim_ids@[a]@ == x;
                assert(elims[a].player.id@ == x);
            }
            if elims_contain(elims, x) {
                let a = choose|a: int|
                    0 <= a < elims.len() && (#[trigger] elims[a]).player.id@ == x;
                assert(elim_ids@[a]@ == x);
            }
        }
    }

    // clear markers and flag the eliminated
    let n = w.players.len();
    let mut i: usize = 0;
    while i < n
        invariant
            i <= n,
            n == players0.len(),
            w.players@.len() == players0.len(),
            w.roster@ == roster0,
            forall|x: Seq<char>| roster_has(elim_ids@, x) == elims_contain(elims, x),
            forall|a: int| i <= a < n ==> #[trigger] w.players@[a] == players0[a],
            forall|a: int|
                0 <= a < i ==> #[trigger] w.players@[a] == after_round_reset_player(
                    players0[a],
                    roster0,
                    elims,
                ),
            w.game == old(w).game,
            w.buildings == old(w).buildings,
            w.proximities == old(w).proximities,
            w.tasks == old(w).tasks,
            w.actions == old(w).actions,
            w.votes == old(w).votes,
            w.results == old(w).results,
        decreases n - i,
    {
        let on_roster = roster_contains(&w.roster, &w.players[i].id);
        let was_eliminated = roster_contains(&elim_ids, &w.players[i].id);
        let mut updated = w.players[i].clone();
        if on_roster {
            updated.used_action = ActionStatus::Unused;
        }
        if was_eliminated {
            updated.eliminated = true;
        }
        proof {
            assert(updated == after_round_reset_player(players0[i as int], roster0, elims));
        }
        vstd::pervasive::VecAdditionalExecFns::set(&mut w.players, i, updated);
        i = i + 1;
    }
    proof {
        assert(w.players@ =~= after_round_reset_players(players0, roster0, elims));
    }

    // remove the eliminated from the roster
    let mut k: usize = 0;
    let ghost mut j: int = 0;
    while k < w.roster.len()
        invariant
            w.players@ == after_round_reset_players(players0, roster0, elims),
            forall|x: Seq<char>| roster_has(elim_ids@, x) == elims_contain(elims, x),
            0 <= j <= roster0.len(),
            k as int == roster_minus_elims(roster0.subrange(0, j), elims).len(),
            w.roster@ == roster_minus_elims(roster0.subrange(0, j), elims) + roster0.subrange(
                j,
                roster0.len() as int,
            ),
            w.game == old(w).game,
            w.buildings == old(w).buildings,
            w.proximities == old(w).proximities,
            w.tasks == old(w).tasks,
            w.actions == old(w).actions,
            w.votes == old(w).votes,
            w.results == old(w).results,
        decreases roster0.len() - j,
    {
        proof {
            assert(w.roster@[k as int] == roster0[j]);
            assert(roster0.subrange(0, j + 1).drop_last() =~= roster0.subrange(0, j));
            assert(roster0.subrange(0, j + 1).last() == roster0[j]);
        }
        let hit = roster_contains(&elim_ids, &w.roster[k]);
        if hit {
            let _ = w.roster.remove(k);
            proof {
                assert(w.roster@ =~= roster_minus_elims(roster0.subrange(0, j + 1), elims)
                    + roster0.subrange(j + 1, roster0.len() as int));
            }
        } else {
            k = k + 1;
            proof {
                assert(w.roster@ =~= roster_minus_elims(roster0.subrange(0, j + 1), elims)
                    + roster0.subrange(j + 1, roster0.len() as int));
            }
        }
        proof {
            j = j + 1;
        }
    }
    proof {
        assert(roster0.subrange(0, roster0.len() as int) =~= roster0);
        assert(w.roster@ =~= roster_minus_elims(roster0, elims));
    }

    // delete the round-scoped records
    w.tasks = Vec::new();
    w.actions = Vec::new();
    w.votes = Vec::new();

    proof {
        assert forall|a: int| 0 <= a < players0.len() implies players0[a].id@ == #[trigger] w
            .players@[a].id@ by {
            assert(w.players@[a] == after_round_reset_player(players0[a], roster0, elims));
        }
        lemma_ids_preserved(players0, w.players@);
        lemma_roster_minus_wf(roster0, elims);
        assert forall|i2: int| 0 <= i2 < w.roster@.len() implies has_player(
            w.players@,
            (#[trigger] w.roster@[i2])@,
        ) by {
            assert(roster_has(roster0, w.roster@[i2]@));
            let r = choose|r: int| 0 <= r < roster0.len() && #[trigger] roster0[r]@ == w.roster@[i2]@;
            assert(has_player(players0, roster0[r]@));
        }
    }
    Ok(())
}

/// Wipes every registered player back to a bare registration — identity,
/// unit link and display name survive — and clears all proximity snapshots.
pub fn clear_player_state(w: &mut World)
    requires
        old(w).wf(),
    ensures
        final(w).wf(),
        final(w).players@.len() == old(w).players@.len(),
        forall|i: int|
            0 <= i < old(w).players@.len() ==> #[trigger] final(w).players@[i] == wiped_player(
                old(w).players@[i],
            ),
        final(w).proximities@.len() == 0,
        final(w).game == old(w).game,
        final(w).roster == old(w).roster,
        final(w).buildings == old(w).buildings,
        final(w).tasks == old(w).tasks,
        final(w).actions == old(w).actions,
        final(w).votes == old(w).votes,
        final(w).results == old(w).results,
{
    let ghost players0 = w.players@;
    let n = w.players.len();
    let mut i: usize = 0;
    while i < n
        invariant
            i <= n,
            n == players0.len(),
            w.players@.len() == players0.len(),
            forall|a: int| i <= a < n ==> #[trigger] w.players@[a] == players0[a],
            forall|a: int| 0 <= a < i ==> #[trigger] w.players@[a] == wiped_player(players0[a]),
            w.game == old(w).game,
            w.roster == old(w).roster,
            w.buildings == old(w).buildings,
            w.proximities == old(w).proximities,
            w.tasks == old(w).tasks,
            w.actions == old(w).actions,
            w.votes == old(w).votes,
            w.results == old(w).results,
        decreases n - i,
    {
        let wiped = Player {
            id: w.players[i].id.clone(),
            mobile_unit_id: crate::types::clone_opt_string(&w.players[i].mobile_unit_id),
            display_name: crate::types::clone_opt_string(&w.players[i].display_name),
            secret_key: None,
            role: None,
            used_action: ActionStatus::Unused,
            last_round_action: None,
            eliminated: false,
        };
        proof {
            assert(wiped == wiped_player(players0[i as int]));
        }
        vstd::pervasive::VecAdditionalExecFns::set(&mut w.players, i, wiped);
        i = i + 1;
    }
    w.proximities = Vec::new();
    proof {
        assert forall|a: int| 0 <= a < players0.len() implies players0[a].id@ == #[trigger] w
            .players@[a].id@ by {
            assert(w.players@[a] == wiped_player(players0[a]));
        }
        lemma_ids_preserved(players0, w.players@);
    }
}

/// Ends a finished game for good: deletes every stored round result, wipes
/// all players and snapshots, empties the roster, and creates a brand-new
/// game waiting in the lobby.
pub fn reset_to_new_game(w: &mut World)
    requires
        old(w).wf(),
    ensures
        final(w).wf(),
        final(w).results@.len() == 0,
        final(w).roster@.len() == 0,
        final(w).proximities@.len() == 0,
        final(w).players@.len() == old(w).players@.len(),
        forall|i: int|
            0 <= i < old(w).players@.len() ==> #[trigger] final(w).players@[i] == wiped_player(
                old(w).players@[i],
            ),
        final(w).game.id@.len() == 32,
        final(w).game.status == GameStatus::Lobby,
        final(w).game.time == (Time { round: 0u32, timer: 0u32 }),
        final(w).game.win_result == WinResult::Null,
        final(w).game.corrupted_players@.len() == 0,
        final(w).game.demo_play == false,
        final(w).buildings == old(w).buildings,
        final(w).tasks == old(w).tasks,
        final(w).actions == old(w).actions,
        final(w).votes == old(w).votes,
{
    w.results = Vec::new();
    clear_player_state(w);
    w.roster = Vec::new();
    create_game(w);
}

/// The error, if any, that the start signal returns: the game must be in
/// the lobby, the tower and more than three buildings must be registered,
/// and at least two players must have joined.
pub open spec fn start_error(w: World) -> Option<GameError> {
    if w.game.status != GameStatus::Lobby {
        Some(GameError::PhaseViolation)
    } else if !crate::ledger::nearby_has_tower(w.buildings@) || w.buildings@.len() <= 3 {
        Some(GameError::NotEligible)
    } else if w.roster@.len() < 2 {
        Some(GameError::NotEligible)
    } else {
        None
    }
}

/// Starts the game from the lobby: assigns every active player a hidden
/// role — saboteurs drawn at random, capped below half the roster, with at
/// least one forced — and enters the first task phase at round zero.
pub fn post_game(w: &mut World) -> (outcome: Result<(), GameError>)
    requires
        old(w).wf(),
    ensures
        final(w).wf(),
        match outcome {
            Ok(()) => {
                &&& start_error(*old(w)) is None
                &&& final(w).game == (Game {
                    status: GameStatus::Tasks,
                    time: Time { round: 0u32, timer: FIRST_TASKS_TIMER },
                    ..old(w).game
                })
                &&& final(w).players@.len() == old(w).players@.len()
                &&& forall|a: int|
                    0 <= a < old(w).players@.len() ==> if roster_has(
                        old(w).roster@,
                        old(w).players@[a].id@,
                    ) {
                        (#[trigger] final(w).players@[a] == Player {
                            role: Some(Role::Normal),
                            ..old(w).players@[a]
                        }) || final(w).players@[a] == Player {
                            role: Some(Role::Bugged),
                            ..old(w).players@[a]
                        }
                    } else {
                        final(w).players@[a] == old(w).players@[a]
                    }
                &&& forall|a: int|
                    0 <= a < old(w).roster@.len() ==> the_player(
                        final(w).players@,
                        (#[trigger] old(w).roster@[a])@,
                    ).role is Some
                &&& crate::resolver::count_bugs(
                    crate::world::roster_players(old(w).roster@, final(w).players@),
                ) >= 1
                &&& final(w).roster == old(w).roster
                &&& final(w).buildings == old(w).buildings
                &&& final(w).proximities == old(w).proximities
                &&& final(w).tasks == old(w).tasks
                &&& final(w).actions == old(w).actions
                &&& final(w).votes == old(w).votes
                &&& final(w).results == old(w).results
            },
            Err(e) => {
                &&& *final(w) == *old(w)
                &&& start_error(*old(w)) == Some(e)
            },
        },
{
    if !(w.game.status == GameStatus::Lobby) {
        return Err(GameError::PhaseViolation);
    }
    let has_tower = crate::ledger::find_tower(&w.buildings);
    if !has_tower || w.buildings.len() <= 3 {
        return Err(GameError::NotEligible);
    }
    let n = w.roster.len();
    if n < 2 {
        return Err(GameError::NotEligible);
    }
    let ghost players0 = w.players@;
    let ghost roster0 = w.roster@;

    // no more than two in five may start as saboteurs
    let max_bugs: usize = ((4 as u128 * n as u128 + 5) / 10) as usize;
    let mut num_bugs: usize = 0;
    let ghost mut bug_at: Option<int> = None;
    let mut i: usize = 0;
    while i < n
        invariant
            i <= n,
            n == roster0.len(),
            w.roster == old(w).roster,
            w.roster@ == roster0,
            w.players@.len() == players0.len(),
            crate::world::unique_player_ids(w.players@),
            unique_ids(roster0),
            forall|a: int| 0 <= a < players0.len() ==> #[trigger] w.players@[a].id@ == players0[a].id@,
            forall|r: int| 0 <= r < roster0.len() ==> has_player(w.players@, #[trigger] roster0[r]@),
            forall|a: int|
                0 <= a < players0.len() ==> (#[trigger] w.players@[a] == players0[a] || (
                roster_has(roster0, players0[a].id@) && (w.players@[a] == Player {
                    role: Some(Role::Normal),
                    ..players0[a]
                } || w.players@[a] == Player { role: Some(Role::Bugged), ..players0[a] }))),
            forall|a: int|
                0 <= a < i ==> the_player(w.players@, (#[trigger] roster0[a])@).role is Some,
            num_bugs <= i,
            match bug_at {
                None => num_bugs == 0,
                Some(rb) => 0 <= rb < i && the_player(
                    w.players@,
                    roster0[rb]@,
                ).role == Some(Role::Bugged),
            },
            w.game == old(w).game,
            w.buildings == old(w).buildings,
            w.proximities == old(w).proximities,
            w.tasks == old(w).tasks,
            w.actions == old(w).actions,
            w.votes == old(w).votes,
            w.results == old(w).results,
        decreases n - i,
    {
        let pidx = match find_player(&w.players, &w.roster[i]) {
            Some(k) => k,
            None => {
                proof {
                    assert(has_player(w.players@, roster0[i as int]@));
                }
                vstd::pervasive::unreached()
            },
        };
        proof {
            lemma_player_index_unique(w.players@, roster0[i as int]@, pidx as int);
        }
        let draw = crate::entropy::draw_one_in_four();
        let make_bug = draw && max_bugs > num_bugs;
        let mut assigned = w.players[pidx].clone();
        assigned.role = Some(
            if make_bug {
                Role::Bugged
            } else {
                Role::Normal
            },
        );
        let ghost pre_players = w.players@;
        vstd::pervasive::VecAdditionalExecFns::set(&mut w.players, pidx, assigned);
        proof {
            crate::world::lemma_the_player_update(pre_players, pidx as int, w.players@[pidx as int]);
            assert forall|a: int|
                0 <= a < i + 1 implies the_player(
                w.players@,
                (#[trigger] roster0[a])@,
            ).role is Some by {
                if a < i {
                    if roster0[a]@ != roster0[i as int]@ {
                        assert(the_player(w.players@, roster0[a]@) == the_player(
                            pre_players,
                            roster0[a]@,
                        ));
                    } else {
                        assert(the_player(w.players@, roster0[a]@) == w.players@[pidx as int]);
                    }
                } else {
                    assert(the_player(w.players@, roster0[i as int]@) == w.players@[pidx as int]);
                }
            }
        }
        proof {
            if bug_at is Some {
                let rb = bug_at.unwrap();
                assert(roster0[rb]@ != roster0[i as int]@);
                assert(the_player(w.players@, roster0[rb]@) == the_player(
                    pre_players,
                    roster0[rb]@,
                ));
            }
        }
        if make_bug {
            num_bugs = num_bugs + 1;
            proof {
                bug_at = Some(i as int);
                assert(the_player(w.players@, roster0[i as int]@) == w.players@[pidx as int]);
            }
        }
        i = i + 1;
    }

    // nobody was drawn: force one saboteur at random
    if num_bugs == 0 {
        let ri = crate::entropy::draw_index(n);
        let pidx = match find_player(&w.players, &w.roster[ri]) {
            Some(k) => k,
            None => {
                proof {
                    assert(has_player(w.players@, roster0[ri as int]@));
                }
                vstd::pervasive::unreached()
            },
        };
        proof {
            lemma_player_index_unique(w.players@, roster0[ri as int]@, pidx as int);
        }
        let mut forced = w.players[pidx].clone();
        forced.role = Some(Role::Bugged);
        let ghost pre_players = w.players@;
        vstd::pervasive::VecAdditionalExecFns::set(&mut w.players, pidx, forced);
        proof {
            crate::world::lemma_the_player_update(pre_players, pidx as int, w.players@[pidx as int]);
            assert forall|a: int|
                0 <= a < n implies the_player(w.players@, (#[trigger] roster0[a])@).role is Some by {
                if roster0[a]@ != roster0[ri as int]@ {
                    assert(the_player(w.players@, roster0[a]@) == the_player(
                        pre_players,
                        roster0[a]@,
                    ));
                } else {
                    assert(the_player(w.players@, roster0[a]@) == w.players@[pidx as int]);
                }
            }
            bug_at = Some(ri as int);
            assert(the_player(w.players@, roster0[ri as int]@) == w.players@[pidx as int]);
        }
    }

    // at least one saboteur is active
    proof {
        let rb = bug_at.unwrap();
        let active = crate::world::roster_players(roster0, w.players@);
        assert(active[rb] == the_player(w.players@, roster0[rb]@));
        assert(active[rb].role == Some(Role::Bugged));
        crate::resolver::lemma_count_bugs_pos(active, rb);
    }

    w.game.status = GameStatus::Tasks;
    w.game.time = Time { round: 0, timer: FIRST_TASKS_TIMER };
    proof {
        assert forall|a: int| 0 <= a < players0.len() implies players0[a].id@ == #[trigger] w
            .players@[a].id@ by {}
        lemma_ids_preserved(players0, w.players@);
        assert forall|a: int|
            0 <= a < players0.len() && roster_has(
                roster0,
                players0[a].id@,
            ) implies ((#[trigger] w.players@[a] == Player {
            role: Some(Role::Normal),
            ..players0[a]
        }) || w.players@[a] == Player { role: Some(Role::Bugged), ..players0[a] }) by {
            let id = players0[a].id@;
            let r = choose|r: int| 0 <= r < roster0.len() && #[trigger] roster0[r]@ == id;
            assert(the_player(w.players@, roster0[r]@).role is Some);
            assert(w.players@[a].id@ == id);
            lemma_player_index_unique(w.players@, id, a);
            assert(w.players@[a].role is Some);
            if w.players@[a] == players0[a] {
                if players0[a].role == Some(Role::Bugged) {
                    assert(w.players@[a] == Player { role: Some(Role::Bugged), ..players0[a] });
                } else {
                    assert(players0[a].role == Some(Role::Normal));
                    assert(w.players@[a] == Player { role: Some(Role::Normal), ..players0[a] });
                }
            }
        }
    }
    Ok(())
}

/// Only the timer was forced to zero; everything else stands.
pub open spec fn timer_zeroed(pre: World, post: World) -> bool {
    &&& post.game == (Game {
        time: Time { round: pre.game.time.round, timer: 0u32 },
        ..pre.game
    })
    &&& post.players == pre.players
    &&& post.roster == pre.roster
    &&& post.buildings == pre.buildings
    &&& post.proximities == pre.proximities
    &&& post.tasks == pre.tasks
    &&& post.actions == pre.actions
    &&& post.votes == pre.votes
    &&& post.results == pre.results
}

/// The whole effect of a controller tick that observes a task phase at timer
/// zero: the round is resolved and its result stored, eliminated saboteurs
/// are revealed, an outright win purges the active saboteurs, the round's
/// eliminations leave the roster, round-scoped records are cleared, and the
/// game moves to the end cooldown (on a victory) or to the vote phase of the
/// same round.
pub open spec fn tasks_resolved(pre: World, post: World) -> bool {
    let roster_p = roster_players(pre.roster@, pre.players@);
    let elims = task_eliminations(roster_p, pre.actions@, pre.players@, pre.game.demo_play);
    let completed = completed_tasks(pre.tasks@, pre.actions@);
    let win = victory_of(
        GameStatus::Tasks,
        completed.len(),
        elims,
        roster_p,
        pre.tasks@.len(),
        pre.game.demo_play,
    );
    let players1 = if win == WinResult::Perfection {
        purged_players(pre.roster@, pre.players@)
    } else {
        pre.players@
    };
    let roster1 = if win == WinResult::Perfection {
        purged_roster(pre.roster@, pre.players@)
    } else {
        pre.roster@
    };
    let prox1 = if win == WinResult::Perfection {
        purged_proximities(pre.proximities@, pre.roster@, pre.players@)
    } else {
        pre.proximities@
    };
    &&& post.players@ == after_round_reset_players(players1, roster1, elims)
    &&& post.roster@ == roster_minus_elims(roster1, elims)
    &&& post.proximities@ == prox1
    &&& post.tasks@.len() == 0
    &&& post.actions@.len() == 0
    &&& post.votes@.len() == 0
    &&& exists|rr: RoundResult|
        #[trigger] is_task_result(
            rr,
            roster_p,
            pre.tasks@,
            pre.actions@,
            pre.players@,
            pre.game.time.round,
            pre.game.demo_play,
        ) && post.results@ == upsert_result(pre.results@, rr)
    &&& post.buildings == pre.buildings
    &&& post.game.id == pre.game.id
    &&& post.game.demo_play == pre.game.demo_play
    &&& post.game.corrupted_players@ == corrupted_of(elims) + pre.game.corrupted_players@
    &&& if win != WinResult::Null {
        &&& post.game.status == GameStatus::End
        &&& post.game.time == (Time { round: pre.game.time.round, timer: END_TIMER })
        &&& post.game.win_result == win
    } else {
        &&& post.game.status == GameStatus::Vote
        &&& post.game.time == (Time { round: pre.game.time.round, timer: VOTE_TIMER })
        &&& post.game.win_result == WinResult::Null
    }
}

/// The whole effect of a controller tick that observes a vote phase at timer
/// zero: the votes are tallied and the round's result stored, eliminated
/// saboteurs are revealed, and the game moves to the result display of the
/// same round. Nothing is reset and no victory is checked yet.
pub open spec fn vote_resolved(pre: World, post: World) -> bool {
    let roster_p = roster_players(pre.roster@, pre.players@);
    let elims = vote_eliminations(roster_p, pre.votes@, pre.game.demo_play);
    &&& exists|rr: RoundResult|
        #[trigger] is_vote_result(
            rr,
            roster_p,
            pre.votes@,
            pre.game.time.round,
            pre.game.demo_play,
        ) && post.results@ == upsert_result(pre.results@, rr)
    &&& post.game.id == pre.game.id
    &&& post.game.demo_play == pre.game.demo_play
    &&& post.game.corrupted_players@ == corrupted_of(elims) + pre.game.corrupted_players@
    &&& post.game.status == GameStatus::VoteResult
    &&& post.game.time == (Time { round: pre.game.time.round, timer: VOTE_RESULT_TIMER })
    &&& post.game.win_result == WinResult::Null
    &&& post.players == pre.players
    &&& post.roster == pre.roster
    &&& post.buildings == pre.buildings
    &&& post.proximities == pre.proximities
    &&& post.tasks == pre.tasks
    &&& post.actions == pre.actions
    &&& post.votes == pre.votes
}

/// The whole effect of a controller tick that observes the result display at
/// timer zero: the stored vote result decides victory, the round is reset —
/// markers cleared, the eliminated flagged and dropped from the roster,
/// round-scoped records deleted — and the game moves to the end cooldown (on
/// a victory) or to the task phase of the next round.
pub open spec fn vote_result_resolved(pre: World, post: World) -> bool {
    let rr = the_result(pre.results@, pre.game.time.round, GameStatus::Vote);
    let roster_p = roster_players(pre.roster@, pre.players@);
    let win = victory_of(
        rr.round_type,
        rr.tasks_completed@.len(),
        rr.eliminated@,
        roster_p,
        pre.tasks@.len(),
        pre.game.demo_play,
    );
    &&& has_result(pre.results@, pre.game.time.round, GameStatus::Vote)
    &&& post.players@ == after_round_reset_players(pre.players@, pre.roster@, rr.eliminated@)
    &&& post.roster@ == roster_minus_elims(pre.roster@, rr.eliminated@)
    &&& post.tasks@.len() == 0
    &&& post.actions@.len() == 0
    &&& post.votes@.len() == 0
    &&& post.proximities == pre.proximities
    &&& post.buildings == pre.buildings
    &&& post.results == pre.results
    &&& post.game.id == pre.game.id
    &&& post.game.demo_play == pre.game.demo_play
    &&& post.game.corrupted_players == pre.game.corrupted_players
    &&& if win != WinResult::Null {
        &&& post.game.status == GameStatus::End
        &&& post.game.time == (Time { round: pre.game.time.round, timer: END_TIMER })
        &&& post.game.win_result == win
    } else {
        &&& post.game.status == GameStatus::Tasks
        &&& post.game.time == (Time {
            round: (pre.game.time.round + 1) as u32,
            timer: TASKS_TIMER,
        })
        &&& post.game.win_result == WinResult::Null
    }
}

/// The whole effect of a controller tick that observes the end cooldown at
/// timer zero: the finished game is erased — results gone, players wiped,
/// roster and snapshots cleared — and a fresh game waits in the lobby.
pub open spec fn end_resolved(pre: World, post: World) -> bool {
    &&& post.results@.len() == 0
    &&& post.roster@.len() == 0
    &&& post.proximities@.len() == 0
    &&& post.players@.len() == pre.players@.len()
    &&& forall|i: int|
        0 <= i < pre.players@.len() ==> #[trigger] post.players@[i] == wiped_player(
            pre.players@[i],
        )
    &&& post.game.id@.len() == 32
    &&& post.game.status == GameStatus::Lobby
    &&& post.game.time == (Time { round: 0u32, timer: 0u32 })
    &&& post.game.win_result == WinResult::Null
    &&& post.game.corrupted_players@.len() == 0
    &&& post.game.demo_play == false
    &&& post.buildings == pre.buildings
    &&& post.tasks == pre.tasks
    &&& post.actions == pre.actions
    &&& post.votes == pre.votes
}

/// One controller tick. In the lobby it waits. In a task or vote phase with
/// everyone done early it forces the timer to zero — resolution itself waits
/// for the next tick that observes zero, so no tick resolves twice. At timer
/// zero it resolves the phase as `tasks_resolved`, `vote_resolved`,
/// `vote_result_resolved` and `end_resolved` say. Only a missing vote result
/// at the result display is an error, and it changes nothing.
pub fn update_logic(w: &mut World) -> (outcome: Result<(), JobError>)
    requires
        old(w).wf(),
        old(w).game.status == GameStatus::VoteResult && old(w).game.time.timer == 0 ==> old(
            w,
        ).game.time.round < 0xffff_ffffu32,
    ensures
        final(w).wf(),
        match outcome {
            Ok(()) => match old(w).game.status {
                GameStatus::Null => *final(w) == *old(w),
                GameStatus::Lobby => *final(w) == *old(w),
                GameStatus::Tasks => {
                    if all_tasks_in(*old(w)) && old(w).game.time.timer > 0 {
                        timer_zeroed(*old(w), *final(w))
                    } else if old(w).game.time.timer == 0 {
                        tasks_resolved(*old(w), *final(w))
                    } else {
                        *final(w) == *old(w)
                    }
                },
                GameStatus::Vote => {
                    if all_votes_in(*old(w)) && old(w).game.time.timer > 0 {
                        timer_zeroed(*old(w), *final(w))
                    } else if old(w).game.time.timer == 0 {
                        vote_resolved(*old(w), *final(w))
                    } else {
                        *final(w) == *old(w)
                    }
                },
                GameStatus::VoteResult => {
                    if old(w).game.time.timer == 0 {
                        vote_result_resolved(*old(w), *final(w))
                    } else {
                        *final(w) == *old(w)
                    }
                },
                GameStatus::End => {
                    if old(w).game.time.timer == 0 {
                        end_resolved(*old(w), *final(w))
                    } else {
                        *final(w) == *old(w)
                    }
                },
            },
            Err(e) => {
                &&& e == JobError::Unknown
                &&& *final(w) == *old(w)
                &&& old(w).game.status == GameStatus::VoteResult
                &&& old(w).game.time.timer == 0
                &&& !has_result(old(w).results@, old(w).game.time.round, GameStatus::Vote)
            },
        },
{
    let status = w.game.status;
    match status {
        GameStatus::Null => Ok(()),
        GameStatus::Lobby => Ok(()),
        GameStatus::Tasks => {
            let all_in = check_all_tasks_in(w);
            if all_in && w.game.time.timer > 0 {
                let round = w.game.time.round;
                w.game.time = Time { round, timer: 0 };
                return Ok(());
            }
            if w.game.time.timer == 0 {
                let round = w.game.time.round;
                set_task_result(w);
                proof {
                    let rr = choose|rr: RoundResult|
                        #[trigger] is_task_result(
                            rr,
                            roster_players(old(w).roster@, old(w).players@),
                            old(w).tasks@,
                            old(w).actions@,
                            old(w).players@,
                            round,
                            old(w).game.demo_play,
                        ) && w.results@ == upsert_result(old(w).results@, rr);
                    lemma_upsert_result_unique(old(w).results@, rr);
                }
                let win = match check_end_game_condition(w) {
                    Ok(v) => v,
                    Err(_) => {
                        proof {
                            assert(false);
                        }
                        vstd::pervasive::unreached()
                    },
                };
                match reset_round(w) {
                    Ok(()) => {},
                    Err(_) => {
                        proof {
                            assert(false);
                        }
                        vstd::pervasive::unreached()
                    },
                }
                if !(win == WinResult::Null) {
                    w.game.status = GameStatus::End;
                    w.game.time = Time { round, timer: END_TIMER };
                    w.game.win_result = win;
                } else {
                    w.game.status = GameStatus::Vote;
                    w.game.time = Time { round, timer: VOTE_TIMER };
                    w.game.win_result = WinResult::Null;
                }
                return Ok(());
            }
            Ok(())
        },
        GameStatus::Vote => {
            let all_in = check_all_votes_in(w);
            if all_in && w.game.time.timer > 0 {
                let round = w.game.time.round;
                w.game.time = Time { round, timer: 0 };
                return Ok(());
            }
            if w.game.time.timer == 0 {
                let round = w.game.time.round;
                set_vote_result(w);
                w.game.status = GameStatus::VoteResult;
                w.game.time = Time { round, timer: VOTE_RESULT_TIMER };
                w.game.win_result = WinResult::Null;
                return Ok(());
            }
            Ok(())
        },
        GameStatus::VoteResult => {
            if w.game.time.timer == 0 {
                let round = w.game.time.round;
                let win = match check_end_game_condition(w) {
                    Ok(v) => v,
                    Err(e) => {
                        return Err(e);
                    },
                };
                match reset_round(w) {
                    Ok(()) => {},
                    Err(_) => {
                        proof {
                            assert(false);
                        }
                        vstd::pervasive::unreached()
                    },
                }
                if !(win == WinResult::Null) {
                    w.game.status = GameStatus::End;
                    w.game.time = Time { round, timer: END_TIMER };
                    w.game.win_result = win;
                } else {
                    w.game.status = GameStatus::Tasks;
                    w.game.time = Time { round: round + 1, timer: TASKS_TIMER };
                    w.game.win_result = WinResult::Null;
                }
                return Ok(());
            }
            Ok(())
        },
        GameStatus::End => {
            if w.game.time.timer == 0 {
                reset_to_new_game(w);
            }
            Ok(())
        },
    }
}

} // verus!
