//! In-memory model of the store's contents: the game record, the registered
//! players, the roster index of the current game, the buildings, the
//! per-player proximity snapshots, the per-round vote/task/action ledgers and
//! the round results. Well-formedness fixes the at-most-one-record-per-actor
//! invariant of the ledgers.

use vstd::prelude::*;

verus! {

use crate::types::{
    Player, Building, PlayerProximity, Task, Action, Vote, RoundResult, Game, ActionStatus,
    GameStatus,
};

/// A player's proximity snapshot, keyed by the player's id.
pub struct ProximityRecord {
    pub player_id: String,
    pub proximity: PlayerProximity,
}

/// Everything the game keeps in the store.
pub struct World {
    pub game: Game,
    /// Every registered player.
    pub players: Vec<Player>,
    /// Ids of the players active in the current game.
    pub roster: Vec<String>,
    pub buildings: Vec<Building>,
    pub proximities: Vec<ProximityRecord>,
    pub tasks: Vec<Task>,
    pub actions: Vec<Action>,
    pub votes: Vec<Vote>,
    pub results: Vec<RoundResult>,
}

pub open spec fn has_player(players: Seq<Player>, id: Seq<char>) -> bool {
    exists|i: int| 0 <= i < players.len() && #[trigger] players[i].id@ == id
}

pub open spec fn player_index(players: Seq<Player>, id: Seq<char>) -> int {
    choose|i: int| 0 <= i < players.len() && #[trigger] players[i].id@ == id
}

/// The player record carrying the given id (meaningful under unique ids).
pub open spec fn the_player(players: Seq<Player>, id: Seq<char>) -> Player {
    players[player_index(players, id)]
}

pub open spec fn unique_player_ids(players: Seq<Player>) -> bool {
    forall|i: int, j: int|
        0 <= i < j < players.len() ==> #[trigger] players[i].id@ != #[trigger] players[j].id@
}

pub open spec fn unique_ids(ids: Seq<String>) -> bool {
    forall|i: int, j: int| 0 <= i < j < ids.len() ==> #[trigger] ids[i]@ != #[trigger] ids[j]@
}

pub open spec fn roster_has(roster: Seq<String>, id: Seq<char>) -> bool {
    exists|i: int| 0 <= i < roster.len() && #[trigger] roster[i]@ == id
}

pub open spec fn has_vote(votes: Seq<Vote>, round: u32, voter: Seq<char>) -> bool {
    exists|i: int|
        0 <= i < votes.len() && (#[trigger] votes[i]).round == round && votes[i].voter@ == voter
}

pub open spec fn unique_votes(votes: Seq<Vote>) -> bool {
    forall|i: int, j: int|
        0 <= i < j < votes.len() ==> !((#[trigger] votes[i]).round == (#[trigger] votes[j]).round
            && votes[i].voter@ == votes[j].voter@)
}

pub open spec fn task_is_for(t: Task, round: u32, assignee: Seq<char>) -> bool {
    t.round == round && (t.assignee matches Some(a) && a@ == assignee)
}

pub open spec fn has_task(tasks: Seq<Task>, round: u32, assignee: Seq<char>) -> bool {
    exists|i: int| 0 <= i < tasks.len() && task_is_for(#[trigger] tasks[i], round, assignee)
}

pub open spec fn unique_tasks(tasks: Seq<Task>) -> bool {
    forall|i: int, j: int|
        0 <= i < j < tasks.len() ==> !((#[trigger] tasks[i]).round == (#[trigger] tasks[j]).round
            && tasks[i].assignee is Some && tasks[j].assignee is Some
            && tasks[i].assignee.unwrap()@ == tasks[j].assignee.unwrap()@)
}

pub open spec fn has_action(actions: Seq<Action>, round: u32, actor: Seq<char>) -> bool {
    exists|i: int|
        0 <= i < actions.len() && (#[trigger] actions[i]).round == round && actions[i].actor@
            == actor
}

pub open spec fn unique_actions(actions: Seq<Action>) -> bool {
    forall|i: int, j: int|
        0 <= i < j < actions.len() ==> !((#[trigger] actions[i]).round
            == (#[trigger] actions[j]).round && actions[i].actor@ == actions[j].actor@)
}

pub open spec fn has_result(results: Seq<RoundResult>, round: u32, kind: GameStatus) -> bool {
    exists|i: int|
        0 <= i < results.len() && (#[trigger] results[i]).round == round && results[i].round_type
            == kind
}

pub open spec fn unique_results(results: Seq<RoundResult>) -> bool {
    forall|i: int, j: int|
        0 <= i < j < results.len() ==> !((#[trigger] results[i]).round
            == (#[trigger] results[j]).round && results[i].round_type == results[j].round_type)
}

impl World {
    /// Well-formedness of the store's contents. In particular: player ids are
    /// unique, the roster holds distinct registered players, and each ledger
    /// holds at most one record per round and actor.
    pub open spec fn wf(&self) -> bool {
        &&& unique_player_ids(self.players@)
        &&& unique_ids(self.roster@)
        &&& forall|i: int|
            0 <= i < self.roster@.len() ==> has_player(self.players@, #[trigger] self.roster@[i]@)
        &&& unique_votes(self.votes@)
        &&& forall|i: int|
            0 <= i < self.votes@.len() ==> has_player(
                self.players@,
                (#[trigger] self.votes@[i]).candidate@,
            )
        &&& unique_tasks(self.tasks@)
        &&& forall|i: int|
            0 <= i < self.tasks@.len() ==> (#[trigger] self.tasks@[i]).assignee is Some
                && self.tasks@[i].destination is Some
        &&& unique_actions(self.actions@)
        &&& forall|i: int|
            0 <= i < self.actions@.len() ==> has_player(
                self.players@,
                (#[trigger] self.actions@[i]).poison_target@,
            )
        &&& unique_proximities(self.proximities@)
        &&& unique_results(self.results@)
    }
}

/// Under unique ids, an index holding the sought id is the only one, so it is
/// the index the `the_player` projection speaks of.
pub proof fn lemma_player_index_unique(players: Seq<Player>, id: Seq<char>, i: int)
    requires
        unique_player_ids(players),
        0 <= i < players.len(),
        players[i].id@ == id,
    ensures
        has_player(players, id),
        player_index(players, id) == i,
        the_player(players, id) == players[i],
{
    assert(has_player(players, id));
    let j = player_index(players, id);
    if i < j {
        assert(players[i].id@ != players[j].id@);
    } else if j < i {
        assert(players[j].id@ != players[i].id@);
    }
}

/// Finds the registered player carrying the given id.
pub fn find_player(players: &Vec<Player>, id: &String) -> (found: Option<usize>)
    ensures
        match found {
            Some(i) => i < players@.len() && players@[i as int].id@ == id@,
            None => !has_player(players@, id@),
        },
{
    let n = players.len();
    let mut i: usize = 0;
    while i < n
        invariant
            i <= n,
            n == players@.len(),
            forall|j: int| 0 <= j < i ==> #[trigger] players@[j].id@ != id@,
        decreases n - i,
    {
        if players[i].id == *id {
            return Some(i);
        }
        i = i + 1;
    }
    None
}

/// Whether the roster index holds the given id.
pub fn roster_contains(roster: &Vec<String>, id: &String) -> (present: bool)
    ensures
        present == roster_has(roster@, id@),
{
    let n = roster.len();
    let mut i: usize = 0;
    while i < n
        invariant
            i <= n,
            n == roster@.len(),
            forall|j: int| 0 <= j < i ==> #[trigger] roster@[j]@ != id@,
        decreases n - i,
    {
        if roster[i] == *id {
            return true;
        }
        i = i + 1;
    }
    false
}

/// Finds the vote cast by the given voter in the given round.
pub fn find_vote(votes: &Vec<Vote>, round: u32, voter: &String) -> (found: Option<usize>)
    ensures
        match found {
            Some(i) => i < votes@.len() && votes@[i as int].round == round
                && votes@[i as int].voter@ == voter@,
            None => !has_vote(votes@, round, voter@),
        },
{
    let n = votes.len();
    let mut i: usize = 0;
    while i < n
        invariant
            i <= n,
            n == votes@.len(),
            forall|j: int|
                0 <= j < i ==> !((#[trigger] votes@[j]).round == round && votes@[j].voter@
                    == voter@),
        decreases n - i,
    {
        if votes[i].round == round && votes[i].voter == *voter {
            return Some(i);
        }
        i = i + 1;
    }
    None
}

/// Finds the task assigned to the given player for the given round.
pub fn find_task(tasks: &Vec<Task>, round: u32, assignee: &String) -> (found: Option<usize>)
    ensures
        match found {
            Some(i) => i < tasks@.len() && task_is_for(tasks@[i as int], round, assignee@),
            None => !has_task(tasks@, round, assignee@),
        },
{
    let n = tasks.len();
    let mut i: usize = 0;
    while i < n
        invariant
            i <= n,
            n == tasks@.len(),
            forall|j: int| 0 <= j < i ==> !task_is_for(#[trigger] tasks@[j], round, assignee@),
        decreases n - i,
    {
        let matches_key = tasks[i].round == round && match &tasks[i].assignee {
            Some(a) => *a == *assignee,
            None => false,
        };
        if matches_key {
            return Some(i);
        }
        i = i + 1;
    }
    None
}

/// Finds the sabotage declared by the given actor in the given round.
pub fn find_action(actions: &Vec<Action>, round: u32, actor: &String) -> (found: Option<usize>)
    ensures
        match found {
            Some(i) => i < actions@.len() && actions@[i as int].round == round
                && actions@[i as int].actor@ == actor@,
            None => !has_action(actions@, round, actor@),
        },
{
    let n = actions.len();
    let mut i: usize = 0;
    while i < n
        invariant
            i <= n,
            n == actions@.len(),
            forall|j: int|
                0 <= j < i ==> !((#[trigger] actions@[j]).round == round && actions@[j].actor@
                    == actor@),
        decreases n - i,
    {
        if actions[i].round == round && actions[i].actor == *actor {
            return Some(i);
        }
        i = i + 1;
    }
    None
}

/// Finds the proximity snapshot of the given player.
pub fn find_proximity(proximities: &Vec<ProximityRecord>, id: &String) -> (found: Option<usize>)
    ensures
        match found {
            Some(i) => i < proximities@.len() && proximities@[i as int].player_id@ == id@,
            None => forall|j: int|
                0 <= j < proximities@.len() ==> #[trigger] proximities@[j].player_id@ != id@,
        },
{
    let n = proximities.len();
    let mut i: usize = 0;
    while i < n
        invariant
            i <= n,
            n == proximities@.len(),
            forall|j: int| 0 <= j < i ==> #[trigger] proximities@[j].player_id@ != id@,
        decreases n - i,
    {
        if proximities[i].player_id == *id {
            return Some(i);
        }
        i = i + 1;
    }
    None
}

/// Finds the result the given round's phase produced.
pub fn find_result(results: &Vec<RoundResult>, round: u32, kind: GameStatus) -> (found: Option<
    usize,
>)
    ensures
        match found {
            Some(i) => i < results@.len() && results@[i as int].round == round
                && results@[i as int].round_type == kind,
            None => !has_result(results@, round, kind),
        },
{
    let n = results.len();
    let mut i: usize = 0;
    while i < n
        invariant
            i <= n,
            n == results@.len(),
            forall|j: int|
                0 <= j < i ==> !((#[trigger] results@[j]).round == round && results@[j].round_type
                    == kind),
        decreases n - i,
    {
        if results[i].round == round && results[i].round_type == kind {
            return Some(i);
        }
        i = i + 1;
    }
    None
}

/// Reads the most recent round result: the current round's vote result if
/// that phase was already resolved, else its task result.
pub fn get_result(w: &World) -> (found: Result<RoundResult, crate::errors::GameError>)
    requires
        w.wf(),
    ensures
        match found {
            Ok(rr) => {
                let kind = if has_result(w.results@, w.game.time.round, GameStatus::Vote) {
                    GameStatus::Vote
                } else {
                    GameStatus::Tasks
                };
                &&& has_result(w.results@, w.game.time.round, kind)
                &&& rr.round == w.game.time.round
                &&& rr.round_type == kind
                &&& rr.eliminated@ == the_result(w.results@, w.game.time.round, kind).eliminated@
                &&& rr.tasks_completed@ == the_result(
                    w.results@,
                    w.game.time.round,
                    kind,
                ).tasks_completed@
            },
            Err(e) => {
                &&& e == crate::errors::GameError::NotFound
                &&& !has_result(w.results@, w.game.time.round, GameStatus::Vote)
                &&& !has_result(w.results@, w.game.time.round, GameStatus::Tasks)
            },
        },
{
    let round = w.game.time.round;
    match find_result(&w.results, round, GameStatus::Vote) {
        Some(i) => {
            proof {
                lemma_result_index_unique(w.results@, round, GameStatus::Vote, i as int);
            }
            Ok(w.results[i].clone())
        },
        None => {
            match find_result(&w.results, round, GameStatus::Tasks) {
                Some(i) => {
                    proof {
                        lemma_result_index_unique(w.results@, round, GameStatus::Tasks, i as int);
                    }
                    Ok(w.results[i].clone())
                },
                None => Err(crate::errors::GameError::NotFound),
            }
        },
    }
}

/// The active players of the current game, in roster order.
pub open spec fn roster_players(roster: Seq<String>, players: Seq<Player>) -> Seq<Player> {
    Seq::new(roster.len(), |i: int| the_player(players, roster[i]@))
}

/// Collects the player records of the roster, in roster order.
pub fn active_players(w: &World) -> (active: Vec<Player>)
    requires
        w.wf(),
    ensures
        active@ == roster_players(w.roster@, w.players@),
{
    let n = w.roster.len();
    let mut active: Vec<Player> = Vec::new();
    let mut i: usize = 0;
    while i < n
        invariant
            i <= n,
            n == w.roster@.len(),
            w.wf(),
            active@.len() == i,
            forall|j: int|
                0 <= j < i ==> #[trigger] active@[j] == the_player(w.players@, w.roster@[j]@),
        decreases n - i,
    {
        let found = find_player(&w.players, &w.roster[i]);
        match found {
            Some(k) => {
                proof {
                    lemma_player_index_unique(w.players@, w.roster@[i as int]@, k as int);
                }
                active.push(w.players[k].clone());
            },
            None => {
                proof {
                    assert(has_player(w.players@, w.roster@[i as int]@));
                }
                // unreachable: every roster id is registered
                assert(false);
            },
        }
        i = i + 1;
    }
    proof {
        assert(active@ =~= roster_players(w.roster@, w.players@));
    }
    active
}

pub open spec fn task_index(tasks: Seq<Task>, round: u32, id: Seq<char>) -> int {
    choose|i: int| 0 <= i < tasks.len() && task_is_for(#[trigger] tasks[i], round, id)
}

/// The task of the given round and assignee (meaningful under `unique_tasks`).
pub open spec fn the_task(tasks: Seq<Task>, round: u32, id: Seq<char>) -> Task {
    tasks[task_index(tasks, round, id)]
}

/// Under unique task keys, an index holding the sought key is the one that
/// `the_task` speaks of.
pub proof fn lemma_task_index_unique(tasks: Seq<Task>, round: u32, id: Seq<char>, i: int)
    requires
        unique_tasks(tasks),
        0 <= i < tasks.len(),
        task_is_for(tasks[i], round, id),
    ensures
        has_task(tasks, round, id),
        task_index(tasks, round, id) == i,
        the_task(tasks, round, id) == tasks[i],
{
    assert(has_task(tasks, round, id));
    let j = task_index(tasks, round, id);
    if i < j {
        assert(!(tasks[i].round == tasks[j].round && tasks[i].assignee is Some
            && tasks[j].assignee is Some && tasks[i].assignee.unwrap()@
            == tasks[j].assignee.unwrap()@));
    } else if j < i {
        assert(!(tasks[j].round == tasks[i].round && tasks[j].assignee is Some
            && tasks[i].assignee is Some && tasks[j].assignee.unwrap()@
            == tasks[i].assignee.unwrap()@));
    }
}

pub open spec fn action_index(actions: Seq<Action>, round: u32, actor: Seq<char>) -> int {
    choose|i: int|
        0 <= i < actions.len() && (#[trigger] actions[i]).round == round && actions[i].actor@
            == actor
}

/// The sabotage of the given round and actor (meaningful under
/// `unique_actions`).
pub open spec fn the_action(actions: Seq<Action>, round: u32, actor: Seq<char>) -> Action {
    actions[action_index(actions, round, actor)]
}

/// Under unique action keys, an index holding the sought key is the one that
/// `the_action` speaks of.
pub proof fn lemma_action_index_unique(actions: Seq<Action>, round: u32, actor: Seq<char>, i: int)
    requires
        unique_actions(actions),
        0 <= i < actions.len(),
        actions[i].round == round,
        actions[i].actor@ == actor,
    ensures
        has_action(actions, round, actor),
        action_index(actions, round, actor) == i,
        the_action(actions, round, actor) == actions[i],
{
    assert(has_action(actions, round, actor));
    let j = action_index(actions, round, actor);
    if i < j {
        assert(!(actions[i].round == actions[j].round && actions[i].actor@ == actions[j].actor@));
    } else if j < i {
        assert(!(actions[j].round == actions[i].round && actions[j].actor@ == actions[i].actor@));
    }
}

pub open spec fn unique_proximities(proximities: Seq<ProximityRecord>) -> bool {
    forall|i: int, j: int|
        0 <= i < j < proximities.len() ==> #[trigger] proximities[i].player_id@
            != #[trigger] proximities[j].player_id@
}

pub open spec fn has_proximity(proximities: Seq<ProximityRecord>, id: Seq<char>) -> bool {
    exists|i: int| 0 <= i < proximities.len() && #[trigger] proximities[i].player_id@ == id
}

pub open spec fn proximity_index(proximities: Seq<ProximityRecord>, id: Seq<char>) -> int {
    choose|i: int| 0 <= i < proximities.len() && #[trigger] proximities[i].player_id@ == id
}

/// The proximity snapshot of the given player (meaningful under
/// `unique_proximities`).
pub open spec fn the_proximity(
    proximities: Seq<ProximityRecord>,
    id: Seq<char>,
) -> PlayerProximity {
    proximities[proximity_index(proximities, id)].proximity
}

/// Under unique snapshot ids, an index holding the sought id is the one that
/// `the_proximity` speaks of.
pub proof fn lemma_proximity_index_unique(proximities: Seq<ProximityRecord>, id: Seq<char>, i: int)
    requires
        unique_proximities(proximities),
        0 <= i < proximities.len(),
        proximities[i].player_id@ == id,
    ensures
        has_proximity(proximities, id),
        proximity_index(proximities, id) == i,
        the_proximity(proximities, id) == proximities[i].proximity,
{
    assert(has_proximity(proximities, id));
    let j = proximity_index(proximities, id);
    if i < j {
        assert(proximities[i].player_id@ != proximities[j].player_id@);
    } else if j < i {
        assert(proximities[j].player_id@ != proximities[i].player_id@);
    }
}

pub open spec fn result_index(results: Seq<RoundResult>, round: u32, kind: GameStatus) -> int {
    choose|i: int|
        0 <= i < results.len() && (#[trigger] results[i]).round == round && results[i].round_type
            == kind
}

/// The result a given round's phase produced (meaningful under
/// `unique_results`).
pub open spec fn the_result(results: Seq<RoundResult>, round: u32, kind: GameStatus) -> RoundResult {
    results[result_index(results, round, kind)]
}

/// Under unique result keys, an index holding the sought key is the one that
/// `the_result` speaks of.
pub proof fn lemma_result_index_unique(
    results: Seq<RoundResult>,
    round: u32,
    kind: GameStatus,
    i: int,
)
    requires
        unique_results(results),
        0 <= i < results.len(),
        results[i].round == round,
        results[i].round_type == kind,
    ensures
        has_result(results, round, kind),
        result_index(results, round, kind) == i,
        the_result(results, round, kind) == results[i],
{
    assert(has_result(results, round, kind));
    let j = result_index(results, round, kind);
    if i < j {
        assert(!(results[i].round == results[j].round && results[i].round_type
            == results[j].round_type));
    } else if j < i {
        assert(!(results[j].round == results[i].round && results[j].round_type
            == results[i].round_type));
    }
}

/// A round result as stored: replacing the record of the same round and
/// phase, or standing beside the others.
pub open spec fn upsert_result(results: Seq<RoundResult>, rr: RoundResult) -> Seq<RoundResult> {
    if has_result(results, rr.round, rr.round_type) {
        results.update(result_index(results, rr.round, rr.round_type), rr)
    } else {
        results.push(rr)
    }
}

/// Storing a result keeps the round results duplicate-free, and the stored
/// record is then what its key resolves to.
pub proof fn lemma_upsert_result_unique(results: Seq<RoundResult>, rr: RoundResult)
    requires
        unique_results(results),
    ensures
        unique_results(upsert_result(results, rr)),
        has_result(upsert_result(results, rr), rr.round, rr.round_type),
        the_result(upsert_result(results, rr), rr.round, rr.round_type) == rr,
{
    let out = upsert_result(results, rr);
    lemma_upsert_result_pairwise(results, rr);
    if has_result(results, rr.round, rr.round_type) {
        let k = result_index(results, rr.round, rr.round_type);
        assert(out[k] == rr);
        lemma_result_index_unique(out, rr.round, rr.round_type, k);
    } else {
        assert(out[results.len() as int] == rr);
        lemma_result_index_unique(out, rr.round, rr.round_type, results.len() as int);
    }
}

proof fn lemma_upsert_result_pairwise(results: Seq<RoundResult>, rr: RoundResult)
    requires
        unique_results(results),
    ensures
        unique_results(upsert_result(results, rr)),
{
    let out = upsert_result(results, rr);
    if has_result(results, rr.round, rr.round_type) {
        let k = result_index(results, rr.round, rr.round_type);
        assert(0 <= k < results.len() && results[k].round == rr.round && results[k].round_type
            == rr.round_type);
        assert forall|i: int, j: int|
            0 <= i < j < out.len() implies !((#[trigger] out[i]).round == (#[trigger] out[j]).round
            && out[i].round_type == out[j].round_type) by {
            if i != k && j != k {
                assert(out[i] == results[i] && out[j] == results[j]);
            } else if i == k {
                assert(out[j] == results[j]);
                if out[j].round == rr.round && out[j].round_type == rr.round_type {
                    assert(!(results[k].round == results[j].round && results[k].round_type
                        == results[j].round_type));
                }
            } else {
                assert(out[i] == results[i]);
                if out[i].round == rr.round && out[i].round_type == rr.round_type {
                    assert(!(results[i].round == results[k].round && results[i].round_type
                        == results[k].round_type));
                }
            }
        }
    } else {
        assert forall|i: int, j: int|
            0 <= i < j < out.len() implies !((#[trigger] out[i]).round == (#[trigger] out[j]).round
            && out[i].round_type == out[j].round_type) by {
            if j == results.len() as int {
                if out[i].round == rr.round && out[i].round_type == rr.round_type {
                    assert(0 <= i < results.len() && results[i].round == rr.round
                        && results[i].round_type == rr.round_type);
                }
            }
        }
    }
}

/// A player record with only its progress marker updated.
pub open spec fn with_used(p: Player, marker: ActionStatus) -> Player {
    Player { used_action: marker, ..p }
}

/// A player record with its progress marker and last acted round updated.
pub open spec fn with_marker(p: Player, marker: ActionStatus, round: u32) -> Player {
    Player { used_action: marker, last_round_action: Some(round), ..p }
}

/// Two player lists with pointwise equal ids resolve the same ids and agree
/// on id uniqueness.
pub proof fn lemma_ids_preserved(a: Seq<Player>, b: Seq<Player>)
    requires
        a.len() == b.len(),
        forall|i: int| 0 <= i < a.len() ==> a[i].id@ == b[i].id@,
    ensures
        forall|x: Seq<char>| has_player(a, x) == has_player(b, x),
        unique_player_ids(a) == unique_player_ids(b),
{
    assert forall|x: Seq<char>| has_player(a, x) == has_player(b, x) by {
        if has_player(a, x) {
            let i = choose|i: int| 0 <= i < a.len() && a[i].id@ == x;
            assert(b[i].id@ == x);
        }
        if has_player(b, x) {
            let i = choose|i: int| 0 <= i < b.len() && b[i].id@ == x;
            assert(a[i].id@ == x);
        }
    }
}

/// A fresh vote whose round and voter are not yet in the ledger keeps it
/// duplicate-free.
pub proof fn lemma_push_vote_unique(votes: Seq<Vote>, v: Vote)
    requires
        unique_votes(votes),
        !has_vote(votes, v.round, v.voter@),
    ensures
        unique_votes(votes.push(v)),
{
    let vs = votes.push(v);
    assert forall|i: int, j: int|
        0 <= i < j < vs.len() implies !((#[trigger] vs[i]).round == (#[trigger] vs[j]).round
        && vs[i].voter@ == vs[j].voter@) by {
        if j == votes.len() as int {
            if vs[i].round == v.round && vs[i].voter@ == v.voter@ {
                assert(0 <= i < votes.len() && votes[i].round == v.round && votes[i].voter@
                    == v.voter@);
            }
        }
    }
}

/// A fresh task whose round and assignee are not yet in the ledger keeps it
/// duplicate-free.
pub proof fn lemma_push_task_unique(tasks: Seq<Task>, t: Task, round: u32, id: Seq<char>)
    requires
        unique_tasks(tasks),
        task_is_for(t, round, id),
        !has_task(tasks, round, id),
    ensures
        unique_tasks(tasks.push(t)),
{
    let ts = tasks.push(t);
    assert forall|i: int, j: int|
        0 <= i < j < ts.len() implies !((#[trigger] ts[i]).round == (#[trigger] ts[j]).round
        && ts[i].assignee is Some && ts[j].assignee is Some && ts[i].assignee.unwrap()@
        == ts[j].assignee.unwrap()@) by {
        if j == tasks.len() as int {
            if ts[i].round == t.round && ts[i].assignee is Some && t.assignee is Some
                && ts[i].assignee.unwrap()@ == t.assignee.unwrap()@ {
                assert(task_is_for(tasks[i], round, id));
                assert(has_task(tasks, round, id));
            }
        }
    }
}

/// A fresh sabotage whose round and actor are not yet in the ledger keeps it
/// duplicate-free.
pub proof fn lemma_push_action_unique(actions: Seq<Action>, a: Action)
    requires
        unique_actions(actions),
        !has_action(actions, a.round, a.actor@),
    ensures
        unique_actions(actions.push(a)),
{
    let xs = actions.push(a);
    assert forall|i: int, j: int|
        0 <= i < j < xs.len() implies !((#[trigger] xs[i]).round == (#[trigger] xs[j]).round
        && xs[i].actor@ == xs[j].actor@) by {
        if j == actions.len() as int {
            if xs[i].round == a.round && xs[i].actor@ == a.actor@ {
                assert(0 <= i < actions.len() && actions[i].round == a.round && actions[i].actor@
                    == a.actor@);
            }
        }
    }
}

/// Updating one player's record, keeping their id, leaves every other
/// lookup untouched and resolves that id to the new record.
pub proof fn lemma_the_player_update(players: Seq<Player>, k: int, q: Player)
    requires
        unique_player_ids(players),
        0 <= k < players.len(),
        q.id@ == players[k].id@,
    ensures
        unique_player_ids(players.update(k, q)),
        forall|x: Seq<char>|
            has_player(players, x) == has_player(#[trigger] players.update(k, q), x),
        forall|x: Seq<char>|
            x != players[k].id@ && has_player(players, x) ==> the_player(
                #[trigger] players.update(k, q),
                x,
            ) == the_player(players, x),
        the_player(players.update(k, q), players[k].id@) == q,
{
    let out = players.update(k, q);
    assert forall|i: int| 0 <= i < players.len() implies players[i].id@ == #[trigger] out[i].id@
        by {}
    lemma_ids_preserved(players, out);
    assert forall|x: Seq<char>|
        x != players[k].id@ && has_player(players, x) implies the_player(
        #[trigger] players.update(k, q),
        x,
    ) == the_player(players, x) by {
        let i = player_index(players, x);
        assert(0 <= i < players.len() && players[i].id@ == x);
        assert(i != k);
        assert(out[i].id@ == x);
        lemma_player_index_unique(out, x, i);
    }
    assert(out[k].id@ == players[k].id@);
    lemma_player_index_unique(out, players[k].id@, k);
}

/// At most one vote stands per round and voter: two vote records agreeing on
/// round and voter are the same record.
pub proof fn lemma_at_most_one_vote(w: World, i: int, j: int)
    requires
        w.wf(),
        0 <= i < w.votes@.len(),
        0 <= j < w.votes@.len(),
        w.votes@[i].round == w.votes@[j].round,
        w.votes@[i].voter@ == w.votes@[j].voter@,
    ensures
        i == j,
{
}

/// At most one task stands per round and assignee.
pub proof fn lemma_at_most_one_task(w: World, i: int, j: int, round: u32, id: Seq<char>)
    requires
        w.wf(),
        0 <= i < w.tasks@.len(),
        0 <= j < w.tasks@.len(),
        task_is_for(w.tasks@[i], round, id),
        task_is_for(w.tasks@[j], round, id),
    ensures
        i == j,
{
}

/// At most one sabotage stands per round and actor.
pub proof fn lemma_at_most_one_action(w: World, i: int, j: int)
    requires
        w.wf(),
        0 <= i < w.actions@.len(),
        0 <= j < w.actions@.len(),
        w.actions@[i].round == w.actions@[j].round,
        w.actions@[i].actor@ == w.actions@[j].actor@,
    ensures
        i == j,
{
}

} // verus!
