//! The action ledger: idempotent submission of votes, tasks and sabotage,
//! one record per player and round, validated against phase, roster and
//! proximity before anything is written.

use vstd::prelude::*;

verus! {

use vstd::pervasive::VecAdditionalExecFns;
use crate::types::{
    Action, ActionStatus, Building, GameStatus, Game, NearbyPlayer, Player, Role, Task, Vote,
    clone_opt_string,
};
use crate::errors::GameError;
use crate::world::{
    World, action_index, has_action, has_player, has_proximity, has_task, has_vote, player_index,
    roster_has, task_index, task_is_for, the_action, the_player, the_proximity, the_task,
    with_marker, with_used, find_action, find_player, find_proximity, find_task, find_vote,
    roster_contains, lemma_action_index_unique, lemma_ids_preserved, lemma_player_index_unique,
    lemma_proximity_index_unique, lemma_push_action_unique, lemma_push_task_unique,
    lemma_push_vote_unique, lemma_task_index_unique,
};

/// Credentials attached to a vote submission.
pub struct VoteQuery {
    pub player_id: String,
    pub secret_key: String,
}

/// Credentials attached to a task submission.
pub struct TaskQuery {
    pub player_id: String,
    pub secret_key: String,
}

/// Credentials attached to a sabotage submission.
pub struct ActionQuery {
    pub player_id: String,
    pub secret_key: String,
}

/// Credentials attached to a player lookup.
pub struct PlayerQuery {
    pub onchain_hash: String,
    pub secret_key: String,
}

/// Votes are accepted only during the vote phase of the same round.
pub open spec fn vote_phase_ok(g: Game, round: u32) -> bool {
    g.status == GameStatus::Vote && g.time.round == round
}

/// The vote record written for a voter: the candidate, stamped with the
/// candidate's registered display name.
pub open spec fn vote_record(players: Seq<Player>, round: u32, voter: String, candidate: String) -> Vote {
    Vote {
        voter,
        round,
        candidate,
        candidate_name: the_player(players, candidate@).display_name,
    }
}

/// Casts a vote. Accepted only in the vote phase of the matching round, from
/// a roster member, for a registered candidate, once per round; on success
/// the vote is recorded with the candidate's display name stamped in, and the
/// voter's progress marker moves to `Voted`.
pub fn post_vote(w: &mut World, round: u32, voter_id: &String, candidate_id: &String) -> (outcome:
    Result<(), GameError>)
    requires
        old(w).wf(),
    ensures
        final(w).wf(),
        match outcome {
            Ok(()) => {
                &&& vote_phase_ok(old(w).game, round)
                &&& roster_has(old(w).roster@, voter_id@)
                &&& has_player(old(w).players@, candidate_id@)
                &&& !has_vote(old(w).votes@, round, voter_id@)
                &&& final(w).votes@ == old(w).votes@.push(
                    vote_record(old(w).players@, round, *voter_id, *candidate_id),
                )
                &&& final(w).players@ == old(w).players@.update(
                    player_index(old(w).players@, voter_id@),
                    with_marker(
                        the_player(old(w).players@, voter_id@),
                        ActionStatus::Voted,
                        round,
                    ),
                )
                &&& final(w).game == old(w).game
                &&& final(w).roster == old(w).roster
                &&& final(w).buildings == old(w).buildings
                &&& final(w).proximities == old(w).proximities
                &&& final(w).tasks == old(w).tasks
                &&& final(w).actions == old(w).actions
                &&& final(w).results == old(w).results
            },
            Err(e) => {
                &&& *final(w) == *old(w)
                &&& (e == GameError::PhaseViolation || e == GameError::NotEligible || e
                    == GameError::NotFound || e == GameError::DuplicateSubmission)
                &&& (e == GameError::PhaseViolation <==> !vote_phase_ok(old(w).game, round))
                &&& (e == GameError::NotEligible <==> vote_phase_ok(old(w).game, round)
                    && !roster_has(old(w).roster@, voter_id@))
                &&& (e == GameError::NotFound <==> vote_phase_ok(old(w).game, round) && roster_has(
                    old(w).roster@,
                    voter_id@,
                ) && !has_player(old(w).players@, candidate_id@))
                &&& (e == GameError::DuplicateSubmission <==> vote_phase_ok(old(w).game, round)
                    && roster_has(old(w).roster@, voter_id@) && has_player(
                    old(w).players@,
                    candidate_id@,
                ) && has_vote(old(w).votes@, round, voter_id@))
            },
        },
{
    if !(w.game.status == GameStatus::Vote && w.game.time.round == round) {
        return Err(GameError::PhaseViolation);
    }
    if !roster_contains(&w.roster, voter_id) {
        return Err(GameError::NotEligible);
    }
    let cand_idx = match find_player(&w.players, candidate_id) {
        Some(k) => k,
        None => {
            return Err(GameError::NotFound);
        },
    };
    if find_vote(&w.votes, round, voter_id).is_some() {
        return Err(GameError::DuplicateSubmission);
    }
    let voter_idx = match find_player(&w.players, voter_id) {
        Some(k) => k,
        None => {
            proof {
                let i = choose|i: int|
                    0 <= i < w.roster@.len() && #[trigger] w.roster@[i]@ == voter_id@;
                assert(has_player(w.players@, w.roster@[i]@));
            }
            vstd::pervasive::unreached()
        },
    };
    proof {
        lemma_player_index_unique(w.players@, candidate_id@, cand_idx as int);
        lemma_player_index_unique(w.players@, voter_id@, voter_idx as int);
    }
    let ghost old_players = w.players@;
    let candidate_name = clone_opt_string(&w.players[cand_idx].display_name);
    let vote = Vote {
        voter: voter_id.clone(),
        round,
        candidate: candidate_id.clone(),
        candidate_name,
    };
    proof {
        assert(vote == vote_record(old_players, round, *voter_id, *candidate_id));
        lemma_push_vote_unique(w.votes@, vote);
    }
    w.votes.push(vote);
    let mut marked = w.players[voter_idx].clone();
    marked.used_action = ActionStatus::Voted;
    marked.last_round_action = Some(round);
    proof {
        assert(marked == with_marker(the_player(old_players, voter_id@), ActionStatus::Voted, round));
    }
    w.players.set(voter_idx, marked);
    proof {
        lemma_ids_preserved(old_players, w.players@);
    }
    Ok(())
}

/// Some registered building is a depot (not the tower).
pub open spec fn has_depot(buildings: Seq<Building>) -> bool {
    exists|j: int| 0 <= j < buildings.len() && !(#[trigger] buildings[j]).is_tower
}

/// `b` is one of the registered depots.
pub open spec fn is_depot_of(buildings: Seq<Building>, b: Building) -> bool {
    exists|j: int| 0 <= j < buildings.len() && #[trigger] buildings[j] == b && !b.is_tower
}

/// The placeholder handed to a saboteur instead of a real task: no
/// destination, only a reminder of their objective.
pub open spec fn is_saboteur_stub_task(t: Task, player: Seq<char>, round: u32) -> bool {
    &&& t.assignee matches Some(a) && a@ == player
    &&& t.destination matches Some(b) && b.id@ == Seq::<char>::empty() && !b.is_tower
        && b.task_message@ == "You have been corrupted and seek to attack others."@
    &&& t.round == round
    &&& !t.dropped_off
    &&& !t.complete
}

/// The error, if any, that reading (and lazily assigning) a task returns.
pub open spec fn get_task_error(w: World, player: Seq<char>) -> Option<GameError> {
    if w.game.status != GameStatus::Tasks {
        Some(GameError::PhaseViolation)
    } else if !roster_has(w.roster@, player) {
        Some(GameError::NotEligible)
    } else if the_player(w.players@, player).role == Some(Role::Bugged) {
        None
    } else if has_task(w.tasks@, w.game.time.round, player) {
        None
    } else if !has_depot(w.buildings@) {
        Some(GameError::NotFound)
    } else {
        None
    }
}

/// Reads a player's task for the current round. A task that does not exist
/// yet is created on first read, with its destination drawn uniformly at
/// random from the depots. A saboteur gets a placeholder task instead, and
/// nothing is stored for them.
pub fn get_task(w: &mut World, player_id: &String) -> (outcome: Result<Task, GameError>)
    requires
        old(w).wf(),
    ensures
        final(w).wf(),
        match outcome {
            Ok(t) => {
                &&& get_task_error(*old(w), player_id@) is None
                &&& roster_has(old(w).roster@, player_id@)
                &&& if the_player(old(w).players@, player_id@).role == Some(Role::Bugged) {
                    &&& is_saboteur_stub_task(t, player_id@, old(w).game.time.round)
                    &&& *final(w) == *old(w)
                } else if has_task(old(w).tasks@, old(w).game.time.round, player_id@) {
                    &&& t == the_task(old(w).tasks@, old(w).game.time.round, player_id@)
                    &&& *final(w) == *old(w)
                } else {
                    &&& t.assignee matches Some(a) && a@ == player_id@
                    &&& t.destination matches Some(b) && is_depot_of(old(w).buildings@, b)
                    &&& t.round == old(w).game.time.round
                    &&& !t.dropped_off
                    &&& !t.complete
                    &&& final(w).tasks@ == old(w).tasks@.push(t)
                    &&& final(w).game == old(w).game
                    &&& final(w).players == old(w).players
                    &&& final(w).roster == old(w).roster
                    &&& final(w).buildings == old(w).buildings
                    &&& final(w).proximities == old(w).proximities
                    &&& final(w).actions == old(w).actions
                    &&& final(w).votes == old(w).votes
                    &&& final(w).results == old(w).results
                }
            },
            Err(e) => {
                &&& *final(w) == *old(w)
                &&& get_task_error(*old(w), player_id@) == Some(e)
            },
        },
{
    if w.game.status != GameStatus::Tasks {
        return Err(GameError::PhaseViolation);
    }
    if !roster_contains(&w.roster, player_id) {
        return Err(GameError::NotEligible);
    }
    let player_idx = match find_player(&w.players, player_id) {
        Some(k) => k,
        None => {
            proof {
                let i = choose|i: int|
                    0 <= i < w.roster@.len() && #[trigger] w.roster@[i]@ == player_id@;
                assert(has_player(w.players@, w.roster@[i]@));
            }
            vstd::pervasive::unreached()
        },
    };
    proof {
        lemma_player_index_unique(w.players@, player_id@, player_idx as int);
    }
    let round = w.game.time.round;
    let is_bugged = match &w.players[player_idx].role {
        Some(r) => *r == Role::Bugged,
        None => false,
    };
    if is_bugged {
        let stub = Task {
            assignee: Some(player_id.clone()),
            destination: Some(
                Building {
                    id: String::new(),
                    readable_id: String::new(),
                    location: crate::types::Location(
                        String::new(),
                        String::new(),
                        String::new(),
                        String::new(),
                    ),
                    task_message: "You have been corrupted and seek to attack others.".to_owned(),
                    is_tower: false,
                },
            ),
            round,
            dropped_off: false,
            complete: false,
        };
        return Ok(stub);
    }
    match find_task(&w.tasks, round, player_id) {
        Some(k) => {
            proof {
                lemma_task_index_unique(w.tasks@, round, player_id@, k as int);
            }
            let existing = w.tasks[k].clone();
            return Ok(existing);
        },
        None => {},
    }
    // assign a fresh task with a random depot
    let n = w.buildings.len();
    let mut depot_idxs: Vec<usize> = Vec::new();
    let mut j: usize = 0;
    while j < n
        invariant
            j <= n,
            n == w.buildings@.len(),
            forall|k: int|
                0 <= k < depot_idxs@.len() ==> (#[trigger] depot_idxs@[k]) < n && !w.buildings@[
                    depot_idxs@[k] as int
                ].is_tower,
            depot_idxs@.len() == 0 ==> forall|m: int|
                0 <= m < j ==> (#[trigger] w.buildings@[m]).is_tower,
        decreases n - j,
    {
        if !w.buildings[j].is_tower {
            depot_idxs.push(j);
        }
        j = j + 1;
    }
    if depot_idxs.len() == 0 {
        proof {
            assert(!has_depot(w.buildings@));
        }
        return Err(GameError::NotFound);
    }
    let pick = crate::entropy::draw_index(depot_idxs.len());
    let depot = w.buildings[depot_idxs[pick]].clone();
    proof {
        assert(is_depot_of(w.buildings@, depot));
    }
    let fresh = Task {
        assignee: Some(player_id.clone()),
        destination: Some(depot),
        round,
        dropped_off: false,
        complete: false,
    };
    proof {
        lemma_push_task_unique(w.tasks@, fresh, round, player_id@);
    }
    let copy = fresh.clone();
    w.tasks.push(fresh);
    Ok(copy)
}

/// Reaching the assigned depot, not yet dropped off, is the first accepted
/// transition of a task submission.
pub open spec fn drops_at(nb: Seq<Building>, t: Task, k: int) -> bool {
    &&& !t.dropped_off
    &&& (t.destination matches Some(d) && nb[k].id@ == d.id@)
}

/// Reaching the tower, not yet complete, is the second accepted transition.
pub open spec fn completes_at(nb: Seq<Building>, t: Task, k: int) -> bool {
    !t.complete && nb[k].is_tower
}

pub open spec fn task_transition_at(nb: Seq<Building>, t: Task, k: int) -> bool {
    drops_at(nb, t, k) || completes_at(nb, t, k)
}

pub open spec fn some_task_transition(nb: Seq<Building>, t: Task) -> bool {
    exists|k: int| 0 <= k < nb.len() && #[trigger] task_transition_at(nb, t, k)
}

/// The error, if any, that a task submission returns.
pub open spec fn task_submit_error(w: World, round: u32, player: Seq<char>) -> Option<GameError> {
    if !(w.game.status == GameStatus::Tasks && w.game.time.round == round) {
        Some(GameError::PhaseViolation)
    } else if !has_player(w.players@, player) {
        Some(GameError::NotFound)
    } else if !has_task(w.tasks@, round, player) {
        Some(GameError::NotFound)
    } else if the_task(w.tasks@, round, player).complete {
        Some(GameError::DuplicateSubmission)
    } else if !crate::world::has_proximity(w.proximities@, player) {
        Some(GameError::NotFound)
    } else if !some_task_transition(
        crate::world::the_proximity(w.proximities@, player).nearby_buildings@,
        the_task(w.tasks@, round, player),
    ) {
        Some(GameError::OutOfRange)
    } else {
        None
    }
}

/// The effect of an accepted task submission: nearby building `k` is the
/// first that admits a transition, and the task (and, on completion, the
/// player's marker) is updated accordingly.
pub open spec fn task_submit_effect(
    pre: World,
    post: World,
    round: u32,
    player: Seq<char>,
    t_out: Task,
    k: int,
) -> bool {
    let nb = crate::world::the_proximity(pre.proximities@, player).nearby_buildings@;
    let t = the_task(pre.tasks@, round, player);
    let ti = task_index(pre.tasks@, round, player);
    &&& 0 <= k < nb.len()
    &&& task_transition_at(nb, t, k)
    &&& forall|m: int| 0 <= m < k ==> !task_transition_at(nb, t, m)
    &&& if drops_at(nb, t, k) {
        &&& t_out == Task { dropped_off: true, ..t }
        &&& post.tasks@ == pre.tasks@.update(ti, Task { dropped_off: true, ..t })
        &&& post.players == pre.players
    } else {
        &&& t_out == Task { complete: true, ..t }
        &&& post.tasks@ == pre.tasks@.update(ti, Task { complete: true, ..t })
        &&& post.players@ == pre.players@.update(
            player_index(pre.players@, player),
            with_marker(the_player(pre.players@, player), ActionStatus::TaskComplete, round),
        )
    }
}

/// Submits task progress. In the task phase of the matching round, the first
/// nearby building that admits a transition decides it: the assigned depot
/// marks the task dropped off; the tower marks it complete and moves the
/// player's progress marker to `TaskComplete`. A task already complete is
/// rejected, and a player near neither building is out of range.
pub fn post_task(w: &mut World, round: u32, player_id: &String) -> (outcome: Result<
    Task,
    GameError,
>)
    requires
        old(w).wf(),
    ensures
        final(w).wf(),
        match outcome {
            Ok(t_out) => {
                &&& task_submit_error(*old(w), round, player_id@) is None
                &&& exists|k: int|
                    #[trigger] task_submit_effect(*old(w), *final(w), round, player_id@, t_out, k)
                &&& final(w).game == old(w).game
                &&& final(w).roster == old(w).roster
                &&& final(w).buildings == old(w).buildings
                &&& final(w).proximities == old(w).proximities
                &&& final(w).actions == old(w).actions
                &&& final(w).votes == old(w).votes
                &&& final(w).results == old(w).results
            },
            Err(e) => {
                &&& *final(w) == *old(w)
                &&& task_submit_error(*old(w), round, player_id@) == Some(e)
            },
        },
{
    if !(w.game.status == GameStatus::Tasks && w.game.time.round == round) {
        return Err(GameError::PhaseViolation);
    }
    let player_idx = match find_player(&w.players, player_id) {
        Some(k) => k,
        None => {
            return Err(GameError::NotFound);
        },
    };
    proof {
        lemma_player_index_unique(w.players@, player_id@, player_idx as int);
    }
    let task_idx = match find_task(&w.tasks, round, player_id) {
        Some(k) => k,
        None => {
            return Err(GameError::NotFound);
        },
    };
    proof {
        lemma_task_index_unique(w.tasks@, round, player_id@, task_idx as int);
    }
    if w.tasks[task_idx].complete {
        return Err(GameError::DuplicateSubmission);
    }
    let prox_idx = match crate::world::find_proximity(&w.proximities, player_id) {
        Some(k) => k,
        None => {
            return Err(GameError::NotFound);
        },
    };
    proof {
        crate::world::lemma_proximity_index_unique(w.proximities@, player_id@, prox_idx as int);
    }
    let ghost t = w.tasks@[task_idx as int];
    let ghost nb = w.proximities@[prox_idx as int].proximity.nearby_buildings@;
    let dropped = w.tasks[task_idx].dropped_off;
    let dest_id: String = match &w.tasks[task_idx].destination {
        Some(d) => d.id.clone(),
        None => vstd::pervasive::unreached(),
    };
    let nb_len = w.proximities[prox_idx].proximity.nearby_buildings.len();
    let mut decision: Option<(usize, bool)> = None;
    let mut k: usize = 0;
    while k < nb_len
        invariant
            k <= nb_len,
            prox_idx < w.proximities@.len(),
            nb == w.proximities@[prox_idx as int].proximity.nearby_buildings@,
            nb_len == nb.len(),
            t.complete == false,
            t.dropped_off == dropped,
            (t.destination matches Some(d) && d.id@ == dest_id@),
            match decision {
                None => forall|m: int| 0 <= m < k ==> !task_transition_at(nb, t, m),
                Some((kk, is_drop)) => {
                    &&& kk < k
                    &&& task_transition_at(nb, t, kk as int)
                    &&& forall|m: int| 0 <= m < kk ==> !task_transition_at(nb, t, m)
                    &&& is_drop == drops_at(nb, t, kk as int)
                },
            },
        decreases nb_len - k,
    {
        if decision.is_none() {
            let hit_dest = w.proximities[prox_idx].proximity.nearby_buildings[k].id == dest_id;
            let hit_tower = w.proximities[prox_idx].proximity.nearby_buildings[k].is_tower;
            if !dropped && hit_dest {
                decision = Some((k, true));
            } else if hit_tower {
                decision = Some((k, false));
            }
        }
        k = k + 1;
    }
    match decision {
        None => {
            proof {
                assert(!some_task_transition(nb, t));
            }
            Err(GameError::OutOfRange)
        },
        Some((kk, true)) => {
            let mut updated = w.tasks[task_idx].clone();
            updated.dropped_off = true;
            proof {
                assert(updated == Task { dropped_off: true, ..t });
            }
            let ghost old_w = *old(w);
            w.tasks.set(task_idx, updated.clone());
            proof {
                assert(crate::world::unique_tasks(w.tasks@));
                assert(task_submit_effect(old_w, *w, round, player_id@, updated, kk as int));
            }
            Ok(updated)
        },
        Some((kk, false)) => {
            let mut updated = w.tasks[task_idx].clone();
            updated.complete = true;
            proof {
                assert(updated == Task { complete: true, ..t });
            }
            w.tasks.set(task_idx, updated.clone());
            proof {
                assert(crate::world::unique_tasks(w.tasks@));
            }
            let ghost old_players = w.players@;
            let mut marked = w.players[player_idx].clone();
            marked.used_action = ActionStatus::TaskComplete;
            marked.last_round_action = Some(round);
            proof {
                assert(marked == with_marker(
                    the_player(old_players, player_id@),
                    ActionStatus::TaskComplete,
                    round,
                ));
            }
            w.players.set(player_idx, marked);
            proof {
                lemma_ids_preserved(old_players, w.players@);
                assert(task_submit_effect(*old(w), *w, round, player_id@, updated, kk as int));
            }
            Ok(updated)
        },
    }
}

/// The progress marker a player lookup reports: inside a running phase the
/// round's own records override the stored marker, so a caller sees whether
/// the player has acted this round.
pub open spec fn shown_marker(w: World, p: Player) -> ActionStatus {
    let round = w.game.time.round;
    if w.game.status == GameStatus::Tasks && roster_has(w.roster@, p.id@) {
        if p.role == Some(Role::Bugged) {
            if has_action(w.actions@, round, p.id@) {
                ActionStatus::TaskComplete
            } else {
                p.used_action
            }
        } else {
            if has_task(w.tasks@, round, p.id@) {
                if the_task(w.tasks@, round, p.id@).complete {
                    ActionStatus::TaskComplete
                } else {
                    ActionStatus::Unused
                }
            } else {
                p.used_action
            }
        }
    } else if w.game.status == GameStatus::Vote && roster_has(w.roster@, p.id@) {
        if has_vote(w.votes@, round, p.id@) {
            ActionStatus::Voted
        } else {
            p.used_action
        }
    } else {
        p.used_action
    }
}

/// Reads a player's record, with the progress marker adjusted to what the
/// current round's records show.
pub fn get_player(w: &World, id: &String) -> (found: Result<Player, GameError>)
    requires
        w.wf(),
    ensures
        match found {
            Ok(p) => has_player(w.players@, id@) && p == Player {
                used_action: shown_marker(*w, the_player(w.players@, id@)),
                ..the_player(w.players@, id@)
            },
            Err(e) => e == GameError::NotFound && !has_player(w.players@, id@),
        },
{
    let idx = match find_player(&w.players, id) {
        Some(k) => k,
        None => {
            return Err(GameError::NotFound);
        },
    };
    proof {
        lemma_player_index_unique(w.players@, id@, idx as int);
    }
    let mut shown = w.players[idx].clone();
    let round = w.game.time.round;
    let in_game = roster_contains(&w.roster, id);
    if w.game.status == GameStatus::Tasks && in_game {
        let is_bug = match &shown.role {
            Some(r) => *r == Role::Bugged,
            None => false,
        };
        if is_bug {
            if find_action(&w.actions, round, id).is_some() {
                shown.used_action = ActionStatus::TaskComplete;
            }
        } else {
            match find_task(&w.tasks, round, id) {
                Some(t) => {
                    proof {
                        lemma_task_index_unique(w.tasks@, round, id@, t as int);
                    }
                    shown.used_action = if w.tasks[t].complete {
                        ActionStatus::TaskComplete
                    } else {
                        ActionStatus::Unused
                    };
                },
                None => {},
            }
        }
    } else if w.game.status == GameStatus::Vote && in_game {
        if find_vote(&w.votes, round, id).is_some() {
            shown.used_action = ActionStatus::Voted;
        }
    }
    Ok(shown)
}

/// `k` is the first entry of a nearby-players list carrying the given id.
pub open spec fn nearby_match_at(np: Seq<NearbyPlayer>, id: Seq<char>, k: int) -> bool {
    0 <= k < np.len() && np[k].id@ == id && (forall|m: int|
        0 <= m < k ==> (#[trigger] np[m]).id@ != id)
}

pub open spec fn nearby_has_player(np: Seq<NearbyPlayer>, id: Seq<char>) -> bool {
    exists|k: int| 0 <= k < np.len() && (#[trigger] np[k]).id@ == id
}

/// The first nearby-players entry carrying the given id.
pub open spec fn first_nearby(np: Seq<NearbyPlayer>, id: Seq<char>) -> NearbyPlayer {
    np[choose|k: int| nearby_match_at(np, id, k)]
}

proof fn lemma_first_nearby(np: Seq<NearbyPlayer>, id: Seq<char>, k: int)
    requires
        nearby_match_at(np, id, k),
    ensures
        nearby_has_player(np, id),
        first_nearby(np, id) == np[k],
{
    assert(nearby_has_player(np, id));
    let j = choose|j: int| nearby_match_at(np, id, j);
    assert(nearby_match_at(np, id, j));
    if j < k {
        assert(np[j].id@ != id);
    } else if k < j {
        assert(np[k].id@ != id);
    }
}

/// Finds the first nearby-players entry carrying the given id.
fn find_nearby(np: &Vec<NearbyPlayer>, id: &String) -> (found: Option<usize>)
    ensures
        match found {
            Some(k) => nearby_match_at(np@, id@, k as int),
            None => !nearby_has_player(np@, id@),
        },
{
    let n = np.len();
    let mut k: usize = 0;
    while k < n
        invariant
            k <= n,
            n == np@.len(),
            forall|m: int| 0 <= m < k ==> (#[trigger] np@[m]).id@ != id@,
        decreases n - k,
    {
        if np[k].id == *id {
            return Some(k);
        }
        k = k + 1;
    }
    None
}

pub open spec fn nearby_has_tower(nb: Seq<Building>) -> bool {
    exists|k: int| 0 <= k < nb.len() && (#[trigger] nb[k]).is_tower
}

/// Whether the tower is among the given buildings.
pub(crate) fn find_tower(nb: &Vec<Building>) -> (near: bool)
    ensures
        near == nearby_has_tower(nb@),
{
    let n = nb.len();
    let mut k: usize = 0;
    while k < n
        invariant
            k <= n,
            n == nb@.len(),
            forall|m: int| 0 <= m < k ==> !(#[trigger] nb@[m]).is_tower,
        decreases n - k,
    {
        if nb[k].is_tower {
            return true;
        }
        k = k + 1;
    }
    false
}

/// Sabotage is accepted only in the task phase of the same round.
pub open spec fn action_phase_ok(g: Game, round: u32) -> bool {
    g.status == GameStatus::Tasks && g.time.round == round
}

/// The error, if any, that a sabotage submission returns. Target checks —
/// nearby, not a fellow saboteur, not immune — are made against the actor's
/// current snapshot, and only on the first submission; a later submission
/// only confirms.
pub open spec fn action_error(
    w: World,
    round: u32,
    actor: Seq<char>,
    target: Seq<char>,
    confirm: bool,
) -> Option<GameError> {
    if !action_phase_ok(w.game, round) {
        Some(GameError::PhaseViolation)
    } else if !has_player(w.players@, actor) {
        Some(GameError::NotFound)
    } else if the_player(w.players@, actor).role != Some(Role::Bugged) {
        Some(GameError::NotEligible)
    } else if !has_proximity(w.proximities@, actor) {
        Some(GameError::NotFound)
    } else if !has_action(w.actions@, round, actor) {
        let np = the_proximity(w.proximities@, actor).nearby_players@;
        if confirm {
            Some(GameError::NotFound)
        } else if !nearby_has_player(np, target) {
            Some(GameError::OutOfRange)
        } else if first_nearby(np, target).role == Some(Role::Bugged) {
            Some(GameError::NotEligible)
        } else if first_nearby(np, target).immune {
            Some(GameError::NotEligible)
        } else if !has_player(w.players@, target) {
            Some(GameError::NotFound)
        } else if !has_task(w.tasks@, round, target) {
            Some(GameError::NotFound)
        } else {
            None
        }
    } else if the_action(w.actions@, round, actor).confirmed {
        Some(GameError::DuplicateSubmission)
    } else {
        None
    }
}

/// The record written on a sabotage declaration. Whether the sabotage
/// interrupts the target's task is decided here, once: it does unless the
/// target's task is already complete.
pub open spec fn declared_action(w: World, round: u32, actor: String, target: String) -> Action {
    Action {
        actor,
        poison_target: target,
        interrupted_task: !the_task(w.tasks@, round, target@).complete,
        confirmed: false,
        round,
    }
}

/// Submits a sabotage. The first submission declares it: the target must be
/// nearby, not a saboteur and not immune, and the actor's marker moves to
/// `ReturnToTower`. A later submission confirms it once the actor's snapshot
/// shows the tower nearby, moving the marker to `TaskComplete`; away from the
/// tower it changes nothing. A sabotage already confirmed is rejected.
pub fn post_action(
    w: &mut World,
    round: u32,
    actor_id: &String,
    target_id: &String,
    confirm: bool,
) -> (outcome: Result<(), GameError>)
    requires
        old(w).wf(),
    ensures
        final(w).wf(),
        match outcome {
            Ok(()) => {
                &&& action_error(*old(w), round, actor_id@, target_id@, confirm) is None
                &&& final(w).game == old(w).game
                &&& final(w).roster == old(w).roster
                &&& final(w).buildings == old(w).buildings
                &&& final(w).proximities == old(w).proximities
                &&& final(w).tasks == old(w).tasks
                &&& final(w).votes == old(w).votes
                &&& final(w).results == old(w).results
                &&& if !has_action(old(w).actions@, round, actor_id@) {
                    &&& final(w).actions@ == old(w).actions@.push(
                        declared_action(*old(w), round, *actor_id, *target_id),
                    )
                    &&& final(w).players@ == old(w).players@.update(
                        player_index(old(w).players@, actor_id@),
                        with_used(
                            the_player(old(w).players@, actor_id@),
                            ActionStatus::ReturnToTower,
                        ),
                    )
                } else if nearby_has_tower(
                    the_proximity(old(w).proximities@, actor_id@).nearby_buildings@,
                ) {
                    &&& final(w).actions@ == old(w).actions@.update(
                        action_index(old(w).actions@, round, actor_id@),
                        Action {
                            confirmed: true,
                            ..the_action(old(w).actions@, round, actor_id@)
                        },
                    )
                    &&& final(w).players@ == old(w).players@.update(
                        player_index(old(w).players@, actor_id@),
                        with_used(
                            the_player(old(w).players@, actor_id@),
                            ActionStatus::TaskComplete,
                        ),
                    )
                } else {
                    *final(w) == *old(w)
                }
            },
            Err(e) => {
                &&& *final(w) == *old(w)
                &&& action_error(*old(w), round, actor_id@, target_id@, confirm) == Some(e)
            },
        },
{
    if !(w.game.status == GameStatus::Tasks && w.game.time.round == round) {
        return Err(GameError::PhaseViolation);
    }
    let actor_idx = match find_player(&w.players, actor_id) {
        Some(k) => k,
        None => {
            return Err(GameError::NotFound);
        },
    };
    proof {
        lemma_player_index_unique(w.players@, actor_id@, actor_idx as int);
    }
    let is_bug = match &w.players[actor_idx].role {
        Some(r) => *r == Role::Bugged,
        None => false,
    };
    if !is_bug {
        return Err(GameError::NotEligible);
    }
    let prox_idx = match find_proximity(&w.proximities, actor_id) {
        Some(k) => k,
        None => {
            return Err(GameError::NotFound);
        },
    };
    proof {
        lemma_proximity_index_unique(w.proximities@, actor_id@, prox_idx as int);
    }
    match find_action(&w.actions, round, actor_id) {
        None => {
            if confirm {
                return Err(GameError::NotFound);
            }
            let near_idx = match find_nearby(
                &w.proximities[prox_idx].proximity.nearby_players,
                target_id,
            ) {
                Some(k) => k,
                None => {
                    return Err(GameError::OutOfRange);
                },
            };
            proof {
                lemma_first_nearby(
                    w.proximities@[prox_idx as int].proximity.nearby_players@,
                    target_id@,
                    near_idx as int,
                );
            }
            let target_shown = &w.proximities[prox_idx].proximity.nearby_players[near_idx];
            let shown_bugged = match &target_shown.role {
                Some(r) => *r == Role::Bugged,
                None => false,
            };
            if shown_bugged {
                return Err(GameError::NotEligible);
            }
            if target_shown.immune {
                return Err(GameError::NotEligible);
            }
            if find_player(&w.players, target_id).is_none() {
                return Err(GameError::NotFound);
            }
            let t_idx = match find_task(&w.tasks, round, target_id) {
                Some(k) => k,
                None => {
                    return Err(GameError::NotFound);
                },
            };
            proof {
                lemma_task_index_unique(w.tasks@, round, target_id@, t_idx as int);
            }
            let interrupted = !w.tasks[t_idx].complete;
            let declared = Action {
                actor: actor_id.clone(),
                poison_target: target_id.clone(),
                interrupted_task: interrupted,
                confirmed: false,
                round,
            };
            proof {
                assert(declared == declared_action(*old(w), round, *actor_id, *target_id));
                lemma_push_action_unique(w.actions@, declared);
            }
            w.actions.push(declared);
            let ghost old_players = w.players@;
            let mut marked = w.players[actor_idx].clone();
            marked.used_action = ActionStatus::ReturnToTower;
            proof {
                assert(marked == with_used(
                    the_player(old_players, actor_id@),
                    ActionStatus::ReturnToTower,
                ));
            }
            w.players.set(actor_idx, marked);
            proof {
                lemma_ids_preserved(old_players, w.players@);
            }
            Ok(())
        },
        Some(a_idx) => {
            proof {
                lemma_action_index_unique(w.actions@, round, actor_id@, a_idx as int);
            }
            if w.actions[a_idx].confirmed {
                return Err(GameError::DuplicateSubmission);
            }
            let tower_near = find_tower(&w.proximities[prox_idx].proximity.nearby_buildings);
            if tower_near {
                let mut confirmed_action = w.actions[a_idx].clone();
                confirmed_action.confirmed = true;
                proof {
                    assert(confirmed_action == Action {
                        confirmed: true,
                        ..the_action(old(w).actions@, round, actor_id@)
                    });
                }
                w.actions.set(a_idx, confirmed_action);
                proof {
                    assert(crate::world::unique_actions(w.actions@));
                }
                let ghost old_players = w.players@;
                let mut marked = w.players[actor_idx].clone();
                marked.used_action = ActionStatus::TaskComplete;
                proof {
                    assert(marked == with_used(
                        the_player(old_players, actor_id@),
                        ActionStatus::TaskComplete,
                    ));
                }
                w.players.set(actor_idx, marked);
                proof {
                    lemma_ids_preserved(old_players, w.players@);
                }
                Ok(())
            } else {
                Ok(())
            }
        },
    }
}

} // verus!
