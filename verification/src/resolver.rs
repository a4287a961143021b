//! The round resolver: tallies votes at the end of a vote phase, settles
//! sabotage and task completion at the end of a task phase, and decides the
//! victory condition.

use vstd::prelude::*;

verus! {

use vstd::pervasive::VecAdditionalExecFns;
use crate::types::{
    Action, ActionStatus, Elimination, EliminationReason, GameStatus, Player, Role, RoundResult,
    Task, Vote, WinResult,
};
use crate::errors::JobError;
use crate::world::{
    World, ProximityRecord, active_players, find_player, find_result, has_player, has_result,
    lemma_ids_preserved, lemma_player_index_unique, lemma_result_index_unique,
    lemma_upsert_result_unique, roster_contains, roster_has, roster_players, the_player,
    the_result, unique_ids, unique_player_ids, unique_proximities, upsert_result,
};

/// How many votes name the given candidate.
pub open spec fn count_votes_for(votes: Seq<Vote>, id: Seq<char>) -> nat
    decreases votes.len(),
{
    if votes.len() == 0 {
        0
    } else {
        count_votes_for(votes.drop_last(), id) + if votes.last().candidate@ == id {
            1nat
        } else {
            0nat
        }
    }
}

/// Left-to-right scan of the roster for the vote winner: the best candidate
/// so far and their tally, replaced only by a strictly higher tally, so that
/// a tie resolves to the earliest roster position.
pub open spec fn winner_scan(roster: Seq<Player>, votes: Seq<Vote>) -> (Option<Player>, nat)
    decreases roster.len(),
{
    if roster.len() == 0 {
        (None, 0nat)
    } else {
        let prev = winner_scan(roster.drop_last(), votes);
        let c = count_votes_for(votes, roster.last().id@);
        if c > prev.1 {
            (Some(roster.last()), c)
        } else {
            prev
        }
    }
}

/// The player voted out: the strictly most-named roster member, ties going to
/// roster order; nobody when no roster member received a vote.
pub open spec fn vote_winner(roster: Seq<Player>, votes: Seq<Vote>) -> Option<Player> {
    winner_scan(roster, votes).0
}

/// A player is eliminated for inaction in a vote round when their marker
/// never reached `Voted`, unless they are already the vote-out target.
pub open spec fn vote_inactive(p: Player, winner: Option<Player>) -> bool {
    p.used_action != ActionStatus::Voted && (match winner {
        Some(wp) => p.id@ != wp.id@,
        None => true,
    })
}

pub open spec fn vote_inaction_elims(roster: Seq<Player>, winner: Option<Player>) -> Seq<
    Elimination,
>
    decreases roster.len(),
{
    if roster.len() == 0 {
        Seq::empty()
    } else {
        let prev = vote_inaction_elims(roster.drop_last(), winner);
        if vote_inactive(roster.last(), winner) {
            prev.push(Elimination { player: roster.last(), reason: EliminationReason::Inaction })
        } else {
            prev
        }
    }
}

/// Everybody a vote round eliminates: the vote-out target first, then — with
/// relaxed rules off — every roster member who failed to vote.
pub open spec fn vote_eliminations(roster: Seq<Player>, votes: Seq<Vote>, demo: bool) -> Seq<
    Elimination,
> {
    let winner = vote_winner(roster, votes);
    let head = match winner {
        Some(p) => seq![Elimination { player: p, reason: EliminationReason::VotedOut }],
        None => Seq::<Elimination>::empty(),
    };
    head + if demo {
        Seq::<Elimination>::empty()
    } else {
        vote_inaction_elims(roster, winner)
    }
}

/// The saboteurs among the eliminated, revealed in elimination order.
pub open spec fn corrupted_of(elims: Seq<Elimination>) -> Seq<Player>
    decreases elims.len(),
{
    if elims.len() == 0 {
        Seq::empty()
    } else {
        let prev = corrupted_of(elims.drop_last());
        if elims.last().player.role == Some(Role::Bugged) {
            prev.push(elims.last().player)
        } else {
            prev
        }
    }
}

/// What the stored result of a vote round holds.
pub open spec fn is_vote_result(
    rr: RoundResult,
    roster: Seq<Player>,
    votes: Seq<Vote>,
    round: u32,
    demo: bool,
) -> bool {
    &&& rr.round_type == GameStatus::Vote
    &&& rr.round == round
    &&& rr.eliminated@ == vote_eliminations(roster, votes, demo)
    &&& rr.tasks_completed@.len() == 0
}

/// Prepends the saboteurs among `elims` to the revealed corrupted list.
fn extend_corrupted(revealed: &mut Vec<Player>, elims: &Vec<Elimination>)
    ensures
        final(revealed)@ == corrupted_of(elims@) + old(revealed)@,
{
    let m = elims.len();
    let mut combined: Vec<Player> = Vec::new();
    let mut k: usize = 0;
    while k < m
        invariant
            k <= m,
            m == elims@.len(),
            combined@ == corrupted_of(elims@.subrange(0, k as int)),
        decreases m - k,
    {
        proof {
            assert(elims@.subrange(0, k as int + 1).drop_last() =~= elims@.subrange(0, k as int));
            assert(elims@.subrange(0, k as int + 1).last() == elims@[k as int]);
        }
        let is_bug = match &elims[k].player.role {
            Some(r) => *r == Role::Bugged,
            None => false,
        };
        if is_bug {
            combined.push(elims[k].player.clone());
        }
        k = k + 1;
    }
    proof {
        assert(elims@.subrange(0, m as int) =~= elims@);
    }
    let ghost fresh_corrupt = combined@;
    let old_len = revealed.len();
    let mut c: usize = 0;
    while c < old_len
        invariant
            c <= old_len,
            old_len == revealed@.len(),
            revealed@ == old(revealed)@,
            combined@ == fresh_corrupt + revealed@.subrange(0, c as int),
        decreases old_len - c,
    {
        combined.push(revealed[c].clone());
        proof {
            assert(revealed@.subrange(0, c as int + 1) =~= revealed@.subrange(0, c as int).push(
                revealed@[c as int],
            ));
        }
        c = c + 1;
    }
    proof {
        assert(revealed@.subrange(0, old_len as int) =~= revealed@);
    }
    *revealed = combined;
}

/// Counts the votes naming a candidate.
fn count_votes(votes: &Vec<Vote>, id: &String) -> (tally: usize)
    ensures
        tally as nat == count_votes_for(votes@, id@),
{
    let n = votes.len();
    let mut tally: usize = 0;
    let mut j: usize = 0;
    while j < n
        invariant
            j <= n,
            n == votes@.len(),
            tally <= j,
            tally as nat == count_votes_for(votes@.subrange(0, j as int), id@),
        decreases n - j,
    {
        proof {
            assert(votes@.subrange(0, j as int + 1).drop_last() =~= votes@.subrange(0, j as int));
            assert(votes@.subrange(0, j as int + 1).last() == votes@[j as int]);
        }
        if votes[j].candidate == *id {
            tally = tally + 1;
        }
        j = j + 1;
    }
    proof {
        assert(votes@.subrange(0, n as int) =~= votes@);
    }
    tally
}

/// Resolves a vote round: tallies the votes over the roster, decides the
/// vote-out target and the inaction eliminations, reveals eliminated
/// saboteurs on the game's corrupted list, and stores the round's result.
pub fn set_vote_result(w: &mut World)
    requires
        old(w).wf(),
    ensures
        final(w).wf(),
        exists|rr: RoundResult|
            {
                &&& #[trigger] is_vote_result(
                    rr,
                    roster_players(old(w).roster@, old(w).players@),
                    old(w).votes@,
                    old(w).game.time.round,
                    old(w).game.demo_play,
                )
                &&& final(w).results@ == upsert_result(old(w).results@, rr)
            },
        final(w).game.corrupted_players@ == corrupted_of(
            vote_eliminations(
                roster_players(old(w).roster@, old(w).players@),
                old(w).votes@,
                old(w).game.demo_play,
            ),
        ) + old(w).game.corrupted_players@,
        final(w).game.id == old(w).game.id,
        final(w).game.status == old(w).game.status,
        final(w).game.time == old(w).game.time,
        final(w).game.win_result == old(w).game.win_result,
        final(w).game.demo_play == old(w).game.demo_play,
        final(w).players == old(w).players,
        final(w).roster == old(w).roster,
        final(w).buildings == old(w).buildings,
        final(w).proximities == old(w).proximities,
        final(w).tasks == old(w).tasks,
        final(w).actions == old(w).actions,
        final(w).votes == old(w).votes,
{
    let active = active_players(w);
    let round = w.game.time.round;
    let demo = w.game.demo_play;
    let ghost votes = w.votes@;
    let n = active.len();

    // scan the roster for the strictly most-named candidate
    let mut best: Option<usize> = None;
    let mut best_count: usize = 0;
    let mut i: usize = 0;
    while i < n
        invariant
            i <= n,
            n == active@.len(),
            votes == w.votes@,
            match best {
                None => best_count == 0 && winner_scan(active@.subrange(0, i as int), votes) == (
                    None::<Player>,
                    0nat,
                ),
                Some(bi) => bi < i && winner_scan(active@.subrange(0, i as int), votes) == (
                    Some(active@[bi as int]),
                    best_count as nat,
                ),
            },
        decreases n - i,
    {
        let tally = count_votes(&w.votes, &active[i].id);
        proof {
            let prevseq = active@.subrange(0, i as int);
            let cur = active@.subrange(0, i as int + 1);
            assert(cur.drop_last() =~= prevseq);
            assert(cur.last() == active@[i as int]);
            assert(winner_scan(cur, votes) == {
                let prev = winner_scan(prevseq, votes);
                let c = count_votes_for(votes, active@[i as int].id@);
                if c > prev.1 {
                    (Some(active@[i as int]), c)
                } else {
                    prev
                }
            });
        }
        if tally > best_count {
            best = Some(i);
            best_count = tally;
        }
        i = i + 1;
    }
    proof {
        assert(active@.subrange(0, n as int) =~= active@);
    }
    let ghost winner = vote_winner(active@, votes);

    // the vote-out target heads the eliminations
    let mut elims: Vec<Elimination> = Vec::new();
    let winner_id: Option<String> = match best {
        Some(bi) => {
            elims.push(
                Elimination { player: active[bi].clone(), reason: EliminationReason::VotedOut },
            );
            Some(active[bi].id.clone())
        },
        None => None,
    };
    let ghost head = elims@;
    proof {
        assert(head =~= match winner {
            Some(p) => seq![Elimination { player: p, reason: EliminationReason::VotedOut }],
            None => Seq::<Elimination>::empty(),
        });
    }

    // with relaxed rules off, everyone who failed to vote follows
    if !demo {
        let mut j: usize = 0;
        while j < n
            invariant
                j <= n,
                n == active@.len(),
                match best {
                    None => winner is None && winner_id is None,
                    Some(bi) => bi < n && winner == Some(active@[bi as int]) && (
                    winner_id matches Some(wid) && wid == active@[bi as int].id),
                },
                elims@ == head + vote_inaction_elims(active@.subrange(0, j as int), winner),
            decreases n - j,
        {
            proof {
                assert(active@.subrange(0, j as int + 1).drop_last() =~= active@.subrange(
                    0,
                    j as int,
                ));
                assert(active@.subrange(0, j as int + 1).last() == active@[j as int]);
            }
            let not_voted = !(active[j].used_action == ActionStatus::Voted);
            let not_winner = match &winner_id {
                Some(wid) => !(active[j].id == *wid),
                None => true,
            };
            if not_voted && not_winner {
                elims.push(
                    Elimination { player: active[j].clone(), reason: EliminationReason::Inaction },
                );
            }
            proof {
                assert(vote_inactive(active@[j as int], winner) == (not_voted && not_winner));
            }
            j = j + 1;
        }
        proof {
            assert(active@.subrange(0, n as int) =~= active@);
        }
    }
    proof {
        assert(elims@ =~= vote_eliminations(active@, votes, demo));
    }

    // reveal eliminated saboteurs
    extend_corrupted(&mut w.game.corrupted_players, &elims);

    // store the round's result
    let rr = RoundResult {
        round_type: GameStatus::Vote,
        round,
        eliminated: elims,
        tasks_completed: Vec::new(),
    };
    let ghost grr = rr;
    proof {
        assert(is_vote_result(grr, active@, votes, round, demo));
        lemma_upsert_result_unique(w.results@, grr);
    }
    match find_result(&w.results, round, GameStatus::Vote) {
        Some(idx) => {
            proof {
                lemma_result_index_unique(w.results@, round, GameStatus::Vote, idx as int);
            }
            w.results.set(idx, rr);
        },
        None => {
            w.results.push(rr);
        },
    }
}

/// Whether some declared sabotage interrupts the given player's task.
pub open spec fn is_interrupted(actions: Seq<Action>, id: Seq<char>) -> bool {
    exists|i: int|
        0 <= i < actions.len() && (#[trigger] actions[i]).interrupted_task
            && actions[i].poison_target@ == id
}

/// The sabotage victims, one elimination per interrupting action, in action
/// order.
pub open spec fn sabotage_elims(actions: Seq<Action>, players: Seq<Player>) -> Seq<Elimination>
    decreases actions.len(),
{
    if actions.len() == 0 {
        Seq::empty()
    } else {
        let prev = sabotage_elims(actions.drop_last(), players);
        if actions.last().interrupted_task {
            prev.push(
                Elimination {
                    player: the_player(players, actions.last().poison_target@),
                    reason: EliminationReason::BuggedOut,
                },
            )
        } else {
            prev
        }
    }
}

/// A task as published inside a round result: stripped of its assignee and
/// destination.
pub open spec fn redacted_task(t: Task) -> Task {
    Task { assignee: None, destination: None, ..t }
}

/// The tasks that count as completed: complete, and their assignee not
/// sabotage-interrupted.
pub open spec fn completed_tasks(tasks: Seq<Task>, actions: Seq<Action>) -> Seq<Task>
    decreases tasks.len(),
{
    if tasks.len() == 0 {
        Seq::empty()
    } else {
        let prev = completed_tasks(tasks.drop_last(), actions);
        let t = tasks.last();
        if t.complete && (t.assignee matches Some(a) && !is_interrupted(actions, a@)) {
            prev.push(redacted_task(t))
        } else {
            prev
        }
    }
}

/// A player is eliminated for inaction in a task round when their marker
/// never reached `TaskComplete`, unless they are already a sabotage victim.
pub open spec fn task_inactive(p: Player, actions: Seq<Action>) -> bool {
    p.used_action != ActionStatus::TaskComplete && !is_interrupted(actions, p.id@)
}

pub open spec fn task_inaction_elims(roster: Seq<Player>, actions: Seq<Action>) -> Seq<Elimination>
    decreases roster.len(),
{
    if roster.len() == 0 {
        Seq::empty()
    } else {
        let prev = task_inaction_elims(roster.drop_last(), actions);
        if task_inactive(roster.last(), actions) {
            prev.push(Elimination { player: roster.last(), reason: EliminationReason::Inaction })
        } else {
            prev
        }
    }
}

/// Everybody a task round eliminates: the sabotage victims first, then —
/// with relaxed rules off — every roster member who finished nothing.
pub open spec fn task_eliminations(
    roster: Seq<Player>,
    actions: Seq<Action>,
    players: Seq<Player>,
    demo: bool,
) -> Seq<Elimination> {
    sabotage_elims(actions, players) + if demo {
        Seq::<Elimination>::empty()
    } else {
        task_inaction_elims(roster, actions)
    }
}

/// What the stored result of a task round holds.
pub open spec fn is_task_result(
    rr: RoundResult,
    roster: Seq<Player>,
    tasks: Seq<Task>,
    actions: Seq<Action>,
    players: Seq<Player>,
    round: u32,
    demo: bool,
) -> bool {
    &&& rr.round_type == GameStatus::Tasks
    &&& rr.round == round
    &&& rr.eliminated@ == task_eliminations(roster, actions, players, demo)
    &&& rr.tasks_completed@ == completed_tasks(tasks, actions)
}

/// Whether some declared sabotage interrupts the given player's task.
fn target_interrupted(actions: &Vec<Action>, id: &String) -> (hit: bool)
    ensures
        hit == is_interrupted(actions@, id@),
{
    let n = actions.len();
    let mut i: usize = 0;
    while i < n
        invariant
            i <= n,
            n == actions@.len(),
            forall|j: int|
                0 <= j < i ==> !((#[trigger] actions@[j]).interrupted_task
                    && actions@[j].poison_target@ == id@),
        decreases n - i,
    {
        if actions[i].interrupted_task && actions[i].poison_target == *id {
            return true;
        }
        i = i + 1;
    }
    false
}

/// Resolves a task round: eliminates sabotage victims, counts the completed
/// tasks of uninterrupted assignees, adds the inaction eliminations, reveals
/// eliminated saboteurs on the game's corrupted list, and stores the round's
/// result.
pub fn set_task_result(w: &mut World)
    requires
        old(w).wf(),
    ensures
        final(w).wf(),
        exists|rr: RoundResult|
            {
                &&& #[trigger] is_task_result(
                    rr,
                    roster_players(old(w).roster@, old(w).players@),
                    old(w).tasks@,
                    old(w).actions@,
                    old(w).players@,
                    old(w).game.time.round,
                    old(w).game.demo_play,
                )
                &&& final(w).results@ == upsert_result(old(w).results@, rr)
            },
        final(w).game.corrupted_players@ == corrupted_of(
            task_eliminations(
                roster_players(old(w).roster@, old(w).players@),
                old(w).actions@,
                old(w).players@,
                old(w).game.demo_play,
            ),
        ) + old(w).game.corrupted_players@,
        final(w).game.id == old(w).game.id,
        final(w).game.status == old(w).game.status,
        final(w).game.time == old(w).game.time,
        final(w).game.win_result == old(w).game.win_result,
        final(w).game.demo_play == old(w).game.demo_play,
        final(w).players == old(w).players,
        final(w).roster == old(w).roster,
        final(w).buildings == old(w).buildings,
        final(w).proximities == old(w).proximities,
        final(w).tasks == old(w).tasks,
        final(w).actions == old(w).actions,
        final(w).votes == old(w).votes,
{
    let active = active_players(w);
    let round = w.game.time.round;
    let demo = w.game.demo_play;
    let ghost actions = w.actions@;
    let ghost players = w.players@;

    // sabotage victims
    let n_actions = w.actions.len();
    let mut elims: Vec<Elimination> = Vec::new();
    let mut k: usize = 0;
    while k < n_actions
        invariant
            k <= n_actions,
            w.wf(),
            actions == w.actions@,
            players == w.players@,
            n_actions == w.actions@.len(),
            elims@ == sabotage_elims(actions.subrange(0, k as int), players),
        decreases n_actions - k,
    {
        proof {
            assert(actions.subrange(0, k as int + 1).drop_last() =~= actions.subrange(0, k as int));
            assert(actions.subrange(0, k as int + 1).last() == actions[k as int]);
        }
        if w.actions[k].interrupted_task {
            let victim_idx = match find_player(&w.players, &w.actions[k].poison_target) {
                Some(v) => v,
                None => {
                    proof {
                        assert(has_player(players, actions[k as int].poison_target@));
                    }
                    vstd::pervasive::unreached()
                },
            };
            proof {
                lemma_player_index_unique(
                    players,
                    actions[k as int].poison_target@,
                    victim_idx as int,
                );
            }
            elims.push(
                Elimination {
                    player: w.players[victim_idx].clone(),
                    reason: EliminationReason::BuggedOut,
                },
            );
        }
        k = k + 1;
    }
    proof {
        assert(actions.subrange(0, n_actions as int) =~= actions);
    }
    let ghost head = elims@;

    // completed tasks of uninterrupted assignees
    let n_tasks = w.tasks.len();
    let mut done: Vec<Task> = Vec::new();
    let mut t: usize = 0;
    while t < n_tasks
        invariant
            t <= n_tasks,
            actions == w.actions@,
            n_tasks == w.tasks@.len(),
            done@ == completed_tasks(w.tasks@.subrange(0, t as int), actions),
        decreases n_tasks - t,
    {
        proof {
            assert(w.tasks@.subrange(0, t as int + 1).drop_last() =~= w.tasks@.subrange(
                0,
                t as int,
            ));
            assert(w.tasks@.subrange(0, t as int + 1).last() == w.tasks@[t as int]);
        }
        if w.tasks[t].complete {
            let keep = match &w.tasks[t].assignee {
                Some(a) => !target_interrupted(&w.actions, a),
                None => false,
            };
            if keep {
                done.push(
                    Task {
                        assignee: None,
                        destination: None,
                        round: w.tasks[t].round,
                        dropped_off: w.tasks[t].dropped_off,
                        complete: w.tasks[t].complete,
                    },
                );
            }
        }
        t = t + 1;
    }
    proof {
        assert(w.tasks@.subrange(0, n_tasks as int) =~= w.tasks@);
    }

    // inaction eliminations
    if !demo {
        let n = active.len();
        let mut j: usize = 0;
        while j < n
            invariant
                j <= n,
                n == active@.len(),
                actions == w.actions@,
                elims@ == head + task_inaction_elims(active@.subrange(0, j as int), actions),
            decreases n - j,
        {
            proof {
                assert(active@.subrange(0, j as int + 1).drop_last() =~= active@.subrange(
                    0,
                    j as int,
                ));
                assert(active@.subrange(0, j as int + 1).last() == active@[j as int]);
            }
            let idle = !(active[j].used_action == ActionStatus::TaskComplete);
            if idle && !target_interrupted(&w.actions, &active[j].id) {
                elims.push(
                    Elimination { player: active[j].clone(), reason: EliminationReason::Inaction },
                );
            }
            j = j + 1;
        }
        proof {
            assert(active@.subrange(0, n as int) =~= active@);
        }
    }
    proof {
        assert(elims@ =~= task_eliminations(active@, actions, players, demo));
    }

    // reveal eliminated saboteurs
    extend_corrupted(&mut w.game.corrupted_players, &elims);

    // store the round's result
    let rr = RoundResult {
        round_type: GameStatus::Tasks,
        round,
        eliminated: elims,
        tasks_completed: done,
    };
    let ghost grr = rr;
    proof {
        assert(is_task_result(grr, active@, w.tasks@, actions, players, round, demo));
        lemma_upsert_result_unique(w.results@, grr);
    }
    match find_result(&w.results, round, GameStatus::Tasks) {
        Some(idx) => {
            proof {
                lemma_result_index_unique(w.results@, round, GameStatus::Tasks, idx as int);
            }
            w.results.set(idx, rr);
        },
        None => {
            w.results.push(rr);
        },
    }
}

/// Whether the eliminations name the given player.
pub open spec fn elims_contain(elims: Seq<Elimination>, id: Seq<char>) -> bool {
    exists|i: int| 0 <= i < elims.len() && (#[trigger] elims[i]).player.id@ == id
}

/// The roster members who survive the round's eliminations, in roster order.
pub open spec fn remaining_players(roster: Seq<Player>, elims: Seq<Elimination>) -> Seq<Player>
    decreases roster.len(),
{
    if roster.len() == 0 {
        Seq::empty()
    } else {
        let prev = remaining_players(roster.drop_last(), elims);
        if elims_contain(elims, roster.last().id@) {
            prev
        } else {
            prev.push(roster.last())
        }
    }
}

pub open spec fn count_bugs(players: Seq<Player>) -> nat
    decreases players.len(),
{
    if players.len() == 0 {
        0
    } else {
        count_bugs(players.drop_last()) + if players.last().role == Some(Role::Bugged) {
            1nat
        } else {
            0nat
        }
    }
}

pub open spec fn count_crew(players: Seq<Player>) -> nat
    decreases players.len(),
{
    if players.len() == 0 {
        0
    } else {
        count_crew(players.drop_last()) + if players.last().role == Some(Role::Normal) {
            1nat
        } else {
            0nat
        }
    }
}

/// A list holding a saboteur counts at least one.
pub proof fn lemma_count_bugs_pos(players: Seq<Player>, i: int)
    requires
        0 <= i < players.len(),
        players[i].role == Some(Role::Bugged),
    ensures
        count_bugs(players) >= 1,
    decreases players.len(),
{
    if i < players.len() - 1 {
        lemma_count_bugs_pos(players.drop_last(), i);
    }
}

/// The victory condition a just-resolved round reaches, if any, given the
/// stored result's phase, completed-task count and eliminations. With
/// relaxed rules off, a task round whose completed-task count matches the
/// assigned count is won outright; otherwise the post-elimination remaining
/// set decides: saboteurs at half or more (relaxed rules off), nobody left,
/// no saboteurs left, or no crew left.
pub open spec fn victory_of(
    kind: GameStatus,
    n_completed: nat,
    elims: Seq<Elimination>,
    roster: Seq<Player>,
    n_tasks: nat,
    demo: bool,
) -> WinResult {
    if kind == GameStatus::Tasks && n_completed == n_tasks && !demo {
        WinResult::Perfection
    } else {
        let remaining = remaining_players(roster, elims);
        let bugs = count_bugs(remaining);
        let crew = count_crew(remaining);
        if !demo && remaining.len() > 0 && 2 * bugs >= remaining.len() {
            WinResult::Thuggery
        } else if bugs == 0 && crew == 0 {
            WinResult::Armageddon
        } else if bugs == 0 {
            WinResult::Democracy
        } else if crew == 0 {
            WinResult::Thuggery
        } else {
            WinResult::Null
        }
    }
}

/// Which phase's result the victory check of a given phase reads.
pub open spec fn result_kind(status: GameStatus) -> GameStatus {
    if status == GameStatus::Tasks {
        GameStatus::Tasks
    } else {
        GameStatus::Vote
    }
}

/// A player's per-game fields wiped, keeping identity, unit link and name.
pub open spec fn wiped_player(p: Player) -> Player {
    Player {
        id: p.id,
        mobile_unit_id: p.mobile_unit_id,
        display_name: p.display_name,
        secret_key: None,
        role: None,
        used_action: ActionStatus::Unused,
        last_round_action: None,
        eliminated: false,
    }
}

/// An active saboteur: on the roster, with the saboteur role.
pub open spec fn rostered_bug(roster: Seq<String>, players: Seq<Player>, id: Seq<char>) -> bool {
    roster_has(roster, id) && the_player(players, id).role == Some(Role::Bugged)
}

/// The registered players after the silent saboteur purge: every active
/// saboteur's record wiped, everyone else untouched.
pub open spec fn purged_players(roster: Seq<String>, players: Seq<Player>) -> Seq<Player> {
    Seq::new(
        players.len(),
        |i: int|
            if rostered_bug(roster, players, players[i].id@) {
                wiped_player(players[i])
            } else {
                players[i]
            },
    )
}

/// The roster after the purge: the non-saboteurs, in order.
pub open spec fn purged_roster(roster: Seq<String>, players: Seq<Player>) -> Seq<String>
    decreases roster.len(),
{
    if roster.len() == 0 {
        Seq::empty()
    } else {
        let prev = purged_roster(roster.drop_last(), players);
        if the_player(players, roster.last()@).role == Some(Role::Bugged) {
            prev
        } else {
            prev.push(roster.last())
        }
    }
}

/// The proximity snapshots after the purge: the active saboteurs' dropped.
pub open spec fn purged_proximities(
    proximities: Seq<ProximityRecord>,
    roster: Seq<String>,
    players: Seq<Player>,
) -> Seq<ProximityRecord>
    decreases proximities.len(),
{
    if proximities.len() == 0 {
        Seq::empty()
    } else {
        let prev = purged_proximities(proximities.drop_last(), roster, players);
        if rostered_bug(roster, players, proximities.last().player_id@) {
            prev
        } else {
            prev.push(proximities.last())
        }
    }
}

proof fn lemma_purged_roster_wf(roster: Seq<String>, players: Seq<Player>)
    requires
        unique_ids(roster),
    ensures
        unique_ids(purged_roster(roster, players)),
        forall|i: int|
            0 <= i < purged_roster(roster, players).len() ==> roster_has(
                roster,
                (#[trigger] purged_roster(roster, players)[i])@,
            ),
    decreases roster.len(),
{
    if roster.len() > 0 {
        let prefix = roster.drop_last();
        assert(unique_ids(prefix));
        lemma_purged_roster_wf(prefix, players);
        let prev = purged_roster(prefix, players);
        assert forall|i: int| 0 <= i < prev.len() implies roster_has(
            roster,
            (#[trigger] prev[i])@,
        ) by {
            assert(roster_has(prefix, prev[i]@));
            let j = choose|j: int| 0 <= j < prefix.len() && #[trigger] prefix[j]@ == prev[i]@;
            assert(roster[j]@ == prev[i]@);
        }
        if !(the_player(players, roster.last()@).role == Some(Role::Bugged)) {
            let out = prev.push(roster.last());
            assert forall|i: int, j: int|
                0 <= i < j < out.len() implies #[trigger] out[i]@ != #[trigger] out[j]@ by {
                if j == prev.len() as int {
                    assert(roster_has(prefix, out[i]@));
                    let m = choose|m: int|
                        0 <= m < prefix.len() && #[trigger] prefix[m]@ == out[i]@;
                    assert(roster[m]@ != roster.last()@);
                }
            }
        }
    }
}

proof fn lemma_purged_proximities_wf(
    proximities: Seq<ProximityRecord>,
    roster: Seq<String>,
    players: Seq<Player>,
)
    requires
        unique_proximities(proximities),
    ensures
        unique_proximities(purged_proximities(proximities, roster, players)),
        forall|i: int|
            0 <= i < purged_proximities(proximities, roster, players).len() ==> exists|m: int|
                0 <= m < proximities.len() && #[trigger] purged_proximities(
                    proximities,
                    roster,
                    players,
                )[i] == proximities[m],
    decreases proximities.len(),
{
    if proximities.len() > 0 {
        let prefix = proximities.drop_last();
        assert(unique_proximities(prefix));
        lemma_purged_proximities_wf(prefix, roster, players);
        let prev = purged_proximities(prefix, roster, players);
        assert forall|i: int| 0 <= i < prev.len() implies exists|m: int|
            0 <= m < proximities.len() && #[trigger] prev[i] == proximities[m] by {
            let m = choose|m: int| 0 <= m < prefix.len() && #[trigger] prev[i] == prefix[m];
            assert(prev[i] == proximities[m]);
        }
        if !rostered_bug(roster, players, proximities.last().player_id@) {
            let out = prev.push(proximities.last());
            assert forall|i: int, j: int|
                0 <= i < j < out.len() implies #[trigger] out[i].player_id@
                != #[trigger] out[j].player_id@ by {
                if j == prev.len() as int {
                    let m = choose|m: int|
                        0 <= m < prefix.len() && #[trigger] out[i] == prefix[m];
                    assert(proximities[m].player_id@ != proximities.last().player_id@);
                }
            }
        }
    }
}

/// Whether the eliminations name the given player.
fn elims_name(elims: &Vec<Elimination>, id: &String) -> (hit: bool)
    ensures
        hit == elims_contain(elims@, id@),
{
    let n = elims.len();
    let mut i: usize = 0;
    while i < n
        invariant
            i <= n,
            n == elims@.len(),
            forall|j: int| 0 <= j < i ==> (#[trigger] elims@[j]).player.id@ != id@,
        decreases n - i,
    {
        if elims[i].player.id == *id {
            return true;
        }
        i = i + 1;
    }
    false
}

/// Evaluates the victory condition after a round was resolved, reading the
/// round's stored result. On an outright all-tasks-done win, every still
/// active saboteur is silently removed: their roster entry and snapshot go,
/// and their per-game fields are wiped. A missing result is fatal for the
/// tick and changes nothing.
pub fn check_end_game_condition(w: &mut World) -> (outcome: Result<WinResult, JobError>)
    requires
        old(w).wf(),
        old(w).game.status == GameStatus::Tasks || old(w).game.status == GameStatus::VoteResult,
    ensures
        final(w).wf(),
        match outcome {
            Ok(win) => {
                &&& has_result(
                    old(w).results@,
                    old(w).game.time.round,
                    result_kind(old(w).game.status),
                )
                &&& win == victory_of(
                    the_result(
                        old(w).results@,
                        old(w).game.time.round,
                        result_kind(old(w).game.status),
                    ).round_type,
                    the_result(
                        old(w).results@,
                        old(w).game.time.round,
                        result_kind(old(w).game.status),
                    ).tasks_completed@.len(),
                    the_result(
                        old(w).results@,
                        old(w).game.time.round,
                        result_kind(old(w).game.status),
                    ).eliminated@,
                    roster_players(old(w).roster@, old(w).players@),
                    old(w).tasks@.len(),
                    old(w).game.demo_play,
                )
                &&& if win == WinResult::Perfection {
                    &&& final(w).players@ == purged_players(old(w).roster@, old(w).players@)
                    &&& final(w).roster@ == purged_roster(old(w).roster@, old(w).players@)
                    &&& final(w).proximities@ == purged_proximities(
                        old(w).proximities@,
                        old(w).roster@,
                        old(w).players@,
                    )
                    &&& final(w).game == old(w).game
                    &&& final(w).buildings == old(w).buildings
                    &&& final(w).tasks == old(w).tasks
                    &&& final(w).actions == old(w).actions
                    &&& final(w).votes == old(w).votes
                    &&& final(w).results == old(w).results
                } else {
                    *final(w) == *old(w)
                }
            },
            Err(e) => {
                &&& e == JobError::Unknown
                &&& *final(w) == *old(w)
                &&& !has_result(
                    old(w).results@,
                    old(w).game.time.round,
                    result_kind(old(w).game.status),
                )
            },
        },
{
    let round = w.game.time.round;
    let kind = if w.game.status == GameStatus::Tasks {
        GameStatus::Tasks
    } else {
        GameStatus::Vote
    };
    let ridx = match find_result(&w.results, round, kind) {
        Some(i) => i,
        None => {
            return Err(JobError::Unknown);
        },
    };
    proof {
        lemma_result_index_unique(w.results@, round, kind, ridx as int);
    }
    let demo = w.game.demo_play;

    // an outright win: every assigned task completed
    if kind == GameStatus::Tasks && w.results[ridx].tasks_completed.len() == w.tasks.len()
        && !demo {
        purge_active_saboteurs(w);
        return Ok(WinResult::Perfection);
    }

    // otherwise the remaining set decides
    let active = active_players(w);
    let n = active.len();
    let mut remaining: Vec<Player> = Vec::new();
    let mut j: usize = 0;
    while j < n
        invariant
            j <= n,
            n == active@.len(),
            ridx < w.results@.len(),
            w.results@ == old(w).results@,
            remaining@ == remaining_players(
                active@.subrange(0, j as int),
                w.results@[ridx as int].eliminated@,
            ),
        decreases n - j,
    {
        proof {
            assert(active@.subrange(0, j as int + 1).drop_last() =~= active@.subrange(0, j as int));
            assert(active@.subrange(0, j as int + 1).last() == active@[j as int]);
        }
        if !elims_name(&w.results[ridx].eliminated, &active[j].id) {
            remaining.push(active[j].clone());
        }
        j = j + 1;
    }
    proof {
        assert(active@.subrange(0, n as int) =~= active@);
    }
    let m = remaining.len();
    let mut bugs: usize = 0;
    let mut crew: usize = 0;
    let mut k: usize = 0;
    while k < m
        invariant
            k <= m,
            m == remaining@.len(),
            bugs <= k,
            crew <= k,
            bugs as nat == count_bugs(remaining@.subrange(0, k as int)),
            crew as nat == count_crew(remaining@.subrange(0, k as int)),
        decreases m - k,
    {
        proof {
            assert(remaining@.subrange(0, k as int + 1).drop_last() =~= remaining@.subrange(
                0,
                k as int,
            ));
            assert(remaining@.subrange(0, k as int + 1).last() == remaining@[k as int]);
        }
        match &remaining[k].role {
            Some(r) => {
                if *r == Role::Bugged {
                    bugs = bugs + 1;
                } else {
                    crew = crew + 1;
                }
            },
            None => {},
        }
        k = k + 1;
    }
    proof {
        assert(remaining@.subrange(0, m as int) =~= remaining@);
    }
    if !demo && m > 0 && 2 * (bugs as u128) >= (m as u128) {
        Ok(WinResult::Thuggery)
    } else if bugs == 0 && crew == 0 {
        Ok(WinResult::Armageddon)
    } else if bugs == 0 {
        Ok(WinResult::Democracy)
    } else if crew == 0 {
        Ok(WinResult::Thuggery)
    } else {
        Ok(WinResult::Null)
    }
}

/// Removes every active saboteur: drops their snapshot and roster entry, and
/// wipes their per-game fields.
fn purge_active_saboteurs(w: &mut World)
    requires
        old(w).wf(),
    ensures
        final(w).wf(),
        final(w).players@ == purged_players(old(w).roster@, old(w).players@),
        final(w).roster@ == purged_roster(old(w).roster@, old(w).players@),
        final(w).proximities@ == purged_proximities(
            old(w).proximities@,
            old(w).roster@,
            old(w).players@,
        ),
        final(w).game == old(w).game,
        final(w).buildings == old(w).buildings,
        final(w).tasks == old(w).tasks,
        final(w).actions == old(w).actions,
        final(w).votes == old(w).votes,
        final(w).results == old(w).results,
{
    let ghost players0 = w.players@;
    let ghost roster0 = w.roster@;
    let ghost prox0 = w.proximities@;

    // decide, before touching anything, who is an active saboteur
    let n = w.players.len();
    let mut flags: Vec<bool> = Vec::new();
    let mut i: usize = 0;
    while i < n
        invariant
            i <= n,
            n == players0.len(),
            w.wf(),
            w.players@ == players0,
            w.roster@ == roster0,
            flags@.len() == i,
            forall|a: int|
                0 <= a < i ==> #[trigger] flags@[a] == rostered_bug(
                    roster0,
                    players0,
                    players0[a].id@,
                ),
        decreases n - i,
    {
        proof {
            lemma_player_index_unique(players0, players0[i as int].id@, i as int);
        }
        let on_roster = roster_contains(&w.roster, &w.players[i].id);
        let is_bug = match &w.players[i].role {
            Some(r) => *r == Role::Bugged,
            None => false,
        };
        flags.push(on_roster && is_bug);
        i = i + 1;
    }

    // whether the holder of an id is an active saboteur
    // (an unregistered id cannot be on the roster)
    proof {
        assert forall|id: Seq<char>| !has_player(players0, id) implies !rostered_bug(
            roster0,
            players0,
            id,
        ) by {
            if roster_has(roster0, id) {
                let r = choose|r: int| 0 <= r < roster0.len() && #[trigger] roster0[r]@ == id;
                assert(has_player(players0, roster0[r]@));
            }
        }
    }

    // drop the snapshots of active saboteurs
    let mut k: usize = 0;
    let ghost mut j: int = 0;
    while k < w.proximities.len()
        invariant
            w.wf(),
            w.players@ == players0,
            w.roster@ == roster0,
            w.game == old(w).game,
            w.buildings == old(w).buildings,
            w.tasks == old(w).tasks,
            w.actions == old(w).actions,
            w.votes == old(w).votes,
            w.results == old(w).results,
            flags@.len() == players0.len(),
            forall|a: int|
                0 <= a < players0.len() ==> #[trigger] flags@[a] == rostered_bug(
                    roster0,
                    players0,
                    players0[a].id@,
                ),
            forall|id: Seq<char>|
                !has_player(players0, id) ==> !rostered_bug(roster0, players0, id),
            0 <= j <= prox0.len(),
            k as int == purged_proximities(prox0.subrange(0, j), roster0, players0).len(),
            w.proximities@ == purged_proximities(prox0.subrange(0, j), roster0, players0)
                + prox0.subrange(j, prox0.len() as int),
        decreases prox0.len() - j,
    {
        proof {
            assert(w.proximities@[k as int] == prox0[j]);
        }
        let purge = match find_player(&w.players, &w.proximities[k].player_id) {
            Some(pidx) => {
                proof {
                    lemma_player_index_unique(players0, prox0[j].player_id@, pidx as int);
                }
                flags[pidx]
            },
            None => false,
        };
        proof {
            assert(purge == rostered_bug(roster0, players0, prox0[j].player_id@));
            assert(prox0.subrange(0, j + 1).drop_last() =~= prox0.subrange(0, j));
            assert(prox0.subrange(0, j + 1).last() == prox0[j]);
        }
        if purge {
            let _ = w.proximities.remove(k);
            proof {
                assert(w.proximities@ =~= purged_proximities(
                    prox0.subrange(0, j + 1),
                    roster0,
                    players0,
                ) + prox0.subrange(j + 1, prox0.len() as int));
            }
        } else {
            k = k + 1;
            proof {
                assert(w.proximities@ =~= purged_proximities(
                    prox0.subrange(0, j + 1),
                    roster0,
                    players0,
                ) + prox0.subrange(j + 1, prox0.len() as int));
            }
        }
        proof {
            j = j + 1;
        }
    }
    proof {
        assert(prox0.subrange(0, prox0.len() as int) =~= prox0);
        assert(w.proximities@ =~= purged_proximities(prox0, roster0, players0));
        lemma_purged_proximities_wf(prox0, roster0, players0);
    }

    // drop the roster entries of saboteurs
    let mut k2: usize = 0;
    let ghost mut j2: int = 0;
    while k2 < w.roster.len()
        invariant
            w.players@ == players0,
            unique_player_ids(players0),
            forall|r: int| 0 <= r < roster0.len() ==> has_player(players0, #[trigger] roster0[r]@),
            flags@.len() == players0.len(),
            forall|a: int|
                0 <= a < players0.len() ==> #[trigger] flags@[a] == rostered_bug(
                    roster0,
                    players0,
                    players0[a].id@,
                ),
            0 <= j2 <= roster0.len(),
            k2 as int == purged_roster(roster0.subrange(0, j2), players0).len(),
            w.roster@ == purged_roster(roster0.subrange(0, j2), players0) + roster0.subrange(
                j2,
                roster0.len() as int,
            ),
            w.game == old(w).game,
            w.buildings == old(w).buildings,
            w.tasks == old(w).tasks,
            w.actions == old(w).actions,
            w.votes == old(w).votes,
            w.results == old(w).results,
            w.proximities@ == purged_proximities(prox0, roster0, players0),
        decreases roster0.len() - j2,
    {
        proof {
            assert(w.roster@[k2 as int] == roster0[j2]);
        }
        let pidx = match find_player(&w.players, &w.roster[k2]) {
            Some(i2) => i2,
            None => {
                proof {
                    assert(has_player(players0, roster0[j2]@));
                }
                vstd::pervasive::unreached()
            },
        };
        proof {
            lemma_player_index_unique(players0, roster0[j2]@, pidx as int);
        }
        let is_bug = match &w.players[pidx].role {
            Some(r) => *r == Role::Bugged,
            None => false,
        };
        proof {
            assert(is_bug == (the_player(players0, roster0[j2]@).role == Some(Role::Bugged)));
            assert(roster0.subrange(0, j2 + 1).drop_last() =~= roster0.subrange(0, j2));
            assert(roster0.subrange(0, j2 + 1).last() == roster0[j2]);
        }
        if is_bug {
            let _ = w.roster.remove(k2);
            proof {
                assert(w.roster@ =~= purged_roster(roster0.subrange(0, j2 + 1), players0)
                    + roster0.subrange(j2 + 1, roster0.len() as int));
            }
        } else {
            k2 = k2 + 1;
            proof {
                assert(w.roster@ =~= purged_roster(roster0.subrange(0, j2 + 1), players0)
                    + roster0.subrange(j2 + 1, roster0.len() as int));
            }
        }
        proof {
            j2 = j2 + 1;
        }
    }
    proof {
        assert(roster0.subrange(0, roster0.len() as int) =~= roster0);
        assert(w.roster@ =~= purged_roster(roster0, players0));
        lemma_purged_roster_wf(roster0, players0);
    }

    // wipe the active saboteurs' per-game fields
    let n3 = w.players.len();
    let mut i3: usize = 0;
    while i3 < n3
        invariant
            i3 <= n3,
            n3 == players0.len(),
            w.players@.len() == players0.len(),
            flags@.len() == players0.len(),
            forall|a: int|
                0 <= a < players0.len() ==> #[trigger] flags@[a] == rostered_bug(
                    roster0,
                    players0,
                    players0[a].id@,
                ),
            forall|a: int| i3 <= a < n3 ==> #[trigger] w.players@[a] == players0[a],
            forall|a: int|
                0 <= a < i3 ==> #[trigger] w.players@[a] == purged_players(roster0, players0)[a],
            w.game == old(w).game,
            w.buildings == old(w).buildings,
            w.tasks == old(w).tasks,
            w.actions == old(w).actions,
            w.votes == old(w).votes,
            w.results == old(w).results,
            w.roster@ == purged_roster(roster0, players0),
            w.proximities@ == purged_proximities(prox0, roster0, players0),
        decreases n3 - i3,
    {
        if flags[i3] {
            let wiped = Player {
                id: w.players[i3].id.clone(),
                mobile_unit_id: crate::types::clone_opt_string(&w.players[i3].mobile_unit_id),
                display_name: crate::types::clone_opt_string(&w.players[i3].display_name),
                secret_key: None,
                role: None,
                used_action: ActionStatus::Unused,
                last_round_action: None,
                eliminated: false,
            };
            proof {
                assert(wiped == wiped_player(players0[i3 as int]));
            }
            w.players.set(i3, wiped);
        }
        i3 = i3 + 1;
    }
    proof {
        assert(w.players@ =~= purged_players(roster0, players0));
        lemma_purge_preserves_wf(*old(w), *w);
    }
}

/// The purge keeps the world well-formed: ids survive the wipe, the purged
/// roster and snapshots stay duplicate-free, and every remaining roster
/// entry still resolves.
proof fn lemma_purge_preserves_wf(pre: World, post: World)
    requires
        pre.wf(),
        post.players@ == purged_players(pre.roster@, pre.players@),
        post.roster@ == purged_roster(pre.roster@, pre.players@),
        post.proximities@ == purged_proximities(pre.proximities@, pre.roster@, pre.players@),
        post.game == pre.game,
        post.buildings == pre.buildings,
        post.tasks == pre.tasks,
        post.actions == pre.actions,
        post.votes == pre.votes,
        post.results == pre.results,
    ensures
        post.wf(),
{
    let players0 = pre.players@;
    let roster0 = pre.roster@;
    assert(post.players@.len() == players0.len());
    assert forall|i: int| 0 <= i < players0.len() implies players0[i].id@ == #[trigger] post
        .players@[i].id@ by {
        assert(post.players@[i] == purged_players(roster0, players0)[i]);
    }
    lemma_ids_preserved(players0, post.players@);
    lemma_purged_roster_wf(roster0, players0);
    lemma_purged_proximities_wf(pre.proximities@, roster0, players0);
    assert forall|i: int| 0 <= i < post.roster@.len() implies has_player(
        post.players@,
        #[trigger] post.roster@[i]@,
    ) by {
        assert(roster_has(roster0, post.roster@[i]@));
        let r = choose|r: int| 0 <= r < roster0.len() && #[trigger] roster0[r]@ == post.roster@[i]@;
        assert(has_player(players0, roster0[r]@));
    }
}

} // verus!
