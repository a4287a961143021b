//! Data model of the game: the singleton game record, players, buildings,
//! and the per-round vote/task/action records and round results.

use vstd::prelude::*;

verus! {

use crate::geometry::Cube;

/// Phase of the game's round state machine.
#[derive(Clone, Copy, PartialEq, Eq, Structural, Debug)]
pub enum GameStatus {
    Null,
    Lobby,
    Tasks,
    Vote,
    VoteResult,
    End,
}

/// Victory condition reached by a game; `Null` while the game is running.
#[derive(Clone, Copy, PartialEq, Eq, Structural, Debug)]
pub enum WinResult {
    /// The saboteurs reached half of the remaining players, or no crew remain.
    Thuggery,
    /// All saboteurs were removed and crew remain.
    Democracy,
    /// Every assigned task of a task round was completed.
    Perfection,
    /// Nobody remains.
    Armageddon,
    Null,
}

/// Hidden role of a player: crew (`Normal`) or saboteur (`Bugged`).
#[derive(Clone, Copy, PartialEq, Eq, Structural, Debug)]
pub enum Role {
    Normal,
    Bugged,
}

/// Per-round progress marker of a player.
#[derive(Clone, Copy, PartialEq, Eq, Structural, Debug)]
pub enum ActionStatus {
    Unused,
    ReturnToTower,
    NextDepot,
    TaskComplete,
    Voted,
}

/// A raw world coordinate: four hexadecimal fields as delivered by the world
/// feed. The first field is reserved; the remaining three encode signed
/// 16-bit cube coordinates in two's complement.
pub struct Location(pub String, pub String, pub String, pub String);

impl Clone for Location {
    fn clone(&self) -> (other: Self)
        ensures
            other == *self,
    {
        Location(self.0.clone(), self.1.clone(), self.2.clone(), self.3.clone())
    }
}

/// Round number and seconds remaining in the current phase.
#[derive(Clone, Copy, PartialEq, Eq, Structural, Debug)]
pub struct Time {
    pub round: u32,
    pub timer: u32,
}

pub(crate) fn clone_opt_string(o: &Option<String>) -> (other: Option<String>)
    ensures
        other == *o,
{
    match o {
        Some(s) => Some(s.clone()),
        None => None,
    }
}

/// A registered player. Membership in the current game's roster is tracked
/// separately by the world's roster index, not by a field here.
pub struct Player {
    pub id: String,
    pub mobile_unit_id: Option<String>,
    pub display_name: Option<String>,
    /// Capability token issued at registration.
    pub secret_key: Option<String>,
    /// Assigned once when a game starts; `None` outside a running game.
    pub role: Option<Role>,
    pub used_action: ActionStatus,
    pub last_round_action: Option<u32>,
    pub eliminated: bool,
}

impl Clone for Player {
    fn clone(&self) -> (other: Self)
        ensures
            other == *self,
    {
        Player {
            id: self.id.clone(),
            mobile_unit_id: clone_opt_string(&self.mobile_unit_id),
            display_name: clone_opt_string(&self.display_name),
            secret_key: clone_opt_string(&self.secret_key),
            role: self.role,
            used_action: self.used_action,
            last_round_action: self.last_round_action,
            eliminated: self.eliminated,
        }
    }
}

/// A registered building: the single tower, or one of the task depots.
pub struct Building {
    pub id: String,
    pub readable_id: String,
    pub location: Location,
    pub task_message: String,
    pub is_tower: bool,
}

impl Clone for Building {
    fn clone(&self) -> (other: Self)
        ensures
            other == *self,
    {
        Building {
            id: self.id.clone(),
            readable_id: self.readable_id.clone(),
            location: self.location.clone(),
            task_message: self.task_message.clone(),
            is_tower: self.is_tower,
        }
    }
}

/// Redacted projection of a player appearing in someone's nearby list.
/// The role is carried only when both the viewer and this neighbor are
/// saboteurs; in every other case it is withheld.
pub struct NearbyPlayer {
    pub id: String,
    pub display_name: Option<String>,
    pub role: Option<Role>,
    pub immune: bool,
}

impl Clone for NearbyPlayer {
    fn clone(&self) -> (other: Self)
        ensures
            other == *self,
    {
        NearbyPlayer {
            id: self.id.clone(),
            display_name: clone_opt_string(&self.display_name),
            role: self.role,
            immune: self.immune,
        }
    }
}

/// A player's redacted view of the world, recomputed wholesale on every
/// proximity tick.
pub struct PlayerProximity {
    pub nearby_players: Vec<NearbyPlayer>,
    /// Nearby buildings with their task messages stripped.
    pub nearby_buildings: Vec<Building>,
    /// Whether some tower is close enough to shield this player from sabotage.
    pub immune: bool,
    /// Decoded world position.
    pub location: Cube,
}

/// A crew member's objective for one round: reach the assigned depot, then
/// reach the tower. The assignee and destination are cleared when the task
/// is published inside a round result.
pub struct Task {
    pub assignee: Option<String>,
    pub destination: Option<Building>,
    pub round: u32,
    pub dropped_off: bool,
    pub complete: bool,
}

impl Clone for Task {
    fn clone(&self) -> (other: Self)
        ensures
            other == *self,
    {
        Task {
            assignee: clone_opt_string(&self.assignee),
            destination: match &self.destination {
                Some(b) => Some(b.clone()),
                None => None,
            },
            round: self.round,
            dropped_off: self.dropped_off,
            complete: self.complete,
        }
    }
}

/// A saboteur's two-step sabotage for one round, keyed by the actor.
pub struct Action {
    pub actor: String,
    pub poison_target: String,
    /// Decided once, at declaration time: whether the target's task was still
    /// incomplete, so the sabotage counts at round end.
    pub interrupted_task: bool,
    pub confirmed: bool,
    pub round: u32,
}

impl Clone for Action {
    fn clone(&self) -> (other: Self)
        ensures
            other == *self,
    {
        Action {
            actor: self.actor.clone(),
            poison_target: self.poison_target.clone(),
            interrupted_task: self.interrupted_task,
            confirmed: self.confirmed,
            round: self.round,
        }
    }
}

/// One player's vote for one round, with the candidate's display name copied
/// in at cast time.
pub struct Vote {
    pub voter: String,
    pub round: u32,
    pub candidate: String,
    pub candidate_name: Option<String>,
}

impl Clone for Vote {
    fn clone(&self) -> (other: Self)
        ensures
            other == *self,
    {
        Vote {
            voter: self.voter.clone(),
            round: self.round,
            candidate: self.candidate.clone(),
            candidate_name: clone_opt_string(&self.candidate_name),
        }
    }
}

/// Why a player left the game.
#[derive(Clone, Copy, PartialEq, Eq, Structural, Debug)]
pub enum EliminationReason {
    /// Victim of a sabotage that interrupted their task.
    BuggedOut,
    VotedOut,
    Inaction,
}

/// One eliminated player, with the player record as it stood at resolution.
pub struct Elimination {
    pub player: Player,
    pub reason: EliminationReason,
}

impl Clone for Elimination {
    fn clone(&self) -> (other: Self)
        ensures
            other == *self,
    {
        Elimination { player: self.player.clone(), reason: self.reason }
    }
}

/// The immutable summary of one resolved round: which phase produced it, who
/// was eliminated, and the completed tasks (redacted of assignee and
/// destination). Written exactly once per round.
pub struct RoundResult {
    pub round_type: GameStatus,
    pub round: u32,
    pub eliminated: Vec<Elimination>,
    pub tasks_completed: Vec<Task>,
}

pub(crate) fn clone_eliminations(v: &Vec<Elimination>) -> (other: Vec<Elimination>)
    ensures
        other@ == v@,
{
    let n = v.len();
    let mut other: Vec<Elimination> = Vec::new();
    let mut i: usize = 0;
    while i < n
        invariant
            i <= n,
            n == v@.len(),
            other@ =~= v@.subrange(0, i as int),
        decreases n - i,
    {
        other.push(v[i].clone());
        i = i + 1;
    }
    proof {
        assert(other@ =~= v@);
    }
    other
}

pub(crate) fn clone_task_list(v: &Vec<Task>) -> (other: Vec<Task>)
    ensures
        other@ == v@,
{
    let n = v.len();
    let mut other: Vec<Task> = Vec::new();
    let mut i: usize = 0;
    while i < n
        invariant
            i <= n,
            n == v@.len(),
            other@ =~= v@.subrange(0, i as int),
        decreases n - i,
    {
        other.push(v[i].clone());
        i = i + 1;
    }
    proof {
        assert(other@ =~= v@);
    }
    other
}

impl Clone for RoundResult {
    fn clone(&self) -> (other: Self)
        ensures
            other.round_type == self.round_type,
            other.round == self.round,
            other.eliminated@ == self.eliminated@,
            other.tasks_completed@ == self.tasks_completed@,
    {
        RoundResult {
            round_type: self.round_type,
            round: self.round,
            eliminated: clone_eliminations(&self.eliminated),
            tasks_completed: clone_task_list(&self.tasks_completed),
        }
    }
}

/// The singleton game record.
pub struct Game {
    pub id: String,
    pub status: GameStatus,
    pub time: Time,
    /// `Null` until the game ends.
    pub win_result: WinResult,
    /// Saboteurs revealed by elimination so far; grows until a full reset.
    pub corrupted_players: Vec<Player>,
    /// Relaxed rules for small demo games: disables inaction eliminations,
    /// the saboteur-majority condition and the all-tasks-done condition.
    pub demo_play: bool,
}

} // verus!
