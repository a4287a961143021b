//! Data delivered by the downstream world feed: the mobile-unit nodes with
//! their tile coordinates, and the matching of those nodes to the roster.

use vstd::prelude::*;

verus! {

use crate::types;
use crate::errors::JobError;

/// Top level of a feed response.
pub struct Data {
    pub game: Game,
}

/// The feed's game object.
pub struct Game {
    pub id: String,
    pub state: State,
}

/// The queried slice of the feed's world state.
pub struct State {
    pub nodes: Vec<Node>,
}

/// One mobile unit: its id, its owning player, and its current tile.
pub struct Node {
    pub id: String,
    pub player: Player,
    pub location: Location,
}

/// The feed's player object attached to a mobile unit.
pub struct Player {
    pub id: String,
    pub addr: String,
}

/// The location edge of a mobile unit.
pub struct Location {
    pub id: String,
    pub tile: Tile,
}

/// A tile and its raw coordinate fields.
pub struct Tile {
    pub id: String,
    pub coords: Vec<String>,
}

/// Query variables for the building query.
pub struct BuildingVars {
    pub game_id: String,
}

/// Query variables for the player query: which mobile units to resolve.
pub struct PlayerVars {
    pub game_id: String,
    pub ids: Vec<String>,
}

/// Whether a feed node is the mobile unit linked to the given player.
pub open spec fn matches_unit(n: Node, p: types::Player) -> bool {
    p.mobile_unit_id matches Some(m) && m@ == n.id@
}

/// A node's tile must carry the four raw coordinate fields.
pub open spec fn node_usable(n: Node) -> bool {
    n.location.tile.coords@.len() >= 4
}

/// The raw location read off a node's tile.
pub open spec fn location_of_node(l: types::Location, n: Node) -> bool {
    &&& l.0 == n.location.tile.coords@[0]
    &&& l.1 == n.location.tile.coords@[1]
    &&& l.2 == n.location.tile.coords@[2]
    &&& l.3 == n.location.tile.coords@[3]
}

/// A player's location can be resolved: some node matches their mobile unit,
/// and the first such node carries full coordinates.
pub open spec fn resolvable(nodes: Seq<Node>, p: types::Player) -> bool {
    exists|j: int|
        0 <= j < nodes.len() && #[trigger] matches_unit(nodes[j], p) && (forall|k: int|
            0 <= k < j ==> !matches_unit(#[trigger] nodes[k], p)) && node_usable(nodes[j])
}

/// `l` is the location of the first node matching `p`'s mobile unit.
pub open spec fn located_at(nodes: Seq<Node>, p: types::Player, l: types::Location) -> bool {
    exists|j: int|
        0 <= j < nodes.len() && #[trigger] matches_unit(nodes[j], p) && (forall|k: int|
            0 <= k < j ==> !matches_unit(#[trigger] nodes[k], p)) && node_usable(nodes[j])
            && location_of_node(l, nodes[j])
}

/// Finds the first feed node matching the given player's mobile unit.
fn find_node<'a>(nodes: &'a Vec<Node>, p: &types::Player) -> (found: Option<usize>)
    ensures
        match found {
            Some(j) => j < nodes@.len() && matches_unit(nodes@[j as int], *p) && (forall|k: int|
                0 <= k < j ==> !matches_unit(#[trigger] nodes@[k], *p)),
            None => forall|k: int|
                0 <= k < nodes@.len() ==> !matches_unit(#[trigger] nodes@[k], *p),
        },
{
    let n = nodes.len();
    let mut j: usize = 0;
    while j < n
        invariant
            j <= n,
            n == nodes@.len(),
            forall|k: int| 0 <= k < j ==> !matches_unit(#[trigger] nodes@[k], *p),
        decreases n - j,
    {
        let hit = match &p.mobile_unit_id {
            Some(m) => *m == nodes[j].id,
            None => false,
        };
        if hit {
            return Some(j);
        }
        j = j + 1;
    }
    None
}

/// Reads each active player's raw location out of a feed response, matching
/// players to nodes by mobile-unit id. A player whose unit is missing from
/// the feed, or whose tile lacks its coordinate fields, is fatal for the
/// whole tick: no partial output is produced.
pub fn update_locations_player(data: &Data, players: &Vec<types::Player>) -> (resolved: Result<
    Vec<types::Location>,
    JobError,
>)
    ensures
        match resolved {
            Ok(locs) => {
                &&& locs@.len() == players@.len()
                &&& forall|i: int|
                    0 <= i < players@.len() ==> located_at(
                        data.game.state.nodes@,
                        players@[i],
                        #[trigger] locs@[i],
                    )
            },
            Err(e) => e == JobError::Unknown && exists|i: int|
                0 <= i < players@.len() && !resolvable(
                    data.game.state.nodes@,
                    #[trigger] players@[i],
                ),
        },
{
    let ghost nodes = data.game.state.nodes@;
    let n = players.len();
    let mut locs: Vec<types::Location> = Vec::new();
    let mut i: usize = 0;
    while i < n
        invariant
            i <= n,
            n == players@.len(),
            locs@.len() == i,
            nodes == data.game.state.nodes@,
            forall|a: int| 0 <= a < i ==> located_at(nodes, players@[a], #[trigger] locs@[a]),
        decreases n - i,
    {
        let found = find_node(&data.game.state.nodes, &players[i]);
        match found {
            Some(j) => {
                let tile_coords = &data.game.state.nodes[j].location.tile.coords;
                if tile_coords.len() < 4 {
                    proof {
                        assert(!resolvable(nodes, players@[i as int]));
                    }
                    return Err(JobError::Unknown);
                }
                let loc = types::Location(
                    tile_coords[0].clone(),
                    tile_coords[1].clone(),
                    tile_coords[2].clone(),
                    tile_coords[3].clone(),
                );
                proof {
                    assert(matches_unit(nodes[j as int], players@[i as int]));
                    assert(node_usable(nodes[j as int]));
                    assert(location_of_node(loc, nodes[j as int]));
                    assert(located_at(nodes, players@[i as int], loc));
                }
                locs.push(loc);
            },
            None => {
                proof {
                    assert(!resolvable(nodes, players@[i as int]));
                }
                return Err(JobError::Unknown);
            },
        }
        i = i + 1;
    }
    Ok(locs)
}

} // verus!
