//! The proximity engine: turns raw world coordinates into each player's
//! redacted snapshot — nearby buildings, nearby players, and immunity.
//!
//! Nearby buildings are those at distance below 2, immunity is granted by a
//! tower at distance below 4, and nearby players are the other active players
//! at distance below 3. A neighbor's role is revealed only to a saboteur
//! viewing another saboteur.

use vstd::prelude::*;

verus! {

use crate::geometry::{Cube, cube_bounded, decode_hex_field, spec_distance};
use crate::types::{Building, Location, NearbyPlayer, Player, PlayerProximity, Role};
use crate::errors::JobError;
use crate::world::{ProximityRecord, World};

/// The cube position encoded by a raw location's three coordinate fields.
pub open spec fn location_cube(l: Location) -> Cube {
    Cube {
        q: decode_hex_field(l.1@) as i32,
        r: decode_hex_field(l.2@) as i32,
        s: decode_hex_field(l.3@) as i32,
    }
}

pub open spec fn location_cubes(locs: Seq<Location>) -> Seq<Cube> {
    Seq::new(locs.len(), |i: int| location_cube(locs[i]))
}

pub open spec fn building_cubes(buildings: Seq<Building>) -> Seq<Cube> {
    Seq::new(buildings.len(), |j: int| location_cube(buildings[j].location))
}

pub open spec fn all_bounded(cubes: Seq<Cube>) -> bool {
    forall|i: int| 0 <= i < cubes.len() ==> cube_bounded(#[trigger] cubes[i])
}

/// Some tower stands at distance below `d` of `pos`.
pub open spec fn tower_within(
    buildings: Seq<Building>,
    bcubes: Seq<Cube>,
    pos: Cube,
    d: int,
) -> bool {
    exists|j: int|
        0 <= j < buildings.len() && (#[trigger] buildings[j]).is_tower && spec_distance(
            pos,
            bcubes[j],
        ) < d
}

/// A building as it appears in a snapshot: the record with its task message
/// stripped.
pub open spec fn is_redacted_building(shown: Building, b: Building) -> bool {
    &&& shown.id == b.id
    &&& shown.readable_id == b.readable_id
    &&& shown.location == b.location
    &&& shown.is_tower == b.is_tower
    &&& shown.task_message@ == Seq::<char>::empty()
}

pub open spec fn building_sites(buildings: Seq<Building>, bcubes: Seq<Cube>) -> Seq<
    (Building, Cube),
> {
    Seq::new(buildings.len(), |j: int| (buildings[j], bcubes[j]))
}

/// The buildings at distance below 2 of `pos`, with their positions, among
/// the first `n` buildings.
pub open spec fn close_buildings_prefix(
    buildings: Seq<Building>,
    bcubes: Seq<Cube>,
    pos: Cube,
    n: int,
) -> Seq<(Building, Cube)> {
    building_sites(buildings, bcubes).subrange(0, n).filter(
        |t: (Building, Cube)| spec_distance(pos, t.1) < 2,
    )
}

pub open spec fn close_buildings(buildings: Seq<Building>, bcubes: Seq<Cube>, pos: Cube) -> Seq<
    (Building, Cube),
> {
    close_buildings_prefix(buildings, bcubes, pos, buildings.len() as int)
}

/// The nearby-buildings list is exactly the close buildings, in order, each
/// redacted.
pub open spec fn nearby_buildings_ok(
    shown: Seq<Building>,
    buildings: Seq<Building>,
    bcubes: Seq<Cube>,
    pos: Cube,
) -> bool {
    let close = close_buildings(buildings, bcubes, pos);
    &&& shown.len() == close.len()
    &&& forall|k: int|
        0 <= k < shown.len() ==> is_redacted_building(#[trigger] shown[k], close[k].0)
}

pub open spec fn player_sites(players: Seq<Player>, pcubes: Seq<Cube>) -> Seq<
    (int, Player, Cube),
> {
    Seq::new(players.len(), |j: int| (j, players[j], pcubes[j]))
}

/// The other players at distance below 3 of player `i`, among the first `n`.
pub open spec fn close_players_prefix(
    players: Seq<Player>,
    pcubes: Seq<Cube>,
    i: int,
    n: int,
) -> Seq<(int, Player, Cube)> {
    player_sites(players, pcubes).subrange(0, n).filter(
        |t: (int, Player, Cube)| t.0 != i && spec_distance(pcubes[i], t.2) < 3,
    )
}

pub open spec fn close_players(players: Seq<Player>, pcubes: Seq<Cube>, i: int) -> Seq<
    (int, Player, Cube),
> {
    close_players_prefix(players, pcubes, i, players.len() as int)
}

proof fn lemma_close_buildings_step(buildings: Seq<Building>, bcubes: Seq<Cube>, pos: Cube, j: int)
    requires
        0 <= j < buildings.len(),
        bcubes.len() == buildings.len(),
    ensures
        close_buildings_prefix(buildings, bcubes, pos, j + 1) == if spec_distance(pos, bcubes[j])
            < 2 {
            close_buildings_prefix(buildings, bcubes, pos, j).push((buildings[j], bcubes[j]))
        } else {
            close_buildings_prefix(buildings, bcubes, pos, j)
        },
{
    let sites = building_sites(buildings, bcubes);
    let cur = sites.subrange(0, j + 1);
    let prev = sites.subrange(0, j);
    assert(cur.drop_last() =~= prev);
    assert(cur.last() == sites[j]);
    reveal_with_fuel(Seq::filter, 2);
}

/// How a neighbor appears in a viewer's snapshot: identity and display name,
/// the neighbor's own immunity, and the role only between saboteurs.
pub open spec fn neighbor_snapshot(viewer: Player, neighbor: Player, immune: bool) -> NearbyPlayer {
    NearbyPlayer {
        id: neighbor.id,
        display_name: neighbor.display_name,
        role: if viewer.role == Some(Role::Bugged) && neighbor.role == Some(Role::Bugged) {
            Some(Role::Bugged)
        } else {
            None
        },
        immune,
    }
}

proof fn lemma_close_players_step(players: Seq<Player>, pcubes: Seq<Cube>, i: int, j: int)
    requires
        0 <= j < players.len(),
        pcubes.len() == players.len(),
    ensures
        close_players_prefix(players, pcubes, i, j + 1) == if j != i && spec_distance(
            pcubes[i],
            pcubes[j],
        ) < 3 {
            close_players_prefix(players, pcubes, i, j).push((j, players[j], pcubes[j]))
        } else {
            close_players_prefix(players, pcubes, i, j)
        },
{
    let sites = player_sites(players, pcubes);
    let cur = sites.subrange(0, j + 1);
    let prev = sites.subrange(0, j);
    assert(cur.drop_last() =~= prev);
    assert(cur.last() == sites[j]);
    reveal_with_fuel(Seq::filter, 2);
}

/// The nearby-players list is exactly the close players, in order, each
/// rendered by `neighbor_snapshot` with their own immunity.
pub open spec fn nearby_players_ok(
    shown: Seq<NearbyPlayer>,
    i: int,
    players: Seq<Player>,
    pcubes: Seq<Cube>,
    buildings: Seq<Building>,
    bcubes: Seq<Cube>,
) -> bool {
    let close = close_players(players, pcubes, i);
    &&& shown.len() == close.len()
    &&& forall|k: int|
        0 <= k < shown.len() ==> #[trigger] shown[k] == neighbor_snapshot(
            players[i],
            close[k].1,
            tower_within(buildings, bcubes, close[k].2, 4),
        )
}

/// One player's whole snapshot is correct.
pub open spec fn snapshot_ok(
    rec: ProximityRecord,
    i: int,
    players: Seq<Player>,
    pcubes: Seq<Cube>,
    buildings: Seq<Building>,
    bcubes: Seq<Cube>,
) -> bool {
    &&& rec.player_id == players[i].id
    &&& rec.proximity.location == pcubes[i]
    &&& rec.proximity.immune == tower_within(buildings, bcubes, pcubes[i], 4)
    &&& nearby_buildings_ok(rec.proximity.nearby_buildings@, buildings, bcubes, pcubes[i])
    &&& nearby_players_ok(rec.proximity.nearby_players@, i, players, pcubes, buildings, bcubes)
}

fn cube_in_range(c: Cube) -> (ok: bool)
    ensures
        ok == cube_bounded(c),
{
    -0x8000 <= c.q && c.q <= 0x7fff && -0x8000 <= c.r && c.r <= 0x7fff && -0x8000 <= c.s && c.s
        <= 0x7fff
}

/// Decodes the raw player locations; any field that does not decode to a
/// 16-bit coordinate is fatal for the tick.
fn decode_positions(locations: &Vec<Location>) -> (decoded: Result<Vec<Cube>, JobError>)
    ensures
        match decoded {
            Ok(cs) => cs@ == location_cubes(locations@) && all_bounded(cs@),
            Err(e) => e == JobError::Unknown && !all_bounded(location_cubes(locations@)),
        },
{
    let n = locations.len();
    let mut cs: Vec<Cube> = Vec::new();
    let mut i: usize = 0;
    while i < n
        invariant
            i <= n,
            n == locations@.len(),
            cs@.len() == i,
            forall|a: int|
                0 <= a < i ==> #[trigger] cs@[a] == location_cube(locations@[a]) && cube_bounded(
                    cs@[a],
                ),
        decreases n - i,
    {
        let c = Cube::new(&locations[i]);
        if !cube_in_range(c) {
            proof {
                assert(location_cubes(locations@)[i as int] == c);
            }
            return Err(JobError::Unknown);
        }
        cs.push(c);
        i = i + 1;
    }
    proof {
        assert(cs@ =~= location_cubes(locations@));
    }
    Ok(cs)
}

/// Decodes the building positions; a building whose registered location does
/// not decode is equally fatal.
fn decode_building_positions(buildings: &Vec<Building>) -> (decoded: Result<Vec<Cube>, JobError>)
    ensures
        match decoded {
            Ok(cs) => cs@ == building_cubes(buildings@) && all_bounded(cs@),
            Err(e) => e == JobError::Unknown && !all_bounded(building_cubes(buildings@)),
        },
{
    let n = buildings.len();
    let mut cs: Vec<Cube> = Vec::new();
    let mut i: usize = 0;
    while i < n
        invariant
            i <= n,
            n == buildings@.len(),
            cs@.len() == i,
            forall|a: int|
                0 <= a < i ==> #[trigger] cs@[a] == location_cube(buildings@[a].location)
                    && cube_bounded(cs@[a]),
        decreases n - i,
    {
        let c = Cube::new(&buildings[i].location);
        if !cube_in_range(c) {
            proof {
                assert(building_cubes(buildings@)[i as int] == c);
            }
            return Err(JobError::Unknown);
        }
        cs.push(c);
        i = i + 1;
    }
    proof {
        assert(cs@ =~= building_cubes(buildings@));
    }
    Ok(cs)
}

/// Whether a tower stands within distance `d` of `pos`.
fn tower_in_range(buildings: &Vec<Building>, bcubes: &Vec<Cube>, pos: Cube, d: i32) -> (near: bool)
    requires
        bcubes@.len() == buildings@.len(),
        all_bounded(bcubes@),
        cube_bounded(pos),
    ensures
        near == tower_within(buildings@, bcubes@, pos, d as int),
{
    let n = buildings.len();
    let mut j: usize = 0;
    while j < n
        invariant
            j <= n,
            n == buildings@.len(),
            bcubes@.len() == buildings@.len(),
            all_bounded(bcubes@),
            cube_bounded(pos),
            forall|k: int|
                0 <= k < j ==> !((#[trigger] buildings@[k]).is_tower && spec_distance(
                    pos,
                    bcubes@[k],
                ) < d),
        decreases n - j,
    {
        let bj = bcubes[j];
        if buildings[j].is_tower && pos.distance(&bj) < d {
            return true;
        }
        j = j + 1;
    }
    false
}

fn redact_building(b: &Building) -> (shown: Building)
    ensures
        is_redacted_building(shown, *b),
{
    Building {
        id: b.id.clone(),
        readable_id: b.readable_id.clone(),
        location: b.location.clone(),
        task_message: String::new(),
        is_tower: b.is_tower,
    }
}

/// Collects the redacted nearby buildings of a position.
fn nearby_buildings_for(buildings: &Vec<Building>, bcubes: &Vec<Cube>, pos: Cube) -> (shown: Vec<
    Building,
>)
    requires
        bcubes@.len() == buildings@.len(),
        all_bounded(bcubes@),
        cube_bounded(pos),
    ensures
        nearby_buildings_ok(shown@, buildings@, bcubes@, pos),
{
    let n = buildings.len();
    let mut shown: Vec<Building> = Vec::new();
    let mut j: usize = 0;
    while j < n
        invariant
            j <= n,
            n == buildings@.len(),
            bcubes@.len() == buildings@.len(),
            all_bounded(bcubes@),
            cube_bounded(pos),
            shown@.len() == close_buildings_prefix(buildings@, bcubes@, pos, j as int).len(),
            forall|k: int|
                0 <= k < shown@.len() ==> is_redacted_building(
                    #[trigger] shown@[k],
                    close_buildings_prefix(buildings@, bcubes@, pos, j as int)[k].0,
                ),
        decreases n - j,
    {
        let bj = bcubes[j];
        if pos.distance(&bj) < 2 {
            shown.push(redact_building(&buildings[j]));
        }
        proof {
            lemma_close_buildings_step(buildings@, bcubes@, pos, j as int);
        }
        j = j + 1;
    }
    shown
}

/// Collects the redacted nearby players of player `i`.
fn nearby_players_for(
    i: usize,
    players: &Vec<Player>,
    pcubes: &Vec<Cube>,
    buildings: &Vec<Building>,
    bcubes: &Vec<Cube>,
) -> (shown: Vec<NearbyPlayer>)
    requires
        i < players@.len(),
        pcubes@.len() == players@.len(),
        bcubes@.len() == buildings@.len(),
        all_bounded(pcubes@),
        all_bounded(bcubes@),
    ensures
        nearby_players_ok(shown@, i as int, players@, pcubes@, buildings@, bcubes@),
{
    let n = players.len();
    let mut shown: Vec<NearbyPlayer> = Vec::new();
    let viewer_bugged = match &players[i].role {
        Some(r) => *r == Role::Bugged,
        None => false,
    };
    let pos = pcubes[i];
    let mut j: usize = 0;
    while j < n
        invariant
            j <= n,
            i < players@.len(),
            n == players@.len(),
            pcubes@.len() == players@.len(),
            bcubes@.len() == buildings@.len(),
            all_bounded(pcubes@),
            all_bounded(bcubes@),
            pos == pcubes@[i as int],
            viewer_bugged == (players@[i as int].role == Some(Role::Bugged)),
            shown@.len() == close_players_prefix(players@, pcubes@, i as int, j as int).len(),
            forall|k: int|
                0 <= k < shown@.len() ==> #[trigger] shown@[k] == neighbor_snapshot(
                    players@[i as int],
                    close_players_prefix(players@, pcubes@, i as int, j as int)[k].1,
                    tower_within(
                        buildings@,
                        bcubes@,
                        close_players_prefix(players@, pcubes@, i as int, j as int)[k].2,
                        4,
                    ),
                ),
        decreases n - j,
    {
        let pj = pcubes[j];
        if j != i && pos.distance(&pj) < 3 {
            let neighbor_immune = tower_in_range(buildings, bcubes, pj, 4);
            let neighbor_bugged = match &players[j].role {
                Some(r) => *r == Role::Bugged,
                None => false,
            };
            let np = NearbyPlayer {
                id: players[j].id.clone(),
                display_name: crate::types::Player::clone(&players[j]).display_name,
                role: if viewer_bugged && neighbor_bugged {
                    Some(Role::Bugged)
                } else {
                    None
                },
                immune: neighbor_immune,
            };
            proof {
                assert(np == neighbor_snapshot(
                    players@[i as int],
                    players@[j as int],
                    tower_within(buildings@, bcubes@, pcubes@[j as int], 4),
                ));
            }
            shown.push(np);
        }
        proof {
            lemma_close_players_step(players@, pcubes@, i as int, j as int);
        }
        j = j + 1;
    }
    shown
}

/// Computes every active player's proximity snapshot from their raw
/// locations and the registered buildings. Any location — of a player or a
/// building — that does not decode to 16-bit cube coordinates aborts the
/// whole tick without partial output.
pub fn calculate_distance(
    players: &Vec<Player>,
    locations: &Vec<Location>,
    buildings: &Vec<Building>,
) -> (snapshots: Result<Vec<ProximityRecord>, JobError>)
    requires
        locations@.len() == players@.len(),
    ensures
        match snapshots {
            Ok(out) => {
                &&& all_bounded(location_cubes(locations@))
                &&& all_bounded(building_cubes(buildings@))
                &&& out@.len() == players@.len()
                &&& forall|i: int|
                    0 <= i < players@.len() ==> snapshot_ok(
                        #[trigger] out@[i],
                        i,
                        players@,
                        location_cubes(locations@),
                        buildings@,
                        building_cubes(buildings@),
                    )
            },
            Err(e) => e == JobError::Unknown && !(all_bounded(location_cubes(locations@))
                && all_bounded(building_cubes(buildings@))),
        },
{
    let pcubes = match decode_positions(locations) {
        Ok(cs) => cs,
        Err(e) => {
            return Err(e);
        },
    };
    let bcubes = match decode_building_positions(buildings) {
        Ok(cs) => cs,
        Err(e) => {
            return Err(e);
        },
    };
    let n = players.len();
    let mut out: Vec<ProximityRecord> = Vec::new();
    let mut i: usize = 0;
    while i < n
        invariant
            i <= n,
            n == players@.len(),
            locations@.len() == players@.len(),
            pcubes@ == location_cubes(locations@),
            bcubes@ == building_cubes(buildings@),
            pcubes@.len() == players@.len(),
            bcubes@.len() == buildings@.len(),
            all_bounded(pcubes@),
            all_bounded(bcubes@),
            out@.len() == i,
            forall|a: int|
                0 <= a < i ==> snapshot_ok(
                    #[trigger] out@[a],
                    a,
                    players@,
                    pcubes@,
                    buildings@,
                    bcubes@,
                ),
        decreases n - i,
    {
        let pos = pcubes[i];
        let nearby_buildings = nearby_buildings_for(buildings, &bcubes, pos);
        let nearby_players = nearby_players_for(i, players, &pcubes, buildings, &bcubes);
        let immune = tower_in_range(buildings, &bcubes, pos, 4);
        let rec = ProximityRecord {
            player_id: players[i].id.clone(),
            proximity: PlayerProximity { nearby_players, nearby_buildings, immune, location: pos },
        };
        out.push(rec);
        i = i + 1;
    }
    Ok(out)
}

/// The whole effect of a successful proximity tick on a running game: every
/// active player's snapshot stands, computed from the location the feed gave
/// their mobile unit.
pub open spec fn proximity_tick_ok(pre: World, post: World, data: crate::feed::Data) -> bool {
    let active = crate::world::roster_players(pre.roster@, pre.players@);
    &&& exists|locs: Seq<Location>|
        {
            &&& locs.len() == active.len()
            &&& (forall|i: int|
                0 <= i < active.len() ==> crate::feed::located_at(
                    data.game.state.nodes@,
                    active[i],
                    #[trigger] locs[i],
                ))
            &&& #[trigger] all_bounded(location_cubes(locs))
            &&& post.proximities@.len() == active.len()
            &&& (forall|i: int|
                0 <= i < active.len() ==> snapshot_ok(
                    #[trigger] post.proximities@[i],
                    i,
                    active,
                    location_cubes(locs),
                    pre.buildings@,
                    building_cubes(pre.buildings@),
                ))
        }
    &&& post.game == pre.game
    &&& post.players == pre.players
    &&& post.roster == pre.roster
    &&& post.buildings == pre.buildings
    &&& post.tasks == pre.tasks
    &&& post.actions == pre.actions
    &&& post.votes == pre.votes
    &&& post.results == pre.results
}

/// The proximity job: on a running game with an active roster, resolves each
/// active player's location from the feed, recomputes every snapshot and
/// writes them wholesale. An ended game, or an empty roster, is left alone.
/// A unit the feed cannot resolve, or a coordinate that does not decode, is
/// fatal for the whole tick: nothing is written.
pub fn proximity_run(w: &mut World, data: &crate::feed::Data) -> (outcome: Result<(), JobError>)
    requires
        old(w).wf(),
    ensures
        final(w).wf(),
        match outcome {
            Ok(()) => {
                if old(w).game.status == crate::types::GameStatus::End || old(w).roster@.len()
                    == 0 {
                    *final(w) == *old(w)
                } else {
                    proximity_tick_ok(*old(w), *final(w), *data)
                }
            },
            Err(e) => {
                &&& e == JobError::Unknown
                &&& *final(w) == *old(w)
                &&& !(old(w).game.status == crate::types::GameStatus::End || old(
                    w,
                ).roster@.len() == 0)
                &&& {
                    let active = crate::world::roster_players(old(w).roster@, old(w).players@);
                    ||| exists|i: int|
                        0 <= i < active.len() && !crate::feed::resolvable(
                            data.game.state.nodes@,
                            #[trigger] active[i],
                        )
                    ||| !all_bounded(building_cubes(old(w).buildings@))
                    ||| exists|locs: Seq<Location>|
                        #![auto]
                        locs.len() == active.len() && (forall|i: int|
                            0 <= i < active.len() ==> crate::feed::located_at(
                                data.game.state.nodes@,
                                active[i],
                                locs[i],
                            )) && !all_bounded(location_cubes(locs))
                }
            },
        },
{
    if w.game.status == crate::types::GameStatus::End {
        return Ok(());
    }
    let active = crate::world::active_players(w);
    if active.len() == 0 {
        return Ok(());
    }
    let locations = match crate::feed::update_locations_player(data, &active) {
        Ok(locs) => locs,
        Err(e) => {
            return Err(e);
        },
    };
    let snapshots = match calculate_distance(&active, &locations, &w.buildings) {
        Ok(out) => out,
        Err(e) => {
            return Err(e);
        },
    };
    proof {
        let roster0 = old(w).roster@;
        assert forall|i: int, j: int|
            0 <= i < j < snapshots@.len() implies #[trigger] snapshots@[i].player_id@
            != #[trigger] snapshots@[j].player_id@ by {
            assert(snapshots@[i].player_id == active@[i].id);
            assert(snapshots@[j].player_id == active@[j].id);
            assert(active@[i] == crate::world::the_player(old(w).players@, roster0[i]@));
            assert(active@[j] == crate::world::the_player(old(w).players@, roster0[j]@));
            assert(crate::world::has_player(old(w).players@, roster0[i]@));
            assert(crate::world::has_player(old(w).players@, roster0[j]@));
            assert(active@[i].id@ == roster0[i]@);
            assert(active@[j].id@ == roster0[j]@);
        }
    }
    w.proximities = snapshots;
    Ok(())
}

} // verus!
