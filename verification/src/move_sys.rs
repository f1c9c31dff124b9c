//! Movement: per-tick avatar stepping along precomputed paths.
//!
//! `start_move` computes a full route via `path::full_route` and stores the
//! flattened step sequence in the `PathStore`. `step_all` advances every
//! stored path by one step per call and reports the avatars that reached
//! their target. Room changes come only from the door steps that
//! `start_move` planned, never from coincidental tile matches.

use vstd::prelude::*;
use std::collections::VecDeque;
use crate::path::{
    Tile, Door, RoomGraph, links_for, full_route, full_route_spec, segments_view, all_bounds_ok,
    door_tiles_ok, route_walkable,
};
use crate::seed::{TownLayout, RoomDef, DoorDef, room_spec, bounds_entries};
use crate::state::{WorldView, AvatarView, avatar_index};

verus! {

/// One step of a precomputed route: the tile to move onto and, for a
/// planned door crossing, the room entered on arrival.
#[derive(Debug)]
pub struct Step {
    pub tile: (i32, i32),
    pub enter_room: Option<String>,
}

impl Clone for Step {
    fn clone(&self) -> (r: Self)
        ensures
            r == *self,
    {
        let e = match &self.enter_room {
            Some(s) => Some(s.clone()),
            None => None,
        };
        Step { tile: self.tile, enter_room: e }
    }
}

/// Per-agent precomputed paths, keyed by agent id (no id occurs twice).
pub type PathStore = Vec<(String, VecDeque<Step>)>;

/// Result of `start_move`, turned into a worker reply by the caller.
#[derive(Debug, Clone, Copy, PartialEq, Eq, Structural)]
pub enum StartMoveResult {
    /// The move started (or the agent already stands on the target).
    Accepted,
    NoPath,
    PermissionDenied,
    NoSuchAgent,
}

#[derive(Debug)]
pub enum MoveEvent {
    Complete { agent_id: String, room_id: String },
}

pub type StepView = (Tile, Option<Seq<char>>);

pub open spec fn step_view(s: Step) -> StepView {
    (
        s.tile,
        match s.enter_room {
            Some(r) => Some(r@),
            None => None,
        },
    )
}

pub open spec fn steps_view(q: VecDeque<Step>) -> Seq<StepView> {
    q@.map_values(|s: Step| step_view(s))
}

pub open spec fn store_view(ps: PathStore) -> Seq<(Seq<char>, Seq<StepView>)> {
    ps@.map_values(|e: (String, VecDeque<Step>)| (e.0@, steps_view(e.1)))
}

pub open spec fn store_keys_unique(es: Seq<(Seq<char>, Seq<StepView>)>) -> bool {
    forall|i: int, j: int| 0 <= i < j < es.len() ==> (#[trigger] es[i]).0 != (#[trigger] es[j]).0
}

/// The stored path of agent `id`.
pub open spec fn store_path(es: Seq<(Seq<char>, Seq<StepView>)>, id: Seq<char>) -> Option<Seq<StepView>> {
    if exists|i: int| 0 <= i < es.len() && (#[trigger] es[i]).0 == id {
        Some(es[choose|i: int| 0 <= i < es.len() && (#[trigger] es[i]).0 == id].1)
    } else {
        None
    }
}

pub proof fn lemma_store_path_at(es: Seq<(Seq<char>, Seq<StepView>)>, i: int)
    requires
        store_keys_unique(es),
        0 <= i < es.len(),
    ensures
        store_path(es, es[i].0) == Some(es[i].1),
{
    let j = choose|j: int| 0 <= j < es.len() && (#[trigger] es[j]).0 == es[i].0;
    if j < i {
        assert(es[j].0 != es[i].0);
    } else if j > i {
        assert(es[i].0 != es[j].0);
    }
}

pub proof fn lemma_store_path_absent(es: Seq<(Seq<char>, Seq<StepView>)>, id: Seq<char>)
    requires
        forall|i: int| 0 <= i < es.len() ==> (#[trigger] es[i]).0 != id,
    ensures
        store_path(es, id) is None,
{
}

/// Paths of a prefix: an agent's path appears once its entry is reached.
pub proof fn lemma_store_path_prefix(es: Seq<(Seq<char>, Seq<StepView>)>, k: int, id: Seq<char>)
    requires
        store_keys_unique(es),
        0 <= k < es.len(),
    ensures
        store_path(es.take(k + 1), id) == if id == es[k].0 {
            Some(es[k].1)
        } else {
            store_path(es.take(k), id)
        },
{
    let a = es.take(k + 1);
    let b = es.take(k);
    assert(store_keys_unique(a));
    assert(store_keys_unique(b));
    if id == es[k].0 {
        assert(a[k] == es[k]);
        lemma_store_path_at(a, k);
    } else {
        if exists|i: int| 0 <= i < b.len() && (#[trigger] b[i]).0 == id {
            let i = choose|i: int| 0 <= i < b.len() && (#[trigger] b[i]).0 == id;
            assert(a[i] == b[i]);
            lemma_store_path_at(a, i);
            lemma_store_path_at(b, i);
        } else {
            assert forall|i: int| 0 <= i < a.len() implies (#[trigger] a[i]).0 != id by {
                if i < k {
                    assert(a[i] == b[i]);
                }
            }
        }
    }
}

// ───────────────────────────── routes to steps ─────────────────────────────

/// The candidate step for tile `j` of segment `i`: the last tile of every
/// segment but the last is a door step into the next segment's room.
pub open spec fn cand(route: Seq<(Seq<char>, Seq<Tile>)>, i: int, j: int) -> StepView {
    (
        route[i].1[j],
        if i + 1 < route.len() && j == route[i].1.len() - 1 {
            Some(route[i + 1].0)
        } else {
            None
        },
    )
}

pub open spec fn seg_cands(route: Seq<(Seq<char>, Seq<Tile>)>, i: int) -> Seq<StepView> {
    Seq::new(route[i].1.len(), |j: int| cand(route, i, j))
}

pub open spec fn flat_upto(route: Seq<(Seq<char>, Seq<Tile>)>, n: int) -> Seq<StepView>
    decreases n,
{
    if n <= 0 {
        Seq::empty()
    } else {
        flat_upto(route, n - 1) + seg_cands(route, n - 1)
    }
}

/// Drop candidates whose tile repeats the previously kept one; a repeat
/// that enters a room (the door tile of a segment whose exit already is
/// that door) passes its room on to the kept step. Returns the kept steps
/// and the last kept tile.
pub open spec fn dedupe_state(c: Seq<StepView>) -> (Seq<StepView>, Option<Tile>)
    decreases c.len(),
{
    if c.len() == 0 {
        (Seq::empty(), None)
    } else {
        let pre = dedupe_state(c.drop_last());
        let x = c.last();
        if pre.1 == Some(x.0) {
            if x.1 is Some {
                (pre.0.drop_last().push(x), pre.1)
            } else {
                pre
            }
        } else {
            (pre.0.push(x), Some(x.0))
        }
    }
}

/// The step queue for a route starting at `from`: the deduplicated
/// candidates, without a leading step onto `from` itself unless that step
/// enters a room.
pub open spec fn steps_spec(route: Seq<(Seq<char>, Seq<Tile>)>, from: Tile) -> Seq<StepView> {
    let s = dedupe_state(flat_upto(route, route.len() as int)).0;
    if s.len() > 0 && s[0].0 == from && s[0].1 is None {
        s.drop_first()
    } else {
        s
    }
}

/// The last kept tile is the tile of the last kept step.
proof fn lemma_dedupe_tracks_last(c: Seq<StepView>)
    ensures
        dedupe_state(c).1 is None <==> dedupe_state(c).0.len() == 0,
        dedupe_state(c).1 matches Some(t) ==> dedupe_state(c).0.last().0 == t,
    decreases c.len(),
{
    if c.len() > 0 {
        lemma_dedupe_tracks_last(c.drop_last());
    }
}

/// Flatten a segmented route into a step queue (see `steps_spec`).
pub fn build_steps(route: &Vec<(String, Vec<Tile>)>, from: Tile) -> (q: VecDeque<Step>)
    ensures
        steps_view(q) == steps_spec(segments_view(*route), from),
{
    let ghost rv = segments_view(*route);
    let mut steps: VecDeque<Step> = VecDeque::new();
    let mut last_tile: Option<Tile> = None;
    let mut i: usize = 0;
    proof {
        assert(steps_view(steps) =~= Seq::<StepView>::empty());
    }
    while i < route.len()
        invariant
            0 <= i <= route@.len(),
            rv == segments_view(*route),
            (steps_view(steps), last_tile) == dedupe_state(flat_upto(rv, i as int)),
        decreases route.len() - i,
    {
        let seg = &route[i].1;
        let is_last_segment = i + 1 == route.len();
        let last_idx: usize = if seg.len() == 0 { 0 } else { seg.len() - 1 };
        let next_idx: usize = i + 1;
        let mut j: usize = 0;
        proof {
            assert(seg_cands(rv, i as int).take(0) =~= Seq::<StepView>::empty());
            assert(flat_upto(rv, i as int) + seg_cands(rv, i as int).take(0) =~= flat_upto(rv, i as int));
        }
        while j < seg.len()
            invariant
                0 <= i < route@.len(),
                0 <= j <= seg@.len(),
                seg == &route@[i as int].1,
                rv == segments_view(*route),
                is_last_segment == (i + 1 == route@.len()),
                next_idx == i + 1,
                last_idx == if seg@.len() == 0 { 0 } else { seg@.len() - 1 },
                (steps_view(steps), last_tile) == dedupe_state(
                    flat_upto(rv, i as int) + seg_cands(rv, i as int).take(j as int),
                ),
            decreases seg.len() - j,
        {
            let t = seg[j];
            let ghost before = flat_upto(rv, i as int) + seg_cands(rv, i as int).take(j as int);
            let ghost after = flat_upto(rv, i as int) + seg_cands(rv, i as int).take(j as int + 1);
            proof {
                assert(rv[i as int].1 == seg@);
                assert(after =~= before.push(cand(rv, i as int, j as int)));
                assert(after.drop_last() =~= before);
                assert(cand(rv, i as int, j as int).0 == t);
            }
            let repeat = match last_tile {
                Some(lt) => lt.0 == t.0 && lt.1 == t.1,
                None => false,
            };
            let enters = !is_last_segment && j == last_idx;
            if repeat && enters {
                proof {
                    lemma_dedupe_tracks_last(before);
                    assert(rv[i as int + 1].0 == route@[i as int + 1].0@);
                }
                let ghost old_steps = steps_view(steps);
                let _ = steps.pop_back();
                steps.push_back(Step { tile: t, enter_room: Some(route[next_idx].0.clone()) });
                proof {
                    assert(steps_view(steps) =~= old_steps.drop_last().push(cand(rv, i as int, j as int)));
                }
            }
            if !repeat {
                let enter_room = if enters {
                    proof {
                        assert(rv[i as int + 1].0 == route@[i as int + 1].0@);
                    }
                    Some(route[next_idx].0.clone())
                } else {
                    None
                };
                let ghost old_steps = steps_view(steps);
                steps.push_back(Step { tile: t, enter_room });
                proof {
                    assert(steps_view(steps) =~= old_steps.push(cand(rv, i as int, j as int)));
                }
                last_tile = Some(t);
            }
            j += 1;
        }
        proof {
            assert(seg_cands(rv, i as int).take(seg@.len() as int) =~= seg_cands(rv, i as int));
            assert(flat_upto(rv, i as int + 1) == flat_upto(rv, i as int) + seg_cands(rv, i as int));
        }
        i += 1;
    }
    let drop_first = if steps.len() > 0 {
        steps[0].tile.0 == from.0 && steps[0].tile.1 == from.1 && steps[0].enter_room.is_none()
    } else {
        false
    };
    if drop_first {
        let ghost before = steps_view(steps);
        let _ = steps.pop_front();
        proof {
            assert(steps_view(steps) =~= before.drop_first());
        }
    }
    steps
}

// ───────────────────────────── permissions ─────────────────────────────

/// The layout's rule for entering a room: common rooms are open to all, a
/// private room only to its own startup, an unknown room to nobody.
pub open spec fn can_enter_layout_room_spec(rooms: Seq<RoomDef>, startup_id: Seq<char>, room_id: Seq<char>) -> bool {
    match room_spec(rooms, room_id) {
        Some(r) => match r.private_to_startup_id {
            None => true,
            Some(owner) => owner@ == startup_id,
        },
        None => false,
    }
}

/// A startup may enter a common room of the layout and its own suites,
/// never another startup's suite nor a room the layout lacks.
pub proof fn law_layout_room_access(rooms: Seq<RoomDef>, startup_id: Seq<char>, room_id: Seq<char>)
    ensures
        room_spec(rooms, room_id) is None ==> !can_enter_layout_room_spec(rooms, startup_id, room_id),
        (room_spec(rooms, room_id) matches Some(r) && r.private_to_startup_id is None) ==> can_enter_layout_room_spec(
            rooms,
            startup_id,
            room_id,
        ),
        (room_spec(rooms, room_id) matches Some(r) && (r.private_to_startup_id matches Some(o) && o@ != startup_id))
            ==> !can_enter_layout_room_spec(rooms, startup_id, room_id),
        (room_spec(rooms, room_id) matches Some(r) && (r.private_to_startup_id matches Some(o) && o@ == startup_id))
            ==> can_enter_layout_room_spec(rooms, startup_id, room_id),
{
}

/// Whether an agent of `startup_id` may enter `room_id` of `layout`.
pub fn can_enter_layout_room(layout: &TownLayout, startup_id: &str, room_id: &str) -> (r: bool)
    ensures
        r == can_enter_layout_room_spec(layout.rooms@, startup_id@, room_id@),
{
    match layout.room(room_id) {
        Some(r) => match &r.private_to_startup_id {
            None => true,
            Some(owner) => {
                let sid = startup_id.to_owned();
                *owner == sid
            },
        },
        None => false,
    }
}

pub open spec fn door_of(d: DoorDef) -> Door {
    Door { a: d.a_room, b: d.b_room, tile: d.tile }
}

/// Build the room graph of a layout's doors.
pub fn graph_from_layout(layout: &TownLayout) -> (g: RoomGraph)
    ensures
        g.wf(),
        g.doors@ == layout.doors@.map_values(|d: DoorDef| door_of(d)),
        forall|r: Seq<char>|
            #[trigger] g.links(r) == links_for(layout.doors@.map_values(|d: DoorDef| door_of(d)), r),
{
    let mut doors: Vec<Door> = Vec::new();
    let mut i: usize = 0;
    while i < layout.doors.len()
        invariant
            0 <= i <= layout.doors@.len(),
            doors@ == layout.doors@.take(i as int).map_values(|d: DoorDef| door_of(d)),
        decreases layout.doors.len() - i,
    {
        let d = &layout.doors[i];
        doors.push(Door { a: d.a_room.clone(), b: d.b_room.clone(), tile: d.tile });
        proof {
            assert(layout.doors@.take(i as int + 1).map_values(|d: DoorDef| door_of(d)) =~= layout.doors@.take(
                i as int,
            ).map_values(|d: DoorDef| door_of(d)).push(door_of(layout.doors@[i as int])));
        }
        i += 1;
    }
    proof {
        assert(layout.doors@.take(layout.doors@.len() as int) =~= layout.doors@);
    }
    RoomGraph::from_doors(doors)
}

// ───────────────────────────── path store ─────────────────────────────

/// Store `steps` as the path of `key`, replacing a previous one.
pub fn store_insert(paths: &mut PathStore, key: String, steps: VecDeque<Step>)
    requires
        store_keys_unique(store_view(*old(paths))),
    ensures
        store_keys_unique(store_view(*final(paths))),
        forall|i: int|
            0 <= i < store_view(*old(paths)).len() && (#[trigger] store_view(*old(paths))[i]).0
                == key@ ==> store_view(*final(paths)) == store_view(*old(paths)).update(
                i,
                (key@, steps_view(steps)),
            ),
        (forall|i: int|
            0 <= i < store_view(*old(paths)).len() ==> (#[trigger] store_view(*old(paths))[i]).0
                != key@) ==> store_view(*final(paths)) == store_view(*old(paths)).push(
            (key@, steps_view(steps)),
        ),
        forall|id: Seq<char>|
            #[trigger] store_path(store_view(*final(paths)), id) == if id == key@ {
                Some(steps_view(steps))
            } else {
                store_path(store_view(*old(paths)), id)
            },
{
    let ghost o = store_view(*paths);
    let ghost sv = steps_view(steps);
    let mut i: usize = 0;
    while i < paths.len()
        invariant
            0 <= i <= paths@.len(),
            o == store_view(*paths),
            *paths == *old(paths),
            sv == steps_view(steps),
            store_keys_unique(o),
            forall|j: int| 0 <= j < i ==> (#[trigger] o[j]).0 != key@,
        decreases paths.len() - i,
    {
        if paths[i].0 == key {
            let ghost pv = paths@;
            let ghost kv = key@;
            paths.set(i, (key, steps));
            proof {
                assert(paths@ == pv.update(i as int, paths@[i as int]));
                assert(paths@[i as int].0@ == kv);
                assert(steps_view(paths@[i as int].1) == sv);
                let n = store_view(*paths);
                assert(n =~= o.update(i as int, (key@, sv)));
                assert forall|a: int, b: int| 0 <= a < b < n.len() implies (#[trigger] n[a]).0 != (
                #[trigger] n[b]).0 by {
                    assert(o[i as int].0 == key@);
                }
                assert forall|id: Seq<char>| #[trigger] store_path(n, id) == if id == key@ {
                    Some(sv)
                } else {
                    store_path(o, id)
                } by {
                    if id == key@ {
                        lemma_store_path_at(n, i as int);
                    } else if exists|j: int| 0 <= j < o.len() && (#[trigger] o[j]).0 == id {
                        let j = choose|j: int| 0 <= j < o.len() && (#[trigger] o[j]).0 == id;
                        lemma_store_path_at(o, j);
                        lemma_store_path_at(n, j);
                    } else {
                        assert forall|j: int| 0 <= j < n.len() implies (#[trigger] n[j]).0 != id by {
                            if j != i {
                                assert(n[j] == o[j]);
                            }
                        }
                    }
                }
                assert(o[i as int].0 == kv);
                assert forall|x: int| 0 <= x < o.len() && (#[trigger] o[x]).0 == kv implies x == i by {
                    if x < i {
                        assert(o[x].0 != o[i as int].0);
                    } else if x > i {
                        assert(o[i as int].0 != o[x].0);
                    }
                }
            }
            return;
        }
        i += 1;
    }
    paths.push((key, steps));
    proof {
        let n = store_view(*paths);
        assert(n =~= o.push((key@, sv)));
        assert forall|a: int, b: int| 0 <= a < b < n.len() implies (#[trigger] n[a]).0 != (
        #[trigger] n[b]).0 by {
            if b == o.len() {
                assert(n[a] == o[a]);
            }
        }
        assert forall|id: Seq<char>| #[trigger] store_path(n, id) == if id == key@ {
            Some(sv)
        } else {
            store_path(o, id)
        } by {
            if id == key@ {
                lemma_store_path_at(n, o.len() as int);
            } else if exists|j: int| 0 <= j < o.len() && (#[trigger] o[j]).0 == id {
                let j = choose|j: int| 0 <= j < o.len() && (#[trigger] o[j]).0 == id;
                lemma_store_path_at(o, j);
                lemma_store_path_at(n, j);
            } else {
                assert forall|j: int| 0 <= j < n.len() implies (#[trigger] n[j]).0 != id by {
                    if j < o.len() {
                        assert(n[j] == o[j]);
                    }
                }
            }
        }
    }
}

// ───────────────────────────── start_move ─────────────────────────────

/// The layout and graph that movement runs on: rooms with bounds the grid
/// search handles, door tiles with representable neighbours.
pub open spec fn movement_ready(layout: TownLayout, graph: RoomGraph) -> bool {
    &&& graph.wf()
    &&& all_bounds_ok(bounds_entries(layout.rooms@))
    &&& door_tiles_ok(graph)
}

/// Begin a move for `agent_id` toward `(target_x, target_y)` in
/// `target_room`: compute the path via `path::full_route`, store its
/// steps and set the avatar's `target_pos`. The first tile of the route is
/// the agent's own and is not stepped onto.
pub fn start_move(
    world: &mut WorldView,
    paths: &mut PathStore,
    layout: &TownLayout,
    graph: &RoomGraph,
    agent_id: &str,
    target_room: &str,
    target_x: i32,
    target_y: i32,
) -> (r: StartMoveResult)
    requires
        old(world).wf(),
        store_keys_unique(store_view(*old(paths))),
        movement_ready(*layout, *graph),
    ensures
        final(world).wf(),
        store_keys_unique(store_view(*final(paths))),
        final(world).tick_seq == old(world).tick_seq,
        final(world).backend_catalog == old(world).backend_catalog,
        match avatar_index(old(world).avatars@, agent_id@) {
            None => r == StartMoveResult::NoSuchAgent && *final(world) == *old(world) && *final(paths)
                == *old(paths),
            Some(i) => {
                let a = old(world).avatars@[i];
                if !can_enter_layout_room_spec(layout.rooms@, a.startup_id@, target_room@) {
                    r == StartMoveResult::PermissionDenied && *final(world) == *old(world)
                        && *final(paths) == *old(paths)
                } else {
                    match full_route_spec(
                        *graph,
                        bounds_entries(layout.rooms@),
                        (a.room_id@, a.current_pos),
                        (target_room@, (target_x, target_y)),
                    ) {
                        None => r == StartMoveResult::NoPath && *final(world) == *old(world)
                            && *final(paths) == *old(paths),
                        Some(route) => {
                            let steps = steps_spec(route, a.current_pos);
                            &&& r == StartMoveResult::Accepted
                            &&& route_walkable(route, a.current_pos, (target_x, target_y))
                            &&& route[0].0 == a.room_id@
                            &&& route.last().0 == target_room@
                            &&& final(world).avatars@ == old(world).avatars@.update(
                                i,
                                AvatarView {
                                    target_pos: if steps.len() == 0 {
                                        None
                                    } else {
                                        Some((target_x, target_y))
                                    },
                                    ..a
                                },
                            )
                            &&& if steps.len() == 0 {
                                *final(paths) == *old(paths)
                            } else {
                                forall|id: Seq<char>|
                                    #[trigger] store_path(store_view(*final(paths)), id) == if id
                                        == agent_id@ {
                                        Some(steps)
                                    } else {
                                        store_path(store_view(*old(paths)), id)
                                    }
                            }
                        },
                    }
                }
            },
        },
{
    let idx = match world.find(agent_id) {
        Some(i) => i,
        None => return StartMoveResult::NoSuchAgent,
    };
    let startup_id = world.avatars[idx].startup_id.clone();
    if !can_enter_layout_room(layout, startup_id.as_str(), target_room) {
        return StartMoveResult::PermissionDenied;
    }
    let from = world.avatars[idx].current_pos;
    let from_room = world.avatars[idx].room_id.clone();
    let bounds = layout.room_bounds_map();
    let route = match full_route(
        graph,
        &bounds,
        (from_room.as_str(), from),
        (target_room, (target_x, target_y)),
    ) {
        Some(r) => r,
        None => return StartMoveResult::NoPath,
    };
    let steps = build_steps(&route, from);
    let ghost o = world.avatars@;
    let mut avatar = world.avatars.remove(idx);
    if steps.len() == 0 {
        avatar.target_pos = None;
        world.avatars.insert(idx, avatar);
        proof {
            assert(world.avatars@ =~= o.update(idx as int, world.avatars@[idx as int]));
            assert forall|x: int, y: int| 0 <= x < y < world.avatars@.len() implies (#[trigger] world.avatars@[x]).agent_id@
                != (#[trigger] world.avatars@[y]).agent_id@ by {
                assert(o[x].agent_id@ != o[y].agent_id@);
            }
        }
        return StartMoveResult::Accepted;
    }
    avatar.target_pos = Some((target_x, target_y));
    world.avatars.insert(idx, avatar);
    proof {
        assert(world.avatars@ =~= o.update(idx as int, world.avatars@[idx as int]));
        assert forall|x: int, y: int| 0 <= x < y < world.avatars@.len() implies (#[trigger] world.avatars@[x]).agent_id@
            != (#[trigger] world.avatars@[y]).agent_id@ by {
            assert(o[x].agent_id@ != o[y].agent_id@);
        }
    }
    store_insert(paths, agent_id.to_owned(), steps);
    StartMoveResult::Accepted
}

// ───────────────────────────── step_all ─────────────────────────────

pub open spec fn has_avatar(avs: Seq<AvatarView>, id: Seq<char>) -> bool {
    avatar_index(avs, id) is Some
}

/// The room an avatar is in after taking step `s`.
pub open spec fn arrival_room(a: AvatarView, s: StepView) -> Seq<char> {
    match s.1 {
        Some(r) => r,
        None => a.room_id@,
    }
}

/// The paths left after one tick: those of present avatars with at least
/// two steps, minus their first step, in store order.
pub open spec fn survivors(es: Seq<(Seq<char>, Seq<StepView>)>, avs: Seq<AvatarView>) -> Seq<(Seq<char>, Seq<StepView>)>
    decreases es.len(),
{
    if es.len() == 0 {
        Seq::empty()
    } else {
        let pre = survivors(es.drop_last(), avs);
        let e = es.last();
        if has_avatar(avs, e.0) && e.1.len() >= 2 {
            pre.push((e.0, e.1.drop_first()))
        } else {
            pre
        }
    }
}

/// The arrivals of one tick: `(agent_id, room_id)` for every present
/// avatar with exactly one step left, in store order.
pub open spec fn completions(es: Seq<(Seq<char>, Seq<StepView>)>, avs: Seq<AvatarView>) -> Seq<(Seq<char>, Seq<char>)>
    decreases es.len(),
{
    if es.len() == 0 {
        Seq::empty()
    } else {
        let pre = completions(es.drop_last(), avs);
        let e = es.last();
        if has_avatar(avs, e.0) && e.1.len() == 1 {
            pre.push((e.0, arrival_room(avs[avatar_index(avs, e.0)->Some_0], e.1[0])))
        } else {
            pre
        }
    }
}

/// Avatar `n` is avatar `o` after one tick along its stored path `p`.
pub open spec fn advanced(o: AvatarView, n: AvatarView, p: Option<Seq<StepView>>) -> bool {
    &&& n.agent_id == o.agent_id
    &&& n.startup_id == o.startup_id
    &&& n.role == o.role
    &&& n.backend == o.backend
    &&& n.status == o.status
    &&& n.last_seen_at == o.last_seen_at
    &&& n.health == o.health
    &&& match p {
        None => n.current_pos == o.current_pos && n.target_pos == o.target_pos && n.room_id == o.room_id,
        Some(q) => if q.len() == 0 {
            n.current_pos == o.current_pos && n.target_pos is None && n.room_id == o.room_id
        } else {
            &&& n.current_pos == q[0].0
            &&& n.room_id@ == arrival_room(o, q[0])
            &&& q[0].1 is None ==> n.room_id == o.room_id
            &&& n.target_pos == if q.len() == 1 {
                None
            } else {
                o.target_pos
            }
        },
    }
}

pub open spec fn events_view(v: Vec<MoveEvent>) -> Seq<(Seq<char>, Seq<char>)> {
    v@.map_values(
        |e: MoveEvent|
            match e {
                MoveEvent::Complete { agent_id, room_id } => (agent_id@, room_id@),
            },
    )
}

/// Per-tick step: every stored path advances by one step. An avatar whose
/// path runs out has its `target_pos` cleared and is reported as arrived;
/// paths of missing avatars and finished paths are dropped. Door
/// transitions come from the planned `Step::enter_room` only.
pub fn step_all(world: &mut WorldView, paths: &mut PathStore, _layout: &TownLayout) -> (events: Vec<MoveEvent>)
    requires
        old(world).wf(),
        store_keys_unique(store_view(*old(paths))),
    ensures
        final(world).wf(),
        final(world).tick_seq == old(world).tick_seq,
        final(world).backend_catalog == old(world).backend_catalog,
        final(world).avatars@.len() == old(world).avatars@.len(),
        forall|i: int|
            0 <= i < old(world).avatars@.len() ==> advanced(
                #[trigger] old(world).avatars@[i],
                final(world).avatars@[i],
                store_path(store_view(*old(paths)), old(world).avatars@[i].agent_id@),
            ),
        store_view(*final(paths)) == survivors(store_view(*old(paths)), old(world).avatars@),
        store_keys_unique(store_view(*final(paths))),
        events_view(events) == completions(store_view(*old(paths)), old(world).avatars@),
{
    let ghost avs = world.avatars@;
    let ghost es = store_view(*paths);
    let mut pending: PathStore = Vec::new();
    std::mem::swap(paths, &mut pending);
    let mut kept: PathStore = Vec::new();
    let mut events: Vec<MoveEvent> = Vec::new();
    let n = pending.len();
    let mut k: usize = 0;
    proof {
        assert(es.take(0) =~= Seq::<(Seq<char>, Seq<StepView>)>::empty());
        assert(store_view(pending).subrange(0, n as int) =~= store_view(pending));
    }
    while k < n
        invariant
            0 <= k <= n,
            n == es.len(),
            store_keys_unique(es),
            store_view(pending) == es.subrange(k as int, n as int),
            world.wf(),
            world.tick_seq == old(world).tick_seq,
            world.backend_catalog == old(world).backend_catalog,
            world.avatars@.len() == avs.len(),
            avs == old(world).avatars@,
            ids_unique_avs(avs),
            forall|i: int|
                0 <= i < avs.len() ==> advanced(
                    #[trigger] avs[i],
                    world.avatars@[i],
                    store_path(es.take(k as int), avs[i].agent_id@),
                ),
            store_view(kept) == survivors(es.take(k as int), avs),
            events_view(events) == completions(es.take(k as int), avs),
        decreases n - k,
    {
        let ghost pv = store_view(pending);
        let ghost raw = pending@;
        proof {
            assert(raw.len() == pv.len());
            assert(pv.len() == n - k);
        }
        let entry = pending.remove(0);
        proof {
            assert(pv[0] == es[k as int]);
            assert(pending@ =~= raw.subrange(1, raw.len() as int));
            assert(store_view(pending) =~= pv.subrange(1, pv.len() as int));
            assert(store_view(pending) =~= es.subrange(k as int + 1, n as int));
            assert(es.take(k as int + 1).drop_last() =~= es.take(k as int));
            assert(es.take(k as int + 1).last() == es[k as int]);
            assert forall|id: Seq<char>| true implies store_path(es.take(k as int + 1), id) == if id == es[k as int].0 {
                Some(es[k as int].1)
            } else {
                store_path(es.take(k as int), id)
            } by {
                lemma_store_path_prefix(es, k as int, id);
            }
        }
        let (agent_id, mut path) = entry;
        let ghost e = es[k as int];
        proof {
            assert(agent_id@ == e.0);
            assert(steps_view(path) == e.1);
            // the avatar of this entry has not been touched yet
            assert forall|j: int| 0 <= j < k implies (#[trigger] es[j]).0 != e.0 by {
                assert(es[j].0 != es[k as int].0);
            }
            lemma_store_path_absent(es.take(k as int), e.0);
        }
        match world.find(agent_id.as_str()) {
            None => {
                proof {
                    assert(!has_avatar(avs, e.0));
                    assert forall|i: int| 0 <= i < avs.len() implies advanced(
                        #[trigger] avs[i],
                        world.avatars@[i],
                        store_path(es.take(k as int + 1), avs[i].agent_id@),
                    ) by {
                        lemma_store_path_prefix(es, k as int, avs[i].agent_id@);
                        if avs[i].agent_id@ == e.0 {
                            assert(world.avatars@[i].agent_id@ == avs[i].agent_id@);
                        }
                    }
                }
            },
            Some(idx) => {
                let ghost w0 = world.avatars@;
                proof {
                    assert(w0[idx as int].agent_id@ == e.0);
                    assert(avs[idx as int].agent_id@ == e.0);
                    crate::state::lemma_avatar_index(avs, idx as int);
                    lemma_store_path_prefix(es, k as int, e.0);
                    assert(store_path(es.take(k as int), e.0) is None);
                    assert(w0[idx as int] == avs[idx as int]) by {
                        assert(advanced(avs[idx as int], w0[idx as int], store_path(es.take(k as int), avs[idx as int].agent_id@)));
                    }
                }
                let mut avatar = world.avatars.remove(idx);
                let ghost pv0 = steps_view(path);
                let popped = path.pop_front();
                match popped {
                    None => {
                        avatar.target_pos = None;
                        world.avatars.insert(idx, avatar);
                    },
                    Some(step) => {
                        proof {
                            assert(step_view(step) == pv0[0]);
                            assert(steps_view(path) =~= pv0.drop_first());
                        }
                        avatar.current_pos = step.tile;
                        match step.enter_room {
                            Some(r) => {
                                avatar.room_id = r;
                            },
                            None => {},
                        }
                        if path.len() == 0 {
                            avatar.target_pos = None;
                            let ghost ev0 = events_view(events);
                            events.push(
                                MoveEvent::Complete {
                                    agent_id: agent_id.clone(),
                                    room_id: avatar.room_id.clone(),
                                },
                            );
                            proof {
                                assert(events_view(events) =~= ev0.push((e.0, avatar.room_id@)));
                            }
                            world.avatars.insert(idx, avatar);
                        } else {
                            world.avatars.insert(idx, avatar);
                            let ghost kv0 = store_view(kept);
                            kept.push((agent_id, path));
                            proof {
                                assert(store_view(kept) =~= kv0.push((e.0, e.1.drop_first())));
                            }
                        }
                    },
                }
                proof {
                    let w1 = world.avatars@;
                    assert(w1 =~= w0.update(idx as int, w1[idx as int]));
                    assert forall|x: int, y: int| 0 <= x < y < w1.len() implies (#[trigger] w1[x]).agent_id@
                        != (#[trigger] w1[y]).agent_id@ by {
                        assert(w0[x].agent_id@ != w0[y].agent_id@);
                    }
                    assert forall|i: int| 0 <= i < avs.len() implies advanced(
                        #[trigger] avs[i],
                        w1[i],
                        store_path(es.take(k as int + 1), avs[i].agent_id@),
                    ) by {
                        lemma_store_path_prefix(es, k as int, avs[i].agent_id@);
                        if i != idx {
                            assert(avs[i].agent_id@ != avs[idx as int].agent_id@) by {
                                if i < idx {
                                    assert(avs[i].agent_id@ != avs[idx as int].agent_id@);
                                } else {
                                    assert(avs[idx as int].agent_id@ != avs[i].agent_id@);
                                }
                            }
                        }
                    }
                }
            },
        }
        k += 1;
    }
    proof {
        assert(es.take(n as int) =~= es);
        assert forall|a: int, b: int| 0 <= a < b < store_view(kept).len() implies (#[trigger] store_view(kept)[a]).0
            != (#[trigger] store_view(kept)[b]).0 by {
            lemma_survivors_unique(es, avs);
        }
    }
    *paths = kept;
    events
}

pub open spec fn ids_unique_avs(avs: Seq<AvatarView>) -> bool {
    crate::state::ids_unique(avs)
}

/// Survivors keep their keys in store order, so they stay unique.
pub proof fn lemma_survivors_unique(es: Seq<(Seq<char>, Seq<StepView>)>, avs: Seq<AvatarView>)
    requires
        store_keys_unique(es),
    ensures
        store_keys_unique(survivors(es, avs)),
        forall|x: int|
            0 <= x < survivors(es, avs).len() ==> exists|j: int|
                0 <= j < es.len() && (#[trigger] es[j]).0 == (#[trigger] survivors(es, avs)[x]).0,
    decreases es.len(),
{
    if es.len() > 0 {
        let pre = es.drop_last();
        assert(store_keys_unique(pre));
        lemma_survivors_unique(pre, avs);
        let sp = survivors(pre, avs);
        let s = survivors(es, avs);
        let e = es.last();
        assert forall|x: int| 0 <= x < sp.len() implies exists|j: int|
            0 <= j < es.len() && (#[trigger] es[j]).0 == (#[trigger] sp[x]).0 by {
            let j = choose|j: int| 0 <= j < pre.len() && (#[trigger] pre[j]).0 == sp[x].0;
            assert(es[j] == pre[j]);
        }
        if has_avatar(avs, e.0) && e.1.len() >= 2 {
            assert forall|a: int, b: int| 0 <= a < b < s.len() implies (#[trigger] s[a]).0 != (#[trigger] s[b]).0 by {
                if b == sp.len() {
                    let j = choose|j: int| 0 <= j < pre.len() && (#[trigger] pre[j]).0 == sp[a].0;
                    assert(es[j] == pre[j]);
                    assert(es[j].0 != es[es.len() - 1].0);
                } else {
                    assert(s[a] == sp[a] && s[b] == sp[b]);
                }
            }
            assert forall|x: int| 0 <= x < s.len() implies exists|j: int|
                0 <= j < es.len() && (#[trigger] es[j]).0 == (#[trigger] s[x]).0 by {
                if x == sp.len() {
                    assert(es[es.len() - 1].0 == s[x].0);
                } else {
                    assert(s[x] == sp[x]);
                }
            }
        }
    }
}

/// A store with one more entry at its end: the new entry's path is found
/// by its key, the others as before.
pub proof fn lemma_store_path_push(s: Seq<(Seq<char>, Seq<StepView>)>, e: (Seq<char>, Seq<StepView>), id: Seq<char>)
    requires
        store_keys_unique(s.push(e)),
    ensures
        store_path(s.push(e), id) == if id == e.0 {
            Some(e.1)
        } else {
            store_path(s, id)
        },
{
    let a = s.push(e);
    lemma_store_path_prefix(a, s.len() as int, id);
    assert(a.take(s.len() + 1int) =~= a);
    assert(a.take(s.len() as int) =~= s);
}

/// After a tick, an agent's stored path is its old path minus the first
/// step, kept while the avatar is present and at least one step remains.
pub proof fn lemma_survivors_path(es: Seq<(Seq<char>, Seq<StepView>)>, avs: Seq<AvatarView>, id: Seq<char>)
    requires
        store_keys_unique(es),
    ensures
        store_path(survivors(es, avs), id) == match store_path(es, id) {
            Some(q) => if has_avatar(avs, id) && q.len() >= 2 {
                Some(q.drop_first())
            } else {
                None::<Seq<StepView>>
            },
            None => None,
        },
    decreases es.len(),
{
    if es.len() == 0 {
        lemma_store_path_absent(es, id);
        lemma_store_path_absent(survivors(es, avs), id);
    } else {
        let pre = es.drop_last();
        let e = es.last();
        assert(store_keys_unique(pre));
        assert(pre.push(e) =~= es);
        lemma_store_path_push(pre, e, id);
        lemma_survivors_path(pre, avs, id);
        lemma_survivors_unique(es, avs);
        let sp = survivors(pre, avs);
        if has_avatar(avs, e.0) && e.1.len() >= 2 {
            lemma_store_path_push(sp, (e.0, e.1.drop_first()), id);
        } else if id == e.0 {
            assert forall|i: int| 0 <= i < pre.len() implies (#[trigger] pre[i]).0 != id by {
                assert(es[i] == pre[i]);
                assert(es[i].0 != es[es.len() - 1].0);
            }
            lemma_store_path_absent(pre, id);
        }
    }
}

/// Deduplication keeps the last candidate's tile as the last kept tile.
proof fn lemma_dedupe_last(c: Seq<StepView>)
    requires
        c.len() > 0,
    ensures
        dedupe_state(c).0.len() > 0,
        dedupe_state(c).1 == Some(c.last().0),
        dedupe_state(c).0.last().0 == c.last().0,
    decreases c.len(),
{
    let pre = c.drop_last();
    if pre.len() > 0 {
        lemma_dedupe_last(pre);
    } else {
        assert(dedupe_state(pre) == (Seq::<StepView>::empty(), None::<Tile>));
    }
}

/// The last candidate of a route is the last tile of its last segment.
proof fn lemma_flat_last(route: Seq<(Seq<char>, Seq<Tile>)>)
    requires
        route.len() > 0,
        route.last().1.len() > 0,
    ensures
        flat_upto(route, route.len() as int).len() > 0,
        flat_upto(route, route.len() as int).last().0 == route.last().1.last(),
{
    let n = route.len() as int;
    let pre = flat_upto(route, n - 1);
    let sc = seg_cands(route, n - 1);
    assert(flat_upto(route, n) == pre + sc);
    assert((pre + sc).last() == sc.last());
}

/// The room of the last step of `p` that enters a room, if any.
pub open spec fn last_room(p: Seq<StepView>) -> Option<Seq<char>>
    decreases p.len(),
{
    if p.len() == 0 {
        None
    } else if p.last().1 is Some {
        p.last().1
    } else {
        last_room(p.drop_last())
    }
}

/// The room an avatar starting in `r0` is in after taking the steps `p`.
pub open spec fn room_after(r0: Seq<char>, p: Seq<StepView>) -> Seq<char> {
    match last_room(p) {
        Some(r) => r,
        None => r0,
    }
}

proof fn lemma_last_room_push(p: Seq<StepView>, x: StepView)
    ensures
        last_room(p.push(x)) == if x.1 is Some { x.1 } else { last_room(p) },
{
    assert(p.push(x).drop_last() =~= p);
}

/// Deduplication keeps the room of the last candidate that enters one.
proof fn lemma_dedupe_last_room(c: Seq<StepView>)
    ensures
        last_room(dedupe_state(c).0) == last_room(c),
    decreases c.len(),
{
    if c.len() > 0 {
        let pc = c.drop_last();
        let x = c.last();
        let pre = dedupe_state(pc);
        lemma_dedupe_last_room(pc);
        lemma_dedupe_tracks_last(pc);
        assert(pc.push(x) =~= c);
        lemma_last_room_push(pc, x);
        if pre.1 == Some(x.0) {
            if x.1 is Some {
                lemma_last_room_push(pre.0.drop_last(), x);
            }
        } else {
            lemma_last_room_push(pre.0, x);
        }
    }
}

/// Dropping a first step that enters no room keeps the last room.
proof fn lemma_last_room_drop_first(p: Seq<StepView>)
    requires
        p.len() > 0,
        p[0].1 is None,
    ensures
        last_room(p.drop_first()) == last_room(p),
    decreases p.len(),
{
    if p.len() > 1 {
        let q = p.drop_last();
        assert(q[0] == p[0]);
        lemma_last_room_drop_first(q);
        assert(p.drop_first().drop_last() =~= q.drop_first());
        assert(p.drop_first().last() == p.last());
    } else {
        assert(p.drop_first().len() == 0);
        assert(p.last() == p[0]);
        assert(p.drop_last().len() == 0);
        assert(last_room(p.drop_last()) is None);
    }
}

/// Steps that enter no room leave the last room as it was.
proof fn lemma_last_room_append_plain(a: Seq<StepView>, b: Seq<StepView>)
    requires
        forall|k: int| 0 <= k < b.len() ==> (#[trigger] b[k]).1 is None,
    ensures
        last_room(a + b) == last_room(a),
    decreases b.len(),
{
    if b.len() > 0 {
        assert((a + b).drop_last() =~= a + b.drop_last());
        assert((a + b).last() == b.last());
        lemma_last_room_append_plain(a, b.drop_last());
    } else {
        assert(a + b =~= a);
    }
}

/// The last room entered along a route's candidates is its last
/// segment's room, when it has more than one segment, and none otherwise.
proof fn lemma_flat_last_room(route: Seq<(Seq<char>, Seq<Tile>)>)
    requires
        route.len() > 0,
        forall|k: int| 0 <= k < route.len() ==> (#[trigger] route[k]).1.len() > 0,
    ensures
        last_room(flat_upto(route, route.len() as int)) == if route.len() >= 2 {
            Some(route.last().0)
        } else {
            None::<Seq<char>>
        },
{
    let n = route.len() as int;
    let last = seg_cands(route, n - 1);
    assert forall|k: int| 0 <= k < last.len() implies (#[trigger] last[k]).1 is None by {}
    assert(flat_upto(route, n) == flat_upto(route, n - 1) + last);
    lemma_last_room_append_plain(flat_upto(route, n - 1), last);
    if n >= 2 {
        let prev = seg_cands(route, n - 2);
        assert(flat_upto(route, n - 1) == flat_upto(route, n - 2) + prev);
        let f = flat_upto(route, n - 1);
        assert(f.last() == prev.last());
        assert(prev.last() == cand(route, n - 2, route[n - 2].1.len() - 1));
    } else {
        assert(flat_upto(route, 0) =~= Seq::<StepView>::empty());
        assert(flat_upto(route, n - 1) + last =~= last);
        assert(last_room(Seq::<StepView>::empty()) is None);
    }
}

/// A started move ends at its target: the steps stored for a route that
/// walks from `from` in room `from_room` to `to` in room `to_room` end on
/// `to`, there are none only when `from` is `to`, and an avatar taking
/// them all ends up in `to_room`.
pub proof fn law_steps_end_at_target(
    route: Seq<(Seq<char>, Seq<Tile>)>,
    from: Tile,
    to: Tile,
    from_room: Seq<char>,
    to_room: Seq<char>,
)
    requires
        route_walkable(route, from, to),
        route[0].0 == from_room,
        route.last().0 == to_room,
    ensures
        steps_spec(route, from).len() > 0 ==> steps_spec(route, from).last().0 == to,
        steps_spec(route, from).len() == 0 ==> from == to,
        room_after(from_room, steps_spec(route, from)) == to_room,
{
    reveal(crate::path::chain_ok);
    assert(crate::path::walkable(route[route.len() - 1].1));
    assert forall|k: int| 0 <= k < route.len() implies (#[trigger] route[k]).1.len() > 0 by {
        assert(crate::path::walkable(route[k].1));
    }
    let c = flat_upto(route, route.len() as int);
    lemma_flat_last(route);
    lemma_dedupe_last(c);
    lemma_dedupe_last_room(c);
    lemma_flat_last_room(route);
    let d = dedupe_state(c).0;
    if d.len() > 0 && d[0].0 == from && d[0].1 is None {
        lemma_last_room_drop_first(d);
    }
}

/// The arrival reported for an agent in a tick: one exactly when its
/// avatar is present and its stored path has a single step left, naming
/// the room that step arrives in.
pub open spec fn reported_arrival(es: Seq<(Seq<char>, Seq<StepView>)>, avs: Seq<AvatarView>, id: Seq<char>) -> Option<Seq<char>> {
    match store_path(es, id) {
        Some(q) => if has_avatar(avs, id) && q.len() == 1 {
            Some(arrival_room(avs[avatar_index(avs, id)->Some_0], q[0]))
        } else {
            None
        },
        None => None,
    }
}

/// A tick's arrivals name an agent exactly when `reported_arrival` does,
/// and then with that room.
pub proof fn lemma_completions_path(es: Seq<(Seq<char>, Seq<StepView>)>, avs: Seq<AvatarView>, id: Seq<char>)
    requires
        store_keys_unique(es),
    ensures
        forall|j: int|
            0 <= j < completions(es, avs).len() && (#[trigger] completions(es, avs)[j]).0 == id ==> reported_arrival(
                es,
                avs,
                id,
            ) == Some(completions(es, avs)[j].1),
        reported_arrival(es, avs, id) matches Some(room) ==> completions(es, avs).contains((id, room)),
    decreases es.len(),
{
    if es.len() == 0 {
        lemma_store_path_absent(es, id);
    } else {
        let pre = es.drop_last();
        let e = es.last();
        assert(store_keys_unique(pre));
        assert(pre.push(e) =~= es);
        lemma_store_path_push(pre, e, id);
        lemma_completions_path(pre, avs, id);
        let cp = completions(pre, avs);
        let c = completions(es, avs);
        if id == e.0 {
            assert forall|i: int| 0 <= i < pre.len() implies (#[trigger] pre[i]).0 != id by {
                assert(es[i] == pre[i]);
                assert(es[i].0 != es[es.len() - 1].0);
            }
            lemma_store_path_absent(pre, id);
            if has_avatar(avs, e.0) && e.1.len() == 1 {
                assert(c[cp.len() as int] == (id, arrival_room(avs[avatar_index(avs, id)->Some_0], e.1[0])));
            }
        } else {
            assert forall|j: int|
                0 <= j < c.len() && (#[trigger] c[j]).0 == id implies reported_arrival(es, avs, id) == Some(
                c[j].1,
            ) by {
                assert(c[j] == cp[j]);
            }
            if reported_arrival(es, avs, id) is Some {
                let room = reported_arrival(es, avs, id)->Some_0;
                let j = choose|j: int| 0 <= j < cp.len() && cp[j] == (id, room);
                assert(c[j] == cp[j]);
            }
        }
    }
}

/// The world, path store and events after one call of `step_all`, as its
/// contract states them: every avatar advanced along its stored path, the
/// store reduced to the survivors, the arrivals reported, the ids still
/// unique.
pub open spec fn ticked(
    avs: Seq<AvatarView>,
    es: Seq<(Seq<char>, Seq<StepView>)>,
    events: Seq<(Seq<char>, Seq<char>)>,
    avs2: Seq<AvatarView>,
    es2: Seq<(Seq<char>, Seq<StepView>)>,
) -> bool {
    &&& avs2.len() == avs.len()
    &&& forall|i: int|
        0 <= i < avs.len() ==> advanced(#[trigger] avs[i], avs2[i], store_path(es, avs[i].agent_id@))
    &&& es2 == survivors(es, avs)
    &&& events == completions(es, avs)
    &&& ids_unique_avs(avs2)
}

/// Tick `k` of a run of states: state `k + 1` follows state `k` by one
/// call of `step_all`, which reported `events[k]`.
pub open spec fn ticked_at(
    avs: Seq<Seq<AvatarView>>,
    stores: Seq<Seq<(Seq<char>, Seq<StepView>)>>,
    events: Seq<Seq<(Seq<char>, Seq<char>)>>,
    k: int,
) -> bool {
    ticked(avs[k], stores[k], events[k], avs[k + 1], stores[k + 1])
}

proof fn lemma_present(avs: Seq<AvatarView>, i: int)
    requires
        0 <= i < avs.len(),
    ensures
        has_avatar(avs, avs[i].agent_id@),
{
    assert(avs[i].agent_id@ == avs[i].agent_id@);
}

/// Walking a stored path: an avatar whose path holds `n` steps stands on
/// step `k` after `k` ticks and keeps the rest of its path meanwhile; after
/// the `n`-th tick it stands on the last step, in the room the last
/// room-entering step leads to (or its own room when no step enters one),
/// with its target cleared and its path gone. Its arrival is
/// reported by the `n`-th tick, with that room, and by no earlier one.
pub proof fn law_path_walked_in_as_many_ticks(
    avs: Seq<Seq<AvatarView>>,
    stores: Seq<Seq<(Seq<char>, Seq<StepView>)>>,
    events: Seq<Seq<(Seq<char>, Seq<char>)>>,
    i: int,
    p: Seq<StepView>,
)
    requires
        avs.len() == stores.len(),
        events.len() == p.len(),
        ids_unique_avs(avs[0]),
        avs.len() == p.len() + 1,
        p.len() >= 1,
        store_keys_unique(stores[0]),
        0 <= i < avs[0].len(),
        store_path(stores[0], avs[0][i].agent_id@) == Some(p),
        forall|k: int| 0 <= k < p.len() ==> #[trigger] ticked_at(avs, stores, events, k),
    ensures
        forall|k: int|
            1 <= k <= p.len() ==> i < (#[trigger] avs[k]).len() && avs[k][i].current_pos == p[k - 1].0
                && avs[k][i].agent_id == avs[0][i].agent_id,
        forall|k: int|
            0 <= k < p.len() ==> store_path(#[trigger] stores[k], avs[0][i].agent_id@) == Some(p.skip(k)),
        avs[p.len() as int][i].target_pos is None,
        store_path(stores[p.len() as int], avs[0][i].agent_id@) is None,
        avs[p.len() as int][i].room_id@ == arrival_room(avs[p.len() - 1][i], p.last()),
        avs[p.len() as int][i].room_id@ == room_after(avs[0][i].room_id@, p),
        forall|k: int, j: int|
            0 <= k < p.len() - 1 && 0 <= j < events[k].len() ==> (#[trigger] events[k][j]).0
                != avs[0][i].agent_id@,
        events[p.len() - 1].contains((avs[0][i].agent_id@, avs[p.len() as int][i].room_id@)),
        forall|j: int|
            0 <= j < events[p.len() - 1].len() && (#[trigger] events[p.len() - 1][j]).0 == avs[0][i].agent_id@
                ==> events[p.len() - 1][j].1 == avs[p.len() as int][i].room_id@,
{
    let id = avs[0][i].agent_id@;
    let n = p.len() as int;
    assert forall|k: int| 0 <= k < n implies store_path(#[trigger] stores[k], id) == Some(p.skip(k)) by {
        lemma_walk_prefix(avs, stores, events, i, p, k);
    }
    assert forall|k: int|
        1 <= k <= n implies i < (#[trigger] avs[k]).len() && avs[k][i].current_pos == p[k - 1].0
            && avs[k][i].agent_id == avs[0][i].agent_id by {
        lemma_walk_prefix(avs, stores, events, i, p, k - 1);
        assert(ticked_at(avs, stores, events, k - 1));
        assert(p.skip(k - 1)[0] == p[k - 1]);
    }
    lemma_walk_prefix(avs, stores, events, i, p, n - 1);
    assert(ticked_at(avs, stores, events, n - 1));
    lemma_survivors_path(stores[n - 1], avs[n - 1], id);
    assert(p.skip(n - 1).len() == 1);
    assert(p.skip(n - 1)[0] == p.last());
    lemma_present(avs[n - 1], i);
    assert(p.take(n - 1).push(p[n - 1]) =~= p);
    lemma_last_room_push(p.take(n - 1), p[n - 1]);
    crate::state::lemma_avatar_index(avs[n - 1], i);
    lemma_completions_path(stores[n - 1], avs[n - 1], id);
    assert forall|k: int, j: int|
        0 <= k < n - 1 && 0 <= j < events[k].len() implies (#[trigger] events[k][j]).0 != id by {
        lemma_walk_prefix(avs, stores, events, i, p, k);
        assert(ticked_at(avs, stores, events, k));
        lemma_completions_path(stores[k], avs[k], id);
    }
}

proof fn lemma_walk_prefix(
    avs: Seq<Seq<AvatarView>>,
    stores: Seq<Seq<(Seq<char>, Seq<StepView>)>>,
    events: Seq<Seq<(Seq<char>, Seq<char>)>>,
    i: int,
    p: Seq<StepView>,
    k: int,
)
    requires
        avs.len() == stores.len(),
        events.len() == p.len(),
        ids_unique_avs(avs[0]),
        avs.len() == p.len() + 1,
        p.len() >= 1,
        store_keys_unique(stores[0]),
        0 <= i < avs[0].len(),
        store_path(stores[0], avs[0][i].agent_id@) == Some(p),
        forall|k: int| 0 <= k < p.len() ==> #[trigger] ticked_at(avs, stores, events, k),
        0 <= k < p.len(),
    ensures
        i < avs[k].len(),
        avs[k][i].agent_id == avs[0][i].agent_id,
        ids_unique_avs(avs[k]),
        store_keys_unique(stores[k]),
        store_path(stores[k], avs[0][i].agent_id@) == Some(p.skip(k)),
        avs[k][i].room_id@ == room_after(avs[0][i].room_id@, p.take(k)),
    decreases k,
{
    if k == 0 {
        assert(p.skip(0) =~= p);
        assert(p.take(0) =~= Seq::<StepView>::empty());
    } else {
        lemma_walk_prefix(avs, stores, events, i, p, k - 1);
        let id = avs[0][i].agent_id@;
        assert(ticked_at(avs, stores, events, k - 1));
        lemma_survivors_unique(stores[k - 1], avs[k - 1]);
        lemma_present(avs[k - 1], i);
        lemma_survivors_path(stores[k - 1], avs[k - 1], id);
        assert(p.skip(k - 1).drop_first() =~= p.skip(k));
        assert(p.skip(k - 1)[0] == p[k - 1]);
        assert(p.take(k - 1).push(p[k - 1]) =~= p.take(k));
        lemma_last_room_push(p.take(k - 1), p[k - 1]);
    }
}

} // verus!
