//! Pathfinding for the world: a coarse room-graph search (waypoints
//! between rooms) composed with a tile-grid search (steps inside one
//! room), bridged by a door-edge helper for door tiles that lie inside
//! only one of the two rooms they connect.
//!
//! Both searches are `pathfinding::prelude::astar`; the room search uses a
//! zero estimate and the tile search the Manhattan distance.

use vstd::prelude::*;

verus! {

/// A tile `(x, y)`.
pub type Tile = (i32, i32);

/// A room's bounds `(x, y, w, h)`: the tiles `x..x+w` by `y..y+h`.
pub type Bounds = (i32, i32, i32, i32);

// ───────────────────────────── tile grid ─────────────────────────────

pub open spec fn in_bounds(b: Bounds, t: Tile) -> bool {
    b.0 <= t.0 < b.0 + b.2 && b.1 <= t.1 < b.1 + b.3
}

pub open spec fn fits_i32(v: int) -> bool {
    i32::MIN <= v <= i32::MAX
}

/// Bounds on which the grid search's coordinate arithmetic stays inside
/// `i32`: the far edges are representable, and when the room has tiles,
/// its near edges have a left/upper neighbour and a Manhattan distance
/// inside it is representable.
pub open spec fn bounds_ok(b: Bounds) -> bool {
    &&& fits_i32(b.0 + b.2)
    &&& fits_i32(b.1 + b.3)
    &&& (b.2 > 0 && b.3 > 0) ==> (b.0 > i32::MIN && b.1 > i32::MIN && b.2 + b.3 <= i32::MAX)
}

pub open spec fn abs_int(v: int) -> int {
    if v < 0 { -v } else { v }
}

pub open spec fn manhattan(a: Tile, b: Tile) -> int {
    abs_int(a.0 - b.0) + abs_int(a.1 - b.1)
}

pub open spec fn adjacent(a: Tile, b: Tile) -> bool {
    manhattan(a, b) == 1
}

/// `p` walks from `from` to `to` in 4-connected unit steps without leaving
/// `b`.
pub open spec fn is_grid_path(b: Bounds, p: Seq<Tile>, from: Tile, to: Tile) -> bool {
    &&& p.len() >= 1
    &&& p[0] == from
    &&& p.last() == to
    &&& forall|i: int| 0 <= i < p.len() ==> in_bounds(b, #[trigger] p[i])
    &&& forall|i: int| 0 <= i < p.len() - 1 ==> adjacent(#[trigger] p[i], p[i + 1])
}

pub open spec fn no_repeats<T>(p: Seq<T>) -> bool {
    forall|i: int, j: int| 0 <= i < j < p.len() ==> p[i] != p[j]
}

/// What the tile search returns: the path and its cost.
pub uninterp spec fn astar_tile_search(b: Bounds, from: Tile, to: Tile) -> Option<(Seq<Tile>, u32)>;

/// The facts the search's documentation gives for unit step costs and a
/// Manhattan estimate (which never overestimates on a grid): a found path
/// starts at `from`, ends at `to`, never repeats a tile and is a shortest
/// one; when nothing is found, no path exists.
pub open spec fn tile_search_facts(b: Bounds, from: Tile, to: Tile, r: Option<(Seq<Tile>, u32)>) -> bool {
    match r {
        Some(x) => {
            &&& is_grid_path(b, x.0, from, to)
            &&& no_repeats(x.0)
            &&& x.1 == x.0.len() - 1
            &&& forall|q: Seq<Tile>| #[trigger] is_grid_path(b, q, from, to) ==> x.0.len() <= q.len()
        },
        None => forall|q: Seq<Tile>| !#[trigger] is_grid_path(b, q, from, to),
    }
}

pub open spec fn tiles_view(v: Option<(Vec<Tile>, u32)>) -> Option<(Seq<Tile>, u32)> {
    match v {
        Some(x) => Some((x.0@, x.1)),
        None => None,
    }
}

/// In-bounds 4-neighbours of `p`, in the order left, right, up, down, each
/// at unit cost.
pub fn grid_successors(b: Bounds, p: Tile) -> (r: Vec<(Tile, u32)>)
    ensures
        r@ == grid_successors_spec(b, p),
{
    let mut out: Vec<(Tile, u32)> = Vec::new();
    let x = p.0 as i64;
    let y = p.1 as i64;
    let x0 = b.0 as i64;
    let y0 = b.1 as i64;
    let x1 = b.0 as i64 + b.2 as i64;
    let y1 = b.1 as i64 + b.3 as i64;
    if x0 <= x - 1 && x - 1 < x1 && y0 <= y && y < y1 {
        out.push((((x - 1) as i32, p.1), 1u32));
    }
    if x0 <= x + 1 && x + 1 < x1 && y0 <= y && y < y1 {
        out.push((((x + 1) as i32, p.1), 1u32));
    }
    if x0 <= x && x < x1 && y0 <= y - 1 && y - 1 < y1 {
        out.push(((p.0, (y - 1) as i32), 1u32));
    }
    if x0 <= x && x < x1 && y0 <= y + 1 && y + 1 < y1 {
        out.push(((p.0, (y + 1) as i32), 1u32));
    }
    out
}

pub open spec fn step_if(b: Bounds, t: (int, int)) -> Seq<(Tile, u32)> {
    if b.0 <= t.0 < b.0 + b.2 && b.1 <= t.1 < b.1 + b.3 {
        seq![((t.0 as i32, t.1 as i32), 1u32)]
    } else {
        Seq::empty()
    }
}

pub open spec fn grid_successors_spec(b: Bounds, p: Tile) -> Seq<(Tile, u32)> {
    step_if(b, (p.0 - 1, p.1 as int)) + step_if(b, (p.0 + 1, p.1 as int)) + step_if(
        b,
        (p.0 as int, p.1 - 1),
    ) + step_if(b, (p.0 as int, p.1 + 1))
}

/// Manhattan distance from `p` to `to`, as the search's cost estimate.
pub fn manhattan_estimate(p: Tile, to: Tile) -> (r: u32)
    ensures
        manhattan(p, to) <= u32::MAX ==> r == manhattan(p, to),
{
    let dx = p.0 as i64 - to.0 as i64;
    let dy = p.1 as i64 - to.1 as i64;
    let ax: i64 = if dx < 0 { -dx } else { dx };
    let ay: i64 = if dy < 0 { -dy } else { dy };
    let s: i64 = ax + ay;
    if s <= u32::MAX as i64 { s as u32 } else { u32::MAX }
}

/// Whether two tiles are the same.
pub fn same_tile(a: Tile, b: Tile) -> (r: bool)
    ensures
        r == (a == b),
{
    a.0 == b.0 && a.1 == b.1
}

/// `pathfinding::prelude::astar` over the tiles of `b`, from `from` to
/// `to`. The contract names its result (`astar_tile_search`) and states
/// the facts of the function's documentation: a returned path is a
/// shortest 4-connected in-bounds path without repeated tiles, its cost is
/// its number of steps, and `None` means that no path exists.
#[verifier::external_body]
fn astar_tiles(b: Bounds, from: Tile, to: Tile) -> (r: Option<(Vec<Tile>, u32)>)
    requires
        bounds_ok(b),
        in_bounds(b, from),
        in_bounds(b, to),
    ensures
        tiles_view(r) == astar_tile_search(b, from, to),
        tile_search_facts(b, from, to, tiles_view(r)),
{
    pathfinding::prelude::astar(
        &from,
        |p: &Tile| grid_successors(b, *p),
        |p: &Tile| manhattan_estimate(*p, to),
        |p: &Tile| same_tile(*p, to),
    )
}

pub open spec fn tile_path_spec(b: Bounds, from: Tile, to: Tile) -> Option<Seq<Tile>> {
    if in_bounds(b, from) && in_bounds(b, to) {
        match astar_tile_search(b, from, to) {
            Some(x) => Some(x.0),
            None => None,
        }
    } else {
        None
    }
}

/// The straight path that first walks along x, then along y.
pub open spec fn l_path(a: Tile, c: Tile) -> Seq<Tile>
    decreases manhattan(a, c),
{
    if manhattan(a, c) <= 0 {
        seq![a]
    } else if a.0 < c.0 {
        seq![a] + l_path(((a.0 + 1) as i32, a.1), c)
    } else if a.0 > c.0 {
        seq![a] + l_path(((a.0 - 1) as i32, a.1), c)
    } else if a.1 < c.1 {
        seq![a] + l_path((a.0, (a.1 + 1) as i32), c)
    } else {
        seq![a] + l_path((a.0, (a.1 - 1) as i32), c)
    }
}

/// Inside a rectangle, the straight path between two tiles is a grid path.
pub proof fn lemma_l_path(b: Bounds, a: Tile, c: Tile)
    requires
        in_bounds(b, a),
        in_bounds(b, c),
    ensures
        is_grid_path(b, l_path(a, c), a, c),
        l_path(a, c).len() == manhattan(a, c) + 1,
    decreases manhattan(a, c),
{
    if manhattan(a, c) <= 0 {
        assert(a == c);
    } else {
        let n: Tile = if a.0 < c.0 {
            ((a.0 + 1) as i32, a.1)
        } else if a.0 > c.0 {
            ((a.0 - 1) as i32, a.1)
        } else if a.1 < c.1 {
            (a.0, (a.1 + 1) as i32)
        } else {
            (a.0, (a.1 - 1) as i32)
        };
        lemma_l_path(b, n, c);
        let rest = l_path(n, c);
        let p = l_path(a, c);
        assert(p =~= seq![a] + rest);
        assert forall|i: int| 0 <= i < p.len() implies in_bounds(b, #[trigger] p[i]) by {
            if i > 0 {
                assert(p[i] == rest[i - 1]);
            }
        }
        assert forall|i: int| 0 <= i < p.len() - 1 implies adjacent(#[trigger] p[i], p[i + 1]) by {
            if i > 0 {
                assert(p[i] == rest[i - 1]);
                assert(p[i + 1] == rest[i]);
            } else {
                assert(p[1] == rest[0]);
            }
        }
    }
}

/// Every grid path is at least as long as the Manhattan distance.
pub proof fn lemma_grid_path_lower_bound(b: Bounds, p: Seq<Tile>, a: Tile, c: Tile)
    requires
        is_grid_path(b, p, a, c),
    ensures
        p.len() >= manhattan(a, c) + 1,
    decreases p.len(),
{
    if p.len() > 1 {
        let rest = p.drop_first();
        assert(adjacent(p[0], p[1]));
        assert forall|i: int| 0 <= i < rest.len() implies in_bounds(b, #[trigger] rest[i]) by {
            assert(rest[i] == p[i + 1]);
        }
        assert forall|i: int| 0 <= i < rest.len() - 1 implies adjacent(#[trigger] rest[i], rest[i + 1]) by {
            assert(rest[i] == p[i + 1]);
            assert(rest[i + 1] == p[i + 2]);
        }
        lemma_grid_path_lower_bound(b, rest, p[1], c);
    }
}

/// Tile waypoints inside `b` from `from` to `to` (4-connected, uniform
/// cost). `None` when `from` or `to` lies outside `b`.
pub fn tile_path(b: Bounds, from: Tile, to: Tile) -> (r: Option<Vec<Tile>>)
    requires
        bounds_ok(b),
    ensures
        match r {
            Some(p) => tile_path_spec(b, from, to) == Some(p@),
            None => tile_path_spec(b, from, to) is None,
        },
        r is Some <==> (in_bounds(b, from) && in_bounds(b, to)),
        r matches Some(p) ==> is_grid_path(b, p@, from, to) && p@.len() == manhattan(from, to) + 1,
{
    let inside_from = b.0 <= from.0 && (from.0 as i64) < (b.0 as i64 + b.2 as i64) && b.1 <= from.1
        && (from.1 as i64) < (b.1 as i64 + b.3 as i64);
    let inside_to = b.0 <= to.0 && (to.0 as i64) < (b.0 as i64 + b.2 as i64) && b.1 <= to.1
        && (to.1 as i64) < (b.1 as i64 + b.3 as i64);
    if !inside_from || !inside_to {
        return None;
    }
    let found = astar_tiles(b, from, to);
    proof {
        lemma_l_path(b, from, to);
        if found is Some {
            let p = found->Some_0.0@;
            lemma_grid_path_lower_bound(b, p, from, to);
            assert(p.len() <= l_path(from, to).len());
        }
    }
    match found {
        Some(x) => Some(x.0),
        None => None,
    }
}

/// The tile inside `b` at Manhattan distance at most 1 from `door`: the
/// door itself when it is inside, else its first in-bounds neighbour in
/// the order left, right, up, down.
pub open spec fn adjacent_inside_spec(b: Bounds, door: Tile) -> Option<Tile> {
    if in_bounds(b, door) {
        Some(door)
    } else if in_bounds(b, ((door.0 - 1) as i32, door.1)) {
        Some(((door.0 - 1) as i32, door.1))
    } else if in_bounds(b, ((door.0 + 1) as i32, door.1)) {
        Some(((door.0 + 1) as i32, door.1))
    } else if in_bounds(b, (door.0, (door.1 - 1) as i32)) {
        Some((door.0, (door.1 - 1) as i32))
    } else if in_bounds(b, (door.0, (door.1 + 1) as i32)) {
        Some((door.0, (door.1 + 1) as i32))
    } else {
        None
    }
}

/// A tile whose four neighbours are representable.
pub open spec fn tile_ok(t: Tile) -> bool {
    i32::MIN < t.0 < i32::MAX && i32::MIN < t.1 < i32::MAX
}

pub fn in_bounds_exec(b: Bounds, t: Tile) -> (r: bool)
    ensures
        r == in_bounds(b, t),
{
    b.0 <= t.0 && (t.0 as i64) < (b.0 as i64 + b.2 as i64) && b.1 <= t.1 && (t.1 as i64) < (
    b.1 as i64 + b.3 as i64)
}

/// The in-bounds tile next to (or on) a door tile, used to bridge rooms
/// whose bounds don't include the door tile.
pub fn adjacent_inside(b: Bounds, door: Tile) -> (r: Option<Tile>)
    requires
        tile_ok(door),
    ensures
        r == adjacent_inside_spec(b, door),
        r matches Some(t) ==> in_bounds(b, t) && manhattan(t, door) <= 1,
{
    if in_bounds_exec(b, door) {
        return Some(door);
    }
    let left: Tile = (door.0 - 1, door.1);
    if in_bounds_exec(b, left) {
        return Some(left);
    }
    let right: Tile = (door.0 + 1, door.1);
    if in_bounds_exec(b, right) {
        return Some(right);
    }
    let up: Tile = (door.0, door.1 - 1);
    if in_bounds_exec(b, up) {
        return Some(up);
    }
    let down: Tile = (door.0, door.1 + 1);
    if in_bounds_exec(b, down) {
        return Some(down);
    }
    None
}


// ───────────────────────────── room graph ─────────────────────────────

#[derive(Debug)]
pub struct Door {
    pub a: String,
    pub b: String,
    pub tile: (i32, i32),
}

impl Clone for Door {
    fn clone(&self) -> (r: Self)
        ensures
            r == *self,
    {
        Door { a: self.a.clone(), b: self.b.clone(), tile: self.tile }
    }
}

/// A neighbour entry: the room on the other side and the door tile.
pub type Link = (String, (i32, i32));

/// Rooms connected by doors. `neighbors` maps each room that appears in a
/// door to its links, in door order; no room is listed twice.
#[derive(Debug)]
pub struct RoomGraph {
    pub doors: Vec<Door>,
    pub neighbors: Vec<(String, Vec<Link>)>,
}

pub open spec fn link_view(l: Link) -> (Seq<char>, Tile) {
    (l.0@, l.1)
}

pub open spec fn links_view(v: Vec<Link>) -> Seq<(Seq<char>, Tile)> {
    v@.map_values(|l: Link| link_view(l))
}

pub open spec fn keys_unique(nb: Seq<(String, Vec<Link>)>) -> bool {
    forall|i: int, j: int| 0 <= i < j < nb.len() ==> (#[trigger] nb[i]).0@ != (#[trigger] nb[j]).0@
}

pub open spec fn has_key(nb: Seq<(String, Vec<Link>)>, r: Seq<char>) -> bool {
    exists|i: int| 0 <= i < nb.len() && (#[trigger] nb[i]).0@ == r
}

/// The links of room `r` (empty for a room that is not listed).
pub open spec fn adj_links(nb: Seq<(String, Vec<Link>)>, r: Seq<char>) -> Seq<(Seq<char>, Tile)> {
    if has_key(nb, r) {
        links_view(nb[choose|i: int| 0 <= i < nb.len() && (#[trigger] nb[i]).0@ == r].1)
    } else {
        Seq::empty()
    }
}

pub proof fn lemma_adj_links_at(nb: Seq<(String, Vec<Link>)>, i: int)
    requires
        keys_unique(nb),
        0 <= i < nb.len(),
    ensures
        adj_links(nb, nb[i].0@) == links_view(nb[i].1),
{
    let r = nb[i].0@;
    assert(has_key(nb, r));
    let j = choose|j: int| 0 <= j < nb.len() && (#[trigger] nb[j]).0@ == r;
    if j != i {
        if j < i {
            assert(nb[j].0@ != nb[i].0@);
        } else {
            assert(nb[i].0@ != nb[j].0@);
        }
    }
}

/// Links of `r` contributed by a sequence of doors, in door order: a door
/// `a`-`b` gives `a` the link to `b` and `b` the link to `a`.
pub open spec fn links_for(doors: Seq<Door>, r: Seq<char>) -> Seq<(Seq<char>, Tile)>
    decreases doors.len(),
{
    if doors.len() == 0 {
        Seq::empty()
    } else {
        let d = doors.last();
        let pre = links_for(doors.drop_last(), r);
        let s1 = if d.a@ == r { pre.push((d.b@, d.tile)) } else { pre };
        if d.b@ == r { s1.push((d.a@, d.tile)) } else { s1 }
    }
}

/// Door `d` gives room `r` the link `l`: it joins `r` and `l.0` at the
/// tile `l.1`.
pub open spec fn door_gives(d: Door, r: Seq<char>, l: (Seq<char>, Tile)) -> bool {
    d.tile == l.1 && ((d.a@ == r && d.b@ == l.0) || (d.b@ == r && d.a@ == l.0))
}

/// Every door links its two rooms both ways, and every link of a room
/// comes from a door of that room.
pub proof fn law_door_links_both_ways(doors: Seq<Door>, r: Seq<char>)
    ensures
        forall|k: int|
            0 <= k < doors.len() && (#[trigger] doors[k]).a@ == r ==> links_for(doors, r).contains(
                (doors[k].b@, doors[k].tile),
            ),
        forall|k: int|
            0 <= k < doors.len() && (#[trigger] doors[k]).b@ == r ==> links_for(doors, r).contains(
                (doors[k].a@, doors[k].tile),
            ),
        forall|j: int|
            #![trigger links_for(doors, r)[j]]
            0 <= j < links_for(doors, r).len() ==> exists|k: int|
                0 <= k < doors.len() && door_gives(#[trigger] doors[k], r, links_for(doors, r)[j]),
    decreases doors.len(),
{
    if doors.len() > 0 {
        let pre = doors.drop_last();
        let d = doors.last();
        law_door_links_both_ways(pre, r);
        let lp = links_for(pre, r);
        let s1 = if d.a@ == r { lp.push((d.b@, d.tile)) } else { lp };
        let l = links_for(doors, r);
        assert(l == if d.b@ == r { s1.push((d.a@, d.tile)) } else { s1 });
        assert forall|x: int| 0 <= x < lp.len() implies l[x] == lp[x] by {}
        assert forall|k: int| 0 <= k < doors.len() && (#[trigger] doors[k]).a@ == r implies l.contains(
            (doors[k].b@, doors[k].tile),
        ) by {
            if k < pre.len() {
                assert(doors[k] == pre[k]);
                let x = choose|x: int| 0 <= x < lp.len() && lp[x] == (pre[k].b@, pre[k].tile);
                assert(l[x] == lp[x]);
            } else {
                assert(s1[lp.len() as int] == (d.b@, d.tile));
                assert(l[lp.len() as int] == (d.b@, d.tile));
            }
        }
        assert forall|k: int| 0 <= k < doors.len() && (#[trigger] doors[k]).b@ == r implies l.contains(
            (doors[k].a@, doors[k].tile),
        ) by {
            if k < pre.len() {
                assert(doors[k] == pre[k]);
                let x = choose|x: int| 0 <= x < lp.len() && lp[x] == (pre[k].a@, pre[k].tile);
                assert(l[x] == lp[x]);
            } else {
                assert(l[s1.len() as int] == (d.a@, d.tile));
            }
        }
        assert forall|j: int| #![trigger l[j]] 0 <= j < l.len() implies exists|k: int|
            0 <= k < doors.len() && door_gives(#[trigger] doors[k], r, l[j]) by {
            if j < lp.len() {
                let k = choose|k: int| 0 <= k < pre.len() && door_gives(#[trigger] pre[k], r, lp[j]);
                assert(doors[k] == pre[k]);
                assert(door_gives(doors[k], r, l[j]));
            } else {
                let k = doors.len() - 1;
                assert(doors[k] == d);
                assert(door_gives(doors[k], r, l[j]));
            }
        }
    }
}

/// Room `r` appears in one of the doors.
pub open spec fn in_some_door(doors: Seq<Door>, r: Seq<char>) -> bool {
    exists|i: int| 0 <= i < doors.len() && ((#[trigger] doors[i]).a@ == r || doors[i].b@ == r)
}

impl RoomGraph {
    pub open spec fn wf(self) -> bool {
        keys_unique(self.neighbors@)
    }

    /// Links of room `r`.
    pub open spec fn links(self, r: Seq<char>) -> Seq<(Seq<char>, Tile)> {
        adj_links(self.neighbors@, r)
    }

    /// The graph as a map from each room to its links.
    pub open spec fn adjacency(self) -> Map<Seq<char>, Seq<(Seq<char>, Tile)>> {
        Map::new(|r: Seq<char>| has_key(self.neighbors@, r), |r: Seq<char>| self.links(r))
    }
}

/// The number of links over all rooms.
pub open spec fn total_links(nb: Seq<(String, Vec<Link>)>) -> nat
    decreases nb.len(),
{
    if nb.len() == 0 {
        0
    } else {
        total_links(nb.drop_last()) + nb.last().1@.len()
    }
}

proof fn lemma_total_links_update(nb: Seq<(String, Vec<Link>)>, i: int, e: (String, Vec<Link>))
    requires
        0 <= i < nb.len(),
    ensures
        total_links(nb.update(i, e)) + nb[i].1@.len() == total_links(nb) + e.1@.len(),
    decreases nb.len(),
{
    let u = nb.update(i, e);
    if i < nb.len() - 1 {
        assert(u.drop_last() =~= nb.drop_last().update(i, e));
        lemma_total_links_update(nb.drop_last(), i, e);
    } else {
        assert(u.drop_last() =~= nb.drop_last());
    }
}

fn add_link(nb: &mut Vec<(String, Vec<Link>)>, key: &String, other: &String, tile: Tile)
    requires
        keys_unique(old(nb)@),
    ensures
        keys_unique(final(nb)@),
        total_links(final(nb)@) == total_links(old(nb)@) + 1,
        forall|r: Seq<char>|
            #![trigger adj_links(final(nb)@, r)]
            adj_links(final(nb)@, r) == if r == key@ {
                adj_links(old(nb)@, r).push((other@, tile))
            } else {
                adj_links(old(nb)@, r)
            },
        forall|r: Seq<char>|
            #![trigger has_key(final(nb)@, r)]
            has_key(final(nb)@, r) <==> (has_key(old(nb)@, r) || r == key@),
{
    let ghost pre = nb@;
    let mut i: usize = 0;
    while i < nb.len()
        invariant
            nb@ == pre,
            pre == old(nb)@,
            keys_unique(pre),
            0 <= i <= nb.len(),
            forall|j: int| 0 <= j < i ==> (#[trigger] pre[j]).0@ != key@,
        decreases nb.len() - i,
    {
        if nb[i].0 == *key {
            let mut entry = nb.remove(i);
            entry.1.push((other.clone(), tile));
            nb.insert(i, entry);
            proof {
                let post = nb@;
                assert(post =~= pre.update(i as int, post[i as int]));
                lemma_total_links_update(pre, i as int, post[i as int]);
                assert forall|a: int, c: int| 0 <= a < c < post.len() implies (#[trigger] post[a]).0@
                    != (#[trigger] post[c]).0@ by {
                    assert(pre[a].0@ != pre[c].0@);
                }
                assert forall|r: Seq<char>| #![trigger has_key(post, r)] has_key(post, r) <==> (has_key(pre, r) || r == key@) by {
                    if has_key(pre, r) {
                        let w = choose|w: int| 0 <= w < pre.len() && (#[trigger] pre[w]).0@ == r;
                        assert(post[w].0@ == r);
                    }
                    if has_key(post, r) {
                        let w = choose|w: int| 0 <= w < post.len() && (#[trigger] post[w]).0@ == r;
                        assert(pre[w].0@ == r);
                    }
                }
                assert forall|r: Seq<char>| #![trigger adj_links(post, r)] adj_links(post, r) == if r == key@ {
                    adj_links(pre, r).push((other@, tile))
                } else {
                    adj_links(pre, r)
                } by {
                    if r == key@ {
                        lemma_adj_links_at(pre, i as int);
                        lemma_adj_links_at(post, i as int);
                        assert(links_view(post[i as int].1) =~= links_view(pre[i as int].1).push(
                            (other@, tile),
                        ));
                    } else if has_key(pre, r) {
                        let w = choose|w: int| 0 <= w < pre.len() && (#[trigger] pre[w]).0@ == r;
                        assert(w != i);
                        lemma_adj_links_at(pre, w);
                        lemma_adj_links_at(post, w);
                    } else {
                        assert(!has_key(post, r));
                    }
                }
            }
            return;
        }
        i += 1;
    }
    let links: Vec<Link> = vec![(other.clone(), tile)];
    nb.push((key.clone(), links));
    proof {
        let post = nb@;
        let n = pre.len() as int;
        assert(post =~= pre.push(post[n]));
        assert(post.drop_last() =~= pre);
        assert forall|a: int, c: int| 0 <= a < c < post.len() implies (#[trigger] post[a]).0@
            != (#[trigger] post[c]).0@ by {
            if c == n {
                assert(pre[a].0@ != key@);
            } else {
                assert(pre[a].0@ != pre[c].0@);
            }
        }
        assert forall|r: Seq<char>| #![trigger has_key(post, r)] has_key(post, r) <==> (has_key(pre, r) || r == key@) by {
            if has_key(pre, r) {
                let w = choose|w: int| 0 <= w < pre.len() && (#[trigger] pre[w]).0@ == r;
                assert(post[w].0@ == r);
            }
            if r == key@ {
                assert(post[n].0@ == r);
            }
            if has_key(post, r) {
                let w = choose|w: int| 0 <= w < post.len() && (#[trigger] post[w]).0@ == r;
                if w < n {
                    assert(pre[w].0@ == r);
                }
            }
        }
        assert forall|r: Seq<char>| #![trigger adj_links(post, r)] adj_links(post, r) == if r == key@ {
            adj_links(pre, r).push((other@, tile))
        } else {
            adj_links(pre, r)
        } by {
            if r == key@ {
                assert(!has_key(pre, r));
                lemma_adj_links_at(post, n);
                assert(links_view(post[n].1) =~= seq![(other@, tile)]);
                assert(adj_links(pre, r) =~= Seq::<(Seq<char>, Tile)>::empty());
            } else if has_key(pre, r) {
                let w = choose|w: int| 0 <= w < pre.len() && (#[trigger] pre[w]).0@ == r;
                lemma_adj_links_at(pre, w);
                lemma_adj_links_at(post, w);
            } else {
                assert(!has_key(post, r)) by {
                    if has_key(post, r) {
                        let w = choose|w: int| 0 <= w < post.len() && (#[trigger] post[w]).0@ == r;
                        if w < n {
                            assert(pre[w].0@ == r);
                        }
                    }
                }
            }
        }
    }
}

impl RoomGraph {
    /// Build the graph of the given doors: each door links its two rooms
    /// both ways, so the graph holds two links per door.
    pub fn from_doors(doors: Vec<Door>) -> (g: Self)
        ensures
            g.wf(),
            g.doors@ == doors@,
            forall|r: Seq<char>| #[trigger] g.links(r) == links_for(doors@, r),
            forall|r: Seq<char>|
                #[trigger] has_key(g.neighbors@, r) <==> in_some_door(doors@, r),
            total_links(g.neighbors@) == 2 * doors@.len(),
    {
        let mut neighbors: Vec<(String, Vec<Link>)> = Vec::new();
        let mut k: usize = 0;
        while k < doors.len()
            invariant
                0 <= k <= doors.len(),
                keys_unique(neighbors@),
                forall|r: Seq<char>|
                    #[trigger] adj_links(neighbors@, r) == links_for(doors@.take(k as int), r),
                forall|r: Seq<char>|
                    #[trigger] has_key(neighbors@, r) <==> in_some_door(doors@.take(k as int), r),
                total_links(neighbors@) == 2 * k,
            decreases doors.len() - k,
        {
            let ghost before = neighbors@;
            let d = &doors[k];
            add_link(&mut neighbors, &d.a, &d.b, d.tile);
            add_link(&mut neighbors, &d.b, &d.a, d.tile);
            proof {
                let ds = doors@.take(k as int + 1);
                assert(ds.drop_last() =~= doors@.take(k as int));
                assert(ds.last() == doors@[k as int]);
                assert forall|r: Seq<char>| #[trigger] adj_links(neighbors@, r) == links_for(ds, r) by {}
                assert forall|r: Seq<char>| #[trigger] has_key(neighbors@, r) <==> in_some_door(ds, r) by {
                    if in_some_door(ds, r) {
                        let w = choose|w: int| 0 <= w < ds.len() && ((#[trigger] ds[w]).a@ == r || ds[w].b@ == r);
                        if w < k {
                            assert(doors@.take(k as int)[w] == ds[w]);
                        }
                    }
                    if in_some_door(doors@.take(k as int), r) {
                        let w = choose|w: int| 0 <= w < k && ((#[trigger] doors@.take(k as int)[w]).a@ == r
                            || doors@.take(k as int)[w].b@ == r);
                        assert(ds[w] == doors@.take(k as int)[w]);
                    }
                }
            }
            k += 1;
        }
        proof {
            assert(doors@.take(doors.len() as int) =~= doors@);
        }
        RoomGraph { doors, neighbors }
    }
}

// ───────────────────────────── room search ─────────────────────────────

pub open spec fn has_link(links: Seq<(Seq<char>, Tile)>, v: Seq<char>) -> bool {
    exists|k: int| 0 <= k < links.len() && (#[trigger] links[k]).0 == v
}

/// `p` walks from room `from` to room `to` through doors of `adj`.
pub open spec fn is_room_path(
    adj: Map<Seq<char>, Seq<(Seq<char>, Tile)>>,
    p: Seq<Seq<char>>,
    from: Seq<char>,
    to: Seq<char>,
) -> bool {
    &&& p.len() >= 1
    &&& p[0] == from
    &&& p.last() == to
    &&& forall|i: int|
        0 <= i < p.len() - 1 ==> adj.contains_key(#[trigger] p[i]) && has_link(adj[p[i]], p[i + 1])
}

/// What the room search returns: the room sequence and its cost.
pub uninterp spec fn astar_room_search(
    adj: Map<Seq<char>, Seq<(Seq<char>, Tile)>>,
    from: Seq<char>,
    to: Seq<char>,
) -> Option<(Seq<Seq<char>>, u32)>;

/// The facts the search's documentation gives for unit costs and a zero
/// estimate: a found room sequence is a shortest path without repeated
/// rooms; when nothing is found, no path exists.
pub open spec fn room_search_facts(
    adj: Map<Seq<char>, Seq<(Seq<char>, Tile)>>,
    from: Seq<char>,
    to: Seq<char>,
    r: Option<(Seq<Seq<char>>, u32)>,
) -> bool {
    match r {
        Some(x) => {
            &&& is_room_path(adj, x.0, from, to)
            &&& no_repeats(x.0)
            &&& x.1 == x.0.len() - 1
            &&& forall|q: Seq<Seq<char>>| #[trigger] is_room_path(adj, q, from, to) ==> x.0.len() <= q.len()
        },
        None => forall|q: Seq<Seq<char>>| !#[trigger] is_room_path(adj, q, from, to),
    }
}

pub open spec fn names_view(v: Vec<String>) -> Seq<Seq<char>> {
    v@.map_values(|s: String| s@)
}

pub open spec fn rooms_view(v: Option<(Vec<String>, u32)>) -> Option<(Seq<Seq<char>>, u32)> {
    match v {
        Some(x) => Some((names_view(x.0), x.1)),
        None => None,
    }
}

/// The tile of the first link of `links` that leads to `v`.
pub open spec fn first_link_tile(links: Seq<(Seq<char>, Tile)>, v: Seq<char>) -> Tile
    decreases links.len(),
{
    if links.len() == 0 {
        (0, 0)
    } else if links[0].0 == v {
        links[0].1
    } else {
        first_link_tile(links.drop_first(), v)
    }
}

pub proof fn lemma_first_link_tile_at(links: Seq<(Seq<char>, Tile)>, v: Seq<char>, k: int)
    requires
        0 <= k < links.len(),
        links[k].0 == v,
        forall|j: int| 0 <= j < k ==> (#[trigger] links[j]).0 != v,
    ensures
        first_link_tile(links, v) == links[k].1,
    decreases k,
{
    if k > 0 {
        let rest = links.drop_first();
        assert forall|j: int| 0 <= j < k - 1 implies (#[trigger] rest[j]).0 != v by {
            assert(rest[j] == links[j + 1]);
        }
        lemma_first_link_tile_at(rest, v, k - 1);
    }
}

/// The first link to `v` is one of the links of `links`.
pub proof fn lemma_first_link_tile_member(links: Seq<(Seq<char>, Tile)>, v: Seq<char>)
    requires
        has_link(links, v),
    ensures
        exists|k: int| 0 <= k < links.len() && #[trigger] links[k] == (v, first_link_tile(links, v)),
    decreases links.len(),
{
    if links[0].0 == v {
        assert(links[0] == (v, first_link_tile(links, v)));
    } else {
        let rest = links.drop_first();
        let k = choose|k: int| 0 <= k < links.len() && (#[trigger] links[k]).0 == v;
        assert(rest[k - 1] == links[k]);
        lemma_first_link_tile_member(rest, v);
        let j = choose|j: int| 0 <= j < rest.len() && #[trigger] rest[j] == (v, first_link_tile(rest, v));
        assert(links[j + 1] == rest[j]);
    }
}

/// Whether two room ids are the same.
pub fn same_room(a: &String, b: &String) -> (r: bool)
    ensures
        r == (a@ == b@),
{
    *a == *b
}

/// The room search's cost estimate: always zero.
pub fn zero_estimate(_r: &String) -> (c: u32)
    ensures
        c == 0,
{
    0
}

impl RoomGraph {
    pub open spec fn waypoints_spec(self, p: Seq<Seq<char>>) -> Seq<(Seq<char>, Tile)> {
        if p.len() == 0 {
            Seq::empty()
        } else {
            Seq::new(
                (p.len() - 1) as nat,
                |i: int| (p[i + 1], first_link_tile(self.links(p[i]), p[i + 1])),
            )
        }
    }

    /// Waypoints `(room, door tile to enter it)` from `from` to `to`: empty
    /// for the same room, `None` when no path exists.
    pub open spec fn route_spec(self, from: Seq<char>, to: Seq<char>) -> Option<Seq<(Seq<char>, Tile)>> {
        if from == to {
            Some(Seq::empty())
        } else {
            match astar_room_search(self.adjacency(), from, to) {
                Some(x) => Some(self.waypoints_spec(x.0)),
                None => None,
            }
        }
    }

    /// Index of room `r` in `neighbors`.
    pub fn find_room(&self, r: &String) -> (i: Option<usize>)
        requires
            self.wf(),
        ensures
            match i {
                Some(i) => i < self.neighbors@.len() && self.neighbors@[i as int].0@ == r@,
                None => !has_key(self.neighbors@, r@),
            },
    {
        let mut i: usize = 0;
        while i < self.neighbors.len()
            invariant
                0 <= i <= self.neighbors@.len(),
                forall|j: int| 0 <= j < i ==> (#[trigger] self.neighbors@[j]).0@ != r@,
            decreases self.neighbors.len() - i,
        {
            if self.neighbors[i].0 == *r {
                return Some(i);
            }
            i += 1;
        }
        None
    }

    /// The rooms reachable through one door of `r`, each at unit cost, in
    /// link order.
    pub fn successors(&self, r: &String) -> (out: Vec<(String, u32)>)
        requires
            self.wf(),
        ensures
            out@.len() == self.links(r@).len(),
            forall|k: int|
                0 <= k < out@.len() ==> (#[trigger] out@[k]).0@ == self.links(r@)[k].0 && out@[k].1
                    == 1,
    {
        let mut out: Vec<(String, u32)> = Vec::new();
        match self.find_room(r) {
            None => {
                proof {
                    assert(self.links(r@) =~= Seq::<(Seq<char>, Tile)>::empty());
                }
                out
            },
            Some(i) => {
                proof {
                    lemma_adj_links_at(self.neighbors@, i as int);
                }
                let links = &self.neighbors[i].1;
                let mut k: usize = 0;
                while k < links.len()
                    invariant
                        0 <= k <= links@.len(),
                        links == &self.neighbors@[i as int].1,
                        self.links(r@) == links_view(*links),
                        out@.len() == k,
                        forall|j: int|
                            0 <= j < k ==> (#[trigger] out@[j]).0@ == self.links(r@)[j].0
                                && out@[j].1 == 1,
                    decreases links.len() - k,
                {
                    out.push((links[k].0.clone(), 1u32));
                    k += 1;
                }
                out
            },
        }
    }

    /// Waypoints along a room sequence: each next room with the tile of the
    /// first door that leads there from the previous room.
    pub fn waypoints_from_path(&self, path: &Vec<String>) -> (w: Vec<Link>)
        requires
            self.wf(),
            forall|i: int|
                0 <= i < path@.len() - 1 ==> has_link(
                    self.links((#[trigger] path@[i])@),
                    path@[i + 1]@,
                ),
        ensures
            links_view(w) == self.waypoints_spec(names_view(*path)),
    {
        let mut w: Vec<Link> = Vec::new();
        if path.len() == 0 {
            proof {
                assert(links_view(w) =~= self.waypoints_spec(names_view(*path)));
            }
            return w;
        }
        let ghost pv = names_view(*path);
        let mut i: usize = 1;
        while i < path.len()
            invariant
                1 <= i <= path@.len(),
                pv == names_view(*path),
                self.wf(),
                forall|j: int|
                    0 <= j < path@.len() - 1 ==> has_link(
                        self.links((#[trigger] path@[j])@),
                        path@[j + 1]@,
                    ),
                w@.len() == i - 1,
                forall|j: int|
                    0 <= j < i - 1 ==> #[trigger] link_view(w@[j]) == self.waypoints_spec(pv)[j],
            decreases path.len() - i,
        {
            let prev = &path[i - 1];
            let next = &path[i];
            let idx = self.find_room(prev);
            proof {
                assert(has_link(self.links(prev@), next@));
                if idx is None {
                    assert(self.links(prev@) =~= Seq::<(Seq<char>, Tile)>::empty());
                }
            }
            let ri = idx.unwrap();
            proof {
                lemma_adj_links_at(self.neighbors@, ri as int);
            }
            let links = &self.neighbors[ri].1;
            let mut k: usize = 0;
            while k < links.len()
                invariant
                    0 <= k <= links@.len(),
                    ri < self.neighbors@.len(),
                    links == &self.neighbors@[ri as int].1,
                    self.links(prev@) == links_view(*links),
                    has_link(self.links(prev@), next@),
                    forall|j: int| 0 <= j < k ==> (#[trigger] links@[j]).0@ != next@,
                ensures
                    0 <= k <= links@.len(),
                    k < links@.len() ==> links@[k as int].0@ == next@,
                    forall|j: int| 0 <= j < k ==> (#[trigger] links@[j]).0@ != next@,
                decreases links.len() - k,
            {
                if links[k].0 == *next {
                    break;
                }
                k += 1;
            }
            proof {
                if k == links.len() {
                    let kk = choose|kk: int|
                        0 <= kk < self.links(prev@).len() && (#[trigger] self.links(prev@)[kk]).0
                            == next@;
                    assert(links@[kk].0@ == next@);
                }
            }
            let tile = links[k].1;
            proof {
                assert forall|j: int| 0 <= j < k implies (#[trigger] self.links(prev@)[j]).0 != next@ by {
                    assert(self.links(prev@)[j] == link_view(links@[j]));
                }
                lemma_first_link_tile_at(self.links(prev@), next@, k as int);
            }
            w.push((next.clone(), tile));
            proof {
                assert(pv[i - 1] == prev@);
                assert(pv[i as int] == next@);
            }
            i += 1;
        }
        proof {
            assert(links_view(w) =~= self.waypoints_spec(pv));
        }
        w
    }
}

/// `pathfinding::prelude::astar` over the rooms of `graph`, from `from` to
/// `to`, with unit door costs and a zero estimate. The contract names its
/// result (`astar_room_search`, over the graph's adjacency) and states the
/// facts of the function's documentation: a returned room sequence is a
/// shortest door path without repeated rooms, its cost is its number of
/// steps, and `None` means that no path exists.
#[verifier::external_body]
fn astar_rooms(graph: &RoomGraph, from: &String, to: &String) -> (r: Option<(Vec<String>, u32)>)
    requires
        graph.wf(),
    ensures
        rooms_view(r) == astar_room_search(graph.adjacency(), from@, to@),
        room_search_facts(graph.adjacency(), from@, to@, rooms_view(r)),
{
    pathfinding::prelude::astar(
        from,
        |r: &String| graph.successors(r),
        |r: &String| zero_estimate(r),
        |r: &String| same_room(r, to),
    )
}

/// Waypoints follow doors: each waypoint room is linked from the previous
/// room (the start for the first) through a door at the waypoint's tile.
pub open spec fn link_member(links: Seq<(Seq<char>, Tile)>, l: (Seq<char>, Tile)) -> bool {
    exists|k: int| 0 <= k < links.len() && #[trigger] links[k] == l
}

pub open spec fn waypoint_ok(
    adj: Map<Seq<char>, Seq<(Seq<char>, Tile)>>,
    from: Seq<char>,
    ws: Seq<(Seq<char>, Tile)>,
    i: int,
) -> bool {
    let prev = if i == 0 { from } else { ws[i - 1].0 };
    adj.contains_key(prev) && link_member(adj[prev], ws[i])
}

pub open spec fn waypoints_follow_doors(
    adj: Map<Seq<char>, Seq<(Seq<char>, Tile)>>,
    from: Seq<char>,
    ws: Seq<(Seq<char>, Tile)>,
) -> bool {
    forall|i: int| 0 <= i < ws.len() ==> #[trigger] waypoint_ok(adj, from, ws, i)
}

impl RoomGraph {
    /// Returns `(room_id, door_tile_to_enter_room)` waypoints from `from`
    /// to `to`; empty if same room, `None` if no path. The route is a
    /// shortest one: no chain of doors from `from` to `to` passes fewer
    /// doors than it has waypoints.
    pub fn route(&self, from: &str, to: &str) -> (r: Option<Vec<Link>>)
        requires
            self.wf(),
        ensures
            match r {
                Some(w) => self.route_spec(from@, to@) == Some(links_view(w)),
                None => self.route_spec(from@, to@) is None,
            },
            r is None <==> forall|q: Seq<Seq<char>>| !#[trigger] is_room_path(self.adjacency(), q, from@, to@),
            r matches Some(w) ==> {
                &&& waypoints_follow_doors(self.adjacency(), from@, links_view(w))
                &&& (w@.len() == 0 <==> from@ == to@)
                &&& w@.len() > 0 ==> w@.last().0@ == to@
                &&& forall|q: Seq<Seq<char>>| #[trigger] is_room_path(self.adjacency(), q, from@, to@) ==> w@.len()
                    < q.len()
            },
    {
        let f = from.to_owned();
        let t = to.to_owned();
        if f == t {
            let w: Vec<Link> = Vec::new();
            proof {
                assert(links_view(w) =~= Seq::<(Seq<char>, Tile)>::empty());
                assert(is_room_path(self.adjacency(), seq![from@], from@, to@));
            }
            return Some(w);
        }
        let found = astar_rooms(self, &f, &t);
        match found {
            None => None,
            Some(x) => {
                let ghost adj = self.adjacency();
                let ghost p = names_view(x.0);
                proof {
                    assert forall|i: int| 0 <= i < x.0@.len() - 1 implies has_link(
                        self.links((#[trigger] x.0@[i])@),
                        x.0@[i + 1]@,
                    ) by {
                        assert(p[i] == x.0@[i]@);
                        assert(p[i + 1] == x.0@[i + 1]@);
                        assert(adj.contains_key(p[i]) && has_link(adj[p[i]], p[i + 1]));
                    }
                }
                let w = self.waypoints_from_path(&x.0);
                proof {
                    let ws = links_view(w);
                    assert(p.len() >= 2) by {
                        if p.len() == 1 {
                            assert(p[0] == from@);
                            assert(p.last() == to@);
                        }
                    }
                    assert forall|i: int| 0 <= i < ws.len() implies #[trigger] waypoint_ok(adj, from@, ws, i) by {
                        let prev = if i == 0 { from@ } else { ws[i - 1].0 };
                        assert(prev == p[i]);
                        assert(adj.contains_key(p[i]) && has_link(adj[p[i]], p[i + 1]));
                        lemma_first_link_tile_member(adj[p[i]], p[i + 1]);
                    }
                    assert(ws.last().0 == p.last());
                    assert(ws.len() == p.len() - 1);
                    assert(w@.len() == ws.len());
                }
                Some(w)
            },
        }
    }
}

// ───────────────────────────── full route ─────────────────────────────

/// The bounds listed for room `r` (the first entry with that id).
pub open spec fn lookup_bounds(rb: Seq<(String, Bounds)>, r: Seq<char>) -> Option<Bounds>
    decreases rb.len(),
{
    if rb.len() == 0 {
        None
    } else if rb[0].0@ == r {
        Some(rb[0].1)
    } else {
        lookup_bounds(rb.drop_first(), r)
    }
}

pub proof fn lemma_lookup_skip(rb: Seq<(String, Bounds)>, r: Seq<char>, i: int)
    requires
        0 <= i <= rb.len(),
        forall|j: int| 0 <= j < i ==> (#[trigger] rb[j]).0@ != r,
    ensures
        lookup_bounds(rb, r) == lookup_bounds(rb.subrange(i, rb.len() as int), r),
    decreases i,
{
    if i == 0 {
        assert(rb.subrange(0, rb.len() as int) =~= rb);
    } else {
        let rest = rb.drop_first();
        assert forall|j: int| 0 <= j < i - 1 implies (#[trigger] rest[j]).0@ != r by {
            assert(rest[j] == rb[j + 1]);
        }
        lemma_lookup_skip(rest, r, i - 1);
        assert(rest.subrange(i - 1, rest.len() as int) =~= rb.subrange(i, rb.len() as int));
    }
}

/// Find the bounds of room `r`.
pub fn find_bounds(rb: &Vec<(String, Bounds)>, r: &String) -> (o: Option<Bounds>)
    ensures
        o == lookup_bounds(rb@, r@),
        o matches Some(b) ==> exists|i: int| 0 <= i < rb@.len() && #[trigger] rb@[i].1 == b,
{
    let mut i: usize = 0;
    while i < rb.len()
        invariant
            0 <= i <= rb@.len(),
            forall|j: int| 0 <= j < i ==> (#[trigger] rb@[j]).0@ != r@,
        decreases rb.len() - i,
    {
        if rb[i].0 == *r {
            proof {
                lemma_lookup_skip(rb@, r@, i as int);
                let s = rb@.subrange(i as int, rb@.len() as int);
                assert(s[0] == rb@[i as int]);
            }
            return Some(rb[i].1);
        }
        i += 1;
    }
    proof {
        lemma_lookup_skip(rb@, r@, i as int);
        assert(rb@.subrange(i as int, rb@.len() as int) =~= Seq::<(String, Bounds)>::empty());
    }
    None
}

/// Segments from `(cur, cur_tile)` along the waypoints `ws` to `target`
/// inside the last room. Every segment but the last ends with the door
/// tile it leaves through.
pub open spec fn assemble_spec(
    rb: Seq<(String, Bounds)>,
    cur: Seq<char>,
    cur_tile: Tile,
    ws: Seq<(Seq<char>, Tile)>,
    target: Tile,
) -> Option<Seq<(Seq<char>, Seq<Tile>)>>
    decreases ws.len(),
{
    match lookup_bounds(rb, cur) {
        None => None,
        Some(b) => if ws.len() == 0 {
            match tile_path_spec(b, cur_tile, target) {
                None => None,
                Some(seg) => Some(seq![(cur, seg)]),
            }
        } else {
            let next = ws[0].0;
            let door = ws[0].1;
            match adjacent_inside_spec(b, door) {
                None => None,
                Some(exit) => match tile_path_spec(b, cur_tile, exit) {
                    None => None,
                    Some(seg) => match lookup_bounds(rb, next) {
                        None => None,
                        Some(nb) => match adjacent_inside_spec(nb, door) {
                            None => None,
                            Some(entry) => match assemble_spec(rb, next, entry, ws.drop_first(), target) {
                                None => None,
                                Some(rest) => Some(seq![(cur, seg.push(door))] + rest),
                            },
                        },
                    },
                },
            }
        },
    }
}

/// Assembled segments start in the starting room and end in the last
/// waypoint's room (the starting room when there is none).
proof fn lemma_assemble_ends(
    rb: Seq<(String, Bounds)>,
    cur: Seq<char>,
    cur_tile: Tile,
    ws: Seq<(Seq<char>, Tile)>,
    target: Tile,
)
    requires
        assemble_spec(rb, cur, cur_tile, ws, target) is Some,
    ensures
        ({
            let r = assemble_spec(rb, cur, cur_tile, ws, target)->Some_0;
            &&& r.len() >= 1
            &&& r[0].0 == cur
            &&& r.last().0 == if ws.len() == 0 { cur } else { ws.last().0 }
        }),
    decreases ws.len(),
{
    if ws.len() > 0 {
        let b = lookup_bounds(rb, cur)->Some_0;
        let next = ws[0].0;
        let door = ws[0].1;
        let exit = adjacent_inside_spec(b, door)->Some_0;
        let nb = lookup_bounds(rb, next)->Some_0;
        let entry = adjacent_inside_spec(nb, door)->Some_0;
        lemma_assemble_ends(rb, next, entry, ws.drop_first(), target);
        if ws.len() > 1 {
            assert(ws.drop_first().last() == ws.last());
        }
    }
}

pub open spec fn full_route_spec(
    g: RoomGraph,
    rb: Seq<(String, Bounds)>,
    from: (Seq<char>, Tile),
    to: (Seq<char>, Tile),
) -> Option<Seq<(Seq<char>, Seq<Tile>)>> {
    match g.route_spec(from.0, to.0) {
        None => None,
        Some(ws) => assemble_spec(rb, from.0, from.1, ws, to.1),
    }
}

pub open spec fn segments_view(v: Vec<(String, Vec<Tile>)>) -> Seq<(Seq<char>, Seq<Tile>)> {
    v@.map_values(|x: (String, Vec<Tile>)| (x.0@, x.1@))
}

pub open spec fn prepend_opt(
    out: Seq<(Seq<char>, Seq<Tile>)>,
    rest: Option<Seq<(Seq<char>, Seq<Tile>)>>,
) -> Option<Seq<(Seq<char>, Seq<Tile>)>> {
    match rest {
        None => None,
        Some(r) => Some(out + r),
    }
}

/// A walk that never moves more than one tile per step.
pub open spec fn walkable(p: Seq<Tile>) -> bool {
    &&& p.len() >= 1
    &&& forall|i: int| 0 <= i < p.len() - 1 ==> manhattan(#[trigger] p[i], p[i + 1]) <= 1
}

/// Segments each of which is walkable and starts at most one tile from
/// where the previous one ended.
#[verifier::opaque]
pub open spec fn chain_ok(segs: Seq<(Seq<char>, Seq<Tile>)>) -> bool {
    &&& forall|k: int| 0 <= k < segs.len() ==> walkable(#[trigger] segs[k].1)
    &&& forall|k: int| 0 <= k < segs.len() - 1 ==> manhattan((#[trigger] segs[k]).1.last(), segs[k + 1].1[0]) <= 1
}

/// Segments that chain into one walk from `from` to `to`.
pub open spec fn route_walkable(segs: Seq<(Seq<char>, Seq<Tile>)>, from: Tile, to: Tile) -> bool {
    &&& segs.len() >= 1
    &&& chain_ok(segs)
    &&& segs[0].1[0] == from
    &&& segs.last().1.last() == to
}

proof fn lemma_chain_push(out: Seq<(Seq<char>, Seq<Tile>)>, seg: (Seq<char>, Seq<Tile>))
    requires
        chain_ok(out),
        out.len() > 0 ==> manhattan(out.last().1.last(), seg.1[0]) <= 1,
        walkable(seg.1),
    ensures
        chain_ok(out.push(seg)),
        out.push(seg).last() == seg,
        out.len() > 0 ==> out.push(seg)[0] == out[0],
{
    reveal(chain_ok);
    let sv = out.push(seg);
    assert forall|k: int| 0 <= k < sv.len() implies walkable(#[trigger] sv[k].1) by {
        if k < out.len() {
            assert(sv[k] == out[k]);
        }
    }
    assert forall|k: int| 0 <= k < sv.len() - 1 implies manhattan((#[trigger] sv[k]).1.last(), sv[k + 1].1[0])
        <= 1 by {
        if k < out.len() - 1 {
            assert(sv[k] == out[k] && sv[k + 1] == out[k + 1]);
        } else {
            assert(sv[k] == out.last());
        }
    }
}

proof fn lemma_grid_walkable(b: Bounds, p: Seq<Tile>, from: Tile, to: Tile)
    requires
        is_grid_path(b, p, from, to),
    ensures
        walkable(p),
{
    assert forall|j: int| 0 <= j < p.len() - 1 implies manhattan(#[trigger] p[j], p[j + 1]) <= 1 by {
        assert(adjacent(p[j], p[j + 1]));
    }
}

proof fn lemma_walkable_push(p: Seq<Tile>, t: Tile)
    requires
        walkable(p),
        manhattan(p.last(), t) <= 1,
    ensures
        walkable(p.push(t)),
        p.push(t)[0] == p[0],
        p.push(t).last() == t,
{
    let q = p.push(t);
    assert forall|j: int| 0 <= j < q.len() - 1 implies manhattan(#[trigger] q[j], q[j + 1]) <= 1 by {
        if j < p.len() - 1 {
            assert(q[j] == p[j] && q[j + 1] == p[j + 1]);
        } else {
            assert(q[j] == p.last());
        }
    }
}

/// Every listed room has bounds the grid search can handle.
pub open spec fn all_bounds_ok(rb: Seq<(String, Bounds)>) -> bool {
    forall|i: int| 0 <= i < rb.len() ==> bounds_ok(#[trigger] rb[i].1)
}

/// Every door tile of the graph has representable neighbours.
pub open spec fn door_tiles_ok(g: RoomGraph) -> bool {
    forall|r: Seq<char>, k: int| 0 <= k < g.links(r).len() ==> tile_ok(#[trigger] g.links(r)[k].1)
}

/// Compose a full path from `(from_room, from_tile)` to `(to_room,
/// to_tile)` as `(room_id, tile_waypoints_inside_that_room)` segments.
/// The door tile is appended as the last waypoint of every segment but the
/// destination room's, so the agent steps onto the door for one tick
/// before entering the next room.
#[verifier::rlimit(80)]
pub fn full_route(
    graph: &RoomGraph,
    room_bounds: &Vec<(String, Bounds)>,
    from: (&str, Tile),
    to: (&str, Tile),
) -> (r: Option<Vec<(String, Vec<Tile>)>>)
    requires
        graph.wf(),
        all_bounds_ok(room_bounds@),
        door_tiles_ok(*graph),
    ensures
        match r {
            Some(v) => full_route_spec(*graph, room_bounds@, (from.0@, from.1), (to.0@, to.1))
                == Some(segments_view(v)),
            None => full_route_spec(*graph, room_bounds@, (from.0@, from.1), (to.0@, to.1)) is None,
        },
        r matches Some(v) ==> route_walkable(segments_view(v), from.1, to.1),
        r matches Some(v) ==> segments_view(v)[0].0 == from.0@ && segments_view(v).last().0 == to.0@,
{
    let waypoints = match graph.route(from.0, to.0) {
        Some(w) => w,
        None => return None,
    };
    let ghost ws = links_view(waypoints);
    let ghost target = to.1;
    let ghost rbv = room_bounds@;
    let mut current_room: String = from.0.to_owned();
    let mut current_tile: Tile = from.1;
    let mut out: Vec<(String, Vec<Tile>)> = Vec::new();
    let mut i: usize = 0;
    proof {
        assert(ws.subrange(0, ws.len() as int) =~= ws);
        assert(segments_view(out) =~= Seq::<(Seq<char>, Seq<Tile>)>::empty());
        reveal(chain_ok);
        match assemble_spec(rbv, from.0@, from.1, ws, target) {
            None => {},
            Some(t) => {
                assert(segments_view(out) + t =~= t);
            },
        }
    }
    while i < waypoints.len()
        invariant
            0 <= i <= waypoints@.len(),
            ws == links_view(waypoints),
            graph.route_spec(from.0@, to.0@) == Some(ws),
            target == to.1,
            rbv == room_bounds@,
            all_bounds_ok(rbv),
            graph.wf(),
            door_tiles_ok(*graph),
            i < waypoints@.len() ==> waypoint_ok(graph.adjacency(), from.0@, ws, i as int),
            waypoints_follow_doors(graph.adjacency(), from.0@, ws),
            i > 0 ==> current_room@ == ws[i - 1].0,
            i == 0 ==> current_room@ == from.0@,
            assemble_spec(rbv, from.0@, from.1, ws, target) == prepend_opt(
                segments_view(out),
                assemble_spec(rbv, current_room@, current_tile, ws.subrange(i as int, ws.len() as int), target),
            ),
            chain_ok(segments_view(out)),
            segments_view(out).len() == 0 ==> current_tile == from.1,
            segments_view(out).len() > 0 ==> segments_view(out)[0].1[0] == from.1 && manhattan(
                segments_view(out).last().1.last(),
                current_tile,
            ) <= 1,
        decreases waypoints.len() - i,
    {
        let ghost rest_ws = ws.subrange(i as int, ws.len() as int);
        let ghost cur = current_room@;
        let next_room = &waypoints[i].0;
        let door_tile = waypoints[i].1;
        proof {
            assert(ws[i as int] == (next_room@, door_tile));
            assert(rest_ws.len() > 0);
            assert(rest_ws[0] == ws[i as int]);
            assert(rest_ws.drop_first() =~= ws.subrange(i as int + 1, ws.len() as int));
            assert(waypoint_ok(graph.adjacency(), from.0@, ws, i as int));
            let prev = if i == 0 { from.0@ } else { ws[i - 1].0 };
            assert(prev == cur);
            let k = choose|k: int| 0 <= k < graph.adjacency()[prev].len() && #[trigger] graph.adjacency()[prev][k] == ws[i as int];
            assert(graph.links(prev)[k].1 == door_tile);
            assert(tile_ok(door_tile));
        }
        let bounds = match find_bounds(room_bounds, &current_room) {
            Some(b) => b,
            None => return None,
        };
        proof {
            assert(bounds_ok(bounds));
        }
        let exit_tile = match adjacent_inside(bounds, door_tile) {
            Some(t) => t,
            None => {
                proof {
                    assert(assemble_spec(rbv, cur, current_tile, rest_ws, target) is None);
                }
                return None;
            },
        };
        let mut segment = match tile_path(bounds, current_tile, exit_tile) {
            Some(s) => s,
            None => {
                proof {
                    assert(assemble_spec(rbv, cur, current_tile, rest_ws, target) is None);
                }
                return None;
            },
        };
        let ghost seg0 = segment@;
        segment.push(door_tile);
        let next_bounds = match find_bounds(room_bounds, next_room) {
            Some(b) => b,
            None => {
                proof {
                    assert(assemble_spec(rbv, cur, current_tile, rest_ws, target) is None);
                }
                return None;
            },
        };
        let entry_tile = match adjacent_inside(next_bounds, door_tile) {
            Some(t) => t,
            None => {
                proof {
                    assert(assemble_spec(rbv, cur, current_tile, rest_ws, target) is None);
                }
                return None;
            },
        };
        let ghost old_out = segments_view(out);
        proof {
            lemma_grid_walkable(bounds, seg0, current_tile, exit_tile);
            lemma_walkable_push(seg0, door_tile);
            assert(segment@ =~= seg0.push(door_tile));
            lemma_chain_push(old_out, (cur, segment@));
        }
        out.push((current_room, segment));
        proof {
            assert(segments_view(out) =~= old_out + seq![(cur, segment@)]);
            assert(old_out + seq![(cur, segment@)] =~= old_out.push((cur, segment@)));
        }
        current_room = next_room.clone();
        current_tile = entry_tile;
        i += 1;
        proof {
            let tail = assemble_spec(rbv, current_room@, current_tile, ws.subrange(i as int, ws.len() as int), target);
            match tail {
                None => {},
                Some(t) => {
                    assert(old_out + (seq![(cur, segment@)] + t) =~= segments_view(out) + t);
                },
            }
        }
    }
    let bounds = match find_bounds(room_bounds, &current_room) {
        Some(b) => b,
        None => return None,
    };
    proof {
        assert(ws.subrange(i as int, ws.len() as int) =~= Seq::<(Seq<char>, Tile)>::empty());
    }
    let segment = match tile_path(bounds, current_tile, to.1) {
        Some(s) => s,
        None => return None,
    };
    let ghost old_out = segments_view(out);
    proof {
        lemma_grid_walkable(bounds, segment@, current_tile, to.1);
        lemma_chain_push(old_out, (current_room@, segment@));
    }
    out.push((current_room, segment));
    proof {
        assert(segments_view(out) =~= old_out + seq![(current_room@, segment@)]);
        assert(old_out + seq![(current_room@, segment@)] =~= old_out.push((current_room@, segment@)));
        assert(assemble_spec(rbv, from.0@, from.1, ws, target) == Some(segments_view(out)));
        lemma_assemble_ends(rbv, from.0@, from.1, ws, target);
        if ws.len() > 0 {
            assert(ws.last().0 == waypoints@.last().0@);
        }
    }
    Some(out)
}

} // verus!
