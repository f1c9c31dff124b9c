//! The default town map: 7 rooms (4 suites and 3 common rooms) joined by
//! 6 doors, as the typed layout used by movement, permissions and
//! pathfinding.

use vstd::prelude::*;
use crate::path::{Bounds, Tile};

verus! {

pub const TOWN_ID: &'static str = "town_default";

#[derive(Debug)]
pub struct RoomDef {
    pub id: String,
    /// `(x, y, w, h)`: the tiles `x..x+w` by `y..y+h`.
    pub bounds: (i32, i32, i32, i32),
    /// `None`: common (anyone can enter); `Some(s)`: private to startup `s`.
    pub private_to_startup_id: Option<String>,
}

impl Clone for RoomDef {
    fn clone(&self) -> (r: Self)
        ensures
            r == *self,
    {
        let p = match &self.private_to_startup_id {
            Some(s) => Some(s.clone()),
            None => None,
        };
        RoomDef { id: self.id.clone(), bounds: self.bounds, private_to_startup_id: p }
    }
}

#[derive(Debug)]
pub struct DoorDef {
    pub id: String,
    pub a_room: String,
    pub b_room: String,
    pub tile: (i32, i32),
}

impl Clone for DoorDef {
    fn clone(&self) -> (r: Self)
        ensures
            r == *self,
    {
        DoorDef {
            id: self.id.clone(),
            a_room: self.a_room.clone(),
            b_room: self.b_room.clone(),
            tile: self.tile,
        }
    }
}

#[derive(Debug)]
pub struct TownLayout {
    pub town_id: String,
    pub rooms: Vec<RoomDef>,
    pub doors: Vec<DoorDef>,
}

pub open spec fn room_is(r: RoomDef, id: Seq<char>, b: Bounds) -> bool {
    r.id@ == id && r.bounds == b && r.private_to_startup_id is None
}

pub open spec fn door_is(d: DoorDef, id: Seq<char>, a: Seq<char>, b: Seq<char>, t: Tile) -> bool {
    d.id@ == id && d.a_room@ == a && d.b_room@ == b && d.tile == t
}

/// `(room_id, bounds)` for every room, in room order.
pub open spec fn bounds_entries(rooms: Seq<RoomDef>) -> Seq<(String, Bounds)> {
    rooms.map_values(|r: RoomDef| (r.id, r.bounds))
}

/// `i` is the first room with id `id`.
pub open spec fn is_first_room(rooms: Seq<RoomDef>, id: Seq<char>, i: int) -> bool {
    &&& 0 <= i < rooms.len()
    &&& rooms[i].id@ == id
    &&& forall|j: int| 0 <= j < i ==> (#[trigger] rooms[j]).id@ != id
}

/// The first room with id `id`.
pub open spec fn room_spec(rooms: Seq<RoomDef>, id: Seq<char>) -> Option<RoomDef> {
    if exists|i: int| is_first_room(rooms, id, i) {
        Some(rooms[choose|i: int| is_first_room(rooms, id, i)])
    } else {
        None
    }
}

pub proof fn lemma_first_room_unique(rooms: Seq<RoomDef>, id: Seq<char>, i: int)
    requires
        is_first_room(rooms, id, i),
    ensures
        room_spec(rooms, id) == Some(rooms[i]),
{
    let k = choose|k: int| is_first_room(rooms, id, k);
    if k < i {
        assert(rooms[k].id@ != id);
    } else if k > i {
        assert(rooms[i].id@ != id);
    }
}

/// `i` is the first door on tile `t`.
pub open spec fn is_first_door(doors: Seq<DoorDef>, t: Tile, i: int) -> bool {
    &&& 0 <= i < doors.len()
    &&& doors[i].tile == t
    &&& forall|j: int| 0 <= j < i ==> (#[trigger] doors[j]).tile != t
}

impl TownLayout {
    /// Build the default town layout. Suites start unowned.
    pub fn default_town() -> (l: Self)
        ensures
            l.town_id@ == TOWN_ID@,
            l.rooms@.len() == 7,
            room_is(l.rooms@[0], "suite_1"@, (0, 0, 7, 6)),
            room_is(l.rooms@[1], "suite_2"@, (0, 6, 7, 6)),
            room_is(l.rooms@[2], "suite_3"@, (33, 0, 7, 6)),
            room_is(l.rooms@[3], "suite_4"@, (33, 6, 7, 6)),
            room_is(l.rooms@[4], "lobby"@, (7, 4, 26, 4)),
            room_is(l.rooms@[5], "cafe"@, (7, 0, 26, 4)),
            room_is(l.rooms@[6], "library"@, (7, 8, 26, 4)),
            l.doors@.len() == 6,
            door_is(l.doors@[0], "door_s1_lobby"@, "suite_1"@, "lobby"@, (7, 4)),
            door_is(l.doors@[1], "door_s2_lobby"@, "suite_2"@, "lobby"@, (7, 7)),
            door_is(l.doors@[2], "door_s3_lobby"@, "suite_3"@, "lobby"@, (33, 4)),
            door_is(l.doors@[3], "door_s4_lobby"@, "suite_4"@, "lobby"@, (33, 7)),
            door_is(l.doors@[4], "door_lobby_cafe"@, "lobby"@, "cafe"@, (20, 4)),
            door_is(l.doors@[5], "door_lobby_library"@, "lobby"@, "library"@, (20, 8)),
    {
        let rooms = vec![
            RoomDef { id: "suite_1".to_owned(), bounds: (0, 0, 7, 6), private_to_startup_id: None },
            RoomDef { id: "suite_2".to_owned(), bounds: (0, 6, 7, 6), private_to_startup_id: None },
            RoomDef { id: "suite_3".to_owned(), bounds: (33, 0, 7, 6), private_to_startup_id: None },
            RoomDef { id: "suite_4".to_owned(), bounds: (33, 6, 7, 6), private_to_startup_id: None },
            RoomDef { id: "lobby".to_owned(), bounds: (7, 4, 26, 4), private_to_startup_id: None },
            RoomDef { id: "cafe".to_owned(), bounds: (7, 0, 26, 4), private_to_startup_id: None },
            RoomDef { id: "library".to_owned(), bounds: (7, 8, 26, 4), private_to_startup_id: None },
        ];
        let doors = vec![
            DoorDef {
                id: "door_s1_lobby".to_owned(),
                a_room: "suite_1".to_owned(),
                b_room: "lobby".to_owned(),
                tile: (7, 4),
            },
            DoorDef {
                id: "door_s2_lobby".to_owned(),
                a_room: "suite_2".to_owned(),
                b_room: "lobby".to_owned(),
                tile: (7, 7),
            },
            DoorDef {
                id: "door_s3_lobby".to_owned(),
                a_room: "suite_3".to_owned(),
                b_room: "lobby".to_owned(),
                tile: (33, 4),
            },
            DoorDef {
                id: "door_s4_lobby".to_owned(),
                a_room: "suite_4".to_owned(),
                b_room: "lobby".to_owned(),
                tile: (33, 7),
            },
            DoorDef {
                id: "door_lobby_cafe".to_owned(),
                a_room: "lobby".to_owned(),
                b_room: "cafe".to_owned(),
                tile: (20, 4),
            },
            DoorDef {
                id: "door_lobby_library".to_owned(),
                a_room: "lobby".to_owned(),
                b_room: "library".to_owned(),
                tile: (20, 8),
            },
        ];
        TownLayout { town_id: TOWN_ID.to_owned(), rooms, doors }
    }

    /// `(room_id, bounds)` for every room, in room order, ready for
    /// `path::full_route`.
    pub fn room_bounds_map(&self) -> (m: Vec<(String, Bounds)>)
        ensures
            m@ == bounds_entries(self.rooms@),
    {
        let mut m: Vec<(String, Bounds)> = Vec::new();
        let mut i: usize = 0;
        while i < self.rooms.len()
            invariant
                0 <= i <= self.rooms@.len(),
                m@ == bounds_entries(self.rooms@.take(i as int)),
            decreases self.rooms.len() - i,
        {
            m.push((self.rooms[i].id.clone(), self.rooms[i].bounds));
            proof {
                assert(bounds_entries(self.rooms@.take(i as int + 1)) =~= bounds_entries(
                    self.rooms@.take(i as int),
                ).push((self.rooms@[i as int].id, self.rooms@[i as int].bounds)));
            }
            i += 1;
        }
        proof {
            assert(self.rooms@.take(self.rooms@.len() as int) =~= self.rooms@);
        }
        m
    }

    /// Index of the first room with id `id`.
    pub fn room_index(&self, id: &str) -> (r: Option<usize>)
        ensures
            match r {
                Some(i) => is_first_room(self.rooms@, id@, i as int),
                None => forall|j: int| 0 <= j < self.rooms@.len() ==> (#[trigger] self.rooms@[j]).id@ != id@,
            },
    {
        let key = id.to_owned();
        let mut i: usize = 0;
        while i < self.rooms.len()
            invariant
                0 <= i <= self.rooms@.len(),
                key@ == id@,
                forall|j: int| 0 <= j < i ==> (#[trigger] self.rooms@[j]).id@ != id@,
            decreases self.rooms.len() - i,
        {
            if self.rooms[i].id == key {
                return Some(i);
            }
            i += 1;
        }
        None
    }

    /// The first room with id `id`.
    pub fn room(&self, id: &str) -> (r: Option<&RoomDef>)
        ensures
            match r {
                Some(rd) => room_spec(self.rooms@, id@) == Some(*rd),
                None => room_spec(self.rooms@, id@) is None,
            },
    {
        match self.room_index(id) {
            Some(i) => {
                proof {
                    lemma_first_room_unique(self.rooms@, id@, i as int);
                }
                Some(&self.rooms[i])
            },
            None => None,
        }
    }

    /// The first door on tile `tile`.
    pub fn door_at(&self, tile: (i32, i32)) -> (r: Option<&DoorDef>)
        ensures
            match r {
                Some(d) => exists|i: int| is_first_door(self.doors@, tile, i) && self.doors@[i] == *d,
                None => forall|j: int| 0 <= j < self.doors@.len() ==> (#[trigger] self.doors@[j]).tile != tile,
            },
    {
        let mut i: usize = 0;
        while i < self.doors.len()
            invariant
                0 <= i <= self.doors@.len(),
                forall|j: int| 0 <= j < i ==> (#[trigger] self.doors@[j]).tile != tile,
            decreases self.doors.len() - i,
        {
            if self.doors[i].tile.0 == tile.0 && self.doors[i].tile.1 == tile.1 {
                return Some(&self.doors[i]);
            }
            i += 1;
        }
        None
    }

    /// Mark the first room with id `suite_id` as private to `startup_id`.
    pub fn claim_suite(&mut self, suite_id: &str, startup_id: &str)
        ensures
            final(self).town_id == old(self).town_id,
            final(self).doors == old(self).doors,
            final(self).rooms@.len() == old(self).rooms@.len(),
            forall|i: int|
                0 <= i < old(self).rooms@.len() ==> {
                    let o = #[trigger] old(self).rooms@[i];
                    let n = final(self).rooms@[i];
                    n.id == o.id && n.bounds == o.bounds && if is_first_room(
                        old(self).rooms@,
                        suite_id@,
                        i,
                    ) {
                        n.private_to_startup_id matches Some(s) && s@ == startup_id@
                    } else {
                        n.private_to_startup_id == o.private_to_startup_id
                    }
                },
    {
        match self.room_index(suite_id) {
            Some(i) => {
                let mut room = self.rooms.remove(i);
                room.private_to_startup_id = Some(startup_id.to_owned());
                self.rooms.insert(i, room);
                proof {
                    assert forall|j: int| 0 <= j < old(self).rooms@.len() && j != i implies !is_first_room(
                        old(self).rooms@,
                        suite_id@,
                        j,
                    ) by {
                        if j > i {
                            assert(old(self).rooms@[i as int].id@ == suite_id@);
                        }
                    }
                }
            },
            None => {},
        }
    }

    /// Release every room held privately by `startup_id`.
    pub fn release_suites(&mut self, startup_id: &str)
        ensures
            final(self).town_id == old(self).town_id,
            final(self).doors == old(self).doors,
            final(self).rooms@.len() == old(self).rooms@.len(),
            forall|i: int|
                0 <= i < old(self).rooms@.len() ==> {
                    let o = #[trigger] old(self).rooms@[i];
                    let n = final(self).rooms@[i];
                    n.id == o.id && n.bounds == o.bounds && if o.private_to_startup_id matches Some(s)
                        && s@ == startup_id@ {
                        n.private_to_startup_id is None
                    } else {
                        n.private_to_startup_id == o.private_to_startup_id
                    }
                },
    {
        let sid = startup_id.to_owned();
        let mut i: usize = 0;
        while i < self.rooms.len()
            invariant
                0 <= i <= self.rooms@.len(),
                self.rooms@.len() == old(self).rooms@.len(),
                self.town_id == old(self).town_id,
                self.doors == old(self).doors,
                sid@ == startup_id@,
                forall|j: int|
                    i <= j < self.rooms@.len() ==> #[trigger] self.rooms@[j] == old(self).rooms@[j],
                forall|j: int|
                    0 <= j < i ==> {
                        let o = #[trigger] old(self).rooms@[j];
                        let n = self.rooms@[j];
                        n.id == o.id && n.bounds == o.bounds && if o.private_to_startup_id matches Some(s)
                            && s@ == startup_id@ {
                            n.private_to_startup_id is None
                        } else {
                            n.private_to_startup_id == o.private_to_startup_id
                        }
                    },
            decreases self.rooms.len() - i,
        {
            let owned = match &self.rooms[i].private_to_startup_id {
                Some(s) => *s == sid,
                None => false,
            };
            if owned {
                let mut room = self.rooms.remove(i);
                room.private_to_startup_id = None;
                self.rooms.insert(i, room);
            }
            i += 1;
        }
    }
}

} // verus!
