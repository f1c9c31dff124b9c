//! Who is near whom: on every tick the avatars are grouped by room and
//! each member of a room is told the room's occupants. Delivering the
//! frames is the loop's part.

use vstd::prelude::*;
use crate::state::AvatarView;
use crate::text::str_eq;

verus! {

/// An occupant as a peer sees it: (agent id, role, startup id).
pub type Peer = (String, String, String);

pub open spec fn peer_view(p: Peer) -> (Seq<char>, Seq<char>, Seq<char>) {
    (p.0@, p.1@, p.2@)
}

pub open spec fn avatar_peer(a: AvatarView) -> (Seq<char>, Seq<char>, Seq<char>) {
    (a.agent_id@, a.role@, a.startup_id@)
}

pub open spec fn in_room(room: Seq<char>) -> spec_fn(AvatarView) -> bool {
    |a: AvatarView| a.room_id@ == room
}

/// The occupants of `room`, in world order.
pub open spec fn occupants(avs: Seq<AvatarView>, room: Seq<char>) -> Seq<(Seq<char>, Seq<char>, Seq<char>)> {
    avs.filter(in_room(room)).map_values(|a: AvatarView| avatar_peer(a))
}

/// The occupants of `room`.
pub fn room_members(avatars: &Vec<AvatarView>, room: &str) -> (m: Vec<Peer>)
    ensures
        m@.map_values(|p: Peer| peer_view(p)) == occupants(avatars@, room@),
{
    let ghost all = avatars@;
    let ghost f = in_room(room@);
    let mut m: Vec<Peer> = Vec::new();
    let mut i: usize = 0;
    proof {
        reveal(Seq::filter);
        assert(all.take(0).filter(f) =~= Seq::<AvatarView>::empty());
        assert(m@.map_values(|p: Peer| peer_view(p)) =~= Seq::<(Seq<char>, Seq<char>, Seq<char>)>::empty());
    }
    while i < avatars.len()
        invariant
            0 <= i <= all.len(),
            all == avatars@,
            f == in_room(room@),
            m@.map_values(|p: Peer| peer_view(p)) == all.take(i as int).filter(f).map_values(
                |a: AvatarView| avatar_peer(a),
            ),
        decreases avatars.len() - i,
    {
        let a = &avatars[i];
        proof {
            reveal(Seq::filter);
            assert(all.take(i as int + 1).drop_last() =~= all.take(i as int));
            assert(all.take(i as int + 1).last() == all[i as int]);
        }
        if str_eq(a.room_id.as_str(), room) {
            let ghost before = m@.map_values(|p: Peer| peer_view(p));
            m.push((a.agent_id.clone(), a.role.clone(), a.startup_id.clone()));
            proof {
                assert(m@.map_values(|p: Peer| peer_view(p)) =~= before.push(avatar_peer(*a)));
                assert(all.take(i as int + 1).filter(f) == all.take(i as int).filter(f).push(*a));
                assert(all.take(i as int + 1).filter(f).map_values(|b: AvatarView| avatar_peer(b))
                    =~= all.take(i as int).filter(f).map_values(|b: AvatarView| avatar_peer(b)).push(
                    avatar_peer(*a),
                ));
            }
        } else {
            proof {
                assert(all.take(i as int + 1).filter(f) == all.take(i as int).filter(f));
            }
        }
        i += 1;
    }
    proof {
        assert(all.take(all.len() as int) =~= all);
    }
    m
}

proof fn lemma_contains_push(s: Seq<Seq<char>>, x: Seq<char>, r: Seq<char>)
    ensures
        s.push(x).contains(r) <==> (s.contains(r) || r == x),
{
    if s.push(x).contains(r) {
        let k = choose|k: int| 0 <= k < s.push(x).len() && s.push(x)[k] == r;
        if k < s.len() {
            assert(s[k] == r);
        }
    }
    if s.contains(r) {
        let k = choose|k: int| 0 <= k < s.len() && s[k] == r;
        assert(s.push(x)[k] == r);
    }
    if r == x {
        assert(s.push(x)[s.len() as int] == r);
    }
}

pub open spec fn group_rooms(g: Seq<(String, Vec<Peer>)>) -> Seq<Seq<char>> {
    g.map_values(|e: (String, Vec<Peer>)| e.0@)
}

pub open spec fn avatar_rooms(avs: Seq<AvatarView>) -> Seq<Seq<char>> {
    avs.map_values(|a: AvatarView| a.room_id@)
}

/// The rooms of the proximity broadcast, each once, in the order their
/// first occupant appears, with their occupants.
pub fn proximity_groups(avatars: &Vec<AvatarView>) -> (g: Vec<(String, Vec<Peer>)>)
    ensures
        group_rooms(g@).no_duplicates(),
        forall|k: int|
            0 <= k < g@.len() ==> (#[trigger] g@[k]).1@.map_values(|p: Peer| peer_view(p)) == occupants(
                avatars@,
                g@[k].0@,
            ),
        forall|r: Seq<char>| #[trigger] group_rooms(g@).contains(r) <==> avatar_rooms(avatars@).contains(r),
{
    let ghost ar = avatar_rooms(avatars@);
    let mut g: Vec<(String, Vec<Peer>)> = Vec::new();
    let mut i: usize = 0;
    while i < avatars.len()
        invariant
            0 <= i <= avatars@.len(),
            ar == avatar_rooms(avatars@),
            group_rooms(g@).no_duplicates(),
            forall|k: int|
                0 <= k < g@.len() ==> (#[trigger] g@[k]).1@.map_values(|p: Peer| peer_view(p)) == occupants(
                    avatars@,
                    g@[k].0@,
                ),
            forall|r: Seq<char>| #[trigger] group_rooms(g@).contains(r) <==> ar.take(i as int).contains(r),
        decreases avatars.len() - i,
    {
        let room = avatars[i].room_id.as_str();
        let ghost gr = group_rooms(g@);
        proof {
            assert(ar.take(i as int + 1) =~= ar.take(i as int).push(room@));
            assert(room@ == ar[i as int]);
            assert forall|r: Seq<char>| #[trigger] ar.take(i as int + 1).contains(r) <==> (ar.take(i as int).contains(r)
                || r == room@) by {
                lemma_contains_push(ar.take(i as int), room@, r);
            }
        }
        let mut seen = false;
        let mut k: usize = 0;
        while k < g.len()
            invariant
                0 <= k <= g@.len(),
                gr == group_rooms(g@),
                seen ==> gr.contains(room@),
                !seen ==> forall|q: int| 0 <= q < k ==> gr[q] != room@,
            decreases g.len() - k,
        {
            if str_eq(g[k].0.as_str(), room) {
                seen = true;
                assert(gr[k as int] == room@);
            }
            k += 1;
        }
        if !seen {
            let members = room_members(avatars, room);
            g.push((room.to_owned(), members));
            proof {
                assert(group_rooms(g@) =~= gr.push(room@));
                assert(!gr.contains(room@));
                assert forall|r: Seq<char>| #[trigger] group_rooms(g@).contains(r) <==> (gr.contains(r) || r
                    == room@) by {
                    lemma_contains_push(gr, room@, r);
                }
            }
        }
        i += 1;
    }
    proof {
        assert(ar.take(avatars@.len() as int) =~= ar);
    }
    g
}

} // verus!
