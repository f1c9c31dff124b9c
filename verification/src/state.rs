//! The in-memory world view: tick counter, backend catalog and one avatar
//! per agent.

use vstd::prelude::*;
use crate::health::Health;

verus! {

#[verifier::external_type_specification]
#[verifier::external_body]
pub struct ExJsonValue(serde_json::Value);

#[derive(Debug)]
pub struct AvatarView {
    pub agent_id: String,
    pub startup_id: String,
    pub role: String,
    pub backend: String,
    pub current_pos: (i32, i32),
    pub target_pos: Option<(i32, i32)>,
    pub room_id: String,
    pub status: String,
    pub last_seen_at: Option<i64>,
    pub health: Health,
}

impl Clone for AvatarView {
    fn clone(&self) -> (r: Self)
        ensures
            r == *self,
    {
        AvatarView {
            agent_id: self.agent_id.clone(),
            startup_id: self.startup_id.clone(),
            role: self.role.clone(),
            backend: self.backend.clone(),
            current_pos: self.current_pos,
            target_pos: self.target_pos,
            room_id: self.room_id.clone(),
            status: self.status.clone(),
            last_seen_at: self.last_seen_at,
            health: self.health,
        }
    }
}

/// The world view. Avatars are keyed by `agent_id`: no id occurs twice.
#[derive(Debug)]
pub struct WorldView {
    pub tick_seq: u64,
    pub backend_catalog: Vec<(String, serde_json::Value)>,
    pub avatars: Vec<AvatarView>,
}

pub open spec fn ids_unique(avs: Seq<AvatarView>) -> bool {
    forall|i: int, j: int| 0 <= i < j < avs.len() ==> (#[trigger] avs[i]).agent_id@ != (#[trigger] avs[j]).agent_id@
}

/// Index of the avatar of `id`, if any.
pub open spec fn avatar_index(avs: Seq<AvatarView>, id: Seq<char>) -> Option<int> {
    if exists|i: int| 0 <= i < avs.len() && (#[trigger] avs[i]).agent_id@ == id {
        Some(choose|i: int| 0 <= i < avs.len() && (#[trigger] avs[i]).agent_id@ == id)
    } else {
        None
    }
}

pub proof fn lemma_avatar_index(avs: Seq<AvatarView>, i: int)
    requires
        ids_unique(avs),
        0 <= i < avs.len(),
    ensures
        avatar_index(avs, avs[i].agent_id@) == Some(i),
{
    let id = avs[i].agent_id@;
    let j = choose|j: int| 0 <= j < avs.len() && (#[trigger] avs[j]).agent_id@ == id;
    if j < i {
        assert(avs[j].agent_id@ != avs[i].agent_id@);
    } else if j > i {
        assert(avs[i].agent_id@ != avs[j].agent_id@);
    }
}

/// An avatar of another startup than `startup_id`.
pub open spec fn not_of_startup(startup_id: Seq<char>) -> spec_fn(AvatarView) -> bool {
    |a: AvatarView| a.startup_id@ != startup_id
}

impl WorldView {
    pub open spec fn wf(self) -> bool {
        ids_unique(self.avatars@)
    }

    /// An empty world at tick 0.
    pub fn new() -> (w: Self)
        ensures
            w.wf(),
            w.tick_seq == 0,
            w.backend_catalog@.len() == 0,
            w.avatars@.len() == 0,
    {
        WorldView { tick_seq: 0, backend_catalog: Vec::new(), avatars: Vec::new() }
    }

    /// Position of the avatar of `agent_id` in `avatars`.
    pub fn find(&self, agent_id: &str) -> (r: Option<usize>)
        requires
            self.wf(),
        ensures
            match r {
                Some(i) => avatar_index(self.avatars@, agent_id@) == Some(i as int),
                None => avatar_index(self.avatars@, agent_id@) is None,
            },
    {
        let id = agent_id.to_owned();
        let mut i: usize = 0;
        while i < self.avatars.len()
            invariant
                0 <= i <= self.avatars@.len(),
                self.wf(),
                id@ == agent_id@,
                forall|j: int| 0 <= j < i ==> (#[trigger] self.avatars@[j]).agent_id@ != id@,
            decreases self.avatars.len() - i,
        {
            if self.avatars[i].agent_id == id {
                proof {
                    lemma_avatar_index(self.avatars@, i as int);
                }
                return Some(i);
            }
            i += 1;
        }
        None
    }

    /// Insert an avatar, replacing the one with the same `agent_id`.
    pub fn upsert_avatar(&mut self, a: AvatarView)
        requires
            old(self).wf(),
        ensures
            final(self).wf(),
            final(self).tick_seq == old(self).tick_seq,
            final(self).backend_catalog == old(self).backend_catalog,
            match avatar_index(old(self).avatars@, a.agent_id@) {
                Some(i) => final(self).avatars@ == old(self).avatars@.update(i, a),
                None => final(self).avatars@ == old(self).avatars@.push(a),
            },
    {
        match self.find(a.agent_id.as_str()) {
            Some(i) => {
                self.avatars.set(i, a);
                proof {
                    let s = self.avatars@;
                    assert forall|x: int, y: int| 0 <= x < y < s.len() implies (#[trigger] s[x]).agent_id@
                        != (#[trigger] s[y]).agent_id@ by {
                        assert(old(self).avatars@[i as int].agent_id@ == a.agent_id@);
                    }
                }
            },
            None => {
                let ghost pre = self.avatars@;
                self.avatars.push(a);
                proof {
                    let s = self.avatars@;
                    assert forall|x: int, y: int| 0 <= x < y < s.len() implies (#[trigger] s[x]).agent_id@
                        != (#[trigger] s[y]).agent_id@ by {
                        if y == pre.len() {
                            assert(s[x] == pre[x]);
                        }
                    }
                }
            },
        }
    }

    /// Remove the avatar of `agent_id`, if present.
    pub fn remove_avatar(&mut self, agent_id: &str)
        requires
            old(self).wf(),
        ensures
            final(self).wf(),
            final(self).tick_seq == old(self).tick_seq,
            final(self).backend_catalog == old(self).backend_catalog,
            match avatar_index(old(self).avatars@, agent_id@) {
                Some(i) => final(self).avatars@ == old(self).avatars@.remove(i),
                None => final(self).avatars@ == old(self).avatars@,
            },
    {
        match self.find(agent_id) {
            Some(i) => {
                self.avatars.remove(i);
                proof {
                    let s = self.avatars@;
                    let o = old(self).avatars@;
                    assert forall|x: int, y: int| 0 <= x < y < s.len() implies (#[trigger] s[x]).agent_id@
                        != (#[trigger] s[y]).agent_id@ by {
                        let ox = if x < i { x } else { x + 1 };
                        let oy = if y < i { y } else { y + 1 };
                        assert(s[x] == o[ox]);
                        assert(s[y] == o[oy]);
                    }
                }
            },
            None => {},
        }
    }

    /// Drop every avatar of `startup_id`, keeping the others in order.
    pub fn remove_startup_avatars(&mut self, startup_id: &str)
        requires
            old(self).wf(),
        ensures
            final(self).wf(),
            final(self).tick_seq == old(self).tick_seq,
            final(self).backend_catalog == old(self).backend_catalog,
            final(self).avatars@ == old(self).avatars@.filter(not_of_startup(startup_id@)),
    {
        let sid = startup_id.to_owned();
        let ghost o = self.avatars@;
        let mut kept: Vec<AvatarView> = Vec::new();
        let mut i: usize = 0;
        let n = self.avatars.len();
        while i < n
            invariant
                n == o.len(),
                self.avatars@ == o,
                0 <= i <= n,
                sid@ == startup_id@,
                kept@ == o.take(i as int).filter(not_of_startup(startup_id@)),
                ids_unique(o),
                ids_unique(kept@),
                forall|x: int|
                    0 <= x < kept@.len() ==> exists|j: int|
                        0 <= j < i && (#[trigger] o[j]).agent_id@ == (#[trigger] kept@[x]).agent_id@,
            decreases n - i,
        {
            let a = self.avatars[i].clone();
            let ghost before = kept@;
            proof {
                assert(o.take(i as int + 1).drop_last() =~= o.take(i as int));
                assert(o.take(i as int + 1).last() == o[i as int]);
                reveal(Seq::filter);
            }
            if a.startup_id != sid {
                kept.push(a);
                proof {
                    let k = kept@;
                    assert forall|x: int, y: int| 0 <= x < y < k.len() implies (#[trigger] k[x]).agent_id@
                        != (#[trigger] k[y]).agent_id@ by {
                        if y == before.len() {
                            let j = choose|j: int| 0 <= j < i && (#[trigger] o[j]).agent_id@ == before[x].agent_id@;
                            assert(o[j].agent_id@ != o[i as int].agent_id@);
                        } else {
                            assert(k[x] == before[x] && k[y] == before[y]);
                        }
                    }
                    assert forall|x: int| 0 <= x < k.len() implies exists|j: int|
                        0 <= j < i + 1 && (#[trigger] o[j]).agent_id@ == (#[trigger] k[x]).agent_id@ by {
                        if x == before.len() {
                            assert(o[i as int].agent_id@ == k[x].agent_id@);
                        } else {
                            assert(k[x] == before[x]);
                            let j = choose|j: int| 0 <= j < i && (#[trigger] o[j]).agent_id@ == before[x].agent_id@;
                            assert(o[j].agent_id@ == k[x].agent_id@);
                        }
                    }
                }
            }
            i += 1;
        }
        proof {
            assert(o.take(n as int) =~= o);
        }
        self.avatars = kept;
    }
}

} // verus!
