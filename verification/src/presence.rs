//! Which operators are connected to the console, and which startup each
//! is looking at. Entries are refreshed by heartbeats and dropped when
//! their last heartbeat is older than the TTL. The registry is a list of
//! entries in which no operator id occurs twice; the server shares it
//! behind a lock.

use vstd::prelude::*;
use crate::text::str_eq;

verus! {

/// Seconds without a heartbeat after which an entry is dropped: three
/// missed beats of thirty seconds.
pub const PRESENCE_TTL_SECS: i64 = 90;

/// One connected operator.
#[derive(Debug)]
pub struct PresenceEntry {
    pub operator_id: String,
    pub operator_name: String,
    pub role: String,
    pub focused_startup_id: Option<String>,
    pub last_seen_at: i64,
}

impl Clone for PresenceEntry {
    fn clone(&self) -> (r: Self)
        ensures
            r == *self,
    {
        PresenceEntry {
            operator_id: self.operator_id.clone(),
            operator_name: self.operator_name.clone(),
            role: self.role.clone(),
            focused_startup_id: match &self.focused_startup_id {
                Some(s) => Some(s.clone()),
                None => None,
            },
            last_seen_at: self.last_seen_at,
        }
    }
}

/// The presence registry.
#[derive(Debug)]
pub struct PresenceRegistry {
    pub entries: Vec<PresenceEntry>,
}

pub open spec fn ids_unique(es: Seq<PresenceEntry>) -> bool {
    forall|i: int, j: int|
        0 <= i < j < es.len() ==> (#[trigger] es[i]).operator_id@ != (#[trigger] es[j]).operator_id@
}

pub open spec fn focus_view(f: Option<String>) -> Option<Seq<char>> {
    match f {
        Some(s) => Some(s@),
        None => None,
    }
}

/// Index of the entry of `id`, if there is one.
pub open spec fn entry_index(es: Seq<PresenceEntry>, id: Seq<char>) -> Option<int> {
    if exists|i: int| 0 <= i < es.len() && (#[trigger] es[i]).operator_id@ == id {
        Some(choose|i: int| 0 <= i < es.len() && (#[trigger] es[i]).operator_id@ == id)
    } else {
        None
    }
}

pub proof fn lemma_entry_index(es: Seq<PresenceEntry>, i: int)
    requires
        ids_unique(es),
        0 <= i < es.len(),
    ensures
        entry_index(es, es[i].operator_id@) == Some(i),
{
    let id = es[i].operator_id@;
    let j = choose|j: int| 0 <= j < es.len() && (#[trigger] es[j]).operator_id@ == id;
    if j < i {
        assert(es[j].operator_id@ != es[i].operator_id@);
    } else if j > i {
        assert(es[i].operator_id@ != es[j].operator_id@);
    }
}

/// An entry still alive at `now`: seen at or after `now - PRESENCE_TTL_SECS`.
pub open spec fn fresh_at(now: int) -> spec_fn(PresenceEntry) -> bool {
    |e: PresenceEntry| e.last_seen_at >= now - PRESENCE_TTL_SECS
}

impl PresenceRegistry {
    pub open spec fn wf(self) -> bool {
        ids_unique(self.entries@)
    }
}

/// An empty registry.
pub fn new_registry() -> (r: PresenceRegistry)
    ensures
        r.wf(),
        r.entries@.len() == 0,
{
    PresenceRegistry { entries: Vec::new() }
}

/// The entries, in registry order.
pub fn snapshot(reg: &PresenceRegistry) -> (v: Vec<PresenceEntry>)
    ensures
        v@ == reg.entries@,
{
    let mut v = Vec::new();
    let mut i: usize = 0;
    while i < reg.entries.len()
        invariant
            0 <= i <= reg.entries@.len(),
            v@ == reg.entries@.take(i as int),
        decreases reg.entries.len() - i,
    {
        v.push(reg.entries[i].clone());
        proof {
            assert(reg.entries@.take(i as int + 1) =~= reg.entries@.take(i as int).push(reg.entries@[i as int]));
        }
        i += 1;
    }
    proof {
        assert(reg.entries@.take(reg.entries@.len() as int) =~= reg.entries@);
    }
    v
}

fn same_focus(a: &Option<String>, b: &Option<String>) -> (r: bool)
    ensures
        r == (focus_view(*a) == focus_view(*b)),
{
    match (a, b) {
        (Some(x), Some(y)) => str_eq(x.as_str(), y.as_str()),
        (None, None) => true,
        _ => false,
    }
}

/// Record a connection or a heartbeat at `now`. An operator already
/// present gets `last_seen_at = now` and the given focus, the rest of its
/// entry kept; a new one is appended. The result says whether the
/// presence list is worth broadcasting again: always for a new operator,
/// and for a heartbeat only when the focus changed.
pub fn upsert(
    reg: &mut PresenceRegistry,
    operator_id: &str,
    operator_name: &str,
    role: &str,
    focused_startup_id: Option<String>,
    now: i64,
) -> (changed: bool)
    requires
        old(reg).wf(),
    ensures
        final(reg).wf(),
        match entry_index(old(reg).entries@, operator_id@) {
            Some(i) => {
                let e = old(reg).entries@[i];
                &&& changed == (focus_view(e.focused_startup_id) != focus_view(focused_startup_id))
                &&& final(reg).entries@ == old(reg).entries@.update(
                    i,
                    PresenceEntry { focused_startup_id, last_seen_at: now, ..e },
                )
            },
            None => {
                &&& changed
                &&& final(reg).entries@.len() == old(reg).entries@.len() + 1
                &&& final(reg).entries@.drop_last() == old(reg).entries@
                &&& final(reg).entries@.last().operator_id@ == operator_id@
                &&& final(reg).entries@.last().operator_name@ == operator_name@
                &&& final(reg).entries@.last().role@ == role@
                &&& final(reg).entries@.last().focused_startup_id == focused_startup_id
                &&& final(reg).entries@.last().last_seen_at == now
            },
        },
{
    let ghost before = reg.entries@;
    let mut i: usize = 0;
    while i < reg.entries.len()
        invariant
            0 <= i <= reg.entries@.len(),
            reg.entries@ == before,
            before == old(reg).entries@,
            ids_unique(before),
            forall|j: int| 0 <= j < i ==> (#[trigger] before[j]).operator_id@ != operator_id@,
        decreases reg.entries.len() - i,
    {
        if str_eq(reg.entries[i].operator_id.as_str(), operator_id) {
            proof {
                lemma_entry_index(before, i as int);
            }
            let e = reg.entries[i].clone();
            let changed = !same_focus(&e.focused_startup_id, &focused_startup_id);
            let updated = PresenceEntry { focused_startup_id, last_seen_at: now, ..e };
            reg.entries.set(i, updated);
            proof {
                assert forall|a: int, b: int|
                    0 <= a < b < reg.entries@.len() implies (#[trigger] reg.entries@[a]).operator_id@
                    != (#[trigger] reg.entries@[b]).operator_id@ by {
                    assert(before[a].operator_id@ != before[b].operator_id@);
                }
            }
            return changed;
        }
        i += 1;
    }
    let entry = PresenceEntry {
        operator_id: operator_id.to_owned(),
        operator_name: operator_name.to_owned(),
        role: role.to_owned(),
        focused_startup_id,
        last_seen_at: now,
    };
    reg.entries.push(entry);
    proof {
        assert(reg.entries@.drop_last() =~= before);
        assert forall|a: int, b: int|
            0 <= a < b < reg.entries@.len() implies (#[trigger] reg.entries@[a]).operator_id@
            != (#[trigger] reg.entries@[b]).operator_id@ by {
            if b == before.len() {
                assert(before[a].operator_id@ != operator_id@);
            } else {
                assert(before[a].operator_id@ != before[b].operator_id@);
            }
        }
    }
    true
}

/// Remove the entry of `operator_id`. The result says whether there was
/// one; the other entries keep their order.
pub fn drop_entry(reg: &mut PresenceRegistry, operator_id: &str) -> (existed: bool)
    requires
        old(reg).wf(),
    ensures
        final(reg).wf(),
        match entry_index(old(reg).entries@, operator_id@) {
            Some(i) => existed && final(reg).entries@ == old(reg).entries@.remove(i),
            None => !existed && final(reg).entries@ == old(reg).entries@,
        },
{
    let ghost before = reg.entries@;
    let mut i: usize = 0;
    while i < reg.entries.len()
        invariant
            0 <= i <= reg.entries@.len(),
            reg.entries@ == before,
            before == old(reg).entries@,
            ids_unique(before),
            forall|j: int| 0 <= j < i ==> (#[trigger] before[j]).operator_id@ != operator_id@,
        decreases reg.entries.len() - i,
    {
        if str_eq(reg.entries[i].operator_id.as_str(), operator_id) {
            proof {
                lemma_entry_index(before, i as int);
            }
            reg.entries.remove(i);
            proof {
                assert forall|a: int, b: int|
                    0 <= a < b < reg.entries@.len() implies (#[trigger] reg.entries@[a]).operator_id@
                    != (#[trigger] reg.entries@[b]).operator_id@ by {
                    let a0 = if a < i { a } else { a + 1 };
                    let b0 = if b < i { b } else { b + 1 };
                    assert(reg.entries@[a] == before[a0]);
                    assert(reg.entries@[b] == before[b0]);
                    assert(before[a0].operator_id@ != before[b0].operator_id@);
                }
            }
            return true;
        }
        i += 1;
    }
    false
}

/// Drop the entries not seen since `now - PRESENCE_TTL_SECS`; the rest keep
/// their order. The result is how many were dropped.
pub fn gc(reg: &mut PresenceRegistry, now: i64) -> (dropped: usize)
    requires
        old(reg).wf(),
        now >= i64::MIN + PRESENCE_TTL_SECS,
    ensures
        final(reg).wf(),
        final(reg).entries@ == old(reg).entries@.filter(fresh_at(now as int)),
        dropped == old(reg).entries@.len() - final(reg).entries@.len(),
{
    let cutoff = now - PRESENCE_TTL_SECS;
    let ghost before = reg.entries@;
    let ghost f = fresh_at(now as int);
    let mut kept: Vec<PresenceEntry> = Vec::new();
    let mut i: usize = 0;
    proof {
        reveal(Seq::filter);
        assert(before.take(0).filter(f) =~= Seq::<PresenceEntry>::empty());
    }
    while i < reg.entries.len()
        invariant
            0 <= i <= before.len(),
            reg.entries@ == before,
            f == fresh_at(now as int),
            cutoff == now - PRESENCE_TTL_SECS,
            kept@ == before.take(i as int).filter(f),
            kept@.len() <= i,
        decreases reg.entries.len() - i,
    {
        proof {
            reveal(Seq::filter);
            assert(before.take(i as int + 1).drop_last() =~= before.take(i as int));
            assert(before.take(i as int + 1).last() == before[i as int]);
        }
        if reg.entries[i].last_seen_at >= cutoff {
            kept.push(reg.entries[i].clone());
        }
        i += 1;
    }
    proof {
        assert(before.take(before.len() as int) =~= before);
        assert forall|a: int, b: int|
            0 <= a < b < kept@.len() implies (#[trigger] kept@[a]).operator_id@
            != (#[trigger] kept@[b]).operator_id@ by {
            lemma_filter_order(before, f, a, b);
        }
    }
    let n = reg.entries.len() - kept.len();
    reg.entries = kept;
    n
}

/// An entry of a filtered list is an entry of the list.
proof fn lemma_filter_in(s: Seq<PresenceEntry>, f: spec_fn(PresenceEntry) -> bool, a: int)
    requires
        0 <= a < s.filter(f).len(),
    ensures
        exists|k: int| 0 <= k < s.len() && s[k] == s.filter(f)[a],
    decreases s.len(),
{
    reveal(Seq::filter);
    let t = s.drop_last();
    if f(s.last()) && a == s.filter(f).len() - 1 {
        assert(s.filter(f) == t.filter(f).push(s.last()));
        assert(s[s.len() - 1] == s.filter(f)[a]);
    } else {
        if f(s.last()) {
            assert(s.filter(f) == t.filter(f).push(s.last()));
        } else {
            assert(s.filter(f) == t.filter(f));
        }
        lemma_filter_in(t, f, a);
        let k = choose|k: int| 0 <= k < t.len() && t[k] == t.filter(f)[a];
        assert(s[k] == t[k]);
    }
}

/// Two entries of a filtered list come from entries of the list in the
/// same order.
proof fn lemma_filter_order(s: Seq<PresenceEntry>, f: spec_fn(PresenceEntry) -> bool, a: int, b: int)
    requires
        ids_unique(s),
        0 <= a < b < s.filter(f).len(),
    ensures
        s.filter(f)[a].operator_id@ != s.filter(f)[b].operator_id@,
    decreases s.len(),
{
    reveal(Seq::filter);
    let t = s.drop_last();
    assert(ids_unique(t));
    if f(s.last()) {
        assert(s.filter(f) == t.filter(f).push(s.last()));
        if b == s.filter(f).len() - 1 {
            lemma_filter_in(t, f, a);
            let k = choose|k: int| 0 <= k < t.len() && t[k] == t.filter(f)[a];
            assert(s[k] == t[k]);
            assert(s[k].operator_id@ != s[s.len() - 1].operator_id@);
        } else {
            lemma_filter_order(t, f, a, b);
        }
    } else {
        assert(s.filter(f) == t.filter(f));
        lemma_filter_order(t, f, a, b);
    }
}

/// An operator heard at `seen` survives every collection up to
/// `seen + PRESENCE_TTL_SECS`: a heartbeat keeps the entry for the TTL.
pub proof fn law_heartbeat_survives_gc(es: Seq<PresenceEntry>, k: int, later: int)
    requires
        0 <= k < es.len(),
        later <= es[k].last_seen_at + PRESENCE_TTL_SECS,
    ensures
        es.filter(fresh_at(later)).contains(es[k]),
{
    es.lemma_filter_contains(fresh_at(later), k);
}

/// Collecting twice at the same time drops nothing the second time.
pub proof fn law_gc_idempotent(es: Seq<PresenceEntry>, now: int)
    ensures
        es.filter(fresh_at(now)).filter(fresh_at(now)) == es.filter(fresh_at(now)),
    decreases es.len(),
{
    reveal(Seq::filter);
    let f = fresh_at(now);
    if es.len() > 0 {
        let t = es.drop_last();
        law_gc_idempotent(t, now);
        if f(es.last()) {
            assert(es.filter(f) == t.filter(f).push(es.last()));
            assert(es.filter(f).drop_last() =~= t.filter(f));
        } else {
            assert(es.filter(f) == t.filter(f));
        }
    } else {
        assert(es.filter(f) =~= es);
    }
}

} // verus!
