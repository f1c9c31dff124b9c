//! The world loop's state changes: a tick, new avatars with a claimed
//! suite, and a dissolved startup's release. The loop itself (its command
//! channel, the timer, the delivery of events to workers) is the server's
//! part; it applies these to the world it owns.

use vstd::prelude::*;
use crate::move_sys::{MoveEvent, PathStore, step_all, store_view, store_keys_unique, survivors, completions, events_view, advanced};
use crate::seed::{TownLayout, is_first_room};
use crate::state::{AvatarView, WorldView, avatar_index, not_of_startup};
use crate::move_sys::store_path;

verus! {

/// One avatar inserted into a world's avatar list, replacing the avatar of
/// the same agent.
pub open spec fn upsert_spec(avs: Seq<AvatarView>, a: AvatarView) -> Seq<AvatarView> {
    match avatar_index(avs, a.agent_id@) {
        Some(i) => avs.update(i, a),
        None => avs.push(a),
    }
}

/// Avatars inserted one after the other.
pub open spec fn upsert_all(avs: Seq<AvatarView>, new: Seq<AvatarView>) -> Seq<AvatarView>
    decreases new.len(),
{
    if new.len() == 0 {
        avs
    } else {
        upsert_spec(upsert_all(avs, new.drop_last()), new.last())
    }
}

/// A tick: the tick counter advances (wrapping), and every planned path
/// moves one step.
pub fn advance_tick(world: &mut WorldView, paths: &mut PathStore, layout: &TownLayout) -> (events: Vec<MoveEvent>)
    requires
        old(world).wf(),
        store_keys_unique(store_view(*old(paths))),
    ensures
        final(world).wf(),
        final(world).tick_seq == (if old(world).tick_seq == u64::MAX { 0 } else { (old(world).tick_seq + 1) as u64 }),
        final(world).backend_catalog == old(world).backend_catalog,
        final(world).avatars@.len() == old(world).avatars@.len(),
        forall|i: int|
            0 <= i < old(world).avatars@.len() ==> advanced(
                #[trigger] old(world).avatars@[i],
                final(world).avatars@[i],
                store_path(store_view(*old(paths)), old(world).avatars@[i].agent_id@),
            ),
        store_view(*final(paths)) == survivors(store_view(*old(paths)), old(world).avatars@),
        store_keys_unique(store_view(*final(paths))),
        events_view(events) == completions(store_view(*old(paths)), old(world).avatars@),
{
    world.tick_seq = world.tick_seq.wrapping_add(1);
    step_all(world, paths, layout)
}

/// Freshly created avatars enter the world, each replacing any avatar of
/// the same agent; with a claim `(suite_id, startup_id)` the suite becomes
/// private to the startup.
pub fn insert_avatars(
    world: &mut WorldView,
    layout: &mut TownLayout,
    avatars: Vec<AvatarView>,
    claim_suite: Option<(String, String)>,
)
    requires
        old(world).wf(),
    ensures
        final(world).wf(),
        final(world).tick_seq == old(world).tick_seq,
        final(world).backend_catalog == old(world).backend_catalog,
        final(world).avatars@ == upsert_all(old(world).avatars@, avatars@),
        final(layout).town_id == old(layout).town_id,
        final(layout).doors == old(layout).doors,
        final(layout).rooms@.len() == old(layout).rooms@.len(),
        forall|i: int|
            0 <= i < old(layout).rooms@.len() ==> {
                let o = #[trigger] old(layout).rooms@[i];
                let n = final(layout).rooms@[i];
                n.id == o.id && n.bounds == o.bounds && match claim_suite {
                    Some((suite, startup)) => if is_first_room(old(layout).rooms@, suite@, i) {
                        n.private_to_startup_id matches Some(s) && s@ == startup@
                    } else {
                        n.private_to_startup_id == o.private_to_startup_id
                    },
                    None => n.private_to_startup_id == o.private_to_startup_id,
                }
            },
{
    let ghost start = world.avatars@;
    let mut i: usize = 0;
    while i < avatars.len()
        invariant
            0 <= i <= avatars@.len(),
            world.wf(),
            world.tick_seq == old(world).tick_seq,
            world.backend_catalog == old(world).backend_catalog,
            start == old(world).avatars@,
            world.avatars@ == upsert_all(start, avatars@.take(i as int)),
        decreases avatars.len() - i,
    {
        let a = avatars[i].clone();
        world.upsert_avatar(a);
        proof {
            let t = avatars@.take(i as int + 1);
            assert(t.drop_last() =~= avatars@.take(i as int));
            assert(t.last() == avatars@[i as int]);
        }
        i += 1;
    }
    proof {
        assert(avatars@.take(avatars@.len() as int) =~= avatars@);
    }
    match claim_suite {
        Some((suite_id, startup_id)) => {
            layout.claim_suite(suite_id.as_str(), startup_id.as_str());
        },
        None => {},
    }
}

/// A dissolved startup: its suites are free again and its avatars leave
/// the world, the others keeping their order.
pub fn release_suite(world: &mut WorldView, layout: &mut TownLayout, startup_id: &str)
    requires
        old(world).wf(),
    ensures
        final(world).wf(),
        final(world).tick_seq == old(world).tick_seq,
        final(world).backend_catalog == old(world).backend_catalog,
        final(world).avatars@ == remaining(old(world).avatars@, startup_id@),
        final(layout).town_id == old(layout).town_id,
        final(layout).doors == old(layout).doors,
        final(layout).rooms@.len() == old(layout).rooms@.len(),
        forall|i: int|
            0 <= i < old(layout).rooms@.len() ==> {
                let o = #[trigger] old(layout).rooms@[i];
                let n = final(layout).rooms@[i];
                n.id == o.id && n.bounds == o.bounds && if o.private_to_startup_id matches Some(s)
                    && s@ == startup_id@ {
                    n.private_to_startup_id is None
                } else {
                    n.private_to_startup_id == o.private_to_startup_id
                }
            },
{
    layout.release_suites(startup_id);
    world.remove_startup_avatars(startup_id);
}


/// The avatars that remain when `startup_id` is released.
pub open spec fn remaining(avs: Seq<AvatarView>, startup_id: Seq<char>) -> Seq<AvatarView> {
    avs.filter(not_of_startup(startup_id))
}

/// After a startup is released, none of its avatars is left, and every
/// other avatar is.
pub proof fn law_release_clears_startup(avs: Seq<AvatarView>, startup_id: Seq<char>)
    ensures
        forall|i: int|
            0 <= i < remaining(avs, startup_id).len() ==> (#[trigger] remaining(avs, startup_id)[i]).startup_id@
                != startup_id,
        forall|i: int|
            0 <= i < avs.len() && (#[trigger] avs[i]).startup_id@ != startup_id ==> remaining(
                avs,
                startup_id,
            ).contains(avs[i]),
{
    assert forall|i: int| 0 <= i < remaining(avs, startup_id).len() implies (#[trigger] remaining(
        avs,
        startup_id,
    )[i]).startup_id@ != startup_id by {
        avs.lemma_filter_pred(not_of_startup(startup_id), i);
    }
    assert forall|i: int| 0 <= i < avs.len() && (#[trigger] avs[i]).startup_id@ != startup_id implies remaining(
        avs,
        startup_id,
    ).contains(avs[i]) by {
        avs.lemma_filter_contains(not_of_startup(startup_id), i);
    }
}

} // verus!
