//! Budget thresholds: which event a crossed threshold records, and which
//! agents a pause or a warning is sent to. The spend arithmetic is done
//! in floating point by the server and stays there.

use vstd::prelude::*;
use crate::state::AvatarView;

verus! {

/// Reason carried by the pause frame sent when a startup's budget is
/// exhausted.
pub const PAUSE_REASON_BUDGET: &'static str = "budget_exhausted";

/// A budget threshold: 80 % and 95 % warn, 100 % pauses the startup.
#[derive(Debug, Clone, Copy, PartialEq, Eq, Structural)]
pub enum Threshold {
    Warn80,
    Warn95,
    Pause100,
}

pub open spec fn threshold_event_spec(t: Threshold) -> (Seq<char>, Seq<char>) {
    match t {
        Threshold::Warn80 => ("warn"@, "budget_warn_80"@),
        Threshold::Warn95 => ("warn"@, "budget_warn_95"@),
        Threshold::Pause100 => ("alert"@, "budget_pause_100"@),
    }
}

/// The (severity, kind) of the system event recorded for a crossed
/// threshold: the warnings at `warn`, the pause at `alert`.
pub fn threshold_event(t: Threshold) -> (r: (&'static str, &'static str))
    ensures
        (r.0@, r.1@) == threshold_event_spec(t),
{
    match t {
        Threshold::Warn80 => ("warn", "budget_warn_80"),
        Threshold::Warn95 => ("warn", "budget_warn_95"),
        Threshold::Pause100 => ("alert", "budget_pause_100"),
    }
}

pub open spec fn of_startup(startup_id: Seq<char>) -> spec_fn(AvatarView) -> bool {
    |a: AvatarView| a.startup_id@ == startup_id
}

/// The agents of `startup_id`, in world order: those a pause or a budget
/// warning for the startup is addressed to.
pub fn startup_agent_ids(avatars: &Vec<AvatarView>, startup_id: &str) -> (ids: Vec<String>)
    ensures
        ids@.map_values(|s: String| s@) == avatars@.filter(of_startup(startup_id@)).map_values(
            |a: AvatarView| a.agent_id@,
        ),
{
    let ghost all = avatars@;
    let ghost f = of_startup(startup_id@);
    let mut ids: Vec<String> = Vec::new();
    let mut i: usize = 0;
    proof {
        reveal(Seq::filter);
        assert(all.take(0).filter(f) =~= Seq::<AvatarView>::empty());
        assert(ids@.map_values(|s: String| s@) =~= Seq::<Seq<char>>::empty());
    }
    while i < avatars.len()
        invariant
            0 <= i <= all.len(),
            all == avatars@,
            f == of_startup(startup_id@),
            ids@.map_values(|s: String| s@) == all.take(i as int).filter(f).map_values(
                |a: AvatarView| a.agent_id@,
            ),
        decreases avatars.len() - i,
    {
        let a = &avatars[i];
        proof {
            reveal(Seq::filter);
            assert(all.take(i as int + 1).drop_last() =~= all.take(i as int));
            assert(all.take(i as int + 1).last() == all[i as int]);
        }
        if crate::text::str_eq(a.startup_id.as_str(), startup_id) {
            let ghost before = ids@.map_values(|s: String| s@);
            ids.push(a.agent_id.clone());
            proof {
                assert(ids@.map_values(|s: String| s@) =~= before.push(a.agent_id@));
                assert(all.take(i as int + 1).filter(f) == all.take(i as int).filter(f).push(*a));
                assert(all.take(i as int + 1).filter(f).map_values(|b: AvatarView| b.agent_id@)
                    =~= all.take(i as int).filter(f).map_values(|b: AvatarView| b.agent_id@).push(
                    a.agent_id@,
                ));
            }
        } else {
            proof {
                assert(all.take(i as int + 1).filter(f) == all.take(i as int).filter(f));
            }
        }
        i += 1;
    }
    proof {
        assert(all.take(all.len() as int) =~= all);
    }
    ids
}

/// The two warnings are recorded at `warn` and the pause at `alert`, each
/// under its own kind.
pub proof fn law_threshold_severity(t: Threshold)
    ensures
        threshold_event_spec(t).0 == if t == Threshold::Pause100 { "alert"@ } else { "warn"@ },
        threshold_event_spec(Threshold::Warn80).1 == "budget_warn_80"@,
        threshold_event_spec(Threshold::Warn95).1 == "budget_warn_95"@,
        threshold_event_spec(Threshold::Pause100).1 == "budget_pause_100"@,
{
}

} // verus!
