//! Counters and gauges of the metrics endpoint: MCP call and error
//! counters, and the per-bucket avatar counts. Rendering the text format
//! (with the per-startup budget figures read from storage) is the
//! endpoint's part.

use vstd::prelude::*;
use crate::health::Health;
use crate::state::AvatarView;

verus! {

/// MCP call and error counters. Like the atomic counters they model,
/// they wrap around at `u64::MAX`.
#[derive(Debug)]
pub struct Counters {
    pub mcp_calls_total: u64,
    pub mcp_errors_total: u64,
}

pub open spec fn wrap_inc(x: u64) -> u64 {
    if x == u64::MAX { 0 } else { (x + 1) as u64 }
}

impl Counters {
    /// Both counters at zero.
    pub fn new() -> (c: Self)
        ensures
            c.mcp_calls_total == 0,
            c.mcp_errors_total == 0,
    {
        Counters { mcp_calls_total: 0, mcp_errors_total: 0 }
    }

    /// Count one MCP call.
    pub fn inc_call(&mut self)
        ensures
            final(self).mcp_calls_total == wrap_inc(old(self).mcp_calls_total),
            final(self).mcp_errors_total == old(self).mcp_errors_total,
    {
        self.mcp_calls_total = self.mcp_calls_total.wrapping_add(1);
    }

    /// Count one MCP call that ended in an error.
    pub fn inc_error(&mut self)
        ensures
            final(self).mcp_errors_total == wrap_inc(old(self).mcp_errors_total),
            final(self).mcp_calls_total == old(self).mcp_calls_total,
    {
        self.mcp_errors_total = self.mcp_errors_total.wrapping_add(1);
    }
}

/// Number of avatars in bucket `h`.
pub open spec fn bucket_count(avs: Seq<AvatarView>, h: Health) -> nat {
    avs.filter(|a: AvatarView| a.health == h).len()
}

/// Avatar counts per health bucket, in the order online, recently lost,
/// offline, about to be collected.
pub fn health_counts(avatars: &Vec<AvatarView>) -> (r: (u64, u64, u64, u64))
    requires
        avatars@.len() <= u64::MAX,
    ensures
        r.0 == bucket_count(avatars@, Health::Online),
        r.1 == bucket_count(avatars@, Health::RecentlyLost),
        r.2 == bucket_count(avatars@, Health::Offline),
        r.3 == bucket_count(avatars@, Health::AboutToGc),
{
    let ghost all = avatars@;
    let mut on: u64 = 0;
    let mut rl: u64 = 0;
    let mut off: u64 = 0;
    let mut gc: u64 = 0;
    let mut i: usize = 0;
    proof {
        reveal(Seq::filter);
        assert(all.take(0) =~= Seq::<AvatarView>::empty());
    }
    while i < avatars.len()
        invariant
            0 <= i <= all.len(),
            all == avatars@,
            all.len() <= u64::MAX,
            on == bucket_count(all.take(i as int), Health::Online),
            rl == bucket_count(all.take(i as int), Health::RecentlyLost),
            off == bucket_count(all.take(i as int), Health::Offline),
            gc == bucket_count(all.take(i as int), Health::AboutToGc),
            on + rl + off + gc == i,
        decreases avatars.len() - i,
    {
        proof {
            reveal(Seq::filter);
            assert(all.take(i as int + 1).drop_last() =~= all.take(i as int));
            assert(all.take(i as int + 1).last() == all[i as int]);
        }
        match avatars[i].health {
            Health::Online => on = on + 1,
            Health::RecentlyLost => rl = rl + 1,
            Health::Offline => off = off + 1,
            Health::AboutToGc => gc = gc + 1,
        }
        i += 1;
    }
    proof {
        assert(all.take(all.len() as int) =~= all);
    }
    (on, rl, off, gc)
}


/// Every avatar is in exactly one health bucket: the four counts add up to
/// the number of avatars.
pub proof fn law_buckets_partition(avs: Seq<AvatarView>)
    ensures
        bucket_count(avs, Health::Online) + bucket_count(avs, Health::RecentlyLost) + bucket_count(
            avs,
            Health::Offline,
        ) + bucket_count(avs, Health::AboutToGc) == avs.len(),
    decreases avs.len(),
{
    reveal(Seq::filter);
    if avs.len() > 0 {
        law_buckets_partition(avs.drop_last());
    }
}

} // verus!
