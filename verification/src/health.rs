//! Worker liveness: four health buckets derived from
//! `(now, last_seen, connected, is_operator)`.

use vstd::prelude::*;

verus! {

#[derive(Debug, Clone, Copy, PartialEq, Eq, Structural)]
pub enum Health {
    Online,
    RecentlyLost,
    Offline,
    AboutToGc,
}

/// A worker is RecentlyLost for the first 5 minutes after disconnect.
pub const RECENTLY_LOST_MAX_SECS: i64 = 300;

/// Beyond 5 minutes the worker is Offline, up to 6 days.
pub const OFFLINE_MAX_SECS: i64 = 518400;

/// 7 days is the GC threshold; the last day before it is AboutToGc.
pub const ABOUT_TO_GC_MAX_SECS: i64 = 604800;

/// The bucket of a worker last seen `delta` seconds ago.
pub open spec fn bucket_for_age(delta: int) -> Health {
    if delta < 0 {
        Health::Online
    } else if delta <= RECENTLY_LOST_MAX_SECS {
        Health::RecentlyLost
    } else if delta <= OFFLINE_MAX_SECS {
        Health::Offline
    } else if delta <= ABOUT_TO_GC_MAX_SECS {
        Health::AboutToGc
    } else {
        Health::Offline
    }
}

pub open spec fn derive_spec(now_ts: i64, last_seen: Option<i64>, connected: bool, is_operator: bool) -> Health {
    if is_operator || connected {
        Health::Online
    } else {
        match last_seen {
            None => Health::Offline,
            Some(ts) => bucket_for_age(now_ts - ts),
        }
    }
}

/// Decide an avatar's health. `now_ts` and `last_seen` are unix seconds;
/// the operator avatar (whose presence means the console is connected)
/// and connected workers are always Online; a negative age (clock skew)
/// counts as Online too.
pub fn derive(now_ts: i64, last_seen: Option<i64>, connected: bool, is_operator: bool) -> (h: Health)
    requires
        last_seen matches Some(ts) ==> i64::MIN <= now_ts - ts <= i64::MAX,
    ensures
        h == derive_spec(now_ts, last_seen, connected, is_operator),
{
    if is_operator {
        return Health::Online;
    }
    if connected {
        return Health::Online;
    }
    let ts = match last_seen {
        Some(ts) => ts,
        None => return Health::Offline,
    };
    let delta = now_ts - ts;
    if delta < 0 {
        return Health::Online;
    }
    if delta <= RECENTLY_LOST_MAX_SECS {
        Health::RecentlyLost
    } else if delta <= OFFLINE_MAX_SECS {
        Health::Offline
    } else if delta <= ABOUT_TO_GC_MAX_SECS {
        Health::AboutToGc
    } else {
        Health::Offline
    }
}

/// The bucket name used on the wire and in metrics labels.
pub fn health_label(h: Health) -> (s: &'static str)
    ensures
        s@ == health_label_spec(h),
{
    match h {
        Health::Online => "online",
        Health::RecentlyLost => "recently_lost",
        Health::Offline => "offline",
        Health::AboutToGc => "about_to_gc",
    }
}

pub open spec fn health_label_spec(h: Health) -> Seq<char> {
    match h {
        Health::Online => "online"@,
        Health::RecentlyLost => "recently_lost"@,
        Health::Offline => "offline"@,
        Health::AboutToGc => "about_to_gc"@,
    }
}


/// A connected worker and the operator's avatar are online whatever the
/// clock says.
pub proof fn law_present_is_online(now_ts: i64, last_seen: Option<i64>, connected: bool, is_operator: bool)
    requires
        connected || is_operator,
    ensures
        derive_spec(now_ts, last_seen, connected, is_operator) == Health::Online,
{
}

/// A disconnected worker walks the buckets as its silence grows: recently
/// lost up to 5 minutes (300 s), offline up to 6 days (518400 s), about to
/// be collected up to 7 days (604800 s), offline after that; a last-seen
/// time in the future counts as online, and a worker never seen is offline.
pub proof fn law_buckets_by_age(now_ts: i64, ts: i64)
    ensures
        now_ts - ts < 0 ==> derive_spec(now_ts, Some(ts), false, false) == Health::Online,
        0 <= now_ts - ts <= 300 ==> derive_spec(now_ts, Some(ts), false, false) == Health::RecentlyLost,
        300 < now_ts - ts <= 518400 ==> derive_spec(now_ts, Some(ts), false, false) == Health::Offline,
        518400 < now_ts - ts <= 604800 ==> derive_spec(now_ts, Some(ts), false, false) == Health::AboutToGc,
        604800 < now_ts - ts ==> derive_spec(now_ts, Some(ts), false, false) == Health::Offline,
        derive_spec(now_ts, None, false, false) == Health::Offline,
{
}

} // verus!
