//! The periodic collection of finished tasks' working directories: its
//! settings. Selecting the tasks (terminal and not updated for the
//! configured age) and removing their directories is the server's part.

use vstd::prelude::*;
use crate::agent_tools::{path_of, path_from};

verus! {

/// A span of whole seconds.
pub uninterp spec fn seconds(secs: u64) -> std::time::Duration;

/// `Duration::from_secs`.
#[verifier::external_body]
pub(crate) fn duration_from_secs(secs: u64) -> (d: std::time::Duration)
    ensures
        d == seconds(secs),
{
    std::time::Duration::from_secs(secs)
}

/// Where the working directories are, how old a finished task's must be to
/// be removed, and how often a pass runs.
pub struct GcConfig {
    pub workspaces_root: std::path::PathBuf,
    pub max_age_secs: i64,
    pub interval: std::time::Duration,
}

pub open spec fn settings_fit(age_days: Option<i64>, interval_hours: Option<u64>) -> bool {
    &&& (age_days matches Some(d) ==> i64::MIN <= d * 86400 <= i64::MAX)
    &&& (interval_hours matches Some(h) ==> h * 3600 <= u64::MAX)
}

impl GcConfig {
    /// The settings from the environment's values, already parsed:
    /// collection runs only when the flag is `1`; the age defaults to 7
    /// days, the interval to 6 hours and the root to `./workspaces`.
    pub fn from_settings(
        enabled_flag: Option<&str>,
        age_days: Option<i64>,
        interval_hours: Option<u64>,
        workspaces_root: Option<String>,
    ) -> (r: Option<GcConfig>)
        requires
            (enabled_flag matches Some(f) && f@ == "1"@) ==> settings_fit(age_days, interval_hours),
        ensures
            !(enabled_flag matches Some(f) && f@ == "1"@) ==> r is None,
            (enabled_flag matches Some(f) && f@ == "1"@) ==> (r matches Some(c) && {
                &&& c.max_age_secs == match age_days {
                    Some(d) => d * 86400,
                    None => 604800,
                }
                &&& c.interval == seconds(
                    match interval_hours {
                        Some(h) => (h * 3600) as u64,
                        None => 21600u64,
                    },
                )
                &&& c.workspaces_root == path_of(
                    match workspaces_root {
                        Some(p) => p@,
                        None => "./workspaces"@,
                    },
                )
            }),
    {
        let enabled = match enabled_flag {
            Some(f) => crate::text::str_eq(f, "1"),
            None => false,
        };
        if !enabled {
            return None;
        }
        let days: i64 = match age_days {
            Some(d) => d,
            None => 7,
        };
        let hours: u64 = match interval_hours {
            Some(h) => h,
            None => 6,
        };
        let root = match workspaces_root {
            Some(p) => p,
            None => "./workspaces".to_owned(),
        };
        Some(
            GcConfig {
                workspaces_root: path_from(root),
                max_age_secs: days * 86400,
                interval: duration_from_secs(hours * 3600),
            },
        )
    }
}

} // verus!
