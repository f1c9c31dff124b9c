//! The catalog of CLI backends a worker can run, and what a probe of one
//! found. Running the probe (`<cmd> --version` with a time limit) is the
//! server's part.

use vstd::prelude::*;
use crate::agent_tools::{lossy_utf8, utf8_lossy};
use crate::text::{trim_text, trimmed};

verus! {

/// A backend's availability, as last probed.
#[derive(Debug, Clone)]
pub struct BackendInfo {
    pub id: String,
    pub available: bool,
    pub version: Option<String>,
    pub install_hint: Option<String>,
    pub last_checked_ts: i64,
}

/// What a probe of backend `id` at `now` found. `stdout` is the output of
/// a successful `--version` run, `None` when the command could not be
/// run, failed or timed out. A success reports the trimmed output as the
/// version; a failure reports the install hint.
pub fn probe_result(id: &str, install_hint: &str, now: i64, stdout: Option<&[u8]>) -> (b: BackendInfo)
    ensures
        b.id@ == id@,
        b.last_checked_ts == now,
        match stdout {
            Some(out) => b.available && (b.version matches Some(v) && v@ == trimmed(lossy_utf8(out@)))
                && b.install_hint is None,
            None => !b.available && b.version is None && (b.install_hint matches Some(h) && h@
                == install_hint@),
        },
{
    match stdout {
        Some(out) => {
            let text = utf8_lossy(out);
            let version = trim_text(text.as_str());
            BackendInfo {
                id: id.to_owned(),
                available: true,
                version: Some(version),
                install_hint: None,
                last_checked_ts: now,
            }
        },
        None => BackendInfo {
            id: id.to_owned(),
            available: false,
            version: None,
            install_hint: Some(install_hint.to_owned()),
            last_checked_ts: now,
        },
    }
}

} // verus!
