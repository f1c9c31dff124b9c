//! The self-review pipeline an agent runs on its artifact before it
//! reports a task done. Each failing check becomes an entry of
//! `must_fix`; an `Error` entry fails the review, a `Warn` entry only
//! annotates it. Reading the artifact is the caller's part: it hands the
//! result of the read to `finish_review`.

use vstd::prelude::*;
use crate::text::{concat, lemma_flatten_five};

verus! {

/// How serious a failed check is.
#[derive(Debug, Clone, Copy, PartialEq, Eq, Structural)]
pub enum Severity {
    Warn,
    Error,
}

pub open spec fn severity_name(s: Severity) -> Seq<char> {
    match s {
        Severity::Warn => "warn"@,
        Severity::Error => "error"@,
    }
}

impl Severity {
    /// The severity's name, as stored in the audit trail.
    pub fn as_str(&self) -> (r: &'static str)
        ensures
            r@ == severity_name(*self),
    {
        match self {
            Severity::Warn => "warn",
            Severity::Error => "error",
        }
    }
}

/// One failed check.
#[derive(Debug, Clone)]
pub struct CheckResult {
    pub check: &'static str,
    pub severity: Severity,
    pub message: String,
}

/// The result of a review: `ok` unless some entry has `Error` severity.
#[derive(Debug, Clone)]
pub struct SelfReviewOutcome {
    pub ok: bool,
    pub must_fix: Vec<CheckResult>,
}

pub open spec fn no_errors(fs: Seq<CheckResult>) -> bool {
    forall|i: int| 0 <= i < fs.len() ==> (#[trigger] fs[i]).severity != Severity::Error
}

impl SelfReviewOutcome {
    /// A review with nothing to fix.
    pub fn passed() -> (r: Self)
        ensures
            r.ok,
            r.must_fix@.len() == 0,
    {
        SelfReviewOutcome { ok: true, must_fix: Vec::new() }
    }
}

pub open spec fn canonical_path_text(startup_id: Seq<char>, task_id: Seq<char>) -> Seq<char> {
    "workspaces/"@ + startup_id + "/artifacts/"@ + task_id + ".md"@
}

/// The one artifact path a task may be completed with:
/// `workspaces/<startup_id>/artifacts/<task_id>.md`.
pub fn canonical_artifact_path(startup_id: &str, task_id: &str) -> (s: String)
    ensures
        s@ == canonical_path_text(startup_id@, task_id@),
{
    let parts = vec!["workspaces/", startup_id, "/artifacts/", task_id, ".md"];
    proof {
        assert(parts@.map_values(|q: &str| q@) =~= seq!["workspaces/"@, startup_id@, "/artifacts/"@,
            task_id@, ".md"@]);
        lemma_flatten_five("workspaces/"@, startup_id@, "/artifacts/"@, task_id@, ".md"@);
    }
    concat(&parts)
}

/// The first check: the artifact path must be the canonical one. `None`
/// when it is; otherwise the failed review, with the single entry
/// `canonical_path` naming both paths.
pub fn check_canonical_path(startup_id: &str, task_id: &str, artifact_path: &str) -> (r: Option<
    SelfReviewOutcome,
>)
    ensures
        artifact_path@ == canonical_path_text(startup_id@, task_id@) <==> r is None,
        r matches Some(o) ==> {
            &&& !o.ok
            &&& o.must_fix@.len() == 1
            &&& o.must_fix@[0].check@ == "canonical_path"@
            &&& o.must_fix@[0].severity == Severity::Error
            &&& o.must_fix@[0].message@ == "expected "@ + canonical_path_text(startup_id@, task_id@)
                + ", got "@ + artifact_path@
        },
{
    let canonical = canonical_artifact_path(startup_id, task_id);
    if crate::text::str_eq(artifact_path, canonical.as_str()) {
        return None;
    }
    let parts = vec!["expected ", canonical.as_str(), ", got ", artifact_path];
    proof {
        let pv = parts@.map_values(|q: &str| q@);
        assert(pv =~= seq!["expected "@, canonical@, ", got "@, artifact_path@]);
        crate::text::lemma_flatten_four("expected "@, canonical@, ", got "@, artifact_path@);
    }
    let message = concat(&parts);
    let mut must_fix = Vec::new();
    must_fix.push(CheckResult { check: "canonical_path", severity: Severity::Error, message });
    Some(SelfReviewOutcome { ok: false, must_fix })
}

/// What reading the artifact gave.
#[derive(Debug, Clone)]
pub enum ArtifactRead {
    /// The sandbox refused the path, with its reason.
    Refused(String),
    /// The read failed, with the error's text.
    Failed(String),
    /// The read gave this many bytes.
    Bytes(u64),
}

pub open spec fn artifact_failure(read: ArtifactRead) -> Option<Seq<char>> {
    match read {
        ArtifactRead::Refused(e) => Some("sandbox refused: "@ + e@),
        ArtifactRead::Failed(e) => Some("read failed: "@ + e@),
        ArtifactRead::Bytes(n) => if n == 0 {
            Some("artifact is zero bytes"@)
        } else {
            None
        },
    }
}

/// The rest of the pipeline, on a canonical path (which ends in `.md`):
/// an unreadable or empty artifact fails the review with one
/// `artifact_exists` entry; a readable one passes, annotated by the
/// `markdown_lint` warning that the markdown linter is not wired yet.
pub fn finish_review(read: ArtifactRead) -> (o: SelfReviewOutcome)
    ensures
        o.must_fix@.len() == 1,
        o.ok == no_errors(o.must_fix@),
        match artifact_failure(read) {
            Some(msg) => {
                &&& !o.ok
                &&& o.must_fix@[0].check@ == "artifact_exists"@
                &&& o.must_fix@[0].severity == Severity::Error
                &&& o.must_fix@[0].message@ == msg
            },
            None => {
                &&& o.ok
                &&& o.must_fix@[0].check@ == "markdown_lint"@
                &&& o.must_fix@[0].severity == Severity::Warn
                &&& o.must_fix@[0].message@ == "deferred: TS sidecar lint pipeline lands in P6.B"@
            },
        },
{
    let mut must_fix = Vec::new();
    match read {
        ArtifactRead::Refused(e) => {
            let mut m = "sandbox refused: ".to_owned();
            m.append(e.as_str());
            must_fix.push(CheckResult { check: "artifact_exists", severity: Severity::Error, message: m });
            SelfReviewOutcome { ok: false, must_fix }
        },
        ArtifactRead::Failed(e) => {
            let mut m = "read failed: ".to_owned();
            m.append(e.as_str());
            must_fix.push(CheckResult { check: "artifact_exists", severity: Severity::Error, message: m });
            SelfReviewOutcome { ok: false, must_fix }
        },
        ArtifactRead::Bytes(n) => {
            if n == 0 {
                must_fix.push(
                    CheckResult {
                        check: "artifact_exists",
                        severity: Severity::Error,
                        message: "artifact is zero bytes".to_owned(),
                    },
                );
                SelfReviewOutcome { ok: false, must_fix }
            } else {
                must_fix.push(
                    CheckResult {
                        check: "markdown_lint",
                        severity: Severity::Warn,
                        message: "deferred: TS sidecar lint pipeline lands in P6.B".to_owned(),
                    },
                );
                SelfReviewOutcome { ok: true, must_fix }
            }
        },
    }
}

} // verus!
