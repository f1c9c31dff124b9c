//! The tool surface for self-review and peer review: where a task's
//! working directory is, which test command fits it, and how the tail of
//! a command's output is kept. Spawning the command is the caller's part.

use vstd::prelude::*;
use vstd::utf8::{valid_utf8, decode_utf8, is_continuation_byte};
use crate::text::concat;

verus! {

#[verifier::external_type_specification]
#[verifier::external_body]
pub struct ExPathBuf(std::path::PathBuf);

#[verifier::external_type_specification]
#[verifier::external_body]
pub struct ExIoError(std::io::Error);

/// Bytes of each output stream that are kept: the last 16 KiB.
pub const TAIL_CAP_BYTES: usize = 16384;

/// Time limit of one command, in seconds.
pub const DEFAULT_TIMEOUT_SECS: u64 = 120;

/// What a finished (or timed-out) command left behind.
#[derive(Debug, Clone)]
pub struct CommandOutcome {
    pub exit_code: Option<i32>,
    pub stdout_tail: String,
    pub stderr_tail: String,
    pub timed_out: bool,
    pub elapsed_ms: u64,
}

/// Why a command could not be run to the end.
#[derive(Debug)]
pub enum ToolError {
    Spawn(String),
    Io(std::io::Error),
}

/// What `String::from_utf8_lossy` makes of a byte string.
pub uninterp spec fn lossy_utf8(bytes: Seq<u8>) -> Seq<char>;

/// A path made from a string.
pub uninterp spec fn path_of(s: Seq<char>) -> std::path::PathBuf;

/// `String::from_utf8_lossy(..).into_owned()`: the bytes decoded, each
/// invalid sequence replaced by U+FFFD; valid UTF-8 decodes unchanged, as
/// the documentation of `from_utf8_lossy` says.
#[verifier::external_body]
pub(crate) fn utf8_lossy(bytes: &[u8]) -> (s: String)
    ensures
        s@ == lossy_utf8(bytes@),
        valid_utf8(bytes@) ==> s@ == decode_utf8(bytes@),
{
    String::from_utf8_lossy(bytes).into_owned()
}

/// `PathBuf::from` on a `String`.
#[verifier::external_body]
pub(crate) fn path_from(s: String) -> (p: std::path::PathBuf)
    ensures
        p == path_of(s@),
{
    std::path::PathBuf::from(s)
}

/// Where the kept tail of `bytes` starts: `TAIL_CAP_BYTES` from the end
/// (or at 0), moved forward past UTF-8 continuation bytes so that no
/// character is cut.
pub open spec fn tail_start(bytes: Seq<u8>) -> int {
    let base = if bytes.len() > TAIL_CAP_BYTES { bytes.len() - TAIL_CAP_BYTES } else { 0 };
    skip_continuations(bytes, base)
}

pub open spec fn skip_continuations(bytes: Seq<u8>, i: int) -> int
    decreases bytes.len() - i,
{
    if 0 <= i < bytes.len() && is_continuation_byte(bytes[i]) {
        skip_continuations(bytes, i + 1)
    } else {
        i
    }
}

/// The text kept of an output stream: its last `TAIL_CAP_BYTES` bytes,
/// starting at a character boundary, decoded leniently.
pub fn tail_to_string(bytes: &[u8]) -> (s: String)
    ensures
        0 <= tail_start(bytes@) <= bytes@.len(),
        s@ == lossy_utf8(bytes@.subrange(tail_start(bytes@), bytes@.len() as int)),
{
    let n = bytes.len();
    let start = n.saturating_sub(TAIL_CAP_BYTES);
    let mut i = start;
    while i < n && (bytes[i] & 0xc0u8) == 0x80u8
        invariant
            n == bytes@.len(),
            start <= i <= n,
            skip_continuations(bytes@, i as int) == tail_start(bytes@),
        decreases n - i,
    {
        assert(is_continuation_byte(bytes@[i as int])) by {
            let b = bytes@[i as int];
            assert((b & 0xc0u8) == 0x80u8 ==> 0x80 <= b <= 0xbf) by (bit_vector);
        }
        i += 1;
    }
    proof {
        if i < n {
            let b = bytes@[i as int];
            assert((b & 0xc0u8) != 0x80u8 ==> !(0x80 <= b <= 0xbf)) by (bit_vector);
        }
    }
    let tail = vstd::slice::slice_subrange(bytes, i, n);
    utf8_lossy(tail)
}

pub open spec fn workdir_text(startup_id: Seq<char>, task_id: Seq<char>) -> Seq<char> {
    "workspaces/"@ + startup_id + "/"@ + task_id + "/workdir"@
}

/// The working directory of a task, relative to the server's directory:
/// `workspaces/<startup_id>/<task_id>/workdir`.
pub fn task_workdir(startup_id: &str, task_id: &str) -> (p: std::path::PathBuf)
    ensures
        p == path_of(workdir_text(startup_id@, task_id@)),
{
    let parts = vec!["workspaces/", startup_id, "/", task_id, "/workdir"];
    let s = concat(&parts);
    proof {
        assert(parts@.map_values(|q: &str| q@) =~= seq!["workspaces/"@, startup_id@, "/"@, task_id@,
            "/workdir"@]);
        crate::text::lemma_flatten_five("workspaces/"@, startup_id@, "/"@, task_id@, "/workdir"@);
    }
    path_from(s)
}

/// The default test command for a working directory, as (program,
/// arguments), from which build files it holds: a Cargo manifest first,
/// then a `package.json`, then a `Makefile`; else a shell command that
/// reports that nothing was found and succeeds.
pub fn sniff_test_command(has_cargo_toml: bool, has_package_json: bool, has_makefile: bool) -> (r: (
    &'static str,
    Vec<&'static str>,
))
    ensures
        has_cargo_toml ==> r.0@ == "cargo"@ && r.1@.map_values(|a: &str| a@) == seq!["test"@, "--quiet"@],
        !has_cargo_toml && has_package_json ==> r.0@ == "pnpm"@ && r.1@.map_values(|a: &str| a@)
            == seq!["test"@],
        !has_cargo_toml && !has_package_json && has_makefile ==> r.0@ == "make"@ && r.1@.map_values(
            |a: &str| a@,
        ) == seq!["test"@],
        !has_cargo_toml && !has_package_json && !has_makefile ==> r.0@ == "sh"@ && r.1@.map_values(
            |a: &str| a@,
        ) == seq!["-c"@, "echo 'no recognized test target' && exit 0"@],
{
    if has_cargo_toml {
        let v = vec!["test", "--quiet"];
        assert(v@.map_values(|a: &str| a@) =~= seq!["test"@, "--quiet"@]);
        return ("cargo", v);
    }
    if has_package_json {
        let v = vec!["test"];
        assert(v@.map_values(|a: &str| a@) =~= seq!["test"@]);
        return ("pnpm", v);
    }
    if has_makefile {
        let v = vec!["test"];
        assert(v@.map_values(|a: &str| a@) =~= seq!["test"@]);
        return ("make", v);
    }
    let v = vec!["-c", "echo 'no recognized test target' && exit 0"];
    assert(v@.map_values(|a: &str| a@) =~= seq!["-c"@, "echo 'no recognized test target' && exit 0"@]);
    ("sh", v)
}

} // verus!
