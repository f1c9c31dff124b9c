use cliptown_world::agent_tools::{sniff_test_command, tail_to_string, task_workdir, TAIL_CAP_BYTES};
use cliptown_world::sandbox::check_candidate;
use cliptown_world::self_review::{canonical_artifact_path, check_canonical_path, finish_review, ArtifactRead, SelfReviewOutcome, Severity};

#[test]
fn canonical_path_shape() {
    assert_eq!(canonical_artifact_path("S1", "T9"), "workspaces/S1/artifacts/T9.md");
}

#[test]
fn non_canonical_path_fails_review() {
    assert!(check_canonical_path("S1", "T9", "workspaces/S1/artifacts/T9.md").is_none());
    let o = check_canonical_path("S1", "T9", "x.md").unwrap();
    assert!(!o.ok);
    assert_eq!(o.must_fix.len(), 1);
    assert_eq!(o.must_fix[0].check, "canonical_path");
    assert_eq!(o.must_fix[0].severity, Severity::Error);
    assert_eq!(o.must_fix[0].message, "expected workspaces/S1/artifacts/T9.md, got x.md");
}

#[test]
fn review_after_read() {
    let o = finish_review(ArtifactRead::Bytes(10));
    assert!(o.ok);
    assert_eq!(o.must_fix[0].check, "markdown_lint");
    assert_eq!(o.must_fix[0].severity, Severity::Warn);
    let o = finish_review(ArtifactRead::Bytes(0));
    assert!(!o.ok);
    assert_eq!(o.must_fix[0].message, "artifact is zero bytes");
    let o = finish_review(ArtifactRead::Failed("No such file".into()));
    assert!(!o.ok);
    assert_eq!(o.must_fix[0].check, "artifact_exists");
    assert_eq!(o.must_fix[0].message, "read failed: No such file");
    let o = finish_review(ArtifactRead::Refused("path escapes root".into()));
    assert_eq!(o.must_fix[0].message, "sandbox refused: path escapes root");
    let p = SelfReviewOutcome::passed();
    assert!(p.ok && p.must_fix.is_empty());
    assert_eq!(Severity::Warn.as_str(), "warn");
    assert_eq!(Severity::Error.as_str(), "error");
}

#[test]
fn tail_keeps_last_bytes_on_a_char_boundary() {
    assert_eq!(tail_to_string(b"hello"), "hello");
    let mut big = vec![b'a'; TAIL_CAP_BYTES + 10];
    big.extend_from_slice(b"end");
    let t = tail_to_string(&big);
    assert_eq!(t.len(), TAIL_CAP_BYTES);
    assert!(t.ends_with("end"));
    // A multi-byte character cut by the window is dropped, not mangled.
    let mut v = "€".repeat(TAIL_CAP_BYTES / 3 + 5).into_bytes();
    v.extend_from_slice(b"!!");
    let t = tail_to_string(&v);
    assert!(t.ends_with("!!"));
    assert!(t.starts_with('€'));
    assert_eq!(t.len(), TAIL_CAP_BYTES - 2);
    assert!(!t.contains('\u{FFFD}'));
}

#[test]
fn workdir_and_test_command() {
    assert_eq!(task_workdir("S1", "T1"), std::path::PathBuf::from("workspaces/S1/T1/workdir"));
    assert_eq!(sniff_test_command(true, true, true), ("cargo", vec!["test", "--quiet"]));
    assert_eq!(sniff_test_command(false, true, true), ("pnpm", vec!["test"]));
    assert_eq!(sniff_test_command(false, false, true), ("make", vec!["test"]));
    assert_eq!(sniff_test_command(false, false, false), ("sh", vec!["-c", "echo 'no recognized test target' && exit 0"]));
}

#[test]
fn sandbox_lexical_rules() {
    assert_eq!(check_candidate("artifacts/T1.md"), Ok(()));
    assert_eq!(check_candidate(""), Err("empty path"));
    assert_eq!(check_candidate("a\0b"), Err("nul byte in path"));
    assert_eq!(check_candidate(&"a".repeat(4097)), Err("path too long"));
    assert_eq!(check_candidate(&"a".repeat(4096)), Ok(()));
    assert_eq!(check_candidate("/etc/passwd"), Err("absolute path forbidden"));
    assert_eq!(check_candidate("C:\\x"), Err("windows absolute"));
    assert_eq!(check_candidate("\\\\server\\share"), Err("UNC path forbidden"));
    assert_eq!(check_candidate("evil\u{202E}txt.md"), Err("bidi control char"));
    assert_eq!(check_candidate("e\u{301}.md"), Err("non-NFC path"));
    assert_eq!(check_candidate("\u{e9}.md"), Ok(()));
    assert_eq!(check_candidate("file."), Err("trailing dot or space"));
    assert_eq!(check_candidate("file "), Err("trailing dot or space"));
    assert_eq!(check_candidate("../escape"), Ok(()));
}
