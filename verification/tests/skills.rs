use cliptown_world::skills::{author_columns, check_attach, check_file_upsert, check_owner, check_skill_upsert, file_name_is_valid, name_is_valid, Author, SkillError, MAX_CONTENT_LEN};

#[test]
fn skill_names() {
    assert!(name_is_valid("deploy-to-fly"));
    assert!(name_is_valid("A_b-9"));
    assert!(name_is_valid(&"a".repeat(64)));
    assert!(!name_is_valid(&"a".repeat(65)));
    assert!(!name_is_valid(""));
    assert!(!name_is_valid("bad name"));
    assert!(!name_is_valid("a.b"));
    assert!(!name_is_valid("a/b"));
    assert!(!name_is_valid("é"));
}

#[test]
fn skill_file_names() {
    assert!(file_name_is_valid("notes.txt"));
    assert!(!file_name_is_valid("README.md"));
    assert!(!file_name_is_valid("Notes.txt"));
    assert!(file_name_is_valid("a.b.c"));
    assert!(file_name_is_valid(".hidden"));
    assert!(file_name_is_valid(&"a".repeat(128)));
    assert!(!file_name_is_valid(&"a".repeat(129)));
    assert!(!file_name_is_valid(""));
    assert!(!file_name_is_valid("."));
    assert!(!file_name_is_valid(".."));
    assert!(!file_name_is_valid("a..b"));
    assert!(!file_name_is_valid("/etc"));
    assert!(!file_name_is_valid("dir/file"));
    assert!(!file_name_is_valid("space name"));
}

#[test]
fn upsert_rejects_bad_name_chars() {
    assert!(matches!(check_skill_upsert("bad name", "body"), Err(SkillError::BadName)));
    assert!(matches!(check_skill_upsert("deploy-to-fly", "body"), Ok(())));
}

#[test]
fn upsert_rejects_oversize_content() {
    let big = "x".repeat(MAX_CONTENT_LEN + 1);
    assert!(matches!(check_skill_upsert("deploy", &big), Err(SkillError::OversizeContent)));
    let exact = "x".repeat(MAX_CONTENT_LEN);
    assert!(matches!(check_skill_upsert("deploy", &exact), Ok(())));
    // Bytes count, not characters.
    let wide = "é".repeat(MAX_CONTENT_LEN / 2 + 1);
    assert!(matches!(check_skill_upsert("deploy", &wide), Err(SkillError::OversizeContent)));
    // The name is checked first.
    assert!(matches!(check_skill_upsert("", &big), Err(SkillError::BadName)));
}

#[test]
fn file_upsert_checks() {
    assert!(matches!(check_file_upsert("..", "x"), Err(SkillError::BadName)));
    assert!(matches!(check_file_upsert("ok.md", &"x".repeat(MAX_CONTENT_LEN + 1)), Err(SkillError::OversizeContent)));
    assert!(matches!(check_file_upsert("ok.md", "x"), Ok(())));
}

#[test]
fn ownership_gates() {
    assert!(matches!(check_owner(None, "S1"), Err(SkillError::NotFound)));
    assert!(matches!(check_owner(Some("S2"), "S1"), Err(SkillError::CrossStartup)));
    assert!(matches!(check_owner(Some("S1"), "S1"), Ok(())));
}

#[test]
fn attach_rejects_cross_startup_agent_or_skill() {
    assert!(matches!(check_attach(Some("S2"), Some("S1"), "S1"), Err(SkillError::CrossStartup)));
    assert!(matches!(check_attach(Some("S1"), Some("S2"), "S1"), Err(SkillError::CrossStartup)));
    assert!(matches!(check_attach(Some("S1"), None, "S1"), Err(SkillError::NotFound)));
    assert!(matches!(check_attach(None, Some("S1"), "S1"), Err(SkillError::NotFound)));
    assert!(matches!(check_attach(Some("S1"), Some("S1"), "S1"), Ok(())));
}

#[test]
fn revision_author_columns() {
    assert_eq!(author_columns(Author::Agent("A1")), (Some("A1"), None));
    assert_eq!(author_columns(Author::Operator("op")), (None, Some("op")));
    assert_eq!(author_columns(Author::Unknown), (None, None));
}

#[test]
fn white_space_follows_the_unicode_property() {
    use_text_checks();
}

fn use_text_checks() {
    assert!(cliptown_world::text::is_blank(" \t\n\r\u{0b}\u{0c}\u{85}\u{a0}\u{1680}\u{2000}\u{200a}\u{2028}\u{2029}\u{202f}\u{205f}\u{3000}"));
    assert!(!cliptown_world::text::is_blank("\u{200b}"));
    assert!(!cliptown_world::text::is_blank(" a "));
    assert_eq!(cliptown_world::text::trim_text("\u{3000} notes \n"), "notes");
}
