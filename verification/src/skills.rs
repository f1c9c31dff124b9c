//! Skills: per-startup markdown documents, attachable to agents, with
//! auxiliary text files and a revision history. This module holds the
//! rows and the rules (name grammar, size caps, ownership); the storage
//! layer runs the queries.

use vstd::prelude::*;
use vstd::std_specs::iter::IteratorSpec;

verus! {

/// Cap, in bytes, on a skill's markdown and on one skill file.
pub const MAX_CONTENT_LEN: usize = 65536;

/// Longest skill name.
pub const MAX_NAME_LEN: usize = 64;

/// Longest skill file name.
pub const MAX_FILE_NAME_LEN: usize = 128;

pub open spec fn ascii_alnum(c: char) -> bool {
    ('a' <= c && c <= 'z') || ('A' <= c && c <= 'Z') || ('0' <= c && c <= '9')
}

pub open spec fn name_char(c: char) -> bool {
    ascii_alnum(c) || c == '_' || c == '-'
}

pub open spec fn ascii_lower_alnum(c: char) -> bool {
    ('a' <= c && c <= 'z') || ('0' <= c && c <= '9')
}

pub open spec fn file_char(c: char) -> bool {
    ascii_lower_alnum(c) || c == '_' || c == '-' || c == '.'
}

/// `[A-Za-z0-9_-]{1,64}`. Every admitted character is ASCII, so counting
/// characters and counting bytes agree on every name this admits.
pub open spec fn name_ok(s: Seq<char>) -> bool {
    &&& 1 <= s.len() <= MAX_NAME_LEN
    &&& forall|i: int| 0 <= i < s.len() ==> name_char(#[trigger] s[i])
}

pub open spec fn has_dot_dot(s: Seq<char>) -> bool {
    exists|i: int| 0 <= i && i + 1 < s.len() && #[trigger] s[i] == '.' && s[i + 1] == '.'
}

/// A skill file name: 1 to 128 characters from `[a-z0-9_.-]` (lowercase
/// only, as for the files the worker writes), neither
/// `.` nor holding `..` (so `..` itself is out); no `/` can occur.
pub open spec fn file_name_ok(s: Seq<char>) -> bool {
    &&& 1 <= s.len() <= MAX_FILE_NAME_LEN
    &&& s != seq!['.']
    &&& !has_dot_dot(s)
    &&& forall|i: int| 0 <= i < s.len() ==> file_char(#[trigger] s[i])
}

/// Length in bytes of the UTF-8 encoding of `s`.
pub open spec fn utf8_len(s: Seq<char>) -> nat {
    vstd::utf8::encode_utf8(s).len()
}

fn is_ascii_lower_alnum(c: char) -> (r: bool)
    ensures
        r == ascii_lower_alnum(c),
{
    ('a' <= c && c <= 'z') || ('0' <= c && c <= '9')
}

fn is_ascii_alnum(c: char) -> (r: bool)
    ensures
        r == ascii_alnum(c),
{
    ('a' <= c && c <= 'z') || ('A' <= c && c <= 'Z') || ('0' <= c && c <= '9')
}

/// Whether `name` is a valid skill name.
pub fn name_is_valid(name: &str) -> (r: bool)
    ensures
        r == name_ok(name@),
{
    broadcast use vstd::string::axiom_spec_iter;
    let mut n: usize = 0;
    let mut ok = true;
    for c in iter: name.chars()
        invariant
            n == iter.index(),
            iter.seq() == name@,
            ok == (forall|i: int| 0 <= i < n ==> name_char(#[trigger] name@[i])),
    {
        if !(is_ascii_alnum(c) || c == '_' || c == '-') {
            ok = false;
        }
        if n < MAX_NAME_LEN + 1 {
            n = n + 1;
        } else {
            return false;
        }
    }
    ok && n >= 1 && n <= MAX_NAME_LEN
}

/// Whether `name` is a valid skill file name.
pub fn file_name_is_valid(name: &str) -> (r: bool)
    ensures
        r == file_name_ok(name@),
{
    broadcast use vstd::string::axiom_spec_iter;
    let mut n: usize = 0;
    let mut ok = true;
    let mut pair = false;
    let mut prev_dot = false;
    for c in iter: name.chars()
        invariant
            n == iter.index(),
            iter.seq() == name@,
            ok == (forall|i: int| 0 <= i < n ==> file_char(#[trigger] name@[i])),
            pair == (exists|i: int| 0 <= i && i + 1 < n && #[trigger] name@[i] == '.' && name@[i + 1]
                == '.'),
            prev_dot == (n > 0 && name@[n - 1] == '.'),
    {
        if !(is_ascii_lower_alnum(c) || c == '_' || c == '-' || c == '.') {
            ok = false;
        }
        if prev_dot && c == '.' {
            pair = true;
            assert(name@[n - 1] == '.' && name@[n as int] == '.');
        }
        proof {
            if pair && !(prev_dot && c == '.') {
                let w = choose|i: int| 0 <= i && i + 1 < n && #[trigger] name@[i] == '.' && name@[i + 1]
                    == '.';
                assert(0 <= w && w + 1 < n + 1 && name@[w] == '.' && name@[w + 1] == '.');
            }
        }
        prev_dot = c == '.';
        if n < MAX_FILE_NAME_LEN + 1 {
            n = n + 1;
        } else {
            return false;
        }
    }
    proof {
        reveal_strlit(".");
    }
    let single_dot = n == 1 && prev_dot;
    proof {
        if n == 1 {
            assert(single_dot == (name@ =~= seq!['.']));
        } else {
            assert(name@.len() != 1);
        }
    }
    ok && !pair && !single_dot && n >= 1 && n <= MAX_FILE_NAME_LEN
}

/// A stored skill.
#[derive(Debug, Clone, PartialEq, Eq)]
pub struct Skill {
    pub id: String,
    pub startup_id: String,
    pub name: String,
    pub content_md: String,
    pub created_at: i64,
    pub updated_at: i64,
}

/// A skill in a listing: metadata without the content.
#[derive(Debug, Clone, PartialEq, Eq)]
pub struct SkillListing {
    pub id: String,
    pub name: String,
    pub updated_at: i64,
    pub len: i64,
}

/// A skill as handed to a worker, with its files.
#[derive(Debug, Clone, PartialEq, Eq)]
pub struct AttachedSkill {
    pub name: String,
    pub content_md: String,
    pub files: Vec<SkillFile>,
}

/// A text file attached to a skill.
#[derive(Debug, Clone, PartialEq, Eq)]
pub struct SkillFile {
    pub name: String,
    pub content: String,
}

/// Why a skill operation was refused.
#[derive(Debug)]
pub enum SkillError {
    BadName,
    OversizeContent,
    NotFound,
    CrossStartup,
    Sql(String),
}

/// Who wrote a skill revision.
#[derive(Debug, Clone, Copy)]
pub enum Author<'a> {
    Agent(&'a str),
    Operator(&'a str),
    Unknown,
}

/// One revision of a skill's content.
#[derive(Debug, Clone, PartialEq, Eq)]
pub struct SkillRevision {
    pub id: String,
    pub skill_id: String,
    pub rev_seq: i64,
    pub content_md: String,
    pub created_at: i64,
    pub created_by_agent_id: Option<String>,
    pub created_by_operator_id: Option<String>,
}

/// A skill listing row with the ids of the agents it is attached to.
#[derive(Debug, Clone, PartialEq, Eq)]
pub struct SkillWithAttachments {
    pub id: String,
    pub name: String,
    pub len: i64,
    pub updated_at: i64,
    pub attachments: Vec<String>,
}

/// The checks before a skill is written: the name first, then the size of
/// the content in bytes.
pub fn check_skill_upsert(name: &str, content_md: &str) -> (r: Result<(), SkillError>)
    ensures
        !name_ok(name@) ==> (r matches Err(SkillError::BadName)),
        name_ok(name@) && utf8_len(content_md@) > MAX_CONTENT_LEN ==> (r matches Err(
            SkillError::OversizeContent,
        )),
        name_ok(name@) && utf8_len(content_md@) <= MAX_CONTENT_LEN ==> r is Ok,
{
    if !name_is_valid(name) {
        return Err(SkillError::BadName);
    }
    if content_md.as_bytes().len() > MAX_CONTENT_LEN {
        return Err(SkillError::OversizeContent);
    }
    Ok(())
}

/// The checks before a skill file is written: the file name first, then
/// the size of the content in bytes.
pub fn check_file_upsert(name: &str, content: &str) -> (r: Result<(), SkillError>)
    ensures
        !file_name_ok(name@) ==> (r matches Err(SkillError::BadName)),
        file_name_ok(name@) && utf8_len(content@) > MAX_CONTENT_LEN ==> (r matches Err(
            SkillError::OversizeContent,
        )),
        file_name_ok(name@) && utf8_len(content@) <= MAX_CONTENT_LEN ==> r is Ok,
{
    if !file_name_is_valid(name) {
        return Err(SkillError::BadName);
    }
    if content.as_bytes().len() > MAX_CONTENT_LEN {
        return Err(SkillError::OversizeContent);
    }
    Ok(())
}

/// The ownership gate on a skill row: a missing row is `NotFound`, a row of
/// another startup is `CrossStartup`.
pub fn check_owner(owner: Option<&str>, caller_startup_id: &str) -> (r: Result<(), SkillError>)
    ensures
        owner is None ==> (r matches Err(SkillError::NotFound)),
        (owner matches Some(o) && o@ != caller_startup_id@) ==> (r matches Err(
            SkillError::CrossStartup,
        )),
        (owner matches Some(o) && o@ == caller_startup_id@) ==> r is Ok,
{
    match owner {
        None => Err(SkillError::NotFound),
        Some(o) => {
            if crate::text::str_eq(o, caller_startup_id) {
                Ok(())
            } else {
                Err(SkillError::CrossStartup)
            }
        },
    }
}

/// The check on attaching or detaching: the skill's owner first, then the
/// agent's; each must exist and belong to the caller's startup.
pub fn check_attach(skill_owner: Option<&str>, agent_owner: Option<&str>, caller_startup_id: &str) -> (r:
    Result<(), SkillError>)
    ensures
        skill_owner is None ==> (r matches Err(SkillError::NotFound)),
        (skill_owner matches Some(o) && o@ != caller_startup_id@) ==> (r matches Err(
            SkillError::CrossStartup,
        )),
        (skill_owner matches Some(o) && o@ == caller_startup_id@) ==> match agent_owner {
            None => r matches Err(SkillError::NotFound),
            Some(a) => if a@ == caller_startup_id@ {
                r is Ok
            } else {
                r matches Err(SkillError::CrossStartup)
            },
        },
{
    match check_owner(skill_owner, caller_startup_id) {
        Err(e) => Err(e),
        Ok(()) => check_owner(agent_owner, caller_startup_id),
    }
}

/// The author columns of a revision row: (agent id, operator id).
pub fn author_columns<'a>(author: Author<'a>) -> (r: (Option<&'a str>, Option<&'a str>))
    ensures
        match author {
            Author::Agent(id) => r.0 == Some(id) && r.1 is None,
            Author::Operator(id) => r.0 is None && r.1 == Some(id),
            Author::Unknown => r.0 is None && r.1 is None,
        },
{
    match author {
        Author::Agent(id) => (Some(id), None),
        Author::Operator(id) => (None, Some(id)),
        Author::Unknown => (None, None),
    }
}


/// A valid skill name is a single path component without dots: it holds
/// neither `/` nor `.`, so `<dir>/<name>.md` stays inside `<dir>`.
pub proof fn law_name_is_path_safe(s: Seq<char>, i: int)
    requires
        name_ok(s),
        0 <= i < s.len(),
    ensures
        s[i] != '/' && s[i] != '.' && s[i] != '\\',
{
    assert(name_char(s[i]));
}

/// A valid file name holds no `/` and no `..`, and is neither `.` nor `..`:
/// the worker can write it under the skill's directory without leaving it.
pub proof fn law_file_name_is_path_safe(s: Seq<char>)
    requires
        file_name_ok(s),
    ensures
        forall|i: int| 0 <= i < s.len() ==> #[trigger] s[i] != '/' && s[i] != '\\',
        forall|i: int| 0 <= i && i + 1 < s.len() ==> !(#[trigger] s[i] == '.' && s[i + 1] == '.'),
        s != seq!['.'],
        s != seq!['.', '.'],
{
    assert forall|i: int| 0 <= i < s.len() implies #[trigger] s[i] != '/' && s[i] != '\\' by {
        assert(file_char(s[i]));
    }
    if s == seq!['.', '.'] {
        assert(s[0] == '.' && s[1] == '.');
        assert(has_dot_dot(s));
    }
}

/// Skill names: 1 to 64 characters, each an ASCII letter of either case,
/// a digit, `_` or `-`; every such string is a name.
pub proof fn law_skill_name_shape(s: Seq<char>)
    ensures
        name_ok(s) ==> 1 <= s.len() <= 64,
        (1 <= s.len() <= 64 && forall|i: int|
            0 <= i < s.len() ==> ('a' <= #[trigger] s[i] <= 'z') || ('A' <= s[i] <= 'Z') || ('0' <= s[i] <= '9')
                || s[i] == '_' || s[i] == '-') ==> name_ok(s),
{
}

/// Skill file names: 1 to 128 characters, never an uppercase letter; and
/// every string of lowercase letters, digits, `_`, `-` and `.` of that
/// length is one, unless it is `.` or holds `..`.
pub proof fn law_file_name_shape(s: Seq<char>)
    ensures
        file_name_ok(s) ==> 1 <= s.len() <= 128,
        file_name_ok(s) ==> forall|i: int| 0 <= i < s.len() ==> !('A' <= #[trigger] s[i] <= 'Z'),
        (1 <= s.len() <= 128 && s != seq!['.'] && !has_dot_dot(s) && forall|i: int|
            0 <= i < s.len() ==> ('a' <= #[trigger] s[i] <= 'z') || ('0' <= s[i] <= '9') || s[i] == '_' || s[i]
                == '-' || s[i] == '.') ==> file_name_ok(s),
{
    if file_name_ok(s) {
        assert forall|i: int| 0 <= i < s.len() implies !('A' <= #[trigger] s[i] <= 'Z') by {
            assert(file_char(s[i]));
        }
    }
}

} // verus!
