//! Database snapshots: the daemon's settings, the snapshot file name, the
//! path check before the path is spliced into `VACUUM INTO`, and which old
//! snapshots a rotation deletes. Writing the snapshot and removing files
//! is the server's part.

use vstd::prelude::*;
use vstd::std_specs::iter::IteratorSpec;
use crate::agent_tools::{path_of, path_from};
use crate::execenv_gc::{seconds, duration_from_secs};

verus! {

/// Snapshot frequency in hours when none is configured.
pub const DEFAULT_INTERVAL_HOURS: u64 = 6;

/// How many snapshots are kept when no number is configured.
pub const DEFAULT_KEEP: usize = 14;

/// The characters of a string.
fn chars_of(s: &str) -> (v: Vec<char>)
    ensures
        v@ == s@,
{
    broadcast use vstd::string::axiom_spec_iter;
    let mut v: Vec<char> = Vec::new();
    for c in iter: s.chars()
        invariant
            iter.seq() == s@,
            v@ == iter.seq().take(iter.index() as int),
    {
        proof {
            assert(iter.seq().take(iter.index() as int + 1) =~= v@.push(c));
        }
        v.push(c);
    }
    proof {
        assert(s@.take(s@.len() as int) =~= s@);
    }
    v
}

/// `a` sorts before `b`: the first differing character is smaller in `a`,
/// or `a` is a proper prefix of `b`. On file names this is the byte order
/// of their UTF-8 encoding, in which the snapshots' timestamps sort.
pub open spec fn lex_lt(a: Seq<char>, b: Seq<char>) -> bool
    decreases a.len(),
{
    if a.len() == 0 {
        b.len() > 0
    } else if b.len() == 0 {
        false
    } else if a[0] != b[0] {
        (a[0] as u32) < (b[0] as u32)
    } else {
        lex_lt(a.drop_first(), b.drop_first())
    }
}

/// Whether name `a` sorts before name `b`.
pub fn name_lt(a: &str, b: &str) -> (r: bool)
    ensures
        r == lex_lt(a@, b@),
{
    let x = chars_of(a);
    let y = chars_of(b);
    let mut i: usize = 0;
    proof {
        assert(a@.skip(0) =~= a@);
        assert(b@.skip(0) =~= b@);
    }
    while i < x.len() && i < y.len() && x[i] == y[i]
        invariant
            0 <= i <= x@.len(),
            i <= y@.len(),
            x@ == a@,
            y@ == b@,
            lex_lt(a@, b@) == lex_lt(a@.skip(i as int), b@.skip(i as int)),
        decreases x.len() - i,
    {
        proof {
            let (p, q) = (a@.skip(i as int), b@.skip(i as int));
            assert(p.drop_first() =~= a@.skip(i as int + 1));
            assert(q.drop_first() =~= b@.skip(i as int + 1));
        }
        i += 1;
    }
    if i == x.len() {
        return i < y.len();
    }
    if i == y.len() {
        return false;
    }
    let c = x[i];
    let d = y[i];
    proof {
        assert(a@.skip(i as int)[0] == c);
        assert(b@.skip(i as int)[0] == d);
        assert(c != d);
    }
    (c as u32) < (d as u32)
}

/// A snapshot's file name: `cliptown-` first and `.db` last.
pub open spec fn is_snapshot(name: Seq<char>) -> bool {
    &&& name.len() >= 9 && name.take(9) == "cliptown-"@
    &&& name.len() >= 3 && name.skip(name.len() - 3) == ".db"@
}

/// Whether `name` is the file name of a snapshot.
pub fn is_snapshot_name(name: &str) -> (r: bool)
    ensures
        r == is_snapshot(name@),
{
    proof {
        reveal_strlit("cliptown-");
        reveal_strlit(".db");
    }
    let n = name.unicode_len();
    if n < 9 || !crate::text::str_eq(name.substring_char(0, 9), "cliptown-") {
        proof {
            assert(n >= 9 ==> name@.subrange(0, 9) =~= name@.take(9));
        }
        return false;
    }
    assert(name@.subrange(0, 9) =~= name@.take(9));
    let tail = name.substring_char(n - 3, n);
    assert(name@.subrange(n - 3, n as int) =~= name@.skip(n - 3));
    crate::text::str_eq(tail, ".db")
}

/// A path that can be spliced between single quotes: no quote and no
/// backslash.
pub open spec fn splice_safe(p: Seq<char>) -> bool {
    !p.contains('\'') && !p.contains('\\')
}

/// Whether `dest` can be spliced into `VACUUM INTO '...'`.
pub fn path_splice_safe(dest: &str) -> (r: bool)
    ensures
        r == splice_safe(dest@),
{
    let v = chars_of(dest);
    let mut i: usize = 0;
    while i < v.len()
        invariant
            0 <= i <= v@.len(),
            v@ == dest@,
            forall|j: int| 0 <= j < i ==> v@[j] != '\'' && v@[j] != '\\',
        decreases v.len() - i,
    {
        if v[i] == '\'' || v[i] == '\\' {
            proof {
                if v[i as int] == '\'' {
                    assert(dest@.contains('\''));
                } else {
                    assert(dest@.contains('\\'));
                }
            }
            return false;
        }
        i += 1;
    }
    proof {
        assert(!dest@.contains('\'')) by {
            if dest@.contains('\'') {
                let k = choose|k: int| 0 <= k < dest@.len() && dest@[k] == '\'';
                assert(v@[k] != '\'');
            }
        }
        assert(!dest@.contains('\\')) by {
            if dest@.contains('\\') {
                let k = choose|k: int| 0 <= k < dest@.len() && dest@[k] == '\\';
                assert(v@[k] != '\\');
            }
        }
    }
    true
}

/// Why a snapshot was not written.
#[derive(Debug)]
pub enum BackupError {
    /// The destination holds a quote or a backslash.
    UnsafePath(String),
    Io(std::io::Error),
    Sql(sqlx::Error),
}

/// The check of a snapshot destination before it is spliced into the
/// statement.
pub fn check_snapshot_path(dest: &str) -> (r: Result<(), BackupError>)
    ensures
        splice_safe(dest@) ==> r is Ok,
        !splice_safe(dest@) ==> (r matches Err(BackupError::UnsafePath(p)) && p@ == dest@),
{
    if path_splice_safe(dest) {
        Ok(())
    } else {
        Err(BackupError::UnsafePath(dest.to_owned()))
    }
}

pub open spec fn names_view(v: Seq<String>) -> Seq<Seq<char>> {
    v.map_values(|s: String| s@)
}

pub open spec fn snapshot_pred() -> spec_fn(Seq<char>) -> bool {
    |n: Seq<char>| is_snapshot(n)
}

/// The snapshots among a directory's file names.
pub open spec fn snapshots(names: Seq<Seq<char>>) -> Seq<Seq<char>> {
    names.filter(snapshot_pred())
}

pub open spec fn newer_than(n: Seq<char>) -> spec_fn(Seq<char>) -> bool {
    |m: Seq<char>| lex_lt(n, m)
}

/// How many of `snaps` are newer than `n`.
pub open spec fn newer_count(snaps: Seq<Seq<char>>, n: Seq<char>) -> nat {
    snaps.filter(newer_than(n)).len()
}

/// A rotation keeping `keep` snapshots deletes a snapshot when at least
/// `keep` snapshots of the directory are newer: the directory's names
/// are distinct, so these are the snapshots past the first `keep` in
/// newest-first order.
pub open spec fn rotated_out(names: Seq<Seq<char>>, keep: nat) -> spec_fn(Seq<char>) -> bool {
    |n: Seq<char>| is_snapshot(n) && newer_count(snapshots(names), n) >= keep
}

fn snapshot_list(names: &Vec<String>) -> (s: Vec<String>)
    ensures
        names_view(s@) == snapshots(names_view(names@)),
{
    let ghost all = names_view(names@);
    let mut s: Vec<String> = Vec::new();
    let mut i: usize = 0;
    proof {
        reveal(Seq::filter);
        assert(all.take(0).filter(snapshot_pred()) =~= Seq::<Seq<char>>::empty());
        assert(names_view(s@) =~= Seq::<Seq<char>>::empty());
    }
    while i < names.len()
        invariant
            0 <= i <= names@.len(),
            all == names_view(names@),
            names_view(s@) == all.take(i as int).filter(snapshot_pred()),
        decreases names.len() - i,
    {
        proof {
            assert(all.take(i as int + 1) =~= all.take(i as int).push(all[i as int]));
            assert(all[i as int] == names@[i as int]@);
            all.take(i as int).lemma_filter_push(all[i as int], snapshot_pred());
        }
        if is_snapshot_name(names[i].as_str()) {
            let ghost before = names_view(s@);
            s.push(names[i].clone());
            proof {
                assert(names_view(s@) =~= before.push(names@[i as int]@));
            }
        }
        i += 1;
    }
    proof {
        assert(all.take(all.len() as int) =~= all);
    }
    s
}

fn count_newer(snaps: &Vec<String>, n: &str) -> (c: usize)
    ensures
        c == newer_count(names_view(snaps@), n@),
{
    let ghost all = names_view(snaps@);
    let mut c: usize = 0;
    let mut i: usize = 0;
    proof {
        reveal(Seq::filter);
        assert(all.take(0).filter(newer_than(n@)) =~= Seq::<Seq<char>>::empty());
    }
    while i < snaps.len()
        invariant
            0 <= i <= snaps@.len(),
            all == names_view(snaps@),
            c == all.take(i as int).filter(newer_than(n@)).len(),
            c <= i,
        decreases snaps.len() - i,
    {
        proof {
            assert(all.take(i as int + 1) =~= all.take(i as int).push(all[i as int]));
            assert(all[i as int] == snaps@[i as int]@);
            all.take(i as int).lemma_filter_push(all[i as int], newer_than(n@));
        }
        if name_lt(n, snaps[i].as_str()) {
            c += 1;
        }
        i += 1;
    }
    proof {
        assert(all.take(all.len() as int) =~= all);
    }
    c
}

/// The snapshots among `names` that a rotation keeping `keep` deletes, in
/// the order of `names`.
pub fn prune_victims(names: &Vec<String>, keep: usize) -> (v: Vec<String>)
    ensures
        names_view(v@) == names_view(names@).filter(rotated_out(names_view(names@), keep as nat)),
{
    let ghost all = names_view(names@);
    let ghost f = rotated_out(all, keep as nat);
    let snaps = snapshot_list(names);
    let mut v: Vec<String> = Vec::new();
    let mut i: usize = 0;
    proof {
        reveal(Seq::filter);
        assert(all.take(0).filter(f) =~= Seq::<Seq<char>>::empty());
        assert(names_view(v@) =~= Seq::<Seq<char>>::empty());
    }
    while i < names.len()
        invariant
            0 <= i <= names@.len(),
            all == names_view(names@),
            f == rotated_out(all, keep as nat),
            names_view(snaps@) == snapshots(all),
            names_view(v@) == all.take(i as int).filter(f),
        decreases names.len() - i,
    {
        proof {
            assert(all.take(i as int + 1) =~= all.take(i as int).push(all[i as int]));
            assert(all[i as int] == names@[i as int]@);
            all.take(i as int).lemma_filter_push(all[i as int], f);
        }
        let name = names[i].as_str();
        if is_snapshot_name(name) && count_newer(&snaps, name) >= keep {
            let ghost before = names_view(v@);
            v.push(names[i].clone());
            proof {
                assert(names_view(v@) =~= before.push(names@[i as int]@));
            }
        }
        i += 1;
    }
    proof {
        assert(all.take(all.len() as int) =~= all);
    }
    v
}

/// The strftime pattern of a snapshot's timestamp.
pub const STAMP_FORMAT: &'static str = "%Y%m%d-%H%M%S";

/// What `chrono` renders for the UTC instant `secs` seconds after the Unix
/// epoch with the strftime pattern `fmt`; `None` when the instant is out
/// of its range.
pub uninterp spec fn utc_formatted(secs: i64, fmt: Seq<char>) -> Option<Seq<char>>;

/// `chrono::DateTime::from_timestamp(secs, 0)` rendered with `format(fmt)`.
/// The rendering itself (the calendar arithmetic) is named, not stated.
#[verifier::external_body]
fn format_utc(secs: i64, fmt: &str) -> (r: Option<String>)
    requires
        fmt@ == STAMP_FORMAT@,
    ensures
        match r {
            Some(s) => utc_formatted(secs, fmt@) == Some(s@),
            None => utc_formatted(secs, fmt@) is None,
        },
{
    chrono::DateTime::from_timestamp(secs, 0).map(|t| t.format(fmt).to_string())
}

/// The file name of a snapshot taken `now` (Unix seconds):
/// `cliptown-<YYYYMMDD-HHMMSS>.db`; `None` for an instant `chrono` cannot
/// represent.
pub fn snapshot_file_name(now: i64) -> (r: Option<String>)
    ensures
        match utc_formatted(now, STAMP_FORMAT@) {
            Some(stamp) => r matches Some(n) && n@ == "cliptown-"@ + stamp + ".db"@,
            None => r is None,
        },
{
    match format_utc(now, STAMP_FORMAT) {
        Some(stamp) => {
            let mut n = "cliptown-".to_owned();
            n.append(stamp.as_str());
            n.append(".db");
            Some(n)
        },
        None => None,
    }
}

/// The snapshot daemon's settings: where snapshots go, how often one is
/// taken, how many are kept.
pub struct BackupSettings {
    pub dir: std::path::PathBuf,
    pub interval: std::time::Duration,
    pub keep: usize,
}

pub open spec fn hours_or_default(h: Option<u64>) -> u64 {
    match h {
        Some(x) => if x >= 1 { x } else { DEFAULT_INTERVAL_HOURS },
        None => DEFAULT_INTERVAL_HOURS,
    }
}

pub open spec fn keep_or_default(k: Option<usize>) -> usize {
    match k {
        Some(x) => if x >= 1 { x } else { DEFAULT_KEEP },
        None => DEFAULT_KEEP,
    }
}

impl BackupSettings {
    /// The settings from the environment's values, already parsed: no
    /// daemon without a non-empty directory; an interval or a count below
    /// one is replaced by its default (6 hours, 14 snapshots).
    pub fn from_settings(dir: Option<String>, interval_hours: Option<u64>, keep: Option<usize>) -> (r: Option<
        BackupSettings,
    >)
        requires
            (dir matches Some(d) && d@.len() > 0) ==> hours_or_default(interval_hours) * 3600 <= u64::MAX,
        ensures
            !(dir matches Some(d) && d@.len() > 0) ==> r is None,
            (dir matches Some(d) && d@.len() > 0) ==> (r matches Some(c) && c.dir == path_of(dir->0@)
                && c.interval == seconds((hours_or_default(interval_hours) * 3600) as u64) && c.keep
                == keep_or_default(keep)),
    {
        let d = match dir {
            Some(d) => d,
            None => return None,
        };
        if d.unicode_len() == 0 {
            return None;
        }
        let hours: u64 = match interval_hours {
            Some(h) => if h >= 1 { h } else { DEFAULT_INTERVAL_HOURS },
            None => DEFAULT_INTERVAL_HOURS,
        };
        let k: usize = match keep {
            Some(x) => if x >= 1 { x } else { DEFAULT_KEEP },
            None => DEFAULT_KEEP,
        };
        Some(BackupSettings { dir: path_from(d), interval: duration_from_secs(hours * 3600), keep: k })
    }
}

/// The names the daemon writes are the names a rotation counts.
pub proof fn law_snapshot_names_are_recognized(stamp: Seq<char>)
    ensures
        is_snapshot("cliptown-"@ + stamp + ".db"@),
{
    reveal_strlit("cliptown-");
    reveal_strlit(".db");
    let n = "cliptown-"@ + stamp + ".db"@;
    assert(n.take(9) =~= "cliptown-"@);
    assert(n.skip(n.len() - 3) =~= ".db"@);
}

proof fn lemma_lex_irreflexive(a: Seq<char>)
    ensures
        !lex_lt(a, a),
    decreases a.len(),
{
    if a.len() > 0 {
        lemma_lex_irreflexive(a.drop_first());
    }
}

proof fn lemma_lex_transitive(a: Seq<char>, b: Seq<char>, c: Seq<char>)
    requires
        lex_lt(a, b),
        lex_lt(b, c),
    ensures
        lex_lt(a, c),
    decreases a.len(),
{
    if a.len() > 0 && b.len() > 0 && c.len() > 0 && a[0] == b[0] && b[0] == c[0] {
        lemma_lex_transitive(a.drop_first(), b.drop_first(), c.drop_first());
    }
}

proof fn lemma_lex_total(a: Seq<char>, b: Seq<char>)
    requires
        a != b,
    ensures
        lex_lt(a, b) || lex_lt(b, a),
    decreases a.len(),
{
    if a.len() == 0 && b.len() == 0 {
        assert(a =~= b);
    } else if a.len() > 0 && b.len() > 0 {
        if a[0] == b[0] {
            if a.drop_first() =~= b.drop_first() {
                assert forall|i: int| 0 <= i < a.len() implies a[i] == b[i] by {
                    if i > 0 {
                        assert(a[i] == a.drop_first()[i - 1]);
                        assert(b[i] == b.drop_first()[i - 1]);
                    }
                }
                assert(a =~= b);
            }
            lemma_lex_total(a.drop_first(), b.drop_first());
        } else {
            vstd::utf8::char_u32_cast(a[0], a[0] as u32);
            vstd::utf8::char_u32_cast(b[0], b[0] as u32);
        }
    }
}

/// Filtering out an element of the sequence shortens it.
proof fn lemma_filter_drops(s: Seq<Seq<char>>, p: spec_fn(Seq<char>) -> bool, x: Seq<char>)
    requires
        s.contains(x),
        !p(x),
    ensures
        s.filter(p).len() < s.len(),
    decreases s.len(),
{
    let l = s.drop_last();
    assert(s =~= l.push(s.last()));
    l.lemma_filter_push(s.last(), p);
    l.lemma_filter_len(p);
    if s.last() != x {
        let i = choose|i: int| 0 <= i < s.len() && s[i] == x;
        assert(i < s.len() - 1);
        assert(l[i] == x);
        lemma_filter_drops(l, p, x);
    }
}

/// A predicate that implies another on `s` keeps at most as many.
proof fn lemma_filter_mono(s: Seq<Seq<char>>, p: spec_fn(Seq<char>) -> bool, q: spec_fn(Seq<char>) -> bool)
    requires
        forall|y: Seq<char>| s.contains(y) && q(y) ==> p(y),
    ensures
        s.filter(q).len() <= s.filter(p).len(),
    decreases s.len(),
{
    if s.len() > 0 {
        let l = s.drop_last();
        assert(s =~= l.push(s.last()));
        assert forall|y: Seq<char>| l.contains(y) && q(y) implies p(y) by {
            let i = choose|i: int| 0 <= i < l.len() && l[i] == y;
            assert(s[i] == y);
            assert(s.contains(y));
        }
        lemma_filter_mono(l, p, q);
        l.lemma_filter_len_push(p, s.last());
        l.lemma_filter_len_push(q, s.last());
        assert(s.contains(s.last()));
    }
}

/// ... and strictly fewer when some element passes the weaker one only.
proof fn lemma_filter_strict(
    s: Seq<Seq<char>>,
    p: spec_fn(Seq<char>) -> bool,
    q: spec_fn(Seq<char>) -> bool,
    x: Seq<char>,
)
    requires
        forall|y: Seq<char>| s.contains(y) && q(y) ==> p(y),
        s.contains(x),
        p(x),
        !q(x),
    ensures
        s.filter(q).len() < s.filter(p).len(),
    decreases s.len(),
{
    let l = s.drop_last();
    let e = s.last();
    assert(s =~= l.push(e));
    assert forall|y: Seq<char>| l.contains(y) && q(y) implies p(y) by {
        let i = choose|i: int| 0 <= i < l.len() && l[i] == y;
        assert(s[i] == y);
        assert(s.contains(y));
    }
    l.lemma_filter_len_push(p, e);
    l.lemma_filter_len_push(q, e);
    assert(s.contains(e));
    if e == x {
        lemma_filter_mono(l, p, q);
    } else {
        let i = choose|i: int| 0 <= i < s.len() && s[i] == x;
        assert(i < s.len() - 1);
        assert(l[i] == x);
        lemma_filter_strict(l, p, q, x);
    }
}

proof fn lemma_filter_no_dup(s: Seq<Seq<char>>, p: spec_fn(Seq<char>) -> bool)
    requires
        s.no_duplicates(),
    ensures
        s.filter(p).no_duplicates(),
    decreases s.len(),
{
    if s.len() > 0 {
        let l = s.drop_last();
        let e = s.last();
        assert(s =~= l.push(e));
        assert(l.no_duplicates()) by {
            assert forall|i: int, j: int| 0 <= i < l.len() && 0 <= j < l.len() && i != j implies l[i] != l[j] by {
                assert(s[i] == l[i] && s[j] == l[j]);
            }
        }
        lemma_filter_no_dup(l, p);
        l.lemma_filter_push(e, p);
        if p(e) {
            let f = l.filter(p);
            if f.contains(e) {
                l.lemma_filter_contains_rev(p, e);
                let i = choose|i: int| 0 <= i < l.len() && l[i] == e;
                assert(s[i] == s[s.len() - 1]);
            }
            assert forall|i: int, j: int| 0 <= i < f.push(e).len() && 0 <= j < f.push(e).len() && i != j implies f.push(
                e,
            )[i] != f.push(e)[j] by {
                if i == f.len() {
                    assert(f[j] != e) by {
                        if f[j] == e {
                            assert(f.contains(e));
                        }
                    }
                } else if j == f.len() {
                    assert(f[i] != e) by {
                        if f[i] == e {
                            assert(f.contains(e));
                        }
                    }
                }
            }
        }
    }
}

/// The snapshots a rotation keeping `keep` leaves.
pub open spec fn survives(names: Seq<Seq<char>>, keep: nat) -> spec_fn(Seq<char>) -> bool {
    |n: Seq<char>| is_snapshot(n) && newer_count(snapshots(names), n) < keep
}

/// A directory with at most `keep` snapshots loses none of them.
pub proof fn law_small_directory_untouched(names: Seq<Seq<char>>, keep: nat)
    requires
        snapshots(names).len() <= keep,
    ensures
        names.filter(rotated_out(names, keep)).len() == 0,
{
    let s = snapshots(names);
    assert forall|i: int| 0 <= i < names.len() implies !rotated_out(names, keep)(#[trigger] names[i]) by {
        let n = names[i];
        if is_snapshot(n) {
            names.lemma_filter_contains(snapshot_pred(), i);
            lemma_lex_irreflexive(n);
            lemma_filter_drops(s, newer_than(n), n);
        }
    }
    assert(names.all(|x: Seq<char>| !rotated_out(names, keep)(x)));
    names.lemma_all_neg_filter_empty(rotated_out(names, keep));
}

/// Two distinct snapshots never have the same number of newer ones.
proof fn lemma_rank_distinct(s: Seq<Seq<char>>, a: Seq<char>, b: Seq<char>)
    requires
        s.contains(a),
        s.contains(b),
        a != b,
    ensures
        newer_count(s, a) != newer_count(s, b),
{
    lemma_lex_total(a, b);
    if lex_lt(a, b) {
        assert forall|y: Seq<char>| s.contains(y) && newer_than(b)(y) implies newer_than(a)(y) by {
            lemma_lex_transitive(a, b, y);
        }
        lemma_lex_irreflexive(b);
        lemma_filter_strict(s, newer_than(a), newer_than(b), b);
    } else {
        assert forall|y: Seq<char>| s.contains(y) && newer_than(a)(y) implies newer_than(b)(y) by {
            lemma_lex_transitive(b, a, y);
        }
        lemma_lex_irreflexive(a);
        lemma_filter_strict(s, newer_than(b), newer_than(a), a);
    }
}

/// A rotation keeping `keep` leaves exactly `keep` snapshots of a
/// directory (whose file names are distinct), or all of them when there
/// are fewer: the newest ones.
pub proof fn law_rotation_keeps_the_newest(names: Seq<Seq<char>>, keep: nat)
    requires
        names.no_duplicates(),
    ensures
        names.filter(survives(names, keep)).len() == (if keep < snapshots(names).len() {
            keep
        } else {
            snapshots(names).len()
        }),
{
    let s = snapshots(names);
    let n = s.len() as int;
    let m = if keep < s.len() { keep as int } else { n };
    let pv = survives(names, keep);
    let v = names.filter(pv);
    let rank = |x: Seq<char>| newer_count(s, x) as int;
    lemma_filter_no_dup(names, snapshot_pred());
    lemma_filter_no_dup(names, pv);
    s.unique_seq_to_set();
    v.unique_seq_to_set();
    let ss = s.to_set();
    let vs = v.to_set();
    assert forall|x: Seq<char>| #[trigger] vs.contains(x) <==> (ss.contains(x) && rank(x) < keep) by {
        if vs.contains(x) {
            assert(v.contains(x));
            names.lemma_filter_contains_rev(pv, x);
            let j = choose|j: int| 0 <= j < v.len() && v[j] == x;
            names.lemma_filter_pred(pv, j);
            let i = choose|i: int| 0 <= i < names.len() && names[i] == x;
            names.lemma_filter_contains(snapshot_pred(), i);
        }
        if ss.contains(x) && rank(x) < keep {
            assert(s.contains(x));
            names.lemma_filter_contains_rev(snapshot_pred(), x);
            let j = choose|j: int| 0 <= j < s.len() && s[j] == x;
            names.lemma_filter_pred(snapshot_pred(), j);
            let i = choose|i: int| 0 <= i < names.len() && names[i] == x;
            names.lemma_filter_contains(pv, i);
        }
    }
    assert forall|x: Seq<char>| #[trigger] ss.contains(x) implies 0 <= rank(x) < n by {
        lemma_lex_irreflexive(x);
        lemma_filter_drops(s, newer_than(x), x);
    }
    assert forall|a: Seq<char>, b: Seq<char>|
        ss.contains(a) && ss.contains(b) && #[trigger] rank(a) == #[trigger] rank(b) implies a == b by {
        if a != b {
            lemma_rank_distinct(s, a, b);
        }
    }
    assert(vstd::relations::injective_on(rank, ss));
    let img = ss.map(rank);
    vstd::set_lib::lemma_map_size(ss, img, rank);
    vstd::set_lib::lemma_int_range(0, n);
    let full = vstd::set_lib::set_int_range(0, n);
    assert forall|k: int| #[trigger] img.contains(k) implies full.contains(k) by {
        let x = choose|x: Seq<char>| ss.contains(x) && rank(x) == k;
    }
    vstd::set_lib::lemma_subset_equality(img, full);
    let part = vstd::set_lib::set_int_range(0, m);
    let vimg = vs.map(rank);
    assert forall|k: int| #[trigger] vimg.contains(k) <==> part.contains(k) by {
        if vimg.contains(k) {
            let x = choose|x: Seq<char>| vs.contains(x) && rank(x) == k;
        }
        if part.contains(k) {
            assert(full.contains(k));
            assert(img.contains(k));
            let x = choose|x: Seq<char>| ss.contains(x) && rank(x) == k;
            assert(vs.contains(x));
            assert(vimg.contains(rank(x)));
        }
    }
    assert(vimg =~= part);
    assert(vstd::relations::injective_on(rank, vs));
    vstd::set_lib::lemma_map_size(vs, vimg, rank);
    vstd::set_lib::lemma_int_range(0, m);
}

/// A rotation keeping `keep` leaves at most `keep` snapshots.
pub proof fn law_rotation_leaves_at_most_keep(names: Seq<Seq<char>>, keep: nat)
    requires
        names.no_duplicates(),
    ensures
        names.filter(survives(names, keep)).len() <= keep,
{
    law_rotation_keeps_the_newest(names, keep);
}

} // verus!
