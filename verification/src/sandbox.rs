//! The lexical half of the sandbox path resolver: a candidate path that
//! could escape a startup's workspace, or that could be read two ways, is
//! refused before the filesystem is consulted. The other half (joining
//! with the root, resolving symlinks and checking the result stays under
//! the root) needs the filesystem and is the server's part.

use vstd::prelude::*;
use vstd::std_specs::iter::IteratorSpec;
use unicode_normalization::UnicodeNormalization;
use crate::text::str_eq;

verus! {

/// Longest candidate path, in bytes.
pub const MAX_PATH_BYTES: usize = 4096;

/// Unicode Normalization Form C of a string.
pub uninterp spec fn nfc_form(s: Seq<char>) -> Seq<char>;

/// `UnicodeNormalization::nfc` of unicode-normalization, collected into a
/// `String`: the canonical composition of `s`.
#[verifier::external_body]
fn to_nfc(s: &str) -> (r: String)
    ensures
        r@ == nfc_form(s@),
{
    s.nfc().collect::<String>()
}

/// The bidirectional-text controls a path may not hold: the overrides,
/// embeddings and pop (U+202A to U+202E) and the marks U+200E, U+200F.
pub open spec fn bidi_control(c: char) -> bool {
    c == '\u{202E}' || c == '\u{202D}' || c == '\u{202A}' || c == '\u{202B}' || c == '\u{202C}' || c
        == '\u{200E}' || c == '\u{200F}'
}

pub open spec fn holds(s: Seq<char>, p: spec_fn(char) -> bool) -> bool {
    exists|i: int| 0 <= i < s.len() && p(#[trigger] s[i])
}

/// Why a candidate is refused, in the order the checks are made; `None`
/// when it passes them all.
pub open spec fn lexical_refusal(s: Seq<char>) -> Option<Seq<char>> {
    if s.len() == 0 {
        Some("empty path"@)
    } else if holds(s, |c: char| c == '\0') {
        Some("nul byte in path"@)
    } else if vstd::utf8::encode_utf8(s).len() > MAX_PATH_BYTES {
        Some("path too long"@)
    } else if s[0] == '/' {
        Some("absolute path forbidden"@)
    } else if s.len() >= 2 && s[1] == ':' {
        Some("windows absolute"@)
    } else if s.len() >= 2 && ((s[0] == '\\' && s[1] == '\\') || (s[0] == '/' && s[1] == '/')) {
        Some("UNC path forbidden"@)
    } else if holds(s, |c: char| bidi_control(c)) {
        Some("bidi control char"@)
    } else if nfc_form(s) != s {
        Some("non-NFC path"@)
    } else if s.last() == '.' || s.last() == ' ' {
        Some("trailing dot or space"@)
    } else {
        None
    }
}

fn is_bidi_control(c: char) -> (r: bool)
    ensures
        r == bidi_control(c),
{
    c == '\u{202E}' || c == '\u{202D}' || c == '\u{202A}' || c == '\u{202B}' || c == '\u{202C}' || c
        == '\u{200E}' || c == '\u{200F}'
}

/// The lexical checks on a candidate path relative to a workspace: it must
/// be non-empty, hold no NUL, be at most `MAX_PATH_BYTES` bytes, be
/// relative in both the Unix and the Windows sense, hold no bidirectional
/// control, be in NFC, and not end in a dot or a space.
pub fn check_candidate(candidate: &str) -> (r: Result<(), &'static str>)
    ensures
        match lexical_refusal(candidate@) {
            Some(msg) => r matches Err(e) && e@ == msg,
            None => r is Ok,
        },
{
    broadcast use vstd::string::axiom_spec_iter;
    let s = candidate;
    let blen = s.as_bytes().len();
    proof {
        crate::mcp_dispatch::lemma_encode_len(s@);
    }
    let mut n: usize = 0;
    let mut nul = false;
    let mut bidi = false;
    let mut first: char = ' ';
    let mut second: char = ' ';
    let mut last: char = ' ';
    for c in iter: s.chars()
        invariant
            n == iter.index(),
            iter.seq() == s@,
            s@.len() <= blen,
            n <= s@.len(),
            nul == holds(s@.take(n as int), |c: char| c == '\0'),
            bidi == holds(s@.take(n as int), |c: char| bidi_control(c)),
            n >= 1 ==> first == s@[0] && last == s@[n - 1],
            n >= 2 ==> second == s@[1],
    {
        assert(n < s@.len());
        proof {
            let t = s@.take(n as int + 1);
            assert(t.take(n as int) =~= s@.take(n as int));
            assert(forall|i: int| 0 <= i < n ==> t[i] == s@.take(n as int)[i]);
            assert(t[n as int] == c);
            if holds(t, |c: char| c == '\0') && !(nul || c == '\0') {
                let i = choose|i: int| 0 <= i < t.len() && #[trigger] t[i] == '\0';
                assert(s@.take(n as int)[i] == '\0');
            }
            if holds(t, |c: char| bidi_control(c)) && !(bidi || bidi_control(c)) {
                let i = choose|i: int| 0 <= i < t.len() && bidi_control(#[trigger] t[i]);
                assert(bidi_control(s@.take(n as int)[i]));
            }
            if nul {
                let i = choose|i: int| 0 <= i < n && #[trigger] s@.take(n as int)[i] == '\0';
                assert(t[i] == '\0');
            }
            if bidi {
                let i = choose|i: int| 0 <= i < n && bidi_control(#[trigger] s@.take(n as int)[i]);
                assert(bidi_control(t[i]));
            }
        }
        if c == '\0' {
            nul = true;
        }
        if is_bidi_control(c) {
            bidi = true;
        }
        if n == 0 {
            first = c;
        }
        if n == 1 {
            second = c;
        }
        last = c;
        n = n + 1;
    }
    proof {
        assert(s@.take(n as int) =~= s@);
    }
    if n == 0 {
        return Err("empty path");
    }
    if nul {
        return Err("nul byte in path");
    }
    if blen > MAX_PATH_BYTES {
        return Err("path too long");
    }
    if first == '/' {
        return Err("absolute path forbidden");
    }
    if n >= 2 && second == ':' {
        return Err("windows absolute");
    }
    if n >= 2 && ((first == '\\' && second == '\\') || (first == '/' && second == '/')) {
        return Err("UNC path forbidden");
    }
    if bidi {
        return Err("bidi control char");
    }
    let nfc = to_nfc(s);
    if !str_eq(nfc.as_str(), s) {
        return Err("non-NFC path");
    }
    if last == '.' || last == ' ' {
        return Err("trailing dot or space");
    }
    Ok(())
}

} // verus!
