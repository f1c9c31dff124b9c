//! Small text helpers shared by the policies.

use vstd::prelude::*;
use vstd::std_specs::iter::IteratorSpec;

verus! {

/// Whether two strings are equal.
pub fn str_eq(a: &str, b: &str) -> (r: bool)
    ensures
        r == (a@ == b@),
{
    let x = a.to_owned();
    let y = b.to_owned();
    x == y
}

/// Decimal digits of `n`, most significant first.
pub open spec fn decimal(n: nat) -> Seq<char>
    decreases n,
{
    if n < 10 {
        seq![digit_char(n)]
    } else {
        decimal(n / 10).push(digit_char(n % 10))
    }
}

pub open spec fn digit_char(d: nat) -> char {
    if d == 0 { '0' } else if d == 1 { '1' } else if d == 2 { '2' } else if d == 3 { '3' } else if d
        == 4 { '4' } else if d == 5 { '5' } else if d == 6 { '6' } else if d == 7 { '7' } else if d
        == 8 { '8' } else { '9' }
}

/// The one-character text of the digit `d`.
fn digit_str(d: usize) -> (s: &'static str)
    requires
        d < 10,
    ensures
        s@ == seq![digit_char(d as nat)],
{
    proof {
        reveal_strlit("0");
        reveal_strlit("1");
        reveal_strlit("2");
        reveal_strlit("3");
        reveal_strlit("4");
        reveal_strlit("5");
        reveal_strlit("6");
        reveal_strlit("7");
        reveal_strlit("8");
        reveal_strlit("9");
    }
    match d {
        0 => "0",
        1 => "1",
        2 => "2",
        3 => "3",
        4 => "4",
        5 => "5",
        6 => "6",
        7 => "7",
        8 => "8",
        _ => "9",
    }
}

/// The decimal text of `n`, as `ToString::to_string` writes it.
pub(crate) fn usize_to_decimal(n: usize) -> (s: String)
    ensures
        s@ == decimal(n as nat),
    decreases n,
{
    if n < 10 {
        digit_str(n).to_owned()
    } else {
        let mut s = usize_to_decimal(n / 10);
        s.append(digit_str(n % 10));
        s
    }
}

proof fn lemma_flatten_single(x: Seq<char>)
    ensures
        seq![x].flatten() =~= x,
{
    reveal_with_fuel(Seq::flatten, 2);
}

/// Flattening a sequence of pieces, then one piece more, appends that piece.
pub proof fn lemma_flatten_snoc(pv: Seq<Seq<char>>, x: Seq<char>)
    ensures
        pv.push(x).flatten() =~= pv.flatten() + x,
{
    vstd::seq_lib::lemma_flatten_concat(pv, seq![x]);
    assert(pv.push(x) =~= pv + seq![x]);
    lemma_flatten_single(x);
}

/// Four pieces flatten to their concatenation.
pub proof fn lemma_flatten_four(a: Seq<char>, b: Seq<char>, c: Seq<char>, d: Seq<char>)
    ensures
        seq![a, b, c, d].flatten() =~= a + b + c + d,
{
    lemma_flatten_single(a);
    lemma_flatten_snoc(seq![a], b);
    assert(seq![a].push(b) =~= seq![a, b]);
    lemma_flatten_snoc(seq![a, b], c);
    assert(seq![a, b].push(c) =~= seq![a, b, c]);
    lemma_flatten_snoc(seq![a, b, c], d);
    assert(seq![a, b, c].push(d) =~= seq![a, b, c, d]);
}

/// Five pieces flatten to their concatenation.
pub proof fn lemma_flatten_five(a: Seq<char>, b: Seq<char>, c: Seq<char>, d: Seq<char>, e: Seq<char>)
    ensures
        seq![a, b, c, d, e].flatten() =~= a + b + c + d + e,
{
    lemma_flatten_single(a);
    lemma_flatten_snoc(seq![a], b);
    assert(seq![a].push(b) =~= seq![a, b]);
    lemma_flatten_snoc(seq![a, b], c);
    assert(seq![a, b].push(c) =~= seq![a, b, c]);
    lemma_flatten_snoc(seq![a, b, c], d);
    assert(seq![a, b, c].push(d) =~= seq![a, b, c, d]);
    lemma_flatten_snoc(seq![a, b, c, d], e);
    assert(seq![a, b, c, d].push(e) =~= seq![a, b, c, d, e]);
}

/// Concatenation of string pieces.
pub fn concat(parts: &Vec<&str>) -> (s: String)
    ensures
        s@ == parts@.map_values(|p: &str| p@).flatten(),
{
    let mut s = String::new();
    let ghost pv = parts@.map_values(|p: &str| p@);
    let mut i: usize = 0;
    proof {
        assert(pv.take(0) =~= Seq::<Seq<char>>::empty());
    }
    while i < parts.len()
        invariant
            0 <= i <= parts@.len(),
            pv == parts@.map_values(|p: &str| p@),
            s@ == pv.take(i as int).flatten(),
        decreases parts.len() - i,
    {
        s.append(parts[i]);
        proof {
            crate::view::lemma_flatten_push(pv.take(i as int), pv[i as int]);
            assert(pv.take(i as int + 1) =~= pv.take(i as int).push(pv[i as int]));
        }
        i += 1;
    }
    proof {
        assert(pv.take(parts@.len() as int) =~= pv);
    }
    s
}

/// Whether `c` is white space in Unicode's sense: the 25 code points of
/// the `White_Space` property, which `char::is_whitespace` tests.
pub open spec fn unicode_white_space(c: char) -> bool {
    let u = c as u32;
    ||| 0x09 <= u <= 0x0d
    ||| u == 0x20
    ||| u == 0x85
    ||| u == 0xa0
    ||| u == 0x1680
    ||| 0x2000 <= u <= 0x200a
    ||| u == 0x2028
    ||| u == 0x2029
    ||| u == 0x202f
    ||| u == 0x205f
    ||| u == 0x3000
}

fn is_white_space(c: char) -> (r: bool)
    ensures
        r == unicode_white_space(c),
{
    let u = c as u32;
    (0x09 <= u && u <= 0x0d) || u == 0x20 || u == 0x85 || u == 0xa0 || u == 0x1680 || (0x2000 <= u && u
        <= 0x200a) || u == 0x2028 || u == 0x2029 || u == 0x202f || u == 0x205f || u == 0x3000
}

/// Nothing is left of `s` once white space is trimmed.
pub open spec fn blank(s: Seq<char>) -> bool {
    forall|i: int| 0 <= i < s.len() ==> unicode_white_space(#[trigger] s[i])
}

pub fn is_blank(s: &str) -> (r: bool)
    ensures
        r == blank(s@),
{
    broadcast use vstd::string::axiom_spec_iter;
    let mut all = true;
    for c in iter: s.chars()
        invariant
            iter.seq() == s@,
            all == (forall|i: int| 0 <= i < iter.index() ==> unicode_white_space(#[trigger] s@[i])),
    {
        if !is_white_space(c) {
            all = false;
        }
    }
    all
}

/// Index of the first character of `s` that is not white space (or the
/// length when there is none).
pub open spec fn first_solid(s: Seq<char>) -> int
    decreases s.len(),
{
    if s.len() == 0 {
        0
    } else if unicode_white_space(s[0]) {
        1 + first_solid(s.drop_first())
    } else {
        0
    }
}

/// One past the last character of `s` that is not white space (or 0 when
/// there is none).
pub open spec fn end_solid(s: Seq<char>) -> int
    decreases s.len(),
{
    if s.len() == 0 {
        0
    } else if unicode_white_space(s.last()) {
        end_solid(s.drop_last())
    } else {
        s.len() as int
    }
}

/// `s` without its leading and trailing white space.
pub open spec fn trimmed(s: Seq<char>) -> Seq<char> {
    if first_solid(s) >= end_solid(s) {
        Seq::empty()
    } else {
        s.subrange(first_solid(s), end_solid(s))
    }
}

proof fn lemma_first_solid_range(s: Seq<char>)
    ensures
        0 <= first_solid(s) <= s.len(),
        forall|j: int| 0 <= j < first_solid(s) ==> unicode_white_space(#[trigger] s[j]),
        first_solid(s) < s.len() ==> !unicode_white_space(s[first_solid(s)]),
    decreases s.len(),
{
    if s.len() > 0 && unicode_white_space(s[0]) {
        lemma_first_solid_range(s.drop_first());
        assert forall|j: int| 0 <= j < first_solid(s) implies unicode_white_space(#[trigger] s[j]) by {
            if j > 0 {
                assert(s[j] == s.drop_first()[j - 1]);
            }
        }
    }
}

proof fn lemma_end_solid_range(s: Seq<char>)
    ensures
        0 <= end_solid(s) <= s.len(),
        forall|j: int| end_solid(s) <= j < s.len() ==> unicode_white_space(#[trigger] s[j]),
        end_solid(s) > 0 ==> !unicode_white_space(s[end_solid(s) - 1]),
    decreases s.len(),
{
    if s.len() > 0 && unicode_white_space(s.last()) {
        lemma_end_solid_range(s.drop_last());
        assert forall|j: int| end_solid(s) <= j < s.len() implies unicode_white_space(#[trigger] s[j]) by {
            if j < s.len() - 1 {
                assert(s[j] == s.drop_last()[j]);
            }
        }
    }
}

/// `str::trim`: `s` without leading and trailing white space.
pub fn trim_text(s: &str) -> (r: String)
    ensures
        r@ == trimmed(s@),
{
    broadcast use vstd::string::axiom_spec_iter;
    proof {
        lemma_first_solid_range(s@);
        lemma_end_solid_range(s@);
    }
    let ghost fs = first_solid(s@);
    let ghost es = end_solid(s@);
    let mut n: usize = 0;
    let mut start: usize = 0;
    let mut seen_solid = false;
    let mut end: usize = 0;
    let blen = s.as_bytes().len();
    proof {
        crate::mcp_dispatch::lemma_encode_len(s@);
    }
    for c in iter: s.chars()
        invariant
            n == iter.index(),
            iter.seq() == s@,
            s@.len() <= blen,
            n <= s@.len(),
            seen_solid ==> start < n && !unicode_white_space(s@[start as int]),
            !seen_solid ==> start == n,
            forall|j: int| 0 <= j < start ==> unicode_white_space(#[trigger] s@[j]),
            end <= n,
            seen_solid ==> start < end,
            !seen_solid ==> end == 0,
            forall|j: int| end <= j < n ==> unicode_white_space(#[trigger] s@[j]),
            end > 0 ==> !unicode_white_space(s@[end - 1]),
    {
        assert(n < s@.len());
        let w = is_white_space(c);
        if !w {
            if !seen_solid {
                seen_solid = true;
                start = n;
            }
            end = n + 1;
        } else if !seen_solid {
            start = n + 1;
        }
        n = n + 1;
    }
    proof {
        // `start` and `end` are where the first and the last solid
        // characters are.
        if fs < start {
            assert(unicode_white_space(s@[fs]));
        }
        if start < fs {
            assert(unicode_white_space(s@[start as int]));
        }
        if end < es {
            assert(unicode_white_space(s@[es - 1]));
        }
        if es < end {
            assert(unicode_white_space(s@[end - 1]));
        }
    }
    if !seen_solid {
        assert(trimmed(s@) =~= Seq::<char>::empty());
        return String::new();
    }
    let sub = vstd::string::StrSliceExecFns::substring_char(s, start, end);
    sub.to_owned()
}

} // verus!
