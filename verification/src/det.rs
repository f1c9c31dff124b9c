//! The sources of nondeterminism the server reads: the clock, random
//! numbers and fresh identifiers, each behind a trait so that a test can
//! put a fixed source in its place.

use vstd::prelude::*;
use std::sync::Arc;
use rand::TryRng;

verus! {

/// The wall clock.
pub trait Clock: Send + Sync {
    /// Seconds since the Unix epoch.
    fn now_unix(&self) -> i64;
}

/// A source of random numbers. `None` when no randomness could be had.
pub trait Randomness: Send + Sync {
    fn next_u32(&self) -> Option<u32>;
}

/// A source of fresh identifiers. `None` when no identifier could be made.
pub trait UuidGen: Send + Sync {
    fn new(&self) -> Option<String>;
}

/// `SystemTime::now().duration_since(UNIX_EPOCH)`, in whole seconds:
/// `Ok` with the seconds elapsed since the epoch, or `Err` with the seconds
/// by which the clock reads earlier than the epoch (the error's
/// `duration()`). Nothing is promised of the value.
#[verifier::external_body]
fn system_time_since_epoch() -> Result<u64, u64> {
    match std::time::SystemTime::now().duration_since(std::time::SystemTime::UNIX_EPOCH) {
        Ok(d) => Ok(d.as_secs()),
        Err(e) => Err(e.duration().as_secs()),
    }
}

/// `rand::rngs::SysRng.try_next_u32()`: a value from the operating
/// system's generator, `None` when the generator reports an error.
/// Nothing is promised of the value.
#[verifier::external_body]
fn os_random_u32() -> Option<u32> {
    rand::rngs::SysRng.try_next_u32().ok()
}

/// `rand::rngs::SysRng.try_fill_bytes(..)` on sixteen bytes: the bytes
/// that the operating system's generator wrote, `None` when it reports an
/// error. Nothing is promised of the bytes.
#[verifier::external_body]
fn os_random_bytes() -> Option<[u8; 16]> {
    let mut bytes = [0u8; 16];
    match rand::rngs::SysRng.try_fill_bytes(&mut bytes) {
        Ok(()) => Some(bytes),
        Err(_) => None,
    }
}

/// Signed whole seconds since the Unix epoch from the outcome of
/// `duration_since`: the elapsed seconds, or minus the seconds by which the
/// clock reads earlier than the epoch, held to the range of `i64`.
pub fn unix_seconds(since_epoch: Result<u64, u64>) -> (r: i64)
    ensures
        match since_epoch {
            Ok(s) => r == if s <= i64::MAX { s as int } else { i64::MAX as int },
            Err(s) => r == if s <= i64::MAX { -s } else { i64::MIN as int },
        },
{
    match since_epoch {
        Ok(s) => if s <= 0x7fff_ffff_ffff_ffffu64 {
            s as i64
        } else {
            i64::MAX
        },
        Err(s) => if s <= 0x7fff_ffff_ffff_ffffu64 {
            -(s as i64)
        } else {
            i64::MIN
        },
    }
}

pub open spec fn lower_hex_digit(c: char) -> bool {
    ('0' <= c && c <= '9') || ('a' <= c && c <= 'f')
}

/// The hyphenated lowercase text of a version-4 UUID: 36 characters,
/// groups of 8, 4, 4, 4 and 12 hexadecimal digits separated by `-`, the
/// version digit `4` opening the third group and the RFC 4122 variant
/// (`8`, `9`, `a` or `b`) opening the fourth.
pub open spec fn v4_uuid_text(s: Seq<char>) -> bool {
    &&& s.len() == 36
    &&& forall|i: int|
        0 <= i < 36 ==> if i == 8 || i == 13 || i == 18 || i == 23 {
            s[i] == '-'
        } else {
            lower_hex_digit(#[trigger] s[i])
        }
    &&& s[14] == '4'
    &&& (s[19] == '8' || s[19] == '9' || s[19] == 'a' || s[19] == 'b')
}

/// The lowercase hexadecimal digit of `n`, for `0 <= n < 16`.
pub open spec fn hex_digit(n: int) -> char {
    if n == 0 { '0' } else if n == 1 { '1' } else if n == 2 { '2' } else if n == 3 { '3' }
    else if n == 4 { '4' } else if n == 5 { '5' } else if n == 6 { '6' } else if n == 7 { '7' }
    else if n == 8 { '8' } else if n == 9 { '9' } else if n == 10 { 'a' } else if n == 11 { 'b' }
    else if n == 12 { 'c' } else if n == 13 { 'd' } else if n == 14 { 'e' } else { 'f' }
}

/// How many of the hyphens at 8, 13, 18 and 23 stand before position `p`
/// of the hyphenated text.
pub open spec fn hyphens_before(p: int) -> int {
    if p < 8 { 0 } else if p < 13 { 1 } else if p < 18 { 2 } else if p < 23 { 3 } else { 4 }
}

/// The hyphenated lowercase text of sixteen bytes: two hexadecimal digits
/// per byte, high nibble first, with `-` after the 4th, 6th, 8th and 10th
/// byte.
pub open spec fn uuid_hyphenated(b: Seq<u8>) -> Seq<char> {
    Seq::new(
        36,
        |p: int|
            if p == 8 || p == 13 || p == 18 || p == 23 {
                '-'
            } else {
                let q = p - hyphens_before(p);
                hex_digit(if q % 2 == 0 { b[q / 2] / 16 } else { b[q / 2] % 16 } as int)
            },
    )
}

/// Random bytes made into a version-4 UUID: the high nibble of byte 6 set
/// to the version 4, the two high bits of byte 8 to the RFC 4122 variant.
pub open spec fn v4_bytes(b: Seq<u8>) -> Seq<u8> {
    b.update(6, (b[6] & 0x0f) | 0x40).update(8, (b[8] & 0x3f) | 0x80)
}

/// `uuid::Builder::from_random_bytes(bytes).into_uuid()`, written by
/// `Display`: the bytes with the version and variant bits set
/// (`with_variant(RFC4122)`, `with_version(Random)`), in the hyphenated
/// lowercase form.
#[verifier::external_body]
fn uuid_text_of_random_bytes(bytes: [u8; 16]) -> (s: String)
    ensures
        s@ == uuid_hyphenated(v4_bytes(bytes@)),
{
    uuid::Builder::from_random_bytes(bytes).into_uuid().to_string()
}

proof fn lemma_hex_digit(n: int)
    requires
        0 <= n < 16,
    ensures
        lower_hex_digit(hex_digit(n)),
{
}

/// The text of sixteen random bytes made into a version-4 UUID.
pub fn uuid_v4_from_random_bytes(bytes: [u8; 16]) -> (s: String)
    ensures
        s@ == uuid_hyphenated(v4_bytes(bytes@)),
        v4_uuid_text(s@),
{
    let s = uuid_text_of_random_bytes(bytes);
    proof {
        let b = v4_bytes(bytes@);
        let x6 = bytes@[6];
        let x8 = bytes@[8];
        assert(((x6 & 0x0f) | 0x40) / 16 == 4) by (bit_vector);
        assert(8 <= ((x8 & 0x3f) | 0x80) / 16 <= 11) by (bit_vector);
        assert forall|i: int|
            0 <= i < 36 && !(i == 8 || i == 13 || i == 18 || i == 23) implies lower_hex_digit(
            #[trigger] s@[i],
        ) by {
            let q = i - hyphens_before(i);
            assert(0 <= q / 2 < 16);
            let v: u8 = b[q / 2];
            assert(v / 16 < 16 && v % 16 < 16) by (bit_vector);
            lemma_hex_digit(if q % 2 == 0 { v / 16 } else { v % 16 } as int);
        }
    }
    s
}

/// The system clock.
pub struct ProdClock;

impl Clock for ProdClock {
    fn now_unix(&self) -> i64 {
        unix_seconds(system_time_since_epoch())
    }
}

/// The operating system's random generator.
pub struct ProdRandom;

impl Randomness for ProdRandom {
    fn next_u32(&self) -> Option<u32> {
        os_random_u32()
    }
}

/// Random version-4 UUIDs.
pub struct ProdUuid;

impl UuidGen for ProdUuid {
    fn new(&self) -> (r: Option<String>)
        ensures
            r matches Some(s) ==> v4_uuid_text(s@),
    {
        match os_random_bytes() {
            Some(bytes) => Some(uuid_v4_from_random_bytes(bytes)),
            None => None,
        }
    }
}

/// The three sources together, each shared.
pub struct DetCtx<C: Clock, R: Randomness, U: UuidGen> {
    pub clock: Arc<C>,
    pub random: Arc<R>,
    pub uuid: Arc<U>,
}

impl<C: Clock, R: Randomness, U: UuidGen> Clone for DetCtx<C, R, U> {
    fn clone(&self) -> (r: Self)
        ensures
            r == *self,
    {
        DetCtx { clock: self.clock.clone(), random: self.random.clone(), uuid: self.uuid.clone() }
    }
}

impl DetCtx<ProdClock, ProdRandom, ProdUuid> {
    /// The production sources: system clock, the operating system's
    /// generator, v4 UUIDs.
    pub fn prod() -> (c: Self)
        ensures
            *c.clock == ProdClock,
            *c.random == ProdRandom,
            *c.uuid == ProdUuid,
    {
        DetCtx { clock: Arc::new(ProdClock), random: Arc::new(ProdRandom), uuid: Arc::new(ProdUuid) }
    }
}

} // verus!
