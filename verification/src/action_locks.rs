//! Soft locks on destructive operator actions: a lock key is held by one
//! operator until its expiry. Storage enforces that a key is held once;
//! this module computes the expiry and the holder records it reports.

use vstd::prelude::*;

verus! {

#[verifier::external_type_specification]
#[verifier::external_body]
pub struct ExSqlxError(sqlx::Error);

/// How long a lock lasts unless released, in seconds.
pub const DEFAULT_TTL_SECS: i64 = 30;

/// The holder of a lock that could not be taken.
#[derive(Debug, Clone)]
pub struct LockConflict {
    pub lock_key: String,
    pub operator_id: String,
    pub operator_name: String,
    pub expires_at: i64,
}

/// A held lock.
#[derive(Debug, Clone)]
pub struct LockInfo {
    pub lock_key: String,
    pub operator_id: String,
    pub operator_name: String,
    pub expires_at: i64,
}

/// Why a lock could not be taken.
#[derive(Debug)]
pub enum AcquireError {
    Conflict(LockConflict),
    Sql(sqlx::Error),
}

/// When a lock taken at `now` for `ttl_secs` expires.
pub fn lock_expiry(now: i64, ttl_secs: i64) -> (e: i64)
    requires
        i64::MIN <= now + ttl_secs <= i64::MAX,
    ensures
        e == now + ttl_secs,
{
    now + ttl_secs
}

/// A lock taken by `operator_id`, reported under the operator's name when
/// the operator is known and under the id otherwise.
pub fn acquired(lock_key: &str, operator_id: &str, operator_name: Option<String>, expires_at: i64) -> (l:
    LockInfo)
    ensures
        l.lock_key@ == lock_key@,
        l.operator_id@ == operator_id@,
        l.operator_name@ == match operator_name {
            Some(n) => n@,
            None => operator_id@,
        },
        l.expires_at == expires_at,
{
    let name = match operator_name {
        Some(n) => n,
        None => operator_id.to_owned(),
    };
    LockInfo { lock_key: lock_key.to_owned(), operator_id: operator_id.to_owned(), operator_name: name, expires_at }
}

/// The conflict reported when `lock_key` is already held: the holder's id,
/// name and expiry as read back, or `?`, `?` and 0 when the holder let go
/// between the failed insert and the read.
pub fn conflict(lock_key: &str, holder: Option<(String, String, i64)>) -> (c: LockConflict)
    ensures
        c.lock_key@ == lock_key@,
        match holder {
            Some(h) => c.operator_id@ == h.0@ && c.operator_name@ == h.1@ && c.expires_at == h.2,
            None => c.operator_id@ == "?"@ && c.operator_name@ == "?"@ && c.expires_at == 0,
        },
{
    match holder {
        Some((op_id, name, exp)) => LockConflict {
            lock_key: lock_key.to_owned(),
            operator_id: op_id,
            operator_name: name,
            expires_at: exp,
        },
        None => LockConflict {
            lock_key: lock_key.to_owned(),
            operator_id: "?".to_owned(),
            operator_name: "?".to_owned(),
            expires_at: 0,
        },
    }
}

} // verus!
