//! A key/value cache with per-entry expiry times. It is a read-through
//! layer: entries are derived data, and a missing, expired, or ill-typed
//! entry only sends the caller back to the store.
//!
//! Writes append; a lookup takes the most recent write of a key, so the
//! observable behaviour is last-write-wins.

use vstd::prelude::*;
use crate::domain::{JoinResult, PlayResult};

verus! {

/// The keys the query layer uses: the current play, or the plays of one
/// song.
#[derive(Clone, Copy, PartialEq, Eq, Structural)]
pub enum CacheKey {
    Current,
    Plays(i32),
}

/// A cached answer: either kind of query result, each with its explicit
/// "no value" state, so that "nothing is playing" is itself cacheable.
pub enum CacheValue {
    CurrentValue(Option<JoinResult>),
    PlaysValue(Option<PlayResult>),
}

impl Clone for CacheValue {
    fn clone(&self) -> (r: Self)
        ensures
            cache_value_like(*self, r),
    {
        match self {
            CacheValue::CurrentValue(v) => CacheValue::CurrentValue(
                match v {
                    Some(j) => Some(j.clone()),
                    None => None,
                },
            ),
            CacheValue::PlaysValue(v) => CacheValue::PlaysValue(
                match v {
                    Some(p) => Some(p.clone()),
                    None => None,
                },
            ),
        }
    }
}

/// Whether two cached answers carry the same contents. A cloned
/// `PlayResult` keeps its fields but need not be the identical vector
/// value, so clones are compared this way.
pub open spec fn cache_value_like(a: CacheValue, b: CacheValue) -> bool {
    match (a, b) {
        (CacheValue::CurrentValue(x), CacheValue::CurrentValue(y)) => x == y,
        (CacheValue::PlaysValue(Some(p)), CacheValue::PlaysValue(Some(q))) => {
            &&& p.song == q.song
            &&& p.plays == q.plays
            &&& p.dates@ == q.dates@
        },
        (CacheValue::PlaysValue(None), CacheValue::PlaysValue(None)) => true,
        _ => false,
    }
}

/// One cache entry: key, value, and the time at which it expires.
pub struct CacheEntry {
    pub key: CacheKey,
    pub value: CacheValue,
    pub expires_at: i64,
}

/// The cache itself: the sequence of writes, most recent last.
pub struct Cache {
    pub entries: Vec<CacheEntry>,
}

/// The most recent entry written under a key, scanning from the back.
pub open spec fn find_entry(s: Seq<CacheEntry>, key: CacheKey) -> Option<CacheEntry>
    decreases s.len(),
{
    if s.len() == 0 {
        None
    } else if s.last().key == key {
        Some(s.last())
    } else {
        find_entry(s.drop_last(), key)
    }
}

/// If no entry at index `i` or later matches, the most recent match among
/// the first `i` entries is the overall result.
proof fn lemma_find_entry_take(s: Seq<CacheEntry>, key: CacheKey, i: int)
    requires
        0 <= i <= s.len(),
        forall|k: int| i <= k < s.len() ==> s[k].key != key,
    ensures
        find_entry(s, key) == find_entry(s.take(i), key),
    decreases s.len(),
{
    if i < s.len() {
        assert(s.last().key != key);
        lemma_find_entry_take(s.drop_last(), key, i);
        assert(s.drop_last().take(i) =~= s.take(i));
    } else {
        assert(s.take(i) =~= s);
    }
}

impl Cache {
    /// What a lookup of `key` at time `now` yields: the value most recently
    /// written under the key, unless that write has expired.
    pub open spec fn spec_lookup(self, key: CacheKey, now: i64) -> Option<CacheValue> {
        match find_entry(self.entries@, key) {
            Some(e) => if now < e.expires_at {
                Some(e.value)
            } else {
                None
            },
            None => None,
        }
    }

    /// An empty cache: every lookup misses.
    pub fn new() -> (r: Cache)
        ensures
            r.entries@.len() == 0,
            forall|key: CacheKey, now: i64| r.spec_lookup(key, now) == None::<CacheValue>,
    {
        Cache { entries: Vec::new() }
    }

    /// Looks a key up at time `now`; a hit returns a copy of the cached
    /// value.
    pub fn get(&self, key: CacheKey, now: i64) -> (r: Option<CacheValue>)
        ensures
            r.is_some() == self.spec_lookup(key, now).is_some(),
            r matches Some(v) ==> cache_value_like(self.spec_lookup(key, now).unwrap(), v),
    {
        let mut i: usize = self.entries.len();
        while i > 0
            invariant
                i <= self.entries@.len(),
                forall|k: int| i <= k < self.entries@.len() ==> self.entries@[k].key != key,
            decreases i,
        {
            i = i - 1;
            if self.entries[i].key == key {
                proof {
                    lemma_find_entry_take(self.entries@, key, i + 1);
                    assert(self.entries@.take(i + 1).last() == self.entries@[i as int]);
                }
                if now < self.entries[i].expires_at {
                    return Some(self.entries[i].value.clone());
                } else {
                    return None;
                }
            }
        }
        proof {
            lemma_find_entry_take(self.entries@, key, 0);
            assert(self.entries@.take(0).len() == 0);
        }
        None
    }

    /// Writes `value` under `key` at time `now`, to expire `ttl_seconds`
    /// later. Lookups of this key then hit exactly until the expiry time;
    /// other keys are untouched.
    pub fn set(&mut self, key: CacheKey, value: CacheValue, ttl_seconds: i64, now: i64)
        requires
            0 <= ttl_seconds,
            now <= i64::MAX - ttl_seconds,
        ensures
            find_entry(final(self).entries@, key) == Some(
                CacheEntry { key, value, expires_at: (now + ttl_seconds) as i64 },
            ),
            forall|t: i64|
                final(self).spec_lookup(key, t) == if t < now + ttl_seconds {
                    Some(value)
                } else {
                    None::<CacheValue>
                },
            forall|k: CacheKey|
                k != key ==> find_entry(final(self).entries@, k) == find_entry(
                    old(self).entries@,
                    k,
                ),
            forall|k: CacheKey, t: i64|
                k != key ==> final(self).spec_lookup(k, t) == old(self).spec_lookup(k, t),
    {
        let e = CacheEntry { key, value, expires_at: now + ttl_seconds };
        self.entries.push(e);
        proof {
            assert(self.entries@.drop_last() =~= old(self).entries@);
        }
    }
}

} // verus!
