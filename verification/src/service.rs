//! The query service: for each of the query shapes it looks the cache up,
//! falls back to the store on a miss, transforms the rows, repopulates the
//! cache, and returns the derived view. The store is handed in as
//! `Option<&Store>`: `None` is a store that is unreachable at call time,
//! which is reported as an explicit error, never as an empty answer.

use vstd::prelude::*;
use crate::domain::{Song, Log, JoinResult, PlayResult};
use crate::store::{Store, find_song, has_song, dates_of, joined_pairs, lemma_find_song_unique};
use crate::cache::{Cache, CacheKey, CacheValue, CacheEntry, find_entry, cache_value_like};
use crate::aggregate::{
    convert_to_join_result, sort_joins_desc, sort_play_results, build_play_result,
    lemma_map_values_multiset, join_of_row, joins_sorted_desc, plays_sorted,
};

verus! {

broadcast use vstd::seq_lib::group_to_multiset_ensures;

/// How long a cached "current" answer lives, in seconds.
pub const CURRENT_TTL_SECONDS: i64 = 60;

/// How long a cached per-song answer lives, in seconds.
pub const PLAYS_TTL_SECONDS: i64 = 300;

/// The failures a query reports. An unreachable store is an explicit
/// error, kept distinct from "no rows exist".
#[derive(Clone, Copy, PartialEq, Eq, Structural, Debug)]
pub enum QueryError {
    StoreUnreachable,
}

/// The inner join of every log with its song, in log order.
pub open spec fn all_joined(logs: Seq<Log>, songs: Seq<Song>) -> Seq<JoinResult> {
    joined_pairs(logs, songs).map_values(|row: (Log, Song)| join_of_row(row))
}

/// `j` is the view of log `l` joined with the song it references.
pub open spec fn joins_log(j: JoinResult, l: Log, songs: Seq<Song>) -> bool {
    &&& j.date == l.date
    &&& j.is_new == l.is_new
    &&& find_song(songs, l.song) == Some(j.song)
}

/// `j` is built from a log with the globally maximum date.
pub open spec fn is_current_of(j: JoinResult, st: Store) -> bool {
    &&& exists|k: int| 0 <= k < st.logs@.len() && joins_log(j, st.logs@[k], st.songs@)
    &&& forall|k: int| 0 <= k < st.logs@.len() ==> st.logs@[k].date <= j.date
}

/// A fresh, well-typed cached answer for the "current" key.
pub open spec fn current_hit(c: Cache, now: i64) -> bool {
    c.spec_lookup(CacheKey::Current, now) matches Some(CacheValue::CurrentValue(_))
}

/// A fresh, well-typed cached answer for one song's plays.
pub open spec fn plays_hit(c: Cache, sid: i32, now: i64) -> bool {
    c.spec_lookup(CacheKey::Plays(sid), now) matches Some(CacheValue::PlaysValue(_))
}

/// One leaderboard entry is the well-formed aggregate of one stored song:
/// the entry's song is the stored song with that identifier, and the play
/// count and history are exactly that song's logs.
pub open spec fn play_entry_of(p: PlayResult, st: Store) -> bool {
    &&& p.wf()
    &&& find_song(st.songs@, p.song.id) == Some(p.song)
    &&& p.plays == dates_of(st.logs@, p.song.id).len()
    &&& p.dates@.to_multiset() == dates_of(st.logs@, p.song.id).to_multiset()
}

/// Every song the store holds, in stored order.
pub fn get_all_songs(store: Option<&Store>) -> (r: Result<Vec<Song>, QueryError>)
    ensures
        store matches Some(st) ==> (r matches Ok(v) && v@ == st.songs@),
        store is None ==> r == Err::<Vec<Song>, QueryError>(QueryError::StoreUnreachable),
{
    match store {
        Some(st) => Ok(st.all_songs()),
        None => Err(QueryError::StoreUnreachable),
    }
}

/// Every play joined with its song, most recent first.
pub fn get_all_logs(store: Option<&Store>) -> (r: Result<Vec<JoinResult>, QueryError>)
    requires
        store matches Some(st) ==> st.wf(),
    ensures
        store matches Some(st) ==> (r matches Ok(v) && joins_sorted_desc(v@) && v@.to_multiset()
            == all_joined(st.logs@, st.songs@).to_multiset() && v@.len() == st.logs@.len()),
        store is None ==> r == Err::<Vec<JoinResult>, QueryError>(QueryError::StoreUnreachable),
{
    match store {
        Some(st) => {
            let rows = st.all_logs_joined();
            let joins = convert_to_join_result(rows);
            let sorted = sort_joins_desc(joins);
            Ok(sorted)
        },
        None => Err(QueryError::StoreUnreachable),
    }
}

/// The most recently played song, as a read-through query on the
/// `"current"` key:
/// - a fresh, well-typed cache entry is returned as it is, the cache
///   untouched;
/// - anything else (no entry, an expired one, or one of the wrong shape)
///   is a miss: the store answers, and the answer — including the
///   "nothing was ever played" case — is cached for `CURRENT_TTL_SECONDS`.
pub fn get_current(cache: &mut Cache, store: Option<&Store>, now: i64) -> (r: Result<
    Option<JoinResult>,
    QueryError,
>)
    requires
        store matches Some(st) ==> st.wf(),
        now <= i64::MAX - CURRENT_TTL_SECONDS,
    ensures
        current_hit(*old(cache), now) ==> (r matches Ok(v) && *final(cache) == *old(cache) && old(
            cache,
        ).spec_lookup(CacheKey::Current, now) == Some(CacheValue::CurrentValue(v))),
        store is None && !current_hit(*old(cache), now) ==> (*final(cache) == *old(cache) && r
            == Err::<Option<JoinResult>, QueryError>(QueryError::StoreUnreachable)),
        store matches Some(st) ==> !current_hit(*old(cache), now) ==> (r matches Ok(cur) && (
        cur is Some <==> st.logs@.len() > 0) && (cur matches Some(j) ==> is_current_of(j, *st))
            && find_entry(final(cache).entries@, CacheKey::Current) == Some(
            (CacheEntry {
                key: CacheKey::Current,
                value: CacheValue::CurrentValue(cur),
                expires_at: (now + CURRENT_TTL_SECONDS) as i64,
            }),
        ) && (forall|k: CacheKey|
            k != CacheKey::Current ==> find_entry(final(cache).entries@, k) == find_entry(
                old(cache).entries@,
                k,
            ))),
{
    let cached = cache.get(CacheKey::Current, now);
    match cached {
        Some(CacheValue::CurrentValue(v)) => {
            return Ok(v);
        },
        _ => {},
    }
    match store {
        None => Err(QueryError::StoreUnreachable),
        Some(st) => {
            let current = match st.most_recent() {
                Some((l, song)) => {
                    let j = JoinResult { date: l.date, song, is_new: l.is_new };
                    proof {
                        let k = choose|k: int| 0 <= k < st.logs@.len() && st.logs@[k] == l;
                        assert(joins_log(j, st.logs@[k], st.songs@));
                    }
                    Some(j)
                },
                None => None,
            };
            let copy = match &current {
                Some(j) => Some(j.clone()),
                None => None,
            };
            cache.set(CacheKey::Current, CacheValue::CurrentValue(copy), CURRENT_TTL_SECONDS, now);
            Ok(current)
        },
    }
}

/// The global leaderboard: one entry per stored song, with its full play
/// history, ranked by play count (ties broken by ascending song
/// identifier). Recomputed from the store on every call, never cached. A
/// song with no plays stays on the board with a count of zero and an
/// empty history.
pub fn get_all_plays(store: Option<&Store>) -> (r: Result<Vec<PlayResult>, QueryError>)
    requires
        store matches Some(st) ==> st.wf(),
    ensures
        store is None ==> r == Err::<Vec<PlayResult>, QueryError>(QueryError::StoreUnreachable),
        store matches Some(st) ==> (r matches Ok(v) && plays_sorted(v@) && v@.len()
            == st.songs@.len() && v@.map_values(|p: PlayResult| p.song).to_multiset()
            == st.songs@.to_multiset() && (forall|k: int|
            0 <= k < v@.len() ==> play_entry_of(#[trigger] v@[k], *st))),
{
    match store {
        None => Err(QueryError::StoreUnreachable),
        Some(st) => {
            let mut results: Vec<PlayResult> = Vec::new();
            let mut i: usize = 0;
            while i < st.songs.len()
                invariant
                    st.wf(),
                    i <= st.songs@.len(),
                    results@.len() == i,
                    forall|k: int| 0 <= k < i ==> play_entry_of(#[trigger] results@[k], *st),
                    forall|k: int| 0 <= k < i ==> #[trigger] results@[k].song == st.songs@[k],
                decreases st.songs@.len() - i,
            {
                let song = st.songs[i].clone();
                let dates = st.dates_for(song.id);
                let p = build_play_result(song, dates);
                results.push(p);
                proof {
                    lemma_find_song_unique(st.songs@, i as int);
                }
                i += 1;
            }
            proof {
                assert(results@.map_values(|p: PlayResult| p.song) =~= st.songs@);
            }
            let sorted = sort_play_results(results);
            proof {
                lemma_map_values_multiset(sorted@, results@, |p: PlayResult| p.song);
                assert forall|k: int| 0 <= k < sorted@.len() implies play_entry_of(
                    #[trigger] sorted@[k],
                    *st,
                ) by {
                    assert(sorted@.contains(sorted@[k]));
                    assert(sorted@.to_multiset().count(sorted@[k]) > 0);
                    assert(results@.to_multiset().count(sorted@[k]) > 0);
                    assert(results@.contains(sorted@[k]));
                    let idx = choose|idx: int|
                        0 <= idx < results@.len() && results@[idx] == sorted@[k];
                    assert(play_entry_of(results@[idx], *st));
                }
            }
            Ok(sorted)
        },
    }
}

/// The play history of one song, as a read-through query on that song's
/// key:
/// - a fresh, well-typed cache entry is returned as it is, the cache
///   untouched;
/// - on a miss the store answers: an unknown song identifier yields `None`
///   (nothing is fabricated and nothing cached); otherwise the aggregate
///   is built, cached for `PLAYS_TTL_SECONDS`, and returned.
pub fn get_plays(cache: &mut Cache, store: Option<&Store>, now: i64, song_id: i32) -> (r: Result<
    Option<PlayResult>,
    QueryError,
>)
    requires
        store matches Some(st) ==> st.wf(),
        now <= i64::MAX - PLAYS_TTL_SECONDS,
    ensures
        plays_hit(*old(cache), song_id, now) ==> (r matches Ok(v) && *final(cache) == *old(cache)
            && (old(cache).spec_lookup(CacheKey::Plays(song_id), now) matches Some(cv)
            && cache_value_like(cv, CacheValue::PlaysValue(v)))),
        store is None && !plays_hit(*old(cache), song_id, now) ==> (*final(cache) == *old(cache)
            && r == Err::<Option<PlayResult>, QueryError>(QueryError::StoreUnreachable)),
        store matches Some(st) ==> !plays_hit(*old(cache), song_id, now) ==> !has_song(
            st.songs@,
            song_id,
        ) ==> (r matches Ok(v) && v is None && *final(cache) == *old(cache)),
        store matches Some(st) ==> !plays_hit(*old(cache), song_id, now) ==> has_song(
            st.songs@,
            song_id,
        ) ==> (r matches Ok(v) && (v matches Some(p) && play_entry_of(p, *st) && p.song.id
            == song_id && (find_entry(final(cache).entries@, CacheKey::Plays(song_id)) matches Some(
            e,
        ) && e.expires_at == now + PLAYS_TTL_SECONDS && cache_value_like(
            e.value,
            CacheValue::PlaysValue(Some(p)),
        )) && (forall|k: CacheKey|
            k != CacheKey::Plays(song_id) ==> find_entry(final(cache).entries@, k) == find_entry(
                old(cache).entries@,
                k,
            )))),
{
    let cached = cache.get(CacheKey::Plays(song_id), now);
    match cached {
        Some(CacheValue::PlaysValue(v)) => {
            return Ok(v);
        },
        _ => {},
    }
    match store {
        None => Err(QueryError::StoreUnreachable),
        Some(st) => {
            let dates = st.dates_for(song_id);
            match st.song_by_id(song_id) {
                None => Ok(None),
                Some(song) => {
                    let p = build_play_result(song, dates);
                    let copy = p.clone();
                    cache.set(
                        CacheKey::Plays(song_id),
                        CacheValue::PlaysValue(Some(copy)),
                        PLAYS_TTL_SECONDS,
                        now,
                    );
                    Ok(Some(p))
                },
            }
        },
    }
}

/// Law (cache round trip): the cache a populating `get_plays` at time
/// `now` leaves behind still answers at any later time `t` within the TTL
/// window — a `get_plays` at `t` therefore hits, returns the first call's
/// result unchanged, and never touches the store, reachable or not.
pub proof fn lemma_plays_round_trip(c: Cache, song_id: i32, p: PlayResult, now: i64, t: i64)
    requires
        find_entry(c.entries@, CacheKey::Plays(song_id)) matches Some(e) && e.expires_at == now
            + PLAYS_TTL_SECONDS && cache_value_like(e.value, CacheValue::PlaysValue(Some(p))),
        t < now + PLAYS_TTL_SECONDS,
    ensures
        plays_hit(c, song_id, t),
        cache_value_like(
            c.spec_lookup(CacheKey::Plays(song_id), t).unwrap(),
            CacheValue::PlaysValue(Some(p)),
        ),
{
}

/// Law (cache expiry): once the TTL window has elapsed the cached answer
/// is gone — a `get_plays` then misses and recomputes from the store, so
/// a changed store value is reflected.
pub proof fn lemma_plays_cache_expiry(c: Cache, song_id: i32, now: i64, t: i64)
    requires
        find_entry(c.entries@, CacheKey::Plays(song_id)) matches Some(e) && e.expires_at == now
            + PLAYS_TTL_SECONDS,
        t >= now + PLAYS_TTL_SECONDS,
    ensures
        !plays_hit(c, song_id, t),
        c.spec_lookup(CacheKey::Plays(song_id), t) is None,
{
}

} // verus!
