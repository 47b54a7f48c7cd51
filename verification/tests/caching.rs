use playlog::cache::{Cache, CacheKey, CacheValue};
use playlog::domain::{Log, Song};
use playlog::service::{
    get_current, get_plays, QueryError, CURRENT_TTL_SECONDS, PLAYS_TTL_SECONDS,
};
use playlog::store::Store;

fn song(id: i32, title: &str) -> Song {
    Song { id, title: title.to_string(), artist: format!("artist {}", id) }
}

fn log(id: i32, song: i32, date: i64, is_new: bool) -> Log {
    Log { id, song, date, is_new }
}

#[test]
fn plays_cache_round_trip() {
    // A second call within the TTL window returns the first call's result
    // unchanged, even though the store has become unreachable.
    let store = Store::new(vec![song(1, "one")], vec![log(1, 1, 10, true), log(2, 1, 30, false)]);
    let mut cache = Cache::new();
    let first = get_plays(&mut cache, Some(&store), 0, 1).unwrap().unwrap();
    let second = get_plays(&mut cache, None, PLAYS_TTL_SECONDS - 1, 1).unwrap().unwrap();
    assert_eq!(second.song.id, first.song.id);
    assert_eq!(second.song.title, first.song.title);
    assert_eq!(second.plays, first.plays);
    assert_eq!(second.dates, first.dates);
}

#[test]
fn plays_cache_expiry() {
    // Once the TTL has elapsed, a store change is reflected on the next call.
    let old_store = Store::new(vec![song(1, "one")], vec![log(1, 1, 10, true)]);
    let mut cache = Cache::new();
    let first = get_plays(&mut cache, Some(&old_store), 0, 1).unwrap().unwrap();
    assert_eq!(first.plays, 1);

    let new_store =
        Store::new(vec![song(1, "one")], vec![log(1, 1, 10, true), log(2, 1, 40, false)]);
    // Within the window the stale value is still served...
    let stale = get_plays(&mut cache, Some(&new_store), PLAYS_TTL_SECONDS - 1, 1).unwrap().unwrap();
    assert_eq!(stale.plays, 1);
    // ...and from the expiry time on, the store is consulted again.
    let fresh = get_plays(&mut cache, Some(&new_store), PLAYS_TTL_SECONDS, 1).unwrap().unwrap();
    assert_eq!(fresh.plays, 2);
    assert_eq!(fresh.dates, vec![(40, false), (10, true)]);
}

#[test]
fn current_cache_round_trip() {
    let store = Store::new(vec![song(1, "one")], vec![log(1, 1, 25, true)]);
    let mut cache = Cache::new();
    let first = get_current(&mut cache, Some(&store), 0).unwrap().unwrap();
    let second = get_current(&mut cache, None, CURRENT_TTL_SECONDS - 1).unwrap().unwrap();
    assert_eq!(second.date, first.date);
    assert_eq!(second.song.id, first.song.id);
    assert_eq!(second.is_new, first.is_new);
}

#[test]
fn current_cache_expires() {
    let store = Store::new(vec![song(1, "one")], vec![log(1, 1, 25, true)]);
    let mut cache = Cache::new();
    get_current(&mut cache, Some(&store), 0).unwrap();
    // At the expiry time the entry is gone; with no store to fall back on,
    // the miss surfaces as an error.
    assert!(matches!(
        get_current(&mut cache, None, CURRENT_TTL_SECONDS),
        Err(QueryError::StoreUnreachable)
    ));
}

#[test]
fn current_none_is_cached_too() {
    // "Nothing was ever played" is itself a cacheable answer.
    let store = Store::new(vec![song(1, "one")], vec![]);
    let mut cache = Cache::new();
    assert!(get_current(&mut cache, Some(&store), 0).unwrap().is_none());
    assert!(get_current(&mut cache, None, 1).unwrap().is_none());
}

#[test]
fn ill_typed_cache_entry_is_a_miss() {
    // A value of the wrong shape under a key is fail-open: the store is
    // consulted as if nothing were cached.
    let store = Store::new(vec![song(1, "one")], vec![log(1, 1, 10, true)]);
    let mut cache = Cache::new();
    cache.set(CacheKey::Plays(1), CacheValue::CurrentValue(None), PLAYS_TTL_SECONDS, 0);
    let p = get_plays(&mut cache, Some(&store), 0, 1).unwrap().unwrap();
    assert_eq!(p.plays, 1);
}

#[test]
fn cache_last_write_wins() {
    let mut cache = Cache::new();
    cache.set(CacheKey::Current, CacheValue::CurrentValue(None), 60, 0);
    cache.set(CacheKey::Plays(4), CacheValue::PlaysValue(None), 300, 0);
    match cache.get(CacheKey::Plays(4), 10) {
        Some(CacheValue::PlaysValue(None)) => {},
        _ => panic!("expected the per-song entry"),
    }
    match cache.get(CacheKey::Current, 10) {
        Some(CacheValue::CurrentValue(None)) => {},
        _ => panic!("expected the current entry"),
    }
    assert!(cache.get(CacheKey::Plays(4), 300).is_none());
}
