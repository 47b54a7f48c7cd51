use playlog::cache::Cache;
use playlog::domain::{Log, Song};
use playlog::service::{
    get_all_logs, get_all_plays, get_all_songs, get_current, get_plays, QueryError,
};
use playlog::store::Store;

fn song(id: i32, title: &str) -> Song {
    Song { id, title: title.to_string(), artist: format!("artist {}", id) }
}

fn log(id: i32, song: i32, date: i64, is_new: bool) -> Log {
    Log { id, song, date, is_new }
}

#[test]
fn all_songs_passthrough() {
    let store = Store::new(vec![song(1, "one"), song(2, "two")], vec![]);
    let songs = get_all_songs(Some(&store)).unwrap();
    assert_eq!(songs.len(), 2);
    assert_eq!(songs[0].id, 1);
    assert_eq!(songs[0].title, "one");
    assert_eq!(songs[1].id, 2);
    assert_eq!(songs[1].title, "two");
}

#[test]
fn all_songs_store_unreachable() {
    assert!(matches!(get_all_songs(None), Err(QueryError::StoreUnreachable)));
}

#[test]
fn all_logs_joined_and_sorted() {
    let store = Store::new(
        vec![song(1, "one"), song(2, "two")],
        vec![log(1, 1, 50, true), log(2, 2, 70, true), log(3, 1, 60, false)],
    );
    let joins = get_all_logs(Some(&store)).unwrap();
    assert_eq!(joins.len(), 3);
    assert_eq!(joins[0].date, 70);
    assert_eq!(joins[0].song.id, 2);
    assert_eq!(joins[0].song.title, "two");
    assert!(joins[0].is_new);
    assert_eq!(joins[1].date, 60);
    assert_eq!(joins[1].song.id, 1);
    assert!(!joins[1].is_new);
    assert_eq!(joins[2].date, 50);
    assert_eq!(joins[2].song.id, 1);
}

#[test]
fn all_logs_store_unreachable() {
    assert!(matches!(get_all_logs(None), Err(QueryError::StoreUnreachable)));
}

#[test]
fn current_is_latest_log() {
    let store = Store::new(
        vec![song(1, "one"), song(2, "two")],
        vec![log(1, 1, 50, true), log(2, 2, 90, false), log(3, 1, 60, false)],
    );
    let mut cache = Cache::new();
    let current = get_current(&mut cache, Some(&store), 0).unwrap().unwrap();
    assert_eq!(current.date, 90);
    assert_eq!(current.song.id, 2);
    assert_eq!(current.song.title, "two");
    assert!(!current.is_new);
}

#[test]
fn current_none_without_logs() {
    let store = Store::new(vec![song(1, "one")], vec![]);
    let mut cache = Cache::new();
    assert!(get_current(&mut cache, Some(&store), 0).unwrap().is_none());
}

#[test]
fn current_store_unreachable() {
    let mut cache = Cache::new();
    assert!(matches!(get_current(&mut cache, None, 0), Err(QueryError::StoreUnreachable)));
}

#[test]
fn plays_history_descending() {
    // Logs recorded at d1 < d2 < d3 come back as plays = 3, dates [d3, d2, d1].
    let store = Store::new(
        vec![song(7, "seven")],
        vec![log(1, 7, 10, true), log(2, 7, 30, false), log(3, 7, 20, false)],
    );
    let mut cache = Cache::new();
    let p = get_plays(&mut cache, Some(&store), 0, 7).unwrap().unwrap();
    assert_eq!(p.song.id, 7);
    assert_eq!(p.plays, 3);
    assert_eq!(p.dates, vec![(30, false), (20, false), (10, true)]);
}

#[test]
fn plays_unknown_song_is_none() {
    let store = Store::new(vec![song(1, "one")], vec![log(1, 1, 10, true)]);
    let mut cache = Cache::new();
    assert!(get_plays(&mut cache, Some(&store), 0, 99).unwrap().is_none());
    // Nothing was cached for the unknown song: with the store gone, the
    // next call cannot be answered.
    assert!(matches!(get_plays(&mut cache, None, 0, 99), Err(QueryError::StoreUnreachable)));
}

#[test]
fn plays_store_unreachable() {
    let mut cache = Cache::new();
    assert!(matches!(get_plays(&mut cache, None, 0, 1), Err(QueryError::StoreUnreachable)));
}

#[test]
fn leaderboard_ranked_by_play_count() {
    // Song 1 has five logs, song 2 has two: the board reads [song 1, song 2].
    let logs = vec![
        log(1, 1, 10, true),
        log(2, 1, 20, false),
        log(3, 1, 30, false),
        log(4, 1, 40, false),
        log(5, 1, 50, false),
        log(6, 2, 15, true),
        log(7, 2, 25, false),
    ];
    let store = Store::new(vec![song(2, "two"), song(1, "one")], logs);
    let board = get_all_plays(Some(&store)).unwrap();
    assert_eq!(board.len(), 2);
    assert_eq!(board[0].song.id, 1);
    assert_eq!(board[0].plays, 5);
    assert_eq!(board[0].dates, vec![(50, false), (40, false), (30, false), (20, false), (10, true)]);
    assert_eq!(board[1].song.id, 2);
    assert_eq!(board[1].plays, 2);
    assert_eq!(board[1].dates, vec![(25, false), (15, true)]);
}

#[test]
fn leaderboard_tie_broken_by_song_id() {
    let logs = vec![log(1, 5, 10, true), log(2, 3, 20, true)];
    let store = Store::new(vec![song(5, "five"), song(3, "three")], logs);
    let board = get_all_plays(Some(&store)).unwrap();
    assert_eq!(board.len(), 2);
    assert_eq!(board[0].song.id, 3);
    assert_eq!(board[1].song.id, 5);
}

#[test]
fn leaderboard_keeps_unplayed_songs_at_zero() {
    // No logs at all: every song stays on the board with zero plays.
    let store = Store::new(vec![song(1, "one"), song(2, "two")], vec![]);
    let board = get_all_plays(Some(&store)).unwrap();
    assert_eq!(board.len(), 2);
    for entry in &board {
        assert_eq!(entry.plays, 0);
        assert!(entry.dates.is_empty());
    }
}

#[test]
fn leaderboard_empty_store() {
    let store = Store::new(vec![], vec![]);
    assert!(get_all_plays(Some(&store)).unwrap().is_empty());
}

#[test]
fn leaderboard_store_unreachable() {
    assert!(matches!(get_all_plays(None), Err(QueryError::StoreUnreachable)));
}

#[test]
fn every_entry_counts_its_dates() {
    let logs = vec![log(1, 1, 10, true), log(2, 2, 20, true), log(3, 2, 5, false)];
    let store = Store::new(vec![song(1, "one"), song(2, "two"), song(3, "three")], logs);
    let board = get_all_plays(Some(&store)).unwrap();
    assert_eq!(board.len(), 3);
    for entry in &board {
        assert_eq!(entry.plays, entry.dates.len());
        for pair in entry.dates.windows(2) {
            assert!(pair[0].0 >= pair[1].0);
        }
    }
}
