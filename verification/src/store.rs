//! The row store: the songs and play-log relations, with the read-only
//! query interface the service layer is built on. It stands in for the
//! persistence engine, which only has to hand over these rows.

use vstd::prelude::*;
use crate::domain::{Song, Log};

verus! {

/// The first song with the given identifier, scanning from the front.
/// With unique identifiers it is the only one.
pub open spec fn find_song(songs: Seq<Song>, sid: i32) -> Option<Song>
    decreases songs.len(),
{
    if songs.len() == 0 {
        None
    } else if songs[0].id == sid {
        Some(songs[0])
    } else {
        find_song(songs.drop_first(), sid)
    }
}

/// Whether some song carries the given identifier.
pub open spec fn has_song(songs: Seq<Song>, sid: i32) -> bool {
    exists|j: int| 0 <= j < songs.len() && songs[j].id == sid
}

/// The `(date, is_new)` rows of all logs of one song, in log order.
pub open spec fn dates_of(logs: Seq<Log>, sid: i32) -> Seq<(i64, bool)>
    decreases logs.len(),
{
    if logs.len() == 0 {
        Seq::empty()
    } else {
        let rest = dates_of(logs.drop_last(), sid);
        if logs.last().song == sid {
            rest.push((logs.last().date, logs.last().is_new))
        } else {
            rest
        }
    }
}

/// Every log row paired with the song it references, in log order.
pub open spec fn joined_pairs(logs: Seq<Log>, songs: Seq<Song>) -> Seq<(Log, Song)> {
    logs.map_values(|l: Log| (l, find_song(songs, l.song).unwrap()))
}

/// The song and play-log relations. Song identifiers are unique, and every
/// log references a song that exists: the usual key and foreign-key
/// constraints of the persisted relations.
pub struct Store {
    pub songs: Vec<Song>,
    pub logs: Vec<Log>,
}

impl Store {
    /// The relational constraints the store maintains.
    pub open spec fn wf(self) -> bool {
        &&& forall|i: int, j: int|
            0 <= i < j < self.songs@.len() ==> self.songs@[i].id != self.songs@[j].id
        &&& forall|i: int| 0 <= i < self.logs@.len() ==> has_song(self.songs@, self.logs@[i].song)
    }

    /// Wraps well-formed relations as a store.
    pub fn new(songs: Vec<Song>, logs: Vec<Log>) -> (s: Store)
        requires
            forall|i: int, j: int| 0 <= i < j < songs@.len() ==> songs@[i].id != songs@[j].id,
            forall|i: int| 0 <= i < logs@.len() ==> has_song(songs@, logs@[i].song),
        ensures
            s.wf(),
            s.songs@ == songs@,
            s.logs@ == logs@,
    {
        Store { songs, logs }
    }

    /// Every song, in stored order.
    pub fn all_songs(&self) -> (r: Vec<Song>)
        ensures
            r@ == self.songs@,
    {
        let mut r: Vec<Song> = Vec::new();
        let mut i: usize = 0;
        while i < self.songs.len()
            invariant
                i <= self.songs@.len(),
                r@ == self.songs@.take(i as int),
            decreases self.songs@.len() - i,
        {
            r.push(self.songs[i].clone());
            proof {
                assert(self.songs@.take((i + 1) as int) =~= self.songs@.take(i as int).push(
                    self.songs@[i as int],
                ));
            }
            i += 1;
        }
        proof {
            assert(self.songs@.take(self.songs@.len() as int) =~= self.songs@);
        }
        r
    }

    /// Looks one song up by its identifier.
    pub fn song_by_id(&self, sid: i32) -> (r: Option<Song>)
        ensures
            r == find_song(self.songs@, sid),
            r.is_some() == has_song(self.songs@, sid),
            r matches Some(s) ==> s.id == sid && self.songs@.contains(s),
    {
        let mut i: usize = 0;
        while i < self.songs.len()
            invariant
                i <= self.songs@.len(),
                forall|k: int| 0 <= k < i ==> self.songs@[k].id != sid,
            decreases self.songs@.len() - i,
        {
            if self.songs[i].id == sid {
                proof {
                    lemma_find_song_skip(self.songs@, sid, i as int);
                    assert(self.songs@.skip(i as int)[0] == self.songs@[i as int]);
                }
                return Some(self.songs[i].clone());
            }
            i += 1;
        }
        proof {
            lemma_find_song_skip(self.songs@, sid, self.songs@.len() as int);
            assert(self.songs@.skip(self.songs@.len() as int).len() == 0);
        }
        None
    }

    /// The `(date, is_new)` rows of every log of one song, in log order.
    pub fn dates_for(&self, sid: i32) -> (r: Vec<(i64, bool)>)
        ensures
            r@ == dates_of(self.logs@, sid),
    {
        let mut r: Vec<(i64, bool)> = Vec::new();
        let mut i: usize = 0;
        while i < self.logs.len()
            invariant
                i <= self.logs@.len(),
                r@ == dates_of(self.logs@.take(i as int), sid),
            decreases self.logs@.len() - i,
        {
            let l = self.logs[i];
            proof {
                assert(self.logs@.take((i + 1) as int).drop_last() =~= self.logs@.take(i as int));
                assert(self.logs@.take((i + 1) as int).last() == self.logs@[i as int]);
            }
            if l.song == sid {
                r.push((l.date, l.is_new));
            }
            i += 1;
        }
        proof {
            assert(self.logs@.take(self.logs@.len() as int) =~= self.logs@);
        }
        r
    }

    /// Every log row paired with its song, in log order (the inner join of
    /// the two relations; under `wf` every log has its song).
    pub fn all_logs_joined(&self) -> (r: Vec<(Log, Song)>)
        requires
            self.wf(),
        ensures
            r@ == joined_pairs(self.logs@, self.songs@),
    {
        let mut r: Vec<(Log, Song)> = Vec::new();
        let mut i: usize = 0;
        while i < self.logs.len()
            invariant
                self.wf(),
                i <= self.logs@.len(),
                r@.len() == i,
                forall|k: int|
                    0 <= k < i ==> r@[k] == (
                    self.logs@[k],
                    find_song(self.songs@, self.logs@[k].song).unwrap(),
                ),
            decreases self.logs@.len() - i,
        {
            let l = self.logs[i];
            match self.song_by_id(l.song) {
                Some(song) => {
                    r.push((l, song));
                },
                None => {
                    proof {
                        assert(has_song(self.songs@, self.logs@[i as int].song));
                        assert(false);
                    }
                },
            }
            i += 1;
        }
        proof {
            assert(r@ =~= joined_pairs(self.logs@, self.songs@));
        }
        r
    }

    /// The most recent log paired with its song, if any log exists at all.
    /// Its date is at least the date of every recorded log.
    pub fn most_recent(&self) -> (r: Option<(Log, Song)>)
        requires
            self.wf(),
        ensures
            r.is_some() == (self.logs@.len() > 0),
            r matches Some(p) ==> {
                &&& self.logs@.contains(p.0)
                &&& find_song(self.songs@, p.0.song) == Some(p.1)
                &&& forall|k: int| 0 <= k < self.logs@.len() ==> self.logs@[k].date <= p.0.date
            },
    {
        if self.logs.len() == 0 {
            return None;
        }
        let mut best: usize = 0;
        let mut i: usize = 1;
        while i < self.logs.len()
            invariant
                best < i <= self.logs@.len(),
                forall|k: int| 0 <= k < i ==> self.logs@[k].date <= self.logs@[best as int].date,
            decreases self.logs@.len() - i,
        {
            if self.logs[i].date > self.logs[best].date {
                best = i;
            }
            i += 1;
        }
        let l = self.logs[best];
        match self.song_by_id(l.song) {
            Some(song) => Some((l, song)),
            None => {
                proof {
                    assert(has_song(self.songs@, self.logs@[best as int].song));
                    assert(false);
                }
                None
            },
        }
    }
}

/// With unique identifiers, looking a stored song's identifier up finds
/// exactly that song.
pub proof fn lemma_find_song_unique(songs: Seq<Song>, i: int)
    requires
        0 <= i < songs.len(),
        forall|a: int, b: int| 0 <= a < b < songs.len() ==> songs[a].id != songs[b].id,
    ensures
        find_song(songs, songs[i].id) == Some(songs[i]),
    decreases i,
{
    if i == 0 {
    } else {
        assert(songs[0].id != songs[i].id);
        lemma_find_song_unique(songs.drop_first(), i - 1);
        assert(songs.drop_first()[i - 1] == songs[i]);
    }
}

/// If no song before index `i` matches, the scan result from `i` on is the
/// overall result.
proof fn lemma_find_song_skip(songs: Seq<Song>, sid: i32, i: int)
    requires
        0 <= i <= songs.len(),
        forall|k: int| 0 <= k < i ==> songs[k].id != sid,
    ensures
        find_song(songs, sid) == find_song(songs.skip(i), sid),
    decreases i,
{
    if i > 0 {
        assert(songs[0].id != sid);
        lemma_find_song_skip(songs.drop_first(), sid, i - 1);
        assert(songs.drop_first().skip(i - 1) =~= songs.skip(i));
    } else {
        assert(songs.skip(0) =~= songs);
    }
}

} // verus!
