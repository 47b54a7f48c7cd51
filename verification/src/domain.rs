//! The domain types: songs, play-log entries, and the two derived views
//! (`JoinResult`, `PlayResult`) that the query layer hands to callers.

use vstd::prelude::*;

verus! {

/// A song held by the store: a unique identifier plus descriptive metadata.
pub struct Song {
    pub id: i32,
    pub title: String,
    pub artist: String,
}

impl Clone for Song {
    fn clone(&self) -> (r: Self)
        ensures
            r == *self,
    {
        Song { id: self.id, title: self.title.clone(), artist: self.artist.clone() }
    }
}

/// One recorded play event: which song, when, and whether it was the
/// song's first recorded play.
#[derive(Clone, Copy)]
pub struct Log {
    pub id: i32,
    pub song: i32,
    pub date: i64,
    pub is_new: bool,
}

/// A denormalized view of one log entry together with the song it refers to.
pub struct JoinResult {
    pub date: i64,
    pub song: Song,
    pub is_new: bool,
}

impl Clone for JoinResult {
    fn clone(&self) -> (r: Self)
        ensures
            r == *self,
    {
        JoinResult { date: self.date, song: self.song.clone(), is_new: self.is_new }
    }
}

/// The per-song aggregate: the song, how many plays were recorded for it,
/// and the full `(date, is_new)` history, most recent first.
pub struct PlayResult {
    pub song: Song,
    pub plays: usize,
    pub dates: Vec<(i64, bool)>,
}

/// The dates of a play history never increase from one entry to the next.
pub open spec fn dates_sorted_desc(s: Seq<(i64, bool)>) -> bool {
    forall|i: int, j: int| 0 <= i <= j < s.len() ==> s[i].0 >= s[j].0
}

impl PlayResult {
    /// Every `PlayResult` the library builds satisfies this: the play count
    /// equals the number of recorded dates, and the dates are ordered
    /// non-increasing (most recent first).
    pub open spec fn wf(self) -> bool {
        &&& self.plays == self.dates@.len()
        &&& dates_sorted_desc(self.dates@)
    }
}

impl Clone for PlayResult {
    fn clone(&self) -> (r: Self)
        ensures
            r.song == self.song,
            r.plays == self.plays,
            r.dates@ == self.dates@,
    {
        let dates = clone_dates(&self.dates);
        PlayResult { song: self.song.clone(), plays: self.plays, dates }
    }
}

/// Copies a play history element by element.
fn clone_dates(v: &Vec<(i64, bool)>) -> (r: Vec<(i64, bool)>)
    ensures
        r@ == v@,
{
    let mut r: Vec<(i64, bool)> = Vec::new();
    let mut i: usize = 0;
    while i < v.len()
        invariant
            i <= v.len(),
            r@ == v@.take(i as int),
        decreases v.len() - i,
    {
        r.push(v[i]);
        proof {
            assert(v@.take((i + 1) as int) =~= v@.take(i as int).push(v@[i as int]));
        }
        i += 1;
    }
    proof {
        assert(v@.take(v@.len() as int) =~= v@);
    }
    r
}

/// Law: a well-formed `PlayResult` counts exactly its recorded dates.
pub proof fn lemma_play_count_matches_dates(r: PlayResult)
    requires
        r.wf(),
    ensures
        r.plays == r.dates@.len(),
{
}

/// Law: in a well-formed `PlayResult`, no date comes before a later one.
pub proof fn lemma_play_dates_non_increasing(r: PlayResult, i: int, j: int)
    requires
        r.wf(),
        0 <= i <= j < r.dates@.len(),
    ensures
        r.dates@[i].0 >= r.dates@[j].0,
{
}

} // verus!
