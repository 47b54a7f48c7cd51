//! Pure aggregation logic: joining rows into `JoinResult`s, building
//! per-song `PlayResult`s, and the orderings the query layer guarantees.

use vstd::prelude::*;
use vstd::seq_lib::group_to_multiset_ensures;
use crate::domain::{Song, Log, JoinResult, PlayResult, dates_sorted_desc};

verus! {

broadcast use group_to_multiset_ensures;

/// The leaderboard order: more plays first; equal play counts are broken
/// by ascending song identifier, so the order is total and deterministic.
pub open spec fn play_order(a: PlayResult, b: PlayResult) -> bool {
    a.plays > b.plays || (a.plays == b.plays && a.song.id <= b.song.id)
}

/// A leaderboard is sorted when every pair of entries is in `play_order`.
pub open spec fn plays_sorted(s: Seq<PlayResult>) -> bool {
    forall|i: int, j: int| 0 <= i <= j < s.len() ==> play_order(s[i], s[j])
}

/// Joined log rows ordered most recent first.
pub open spec fn joins_sorted_desc(s: Seq<JoinResult>) -> bool {
    forall|i: int, j: int| 0 <= i <= j < s.len() ==> s[i].date >= s[j].date
}

/// The `JoinResult` view of one joined `(Log, Song)` row.
pub open spec fn join_of_row(row: (Log, Song)) -> JoinResult {
    JoinResult { date: row.0.date, song: row.1, is_new: row.0.is_new }
}

/// Turns raw joined rows into `JoinResult`s, row by row, keeping the order.
pub fn convert_to_join_result(rows: Vec<(Log, Song)>) -> (r: Vec<JoinResult>)
    ensures
        r@ == rows@.map_values(|row: (Log, Song)| join_of_row(row)),
{
    let mut r: Vec<JoinResult> = Vec::new();
    let mut i: usize = 0;
    while i < rows.len()
        invariant
            i <= rows@.len(),
            r@.len() == i,
            forall|k: int| 0 <= k < i ==> r@[k] == join_of_row(rows@[k]),
        decreases rows@.len() - i,
    {
        let song = rows[i].1.clone();
        r.push(JoinResult { date: rows[i].0.date, song, is_new: rows[i].0.is_new });
        i += 1;
    }
    proof {
        assert(r@ =~= rows@.map_values(|row: (Log, Song)| join_of_row(row)));
    }
    r
}

/// Inserts one history entry into a sorted history, keeping it sorted.
fn insert_date_sorted(out: &mut Vec<(i64, bool)>, p: (i64, bool))
    requires
        dates_sorted_desc(old(out)@),
    ensures
        dates_sorted_desc(final(out)@),
        final(out)@.to_multiset() == old(out)@.to_multiset().insert(p),
        final(out)@.len() == old(out)@.len() + 1,
{
    let mut idx: usize = 0;
    while idx < out.len() && out[idx].0 >= p.0
        invariant
            idx <= out@.len(),
            out@ == old(out)@,
            forall|k: int| 0 <= k < idx ==> out@[k].0 >= p.0,
        decreases out@.len() - idx,
    {
        idx += 1;
    }
    proof {
        assert(idx < out@.len() ==> out@[idx as int].0 < p.0);
    }
    out.insert(idx, p);
    proof {
        let oldv = old(out)@;
        let newv = out@;
        assert forall|a: int, b: int| 0 <= a <= b < newv.len() implies newv[a].0 >= newv[b].0 by {
            if a < idx {
                assert(newv[a] == oldv[a]);
            }
            if a == idx {
                assert(newv[a] == p);
            }
            if a > idx {
                assert(newv[a] == oldv[a - 1]);
            }
            if b < idx {
                assert(newv[b] == oldv[b]);
            }
            if b == idx {
                assert(newv[b] == p);
            }
            if b > idx {
                assert(newv[b] == oldv[b - 1]);
            }
        }
    }
}

/// Sorts a play history non-increasing by date by repeated sorted insertion.
pub fn sort_dates_desc(v: Vec<(i64, bool)>) -> (r: Vec<(i64, bool)>)
    ensures
        dates_sorted_desc(r@),
        r@.to_multiset() == v@.to_multiset(),
        r@.len() == v@.len(),
{
    let mut r: Vec<(i64, bool)> = Vec::new();
    let mut i: usize = 0;
    while i < v.len()
        invariant
            i <= v@.len(),
            dates_sorted_desc(r@),
            r@.to_multiset() == v@.take(i as int).to_multiset(),
            r@.len() == i,
        decreases v@.len() - i,
    {
        insert_date_sorted(&mut r, v[i]);
        proof {
            assert(v@.take((i + 1) as int) =~= v@.take(i as int).push(v@[i as int]));
        }
        i += 1;
    }
    proof {
        assert(v@.take(v@.len() as int) =~= v@);
    }
    r
}

/// The leaderboard order holds one way or the other for any two entries.
proof fn lemma_play_order_total(a: PlayResult, b: PlayResult)
    ensures
        play_order(a, b) || play_order(b, a),
{
}

/// The leaderboard order is transitive.
proof fn lemma_play_order_trans(a: PlayResult, b: PlayResult, c: PlayResult)
    requires
        play_order(a, b),
        play_order(b, c),
    ensures
        play_order(a, c),
{
}

/// Compares two leaderboard entries in `play_order`.
fn play_precedes(a: &PlayResult, b: &PlayResult) -> (r: bool)
    ensures
        r == play_order(*a, *b),
{
    a.plays > b.plays || (a.plays == b.plays && a.song.id <= b.song.id)
}

/// Inserts one entry into a sorted leaderboard, keeping it sorted.
fn insert_play_sorted(out: &mut Vec<PlayResult>, p: PlayResult)
    requires
        plays_sorted(old(out)@),
    ensures
        plays_sorted(final(out)@),
        final(out)@.to_multiset() == old(out)@.to_multiset().insert(p),
        final(out)@.len() == old(out)@.len() + 1,
{
    let mut idx: usize = 0;
    while idx < out.len() && play_precedes(&out[idx], &p)
        invariant
            idx <= out@.len(),
            out@ == old(out)@,
            forall|k: int| 0 <= k < idx ==> play_order(out@[k], p),
        decreases out@.len() - idx,
    {
        idx += 1;
    }
    proof {
        if idx < out@.len() {
            lemma_play_order_total(out@[idx as int], p);
            assert(play_order(p, out@[idx as int]));
        }
    }
    out.insert(idx, p);
    proof {
        let oldv = old(out)@;
        let newv = out@;
        assert forall|a: int, b: int| 0 <= a <= b < newv.len() implies play_order(
            newv[a],
            newv[b],
        ) by {
            if a < idx {
                assert(newv[a] == oldv[a]);
            }
            if a == idx {
                assert(newv[a] == p);
            }
            if a > idx {
                assert(newv[a] == oldv[a - 1]);
            }
            if b < idx {
                assert(newv[b] == oldv[b]);
            }
            if b == idx {
                assert(newv[b] == p);
            }
            if b > idx {
                assert(newv[b] == oldv[b - 1]);
            }
            if a == idx && b > idx {
                lemma_play_order_trans(p, oldv[idx as int], oldv[b - 1]);
            }
            if a < idx && b == idx {
            }
        }
    }
}

/// Sorts a leaderboard non-increasing by play count, ties broken by
/// ascending song identifier.
pub fn sort_play_results(v: Vec<PlayResult>) -> (r: Vec<PlayResult>)
    ensures
        plays_sorted(r@),
        r@.to_multiset() == v@.to_multiset(),
        r@.len() == v@.len(),
{
    let mut v = v;
    let ghost orig = v@;
    let mut out: Vec<PlayResult> = Vec::new();
    proof {
        assert(out@.to_multiset().add(v@.to_multiset()) =~= orig.to_multiset());
    }
    while v.len() > 0
        invariant
            plays_sorted(out@),
            out@.to_multiset().add(v@.to_multiset()) == orig.to_multiset(),
            out@.len() + v@.len() == orig.len(),
        decreases v@.len(),
    {
        let ghost vpre = v@;
        let ghost outpre = out@;
        let p = match v.pop() {
            Some(p) => p,
            None => {
                proof {
                    assert(false);
                }
                return out;
            },
        };
        proof {
            assert(vpre.remove(vpre.len() - 1) =~= vpre.subrange(0, vpre.len() - 1));
            assert(v@.to_multiset() == vpre.to_multiset().remove(p));
        }
        insert_play_sorted(&mut out, p);
        proof {
            assert(vpre.to_multiset().count(p) > 0);
            assert(out@.to_multiset().add(v@.to_multiset()) =~= orig.to_multiset());
        }
    }
    out
}

/// Inserts one joined row into a list sorted most recent first.
fn insert_join_sorted(out: &mut Vec<JoinResult>, p: JoinResult)
    requires
        joins_sorted_desc(old(out)@),
    ensures
        joins_sorted_desc(final(out)@),
        final(out)@.to_multiset() == old(out)@.to_multiset().insert(p),
        final(out)@.len() == old(out)@.len() + 1,
{
    let mut idx: usize = 0;
    while idx < out.len() && out[idx].date >= p.date
        invariant
            idx <= out@.len(),
            out@ == old(out)@,
            forall|k: int| 0 <= k < idx ==> out@[k].date >= p.date,
        decreases out@.len() - idx,
    {
        idx += 1;
    }
    out.insert(idx, p);
    proof {
        let oldv = old(out)@;
        let newv = out@;
        assert forall|a: int, b: int| 0 <= a <= b < newv.len() implies newv[a].date
            >= newv[b].date by {
            if a < idx {
                assert(newv[a] == oldv[a]);
            }
            if a == idx {
                assert(newv[a] == p);
            }
            if a > idx {
                assert(newv[a] == oldv[a - 1]);
            }
            if b < idx {
                assert(newv[b] == oldv[b]);
            }
            if b == idx {
                assert(newv[b] == p);
            }
            if b > idx {
                assert(newv[b] == oldv[b - 1]);
            }
        }
    }
}

/// Sorts joined rows non-increasing by date.
pub fn sort_joins_desc(v: Vec<JoinResult>) -> (r: Vec<JoinResult>)
    ensures
        joins_sorted_desc(r@),
        r@.to_multiset() == v@.to_multiset(),
        r@.len() == v@.len(),
{
    let mut v = v;
    let ghost orig = v@;
    let mut out: Vec<JoinResult> = Vec::new();
    proof {
        assert(out@.to_multiset().add(v@.to_multiset()) =~= orig.to_multiset());
    }
    while v.len() > 0
        invariant
            joins_sorted_desc(out@),
            out@.to_multiset().add(v@.to_multiset()) == orig.to_multiset(),
            out@.len() + v@.len() == orig.len(),
        decreases v@.len(),
    {
        let ghost vpre = v@;
        let p = match v.pop() {
            Some(p) => p,
            None => {
                proof {
                    assert(false);
                }
                return out;
            },
        };
        proof {
            assert(vpre.remove(vpre.len() - 1) =~= vpre.subrange(0, vpre.len() - 1));
            assert(v@.to_multiset() == vpre.to_multiset().remove(p));
        }
        insert_join_sorted(&mut out, p);
        proof {
            assert(vpre.to_multiset().count(p) > 0);
            assert(out@.to_multiset().add(v@.to_multiset()) =~= orig.to_multiset());
        }
    }
    out
}

/// Reordering a sequence reorders its image: mapping two sequences with
/// the same elements gives the same elements.
pub proof fn lemma_map_values_multiset<A, B>(s: Seq<A>, t: Seq<A>, f: spec_fn(A) -> B)
    requires
        s.to_multiset() == t.to_multiset(),
    ensures
        s.map_values(f).to_multiset() == t.map_values(f).to_multiset(),
    decreases s.len(),
{
    if s.len() == 0 {
        assert(s.to_multiset().len() == s.len());
        assert(t.to_multiset().len() == t.len());
        assert(s.map_values(f) =~= t.map_values(f));
    } else {
        let a = s.last();
        assert(s.contains(a));
        assert(s.to_multiset().count(a) > 0);
        assert(t.to_multiset().count(a) > 0);
        assert(t.contains(a));
        let i = choose|i: int| 0 <= i < t.len() && t[i] == a;
        assert(s.drop_last() =~= s.remove(s.len() - 1));
        assert(s.drop_last().to_multiset() == s.to_multiset().remove(a));
        assert(t.remove(i).to_multiset() == t.to_multiset().remove(a));
        lemma_map_values_multiset(s.drop_last(), t.remove(i), f);
        assert(s.map_values(f) =~= s.drop_last().map_values(f).push(f(a)));
        assert(t.remove(i).map_values(f) =~= t.map_values(f).remove(i));
        assert(t.map_values(f)[i] == f(a));
        assert(t.map_values(f).remove(i).to_multiset() == t.map_values(f).to_multiset().remove(
            f(a),
        ));
        assert(t.map_values(f).contains(f(a)));
        assert(s.map_values(f).to_multiset() =~= t.map_values(f).to_multiset());
    }
}

/// Builds the aggregate for one song from its raw `(date, is_new)` rows.
/// The result is well formed: `plays` counts the rows, and the history is
/// the same rows reordered most recent first.
pub fn build_play_result(song: Song, dates: Vec<(i64, bool)>) -> (r: PlayResult)
    ensures
        r.wf(),
        r.song == song,
        r.plays == dates@.len(),
        r.dates@.to_multiset() == dates@.to_multiset(),
{
    let sorted = sort_dates_desc(dates);
    let plays = sorted.len();
    PlayResult { song, plays, dates: sorted }
}

} // verus!
