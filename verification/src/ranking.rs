//! The join of the tracks to dance to with the wanted lyrics, and their ranking.

use vstd::prelude::*;
use vstd::seq_lib::{to_multiset_build, to_multiset_contains};
use crate::rows::{DanceableTrack, DanceableTrackView, Measure, SongKey, SongKeyView};
use crate::relation::{inner_join, partners};
use crate::seq_facts::{lemma_filter_map_holds, lemma_flat_map_holds, lemma_flat_map_same};

verus! {

/// The key names the song of the row: same artist's name and same track's name.
pub open spec fn names(key: SongKeyView, row: DanceableTrackView) -> bool {
    key.artist_name == row.artist_name && key.track_name == row.track_name
}

/// `row` once for each of the keys that name its song.
pub open spec fn row_by_keys(row: DanceableTrackView, keys: Seq<SongKeyView>) -> Seq<
    DanceableTrackView,
> {
    keys.filter(|key: SongKeyView| names(key, row)).map_values(|key: SongKeyView| row)
}

/// The rows joined with the keys on both names: each row once for each key that
/// names its song, row by row. A row that no key names is left out, and so is a
/// key that names no row.
pub open spec fn matched(rows: Seq<DanceableTrackView>, keys: Seq<SongKeyView>) -> Seq<
    DanceableTrackView,
> {
    rows.flat_map(|row: DanceableTrackView| row_by_keys(row, keys))
}

/// `row` put into `ranked` behind the rows that are at least as danceable.
pub open spec fn placed(ranked: Seq<DanceableTrackView>, row: DanceableTrackView) -> Seq<
    DanceableTrackView,
>
    decreases ranked.len(),
{
    if ranked.len() > 0 && ranked.last().danceability < row.danceability {
        placed(ranked.drop_last(), row).push(ranked.last())
    } else {
        ranked.push(row)
    }
}

/// The rows from the most danceable to the least; rows of the same danceability
/// keep their order. Danceabilities are compared as they are held, which for
/// numbers that are not negative is the order of the numbers.
pub open spec fn ranked(rows: Seq<DanceableTrackView>) -> Seq<DanceableTrackView>
    decreases rows.len(),
{
    if rows.len() == 0 {
        rows
    } else {
        placed(ranked(rows.drop_last()), rows.last())
    }
}

/// The songs to dance to: the rows whose song a key names, from the most
/// danceable to the least.
pub open spec fn danceable_songs_of(rows: Seq<DanceableTrackView>, keys: Seq<SongKeyView>) -> Seq<
    DanceableTrackView,
> {
    ranked(matched(rows, keys))
}

/// Putting `row` into `ranked` is inserting it at the place `at`, when the rows
/// from `at` on are less danceable than `row` and the one before `at` is not.
proof fn lemma_placed_is_insert(
    ranked: Seq<DanceableTrackView>,
    row: DanceableTrackView,
    at: int,
)
    requires
        0 <= at <= ranked.len(),
        forall|k: int| at <= k < ranked.len() ==> ranked[k].danceability < row.danceability,
        at > 0 ==> ranked[at - 1].danceability >= row.danceability,
    ensures
        placed(ranked, row) == ranked.insert(at, row),
    decreases ranked.len(),
{
    if at < ranked.len() {
        lemma_placed_is_insert(ranked.drop_last(), row, at);
    }
}

/// The rows are in order: none is more danceable than one before it.
pub open spec fn is_ranked(rows: Seq<DanceableTrackView>) -> bool {
    forall|i: int, j: int|
        0 <= i <= j < rows.len() ==> rows[i].danceability >= rows[j].danceability
}

/// The test that a row has this danceability.
pub open spec fn has_danceability(danceability: Measure) -> spec_fn(DanceableTrackView) -> bool {
    |row: DanceableTrackView| row.danceability == danceability
}

/// What putting a row into a sequence gives: one row more, in order if the
/// sequence was, and behind the rows of its own danceability.
proof fn lemma_placed(ranked: Seq<DanceableTrackView>, row: DanceableTrackView)
    ensures
        placed(ranked, row).len() == ranked.len() + 1,
        placed(ranked, row).to_multiset() == ranked.to_multiset().insert(row),
        is_ranked(ranked) ==> is_ranked(placed(ranked, row)),
        forall|k: int|
            0 <= k < ranked.len() + 1 ==> (#[trigger] placed(ranked, row)[k]) == row || ranked.contains(
                placed(ranked, row)[k],
            ),
        forall|d: Measure|
            (#[trigger] placed(ranked, row).filter(has_danceability(d))) == if row.danceability == d {
                ranked.filter(has_danceability(d)).push(row)
            } else {
                ranked.filter(has_danceability(d))
            },
    decreases ranked.len(),
{
    broadcast use to_multiset_build;

    if ranked.len() > 0 && ranked.last().danceability < row.danceability {
        let front = ranked.drop_last();
        let last = ranked.last();
        lemma_placed(front, row);
        assert(ranked =~= front.push(last));
        assert forall|d: Measure|
            (#[trigger] placed(ranked, row).filter(has_danceability(d))) == if row.danceability
                == d {
                ranked.filter(has_danceability(d)).push(row)
            } else {
                ranked.filter(has_danceability(d))
            } by {
            placed(front, row).lemma_filter_push(last, has_danceability(d));
            front.lemma_filter_push(last, has_danceability(d));
        }
    } else {
        assert forall|d: Measure|
            (#[trigger] placed(ranked, row).filter(has_danceability(d))) == if row.danceability
                == d {
                ranked.filter(has_danceability(d)).push(row)
            } else {
                ranked.filter(has_danceability(d))
            } by {
            ranked.lemma_filter_push(row, has_danceability(d));
        }
    }
}

/// Ranking orders the rows: in `ranked(rows)` no row is more danceable than one
/// before it.
pub proof fn law_ranked_is_ordered(rows: Seq<DanceableTrackView>)
    ensures
        is_ranked(ranked(rows)),
    decreases rows.len(),
{
    if rows.len() > 0 {
        law_ranked_is_ordered(rows.drop_last());
        lemma_placed(ranked(rows.drop_last()), rows.last());
    }
}

/// Ranking neither adds nor drops a row: `ranked(rows)` holds each row as many
/// times as `rows` does.
pub proof fn law_ranked_keeps_rows(rows: Seq<DanceableTrackView>)
    ensures
        ranked(rows).len() == rows.len(),
        ranked(rows).to_multiset() == rows.to_multiset(),
    decreases rows.len(),
{
    broadcast use to_multiset_build;

    if rows.len() > 0 {
        law_ranked_keeps_rows(rows.drop_last());
        lemma_placed(ranked(rows.drop_last()), rows.last());
        assert(rows =~= rows.drop_last().push(rows.last()));
    }
}

/// Ranking keeps rows of the same danceability in their order: the rows of a
/// given danceability are the same sequence before and after.
pub proof fn law_ranked_is_stable(rows: Seq<DanceableTrackView>, danceability: Measure)
    ensures
        ranked(rows).filter(has_danceability(danceability)) == rows.filter(
            has_danceability(danceability),
        ),
    decreases rows.len(),
{
    if rows.len() > 0 {
        law_ranked_is_stable(rows.drop_last(), danceability);
        lemma_placed(ranked(rows.drop_last()), rows.last());
        rows.drop_last().lemma_filter_push(rows.last(), has_danceability(danceability));
        assert(rows =~= rows.drop_last().push(rows.last()));
    }
}

/// Two sequences in order that hold the same rows of each danceability, in the
/// same order, are the same sequence.
proof fn lemma_same_groups_same_order(s: Seq<DanceableTrackView>, t: Seq<DanceableTrackView>)
    requires
        is_ranked(s),
        is_ranked(t),
        forall|d: Measure|
            #[trigger] s.filter(has_danceability(d)) == t.filter(has_danceability(d)),
    ensures
        s == t,
    decreases s.len(),
{
    if s.len() == 0 {
        if t.len() > 0 {
            // Then `t` has rows of the danceability of its last row, and `s` has none.
            let d = t.last().danceability;
            assert(t =~= t.drop_last().push(t.last()));
            t.drop_last().lemma_filter_push(t.last(), has_danceability(d));
            s.lemma_filter_len(has_danceability(d));
        }
    } else {
        // The last row of each is the last of its danceability in both, so it is
        // in the other, and is there no less danceable than the other's last row.
        let x = s.last();
        let front = s.drop_last();
        let of_x = has_danceability(x.danceability);
        assert(s =~= front.push(x));
        front.lemma_filter_push(x, of_x);
        t.lemma_filter_len(of_x);
        let y = t.last();
        let rest = t.drop_last();
        let of_y = has_danceability(y.danceability);
        assert(t =~= rest.push(y));
        rest.lemma_filter_push(y, of_y);
        assert(s.filter(of_y).contains(y)) by {
            assert(t.filter(of_y).last() == y);
        }
        s.lemma_filter_contains_rev(of_y, y);
        assert(t.filter(of_x).contains(x)) by {
            assert(s.filter(of_x).last() == x);
        }
        t.lemma_filter_contains_rev(of_x, x);
        assert(x == y) by {
            assert(t.filter(of_x).last() == y);
        }
        // Without that row the two still hold the same rows of each danceability.
        assert forall|d: Measure|
            #[trigger] front.filter(has_danceability(d)) == rest.filter(has_danceability(d)) by {
            let of_d = has_danceability(d);
            front.lemma_filter_push(x, of_d);
            rest.lemma_filter_push(x, of_d);
            if x.danceability == d {
                assert(front.filter(of_d) =~= front.filter(of_d).push(x).drop_last());
                assert(rest.filter(of_d) =~= rest.filter(of_d).push(x).drop_last());
            }
        }
        lemma_same_groups_same_order(front, rest);
    }
}

/// Ranking is settled by its order and by what it keeps: a sequence in order that
/// holds, for each danceability, the rows of that danceability as they stand in
/// `rows` is `ranked(rows)`.
pub proof fn law_ranked_is_the_only_one(
    rows: Seq<DanceableTrackView>,
    other: Seq<DanceableTrackView>,
)
    requires
        is_ranked(other),
        forall|d: Measure|
            #[trigger] other.filter(has_danceability(d)) == rows.filter(has_danceability(d)),
    ensures
        other == ranked(rows),
{
    law_ranked_is_ordered(rows);
    assert forall|d: Measure|
        #[trigger] other.filter(has_danceability(d)) == ranked(rows).filter(
            has_danceability(d),
        ) by {
        law_ranked_is_stable(rows, d);
    }
    lemma_same_groups_same_order(other, ranked(rows));
}

/// What ranking holds: the rows it was given.
pub proof fn law_ranked_holds(rows: Seq<DanceableTrackView>, row: DanceableTrackView)
    ensures
        ranked(rows).contains(row) <==> rows.contains(row),
{
    law_ranked_keeps_rows(rows);
    to_multiset_contains(ranked(rows), row);
    to_multiset_contains(rows, row);
}

/// The join is the inner join of the rows with the keys, which keeps of each pair
/// the row.
pub proof fn law_matched_is_inner_join(rows: Seq<DanceableTrackView>, keys: Seq<SongKeyView>)
    ensures
        matched(rows, keys) == inner_join(
            rows,
            keys,
            |row: DanceableTrackView, key: SongKeyView| names(key, row),
            |row: DanceableTrackView, key: SongKeyView| row,
        ),
{
    let on = |row: DanceableTrackView, key: SongKeyView| names(key, row);
    let pair = |row: DanceableTrackView, key: SongKeyView| row;
    assert forall|i: int| 0 <= i < rows.len() implies (|row: DanceableTrackView|
        row_by_keys(row, keys))(#[trigger] rows[i]) == (|row: DanceableTrackView|
        partners(row, keys, on, pair))(rows[i]) by {
        let row = rows[i];
        assert((|key: SongKeyView| names(key, row)) =~= (|other: SongKeyView| on(row, other)));
        assert((|key: SongKeyView| row) =~= (|other: SongKeyView| pair(row, other)));
    }
    lemma_flat_map_same(
        rows,
        |row: DanceableTrackView| row_by_keys(row, keys),
        |row: DanceableTrackView| partners(row, keys, on, pair),
    );
}

/// What the join holds: the rows whose song one of the keys names.
pub proof fn law_matched_holds(
    rows: Seq<DanceableTrackView>,
    keys: Seq<SongKeyView>,
    row: DanceableTrackView,
)
    ensures
        matched(rows, keys).contains(row) <==> rows.contains(row) && exists|k: int|
            0 <= k < keys.len() && names(#[trigger] keys[k], row),
{
    let by_keys = |row: DanceableTrackView| row_by_keys(row, keys);
    lemma_flat_map_holds(rows, by_keys, row);
    if matched(rows, keys).contains(row) {
        let i = choose|i: int| 0 <= i < rows.len() && by_keys(#[trigger] rows[i]).contains(row);
        lemma_filter_map_holds(
            keys,
            |key: SongKeyView| names(key, rows[i]),
            |key: SongKeyView| rows[i],
            row,
        );
    }
    if rows.contains(row) && exists|k: int| 0 <= k < keys.len() && names(#[trigger] keys[k], row) {
        let i = choose|i: int| 0 <= i < rows.len() && rows[i] == row;
        let k = choose|k: int| 0 <= k < keys.len() && names(#[trigger] keys[k], row);
        lemma_filter_map_holds(
            keys,
            |key: SongKeyView| names(key, rows[i]),
            |key: SongKeyView| rows[i],
            row,
        );
    }
}

/// A row with the same fields.
fn copy_of(row: &DanceableTrack) -> (copy: DanceableTrack)
    ensures
        copy@ == row@,
{
    DanceableTrack {
        artist_name: row.artist_name.clone(),
        track_name: row.track_name.clone(),
        danceability: row.danceability,
        energy: row.energy,
        track_id: row.track_id.clone(),
    }
}

/// Orders the rows from the most danceable to the least. Rows of the same
/// danceability keep their order.
pub fn rank(rows: &Vec<DanceableTrack>) -> (sorted: Vec<DanceableTrack>)
    ensures
        sorted.deep_view() == ranked(rows.deep_view()),
{
    let mut sorted: Vec<DanceableTrack> = Vec::new();
    let mut i: usize = 0;
    while i < rows.len()
        invariant
            i <= rows.len(),
            sorted.len() == i,
            sorted.deep_view() == ranked(rows.deep_view().take(i as int)),
        decreases rows.len() - i,
    {
        let row = copy_of(&rows[i]);
        let ghost done = sorted.deep_view();
        let mut at: usize = sorted.len();
        while at > 0 && sorted[at - 1].danceability < row.danceability
            invariant
                at <= sorted.len(),
                done == sorted.deep_view(),
                forall|k: int| at <= k < done.len() ==> done[k].danceability < row.danceability,
            decreases at,
        {
            at -= 1;
        }
        proof {
            lemma_placed_is_insert(done, row@, at as int);
            assert(rows.deep_view().take(i + 1).drop_last() =~= rows.deep_view().take(i as int));
        }
        sorted.insert(at, row);
        i += 1;
    }
    assert(rows.deep_view().take(rows.len() as int) =~= rows.deep_view());
    sorted
}

/// Adds `row` to `found` once for each of the keys that name its song.
fn push_row_by_keys(found: &mut Vec<DanceableTrack>, row: &DanceableTrack, keys: &Vec<SongKey>)
    ensures
        final(found).deep_view() == old(found).deep_view() + row_by_keys(row@, keys.deep_view()),
{
    let ghost test = |key: SongKeyView| names(key, row@);
    let ghost same = |key: SongKeyView| row@;
    let mut i: usize = 0;
    while i < keys.len()
        invariant
            i <= keys.len(),
            test == |key: SongKeyView| names(key, row@),
            same == |key: SongKeyView| row@,
            found.deep_view() == old(found).deep_view() + keys.deep_view().take(i as int).filter(
                test,
            ).map_values(same),
        decreases keys.len() - i,
    {
        let ghost before = keys.deep_view().take(i as int);
        let ghost done = found.deep_view();
        let key = &keys[i];
        let fits = key.artist_name == row.artist_name && key.track_name == row.track_name;
        if fits {
            found.push(copy_of(row));
        }
        proof {
            assert(keys.deep_view().take(i + 1) =~= before.push(key@));
            before.lemma_filter_push(key@, test);
            before.filter(test).lemma_push_map_commute(same, key@);
            if fits {
                assert(found.deep_view() =~= done.push(row@));
            }
        }
        i += 1;
    }
    assert(keys.deep_view().take(keys.len() as int) =~= keys.deep_view());
}

/// Joins the rows with the keys on both names.
pub fn match_songs(rows: &Vec<DanceableTrack>, keys: &Vec<SongKey>) -> (found: Vec<DanceableTrack>)
    ensures
        found.deep_view() == matched(rows.deep_view(), keys.deep_view()),
{
    let ghost by_keys = |row: DanceableTrackView| row_by_keys(row, keys.deep_view());
    let mut found: Vec<DanceableTrack> = Vec::new();
    let mut i: usize = 0;
    while i < rows.len()
        invariant
            i <= rows.len(),
            by_keys == |row: DanceableTrackView| row_by_keys(row, keys.deep_view()),
            found.deep_view() == rows.deep_view().take(i as int).flat_map(by_keys),
        decreases rows.len() - i,
    {
        let ghost before = rows.deep_view().take(i as int);
        let row = &rows[i];
        push_row_by_keys(&mut found, row, keys);
        proof {
            assert(rows.deep_view().take(i + 1) =~= before.push(row@));
            before.lemma_flat_map_push(by_keys, row@);
        }
        i += 1;
    }
    assert(rows.deep_view().take(rows.len() as int) =~= rows.deep_view());
    found
}

/// Gives the songs to dance to: the tracks of `danceable` whose artist's name
/// and track's name are those of one of the keys of `lyrics`, from the most
/// danceable to the least. A track comes once for each key that names it; tracks
/// of the same danceability come in the order of `danceable`.
pub fn danceable_songs(danceable: &Vec<DanceableTrack>, lyrics: &Vec<SongKey>) -> (songs: Vec<
    DanceableTrack,
>)
    ensures
        songs.deep_view() == danceable_songs_of(danceable.deep_view(), lyrics.deep_view()),
{
    let found = match_songs(danceable, lyrics);
    rank(&found)
}

} // verus!
