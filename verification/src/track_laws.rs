//! What holds of the tracks to dance to: of the join of the catalogue, of the
//! choice of the best row of each song, and of the two together.

use vstd::prelude::*;
use crate::relation::{inner_join, partners};
use crate::rows::{
    ArtistView, AudioFeaturesView, DanceableTrackView, TrackArtistView, TrackView,
};
use crate::seq_facts::{
    lemma_filter_flat_map_holds, lemma_filter_holds, lemma_filter_map_holds, lemma_flat_map_holds,
    lemma_flat_map_same, lemma_flat_map_twice, lemma_map_then_flat_map,
};
use crate::tracks::{
    best_of_each, candidate, clean_tracks, danceable, danceable_features, is_artist, is_best,
    is_danceable, is_track, joined, measures, named_artist, named_artists, named_track,
    rows_of_artist, rows_of_link, rows_of_track, same_song,
};

verus! {

/// The links, each with the artists that it names.
pub open spec fn with_artists(links: Seq<TrackArtistView>, artists: Seq<ArtistView>) -> Seq<
    (TrackArtistView, ArtistView),
> {
    inner_join(
        links,
        artists,
        |link: TrackArtistView, artist: ArtistView| artist.id == link.artist_id,
        |link: TrackArtistView, artist: ArtistView| (link, artist),
    )
}

/// The links with their artists, each with the tracks that the link names.
pub open spec fn with_tracks(
    rows: Seq<(TrackArtistView, ArtistView)>,
    tracks: Seq<TrackView>,
) -> Seq<(TrackArtistView, ArtistView, TrackView)> {
    inner_join(
        rows,
        tracks,
        |row: (TrackArtistView, ArtistView), track: TrackView| track.id == row.0.track_id,
        |row: (TrackArtistView, ArtistView), track: TrackView| (row.0, row.1, track),
    )
}

/// The links with their artists and tracks, each with the measurements of the
/// track that the link names.
pub open spec fn with_features(
    rows: Seq<(TrackArtistView, ArtistView, TrackView)>,
    features: Seq<AudioFeaturesView>,
) -> Seq<DanceableTrackView> {
    inner_join(
        rows,
        features,
        |row: (TrackArtistView, ArtistView, TrackView), found: AudioFeaturesView|
            found.id == row.0.track_id,
        |row: (TrackArtistView, ArtistView, TrackView), found: AudioFeaturesView|
            candidate(row.1, row.2, found),
    )
}

/// The measurements that go with a link, its artist and one of its tracks give
/// the rows of that track.
proof fn lemma_rows_of_track(
    link: TrackArtistView,
    artist: ArtistView,
    track: TrackView,
    features: Seq<AudioFeaturesView>,
)
    requires
        track.id == link.track_id,
    ensures
        partners(
            (link, artist, track),
            features,
            |row: (TrackArtistView, ArtistView, TrackView), found: AudioFeaturesView|
                found.id == row.0.track_id,
            |row: (TrackArtistView, ArtistView, TrackView), found: AudioFeaturesView|
                candidate(row.1, row.2, found),
        ) == rows_of_track(artist, track, features),
{
    let on = |row: (TrackArtistView, ArtistView, TrackView), found: AudioFeaturesView|
        found.id == row.0.track_id;
    let pair = |row: (TrackArtistView, ArtistView, TrackView), found: AudioFeaturesView|
        candidate(row.1, row.2, found);
    let row = (link, artist, track);
    assert((|other: AudioFeaturesView| on(row, other)) =~= measures(track.id));
    assert((|other: AudioFeaturesView| pair(row, other)) =~= (|found: AudioFeaturesView|
        candidate(artist, track, found)));
}

/// The tracks that go with a link and its artist, each with its measurements,
/// give the rows of that artist.
proof fn lemma_rows_of_artist(
    link: TrackArtistView,
    artist: ArtistView,
    tracks: Seq<TrackView>,
    features: Seq<AudioFeaturesView>,
)
    ensures
        with_features(with_tracks(seq![(link, artist)], tracks), features) == rows_of_artist(
            link,
            artist,
            tracks,
            features,
        ),
{
    let on = |row: (TrackArtistView, ArtistView), track: TrackView| track.id == row.0.track_id;
    let pair = |row: (TrackArtistView, ArtistView), track: TrackView| (row.0, row.1, track);
    let of_pair = |row: (TrackArtistView, ArtistView)| partners(row, tracks, on, pair);
    let of_triple = |row: (TrackArtistView, ArtistView, TrackView)|
        partners(
            row,
            features,
            |row: (TrackArtistView, ArtistView, TrackView), found: AudioFeaturesView|
                found.id == row.0.track_id,
            |row: (TrackArtistView, ArtistView, TrackView), found: AudioFeaturesView|
                candidate(row.1, row.2, found),
        );
    let row = (link, artist);
    let named = tracks.filter(is_track(link.track_id));
    let triple = |track: TrackView| pair(row, track);
    seq![row].lemma_flat_map_singleton(of_pair);
    assert((|other: TrackView| on(row, other)) =~= is_track(link.track_id));
    assert((|other: TrackView| pair(row, other)) =~= triple);
    lemma_map_then_flat_map(named, triple, of_triple);
    assert forall|i: int| 0 <= i < named.len() implies (|track: TrackView|
        of_triple(triple(track)))(#[trigger] named[i]) == (|track: TrackView|
        rows_of_track(artist, track, features))(named[i]) by {
        tracks.lemma_filter_pred(is_track(link.track_id), i);
        lemma_rows_of_track(link, artist, named[i], features);
    }
    lemma_flat_map_same(
        named,
        |track: TrackView| of_triple(triple(track)),
        |track: TrackView| rows_of_track(artist, track, features),
    );
}

/// The artists that go with a link, each with the link's tracks and their
/// measurements, give the rows of that link.
proof fn lemma_rows_of_link(
    link: TrackArtistView,
    artists: Seq<ArtistView>,
    tracks: Seq<TrackView>,
    features: Seq<AudioFeaturesView>,
)
    ensures
        with_features(with_tracks(with_artists(seq![link], artists), tracks), features)
            == rows_of_link(link, artists, tracks, features),
{
    let on = |link: TrackArtistView, artist: ArtistView| artist.id == link.artist_id;
    let pair = |link: TrackArtistView, artist: ArtistView| (link, artist);
    let of_link = |link: TrackArtistView| partners(link, artists, on, pair);
    let of_pair = |row: (TrackArtistView, ArtistView)|
        partners(
            row,
            tracks,
            |row: (TrackArtistView, ArtistView), track: TrackView| track.id == row.0.track_id,
            |row: (TrackArtistView, ArtistView), track: TrackView| (row.0, row.1, track),
        );
    let of_triple = |row: (TrackArtistView, ArtistView, TrackView)|
        partners(
            row,
            features,
            |row: (TrackArtistView, ArtistView, TrackView), found: AudioFeaturesView|
                found.id == row.0.track_id,
            |row: (TrackArtistView, ArtistView, TrackView), found: AudioFeaturesView|
                candidate(row.1, row.2, found),
        );
    let named = artists.filter(is_artist(link.artist_id));
    let paired = |artist: ArtistView| pair(link, artist);
    let rows_of_pair = |row: (TrackArtistView, ArtistView)| of_pair(row).flat_map(of_triple);
    seq![link].lemma_flat_map_singleton(of_link);
    assert((|other: ArtistView| on(link, other)) =~= is_artist(link.artist_id));
    assert((|other: ArtistView| pair(link, other)) =~= paired);
    lemma_flat_map_twice(named.map_values(paired), of_pair, of_triple);
    lemma_map_then_flat_map(named, paired, rows_of_pair);
    assert forall|i: int| 0 <= i < named.len() implies (|artist: ArtistView|
        rows_of_pair(paired(artist)))(#[trigger] named[i]) == (|artist: ArtistView|
        rows_of_artist(link, artist, tracks, features))(named[i]) by {
        lemma_rows_of_artist(link, named[i], tracks, features);
        seq![(link, named[i])].lemma_flat_map_singleton(of_pair);
    }
    lemma_flat_map_same(
        named,
        |artist: ArtistView| rows_of_pair(paired(artist)),
        |artist: ArtistView| rows_of_artist(link, artist, tracks, features),
    );
}

/// The join is three inner joins, one after the other: of the links with the
/// artists on the artist's id, of what this gives with the tracks on the track's
/// id, and of what that gives with the measurements on the track's id.
pub proof fn law_joined_is_three_joins(
    links: Seq<TrackArtistView>,
    artists: Seq<ArtistView>,
    tracks: Seq<TrackView>,
    features: Seq<AudioFeaturesView>,
)
    ensures
        joined(links, artists, tracks, features) == with_features(
            with_tracks(with_artists(links, artists), tracks),
            features,
        ),
{
    let of_link = |link: TrackArtistView|
        partners(
            link,
            artists,
            |link: TrackArtistView, artist: ArtistView| artist.id == link.artist_id,
            |link: TrackArtistView, artist: ArtistView| (link, artist),
        );
    let of_pair = |row: (TrackArtistView, ArtistView)|
        partners(
            row,
            tracks,
            |row: (TrackArtistView, ArtistView), track: TrackView| track.id == row.0.track_id,
            |row: (TrackArtistView, ArtistView), track: TrackView| (row.0, row.1, track),
        );
    let of_triple = |row: (TrackArtistView, ArtistView, TrackView)|
        partners(
            row,
            features,
            |row: (TrackArtistView, ArtistView, TrackView), found: AudioFeaturesView|
                found.id == row.0.track_id,
            |row: (TrackArtistView, ArtistView, TrackView), found: AudioFeaturesView|
                candidate(row.1, row.2, found),
        );
    let rows_of_pair = |row: (TrackArtistView, ArtistView)| of_pair(row).flat_map(of_triple);
    let all_of_link = |link: TrackArtistView| of_link(link).flat_map(rows_of_pair);
    lemma_flat_map_twice(links.flat_map(of_link), of_pair, of_triple);
    lemma_flat_map_twice(links, of_link, rows_of_pair);
    assert forall|i: int| 0 <= i < links.len() implies all_of_link(#[trigger] links[i]) == (|
        link: TrackArtistView,
    | rows_of_link(link, artists, tracks, features))(links[i]) by {
        lemma_rows_of_link(links[i], artists, tracks, features);
        seq![links[i]].lemma_flat_map_singleton(of_link);
        lemma_flat_map_twice(of_link(links[i]), of_pair, of_triple);
    }
    lemma_flat_map_same(
        links,
        all_of_link,
        |link: TrackArtistView| rows_of_link(link, artists, tracks, features),
    );
}

/// Link `l` names artist `a` and track `t`, and `f` are measurements of that track.
pub open spec fn combines(
    links: Seq<TrackArtistView>,
    artists: Seq<ArtistView>,
    tracks: Seq<TrackView>,
    features: Seq<AudioFeaturesView>,
    l: int,
    a: int,
    t: int,
    f: int,
) -> bool {
    &&& 0 <= l < links.len()
    &&& 0 <= a < artists.len()
    &&& 0 <= t < tracks.len()
    &&& 0 <= f < features.len()
    &&& artists[a].id == links[l].artist_id
    &&& tracks[t].id == links[l].track_id
    &&& features[f].id == links[l].track_id
}

/// What the join holds: a row for each link with an artist, a track and
/// measurements that it names, and no other row.
pub proof fn law_joined_holds(
    links: Seq<TrackArtistView>,
    artists: Seq<ArtistView>,
    tracks: Seq<TrackView>,
    features: Seq<AudioFeaturesView>,
    row: DanceableTrackView,
)
    ensures
        joined(links, artists, tracks, features).contains(row) <==> exists|
            l: int,
            a: int,
            t: int,
            f: int,
        |
            #[trigger] combines(links, artists, tracks, features, l, a, t, f) && row == candidate(
                artists[a],
                tracks[t],
                features[f],
            ),
{
    let of_link = |link: TrackArtistView| rows_of_link(link, artists, tracks, features);
    lemma_flat_map_holds(links, of_link, row);
    if joined(links, artists, tracks, features).contains(row) {
        let l = choose|l: int| 0 <= l < links.len() && of_link(#[trigger] links[l]).contains(row);
        let of_artist = |artist: ArtistView| rows_of_artist(links[l], artist, tracks, features);
        lemma_filter_flat_map_holds(artists, is_artist(links[l].artist_id), of_artist, row);
        let a = choose|a: int|
            0 <= a < artists.len() && is_artist(links[l].artist_id)(#[trigger] artists[a])
                && of_artist(artists[a]).contains(row);
        let of_track = |track: TrackView| rows_of_track(artists[a], track, features);
        lemma_filter_flat_map_holds(tracks, is_track(links[l].track_id), of_track, row);
        let t = choose|t: int|
            0 <= t < tracks.len() && is_track(links[l].track_id)(#[trigger] tracks[t]) && of_track(
                tracks[t],
            ).contains(row);
        let of_features = |found: AudioFeaturesView| candidate(artists[a], tracks[t], found);
        lemma_filter_map_holds(features, measures(tracks[t].id), of_features, row);
        let f = choose|f: int|
            0 <= f < features.len() && measures(tracks[t].id)(#[trigger] features[f])
                && of_features(features[f]) == row;
        assert(combines(links, artists, tracks, features, l, a, t, f));
    }
    if exists|l: int, a: int, t: int, f: int|
        #[trigger] combines(links, artists, tracks, features, l, a, t, f) && row == candidate(
            artists[a],
            tracks[t],
            features[f],
        ) {
        let (l, a, t, f) = choose|l: int, a: int, t: int, f: int|
            #[trigger] combines(links, artists, tracks, features, l, a, t, f) && row == candidate(
                artists[a],
                tracks[t],
                features[f],
            );
        let of_artist = |artist: ArtistView| rows_of_artist(links[l], artist, tracks, features);
        let of_track = |track: TrackView| rows_of_track(artists[a], track, features);
        let of_features = |found: AudioFeaturesView| candidate(artists[a], tracks[t], found);
        lemma_filter_map_holds(features, measures(tracks[t].id), of_features, row);
        assert(measures(tracks[t].id)(features[f]) && of_features(features[f]) == row);
        lemma_filter_flat_map_holds(tracks, is_track(links[l].track_id), of_track, row);
        assert(is_track(links[l].track_id)(tracks[t]) && of_track(tracks[t]).contains(row));
        lemma_filter_flat_map_holds(artists, is_artist(links[l].artist_id), of_artist, row);
        assert(is_artist(links[l].artist_id)(artists[a]) && of_artist(artists[a]).contains(row));
        assert(of_link(links[l]).contains(row));
    }
}

/// What the choice of the best holds: the rows that are the best of their song.
pub proof fn law_best_holds(rows: Seq<DanceableTrackView>, row: DanceableTrackView)
    ensures
        best_of_each(rows).contains(row) <==> exists|i: int|
            0 <= i < rows.len() && #[trigger] is_best(rows, i) && rows[i] == row,
{
    let places = Seq::new(rows.len(), |i: int| i);
    let test = |i: int| is_best(rows, i);
    let row_at = |i: int| rows[i];
    lemma_filter_map_holds(places, test, row_at, row);
    if best_of_each(rows).contains(row) {
        let k = choose|k: int|
            0 <= k < places.len() && test(#[trigger] places[k]) && row_at(places[k]) == row;
        assert(is_best(rows, k) && rows[k] == row);
    }
    if exists|i: int| 0 <= i < rows.len() && #[trigger] is_best(rows, i) && rows[i] == row {
        let i = choose|i: int| 0 <= i < rows.len() && #[trigger] is_best(rows, i) && rows[i] == row;
        assert(test(places[i]) && row_at(places[i]) == row);
    }
}

/// The places of the best rows among the first `n`, in rising order.
proof fn lemma_best_places(rows: Seq<DanceableTrackView>, n: int)
    requires
        0 <= n <= rows.len(),
    ensures
        ({
            let kept = Seq::new(rows.len(), |i: int| i).take(n).filter(|i: int| is_best(rows, i));
            &&& forall|k: int|
                0 <= k < kept.len() ==> 0 <= #[trigger] kept[k] < n && is_best(rows, kept[k])
            &&& forall|j: int, k: int| 0 <= j < k < kept.len() ==> kept[j] < kept[k]
        }),
    decreases n,
{
    let places = Seq::new(rows.len(), |i: int| i);
    let test = |i: int| is_best(rows, i);
    if n == 0 {
        assert(places.take(0).filter(test).len() == 0) by {
            places.take(0).lemma_filter_len(test);
        }
    } else {
        lemma_best_places(rows, n - 1);
        assert(places.take(n) =~= places.take(n - 1).push(n - 1));
        places.take(n - 1).lemma_filter_push(n - 1, test);
    }
}

/// Of each song the choice of the best holds one row only.
pub proof fn law_best_one_of_each(rows: Seq<DanceableTrackView>)
    ensures
        forall|i: int, j: int|
            0 <= i < j < best_of_each(rows).len() ==> !same_song(
                best_of_each(rows)[i],
                best_of_each(rows)[j],
            ),
{
    let places = Seq::new(rows.len(), |i: int| i);
    let kept = places.filter(|i: int| is_best(rows, i));
    lemma_best_places(rows, rows.len() as int);
    assert(places.take(rows.len() as int) =~= places);
    assert forall|i: int, j: int| 0 <= i < j < best_of_each(rows).len() implies !same_song(
        best_of_each(rows)[i],
        best_of_each(rows)[j],
    ) by {
        let p = kept[i];
        let q = kept[j];
        assert(best_of_each(rows)[i] == rows[p]);
        assert(best_of_each(rows)[j] == rows[q]);
        assert(is_best(rows, p) && is_best(rows, q) && p < q);
        if same_song(rows[p], rows[q]) {
            assert(same_song(rows[q], rows[p]));
        }
    }
}

/// The row kept for a song is the most danceable of the song: each row of
/// `rows` has in the choice of the best a row of its song that is at least as
/// danceable.
pub proof fn law_best_is_greatest(rows: Seq<DanceableTrackView>, i: int)
    requires
        0 <= i < rows.len(),
    ensures
        exists|k: int|
            0 <= k < best_of_each(rows).len() && same_song(
                #[trigger] best_of_each(rows)[k],
                rows[i],
            ) && best_of_each(rows)[k].danceability >= rows[i].danceability,
{
    let b = lemma_best_of_song(rows, i);
    law_best_holds(rows, rows[b]);
    let k = choose|k: int| 0 <= k < best_of_each(rows).len() && best_of_each(rows)[k] == rows[b];
    assert(same_song(best_of_each(rows)[k], rows[i]));
}

/// Finds the best row of the song of row `i`.
proof fn lemma_best_of_song(rows: Seq<DanceableTrackView>, i: int) -> (b: int)
    requires
        0 <= i < rows.len(),
    ensures
        0 <= b < rows.len(),
        is_best(rows, b),
        same_song(rows[b], rows[i]),
        rows[b].danceability >= rows[i].danceability,
    decreases u64::MAX - rows[i].danceability, i,
{
    if is_best(rows, i) {
        i
    } else {
        let j = choose|j: int|
            0 <= j < rows.len() && same_song(#[trigger] rows[j], rows[i]) && !({
                ||| rows[j].danceability < rows[i].danceability
                ||| rows[j].danceability == rows[i].danceability && i <= j
            });
        lemma_best_of_song(rows, j)
    }
}

/// Of each song the tracks to dance to hold one row only.
pub proof fn law_danceable_one_of_each(
    artists: Seq<ArtistView>,
    tracks: Seq<TrackView>,
    features: Seq<AudioFeaturesView>,
    links: Seq<TrackArtistView>,
)
    ensures
        forall|i: int, j: int|
            0 <= i < j < danceable(artists, tracks, features, links).len() ==> !same_song(
                danceable(artists, tracks, features, links)[i],
                danceable(artists, tracks, features, links)[j],
            ),
{
    law_best_one_of_each(
        joined(links, named_artists(artists), clean_tracks(tracks), danceable_features(features)),
    );
}

/// `row` stands for link `l` with its artist `a`, its track `t` and the
/// measurements `f` of that track, the track is not explicit and the measurements
/// fit dancing.
pub open spec fn justifies(
    artists: Seq<ArtistView>,
    tracks: Seq<TrackView>,
    features: Seq<AudioFeaturesView>,
    links: Seq<TrackArtistView>,
    l: int,
    a: int,
    t: int,
    f: int,
    row: DanceableTrackView,
) -> bool {
    &&& combines(links, artists, tracks, features, l, a, t, f)
    &&& !tracks[t].explicit
    &&& is_danceable(features[f])
    &&& row == candidate(named_artist(artists[a]), named_track(tracks[t]), features[f])
}

/// Every track to dance to is justified: it stands for a link with its artist,
/// its track and that track's measurements; the track is not explicit, the
/// measurements lie within the bounds, and the names are in lower case.
pub proof fn law_danceable_is_justified(
    artists: Seq<ArtistView>,
    tracks: Seq<TrackView>,
    features: Seq<AudioFeaturesView>,
    links: Seq<TrackArtistView>,
    row: DanceableTrackView,
)
    requires
        danceable(artists, tracks, features, links).contains(row),
    ensures
        exists|l: int, a: int, t: int, f: int| #[trigger]
            justifies(artists, tracks, features, links, l, a, t, f, row),
{
    let by_name = named_artists(artists);
    let clean = clean_tracks(tracks);
    let fit = danceable_features(features);
    law_best_holds(joined(links, by_name, clean, fit), row);
    law_joined_holds(links, by_name, clean, fit, row);
    let (l, a, t1, f1) = choose|l: int, a: int, t: int, f: int|
        #[trigger] combines(links, by_name, clean, fit, l, a, t, f) && row == candidate(
            by_name[a],
            clean[t],
            fit[f],
        );
    assert(clean.contains(clean[t1]));
    lemma_filter_map_holds(
        tracks,
        |track: TrackView| !track.explicit,
        |track: TrackView| named_track(track),
        clean[t1],
    );
    let t = choose|t: int|
        0 <= t < tracks.len() && !(#[trigger] tracks[t]).explicit && named_track(tracks[t])
            == clean[t1];
    assert(fit.contains(fit[f1]));
    lemma_filter_holds(features, |row: AudioFeaturesView| is_danceable(row), fit[f1]);
    let f = choose|f: int| 0 <= f < features.len() && features[f] == fit[f1];
    assert(justifies(artists, tracks, features, links, l, a, t, f, row));
}

/// Every justified song is found: where a link names an artist and a track that is
/// not explicit, and measurements of that track fit dancing, the tracks to dance
/// to hold a row of that song, at least as danceable as these measurements.
pub proof fn law_justified_is_danceable(
    artists: Seq<ArtistView>,
    tracks: Seq<TrackView>,
    features: Seq<AudioFeaturesView>,
    links: Seq<TrackArtistView>,
    l: int,
    a: int,
    t: int,
    f: int,
)
    requires
        combines(links, artists, tracks, features, l, a, t, f),
        !tracks[t].explicit,
        is_danceable(features[f]),
    ensures
        exists|k: int|
            0 <= k < danceable(artists, tracks, features, links).len() && same_song(
                #[trigger] danceable(artists, tracks, features, links)[k],
                candidate(named_artist(artists[a]), named_track(tracks[t]), features[f]),
            ) && danceable(artists, tracks, features, links)[k].danceability
                >= features[f].danceability,
{
    let by_name = named_artists(artists);
    let clean = clean_tracks(tracks);
    let fit = danceable_features(features);
    let row = candidate(named_artist(artists[a]), named_track(tracks[t]), features[f]);
    lemma_filter_map_holds(
        tracks,
        |track: TrackView| !track.explicit,
        |track: TrackView| named_track(track),
        named_track(tracks[t]),
    );
    assert(clean.contains(named_track(tracks[t])));
    let t1 = choose|t1: int| 0 <= t1 < clean.len() && clean[t1] == named_track(tracks[t]);
    assert(features.contains(features[f]));
    lemma_filter_holds(features, |row: AudioFeaturesView| is_danceable(row), features[f]);
    assert(fit.contains(features[f]));
    let f1 = choose|f1: int| 0 <= f1 < fit.len() && fit[f1] == features[f];
    assert(by_name[a] == named_artist(artists[a]));
    assert(combines(links, by_name, clean, fit, l, a, t1, f1));
    law_joined_holds(links, by_name, clean, fit, row);
    let rows = joined(links, by_name, clean, fit);
    assert(rows.contains(row));
    let i = choose|i: int| 0 <= i < rows.len() && rows[i] == row;
    law_best_is_greatest(rows, i);
    let k = choose|k: int|
        0 <= k < best_of_each(rows).len() && same_song(#[trigger] best_of_each(rows)[k], rows[i])
            && best_of_each(rows)[k].danceability >= rows[i].danceability;
    assert(danceable(artists, tracks, features, links)[k] == best_of_each(rows)[k]);
}

} // verus!
