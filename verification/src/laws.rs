//! What holds of the whole query, from the catalogue and the lyrics to the songs.

use vstd::prelude::*;
use crate::lyrics::{is_wanted, key_of, law_wanted_keys_hold, wanted_keys};
use crate::ranking::{
    danceable_songs_of, is_ranked, law_matched_holds, law_ranked_holds, law_ranked_is_ordered,
    matched, names,
};
use crate::rows::{
    ArtistView, AudioFeaturesView, DanceableTrackView, LyricsView, TrackArtistView, TrackView,
};
use crate::text::lowered;
use crate::track_laws::{
    combines, justifies, law_danceable_is_justified, law_justified_is_danceable,
};
use crate::tracks::{
    candidate, danceable, is_danceable, named_artist, named_track, same_song, track_address,
    within, DANCEABILITY_HIGH, DANCEABILITY_LOW, ENERGY_HIGH, ENERGY_LOW,
};

verus! {

/// The songs to dance to that a catalogue and a collection of lyrics give: the
/// tracks to dance to whose song a wanted entry names, from the most danceable
/// to the least.
pub open spec fn songs(
    entries: Seq<LyricsView>,
    keywords: Seq<Seq<char>>,
    min_views: i32,
    artists: Seq<ArtistView>,
    tracks: Seq<TrackView>,
    features: Seq<AudioFeaturesView>,
    links: Seq<TrackArtistView>,
) -> Seq<DanceableTrackView> {
    danceable_songs_of(
        danceable(artists, tracks, features, links),
        wanted_keys(entries, keywords, min_views),
    )
}

/// Entry `e` is wanted and names the song of `row`, letter case set aside.
pub open spec fn is_sung(
    entries: Seq<LyricsView>,
    keywords: Seq<Seq<char>>,
    min_views: i32,
    e: int,
    row: DanceableTrackView,
) -> bool {
    &&& 0 <= e < entries.len()
    &&& is_wanted(entries[e], keywords, min_views)
    &&& lowered(entries[e].artist) == row.artist_name
    &&& lowered(entries[e].title) == row.track_name
}

/// Every song of the result is justified. It stands for a link with its artist,
/// its track and that track's measurements, under their names in lower case; the
/// track is not explicit; the measurements lie within the bounds; and a wanted
/// entry of the lyrics has, in lower case, the same artist and title.
pub proof fn law_song_is_justified(
    entries: Seq<LyricsView>,
    keywords: Seq<Seq<char>>,
    min_views: i32,
    artists: Seq<ArtistView>,
    tracks: Seq<TrackView>,
    features: Seq<AudioFeaturesView>,
    links: Seq<TrackArtistView>,
    row: DanceableTrackView,
)
    requires
        songs(entries, keywords, min_views, artists, tracks, features, links).contains(row),
    ensures
        exists|l: int, a: int, t: int, f: int| #[trigger]
            justifies(artists, tracks, features, links, l, a, t, f, row),
        exists|e: int| #[trigger] is_sung(entries, keywords, min_views, e, row),
{
    let rows = danceable(artists, tracks, features, links);
    let keys = wanted_keys(entries, keywords, min_views);
    law_ranked_holds(matched(rows, keys), row);
    law_matched_holds(rows, keys, row);
    law_danceable_is_justified(artists, tracks, features, links, row);
    let k = choose|k: int| 0 <= k < keys.len() && names(#[trigger] keys[k], row);
    assert(keys.contains(keys[k]));
    law_wanted_keys_hold(entries, keywords, min_views, keys[k]);
    let e = choose|e: int|
        0 <= e < entries.len() && is_wanted(#[trigger] entries[e], keywords, min_views) && key_of(
            entries[e],
        ) == keys[k];
    assert(is_sung(entries, keywords, min_views, e, row));
}

/// Every justified song is in the result. Where a link names an artist and a
/// track that is not explicit, measurements of that track lie within the bounds,
/// and a wanted entry of the lyrics has the same artist and title once all are
/// put in lower case, the result holds a row of that song, at least as
/// danceable as these measurements.
pub proof fn law_justified_song_is_found(
    entries: Seq<LyricsView>,
    keywords: Seq<Seq<char>>,
    min_views: i32,
    artists: Seq<ArtistView>,
    tracks: Seq<TrackView>,
    features: Seq<AudioFeaturesView>,
    links: Seq<TrackArtistView>,
    l: int,
    a: int,
    t: int,
    f: int,
    e: int,
)
    requires
        combines(links, artists, tracks, features, l, a, t, f),
        !tracks[t].explicit,
        is_danceable(features[f]),
        0 <= e < entries.len(),
        is_wanted(entries[e], keywords, min_views),
        lowered(entries[e].artist) == lowered(artists[a].name),
        lowered(entries[e].title) == lowered(tracks[t].name),
    ensures
        exists|k: int|
            0 <= k < songs(entries, keywords, min_views, artists, tracks, features, links).len()
                && same_song(
                #[trigger] songs(entries, keywords, min_views, artists, tracks, features, links)[k],
                candidate(named_artist(artists[a]), named_track(tracks[t]), features[f]),
            ) && songs(entries, keywords, min_views, artists, tracks, features, links)[k].danceability
                >= features[f].danceability,
{
    let rows = danceable(artists, tracks, features, links);
    let keys = wanted_keys(entries, keywords, min_views);
    let all = songs(entries, keywords, min_views, artists, tracks, features, links);
    law_justified_is_danceable(artists, tracks, features, links, l, a, t, f);
    let i = choose|i: int|
        0 <= i < rows.len() && same_song(
            #[trigger] rows[i],
            candidate(named_artist(artists[a]), named_track(tracks[t]), features[f]),
        ) && rows[i].danceability >= features[f].danceability;
    law_wanted_keys_hold(entries, keywords, min_views, key_of(entries[e]));
    let k = choose|k: int| 0 <= k < keys.len() && keys[k] == key_of(entries[e]);
    assert(names(keys[k], rows[i]));
    assert(rows.contains(rows[i]));
    law_matched_holds(rows, keys, rows[i]);
    law_ranked_holds(matched(rows, keys), rows[i]);
    let at = choose|at: int| 0 <= at < all.len() && all[at] == rows[i];
    assert(same_song(
        all[at],
        candidate(named_artist(artists[a]), named_track(tracks[t]), features[f]),
    ));
}

/// The result is in order: no song is more danceable than one before it.
pub proof fn law_songs_are_ordered(
    entries: Seq<LyricsView>,
    keywords: Seq<Seq<char>>,
    min_views: i32,
    artists: Seq<ArtistView>,
    tracks: Seq<TrackView>,
    features: Seq<AudioFeaturesView>,
    links: Seq<TrackArtistView>,
)
    ensures
        is_ranked(songs(entries, keywords, min_views, artists, tracks, features, links)),
{
    law_ranked_is_ordered(
        matched(
            danceable(artists, tracks, features, links),
            wanted_keys(entries, keywords, min_views),
        ),
    );
}

/// The danceability and the energy of every song of the result lie within their
/// bounds, the bounds included.
pub proof fn law_songs_are_within_bounds(
    entries: Seq<LyricsView>,
    keywords: Seq<Seq<char>>,
    min_views: i32,
    artists: Seq<ArtistView>,
    tracks: Seq<TrackView>,
    features: Seq<AudioFeaturesView>,
    links: Seq<TrackArtistView>,
    k: int,
)
    requires
        0 <= k < songs(entries, keywords, min_views, artists, tracks, features, links).len(),
    ensures
        within(
            songs(entries, keywords, min_views, artists, tracks, features, links)[k].danceability,
            DANCEABILITY_LOW,
            DANCEABILITY_HIGH,
        ),
        within(
            songs(entries, keywords, min_views, artists, tracks, features, links)[k].energy,
            ENERGY_LOW,
            ENERGY_HIGH,
        ),
{
    let all = songs(entries, keywords, min_views, artists, tracks, features, links);
    assert(all.contains(all[k]));
    law_song_is_justified(entries, keywords, min_views, artists, tracks, features, links, all[k]);
}

/// An explicit track stays out whatever its measurements: where every track of
/// a given id is explicit, no song of the result has the address of that id.
pub proof fn law_explicit_tracks_stay_out(
    entries: Seq<LyricsView>,
    keywords: Seq<Seq<char>>,
    min_views: i32,
    artists: Seq<ArtistView>,
    tracks: Seq<TrackView>,
    features: Seq<AudioFeaturesView>,
    links: Seq<TrackArtistView>,
    id: Seq<char>,
    k: int,
)
    requires
        forall|t: int| 0 <= t < tracks.len() && (#[trigger] tracks[t]).id == id ==> tracks[t].explicit,
        0 <= k < songs(entries, keywords, min_views, artists, tracks, features, links).len(),
    ensures
        songs(entries, keywords, min_views, artists, tracks, features, links)[k].track_id
            != track_address(id),
{
    let all = songs(entries, keywords, min_views, artists, tracks, features, links);
    assert(all.contains(all[k]));
    law_song_is_justified(entries, keywords, min_views, artists, tracks, features, links, all[k]);
    let (l, a, t, f) = choose|l: int, a: int, t: int, f: int| #[trigger]
        justifies(artists, tracks, features, links, l, a, t, f, all[k]);
    if all[k].track_id == track_address(id) {
        let prefix = "https://open.spotify.com/track/"@;
        assert((prefix + id).subrange(prefix.len() as int, (prefix + id).len() as int) =~= id);
        assert((prefix + tracks[t].id).subrange(
            prefix.len() as int,
            (prefix + tracks[t].id).len() as int,
        ) =~= tracks[t].id);
    }
}

/// The result depends on what is given and on nothing else: on one machine, or
/// on two whose words have the same size, the same entries, keywords, threshold
/// and catalogue give the same songs in the same order.
pub proof fn law_same_input_same_songs(
    entries: Seq<LyricsView>,
    keywords: Seq<Seq<char>>,
    min_views: i32,
    artists: Seq<ArtistView>,
    tracks: Seq<TrackView>,
    features: Seq<AudioFeaturesView>,
    links: Seq<TrackArtistView>,
    entries_again: Seq<LyricsView>,
    keywords_again: Seq<Seq<char>>,
    artists_again: Seq<ArtistView>,
    tracks_again: Seq<TrackView>,
    features_again: Seq<AudioFeaturesView>,
    links_again: Seq<TrackArtistView>,
)
    requires
        entries =~= entries_again,
        keywords =~= keywords_again,
        artists =~= artists_again,
        tracks =~= tracks_again,
        features =~= features_again,
        links =~= links_again,
    ensures
        songs(entries, keywords, min_views, artists, tracks, features, links) == songs(
            entries_again,
            keywords_again,
            min_views,
            artists_again,
            tracks_again,
            features_again,
            links_again,
        ),
{
}

} // verus!
