//! The tracks to dance to: what fits dancing, the join of the catalogue, and the
//! choice of the best row of each song.

use vstd::prelude::*;
use crate::rows::{
    Artist, ArtistView, AudioFeatures, AudioFeaturesView, DanceableTrack, DanceableTrackView,
    Measure, Track, TrackArtist, TrackArtistView, TrackView,
};
use crate::text::{fits_column, lowercased, lowered, text_fits};

verus! {

/// 0.45, the least danceability of a track to dance to.
pub const DANCEABILITY_LOW: Measure = 0x3fdc_cccc_cccc_cccd;

/// 0.99, the greatest danceability of a track to dance to.
pub const DANCEABILITY_HIGH: Measure = 0x3fef_ae14_7ae1_47ae;

/// 0.45, the least energy of a track to dance to.
pub const ENERGY_LOW: Measure = 0x3fdc_cccc_cccc_cccd;

/// 0.75, the greatest energy of a track to dance to.
pub const ENERGY_HIGH: Measure = 0x3fe8_0000_0000_0000;

/// 110 beats a minute, the least tempo of a track to dance to.
pub const TEMPO_LOW: Measure = 0x405b_8000_0000_0000;

/// 140 beats a minute, the greatest tempo of a track to dance to.
pub const TEMPO_HIGH: Measure = 0x4061_8000_0000_0000;

/// `value` lies between `low` and `high`, both ends included.
pub open spec fn within(value: Measure, low: Measure, high: Measure) -> bool {
    low <= value <= high
}

/// The measurements are those of a track to dance to: danceability, energy and
/// tempo each lie within their bounds, the bounds included.
pub open spec fn is_danceable(features: AudioFeaturesView) -> bool {
    &&& within(features.danceability, DANCEABILITY_LOW, DANCEABILITY_HIGH)
    &&& within(features.energy, ENERGY_LOW, ENERGY_HIGH)
    &&& within(features.tempo, TEMPO_LOW, TEMPO_HIGH)
}

/// The names that are put in lower case are short enough for it: the name of
/// each artist and of each track that is not explicit.
pub open spec fn names_fit(artists: Seq<ArtistView>, tracks: Seq<TrackView>) -> bool {
    &&& forall|i: int| 0 <= i < artists.len() ==> fits_column((#[trigger] artists[i]).name)
    &&& forall|i: int|
        0 <= i < tracks.len() && !(#[trigger] tracks[i]).explicit ==> fits_column(tracks[i].name)
}

/// The artist under the lower-case form of the name.
pub open spec fn named_artist(artist: ArtistView) -> ArtistView {
    ArtistView { id: artist.id, name: lowered(artist.name) }
}

/// The track under the lower-case form of its name.
pub open spec fn named_track(track: TrackView) -> TrackView {
    TrackView { id: track.id, name: lowered(track.name), explicit: track.explicit }
}

/// The artists, each under the lower-case form of the name.
pub open spec fn named_artists(artists: Seq<ArtistView>) -> Seq<ArtistView> {
    artists.map_values(|artist: ArtistView| named_artist(artist))
}

/// The tracks that are not explicit, each under the lower-case form of its name.
pub open spec fn clean_tracks(tracks: Seq<TrackView>) -> Seq<TrackView> {
    tracks.filter(|track: TrackView| !track.explicit).map_values(
        |track: TrackView| named_track(track),
    )
}

/// The measurements of the tracks to dance to.
pub open spec fn danceable_features(features: Seq<AudioFeaturesView>) -> Seq<AudioFeaturesView> {
    features.filter(|row: AudioFeaturesView| is_danceable(row))
}

/// Where a track is found, given its id.
pub open spec fn track_address(id: Seq<char>) -> Seq<char> {
    "https://open.spotify.com/track/"@ + id
}

/// The row that stands for a track with its measurements under one of its artists.
pub open spec fn candidate(
    artist: ArtistView,
    track: TrackView,
    features: AudioFeaturesView,
) -> DanceableTrackView {
    DanceableTrackView {
        artist_name: artist.name,
        track_name: track.name,
        danceability: features.danceability,
        energy: features.energy,
        track_id: track_address(track.id),
    }
}

/// The test that measurements are those of the track with this id.
pub open spec fn measures(track_id: Seq<char>) -> spec_fn(AudioFeaturesView) -> bool {
    |row: AudioFeaturesView| row.id == track_id
}

/// The test that a track has this id.
pub open spec fn is_track(track_id: Seq<char>) -> spec_fn(TrackView) -> bool {
    |track: TrackView| track.id == track_id
}

/// The test that an artist has this id.
pub open spec fn is_artist(artist_id: Seq<char>) -> spec_fn(ArtistView) -> bool {
    |artist: ArtistView| artist.id == artist_id
}

/// One row for each of the measurements of `track`, in their order.
pub open spec fn rows_of_track(
    artist: ArtistView,
    track: TrackView,
    features: Seq<AudioFeaturesView>,
) -> Seq<DanceableTrackView> {
    features.filter(measures(track.id)).map_values(
        |row: AudioFeaturesView| candidate(artist, track, row),
    )
}

/// The rows of the tracks that `link` names, under `artist`, track by track.
pub open spec fn rows_of_artist(
    link: TrackArtistView,
    artist: ArtistView,
    tracks: Seq<TrackView>,
    features: Seq<AudioFeaturesView>,
) -> Seq<DanceableTrackView> {
    tracks.filter(is_track(link.track_id)).flat_map(
        |track: TrackView| rows_of_track(artist, track, features),
    )
}

/// The rows of `link`: for each artist that it names, in their order, the rows of
/// the tracks that it names.
pub open spec fn rows_of_link(
    link: TrackArtistView,
    artists: Seq<ArtistView>,
    tracks: Seq<TrackView>,
    features: Seq<AudioFeaturesView>,
) -> Seq<DanceableTrackView> {
    artists.filter(is_artist(link.artist_id)).flat_map(
        |artist: ArtistView| rows_of_artist(link, artist, tracks, features),
    )
}

/// The links joined with the artists on the artist's id, then with the tracks and
/// with the measurements on the track's id. A link without an artist, a track or
/// measurements gives no row; one with several of a kind gives a row for each
/// combination. The rows come link by link, then artist by artist, track by track
/// and measurement by measurement.
pub open spec fn joined(
    links: Seq<TrackArtistView>,
    artists: Seq<ArtistView>,
    tracks: Seq<TrackView>,
    features: Seq<AudioFeaturesView>,
) -> Seq<DanceableTrackView> {
    links.flat_map(|link: TrackArtistView| rows_of_link(link, artists, tracks, features))
}

/// Two rows stand for the same song: same artist's name and same track's name.
pub open spec fn same_song(a: DanceableTrackView, b: DanceableTrackView) -> bool {
    a.artist_name == b.artist_name && a.track_name == b.track_name
}

/// Row `i` is the best of its song: no row of the same song has a greater
/// danceability, and none before it has the same.
pub open spec fn is_best(rows: Seq<DanceableTrackView>, i: int) -> bool {
    forall|j: int|
        0 <= j < rows.len() && same_song(#[trigger] rows[j], rows[i]) ==> {
            ||| rows[j].danceability < rows[i].danceability
            ||| rows[j].danceability == rows[i].danceability && i <= j
        }
}

/// The rows that are the best of their song, in the order in which they stand
/// in `rows`.
pub open spec fn best_of_each(rows: Seq<DanceableTrackView>) -> Seq<DanceableTrackView> {
    Seq::new(rows.len(), |i: int| i).filter(|i: int| is_best(rows, i)).map_values(
        |i: int| rows[i],
    )
}

/// The tracks to dance to: the links joined with the artists by name, the tracks
/// that are not explicit and the measurements that fit dancing, and of these
/// rows the best of each song.
pub open spec fn danceable(
    artists: Seq<ArtistView>,
    tracks: Seq<TrackView>,
    features: Seq<AudioFeaturesView>,
    links: Seq<TrackArtistView>,
) -> Seq<DanceableTrackView> {
    best_of_each(
        joined(links, named_artists(artists), clean_tracks(tracks), danceable_features(features)),
    )
}

/// Tests whether `value` lies between `low` and `high`, both ends included.
pub fn is_within(value: Measure, low: Measure, high: Measure) -> (inside: bool)
    ensures
        inside == within(value, low, high),
{
    low <= value && value <= high
}

/// Tests whether the measurements are those of a track to dance to.
pub fn fits_dancing(features: &AudioFeatures) -> (fits: bool)
    ensures
        fits == is_danceable(features@),
{
    is_within(features.danceability, DANCEABILITY_LOW, DANCEABILITY_HIGH) && is_within(
        features.energy,
        ENERGY_LOW,
        ENERGY_HIGH,
    ) && is_within(features.tempo, TEMPO_LOW, TEMPO_HIGH)
}

/// The artists, each under the lower-case form of the name.
fn lowercase_artists(artists: &Vec<Artist>) -> (named: Vec<Artist>)
    requires
        forall|i: int| 0 <= i < artists.len() ==> fits_column((#[trigger] artists.deep_view()[i]).name),
    ensures
        named.deep_view() == named_artists(artists.deep_view()),
{
    let mut named: Vec<Artist> = Vec::new();
    let mut i: usize = 0;
    while i < artists.len()
        invariant
            i <= artists.len(),
            forall|i: int|
                0 <= i < artists.len() ==> fits_column((#[trigger] artists.deep_view()[i]).name),
            named.deep_view() == named_artists(artists.deep_view().take(i as int)),
        decreases artists.len() - i,
    {
        let ghost before = artists.deep_view().take(i as int);
        let artist = &artists[i];
        assert(artists.deep_view()[i as int] == artist@);
        named.push(Artist { id: artist.id.clone(), name: lowercased(artist.name.as_str()) });
        proof {
            assert(artists.deep_view().take(i + 1) =~= before.push(artist@));
            before.lemma_push_map_commute(|artist: ArtistView| named_artist(artist), artist@);
        }
        i += 1;
    }
    assert(artists.deep_view().take(artists.len() as int) =~= artists.deep_view());
    named
}

/// The tracks that are not explicit, each under the lower-case form of its name.
fn lowercase_clean_tracks(tracks: &Vec<Track>) -> (clean: Vec<Track>)
    requires
        forall|i: int|
            0 <= i < tracks.len() && !(#[trigger] tracks.deep_view()[i]).explicit ==> fits_column(
                tracks.deep_view()[i].name,
            ),
    ensures
        clean.deep_view() == clean_tracks(tracks.deep_view()),
{
    let mut clean: Vec<Track> = Vec::new();
    let mut i: usize = 0;
    while i < tracks.len()
        invariant
            i <= tracks.len(),
            forall|i: int|
                0 <= i < tracks.len() && !(#[trigger] tracks.deep_view()[i]).explicit
                    ==> fits_column(tracks.deep_view()[i].name),
            clean.deep_view() == clean_tracks(tracks.deep_view().take(i as int)),
        decreases tracks.len() - i,
    {
        let ghost before = tracks.deep_view().take(i as int);
        let ghost test = |track: TrackView| !track.explicit;
        let track = &tracks[i];
        assert(tracks.deep_view()[i as int] == track@);
        if !track.explicit {
            clean.push(
                Track {
                    id: track.id.clone(),
                    name: lowercased(track.name.as_str()),
                    explicit: track.explicit,
                },
            );
        }
        proof {
            assert(tracks.deep_view().take(i + 1) =~= before.push(track@));
            before.lemma_filter_push(track@, test);
            before.filter(test).lemma_push_map_commute(
                |track: TrackView| named_track(track),
                track@,
            );
        }
        i += 1;
    }
    assert(tracks.deep_view().take(tracks.len() as int) =~= tracks.deep_view());
    clean
}

/// The measurements that fit dancing.
fn select_danceable(features: &Vec<AudioFeatures>) -> (fit: Vec<AudioFeatures>)
    ensures
        fit.deep_view() == danceable_features(features.deep_view()),
{
    let mut fit: Vec<AudioFeatures> = Vec::new();
    let mut i: usize = 0;
    while i < features.len()
        invariant
            i <= features.len(),
            fit.deep_view() == danceable_features(features.deep_view().take(i as int)),
        decreases features.len() - i,
    {
        let ghost before = features.deep_view().take(i as int);
        let row = &features[i];
        let fits = fits_dancing(row);
        if fits {
            fit.push(
                AudioFeatures {
                    id: row.id.clone(),
                    danceability: row.danceability,
                    energy: row.energy,
                    tempo: row.tempo,
                },
            );
        }
        proof {
            assert(features.deep_view().take(i + 1) =~= before.push(row@));
            before.lemma_filter_push(row@, |row: AudioFeaturesView| is_danceable(row));
        }
        i += 1;
    }
    assert(features.deep_view().take(features.len() as int) =~= features.deep_view());
    fit
}

/// The address of the track with this id.
fn address_of(id: &String) -> (address: String)
    ensures
        address@ == track_address(id@),
{
    String::from_str("https://open.spotify.com/track/").concat(id.as_str())
}

/// Adds to `rows` a row for each of the measurements of `track`.
fn push_rows_of_track(
    rows: &mut Vec<DanceableTrack>,
    artist: &Artist,
    track: &Track,
    features: &Vec<AudioFeatures>,
)
    ensures
        final(rows).deep_view() == old(rows).deep_view() + rows_of_track(
            artist@,
            track@,
            features.deep_view(),
        ),
{
    let ghost test = measures(track@.id);
    let ghost row_of = |row: AudioFeaturesView| candidate(artist@, track@, row);
    let mut i: usize = 0;
    while i < features.len()
        invariant
            i <= features.len(),
            test == measures(track@.id),
            row_of == |row: AudioFeaturesView| candidate(artist@, track@, row),
            rows.deep_view() == old(rows).deep_view() + features.deep_view().take(i as int).filter(
                test,
            ).map_values(row_of),
        decreases features.len() - i,
    {
        let ghost before = features.deep_view().take(i as int);
        let ghost done = rows.deep_view();
        let row = &features[i];
        let fits = row.id == track.id;
        if fits {
            rows.push(
                DanceableTrack {
                    artist_name: artist.name.clone(),
                    track_name: track.name.clone(),
                    danceability: row.danceability,
                    energy: row.energy,
                    track_id: address_of(&track.id),
                },
            );
        }
        proof {
            assert(features.deep_view().take(i + 1) =~= before.push(row@));
            before.lemma_filter_push(row@, test);
            before.filter(test).lemma_push_map_commute(row_of, row@);
            if fits {
                assert(rows.deep_view() =~= done.push(candidate(artist@, track@, row@)));
            }
        }
        i += 1;
    }
    assert(features.deep_view().take(features.len() as int) =~= features.deep_view());
}

/// Adds to `rows` the rows of the tracks that `link` names, under `artist`.
fn push_rows_of_artist(
    rows: &mut Vec<DanceableTrack>,
    link: &TrackArtist,
    artist: &Artist,
    tracks: &Vec<Track>,
    features: &Vec<AudioFeatures>,
)
    ensures
        final(rows).deep_view() == old(rows).deep_view() + rows_of_artist(
            link@,
            artist@,
            tracks.deep_view(),
            features.deep_view(),
        ),
{
    let ghost test = is_track(link@.track_id);
    let ghost rows_of = |track: TrackView| rows_of_track(artist@, track, features.deep_view());
    let mut i: usize = 0;
    while i < tracks.len()
        invariant
            i <= tracks.len(),
            test == is_track(link@.track_id),
            rows_of == |track: TrackView| rows_of_track(artist@, track, features.deep_view()),
            rows.deep_view() == old(rows).deep_view() + tracks.deep_view().take(i as int).filter(
                test,
            ).flat_map(rows_of),
        decreases tracks.len() - i,
    {
        let ghost before = tracks.deep_view().take(i as int);
        let track = &tracks[i];
        if track.id == link.track_id {
            push_rows_of_track(rows, artist, track, features);
        }
        proof {
            assert(tracks.deep_view().take(i + 1) =~= before.push(track@));
            before.lemma_filter_push(track@, test);
            before.filter(test).lemma_flat_map_push(rows_of, track@);
        }
        i += 1;
    }
    assert(tracks.deep_view().take(tracks.len() as int) =~= tracks.deep_view());
}

/// Adds to `rows` the rows of `link`, for each artist that it names.
fn push_rows_of_link(
    rows: &mut Vec<DanceableTrack>,
    link: &TrackArtist,
    artists: &Vec<Artist>,
    tracks: &Vec<Track>,
    features: &Vec<AudioFeatures>,
)
    ensures
        final(rows).deep_view() == old(rows).deep_view() + rows_of_link(
            link@,
            artists.deep_view(),
            tracks.deep_view(),
            features.deep_view(),
        ),
{
    let ghost test = is_artist(link@.artist_id);
    let ghost rows_of = |artist: ArtistView|
        rows_of_artist(link@, artist, tracks.deep_view(), features.deep_view());
    let mut i: usize = 0;
    while i < artists.len()
        invariant
            i <= artists.len(),
            test == is_artist(link@.artist_id),
            rows_of == |artist: ArtistView|
                rows_of_artist(link@, artist, tracks.deep_view(), features.deep_view()),
            rows.deep_view() == old(rows).deep_view() + artists.deep_view().take(i as int).filter(
                test,
            ).flat_map(rows_of),
        decreases artists.len() - i,
    {
        let ghost before = artists.deep_view().take(i as int);
        let artist = &artists[i];
        if artist.id == link.artist_id {
            push_rows_of_artist(rows, link, artist, tracks, features);
        }
        proof {
            assert(artists.deep_view().take(i + 1) =~= before.push(artist@));
            before.lemma_filter_push(artist@, test);
            before.filter(test).lemma_flat_map_push(rows_of, artist@);
        }
        i += 1;
    }
    assert(artists.deep_view().take(artists.len() as int) =~= artists.deep_view());
}

/// Joins the links with the artists on the artist's id, then with the tracks and
/// with the measurements on the track's id. The rows come link by link, then
/// artist by artist, track by track and measurement by measurement; what has no
/// partner gives no row.
pub fn join_tracks(
    links: &Vec<TrackArtist>,
    artists: &Vec<Artist>,
    tracks: &Vec<Track>,
    features: &Vec<AudioFeatures>,
) -> (rows: Vec<DanceableTrack>)
    ensures
        rows.deep_view() == joined(
            links.deep_view(),
            artists.deep_view(),
            tracks.deep_view(),
            features.deep_view(),
        ),
{
    let ghost rows_of = |link: TrackArtistView|
        rows_of_link(link, artists.deep_view(), tracks.deep_view(), features.deep_view());
    let mut rows: Vec<DanceableTrack> = Vec::new();
    let mut i: usize = 0;
    while i < links.len()
        invariant
            i <= links.len(),
            rows_of == |link: TrackArtistView|
                rows_of_link(link, artists.deep_view(), tracks.deep_view(), features.deep_view()),
            rows.deep_view() == links.deep_view().take(i as int).flat_map(rows_of),
        decreases links.len() - i,
    {
        let ghost before = links.deep_view().take(i as int);
        let link = &links[i];
        push_rows_of_link(&mut rows, link, artists, tracks, features);
        proof {
            assert(links.deep_view().take(i + 1) =~= before.push(link@));
            before.lemma_flat_map_push(rows_of, link@);
        }
        i += 1;
    }
    assert(links.deep_view().take(links.len() as int) =~= links.deep_view());
    rows
}

/// Tests whether row `i` is the best of its song.
fn leads(rows: &Vec<DanceableTrack>, i: usize) -> (best: bool)
    requires
        i < rows.len(),
    ensures
        best == is_best(rows.deep_view(), i as int),
{
    let row = &rows[i];
    let mut j: usize = 0;
    while j < rows.len()
        invariant
            j <= rows.len(),
            i < rows.len(),
            row@ == rows.deep_view()[i as int],
            forall|k: int|
                0 <= k < j && same_song(#[trigger] rows.deep_view()[k], rows.deep_view()[i as int])
                    ==> {
                    ||| rows.deep_view()[k].danceability < rows.deep_view()[i as int].danceability
                    ||| rows.deep_view()[k].danceability == rows.deep_view()[i as int].danceability
                        && i <= k
                },
        decreases rows.len() - j,
    {
        let other = &rows[j];
        assert(other@ == rows.deep_view()[j as int]);
        if other.artist_name == row.artist_name && other.track_name == row.track_name {
            if other.danceability > row.danceability || (other.danceability == row.danceability
                && j < i) {
                return false;
            }
        }
        j += 1;
    }
    true
}

/// Keeps, of the rows of each song, the one with the greatest danceability, and of
/// several such the first.
pub fn pick_best(rows: &Vec<DanceableTrack>) -> (best: Vec<DanceableTrack>)
    ensures
        best.deep_view() == best_of_each(rows.deep_view()),
{
    let ghost places = Seq::new(rows.len() as nat, |i: int| i);
    let ghost test = |i: int| is_best(rows.deep_view(), i);
    let ghost row_at = |i: int| rows.deep_view()[i];
    let mut best: Vec<DanceableTrack> = Vec::new();
    let mut i: usize = 0;
    while i < rows.len()
        invariant
            i <= rows.len(),
            places == Seq::new(rows.len() as nat, |i: int| i),
            test == |i: int| is_best(rows.deep_view(), i),
            row_at == |i: int| rows.deep_view()[i],
            best.deep_view() == places.take(i as int).filter(test).map_values(row_at),
        decreases rows.len() - i,
    {
        let ghost before = places.take(i as int);
        let keep = leads(rows, i);
        if keep {
            let row = &rows[i];
            best.push(
                DanceableTrack {
                    artist_name: row.artist_name.clone(),
                    track_name: row.track_name.clone(),
                    danceability: row.danceability,
                    energy: row.energy,
                    track_id: row.track_id.clone(),
                },
            );
        }
        proof {
            assert(places.take(i + 1) =~= before.push(i as int));
            before.lemma_filter_push(i as int, test);
            before.filter(test).lemma_push_map_commute(row_at, i as int);
        }
        i += 1;
    }
    assert(places.take(rows.len() as int) =~= places);
    best
}

/// Tests whether the names that are put in lower case are short enough for it:
/// the name of each artist and of each track that is not explicit.
pub fn do_names_fit(artists: &Vec<Artist>, tracks: &Vec<Track>) -> (fit: bool)
    ensures
        fit == names_fit(artists.deep_view(), tracks.deep_view()),
{
    let mut i: usize = 0;
    while i < artists.len()
        invariant
            i <= artists.len(),
            forall|k: int| 0 <= k < i ==> fits_column((#[trigger] artists.deep_view()[k]).name),
        decreases artists.len() - i,
    {
        assert(artists.deep_view()[i as int] == artists[i as int]@);
        if !text_fits(artists[i].name.as_str()) {
            return false;
        }
        i += 1;
    }
    let mut j: usize = 0;
    while j < tracks.len()
        invariant
            j <= tracks.len(),
            forall|k: int| 0 <= k < artists.len() ==> fits_column((#[trigger] artists.deep_view()[k]).name),
            forall|k: int|
                0 <= k < j && !(#[trigger] tracks.deep_view()[k]).explicit ==> fits_column(
                    tracks.deep_view()[k].name,
                ),
        decreases tracks.len() - j,
    {
        assert(tracks.deep_view()[j as int] == tracks[j as int]@);
        if !tracks[j].explicit && !text_fits(tracks[j].name.as_str()) {
            return false;
        }
        j += 1;
    }
    true
}

/// Finds the tracks to dance to. The artists and tracks are taken by their names
/// in lower case. Explicit tracks are left out, and so are tracks whose
/// danceability, energy or tempo lies outside its bounds. Each link of
/// `r_track_artist` is joined with its artist, its track and the track's
/// measurements; where several of the rows so made stand for the same song, the
/// one with the greatest danceability stays, and of several such the first.
///
/// The names of the artists and of the tracks that are not explicit must be
/// short enough to be put in lower case, which `do_names_fit` tests.
pub fn danceable_tracks(
    artists: &Vec<Artist>,
    tracks: &Vec<Track>,
    audio_features: &Vec<AudioFeatures>,
    r_track_artist: &Vec<TrackArtist>,
) -> (best: Vec<DanceableTrack>)
    requires
        names_fit(artists.deep_view(), tracks.deep_view()),
    ensures
        best.deep_view() == danceable(
            artists.deep_view(),
            tracks.deep_view(),
            audio_features.deep_view(),
            r_track_artist.deep_view(),
        ),
{
    let artists = lowercase_artists(artists);
    let tracks = lowercase_clean_tracks(tracks);
    let features = select_danceable(audio_features);
    let rows = join_tracks(r_track_artist, &artists, &tracks, &features);
    pick_best(&rows)
}

} // verus!
