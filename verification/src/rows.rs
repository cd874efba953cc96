//! The rows of the tables that the query reads and gives, and their views.

use vstd::prelude::*;

verus! {

/// A measurement of a recording. It is held as the bit pattern of the IEEE-754
/// double-precision number that was measured. For two measurements that are
/// zero or positive numbers, the larger number has the larger bit pattern, and a
/// negative number or a not-a-number has a bit pattern above that of every
/// positive finite number.
pub type Measure = u64;

/// One artist of the catalogue.
#[derive(Clone, Debug, PartialEq, Eq)]
pub struct Artist {
    pub id: String,
    pub name: String,
}

/// What an artist holds, with each text as its characters.
pub struct ArtistView {
    pub id: Seq<char>,
    pub name: Seq<char>,
}

impl View for Artist {
    type V = ArtistView;

    open spec fn view(&self) -> ArtistView {
        ArtistView { id: self.id@, name: self.name@ }
    }
}

impl DeepView for Artist {
    type V = ArtistView;

    open spec fn deep_view(&self) -> ArtistView {
        self@
    }
}

/// One track of the catalogue.
#[derive(Clone, Debug, PartialEq, Eq)]
pub struct Track {
    pub id: String,
    pub name: String,
    pub explicit: bool,
}

/// What a track holds, with each text as its characters.
pub struct TrackView {
    pub id: Seq<char>,
    pub name: Seq<char>,
    pub explicit: bool,
}

impl View for Track {
    type V = TrackView;

    open spec fn view(&self) -> TrackView {
        TrackView { id: self.id@, name: self.name@, explicit: self.explicit }
    }
}

impl DeepView for Track {
    type V = TrackView;

    open spec fn deep_view(&self) -> TrackView {
        self@
    }
}

/// The measurements of one track; `id` is the track's id.
#[derive(Clone, Debug, PartialEq, Eq)]
pub struct AudioFeatures {
    pub id: String,
    pub danceability: Measure,
    pub energy: Measure,
    pub tempo: Measure,
}

/// What measurements holds, with each text as its characters.
pub struct AudioFeaturesView {
    pub id: Seq<char>,
    pub danceability: Measure,
    pub energy: Measure,
    pub tempo: Measure,
}

impl View for AudioFeatures {
    type V = AudioFeaturesView;

    open spec fn view(&self) -> AudioFeaturesView {
        AudioFeaturesView {
            id: self.id@,
            danceability: self.danceability,
            energy: self.energy,
            tempo: self.tempo,
        }
    }
}

impl DeepView for AudioFeatures {
    type V = AudioFeaturesView;

    open spec fn deep_view(&self) -> AudioFeaturesView {
        self@
    }
}

/// States that an artist performs on a track. A track may have several artists
/// and an artist several tracks.
#[derive(Clone, Debug, PartialEq, Eq)]
pub struct TrackArtist {
    pub track_id: String,
    pub artist_id: String,
}

/// What a link holds, with each text as its characters.
pub struct TrackArtistView {
    pub track_id: Seq<char>,
    pub artist_id: Seq<char>,
}

impl View for TrackArtist {
    type V = TrackArtistView;

    open spec fn view(&self) -> TrackArtistView {
        TrackArtistView { track_id: self.track_id@, artist_id: self.artist_id@ }
    }
}

impl DeepView for TrackArtist {
    type V = TrackArtistView;

    open spec fn deep_view(&self) -> TrackArtistView {
        self@
    }
}

/// One entry of the lyrics collection.
#[derive(Clone, Debug, PartialEq, Eq)]
pub struct Lyrics {
    pub title: String,
    pub artist: String,
    pub lyrics: String,
    pub language: String,
    pub views: i64,
}

/// What an entry of the lyrics holds, with each text as its characters.
pub struct LyricsView {
    pub title: Seq<char>,
    pub artist: Seq<char>,
    pub lyrics: Seq<char>,
    pub language: Seq<char>,
    pub views: i64,
}

impl View for Lyrics {
    type V = LyricsView;

    open spec fn view(&self) -> LyricsView {
        LyricsView {
            title: self.title@,
            artist: self.artist@,
            lyrics: self.lyrics@,
            language: self.language@,
            views: self.views,
        }
    }
}

impl DeepView for Lyrics {
    type V = LyricsView;

    open spec fn deep_view(&self) -> LyricsView {
        self@
    }
}

/// The two names by which a song is found again, both in lower case.
#[derive(Clone, Debug, PartialEq, Eq)]
pub struct SongKey {
    pub track_name: String,
    pub artist_name: String,
}

/// What a key holds, with each text as its characters.
pub struct SongKeyView {
    pub track_name: Seq<char>,
    pub artist_name: Seq<char>,
}

impl View for SongKey {
    type V = SongKeyView;

    open spec fn view(&self) -> SongKeyView {
        SongKeyView { track_name: self.track_name@, artist_name: self.artist_name@ }
    }
}

impl DeepView for SongKey {
    type V = SongKeyView;

    open spec fn deep_view(&self) -> SongKeyView {
        self@
    }
}

/// A track that is fit to dance to, under the name of one of its artists.
/// `track_id` is the address of the track.
#[derive(Clone, Debug, PartialEq, Eq)]
pub struct DanceableTrack {
    pub artist_name: String,
    pub track_name: String,
    pub danceability: Measure,
    pub energy: Measure,
    pub track_id: String,
}

/// What a track to dance to holds, with each text as its characters.
pub struct DanceableTrackView {
    pub artist_name: Seq<char>,
    pub track_name: Seq<char>,
    pub danceability: Measure,
    pub energy: Measure,
    pub track_id: Seq<char>,
}

impl View for DanceableTrack {
    type V = DanceableTrackView;

    open spec fn view(&self) -> DanceableTrackView {
        DanceableTrackView {
            artist_name: self.artist_name@,
            track_name: self.track_name@,
            danceability: self.danceability,
            energy: self.energy,
            track_id: self.track_id@,
        }
    }
}

impl DeepView for DanceableTrack {
    type V = DanceableTrackView;

    open spec fn deep_view(&self) -> DanceableTrackView {
        self@
    }
}

} // verus!
