use danceable::lyrics::genius_song_lyrics;
use danceable::ranking::danceable_songs;
use danceable::rows::{Artist, AudioFeatures, DanceableTrack, Lyrics, Track, TrackArtist};
use danceable::tracks::danceable_tracks;

fn artist(id: &str, name: &str) -> Artist {
    Artist { id: id.to_string(), name: name.to_string() }
}

fn track(id: &str, name: &str, explicit: bool) -> Track {
    Track { id: id.to_string(), name: name.to_string(), explicit }
}

fn features(id: &str, danceability: f64, energy: f64, tempo: f64) -> AudioFeatures {
    AudioFeatures {
        id: id.to_string(),
        danceability: danceability.to_bits(),
        energy: energy.to_bits(),
        tempo: tempo.to_bits(),
    }
}

fn link(track_id: &str, artist_id: &str) -> TrackArtist {
    TrackArtist { track_id: track_id.to_string(), artist_id: artist_id.to_string() }
}

fn entry(title: &str, artist: &str, views: i64) -> Lyrics {
    Lyrics {
        title: title.to_string(),
        artist: artist.to_string(),
        lyrics: "this has the word love in it".to_string(),
        language: "en".to_string(),
        views,
    }
}

struct Catalogue {
    artists: Vec<Artist>,
    tracks: Vec<Track>,
    features: Vec<AudioFeatures>,
    links: Vec<TrackArtist>,
}

fn one_song() -> Catalogue {
    Catalogue {
        artists: vec![artist("1", "Test Artist")],
        tracks: vec![track("10", "Test Song", false)],
        features: vec![features("10", 0.5, 0.5, 120.0)],
        links: vec![link("10", "1")],
    }
}

fn run(catalogue: &Catalogue, entries: &Vec<Lyrics>) -> Vec<DanceableTrack> {
    let keys = genius_song_lyrics(entries, &["love".to_string()], 1000);
    let tracks = danceable_tracks(
        &catalogue.artists,
        &catalogue.tracks,
        &catalogue.features,
        &catalogue.links,
    );
    danceable_songs(&tracks, &keys)
}

#[test]
fn one_song_end_to_end() {
    let songs = run(&one_song(), &vec![entry("Test Song", "Test Artist", 2000)]);
    assert_eq!(songs.len(), 1);
    assert_eq!(songs[0].artist_name, "test artist");
    assert_eq!(songs[0].track_name, "test song");
    assert_eq!(f64::from_bits(songs[0].danceability), 0.5);
    assert_eq!(f64::from_bits(songs[0].energy), 0.5);
    assert_eq!(songs[0].track_id, "https://open.spotify.com/track/10");
}

#[test]
fn too_few_views_gives_nothing() {
    let songs = run(&one_song(), &vec![entry("Test Song", "Test Artist", 500)]);
    assert!(songs.is_empty());
}

#[test]
fn other_artist_gives_nothing() {
    let songs = run(&one_song(), &vec![entry("Test Song", "Other Artist", 2000)]);
    assert!(songs.is_empty());
}

#[test]
fn other_title_gives_nothing() {
    let songs = run(&one_song(), &vec![entry("Other Song", "Test Artist", 2000)]);
    assert!(songs.is_empty());
}

#[test]
fn names_match_whatever_the_letter_case() {
    let catalogue = Catalogue {
        artists: vec![artist("7", "bjÖrk")],
        tracks: vec![track("70", "ARMY OF ME", false)],
        features: vec![features("70", 0.6, 0.7, 130.0)],
        links: vec![link("70", "7")],
    };
    let songs = run(&catalogue, &vec![entry("Army of Me", "BjÖrk", 5000)]);
    assert_eq!(songs.len(), 1);
    assert_eq!(songs[0].artist_name, "björk");
    assert_eq!(songs[0].track_name, "army of me");
}

#[test]
fn explicit_track_never_comes_out() {
    let mut catalogue = one_song();
    catalogue.tracks = vec![track("10", "Test Song", true)];
    let songs = run(&catalogue, &vec![entry("Test Song", "Test Artist", 2000)]);
    assert!(songs.is_empty());
    for danceability in [0.45, 0.6, 0.9, 0.99] {
        catalogue.features = vec![features("10", danceability, 0.6, 125.0)];
        let songs = run(&catalogue, &vec![entry("Test Song", "Test Artist", 2000)]);
        assert!(songs.is_empty());
    }
}

#[test]
fn explicit_version_is_left_out_and_clean_version_stays() {
    let catalogue = Catalogue {
        artists: vec![artist("1", "Test Artist")],
        tracks: vec![track("10", "Test Song", true), track("11", "Test Song", false)],
        features: vec![features("10", 0.9, 0.5, 120.0), features("11", 0.5, 0.5, 120.0)],
        links: vec![link("10", "1"), link("11", "1")],
    };
    let songs = run(&catalogue, &vec![entry("Test Song", "Test Artist", 2000)]);
    assert_eq!(songs.len(), 1);
    assert_eq!(songs[0].track_id, "https://open.spotify.com/track/11");
    assert_eq!(f64::from_bits(songs[0].danceability), 0.5);
}

#[test]
fn songs_come_from_the_most_danceable_to_the_least() {
    let catalogue = Catalogue {
        artists: vec![artist("1", "First"), artist("2", "Second")],
        tracks: vec![
            track("10", "Slow", false),
            track("11", "Fast", false),
            track("12", "Middle", false),
            track("13", "Unsung", false),
        ],
        features: vec![
            features("10", 0.5, 0.5, 120.0),
            features("11", 0.9, 0.5, 120.0),
            features("12", 0.7, 0.5, 120.0),
            features("13", 0.8, 0.5, 120.0),
        ],
        links: vec![link("10", "1"), link("11", "1"), link("12", "2"), link("13", "2")],
    };
    let entries = vec![
        entry("Slow", "First", 2000),
        entry("Middle", "Second", 2000),
        entry("Fast", "First", 2000),
    ];
    let songs = run(&catalogue, &entries);
    let names: Vec<&str> = songs.iter().map(|song| song.track_name.as_str()).collect();
    assert_eq!(names, vec!["fast", "middle", "slow"]);
    for pair in songs.windows(2) {
        assert!(f64::from_bits(pair[0].danceability) >= f64::from_bits(pair[1].danceability));
    }
}

#[test]
fn same_input_gives_same_songs() {
    let catalogue = Catalogue {
        artists: vec![artist("1", "First"), artist("2", "Second")],
        tracks: vec![track("10", "One", false), track("11", "Two", false)],
        features: vec![features("10", 0.6, 0.5, 120.0), features("11", 0.6, 0.6, 111.0)],
        links: vec![link("10", "1"), link("11", "2"), link("11", "1")],
    };
    let entries =
        vec![entry("Two", "Second", 2000), entry("One", "First", 2000), entry("Two", "First", 3000)];
    let first = run(&catalogue, &entries);
    let second = run(&catalogue, &entries);
    assert_eq!(first.len(), 3);
    assert_eq!(first, second);
}

#[test]
fn a_song_comes_once_for_each_entry_that_names_it() {
    let entries =
        vec![entry("Test Song", "Test Artist", 2000), entry("TEST SONG", "TEST ARTIST", 3000)];
    let songs = run(&one_song(), &entries);
    assert_eq!(songs.len(), 2);
    assert_eq!(songs[0], songs[1]);
}

#[test]
fn track_of_two_artists_comes_under_each() {
    let catalogue = Catalogue {
        artists: vec![artist("1", "Solo"), artist("2", "Guest")],
        tracks: vec![track("10", "Duet", false)],
        features: vec![features("10", 0.8, 0.6, 128.0)],
        links: vec![link("10", "1"), link("10", "2")],
    };
    let tracks = danceable_tracks(
        &catalogue.artists,
        &catalogue.tracks,
        &catalogue.features,
        &catalogue.links,
    );
    assert_eq!(tracks.len(), 2);
    assert_eq!(tracks[0].artist_name, "solo");
    assert_eq!(tracks[1].artist_name, "guest");
    let songs = run(&catalogue, &vec![entry("Duet", "Guest", 2000)]);
    assert_eq!(songs.len(), 1);
    assert_eq!(songs[0].artist_name, "guest");
}
