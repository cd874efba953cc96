use danceable::ranking::{danceable_songs, match_songs, rank};
use danceable::rows::{Artist, AudioFeatures, DanceableTrack, SongKey, Track, TrackArtist};
use danceable::text::MAX_TEXT;
use danceable::tracks::{
    danceable_tracks, do_names_fit, fits_dancing, is_within, join_tracks, pick_best,
    DANCEABILITY_HIGH, DANCEABILITY_LOW, ENERGY_HIGH, ENERGY_LOW, TEMPO_HIGH, TEMPO_LOW,
};

fn features(danceability: f64, energy: f64, tempo: f64) -> AudioFeatures {
    AudioFeatures {
        id: "10".to_string(),
        danceability: danceability.to_bits(),
        energy: energy.to_bits(),
        tempo: tempo.to_bits(),
    }
}

fn row(artist: &str, track: &str, danceability: f64, id: &str) -> DanceableTrack {
    DanceableTrack {
        artist_name: artist.to_string(),
        track_name: track.to_string(),
        danceability: danceability.to_bits(),
        energy: 0.5f64.to_bits(),
        track_id: id.to_string(),
    }
}

fn key(track_name: &str, artist_name: &str) -> SongKey {
    SongKey { track_name: track_name.to_string(), artist_name: artist_name.to_string() }
}

fn ids(rows: &Vec<DanceableTrack>) -> Vec<&str> {
    rows.iter().map(|row| row.track_id.as_str()).collect()
}

#[test]
fn bounds_are_the_numbers_they_stand_for() {
    assert_eq!(DANCEABILITY_LOW, 0.45f64.to_bits());
    assert_eq!(DANCEABILITY_HIGH, 0.99f64.to_bits());
    assert_eq!(ENERGY_LOW, 0.45f64.to_bits());
    assert_eq!(ENERGY_HIGH, 0.75f64.to_bits());
    assert_eq!(TEMPO_LOW, 110.0f64.to_bits());
    assert_eq!(TEMPO_HIGH, 140.0f64.to_bits());
}

#[test]
fn danceability_bounds_are_included() {
    assert!(fits_dancing(&features(0.45, 0.6, 120.0)));
    assert!(fits_dancing(&features(0.99, 0.6, 120.0)));
    assert!(!fits_dancing(&features(0.449999, 0.6, 120.0)));
    assert!(!fits_dancing(&features(0.990001, 0.6, 120.0)));
}

#[test]
fn energy_bounds_are_included() {
    assert!(fits_dancing(&features(0.6, 0.45, 120.0)));
    assert!(fits_dancing(&features(0.6, 0.75, 120.0)));
    assert!(!fits_dancing(&features(0.6, 0.449999, 120.0)));
    assert!(!fits_dancing(&features(0.6, 0.750001, 120.0)));
}

#[test]
fn tempo_bounds_are_included() {
    assert!(fits_dancing(&features(0.6, 0.6, 110.0)));
    assert!(fits_dancing(&features(0.6, 0.6, 140.0)));
    assert!(!fits_dancing(&features(0.6, 0.6, 109.999999)));
    assert!(!fits_dancing(&features(0.6, 0.6, 140.000001)));
}

#[test]
fn numbers_far_from_the_bounds_do_not_fit() {
    assert!(!fits_dancing(&features(0.0, 0.6, 120.0)));
    assert!(!fits_dancing(&features(-0.6, 0.6, 120.0)));
    assert!(!fits_dancing(&features(0.6, -0.6, 120.0)));
    assert!(!fits_dancing(&features(0.6, 0.6, -120.0)));
    assert!(!fits_dancing(&features(f64::NAN, 0.6, 120.0)));
    assert!(!fits_dancing(&features(0.6, f64::INFINITY, 120.0)));
    assert!(!fits_dancing(&features(0.6, 0.6, f64::NEG_INFINITY)));
    assert!(!fits_dancing(&features(1.0, 0.6, 120.0)));
}

#[test]
fn within_includes_both_ends() {
    assert!(is_within(3, 3, 9));
    assert!(is_within(9, 3, 9));
    assert!(is_within(5, 3, 9));
    assert!(!is_within(2, 3, 9));
    assert!(!is_within(10, 3, 9));
    assert!(!is_within(5, 9, 3));
}

#[test]
fn most_danceable_version_of_a_song_stays() {
    let artists = vec![Artist { id: "1".to_string(), name: "Singer".to_string() }];
    let tracks = vec![
        Track { id: "10".to_string(), name: "Song".to_string(), explicit: false },
        Track { id: "11".to_string(), name: "SONG".to_string(), explicit: false },
    ];
    let measured = vec![
        AudioFeatures { id: "10".to_string(), ..features(0.5, 0.5, 120.0) },
        AudioFeatures { id: "11".to_string(), ..features(0.9, 0.6, 120.0) },
    ];
    let links = vec![
        TrackArtist { track_id: "10".to_string(), artist_id: "1".to_string() },
        TrackArtist { track_id: "11".to_string(), artist_id: "1".to_string() },
    ];
    let best = danceable_tracks(&artists, &tracks, &measured, &links);
    assert_eq!(best.len(), 1);
    assert_eq!(f64::from_bits(best[0].danceability), 0.9);
    assert_eq!(f64::from_bits(best[0].energy), 0.6);
    assert_eq!(best[0].track_id, "https://open.spotify.com/track/11");
    assert_eq!(best[0].artist_name, "singer");
    assert_eq!(best[0].track_name, "song");
}

#[test]
fn best_of_each_song_is_picked() {
    let rows = vec![
        row("a", "x", 0.5, "1"),
        row("a", "y", 0.7, "2"),
        row("a", "x", 0.9, "3"),
        row("b", "x", 0.6, "4"),
        row("a", "y", 0.6, "5"),
        row("a", "x", 0.9, "6"),
    ];
    assert_eq!(ids(&pick_best(&rows)), vec!["2", "3", "4"]);
}

#[test]
fn first_of_equally_danceable_versions_stays() {
    let rows = vec![row("a", "x", 0.6, "1"), row("a", "x", 0.6, "2"), row("a", "x", 0.6, "3")];
    assert_eq!(ids(&pick_best(&rows)), vec!["1"]);
    assert!(pick_best(&Vec::new()).is_empty());
}

#[test]
fn rows_without_partner_are_dropped() {
    let artists = vec![
        Artist { id: "1".to_string(), name: "Linked".to_string() },
        Artist { id: "2".to_string(), name: "Unlinked".to_string() },
    ];
    let tracks = vec![
        Track { id: "10".to_string(), name: "Whole".to_string(), explicit: false },
        Track { id: "11".to_string(), name: "Unmeasured".to_string(), explicit: false },
        Track { id: "12".to_string(), name: "Unlinked".to_string(), explicit: false },
    ];
    let measured = vec![
        AudioFeatures { id: "10".to_string(), ..features(0.5, 0.5, 120.0) },
        AudioFeatures { id: "12".to_string(), ..features(0.5, 0.5, 120.0) },
        AudioFeatures { id: "13".to_string(), ..features(0.5, 0.5, 120.0) },
    ];
    let links = vec![
        TrackArtist { track_id: "10".to_string(), artist_id: "1".to_string() },
        TrackArtist { track_id: "11".to_string(), artist_id: "1".to_string() },
        TrackArtist { track_id: "13".to_string(), artist_id: "1".to_string() },
        TrackArtist { track_id: "10".to_string(), artist_id: "3".to_string() },
    ];
    let best = danceable_tracks(&artists, &tracks, &measured, &links);
    assert_eq!(best.len(), 1);
    assert_eq!(best[0].track_name, "whole");
    assert_eq!(best[0].artist_name, "linked");
}

#[test]
fn tracks_outside_the_bounds_are_dropped() {
    let artists = vec![Artist { id: "1".to_string(), name: "Singer".to_string() }];
    let names = ["calm", "low", "fine", "high", "wild"];
    let danceabilities = [0.44, 0.45, 0.7, 0.99, 0.995];
    let mut tracks = Vec::new();
    let mut measured = Vec::new();
    let mut links = Vec::new();
    for (at, name) in names.iter().enumerate() {
        let id = format!("{}", at);
        tracks.push(Track { id: id.clone(), name: name.to_string(), explicit: false });
        measured.push(AudioFeatures { id: id.clone(), ..features(danceabilities[at], 0.5, 120.0) });
        links.push(TrackArtist { track_id: id, artist_id: "1".to_string() });
    }
    let best = danceable_tracks(&artists, &tracks, &measured, &links);
    let kept: Vec<&str> = best.iter().map(|row| row.track_name.as_str()).collect();
    assert_eq!(kept, vec!["low", "fine", "high"]);
}

#[test]
fn empty_catalogue_gives_no_tracks() {
    assert!(danceable_tracks(&Vec::new(), &Vec::new(), &Vec::new(), &Vec::new()).is_empty());
}

#[test]
fn rank_orders_and_keeps_equal_rows_in_place() {
    let rows = vec![
        row("a", "p", 0.5, "1"),
        row("a", "q", 0.9, "2"),
        row("a", "r", 0.5, "3"),
        row("a", "s", 0.7, "4"),
        row("a", "t", 0.9, "5"),
        row("a", "u", 0.5, "6"),
    ];
    assert_eq!(ids(&rank(&rows)), vec!["2", "5", "4", "1", "3", "6"]);
    assert!(rank(&Vec::new()).is_empty());
}

#[test]
fn match_keeps_rows_that_a_key_names() {
    let rows = vec![row("a", "x", 0.5, "1"), row("b", "x", 0.6, "2"), row("a", "y", 0.7, "3")];
    let keys = vec![key("y", "a"), key("x", "a"), key("z", "a"), key("x", "a")];
    assert_eq!(ids(&match_songs(&rows, &keys)), vec!["1", "1", "3"]);
    assert!(match_songs(&rows, &Vec::new()).is_empty());
    assert!(match_songs(&Vec::new(), &keys).is_empty());
}

#[test]
fn key_must_name_both_artist_and_track() {
    let rows = vec![row("a", "x", 0.5, "1")];
    assert!(danceable_songs(&rows, &vec![key("x", "b")]).is_empty());
    assert!(danceable_songs(&rows, &vec![key("y", "a")]).is_empty());
    assert!(danceable_songs(&rows, &vec![key("a", "x")]).is_empty());
    assert_eq!(ids(&danceable_songs(&rows, &vec![key("x", "a")])), vec!["1"]);
}

#[test]
fn join_gives_a_row_for_each_combination_in_order() {
    let artists = vec![
        Artist { id: "1".to_string(), name: "first".to_string() },
        Artist { id: "2".to_string(), name: "second".to_string() },
        Artist { id: "1".to_string(), name: "first again".to_string() },
    ];
    let tracks = vec![
        Track { id: "10".to_string(), name: "ten".to_string(), explicit: false },
        Track { id: "11".to_string(), name: "eleven".to_string(), explicit: true },
        Track { id: "10".to_string(), name: "ten again".to_string(), explicit: false },
    ];
    let measured = vec![
        AudioFeatures { id: "11".to_string(), ..features(0.1, 0.2, 30.0) },
        AudioFeatures { id: "10".to_string(), ..features(0.5, 0.5, 120.0) },
        AudioFeatures { id: "10".to_string(), ..features(0.6, 0.5, 120.0) },
    ];
    let links = vec![
        TrackArtist { track_id: "11".to_string(), artist_id: "2".to_string() },
        TrackArtist { track_id: "10".to_string(), artist_id: "1".to_string() },
        TrackArtist { track_id: "12".to_string(), artist_id: "1".to_string() },
    ];
    let rows = join_tracks(&links, &artists, &tracks, &measured);
    let seen: Vec<(&str, &str, f64)> = rows
        .iter()
        .map(|row| {
            (row.artist_name.as_str(), row.track_name.as_str(), f64::from_bits(row.danceability))
        })
        .collect();
    assert_eq!(
        seen,
        vec![
            ("second", "eleven", 0.1),
            ("first", "ten", 0.5),
            ("first", "ten", 0.6),
            ("first", "ten again", 0.5),
            ("first", "ten again", 0.6),
            ("first again", "ten", 0.5),
            ("first again", "ten", 0.6),
            ("first again", "ten again", 0.5),
            ("first again", "ten again", 0.6),
        ]
    );
    assert_eq!(rows[0].track_id, "https://open.spotify.com/track/11");
    assert_eq!(f64::from_bits(rows[0].energy), 0.2);
    assert_eq!(rows[1].track_id, "https://open.spotify.com/track/10");
}

#[test]
fn names_fit_when_those_put_in_lower_case_are_short() {
    let long = "a".repeat(MAX_TEXT + 1);
    let artists = vec![Artist { id: "1".to_string(), name: "Singer".to_string() }];
    let tracks = vec![Track { id: "10".to_string(), name: "Song".to_string(), explicit: false }];
    assert!(do_names_fit(&artists, &tracks));
    assert!(do_names_fit(&Vec::new(), &Vec::new()));
    let long_artists = vec![artists[0].clone(), Artist { id: "2".to_string(), name: long.clone() }];
    assert!(!do_names_fit(&long_artists, &tracks));
    let long_tracks =
        vec![tracks[0].clone(), Track { id: "11".to_string(), name: long.clone(), explicit: false }];
    assert!(!do_names_fit(&artists, &long_tracks));
    let long_explicit =
        vec![tracks[0].clone(), Track { id: "11".to_string(), name: long, explicit: true }];
    assert!(do_names_fit(&artists, &long_explicit));
    let measured = vec![features(0.5, 0.5, 120.0)];
    let links = vec![TrackArtist { track_id: "10".to_string(), artist_id: "1".to_string() }];
    assert_eq!(danceable_tracks(&artists, &long_explicit, &measured, &links).len(), 1);
}
