use danceable::lyrics::{do_entries_fit, genius_song_lyrics, has_any_word, passes_filter};
use danceable::rows::{Lyrics, SongKey};
use danceable::text::MAX_TEXT;

fn entry(title: &str, artist: &str, lyrics: &str, language: &str, views: i64) -> Lyrics {
    Lyrics {
        title: title.to_string(),
        artist: artist.to_string(),
        lyrics: lyrics.to_string(),
        language: language.to_string(),
        views,
    }
}

fn key(track_name: &str, artist_name: &str) -> SongKey {
    SongKey { track_name: track_name.to_string(), artist_name: artist_name.to_string() }
}

fn words(list: &[&str]) -> Vec<String> {
    list.iter().map(|word| word.to_string()).collect()
}

#[test]
fn views_equal_to_threshold_are_too_few() {
    let entries = vec![entry("Song", "Singer", "all you need is love", "en", 1000)];
    assert!(genius_song_lyrics(&entries, &words(&["love"]), 1000).is_empty());
}

#[test]
fn one_view_above_threshold_is_enough() {
    let entries = vec![entry("Song", "Singer", "all you need is love", "en", 1001)];
    assert_eq!(genius_song_lyrics(&entries, &words(&["love"]), 1000), vec![key("song", "singer")]);
}

#[test]
fn threshold_may_be_negative_or_extreme() {
    let entries = vec![
        entry("Zero", "Singer", "love", "en", 0),
        entry("Less", "Singer", "love", "en", -5),
        entry("Most", "Singer", "love", "en", i64::MAX),
    ];
    assert_eq!(
        genius_song_lyrics(&entries, &words(&["love"]), -1),
        vec![key("zero", "singer"), key("most", "singer")]
    );
    assert_eq!(genius_song_lyrics(&entries, &words(&["love"]), i32::MIN).len(), 3);
    assert_eq!(
        genius_song_lyrics(&entries, &words(&["love"]), i32::MAX),
        vec![key("most", "singer")]
    );
}

#[test]
fn only_english_entries_are_wanted() {
    let entries = vec![
        entry("Chanson", "Chanteuse", "love", "fr", 5000),
        entry("Song", "Singer", "love", "en", 5000),
        entry("Loud", "Shouter", "love", "EN", 5000),
        entry("Long", "Talker", "love", "eng", 5000),
        entry("None", "Nobody", "love", "", 5000),
    ];
    assert_eq!(genius_song_lyrics(&entries, &words(&["love"]), 1000), vec![key("song", "singer")]);
}

#[test]
fn keyword_is_found_whatever_the_letter_case() {
    let entries = vec![
        entry("Upper", "Singer", "ALL YOU NEED IS LOVE", "en", 5000),
        entry("Mixed", "Singer", "Lovely day", "en", 5000),
        entry("Inside", "Singer", "gloves off", "en", 5000),
        entry("Absent", "Singer", "all you need is lov e", "en", 5000),
    ];
    assert_eq!(
        genius_song_lyrics(&entries, &words(&["LoVe"]), 1000),
        vec![key("upper", "singer"), key("mixed", "singer"), key("inside", "singer")]
    );
}

#[test]
fn one_keyword_of_several_is_enough() {
    let entries = vec![
        entry("Heart", "Singer", "my heart will go on", "en", 5000),
        entry("Dance", "Singer", "dance with me", "en", 5000),
        entry("Both", "Singer", "dance, my heart", "en", 5000),
        entry("Neither", "Singer", "la la la", "en", 5000),
    ];
    assert_eq!(
        genius_song_lyrics(&entries, &words(&["heart", "dance"]), 1000),
        vec![key("heart", "singer"), key("dance", "singer"), key("both", "singer")]
    );
}

#[test]
fn keyword_is_taken_as_it_is_written() {
    let entries = vec![
        entry("Dots", "Singer", "a.b", "en", 5000),
        entry("Letters", "Singer", "axb", "en", 5000),
        entry("Stars", "Singer", "twinkle * twinkle", "en", 5000),
    ];
    assert_eq!(genius_song_lyrics(&entries, &words(&["a.b"]), 1000), vec![key("dots", "singer")]);
    assert_eq!(genius_song_lyrics(&entries, &words(&["*"]), 1000), vec![key("stars", "singer")]);
}

#[test]
fn no_keyword_wants_nothing() {
    let entries = vec![entry("Song", "Singer", "all you need is love", "en", 5000)];
    assert!(genius_song_lyrics(&entries, &[], 1000).is_empty());
}

#[test]
fn empty_keyword_is_in_every_text() {
    let entries = vec![
        entry("Song", "Singer", "all you need is love", "en", 5000),
        entry("Silence", "Nobody", "", "en", 5000),
    ];
    assert_eq!(
        genius_song_lyrics(&entries, &words(&[""]), 1000),
        vec![key("song", "singer"), key("silence", "nobody")]
    );
}

#[test]
fn keys_are_in_lower_case_and_in_the_order_of_the_entries() {
    let entries = vec![
        entry("ÉTÉ Indien", "Joe DASSIN", "Love", "en", 5000),
        entry("Second", "ÆON", "love", "en", 10),
        entry("Third Song", "Third", "love", "en", 5000),
        entry("ÉTÉ Indien", "Joe DASSIN", "more love", "en", 7000),
    ];
    assert_eq!(
        genius_song_lyrics(&entries, &words(&["love"]), 1000),
        vec![
            key("été indien", "joe dassin"),
            key("third song", "third"),
            key("été indien", "joe dassin")
        ]
    );
}

#[test]
fn no_entries_give_no_keys() {
    assert!(genius_song_lyrics(&Vec::new(), &words(&["love"]), 1000).is_empty());
}

#[test]
fn capital_sigma_is_lowered_as_in_a_column_of_strings() {
    let short = vec![entry("ΟΔΟΣ", "Singer", "love", "en", 5000)];
    assert_eq!(genius_song_lyrics(&short, &words(&["love"]), 1000), vec![key("οδος", "singer")]);
    let long = vec![entry("ABCDEFGHIJKLMNOPΣ", "Singer", "love", "en", 5000)];
    assert_eq!(
        genius_song_lyrics(&long, &words(&["love"]), 1000),
        vec![key("abcdefghijklmnopσ", "singer")]
    );
}

#[test]
fn capital_sigma_in_a_keyword_is_lowered_as_in_a_word() {
    let entries = vec![
        entry("Final", "Singer", "abcdefghijklmnopς", "en", 5000),
        entry("Inner", "Singer", "abcdefghijklmnopσ", "en", 5000),
    ];
    assert_eq!(
        genius_song_lyrics(&entries, &words(&["ABCDEFGHIJKLMNOPΣ"]), 1000),
        vec![key("final", "singer")]
    );
}

#[test]
fn one_of_the_words_must_stand_in_the_text() {
    let text: Vec<char> = "all you need is love".chars().collect();
    let found = |list: &[&str]| {
        let words: Vec<Vec<char>> = list.iter().map(|word| word.chars().collect()).collect();
        has_any_word(&text, &words)
    };
    assert!(found(&["love"]));
    assert!(found(&["hate", "need"]));
    assert!(found(&["hate", ""]));
    assert!(!found(&["hate", "Love"]));
    assert!(!found(&[]));
}

#[test]
fn filter_asks_for_views_language_and_a_word() {
    let text: Vec<char> = "all you need is love".chars().collect();
    let words: Vec<Vec<char>> = vec!["love".chars().collect()];
    let english = "en".to_string();
    assert!(passes_filter(1001, &english, &text, &words, 1000));
    assert!(!passes_filter(1000, &english, &text, &words, 1000));
    assert!(!passes_filter(999, &english, &text, &words, 1000));
    assert!(!passes_filter(1001, &"de".to_string(), &text, &words, 1000));
    assert!(!passes_filter(1001, &english, &text, &vec!["hate".chars().collect()], 1000));
    assert!(!passes_filter(1001, &english, &text, &Vec::new(), 1000));
    assert!(passes_filter(i64::MAX, &english, &text, &words, i32::MAX));
    assert!(passes_filter(i64::from(i32::MIN) + 1, &english, &text, &words, i32::MIN));
}

#[test]
fn entries_fit_when_the_texts_of_the_viewed_ones_are_short() {
    let long = "a".repeat(MAX_TEXT + 1);
    let short = vec![entry("Song", "Singer", "love", "en", 5000)];
    assert!(do_entries_fit(&short, 1000));
    assert!(do_entries_fit(&Vec::new(), 1000));
    for place in 0..3 {
        let mut entries = vec![entry("Song", "Singer", "love", "en", 5000)];
        let mut unseen = entry("Other", "Singer", "love", "en", 1000);
        match place {
            0 => unseen.title = long.clone(),
            1 => unseen.artist = long.clone(),
            _ => unseen.lyrics = long.clone(),
        }
        entries.push(unseen);
        assert!(do_entries_fit(&entries, 1000));
        assert!(!do_entries_fit(&entries, 999));
        assert_eq!(genius_song_lyrics(&entries, &words(&["love"]), 1000), vec![key("song", "singer")]);
    }
}

#[test]
fn keys_stay_as_they_are_when_lowered_again() {
    let entries = vec![
        entry("ÉTÉ Indien", "Joe DASSIN", "love", "en", 5000),
        entry("ΟΔΟΣ", "BjÖrk", "love", "en", 5000),
        entry("ABCDEFGHIJKLMNOPΣ", "İstanbul", "love", "en", 5000),
    ];
    let keys = genius_song_lyrics(&entries, &words(&["love"]), 1000);
    let again: Vec<Lyrics> = keys
        .iter()
        .map(|key| entry(&key.track_name, &key.artist_name, "love", "en", 5000))
        .collect();
    assert_eq!(genius_song_lyrics(&again, &words(&["love"]), 1000), keys);
}
