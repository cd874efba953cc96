use danceable::text::{chars_of, has_word, text_fits, MAX_TEXT};

fn has(text: &str, word: &str) -> bool {
    has_word(&chars_of(text), &chars_of(word))
}

#[test]
fn chars_are_the_characters_of_the_text() {
    assert_eq!(chars_of("aé漢"), vec!['a', 'é', '漢']);
    assert!(chars_of("").is_empty());
}

#[test]
fn word_is_found_at_start_middle_and_end() {
    assert!(has("love me do", "love"));
    assert!(has("all my loving", "lov"));
    assert!(has("she loves you", "you"));
    assert!(has("love", "love"));
}

#[test]
fn word_is_not_found_where_it_is_not() {
    assert!(!has("love me do", "hate"));
    assert!(!has("lov", "love"));
    assert!(!has("l o v e", "love"));
    assert!(!has("", "love"));
    assert!(!has("evol", "love"));
}

#[test]
fn empty_word_is_in_every_text() {
    assert!(has("love", ""));
    assert!(has("", ""));
}

#[test]
fn repeated_beginnings_do_not_hide_the_word() {
    assert!(has("aaab", "aab"));
    assert!(has("lolove", "love"));
    assert!(!has("aaaa", "aab"));
}

#[test]
fn letter_case_counts_in_the_search_itself() {
    assert!(!has("Love", "love"));
    assert!(has("été", "té"));
}

#[test]
fn short_texts_fit_a_column() {
    assert_eq!(MAX_TEXT, 268_435_456);
    assert!(text_fits(""));
    assert!(text_fits("all you need is love"));
    assert!(text_fits(&"é漢".repeat(1000)));
}

#[test]
fn text_fits_up_to_the_most_characters() {
    let mut text = "a".repeat(MAX_TEXT);
    assert!(text_fits(&text));
    text.push('b');
    assert!(!text_fits(&text));
}
