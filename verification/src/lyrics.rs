//! The choice of the wanted lyrics, and the keys under which their songs are found.

use vstd::prelude::*;
use crate::rows::{Lyrics, LyricsView, SongKey, SongKeyView};
use crate::seq_facts::lemma_filter_map_holds;
use crate::text::{
    chars_of, contains, fits_column, has_word, keyword_lowercase, lowercased,
    lowercased_keyword, lowered, text_fits,
};

verus! {

/// One of the words stands in the text. Of no words none does.
pub open spec fn holds_any(text: Seq<char>, words: Seq<Seq<char>>) -> bool {
    exists|k: int| 0 <= k < words.len() && contains(text, #[trigger] words[k])
}

/// The test on an entry whose lyrics and keywords are already in lower case: it
/// was viewed more than `min_views` times, its language is English, and its
/// lyrics hold one of the words.
pub open spec fn passes(
    views: i64,
    language: Seq<char>,
    lyrics: Seq<char>,
    words: Seq<Seq<char>>,
    min_views: i32,
) -> bool {
    &&& views > min_views
    &&& language == "en"@
    &&& holds_any(lyrics, words)
}

/// The keywords, each in lower case.
pub open spec fn lowercase_each(keywords: Seq<Seq<char>>) -> Seq<Seq<char>> {
    keywords.map_values(|word: Seq<char>| keyword_lowercase(word))
}

/// An entry is wanted when it was viewed more than `min_views` times, is in
/// English and its lyrics hold at least one of the keywords, letter case set
/// aside: the lyrics are searched in lower case for the keywords in lower case.
/// With no keyword at all, no entry is wanted.
pub open spec fn is_wanted(entry: LyricsView, keywords: Seq<Seq<char>>, min_views: i32) -> bool {
    passes(
        entry.views,
        entry.language,
        lowered(entry.lyrics),
        lowercase_each(keywords),
        min_views,
    )
}

/// The texts of the entries that were viewed more than `min_views` times are
/// short enough to be put in lower case: of each such entry the title, the
/// artist and the lyrics.
pub open spec fn entries_fit(entries: Seq<LyricsView>, min_views: i32) -> bool {
    forall|i: int|
        0 <= i < entries.len() && (#[trigger] entries[i]).views > min_views ==> {
            &&& fits_column(entries[i].title)
            &&& fits_column(entries[i].artist)
            &&& fits_column(entries[i].lyrics)
        }
}

/// The test `is_wanted` for given keywords and threshold.
pub open spec fn wanted(keywords: Seq<Seq<char>>, min_views: i32) -> spec_fn(LyricsView) -> bool {
    |entry: LyricsView| is_wanted(entry, keywords, min_views)
}

/// The key under which an entry is looked up: its title and artist in lower case.
pub open spec fn key_of(entry: LyricsView) -> SongKeyView {
    SongKeyView { track_name: lowered(entry.title), artist_name: lowered(entry.artist) }
}

/// The keys of the wanted entries, in the order of the entries.
pub open spec fn wanted_keys(
    entries: Seq<LyricsView>,
    keywords: Seq<Seq<char>>,
    min_views: i32,
) -> Seq<SongKeyView> {
    entries.filter(wanted(keywords, min_views)).map_values(|entry: LyricsView| key_of(entry))
}

/// What the keys hold: the key of each wanted entry, and no other.
pub proof fn law_wanted_keys_hold(
    entries: Seq<LyricsView>,
    keywords: Seq<Seq<char>>,
    min_views: i32,
    key: SongKeyView,
)
    ensures
        wanted_keys(entries, keywords, min_views).contains(key) <==> exists|i: int|
            0 <= i < entries.len() && is_wanted(#[trigger] entries[i], keywords, min_views)
                && key_of(entries[i]) == key,
{
    lemma_filter_map_holds(
        entries,
        wanted(keywords, min_views),
        |entry: LyricsView| key_of(entry),
        key,
    );
    if wanted_keys(entries, keywords, min_views).contains(key) {
        let i = choose|i: int|
            0 <= i < entries.len() && wanted(keywords, min_views)(#[trigger] entries[i]) && key_of(
                entries[i],
            ) == key;
        assert(is_wanted(entries[i], keywords, min_views));
    }
    if exists|i: int|
        0 <= i < entries.len() && is_wanted(#[trigger] entries[i], keywords, min_views) && key_of(
            entries[i],
        ) == key {
        let i = choose|i: int|
            0 <= i < entries.len() && is_wanted(#[trigger] entries[i], keywords, min_views)
                && key_of(entries[i]) == key;
        assert(wanted(keywords, min_views)(entries[i]));
    }
}

/// Every key is in lower case as far as the library makes it so: it is the
/// lower-case form of the title and of the artist of a wanted entry.
pub proof fn law_keys_are_lower_case(
    entries: Seq<LyricsView>,
    keywords: Seq<Seq<char>>,
    min_views: i32,
    k: int,
)
    requires
        0 <= k < wanted_keys(entries, keywords, min_views).len(),
    ensures
        exists|i: int|
            0 <= i < entries.len() && is_wanted(#[trigger] entries[i], keywords, min_views)
                && wanted_keys(entries, keywords, min_views)[k].track_name == lowered(
                entries[i].title,
            ) && wanted_keys(entries, keywords, min_views)[k].artist_name == lowered(
                entries[i].artist,
            ),
{
    let keys = wanted_keys(entries, keywords, min_views);
    assert(keys.contains(keys[k]));
    law_wanted_keys_hold(entries, keywords, min_views, keys[k]);
    let i = choose|i: int|
        0 <= i < entries.len() && is_wanted(#[trigger] entries[i], keywords, min_views) && key_of(
            entries[i],
        ) == keys[k];
    assert(keys[k].track_name == lowered(entries[i].title));
}

/// The threshold of views is strict. Of an entry in English that mentions a
/// keyword, alone in the collection: viewed exactly `min_views` times it gives no
/// key, viewed once more it gives its key.
pub proof fn law_threshold_is_strict(entry: LyricsView, keywords: Seq<Seq<char>>, min_views: i32)
    requires
        entry.language == "en"@,
        holds_any(lowered(entry.lyrics), lowercase_each(keywords)),
    ensures
        entry.views == min_views ==> wanted_keys(seq![entry], keywords, min_views)
            == Seq::<SongKeyView>::empty(),
        entry.views == min_views + 1 ==> wanted_keys(seq![entry], keywords, min_views)
            == seq![key_of(entry)],
{
    let none = Seq::<LyricsView>::empty();
    assert(seq![entry] =~= none.push(entry));
    none.lemma_filter_len(wanted(keywords, min_views));
    none.lemma_filter_push(entry, wanted(keywords, min_views));
    if entry.views == min_views {
        assert(wanted_keys(seq![entry], keywords, min_views) =~= Seq::<SongKeyView>::empty());
    }
    if entry.views == min_views + 1 {
        assert(wanted_keys(seq![entry], keywords, min_views) =~= seq![key_of(entry)]);
    }
}

/// Tests whether one of `words` stands in `text`.
pub fn has_any_word(text: &Vec<char>, words: &Vec<Vec<char>>) -> (found: bool)
    ensures
        found == holds_any(text@, words.deep_view()),
{
    let mut k: usize = 0;
    while k < words.len()
        invariant
            k <= words.len(),
            forall|j: int| 0 <= j < k ==> !contains(text@, #[trigger] words.deep_view()[j]),
        decreases words.len() - k,
    {
        assert(words.deep_view()[k as int] =~= words[k as int]@);
        if has_word(text, &words[k]) {
            return true;
        }
        k += 1;
    }
    false
}

/// Tests an entry whose lyrics and keywords are already in lower case: whether it
/// was viewed more than `min_views` times, its language is English, and its
/// lyrics hold one of the words.
pub fn passes_filter(
    views: i64,
    language: &String,
    lyrics: &Vec<char>,
    words: &Vec<Vec<char>>,
    min_views: i32,
) -> (keep: bool)
    ensures
        keep == passes(views, language@, lyrics@, words.deep_view(), min_views),
{
    let english = String::from_str("en");
    views > min_views as i64 && *language == english && has_any_word(lyrics, words)
}

/// The keywords in lower case, each as its characters.
fn lowercase_words(keywords: &[String]) -> (words: Vec<Vec<char>>)
    ensures
        words.deep_view() == lowercase_each(keywords.deep_view()),
{
    let mut words: Vec<Vec<char>> = Vec::new();
    let mut k: usize = 0;
    while k < keywords.len()
        invariant
            k <= keywords.len(),
            words.len() == k,
            forall|j: int| 0 <= j < k ==> (#[trigger] words[j])@ == keyword_lowercase(keywords[j]@),
        decreases keywords.len() - k,
    {
        let lower = lowercased_keyword(keywords[k].as_str());
        words.push(chars_of(lower.as_str()));
        k += 1;
    }
    assert forall|j: int| 0 <= j < words.len() implies (#[trigger] words.deep_view()[j])
        == lowercase_each(keywords.deep_view())[j] by {
        assert(words.deep_view()[j] =~= words[j]@);
    }
    words
}

/// Tests whether the texts of the entries that were viewed more than `min_views`
/// times are short enough to be put in lower case.
pub fn do_entries_fit(entries: &Vec<Lyrics>, min_views: i32) -> (fit: bool)
    ensures
        fit == entries_fit(entries.deep_view(), min_views),
{
    let mut i: usize = 0;
    while i < entries.len()
        invariant
            i <= entries.len(),
            entries_fit(entries.deep_view().take(i as int), min_views),
        decreases entries.len() - i,
    {
        let entry = &entries[i];
        assert(entries.deep_view()[i as int] == entry@);
        if entry.views > min_views as i64 && !(text_fits(entry.title.as_str()) && text_fits(
            entry.artist.as_str(),
        ) && text_fits(entry.lyrics.as_str())) {
            return false;
        }
        assert(entries.deep_view().take(i + 1) =~= entries.deep_view().take(i as int).push(
            entry@,
        ));
        i += 1;
    }
    assert(entries.deep_view().take(entries.len() as int) =~= entries.deep_view());
    true
}

/// Selects the songs whose lyrics are wanted and gives the key of each: the
/// entries viewed more than `min_views` times, in English, whose lyrics hold one
/// of `keywords` (letter case set aside), each as its title and artist in lower
/// case. The keys come in the order of the entries, one for each wanted entry,
/// so a key may come more than once. With no keyword no entry is wanted.
///
/// The texts of the entries viewed more than `min_views` times must be short
/// enough to be put in lower case, which `do_entries_fit` tests.
pub fn genius_song_lyrics(entries: &Vec<Lyrics>, keywords: &[String], min_views: i32) -> (keys:
    Vec<SongKey>)
    requires
        entries_fit(entries.deep_view(), min_views),
    ensures
        keys.deep_view() == wanted_keys(entries.deep_view(), keywords.deep_view(), min_views),
{
    let words = lowercase_words(keywords);
    let mut keys: Vec<SongKey> = Vec::new();
    let mut i: usize = 0;
    while i < entries.len()
        invariant
            i <= entries.len(),
            entries_fit(entries.deep_view(), min_views),
            words.deep_view() == lowercase_each(keywords.deep_view()),
            keys.deep_view() == wanted_keys(
                entries.deep_view().take(i as int),
                keywords.deep_view(),
                min_views,
            ),
        decreases entries.len() - i,
    {
        let entry = &entries[i];
        assert(entries.deep_view()[i as int] == entry@);
        let ghost before = entries.deep_view().take(i as int);
        let ghost test = wanted(keywords.deep_view(), min_views);
        let ghost key = |entry: LyricsView| key_of(entry);
        let mut keep = false;
        if entry.views > min_views as i64 {
            let lower = lowercased(entry.lyrics.as_str());
            keep = passes_filter(
                entry.views,
                &entry.language,
                &chars_of(lower.as_str()),
                &words,
                min_views,
            );
        }
        if keep {
            keys.push(
                SongKey {
                    track_name: lowercased(entry.title.as_str()),
                    artist_name: lowercased(entry.artist.as_str()),
                },
            );
        }
        proof {
            let next = entries.deep_view().take(i + 1);
            assert(next =~= before.push(entry@));
            before.lemma_filter_push(entry@, test);
            before.filter(test).lemma_push_map_commute(key, entry@);
        }
        i += 1;
    }
    assert(entries.deep_view().take(entries.len() as int) =~= entries.deep_view());
    keys
}

} // verus!
