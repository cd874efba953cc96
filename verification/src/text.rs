//! Texts: their lower-case forms, and the search for a word in a text.

use polars::prelude::{NewChunkedArray, PlSmallStr, StringChunked, StringNameSpaceImpl};
use vstd::prelude::*;

verus! {

/// The most characters of a text that is put in lower case as a value of a
/// column of strings. Such a value holds at most `u32::MAX` bytes, going in and
/// coming out; a character takes at most 4 bytes, and its lower-case form at
/// most 12.
pub const MAX_TEXT: usize = 0x1000_0000;

/// The text is short enough to be put in lower case as a value of a column of
/// strings.
pub open spec fn fits_column(text: Seq<char>) -> bool {
    text.len() <= MAX_TEXT
}

/// The lower-case form of a text, as polars gives it for a value of a column of
/// strings on a machine whose word has `word_bytes` bytes. polars lowers the
/// start of a text in blocks of ASCII bytes, each of twice the size of a machine
/// word, and the rest character by character; for a capital sigma it looks for
/// the end of a word in that rest alone. So the form depends on the size of the
/// word as well as on the text.
pub uninterp spec fn lowercase(text: Seq<char>, word_bytes: nat) -> Seq<char>;

/// The lower-case form of a text on the machine that the library is built for.
pub open spec fn lowered(text: Seq<char>) -> Seq<char> {
    lowercase(text, vstd::layout::size_of::<usize>())
}

/// The lower-case form of a keyword, as `str::to_lowercase` of the standard
/// library gives it.
pub uninterp spec fn keyword_lowercase(word: Seq<char>) -> Seq<char>;

/// Calls `StringNameSpaceImpl::to_lowercase` of polars on a column that holds
/// `text` alone, and gives the value of the column that comes back. polars
/// computes each value of that column from the same value of the column it was
/// given, from the size of the machine word and from nothing else; so the result
/// is taken to be a function of the characters of `text` and of that size. A
/// column refuses a value of more than `u32::MAX` bytes, which `text` and its
/// lower-case form stay under when `text` has at most `MAX_TEXT` characters.
/// Nothing more is claimed of the call, and nothing of this is proved.
#[verifier::external_body]
pub(crate) fn lowercased(text: &str) -> (lower: String)
    requires
        fits_column(text@),
    ensures
        lower@ == lowercase(text@, vstd::layout::size_of::<usize>()),
{
    let column = StringChunked::from_iter_values(PlSmallStr::EMPTY, std::iter::once(text));
    column.to_lowercase().downcast_iter().flat_map(|chunk| chunk.values_iter()).collect()
}

/// Calls `str::to_lowercase` of the standard library. Its result is taken to be a
/// function of the characters of `word` alone: the Unicode case mappings that the
/// standard library was built with, whatever the locale. Nothing more is claimed
/// of it, and nothing of this is proved.
#[verifier::external_body]
pub(crate) fn lowercased_keyword(word: &str) -> (lower: String)
    ensures
        lower@ == keyword_lowercase(word@),
{
    word.to_lowercase()
}

/// `word` stands in `text` from position `at` on.
pub open spec fn occurs_at(text: Seq<char>, word: Seq<char>, at: int) -> bool {
    &&& 0 <= at
    &&& at + word.len() <= text.len()
    &&& text.subrange(at, at + word.len()) == word
}

/// `word` stands somewhere in `text` as a contiguous run of characters.
pub open spec fn contains(text: Seq<char>, word: Seq<char>) -> bool {
    exists|at: int| occurs_at(text, word, at)
}

/// Tests whether `text` is short enough to be put in lower case as a value of a
/// column of strings.
pub fn text_fits(text: &str) -> (fits: bool)
    ensures
        fits == fits_column(text@),
{
    text.unicode_len() <= MAX_TEXT
}

/// The characters of `text`, one by one.
pub fn chars_of(text: &str) -> (chars: Vec<char>)
    ensures
        chars@ == text@,
{
    let mut chars: Vec<char> = Vec::new();
    for c in it: text.chars()
        invariant
            it.seq() == text@,
            chars@ == it.seq().take(it.index()),
    {
        chars.push(c);
    }
    chars
}

/// Tests whether `word` stands in `text` from position `at` on.
fn matches_at(text: &Vec<char>, word: &Vec<char>, at: usize) -> (found: bool)
    requires
        at + word.len() <= text.len(),
    ensures
        found == occurs_at(text@, word@, at as int),
{
    let mut k: usize = 0;
    while k < word.len()
        invariant
            k <= word.len(),
            at + word.len() <= text.len(),
            forall|j: int| 0 <= j < k ==> text@[at + j] == word@[j],
        decreases word.len() - k,
    {
        if text[at + k] != word[k] {
            assert(text@.subrange(at as int, at + word.len())[k as int] != word@[k as int]);
            return false;
        }
        k += 1;
    }
    assert(text@.subrange(at as int, at + word.len()) =~= word@);
    true
}

/// Tests whether `word` stands somewhere in `text`. The empty word stands in every text.
pub fn has_word(text: &Vec<char>, word: &Vec<char>) -> (found: bool)
    ensures
        found == contains(text@, word@),
{
    if word.len() > text.len() {
        return false;
    }
    let last: usize = text.len() - word.len();
    let mut at: usize = 0;
    loop
        invariant
            at <= last,
            last + word.len() == text.len(),
            forall|j: int| 0 <= j < at ==> !occurs_at(text@, word@, j),
        decreases last - at,
    {
        if matches_at(text, word, at) {
            return true;
        }
        if at == last {
            return false;
        }
        at += 1;
    }
}

} // verus!
