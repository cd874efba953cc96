//! Songs to dance to. From a catalogue of artists, tracks, measurements of the
//! tracks and links between tracks and artists, and from a collection of lyrics,
//! the library finds the tracks that are fit to dance to and whose lyrics mention
//! a keyword, and ranks them by danceability.
//!
//! `genius_song_lyrics` selects the wanted lyrics, `danceable_tracks` the tracks to
//! dance to, and `danceable_songs` joins the two and ranks what is left. Each gives
//! exactly what a function of the model says: `lyrics::wanted_keys`,
//! `tracks::danceable` and `ranking::danceable_songs_of`. The joins of the model
//! are inner joins as `relation` defines them. What follows from the model is
//! proved beside it, in `track_laws` for the tracks and in `laws` for the whole
//! query.
//!
//! Names and lyrics are put in lower case as polars does it for a column of
//! strings, which depends on the size of the machine word; `text::lowered` is
//! that form on the machine that the library is built for.
//!
//! The texts that are put in lower case go through a column of strings, which
//! takes no text of 4 GiB or more. So `genius_song_lyrics` and `danceable_tracks`
//! ask that these texts have at most `text::MAX_TEXT` characters;
//! `lyrics::do_entries_fit` and `tracks::do_names_fit` test it.

pub mod laws;
pub mod lyrics;
pub mod ranking;
pub mod relation;
pub mod rows;
mod seq_facts;
pub mod text;
pub mod track_laws;
pub mod tracks;

pub use lyrics::genius_song_lyrics;
pub use ranking::danceable_songs;
pub use tracks::danceable_tracks;
