//! The short form of a track's metadata: title, artists and art locator,
//! without the album.
use vstd::prelude::*;
use crate::mpris::{
    artist_names, credits_describe, credits_held, credits_of, credits_wf, opt_text, parse_artists,
};
use crate::props::{text_of, text_value, PropMap};

verus! {

/// A track without its album.
#[derive(Debug, PartialEq, Clone)]
pub struct Metadata {
    pub title: Option<String>,
    pub artist: Option<String>,
    /// Further artists, in order, each once, without the primary artist.
    pub featured: Option<Vec<String>>,
    pub art: Option<String>,
}

/// Reads the short form of a track from the player's metadata dictionary.
pub fn parse_metadata(raw: &PropMap) -> (r: Metadata)
    ensures
        opt_text(r.title) == text_value(raw.find("xesam:title"@)),
        opt_text(r.art) == text_value(raw.find("mpris:artUrl"@)),
        credits_held(r.artist, r.featured) == credits_of(*raw),
        credits_describe(credits_held(r.artist, r.featured), artist_names(*raw)),
        credits_wf(credits_held(r.artist, r.featured)),
{
    let title = text_of(raw.get("xesam:title"));
    let art = text_of(raw.get("mpris:artUrl"));
    let (artist, featured) = parse_artists(raw);
    Metadata { title, artist, featured, art }
}

} // verus!
