//! The media player as seen over the bus: its playback status, the track it
//! plays, and what a property-change signal asks the watcher to do.
use vstd::prelude::*;
use crate::props::{list_items, text_of, text_value, PropMap, PropValue};
use crate::table::owned;
use crate::text::same_text;

verus! {

/// Bus name of the watched player.
pub const PLAYER_BUS_NAME: &'static str = "org.mpris.MediaPlayer2.spotify";

/// Object path of the watched player.
pub const PLAYER_PATH: &'static str = "/org/mpris/MediaPlayer2";

/// Interface that holds the player's properties.
pub const PLAYER_INTERFACE: &'static str = "org.mpris.MediaPlayer2.Player";

/// Interface of the property-change signal.
pub const PROPERTIES_INTERFACE: &'static str = "org.freedesktop.DBus.Properties";

/// Member name of the property-change signal.
pub const PROPERTIES_CHANGED: &'static str = "PropertiesChanged";

/// Match rule that subscribes to the player's property changes.
pub const SIGNAL_MATCH_RULE: &'static str = "type='signal',sender='org.mpris.MediaPlayer2.spotify',interface='org.freedesktop.DBus.Properties',member='PropertiesChanged',path='/org/mpris/MediaPlayer2',arg0='org.mpris.MediaPlayer2.Player'";

/// Milliseconds that a synchronous property read may take.
pub const READ_TIMEOUT_MS: i32 = 500;

/// Whether the player plays, pauses or stands still.
#[derive(Debug, Clone, Copy, PartialEq, Eq, Structural)]
pub enum PlaybackStatus {
    Playing,
    Paused,
    Stopped,
}

/// Why a property value could not be decoded.
#[derive(Debug, Clone, Copy, PartialEq, Eq, Structural)]
pub enum DecodeError {
    /// The value is not text.
    NotText,
    /// The text names no known playback status.
    UnknownStatus,
}

/// The status that the text `t` names.
pub open spec fn status_named(t: Seq<char>) -> Result<PlaybackStatus, DecodeError> {
    if t == "Playing"@ {
        Ok(PlaybackStatus::Playing)
    } else if t == "Paused"@ {
        Ok(PlaybackStatus::Paused)
    } else if t == "Stopped"@ {
        Ok(PlaybackStatus::Stopped)
    } else {
        Err(DecodeError::UnknownStatus)
    }
}

/// The status that a property value holds.
pub open spec fn status_value(v: PropValue) -> Result<PlaybackStatus, DecodeError> {
    match v {
        PropValue::Str(s) => status_named(s@),
        _ => Err(DecodeError::NotText),
    }
}

impl PlaybackStatus {
    /// Reads a status from its name on the bus.
    pub fn from_str(s: &str) -> (r: Result<PlaybackStatus, DecodeError>)
        ensures
            r == status_named(s@),
    {
        if same_text(s, "Playing") {
            Ok(PlaybackStatus::Playing)
        } else if same_text(s, "Paused") {
            Ok(PlaybackStatus::Paused)
        } else if same_text(s, "Stopped") {
            Ok(PlaybackStatus::Stopped)
        } else {
            Err(DecodeError::UnknownStatus)
        }
    }

    /// Reads a status from a property value.
    pub fn from_value(v: &PropValue) -> (r: Result<PlaybackStatus, DecodeError>)
        ensures
            r == status_value(*v),
    {
        match v {
            PropValue::Str(s) => PlaybackStatus::from_str(s.as_str()),
            _ => Err(DecodeError::NotText),
        }
    }

    /// The text shown for the status.
    pub fn label(&self) -> (r: &'static str)
        ensures
            r@ == match *self {
                PlaybackStatus::Playing => "Playing"@,
                PlaybackStatus::Paused => "Paused"@,
                PlaybackStatus::Stopped => "Stopped"@,
            },
    {
        match self {
            PlaybackStatus::Playing => "Playing",
            PlaybackStatus::Paused => "Paused",
            PlaybackStatus::Stopped => "Stopped",
        }
    }
}

/// The track the player reports. Each report replaces the previous one
/// whole.
#[derive(Debug, PartialEq, Clone)]
pub struct Metadata {
    pub title: Option<String>,
    pub album: Option<String>,
    pub artist: Option<String>,
    /// Further artists, in order, each once, without the primary artist.
    pub featured: Option<Vec<String>>,
    /// Where the cover art can be had.
    pub art: Option<String>,
}

/// A unit of the event stream that every channel of the pipeline carries.
#[derive(Debug, PartialEq, Clone)]
pub enum Event {
    MetadataChanged(Metadata),
    PlaybackChanged(PlaybackStatus),
    /// Bytes of the cover art fetched from the given source.
    ArtChunk(String, Vec<u8>),
    /// The fetch from the given source ended, successfully or not.
    ArtComplete(String, bool),
}

/// The characters of an optional string.
pub open spec fn opt_text(o: Option<String>) -> Option<Seq<char>> {
    match o {
        Some(s) => Some(s@),
        None => None,
    }
}

/// The characters of each string of a list.
pub open spec fn texts(v: Seq<String>) -> Seq<Seq<char>> {
    v.map_values(|s: String| s@)
}

/// The characters of each string of an optional list.
pub open spec fn opt_texts(o: Option<Vec<String>>) -> Option<Seq<Seq<char>>> {
    match o {
        Some(v) => Some(texts(v@)),
        None => None,
    }
}

/// Who a track is credited to: a primary artist and the others.
pub struct Credits {
    pub primary: Option<Seq<char>>,
    pub featured: Option<Seq<Seq<char>>>,
}

/// No artist yet.
pub open spec fn no_credits() -> Credits {
    Credits { primary: None, featured: None }
}

/// Credits `name`: the first name becomes the primary artist; a later one
/// joins the others unless it is the primary artist or already there.
pub open spec fn credit(c: Credits, name: Seq<char>) -> Credits {
    match c.primary {
        None => Credits { primary: Some(name), featured: c.featured },
        Some(p) => if p == name {
            c
        } else {
            match c.featured {
                None => Credits { primary: c.primary, featured: Some(seq![name]) },
                Some(f) => if f.contains(name) {
                    c
                } else {
                    Credits { primary: c.primary, featured: Some(f.push(name)) }
                },
            }
        },
    }
}

/// Credits, in order, each item of a list that is non-empty text.
pub open spec fn credit_all(c: Credits, items: Seq<PropValue>) -> Credits
    decreases items.len(),
{
    if items.len() == 0 {
        c
    } else {
        let before = credit_all(c, items.drop_last());
        match text_value(Some(items.last())) {
            Some(name) => credit(before, name),
            None => before,
        }
    }
}

/// The credits of a metadata dictionary: album artists first, then the
/// track's artists.
pub open spec fn credits_of(raw: PropMap) -> Credits {
    credit_all(
        credit_all(no_credits(), list_items(raw.find("xesam:albumArtist"@))),
        list_items(raw.find("xesam:artist"@)),
    )
}

/// Others are credited only beside a primary artist, each once, and never
/// the primary artist.
pub open spec fn credits_wf(c: Credits) -> bool {
    match c.featured {
        None => true,
        Some(f) => c.primary is Some && f.no_duplicates() && !f.contains(c.primary->0),
    }
}

proof fn lemma_credit_wf(c: Credits, name: Seq<char>)
    requires
        credits_wf(c),
    ensures
        credits_wf(credit(c, name)),
{
    if let Some(p) = c.primary {
        if p != name {
            if let Some(f) = c.featured {
                if !f.contains(name) {
                    let g = f.push(name);
                    assert forall|i: int, j: int| 0 <= i < g.len() && 0 <= j < g.len() && i != j
                        implies g[i] != g[j] by {
                        if i == f.len() as int {
                            assert(f.contains(g[j]));
                        } else if j == f.len() as int {
                            assert(f.contains(g[i]));
                        }
                    }
                    assert forall|i: int| 0 <= i < g.len() implies g[i] != p by {
                        if i < f.len() {
                            assert(f.contains(g[i]));
                        }
                    }
                }
            } else {
                assert(seq![name].no_duplicates());
                assert(!seq![name].contains(p)) by {
                    if seq![name].contains(p) {
                        let i = choose|i: int| 0 <= i < 1 && seq![name][i] == p;
                    }
                }
            }
        }
    }
}

proof fn lemma_credit_all_wf(c: Credits, items: Seq<PropValue>)
    requires
        credits_wf(c),
    ensures
        credits_wf(credit_all(c, items)),
    decreases items.len(),
{
    if items.len() > 0 {
        lemma_credit_all_wf(c, items.drop_last());
        if let Some(name) = text_value(Some(items.last())) {
            lemma_credit_wf(credit_all(c, items.drop_last()), name);
        }
    }
}

/// The non-empty names of a list, in order.
pub open spec fn names_of(items: Seq<PropValue>) -> Seq<Seq<char>>
    decreases items.len(),
{
    if items.len() == 0 {
        Seq::empty()
    } else {
        let before = names_of(items.drop_last());
        match text_value(Some(items.last())) {
            Some(name) => before.push(name),
            None => before,
        }
    }
}

/// `x` occurs first in `ns` at index `p`.
pub open spec fn first_at(ns: Seq<Seq<char>>, x: Seq<char>, p: int) -> bool {
    0 <= p < ns.len() && ns[p] == x && forall|q: int| 0 <= q < p ==> ns[q] != x
}

/// Credits `c` as read off the names `ns` directly: the first name is the
/// primary artist; the others are every other name, each once, in order of
/// first appearance, or nothing where there is no other name.
pub open spec fn credits_describe(c: Credits, ns: Seq<Seq<char>>) -> bool {
    &&& ns.len() == 0 ==> c.primary is None && c.featured is None
    &&& ns.len() > 0 ==> c.primary == Some(ns[0])
    &&& c.featured is None <==> forall|i: int| 0 <= i < ns.len() ==> #[trigger] ns[i] == ns[0]
    &&& c.featured matches Some(f) ==> {
        &&& forall|x: Seq<char>| f.contains(x) <==> ns.contains(x) && x != ns[0]
        &&& forall|i: int, j: int, p: int, q: int|
            0 <= i < j < f.len() && first_at(ns, f[i], p) && first_at(ns, f[j], q) ==> p < q
    }
}

/// The non-empty names of the album artists, then of the track's artists.
pub open spec fn artist_names(raw: PropMap) -> Seq<Seq<char>> {
    names_of(list_items(raw.find("xesam:albumArtist"@))) + names_of(
        list_items(raw.find("xesam:artist"@)),
    )
}

/// Credits each name of `ns` in turn.
pub open spec fn credit_names(c: Credits, ns: Seq<Seq<char>>) -> Credits
    decreases ns.len(),
{
    if ns.len() == 0 {
        c
    } else {
        credit(credit_names(c, ns.drop_last()), ns.last())
    }
}

proof fn lemma_credit_all_names(c: Credits, items: Seq<PropValue>)
    ensures
        credit_all(c, items) == credit_names(c, names_of(items)),
    decreases items.len(),
{
    if items.len() > 0 {
        lemma_credit_all_names(c, items.drop_last());
        let before = names_of(items.drop_last());
        match text_value(Some(items.last())) {
            Some(name) => {
                assert(before.push(name).drop_last() =~= before);
            },
            None => {},
        }
    }
}

proof fn lemma_credit_names_concat(c: Credits, a: Seq<Seq<char>>, b: Seq<Seq<char>>)
    ensures
        credit_names(c, a + b) == credit_names(credit_names(c, a), b),
    decreases b.len(),
{
    if b.len() == 0 {
        assert(a + b =~= a);
    } else {
        assert((a + b).drop_last() =~= a + b.drop_last());
        lemma_credit_names_concat(c, a, b.drop_last());
    }
}

proof fn lemma_first_at_push(ns: Seq<Seq<char>>, n: Seq<char>, x: Seq<char>, q: int)
    requires
        x != n || ns.contains(x),
        first_at(ns.push(n), x, q),
    ensures
        first_at(ns, x, q),
{
    if q == ns.len() {
        if x == n {
            let r = choose|r: int| 0 <= r < ns.len() && ns[r] == x;
            assert(ns.push(n)[r] == x);
        }
    }
    assert forall|r: int| 0 <= r < q implies ns[r] != x by {
        assert(ns.push(n)[r] == ns[r]);
    }
}

proof fn lemma_credit_names_describe(ns: Seq<Seq<char>>)
    ensures
        credits_describe(credit_names(no_credits(), ns), ns),
        credits_wf(credit_names(no_credits(), ns)),
    decreases ns.len(),
{
    if ns.len() > 0 {
        let prev = ns.drop_last();
        let n = ns.last();
        lemma_credit_names_describe(prev);
        let c = credit_names(no_credits(), prev);
        lemma_credit_wf(c, n);
        assert(prev.push(n) =~= ns);
        if prev.len() > 0 {
            let p = prev[0];
            assert(ns[0] == p);
            assert forall|x: Seq<char>| ns.contains(x) <==> prev.contains(x) || x == n by {
                if ns.contains(x) {
                    let i = choose|i: int| 0 <= i < ns.len() && ns[i] == x;
                    if i < prev.len() {
                        assert(prev[i] == x);
                    }
                }
                if prev.contains(x) {
                    let i = choose|i: int| 0 <= i < prev.len() && prev[i] == x;
                    assert(ns[i] == x);
                }
                if x == n {
                    assert(ns[ns.len() - 1] == x);
                }
            }
            match c.featured {
                None => {
                    if n != p {
                        assert(!(ns[ns.len() - 1] == ns[0]));
                        let f = seq![n];
                        assert forall|x: Seq<char>| f.contains(x) <==> ns.contains(x) && x != ns[0] by {
                            if f.contains(x) {
                                assert(f[0] == x);
                            }
                            if prev.contains(x) {
                                let i = choose|i: int| 0 <= i < prev.len() && prev[i] == x;
                                assert(prev[i] == prev[0]);
                            }
                            if x == n {
                                assert(f[0] == x);
                            }
                        }
                    } else {
                        assert forall|i: int| 0 <= i < ns.len() implies #[trigger] ns[i] == ns[0] by {
                            if i < prev.len() {
                                assert(prev[i] == prev[0]);
                            }
                        }
                    }
                },
                Some(f) => {
                    assert(!(forall|i: int| 0 <= i < prev.len() ==> #[trigger] prev[i] == prev[0]));
                    let w = choose|i: int| 0 <= i < prev.len() && #[trigger] prev[i] != prev[0];
                    assert(ns[w] != ns[0]);
                    let f2 = credit(c, n).featured->0;
                    if n == p || f.contains(n) {
                        assert(f2 == f);
                        assert forall|i: int, j: int, a: int, b: int|
                            0 <= i < j < f.len() && first_at(ns, f[i], a) && first_at(ns, f[j], b)
                                implies a < b by {
                            assert(f.contains(f[i]));
                            assert(f.contains(f[j]));
                            lemma_first_at_push(prev, n, f[i], a);
                            lemma_first_at_push(prev, n, f[j], b);
                        }
                    } else {
                        assert(!prev.contains(n));
                        assert(f2 == f.push(n));
                        assert forall|x: Seq<char>| f2.contains(x) <==> ns.contains(x) && x != ns[0] by {
                            if f2.contains(x) {
                                let i = choose|i: int| 0 <= i < f2.len() && f2[i] == x;
                                if i < f.len() {
                                    assert(f.contains(x));
                                }
                            }
                            if f.contains(x) {
                                let i = choose|i: int| 0 <= i < f.len() && f[i] == x;
                                assert(f2[i] == x);
                            }
                            if x == n {
                                assert(f2[f.len() as int] == x);
                            }
                        }
                        assert forall|i: int, j: int, a: int, b: int|
                            0 <= i < j < f2.len() && first_at(ns, f2[i], a) && first_at(ns, f2[j], b)
                                implies a < b by {
                            assert(f2[i] == f[i]);
                            assert(f.contains(f[i]));
                            lemma_first_at_push(prev, n, f[i], a);
                            if j < f.len() {
                                assert(f2[j] == f[j]);
                                assert(f.contains(f[j]));
                                lemma_first_at_push(prev, n, f[j], b);
                            }
                        }
                    }
                },
            }
        } else {
            assert(ns.len() == 1);
            assert forall|i: int| 0 <= i < ns.len() implies #[trigger] ns[i] == ns[0] by {}
        }
    }
}

/// Who a track is credited to, stated directly: take the non-empty names of
/// the album artists, then of the track's artists. The first is the primary
/// artist; the others are every other name, each once, in order of first
/// appearance, and nothing where there is no other name.
pub proof fn lemma_credits_direct(raw: PropMap)
    ensures
        credits_describe(credits_of(raw), artist_names(raw)),
{
    let a = list_items(raw.find("xesam:albumArtist"@));
    let b = list_items(raw.find("xesam:artist"@));
    lemma_credit_all_names(no_credits(), a);
    lemma_credit_all_names(credit_all(no_credits(), a), b);
    lemma_credit_names_concat(no_credits(), names_of(a), names_of(b));
    lemma_credit_names_describe(names_of(a) + names_of(b));
}

/// The credits that a pair of exec values holds.
pub open spec fn credits_held(artist: Option<String>, featured: Option<Vec<String>>) -> Credits {
    Credits { primary: opt_text(artist), featured: opt_texts(featured) }
}

pub(crate) fn contains_text(list: &Vec<String>, s: &String) -> (r: bool)
    ensures
        r == texts(list@).contains(s@),
{
    let mut i: usize = 0;
    while i < list.len()
        invariant
            i <= list@.len(),
            forall|j: int| 0 <= j < i ==> list@[j]@ != s@,
        decreases list@.len() - i,
    {
        if same_text(list[i].as_str(), s.as_str()) {
            assert(texts(list@)[i as int] == s@);
            return true;
        }
        i = i + 1;
    }
    assert(!texts(list@).contains(s@)) by {
        if texts(list@).contains(s@) {
            let j = choose|j: int| 0 <= j < texts(list@).len() && texts(list@)[j] == s@;
            assert(list@[j]@ == s@);
        }
    }
    false
}

fn credit_name(name: &String, artist: &mut Option<String>, featured: &mut Option<Vec<String>>)
    ensures
        credits_held(*final(artist), *final(featured)) == credit(
            credits_held(*old(artist), *old(featured)),
            name@,
        ),
{
    match artist {
        None => {
            *artist = Some(name.clone());
        },
        Some(p) => {
            if !same_text(p.as_str(), name.as_str()) {
                match featured {
                    None => {
                        let mut v: Vec<String> = Vec::new();
                        v.push(name.clone());
                        assert(texts(v@) =~= seq![name@]);
                        *featured = Some(v);
                    },
                    Some(f) => {
                        if !contains_text(f, name) {
                            let ghost before = f@;
                            f.push(name.clone());
                            assert(texts(f@) =~= texts(before).push(name@));
                        }
                    },
                }
            }
        },
    }
}

fn credit_list(items: &Vec<PropValue>, artist: &mut Option<String>, featured: &mut Option<Vec<String>>)
    ensures
        credits_held(*final(artist), *final(featured)) == credit_all(
            credits_held(*old(artist), *old(featured)),
            items@,
        ),
{
    let ghost start = credits_held(*artist, *featured);
    let mut i: usize = 0;
    assert(items@.take(0) =~= Seq::<PropValue>::empty());
    while i < items.len()
        invariant
            i <= items@.len(),
            credits_held(*artist, *featured) == credit_all(start, items@.take(i as int)),
        decreases items@.len() - i,
    {
        assert(items@.take(i + 1).drop_last() =~= items@.take(i as int));
        assert(items@.take(i + 1).last() == items@[i as int]);
        match text_of(Some(&items[i])) {
            Some(name) => credit_name(&name, artist, featured),
            None => {},
        }
        i = i + 1;
    }
    assert(items@.take(i as int) =~= items@);
}

/// Reads who a track is credited to: the album artists, then the track's
/// artists, each non-empty name credited in turn.
pub fn parse_artists(raw: &PropMap) -> (r: (Option<String>, Option<Vec<String>>))
    ensures
        credits_held(r.0, r.1) == credits_of(*raw),
        credits_describe(credits_held(r.0, r.1), artist_names(*raw)),
        credits_wf(credits_held(r.0, r.1)),
{
    let mut artist: Option<String> = None;
    let mut featured: Option<Vec<String>> = None;
    match raw.get("xesam:albumArtist") {
        Some(PropValue::Array(items)) => credit_list(items, &mut artist, &mut featured),
        _ => {},
    }
    match raw.get("xesam:artist") {
        Some(PropValue::Array(items)) => credit_list(items, &mut artist, &mut featured),
        _ => {},
    }
    proof {
        lemma_credits_direct(*raw);
        lemma_credit_all_wf(no_credits(), list_items(raw.find("xesam:albumArtist"@)));
        lemma_credit_all_wf(
            credit_all(no_credits(), list_items(raw.find("xesam:albumArtist"@))),
            list_items(raw.find("xesam:artist"@)),
        );
    }
    (artist, featured)
}

/// Reads a track from the player's metadata dictionary. Title, album and art
/// locator are taken where they are non-empty text; the artists as
/// `parse_artists` reads them.
pub fn parse_metadata(raw: &PropMap) -> (r: Metadata)
    ensures
        opt_text(r.title) == text_value(raw.find("xesam:title"@)),
        opt_text(r.album) == text_value(raw.find("xesam:album"@)),
        opt_text(r.art) == text_value(raw.find("mpris:artUrl"@)),
        credits_held(r.artist, r.featured) == credits_of(*raw),
        credits_describe(credits_held(r.artist, r.featured), artist_names(*raw)),
        credits_wf(credits_held(r.artist, r.featured)),
{
    let title = text_of(raw.get("xesam:title"));
    let album = text_of(raw.get("xesam:album"));
    let art = text_of(raw.get("mpris:artUrl"));
    let (artist, featured) = parse_artists(raw);
    Metadata { title, album, artist, featured, art }
}

/// One thing the watcher does on a property-change signal.
#[derive(Debug, Clone, Copy, PartialEq, Eq, Structural)]
pub enum SignalAction {
    /// Send a playback event with this status.
    EmitStatus(PlaybackStatus),
    /// Drop a status that could not be decoded, and report why.
    DropStatus(DecodeError),
    /// Read the metadata again whole and send it; the signal's own copy is
    /// not trusted.
    RefreshMetadata,
}

/// What a property-change signal carrying `changed` asks for, in order: the
/// status first, then the metadata.
pub open spec fn signal_actions(changed: PropMap) -> Seq<SignalAction> {
    let status = match changed.find("PlaybackStatus"@) {
        Some(v) => match status_value(v) {
            Ok(s) => seq![SignalAction::EmitStatus(s)],
            Err(e) => seq![SignalAction::DropStatus(e)],
        },
        None => Seq::empty(),
    };
    let metadata = if changed.find("Metadata"@) is Some {
        seq![SignalAction::RefreshMetadata]
    } else {
        Seq::empty()
    };
    status + metadata
}

/// Decides what a property-change signal carrying `changed` asks for.
pub fn props_changed(changed: &PropMap) -> (r: Vec<SignalAction>)
    ensures
        r@ == signal_actions(*changed),
{
    let mut r: Vec<SignalAction> = Vec::new();
    match changed.get("PlaybackStatus") {
        Some(v) => match PlaybackStatus::from_value(v) {
            Ok(s) => r.push(SignalAction::EmitStatus(s)),
            Err(e) => r.push(SignalAction::DropStatus(e)),
        },
        None => {},
    }
    let ghost status = r@;
    if changed.contains("Metadata") {
        r.push(SignalAction::RefreshMetadata);
        assert(r@ =~= status + seq![SignalAction::RefreshMetadata]);
    } else {
        assert(r@ =~= status + Seq::<SignalAction>::empty());
    }
    proof {
        match changed.find("PlaybackStatus"@) {
            Some(v) => {},
            None => {
                assert(status =~= Seq::<SignalAction>::empty());
            },
        }
    }
    r
}

/// Whether a signal's header names the player's property-change signal.
pub fn is_player_signal(path: &str, interface: &str, member: &str) -> (r: bool)
    ensures
        r == (path@ == PLAYER_PATH@ && interface@ == PROPERTIES_INTERFACE@ && member@
            == PROPERTIES_CHANGED@),
{
    same_text(path, PLAYER_PATH) && same_text(interface, PROPERTIES_INTERFACE) && same_text(
        member,
        PROPERTIES_CHANGED,
    )
}

} // verus!
