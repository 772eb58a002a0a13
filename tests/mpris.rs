use mprvis::mpris::{
    is_player_signal, parse_artists, parse_metadata, props_changed, DecodeError, Metadata,
    PlaybackStatus, SignalAction,
};
use mprvis::props::{PropMap, PropValue};

fn make_text(val: &str) -> PropValue {
    PropValue::Str(val.to_string())
}

fn make_list(vals: &[&str]) -> PropValue {
    PropValue::Array(vals.iter().map(|v| PropValue::Str(v.to_string())).collect())
}

fn make_double(val: f64) -> PropValue {
    PropValue::Double(val.to_bits())
}

#[test]
fn it_parses_simple_data() {
    let mut raw = PropMap::new();
    raw.insert("xesam:title".to_string(), make_text("Brother"));
    raw.insert("xesam:artist".to_string(), make_list(&["Murder By Death"]));
    raw.insert("mpris:artUrl".to_string(), make_text("https://open.spotify.com/image/f568c1436c8a9063d21efdd901e8ce6fdc1029e3"));
    raw.insert("xesam:album".to_string(), make_text("In Bocca Al Lupo"));
    raw.insert("mpris:length".to_string(), PropValue::Int(230853000));
    raw.insert("xesam:url".to_string(), make_text("https://open.spotify.com/track/7tFAnpi9kCBSiNkA6ZPSiZ"));
    raw.insert("xesam:albumArtist".to_string(), make_list(&["Murder By Death"]));
    raw.insert("xesam:autoRating".to_string(), make_double(0.25));
    raw.insert("mpris:trackid".to_string(), make_text("spotify:track:7tFAnpi9kCBSiNkA6ZPSiZ"));
    raw.insert("xesam:discNumber".to_string(), PropValue::Int(1));
    raw.insert("xesam:trackNumber".to_string(), PropValue::Int(4));

    let metadata = parse_metadata(&raw);
    assert_eq!(Metadata {
        title: Some("Brother".to_string()),
        album: Some("In Bocca Al Lupo".to_string()),
        artist: Some("Murder By Death".to_string()),
        featured: None,
        art: Some("https://open.spotify.com/image/f568c1436c8a9063d21efdd901e8ce6fdc1029e3".to_string()),
    }, metadata);
}

#[test]
fn it_parses_with_multiple_artists() {
    let mut raw = PropMap::new();
    raw.insert("xesam:url".to_string(), make_text("https://open.spotify.com/track/5IJ7ltnKTfKowtCrVmhN7s"));
    raw.insert("xesam:discNumber".to_string(), PropValue::Int(1));
    raw.insert("mpris:artUrl".to_string(), make_text("https://open.spotify.com/image/7f201a3182356eb97966df061ffc2f38bbe83732"));
    raw.insert("mpris:length".to_string(), PropValue::Int(167933000));
    raw.insert("xesam:albumArtist".to_string(), make_list(&[
        "David Orlowsky Trio",
        "David Orlowsky",
    ]));
    raw.insert("xesam:autoRating".to_string(), make_double(0.08));
    raw.insert("xesam:trackNumber".to_string(), PropValue::Int(6));
    raw.insert("mpris:trackid".to_string(), make_text("spotify:track:5IJ7ltnKTfKowtCrVmhN7s"));
    raw.insert("xesam:album".to_string(), make_text("Klezmer Kings"));
    raw.insert("xesam:title".to_string(), make_text("Yossl Yossl"));
    raw.insert("xesam:artist".to_string(), make_list(&[
        "SAMUEL STEINBERG",
        "Nellie Casman",
    ]));

    let metadata = parse_metadata(&raw);
    assert_eq!(Metadata {
        title: Some("Yossl Yossl".to_string()),
        album: Some("Klezmer Kings".to_string()),
        artist: Some("David Orlowsky Trio".to_string()),
        featured: Some(vec![
            "David Orlowsky".to_string(), "SAMUEL STEINBERG".to_string(),
            "Nellie Casman".to_string()
        ]),
        art: Some("https://open.spotify.com/image/7f201a3182356eb97966df061ffc2f38bbe83732".to_string()),
    }, metadata);
}

#[test]
fn artists_are_credited_once_without_the_primary() {
    let mut raw = PropMap::new();
    raw.insert("xesam:albumArtist".to_string(), make_list(&["A", "", "B", "A"]));
    raw.insert("xesam:artist".to_string(), PropValue::Array(vec![
        make_text("B"),
        PropValue::Int(7),
        make_text("C"),
        make_text("A"),
    ]));
    let (artist, featured) = parse_artists(&raw);
    assert_eq!(artist, Some("A".to_string()));
    assert_eq!(featured, Some(vec!["B".to_string(), "C".to_string()]));
}

#[test]
fn no_artists_gives_nothing() {
    let raw = PropMap::new();
    assert_eq!(parse_artists(&raw), (None, None));
}

#[test]
fn later_insert_replaces_a_value() {
    let mut raw = PropMap::new();
    raw.insert("xesam:title".to_string(), make_text("Old"));
    raw.insert("xesam:title".to_string(), make_text("New"));
    assert_eq!(parse_metadata(&raw).title, Some("New".to_string()));
}

#[test]
fn status_names_decode() {
    assert_eq!(PlaybackStatus::from_str("Playing"), Ok(PlaybackStatus::Playing));
    assert_eq!(PlaybackStatus::from_str("Paused"), Ok(PlaybackStatus::Paused));
    assert_eq!(PlaybackStatus::from_str("Stopped"), Ok(PlaybackStatus::Stopped));
    assert_eq!(PlaybackStatus::from_str("Buffering"), Err(DecodeError::UnknownStatus));
    assert_eq!(PlaybackStatus::from_str("paused"), Err(DecodeError::UnknownStatus));
    assert_eq!(PlaybackStatus::from_value(&PropValue::Int(1)), Err(DecodeError::NotText));
    assert_eq!(PlaybackStatus::Paused.label(), "Paused");
}

#[test]
fn paused_signal_emits_paused() {
    let mut changed = PropMap::new();
    changed.insert("PlaybackStatus".to_string(), make_text("Paused"));
    assert_eq!(props_changed(&changed), vec![SignalAction::EmitStatus(PlaybackStatus::Paused)]);
    let mut changed = PropMap::new();
    changed.insert("PlaybackStatus".to_string(), make_text("Stopped"));
    assert_eq!(props_changed(&changed), vec![SignalAction::EmitStatus(PlaybackStatus::Stopped)]);
}

#[test]
fn unknown_status_is_a_decode_error_and_no_event() {
    let mut changed = PropMap::new();
    changed.insert("PlaybackStatus".to_string(), make_text("Buffering"));
    assert_eq!(props_changed(&changed), vec![SignalAction::DropStatus(DecodeError::UnknownStatus)]);
}

#[test]
fn status_only_signal_gives_one_status_and_no_metadata() {
    let mut changed = PropMap::new();
    changed.insert("PlaybackStatus".to_string(), make_text("Playing"));
    assert_eq!(props_changed(&changed), vec![SignalAction::EmitStatus(PlaybackStatus::Playing)]);
}

#[test]
fn metadata_signal_asks_for_a_fresh_read() {
    let mut changed = PropMap::new();
    changed.insert("Metadata".to_string(), PropValue::Other);
    assert_eq!(props_changed(&changed), vec![SignalAction::RefreshMetadata]);
}

#[test]
fn status_goes_before_the_metadata_read() {
    let mut changed = PropMap::new();
    changed.insert("Metadata".to_string(), PropValue::Other);
    changed.insert("PlaybackStatus".to_string(), make_text("Paused"));
    assert_eq!(
        props_changed(&changed),
        vec![SignalAction::EmitStatus(PlaybackStatus::Paused), SignalAction::RefreshMetadata]
    );
    assert!(props_changed(&PropMap::new()).is_empty());
}

#[test]
fn only_the_player_signal_matches() {
    assert!(is_player_signal(
        "/org/mpris/MediaPlayer2",
        "org.freedesktop.DBus.Properties",
        "PropertiesChanged"
    ));
    assert!(!is_player_signal(
        "/org/other",
        "org.freedesktop.DBus.Properties",
        "PropertiesChanged"
    ));
    assert!(!is_player_signal("/org/mpris/MediaPlayer2", "org.freedesktop.DBus.Properties", "Seeked"));
}
