use mprvis::metadata::{parse_metadata, Metadata};
use mprvis::props::{PropMap, PropValue};

fn make_text(val: &str) -> PropValue {
    PropValue::Str(val.to_string())
}

fn make_list(vals: &[&str]) -> PropValue {
    PropValue::Array(vals.iter().map(|v| PropValue::Str(v.to_string())).collect())
}

fn make_double(val: f64) -> PropValue {
    PropValue::Double(val.to_bits())
}

#[test]
fn mod_it_parses_simple_data() {
    let mut raw = PropMap::new();
    raw.insert("xesam:title".to_string(), make_text("Brother"));
    raw.insert("xesam:artist".to_string(), make_list(&["Murder By Death"]));
    raw.insert("mpris:artUrl".to_string(), make_text("https://open.spotify.com/image/f568c1436c8a9063d21efdd901e8ce6fdc1029e3"));
    raw.insert("xesam:album".to_string(), make_text("In Bocca Al Lupo"));
    raw.insert("mpris:length".to_string(), PropValue::Int(230853000));
    raw.insert("xesam:url".to_string(), make_text("https://open.spotify.com/track/7tFAnpi9kCBSiNkA6ZPSiZ"));
    raw.insert("xesam:albumArtist".to_string(), make_list(&["Murder By Death"]));
    raw.insert("xesam:autoRating".to_string(), make_double(0.25));
    raw.insert("mpris:trackid".to_string(), make_text("spotify:track:7tFAnpi9kCBSiNkA6ZPSiZ"));
    raw.insert("xesam:discNumber".to_string(), PropValue::Int(1));
    raw.insert("xesam:trackNumber".to_string(), PropValue::Int(4));

    let metadata = parse_metadata(&raw);
    assert_eq!(Metadata {
        title: Some("Brother".to_string()),
        artist: Some("Murder By Death".to_string()),
        featured: None,
        art: Some("https://open.spotify.com/image/f568c1436c8a9063d21efdd901e8ce6fdc1029e3".to_string()),
    }, metadata);
}

#[test]
fn mod_it_parses_with_multiple_artists() {
    let mut raw = PropMap::new();
    raw.insert("xesam:url".to_string(), make_text("https://open.spotify.com/track/5IJ7ltnKTfKowtCrVmhN7s"));
    raw.insert("xesam:discNumber".to_string(), PropValue::Int(1));
    raw.insert("mpris:artUrl".to_string(), make_text("https://open.spotify.com/image/7f201a3182356eb97966df061ffc2f38bbe83732"));
    raw.insert("mpris:length".to_string(), PropValue::Int(167933000));
    raw.insert("xesam:albumArtist".to_string(), make_list(&[
        "David Orlowsky Trio",
        "David Orlowsky",
    ]));
    raw.insert("xesam:autoRating".to_string(), make_double(0.08));
    raw.insert("xesam:trackNumber".to_string(), PropValue::Int(6));
    raw.insert("mpris:trackid".to_string(), make_text("spotify:track:5IJ7ltnKTfKowtCrVmhN7s"));
    raw.insert("xesam:album".to_string(), make_text("Klezmer Kings"));
    raw.insert("xesam:title".to_string(), make_text("Yossl Yossl"));
    raw.insert("xesam:artist".to_string(), make_list(&[
        "SAMUEL STEINBERG",
        "Nellie Casman",
    ]));

    let metadata = parse_metadata(&raw);
    assert_eq!(Metadata {
        title: Some("Yossl Yossl".to_string()),
        artist: Some("David Orlowsky Trio".to_string()),
        featured: Some(vec![
            "David Orlowsky".to_string(), "SAMUEL STEINBERG".to_string(),
            "Nellie Casman".to_string()
        ]),
        art: Some("https://open.spotify.com/image/7f201a3182356eb97966df061ffc2f38bbe83732".to_string()),
    }, metadata);
}

#[test]
fn short_form_skips_empty_and_non_text_values() {
    let mut raw = PropMap::new();
    raw.insert("xesam:title".to_string(), make_text(""));
    raw.insert("mpris:artUrl".to_string(), PropValue::Int(3));
    raw.insert("xesam:artist".to_string(), make_text("Not A List"));
    let metadata = parse_metadata(&raw);
    assert_eq!(Metadata { title: None, artist: None, featured: None, art: None }, metadata);
}
