use mpvc::commands::{
    loop_enabled, mute_enabled, playlist_from_value, Playlist, PlaylistAddOptions, PlaylistEntry,
    SeekOptions, Switch,
};
use mpvc::error::Error;
use mpvc::resolve::{format_duration, u64_text, value_to_string, Metadata};

fn val(json: &str) -> serde_json::Value {
    serde_json::from_str(json).unwrap()
}

#[test]
fn seek_options_name_their_wire_argument() {
    assert_eq!(SeekOptions::Relative.to_arg(), "relative");
    assert_eq!(SeekOptions::Absolute.to_arg(), "absolute");
    assert_eq!(SeekOptions::RelativePercent.to_arg(), "relative-percent");
    assert_eq!(SeekOptions::AbsolutePercent.to_arg(), "absolute-percent");
}

#[test]
fn playlist_add_options_name_their_wire_argument() {
    assert_eq!(PlaylistAddOptions::Replace.to_arg(), "replace");
    assert_eq!(PlaylistAddOptions::Append.to_arg(), "append");
    assert_eq!(PlaylistAddOptions::AppendPlay.to_arg(), "append-play");
}

#[test]
fn loop_switch_decisions() {
    assert_eq!(loop_enabled(&Switch::On, None), Some(true));
    assert_eq!(loop_enabled(&Switch::Off, None), Some(false));
    let off = "false".to_string();
    let inf = "inf".to_string();
    assert_eq!(loop_enabled(&Switch::Toggle, Some(&off)), Some(true));
    assert_eq!(loop_enabled(&Switch::Toggle, Some(&inf)), Some(false));
    assert_eq!(loop_enabled(&Switch::Toggle, None), None);
}

#[test]
fn mute_switch_decisions() {
    assert_eq!(mute_enabled(&Switch::On, None), Some(true));
    assert_eq!(mute_enabled(&Switch::Off, None), Some(false));
    assert_eq!(mute_enabled(&Switch::Toggle, Some(true)), Some(false));
    assert_eq!(mute_enabled(&Switch::Toggle, Some(false)), Some(true));
    assert_eq!(mute_enabled(&Switch::Toggle, None), None);
}

#[test]
fn playlist_entries_take_positions_and_defaults() {
    let v = val(
        "[{\"filename\":\"a.mp3\",\"title\":\"A\",\"current\":true},\
          {\"filename\":\"b.mp3\"},\
          {\"title\":7,\"current\":false}]",
    );
    let es = playlist_from_value(&v).unwrap();
    assert_eq!(es.len(), 3);
    assert_eq!(
        es[0],
        PlaylistEntry {
            id: 0,
            filename: "a.mp3".to_string(),
            title: "A".to_string(),
            current: true,
        }
    );
    assert_eq!(es[1].id, 1);
    assert_eq!(es[1].filename, "b.mp3");
    assert_eq!(es[1].title, "");
    assert!(!es[1].current);
    assert_eq!(es[2].title, "");
    assert!(!es[2].current);
}

#[test]
fn playlist_requires_an_array() {
    match playlist_from_value(&val("{\"not\":\"an array\"}")) {
        Err(Error::UnexpectedValue) => {},
        _ => panic!("a non-array playlist has the wrong shape"),
    }
}

#[test]
fn current_id_finds_the_first_current_entry() {
    let v = val(
        "[{\"filename\":\"a\"},{\"filename\":\"b\",\"current\":true},\
          {\"filename\":\"c\",\"current\":true}]",
    );
    let pl = Playlist { socket: "/tmp/mpv.sock".to_string(), entries: playlist_from_value(&v).unwrap() };
    assert_eq!(pl.current_id(), Some(1));
    let empty = Playlist { socket: "/tmp/mpv.sock".to_string(), entries: Vec::new() };
    assert_eq!(empty.current_id(), None);
}

#[test]
fn durations_format_as_clock_text() {
    assert_eq!(format_duration(0), "00:00");
    assert_eq!(format_duration(59), "00:59");
    assert_eq!(format_duration(60), "01:00");
    assert_eq!(format_duration(3599), "59:59");
    assert_eq!(format_duration(3600), "01:00:00");
    assert_eq!(format_duration(3661), "01:01:01");
    assert_eq!(format_duration(45296), "12:34:56");
    assert_eq!(format_duration(360000), "100:00:00");
}

#[test]
fn whole_numbers_format_in_decimal() {
    assert_eq!(u64_text(0), "0");
    assert_eq!(u64_text(7), "7");
    assert_eq!(u64_text(105), "105");
    assert_eq!(u64_text(18446744073709551615), "18446744073709551615");
}

#[test]
fn values_stringify_like_the_player_expects() {
    assert_eq!(value_to_string(&val("true")).unwrap(), "true");
    assert_eq!(value_to_string(&val("2.5")).unwrap(), "2.5");
    assert_eq!(value_to_string(&val("\"verbatim\"")).unwrap(), "verbatim");
    assert_eq!(value_to_string(&val("[1,2]")).unwrap(), "[1,2]");
    assert_eq!(value_to_string(&val("{\"k\":1}")).unwrap(), "{\"k\":1}");
    match value_to_string(&val("null")) {
        Err(Error::MissingValue) => {},
        _ => panic!("null carries no value"),
    }
}

#[test]
fn metadata_lookup_uses_lower_cased_keys() {
    let md = Metadata::from_value(&val("{\"ARTIST\":\"Q\",\"Album\":\"R\"}")).unwrap();
    let artist: Vec<char> = "artist".chars().collect();
    let album: Vec<char> = "album".chars().collect();
    let upper: Vec<char> = "ARTIST".chars().collect();
    assert_eq!(md.get(&artist).and_then(|v| v.as_str()), Some("Q"));
    assert_eq!(md.get(&album).and_then(|v| v.as_str()), Some("R"));
    assert!(md.get(&upper).is_none());
}

#[test]
fn metadata_keys_colliding_after_lowercasing_still_resolve() {
    let md = Metadata::from_value(&val("{\"A\":\"x\",\"a\":\"y\"}")).unwrap();
    let key: Vec<char> = "a".chars().collect();
    let found = md.get(&key).and_then(|v| v.as_str()).unwrap();
    assert!(found == "x" || found == "y");
}

#[test]
fn metadata_requires_an_object() {
    match Metadata::from_value(&val("[1,2]")) {
        Err(Error::UnexpectedValue) => {},
        _ => panic!("a non-object metadata value has the wrong shape"),
    }
    let empty = Metadata::empty();
    let any: Vec<char> = "anything".chars().collect();
    assert!(empty.get(&any).is_none());
}
