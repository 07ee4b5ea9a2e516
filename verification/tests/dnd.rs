use multiplayer::dnd::{dropped_paths, is_audio_file, parse_track_number, sort_tracks};
use multiplayer::protocol::{TrackMetadata, TrackRequest};

fn request(path: u8, album: Option<&str>, track_no: Option<&str>) -> TrackRequest {
    TrackRequest {
        path: vec![path],
        metadata: TrackMetadata {
            duration_bits: 0,
            track_no: track_no.map(|s| s.to_string()),
            title: None,
            artist: None,
            album: album.map(|s| s.to_string()),
            album_artist: None,
            art: None,
        },
    }
}

#[test]
fn dropped_lines_become_paths() {
    let paths = dropped_paths("file:///home/a.mp3\r\n  /music/b.flac \nfile://c.ogg");
    assert_eq!(paths, vec!["/home/a.mp3", "/music/b.flac", "c.ogg"]);
}

#[test]
fn empty_lines_are_kept_for_the_caller_to_skip() {
    assert_eq!(dropped_paths(""), vec![""]);
    assert_eq!(dropped_paths("a\n"), vec!["a", ""]);
    assert_eq!(dropped_paths("\n\n"), vec!["", "", ""]);
}

#[test]
fn every_occurrence_of_the_scheme_is_removed_after_trimming() {
    assert_eq!(dropped_paths(" file://x/file://y "), vec!["x/y"]);
    assert_eq!(dropped_paths("file:/x"), vec!["file:/x"]);
    assert_eq!(dropped_paths("fifile://le://z"), vec!["file://z"]);
}

#[test]
fn unicode_white_space_is_trimmed() {
    assert_eq!(dropped_paths("\u{3000}\u{a0}/p\u{2003}\t"), vec!["/p"]);
}

#[test]
fn audio_extensions_are_recognised() {
    for name in ["a.mp3", "b.m4a", "c.flac", "d.wav", "e.ogg", "f.wma", "g.opus", "x.y.mp3"] {
        assert!(is_audio_file(name), "{name}");
    }
}

#[test]
fn other_names_are_not_audio() {
    for name in ["a.MP3", "mp3", ".mp3", "..", "a.mp3.txt", "a.", "notes.txt", ""] {
        assert!(!is_audio_file(name), "{name}");
    }
}

#[test]
fn track_numbers_are_read_before_the_slash() {
    assert_eq!(parse_track_number(&Some("3/12".to_string())), 3);
    assert_eq!(parse_track_number(&Some("07".to_string())), 7);
    assert_eq!(parse_track_number(&Some("+5".to_string())), 5);
    assert_eq!(parse_track_number(&Some("x/2".to_string())), 0);
    assert_eq!(parse_track_number(&Some("".to_string())), 0);
    assert_eq!(parse_track_number(&Some(" 1".to_string())), 0);
    assert_eq!(parse_track_number(&None), 0);
}

#[test]
fn tracks_are_sorted_by_album_then_number() {
    let tracks = vec![
        request(1, Some("b"), Some("2")),
        request(2, Some("a"), Some("10")),
        request(3, None, Some("1")),
        request(4, Some("a"), Some("9/10")),
        request(5, Some("b"), Some("1")),
    ];
    let sorted = sort_tracks(tracks);
    let order: Vec<u8> = sorted.iter().map(|t| t.path[0]).collect();
    assert_eq!(order, vec![3, 4, 2, 5, 1]);
}

#[test]
fn equal_keys_keep_their_order() {
    let tracks = vec![
        request(1, Some("x"), None),
        request(2, Some("x"), Some("0")),
        request(3, Some("w"), Some("bad")),
        request(4, Some("x"), Some("zero")),
    ];
    let sorted = sort_tracks(tracks);
    let order: Vec<u8> = sorted.iter().map(|t| t.path[0]).collect();
    assert_eq!(order, vec![3, 1, 2, 4]);
}

#[test]
fn album_names_compare_by_code_point() {
    let tracks = vec![
        request(1, Some("é"), None),
        request(2, Some("z"), None),
        request(3, Some("Z"), None),
        request(4, Some("za"), None),
    ];
    let sorted = sort_tracks(tracks);
    let order: Vec<u8> = sorted.iter().map(|t| t.path[0]).collect();
    assert_eq!(order, vec![3, 2, 4, 1]);
}

#[test]
fn sorting_nothing_gives_nothing() {
    assert!(sort_tracks(Vec::new()).is_empty());
}
