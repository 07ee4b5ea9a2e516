use std::collections::{HashMap, VecDeque};

use multiplayer::display::{artist_of, lyric_choice, queue_lines, title_of, LyricChoice};
use multiplayer::protocol::{PlaybackState, RoomListing, Track, TrackMetadata};
use multiplayer::state::{ConnectionState, Preferences, RoomState, Server, ServerStatus, State};

fn meta(title: Option<&str>, artist: Option<&str>, album_artist: Option<&str>) -> TrackMetadata {
    TrackMetadata {
        duration_bits: 0,
        track_no: None,
        title: title.map(|s| s.to_string()),
        artist: artist.map(|s| s.to_string()),
        album: None,
        album_artist: album_artist.map(|s| s.to_string()),
        art: None,
    }
}

fn track(id: u32, owner: &str, title: Option<&str>) -> Track {
    Track { id, owner: owner.to_string(), path: vec![], metadata: meta(title, None, None) }
}

fn room(users: Vec<(&str, &str)>, queue: Vec<Track>, current: u32) -> RoomState<()> {
    RoomState {
        id: 4,
        name: "den".to_string(),
        buffering: false,
        elapsed_bits: 0,
        queue: VecDeque::from(queue),
        current_track: current,
        playback_state: PlaybackState::Playing,
        connected_users: users.into_iter().map(|(a, b)| (a.to_string(), b.to_string())).collect(),
        transmit_thread: None,
    }
}

fn state(connection: Option<ConnectionState<()>>) -> State<()> {
    State {
        my_id: "me".to_string(),
        preferences: Preferences::with_ids(1, 2),
        connection,
        server_statuses: HashMap::new(),
        loading_count: 0,
        seek_position_bits: None,
        visualizer: [0; 14],
        buffer: 0,
    }
}

#[test]
fn titles_and_artists_have_placeholders() {
    assert_eq!(title_of(&meta(Some("Song"), None, None)), "Song");
    assert_eq!(title_of(&meta(None, None, None)), "[no title]");
    let m = meta(None, Some("Artist"), Some("Band"));
    assert_eq!(artist_of(&m, false), "Artist");
    assert_eq!(artist_of(&m, true), "Band");
    assert_eq!(artist_of(&meta(None, Some("Artist"), None), true), "[unknown artist]");
    assert_eq!(artist_of(&meta(None, None, Some("Band")), false), "[unknown artist]");
}

#[test]
fn user_list_outside_a_room() {
    assert!(state(None).user_list_lines().is_empty());
    let s = state(Some(ConnectionState { server_id: 2, room: None }));
    assert_eq!(s.user_list_lines(), vec!["no room"]);
}

#[test]
fn user_list_in_a_room_marks_the_player() {
    let r = room(vec![("you-id", "alice"), ("me", "bob")], vec![], 0);
    let s = state(Some(ConnectionState { server_id: 2, room: Some(r) }));
    assert_eq!(s.user_list_lines(), vec!["[den]", "* alice", "@b* you (bob)"]);
}

#[test]
fn queue_lines_show_owner_duration_and_title() {
    let r = room(
        vec![("u1", "alice")],
        vec![track(0, "u1", Some("One")), track(1, "gone", None)],
        1,
    );
    let lines = queue_lines(&r, &vec![65, 3600]);
    assert_eq!(lines, vec!["alice\t[01:05] One", "@b?\t[60:00] [no title]"]);
}

#[test]
fn lyric_choice_at_the_start_clears() {
    let lines = vec![(1000usize, "a".to_string())];
    assert_eq!(lyric_choice(&lines, 0, true, true), LyricChoice::Clear);
}

#[test]
fn lyric_choice_picks_the_last_started_line() {
    let lines = vec![(1000usize, "a".to_string()), (5000, "b".to_string()), (9000, "c".to_string())];
    assert_eq!(lyric_choice(&lines, 6000, false, true), LyricChoice::Line(1));
    assert_eq!(lyric_choice(&lines, 9001, true, true), LyricChoice::Line(2));
    assert_eq!(lyric_choice(&lines, 1000, true, false), LyricChoice::Notes);
}

#[test]
fn lyric_choice_warns_before_a_line() {
    let lines = vec![(1000usize, "a".to_string()), (5000, "b".to_string())];
    assert_eq!(lyric_choice(&lines, 4300, true, true), LyricChoice::Blink);
    assert_eq!(lyric_choice(&lines, 4200, true, true), LyricChoice::Line(0));
    assert_eq!(lyric_choice(&lines, 4300, false, true), LyricChoice::Line(0));
    assert_eq!(lyric_choice(&lines, 4300, true, false), LyricChoice::Line(0));
    assert_eq!(lyric_choice(&lines, 300, true, true), LyricChoice::Blink);
}

#[test]
fn server_tree_lists_servers_rooms_and_users() {
    let mut s = state(Some(ConnectionState { server_id: 2, room: None }));
    s.preferences.servers.push(Server { id: 9, name: "far".to_string(), addr: "10.0.0.1:1".to_string() });
    s.preferences.servers.push(Server { id: 10, name: "down".to_string(), addr: "h:2".to_string() });
    s.server_statuses.insert(
        2,
        ServerStatus::Success {
            rooms: vec![RoomListing { id: 7, name: "den".to_string(), user_names: vec!["a".to_string(), "b".to_string()] }],
        },
    );
    s.server_statuses.insert(10, ServerStatus::Error);
    let tree: Vec<(String, String, Option<u32>, bool)> =
        s.server_tree().into_iter().map(|e| (e.path, e.label, e.room, e.bold)).collect();
    let e = |p: &str, l: &str, r: Option<u32>, b: bool| (p.to_string(), l.to_string(), r, b);
    assert_eq!(
        tree,
        vec![
            e("local", "127.0.0.1:5119", None, true),
            e("127.0.0.1:5119/7", "den (2)", Some(7), false),
            e("127.0.0.1:5119/7/a", "a", None, false),
            e("127.0.0.1:5119/7/b", "b", None, false),
            e("far", "10.0.0.1:1", None, false),
            e("10.0.0.1:1/(querying...)", "(querying...)", None, false),
            e("down", "h:2", None, false),
            e("h:2/(unable to connect)", "(unable to connect)", None, false),
        ]
    );
}
