use std::collections::{HashMap, VecDeque};

use multiplayer::protocol::{PlaybackState, RoomListing, Track, TrackMetadata};
use multiplayer::state::{Preferences, State, StateUpdate};
use multiplayer::status::{min_secs, right_status};

fn fresh() -> State<u8> {
    State {
        my_id: "me".to_string(),
        preferences: Preferences::with_ids(1, 2),
        connection: None,
        server_statuses: HashMap::new(),
        loading_count: 0,
        seek_position_bits: None,
        visualizer: [0; 14],
        buffer: 0,
    }
}

fn track(id: u32, owner: &str) -> Track {
    Track {
        id,
        owner: owner.to_string(),
        path: vec![],
        metadata: TrackMetadata { duration_bits: 0, track_no: None, title: None, artist: None, album: None, album_artist: None, art: None },
    }
}

#[test]
fn status_when_not_connected() {
    assert_eq!(fresh().status(), "<not connected>");
}

#[test]
fn status_while_loading() {
    let mut s = fresh();
    s.update(StateUpdate::NewConnection { server_id: 2 });
    s.update(StateUpdate::IncreaseLoadingCount(1));
    assert_eq!(s.status(), "Loading 1 file...");
    s.update(StateUpdate::IncreaseLoadingCount(11));
    assert_eq!(s.status(), "Loading 12 files...");
}

#[test]
fn status_of_the_connection_and_room() {
    let mut s = fresh();
    s.update(StateUpdate::NewConnection { server_id: 2 });
    assert_eq!(s.status(), "Connected to local");
    s.update(StateUpdate::NewRoom(RoomListing { id: 1, name: "den".to_string(), user_names: vec![] }));
    assert_eq!(s.status(), "Connected to local:den");
    s.update(StateUpdate::SetRoomBuffering(true));
    assert_eq!(s.status(), "Buffering...");
    s.update(StateUpdate::SetRoomBuffering(false));
    s.update(StateUpdate::SetRoomQueue(VecDeque::from(vec![track(0, "me"), track(1, "u2")])));
    s.update(StateUpdate::SetRoomPlaybackState(PlaybackState::Playing));
    assert_eq!(s.status(), "Playing (transmitting)");
    s.update(StateUpdate::SetRoomCurrentTrack(1));
    s.update(StateUpdate::SetRoomPlaybackState(PlaybackState::Paused));
    assert_eq!(s.status(), "Paused (receiving from ?)");
    s.update(StateUpdate::SetRoomConnectedUsers(vec![("u2".to_string(), "uma".to_string())]));
    assert_eq!(s.status(), "Paused (receiving from uma)");
    assert_eq!(s.room_counts(), (1, 2));
    s.update(StateUpdate::SetRoomCurrentTrack(7));
    assert_eq!(s.status(), "Connected to local:den");
}

#[test]
fn unknown_servers_are_shown_as_a_question_mark() {
    let mut s = fresh();
    s.update(StateUpdate::NewConnection { server_id: 99 });
    assert_eq!(s.status(), "Connected to ?");
    assert_eq!(s.room_counts(), (0, 0));
}

#[test]
fn minutes_and_seconds() {
    assert_eq!(min_secs(0), "00:00");
    assert_eq!(min_secs(59), "00:59");
    assert_eq!(min_secs(61), "01:01");
    assert_eq!(min_secs(6000), "100:00");
}

#[test]
fn right_status_shows_seek_or_counts() {
    assert_eq!(right_status(Some(125), 3, 4), "[02:05]");
    assert_eq!(right_status(None, 3, 12), "U03 Q12");
    assert_eq!(right_status(None, 123, 0), "U123 Q00");
}
