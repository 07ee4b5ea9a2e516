use std::collections::{HashMap, VecDeque};

use multiplayer::protocol::{PlaybackState, RoomListing, Track, TrackMetadata};
use multiplayer::state::{
    clamp_unit, PlayStatusIcon, Preferences, ServerStatus, State, StateChanges, StateUpdate, BUFFER, CONNECTION,
    F32_ONE_BITS, F32_ZERO_BITS, LOADING_COUNT, ROOM_ALL, ROOM_CONNECTED_USERS, ROOM_CURRENT_TRACK, ROOM_ELAPSED,
    ROOM_PLAYBACK_STATE, ROOM_QUEUE, SEEK_POSITION, PREFERENCES, SERVER_STATUSES, VISUALIZER, VOLUME, ROOM_BUFFERING,
};

fn fresh() -> State<u8> {
    State {
        my_id: "me".to_string(),
        preferences: Preferences::with_ids(1, 2),
        connection: None,
        server_statuses: HashMap::new(),
        loading_count: 0,
        seek_position_bits: None,
        visualizer: [0; 14],
        buffer: 0,
    }
}

fn track(id: u32, owner: &str) -> Track {
    Track {
        id,
        owner: owner.to_string(),
        path: vec![],
        metadata: TrackMetadata {
            duration_bits: 0,
            track_no: None,
            title: None,
            artist: None,
            album: None,
            album_artist: None,
            art: None,
        },
    }
}

fn in_room() -> State<u8> {
    let mut s = fresh();
    s.update(StateUpdate::NewConnection { server_id: 2 });
    s.update(StateUpdate::NewRoom(RoomListing { id: 5, name: "den".to_string(), user_names: vec![] }));
    s
}

#[test]
fn flags_are_distinct_bits_and_room_all_covers_the_room() {
    let flags = [VOLUME, VISUALIZER, BUFFER, LOADING_COUNT, SERVER_STATUSES, CONNECTION, ROOM_QUEUE, ROOM_BUFFERING, ROOM_ELAPSED, ROOM_CONNECTED_USERS, ROOM_CURRENT_TRACK, ROOM_PLAYBACK_STATE, SEEK_POSITION, PREFERENCES];
    for (i, f) in flags.iter().enumerate() {
        assert_eq!(*f, 1 << i);
    }
    assert_eq!(ROOM_ALL, ROOM_QUEUE | ROOM_BUFFERING | ROOM_ELAPSED | ROOM_CONNECTED_USERS | ROOM_CURRENT_TRACK | ROOM_PLAYBACK_STATE);
}

#[test]
fn change_sets() {
    let a = StateChanges::from_bits(VOLUME | BUFFER);
    assert!(a.contains(StateChanges::from_bits(VOLUME)));
    assert!(!a.contains(StateChanges::from_bits(VOLUME | CONNECTION)));
    assert!(a.intersects(StateChanges::from_bits(VOLUME | CONNECTION)));
    assert!(!a.intersects(StateChanges::from_bits(CONNECTION)));
    assert_eq!(a.union(StateChanges::from_bits(CONNECTION)).bits, VOLUME | BUFFER | CONNECTION);
    assert!(StateChanges::empty().is_empty());
    assert!(!a.is_empty());
}

#[test]
fn volume_is_clamped_to_the_unit_interval() {
    assert_eq!(clamp_unit(2.0f32.to_bits()), F32_ONE_BITS);
    assert_eq!(clamp_unit((-0.5f32).to_bits()), F32_ZERO_BITS);
    assert_eq!(clamp_unit(0.25f32.to_bits()), 0.25f32.to_bits());
    assert_eq!(clamp_unit((-0.0f32).to_bits()), (-0.0f32).to_bits());
    assert!(f32::from_bits(clamp_unit(f32::NAN.to_bits())).is_nan());
    assert_eq!(clamp_unit(f32::INFINITY.to_bits()), F32_ONE_BITS);
    assert_eq!(clamp_unit(f32::NEG_INFINITY.to_bits()), F32_ZERO_BITS);
    let mut s = fresh();
    assert_eq!(s.update(StateUpdate::SetVolume(1.5f32.to_bits())).bits, VOLUME);
    assert_eq!(s.preferences.volume_bits, F32_ONE_BITS);
}

#[test]
fn room_updates_need_a_room() {
    let mut s = fresh();
    assert_eq!(s.update(StateUpdate::SetRoomBuffering(true)).bits, 0);
    assert_eq!(s.update(StateUpdate::ClearRoom).bits, 0);
    assert_eq!(s.update(StateUpdate::NewRoom(RoomListing { id: 1, name: "x".to_string(), user_names: vec![] })).bits, 0);
    assert!(s.connection.is_none());
}

#[test]
fn a_new_room_starts_empty_and_stopped() {
    let s = in_room();
    let r = s.room().unwrap();
    assert_eq!((r.id, r.name.as_str(), r.buffering, r.elapsed_bits, r.current_track), (5, "den", false, 0, 0));
    assert_eq!(r.playback_state, PlaybackState::Stopped);
    assert!(r.queue.is_empty() && r.connected_users.is_empty() && r.transmit_thread.is_none());
}

#[test]
fn room_updates_report_their_flags() {
    let mut s = in_room();
    assert_eq!(s.update(StateUpdate::SetRoomBuffering(true)).bits, ROOM_BUFFERING);
    assert_eq!(s.update(StateUpdate::SetRoomElapsed(3.0f32.to_bits())).bits, ROOM_ELAPSED);
    assert_eq!(s.update(StateUpdate::SetRoomQueue(VecDeque::from(vec![track(0, "me"), track(1, "you")]))).bits, ROOM_QUEUE);
    assert_eq!(s.update(StateUpdate::SetRoomCurrentTrack(1)).bits, ROOM_CURRENT_TRACK);
    assert_eq!(s.update(StateUpdate::SetRoomPlaybackState(PlaybackState::Playing)).bits, ROOM_PLAYBACK_STATE);
    assert_eq!(s.update(StateUpdate::SetRoomConnectedUsers(vec![("you".to_string(), "y".to_string())])).bits, ROOM_CONNECTED_USERS);
    let r = s.room().unwrap();
    assert!(r.buffering);
    assert_eq!(r.elapsed_bits, 3.0f32.to_bits());
    assert_eq!(r.current_track, 1);
    assert_eq!(s.current_track().unwrap().owner, "you");
    assert!(!s.is_transmitter());
    assert_eq!(s.play_status(), PlayStatusIcon::PlayRx);
    assert_eq!(s.update(StateUpdate::ClearRoom).bits, ROOM_ALL);
    assert!(s.room().is_none());
    assert_eq!(s.update(StateUpdate::ClearConnection).bits, CONNECTION);
}

#[test]
fn play_status_icons() {
    let mut s = in_room();
    assert_eq!(s.play_status(), PlayStatusIcon::Stop);
    assert!(s.is_stopped());
    s.update(StateUpdate::SetRoomQueue(VecDeque::from(vec![track(0, "me")])));
    s.update(StateUpdate::SetRoomPlaybackState(PlaybackState::Paused));
    assert!(s.is_paused());
    assert_eq!(s.play_status(), PlayStatusIcon::Pause);
    s.update(StateUpdate::SetRoomPlaybackState(PlaybackState::Playing));
    assert!(s.is_transmitter());
    assert_eq!(s.play_status(), PlayStatusIcon::PlayTx);
    assert!(fresh().is_stopped());
    assert!(!fresh().is_paused());
}

#[test]
fn other_updates() {
    let mut s = fresh();
    assert_eq!(s.update(StateUpdate::SetServerStatus(2, ServerStatus::Error)).bits, SERVER_STATUSES);
    assert!(matches!(s.server_statuses.get(&2), Some(ServerStatus::Error)));
    assert_eq!(s.update(StateUpdate::SetConnectedServerStatus(ServerStatus::Unknown)).bits, 0);
    s.update(StateUpdate::NewConnection { server_id: 2 });
    assert_eq!(s.update(StateUpdate::SetConnectedServerStatus(ServerStatus::Unknown)).bits, SERVER_STATUSES);
    assert!(matches!(s.server_statuses.get(&2), Some(ServerStatus::Unknown)));
    assert_eq!(s.update(StateUpdate::ClearServerStatuses).bits, SERVER_STATUSES);
    assert!(s.server_statuses.is_empty());
    assert_eq!(s.update(StateUpdate::SetSeekPosition(7)).bits, SEEK_POSITION);
    assert_eq!(s.seek_position_bits, Some(7));
    assert_eq!(s.update(StateUpdate::ClearSeekPosition).bits, SEEK_POSITION);
    assert_eq!(s.seek_position_bits, None);
    assert_eq!(s.update(StateUpdate::SetVisualizer([3; 14])).bits, VISUALIZER);
    assert_eq!(s.visualizer, [3; 14]);
    assert_eq!(s.update(StateUpdate::SetBufferLevel(9)).bits, BUFFER);
    assert_eq!(s.buffer, 9);
    assert_eq!(s.update(StateUpdate::IncreaseLoadingCount(3)).bits, LOADING_COUNT);
    assert_eq!(s.update(StateUpdate::DecreaseLoadingCount(2)).bits, LOADING_COUNT);
    assert_eq!(s.loading_count, 1);
    let c = s.update(StateUpdate::SetPreferences { name: "zed".to_string(), lyrics_show_warning_arrows: false, display_album_artist: true });
    assert_eq!(c.bits, PREFERENCES);
    assert_eq!(s.preferences.name, "zed");
    assert!(!s.preferences.lyrics_show_warning_arrows && s.preferences.display_album_artist);
    assert_eq!(s.preferences.servers.len(), 1);
}
