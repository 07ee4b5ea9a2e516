use multiplayer::protocol::{
    AudioData, Message, Notification, PlaybackCommand, PlaybackState, Request, Response, RoomOptions, TrackMetadata,
    TrackRequest,
};
use multiplayer::room::{RoomActor, RoomEffect, RoomError};

fn request(tag: u8) -> TrackRequest {
    TrackRequest {
        path: vec![tag],
        metadata: TrackMetadata {
            duration_bits: 0,
            track_no: None,
            title: Some(format!("t{tag}")),
            artist: None,
            album: None,
            album_artist: None,
            art: None,
        },
    }
}

fn room_with(n: u8) -> RoomActor {
    let mut room = RoomActor::new(3, RoomOptions { name: "den".to_string() });
    let owner = "o".to_string();
    for i in 0..n {
        room.queue_push(&owner, i as u32, request(i));
    }
    room
}

fn queue_ids(room: &RoomActor) -> Vec<u32> {
    room.queue.iter().map(|t| t.id).collect()
}

fn state_update(e: &RoomEffect) -> (Option<u32>, Option<PlaybackState>) {
    match e {
        RoomEffect::Broadcast(Message::Notification(Notification::Queue { maybe_current_track, maybe_playback_state, .. })) => {
            (*maybe_current_track, *maybe_playback_state)
        }
        other => panic!("{other:?}"),
    }
}

#[test]
fn a_new_room_is_empty_and_stopped() {
    let room = RoomActor::new(8, RoomOptions { name: "r".to_string() });
    assert_eq!((room.id, room.name.as_str(), room.next_track, room.current_track), (8, "r", 0, 0));
    assert_eq!(room.playback_state, PlaybackState::Stopped);
    assert!(room.queue.is_empty() && room.users.is_empty());
}

#[test]
fn the_first_push_plays_and_ids_count_up() {
    let mut room = RoomActor::new(1, RoomOptions { name: "r".to_string() });
    let e = room.queue_push(&"alice".to_string(), 11, request(0));
    assert_eq!(room.playback_state, PlaybackState::Playing);
    assert_eq!(room.current_track, 0);
    match e.as_slice() {
        [RoomEffect::Broadcast(Message::Notification(Notification::Queue { maybe_queue: Some(q), maybe_current_track: None, maybe_playback_state: Some(PlaybackState::Playing) })), RoomEffect::Send(to, Message::Response { request_id: 11, data: Response::Success(true) })] => {
            assert_eq!(q.len(), 1);
            assert_eq!(q[0].owner, "alice");
            assert_eq!(to, "alice");
        }
        other => panic!("{other:?}"),
    }
    room.queue_push(&"bob".to_string(), 12, request(1));
    assert_eq!(queue_ids(&room), vec![0, 1]);
    assert_eq!(room.next_track, 2);
    assert_eq!(room.queue[1].owner, "bob");
}

#[test]
fn pushing_to_a_stopped_nonempty_room_keeps_it_stopped() {
    let mut room = room_with(1);
    room.handle_playback_command(PlaybackCommand::Stop);
    room.queue_push(&"o".to_string(), 1, request(9));
    assert_eq!(room.playback_state, PlaybackState::Stopped);
}

#[test]
fn pause_toggles_and_pausing_twice_restores() {
    let mut room = room_with(1);
    let e = room.handle_playback_command(PlaybackCommand::Pause);
    assert_eq!(room.playback_state, PlaybackState::Paused);
    assert!(matches!(&e[0], RoomEffect::Broadcast(Message::PlaybackCommand(PlaybackCommand::Pause))));
    assert_eq!(state_update(&e[1]), (None, Some(PlaybackState::Paused)));
    room.handle_playback_command(PlaybackCommand::Pause);
    assert_eq!(room.playback_state, PlaybackState::Playing);
}

#[test]
fn pausing_a_stopped_room_changes_nothing() {
    let mut room = RoomActor::new(1, RoomOptions { name: "r".to_string() });
    let e = room.handle_playback_command(PlaybackCommand::Pause);
    assert_eq!(room.playback_state, PlaybackState::Stopped);
    assert_eq!(e.len(), 1);
}

#[test]
fn play_while_playing_restarts() {
    let mut room = room_with(1);
    let e = room.handle_playback_command(PlaybackCommand::Play);
    assert_eq!(e.len(), 3);
    assert_eq!(state_update(&e[1]), (None, Some(PlaybackState::Stopped)));
    assert_eq!(state_update(&e[2]), (None, Some(PlaybackState::Playing)));
    assert_eq!(room.playback_state, PlaybackState::Playing);
}

#[test]
fn stop_then_play() {
    let mut room = room_with(2);
    let e = room.handle_playback_command(PlaybackCommand::Stop);
    assert_eq!(state_update(&e[1]), (None, Some(PlaybackState::Stopped)));
    let e = room.handle_playback_command(PlaybackCommand::Stop);
    assert_eq!(e.len(), 1);
    let e = room.handle_playback_command(PlaybackCommand::Play);
    assert_eq!(e.len(), 2);
    assert_eq!(room.playback_state, PlaybackState::Playing);
    assert_eq!(room.current_track, 0);
}

#[test]
fn next_and_prev_move_through_the_queue() {
    let mut room = room_with(3);
    let e = room.handle_playback_command(PlaybackCommand::Next);
    assert_eq!(room.current_track, 1);
    assert_eq!(state_update(&e[1]), (Some(1), Some(PlaybackState::Playing)));
    room.handle_playback_command(PlaybackCommand::Prev);
    assert_eq!(room.current_track, 0);
    let e = room.handle_playback_command(PlaybackCommand::Prev);
    assert_eq!(room.current_track, 0);
    assert_eq!(room.playback_state, PlaybackState::Stopped);
    assert_eq!(state_update(&e[1]), (Some(0), Some(PlaybackState::Stopped)));
}

#[test]
fn next_on_the_last_track_stops() {
    let mut room = room_with(2);
    room.handle_playback_command(PlaybackCommand::Next);
    room.handle_playback_command(PlaybackCommand::Next);
    assert_eq!(room.current_track, 1);
    assert_eq!(room.playback_state, PlaybackState::Stopped);
}

#[test]
fn skipping_in_an_empty_room_sends_only_the_command() {
    let mut room = RoomActor::new(1, RoomOptions { name: "r".to_string() });
    let e = room.handle_playback_command(PlaybackCommand::Next);
    assert_eq!(e.len(), 1);
    let e = room.handle_playback_command(PlaybackCommand::SeekTo(0x4000_0000));
    assert_eq!(e.len(), 1);
    assert!(matches!(e[0], RoomEffect::Broadcast(Message::PlaybackCommand(PlaybackCommand::SeekTo(0x4000_0000)))));
}

#[test]
fn finishing_a_track_moves_to_the_next() {
    let mut room = room_with(2);
    let e = room.handle_message(&"o".to_string(), Message::AudioData(AudioData::Finish)).unwrap();
    assert_eq!(room.current_track, 1);
    assert!(matches!(&e[0], RoomEffect::BroadcastOthers(id, Message::AudioData(AudioData::Finish)) if id == "o"));
    assert_eq!(state_update(&e[1]), (Some(1), Some(PlaybackState::Playing)));
    room.handle_message(&"o".to_string(), Message::AudioData(AudioData::Finish)).unwrap();
    assert_eq!(room.playback_state, PlaybackState::Stopped);
}

#[test]
fn audio_and_text_are_relayed_to_the_others() {
    let mut room = room_with(1);
    let e = room.handle_message(&"o".to_string(), Message::Text("hi".to_string())).unwrap();
    assert!(matches!(e.as_slice(), [RoomEffect::BroadcastOthers(id, Message::Text(t))] if id == "o" && t == "hi"));
    let e = room.handle_message(&"o".to_string(), Message::AudioData(AudioData::Start)).unwrap();
    assert!(matches!(e.as_slice(), [RoomEffect::BroadcastOthers(_, Message::AudioData(AudioData::Start))]));
    let e = room.handle_message(&"o".to_string(), Message::Heartbeat).unwrap();
    assert!(matches!(e.as_slice(), [RoomEffect::Heartbeat(id)] if id == "o"));
    assert!(room.handle_message(&"o".to_string(), Message::QueryRoomList).unwrap().is_empty());
}

#[test]
fn users_join_leave_and_move() {
    let mut room = room_with(0);
    let e = room.welcome_client("a".to_string(), "ann".to_string());
    assert_eq!(e.len(), 3);
    assert!(matches!(&e[0], RoomEffect::Send(id, Message::Notification(Notification::Room(Some(l)))) if id == "a" && l.id == 3 && l.user_names.is_empty()));
    room.welcome_client("b".to_string(), "ben".to_string());
    assert_eq!(room.room_listing().user_names, vec!["a".to_string(), "b".to_string()]);

    let e = room.handle_request(&"a".to_string(), 5, Request::JoinRoom(9)).unwrap();
    match e.as_slice() {
        [RoomEffect::Broadcast(Message::Notification(Notification::ConnectedUsers(users))), RoomEffect::TransferToRoom { client_id, name, request_id: 5, room_id: 9 }] => {
            assert_eq!(users, &vec![("b".to_string(), "ben".to_string())]);
            assert_eq!((client_id.as_str(), name.as_str()), ("a", "ann"));
        }
        other => panic!("{other:?}"),
    }
    let e = room.finish_join("a".to_string(), "ann".to_string(), 5, false);
    assert!(matches!(e.as_slice(), [RoomEffect::Send(id, Message::Response { request_id: 5, data: Response::Success(false) })] if id == "a"));
    assert_eq!(room.users.len(), 2);

    let e = room.handle_request(&"b".to_string(), 6, Request::LeaveRoom).unwrap();
    assert_eq!(e.len(), 4);
    assert!(matches!(&e[1], RoomEffect::ReturnToLobby { client_id, name } if client_id == "b" && name == "ben"));
    assert!(matches!(&e[3], RoomEffect::Send(_, Message::Response { request_id: 6, data: Response::Success(true) })));
    let e = room.client_left(&"a".to_string());
    assert!(matches!(e.as_slice(), [RoomEffect::Broadcast(Message::Notification(Notification::ConnectedUsers(u)))] if u.is_empty()));
}

#[test]
fn strangers_are_refused() {
    let mut room = room_with(0);
    let e = room.handle_request(&"x".to_string(), 2, Request::LeaveRoom).unwrap();
    assert!(matches!(&e[1], RoomEffect::Send(_, Message::Response { request_id: 2, data: Response::Success(false) })));
    let e = room.handle_request(&"x".to_string(), 3, Request::JoinRoom(1)).unwrap();
    assert!(matches!(&e[1], RoomEffect::Send(_, Message::Response { request_id: 3, data: Response::Success(false) })));
}

#[test]
fn room_requests() {
    let mut room = room_with(0);
    let e = room.handle_request(&"x".to_string(), 4, Request::CreateRoom(RoomOptions { name: "n".to_string() })).unwrap();
    assert!(matches!(e.as_slice(), [RoomEffect::CreateRoom { client_id, request_id: 4, options }] if client_id == "x" && options.name == "n"));
    assert_eq!(
        room.handle_request(&"x".to_string(), 1, Request::Handshake("meow".to_string())).unwrap_err(),
        RoomError::UnexpectedRequest
    );
}

#[test]
fn queue_notifications_carry_the_selected_parts() {
    let room = room_with(2);
    match room.queue_notification(true, true, false) {
        Message::Notification(Notification::Queue { maybe_queue: Some(q), maybe_current_track: Some(0), maybe_playback_state: None }) => {
            assert_eq!(q.iter().map(|t| t.id).collect::<Vec<_>>(), vec![0, 1]);
        }
        other => panic!("{other:?}"),
    }
}
