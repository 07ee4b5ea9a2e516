use std::collections::VecDeque;

use multiplayer::audio::AudioStatus;
use multiplayer::key::Key;
use multiplayer::client::{
    audio_status_update, authentication_result, check_handshake_answer, expect_handshake, expect_room_id, expect_success, greeting, handle_message,
    handle_notification, query_handshake, query_status, query_step, transmit_decision, transmit_path, ClientEffect, PendingRequests,
    QueryStep, RequestError, TransmitDecision, QUERY_REQUEST_ID,
};
use multiplayer::protocol::{
    AudioData, Message, Notification, PlaybackCommand, PlaybackState, Request, Response, RoomListing, Track,
    TrackMetadata,
};
use multiplayer::state::{RoomState, ServerStatus, StateUpdate, TransmitThreadHandle};

fn track(id: u32, owner: &str) -> Track {
    Track {
        id,
        owner: owner.to_string(),
        path: vec![id as u8, 1],
        metadata: TrackMetadata { duration_bits: 0, track_no: None, title: None, artist: None, album: None, album_artist: None, art: None },
    }
}

fn room(state: PlaybackState, current: u32, transmitting: Option<u32>) -> RoomState<()> {
    RoomState {
        id: 1,
        name: "r".to_string(),
        buffering: false,
        elapsed_bits: 0,
        queue: VecDeque::from(vec![track(0, "me"), track(1, "you")]),
        current_track: current,
        playback_state: state,
        connected_users: vec![],
        transmit_thread: transmitting.map(|track_id| TransmitThreadHandle { track_id, tx: () }),
    }
}

#[test]
fn responses_of_the_expected_kind() {
    assert_eq!(expect_handshake(Response::Handshake("nyaa".to_string())), Ok("nyaa".to_string()));
    assert_eq!(expect_handshake(Response::Success(true)), Err(RequestError::WrongResponse));
    assert_eq!(expect_success(Response::Success(false)), Ok(false));
    assert_eq!(expect_success(Response::CreateRoomResponse(1)), Err(RequestError::WrongResponse));
    assert_eq!(expect_room_id(Response::CreateRoomResponse(4)), Ok(4));
    assert_eq!(expect_room_id(Response::Handshake(String::new())), Err(RequestError::WrongResponse));
}

#[test]
fn handshake_words() {
    assert_eq!(greeting(), "meow");
    assert_eq!(check_handshake_answer(&"nyaa".to_string()), Ok(()));
    assert_eq!(check_handshake_answer(&"nyaaa".to_string()), Err(RequestError::InvalidHandshake));
}

#[test]
fn requests_get_fresh_ids_and_are_answered_once() {
    let mut pending: PendingRequests<&str> = PendingRequests::new();
    let m = pending.start(Request::LeaveRoom, "leave");
    assert!(matches!(m, Message::Request { request_id: 0, data: Request::LeaveRoom }));
    let m = pending.start(Request::JoinRoom(2), "join");
    assert!(matches!(m, Message::Request { request_id: 1, data: Request::JoinRoom(2) }));
    assert_eq!(pending.finish(1), Some("join"));
    assert_eq!(pending.finish(1), None);
    assert_eq!(pending.next_id, 2);
}

#[test]
fn responses_are_delivered_to_their_waiter() {
    let mut pending: PendingRequests<&str> = PendingRequests::new();
    pending.start(Request::LeaveRoom, "leave");
    let me = "me".to_string();
    let e = handle_message::<&str, ()>(&mut pending, None, &me, Message::Response { request_id: 0, data: Response::Success(true) });
    assert!(matches!(e.as_slice(), [ClientEffect::Deliver("leave", Response::Success(true))]));
    let e = handle_message::<&str, ()>(&mut pending, None, &me, Message::Response { request_id: 0, data: Response::Success(true) });
    assert!(matches!(e.as_slice(), [ClientEffect::UnknownResponse(0)]));
}

#[test]
fn playback_commands_clear_the_buffer() {
    let mut pending: PendingRequests<u8> = PendingRequests::new();
    let me = "me".to_string();
    let tx = room(PlaybackState::Playing, 0, Some(0));
    let e = handle_message::<u8, ()>(&mut pending, Some(&tx), &me, Message::PlaybackCommand(PlaybackCommand::Next));
    assert!(matches!(e.as_slice(), [ClientEffect::StopTransmit, ClientEffect::ClearAudio]));
    let e = handle_message::<u8, ()>(&mut pending, Some(&tx), &me, Message::PlaybackCommand(PlaybackCommand::SeekTo(5)));
    assert!(matches!(e.as_slice(), [ClientEffect::SeekTransmit(5), ClientEffect::ClearAudio]));
    let rx = room(PlaybackState::Playing, 1, None);
    let e = handle_message::<u8, ()>(&mut pending, Some(&rx), &me, Message::PlaybackCommand(PlaybackCommand::Stop));
    assert!(matches!(e.as_slice(), [ClientEffect::ClearAudio]));
    let e = handle_message::<u8, ()>(&mut pending, Some(&rx), &me, Message::PlaybackCommand(PlaybackCommand::Play));
    assert!(e.is_empty());
    let e = handle_message::<u8, ()>(&mut pending, Some(&rx), &me, Message::AudioData(AudioData::Finish));
    assert!(matches!(e.as_slice(), [ClientEffect::PlayAudio(AudioData::Finish)]));
    let e = handle_message::<u8, ()>(&mut pending, None, &me, Message::Heartbeat);
    assert!(matches!(e.as_slice(), [ClientEffect::Unexpected(Message::Heartbeat)]));
}

#[test]
fn transmission_follows_the_current_track() {
    let me = "me".to_string();
    match transmit_decision(&room(PlaybackState::Playing, 0, None), &me) {
        TransmitDecision::Start { track_id: 0, path } => assert_eq!(path, vec![0, 1]),
        other => panic!("{other:?}"),
    }
    assert!(matches!(transmit_decision(&room(PlaybackState::Playing, 0, Some(0)), &me), TransmitDecision::Keep));
    assert!(matches!(transmit_decision(&room(PlaybackState::Paused, 0, Some(7)), &me), TransmitDecision::Start { track_id: 0, .. }));
    assert!(matches!(transmit_decision(&room(PlaybackState::Stopped, 0, Some(0)), &me), TransmitDecision::Stop));
    assert!(matches!(transmit_decision(&room(PlaybackState::Playing, 1, Some(0)), &me), TransmitDecision::Stop));
    assert!(matches!(transmit_decision(&room(PlaybackState::Playing, 1, None), &me), TransmitDecision::Keep));
    assert!(matches!(transmit_decision(&room(PlaybackState::Playing, 9, None), &me), TransmitDecision::Keep));
}

#[test]
fn notifications_become_state_updates() {
    let me = "me".to_string();
    let e = handle_notification::<u8, ()>(None, &me, Notification::ConnectedUsers(vec![("a".to_string(), "b".to_string())]));
    assert!(matches!(e.as_slice(), [ClientEffect::Update(StateUpdate::SetRoomConnectedUsers(l))] if l.len() == 1));
    let e = handle_notification::<u8, ()>(None, &me, Notification::Room(None));
    assert!(matches!(e.as_slice(), [ClientEffect::Update(StateUpdate::ClearRoom)]));
    let listing = RoomListing { id: 3, name: "x".to_string(), user_names: vec![] };
    let e = handle_notification::<u8, ()>(None, &me, Notification::Room(Some(listing)));
    assert!(matches!(e.as_slice(), [ClientEffect::Update(StateUpdate::NewRoom(l))] if l.id == 3));
    let e = handle_notification::<u8, ()>(None, &me, Notification::RoomList(vec![]));
    assert!(matches!(e.as_slice(), [ClientEffect::Update(StateUpdate::SetConnectedServerStatus(ServerStatus::Success { rooms }))] if rooms.is_empty()));
}

#[test]
fn queue_notifications_update_and_decide_on_transmission() {
    let me = "me".to_string();
    let r = room(PlaybackState::Paused, 0, None);
    let n = Notification::Queue { maybe_queue: None, maybe_current_track: Some(1), maybe_playback_state: Some(PlaybackState::Playing) };
    let e = handle_notification::<u8, ()>(Some(&r), &me, n);
    match e.as_slice() {
        [ClientEffect::Update(StateUpdate::SetRoomCurrentTrack(1)), ClientEffect::Update(StateUpdate::SetRoomPlaybackState(PlaybackState::Playing)), ClientEffect::Transmit(TransmitDecision::Start { track_id: 0, .. }), ClientEffect::PauseTransmit(true), ClientEffect::PauseAudio(true)] => {}
        other => panic!("{other:?}"),
    }
    let r = room(PlaybackState::Playing, 1, None);
    let n = Notification::Queue { maybe_queue: Some(VecDeque::new()), maybe_current_track: None, maybe_playback_state: None };
    let e = handle_notification::<u8, ()>(Some(&r), &me, n);
    assert!(matches!(e.as_slice(), [ClientEffect::Update(StateUpdate::SetRoomQueue(_)), ClientEffect::Transmit(TransmitDecision::Keep), ClientEffect::PauseAudio(false)]));
}

#[test]
fn room_list_queries() {
    match query_handshake() {
        Message::Request { request_id, data: Request::Handshake(h) } => {
            assert_eq!(request_id, QUERY_REQUEST_ID);
            assert_eq!(h, "meow");
        }
        other => panic!("{other:?}"),
    }
    let ok = Message::Response { request_id: QUERY_REQUEST_ID, data: Response::Handshake("nyaa".to_string()) };
    assert!(matches!(query_step(ok), QueryStep::SendQuery));
    let wrong_id = Message::Response { request_id: 1, data: Response::Handshake("nyaa".to_string()) };
    assert!(matches!(query_step(wrong_id), QueryStep::Fail));
    let wrong_word = Message::Response { request_id: QUERY_REQUEST_ID, data: Response::Handshake("meow".to_string()) };
    assert!(matches!(query_step(wrong_word), QueryStep::Fail));
    assert!(matches!(query_step(Message::Notification(Notification::RoomList(vec![]))), QueryStep::Done(l) if l.is_empty()));
    assert!(matches!(query_step(Message::Heartbeat), QueryStep::Wait));
    assert!(matches!(query_status(None), ServerStatus::Error));
    assert!(matches!(query_status(Some(vec![])), ServerStatus::Success { .. }));
}

#[test]
fn authentication_answers() {
    assert_eq!(authentication_result(Response::Success(true)), Ok(()));
    assert_eq!(authentication_result(Response::Success(false)), Err(RequestError::AuthenticationFailed));
    assert_eq!(authentication_result(Response::CreateRoomResponse(1)), Err(RequestError::WrongResponse));
}

#[test]
fn audio_reports_become_state_updates() {
    assert!(audio_status_update(AudioStatus::Elapsed(5)).is_none());
    assert!(matches!(audio_status_update(AudioStatus::Buffering(true)), Some(StateUpdate::SetRoomBuffering(true))));
    assert!(matches!(audio_status_update(AudioStatus::Finished), Some(StateUpdate::SetRoomElapsed(0))));
    assert!(matches!(audio_status_update(AudioStatus::Visualizer([2; 14])), Some(StateUpdate::SetVisualizer(v)) if v == [2; 14]));
    assert!(matches!(audio_status_update(AudioStatus::Buffer(3)), Some(StateUpdate::SetBufferLevel(3))));
}

#[test]
fn transmissions_start_with_the_decrypted_path() {
    let key = Key::from_bytes(vec![7u8; 32]);
    let path = key.encrypt_path(&"songs/x.mp3".to_string()).unwrap();
    match transmit_path(&key, TransmitDecision::Start { track_id: 4, path }) {
        Some((4, Some(Ok(p)))) => assert_eq!(p, "songs/x.mp3"),
        other => panic!("{other:?}"),
    }
    assert!(transmit_path(&key, TransmitDecision::Keep).is_none());
    assert!(transmit_path(&key, TransmitDecision::Stop).is_none());
    assert!(matches!(
        transmit_path(&key, TransmitDecision::Start { track_id: 1, path: vec![1; 30] }),
        Some((1, Some(Err(_))))
    ));
}
