use multiplayer::lobby::{handshake_reply, timed_out, HandshakeError, LobbyEffect, LobbyError, MainActor, HEARTBEAT_TIMEOUT_MILLIS};
use multiplayer::protocol::{Message, Request, Response, RoomOptions};

type Lobby = MainActor<&'static str, &'static str, u8>;

#[test]
fn handshake_is_answered_with_the_same_request_id() {
    let hs = Message::Request { request_id: 42, data: Request::Handshake("meow".to_string()) };
    match handshake_reply(Some(hs)) {
        Ok(Message::Response { request_id: 42, data: Response::Handshake(a) }) => assert_eq!(a, "nyaa"),
        other => panic!("{other:?}"),
    }
}

#[test]
fn bad_handshakes_are_refused() {
    let wrong = Message::Request { request_id: 1, data: Request::Handshake("woof".to_string()) };
    assert_eq!(handshake_reply(Some(wrong)).unwrap_err(), HandshakeError::InvalidHandshake);
    assert_eq!(handshake_reply(Some(Message::Heartbeat)).unwrap_err(), HandshakeError::InvalidHandshake);
    assert_eq!(handshake_reply(None).unwrap_err(), HandshakeError::Disconnected);
}

#[test]
fn heartbeat_timeout_is_two_minutes() {
    assert_eq!(HEARTBEAT_TIMEOUT_MILLIS, 120_000);
    assert!(!timed_out(120_000));
    assert!(timed_out(120_001));
}

#[test]
fn unauthenticated_connections() {
    let mut lobby = Lobby::new();
    let a = lobby.unauthed_connections.insert("conn-a");
    let b = lobby.unauthed_connections.insert("conn-b");
    assert_eq!((a, b), (0, 1));
    let e = lobby.handle_unauthed_message(a, Message::QueryRoomList);
    assert!(matches!(e.as_slice(), [LobbyEffect::SendRoomListUnauthed(0)]));
    let e = lobby.handle_unauthed_message(b, Message::Heartbeat);
    assert!(matches!(e.as_slice(), [LobbyEffect::HeartbeatUnauthed(1)]));
    let e = lobby.handle_unauthed_message(b, Message::PlaybackCommand(multiplayer::protocol::PlaybackCommand::Play));
    assert!(e.is_empty());
    let auth = Message::Request {
        request_id: 7,
        data: Request::Authenticate { id: "id-b".to_string(), name: "bee".to_string() },
    };
    let e = lobby.handle_unauthed_message(b, auth);
    match e.as_slice() {
        [LobbyEffect::Authenticate { conn, request_id: 7, id, name }] => {
            assert_eq!((*conn, id.as_str(), name.as_str()), ("conn-b", "id-b", "bee"));
        }
        other => panic!("{other:?}"),
    }
    assert_eq!(lobby.unauthed_connections.inner.len(), 1);
    assert_eq!(lobby.unauthed_connections.inner[0].0, a);
}

#[test]
fn creating_a_room_answers_with_its_id() {
    let mut lobby = Lobby::new();
    lobby.add_client("c1".to_string(), "carol".to_string(), "client-1");
    let req = Message::Request { request_id: 3, data: Request::CreateRoom(RoomOptions { name: "r".to_string() }) };
    let e = lobby.handle_message(&"c1".to_string(), req).unwrap();
    match e.as_slice() {
        [LobbyEffect::SpawnRoom { room_id: 0, options }, LobbyEffect::NotifyRoomList, LobbyEffect::Send(to, Message::Response { request_id: 3, data: Response::CreateRoomResponse(0) })] => {
            assert_eq!(options.name, "r");
            assert_eq!(to, "c1");
        }
        other => panic!("{other:?}"),
    }
    assert_eq!(lobby.next_room, 1);
}

#[test]
fn joining_rooms() {
    let mut lobby = Lobby::new();
    lobby.add_client("c1".to_string(), "carol".to_string(), "client-1");
    let join = |room_id| Message::Request { request_id: 9, data: Request::JoinRoom(room_id) };
    let e = lobby.handle_message(&"c1".to_string(), join(5)).unwrap();
    assert!(matches!(e.as_slice(), [LobbyEffect::Send(_, Message::Response { request_id: 9, data: Response::Success(false) })]));
    lobby.register_room(5, 55);
    assert!(lobby.has_room(5));
    let e = lobby.handle_message(&"c1".to_string(), join(5)).unwrap();
    match e.as_slice() {
        [LobbyEffect::MoveToRoom { client, id, name, room_id: 5, request_id: 9 }, LobbyEffect::NotifyRoomList] => {
            assert_eq!((*client, id.as_str(), name.as_str()), ("client-1", "c1", "carol"));
        }
        other => panic!("{other:?}"),
    }
    assert!(lobby.roomless_clients.inner.is_empty());
}

#[test]
fn lobby_refuses_room_traffic() {
    let mut lobby = Lobby::new();
    lobby.add_client("c1".to_string(), "carol".to_string(), "client-1");
    let id = "c1".to_string();
    assert_eq!(
        lobby.handle_message(&id, Message::Request { request_id: 1, data: Request::LeaveRoom }).unwrap_err(),
        LobbyError::UnexpectedRequest
    );
    assert_eq!(lobby.handle_message(&id, Message::Text("hi".to_string())).unwrap_err(), LobbyError::UnexpectedMessage);
    assert!(matches!(lobby.handle_message(&id, Message::Heartbeat).unwrap().as_slice(), [LobbyEffect::Heartbeat(_)]));
    assert!(matches!(lobby.handle_message(&id, Message::QueryRoomList).unwrap().as_slice(), [LobbyEffect::SendRoomList(_)]));
}

#[test]
fn sweep_drops_silent_connections() {
    let mut lobby = Lobby::new();
    lobby.add_client("c1".to_string(), "carol".to_string(), "client-1");
    lobby.add_client("c2".to_string(), "dan".to_string(), "client-2");
    lobby.unauthed_connections.insert("u0");
    lobby.unauthed_connections.insert("u1");
    let (clients, conns, effects) = lobby.sweep_heartbeats(&vec![120_001, 5], &vec![0, 200_000]);
    assert_eq!(clients, vec!["c1".to_string()]);
    assert_eq!(conns, vec![1]);
    assert!(matches!(effects.as_slice(), [LobbyEffect::NotifyRoomList]));
    assert_eq!(lobby.roomless_clients.inner.len(), 1);
    assert_eq!(lobby.roomless_clients.inner[0].0, "c2");
    assert_eq!(lobby.unauthed_connections.inner.len(), 1);
    let (clients, conns, effects) = lobby.sweep_heartbeats(&vec![120_000], &vec![1]);
    assert!(clients.is_empty() && conns.is_empty() && effects.is_empty());
}

#[test]
fn transfers_go_to_existing_rooms_only() {
    let mut lobby = Lobby::new();
    lobby.register_room(3, 33);
    match lobby.transfer_to_room("c9".to_string(), "ivy".to_string(), "client-9", 3) {
        Ok(e) => match e.as_slice() {
            [LobbyEffect::Welcome { client, id, name, room_id: 3 }, LobbyEffect::NotifyRoomList] => {
                assert_eq!((*client, id.as_str(), name.as_str()), ("client-9", "c9", "ivy"));
            }
            other => panic!("{other:?}"),
        },
        Err(c) => panic!("refused {c}"),
    }
    match lobby.transfer_to_room("c9".to_string(), "ivy".to_string(), "client-9", 4) {
        Err(c) => assert_eq!(c, "client-9"),
        Ok(e) => panic!("{e:?}"),
    }
    assert!(lobby.roomless_clients.inner.is_empty());
}
