use multiplayer::player::{player_step, PlayerEvent, PlayerStep};
use multiplayer::protocol::PlaybackCommand;
use multiplayer::state::Server;

fn server(addr: &str) -> Server {
    Server { id: 1, name: "s".to_string(), addr: addr.to_string() }
}

#[test]
fn connecting_when_not_connected() {
    match player_step(None, PlayerEvent::Connect(server("a:1"))) {
        PlayerStep::Connect(s) => assert_eq!(s.addr, "a:1"),
        other => panic!("{other:?}"),
    }
}

#[test]
fn connecting_to_another_server_reconnects() {
    let current = "a:1".to_string();
    match player_step(Some(&current), PlayerEvent::Connect(server("b:2"))) {
        PlayerStep::Reconnect(s) => assert_eq!(s.addr, "b:2"),
        other => panic!("{other:?}"),
    }
    assert!(matches!(player_step(Some(&current), PlayerEvent::Connect(server("a:1"))), PlayerStep::Nothing));
}

#[test]
fn buttons_send_playback_commands_when_connected() {
    let current = "a:1".to_string();
    let cases = [
        (PlayerEvent::Play, PlaybackCommand::Play),
        (PlayerEvent::Stop, PlaybackCommand::Stop),
        (PlayerEvent::Pause, PlaybackCommand::Pause),
        (PlayerEvent::Next, PlaybackCommand::Next),
        (PlayerEvent::Prev, PlaybackCommand::Prev),
    ];
    for (event, command) in cases {
        match player_step(Some(&current), event) {
            PlayerStep::SendPlayback(c) => assert_eq!(c, command),
            other => panic!("{other:?}"),
        }
    }
}

#[test]
fn server_requests_are_dropped_when_not_connected() {
    for event in [
        PlayerEvent::Play,
        PlayerEvent::JoinRoom(3),
        PlayerEvent::NewRoom,
        PlayerEvent::DroppedFiles("x".to_string()),
    ] {
        assert!(matches!(player_step(None, event), PlayerStep::Nothing));
    }
}

#[test]
fn requests_that_need_a_server() {
    let current = "a:1".to_string();
    assert!(matches!(player_step(Some(&current), PlayerEvent::JoinRoom(3)), PlayerStep::JoinRoom(3)));
    match player_step(Some(&current), PlayerEvent::NewRoom) {
        PlayerStep::CreateRoom(o) => assert_eq!(o.name, "meow room"),
        other => panic!("{other:?}"),
    }
    match player_step(Some(&current), PlayerEvent::DroppedFiles("file:///a".to_string())) {
        PlayerStep::QueueDroppedFiles(d) => assert_eq!(d, "file:///a"),
        other => panic!("{other:?}"),
    }
}

#[test]
fn refresh_and_quit_need_no_server() {
    assert!(matches!(player_step(None, PlayerEvent::RefreshServers), PlayerStep::RefreshServers));
    assert!(matches!(player_step(None, PlayerEvent::Quit), PlayerStep::Quit));
}
