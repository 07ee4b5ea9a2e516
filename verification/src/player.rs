//! The decisions of the player's main task: what each button and request of
//! the window leads to, given whether and where the player is connected.
//! The task performs the step that comes back.

use vstd::prelude::*;
use crate::protocol::{PlaybackCommand, RoomOptions};
use crate::state::Server;

verus! {

/// What the window asks of the main task.
#[derive(Debug)]
pub enum PlayerEvent {
    Connect(Server),
    JoinRoom(u32),
    RefreshServers,
    NewRoom,
    DroppedFiles(String),
    Play,
    Stop,
    Pause,
    Next,
    Prev,
    Quit,
}

/// What the main task does about it.
#[derive(Debug)]
pub enum PlayerStep {
    /// Connect to this server.
    Connect(Server),
    /// Drop the current connection, then connect to this server.
    Reconnect(Server),
    /// Ask the server to put the player in this room.
    JoinRoom(u32),
    /// Show the known servers and ask each for its rooms.
    RefreshServers,
    /// Ask the server for a new room.
    CreateRoom(RoomOptions),
    /// Resolve the dropped files and queue their tracks.
    QueueDroppedFiles(String),
    /// Send this playback command to the room.
    SendPlayback(PlaybackCommand),
    /// Stop the player.
    Quit,
    /// Nothing to do.
    Nothing,
}

/// The name of rooms that the player creates.
pub open spec fn new_room_name() -> Seq<char> {
    seq!['m', 'e', 'o', 'w', ' ', 'r', 'o', 'o', 'm']
}

/// The step for an event when the player is connected to the server at
/// `connected_addr` (`None`: not connected). A server is connected to unless
/// the player is already connected to that address; everything that speaks
/// to a server is dropped when there is none.
pub open spec fn spec_player_step(connected_addr: Option<Seq<char>>, event: PlayerEvent, step: PlayerStep) -> bool {
    match event {
        PlayerEvent::Connect(server) => match connected_addr {
            None => step == PlayerStep::Connect(server),
            Some(addr) => if addr == server.addr@ {
                step is Nothing
            } else {
                step == PlayerStep::Reconnect(server)
            },
        },
        PlayerEvent::RefreshServers => step is RefreshServers,
        PlayerEvent::Quit => step is Quit,
        _ => if connected_addr is None {
            step is Nothing
        } else {
            match event {
                PlayerEvent::JoinRoom(id) => step == PlayerStep::JoinRoom(id),
                PlayerEvent::NewRoom => step matches PlayerStep::CreateRoom(o) && o.name@ == new_room_name(),
                PlayerEvent::DroppedFiles(data) => step == PlayerStep::QueueDroppedFiles(data),
                PlayerEvent::Play => step == PlayerStep::SendPlayback(PlaybackCommand::Play),
                PlayerEvent::Stop => step == PlayerStep::SendPlayback(PlaybackCommand::Stop),
                PlayerEvent::Pause => step == PlayerStep::SendPlayback(PlaybackCommand::Pause),
                PlayerEvent::Next => step == PlayerStep::SendPlayback(PlaybackCommand::Next),
                PlayerEvent::Prev => step == PlayerStep::SendPlayback(PlaybackCommand::Prev),
                _ => false,
            }
        },
    }
}

/// Decides what an event of the window leads to.
pub fn player_step(connected_addr: Option<&String>, event: PlayerEvent) -> (step: PlayerStep)
    ensures
        spec_player_step(
            match connected_addr {
                Some(a) => Some(a@),
                None => None,
            },
            event,
            step,
        ),
{
    match event {
        PlayerEvent::Connect(server) => match connected_addr {
            None => PlayerStep::Connect(server),
            Some(addr) => {
                if *addr == server.addr {
                    PlayerStep::Nothing
                } else {
                    PlayerStep::Reconnect(server)
                }
            },
        },
        PlayerEvent::RefreshServers => PlayerStep::RefreshServers,
        PlayerEvent::Quit => PlayerStep::Quit,
        other => {
            if connected_addr.is_none() {
                return PlayerStep::Nothing;
            }
            match other {
                PlayerEvent::JoinRoom(id) => PlayerStep::JoinRoom(id),
                PlayerEvent::NewRoom => {
                    let name = "meow room".to_owned();
                    proof {
                        reveal_strlit("meow room");
                    }
                    assert(name@ =~= new_room_name());
                    PlayerStep::CreateRoom(RoomOptions { name })
                },
                PlayerEvent::DroppedFiles(data) => PlayerStep::QueueDroppedFiles(data),
                PlayerEvent::Play => PlayerStep::SendPlayback(PlaybackCommand::Play),
                PlayerEvent::Stop => PlayerStep::SendPlayback(PlaybackCommand::Stop),
                PlayerEvent::Pause => PlayerStep::SendPlayback(PlaybackCommand::Pause),
                PlayerEvent::Next => PlayerStep::SendPlayback(PlaybackCommand::Next),
                PlayerEvent::Prev => PlayerStep::SendPlayback(PlaybackCommand::Prev),
                _ => PlayerStep::Nothing,
            }
        },
    }
}

} // verus!
