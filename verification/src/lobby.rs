//! The server's lobby: connections that have not authenticated, clients that
//! are in no room, and the rooms that exist. Its task performs the effects
//! that these decisions return.

use std::collections::HashMap;
use vstd::prelude::*;
use crate::protocol::{Message, Request, Response, RoomOptions};
use crate::registry::{client_ids, conn_ids, fresh_entries, stale_entries, string_views, Clients, UnauthedConnections};
use crate::text::{chars_of, string_from_chars};

verus! {

broadcast use vstd::std_specs::hash::group_hash_axioms;

/// Heartbeats older than this many milliseconds end a connection.
pub const HEARTBEAT_TIMEOUT_MILLIS: u64 = 120000;

/// Something the lobby's task has to do after a decision.
#[derive(Debug)]
pub enum LobbyEffect<U, C> {
    /// Send to the client (in no room) with this id.
    Send(String, Message),
    /// Gather the listings of all rooms and send them to this client.
    SendRoomList(String),
    /// Gather the listings of all rooms and send them to this connection.
    SendRoomListUnauthed(usize),
    /// Gather the listings of all rooms and send them to every connection,
    /// every client and every room.
    NotifyRoomList,
    /// The client with this id is alive.
    Heartbeat(String),
    /// The connection with this number is alive.
    HeartbeatUnauthed(usize),
    /// Answer request `request_id` on this connection (taken out of the
    /// lobby) with success, make it a client and give it back with
    /// `add_client`.
    Authenticate { conn: U, request_id: u32, id: String, name: String },
    /// Start the task of a new room and give its handle back with
    /// `register_room`.
    SpawnRoom { room_id: u32, options: RoomOptions },
    /// Answer request `request_id` on this client's connection (taken out of
    /// the lobby) with success and hand the client to room `room_id`.
    MoveToRoom { client: C, id: String, name: String, room_id: u32, request_id: u32 },
    /// Hand the client, which another room passed on, to room `room_id`.
    Welcome { client: C, id: String, name: String, room_id: u32 },
}

/// Messages and requests that the lobby does not serve.
#[derive(Debug, Clone, Copy, PartialEq, Eq, Structural)]
pub enum LobbyError {
    UnexpectedRequest,
    UnexpectedMessage,
}

/// The decision state of the lobby; `R` is the handle of a room's task.
#[derive(Debug)]
pub struct MainActor<U, C, R> {
    pub unauthed_connections: UnauthedConnections<U>,
    pub roomless_clients: Clients<C>,
    pub next_room: u32,
    pub rooms: HashMap<u32, R>,
}

/// The word a player opens the conversation with.
pub open spec fn handshake_greeting() -> Seq<char> {
    seq!['m', 'e', 'o', 'w']
}

/// The word the server answers it with.
pub open spec fn handshake_answer() -> Seq<char> {
    seq!['n', 'y', 'a', 'a']
}

/// Why a connection is refused before the handshake completed.
#[derive(Debug, Clone, Copy, PartialEq, Eq, Structural)]
pub enum HandshakeError {
    InvalidHandshake,
    Disconnected,
}

/// The answer to the first message of a new connection: a handshake request
/// with the right greeting is answered with the server's word under the same
/// request id; anything else refuses the connection.
pub fn handshake_reply(first: Option<Message>) -> (res: Result<Message, HandshakeError>)
    ensures
        match first {
            None => res == Err::<Message, HandshakeError>(HandshakeError::Disconnected),
            Some(Message::Request { request_id, data: Request::Handshake(hs) }) => if hs@
                == handshake_greeting() {
                res matches Ok(Message::Response { request_id: r, data: Response::Handshake(a) }) && r
                    == request_id && a@ == handshake_answer()
            } else {
                res == Err::<Message, HandshakeError>(HandshakeError::InvalidHandshake)
            },
            Some(_) => res == Err::<Message, HandshakeError>(HandshakeError::InvalidHandshake),
        },
{
    match first {
        None => Err(HandshakeError::Disconnected),
        Some(Message::Request { request_id, data: Request::Handshake(hs) }) => {
            let cs = chars_of(hs.as_str());
            if cs.len() == 4 && cs[0] == 'm' && cs[1] == 'e' && cs[2] == 'o' && cs[3] == 'w' {
                assert(cs@ =~= handshake_greeting());
                let answer = ['n', 'y', 'a', 'a'];
                let a = string_from_chars(&answer);
                assert(answer@ =~= handshake_answer());
                Ok(Message::Response { request_id, data: Response::Handshake(a) })
            } else {
                assert(cs@ != handshake_greeting());
                Err(HandshakeError::InvalidHandshake)
            }
        },
        Some(_) => Err(HandshakeError::InvalidHandshake),
    }
}

/// A connection whose last heartbeat is this old has timed out.
pub open spec fn spec_timed_out(elapsed_millis: u64) -> bool {
    elapsed_millis > HEARTBEAT_TIMEOUT_MILLIS
}

pub fn timed_out(elapsed_millis: u64) -> (res: bool)
    ensures
        res == spec_timed_out(elapsed_millis),
{
    elapsed_millis > HEARTBEAT_TIMEOUT_MILLIS
}

impl<U, C, R> MainActor<U, C, R> {
    pub open spec fn wf(&self) -> bool {
        self.unauthed_connections.wf() && self.roomless_clients.wf()
    }

    pub fn new() -> (r: Self)
        ensures
            r.wf(),
            r.next_room == 0,
            r.rooms@.len() == 0,
            r.unauthed_connections.inner@.len() == 0,
            r.unauthed_connections.next_id == 0,
            r.roomless_clients.inner@.len() == 0,
    {
        MainActor {
            unauthed_connections: UnauthedConnections::new(),
            roomless_clients: Clients::new(),
            next_room: 0,
            rooms: HashMap::new(),
        }
    }

    /// Creates a room: it gets the next room id, its task is started, and
    /// everyone learns the new room list. The id is returned.
    pub fn create_room(&mut self, options: RoomOptions) -> (res: (u32, Vec<LobbyEffect<U, C>>))
        requires
            old(self).wf(),
            old(self).next_room < u32::MAX,
        ensures
            final(self).wf(),
            res.0 == old(self).next_room,
            final(self).next_room == old(self).next_room + 1,
            final(self).rooms@ == old(self).rooms@,
            final(self).unauthed_connections == old(self).unauthed_connections,
            final(self).roomless_clients == old(self).roomless_clients,
            res.1@ == seq![
                LobbyEffect::<U, C>::SpawnRoom { room_id: res.0, options },
                LobbyEffect::<U, C>::NotifyRoomList,
            ],
    {
        let room_id = self.next_room;
        self.next_room = self.next_room + 1;
        let mut effects: Vec<LobbyEffect<U, C>> = Vec::new();
        effects.push(LobbyEffect::SpawnRoom { room_id, options });
        effects.push(LobbyEffect::NotifyRoomList);
        (room_id, effects)
    }

    /// Records the handle of a room's task.
    pub fn register_room(&mut self, room_id: u32, handle: R)
        ensures
            final(self).rooms@ == old(self).rooms@.insert(room_id, handle),
            final(self).next_room == old(self).next_room,
            final(self).unauthed_connections == old(self).unauthed_connections,
            final(self).roomless_clients == old(self).roomless_clients,
    {
        self.rooms.insert(room_id, handle);
    }

    /// Whether a room with this id exists.
    pub fn has_room(&self, room_id: u32) -> (res: bool)
        ensures
            res == self.rooms@.contains_key(room_id),
    {
        self.rooms.contains_key(&room_id)
    }

    /// A room passes one of its clients on to room `room_id`: where that room
    /// exists, the client is handed to it and everyone learns the new room
    /// list; otherwise the client is given back (`Err`) to the room it came
    /// from. The lobby itself is not changed.
    pub fn transfer_to_room(&self, id: String, name: String, client: C, room_id: u32) -> (res: Result<
        Vec<LobbyEffect<U, C>>,
        C,
    >)
        ensures
            self.rooms@.contains_key(room_id) ==> (res matches Ok(effects) && effects@ == seq![
                LobbyEffect::<U, C>::Welcome { client, id, name, room_id },
                LobbyEffect::<U, C>::NotifyRoomList,
            ]),
            !self.rooms@.contains_key(room_id) ==> res == Err::<Vec<LobbyEffect<U, C>>, C>(client),
    {
        if self.has_room(room_id) {
            let mut effects: Vec<LobbyEffect<U, C>> = Vec::new();
            effects.push(LobbyEffect::Welcome { client, id, name, room_id });
            effects.push(LobbyEffect::NotifyRoomList);
            Ok(effects)
        } else {
            Err(client)
        }
    }

    /// A client in no room (authenticated, or back from a room).
    pub fn add_client(&mut self, id: String, name: String, conn: C)
        requires
            old(self).wf(),
        ensures
            final(self).wf(),
            final(self).roomless_clients.inner@ == match client_ids(
                old(self).roomless_clients.inner@,
            ).index_of_first(id@) {
                Some(i) => old(self).roomless_clients.inner@.update(i, (id, name, conn)),
                None => old(self).roomless_clients.inner@.push((id, name, conn)),
            },
            final(self).unauthed_connections == old(self).unauthed_connections,
            final(self).next_room == old(self).next_room,
            final(self).rooms@ == old(self).rooms@,
    {
        self.roomless_clients.insert(id, name, conn);
    }

    /// The heartbeat sweep: drops every client in no room and every
    /// connection that has not authenticated whose last heartbeat is older
    /// than `HEARTBEAT_TIMEOUT_MILLIS`; `client_elapsed[i]` and
    /// `conn_elapsed[i]` are the ages of the heartbeats of the entries at
    /// position `i`. Returns the ids and numbers dropped, and the room list
    /// notification if anything was dropped.
    pub fn sweep_heartbeats(&mut self, client_elapsed: &Vec<u64>, conn_elapsed: &Vec<u64>) -> (res: (
        Vec<String>,
        Vec<usize>,
        Vec<LobbyEffect<U, C>>,
    ))
        requires
            old(self).wf(),
            client_elapsed@.len() == old(self).roomless_clients.inner@.len(),
            conn_elapsed@.len() == old(self).unauthed_connections.inner@.len(),
        ensures
            final(self).wf(),
            final(self).roomless_clients.inner@ == fresh_entries(
                old(self).roomless_clients.inner@,
                client_elapsed@,
                HEARTBEAT_TIMEOUT_MILLIS,
            ),
            final(self).unauthed_connections.inner@ == fresh_entries(
                old(self).unauthed_connections.inner@,
                conn_elapsed@,
                HEARTBEAT_TIMEOUT_MILLIS,
            ),
            final(self).unauthed_connections.next_id == old(self).unauthed_connections.next_id,
            final(self).next_room == old(self).next_room,
            final(self).rooms@ == old(self).rooms@,
            string_views(res.0@) == client_ids(
                stale_entries(old(self).roomless_clients.inner@, client_elapsed@, HEARTBEAT_TIMEOUT_MILLIS),
            ),
            res.1@ == conn_ids(
                stale_entries(old(self).unauthed_connections.inner@, conn_elapsed@, HEARTBEAT_TIMEOUT_MILLIS),
            ),
            res.2@ == (if res.0@.len() > 0 || res.1@.len() > 0 {
                seq![LobbyEffect::<U, C>::NotifyRoomList]
            } else {
                Seq::<LobbyEffect<U, C>>::empty()
            }),
    {
        let clients = self.roomless_clients.remove_stale(client_elapsed, HEARTBEAT_TIMEOUT_MILLIS);
        let conns = self.unauthed_connections.remove_stale(conn_elapsed, HEARTBEAT_TIMEOUT_MILLIS);
        let mut effects: Vec<LobbyEffect<U, C>> = Vec::new();
        if clients.len() > 0 || conns.len() > 0 {
            effects.push(LobbyEffect::NotifyRoomList);
        }
        proof {
            if clients@.len() > 0 || conns@.len() > 0 {
                assert(effects@ =~= seq![LobbyEffect::<U, C>::NotifyRoomList]);
            } else {
                assert(effects@ =~= Seq::<LobbyEffect<U, C>>::empty());
            }
        }
        (clients, conns, effects)
    }
}

/// What a message from a connection that has not authenticated does.
pub open spec fn unauthed_post<U, C, R>(
    old: MainActor<U, C, R>,
    new: MainActor<U, C, R>,
    conn_id: usize,
    message: Message,
    effects: Seq<LobbyEffect<U, C>>,
) -> bool {
    &&& new.roomless_clients == old.roomless_clients
    &&& new.next_room == old.next_room
    &&& new.rooms@ == old.rooms@
    &&& match message {
        Message::QueryRoomList => new.unauthed_connections == old.unauthed_connections && effects
            == seq![LobbyEffect::<U, C>::SendRoomListUnauthed(conn_id)],
        Message::Request { request_id, data: Request::Authenticate { id, name } } => {
            let i = conn_ids(old.unauthed_connections.inner@).index_of_first(conn_id)->0;
            &&& new.unauthed_connections.inner@ == old.unauthed_connections.inner@.remove(i)
            &&& new.unauthed_connections.next_id == old.unauthed_connections.next_id
            &&& effects == seq![
                LobbyEffect::<U, C>::Authenticate {
                    conn: old.unauthed_connections.inner@[i].1,
                    request_id,
                    id,
                    name,
                },
            ]
        },
        Message::Heartbeat => new.unauthed_connections == old.unauthed_connections && effects
            == seq![LobbyEffect::<U, C>::HeartbeatUnauthed(conn_id)],
        _ => new.unauthed_connections == old.unauthed_connections && effects.len() == 0,
    }
}

/// What a request from a client in no room does.
pub open spec fn client_request_post<U, C, R>(
    old: MainActor<U, C, R>,
    new: MainActor<U, C, R>,
    id: String,
    request_id: u32,
    request: Request,
    res: Result<Vec<LobbyEffect<U, C>>, LobbyError>,
) -> bool {
    &&& new.unauthed_connections == old.unauthed_connections
    &&& new.rooms@ == old.rooms@
    &&& match request {
        Request::CreateRoom(options) => res matches Ok(e) && new.roomless_clients
            == old.roomless_clients && new.next_room == old.next_room + 1 && e@ == seq![
            LobbyEffect::<U, C>::SpawnRoom { room_id: old.next_room, options },
            LobbyEffect::<U, C>::NotifyRoomList,
            LobbyEffect::<U, C>::Send(
                id,
                Message::Response {
                    request_id,
                    data: Response::CreateRoomResponse(old.next_room),
                },
            ),
        ],
        Request::JoinRoom(room_id) => res matches Ok(e) && new.next_room == old.next_room && if !old.rooms@.contains_key(
            room_id,
        ) {
            new.roomless_clients == old.roomless_clients && e@ == seq![
                LobbyEffect::<U, C>::Send(
                    id,
                    Message::Response { request_id, data: Response::Success(false) },
                ),
            ]
        } else {
            match client_ids(old.roomless_clients.inner@).index_of_first(id@) {
                Some(i) => new.roomless_clients.inner@ == old.roomless_clients.inner@.remove(i)
                    && e@ == seq![
                    LobbyEffect::<U, C>::MoveToRoom {
                        client: old.roomless_clients.inner@[i].2,
                        id,
                        name: old.roomless_clients.inner@[i].1,
                        room_id,
                        request_id,
                    },
                    LobbyEffect::<U, C>::NotifyRoomList,
                ],
                None => new.roomless_clients.inner@ == old.roomless_clients.inner@ && e@.len()
                    == 0,
            }
        },
        _ => new.roomless_clients == old.roomless_clients && new.next_room == old.next_room && res
            == Err::<Vec<LobbyEffect<U, C>>, LobbyError>(LobbyError::UnexpectedRequest),
    }
}

/// What a message from a client in no room does.
pub open spec fn client_message_post<U, C, R>(
    old: MainActor<U, C, R>,
    new: MainActor<U, C, R>,
    id: String,
    message: Message,
    res: Result<Vec<LobbyEffect<U, C>>, LobbyError>,
) -> bool {
    match message {
        Message::Request { request_id, data } => client_request_post(
            old,
            new,
            id,
            request_id,
            data,
            res,
        ),
        Message::QueryRoomList => res matches Ok(e) && new == old && e@ == seq![
            LobbyEffect::<U, C>::SendRoomList(id),
        ],
        Message::Heartbeat => res matches Ok(e) && new == old && e@ == seq![
            LobbyEffect::<U, C>::Heartbeat(id),
        ],
        _ => new == old && res == Err::<Vec<LobbyEffect<U, C>>, LobbyError>(
            LobbyError::UnexpectedMessage,
        ),
    }
}

impl<U, C, R> MainActor<U, C, R> {
    /// A message from a connection that has not authenticated.
    pub fn handle_unauthed_message(&mut self, conn_id: usize, message: Message) -> (effects: Vec<LobbyEffect<U, C>>)
        requires
            old(self).wf(),
            conn_ids(old(self).unauthed_connections.inner@).contains(conn_id),
        ensures
            final(self).wf(),
            unauthed_post(*old(self), *final(self), conn_id, message, effects@),
    {
        proof {
            conn_ids(self.unauthed_connections.inner@).index_of_first_ensures(conn_id);
        }
        let mut effects: Vec<LobbyEffect<U, C>> = Vec::new();
        match message {
            Message::QueryRoomList => {
                effects.push(LobbyEffect::SendRoomListUnauthed(conn_id));
            },
            Message::Request { request_id, data: Request::Authenticate { id, name } } => {
                match self.unauthed_connections.remove(conn_id) {
                    Some(conn) => {
                        effects.push(LobbyEffect::Authenticate { conn, request_id, id, name });
                    },
                    None => {},
                }
            },
            Message::Heartbeat => {
                effects.push(LobbyEffect::HeartbeatUnauthed(conn_id));
            },
            _ => {},
        }
        effects
    }

    /// A request from a client in no room.
    pub fn handle_request(&mut self, id: &String, request_id: u32, request: Request) -> (res: Result<Vec<LobbyEffect<U, C>>, LobbyError>)
        requires
            old(self).wf(),
            client_ids(old(self).roomless_clients.inner@).contains(id@),
            request is CreateRoom ==> old(self).next_room < u32::MAX,
        ensures
            final(self).wf(),
            client_request_post(*old(self), *final(self), *id, request_id, request, res),
    {
        match request {
            Request::CreateRoom(options) => {
                let ghost opts = options;
                let (room_id, mut effects) = self.create_room(options);
                let ghost before = effects@;
                effects.push(
                    LobbyEffect::Send(
                        id.clone(),
                        Message::Response { request_id, data: Response::CreateRoomResponse(room_id) },
                    ),
                );
                assert(effects@ =~= seq![
                    LobbyEffect::<U, C>::SpawnRoom { room_id, options: opts },
                    LobbyEffect::<U, C>::NotifyRoomList,
                    LobbyEffect::<U, C>::Send(
                        *id,
                        Message::Response { request_id, data: Response::CreateRoomResponse(room_id) },
                    ),
                ]);
                Ok(effects)
            },
            Request::JoinRoom(room_id) => {
                proof {
                    client_ids(self.roomless_clients.inner@).index_of_first_ensures(id@);
                }
                let mut effects: Vec<LobbyEffect<U, C>> = Vec::new();
                if !self.has_room(room_id) {
                    effects.push(
                        LobbyEffect::Send(
                            id.clone(),
                            Message::Response { request_id, data: Response::Success(false) },
                        ),
                    );
                    assert(effects@ =~= seq![
                        LobbyEffect::<U, C>::Send(
                            *id,
                            Message::Response { request_id, data: Response::Success(false) },
                        ),
                    ]);
                    return Ok(effects);
                }
                match self.roomless_clients.remove(id) {
                    Some((name, client)) => {
                        let ghost (n, c) = (name, client);
                        effects.push(
                            LobbyEffect::MoveToRoom { client, id: id.clone(), name, room_id, request_id },
                        );
                        effects.push(LobbyEffect::NotifyRoomList);
                        assert(effects@ =~= seq![
                            LobbyEffect::<U, C>::MoveToRoom { client: c, id: *id, name: n, room_id, request_id },
                            LobbyEffect::<U, C>::NotifyRoomList,
                        ]);
                    },
                    None => {},
                }
                Ok(effects)
            },
            Request::Handshake(_) => Err(LobbyError::UnexpectedRequest),
            Request::Authenticate { .. } => Err(LobbyError::UnexpectedRequest),
            Request::LeaveRoom => Err(LobbyError::UnexpectedRequest),
            Request::QueuePush(_) => Err(LobbyError::UnexpectedRequest),
        }
    }

    /// A message from a client in no room. Room traffic is refused here.
    pub fn handle_message(&mut self, id: &String, message: Message) -> (res: Result<Vec<LobbyEffect<U, C>>, LobbyError>)
        requires
            old(self).wf(),
            client_ids(old(self).roomless_clients.inner@).contains(id@),
            message matches Message::Request { data: Request::CreateRoom(_), .. } ==> old(self).next_room < u32::MAX,
        ensures
            final(self).wf(),
            client_message_post(*old(self), *final(self), *id, message, res),
    {
        match message {
            Message::Request { request_id, data } => self.handle_request(id, request_id, data),
            Message::QueryRoomList => {
                let mut effects: Vec<LobbyEffect<U, C>> = Vec::new();
                effects.push(LobbyEffect::SendRoomList(id.clone()));
                Ok(effects)
            },
            Message::Heartbeat => {
                let mut effects: Vec<LobbyEffect<U, C>> = Vec::new();
                effects.push(LobbyEffect::Heartbeat(id.clone()));
                Ok(effects)
            },
            _ => Err(LobbyError::UnexpectedMessage),
        }
    }
}

} // verus!
