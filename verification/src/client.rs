//! The player's side of a connection: requests waiting for their response,
//! what each response means, which track this player has to transmit, and
//! the conversation that asks a server for its room list.

use std::collections::HashMap;
use vstd::prelude::*;
use crate::protocol::{AudioData, Message, Notification, PlaybackCommand, PlaybackState, Request, Response, RoomListing};
use crate::audio::AudioStatus;
use crate::state::{spec_current_track, RoomState, ServerStatus, StateUpdate, F32_ZERO_BITS};
use crate::text::{chars_of, string_from_chars};
use crate::key::{path_decryption, Key};

verus! {

broadcast use vstd::std_specs::hash::group_hash_axioms;

/// Why a request did not give what was asked.
#[derive(Debug, Clone, Copy, PartialEq, Eq, Structural)]
pub enum RequestError {
    /// The server answered with another kind of response.
    WrongResponse,
    /// The server answered the handshake with another word.
    InvalidHandshake,
    /// The server refused the authentication.
    AuthenticationFailed,
}

/// The word of a handshake response.
pub fn expect_handshake(r: Response) -> (res: Result<String, RequestError>)
    ensures
        match r {
            Response::Handshake(s) => res == Ok::<String, RequestError>(s),
            _ => res == Err::<String, RequestError>(RequestError::WrongResponse),
        },
{
    match r {
        Response::Handshake(s) => Ok(s),
        _ => Err(RequestError::WrongResponse),
    }
}

/// The flag of a success response.
pub fn expect_success(r: Response) -> (res: Result<bool, RequestError>)
    ensures
        match r {
            Response::Success(b) => res == Ok::<bool, RequestError>(b),
            _ => res == Err::<bool, RequestError>(RequestError::WrongResponse),
        },
{
    match r {
        Response::Success(b) => Ok(b),
        _ => Err(RequestError::WrongResponse),
    }
}

/// The id of a created room.
pub fn expect_room_id(r: Response) -> (res: Result<u32, RequestError>)
    ensures
        match r {
            Response::CreateRoomResponse(id) => res == Ok::<u32, RequestError>(id),
            _ => res == Err::<u32, RequestError>(RequestError::WrongResponse),
        },
{
    match r {
        Response::CreateRoomResponse(id) => Ok(id),
        _ => Err(RequestError::WrongResponse),
    }
}

/// The word a server answers a handshake with.
pub open spec fn server_word() -> Seq<char> {
    seq!['n', 'y', 'a', 'a']
}

/// Whether the server answered the handshake with its word.
pub fn check_handshake_answer(answer: &String) -> (res: Result<(), RequestError>)
    ensures
        res is Ok <==> answer@ == server_word(),
        res is Err ==> res == Err::<(), RequestError>(RequestError::InvalidHandshake),
{
    let cs = chars_of(answer.as_str());
    if cs.len() == 4 && cs[0] == 'n' && cs[1] == 'y' && cs[2] == 'a' && cs[3] == 'a' {
        assert(cs@ =~= server_word());
        Ok(())
    } else {
        assert(cs@ != server_word());
        Err(RequestError::InvalidHandshake)
    }
}

/// The answer to the authentication request: success, refused, or not an
/// answer to it.
pub fn authentication_result(r: Response) -> (res: Result<(), RequestError>)
    ensures
        match r {
            Response::Success(true) => res is Ok,
            Response::Success(false) => res == Err::<(), RequestError>(RequestError::AuthenticationFailed),
            _ => res == Err::<(), RequestError>(RequestError::WrongResponse),
        },
{
    match expect_success(r) {
        Ok(true) => Ok(()),
        Ok(false) => Err(RequestError::AuthenticationFailed),
        Err(e) => Err(e),
    }
}

/// The greeting that opens a handshake.
pub fn greeting() -> (s: String)
    ensures
        s@ == seq!['m', 'e', 'o', 'w'],
{
    let cs = ['m', 'e', 'o', 'w'];
    let s = string_from_chars(&cs);
    assert(cs@ =~= seq!['m', 'e', 'o', 'w']);
    s
}

/// Requests sent and not yet answered, each with what waits for its answer.
#[derive(Debug)]
pub struct PendingRequests<S> {
    pub next_id: u32,
    pub pending: HashMap<u32, S>,
}

impl<S> PendingRequests<S> {
    /// Every waiting request has an id below the next one.
    pub open spec fn wf(&self) -> bool {
        forall|k: u32| #[trigger] self.pending@.contains_key(k) ==> k < self.next_id
    }

    pub fn new() -> (r: Self)
        ensures
            r.wf(),
            r.next_id == 0,
            r.pending@ == Map::<u32, S>::empty(),
    {
        PendingRequests { next_id: 0, pending: HashMap::new() }
    }

    /// Records a request and returns the message that carries it, under a
    /// request id that no waiting request has.
    pub fn start(&mut self, data: Request, waiter: S) -> (m: Message)
        requires
            old(self).wf(),
            old(self).next_id < u32::MAX,
        ensures
            final(self).wf(),
            final(self).next_id == old(self).next_id + 1,
            !old(self).pending@.contains_key(old(self).next_id),
            final(self).pending@ == old(self).pending@.insert(old(self).next_id, waiter),
            m == (Message::Request { request_id: old(self).next_id, data }),
    {
        let id = self.next_id;
        self.next_id = self.next_id + 1;
        self.pending.insert(id, waiter);
        Message::Request { request_id: id, data }
    }

    /// Takes out what waits for the answer to `request_id`.
    pub fn finish(&mut self, request_id: u32) -> (res: Option<S>)
        requires
            old(self).wf(),
        ensures
            final(self).wf(),
            final(self).next_id == old(self).next_id,
            final(self).pending@ == old(self).pending@.remove(request_id),
            match res {
                Some(w) => old(self).pending@.contains_key(request_id) && w == old(self).pending@[request_id],
                None => !old(self).pending@.contains_key(request_id),
            },
    {
        self.pending.remove(&request_id)
    }
}

/// What to do with the task that transmits this player's track.
#[derive(Debug)]
pub enum TransmitDecision {
    /// Keep it as it is (also when there is none and none is needed).
    Keep,
    /// Stop and drop it.
    Stop,
    /// Start transmitting this track (replacing any other transmission).
    Start { track_id: u32, path: Vec<u8> },
}

/// The track this player has to transmit: the current track, when the room
/// is not stopped and the track is this player's.
pub open spec fn should_transmit<T>(room: RoomState<T>, my_id: Seq<char>) -> Option<(u32, Seq<u8>)> {
    if room.playback_state == PlaybackState::Stopped {
        None
    } else {
        match spec_current_track(room) {
            Some(t) => if t.owner@ == my_id {
                Some((t.id, t.path@))
            } else {
                None
            },
            None => None,
        }
    }
}

/// Decides what happens to the transmission after a queue update: a track
/// to transmit starts unless it is already being transmitted; with nothing
/// to transmit a running transmission stops.
pub open spec fn spec_transmit_decision<T>(room: RoomState<T>, my_id: Seq<char>, d: TransmitDecision) -> bool {
    match should_transmit(room, my_id) {
        Some((id, path)) => match room.transmit_thread {
            Some(t) => if t.track_id != id {
                d matches TransmitDecision::Start { track_id, path: p } && track_id == id && p@ == path
            } else {
                d is Keep
            },
            None => d matches TransmitDecision::Start { track_id, path: p } && track_id == id && p@
                == path,
        },
        None => if room.transmit_thread is Some {
            d is Stop
        } else {
            d is Keep
        },
    }
}

pub fn transmit_decision<T>(room: &RoomState<T>, my_id: &String) -> (d: TransmitDecision)
    ensures
        spec_transmit_decision(*room, my_id@, d),
{
    let target: Option<(u32, Vec<u8>)> = if room.playback_state == PlaybackState::Stopped {
        None
    } else {
        match room.current_track() {
            Some(t) => if t.owner == *my_id {
                Some((t.id, crate::protocol::copy_bytes(&t.path)))
            } else {
                None
            },
            None => None,
        }
    };
    match target {
        Some((id, path)) => match &room.transmit_thread {
            Some(t) => if t.track_id != id {
                TransmitDecision::Start { track_id: id, path }
            } else {
                TransmitDecision::Keep
            },
            None => TransmitDecision::Start { track_id: id, path },
        },
        None => if room.transmit_thread.is_some() {
            TransmitDecision::Stop
        } else {
            TransmitDecision::Keep
        },
    }
}

/// The file to transmit for a decision to start a transmission: the track's
/// id and what decrypting its path with this player's key gives (see
/// `path_decryption`); `None` for a decision that starts nothing.
pub fn transmit_path(key: &Key, d: TransmitDecision) -> (res: Option<(u32, Option<Result<String, aes_gcm_siv::Error>>)>)
    ensures
        match d {
            TransmitDecision::Start { track_id, path } => res matches Some((id, r)) && id == track_id
                && path_decryption(key@, path@, r),
            _ => res is None,
        },
{
    match d {
        TransmitDecision::Start { track_id, path } => Some((track_id, key.try_decrypt_path(path))),
        _ => None,
    }
}

/// Something the connection's task has to do after a message from the server.
#[derive(Debug)]
pub enum ClientEffect<S> {
    /// Apply this update to the state.
    Update(StateUpdate),
    /// Tell the transmitting task to stop.
    StopTransmit,
    /// Tell the transmitting task to seek (`f32` seconds as bits).
    SeekTransmit(u32),
    /// Tell the transmitting task whether to pause.
    PauseTransmit(bool),
    /// Act on the transmission of this player's track.
    Transmit(TransmitDecision),
    /// Empty the playback buffer.
    ClearAudio,
    /// Hand audio data to the player.
    PlayAudio(AudioData),
    /// Tell the player whether to pause.
    PauseAudio(bool),
    /// Deliver a response to what waits for it.
    Deliver(S, Response),
    /// A response to a request that nothing waits for.
    UnknownResponse(u32),
    /// A message that a server does not send.
    Unexpected(Message),
}

/// The updates a notification asks for.
pub open spec fn notification_updates<S>(n: Notification, e: Seq<ClientEffect<S>>) -> bool {
    match n {
        Notification::ConnectedUsers(list) => e == seq![
            ClientEffect::<S>::Update(StateUpdate::SetRoomConnectedUsers(list)),
        ],
        Notification::Room(Some(room)) => e == seq![ClientEffect::<S>::Update(StateUpdate::NewRoom(room))],
        Notification::Room(None) => e == seq![ClientEffect::<S>::Update(StateUpdate::ClearRoom)],
        Notification::RoomList(rooms) => e == seq![
            ClientEffect::<S>::Update(
                StateUpdate::SetConnectedServerStatus(ServerStatus::Success { rooms }),
            ),
        ],
        Notification::Queue { .. } => false,
    }
}

/// What a queue notification asks for: the updates of the parts it carries,
/// then the decision on transmission (taken on the room as it was), the
/// pause flag for the transmitting task if one runs afterwards, and the
/// pause flag for the player.
pub open spec fn queue_notification_effects<S, T>(
    room: RoomState<T>,
    my_id: Seq<char>,
    n: Notification,
    e: Seq<ClientEffect<S>>,
) -> bool {
    match n {
        Notification::Queue { maybe_queue, maybe_current_track, maybe_playback_state } => {
            let u1: Seq<ClientEffect<S>> = match maybe_queue {
                Some(q) => seq![ClientEffect::<S>::Update(StateUpdate::SetRoomQueue(q))],
                None => seq![],
            };
            let u2: Seq<ClientEffect<S>> = match maybe_current_track {
                Some(t) => seq![ClientEffect::<S>::Update(StateUpdate::SetRoomCurrentTrack(t))],
                None => seq![],
            };
            let u3: Seq<ClientEffect<S>> = match maybe_playback_state {
                Some(st) => seq![ClientEffect::<S>::Update(StateUpdate::SetRoomPlaybackState(st))],
                None => seq![],
            };
            let k: int = (u1.len() + u2.len() + u3.len()) as int;
            let paused = room.playback_state == PlaybackState::Paused;
            &&& e.subrange(0, k) == u1 + u2 + u3
            &&& e[k] matches ClientEffect::<S>::Transmit(d) && spec_transmit_decision(room, my_id, d)
            &&& if (e[k] matches ClientEffect::<S>::Transmit(TransmitDecision::Stop)) || (room.transmit_thread is None && e[k] matches ClientEffect::<S>::Transmit(TransmitDecision::Keep)) {
                e.len() == k + 2 && e[k + 1] == ClientEffect::<S>::PauseAudio(paused)
            } else {
                e.len() == k + 3 && e[k + 1] == ClientEffect::<S>::PauseTransmit(paused) && e[k + 2]
                    == ClientEffect::<S>::PauseAudio(paused)
            }
        },
        _ => false,
    }
}

/// What a notification asks for, given the room the player is in.
pub fn handle_notification<S, T>(room: Option<&RoomState<T>>, my_id: &String, n: Notification) -> (e: Vec<ClientEffect<S>>)
    requires
        n is Queue ==> room is Some,
    ensures
        match n {
            Notification::Queue { .. } => queue_notification_effects(*room->0, my_id@, n, e@),
            _ => notification_updates(n, e@),
        },
{
    let mut e: Vec<ClientEffect<S>> = Vec::new();
    match n {
        Notification::Queue { maybe_queue, maybe_current_track, maybe_playback_state } => {
            let ghost (gq, gt, gs) = (maybe_queue, maybe_current_track, maybe_playback_state);
            let r = match room {
                Some(r) => r,
                None => {
                    return e;
                },
            };
            match maybe_queue {
                Some(q) => e.push(ClientEffect::<S>::Update(StateUpdate::SetRoomQueue(q))),
                None => {},
            }
            let ghost l1 = e@;
            match maybe_current_track {
                Some(t) => e.push(ClientEffect::<S>::Update(StateUpdate::SetRoomCurrentTrack(t))),
                None => {},
            }
            let ghost l2 = e@;
            match maybe_playback_state {
                Some(st) => e.push(ClientEffect::<S>::Update(StateUpdate::SetRoomPlaybackState(st))),
                None => {},
            }
            let ghost l3 = e@;
            let d = transmit_decision(r, my_id);
            let runs_after = match &d {
                TransmitDecision::Stop => false,
                TransmitDecision::Keep => r.transmit_thread.is_some(),
                TransmitDecision::Start { .. } => true,
            };
            e.push(ClientEffect::Transmit(d));
            let paused = r.playback_state == PlaybackState::Paused;
            if runs_after {
                e.push(ClientEffect::PauseTransmit(paused));
            }
            e.push(ClientEffect::PauseAudio(paused));
            proof {
                let u1: Seq<ClientEffect<S>> = match gq {
                    Some(q) => seq![ClientEffect::<S>::Update(StateUpdate::SetRoomQueue(q))],
                    None => seq![],
                };
                let u2: Seq<ClientEffect<S>> = match gt {
                    Some(t) => seq![ClientEffect::<S>::Update(StateUpdate::SetRoomCurrentTrack(t))],
                    None => seq![],
                };
                let u3: Seq<ClientEffect<S>> = match gs {
                    Some(st) => seq![ClientEffect::<S>::Update(StateUpdate::SetRoomPlaybackState(st))],
                    None => seq![],
                };
                assert(l1 =~= u1);
                assert(l2 =~= u1 + u2);
                assert(l3 =~= u1 + u2 + u3);
                assert(e@.subrange(0, l3.len() as int) =~= l3);
            }
        },
        Notification::ConnectedUsers(list) => {
            e.push(ClientEffect::<S>::Update(StateUpdate::SetRoomConnectedUsers(list)));
        },
        Notification::Room(maybe_room) => match maybe_room {
            Some(room) => e.push(ClientEffect::<S>::Update(StateUpdate::NewRoom(room))),
            None => e.push(ClientEffect::<S>::Update(StateUpdate::ClearRoom)),
        },
        Notification::RoomList(rooms) => {
            e.push(
                ClientEffect::<S>::Update(
                    StateUpdate::SetConnectedServerStatus(ServerStatus::Success { rooms }),
                ),
            );
        },
    }
    e
}

/// What a message from the server asks for.
pub open spec fn client_message_post<S, T>(
    old: PendingRequests<S>,
    new: PendingRequests<S>,
    room: Option<RoomState<T>>,
    my_id: Seq<char>,
    message: Message,
    e: Seq<ClientEffect<S>>,
) -> bool {
    match message {
        Message::Response { request_id, data } => {
            &&& new.next_id == old.next_id
            &&& new.pending@ == old.pending@.remove(request_id)
            &&& if old.pending@.contains_key(request_id) {
                e == seq![ClientEffect::<S>::Deliver(old.pending@[request_id], data)]
            } else {
                e == seq![ClientEffect::<S>::UnknownResponse(request_id)]
            }
        },
        _ => new == old && match message {
            Message::Notification(n) => match n {
                Notification::Queue { .. } => queue_notification_effects(room->0, my_id, n, e),
                _ => notification_updates(n, e),
            },
            Message::PlaybackCommand(c) => {
                let transmitting = room->0.transmit_thread is Some;
                match c {
                    PlaybackCommand::Stop | PlaybackCommand::Next | PlaybackCommand::Prev => e == if transmitting {
                        seq![ClientEffect::<S>::StopTransmit, ClientEffect::<S>::ClearAudio]
                    } else {
                        seq![ClientEffect::<S>::ClearAudio]
                    },
                    PlaybackCommand::SeekTo(b) => e == if transmitting {
                        seq![ClientEffect::<S>::SeekTransmit(b), ClientEffect::<S>::ClearAudio]
                    } else {
                        seq![ClientEffect::<S>::ClearAudio]
                    },
                    PlaybackCommand::Play | PlaybackCommand::Pause => e.len() == 0,
                }
            },
            Message::AudioData(d) => e == seq![ClientEffect::<S>::PlayAudio(d)],
            _ => e == seq![ClientEffect::<S>::Unexpected(message)],
        },
    }
}

/// What a message from the server asks for, given the requests that wait
/// and the room the player is in.
pub fn handle_message<S, T>(
    pending: &mut PendingRequests<S>,
    room: Option<&RoomState<T>>,
    my_id: &String,
    message: Message,
) -> (e: Vec<ClientEffect<S>>)
    requires
        old(pending).wf(),
        message matches Message::Notification(Notification::Queue { .. }) ==> room is Some,
        message matches Message::PlaybackCommand(c) && !(c is Play || c is Pause) ==> room is Some,
    ensures
        final(pending).wf(),
        client_message_post(*old(pending), *final(pending), match room {
            Some(r) => Some(*r),
            None => None,
        }, my_id@, message, e@),
{
    let mut e: Vec<ClientEffect<S>> = Vec::new();
    match message {
        Message::Response { request_id, data } => {
            let ghost dd = data;
            match pending.finish(request_id) {
                Some(w) => {
                    e.push(ClientEffect::Deliver(w, data));
                    assert(e@ =~= seq![ClientEffect::<S>::Deliver(w, dd)]);
                },
                None => {
                    e.push(ClientEffect::UnknownResponse(request_id));
                    assert(e@ =~= seq![ClientEffect::<S>::UnknownResponse(request_id)]);
                },
            }
            e
        },
        Message::Notification(n) => handle_notification(room, my_id, n),
        Message::PlaybackCommand(c) => {
            match c {
                PlaybackCommand::Play | PlaybackCommand::Pause => {},
                PlaybackCommand::Stop | PlaybackCommand::Next | PlaybackCommand::Prev => {
                    let r = room.unwrap();
                    if r.transmit_thread.is_some() {
                        e.push(ClientEffect::StopTransmit);
                    }
                    e.push(ClientEffect::ClearAudio);
                    assert(e@ =~= if r.transmit_thread is Some {
                        seq![ClientEffect::<S>::StopTransmit, ClientEffect::<S>::ClearAudio]
                    } else {
                        seq![ClientEffect::<S>::ClearAudio]
                    });
                },
                PlaybackCommand::SeekTo(b) => {
                    let r = room.unwrap();
                    if r.transmit_thread.is_some() {
                        e.push(ClientEffect::SeekTransmit(b));
                    }
                    e.push(ClientEffect::ClearAudio);
                    assert(e@ =~= if r.transmit_thread is Some {
                        seq![ClientEffect::<S>::SeekTransmit(b), ClientEffect::<S>::ClearAudio]
                    } else {
                        seq![ClientEffect::<S>::ClearAudio]
                    });
                },
            }
            e
        },
        Message::AudioData(d) => {
            let ghost gd = d;
            e.push(ClientEffect::PlayAudio(d));
            assert(e@ =~= seq![ClientEffect::<S>::PlayAudio(gd)]);
            e
        },
        _ => {
            let ghost gm = message;
            e.push(ClientEffect::Unexpected(message));
            assert(e@ =~= seq![ClientEffect::<S>::Unexpected(gm)]);
            e
        },
    }
}

/// The request id of the handshake that asks a server for its room list.
pub const QUERY_REQUEST_ID: u32 = 88888888;

/// The handshake that opens a room-list query.
pub fn query_handshake() -> (m: Message)
    ensures
        m matches Message::Request { request_id, data: Request::Handshake(h) } && request_id
            == QUERY_REQUEST_ID && h@ == seq!['m', 'e', 'o', 'w'],
{
    Message::Request { request_id: QUERY_REQUEST_ID, data: Request::Handshake(greeting()) }
}

/// The next step of a room-list query after a message from the server.
#[derive(Debug)]
pub enum QueryStep {
    /// The handshake was answered: ask for the room list.
    SendQuery,
    /// The room list arrived.
    Done(Vec<RoomListing>),
    /// The server answered the handshake wrongly.
    Fail,
    /// Keep waiting.
    Wait,
}

pub fn query_step(m: Message) -> (step: QueryStep)
    ensures
        match m {
            Message::Response { request_id, data: Response::Handshake(h) } => if request_id
                != QUERY_REQUEST_ID || h@ != server_word() {
                step is Fail
            } else {
                step is SendQuery
            },
            Message::Notification(Notification::RoomList(l)) => step == QueryStep::Done(l),
            _ => step is Wait,
        },
{
    match m {
        Message::Response { request_id, data: Response::Handshake(h) } => {
            let ok = check_handshake_answer(&h);
            if request_id != QUERY_REQUEST_ID || ok.is_err() {
                QueryStep::Fail
            } else {
                QueryStep::SendQuery
            }
        },
        Message::Notification(Notification::RoomList(l)) => QueryStep::Done(l),
        _ => QueryStep::Wait,
    }
}

/// What a room-list query found out about a server.
pub fn query_status(result: Option<Vec<RoomListing>>) -> (status: ServerStatus)
    ensures
        match result {
            Some(rooms) => status == ServerStatus::Success { rooms },
            None => status is Error,
        },
{
    match result {
        Some(rooms) => ServerStatus::Success { rooms },
        None => ServerStatus::Error,
    }
}

/// The state update that a report of the audio task asks for. The elapsed
/// time is left to the caller (it is converted to floating-point seconds);
/// the end of a track resets it to zero.
pub fn audio_status_update(status: AudioStatus) -> (u: Option<StateUpdate>)
    ensures
        match status {
            AudioStatus::Elapsed(_) => u is None,
            AudioStatus::Buffering(b) => u == Some(StateUpdate::SetRoomBuffering(b)),
            AudioStatus::Finished => u == Some(StateUpdate::SetRoomElapsed(F32_ZERO_BITS)),
            AudioStatus::Visualizer(bars) => u == Some(StateUpdate::SetVisualizer(bars)),
            AudioStatus::Buffer(level) => u == Some(StateUpdate::SetBufferLevel(level)),
        },
{
    match status {
        AudioStatus::Elapsed(_) => None,
        AudioStatus::Buffering(b) => Some(StateUpdate::SetRoomBuffering(b)),
        AudioStatus::Finished => Some(StateUpdate::SetRoomElapsed(F32_ZERO_BITS)),
        AudioStatus::Visualizer(bars) => Some(StateUpdate::SetVisualizer(bars)),
        AudioStatus::Buffer(level) => Some(StateUpdate::SetBufferLevel(level)),
    }
}

} // verus!
