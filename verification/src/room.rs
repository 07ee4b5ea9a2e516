//! A room on the server: its queue of tracks, which track is current, whether
//! it is playing, and who is in it. The room's task performs the effects that
//! these decisions return (sending messages, talking to the lobby).

use std::collections::VecDeque;
use vstd::prelude::*;
use crate::protocol::{AudioData, copy_tracks, tracks_view, Message, Notification, PlaybackCommand, PlaybackState, RoomListing, RoomOptions, Track, TrackRequest, Request, Response};

verus! {

/// Something the room's task has to do after a decision.
#[derive(Debug)]
pub enum RoomEffect {
    /// Send to every client in the room.
    Broadcast(Message),
    /// Send to every client in the room but the one with this id.
    BroadcastOthers(String, Message),
    /// Send to the client with this id.
    Send(String, Message),
    /// The client with this id is alive.
    Heartbeat(String),
    /// Ask the lobby to create a room and answer the client's request with
    /// the lobby's response.
    CreateRoom { client_id: String, request_id: u32, options: RoomOptions },
    /// Hand the client (already taken out of this room) to the lobby, which
    /// tries to move it into room `room_id`; report back with `finish_join`.
    TransferToRoom { client_id: String, name: String, request_id: u32, room_id: u32 },
    /// Hand the client (already taken out of this room) back to the lobby.
    ReturnToLobby { client_id: String, name: String },
}

/// Requests that a room does not answer.
#[derive(Debug, Clone, Copy, PartialEq, Eq, Structural)]
pub enum RoomError {
    UnexpectedRequest,
}

/// The decision state of a room.
#[derive(Debug)]
pub struct RoomActor {
    pub id: u32,
    pub name: String,
    /// Id that the next queued track gets.
    pub next_track: u32,
    pub queue: VecDeque<Track>,
    pub current_track: u32,
    pub playback_state: PlaybackState,
    /// `(id, name)` of each client in the room.
    pub users: Vec<(String, String)>,
}

/// Position of the first track with this id.
pub open spec fn position_of(q: Seq<Track>, id: u32) -> Option<int>
    decreases q.len(),
{
    if q.len() == 0 {
        None
    } else if q[0].id == id {
        Some(0)
    } else {
        match position_of(q.drop_first(), id) {
            Some(i) => Some(i + 1),
            None => None,
        }
    }
}

pub proof fn lemma_position_of(q: Seq<Track>, id: u32)
    ensures
        match position_of(q, id) {
            Some(i) => 0 <= i < q.len() && q[i].id == id && forall|j: int|
                0 <= j < i ==> (#[trigger] q[j]).id != id,
            None => forall|j: int| 0 <= j < q.len() ==> (#[trigger] q[j]).id != id,
        },
    decreases q.len(),
{
    if q.len() > 0 {
        lemma_position_of(q.drop_first(), id);
        if q[0].id != id {
            assert forall|j: int| 1 <= j < q.len() implies q[j] == q.drop_first()[j - 1] by {}
        }
    }
}

/// Ids of the users in a roster.
pub open spec fn user_ids(users: Seq<(String, String)>) -> Seq<Seq<char>> {
    users.map_values(|u: (String, String)| u.0@)
}

/// Every track id is below the next one to be handed out and occurs once;
/// every user id occurs once.
pub open spec fn room_wf(queue: Seq<Track>, next_track: u32, users: Seq<(String, String)>) -> bool {
    &&& forall|i: int| 0 <= i < queue.len() ==> (#[trigger] queue[i]).id < next_track
    &&& forall|i: int, j: int|
        0 <= i < queue.len() && 0 <= j < queue.len() && i != j ==> (#[trigger] queue[i]).id
            != (#[trigger] queue[j]).id
    &&& forall|i: int, j: int|
        0 <= i < users.len() && 0 <= j < users.len() && i != j ==> (#[trigger] users[i]).0@
            != (#[trigger] users[j]).0@
}

/// Pause toggles between playing and paused; a stopped room stays stopped.
pub open spec fn after_pause(st: PlaybackState) -> PlaybackState {
    match st {
        PlaybackState::Playing => PlaybackState::Paused,
        PlaybackState::Paused => PlaybackState::Playing,
        PlaybackState::Stopped => PlaybackState::Stopped,
    }
}

/// Moving to the next (or previous) track: the neighbour of the current
/// track becomes current; with no neighbour the room stops. If the current
/// track is not in the queue, nothing changes.
pub open spec fn after_skip(q: Seq<Track>, cur: u32, st: PlaybackState, forward: bool) -> (
    u32,
    PlaybackState,
) {
    match position_of(q, cur) {
        Some(i) => {
            let j = if forward {
                i + 1
            } else {
                i - 1
            };
            if 0 <= j < q.len() {
                (q[j].id, st)
            } else {
                (cur, PlaybackState::Stopped)
            }
        },
        None => (cur, st),
    }
}

/// Current track and playback state after a playback command.
pub open spec fn after_command(q: Seq<Track>, cur: u32, st: PlaybackState, cmd: PlaybackCommand) -> (
    u32,
    PlaybackState,
) {
    match cmd {
        PlaybackCommand::Play => (cur, PlaybackState::Playing),
        PlaybackCommand::Pause => (cur, after_pause(st)),
        PlaybackCommand::Stop => (cur, PlaybackState::Stopped),
        PlaybackCommand::Next => after_skip(q, cur, st, true),
        PlaybackCommand::Prev => after_skip(q, cur, st, false),
        PlaybackCommand::SeekTo(_) => (cur, st),
    }
}

/// A queue notification as the room sends it: the queue if `with_queue`, the
/// current track if `with_pos`, the playback state if `with_state`.
pub open spec fn is_queue_update(
    m: Message,
    q: Seq<Track>,
    cur: u32,
    st: PlaybackState,
    with_queue: bool,
    with_pos: bool,
    with_state: bool,
) -> bool {
    match m {
        Message::Notification(
            Notification::Queue { maybe_queue, maybe_current_track, maybe_playback_state },
        ) => {
            &&& (if with_queue {
                maybe_queue matches Some(mq) && tracks_view(mq@) == tracks_view(q)
            } else {
                maybe_queue is None
            })
            &&& maybe_current_track == (if with_pos {
                Some(cur)
            } else {
                None
            })
            &&& maybe_playback_state == (if with_state {
                Some(st)
            } else {
                None
            })
        },
        _ => false,
    }
}

/// The queue updates that a playback command sends, as (current track,
/// state, with position) snapshots, all with the state.
pub open spec fn command_updates(q: Seq<Track>, cur: u32, st: PlaybackState, cmd: PlaybackCommand) -> Seq<
    (u32, PlaybackState, bool),
> {
    match cmd {
        PlaybackCommand::Play => if st != PlaybackState::Playing {
            seq![(cur, PlaybackState::Playing, false)]
        } else {
            seq![(cur, PlaybackState::Stopped, false), (cur, PlaybackState::Playing, false)]
        },
        PlaybackCommand::Pause => if st == PlaybackState::Stopped {
            seq![]
        } else {
            seq![(cur, after_pause(st), false)]
        },
        PlaybackCommand::Stop => if st != PlaybackState::Stopped {
            seq![(cur, PlaybackState::Stopped, false)]
        } else {
            seq![]
        },
        PlaybackCommand::Next | PlaybackCommand::Prev => if position_of(q, cur) is Some {
            let (c, s) = after_command(q, cur, st, cmd);
            seq![(c, s, true)]
        } else {
            seq![]
        },
        PlaybackCommand::SeekTo(_) => seq![],
    }
}

impl RoomActor {
    pub open spec fn wf(&self) -> bool {
        room_wf(self.queue@, self.next_track, self.users@)
    }

    /// A new, empty and stopped room.
    pub fn new(id: u32, options: RoomOptions) -> (room: RoomActor)
        ensures
            room.wf(),
            room.id == id,
            room.name == options.name,
            room.next_track == 0,
            room.queue@.len() == 0,
            room.current_track == 0,
            room.playback_state == PlaybackState::Stopped,
            room.users@.len() == 0,
    {
        RoomActor {
            id,
            name: options.name,
            next_track: 0,
            queue: VecDeque::new(),
            current_track: 0,
            playback_state: PlaybackState::Stopped,
            users: Vec::new(),
        }
    }

    /// Position of the current track in the queue.
    fn current_position(&self) -> (res: Option<usize>)
        ensures
            match res {
                Some(i) => position_of(self.queue@, self.current_track) == Some(i as int),
                None => position_of(self.queue@, self.current_track) is None,
            },
    {
        proof {
            lemma_position_of(self.queue@, self.current_track);
        }
        let mut i: usize = 0;
        while i < self.queue.len()
            invariant
                i <= self.queue@.len(),
                forall|j: int| 0 <= j < i ==> (#[trigger] self.queue@[j]).id != self.current_track,
                match position_of(self.queue@, self.current_track) {
                    Some(k) => 0 <= k < self.queue@.len() && self.queue@[k].id == self.current_track
                        && forall|j: int|
                        0 <= j < k ==> (#[trigger] self.queue@[j]).id != self.current_track,
                    None => forall|j: int|
                        0 <= j < self.queue@.len() ==> (#[trigger] self.queue@[j]).id
                            != self.current_track,
                },
            decreases self.queue.len() - i,
        {
            if self.queue[i].id == self.current_track {
                proof {
                    if let Some(k) = position_of(self.queue@, self.current_track) {
                        assert(!(k < i));
                        assert(!(i < k));
                    }
                }
                return Some(i);
            }
            i = i + 1;
        }
        None
    }

    /// The queue notification with the parts selected by the flags.
    pub fn queue_notification(&self, queue: bool, pos: bool, state: bool) -> (m: Message)
        ensures
            is_queue_update(
                m,
                self.queue@,
                self.current_track,
                self.playback_state,
                queue,
                pos,
                state,
            ),
    {
        Message::Notification(
            Notification::Queue {
                maybe_queue: if queue {
                    Some(copy_tracks(&self.queue))
                } else {
                    None
                },
                maybe_current_track: if pos {
                    Some(self.current_track)
                } else {
                    None
                },
                maybe_playback_state: if state {
                    Some(self.playback_state)
                } else {
                    None
                },
            },
        )
    }

    /// Moves to the neighbouring track, or stops if there is none.
    fn skip(&mut self, forward: bool) -> (found: bool)
        requires
            old(self).wf(),
        ensures
            final(self).wf(),
            final(self).queue@ == old(self).queue@,
            final(self).next_track == old(self).next_track,
            final(self).users@ == old(self).users@,
            final(self).id == old(self).id,
            final(self).name == old(self).name,
            found == position_of(old(self).queue@, old(self).current_track) is Some,
            (final(self).current_track, final(self).playback_state) == after_skip(
                old(self).queue@,
                old(self).current_track,
                old(self).playback_state,
                forward,
            ),
    {
        proof {
            lemma_position_of(self.queue@, self.current_track);
        }
        match self.current_position() {
            Some(idx) => {
                let target: Option<usize> = if forward {
                    if idx < self.queue.len() - 1 {
                        Some(idx + 1)
                    } else {
                        None
                    }
                } else {
                    if idx >= 1 {
                        Some(idx - 1)
                    } else {
                        None
                    }
                };
                match target {
                    Some(j) => {
                        self.current_track = self.queue[j].id;
                    },
                    None => {
                        self.playback_state = PlaybackState::Stopped;
                    },
                }
                true
            },
            None => false,
        }
    }

    /// Reacts to a playback command from a client: the command is passed on
    /// to everyone (so that players clear their buffers), the room's state
    /// changes as `after_command` says, and each change is announced.
    pub fn handle_playback_command(&mut self, command: PlaybackCommand) -> (effects: Vec<RoomEffect>)
        requires
            old(self).wf(),
        ensures
            final(self).wf(),
            playback_post(*old(self), *final(self), command, effects@),
    {
        let mut effects: Vec<RoomEffect> = Vec::new();
        effects.push(RoomEffect::Broadcast(Message::PlaybackCommand(command)));
        match command {
            PlaybackCommand::SeekTo(_) => {},
            PlaybackCommand::Play => {
                if self.playback_state != PlaybackState::Playing {
                    self.playback_state = PlaybackState::Playing;
                    effects.push(RoomEffect::Broadcast(self.queue_notification(false, false, true)));
                } else {
                    self.playback_state = PlaybackState::Stopped;
                    effects.push(RoomEffect::Broadcast(self.queue_notification(false, false, true)));
                    self.playback_state = PlaybackState::Playing;
                    effects.push(RoomEffect::Broadcast(self.queue_notification(false, false, true)));
                }
            },
            PlaybackCommand::Pause => {
                if self.playback_state == PlaybackState::Playing {
                    self.playback_state = PlaybackState::Paused;
                    effects.push(RoomEffect::Broadcast(self.queue_notification(false, false, true)));
                } else if self.playback_state == PlaybackState::Paused {
                    self.playback_state = PlaybackState::Playing;
                    effects.push(RoomEffect::Broadcast(self.queue_notification(false, false, true)));
                }
            },
            PlaybackCommand::Stop => {
                if self.playback_state != PlaybackState::Stopped {
                    self.playback_state = PlaybackState::Stopped;
                    effects.push(RoomEffect::Broadcast(self.queue_notification(false, false, true)));
                }
            },
            PlaybackCommand::Prev | PlaybackCommand::Next => {
                let forward = match command {
                    PlaybackCommand::Next => true,
                    _ => false,
                };
                if self.skip(forward) {
                    effects.push(RoomEffect::Broadcast(self.queue_notification(false, true, true)));
                }
            },
        }
        effects
    }

    /// Where the user with this id stands in the roster.
    fn user_index(&self, id: &String) -> (res: Option<usize>)
        ensures
            match res {
                Some(i) => user_ids(self.users@).index_of_first(id@) == Some(i as int),
                None => user_ids(self.users@).index_of_first(id@) is None,
            },
    {
        let ghost ids = user_ids(self.users@);
        proof {
            ids.index_of_first_ensures(id@);
        }
        let mut i: usize = 0;
        while i < self.users.len()
            invariant
                i <= self.users@.len(),
                ids == user_ids(self.users@),
                forall|j: int| 0 <= j < i ==> ids[j] != id@,
                match ids.index_of_first(id@) {
                    Some(index) => {
                        &&& 0 <= index < ids.len()
                        &&& ids[index] == id@
                        &&& forall|j: int| 0 <= j < index ==> ids[j] != id@
                    },
                    None => !ids.contains(id@),
                },
            decreases self.users.len() - i,
        {
            if self.users[i].0 == *id {
                assert(ids[i as int] == id@);
                assert(ids.contains(id@));
                let ghost k = ids.index_of_first(id@)->0;
                assert(!(k < i));
                assert(!(i < k));
                return Some(i);
            }
            i = i + 1;
        }
        proof {
            if ids.contains(id@) {
                let j = choose|j: int| 0 <= j < ids.len() && ids[j] == id@;
                assert(ids[j] != id@);
            }
        }
        None
    }

    /// Adds a user, or renames it if its id is already in the room.
    pub fn insert_user(&mut self, id: String, name: String)
        requires
            old(self).wf(),
        ensures
            final(self).wf(),
            final(self).users@ == roster_insert(old(self).users@, id, name),
            final(self).queue@ == old(self).queue@,
            final(self).next_track == old(self).next_track,
            final(self).current_track == old(self).current_track,
            final(self).playback_state == old(self).playback_state,
            final(self).id == old(self).id,
            final(self).name == old(self).name,
    {
        let ghost old_users = self.users@;
        proof {
            user_ids(old_users).index_of_first_ensures(id@);
        }
        match self.user_index(&id) {
            Some(i) => {
                self.users.set(i, (id, name));
                assert forall|a: int, b: int|
                    0 <= a < self.users@.len() && 0 <= b < self.users@.len() && a != b implies (#[trigger] self.users@[a]).0@
                    != (#[trigger] self.users@[b]).0@ by {
                    if a != i && b != i {
                        assert(old_users[a] == self.users@[a]);
                        assert(old_users[b] == self.users@[b]);
                    } else if a == i {
                        assert(user_ids(old_users)[i as int] == id@);
                        assert(old_users[b] == self.users@[b]);
                    } else {
                        assert(user_ids(old_users)[i as int] == id@);
                        assert(old_users[a] == self.users@[a]);
                    }
                }
            },
            None => {
                self.users.push((id, name));
                assert forall|a: int, b: int|
                    0 <= a < self.users@.len() && 0 <= b < self.users@.len() && a != b implies (#[trigger] self.users@[a]).0@
                    != (#[trigger] self.users@[b]).0@ by {
                    let n = old_users.len() as int;
                    if a < n && b < n {
                        assert(old_users[a] == self.users@[a]);
                        assert(old_users[b] == self.users@[b]);
                    } else if a == n {
                        assert(old_users[b] == self.users@[b]);
                        assert(user_ids(old_users)[b] == old_users[b].0@);
                    } else {
                        assert(old_users[a] == self.users@[a]);
                        assert(user_ids(old_users)[a] == old_users[a].0@);
                    }
                }
            },
        }
    }

    /// Takes a user out of the room and returns its name, if it was there.
    pub fn take_user(&mut self, id: &String) -> (name: Option<String>)
        requires
            old(self).wf(),
        ensures
            final(self).wf(),
            final(self).users@ == roster_remove(old(self).users@, id@),
            name == roster_name(old(self).users@, id@),
            final(self).queue@ == old(self).queue@,
            final(self).next_track == old(self).next_track,
            final(self).current_track == old(self).current_track,
            final(self).playback_state == old(self).playback_state,
            final(self).id == old(self).id,
            final(self).name == old(self).name,
    {
        let ghost old_users = self.users@;
        proof {
            user_ids(old_users).index_of_first_ensures(id@);
        }
        match self.user_index(id) {
            Some(i) => {
                let (_, name) = self.users.remove(i);
                assert forall|a: int, b: int|
                    0 <= a < self.users@.len() && 0 <= b < self.users@.len() && a != b implies (#[trigger] self.users@[a]).0@
                    != (#[trigger] self.users@[b]).0@ by {
                    let a0 = if a < i { a } else { a + 1 };
                    let b0 = if b < i { b } else { b + 1 };
                    assert(old_users[a0] == self.users@[a]);
                    assert(old_users[b0] == self.users@[b]);
                }
                Some(name)
            },
            None => None,
        }
    }

    /// The `(id, name)` pairs of the users in the room.
    pub fn connected_users_notification(&self) -> (m: Message)
        ensures
            m matches Message::Notification(Notification::ConnectedUsers(list)) && roster_view(list@)
                == roster_view(self.users@),
    {
        let mut list: Vec<(String, String)> = Vec::new();
        let mut i: usize = 0;
        while i < self.users.len()
            invariant
                i <= self.users@.len(),
                list@.len() == i,
                forall|k: int|
                    0 <= k < i ==> (#[trigger] list@[k]).0@ == self.users@[k].0@ && list@[k].1@
                        == self.users@[k].1@,
            decreases self.users.len() - i,
        {
            list.push((self.users[i].0.clone(), self.users[i].1.clone()));
            i = i + 1;
        }
        assert(roster_view(list@) =~= roster_view(self.users@));
        Message::Notification(Notification::ConnectedUsers(list))
    }

    /// The room as the room list shows it: its id, its name and the ids of
    /// the users in it.
    pub fn room_listing(&self) -> (listing: RoomListing)
        ensures
            listing.id == self.id,
            listing.name == self.name,
            listing.user_names@.map_values(|s: String| s@) == user_ids(self.users@),
    {
        let mut names: Vec<String> = Vec::new();
        let mut i: usize = 0;
        while i < self.users.len()
            invariant
                i <= self.users@.len(),
                names@.len() == i,
                forall|k: int| 0 <= k < i ==> (#[trigger] names@[k])@ == self.users@[k].0@,
            decreases self.users.len() - i,
        {
            names.push(self.users[i].0.clone());
            i = i + 1;
        }
        assert(names@.map_values(|s: String| s@) =~= user_ids(self.users@));
        RoomListing { id: self.id, name: self.name.clone(), user_names: names }
    }
}

/// Ids and names of a roster.
pub open spec fn roster_view(users: Seq<(String, String)>) -> Seq<(Seq<char>, Seq<char>)> {
    users.map_values(|u: (String, String)| (u.0@, u.1@))
}

/// The roster after adding (or renaming) a user.
pub open spec fn roster_insert(users: Seq<(String, String)>, id: String, name: String) -> Seq<
    (String, String),
> {
    match user_ids(users).index_of_first(id@) {
        Some(i) => users.update(i, (id, name)),
        None => users.push((id, name)),
    }
}

/// The roster without the user with this id.
pub open spec fn roster_remove(users: Seq<(String, String)>, id: Seq<char>) -> Seq<(String, String)> {
    match user_ids(users).index_of_first(id) {
        Some(i) => users.remove(i),
        None => users,
    }
}

/// The name of the user with this id.
pub open spec fn roster_name(users: Seq<(String, String)>, id: Seq<char>) -> Option<String> {
    match user_ids(users).index_of_first(id) {
        Some(i) => Some(users[i].1),
        None => None,
    }
}

/// The room's data other than the current track and playback state is as before.
pub open spec fn same_contents(a: RoomActor, b: RoomActor) -> bool {
    &&& b.queue@ == a.queue@
    &&& b.next_track == a.next_track
    &&& b.users@ == a.users@
    &&& b.id == a.id
    &&& b.name == a.name
}

/// Only the roster may have changed.
pub open spec fn same_playback(a: RoomActor, b: RoomActor) -> bool {
    &&& b.queue@ == a.queue@
    &&& b.next_track == a.next_track
    &&& b.current_track == a.current_track
    &&& b.playback_state == a.playback_state
    &&& b.id == a.id
    &&& b.name == a.name
}

/// A connected-users notification listing exactly this roster.
pub open spec fn is_users_update(m: Message, users: Seq<(String, String)>) -> bool {
    m matches Message::Notification(Notification::ConnectedUsers(list)) && roster_view(list@)
        == roster_view(users)
}

/// A response to request `request_id`, sent to the client.
pub open spec fn is_reply(e: RoomEffect, client_id: String, request_id: u32, data: Response) -> bool {
    e == RoomEffect::Send(client_id, Message::Response { request_id, data })
}

/// What a playback command does to the room and what it sends.
pub open spec fn playback_post(old: RoomActor, new: RoomActor, command: PlaybackCommand, effects: Seq<RoomEffect>) -> bool {
    let updates = command_updates(old.queue@, old.current_track, old.playback_state, command);
    &&& same_contents(old, new)
    &&& (new.current_track, new.playback_state) == after_command(
        old.queue@,
        old.current_track,
        old.playback_state,
        command,
    )
    &&& effects.len() == 1 + updates.len()
    &&& effects[0] == RoomEffect::Broadcast(Message::PlaybackCommand(command))
    &&& forall|k: int|
        0 <= k < updates.len() ==> (#[trigger] effects[k + 1] matches RoomEffect::Broadcast(m)
            && is_queue_update(m, old.queue@, updates[k].0, updates[k].1, false, updates[k].2, true))
}

/// The track that a push adds to the queue.
pub open spec fn pushed_track(old: RoomActor, client_id: String, request: TrackRequest) -> Track {
    Track { id: old.next_track, owner: client_id, path: request.path, metadata: request.metadata }
}

/// Queueing a track: it goes to the end with the next free id, an empty
/// room starts playing, and the new queue is announced.
pub open spec fn push_post(
    old: RoomActor,
    new: RoomActor,
    client_id: String,
    request_id: u32,
    request: TrackRequest,
    effects: Seq<RoomEffect>,
) -> bool {
    &&& new.queue@ == old.queue@.push(pushed_track(old, client_id, request))
    &&& new.next_track == old.next_track + 1
    &&& new.playback_state == (if old.queue@.len() == 0 {
        PlaybackState::Playing
    } else {
        old.playback_state
    })
    &&& new.current_track == old.current_track
    &&& new.users@ == old.users@
    &&& new.id == old.id
    &&& new.name == old.name
    &&& effects.len() == 2
    &&& effects[0] matches RoomEffect::Broadcast(m) && is_queue_update(
        m,
        new.queue@,
        new.current_track,
        new.playback_state,
        true,
        false,
        true,
    )
    &&& is_reply(effects[1], client_id, request_id, Response::Success(true))
}

/// Joining another room: the client leaves this room (which is announced)
/// and is handed over; a client that is not here is refused.
pub open spec fn join_post(
    old: RoomActor,
    new: RoomActor,
    client_id: String,
    request_id: u32,
    room_id: u32,
    effects: Seq<RoomEffect>,
) -> bool {
    &&& same_playback(old, new)
    &&& new.users@ == roster_remove(old.users@, client_id@)
    &&& effects.len() == 2
    &&& effects[0] matches RoomEffect::Broadcast(m) && is_users_update(m, new.users@)
    &&& match roster_name(old.users@, client_id@) {
        Some(name) => effects[1] == RoomEffect::TransferToRoom {
            client_id,
            name,
            request_id,
            room_id,
        },
        None => is_reply(effects[1], client_id, request_id, Response::Success(false)),
    }
}

/// Leaving the room: the client goes back to the lobby.
pub open spec fn leave_post(
    old: RoomActor,
    new: RoomActor,
    client_id: String,
    request_id: u32,
    effects: Seq<RoomEffect>,
) -> bool {
    &&& same_playback(old, new)
    &&& new.users@ == roster_remove(old.users@, client_id@)
    &&& effects[0] matches RoomEffect::Broadcast(m) && is_users_update(m, new.users@)
    &&& match roster_name(old.users@, client_id@) {
        Some(name) => {
            &&& effects.len() == 4
            &&& effects[1] == RoomEffect::ReturnToLobby { client_id, name }
            &&& effects[2] matches RoomEffect::Broadcast(m) && is_users_update(m, new.users@)
            &&& is_reply(effects[3], client_id, request_id, Response::Success(true))
        },
        None => {
            &&& effects.len() == 2
            &&& is_reply(effects[1], client_id, request_id, Response::Success(false))
        },
    }
}

/// A request from a client in the room.
pub open spec fn request_post(
    old: RoomActor,
    new: RoomActor,
    client_id: String,
    request_id: u32,
    request: Request,
    res: Result<Vec<RoomEffect>, RoomError>,
) -> bool {
    match request {
        Request::QueuePush(req) => res matches Ok(e) && push_post(
            old,
            new,
            client_id,
            request_id,
            req,
            e@,
        ),
        Request::CreateRoom(options) => res matches Ok(e) && new == old && e@ == seq![
            RoomEffect::CreateRoom { client_id, request_id, options },
        ],
        Request::JoinRoom(room_id) => res matches Ok(e) && join_post(
            old,
            new,
            client_id,
            request_id,
            room_id,
            e@,
        ),
        Request::LeaveRoom => res matches Ok(e) && leave_post(old, new, client_id, request_id, e@),
        Request::Handshake(_) | Request::Authenticate { .. } => new == old && res == Err::<
            Vec<RoomEffect>,
            RoomError,
        >(RoomError::UnexpectedRequest),
    }
}

/// The end of the current track's stream: the next track becomes current
/// (or the room stops), the end marker is passed on to the other clients and
/// the change is announced. If the current track is not in the queue, nothing
/// happens.
pub open spec fn finish_post(
    old: RoomActor,
    new: RoomActor,
    client_id: String,
    message: Message,
    effects: Seq<RoomEffect>,
) -> bool {
    &&& same_contents(old, new)
    &&& if position_of(old.queue@, old.current_track) is Some {
        &&& (new.current_track, new.playback_state) == after_skip(
            old.queue@,
            old.current_track,
            old.playback_state,
            true,
        )
        &&& effects.len() == 2
        &&& effects[0] == RoomEffect::BroadcastOthers(client_id, message)
        &&& effects[1] matches RoomEffect::Broadcast(m) && is_queue_update(
            m,
            new.queue@,
            new.current_track,
            new.playback_state,
            false,
            true,
            true,
        )
    } else {
        new.current_track == old.current_track && new.playback_state == old.playback_state
            && effects.len() == 0
    }
}

/// What a message from a client in the room does.
pub open spec fn message_post(
    old: RoomActor,
    new: RoomActor,
    client_id: String,
    message: Message,
    res: Result<Vec<RoomEffect>, RoomError>,
) -> bool {
    match message {
        Message::Request { request_id, data } => request_post(
            old,
            new,
            client_id,
            request_id,
            data,
            res,
        ),
        Message::PlaybackCommand(c) => res matches Ok(e) && playback_post(old, new, c, e@),
        Message::AudioData(AudioData::Finish) => res matches Ok(e) && finish_post(
            old,
            new,
            client_id,
            message,
            e@,
        ),
        Message::AudioData(_) | Message::Text(_) => res matches Ok(e) && new == old && e@ == seq![
            RoomEffect::BroadcastOthers(client_id, message),
        ],
        Message::Heartbeat => res matches Ok(e) && new == old && e@ == seq![
            RoomEffect::Heartbeat(client_id),
        ],
        Message::QueryRoomList | Message::Notification(_) | Message::Response { .. } => res matches Ok(
            e,
        ) && new == old && e@.len() == 0,
    }
}

impl RoomActor {
    /// Queues a track that a client asked for.
    pub fn queue_push(&mut self, client_id: &String, request_id: u32, request: TrackRequest) -> (effects: Vec<RoomEffect>)
        requires
            old(self).wf(),
            old(self).next_track < u32::MAX,
        ensures
            final(self).wf(),
            push_post(*old(self), *final(self), *client_id, request_id, request, effects@),
    {
        if self.queue.len() == 0 {
            self.playback_state = PlaybackState::Playing;
        }
        let id = self.next_track;
        self.next_track = self.next_track + 1;
        let track = Track { id, owner: client_id.clone(), path: request.path, metadata: request.metadata };
        self.queue.push_back(track);
        let mut effects: Vec<RoomEffect> = Vec::new();
        effects.push(RoomEffect::Broadcast(self.queue_notification(true, false, true)));
        effects.push(
            RoomEffect::Send(
                client_id.clone(),
                Message::Response { request_id, data: Response::Success(true) },
            ),
        );
        effects
    }

    /// A client asked to move to another room.
    pub fn join_room(&mut self, client_id: &String, request_id: u32, room_id: u32) -> (effects: Vec<RoomEffect>)
        requires
            old(self).wf(),
        ensures
            final(self).wf(),
            join_post(*old(self), *final(self), *client_id, request_id, room_id, effects@),
    {
        let taken = self.take_user(client_id);
        let mut effects: Vec<RoomEffect> = Vec::new();
        effects.push(RoomEffect::Broadcast(self.connected_users_notification()));
        match taken {
            Some(name) => {
                effects.push(
                    RoomEffect::TransferToRoom { client_id: client_id.clone(), name, request_id, room_id },
                );
            },
            None => {
                effects.push(
                    RoomEffect::Send(
                        client_id.clone(),
                        Message::Response { request_id, data: Response::Success(false) },
                    ),
                );
            },
        }
        effects
    }

    /// A client asked to leave the room for the lobby.
    pub fn leave_room(&mut self, client_id: &String, request_id: u32) -> (effects: Vec<RoomEffect>)
        requires
            old(self).wf(),
        ensures
            final(self).wf(),
            leave_post(*old(self), *final(self), *client_id, request_id, effects@),
    {
        let taken = self.take_user(client_id);
        let mut effects: Vec<RoomEffect> = Vec::new();
        effects.push(RoomEffect::Broadcast(self.connected_users_notification()));
        match taken {
            Some(name) => {
                effects.push(RoomEffect::ReturnToLobby { client_id: client_id.clone(), name });
                effects.push(RoomEffect::Broadcast(self.connected_users_notification()));
                effects.push(
                    RoomEffect::Send(
                        client_id.clone(),
                        Message::Response { request_id, data: Response::Success(true) },
                    ),
                );
            },
            None => {
                effects.push(
                    RoomEffect::Send(
                        client_id.clone(),
                        Message::Response { request_id, data: Response::Success(false) },
                    ),
                );
            },
        }
        effects
    }

    /// A request from a client in the room.
    pub fn handle_request(&mut self, client_id: &String, request_id: u32, request: Request) -> (res: Result<Vec<RoomEffect>, RoomError>)
        requires
            old(self).wf(),
            request is QueuePush ==> old(self).next_track < u32::MAX,
        ensures
            final(self).wf(),
            request_post(*old(self), *final(self), *client_id, request_id, request, res),
    {
        match request {
            Request::QueuePush(req) => Ok(self.queue_push(client_id, request_id, req)),
            Request::CreateRoom(options) => {
                let mut effects: Vec<RoomEffect> = Vec::new();
                effects.push(RoomEffect::CreateRoom { client_id: client_id.clone(), request_id, options });
                Ok(effects)
            },
            Request::JoinRoom(room_id) => Ok(self.join_room(client_id, request_id, room_id)),
            Request::LeaveRoom => Ok(self.leave_room(client_id, request_id)),
            Request::Handshake(_) => Err(RoomError::UnexpectedRequest),
            Request::Authenticate { .. } => Err(RoomError::UnexpectedRequest),
        }
    }

    /// The stream of the current track ended.
    fn finish_track(&mut self, client_id: &String, message: Message) -> (effects: Vec<RoomEffect>)
        requires
            old(self).wf(),
        ensures
            final(self).wf(),
            finish_post(*old(self), *final(self), *client_id, message, effects@),
    {
        let mut effects: Vec<RoomEffect> = Vec::new();
        if self.skip(true) {
            effects.push(RoomEffect::BroadcastOthers(client_id.clone(), message));
            effects.push(RoomEffect::Broadcast(self.queue_notification(false, true, true)));
        }
        effects
    }

    /// A message from a client in the room. Requests other than the room's
    /// own are refused.
    pub fn handle_message(&mut self, client_id: &String, message: Message) -> (res: Result<Vec<RoomEffect>, RoomError>)
        requires
            old(self).wf(),
            message matches Message::Request { data: Request::QueuePush(_), .. } ==> old(self).next_track
                < u32::MAX,
        ensures
            final(self).wf(),
            message_post(*old(self), *final(self), *client_id, message, res),
    {
        let finish = match &message {
            Message::AudioData(AudioData::Finish) => true,
            _ => false,
        };
        if finish {
            return Ok(self.finish_track(client_id, message));
        }
        match message {
            Message::Request { request_id, data } => self.handle_request(client_id, request_id, data),
            Message::PlaybackCommand(command) => Ok(self.handle_playback_command(command)),
            Message::AudioData(_) | Message::Text(_) => {
                let mut effects: Vec<RoomEffect> = Vec::new();
                effects.push(RoomEffect::BroadcastOthers(client_id.clone(), message));
                Ok(effects)
            },
            Message::Heartbeat => {
                let mut effects: Vec<RoomEffect> = Vec::new();
                effects.push(RoomEffect::Heartbeat(client_id.clone()));
                Ok(effects)
            },
            Message::QueryRoomList | Message::Notification(_) | Message::Response { .. } => Ok(Vec::new()),
        }
    }
}

/// A listing of this room with the ids of this roster.
pub open spec fn is_listing_of(l: RoomListing, room: RoomActor, users: Seq<(String, String)>) -> bool {
    &&& l.id == room.id
    &&& l.name == room.name
    &&& l.user_names@.map_values(|s: String| s@) == user_ids(users)
}

impl RoomActor {
    /// A client arrives from the lobby: it is told which room it is in and
    /// what the queue holds, joins the roster, and everyone learns the new
    /// roster.
    pub fn welcome_client(&mut self, client_id: String, name: String) -> (effects: Vec<RoomEffect>)
        requires
            old(self).wf(),
        ensures
            final(self).wf(),
            same_playback(*old(self), *final(self)),
            final(self).users@ == roster_insert(old(self).users@, client_id, name),
            effects@.len() == 3,
            effects@[0] matches RoomEffect::Send(id, Message::Notification(Notification::Room(Some(l))))
                && id == client_id && is_listing_of(l, *old(self), old(self).users@),
            effects@[1] matches RoomEffect::Send(id, m) && id == client_id && is_queue_update(
                m,
                old(self).queue@,
                old(self).current_track,
                old(self).playback_state,
                true,
                true,
                true,
            ),
            effects@[2] matches RoomEffect::Broadcast(m) && is_users_update(m, final(self).users@),
    {
        let mut effects: Vec<RoomEffect> = Vec::new();
        let listing = self.room_listing();
        effects.push(
            RoomEffect::Send(
                client_id.clone(),
                Message::Notification(Notification::Room(Some(listing))),
            ),
        );
        effects.push(RoomEffect::Send(client_id.clone(), self.queue_notification(true, true, true)));
        self.insert_user(client_id, name);
        effects.push(RoomEffect::Broadcast(self.connected_users_notification()));
        effects
    }

    /// A client of the room disconnected: it leaves the roster and everyone
    /// learns the new roster.
    pub fn client_left(&mut self, client_id: &String) -> (effects: Vec<RoomEffect>)
        requires
            old(self).wf(),
        ensures
            final(self).wf(),
            same_playback(*old(self), *final(self)),
            final(self).users@ == roster_remove(old(self).users@, client_id@),
            effects@.len() == 1,
            effects@[0] matches RoomEffect::Broadcast(m) && is_users_update(m, final(self).users@),
    {
        let _ = self.take_user(client_id);
        let mut effects: Vec<RoomEffect> = Vec::new();
        effects.push(RoomEffect::Broadcast(self.connected_users_notification()));
        effects
    }

    /// The lobby answered a transfer started by `join_room`: if the client
    /// could not be moved it is back in this room (without an announcement)
    /// and is told so; otherwise the roster is announced again and the
    /// request is answered with success.
    pub fn finish_join(&mut self, client_id: String, name: String, request_id: u32, moved: bool) -> (effects: Vec<RoomEffect>)
        requires
            old(self).wf(),
        ensures
            final(self).wf(),
            same_playback(*old(self), *final(self)),
            moved ==> final(self).users@ == old(self).users@ && effects@.len() == 2 && (
            effects@[0] matches RoomEffect::Broadcast(m) && is_users_update(m, final(self).users@))
                && is_reply(effects@[1], client_id, request_id, Response::Success(true)),
            !moved ==> final(self).users@ == roster_insert(old(self).users@, client_id, name)
                && effects@.len() == 1 && is_reply(
                effects@[0],
                client_id,
                request_id,
                Response::Success(false),
            ),
    {
        let mut effects: Vec<RoomEffect> = Vec::new();
        if moved {
            effects.push(RoomEffect::Broadcast(self.connected_users_notification()));
            effects.push(
                RoomEffect::Send(
                    client_id,
                    Message::Response { request_id, data: Response::Success(true) },
                ),
            );
        } else {
            let id = client_id.clone();
            self.insert_user(client_id, name);
            effects.push(
                RoomEffect::Send(id, Message::Response { request_id, data: Response::Success(false) }),
            );
        }
        effects
    }
}

/// Pausing twice gives back the state one started with.
pub proof fn law_pause_twice(st: PlaybackState)
    ensures
        after_pause(after_pause(st)) == st,
{
}

/// Whatever the room was doing, `Play` leaves it playing and `Stop` leaves
/// it stopped, on the same track.
pub proof fn law_play_and_stop(q: Seq<Track>, cur: u32, st: PlaybackState)
    ensures
        after_command(q, cur, st, PlaybackCommand::Play) == (cur, PlaybackState::Playing),
        after_command(q, cur, st, PlaybackCommand::Stop) == (cur, PlaybackState::Stopped),
{
}

proof fn lemma_position_of_distinct(q: Seq<Track>, next: u32, users: Seq<(String, String)>, i: int)
    requires
        room_wf(q, next, users),
        0 <= i < q.len(),
    ensures
        position_of(q, q[i].id) == Some(i),
{
    lemma_position_of(q, q[i].id);
    match position_of(q, q[i].id) {
        Some(k) => {
            if k != i {
                assert(q[k].id != q[i].id);
            }
        },
        None => {
            assert(q[i].id != q[i].id);
        },
    }
}

/// In a well-formed room, `Next` followed by `Prev` comes back to the track
/// one started on, when the current track has a successor.
pub proof fn law_next_then_prev(q: Seq<Track>, next: u32, users: Seq<(String, String)>, cur: u32, st: PlaybackState)
    requires
        room_wf(q, next, users),
        position_of(q, cur) matches Some(i) && i + 1 < q.len(),
    ensures
        ({
            let (c1, s1) = after_command(q, cur, st, PlaybackCommand::Next);
            after_command(q, c1, s1, PlaybackCommand::Prev) == (cur, st)
        }),
{
    lemma_position_of(q, cur);
    let i = position_of(q, cur)->0;
    lemma_position_of_distinct(q, next, users, i + 1);
}

/// `Next` on the last track stops the room and keeps the current track.
pub proof fn law_next_at_end_stops(q: Seq<Track>, cur: u32, st: PlaybackState)
    requires
        position_of(q, cur) == Some(q.len() - 1),
    ensures
        after_command(q, cur, st, PlaybackCommand::Next) == (cur, PlaybackState::Stopped),
{
}

/// The first track queued in a new room is the current track and the room
/// plays it.
pub proof fn law_first_push_plays(
    old: RoomActor,
    new: RoomActor,
    client_id: String,
    request_id: u32,
    request: TrackRequest,
    effects: Seq<RoomEffect>,
)
    requires
        old.queue@.len() == 0,
        old.next_track == 0,
        old.current_track == 0,
        push_post(old, new, client_id, request_id, request, effects),
    ensures
        position_of(new.queue@, new.current_track) == Some(0int),
        new.playback_state == PlaybackState::Playing,
{
    assert(new.queue@[0].id == 0);
}

/// A queued track's id was not in the queue before: track ids stay unique.
pub proof fn law_pushed_id_is_fresh(
    old: RoomActor,
    new: RoomActor,
    client_id: String,
    request_id: u32,
    request: TrackRequest,
    effects: Seq<RoomEffect>,
)
    requires
        old.wf(),
        push_post(old, new, client_id, request_id, request, effects),
    ensures
        position_of(old.queue@, new.queue@.last().id) is None,
        new.wf(),
{
    lemma_position_of(old.queue@, new.queue@.last().id);
    assert forall|i: int, j: int|
        0 <= i < new.queue@.len() && 0 <= j < new.queue@.len() && i != j implies (#[trigger] new.queue@[i]).id
        != (#[trigger] new.queue@[j]).id by {
        if i < old.queue@.len() && j < old.queue@.len() {
            assert(new.queue@[i] == old.queue@[i]);
            assert(new.queue@[j] == old.queue@[j]);
        } else if i < old.queue@.len() {
            assert(new.queue@[i] == old.queue@[i]);
        } else {
            assert(new.queue@[j] == old.queue@[j]);
        }
    }
    assert forall|i: int| 0 <= i < new.queue@.len() implies (#[trigger] new.queue@[i]).id < new.next_track by {
        if i < old.queue@.len() {
            assert(new.queue@[i] == old.queue@[i]);
        }
    }
}

} // verus!
