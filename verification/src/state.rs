//! The player's state and the updates that change it. Each update reports
//! which parts of the state changed, so that the interface redraws only those.

use std::collections::{HashMap, VecDeque};
use vstd::prelude::*;
use crate::protocol::{PlaybackState, RoomListing, Track};
use crate::room::{lemma_position_of, position_of};

verus! {

broadcast use vstd::std_specs::hash::group_hash_axioms;

/// A set of changes to the state, one bit per part.
#[derive(Debug, Clone, Copy, PartialEq, Eq, Structural)]
pub struct StateChanges {
    pub bits: u32,
}

pub const VOLUME: u32 = 1;
pub const VISUALIZER: u32 = 2;
pub const BUFFER: u32 = 4;
pub const LOADING_COUNT: u32 = 8;
pub const SERVER_STATUSES: u32 = 16;
pub const CONNECTION: u32 = 32;
pub const ROOM_QUEUE: u32 = 64;
pub const ROOM_BUFFERING: u32 = 128;
pub const ROOM_ELAPSED: u32 = 256;
pub const ROOM_CONNECTED_USERS: u32 = 512;
pub const ROOM_CURRENT_TRACK: u32 = 1024;
pub const ROOM_PLAYBACK_STATE: u32 = 2048;
pub const SEEK_POSITION: u32 = 4096;
pub const PREFERENCES: u32 = 8192;
/// Every part of a room.
pub const ROOM_ALL: u32 = 4032;

impl StateChanges {
    pub fn empty() -> (r: StateChanges)
        ensures
            r.bits == 0,
    {
        StateChanges { bits: 0 }
    }

    pub fn from_bits(bits: u32) -> (r: StateChanges)
        ensures
            r.bits == bits,
    {
        StateChanges { bits }
    }

    pub fn is_empty(&self) -> (r: bool)
        ensures
            r == (self.bits == 0),
    {
        self.bits == 0
    }

    /// Whether every change in `other` is in `self`.
    pub fn contains(&self, other: StateChanges) -> (r: bool)
        ensures
            r == (self.bits & other.bits == other.bits),
    {
        self.bits & other.bits == other.bits
    }

    /// Whether `self` and `other` have a change in common.
    pub fn intersects(&self, other: StateChanges) -> (r: bool)
        ensures
            r == (self.bits & other.bits != 0),
    {
        self.bits & other.bits != 0
    }

    /// The changes of both.
    pub fn union(&self, other: StateChanges) -> (r: StateChanges)
        ensures
            r.bits == self.bits | other.bits,
    {
        StateChanges { bits: self.bits | other.bits }
    }
}

/// What is known of a server's rooms.
#[derive(Debug)]
pub enum ServerStatus {
    Unknown,
    Error,
    Success { rooms: Vec<RoomListing> },
}

/// A server the player knows; `id` is the 128-bit value of its UUID.
#[derive(Debug)]
pub struct Server {
    pub id: u128,
    pub name: String,
    pub addr: String,
}

/// Persisted settings. `volume_bits` is the bit pattern of an `f32` in
/// `[0, 1]`; `id` is the 128-bit value of the player's UUID.
#[derive(Debug)]
pub struct Preferences {
    pub volume_bits: u32,
    pub name: String,
    pub id: u128,
    pub lyrics_show_warning_arrows: bool,
    pub display_album_artist: bool,
    pub servers: Vec<Server>,
}

/// The room the player is in. `elapsed_bits` is the bit pattern of an `f32`
/// number of seconds; `T` is the handle of the task that transmits a track
/// of this player.
#[derive(Debug)]
pub struct RoomState<T> {
    pub id: u32,
    pub name: String,
    pub buffering: bool,
    pub elapsed_bits: u32,
    pub queue: VecDeque<Track>,
    pub current_track: u32,
    pub playback_state: PlaybackState,
    pub connected_users: Vec<(String, String)>,
    pub transmit_thread: Option<TransmitThreadHandle<T>>,
}

/// The task that transmits a track, with the id of that track.
#[derive(Debug)]
pub struct TransmitThreadHandle<T> {
    pub track_id: u32,
    pub tx: T,
}

/// The server the player is connected to.
#[derive(Debug)]
pub struct ConnectionState<T> {
    pub server_id: u128,
    pub room: Option<RoomState<T>>,
}

/// Global state of the player. `seek_position_bits` is the bit pattern of an
/// `f32` number of seconds.
#[derive(Debug)]
pub struct State<T> {
    pub my_id: String,
    pub preferences: Preferences,
    pub connection: Option<ConnectionState<T>>,
    pub server_statuses: HashMap<u128, ServerStatus>,
    pub loading_count: usize,
    pub seek_position_bits: Option<u32>,
    pub visualizer: [u8; 14],
    pub buffer: u8,
}

/// An operation on the state. Floating-point values travel as the bits of
/// the `f32` they encode.
#[derive(Debug)]
pub enum StateUpdate {
    SetVolume(u32),
    ClearServerStatuses,
    SetServerStatus(u128, ServerStatus),
    SetConnectedServerStatus(ServerStatus),
    NewConnection { server_id: u128 },
    ClearConnection,
    NewRoom(RoomListing),
    ClearRoom,
    SetRoomBuffering(bool),
    SetRoomElapsed(u32),
    SetRoomConnectedUsers(Vec<(String, String)>),
    SetRoomQueue(VecDeque<Track>),
    SetRoomCurrentTrack(u32),
    SetRoomPlaybackState(PlaybackState),
    SetSeekPosition(u32),
    ClearSeekPosition,
    SetPreferences { name: String, lyrics_show_warning_arrows: bool, display_album_artist: bool },
    SetVisualizer([u8; 14]),
    SetBufferLevel(u8),
    IncreaseLoadingCount(usize),
    DecreaseLoadingCount(usize),
}

/// The bits of `0.0f32`.
pub const F32_ZERO_BITS: u32 = 0;
/// The bits of `1.0f32`.
pub const F32_ONE_BITS: u32 = 0x3f80_0000;

/// `f32::clamp(v, 0.0, 1.0)` on the bit pattern of `v`: a NaN stays NaN,
/// `-0.0` stays `-0.0`, anything below zero becomes `0.0`, anything above one
/// becomes `1.0`.
pub open spec fn spec_clamp_unit(bits: u32) -> u32 {
    let exponent_all_ones = bits & 0x7f80_0000 == 0x7f80_0000;
    let nan = exponent_all_ones && bits & 0x007f_ffff != 0;
    if nan {
        bits
    } else if bits == 0x8000_0000 {
        bits
    } else if bits >= 0x8000_0000 {
        F32_ZERO_BITS
    } else if bits > F32_ONE_BITS {
        F32_ONE_BITS
    } else {
        bits
    }
}

pub fn clamp_unit(bits: u32) -> (r: u32)
    ensures
        r == spec_clamp_unit(bits),
{
    let nan = (bits & 0x7f80_0000 == 0x7f80_0000) && (bits & 0x007f_ffff != 0);
    if nan {
        bits
    } else if bits == 0x8000_0000 {
        bits
    } else if bits >= 0x8000_0000 {
        F32_ZERO_BITS
    } else if bits > F32_ONE_BITS {
        F32_ONE_BITS
    } else {
        bits
    }
}

/// Room `b` is room `a` with at most the part numbered `except` changed:
/// 0 buffering, 1 elapsed time, 2 queue, 3 current track, 4 playback state,
/// 5 connected users.
pub open spec fn room_same_except<T>(a: RoomState<T>, b: RoomState<T>, except: int) -> bool {
    &&& b.id == a.id
    &&& b.name == a.name
    &&& (except != 0 ==> b.buffering == a.buffering)
    &&& (except != 1 ==> b.elapsed_bits == a.elapsed_bits)
    &&& (except != 2 ==> b.queue@ == a.queue@)
    &&& (except != 3 ==> b.current_track == a.current_track)
    &&& (except != 4 ==> b.playback_state == a.playback_state)
    &&& (except != 5 ==> b.connected_users@ == a.connected_users@)
    &&& b.transmit_thread == a.transmit_thread
}

/// Preferences other than the volume are equal.
pub open spec fn prefs_same_but_volume(a: Preferences, b: Preferences) -> bool {
    &&& b.name == a.name
    &&& b.id == a.id
    &&& b.lyrics_show_warning_arrows == a.lyrics_show_warning_arrows
    &&& b.display_album_artist == a.display_album_artist
    &&& b.servers@ == a.servers@
}

/// State `b` is state `a` with at most the part numbered `except` changed:
/// 0 volume, 1 other preferences, 2 connection, 3 server statuses,
/// 4 loading count, 5 seek position, 6 visualizer, 7 buffer level.
pub open spec fn state_same_except<T>(a: State<T>, b: State<T>, except: int) -> bool {
    &&& b.my_id == a.my_id
    &&& (except != 0 ==> b.preferences.volume_bits == a.preferences.volume_bits)
    &&& (except != 1 ==> prefs_same_but_volume(a.preferences, b.preferences))
    &&& (except != 2 ==> b.connection == a.connection)
    &&& (except != 3 ==> b.server_statuses@ == a.server_statuses@)
    &&& (except != 4 ==> b.loading_count == a.loading_count)
    &&& (except != 5 ==> b.seek_position_bits == a.seek_position_bits)
    &&& (except != 6 ==> b.visualizer@ == a.visualizer@)
    &&& (except != 7 ==> b.buffer == a.buffer)
}

/// The room the player is in, if any.
pub open spec fn room_of<T>(s: State<T>) -> Option<RoomState<T>> {
    match s.connection {
        Some(c) => c.room,
        None => None,
    }
}

/// An update of one part of the room: with no room nothing changes and
/// nothing is reported; otherwise only that part of the room changes, to a
/// value that `holds` accepts, and `flag` is reported.
pub open spec fn room_update_post<T>(
    old: State<T>,
    new: State<T>,
    except: int,
    holds: spec_fn(RoomState<T>) -> bool,
    flag: u32,
    changes: StateChanges,
) -> bool {
    match room_of(old) {
        Some(r) => {
            &&& state_same_except(old, new, 2)
            &&& new.connection matches Some(c) && c.server_id == old.connection->0.server_id && (
            c.room matches Some(r2) && room_same_except(r, r2, except) && holds(r2))
            &&& changes.bits == flag
        },
        None => new == old && changes.bits == 0,
    }
}

/// What an update does to the state, and which changes it reports.
pub open spec fn update_post<T>(old: State<T>, new: State<T>, update: StateUpdate, changes: StateChanges) -> bool {
    match update {
        StateUpdate::SetVolume(bits) => state_same_except(old, new, 0)
            && new.preferences.volume_bits == spec_clamp_unit(bits) && changes.bits == VOLUME,
        StateUpdate::ClearServerStatuses => state_same_except(old, new, 3)
            && new.server_statuses@ == Map::<u128, ServerStatus>::empty() && changes.bits
            == SERVER_STATUSES,
        StateUpdate::SetServerStatus(id, status) => state_same_except(old, new, 3)
            && new.server_statuses@ == old.server_statuses@.insert(id, status) && changes.bits
            == SERVER_STATUSES,
        StateUpdate::SetConnectedServerStatus(status) => match old.connection {
            Some(c) => state_same_except(old, new, 3) && new.server_statuses@
                == old.server_statuses@.insert(c.server_id, status) && changes.bits
                == SERVER_STATUSES,
            None => new == old && changes.bits == 0,
        },
        StateUpdate::NewConnection { server_id } => state_same_except(old, new, 2)
            && new.connection == Some(ConnectionState::<T> { server_id, room: None })
            && changes.bits == CONNECTION,
        StateUpdate::ClearConnection => state_same_except(old, new, 2) && new.connection is None
            && changes.bits == CONNECTION,
        StateUpdate::NewRoom(listing) => match old.connection {
            Some(c) => {
                &&& state_same_except(old, new, 2)
                &&& new.connection matches Some(c2) && c2.server_id == c.server_id && (
                c2.room matches Some(r) && r.id == listing.id && r.name == listing.name
                    && !r.buffering && r.elapsed_bits == F32_ZERO_BITS && r.queue@.len() == 0
                    && r.current_track == 0 && r.playback_state == PlaybackState::Stopped
                    && r.connected_users@.len() == 0 && r.transmit_thread is None)
                &&& changes.bits == ROOM_ALL
            },
            None => new == old && changes.bits == 0,
        },
        StateUpdate::ClearRoom => match old.connection {
            Some(c) => state_same_except(old, new, 2) && new.connection == Some(
                ConnectionState::<T> { server_id: c.server_id, room: None },
            ) && changes.bits == ROOM_ALL,
            None => new == old && changes.bits == 0,
        },
        StateUpdate::SetRoomBuffering(b) => room_update_post(
            old,
            new,
            0,
            |r: RoomState<T>| r.buffering == b,
            ROOM_BUFFERING,
            changes,
        ),
        StateUpdate::SetRoomElapsed(e) => room_update_post(
            old,
            new,
            1,
            |r: RoomState<T>| r.elapsed_bits == e,
            ROOM_ELAPSED,
            changes,
        ),
        StateUpdate::SetRoomConnectedUsers(users) => room_update_post(
            old,
            new,
            5,
            |r: RoomState<T>| r.connected_users == users,
            ROOM_CONNECTED_USERS,
            changes,
        ),
        StateUpdate::SetRoomQueue(queue) => room_update_post(
            old,
            new,
            2,
            |r: RoomState<T>| r.queue == queue,
            ROOM_QUEUE,
            changes,
        ),
        StateUpdate::SetRoomCurrentTrack(t) => room_update_post(
            old,
            new,
            3,
            |r: RoomState<T>| r.current_track == t,
            ROOM_CURRENT_TRACK,
            changes,
        ),
        StateUpdate::SetRoomPlaybackState(st) => room_update_post(
            old,
            new,
            4,
            |r: RoomState<T>| r.playback_state == st,
            ROOM_PLAYBACK_STATE,
            changes,
        ),
        StateUpdate::SetSeekPosition(bits) => state_same_except(old, new, 5)
            && new.seek_position_bits == Some(bits) && changes.bits == SEEK_POSITION,
        StateUpdate::ClearSeekPosition => state_same_except(old, new, 5)
            && new.seek_position_bits is None && changes.bits == SEEK_POSITION,
        StateUpdate::SetPreferences { name, lyrics_show_warning_arrows, display_album_artist } => {
            &&& state_same_except(old, new, 1)
            &&& new.preferences.name == name
            &&& new.preferences.lyrics_show_warning_arrows == lyrics_show_warning_arrows
            &&& new.preferences.display_album_artist == display_album_artist
            &&& new.preferences.id == old.preferences.id
            &&& new.preferences.servers@ == old.preferences.servers@
            &&& changes.bits == PREFERENCES
        },
        StateUpdate::SetVisualizer(v) => state_same_except(old, new, 6) && new.visualizer@ == v@
            && changes.bits == VISUALIZER,
        StateUpdate::SetBufferLevel(b) => state_same_except(old, new, 7) && new.buffer == b
            && changes.bits == BUFFER,
        StateUpdate::IncreaseLoadingCount(x) => state_same_except(old, new, 4) && new.loading_count
            == old.loading_count + x && changes.bits == LOADING_COUNT,
        StateUpdate::DecreaseLoadingCount(x) => state_same_except(old, new, 4) && new.loading_count
            == old.loading_count - x && changes.bits == LOADING_COUNT,
    }
}

/// The loading counter does not overflow or go below zero.
pub open spec fn update_allowed<T>(s: State<T>, update: StateUpdate) -> bool {
    match update {
        StateUpdate::IncreaseLoadingCount(x) => s.loading_count + x <= usize::MAX,
        StateUpdate::DecreaseLoadingCount(x) => x <= s.loading_count,
        _ => true,
    }
}

/// An update that reports no change left the state as it was: the changes
/// that `update` returns describe everything it changed.
pub proof fn law_no_reported_change_means_unchanged<T>(
    old: State<T>,
    new: State<T>,
    update: StateUpdate,
    changes: StateChanges,
)
    requires
        update_post(old, new, update, changes),
        changes.bits == 0,
    ensures
        new == old,
{
}

impl<T> State<T> {
    /// Applies an update and reports what changed.
    pub fn update(&mut self, update: StateUpdate) -> (changes: StateChanges)
        requires
            update_allowed(*old(self), update),
        ensures
            update_post(*old(self), *final(self), update, changes),
    {
        match update {
            StateUpdate::SetVolume(bits) => {
                self.preferences.volume_bits = clamp_unit(bits);
                StateChanges::from_bits(VOLUME)
            },
            StateUpdate::ClearServerStatuses => {
                self.server_statuses.clear();
                StateChanges::from_bits(SERVER_STATUSES)
            },
            StateUpdate::SetServerStatus(id, status) => {
                self.server_statuses.insert(id, status);
                StateChanges::from_bits(SERVER_STATUSES)
            },
            StateUpdate::SetConnectedServerStatus(status) => {
                match &self.connection {
                    Some(c) => {
                        let id = c.server_id;
                        self.server_statuses.insert(id, status);
                        StateChanges::from_bits(SERVER_STATUSES)
                    },
                    None => StateChanges::empty(),
                }
            },
            StateUpdate::NewConnection { server_id } => {
                self.connection = Some(ConnectionState { server_id, room: None });
                StateChanges::from_bits(CONNECTION)
            },
            StateUpdate::ClearConnection => {
                self.connection = None;
                StateChanges::from_bits(CONNECTION)
            },
            StateUpdate::NewRoom(listing) => {
                match &mut self.connection {
                    Some(c) => {
                        c.room = Some(
                            RoomState {
                                id: listing.id,
                                name: listing.name,
                                queue: VecDeque::new(),
                                current_track: 0,
                                playback_state: PlaybackState::Stopped,
                                connected_users: Vec::new(),
                                buffering: false,
                                elapsed_bits: F32_ZERO_BITS,
                                transmit_thread: None,
                            },
                        );
                        StateChanges::from_bits(ROOM_ALL)
                    },
                    None => StateChanges::empty(),
                }
            },
            StateUpdate::ClearRoom => {
                match &mut self.connection {
                    Some(c) => {
                        c.room = None;
                        StateChanges::from_bits(ROOM_ALL)
                    },
                    None => StateChanges::empty(),
                }
            },
            StateUpdate::SetRoomBuffering(b) => {
                match &mut self.connection {
                    Some(c) => match &mut c.room {
                        Some(r) => {
                            r.buffering = b;
                            StateChanges::from_bits(ROOM_BUFFERING)
                        },
                        None => StateChanges::empty(),
                    },
                    None => StateChanges::empty(),
                }
            },
            StateUpdate::SetRoomElapsed(e) => {
                match &mut self.connection {
                    Some(c) => match &mut c.room {
                        Some(r) => {
                            r.elapsed_bits = e;
                            StateChanges::from_bits(ROOM_ELAPSED)
                        },
                        None => StateChanges::empty(),
                    },
                    None => StateChanges::empty(),
                }
            },
            StateUpdate::SetRoomConnectedUsers(users) => {
                match &mut self.connection {
                    Some(c) => match &mut c.room {
                        Some(r) => {
                            r.connected_users = users;
                            StateChanges::from_bits(ROOM_CONNECTED_USERS)
                        },
                        None => StateChanges::empty(),
                    },
                    None => StateChanges::empty(),
                }
            },
            StateUpdate::SetRoomQueue(queue) => {
                match &mut self.connection {
                    Some(c) => match &mut c.room {
                        Some(r) => {
                            r.queue = queue;
                            StateChanges::from_bits(ROOM_QUEUE)
                        },
                        None => StateChanges::empty(),
                    },
                    None => StateChanges::empty(),
                }
            },
            StateUpdate::SetRoomCurrentTrack(t) => {
                match &mut self.connection {
                    Some(c) => match &mut c.room {
                        Some(r) => {
                            r.current_track = t;
                            StateChanges::from_bits(ROOM_CURRENT_TRACK)
                        },
                        None => StateChanges::empty(),
                    },
                    None => StateChanges::empty(),
                }
            },
            StateUpdate::SetRoomPlaybackState(st) => {
                match &mut self.connection {
                    Some(c) => match &mut c.room {
                        Some(r) => {
                            r.playback_state = st;
                            StateChanges::from_bits(ROOM_PLAYBACK_STATE)
                        },
                        None => StateChanges::empty(),
                    },
                    None => StateChanges::empty(),
                }
            },
            StateUpdate::SetSeekPosition(bits) => {
                self.seek_position_bits = Some(bits);
                StateChanges::from_bits(SEEK_POSITION)
            },
            StateUpdate::ClearSeekPosition => {
                self.seek_position_bits = None;
                StateChanges::from_bits(SEEK_POSITION)
            },
            StateUpdate::SetPreferences { name, lyrics_show_warning_arrows, display_album_artist } => {
                self.preferences.name = name;
                self.preferences.lyrics_show_warning_arrows = lyrics_show_warning_arrows;
                self.preferences.display_album_artist = display_album_artist;
                StateChanges::from_bits(PREFERENCES)
            },
            StateUpdate::SetVisualizer(v) => {
                self.visualizer = v;
                StateChanges::from_bits(VISUALIZER)
            },
            StateUpdate::SetBufferLevel(b) => {
                self.buffer = b;
                StateChanges::from_bits(BUFFER)
            },
            StateUpdate::IncreaseLoadingCount(x) => {
                self.loading_count = self.loading_count + x;
                StateChanges::from_bits(LOADING_COUNT)
            },
            StateUpdate::DecreaseLoadingCount(x) => {
                self.loading_count = self.loading_count - x;
                StateChanges::from_bits(LOADING_COUNT)
            },
        }
    }
}

/// The first track of the queue with the room's current id.
pub open spec fn spec_current_track<T>(r: RoomState<T>) -> Option<Track> {
    match position_of(r.queue@, r.current_track) {
        Some(i) => Some(r.queue@[i]),
        None => None,
    }
}

/// The icon that shows what the player is doing.
#[derive(Debug, Clone, Copy, PartialEq, Eq, Structural)]
pub enum PlayStatusIcon {
    PlayTx,
    PlayRx,
    Pause,
    Stop,
}

impl<T> RoomState<T> {
    /// The track that is playing (or would play) in the room.
    pub fn current_track(&self) -> (res: Option<&Track>)
        ensures
            match spec_current_track(*self) {
                Some(t) => res matches Some(r) && *r == t,
                None => res is None,
            },
    {
        proof {
            lemma_position_of(self.queue@, self.current_track);
        }
        let mut i: usize = 0;
        while i < self.queue.len()
            invariant
                i <= self.queue@.len(),
                forall|j: int| 0 <= j < i ==> (#[trigger] self.queue@[j]).id != self.current_track,
                match position_of(self.queue@, self.current_track) {
                    Some(k) => 0 <= k < self.queue@.len() && self.queue@[k].id == self.current_track
                        && forall|j: int|
                        0 <= j < k ==> (#[trigger] self.queue@[j]).id != self.current_track,
                    None => forall|j: int|
                        0 <= j < self.queue@.len() ==> (#[trigger] self.queue@[j]).id
                            != self.current_track,
                },
            decreases self.queue.len() - i,
        {
            if self.queue[i].id == self.current_track {
                proof {
                    if let Some(k) = position_of(self.queue@, self.current_track) {
                        assert(!(k < i));
                        assert(!(i < k));
                    }
                }
                return Some(&self.queue[i]);
            }
            i = i + 1;
        }
        None
    }
}

/// Whether playback is stopped; true when not in a room.
pub open spec fn spec_is_stopped<T>(s: State<T>) -> bool {
    match room_of(s) {
        Some(r) => r.playback_state == PlaybackState::Stopped,
        None => true,
    }
}

/// Whether playback is paused; false when not in a room.
pub open spec fn spec_is_paused<T>(s: State<T>) -> bool {
    match room_of(s) {
        Some(r) => r.playback_state == PlaybackState::Paused,
        None => false,
    }
}

/// Whether this player owns the current track (and so transmits it).
pub open spec fn spec_is_transmitter<T>(s: State<T>) -> bool {
    match room_of(s) {
        Some(r) => match spec_current_track(r) {
            Some(t) => t.owner@ == s.my_id@,
            None => false,
        },
        None => false,
    }
}

/// The icon for the state: stopped, paused, transmitting or receiving.
pub open spec fn spec_play_status<T>(s: State<T>) -> PlayStatusIcon {
    if spec_is_stopped(s) {
        PlayStatusIcon::Stop
    } else if spec_is_paused(s) {
        PlayStatusIcon::Pause
    } else if spec_is_transmitter(s) {
        PlayStatusIcon::PlayTx
    } else {
        PlayStatusIcon::PlayRx
    }
}

impl<T> State<T> {
    /// The room the player is in.
    pub fn room(&self) -> (res: Option<&RoomState<T>>)
        ensures
            match room_of(*self) {
                Some(r) => res matches Some(x) && *x == r,
                None => res is None,
            },
    {
        match &self.connection {
            Some(c) => match &c.room {
                Some(r) => Some(r),
                None => None,
            },
            None => None,
        }
    }

    /// The current track of the room the player is in.
    pub fn current_track(&self) -> (res: Option<&Track>)
        ensures
            match room_of(*self) {
                Some(r) => match spec_current_track(r) {
                    Some(t) => res matches Some(x) && *x == t,
                    None => res is None,
                },
                None => res is None,
            },
    {
        match self.room() {
            Some(r) => r.current_track(),
            None => None,
        }
    }

    pub fn is_transmitter(&self) -> (res: bool)
        ensures
            res == spec_is_transmitter(*self),
    {
        match self.current_track() {
            Some(t) => t.owner == self.my_id,
            None => false,
        }
    }

    pub fn is_stopped(&self) -> (res: bool)
        ensures
            res == spec_is_stopped(*self),
    {
        match self.room() {
            Some(r) => r.playback_state == PlaybackState::Stopped,
            None => true,
        }
    }

    pub fn is_paused(&self) -> (res: bool)
        ensures
            res == spec_is_paused(*self),
    {
        match self.room() {
            Some(r) => r.playback_state == PlaybackState::Paused,
            None => false,
        }
    }

    /// The icon for the play status.
    pub fn play_status(&self) -> (res: PlayStatusIcon)
        ensures
            res == spec_play_status(*self),
    {
        if self.is_stopped() {
            PlayStatusIcon::Stop
        } else if self.is_paused() {
            PlayStatusIcon::Pause
        } else if self.is_transmitter() {
            PlayStatusIcon::PlayTx
        } else {
            PlayStatusIcon::PlayRx
        }
    }
}

} // verus!
