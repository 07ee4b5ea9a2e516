//! Messages exchanged between players and the server.
//!
//! Floating-point quantities of the wire format (a track's duration, a seek
//! target) are carried here as the raw bits of the `f32` they encode: the logic
//! of this crate only moves them around.

use std::collections::VecDeque;
use vstd::prelude::*;

verus! {

/// One encoded audio frame and its sequence number.
#[derive(Debug)]
pub struct AudioFrame {
    pub frame: u32,
    pub data: Vec<u8>,
}

/// The stream of a track being played: a start marker, frames, an end marker.
#[derive(Debug)]
pub enum AudioData {
    Start,
    Frame(AudioFrame),
    Finish,
}

/// Cover art of a track.
#[derive(Debug)]
pub enum TrackArt {
    Jpeg(Vec<u8>),
}

/// Tag information of a track. `duration_bits` is the bit pattern of the
/// duration in seconds as an `f32`.
#[derive(Debug)]
pub struct TrackMetadata {
    pub duration_bits: u32,
    pub track_no: Option<String>,
    pub title: Option<String>,
    pub artist: Option<String>,
    pub album: Option<String>,
    pub album_artist: Option<String>,
    pub art: Option<TrackArt>,
}

/// A player's request to add a track to a room's queue; `path` is the
/// encrypted location of the file on the owner's machine.
#[derive(Debug)]
pub struct TrackRequest {
    pub path: Vec<u8>,
    pub metadata: TrackMetadata,
}

/// A track in a room's queue.
#[derive(Debug)]
pub struct Track {
    pub id: u32,
    pub owner: String,
    pub path: Vec<u8>,
    pub metadata: TrackMetadata,
}

/// A room as shown in the room list.
#[derive(Debug)]
pub struct RoomListing {
    pub id: u32,
    pub name: String,
    pub user_names: Vec<String>,
}

/// Options for a new room.
#[derive(Debug)]
pub struct RoomOptions {
    pub name: String,
}

/// Playback control. `SeekTo` carries the bit pattern of an `f32` number of
/// seconds.
#[derive(Debug, Clone, Copy, PartialEq, Eq, Structural)]
pub enum PlaybackCommand {
    Play,
    Pause,
    Stop,
    Prev,
    Next,
    SeekTo(u32),
}

/// Whether a room is playing.
#[derive(Debug, Clone, Copy, PartialEq, Eq, Structural)]
pub enum PlaybackState {
    Stopped,
    Playing,
    Paused,
}

/// Unsolicited updates sent by the server. `ConnectedUsers` lists
/// `(id, name)` pairs, each id once.
#[derive(Debug)]
pub enum Notification {
    Queue {
        maybe_queue: Option<VecDeque<Track>>,
        maybe_current_track: Option<u32>,
        maybe_playback_state: Option<PlaybackState>,
    },
    ConnectedUsers(Vec<(String, String)>),
    Room(Option<RoomListing>),
    RoomList(Vec<RoomListing>),
}

/// Requests, answered by a `Response` with the same request id.
#[derive(Debug)]
pub enum Request {
    Handshake(String),
    Authenticate { id: String, name: String },
    JoinRoom(u32),
    LeaveRoom,
    CreateRoom(RoomOptions),
    QueuePush(TrackRequest),
}

/// Answers to requests.
#[derive(Debug)]
pub enum Response {
    Success(bool),
    Handshake(String),
    CreateRoomResponse(u32),
}

/// Everything that travels on a connection.
#[derive(Debug)]
#[allow(inconsistent_fields)]
pub enum Message {
    QueryRoomList,
    AudioData(AudioData),
    Text(String),
    Heartbeat,
    Notification(Notification),
    PlaybackCommand(PlaybackCommand),
    Request { request_id: u32, data: Request },
    Response { request_id: u32, data: Response },
}

/// The value of a track's tag information.
pub struct TrackMetadataModel {
    pub duration_bits: u32,
    pub track_no: Option<Seq<char>>,
    pub title: Option<Seq<char>>,
    pub artist: Option<Seq<char>>,
    pub album: Option<Seq<char>>,
    pub album_artist: Option<Seq<char>>,
    pub art: Option<Seq<u8>>,
}

/// The value of a track.
pub struct TrackModel {
    pub id: u32,
    pub owner: Seq<char>,
    pub path: Seq<u8>,
    pub metadata: TrackMetadataModel,
}

/// The value of a room listing.
pub struct RoomListingModel {
    pub id: u32,
    pub name: Seq<char>,
    pub user_names: Seq<Seq<char>>,
}

pub open spec fn opt_string_view(o: Option<String>) -> Option<Seq<char>> {
    match o {
        Some(s) => Some(s@),
        None => None,
    }
}

pub open spec fn opt_art_view(o: Option<TrackArt>) -> Option<Seq<u8>> {
    match o {
        Some(TrackArt::Jpeg(d)) => Some(d@),
        None => None,
    }
}

impl View for TrackMetadata {
    type V = TrackMetadataModel;

    open spec fn view(&self) -> TrackMetadataModel {
        TrackMetadataModel {
            duration_bits: self.duration_bits,
            track_no: opt_string_view(self.track_no),
            title: opt_string_view(self.title),
            artist: opt_string_view(self.artist),
            album: opt_string_view(self.album),
            album_artist: opt_string_view(self.album_artist),
            art: opt_art_view(self.art),
        }
    }
}

impl View for Track {
    type V = TrackModel;

    open spec fn view(&self) -> TrackModel {
        TrackModel { id: self.id, owner: self.owner@, path: self.path@, metadata: self.metadata@ }
    }
}

impl View for RoomListing {
    type V = RoomListingModel;

    open spec fn view(&self) -> RoomListingModel {
        RoomListingModel {
            id: self.id,
            name: self.name@,
            user_names: self.user_names@.map_values(|s: String| s@),
        }
    }
}

/// The values of a sequence of tracks.
pub open spec fn tracks_view(q: Seq<Track>) -> Seq<TrackModel> {
    q.map_values(|t: Track| t@)
}

/// A copy of a byte buffer.
pub fn copy_bytes(v: &Vec<u8>) -> (out: Vec<u8>)
    ensures
        out@ == v@,
{
    let mut out: Vec<u8> = Vec::new();
    let mut i: usize = 0;
    while i < v.len()
        invariant
            i <= v@.len(),
            out@ == v@.take(i as int),
        decreases v.len() - i,
    {
        out.push(v[i]);
        i = i + 1;
    }
    assert(v@.take(v@.len() as int) =~= v@);
    out
}

/// A copy of an optional string.
pub fn copy_opt_string(o: &Option<String>) -> (out: Option<String>)
    ensures
        opt_string_view(out) == opt_string_view(*o),
{
    match o {
        Some(s) => Some(s.clone()),
        None => None,
    }
}

impl TrackMetadata {
    /// A copy of this tag information.
    pub fn duplicate(&self) -> (out: TrackMetadata)
        ensures
            out@ == self@,
    {
        TrackMetadata {
            duration_bits: self.duration_bits,
            track_no: copy_opt_string(&self.track_no),
            title: copy_opt_string(&self.title),
            artist: copy_opt_string(&self.artist),
            album: copy_opt_string(&self.album),
            album_artist: copy_opt_string(&self.album_artist),
            art: match &self.art {
                Some(TrackArt::Jpeg(d)) => Some(TrackArt::Jpeg(copy_bytes(d))),
                None => None,
            },
        }
    }
}

impl Track {
    /// A copy of this track.
    pub fn duplicate(&self) -> (out: Track)
        ensures
            out@ == self@,
    {
        Track {
            id: self.id,
            owner: self.owner.clone(),
            path: copy_bytes(&self.path),
            metadata: self.metadata.duplicate(),
        }
    }
}

/// A copy of a list of tracks.
pub fn copy_tracks(q: &VecDeque<Track>) -> (out: VecDeque<Track>)
    ensures
        tracks_view(out@) == tracks_view(q@),
{
    let mut out: VecDeque<Track> = VecDeque::new();
    let mut i: usize = 0;
    while i < q.len()
        invariant
            i <= q@.len(),
            out@.len() == i,
            forall|k: int| 0 <= k < i ==> (#[trigger] out@[k])@ == q@[k]@,
        decreases q.len() - i,
    {
        let t = q[i].duplicate();
        out.push_back(t);
        i = i + 1;
    }
    assert(tracks_view(out@) =~= tracks_view(q@));
    out
}

/// A copy of a list of strings.
pub fn copy_strings(v: &Vec<String>) -> (out: Vec<String>)
    ensures
        out@.map_values(|s: String| s@) == v@.map_values(|s: String| s@),
        out@ == v@,
{
    let mut out: Vec<String> = Vec::new();
    let mut i: usize = 0;
    while i < v.len()
        invariant
            i <= v@.len(),
            out@ == v@.take(i as int),
        decreases v.len() - i,
    {
        out.push(v[i].clone());
        i = i + 1;
    }
    assert(v@.take(v@.len() as int) =~= v@);
    out
}

impl RoomListing {
    /// A copy of this listing.
    pub fn duplicate(&self) -> (out: RoomListing)
        ensures
            out@ == self@,
    {
        RoomListing { id: self.id, name: self.name.clone(), user_names: copy_strings(&self.user_names) }
    }
}

} // verus!
