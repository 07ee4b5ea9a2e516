//! The texts of the player's windows: title and artist of the current
//! track, the lines of the user list and of the queue, and which lyric line
//! is shown.

use vstd::prelude::*;
use vstd::string::StringExecFns;
use crate::protocol::{RoomListing, Track, TrackMetadata, TrackMetadataModel};
use crate::state::{RoomState, Server, ServerStatus, State};
use crate::status::{min_secs, spec_min_secs, user_name_of, user_name_or_unknown};
use crate::text::{decimal, decimal_chars, string_from_chars};

verus! {

/// The title shown for a track, `[no title]` when it has none.
pub open spec fn title_text(title: Option<Seq<char>>) -> Seq<char> {
    match title {
        Some(t) => t,
        None => "[no title]"@,
    }
}

/// The artist shown for a track: its album artist or its artist, as the
/// preference says, `[unknown artist]` when that tag is missing.
pub open spec fn artist_text(meta: TrackMetadataModel, album_artist: bool) -> Seq<char> {
    match (if album_artist {
        meta.album_artist
    } else {
        meta.artist
    }) {
        Some(a) => a,
        None => "[unknown artist]"@,
    }
}

/// The title shown for a track.
pub fn title_of(meta: &TrackMetadata) -> (res: String)
    ensures
        res@ == title_text(meta@.title),
{
    match &meta.title {
        Some(t) => t.clone(),
        None => "[no title]".to_owned(),
    }
}

/// The artist shown for a track.
pub fn artist_of(meta: &TrackMetadata, display_album_artist: bool) -> (res: String)
    ensures
        res@ == artist_text(meta@, display_album_artist),
{
    let tag = if display_album_artist {
        &meta.album_artist
    } else {
        &meta.artist
    };
    match tag {
        Some(a) => a.clone(),
        None => "[unknown artist]".to_owned(),
    }
}

/// The line of the user list for a user `(id, name)`: the player itself is
/// shown in bold (`@b`) as `you`.
pub open spec fn user_line(user: (String, String), my_id: Seq<char>) -> Seq<char> {
    if user.0@ == my_id {
        "@b* you ("@ + user.1@ + ")"@
    } else {
        "* "@ + user.1@
    }
}

/// The lines of the user list: nothing when not connected, `no room`
/// outside a room, otherwise the room's name in brackets and a line per user.
pub open spec fn user_list<T>(s: State<T>, lines: Seq<String>) -> bool {
    match s.connection {
        None => lines.len() == 0,
        Some(c) => match c.room {
            None => lines.len() == 1 && lines[0]@ == "no room"@,
            Some(r) => {
                &&& lines.len() == r.connected_users@.len() + 1
                &&& lines[0]@ == "["@ + r.name@ + "]"@
                &&& forall|i: int|
                    0 <= i < r.connected_users@.len() ==> (#[trigger] lines[i + 1])@ == user_line(
                        r.connected_users@[i],
                        s.my_id@,
                    )
            },
        },
    }
}

/// The line of the queue list for a track whose duration is `secs` whole
/// seconds: bold (`@b`) if it is the current track, then its owner's name,
/// a tab, the duration and the title.
pub open spec fn queue_line(t: Track, users: Seq<(String, String)>, current: u32, secs: u32) -> Seq<char> {
    (if t.id == current {
        "@b"@
    } else {
        ""@
    }) + user_name_or_unknown(users, t.owner@) + "\t["@ + spec_min_secs(secs) + "] "@ + title_text(
        t.metadata@.title,
    )
}

impl<T> State<T> {
    /// The lines of the user list.
    pub fn user_list_lines(&self) -> (lines: Vec<String>)
        ensures
            user_list(*self, lines@),
    {
        let mut lines: Vec<String> = Vec::new();
        match &self.connection {
            None => {},
            Some(c) => match &c.room {
                None => {
                    lines.push("no room".to_owned());
                },
                Some(r) => {
                    let mut head = "[".to_owned();
                    head.append(r.name.as_str());
                    head.append("]");
                    lines.push(head);
                    let mut i: usize = 0;
                    while i < r.connected_users.len()
                        invariant
                            i <= r.connected_users@.len(),
                            lines@.len() == i + 1,
                            lines@[0]@ == "["@ + r.name@ + "]"@,
                            forall|k: int|
                                0 <= k < i ==> (#[trigger] lines@[k + 1])@ == user_line(
                                    r.connected_users@[k],
                                    self.my_id@,
                                ),
                        decreases r.connected_users.len() - i,
                    {
                        let (id, name) = &r.connected_users[i];
                        let line = if *id == self.my_id {
                            let mut l = "@b* you (".to_owned();
                            l.append(name.as_str());
                            l.append(")");
                            l
                        } else {
                            let mut l = "* ".to_owned();
                            l.append(name.as_str());
                            l
                        };
                        lines.push(line);
                        i = i + 1;
                    }
                },
            },
        }
        lines
    }
}

/// The lines of the queue list of a room; `secs[i]` is the duration of the
/// `i`-th queued track in whole seconds.
pub fn queue_lines<T>(room: &RoomState<T>, secs: &Vec<u32>) -> (lines: Vec<String>)
    requires
        secs@.len() == room.queue@.len(),
    ensures
        lines@.len() == room.queue@.len(),
        forall|i: int|
            0 <= i < lines@.len() ==> (#[trigger] lines@[i])@ == queue_line(
                room.queue@[i],
                room.connected_users@,
                room.current_track,
                secs@[i],
            ),
{
    let mut lines: Vec<String> = Vec::new();
    let mut i: usize = 0;
    while i < room.queue.len()
        invariant
            i <= room.queue@.len(),
            secs@.len() == room.queue@.len(),
            lines@.len() == i,
            forall|k: int|
                0 <= k < i ==> (#[trigger] lines@[k])@ == queue_line(
                    room.queue@[k],
                    room.connected_users@,
                    room.current_track,
                    secs@[k],
                ),
        decreases room.queue.len() - i,
    {
        let t = &room.queue[i];
        let mut line = if t.id == room.current_track {
            "@b".to_owned()
        } else {
            "".to_owned()
        };
        let owner = user_name_of(&room.connected_users, &t.owner);
        line.append(owner.as_str());
        line.append("\t[");
        let time = min_secs(secs[i]);
        line.append(time.as_str());
        line.append("] ");
        let title = title_of(&t.metadata);
        line.append(title.as_str());
        lines.push(line);
        i = i + 1;
    }
    lines
}

/// What the lyric window does at a moment of the current track.
#[derive(Debug, Clone, Copy, PartialEq, Eq, Structural)]
pub enum LyricChoice {
    /// At the very start: clear the window.
    Clear,
    /// Show the line at this position.
    Line(usize),
    /// A line is about to start: blink the music notes.
    Blink,
    /// No line has started yet: show music notes.
    Notes,
}

/// How long before a line its warning blink starts, in milliseconds.
pub const LYRIC_WARNING_MILLIS: usize = 800;

/// Looking from line `n - 1` back to the first: the last line that has
/// started shows; but meeting first a line that starts within the warning
/// time makes the notes blink, if notes are shown and warnings are wanted.
pub open spec fn lyric_scan(lines: Seq<(usize, String)>, n: int, now: usize, notes_shown: bool, warnings: bool) -> LyricChoice
    decreases n,
{
    if n <= 0 {
        LyricChoice::Notes
    } else if now > lines[n - 1].0 {
        LyricChoice::Line((n - 1) as usize)
    } else if now + LYRIC_WARNING_MILLIS > lines[n - 1].0 && notes_shown && warnings {
        LyricChoice::Blink
    } else {
        lyric_scan(lines, n - 1, now, notes_shown, warnings)
    }
}

/// What the lyric window does `now` milliseconds into the track, given its
/// timed lines (as `parse_line` reads them, in order), whether music notes
/// are shown, and whether warning blinks are wanted.
pub open spec fn spec_lyric_choice(lines: Seq<(usize, String)>, now: usize, notes_shown: bool, warnings: bool) -> LyricChoice {
    if now == 0 {
        LyricChoice::Clear
    } else {
        lyric_scan(lines, lines.len() as int, now, notes_shown, warnings)
    }
}

pub fn lyric_choice(lines: &Vec<(usize, String)>, now: usize, notes_shown: bool, warnings: bool) -> (res: LyricChoice)
    ensures
        res == spec_lyric_choice(lines@, now, notes_shown, warnings),
{
    if now == 0 {
        return LyricChoice::Clear;
    }
    let mut n = lines.len();
    while n > 0
        invariant
            n <= lines@.len(),
            now > 0,
            spec_lyric_choice(lines@, now, notes_shown, warnings) == lyric_scan(
                lines@,
                n as int,
                now,
                notes_shown,
                warnings,
            ),
        decreases n,
    {
        let ts = lines[n - 1].0;
        if now > ts {
            return LyricChoice::Line(n - 1);
        }
        if (ts < LYRIC_WARNING_MILLIS || ts - LYRIC_WARNING_MILLIS < now) && notes_shown && warnings {
            return LyricChoice::Blink;
        }
        n = n - 1;
    }
    LyricChoice::Notes
}

/// An item of the server tree of the connection window: where it goes (a
/// `/`-separated path), what it shows, the room it stands for, and whether
/// it is shown in bold (the server the player is connected to).
#[derive(Debug)]
pub struct TreeEntry {
    pub path: String,
    pub label: String,
    pub room: Option<u32>,
    pub bold: bool,
}

impl View for TreeEntry {
    type V = (Seq<char>, Seq<char>, Option<u32>, bool);

    open spec fn view(&self) -> (Seq<char>, Seq<char>, Option<u32>, bool) {
        (self.path@, self.label@, self.room, self.bold)
    }
}

/// The views of a list of tree items.
pub open spec fn entries_view(v: Seq<TreeEntry>) -> Seq<(Seq<char>, Seq<char>, Option<u32>, bool)> {
    v.map_values(|e: TreeEntry| e@)
}

/// The items for the users of a room under the room's path.
pub open spec fn user_entries(room_path: Seq<char>, users: Seq<String>) -> Seq<(Seq<char>, Seq<char>, Option<u32>, bool)> {
    users.map_values(|u: String| (room_path + "/"@ + u@, u@, None::<u32>, false))
}

/// The items for the rooms of a server: each room, labelled with its name
/// and number of users, then its users.
pub open spec fn room_entries(addr: Seq<char>, rooms: Seq<RoomListing>) -> Seq<(Seq<char>, Seq<char>, Option<u32>, bool)>
    decreases rooms.len(),
{
    if rooms.len() == 0 {
        Seq::empty()
    } else {
        let r = rooms[0];
        let path = addr + "/"@ + decimal(r.id as nat);
        seq![(path, r.name@ + " ("@ + decimal(r.user_names@.len()) + ")"@, Some(r.id), false)]
            + user_entries(path, r.user_names@) + room_entries(addr, rooms.drop_first())
    }
}

/// The items for a server: the server itself, labelled with its address,
/// then what is known of its rooms.
pub open spec fn server_entries(server: Server, status: Option<ServerStatus>, connected: Option<u128>) -> Seq<(Seq<char>, Seq<char>, Option<u32>, bool)> {
    seq![(server.name@, server.addr@, None::<u32>, connected == Some(server.id))] + match status {
        Some(ServerStatus::Error) => seq![(server.addr@ + "/"@ + "(unable to connect)"@, "(unable to connect)"@, None::<u32>, false)],
        Some(ServerStatus::Success { rooms }) => room_entries(server.addr@, rooms@),
        _ => seq![(server.addr@ + "/"@ + "(querying...)"@, "(querying...)"@, None::<u32>, false)],
    }
}

/// The items for a list of servers, in order.
pub open spec fn tree_entries(servers: Seq<Server>, statuses: Map<u128, ServerStatus>, connected: Option<u128>) -> Seq<(Seq<char>, Seq<char>, Option<u32>, bool)>
    decreases servers.len(),
{
    if servers.len() == 0 {
        Seq::empty()
    } else {
        let s = servers[0];
        server_entries(s, if statuses.contains_key(s.id) { Some(statuses[s.id]) } else { None }, connected)
            + tree_entries(servers.drop_first(), statuses, connected)
    }
}

fn joined(a: &String, sep: &str, b: &String) -> (res: String)
    ensures
        res@ == a@ + sep@ + b@,
{
    let mut out = a.clone();
    out.append(sep);
    out.append(b.as_str());
    out
}

fn push_room_entries(out: &mut Vec<TreeEntry>, addr: &String, rooms: &Vec<RoomListing>)
    ensures
        entries_view(final(out)@) == entries_view(old(out)@) + room_entries(addr@, rooms@),
{
    let mut i: usize = 0;
    assert(rooms@.skip(0) =~= rooms@);
    assert(entries_view(out@) =~= entries_view(old(out)@) + Seq::empty());
    while i < rooms.len()
        invariant
            i <= rooms@.len(),
            entries_view(out@) + room_entries(addr@, rooms@.skip(i as int)) == entries_view(old(out)@)
                + room_entries(addr@, rooms@),
        decreases rooms.len() - i,
    {
        let ghost before = entries_view(out@);
        let r = &rooms[i];
        assert(rooms@.skip(i as int).drop_first() =~= rooms@.skip(i + 1));
        assert(rooms@.skip(i as int)[0] == *r);
        let id_text = string_from_chars(decimal_chars(r.id as u64).as_slice());
        let path = joined(addr, "/", &id_text);
        let mut label = r.name.clone();
        label.append(" (");
        let count = string_from_chars(decimal_chars(r.user_names.len() as u64).as_slice());
        label.append(count.as_str());
        label.append(")");
        let ghost room_item = (path@, label@, Some(r.id), false);
        out.push(TreeEntry { path: path.clone(), label, room: Some(r.id), bold: false });
        assert(entries_view(out@) =~= before.push(room_item));
        let mut k: usize = 0;
        while k < r.user_names.len()
            invariant
                k <= r.user_names@.len(),
                entries_view(out@) == before.push(room_item) + user_entries(path@, r.user_names@.take(k as int)),
            decreases r.user_names.len() - k,
        {
            let ghost mid = entries_view(out@);
            let user = &r.user_names[k];
            let p = joined(&path, "/", user);
            out.push(TreeEntry { path: p, label: user.clone(), room: None, bold: false });
            assert(user_entries(path@, r.user_names@.take(k + 1)) =~= user_entries(path@, r.user_names@.take(k as int)).push(
                (path@ + "/"@ + user@, user@, None::<u32>, false),
            ));
            assert(entries_view(out@) =~= mid.push((path@ + "/"@ + user@, user@, None::<u32>, false)));
            k = k + 1;
        }
        assert(r.user_names@.take(r.user_names@.len() as int) =~= r.user_names@);
        assert(seq![room_item] + user_entries(path@, r.user_names@) + room_entries(addr@, rooms@.skip(i + 1))
            =~= seq![room_item] + (user_entries(path@, r.user_names@) + room_entries(addr@, rooms@.skip(i + 1))));
        assert(before.push(room_item) + user_entries(path@, r.user_names@) =~= before + (seq![room_item] + user_entries(path@, r.user_names@)));
        i = i + 1;
    }
    assert(rooms@.skip(i as int) =~= Seq::<RoomListing>::empty());
    assert(entries_view(out@) + Seq::empty() =~= entries_view(out@));
}

impl<T> State<T> {
    /// The items of the server tree of the connection window: every known
    /// server with what is known of its rooms and their users.
    pub fn server_tree(&self) -> (entries: Vec<TreeEntry>)
        ensures
            entries_view(entries@) == tree_entries(
                self.preferences.servers@,
                self.server_statuses@,
                match self.connection {
                    Some(c) => Some(c.server_id),
                    None => None,
                },
            ),
    {
        broadcast use vstd::std_specs::hash::group_hash_axioms;
        let connected: Option<u128> = match &self.connection {
            Some(c) => Some(c.server_id),
            None => None,
        };
        let servers = &self.preferences.servers;
        let mut out: Vec<TreeEntry> = Vec::new();
        let mut i: usize = 0;
        assert(servers@.skip(0) =~= servers@);
        assert(entries_view(out@) + tree_entries(servers@, self.server_statuses@, connected) =~= tree_entries(
            servers@,
            self.server_statuses@,
            connected,
        ));
        while i < servers.len()
            invariant
                i <= servers@.len(),
                entries_view(out@) + tree_entries(servers@.skip(i as int), self.server_statuses@, connected)
                    == tree_entries(servers@, self.server_statuses@, connected),
            decreases servers.len() - i,
        {
            let ghost before = entries_view(out@);
            let s = &servers[i];
            assert(servers@.skip(i as int).drop_first() =~= servers@.skip(i + 1));
            assert(servers@.skip(i as int)[0] == *s);
            out.push(
                TreeEntry { path: s.name.clone(), label: s.addr.clone(), room: None, bold: connected == Some(s.id) },
            );
            let ghost head = seq![(s.name@, s.addr@, None::<u32>, connected == Some(s.id))];
            assert(entries_view(out@) =~= before + head);
            let ghost status = if self.server_statuses@.contains_key(s.id) {
                Some(self.server_statuses@[s.id])
            } else {
                None
            };
            match self.server_statuses.get(&s.id) {
                Some(ServerStatus::Error) => {
                    let p = joined(&s.addr, "/", &"(unable to connect)".to_owned());
                    out.push(TreeEntry { path: p, label: "(unable to connect)".to_owned(), room: None, bold: false });
                },
                Some(ServerStatus::Success { rooms }) => {
                    push_room_entries(&mut out, &s.addr, rooms);
                },
                _ => {
                    let p = joined(&s.addr, "/", &"(querying...)".to_owned());
                    out.push(TreeEntry { path: p, label: "(querying...)".to_owned(), room: None, bold: false });
                },
            }
            assert(entries_view(out@) =~= before + server_entries(*s, status, connected));
            i = i + 1;
        }
        assert(servers@.skip(i as int) =~= Seq::<Server>::empty());
        assert(entries_view(out@) + Seq::empty() =~= entries_view(out@));
        out
    }
}

} // verus!
