//! The status lines of the player's main window.

use vstd::prelude::*;
use vstd::string::StringExecFns;
use crate::protocol::PlaybackState;
use crate::room::user_ids;
use crate::state::{room_of, spec_current_track, Server, State};
use crate::text::{decimal, decimal_chars, decimal_padded, decimal_padded_chars, string_from_chars};

verus! {

/// Position of the first server with this id.
pub open spec fn server_position(servers: Seq<Server>, id: u128) -> Option<int>
    decreases servers.len(),
{
    if servers.len() == 0 {
        None
    } else if servers[0].id == id {
        Some(0)
    } else {
        match server_position(servers.drop_first(), id) {
            Some(i) => Some(i + 1),
            None => None,
        }
    }
}

proof fn lemma_server_position(servers: Seq<Server>, id: u128)
    ensures
        match server_position(servers, id) {
            Some(i) => 0 <= i < servers.len() && servers[i].id == id && forall|j: int|
                0 <= j < i ==> (#[trigger] servers[j]).id != id,
            None => forall|j: int| 0 <= j < servers.len() ==> (#[trigger] servers[j]).id != id,
        },
    decreases servers.len(),
{
    if servers.len() > 0 {
        lemma_server_position(servers.drop_first(), id);
        if servers[0].id != id {
            assert forall|j: int| 1 <= j < servers.len() implies servers[j] == servers.drop_first()[j
                - 1] by {}
        }
    }
}

/// The name of the server with this id, `?` when it is not known.
pub open spec fn server_name_or_unknown(servers: Seq<Server>, id: u128) -> Seq<char> {
    match server_position(servers, id) {
        Some(i) => servers[i].name@,
        None => "?"@,
    }
}

/// The name of the user with this id, `?` when it is not in the room.
pub open spec fn user_name_or_unknown(users: Seq<(String, String)>, id: Seq<char>) -> Seq<char> {
    match user_ids(users).index_of_first(id) {
        Some(i) => users[i].1@,
        None => "?"@,
    }
}

/// The main status line: loading files, buffering, what is playing and from
/// whom, or where the player is connected.
pub open spec fn spec_status<T>(s: State<T>) -> Seq<char> {
    match s.connection {
        None => "<not connected>"@,
        Some(c) => if s.loading_count > 0 {
            if s.loading_count == 1 {
                "Loading 1 file..."@
            } else {
                "Loading "@ + decimal(s.loading_count as nat) + " files..."@
            }
        } else {
            let server_name = server_name_or_unknown(s.preferences.servers@, c.server_id);
            match c.room {
                Some(r) => if r.buffering {
                    "Buffering..."@
                } else if r.playback_state != PlaybackState::Stopped && spec_current_track(r) is Some {
                    let t = spec_current_track(r)->0;
                    let verb = if r.playback_state == PlaybackState::Playing {
                        "Playing"@
                    } else {
                        "Paused"@
                    };
                    if t.owner@ == s.my_id@ {
                        verb + " (transmitting)"@
                    } else {
                        verb + " (receiving from "@ + user_name_or_unknown(r.connected_users@, t.owner@)
                            + ")"@
                    }
                } else {
                    "Connected to "@ + server_name + ":"@ + r.name@
                },
                None => "Connected to "@ + server_name,
            }
        },
    }
}

fn server_name_of(servers: &Vec<Server>, id: u128) -> (res: String)
    ensures
        res@ == server_name_or_unknown(servers@, id),
{
    proof {
        lemma_server_position(servers@, id);
    }
    let mut i: usize = 0;
    while i < servers.len()
        invariant
            i <= servers@.len(),
            forall|j: int| 0 <= j < i ==> (#[trigger] servers@[j]).id != id,
            match server_position(servers@, id) {
                Some(k) => 0 <= k < servers@.len() && servers@[k].id == id && forall|j: int|
                    0 <= j < k ==> (#[trigger] servers@[j]).id != id,
                None => forall|j: int| 0 <= j < servers@.len() ==> (#[trigger] servers@[j]).id != id,
            },
        decreases servers.len() - i,
    {
        if servers[i].id == id {
            proof {
                if let Some(k) = server_position(servers@, id) {
                    assert(!(k < i));
                    assert(!(i < k));
                }
            }
            return servers[i].name.clone();
        }
        i = i + 1;
    }
    "?".to_owned()
}

pub(crate) fn user_name_of(users: &Vec<(String, String)>, id: &String) -> (res: String)
    ensures
        res@ == user_name_or_unknown(users@, id@),
{
    let ghost ids = user_ids(users@);
    proof {
        ids.index_of_first_ensures(id@);
    }
    let mut i: usize = 0;
    while i < users.len()
        invariant
            i <= users@.len(),
            ids == user_ids(users@),
            forall|j: int| 0 <= j < i ==> ids[j] != id@,
            match ids.index_of_first(id@) {
                Some(index) => {
                    &&& 0 <= index < ids.len()
                    &&& ids[index] == id@
                    &&& forall|j: int| 0 <= j < index ==> ids[j] != id@
                },
                None => !ids.contains(id@),
            },
        decreases users.len() - i,
    {
        if users[i].0 == *id {
            assert(ids[i as int] == id@);
            let ghost k = ids.index_of_first(id@)->0;
            assert(!(k < i));
            assert(!(i < k));
            return users[i].1.clone();
        }
        i = i + 1;
    }
    proof {
        if ids.contains(id@) {
            let j = choose|j: int| 0 <= j < ids.len() && ids[j] == id@;
            assert(ids[j] != id@);
        }
    }
    "?".to_owned()
}

impl<T> State<T> {
    /// The main status line.
    pub fn status(&self) -> (res: String)
        ensures
            res@ == spec_status(*self),
    {
        match &self.connection {
            None => "<not connected>".to_owned(),
            Some(c) => {
                if self.loading_count > 0 {
                    if self.loading_count == 1 {
                        return "Loading 1 file...".to_owned();
                    } else {
                        let mut out = "Loading ".to_owned();
                        let digits = string_from_chars(decimal_chars(self.loading_count as u64).as_slice());
                        out.append(digits.as_str());
                        out.append(" files...");
                        return out;
                    }
                }
                let server_name = server_name_of(&self.preferences.servers, c.server_id);
                match &c.room {
                    Some(r) => {
                        if r.buffering {
                            return "Buffering...".to_owned();
                        }
                        if r.playback_state != PlaybackState::Stopped {
                            match r.current_track() {
                                Some(t) => {
                                    let mut out = if r.playback_state == PlaybackState::Playing {
                                        "Playing".to_owned()
                                    } else {
                                        "Paused".to_owned()
                                    };
                                    if t.owner == self.my_id {
                                        out.append(" (transmitting)");
                                    } else {
                                        let name = user_name_of(&r.connected_users, &t.owner);
                                        out.append(" (receiving from ");
                                        out.append(name.as_str());
                                        out.append(")");
                                    }
                                    return out;
                                },
                                None => {},
                            }
                        }
                        let mut out = "Connected to ".to_owned();
                        out.append(server_name.as_str());
                        out.append(":");
                        out.append(r.name.as_str());
                        out
                    },
                    None => {
                        let mut out = "Connected to ".to_owned();
                        out.append(server_name.as_str());
                        out
                    },
                }
            },
        }
    }

    /// Number of users in the room and of tracks in its queue; zero when not
    /// in a room.
    pub fn room_counts(&self) -> (res: (usize, usize))
        ensures
            res == match room_of(*self) {
                Some(r) => (r.connected_users@.len() as usize, r.queue@.len() as usize),
                None => (0usize, 0usize),
            },
    {
        match self.room() {
            Some(r) => (r.connected_users.len(), r.queue.len()),
            None => (0, 0),
        }
    }
}

/// `mm:ss` for a whole number of seconds, each part at least two digits.
pub open spec fn spec_min_secs(secs: u32) -> Seq<char> {
    decimal_padded((secs / 60) as nat, 2) + ":"@ + decimal_padded((secs % 60) as nat, 2)
}

/// Formats a whole number of seconds as `mm:ss`.
pub fn min_secs(secs: u32) -> (res: String)
    ensures
        res@ == spec_min_secs(secs),
{
    let mut out = string_from_chars(decimal_padded_chars((secs / 60) as u64, 2).as_slice());
    out.append(":");
    let s = string_from_chars(decimal_padded_chars((secs % 60) as u64, 2).as_slice());
    out.append(s.as_str());
    out
}

/// The right-hand status: the seek target while dragging the seek bar,
/// otherwise the number of users and queued tracks (`U03 Q12`).
pub open spec fn spec_right_status(seek_secs: Option<u32>, users: usize, queue: usize) -> Seq<char> {
    match seek_secs {
        Some(secs) => "["@ + spec_min_secs(secs) + "]"@,
        None => "U"@ + decimal_padded(users as nat, 2) + " Q"@ + decimal_padded(queue as nat, 2),
    }
}

pub fn right_status(seek_secs: Option<u32>, users: usize, queue: usize) -> (res: String)
    ensures
        res@ == spec_right_status(seek_secs, users, queue),
{
    match seek_secs {
        Some(secs) => {
            let mut out = "[".to_owned();
            let m = min_secs(secs);
            out.append(m.as_str());
            out.append("]");
            out
        },
        None => {
            let mut out = "U".to_owned();
            let u = string_from_chars(decimal_padded_chars(users as u64, 2).as_slice());
            out.append(u.as_str());
            out.append(" Q");
            let q = string_from_chars(decimal_padded_chars(queue as u64, 2).as_slice());
            out.append(q.as_str());
            out
        },
    }
}

} // verus!
