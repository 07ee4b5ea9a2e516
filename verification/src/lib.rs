//! Verified core of a small networked music-sharing application: the wire
//! protocol and its framing, the server's room and lobby rules, and the
//! player's state, playback control and widget arithmetic.

pub mod text;
pub mod lrc;
pub mod protocol;
pub mod room;
pub mod registry;
pub mod lobby;
pub mod network;
pub mod state;
pub mod status;
pub mod client;
pub mod audio;
pub mod transmit;
pub mod widgets;
pub mod snap;
pub mod dnd;
pub mod key;
pub mod preferences;
pub mod display;
pub mod player;
pub mod tags;
