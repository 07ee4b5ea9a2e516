# multiplayer

A small networked music-sharing system: players connect to a server, meet in
rooms, queue tracks from their own disks and listen to them together while
the owner of the current track streams it to the room.

## Layout

- `src/` — the verified library (Verus). Every function states its behaviour
  in `requires`/`ensures` and is proved against it.
  - `protocol`, `network`: the messages and their length-delimited framing.
  - `room`, `lobby`, `registry`: the server's decisions — playback control,
    the queue, who is where, heartbeats. They return effects for the server's
    tasks to perform.
  - `client`, `state`, `status`, `display`, `player`: the player's side — the
    requests it waits for, what server messages change, its status lines and
    window texts, and what its buttons lead to.
  - `audio`, `transmit`: when playback starts, pauses and ends; the streaming
    task's commands.
  - `lrc`, `dnd`, `key`, `preferences`, `snap`, `widgets`, `text`: lyric
    timestamps, dropped files, path encryption and the key file, fresh
    settings, window snapping, widget arithmetic, character helpers.
- `tests/` — tests of the library on concrete values.
- `app/` — the server binary and the player's file and network input/output:
  serde copies of the message types, the socket codec, the tasks.

Floating-point values (durations, volume, seek targets) travel through the
library as the bits of the `f32` they encode.
