//! The task that streams this player's track: it pauses, seeks and stops on
//! command, and on every tick sends the next frame or, at the end, the end
//! marker.

use vstd::prelude::*;

verus! {

/// Commands to the transmitting task, without the seek target that only the
/// task handles.
#[derive(Debug, Clone, Copy, PartialEq, Eq, Structural)]
pub enum TransmitEvent {
    Stop,
    PauseState(bool),
    SeekTo,
}

/// What the transmitting task has to do.
#[derive(Debug, Clone, Copy, PartialEq, Eq, Structural)]
pub enum TransmitAction {
    /// Leave the task's loop.
    Exit,
    /// Move the reader to the seek target.
    Seek,
    /// Send the end marker to the server and to this player.
    SendFinish,
    /// Encode the next frame and send it to the server and to this player.
    SendFrame,
}

/// The decision state of the transmitting task.
#[derive(Debug, Clone, Copy, PartialEq, Eq, Structural)]
pub struct TransmitControl {
    pub paused: bool,
}

impl TransmitControl {
    pub fn new() -> (c: TransmitControl)
        ensures
            !c.paused,
    {
        TransmitControl { paused: false }
    }

    /// A command: `Stop` ends the task and pauses it meanwhile, `PauseState`
    /// sets the pause flag, `SeekTo` moves the reader.
    pub fn handle_command(&mut self, ev: TransmitEvent) -> (acts: Vec<TransmitAction>)
        ensures
            match ev {
                TransmitEvent::Stop => final(self).paused && acts@ == seq![TransmitAction::Exit],
                TransmitEvent::PauseState(p) => final(self).paused == p && acts@.len() == 0,
                TransmitEvent::SeekTo => *final(self) == *old(self) && acts@ == seq![TransmitAction::Seek],
            },
    {
        let mut acts: Vec<TransmitAction> = Vec::new();
        match ev {
            TransmitEvent::Stop => {
                acts.push(TransmitAction::Exit);
                self.paused = true;
                assert(acts@ =~= seq![TransmitAction::Exit]);
            },
            TransmitEvent::PauseState(p) => {
                self.paused = p;
            },
            TransmitEvent::SeekTo => {
                acts.push(TransmitAction::Seek);
                assert(acts@ =~= seq![TransmitAction::Seek]);
            },
        }
        acts
    }

    /// A tick: nothing while paused; at the end of the track the end marker
    /// goes out and the task ends; otherwise the next frame goes out.
    pub fn handle_tick(&self, finished: bool) -> (acts: Vec<TransmitAction>)
        ensures
            acts@ == if self.paused {
                seq![]
            } else if finished {
                seq![TransmitAction::SendFinish, TransmitAction::Exit]
            } else {
                seq![TransmitAction::SendFrame]
            },
    {
        let mut acts: Vec<TransmitAction> = Vec::new();
        if self.paused {
            return acts;
        }
        if finished {
            acts.push(TransmitAction::SendFinish);
            acts.push(TransmitAction::Exit);
            assert(acts@ =~= seq![TransmitAction::SendFinish, TransmitAction::Exit]);
        } else {
            acts.push(TransmitAction::SendFrame);
            assert(acts@ =~= seq![TransmitAction::SendFrame]);
        }
        acts
    }
}

/// Samples per channel that the reader needs for the next frame: what the
/// resampler asks for, or one frame's worth when the track is already at
/// the output rate.
pub fn samples_needed(sample_rate: u32, resampler_wants: usize) -> (r: usize)
    ensures
        r == if sample_rate != 48000 {
            resampler_wants
        } else {
            480
        },
{
    if sample_rate != 48000 {
        resampler_wants
    } else {
        480
    }
}

} // verus!
