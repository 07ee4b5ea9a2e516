//! Playback on the player: how full the buffer is, how much of the track
//! has been heard, and when to start, pause and finish playing. The audio
//! task owns the sample buffer and the output device; it reports what it
//! observes and performs the actions decided here.

use vstd::prelude::*;

verus! {

/// Samples per second and channel.
pub const SAMPLE_RATE: u32 = 48000;
/// Samples per channel in one frame.
pub const FRAME_SAMPLES: u32 = 480;
/// Samples (both channels) in a quarter of a second.
pub const QUARTER_SECOND_SAMPLES: usize = 12000;
/// Samples (both channels) in one second of stereo.
pub const READY_SAMPLES: usize = 96000;

/// Status reports of the audio task.
#[derive(Debug, Clone, Copy)]
pub enum AudioStatus {
    Elapsed(u32),
    Buffering(bool),
    Finished,
    Visualizer([u8; 14]),
    Buffer(u8),
}

/// Level of the buffer gauge (0 to 7) for a buffer of `len` samples,
/// counted in quarter seconds: empty, up to half a second, up to one
/// second, up to one and a half, up to three, up to four and three
/// quarters, up to six, beyond.
pub open spec fn spec_buffer_status(len: usize) -> u8 {
    let q = len / QUARTER_SECOND_SAMPLES;
    if q == 0 {
        0
    } else if q <= 2 {
        1
    } else if q <= 4 {
        2
    } else if q <= 6 {
        3
    } else if q <= 12 {
        4
    } else if q <= 19 {
        5
    } else if q <= 24 {
        6
    } else {
        7
    }
}

pub fn buffer_status(len: usize) -> (r: u8)
    ensures
        r == spec_buffer_status(len),
{
    let q = len / QUARTER_SECOND_SAMPLES;
    if q == 0 {
        0
    } else if q <= 2 {
        1
    } else if q <= 4 {
        2
    } else if q <= 6 {
        3
    } else if q <= 12 {
        4
    } else if q <= 19 {
        5
    } else if q <= 24 {
        6
    } else {
        7
    }
}

/// Playback may start once more than a second of stereo is buffered.
pub fn is_ready(len: usize) -> (r: bool)
    ensures
        r == (len > READY_SAMPLES),
{
    len > READY_SAMPLES
}

/// Whole seconds heard: the samples of the frames received, less the one
/// second that is kept in the buffer.
pub open spec fn spec_seconds_elapsed(last_frame: Option<u32>) -> u32 {
    let frames: int = match last_frame {
        Some(f) => f as int,
        None => 0,
    };
    let samples = frames * FRAME_SAMPLES;
    let current = if samples > SAMPLE_RATE {
        samples - SAMPLE_RATE
    } else {
        0
    };
    (current / SAMPLE_RATE as int) as u32
}

pub fn seconds_elapsed(last_frame: Option<u32>) -> (r: u32)
    requires
        last_frame matches Some(f) ==> f * FRAME_SAMPLES <= u32::MAX,
    ensures
        r == spec_seconds_elapsed(last_frame),
{
    let frames: u32 = match last_frame {
        Some(f) => f,
        None => 0,
    };
    let samples = frames * FRAME_SAMPLES;
    let current = samples.saturating_sub(SAMPLE_RATE);
    current / SAMPLE_RATE
}

/// A decoded frame is kept only while the buffer holds fewer samples than
/// it has room for.
pub fn accepts_frame(len: usize, free_len: usize) -> (r: bool)
    ensures
        r == (len < free_len),
{
    len < free_len
}

/// Samples of silence to add before the output takes `wanted` samples from
/// a buffer of `len`.
pub fn underrun_fill(wanted: usize, len: usize) -> (r: usize)
    ensures
        r == if wanted > len {
            wanted - len
        } else {
            0
        },
{
    wanted.saturating_sub(len)
}

/// What the audio task receives, without the payloads that only it handles.
#[derive(Debug, Clone, Copy, PartialEq, Eq, Structural)]
pub enum AudioEvent {
    /// An audio frame with this sequence number.
    Frame(u32),
    /// A track starts.
    Start,
    /// The track's last frame has been received.
    Finish,
    /// Playback was stopped or moved: drop what is buffered.
    Clear,
    /// The volume changed.
    Volume,
    /// Pause or resume.
    Pause(bool),
}

/// What the player reports of itself.
#[derive(Debug, Clone, Copy, PartialEq, Eq, Structural)]
pub struct PlayerView {
    pub buffer_len: usize,
    pub started: bool,
    pub last_frame: Option<u32>,
}

/// What the audio task has to do.
#[derive(Debug, Clone, Copy)]
pub enum AudioAction {
    Report(AudioStatus),
    /// Decode the frame and buffer its samples.
    Receive,
    /// Compute and report the visualizer bars from the buffer, if it holds
    /// enough samples.
    Visualize,
    /// Open the output stream and play.
    StartOutput,
    ResumeOutput,
    PauseOutput,
    /// Drop the buffered samples and forget the last frame.
    ClearBuffer,
    SetVolume,
    /// Start ticking at the frame rate until the buffer runs empty.
    StartFinishTimer,
    StopFinishTimer,
    /// Count one more frame as received.
    AdvanceFrame,
}

/// The decision state of the audio task.
#[derive(Debug, Clone, Copy, PartialEq, Eq, Structural)]
pub struct AudioControl {
    pub wants_play: bool,
    pub paused: bool,
    pub finishing: bool,
}

/// Elapsed-time and buffer reports for the player as it is.
pub open spec fn progress_reports(p: PlayerView) -> Seq<AudioAction> {
    seq![
        AudioAction::Report(AudioStatus::Elapsed(spec_seconds_elapsed(p.last_frame))),
        AudioAction::Report(AudioStatus::Buffer(spec_buffer_status(p.buffer_len))),
    ]
}

/// Frames may be counted in samples without overflow.
pub open spec fn frame_count_fits(p: PlayerView) -> bool {
    p.last_frame matches Some(f) ==> f * FRAME_SAMPLES <= u32::MAX
}

/// The new control state and actions for an event.
pub open spec fn spec_on_event(c: AudioControl, ev: AudioEvent, p: PlayerView) -> (AudioControl, Seq<AudioAction>) {
    match ev {
        AudioEvent::Frame(index) => {
            let reports = if index % 10 == 0 {
                progress_reports(p)
            } else {
                seq![]
            };
            (c, reports + seq![AudioAction::Receive, AudioAction::Visualize])
        },
        AudioEvent::Start => {
            let c2 = AudioControl { wants_play: true, finishing: false, ..c };
            let ready = p.buffer_len > READY_SAMPLES;
            let acts = if ready {
                seq![AudioAction::StopFinishTimer]
            } else if p.started {
                seq![
                    AudioAction::StopFinishTimer,
                    AudioAction::Report(AudioStatus::Buffering(true)),
                    AudioAction::PauseOutput,
                ]
            } else {
                seq![AudioAction::StopFinishTimer, AudioAction::Report(AudioStatus::Buffering(true))]
            };
            (c2, acts)
        },
        AudioEvent::Finish => (
            AudioControl { finishing: true, ..c },
            seq![AudioAction::StartFinishTimer],
        ),
        AudioEvent::Clear => (
            c,
            seq![
                AudioAction::Report(AudioStatus::Elapsed(0)),
                AudioAction::ClearBuffer,
                AudioAction::PauseOutput,
            ],
        ),
        AudioEvent::Volume => (c, seq![AudioAction::SetVolume]),
        AudioEvent::Pause(paused) => if paused {
            (
                AudioControl { paused: true, ..c },
                if p.started {
                    seq![AudioAction::PauseOutput]
                } else {
                    seq![]
                },
            )
        } else {
            (AudioControl { paused: false, wants_play: true, ..c }, seq![])
        },
    }
}

/// After each command: if playback is wanted, not paused, and enough is
/// buffered, it starts (or resumes).
pub open spec fn spec_maybe_play(c: AudioControl, ready: bool, started: bool) -> (AudioControl, Seq<AudioAction>) {
    if ready && c.wants_play && !c.paused {
        (
            AudioControl { wants_play: false, ..c },
            seq![
                AudioAction::Report(AudioStatus::Buffering(false)),
                if started {
                    AudioAction::ResumeOutput
                } else {
                    AudioAction::StartOutput
                },
            ],
        )
    } else {
        (c, seq![])
    }
}

/// A tick of the finish timer: one more frame counts as played, progress is
/// reported, and once the buffer is empty the track is over.
pub open spec fn spec_on_finish_tick(c: AudioControl, p: PlayerView) -> (AudioControl, Seq<AudioAction>) {
    let advanced = PlayerView {
        last_frame: match p.last_frame {
            Some(f) => Some((f + 1) as u32),
            None => None,
        },
        ..p
    };
    let acts = seq![AudioAction::AdvanceFrame] + progress_reports(advanced);
    if p.buffer_len == 0 {
        (
            AudioControl { finishing: false, ..c },
            acts + seq![
                AudioAction::StopFinishTimer,
                AudioAction::PauseOutput,
                AudioAction::Report(AudioStatus::Finished),
            ],
        )
    } else {
        (c, acts)
    }
}

/// A track that starts while more than `READY_SAMPLES` samples are buffered
/// just keeps playing: the finish timer stops and nothing else happens. With
/// no more than that buffered, buffering is reported, and output that is
/// running is paused until enough has arrived. Either way playback is
/// wanted and the track is no longer finishing.
pub proof fn law_start_buffers_only_when_short(c: AudioControl, p: PlayerView)
    ensures
        p.buffer_len > READY_SAMPLES ==> spec_on_event(c, AudioEvent::Start, p).1 == seq![
            AudioAction::StopFinishTimer,
        ],
        spec_on_event(c, AudioEvent::Start, p).1.contains(AudioAction::Report(AudioStatus::Buffering(true)))
            <==> p.buffer_len <= READY_SAMPLES,
        spec_on_event(c, AudioEvent::Start, p).1.contains(AudioAction::PauseOutput) <==> (p.buffer_len
            <= READY_SAMPLES && p.started),
        spec_on_event(c, AudioEvent::Start, p).1[0] == AudioAction::StopFinishTimer,
        spec_on_event(c, AudioEvent::Start, p).0 == (AudioControl { wants_play: true, finishing: false, ..c }),
{
    let acts = spec_on_event(c, AudioEvent::Start, p).1;
    let buffering = AudioAction::Report(AudioStatus::Buffering(true));
    if p.buffer_len <= READY_SAMPLES {
        assert(acts[1] == buffering);
        if p.started {
            assert(acts[2] == AudioAction::PauseOutput);
        } else {
            assert(acts.len() == 2);
            assert(!acts.contains(AudioAction::PauseOutput)) by {
                if acts.contains(AudioAction::PauseOutput) {
                    let i = choose|i: int| 0 <= i < acts.len() && acts[i] == AudioAction::PauseOutput;
                    assert(i == 0 || i == 1);
                }
            }
        }
    } else {
        assert(acts.len() == 1);
        assert(!acts.contains(buffering)) by {
            if acts.contains(buffering) {
                let i = choose|i: int| 0 <= i < acts.len() && acts[i] == buffering;
                assert(i == 0);
            }
        }
        assert(!acts.contains(AudioAction::PauseOutput)) by {
            if acts.contains(AudioAction::PauseOutput) {
                let i = choose|i: int| 0 <= i < acts.len() && acts[i] == AudioAction::PauseOutput;
                assert(i == 0);
            }
        }
    }
}

impl AudioControl {
    pub fn new() -> (c: AudioControl)
        ensures
            c == (AudioControl { wants_play: false, paused: false, finishing: false }),
    {
        AudioControl { wants_play: false, paused: false, finishing: false }
    }

    fn progress(p: PlayerView) -> (acts: Vec<AudioAction>)
        requires
            frame_count_fits(p),
        ensures
            acts@ == progress_reports(p),
    {
        let mut acts: Vec<AudioAction> = Vec::new();
        acts.push(AudioAction::Report(AudioStatus::Elapsed(seconds_elapsed(p.last_frame))));
        acts.push(AudioAction::Report(AudioStatus::Buffer(buffer_status(p.buffer_len))));
        assert(acts@ =~= progress_reports(p));
        acts
    }

    /// Handles a command; see `spec_on_event`. `Clear` pauses the output
    /// stream, so it is only handled once that stream has been started.
    pub fn on_event(&mut self, ev: AudioEvent, p: PlayerView) -> (acts: Vec<AudioAction>)
        requires
            frame_count_fits(p),
            ev is Clear ==> p.started,
        ensures
            (*final(self), acts@) == spec_on_event(*old(self), ev, p),
            ev is Start && p.buffer_len > READY_SAMPLES ==> acts@ == seq![AudioAction::StopFinishTimer],
    {
        let mut acts: Vec<AudioAction> = Vec::new();
        match ev {
            AudioEvent::Frame(index) => {
                if index % 10 == 0 {
                    acts = Self::progress(p);
                }
                acts.push(AudioAction::Receive);
                acts.push(AudioAction::Visualize);
                proof {
                    let reports = if index % 10 == 0 {
                        progress_reports(p)
                    } else {
                        seq![]
                    };
                    assert(acts@ =~= reports + seq![AudioAction::Receive, AudioAction::Visualize]);
                }
            },
            AudioEvent::Start => {
                self.wants_play = true;
                self.finishing = false;
                acts.push(AudioAction::StopFinishTimer);
                if !is_ready(p.buffer_len) {
                    acts.push(AudioAction::Report(AudioStatus::Buffering(true)));
                    if p.started {
                        acts.push(AudioAction::PauseOutput);
                    }
                }
                proof {
                    let ready = p.buffer_len > READY_SAMPLES;
                    assert(acts@ =~= if ready {
                        seq![AudioAction::StopFinishTimer]
                    } else if p.started {
                        seq![
                            AudioAction::StopFinishTimer,
                            AudioAction::Report(AudioStatus::Buffering(true)),
                            AudioAction::PauseOutput,
                        ]
                    } else {
                        seq![AudioAction::StopFinishTimer, AudioAction::Report(AudioStatus::Buffering(true))]
                    });
                }
            },
            AudioEvent::Finish => {
                self.finishing = true;
                acts.push(AudioAction::StartFinishTimer);
                assert(acts@ =~= seq![AudioAction::StartFinishTimer]);
            },
            AudioEvent::Clear => {
                acts.push(AudioAction::Report(AudioStatus::Elapsed(0)));
                acts.push(AudioAction::ClearBuffer);
                acts.push(AudioAction::PauseOutput);
                assert(acts@ =~= seq![
                    AudioAction::Report(AudioStatus::Elapsed(0)),
                    AudioAction::ClearBuffer,
                    AudioAction::PauseOutput,
                ]);
            },
            AudioEvent::Volume => {
                acts.push(AudioAction::SetVolume);
                assert(acts@ =~= seq![AudioAction::SetVolume]);
            },
            AudioEvent::Pause(paused) => {
                self.paused = paused;
                if paused {
                    if p.started {
                        acts.push(AudioAction::PauseOutput);
                        assert(acts@ =~= seq![AudioAction::PauseOutput]);
                    }
                } else {
                    self.wants_play = true;
                }
            },
        }
        acts
    }

    /// Starts playback when it is wanted and possible; see `spec_maybe_play`.
    pub fn maybe_play(&mut self, ready: bool, started: bool) -> (acts: Vec<AudioAction>)
        ensures
            (*final(self), acts@) == spec_maybe_play(*old(self), ready, started),
    {
        let mut acts: Vec<AudioAction> = Vec::new();
        if ready && self.wants_play && !self.paused {
            self.wants_play = false;
            acts.push(AudioAction::Report(AudioStatus::Buffering(false)));
            if started {
                acts.push(AudioAction::ResumeOutput);
            } else {
                acts.push(AudioAction::StartOutput);
            }
            assert(acts@ =~= seq![
                AudioAction::Report(AudioStatus::Buffering(false)),
                if started {
                    AudioAction::ResumeOutput
                } else {
                    AudioAction::StartOutput
                },
            ]);
        }
        acts
    }

    /// A tick of the finish timer; see `spec_on_finish_tick`. The tick that
    /// empties the buffer pauses the output stream, which must have been
    /// started.
    pub fn on_finish_tick(&mut self, p: PlayerView) -> (acts: Vec<AudioAction>)
        requires
            p.last_frame matches Some(f) ==> (f + 1) * FRAME_SAMPLES <= u32::MAX,
            p.buffer_len == 0 ==> p.started,
        ensures
            (*final(self), acts@) == spec_on_finish_tick(*old(self), p),
    {
        let advanced = PlayerView {
            last_frame: match p.last_frame {
                Some(f) => Some(f + 1),
                None => None,
            },
            ..p
        };
        let mut acts: Vec<AudioAction> = Vec::new();
        acts.push(AudioAction::AdvanceFrame);
        let mut reports = Self::progress(advanced);
        acts.append(&mut reports);
        if p.buffer_len == 0 {
            self.finishing = false;
            acts.push(AudioAction::StopFinishTimer);
            acts.push(AudioAction::PauseOutput);
            acts.push(AudioAction::Report(AudioStatus::Finished));
        }
        proof {
            let base = seq![AudioAction::AdvanceFrame] + progress_reports(advanced);
            if p.buffer_len == 0 {
                assert(acts@ =~= base + seq![
                    AudioAction::StopFinishTimer,
                    AudioAction::PauseOutput,
                    AudioAction::Report(AudioStatus::Finished),
                ]);
            } else {
                assert(acts@ =~= base);
            }
        }
        acts
    }
}

/// Once `maybe_play` has started playback, it does not start it again until
/// a `Start` or an un-pause asks for it.
pub proof fn law_maybe_play_once(c: AudioControl, ready: bool, started: bool, ready2: bool, started2: bool)
    requires
        spec_maybe_play(c, ready, started).1.len() > 0,
    ensures
        spec_maybe_play(spec_maybe_play(c, ready, started).0, ready2, started2).1.len() == 0,
{
}

/// While paused, nothing starts playback.
pub proof fn law_paused_stays_silent(c: AudioControl, ready: bool, started: bool)
    requires
        c.paused,
    ensures
        spec_maybe_play(c, ready, started).1.len() == 0,
{
}

} // verus!
