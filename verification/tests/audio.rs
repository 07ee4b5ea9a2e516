use multiplayer::audio::{
    accepts_frame, buffer_status, is_ready, seconds_elapsed, underrun_fill, AudioAction, AudioControl, AudioEvent,
    AudioStatus, PlayerView, QUARTER_SECOND_SAMPLES, READY_SAMPLES,
};
use multiplayer::transmit::{samples_needed, TransmitAction, TransmitControl, TransmitEvent};

fn view(buffer_len: usize, started: bool, last_frame: Option<u32>) -> PlayerView {
    PlayerView { buffer_len, started, last_frame }
}

#[test]
fn buffer_gauge_levels() {
    let q = QUARTER_SECOND_SAMPLES;
    assert_eq!(buffer_status(0), 0);
    assert_eq!(buffer_status(q - 1), 0);
    assert_eq!(buffer_status(q), 1);
    assert_eq!(buffer_status(3 * q - 1), 1);
    assert_eq!(buffer_status(3 * q), 2);
    assert_eq!(buffer_status(5 * q), 3);
    assert_eq!(buffer_status(7 * q), 4);
    assert_eq!(buffer_status(13 * q), 5);
    assert_eq!(buffer_status(20 * q), 6);
    assert_eq!(buffer_status(25 * q), 7);
    assert_eq!(buffer_status(usize::MAX), 7);
}

#[test]
fn readiness_and_room_for_frames() {
    assert!(!is_ready(READY_SAMPLES));
    assert!(is_ready(READY_SAMPLES + 1));
    assert!(accepts_frame(9, 10));
    assert!(!accepts_frame(10, 10));
    assert_eq!(underrun_fill(100, 30), 70);
    assert_eq!(underrun_fill(30, 100), 0);
}

#[test]
fn elapsed_seconds_discount_the_buffered_second() {
    assert_eq!(seconds_elapsed(None), 0);
    assert_eq!(seconds_elapsed(Some(100)), 0);
    assert_eq!(seconds_elapsed(Some(200)), 1);
    assert_eq!(seconds_elapsed(Some(299)), 1);
    assert_eq!(seconds_elapsed(Some(300)), 2);
    assert_eq!(seconds_elapsed(Some(6100)), 60);
}

#[test]
fn frames_are_received_and_progress_reported_every_tenth() {
    let mut c = AudioControl::new();
    let acts = c.on_event(AudioEvent::Frame(20), view(5 * QUARTER_SECOND_SAMPLES, true, Some(300)));
    assert!(matches!(
        acts.as_slice(),
        [AudioAction::Report(AudioStatus::Elapsed(2)), AudioAction::Report(AudioStatus::Buffer(3)), AudioAction::Receive, AudioAction::Visualize]
    ));
    let acts = c.on_event(AudioEvent::Frame(21), view(0, true, Some(300)));
    assert!(matches!(acts.as_slice(), [AudioAction::Receive, AudioAction::Visualize]));
}

#[test]
fn a_track_starts_once_enough_is_buffered() {
    let mut c = AudioControl::new();
    let acts = c.on_event(AudioEvent::Start, view(0, false, None));
    assert!(matches!(acts.as_slice(), [AudioAction::StopFinishTimer, AudioAction::Report(AudioStatus::Buffering(true))]));
    assert!(c.wants_play);
    assert!(c.maybe_play(false, false).is_empty());
    let acts = c.maybe_play(true, false);
    assert!(matches!(acts.as_slice(), [AudioAction::Report(AudioStatus::Buffering(false)), AudioAction::StartOutput]));
    assert!(!c.wants_play);
    assert!(c.maybe_play(true, true).is_empty());
}

#[test]
fn a_new_track_while_playing_pauses_output_to_buffer() {
    let mut c = AudioControl::new();
    let acts = c.on_event(AudioEvent::Start, view(10, true, None));
    assert!(matches!(acts.as_slice(), [AudioAction::StopFinishTimer, AudioAction::Report(AudioStatus::Buffering(true)), AudioAction::PauseOutput]));
    let acts = c.maybe_play(true, true);
    assert!(matches!(acts.as_slice(), [_, AudioAction::ResumeOutput]));
}

#[test]
fn paused_playback_stays_silent_until_resumed() {
    let mut c = AudioControl::new();
    c.on_event(AudioEvent::Start, view(0, false, None));
    let acts = c.on_event(AudioEvent::Pause(true), view(0, true, None));
    assert!(matches!(acts.as_slice(), [AudioAction::PauseOutput]));
    assert!(c.maybe_play(true, true).is_empty());
    c.on_event(AudioEvent::Pause(false), view(0, true, None));
    assert!(matches!(c.maybe_play(true, true).as_slice(), [_, AudioAction::ResumeOutput]));
}

#[test]
fn clearing_and_volume() {
    let mut c = AudioControl::new();
    let acts = c.on_event(AudioEvent::Clear, view(10, true, Some(5)));
    assert!(matches!(acts.as_slice(), [AudioAction::Report(AudioStatus::Elapsed(0)), AudioAction::ClearBuffer, AudioAction::PauseOutput]));
    let acts = c.on_event(AudioEvent::Volume, view(10, true, Some(5)));
    assert!(matches!(acts.as_slice(), [AudioAction::SetVolume]));
}

#[test]
fn the_finish_timer_drains_the_buffer() {
    let mut c = AudioControl::new();
    let acts = c.on_event(AudioEvent::Finish, view(10, true, Some(5)));
    assert!(matches!(acts.as_slice(), [AudioAction::StartFinishTimer]));
    assert!(c.finishing);
    let acts = c.on_finish_tick(view(10, true, Some(299)));
    assert!(matches!(acts.as_slice(), [AudioAction::AdvanceFrame, AudioAction::Report(AudioStatus::Elapsed(2)), AudioAction::Report(AudioStatus::Buffer(0))]));
    assert!(c.finishing);
    let acts = c.on_finish_tick(view(0, true, Some(300)));
    assert!(matches!(
        acts.as_slice(),
        [AudioAction::AdvanceFrame, _, _, AudioAction::StopFinishTimer, AudioAction::PauseOutput, AudioAction::Report(AudioStatus::Finished)]
    ));
    assert!(!c.finishing);
}

#[test]
fn the_transmitter_obeys_commands_and_ticks() {
    let mut t = TransmitControl::new();
    assert_eq!(t.handle_tick(false), vec![TransmitAction::SendFrame]);
    assert_eq!(t.handle_tick(true), vec![TransmitAction::SendFinish, TransmitAction::Exit]);
    assert!(t.handle_command(TransmitEvent::PauseState(true)).is_empty());
    assert!(t.handle_tick(false).is_empty());
    assert_eq!(t.handle_command(TransmitEvent::SeekTo), vec![TransmitAction::Seek]);
    assert!(t.paused);
    t.handle_command(TransmitEvent::PauseState(false));
    assert_eq!(t.handle_command(TransmitEvent::Stop), vec![TransmitAction::Exit]);
    assert!(t.paused);
}

#[test]
fn samples_needed_for_a_frame() {
    assert_eq!(samples_needed(48000, 1234), 480);
    assert_eq!(samples_needed(44100, 1234), 1234);
}
