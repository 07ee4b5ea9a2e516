use multiplayer::state::PlayStatusIcon;
use multiplayer::widgets::{
    buffer_bar_width, char_offset, icon_offset, menu_layout, LyricScroll, LyricTick, MarqueeTimer, VisualizerBars,
    EACH_DELAY, START_DELAY,
};

#[test]
fn the_title_waits_then_scrolls_every_few_ticks() {
    let mut t = MarqueeTimer::new();
    let mut waited = 0;
    while !t.waited_long_enough() {
        waited += 1;
    }
    assert_eq!(waited, START_DELAY);
    t.nudge(-4);
    let mut ticks = 0;
    while !t.waited_long_enough() {
        ticks += 1;
    }
    assert_eq!(ticks, EACH_DELAY + 1);
    assert_eq!(t.offset, -4);
}

#[test]
fn a_title_back_at_the_start_pauses_again() {
    let mut t = MarqueeTimer { offset: 0, start_timer: 0, each_timer: EACH_DELAY + 1 };
    assert!(!t.waited_long_enough());
    assert_eq!(t, MarqueeTimer { offset: 0, start_timer: 1, each_timer: 0 });
    t.nudge(-7);
    t.zero();
    assert_eq!((t.offset, t.start_timer), (0, 0));
}

#[test]
fn title_copies_are_drawn_a_gap_apart() {
    let mut t = MarqueeTimer { offset: -10, start_timer: 0, each_timer: 0 };
    assert_eq!(t.draw_positions(100, 80), (-10, 172));
    assert_eq!(t.offset, -10);
    let mut fits = MarqueeTimer { offset: -10, start_timer: 0, each_timer: 0 };
    assert_eq!(fits.draw_positions(50, 80), (0, 80));
    assert_eq!(fits.offset, 0);
    let mut gone = MarqueeTimer { offset: -182, start_timer: 0, each_timer: 0 };
    assert_eq!(gone.draw_positions(100, 80), (-182, 0));
    assert_eq!(gone.offset, 0);
}

#[test]
fn visualizer_bars_rise_by_averaging_and_fall_slowly() {
    let mut v = VisualizerBars::new();
    let mut target = [0u8; 14];
    target[0] = 20;
    target[1] = 5;
    v.update_values(target);
    assert_eq!(v.values[0], (5 + 0 + 20) / 3);
    assert_eq!(v.values[1], 5);
    assert_eq!(v.values[2], 5);
    assert!(v.timing);
    assert_eq!(v.prev_vals, [5; 14]);
    v.update_values([0; 14]);
    assert_eq!(v.values[0], 7);
    assert_eq!(v.values[2], 4);
    v.values[3] = 1;
    v.update_values([0; 14]);
    assert_eq!(v.values[3], 0);
    assert_eq!(v.values[2], 4);
}

#[test]
fn bitrate_font_glyphs() {
    assert_eq!(char_offset('0'), (0, 7));
    assert_eq!(char_offset('1'), (7, 4));
    assert_eq!(char_offset('9'), (61, 6));
    assert_eq!(char_offset('k'), (68, 19));
    assert_eq!(char_offset('x'), (0, 0));
}

#[test]
fn buffer_gauge_width() {
    assert_eq!(buffer_bar_width(0), None);
    assert_eq!(buffer_bar_width(1), Some(5));
    assert_eq!(buffer_bar_width(5), Some(25));
    assert_eq!(buffer_bar_width(6), Some(30));
    assert_eq!(buffer_bar_width(255), Some(30));
}

#[test]
fn play_status_icons_in_the_strip() {
    assert_eq!(icon_offset(PlayStatusIcon::PlayTx), 0);
    assert_eq!(icon_offset(PlayStatusIcon::PlayRx), 16);
    assert_eq!(icon_offset(PlayStatusIcon::Pause), 32);
    assert_eq!(icon_offset(PlayStatusIcon::Stop), 48);
}

#[test]
fn context_menu_layout() {
    let l = menu_layout(&[40, 90, 30, 20], &[false, true, true, false]);
    assert_eq!(l.item_left, 2);
    assert_eq!(l.item_tops, vec![2, 22, 47, 72]);
    assert_eq!(l.item_width, 96);
    assert_eq!(l.window_width, 101);
    assert_eq!(l.window_height, 4 * 20 + 2 * 5 + 5);
    let narrow = menu_layout(&[10], &[false]);
    assert_eq!(narrow.item_width, 66);
    let empty = menu_layout(&[], &[]);
    assert_eq!((empty.item_tops.len(), empty.window_height), (0, 5));
}

#[test]
fn lyric_lines_scroll_after_a_delay() {
    let mut s = LyricScroll { width: 0, tick: 0, speed: 0, blinking: true, offset: 0 };
    s.new_line(200);
    assert_eq!(s, LyricScroll { width: 200, tick: 0, speed: 10, blinking: false, offset: 0 });
    let mut scrolled_at = Vec::new();
    for i in 1..=21 {
        if s.tick(150) == LyricTick::Scrolled {
            scrolled_at.push(i);
        }
    }
    assert_eq!(scrolled_at, vec![15, 18, 21]);
    assert_eq!(s.offset, 30);
    for _ in 0..100 {
        s.tick(150);
    }
    assert_eq!(s.offset, 50);
    assert_eq!(s.tick(300), LyricTick::Nothing);
}

#[test]
fn blinking_toggles_every_other_tick() {
    let mut s = LyricScroll { width: 10, tick: 0, speed: 10, blinking: false, offset: 0 };
    s.blink();
    assert_eq!(s.tick(100), LyricTick::ToggleBlink);
    assert_eq!(s.tick(100), LyricTick::Nothing);
    assert_eq!(s.tick(100), LyricTick::ToggleBlink);
}
