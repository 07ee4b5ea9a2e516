//! The arithmetic of the player's custom widgets: the scrolling title, the
//! visualizer bars, the bitrate and buffer gauge, the play-status icon, the
//! scrolling lyric line and the context menu.

use vstd::prelude::*;
use crate::state::PlayStatusIcon;

verus! {

/// Ticks before the title starts scrolling.
pub const START_DELAY: usize = 25;
/// Ticks between two scroll steps.
pub const EACH_DELAY: usize = 4;

/// The scroll state of a title that is wider than its label.
#[derive(Debug, Clone, Copy, PartialEq, Eq, Structural)]
pub struct MarqueeTimer {
    pub offset: i32,
    pub start_timer: usize,
    pub each_timer: usize,
}

/// The timer after one tick, and whether the title should move now.
pub open spec fn spec_waited_long_enough(t: MarqueeTimer) -> (MarqueeTimer, bool) {
    if t.start_timer > 0 {
        if t.start_timer > START_DELAY {
            (MarqueeTimer { start_timer: 0, ..t }, true)
        } else {
            (MarqueeTimer { start_timer: (t.start_timer + 1) as usize, ..t }, false)
        }
    } else if t.each_timer > EACH_DELAY {
        if t.offset == 0 {
            (MarqueeTimer { start_timer: 1, each_timer: 0, ..t }, false)
        } else {
            (MarqueeTimer { each_timer: 0, ..t }, true)
        }
    } else {
        (MarqueeTimer { each_timer: (t.each_timer + 1) as usize, ..t }, false)
    }
}

impl MarqueeTimer {
    pub fn new() -> (t: MarqueeTimer)
        ensures
            t == (MarqueeTimer { offset: 0, start_timer: 1, each_timer: 0 }),
    {
        MarqueeTimer { offset: 0, start_timer: 1, each_timer: 0 }
    }

    /// Moves the title by `delta` pixels.
    pub fn nudge(&mut self, delta: i32)
        requires
            i32::MIN <= old(self).offset + delta <= i32::MAX,
        ensures
            *final(self) == (MarqueeTimer { offset: (old(self).offset + delta) as i32, ..*old(self) }),
    {
        self.offset = self.offset + delta;
    }

    /// Puts the title back at its start and starts counting at once.
    pub fn zero(&mut self)
        ensures
            *final(self) == (MarqueeTimer { offset: 0, start_timer: 0, ..*old(self) }),
    {
        self.offset = 0;
        self.start_timer = 0;
    }

    /// Counts one tick: after a pause at the start the title moves one step
    /// every few ticks; once it is back at the start it pauses again.
    pub fn waited_long_enough(&mut self) -> (r: bool)
        requires
            old(self).start_timer < usize::MAX,
            old(self).each_timer < usize::MAX,
        ensures
            (*final(self), r) == spec_waited_long_enough(*old(self)),
    {
        if self.start_timer > 0 {
            if self.start_timer > START_DELAY {
                self.start_timer = 0;
                true
            } else {
                self.start_timer = self.start_timer + 1;
                false
            }
        } else {
            if self.each_timer > EACH_DELAY {
                if self.offset == 0 {
                    self.start_timer = 1;
                    self.each_timer = 0;
                    false
                } else {
                    self.each_timer = 0;
                    true
                }
            } else {
                self.each_timer = self.each_timer + 1;
                false
            }
        }
    }

    /// Where the two copies of the title are drawn (relative to the label),
    /// for a text of `text_width` in a label of `width`. A text that fits
    /// does not scroll; a second copy follows the first after a gap, and
    /// once the first copy has scrolled out the offset wraps to zero.
    pub fn draw_positions(&mut self, text_width: i32, width: i32) -> (r: (i32, i32))
        requires
            0 <= text_width <= 0x1000_0000,
            0 <= width <= 0x1000_0000,
            -0x1000_0000 <= old(self).offset <= 0x1000_0000,
        ensures
            ({
                let gap: int = if text_width >= width {
                    text_width + 2
                } else {
                    0
                };
                let offset: int = if text_width >= width {
                    old(self).offset as int
                } else {
                    0
                };
                &&& r.0 == offset
                &&& r.1 == offset + width + gap
                &&& final(self).offset == (if offset + width + gap <= 0 {
                    0
                } else {
                    offset
                })
                &&& final(self).start_timer == old(self).start_timer
                &&& final(self).each_timer == old(self).each_timer
            }),
    {
        let gap = if text_width >= width {
            text_width + 2
        } else {
            self.offset = 0;
            0
        };
        let first = self.offset;
        let second = self.offset + width + gap;
        if self.offset + width + gap <= 0 {
            self.offset = 0;
        }
        (first, second)
    }
}

/// One visualizer bar after an update: a rising value moves to the average
/// of the shown value, the previous shown value and the new value; a
/// falling bar drops by one every other update, and a bar at one or zero
/// goes to zero.
pub open spec fn spec_bar(shown: u8, before: u8, new: u8, timing: bool) -> u8 {
    if new > shown {
        ((shown + before + new) / 3) as u8
    } else if shown > 1 {
        if timing {
            (shown - 1) as u8
        } else {
            shown
        }
    } else {
        0
    }
}

/// The bars of the visualizer, the bars shown before them, and which
/// update drops falling bars.
#[derive(Debug, Clone, Copy)]
pub struct VisualizerBars {
    pub values: [u8; 14],
    pub prev_vals: [u8; 14],
    pub timing: bool,
}

impl VisualizerBars {
    pub fn new() -> (v: VisualizerBars)
        ensures
            v.values@ == Seq::new(14, |i: int| 5u8),
            v.prev_vals@ == Seq::new(14, |i: int| 0u8),
            !v.timing,
    {
        let v = VisualizerBars { values: [5; 14], prev_vals: [0; 14], timing: false };
        assert(v.values@ =~= Seq::new(14, |i: int| 5u8));
        assert(v.prev_vals@ =~= Seq::new(14, |i: int| 0u8));
        v
    }

    /// Moves the bars towards new values.
    pub fn update_values(&mut self, values: [u8; 14])
        ensures
            final(self).values@ == Seq::new(
                14,
                |i: int| spec_bar(old(self).values@[i], old(self).prev_vals@[i], values@[i], old(self).timing),
            ),
            final(self).prev_vals@ == old(self).values@,
            final(self).timing == !old(self).timing,
    {
        let shown = self.values;
        let mut i: usize = 0;
        while i < 14
            invariant
                i <= 14,
                forall|k: int| 0 <= k < i ==> self.values@[k] == spec_bar(shown@[k], old(self).prev_vals@[k], values@[k], old(self).timing),
                forall|k: int| i <= k < 14 ==> self.values@[k] == shown@[k],
                self.prev_vals == old(self).prev_vals,
                self.timing == old(self).timing,
                shown == old(self).values,
            decreases 14 - i,
        {
            let s = shown[i];
            let v = if values[i] > s {
                ((s as u32 + self.prev_vals[i] as u32 + values[i] as u32) / 3) as u8
            } else if s > 1 {
                if self.timing {
                    s - 1
                } else {
                    s
                }
            } else {
                0
            };
            self.values[i] = v;
            i = i + 1;
        }
        self.timing = !self.timing;
        self.prev_vals = shown;
        assert(self.values@ =~= Seq::new(
            14,
            |i: int| spec_bar(old(self).values@[i], old(self).prev_vals@[i], values@[i], old(self).timing),
        ));
    }
}

/// Where a glyph of the bitrate font starts, and its width.
pub open spec fn spec_char_offset(c: char) -> (i32, i32) {
    if c == '0' {
        (0, 7)
    } else if c == '1' {
        (7, 4)
    } else if c == '2' {
        (12, 7)
    } else if c == '3' {
        (19, 7)
    } else if c == '4' {
        (26, 7)
    } else if c == '5' {
        (33, 6)
    } else if c == '6' {
        (40, 6)
    } else if c == '7' {
        (47, 6)
    } else if c == '8' {
        (54, 6)
    } else if c == '9' {
        (61, 6)
    } else if c == 'k' {
        (68, 19)
    } else {
        (0, 0)
    }
}

pub fn char_offset(c: char) -> (r: (i32, i32))
    ensures
        r == spec_char_offset(c),
{
    match c {
        '0' => (0, 7),
        '1' => (7, 4),
        '2' => (12, 7),
        '3' => (19, 7),
        '4' => (26, 7),
        '5' => (33, 6),
        '6' => (40, 6),
        '7' => (47, 6),
        '8' => (54, 6),
        '9' => (61, 6),
        'k' => (68, 19),
        _ => (0, 0),
    }
}

/// Width in pixels of the filled part of the buffer gauge.
pub fn buffer_bar_width(level: u8) -> (r: Option<i32>)
    ensures
        r == if level > 0 {
            Some(if level as int * 5 < 30 { (level as int * 5) as i32 } else { 30i32 })
        } else {
            None::<i32>
        },
{
    if level > 0 {
        let w = level as i32 * 5;
        Some(if w < 30 { w } else { 30 })
    } else {
        None
    }
}

/// Where the icon of a play status starts in the icon strip.
pub fn icon_offset(icon: PlayStatusIcon) -> (r: i32)
    ensures
        r == match icon {
            PlayStatusIcon::PlayTx => 0i32,
            PlayStatusIcon::PlayRx => 16i32,
            PlayStatusIcon::Pause => 32i32,
            PlayStatusIcon::Stop => 48i32,
        },
{
    match icon {
        PlayStatusIcon::PlayTx => 0,
        PlayStatusIcon::PlayRx => 16,
        PlayStatusIcon::Pause => 32,
        PlayStatusIcon::Stop => 48,
    }
}

/// Height of a context menu item.
pub const MENU_ITEM_HEIGHT: i32 = 20;
/// Height of a separator.
pub const MENU_SEPARATOR_HEIGHT: i32 = 5;
/// Narrowest context menu.
pub const MENU_MIN_WIDTH: i32 = 60;

/// Separators above item `i`.
pub open spec fn separators_before(seps: Seq<bool>, i: int) -> int
    decreases i,
{
    if i <= 0 {
        0
    } else {
        separators_before(seps, i - 1) + if seps[i - 1] {
            1int
        } else {
            0int
        }
    }
}

/// The widest of the item labels and the minimum width.
pub open spec fn menu_text_width(widths: Seq<i32>, i: int) -> int
    decreases i,
{
    if i <= 0 {
        MENU_MIN_WIDTH as int
    } else {
        let w = menu_text_width(widths, i - 1);
        if widths[i - 1] > w {
            widths[i - 1] as int
        } else {
            w
        }
    }
}

/// Gap between the window's edge and the items, on the left and on top.
pub const MENU_PADDING: i32 = 2;

proof fn lemma_separators_before_monotone(seps: Seq<bool>, i: int, j: int)
    requires
        0 <= i <= j,
    ensures
        0 <= separators_before(seps, i) <= separators_before(seps, j),
        separators_before(seps, j) - separators_before(seps, i) <= j - i,
    decreases j,
{
    if j > 0 {
        if i < j {
            lemma_separators_before_monotone(seps, i, j - 1);
        } else {
            lemma_separators_before_monotone(seps, j - 1, j - 1);
        }
    }
}

/// The layout of a context menu: the left edge and the top of each item,
/// the width of the items, and the size of the window.
pub struct MenuLayout {
    pub item_left: i32,
    pub item_tops: Vec<i32>,
    pub item_width: i32,
    pub window_width: i32,
    pub window_height: i32,
}

/// The height of the window of a menu with `n` items and the separators
/// `seps`.
pub open spec fn menu_height(seps: Seq<bool>, n: int) -> int {
    MENU_ITEM_HEIGHT * n + MENU_SEPARATOR_HEIGHT * separators_before(seps, n) + 5
}

/// Lays out a context menu whose item labels are `widths` pixels wide and
/// where `seps[i]` puts a separator after item `i`: each item one below the
/// other, a separator's height between those it parts, all of them
/// `MENU_PADDING` pixels in from the window's left and top edges.
pub fn menu_layout(widths: &[i32], seps: &[bool]) -> (l: MenuLayout)
    requires
        widths@.len() == seps@.len(),
        menu_height(seps@, widths@.len() as int) <= i32::MAX,
        forall|i: int| 0 <= i < widths@.len() ==> #[trigger] widths@[i] <= i32::MAX - 11,
    ensures
        l.item_left == MENU_PADDING,
        l.item_tops@.len() == widths@.len(),
        forall|i: int|
            0 <= i < widths@.len() ==> #[trigger] l.item_tops@[i] == MENU_PADDING + MENU_ITEM_HEIGHT * i
                + MENU_SEPARATOR_HEIGHT * separators_before(seps@, i),
        l.item_width == menu_text_width(widths@, widths@.len() as int) + 6,
        l.window_width == l.item_width + 5,
        l.window_height == menu_height(seps@, widths@.len() as int),
{
    let mut width: i32 = MENU_MIN_WIDTH;
    let mut sep_count: i32 = 0;
    let mut tops: Vec<i32> = Vec::new();
    let mut i: usize = 0;
    proof {
        lemma_separators_before_monotone(seps@, 0, widths@.len() as int);
    }
    while i < widths.len()
        invariant
            widths@.len() == seps@.len(),
            menu_height(seps@, widths@.len() as int) <= i32::MAX,
            forall|k: int| 0 <= k < widths@.len() ==> #[trigger] widths@[k] <= i32::MAX - 11,
            i <= widths@.len(),
            tops@.len() == i,
            sep_count == separators_before(seps@, i as int),
            0 <= sep_count <= i,
            width == menu_text_width(widths@, i as int),
            MENU_MIN_WIDTH <= width <= i32::MAX - 11,
            forall|k: int|
                0 <= k < i ==> #[trigger] tops@[k] == MENU_PADDING + MENU_ITEM_HEIGHT * k
                    + MENU_SEPARATOR_HEIGHT * separators_before(seps@, k),
        decreases widths.len() - i,
    {
        if widths[i] > width {
            width = widths[i];
        }
        proof {
            lemma_separators_before_monotone(seps@, i as int, widths@.len() as int);
        }
        tops.push(MENU_PADDING + MENU_ITEM_HEIGHT * (i as i32) + MENU_SEPARATOR_HEIGHT * sep_count);
        if seps[i] {
            sep_count = sep_count + 1;
        }
        i = i + 1;
    }
    let item_width = width + 6;
    MenuLayout {
        item_left: MENU_PADDING,
        item_tops: tops,
        item_width,
        window_width: item_width + 5,
        window_height: MENU_ITEM_HEIGHT * (widths.len() as i32) + MENU_SEPARATOR_HEIGHT * sep_count + 5,
    }
}

/// Ticks before a long lyric line starts scrolling.
pub const LYRIC_SCROLL_DELAY: usize = 15;

/// What a tick does to the lyric line.
#[derive(Debug, Clone, Copy, PartialEq, Eq, Structural)]
pub enum LyricTick {
    Nothing,
    /// Switch between the plain and the arrowed music-note label.
    ToggleBlink,
    /// The line moved; redraw it.
    Scrolled,
}

/// The scroll state of the lyric line; `width` is the width of its text.
#[derive(Debug, Clone, Copy, PartialEq, Eq, Structural)]
pub struct LyricScroll {
    pub width: i32,
    pub tick: usize,
    pub speed: i32,
    pub blinking: bool,
    pub offset: i32,
}

/// The scroll state after a tick in a label `inner_width` wide.
pub open spec fn spec_lyric_tick(s: LyricScroll, inner_width: i32) -> (LyricScroll, LyricTick) {
    let s1 = if s.blinking {
        LyricScroll { tick: (s.tick + 1) as usize, ..s }
    } else {
        s
    };
    if s.blinking && s1.tick % 2 != 0 {
        (s1, LyricTick::ToggleBlink)
    } else if !(s1.width > inner_width) {
        (s1, LyricTick::Nothing)
    } else if s1.offset >= s1.width - inner_width {
        (s1, LyricTick::Nothing)
    } else {
        let s2 = LyricScroll { tick: (s1.tick + 1) as usize, ..s1 };
        if s2.tick < LYRIC_SCROLL_DELAY || s2.tick % 3 != 0 {
            (s2, LyricTick::Nothing)
        } else {
            (LyricScroll { offset: (s2.offset + s2.speed) as i32, ..s2 }, LyricTick::Scrolled)
        }
    }
}

impl LyricScroll {
    /// A new line of text `width` pixels wide: back at the start, not
    /// blinking.
    pub fn new_line(&mut self, width: i32)
        ensures
            *final(self) == (LyricScroll { width, tick: 0, speed: 10, blinking: false, offset: 0 }),
    {
        self.width = width;
        self.tick = 0;
        self.speed = 10;
        self.blinking = false;
        self.offset = 0;
    }

    /// Starts blinking the music notes.
    pub fn blink(&mut self)
        ensures
            *final(self) == (LyricScroll { blinking: true, ..*old(self) }),
    {
        self.blinking = true;
    }

    /// One tick: a blinking line toggles every other tick; a line wider than
    /// the label scrolls by `speed` every third tick after a delay, until
    /// its end is visible.
    pub fn tick(&mut self, inner_width: i32) -> (r: LyricTick)
        requires
            old(self).tick < usize::MAX - 1,
            0 <= old(self).speed <= 1000,
            -0x1000_0000 <= old(self).offset <= 0x1000_0000,
            -0x1000_0000 <= old(self).width <= 0x1000_0000,
            -0x1000_0000 <= inner_width <= 0x1000_0000,
        ensures
            (*final(self), r) == spec_lyric_tick(*old(self), inner_width),
    {
        if self.blinking {
            self.tick = self.tick + 1;
            if self.tick % 2 != 0 {
                return LyricTick::ToggleBlink;
            }
        }
        if !(self.width > inner_width) {
            return LyricTick::Nothing;
        }
        if self.offset >= self.width - inner_width {
            return LyricTick::Nothing;
        }
        self.tick = self.tick + 1;
        if self.tick < LYRIC_SCROLL_DELAY || self.tick % 3 != 0 {
            return LyricTick::Nothing;
        }
        self.offset = self.offset + self.speed;
        LyricTick::Scrolled
    }
}

} // verus!
