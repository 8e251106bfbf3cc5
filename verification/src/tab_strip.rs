//! The tab strip's cursor and loop selection: what a click, a drag, a drag
//! of a loop handle and the arrow and Escape keys do to the cursor beat, the
//! loop range and the selection anchor, and which signals they raise. The
//! widget turns pointer positions into beats and draws; it scrolls where it
//! is told to.
use vstd::prelude::*;
use crate::tab_models::ScoreBar;

verus! {

/// Where a bar starts on the strip, and whether its time signature is drawn.
pub struct BarBoundary {
    pub beat_index: usize,
    pub time_sig_num: u8,
    pub time_sig_denom: u8,
    pub show_time_sig: bool,
}

/// The boundary of bar `i`: its signature is shown when it differs from
/// the bar before (always on the first bar, unless it reads 0/0).
pub open spec fn boundary_of(bars: Seq<ScoreBar>, i: int) -> BarBoundary {
    let prev_num: u8 = if i == 0 { 0 } else { bars[i - 1].time_sig_num };
    let prev_denom: u8 = if i == 0 { 0 } else { bars[i - 1].time_sig_denom };
    BarBoundary {
        beat_index: bars[i].first_beat_index,
        time_sig_num: bars[i].time_sig_num,
        time_sig_denom: bars[i].time_sig_denom,
        show_time_sig: bars[i].time_sig_num != prev_num || bars[i].time_sig_denom != prev_denom,
    }
}

pub fn bar_boundaries(bars: &Vec<ScoreBar>) -> (boundaries: Vec<BarBoundary>)
    ensures
        boundaries@.len() == bars@.len(),
        forall|i: int| 0 <= i < bars@.len() ==> #[trigger] boundaries@[i] == boundary_of(bars@, i),
{
    let mut boundaries: Vec<BarBoundary> = Vec::new();
    let mut prev_num: u8 = 0;
    let mut prev_denom: u8 = 0;
    let mut i: usize = 0;
    while i < bars.len()
        invariant
            i <= bars@.len(),
            boundaries@.len() == i,
            forall|j: int| 0 <= j < i ==> #[trigger] boundaries@[j] == boundary_of(bars@, j),
            i > 0 ==> prev_num == bars@[i - 1].time_sig_num && prev_denom == bars@[i - 1].time_sig_denom,
            i == 0 ==> prev_num == 0 && prev_denom == 0,
        decreases bars@.len() - i,
    {
        let bar = &bars[i];
        let show_time_sig = bar.time_sig_num != prev_num || bar.time_sig_denom != prev_denom;
        boundaries.push(BarBoundary {
            beat_index: bar.first_beat_index,
            time_sig_num: bar.time_sig_num,
            time_sig_denom: bar.time_sig_denom,
            show_time_sig,
        });
        prev_num = bar.time_sig_num;
        prev_denom = bar.time_sig_denom;
        i += 1;
    }
    boundaries
}

/// A signal the strip raises for the page.
#[derive(Debug, Clone, Copy, PartialEq, Eq, Structural)]
pub enum StripSignal {
    BeatSeeked(u32),
    LoopRangeChanged(u32, u32),
    LoopCleared,
}

/// A key the strip reacts to.
#[derive(Debug, Clone, Copy, PartialEq, Eq, Structural)]
pub enum StripKey {
    Left,
    Right,
    Escape,
    Other,
}

/// The strip's selection state; a beat of -1 means none.
#[derive(Debug, Clone, Copy, PartialEq, Eq, Structural)]
pub struct StripCursor {
    pub current_beat: i32,
    pub loop_start_beat: i32,
    pub loop_end_beat: i32,
    pub drag_start_beat: i32,
    pub drag_selecting: bool,
    pub selection_anchor: i32,
    /// The loop handle being dragged: 1 the start, 2 the end, 0 none.
    pub dragging_handle: u8,
}

/// What an input did: whether the strip took the key, the signals raised,
/// and the beat to scroll into view.
pub struct StripOutcome {
    pub handled: bool,
    pub signals: Vec<StripSignal>,
    pub scroll_to: Option<i32>,
}

pub struct TabStripState {
    pub cursor: StripCursor,
    pub total_beats: usize,
    pub bar_boundaries: Vec<BarBoundary>,
}

/// A beat value the strip can hold: -1 for none, or a beat whose
/// neighbours are still `i32` values.
pub open spec fn beat_ok(beat: i32) -> bool {
    -1 <= beat < i32::MAX
}

pub open spec fn cursor_ok(c: StripCursor) -> bool {
    &&& beat_ok(c.current_beat)
    &&& beat_ok(c.loop_start_beat)
    &&& beat_ok(c.loop_end_beat)
    &&& beat_ok(c.drag_start_beat)
    &&& beat_ok(c.selection_anchor)
}

pub open spec fn min_i32(a: i32, b: i32) -> i32 {
    if a <= b { a } else { b }
}

pub open spec fn max_i32(a: i32, b: i32) -> i32 {
    if a >= b { a } else { b }
}

pub open spec fn clamp_i32(value: int, low: i32, high: i32) -> i32 {
    if value < low { low } else if value > high { high } else { value as i32 }
}

pub open spec fn abs_int(value: int) -> int {
    if value < 0 { -value } else { value }
}

/// The loop range `lo..=hi` spanned by two beats, and its signal.
pub open spec fn span_signal(a: i32, b: i32) -> StripSignal {
    StripSignal::LoopRangeChanged(min_i32(a, b) as u32, max_i32(a, b) as u32)
}

/// Moving the cursor: the new beat, and whether the strip scrolls to it
/// (only when it changed and is a beat).
pub open spec fn with_current(c: StripCursor, beat: i32) -> (StripCursor, Option<i32>) {
    if c.current_beat != beat {
        (StripCursor { current_beat: beat, ..c }, if beat >= 0 { Some(beat) } else { None })
    } else {
        (c, None)
    }
}

pub open spec fn drag_begin_effect(c: StripCursor, handle: u8, beat: i32, shift: bool) -> (StripCursor, Seq<StripSignal>) {
    let hit: u8 = if c.loop_start_beat < 0 || c.loop_end_beat < 0 { 0 } else { handle };
    let c1 = StripCursor { dragging_handle: 0, ..c };
    if hit > 0 {
        (StripCursor { dragging_handle: hit, drag_selecting: true, ..c1 }, Seq::empty())
    } else if shift && c.selection_anchor >= 0 {
        (StripCursor {
            loop_start_beat: min_i32(c.selection_anchor, beat),
            loop_end_beat: max_i32(c.selection_anchor, beat),
            drag_selecting: true,
            ..c1
        }, seq![span_signal(c.selection_anchor, beat)])
    } else {
        (StripCursor { drag_start_beat: beat, selection_anchor: beat, drag_selecting: false, ..c1 }, Seq::empty())
    }
}

pub open spec fn drag_update_effect(c: StripCursor, beat: i32, moved_enough: bool) -> (StripCursor, Seq<StripSignal>) {
    if c.dragging_handle > 0 {
        let other = if c.dragging_handle == 1 { c.loop_end_beat } else { c.loop_start_beat };
        (StripCursor { loop_start_beat: min_i32(beat, other), loop_end_beat: max_i32(beat, other), ..c },
            seq![span_signal(beat, other)])
    } else if !moved_enough {
        (c, Seq::empty())
    } else {
        let anchor = c.selection_anchor;
        (StripCursor {
            drag_selecting: true,
            loop_start_beat: min_i32(anchor, beat),
            loop_end_beat: max_i32(anchor, beat),
            ..c
        }, seq![span_signal(anchor, beat)])
    }
}

/// A click (a press and release without a drag) moves the cursor there and
/// clears the loop.
pub open spec fn drag_end_effect(c: StripCursor) -> (StripCursor, Seq<StripSignal>, Option<i32>) {
    if !c.drag_selecting && c.drag_start_beat >= 0 {
        let beat = c.drag_start_beat;
        let cleared: Seq<StripSignal> = if c.loop_start_beat >= 0 { seq![StripSignal::LoopCleared] } else { Seq::empty() };
        let (moved, scroll) = with_current(StripCursor { selection_anchor: beat, ..c }, beat);
        (StripCursor { drag_selecting: false, ..moved }, cleared.push(StripSignal::BeatSeeked(beat as u32)), scroll)
    } else {
        (StripCursor { drag_selecting: false, ..c }, Seq::empty(), None)
    }
}

/// The edge of the selection that moves: the one farther from the anchor.
pub open spec fn moving_edge(c: StripCursor) -> i32 {
    if c.loop_start_beat < 0 {
        max_i32(c.selection_anchor, max_i32(c.current_beat, 0))
    } else if abs_int(c.loop_end_beat - c.selection_anchor) > abs_int(c.loop_start_beat - c.selection_anchor) {
        c.loop_end_beat
    } else {
        c.loop_start_beat
    }
}

/// The first boundary from `i` on lying more than one beat past `current`.
pub open spec fn first_boundary_after(bs: Seq<BarBoundary>, current: int, i: int) -> Option<int>
    decreases bs.len() - i,
{
    if i < 0 || i >= bs.len() {
        None
    } else if bs[i].beat_index > current + 1 {
        Some(i)
    } else {
        first_boundary_after(bs, current, i + 1)
    }
}

/// How many boundaries from `i` on come before the first one at or past
/// beat `from`.
pub open spec fn boundaries_before(bs: Seq<BarBoundary>, from: i32, i: int) -> nat
    decreases bs.len() - i,
{
    if i < 0 || i >= bs.len() || bs[i].beat_index as i32 >= from {
        0
    } else {
        1 + boundaries_before(bs, from, i + 1)
    }
}

/// The nearest bar boundary in a direction: forward, the beat before the
/// next bar start past the following beat (at most the last beat); back,
/// the start of the current bar, or of the bar before when already there.
pub open spec fn snap_target(bs: Seq<BarBoundary>, from: i32, direction: i32, max_beat: i32) -> i32 {
    if direction > 0 {
        let current = if from < 0 { 0 } else { from as int };
        match first_boundary_after(bs, current, 0) {
            Some(i) => min_i32((bs[i].beat_index as i32 - 1) as i32, max_beat),
            None => max_beat,
        }
    } else {
        let k = boundaries_before(bs, from, 0) as int;
        let prev: i32 = if k >= 1 { bs[k - 1].beat_index as i32 } else { 0 };
        let prev_prev: i32 = if k >= 2 { bs[k - 2].beat_index as i32 } else { 0 };
        if prev == from { prev_prev } else { prev }
    }
}

/// Moving the cursor by `delta` beats drops the selection.
pub open spec fn move_cursor_effect(c: StripCursor, delta: int, max_beat: i32) -> (StripCursor, Seq<StripSignal>, Option<i32>) {
    let current = max_i32(c.current_beat, 0);
    let target = clamp_i32(current + delta, 0, max_beat);
    let cleared: Seq<StripSignal> = if c.loop_start_beat >= 0 { seq![StripSignal::LoopCleared] } else { Seq::empty() };
    let (moved, scroll) = with_current(StripCursor { selection_anchor: target, ..c }, target);
    (moved, cleared.push(StripSignal::BeatSeeked(target as u32)), scroll)
}

/// Setting the moving edge keeps the anchor: the loop spans anchor and
/// target, and the strip scrolls to the target.
pub open spec fn selection_edge_effect(c: StripCursor, target: i32, max_beat: i32) -> (StripCursor, Seq<StripSignal>, Option<i32>) {
    let anchor = if c.selection_anchor < 0 { max_i32(c.current_beat, 0) } else { c.selection_anchor };
    let t = clamp_i32(target as int, 0, max_beat);
    (StripCursor {
        selection_anchor: anchor,
        loop_start_beat: min_i32(anchor, t),
        loop_end_beat: max_i32(anchor, t),
        ..c
    }, seq![span_signal(anchor, t)], Some(t))
}

pub open spec fn key_effect(c: StripCursor, bs: Seq<BarBoundary>, total_beats: usize, key: StripKey, shift: bool, ctrl: bool)
    -> (StripCursor, bool, Seq<StripSignal>, Option<i32>)
{
    let max_beat = total_beats as i32 - 1;
    if max_beat < 0 {
        (c, false, Seq::empty(), None)
    } else {
        match key {
            StripKey::Left | StripKey::Right => {
                let direction: i32 = if key == StripKey::Left { -1i32 } else { 1i32 };
                if shift {
                    let edge = moving_edge(c);
                    let target = if ctrl {
                        snap_target(bs, edge, direction, max_beat as i32)
                    } else {
                        clamp_i32(edge + direction, 0, max_beat as i32)
                    };
                    let (after, signals, scroll) = selection_edge_effect(c, target, max_beat as i32);
                    (after, true, signals, scroll)
                } else {
                    let current = max_i32(c.current_beat, 0);
                    let target = if ctrl {
                        snap_target(bs, current, direction, max_beat as i32)
                    } else {
                        clamp_i32(current + direction, 0, max_beat as i32)
                    };
                    let (after, signals, scroll) = move_cursor_effect(c, target - current, max_beat as i32);
                    (after, true, signals, scroll)
                }
            },
            StripKey::Escape => if c.loop_start_beat >= 0 {
                (StripCursor { selection_anchor: -1i32, ..c }, true, seq![StripSignal::LoopCleared], None)
            } else {
                (c, true, Seq::empty(), None)
            },
            StripKey::Other => (c, false, Seq::empty(), None),
        }
    }
}

/// Boundaries whose beats are `i32` values.
pub open spec fn boundaries_ok(bs: Seq<BarBoundary>) -> bool {
    forall|i: int| 0 <= i < bs.len() ==> (#[trigger] bs[i]).beat_index <= i32::MAX
}

fn min_of(a: i32, b: i32) -> (m: i32)
    ensures
        m == min_i32(a, b),
{
    if a <= b { a } else { b }
}

fn max_of(a: i32, b: i32) -> (m: i32)
    ensures
        m == max_i32(a, b),
{
    if a >= b { a } else { b }
}

fn clamp_beat(value: i32, low: i32, high: i32) -> (c: i32)
    ensures
        c == clamp_i32(value as int, low, high),
{
    if value < low { low } else if value > high { high } else { value }
}

fn span(a: i32, b: i32) -> (signal: StripSignal)
    ensures
        signal == span_signal(a, b),
{
    StripSignal::LoopRangeChanged(min_of(a, b) as u32, max_of(a, b) as u32)
}

/// The nearest bar boundary from `from_beat` in `direction`.
pub fn snap_to_bar_boundary(boundaries: &Vec<BarBoundary>, from_beat: i32, direction: i32, max_beat: i32) -> (target: i32)
    requires
        boundaries_ok(boundaries@),
    ensures
        target == snap_target(boundaries@, from_beat, direction, max_beat),
{
    let ghost bs = boundaries@;
    if direction > 0 {
        let current: usize = if from_beat < 0 { 0 } else { from_beat as usize };
        let mut i: usize = 0;
        while i < boundaries.len()
            invariant
                i <= bs.len(),
                bs == boundaries@,
                boundaries_ok(bs),
                direction > 0,
                current as int == if from_beat < 0 { 0 } else { from_beat as int },
                first_boundary_after(bs, current as int, 0) == first_boundary_after(bs, current as int, i as int),
            decreases bs.len() - i,
        {
            let b = boundaries[i].beat_index;
            if b > current + 1 {
                assert(bs[i as int].beat_index <= i32::MAX);
                let before = b as i32 - 1;
                let r = min_of(before, max_beat);
                assert(first_boundary_after(bs, if from_beat < 0 { 0 } else { from_beat as int }, 0) == Some(i as int));

                return r;
            }
            i += 1;
        }
        max_beat
    } else {
        let mut prev_prev: i32 = 0;
        let mut prev: i32 = 0;
        let mut i: usize = 0;
        while i < boundaries.len()
            invariant
                i <= bs.len(),
                bs == boundaries@,
                boundaries_ok(bs),
                forall|j: int| 0 <= j < i ==> ((#[trigger] bs[j]).beat_index as i32) < from_beat,
                boundaries_before(bs, from_beat, 0) == i + boundaries_before(bs, from_beat, i as int),
                prev == if i >= 1 { bs[i - 1].beat_index as i32 } else { 0 },
                prev_prev == if i >= 2 { bs[i - 2].beat_index as i32 } else { 0 },
            ensures
                boundaries_before(bs, from_beat, i as int) == 0,
                boundaries_before(bs, from_beat, 0) == i + boundaries_before(bs, from_beat, i as int),
                prev == if i >= 1 { bs[i - 1].beat_index as i32 } else { 0 },
                prev_prev == if i >= 2 { bs[i - 2].beat_index as i32 } else { 0 },
            decreases bs.len() - i,
        {
            let b = boundaries[i].beat_index as i32;
            if b >= from_beat {
                break;
            }
            prev_prev = prev;
            prev = b;
            i += 1;
        }
        if prev == from_beat { prev_prev } else { prev }
    }
}

impl StripCursor {
    /// The edge of the selection farther from the anchor.
    pub fn get_moving_edge(&self) -> (edge: i32)
        requires
            cursor_ok(*self),
        ensures
            edge == moving_edge(*self),
    {
        if self.loop_start_beat < 0 {
            let current = max_of(self.current_beat, 0);
            max_of(self.selection_anchor, current)
        } else {
            let to_end = self.loop_end_beat as i64 - self.selection_anchor as i64;
            let to_start = self.loop_start_beat as i64 - self.selection_anchor as i64;
            let far_end = if to_end < 0 { -to_end } else { to_end };
            let far_start = if to_start < 0 { -to_start } else { to_start };
            if far_end > far_start {
                self.loop_end_beat
            } else {
                self.loop_start_beat
            }
        }
    }
}

impl TabStripState {
    pub fn new() -> (strip: TabStripState)
        ensures
            strip.cursor == (StripCursor {
                current_beat: -1i32,
                loop_start_beat: -1i32,
                loop_end_beat: -1i32,
                drag_start_beat: -1i32,
                drag_selecting: false,
                selection_anchor: -1i32,
                dragging_handle: 0,
            }),
            strip.total_beats == 0,
            strip.bar_boundaries@.len() == 0,
    {
        TabStripState {
            cursor: StripCursor {
                current_beat: -1i32,
                loop_start_beat: -1i32,
                loop_end_beat: -1i32,
                drag_start_beat: -1i32,
                drag_selecting: false,
                selection_anchor: -1i32,
                dragging_handle: 0,
            },
            total_beats: 0,
            bar_boundaries: Vec::new(),
        }
    }

    /// A new score: its beat count and bar boundaries; the cursor stays.
    pub fn set_score(&mut self, bars: &Vec<ScoreBar>, beat_count: usize)
        ensures
            final(self).cursor == old(self).cursor,
            final(self).total_beats == beat_count,
            final(self).bar_boundaries@.len() == bars@.len(),
            forall|i: int| 0 <= i < bars@.len() ==> #[trigger] final(self).bar_boundaries@[i] == boundary_of(bars@, i),
    {
        self.total_beats = beat_count;
        self.bar_boundaries = bar_boundaries(bars);
    }

    /// Moves the cursor to `beat`; returns the beat to scroll to.
    pub fn set_current_beat(&mut self, beat: i32) -> (scroll_to: Option<i32>)
        ensures
            (final(self).cursor, scroll_to) == with_current(old(self).cursor, beat),
            final(self).total_beats == old(self).total_beats,
            final(self).bar_boundaries@ == old(self).bar_boundaries@,
    {
        if self.cursor.current_beat != beat {
            self.cursor.current_beat = beat;
            if beat >= 0 { Some(beat) } else { None }
        } else {
            None
        }
    }

    pub fn set_loop_range(&mut self, start_beat: i32, end_beat: i32)
        ensures
            final(self).cursor == (StripCursor { loop_start_beat: start_beat, loop_end_beat: end_beat, ..old(self).cursor }),
            final(self).total_beats == old(self).total_beats,
            final(self).bar_boundaries@ == old(self).bar_boundaries@,
    {
        self.cursor.loop_start_beat = start_beat;
        self.cursor.loop_end_beat = end_beat;
    }

    /// A press: `handle` is the loop handle under the pointer (1 start,
    /// 2 end, 0 none; only looked for above the stave), `beat` the beat
    /// under it.
    pub fn drag_begin(&mut self, handle: u8, beat: i32, shift: bool) -> (outcome: StripOutcome)
        ensures
            (final(self).cursor, outcome.signals@) == drag_begin_effect(old(self).cursor, handle, beat, shift),
            outcome.handled,
            outcome.scroll_to is None,
            final(self).total_beats == old(self).total_beats,
            final(self).bar_boundaries@ == old(self).bar_boundaries@,
    {
        let hit: u8 = if self.cursor.loop_start_beat < 0 || self.cursor.loop_end_beat < 0 { 0 } else { handle };
        self.cursor.dragging_handle = 0;
        let mut signals: Vec<StripSignal> = Vec::new();
        if hit > 0 {
            self.cursor.dragging_handle = hit;
            self.cursor.drag_selecting = true;
        } else if shift && self.cursor.selection_anchor >= 0 {
            let anchor = self.cursor.selection_anchor;
            self.cursor.loop_start_beat = min_of(anchor, beat);
            self.cursor.loop_end_beat = max_of(anchor, beat);
            signals.push(span(anchor, beat));
            self.cursor.drag_selecting = true;
        } else {
            self.cursor.drag_start_beat = beat;
            self.cursor.selection_anchor = beat;
            self.cursor.drag_selecting = false;
        }
        proof {
            assert(signals@ =~= drag_begin_effect(old(self).cursor, handle, beat, shift).1);
        }
        StripOutcome { handled: true, signals, scroll_to: None }
    }

    /// The pointer moved to `beat` during a drag; `moved_enough` is whether
    /// it went far enough from the press to select.
    pub fn drag_update(&mut self, beat: i32, moved_enough: bool) -> (outcome: StripOutcome)
        ensures
            (final(self).cursor, outcome.signals@) == drag_update_effect(old(self).cursor, beat, moved_enough),
            outcome.handled,
            outcome.scroll_to is None,
            final(self).total_beats == old(self).total_beats,
            final(self).bar_boundaries@ == old(self).bar_boundaries@,
    {
        let mut signals: Vec<StripSignal> = Vec::new();
        if self.cursor.dragging_handle > 0 {
            let other = if self.cursor.dragging_handle == 1 {
                self.cursor.loop_end_beat
            } else {
                self.cursor.loop_start_beat
            };
            self.cursor.loop_start_beat = min_of(beat, other);
            self.cursor.loop_end_beat = max_of(beat, other);
            signals.push(span(beat, other));
        } else if moved_enough {
            self.cursor.drag_selecting = true;
            let anchor = self.cursor.selection_anchor;
            self.cursor.loop_start_beat = min_of(anchor, beat);
            self.cursor.loop_end_beat = max_of(anchor, beat);
            signals.push(span(anchor, beat));
        }
        proof {
            assert(signals@ =~= drag_update_effect(old(self).cursor, beat, moved_enough).1);
        }
        StripOutcome { handled: true, signals, scroll_to: None }
    }

    /// The drag ended.
    pub fn drag_end(&mut self) -> (outcome: StripOutcome)
        ensures
            (final(self).cursor, outcome.signals@, outcome.scroll_to) == drag_end_effect(old(self).cursor),
            outcome.handled,
            final(self).total_beats == old(self).total_beats,
            final(self).bar_boundaries@ == old(self).bar_boundaries@,
    {
        let mut signals: Vec<StripSignal> = Vec::new();
        let mut scroll_to: Option<i32> = None;
        if !self.cursor.drag_selecting {
            let beat = self.cursor.drag_start_beat;
            if beat >= 0 {
                if self.cursor.loop_start_beat >= 0 {
                    signals.push(StripSignal::LoopCleared);
                }
                self.cursor.selection_anchor = beat;
                scroll_to = self.set_current_beat(beat);
                signals.push(StripSignal::BeatSeeked(beat as u32));
            }
        }
        self.cursor.drag_selecting = false;
        proof {
            assert(signals@ =~= drag_end_effect(old(self).cursor).1);
        }
        StripOutcome { handled: true, signals, scroll_to }
    }

    fn move_cursor(&mut self, delta: i32, max_beat: i32) -> (r: (Vec<StripSignal>, Option<i32>))
        requires
            cursor_ok(old(self).cursor),
            0 <= max_beat,
        ensures
            (final(self).cursor, r.0@, r.1) == move_cursor_effect(old(self).cursor, delta as int, max_beat),
            final(self).total_beats == old(self).total_beats,
            final(self).bar_boundaries@ == old(self).bar_boundaries@,
    {
        let current = max_of(self.cursor.current_beat, 0);
        let moved = current as i64 + delta as i64;
        let target: i32 = if moved < 0 { 0 } else if moved > max_beat as i64 { max_beat } else { moved as i32 };
        let mut signals: Vec<StripSignal> = Vec::new();
        if self.cursor.loop_start_beat >= 0 {
            signals.push(StripSignal::LoopCleared);
        }
        self.cursor.selection_anchor = target;
        let scroll_to = self.set_current_beat(target);
        signals.push(StripSignal::BeatSeeked(target as u32));
        proof {
            assert(signals@ =~= move_cursor_effect(old(self).cursor, delta as int, max_beat).1);
        }
        (signals, scroll_to)
    }

    fn set_selection_edge(&mut self, target: i32, max_beat: i32) -> (r: (Vec<StripSignal>, Option<i32>))
        requires
            0 <= max_beat,
        ensures
            (final(self).cursor, r.0@, r.1) == selection_edge_effect(old(self).cursor, target, max_beat),
            final(self).total_beats == old(self).total_beats,
            final(self).bar_boundaries@ == old(self).bar_boundaries@,
    {
        let mut anchor = self.cursor.selection_anchor;
        if anchor < 0 {
            anchor = max_of(self.cursor.current_beat, 0);
            self.cursor.selection_anchor = anchor;
        }
        let t = clamp_beat(target, 0, max_beat);
        self.set_loop_range(min_of(anchor, t), max_of(anchor, t));
        let mut signals: Vec<StripSignal> = Vec::new();
        signals.push(span(anchor, t));
        proof {
            assert(signals@ =~= selection_edge_effect(old(self).cursor, target, max_beat).1);
        }
        (signals, Some(t))
    }

    /// A key press: the arrows move the cursor a beat (with Ctrl, to a bar
    /// boundary), with Shift they move the selection's moving edge instead;
    /// Escape drops the selection.
    pub fn key_pressed(&mut self, key: StripKey, shift: bool, ctrl: bool) -> (outcome: StripOutcome)
        requires
            cursor_ok(old(self).cursor),
            old(self).total_beats <= i32::MAX,
            boundaries_ok(old(self).bar_boundaries@),
        ensures
            (final(self).cursor, outcome.handled, outcome.signals@, outcome.scroll_to)
                == key_effect(old(self).cursor, old(self).bar_boundaries@, old(self).total_beats, key, shift, ctrl),
            final(self).total_beats == old(self).total_beats,
            final(self).bar_boundaries@ == old(self).bar_boundaries@,
    {
        let max_beat: i32 = self.total_beats as i32 - 1;
        if max_beat < 0 {
            return StripOutcome { handled: false, signals: Vec::new(), scroll_to: None };
        }
        match key {
            StripKey::Left | StripKey::Right => {
                let direction: i32 = match key {
                    StripKey::Left => -1,
                    _ => 1,
                };
                if shift {
                    let edge = self.cursor.get_moving_edge();
                    let target = if ctrl {
                        snap_to_bar_boundary(&self.bar_boundaries, edge, direction, max_beat)
                    } else {
                        clamp_beat(edge + direction, 0, max_beat)
                    };
                    let (signals, scroll_to) = self.set_selection_edge(target, max_beat);
                    StripOutcome { handled: true, signals, scroll_to }
                } else {
                    let current = max_of(self.cursor.current_beat, 0);
                    let target = if ctrl {
                        snap_to_bar_boundary(&self.bar_boundaries, current, direction, max_beat)
                    } else {
                        clamp_beat(current + direction, 0, max_beat)
                    };
                    proof {
                        lemma_snap_in_range(self.bar_boundaries@, current, direction, max_beat);
                    }
                    let (signals, scroll_to) = self.move_cursor(target - current, max_beat);
                    StripOutcome { handled: true, signals, scroll_to }
                }
            },
            StripKey::Escape => {
                let mut signals: Vec<StripSignal> = Vec::new();
                if self.cursor.loop_start_beat >= 0 {
                    signals.push(StripSignal::LoopCleared);
                    self.cursor.selection_anchor = -1;
                }
                proof {
                    assert(signals@ =~= key_effect(old(self).cursor, old(self).bar_boundaries@, old(self).total_beats, key, shift, ctrl).2);
                }
                StripOutcome { handled: true, signals, scroll_to: None }
            },
            StripKey::Other => StripOutcome { handled: false, signals: Vec::new(), scroll_to: None },
        }
    }
}

proof fn lemma_first_boundary_after_range(bs: Seq<BarBoundary>, current: int, i: int)
    requires
        0 <= i,
    ensures
        first_boundary_after(bs, current, i) matches Some(j) ==> i <= j < bs.len() && bs[j].beat_index > current + 1,
    decreases bs.len() - i,
{
    if i < bs.len() && !(bs[i].beat_index > current + 1) {
        lemma_first_boundary_after_range(bs, current, i + 1);
    }
}

proof fn lemma_boundaries_before_range(bs: Seq<BarBoundary>, from: i32, i: int)
    requires
        0 <= i <= bs.len(),
    ensures
        boundaries_before(bs, from, i) <= bs.len() - i,
    decreases bs.len() - i,
{
    if i < bs.len() && (bs[i].beat_index as i32) < from {
        lemma_boundaries_before_range(bs, from, i + 1);
    }
}

/// A snapped target is a beat that the cursor arithmetic can take.
proof fn lemma_snap_in_range(bs: Seq<BarBoundary>, from: i32, direction: i32, max_beat: i32)
    requires
        boundaries_ok(bs),
        0 <= from,
        0 <= max_beat,
    ensures
        0 <= snap_target(bs, from, direction, max_beat) <= i32::MAX,
{
    lemma_first_boundary_after_range(bs, from as int, 0);
    lemma_boundaries_before_range(bs, from, 0);
}

proof fn lemma_boundaries_before_below(bs: Seq<BarBoundary>, from: i32, i: int, j: int)
    requires
        0 <= i <= j < i + boundaries_before(bs, from, i),
    ensures
        (bs[j].beat_index as i32) < from,
    decreases j - i,
{
    if j > i {
        lemma_boundaries_before_below(bs, from, i + 1, j);
    }
}

/// The arrow keys keep the cursor and the selection on the strip: an arrow
/// moves the cursor to a beat of the strip (the selection anchor follows
/// and the page is told to seek there); Shift and an arrow leave an ordered
/// loop range within the strip.
pub proof fn lemma_arrow_keys_stay_on_strip(c: StripCursor, bs: Seq<BarBoundary>, total_beats: usize, key: StripKey, shift: bool, ctrl: bool)
    requires
        cursor_ok(c),
        boundaries_ok(bs),
        1 <= total_beats <= i32::MAX,
        key == StripKey::Left || key == StripKey::Right,
        c.current_beat < total_beats,
        c.selection_anchor < total_beats,
        c.loop_start_beat < total_beats,
        c.loop_end_beat < total_beats,
    ensures
        ({
            let (after, handled, signals, _) = key_effect(c, bs, total_beats, key, shift, ctrl);
            let max_beat = total_beats - 1;
            &&& handled
            &&& shift ==> 0 <= after.loop_start_beat <= after.loop_end_beat <= max_beat
            &&& !shift ==> {
                &&& 0 <= after.current_beat <= max_beat
                &&& after.selection_anchor == after.current_beat
                &&& signals.last() == StripSignal::BeatSeeked(after.current_beat as u32)
            }
        }),
{
    let max_beat = (total_beats as i32 - 1) as i32;
    let direction: i32 = if key == StripKey::Left { -1i32 } else { 1i32 };
    let from = if shift { moving_edge(c) } else { max_i32(c.current_beat, 0) };
    lemma_first_boundary_after_range(bs, if from < 0 { 0 } else { from as int }, 0);
    lemma_boundaries_before_range(bs, from, 0);
    let k = boundaries_before(bs, from, 0) as int;
    if k >= 1 {
        lemma_boundaries_before_below(bs, from, 0, k - 1);
    }
    if k >= 2 {
        lemma_boundaries_before_below(bs, from, 0, k - 2);
    }
    assert(-1 <= snap_target(bs, from, direction, max_beat) <= max_beat);
}

/// A click on a beat, with no drag, moves the cursor to that beat and asks
/// the page to seek there, the last of the signals raised.
pub proof fn lemma_click_seeks(c: StripCursor, handle: u8, beat: i32)
    requires
        0 <= beat,
        handle == 0 || c.loop_start_beat < 0 || c.loop_end_beat < 0,
    ensures
        ({
            let (pressed, _) = drag_begin_effect(c, handle, beat, false);
            let (released, signals, _) = drag_end_effect(pressed);
            &&& released.current_beat == beat
            &&& released.selection_anchor == beat
            &&& !released.drag_selecting
            &&& signals.last() == StripSignal::BeatSeeked(beat as u32)
        }),
{
}

/// However the pointer moves during a drag, a loop range it sets is ordered.
pub proof fn lemma_drag_keeps_loop_ordered(c: StripCursor, beat: i32, moved_enough: bool)
    ensures
        ({
            let (after, signals) = drag_update_effect(c, beat, moved_enough);
            signals.len() > 0 ==> after.loop_start_beat <= after.loop_end_beat
        }),
{
}

} // verus!
