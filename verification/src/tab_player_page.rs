//! The tab player page: transport, position, track, loop, metronome, tone
//! and mixer of the loaded score. Each message gives the requests for the
//! audio thread and the views; opening files, the tempo percentage (a
//! fraction) and polling the audio thread stay with the application.
use vstd::prelude::*;
use crate::tab_models::{ScoreLayout, ScoreBeatView, ScoreBar, TabNote};
use crate::settings::Settings;
use crate::text::{push_text, push_decimal, decimal};

verus! {

/// The guitar tones and their General MIDI programs.
pub const TONE_COUNT: usize = 3;

pub open spec fn tone_program(tone: int) -> u32 {
    if tone == 0 { 25 } else if tone == 1 { 29 } else { 30 }
}

fn program_of(tone: usize) -> (program: u32)
    requires
        tone < TONE_COUNT,
    ensures
        program == tone_program(tone as int),
{
    if tone == 0 { 25 } else if tone == 1 { 29 } else { 30 }
}

#[derive(Debug, Clone, Copy, PartialEq, Eq, Structural)]
pub enum TabPlayerMessage {
    Play,
    Pause,
    Stop,
    SeekToBeat(usize),
    PrevBar,
    NextBar,
    ToggleLoop,
    ToggleMetronome,
    CycleTone,
    SetGuitarVolume(u8),
    SetMetronomeVolume(u8),
    OnBeat(usize),
    SetTrack(usize),
    /// Play when paused, pause when playing.
    TogglePlayPause,
    /// The count-in goes 0, 1, 2, 4 bars and round again.
    CycleCountIn,
    /// Loop over beats `start..=end`.
    SetLoopRange(usize, usize),
    /// Loop over the bar of a beat.
    SetLoopOnBar(usize),
    ClearLoop,
}

/// A request for the audio thread.
#[derive(Debug, Clone, Copy, PartialEq, Eq, Structural)]
pub enum AudioRequest {
    Play,
    /// Play after a count-in of `bars` bars of `beats_per_bar` clicks.
    PlayWithCountIn { bars: u32, beats_per_bar: u8 },
    Pause,
    SeekToBeat(usize),
    SetLoop(usize, usize),
    ClearLoop,
    SetGuitarProgram(u32),
    SetGuitarVolume(u8),
    SetMetronomeVolume(u8),
}

/// What the application does for a message.
#[derive(Debug, Clone, PartialEq)]
pub enum PageAction {
    /// Send a request to the audio thread, if there is one.
    Audio(AudioRequest),
    /// Build the timeline anew and hand it to the audio thread.
    RebuildTimeline,
    /// Parse the file again for the selected track.
    ReloadTrack,
    /// Move the tab strip's cursor to a beat.
    MarkBeat(usize),
    /// Show (string, fret) pairs on the fretboard.
    ShowNotes(Vec<(u8, u8)>),
}

pub enum ActionView {
    Audio(AudioRequest),
    RebuildTimeline,
    ReloadTrack,
    MarkBeat(usize),
    ShowNotes(Seq<(u8, u8)>),
}

impl View for PageAction {
    type V = ActionView;

    open spec fn view(&self) -> ActionView {
        match self {
            PageAction::Audio(request) => ActionView::Audio(*request),
            PageAction::RebuildTimeline => ActionView::RebuildTimeline,
            PageAction::ReloadTrack => ActionView::ReloadTrack,
            PageAction::MarkBeat(beat) => ActionView::MarkBeat(*beat),
            PageAction::ShowNotes(notes) => ActionView::ShowNotes(notes@),
        }
    }
}

pub open spec fn actions_view(actions: Seq<PageAction>) -> Seq<ActionView> {
    actions.map_values(|a: PageAction| a@)
}

pub struct TabPlayerPage {
    pub score: Option<ScoreLayout>,
    pub is_playing: bool,
    pub current_beat: usize,
    pub selected_track: usize,
    pub guitar_volume: u8,
    pub metronome_volume: u8,
    pub metronome_enabled: bool,
    pub loop_active: bool,
    pub tone_index: usize,
    pub count_in_bars: u32,
}

/// The parts of the page a message changes.
pub struct PageState {
    pub has_score: bool,
    pub is_playing: bool,
    pub current_beat: usize,
    pub selected_track: usize,
    pub guitar_volume: u8,
    pub metronome_volume: u8,
    pub metronome_enabled: bool,
    pub loop_active: bool,
    pub tone_index: usize,
    pub count_in_bars: u32,
}

/// The score as the page reads it.
pub struct ScoreView {
    pub beats: Seq<ScoreBeatView>,
    pub bars: Seq<ScoreBar>,
}

pub open spec fn score_view(score: ScoreLayout) -> ScoreView {
    ScoreView { beats: score.beats@.map_values(|b: crate::tab_models::ScoreBeat| b@), bars: score.bars@ }
}

impl TabPlayerPage {
    pub open spec fn state(&self) -> PageState {
        PageState {
            has_score: self.score is Some,
            is_playing: self.is_playing,
            current_beat: self.current_beat,
            selected_track: self.selected_track,
            guitar_volume: self.guitar_volume,
            metronome_volume: self.metronome_volume,
            metronome_enabled: self.metronome_enabled,
            loop_active: self.loop_active,
            tone_index: self.tone_index,
            count_in_bars: self.count_in_bars,
        }
    }

    pub open spec fn score_of(&self) -> Option<ScoreView> {
        match self.score {
            Some(s) => Some(score_view(s)),
            None => None,
        }
    }
}

/// The bar a bar step lands on: the current beat's bar (0 without one) moved
/// by `direction`, kept within the bars, all counted in 32 bits.
pub open spec fn target_bar(score: ScoreView, current_beat: usize, direction: i32) -> int {
    let current_bar = if current_beat < score.beats.len() { score.beats[current_beat as int].bar_index } else { 0 };
    let moved = (current_bar as i32) + direction;
    let last = (score.bars.len() as i32) - 1;
    if moved < 0 { 0 } else if moved > last { last as int } else { moved }
}

/// A bar step can be taken: the bars fit 32-bit counting with at least
/// one bar, and moving the current bar does not leave 32 bits.
pub open spec fn can_step_bar(score: ScoreView, current_beat: usize, direction: i32) -> bool {
    let current_bar = if current_beat < score.beats.len() { score.beats[current_beat as int].bar_index } else { 0 };
    &&& 1 <= score.bars.len() <= i32::MAX
    &&& i32::MIN <= (current_bar as i32) + direction <= i32::MAX
}

/// The fretboard notes of a beat: its (string, fret) pairs.
pub open spec fn note_pairs(notes: Seq<TabNote>) -> Seq<(u8, u8)> {
    notes.map_values(|n: TabNote| (n.string, n.fret))
}

/// The count-in after `bars`: 0, 1, 2, 4 and round again.
pub open spec fn next_count_in(bars: u32) -> u32 {
    if bars == 0 { 1 } else if bars == 1 { 2 } else if bars == 2 { 4 } else { 0 }
}

/// Starting play: after the count-in, when one is set, in the first bar's
/// meter (4 beats without a bar).
pub open spec fn play_request(s: PageState, score: Option<ScoreView>) -> AudioRequest {
    if s.count_in_bars > 0 {
        let beats_per_bar: u8 = match score {
            Some(sc) => if sc.bars.len() > 0 { sc.bars[0].time_sig_num } else { 4 },
            None => 4,
        };
        AudioRequest::PlayWithCountIn { bars: s.count_in_bars, beats_per_bar }
    } else {
        AudioRequest::Play
    }
}

pub open spec fn play_step(s: PageState, score: Option<ScoreView>) -> (PageState, Seq<ActionView>) {
    if s.has_score {
        (PageState { is_playing: true, ..s }, seq![ActionView::Audio(play_request(s, score))])
    } else {
        (s, Seq::empty())
    }
}

/// Looping over beats `start..=end`.
pub open spec fn loop_step(s: PageState, start: usize, end: usize) -> (PageState, Seq<ActionView>) {
    (PageState { loop_active: true, ..s }, seq![ActionView::Audio(AudioRequest::SetLoop(start, end))])
}

/// What a message does: the new state and the actions, in order.
pub open spec fn page_step(s: PageState, score: Option<ScoreView>, message: TabPlayerMessage) -> (PageState, Seq<ActionView>) {
    match message {
        TabPlayerMessage::Play => play_step(s, score),
        TabPlayerMessage::Pause => (PageState { is_playing: false, ..s }, seq![ActionView::Audio(AudioRequest::Pause)]),
        TabPlayerMessage::Stop => (PageState { is_playing: false, current_beat: 0, ..s },
            seq![ActionView::Audio(AudioRequest::Pause), ActionView::Audio(AudioRequest::SeekToBeat(0))]),
        TabPlayerMessage::SeekToBeat(beat) => (PageState { current_beat: beat, ..s }, seq![ActionView::Audio(AudioRequest::SeekToBeat(beat))]),
        TabPlayerMessage::PrevBar => bar_step(s, score, -1i32),
        TabPlayerMessage::NextBar => bar_step(s, score, 1i32),
        TabPlayerMessage::ToggleLoop => (PageState { loop_active: !s.loop_active, ..s },
            if s.loop_active { seq![ActionView::Audio(AudioRequest::ClearLoop)] } else { Seq::empty() }),
        TabPlayerMessage::ToggleMetronome => (PageState { metronome_enabled: !s.metronome_enabled, ..s }, seq![ActionView::RebuildTimeline]),
        TabPlayerMessage::CycleTone => {
            let tone = ((s.tone_index + 1) % 3) as usize;
            (PageState { tone_index: tone, ..s }, seq![ActionView::Audio(AudioRequest::SetGuitarProgram(tone_program(tone as int)))])
        },
        TabPlayerMessage::SetGuitarVolume(volume) => {
            let v = if volume < 127 { volume } else { 127 };
            (PageState { guitar_volume: v, ..s }, seq![ActionView::Audio(AudioRequest::SetGuitarVolume(v))])
        },
        TabPlayerMessage::SetMetronomeVolume(volume) => {
            let v = if volume < 127 { volume } else { 127 };
            (PageState { metronome_volume: v, ..s }, seq![ActionView::Audio(AudioRequest::SetMetronomeVolume(v))])
        },
        TabPlayerMessage::OnBeat(beat) => {
            let shown = match score {
                Some(sc) => if beat < sc.beats.len() && sc.beats[beat as int].notes.len() > 0 {
                    seq![ActionView::ShowNotes(note_pairs(sc.beats[beat as int].notes))]
                } else {
                    Seq::empty()
                },
                None => Seq::empty(),
            };
            let ends = match score {
                Some(sc) => beat + 1 >= sc.beats.len() && !s.loop_active,
                None => false,
            };
            (PageState { current_beat: beat, is_playing: if ends { false } else { s.is_playing }, ..s },
                seq![ActionView::MarkBeat(beat)] + shown)
        },
        TabPlayerMessage::SetTrack(track) => (PageState { selected_track: track, current_beat: 0, ..s }, seq![ActionView::ReloadTrack]),
        TabPlayerMessage::TogglePlayPause => if s.is_playing {
            (PageState { is_playing: false, ..s }, seq![ActionView::Audio(AudioRequest::Pause)])
        } else {
            play_step(s, score)
        },
        TabPlayerMessage::CycleCountIn => (PageState { count_in_bars: next_count_in(s.count_in_bars), ..s }, Seq::empty()),
        TabPlayerMessage::SetLoopRange(start, end) => loop_step(s, start, end),
        TabPlayerMessage::SetLoopOnBar(beat) => match score {
            Some(sc) => if beat < sc.beats.len() {
                let bar = sc.bars[sc.beats[beat as int].bar_index as int];
                let last = if bar.beat_count > 0 { bar.beat_count - 1 } else { 0 };
                loop_step(s, bar.first_beat_index, (bar.first_beat_index + last) as usize)
            } else {
                (s, Seq::empty())
            },
            None => (s, Seq::empty()),
        },
        TabPlayerMessage::ClearLoop => (PageState { loop_active: false, ..s }, seq![ActionView::Audio(AudioRequest::ClearLoop)]),
    }
}

pub open spec fn bar_step(s: PageState, score: Option<ScoreView>, direction: i32) -> (PageState, Seq<ActionView>) {
    match score {
        Some(sc) => {
            let target = sc.bars[target_bar(sc, s.current_beat, direction)].first_beat_index;
            (PageState { current_beat: target, ..s }, seq![ActionView::Audio(AudioRequest::SeekToBeat(target))])
        },
        None => (s, Seq::empty()),
    }
}

/// The messages the page can take: counters with room to count, and bar
/// steps and beat ends that stay within 32 and 64 bits.
pub open spec fn page_accepts(s: PageState, score: Option<ScoreView>, message: TabPlayerMessage) -> bool {
    &&& (message == TabPlayerMessage::CycleTone ==> s.tone_index < usize::MAX)
    &&& (message == TabPlayerMessage::PrevBar && score is Some ==> can_step_bar(score.unwrap(), s.current_beat, -1i32))
    &&& (message == TabPlayerMessage::NextBar && score is Some ==> can_step_bar(score.unwrap(), s.current_beat, 1i32))
    &&& (message is OnBeat && score is Some ==> message->OnBeat_0 < usize::MAX)
    &&& (message is SetLoopOnBar && score is Some ==> bar_loop_fits(score.unwrap(), message->SetLoopOnBar_0))
}

/// The bar of a beat is one of the bars, and its last beat is a `usize`.
pub open spec fn bar_loop_fits(score: ScoreView, beat: usize) -> bool {
    beat < score.beats.len() ==> {
        let bar_index = score.beats[beat as int].bar_index;
        &&& bar_index < score.bars.len()
        &&& score.bars[bar_index as int].first_beat_index + score.bars[bar_index as int].beat_count <= usize::MAX + 1
    }
}

fn bar_step_fits(score: &ScoreLayout, current_beat: usize, direction: i32) -> (ok: bool)
    ensures
        ok == can_step_bar(score_view(*score), current_beat, direction),
{
    let ghost sc = score_view(*score);
    let current_bar: usize = if current_beat < score.beats.len() { score.beats[current_beat].bar_index } else { 0 };
    assert(current_beat < score.beats@.len() ==> sc.beats[current_beat as int].bar_index == current_bar);
    let moved: i64 = current_bar as i32 as i64 + direction as i64;
    1 <= score.bars.len() && score.bars.len() <= i32::MAX as usize && i32::MIN as i64 <= moved && moved <= i32::MAX as i64
}

fn bar_loop_fits_exec(score: &ScoreLayout, beat: usize) -> (ok: bool)
    ensures
        ok == bar_loop_fits(score_view(*score), beat),
{
    let ghost sc = score_view(*score);
    if beat >= score.beats.len() {
        return true;
    }
    let bar_index = score.beats[beat].bar_index;
    assert(sc.beats[beat as int].bar_index == bar_index);
    if bar_index >= score.bars.len() {
        return false;
    }
    let bar = &score.bars[bar_index];
    bar.beat_count == 0 || bar.first_beat_index <= usize::MAX - (bar.beat_count - 1)
}

impl TabPlayerPage {
    /// Whether the page can take the message (see `page_accepts`).
    pub fn accepts(&self, message: TabPlayerMessage) -> (ok: bool)
        ensures
            ok == page_accepts(self.state(), self.score_of(), message),
    {
        match &self.score {
            None => match message {
                TabPlayerMessage::CycleTone => self.tone_index < usize::MAX,
                _ => true,
            },
            Some(score) => match message {
                TabPlayerMessage::CycleTone => self.tone_index < usize::MAX,
                TabPlayerMessage::PrevBar => bar_step_fits(score, self.current_beat, -1),
                TabPlayerMessage::NextBar => bar_step_fits(score, self.current_beat, 1),
                TabPlayerMessage::OnBeat(beat) => beat < usize::MAX,
                TabPlayerMessage::SetLoopOnBar(beat) => bar_loop_fits_exec(score, beat),
                _ => true,
            },
        }
    }

    pub fn new() -> (page: TabPlayerPage)
        ensures
            page.score is None,
            page.state() == (PageState {
                has_score: false,
                is_playing: false,
                current_beat: 0,
                selected_track: 0,
                guitar_volume: 100,
                metronome_volume: 100,
                metronome_enabled: false,
                loop_active: false,
                tone_index: 0,
                count_in_bars: 0,
            }),
    {
        TabPlayerPage {
            score: None,
            is_playing: false,
            current_beat: 0,
            selected_track: 0,
            guitar_volume: 100,
            metronome_volume: 100,
            metronome_enabled: false,
            loop_active: false,
            tone_index: 0,
            count_in_bars: 0,
        }
    }

    fn start_play(&mut self, actions: &mut Vec<PageAction>)
        requires
            old(actions)@.len() == 0,
        ensures
            final(self).score == old(self).score,
            (final(self).state(), actions_view(final(actions)@)) == play_step(old(self).state(), old(self).score_of()),
    {
        if self.score.is_some() {
            let request = if self.count_in_bars > 0 {
                let beats_per_bar: u8 = match &self.score {
                    Some(score) => if score.bars.len() > 0 { score.bars[0].time_sig_num } else { 4 },
                    None => 4,
                };
                AudioRequest::PlayWithCountIn { bars: self.count_in_bars, beats_per_bar }
            } else {
                AudioRequest::Play
            };
            self.is_playing = true;
            actions.push(PageAction::Audio(request));
        }
        assert(actions_view(actions@) =~= play_step(old(self).state(), old(self).score_of()).1);
    }

    fn set_loop(&mut self, start: usize, end: usize, actions: &mut Vec<PageAction>)
        requires
            old(actions)@.len() == 0,
        ensures
            final(self).score == old(self).score,
            (final(self).state(), actions_view(final(actions)@)) == loop_step(old(self).state(), start, end),
    {
        self.loop_active = true;
        actions.push(PageAction::Audio(AudioRequest::SetLoop(start, end)));
        assert(actions_view(actions@) =~= loop_step(old(self).state(), start, end).1);
    }

    fn step_bar(&mut self, direction: i32) -> (actions: Vec<PageAction>)
        requires
            old(self).score is Some ==> can_step_bar(old(self).score_of().unwrap(), old(self).current_beat, direction),
            direction == 1 || direction == -1,
        ensures
            final(self).score == old(self).score,
            (final(self).state(), actions_view(actions@)) == bar_step(old(self).state(), old(self).score_of(), direction),
    {
        let mut actions: Vec<PageAction> = Vec::new();
        let target = match &self.score {
            None => {
                assert(actions_view(actions@) =~= Seq::empty());
                return actions;
            },
            Some(score) => {
                let ghost sc = score_view(*score);
                let current_bar: usize = if self.current_beat < score.beats.len() {
                    score.beats[self.current_beat].bar_index
                } else {
                    0
                };
                assert(self.current_beat < score.beats@.len() ==> sc.beats[self.current_beat as int].bar_index == current_bar);
                let moved: i32 = current_bar as i32 + direction;
                let last: i32 = score.bars.len() as i32 - 1;
                let index: i32 = if moved < 0 { 0 } else if moved > last { last } else { moved };
                assert(index as int == target_bar(sc, self.current_beat, direction));
                score.bars[index as usize].first_beat_index
            },
        };
        actions.push(PageAction::Audio(AudioRequest::SeekToBeat(target)));
        self.current_beat = target;
        assert(actions_view(actions@) =~= seq![ActionView::Audio(AudioRequest::SeekToBeat(target))]);
        actions
    }

    /// Applies a message; gives the actions for the application, in order.
    pub fn update(&mut self, message: TabPlayerMessage) -> (actions: Vec<PageAction>)
        requires
            page_accepts(old(self).state(), old(self).score_of(), message),
        ensures
            final(self).score == old(self).score,
            (final(self).state(), actions_view(actions@)) == page_step(old(self).state(), old(self).score_of(), message),
    {
        let mut actions: Vec<PageAction> = Vec::new();
        match message {
            TabPlayerMessage::Play => {
                self.start_play(&mut actions);
                return actions;
            },
            TabPlayerMessage::Pause => {
                self.is_playing = false;
                actions.push(PageAction::Audio(AudioRequest::Pause));
            },
            TabPlayerMessage::Stop => {
                self.is_playing = false;
                self.current_beat = 0;
                actions.push(PageAction::Audio(AudioRequest::Pause));
                actions.push(PageAction::Audio(AudioRequest::SeekToBeat(0)));
            },
            TabPlayerMessage::SeekToBeat(beat) => {
                self.current_beat = beat;
                actions.push(PageAction::Audio(AudioRequest::SeekToBeat(beat)));
            },
            TabPlayerMessage::PrevBar => {
                return self.step_bar(-1);
            },
            TabPlayerMessage::NextBar => {
                return self.step_bar(1);
            },
            TabPlayerMessage::ToggleLoop => {
                self.loop_active = !self.loop_active;
                if !self.loop_active {
                    actions.push(PageAction::Audio(AudioRequest::ClearLoop));
                }
            },
            TabPlayerMessage::ToggleMetronome => {
                self.metronome_enabled = !self.metronome_enabled;
                actions.push(PageAction::RebuildTimeline);
            },
            TabPlayerMessage::CycleTone => {
                self.tone_index = (self.tone_index + 1) % TONE_COUNT;
                actions.push(PageAction::Audio(AudioRequest::SetGuitarProgram(program_of(self.tone_index))));
            },
            TabPlayerMessage::SetGuitarVolume(volume) => {
                self.guitar_volume = if volume < 127 { volume } else { 127 };
                actions.push(PageAction::Audio(AudioRequest::SetGuitarVolume(self.guitar_volume)));
            },
            TabPlayerMessage::SetMetronomeVolume(volume) => {
                self.metronome_volume = if volume < 127 { volume } else { 127 };
                actions.push(PageAction::Audio(AudioRequest::SetMetronomeVolume(self.metronome_volume)));
            },
            TabPlayerMessage::OnBeat(beat) => {
                self.current_beat = beat;
                actions.push(PageAction::MarkBeat(beat));
                let mut ends = false;
                match &self.score {
                    Some(score) => {
                        if beat < score.beats.len() && score.beats[beat].notes.len() > 0 {
                            let pairs = note_pairs_of(&score.beats[beat].notes);
                            actions.push(PageAction::ShowNotes(pairs));
                        }
                        ends = beat + 1 >= score.beats.len() && !self.loop_active;
                    },
                    None => {},
                }
                if ends {
                    self.is_playing = false;
                }
            },
            TabPlayerMessage::SetTrack(track) => {
                self.selected_track = track;
                self.current_beat = 0;
                actions.push(PageAction::ReloadTrack);
            },
            TabPlayerMessage::TogglePlayPause => {
                if self.is_playing {
                    self.is_playing = false;
                    actions.push(PageAction::Audio(AudioRequest::Pause));
                } else {
                    self.start_play(&mut actions);
                    return actions;
                }
            },
            TabPlayerMessage::CycleCountIn => {
                self.count_in_bars = if self.count_in_bars == 0 {
                    1
                } else if self.count_in_bars == 1 {
                    2
                } else if self.count_in_bars == 2 {
                    4
                } else {
                    0
                };
            },
            TabPlayerMessage::SetLoopRange(start, end) => {
                self.set_loop(start, end, &mut actions);
                return actions;
            },
            TabPlayerMessage::SetLoopOnBar(beat) => {
                let mut range: Option<(usize, usize)> = None;
                match &self.score {
                    Some(score) => {
                        if beat < score.beats.len() {
                            let bar = &score.bars[score.beats[beat].bar_index];
                            let last = if bar.beat_count > 0 { bar.beat_count - 1 } else { 0 };
                            range = Some((bar.first_beat_index, bar.first_beat_index + last));
                        }
                    },
                    None => {},
                }
                match range {
                    Some((start, end)) => {
                        self.set_loop(start, end, &mut actions);
                        return actions;
                    },
                    None => {},
                }
            },
            TabPlayerMessage::ClearLoop => {
                self.loop_active = false;
                actions.push(PageAction::Audio(AudioRequest::ClearLoop));
            },
        }
        assert(actions_view(actions@) =~= page_step(old(self).state(), old(self).score_of(), message).1);
        actions
    }

    /// A score was loaded: its default track is selected and play starts
    /// from the top.
    pub fn set_score(&mut self, score: ScoreLayout, default_track: usize)
        ensures
            final(self).score == Some(score),
            final(self).state() == (PageState { has_score: true, selected_track: default_track, current_beat: 0, ..old(self).state() }),
    {
        self.selected_track = default_track;
        self.current_beat = 0;
        self.score = Some(score);
    }

    /// The score was read again for the selected track.
    pub fn replace_score(&mut self, score: ScoreLayout)
        ensures
            final(self).score == Some(score),
            final(self).state() == (PageState { has_score: true, ..old(self).state() }),
    {
        self.score = Some(score);
    }

    /// Takes the mixer, metronome and tone from the settings.
    pub fn restore(&mut self, settings: &Settings)
        ensures
            final(self).score == old(self).score,
            final(self).state() == (PageState {
                guitar_volume: settings.tab_guitar_volume,
                metronome_volume: settings.tab_metronome_volume,
                metronome_enabled: settings.tab_metronome_enabled,
                tone_index: settings.tab_guitar_tone,
                ..old(self).state()
            }),
    {
        self.guitar_volume = settings.tab_guitar_volume;
        self.metronome_volume = settings.tab_metronome_volume;
        self.metronome_enabled = settings.tab_metronome_enabled;
        self.tone_index = settings.tab_guitar_tone;
    }

    /// Writes the mixer, metronome and tone into the settings.
    pub fn save(&self, settings: &mut Settings)
        ensures
            *final(settings) == (Settings {
                tab_guitar_volume: self.guitar_volume,
                tab_metronome_volume: self.metronome_volume,
                tab_metronome_enabled: self.metronome_enabled,
                tab_guitar_tone: self.tone_index,
                ..*old(settings)
            }),
    {
        settings.tab_guitar_volume = self.guitar_volume;
        settings.tab_metronome_volume = self.metronome_volume;
        settings.tab_metronome_enabled = self.metronome_enabled;
        settings.tab_guitar_tone = self.tone_index;
    }
}

fn note_pairs_of(notes: &Vec<TabNote>) -> (pairs: Vec<(u8, u8)>)
    ensures
        pairs@ == note_pairs(notes@),
{
    let mut pairs: Vec<(u8, u8)> = Vec::new();
    let mut i: usize = 0;
    while i < notes.len()
        invariant
            i <= notes@.len(),
            pairs@ == note_pairs(notes@).take(i as int),
        decreases notes@.len() - i,
    {
        pairs.push((notes[i].string, notes[i].fret));
        i += 1;
        assert(pairs@ =~= note_pairs(notes@).take(i as int));
    }
    assert(note_pairs(notes@).take(i as int) =~= note_pairs(notes@));
    pairs
}

/// A beat with the last index of the score ends play when no loop is on.
pub proof fn lemma_last_beat_stops_play(s: PageState, score: ScoreView, beat: usize)
    requires
        beat + 1 >= score.beats.len(),
        !s.loop_active,
    ensures
        !page_step(s, Some(score), TabPlayerMessage::OnBeat(beat)).0.is_playing,
        page_step(s, Some(score), TabPlayerMessage::OnBeat(beat)).0.current_beat == beat,
{
}

/// Without a score, Play changes nothing and asks nothing.
pub proof fn lemma_play_needs_score(s: PageState)
    requires
        !s.has_score,
    ensures
        page_step(s, None, TabPlayerMessage::Play).0 == s,
        page_step(s, None, TabPlayerMessage::Play).1.len() == 0,
{
}

/// The tone cycles through the three tones.
pub proof fn lemma_tone_cycles(s: PageState)
    requires
        s.tone_index < TONE_COUNT,
    ensures
        page_step(page_step(page_step(s, None, TabPlayerMessage::CycleTone).0, None, TabPlayerMessage::CycleTone).0, None, TabPlayerMessage::CycleTone).0.tone_index == s.tone_index,
{
}

/// The count-in comes round after four presses.
pub proof fn lemma_count_in_cycles(s: PageState)
    requires
        s.count_in_bars == 0 || s.count_in_bars == 1 || s.count_in_bars == 2 || s.count_in_bars == 4,
    ensures
        ({
            let once = page_step(s, None, TabPlayerMessage::CycleCountIn).0;
            let twice = page_step(once, None, TabPlayerMessage::CycleCountIn).0;
            let thrice = page_step(twice, None, TabPlayerMessage::CycleCountIn).0;
            page_step(thrice, None, TabPlayerMessage::CycleCountIn).0.count_in_bars == s.count_in_bars
        }),
{
}

/// Pausing and pressing play-pause again resumes play with the same
/// request as a first start.
pub proof fn lemma_toggle_resumes(s: PageState, score: ScoreView)
    requires
        s.is_playing,
        s.has_score,
    ensures
        ({
            let (paused, paused_actions) = page_step(s, Some(score), TabPlayerMessage::TogglePlayPause);
            let (resumed, resumed_actions) = page_step(paused, Some(score), TabPlayerMessage::TogglePlayPause);
            &&& !paused.is_playing
            &&& paused_actions == seq![ActionView::Audio(AudioRequest::Pause)]
            &&& resumed.is_playing
            &&& resumed_actions == seq![ActionView::Audio(play_request(s, Some(score)))]
        }),
{
}

/// The title shown for a loaded score: its title and artist, or its title
/// alone; without a title, the file's name without extension, or
/// "Untitled".
pub open spec fn spec_song_title(title: Seq<char>, artist: Seq<char>, file_stem: Option<Seq<char>>) -> Seq<char> {
    if title.len() > 0 {
        if artist.len() > 0 { title + " \u{2014} "@ + artist } else { title }
    } else {
        match file_stem {
            Some(stem) => stem,
            None => "Untitled"@,
        }
    }
}

pub fn song_title(title: &str, artist: &str, file_stem: Option<&str>) -> (shown: String)
    ensures
        shown@ == spec_song_title(title@, artist@, match file_stem { Some(s) => Some(s@), None => None }),
{
    let mut shown = String::new();
    if !title.is_empty() {
        push_text(&mut shown, title);
        if !artist.is_empty() {
            push_text(&mut shown, " \u{2014} ");
            push_text(&mut shown, artist);
        }
    } else {
        match file_stem {
            Some(stem) => push_text(&mut shown, stem),
            None => push_text(&mut shown, "Untitled"),
        }
    }
    shown
}

/// A bar's time signature as shown: `num/denom`.
pub fn time_signature_label(num: u8, denom: u8) -> (label: String)
    ensures
        label@ == decimal(num as nat) + "/"@ + decimal(denom as nat),
{
    let mut label = String::new();
    push_decimal(&mut label, num as u64);
    push_text(&mut label, "/");
    push_decimal(&mut label, denom as u64);
    label
}

/// Play on a page with a score starts playback: straight away without a
/// count-in; with one, after the count-in's bars in the meter of the
/// score's first bar (four beats when the score has no bars). Without a
/// score, Play does nothing.
pub proof fn lemma_play_counts_in_first_bar_meter(s: PageState, score: Option<ScoreView>)
    ensures
        s.has_score ==> page_step(s, score, TabPlayerMessage::Play).0 == (PageState { is_playing: true, ..s }),
        s.has_score && s.count_in_bars == 0 ==>
            page_step(s, score, TabPlayerMessage::Play).1 == seq![ActionView::Audio(AudioRequest::Play)],
        s.has_score && s.count_in_bars > 0 && score is Some && score.unwrap().bars.len() > 0 ==>
            page_step(s, score, TabPlayerMessage::Play).1 == seq![ActionView::Audio(AudioRequest::PlayWithCountIn {
                bars: s.count_in_bars,
                beats_per_bar: score.unwrap().bars[0].time_sig_num,
            })],
        s.has_score && s.count_in_bars > 0 && (score is None || score.unwrap().bars.len() == 0) ==>
            page_step(s, score, TabPlayerMessage::Play).1 == seq![ActionView::Audio(AudioRequest::PlayWithCountIn {
                bars: s.count_in_bars,
                beats_per_bar: 4,
            })],
        !s.has_score ==> page_step(s, score, TabPlayerMessage::Play) == (s, Seq::<ActionView>::empty()),
{
}

} // verus!
