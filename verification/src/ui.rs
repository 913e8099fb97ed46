//! The interface's own state: what the keys do, the meters, when to save, and
//! what one frame shows.

use vstd::prelude::*;

use crate::audio::{STATE_ENDED, STATE_STREAMING};
use crate::control::{took_all, Controller, Edit, EqSnapshot, PlayStatus, PlayView};
use crate::display::{
    fmt_hz, hz_text, meter_bar, meter_cells, meter_level, shorten, shortened,
};
use crate::equalizer::{
    band_moves, db_as_tenths, edits_are_seen, moves_undo, next_version, tone_moves,
    version_after, EqView,
};
use crate::presets::{gains_apply_exactly, preset, preset_gains, preset_name, PRESET_COUNT};
use crate::remote::{
    all_go_over, asking_keeps_foresight, cmds_for, eq_after_all, foresees, RemoteController,
};
use crate::settings::{EqBand, EQ_BANDS};
use crate::sliders::{SliderColumn, Tone};
use crate::text::{digits, push_digits, push_two_digits, two_digits};

verus! {

/// The bass column; the bands come before it, treble after it.
pub const BASS_COL: usize = EQ_BANDS;

/// Selectable columns.
pub const TOTAL_COLS: usize = EQ_BANDS + 2;

/// How fast a meter falls between frames, in 16-bit sample units.
pub const METER_DECAY: i32 = 1800;

/// How long the user has to pause before changes are saved, in nanoseconds.
pub const SAVE_PAUSE_NS: u128 = 400_000_000;

/// What the status line says of the running pipeline.
pub struct StreamInfo {
    pub input: String,
    pub format: String,
    pub in_rate: u32,
    pub out_rate: u32,
    pub device: String,
}

/// The values of a [`StreamInfo`].
pub struct StreamView {
    pub input: Seq<char>,
    pub format: Seq<char>,
    pub in_rate: u32,
    pub out_rate: u32,
    pub device: Seq<char>,
}

impl View for StreamInfo {
    type V = StreamView;

    open spec fn view(&self) -> StreamView {
        StreamView {
            input: self.input@,
            format: self.format@,
            in_rate: self.in_rate,
            out_rate: self.out_rate,
            device: self.device@,
        }
    }
}

impl StreamInfo {
    /// A copy.
    pub fn copy(&self) -> (info: StreamInfo)
        ensures
            info@ == self@,
            info.input@ == self.input@,
            info.format@ == self.format@,
            info.in_rate == self.in_rate,
            info.out_rate == self.out_rate,
            info.device@ == self.device@,
    {
        StreamInfo {
            input: self.input.clone(),
            format: self.format.clone(),
            in_rate: self.in_rate,
            out_rate: self.out_rate,
            device: self.device.clone(),
        }
    }
}

/// The state of the interface.
#[derive(Debug, Clone, Copy, PartialEq, Eq, Structural)]
pub struct App {
    /// The selected column.
    pub selected: usize,
    /// The preset that the gains stand at; none after an edit of a band.
    pub preset: Option<usize>,
    pub quit: bool,
    /// There are changes that were not saved yet.
    pub dirty: bool,
    /// Shown meter levels in 16-bit sample units.
    pub meter_l: i32,
    pub meter_r: i32,
}

/// The keys that mean something.
#[derive(Debug, Clone, Copy, PartialEq, Eq, Structural)]
pub enum KeyCode {
    Char(char),
    Left,
    Right,
    Up,
    Down,
    Esc,
    Other,
}

/// A key with its modifiers.
#[derive(Debug, Clone, Copy, PartialEq, Eq, Structural)]
pub struct KeyEvent {
    pub code: KeyCode,
    pub shift: bool,
    pub control: bool,
}

/// What a key asks for.
#[derive(Debug, Clone, Copy, PartialEq, Eq, Structural)]
pub enum Action {
    Quit,
    SelectPrevious,
    SelectNext,
    /// Move the gain of the selected column.
    Adjust { up: bool, coarse: bool },
    Bass { up: bool },
    Treble { up: bool },
    /// Switch the equalizer on or off.
    Toggle,
    Preset { forward: bool },
    Reset,
    Save,
    Nothing,
}

/// What a key asks for.
pub open spec fn meaning(key: KeyEvent) -> Action {
    if key.control && key.code == KeyCode::Char('c') {
        Action::Quit
    } else {
        match key.code {
            KeyCode::Esc => Action::Quit,
            KeyCode::Left => Action::SelectPrevious,
            KeyCode::Right => Action::SelectNext,
            KeyCode::Up => Action::Adjust { up: true, coarse: key.shift },
            KeyCode::Down => Action::Adjust { up: false, coarse: key.shift },
            KeyCode::Char(c) => letter_meaning(c, key.shift),
            KeyCode::Other => Action::Nothing,
        }
    }
}

/// What a letter asks for.
pub open spec fn letter_meaning(c: char, shift: bool) -> Action {
    if c == 'q' {
        Action::Quit
    } else if c == 'h' {
        Action::SelectPrevious
    } else if c == 'l' {
        Action::SelectNext
    } else if c == 'k' || c == '+' || c == '=' {
        Action::Adjust { up: true, coarse: shift }
    } else if c == 'j' || c == '-' {
        Action::Adjust { up: false, coarse: shift }
    } else if c == 'b' || c == 'B' {
        Action::Bass { up: c == 'b' }
    } else if c == 't' || c == 'T' {
        Action::Treble { up: c == 't' }
    } else if c == ' ' || c == 'e' {
        Action::Toggle
    } else if c == 'p' || c == 'P' {
        Action::Preset { forward: c == 'p' }
    } else if c == '0' || c == 'r' {
        Action::Reset
    } else if c == 's' {
        Action::Save
    } else {
        Action::Nothing
    }
}

/// What a key asks for.
pub fn action_of(key: KeyEvent) -> (action: Action)
    ensures
        action == meaning(key),
{
    match key.code {
        KeyCode::Char(c) => {
            if key.control && c == 'c' {
                return Action::Quit;
            }
            match c {
                'q' => Action::Quit,
                'h' => Action::SelectPrevious,
                'l' => Action::SelectNext,
                'k' | '+' | '=' => Action::Adjust { up: true, coarse: key.shift },
                'j' | '-' => Action::Adjust { up: false, coarse: key.shift },
                'b' => Action::Bass { up: true },
                'B' => Action::Bass { up: false },
                't' => Action::Treble { up: true },
                'T' => Action::Treble { up: false },
                ' ' | 'e' => Action::Toggle,
                'p' => Action::Preset { forward: true },
                'P' => Action::Preset { forward: false },
                '0' | 'r' => Action::Reset,
                's' => Action::Save,
                _ => Action::Nothing,
            }
        },
        KeyCode::Esc => Action::Quit,
        KeyCode::Left => Action::SelectPrevious,
        KeyCode::Right => Action::SelectNext,
        KeyCode::Up => Action::Adjust { up: true, coarse: key.shift },
        KeyCode::Down => Action::Adjust { up: false, coarse: key.shift },
        KeyCode::Other => Action::Nothing,
    }
}

/// `step` upwards or downwards.
pub open spec fn directed(up: bool, step: int) -> int {
    if up {
        step
    } else {
        -step
    }
}

/// How far a key moves the selected gain, in tenths of dB for a band and in
/// dB for a shelf: half a dB and one dB, coarse steps four times that.
pub open spec fn step_of(selected: usize, coarse: bool) -> int {
    if selected < BASS_COL {
        if coarse {
            20
        } else {
            5
        }
    } else {
        if coarse {
            4
        } else {
            1
        }
    }
}

/// The preset after or before `at` in the round of presets; from none, the
/// first or the last.
pub open spec fn next_preset(at: Option<usize>, forward: bool) -> int {
    match at {
        Some(i) => if forward {
            if i + 1 < PRESET_COUNT {
                i + 1
            } else {
                0
            }
        } else {
            if i > 0 {
                i - 1
            } else {
                PRESET_COUNT - 1
            }
        },
        None => if forward {
            0
        } else {
            PRESET_COUNT - 1
        },
    }
}

impl App {
    /// A column is selected, and the preset is one there is.
    pub open spec fn wf(self) -> bool {
        &&& self.selected < TOTAL_COLS
        &&& self.preset matches Some(i) ==> i < PRESET_COUNT
    }

    /// The interface after `action`.
    pub open spec fn acted(self, action: Action) -> App {
        match action {
            Action::Quit => App { quit: true, ..self },
            Action::SelectPrevious => App {
                selected: if self.selected > 0 {
                    (self.selected - 1) as usize
                } else {
                    0
                },
                ..self
            },
            Action::SelectNext => App {
                selected: if self.selected + 1 < TOTAL_COLS {
                    (self.selected + 1) as usize
                } else {
                    (TOTAL_COLS - 1) as usize
                },
                ..self
            },
            Action::Adjust { .. } => App {
                preset: if self.selected < BASS_COL {
                    None
                } else {
                    self.preset
                },
                dirty: true,
                ..self
            },
            Action::Bass { .. } => App { dirty: true, ..self },
            Action::Treble { .. } => App { dirty: true, ..self },
            Action::Toggle => App { dirty: true, ..self },
            Action::Preset { forward } => App {
                preset: Some(next_preset(self.preset, forward) as usize),
                dirty: true,
                ..self
            },
            Action::Reset => App { preset: None, dirty: true, ..self },
            Action::Save => App { dirty: false, ..self },
            Action::Nothing => self,
        }
    }

    /// The equalizer after `action`, from `eq`.
    pub open spec fn edited(self, eq: EqView, action: Action) -> EqView {
        match action {
            Action::Adjust { up, coarse } => if self.selected < BASS_COL {
                eq.adjust_band(
                    self.selected as int,
                    directed(up, step_of(self.selected, coarse)),
                )
            } else if self.selected == BASS_COL {
                eq.adjust_bass(directed(up, step_of(self.selected, coarse)))
            } else {
                eq.adjust_treble(directed(up, step_of(self.selected, coarse)))
            },
            Action::Bass { up } => eq.adjust_bass(directed(up, 1)),
            Action::Treble { up } => eq.adjust_treble(directed(up, 1)),
            Action::Toggle => eq.set_enabled(!eq.enabled),
            Action::Preset { forward } => eq.set_gains(
                db_as_tenths(preset_gains(next_preset(self.preset, forward))),
            ).set_enabled(true),
            Action::Reset => eq.reset(),
            _ => eq,
        }
    }

    /// What a controller that shows `eq` is asked for on `action`, in order.
    pub open spec fn asks(self, eq: EqView, action: Action) -> Seq<Edit> {
        match action {
            Action::Adjust { up, coarse } => {
                let delta = directed(up, step_of(self.selected, coarse)) as i32;
                if self.selected < BASS_COL {
                    seq![Edit::Band(self.selected, delta)]
                } else if self.selected == BASS_COL {
                    seq![Edit::Bass(delta)]
                } else {
                    seq![Edit::Treble(delta)]
                }
            },
            Action::Bass { up } => seq![Edit::Bass(directed(up, 1) as i32)],
            Action::Treble { up } => seq![Edit::Treble(directed(up, 1) as i32)],
            Action::Toggle => seq![Edit::Enabled(!eq.enabled)],
            Action::Preset { forward } => seq![
                Edit::Gains(preset_gains(next_preset(self.preset, forward))),
                Edit::Enabled(true),
            ],
            Action::Reset => seq![Edit::Reset],
            Action::Save => seq![Edit::Save],
            _ => seq![],
        }
    }

    /// How often `action` edits the equalizer.
    pub open spec fn edits_of(action: Action) -> nat {
        match action {
            Action::Adjust { .. } => 1,
            Action::Bass { .. } => 1,
            Action::Treble { .. } => 1,
            Action::Toggle => 1,
            Action::Preset { .. } => 2,
            Action::Reset => 1,
            _ => 0,
        }
    }

    /// The interface at its start.
    pub fn new(preset: Option<usize>) -> (app: App)
        requires
            preset matches Some(i) ==> i < PRESET_COUNT,
        ensures
            app == (App {
                selected: 0,
                preset,
                quit: false,
                dirty: false,
                meter_l: 0,
                meter_r: 0,
            }),
            app.wf(),
    {
        App { selected: 0, preset, quit: false, dirty: false, meter_l: 0, meter_r: 0 }
    }
}

/// Move the gain of the selected column.
fn adjust_selected<C: Controller>(app: &mut App, ctrl: &mut C, up: bool, coarse: bool)
    requires
        old(app).wf(),
    ensures
        *final(app) == old(app).acted(Action::Adjust { up, coarse }),
        final(ctrl)@ == took_all::<C>(
            old(ctrl)@,
            old(app).asks(old(ctrl).shown(), Action::Adjust { up, coarse }),
        ),
        final(ctrl).shown() == old(app).edited(
            old(ctrl).shown(),
            Action::Adjust { up, coarse },
        ),
        final(ctrl).telemetry() == old(ctrl).telemetry(),
        final(ctrl).save_asked() == old(ctrl).save_asked(),
        final(ctrl).edits() == next_version(old(ctrl).edits()),
{
    proof {
        let edits = app.asks(ctrl.shown(), Action::Adjust { up, coarse });
        assert(edits.drop_last() =~= Seq::<Edit>::empty());
        reveal_with_fuel(took_all, 2);
    }
    if app.selected < BASS_COL {
        let step: i32 = if coarse {
            20
        } else {
            5
        };
        ctrl.adjust_band(app.selected, if up { step } else { -step });
        app.preset = None;
    } else {
        let step: i32 = if coarse {
            4
        } else {
            1
        };
        let delta: i32 = if up {
            step
        } else {
            -step
        };
        if app.selected == BASS_COL {
            ctrl.adjust_bass(delta);
        } else {
            ctrl.adjust_treble(delta);
        }
    }
    app.dirty = true;
}

/// Go on to the next or the previous preset and switch the equalizer on.
fn cycle_preset<C: Controller>(app: &mut App, ctrl: &mut C, forward: bool)
    requires
        old(app).wf(),
    ensures
        *final(app) == old(app).acted(Action::Preset { forward }),
        final(app).wf(),
        final(ctrl)@ == took_all::<C>(
            old(ctrl)@,
            old(app).asks(old(ctrl).shown(), Action::Preset { forward }),
        ),
        final(ctrl).shown() == old(app).edited(old(ctrl).shown(), Action::Preset { forward }),
        final(ctrl).telemetry() == old(ctrl).telemetry(),
        final(ctrl).save_asked() == old(ctrl).save_asked(),
        final(ctrl).edits() == version_after(old(ctrl).edits(), 2),
{
    proof {
        reveal_with_fuel(version_after, 3);
    }
    let next: usize = match app.preset {
        Some(i) => if forward {
            if i + 1 < PRESET_COUNT {
                i + 1
            } else {
                0
            }
        } else {
            if i > 0 {
                i - 1
            } else {
                PRESET_COUNT - 1
            }
        },
        None => if forward {
            0
        } else {
            PRESET_COUNT - 1
        },
    };
    ctrl.set_band_gains_db(&preset(next).gains_db);
    ctrl.set_enabled(true);
    proof {
        let edits = old(app).asks(old(ctrl).shown(), Action::Preset { forward });
        assert(edits.drop_last() =~= seq![edits[0]]);
        assert(edits.drop_last().drop_last() =~= Seq::<Edit>::empty());
        reveal_with_fuel(took_all, 3);
    }
    app.preset = Some(next);
    app.dirty = true;
}

/// Do what a key asks for.
pub fn handle_key<C: Controller>(app: &mut App, ctrl: &mut C, key: KeyEvent)
    requires
        old(app).wf(),
    ensures
        *final(app) == old(app).acted(meaning(key)),
        final(app).wf(),
        final(ctrl)@ == took_all::<C>(
            old(ctrl)@,
            old(app).asks(old(ctrl).shown(), meaning(key)),
        ),
        final(ctrl).shown() == old(app).edited(old(ctrl).shown(), meaning(key)),
        final(ctrl).telemetry() == old(ctrl).telemetry(),
        final(ctrl).save_asked() == (old(ctrl).save_asked() || meaning(key) == Action::Save),
        meaning(key) == Action::Save ==> final(ctrl).saves_shown(),
        final(ctrl).edits() == version_after(old(ctrl).edits(), App::edits_of(meaning(key))),
{
    proof {
        reveal_with_fuel(version_after, 2);
        let edits = app.asks(ctrl.shown(), meaning(key));
        if edits.len() == 1 {
            assert(edits.drop_last() =~= Seq::<Edit>::empty());
        }
        reveal_with_fuel(took_all, 2);
    }
    match action_of(key) {
        Action::Quit => {
            app.quit = true;
        },
        Action::SelectPrevious => {
            app.selected = app.selected.saturating_sub(1);
        },
        Action::SelectNext => {
            if app.selected + 1 < TOTAL_COLS {
                app.selected = app.selected + 1;
            } else {
                app.selected = TOTAL_COLS - 1;
            }
        },
        Action::Adjust { up, coarse } => {
            adjust_selected(app, ctrl, up, coarse);
        },
        Action::Bass { up } => {
            ctrl.adjust_bass(if up { 1 } else { -1 });
            app.dirty = true;
        },
        Action::Treble { up } => {
            ctrl.adjust_treble(if up { 1 } else { -1 });
            app.dirty = true;
        },
        Action::Toggle => {
            let enabled = ctrl.snapshot().enabled;
            ctrl.set_enabled(!enabled);
            app.dirty = true;
        },
        Action::Preset { forward } => {
            cycle_preset(app, ctrl, forward);
        },
        Action::Reset => {
            ctrl.reset_gains();
            app.preset = None;
            app.dirty = true;
        },
        Action::Save => {
            ctrl.save();
            app.dirty = false;
        },
        Action::Nothing => {},
    }
}

/// What came in from the terminal.
#[derive(Debug, Clone, Copy, PartialEq, Eq, Structural)]
pub enum UiEvent {
    /// A key went down or repeats; `release` when it came up.
    Key { key: KeyEvent, release: bool },
    Other,
}

/// What an event asks for: a key as it goes down, never as it comes up.
pub open spec fn asked(event: UiEvent) -> Action {
    match event {
        UiEvent::Key { key, release } => if release {
            Action::Nothing
        } else {
            meaning(key)
        },
        UiEvent::Other => Action::Nothing,
    }
}

/// Take one event. Tells whether the user did something.
pub fn handle_event<C: Controller>(app: &mut App, ctrl: &mut C, event: UiEvent) -> (active: bool)
    requires
        old(app).wf(),
    ensures
        active == (event matches UiEvent::Key { release, .. } && !release),
        *final(app) == old(app).acted(asked(event)),
        final(app).wf(),
        final(ctrl)@ == took_all::<C>(
            old(ctrl)@,
            old(app).asks(old(ctrl).shown(), asked(event)),
        ),
        final(ctrl).shown() == old(app).edited(old(ctrl).shown(), asked(event)),
        final(ctrl).telemetry() == old(ctrl).telemetry(),
        final(ctrl).save_asked() == (old(ctrl).save_asked() || asked(event) == Action::Save),
        asked(event) == Action::Save ==> final(ctrl).saves_shown(),
        final(ctrl).edits() == version_after(old(ctrl).edits(), App::edits_of(asked(event))),
{
    match event {
        UiEvent::Key { key, release } => {
            if release {
                false
            } else {
                handle_key(app, ctrl, key);
                true
            }
        },
        UiEvent::Other => false,
    }
}

/// A meter one frame later: the new peak, or a slow fall.
pub open spec fn meter_after(meter: i32, peak: i32) -> i32 {
    if peak >= meter - METER_DECAY {
        peak
    } else {
        (meter - METER_DECAY) as i32
    }
}

impl App {
    /// Take the peaks since the last frame into the meters.
    pub fn tick(&mut self, peak_l: i32, peak_r: i32)
        ensures
            *final(self) == (App {
                meter_l: meter_after(old(self).meter_l, peak_l),
                meter_r: meter_after(old(self).meter_r, peak_r),
                ..*old(self)
            }),
    {
        self.meter_l = fallen(self.meter_l, peak_l);
        self.meter_r = fallen(self.meter_r, peak_r);
    }

    /// Save once the user pauses, in place of saving on every key.
    pub fn save_when_due<C: Controller>(&mut self, ctrl: &mut C, since_edit_ns: u128)
        ensures
            *final(self) == (App {
                dirty: old(self).dirty && since_edit_ns <= SAVE_PAUSE_NS,
                ..*old(self)
            }),
            final(ctrl)@ == (if old(self).dirty && since_edit_ns > SAVE_PAUSE_NS {
                C::took(old(ctrl)@, Edit::Save)
            } else {
                old(ctrl)@
            }),
            final(ctrl).shown() == old(ctrl).shown(),
            final(ctrl).telemetry() == old(ctrl).telemetry(),
            final(ctrl).save_asked() == (old(ctrl).save_asked() || (old(self).dirty
                && since_edit_ns > SAVE_PAUSE_NS)),
            old(self).dirty && since_edit_ns > SAVE_PAUSE_NS ==> final(ctrl).saves_shown(),
            old(self).dirty && since_edit_ns > 400_000_000 ==> !final(self).dirty,
            old(self).dirty && since_edit_ns <= 400_000_000 ==> final(self).dirty && final(ctrl)@
                == old(ctrl)@,
            final(ctrl).edits() == old(ctrl).edits(),
    {
        if self.dirty && since_edit_ns > SAVE_PAUSE_NS {
            ctrl.save();
            self.dirty = false;
        }
    }

    /// Save what was not saved yet when the interface closes.
    pub fn save_at_end<C: Controller>(&self, ctrl: &mut C)
        ensures
            final(ctrl)@ == (if self.dirty {
                C::took(old(ctrl)@, Edit::Save)
            } else {
                old(ctrl)@
            }),
            final(ctrl).shown() == old(ctrl).shown(),
            final(ctrl).telemetry() == old(ctrl).telemetry(),
            final(ctrl).save_asked() == (old(ctrl).save_asked() || self.dirty),
            self.dirty ==> final(ctrl).saves_shown(),
            final(ctrl).edits() == old(ctrl).edits(),
    {
        if self.dirty {
            ctrl.save();
        }
    }
}

/// A meter one frame later.
fn fallen(meter: i32, peak: i32) -> (level: i32)
    ensures
        level == meter_after(meter, peak),
{
    let low: i64 = meter as i64 - METER_DECAY as i64;
    if peak as i64 >= low {
        peak
    } else {
        low as i32
    }
}

/// What the panel with the sliders shows.
pub struct Panel {
    pub title: String,
    pub border: Tone,
    pub columns: Vec<SliderColumn>,
}

/// A slider column as values.
pub struct ColumnView {
    pub gain_tenths: int,
    pub label: Seq<char>,
    pub dimmed: bool,
}

impl View for SliderColumn {
    type V = ColumnView;

    open spec fn view(&self) -> ColumnView {
        ColumnView {
            gain_tenths: self.gain_tenths as int,
            label: self.label@,
            dimmed: self.dimmed,
        }
    }
}

/// The column of a band: muted while the equalizer is off.
pub open spec fn band_column(band: EqBand, enabled: bool) -> ColumnView {
    ColumnView {
        gain_tenths: band.gain as int,
        label: hz_text(band.cutoff as int),
        dimmed: !enabled,
    }
}

/// The column of a tone shelf: muted at 0 dB.
pub open spec fn tone_column(gain_db: i32, label: Seq<char>) -> ColumnView {
    ColumnView { gain_tenths: gain_db * 10, label, dimmed: gain_db == 0 }
}

/// The slider columns: the bands, then bass and treble.
pub open spec fn panel_columns(eq: EqView) -> Seq<ColumnView> {
    Seq::new(eq.bands.len(), |i: int| band_column(eq.bands[i], eq.enabled)).push(
        tone_column(eq.bass, "Bass"@),
    ).push(tone_column(eq.treble, "Treble"@))
}

/// The views of a list of columns.
pub open spec fn column_views(columns: Seq<SliderColumn>) -> Seq<ColumnView> {
    Seq::new(columns.len(), |i: int| columns[i]@)
}

/// The name of a preset, `custom` for none.
pub open spec fn preset_label(at: Option<usize>) -> Seq<char> {
    match at {
        Some(i) => preset_name(i as int),
        None => "custom"@,
    }
}

/// The title over the sliders.
pub open spec fn panel_title(enabled: bool, at: Option<usize>) -> Seq<char> {
    " Equalizer — "@ + (if enabled {
        "ON"@
    } else {
        "OFF"@
    }) + " (±24 dB) — "@ + preset_label(at) + " "@
}

/// What the panel with the sliders shows.
pub fn panel(app: &App, eq: &EqSnapshot) -> (panel: Panel)
    requires
        app.wf(),
    ensures
        panel.title@ == panel_title(eq.enabled, app.preset),
        panel.border == (if eq.enabled {
            Tone::Pink
        } else {
            Tone::Dim
        }),
        column_views(panel.columns@) == panel_columns(eq@),
        panel.columns@.len() == eq.bands@.len() + 2,
        forall|i: int| #![trigger panel.columns@[i]]
            0 <= i < eq.bands@.len() ==> {
                &&& panel.columns@[i].gain_tenths == eq.bands@[i].gain
                &&& panel.columns@[i].label@ == hz_text(eq.bands@[i].cutoff as int)
                &&& panel.columns@[i].dimmed == !eq.enabled
            },
        ({
            let bass = panel.columns@[eq.bands@.len() as int];
            &&& bass.gain_tenths == 10 * eq.bass
            &&& bass.label@ == "Bass"@
            &&& bass.dimmed == (eq.bass == 0)
        }),
        ({
            let treble = panel.columns@[eq.bands@.len() as int + 1];
            &&& treble.gain_tenths == 10 * eq.treble
            &&& treble.label@ == "Treble"@
            &&& treble.dimmed == (eq.treble == 0)
        }),
{
    let mut columns: Vec<SliderColumn> = Vec::new();
    let mut i: usize = 0;
    while i < eq.bands.len()
        invariant
            i <= eq.bands@.len(),
            column_views(columns@) == Seq::new(
                i as nat,
                |k: int| band_column(eq.bands@[k], eq.enabled),
            ),
        decreases eq.bands@.len() - i,
    {
        let b: EqBand = eq.bands[i];
        let ghost before = columns@;
        columns.push(
            SliderColumn {
                gain_tenths: b.gain as i64,
                label: fmt_hz(b.cutoff),
                dimmed: !eq.enabled,
            },
        );
        assert(column_views(columns@) =~= column_views(before).push(columns@[i as int]@));
        i += 1;
    }
    let ghost bands = columns@;
    columns.push(
        SliderColumn {
            gain_tenths: eq.bass as i64 * 10,
            label: "Bass".to_owned(),
            dimmed: eq.bass == 0,
        },
    );
    assert(column_views(columns@) =~= column_views(bands).push(tone_column(eq.bass, "Bass"@)));
    let ghost with_bass = columns@;
    columns.push(
        SliderColumn {
            gain_tenths: eq.treble as i64 * 10,
            label: "Treble".to_owned(),
            dimmed: eq.treble == 0,
        },
    );
    assert(column_views(columns@) =~= column_views(with_bass).push(
        tone_column(eq.treble, "Treble"@),
    ));
    let mut title = " Equalizer — ".to_owned();
    if eq.enabled {
        title.append("ON");
    } else {
        title.append("OFF");
    }
    title.append(" (±24 dB) — ");
    match app.preset {
        Some(at) => title.append(preset(at).name),
        None => title.append("custom"),
    }
    title.append(" ");
    proof {
        let views = column_views(columns@);
        assert(views.len() == eq.bands@.len() + 2);
        assert forall|i: int| #![trigger columns@[i]] 0 <= i < columns@.len() implies columns@[i]@
            == panel_columns(eq@)[i] by {
            assert(views[i] == columns@[i]@);
        }
    }
    Panel {
        title,
        border: if eq.enabled {
            Tone::Pink
        } else {
            Tone::Dim
        },
        columns,
    }
}

/// Whether the panel has no room for sliders.
pub fn too_small(width: u16, height: u16) -> (yes: bool)
    ensures
        yes == (height < 5 || width < 30),
{
    height < 5 || width < 30
}

/// A piece of text in one colour.
pub struct StyledText {
    pub text: String,
    pub tone: Tone,
    pub bold: bool,
}

/// The values of a [`StyledText`].
pub struct StyledView {
    pub text: Seq<char>,
    pub tone: Tone,
    pub bold: bool,
}

impl View for StyledText {
    type V = StyledView;

    open spec fn view(&self) -> StyledView {
        StyledView { text: self.text@, tone: self.tone, bold: self.bold }
    }
}

/// The views of the pieces of a line.
pub open spec fn line_views(line: Seq<StyledText>) -> Seq<StyledView> {
    Seq::new(line.len(), |i: int| line[i]@)
}

/// What the status line says of playback: an error goes before the state.
pub open spec fn state_text(play: PlayView) -> (Seq<char>, Tone) {
    match play.error {
        Some(err) => ("✖ "@ + err, Tone::Red),
        None => if play.state == STATE_STREAMING {
            ("▶ playing"@, Tone::Green)
        } else if play.state == STATE_ENDED {
            ("■ input ended"@, Tone::Yellow)
        } else {
            ("… waiting for input"@, Tone::Comment)
        },
    }
}

/// The input rate, and the output rate where it is another.
pub open spec fn rate_text(info: StreamView) -> Seq<char> {
    if info.in_rate == info.out_rate {
        digits(info.in_rate as nat) + " Hz"@
    } else {
        digits(info.in_rate as nat) + "→"@ + digits(info.out_rate as nat) + " Hz"@
    }
}

/// Minutes and seconds of the frames played, with two digits each at least.
pub open spec fn elapsed_text(frames: nat, rate: nat) -> Seq<char> {
    let seconds = frames / (if rate == 0 {
        1
    } else {
        rate
    });
    two_digits(seconds / 60) + ":"@ + two_digits(seconds % 60)
}

/// The pieces of the status line.
pub open spec fn status_views(app: App, play: PlayView, info: StreamView) -> Seq<StyledView> {
    seq![
        StyledView {
            text: " "@ + shortened(info.input, 32) + " "@,
            tone: Tone::Pink,
            bold: true,
        },
        StyledView {
            text: info.format + " "@ + rate_text(info) + " "@,
            tone: Tone::Comment,
            bold: false,
        },
        StyledView { text: "→ "@ + info.device + " "@, tone: Tone::Comment, bold: false },
        StyledView {
            text: " "@ + state_text(play).0 + " "@,
            tone: state_text(play).1,
            bold: false,
        },
        StyledView {
            text: " "@ + elapsed_text(play.frames_played as nat, info.out_rate as nat) + " "@,
            tone: Tone::Orange,
            bold: false,
        },
        StyledView { text: " L"@, tone: Tone::Comment, bold: false },
        StyledView {
            text: meter_cells(meter_level(app.meter_l as int)),
            tone: Tone::Green,
            bold: false,
        },
        StyledView { text: " R"@, tone: Tone::Comment, bold: false },
        StyledView {
            text: meter_cells(meter_level(app.meter_r as int)),
            tone: Tone::Green,
            bold: false,
        },
    ]
}

/// What the status line says of playback.
fn playback_text(status: &PlayStatus) -> (said: (String, Tone))
    ensures
        (said.0@, said.1) == state_text(status@),
{
    match &status.error {
        Some(err) => {
            let mut text = "✖ ".to_owned();
            text.append(err.as_str());
            (text, Tone::Red)
        },
        None => {
            if status.state == STATE_STREAMING {
                ("▶ playing".to_owned(), Tone::Green)
            } else if status.state == STATE_ENDED {
                ("■ input ended".to_owned(), Tone::Yellow)
            } else {
                ("… waiting for input".to_owned(), Tone::Comment)
            }
        },
    }
}

/// The input rate, and the output rate where it is another.
fn rates(info: &StreamInfo) -> (text: String)
    ensures
        text@ == rate_text(info@),
{
    let mut text = String::new();
    push_digits(&mut text, info.in_rate as u64);
    if info.in_rate != info.out_rate {
        text.append("→");
        push_digits(&mut text, info.out_rate as u64);
    }
    text.append(" Hz");
    assert(text@ =~= rate_text(info@));
    text
}

/// Minutes and seconds of the frames played.
fn elapsed(frames: u64, rate: u32) -> (text: String)
    ensures
        text@ == elapsed_text(frames as nat, rate as nat),
{
    let per_second: u64 = if rate == 0 {
        1
    } else {
        rate as u64
    };
    let seconds: u64 = frames / per_second;
    let mut text = String::new();
    push_two_digits(&mut text, seconds / 60);
    text.append(":");
    push_two_digits(&mut text, seconds % 60);
    assert(text@ =~= elapsed_text(frames as nat, rate as nat));
    text
}

/// `text` with `before` in front of it and a space behind it.
fn framed(before: &str, text: &str) -> (out: String)
    ensures
        out@ == before@ + text@ + " "@,
{
    let mut out = before.to_owned();
    out.append(text);
    out.append(" ");
    out
}

/// A piece of plain text.
fn plain(text: String, tone: Tone) -> (piece: StyledText)
    ensures
        piece@ == (StyledView { text: text@, tone, bold: false }),
{
    StyledText { text, tone, bold: false }
}

/// The pieces of the status line: input, format and rates, output, playback,
/// elapsed time, meters.
pub fn status_line(app: &App, status: &PlayStatus, info: &StreamInfo) -> (line: Vec<StyledText>)
    ensures
        line_views(line@) == status_views(*app, status@, info@),
        line@.len() == 9,
        line@[0].text@ == " "@ + shortened(info.input@, 32) + " "@,
        line@[1].text@ == info.format@ + " "@ + rate_text(info@) + " "@,
        line@[2].text@ == "→ "@ + info.device@ + " "@,
        line@[3].text@ == " "@ + state_text(status@).0 + " "@,
        line@[3].tone == state_text(status@).1,
        line@[4].text@ == " "@ + elapsed_text(status.frames_played as nat, info.out_rate as nat)
            + " "@,
        line@[5].text@ == " L"@,
        line@[6].text@ == meter_cells(meter_level(app.meter_l as int)),
        line@[7].text@ == " R"@,
        line@[8].text@ == meter_cells(meter_level(app.meter_r as int)),
        line@[0].tone == Tone::Pink,
        line@[1].tone == Tone::Comment && line@[2].tone == Tone::Comment,
        line@[4].tone == Tone::Orange,
        line@[5].tone == Tone::Comment && line@[7].tone == Tone::Comment,
        line@[6].tone == Tone::Green && line@[8].tone == Tone::Green,
        forall|i: int| 0 <= i < 9 ==> (#[trigger] line@[i]).bold == (i == 0),
{
    let input = StyledText {
        text: framed(" ", shorten(info.input.as_str(), 32).as_str()),
        tone: Tone::Pink,
        bold: true,
    };
    let mut format = info.format.clone();
    format.append(" ");
    format.append(rates(info).as_str());
    format.append(" ");
    let state: (String, Tone) = playback_text(status);
    let mut line: Vec<StyledText> = Vec::new();
    line.push(input);
    line.push(plain(format, Tone::Comment));
    line.push(plain(framed("→ ", info.device.as_str()), Tone::Comment));
    line.push(plain(framed(" ", state.0.as_str()), state.1));
    line.push(
        plain(framed(" ", elapsed(status.frames_played, info.out_rate).as_str()), Tone::Orange),
    );
    line.push(plain(" L".to_owned(), Tone::Comment));
    line.push(plain(meter_bar(app.meter_l), Tone::Green));
    line.push(plain(" R".to_owned(), Tone::Comment));
    line.push(plain(meter_bar(app.meter_r), Tone::Green));
    assert(line_views(line@) =~= status_views(*app, status@, info@));
    assert forall|i: int| 0 <= i < 9 implies (#[trigger] line@[i]).bold == (i == 0) by {
        assert(line_views(line@)[i] == line@[i]@);
    }
    line
}

/// No key leaves the columns or the presets that there are.
pub proof fn keys_keep_selection(app: App, action: Action)
    requires
        app.wf(),
    ensures
        app.acted(action).wf(),
{
}

/// What a key shows at once on a remote equalizer is what the server makes of
/// the requests for it.
pub proof fn keys_keep_foresight(
    app: App,
    action: Action,
    before: RemoteController,
    after: RemoteController,
    server: EqView,
)
    requires
        app.wf(),
        foresees(before, server),
        after@ == took_all::<RemoteController>(before@, app.asks(before.shown(), action)),
    ensures
        foresees(after, server),
        after.shown() == app.edited(before.shown(), action),
        after.pending() == before.pending() + cmds_for(app.asks(before.shown(), action)),
{
    let edits = app.asks(before.shown(), action);
    reveal_with_fuel(all_go_over, 3);
    reveal_with_fuel(eq_after_all, 3);
    if edits.len() == 1 {
        assert(edits.drop_last() =~= Seq::<Edit>::empty());
    }
    if edits.len() == 2 {
        assert(edits.drop_last() =~= seq![edits[0]]);
        assert(edits.drop_last().drop_last() =~= Seq::<Edit>::empty());
    }
    asking_keeps_foresight(before, after, server, edits);
}

/// An edit is never lost: whatever changes the equalizer leaves the interface
/// dirty, and nothing but a save makes it clean again.
pub proof fn edits_get_saved(app: App, eq: EqView, action: Action)
    requires
        app.wf(),
    ensures
        app.edited(eq, action) != eq ==> app.acted(action).dirty,
        app.dirty && action != Action::Save ==> app.acted(action).dirty,
{
}

/// An edit never goes unnoticed: whatever changes the equalizer moves the
/// counter of edits.
pub proof fn edits_get_noticed(app: App, eq: EqView, action: Action, edits: u64)
    requires
        app.wf(),
    ensures
        app.edited(eq, action) != eq ==> version_after(edits, App::edits_of(action)) != edits,
{
    if App::edits_of(action) > 0 {
        edits_are_seen(edits, App::edits_of(action));
    }
}

/// Moving a band or resetting marks the gains as custom; the tone shelves and
/// the switch leave the preset as it is.
pub proof fn band_edits_are_custom(app: App, up: bool, coarse: bool)
    requires
        app.wf(),
    ensures
        app.selected < BASS_COL ==> app.acted(Action::Adjust { up, coarse }).preset is None,
        app.selected >= BASS_COL ==> app.acted(Action::Adjust { up, coarse }).preset
            == app.preset,
        app.acted(Action::Reset).preset is None,
        app.acted(Action::Bass { up }).preset == app.preset,
        app.acted(Action::Treble { up }).preset == app.preset,
        app.acted(Action::Toggle).preset == app.preset,
{
}

/// Going on to the next preset and back again ends at the same preset, in
/// both directions.
pub proof fn preset_steps_undo(at: usize, forward: bool)
    requires
        at < PRESET_COUNT,
    ensures
        0 <= next_preset(Some(at), forward) < PRESET_COUNT,
        next_preset(Some(next_preset(Some(at), forward) as usize), !forward) == at,
{
}

/// The preset `steps` steps on from `at`.
pub open spec fn presets_on(at: int, steps: nat) -> int
    decreases steps,
{
    if steps == 0 {
        at
    } else {
        next_preset(Some(presets_on(at, (steps - 1) as nat) as usize), true)
    }
}

/// The next-preset key passes through the presets one after the other and
/// starts over.
pub proof fn presets_go_round(at: int, steps: nat)
    requires
        0 <= at < PRESET_COUNT,
    ensures
        presets_on(at, steps) == (at + steps) % PRESET_COUNT as int,
    decreases steps,
{
    if steps > 0 {
        presets_go_round(at, (steps - 1) as nat);
    }
}

/// A preset key leaves the equalizer on, at the gains of the preset that the
/// interface then names, with every other value kept.
pub proof fn preset_key_applies(app: App, eq: EqView, forward: bool)
    requires
        app.wf(),
        eq.bands.len() == EQ_BANDS,
    ensures
        ({
            let at = app.acted(Action::Preset { forward }).preset->0;
            let after = app.edited(eq, Action::Preset { forward });
            &&& at < PRESET_COUNT
            &&& after.enabled
            &&& after.bass == eq.bass
            &&& after.treble == eq.treble
            &&& after.bands.len() == EQ_BANDS
            &&& forall|i: int|
                0 <= i < EQ_BANDS ==> (#[trigger] after.bands[i]).gain == preset_gains(at as int)[i]
                    * 10
        }),
{
    let at = app.acted(Action::Preset { forward }).preset->0;
    let after = app.edited(eq, Action::Preset { forward });
    assert forall|i: int| 0 <= i < EQ_BANDS implies (#[trigger] after.bands[i]).gain
        == preset_gains(at as int)[i] * 10 by {
        gains_apply_exactly(at as int, eq, i);
    }
}

/// Switching twice changes nothing.
pub proof fn toggling_undoes(app: App, eq: EqView)
    ensures
        app.acted(Action::Toggle).edited(app.edited(eq, Action::Toggle), Action::Toggle) == eq,
{
}

/// Moving the selected gain one way and back again ends where it was, as long
/// as its range lets it move.
pub proof fn adjusting_undoes(app: App, eq: EqView, up: bool, coarse: bool)
    requires
        ({
            let delta = directed(up, step_of(app.selected, coarse));
            if app.selected < BASS_COL {
                app.selected < eq.bands.len() ==> band_moves(
                    eq.bands[app.selected as int].gain as int,
                    delta,
                )
            } else if app.selected == BASS_COL {
                tone_moves(eq.bass as int, delta)
            } else {
                tone_moves(eq.treble as int, delta)
            }
        }),
    ensures
        ({
            let there = Action::Adjust { up, coarse };
            let back = Action::Adjust { up: !up, coarse };
            app.acted(there).edited(app.edited(eq, there), back) == eq
        }),
{
    moves_undo(eq, app.selected as int, directed(up, step_of(app.selected, coarse)));
}

/// A meter shows every new peak at once and falls by no more than the decay.
pub proof fn meter_holds_peaks(meter: i32, peak: i32)
    ensures
        meter_after(meter, peak) >= peak,
        meter_after(meter, peak) >= meter - METER_DECAY,
        meter_after(meter, peak) == peak || meter_after(meter, peak) == meter - METER_DECAY,
{
}

/// What the letters ask for; a letter that is not among them asks for nothing.
pub proof fn letters_ask(c: char, shift: bool, control: bool)
    ensures
        meaning(KeyEvent { code: KeyCode::Char('q'), shift, control }) == (Action::Quit),
        meaning(KeyEvent { code: KeyCode::Char('h'), shift, control }) == (Action::SelectPrevious),
        meaning(KeyEvent { code: KeyCode::Char('l'), shift, control }) == (Action::SelectNext),
        meaning(KeyEvent { code: KeyCode::Char('k'), shift, control }) == (Action::Adjust { up: true, coarse: shift }),
        meaning(KeyEvent { code: KeyCode::Char('+'), shift, control }) == (Action::Adjust { up: true, coarse: shift }),
        meaning(KeyEvent { code: KeyCode::Char('='), shift, control }) == (Action::Adjust { up: true, coarse: shift }),
        meaning(KeyEvent { code: KeyCode::Char('j'), shift, control }) == (Action::Adjust { up: false, coarse: shift }),
        meaning(KeyEvent { code: KeyCode::Char('-'), shift, control }) == (Action::Adjust { up: false, coarse: shift }),
        meaning(KeyEvent { code: KeyCode::Char('b'), shift, control }) == (Action::Bass { up: true }),
        meaning(KeyEvent { code: KeyCode::Char('B'), shift, control }) == (Action::Bass { up: false }),
        meaning(KeyEvent { code: KeyCode::Char('t'), shift, control }) == (Action::Treble { up: true }),
        meaning(KeyEvent { code: KeyCode::Char('T'), shift, control }) == (Action::Treble { up: false }),
        meaning(KeyEvent { code: KeyCode::Char(' '), shift, control }) == (Action::Toggle),
        meaning(KeyEvent { code: KeyCode::Char('e'), shift, control }) == (Action::Toggle),
        meaning(KeyEvent { code: KeyCode::Char('p'), shift, control }) == (Action::Preset { forward: true }),
        meaning(KeyEvent { code: KeyCode::Char('P'), shift, control }) == (Action::Preset { forward: false }),
        meaning(KeyEvent { code: KeyCode::Char('0'), shift, control }) == (Action::Reset),
        meaning(KeyEvent { code: KeyCode::Char('r'), shift, control }) == (Action::Reset),
        meaning(KeyEvent { code: KeyCode::Char('s'), shift, control }) == (Action::Save),
        meaning(KeyEvent { code: KeyCode::Char('c'), shift, control: true }) == Action::Quit,
        c != 'q' && c != 'h' && c != 'l' && c != 'k' && c != '+' && c != '=' && c != 'j' && c != '-' && c != 'b' && c != 'B' && c != 't' && c != 'T' && c != ' ' && c != 'e' && c != 'p' && c != 'P' && c != '0' && c != 'r' && c != 's' && !(c == 'c' && control) ==> meaning(
            KeyEvent { code: KeyCode::Char(c), shift, control },
        ) == Action::Nothing,
{
}

/// What the other keys ask for: the arrows select and move, with shift
/// coarsely, and escape quits.
pub proof fn arrows_ask(shift: bool, control: bool)
    ensures
        meaning(KeyEvent { code: KeyCode::Left, shift, control }) == Action::SelectPrevious,
        meaning(KeyEvent { code: KeyCode::Right, shift, control }) == Action::SelectNext,
        meaning(KeyEvent { code: KeyCode::Up, shift, control }) == (Action::Adjust {
            up: true,
            coarse: shift,
        }),
        meaning(KeyEvent { code: KeyCode::Down, shift, control }) == (Action::Adjust {
            up: false,
            coarse: shift,
        }),
        meaning(KeyEvent { code: KeyCode::Esc, shift, control }) == Action::Quit,
        meaning(KeyEvent { code: KeyCode::Other, shift, control }) == Action::Nothing,
{
}

/// A key does something as it goes down and nothing as it comes up.
pub proof fn releases_ask_nothing(key: KeyEvent)
    ensures
        asked(UiEvent::Key { key, release: false }) == meaning(key),
        asked(UiEvent::Key { key, release: true }) == Action::Nothing,
        asked(UiEvent::Other) == Action::Nothing,
{
}

/// The selected gain moves by half a dB for a band and one dB for a shelf, four
/// times that in coarse steps, within 24 dB either way, and nothing else moves.
pub proof fn selected_gain_moves(app: App, eq: EqView, up: bool, coarse: bool, i: int)
    requires
        app.wf(),
        eq.bands.len() == 10,
        0 <= i < 10,
    ensures
        ({
            let after = app.edited(eq, Action::Adjust { up, coarse });
            let sign = if up {
                1int
            } else {
                -1
            };
            let band = eq.bands[i].gain + sign * (if coarse {
                20int
            } else {
                5
            });
            let step = sign * (if coarse {
                4int
            } else {
                1
            });
            &&& after.enabled == eq.enabled
            &&& after.bands.len() == 10
            &&& after.bands[i].cutoff == eq.bands[i].cutoff
            &&& after.bands[i].q == eq.bands[i].q
            &&& app.selected != i ==> after.bands[i].gain == eq.bands[i].gain
            &&& app.selected == i && -240 <= band <= 240 ==> after.bands[i].gain == band
            &&& app.selected == i && band > 240 ==> after.bands[i].gain == 240
            &&& app.selected == i && band < -240 ==> after.bands[i].gain == -240
            &&& app.selected != 10 ==> after.bass == eq.bass
            &&& app.selected == 10 && -24 <= eq.bass + step <= 24 ==> after.bass == eq.bass + step
            &&& app.selected == 10 && eq.bass + step > 24 ==> after.bass == 24
            &&& app.selected == 10 && eq.bass + step < -24 ==> after.bass == -24
            &&& app.selected != 11 ==> after.treble == eq.treble
            &&& app.selected == 11 && -24 <= eq.treble + step <= 24 ==> after.treble == eq.treble
                + step
            &&& app.selected == 11 && eq.treble + step > 24 ==> after.treble == 24
            &&& app.selected == 11 && eq.treble + step < -24 ==> after.treble == -24
        }),
{
}

/// The tone keys move their shelf by one dB, the switch key turns the equalizer
/// on or off, the reset key flattens it, and the other keys leave it alone.
pub proof fn keys_change_their_value(app: App, eq: EqView, up: bool, i: int)
    requires
        0 <= i < eq.bands.len(),
        -24 <= eq.bass <= 24,
        -24 <= eq.treble <= 24,
    ensures
        ({
            let after = app.edited(eq, Action::Bass { up });
            &&& after == (EqView { bass: after.bass, ..eq })
            &&& up && eq.bass < 24 ==> after.bass == eq.bass + 1
            &&& up && eq.bass == 24 ==> after.bass == 24
            &&& !up && eq.bass > -24 ==> after.bass == eq.bass - 1
            &&& !up && eq.bass == -24 ==> after.bass == -24
        }),
        ({
            let after = app.edited(eq, Action::Treble { up });
            &&& after == (EqView { treble: after.treble, ..eq })
            &&& up && eq.treble < 24 ==> after.treble == eq.treble + 1
            &&& up && eq.treble == 24 ==> after.treble == 24
            &&& !up && eq.treble > -24 ==> after.treble == eq.treble - 1
            &&& !up && eq.treble == -24 ==> after.treble == -24
        }),
        app.edited(eq, Action::Toggle) == (EqView { enabled: !eq.enabled, ..eq }),
        ({
            let after = app.edited(eq, Action::Reset);
            &&& after.enabled == eq.enabled
            &&& after.bass == 0 && after.treble == 0
            &&& after.bands.len() == eq.bands.len()
            &&& after.bands[i].gain == 0
            &&& after.bands[i].cutoff == eq.bands[i].cutoff
            &&& after.bands[i].q == eq.bands[i].q
        }),
        app.edited(eq, Action::Quit) == eq,
        app.edited(eq, Action::SelectPrevious) == eq,
        app.edited(eq, Action::SelectNext) == eq,
        app.edited(eq, Action::Save) == eq,
        app.edited(eq, Action::Nothing) == eq,
{
}

/// What the controller is asked for: one move of the selected column, one dB of
/// a shelf, the switch turned, a preset's gains and then the switch on, a
/// reset, or a save. Selecting and quitting ask for nothing.
pub proof fn controllers_are_asked(app: App, eq: EqView, up: bool, coarse: bool)
    requires
        app.wf(),
    ensures
        ({
            let edits = app.asks(eq, Action::Adjust { up, coarse });
            let band = if coarse {
                20i32
            } else {
                5
            };
            let shelf = if coarse {
                4i32
            } else {
                1
            };
            &&& edits.len() == 1
            &&& app.selected < 10 && up ==> edits[0] == Edit::Band(app.selected, band)
            &&& app.selected < 10 && !up ==> edits[0] == Edit::Band(app.selected, (-band) as i32)
            &&& app.selected == 10 && up ==> edits[0] == Edit::Bass(shelf)
            &&& app.selected == 10 && !up ==> edits[0] == Edit::Bass((-shelf) as i32)
            &&& app.selected == 11 && up ==> edits[0] == Edit::Treble(shelf)
            &&& app.selected == 11 && !up ==> edits[0] == Edit::Treble((-shelf) as i32)
        }),
        app.asks(eq, Action::Bass { up: true }) == seq![Edit::Bass(1)],
        app.asks(eq, Action::Bass { up: false }) == seq![Edit::Bass(-1i32)],
        app.asks(eq, Action::Treble { up: true }) == seq![Edit::Treble(1)],
        app.asks(eq, Action::Treble { up: false }) == seq![Edit::Treble(-1i32)],
        app.asks(eq, Action::Toggle) == seq![Edit::Enabled(!eq.enabled)],
        app.asks(eq, Action::Reset) == seq![Edit::Reset],
        app.asks(eq, Action::Save) == seq![Edit::Save],
        app.asks(eq, Action::Quit).len() == 0,
        app.asks(eq, Action::SelectPrevious).len() == 0,
        app.asks(eq, Action::SelectNext).len() == 0,
        app.asks(eq, Action::Nothing).len() == 0,
        ({
            let edits = app.asks(eq, Action::Preset { forward: up });
            let at = app.acted(Action::Preset { forward: up }).preset;
            &&& edits.len() == 2
            &&& at is Some
            &&& edits[0] == Edit::Gains(preset_gains(at->0 as int))
            &&& edits[1] == Edit::Enabled(true)
        }),
{
}

/// What keys do to the interface: the selection moves by one column and stops
/// at the ends, quitting quits, an edit leaves it dirty and a save clean. The
/// meters are left alone.
pub proof fn keys_move_the_interface(app: App, action: Action)
    requires
        app.wf(),
    ensures
        ({
            let after = app.acted(action);
            &&& after.meter_l == app.meter_l && after.meter_r == app.meter_r
            &&& after.quit == (app.quit || action is Quit)
            &&& action is SelectPrevious && app.selected > 0 ==> after.selected == app.selected - 1
            &&& action is SelectPrevious && app.selected == 0 ==> after.selected == 0
            &&& action is SelectNext && app.selected < 11 ==> after.selected == app.selected + 1
            &&& action is SelectNext && app.selected == 11 ==> after.selected == 11
            &&& !(action is SelectPrevious) && !(action is SelectNext) ==> after.selected
                == app.selected
            &&& action is Adjust || action is Bass || action is Treble || action is Toggle
                || action is Preset || action is Reset ==> after.dirty
            &&& action is Save ==> !after.dirty
            &&& action is Quit || action is SelectPrevious || action is SelectNext
                || action is Nothing ==> after.dirty == app.dirty && after.preset == app.preset
            &&& action is Save ==> after.preset == app.preset
        }),
{
}

/// From no preset the keys go to the first or to the last one, and otherwise to
/// the neighbour, from one end on to the other.
pub proof fn preset_keys_go_to_the_neighbour(at: usize)
    requires
        at < 9,
    ensures
        next_preset(None, true) == 0,
        next_preset(None, false) == 8,
        at < 8 ==> next_preset(Some(at), true) == at + 1,
        at == 8 ==> next_preset(Some(at), true) == 0,
        at > 0 ==> next_preset(Some(at), false) == at - 1,
        at == 0 ==> next_preset(Some(at), false) == 8,
{
}

/// A meter shows the new peak or falls by 1800, whichever is higher.
pub proof fn meters_fall_slowly(meter: i32, peak: i32)
    ensures
        peak >= meter - 1800 ==> meter_after(meter, peak) == peak,
        peak < meter - 1800 ==> meter_after(meter, peak) == meter - 1800,
{
}

/// The columns show the gains of the bands in order, under their cutoffs, and
/// then those of the shelves in tenths of dB, under their names. Bands are muted
/// while the equalizer is off, and a shelf is at 0 dB.
pub proof fn columns_show_the_gains(eq: EqView, i: int)
    requires
        0 <= i < eq.bands.len(),
    ensures
        ({
            let columns = panel_columns(eq);
            let n = eq.bands.len() as int;
            &&& columns.len() == n + 2
            &&& columns[i].gain_tenths == eq.bands[i].gain
            &&& columns[i].label == hz_text(eq.bands[i].cutoff as int)
            &&& columns[i].dimmed == !eq.enabled
            &&& columns[n].gain_tenths == 10 * eq.bass
            &&& columns[n].label == "Bass"@
            &&& columns[n].dimmed == (eq.bass == 0)
            &&& columns[n + 1].gain_tenths == 10 * eq.treble
            &&& columns[n + 1].label == "Treble"@
            &&& columns[n + 1].dimmed == (eq.treble == 0)
        }),
{
}

/// The title tells the switch and the preset.
pub proof fn title_tells_the_switch(at: usize)
    ensures
        panel_title(true, None) == " Equalizer — "@ + "ON"@ + " (±24 dB) — "@ + "custom"@ + " "@,
        panel_title(false, None) == " Equalizer — "@ + "OFF"@ + " (±24 dB) — "@ + "custom"@
            + " "@,
        panel_title(true, Some(at)) == " Equalizer — "@ + "ON"@ + " (±24 dB) — "@ + preset_name(
            at as int,
        ) + " "@,
{
}

/// What the status line says of playback: the error where there is one, or else
/// the state.
pub proof fn playback_is_told(play: PlayView)
    ensures
        play.error matches Some(err) ==> state_text(play) == ("✖ "@ + err, Tone::Red),
        play.error is None && play.state == 1 ==> state_text(play) == ("▶ playing"@, Tone::Green),
        play.error is None && play.state == 2 ==> state_text(play) == (
            "■ input ended"@,
            Tone::Yellow,
        ),
        play.error is None && play.state != 1 && play.state != 2 ==> state_text(play) == (
            "… waiting for input"@,
            Tone::Comment,
        ),
{
}

/// The time shown is that of the frames played at the output rate: minutes, and
/// seconds below 60, which together are the whole seconds.
pub proof fn time_is_told(frames: nat, rate: nat)
    ensures
        exists|minutes: nat, seconds: nat|
            seconds < 60 && (rate > 0 ==> 60 * minutes + seconds == frames / rate) && (rate == 0
                ==> 60 * minutes + seconds == frames) && elapsed_text(frames, rate)
                == #[trigger] two_digits(minutes) + ":"@ + #[trigger] two_digits(seconds),
{
    let whole = if rate == 0 {
        frames
    } else {
        frames / rate
    };
    assert(60 * (whole / 60) + whole % 60 == whole);
    assert(elapsed_text(frames, rate) == two_digits(whole / 60) + ":"@ + two_digits(whole % 60));
}

/// Both rates are told where they differ.
pub proof fn rates_are_told(info: StreamView)
    ensures
        info.in_rate == info.out_rate ==> rate_text(info) == digits(info.in_rate as nat)
            + " Hz"@,
        info.in_rate != info.out_rate ==> rate_text(info) == digits(info.in_rate as nat) + "→"@
            + digits(info.out_rate as nat) + " Hz"@,
{
}

/// A snapshot, a status and a stream tell each of their values under its own
/// name.
pub proof fn copies_tell_their_values(eq: EqSnapshot, play: PlayStatus, info: StreamInfo)
    ensures
        eq@.enabled == eq.enabled && eq@.bands == eq.bands@,
        eq@.bass == eq.bass && eq@.treble == eq.treble,
        play@.state == play.state && play@.frames_played == play.frames_played,
        play@.peak_l == play.peak_l && play@.peak_r == play.peak_r,
        play@.error is None <==> play.error is None,
        play.error matches Some(text) ==> play@.error == Some(text@),
        info@.input == info.input@ && info@.format == info.format@,
        info@.in_rate == info.in_rate && info@.out_rate == info.out_rate,
        info@.device == info.device@,
{
}

} // verus!
