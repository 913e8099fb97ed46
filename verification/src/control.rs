//! The control surface that the interface drives, so that the same interface
//! edits the equalizer of this process or a remote one.

use vstd::prelude::*;

use crate::audio::AudioStatus;
use crate::equalizer::{db_as_tenths, next_version, EqState, EqView, Equalizer};
use crate::settings::{EqBand, EQ_BANDS};

verus! {

/// A copy of the equalizer state, enough to draw one frame.
pub struct EqSnapshot {
    pub enabled: bool,
    pub bands: Vec<EqBand>,
    pub bass: i32,
    pub treble: i32,
}

impl View for EqSnapshot {
    type V = EqView;

    open spec fn view(&self) -> EqView {
        EqView {
            enabled: self.enabled,
            bands: self.bands@,
            bass: self.bass,
            treble: self.treble,
        }
    }
}

/// A copy of the pipeline's telemetry for the status line.
pub struct PlayStatus {
    /// One of the `STATE_*` values.
    pub state: u8,
    pub error: Option<String>,
    pub frames_played: u64,
    /// Levels in 16-bit sample units.
    pub peak_l: i32,
    pub peak_r: i32,
}

/// The characters of a text that may be missing.
pub open spec fn text_of(text: Option<String>) -> Option<Seq<char>> {
    match text {
        Some(t) => Some(t@),
        None => None,
    }
}

/// The values of a [`PlayStatus`].
pub struct PlayView {
    pub state: u8,
    pub error: Option<Seq<char>>,
    pub frames_played: u64,
    pub peak_l: i32,
    pub peak_r: i32,
}

impl View for PlayStatus {
    type V = PlayView;

    open spec fn view(&self) -> PlayView {
        PlayView {
            state: self.state,
            error: text_of(self.error),
            frames_played: self.frames_played,
            peak_l: self.peak_l,
            peak_r: self.peak_r,
        }
    }
}

/// The telemetry that `status` holds.
pub open spec fn playing(status: AudioStatus) -> PlayView {
    PlayView {
        state: status.state,
        error: text_of(status.error),
        frames_played: status.frames_played,
        peak_l: status.peak_l,
        peak_r: status.peak_r,
    }
}

/// A copy of a text that may be missing.
pub fn copy_text(text: &Option<String>) -> (copy: Option<String>)
    ensures
        text_of(copy) == text_of(*text),
        copy is Some <==> text is Some,
        copy matches Some(t) ==> text is Some && t@ == text->0@,
{
    match text {
        Some(t) => Some(t.clone()),
        None => None,
    }
}

/// What a controller can be asked for.
pub enum Edit {
    /// Switch the equalizer.
    Enabled(bool),
    /// Move the gain of a band, in tenths of dB.
    Band(usize, i32),
    /// Move the bass shelf, in dB.
    Bass(i32),
    /// Move the treble shelf, in dB.
    Treble(i32),
    /// Set the band gains, in dB.
    Gains(Seq<i32>),
    /// Set every gain to 0 dB.
    Reset,
    /// Write the settings.
    Save,
}

/// The equalizer after an edit.
pub open spec fn eq_after(eq: EqView, edit: Edit) -> EqView {
    match edit {
        Edit::Enabled(enabled) => eq.set_enabled(enabled),
        Edit::Band(band, delta) => eq.adjust_band(band as int, delta as int),
        Edit::Bass(delta) => eq.adjust_bass(delta as int),
        Edit::Treble(delta) => eq.adjust_treble(delta as int),
        Edit::Gains(gains_db) => eq.set_gains(db_as_tenths(gains_db)),
        Edit::Reset => eq.reset(),
        Edit::Save => eq,
    }
}

/// Something that shows an equalizer and takes edits of it.
pub trait Controller: View {
    /// A controller, as values, after it was asked for `edit` and nothing else.
    spec fn took(before: Self::V, edit: Edit) -> Self::V;

    /// The equalizer as it is shown.
    spec fn shown(&self) -> EqView;

    /// The telemetry as it is shown.
    spec fn telemetry(&self) -> PlayView;

    /// Whether the settings are still to be written.
    spec fn save_asked(&self) -> bool;

    /// Whether the settings are still to be written, and that after every edit
    /// so far: what is shown is then what is kept.
    spec fn saves_shown(&self) -> bool;

    /// A counter that moves with every edit, so that none goes unnoticed.
    spec fn edits(&self) -> u64;

    /// A copy of the equalizer state.
    fn snapshot(&self) -> (snapshot: EqSnapshot)
        ensures
            snapshot@ == self.shown(),
            snapshot.enabled == self.shown().enabled,
            snapshot.bands@ == self.shown().bands,
            snapshot.bass == self.shown().bass,
            snapshot.treble == self.shown().treble,
    ;

    /// A copy of the telemetry.
    fn status(&self) -> (status: PlayStatus)
        ensures
            status@ == self.telemetry(),
            status.state == self.telemetry().state,
            text_of(status.error) == self.telemetry().error,
            status.frames_played == self.telemetry().frames_played,
            status.peak_l == self.telemetry().peak_l,
            status.peak_r == self.telemetry().peak_r,
    ;

    /// Switch the equalizer.
    fn set_enabled(&mut self, enabled: bool)
        ensures
            final(self)@ == Self::took(old(self)@, Edit::Enabled(enabled)),
            final(self).shown() == old(self).shown().set_enabled(enabled),
            final(self).telemetry() == old(self).telemetry(),
            final(self).save_asked() == old(self).save_asked(),
            final(self).edits() == next_version(old(self).edits()),
    ;

    /// Move a band gain, in tenths of dB.
    fn adjust_band(&mut self, band: usize, delta_tenths: i32)
        ensures
            final(self)@ == Self::took(old(self)@, Edit::Band(band, delta_tenths)),
            final(self).shown() == old(self).shown().adjust_band(band as int, delta_tenths as int),
            final(self).telemetry() == old(self).telemetry(),
            final(self).save_asked() == old(self).save_asked(),
            final(self).edits() == next_version(old(self).edits()),
    ;

    /// Move the bass shelf, in whole dB.
    fn adjust_bass(&mut self, delta_db: i32)
        ensures
            final(self)@ == Self::took(old(self)@, Edit::Bass(delta_db)),
            final(self).shown() == old(self).shown().adjust_bass(delta_db as int),
            final(self).telemetry() == old(self).telemetry(),
            final(self).save_asked() == old(self).save_asked(),
            final(self).edits() == next_version(old(self).edits()),
    ;

    /// Move the treble shelf, in whole dB.
    fn adjust_treble(&mut self, delta_db: i32)
        ensures
            final(self)@ == Self::took(old(self)@, Edit::Treble(delta_db)),
            final(self).shown() == old(self).shown().adjust_treble(delta_db as int),
            final(self).telemetry() == old(self).telemetry(),
            final(self).save_asked() == old(self).save_asked(),
            final(self).edits() == next_version(old(self).edits()),
    ;

    /// Set the band gains, in whole dB.
    fn set_band_gains_db(&mut self, gains_db: &[i32; EQ_BANDS])
        ensures
            final(self)@ == Self::took(old(self)@, Edit::Gains(gains_db@)),
            final(self).shown() == old(self).shown().set_gains(db_as_tenths(gains_db@)),
            final(self).telemetry() == old(self).telemetry(),
            final(self).save_asked() == old(self).save_asked(),
            final(self).edits() == next_version(old(self).edits()),
    ;

    /// Set every gain to 0 dB.
    fn reset_gains(&mut self)
        ensures
            final(self)@ == Self::took(old(self)@, Edit::Reset),
            final(self).shown() == old(self).shown().reset(),
            final(self).telemetry() == old(self).telemetry(),
            final(self).save_asked() == old(self).save_asked(),
            final(self).edits() == next_version(old(self).edits()),
    ;

    /// Ask for the settings to be written.
    fn save(&mut self)
        ensures
            final(self)@ == Self::took(old(self)@, Edit::Save),
            final(self).shown() == old(self).shown(),
            final(self).telemetry() == old(self).telemetry(),
            final(self).save_asked(),
            final(self).saves_shown(),
            final(self).edits() == old(self).edits(),
    ;
}

/// A controller, as values, after it was asked for `edits`, one after the
/// other.
pub open spec fn took_all<C: Controller>(before: C::V, edits: Seq<Edit>) -> C::V
    decreases edits.len(),
{
    if edits.len() == 0 {
        before
    } else {
        C::took(took_all::<C>(before, edits.drop_last()), edits.last())
    }
}

/// The equalizer and the telemetry of this process.
pub struct LocalController {
    pub eq: Equalizer,
    pub status: AudioStatus,
    /// The settings are still to be written.
    pub save_requested: bool,
}

/// The values of a [`LocalController`].
pub struct LocalView {
    pub eq: EqState,
    pub status: AudioStatus,
    pub save_requested: bool,
}

impl View for LocalController {
    type V = LocalView;

    open spec fn view(&self) -> LocalView {
        LocalView { eq: self.eq@, status: self.status, save_requested: self.save_requested }
    }
}

impl LocalController {
    /// Control of `eq`, next to the pipeline that `status` tells of.
    pub fn new(eq: Equalizer, status: AudioStatus) -> (local: LocalController)
        ensures
            local.eq == eq,
            local.status == status,
            !local.save_requested,
    {
        LocalController { eq, status, save_requested: false }
    }

    /// Whether the settings are to be written now. The request is then over.
    pub fn take_save(&mut self) -> (due: bool)
        ensures
            due == old(self).save_requested,
            *final(self) == (LocalController { save_requested: false, ..*old(self) }),
    {
        let due = self.save_requested;
        self.save_requested = false;
        due
    }
}

impl Controller for LocalController {
    /// A save waits until it is taken up and then writes what is there; any
    /// other edit goes into the equalizer at once.
    open spec fn took(before: LocalView, edit: Edit) -> LocalView {
        match edit {
            Edit::Save => LocalView { save_requested: true, ..before },
            _ => LocalView { eq: before.eq.edited(eq_after(before.eq.view, edit)), ..before },
        }
    }

    open spec fn shown(&self) -> EqView {
        self.eq@.view
    }

    open spec fn telemetry(&self) -> PlayView {
        playing(self.status)
    }

    open spec fn save_asked(&self) -> bool {
        self.save_requested
    }

    open spec fn saves_shown(&self) -> bool {
        self.save_requested
    }

    open spec fn edits(&self) -> u64 {
        self.eq@.version
    }

    fn snapshot(&self) -> (snapshot: EqSnapshot) {
        EqSnapshot {
            enabled: self.eq.is_enabled(),
            bands: self.eq.bands(),
            bass: self.eq.bass(),
            treble: self.eq.treble(),
        }
    }

    fn status(&self) -> (status: PlayStatus) {
        PlayStatus {
            state: self.status.state,
            error: copy_text(&self.status.error),
            frames_played: self.status.frames_played,
            peak_l: self.status.peak_l,
            peak_r: self.status.peak_r,
        }
    }

    fn set_enabled(&mut self, enabled: bool)
        ensures
            final(self).eq@ == old(self).eq@.edited(final(self).shown()),
            final(self).status == old(self).status,
            final(self).save_requested == old(self).save_requested,
    {
        self.eq.set_enabled(enabled);
    }

    fn adjust_band(&mut self, band: usize, delta_tenths: i32)
        ensures
            final(self).eq@ == old(self).eq@.edited(final(self).shown()),
            final(self).status == old(self).status,
            final(self).save_requested == old(self).save_requested,
    {
        self.eq.adjust_band_gain(band, delta_tenths);
    }

    fn adjust_bass(&mut self, delta_db: i32)
        ensures
            final(self).eq@ == old(self).eq@.edited(final(self).shown()),
            final(self).status == old(self).status,
            final(self).save_requested == old(self).save_requested,
    {
        self.eq.adjust_bass(delta_db);
    }

    fn adjust_treble(&mut self, delta_db: i32)
        ensures
            final(self).eq@ == old(self).eq@.edited(final(self).shown()),
            final(self).status == old(self).status,
            final(self).save_requested == old(self).save_requested,
    {
        self.eq.adjust_treble(delta_db);
    }

    fn set_band_gains_db(&mut self, gains_db: &[i32; EQ_BANDS])
        ensures
            final(self).eq@ == old(self).eq@.edited(final(self).shown()),
            final(self).status == old(self).status,
            final(self).save_requested == old(self).save_requested,
    {
        self.eq.set_band_gains_db(gains_db);
    }

    fn reset_gains(&mut self)
        ensures
            final(self).eq@ == old(self).eq@.edited(final(self).shown()),
            final(self).status == old(self).status,
            final(self).save_requested == old(self).save_requested,
    {
        self.eq.reset_gains();
    }

    fn save(&mut self)
        ensures
            final(self).eq == old(self).eq,
            final(self).status == old(self).status,
            final(self).save_requested,
    {
        self.save_requested = true;
    }
}

/// A local controller shows the equalizer and the telemetry of its process,
/// each value as it is.
pub proof fn local_shows_what_is_there(local: LocalController)
    ensures
        local.shown().enabled == local.eq@.view.enabled,
        local.shown().bands == local.eq@.view.bands,
        local.shown().bass == local.eq@.view.bass,
        local.shown().treble == local.eq@.view.treble,
        local.telemetry().state == local.status.state,
        local.telemetry().frames_played == local.status.frames_played,
        local.telemetry().peak_l == local.status.peak_l,
        local.telemetry().peak_r == local.status.peak_r,
        local.telemetry().error is None <==> local.status.error is None,
        local.status.error matches Some(text) ==> local.telemetry().error == Some(text@),
        local.save_asked() <==> local.save_requested,
        local.edits() == local.eq@.version,
{
}

/// A local controller takes an edit into its equalizer, and a save as a request
/// that waits; each leaves the other alone, and both the telemetry.
pub proof fn local_takes_edits(before: LocalView, edit: Edit)
    ensures
        ({
            let after = LocalController::took(before, edit);
            &&& after.status == before.status
            &&& edit is Save ==> after.eq == before.eq && after.save_requested
            &&& !(edit is Save) ==> after.save_requested == before.save_requested
            &&& !(edit is Save) ==> after.eq.version == (before.eq.version + 1)
                % 0x1_0000_0000_0000_0000
            &&& after.eq.bass_cutoff == before.eq.bass_cutoff
            &&& after.eq.treble_cutoff == before.eq.treble_cutoff
            &&& after.eq.view == eq_after(before.eq.view, edit)
        }),
{
}

/// Every edit does to the equalizer what it is called: it changes the one value
/// that it names, by as much as it says, and no other.
pub proof fn edits_do_what_they_are_called(eq: EqView, edit: Edit, i: int)
    requires
        0 <= i < eq.bands.len(),
    ensures
        ({
            let after = eq_after(eq, edit);
            &&& after.bands.len() == eq.bands.len()
            &&& after.bands[i].cutoff == eq.bands[i].cutoff
            &&& after.bands[i].q == eq.bands[i].q
            &&& edit matches Edit::Enabled(enabled) ==> after.enabled == enabled
            &&& !(edit is Enabled) ==> after.enabled == eq.enabled
            &&& edit matches Edit::Bass(delta) ==> (-24 <= eq.bass + delta <= 24 ==> after.bass
                == eq.bass + delta) && (eq.bass + delta > 24 ==> after.bass == 24) && (eq.bass
                + delta < -24 ==> after.bass == -24)
            &&& edit matches Edit::Treble(delta) ==> (-24 <= eq.treble + delta <= 24
                ==> after.treble == eq.treble + delta) && (eq.treble + delta > 24 ==> after.treble
                == 24) && (eq.treble + delta < -24 ==> after.treble == -24)
            &&& edit is Reset ==> after.bass == 0 && after.treble == 0 && after.bands[i].gain == 0
            &&& !(edit is Bass) && !(edit is Reset) ==> after.bass == eq.bass
            &&& !(edit is Treble) && !(edit is Reset) ==> after.treble == eq.treble
            &&& edit matches Edit::Band(band, delta) ==> {
                let wanted = eq.bands[i].gain + delta;
                &&& band != i ==> after.bands[i] == eq.bands[i]
                &&& band == i && -240 <= wanted <= 240 ==> after.bands[i].gain == wanted
                &&& band == i && wanted > 240 ==> after.bands[i].gain == 240
                &&& band == i && wanted < -240 ==> after.bands[i].gain == -240
            }
            &&& edit matches Edit::Gains(gains) ==> {
                &&& i >= gains.len() ==> after.bands[i] == eq.bands[i]
                &&& i < gains.len() && -24 <= gains[i] <= 24 ==> after.bands[i].gain == 10
                    * gains[i]
                &&& i < gains.len() && gains[i] > 24 ==> after.bands[i].gain == 240
                &&& i < gains.len() && gains[i] < -24 ==> after.bands[i].gain == -240
            }
            &&& edit is Enabled || edit is Bass || edit is Treble || edit is Save ==> after.bands
                == eq.bands
        }),
{
}

} // verus!
