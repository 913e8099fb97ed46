//! The equalizer state that a user edits and the audio side follows.
//!
//! Every change moves the version counter, so that the audio side sees by
//! comparing one number whether it has to hand the settings to the DSP again.

use rockbox_dsp::Dsp;
use vstd::prelude::*;

use crate::dsp::{
    band_fits, cutoff_or, dsp_config, dsp_with_band, dsp_with_cutoffs, dsp_with_switch,
    dsp_with_tone, enable_eq, filter_fits, kept_rate, out_rate_for, set_eq_band, set_tone,
    set_tone_cutoffs, shelf_fits, BandSetting, DspConfig, Shelves, DSP_BANDS,
};
use crate::settings::{default_cutoff, full_bands, EqBand, Settings, EQ_BANDS};

verus! {

/// Lowest band gain, in tenths of dB.
pub const GAIN_MIN_TENTHS: i32 = -240;

/// Highest band gain, in tenths of dB.
pub const GAIN_MAX_TENTHS: i32 = 240;

/// Lowest shelf gain, in dB.
pub const TONE_MIN_DB: i32 = -24;

/// Highest shelf gain, in dB.
pub const TONE_MAX_DB: i32 = 24;

/// `value` held within `low` and `high`.
pub open spec fn clamp(value: int, low: int, high: int) -> int {
    if value < low {
        low
    } else if value > high {
        high
    } else {
        value
    }
}

/// `gain` held within the band range.
pub open spec fn band_gain(gain: int) -> i32 {
    clamp(gain, GAIN_MIN_TENTHS as int, GAIN_MAX_TENTHS as int) as i32
}

/// `gain` held within the shelf range.
pub open spec fn tone_gain(gain: int) -> i32 {
    clamp(gain, TONE_MIN_DB as int, TONE_MAX_DB as int) as i32
}

/// `band` at another gain; cutoff and Q are kept.
pub open spec fn with_gain(band: EqBand, gain: i32) -> EqBand {
    EqBand { gain, ..band }
}

/// `bands` with the gain of band `at` moved by `delta`, within range. There
/// is nothing to move past the last band.
pub open spec fn adjusted_bands(bands: Seq<EqBand>, at: int, delta: int) -> Seq<EqBand> {
    if 0 <= at < bands.len() {
        bands.update(at, with_gain(bands[at], band_gain(bands[at].gain + delta)))
    } else {
        bands
    }
}

/// `bands` at the given gains, within range, as far as both lists go.
pub open spec fn bands_at_gains(bands: Seq<EqBand>, gains: Seq<int>) -> Seq<EqBand> {
    Seq::new(
        bands.len(),
        |i: int| if i < gains.len() { with_gain(bands[i], band_gain(gains[i])) } else { bands[i] },
    )
}

/// `bands` at 0 dB.
pub open spec fn flat_bands(bands: Seq<EqBand>) -> Seq<EqBand> {
    Seq::new(bands.len(), |i: int| with_gain(bands[i], 0))
}

/// Gains in whole dB as tenths.
pub open spec fn db_as_tenths(gains_db: Seq<i32>) -> Seq<int> {
    Seq::new(gains_db.len(), |i: int| gains_db[i] * 10)
}

/// Gains in tenths of dB, as integers.
pub open spec fn tenths(gains: Seq<i32>) -> Seq<int> {
    Seq::new(gains.len(), |i: int| gains[i] as int)
}

/// Whether every gain is within the band range.
pub open spec fn gains_in_range(bands: Seq<EqBand>) -> bool {
    forall|i: int|
        0 <= i < bands.len() ==> GAIN_MIN_TENTHS <= (#[trigger] bands[i]).gain <= GAIN_MAX_TENTHS
}

/// Whether two band lists differ in gains alone.
pub open spec fn same_filters(a: Seq<EqBand>, b: Seq<EqBand>) -> bool {
    &&& a.len() == b.len()
    &&& forall|i: int|
        0 <= i < a.len() ==> (#[trigger] a[i]).cutoff == b[i].cutoff && a[i].q == b[i].q
}

/// The part of the state that a user sees and edits.
#[verifier::ext_equal]
pub struct EqView {
    pub enabled: bool,
    pub bands: Seq<EqBand>,
    pub bass: i32,
    pub treble: i32,
}

impl EqView {
    /// The equalizer switched on or off.
    pub open spec fn set_enabled(self, enabled: bool) -> EqView {
        EqView { enabled, ..self }
    }

    /// The bass shelf moved by `delta` dB.
    pub open spec fn adjust_bass(self, delta: int) -> EqView {
        EqView { bass: tone_gain(self.bass + delta), ..self }
    }

    /// The treble shelf moved by `delta` dB.
    pub open spec fn adjust_treble(self, delta: int) -> EqView {
        EqView { treble: tone_gain(self.treble + delta), ..self }
    }

    /// One band moved by `delta` tenths of dB.
    pub open spec fn adjust_band(self, band: int, delta: int) -> EqView {
        EqView { bands: adjusted_bands(self.bands, band, delta), ..self }
    }

    /// The bands at the given gains in tenths of dB.
    pub open spec fn set_gains(self, gains: Seq<int>) -> EqView {
        EqView { bands: bands_at_gains(self.bands, gains), ..self }
    }

    /// Bands and shelves at 0 dB.
    pub open spec fn reset(self) -> EqView {
        EqView { bands: flat_bands(self.bands), bass: 0, treble: 0, ..self }
    }

    /// Whether every gain is within its range.
    pub open spec fn in_range(self) -> bool {
        &&& gains_in_range(self.bands)
        &&& TONE_MIN_DB <= self.bass <= TONE_MAX_DB
        &&& TONE_MIN_DB <= self.treble <= TONE_MAX_DB
    }
}

/// The version after `version`; it starts over after the last one.
pub open spec fn next_version(version: u64) -> u64 {
    if version == u64::MAX {
        0
    } else {
        (version + 1) as u64
    }
}

/// The whole state of an [`Equalizer`].
#[verifier::ext_equal]
pub struct EqState {
    pub view: EqView,
    pub bass_cutoff: i32,
    pub treble_cutoff: i32,
    pub version: u64,
}

impl EqState {
    /// The state after an edit that leads to `view`.
    pub open spec fn edited(self, view: EqView) -> EqState {
        EqState { view, version: next_version(self.version), ..self }
    }

    /// Whether a pipeline at `out_rate` can be set to this: it is made for ten
    /// bands, gains within 24 dB, Q from 0.5 and cutoffs up to half its rate.
    /// The first and the last band, at Q 0.7, may have any cutoff.
    pub open spec fn fits(self, out_rate: int) -> bool {
        &&& self.view.bands.len() >= DSP_BANDS
        &&& forall|i: int|
            0 <= i < DSP_BANDS ==> band_fits(
                i,
                sent_band(#[trigger] self.view.bands[i]),
                out_rate,
            )
        &&& TONE_MIN_DB <= self.view.bass <= TONE_MAX_DB
        &&& TONE_MIN_DB <= self.view.treble <= TONE_MAX_DB
        &&& shelf_fits(cutoff_or(self.bass_cutoff as int, 200), out_rate)
        &&& shelf_fits(cutoff_or(self.treble_cutoff as int, 3500), out_rate)
    }

    /// Whether the filters fit a pipeline at `out_rate` at any gains within
    /// range.
    pub open spec fn filters_fit(self, out_rate: int) -> bool {
        &&& self.view.bands.len() >= DSP_BANDS
        &&& forall|i: int|
            0 <= i < DSP_BANDS ==> filter_fits(
                i,
                (#[trigger] self.view.bands[i]).cutoff as int,
                self.view.bands[i].q as int,
                out_rate,
            )
        &&& shelf_fits(cutoff_or(self.bass_cutoff as int, 200), out_rate)
        &&& shelf_fits(cutoff_or(self.treble_cutoff as int, 3500), out_rate)
    }
}

/// `value` held within `low` and `high`.
fn clamped(value: i64, low: i32, high: i32) -> (held: i32)
    requires
        low <= high,
    ensures
        held == clamp(value as int, low as int, high as int),
{
    if value < low as i64 {
        low
    } else if value > high as i64 {
        high
    } else {
        value as i32
    }
}

/// Move a shelf gain by `delta` dB within the shelf range.
pub fn adjusted_tone(gain: i32, delta: i32) -> (moved: i32)
    ensures
        moved == tone_gain(gain + delta),
        -24 <= gain + delta <= 24 ==> moved == gain + delta,
        gain + delta > 24 ==> moved == 24,
        gain + delta < -24 ==> moved == -24,
{
    clamped(gain as i64 + delta as i64, TONE_MIN_DB, TONE_MAX_DB)
}

/// Move the gain of band `at` by `delta` tenths of dB within the band range.
pub fn adjust_band_in(bands: &mut Vec<EqBand>, at: usize, delta: i32)
    ensures
        final(bands)@ == adjusted_bands(old(bands)@, at as int, delta as int),
        final(bands)@.len() == old(bands)@.len(),
        forall|i: int|
            0 <= i < old(bands)@.len() && i != at ==> #[trigger] final(bands)@[i]
                == old(bands)@[i],
        at < old(bands)@.len() ==> {
            let before = old(bands)@[at as int];
            let after = final(bands)@[at as int];
            &&& after.cutoff == before.cutoff
            &&& after.q == before.q
            &&& -240 <= before.gain + delta <= 240 ==> after.gain == before.gain + delta
            &&& before.gain + delta > 240 ==> after.gain == 240
            &&& before.gain + delta < -240 ==> after.gain == -240
        },
{
    if at < bands.len() {
        let b: EqBand = bands[at];
        let gain: i32 = clamped(b.gain as i64 + delta as i64, GAIN_MIN_TENTHS, GAIN_MAX_TENTHS);
        bands.set(at, EqBand { cutoff: b.cutoff, q: b.q, gain });
    }
}

/// Set the gains of `bands` from tenths of dB, as far as both lists go.
pub fn set_gains_in(bands: &mut Vec<EqBand>, gains: &[i32])
    ensures
        final(bands)@ == bands_at_gains(old(bands)@, tenths(gains@)),
        final(bands)@.len() == old(bands)@.len(),
        forall|i: int| #![trigger final(bands)@[i]]
            0 <= i < old(bands)@.len() ==> {
                &&& final(bands)@[i].cutoff == old(bands)@[i].cutoff
                &&& final(bands)@[i].q == old(bands)@[i].q
                &&& i >= gains@.len() ==> final(bands)@[i].gain == old(bands)@[i].gain
                &&& i < gains@.len() && -240 <= gains@[i] <= 240 ==> final(bands)@[i].gain
                    == gains@[i]
                &&& i < gains@.len() && gains@[i] > 240 ==> final(bands)@[i].gain == 240
                &&& i < gains@.len() && gains@[i] < -240 ==> final(bands)@[i].gain == -240
            },
{
    let mut i: usize = 0;
    while i < bands.len() && i < gains.len()
        invariant
            i <= bands@.len(),
            i <= gains@.len(),
            bands@ == bands_at_gains(old(bands)@, tenths(gains@.take(i as int))),
        decreases bands@.len() - i,
    {
        let b: EqBand = bands[i];
        let gain: i32 = clamped(gains[i] as i64, GAIN_MIN_TENTHS, GAIN_MAX_TENTHS);
        bands.set(i, EqBand { cutoff: b.cutoff, q: b.q, gain });
        assert(bands@ =~= bands_at_gains(old(bands)@, tenths(gains@.take(i + 1))));
        i += 1;
    }
    assert(bands@ =~= bands_at_gains(old(bands)@, tenths(gains@)));
}

/// Set the gains of `bands` from whole dB, as far as both lists go.
pub fn set_gains_db_in(bands: &mut Vec<EqBand>, gains_db: &[i32; EQ_BANDS])
    ensures
        final(bands)@ == bands_at_gains(old(bands)@, db_as_tenths(gains_db@)),
        final(bands)@.len() == old(bands)@.len(),
        forall|i: int| #![trigger final(bands)@[i]]
            0 <= i < old(bands)@.len() ==> {
                &&& final(bands)@[i].cutoff == old(bands)@[i].cutoff
                &&& final(bands)@[i].q == old(bands)@[i].q
                &&& i >= 10 ==> final(bands)@[i].gain == old(bands)@[i].gain
                &&& i < 10 && -24 <= gains_db@[i] <= 24 ==> final(bands)@[i].gain == 10
                    * gains_db@[i]
                &&& i < 10 && gains_db@[i] > 24 ==> final(bands)@[i].gain == 240
                &&& i < 10 && gains_db@[i] < -24 ==> final(bands)@[i].gain == -240
            },
{
    let mut i: usize = 0;
    while i < bands.len() && i < EQ_BANDS
        invariant
            i <= bands@.len(),
            i <= EQ_BANDS,
            gains_db@.len() == EQ_BANDS,
            bands@ == bands_at_gains(old(bands)@, db_as_tenths(gains_db@.take(i as int))),
        decreases bands@.len() - i,
    {
        let b: EqBand = bands[i];
        let gain: i32 = clamped(gains_db[i] as i64 * 10, GAIN_MIN_TENTHS, GAIN_MAX_TENTHS);
        bands.set(i, EqBand { cutoff: b.cutoff, q: b.q, gain });
        assert(bands@ =~= bands_at_gains(old(bands)@, db_as_tenths(gains_db@.take(i + 1))));
        i += 1;
    }
    assert(bands@ =~= bands_at_gains(old(bands)@, db_as_tenths(gains_db@)));
}

/// Set every gain of `bands` to 0 dB.
pub fn flatten_in(bands: &mut Vec<EqBand>)
    ensures
        final(bands)@ == flat_bands(old(bands)@),
        final(bands)@.len() == old(bands)@.len(),
        forall|i: int| #![trigger final(bands)@[i]]
            0 <= i < old(bands)@.len() ==> {
                &&& final(bands)@[i].cutoff == old(bands)@[i].cutoff
                &&& final(bands)@[i].q == old(bands)@[i].q
                &&& final(bands)@[i].gain == 0
            },
{
    let mut i: usize = 0;
    while i < bands.len()
        invariant
            i <= bands@.len(),
            bands@.len() == old(bands)@.len(),
            forall|k: int| 0 <= k < i ==> bands@[k] == with_gain(old(bands)@[k], 0),
            forall|k: int| i <= k < bands@.len() ==> bands@[k] == old(bands)@[k],
        decreases bands@.len() - i,
    {
        let b: EqBand = bands[i];
        bands.set(i, EqBand { cutoff: b.cutoff, q: b.q, gain: 0 });
        i += 1;
    }
    assert(bands@ =~= flat_bands(old(bands)@));
}

/// A copy of `bands`.
pub fn copy_bands(bands: &Vec<EqBand>) -> (copy: Vec<EqBand>)
    ensures
        copy@ == bands@,
{
    let mut copy: Vec<EqBand> = Vec::new();
    let mut i: usize = 0;
    while i < bands.len()
        invariant
            i <= bands@.len(),
            copy@ == bands@.take(i as int),
        decreases bands@.len() - i,
    {
        copy.push(bands[i]);
        assert(copy@ =~= bands@.take(i + 1));
        i += 1;
    }
    assert(bands@.take(i as int) =~= bands@);
    copy
}

/// The equalizer state.
pub struct Equalizer {
    enabled: bool,
    version: u64,
    bands: Vec<EqBand>,
    /// Shelf gains in whole dB. The tone stage does not follow the EQ switch:
    /// 0 dB means off.
    bass: i32,
    treble: i32,
    /// Shelf cutoffs in Hz, 0 for the defaults. They come from the settings
    /// file alone.
    bass_cutoff: i32,
    treble_cutoff: i32,
}

impl View for Equalizer {
    type V = EqState;

    closed spec fn view(&self) -> EqState {
        EqState {
            view: EqView {
                enabled: self.enabled,
                bands: self.bands@,
                bass: self.bass,
                treble: self.treble,
            },
            bass_cutoff: self.bass_cutoff,
            treble_cutoff: self.treble_cutoff,
            version: self.version,
        }
    }
}

/// The state that `settings` describes, at version 0.
pub open spec fn state_of(settings: Settings) -> EqState {
    EqState {
        view: EqView {
            enabled: settings.eq_enabled,
            bands: settings.eq_band_settings@,
            bass: settings.bass,
            treble: settings.treble,
        },
        bass_cutoff: settings.bass_cutoff,
        treble_cutoff: settings.treble_cutoff,
        version: 0,
    }
}

impl Equalizer {
    /// An equalizer in the state that `settings` describes.
    pub fn from_settings(settings: Settings) -> (eq: Equalizer)
        ensures
            eq@ == state_of(settings),
            eq@.view.enabled == settings.eq_enabled,
            eq@.view.bands == settings.eq_band_settings@,
            eq@.view.bass == settings.bass,
            eq@.view.treble == settings.treble,
            eq@.bass_cutoff == settings.bass_cutoff,
            eq@.treble_cutoff == settings.treble_cutoff,
            eq@.version == 0,
    {
        Equalizer {
            enabled: settings.eq_enabled,
            version: 0,
            bands: settings.eq_band_settings,
            bass: settings.bass,
            treble: settings.treble,
            bass_cutoff: settings.bass_cutoff,
            treble_cutoff: settings.treble_cutoff,
        }
    }

    /// Whether the equalizer is on.
    pub fn is_enabled(&self) -> (enabled: bool)
        ensures
            enabled == self@.view.enabled,
    {
        self.enabled
    }

    /// The bass shelf gain in dB.
    pub fn bass(&self) -> (gain: i32)
        ensures
            gain == self@.view.bass,
    {
        self.bass
    }

    /// The treble shelf gain in dB.
    pub fn treble(&self) -> (gain: i32)
        ensures
            gain == self@.view.treble,
    {
        self.treble
    }

    /// The version counter.
    pub fn version(&self) -> (version: u64)
        ensures
            version == self@.version,
    {
        self.version
    }

    /// A copy of the bands.
    pub fn bands(&self) -> (bands: Vec<EqBand>)
        ensures
            bands@ == self@.view.bands,
    {
        copy_bands(&self.bands)
    }

    /// Adjust the bass shelf gain by `delta_db`, clamped to ±24 dB.
    pub fn adjust_bass(&mut self, delta_db: i32)
        ensures
            final(self)@ == old(self)@.edited(old(self)@.view.adjust_bass(delta_db as int)),
            -24 <= old(self)@.view.bass + delta_db <= 24 ==> final(self)@.view.bass
                == old(self)@.view.bass + delta_db,
            old(self)@.view.bass + delta_db > 24 ==> final(self)@.view.bass == 24,
            old(self)@.view.bass + delta_db < -24 ==> final(self)@.view.bass == -24,
            final(self)@.view.enabled == old(self)@.view.enabled,
            final(self)@.view.bands == old(self)@.view.bands,
            final(self)@.view.treble == old(self)@.view.treble,
            final(self)@.bass_cutoff == old(self)@.bass_cutoff,
            final(self)@.treble_cutoff == old(self)@.treble_cutoff,
            final(self)@.version == (old(self)@.version + 1) % 0x1_0000_0000_0000_0000,
    {
        self.bass = adjusted_tone(self.bass, delta_db);
        self.bump();
    }

    /// Adjust the treble shelf gain by `delta_db`, clamped to ±24 dB.
    pub fn adjust_treble(&mut self, delta_db: i32)
        ensures
            final(self)@ == old(self)@.edited(old(self)@.view.adjust_treble(delta_db as int)),
            -24 <= old(self)@.view.treble + delta_db <= 24 ==> final(self)@.view.treble
                == old(self)@.view.treble + delta_db,
            old(self)@.view.treble + delta_db > 24 ==> final(self)@.view.treble == 24,
            old(self)@.view.treble + delta_db < -24 ==> final(self)@.view.treble == -24,
            final(self)@.view.enabled == old(self)@.view.enabled,
            final(self)@.view.bands == old(self)@.view.bands,
            final(self)@.view.bass == old(self)@.view.bass,
            final(self)@.bass_cutoff == old(self)@.bass_cutoff,
            final(self)@.treble_cutoff == old(self)@.treble_cutoff,
            final(self)@.version == (old(self)@.version + 1) % 0x1_0000_0000_0000_0000,
    {
        self.treble = adjusted_tone(self.treble, delta_db);
        self.bump();
    }

    /// Switch the equalizer.
    pub fn set_enabled(&mut self, enabled: bool)
        ensures
            final(self)@ == old(self)@.edited(old(self)@.view.set_enabled(enabled)),
            final(self)@.view.enabled == enabled,
            final(self)@.view.bands == old(self)@.view.bands,
            final(self)@.view.bass == old(self)@.view.bass,
            final(self)@.view.treble == old(self)@.view.treble,
            final(self)@.bass_cutoff == old(self)@.bass_cutoff,
            final(self)@.treble_cutoff == old(self)@.treble_cutoff,
            final(self)@.version == (old(self)@.version + 1) % 0x1_0000_0000_0000_0000,
    {
        self.enabled = enabled;
        self.bump();
    }

    /// Adjust one band's gain by `delta_tenths_db`, clamped to ±24 dB.
    pub fn adjust_band_gain(&mut self, band: usize, delta_tenths_db: i32)
        ensures
            final(self)@ == old(self)@.edited(
                old(self)@.view.adjust_band(band as int, delta_tenths_db as int),
            ),
            final(self)@.view.bands.len() == old(self)@.view.bands.len(),
            forall|i: int|
                0 <= i < old(self)@.view.bands.len() && i != band ==> final(self)@.view.bands[i]
                    == #[trigger] old(self)@.view.bands[i],
            band < old(self)@.view.bands.len() ==> {
                let before = old(self)@.view.bands[band as int];
                let after = final(self)@.view.bands[band as int];
                &&& after.cutoff == before.cutoff
                &&& after.q == before.q
                &&& -240 <= before.gain + delta_tenths_db <= 240 ==> after.gain == before.gain
                    + delta_tenths_db
                &&& before.gain + delta_tenths_db > 240 ==> after.gain == 240
                &&& before.gain + delta_tenths_db < -240 ==> after.gain == -240
            },
            final(self)@.view.enabled == old(self)@.view.enabled,
            final(self)@.view.bass == old(self)@.view.bass,
            final(self)@.view.treble == old(self)@.view.treble,
            final(self)@.bass_cutoff == old(self)@.bass_cutoff,
            final(self)@.treble_cutoff == old(self)@.treble_cutoff,
            final(self)@.version == (old(self)@.version + 1) % 0x1_0000_0000_0000_0000,
    {
        adjust_band_in(&mut self.bands, band, delta_tenths_db);
        self.bump();
    }

    /// Replace every band gain (whole dB). Cutoffs and Q are kept.
    pub fn set_band_gains_db(&mut self, gains_db: &[i32; EQ_BANDS])
        ensures
            final(self)@ == old(self)@.edited(
                old(self)@.view.set_gains(db_as_tenths(gains_db@)),
            ),
            final(self)@.view.bands.len() == old(self)@.view.bands.len(),
            forall|i: int| #![trigger final(self)@.view.bands[i]]
                0 <= i < old(self)@.view.bands.len() ==> {
                    let before = old(self)@.view.bands[i];
                    let after = final(self)@.view.bands[i];
                    &&& after.cutoff == before.cutoff
                    &&& after.q == before.q
                    &&& i >= 10 ==> after.gain == before.gain
                    &&& i < 10 && -24 <= gains_db@[i] <= 24 ==> after.gain == 10 * gains_db@[i]
                    &&& i < 10 && gains_db@[i] > 24 ==> after.gain == 240
                    &&& i < 10 && gains_db@[i] < -24 ==> after.gain == -240
                },
            final(self)@.view.enabled == old(self)@.view.enabled,
            final(self)@.view.bass == old(self)@.view.bass,
            final(self)@.view.treble == old(self)@.view.treble,
            final(self)@.bass_cutoff == old(self)@.bass_cutoff,
            final(self)@.treble_cutoff == old(self)@.treble_cutoff,
            final(self)@.version == (old(self)@.version + 1) % 0x1_0000_0000_0000_0000,
    {
        set_gains_db_in(&mut self.bands, gains_db);
        self.bump();
    }

    /// Replace band gains from tenths of dB. Cutoffs and Q are kept.
    pub fn set_band_gains_tenths(&mut self, gains_tenths: &[i32])
        ensures
            final(self)@ == old(self)@.edited(
                old(self)@.view.set_gains(tenths(gains_tenths@)),
            ),
            final(self)@.view.bands.len() == old(self)@.view.bands.len(),
            forall|i: int| #![trigger final(self)@.view.bands[i]]
                0 <= i < old(self)@.view.bands.len() ==> {
                    let before = old(self)@.view.bands[i];
                    let after = final(self)@.view.bands[i];
                    &&& after.cutoff == before.cutoff
                    &&& after.q == before.q
                    &&& i >= gains_tenths@.len() ==> after.gain == before.gain
                    &&& i < gains_tenths@.len() && -240 <= gains_tenths@[i] <= 240 ==> after.gain
                        == gains_tenths@[i]
                    &&& i < gains_tenths@.len() && gains_tenths@[i] > 240 ==> after.gain == 240
                    &&& i < gains_tenths@.len() && gains_tenths@[i] < -240 ==> after.gain == -240
                },
            final(self)@.view.enabled == old(self)@.view.enabled,
            final(self)@.view.bass == old(self)@.view.bass,
            final(self)@.view.treble == old(self)@.view.treble,
            final(self)@.bass_cutoff == old(self)@.bass_cutoff,
            final(self)@.treble_cutoff == old(self)@.treble_cutoff,
            final(self)@.version == (old(self)@.version + 1) % 0x1_0000_0000_0000_0000,
    {
        set_gains_in(&mut self.bands, gains_tenths);
        self.bump();
    }

    /// Reset every band's gain and the shelves to 0 dB. Cutoffs and Q are
    /// kept.
    pub fn reset_gains(&mut self)
        ensures
            final(self)@ == old(self)@.edited(old(self)@.view.reset()),
            final(self)@.view.bands.len() == old(self)@.view.bands.len(),
            forall|i: int| #![trigger final(self)@.view.bands[i]]
                0 <= i < old(self)@.view.bands.len() ==> {
                    let before = old(self)@.view.bands[i];
                    let after = final(self)@.view.bands[i];
                    after.cutoff == before.cutoff && after.q == before.q && after.gain == 0
                },
            final(self)@.view.bass == 0,
            final(self)@.view.treble == 0,
            final(self)@.view.enabled == old(self)@.view.enabled,
            final(self)@.bass_cutoff == old(self)@.bass_cutoff,
            final(self)@.treble_cutoff == old(self)@.treble_cutoff,
            final(self)@.version == (old(self)@.version + 1) % 0x1_0000_0000_0000_0000,
    {
        flatten_in(&mut self.bands);
        self.bass = 0;
        self.treble = 0;
        self.bump();
    }

    /// Replace the bands.
    pub fn set_bands(&mut self, new_bands: Vec<EqBand>)
        ensures
            final(self)@ == old(self)@.edited(
                EqView { bands: new_bands@, ..old(self)@.view },
            ),
            final(self)@.view.bands == new_bands@,
            final(self)@.view.enabled == old(self)@.view.enabled,
            final(self)@.view.bass == old(self)@.view.bass,
            final(self)@.view.treble == old(self)@.view.treble,
            final(self)@.bass_cutoff == old(self)@.bass_cutoff,
            final(self)@.treble_cutoff == old(self)@.treble_cutoff,
            final(self)@.version == (old(self)@.version + 1) % 0x1_0000_0000_0000_0000,
    {
        self.bands = new_bands;
        self.bump();
    }

    /// Move the version counter.
    fn bump(&mut self)
        ensures
            final(self)@ == old(self)@.edited(old(self)@.view),
    {
        self.version = self.version.wrapping_add(1);
    }

    /// The settings that saving writes, given those on disk: the equalizer's
    /// own values are replaced, every other section stays as it is on disk.
    pub fn try_save(&self, on_disk: Settings) -> (settings: Settings)
        ensures
            state_of(settings) == (EqState { version: 0, ..self@ }),
            settings.eq_enabled == self@.view.enabled,
            settings.eq_band_settings@ == self@.view.bands,
            settings.bass == self@.view.bass,
            settings.treble == self@.view.treble,
            settings.bass_cutoff == self@.bass_cutoff,
            settings.treble_cutoff == self@.treble_cutoff,
            settings.api == on_disk.api,
    {
        Settings {
            eq_enabled: self.enabled,
            eq_band_settings: self.bands(),
            bass: self.bass,
            treble: self.treble,
            bass_cutoff: self.bass_cutoff,
            treble_cutoff: self.treble_cutoff,
            api: on_disk.api,
        }
    }

    /// Whether a pipeline made for the output rate `rate` can be set to the
    /// current state.
    pub fn fits(&self, rate: u32) -> (yes: bool)
        ensures
            yes == self@.fits(out_rate_for(rate)),
    {
        let out_rate: i64 = kept_rate(rate) as i64;
        if self.bands.len() < DSP_BANDS {
            return false;
        }
        let mut i: usize = 0;
        while i < DSP_BANDS
            invariant
                i <= DSP_BANDS,
                DSP_BANDS <= self.bands@.len(),
                out_rate == out_rate_for(rate),
                forall|k: int|
                    0 <= k < i ==> band_fits(
                        k,
                        sent_band(#[trigger] self.bands@[k]),
                        out_rate as int,
                    ),
            decreases DSP_BANDS - i,
        {
            let b: EqBand = self.bands[i];
            let shelf = (i == 0 || i == DSP_BANDS - 1) && b.q == 7;
            let usable = 0 < b.cutoff && (shelf || (2 * b.cutoff as i64 <= out_rate && b.q >= 5))
                && GAIN_MIN_TENTHS <= b.gain && b.gain <= GAIN_MAX_TENTHS;
            if b.gain != 0 && !usable {
                assert(!band_fits(i as int, sent_band(self@.view.bands[i as int]), out_rate as int));
                return false;
            }
            i += 1;
        }
        let bass_cutoff: i64 = if self.bass_cutoff > 0 {
            self.bass_cutoff as i64
        } else {
            200
        };
        let treble_cutoff: i64 = if self.treble_cutoff > 0 {
            self.treble_cutoff as i64
        } else {
            3500
        };
        TONE_MIN_DB <= self.bass && self.bass <= TONE_MAX_DB && TONE_MIN_DB <= self.treble
            && self.treble <= TONE_MAX_DB && 2 * bass_cutoff <= out_rate && 2 * bass_cutoff
            <= 44100 && 2 * treble_cutoff <= out_rate && 2 * treble_cutoff <= 44100
    }

    /// Hand the current state to a DSP: the bands, the switch, the shelf
    /// cutoffs, and then the shelf gains, which rebuild the shelves from the
    /// cutoffs in force. Nothing else is done to the DSP.
    ///
    /// A `Dsp` is a handle to one static pipeline of the process: what is said
    /// of `dsp` here holds while it is the only handle.
    pub fn apply_to(&self, dsp: &mut Dsp)
        requires
            self@.fits(dsp_config(*old(dsp)).out_rate),
        ensures
            *final(dsp) == applied(*old(dsp), self@),
            dsp_config(*final(dsp)) == configured(dsp_config(*old(dsp)), self@),
            dsp_config(*final(dsp)).eq_on == self@.view.enabled,
            forall|i: int| #![trigger dsp_config(*final(dsp)).bands[i]]
                0 <= i < 10 ==> {
                    let set = dsp_config(*final(dsp)).bands[i];
                    let band = self@.view.bands[i];
                    &&& dsp_config(*final(dsp)).bands.dom().contains(i)
                    &&& set.cutoff == band.cutoff
                    &&& set.q == band.q
                    &&& set.gain == band.gain
                },
            dsp_config(*final(dsp)).shelves.bass == self@.view.bass,
            dsp_config(*final(dsp)).shelves.treble == self@.view.treble,
            dsp_config(*final(dsp)).shelves.bass_cutoff == (if self@.bass_cutoff > 0 {
                self@.bass_cutoff as int
            } else {
                200
            }),
            dsp_config(*final(dsp)).shelves.treble_cutoff == (if self@.treble_cutoff > 0 {
                self@.treble_cutoff as int
            } else {
                3500
            }),
            dsp_config(*final(dsp)).in_rate == dsp_config(*old(dsp)).in_rate,
            dsp_config(*final(dsp)).out_rate == dsp_config(*old(dsp)).out_rate,
    {
        let ghost before = dsp_config(*dsp);
        assert(before.bands.union_prefer_right(sent_bands(self.bands@.take(0))) =~= before.bands);
        let mut i: usize = 0;
        while i < self.bands.len() && i < DSP_BANDS
            invariant
                i <= self.bands@.len(),
                i <= DSP_BANDS,
                self@.fits(before.out_rate),
                *dsp == with_bands(*old(dsp), self.bands@, i as nat),
                dsp_config(*dsp) == (DspConfig {
                    bands: before.bands.union_prefer_right(sent_bands(self.bands@.take(i as int))),
                    ..before
                }),
            decreases DSP_BANDS - i,
        {
            let b: EqBand = self.bands[i];
            assert(band_fits(i as int, sent_band(self@.view.bands[i as int]), before.out_rate));
            set_eq_band(dsp, i, b.cutoff, b.q, b.gain);
            assert(dsp_config(*dsp).bands =~= before.bands.union_prefer_right(
                sent_bands(self.bands@.take(i + 1)),
            ));
            i += 1;
        }
        assert(before.bands.union_prefer_right(sent_bands(self.bands@.take(i as int)))
            =~= before.bands.union_prefer_right(sent_bands(self.bands@)));
        assert forall|k: int| 0 <= k < DSP_BANDS implies dsp_config(*dsp).bands.dom().contains(k)
            && band_fits(k, #[trigger] dsp_config(*dsp).bands[k], before.out_rate) by {
            assert(band_fits(k, sent_band(self@.view.bands[k]), before.out_rate));
        }
        enable_eq(dsp, self.enabled);
        set_tone_cutoffs(dsp, self.bass_cutoff, self.treble_cutoff);
        set_tone(dsp, self.bass, self.treble);
    }
}

/// A band as a DSP is handed it.
pub open spec fn sent_band(band: EqBand) -> BandSetting {
    BandSetting { cutoff: band.cutoff as int, q: band.q as int, gain: band.gain as int }
}

/// A DSP after it was handed the first `n` of `bands`, in order.
pub open spec fn with_bands(dsp: Dsp, bands: Seq<EqBand>, n: nat) -> Dsp
    decreases n,
{
    if n == 0 {
        dsp
    } else {
        dsp_with_band(
            with_bands(dsp, bands, (n - 1) as nat),
            n - 1,
            bands[n - 1].cutoff,
            bands[n - 1].q,
            bands[n - 1].gain,
        )
    }
}

/// A DSP after `state` was handed to it.
pub open spec fn applied(dsp: Dsp, state: EqState) -> Dsp {
    let bands = with_bands(
        dsp,
        state.view.bands,
        if state.view.bands.len() < DSP_BANDS {
            state.view.bands.len()
        } else {
            DSP_BANDS as nat
        },
    );
    dsp_with_tone(
        dsp_with_cutoffs(
            dsp_with_switch(bands, state.view.enabled),
            state.bass_cutoff,
            state.treble_cutoff,
        ),
        state.view.bass,
        state.view.treble,
    )
}

/// The band settings that a DSP is handed for `bands`.
pub open spec fn sent_bands(bands: Seq<EqBand>) -> Map<int, BandSetting> {
    Map::new(
        |i: int| 0 <= i < bands.len() && i < DSP_BANDS,
        |i: int| sent_band(bands[i]),
    )
}

/// The shelves that `state` asks for.
pub open spec fn wanted_shelves(state: EqState) -> Shelves {
    Shelves {
        bass_cutoff: cutoff_or(state.bass_cutoff as int, 200),
        treble_cutoff: cutoff_or(state.treble_cutoff as int, 3500),
        bass: state.view.bass as int,
        treble: state.view.treble as int,
    }
}

/// A DSP configuration after `state` was handed to it.
pub open spec fn configured(config: DspConfig, state: EqState) -> DspConfig {
    DspConfig {
        bands: config.bands.union_prefer_right(sent_bands(state.view.bands)),
        eq_on: state.view.enabled,
        cutoffs: (wanted_shelves(state).bass_cutoff, wanted_shelves(state).treble_cutoff),
        shelves: wanted_shelves(state),
        ..config
    }
}

/// Whether a DSP configuration is what `state` asks for.
pub open spec fn follows(config: DspConfig, state: EqState) -> bool {
    config == configured(config, state)
}

/// Once handed a state, a DSP follows it.
pub proof fn configured_follows(config: DspConfig, state: EqState)
    ensures
        follows(configured(config, state), state),
{
    let once = configured(config, state);
    assert(once.bands.union_prefer_right(sent_bands(state.view.bands)) =~= once.bands);
}

/// Every edit moves the version counter, so an edit never goes unseen by
/// whoever remembers the version before it.
pub proof fn edit_moves_version(state: EqState, view: EqView)
    ensures
        state.edited(view).version != state.version,
{
}

/// The version after `edits` edits.
pub open spec fn version_after(version: u64, edits: nat) -> u64
    decreases edits,
{
    if edits == 0 {
        version
    } else {
        next_version(version_after(version, (edits - 1) as nat))
    }
}

/// Any number of edits short of a full turn of the counter leaves another
/// version than the one before them.
pub proof fn edits_are_seen(version: u64, edits: nat)
    requires
        0 < edits <= u64::MAX,
    ensures
        version_after(version, edits) != version,
{
    version_counts_edits(version, edits);
}

/// The version counts edits, starting over after the last version.
pub proof fn version_counts_edits(version: u64, edits: nat)
    ensures
        version_after(version, edits) == (version + edits) % 0x1_0000_0000_0000_0000,
    decreases edits,
{
    if edits > 0 {
        version_counts_edits(version, (edits - 1) as nat);
    }
}

/// Every edit of gains keeps the number of bands and each band's cutoff and
/// Q.
pub proof fn gain_edits_keep_filters(view: EqView, band: int, delta: int, gains: Seq<int>)
    ensures
        same_filters(view.adjust_band(band, delta).bands, view.bands),
        same_filters(view.set_gains(gains).bands, view.bands),
        same_filters(view.reset().bands, view.bands),
{
}

/// Gains that are within their ranges stay there under every edit, and the
/// edited gain is within its range whatever it was before.
pub proof fn edits_stay_in_range(
    view: EqView,
    enabled: bool,
    band: int,
    delta: int,
    gains: Seq<int>,
)
    ensures
        view.in_range() ==> {
            &&& view.set_enabled(enabled).in_range()
            &&& view.adjust_bass(delta).in_range()
            &&& view.adjust_treble(delta).in_range()
            &&& view.adjust_band(band, delta).in_range()
            &&& view.set_gains(gains).in_range()
        },
        view.reset().in_range(),
        TONE_MIN_DB <= view.adjust_bass(delta).bass <= TONE_MAX_DB,
        TONE_MIN_DB <= view.adjust_treble(delta).treble <= TONE_MAX_DB,
        0 <= band < view.bands.len() ==> GAIN_MIN_TENTHS <= view.adjust_band(
            band,
            delta,
        ).bands[band].gain <= GAIN_MAX_TENTHS,
        gains.len() >= view.bands.len() ==> gains_in_range(view.set_gains(gains).bands),
{
}

/// Filters that fit a DSP's rate fit it at any gains within range.
pub proof fn in_range_fits(state: EqState, out_rate: int)
    requires
        state.filters_fit(out_rate),
        state.view.in_range(),
    ensures
        state.fits(out_rate),
{
    assert forall|i: int| 0 <= i < DSP_BANDS implies band_fits(
        i,
        sent_band(#[trigger] state.view.bands[i]),
        out_rate,
    ) by {
        assert(filter_fits(
            i,
            state.view.bands[i].cutoff as int,
            state.view.bands[i].q as int,
            out_rate,
        ));
    }
}

/// No edit of gains or of the switch keeps filters from fitting.
pub proof fn edits_keep_filters_fit(
    state: EqState,
    out_rate: int,
    enabled: bool,
    band: int,
    delta: int,
    gains: Seq<int>,
)
    requires
        state.filters_fit(out_rate),
    ensures
        state.edited(state.view.set_enabled(enabled)).filters_fit(out_rate),
        state.edited(state.view.adjust_bass(delta)).filters_fit(out_rate),
        state.edited(state.view.adjust_treble(delta)).filters_fit(out_rate),
        state.edited(state.view.adjust_band(band, delta)).filters_fit(out_rate),
        state.edited(state.view.set_gains(gains)).filters_fit(out_rate),
        state.edited(state.view.reset()).filters_fit(out_rate),
{
    same_filters_fit(state, state.view.adjust_band(band, delta), out_rate);
    same_filters_fit(state, state.view.set_gains(gains), out_rate);
    same_filters_fit(state, state.view.reset(), out_rate);
}

/// Filters that differ in gains alone fit alike.
proof fn same_filters_fit(state: EqState, view: EqView, out_rate: int)
    requires
        state.filters_fit(out_rate),
        same_filters(view.bands, state.view.bands),
    ensures
        state.edited(view).filters_fit(out_rate),
{
    assert forall|i: int| 0 <= i < DSP_BANDS implies filter_fits(
        i,
        (#[trigger] view.bands[i]).cutoff as int,
        view.bands[i].q as int,
        out_rate,
    ) by {
        assert(filter_fits(
            i,
            state.view.bands[i].cutoff as int,
            state.view.bands[i].q as int,
            out_rate,
        ));
    }
}

/// The default filters fit from 16 kHz on, and flat they fit at every rate.
pub proof fn defaults_fit(settings: Settings, out_rate: int)
    requires
        settings.is_default(),
        8000 <= out_rate,
    ensures
        out_rate >= 16000 ==> state_of(settings).filters_fit(out_rate),
        state_of(settings).fits(out_rate),
{
    assert forall|i: int| 0 <= i < DSP_BANDS implies 0 < (
    #[trigger] settings.eq_band_settings@[i]).cutoff <= 16000 && settings.eq_band_settings@[i].q
        == 7 && settings.eq_band_settings@[i].gain == 0 by {
        assert(0 < default_cutoff(i) <= 16000);
    }
}

/// The EQ switch leaves the gains alone, and a DSP keeps filtering with the
/// same shelves whichever way it is switched.
pub proof fn switch_keeps_tone(state: EqState, enabled: bool, config: DspConfig)
    ensures
        state.view.set_enabled(enabled).bass == state.view.bass,
        state.view.set_enabled(enabled).treble == state.view.treble,
        state.view.set_enabled(enabled).bands == state.view.bands,
        configured(config, state.edited(state.view.set_enabled(enabled))).shelves == configured(
            config,
            state,
        ).shelves,
{
}

/// A reset leaves every gain at 0 dB and the switch alone; a second reset
/// changes nothing more.
pub proof fn reset_is_flat(view: EqView)
    ensures
        forall|i: int| 0 <= i < view.bands.len() ==> (#[trigger] view.reset().bands[i]).gain == 0,
        view.reset().bass == 0,
        view.reset().treble == 0,
        view.reset().enabled == view.enabled,
        view.reset().reset() == view.reset(),
{
    assert(view.reset().reset() =~= view.reset());
}

/// Moving a gain back undoes moving it, as long as neither move meets the end
/// of the range.
pub proof fn moves_undo(view: EqView, band: int, delta: int)
    ensures
        tone_moves(view.bass as int, delta) ==> view.adjust_bass(delta).adjust_bass(-delta)
            == view,
        tone_moves(view.treble as int, delta) ==> view.adjust_treble(delta).adjust_treble(-delta)
            == view,
        0 <= band < view.bands.len() && band_moves(view.bands[band].gain as int, delta)
            ==> view.adjust_band(band, delta).adjust_band(band, -delta) == view,
{
    assert(0 <= band < view.bands.len() && band_moves(view.bands[band].gain as int, delta)
        ==> view.adjust_band(band, delta).adjust_band(band, -delta).bands =~= view.bands);
}

/// Whether a shelf gain can move by `delta` within its range.
pub open spec fn tone_moves(gain: int, delta: int) -> bool {
    &&& TONE_MIN_DB <= gain <= TONE_MAX_DB
    &&& TONE_MIN_DB <= gain + delta <= TONE_MAX_DB
}

/// Whether a band gain can move by `delta` within its range.
pub open spec fn band_moves(gain: int, delta: int) -> bool {
    &&& GAIN_MIN_TENTHS <= gain <= GAIN_MAX_TENTHS
    &&& GAIN_MIN_TENTHS <= gain + delta <= GAIN_MAX_TENTHS
}

/// What is saved comes back: an equalizer made from the settings that one
/// with a full band list saved, read back as a file, is in the same state.
pub proof fn saved_state_comes_back(state: EqState, saved: Settings, loaded: Settings)
    requires
        state.view.bands.len() == EQ_BANDS,
        state_of(saved) == (EqState { version: 0, ..state }),
        loaded.eq_band_settings@ == full_bands(saved.eq_band_settings@),
        loaded == (Settings { eq_band_settings: loaded.eq_band_settings, ..saved }),
    ensures
        state_of(loaded) == (EqState { version: 0, ..state }),
        loaded.api == saved.api,
{
    assert(full_bands(saved.eq_band_settings@) =~= saved.eq_band_settings@);
}

/// Moving a band moves its gain by exactly as much as was asked for, up to
/// 24 dB either way, and leaves its cutoff, its Q and everything else alone. A
/// band that does not exist is not moved.
pub proof fn band_moves_by_delta(view: EqView, band: int, delta: int)
    ensures
        ({
            let after = view.adjust_band(band, delta);
            &&& after.enabled == view.enabled
            &&& after.bass == view.bass
            &&& after.treble == view.treble
            &&& after.bands.len() == view.bands.len()
            &&& forall|i: int|
                0 <= i < view.bands.len() && i != band ==> #[trigger] after.bands[i]
                    == view.bands[i]
            &&& 0 <= band < view.bands.len() ==> {
                let wanted = view.bands[band].gain + delta;
                &&& after.bands[band].cutoff == view.bands[band].cutoff
                &&& after.bands[band].q == view.bands[band].q
                &&& -240 <= wanted <= 240 ==> after.bands[band].gain == wanted
                &&& wanted > 240 ==> after.bands[band].gain == 240
                &&& wanted < -240 ==> after.bands[band].gain == -240
            }
        }),
{
}

/// Moving a shelf moves its gain by exactly as much as was asked for, up to
/// 24 dB either way, and leaves everything else alone.
pub proof fn shelves_move_by_delta(view: EqView, delta: int)
    ensures
        ({
            let after = view.adjust_bass(delta);
            let wanted = view.bass + delta;
            &&& -24 <= wanted <= 24 ==> after.bass == wanted
            &&& wanted > 24 ==> after.bass == 24
            &&& wanted < -24 ==> after.bass == -24
            &&& after.treble == view.treble
            &&& after.bands == view.bands
            &&& after.enabled == view.enabled
        }),
        ({
            let after = view.adjust_treble(delta);
            let wanted = view.treble + delta;
            &&& -24 <= wanted <= 24 ==> after.treble == wanted
            &&& wanted > 24 ==> after.treble == 24
            &&& wanted < -24 ==> after.treble == -24
            &&& after.bass == view.bass
            &&& after.bands == view.bands
            &&& after.enabled == view.enabled
        }),
{
}

/// Gains in tenths of dB are taken over one by one, up to 24 dB either way;
/// bands without one keep theirs. Nothing else changes.
pub proof fn gains_are_taken_over(view: EqView, gains: Seq<i32>)
    ensures
        ({
            let after = view.set_gains(tenths(gains));
            &&& after.enabled == view.enabled
            &&& after.bass == view.bass
            &&& after.treble == view.treble
            &&& after.bands.len() == view.bands.len()
            &&& forall|i: int| #![trigger after.bands[i]]
                0 <= i < view.bands.len() ==> {
                    &&& after.bands[i].cutoff == view.bands[i].cutoff
                    &&& after.bands[i].q == view.bands[i].q
                    &&& i >= gains.len() ==> after.bands[i].gain == view.bands[i].gain
                    &&& i < gains.len() && -240 <= gains[i] <= 240 ==> after.bands[i].gain
                        == gains[i]
                    &&& i < gains.len() && gains[i] > 240 ==> after.bands[i].gain == 240
                    &&& i < gains.len() && gains[i] < -240 ==> after.bands[i].gain == -240
                }
        }),
{
}

/// Gains in whole dB are ten times as many tenths.
pub proof fn whole_db_are_ten_tenths(view: EqView, gains_db: Seq<i32>, gains: Seq<i32>)
    requires
        gains.len() == gains_db.len(),
        forall|i: int| 0 <= i < gains.len() ==> #[trigger] gains[i] == 10 * gains_db[i],
    ensures
        view.set_gains(db_as_tenths(gains_db)) == view.set_gains(tenths(gains)),
{
    assert(db_as_tenths(gains_db) =~= tenths(gains));
}

/// The switch is where it was put, and nothing else changes.
pub proof fn switch_is_put(view: EqView, enabled: bool)
    ensures
        view.set_enabled(enabled).enabled == enabled,
        view.set_enabled(enabled).bands == view.bands,
        view.set_enabled(enabled).bass == view.bass,
        view.set_enabled(enabled).treble == view.treble,
{
}

/// An edit counts one version further, over the end back to 0, and keeps the
/// shelf cutoffs.
pub proof fn edits_count_one(state: EqState, view: EqView)
    ensures
        state.edited(view).view == view,
        state.edited(view).version == (state.version + 1) % 0x1_0000_0000_0000_0000,
        state.edited(view).bass_cutoff == state.bass_cutoff,
        state.edited(view).treble_cutoff == state.treble_cutoff,
{
}

/// A state and the settings that describe it have the same values, each under
/// its own name.
pub proof fn settings_tell_the_state(settings: Settings)
    ensures
        ({
            let state = state_of(settings);
            &&& state.view.enabled == settings.eq_enabled
            &&& state.view.bands == settings.eq_band_settings@
            &&& state.view.bass == settings.bass
            &&& state.view.treble == settings.treble
            &&& state.bass_cutoff == settings.bass_cutoff
            &&& state.treble_cutoff == settings.treble_cutoff
            &&& state.version == 0
        }),
{
}

/// Once handed a state, a DSP is set to exactly its values: every band by its
/// own cutoff, Q and gain, the switch, and both shelves by their own gain, at
/// their own cutoff or else at 200 Hz and 3.5 kHz.
pub proof fn dsp_is_set_to_the_state(config: DspConfig, state: EqState, i: int)
    requires
        0 <= i < 10,
        i < state.view.bands.len(),
    ensures
        ({
            let set = configured(config, state);
            &&& set.eq_on == state.view.enabled
            &&& set.bands.dom().contains(i)
            &&& set.bands[i].cutoff == state.view.bands[i].cutoff
            &&& set.bands[i].q == state.view.bands[i].q
            &&& set.bands[i].gain == state.view.bands[i].gain
            &&& set.shelves.bass == state.view.bass
            &&& set.shelves.treble == state.view.treble
            &&& state.bass_cutoff > 0 ==> set.shelves.bass_cutoff == state.bass_cutoff
            &&& state.bass_cutoff <= 0 ==> set.shelves.bass_cutoff == 200
            &&& state.treble_cutoff > 0 ==> set.shelves.treble_cutoff == state.treble_cutoff
            &&& state.treble_cutoff <= 0 ==> set.shelves.treble_cutoff == 3500
            &&& set.in_rate == config.in_rate
            &&& set.out_rate == config.out_rate
        }),
{
}

/// A DSP that follows a state is set to its values.
pub proof fn following_is_being_set(config: DspConfig, state: EqState, i: int)
    requires
        follows(config, state),
        0 <= i < 10,
        i < state.view.bands.len(),
    ensures
        config.eq_on == state.view.enabled,
        config.bands[i].cutoff == state.view.bands[i].cutoff,
        config.bands[i].q == state.view.bands[i].q,
        config.bands[i].gain == state.view.bands[i].gain,
        config.shelves.bass == state.view.bass,
        config.shelves.treble == state.view.treble,
{
    dsp_is_set_to_the_state(config, state, i);
}

/// A DSP that is handed a state of ten bands is called for each band once, in
/// order, then for the switch, the shelf cutoffs and the shelf gains, and for
/// nothing else.
pub proof fn dsp_is_called_in_order(dsp: Dsp, state: EqState)
    requires
        state.view.bands.len() == 10,
    ensures
        ({
            let b = state.view.bands;
            let d0 = dsp_with_band(dsp, 0, b[0].cutoff, b[0].q, b[0].gain);
            let d1 = dsp_with_band(d0, 1, b[1].cutoff, b[1].q, b[1].gain);
            let d2 = dsp_with_band(d1, 2, b[2].cutoff, b[2].q, b[2].gain);
            let d3 = dsp_with_band(d2, 3, b[3].cutoff, b[3].q, b[3].gain);
            let d4 = dsp_with_band(d3, 4, b[4].cutoff, b[4].q, b[4].gain);
            let d5 = dsp_with_band(d4, 5, b[5].cutoff, b[5].q, b[5].gain);
            let d6 = dsp_with_band(d5, 6, b[6].cutoff, b[6].q, b[6].gain);
            let d7 = dsp_with_band(d6, 7, b[7].cutoff, b[7].q, b[7].gain);
            let d8 = dsp_with_band(d7, 8, b[8].cutoff, b[8].q, b[8].gain);
            let d9 = dsp_with_band(d8, 9, b[9].cutoff, b[9].q, b[9].gain);
            let switched = dsp_with_switch(d9, state.view.enabled);
            let cut = dsp_with_cutoffs(switched, state.bass_cutoff, state.treble_cutoff);
            applied(dsp, state) == dsp_with_tone(cut, state.view.bass, state.view.treble)
        }),
{
    reveal_with_fuel(with_bands, 11);
}

/// Which states fit an output rate: those with ten bands, shelves within 24 dB
/// with cutoffs up to half of that rate and of 44.1 kHz, and bands that are off
/// or have a gain within 24 dB and a filter for that rate.
pub proof fn what_fits(state: EqState, out_rate: int)
    ensures
        state.fits(out_rate) <==> {
            let bass_hz = if state.bass_cutoff > 0 {
                state.bass_cutoff as int
            } else {
                200
            };
            let treble_hz = if state.treble_cutoff > 0 {
                state.treble_cutoff as int
            } else {
                3500
            };
            &&& state.view.bands.len() >= 10
            &&& -24 <= state.view.bass <= 24
            &&& -24 <= state.view.treble <= 24
            &&& 2 * bass_hz <= out_rate && 2 * bass_hz <= 44100
            &&& 2 * treble_hz <= out_rate && 2 * treble_hz <= 44100
            &&& forall|i: int| #![trigger state.view.bands[i]]
                0 <= i < 10 ==> {
                    let b = state.view.bands[i];
                    b.gain == 0 || (-240 <= b.gain <= 240 && b.cutoff > 0 && ((2 * b.cutoff
                        <= out_rate && b.q >= 5) || ((i == 0 || i == 9) && b.q == 7)))
                }
        },
{
}

} // verus!
