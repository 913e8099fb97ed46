//! The Rockbox DSP pipeline, as the rest of the library sees it.
//!
//! `rockbox_dsp::Dsp` is a handle to one static pipeline of the process, and
//! that crate asks for at most one handle at a time. Everything said here of
//! a handle holds while it is the only one.

use rockbox_dsp::Dsp;
use vstd::prelude::*;

verus! {

/// The handle itself; nothing inside it is visible to the proofs.
#[verifier::external_type_specification]
#[verifier::external_body]
pub struct ExDsp(rockbox_dsp::Dsp);

/// Number of equalizer bands of the pipeline.
pub const DSP_BANDS: usize = 10;

/// One band as the pipeline was given it: Hz, Q in tenths, gain in tenths of dB.
pub struct BandSetting {
    pub cutoff: int,
    pub q: int,
    pub gain: int,
}

/// The two tone shelves: cutoffs in Hz, gains in whole dB.
pub struct Shelves {
    pub bass_cutoff: int,
    pub treble_cutoff: int,
    pub bass: int,
    pub treble: int,
}

/// What a pipeline is set to.
pub struct DspConfig {
    /// Sample rate of what goes in.
    pub in_rate: int,
    /// Sample rate of what comes out.
    pub out_rate: int,
    /// The band settings given so far, by band number.
    pub bands: Map<int, BandSetting>,
    /// Whether the equalizer stage is switched on.
    pub eq_on: bool,
    /// The shelf cutoffs (bass, treble) that the next gain change will use.
    pub cutoffs: (int, int),
    /// The shelves that the tone stage filters with.
    pub shelves: Shelves,
}

/// The configuration of a pipeline.
pub uninterp spec fn dsp_config(dsp: Dsp) -> DspConfig;

/// What a pipeline appends to its output for `input`, given interleaved
/// stereo, from the state that it is in.
pub uninterp spec fn dsp_output(dsp: Dsp, input: Seq<i16>) -> Seq<i16>;

/// A pipeline after `input` went through it.
pub uninterp spec fn dsp_after(dsp: Dsp, input: Seq<i16>) -> Dsp;

/// A pipeline after what it had buffered was dropped.
pub uninterp spec fn dsp_flushed(dsp: Dsp) -> Dsp;

/// A pipeline after it was told another input rate.
pub uninterp spec fn dsp_with_input(dsp: Dsp, hz: u32) -> Dsp;

/// A pipeline after one band was set: band number, Hz, Q and gain in tenths.
pub uninterp spec fn dsp_with_band(dsp: Dsp, band: int, cutoff: i32, q: i32, gain: i32) -> Dsp;

/// A pipeline after its equalizer stage was switched.
pub uninterp spec fn dsp_with_switch(dsp: Dsp, enable: bool) -> Dsp;

/// A pipeline after the shelf cutoffs were recorded.
pub uninterp spec fn dsp_with_cutoffs(dsp: Dsp, bass_hz: i32, treble_hz: i32) -> Dsp;

/// A pipeline after the shelf gains were set.
pub uninterp spec fn dsp_with_tone(dsp: Dsp, bass_db: i32, treble_db: i32) -> Dsp;

/// The output rate that a pipeline made for `rate` runs at.
pub open spec fn out_rate_for(rate: u32) -> int {
    if rate == 0 || rate > isize::MAX {
        44100
    } else if rate < 8000 {
        8000
    } else if rate > 96000 {
        96000
    } else {
        rate as int
    }
}

/// The input rate that a pipeline takes when told `hz`.
pub open spec fn in_rate_for(hz: u32, out_rate: int) -> int {
    if hz == 0 || hz > isize::MAX {
        out_rate
    } else {
        hz as int
    }
}

/// The shelf cutoff in force for a requested `hz`.
pub open spec fn cutoff_or(hz: int, default: int) -> int {
    if hz > 0 {
        hz
    } else {
        default
    }
}

/// How far the resampler moves through its input per output frame, in
/// 1/65536 frames, kept in 32 bits.
pub open spec fn resample_step(in_rate: int, out_rate: int) -> int {
    (in_rate * 65536 / out_rate) % 0x1_0000_0000
}

/// Whether a pipeline at these rates gets through its input: either it does
/// not resample, or the resampler moves.
pub open spec fn rates_advance(in_rate: int, out_rate: int) -> bool {
    in_rate == out_rate || resample_step(in_rate, out_rate) != 0
}

/// Whether a cutoff is above 0 Hz and no higher than half of `rate`. Above
/// that the sine that the filters are computed from can be negative.
pub open spec fn below_nyquist(cutoff: int, rate: int) -> bool {
    0 < 2 * cutoff <= rate
}

/// Whether the coefficients of band number `band` can be computed whatever
/// gain within 24 dB it is at. The first and the last band are shelves, which
/// at Q 0.7 take any cutoff.
pub open spec fn filter_fits(band: int, cutoff: int, q: int, out_rate: int) -> bool {
    ||| below_nyquist(cutoff, out_rate) && q >= 5
    ||| (band == 0 || band == DSP_BANDS - 1) && 0 < cutoff && q == 7
}

/// Whether band number `band` can be given a setting at an output rate: at
/// 0 dB the band is off, and nothing is computed for it.
pub open spec fn band_fits(band: int, setting: BandSetting, out_rate: int) -> bool {
    setting.gain == 0 || (filter_fits(band, setting.cutoff, setting.q, out_rate) && -240
        <= setting.gain <= 240)
}

/// Whether every band was given a setting, and one that can be used.
pub open spec fn all_bands_fit(config: DspConfig) -> bool {
    forall|i: int|
        0 <= i < DSP_BANDS ==> config.bands.dom().contains(i) && band_fits(
            i,
            #[trigger] config.bands[i],
            config.out_rate,
        )
}

/// Whether a shelf cutoff can be used at an output rate. The shelves are also
/// computed for a second pipeline of the process, which stays at 44.1 kHz.
pub open spec fn shelf_fits(cutoff: int, out_rate: int) -> bool {
    below_nyquist(cutoff, out_rate) && below_nyquist(cutoff, 44100)
}

/// The output rate that a pipeline made for `rate` runs at.
pub fn kept_rate(rate: u32) -> (kept: u32)
    ensures
        kept == out_rate_for(rate),
        8000 <= kept <= 96000,
        8000 <= rate <= 96000 ==> kept == rate,
        0 < rate < 8000 ==> kept == 8000,
        96000 < rate <= isize::MAX ==> kept == 96000,
        rate == 0 || rate > isize::MAX ==> kept == 44100,
{
    if rate == 0 || rate as u64 > isize::MAX as u64 {
        44100
    } else if rate < 8000 {
        8000
    } else if rate > 96000 {
        96000
    } else {
        rate
    }
}

/// `Dsp::new` sets up the pipeline for interleaved 16-bit stereo at
/// `sample_rate`. The output rate is kept within 8 to 96 kHz; the band
/// settings, the switch and the shelves stay as an earlier handle left them,
/// so nothing is said of them, and the pipeline itself gets no name. Where an
/// earlier handle ran at another rate, its filters are computed again for this
/// one; that they can be is not vouched for here, so a process makes one
/// handle.
#[verifier::external_body]
pub(crate) fn new_dsp(sample_rate: u32) -> (dsp: Dsp)
    ensures
        dsp_config(dsp).out_rate == out_rate_for(sample_rate),
        dsp_config(dsp).in_rate == in_rate_for(sample_rate, out_rate_for(sample_rate)),
{
    Dsp::new(sample_rate)
}

/// `Dsp::set_input_frequency` changes the input rate alone.
#[verifier::external_body]
pub(crate) fn set_input_frequency(dsp: &mut Dsp, hz: u32)
    ensures
        *final(dsp) == dsp_with_input(*old(dsp), hz),
        dsp_config(*final(dsp)) == (DspConfig {
            in_rate: in_rate_for(hz, dsp_config(*old(dsp)).out_rate),
            ..dsp_config(*old(dsp))
        }),
{
    dsp.set_input_frequency(hz)
}

/// `Dsp::set_eq_band_raw` replaces the setting of one band. It panics on a
/// band number past the last band. Unless the gain is 0 it computes the band's
/// coefficients, which divides by a number that is above zero for what the
/// filters are made for: cutoffs up to half the output rate (where the sine
/// comes out as 1 in 2^31), Q from 0.5 and gains within 24 dB. Above half the
/// rate the sine can be negative, and it is divided by an unsigned number. In
/// the two shelves, the first and the last band, what comes of that is reduced
/// to 32 bits, and at Q 0.7 it is then positive, as for any other cutoff, so
/// the divisor is above zero there too. In the bands between, a signed shift of
/// it overflows, and at other Qs and larger gains nothing keeps the divisor
/// from being zero: those settings are left out.
#[verifier::external_body]
pub(crate) fn set_eq_band(dsp: &mut Dsp, band: usize, cutoff: i32, q: i32, gain: i32)
    requires
        band < DSP_BANDS,
        band_fits(
            band as int,
            BandSetting { cutoff: cutoff as int, q: q as int, gain: gain as int },
            dsp_config(*old(dsp)).out_rate,
        ),
    ensures
        *final(dsp) == dsp_with_band(*old(dsp), band as int, cutoff, q, gain),
        dsp_config(*final(dsp)) == (DspConfig {
            bands: dsp_config(*old(dsp)).bands.insert(
                band as int,
                BandSetting { cutoff: cutoff as int, q: q as int, gain: gain as int },
            ),
            ..dsp_config(*old(dsp))
        }),
{
    dsp.set_eq_band_raw(band, rockbox_dsp::eq_band_setting { cutoff, q, gain })
}

/// `Dsp::eq_enable` switches the equalizer stage. Switching it on computes the
/// coefficients of the bands again, so every band has to be given and to fit.
#[verifier::external_body]
pub(crate) fn enable_eq(dsp: &mut Dsp, enable: bool)
    requires
        all_bands_fit(dsp_config(*old(dsp))),
    ensures
        *final(dsp) == dsp_with_switch(*old(dsp), enable),
        dsp_config(*final(dsp)) == (DspConfig { eq_on: enable, ..dsp_config(*old(dsp)) }),
{
    dsp.eq_enable(enable)
}

/// `Dsp::set_tone_cutoffs` records the shelf cutoffs (0 or less stands for
/// 200 Hz and 3500 Hz). The shelves in use do not change until the next
/// `Dsp::set_tone`.
#[verifier::external_body]
pub(crate) fn set_tone_cutoffs(dsp: &mut Dsp, bass_hz: i32, treble_hz: i32)
    ensures
        *final(dsp) == dsp_with_cutoffs(*old(dsp), bass_hz, treble_hz),
        dsp_config(*final(dsp)) == (DspConfig {
            cutoffs: (cutoff_or(bass_hz as int, 200), cutoff_or(treble_hz as int, 3500)),
            ..dsp_config(*old(dsp))
        }),
{
    dsp.set_tone_cutoffs(bass_hz, treble_hz)
}

/// `Dsp::set_tone` rebuilds the shelves from these gains and the cutoffs
/// recorded so far. That divides by a number that is above zero for what the
/// shelves are made for, gains within 24 dB and cutoffs up to half the rate;
/// elsewhere nothing keeps it from being zero.
#[verifier::external_body]
pub(crate) fn set_tone(dsp: &mut Dsp, bass_db: i32, treble_db: i32)
    requires
        -24 <= bass_db <= 24,
        -24 <= treble_db <= 24,
        shelf_fits(dsp_config(*old(dsp)).cutoffs.0, dsp_config(*old(dsp)).out_rate),
        shelf_fits(dsp_config(*old(dsp)).cutoffs.1, dsp_config(*old(dsp)).out_rate),
    ensures
        *final(dsp) == dsp_with_tone(*old(dsp), bass_db, treble_db),
        dsp_config(*final(dsp)) == (DspConfig {
            shelves: Shelves {
                bass_cutoff: dsp_config(*old(dsp)).cutoffs.0,
                treble_cutoff: dsp_config(*old(dsp)).cutoffs.1,
                bass: bass_db as int,
                treble: treble_db as int,
            },
            ..dsp_config(*old(dsp))
        }),
{
    dsp.set_tone(bass_db, treble_db)
}

/// `Dsp::flush` drops what the pipeline has buffered; its settings stay.
#[verifier::external_body]
pub(crate) fn flush(dsp: &mut Dsp)
    ensures
        *final(dsp) == dsp_flushed(*old(dsp)),
        dsp_config(*final(dsp)) == dsp_config(*old(dsp)),
{
    dsp.flush()
}

/// `Dsp::process` runs whole stereo frames through the pipeline and appends
/// whole stereo frames to `out`. It panics on half a frame, and does not
/// return where the resampler stands still. Which samples it appends depends
/// on the settings and on what went through before; they are named, not
/// described, and so is the pipeline that is left. The settings stay.
#[verifier::external_body]
pub(crate) fn process(dsp: &mut Dsp, input: &[i16], out: &mut Vec<i16>) -> (frames: usize)
    requires
        input@.len() % 2 == 0,
        rates_advance(dsp_config(*old(dsp)).in_rate, dsp_config(*old(dsp)).out_rate),
    ensures
        final(out)@ == old(out)@ + dsp_output(*old(dsp), input@),
        dsp_output(*old(dsp), input@).len() == 2 * frames,
        *final(dsp) == dsp_after(*old(dsp), input@),
        dsp_config(*final(dsp)) == dsp_config(*old(dsp)),
{
    dsp.process(input, out)
}

/// A pipeline runs at the rate that it was made for within 8 to 96 kHz, and
/// takes whatever input rate it is told; 0 Hz stands for 44.1 kHz out and for
/// no resampling in.
pub proof fn rates_are_kept(rate: u32, hz: u32)
    ensures
        8000 <= rate <= 96000 ==> out_rate_for(rate) == rate,
        0 < rate < 8000 ==> out_rate_for(rate) == 8000,
        96000 < rate <= isize::MAX ==> out_rate_for(rate) == 96000,
        out_rate_for(0) == 44100,
        0 < hz <= isize::MAX ==> in_rate_for(hz, out_rate_for(rate)) == hz,
        in_rate_for(0, out_rate_for(rate)) == out_rate_for(rate),
{
}

/// A pipeline gets through its input at equal rates, and at others where the
/// step from one output frame to the next is not 0 once it is counted in
/// 1/65536 of an input frame and cut to 32 bits.
pub proof fn resampler_moves(in_rate: int, out_rate: int)
    requires
        in_rate > 0,
        out_rate > 0,
    ensures
        rates_advance(in_rate, out_rate) <==> in_rate == out_rate || (in_rate * 65536 / out_rate)
            % 0x1_0000_0000 != 0,
{
}

} // verus!
