//! Equalizer settings as they are kept between runs. The band format is
//! Rockbox's `[[eq_band_settings]]`: Q and gain are stored times ten.

use vstd::prelude::*;

use crate::text::{digits, push_digits};

verus! {

/// Number of equalizer bands.
pub const EQ_BANDS: usize = 10;

/// One EQ band.
#[derive(Debug, Clone, Copy, PartialEq, Eq, Structural)]
pub struct EqBand {
    /// Cutoff frequency in Hz.
    pub cutoff: i32,
    /// Q × 10 (`7` is Q 0.7).
    pub q: i32,
    /// Gain × 10 in dB (`-125` is −12.5 dB).
    pub gain: i32,
}

/// Control API configuration (the `[api]` section). Command-line flags take
/// precedence over it.
#[derive(Debug, Clone)]
pub struct ApiConfig {
    /// Serve the control API on a unix socket.
    pub enabled: bool,
    /// Unix socket path; unset stands for the per-user default.
    pub socket: Option<String>,
    /// Also serve over TCP on `host:port`; unset means no network API.
    pub port: Option<u16>,
    /// TCP bind address, used only when `port` is set.
    pub host: String,
    /// Bearer token of the TCP endpoint, generated the first time that the
    /// endpoint is used. The unix socket never asks for it.
    pub token: Option<String>,
}

impl ApiConfig {
    /// Socket API on at the default path, no network API, no token.
    pub open spec fn is_default(self) -> bool {
        &&& self.enabled
        &&& self.socket is None
        &&& self.port is None
        &&& self.host@ == "0.0.0.0"@
        &&& self.token is None
    }
}

impl Default for ApiConfig {
    fn default() -> (cfg: Self)
        ensures
            cfg.is_default(),
            cfg.enabled,
            cfg.socket is None,
            cfg.port is None,
            cfg.host@ == "0.0.0.0"@,
            cfg.token is None,
    {
        ApiConfig {
            enabled: true,
            socket: None,
            port: None,
            host: "0.0.0.0".to_owned(),
            token: None,
        }
    }
}

/// Everything in the settings file.
#[derive(Debug, Clone)]
pub struct Settings {
    /// Equalizer on/off. On by default.
    pub eq_enabled: bool,
    /// The EQ bands. Band 0 is a low shelf, band 9 a high shelf, the rest are
    /// peaking filters.
    pub eq_band_settings: Vec<EqBand>,
    /// Bass shelf gain in whole dB; active regardless of `eq_enabled`.
    pub bass: i32,
    /// Treble shelf gain in whole dB.
    pub treble: i32,
    /// Bass shelf cutoff in Hz, `0` for 200 Hz.
    pub bass_cutoff: i32,
    /// Treble shelf cutoff in Hz, `0` for 3500 Hz.
    pub treble_cutoff: i32,
    /// Control API.
    pub api: ApiConfig,
}

/// The ISO octave centre of band `i`.
pub open spec fn default_cutoff(i: int) -> i32 {
    seq![32i32, 63, 125, 250, 500, 1000, 2000, 4000, 8000, 16000][i]
}

/// Ten flat bands on the ISO octave centres, Q 0.7.
pub open spec fn default_bands() -> Seq<EqBand> {
    Seq::new(EQ_BANDS as nat, |i: int| EqBand { cutoff: default_cutoff(i), q: 7, gain: 0 })
}

/// `bands` cut or filled up with the default bands to the full ten.
pub open spec fn full_bands(bands: Seq<EqBand>) -> Seq<EqBand> {
    if bands.len() < EQ_BANDS {
        bands + default_bands().skip(bands.len() as int)
    } else {
        bands.take(EQ_BANDS as int)
    }
}

impl Settings {
    /// A fresh configuration: equalizer on and flat, shelves off.
    pub open spec fn is_default(self) -> bool {
        &&& self.eq_enabled
        &&& self.eq_band_settings@ == default_bands()
        &&& self.bass == 0
        &&& self.treble == 0
        &&& self.bass_cutoff == 0
        &&& self.treble_cutoff == 0
        &&& self.api.is_default()
    }
}

impl Default for Settings {
    fn default() -> (settings: Self)
        ensures
            settings.is_default(),
            settings.eq_enabled,
            settings.bass == 0,
            settings.treble == 0,
            settings.bass_cutoff == 0,
            settings.treble_cutoff == 0,
    {
        Settings {
            eq_enabled: true,
            eq_band_settings: default_eq_band_settings(),
            bass: 0,
            treble: 0,
            bass_cutoff: 0,
            treble_cutoff: 0,
            api: ApiConfig::default(),
        }
    }
}

/// What `eq_enabled` is where the file does not say.
pub fn default_true() -> (yes: bool)
    ensures
        yes,
{
    true
}

/// The flat ten-band set that a configuration without bands starts from.
pub fn default_eq_band_settings() -> (bands: Vec<EqBand>)
    ensures
        bands@ == default_bands(),
{
    let cutoffs: [i32; 10] = [32, 63, 125, 250, 500, 1000, 2000, 4000, 8000, 16000];
    let mut bands: Vec<EqBand> = Vec::new();
    let mut i: usize = 0;
    while i < EQ_BANDS
        invariant
            i <= EQ_BANDS,
            cutoffs@ =~= seq![32i32, 63, 125, 250, 500, 1000, 2000, 4000, 8000, 16000],
            bands@ == default_bands().take(i as int),
        decreases EQ_BANDS - i,
    {
        bands.push(EqBand { cutoff: cutoffs[i], q: 7, gain: 0 });
        assert(bands@ =~= default_bands().take(i + 1));
        i += 1;
    }
    assert(default_bands().take(EQ_BANDS as int) =~= default_bands());
    bands
}

impl Settings {
    /// The settings to run with, given what the settings file held: `None`
    /// where there is no file, or it cannot be read as settings. The band list
    /// always comes out full.
    pub fn load(file: Option<Settings>) -> (settings: Settings)
        ensures
            file is None ==> settings.is_default(),
            file matches Some(held) ==> {
                &&& settings.eq_band_settings@ == full_bands(held.eq_band_settings@)
                &&& settings == (Settings { eq_band_settings: settings.eq_band_settings, ..held })
            },
            settings.eq_band_settings@.len() == EQ_BANDS,
    {
        let mut settings = match file {
            Some(held) => held,
            None => Settings::default(),
        };
        settings.ensure_eq_bands();
        assert(full_bands(default_bands()) =~= default_bands());
        settings
    }

    /// Make the band list ten long: drop what is past the tenth band, fill up
    /// with default bands.
    pub fn ensure_eq_bands(&mut self)
        ensures
            final(self).eq_band_settings@ == full_bands(old(self).eq_band_settings@),
            *final(self) == (Settings {
                eq_band_settings: final(self).eq_band_settings,
                ..*old(self)
            }),
    {
        let defaults = default_eq_band_settings();
        let have: usize = self.eq_band_settings.len();
        if have < EQ_BANDS {
            let mut i: usize = have;
            while i < EQ_BANDS
                invariant
                    have <= i <= EQ_BANDS,
                    have == old(self).eq_band_settings@.len(),
                    defaults@ == default_bands(),
                    self.eq_band_settings@ == old(self).eq_band_settings@
                        + default_bands().subrange(have as int, i as int),
                    *self == (Settings {
                        eq_band_settings: self.eq_band_settings,
                        ..*old(self)
                    }),
                decreases EQ_BANDS - i,
            {
                self.eq_band_settings.push(defaults[i]);
                assert(self.eq_band_settings@ =~= old(self).eq_band_settings@
                    + default_bands().subrange(have as int, i + 1));
                i += 1;
            }
            assert(self.eq_band_settings@ =~= full_bands(old(self).eq_band_settings@));
        } else {
            self.eq_band_settings.truncate(EQ_BANDS);
            assert(self.eq_band_settings@ =~= full_bands(old(self).eq_band_settings@));
        }
    }
}

/// A full band list holds ten bands, keeps the leading bands that it was
/// given, and is not changed by filling it up again.
pub proof fn full_bands_keeps_prefix(bands: Seq<EqBand>)
    ensures
        full_bands(bands).len() == EQ_BANDS,
        forall|i: int|
            0 <= i < bands.len() && i < EQ_BANDS ==> #[trigger] full_bands(bands)[i] == bands[i],
        forall|i: int|
            bands.len() <= i < EQ_BANDS ==> #[trigger] full_bands(bands)[i] == default_bands()[i],
        full_bands(full_bands(bands)) == full_bands(bands),
{
    assert(full_bands(full_bands(bands)) =~= full_bands(bands));
}

/// Which file holds the settings.
#[derive(Debug, Clone, Copy, PartialEq, Eq, Structural)]
pub enum SettingsPath {
    /// The one named on the command line.
    Override,
    /// `settings.toml` in the user's configuration directory.
    ConfigDir,
}

/// Which file holds the settings: one named on the command line goes first.
pub fn settings_path(overridden: bool, has_config_dir: bool) -> (path: Result<
    SettingsPath,
    String,
>)
    ensures
        path == Ok::<SettingsPath, String>(SettingsPath::Override) <==> overridden,
        path == Ok::<SettingsPath, String>(SettingsPath::ConfigDir) <==> !overridden
            && has_config_dir,
        path matches Err(message) ==> message@ == "unable to determine configuration directory"@,
{
    if overridden {
        Ok(SettingsPath::Override)
    } else if has_config_dir {
        Ok(SettingsPath::ConfigDir)
    } else {
        Err("unable to determine configuration directory".to_owned())
    }
}

/// Where the control socket is by default.
pub enum SocketPath {
    /// This file in the user's runtime directory.
    Runtime(String),
    /// This file in the directory for temporary files.
    Temp(String),
}

/// Where the control socket is by default: in the user's runtime directory
/// where there is one, else among the temporary files under a name with the
/// user's number in it.
pub fn default_socket_path(has_runtime_dir: bool, uid: u32) -> (path: SocketPath)
    ensures
        has_runtime_dir ==> path is Runtime && path->Runtime_0@ == "equalizer.sock"@,
        !has_runtime_dir ==> path is Temp && path->Temp_0@ == "equalizer-"@ + digits(uid as nat)
            + ".sock"@,
{
    if has_runtime_dir {
        return SocketPath::Runtime("equalizer.sock".to_owned());
    }
    let mut name = "equalizer-".to_owned();
    push_digits(&mut name, uid as u64);
    name.append(".sock");
    SocketPath::Temp(name)
}

/// A fresh configuration has ten bands an octave apart around 1 kHz, each at
/// Q 0.7 and 0 dB, with the equalizer on, the shelves off, the control socket
/// on, and nothing on the network.
pub proof fn defaults_are_flat_octaves(settings: Settings, i: int)
    requires
        settings.is_default(),
        0 <= i < 10,
    ensures
        settings.eq_enabled,
        settings.bass == 0 && settings.treble == 0,
        settings.bass_cutoff == 0 && settings.treble_cutoff == 0,
        settings.eq_band_settings@.len() == 10,
        settings.eq_band_settings@[i].q == 7,
        settings.eq_band_settings@[i].gain == 0,
        settings.eq_band_settings@[0].cutoff == 32,
        settings.eq_band_settings@[1].cutoff == 63,
        settings.eq_band_settings@[2].cutoff == 125,
        settings.eq_band_settings@[3].cutoff == 250,
        settings.eq_band_settings@[4].cutoff == 500,
        settings.eq_band_settings@[5].cutoff == 1000,
        settings.eq_band_settings@[6].cutoff == 2000,
        settings.eq_band_settings@[7].cutoff == 4000,
        settings.eq_band_settings@[8].cutoff == 8000,
        settings.eq_band_settings@[9].cutoff == 16000,
        settings.api.enabled,
        settings.api.socket is None,
        settings.api.port is None,
        settings.api.host@ == "0.0.0.0"@,
        settings.api.token is None,
{
}

/// A list of bands is made ten long: the first ten stay, and what is missing is
/// a flat band at the octave that belongs there.
pub proof fn missing_bands_are_flat(bands: Seq<EqBand>, i: int)
    requires
        0 <= i < 10,
    ensures
        full_bands(bands).len() == 10,
        i < bands.len() ==> full_bands(bands)[i] == bands[i],
        i >= bands.len() ==> {
            &&& full_bands(bands)[i].q == 7
            &&& full_bands(bands)[i].gain == 0
            &&& full_bands(bands)[i].cutoff == (if i >= 5 {
                1000 * (if i == 5 {
                    1int
                } else if i == 6 {
                    2
                } else if i == 7 {
                    4
                } else if i == 8 {
                    8
                } else {
                    16
                })
            } else if i == 4 {
                500
            } else if i == 3 {
                250
            } else if i == 2 {
                125
            } else if i == 1 {
                63
            } else {
                32
            })
        },
{
    full_bands_keeps_prefix(bands);
}

} // verus!
