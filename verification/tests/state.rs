use equalizer::audio::{AudioStatus, PcmFormat, STATE_ENDED, STATE_STREAMING, STATE_WAITING};
use equalizer::control::{Controller, LocalController};
use equalizer::equalizer::{Equalizer, GAIN_MAX_TENTHS, GAIN_MIN_TENTHS, TONE_MAX_DB};
use equalizer::presets::{find, names, preset, PRESET_COUNT};
use equalizer::reader::{PipelineConfig, Reader, ReaderAction, ReaderEvent};
use equalizer::settings::{
    default_eq_band_settings, default_socket_path, settings_path, ApiConfig, EqBand, Settings,
    SettingsPath, SocketPath, EQ_BANDS,
};
use rockbox_dsp::Dsp;
use std::sync::{Mutex, MutexGuard};

fn sine_stereo(freq_hz: f64, rate: u32, frames: usize) -> Vec<i16> {
    let mut pcm = Vec::with_capacity(frames * 2);
    for n in 0..frames {
        let t = n as f64 / rate as f64;
        let s = (0.25 * (2.0 * std::f64::consts::PI * freq_hz * t).sin() * 32767.0) as i16;
        pcm.push(s);
        pcm.push(s);
    }
    pcm
}

fn rms(pcm: &[i16]) -> f64 {
    let sum: f64 = pcm.iter().map(|&s| (s as f64) * (s as f64)).sum();
    (sum / pcm.len() as f64).sqrt()
}

/// The DSP is a single one per process: whoever makes a handle holds this for
/// as long as the handle lives.
static PIPELINE: Mutex<()> = Mutex::new(());

fn only_handle() -> MutexGuard<'static, ()> {
    PIPELINE.lock().unwrap_or_else(|poisoned| poisoned.into_inner())
}

fn process(dsp: &mut Dsp, input: &[i16]) -> Vec<i16> {
    let mut out = Vec::new();
    dsp.process(input, &mut out);
    out
}

#[test]
fn dsp_follows_equalizer_state() {
    let _only = only_handle();
    let mut eq = Equalizer::from_settings(Settings::default());
    eq.set_bands(default_eq_band_settings());
    eq.reset_gains();

    // Flat and disabled: levels pass through.
    eq.set_enabled(false);
    let mut dsp = Dsp::new(44100);
    eq.apply_to(&mut dsp);
    let tone = sine_stereo(1000.0, 44100, 44100);
    let flat = process(&mut dsp, &tone);
    let ratio = rms(&tone) / rms(&flat);
    assert!(
        (0.95..1.05).contains(&ratio),
        "flat pipeline should be transparent, got {ratio:.3}x"
    );

    // −12 dB on the 1 kHz band clearly attenuates a 1 kHz tone.
    eq.set_enabled(true);
    assert_eq!(eq.bands()[5].cutoff, 1000);
    eq.adjust_band_gain(5, -120);
    eq.apply_to(&mut dsp);
    dsp.flush();
    let cut = process(&mut dsp, &tone);
    let ratio = rms(&tone) / rms(&cut);
    assert!(
        ratio > 2.0 && ratio < 8.0,
        "expected ~4x attenuation at 1 kHz, got {ratio:.2}x"
    );

    // Band gains clamp at ±24 dB.
    eq.adjust_band_gain(5, -10_000);
    assert_eq!(eq.bands()[5].gain, GAIN_MIN_TENTHS);

    // The bass shelf works even with the band EQ switched off: −12 dB bass
    // clearly attenuates a 100 Hz tone.
    eq.reset_gains();
    eq.set_enabled(false);
    eq.adjust_bass(-12);
    assert_eq!(eq.bass(), -12);
    eq.apply_to(&mut dsp);
    dsp.flush();
    let low = sine_stereo(100.0, 44100, 44100);
    let low_cut = process(&mut dsp, &low);
    let ratio = rms(&low) / rms(&low_cut);
    assert!(
        ratio > 2.0 && ratio < 8.0,
        "expected ~4x bass attenuation at 100 Hz, got {ratio:.2}x"
    );

    // Tone gains clamp at ±24.
    eq.reset_gains();
    eq.adjust_treble(200);
    assert_eq!(eq.treble(), TONE_MAX_DB);
    eq.adjust_treble(-6);
    assert_eq!(eq.treble(), TONE_MAX_DB - 6);

    // Presets replace gains and the version counter tracks changes.
    let before = eq.version();
    eq.set_band_gains_db(&[6, 5, 4, 2, 1, 0, 0, 0, 0, 0]);
    assert!(eq.version() > before);
    assert_eq!(eq.bands()[0].gain, 60);

    eq.reset_gains();
    eq.set_enabled(false);
}

#[test]
fn short_band_lists_are_padded_to_ten() {
    let table: toml::Table =
        "eq_enabled = true\n[[eq_band_settings]]\ncutoff = 60\nq = 7\ngain = 30\n"
            .parse()
            .unwrap();
    let number = |band: &toml::Value, key: &str| band[key].as_integer().unwrap() as i32;
    let bands: Vec<EqBand> = table["eq_band_settings"]
        .as_array()
        .unwrap()
        .iter()
        .map(|b| EqBand {
            cutoff: number(b, "cutoff"),
            q: number(b, "q"),
            gain: number(b, "gain"),
        })
        .collect();
    let mut settings = Settings {
        eq_enabled: table["eq_enabled"].as_bool().unwrap(),
        eq_band_settings: bands,
        ..Settings::default()
    };
    settings.ensure_eq_bands();
    assert_eq!(settings.eq_band_settings.len(), EQ_BANDS);
    assert_eq!(settings.eq_band_settings[0].cutoff, 60);
    assert_eq!(settings.eq_band_settings[9].cutoff, 16000);
}

#[test]
fn long_band_lists_are_cut_to_ten() {
    let mut bands = default_eq_band_settings();
    bands.push(EqBand { cutoff: 1, q: 2, gain: 3 });
    bands[0].gain = 12;
    let loaded = Settings::load(Some(Settings { eq_band_settings: bands, ..Settings::default() }));
    assert_eq!(loaded.eq_band_settings.len(), EQ_BANDS);
    assert_eq!(loaded.eq_band_settings[0].gain, 12);
    assert_eq!(loaded.eq_band_settings[9].cutoff, 16000);
}

#[test]
fn missing_settings_are_the_defaults() {
    let settings = Settings::load(None);
    assert!(settings.eq_enabled);
    assert_eq!(settings.eq_band_settings, default_eq_band_settings());
    assert_eq!((settings.bass, settings.treble), (0, 0));
    assert_eq!((settings.bass_cutoff, settings.treble_cutoff), (0, 0));
    let api = ApiConfig::default();
    assert!(api.enabled && settings.api.enabled);
    assert!(api.socket.is_none() && api.port.is_none() && api.token.is_none());
    assert_eq!(settings.api.host, "0.0.0.0");
    let cutoffs: Vec<i32> = settings.eq_band_settings.iter().map(|b| b.cutoff).collect();
    assert_eq!(cutoffs, vec![32, 63, 125, 250, 500, 1000, 2000, 4000, 8000, 16000]);
    assert!(settings.eq_band_settings.iter().all(|b| b.q == 7 && b.gain == 0));
}

#[test]
fn saved_settings_come_back() {
    let mut on_disk = Settings::default();
    on_disk.api.token = Some("secret".to_string());
    on_disk.bass_cutoff = 150;
    let mut eq = Equalizer::from_settings(Settings::load(Some(on_disk.clone())));
    eq.adjust_band_gain(3, -55);
    eq.adjust_bass(6);
    eq.adjust_treble(-3);
    eq.set_enabled(false);
    let saved = eq.try_save(on_disk);
    assert_eq!(saved.api.token.as_deref(), Some("secret"));
    let back = Equalizer::from_settings(Settings::load(Some(saved.clone())));
    assert_eq!(back.bands(), eq.bands());
    assert_eq!((back.bass(), back.treble()), (6, -3));
    assert!(!back.is_enabled());
    assert_eq!(saved.bass_cutoff, 150);
    assert_eq!(back.version(), 0);
}

#[test]
fn edits_clamp_and_count() {
    let mut eq = Equalizer::from_settings(Settings::default());
    assert_eq!(eq.version(), 0);
    eq.adjust_band_gain(0, i32::MAX);
    assert_eq!(eq.bands()[0].gain, GAIN_MAX_TENTHS);
    eq.adjust_band_gain(0, i32::MIN);
    assert_eq!(eq.bands()[0].gain, GAIN_MIN_TENTHS);
    eq.adjust_band_gain(10, 5);
    assert_eq!(eq.version(), 3);
    eq.set_band_gains_tenths(&[1, 2, 999]);
    let gains: Vec<i32> = eq.bands().iter().map(|b| b.gain).collect();
    assert_eq!(gains, vec![1, 2, 240, 0, 0, 0, 0, 0, 0, 0]);
    eq.set_band_gains_db(&[i32::MAX, i32::MIN, 1, 2, 3, 4, 5, 6, 7, 8]);
    let gains: Vec<i32> = eq.bands().iter().map(|b| b.gain).collect();
    assert_eq!(gains, vec![240, -240, 10, 20, 30, 40, 50, 60, 70, 80]);
    eq.adjust_bass(i32::MIN);
    assert_eq!(eq.bass(), -24);
    eq.reset_gains();
    assert!(eq.bands().iter().all(|b| b.gain == 0));
    assert_eq!((eq.bass(), eq.treble()), (0, 0));
    assert_eq!(eq.version(), 7);
    assert_eq!(eq.bands()[9].cutoff, 16000);
}

#[test]
fn gain_moves_undo() {
    let mut eq = Equalizer::from_settings(Settings::default());
    eq.adjust_band_gain(4, 35);
    eq.adjust_band_gain(4, -35);
    eq.adjust_bass(5);
    eq.adjust_bass(-5);
    assert_eq!(eq.bands(), default_eq_band_settings());
    assert_eq!(eq.bass(), 0);
}

#[test]
fn presets_are_found_by_name() {
    let expected = [
        "flat", "rock", "pop", "jazz", "classical", "electronic", "vocal", "bass-boost",
        "treble-boost",
    ];
    assert_eq!(PRESET_COUNT, expected.len());
    for (i, name) in expected.iter().enumerate() {
        assert_eq!(find(name), Some(i));
        assert_eq!(preset(i).name, *name);
    }
    assert_eq!(find("Rock"), None);
    assert_eq!(find(""), None);
    assert_eq!(
        names(),
        "flat, rock, pop, jazz, classical, electronic, vocal, bass-boost, treble-boost"
    );
    assert_eq!(preset(1).gains_db, [5, 4, 3, 1, -1, -1, 1, 3, 4, 5]);
    assert_eq!(preset(8).gains_db, [0, 0, 0, 0, 0, 1, 2, 4, 5, 6]);
}

#[test]
fn settings_and_socket_places() {
    assert_eq!(settings_path(true, false), Ok(SettingsPath::Override));
    assert_eq!(settings_path(false, true), Ok(SettingsPath::ConfigDir));
    assert_eq!(
        settings_path(false, false),
        Err("unable to determine configuration directory".to_string())
    );
    assert!(matches!(
        default_socket_path(true, 7),
        SocketPath::Runtime(name) if name == "equalizer.sock"
    ));
    assert!(matches!(
        default_socket_path(false, 1000),
        SocketPath::Temp(name) if name == "equalizer-1000.sock"
    ));
}

fn config(channels: usize, in_rate: u32, out_rate: u32) -> PipelineConfig {
    PipelineConfig {
        input: "/tmp/in".to_string(),
        in_rate,
        channels,
        format: PcmFormat::S16le,
        out_rate,
    }
}

#[test]
fn playable_configurations() {
    let cfg = config(2, 44100, 44100);
    assert!(cfg.is_playable());
    assert_eq!(cfg.frame_bytes(), 4);
    assert_eq!(cfg.chunk_bytes(), 441 * 4);
    assert_eq!(config(1, 8000, 44100).chunk_bytes(), 128 * 2);
    assert!(!config(0, 44100, 44100).is_playable());
    assert!(!config(usize::MAX, 44100, 44100).is_playable());
}

#[test]
fn reader_goes_from_event_to_event() {
    let _only = only_handle();
    let mut eq = Equalizer::from_settings(Settings::default());
    let mut status = AudioStatus::new();
    let mut reader = Reader::new(config(2, 44100, 44100), &eq);

    let action = reader.step(ReaderEvent::Started, &eq, &mut status);
    assert!(matches!(action, ReaderAction::Open));
    let action = reader.step(ReaderEvent::Opened { fifo: true }, &eq, &mut status);
    assert!(matches!(action, ReaderAction::Read));
    assert_eq!(status.state, STATE_WAITING);

    // Half a frame is kept until the rest comes.
    let tone = sine_stereo(1000.0, 44100, 4410);
    let mut bytes: Vec<u8> = Vec::new();
    for s in &tone {
        bytes.extend_from_slice(&s.to_le_bytes());
    }
    let action = reader.step(ReaderEvent::Data(bytes[..3].to_vec()), &eq, &mut status);
    assert!(matches!(action, ReaderAction::Read));
    assert_eq!(status.state, STATE_STREAMING);
    assert_eq!(reader.pending.len(), 3);
    let action = reader.step(ReaderEvent::Data(bytes[3..].to_vec()), &eq, &mut status);
    let flat = match action {
        ReaderAction::Send(out) => out,
        _ => panic!("no chunk"),
    };
    assert!(reader.pending.is_empty());
    assert_eq!(status.queued, flat.len());
    assert!(status.peak_l > 7000 && status.peak_r > 7000);
    assert!((0.9..1.1).contains(&(rms(&tone) / rms(&flat))));
    let action = reader.step(ReaderEvent::Sent, &eq, &mut status);
    assert!(matches!(action, ReaderAction::Read));
    let action = reader.step(ReaderEvent::Interrupted, &eq, &mut status);
    assert!(matches!(action, ReaderAction::Read));

    // An edit is in force for the next chunk.
    eq.adjust_band_gain(5, -120);
    let action = reader.step(ReaderEvent::Data(bytes.clone()), &eq, &mut status);
    let cut = match action {
        ReaderAction::Send(out) => out,
        _ => panic!("no chunk"),
    };
    assert!(rms(&flat) / rms(&cut) > 2.0);
    assert_eq!(reader.applied, eq.version());

    // A FIFO is opened again, anything else ends.
    let action = reader.step(ReaderEvent::Data(vec![1, 2]), &eq, &mut status);
    assert!(matches!(action, ReaderAction::Read));
    let action = reader.step(ReaderEvent::EndOfInput, &eq, &mut status);
    assert!(matches!(action, ReaderAction::Open));
    assert!(reader.pending.is_empty());
    assert_eq!(status.state, STATE_WAITING);
    reader.step(ReaderEvent::Opened { fifo: false }, &eq, &mut status);
    let action = reader.step(ReaderEvent::EndOfInput, &eq, &mut status);
    assert!(matches!(action, ReaderAction::Stop));
    assert_eq!(status.state, STATE_ENDED);
    assert!(status.error.is_none());

    let action = reader.step(ReaderEvent::OpenFailed("gone".to_string()), &eq, &mut status);
    assert!(matches!(action, ReaderAction::Stop));
    assert_eq!(status.error.as_deref(), Some("cannot open /tmp/in: gone"));
    let action = reader.step(ReaderEvent::ReadFailed("broken".to_string()), &eq, &mut status);
    assert!(matches!(action, ReaderAction::Stop));
    assert_eq!(status.error.as_deref(), Some("read error: broken"));
    let action = reader.step(ReaderEvent::HungUp, &eq, &mut status);
    assert!(matches!(action, ReaderAction::Stop));
}

#[test]
fn reader_resamples_to_the_output_rate() {
    let _only = only_handle();
    let eq = Equalizer::from_settings(Settings::default());
    let mut status = AudioStatus::new();
    let mut reader = Reader::new(config(1, 22050, 44100), &eq);
    reader.step(ReaderEvent::Opened { fifo: false }, &eq, &mut status);
    let mono: Vec<u8> = sine_stereo(500.0, 22050, 11025)
        .chunks_exact(2)
        .flat_map(|f| f[0].to_le_bytes())
        .collect();
    let action = reader.step(ReaderEvent::Data(mono), &eq, &mut status);
    match action {
        ReaderAction::Send(out) => {
            // Twice the frames, stereo.
            assert!(out.len() > 43000 && out.len() < 45000, "{}", out.len());
        }
        _ => panic!("no chunk"),
    }
}

#[test]
fn splits_between_reads_do_not_show() {
    let _only = only_handle();
    let eq = Equalizer::from_settings(Settings::default());
    let cfg = PipelineConfig {
        input: "-".to_string(),
        in_rate: 48000,
        channels: 3,
        format: PcmFormat::S24le,
        out_rate: 48000,
    };
    assert!(cfg.is_playable());
    let mut reader = Reader::new(cfg, &eq);
    let bytes: Vec<u8> = (0..9 * 40).map(|i| (i * 37 % 251) as u8).collect();
    let whole = reader.take_stereo(bytes.clone());
    assert_eq!(whole.len(), 80);
    for step in [1usize, 2, 5, 8, 9, 10, 100] {
        let mut out = Vec::new();
        for part in bytes.chunks(step) {
            out.extend(reader.take_stereo(part.to_vec()));
        }
        assert_eq!(out, whole, "reads of {step} bytes");
        assert!(reader.pending.is_empty());
    }
}

fn eq_with(change: impl Fn(&mut Settings)) -> Equalizer {
    let mut settings = Settings::default();
    change(&mut settings);
    Equalizer::from_settings(settings)
}

#[test]
fn states_fit_the_rate_or_not() {
    for rate in [0, 1, 8000, 22050, 44100, 96000, 192000, u32::MAX] {
        assert!(eq_with(|_| ()).fits(rate), "flat at {rate}");
    }
    let top = |gain: i32| eq_with(move |s| s.eq_band_settings[9].gain = gain);
    assert!(top(60).fits(32000) && top(-240).fits(44100) && top(240).fits(96000));
    assert!(top(60).fits(31999) && top(1).fits(22050) && top(-240).fits(8000));
    assert!(!top(241).fits(44100) && !top(-241).fits(44100));
    for shelf in [0, EQ_BANDS - 1] {
        let set = |cutoff: i32, q: i32, gain: i32| {
            eq_with(move |s| s.eq_band_settings[shelf] = EqBand { cutoff, q, gain })
        };
        assert!(set(4000, 5, 240).fits(8000) && set(4001, 7, 240).fits(8000));
        assert!(set(i32::MAX, 7, -240).fits(8000) && set(i32::MAX, 8, 0).fits(8000));
        assert!(!set(4001, 5, 1).fits(8000) && !set(4001, 8, 1).fits(8000));
        assert!(!set(0, 7, 1).fits(8000) && !set(-1, 7, 1).fits(8000));
        assert!(!set(4001, 7, 241).fits(8000) && !set(4001, 7, -241).fits(8000));
    }
    for inner in [1, EQ_BANDS - 2] {
        let high = eq_with(move |s| s.eq_band_settings[inner] = EqBand { cutoff: 4001, q: 7, gain: 1 });
        assert!(!high.fits(8000) && high.fits(8002));
    }
    let set = |cutoff: i32, q: i32, gain: i32| {
        eq_with(move |s| s.eq_band_settings[4] = EqBand { cutoff, q, gain })
    };
    assert!(set(22050, 5, 10).fits(44100) && set(1, i32::MAX, -10).fits(44100));
    assert!(!set(22051, 7, 10).fits(44100) && !set(0, 7, 10).fits(44100));
    assert!(!set(-1, 7, 10).fits(44100) && !set(500, 4, 10).fits(44100));
    assert!(!set(30000, 2045603028, -960).fits(44100));
    assert!(set(30000, -3, 0).fits(44100));
    assert!(!eq_with(|s| s.bass = 25).fits(44100) && !eq_with(|s| s.treble = -25).fits(44100));
    assert!(eq_with(|s| s.treble_cutoff = 22050).fits(96000));
    assert!(!eq_with(|s| s.treble_cutoff = 22051).fits(96000));
    assert!(!eq_with(|s| s.bass_cutoff = 4001).fits(8000));
    assert!(!eq_with(|s| s.eq_band_settings.truncate(9)).fits(44100));
}

#[test]
fn dsp_takes_the_ends_of_the_range() {
    let _only = only_handle();
    let mut dsp = Dsp::new(32000);
    let tone = sine_stereo(1000.0, 32000, 3200);
    for gain in [-240, -1, 1, 240] {
        for q in [5, 7, i32::MAX] {
            for cutoff in [1, 8000, 16000] {
                let mut eq = eq_with(|s| {
                    for b in s.eq_band_settings.iter_mut() {
                        *b = EqBand { cutoff, q, gain };
                    }
                    s.bass_cutoff = cutoff;
                    s.treble_cutoff = cutoff;
                    s.bass = gain.signum() * 24;
                    s.treble = -gain.signum() * 24;
                });
                assert!(eq.fits(32000));
                eq.apply_to(&mut dsp);
                eq.set_enabled(false);
                eq.apply_to(&mut dsp);
                eq.set_enabled(true);
                eq.apply_to(&mut dsp);
                assert_eq!(process(&mut dsp, &tone).len(), tone.len());
            }
        }
    }
    // The outermost bands take cutoffs above half the rate as well.
    for gain in [-240, -120, -1, 1, 120, 240] {
        for cutoff in [16001, 20000, 24000, 28000, 31999, 32000, 32001, 48000, i32::MAX] {
            let eq = eq_with(|s| {
                s.eq_band_settings[0] = EqBand { cutoff, q: 7, gain };
                s.eq_band_settings[EQ_BANDS - 1] = EqBand { cutoff, q: 7, gain: -gain };
            });
            assert!(eq.fits(32000));
            eq.apply_to(&mut dsp);
            assert_eq!(process(&mut dsp, &tone).len(), tone.len());
        }
    }
    // Nothing is left for the next handle to compute at another rate.
    eq_with(|_| ()).apply_to(&mut dsp);
}

#[test]
fn presets_play_at_low_rates() {
    let _only = only_handle();
    for rate in [16000, 22050, 24000] {
        let mut eq = Equalizer::from_settings(Settings::default());
        let rock = preset(find("rock").unwrap());
        eq.set_band_gains_db(&rock.gains_db);
        assert!(eq.bands()[9].gain > 0 && eq.fits(rate));
        let mut status = AudioStatus::new();
        let mut reader = Reader::new(config(2, rate, rate), &eq);
        let tone = sine_stereo(1000.0, rate, 4000);
        let bytes: Vec<u8> = tone.iter().flat_map(|s| s.to_le_bytes()).collect();
        let action = reader.step(ReaderEvent::Data(bytes.clone()), &eq, &mut status);
        assert!(matches!(action, ReaderAction::Send(out) if out.len() == tone.len()));
        // Another edit of the top band goes through as well.
        eq.adjust_band_gain(9, -500);
        let action = reader.step(ReaderEvent::Data(bytes), &eq, &mut status);
        assert!(matches!(action, ReaderAction::Send(out) if out.len() == tone.len()));
        assert_eq!(reader.applied, eq.version());
        eq.reset_gains();
        reader.refresh(&eq);
    }
}

#[test]
fn next_writer_hears_nothing_of_the_last() {
    let _only = only_handle();
    let mut eq = Equalizer::from_settings(Settings::default());
    eq.adjust_band_gain(2, 120);
    eq.adjust_bass(6);
    let mut status = AudioStatus::new();
    let mut reader = Reader::new(config(2, 44100, 44100), &eq);
    assert!(!reader.fifo);
    let bytes: Vec<u8> = sine_stereo(90.0, 44100, 1000)
        .iter()
        .flat_map(|s| s.to_le_bytes())
        .collect();
    let mut play = |reader: &mut Reader| {
        match reader.step(ReaderEvent::Data(bytes.clone()), &eq, &mut status) {
            ReaderAction::Send(out) => out,
            _ => panic!("no chunk"),
        }
    };
    let first = play(&mut reader);
    // Without a flush the filters still ring from the chunk before.
    let second = play(&mut reader);
    assert_ne!(first, second);
    let mut other = AudioStatus::new();
    reader.step(ReaderEvent::Opened { fifo: true }, &eq, &mut other);
    reader.step(ReaderEvent::Data(vec![1, 2, 3]), &eq, &mut other);
    reader.step(ReaderEvent::EndOfInput, &eq, &mut other);
    assert_eq!(play(&mut reader), first);
}

#[test]
fn edits_leave_the_telemetry_alone() {
    let mut status = AudioStatus::new();
    status.add_queued(77);
    status.peak_l = 5;
    let mut local = LocalController::new(Equalizer::from_settings(Settings::default()), status);
    local.set_enabled(false);
    local.adjust_band(1, 5);
    local.adjust_bass(1);
    local.adjust_treble(1);
    local.set_band_gains_db(&[1; EQ_BANDS]);
    local.reset_gains();
    local.save();
    assert_eq!((local.status.queued, local.status.peak_l), (77, 5));
    assert_eq!(local.eq.version(), 6);
}
