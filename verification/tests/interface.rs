use equalizer::audio::{AudioStatus, STATE_ENDED, STATE_STREAMING};
use equalizer::control::{Controller, LocalController};
use equalizer::display::{fmt_hz, gain_text, meter_bar, shorten, METER_WIDTH};
use equalizer::equalizer::Equalizer;
use equalizer::settings::Settings;
use equalizer::sliders::{bar_length, render, Area, BarRow, SliderColumn, Tone};
use equalizer::ui::{
    action_of, handle_event, handle_key, panel, status_line, too_small, Action, App, KeyCode,
    KeyEvent, StreamInfo, UiEvent,
};

#[test]
fn meter_bar_is_fixed_width() {
    for peak in [0, 1, 100, 5000, 32768] {
        assert_eq!(meter_bar(peak).chars().count(), METER_WIDTH, "peak {peak}");
    }
}

#[test]
fn meter_bar_monotonic() {
    let silent = meter_bar(0);
    let full = meter_bar(32768);
    assert!(silent.trim().is_empty());
    assert_eq!(full, "█".repeat(METER_WIDTH));
}

#[test]
fn shorten_keeps_tail() {
    assert_eq!(shorten("stdin", 32), "stdin");
    let long = "/very/long/path/to/some/audio.fifo";
    let short = shorten(long, 16);
    assert_eq!(short.chars().count(), 16);
    assert!(short.starts_with('…') && short.ends_with("audio.fifo"));
}

#[test]
fn hz_formatting() {
    assert_eq!(fmt_hz(63), "63 Hz");
    assert_eq!(fmt_hz(1000), "1 kHz");
    assert_eq!(fmt_hz(2500), "2.5 kHz");
    assert_eq!(fmt_hz(16000), "16 kHz");
}

#[test]
fn shorten_counts_characters() {
    assert_eq!(shorten("äöüß", 4), "äöüß");
    assert_eq!(shorten("äöüßé", 4), "…üßé");
    assert_eq!(shorten("abc", 1), "…");
    assert_eq!(shorten("", 0), "");
}

#[test]
fn hz_formatting_agrees_with_float_formatting() {
    let mut values: Vec<i32> = (-2000..120000).collect();
    let mut v: i64 = 120000;
    while v < i32::MAX as i64 {
        values.push(v as i32);
        v += 1_234_567;
    }
    values.push(i32::MAX);
    values.push(i32::MIN);
    for hz in values {
        let expected = if hz < 1000 {
            format!("{} Hz", hz)
        } else if hz % 1000 == 0 {
            format!("{} kHz", hz / 1000)
        } else {
            format!("{:.1} kHz", hz as f32 / 1000.0)
        };
        assert_eq!(fmt_hz(hz), expected);
    }
}

#[test]
fn gain_text_agrees_with_float_formatting() {
    for gain in -3000i32..3000 {
        assert_eq!(gain_text(gain as i64), format!("{:+.1} dB", gain as f32 / 10.0));
    }
    for gain in [i32::MIN, i32::MAX, 123_456_789, -99_999_999, 16_777_217, 83_886_085] {
        assert_eq!(gain_text(gain as i64), format!("{:+.1} dB", gain as f32 / 10.0));
    }
    assert_eq!(gain_text(50), "+5.0 dB");
    assert_eq!(gain_text(0), "+0.0 dB");
    assert_eq!(gain_text(-125), "-12.5 dB");
    assert_eq!(gain_text(i64::MIN).chars().next(), Some('-'));
}

fn meter_reference(peak: f32) -> String {
    const EIGHTHS: [char; 8] = ['▏', '▎', '▍', '▌', '▋', '▊', '▉', '█'];
    let db = if peak < 1.0 { -96.0 } else { 20.0 * (peak / 32768.0).log10() };
    let norm = ((db + 48.0) / 48.0).clamp(0.0, 1.0);
    let cells = (norm * 64.0).round() as usize;
    let mut bar = "█".repeat(cells / 8);
    if cells % 8 > 0 {
        bar.push(EIGHTHS[cells % 8 - 1]);
    }
    let used = cells / 8 + usize::from(cells % 8 > 0);
    bar.push_str(&" ".repeat(8 - used));
    bar
}

#[test]
fn meter_agrees_with_decibels() {
    for peak in -5i32..=70000 {
        assert_eq!(meter_bar(peak), meter_reference(peak as f32), "peak {peak}");
    }
    assert_eq!(meter_bar(i32::MAX), "█".repeat(8));
    assert_eq!(meter_bar(i32::MIN), " ".repeat(8));
}

#[test]
fn bars_agree_with_float_arithmetic() {
    for rows in [1u16, 2, 3, 5, 7, 10, 13, 20, 21, 37, 40, 57, 100, 255, 1000, 40000, 65535] {
        let half = rows as f32 / 2.0;
        for gain in -300i32..=300 {
            let db = gain as f32 / 10.0;
            let offset = db.clamp(-24.0, 24.0) / 24.0 * half;
            let mut full = offset.abs().floor() as u64;
            let mut eighths = (offset.abs().fract() * 8.0).round() as u64;
            if eighths == 8 {
                full += 1;
                eighths = 0;
            }
            assert_eq!(bar_length(gain as i64, rows), 8 * full + eighths, "{gain} {rows}");
        }
    }
    assert_eq!(bar_length(0, 20), 0);
    assert_eq!(bar_length(240, 20), 80);
    assert_eq!(bar_length(-9999, 21), 84);
    assert_eq!(bar_length(120, 20), 40);
}

fn column(gain_tenths: i64, label: &str, dimmed: bool) -> SliderColumn {
    SliderColumn { gain_tenths, label: label.to_string(), dimmed }
}

#[test]
fn sliders_are_laid_out() {
    let mut columns = Vec::new();
    for i in 0..12 {
        columns.push(column(if i == 3 { 130 } else { 0 }, "x", i == 11));
    }
    let area = Area { x: 3, y: 2, width: 72, height: 13 };
    let drawn = render(&columns, 3, area);
    assert_eq!(drawn.len(), 12);
    let d = &drawn[3];
    assert_eq!((d.x, d.width, d.track_x), (3 + 18, 6, 3 + 18 + 3));
    assert_eq!((d.bar_x, d.bar_width), (3 + 18 + 1, 3));
    assert_eq!(d.gain, "+13.0 dB");
    assert_eq!(d.label, "x");
    assert!(d.label_bold && d.label_tone == Tone::Yellow && d.bar_tone == Tone::Yellow);
    // 13 dB of 24 on 10 rows: 2.708 rows above the axis.
    let expected = vec![
        BarRow::Track,
        BarRow::Track,
        BarRow::TipUp { eighths: 6 },
        BarRow::Full,
        BarRow::Full,
        BarRow::Full,
        BarRow::Track,
        BarRow::Track,
        BarRow::Track,
        BarRow::Track,
        BarRow::Track,
    ];
    assert_eq!(d.rows, expected);
    let flat = &drawn[0];
    assert_eq!(flat.rows.iter().filter(|r| **r == BarRow::Full).count(), 1);
    assert_eq!(flat.rows[5], BarRow::Full);
    assert!(flat.label_tone == Tone::Pink && flat.bar_tone == Tone::Cyan && !flat.label_bold);
    let last = &drawn[11];
    assert!(last.label_tone == Tone::Comment && last.bar_tone == Tone::Dim);
    assert!(drawn[10].separator && !drawn[9].separator && !drawn[11].separator);
}

#[test]
fn bars_point_down_for_cuts() {
    let columns = vec![column(-130, "cut", false), column(-240, "low", false)];
    let drawn = render(&columns, 9, Area { x: 0, y: 0, width: 40, height: 13 });
    let rows = &drawn[0].rows;
    assert_eq!(rows[5..9], [BarRow::Full, BarRow::Full, BarRow::Full, BarRow::TipDown { eighths: 2 }]);
    assert_eq!(rows[4], BarRow::Track);
    assert_eq!(drawn[1].rows[5..], [BarRow::Full; 6]);
}

#[test]
fn sliders_stop_at_the_edge() {
    let columns: Vec<SliderColumn> = (0..12).map(|_| column(0, "x", false)).collect();
    // Four cells a column: the tracks at 2, 6, 10, … fit below 30.
    let drawn = render(&columns, 0, Area { x: 0, y: 0, width: 30, height: 8 });
    assert_eq!(drawn.len(), 7);
    assert_eq!(drawn[6].track_x, 26);
    assert!(render(&columns, 0, Area { x: 0, y: 0, width: 7, height: 8 }).is_empty());
    assert!(render(&columns, 0, Area { x: 0, y: 0, width: 80, height: 4 }).is_empty());
    assert!(render(&Vec::new(), 0, Area { x: 0, y: 0, width: 80, height: 24 }).is_empty());
    let far = render(&columns, 0, Area { x: 65500, y: 65500, width: 200, height: 200 });
    assert_eq!(far.len(), 2);
}

fn local() -> LocalController {
    LocalController::new(Equalizer::from_settings(Settings::default()), AudioStatus::new())
}

fn key(code: KeyCode) -> KeyEvent {
    KeyEvent { code, shift: false, control: false }
}

fn press(app: &mut App, ctrl: &mut LocalController, c: char) {
    handle_key(app, ctrl, key(KeyCode::Char(c)));
}

#[test]
fn keys_mean_what_the_help_says() {
    assert_eq!(action_of(key(KeyCode::Esc)), Action::Quit);
    assert_eq!(action_of(key(KeyCode::Char('q'))), Action::Quit);
    assert_eq!(
        action_of(KeyEvent { code: KeyCode::Char('c'), shift: false, control: true }),
        Action::Quit
    );
    assert_eq!(action_of(key(KeyCode::Char('c'))), Action::Nothing);
    assert_eq!(action_of(key(KeyCode::Other)), Action::Nothing);
    assert_eq!(action_of(key(KeyCode::Left)), Action::SelectPrevious);
    assert_eq!(action_of(key(KeyCode::Char('h'))), Action::SelectPrevious);
    assert_eq!(action_of(key(KeyCode::Right)), Action::SelectNext);
    assert_eq!(action_of(key(KeyCode::Char('l'))), Action::SelectNext);
    for c in ['k', '+', '='] {
        assert_eq!(
            action_of(key(KeyCode::Char(c))),
            Action::Adjust { up: true, coarse: false }
        );
    }
    for c in ['j', '-'] {
        assert_eq!(
            action_of(key(KeyCode::Char(c))),
            Action::Adjust { up: false, coarse: false }
        );
    }
    assert_eq!(
        action_of(KeyEvent { code: KeyCode::Down, shift: true, control: false }),
        Action::Adjust { up: false, coarse: true }
    );
    assert_eq!(action_of(key(KeyCode::Char('B'))), Action::Bass { up: false });
    assert_eq!(action_of(key(KeyCode::Char('t'))), Action::Treble { up: true });
    assert_eq!(action_of(key(KeyCode::Char(' '))), Action::Toggle);
    assert_eq!(action_of(key(KeyCode::Char('e'))), Action::Toggle);
    assert_eq!(action_of(key(KeyCode::Char('P'))), Action::Preset { forward: false });
    assert_eq!(action_of(key(KeyCode::Char('0'))), Action::Reset);
    assert_eq!(action_of(key(KeyCode::Char('s'))), Action::Save);
}

#[test]
fn selection_stops_at_the_ends() {
    let mut app = App::new(None);
    let mut ctrl = local();
    handle_key(&mut app, &mut ctrl, key(KeyCode::Left));
    assert_eq!(app.selected, 0);
    for _ in 0..20 {
        handle_key(&mut app, &mut ctrl, key(KeyCode::Right));
    }
    assert_eq!(app.selected, 11);
    assert!(!app.dirty);
}

#[test]
fn steps_are_fine_and_coarse() {
    let mut app = App::new(Some(1));
    let mut ctrl = local();
    handle_key(&mut app, &mut ctrl, key(KeyCode::Up));
    assert_eq!(ctrl.snapshot().bands[0].gain, 5);
    assert_eq!(app.preset, None);
    assert!(app.dirty);
    handle_key(
        &mut app,
        &mut ctrl,
        KeyEvent { code: KeyCode::Down, shift: true, control: false },
    );
    assert_eq!(ctrl.snapshot().bands[0].gain, -15);
    app.selected = 10;
    app.preset = Some(2);
    handle_key(
        &mut app,
        &mut ctrl,
        KeyEvent { code: KeyCode::Up, shift: true, control: false },
    );
    assert_eq!(ctrl.snapshot().bass, 4);
    assert_eq!(app.preset, Some(2));
    app.selected = 11;
    press(&mut app, &mut ctrl, '-');
    assert_eq!(ctrl.snapshot().treble, -1);
    press(&mut app, &mut ctrl, 'b');
    press(&mut app, &mut ctrl, 'T');
    assert_eq!((ctrl.snapshot().bass, ctrl.snapshot().treble), (5, -2));
    assert_eq!(app.selected, 11);
    press(&mut app, &mut ctrl, '0');
    assert_eq!((ctrl.snapshot().bass, ctrl.snapshot().treble), (0, 0));
    assert_eq!(app.preset, None);
}

#[test]
fn presets_cycle_both_ways() {
    let mut app = App::new(None);
    let mut ctrl = local();
    press(&mut app, &mut ctrl, 'e');
    assert!(!ctrl.snapshot().enabled);
    press(&mut app, &mut ctrl, 'P');
    assert_eq!(app.preset, Some(8));
    assert!(ctrl.snapshot().enabled);
    assert_eq!(ctrl.snapshot().bands[9].gain, 60);
    press(&mut app, &mut ctrl, 'p');
    assert_eq!(app.preset, Some(0));
    press(&mut app, &mut ctrl, 'p');
    assert_eq!(app.preset, Some(1));
    assert_eq!(ctrl.snapshot().bands[0].gain, 50);
    press(&mut app, &mut ctrl, 'P');
    assert_eq!(app.preset, Some(0));
    app.preset = None;
    press(&mut app, &mut ctrl, 'p');
    assert_eq!(app.preset, Some(0));
}

#[test]
fn toggling_twice_changes_nothing() {
    let mut app = App::new(None);
    let mut ctrl = local();
    press(&mut app, &mut ctrl, ' ');
    press(&mut app, &mut ctrl, ' ');
    assert!(ctrl.snapshot().enabled);
    assert_eq!(ctrl.eq.version(), 2);
}

#[test]
fn changes_are_saved_after_a_pause() {
    let mut app = App::new(None);
    let mut ctrl = local();
    press(&mut app, &mut ctrl, 'b');
    app.save_when_due(&mut ctrl, 400_000_000);
    assert!(app.dirty && !ctrl.save_requested);
    app.save_when_due(&mut ctrl, 400_000_001);
    assert!(!app.dirty && ctrl.save_requested);
    assert!(ctrl.take_save());
    assert!(!ctrl.take_save());
    app.save_at_end(&mut ctrl);
    assert!(!ctrl.save_requested);
    press(&mut app, &mut ctrl, 'b');
    app.save_at_end(&mut ctrl);
    assert!(ctrl.take_save());
    press(&mut app, &mut ctrl, 's');
    assert!(!app.dirty && ctrl.take_save());
}

#[test]
fn releases_are_ignored() {
    let mut app = App::new(None);
    let mut ctrl = local();
    let quit = key(KeyCode::Esc);
    assert!(!handle_event(&mut app, &mut ctrl, UiEvent::Key { key: quit, release: true }));
    assert!(!handle_event(&mut app, &mut ctrl, UiEvent::Other));
    assert!(!app.quit);
    assert!(handle_event(&mut app, &mut ctrl, UiEvent::Key { key: quit, release: false }));
    assert!(app.quit);
}

#[test]
fn meters_hold_and_fall() {
    let mut app = App::new(None);
    app.tick(10000, 500);
    assert_eq!((app.meter_l, app.meter_r), (10000, 500));
    app.tick(0, 0);
    assert_eq!((app.meter_l, app.meter_r), (8200, 0));
    app.tick(9000, 1);
    assert_eq!((app.meter_l, app.meter_r), (9000, 1));
    app.tick(i32::MIN, 0);
    assert_eq!(app.meter_l, 7200);
}

#[test]
fn panel_shows_the_equalizer() {
    let mut app = App::new(Some(7));
    let mut ctrl = local();
    ctrl.adjust_bass(3);
    let shown = panel(&app, &ctrl.snapshot());
    assert_eq!(shown.title, " Equalizer — ON (±24 dB) — bass-boost ");
    assert_eq!(shown.border, Tone::Pink);
    assert_eq!(shown.columns.len(), 12);
    assert_eq!(shown.columns[5].label, "1 kHz");
    assert!(!shown.columns[5].dimmed);
    assert_eq!((shown.columns[10].gain_tenths, shown.columns[10].dimmed), (30, false));
    assert_eq!(shown.columns[10].label, "Bass");
    assert_eq!(shown.columns[11].label, "Treble");
    assert!(shown.columns[11].dimmed);
    ctrl.set_enabled(false);
    app.preset = None;
    let shown = panel(&app, &ctrl.snapshot());
    assert_eq!(shown.title, " Equalizer — OFF (±24 dB) — custom ");
    assert_eq!(shown.border, Tone::Dim);
    assert!(shown.columns[0].dimmed);
    assert!(too_small(29, 10) && too_small(30, 4) && !too_small(30, 5));
}

fn info(in_rate: u32, out_rate: u32) -> StreamInfo {
    StreamInfo {
        input: "stdin".to_string(),
        format: "s16le 2ch".to_string(),
        in_rate,
        out_rate,
        device: "Speakers".to_string(),
    }
}

#[test]
fn status_line_tells_the_pipeline() {
    let app = App::new(None);
    let mut ctrl = local();
    ctrl.status.frames_played = 48000 * 125;
    let line = status_line(&app, &ctrl.status(), &info(44100, 48000));
    let texts: Vec<&str> = line.iter().map(|p| p.text.as_str()).collect();
    let empty = " ".repeat(8);
    assert_eq!(
        texts,
        vec![
            " stdin ",
            "s16le 2ch 44100→48000 Hz ",
            "→ Speakers ",
            " … waiting for input ",
            " 02:05 ",
            " L",
            empty.as_str(),
            " R",
            empty.as_str(),
        ]
    );
    assert!(line[0].bold && line[0].tone == Tone::Pink);
    assert!(line[4].tone == Tone::Orange && line[6].tone == Tone::Green);

    ctrl.status.state = STATE_STREAMING;
    let line = status_line(&app, &ctrl.status(), &info(48000, 48000));
    assert_eq!(line[1].text, "s16le 2ch 48000 Hz ");
    assert_eq!((line[3].text.as_str(), line[3].tone), (" ▶ playing ", Tone::Green));
    ctrl.status.state = STATE_ENDED;
    let line = status_line(&app, &ctrl.status(), &info(0, 0));
    assert_eq!((line[3].text.as_str(), line[3].tone), (" ■ input ended ", Tone::Yellow));
    assert_eq!(line[4].text, " 100000:00 ");
    ctrl.status.error = Some("broken".to_string());
    let line = status_line(&app, &ctrl.status(), &info(0, 0));
    assert_eq!((line[3].text.as_str(), line[3].tone), (" ✖ broken ", Tone::Red));
}

#[test]
fn bars_grow_with_the_gain() {
    for rows in [3u16, 10, 21, 200] {
        let mut last = 0;
        for gain in 0..=300i64 {
            let up = bar_length(gain, rows);
            assert!(up >= last && up <= 4 * rows as u64);
            assert_eq!(bar_length(-gain, rows), up);
            last = up;
        }
        assert_eq!(last, 4 * rows as u64);
    }
}

#[test]
fn presets_go_round() {
    let mut app = App::new(Some(4));
    let mut ctrl = local();
    for _ in 0..9 {
        press(&mut app, &mut ctrl, 'p');
    }
    assert_eq!(app.preset, Some(4));
    assert_eq!(ctrl.eq.version(), 18);
}

#[test]
fn adjusting_back_changes_nothing() {
    let mut app = App::new(None);
    let mut ctrl = local();
    for selected in [0, 5, 10, 11] {
        app.selected = selected;
        for shift in [false, true] {
            handle_key(&mut app, &mut ctrl, KeyEvent { code: KeyCode::Up, shift, control: false });
            handle_key(&mut app, &mut ctrl, KeyEvent { code: KeyCode::Down, shift, control: false });
        }
    }
    let now = ctrl.snapshot();
    assert!(now.bands.iter().all(|b| b.gain == 0));
    assert_eq!((now.bass, now.treble), (0, 0));
    assert_eq!(ctrl.eq.version(), 16);
}
