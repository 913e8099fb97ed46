use equalizer::audio::{AudioStatus, STATE_STREAMING};
use equalizer::control::{Controller, LocalController};
use equalizer::equalizer::Equalizer;
use equalizer::remote::{
    apply_state, client_header, describe, dial_target, request_of, stream_info, ApiRequest, Cmd,
    DialTarget, RemoteController, WatchEvent,
};
use equalizer::server::{
    bind_step, generate_token, preset_or_message, state_message, Auth, Code, Endpoints, Service,
    SocketStep, State,
};
use equalizer::settings::{ApiConfig, Settings};
use equalizer::startup::{
    check_channels, first_match, format_text, input_label, looks_for_running, output_rate,
    pick_device, serve_plan, socket_source, start_preset, token_goes_to_log, SocketSource,
    TokenPlan,
};
use equalizer::ui::{handle_key, App, KeyCode, KeyEvent, StreamInfo};

fn service() -> Service {
    Service {
        info: StreamInfo {
            input: "stdin".to_string(),
            format: "s16le 2ch".to_string(),
            in_rate: 44100,
            out_rate: 48000,
            device: "Speakers".to_string(),
        },
    }
}

fn local() -> LocalController {
    LocalController::new(Equalizer::from_settings(Settings::default()), AudioStatus::new())
}

fn gains(state: &State) -> Vec<i32> {
    state.bands.iter().map(|b| b.gain_tenths_db).collect()
}

#[test]
fn state_message_tells_everything() {
    let mut local = local();
    local.eq.adjust_treble(-2);
    local.status.state = STATE_STREAMING;
    local.status.frames_played = 77;
    local.status.peak_l = 5;
    local.status.peak_r = 6;
    let state = state_message(&local.eq, &local.status, &service().info);
    assert!(state.enabled);
    assert_eq!(state.bands.len(), 10);
    assert_eq!((state.bands[9].cutoff_hz, state.bands[9].q_tenths), (16000, 7));
    assert_eq!((state.bass_db, state.treble_db, state.version), (0, -2, 1));
    assert_eq!((state.playback, state.error.as_str()), (1, ""));
    assert_eq!((state.frames_played, state.peak_l, state.peak_r), (77, 5, 6));
    let stream = state.stream.unwrap();
    assert_eq!((stream.input.as_str(), stream.out_rate), ("stdin", 48000));
    local.status.state = 9;
    local.status.error = Some("broken".to_string());
    let state = service().get_state(&local);
    assert_eq!((state.playback, state.error.as_str()), (0, "broken"));
}

#[test]
fn requests_edit_the_equalizer() {
    let svc = service();
    let mut local = local();
    assert!(!svc.set_enabled(&mut local, false).enabled);
    let state = svc.adjust_band(&mut local, 9, 20).ok().unwrap();
    assert_eq!(gains(&state)[9], 20);
    let state = svc.set_band_gains(&mut local, &[1, 2, 3, 4, 5, 6, 7, 8, 9, 999]).ok().unwrap();
    assert_eq!(gains(&state), vec![1, 2, 3, 4, 5, 6, 7, 8, 9, 240]);
    let version = state.version;
    let state = svc.adjust_tone(&mut local, 0, 0);
    assert_eq!(state.version, version);
    let state = svc.adjust_tone(&mut local, 6, -6);
    assert_eq!((state.bass_db, state.treble_db, state.version), (6, -6, version + 2));
    let state = svc.apply_preset(&mut local, "rock").ok().unwrap();
    assert!(state.enabled);
    assert_eq!(gains(&state)[0], 50);
    let state = svc.reset_gains(&mut local);
    assert!(gains(&state).iter().all(|g| *g == 0));
    assert_eq!((state.bass_db, state.treble_db), (0, 0));
}

#[test]
fn bad_requests_are_refused() {
    let svc = service();
    let mut local = local();
    let refusal = svc.adjust_band(&mut local, 10, 20).err().unwrap();
    assert_eq!((refusal.code, refusal.message.as_str()), (Code::InvalidArgument, "band must be 0..9"));
    let refusal = svc.set_band_gains(&mut local, &[0; 11]).err().unwrap();
    assert_eq!(
        (refusal.code, refusal.message.as_str()),
        (Code::InvalidArgument, "expected 10 gains, got 11")
    );
    let refusal = svc.apply_preset(&mut local, "no\"pe\n").err().unwrap();
    assert_eq!(refusal.code, Code::NotFound);
    assert_eq!(
        refusal.message,
        "unknown preset \"no\\\"pe\\n\" (available: flat, rock, pop, jazz, classical, \
         electronic, vocal, bass-boost, treble-boost)"
    );
    assert_eq!(local.eq.version(), 0);
    let refusal = svc.save(Err("disk full".to_string())).err().unwrap();
    assert_eq!((refusal.code, refusal.message.as_str()), (Code::Internal, "disk full"));
    assert!(svc.save(Ok(())).is_ok());
}

#[test]
fn presets_are_listed() {
    let presets = service().list_presets();
    assert_eq!(presets.len(), 9);
    assert_eq!(presets[7].name, "bass-boost");
    assert_eq!(presets[7].gains_db, vec![6, 5, 4, 2, 1, 0, 0, 0, 0, 0]);
    assert_eq!(preset_or_message("jazz"), Ok(3));
}

#[test]
fn only_the_token_passes() {
    let auth = Auth { token: Some("abc".to_string()) };
    assert!(auth.call(Some(b"Bearer abc")).is_ok());
    assert!(auth.call(Some(b"abc")).is_ok());
    let refused: [Option<&[u8]>; 6] = [
        None,
        Some(b""),
        Some(b"Bearer "),
        Some(b"bearer abc"),
        Some(b"Bearer abcd"),
        Some(b"Bearer Bearer abc"),
    ];
    for sent in refused {
        let refusal = auth.call(sent).err().unwrap();
        assert_eq!(refusal.code, Code::Unauthenticated);
        assert_eq!(
            refusal.message,
            "missing or invalid token: send `authorization: Bearer <token>` \
             (see [api].token in the server's settings.toml)"
        );
    }
    let open = Auth { token: None };
    assert!(open.call(None).is_ok());
    assert!(open.call(Some(b"whatever")).is_ok());
}

#[test]
fn header_values_are_read_as_ascii() {
    let auth = Auth { token: Some("é".to_string()) };
    assert!(auth.call(Some("Bearer é".as_bytes())).is_err());
    let auth = Auth { token: Some("a\tb".to_string()) };
    assert!(auth.call(Some(b"Bearer a\tb")).is_ok());
    let auth = Auth { token: Some("a\u{7f}".to_string()) };
    assert!(auth.call(Some(b"Bearer a\x7f")).is_err());
}

#[test]
fn client_headers_carry_the_token() {
    assert_eq!(client_header(None), Ok(None));
    assert_eq!(client_header(Some("abc")), Ok(Some(b"Bearer abc".to_vec())));
    assert_eq!(client_header(Some("é")), Ok(Some("Bearer é".as_bytes().to_vec())));
    for bad in ["a\nb", "a\u{7f}", "\0", "\r"] {
        assert_eq!(
            client_header(Some(bad)),
            Err("token contains characters not allowed in a header".to_string())
        );
    }
    assert!(client_header(Some("a\tb")).is_ok());
}

#[test]
fn generated_tokens_get_through() {
    let mut random = [0u8; 24];
    for (i, b) in random.iter_mut().enumerate() {
        *b = (i * 11) as u8;
    }
    let token = generate_token(&random);
    let expected: String = random.iter().map(|b| format!("{b:02x}")).collect();
    assert_eq!(token, expected);
    assert_eq!(token.len(), 48);
    let header = client_header(Some(&token)).unwrap().unwrap();
    let endpoints = Endpoints {
        socket: Some("/run/eq.sock".to_string()),
        tcp: Some(("0.0.0.0".to_string(), 50051)),
        token: Some(token),
    };
    assert!(endpoints.tcp_auth().call(Some(&header)).is_ok());
    assert!(endpoints.tcp_auth().call(None).is_err());
    assert!(endpoints.socket_auth().call(None).is_ok());
    random[23] ^= 1;
    let other = client_header(Some(&generate_token(&random))).unwrap().unwrap();
    assert!(endpoints.tcp_auth().call(Some(&other)).is_err());
    let bound = endpoints.bound(false);
    assert!(bound.socket.is_none());
    assert_eq!(bound.tcp, Some(("0.0.0.0".to_string(), 50051)));
    assert_eq!(bound.bound(true).token.map(|t| t.len()), Some(48));
}

#[test]
fn sockets_are_claimed() {
    assert_eq!(bind_step(false, false), SocketStep::Bind);
    assert_eq!(bind_step(true, true), SocketStep::Skip);
    assert_eq!(bind_step(true, false), SocketStep::RemoveAndBind);
}

#[test]
fn addresses_lead_somewhere() {
    let target = |addr: &str| match dial_target(addr, "/run/default.sock") {
        DialTarget::Unix(path) => format!("unix {path}"),
        DialTarget::Url(url) => format!("url {url}"),
    };
    assert_eq!(target(""), "unix /run/default.sock");
    assert_eq!(target("unix:eq.sock"), "unix eq.sock");
    assert_eq!(target("/tmp/eq.sock"), "unix /tmp/eq.sock");
    assert_eq!(target("dir/eq.sock"), "unix dir/eq.sock");
    assert_eq!(target("machine-a:50051"), "url http://machine-a:50051");
    assert_eq!(target("http://machine-a:50051"), "url http://machine-a:50051");
    assert_eq!(target("https://machine-a"), "url https://machine-a");
    assert_eq!(describe("", "/run/default.sock"), "/run/default.sock");
    assert_eq!(describe("unix:/x", "/d"), "/x");
    assert_eq!(describe("host:1", "/d"), "host:1");
}

fn remote_of(local: &LocalController) -> RemoteController {
    RemoteController::new(&service().get_state(local))
}

/// Serve a request as the other side would.
fn serve(local: &mut LocalController, request: ApiRequest) -> Result<(), String> {
    let svc = service();
    let refused = |status: equalizer::server::Status| status.message;
    match request {
        ApiRequest::SetEnabled { enabled } => {
            svc.set_enabled(local, enabled);
        }
        ApiRequest::AdjustBand { band, delta_tenths_db } => {
            svc.adjust_band(local, band, delta_tenths_db).map_err(refused)?;
        }
        ApiRequest::AdjustTone { bass_delta_db, treble_delta_db } => {
            svc.adjust_tone(local, bass_delta_db, treble_delta_db);
        }
        ApiRequest::SetBandGains { gains_tenths_db } => {
            svc.set_band_gains(local, &gains_tenths_db).map_err(refused)?;
        }
        ApiRequest::ResetGains => {
            svc.reset_gains(local);
        }
        ApiRequest::Save => {}
    }
    Ok(())
}

#[test]
fn edits_show_at_once_and_arrive_in_order() {
    let mut server = local();
    let mut remote = remote_of(&server);
    assert!(remote.is_settled());
    remote.set_band_gains_db(&[5, 4, 3, 1, -1, -1, 1, 3, 4, 500]);
    remote.set_enabled(false);
    remote.adjust_band(2, -35);
    remote.adjust_bass(7);
    remote.adjust_treble(-30);
    remote.save();
    assert_eq!(remote.snapshot().bands[0].gain, 50);
    assert_eq!(remote.snapshot().bands[2].gain, -5);
    assert_eq!(remote.snapshot().bands[9].gain, 240);
    assert_eq!((remote.snapshot().bass, remote.snapshot().treble), (7, -24));

    // A state from before the edits changes nothing but the telemetry.
    let mut stale = service().get_state(&server);
    stale.frames_played = 99;
    assert!(remote.watch(WatchEvent::State(stale)));
    assert_eq!(remote.snapshot().bands[0].gain, 50);
    assert_eq!(remote.status().frames_played, 99);

    let mut sent = 0;
    while let Some(cmd) = remote.next_command() {
        assert!(remote.next_command().is_none());
        assert!(!remote.is_settled());
        let request = request_of(&cmd);
        serve(&mut server, request).unwrap();
        remote.acknowledge(None);
        sent += 1;
    }
    assert_eq!(sent, 6);
    assert!(remote.is_settled());
    let shown = remote.snapshot();
    let there = server.snapshot();
    assert_eq!(shown.bands, there.bands);
    assert_eq!((shown.bass, shown.treble, shown.enabled), (there.bass, there.treble, false));

    // Another client resets: the next state shows it.
    server.reset_gains();
    let state = service().get_state(&server);
    assert!(remote.watch(WatchEvent::State(state)));
    assert_eq!(remote.snapshot().bands[0].gain, 0);
    remote.reset_gains();
    assert!(matches!(remote.next_command(), Some(Cmd::Reset)));
}

#[test]
fn trouble_is_shown_until_it_is_over() {
    let mut server = local();
    server.status.error = Some("read error: x".to_string());
    let mut remote = remote_of(&server);
    assert_eq!(remote.status().error.as_deref(), Some("read error: x"));
    assert!(!remote.watch(WatchEvent::Lost("reset by peer".to_string())));
    assert_eq!(remote.status().error.as_deref(), Some("connection lost: reset by peer"));
    assert!(!remote.watch(WatchEvent::Ended));
    let state = service().get_state(&server);
    remote.watch(WatchEvent::State(state));
    assert_eq!(remote.status().error.as_deref(), Some("read error: x"));
    remote.set_enabled(true);
    assert!(remote.next_command().is_some());
    remote.acknowledge(Some("code 7"));
    assert_eq!(remote.status().error.as_deref(), Some("rpc failed: code 7"));
    assert!(remote.is_settled());
}

#[test]
fn wire_states_are_copied() {
    let mut server = local();
    server.eq.adjust_bass(4);
    let mut remote = remote_of(&server);
    let mut state = service().get_state(&server);
    state.playback = 258;
    state.bass_db = 9;
    apply_state(&mut remote.mirror, &state, false);
    assert_eq!((remote.mirror.play_state, remote.mirror.bass), (2, 4));
    state.playback = -1;
    apply_state(&mut remote.mirror, &state, true);
    assert_eq!((remote.mirror.play_state, remote.mirror.bass), (255, 9));
    let info = stream_info("host:1", &state);
    assert_eq!(info.input, "host:1 ⇄ stdin");
    assert_eq!((info.format.as_str(), info.in_rate, info.out_rate), ("s16le 2ch", 44100, 48000));
    state.stream = None;
    let info = stream_info("host:1", &state);
    assert_eq!((info.input.as_str(), info.device.as_str(), info.in_rate), ("host:1 ⇄ ", "", 0));
}

#[test]
fn requests_carry_the_edits() {
    assert!(matches!(
        request_of(&Cmd::AdjustBand(0x1_0000_0003, -7)),
        ApiRequest::AdjustBand { band: 3, delta_tenths_db: -7 }
    ));
    match request_of(&Cmd::SetGainsDb([1, -2, 3, 0, 0, 0, 0, 0, i32::MAX, i32::MIN])) {
        ApiRequest::SetBandGains { gains_tenths_db } => {
            assert_eq!(gains_tenths_db, vec![10, -20, 30, 0, 0, 0, 0, 0, i32::MAX, i32::MIN]);
        }
        _ => panic!("another request"),
    }
}

#[test]
fn channels_are_checked() {
    assert!(check_channels(1).is_ok() && check_channels(32).is_ok());
    for bad in [0, 33, usize::MAX] {
        assert_eq!(check_channels(bad), Err("--channels must be between 1 and 32".to_string()));
    }
}

#[test]
fn startup_choices() {
    assert_eq!(socket_source(true, true), SocketSource::CommandLine);
    assert_eq!(socket_source(false, true), SocketSource::Settings);
    assert_eq!(socket_source(false, false), SocketSource::Default);
    assert!(looks_for_running("-", false, true, false));
    assert!(!looks_for_running("/tmp/x", false, true, false));
    assert!(!looks_for_running("-", true, true, false));
    assert!(!looks_for_running("-", false, false, false));
    assert!(!looks_for_running("-", false, true, true));
    assert_eq!(output_rate(Some(48000), 44100), 48000);
    assert_eq!(output_rate(None, 44100), 44100);
    assert_eq!(input_label("-"), "stdin");
    assert_eq!(input_label("/tmp/eq.fifo"), "/tmp/eq.fifo");
    assert_eq!(format_text(equalizer::audio::PcmFormat::F32le, 6), "f32le 6ch");
    assert!(token_goes_to_log(true, "stdout"));
    assert!(!token_goes_to_log(false, "stdout") && !token_goes_to_log(true, "/tmp/out"));
}

#[test]
fn presets_at_the_start() {
    let mut ctrl = local();
    assert_eq!(start_preset(&mut ctrl, None), Ok(None));
    assert!(!ctrl.save_requested);
    ctrl.set_enabled(false);
    assert_eq!(start_preset(&mut ctrl, Some("vocal")), Ok(Some(6)));
    assert!(ctrl.save_requested && ctrl.snapshot().enabled);
    assert_eq!(ctrl.snapshot().bands[0].gain, -20);
    let message = start_preset(&mut ctrl, Some("loud")).err().unwrap();
    assert!(message.starts_with("unknown preset \"loud\" (available: flat, "));
}

#[test]
fn remote_presets_at_the_start_are_kept() {
    let mut server = local();
    server.set_enabled(false);
    let mut remote = remote_of(&server);
    assert_eq!(start_preset(&mut remote, None), Ok(None));
    assert!(start_preset(&mut remote, Some("loud")).is_err());
    assert!(remote.is_settled());
    assert_eq!(start_preset(&mut remote, Some("vocal")), Ok(Some(6)));
    let queued: Vec<&Cmd> = remote.outbox.iter().collect();
    assert_eq!(queued.len(), 3);
    assert!(matches!(queued[0], Cmd::SetGainsDb([-2, -1, 0, 1, 3, 4, 3, 2, 1, 0])));
    assert!(matches!(queued[1], Cmd::SetEnabled(true)));
    assert!(matches!(queued[2], Cmd::Save));

    // When the save arrives, the server has what the client shows.
    while let Some(cmd) = remote.next_command() {
        if matches!(cmd, Cmd::Save) {
            assert_eq!(server.snapshot().bands, remote.snapshot().bands);
            assert_eq!(server.snapshot().bands[0].gain, -20);
            assert!(server.snapshot().enabled && remote.snapshot().enabled);
        }
        serve(&mut server, request_of(&cmd)).unwrap();
        remote.acknowledge(None);
    }
    assert!(remote.is_settled());
}

#[test]
fn keys_queue_their_own_steps() {
    let mut server = local();
    server.adjust_bass(24);
    server.set_enabled(false);
    let mut remote = remote_of(&server);
    let mut app = App::new(None);
    // At the top of the range the step stays what it is.
    for c in ['b', 'T', 'k', ' ', 'p', 'r', 's', 'h', 'x'] {
        let key = KeyEvent { code: KeyCode::Char(c), shift: c == 'k', control: false };
        handle_key(&mut app, &mut remote, key);
    }
    let queued: Vec<&Cmd> = remote.outbox.iter().collect();
    assert_eq!(queued.len(), 8);
    assert!(matches!(queued[0], Cmd::AdjustTone(1, 0)));
    assert!(matches!(queued[1], Cmd::AdjustTone(0, -1)));
    assert!(matches!(queued[2], Cmd::AdjustBand(0, 20)));
    assert!(matches!(queued[3], Cmd::SetEnabled(true)));
    assert!(matches!(queued[4], Cmd::SetGainsDb([0, 0, 0, 0, 0, 0, 0, 0, 0, 0])));
    assert!(matches!(queued[5], Cmd::SetEnabled(true)));
    assert!(matches!(queued[6], Cmd::Reset));
    assert!(matches!(queued[7], Cmd::Save));
    app.dirty = true;
    app.save_when_due(&mut remote, 400_000_000);
    assert_eq!(remote.outbox.len(), 8);
    app.save_when_due(&mut remote, 400_000_001);
    app.save_at_end(&mut remote);
    assert_eq!(remote.outbox.len(), 9);
    assert!(matches!(remote.outbox.back(), Some(Cmd::Save)));
}

#[test]
fn api_plans() {
    let cfg = ApiConfig::default();
    assert!(serve_plan(true, true, Some(1), &cfg).is_none());
    let plan = serve_plan(false, false, None, &cfg).unwrap();
    assert!(plan.socket && plan.port.is_none() && matches!(plan.token, TokenPlan::Nothing));
    let plan = serve_plan(false, false, Some(50051), &cfg).unwrap();
    assert!(plan.port == Some(50051) && matches!(plan.token, TokenPlan::Generate));
    let off = ApiConfig {
        enabled: false,
        port: Some(9),
        token: Some("abc".to_string()),
        ..ApiConfig::default()
    };
    let plan = serve_plan(false, false, None, &off).unwrap();
    assert!(!plan.socket && plan.port == Some(9));
    assert!(matches!(plan.token, TokenPlan::Use(t) if t == "abc"));
    assert_eq!(serve_plan(false, false, Some(7), &off).unwrap().port, Some(7));
    let off = ApiConfig { port: None, ..off };
    assert!(serve_plan(false, false, None, &off).is_none());
    assert!(serve_plan(false, true, None, &off).unwrap().socket);
}

#[test]
fn devices_are_picked_by_name() {
    let names = vec![
        None,
        Some("HDMI Output".to_string()),
        Some("MacBook Pro SPEAKERS".to_string()),
        Some("External Speakers".to_string()),
    ];
    assert_eq!(pick_device(&names, "speak"), Ok(2));
    assert_eq!(pick_device(&names, "HDMI"), Ok(1));
    assert_eq!(pick_device(&names, "external"), Ok(3));
    assert_eq!(pick_device(&names, ""), Ok(1));
    assert_eq!(
        pick_device(&names, "usb\t"),
        Err("no output device matching \"usb\\t\" (see --list-devices)".to_string())
    );
    assert_eq!(pick_device(&vec![Some("ÄÖ".to_string())], "äö"), Ok(0));
    assert_eq!(first_match(&names, "Speakers"), Some(3));
    assert_eq!(first_match(&names, "speakers"), None);
}
