//! Control of an equalizer in another process. Edits show at once in a local
//! mirror and are sent in order; the server's state stream keeps the mirror
//! right, including edits that others make.
//!
//! What is sent, what comes back and when is left to whoever drives the
//! [`RemoteController`]; here stands what that does to the mirror.

use std::collections::VecDeque;

use vstd::prelude::*;
use vstd::utf8::{encode_utf8, is_ascii_chars, is_ascii_chars_encode_utf8};

use crate::audio::AudioStatus;
use crate::control::{
    copy_text, eq_after, text_of, took_all, Controller, Edit, EqSnapshot, PlayStatus, PlayView,
};
use crate::equalizer::{
    adjust_band_in, adjusted_tone, clamp, copy_bands, db_as_tenths, flatten_in, set_gains_db_in,
    tenths, EqState, EqView,
};
use crate::header::{is_header, parse_header, text_in, visible_byte};
use crate::server::{passes, state_view, tone_adjusted, Band, State, StateView};
use crate::settings::{EqBand, EQ_BANDS};
use crate::text::{
    contains_text, has_prefix, has_substring, hex, occurs_at, prefixes_begin_texts, starts_with,
    strip_prefix, without_prefix,
};
use crate::ui::{StreamInfo, StreamView};

verus! {

/// The local copy of the server's state.
pub struct Mirror {
    pub enabled: bool,
    pub bands: Vec<EqBand>,
    pub bass: i32,
    pub treble: i32,
    pub play_state: u8,
    pub server_error: Option<String>,
    pub frames_played: u64,
    pub peak_l: i32,
    pub peak_r: i32,
    /// Trouble with the connection, shown in place of the server's error until
    /// the connection recovers.
    pub conn_error: Option<String>,
}

/// The values of a [`Mirror`].
#[verifier::ext_equal]
pub struct MirrorView {
    pub eq: EqView,
    pub play_state: u8,
    pub server_error: Option<Seq<char>>,
    pub frames_played: u64,
    pub peak_l: i32,
    pub peak_r: i32,
    pub conn_error: Option<Seq<char>>,
}

impl View for Mirror {
    type V = MirrorView;

    open spec fn view(&self) -> MirrorView {
        MirrorView {
            eq: EqView {
                enabled: self.enabled,
                bands: self.bands@,
                bass: self.bass,
                treble: self.treble,
            },
            play_state: self.play_state,
            server_error: text_of(self.server_error),
            frames_played: self.frames_played,
            peak_l: self.peak_l,
            peak_r: self.peak_r,
            conn_error: text_of(self.conn_error),
        }
    }
}

/// Bands as they come over the wire.
pub open spec fn local_bands(bands: Seq<Band>) -> Seq<EqBand> {
    Seq::new(
        bands.len(),
        |i: int|
            EqBand {
                cutoff: bands[i].cutoff_hz,
                q: bands[i].q_tenths,
                gain: bands[i].gain_tenths_db,
            },
    )
}

/// The equalizer that a wire state tells of.
pub open spec fn told_eq(state: StateView) -> EqView {
    EqView {
        enabled: state.enabled,
        bands: local_bands(state.bands),
        bass: state.bass_db,
        treble: state.treble_db,
    }
}

/// A mirror after a wire state was copied into it: telemetry always, the
/// equalizer only with `eq_too`.
pub open spec fn mirrored(mirror: MirrorView, state: StateView, eq_too: bool) -> MirrorView {
    MirrorView {
        eq: if eq_too {
            told_eq(state)
        } else {
            mirror.eq
        },
        play_state: (state.playback % 256) as u8,
        server_error: if state.error.len() == 0 {
            None
        } else {
            Some(state.error)
        },
        frames_played: state.frames_played,
        peak_l: state.peak_l,
        peak_r: state.peak_r,
        conn_error: mirror.conn_error,
    }
}

/// Bands as they come over the wire.
fn bands_from(bands: &Vec<Band>) -> (local: Vec<EqBand>)
    ensures
        local@ == local_bands(bands@),
{
    let mut local: Vec<EqBand> = Vec::new();
    let mut i: usize = 0;
    while i < bands.len()
        invariant
            i <= bands@.len(),
            local@ == local_bands(bands@.take(i as int)),
        decreases bands@.len() - i,
    {
        let b: Band = bands[i];
        local.push(EqBand { cutoff: b.cutoff_hz, q: b.q_tenths, gain: b.gain_tenths_db });
        assert(local@ =~= local_bands(bands@.take(i + 1)));
        i += 1;
    }
    assert(bands@.take(i as int) =~= bands@);
    local
}

/// The low byte of a playback number.
fn low_byte(playback: i32) -> (state: u8)
    ensures
        state == playback % 256,
{
    let rest: i32 = playback % 256;
    if rest < 0 {
        (rest + 256) as u8
    } else {
        rest as u8
    }
}

/// Copy a wire state into the mirror. Telemetry is always taken, the
/// equalizer only with `eq_too`: while edits are under way a state from
/// before them would undo what is shown.
pub fn apply_state(mirror: &mut Mirror, state: &State, eq_too: bool)
    ensures
        final(mirror)@ == mirrored(old(mirror)@, state@, eq_too),
        final(mirror).play_state == state.playback as int % 256,
        state.error@.len() == 0 ==> final(mirror).server_error is None,
        state.error@.len() > 0 ==> text_of(final(mirror).server_error) == Some(state.error@),
        final(mirror).frames_played == state.frames_played,
        final(mirror).peak_l == state.peak_l,
        final(mirror).peak_r == state.peak_r,
        final(mirror).conn_error == old(mirror).conn_error,
        eq_too ==> {
            &&& final(mirror).enabled == state.enabled
            &&& final(mirror).bass == state.bass_db
            &&& final(mirror).treble == state.treble_db
            &&& final(mirror).bands@.len() == state.bands@.len()
            &&& forall|i: int| #![trigger final(mirror).bands@[i]]
                0 <= i < state.bands@.len() ==> {
                    &&& final(mirror).bands@[i].cutoff == state.bands@[i].cutoff_hz
                    &&& final(mirror).bands@[i].q == state.bands@[i].q_tenths
                    &&& final(mirror).bands@[i].gain == state.bands@[i].gain_tenths_db
                }
        },
        !eq_too ==> {
            &&& final(mirror).enabled == old(mirror).enabled
            &&& final(mirror).bands == old(mirror).bands
            &&& final(mirror).bass == old(mirror).bass
            &&& final(mirror).treble == old(mirror).treble
        },
{
    if eq_too {
        mirror.enabled = state.enabled;
        mirror.bands = bands_from(&state.bands);
        mirror.bass = state.bass_db;
        mirror.treble = state.treble_db;
    }
    mirror.play_state = low_byte(state.playback);
    mirror.server_error = if state.error.as_str().unicode_len() == 0 {
        None
    } else {
        Some(state.error.clone())
    };
    mirror.frames_played = state.frames_played;
    mirror.peak_l = state.peak_l;
    mirror.peak_r = state.peak_r;
    assert(mirror@ =~= mirrored(old(mirror)@, state@, eq_too));
}

/// An edit on its way to the server.
#[derive(Debug, Clone, Copy)]
pub enum Cmd {
    SetEnabled(bool),
    AdjustBand(usize, i32),
    /// Bass and treble moves in dB.
    AdjustTone(i32, i32),
    SetGainsDb([i32; EQ_BANDS]),
    Reset,
    Save,
}

/// A request to the control API.
pub enum ApiRequest {
    SetEnabled { enabled: bool },
    AdjustBand { band: u32, delta_tenths_db: i32 },
    AdjustTone { bass_delta_db: i32, treble_delta_db: i32 },
    SetBandGains { gains_tenths_db: Vec<i32> },
    ResetGains,
    Save,
}

/// Gains in whole dB as they go over the wire: in tenths, held within what the
/// wire can carry.
pub open spec fn wire_gains(gains_db: Seq<i32>) -> Seq<i32> {
    Seq::new(
        gains_db.len(),
        |i: int| clamp(gains_db[i] * 10, i32::MIN as int, i32::MAX as int) as i32,
    )
}

impl ApiRequest {
    /// Whether this is the request for `cmd`.
    pub open spec fn carries(self, cmd: Cmd) -> bool {
        match cmd {
            Cmd::SetEnabled(enabled) => self == ApiRequest::SetEnabled { enabled },
            Cmd::AdjustBand(band, delta) => self == ApiRequest::AdjustBand {
                band: (band as int % 0x1_0000_0000) as u32,
                delta_tenths_db: delta,
            },
            Cmd::AdjustTone(bass, treble) => self == ApiRequest::AdjustTone {
                bass_delta_db: bass,
                treble_delta_db: treble,
            },
            Cmd::SetGainsDb(gains_db) => self is SetBandGains && self->gains_tenths_db@
                == wire_gains(gains_db@),
            Cmd::Reset => self == ApiRequest::ResetGains,
            Cmd::Save => self == ApiRequest::Save,
        }
    }
}

/// Gains in whole dB as they go over the wire.
fn gains_message(gains_db: &[i32; EQ_BANDS]) -> (gains: Vec<i32>)
    ensures
        gains@ == wire_gains(gains_db@),
{
    let mut gains: Vec<i32> = Vec::new();
    let mut i: usize = 0;
    while i < EQ_BANDS
        invariant
            i <= EQ_BANDS,
            gains_db@.len() == EQ_BANDS,
            gains@ == wire_gains(gains_db@.take(i as int)),
        decreases EQ_BANDS - i,
    {
        let tenths: i64 = gains_db[i] as i64 * 10;
        let held: i32 = if tenths < i32::MIN as i64 {
            i32::MIN
        } else if tenths > i32::MAX as i64 {
            i32::MAX
        } else {
            tenths as i32
        };
        gains.push(held);
        assert(gains@ =~= wire_gains(gains_db@.take(i + 1)));
        i += 1;
    }
    assert(gains_db@.take(i as int) =~= gains_db@);
    gains
}

/// The request for `cmd`.
pub fn request_of(cmd: &Cmd) -> (request: ApiRequest)
    ensures
        request.carries(*cmd),
        cmd matches Cmd::SetEnabled(on) ==> request == (ApiRequest::SetEnabled { enabled: *on }),
        cmd matches Cmd::AdjustBand(b, d) ==> *b < 0x1_0000_0000 ==> request
            == (ApiRequest::AdjustBand { band: *b as u32, delta_tenths_db: *d }),
        cmd matches Cmd::AdjustTone(b, t) ==> request == (ApiRequest::AdjustTone {
            bass_delta_db: *b,
            treble_delta_db: *t,
        }),
        cmd is Reset ==> request is ResetGains,
        cmd is Save ==> request is Save,
{
    match cmd {
        Cmd::SetEnabled(enabled) => ApiRequest::SetEnabled { enabled: *enabled },
        Cmd::AdjustBand(band, delta) => ApiRequest::AdjustBand {
            band: (*band as u64 % 0x1_0000_0000) as u32,
            delta_tenths_db: *delta,
        },
        Cmd::AdjustTone(bass, treble) => ApiRequest::AdjustTone {
            bass_delta_db: *bass,
            treble_delta_db: *treble,
        },
        Cmd::SetGainsDb(gains_db) => ApiRequest::SetBandGains {
            gains_tenths_db: gains_message(gains_db),
        },
        Cmd::Reset => ApiRequest::ResetGains,
        Cmd::Save => ApiRequest::Save,
    }
}

/// Control of a remote equalizer.
pub struct RemoteController {
    pub mirror: Mirror,
    /// Edits that were not sent yet, in order.
    pub outbox: VecDeque<Cmd>,
    /// The edit that was sent and not acknowledged yet.
    pub in_flight: Option<Cmd>,
}

/// The values of a [`RemoteController`].
pub struct RemoteView {
    pub mirror: MirrorView,
    pub outbox: Seq<Cmd>,
    pub in_flight: Option<Cmd>,
}

impl View for RemoteController {
    type V = RemoteView;

    open spec fn view(&self) -> RemoteView {
        RemoteView { mirror: self.mirror@, outbox: self.outbox@, in_flight: self.in_flight }
    }
}

/// The array of ten gains.
pub open spec fn gains_array(gains: Seq<i32>) -> [i32; EQ_BANDS] {
    [
        gains[0], gains[1], gains[2], gains[3], gains[4],
        gains[5], gains[6], gains[7], gains[8], gains[9],
    ]
}

/// The array of ten gains holds them, and no other array does.
proof fn gains_array_holds(gains: Seq<i32>, array: [i32; EQ_BANDS])
    requires
        gains.len() == EQ_BANDS,
    ensures
        gains_array(gains)@ == gains,
        array@ == gains ==> gains_array(gains) == array,
{
    assert(gains_array(gains)@ =~= gains);
    if array@ == gains {
        assert(gains_array(gains) =~= array);
    }
}

/// What is sent for an edit.
pub open spec fn cmd_for(edit: Edit) -> Cmd {
    match edit {
        Edit::Enabled(enabled) => Cmd::SetEnabled(enabled),
        Edit::Band(band, delta) => Cmd::AdjustBand(band, delta),
        Edit::Bass(delta) => Cmd::AdjustTone(delta, 0),
        Edit::Treble(delta) => Cmd::AdjustTone(0, delta),
        Edit::Gains(gains_db) => Cmd::SetGainsDb(gains_array(gains_db)),
        Edit::Reset => Cmd::Reset,
        Edit::Save => Cmd::Save,
    }
}

/// Whether an edit list asks for the settings to be written.
pub open spec fn asks_save(cmds: Seq<Cmd>) -> bool {
    exists|i: int| 0 <= i < cmds.len() && #[trigger] cmds[i] is Save
}

/// How many edits there are in a list; a save is none.
pub open spec fn edits_in(cmds: Seq<Cmd>) -> nat
    decreases cmds.len(),
{
    if cmds.len() == 0 {
        0
    } else {
        edits_in(cmds.drop_last()) + if cmds.last() is Save {
            0nat
        } else {
            1nat
        }
    }
}

/// An edit list asks for a save when it did before or when the edit put behind
/// it is one; any other edit counts.
proof fn lists_grow(cmds: Seq<Cmd>, cmd: Cmd)
    ensures
        asks_save(cmds.push(cmd)) == (asks_save(cmds) || cmd is Save),
        edits_in(cmds.push(cmd)) == edits_in(cmds) + if cmd is Save {
            0nat
        } else {
            1nat
        },
{
    assert(cmds.push(cmd).drop_last() =~= cmds);
    let longer = cmds.push(cmd);
    if asks_save(cmds) {
        let i = choose|i: int| 0 <= i < cmds.len() && #[trigger] cmds[i] is Save;
        assert(longer[i] is Save);
    }
    if cmd is Save {
        assert(longer[cmds.len() as int] is Save);
    }
    if asks_save(longer) && !(cmd is Save) {
        let i = choose|i: int| 0 <= i < longer.len() && #[trigger] longer[i] is Save;
        assert(cmds[i] is Save);
    }
}

impl RemoteController {
    /// Every edit that the server has not acknowledged, in order.
    pub open spec fn pending(self) -> Seq<Cmd> {
        match self.in_flight {
            Some(cmd) => seq![cmd] + self.outbox@,
            None => self.outbox@,
        }
    }

    /// Whether this is `before` with `cmd` queued and the equalizer shown as
    /// `eq`.
    pub open spec fn queued(self, before: RemoteController, eq: EqView, cmd: Cmd) -> bool {
        &&& self.mirror@ == (MirrorView { eq, ..before.mirror@ })
        &&& self.outbox@ == before.outbox@.push(cmd)
        &&& self.in_flight == before.in_flight
    }

    /// Control of the equalizer that is in state `initial`, with nothing to
    /// send.
    pub fn new(initial: &State) -> (remote: RemoteController)
        ensures
            remote.mirror@.eq == told_eq(initial@),
            remote.mirror@ == mirrored(remote.mirror@, initial@, true),
            remote.mirror@.conn_error is None,
            remote.pending().len() == 0,
            remote.in_flight is None,
    {
        let mut mirror = Mirror {
            enabled: false,
            bands: Vec::new(),
            bass: 0,
            treble: 0,
            play_state: 0,
            server_error: None,
            frames_played: 0,
            peak_l: 0,
            peak_r: 0,
            conn_error: None,
        };
        apply_state(&mut mirror, initial, true);
        RemoteController { mirror, outbox: VecDeque::new(), in_flight: None }
    }

    /// Queue an edit.
    fn send(&mut self, cmd: Cmd)
        ensures
            final(self).queued(*old(self), old(self).mirror@.eq, cmd),
            asks_save(final(self).outbox@) == (asks_save(old(self).outbox@) || cmd is Save),
            edits_in(final(self).outbox@) == edits_in(old(self).outbox@) + if cmd is Save {
                0nat
            } else {
                1nat
            },
    {
        proof {
            lists_grow(self.outbox@, cmd);
        }
        self.outbox.push_back(cmd);
    }

    /// Whether the server has acknowledged every edit.
    pub fn is_settled(&self) -> (yes: bool)
        ensures
            yes == (self.pending().len() == 0),
    {
        self.in_flight.is_none() && self.outbox.len() == 0
    }

    /// The next edit to send, once the one before it is acknowledged.
    pub fn next_command(&mut self) -> (cmd: Option<Cmd>)
        ensures
            cmd is Some <==> old(self).in_flight is None && old(self).outbox@.len() > 0,
            cmd is Some ==> {
                &&& cmd->0 == old(self).outbox@[0]
                &&& final(self).in_flight == cmd
                &&& final(self).outbox@ == old(self).outbox@.skip(1)
            },
            cmd is None ==> *final(self) == *old(self),
            final(self).mirror == old(self).mirror,
            final(self).pending() == old(self).pending(),
    {
        if self.in_flight.is_some() || self.outbox.len() == 0 {
            return None;
        }
        let cmd = self.outbox.pop_front();
        self.in_flight = cmd;
        assert(self.pending() =~= old(self).pending());
        assert(self.outbox@ =~= old(self).outbox@.skip(1));
        cmd
    }

    /// The edit that was sent was answered; `failure` tells what went wrong if
    /// something did.
    pub fn acknowledge(&mut self, failure: Option<&str>)
        ensures
            final(self).in_flight is None,
            final(self).outbox@ == old(self).outbox@,
            final(self).pending() == (if old(self).in_flight is Some {
                old(self).pending().skip(1)
            } else {
                old(self).pending()
            }),
            final(self).mirror@ == (MirrorView {
                conn_error: match failure {
                    Some(status) => Some("rpc failed: "@ + status@),
                    None => old(self).mirror@.conn_error,
                },
                ..old(self).mirror@
            }),
    {
        self.in_flight = None;
        if let Some(status) = failure {
            let mut text = "rpc failed: ".to_owned();
            text.append(status);
            self.mirror.conn_error = Some(text);
        }
        assert(self.pending() =~= (if old(self).in_flight is Some {
            old(self).pending().skip(1)
        } else {
            old(self).pending()
        }));
    }
}

/// What the state stream brings.
pub enum WatchEvent {
    /// A new state.
    State(State),
    /// The server closed the stream.
    Ended,
    /// The stream broke or could not be opened, and why.
    Lost(String),
}

impl RemoteController {
    /// The mirror after `event`: a state clears the connection trouble and is
    /// taken whole once every edit is acknowledged; a break is noted.
    pub open spec fn watched(self, event: WatchEvent) -> MirrorView {
        match event {
            WatchEvent::State(state) => mirrored(
                MirrorView { conn_error: None, ..self.mirror@ },
                state@,
                self.pending().len() == 0,
            ),
            WatchEvent::Ended => self.mirror@,
            WatchEvent::Lost(why) => MirrorView {
                conn_error: Some("connection lost: "@ + why@),
                ..self.mirror@
            },
        }
    }

    /// Take what the state stream brings. Tells whether the stream goes on; if
    /// not, it is to be opened again after a while.
    pub fn watch(&mut self, event: WatchEvent) -> (goes_on: bool)
        ensures
            goes_on == (event is State),
            final(self).mirror@ == old(self).watched(event),
            final(self).outbox == old(self).outbox,
            final(self).in_flight == old(self).in_flight,
    {
        match event {
            WatchEvent::State(state) => {
                self.mirror.conn_error = None;
                let settled = self.is_settled();
                apply_state(&mut self.mirror, &state, settled);
                true
            },
            WatchEvent::Ended => false,
            WatchEvent::Lost(why) => {
                let mut text = "connection lost: ".to_owned();
                text.append(why.as_str());
                self.mirror.conn_error = Some(text);
                false
            },
        }
    }
}

impl Controller for RemoteController {
    /// Every edit shows at once and is queued behind those before it.
    open spec fn took(before: RemoteView, edit: Edit) -> RemoteView {
        RemoteView {
            mirror: MirrorView { eq: eq_after(before.mirror.eq, edit), ..before.mirror },
            outbox: before.outbox.push(cmd_for(edit)),
            ..before
        }
    }

    open spec fn shown(&self) -> EqView {
        self.mirror@.eq
    }

    open spec fn telemetry(&self) -> PlayView {
        PlayView {
            state: self.mirror@.play_state,
            error: if self.mirror@.conn_error is Some {
                self.mirror@.conn_error
            } else {
                self.mirror@.server_error
            },
            frames_played: self.mirror@.frames_played,
            peak_l: self.mirror@.peak_l,
            peak_r: self.mirror@.peak_r,
        }
    }

    open spec fn save_asked(&self) -> bool {
        asks_save(self.outbox@)
    }

    open spec fn saves_shown(&self) -> bool {
        self.outbox@.len() > 0 && self.outbox@.last() is Save
    }

    open spec fn edits(&self) -> u64 {
        (edits_in(self.outbox@) % 0x1_0000_0000_0000_0000) as u64
    }

    fn snapshot(&self) -> (snapshot: EqSnapshot) {
        EqSnapshot {
            enabled: self.mirror.enabled,
            bands: copy_bands(&self.mirror.bands),
            bass: self.mirror.bass,
            treble: self.mirror.treble,
        }
    }

    fn status(&self) -> (status: PlayStatus) {
        let error = if self.mirror.conn_error.is_some() {
            copy_text(&self.mirror.conn_error)
        } else {
            copy_text(&self.mirror.server_error)
        };
        PlayStatus {
            state: self.mirror.play_state,
            error,
            frames_played: self.mirror.frames_played,
            peak_l: self.mirror.peak_l,
            peak_r: self.mirror.peak_r,
        }
    }

    fn set_enabled(&mut self, enabled: bool)
        ensures
            final(self).queued(*old(self), final(self).shown(), Cmd::SetEnabled(enabled)),
    {
        self.mirror.enabled = enabled;
        self.send(Cmd::SetEnabled(enabled));
    }

    fn adjust_band(&mut self, band: usize, delta_tenths: i32)
        ensures
            final(self).queued(
                *old(self),
                final(self).shown(),
                Cmd::AdjustBand(band, delta_tenths),
            ),
    {
        adjust_band_in(&mut self.mirror.bands, band, delta_tenths);
        self.send(Cmd::AdjustBand(band, delta_tenths));
    }

    fn adjust_bass(&mut self, delta_db: i32)
        ensures
            final(self).queued(*old(self), final(self).shown(), Cmd::AdjustTone(delta_db, 0)),
    {
        self.mirror.bass = adjusted_tone(self.mirror.bass, delta_db);
        self.send(Cmd::AdjustTone(delta_db, 0));
    }

    fn adjust_treble(&mut self, delta_db: i32)
        ensures
            final(self).queued(*old(self), final(self).shown(), Cmd::AdjustTone(0, delta_db)),
    {
        self.mirror.treble = adjusted_tone(self.mirror.treble, delta_db);
        self.send(Cmd::AdjustTone(0, delta_db));
    }

    fn set_band_gains_db(&mut self, gains_db: &[i32; EQ_BANDS])
        ensures
            final(self).queued(*old(self), final(self).shown(), Cmd::SetGainsDb(*gains_db)),
    {
        proof {
            gains_array_holds(gains_db@, *gains_db);
        }
        set_gains_db_in(&mut self.mirror.bands, gains_db);
        self.send(Cmd::SetGainsDb(*gains_db));
    }

    fn reset_gains(&mut self)
        ensures
            final(self).queued(*old(self), final(self).shown(), Cmd::Reset),
    {
        flatten_in(&mut self.mirror.bands);
        self.mirror.bass = 0;
        self.mirror.treble = 0;
        self.send(Cmd::Reset);
    }

    fn save(&mut self)
        ensures
            final(self).queued(*old(self), final(self).shown(), Cmd::Save),
    {
        self.send(Cmd::Save);
    }
}

/// Where an address leads.
pub enum DialTarget {
    /// A unix socket path.
    Unix(String),
    /// A URL.
    Url(String),
}

/// Where an address leads, as characters.
pub enum DialView {
    Unix(Seq<char>),
    Url(Seq<char>),
}

impl View for DialTarget {
    type V = DialView;

    open spec fn view(&self) -> DialView {
        match self {
            DialTarget::Unix(path) => DialView::Unix(path@),
            DialTarget::Url(url) => DialView::Url(url@),
        }
    }
}

/// Where `addr` leads: nothing to the default socket, `unix:` and paths to a
/// socket, URLs to themselves, anything else to a host.
pub open spec fn dialled(addr: Seq<char>, default_socket: Seq<char>) -> DialView {
    if addr.len() == 0 {
        DialView::Unix(default_socket)
    } else if has_prefix(addr, "unix:"@) {
        DialView::Unix(addr.skip("unix:"@.len() as int))
    } else if has_prefix(addr, "http://"@) || has_prefix(addr, "https://"@) {
        DialView::Url(addr)
    } else if has_substring(addr, "/"@) {
        DialView::Unix(addr)
    } else {
        DialView::Url("http://"@ + addr)
    }
}

/// Where `addr` leads: "" for the default local socket, `unix:PATH`, a bare
/// path, `host:port`, or an `http://host:port` URL.
pub fn dial_target(addr: &str, default_socket: &str) -> (target: DialTarget)
    ensures
        target@ == dialled(addr@, default_socket@),
        target matches DialTarget::Unix(path) ==> dialled(addr@, default_socket@) == DialView::Unix(
            path@,
        ),
        target matches DialTarget::Url(url) ==> dialled(addr@, default_socket@) == DialView::Url(
            url@,
        ),
{
    if addr.unicode_len() == 0 {
        return DialTarget::Unix(default_socket.to_owned());
    }
    if let Some(path) = strip_prefix(addr, "unix:") {
        return DialTarget::Unix(path);
    }
    if starts_with(addr, "http://") || starts_with(addr, "https://") {
        return DialTarget::Url(addr.to_owned());
    }
    if contains_text(addr, "/") {
        return DialTarget::Unix(addr.to_owned());
    }
    let mut url = "http://".to_owned();
    url.append(addr);
    DialTarget::Url(url)
}

/// What an address is called in messages.
pub open spec fn described(addr: Seq<char>, default_socket: Seq<char>) -> Seq<char> {
    if addr.len() == 0 {
        default_socket
    } else {
        without_prefix(addr, "unix:"@)
    }
}

/// What an address is called in messages.
pub fn describe(addr: &str, default_socket: &str) -> (text: String)
    ensures
        text@ == described(addr@, default_socket@),
{
    if addr.unicode_len() == 0 {
        return default_socket.to_owned();
    }
    match strip_prefix(addr, "unix:") {
        Some(path) => path,
        None => addr.to_owned(),
    }
}

/// The pipeline facts to show for a remote equalizer: its own, with the
/// address in front of its input.
pub open spec fn remote_info(described: Seq<char>, stream: Option<StreamView>) -> StreamView {
    match stream {
        Some(info) => StreamView { input: described + " ⇄ "@ + info.input, ..info },
        None => StreamView {
            input: described + " ⇄ "@,
            format: seq![],
            in_rate: 0,
            out_rate: 0,
            device: seq![],
        },
    }
}

/// The pipeline facts to show for the remote equalizer at the address that is
/// called `described`.
pub fn stream_info(described: &str, initial: &State) -> (info: StreamInfo)
    ensures
        info@ == remote_info(described@, initial@.stream),
{
    let mut input = described.to_owned();
    input.append(" ⇄ ");
    match &initial.stream {
        Some(stream) => {
            input.append(stream.input.as_str());
            StreamInfo {
                input,
                format: stream.format.clone(),
                in_rate: stream.in_rate,
                out_rate: stream.out_rate,
                device: stream.device.clone(),
            }
        },
        None => StreamInfo {
            input,
            format: String::new(),
            in_rate: 0,
            out_rate: 0,
            device: String::new(),
        },
    }
}

/// The header value that carries a token.
pub open spec fn bearer(token: Seq<char>) -> Seq<char> {
    "Bearer "@ + token
}

/// The `authorization` header value to send with every request: none without
/// a token, an error where the token cannot stand in a header.
pub fn client_header(token: Option<&str>) -> (header: Result<Option<Vec<u8>>, String>)
    ensures
        token is None ==> header == Ok::<Option<Vec<u8>>, String>(None),
        token matches Some(t) ==> {
            &&& header is Ok <==> is_header(bearer(t@))
            &&& header is Ok ==> header->Ok_0 is Some && header->Ok_0->0@ == encode_utf8(
                bearer(t@),
            )
            &&& header is Err ==> header->Err_0@
                == "token contains characters not allowed in a header"@
        },
{
    let t = match token {
        Some(t) => t,
        None => {
            return Ok(None);
        },
    };
    let mut value = "Bearer ".to_owned();
    value.append(t);
    match parse_header(value.as_str()) {
        Some(bytes) => Ok(Some(bytes)),
        None => Err("token contains characters not allowed in a header".to_owned()),
    }
}

/// The server's equalizer after the request for `cmd`: a band that does not
/// exist is refused, a move by 0 dB is none.
pub open spec fn served(eq: EqView, cmd: Cmd) -> EqView {
    match cmd {
        Cmd::SetEnabled(enabled) => eq.set_enabled(enabled),
        Cmd::AdjustBand(band, delta) => if band as int % 0x1_0000_0000 < EQ_BANDS {
            eq.adjust_band(band as int % 0x1_0000_0000, delta as int)
        } else {
            eq
        },
        Cmd::AdjustTone(bass, treble) => {
            let first = if bass != 0 {
                eq.adjust_bass(bass as int)
            } else {
                eq
            };
            if treble != 0 {
                first.adjust_treble(treble as int)
            } else {
                first
            }
        },
        Cmd::SetGainsDb(gains_db) => eq.set_gains(tenths(wire_gains(gains_db@))),
        Cmd::Reset => eq.reset(),
        Cmd::Save => eq,
    }
}

/// The service does with the request for an edit what [`served`] says.
pub proof fn requests_are_served(eq: EqState, request: ApiRequest, cmd: Cmd)
    requires
        request.carries(cmd),
    ensures
        match request {
            ApiRequest::SetEnabled { enabled } => eq.view.set_enabled(enabled) == served(
                eq.view,
                cmd,
            ),
            ApiRequest::AdjustBand { band, delta_tenths_db } => served(eq.view, cmd) == (
            if band < EQ_BANDS {
                eq.view.adjust_band(band as int, delta_tenths_db as int)
            } else {
                eq.view
            }),
            ApiRequest::AdjustTone { bass_delta_db, treble_delta_db } => tone_adjusted(
                eq,
                bass_delta_db as int,
                treble_delta_db as int,
            ).view == served(eq.view, cmd),
            ApiRequest::SetBandGains { gains_tenths_db } => gains_tenths_db@.len() == EQ_BANDS
                && eq.view.set_gains(tenths(gains_tenths_db@)) == served(eq.view, cmd),
            ApiRequest::ResetGains => eq.view.reset() == served(eq.view, cmd),
            ApiRequest::Save => eq.view == served(eq.view, cmd),
        },
{
}

/// What an edit shows at once is what the server makes of it, for an equalizer
/// with gains in range, for bands that exist.
pub proof fn edits_show_what_is_served(
    eq: EqView,
    enabled: bool,
    band: usize,
    delta: i32,
    gains_db: [i32; EQ_BANDS],
)
    ensures
        eq.set_enabled(enabled) == served(eq, Cmd::SetEnabled(enabled)),
        band < EQ_BANDS ==> eq.adjust_band(band as int, delta as int) == served(
            eq,
            Cmd::AdjustBand(band, delta),
        ),
        delta != 0 || eq.in_range() ==> {
            &&& eq.adjust_bass(delta as int) == served(eq, Cmd::AdjustTone(delta, 0))
            &&& eq.adjust_treble(delta as int) == served(eq, Cmd::AdjustTone(0, delta))
        },
        eq.set_gains(db_as_tenths(gains_db@)) == served(eq, Cmd::SetGainsDb(gains_db)),
        eq.reset() == served(eq, Cmd::Reset),
        eq == served(eq, Cmd::Save),
{
    assert(eq.set_gains(db_as_tenths(gains_db@)).bands =~= served(
        eq,
        Cmd::SetGainsDb(gains_db),
    ).bands);
}

/// The server's equalizer after the requests for `cmds`, in order.
pub open spec fn replayed(eq: EqView, cmds: Seq<Cmd>) -> EqView
    decreases cmds.len(),
{
    if cmds.len() == 0 {
        eq
    } else {
        served(replayed(eq, cmds.drop_last()), cmds.last())
    }
}

/// Whether the mirror shows what the server will have once every pending edit
/// is served.
pub open spec fn foresees(remote: RemoteController, server: EqView) -> bool {
    replayed(server, remote.pending()) == remote.shown()
}

/// Serving the first edit now leaves the rest to be served.
proof fn replaying_starts_at_the_front(eq: EqView, cmds: Seq<Cmd>)
    requires
        cmds.len() > 0,
    ensures
        replayed(eq, cmds) == replayed(served(eq, cmds[0]), cmds.skip(1)),
    decreases cmds.len(),
{
    reveal_with_fuel(replayed, 2);
    let rest = cmds.skip(1);
    if cmds.len() == 1 {
        assert(cmds.drop_last() =~= Seq::<Cmd>::empty());
    } else {
        replaying_starts_at_the_front(eq, cmds.drop_last());
        assert(cmds.drop_last().skip(1) =~= rest.drop_last());
        assert(rest.last() == cmds.last());
    }
}

/// An edit that shows at once what the server makes of it keeps the mirror
/// ahead of the server by the pending edits.
pub proof fn edits_keep_foresight(
    before: RemoteController,
    after: RemoteController,
    server: EqView,
    cmd: Cmd,
)
    requires
        foresees(before, server),
        after.queued(before, served(before.shown(), cmd), cmd),
    ensures
        foresees(after, server),
{
    assert(after.pending() =~= before.pending().push(cmd));
    assert(after.pending().drop_last() =~= before.pending());
}

/// Whether the server makes of an edit what shows at once: the band exists,
/// there are ten gains, and a shelf move is none only where there is nothing to
/// hold within range.
pub open spec fn goes_over(eq: EqView, edit: Edit) -> bool {
    match edit {
        Edit::Band(band, _) => band < EQ_BANDS,
        Edit::Bass(delta) => delta != 0 || eq.in_range(),
        Edit::Treble(delta) => delta != 0 || eq.in_range(),
        Edit::Gains(gains_db) => gains_db.len() == EQ_BANDS,
        _ => true,
    }
}

/// Such an edit shows what the server makes of the request for it.
pub proof fn edits_are_served(eq: EqView, edit: Edit)
    requires
        goes_over(eq, edit),
    ensures
        served(eq, cmd_for(edit)) == eq_after(eq, edit),
{
    match edit {
        Edit::Gains(gains_db) => {
            let array = gains_array(gains_db);
            gains_array_holds(gains_db, array);
            edits_show_what_is_served(eq, true, 0, 0, array);
        },
        Edit::Bass(delta) => {
            edits_show_what_is_served(eq, true, 0, delta, [0i32; EQ_BANDS]);
        },
        Edit::Treble(delta) => {
            edits_show_what_is_served(eq, true, 0, delta, [0i32; EQ_BANDS]);
        },
        _ => {},
    }
}

/// The equalizer after `edits`, one after the other.
pub open spec fn eq_after_all(eq: EqView, edits: Seq<Edit>) -> EqView
    decreases edits.len(),
{
    if edits.len() == 0 {
        eq
    } else {
        eq_after(eq_after_all(eq, edits.drop_last()), edits.last())
    }
}

/// Whether the server makes of each of `edits` what shows at once.
pub open spec fn all_go_over(eq: EqView, edits: Seq<Edit>) -> bool
    decreases edits.len(),
{
    edits.len() == 0 || {
        &&& all_go_over(eq, edits.drop_last())
        &&& goes_over(eq_after_all(eq, edits.drop_last()), edits.last())
    }
}

/// What is sent for `edits`, in order.
pub open spec fn cmds_for(edits: Seq<Edit>) -> Seq<Cmd> {
    edits.map_values(|edit: Edit| cmd_for(edit))
}

/// Edits are queued in the order in which they were asked for, behind those
/// before them, and show at once.
pub proof fn edits_queue_in_order(before: RemoteView, edits: Seq<Edit>)
    ensures
        took_all::<RemoteController>(before, edits) == (RemoteView {
            mirror: MirrorView { eq: eq_after_all(before.mirror.eq, edits), ..before.mirror },
            outbox: before.outbox + cmds_for(edits),
            ..before
        }),
    decreases edits.len(),
{
    if edits.len() == 0 {
        assert(before.outbox + cmds_for(edits) =~= before.outbox);
    } else {
        edits_queue_in_order(before, edits.drop_last());
        assert(before.outbox + cmds_for(edits) =~= (before.outbox + cmds_for(
            edits.drop_last(),
        )).push(cmd_for(edits.last())));
    }
}

/// Requests that follow others are served on what those led to.
proof fn replaying_edits(eq: EqView, cmds: Seq<Cmd>, edits: Seq<Edit>)
    requires
        all_go_over(replayed(eq, cmds), edits),
    ensures
        replayed(eq, cmds + cmds_for(edits)) == eq_after_all(replayed(eq, cmds), edits),
    decreases edits.len(),
{
    let all = cmds + cmds_for(edits);
    if edits.len() == 0 {
        assert(all =~= cmds);
    } else {
        replaying_edits(eq, cmds, edits.drop_last());
        edits_are_served(eq_after_all(replayed(eq, cmds), edits.drop_last()), edits.last());
        assert(all.drop_last() =~= cmds + cmds_for(edits.drop_last()));
        assert(all.last() == cmd_for(edits.last()));
    }
}

/// However many edits are asked for, the mirror stays ahead of the server by
/// the pending ones.
pub proof fn asking_keeps_foresight(
    before: RemoteController,
    after: RemoteController,
    server: EqView,
    edits: Seq<Edit>,
)
    requires
        foresees(before, server),
        all_go_over(before.shown(), edits),
        after@ == took_all::<RemoteController>(before@, edits),
    ensures
        foresees(after, server),
        after.shown() == eq_after_all(before.shown(), edits),
        after.pending() == before.pending() + cmds_for(edits),
{
    edits_queue_in_order(before@, edits);
    assert(after.pending() =~= before.pending() + cmds_for(edits));
    replaying_edits(server, before.pending(), edits);
}

/// Serving and acknowledging the edit in flight keeps the mirror ahead of the
/// server by the edits still pending.
pub proof fn acknowledging_keeps_foresight(
    before: RemoteController,
    after: RemoteController,
    server: EqView,
)
    requires
        foresees(before, server),
        before.in_flight is Some,
        after.pending() == before.pending().skip(1),
        after.shown() == before.shown(),
    ensures
        foresees(after, served(server, before.in_flight->0)),
{
    replaying_starts_at_the_front(server, before.pending());
}

/// A state that comes while edits are pending leaves the shown equalizer
/// alone; one that comes when all are acknowledged is what is shown from then
/// on.
pub proof fn watching_keeps_foresight(
    before: RemoteController,
    after: RemoteController,
    state: State,
)
    requires
        after.mirror@ == before.watched(WatchEvent::State(state)),
        after.outbox == before.outbox,
        after.in_flight == before.in_flight,
    ensures
        before.pending().len() > 0 ==> after.shown() == before.shown(),
        before.pending().len() == 0 ==> after.shown() == told_eq(state@) && foresees(
            after,
            told_eq(state@),
        ),
        after.mirror@.conn_error is None,
{
}

/// Once every edit is served and acknowledged, the mirror shows the server's
/// equalizer.
pub proof fn settled_mirror_is_right(remote: RemoteController, server: EqView)
    requires
        foresees(remote, server),
        remote.pending().len() == 0,
    ensures
        remote.shown() == server,
{
}

/// A save that comes after every other pending edit writes what is shown.
pub proof fn save_writes_the_shown(remote: RemoteController, server: EqView)
    requires
        foresees(remote, server),
        remote.pending().len() > 0,
        remote.pending().last() is Save,
    ensures
        replayed(server, remote.pending().drop_last()) == remote.shown(),
{
}

/// A state that goes over the wire tells the equalizer as it was, and the
/// telemetry: the playback state for those there are, the error unless it is
/// an empty text.
pub proof fn state_goes_over_the_wire(
    eq: EqState,
    status: AudioStatus,
    info: StreamView,
    mirror: MirrorView,
)
    ensures
        ({
            let told = mirrored(mirror, state_view(eq, status, info), true);
            &&& told.eq == eq.view
            &&& status.state <= 2 ==> told.play_state == status.state
            &&& text_of(status.error) != Some(Seq::<char>::empty()) ==> told.server_error
                == text_of(status.error)
            &&& told.frames_played == status.frames_played
            &&& told.peak_l == status.peak_l
            &&& told.peak_r == status.peak_r
        }),
{
    assert(told_eq(state_view(eq, status, info)).bands =~= eq.view.bands);
    if let Some(text) = status.error {
        if text@.len() == 0 {
            assert(text@ =~= Seq::<char>::empty());
        }
    }
}

/// Whether every character is visible ASCII or a tab.
pub open spec fn is_visible(text: Seq<char>) -> bool {
    forall|i: int| 0 <= i < text.len() ==> ' ' <= #[trigger] text[i] < '\u{7f}' || text[i] == '\t'
}

/// A client with a token of visible characters gets past a server with the
/// same token, and past no server with another one.
pub proof fn right_token_passes(token: Seq<char>, wanted: Seq<char>)
    requires
        is_visible(token),
    ensures
        is_header(bearer(token)),
        passes(Some(wanted), Some(encode_utf8(bearer(token)))) <==> token == wanted,
{
    reveal_strlit("Bearer ");
    let text = bearer(token);
    assert(is_visible(text)) by {
        assert forall|i: int| 0 <= i < text.len() implies ' ' <= #[trigger] text[i] < '\u{7f}'
            || text[i] == '\t' by {
            if i < 7 {
                assert(text[i] == "Bearer "@[i]);
            } else {
                assert(text[i] == token[i - 7]);
            }
        }
    }
    assert(is_ascii_chars(text));
    is_ascii_chars_encode_utf8(text);
    let bytes = encode_utf8(text);
    assert forall|i: int| 0 <= i < bytes.len() implies visible_byte(#[trigger] bytes[i]) && bytes[i]
        as char == text[i] by {
        assert(text[i] as u8 == bytes[i]);
    }
    assert(text_in(bytes)->0 =~= text);
    assert(text.subrange(0, 7) =~= "Bearer "@);
    assert(text.skip(7) =~= token);
}

/// A generated token consists of visible characters.
pub proof fn generated_tokens_are_visible(random: Seq<u8>)
    ensures
        is_visible(hex(random)),
{
}

/// A mirror tells each of its values under its own name.
pub proof fn mirrors_tell_their_values(mirror: Mirror)
    ensures
        mirror@.eq.enabled == mirror.enabled,
        mirror@.eq.bands == mirror.bands@,
        mirror@.eq.bass == mirror.bass,
        mirror@.eq.treble == mirror.treble,
        mirror@.play_state == mirror.play_state,
        mirror@.server_error == text_of(mirror.server_error),
        mirror@.frames_played == mirror.frames_played,
        mirror@.peak_l == mirror.peak_l,
        mirror@.peak_r == mirror.peak_r,
        mirror@.conn_error == text_of(mirror.conn_error),
        mirror.conn_error is None <==> mirror@.conn_error is None,
        mirror.conn_error matches Some(text) ==> mirror@.conn_error == Some(text@),
{
}

/// What a remote controller shows is its mirror; trouble with the connection
/// goes before the error of the server.
pub proof fn remote_shows_its_mirror(remote: RemoteController)
    ensures
        remote.shown().enabled == remote.mirror.enabled,
        remote.shown().bands == remote.mirror.bands@,
        remote.shown().bass == remote.mirror.bass,
        remote.shown().treble == remote.mirror.treble,
        remote.telemetry().state == remote.mirror.play_state,
        remote.telemetry().frames_played == remote.mirror.frames_played,
        remote.telemetry().peak_l == remote.mirror.peak_l,
        remote.telemetry().peak_r == remote.mirror.peak_r,
        remote.mirror.conn_error matches Some(text) ==> remote.telemetry().error == Some(text@),
        remote.mirror.conn_error is None ==> (remote.mirror.server_error matches Some(text)
            ==> remote.telemetry().error == Some(text@)),
        remote.mirror.conn_error is None && remote.mirror.server_error is None
            ==> remote.telemetry().error is None,
{
}

/// A state that is copied into a mirror is copied value by value: the telemetry
/// always, the equalizer where it is to be, and never the connection trouble.
pub proof fn states_are_copied(mirror: MirrorView, state: StateView, i: int)
    requires
        0 <= i < state.bands.len(),
    ensures
        ({
            let whole = mirrored(mirror, state, true);
            let part = mirrored(mirror, state, false);
            &&& whole.eq.enabled == state.enabled
            &&& whole.eq.bands.len() == state.bands.len()
            &&& whole.eq.bands[i].cutoff == state.bands[i].cutoff_hz
            &&& whole.eq.bands[i].q == state.bands[i].q_tenths
            &&& whole.eq.bands[i].gain == state.bands[i].gain_tenths_db
            &&& whole.eq.bass == state.bass_db
            &&& whole.eq.treble == state.treble_db
            &&& part.eq == mirror.eq
            &&& whole == (MirrorView { eq: whole.eq, ..part })
            &&& part.conn_error == mirror.conn_error
            &&& 0 <= state.playback < 256 ==> part.play_state == state.playback
            &&& state.error.len() == 0 <==> part.server_error is None
            &&& state.error.len() > 0 ==> part.server_error == Some(state.error)
            &&& part.frames_played == state.frames_played
            &&& part.peak_l == state.peak_l
            &&& part.peak_r == state.peak_r
        }),
{
}

/// Gains in whole dB go over the wire as ten times as many tenths, for any that
/// the wire can carry so.
pub proof fn gains_go_in_tenths(gains_db: Seq<i32>, i: int)
    requires
        0 <= i < gains_db.len(),
    ensures
        wire_gains(gains_db).len() == gains_db.len(),
        i32::MIN <= 10 * gains_db[i] <= i32::MAX ==> wire_gains(gains_db)[i] == 10 * gains_db[i],
        10 * gains_db[i] > i32::MAX ==> wire_gains(gains_db)[i] == i32::MAX,
        10 * gains_db[i] < i32::MIN ==> wire_gains(gains_db)[i] == i32::MIN,
{
}

/// Every edit is sent as the request of its kind with its own values.
pub proof fn requests_have_the_values(request: ApiRequest, edit: Edit)
    requires
        request.carries(cmd_for(edit)),
    ensures
        edit matches Edit::Enabled(on) ==> request == (ApiRequest::SetEnabled { enabled: on }),
        edit matches Edit::Band(band, delta) ==> band < 10 ==> request == (ApiRequest::AdjustBand {
            band: band as u32,
            delta_tenths_db: delta,
        }),
        edit matches Edit::Bass(delta) ==> request == (ApiRequest::AdjustTone {
            bass_delta_db: delta,
            treble_delta_db: 0,
        }),
        edit matches Edit::Treble(delta) ==> request == (ApiRequest::AdjustTone {
            bass_delta_db: 0,
            treble_delta_db: delta,
        }),
        edit matches Edit::Gains(gains) ==> gains.len() == 10 ==> request is SetBandGains
            && request->gains_tenths_db@ == wire_gains(gains),
        edit is Reset ==> request is ResetGains,
        edit is Save ==> request is Save,
{
    if let Edit::Gains(gains) = edit {
        if gains.len() == 10 {
            gains_array_holds(gains, gains_array(gains));
        }
    }
}

/// What the server makes of a request: the value that it names changes, by as
/// much as it says, within the range, and no other.
pub proof fn requests_change_one_value(eq: EqView, cmd: Cmd, i: int)
    requires
        0 <= i < eq.bands.len(),
    ensures
        ({
            let after = served(eq, cmd);
            &&& after.bands.len() == eq.bands.len()
            &&& after.bands[i].cutoff == eq.bands[i].cutoff
            &&& after.bands[i].q == eq.bands[i].q
            &&& cmd matches Cmd::SetEnabled(on) ==> after == (EqView { enabled: on, ..eq })
            &&& cmd matches Cmd::AdjustBand(band, delta) ==> {
                let wanted = eq.bands[i].gain + delta;
                &&& after == (EqView { bands: after.bands, ..eq })
                &&& band == i && i < 10 && -240 <= wanted <= 240 ==> after.bands[i].gain == wanted
                &&& band == i && i < 10 && wanted > 240 ==> after.bands[i].gain == 240
                &&& band == i && i < 10 && wanted < -240 ==> after.bands[i].gain == -240
                &&& band != i && band < 0x1_0000_0000 ==> after.bands[i] == eq.bands[i]
            }
            &&& cmd matches Cmd::AdjustTone(bass, treble) ==> {
                let low = eq.bass + bass;
                let high = eq.treble + treble;
                &&& after.enabled == eq.enabled && after.bands == eq.bands
                &&& bass == 0 ==> after.bass == eq.bass
                &&& bass != 0 && -24 <= low <= 24 ==> after.bass == low
                &&& bass != 0 && low > 24 ==> after.bass == 24
                &&& bass != 0 && low < -24 ==> after.bass == -24
                &&& treble == 0 ==> after.treble == eq.treble
                &&& treble != 0 && -24 <= high <= 24 ==> after.treble == high
                &&& treble != 0 && high > 24 ==> after.treble == 24
                &&& treble != 0 && high < -24 ==> after.treble == -24
            }
            &&& cmd matches Cmd::SetGainsDb(gains) ==> {
                &&& after == (EqView { bands: after.bands, ..eq })
                &&& i < 10 && -24 <= gains@[i] <= 24 ==> after.bands[i].gain == 10 * gains@[i]
                &&& i < 10 && gains@[i] > 24 ==> after.bands[i].gain == 240
                &&& i < 10 && gains@[i] < -24 ==> after.bands[i].gain == -240
            }
            &&& cmd is Reset ==> after.bass == 0 && after.treble == 0 && after.bands[i].gain == 0
                && after.enabled == eq.enabled
            &&& cmd is Save ==> after == eq
        }),
{
}

/// Edits wait in the order in which they came, behind the one that was sent.
pub proof fn pending_edits_are_in_order(remote: RemoteController)
    ensures
        remote.in_flight is None ==> remote.pending() == remote.outbox@,
        remote.in_flight matches Some(cmd) ==> {
            &&& remote.pending().len() == remote.outbox@.len() + 1
            &&& remote.pending()[0] == cmd
            &&& remote.pending().skip(1) == remote.outbox@
        },
{
    if remote.in_flight is Some {
        assert(remote.pending().skip(1) =~= remote.outbox@);
    }
}

/// Queueing an edit puts it last and touches nothing else but what is shown.
pub proof fn edits_are_queued_last(
    after: RemoteController,
    before: RemoteController,
    eq: EqView,
    cmd: Cmd,
)
    requires
        after.queued(before, eq, cmd),
    ensures
        after.outbox@.len() == before.outbox@.len() + 1,
        after.outbox@.last() == cmd,
        after.outbox@.drop_last() == before.outbox@,
        after.in_flight == before.in_flight,
        after.shown() == eq,
        after.telemetry() == before.telemetry(),
{
    assert(after.outbox@.drop_last() =~= before.outbox@);
}

/// What the state stream brings: a state ends the connection trouble and is
/// taken whole only where no edit is pending; a break is told, an end is not.
pub proof fn stream_events_are_taken(remote: RemoteController, state: State, why: String, i: int)
    requires
        0 <= i < state.bands@.len(),
    ensures
        ({
            let after = remote.watched(WatchEvent::State(state));
            &&& after.conn_error is None
            &&& after.frames_played == state.frames_played
            &&& after.peak_l == state.peak_l
            &&& after.peak_r == state.peak_r
            &&& remote.pending().len() > 0 ==> after.eq == remote.mirror@.eq
            &&& remote.pending().len() == 0 ==> {
                &&& after.eq.enabled == state.enabled
                &&& after.eq.bass == state.bass_db
                &&& after.eq.treble == state.treble_db
                &&& after.eq.bands.len() == state.bands@.len()
                &&& after.eq.bands[i].gain == state.bands@[i].gain_tenths_db
            }
        }),
        remote.watched(WatchEvent::Ended) == remote.mirror@,
        remote.watched(WatchEvent::Lost(why)) == (MirrorView {
            conn_error: Some("connection lost: "@ + why@),
            ..remote.mirror@
        }),
{
}

/// Where an address leads: nothing to the default socket, `unix:` to the path
/// behind it, a URL to itself, a text with a slash to a path, and a host to it.
pub proof fn addresses_lead_there(addr: Seq<char>, path: Seq<char>, default_socket: Seq<char>)
    ensures
        dialled(seq![], default_socket) == DialView::Unix(default_socket),
        dialled("unix:"@ + path, default_socket) == DialView::Unix(path),
        dialled("http://"@ + path, default_socket) == DialView::Url("http://"@ + path),
        dialled("https://"@ + path, default_socket) == DialView::Url("https://"@ + path),
        addr.len() > 0 && addr[0] == '/' ==> dialled(addr, default_socket) == DialView::Unix(addr),
        addr.len() > 0 && !has_prefix(addr, "unix:"@) && (forall|k: int|
            0 <= k < addr.len() ==> #[trigger] addr[k] != '/') ==> dialled(addr, default_socket)
            == DialView::Url("http://"@ + addr),
        described(seq![], default_socket) == default_socket,
        described("unix:"@ + path, default_socket) == path,
        addr.len() > 0 && !has_prefix(addr, "unix:"@) ==> described(addr, default_socket) == addr,
{
    reveal_strlit("unix:");
    reveal_strlit("http://");
    reveal_strlit("https://");
    reveal_strlit("/");
    let unix = "unix:"@ + path;
    prefixes_begin_texts(unix, "unix:"@, path);
    let url = "http://"@ + path;
    prefixes_begin_texts(url, "http://"@, path);
    if has_prefix(url, "unix:"@) {
        assert(url.subrange(0, 5)[0] == "unix:"@[0]);
        assert(url[0] == 'h');
    }
    let secure = "https://"@ + path;
    prefixes_begin_texts(secure, "https://"@, path);
    if has_prefix(secure, "unix:"@) {
        assert(secure.subrange(0, 5)[0] == "unix:"@[0]);
        assert(secure[0] == 'h');
    }
    if addr.len() > 0 && addr[0] == '/' {
        if has_prefix(addr, "unix:"@) {
            assert(addr.subrange(0, 5)[0] == "unix:"@[0]);
        }
        if has_prefix(addr, "http://"@) {
            assert(addr.subrange(0, 7)[0] == "http://"@[0]);
        }
        if has_prefix(addr, "https://"@) {
            assert(addr.subrange(0, 8)[0] == "https://"@[0]);
        }
        assert(addr.subrange(0, 1) =~= "/"@);
        assert(occurs_at(addr, "/"@, 0));
    }
    if forall|k: int| 0 <= k < addr.len() ==> #[trigger] addr[k] != '/' {
        assert forall|at: int| !occurs_at(addr, "/"@, at) by {
            if occurs_at(addr, "/"@, at) {
                assert(addr.subrange(at, at + 1)[0] == "/"@[0]);
                assert(addr[at] == '/');
            }
        }
        if has_prefix(addr, "http://"@) {
            assert(addr.subrange(0, 7)[5] == "http://"@[5]);
            assert(addr[5] == '/');
        }
        if has_prefix(addr, "https://"@) {
            assert(addr.subrange(0, 8)[6] == "https://"@[6]);
            assert(addr[6] == '/');
        }
    }
}

/// The stream of a remote equalizer is told as its own, behind its address.
pub proof fn remote_streams_are_told(name: Seq<char>, info: StreamView)
    ensures
        remote_info(name, Some(info)).input == name + " ⇄ "@ + info.input,
        remote_info(name, Some(info)).format == info.format,
        remote_info(name, Some(info)).in_rate == info.in_rate,
        remote_info(name, Some(info)).out_rate == info.out_rate,
        remote_info(name, Some(info)).device == info.device,
        remote_info(name, None).input == name + " ⇄ "@,
{
}

/// A token is sent behind `Bearer `.
pub proof fn tokens_are_sent_as_bearers(token: Seq<char>)
    ensures
        bearer(token) == "Bearer "@ + token,
{
}

} // verus!
