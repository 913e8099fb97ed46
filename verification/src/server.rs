//! The control API: who may call, what each request does, and the state that
//! it is answered with.

use vstd::prelude::*;

use crate::audio::{AudioStatus, STATE_ENDED, STATE_STREAMING};
use crate::control::{copy_text, text_of, LocalController};
use crate::equalizer::{db_as_tenths, tenths, EqState, Equalizer};
use crate::header::{header_text, text_in};
use crate::presets::{
    find, joined_names, names, names_are_listed, preset, preset_gains, preset_name, PRESET_COUNT,
};
use crate::settings::{EqBand, EQ_BANDS};
use crate::text::{
    digits, has_prefix, hex, prefixes_begin_texts, push_digits, same_text, strip_prefix, to_hex,
    without_prefix,
};
use crate::ui::{StreamInfo, StreamView};

verus! {

/// One band on the wire.
#[derive(Debug, Clone, Copy, PartialEq, Eq, Structural)]
pub struct Band {
    pub cutoff_hz: i32,
    pub q_tenths: i32,
    pub gain_tenths_db: i32,
}

/// The state that requests are answered with.
pub struct State {
    pub enabled: bool,
    pub bands: Vec<Band>,
    pub bass_db: i32,
    pub treble_db: i32,
    pub version: u64,
    /// One of the `STATE_*` values.
    pub playback: i32,
    /// Empty when there is no error.
    pub error: String,
    pub frames_played: u64,
    pub peak_l: i32,
    pub peak_r: i32,
    pub stream: Option<StreamInfo>,
}

/// The values of a [`State`].
#[verifier::ext_equal]
pub struct StateView {
    pub enabled: bool,
    pub bands: Seq<Band>,
    pub bass_db: i32,
    pub treble_db: i32,
    pub version: u64,
    pub playback: i32,
    pub error: Seq<char>,
    pub frames_played: u64,
    pub peak_l: i32,
    pub peak_r: i32,
    pub stream: Option<StreamView>,
}

impl View for State {
    type V = StateView;

    open spec fn view(&self) -> StateView {
        StateView {
            enabled: self.enabled,
            bands: self.bands@,
            bass_db: self.bass_db,
            treble_db: self.treble_db,
            version: self.version,
            playback: self.playback,
            error: self.error@,
            frames_played: self.frames_played,
            peak_l: self.peak_l,
            peak_r: self.peak_r,
            stream: match self.stream {
                Some(info) => Some(info@),
                None => None,
            },
        }
    }
}

/// A band as it goes over the wire.
pub open spec fn wire_band(band: EqBand) -> Band {
    Band { cutoff_hz: band.cutoff, q_tenths: band.q, gain_tenths_db: band.gain }
}

/// Bands as they go over the wire.
pub open spec fn wire_bands(bands: Seq<EqBand>) -> Seq<Band> {
    Seq::new(bands.len(), |i: int| wire_band(bands[i]))
}

/// A playback state as it goes over the wire: anything else than streaming or
/// ended is waiting.
pub open spec fn wire_playback(state: u8) -> i32 {
    if state == STATE_STREAMING {
        1
    } else if state == STATE_ENDED {
        2
    } else {
        0
    }
}

/// The state that requests are answered with.
pub open spec fn state_view(eq: EqState, status: AudioStatus, info: StreamView) -> StateView {
    StateView {
        enabled: eq.view.enabled,
        bands: wire_bands(eq.view.bands),
        bass_db: eq.view.bass,
        treble_db: eq.view.treble,
        version: eq.version,
        playback: wire_playback(status.state),
        error: match status.error {
            Some(text) => text@,
            None => seq![],
        },
        frames_played: status.frames_played,
        peak_l: status.peak_l,
        peak_r: status.peak_r,
        stream: Some(info),
    }
}

/// Bands as they go over the wire.
fn bands_message(bands: &Vec<EqBand>) -> (message: Vec<Band>)
    ensures
        message@ == wire_bands(bands@),
        message@.len() == bands@.len(),
        forall|i: int| #![trigger message@[i]]
            0 <= i < bands@.len() ==> {
                &&& message@[i].cutoff_hz == bands@[i].cutoff
                &&& message@[i].q_tenths == bands@[i].q
                &&& message@[i].gain_tenths_db == bands@[i].gain
            },
{
    let mut message: Vec<Band> = Vec::new();
    let mut i: usize = 0;
    while i < bands.len()
        invariant
            i <= bands@.len(),
            message@ == wire_bands(bands@.take(i as int)),
        decreases bands@.len() - i,
    {
        let b: EqBand = bands[i];
        message.push(Band { cutoff_hz: b.cutoff, q_tenths: b.q, gain_tenths_db: b.gain });
        assert(message@ =~= wire_bands(bands@.take(i + 1)));
        i += 1;
    }
    assert(bands@.take(i as int) =~= bands@);
    message
}

/// The state that requests and watchers are answered with.
pub fn state_message(eq: &Equalizer, status: &AudioStatus, info: &StreamInfo) -> (state: State)
    ensures
        state@ == state_view(eq@, *status, info@),
        state.enabled == eq@.view.enabled,
        state.bands@.len() == eq@.view.bands.len(),
        forall|i: int| #![trigger state.bands@[i]]
            0 <= i < state.bands@.len() ==> {
                &&& state.bands@[i].cutoff_hz == eq@.view.bands[i].cutoff
                &&& state.bands@[i].q_tenths == eq@.view.bands[i].q
                &&& state.bands@[i].gain_tenths_db == eq@.view.bands[i].gain
            },
        state.bass_db == eq@.view.bass,
        state.treble_db == eq@.view.treble,
        state.version == eq@.version,
        status.state == 1 ==> state.playback == 1,
        status.state == 2 ==> state.playback == 2,
        status.state != 1 && status.state != 2 ==> state.playback == 0,
        status.error is None ==> state.error@.len() == 0,
        status.error matches Some(text) ==> state.error@ == text@,
        state.frames_played == status.frames_played,
        state.peak_l == status.peak_l,
        state.peak_r == status.peak_r,
        state.stream is Some,
        state.stream->0.input@ == info.input@,
        state.stream->0.format@ == info.format@,
        state.stream->0.in_rate == info.in_rate,
        state.stream->0.out_rate == info.out_rate,
        state.stream->0.device@ == info.device@,
{
    let playback: i32 = if status.state == STATE_STREAMING {
        1
    } else if status.state == STATE_ENDED {
        2
    } else {
        0
    };
    let error = match &status.error {
        Some(text) => text.clone(),
        None => String::new(),
    };
    let state = State {
        enabled: eq.is_enabled(),
        bands: bands_message(&eq.bands()),
        bass_db: eq.bass(),
        treble_db: eq.treble(),
        version: eq.version(),
        playback,
        error,
        frames_played: status.frames_played,
        peak_l: status.peak_l,
        peak_r: status.peak_r,
        stream: Some(info.copy()),
    };
    assert(state@ =~= state_view(eq@, *status, info@));
    state
}

/// Why a request is refused.
#[derive(Debug, Clone, Copy, PartialEq, Eq, Structural)]
pub enum Code {
    InvalidArgument,
    NotFound,
    Unauthenticated,
    Internal,
}

/// A refusal, with its message.
pub struct Status {
    pub code: Code,
    pub message: String,
}

impl Status {
    /// Whether this refuses with `code` and `message`.
    pub open spec fn is(self, code: Code, message: Seq<char>) -> bool {
        self.code == code && self.message@ == message
    }
}

/// Asks for a token on every request where one is set.
pub struct Auth {
    pub token: Option<String>,
}

/// What a request without the right token is told.
pub open spec fn denial() -> Seq<char> {
    "missing or invalid token: send `authorization: Bearer <token>` (see [api].token in the server's settings.toml)"@
}

/// Whether a request that sent the header value `sent` may pass: no token is
/// set, or the value is the token, with or without `Bearer ` in front.
pub open spec fn passes(token: Option<Seq<char>>, sent: Option<Seq<u8>>) -> bool {
    match token {
        None => true,
        Some(wanted) => match sent {
            None => false,
            Some(bytes) => text_in(bytes) is Some && without_prefix(
                text_in(bytes)->0,
                "Bearer "@,
            ) == wanted,
        },
    }
}

/// The bytes of a header value that may be missing.
pub open spec fn sent_bytes(sent: Option<&[u8]>) -> Option<Seq<u8>> {
    match sent {
        Some(bytes) => Some(bytes@),
        None => None,
    }
}

impl Auth {
    /// Let a request pass or refuse it, by its `authorization` header value.
    pub fn call(&self, sent: Option<&[u8]>) -> (outcome: Result<(), Status>)
        ensures
            outcome is Ok <==> passes(text_of(self.token), sent_bytes(sent)),
            outcome matches Err(refusal) ==> refusal.is(Code::Unauthenticated, denial()),
            outcome matches Err(refusal) ==> refusal.code == Code::Unauthenticated,
            self.token is None ==> outcome is Ok,
            self.token is Some && sent is None ==> outcome is Err,
            sent matches Some(bytes) ==> (outcome is Ok <==> passes(
                text_of(self.token),
                Some(bytes@),
            )),
            outcome matches Err(refusal) ==> refusal.message@ == denial(),
    {
        let token = match &self.token {
            None => {
                return Ok(());
            },
            Some(token) => token,
        };
        if let Some(bytes) = sent {
            if let Some(value) = header_text(bytes) {
                let given = match strip_prefix(value.as_str(), "Bearer ") {
                    Some(rest) => rest,
                    None => value,
                };
                if same_text(given.as_str(), token.as_str()) {
                    return Ok(());
                }
            }
        }
        Err(
            Status {
                code: Code::Unauthenticated,
                message: "missing or invalid token: send `authorization: Bearer <token>` (see [api].token in the server's settings.toml)".to_owned(),
            },
        )
    }
}

/// The text that `{:?}` of std makes of a text: in double quotes, with
/// escapes.
pub uninterp spec fn debug_text(text: Seq<char>) -> Seq<char>;

/// `format!` with `{:?}` quotes and escapes a text.
#[verifier::external_body]
pub(crate) fn quoted(text: &str) -> (out: String)
    ensures
        out@ == debug_text(text@),
{
    format!("{text:?}")
}

/// What is said of a preset that does not exist, given its quoted name.
pub open spec fn unknown_preset(quoted_name: Seq<char>) -> Seq<char> {
    "unknown preset "@ + quoted_name + " (available: "@ + joined_names(PRESET_COUNT as nat)
        + ")"@
}

/// What is said of a preset that does not exist, given its quoted name.
pub fn unknown_preset_text(quoted_name: &str) -> (text: String)
    ensures
        text@ == unknown_preset(quoted_name@),
{
    let mut text = "unknown preset ".to_owned();
    text.append(quoted_name);
    text.append(" (available: ");
    text.append(names().as_str());
    text.append(")");
    text
}

/// The number of the preset called `name`, or what to say when there is none.
pub fn preset_or_message(name: &str) -> (found: Result<usize, String>)
    ensures
        found matches Ok(i) ==> i < PRESET_COUNT && preset_name(i as int) == name@,
        found matches Err(text) ==> {
            &&& forall|i: int| 0 <= i < PRESET_COUNT ==> preset_name(i) != name@
            &&& text@ == unknown_preset(debug_text(name@))
        },
{
    match find(name) {
        Some(i) => Ok(i),
        None => Err(unknown_preset_text(quoted(name).as_str())),
    }
}

/// A preset on the wire.
pub struct PresetMessage {
    pub name: String,
    pub gains_db: Vec<i32>,
}

/// The equalizer after the requested shelf moves. A move by 0 dB is none.
pub open spec fn tone_adjusted(eq: EqState, bass: int, treble: int) -> EqState {
    let first = if bass != 0 {
        eq.edited(eq.view.adjust_bass(bass))
    } else {
        eq
    };
    if treble != 0 {
        first.edited(first.view.adjust_treble(treble))
    } else {
        first
    }
}

/// The equalizer at the gains of preset `i`, switched on.
pub open spec fn preset_applied(eq: EqState, i: int) -> EqState {
    let at_gains = eq.edited(eq.view.set_gains(db_as_tenths(preset_gains(i))));
    at_gains.edited(at_gains.view.set_enabled(true))
}

/// What a refused `band` is told.
pub open spec fn band_refusal() -> Seq<char> {
    "band must be 0.."@ + digits((EQ_BANDS - 1) as nat)
}

/// What a gain list of the wrong length is told.
pub open spec fn gains_refusal(got: nat) -> Seq<char> {
    "expected "@ + digits(EQ_BANDS as nat) + " gains, got "@ + digits(got)
}

/// What answers the requests.
pub struct Service {
    pub info: StreamInfo,
}

impl Service {
    /// The answer to a request, from the state of `local`.
    pub open spec fn answer(self, local: LocalController) -> StateView {
        state_view(local.eq@, local.status, self.info@)
    }

    /// Whether `local` is `before` with the equalizer in state `eq`.
    pub open spec fn changed(before: LocalController, local: LocalController, eq: EqState) -> bool {
        &&& local.eq@ == eq
        &&& local.status == before.status
        &&& local.save_requested == before.save_requested
    }

    /// The current state.
    pub fn state(&self, local: &LocalController) -> (state: State)
        ensures
            state@ == self.answer(*local),
    {
        state_message(&local.eq, &local.status, &self.info)
    }

    /// Answer with the current state.
    pub fn get_state(&self, local: &LocalController) -> (state: State)
        ensures
            state@ == self.answer(*local),
    {
        self.state(local)
    }

    /// Switch the equalizer.
    pub fn set_enabled(&self, local: &mut LocalController, enabled: bool) -> (state: State)
        ensures
            Self::changed(
                *old(local),
                *final(local),
                old(local).eq@.edited(old(local).eq@.view.set_enabled(enabled)),
            ),
            state@ == self.answer(*final(local)),
    {
        local.eq.set_enabled(enabled);
        self.state(local)
    }

    /// Move a band gain by tenths of dB.
    pub fn adjust_band(
        &self,
        local: &mut LocalController,
        band: u32,
        delta_tenths_db: i32,
    ) -> (outcome: Result<State, Status>)
        ensures
            outcome is Ok <==> band < EQ_BANDS,
            outcome matches Ok(state) ==> {
                &&& Self::changed(
                    *old(local),
                    *final(local),
                    old(local).eq@.edited(
                        old(local).eq@.view.adjust_band(band as int, delta_tenths_db as int),
                    ),
                )
                &&& state@ == self.answer(*final(local))
            },
            outcome matches Err(refusal) ==> {
                &&& refusal.is(Code::InvalidArgument, band_refusal())
                &&& *final(local) == *old(local)
            },
    {
        if band as u64 >= EQ_BANDS as u64 {
            let mut message = "band must be 0..".to_owned();
            push_digits(&mut message, (EQ_BANDS - 1) as u64);
            return Err(Status { code: Code::InvalidArgument, message });
        }
        local.eq.adjust_band_gain(band as usize, delta_tenths_db);
        Ok(self.state(local))
    }

    /// Set the band gains in tenths of dB.
    pub fn set_band_gains(
        &self,
        local: &mut LocalController,
        gains_tenths_db: &[i32],
    ) -> (outcome: Result<State, Status>)
        ensures
            outcome is Ok <==> gains_tenths_db@.len() == EQ_BANDS,
            outcome matches Ok(state) ==> {
                &&& Self::changed(
                    *old(local),
                    *final(local),
                    old(local).eq@.edited(
                        old(local).eq@.view.set_gains(tenths(gains_tenths_db@)),
                    ),
                )
                &&& state@ == self.answer(*final(local))
            },
            outcome matches Err(refusal) ==> {
                &&& refusal.is(Code::InvalidArgument, gains_refusal(gains_tenths_db@.len()))
                &&& *final(local) == *old(local)
            },
    {
        let got: usize = gains_tenths_db.len();
        if got != EQ_BANDS {
            let mut message = "expected ".to_owned();
            push_digits(&mut message, EQ_BANDS as u64);
            message.append(" gains, got ");
            push_digits(&mut message, got as u64);
            return Err(Status { code: Code::InvalidArgument, message });
        }
        local.eq.set_band_gains_tenths(gains_tenths_db);
        Ok(self.state(local))
    }

    /// Move the tone shelves by whole dB.
    pub fn adjust_tone(
        &self,
        local: &mut LocalController,
        bass_delta_db: i32,
        treble_delta_db: i32,
    ) -> (state: State)
        ensures
            Self::changed(
                *old(local),
                *final(local),
                tone_adjusted(old(local).eq@, bass_delta_db as int, treble_delta_db as int),
            ),
            state@ == self.answer(*final(local)),
    {
        if bass_delta_db != 0 {
            local.eq.adjust_bass(bass_delta_db);
        }
        if treble_delta_db != 0 {
            local.eq.adjust_treble(treble_delta_db);
        }
        self.state(local)
    }

    /// Set every gain to 0 dB.
    pub fn reset_gains(&self, local: &mut LocalController) -> (state: State)
        ensures
            Self::changed(
                *old(local),
                *final(local),
                old(local).eq@.edited(old(local).eq@.view.reset()),
            ),
            state@ == self.answer(*final(local)),
    {
        local.eq.reset_gains();
        self.state(local)
    }

    /// Apply the preset called `name` and switch the equalizer on.
    pub fn apply_preset(&self, local: &mut LocalController, name: &str) -> (outcome: Result<
        State,
        Status,
    >)
        ensures
            outcome is Ok <==> exists|i: int| 0 <= i < PRESET_COUNT && preset_name(i) == name@,
            outcome matches Ok(state) ==> {
                &&& exists|i: int|
                    0 <= i < PRESET_COUNT && #[trigger] preset_name(i) == name@ && Self::changed(
                        *old(local),
                        *final(local),
                        preset_applied(old(local).eq@, i),
                    )
                &&& state@ == self.answer(*final(local))
            },
            outcome matches Err(refusal) ==> {
                &&& refusal.is(Code::NotFound, unknown_preset(debug_text(name@)))
                &&& *final(local) == *old(local)
            },
    {
        match preset_or_message(name) {
            Ok(i) => {
                assert(preset_name(i as int) == name@);
                local.eq.set_band_gains_db(&preset(i).gains_db);
                local.eq.set_enabled(true);
                Ok(self.state(local))
            },
            Err(message) => Err(Status { code: Code::NotFound, message }),
        }
    }

    /// The presets there are.
    pub fn list_presets(&self) -> (presets: Vec<PresetMessage>)
        ensures
            presets@.len() == PRESET_COUNT,
            forall|i: int|
                0 <= i < PRESET_COUNT ==> (#[trigger] presets@[i]).name@ == preset_name(i)
                    && presets@[i].gains_db@ == preset_gains(i),
    {
        let mut presets: Vec<PresetMessage> = Vec::new();
        let mut i: usize = 0;
        while i < PRESET_COUNT
            invariant
                i <= PRESET_COUNT,
                presets@.len() == i,
                forall|k: int|
                    0 <= k < i ==> (#[trigger] presets@[k]).name@ == preset_name(k)
                        && presets@[k].gains_db@ == preset_gains(k),
            decreases PRESET_COUNT - i,
        {
            let p = preset(i);
            let mut gains_db: Vec<i32> = Vec::new();
            let mut k: usize = 0;
            while k < EQ_BANDS
                invariant
                    k <= EQ_BANDS,
                    p.gains_db@.len() == EQ_BANDS,
                    gains_db@ == p.gains_db@.take(k as int),
                decreases EQ_BANDS - k,
            {
                gains_db.push(p.gains_db[k]);
                assert(gains_db@ =~= p.gains_db@.take(k + 1));
                k += 1;
            }
            assert(gains_db@ =~= p.gains_db@);
            presets.push(PresetMessage { name: p.name.to_owned(), gains_db });
            i += 1;
        }
        presets
    }

    /// Answer a request to save, by how the writing went.
    pub fn save(&self, written: Result<(), String>) -> (outcome: Result<(), Status>)
        ensures
            outcome is Ok <==> written is Ok,
            outcome matches Err(refusal) ==> refusal.is(Code::Internal, written->Err_0@),
    {
        match written {
            Ok(_) => Ok(()),
            Err(message) => Err(Status { code: Code::Internal, message }),
        }
    }
}

/// Bytes in a token.
pub const TOKEN_BYTES: usize = 24;

/// The token made of random bytes: two lower-case hexadecimal digits for each.
pub fn generate_token(random: &[u8; TOKEN_BYTES]) -> (token: String)
    ensures
        token@ == hex(random@),
        token@.len() == 2 * TOKEN_BYTES,
{
    to_hex(random)
}

/// Where the control API is served.
pub struct Endpoints {
    /// Unix socket path.
    pub socket: Option<String>,
    /// TCP address and port.
    pub tcp: Option<(String, u16)>,
    /// Guards the TCP endpoint alone: file permissions guard the socket.
    pub token: Option<String>,
}

impl Endpoints {
    /// What is served, given whether the socket could be claimed.
    pub fn bound(self, socket_claimed: bool) -> (bound: Endpoints)
        ensures
            bound == (Endpoints {
                socket: if socket_claimed {
                    self.socket
                } else {
                    None
                },
                ..self
            }),
    {
        if socket_claimed {
            self
        } else {
            Endpoints { socket: None, tcp: self.tcp, token: self.token }
        }
    }

    /// Who may call on the unix socket: everyone who can open it.
    pub fn socket_auth(&self) -> (auth: Auth)
        ensures
            auth.token is None,
    {
        Auth { token: None }
    }

    /// Who may call over TCP: those who send the token, where there is one.
    pub fn tcp_auth(&self) -> (auth: Auth)
        ensures
            text_of(auth.token) == text_of(self.token),
    {
        Auth { token: copy_text(&self.token) }
    }
}

/// What to do about the socket path before serving there.
#[derive(Debug, Clone, Copy, PartialEq, Eq, Structural)]
pub enum SocketStep {
    /// Another equalizer serves there: leave it alone and do without.
    Skip,
    /// A leftover stands there: remove it, then bind.
    RemoveAndBind,
    /// Nothing stands there: bind.
    Bind,
}

/// What to do about the socket path, given whether something stands there and
/// whether it takes connections.
pub fn bind_step(exists: bool, live: bool) -> (step: SocketStep)
    ensures
        step == SocketStep::Skip <==> exists && live,
        step == SocketStep::RemoveAndBind <==> exists && !live,
        step == SocketStep::Bind <==> !exists,
{
    if !exists {
        SocketStep::Bind
    } else if live {
        SocketStep::Skip
    } else {
        SocketStep::RemoveAndBind
    }
}

/// Tokens of different bytes differ.
pub proof fn tokens_differ(a: Seq<u8>, b: Seq<u8>)
    requires
        a.len() == b.len(),
        a != b,
    ensures
        hex(a) != hex(b),
{
    if hex(a) == hex(b) {
        assert forall|i: int| 0 <= i < a.len() implies a[i] == b[i] by {
            assert(hex(a)[2 * i] == hex(b)[2 * i]);
            assert(hex(a)[2 * i + 1] == hex(b)[2 * i + 1]);
            assert(a[i] == a[i] / 16 * 16 + a[i] % 16);
            assert(b[i] == b[i] / 16 * 16 + b[i] % 16);
        }
        assert(a =~= b);
    }
}

/// Without a token everyone passes.
pub proof fn no_token_lets_pass(sent: Option<Seq<u8>>)
    ensures
        passes(None, sent),
{
}

/// A state tells each of its values under its own name.
pub proof fn states_tell_their_values(state: State)
    ensures
        state@.enabled == state.enabled,
        state@.bands == state.bands@,
        state@.bass_db == state.bass_db,
        state@.treble_db == state.treble_db,
        state@.version == state.version,
        state@.playback == state.playback,
        state@.error == state.error@,
        state@.frames_played == state.frames_played,
        state@.peak_l == state.peak_l,
        state@.peak_r == state.peak_r,
        state@.stream is Some <==> state.stream is Some,
        state.stream matches Some(info) ==> {
            &&& state@.stream->0.input == info.input@
            &&& state@.stream->0.format == info.format@
            &&& state@.stream->0.in_rate == info.in_rate
            &&& state@.stream->0.out_rate == info.out_rate
            &&& state@.stream->0.device == info.device@
        },
{
}

/// An answer tells the equalizer, the telemetry and the stream as they are.
pub proof fn answers_tell_what_is_there(service: Service, local: LocalController, i: int)
    requires
        0 <= i < local.eq@.view.bands.len(),
    ensures
        ({
            let answer = service.answer(local);
            &&& answer.enabled == local.eq@.view.enabled
            &&& answer.bands.len() == local.eq@.view.bands.len()
            &&& answer.bands[i].cutoff_hz == local.eq@.view.bands[i].cutoff
            &&& answer.bands[i].q_tenths == local.eq@.view.bands[i].q
            &&& answer.bands[i].gain_tenths_db == local.eq@.view.bands[i].gain
            &&& answer.bass_db == local.eq@.view.bass
            &&& answer.treble_db == local.eq@.view.treble
            &&& answer.version == local.eq@.version
            &&& answer.playback == (if local.status.state == 1 {
                1int
            } else if local.status.state == 2 {
                2
            } else {
                0
            })
            &&& local.status.error is None ==> answer.error.len() == 0
            &&& local.status.error matches Some(text) ==> answer.error == text@
            &&& answer.frames_played == local.status.frames_played
            &&& answer.peak_l == local.status.peak_l
            &&& answer.peak_r == local.status.peak_r
            &&& answer.stream is Some
            &&& answer.stream->0.input == service.info.input@
            &&& answer.stream->0.format == service.info.format@
            &&& answer.stream->0.in_rate == service.info.in_rate
            &&& answer.stream->0.out_rate == service.info.out_rate
            &&& answer.stream->0.device == service.info.device@
        }),
{
}

/// A request that changes the equalizer changes nothing else.
pub proof fn requests_change_the_equalizer_alone(
    before: LocalController,
    local: LocalController,
    eq: EqState,
)
    requires
        Service::changed(before, local, eq),
    ensures
        local.eq@ == eq,
        local.status == before.status,
        local.save_requested == before.save_requested,
{
}

/// Both shelves move by what the request says, each by its own, up to 24 dB
/// either way. A move by 0 dB is no edit, any other counts as one.
pub proof fn shelf_requests_move_their_shelf(eq: EqState, bass: int, treble: int)
    ensures
        ({
            let after = tone_adjusted(eq, bass, treble);
            let low = eq.view.bass + bass;
            let high = eq.view.treble + treble;
            &&& bass == 0 ==> after.view.bass == eq.view.bass
            &&& bass != 0 && -24 <= low <= 24 ==> after.view.bass == low
            &&& bass != 0 && low > 24 ==> after.view.bass == 24
            &&& bass != 0 && low < -24 ==> after.view.bass == -24
            &&& treble == 0 ==> after.view.treble == eq.view.treble
            &&& treble != 0 && -24 <= high <= 24 ==> after.view.treble == high
            &&& treble != 0 && high > 24 ==> after.view.treble == 24
            &&& treble != 0 && high < -24 ==> after.view.treble == -24
            &&& after.view.bands == eq.view.bands
            &&& after.view.enabled == eq.view.enabled
            &&& after.bass_cutoff == eq.bass_cutoff
            &&& after.treble_cutoff == eq.treble_cutoff
            &&& after.version == (eq.version + (if bass != 0 {
                1int
            } else {
                0
            }) + (if treble != 0 {
                1int
            } else {
                0
            })) % 0x1_0000_0000_0000_0000
        }),
{
}

/// A preset request leaves the equalizer on, every band at the gain of the
/// preset, and everything else as it was.
pub proof fn preset_requests_apply_the_preset(eq: EqState, i: int, band: int)
    requires
        0 <= i < PRESET_COUNT,
        eq.view.bands.len() == 10,
        0 <= band < 10,
    ensures
        ({
            let after = preset_applied(eq, i);
            &&& after.view.enabled
            &&& after.view.bands.len() == 10
            &&& after.view.bands[band].gain == 10 * preset_gains(i)[band]
            &&& after.view.bands[band].cutoff == eq.view.bands[band].cutoff
            &&& after.view.bands[band].q == eq.view.bands[band].q
            &&& after.view.bass == eq.view.bass
            &&& after.view.treble == eq.view.treble
            &&& after.bass_cutoff == eq.bass_cutoff
            &&& after.treble_cutoff == eq.treble_cutoff
        }),
{
    crate::presets::gains_apply_exactly(i, eq.view, band);
}

/// Where a token is set, a request passes when it sends just that token as
/// text, bare or behind `Bearer `, and not otherwise: not without a header, and
/// not with one that cannot be read as text.
pub proof fn only_the_token_passes(wanted: Seq<char>, bytes: Seq<u8>, text: Seq<char>)
    ensures
        !passes(Some(wanted), None),
        text_in(bytes) is None ==> !passes(Some(wanted), Some(bytes)),
        text_in(bytes) == Some(text) && text == "Bearer "@ + wanted ==> passes(
            Some(wanted),
            Some(bytes),
        ),
        text_in(bytes) == Some(text) && text == wanted && !has_prefix(text, "Bearer "@) ==> passes(
            Some(wanted),
            Some(bytes),
        ),
        text_in(bytes) == Some(text) && passes(Some(wanted), Some(bytes)) ==> text == wanted
            || text == "Bearer "@ + wanted,
{
    prefixes_begin_texts(text, "Bearer "@, wanted);
}

/// What refused requests are told.
pub proof fn refusals_say_why(got: nat, quoted_name: Seq<char>)
    ensures
        band_refusal() == "band must be 0..9"@,
        gains_refusal(got) == "expected 10 gains, got "@ + digits(got),
        denial()
            == "missing or invalid token: send `authorization: Bearer <token>` (see [api].token in the server's settings.toml)"@,
        unknown_preset(quoted_name) == "unknown preset "@ + quoted_name
            + " (available: flat, rock, pop, jazz, classical, electronic, vocal, bass-boost, treble-boost)"@,
{
    reveal_strlit("band must be 0..");
    reveal_strlit("band must be 0..9");
    assert(digits(9) =~= seq!['9']);
    assert(band_refusal() =~= "band must be 0..9"@);
    reveal_strlit("expected ");
    reveal_strlit(" gains, got ");
    reveal_strlit("expected 10 gains, got ");
    reveal_with_fuel(digits, 2);
    assert(digits(10) =~= seq!['1', '0']);
    assert("expected "@ + digits(10) + " gains, got "@ =~= "expected 10 gains, got "@);
    assert(gains_refusal(got) =~= "expected 10 gains, got "@ + digits(got));
    names_are_listed();
    reveal_strlit(" (available: ");
    reveal_strlit(")");
    reveal_strlit(
        "flat, rock, pop, jazz, classical, electronic, vocal, bass-boost, treble-boost",
    );
    reveal_strlit(
        " (available: flat, rock, pop, jazz, classical, electronic, vocal, bass-boost, treble-boost)",
    );
    let listed = " (available: "@ + joined_names(PRESET_COUNT as nat) + ")"@;
    assert(listed
        =~= " (available: flat, rock, pop, jazz, classical, electronic, vocal, bass-boost, treble-boost)"@);
    assert(unknown_preset(quoted_name) =~= "unknown preset "@ + quoted_name + listed);
}

/// A refusal has the code and the message that it refuses with.
pub proof fn refusals_are_told(refusal: Status, code: Code, message: Seq<char>)
    ensures
        refusal.is(code, message) <==> refusal.code == code && refusal.message@ == message,
{
}

} // verus!
