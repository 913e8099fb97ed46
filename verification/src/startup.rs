//! What the command line, the settings and the machine come to when the
//! program starts.

use vstd::prelude::*;

use crate::audio::PcmFormat;
use crate::control::{copy_text, text_of, took_all, Controller, Edit};
use crate::equalizer::{db_as_tenths, version_after, EqView};
use crate::presets::{preset, preset_gains, preset_name, PRESET_COUNT};
use crate::remote::{
    all_go_over, asking_keeps_foresight, cmd_for, eq_after_all, foresees, replayed,
    save_writes_the_shown, RemoteController,
};
use crate::server::{debug_text, preset_or_message, quoted, unknown_preset};
use crate::settings::ApiConfig;
use crate::text::{
    contains_text, digits, has_substring, parts_occur_in_texts, push_digits, same_text,
};

verus! {

/// Most input channels.
pub const MAX_CHANNELS: usize = 32;

/// Check the number of input channels.
pub fn check_channels(channels: usize) -> (outcome: Result<(), String>)
    ensures
        outcome is Ok <==> 1 <= channels <= MAX_CHANNELS,
        outcome is Ok <==> 1 <= channels <= 32,
        outcome matches Err(message) ==> message@ == "--channels must be between 1 and 32"@,
{
    if channels == 0 || channels > MAX_CHANNELS {
        Err("--channels must be between 1 and 32".to_owned())
    } else {
        Ok(())
    }
}

/// Where the path of the control socket comes from.
#[derive(Debug, Clone, Copy, PartialEq, Eq, Structural)]
pub enum SocketSource {
    CommandLine,
    Settings,
    Default,
}

/// Where the path of the control socket comes from: the command line goes
/// before the settings, both before the default.
pub fn socket_source(on_command_line: bool, in_settings: bool) -> (source: SocketSource)
    ensures
        source == SocketSource::CommandLine <==> on_command_line,
        source == SocketSource::Settings <==> !on_command_line && in_settings,
        source == SocketSource::Default <==> !on_command_line && !in_settings,
{
    if on_command_line {
        SocketSource::CommandLine
    } else if in_settings {
        SocketSource::Settings
    } else {
        SocketSource::Default
    }
}

/// Whether a plain start looks for a running equalizer to connect to: nothing
/// is piped in or out, and there is to be an interface.
pub fn looks_for_running(
    input: &str,
    output_given: bool,
    stdin_is_terminal: bool,
    no_tui: bool,
) -> (yes: bool)
    ensures
        yes == (input@ == "-"@ && !output_given && stdin_is_terminal && !no_tui),
{
    same_text(input, "-") && !output_given && stdin_is_terminal && !no_tui
}

/// The equalizer at the gains of preset `i`, switched on.
pub open spec fn at_preset(eq: EqView, i: int) -> EqView {
    eq.set_gains(db_as_tenths(preset_gains(i))).set_enabled(true)
}

/// What a controller is asked for to go to preset `i` and keep it: the gains,
/// the switch, and then a save of both.
pub open spec fn preset_edits(i: int) -> Seq<Edit> {
    seq![Edit::Gains(preset_gains(i)), Edit::Enabled(true), Edit::Save]
}

/// Apply the preset that was asked for at the start, and save it. Returns its
/// number, none where none was asked for, or what to say of one that does not
/// exist.
pub fn start_preset<C: Controller>(ctrl: &mut C, name: Option<&str>) -> (outcome: Result<
    Option<usize>,
    String,
>)
    ensures
        name is None ==> {
            &&& outcome == Ok::<Option<usize>, String>(None)
            &&& final(ctrl)@ == old(ctrl)@
            &&& final(ctrl).shown() == old(ctrl).shown()
            &&& final(ctrl).save_asked() == old(ctrl).save_asked()
        },
        name matches Some(n) ==> {
            &&& outcome is Ok <==> exists|i: int| 0 <= i < PRESET_COUNT && preset_name(i) == n@
            &&& outcome is Ok ==> {
                &&& outcome->Ok_0 is Some
                &&& outcome->Ok_0->0 < PRESET_COUNT
                &&& preset_name(outcome->Ok_0->0 as int) == n@
                &&& final(ctrl)@ == took_all::<C>(
                    old(ctrl)@,
                    preset_edits(outcome->Ok_0->0 as int),
                )
                &&& final(ctrl).shown() == at_preset(old(ctrl).shown(), outcome->Ok_0->0 as int)
                &&& final(ctrl).save_asked()
                &&& final(ctrl).saves_shown()
            }
            &&& outcome is Err ==> {
                &&& outcome->Err_0@ == unknown_preset(debug_text(n@))
                &&& final(ctrl)@ == old(ctrl)@
                &&& final(ctrl).shown() == old(ctrl).shown()
                &&& final(ctrl).save_asked() == old(ctrl).save_asked()
            }
        },
        final(ctrl).telemetry() == old(ctrl).telemetry(),
        final(ctrl).edits() == version_after(old(ctrl).edits(), if outcome matches Ok(Some(_)) {
            2
        } else {
            0
        }),
{
    proof {
        reveal_with_fuel(version_after, 3);
    }
    match name {
        None => Ok(None),
        Some(n) => match preset_or_message(n) {
            Ok(i) => {
                assert(preset_name(i as int) == n@);
                ctrl.set_band_gains_db(&preset(i).gains_db);
                ctrl.set_enabled(true);
                ctrl.save();
                proof {
                    let edits = preset_edits(i as int);
                    assert(edits.drop_last() =~= seq![edits[0], edits[1]]);
                    assert(edits.drop_last().drop_last() =~= seq![edits[0]]);
                    assert(edits.drop_last().drop_last().drop_last() =~= Seq::<Edit>::empty());
                    reveal_with_fuel(took_all, 4);
                }
                Ok(Some(i))
            },
            Err(message) => Err(message),
        },
    }
}

/// A preset that was asked for at the start of a client is kept by the server:
/// the last request is the save, and what the server then writes is the
/// equalizer at the preset, which is also what is shown.
pub proof fn start_preset_is_kept(
    before: RemoteController,
    after: RemoteController,
    server: EqView,
    i: int,
)
    requires
        0 <= i < PRESET_COUNT,
        foresees(before, server),
        after@ == took_all::<RemoteController>(before@, preset_edits(i)),
    ensures
        after.pending().len() > 0,
        after.pending().last() is Save,
        replayed(server, after.pending().drop_last()) == at_preset(before.shown(), i),
        after.shown() == at_preset(before.shown(), i),
        foresees(after, server),
{
    let edits = preset_edits(i);
    assert(edits.drop_last() =~= seq![edits[0], edits[1]]);
    assert(edits.drop_last().drop_last() =~= seq![edits[0]]);
    assert(edits.drop_last().drop_last().drop_last() =~= Seq::<Edit>::empty());
    reveal_with_fuel(all_go_over, 4);
    reveal_with_fuel(eq_after_all, 4);
    asking_keeps_foresight(before, after, server, edits);
    assert(after.pending().last() == cmd_for(edits[2]));
    save_writes_the_shown(after, server);
}

/// The rate to play at: the device's, or the input's where there is no device
/// and whoever reads the output sets the pace.
pub fn output_rate(device_rate: Option<u32>, in_rate: u32) -> (rate: u32)
    ensures
        rate == (match device_rate {
            Some(device) => device,
            None => in_rate,
        }),
{
    match device_rate {
        Some(device) => device,
        None => in_rate,
    }
}

/// The input's name on the status line.
pub open spec fn input_name(input: Seq<char>) -> Seq<char> {
    if input == "-"@ {
        "stdin"@
    } else {
        input
    }
}

/// The input's name on the status line.
pub fn input_label(input: &str) -> (label: String)
    ensures
        label@ == input_name(input@),
        input@ == "-"@ ==> label@ == "stdin"@,
        input@ != "-"@ ==> label@ == input@,
{
    if same_text(input, "-") {
        "stdin".to_owned()
    } else {
        input.to_owned()
    }
}

/// The input format on the status line, such as `s16le 2ch`.
pub fn format_text(format: PcmFormat, channels: usize) -> (text: String)
    ensures
        text@ == format.name() + " "@ + digits(channels as nat) + "ch"@,
{
    let mut text = format.label().to_owned();
    text.append(" ");
    push_digits(&mut text, channels as u64);
    text.append("ch");
    text
}

/// Whether the API token goes to the log: where stdout carries the audio, the
/// token would spoil it.
pub fn token_goes_to_log(piped: bool, device_name: &str) -> (yes: bool)
    ensures
        yes == (piped && device_name@ == "stdout"@),
{
    piped && same_text(device_name, "stdout")
}

/// Where the token of the TCP endpoint comes from.
pub enum TokenPlan {
    /// There is no TCP endpoint, so no token.
    Nothing,
    /// The settings hold one.
    Use(String),
    /// One is to be generated and kept in the settings.
    Generate,
}

/// What of the control API to serve.
pub struct ApiPlan {
    pub socket: bool,
    pub port: Option<u16>,
    pub token: TokenPlan,
}

/// The first of two ports that is given.
pub open spec fn port_or(port: Option<u16>, other: Option<u16>) -> Option<u16> {
    if port is Some {
        port
    } else {
        other
    }
}

/// What of the control API to serve, if anything: the command line goes before
/// the settings. A socket path on the command line counts even where the
/// settings switch the socket off, and only a TCP endpoint has a token.
pub fn serve_plan(
    no_api: bool,
    socket_on_command_line: bool,
    port: Option<u16>,
    cfg: &ApiConfig,
) -> (plan: Option<ApiPlan>)
    ensures
        plan is Some <==> !no_api && (cfg.enabled || socket_on_command_line || port_or(
            port,
            cfg.port,
        ) is Some),
        plan matches Some(p) ==> {
            &&& p.socket == (cfg.enabled || socket_on_command_line)
            &&& p.port == port_or(port, cfg.port)
            &&& port is Some ==> p.port == port
            &&& port is None ==> p.port == cfg.port
            &&& p.token is Nothing <==> p.port is None
            &&& p.token is Generate <==> p.port is Some && cfg.token is None
            &&& p.token is Use ==> text_of(cfg.token) == Some(p.token->Use_0@)
        },
{
    if no_api {
        return None;
    }
    let socket = cfg.enabled || socket_on_command_line;
    let chosen: Option<u16> = if port.is_some() {
        port
    } else {
        cfg.port
    };
    if !socket && chosen.is_none() {
        return None;
    }
    let token = if chosen.is_none() {
        TokenPlan::Nothing
    } else {
        match copy_text(&cfg.token) {
            Some(token) => TokenPlan::Use(token),
            None => TokenPlan::Generate,
        }
    };
    Some(ApiPlan { socket, port: chosen, token })
}

/// A text in lower case, as std's `str::to_lowercase` has it.
pub uninterp spec fn lowercase_text(text: Seq<char>) -> Seq<char>;

/// `str::to_lowercase` gives a text in lower case.
#[verifier::external_body]
fn lowercase(text: &str) -> (lower: String)
    ensures
        lower@ == lowercase_text(text@),
{
    text.to_lowercase()
}

/// Whether a device name, if it can be told, has `part` in it.
pub open spec fn name_has(name: Option<String>, part: Seq<char>) -> bool {
    name is Some && has_substring(name->0@, part)
}

/// The first name that has `part` in it.
pub fn first_match(names: &Vec<Option<String>>, part: &str) -> (at: Option<usize>)
    ensures
        at matches Some(i) ==> {
            &&& i < names@.len()
            &&& name_has(names@[i as int], part@)
            &&& forall|k: int| 0 <= k < i ==> !name_has(#[trigger] names@[k], part@)
        },
        at is None ==> forall|k: int|
            0 <= k < names@.len() ==> !name_has(#[trigger] names@[k], part@),
{
    let mut i: usize = 0;
    while i < names.len()
        invariant
            i <= names@.len(),
            forall|k: int| 0 <= k < i ==> !name_has(#[trigger] names@[k], part@),
        decreases names@.len() - i,
    {
        if let Some(name) = &names[i] {
            if contains_text(name.as_str(), part) {
                return Some(i);
            }
        }
        i += 1;
    }
    None
}

/// Whether a device name, if it can be told, has `wanted` in it, in whatever
/// case.
pub open spec fn name_matches(name: Option<String>, wanted: Seq<char>) -> bool {
    name is Some && has_substring(lowercase_text(name->0@), lowercase_text(wanted))
}

/// What is said when no device matches, given the quoted name.
pub open spec fn no_device(quoted_name: Seq<char>) -> Seq<char> {
    "no output device matching "@ + quoted_name + " (see --list-devices)"@
}

/// The first output device whose name has `wanted` in it, in whatever case.
pub fn pick_device(names: &Vec<Option<String>>, wanted: &str) -> (at: Result<usize, String>)
    ensures
        at matches Ok(i) ==> {
            &&& i < names@.len()
            &&& name_matches(names@[i as int], wanted@)
            &&& forall|k: int| 0 <= k < i ==> !name_matches(#[trigger] names@[k], wanted@)
        },
        at matches Err(message) ==> {
            &&& forall|k: int| 0 <= k < names@.len() ==> !name_matches(
                #[trigger] names@[k],
                wanted@,
            )
            &&& message@ == no_device(debug_text(wanted@))
        },
{
    let mut lower: Vec<Option<String>> = Vec::new();
    let mut i: usize = 0;
    while i < names.len()
        invariant
            i <= names@.len(),
            lower@.len() == i,
            forall|k: int|
                0 <= k < i ==> (#[trigger] lower@[k] is Some <==> names@[k] is Some) && (
                lower@[k] is Some ==> lower@[k]->0@ == lowercase_text(names@[k]->0@)),
        decreases names@.len() - i,
    {
        let name = match &names[i] {
            Some(name) => Some(lowercase(name.as_str())),
            None => None,
        };
        lower.push(name);
        i += 1;
    }
    let needle = lowercase(wanted);
    assert(forall|k: int|
        0 <= k < names@.len() ==> name_has(lower@[k], needle@) == name_matches(
            #[trigger] names@[k],
            wanted@,
        ));
    match first_match(&lower, needle.as_str()) {
        Some(at) => {
            assert(name_matches(names@[at as int], wanted@));
            Ok(at)
        },
        None => {
            let mut message = "no output device matching ".to_owned();
            message.append(quoted(wanted).as_str());
            message.append(" (see --list-devices)");
            Err(message)
        },
    }
}

/// A preset at the start puts every band at the preset's gain and the switch
/// on, and leaves everything else alone.
pub proof fn start_preset_sets_the_gains(eq: EqView, i: int, band: int)
    requires
        0 <= i < PRESET_COUNT,
        eq.bands.len() == 10,
        0 <= band < 10,
    ensures
        ({
            let after = at_preset(eq, i);
            &&& after.enabled
            &&& after.bands.len() == 10
            &&& after.bands[band].gain == 10 * preset_gains(i)[band]
            &&& after.bands[band].cutoff == eq.bands[band].cutoff
            &&& after.bands[band].q == eq.bands[band].q
            &&& after.bass == eq.bass
            &&& after.treble == eq.treble
        }),
{
    crate::presets::gains_apply_exactly(i, eq, band);
}

/// A preset at the start is asked for in three steps: its gains, the switch on,
/// and a save.
pub proof fn start_preset_asks(i: int)
    ensures
        preset_edits(i).len() == 3,
        preset_edits(i)[0] == Edit::Gains(preset_gains(i)),
        preset_edits(i)[1] == Edit::Enabled(true),
        preset_edits(i)[2] is Save,
{
}

/// Stdin is called by its name, any other input by its path.
pub proof fn inputs_have_names(input: Seq<char>)
    ensures
        input_name("-"@) == "stdin"@,
        input != "-"@ ==> input_name(input) == input,
{
}

/// A port on the command line goes before the one in the settings.
pub proof fn given_ports_go_first(port: Option<u16>, other: Option<u16>)
    ensures
        port is Some ==> port_or(port, other) == port,
        port is None ==> port_or(port, other) == other,
{
}

/// A device is found by any part of its name, in whatever case, and by nothing
/// else; one whose name cannot be told is not found.
pub proof fn devices_are_found_by_part(name: Option<String>, wanted: Seq<char>)
    ensures
        name is None ==> !name_matches(name, wanted) && !name_has(name, wanted),
        name matches Some(text) ==> {
            &&& name_has(name, wanted) <==> exists|before: Seq<char>, behind: Seq<char>|
                #[trigger] (before + wanted + behind) == text@
            &&& name_matches(name, wanted) <==> exists|before: Seq<char>, behind: Seq<char>|
                #[trigger] (before + lowercase_text(wanted) + behind) == lowercase_text(text@)
        },
{
    if let Some(text) = name {
        parts_occur_in_texts(text@, wanted);
        parts_occur_in_texts(lowercase_text(text@), lowercase_text(wanted));
    }
}

/// What is said of a device that is not there.
pub proof fn missing_devices_are_told(quoted_name: Seq<char>)
    ensures
        no_device(quoted_name) == "no output device matching "@ + quoted_name
            + " (see --list-devices)"@,
{
}

} // verus!
