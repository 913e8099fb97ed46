//! The input side of the pipeline, as decisions between reads: what to do
//! with what came in, when to hand the settings to the DSP again, and when to
//! stop. Opening, reading and sending are done by whoever drives it.

use rockbox_dsp::Dsp;
use vstd::prelude::*;

use crate::audio::{
    bytes_are_cut_at_frames, decode_samples, fold_stereo, frames_ignore_splits, joined,
    partial_frame, reads_do_not_show, stereo, stereo_by_reads, update_peaks, whole_frames,
    whole_frames_are_whole_samples, with_peaks, AudioStatus, PcmFormat, STATE_ENDED,
    STATE_STREAMING, STATE_WAITING,
};
use crate::control::text_of;
use crate::dsp::{
    dsp_after, dsp_config, dsp_flushed, dsp_output, dsp_with_input, flush, in_rate_for, kept_rate,
    new_dsp, out_rate_for, process, rates_advance, set_input_frequency, DspConfig,
};
use crate::equalizer::{
    applied, configured, following_is_being_set, follows, EqState, Equalizer,
};

verus! {

/// What the pipeline reads, and the rate that it plays at.
pub struct PipelineConfig {
    /// `-` for stdin, otherwise a file, FIFO or unix socket path.
    pub input: String,
    pub in_rate: u32,
    pub channels: usize,
    pub format: PcmFormat,
    pub out_rate: u32,
}

impl PipelineConfig {
    /// How many bytes one sample of every channel takes.
    pub open spec fn frame_len(self) -> int {
        self.format.sample_len() * self.channels
    }

    /// Whether this can be played: at least one channel, frames that fit in
    /// memory, rates that the resampler gets through.
    pub open spec fn playable(self) -> bool {
        &&& self.channels >= 1
        &&& self.frame_len() <= usize::MAX
        &&& rates_advance(
            in_rate_for(self.in_rate, out_rate_for(self.out_rate)),
            out_rate_for(self.out_rate),
        )
    }

    /// Whether this can be played.
    pub fn is_playable(&self) -> (yes: bool)
        ensures
            yes == self.playable(),
    {
        if self.channels == 0 {
            return false;
        }
        let width: usize = self.format.bytes_per_sample();
        if width.checked_mul(self.channels).is_none() {
            return false;
        }
        let out: u64 = kept_rate(self.out_rate) as u64;
        let inp: u64 = if self.in_rate == 0 || self.in_rate as u64 > isize::MAX as u64 {
            out
        } else {
            self.in_rate as u64
        };
        inp == out || (inp * 65536 / out) % 0x1_0000_0000 != 0
    }

    /// How many bytes one sample of every channel takes.
    pub fn frame_bytes(&self) -> (n: usize)
        requires
            self.playable(),
        ensures
            n == self.frame_len(),
            n >= 1,
    {
        proof {
            let w = self.format.sample_len();
            let c = self.channels as int;
            assert(w * c >= 1) by (nonlinear_arith)
                requires
                    w >= 1,
                    c >= 1,
            ;
        }
        self.format.bytes_per_sample() * self.channels
    }

    /// How many bytes to ask for per read: about 10 ms of input, and at least
    /// 128 frames.
    pub fn chunk_bytes(&self) -> (n: u128)
        requires
            self.playable(),
        ensures
            n == (if self.in_rate / 100 < 128 {
                128
            } else {
                (self.in_rate / 100) as int
            }) * self.frame_len(),
    {
        let frames: u32 = if self.in_rate / 100 < 128 {
            128
        } else {
            self.in_rate / 100
        };
        let frame: usize = self.frame_bytes();
        proof {
            assert(frames * frame <= 0xffff_ffff * 0xffff_ffff_ffff_ffff) by (nonlinear_arith)
                requires
                    frames <= 0xffff_ffff,
                    frame <= 0xffff_ffff_ffff_ffff,
            ;
        }
        (frames as u128) * (frame as u128)
    }
}

/// The reader's state between two events.
pub struct Reader {
    pub cfg: PipelineConfig,
    /// The pipeline that the samples go through.
    pub dsp: Dsp,
    /// The equalizer version that was last handed to the DSP.
    pub applied: u64,
    /// Bytes of a frame that is not complete yet.
    pub pending: Vec<u8>,
    /// Whether the open input is a FIFO, which is opened again at its end.
    pub fifo: bool,
}

/// What happened outside.
pub enum ReaderEvent {
    /// The reader was started.
    Started,
    /// The input is open.
    Opened { fifo: bool },
    /// The input cannot be opened, and why.
    OpenFailed(String),
    /// Bytes came in.
    Data(Vec<u8>),
    /// The input is at its end.
    EndOfInput,
    /// A read was interrupted before anything came in.
    Interrupted,
    /// A read failed, and why.
    ReadFailed(String),
    /// The chunk was handed to the output side.
    Sent,
    /// The output side is gone.
    HungUp,
}

/// What to do next.
pub enum ReaderAction {
    /// Open the input.
    Open,
    /// Read from the open input.
    Read,
    /// Hand a chunk to the output side.
    Send(Vec<i16>),
    /// The reader is done.
    Stop,
}

/// The DSP configuration after `eq` was handed over again if it has changed.
pub open spec fn refreshed(config: DspConfig, applied: u64, eq: EqState) -> DspConfig {
    if eq.version != applied {
        configured(config, eq)
    } else {
        config
    }
}

/// The DSP after `eq` was handed over again if it has changed.
pub open spec fn refreshed_dsp(dsp: Dsp, version: u64, eq: EqState) -> Dsp {
    if eq.version != version {
        applied(dsp, eq)
    } else {
        dsp
    }
}

/// The status while audio is flowing.
pub open spec fn streaming(status: AudioStatus) -> AudioStatus {
    AudioStatus { state: STATE_STREAMING, ..status }
}

/// The status after the chunk `out` was made.
pub open spec fn with_chunk(status: AudioStatus, out: Seq<i16>) -> AudioStatus {
    AudioStatus {
        queued: status.queued.wrapping_add(out.len() as usize),
        ..with_peaks(streaming(status), out)
    }
}

impl Reader {
    /// The configuration is playable, the DSP runs at its rates, and less than
    /// one frame is pending.
    pub open spec fn wf(self) -> bool {
        &&& self.cfg.playable()
        &&& dsp_config(self.dsp).out_rate == out_rate_for(self.cfg.out_rate)
        &&& dsp_config(self.dsp).in_rate == in_rate_for(
            self.cfg.in_rate,
            out_rate_for(self.cfg.out_rate),
        )
        &&& self.pending@.len() < self.cfg.frame_len()
    }

    /// The stereo samples that `bytes` complete.
    pub open spec fn completed(self, bytes: Seq<u8>) -> Seq<i16> {
        stereo(
            whole_frames(self.pending@ + bytes, self.cfg.frame_len()),
            self.cfg.format,
            self.cfg.channels as int,
        )
    }

    /// The DSP that the next chunk goes through.
    pub open spec fn ready(self, eq: EqState) -> Dsp {
        refreshed_dsp(self.dsp, self.applied, eq)
    }

    /// What `bytes` leave behind: the DSP after the frames that they complete
    /// went through it, once, and the bytes of the frame that they begin.
    pub open spec fn absorbs(self, after: Reader, bytes: Seq<u8>, eq: EqState) -> bool {
        let frames = self.completed(bytes);
        &&& after.cfg == self.cfg
        &&& after.fifo == self.fifo
        &&& after.pending@ == partial_frame(self.pending@ + bytes, self.cfg.frame_len())
        &&& after.applied == eq.version
        &&& after.dsp == (if frames.len() == 0 {
            self.ready(eq)
        } else {
            dsp_after(self.ready(eq), frames)
        })
    }

    /// What a `Data` event does. With no complete frame there is nothing to
    /// play yet; with no output of the DSP neither.
    pub open spec fn takes_data(
        self,
        after: Reader,
        bytes: Seq<u8>,
        eq: EqState,
        status: AudioStatus,
        status_after: AudioStatus,
        action: ReaderAction,
    ) -> bool {
        let frames = self.completed(bytes);
        let out = dsp_output(self.ready(eq), frames);
        &&& self.absorbs(after, bytes, eq)
        &&& dsp_config(after.dsp) == refreshed(dsp_config(self.dsp), self.applied, eq)
        &&& if frames.len() == 0 || out.len() == 0 {
            action is Read && status_after == streaming(status)
        } else {
            &&& action is Send
            &&& action->Send_0@ == out
            &&& status_after == with_chunk(status, out)
        }
    }

    /// What a step does.
    pub open spec fn steps(
        self,
        after: Reader,
        event: ReaderEvent,
        eq: EqState,
        status: AudioStatus,
        status_after: AudioStatus,
        action: ReaderAction,
    ) -> bool {
        match event {
            ReaderEvent::Started => {
                &&& after == self
                &&& status_after == (AudioStatus { state: STATE_WAITING, ..status })
                &&& action is Open
            },
            ReaderEvent::Opened { fifo } => {
                &&& after == (Reader { fifo, ..self })
                &&& status_after == status
                &&& action is Read
            },
            ReaderEvent::OpenFailed(why) => {
                &&& after == self
                &&& status_after.error is Some
                &&& status_after.error->0@ == "cannot open "@ + self.cfg.input@ + ": "@ + why@
                &&& status_after == (AudioStatus {
                    state: STATE_ENDED,
                    error: status_after.error,
                    ..status
                })
                &&& action is Stop
            },
            ReaderEvent::Data(bytes) => self.takes_data(
                after,
                bytes@,
                eq,
                status,
                status_after,
                action,
            ),
            ReaderEvent::EndOfInput => if self.fifo {
                &&& after.pending@.len() == 0
                &&& after.dsp == dsp_flushed(self.dsp)
                &&& dsp_config(after.dsp) == dsp_config(self.dsp)
                &&& after == (Reader { pending: after.pending, dsp: after.dsp, ..self })
                &&& status_after == (AudioStatus { state: STATE_WAITING, ..status })
                &&& action is Open
            } else {
                &&& after == self
                &&& status_after == (AudioStatus { state: STATE_ENDED, ..status })
                &&& action is Stop
            },
            ReaderEvent::Interrupted => {
                &&& after == self
                &&& status_after == status
                &&& action is Read
            },
            ReaderEvent::ReadFailed(why) => {
                &&& after == self
                &&& status_after.error is Some
                &&& status_after.error->0@ == "read error: "@ + why@
                &&& status_after == (AudioStatus {
                    state: STATE_ENDED,
                    error: status_after.error,
                    ..status
                })
                &&& action is Stop
            },
            ReaderEvent::Sent => {
                &&& after == self
                &&& status_after == status
                &&& action is Read
            },
            ReaderEvent::HungUp => {
                &&& after == self
                &&& status_after == (AudioStatus { state: STATE_ENDED, ..status })
                &&& action is Stop
            },
        }
    }

    /// A reader whose DSP follows `eq`.
    ///
    /// The DSP is one static pipeline of the process, so a process makes one
    /// reader and no other `Dsp` handle: what is said of a reader, here and by
    /// its methods, does not hold once there is a second one.
    pub fn new(cfg: PipelineConfig, eq: &Equalizer) -> (reader: Reader)
        requires
            cfg.playable(),
            eq@.fits(out_rate_for(cfg.out_rate)),
        ensures
            reader.wf(),
            reader.cfg == cfg,
            reader.pending@.len() == 0,
            !reader.fifo,
            reader.applied == eq@.version,
            exists|made: Dsp|
                {
                    &&& dsp_config(made).out_rate == out_rate_for(cfg.out_rate)
                    &&& reader.dsp == applied(#[trigger] dsp_with_input(made, cfg.in_rate), eq@)
                },
            follows(dsp_config(reader.dsp), eq@),
    {
        let mut dsp = new_dsp(cfg.out_rate);
        set_input_frequency(&mut dsp, cfg.in_rate);
        let ghost before = dsp_config(dsp);
        eq.apply_to(&mut dsp);
        proof {
            crate::equalizer::configured_follows(before, eq@);
        }
        let frame: usize = cfg.frame_bytes();
        assert(frame >= 1);
        Reader { cfg, dsp, applied: eq.version(), pending: Vec::new(), fifo: false }
    }

    /// Hand the settings to the DSP again if they have changed.
    pub fn refresh(&mut self, eq: &Equalizer)
        requires
            old(self).wf(),
            eq@.version != old(self).applied ==> eq@.fits(out_rate_for(old(self).cfg.out_rate)),
        ensures
            final(self).wf(),
            final(self).dsp == old(self).ready(eq@),
            dsp_config(final(self).dsp) == refreshed(
                dsp_config(old(self).dsp),
                old(self).applied,
                eq@,
            ),
            *final(self) == (Reader {
                dsp: final(self).dsp,
                applied: eq@.version,
                ..*old(self)
            }),
    {
        let version: u64 = eq.version();
        if version != self.applied {
            eq.apply_to(&mut self.dsp);
            self.applied = version;
        }
    }

    /// Take `bytes` in, and give out the stereo samples that they complete.
    pub fn take_stereo(&mut self, bytes: Vec<u8>) -> (out: Vec<i16>)
        requires
            old(self).wf(),
        ensures
            final(self).wf(),
            out@ == old(self).completed(bytes@),
            out@.len() % 2 == 0,
            final(self).pending@ == partial_frame(
                old(self).pending@ + bytes@,
                old(self).cfg.frame_len(),
            ),
            *final(self) == (Reader { pending: final(self).pending, ..*old(self) }),
    {
        let mut bytes = bytes;
        let ghost all = self.pending@ + bytes@;
        let frame: usize = self.cfg.frame_bytes();
        self.pending.append(&mut bytes);
        assert(self.pending@ =~= all);
        let len: usize = self.pending.len();
        proof {
            vstd::arithmetic::div_mod::lemma_mod_bound(len as int, frame as int);
            vstd::arithmetic::div_mod::lemma_mod_decreases(len as nat, frame as nat);
        }
        let usable: usize = len - len % frame;
        let rest: Vec<u8> = self.pending.split_off(usable);
        let mut samples: Vec<i16> = Vec::new();
        decode_samples(self.pending.as_slice(), self.cfg.format, &mut samples);
        let mut out: Vec<i16> = Vec::new();
        fold_stereo(samples.as_slice(), self.cfg.channels, &mut out);
        assert(self.pending@ =~= whole_frames(all, frame as int));
        assert(rest@ =~= partial_frame(all, frame as int));
        proof {
            let w = self.cfg.format.sample_len();
            let c = self.cfg.channels as int;
            vstd::arithmetic::div_mod::lemma_fundamental_div_mod(len as int, frame as int);
            vstd::arithmetic::div_mod::lemma_mod_multiples_basic(
                len as int / frame as int,
                frame as int,
            );
            assert(frame * (len as int / frame as int) == (len as int / frame as int) * frame)
                by (nonlinear_arith);
            whole_frames_are_whole_samples(usable as int, w, c);
        }
        self.pending = rest;
        out
    }

    /// One step: what to do after `event`.
    pub fn step(
        &mut self,
        event: ReaderEvent,
        eq: &Equalizer,
        status: &mut AudioStatus,
    ) -> (action: ReaderAction)
        requires
            old(self).wf(),
            event is Data && eq@.version != old(self).applied ==> eq@.fits(
                out_rate_for(old(self).cfg.out_rate),
            ),
        ensures
            final(self).wf(),
            old(self).steps(*final(self), event, eq@, *old(status), *final(status), action),
    {
        match event {
            ReaderEvent::Started => {
                status.set_state(STATE_WAITING);
                ReaderAction::Open
            },
            ReaderEvent::Opened { fifo } => {
                self.fifo = fifo;
                ReaderAction::Read
            },
            ReaderEvent::OpenFailed(why) => {
                let msg = "cannot open ".to_owned().concat(self.cfg.input.as_str()).concat(
                    ": ",
                ).concat(why.as_str());
                status.set_error(msg);
                status.set_state(STATE_ENDED);
                ReaderAction::Stop
            },
            ReaderEvent::Data(bytes) => {
                status.set_state(STATE_STREAMING);
                self.refresh(eq);
                let frames = self.take_stereo(bytes);
                if frames.len() == 0 {
                    return ReaderAction::Read;
                }
                let ghost dsp = self.dsp;
                let mut out: Vec<i16> = Vec::new();
                process(&mut self.dsp, frames.as_slice(), &mut out);
                assert(out@ =~= dsp_output(dsp, frames@));
                if out.len() == 0 {
                    return ReaderAction::Read;
                }
                update_peaks(out.as_slice(), status);
                status.add_queued(out.len());
                ReaderAction::Send(out)
            },
            ReaderEvent::EndOfInput => {
                if !self.fifo {
                    status.set_state(STATE_ENDED);
                    return ReaderAction::Stop;
                }
                self.pending.clear();
                flush(&mut self.dsp);
                status.set_state(STATE_WAITING);
                ReaderAction::Open
            },
            ReaderEvent::Interrupted => ReaderAction::Read,
            ReaderEvent::ReadFailed(why) => {
                status.set_error("read error: ".to_owned().concat(why.as_str()));
                status.set_state(STATE_ENDED);
                ReaderAction::Stop
            },
            ReaderEvent::Sent => ReaderAction::Read,
            ReaderEvent::HungUp => {
                status.set_state(STATE_ENDED);
                ReaderAction::Stop
            },
        }
    }
}

/// Whether the DSP of `reader` follows `eq`, as far as the versions tell.
pub open spec fn tracks(reader: Reader, eq: EqState) -> bool {
    reader.applied == eq.version ==> follows(dsp_config(reader.dsp), eq)
}

/// After every chunk the DSP follows the equalizer: a change is in force for
/// the first chunk that comes in after it.
pub proof fn data_follows_equalizer(
    reader: Reader,
    after: Reader,
    bytes: Vec<u8>,
    eq: EqState,
    status: AudioStatus,
    status_after: AudioStatus,
    action: ReaderAction,
)
    requires
        tracks(reader, eq),
        reader.steps(after, ReaderEvent::Data(bytes), eq, status, status_after, action),
    ensures
        after.applied == eq.version,
        follows(dsp_config(after.dsp), eq),
        tracks(after, eq),
{
    crate::equalizer::configured_follows(dsp_config(reader.dsp), eq);
}

/// Only the end of a FIFO opens the input again; the end of anything else, an
/// error and a lost output end the reader for good.
pub proof fn ends_are_final(
    reader: Reader,
    after: Reader,
    event: ReaderEvent,
    eq: EqState,
    status: AudioStatus,
    status_after: AudioStatus,
    action: ReaderAction,
)
    requires
        reader.steps(after, event, eq, status, status_after, action),
    ensures
        action is Open ==> event is Started || (event is EndOfInput && reader.fifo),
        action is Open ==> status_after.state == STATE_WAITING,
        action is Stop <==> event is OpenFailed || event is ReadFailed || event is HungUp || (
        event is EndOfInput && !reader.fifo),
        action is Stop ==> status_after.state == STATE_ENDED,
        status_after.state == STATE_ENDED && status.state != STATE_ENDED ==> action is Stop,
{
}

/// Where the output runs at the input's rate, nothing is resampled, for the
/// rates that the DSP runs at.
pub proof fn equal_rates_do_not_resample(cfg: PipelineConfig)
    requires
        cfg.out_rate == cfg.in_rate,
        8000 <= cfg.in_rate <= 96000,
    ensures
        out_rate_for(cfg.out_rate) == cfg.in_rate,
        in_rate_for(cfg.in_rate, out_rate_for(cfg.out_rate)) == out_rate_for(cfg.out_rate),
        cfg.channels >= 1 && cfg.frame_len() <= usize::MAX ==> cfg.playable(),
{
}

/// The chunks of stereo samples that go through the DSP, one for each read
/// that completes a frame, where `pending` was left over before the reads.
pub open spec fn fed_chunks(
    pending: Seq<u8>,
    reads: Seq<Seq<u8>>,
    format: PcmFormat,
    channels: int,
) -> Seq<Seq<i16>>
    decreases reads.len(),
{
    if reads.len() == 0 {
        seq![]
    } else {
        let frame = format.sample_len() * channels;
        let first = stereo(whole_frames(pending + reads[0], frame), format, channels);
        let rest = fed_chunks(
            partial_frame(pending + reads[0], frame),
            reads.skip(1),
            format,
            channels,
        );
        if first.len() == 0 {
            rest
        } else {
            seq![first] + rest
        }
    }
}

/// The samples of `chunks`, one after another.
pub open spec fn all_samples(chunks: Seq<Seq<i16>>) -> Seq<i16>
    decreases chunks.len(),
{
    if chunks.len() == 0 {
        seq![]
    } else {
        chunks[0] + all_samples(chunks.skip(1))
    }
}

/// The DSP after `chunks` went through it, in order.
pub open spec fn dsp_after_all(dsp: Dsp, chunks: Seq<Seq<i16>>) -> Dsp
    decreases chunks.len(),
{
    if chunks.len() == 0 {
        dsp
    } else {
        dsp_after_all(dsp_after(dsp, chunks[0]), chunks.skip(1))
    }
}

/// The chunks hold the complete frames of the reads, nothing more and nothing
/// twice, however the reads were cut.
pub proof fn chunks_hold_the_frames(
    pending: Seq<u8>,
    reads: Seq<Seq<u8>>,
    format: PcmFormat,
    channels: int,
)
    requires
        channels >= 1,
        pending.len() < format.sample_len() * channels,
    ensures
        all_samples(fed_chunks(pending, reads, format, channels)) == stereo(
            whole_frames(pending + joined(reads), format.sample_len() * channels),
            format,
            channels,
        ),
{
    chunks_are_stereo(pending, reads, format, channels);
    reads_do_not_show(pending, reads, format, channels);
}

/// The chunks hold the stereo samples of the reads.
proof fn chunks_are_stereo(
    pending: Seq<u8>,
    reads: Seq<Seq<u8>>,
    format: PcmFormat,
    channels: int,
)
    ensures
        all_samples(fed_chunks(pending, reads, format, channels)) == stereo_by_reads(
            pending,
            reads,
            format,
            channels,
        ),
    decreases reads.len(),
{
    if reads.len() > 0 {
        let frame = format.sample_len() * channels;
        let first = stereo(whole_frames(pending + reads[0], frame), format, channels);
        let left = partial_frame(pending + reads[0], frame);
        let rest = fed_chunks(left, reads.skip(1), format, channels);
        chunks_are_stereo(left, reads.skip(1), format, channels);
        if first.len() == 0 {
            assert(first + all_samples(rest) =~= all_samples(rest));
        } else {
            assert((seq![first] + rest).skip(1) =~= rest);
        }
    }
}

/// However the input is cut into reads, its complete frames go through the
/// DSP, each of them once and in order, and only an incomplete last frame is
/// left over. `readers` are the states from before the first read to after
/// the last one, while the equalizer stays as it is.
pub proof fn stream_goes_through_once(readers: Seq<Reader>, reads: Seq<Seq<u8>>, eq: EqState)
    requires
        readers.len() == reads.len() + 1,
        reads.len() > 0,
        readers[0].cfg.channels >= 1,
        readers[0].pending@.len() < readers[0].cfg.frame_len(),
        forall|i: int|
            0 <= i < reads.len() ==> (#[trigger] readers[i]).absorbs(readers[i + 1], reads[i], eq),
    ensures
        ({
            let cfg = readers[0].cfg;
            let pending = readers[0].pending@;
            let chunks = fed_chunks(pending, reads, cfg.format, cfg.channels as int);
            let all = pending + joined(reads);
            &&& readers.last().dsp == dsp_after_all(readers[0].ready(eq), chunks)
            &&& all_samples(chunks) == stereo(
                whole_frames(all, cfg.frame_len()),
                cfg.format,
                cfg.channels as int,
            )
            &&& readers.last().pending@ == partial_frame(all, cfg.frame_len())
        }),
    decreases reads.len(),
{
    let cfg = readers[0].cfg;
    let channels = cfg.channels as int;
    let frame = cfg.frame_len();
    let pending = readers[0].pending@;
    chunks_hold_the_frames(pending, reads, cfg.format, channels);
    assert(readers[0].absorbs(readers[1], reads[0], eq));
    let first = readers[0].completed(reads[0]);
    let left = partial_frame(pending + reads[0], frame);
    let rest = reads.skip(1);
    let later = readers.skip(1);
    let rest_chunks = fed_chunks(left, rest, cfg.format, channels);
    reveal_with_fuel(joined, 2);
    assert(pending + joined(reads) =~= (pending + reads[0]) + joined(rest));
    if reads.len() == 1 {
        assert(rest_chunks =~= seq![]);
        assert(joined(rest) =~= seq![]);
        assert(pending + joined(reads) =~= pending + reads[0]);
        assert(readers.last() == readers[1]);
        if first.len() > 0 {
            assert((seq![first] + rest_chunks).skip(1) =~= seq![]);
            reveal_with_fuel(dsp_after_all, 2);
        }
    } else {
        assert forall|i: int| 0 <= i < rest.len() implies (#[trigger] later[i]).absorbs(
            later[i + 1],
            rest[i],
            eq,
        ) by {
            assert(readers[i + 1].absorbs(readers[i + 2], reads[i + 1], eq));
        }
        vstd::arithmetic::div_mod::lemma_mod_bound((pending + reads[0]).len() as int, frame);
        vstd::arithmetic::div_mod::lemma_mod_decreases(
            (pending + reads[0]).len(),
            frame as nat,
        );
        stream_goes_through_once(later, rest, eq);
        assert(later[0].ready(eq) == readers[1].dsp);
        assert(readers.last() == later.last());
        frames_ignore_splits(pending + reads[0], joined(rest), frame);
        if first.len() > 0 {
            assert((seq![first] + rest_chunks).skip(1) =~= rest_chunks);
        }
    }
}

/// Two runs over the same bytes feed the DSP the same samples, wherever either
/// of them cuts the bytes into reads.
pub proof fn cuts_do_not_show(
    pending: Seq<u8>,
    reads: Seq<Seq<u8>>,
    others: Seq<Seq<u8>>,
    format: PcmFormat,
    channels: int,
)
    requires
        channels >= 1,
        pending.len() < format.sample_len() * channels,
        joined(reads) == joined(others),
    ensures
        all_samples(fed_chunks(pending, reads, format, channels)) == all_samples(
            fed_chunks(pending, others, format, channels),
        ),
{
    chunks_hold_the_frames(pending, reads, format, channels);
    chunks_hold_the_frames(pending, others, format, channels);
}

/// At the end of a FIFO what is left of a frame is dropped and the DSP is
/// flushed, so that the next writer's first byte begins a frame.
pub proof fn next_writer_starts_afresh(
    reader: Reader,
    after: Reader,
    eq: EqState,
    status: AudioStatus,
    status_after: AudioStatus,
    action: ReaderAction,
    bytes: Seq<u8>,
)
    requires
        reader.fifo,
        reader.steps(after, ReaderEvent::EndOfInput, eq, status, status_after, action),
    ensures
        action is Open,
        status_after.state == STATE_WAITING,
        after.dsp == dsp_flushed(reader.dsp),
        after.completed(bytes) == stereo(
            whole_frames(bytes, reader.cfg.frame_len()),
            reader.cfg.format,
            reader.cfg.channels as int,
        ),
{
    assert(after.pending@ + bytes =~= bytes);
}

/// A frame is one sample of every channel: two, three, four, four or eight
/// bytes for each, by format.
pub proof fn frames_hold_every_channel(cfg: PipelineConfig)
    ensures
        cfg.format == PcmFormat::S16le ==> cfg.frame_len() == 2 * cfg.channels,
        cfg.format == PcmFormat::S24le ==> cfg.frame_len() == 3 * cfg.channels,
        cfg.format == PcmFormat::S32le ==> cfg.frame_len() == 4 * cfg.channels,
        cfg.format == PcmFormat::F32le ==> cfg.frame_len() == 4 * cfg.channels,
        cfg.format == PcmFormat::F64le ==> cfg.frame_len() == 8 * cfg.channels,
{
}

/// What can be played: one channel or more, a frame that can be addressed, and
/// an input rate that is the output rate or that the resampler moves at.
pub proof fn what_is_playable(cfg: PipelineConfig)
    requires
        8000 <= cfg.out_rate <= 96000,
        0 < cfg.in_rate <= isize::MAX,
    ensures
        cfg.playable() <==> cfg.channels >= 1 && cfg.frame_len() <= usize::MAX && (cfg.in_rate
            == cfg.out_rate || (cfg.in_rate * 65536 / cfg.out_rate as int) % 0x1_0000_0000 != 0),
{
}

/// What bytes do. With those left over from before they are cut at the last
/// whole frame. The samples of the whole frames go through the DSP, which is
/// first handed the equalizer where its version is another than the last one
/// handed over, and what the DSP makes of them is sent on. The status says that
/// audio is flowing, counts what is sent, and takes its peaks.
pub proof fn data_goes_through_the_dsp(
    reader: Reader,
    after: Reader,
    bytes: Vec<u8>,
    eq: EqState,
    status: AudioStatus,
    status_after: AudioStatus,
    action: ReaderAction,
)
    requires
        reader.cfg.channels >= 1,
        reader.steps(after, ReaderEvent::Data(bytes), eq, status, status_after, action),
    ensures
        ({
            let all = reader.pending@ + bytes@;
            let frame = reader.cfg.frame_len();
            let whole = all.take(all.len() - after.pending@.len());
            let samples = stereo(whole, reader.cfg.format, reader.cfg.channels as int);
            let dsp = if eq.version == reader.applied {
                reader.dsp
            } else {
                applied(reader.dsp, eq)
            };
            let out = dsp_output(dsp, samples);
            &&& after.pending@.len() < frame
            &&& whole + after.pending@ == all
            &&& whole.len() as int % frame == 0
            &&& after.applied == eq.version
            &&& after.cfg == reader.cfg
            &&& after.fifo == reader.fifo
            &&& samples.len() == 0 ==> after.dsp == dsp
            &&& samples.len() > 0 ==> after.dsp == dsp_after(dsp, samples)
            &&& samples.len() == 0 || out.len() == 0 ==> action is Read && status_after == (
            AudioStatus { state: 1, ..status })
            &&& samples.len() > 0 && out.len() > 0 ==> {
                &&& action is Send
                &&& action->Send_0@ == out
                &&& status_after.state == 1
                &&& status_after.error == status.error
                &&& status_after.frames_played == status.frames_played
                &&& status.queued + out.len() <= usize::MAX ==> status_after.queued == status.queued
                    + out.len()
                &&& status_after.peak_l == with_peaks(status, out).peak_l
                &&& status_after.peak_r == with_peaks(status, out).peak_r
            }
        }),
{
    let all = reader.pending@ + bytes@;
    let frame = reader.cfg.frame_len();
    let w = reader.cfg.format.sample_len();
    let c = reader.cfg.channels as int;
    assert(frame >= 1) by (nonlinear_arith)
        requires
            frame == w * c,
            w >= 1,
            c >= 1,
    ;
    bytes_are_cut_at_frames(all, frame);
    vstd::arithmetic::div_mod::lemma_mod_bound(all.len() as int, frame);
    vstd::arithmetic::div_mod::lemma_mod_decreases(all.len(), frame as nat);
    assert(all.take(all.len() - after.pending@.len()) =~= whole_frames(all, frame));
}

/// What happens to the input otherwise. It is opened at the start, read once it
/// is open and after every chunk, and an interrupted read is taken up again.
/// An error is told with its reason and ends the reader, and so does a lost
/// output. At its end a FIFO is opened again with nothing left over and the DSP
/// flushed, anything else ends the reader.
pub proof fn events_lead_on(
    reader: Reader,
    after: Reader,
    event: ReaderEvent,
    eq: EqState,
    status: AudioStatus,
    status_after: AudioStatus,
    action: ReaderAction,
)
    requires
        reader.steps(after, event, eq, status, status_after, action),
    ensures
        !(event is Data) && !(event is EndOfInput) && !(event is Opened) ==> after == reader,
        event is Started ==> action is Open && status_after.state == 0,
        event matches ReaderEvent::Opened { fifo } ==> {
            &&& action is Read
            &&& after.fifo == fifo
            &&& after.dsp == reader.dsp
            &&& after.pending == reader.pending
            &&& after.applied == reader.applied
            &&& status_after == status
        },
        event is Interrupted || event is Sent ==> action is Read && status_after == status,
        event is OpenFailed || event is ReadFailed || event is HungUp ==> action is Stop
            && status_after.state == 2,
        event matches ReaderEvent::OpenFailed(why) ==> text_of(status_after.error) == Some(
            "cannot open "@ + reader.cfg.input@ + ": "@ + why@,
        ),
        event matches ReaderEvent::ReadFailed(why) ==> text_of(status_after.error) == Some(
            "read error: "@ + why@,
        ),
        !(event is OpenFailed) && !(event is ReadFailed) ==> status_after.error == status.error,
        event is EndOfInput && !reader.fifo ==> action is Stop && status_after.state == 2 && after
            == reader,
        event is EndOfInput && reader.fifo ==> {
            &&& action is Open
            &&& status_after.state == 0
            &&& after.pending@.len() == 0
            &&& after.dsp == dsp_flushed(reader.dsp)
            &&& after.applied == reader.applied
            &&& after.fifo
        },
        !(event is Data) ==> {
            &&& status_after.queued == status.queued
            &&& status_after.frames_played == status.frames_played
            &&& status_after.peak_l == status.peak_l
            &&& status_after.peak_r == status.peak_r
        },
{
}

/// A chunk goes through a DSP that is set to the equalizer as it is then, where
/// every change has moved the version.
pub proof fn chunks_are_filtered_as_shown(
    reader: Reader,
    after: Reader,
    bytes: Vec<u8>,
    eq: EqState,
    status: AudioStatus,
    status_after: AudioStatus,
    action: ReaderAction,
    i: int,
)
    requires
        tracks(reader, eq),
        reader.steps(after, ReaderEvent::Data(bytes), eq, status, status_after, action),
        0 <= i < 10,
        i < eq.view.bands.len(),
    ensures
        ({
            let config = dsp_config(after.dsp);
            &&& config.eq_on == eq.view.enabled
            &&& config.bands[i].cutoff == eq.view.bands[i].cutoff
            &&& config.bands[i].q == eq.view.bands[i].q
            &&& config.bands[i].gain == eq.view.bands[i].gain
            &&& config.shelves.bass == eq.view.bass
            &&& config.shelves.treble == eq.view.treble
        }),
{
    data_follows_equalizer(reader, after, bytes, eq, status, status_after, action);
    following_is_being_set(dsp_config(after.dsp), eq, i);
}

} // verus!
