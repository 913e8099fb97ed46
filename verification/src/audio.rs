//! The audio path: raw PCM bytes become interleaved stereo samples, go
//! through the DSP, and leave in chunks that the output side plays back.

use vstd::prelude::*;

use crate::sample::{
    f32_sample, f64_sample, float_sample, read_u32, read_u64, s16_sample, signed, u16_at, u24_at,
    u32_at, u64_at,
};

verus! {

/// Raw PCM sample encodings accepted on the input, all little-endian.
#[derive(Debug, Clone, Copy, PartialEq, Eq, Structural)]
pub enum PcmFormat {
    S16le,
    S24le,
    S32le,
    F32le,
    F64le,
}

impl PcmFormat {
    /// How many bytes one sample takes.
    pub open spec fn sample_len(self) -> int {
        match self {
            PcmFormat::S16le => 2,
            PcmFormat::S24le => 3,
            PcmFormat::S32le => 4,
            PcmFormat::F32le => 4,
            PcmFormat::F64le => 8,
        }
    }

    /// The format's name on the command line.
    pub open spec fn name(self) -> Seq<char> {
        match self {
            PcmFormat::S16le => "s16le"@,
            PcmFormat::S24le => "s24le"@,
            PcmFormat::S32le => "s32le"@,
            PcmFormat::F32le => "f32le"@,
            PcmFormat::F64le => "f64le"@,
        }
    }

    /// How many bytes one sample takes.
    pub fn bytes_per_sample(self) -> (n: usize)
        ensures
            n == self.sample_len(),
            self == PcmFormat::S16le ==> n == 2,
            self == PcmFormat::S24le ==> n == 3,
            self == PcmFormat::S32le ==> n == 4,
            self == PcmFormat::F32le ==> n == 4,
            self == PcmFormat::F64le ==> n == 8,
    {
        match self {
            PcmFormat::S16le => 2,
            PcmFormat::S24le => 3,
            PcmFormat::S32le => 4,
            PcmFormat::F32le => 4,
            PcmFormat::F64le => 8,
        }
    }

    /// The format's name on the command line.
    pub fn label(self) -> (name: &'static str)
        ensures
            name@ == self.name(),
            self == PcmFormat::S16le ==> name@ == "s16le"@,
            self == PcmFormat::S24le ==> name@ == "s24le"@,
            self == PcmFormat::S32le ==> name@ == "s32le"@,
            self == PcmFormat::F32le ==> name@ == "f32le"@,
            self == PcmFormat::F64le ==> name@ == "f64le"@,
    {
        match self {
            PcmFormat::S16le => "s16le",
            PcmFormat::S24le => "s24le",
            PcmFormat::S32le => "s32le",
            PcmFormat::F32le => "f32le",
            PcmFormat::F64le => "f64le",
        }
    }
}

/// The sample at byte `at`. Integers keep their top 16 bits.
pub open spec fn sample_at(bytes: Seq<u8>, at: int, format: PcmFormat) -> int {
    match format {
        PcmFormat::S16le => signed(u16_at(bytes, at), 0x1_0000),
        PcmFormat::S24le => signed(u24_at(bytes, at), 0x100_0000) / 256,
        PcmFormat::S32le => signed(u32_at(bytes, at), 0x1_0000_0000) / 65536,
        PcmFormat::F32le => float_sample(u32_at(bytes, at), 8, 23),
        PcmFormat::F64le => float_sample(u64_at(bytes, at), 11, 52),
    }
}

/// The samples in `bytes`; an incomplete sample at the end is left out.
pub open spec fn decoded(bytes: Seq<u8>, format: PcmFormat) -> Seq<i16> {
    Seq::new(
        (bytes.len() / format.sample_len() as nat) as nat,
        |i: int| sample_at(bytes, i * format.sample_len(), format) as i16,
    )
}

/// The sample at byte `at`.
fn decode_one(bytes: &[u8], at: usize, format: PcmFormat) -> (sample: i16)
    requires
        at + format.sample_len() <= bytes.len(),
    ensures
        sample == sample_at(bytes@, at as int, format),
{
    match format {
        PcmFormat::S16le => s16_sample(bytes[at], bytes[at + 1]),
        PcmFormat::S24le => s16_sample(bytes[at + 1], bytes[at + 2]),
        PcmFormat::S32le => s16_sample(bytes[at + 2], bytes[at + 3]),
        PcmFormat::F32le => f32_sample(read_u32(bytes, at)),
        PcmFormat::F64le => f64_sample(read_u64(bytes, at)),
    }
}

/// Decode little-endian raw PCM into 16-bit samples.
pub fn decode_samples(bytes: &[u8], format: PcmFormat, out: &mut Vec<i16>)
    ensures
        final(out)@ == decoded(bytes@, format),
        format == PcmFormat::S16le ==> {
            &&& final(out)@.len() == bytes@.len() / 2
            &&& forall|i: int, v: int| #![trigger final(out)@[i], word_at(bytes@, 2 * i, 2, v)]
                0 <= i < final(out)@.len() && word_at(bytes@, 2 * i, 2, v) && -0x8000 <= v < 0x8000
                    ==> final(out)@[i] == v
        },
        format == PcmFormat::S24le ==> {
            &&& final(out)@.len() == bytes@.len() / 3
            &&& forall|i: int, v: int| #![trigger final(out)@[i], word_at(bytes@, 3 * i, 3, v)]
                0 <= i < final(out)@.len() && word_at(bytes@, 3 * i, 3, v) && -0x80_0000 <= v
                    < 0x80_0000 ==> 256 * final(out)@[i] <= v < 256 * (final(out)@[i] + 1)
        },
        format == PcmFormat::S32le ==> {
            &&& final(out)@.len() == bytes@.len() / 4
            &&& forall|i: int, v: int| #![trigger final(out)@[i], word_at(bytes@, 4 * i, 4, v)]
                0 <= i < final(out)@.len() && word_at(bytes@, 4 * i, 4, v) && -0x8000_0000 <= v
                    < 0x8000_0000 ==> 65536 * final(out)@[i] <= v < 65536 * (final(out)@[i] + 1)
        },
{
    out.clear();
    let width: usize = format.bytes_per_sample();
    let count: usize = bytes.len() / width;
    let mut i: usize = 0;
    let mut at: usize = 0;
    while i < count
        invariant
            i <= count,
            width == format.sample_len(),
            count == bytes@.len() / width as nat,
            at == i * width,
            count * width <= bytes.len(),
            out@ == decoded(bytes@, format).take(i as int),
        decreases count - i,
    {
        assert(at + width <= bytes.len()) by (nonlinear_arith)
            requires
                at == i * width,
                i < count,
                count * width <= bytes.len(),
        ;
        out.push(decode_one(bytes, at, format));
        assert(out@ =~= decoded(bytes@, format).take(i + 1));
        assert((i + 1) * width == i * width + width) by (nonlinear_arith);
        i += 1;
        at += width;
    }
    assert(decoded(bytes@, format).take(count as int) =~= decoded(bytes@, format));
    proof {
        assert forall|i: int, v: int| #![trigger out@[i], word_at(bytes@, 2 * i, 2, v)]
            format == PcmFormat::S16le && 0 <= i < out@.len() && word_at(bytes@, 2 * i, 2, v)
                && -0x8000 <= v < 0x8000 implies out@[i] == v by {
            s16_is_read_back(bytes@, i, v);
        }
        assert forall|i: int, v: int| #![trigger out@[i], word_at(bytes@, 3 * i, 3, v)]
            format == PcmFormat::S24le && 0 <= i < out@.len() && word_at(bytes@, 3 * i, 3, v)
                && -0x80_0000 <= v < 0x80_0000 implies 256 * out@[i] <= v < 256 * (out@[i] + 1) by {
            s24_keeps_its_top(bytes@, i, v);
        }
        assert forall|i: int, v: int| #![trigger out@[i], word_at(bytes@, 4 * i, 4, v)]
            format == PcmFormat::S32le && 0 <= i < out@.len() && word_at(bytes@, 4 * i, 4, v)
                && -0x8000_0000 <= v < 0x8000_0000 implies 65536 * out@[i] <= v < 65536 * (out@[i]
            + 1) by {
            s32_keeps_its_top(bytes@, i, v);
        }
    }
}

/// Whether the `width` bytes at `at` are those of `v`, low byte first.
pub open spec fn word_at(bytes: Seq<u8>, at: int, width: int, v: int) -> bool {
    &&& 0 <= at && at + width <= bytes.len()
    &&& width > 0 ==> bytes[at] == v % 256
    &&& width > 1 ==> bytes[at + 1] == v / 256 % 256
    &&& width > 2 ==> bytes[at + 2] == v / 65536 % 256
    &&& width > 3 ==> bytes[at + 3] == v / 16777216 % 256
}

/// A 16-bit number is read as it was written.
pub proof fn s16_is_read_back(bytes: Seq<u8>, i: int, v: int)
    requires
        0 <= i,
        2 * i + 2 <= bytes.len(),
        bytes[2 * i] == v % 256,
        bytes[2 * i + 1] == v / 256 % 256,
        -0x8000 <= v < 0x8000,
    ensures
        i < decoded(bytes, PcmFormat::S16le).len(),
        decoded(bytes, PcmFormat::S16le)[i] == v,
{
    let low = v % 256;
    let high = v / 256 % 256;
    assert(low + 256 * high == (if v < 0 {
        v + 0x1_0000
    } else {
        v
    }));
    assert(i * 2 == 2 * i);
    assert(u16_at(bytes, i * 2) == low + 256 * high);
    assert(sample_at(bytes, i * 2, PcmFormat::S16le) == v);
    assert(PcmFormat::S16le.sample_len() == 2 && i < bytes.len() / 2);
    assert(decoded(bytes, PcmFormat::S16le)[i] == v);
}

/// A 24-bit number is cut to its top 16 bits: the sample that times 256 is the
/// last one not above it.
pub proof fn s24_keeps_its_top(bytes: Seq<u8>, i: int, v: int)
    requires
        0 <= i,
        3 * i + 3 <= bytes.len(),
        bytes[3 * i] == v % 256,
        bytes[3 * i + 1] == v / 256 % 256,
        bytes[3 * i + 2] == v / 65536 % 256,
        -0x80_0000 <= v < 0x80_0000,
    ensures
        i < decoded(bytes, PcmFormat::S24le).len(),
        256 * decoded(bytes, PcmFormat::S24le)[i] <= v < 256 * (decoded(bytes, PcmFormat::S24le)[i]
            + 1),
{
    let low = v % 256;
    let middle = v / 256 % 256;
    let high = v / 65536 % 256;
    assert(v / 65536 == v / 256 / 256);
    assert(low + 256 * middle + 65536 * high == (if v < 0 {
        v + 0x100_0000
    } else {
        v
    }));
    assert(i * 3 == 3 * i);
    assert(u24_at(bytes, i * 3) == low + 256 * middle + 65536 * high);
    assert(sample_at(bytes, i * 3, PcmFormat::S24le) == v / 256);
    assert(PcmFormat::S24le.sample_len() == 3 && i < bytes.len() / 3);
    assert(decoded(bytes, PcmFormat::S24le)[i] == v / 256);
}

/// A 32-bit number is cut to its top 16 bits: the sample that times 65536 is
/// the last one not above it.
pub proof fn s32_keeps_its_top(bytes: Seq<u8>, i: int, v: int)
    requires
        0 <= i,
        4 * i + 4 <= bytes.len(),
        bytes[4 * i] == v % 256,
        bytes[4 * i + 1] == v / 256 % 256,
        bytes[4 * i + 2] == v / 65536 % 256,
        bytes[4 * i + 3] == v / 16777216 % 256,
        -0x8000_0000 <= v < 0x8000_0000,
    ensures
        i < decoded(bytes, PcmFormat::S32le).len(),
        65536 * decoded(bytes, PcmFormat::S32le)[i] <= v < 65536 * (decoded(
            bytes,
            PcmFormat::S32le,
        )[i] + 1),
{
    let b0 = v % 256;
    let b1 = v / 256 % 256;
    let b2 = v / 65536 % 256;
    let b3 = v / 16777216 % 256;
    assert(v / 65536 == v / 256 / 256);
    assert(v / 16777216 == v / 65536 / 256);
    assert(b0 + 256 * b1 + 65536 * b2 + 16777216 * b3 == (if v < 0 {
        v + 0x1_0000_0000
    } else {
        v
    }));
    assert(i * 4 == 4 * i);
    assert(u32_at(bytes, i * 4) == b0 + 256 * b1 + 65536 * b2 + 16777216 * b3);
    assert(sample_at(bytes, i * 4, PcmFormat::S32le) == v / 65536);
    assert(PcmFormat::S32le.sample_len() == 4 && i < bytes.len() / 4);
    assert(decoded(bytes, PcmFormat::S32le)[i] == v / 65536);
}

/// A floating-point number is read from its own four or eight bytes, low byte
/// first, by its sign, exponent and fraction bits.
pub proof fn floats_are_read_in_place(bytes: Seq<u8>, i: int, word: int)
    requires
        0 <= i,
    ensures
        4 * i + 4 <= bytes.len() && word == bytes[4 * i] + 256 * bytes[4 * i + 1] + 65536 * bytes[4
            * i + 2] + 16777216 * bytes[4 * i + 3] ==> {
            &&& i < decoded(bytes, PcmFormat::F32le).len()
            &&& decoded(bytes, PcmFormat::F32le)[i] == float_sample(word, 8, 23) as i16
        },
        8 * i + 8 <= bytes.len() && word == bytes[8 * i] + 256 * bytes[8 * i + 1] + 65536 * bytes[8
            * i + 2] + 16777216 * bytes[8 * i + 3] + 0x1_0000_0000 * (bytes[8 * i + 4] + 256
            * bytes[8 * i + 5] + 65536 * bytes[8 * i + 6] + 16777216 * bytes[8 * i + 7]) ==> {
            &&& i < decoded(bytes, PcmFormat::F64le).len()
            &&& decoded(bytes, PcmFormat::F64le)[i] == float_sample(word, 11, 52) as i16
        },
{
    if 4 * i + 4 <= bytes.len() && word == u32_at(bytes, i * 4) {
        assert(PcmFormat::F32le.sample_len() == 4 && i < bytes.len() / 4);
        assert(sample_at(bytes, i * 4, PcmFormat::F32le) == float_sample(word, 8, 23));
    }
    if 8 * i + 8 <= bytes.len() && word == u64_at(bytes, i * 8) {
        assert(PcmFormat::F64le.sample_len() == 8 && i < bytes.len() / 8);
        assert(sample_at(bytes, i * 8, PcmFormat::F64le) == float_sample(word, 11, 52));
    }
}

/// As many samples come out as there are whole ones in the bytes.
pub proof fn whole_samples_come_out(bytes: Seq<u8>)
    ensures
        decoded(bytes, PcmFormat::S16le).len() == bytes.len() / 2,
        decoded(bytes, PcmFormat::S24le).len() == bytes.len() / 3,
        decoded(bytes, PcmFormat::S32le).len() == bytes.len() / 4,
        decoded(bytes, PcmFormat::F32le).len() == bytes.len() / 4,
        decoded(bytes, PcmFormat::F64le).len() == bytes.len() / 8,
{
}

/// The bytes of `samples` as `s16le`.
pub open spec fn s16le_bytes(samples: Seq<i16>) -> Seq<u8> {
    Seq::new(
        2 * samples.len(),
        |i: int|
            if i % 2 == 0 {
                ((samples[i / 2] as int) % 256) as u8
            } else {
                ((samples[i / 2] as int) / 256 % 256) as u8
            },
    )
}

/// Encode samples as `s16le`, the format that pipes are written in.
pub fn encode_s16le(samples: &[i16]) -> (bytes: Vec<u8>)
    ensures
        bytes@ == s16le_bytes(samples@),
        bytes@.len() == 2 * samples@.len(),
        forall|i: int| #![trigger samples@[i]]
            0 <= i < samples@.len() ==> word_at(bytes@, 2 * i, 2, samples@[i] as int),
{
    let mut bytes: Vec<u8> = Vec::new();
    let mut i: usize = 0;
    while i < samples.len()
        invariant
            i <= samples@.len(),
            bytes@ == s16le_bytes(samples@.take(i as int)),
        decreases samples@.len() - i,
    {
        let word: i32 = if samples[i] < 0 {
            samples[i] as i32 + 65536
        } else {
            samples[i] as i32
        };
        bytes.push((word % 256) as u8);
        bytes.push((word / 256) as u8);
        assert(bytes@ =~= s16le_bytes(samples@.take(i + 1)));
        i += 1;
    }
    assert(samples@.take(i as int) =~= samples@);
    proof {
        assert forall|i: int| #![trigger samples@[i]] 0 <= i < samples@.len() implies word_at(
            bytes@,
            2 * i,
            2,
            samples@[i] as int,
        ) by {
            samples_are_written_low_byte_first(samples@, i);
        }
    }
    bytes
}

/// Every sample is written as two bytes, the low one first.
pub proof fn samples_are_written_low_byte_first(samples: Seq<i16>, i: int)
    requires
        0 <= i < samples.len(),
    ensures
        s16le_bytes(samples).len() == 2 * samples.len(),
        s16le_bytes(samples)[2 * i] == samples[i] as int % 256,
        s16le_bytes(samples)[2 * i + 1] == samples[i] as int / 256 % 256,
{
    assert((2 * i) / 2 == i && (2 * i + 1) / 2 == i && (2 * i + 1) % 2 == 1);
}

/// Samples written as `s16le` read back unchanged.
pub proof fn s16le_round_trip(samples: Seq<i16>)
    ensures
        decoded(s16le_bytes(samples), PcmFormat::S16le) == samples,
{
    let bytes = s16le_bytes(samples);
    assert(PcmFormat::S16le.sample_len() == 2);
    assert(bytes.len() / 2 == samples.len());
    assert forall|i: int| 0 <= i < samples.len() implies #[trigger] decoded(
        bytes,
        PcmFormat::S16le,
    )[i] == samples[i] by {
        let s = samples[i] as int;
        assert((2 * i) / 2 == i && (2 * i + 1) / 2 == i && (2 * i + 1) % 2 == 1);
        assert(bytes[i * 2] as int == s % 256);
        assert(bytes[i * 2 + 1] as int == s / 256 % 256);
        assert(sample_at(bytes, i * 2, PcmFormat::S16le) == s);
    }
    assert(decoded(bytes, PcmFormat::S16le) =~= samples);
}

/// Interleaved stereo from interleaved `channels`-channel samples: mono is
/// doubled, more than two channels keep the front pair.
pub open spec fn folded(samples: Seq<i16>, channels: int) -> Seq<i16> {
    if channels == 1 {
        Seq::new(2 * samples.len(), |i: int| samples[i / 2])
    } else if channels == 2 {
        samples
    } else {
        Seq::new(
            (2 * (samples.len() as int / channels)) as nat,
            |i: int| samples[(i / 2) * channels + i % 2],
        )
    }
}

/// Fold interleaved samples to interleaved stereo.
pub fn fold_stereo(samples: &[i16], channels: usize, out: &mut Vec<i16>)
    requires
        channels >= 1,
    ensures
        final(out)@ == folded(samples@, channels as int),
        channels == 1 ==> {
            &&& final(out)@.len() == 2 * samples@.len()
            &&& forall|f: int| #![trigger samples@[f]]
                0 <= f < samples@.len() ==> final(out)@[2 * f] == samples@[f] && final(out)@[2 * f
                    + 1] == samples@[f]
        },
        channels == 2 ==> final(out)@ == samples@,
        channels >= 3 ==> {
            &&& final(out)@.len() == 2 * (samples@.len() as int / channels as int)
            &&& forall|f: int| #![trigger final(out)@[2 * f]]
                0 <= f < samples@.len() as int / channels as int ==> final(out)@[2 * f]
                    == samples@[f * channels] && final(out)@[2 * f + 1] == samples@[f * channels
                    + 1]
        },
{
    out.clear();
    if channels == 1 {
        let mut i: usize = 0;
        while i < samples.len()
            invariant
                i <= samples@.len(),
                out@ == folded(samples@.take(i as int), 1),
            decreases samples@.len() - i,
        {
            out.push(samples[i]);
            out.push(samples[i]);
            assert(out@ =~= folded(samples@.take(i + 1), 1));
            i += 1;
        }
        assert(samples@.take(i as int) =~= samples@);
    } else if channels == 2 {
        out.extend_from_slice(samples);
        assert(out@ =~= samples@);
    } else {
        let frames: usize = samples.len() / channels;
        let mut i: usize = 0;
        let mut at: usize = 0;
        assert(frames * channels <= samples.len()) by (nonlinear_arith)
            requires
                frames == samples.len() / channels,
                channels >= 1,
        ;
        while i < frames
            invariant
                i <= frames,
                channels > 2,
                frames == samples@.len() as int / channels as int,
                frames * channels <= samples.len(),
                at == i * channels,
                out@ == folded(samples@, channels as int).take(2 * i),
            decreases frames - i,
        {
            assert(at + channels <= samples.len()) by (nonlinear_arith)
                requires
                    at == i * channels,
                    i < frames,
                    frames * channels <= samples.len(),
            ;
            out.push(samples[at]);
            out.push(samples[at + 1]);
            assert((2 * i) / 2 == i && (2 * i + 1) / 2 == i);
            assert(out@ =~= folded(samples@, channels as int).take(2 * (i + 1)));
            assert((i + 1) * channels == i * channels + channels) by (nonlinear_arith);
            i += 1;
            at += channels;
        }
        assert(folded(samples@, channels as int).take(2 * frames) =~= folded(
            samples@,
            channels as int,
        ));
    }
    proof {
        assert forall|f: int| #![trigger samples@[f]] channels == 1 && 0 <= f
            < samples@.len() implies out@[2 * f] == samples@[f] && out@[2 * f + 1] == samples@[f] by {
            mono_is_doubled(samples@, f);
        }
        assert forall|f: int| #![trigger out@[2 * f]] channels >= 3 && 0 <= f < samples@.len() as int
            / channels as int implies out@[2 * f] == samples@[f * channels] && out@[2 * f + 1]
            == samples@[f * channels + 1] by {
            front_pair_is_kept(samples@, channels as int, f);
        }
    }
}

/// A mono sample comes out on both sides.
pub proof fn mono_is_doubled(samples: Seq<i16>, f: int)
    requires
        0 <= f < samples.len(),
    ensures
        folded(samples, 1).len() == 2 * samples.len(),
        folded(samples, 1)[2 * f] == samples[f],
        folded(samples, 1)[2 * f + 1] == samples[f],
{
    assert((2 * f) / 2 == f && (2 * f + 1) / 2 == f);
}

/// Of every whole frame the first two channels come out, in order, whatever
/// number of channels there are.
pub proof fn front_pair_is_kept(samples: Seq<i16>, channels: int, f: int)
    requires
        channels >= 2,
        0 <= f < samples.len() as int / channels,
    ensures
        samples.len() % 2 == 0 || channels > 2 ==> folded(samples, channels).len() == 2 * (
        samples.len() as int / channels),
        folded(samples, channels)[2 * f] == samples[f * channels],
        folded(samples, channels)[2 * f + 1] == samples[f * channels + 1],
{
    assert((2 * f) / 2 == f && (2 * f + 1) / 2 == f && (2 * f + 1) % 2 == 1);
}

/// The whole frames at the start of `bytes`.
pub open spec fn whole_frames(bytes: Seq<u8>, frame: int) -> Seq<u8> {
    bytes.take(bytes.len() - bytes.len() as int % frame)
}

/// What is left of `bytes` after the whole frames.
pub open spec fn partial_frame(bytes: Seq<u8>, frame: int) -> Seq<u8> {
    bytes.skip(bytes.len() - bytes.len() as int % frame)
}

/// Bytes are cut where the last whole frame ends: the pieces make up the whole,
/// the first is whole frames, and the second is less than one.
pub proof fn bytes_are_cut_at_frames(bytes: Seq<u8>, frame: int)
    requires
        frame >= 1,
    ensures
        whole_frames(bytes, frame) + partial_frame(bytes, frame) == bytes,
        whole_frames(bytes, frame).len() as int % frame == 0,
        partial_frame(bytes, frame).len() < frame,
{
    let n = bytes.len() as int;
    vstd::arithmetic::div_mod::lemma_fundamental_div_mod(n, frame);
    vstd::arithmetic::div_mod::lemma_mod_bound(n, frame);
    vstd::arithmetic::div_mod::lemma_mod_multiples_basic(n / frame, frame);
    vstd::arithmetic::div_mod::lemma_mod_decreases(n as nat, frame as nat);
    assert(frame * (n / frame) == (n / frame) * frame) by (nonlinear_arith);
    assert(whole_frames(bytes, frame) + partial_frame(bytes, frame) =~= bytes);
}

/// The stereo samples in `bytes`.
pub open spec fn stereo(bytes: Seq<u8>, format: PcmFormat, channels: int) -> Seq<i16> {
    folded(decoded(bytes, format), channels)
}

/// What comes out for a frame is what its own bytes decode to: left from the
/// first sample of the frame, right from the second, or from the only one.
pub proof fn frames_come_out_in_place(bytes: Seq<u8>, format: PcmFormat, channels: int, f: int)
    requires
        channels >= 1,
        0 <= f < decoded(bytes, format).len() as int / channels,
    ensures
        ({
            let out = stereo(bytes, format, channels);
            let samples = decoded(bytes, format);
            &&& 2 * f + 1 < out.len()
            &&& out[2 * f] == samples[f * channels]
            &&& out[2 * f + 1] == samples[f * channels + (if channels == 1 {
                0
            } else {
                1int
            })]
        }),
{
    let samples = decoded(bytes, format);
    if channels == 1 {
        mono_is_doubled(samples, f);
    } else {
        front_pair_is_kept(samples, channels, f);
        vstd::arithmetic::div_mod::lemma_fundamental_div_mod(samples.len() as int, channels);
    }
}

/// Splitting the input in two, at any byte, does not show in the frames: the
/// frames of the first piece, then those of its remainder and the second
/// piece, are the frames of the whole, with the same remainder.
pub proof fn frames_ignore_splits(first: Seq<u8>, second: Seq<u8>, frame: int)
    requires
        frame >= 1,
    ensures
        whole_frames(first, frame) + whole_frames(partial_frame(first, frame) + second, frame)
            == whole_frames(first + second, frame),
        partial_frame(partial_frame(first, frame) + second, frame) == partial_frame(
            first + second,
            frame,
        ),
{
    let n = first.len() as int;
    let m = second.len() as int;
    vstd::arithmetic::div_mod::lemma_mod_bound(n, frame);
    vstd::arithmetic::div_mod::lemma_add_mod_noop_right(m, n, frame);
    vstd::arithmetic::div_mod::lemma_mod_bound(n + m, frame);
    vstd::arithmetic::div_mod::lemma_mod_decreases((n + m) as nat, frame as nat);
    vstd::arithmetic::div_mod::lemma_mod_decreases(n as nat, frame as nat);
    let carried = partial_frame(first, frame) + second;
    assert(carried.len() == n % frame + m);
    vstd::arithmetic::div_mod::lemma_mod_decreases(carried.len(), frame as nat);
    assert(carried.len() as int % frame == (n + m) % frame);
    assert(whole_frames(first, frame) + whole_frames(carried, frame) =~= whole_frames(
        first + second,
        frame,
    ));
    assert(partial_frame(carried, frame) =~= partial_frame(first + second, frame));
}

/// Decoding works piece by piece, where the first piece is whole samples.
pub proof fn decoded_concat(first: Seq<u8>, second: Seq<u8>, format: PcmFormat)
    requires
        first.len() as int % format.sample_len() == 0,
    ensures
        decoded(first + second, format) == decoded(first, format) + decoded(second, format),
{
    let w = format.sample_len();
    let all = first + second;
    let n = first.len() as int / w;
    assert(first.len() == n * w && all.len() as int / w == n + second.len() as int / w) by {
        match format {
            PcmFormat::S16le => {},
            PcmFormat::S24le => {},
            PcmFormat::S32le => {},
            PcmFormat::F32le => {},
            PcmFormat::F64le => {},
        }
    }
    assert forall|i: int| 0 <= i < all.len() as int / w implies #[trigger] decoded(all, format)[i]
        == (decoded(first, format) + decoded(second, format))[i] by {
        if i < n {
            assert(i * w + w <= n * w) by (nonlinear_arith)
                requires
                    i + 1 <= n,
                    w >= 1,
            ;
            assert(sample_at(all, i * w, format) == sample_at(first, i * w, format));
        } else {
            let k = i - n;
            assert(i * w == first.len() + k * w) by (nonlinear_arith)
                requires
                    first.len() == n * w,
                    k == i - n,
            ;
            assert(k * w + w <= second.len()) by (nonlinear_arith)
                requires
                    k + 1 <= second.len() as int / w,
                    w >= 1,
            ;
            assert(0 <= k * w) by (nonlinear_arith)
                requires
                    k >= 0,
                    w >= 1,
            ;
            assert(sample_at(all, i * w, format) == sample_at(second, k * w, format));
        }
    }
    assert(decoded(all, format) =~= decoded(first, format) + decoded(second, format));
}

/// Folding works piece by piece, where the first piece is whole frames.
pub proof fn folded_concat(first: Seq<i16>, second: Seq<i16>, channels: int)
    requires
        channels >= 1,
        first.len() as int % channels == 0,
    ensures
        folded(first + second, channels) == folded(first, channels) + folded(second, channels),
{
    let all = first + second;
    if channels > 2 {
        let n = first.len() as int / channels;
        vstd::arithmetic::div_mod::lemma_fundamental_div_mod(first.len() as int, channels);
        assert(channels * n == n * channels) by (nonlinear_arith);
        vstd::arithmetic::div_mod::lemma_hoist_over_denominator(
            second.len() as int,
            n,
            channels as nat,
        );
        assert(all.len() as int / channels == n + second.len() as int / channels);
        assert forall|i: int| 0 <= i < folded(all, channels).len() implies #[trigger] folded(
            all,
            channels,
        )[i] == (folded(first, channels) + folded(second, channels))[i] by {
            if i < 2 * n {
                assert((i / 2) * channels + channels <= n * channels) by (nonlinear_arith)
                    requires
                        i / 2 + 1 <= n,
                        channels >= 1,
                ;
                assert(0 <= (i / 2) * channels) by (nonlinear_arith)
                    requires
                        i / 2 >= 0,
                        channels >= 1,
                ;
            } else {
                let k = i - 2 * n;
                assert(k / 2 == i / 2 - n && k % 2 == i % 2);
                assert((i / 2) * channels == first.len() + (k / 2) * channels) by (nonlinear_arith)
                    requires
                        first.len() == n * channels,
                        k / 2 == i / 2 - n,
                ;
                assert(0 <= (k / 2) * channels) by (nonlinear_arith)
                    requires
                        k / 2 >= 0,
                        channels >= 1,
                ;
                assert((k / 2) * channels + channels <= second.len()) by (nonlinear_arith)
                    requires
                        k / 2 + 1 <= second.len() as int / channels,
                        channels >= 1,
                ;
            }
        }
        assert(folded(all, channels) =~= folded(first, channels) + folded(second, channels));
    } else {
        assert(folded(all, channels) =~= folded(first, channels) + folded(second, channels));
    }
}

/// A byte count of whole frames is whole samples, and whole frames of them.
pub proof fn whole_frames_are_whole_samples(len: int, width: int, channels: int)
    requires
        len >= 0,
        width >= 1,
        channels >= 1,
        len % (width * channels) == 0,
    ensures
        len % width == 0,
        (len / width) % channels == 0,
{
    let frame = width * channels;
    assert(frame >= 1) by (nonlinear_arith)
        requires
            frame == width * channels,
            width >= 1,
            channels >= 1,
    ;
    let k = len / frame;
    vstd::arithmetic::div_mod::lemma_fundamental_div_mod(len, frame);
    assert(len == (k * channels) * width) by (nonlinear_arith)
        requires
            len == frame * k,
            frame == width * channels,
    ;
    vstd::arithmetic::div_mod::lemma_mod_multiples_basic(k * channels, width);
    vstd::arithmetic::div_mod::lemma_div_multiples_vanish(k * channels, width);
    assert(width * (k * channels) == (k * channels) * width) by (nonlinear_arith);
    vstd::arithmetic::div_mod::lemma_mod_multiples_basic(k, channels);
}

/// How the input is cut into reads does not show in the audio: the stereo
/// samples of the pieces, each with the remainder before it, are the stereo
/// samples of the whole.
pub proof fn stereo_ignores_splits(
    first: Seq<u8>,
    second: Seq<u8>,
    format: PcmFormat,
    channels: int,
)
    requires
        channels >= 1,
    ensures
        ({
            let frame = format.sample_len() * channels;
            stereo(whole_frames(first, frame), format, channels) + stereo(
                whole_frames(partial_frame(first, frame) + second, frame),
                format,
                channels,
            ) == stereo(whole_frames(first + second, frame), format, channels)
        }),
{
    let w = format.sample_len();
    let frame = w * channels;
    assert(frame >= 1) by (nonlinear_arith)
        requires
            frame == w * channels,
            w >= 1,
            channels >= 1,
    ;
    let a = whole_frames(first, frame);
    let b = whole_frames(partial_frame(first, frame) + second, frame);
    frames_ignore_splits(first, second, frame);
    let n = first.len() as int;
    vstd::arithmetic::div_mod::lemma_fundamental_div_mod(n, frame);
    vstd::arithmetic::div_mod::lemma_mod_bound(n, frame);
    vstd::arithmetic::div_mod::lemma_mod_multiples_basic(n / frame, frame);
    assert(frame * (n / frame) == (n / frame) * frame) by (nonlinear_arith);
    vstd::arithmetic::div_mod::lemma_mod_decreases(n as nat, frame as nat);
    assert(a.len() as int % frame == 0);
    whole_frames_are_whole_samples(a.len() as int, w, channels);
    decoded_concat(a, b, format);
    folded_concat(decoded(a, format), decoded(b, format), channels);
}

/// The bytes of `reads`, one after another.
pub open spec fn joined(reads: Seq<Seq<u8>>) -> Seq<u8>
    decreases reads.len(),
{
    if reads.len() == 0 {
        seq![]
    } else {
        reads[0] + joined(reads.skip(1))
    }
}

/// The stereo samples that `reads` give, read by read, where `pending` was
/// left over before them.
pub open spec fn stereo_by_reads(
    pending: Seq<u8>,
    reads: Seq<Seq<u8>>,
    format: PcmFormat,
    channels: int,
) -> Seq<i16>
    decreases reads.len(),
{
    if reads.len() == 0 {
        seq![]
    } else {
        let frame = format.sample_len() * channels;
        stereo(whole_frames(pending + reads[0], frame), format, channels) + stereo_by_reads(
            partial_frame(pending + reads[0], frame),
            reads.skip(1),
            format,
            channels,
        )
    }
}

/// Whatever the reads were, together they give the stereo samples of all
/// their bytes in one piece.
pub proof fn reads_do_not_show(
    pending: Seq<u8>,
    reads: Seq<Seq<u8>>,
    format: PcmFormat,
    channels: int,
)
    requires
        channels >= 1,
        pending.len() < format.sample_len() * channels,
    ensures
        stereo_by_reads(pending, reads, format, channels) == stereo(
            whole_frames(pending + joined(reads), format.sample_len() * channels),
            format,
            channels,
        ),
    decreases reads.len(),
{
    let frame = format.sample_len() * channels;
    if reads.len() == 0 {
        vstd::arithmetic::div_mod::lemma_small_mod(pending.len(), frame as nat);
        assert(pending + joined(reads) =~= pending);
        assert(whole_frames(pending, frame) =~= seq![]);
        assert(stereo(seq![], format, channels) =~= seq![]) by {
            assert(decoded(seq![], format) =~= seq![]);
            vstd::arithmetic::div_mod::lemma_div_of0(channels);
        }
    } else {
        let first = pending + reads[0];
        let rest = reads.skip(1);
        let n = first.len() as int;
        vstd::arithmetic::div_mod::lemma_mod_bound(n, frame);
        vstd::arithmetic::div_mod::lemma_mod_decreases(n as nat, frame as nat);
        reads_do_not_show(partial_frame(first, frame), rest, format, channels);
        stereo_ignores_splits(first, joined(rest), format, channels);
        assert(first + joined(rest) =~= pending + joined(reads));
    }
}

/// Waiting for a writer or for the first bytes.
pub const STATE_WAITING: u8 = 0;

/// Audio is flowing.
pub const STATE_STREAMING: u8 = 1;

/// The input is over.
pub const STATE_ENDED: u8 = 2;

/// Telemetry of the pipeline for the status line.
pub struct AudioStatus {
    /// Processed samples on their way from the DSP to the output.
    pub queued: usize,
    /// Highest level per channel since the display last took it.
    pub peak_l: i32,
    pub peak_r: i32,
    /// Frames played.
    pub frames_played: u64,
    /// One of the `STATE_*` values.
    pub state: u8,
    /// The error that ended the input, if one did.
    pub error: Option<String>,
}

/// `value` or `other`, whichever is higher.
pub open spec fn higher(value: int, other: int) -> int {
    if value >= other {
        value
    } else {
        other
    }
}

/// The highest magnitude of one channel in the first `frames` stereo frames.
pub open spec fn channel_peak(samples: Seq<i16>, channel: int, frames: nat) -> int
    decreases frames,
{
    if frames == 0 {
        0
    } else {
        let s = samples[2 * (frames - 1) + channel] as int;
        higher(
            channel_peak(samples, channel, (frames - 1) as nat),
            if s < 0 {
                -s
            } else {
                s
            },
        )
    }
}

/// No sample of the channel is above its peak, and the peak is within the
/// 16-bit range.
pub proof fn channel_peak_bounds(samples: Seq<i16>, channel: int, frames: nat)
    ensures
        0 <= channel_peak(samples, channel, frames) <= 32768,
        forall|k: int|
            0 <= k < frames ==> -channel_peak(samples, channel, frames) <= #[trigger] samples[2 * k
                + channel] <= channel_peak(samples, channel, frames),
    decreases frames,
{
    if frames > 0 {
        channel_peak_bounds(samples, channel, (frames - 1) as nat);
    }
}

impl AudioStatus {
    /// Nothing played yet, waiting for input.
    pub fn new() -> (status: Self)
        ensures
            status == (AudioStatus {
                queued: 0,
                peak_l: 0,
                peak_r: 0,
                frames_played: 0,
                state: STATE_WAITING,
                error: None,
            }),
    {
        AudioStatus {
            queued: 0,
            peak_l: 0,
            peak_r: 0,
            frames_played: 0,
            state: STATE_WAITING,
            error: None,
        }
    }

    /// Enter `state`.
    pub fn set_state(&mut self, state: u8)
        ensures
            *final(self) == (AudioStatus { state, ..*old(self) }),
    {
        self.state = state;
    }

    /// Record the error `msg`.
    pub fn set_error(&mut self, msg: String)
        ensures
            *final(self) == (AudioStatus { error: Some(msg), ..*old(self) }),
    {
        self.error = Some(msg);
    }

    /// Count `samples` more as on their way to the output.
    pub fn add_queued(&mut self, samples: usize)
        ensures
            *final(self) == (AudioStatus {
                queued: old(self).queued.wrapping_add(samples),
                ..*old(self)
            }),
    {
        self.queued = self.queued.wrapping_add(samples);
    }

    /// Take the peaks for the display; they start over from silence.
    pub fn take_peaks(&mut self) -> (peaks: (i32, i32))
        ensures
            peaks == (old(self).peak_l, old(self).peak_r),
            *final(self) == (AudioStatus { peak_l: 0, peak_r: 0, ..*old(self) }),
    {
        let peaks: (i32, i32) = (self.peak_l, self.peak_r);
        self.peak_l = 0;
        self.peak_r = 0;
        peaks
    }
}

/// The status after the peaks of `stereo` were noted.
pub open spec fn with_peaks(status: AudioStatus, stereo: Seq<i16>) -> AudioStatus {
    AudioStatus {
        peak_l: higher(
            status.peak_l as int,
            channel_peak(stereo, 0, stereo.len() / 2),
        ) as i32,
        peak_r: higher(
            status.peak_r as int,
            channel_peak(stereo, 1, stereo.len() / 2),
        ) as i32,
        ..status
    }
}

/// Raise the peaks to the highest levels in `stereo`.
pub fn update_peaks(stereo: &[i16], status: &mut AudioStatus)
    ensures
        *final(status) == with_peaks(*old(status), stereo@),
        *final(status) == (AudioStatus {
            peak_l: final(status).peak_l,
            peak_r: final(status).peak_r,
            ..*old(status)
        }),
        final(status).peak_l >= old(status).peak_l,
        final(status).peak_r >= old(status).peak_r,
{
    let mut pl: i32 = 0;
    let mut pr: i32 = 0;
    let frames: usize = stereo.len() / 2;
    let mut i: usize = 0;
    while i < frames
        invariant
            i <= frames,
            frames == stereo@.len() / 2,
            2 * frames <= stereo.len(),
            pl == channel_peak(stereo@, 0, i as nat),
            pr == channel_peak(stereo@, 1, i as nat),
        decreases frames - i,
    {
        proof {
            channel_peak_bounds(stereo@, 0, i as nat);
            channel_peak_bounds(stereo@, 1, i as nat);
        }
        let l: i32 = stereo[2 * i] as i32;
        let r: i32 = stereo[2 * i + 1] as i32;
        let l: i32 = if l < 0 {
            -l
        } else {
            l
        };
        let r: i32 = if r < 0 {
            -r
        } else {
            r
        };
        if l > pl {
            pl = l;
        }
        if r > pr {
            pr = r;
        }
        i += 1;
    }
    if pl > status.peak_l {
        status.peak_l = pl;
    }
    if pr > status.peak_r {
        status.peak_r = pr;
    }
}

/// The peak of a channel is reached: by one of its samples, up or down, unless
/// all of them are silent.
pub proof fn channel_peak_is_reached(samples: Seq<i16>, channel: int, frames: nat)
    ensures
        channel_peak(samples, channel, frames) == 0 || exists|k: int|
            0 <= k < frames && (#[trigger] samples[2 * k + channel] == channel_peak(
                samples,
                channel,
                frames,
            ) || samples[2 * k + channel] == -channel_peak(samples, channel, frames)),
    decreases frames,
{
    if frames > 0 {
        let before = channel_peak(samples, channel, (frames - 1) as nat);
        channel_peak_is_reached(samples, channel, (frames - 1) as nat);
        let s = samples[2 * (frames - 1) + channel];
        if channel_peak(samples, channel, frames) != before {
            assert(s == channel_peak(samples, channel, frames) || s == -channel_peak(
                samples,
                channel,
                frames,
            ));
        } else if before != 0 {
            let k = choose|k: int|
                0 <= k < frames - 1 && (#[trigger] samples[2 * k + channel] == before || samples[2
                    * k + channel] == -before);
            assert(samples[2 * k + channel] == before || samples[2 * k + channel] == -before);
        }
    }
}

/// The noted peaks are the highest levels there were: no lower than before and
/// than any sample, on the left for even and on the right for odd samples, and
/// the level from before or that of a sample. Nothing else changes.
pub proof fn peaks_are_the_highest_levels(status: AudioStatus, stereo: Seq<i16>)
    requires
        0 <= status.peak_l,
        0 <= status.peak_r,
    ensures
        ({
            let after = with_peaks(status, stereo);
            &&& after.peak_l >= status.peak_l
            &&& after.peak_r >= status.peak_r
            &&& forall|f: int|
                0 <= f < stereo.len() / 2 ==> -after.peak_l <= #[trigger] stereo[2 * f]
                    <= after.peak_l
            &&& forall|f: int|
                0 <= f < stereo.len() / 2 ==> -after.peak_r <= #[trigger] stereo[2 * f + 1]
                    <= after.peak_r
            &&& after.peak_l == status.peak_l || exists|f: int|
                0 <= f < stereo.len() / 2 && (#[trigger] stereo[2 * f] == after.peak_l || stereo[2
                    * f] == -after.peak_l)
            &&& after.peak_r == status.peak_r || exists|f: int|
                0 <= f < stereo.len() / 2 && (#[trigger] stereo[2 * f + 1] == after.peak_r
                    || stereo[2 * f + 1] == -after.peak_r)
            &&& after == (AudioStatus { peak_l: after.peak_l, peak_r: after.peak_r, ..status })
        }),
{
    let frames = stereo.len() / 2;
    let after = with_peaks(status, stereo);
    channel_peak_bounds(stereo, 0, frames);
    channel_peak_bounds(stereo, 1, frames);
    channel_peak_is_reached(stereo, 0, frames);
    channel_peak_is_reached(stereo, 1, frames);
    assert forall|f: int| 0 <= f < frames implies -after.peak_l <= #[trigger] stereo[2 * f]
        <= after.peak_l by {
        assert(stereo[2 * f + 0] == stereo[2 * f]);
    }
    if after.peak_l != status.peak_l {
        let k = choose|k: int|
            0 <= k < frames && (#[trigger] stereo[2 * k + 0] == channel_peak(stereo, 0, frames)
                || stereo[2 * k + 0] == -channel_peak(stereo, 0, frames));
        assert(stereo[2 * k] == after.peak_l || stereo[2 * k] == -after.peak_l);
    }
}

} // verus!
