use equalizer::audio::{
    decode_samples, encode_s16le, fold_stereo, update_peaks, AudioStatus, PcmFormat, STATE_WAITING,
};
use equalizer::output::{
    note_written, open_action, place_frame, FileKind, OpenAction, OutputQueue, OutputTarget,
};

#[test]
fn s16le_roundtrip() {
    let src: Vec<i16> = vec![0, 1, -1, i16::MAX, i16::MIN, 12345, -12345];
    let bytes: Vec<u8> = src.iter().flat_map(|s| s.to_le_bytes()).collect();
    let mut out = Vec::new();
    decode_samples(&bytes, PcmFormat::S16le, &mut out);
    assert_eq!(out, src);
}

#[test]
fn f32le_full_scale_maps_to_i16_range() {
    let src = [1.0f32, -1.0, 0.0, 0.5];
    let bytes: Vec<u8> = src.iter().flat_map(|s| s.to_le_bytes()).collect();
    let mut out = Vec::new();
    decode_samples(&bytes, PcmFormat::F32le, &mut out);
    assert_eq!(out, vec![32767, -32768, 0, 16384]);
}

#[test]
fn s24le_sign_extension() {
    // +1.0 (0x7FFFFF) and -1.0 (0x800000) full scale, little-endian.
    let bytes = [0xFF, 0xFF, 0x7F, 0x00, 0x00, 0x80];
    let mut out = Vec::new();
    decode_samples(&bytes, PcmFormat::S24le, &mut out);
    assert_eq!(out, vec![32767, -32768]);
}

#[test]
fn fold_mono_and_multichannel() {
    let mut out = Vec::new();
    fold_stereo(&[1, 2], 1, &mut out);
    assert_eq!(out, vec![1, 1, 2, 2]);
    fold_stereo(&[1, 2, 3, 4, 5, 6], 3, &mut out);
    assert_eq!(out, vec![1, 2, 4, 5]);
}

#[test]
fn fold_stereo_keeps_stereo() {
    let mut out = vec![7i16];
    fold_stereo(&[1, 2, 3, 4], 2, &mut out);
    assert_eq!(out, vec![1, 2, 3, 4]);
}

#[test]
fn fold_drops_a_partial_frame() {
    let mut out = Vec::new();
    fold_stereo(&[1, 2, 3, 4, 5], 4, &mut out);
    assert_eq!(out, vec![1, 2]);
}

#[test]
fn s32le_keeps_the_top_half() {
    let mut bytes: Vec<u8> = Vec::new();
    for v in [0i32, -1, 0x1234_5678, i32::MIN, i32::MAX] {
        bytes.extend_from_slice(&v.to_le_bytes());
    }
    let mut out = Vec::new();
    decode_samples(&bytes, PcmFormat::S32le, &mut out);
    assert_eq!(out, vec![0, -1, 0x1234, i16::MIN, i16::MAX]);
}

fn f32_reference(s: f32) -> i16 {
    (s * 32768.0).clamp(-32768.0, 32767.0) as i16
}

fn f64_reference(s: f64) -> i16 {
    (s * 32768.0).clamp(-32768.0, 32767.0) as i16
}

#[test]
fn f32le_agrees_with_float_arithmetic() {
    let mut values: Vec<f32> = vec![
        0.0,
        -0.0,
        f32::NAN,
        -f32::NAN,
        f32::INFINITY,
        f32::NEG_INFINITY,
        f32::MIN_POSITIVE,
        f32::MIN_POSITIVE / 2.0,
        f32::MAX,
        f32::MIN,
        0.99999994,
        1.0000001,
        -1.0000001,
        1.0 / 32768.0,
        -1.0 / 32768.0,
        0.9 / 32768.0,
        1.9999999 / 32768.0,
    ];
    let mut bits: u32 = 1;
    for _ in 0..20000 {
        bits = bits.wrapping_mul(1664525).wrapping_add(1013904223);
        values.push(f32::from_bits(bits));
        // In the range where the samples differ, too.
        values.push(f32::from_bits((bits & 0x80ff_ffff) | 0x3800_0000));
        values.push(f32::from_bits((bits & 0x807f_ffff) | 0x3f00_0000));
    }
    for v in values {
        let mut out = Vec::new();
        decode_samples(&v.to_le_bytes(), PcmFormat::F32le, &mut out);
        assert_eq!(out, vec![f32_reference(v)], "{v}");
    }
}

#[test]
fn f64le_agrees_with_float_arithmetic() {
    let mut values: Vec<f64> = vec![
        0.0,
        f64::NAN,
        f64::INFINITY,
        f64::NEG_INFINITY,
        f64::MIN_POSITIVE,
        f64::MAX,
        -1.0,
        1.0,
        0.5,
        -0.25,
        1e-300,
        32767.9 / 32768.0,
    ];
    let mut bits: u64 = 1;
    for _ in 0..20000 {
        bits = bits.wrapping_mul(6364136223846793005).wrapping_add(1442695040888963407);
        values.push(f64::from_bits(bits));
        values.push(f64::from_bits((bits & 0x800f_ffff_ffff_ffff) | 0x3fe0_0000_0000_0000));
        values.push(f64::from_bits((bits & 0x801f_ffff_ffff_ffff) | 0x3f00_0000_0000_0000));
    }
    for v in values {
        let mut out = Vec::new();
        decode_samples(&v.to_le_bytes(), PcmFormat::F64le, &mut out);
        assert_eq!(out, vec![f64_reference(v)], "{v}");
    }
}

#[test]
fn s24le_and_s16le_agree_with_shifts() {
    let mut bits: u32 = 7;
    for _ in 0..20000 {
        bits = bits.wrapping_mul(1664525).wrapping_add(1013904223);
        let b = bits.to_le_bytes();
        let v = ((b[0] as i32) << 8 | (b[1] as i32) << 16 | (b[2] as i32) << 24) >> 8;
        let mut out = Vec::new();
        decode_samples(&b[..3], PcmFormat::S24le, &mut out);
        assert_eq!(out, vec![(v >> 8) as i16]);
        decode_samples(&b[..2], PcmFormat::S16le, &mut out);
        assert_eq!(out, vec![i16::from_le_bytes([b[0], b[1]])]);
    }
}

#[test]
fn encoded_samples_read_back() {
    let src: Vec<i16> = (i16::MIN..=i16::MAX).collect();
    let bytes = encode_s16le(&src);
    let expected: Vec<u8> = src.iter().flat_map(|s| s.to_le_bytes()).collect();
    assert_eq!(bytes, expected);
    let mut out = Vec::new();
    decode_samples(&bytes, PcmFormat::S16le, &mut out);
    assert_eq!(out, src);
}

#[test]
fn formats_have_widths_and_labels() {
    let all = [
        (PcmFormat::S16le, 2, "s16le"),
        (PcmFormat::S24le, 3, "s24le"),
        (PcmFormat::S32le, 4, "s32le"),
        (PcmFormat::F32le, 4, "f32le"),
        (PcmFormat::F64le, 8, "f64le"),
    ];
    for (format, width, label) in all {
        assert_eq!(format.bytes_per_sample(), width);
        assert_eq!(format.label(), label);
    }
}

#[test]
fn peaks_rise_and_are_taken() {
    let mut status = AudioStatus::new();
    assert_eq!(status.state, STATE_WAITING);
    update_peaks(&[100, -200, -300, 50], &mut status);
    assert_eq!((status.peak_l, status.peak_r), (300, 200));
    update_peaks(&[1, i16::MIN, 7], &mut status);
    assert_eq!((status.peak_l, status.peak_r), (300, 32768));
    assert_eq!(status.take_peaks(), (300, 32768));
    assert_eq!(status.take_peaks(), (0, 0));
}

#[test]
fn queue_plays_chunks_in_order() {
    let mut status = AudioStatus::new();
    status.add_queued(6);
    let mut queue = OutputQueue::new();
    assert!(queue.needs_chunk());
    assert_eq!(queue.pop_frame(&mut status), (0, 0));
    assert_eq!(status.frames_played, 0);
    queue.push_chunk(vec![1, 2]);
    queue.push_chunk(vec![3, 4, 5]);
    assert!(!queue.needs_chunk());
    assert_eq!(queue.pop_frame(&mut status), (1, 2));
    assert_eq!(queue.pop_frame(&mut status), (3, 4));
    assert!(queue.needs_chunk());
    assert_eq!(queue.pop_frame(&mut status), (5, 0));
    assert_eq!(queue.pop_frame(&mut status), (0, 0));
    assert_eq!(status.frames_played, 3);
    assert_eq!(status.queued, 0);
}

#[test]
fn written_chunks_are_counted() {
    let mut status = AudioStatus::new();
    status.add_queued(10);
    note_written(&mut status, 8);
    assert_eq!((status.queued, status.frames_played), (2, 4));
    note_written(&mut status, 8);
    assert_eq!((status.queued, status.frames_played), (0, 8));
}

#[test]
fn frames_are_placed_on_the_device() {
    assert_eq!(place_frame(1, 2, 0), vec![]);
    assert_eq!(place_frame(1, 2, 1), vec![1]);
    assert_eq!(place_frame(1, 2, 2), vec![1, 2]);
    assert_eq!(place_frame(1, 2, 4), vec![1, 2, 0, 0]);
}

#[test]
fn output_targets() {
    assert!(OutputTarget::parse(None).is_none());
    assert!(OutputTarget::parse(Some("default")).is_none());
    assert_eq!(OutputTarget::parse(Some("-")).unwrap().label(), "stdout");
    assert!(matches!(OutputTarget::parse(Some("-")), Some(OutputTarget::Stdout)));
    assert_eq!(OutputTarget::parse(Some("/tmp/out")).unwrap().label(), "/tmp/out");
}

#[test]
fn inputs_are_opened_by_what_they_are() {
    assert_eq!(open_action("-", Some(FileKind::Socket)), OpenAction::UseStdin);
    assert_eq!(open_action("/x", None), OpenAction::MakeFifo);
    assert_eq!(open_action("/x", Some(FileKind::Socket)), OpenAction::Connect);
    assert_eq!(open_action("/x", Some(FileKind::Fifo)), OpenAction::OpenFile { fifo: true });
    assert_eq!(open_action("/x", Some(FileKind::Other)), OpenAction::OpenFile { fifo: false });
}
