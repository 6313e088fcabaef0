use app_web::control::clamp_root_midi;
use app_web::dom::canvas_backing_dim;
use app_web::offline::encode_wav_f32;
use app_web::perf::{Outbox, OUTBOX_CAP};
use app_web::render::{bloom_size, SurfaceSize};

#[test]
fn wav_header_and_interleaving() {
    let left = [1.0f32.to_bits(), 0.5f32.to_bits()];
    let right = [(-1.0f32).to_bits()];
    let wav = encode_wav_f32(&left, &right, 48000);
    let mut expected: Vec<u8> = Vec::new();
    expected.extend_from_slice(b"RIFF");
    expected.extend_from_slice(&44u32.to_le_bytes());
    expected.extend_from_slice(b"WAVE");
    expected.extend_from_slice(b"fmt ");
    expected.extend_from_slice(&16u32.to_le_bytes());
    expected.extend_from_slice(&3u16.to_le_bytes());
    expected.extend_from_slice(&2u16.to_le_bytes());
    expected.extend_from_slice(&48000u32.to_le_bytes());
    expected.extend_from_slice(&384000u32.to_le_bytes());
    expected.extend_from_slice(&8u16.to_le_bytes());
    expected.extend_from_slice(&32u16.to_le_bytes());
    expected.extend_from_slice(b"data");
    expected.extend_from_slice(&8u32.to_le_bytes());
    expected.extend_from_slice(&1.0f32.to_le_bytes());
    expected.extend_from_slice(&(-1.0f32).to_le_bytes());
    assert_eq!(wav, expected);
    assert_eq!(wav.len(), 44 + 8);
}

#[test]
fn empty_wav_is_header_only() {
    let wav = encode_wav_f32(&[], &[], 8000);
    assert_eq!(wav.len(), 44);
    assert_eq!(&wav[4..8], &36u32.to_le_bytes());
    assert_eq!(&wav[40..44], &0u32.to_le_bytes());
}

#[test]
fn outbox_records_only_when_armed_and_caps() {
    let mut o: Outbox<u32> = Outbox::new(OUTBOX_CAP);
    assert!(!o.push(1), "disarmed outbox drops events");
    assert_eq!(o.len(), 0);
    o.enable_broadcast();
    assert!(o.is_broadcasting());
    for i in 0..200u32 {
        o.push(i);
    }
    assert_eq!(o.len(), OUTBOX_CAP);
    let drained = o.drain();
    assert_eq!(drained.len(), 96);
    assert_eq!(drained[0], 0);
    assert_eq!(drained[95], 95);
    assert_eq!(o.len(), 0);
    assert!(o.push(7));
    assert_eq!(o.drain(), vec![7]);
}

#[test]
fn surface_resize_decisions() {
    let mut s = SurfaceSize {
        width: 800,
        height: 600,
    };
    assert!(!s.resize_if_needed(800, 600));
    assert!(!s.resize_if_needed(0, 600));
    assert!(!s.resize_if_needed(1024, 0));
    assert_eq!((s.width, s.height), (800, 600));
    assert!(s.resize_if_needed(1024, 768));
    assert_eq!((s.width, s.height), (1024, 768));
}

#[test]
fn bloom_targets_are_half_size_at_least_one() {
    assert_eq!(bloom_size(1024, 768), (512, 384));
    assert_eq!(bloom_size(1, 0), (1, 1));
    assert_eq!(bloom_size(3, 5), (1, 2));
}

#[test]
fn canvas_backing_dims_clamp() {
    assert_eq!(canvas_backing_dim(0, 8192), 1);
    assert_eq!(canvas_backing_dim(9000, 8192), 8192);
    assert_eq!(canvas_backing_dim(1920, 8192), 1920);
}

#[test]
fn control_root_clamps_to_midi_range() {
    assert_eq!(clamp_root_midi(-5), 0);
    assert_eq!(clamp_root_midi(200), 127);
    assert_eq!(clamp_root_midi(62), 62);
}
