use app_web::events::pointer::{
    carve_mode_band, carve_reseed_voice, carve_root, mode_for_vertical_band,
};
use app_web::music::{
    accent_level, euclidean_gate, motif_for_voice, phrase_index, phrase_root_shift,
    polymeter_for_voice, scale_for_name, scale_name, scale_position, voice_seed, AccentLevel, ScaleKind, VoiceRngs,
};
use rand::rngs::StdRng;
use rand::{Rng, SeedableRng};

fn onsets(steps: u32, hits: u32, rotate: u32) -> Vec<u8> {
    (0..steps as u64)
        .map(|s| euclidean_gate(s, steps, hits, rotate) as u8)
        .collect()
}

#[test]
fn polymeters_have_their_documented_hit_counts() {
    // 5-in-13, 7-in-11, 4-in-17.
    assert_eq!(polymeter_for_voice(0), (13, 5, 0));
    assert_eq!(polymeter_for_voice(1), (11, 7, 2));
    assert_eq!(polymeter_for_voice(2), (17, 4, 5));
    assert_eq!(polymeter_for_voice(5), (17, 4, 5));
    assert_eq!(onsets(13, 5, 0), vec![0, 0, 1, 0, 0, 1, 0, 1, 0, 0, 1, 0, 1]);
    assert_eq!(onsets(11, 7, 2), vec![0, 1, 1, 0, 1, 1, 0, 1, 1, 0, 1]);
    let four = onsets(17, 4, 5);
    assert_eq!(four.iter().map(|&x| x as u32).sum::<u32>(), 4);
}

#[test]
fn euclidean_gate_is_periodic_and_empty_on_degenerate_rhythms() {
    for s in 0..40u64 {
        assert_eq!(euclidean_gate(s, 13, 5, 0), euclidean_gate(s + 13, 13, 5, 0));
    }
    assert!(!euclidean_gate(3, 0, 5, 0));
    assert!(!euclidean_gate(3, 13, 0, 0));
}

#[test]
fn single_hit_rhythm_fires_once_per_cycle() {
    assert_eq!(onsets(2, 1, 0), vec![0, 1]);
    assert_eq!(onsets(8, 1, 0), vec![0, 0, 0, 0, 0, 0, 0, 1]);
    assert_eq!(onsets(8, 1, 3), vec![0, 0, 0, 0, 1, 0, 0, 0]);
    for start in 0..30u64 {
        for &(steps, hits, rotate) in &[(13u32, 5u32, 0u32), (11, 7, 2), (17, 4, 5), (9, 1, 4), (6, 6, 1)] {
            let fired = (start..start + steps as u64)
                .filter(|&s| euclidean_gate(s, steps, hits, rotate))
                .count();
            assert_eq!(fired, hits as usize);
        }
    }
    // Large operands compute without overflow.
    assert!(euclidean_gate(u32::MAX as u64, u32::MAX, u32::MAX, u32::MAX));
    assert_eq!(euclidean_gate(4_294_967_294, 4_294_967_295, 1, 0), true);
}

#[test]
fn phrase_index_and_root_shift() {
    assert_eq!(phrase_index(0), 0);
    assert_eq!(phrase_index(5), 0);
    assert_eq!(phrase_index(6), 1);
    assert_eq!(phrase_index(95), 15);
    assert_eq!(phrase_index(96), 0);
    assert_eq!(phrase_root_shift(2), 5);
    assert_eq!(phrase_root_shift(12), 10);
    assert_eq!(phrase_root_shift(15), 5);
}

#[test]
fn motif_tables_cycle_per_voice() {
    assert_eq!(motif_for_voice(0, 3), 4);
    assert_eq!(motif_for_voice(0, 15), 4);
    assert_eq!(motif_for_voice(1, 4), -1);
    assert_eq!(motif_for_voice(2, 5), 6);
    assert_eq!(motif_for_voice(3, 6), -2);
}

#[test]
fn accent_levels_follow_the_voice_cycle() {
    assert_eq!(accent_level(0, 0), AccentLevel::Strong);
    assert_eq!(accent_level(8, 0), AccentLevel::Strong);
    assert_eq!(accent_level(4, 0), AccentLevel::Medium);
    assert_eq!(accent_level(1, 0), AccentLevel::Weak);
    assert_eq!(accent_level(16, 0), AccentLevel::Strong);
    assert_eq!(accent_level(0, 1), AccentLevel::Weak);
    assert_eq!(accent_level(6, 1), AccentLevel::Strong);
    assert_eq!(accent_level(1, 1), AccentLevel::Medium);
}

#[test]
fn scale_position_walks_and_wraps() {
    assert_eq!(scale_position(0, 0, 8), 0);
    assert_eq!(scale_position(1, 2, 8), 1);
    assert_eq!(scale_position(7, 1, 8), 0);
    assert_eq!(scale_position(100, 2, 8), 4);
    // Negative phases (the step counter seen as a negative i32) wrap upward.
    assert_eq!(scale_position(4294967289, 1, 8), 5);
    assert_eq!(scale_position(4294967256, 2, 8), 7);
    assert_eq!(scale_position(4294967256, 0, 8), 4);
}

#[test]
fn voice_seeds_mix_in_the_voice_index() {
    assert_eq!(voice_seed(42, 0), 42);
    assert_eq!(voice_seed(42, 1), 11400714819323198527);
    assert_eq!(voice_seed(42, 2), 4354685564936845312);
}

#[test]
fn voice_generators_reseed_independently() {
    let mut a = VoiceRngs::new(42, 3);
    let mut b = VoiceRngs::new(42, 3);
    assert_eq!(a.len(), 3);
    let x: u64 = a.rng_mut(1).gen();
    let y: u64 = b.rng_mut(1).gen();
    assert_eq!(x, y, "same seed, same stream");
    a.reseed_voice(0, Some(7));
    b.reseed_voice(0, Some(7));
    assert_eq!(a.rng_mut(0).gen::<u64>(), b.rng_mut(0).gen::<u64>());
    assert_eq!(a.rng_mut(2).gen::<u64>(), b.rng_mut(2).gen::<u64>());
    a.reseed_voice(9, Some(1));
    assert_eq!(a.len(), 3);
    a.reseed_voice(1, None);
    assert_eq!(a.len(), 3);
}

#[test]
fn reseeded_voice_gets_the_seeded_generator() {
    let mut v = VoiceRngs::new(42, 3);
    assert!(*v.rng_mut(2) == StdRng::seed_from_u64(voice_seed(42, 2)));
    v.reseed_voice(1, Some(5));
    assert!(*v.rng_mut(1) == StdRng::seed_from_u64(5));
    assert!(*v.rng_mut(2) == StdRng::seed_from_u64(voice_seed(42, 2)));
    let drawn: u64 = StdRng::seed_from_u64(voice_seed(42, 0)).gen();
    v.reseed_voice(0, None);
    assert!(*v.rng_mut(0) == StdRng::seed_from_u64(drawn));
}

#[test]
fn carve_drop_tables() {
    assert_eq!(carve_root(0), 48);
    assert_eq!(carve_root(7), 60);
    assert_eq!(carve_root(14), 72);
    assert_eq!(carve_root(200), 72);
    assert_eq!(carve_mode_band(3, 5), 1);
    assert_eq!(carve_mode_band(7, 0), 0);
    assert_eq!(mode_for_vertical_band(0), (ScaleKind::Ionian, "Ionian (major)"));
    assert_eq!(mode_for_vertical_band(5), (ScaleKind::Aeolian, "Aeolian (minor)"));
    assert_eq!(mode_for_vertical_band(6), (ScaleKind::Locrian, "Locrian"));
    assert_eq!(mode_for_vertical_band(40), (ScaleKind::Locrian, "Locrian"));
    assert_eq!(carve_reseed_voice(4, 3, 3), 1);
    assert_eq!(carve_reseed_voice(4, 3, 0), 0);
}

#[test]
fn phrases_and_accents_repeat_with_their_cycles() {
    for s in 0..200u64 {
        assert_eq!(phrase_index(s + 96), phrase_index(s));
        for vi in 0..3usize {
            let cycle = 16 + 3 * vi as u64;
            assert_eq!(accent_level(s + cycle, vi), accent_level(s, vi));
        }
    }
    assert_eq!(phrase_index(12), phrase_index(17));
    assert_ne!(phrase_index(17), phrase_index(18));
}

#[test]
fn scale_names_round_trip() {
    let all = [
        ScaleKind::CMajorPentatonic,
        ScaleKind::Ionian,
        ScaleKind::Dorian,
        ScaleKind::Phrygian,
        ScaleKind::Lydian,
        ScaleKind::Mixolydian,
        ScaleKind::Aeolian,
        ScaleKind::Locrian,
        ScaleKind::Tet19Pentatonic,
        ScaleKind::Tet24Pentatonic,
        ScaleKind::Tet31Pentatonic,
    ];
    for k in all {
        assert_eq!(scale_for_name(scale_name(k)), Some(k));
    }
    assert_eq!(scale_name(ScaleKind::Dorian), "dorian");
    assert_eq!(scale_for_name("tet24"), Some(ScaleKind::Tet24Pentatonic));
    assert_eq!(scale_for_name("Dorian"), None);
    assert_eq!(scale_for_name("dorians"), None);
    assert_eq!(scale_for_name(""), None);
}
