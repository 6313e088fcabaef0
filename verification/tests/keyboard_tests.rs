use app_web::events::keymap::{mode_scale_for_digit, root_midi_for_key};
use app_web::music::ScaleKind;

#[test]
fn root_midi_for_key_valid_keys() {
    let cases = [
        ("a", 69),
        ("b", 71),
        ("c", 60),
        ("d", 62),
        ("e", 64),
        ("f", 65),
        ("g", 67),
    ];
    for (key, midi) in cases {
        assert_eq!(root_midi_for_key(key), Some(midi));
        assert_eq!(root_midi_for_key(&key.to_ascii_uppercase()), Some(midi));
    }
}

#[test]
fn root_midi_for_key_invalid_keys() {
    for key in ["h", "z", "", "1", "0", "notakey", " "] {
        assert_eq!(root_midi_for_key(key), None);
    }
}

#[test]
fn mode_scale_for_digit_valid_digits() {
    let cases = [
        ("1", ScaleKind::Ionian),
        ("2", ScaleKind::Dorian),
        ("3", ScaleKind::Phrygian),
        ("4", ScaleKind::Lydian),
        ("5", ScaleKind::Mixolydian),
        ("6", ScaleKind::Aeolian),
        ("7", ScaleKind::Locrian),
        ("8", ScaleKind::Tet19Pentatonic),
        ("9", ScaleKind::Tet24Pentatonic),
        ("0", ScaleKind::Tet31Pentatonic),
    ];
    for (digit, expected) in cases {
        assert_eq!(mode_scale_for_digit(digit), Some(expected));
    }
}

#[test]
fn mode_scale_for_digit_invalid_keys() {
    for key in ["", "a", "-", "10", "Digit1"] {
        assert_eq!(mode_scale_for_digit(key), None);
    }
}

/// Every scale spans one octave [0, 1200] cents and rises strictly.
fn assert_well_formed_scale(digit: &str, expected_len: usize) {
    let scale = mode_scale_for_digit(digit).unwrap().degrees_cents();
    assert_eq!(scale.len(), expected_len, "digit {digit} note count");
    assert_eq!(scale[0], 0);
    assert_eq!(scale[scale.len() - 1], 1200);
    for i in 1..scale.len() {
        assert!(scale[i] > scale[i - 1], "scale {digit} must be monotonic");
    }
}

#[test]
fn diatonic_mode_scales_are_well_formed() {
    for digit in ["1", "2", "3", "4", "5", "6", "7"] {
        assert_well_formed_scale(digit, 8);
    }
}

#[test]
fn alternate_tuning_scales_are_well_formed() {
    for digit in ["8", "9", "0"] {
        assert_well_formed_scale(digit, 6);
    }
}

#[test]
fn scale_degrees_in_cents_match_the_modes() {
    assert_eq!(ScaleKind::Dorian.degrees_cents(), vec![0, 200, 300, 500, 700, 900, 1000, 1200]);
    assert_eq!(ScaleKind::Tet24Pentatonic.degrees_cents(), vec![0, 250, 500, 750, 1000, 1200]);
    assert_eq!(ScaleKind::CMajorPentatonic.degrees_cents(), vec![0, 200, 400, 700, 900, 1200]);
    let c_major = ScaleKind::CMajorPentatonic.degrees_cents();
    for i in 1..c_major.len() {
        assert!(c_major[i] > c_major[i - 1]);
    }
}

#[test]
fn root_midi_for_multibyte_and_long_keys_is_none() {
    assert_eq!(root_midi_for_key("é"), None);
    assert_eq!(root_midi_for_key("aa"), None);
    assert_eq!(root_midi_for_key("KeyA"), None);
    assert_eq!(mode_scale_for_digit("١"), None);
}
