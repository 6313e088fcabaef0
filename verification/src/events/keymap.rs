//! Keyboard tables: letter keys pick the tonal root, digit keys pick the mode
//! or alternate tuning.
use crate::music::{
    is_diatonic, lemma_scales_well_formed, mode_rank, scale_cents, well_formed_scale, ScaleKind,
};
use vstd::prelude::*;

verus! {

/// The root MIDI note a single letter key selects, on the key's characters.
pub open spec fn root_midi_spec(key: Seq<char>) -> Option<i32> {
    if key.len() != 1 {
        None
    } else {
        let c = key[0];
        if c == 'a' || c == 'A' {
            Some(69i32)
        } else if c == 'b' || c == 'B' {
            Some(71i32)
        } else if c == 'c' || c == 'C' {
            Some(60i32)
        } else if c == 'd' || c == 'D' {
            Some(62i32)
        } else if c == 'e' || c == 'E' {
            Some(64i32)
        } else if c == 'f' || c == 'F' {
            Some(65i32)
        } else if c == 'g' || c == 'G' {
            Some(67i32)
        } else {
            None
        }
    }
}

/// Map a note-letter key (`a`..`g`, either case) to the MIDI number of that
/// note in the fourth octave; any other key gives `None`.
pub fn root_midi_for_key(key: &str) -> (r: Option<i32>)
    ensures
        r == root_midi_spec(key@),
{
    if key.unicode_len() != 1 {
        return None;
    }
    let c = key.get_char(0);
    if c == 'a' || c == 'A' {
        Some(69)
    } else if c == 'b' || c == 'B' {
        Some(71)
    } else if c == 'c' || c == 'C' {
        Some(60)
    } else if c == 'd' || c == 'D' {
        Some(62)
    } else if c == 'e' || c == 'E' {
        Some(64)
    } else if c == 'f' || c == 'F' {
        Some(65)
    } else if c == 'g' || c == 'G' {
        Some(67)
    } else {
        None
    }
}

/// The scale a single digit key selects, on the key's characters.
pub open spec fn mode_scale_spec(key: Seq<char>) -> Option<ScaleKind> {
    if key.len() != 1 {
        None
    } else {
        let c = key[0];
        if c == '1' {
            Some(ScaleKind::Ionian)
        } else if c == '2' {
            Some(ScaleKind::Dorian)
        } else if c == '3' {
            Some(ScaleKind::Phrygian)
        } else if c == '4' {
            Some(ScaleKind::Lydian)
        } else if c == '5' {
            Some(ScaleKind::Mixolydian)
        } else if c == '6' {
            Some(ScaleKind::Aeolian)
        } else if c == '7' {
            Some(ScaleKind::Locrian)
        } else if c == '8' {
            Some(ScaleKind::Tet19Pentatonic)
        } else if c == '9' {
            Some(ScaleKind::Tet24Pentatonic)
        } else if c == '0' {
            Some(ScaleKind::Tet31Pentatonic)
        } else {
            None
        }
    }
}

/// Map a digit key to a scale: `1`..`7` pick the diatonic modes from Ionian
/// to Locrian, `8`/`9`/`0` the alternate pentatonic tunings; any other key
/// gives `None`.
pub fn mode_scale_for_digit(key: &str) -> (r: Option<ScaleKind>)
    ensures
        r == mode_scale_spec(key@),
{
    if key.unicode_len() != 1 {
        return None;
    }
    let c = key.get_char(0);
    if c == '1' {
        Some(ScaleKind::Ionian)
    } else if c == '2' {
        Some(ScaleKind::Dorian)
    } else if c == '3' {
        Some(ScaleKind::Phrygian)
    } else if c == '4' {
        Some(ScaleKind::Lydian)
    } else if c == '5' {
        Some(ScaleKind::Mixolydian)
    } else if c == '6' {
        Some(ScaleKind::Aeolian)
    } else if c == '7' {
        Some(ScaleKind::Locrian)
    } else if c == '8' {
        Some(ScaleKind::Tet19Pentatonic)
    } else if c == '9' {
        Some(ScaleKind::Tet24Pentatonic)
    } else if c == '0' {
        Some(ScaleKind::Tet31Pentatonic)
    } else {
        None
    }
}

/// Every scale a digit key selects is well formed: it starts on the root,
/// ends on the octave and rises strictly; digits `1`..`7` give eight-degree
/// modes and `8`, `9`, `0` six-degree pentatonics.
pub proof fn lemma_digit_scales_well_formed(key: Seq<char>)
    requires
        mode_scale_spec(key) is Some,
    ensures
        well_formed_scale(scale_cents(mode_scale_spec(key)->0)),
        ('1' <= key[0] <= '7') ==> scale_cents(mode_scale_spec(key)->0).len() == 8,
        (key[0] == '8' || key[0] == '9' || key[0] == '0') ==> scale_cents(
            mode_scale_spec(key)->0,
        ).len() == 6,
{
    lemma_scales_well_formed(mode_scale_spec(key)->0);
}

/// The digit keys `1` to `7` walk the cycle of modes in order: digit `k + 1`
/// selects the diatonic mode of rank `k`.
pub proof fn lemma_digit_keys_follow_mode_cycle(k: int)
    requires
        0 <= k < 7,
    ensures
        ({
            let key = seq![seq!['1', '2', '3', '4', '5', '6', '7'][k]];
            &&& mode_scale_spec(key) is Some
            &&& is_diatonic(mode_scale_spec(key)->0)
            &&& mode_rank(mode_scale_spec(key)->0) == k
        }),
{
}

} // verus!
