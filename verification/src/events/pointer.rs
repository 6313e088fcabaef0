//! Discrete choices of the pointer gestures: the root and mode a carve drop
//! lands on and the voice a carve drag reseeds.
use crate::events::keymap::mode_scale_spec;
use crate::music::{is_diatonic, mode_rank, scale_name_spec, ScaleKind};
use vstd::prelude::*;

verus! {

/// Roots (MIDI) a carve drop can land on, from C3 up to C5 on the white keys.
pub open spec fn carve_root_table() -> Seq<i32> {
    seq![48i32, 50, 52, 53, 55, 57, 59, 60, 62, 64, 65, 67, 69, 71, 72]
}

/// Root MIDI note for a carve-drop table index, clamped to the table's end.
pub fn carve_root(index: usize) -> (r: i32)
    ensures
        r == carve_root_table()[if index < 15 { index as int } else { 14 }],
{
    let table: [i32; 15] = [48, 50, 52, 53, 55, 57, 59, 60, 62, 64, 65, 67, 69, 71, 72];
    assert(table@ =~= carve_root_table());
    let i = if index < 15 {
        index
    } else {
        14
    };
    table[i]
}

/// Mode band a carve drop lands on, from the drag's travel and spin units.
pub fn carve_mode_band(travel_units: usize, spin_units: usize) -> (r: usize)
    requires
        travel_units + spin_units <= usize::MAX,
    ensures
        r == (travel_units + spin_units) % 7,
{
    (travel_units + spin_units) % 7
}

/// Diatonic modes in band order.
pub open spec fn band_mode(index: int) -> ScaleKind {
    if index == 0 {
        ScaleKind::Ionian
    } else if index == 1 {
        ScaleKind::Dorian
    } else if index == 2 {
        ScaleKind::Phrygian
    } else if index == 3 {
        ScaleKind::Lydian
    } else if index == 4 {
        ScaleKind::Mixolydian
    } else if index == 5 {
        ScaleKind::Aeolian
    } else {
        ScaleKind::Locrian
    }
}

/// Display name of each band's mode.
pub open spec fn band_mode_name(index: int) -> Seq<char> {
    if index == 0 {
        "Ionian (major)"@
    } else if index == 1 {
        "Dorian"@
    } else if index == 2 {
        "Phrygian"@
    } else if index == 3 {
        "Lydian"@
    } else if index == 4 {
        "Mixolydian"@
    } else if index == 5 {
        "Aeolian (minor)"@
    } else {
        "Locrian"@
    }
}

/// The mode (and its display name) of a band, bands past the last clamping
/// to Locrian.
pub fn mode_for_vertical_band(band: usize) -> (r: (ScaleKind, &'static str))
    ensures
        r.0 == band_mode(band as int),
        r.1@ == band_mode_name(band as int),
{
    if band == 0 {
        (ScaleKind::Ionian, "Ionian (major)")
    } else if band == 1 {
        (ScaleKind::Dorian, "Dorian")
    } else if band == 2 {
        (ScaleKind::Phrygian, "Phrygian")
    } else if band == 3 {
        (ScaleKind::Lydian, "Lydian")
    } else if band == 4 {
        (ScaleKind::Mixolydian, "Mixolydian")
    } else if band == 5 {
        (ScaleKind::Aeolian, "Aeolian (minor)")
    } else {
        (ScaleKind::Locrian, "Locrian")
    }
}

/// Voice a carve drag reseeds, from its travel and spin units, among
/// `voice_count` voices (at least one).
pub fn carve_reseed_voice(travel_units: usize, spin_units: usize, voice_count: usize) -> (r: usize)
    requires
        travel_units + spin_units <= usize::MAX,
    ensures
        r == (travel_units + spin_units) % (if voice_count >= 1 { voice_count as int } else { 1 }),
        r < voice_count || (voice_count == 0 && r == 0),
{
    let n = if voice_count >= 1 {
        voice_count
    } else {
        1
    };
    (travel_units + spin_units) % n
}

/// Carve bands walk the cycle of modes: band `k` below seven lands on the
/// diatonic mode of rank `k` (Ionian, Dorian, Phrygian, Lydian, Mixolydian,
/// Aeolian, Locrian), the mode digit key `k + 1` selects; bands from seven on
/// stay on Locrian.
pub proof fn lemma_bands_follow_mode_cycle(band: int)
    requires
        0 <= band,
    ensures
        band < 7 ==> is_diatonic(band_mode(band)) && mode_rank(band_mode(band)) == band,
        band < 7 ==> mode_scale_spec(seq![seq!['1', '2', '3', '4', '5', '6', '7'][band]]) == Some(
            band_mode(band),
        ),
        band >= 7 ==> band_mode(band) == ScaleKind::Locrian,
{
}

/// A letter in lower case (other characters unchanged).
pub open spec fn ascii_lower(c: char) -> char {
    if 'A' <= c && c <= 'Z' {
        (c as int + 32) as char
    } else {
        c
    }
}

/// The name shown for a band begins, in lower case, with the control-panel
/// name of the mode that band selects.
pub proof fn lemma_band_names_name_their_modes(band: int)
    requires
        0 <= band,
    ensures
        scale_name_spec(band_mode(band)).len() <= band_mode_name(band).len(),
        forall|j: int|
            0 <= j < scale_name_spec(band_mode(band)).len() ==> ascii_lower(
                #[trigger] band_mode_name(band)[j],
            ) == scale_name_spec(band_mode(band))[j],
{
    reveal_strlit("Ionian (major)");
    reveal_strlit("Dorian");
    reveal_strlit("Phrygian");
    reveal_strlit("Lydian");
    reveal_strlit("Mixolydian");
    reveal_strlit("Aeolian (minor)");
    reveal_strlit("Locrian");
    reveal_strlit("ionian");
    reveal_strlit("dorian");
    reveal_strlit("phrygian");
    reveal_strlit("lydian");
    reveal_strlit("mixolydian");
    reveal_strlit("aeolian");
    reveal_strlit("locrian");
}

} // verus!
