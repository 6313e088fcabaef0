//! Parameter guards of the remote control panel.
use vstd::prelude::*;

verus! {

/// Clamp a requested root note into the MIDI range `0..=127`.
pub fn clamp_root_midi(midi: i32) -> (r: i32)
    ensures
        r == if midi < 0 {
            0
        } else if midi > 127 {
            127
        } else {
            midi
        },
{
    if midi < 0 {
        0
    } else if midi > 127 {
        127
    } else {
        midi
    }
}

} // verus!
