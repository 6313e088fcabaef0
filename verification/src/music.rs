//! Integer skeleton of the generative scheduler: scale tables in cents, the
//! per-voice polymeter Euclidean gate, motif and accent tables, phrase root
//! shifts, the scale-position walk and per-voice seed derivation.
use rand::rngs::StdRng;
use rand::{Rng, SeedableRng};
use vstd::prelude::*;

verus! {

/// Basic oscillator shape used by the synth voices.
#[derive(Clone, Copy, Debug, PartialEq, Eq, Structural)]
pub enum Waveform {
    Sine,
    Saw,
    Triangle,
}

/// The pitch sets the instrument can play: the seven diatonic modes, the
/// C-major pentatonic preset and three alternate pentatonic tunings.
#[derive(Clone, Copy, Debug, PartialEq, Eq, Structural)]
pub enum ScaleKind {
    CMajorPentatonic,
    Ionian,
    Dorian,
    Phrygian,
    Lydian,
    Mixolydian,
    Aeolian,
    Locrian,
    Tet19Pentatonic,
    Tet24Pentatonic,
    Tet31Pentatonic,
}

/// Degrees of each scale in cents above the root (100 cents per semitone).
pub open spec fn scale_cents(kind: ScaleKind) -> Seq<i32> {
    match kind {
        ScaleKind::CMajorPentatonic => seq![0i32, 200, 400, 700, 900, 1200],
        ScaleKind::Ionian => seq![0i32, 200, 400, 500, 700, 900, 1100, 1200],
        ScaleKind::Dorian => seq![0i32, 200, 300, 500, 700, 900, 1000, 1200],
        ScaleKind::Phrygian => seq![0i32, 100, 300, 500, 700, 800, 1000, 1200],
        ScaleKind::Lydian => seq![0i32, 200, 400, 600, 700, 900, 1100, 1200],
        ScaleKind::Mixolydian => seq![0i32, 200, 400, 500, 700, 900, 1000, 1200],
        ScaleKind::Aeolian => seq![0i32, 200, 300, 500, 700, 800, 1000, 1200],
        ScaleKind::Locrian => seq![0i32, 100, 300, 500, 600, 800, 1000, 1200],
        ScaleKind::Tet19Pentatonic => seq![0i32, 240, 480, 720, 960, 1200],
        ScaleKind::Tet24Pentatonic => seq![0i32, 250, 500, 750, 1000, 1200],
        ScaleKind::Tet31Pentatonic => seq![0i32, 240, 480, 720, 960, 1200],
    }
}

/// Whether a scale is one of the seven diatonic modes.
pub open spec fn is_diatonic(kind: ScaleKind) -> bool {
    match kind {
        ScaleKind::Ionian | ScaleKind::Dorian | ScaleKind::Phrygian | ScaleKind::Lydian
        | ScaleKind::Mixolydian | ScaleKind::Aeolian | ScaleKind::Locrian => true,
        _ => false,
    }
}

/// A scale spans exactly one octave, starting on the root, and rises strictly.
pub open spec fn well_formed_scale(s: Seq<i32>) -> bool {
    &&& s.len() >= 2
    &&& s[0] == 0
    &&& s[s.len() - 1] == 1200
    &&& forall|i: int, j: int| 0 <= i < j < s.len() ==> #[trigger] s[i] < #[trigger] s[j]
}

impl ScaleKind {
    /// The scale's degrees in cents above the root.
    pub fn degrees_cents(&self) -> (r: Vec<i32>)
        ensures
            r@ == scale_cents(*self),
    {
        match self {
            ScaleKind::CMajorPentatonic => vec![0, 200, 400, 700, 900, 1200],
            ScaleKind::Ionian => vec![0, 200, 400, 500, 700, 900, 1100, 1200],
            ScaleKind::Dorian => vec![0, 200, 300, 500, 700, 900, 1000, 1200],
            ScaleKind::Phrygian => vec![0, 100, 300, 500, 700, 800, 1000, 1200],
            ScaleKind::Lydian => vec![0, 200, 400, 600, 700, 900, 1100, 1200],
            ScaleKind::Mixolydian => vec![0, 200, 400, 500, 700, 900, 1000, 1200],
            ScaleKind::Aeolian => vec![0, 200, 300, 500, 700, 800, 1000, 1200],
            ScaleKind::Locrian => vec![0, 100, 300, 500, 600, 800, 1000, 1200],
            ScaleKind::Tet19Pentatonic => vec![0, 240, 480, 720, 960, 1200],
            ScaleKind::Tet24Pentatonic => vec![0, 250, 500, 750, 1000, 1200],
            ScaleKind::Tet31Pentatonic => vec![0, 240, 480, 720, 960, 1200],
        }
    }
}

/// Place of each diatonic mode in the cycle of modes built on the successive
/// degrees of the major scale: Ionian on the first, Dorian on the second, up
/// to Locrian on the seventh.
pub open spec fn mode_rank(kind: ScaleKind) -> int {
    match kind {
        ScaleKind::Ionian => 0,
        ScaleKind::Dorian => 1,
        ScaleKind::Phrygian => 2,
        ScaleKind::Lydian => 3,
        ScaleKind::Mixolydian => 4,
        ScaleKind::Aeolian => 5,
        ScaleKind::Locrian => 6,
        _ => 0,
    }
}

/// The seven diatonic modes take the seven places of the cycle, one each.
pub proof fn lemma_mode_ranks_distinct(a: ScaleKind, b: ScaleKind)
    requires
        is_diatonic(a),
        is_diatonic(b),
    ensures
        0 <= mode_rank(a) < 7,
        mode_rank(a) == mode_rank(b) ==> a == b,
{
}

/// Height in cents of the `j`-th step of the major scale (whole, whole, half,
/// whole, whole, whole, half), continued upward an octave every seven steps.
pub open spec fn major_step_height(j: int) -> int {
    seq![0int, 200, 400, 500, 700, 900, 1100][j % 7] + 1200 * (j / 7)
}

/// Each diatonic mode is the major scale's step pattern started on its own
/// degree: degree `i` of the mode of rank `k` lies as far above its root as
/// major-scale step `k + i` lies above step `k`.
pub proof fn lemma_modes_rotate_the_major_scale(kind: ScaleKind, i: int)
    requires
        is_diatonic(kind),
        0 <= i < 8,
    ensures
        scale_cents(kind).len() == 8,
        scale_cents(kind)[i] == major_step_height(mode_rank(kind) + i) - major_step_height(
            mode_rank(kind),
        ),
{
}

/// The pentatonic preset keeps the major scale's first, second, third, fifth
/// and sixth degrees and the octave; the alternate tunings divide the octave
/// into five equal steps (of 240 cents, or of 250 cents closing on the octave).
pub proof fn lemma_pentatonic_degrees(i: int)
    requires
        0 <= i < 6,
    ensures
        scale_cents(ScaleKind::CMajorPentatonic)[i] == major_step_height(
            seq![0int, 1, 2, 4, 5, 7][i],
        ),
        scale_cents(ScaleKind::Tet19Pentatonic)[i] == 240 * i,
        scale_cents(ScaleKind::Tet31Pentatonic)[i] == 240 * i,
        scale_cents(ScaleKind::Tet24Pentatonic)[i] == if i < 5 {
            250 * i
        } else {
            1200
        },
{
}

/// Name of each scale on the remote control panel.
pub open spec fn scale_name_spec(kind: ScaleKind) -> Seq<char> {
    match kind {
        ScaleKind::CMajorPentatonic => "pentatonic"@,
        ScaleKind::Ionian => "ionian"@,
        ScaleKind::Dorian => "dorian"@,
        ScaleKind::Phrygian => "phrygian"@,
        ScaleKind::Lydian => "lydian"@,
        ScaleKind::Mixolydian => "mixolydian"@,
        ScaleKind::Aeolian => "aeolian"@,
        ScaleKind::Locrian => "locrian"@,
        ScaleKind::Tet19Pentatonic => "tet19"@,
        ScaleKind::Tet24Pentatonic => "tet24"@,
        ScaleKind::Tet31Pentatonic => "tet31"@,
    }
}

/// The scale a control-panel name selects, if any.
pub open spec fn scale_for_name_spec(name: Seq<char>) -> Option<ScaleKind> {
    if name == "pentatonic"@ {
        Some(ScaleKind::CMajorPentatonic)
    } else if name == "ionian"@ {
        Some(ScaleKind::Ionian)
    } else if name == "dorian"@ {
        Some(ScaleKind::Dorian)
    } else if name == "phrygian"@ {
        Some(ScaleKind::Phrygian)
    } else if name == "lydian"@ {
        Some(ScaleKind::Lydian)
    } else if name == "mixolydian"@ {
        Some(ScaleKind::Mixolydian)
    } else if name == "aeolian"@ {
        Some(ScaleKind::Aeolian)
    } else if name == "locrian"@ {
        Some(ScaleKind::Locrian)
    } else if name == "tet19"@ {
        Some(ScaleKind::Tet19Pentatonic)
    } else if name == "tet24"@ {
        Some(ScaleKind::Tet24Pentatonic)
    } else if name == "tet31"@ {
        Some(ScaleKind::Tet31Pentatonic)
    } else {
        None
    }
}

/// The control-panel name of a scale.
pub fn scale_name(kind: ScaleKind) -> (r: &'static str)
    ensures
        r@ == scale_name_spec(kind),
{
    match kind {
        ScaleKind::CMajorPentatonic => "pentatonic",
        ScaleKind::Ionian => "ionian",
        ScaleKind::Dorian => "dorian",
        ScaleKind::Phrygian => "phrygian",
        ScaleKind::Lydian => "lydian",
        ScaleKind::Mixolydian => "mixolydian",
        ScaleKind::Aeolian => "aeolian",
        ScaleKind::Locrian => "locrian",
        ScaleKind::Tet19Pentatonic => "tet19",
        ScaleKind::Tet24Pentatonic => "tet24",
        ScaleKind::Tet31Pentatonic => "tet31",
    }
}

/// Whether two strings hold the same characters.
fn same_chars(a: &str, b: &str) -> (r: bool)
    ensures
        r == (a@ == b@),
{
    let n = a.unicode_len();
    if n != b.unicode_len() {
        return false;
    }
    let mut i: usize = 0;
    while i < n
        invariant
            n == a@.len(),
            n == b@.len(),
            i <= n,
            forall|j: int| 0 <= j < i ==> a@[j] == b@[j],
        decreases n - i,
    {
        if a.get_char(i) != b.get_char(i) {
            return false;
        }
        i = i + 1;
    }
    assert(a@ =~= b@);
    true
}

/// The scale a control-panel name selects; an unknown name gives `None`.
pub fn scale_for_name(name: &str) -> (r: Option<ScaleKind>)
    ensures
        r == scale_for_name_spec(name@),
{
    if same_chars(name, "pentatonic") {
        Some(ScaleKind::CMajorPentatonic)
    } else if same_chars(name, "ionian") {
        Some(ScaleKind::Ionian)
    } else if same_chars(name, "dorian") {
        Some(ScaleKind::Dorian)
    } else if same_chars(name, "phrygian") {
        Some(ScaleKind::Phrygian)
    } else if same_chars(name, "lydian") {
        Some(ScaleKind::Lydian)
    } else if same_chars(name, "mixolydian") {
        Some(ScaleKind::Mixolydian)
    } else if same_chars(name, "aeolian") {
        Some(ScaleKind::Aeolian)
    } else if same_chars(name, "locrian") {
        Some(ScaleKind::Locrian)
    } else if same_chars(name, "tet19") {
        Some(ScaleKind::Tet19Pentatonic)
    } else if same_chars(name, "tet24") {
        Some(ScaleKind::Tet24Pentatonic)
    } else if same_chars(name, "tet31") {
        Some(ScaleKind::Tet31Pentatonic)
    } else {
        None
    }
}

/// Every scale's control-panel name selects that scale again.
pub proof fn lemma_scale_names_round_trip(kind: ScaleKind)
    ensures
        scale_for_name_spec(scale_name_spec(kind)) == Some(kind),
{
    reveal_strlit("pentatonic");
    reveal_strlit("ionian");
    reveal_strlit("dorian");
    reveal_strlit("phrygian");
    reveal_strlit("lydian");
    reveal_strlit("mixolydian");
    reveal_strlit("aeolian");
    reveal_strlit("locrian");
    reveal_strlit("tet19");
    reveal_strlit("tet24");
    reveal_strlit("tet31");
    assert("pentatonic"@.len() == 10 && "phrygian"@.len() == 8);
    assert("ionian"@[0] == 'i' && "dorian"@[0] == 'd' && "lydian"@[0] == 'l');
    assert("mixolydian"@[0] == 'm' && "aeolian"@[0] == 'a' && "locrian"@.len() == 7);
    assert("tet19"@[3] == '1' && "tet24"@[3] == '2' && "tet31"@[3] == '3');
}

/// Every scale spans one octave from the root and rises strictly; the diatonic
/// modes have eight degrees (root to octave) and the pentatonics six.
pub proof fn lemma_scales_well_formed(kind: ScaleKind)
    ensures
        well_formed_scale(scale_cents(kind)),
        is_diatonic(kind) ==> scale_cents(kind).len() == 8,
        !is_diatonic(kind) ==> scale_cents(kind).len() == 6,
{
    let s = scale_cents(kind);
    assert forall|i: int, j: int| 0 <= i < j < s.len() implies #[trigger] s[i] < #[trigger] s[j] by {
        assert forall|k: int| 0 <= k < s.len() - 1 implies #[trigger] s[k] < s[k + 1] by {}
        lemma_adjacent_rise_is_strict(s, i, j);
    }
}

proof fn lemma_adjacent_rise_is_strict(s: Seq<i32>, i: int, j: int)
    requires
        0 <= i < j < s.len(),
        forall|k: int| 0 <= k < s.len() - 1 ==> #[trigger] s[k] < s[k + 1],
    ensures
        s[i] < s[j],
    decreases j - i,
{
    if j > i + 1 {
        lemma_adjacent_rise_is_strict(s, i, j - 1);
    }
}

/// Number of phrases in the root-shift cycle; each phrase lasts six grid steps.
pub const PHRASE_COUNT: usize = 16;

/// Root shift (semitones) of each phrase in the cycle.
pub open spec fn phrase_root_shifts() -> Seq<i32> {
    seq![0i32, 0, 5, 5, 3, 3, 7, 7, 2, 2, 8, 8, 10, 10, 5, 5]
}

/// The phrase a grid step belongs to: steps are grouped six to a phrase and
/// the sixteen phrases repeat.
pub open spec fn phrase_index_spec(step: u64) -> int {
    (step as int / 6) % 16
}

/// Index of the phrase that grid step `step` falls in.
pub fn phrase_index(step: u64) -> (r: usize)
    ensures
        r as int == phrase_index_spec(step),
        r < PHRASE_COUNT,
{
    ((step / 6) % 16) as usize
}

/// A phrase lasts six grid steps and the sixteen phrases repeat every 96
/// steps.
pub proof fn lemma_phrase_cycle(step: u64)
    requires
        step as int + 96 <= u64::MAX,
    ensures
        phrase_index_spec((step + 96) as u64) == phrase_index_spec(step),
        step % 6 != 5 && step as int + 1 <= u64::MAX ==> phrase_index_spec((step + 1) as u64)
            == phrase_index_spec(step),
{
    assert((step as int + 96) / 6 == step as int / 6 + 16);
    vstd::arithmetic::div_mod::lemma_mod_add_multiples_vanish(step as int / 6, 16);
    if step % 6 != 5 {
        assert((step as int + 1) / 6 == step as int / 6);
    }
}

/// Root shift in semitones for phrase `phrase_idx`.
pub fn phrase_root_shift(phrase_idx: usize) -> (r: i32)
    requires
        phrase_idx < PHRASE_COUNT,
    ensures
        r == phrase_root_shifts()[phrase_idx as int],
{
    let table: [i32; 16] = [0, 0, 5, 5, 3, 3, 7, 7, 2, 2, 8, 8, 10, 10, 5, 5];
    assert(table@ =~= phrase_root_shifts());
    table[phrase_idx]
}

/// Whether phase `p` of a Euclidean rhythm of `hits` onsets spread over
/// `steps` slots is an onset: the running count `p * hits / steps` moves on
/// between `p` and `p + 1`.
pub open spec fn euclid_onset(p: int, steps: int, hits: int) -> bool {
    (p * hits) / steps != ((p + 1) * hits) / steps
}

/// Phase of grid step `step` in a `steps`-slot rhythm rotated by `rotate`
/// slots; the step counter enters as its low 32 bits.
pub open spec fn euclid_phase(step: u64, steps: u32, rotate: u32) -> int {
    ((step as u32) as int + rotate as int) % steps as int
}

/// Gate of grid step `step` for a Euclidean rhythm rotated by `rotate` slots;
/// no onsets when `steps` or `hits` is zero.
pub open spec fn euclid_gate_spec(step: u64, steps: u32, hits: u32, rotate: u32) -> bool {
    if steps == 0 || hits == 0 {
        false
    } else {
        euclid_onset(euclid_phase(step, steps, rotate), steps as int, hits as int)
    }
}

/// Euclidean hard gate: `true` on the onsets of a `hits`-in-`steps` rhythm
/// rotated by `rotate`, evaluated at grid step `step`.
pub fn euclidean_gate(step: u64, steps: u32, hits: u32, rotate: u32) -> (r: bool)
    ensures
        r == euclid_gate_spec(step, steps, hits, rotate),
{
    if steps == 0 || hits == 0 {
        return false;
    }
    let s: u64 = (step as u32) as u64 + rotate as u64;
    let n: u64 = steps as u64;
    let h: u64 = hits as u64;
    let p: u64 = s % n;
    assert(p * h <= 0xffff_ffff * 0xffff_ffffu64) by (nonlinear_arith)
        requires
            p < n,
            n <= 0xffff_ffff,
            h <= 0xffff_ffff,
    ;
    assert((p + 1) * h <= 0x1_0000_0000 * 0xffff_ffffu64) by (nonlinear_arith)
        requires
            p < n,
            n <= 0xffff_ffff,
            h <= 0xffff_ffff,
    ;
    let a: u64 = (p * h) / n;
    let b: u64 = ((p + 1) * h) / n;
    a != b
}

/// Number of onsets among phases `0..n` of a `hits`-in-`steps` rhythm.
pub open spec fn euclid_onsets_before(n: nat, steps: int, hits: int) -> nat
    decreases n,
{
    if n == 0 {
        0
    } else {
        euclid_onsets_before((n - 1) as nat, steps, hits) + if euclid_onset(n - 1, steps, hits) {
            1nat
        } else {
            0nat
        }
    }
}

proof fn lemma_quotient_step(n: int, steps: int, hits: int)
    requires
        0 <= n,
        0 <= hits <= steps,
        0 < steps,
    ensures
        (n * hits) / steps <= ((n + 1) * hits) / steps <= (n * hits) / steps + 1,
{
    let x = n * hits;
    let q = x / steps;
    let r = x % steps;
    vstd::arithmetic::div_mod::lemma_fundamental_div_mod(x, steps);
    assert((n + 1) * hits == n * hits + hits) by (nonlinear_arith);
    if r + hits < steps {
        assert((n + 1) * hits == q * steps + (r + hits)) by (nonlinear_arith)
            requires
                x == steps * q + r,
                x == n * hits,
                (n + 1) * hits == n * hits + hits,
        ;
        vstd::arithmetic::div_mod::lemma_fundamental_div_mod_converse(
            (n + 1) * hits,
            steps,
            q,
            r + hits,
        );
    } else {
        assert((n + 1) * hits == (q + 1) * steps + (r + hits - steps)) by (nonlinear_arith)
            requires
                x == steps * q + r,
                x == n * hits,
                (n + 1) * hits == n * hits + hits,
        ;
        vstd::arithmetic::div_mod::lemma_fundamental_div_mod_converse(
            (n + 1) * hits,
            steps,
            q + 1,
            r + hits - steps,
        );
    }
}

/// The onsets among the first `n` phases number exactly `n * hits / steps`.
proof fn lemma_onsets_prefix(n: nat, steps: int, hits: int)
    requires
        0 <= hits <= steps,
        0 < steps,
    ensures
        euclid_onsets_before(n, steps, hits) == (n * hits) / steps,
    decreases n,
{
    if n > 0 {
        let m = (n - 1) as nat;
        lemma_onsets_prefix(m, steps, hits);
        lemma_quotient_step(m as int, steps, hits);
        assert(m + 1 == n);
    } else {
        assert(0 * hits == 0);
    }
}

/// Over one full cycle of phases, a `hits`-in-`steps` Euclidean rhythm has
/// exactly `hits` onsets.
pub proof fn lemma_euclid_cycle_has_hits_onsets(steps: int, hits: int)
    requires
        1 <= hits <= steps,
    ensures
        euclid_onsets_before(steps as nat, steps, hits) == hits,
{
    lemma_onsets_prefix(steps as nat, steps, hits);
    assert(steps * hits == hits * steps) by (nonlinear_arith);
    vstd::arithmetic::div_mod::lemma_div_multiples_vanish(hits, steps);
}

/// Number of onsets among the phases `x, x + 1, .., x + n - 1` (taken modulo
/// `steps`).
pub open spec fn euclid_onsets_from(x: int, n: nat, steps: int, hits: int) -> nat
    decreases n,
{
    if n == 0 {
        0
    } else {
        euclid_onsets_from(x, (n - 1) as nat, steps, hits) + if euclid_onset(
            (x + n - 1) % steps,
            steps,
            hits,
        ) {
            1nat
        } else {
            0nat
        }
    }
}

proof fn lemma_onsets_from_shift(x: int, n: nat, steps: int, hits: int)
    ensures
        euclid_onsets_from(x, n + 1, steps, hits) == euclid_onsets_from(x + 1, n, steps, hits) + (
        if euclid_onset(x % steps, steps, hits) {
            1nat
        } else {
            0nat
        }),
    decreases n,
{
    let g = |t: int|
        if euclid_onset(t % steps, steps, hits) {
            1nat
        } else {
            0nat
        };
    assert(euclid_onsets_from(x, n + 1, steps, hits) == euclid_onsets_from(x, n, steps, hits) + g(
        x + n,
    ));
    if n > 0 {
        let m = (n - 1) as nat;
        lemma_onsets_from_shift(x, m, steps, hits);
        assert(euclid_onsets_from(x + 1, n, steps, hits) == euclid_onsets_from(x + 1, m, steps, hits)
            + g(x + 1 + n - 1));
        assert(x + 1 + n - 1 == x + n);
        assert(m + 1 == n);
    } else {
        assert(euclid_onsets_from(x, 0, steps, hits) == 0);
        assert(euclid_onsets_from(x + 1, 0, steps, hits) == 0);
    }
}

proof fn lemma_onsets_from_window(x: nat, steps: int, hits: int)
    requires
        0 < steps,
    ensures
        euclid_onsets_from(x as int, steps as nat, steps, hits) == euclid_onsets_from(
            0,
            steps as nat,
            steps,
            hits,
        ),
    decreases x,
{
    if x > 0 {
        let y = (x - 1) as nat;
        lemma_onsets_from_window(y, steps, hits);
        lemma_onsets_from_shift(y as int, steps as nat, steps, hits);
        vstd::arithmetic::div_mod::lemma_mod_add_multiples_vanish(y as int, steps);
        assert(y as int + steps as nat - 0 == steps + y);
        assert(y + 1 == x);
    }
}

proof fn lemma_onsets_from_zero(n: nat, steps: int, hits: int)
    requires
        n <= steps,
    ensures
        euclid_onsets_from(0, n, steps, hits) == euclid_onsets_before(n, steps, hits),
    decreases n,
{
    if n > 0 {
        lemma_onsets_from_zero((n - 1) as nat, steps, hits);
        vstd::arithmetic::div_mod::lemma_small_mod((n - 1) as nat, steps as nat);
    }
}

/// Number of steps among `start, start + 1, .., start + n - 1` on which the
/// gate of a `hits`-in-`steps` rhythm rotated by `rotate` fires.
pub open spec fn euclid_gate_onsets(start: u64, n: nat, steps: u32, hits: u32, rotate: u32) -> nat
    decreases n,
{
    if n == 0 {
        0
    } else {
        euclid_gate_onsets(start, (n - 1) as nat, steps, hits, rotate) + if euclid_gate_spec(
            (start + n - 1) as u64,
            steps,
            hits,
            rotate,
        ) {
            1nat
        } else {
            0nat
        }
    }
}

proof fn lemma_gate_onsets_are_phase_onsets(
    start: u64,
    n: nat,
    steps: u32,
    hits: u32,
    rotate: u32,
)
    requires
        0 < steps,
        0 < hits,
        start + n <= 0x1_0000_0000,
    ensures
        euclid_gate_onsets(start, n, steps, hits, rotate) == euclid_onsets_from(
            start + rotate,
            n,
            steps as int,
            hits as int,
        ),
    decreases n,
{
    if n > 0 {
        lemma_gate_onsets_are_phase_onsets(start, (n - 1) as nat, steps, hits, rotate);
        let t = (start + n - 1) as u64;
        assert(t < 0x1_0000_0000);
        assert((t as u32) == t);
        assert((t as u32) as int + rotate as int == start + rotate + n - 1);
    }
}

/// Over any `steps` consecutive grid steps (whose low 32 bits do not wrap), a
/// `hits`-in-`steps` Euclidean gate fires exactly `hits` times, whatever its
/// rotation.
pub proof fn lemma_euclid_gate_window_has_hits(start: u64, steps: u32, hits: u32, rotate: u32)
    requires
        1 <= hits <= steps,
        start + steps <= 0x1_0000_0000,
    ensures
        euclid_gate_onsets(start, steps as nat, steps, hits, rotate) == hits,
{
    lemma_gate_onsets_are_phase_onsets(start, steps as nat, steps, hits, rotate);
    lemma_onsets_from_window((start + rotate) as nat, steps as int, hits as int);
    lemma_onsets_from_zero(steps as nat, steps as int, hits as int);
    lemma_euclid_cycle_has_hits_onsets(steps as int, hits as int);
}

/// A voice's Euclidean gate repeats every `steps` grid steps, for step
/// counters whose low 32 bits do not wrap over that span.
pub proof fn lemma_euclid_gate_periodic(step: u64, steps: u32, hits: u32, rotate: u32)
    requires
        step as int + steps as int <= u32::MAX,
    ensures
        euclid_gate_spec((step + steps) as u64, steps, hits, rotate) == euclid_gate_spec(
            step,
            steps,
            hits,
            rotate,
        ),
{
    if steps != 0 && hits != 0 {
        let x = step as int + rotate as int;
        assert(((step + steps) as u64) as u32 == step + steps);
        assert((step as u32) == step);
        vstd::arithmetic::div_mod::lemma_mod_add_multiples_vanish(x, steps as int);
        assert(x + steps as int == ((step + steps) as u64 as u32) as int + rotate as int);
    }
}

/// Per-voice polymeter `(steps, hits, rotate)`: 5-in-13, 7-in-11 rotated by 2
/// and 4-in-17 rotated by 5, cycling with the voice index.
pub fn polymeter_for_voice(voice_index: usize) -> (r: (u32, u32, u32))
    ensures
        voice_index % 3 == 0 ==> r == (13u32, 5u32, 0u32),
        voice_index % 3 == 1 ==> r == (11u32, 7u32, 2u32),
        voice_index % 3 == 2 ==> r == (17u32, 4u32, 5u32),
{
    match voice_index % 3 {
        0 => (13, 5, 0),
        1 => (11, 7, 2),
        _ => (17, 4, 5),
    }
}

/// Motif tables (scale-degree offsets) of the three voice families.
pub open spec fn motif_table(family: int) -> Seq<i32> {
    if family == 0 {
        seq![0i32, 2, -1i32, 4, 0, 3, -2i32, 5, 1, -1i32, 3, 0]
    } else if family == 1 {
        seq![0i32, 1, 3, 2, -1i32, 4, 1, 2, 0]
    } else {
        seq![0i32, 4, 2, 5, 1, 6, 3, 5, 2, 4]
    }
}

/// Motif offset of voice `voice_index` at grid step `step` (the step counter
/// enters as a `usize`).
pub open spec fn motif_spec(voice_index: usize, step: u64) -> i32 {
    let t = motif_table(voice_index as int % 3);
    t[(step as usize) as int % t.len() as int]
}

/// The motif's scale-degree offset for a voice at a grid step.
pub fn motif_for_voice(voice_index: usize, step: u64) -> (r: i32)
    ensures
        r == motif_spec(voice_index, step),
        -2 <= r <= 6,
{
    let m0: [i32; 12] = [0, 2, -1, 4, 0, 3, -2, 5, 1, -1, 3, 0];
    let m1: [i32; 9] = [0, 1, 3, 2, -1, 4, 1, 2, 0];
    let m2: [i32; 10] = [0, 4, 2, 5, 1, 6, 3, 5, 2, 4];
    assert(m0@ =~= motif_table(0));
    assert(m1@ =~= motif_table(1));
    assert(m2@ =~= motif_table(2));
    let s = step as usize;
    match voice_index % 3 {
        0 => m0[s % 12],
        1 => m1[s % 9],
        _ => m2[s % 10],
    }
}

/// Strength class of the per-voice accent pattern at a grid step.
#[derive(Clone, Copy, Debug, PartialEq, Eq, Structural)]
pub enum AccentLevel {
    /// Start or midpoint of the voice's accent cycle.
    Strong,
    /// Other positions on a multiple of four.
    Medium,
    /// Every other position.
    Weak,
}

/// Length of voice `voice_index`'s accent cycle.
pub open spec fn accent_cycle(voice_index: usize) -> int {
    16 + voice_index as int * 3
}

/// Accent class of voice `voice_index` at grid step `step`.
pub open spec fn accent_level_spec(step: u64, voice_index: usize) -> AccentLevel {
    let cycle = accent_cycle(voice_index);
    let phase = (step as int + 3 * voice_index as int) % cycle;
    if phase == 0 || phase == cycle / 2 {
        AccentLevel::Strong
    } else if phase % 4 == 0 {
        AccentLevel::Medium
    } else {
        AccentLevel::Weak
    }
}

/// Classify the accent strength of a voice at a grid step: each voice has an
/// accent cycle of `16 + 3 * voice_index` steps, offset by three steps per voice.
pub fn accent_level(step: u64, voice_index: usize) -> (r: AccentLevel)
    requires
        step as int + 3 * voice_index as int <= u64::MAX,
        16 + 3 * voice_index as int <= u64::MAX,
    ensures
        r == accent_level_spec(step, voice_index),
{
    let vi = voice_index as u64;
    let cycle = 16 + vi * 3;
    let phase = (step + 3 * vi) % cycle;
    if phase == 0 || phase == cycle / 2 {
        AccentLevel::Strong
    } else if phase % 4 == 0 {
        AccentLevel::Medium
    } else {
        AccentLevel::Weak
    }
}

/// Each voice's accent pattern repeats with its cycle length.
pub proof fn lemma_accent_periodic(step: u64, voice_index: usize)
    requires
        step as int + 3 * voice_index as int + accent_cycle(voice_index) <= u64::MAX,
    ensures
        accent_level_spec((step + accent_cycle(voice_index)) as u64, voice_index)
            == accent_level_spec(step, voice_index),
{
    let c = accent_cycle(voice_index);
    let x = step as int + 3 * voice_index as int;
    vstd::arithmetic::div_mod::lemma_mod_add_multiples_vanish(x, c);
    assert(((step + c) as u64) as int + 3 * voice_index as int == x + c);
}

/// Odd stride of voice `voice_index`'s scale walk (the index enters as an
/// `i32`).
pub open spec fn scale_stride(voice_index: usize) -> int {
    (voice_index as i32) as int * 2 + 1
}

/// Position in the scale walk before wrapping: the step (as an `i32`) times
/// the voice's stride, plus its motif offset and the phrase index.
pub open spec fn scale_phase(step: u64, voice_index: usize) -> int {
    (step as i32) as int * scale_stride(voice_index) + motif_spec(voice_index, step) as int
        + phrase_index_spec(step)
}

/// Range condition: the scale walk computes in i32 without overflow.
pub open spec fn scale_walk_in_range(step: u64, voice_index: usize) -> bool {
    let a = (step as i32) as int * scale_stride(voice_index);
    &&& i32::MIN <= (voice_index as i32) as int * 2 <= i32::MAX
    &&& i32::MIN <= scale_stride(voice_index) <= i32::MAX
    &&& i32::MIN <= a <= i32::MAX
    &&& i32::MIN <= a + motif_spec(voice_index, step) <= i32::MAX
    &&& i32::MIN <= scale_phase(step, voice_index) <= i32::MAX
}

/// Index into a scale of `scale_len` degrees that voice `voice_index` plays at
/// grid step `step`: the scale phase wrapped into `0..scale_len`.
pub fn scale_position(step: u64, voice_index: usize, scale_len: usize) -> (r: usize)
    requires
        2 <= scale_len <= i32::MAX,
        scale_walk_in_range(step, voice_index),
    ensures
        r as int == scale_phase(step, voice_index) % (scale_len as int),
        r < scale_len,
{
    let motif = motif_for_voice(voice_index, step);
    let stride = (voice_index as i32) * 2 + 1;
    let phrase = phrase_index(step) as i32;
    let phase = (step as i32) * stride + motif + phrase;
    let len = scale_len as i32;
    let mut pos = phase % len;
    proof {
        if phase < 0 {
            lemma_negative_rem(phase as int, len as int);
        }
    }
    if pos < 0 {
        pos = pos + len;
    }
    pos as usize
}

/// For a negative dividend, the Euclidean remainder is the divisor minus the
/// remainder of the dividend's magnitude (or zero when that remainder is zero).
proof fn lemma_negative_rem(a: int, b: int)
    requires
        a < 0,
        b > 0,
    ensures
        (-a) % b == 0 ==> a % b == 0,
        (-a) % b != 0 ==> a % b == b - (-a) % b,
{
    let x = -a;
    let q = x / b;
    let m = x % b;
    vstd::arithmetic::div_mod::lemma_fundamental_div_mod(x, b);
    if m == 0 {
        assert(a == (-q) * b + 0) by (nonlinear_arith)
            requires
                x == b * q + m,
                m == 0,
                a == -x,
        ;
        vstd::arithmetic::div_mod::lemma_fundamental_div_mod_converse(a, b, -q, 0);
    } else {
        assert(a == (-q - 1) * b + (b - m)) by (nonlinear_arith)
            requires
                x == b * q + m,
                a == -x,
        ;
        vstd::arithmetic::div_mod::lemma_fundamental_div_mod_converse(a, b, -q - 1, b - m);
    }
}

/// Seed of voice `voice_index`'s generator, derived from the engine seed.
pub open spec fn voice_seed_spec(seed: u64, voice_index: usize) -> u64 {
    seed ^ (((voice_index as nat) * 0x9E37_79B9_7F4A_7C15nat) % 0x1_0000_0000_0000_0000nat) as u64
}

/// Derive a voice's generator seed from the engine seed so that voices can be
/// reseeded independently: the seed XOR the voice index times the 64-bit
/// golden-ratio constant (wrapping).
pub fn voice_seed(seed: u64, voice_index: usize) -> (r: u64)
    ensures
        r == voice_seed_spec(seed, voice_index),
{
    seed ^ (voice_index as u64).wrapping_mul(0x9E37_79B9_7F4A_7C15)
}

/// rand's standard generator, carried opaquely.
#[verifier::external_type_specification]
#[verifier::external_body]
pub struct ExStdRng(StdRng);

/// The generator rand's `StdRng::seed_from_u64` builds from `seed`: the seed
/// expanded with PCG32 into a ChaCha12 key. The construction is deterministic,
/// so the generator is a function of the seed alone.
pub uninterp spec fn std_rng_seeded(seed: u64) -> StdRng;

/// The value rand's `Rng::gen::<u64>` draws from a generator in state `rng`:
/// its `next_u64`, the next word of the ChaCha12 stream, a function of the
/// generator's state alone.
pub uninterp spec fn std_rng_next_u64(rng: StdRng) -> u64;

/// Calls rand's `StdRng::seed_from_u64`. The contract claims only that the
/// generator returned is the one named `std_rng_seeded(seed)`, i.e. that the
/// same seed always gives the same generator.
#[verifier::external_body]
fn seeded_rng(seed: u64) -> (r: StdRng)
    ensures
        r == std_rng_seeded(seed),
{
    StdRng::seed_from_u64(seed)
}

/// Calls rand's `Rng::gen::<u64>` on the generator, which draws the next
/// value of its stream and advances it. The contract claims that the value
/// drawn is the one named `std_rng_next_u64` of the generator before the
/// call; nothing is stated of the advanced generator.
#[verifier::external_body]
fn draw_u64(rng: &mut StdRng) -> (r: u64)
    ensures
        r == std_rng_next_u64(*old(rng)),
{
    rng.gen::<u64>()
}

/// One seeded random generator per voice, so voices can be reseeded
/// independently.
pub struct VoiceRngs {
    rngs: Vec<StdRng>,
}

impl VoiceRngs {
    /// Number of voices with a generator.
    pub closed spec fn count(&self) -> nat {
        self.rngs@.len()
    }

    /// All the voices' generators.
    pub closed spec fn rngs(&self) -> Seq<StdRng> {
        self.rngs@
    }

    /// The generator of voice `i`.
    pub closed spec fn rng_at(&self, i: int) -> StdRng {
        self.rngs@[i]
    }

    /// Generators for `voice_count` voices, voice `i` seeded with
    /// `voice_seed(seed, i)`.
    pub fn new(seed: u64, voice_count: usize) -> (r: Self)
        ensures
            r.count() == voice_count,
            forall|i: int|
                0 <= i < voice_count ==> #[trigger] r.rng_at(i) == std_rng_seeded(
                    voice_seed_spec(seed, i as usize),
                ),
    {
        let mut rngs: Vec<StdRng> = Vec::new();
        let mut i: usize = 0;
        while i < voice_count
            invariant
                i <= voice_count,
                rngs@.len() == i,
                forall|j: int|
                    0 <= j < i ==> #[trigger] rngs@[j] == std_rng_seeded(
                        voice_seed_spec(seed, j as usize),
                    ),
            decreases voice_count - i,
        {
            rngs.push(seeded_rng(voice_seed(seed, i)));
            i = i + 1;
        }
        VoiceRngs { rngs }
    }

    /// Number of voices with a generator.
    pub fn len(&self) -> (r: usize)
        ensures
            r as nat == self.count(),
    {
        self.rngs.len()
    }

    /// Reseed voice `voice_index`'s generator with `seed`, or, when `seed` is
    /// `None`, with a value drawn from that generator. Other voices are left
    /// as they are; an index past the last voice changes nothing.
    pub fn reseed_voice(&mut self, voice_index: usize, seed: Option<u64>)
        ensures
            final(self).count() == old(self).count(),
            voice_index < old(self).count() ==> final(self).rng_at(voice_index as int)
                == std_rng_seeded(
                match seed {
                    Some(s) => s,
                    None => std_rng_next_u64(old(self).rng_at(voice_index as int)),
                },
            ),
            forall|j: int|
                0 <= j < old(self).count() && j != voice_index ==> #[trigger] final(self).rng_at(j)
                    == old(self).rng_at(j),
            voice_index >= old(self).count() ==> final(self).rngs() == old(self).rngs(),
    {
        if voice_index < self.rngs.len() {
            let new_seed = match seed {
                Some(s) => s,
                None => draw_u64(&mut self.rngs[voice_index]),
            };
            self.rngs[voice_index] = seeded_rng(new_seed);
        }
    }

    /// The generator of voice `voice_index`, for drawing its next values.
    pub fn rng_mut(&mut self, voice_index: usize) -> (r: &mut StdRng)
        requires
            voice_index < old(self).count(),
        ensures
            *r == old(self).rng_at(voice_index as int),
            final(self).count() == old(self).count(),
            final(self).rng_at(voice_index as int) == *final(r),
            forall|j: int|
                0 <= j < old(self).count() && j != voice_index ==> #[trigger] final(self).rng_at(j)
                    == old(self).rng_at(j),
    {
        &mut self.rngs[voice_index]
    }
}

} // verus!
