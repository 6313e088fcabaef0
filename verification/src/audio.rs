//! Audio-side bookkeeping: the polyphony pool of in-flight one-shot voices and
//! the deterministic xorshift noise that seeds the reverb impulse response.
use vstd::prelude::*;

verus! {

/// The end times in `ends` that lie strictly after `now`, in their order.
///
/// End times are order keys of the audio clock: any encoding that preserves
/// the order of the (non-negative) clock values.
pub open spec fn live_ends(ends: Seq<u64>, now: u64) -> Seq<u64>
    decreases ends.len(),
{
    if ends.len() == 0 {
        ends
    } else {
        let rest = live_ends(ends.drop_last(), now);
        if ends.last() > now {
            rest.push(ends.last())
        } else {
            rest
        }
    }
}

/// Every end time kept by `live_ends` lies after `now` and came from `ends`.
pub proof fn lemma_live_ends_after_now(ends: Seq<u64>, now: u64)
    ensures
        live_ends(ends, now).len() <= ends.len(),
        forall|i: int|
            0 <= i < live_ends(ends, now).len() ==> #[trigger] live_ends(ends, now)[i] > now
                && ends.contains(live_ends(ends, now)[i]),
        forall|i: int| 0 <= i < ends.len() && #[trigger] ends[i] > now ==> live_ends(ends, now).contains(ends[i]),
    decreases ends.len(),
{
    if ends.len() > 0 {
        let init = ends.drop_last();
        lemma_live_ends_after_now(init, now);
        let r = live_ends(init, now);
        assert forall|i: int| 0 <= i < live_ends(ends, now).len() implies #[trigger] live_ends(
            ends,
            now,
        )[i] > now && ends.contains(live_ends(ends, now)[i]) by {
            if i < r.len() {
                let j = choose|j: int| 0 <= j < init.len() && init[j] == r[i];
                assert(ends[j] == r[i]);
            } else {
                assert(ends[ends.len() - 1] == ends.last());
            }
        }
        assert forall|i: int| 0 <= i < ends.len() && #[trigger] ends[i] > now implies live_ends(
            ends,
            now,
        ).contains(ends[i]) by {
            if i < ends.len() - 1 {
                assert(init[i] == ends[i]);
                let j = choose|j: int| 0 <= j < r.len() && r[j] == init[i];
                assert(live_ends(ends, now)[j] == ends[i]);
            } else {
                assert(live_ends(ends, now)[r.len() as int] == ends[i]);
            }
        }
    }
}

/// Pruning at `now` keeps exactly the end times strictly after `now`, in
/// their order and each occurrence separately: voices that end together are
/// all counted.
pub proof fn lemma_live_ends_keeps_every_later_end(ends: Seq<u64>, now: u64)
    ensures
        live_ends(ends, now) == ends.filter(|e: u64| e > now),
    decreases ends.len(),
{
    reveal(Seq::filter);
    if ends.len() > 0 {
        lemma_live_ends_keeps_every_later_end(ends.drop_last(), now);
    }
}

/// Pruning twice at the same time keeps what the first pruning kept.
pub proof fn lemma_live_ends_idempotent(ends: Seq<u64>, now: u64)
    ensures
        live_ends(live_ends(ends, now), now) == live_ends(ends, now),
    decreases ends.len(),
{
    if ends.len() > 0 {
        lemma_live_ends_idempotent(ends.drop_last(), now);
        let r = live_ends(ends.drop_last(), now);
        if ends.last() > now {
            assert(r.push(ends.last()).drop_last() =~= r);
        }
    }
}

/// In-flight one-shot voices, by the order key of their end time, for the
/// polyphony cap.
pub struct VoicePool {
    ends: Vec<u64>,
}

impl View for VoicePool {
    type V = Seq<u64>;

    closed spec fn view(&self) -> Seq<u64> {
        self.ends@
    }
}

impl VoicePool {
    /// An empty pool.
    pub fn new() -> (r: Self)
        ensures
            r@ == Seq::<u64>::empty(),
    {
        VoicePool { ends: Vec::new() }
    }

    /// Number of voices in the pool.
    pub fn len(&self) -> (r: usize)
        ensures
            r as nat == self@.len(),
    {
        self.ends.len()
    }

    /// Drop the voices that have ended by `now` and report whether the pool
    /// is still at (or over) `cap` voices, in which case a new note is dropped.
    pub fn prune_and_is_full(&mut self, now: u64, cap: usize) -> (r: bool)
        ensures
            final(self)@ == live_ends(old(self)@, now),
            final(self)@ == old(self)@.filter(|e: u64| e > now),
            r == (final(self)@.len() >= cap),
    {
        let mut kept: Vec<u64> = Vec::new();
        let mut i: usize = 0;
        while i < self.ends.len()
            invariant
                i <= self.ends.len(),
                self@ == old(self)@,
                kept@ == live_ends(self.ends@.take(i as int), now),
            decreases self.ends.len() - i,
        {
            let e = self.ends[i];
            proof {
                assert(self.ends@.take(i + 1).drop_last() =~= self.ends@.take(i as int));
            }
            if e > now {
                kept.push(e);
            }
            i = i + 1;
        }
        proof {
            assert(self.ends@.take(i as int) =~= self.ends@);
            lemma_live_ends_keeps_every_later_end(self.ends@, now);
        }
        self.ends = kept;
        self.ends.len() >= cap
    }

    /// Record a newly started voice ending at `end`.
    pub fn push_end(&mut self, end: u64)
        ensures
            final(self)@ == old(self)@.push(end),
    {
        self.ends.push(end);
    }
}

/// Clear the in-flight voice pool, so end times of an earlier run (on another
/// clock) do not trip the polyphony cap.
pub fn reset_voice_pool(pool: &mut VoicePool)
    ensures
        final(pool)@ == Seq::<u64>::empty(),
{
    *pool = VoicePool::new();
}

/// Admitting voices only when pruning reports room keeps the in-flight count
/// within the cap: pruning at `now` and then recording one voice never leaves
/// more than `cap` live voices.
pub proof fn lemma_admission_respects_cap(ends: Seq<u64>, now: u64, end: u64, cap: nat)
    requires
        live_ends(ends, now).len() < cap,
    ensures
        live_ends(ends, now).push(end).len() <= cap,
{
}

/// One xorshift32 step (shifts 13, 17, 5).
pub open spec fn xorshift32_spec(x: u32) -> u32 {
    let a = x ^ (x << 13u32);
    let b = a ^ (a >> 17u32);
    b ^ (b << 5u32)
}

/// Advance a xorshift32 generator by one step.
pub fn xorshift32_next(x: u32) -> (r: u32)
    ensures
        r == xorshift32_spec(x),
{
    let mut s = x;
    s = s ^ (s << 13);
    s = s ^ (s >> 17);
    s = s ^ (s << 5);
    s
}

/// A xorshift32 generator never reaches the all-zero state from a non-zero one.
pub proof fn lemma_xorshift32_nonzero(x: u32)
    requires
        x != 0,
    ensures
        xorshift32_spec(x) != 0,
{
    let a = x ^ (x << 13u32);
    let b = a ^ (a >> 17u32);
    assert(x != 0 ==> a != 0) by (bit_vector)
        requires
            a == x ^ (x << 13u32),
    ;
    assert(a != 0 ==> b != 0) by (bit_vector)
        requires
            b == a ^ (a >> 17u32),
    ;
    assert(b != 0 ==> b ^ (b << 5u32) != 0) by (bit_vector);
}

/// State of a xorshift32 generator after `n` steps from `seed`.
pub open spec fn xorshift32_iter(seed: u32, n: nat) -> u32
    decreases n,
{
    if n == 0 {
        seed
    } else {
        xorshift32_spec(xorshift32_iter(seed, (n - 1) as nat))
    }
}

/// Noise seed of each impulse-response channel.
pub open spec fn ir_channel_seed_spec(channel: usize) -> u32 {
    if channel == 0 {
        0x1234ABCDu32
    } else {
        0x7890FEDCu32
    }
}

/// The fixed noise seed of an impulse-response channel (left, then right).
pub fn ir_channel_seed(channel: usize) -> (r: u32)
    ensures
        r == ir_channel_seed_spec(channel),
        r != 0,
{
    if channel == 0 {
        0x1234ABCD
    } else {
        0x7890FEDC
    }
}

/// The first `len` states a xorshift32 generator produces from `seed`
/// (the seed itself excluded).
pub fn noise_states(seed: u32, len: usize) -> (r: Vec<u32>)
    ensures
        r@.len() == len,
        forall|i: int| 0 <= i < len ==> #[trigger] r@[i] == xorshift32_iter(seed, (i + 1) as nat),
{
    let mut out: Vec<u32> = Vec::new();
    let mut s = seed;
    let mut i: usize = 0;
    while i < len
        invariant
            i <= len,
            out@.len() == i,
            s == xorshift32_iter(seed, i as nat),
            forall|j: int| 0 <= j < i ==> #[trigger] out@[j] == xorshift32_iter(seed, (j + 1) as nat),
        decreases len - i,
    {
        s = xorshift32_next(s);
        out.push(s);
        i = i + 1;
    }
    out
}

/// Noise started from a non-zero seed never collapses to zero.
pub proof fn lemma_noise_stays_nonzero(seed: u32, n: nat)
    requires
        seed != 0,
    ensures
        xorshift32_iter(seed, n) != 0,
    decreases n,
{
    if n > 0 {
        lemma_noise_stays_nonzero(seed, (n - 1) as nat);
        lemma_xorshift32_nonzero(xorshift32_iter(seed, (n - 1) as nat));
    }
}

} // verus!
