//! Encoding of the offline render: interleaved stereo 32-bit IEEE-float PCM in
//! a canonical WAV container.
use vstd::prelude::*;

verus! {

/// Little-endian bytes of a 32-bit value.
pub open spec fn le_u32(x: u32) -> Seq<u8> {
    seq![
        (x % 256) as u8,
        ((x / 256) % 256) as u8,
        ((x / 65536) % 256) as u8,
        (x / 16777216) as u8,
    ]
}

/// Little-endian bytes of a 16-bit value.
pub open spec fn le_u16(x: u16) -> Seq<u8> {
    seq![(x % 256) as u8, (x / 256) as u8]
}

/// Size in bytes of the sample data for `frames` stereo frames, as the 32-bit
/// field of the header holds it.
pub open spec fn wav_data_len(frames: nat) -> u32 {
    ((frames * 8) % 0x1_0000_0000) as u32
}

/// The 44-byte header of a stereo, 32-bit IEEE-float WAV file.
pub open spec fn wav_header(frames: nat, sample_rate: u32) -> Seq<u8> {
    let data_len = wav_data_len(frames);
    seq![0x52u8, 0x49, 0x46, 0x46] + le_u32((36 + data_len) as u32) + seq![0x57u8, 0x41, 0x56, 0x45]
        + seq![0x66u8, 0x6d, 0x74, 0x20] + le_u32(16) + le_u16(3) + le_u16(2) + le_u32(sample_rate)
        + le_u32((sample_rate * 8) as u32) + le_u16(8) + le_u16(32) + seq![0x64u8, 0x61, 0x74, 0x61]
        + le_u32(data_len)
}

/// Interleaved sample bytes of the first `n` frames: left then right, each a
/// little-endian 32-bit word.
pub open spec fn wav_samples(left: Seq<u32>, right: Seq<u32>, n: nat) -> Seq<u8>
    decreases n,
{
    if n == 0 {
        Seq::empty()
    } else {
        wav_samples(left, right, (n - 1) as nat) + le_u32(left[n - 1]) + le_u32(right[n - 1])
    }
}

/// Number of frames written: the shorter channel's length.
pub open spec fn wav_frames(left: Seq<u32>, right: Seq<u32>) -> nat {
    if left.len() <= right.len() {
        left.len()
    } else {
        right.len()
    }
}

/// The inputs whose sizes fit the header's arithmetic.
pub open spec fn wav_sizes_in_range(left: Seq<u32>, right: Seq<u32>, sample_rate: u32) -> bool {
    &&& wav_frames(left, right) * 8 <= usize::MAX
    &&& 36 + wav_data_len(wav_frames(left, right)) <= u32::MAX
    &&& sample_rate * 8 <= u32::MAX
}

/// The 32-bit little-endian word stored in `bytes` at offset `at`.
pub open spec fn le_word(bytes: Seq<u8>, at: int) -> int {
    bytes[at] as int + 256 * bytes[at + 1] as int + 65536 * bytes[at + 2] as int + 16777216
        * bytes[at + 3] as int
}

/// The 16-bit little-endian word stored in `bytes` at offset `at`.
pub open spec fn le_half(bytes: Seq<u8>, at: int) -> int {
    bytes[at] as int + 256 * bytes[at + 1] as int
}

/// Reading back the four bytes written for `x` gives `x`.
pub proof fn lemma_le_u32_reads_back(x: u32)
    ensures
        le_u32(x).len() == 4,
        le_word(le_u32(x), 0) == x,
{
    assert(x == x % 256 + 256 * ((x / 256) % 256) + 65536 * ((x / 65536) % 256) + 16777216 * (x
        / 16777216)) by (nonlinear_arith);
}

/// Reading back the two bytes written for `x` gives `x`.
pub proof fn lemma_le_u16_reads_back(x: u16)
    ensures
        le_u16(x).len() == 2,
        le_half(le_u16(x), 0) == x,
{
    assert(x == x % 256 + 256 * (x / 256)) by (nonlinear_arith);
}

/// Frame `k` of the sample bytes sits at offset `8 * k`: the left word, then
/// the right word.
proof fn lemma_wav_samples_layout(left: Seq<u32>, right: Seq<u32>, n: nat, k: int, j: int)
    requires
        n <= left.len(),
        n <= right.len(),
        0 <= k < n,
        0 <= j < 4,
    ensures
        wav_samples(left, right, n).len() == 8 * n,
        wav_samples(left, right, n)[8 * k + j] == le_u32(left[k])[j],
        wav_samples(left, right, n)[8 * k + 4 + j] == le_u32(right[k])[j],
    decreases n,
{
    let m = (n - 1) as nat;
    let prev = wav_samples(left, right, m);
    if k < m {
        lemma_wav_samples_layout(left, right, m, k, j);
    } else {
        if m > 0 {
            lemma_wav_samples_layout(left, right, m, 0, 0);
        }
        assert(prev.len() == 8 * m);
    }
    assert(wav_samples(left, right, n) == prev + le_u32(left[m as int]) + le_u32(right[m as int]));
}

/// Every frame of the encoded file reads back in order: frame `k`'s left
/// sample is the word at offset `44 + 8k` and its right sample the word at
/// `44 + 8k + 4`.
pub proof fn lemma_wav_frames_read_back(left: Seq<u32>, right: Seq<u32>, sample_rate: u32, n: nat)
    requires
        n <= left.len(),
        n <= right.len(),
    ensures
        ({
            let b = wav_header(n, sample_rate) + wav_samples(left, right, n);
            &&& b.len() == 44 + 8 * n
            &&& forall|k: int|
                0 <= k < n ==> le_word(b, 44 + 8 * k) == left[k] && le_word(b, 44 + 8 * k + 4)
                    == right[k]
        }),
{
    let b = wav_header(n, sample_rate) + wav_samples(left, right, n);
    lemma_wav_length(left, right, sample_rate, n);
    assert forall|k: int| 0 <= k < n implies le_word(b, 44 + 8 * k) == left[k] && le_word(
        b,
        44 + 8 * k + 4,
    ) == right[k] by {
        lemma_wav_samples_layout(left, right, n, k, 0);
        lemma_wav_samples_layout(left, right, n, k, 1);
        lemma_wav_samples_layout(left, right, n, k, 2);
        lemma_wav_samples_layout(left, right, n, k, 3);
        lemma_le_u32_reads_back(left[k]);
        lemma_le_u32_reads_back(right[k]);
        assert(le_word(b, 44 + 8 * k) == le_word(le_u32(left[k]), 0));
        assert(le_word(b, 44 + 8 * k + 4) == le_word(le_u32(right[k]), 0));
    }
}

/// The encoded file, read back: every frame's left and right samples sit,
/// frame after frame and left before right, at offsets `44 + 8k` and
/// `44 + 8k + 4`; the header records the format (IEEE float, two channels,
/// 32 bits), the sample rate, the byte rate, the block size and the sizes.
pub proof fn lemma_wav_reads_back(left: Seq<u32>, right: Seq<u32>, sample_rate: u32, n: nat)
    requires
        n <= left.len(),
        n <= right.len(),
        36 + 8 * n <= u32::MAX,
        sample_rate * 8 <= u32::MAX,
    ensures
        ({
            let b = wav_header(n, sample_rate) + wav_samples(left, right, n);
            &&& b.len() == 44 + 8 * n
            &&& le_word(b, 4) == b.len() - 8
            &&& le_half(b, 20) == 3
            &&& le_half(b, 22) == 2
            &&& le_word(b, 24) == sample_rate
            &&& le_word(b, 28) == 8 * sample_rate
            &&& le_half(b, 32) == 8
            &&& le_half(b, 34) == 32
            &&& le_word(b, 40) == 8 * n
            &&& forall|k: int|
                0 <= k < n ==> le_word(b, 44 + 8 * k) == left[k] && le_word(b, 44 + 8 * k + 4)
                    == right[k]
        }),
{
    let h = wav_header(n, sample_rate);
    let s = wav_samples(left, right, n);
    let b = h + s;
    lemma_wav_length(left, right, sample_rate, n);
    let data_len = wav_data_len(n);
    lemma_le_u32_reads_back((36 + data_len) as u32);
    lemma_le_u32_reads_back(sample_rate);
    lemma_le_u32_reads_back((sample_rate * 8) as u32);
    lemma_le_u32_reads_back(data_len);
    lemma_le_u16_reads_back(3);
    lemma_le_u16_reads_back(2);
    lemma_le_u16_reads_back(8);
    lemma_le_u16_reads_back(32);
    assert(le_word(b, 4) == le_word(le_u32((36 + data_len) as u32), 0));
    assert(le_half(b, 20) == le_half(le_u16(3), 0));
    assert(le_half(b, 22) == le_half(le_u16(2), 0));
    assert(le_word(b, 24) == le_word(le_u32(sample_rate), 0));
    assert(le_word(b, 28) == le_word(le_u32((sample_rate * 8) as u32), 0));
    assert(le_half(b, 32) == le_half(le_u16(8), 0));
    assert(le_half(b, 34) == le_half(le_u16(32), 0));
    assert(le_word(b, 40) == le_word(le_u32(data_len), 0));
    lemma_wav_frames_read_back(left, right, sample_rate, n);
}

fn push_u32_le(out: &mut Vec<u8>, x: u32)
    ensures
        final(out)@ == old(out)@ + le_u32(x),
{
    let b0 = (x & 0xff) as u8;
    let b1 = ((x >> 8) & 0xff) as u8;
    let b2 = ((x >> 16) & 0xff) as u8;
    let b3 = (x >> 24) as u8;
    assert(b0 == (x % 256) as u8 && b1 == ((x / 256) % 256) as u8 && b2 == ((x / 65536) % 256) as u8
        && b3 == (x / 16777216) as u8) by (bit_vector)
        requires
            b0 == (x & 0xff) as u8,
            b1 == ((x >> 8) & 0xff) as u8,
            b2 == ((x >> 16) & 0xff) as u8,
            b3 == (x >> 24) as u8,
    ;
    out.push(b0);
    out.push(b1);
    out.push(b2);
    out.push(b3);
    assert(final(out)@ =~= old(out)@ + le_u32(x));
}

fn push_u16_le(out: &mut Vec<u8>, x: u16)
    ensures
        final(out)@ == old(out)@ + le_u16(x),
{
    let b0 = (x & 0xff) as u8;
    let b1 = (x >> 8) as u8;
    assert(b0 == (x % 256) as u8 && b1 == (x / 256) as u8) by (bit_vector)
        requires
            b0 == (x & 0xff) as u8,
            b1 == (x >> 8) as u8,
    ;
    out.push(b0);
    out.push(b1);
    assert(final(out)@ =~= old(out)@ + le_u16(x));
}

fn push_tag(out: &mut Vec<u8>, a: u8, b: u8, c: u8, d: u8)
    ensures
        final(out)@ == old(out)@ + seq![a, b, c, d],
{
    out.push(a);
    out.push(b);
    out.push(c);
    out.push(d);
    assert(final(out)@ =~= old(out)@ + seq![a, b, c, d]);
}

/// Encode stereo samples (given as the bit patterns of their 32-bit floats) as
/// a canonical 32-bit IEEE-float WAV: the 44-byte header, then the frames of
/// the shorter channel's length, interleaved left/right, little-endian.
pub fn encode_wav_f32(left: &[u32], right: &[u32], sample_rate: u32) -> (r: Vec<u8>)
    requires
        wav_sizes_in_range(left@, right@, sample_rate),
    ensures
        r@ == wav_header(wav_frames(left@, right@), sample_rate) + wav_samples(
            left@,
            right@,
            wav_frames(left@, right@),
        ),
        r@.len() == 44 + 8 * wav_frames(left@, right@),
        forall|k: int|
            0 <= k < wav_frames(left@, right@) ==> le_word(r@, 44 + 8 * k) == left@[k] && le_word(
                r@,
                44 + 8 * k + 4,
            ) == right@[k],
{
    let n = if left.len() <= right.len() {
        left.len()
    } else {
        right.len()
    };
    let bytes = n * 8;
    let wide = bytes as u64;
    let data_len = wide as u32;
    assert(data_len == wide % 0x1_0000_0000) by (bit_vector)
        requires
            data_len == wide as u32,
    ;
    let channels: u16 = 2;
    let bits: u16 = 32;
    let block_align: u16 = channels * bits / 8;
    let byte_rate: u32 = sample_rate * (block_align as u32);
    let mut out: Vec<u8> = Vec::new();
    push_tag(&mut out, 0x52, 0x49, 0x46, 0x46);
    push_u32_le(&mut out, 36 + data_len);
    push_tag(&mut out, 0x57, 0x41, 0x56, 0x45);
    push_tag(&mut out, 0x66, 0x6d, 0x74, 0x20);
    push_u32_le(&mut out, 16);
    push_u16_le(&mut out, 3);
    push_u16_le(&mut out, channels);
    push_u32_le(&mut out, sample_rate);
    push_u32_le(&mut out, byte_rate);
    push_u16_le(&mut out, block_align);
    push_u16_le(&mut out, bits);
    push_tag(&mut out, 0x64, 0x61, 0x74, 0x61);
    push_u32_le(&mut out, data_len);
    let ghost header = out@;
    assert(header =~= wav_header(n as nat, sample_rate));
    let mut i: usize = 0;
    while i < n
        invariant
            i <= n,
            n <= left@.len(),
            n <= right@.len(),
            out@ == header + wav_samples(left@, right@, i as nat),
        decreases n - i,
    {
        push_u32_le(&mut out, left[i]);
        push_u32_le(&mut out, right[i]);
        i = i + 1;
        assert(out@ =~= header + wav_samples(left@, right@, i as nat));
    }
    proof {
        lemma_wav_frames_read_back(left@, right@, sample_rate, n as nat);
    }
    out
}

/// A WAV file is its 44-byte header followed by eight bytes per frame; while
/// the sample data fits the 32-bit size fields, the data size field holds the
/// sample byte count and the RIFF size field the file length minus eight.
pub proof fn lemma_wav_length(left: Seq<u32>, right: Seq<u32>, sample_rate: u32, n: nat)
    requires
        n <= left.len(),
        n <= right.len(),
    ensures
        wav_header(n, sample_rate).len() == 44,
        wav_samples(left, right, n).len() == 8 * n,
        8 * n < 0x1_0000_0000 ==> wav_data_len(n) == 8 * n,
        8 * n < 0x1_0000_0000 ==> 36 + wav_data_len(n) == (44 + 8 * n) - 8,
    decreases n,
{
    if n > 0 {
        lemma_wav_length(left, right, sample_rate, (n - 1) as nat);
    }
    if 8 * n < 0x1_0000_0000 {
        vstd::arithmetic::div_mod::lemma_small_mod((n * 8) as nat, 0x1_0000_0000nat);
    }
}

} // verus!
