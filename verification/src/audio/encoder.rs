//! WAV (RIFF, 16-bit PCM) encoding of recorded samples.
use vstd::prelude::*;

verus! {

/// Little-endian bytes of a 16-bit value.
pub open spec fn le16(v: u16) -> Seq<u8> {
    seq![(v % 256) as u8, (v / 256) as u8]
}

/// Little-endian bytes of a 32-bit value.
pub open spec fn le32(v: u32) -> Seq<u8> {
    seq![
        (v % 256) as u8,
        ((v / 256) % 256) as u8,
        ((v / 65536) % 256) as u8,
        (v / 16777216) as u8,
    ]
}

/// The samples as little-endian 16-bit two's-complement bytes.
pub open spec fn pcm_bytes(samples: Seq<i16>) -> Seq<u8>
    decreases samples.len(),
{
    if samples.len() == 0 {
        Seq::empty()
    } else {
        pcm_bytes(samples.drop_last()) + le16(samples.last() as u16)
    }
}

/// Byte size of the sample data.
pub open spec fn data_len(samples: Seq<i16>) -> nat {
    samples.len() * 2
}

/// The canonical 44-byte header of a 16-bit PCM WAV file holding `n_samples`
/// samples.
pub open spec fn wav_header(n_samples: nat, sample_rate: u32, channels: u16) -> Seq<u8> {
    let data = (n_samples * 2) as u32;
    seq![0x52u8, 0x49u8, 0x46u8, 0x46u8] // "RIFF"
     + le32((36 + data) as u32) + seq![0x57u8, 0x41u8, 0x56u8, 0x45u8] // "WAVE"
     + seq![0x66u8, 0x6du8, 0x74u8, 0x20u8] // "fmt "
     + le32(16) + le16(1) + le16(channels) + le32(sample_rate) + le32(
        (sample_rate * channels * 2) as u32,
    ) + le16((channels * 2) as u16) + le16(16) + seq![0x64u8, 0x61u8, 0x74u8, 0x61u8] // "data"
     + le32(data)
}

/// The complete WAV file: header, then the samples.
pub open spec fn wav_file(samples: Seq<i16>, sample_rate: u32, channels: u16) -> Seq<u8> {
    wav_header(samples.len(), sample_rate, channels) + pcm_bytes(samples)
}

/// The 16-bit value that two little-endian bytes hold.
pub open spec fn read16(b: Seq<u8>, at: int) -> int {
    b[at] + 256 * b[at + 1]
}

/// The 32-bit value that four little-endian bytes hold.
pub open spec fn read32(b: Seq<u8>, at: int) -> int {
    b[at] + 256 * b[at + 1] + 65536 * b[at + 2] + 16777216 * b[at + 3]
}

/// Two little-endian bytes read back as the value they were written from.
proof fn lemma_le16_reads_back(v: u16)
    ensures
        le16(v).len() == 2,
        read16(le16(v), 0) == v,
{
    assert((v % 256) as u8 == v % 256 && (v / 256) as u8 == v / 256) by (bit_vector);
    assert(v % 256 + 256 * (v / 256) == v) by (nonlinear_arith);
}

/// Four little-endian bytes read back as the value they were written from.
proof fn lemma_le32_reads_back(v: u32)
    ensures
        le32(v).len() == 4,
        read32(le32(v), 0) == v,
{
    assert((v % 256) as u8 == v % 256 && ((v / 256) % 256) as u8 == (v / 256) % 256 && ((v / 65536)
        % 256) as u8 == (v / 65536) % 256 && (v / 16777216) as u8 == v / 16777216) by (bit_vector);
    assert(v % 256 + 256 * ((v / 256) % 256) + 65536 * ((v / 65536) % 256) + 16777216 * (v
        / 16777216) == v) by (nonlinear_arith);
}

/// The header of an encoded file describes its 16-bit data: 1 (PCM) as the
/// format, `channels` channels at `sample_rate`, 16 bits per sample, a
/// frame (block align) of `channels * 16 / 8` bytes, a byte rate of
/// `sample_rate` frames, a data size of two bytes per sample after the
/// 44-byte header, and a RIFF size of the file less 8 bytes.
pub proof fn law_wav_header_fields(samples: Seq<i16>, sample_rate: u32, channels: u16)
    requires
        samples.len() * 2 + 36 <= u32::MAX,
        sample_rate * channels * 2 <= u32::MAX,
        channels * 2 <= u16::MAX,
    ensures
        ({
            let f = wav_file(samples, sample_rate, channels);
            &&& f.len() == 44 + 2 * samples.len()
            &&& read32(f, 4) == f.len() - 8
            &&& read16(f, 20) == 1
            &&& read16(f, 22) == channels
            &&& read32(f, 24) == sample_rate
            &&& read16(f, 34) == 16
            &&& read16(f, 32) == channels * read16(f, 34) / 8
            &&& read32(f, 28) == sample_rate * read16(f, 32)
            &&& read32(f, 40) == 2 * samples.len()
            &&& read32(f, 40) == f.len() - 44
        }),
{
    let data = (samples.len() * 2) as u32;
    let size = (36 + data) as u32;
    let br = (sample_rate * channels * 2) as u32;
    let ba = (channels * 2) as u16;
    let h = wav_header(samples.len(), sample_rate, channels);
    let f = wav_file(samples, sample_rate, channels);
    lemma_pcm_len(samples);
    lemma_header_layout(size, channels, sample_rate, br, ba, data);
    assert(h == header_layout(size, channels, sample_rate, br, ba, data));
    assert forall|i: int| 0 <= i < 44 implies f[i] == h[i] by {}
    assert(br == sample_rate * channels * 2);
    assert(ba == channels * 2);
    assert(sample_rate * channels * 2 == sample_rate * (channels * 2)) by (nonlinear_arith);
}

/// The 44 header bytes with the given field values.
pub open spec fn header_layout(size: u32, channels: u16, rate: u32, byte_rate: u32, block_align: u16, data: u32) -> Seq<u8> {
    seq![0x52u8, 0x49u8, 0x46u8, 0x46u8] + le32(size) + seq![0x57u8, 0x41u8, 0x56u8, 0x45u8] + seq![
        0x66u8,
        0x6du8,
        0x74u8,
        0x20u8,
    ] + le32(16) + le16(1) + le16(channels) + le32(rate) + le32(byte_rate) + le16(block_align)
        + le16(16) + seq![0x64u8, 0x61u8, 0x74u8, 0x61u8] + le32(data)
}

/// Where each field stands in the header, read back.
#[verifier::rlimit(60)]
proof fn lemma_header_layout(size: u32, channels: u16, rate: u32, byte_rate: u32, block_align: u16, data: u32)
    ensures
        ({
            let h = header_layout(size, channels, rate, byte_rate, block_align, data);
            &&& h.len() == 44
            &&& read32(h, 4) == size
            &&& read16(h, 20) == 1
            &&& read16(h, 22) == channels
            &&& read32(h, 24) == rate
            &&& read32(h, 28) == byte_rate
            &&& read16(h, 32) == block_align
            &&& read16(h, 34) == 16
            &&& read32(h, 40) == data
        }),
{
    let h = header_layout(size, channels, rate, byte_rate, block_align, data);
    lemma_le32_reads_back(size);
    lemma_le16_reads_back(1);
    lemma_le16_reads_back(channels);
    lemma_le32_reads_back(rate);
    lemma_le32_reads_back(byte_rate);
    lemma_le16_reads_back(block_align);
    lemma_le16_reads_back(16);
    lemma_le32_reads_back(16);
    lemma_le32_reads_back(data);
    let a = le32(size);
    let c = le16(channels);
    let d = le32(rate);
    let e = le32(byte_rate);
    let g = le16(block_align);
    let k = le32(data);
    assert(h[4] == a[0] && h[5] == a[1] && h[6] == a[2] && h[7] == a[3]);
    assert(h[20] == le16(1)[0] && h[21] == le16(1)[1]);
    assert(h[22] == c[0] && h[23] == c[1]);
    assert(h[24] == d[0] && h[25] == d[1] && h[26] == d[2] && h[27] == d[3]);
    assert(h[28] == e[0] && h[29] == e[1] && h[30] == e[2] && h[31] == e[3]);
    assert(h[32] == g[0] && h[33] == g[1]);
    assert(h[34] == le16(16)[0] && h[35] == le16(16)[1]);
    assert(h[40] == k[0] && h[41] == k[1] && h[42] == k[2] && h[43] == k[3]);
}

/// Sample `i` sits in bytes `2i` and `2i + 1` of the sample data.
proof fn lemma_pcm_at(samples: Seq<i16>, i: int)
    requires
        0 <= i < samples.len(),
    ensures
        pcm_bytes(samples).len() == 2 * samples.len(),
        pcm_bytes(samples)[2 * i] == le16(samples[i] as u16)[0],
        pcm_bytes(samples)[2 * i + 1] == le16(samples[i] as u16)[1],
    decreases samples.len(),
{
    lemma_pcm_len(samples);
    let rest = samples.drop_last();
    lemma_pcm_len(rest);
    if i < samples.len() - 1 {
        lemma_pcm_at(rest, i);
    }
}

/// After the 44-byte header, the file holds the samples in order, each as
/// a little-endian 16-bit two's-complement value.
pub proof fn law_wav_samples_in_order(samples: Seq<i16>, sample_rate: u32, channels: u16, i: int)
    requires
        0 <= i < samples.len(),
    ensures
        wav_file(samples, sample_rate, channels).len() >= 44 + 2 * i + 2,
        read16(wav_file(samples, sample_rate, channels), 44 + 2 * i) == samples[i] as u16,
{
    let h = wav_header(samples.len(), sample_rate, channels);
    assert(h.len() == 44);
    lemma_pcm_at(samples, i);
    lemma_le16_reads_back(samples[i] as u16);
    let f = wav_file(samples, sample_rate, channels);
    assert(f[44 + 2 * i] == pcm_bytes(samples)[2 * i]);
    assert(f[44 + 2 * i + 1] == pcm_bytes(samples)[2 * i + 1]);
}

/// Two bytes per sample.
proof fn lemma_pcm_len(samples: Seq<i16>)
    ensures
        pcm_bytes(samples).len() == 2 * samples.len(),
    decreases samples.len(),
{
    if samples.len() > 0 {
        lemma_pcm_len(samples.drop_last());
    }
}

/// Appends the little-endian bytes of `v`.
fn push_le16(out: &mut Vec<u8>, v: u16)
    ensures
        final(out)@ == old(out)@ + le16(v),
{
    let lo = (v & 0xff) as u8;
    let hi = (v >> 8) as u8;
    assert(lo == (v % 256) as u8 && hi == (v / 256) as u8) by (bit_vector)
        requires
            lo == (v & 0xff) as u8,
            hi == (v >> 8) as u8,
    ;
    out.push(lo);
    out.push(hi);
    assert(final(out)@ =~= old(out)@ + le16(v));
}

/// Appends the little-endian bytes of `v`.
fn push_le32(out: &mut Vec<u8>, v: u32)
    ensures
        final(out)@ == old(out)@ + le32(v),
{
    let b0 = (v & 0xff) as u8;
    let b1 = ((v >> 8) & 0xff) as u8;
    let b2 = ((v >> 16) & 0xff) as u8;
    let b3 = (v >> 24) as u8;
    assert(b0 == (v % 256) as u8 && b1 == ((v / 256) % 256) as u8 && b2 == ((v / 65536) % 256) as u8
        && b3 == (v / 16777216) as u8) by (bit_vector)
        requires
            b0 == (v & 0xff) as u8,
            b1 == ((v >> 8) & 0xff) as u8,
            b2 == ((v >> 16) & 0xff) as u8,
            b3 == (v >> 24) as u8,
    ;
    out.push(b0);
    out.push(b1);
    out.push(b2);
    out.push(b3);
    assert(final(out)@ =~= old(out)@ + le32(v));
}

/// Appends four bytes.
fn push4(out: &mut Vec<u8>, a: u8, b: u8, c: u8, d: u8)
    ensures
        final(out)@ == old(out)@ + seq![a, b, c, d],
{
    out.push(a);
    out.push(b);
    out.push(c);
    out.push(d);
    assert(final(out)@ =~= old(out)@ + seq![a, b, c, d]);
}

/// Appends the samples as little-endian bytes.
fn push_pcm(out: &mut Vec<u8>, samples: &[i16])
    ensures
        final(out)@ == old(out)@ + pcm_bytes(samples@),
{
    let mut i: usize = 0;
    while i < samples.len()
        invariant
            i <= samples@.len(),
            out@ == old(out)@ + pcm_bytes(samples@.take(i as int)),
        decreases samples.len() - i,
    {
        push_le16(out, samples[i] as u16);
        proof {
            let t = samples@.take(i + 1);
            assert(t.drop_last() =~= samples@.take(i as int));
            assert(t.last() == samples@[i as int]);
            assert(out@ =~= old(out)@ + pcm_bytes(t));
        }
        i = i + 1;
    }
    assert(samples@.take(samples@.len() as int) =~= samples@);
}

/// PCM samples as little-endian 16-bit bytes (the stream format of the
/// realtime recogniser).
pub fn pcm_to_le_bytes(pcm: &[i16]) -> (r: Vec<u8>)
    ensures
        r@ == pcm_bytes(pcm@),
{
    let mut out: Vec<u8> = Vec::new();
    push_pcm(&mut out, pcm);
    assert(out@ =~= pcm_bytes(pcm@));
    out
}

/// Encodes 16-bit PCM samples as a WAV file: a 44-byte RIFF header followed
/// by the samples, little-endian.
pub fn encode_wav(samples: &[i16], sample_rate: u32, channels: u16) -> (r: Vec<u8>)
    requires
        samples@.len() * 2 + 36 <= u32::MAX,
        sample_rate * channels * 2 <= u32::MAX,
        channels * 2 <= u16::MAX,
    ensures
        r@ == wav_file(samples@, sample_rate, channels),
        // one frame is a 16-bit sample per channel, and the byte rate is a
        // frame per sample period
        read16(r@, 32) == channels * 2,
        read32(r@, 28) == sample_rate * channels * 2,
{
    proof {
        law_wav_header_fields(samples@, sample_rate, channels);
        assert(sample_rate * (channels * 2) == sample_rate * channels * 2) by (nonlinear_arith);
    }
    let data_len: u32 = (samples.len() * 2) as u32;
    let byte_rate: u32 = sample_rate * channels as u32 * 2;
    let block_align: u16 = channels * 2;
    let mut w: Vec<u8> = Vec::new();
    push4(&mut w, 0x52, 0x49, 0x46, 0x46);
    push_le32(&mut w, 36 + data_len);
    push4(&mut w, 0x57, 0x41, 0x56, 0x45);
    push4(&mut w, 0x66, 0x6d, 0x74, 0x20);
    push_le32(&mut w, 16);
    push_le16(&mut w, 1);
    push_le16(&mut w, channels);
    push_le32(&mut w, sample_rate);
    push_le32(&mut w, byte_rate);
    push_le16(&mut w, block_align);
    push_le16(&mut w, 16);
    push4(&mut w, 0x64, 0x61, 0x74, 0x61);
    push_le32(&mut w, data_len);
    assert(w@ =~= wav_header(samples@.len(), sample_rate, channels));
    push_pcm(&mut w, samples);
    w
}

} // verus!
