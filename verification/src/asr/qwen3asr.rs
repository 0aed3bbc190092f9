//! Qwen3-ASR through an OpenAI-style transcription endpoint: recordings are
//! cut into chunks of a fixed length, each chunk is transcribed on its own,
//! and the texts become timed segments.
use vstd::prelude::*;
use crate::asr::transcript::TranscriptSegment;
use crate::error::AppError;
use crate::llm::client::{endpoint, endpoint_url, trim_end_char, trim_end_char_chars};
use crate::text::{
    chars_of, copy_string, find, find_chars, lemma_find_from_props, slice_chars, string_of, trim,
    trim_chars,
};

verus! {

/// Length of the chunks that are transcribed one by one, in seconds.
pub const CHUNK_SECS: u32 = 30;

/// Transcribes recordings chunk by chunk with a Qwen3-ASR server.
#[derive(Debug)]
pub struct Qwen3AsrProvider {
    api_url: String,
}

impl Qwen3AsrProvider {
    /// The server address (without trailing slashes).
    pub closed spec fn url(&self) -> Seq<char> {
        self.api_url@
    }

    /// A recogniser for the server at `api_url` (trailing slashes dropped).
    pub fn new(api_url: &str) -> (r: Self)
        ensures
            r.url() == trim_end_char(api_url@, '/'),
    {
        let v = chars_of(api_url);
        let t = trim_end_char_chars(&v, '/');
        Qwen3AsrProvider { api_url: string_of(&t) }
    }

    /// The server address.
    pub fn api_url(&self) -> (r: String)
        ensures
            r@ == self.url(),
    {
        copy_string(&self.api_url)
    }

    /// The transcription endpoint.
    pub fn transcriptions_url(&self) -> (r: String)
        ensures
            r@ == endpoint(self.url(), "/v1/audio/transcriptions"@),
    {
        endpoint_url(self.api_url.as_str(), "/v1/audio/transcriptions")
    }
}

/// The marker after which the server puts the recognised text.
pub open spec fn asr_text_marker() -> Seq<char> {
    "<asr_text>"@
}

/// The recognised text of a server reply: what follows the first
/// `<asr_text>` marker (or the whole reply), trimmed.
pub open spec fn asr_text(raw: Seq<char>) -> Seq<char> {
    match find(raw, asr_text_marker()) {
        Some(pos) => trim(raw.skip(pos + asr_text_marker().len() as int)),
        None => trim(raw),
    }
}

/// Extracts the recognised text of a server reply.
pub fn asr_text_of(raw: &str) -> (r: String)
    ensures
        r@ == asr_text(raw@),
{
    let v = chars_of(raw);
    let marker_str = "<asr_text>";
    let m = chars_of(marker_str);
    proof {
        lemma_find_from_props(v@, m@, 0);
    }
    match find_chars(&v, &m) {
        Some(pos) => {
            assert(crate::text::match_at(v@, m@, pos as int));
            let n = v.len();
            let rest = slice_chars(&v, pos + m.len(), n);
            assert(rest@ =~= v@.skip(pos + m@.len()));
            let t = trim_chars(&rest);
            string_of(&t)
        },
        None => {
            let t = trim_chars(&v);
            string_of(&t)
        },
    }
}

// ───────────────────────── chunking ─────────────────────────

/// The ranges `[i*size, min((i+1)*size, total))` that cut `total` items into
/// chunks of `size`.
pub open spec fn chunk_range(total: nat, size: nat, i: nat) -> (nat, nat) {
    let lo = i * size;
    let hi = if lo + size <= total {
        lo + size
    } else {
        total
    };
    (lo, hi)
}

/// The number of chunks of `size` that cover `total` items.
pub open spec fn chunk_count(total: nat, size: nat) -> nat
    recommends
        size > 0,
{
    if total == 0 {
        0
    } else {
        ((total - 1) / (size as int) + 1) as nat
    }
}

/// The chunk ranges that cover `total` items, in order.
pub fn chunk_ranges(total: usize, size: usize) -> (r: Vec<(usize, usize)>)
    requires
        size > 0,
    ensures
        r@.len() == chunk_count(total as nat, size as nat),
        forall|i: int|
            0 <= i < r@.len() ==> (#[trigger] r@[i]).0 == chunk_range(total as nat, size as nat, i as nat).0
                && r@[i].1 == chunk_range(total as nat, size as nat, i as nat).1,
{
    let mut r: Vec<(usize, usize)> = Vec::new();
    let mut offset: usize = 0;
    assert(r@.len() * size == 0) by {
        assert(r@.len() == 0);
    }
    while offset < total
        invariant
            size > 0,
            offset <= total,
            offset == if r@.len() * size <= total {
                r@.len() * size
            } else {
                total as int
            },
            r@.len() > 0 ==> (r@.len() - 1) * size < total,
            forall|i: int|
                0 <= i < r@.len() ==> (#[trigger] r@[i]).0 == chunk_range(total as nat, size as nat, i as nat).0
                    && r@[i].1 == chunk_range(total as nat, size as nat, i as nat).1,
        decreases total - offset,
    {
        let ghost k = r@.len();
        proof {
            if k * size > total {
                assert(offset == total);
            }
            assert(offset == k * size);
            assert((k + 1) * size == k * size + size) by (nonlinear_arith);
        }
        let end = if size <= total - offset {
            offset + size
        } else {
            total
        };
        r.push((offset, end));
        offset = end;
        proof {
            assert(r@[k as int].0 == k * size && r@[k as int].1 == end);
        }
    }
    proof {
        let k = r@.len();
        if total == 0 {
            assert(k == 0);
        } else {
            assert(k > 0) by {
                if k == 0 {
                    assert(offset == 0);
                }
            }
            assert(total <= k * size);
            lemma_chunk_count(total as nat, size as nat, k as nat);
        }
    }
    r
}

/// The chunks tile the items: the first starts at 0, each but the last is
/// `size` long and ends where the next begins, and the last ends at `total`.
pub proof fn lemma_chunks_tile(total: nat, size: nat)
    requires
        size > 0,
        total > 0,
    ensures
        chunk_range(total, size, 0).0 == 0,
        chunk_range(total, size, (chunk_count(total, size) - 1) as nat).1 == total,
        forall|i: nat|
            i + 1 < chunk_count(total, size) ==> {
                &&& (#[trigger] chunk_range(total, size, i)).1 == chunk_range(total, size, i + 1).0
                &&& chunk_range(total, size, i).1 == chunk_range(total, size, i).0 + size
            },
{
    let n = chunk_count(total, size);
    assert(((n - 1) as nat) * size <= total - 1 < n * size) by (nonlinear_arith)
        requires
            size > 0,
            total > 0,
            n == (total - 1) / (size as int) + 1,
    ;
    assert forall|i: nat| i + 1 < n implies {
        &&& (#[trigger] chunk_range(total, size, i)).1 == chunk_range(total, size, i + 1).0
        &&& chunk_range(total, size, i).1 == chunk_range(total, size, i).0 + size
    } by {
        assert(i * size + size == (i + 1) * size) by (nonlinear_arith);
        assert((i + 1) * size <= ((n - 1) as nat) * size) by (nonlinear_arith)
            requires
                i + 1 <= n - 1,
                size > 0,
        ;
    }
    assert(((n - 1) as nat) * size + size == n * size) by (nonlinear_arith)
        requires
            n >= 1,
    ;
}

/// After `k` full or final chunks, the count of chunks is `k`.
proof fn lemma_chunk_count(offset: nat, size: nat, k: nat)
    requires
        size > 0,
        k >= 1,
        (k - 1) * size < offset <= k * size,
    ensures
        chunk_count(offset, size) == k,
{
    assert((offset - 1) / (size as int) == k - 1) by (nonlinear_arith)
        requires
            size > 0,
            k >= 1,
            (k - 1) * size < offset <= k * size,
    ;
}

// ───────────────────────── encoding chunks ─────────────────────────

/// The format of the recording being cut.
#[derive(Debug, Clone, Copy)]
pub struct WavFormat {
    pub channels: u16,
    pub sample_rate: u32,
    pub bits_per_sample: u16,
    pub float_format: bool,
}

/// A format hound can write without panicking: float samples are 32-bit,
/// there are channels, the sample rate is not zero, and the byte rate fits
/// in `u32`.
pub open spec fn wav_format_ok(format: WavFormat) -> bool {
    &&& format.float_format ==> format.bits_per_sample == 32
    &&& format.bits_per_sample <= 32
    &&& format.channels > 0
    &&& format.sample_rate > 0
    &&& format.sample_rate * ((format.bits_per_sample + 7) / 8) * format.channels <= u32::MAX
}

/// The bytes that hound's `WavWriter` produces for `samples` in the given
/// format, or the step that failed (0: creating the writer, 1: writing a
/// sample, 2: finalising) with hound's message.
pub uninterp spec fn hound_wav_bytes(
    channels: u16,
    sample_rate: u32,
    bits_per_sample: u16,
    float_format: bool,
    samples: Seq<i32>,
) -> Result<Seq<u8>, (u8, Seq<char>)>;

/// hound `WavWriter::new` / `write_sample` / `finalize` over an in-memory
/// buffer. The contract claims only that the outcome is the one named by
/// `hound_wav_bytes` for these arguments (hound is deterministic); nothing is
/// claimed about the bytes themselves. hound panics on float samples of
/// other than 32 bits, on no channels, on a zero sample rate and when the
/// byte rate overflows `u32`: those inputs are left out.
#[verifier::external_body]
fn hound_encode(format: WavFormat, samples: &[i32]) -> (r: Result<Vec<u8>, (u8, String)>)
    requires
        wav_format_ok(format),
    ensures
        match r {
            Ok(b) => hound_wav_bytes(format.channels, format.sample_rate, format.bits_per_sample, format.float_format, samples@) == Ok::<Seq<u8>, (u8, Seq<char>)>(b@),
            Err((step, m)) => hound_wav_bytes(format.channels, format.sample_rate, format.bits_per_sample, format.float_format, samples@) == Err::<Seq<u8>, (u8, Seq<char>)>((step, m@)),
        },
{
    let spec = hound::WavSpec {
        channels: format.channels,
        sample_rate: format.sample_rate,
        bits_per_sample: format.bits_per_sample,
        sample_format: if format.float_format { hound::SampleFormat::Float } else { hound::SampleFormat::Int },
    };
    let mut buf: Vec<u8> = Vec::new();
    let mut w = hound::WavWriter::new(std::io::Cursor::new(&mut buf), spec).map_err(|e| (0u8, e.to_string()))?;
    for s in samples {
        w.write_sample(*s).map_err(|e| (1u8, e.to_string()))?;
    }
    w.finalize().map_err(|e| (2u8, e.to_string()))?;
    Ok(buf)
}

/// The error message for a failed encoding step.
pub open spec fn encode_error_message(step: u8, m: Seq<char>) -> Seq<char> {
    (if step == 0 {
        "Qwen3-ASR: WAV writer error: "@
    } else if step == 1 {
        "Qwen3-ASR: WAV write sample error: "@
    } else {
        "Qwen3-ASR: WAV finalize error: "@
    }) + m
}

/// The number of samples in a chunk of `secs` seconds.
pub open spec fn chunk_samples(format: WavFormat, secs: u32) -> nat {
    (secs * format.sample_rate * format.channels) as nat
}

/// The length of the recording in whole milliseconds.
pub open spec fn duration_ms(format: WavFormat, n_samples: nat) -> nat {
    if format.sample_rate == 0 {
        0
    } else {
        (n_samples / (format.channels as nat)) * 1000 / (format.sample_rate as nat)
    }
}

/// Chunk `i` of `samples` could not be encoded, and `e` says how.
pub open spec fn chunk_error(format: WavFormat, samples: Seq<i32>, chunk_secs: u32, i: nat, e: AppError) -> bool {
    let (lo, hi) = chunk_range(samples.len(), chunk_samples(format, chunk_secs), i);
    let h = hound_wav_bytes(
        format.channels,
        format.sample_rate,
        format.bits_per_sample,
        format.float_format,
        samples.subrange(lo as int, hi as int),
    );
    &&& h is Err
    &&& e matches AppError::Asr(msg) && msg@ == encode_error_message(h->Err_0.0, h->Err_0.1)
}

/// Cuts a recording's samples into WAV files of `chunk_secs` seconds each
/// and gives the recording's length in milliseconds.
pub fn split_samples(format: WavFormat, samples: &[i32], chunk_secs: u32) -> (r: Result<
    (Vec<Vec<u8>>, u64),
    AppError,
>)
    requires
        format.channels > 0,
        format.sample_rate > 0 || samples@.len() == 0,
        chunk_secs > 0,
        chunk_secs * format.sample_rate * format.channels <= u32::MAX,
        samples@.len() * 1000 <= u64::MAX,
        samples@.len() > 0 ==> wav_format_ok(format),
    ensures
        r matches Ok((chunks, total_ms)) ==> {
            &&& total_ms == duration_ms(format, samples@.len())
            &&& format.sample_rate > 0 ==> chunks@.len() == chunk_count(
                samples@.len(),
                chunk_samples(format, chunk_secs),
            )
            &&& forall|i: int|
                0 <= i < chunks@.len() ==> {
                    let (lo, hi) = chunk_range(
                        samples@.len(),
                        chunk_samples(format, chunk_secs),
                        i as nat,
                    );
                    hound_wav_bytes(
                        format.channels,
                        format.sample_rate,
                        format.bits_per_sample,
                        format.float_format,
                        samples@.subrange(lo as int, hi as int),
                    ) == Ok::<Seq<u8>, (u8, Seq<char>)>(#[trigger] chunks@[i]@)
                }
        },
        // the first chunk that hound could not encode gives the error
        r matches Err(e) ==> exists|i: nat|
            #![trigger chunk_range(samples@.len(), chunk_samples(format, chunk_secs), i)]
            {
                &&& i < chunk_count(samples@.len(), chunk_samples(format, chunk_secs))
                &&& forall|j: nat|
                    j < i ==> {
                        let (a, b) = #[trigger] chunk_range(
                            samples@.len(),
                            chunk_samples(format, chunk_secs),
                            j,
                        );
                        hound_wav_bytes(
                            format.channels,
                            format.sample_rate,
                            format.bits_per_sample,
                            format.float_format,
                            samples@.subrange(a as int, b as int),
                        ) is Ok
                    }
                &&& chunk_error(format, samples@, chunk_secs, i, e)
            },
{
    let total = samples.len();
    let total_ms: u64 = if format.sample_rate == 0 {
        0
    } else {
        let frames = (total / format.channels as usize) as u64;
        assert(frames <= total);
        (frames as u128 * 1000 / format.sample_rate as u128) as u64
    };
    let mut chunks: Vec<Vec<u8>> = Vec::new();
    if total == 0 {
        return Ok((chunks, total_ms));
    }
    assert(format.sample_rate > 0);
    assert(chunk_secs * format.sample_rate <= chunk_secs * format.sample_rate * format.channels)
        by (nonlinear_arith)
        requires
            format.channels > 0,
    ;
    assert(chunk_secs * format.sample_rate * format.channels > 0) by (nonlinear_arith)
        requires
            format.channels > 0,
            format.sample_rate > 0,
            chunk_secs > 0,
    ;
    let size: usize = (chunk_secs * format.sample_rate * format.channels as u32) as usize;
    let ranges = chunk_ranges(total, size);
    let mut i: usize = 0;
    while i < ranges.len()
        invariant
            i <= ranges@.len(),
            chunks@.len() == i,
            size > 0,
            total == samples@.len(),
            wav_format_ok(format),
            size as nat == chunk_samples(format, chunk_secs),
            ranges@.len() == chunk_count(total as nat, size as nat),
            forall|k: int|
                0 <= k < ranges@.len() ==> (#[trigger] ranges@[k]).0 == chunk_range(total as nat, size as nat, k as nat).0
                    && ranges@[k].1 == chunk_range(total as nat, size as nat, k as nat).1,
            forall|k: int|
                0 <= k < i ==> {
                    let (lo, hi) = chunk_range(total as nat, size as nat, k as nat);
                    hound_wav_bytes(
                        format.channels,
                        format.sample_rate,
                        format.bits_per_sample,
                        format.float_format,
                        samples@.subrange(lo as int, hi as int),
                    ) == Ok::<Seq<u8>, (u8, Seq<char>)>(#[trigger] chunks@[k]@)
                },
        decreases ranges.len() - i,
    {
        let (lo, hi) = ranges[i];
        proof {
            assert(ranges@[i as int].0 == chunk_range(total as nat, size as nat, i as nat).0);
            lemma_range_in_bounds(total as nat, size as nat, i as nat);
        }
        let part = slice_i32(samples, lo, hi);
        match hound_encode(format, part.as_slice()) {
            Ok(bytes) => {
                chunks.push(bytes);
            },
            Err((step, m)) => {
                let mut msg = if step == 0 {
                    "Qwen3-ASR: WAV writer error: ".to_owned()
                } else if step == 1 {
                    "Qwen3-ASR: WAV write sample error: ".to_owned()
                } else {
                    "Qwen3-ASR: WAV finalize error: ".to_owned()
                };
                msg.append(m.as_str());
                let ghost ii: nat = i as nat;
                assert(chunk_range(samples@.len(), chunk_samples(format, chunk_secs), ii) == (
                lo as nat, hi as nat));
                proof {
                    assert forall|j: nat| j < ii implies {
                        let (a, b) = #[trigger] chunk_range(
                            samples@.len(),
                            chunk_samples(format, chunk_secs),
                            j,
                        );
                        hound_wav_bytes(
                            format.channels,
                            format.sample_rate,
                            format.bits_per_sample,
                            format.float_format,
                            samples@.subrange(a as int, b as int),
                        ) is Ok
                    } by {
                        assert(chunks@[j as int]@ == chunks@[j as int]@);
                    }
                }
                return Err(AppError::Asr(msg));
            },
        }
        i = i + 1;
    }
    Ok((chunks, total_ms))
}

/// A chunk range lies within the items it cuts.
proof fn lemma_range_in_bounds(total: nat, size: nat, i: nat)
    requires
        size > 0,
        i < chunk_count(total, size),
    ensures
        chunk_range(total, size, i).0 <= chunk_range(total, size, i).1 <= total,
{
    assert(i * size < total) by (nonlinear_arith)
        requires
            size > 0,
            total > 0,
            i <= (total - 1) / (size as int),
    ;
}

/// The samples `v[lo..hi]`.
fn slice_i32(v: &[i32], lo: usize, hi: usize) -> (r: Vec<i32>)
    requires
        lo <= hi <= v@.len(),
    ensures
        r@ == v@.subrange(lo as int, hi as int),
{
    let mut r: Vec<i32> = Vec::new();
    let mut i: usize = lo;
    while i < hi
        invariant
            lo <= i <= hi,
            hi <= v@.len(),
            r@ == v@.subrange(lo as int, i as int),
        decreases hi - i,
    {
        r.push(v[i]);
        assert(v@.subrange(lo as int, i + 1) =~= v@.subrange(lo as int, i as int).push(v@[i as int]));
        i = i + 1;
    }
    r
}

// ───────────────────────── timed segments ─────────────────────────

/// The segments of the transcribed chunks: chunk `i` that gave non-empty
/// text covers `[i*secs, min((i+1)*secs, total)]` (milliseconds); chunks that
/// failed or gave nothing are left out.
pub open spec fn chunk_segments_spec(
    results: Seq<Result<Seq<char>, AppError>>,
    total_ms: u64,
    secs: u32,
) -> Seq<(u64, u64, Seq<char>, Option<Seq<char>>)>
    decreases results.len(),
{
    if results.len() == 0 {
        Seq::empty()
    } else {
        let i = (results.len() - 1) as nat;
        let rest = chunk_segments_spec(results.drop_last(), total_ms, secs);
        match results.last() {
            Ok(t) => if t.len() > 0 {
                let start = i * secs * 1000;
                let end = (i + 1) * secs * 1000;
                rest.push(
                    (
                        start as u64,
                        if end <= total_ms {
                            end as u64
                        } else {
                            total_ms
                        },
                        t,
                        None::<Seq<char>>,
                    ),
                )
            } else {
                rest
            },
            Err(_) => rest,
        }
    }
}

/// The texts of transcribed chunks by their characters.
pub open spec fn results_view(v: Seq<Result<String, AppError>>) -> Seq<Result<Seq<char>, AppError>> {
    v.map_values(|r: Result<String, AppError>| crate::llm::client::reply_view(r))
}

/// Turns the per-chunk transcriptions into timed segments; when no chunk gave
/// text, the transcription failed.
pub fn chunk_segments(results: Vec<Result<String, AppError>>, total_ms: u64, secs: u32) -> (r: Result<
    Vec<TranscriptSegment>,
    AppError,
>)
    requires
        results@.len() * secs * 1000 <= u64::MAX,
    ensures
        chunk_segments_spec(results_view(results@), total_ms, secs).len() > 0 ==> (r matches Ok(segs)
            && crate::asr::transcript::segments_view(segs@) == chunk_segments_spec(
            results_view(results@),
            total_ms,
            secs,
        )),
        chunk_segments_spec(results_view(results@), total_ms, secs).len() == 0 ==> (r matches Err(
            AppError::Asr(m),
        ) && m@ == "Qwen3-ASR: all chunks returned empty or failed"@),
{
    let mut segs: Vec<TranscriptSegment> = Vec::new();
    let mut i: usize = 0;
    while i < results.len()
        invariant
            i <= results@.len(),
            results@.len() * secs * 1000 <= u64::MAX,
            crate::asr::transcript::segments_view(segs@) == chunk_segments_spec(
                results_view(results@.take(i as int)),
                total_ms,
                secs,
            ),
        decreases results.len() - i,
    {
        let ghost before = segs@;
        proof {
            assert((i + 1) * secs * 1000 <= results@.len() * secs * 1000) by (nonlinear_arith)
                requires
                    i + 1 <= results@.len(),
            ;
            assert(i * secs * 1000 <= (i + 1) * secs * 1000) by (nonlinear_arith);
        }
        match &results[i] {
            Ok(text) => {
                if !text.as_str().is_empty() {
                    let start: u64 = i as u64 * secs as u64 * 1000;
                    let end_full: u64 = (i as u64 + 1) * secs as u64 * 1000;
                    let end = if end_full <= total_ms {
                        end_full
                    } else {
                        total_ms
                    };
                    segs.push(
                        TranscriptSegment {
                            start_ms: start,
                            end_ms: end,
                            text: copy_string(text),
                            speaker: None,
                        },
                    );
                }
            },
            Err(_) => {},
        }
        proof {
            let t = results@.take(i + 1);
            assert(t.drop_last() =~= results@.take(i as int));
            assert(results_view(t).drop_last() =~= results_view(results@.take(i as int)));
            assert(results_view(t).last() == crate::llm::client::reply_view(results@[i as int]));
            if segs@.len() > before.len() {
                assert(segs@.drop_last() =~= before);
                assert(crate::asr::transcript::segments_view(segs@) =~= crate::asr::transcript::segments_view(before).push(
                    crate::asr::transcript::segment_view(segs@.last()),
                ));
            }
        }
        i = i + 1;
    }
    assert(results@.take(results@.len() as int) =~= results@);
    if segs.len() == 0 {
        return Err(AppError::Asr("Qwen3-ASR: all chunks returned empty or failed".to_owned()));
    }
    Ok(segs)
}

} // verus!
