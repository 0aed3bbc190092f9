//! FunASR over WebSocket: the decisions of the realtime session and of the
//! batch transcription, and the merging of their results.
use vstd::prelude::*;
use crate::asr::streaming::StreamingSegment;
use crate::asr::transcript::{TranscriptSegment, copy_segments, segments_view};
use crate::error::AppError;
use crate::text::{copy_string, trim, trim_str};

verus! {

/// A FunASR server message (timestamps are `[start, end]` pairs in
/// milliseconds).
#[derive(Debug)]
pub struct FunAsrResponse {
    pub mode: Option<String>,
    pub text: Option<String>,
    pub is_final: bool,
    pub timestamp: Option<Vec<(u32, u32)>>,
}

/// The trimmed text of a response, when it has non-blank text.
pub open spec fn response_text(r: FunAsrResponse) -> Option<Seq<char>> {
    match r.text {
        Some(t) => if trim(t@).len() > 0 {
            Some(trim(t@))
        } else {
            None
        },
        None => None,
    }
}

/// The response's mode is `m`.
pub open spec fn mode_is(r: FunAsrResponse, m: Seq<char>) -> bool {
    r.mode matches Some(x) && x@ == m
}

/// The start of the first and the end of the last timestamp, when there are
/// timestamps.
pub open spec fn response_span(r: FunAsrResponse) -> Option<(u32, u32)> {
    match r.timestamp {
        Some(ts) => if ts@.len() > 0 {
            Some((ts@[0].0, ts@.last().1))
        } else {
            None
        },
        None => None,
    }
}

/// Whether the response's mode is `m`.
fn mode_equals(r: &FunAsrResponse, m: &str) -> (b: bool)
    ensures
        b == mode_is(*r, m@),
{
    match &r.mode {
        Some(x) => *x == m.to_owned(),
        None => false,
    }
}

/// The trimmed text of a response, when it has non-blank text.
fn text_of(r: &FunAsrResponse) -> (t: Option<String>)
    ensures
        match response_text(*r) {
            Some(s) => t matches Some(x) && x@ == s,
            None => t is None,
        },
{
    match &r.text {
        Some(t) => {
            let trimmed = trim_str(t.as_str());
            if trimmed.as_str().is_empty() {
                None
            } else {
                Some(trimmed)
            }
        },
        None => None,
    }
}

/// The span of a response's timestamps.
fn span_of(r: &FunAsrResponse) -> (s: Option<(u32, u32)>)
    ensures
        s == response_span(*r),
{
    match &r.timestamp {
        Some(ts) => {
            if ts.len() > 0 {
                let first = ts[0].0;
                let last = ts[ts.len() - 1].1;
                Some((first, last))
            } else {
                None
            }
        },
        None => None,
    }
}

// ───────────────────────── realtime session ─────────────────────────

/// What the session's audio queue delivered.
#[derive(Debug)]
pub enum AudioMsg {
    /// PCM bytes to send.
    Chunk(Vec<u8>),
    /// Recording ended.
    End,
    /// Nothing queued right now.
    Empty,
    /// The audio queue is gone.
    Disconnected,
}

/// What to do about the audio queue.
#[derive(Debug)]
pub enum AudioAction {
    /// Send these bytes as a binary frame.
    SendBinary(Vec<u8>),
    /// Tell the server that speech ended (`{"is_speaking": false}`).
    SendEnd,
    /// Nothing to do.
    Idle,
    /// Stop the session loop.
    Stop,
}

/// What reading the socket gave.
#[derive(Debug)]
pub enum ReadEvent {
    /// A text frame; `None` when it is not a FunASR message.
    Text(Option<FunAsrResponse>),
    /// The server closed the connection.
    Closed,
    /// The read timed out (nothing arrived).
    TimedOut,
    /// The read failed with this message.
    Failed(String),
    /// Any other frame.
    Other,
}

/// What to do after reading the socket.
#[derive(Debug)]
pub enum ReadAction {
    /// Keep going.
    Continue,
    /// Report this result (and keep it for `finish` when it is final).
    Emit(StreamingSegment),
    /// Stop the session loop.
    Stop,
}

/// The state of a realtime session loop: how many results it has numbered,
/// and whether the end of speech has been sent.
#[derive(Debug)]
pub struct StreamLoop {
    pub segment_counter: u32,
    pub finish_sent: bool,
}

/// A text response yields a result.
pub open spec fn yields_result(ev: ReadEvent) -> bool {
    ev matches ReadEvent::Text(Some(r)) && response_text(r) is Some
}

impl StreamLoop {
    /// A session that has numbered nothing and not yet ended.
    pub fn new() -> (r: StreamLoop)
        ensures
            r.segment_counter == 0,
            !r.finish_sent,
    {
        StreamLoop { segment_counter: 0, finish_sent: false }
    }

    /// Decides what to do with a message of the audio queue: chunks are sent,
    /// the end of recording is announced once and remembered, a closed queue
    /// stops the loop.
    pub fn on_audio(&mut self, msg: AudioMsg) -> (a: AudioAction)
        ensures
            final(self).segment_counter == old(self).segment_counter,
            final(self).finish_sent == (old(self).finish_sent || msg is End),
            msg matches AudioMsg::Chunk(b) ==> (a matches AudioAction::SendBinary(x) && x@ == b@),
            msg is End ==> a is SendEnd,
            msg is Empty ==> a is Idle,
            msg is Disconnected ==> a is Stop,
    {
        match msg {
            AudioMsg::Chunk(b) => AudioAction::SendBinary(b),
            AudioMsg::End => {
                self.finish_sent = true;
                AudioAction::SendEnd
            },
            AudioMsg::Empty => AudioAction::Idle,
            AudioMsg::Disconnected => AudioAction::Stop,
        }
    }

    /// Decides what to do with what the socket gave: a response with text
    /// becomes the next numbered result (final when its mode is
    /// "2pass-offline" or it says so, timed by its first and last
    /// timestamps); a close or a failed read stops the loop; anything else is
    /// ignored.
    pub fn on_read(&mut self, ev: ReadEvent) -> (a: ReadAction)
        requires
            yields_result(ev) ==> old(self).segment_counter < u32::MAX,
        ensures
            final(self).finish_sent == old(self).finish_sent,
            yields_result(ev) ==> final(self).segment_counter == old(self).segment_counter + 1,
            !yields_result(ev) ==> final(self).segment_counter == old(self).segment_counter,
            match ev {
                ReadEvent::Text(Some(r)) => match response_text(r) {
                    Some(t) => a matches ReadAction::Emit(seg) && seg.text@ == t && seg.is_final == (
                    mode_is(r, "2pass-offline"@) || r.is_final) && seg.segment_id == old(
                        self,
                    ).segment_counter && seg.start_ms == (match response_span(r) {
                        Some(sp) => Some(sp.0),
                        None => None,
                    }) && seg.end_ms == (match response_span(r) {
                        Some(sp) => Some(sp.1),
                        None => None,
                    }),
                    None => a is Continue,
                },
                ReadEvent::Text(None) => a is Continue,
                ReadEvent::Closed => a is Stop,
                ReadEvent::TimedOut => a is Continue,
                ReadEvent::Failed(_) => a is Stop,
                ReadEvent::Other => a is Continue,
            },
    {
        match ev {
            ReadEvent::Text(Some(resp)) => {
                match text_of(&resp) {
                    Some(text) => {
                        let is_final = mode_equals(&resp, "2pass-offline") || resp.is_final;
                        let (start_ms, end_ms) = match span_of(&resp) {
                            Some((s, e)) => (Some(s), Some(e)),
                            None => (None, None),
                        };
                        let seg = StreamingSegment {
                            text,
                            is_final,
                            segment_id: self.segment_counter,
                            start_ms,
                            end_ms,
                        };
                        self.segment_counter = self.segment_counter + 1;
                        ReadAction::Emit(seg)
                    },
                    None => ReadAction::Continue,
                }
            },
            ReadEvent::Text(None) => ReadAction::Continue,
            ReadEvent::Closed => ReadAction::Stop,
            ReadEvent::TimedOut => ReadAction::Continue,
            ReadEvent::Failed(_) => ReadAction::Stop,
            ReadEvent::Other => ReadAction::Continue,
        }
    }

    /// After the end of speech was sent the loop pauses between rounds.
    pub fn should_pause(&self) -> (b: bool)
        ensures
            b == self.finish_sent,
    {
        self.finish_sent
    }
}

// ───────────────────────── batch transcription ─────────────────────────

/// Recognises a whole recording with a FunASR server in offline mode.
#[derive(Debug)]
pub struct FunAsrBatchProvider {
    ws_url: String,
}

impl FunAsrBatchProvider {
    /// The server address.
    pub closed spec fn url(&self) -> Seq<char> {
        self.ws_url@
    }

    /// A batch recogniser for the server at `ws_url`.
    pub fn new(ws_url: &str) -> (r: Self)
        ensures
            r.url() == ws_url@,
    {
        FunAsrBatchProvider { ws_url: ws_url.to_owned() }
    }

    /// The server address.
    pub fn ws_url(&self) -> (r: String)
        ensures
            r@ == self.url(),
    {
        copy_string(&self.ws_url)
    }
}

/// What to do after a read of the batch connection.
#[derive(Debug)]
pub enum BatchAction {
    /// Keep reading.
    Continue,
    /// The transcription is complete.
    Done,
    /// The transcription failed.
    Fail(AppError),
}

/// A batch response ends the transcription.
pub open spec fn batch_done(r: FunAsrResponse) -> bool {
    r.is_final || mode_is(r, "offline"@)
}

/// Handles one read of the batch connection: text becomes a segment timed by
/// its first and last timestamps (0 when there are none); a final or offline
/// response, or a close, ends the transcription; a failed read fails it.
pub fn batch_step(ev: ReadEvent, segments: &mut Vec<TranscriptSegment>) -> (a: BatchAction)
    ensures
        match ev {
            ReadEvent::Text(Some(r)) => {
                &&& match response_text(r) {
                    Some(t) => final(segments)@.len() == old(segments)@.len() + 1
                        && final(segments)@.drop_last() == old(segments)@
                        && final(segments)@.last().text@ == t
                        && final(segments)@.last().speaker is None
                        && final(segments)@.last().start_ms == (match response_span(r) {
                        Some(sp) => sp.0 as u64,
                        None => 0,
                    }) && final(segments)@.last().end_ms == (match response_span(r) {
                        Some(sp) => sp.1 as u64,
                        None => 0,
                    }),
                    None => final(segments)@ == old(segments)@,
                }
                &&& batch_done(r) ==> a is Done
                &&& !batch_done(r) ==> a is Continue
            },
            ReadEvent::Text(None) => a is Continue && final(segments)@ == old(segments)@,
            ReadEvent::Closed => a is Done && final(segments)@ == old(segments)@,
            ReadEvent::TimedOut => a is Continue && final(segments)@ == old(segments)@,
            ReadEvent::Failed(msg) => (a matches BatchAction::Fail(AppError::Asr(m))
                && m@ == "FunASR batch read error: "@ + msg@) && final(segments)@ == old(segments)@,
            ReadEvent::Other => a is Continue && final(segments)@ == old(segments)@,
        },
{
    match ev {
        ReadEvent::Text(Some(resp)) => {
            let done = resp.is_final || mode_equals(&resp, "offline");
            match text_of(&resp) {
                Some(text) => {
                    let (start, end) = match span_of(&resp) {
                        Some((s, e)) => (s as u64, e as u64),
                        None => (0, 0),
                    };
                    let ghost before = segments@;
                    segments.push(TranscriptSegment { start_ms: start, end_ms: end, text, speaker: None });
                    assert(segments@.drop_last() =~= before);
                },
                None => {},
            }
            if done {
                BatchAction::Done
            } else {
                BatchAction::Continue
            }
        },
        ReadEvent::Text(None) => BatchAction::Continue,
        ReadEvent::Closed => BatchAction::Done,
        ReadEvent::TimedOut => BatchAction::Continue,
        ReadEvent::Failed(msg) => {
            let mut m = "FunASR batch read error: ".to_owned();
            m.append(msg.as_str());
            BatchAction::Fail(AppError::Asr(m))
        },
        ReadEvent::Other => BatchAction::Continue,
    }
}

// ───────────────────────── merging ─────────────────────────

/// The final streaming results as transcript segments, in order (absent
/// times count as 0).
pub open spec fn finals_as_segments(streaming: Seq<StreamingSegment>) -> Seq<
    (u64, u64, Seq<char>, Option<Seq<char>>),
>
    decreases streaming.len(),
{
    if streaming.len() == 0 {
        Seq::empty()
    } else {
        let s = streaming.last();
        let rest = finals_as_segments(streaming.drop_last());
        if s.is_final {
            rest.push(
                (
                    match s.start_ms {
                        Some(t) => t as u64,
                        None => 0u64,
                    },
                    match s.end_ms {
                        Some(t) => t as u64,
                        None => 0u64,
                    },
                    s.text@,
                    None::<Seq<char>>,
                ),
            )
        } else {
            rest
        }
    }
}

/// The final streaming segments, in order.
pub open spec fn final_segments(streaming: Seq<StreamingSegment>) -> Seq<StreamingSegment> {
    streaming.filter(|s: StreamingSegment| s.is_final)
}

/// Every final streaming segment becomes one transcript segment, in order:
/// the `k`-th carries the text and the times (0 when absent) of the `k`-th
/// final segment, and no speaker; interim segments are left out.
pub proof fn law_finals_kept_in_order(streaming: Seq<StreamingSegment>)
    ensures
        finals_as_segments(streaming).len() == final_segments(streaming).len(),
        forall|k: int|
            0 <= k < final_segments(streaming).len() ==> {
                let m = #[trigger] finals_as_segments(streaming)[k];
                let f = final_segments(streaming)[k];
                &&& m.2 == f.text@
                &&& m.0 == (match f.start_ms {
                    Some(t) => t as u64,
                    None => 0u64,
                })
                &&& m.1 == (match f.end_ms {
                    Some(t) => t as u64,
                    None => 0u64,
                })
                &&& m.3 is None
            },
    decreases streaming.len(),
{
    reveal(Seq::filter);
    if streaming.len() > 0 {
        let rest = streaming.drop_last();
        law_finals_kept_in_order(rest);
        assert(final_segments(streaming) == if streaming.last().is_final {
            final_segments(rest).push(streaming.last())
        } else {
            final_segments(rest)
        });
    }
}

/// Merges the batch transcription (precise) with the final streaming
/// results (draft): a non-empty batch result is used as it is; an empty one
/// (failed or timed out) falls back to the final streaming segments.
pub fn smart_merge(batch: &[TranscriptSegment], streaming: &[StreamingSegment]) -> (r: Vec<
    TranscriptSegment,
>)
    ensures
        batch@.len() > 0 ==> segments_view(r@) == segments_view(batch@),
        batch@.len() == 0 ==> segments_view(r@) == finals_as_segments(streaming@),
        // an empty batch result gives one segment per final streaming
        // segment, in order
        batch@.len() == 0 ==> r@.len() == final_segments(streaming@).len(),
        batch@.len() == 0 ==> forall|k: int|
            0 <= k < r@.len() ==> (#[trigger] r@[k]).text@ == final_segments(streaming@)[k].text@
                && r@[k].speaker is None,
{
    if batch.len() > 0 {
        return copy_segments(batch);
    }
    let mut out: Vec<TranscriptSegment> = Vec::new();
    let mut i: usize = 0;
    while i < streaming.len()
        invariant
            i <= streaming@.len(),
            segments_view(out@) == finals_as_segments(streaming@.take(i as int)),
        decreases streaming.len() - i,
    {
        let s = &streaming[i];
        let ghost before = out@;
        if s.is_final {
            let start: u64 = match s.start_ms {
                Some(t) => t as u64,
                None => 0,
            };
            let end: u64 = match s.end_ms {
                Some(t) => t as u64,
                None => 0,
            };
            out.push(
                TranscriptSegment {
                    start_ms: start,
                    end_ms: end,
                    text: copy_string(&s.text),
                    speaker: None,
                },
            );
        }
        proof {
            let t = streaming@.take(i + 1);
            assert(t.drop_last() =~= streaming@.take(i as int));
            assert(t.last() == streaming@[i as int]);
            if s.is_final {
                assert(out@.drop_last() =~= before);
                assert(segments_view(out@) =~= segments_view(before).push(
                    crate::asr::transcript::segment_view(out@.last()),
                ));
            }
        }
        i = i + 1;
    }
    assert(streaming@.take(streaming@.len() as int) =~= streaming@);
    proof {
        law_finals_kept_in_order(streaming@);
        assert(segments_view(out@).len() == out@.len());
        assert forall|k: int| 0 <= k < out@.len() implies (#[trigger] out@[k]).text@
            == final_segments(streaming@)[k].text@ && out@[k].speaker is None by {
            assert(segments_view(out@)[k] == crate::asr::transcript::segment_view(out@[k]));
            assert(finals_as_segments(streaming@)[k] == segments_view(out@)[k]);
        }
    }
    out
}

} // verus!
