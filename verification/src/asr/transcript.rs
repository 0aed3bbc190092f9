//! Transcript segments as recognisers produce them.
use vstd::prelude::*;
use crate::text::{copy_opt_string, copy_string, opt_view};

verus! {

/// A recognised stretch of speech. Times are in milliseconds from the start
/// of the recording.
#[derive(Debug)]
pub struct TranscriptSegment {
    pub start_ms: u64,
    pub end_ms: u64,
    pub text: String,
    pub speaker: Option<String>,
}

/// A segment by its plain values.
pub open spec fn segment_view(s: TranscriptSegment) -> (u64, u64, Seq<char>, Option<Seq<char>>) {
    (s.start_ms, s.end_ms, s.text@, opt_view(s.speaker))
}

/// Segments by their plain values.
pub open spec fn segments_view(v: Seq<TranscriptSegment>) -> Seq<(u64, u64, Seq<char>, Option<Seq<char>>)> {
    v.map_values(|s: TranscriptSegment| segment_view(s))
}

impl TranscriptSegment {
    /// A copy of the segment.
    pub fn duplicate(&self) -> (r: TranscriptSegment)
        ensures
            segment_view(r) == segment_view(*self),
    {
        TranscriptSegment {
            start_ms: self.start_ms,
            end_ms: self.end_ms,
            text: copy_string(&self.text),
            speaker: copy_opt_string(&self.speaker),
        }
    }
}

/// A copy of a list of segments.
pub fn copy_segments(v: &[TranscriptSegment]) -> (r: Vec<TranscriptSegment>)
    ensures
        segments_view(r@) == segments_view(v@),
{
    let mut r: Vec<TranscriptSegment> = Vec::new();
    let mut i: usize = 0;
    while i < v.len()
        invariant
            i <= v@.len(),
            r@.len() == i,
            forall|k: int| 0 <= k < i ==> #[trigger] segment_view(r@[k]) == segment_view(v@[k]),
        decreases v.len() - i,
    {
        r.push(v[i].duplicate());
        i = i + 1;
    }
    assert(segments_view(r@) =~= segments_view(v@));
    r
}

} // verus!
