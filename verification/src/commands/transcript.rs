//! Assembling the text that the pipeline works on from stored transcript
//! lines, and the text that a transcription returns.
use vstd::prelude::*;
use crate::asr::transcript::TranscriptSegment;
use crate::text::{push_char, trim, trim_str};

verus! {

/// A stored transcript line: who spoke (if known) and what was said.
#[derive(Debug)]
pub struct TranscriptLine {
    pub speaker: Option<String>,
    pub text: String,
}

/// How a line reads in the pipeline input: "speaker：text", or just the text.
pub open spec fn line_text(l: TranscriptLine) -> Seq<char> {
    match l.speaker {
        Some(s) => s@ + "："@ + l.text@,
        None => l.text@,
    }
}

/// The lines joined with newlines.
pub open spec fn joined_lines(lines: Seq<TranscriptLine>) -> Seq<char>
    decreases lines.len(),
{
    if lines.len() == 0 {
        Seq::empty()
    } else if lines.len() == 1 {
        line_text(lines[0])
    } else {
        joined_lines(lines.drop_last()) + "\n"@ + line_text(lines.last())
    }
}

/// The pipeline input for a meeting: its transcript lines, one per line,
/// each prefixed by its speaker when known.
pub fn transcript_text(lines: &[TranscriptLine]) -> (r: String)
    ensures
        r@ == joined_lines(lines@),
{
    let mut out = String::new();
    let mut i: usize = 0;
    while i < lines.len()
        invariant
            i <= lines@.len(),
            out@ == joined_lines(lines@.take(i as int)),
        decreases lines.len() - i,
    {
        let l = &lines[i];
        if i > 0 {
            out.append("\n");
        }
        match &l.speaker {
            Some(s) => {
                out.append(s.as_str());
                out.append("：");
            },
            None => {},
        }
        out.append(l.text.as_str());
        proof {
            let t = lines@.take(i + 1);
            assert(t.drop_last() =~= lines@.take(i as int));
            assert(t.last() == lines@[i as int]);
            if i == 0 {
                assert(t.len() == 1);
                assert(out@ =~= line_text(t[0]));
            } else {
                assert(out@ =~= joined_lines(t.drop_last()) + "\n"@ + line_text(t.last()));
            }
        }
        i = i + 1;
    }
    assert(lines@.take(lines@.len() as int) =~= lines@);
    out
}

/// The texts of the segments, each followed by a space.
pub open spec fn spaced_texts(segs: Seq<TranscriptSegment>) -> Seq<char>
    decreases segs.len(),
{
    if segs.len() == 0 {
        Seq::empty()
    } else {
        spaced_texts(segs.drop_last()) + segs.last().text@ + seq![' ']
    }
}

/// The full text of a transcription: the segments' texts separated by
/// spaces, trimmed.
pub fn joined_segment_text(segs: &[TranscriptSegment]) -> (r: String)
    ensures
        r@ == trim(spaced_texts(segs@)),
{
    let mut full = String::new();
    let mut i: usize = 0;
    while i < segs.len()
        invariant
            i <= segs@.len(),
            full@ == spaced_texts(segs@.take(i as int)),
        decreases segs.len() - i,
    {
        full.append(segs[i].text.as_str());
        push_char(&mut full, ' ');
        proof {
            let t = segs@.take(i + 1);
            assert(t.drop_last() =~= segs@.take(i as int));
            assert(t.last() == segs@[i as int]);
            assert(full@ =~= spaced_texts(t));
        }
        i = i + 1;
    }
    assert(segs@.take(segs@.len() as int) =~= segs@);
    trim_str(full.as_str())
}

} // verus!
