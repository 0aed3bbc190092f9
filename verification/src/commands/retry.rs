//! Resuming the pipeline from a given stage.
use vstd::prelude::*;
use crate::db::models::ActionItem;
use crate::error::{AppError, error_text};
use crate::llm::client::LlmClient;
use crate::llm::template::filled;
use crate::llm::pipeline::{
    actions_notice, actions_notice_of, clean_notice, clean_notice_of, loads,
    preview, preview_of, prompt_outcome, report_prompt, stage_answered, stage_failed, stage_file,
    structure_notice,
    structure_notice_of, template_of, ActionItemRaw, MeetingCodec, Pipeline, StageObserver,
    StructuredMeeting,
};
use crate::text::{copy_opt_string, copy_string, opt_view, trim};

verus! {

/// The stage a retry actually starts from: when the cleaned or the
/// organised transcript that the requested stage needs is missing, the
/// retry starts early enough to produce it.
pub open spec fn retry_start(from_stage: u32, has_clean: bool, has_organized: bool) -> u32 {
    if from_stage >= 3 && !has_organized {
        if !has_clean {
            1
        } else {
            2
        }
    } else if from_stage >= 2 && !has_clean {
        1
    } else {
        from_stage
    }
}

/// Decides where a retry starts. It never starts later than asked, never
/// needs an intermediate result that is missing, and starts where asked when
/// nothing is missing.
pub fn retry_start_stage(from_stage: u32, has_clean: bool, has_organized: bool) -> (r: u32)
    ensures
        r == retry_start(from_stage, has_clean, has_organized),
        r <= from_stage,
        r >= 2 ==> has_clean,
        r >= 3 ==> has_organized,
        has_clean && has_organized ==> r == from_stage,
{
    if from_stage >= 3 && !has_organized {
        if !has_clean {
            1
        } else {
            2
        }
    } else if from_stage >= 2 && !has_clean {
        1
    } else {
        from_stage
    }
}

/// Which stages a retry runs, and which results it takes from the database.
#[derive(Debug)]
pub struct RetryPlan {
    pub run_clean: bool,
    pub run_speaker: bool,
    pub run_structure: bool,
    pub run_summary: bool,
    pub run_actions: bool,
}

/// A retry from stage `start` runs every stage from `start` on; stages 6
/// (report) and 7 (title, when wanted) always run; the summary and the
/// action items of skipped stages come from the database.
pub fn retry_plan(start: u32) -> (r: RetryPlan)
    ensures
        r.run_clean == (start <= 1),
        r.run_speaker == (start <= 2),
        r.run_structure == (start <= 3),
        r.run_summary == (start <= 4),
        r.run_actions == (start <= 5),
{
    RetryPlan {
        run_clean: start <= 1,
        run_speaker: start <= 2,
        run_structure: start <= 3,
        run_summary: start <= 4,
        run_actions: start <= 5,
    }
}

/// Stored action items, as the report stage takes them.
pub fn raw_action_items(items: &[ActionItem]) -> (r: Vec<ActionItemRaw>)
    ensures
        r@.len() == items@.len(),
        forall|i: int|
            0 <= i < r@.len() ==> (#[trigger] r@[i]).task@ == items@[i].task@ && opt_view(r@[i].owner)
                == opt_view(items@[i].owner) && opt_view(r@[i].deadline) == opt_view(
                items@[i].deadline,
            ),
{
    let mut r: Vec<ActionItemRaw> = Vec::new();
    let mut i: usize = 0;
    while i < items.len()
        invariant
            i <= items@.len(),
            r@.len() == i,
            forall|k: int|
                0 <= k < i ==> (#[trigger] r@[k]).task@ == items@[k].task@ && opt_view(r@[k].owner)
                    == opt_view(items@[k].owner) && opt_view(r@[k].deadline) == opt_view(
                    items@[k].deadline,
                ),
        decreases items.len() - i,
    {
        let a = &items[i];
        r.push(
            ActionItemRaw {
                task: copy_string(&a.task),
                owner: copy_opt_string(&a.owner),
                deadline: copy_opt_string(&a.deadline),
            },
        );
        i = i + 1;
    }
    r
}

// ───────────────────────── running a retry ─────────────────────────

/// What the database holds for a meeting when a retry starts.
#[derive(Debug)]
pub struct StoredRun {
    /// The transcript lines joined (see `transcript_text`).
    pub raw_transcript: String,
    pub clean: Option<String>,
    pub organized: Option<String>,
    /// The stored summary ("" when there is none).
    pub summary: String,
    pub action_items: Vec<ActionItemRaw>,
    pub auto_titled: bool,
}

/// What a retry produced. A result field is set when its stage ran and
/// succeeded this time (and is to be stored); `failed` names the stage that
/// stopped the retry and its error text.
#[derive(Debug)]
pub struct RetryOutcome {
    pub start: u32,
    pub clean: Option<String>,
    pub organized: Option<String>,
    pub structure: Option<StructuredMeeting>,
    pub summary: Option<String>,
    pub action_items: Option<Vec<ActionItemRaw>>,
    pub report: Option<String>,
    pub title: Option<String>,
    pub failed: Option<(u8, String)>,
}

/// The message of a retry that has no transcript to clean.
pub open spec fn no_transcript_message() -> Seq<char> {
    "No transcript available to process"@
}

/// The exchange `(prompt, reply)` is in `log` at or after position `from`.
pub open spec fn asked(
    log: Seq<(Seq<char>, Result<Seq<char>, AppError>)>,
    from: int,
    prompt: Seq<char>,
    reply: Result<Seq<char>, AppError>,
) -> bool {
    exists|i: int| from <= i < log.len() && #[trigger] log[i] == (prompt, reply)
}

/// The cleaned transcript the retry worked with.
pub open spec fn clean_used(r: RetryOutcome, s: StoredRun) -> Seq<char> {
    match r.clean {
        Some(c) => c@,
        None => opt_view(s.clean).unwrap_or(Seq::empty()),
    }
}

/// The organised transcript the retry worked with.
pub open spec fn organized_used(r: RetryOutcome, s: StoredRun) -> Seq<char> {
    match r.organized {
        Some(o) => o@,
        None => opt_view(s.organized).unwrap_or(Seq::empty()),
    }
}

/// The summary the report was asked for.
pub open spec fn summary_used(r: RetryOutcome, s: StoredRun) -> Seq<char> {
    match r.summary {
        Some(x) => x@,
        None => s.summary@,
    }
}

/// The action items the report was asked with: those of stage 5 when it
/// ran, else the stored ones.
pub open spec fn items_used(r: RetryOutcome, s: StoredRun) -> Seq<ActionItemRaw> {
    match r.action_items {
        Some(a) => a@,
        None => s.action_items@,
    }
}

/// How many exchanges the stages from `start` up to (not including) `k`
/// have when they all succeed: one for each stage that runs, where stages 3
/// and 5 ask only when their template loads. Stages before `start` ask
/// nothing.
pub open spec fn asks_before(files: Seq<crate::llm::pipeline::PromptFile>, start: u32, k: nat) -> int {
    (if start <= 1 && 1 < k { 1int } else { 0 }) + (if start <= 2 && 2 < k { 1int } else { 0 }) + (
    if start <= 3 && 3 < k && loads(files, 3) {
        1int
    } else {
        0
    }) + (if start <= 4 && 4 < k { 1int } else { 0 }) + (if start <= 5 && 5 < k && loads(files, 5) {
        1int
    } else {
        0
    })
}

/// How many exchanges stages `start` to 5 have when they all succeed:
/// one for each stage that runs, where stages 3 and 5 ask only when their
/// template loads.
pub open spec fn asks_before_report(files: Seq<crate::llm::pipeline::PromptFile>, start: u32) -> int {
    (if start <= 1 { 1int } else { 0 }) + (if start <= 2 { 1int } else { 0 }) + (if start <= 3
        && loads(files, 3) {
        1int
    } else {
        0
    }) + (if start <= 4 { 1int } else { 0 }) + (if start <= 5 && loads(files, 5) {
        1int
    } else {
        0
    })
}

/// Stage `k` failed with `msg` while asking `prompt`: either its template
/// did not load, or the model answered with an error.
pub open spec fn stage_failure(
    files: Seq<crate::llm::pipeline::PromptFile>,
    log: Seq<(Seq<char>, Result<Seq<char>, AppError>)>,
    from: int,
    k: nat,
    prompt: Seq<char>,
    msg: Seq<char>,
) -> bool {
    match prompt_outcome(files, stage_file(k)) {
        Err(m) => msg == m,
        Ok(_) => exists|e: AppError| asked(log, from, prompt, Err(e)) && msg == error_text(e),
    }
}

/// The notices of the stages a retry finished, in order.
pub open spec fn retry_notices(r: RetryOutcome) -> Seq<(u8, Seq<char>, Seq<char>)> {
    (match r.clean {
        Some(c) => seq![(1u8, "文本清洗"@, clean_notice(c@))],
        None => Seq::empty(),
    }) + (match r.organized {
        Some(o) => seq![(2u8, "说话人整理"@, preview(o@, 50))],
        None => Seq::empty(),
    }) + (match r.structure {
        Some(st) => seq![(3u8, "结构化提取"@, structure_notice(st))],
        None => Seq::empty(),
    }) + (match r.summary {
        Some(x) => seq![(4u8, "会议总结"@, preview(x@, 100))],
        None => Seq::empty(),
    }) + (match r.action_items {
        Some(a) => seq![(5u8, "行动项提取"@, actions_notice(a@.len()))],
        None => Seq::empty(),
    }) + (match r.report {
        Some(_) => seq![(6u8, "报告生成"@, "报告已生成，点击查看"@)],
        None => Seq::empty(),
    })
}

/// Which stages produced a result: those from `start` up to (not
/// including) `upto`, where stages 1, 2, 4 and 6 yield their text and
/// stages 3 and 5 always yield one.
pub open spec fn produced_through(r: RetryOutcome, upto: nat) -> bool {
    &&& (r.clean is Some <==> r.start <= 1 && 1 < upto)
    &&& (r.organized is Some <==> r.start <= 2 && 2 < upto)
    &&& (r.structure is Some <==> r.start <= 3 && 3 < upto)
    &&& (r.summary is Some <==> r.start <= 4 && 4 < upto)
    &&& (r.action_items is Some <==> r.start <= 5 && 5 < upto)
    &&& (r.report is Some <==> 6 < upto)
}

/// Every result of the retry came from the model, asked about the right
/// input: the cleaned text from the raw transcript, the organised text from
/// the cleaned one, the summary from the organised text, the report from
/// the summary (and some JSON of the action items), and the title from the
/// summary, trimmed.
pub open spec fn retry_facts(
    files: Seq<crate::llm::pipeline::PromptFile>,
    log: Seq<(Seq<char>, Result<Seq<char>, AppError>)>,
    at: int,
    s: StoredRun,
    r: RetryOutcome,
) -> bool {
    &&& r.clean matches Some(c) ==> asked(
        log,
        at,
        filled(template_of(files, 1), "transcript"@, s.raw_transcript@),
        Ok(c@),
    )
    &&& r.organized matches Some(o) ==> asked(
        log,
        at,
        filled(template_of(files, 2), "transcript"@, clean_used(r, s)),
        Ok(o@),
    )
    &&& r.summary matches Some(x) ==> asked(
        log,
        at,
        filled(template_of(files, 4), "meeting_text"@, organized_used(r, s)),
        Ok(x@),
    )
    &&& r.report matches Some(p) ==> exists|json: Seq<char>|
        asked(log, at, report_prompt(template_of(files, 6), summary_used(r, s), json), Ok(p@))
    &&& r.title matches Some(t) ==> s.auto_titled && exists|x: Seq<char>|
        asked(log, at, filled(template_of(files, 7), "summary"@, summary_used(r, s)), Ok(x))
            && t@ == trim(x)
}

/// An exchange stays in a record that grows.
proof fn lemma_asked_grows(
    a: Seq<(Seq<char>, Result<Seq<char>, AppError>)>,
    b: Seq<(Seq<char>, Result<Seq<char>, AppError>)>,
    from: int,
    prompt: Seq<char>,
    reply: Result<Seq<char>, AppError>,
)
    requires
        0 <= from,
        asked(a, from, prompt, reply),
        a.len() <= b.len(),
        b.take(a.len() as int) == a,
    ensures
        asked(b, from, prompt, reply),
{
    let i = choose|i: int| from <= i < a.len() && #[trigger] a[i] == (prompt, reply);
    assert(b.take(a.len() as int)[i] == b[i]);
}

/// The facts of a retry stay true while the record grows.
proof fn lemma_facts_grow(
    files: Seq<crate::llm::pipeline::PromptFile>,
    a: Seq<(Seq<char>, Result<Seq<char>, AppError>)>,
    b: Seq<(Seq<char>, Result<Seq<char>, AppError>)>,
    at: int,
    s: StoredRun,
    r: RetryOutcome,
)
    requires
        0 <= at,
        retry_facts(files, a, at, s, r),
        a.len() <= b.len(),
        b.take(a.len() as int) == a,
    ensures
        retry_facts(files, b, at, s, r),
{
    if let Some(c) = r.clean {
        lemma_asked_grows(a, b, at, filled(template_of(files, 1), "transcript"@, s.raw_transcript@), Ok(c@));
    }
    if let Some(o) = r.organized {
        lemma_asked_grows(a, b, at, filled(template_of(files, 2), "transcript"@, clean_used(r, s)), Ok(o@));
    }
    if let Some(x) = r.summary {
        lemma_asked_grows(a, b, at, filled(template_of(files, 4), "meeting_text"@, organized_used(r, s)), Ok(x@));
    }
    if let Some(p) = r.report {
        let json = choose|json: Seq<char>|
            asked(a, at, report_prompt(template_of(files, 6), summary_used(r, s), json), Ok(p@));
        lemma_asked_grows(a, b, at, report_prompt(template_of(files, 6), summary_used(r, s), json), Ok(p@));
    }
    if let Some(t) = r.title {
        let x = choose|x: Seq<char>|
            asked(a, at, filled(template_of(files, 7), "summary"@, summary_used(r, s)), Ok(x))
                && t@ == trim(x);
        lemma_asked_grows(a, b, at, filled(template_of(files, 7), "summary"@, summary_used(r, s)), Ok(x));
    }
}

/// The state of a retry under way: the record `log` extends `log0`, the
/// facts of the results so far hold, and the observer got one notice per
/// finished stage.
pub open spec fn retry_progress(
    files: Seq<crate::llm::pipeline::PromptFile>,
    log0: Seq<(Seq<char>, Result<Seq<char>, AppError>)>,
    obs0: Option<Seq<(u8, Seq<char>, Seq<char>)>>,
    s: StoredRun,
    r: RetryOutcome,
    log: Seq<(Seq<char>, Result<Seq<char>, AppError>)>,
    obs: Option<Seq<(u8, Seq<char>, Seq<char>)>>,
) -> bool {
    &&& log.len() >= log0.len()
    &&& log.take(log0.len() as int) == log0
    &&& retry_facts(files, log, log0.len() as int, s, r)
    &&& obs == match obs0 {
        Some(n) => Some(n + retry_notices(r)),
        None => None,
    }
}

/// Stages 1 and 2 of a retry: the cleaned and the organised text to go on
/// with, or `None` when one of them failed (and `out.failed` says which).
#[verifier::rlimit(40)]
fn retry_front<C: LlmClient, O: StageObserver>(
    pipeline: &mut Pipeline<C, O>,
    stored: &StoredRun,
    out: &mut RetryOutcome,
) -> (t: Option<(String, String)>)
    requires
        old(out).clean is None && old(out).organized is None && old(out).structure is None,
        old(out).summary is None && old(out).action_items is None && old(out).report is None,
        old(out).title is None && old(out).failed is None,
        old(out).start >= 2 ==> stored.clean is Some,
        old(out).start >= 3 ==> stored.organized is Some,
    ensures
        final(pipeline).prompt_files() == old(pipeline).prompt_files(),
        final(pipeline).codec_log() == old(pipeline).codec_log(),
        final(out).start == old(out).start,
        final(out).structure is None && final(out).summary is None,
        old(out).start <= 1 && stored.raw_transcript@.len() == 0 ==> t is None
            && (final(out).failed matches Some((k, _)) && k == 1),
        final(out).action_items is None && final(out).report is None && final(out).title is None,
        retry_progress(
            old(pipeline).prompt_files(),
            old(pipeline).exchanges(),
            old(pipeline).observer(),
            *stored,
            *final(out),
            final(pipeline).exchanges(),
            final(pipeline).observer(),
        ),
        t matches Some((c, o)) ==> {
            &&& final(out).failed is None
            &&& produced_through(*final(out), 3)
            &&& c@ == clean_used(*final(out), *stored)
            &&& o@ == organized_used(*final(out), *stored)
            &&& final(pipeline).exchanges().len() == old(pipeline).exchanges().len() + (if old(out).start <= 1 { 1int } else { 0 }) + (if old(out).start <= 2 { 1int } else { 0 })
        },
        t is None ==> (final(out).failed matches Some((k, msg)) && {
            &&& (k == 1 || k == 2)
            &&& old(out).start <= k
            &&& produced_through(*final(out), k as nat)
            &&& final(pipeline).exchanges().len() == old(pipeline).exchanges().len() + asks_before(
                old(pipeline).prompt_files(),
                old(out).start,
                k as nat,
            ) + (if loads(old(pipeline).prompt_files(), k as nat) && !(k == 1
                && stored.raw_transcript@.len() == 0) {
                1int
            } else {
                0
            })
            &&& (k == 1 && stored.raw_transcript@.len() == 0 ==> msg@ == no_transcript_message()
                && final(pipeline).exchanges() == old(pipeline).exchanges())
            &&& (k == 1 && stored.raw_transcript@.len() > 0 ==> stage_failure(
                old(pipeline).prompt_files(),
                final(pipeline).exchanges(),
                old(pipeline).exchanges().len() as int,
                1,
                filled(template_of(old(pipeline).prompt_files(), 1), "transcript"@, stored.raw_transcript@),
                msg@,
            ))
            &&& (k == 2 ==> stage_failure(
                old(pipeline).prompt_files(),
                final(pipeline).exchanges(),
                old(pipeline).exchanges().len() as int,
                2,
                filled(template_of(old(pipeline).prompt_files(), 2), "transcript"@, clean_used(*final(out), *stored)),
                msg@,
            ))
        }),
{
    let ghost files = pipeline.prompt_files();
    let ghost log0 = pipeline.exchanges();
    let ghost at = log0.len() as int;
    let ghost obs0 = pipeline.observer();
    let start = out.start;
    proof {
        assert(log0.take(at) =~= log0);
        match obs0 {
            Some(n) => assert(n + retry_notices(*out) =~= n),
            None => {},
        }
    }
    // stage 1
    let clean: String = if start <= 1 {
        if stored.raw_transcript.as_str().is_empty() {
            out.failed = Some((1u8, "No transcript available to process".to_owned()));
            return None;
        }
        match pipeline.stage1_clean(stored.raw_transcript.as_str()) {
            Ok(v) => {
                let ghost l = pipeline.exchanges();
                assert(l[at] == (filled(template_of(files, 1), "transcript"@, stored.raw_transcript@), Ok::<Seq<char>, AppError>(v@)));
                let note = clean_notice_of(v.as_str());
                pipeline.notify_stage(1, "文本清洗", note.as_str());
                out.clean = Some(copy_string(&v));
                proof {
                    assert(l.take(at) =~= log0);
                    match obs0 {
                        Some(n) => assert(n + retry_notices(*out) =~= n.push((1u8, "文本清洗"@, clean_notice(v@)))),
                        None => {},
                    }
                }
                v
            },
            Err(e) => {
                out.failed = Some((1u8, e.to_string()));
                proof {
                    let fin = pipeline.exchanges();
                    assert(fin.take(at) =~= log0);
                    if loads(files, 1) {
                        assert(fin[at] == (filled(template_of(files, 1), "transcript"@, stored.raw_transcript@), Err::<Seq<char>, AppError>(e)));
                    }
                }
                return None;
            },
        }
    } else {
        match &stored.clean {
            Some(c) => copy_string(c),
            None => String::new(),
        }
    };
    let ghost log1 = pipeline.exchanges();
    proof {
        assert(clean@ == clean_used(*out, *stored));
        assert(log1.take(at) =~= log0);
    }
    // stage 2
    let organized: String = if start <= 2 {
        match pipeline.stage2_speaker(clean.as_str()) {
            Ok(v) => {
                let ghost l = pipeline.exchanges();
                assert(l.take(log1.len() as int) =~= log1);
                assert(l.take(at) =~= log0);
                proof {
                    lemma_facts_grow(files, log1, l, at, *stored, *out);
                }
                assert(l[log1.len() as int] == (filled(template_of(files, 2), "transcript"@, clean@), Ok::<Seq<char>, AppError>(v@)));
                let note = preview_of(v.as_str(), 50);
                pipeline.notify_stage(2, "说话人整理", note.as_str());
                let ghost out1 = *out;
                out.organized = Some(copy_string(&v));
                proof {
                    assert(clean_used(*out, *stored) == clean_used(out1, *stored));
                    match obs0 {
                        Some(n) => assert(n + retry_notices(*out) =~= n + retry_notices(out1) + seq![(2u8, "说话人整理"@, preview(v@, 50))]),
                        None => {},
                    }
                }
                v
            },
            Err(e) => {
                out.failed = Some((2u8, e.to_string()));
                proof {
                    let fin = pipeline.exchanges();
                    assert(fin.take(at) =~= log0);
                    assert(fin.take(log1.len() as int) =~= log1);
                    lemma_facts_grow(files, log1, fin, at, *stored, *out);
                    if loads(files, 2) {
                        assert(fin[log1.len() as int] == (filled(template_of(files, 2), "transcript"@, clean@), Err::<Seq<char>, AppError>(e)));
                    }
                }
                return None;
            },
        }
    } else {
        match &stored.organized {
            Some(o) => copy_string(o),
            None => String::new(),
        }
    };
    proof {
        assert(organized@ == organized_used(*out, *stored));
        assert(pipeline.exchanges().take(at) =~= log0);
    }
    Some((clean, organized))
}

/// Stages 3 to 5 of a retry: the summary and the action items to report
/// on, or `None` when the summary failed (and `out.failed` says so).
#[verifier::rlimit(40)]
fn retry_middle<C: LlmClient, O: StageObserver, J: MeetingCodec>(
    pipeline: &mut Pipeline<C, O>,
    stored: &StoredRun,
    organized: &String,
    out: &mut RetryOutcome,
    codec: &J,
    Ghost(log0): Ghost<Seq<(Seq<char>, Result<Seq<char>, AppError>)>>,
    Ghost(obs0): Ghost<Option<Seq<(u8, Seq<char>, Seq<char>)>>>,
) -> (t: Option<String>)
    requires
        retry_progress(old(pipeline).prompt_files(), log0, obs0, *stored, *old(out), old(pipeline).exchanges(), old(pipeline).observer()),
        old(out).failed is None,
        produced_through(*old(out), 3),
        old(out).title is None,
        organized@ == organized_used(*old(out), *stored),
    ensures
        final(pipeline).prompt_files() == old(pipeline).prompt_files(),
        final(out).start == old(out).start,
        final(out).clean == old(out).clean && final(out).organized == old(out).organized,
        final(out).report is None && final(out).title is None,
        final(pipeline).codec_log().2 == old(pipeline).codec_log().2,
        retry_progress(old(pipeline).prompt_files(), log0, obs0, *stored, *final(out), final(pipeline).exchanges(), final(pipeline).observer()),
        t matches Some(x) ==> {
            &&& final(out).failed is None
            &&& produced_through(*final(out), 6)
            &&& x@ == summary_used(*final(out), *stored)
            &&& final(pipeline).exchanges().len() == old(pipeline).exchanges().len()
                + (if old(out).start <= 3 && loads(old(pipeline).prompt_files(), 3) { 1int } else { 0 })
                + (if old(out).start <= 4 { 1int } else { 0 })
                + (if old(out).start <= 5 && loads(old(pipeline).prompt_files(), 5) { 1int } else { 0 })
        },
        t is None ==> (final(out).failed matches Some((k, msg)) && {
            &&& k == 4
            &&& old(out).start <= 4
            &&& produced_through(*final(out), 4)
            &&& final(pipeline).exchanges().len() == old(pipeline).exchanges().len()
                + (if old(out).start <= 3 && loads(old(pipeline).prompt_files(), 3) { 1int } else { 0 })
                + (if loads(old(pipeline).prompt_files(), 4) { 1int } else { 0 })
            &&& stage_failure(
                old(pipeline).prompt_files(),
                final(pipeline).exchanges(),
                log0.len() as int,
                4,
                filled(template_of(old(pipeline).prompt_files(), 4), "meeting_text"@, organized_used(*final(out), *stored)),
                msg@,
            )
        }),
{
    let ghost files = pipeline.prompt_files();
    let ghost at = log0.len() as int;
    let ghost log2 = pipeline.exchanges();
    let start = out.start;
    // stage 3
    if start <= 3 {
        let structure = pipeline.stage3_structure(organized.as_str(), codec);
        let ghost l = pipeline.exchanges();
        proof {
            if l.len() > log2.len() {
                assert(l.take(log2.len() as int) =~= l.drop_last());
            } else {
                assert(l.take(log2.len() as int) =~= l);
            }
            assert(l.take(at) =~= log2.take(at));
            lemma_facts_grow(files, log2, l, at, *stored, *out);
        }
        let note = structure_notice_of(&structure);
        pipeline.notify_stage(3, "结构化提取", note.as_str());
        let ghost out2 = *out;
        let ghost st = structure;
        out.structure = Some(structure);
        proof {
            match obs0 {
                Some(n) => assert(n + retry_notices(*out) =~= n + retry_notices(out2) + seq![(3u8, "结构化提取"@, structure_notice(st))]),
                None => {},
            }
        }
    }
    let ghost log3 = pipeline.exchanges();
    // stage 4
    let summary: String = if start <= 4 {
        match pipeline.stage4_summary(organized.as_str()) {
            Ok(v) => {
                let ghost l = pipeline.exchanges();
                assert(l.take(log3.len() as int) =~= log3);
                assert(l.take(at) =~= log3.take(at));
                proof {
                    lemma_facts_grow(files, log3, l, at, *stored, *out);
                }
                assert(l[log3.len() as int] == (filled(template_of(files, 4), "meeting_text"@, organized@), Ok::<Seq<char>, AppError>(v@)));
                let note = preview_of(v.as_str(), 100);
                pipeline.notify_stage(4, "会议总结", note.as_str());
                let ghost out3 = *out;
                out.summary = Some(copy_string(&v));
                proof {
                    assert(organized_used(*out, *stored) == organized_used(out3, *stored));
                    match obs0 {
                        Some(n) => assert(n + retry_notices(*out) =~= n + retry_notices(out3) + seq![(4u8, "会议总结"@, preview(v@, 100))]),
                        None => {},
                    }
                }
                v
            },
            Err(e) => {
                out.failed = Some((4u8, e.to_string()));
                proof {
                    let fin = pipeline.exchanges();
                    assert(fin.take(at) =~= log3.take(at));
                    assert(fin.take(log3.len() as int) =~= log3);
                    lemma_facts_grow(files, log3, fin, at, *stored, *out);
                    if loads(files, 4) {
                        assert(fin[log3.len() as int] == (filled(template_of(files, 4), "meeting_text"@, organized@), Err::<Seq<char>, AppError>(e)));
                    }
                }
                return None;
            },
        }
    } else {
        copy_string(&stored.summary)
    };
    let ghost log4 = pipeline.exchanges();
    proof {
        assert(summary@ == summary_used(*out, *stored));
    }
    // stage 5
    if start <= 5 {
        let items = pipeline.stage5_actions(organized.as_str(), codec);
        let ghost l = pipeline.exchanges();
        proof {
            if l.len() > log4.len() {
                assert(l.take(log4.len() as int) =~= l.drop_last());
            } else {
                assert(l.take(log4.len() as int) =~= l);
            }
            assert(l.take(at) =~= log4.take(at));
            lemma_facts_grow(files, log4, l, at, *stored, *out);
        }
        let note = actions_notice_of(items.len());
        pipeline.notify_stage(5, "行动项提取", note.as_str());
        let ghost out4 = *out;
        let ghost n_items = items@.len();
        out.action_items = Some(items);
        proof {
            match obs0 {
                Some(n) => assert(n + retry_notices(*out) =~= n + retry_notices(out4) + seq![(5u8, "行动项提取"@, actions_notice(n_items))]),
                None => {},
            }
        }
    }
    Some(summary)
}

/// Stages 6 and 7 of a retry: the report, and the title when wanted.
#[verifier::rlimit(40)]
fn retry_tail<C: LlmClient, O: StageObserver, J: MeetingCodec>(
    pipeline: &mut Pipeline<C, O>,
    stored: &StoredRun,
    summary: &String,
    out: &mut RetryOutcome,
    codec: &J,
    Ghost(log0): Ghost<Seq<(Seq<char>, Result<Seq<char>, AppError>)>>,
    Ghost(obs0): Ghost<Option<Seq<(u8, Seq<char>, Seq<char>)>>>,
)
    requires
        retry_progress(old(pipeline).prompt_files(), log0, obs0, *stored, *old(out), old(pipeline).exchanges(), old(pipeline).observer()),
        old(out).failed is None,
        produced_through(*old(out), 6),
        old(out).title is None,
        summary@ == summary_used(*old(out), *stored),
    ensures
        final(pipeline).prompt_files() == old(pipeline).prompt_files(),
        final(out).start == old(out).start,
        final(out).clean == old(out).clean && final(out).organized == old(out).organized,
        final(out).structure == old(out).structure && final(out).summary == old(out).summary,
        final(out).action_items == old(out).action_items,
        final(pipeline).codec_log().2 == old(pipeline).codec_log().2.push(
            (items_used(*old(out), *stored), final(pipeline).codec_log().2.last().1),
        ),
        retry_progress(old(pipeline).prompt_files(), log0, obs0, *stored, *final(out), final(pipeline).exchanges(), final(pipeline).observer()),
        final(out).failed is None ==> final(pipeline).codec_log().2.last().1 is Ok,
        final(out).failed is None ==> produced_through(*final(out), 7)
            && final(pipeline).exchanges().len() == old(pipeline).exchanges().len() + 1
            + (if stored.auto_titled && loads(old(pipeline).prompt_files(), 7) { 1int } else { 0 }),
        final(out).failed is None && !stored.auto_titled ==> final(out).title is None,
        final(out).failed matches Some((k, msg)) ==> k == 6 && produced_through(*final(out), 6)
            && final(out).title is None && match final(pipeline).codec_log().2.last().1 {
                Err(e) => msg@ == error_text(e) && final(pipeline).exchanges() == old(pipeline).exchanges(),
                Ok(json) => stage_failure(
                    old(pipeline).prompt_files(),
                    final(pipeline).exchanges(),
                    log0.len() as int,
                    6,
                    report_prompt(template_of(old(pipeline).prompt_files(), 6), summary_used(*final(out), *stored), json),
                    msg@,
                ),
            },
{
    let ghost files = pipeline.prompt_files();
    let ghost at = log0.len() as int;
    let ghost log5 = pipeline.exchanges();
    let written = match &out.action_items {
        Some(a) => pipeline.encode_items(codec, a),
        None => pipeline.encode_items(codec, &stored.action_items),
    };
    let actions_json = match written {
        Ok(j) => j,
        Err(e) => {
            out.failed = Some((6u8, e.to_string()));
            return;
        },
    };
    match pipeline.stage6_report(summary.as_str(), actions_json.as_str()) {
        Ok(v) => {
            let ghost l = pipeline.exchanges();
            assert(l.take(log5.len() as int) =~= log5);
            assert(l.take(at) =~= log5.take(at));
            proof {
                lemma_facts_grow(files, log5, l, at, *stored, *out);
            }
            assert(l[log5.len() as int] == (report_prompt(template_of(files, 6), summary@, actions_json@), Ok::<Seq<char>, AppError>(v@)));
            pipeline.notify_stage(6, "报告生成", "报告已生成，点击查看");
            let ghost out5 = *out;
            out.report = Some(v);
            proof {
                assert(summary_used(*out, *stored) == summary_used(out5, *stored));
                assert(asked(l, at, report_prompt(template_of(files, 6), summary_used(*out, *stored), actions_json@), Ok(out.report->Some_0@)));
                assert(retry_facts(files, l, at, *stored, *out));
                match obs0 {
                    Some(n) => assert(n + retry_notices(*out) =~= n + retry_notices(out5) + seq![(6u8, "报告生成"@, "报告已生成，点击查看"@)]),
                    None => {},
                }
            }
        },
        Err(e) => {
            out.failed = Some((6u8, e.to_string()));
            proof {
                let fin = pipeline.exchanges();
                assert(fin.take(at) =~= log5.take(at));
                assert(fin.take(log5.len() as int) =~= log5);
                lemma_facts_grow(files, log5, fin, at, *stored, *out);
                let p6 = report_prompt(template_of(files, 6), summary@, actions_json@);
                if loads(files, 6) {
                    assert(fin[log5.len() as int] == (p6, Err::<Seq<char>, AppError>(e)));
                    assert(asked(fin, at, p6, Err(e)));
                }
                assert(summary_used(*out, *stored) == summary@);
                assert(stage_failure(files, fin, at, 6, p6, out.failed->Some_0.1@));
            }
            return;
        },
    }
    let ghost log6 = pipeline.exchanges();
    assert(retry_facts(files, log6, at, *stored, *out));
    // stage 7
    if stored.auto_titled {
        match pipeline.stage7_title(summary.as_str()) {
            Ok(t) => {
                let ghost l = pipeline.exchanges();
                assert(l.take(log6.len() as int) =~= l.drop_last());
                assert(l.take(at) =~= log6.take(at));
                proof {
                    lemma_facts_grow(files, log6, l, at, *stored, *out);
                    let x = l.last().1->Ok_0;
                    assert(l[log6.len() as int] == (filled(template_of(files, 7), "summary"@, summary@), Ok::<Seq<char>, AppError>(x)));
                }
                let ghost out6 = *out;
                out.title = Some(t);
                proof {
                    assert(summary_used(*out, *stored) == summary_used(out6, *stored));
                    assert(out.report == out6.report);
                }
            },
            Err(_) => {
                proof {
                    let l = pipeline.exchanges();
                    if l.len() > log6.len() {
                        assert(l.take(log6.len() as int) =~= l.drop_last());
                    } else {
                        assert(l.take(log6.len() as int) =~= l);
                    }
                    assert(l.take(at) =~= log6.take(at));
                    lemma_facts_grow(files, log6, l, at, *stored, *out);
                }
            },
        }
    }
}

/// Reruns the pipeline for a meeting from stage `from_stage` (moved earlier
/// when an intermediate result it needs is missing; see `retry_start`).
/// Stages before the start take their input from `stored`; each stage that
/// runs reports to the observer; the first failing stage stops the retry.
/// A retry from stage 1 without a transcript fails at once.
pub fn retry_stages<C: LlmClient, O: StageObserver, J: MeetingCodec>(
    pipeline: &mut Pipeline<C, O>,
    stored: &StoredRun,
    from_stage: u32,
    codec: &J,
) -> (r: RetryOutcome)
    ensures
        final(pipeline).prompt_files() == old(pipeline).prompt_files(),
        final(pipeline).exchanges().len() >= old(pipeline).exchanges().len(),
        final(pipeline).exchanges().take(old(pipeline).exchanges().len() as int) == old(
            pipeline,
        ).exchanges(),
        r.start == retry_start(from_stage, stored.clean is Some, stored.organized is Some),
        retry_facts(
            old(pipeline).prompt_files(),
            final(pipeline).exchanges(),
            old(pipeline).exchanges().len() as int,
            *stored,
            r,
        ),
        // a retry that finishes ran every stage from its start
        r.failed is None ==> produced_through(r, 7) && final(pipeline).exchanges().len()
            == old(pipeline).exchanges().len() + asks_before_report(old(pipeline).prompt_files(), r.start)
            + 1 + (if stored.auto_titled && loads(old(pipeline).prompt_files(), 7) { 1int } else { 0 }),
        r.failed is None && !stored.auto_titled ==> r.title is None,
        // a retry that fails stops at the failing stage
        r.failed matches Some((k, msg)) ==> {
            &&& (k == 1 || k == 2 || k == 4 || k == 6)
            &&& (r.start <= k || k == 6)
            &&& produced_through(r, k as nat)
            &&& r.title is None
            // the stages before the start and after the failing one asked
            // nothing
            &&& (k != 6 ==> final(pipeline).exchanges().len() == old(pipeline).exchanges().len()
                + asks_before(old(pipeline).prompt_files(), r.start, k as nat) + (if loads(
                old(pipeline).prompt_files(),
                k as nat,
            ) && !(k == 1 && stored.raw_transcript@.len() == 0) {
                1int
            } else {
                0
            }))
            &&& (k == 1 && stored.raw_transcript@.len() == 0 ==> msg@ == no_transcript_message()
                && final(pipeline).exchanges() == old(pipeline).exchanges())
            &&& (k == 1 && stored.raw_transcript@.len() > 0 ==> stage_failure(
                old(pipeline).prompt_files(),
                final(pipeline).exchanges(),
                old(pipeline).exchanges().len() as int,
                1,
                filled(template_of(old(pipeline).prompt_files(), 1), "transcript"@, stored.raw_transcript@),
                msg@,
            ))
            &&& (k == 2 ==> stage_failure(
                old(pipeline).prompt_files(),
                final(pipeline).exchanges(),
                old(pipeline).exchanges().len() as int,
                2,
                filled(template_of(old(pipeline).prompt_files(), 2), "transcript"@, clean_used(r, *stored)),
                msg@,
            ))
            &&& (k == 4 ==> stage_failure(
                old(pipeline).prompt_files(),
                final(pipeline).exchanges(),
                old(pipeline).exchanges().len() as int,
                4,
                filled(template_of(old(pipeline).prompt_files(), 4), "meeting_text"@, organized_used(r, *stored)),
                msg@,
            ))
            // at stage 6 either the codec could not write the action items
            // as JSON (and the report was not asked for), or the report
            // failed
            &&& (k == 6 ==> final(pipeline).codec_log().2 == old(pipeline).codec_log().2.push(
                (items_used(r, *stored), final(pipeline).codec_log().2.last().1),
            ) && match final(pipeline).codec_log().2.last().1 {
                Err(e) => msg@ == error_text(e) && final(pipeline).exchanges().len() == old(
                    pipeline,
                ).exchanges().len() + asks_before_report(old(pipeline).prompt_files(), r.start),
                Ok(json) => stage_failure(
                    old(pipeline).prompt_files(),
                    final(pipeline).exchanges(),
                    old(pipeline).exchanges().len() as int,
                    6,
                    report_prompt(template_of(old(pipeline).prompt_files(), 6), summary_used(r, *stored), json),
                    msg@,
                ),
            })
        },
        // a retry that finishes had the codec write the action items it
        // reported on
        r.failed is None ==> final(pipeline).codec_log().2 == old(pipeline).codec_log().2.push(
            (items_used(r, *stored), final(pipeline).codec_log().2.last().1),
        ) && final(pipeline).codec_log().2.last().1 is Ok,
        // a retry from stage 1 without a transcript fails at once
        r.start <= 1 && stored.raw_transcript@.len() == 0 ==> (r.failed matches Some((k, m)) && k
            == 1 && m@ == no_transcript_message()) && final(pipeline).exchanges() == old(
            pipeline,
        ).exchanges(),
        final(pipeline).observer() == match old(pipeline).observer() {
            Some(n) => Some(n + retry_notices(r)),
            None => None,
        },
{
    let ghost log0 = pipeline.exchanges();
    let ghost obs0 = pipeline.observer();
    let start = retry_start_stage(from_stage, stored.clean.is_some(), stored.organized.is_some());
    let mut out = RetryOutcome {
        start,
        clean: None,
        organized: None,
        structure: None,
        summary: None,
        action_items: None,
        report: None,
        title: None,
        failed: None,
    };
    let (clean, organized) = match retry_front(pipeline, stored, &mut out) {
        Some(t) => t,
        None => {
            return out;
        },
    };
    let ghost out2 = out;
    let summary = match retry_middle(pipeline, stored, &organized, &mut out, codec, Ghost(log0), Ghost(obs0)) {
        Some(t) => t,
        None => {
            proof {
                assert(clean_used(out, *stored) == clean_used(out2, *stored));
            }
            return out;
        },
    };
    retry_tail(pipeline, stored, &summary, &mut out, codec, Ghost(log0), Ghost(obs0));
    out
}

/// What a full run over a meeting starts from: its transcript, with no
/// intermediate result stored, run from stage 1. An empty transcript is
/// refused before any model is asked.
pub fn full_run_input(raw_transcript: String, auto_titled: bool) -> (r: Result<StoredRun, String>)
    ensures
        r is Err <==> raw_transcript@.len() == 0,
        r matches Err(m) ==> m@ == no_transcript_message(),
        r matches Ok(s) ==> {
            &&& s.raw_transcript@ == raw_transcript@
            &&& s.clean is None && s.organized is None
            &&& s.summary@.len() == 0 && s.action_items@.len() == 0
            &&& s.auto_titled == auto_titled
        },
{
    if raw_transcript.as_str().is_empty() {
        return Err("No transcript available to process".to_owned());
    }
    Ok(StoredRun {
        raw_transcript,
        clean: None,
        organized: None,
        summary: String::new(),
        action_items: Vec::new(),
        auto_titled,
    })
}

// ───────────────────────── regenerating the summary ─────────────────────────

/// The message when there is no transcript to summarise.
pub open spec fn no_summary_input_message() -> Seq<char> {
    "No transcript available to regenerate summary"@
}

/// Runs stages 1, 2 and 4 over a meeting's transcript to write a new
/// summary. The first failing stage's error text is returned; an empty
/// transcript is refused without asking the model.
pub fn regenerated_summary<C: LlmClient, O: StageObserver>(
    pipeline: &mut Pipeline<C, O>,
    transcript: &str,
) -> (r: Result<String, String>)
    ensures
        final(pipeline).prompt_files() == old(pipeline).prompt_files(),
        final(pipeline).observer() == old(pipeline).observer(),
        final(pipeline).exchanges().len() >= old(pipeline).exchanges().len(),
        final(pipeline).exchanges().take(old(pipeline).exchanges().len() as int) == old(
            pipeline,
        ).exchanges(),
        transcript@.len() == 0 ==> (r matches Err(m) && m@ == no_summary_input_message()
            && final(pipeline).exchanges() == old(pipeline).exchanges()),
        r matches Ok(x) ==> final(pipeline).exchanges().len() == old(pipeline).exchanges().len() + 3
            && exists|c: Seq<char>, o: Seq<char>| {
            &&& asked(
                final(pipeline).exchanges(),
                old(pipeline).exchanges().len() as int,
                filled(template_of(old(pipeline).prompt_files(), 1), "transcript"@, transcript@),
                Ok(c),
            )
            &&& asked(
                final(pipeline).exchanges(),
                old(pipeline).exchanges().len() as int,
                filled(template_of(old(pipeline).prompt_files(), 2), "transcript"@, c),
                Ok(o),
            )
            &&& asked(
                final(pipeline).exchanges(),
                old(pipeline).exchanges().len() as int,
                filled(template_of(old(pipeline).prompt_files(), 4), "meeting_text"@, o),
                Ok(x@),
            )
        },
        r matches Err(m) ==> transcript@.len() == 0 || {
            ||| final(pipeline).exchanges().len() == old(pipeline).exchanges().len() + (if loads(
                old(pipeline).prompt_files(),
                1,
            ) {
                1int
            } else {
                0
            }) && stage_failure(
                old(pipeline).prompt_files(),
                final(pipeline).exchanges(),
                old(pipeline).exchanges().len() as int,
                1,
                filled(template_of(old(pipeline).prompt_files(), 1), "transcript"@, transcript@),
                m@,
            )
            ||| exists|c: Seq<char>| {
                &&& final(pipeline).exchanges().len() == old(pipeline).exchanges().len() + 1 + (if loads(
                    old(pipeline).prompt_files(),
                    2,
                ) {
                    1int
                } else {
                    0
                })
                &&& asked(
                    final(pipeline).exchanges(),
                    old(pipeline).exchanges().len() as int,
                    filled(template_of(old(pipeline).prompt_files(), 1), "transcript"@, transcript@),
                    Ok(c),
                )
                &&& stage_failure(
                    old(pipeline).prompt_files(),
                    final(pipeline).exchanges(),
                    old(pipeline).exchanges().len() as int,
                    2,
                    filled(template_of(old(pipeline).prompt_files(), 2), "transcript"@, c),
                    m@,
                )
            }
            ||| exists|c: Seq<char>, o: Seq<char>| {
                &&& final(pipeline).exchanges().len() == old(pipeline).exchanges().len() + 2 + (if loads(
                    old(pipeline).prompt_files(),
                    4,
                ) {
                    1int
                } else {
                    0
                })
                &&& asked(
                    final(pipeline).exchanges(),
                    old(pipeline).exchanges().len() as int,
                    filled(template_of(old(pipeline).prompt_files(), 1), "transcript"@, transcript@),
                    Ok(c),
                )
                &&& asked(
                    final(pipeline).exchanges(),
                    old(pipeline).exchanges().len() as int,
                    filled(template_of(old(pipeline).prompt_files(), 2), "transcript"@, c),
                    Ok(o),
                )
                &&& stage_failure(
                    old(pipeline).prompt_files(),
                    final(pipeline).exchanges(),
                    old(pipeline).exchanges().len() as int,
                    4,
                    filled(template_of(old(pipeline).prompt_files(), 4), "meeting_text"@, o),
                    m@,
                )
            }
        },
{
    let ghost files = pipeline.prompt_files();
    let ghost log0 = pipeline.exchanges();
    let ghost at = log0.len() as int;
    assert(log0.take(at) =~= log0);
    if transcript.is_empty() {
        return Err("No transcript available to regenerate summary".to_owned());
    }
    let ghost p1 = filled(template_of(files, 1), "transcript"@, transcript@);
    let clean = match pipeline.stage1_clean(transcript) {
        Ok(c) => c,
        Err(e) => {
            proof {
                let fin = pipeline.exchanges();
                assert(fin.take(at) =~= log0);
                if loads(files, 1) {
                    assert(fin[at] == (p1, Err::<Seq<char>, AppError>(e)));
                }
            }
            return Err(e.to_string());
        },
    };
    let ghost log1 = pipeline.exchanges();
    assert(log1[at] == (p1, Ok::<Seq<char>, AppError>(clean@)));
    assert(log1.take(at) =~= log0);
    let ghost p2 = filled(template_of(files, 2), "transcript"@, clean@);
    let organized = match pipeline.stage2_speaker(clean.as_str()) {
        Ok(o) => o,
        Err(e) => {
            proof {
                let fin = pipeline.exchanges();
                assert(fin.take(at) =~= log0);
                assert(fin[at] == log1[at]);
                if loads(files, 2) {
                    assert(fin[at + 1] == (p2, Err::<Seq<char>, AppError>(e)));
                }
                assert(asked(fin, at, p1, Ok(clean@)));
            }
            return Err(e.to_string());
        },
    };
    let ghost log2 = pipeline.exchanges();
    assert(log2[at] == log1[at]);
    assert(log2[at + 1] == (p2, Ok::<Seq<char>, AppError>(organized@)));
    assert(log2.take(at) =~= log0);
    let ghost p4 = filled(template_of(files, 4), "meeting_text"@, organized@);
    match pipeline.stage4_summary(organized.as_str()) {
        Ok(x) => {
            proof {
                let fin = pipeline.exchanges();
                assert(fin.take(at) =~= log0);
                assert(fin[at] == log1[at]);
                assert(fin[at + 1] == log2[at + 1]);
                assert(fin[at + 2] == (p4, Ok::<Seq<char>, AppError>(x@)));
                assert(asked(fin, at, p1, Ok(clean@)));
                assert(asked(fin, at, p2, Ok(organized@)));
                assert(asked(fin, at, p4, Ok(x@)));
            }
            Ok(x)
        },
        Err(e) => {
            proof {
                let fin = pipeline.exchanges();
                assert(fin.take(at) =~= log0);
                assert(fin[at] == log1[at]);
                assert(fin[at + 1] == log2[at + 1]);
                if loads(files, 4) {
                    assert(fin[at + 2] == (p4, Err::<Seq<char>, AppError>(e)));
                }
                assert(asked(fin, at, p1, Ok(clean@)));
                assert(asked(fin, at, p2, Ok(organized@)));
            }
            Err(e.to_string())
        },
    }
}

// ───────────────────────── the summary, as events ─────────────────────────

/// What a summary regeneration reports, in order: each stage as it starts,
/// the summary text, the final summary, or the error that stopped it.
#[derive(Debug)]
pub enum SummaryEvent {
    Stage { stage: u8, name: String },
    Chunk { text: String },
    Done { summary: String },
    Error { message: String },
}

/// The label of a stage of the summary regeneration.
pub open spec fn stage_label(stage: u8) -> Seq<char> {
    if stage == 1 {
        "正在清洗文本..."@
    } else if stage == 2 {
        "正在整理说话人..."@
    } else {
        "正在生成摘要..."@
    }
}

/// `e` announces stage `stage`.
pub open spec fn announces(e: SummaryEvent, stage: u8) -> bool {
    e matches SummaryEvent::Stage { stage: s, name } && s == stage && name@ == stage_label(stage)
}

/// `ev` reports that stage `k`, about to ask `prompt` at position `i` of
/// the record, failed (see `stage_failed`), with the error's text.
pub open spec fn reports_failure(
    ev: SummaryEvent,
    files: Seq<crate::llm::pipeline::PromptFile>,
    log: Seq<(Seq<char>, Result<Seq<char>, AppError>)>,
    i: int,
    k: nat,
    prompt: Seq<char>,
) -> bool {
    exists|e: AppError|
        #[trigger] stage_failed(files, log, i, k, prompt, e) && (ev matches SummaryEvent::Error {
            message,
        } && message@ == error_text(e))
}

/// The events of a summary regeneration over `t` whose exchanges start at
/// position `at` of the record: stages 1, 2 and 4 are announced as they
/// start; the first to fail ends the events with its error, and nothing is
/// asked after it; else the summary comes as one chunk and then as done.
pub open spec fn summary_events(
    files: Seq<crate::llm::pipeline::PromptFile>,
    t: Seq<char>,
    log: Seq<(Seq<char>, Result<Seq<char>, AppError>)>,
    at: int,
    ev: Seq<SummaryEvent>,
) -> bool {
    let p1 = filled(template_of(files, 1), "transcript"@, t);
    let p2 = filled(template_of(files, 2), "transcript"@, log[at].1->Ok_0);
    let p4 = filled(template_of(files, 4), "meeting_text"@, log[at + 1].1->Ok_0);
    ||| ev.len() == 2 && announces(ev[0], 1) && reports_failure(ev[1], files, log, at, 1, p1)
    ||| ev.len() == 3 && announces(ev[0], 1) && announces(ev[1], 2) && stage_answered(
        files,
        log,
        at,
        1,
        p1,
    ) && reports_failure(ev[2], files, log, at + 1, 2, p2)
    ||| ev.len() == 4 && announces(ev[0], 1) && announces(ev[1], 2) && announces(ev[2], 4)
        && stage_answered(files, log, at, 1, p1) && stage_answered(files, log, at + 1, 2, p2)
        && reports_failure(ev[3], files, log, at + 2, 4, p4)
    ||| ev.len() == 5 && announces(ev[0], 1) && announces(ev[1], 2) && announces(ev[2], 4)
        && stage_answered(files, log, at, 1, p1) && stage_answered(files, log, at + 1, 2, p2)
        && stage_answered(files, log, at + 2, 4, p4) && log.len() == at + 3 && (ev[3] matches SummaryEvent::Chunk {
        text,
    } && text@ == log[at + 2].1->Ok_0) && (ev[4] matches SummaryEvent::Done { summary } && summary@
        == log[at + 2].1->Ok_0)
}

/// Regenerates the summary of transcript `transcript` through stages 1, 2
/// and 4, and gives the events to report: an empty transcript gives one
/// error event without asking the model (see `summary_events` otherwise).
#[verifier::rlimit(60)]
pub fn summary_stream_events<C: LlmClient, O: StageObserver>(
    pipeline: &mut Pipeline<C, O>,
    transcript: &str,
) -> (events: Vec<SummaryEvent>)
    ensures
        final(pipeline).prompt_files() == old(pipeline).prompt_files(),
        final(pipeline).observer() == old(pipeline).observer(),
        final(pipeline).exchanges().len() >= old(pipeline).exchanges().len(),
        final(pipeline).exchanges().take(old(pipeline).exchanges().len() as int) == old(
            pipeline,
        ).exchanges(),
        transcript@.len() == 0 ==> events@.len() == 1 && (events@[0] matches SummaryEvent::Error {
            message,
        } && message@ == "No transcript available"@) && final(pipeline).exchanges() == old(
            pipeline,
        ).exchanges(),
        transcript@.len() > 0 ==> summary_events(
            old(pipeline).prompt_files(),
            transcript@,
            final(pipeline).exchanges(),
            old(pipeline).exchanges().len() as int,
            events@,
        ),
{
    let ghost files = pipeline.prompt_files();
    let ghost log0 = pipeline.exchanges();
    let ghost at = log0.len() as int;
    assert(log0.take(at) =~= log0);
    let mut events: Vec<SummaryEvent> = Vec::new();
    if transcript.is_empty() {
        events.push(SummaryEvent::Error { message: "No transcript available".to_owned() });
        return events;
    }
    let ghost p1 = filled(template_of(files, 1), "transcript"@, transcript@);
    events.push(SummaryEvent::Stage { stage: 1, name: "正在清洗文本...".to_owned() });
    let clean = match pipeline.stage1_clean(transcript) {
        Ok(c) => c,
        Err(e) => {
            events.push(SummaryEvent::Error { message: e.to_string() });
            proof {
                let fin = pipeline.exchanges();
                assert(fin.take(at) =~= log0);
                assert(stage_failed(files, fin, at, 1, p1, e));
                assert(summary_events(files, transcript@, fin, at, events@));
            }
            return events;
        },
    };
    let ghost log1 = pipeline.exchanges();
    assert(log1[at] == (p1, Ok::<Seq<char>, AppError>(clean@)));
    assert(log1.take(at) =~= log0);
    let ghost p2 = filled(template_of(files, 2), "transcript"@, clean@);
    events.push(SummaryEvent::Stage { stage: 2, name: "正在整理说话人...".to_owned() });
    let organized = match pipeline.stage2_speaker(clean.as_str()) {
        Ok(o) => o,
        Err(e) => {
            events.push(SummaryEvent::Error { message: e.to_string() });
            proof {
                let fin = pipeline.exchanges();
                assert(fin.take(at) =~= log0);
                assert(fin[at] == log1[at]);
                assert(stage_failed(files, fin, at + 1, 2, p2, e));
                assert(summary_events(files, transcript@, fin, at, events@));
            }
            return events;
        },
    };
    let ghost log2 = pipeline.exchanges();
    assert(log2[at] == log1[at]);
    assert(log2[at + 1] == (p2, Ok::<Seq<char>, AppError>(organized@)));
    assert(log2.take(at) =~= log0);
    let ghost p4 = filled(template_of(files, 4), "meeting_text"@, organized@);
    events.push(SummaryEvent::Stage { stage: 4, name: "正在生成摘要...".to_owned() });
    match pipeline.stage4_summary(organized.as_str()) {
        Ok(x) => {
            let done = copy_string(&x);
            events.push(SummaryEvent::Chunk { text: x });
            events.push(SummaryEvent::Done { summary: done });
            proof {
                let fin = pipeline.exchanges();
                assert(fin.take(at) =~= log0);
                assert(fin[at] == log1[at]);
                assert(fin[at + 1] == log2[at + 1]);
                assert(summary_events(files, transcript@, fin, at, events@));
            }
        },
        Err(e) => {
            events.push(SummaryEvent::Error { message: e.to_string() });
            proof {
                let fin = pipeline.exchanges();
                assert(fin.take(at) =~= log0);
                assert(fin[at] == log1[at]);
                assert(fin[at + 1] == log2[at + 1]);
                assert(stage_failed(files, fin, at + 2, 4, p4, e));
                assert(summary_events(files, transcript@, fin, at, events@));
            }
        },
    }
    events
}

/// What a pipeline command returns for a finished retry: the cleaned text
/// and the summary it worked with, the report and the title; a failed retry
/// gives its failing stage and error text.
pub fn retry_result(stored: &StoredRun, out: &RetryOutcome) -> (r: Result<
    crate::commands::checks::PipelineResult,
    (u8, String),
>)
    ensures
        out.failed matches Some((k, m)) ==> (r matches Err((k2, m2)) && k2 == k && m2@ == m@),
        out.failed is None ==> (r matches Ok(res) && {
            &&& res.clean_transcript@ == clean_used(*out, *stored)
            &&& res.summary@ == summary_used(*out, *stored)
            &&& res.report@ == match out.report {
                Some(p) => p@,
                None => Seq::empty(),
            }
            &&& opt_view(res.generated_title) == opt_view(out.title)
        }),
{
    if let Some((k, m)) = &out.failed {
        return Err((*k, copy_string(m)));
    }
    let clean = match &out.clean {
        Some(c) => copy_string(c),
        None => match &stored.clean {
            Some(c) => copy_string(c),
            None => String::new(),
        },
    };
    let summary = match &out.summary {
        Some(x) => copy_string(x),
        None => copy_string(&stored.summary),
    };
    let report = match &out.report {
        Some(p) => copy_string(p),
        None => String::new(),
    };
    Ok(crate::commands::checks::PipelineResult {
        clean_transcript: clean,
        summary,
        report,
        generated_title: copy_opt_string(&out.title),
    })
}


} // verus!
