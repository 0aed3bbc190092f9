//! The seven-stage meeting pipeline: clean the transcript, organise
//! speakers, extract structure, summarise, extract action items, write the
//! report, and optionally title the meeting.
use vstd::prelude::*;
use vstd::string::StringSliceAdditionalSpecFns;
use vstd::utf8::encode_utf8;
use crate::error::AppError;
use crate::llm::client::{LlmClient, reply_view};
use crate::llm::template::{extract_json, extract_json_spec, fill_template, filled};
use crate::text::{
    chars_of, copy_opt_string, copy_string, copy_strings, decimal, opt_view,
    slice_chars, string_of, trim, trim_str, u64_to_decimal, views,
};

verus! {

// ───────────────────────── data ─────────────────────────

/// What stage 3 extracts from a meeting.
#[derive(Debug)]
pub struct StructuredMeeting {
    pub topic: Option<String>,
    pub participants: Vec<String>,
    pub key_points: Vec<String>,
    pub decisions: Vec<String>,
    pub risks: Vec<String>,
}

/// An action item as stage 5 extracts it.
#[derive(Debug)]
pub struct ActionItemRaw {
    pub task: String,
    pub owner: Option<String>,
    pub deadline: Option<String>,
}

/// Everything the pipeline produces.
#[derive(Debug)]
pub struct PipelineOutput {
    pub clean_transcript: String,
    pub structure: StructuredMeeting,
    pub summary: String,
    pub action_items: Vec<ActionItemRaw>,
    pub report: String,
    pub generated_title: Option<String>,
}

/// The structure with no topic and no entries.
pub open spec fn is_empty_structure(s: StructuredMeeting) -> bool {
    &&& s.topic is None
    &&& s.participants@.len() == 0
    &&& s.key_points@.len() == 0
    &&& s.decisions@.len() == 0
    &&& s.risks@.len() == 0
}

impl StructuredMeeting {
    /// The structure with no topic and no entries.
    pub fn empty() -> (r: StructuredMeeting)
        ensures
            is_empty_structure(r),
    {
        StructuredMeeting {
            topic: None,
            participants: Vec::new(),
            key_points: Vec::new(),
            decisions: Vec::new(),
            risks: Vec::new(),
        }
    }

    /// A copy of the structure.
    pub fn duplicate(&self) -> (r: StructuredMeeting)
        ensures
            opt_view(r.topic) == opt_view(self.topic),
            views(r.participants@) == views(self.participants@),
            views(r.key_points@) == views(self.key_points@),
            views(r.decisions@) == views(self.decisions@),
            views(r.risks@) == views(self.risks@),
    {
        StructuredMeeting {
            topic: copy_opt_string(&self.topic),
            participants: copy_strings(&self.participants),
            key_points: copy_strings(&self.key_points),
            decisions: copy_strings(&self.decisions),
            risks: copy_strings(&self.risks),
        }
    }
}

impl Default for StructuredMeeting {
    fn default() -> (r: StructuredMeeting)
        ensures
            is_empty_structure(r),
    {
        StructuredMeeting::empty()
    }
}

/// One prompt template file: its name and its text, or why it could not be
/// read.
#[derive(Debug)]
pub struct PromptFile {
    pub name: String,
    pub text: Result<String, String>,
}

/// The prompt templates available to the pipeline.
#[derive(Debug)]
pub struct PromptSet {
    pub files: Vec<PromptFile>,
}

/// The text of a prompt file, or the reason it is missing.
pub open spec fn file_view(f: PromptFile) -> Result<Seq<char>, Seq<char>> {
    match f.text {
        Ok(t) => Ok(t@),
        Err(e) => Err(e@),
    }
}

/// The first file at or after `i` named `name`.
pub open spec fn lookup_from(files: Seq<PromptFile>, name: Seq<char>, i: nat) -> Option<
    Result<Seq<char>, Seq<char>>,
>
    decreases files.len() - i,
{
    if i >= files.len() {
        None
    } else if files[i as int].name@ == name {
        Some(file_view(files[i as int]))
    } else {
        lookup_from(files, name, i + 1)
    }
}

/// What loading the template `name` gives: its text, or the error message.
pub open spec fn prompt_outcome(files: Seq<PromptFile>, name: Seq<char>) -> Result<
    Seq<char>,
    Seq<char>,
> {
    match lookup_from(files, name, 0) {
        Some(Ok(t)) => Ok(t),
        Some(Err(e)) => Err("Failed to load prompt "@ + name + ": "@ + e),
        None => Err("Failed to load prompt "@ + name + ": "@ + "not found"@),
    }
}

/// `r` is the error `AppError::Other(msg)`.
pub open spec fn is_other_error(r: Result<String, AppError>, msg: Seq<char>) -> bool {
    r matches Err(AppError::Other(m)) && m@ == msg
}

// ───────────────────────── observers and codecs ─────────────────────────

/// Receives a notice each time a pipeline stage finishes:
/// (stage number, stage name, a short summary of its result).
/// An observer may keep the notices it was given; one that does promises
/// that each call joins them.
pub trait StageObserver {
    /// Whether the observer keeps `notices` (one that does not promises
    /// nothing of them).
    open spec fn keeps_notices(&self) -> bool {
        false
    }

    /// Every notice the observer was given, in order.
    open spec fn notices(&self) -> Seq<Notice> {
        Seq::empty()
    }

    /// Called when stage `stage` named `name` has finished.
    fn stage_done(&mut self, stage: u8, name: &str, summary: &str)
        ensures
            final(self).keeps_notices() == old(self).keeps_notices(),
            old(self).keeps_notices() ==> final(self).notices() == old(self).notices().push(
                (stage, name@, summary@),
            ),
    ;
}

/// An observer that ignores notices.
pub struct NoObserver;

impl StageObserver for NoObserver {
    fn stage_done(&mut self, stage: u8, name: &str, summary: &str) {
    }
}

/// A stage notice as recorded by `StageLog`.
#[derive(Debug)]
pub struct StageNotice {
    pub stage: u8,
    pub name: String,
    pub summary: String,
}

/// An observer that keeps every notice.
#[derive(Debug)]
pub struct StageLog {
    pub entries: Vec<StageNotice>,
}

/// The notices a log holds, by their plain values.
pub open spec fn log_notices(l: StageLog) -> Seq<(u8, Seq<char>, Seq<char>)> {
    l.entries@.map_values(|n: StageNotice| (n.stage, n.name@, n.summary@))
}

impl StageLog {
    /// An empty log.
    pub fn new() -> (r: StageLog)
        ensures
            log_notices(r).len() == 0,
    {
        StageLog { entries: Vec::new() }
    }
}

impl StageObserver for StageLog {
    open spec fn keeps_notices(&self) -> bool {
        true
    }

    open spec fn notices(&self) -> Seq<Notice> {
        log_notices(*self)
    }

    fn stage_done(&mut self, stage: u8, name: &str, summary: &str)
        ensures
            log_notices(*final(self)) == log_notices(*old(self)).push((stage, name@, summary@)),
    {
        let n = StageNotice { stage, name: name.to_owned(), summary: summary.to_owned() };
        self.entries.push(n);
        assert(log_notices(*self) =~= log_notices(*old(self)).push((stage, name@, summary@)));
    }
}

/// Turns model output into values and values into JSON (the serialisation
/// format itself is the codec's business).
pub trait MeetingCodec {
    /// Reads a `StructuredMeeting` from JSON.
    fn parse_structure(&self, json: &str) -> Result<StructuredMeeting, AppError>;

    /// Reads a list of action items from JSON.
    fn parse_action_items(&self, json: &str) -> Result<Vec<ActionItemRaw>, AppError>;

    /// Writes a list of action items as JSON.
    fn action_items_json(&self, items: &Vec<ActionItemRaw>) -> Result<String, AppError>;
}

// ───────────────────────── stage notices ─────────────────────────

/// The first `n` characters of `s` (all of it when shorter).
pub open spec fn preview(s: Seq<char>, n: nat) -> Seq<char> {
    if s.len() <= n {
        s
    } else {
        s.take(n as int)
    }
}

/// The notice of stage 1: the cleaned text's size in UTF-8 bytes.
pub open spec fn clean_notice(clean: Seq<char>) -> Seq<char> {
    "完成（共 "@ + decimal(encode_utf8(clean).len()) + " 字）"@
}

/// The notice of stage 3: topic (or "未知"), number of participants and of
/// decisions.
pub open spec fn structure_notice(s: StructuredMeeting) -> Seq<char> {
    "主题："@ + (match s.topic {
        Some(t) => t@,
        None => "未知"@,
    }) + " · 参会 "@ + decimal(s.participants@.len()) + " 人 · "@ + decimal(
        s.decisions@.len(),
    ) + " 项决策"@
}

/// The notice of stage 5: the number of action items.
pub open spec fn actions_notice(n: nat) -> Seq<char> {
    "共 "@ + decimal(n) + " 项行动"@
}

/// The first `n` characters of `s` (as `s.chars().take(n).collect()`).
pub fn preview_of(s: &str, n: usize) -> (r: String)
    ensures
        r@ == preview(s@, n as nat),
{
    let v = chars_of(s);
    if v.len() <= n {
        string_of(&v)
    } else {
        let p = slice_chars(&v, 0, n);
        assert(p@ =~= v@.take(n as int));
        string_of(&p)
    }
}

/// "完成（共 N 字）" where N is the byte length of `clean`.
pub fn clean_notice_of(clean: &str) -> (r: String)
    ensures
        r@ == clean_notice(clean@),
{
    let n = clean.as_bytes().len();
    let mut s = "完成（共 ".to_owned();
    let d = u64_to_decimal(n as u64);
    s.append(d.as_str());
    s.append(" 字）");
    s
}

/// "主题：T · 参会 P 人 · D 项决策".
pub fn structure_notice_of(st: &StructuredMeeting) -> (r: String)
    ensures
        r@ == structure_notice(*st),
{
    let mut s = "主题：".to_owned();
    match &st.topic {
        Some(t) => s.append(t.as_str()),
        None => s.append("未知"),
    }
    s.append(" · 参会 ");
    let p = u64_to_decimal(st.participants.len() as u64);
    s.append(p.as_str());
    s.append(" 人 · ");
    let d = u64_to_decimal(st.decisions.len() as u64);
    s.append(d.as_str());
    s.append(" 项决策");
    s
}

/// "共 N 项行动".
pub fn actions_notice_of(n: usize) -> (r: String)
    ensures
        r@ == actions_notice(n as nat),
{
    let mut s = "共 ".to_owned();
    let d = u64_to_decimal(n as u64);
    s.append(d.as_str());
    s.append(" 项行动");
    s
}

// ───────────────────────── the pipeline ─────────────────────────

/// The template files of the stages.
pub open spec fn stage_file(stage: nat) -> Seq<char> {
    if stage == 1 {
        "01_clean.txt"@
    } else if stage == 2 {
        "02_speaker.txt"@
    } else if stage == 3 {
        "03_structure.txt"@
    } else if stage == 4 {
        "04_summary.txt"@
    } else if stage == 5 {
        "05_actions.txt"@
    } else if stage == 6 {
        "06_report.txt"@
    } else {
        "07_title.txt"@
    }
}

/// The prompt of stage 6: the report template with the summary and then the
/// action items filled in.
pub open spec fn report_prompt(t: Seq<char>, summary: Seq<char>, actions: Seq<char>) -> Seq<
    char,
> {
    filled(filled(t, "summary"@, summary), "actions"@, actions)
}

/// Runs the LLM stages over a transcript with one client and one set of
/// prompt templates, reporting finished stages to an observer.
pub struct Pipeline<C: LlmClient, O: StageObserver> {
    client: C,
    prompts: PromptSet,
    on_stage_done: Option<O>,
    /// The exchanges, kept here for a client that keeps no history.
    sent: Ghost<Seq<(Seq<char>, Result<Seq<char>, AppError>)>>,
    /// The notices, kept here for an observer that keeps none.
    noticed: Ghost<Seq<(u8, Seq<char>, Seq<char>)>>,
    /// What the codec was given and gave back (see `CodecLog`).
    decoded: Ghost<CodecLog>,
}

/// What a codec was given and gave back, in order: the JSON texts read as
/// a structure, the JSON texts read as action items, and the item lists
/// written as JSON.
pub type CodecLog = (
    Seq<(Seq<char>, Result<StructuredMeeting, AppError>)>,
    Seq<(Seq<char>, Result<Vec<ActionItemRaw>, AppError>)>,
    Seq<(Seq<ActionItemRaw>, Result<Seq<char>, AppError>)>,
);

/// The codec read one more structure, from `json`, and `r` is what it gave
/// (the empty structure when it failed).
pub open spec fn read_structure(before: CodecLog, after: CodecLog, json: Seq<char>, r: StructuredMeeting) -> bool {
    &&& after.1 == before.1 && after.2 == before.2
    &&& after.0.len() == before.0.len() + 1
    &&& after.0.drop_last() == before.0
    &&& after.0.last().0 == json
    &&& match after.0.last().1 {
        Ok(v) => r == v,
        Err(_) => is_empty_structure(r),
    }
}

/// The codec read one more item list, from `json`, and `r` is what it gave
/// (no items when it failed).
pub open spec fn read_items(before: CodecLog, after: CodecLog, json: Seq<char>, r: Vec<ActionItemRaw>) -> bool {
    &&& after.0 == before.0 && after.2 == before.2
    &&& after.1.len() == before.1.len() + 1
    &&& after.1.drop_last() == before.1
    &&& after.1.last().0 == json
    &&& match after.1.last().1 {
        Ok(v) => r == v,
        Err(_) => r@.len() == 0,
    }
}

/// The codec wrote one more item list, `items`, and `r` is what it gave.
pub open spec fn wrote_items(before: CodecLog, after: CodecLog, items: Seq<ActionItemRaw>, r: Result<String, AppError>) -> bool {
    &&& after.0 == before.0 && after.1 == before.1
    &&& after.2 == before.2.push((items, reply_view(r)))
}

impl<C: LlmClient> Pipeline<C, NoObserver> {
    /// A pipeline without a stage observer.
    pub fn new(client: C, prompts: PromptSet) -> (r: Self)
        ensures
            r.exchanges() == if client.keeps_history() {
                client.history()
            } else {
                Seq::empty()
            },
            r.prompt_files() == prompts.files@,
            r.observer() is None,
            r.client() == client,
            r.callback() is None,
            r.codec_log() == (Seq::<(Seq<char>, Result<StructuredMeeting, AppError>)>::empty(), Seq::<(Seq<char>, Result<Vec<ActionItemRaw>, AppError>)>::empty(), Seq::<(Seq<ActionItemRaw>, Result<Seq<char>, AppError>)>::empty()),
    {
        Pipeline {
            client,
            prompts,
            on_stage_done: None,
            sent: Ghost(Seq::empty()),
            noticed: Ghost(Seq::empty()),
            decoded: Ghost((Seq::empty(), Seq::empty(), Seq::empty())),
        }
    }
}

impl<C: LlmClient, O: StageObserver> Pipeline<C, O> {
    /// The exchanges with the client so far, each prompt sent, in order,
    /// with what came back: the client's own history when it keeps one.
    pub closed spec fn exchanges(&self) -> Seq<(Seq<char>, Result<Seq<char>, AppError>)> {
        if self.client.keeps_history() {
            self.client.history()
        } else {
            self.sent@
        }
    }

    /// The prompt template files.
    pub closed spec fn prompt_files(&self) -> Seq<PromptFile> {
        self.prompts.files@
    }

    /// What the codec was given and gave back so far.
    pub closed spec fn codec_log(&self) -> CodecLog {
        self.decoded@
    }

    /// The client the pipeline talks to.
    pub closed spec fn client(&self) -> C {
        self.client
    }

    /// The observer the pipeline reports to, if there is one.
    pub closed spec fn callback(&self) -> Option<O> {
        self.on_stage_done
    }

    /// The notices the observer has been given, if there is one: its own
    /// when it keeps them.
    pub closed spec fn observer(&self) -> Option<Seq<(u8, Seq<char>, Seq<char>)>> {
        match self.on_stage_done {
            Some(o) => Some(
                if o.keeps_notices() {
                    o.notices()
                } else {
                    self.noticed@
                },
            ),
            None => None,
        }
    }

    /// The same pipeline, reporting finished stages to `cb`.
    pub fn with_callback<O2: StageObserver>(self, cb: O2) -> (r: Pipeline<C, O2>)
        ensures
            r.exchanges() == self.exchanges(),
            r.prompt_files() == self.prompt_files(),
            r.observer() == Some(
                if cb.keeps_notices() {
                    cb.notices()
                } else {
                    Seq::empty()
                },
            ),
            r.client() == self.client(),
            r.callback() == Some(cb),
            r.codec_log() == self.codec_log(),
    {
        Pipeline {
            client: self.client,
            prompts: self.prompts,
            on_stage_done: Some(cb),
            sent: self.sent,
            noticed: Ghost(Seq::empty()),
            decoded: self.decoded,
        }
    }

    /// Gives the client back.
    pub fn into_client(self) -> (r: C)
        ensures
            r == self.client(),
            r.keeps_history() ==> r.history() == self.exchanges(),
    {
        self.client
    }

    /// Gives the observer back, if there is one.
    pub fn into_observer(self) -> (r: Option<O>)
        ensures
            r == self.callback(),
            match r {
                Some(o) => o.keeps_notices() ==> self.observer() == Some(o.notices()),
                None => self.observer() is None,
            },
    {
        self.on_stage_done
    }

    /// Sends a prompt to the client and records the exchange.
    fn send(&mut self, prompt: &str) -> (r: Result<String, AppError>)
        ensures
            final(self).prompt_files() == old(self).prompt_files(),
            final(self).observer() == old(self).observer(),
            final(self).codec_log() == old(self).codec_log(),
            final(self).exchanges() == old(self).exchanges().push((prompt@, reply_view(r))),
    {
        let r = self.client.complete(prompt);
        self.sent = Ghost(self.sent@.push((prompt@, reply_view(r))));
        r
    }

    /// Reads a structure from `json` with the codec and records the outcome.
    fn decode_structure<J: MeetingCodec>(&mut self, codec: &J, json: &str) -> (r: StructuredMeeting)
        ensures
            final(self).prompt_files() == old(self).prompt_files(),
            final(self).observer() == old(self).observer(),
            final(self).exchanges() == old(self).exchanges(),
            read_structure(old(self).codec_log(), final(self).codec_log(), json@, r),
    {
        let parsed = codec.parse_structure(json);
        let ghost entry = (json@, parsed);
        self.decoded = Ghost((self.decoded@.0.push(entry), self.decoded@.1, self.decoded@.2));
        assert(self.decoded@.0.drop_last() =~= old(self).decoded@.0);
        match parsed {
            Ok(s) => {
                assert(entry.1 == Ok::<StructuredMeeting, AppError>(s));
                s
            },
            Err(_) => StructuredMeeting::empty(),
        }
    }

    /// Reads action items from `json` with the codec and records the outcome.
    fn decode_items<J: MeetingCodec>(&mut self, codec: &J, json: &str) -> (r: Vec<ActionItemRaw>)
        ensures
            final(self).prompt_files() == old(self).prompt_files(),
            final(self).observer() == old(self).observer(),
            final(self).exchanges() == old(self).exchanges(),
            read_items(old(self).codec_log(), final(self).codec_log(), json@, r),
    {
        let parsed = codec.parse_action_items(json);
        let ghost entry = (json@, parsed);
        self.decoded = Ghost((self.decoded@.0, self.decoded@.1.push(entry), self.decoded@.2));
        assert(self.decoded@.1.drop_last() =~= old(self).decoded@.1);
        match parsed {
            Ok(items) => {
                assert(entry.1 == Ok::<Vec<ActionItemRaw>, AppError>(items));
                items
            },
            Err(_) => Vec::new(),
        }
    }

    /// Writes action items as JSON with the codec and records the outcome.
    pub fn encode_items<J: MeetingCodec>(&mut self, codec: &J, items: &Vec<ActionItemRaw>) -> (r: Result<String, AppError>)
        ensures
            final(self).prompt_files() == old(self).prompt_files(),
            final(self).observer() == old(self).observer(),
            final(self).exchanges() == old(self).exchanges(),
            wrote_items(old(self).codec_log(), final(self).codec_log(), items@, r),
    {
        let r = codec.action_items_json(items);
        self.decoded = Ghost((self.decoded@.0, self.decoded@.1, self.decoded@.2.push((items@, reply_view(r)))));
        r
    }

    /// Reports a finished stage to the observer, if there is one.
    pub(crate) fn notify_stage(&mut self, stage: u8, name: &str, summary: &str)
        ensures
            final(self).exchanges() == old(self).exchanges(),
            final(self).prompt_files() == old(self).prompt_files(),
            final(self).codec_log() == old(self).codec_log(),
            final(self).observer() == match old(self).observer() {
                Some(n) => Some(n.push((stage, name@, summary@))),
                None => None,
            },
    {
        match self.on_stage_done.take() {
            Some(mut cb) => {
                cb.stage_done(stage, name, summary);
                self.on_stage_done = Some(cb);
            },
            None => {},
        }
        self.noticed = Ghost(self.noticed@.push((stage, name@, summary@)));
    }

    /// The text of the template `filename`.
    pub fn load_prompt(&self, filename: &str) -> (r: Result<String, AppError>)
        ensures
            match prompt_outcome(self.prompt_files(), filename@) {
                Ok(t) => r matches Ok(s) && s@ == t,
                Err(msg) => is_other_error(r, msg),
            },
    {
        let files = &self.prompts.files;
        let wanted = filename.to_owned();
        let mut i: usize = 0;
        while i < files.len()
            invariant
                i <= files@.len(),
                files@ == self.prompt_files(),
                wanted@ == filename@,
                lookup_from(files@, filename@, 0) == lookup_from(files@, filename@, i as nat),
            decreases files.len() - i,
        {
            let f = &files[i];
            if f.name == wanted {
                return match &f.text {
                    Ok(t) => Ok(copy_string(t)),
                    Err(e) => {
                        let mut m = "Failed to load prompt ".to_owned();
                        m.append(filename);
                        m.append(": ");
                        m.append(e.as_str());
                        Err(AppError::Other(m))
                    },
                };
            }
            i = i + 1;
        }
        let mut m = "Failed to load prompt ".to_owned();
        m.append(filename);
        m.append(": ");
        m.append("not found");
        Err(AppError::Other(m))
    }

    /// Loads `file`, fills its `{{var}}` with `value` and sends the prompt to
    /// the client.
    fn ask(&mut self, file: &str, var: &str, value: &str) -> (r: Result<String, AppError>)
        ensures
            final(self).prompt_files() == old(self).prompt_files(),
            final(self).observer() == old(self).observer(),
            final(self).codec_log() == old(self).codec_log(),
            match prompt_outcome(old(self).prompt_files(), file@) {
                Err(msg) => is_other_error(r, msg) && final(self).exchanges() == old(
                    self,
                ).exchanges(),
                Ok(t) => final(self).exchanges() == old(self).exchanges().push(
                    (filled(t, var@, value@), reply_view(r)),
                ),
            },
    {
        match self.load_prompt(file) {
            Err(e) => Err(e),
            Ok(template) => {
                let prompt = fill_template(template.as_str(), var, value);
                self.send(prompt.as_str())
            },
        }
    }

    /// Stage 1: clean the raw ASR transcript.
    pub fn stage1_clean(&mut self, raw_transcript: &str) -> (r: Result<String, AppError>)
        ensures
            final(self).prompt_files() == old(self).prompt_files(),
            final(self).observer() == old(self).observer(),
            final(self).codec_log() == old(self).codec_log(),
            match prompt_outcome(old(self).prompt_files(), stage_file(1)) {
                Err(msg) => is_other_error(r, msg) && final(self).exchanges() == old(
                    self,
                ).exchanges(),
                Ok(t) => final(self).exchanges() == old(self).exchanges().push(
                    (filled(t, "transcript"@, raw_transcript@), reply_view(r)),
                ),
            },
    {
        self.ask("01_clean.txt", "transcript", raw_transcript)
    }

    /// Stage 2: organise the transcript by speaker.
    pub fn stage2_speaker(&mut self, clean_transcript: &str) -> (r: Result<String, AppError>)
        ensures
            final(self).prompt_files() == old(self).prompt_files(),
            final(self).observer() == old(self).observer(),
            final(self).codec_log() == old(self).codec_log(),
            match prompt_outcome(old(self).prompt_files(), stage_file(2)) {
                Err(msg) => is_other_error(r, msg) && final(self).exchanges() == old(
                    self,
                ).exchanges(),
                Ok(t) => final(self).exchanges() == old(self).exchanges().push(
                    (filled(t, "transcript"@, clean_transcript@), reply_view(r)),
                ),
            },
    {
        self.ask("02_speaker.txt", "transcript", clean_transcript)
    }

    /// Stage 3: extract the structured information (JSON). Falls back to the
    /// empty structure when the template, the model or the JSON fails.
    pub fn stage3_structure<J: MeetingCodec>(&mut self, meeting_text: &str, codec: &J) -> (r:
        StructuredMeeting)
        ensures
            final(self).prompt_files() == old(self).prompt_files(),
            final(self).observer() == old(self).observer(),
            match prompt_outcome(old(self).prompt_files(), stage_file(3)) {
                Err(_) => is_empty_structure(r) && final(self).exchanges() == old(
                    self,
                ).exchanges() && final(self).codec_log() == old(self).codec_log(),
                Ok(t) => final(self).exchanges().len() == old(self).exchanges().len() + 1
                    && final(self).exchanges().drop_last() == old(self).exchanges()
                    && final(self).exchanges().last().0 == filled(
                    t,
                    "meeting_text"@,
                    meeting_text@,
                ) && match final(self).exchanges().last().1 {
                    Ok(x) => read_structure(
                        old(self).codec_log(),
                        final(self).codec_log(),
                        extract_json_spec(x),
                        r,
                    ),
                    Err(_) => is_empty_structure(r) && final(self).codec_log() == old(
                        self,
                    ).codec_log(),
                },
            },
    {
        let ghost before = self.exchanges();
        match self.ask("03_structure.txt", "meeting_text", meeting_text) {
            Ok(response) => {
                assert(self.exchanges().drop_last() =~= before);
                let json = extract_json(response.as_str());
                self.decode_structure(codec, json.as_str())
            },
            Err(_) => {
                proof {
                    if self.exchanges() != before {
                        assert(self.exchanges().drop_last() =~= before);
                    }
                }
                StructuredMeeting::empty()
            },
        }
    }

    /// Stage 4: summarise the meeting.
    pub fn stage4_summary(&mut self, meeting_text: &str) -> (r: Result<String, AppError>)
        ensures
            final(self).prompt_files() == old(self).prompt_files(),
            final(self).observer() == old(self).observer(),
            final(self).codec_log() == old(self).codec_log(),
            match prompt_outcome(old(self).prompt_files(), stage_file(4)) {
                Err(msg) => is_other_error(r, msg) && final(self).exchanges() == old(
                    self,
                ).exchanges(),
                Ok(t) => final(self).exchanges() == old(self).exchanges().push(
                    (filled(t, "meeting_text"@, meeting_text@), reply_view(r)),
                ),
            },
    {
        self.ask("04_summary.txt", "meeting_text", meeting_text)
    }

    /// Stage 5: extract the action items (JSON array). Falls back to no items
    /// when the template, the model or the JSON fails.
    pub fn stage5_actions<J: MeetingCodec>(&mut self, meeting_text: &str, codec: &J) -> (r: Vec<
        ActionItemRaw,
    >)
        ensures
            final(self).prompt_files() == old(self).prompt_files(),
            final(self).observer() == old(self).observer(),
            match prompt_outcome(old(self).prompt_files(), stage_file(5)) {
                Err(_) => r@.len() == 0 && final(self).exchanges() == old(self).exchanges()
                    && final(self).codec_log() == old(self).codec_log(),
                Ok(t) => final(self).exchanges().len() == old(self).exchanges().len() + 1
                    && final(self).exchanges().drop_last() == old(self).exchanges()
                    && final(self).exchanges().last().0 == filled(
                    t,
                    "meeting_text"@,
                    meeting_text@,
                ) && match final(self).exchanges().last().1 {
                    Ok(x) => read_items(
                        old(self).codec_log(),
                        final(self).codec_log(),
                        extract_json_spec(x),
                        r,
                    ),
                    Err(_) => r@.len() == 0 && final(self).codec_log() == old(self).codec_log(),
                },
            },
    {
        let ghost before = self.exchanges();
        match self.ask("05_actions.txt", "meeting_text", meeting_text) {
            Ok(response) => {
                assert(self.exchanges().drop_last() =~= before);
                let json = extract_json(response.as_str());
                self.decode_items(codec, json.as_str())
            },
            Err(_) => {
                proof {
                    if self.exchanges() != before {
                        assert(self.exchanges().drop_last() =~= before);
                    }
                }
                Vec::new()
            },
        }
    }

    /// Stage 6: write the final report from the summary and the action items
    /// (as JSON).
    pub fn stage6_report(&mut self, summary: &str, actions_json: &str) -> (r: Result<
        String,
        AppError,
    >)
        ensures
            final(self).prompt_files() == old(self).prompt_files(),
            final(self).observer() == old(self).observer(),
            final(self).codec_log() == old(self).codec_log(),
            match prompt_outcome(old(self).prompt_files(), stage_file(6)) {
                Err(msg) => is_other_error(r, msg) && final(self).exchanges() == old(
                    self,
                ).exchanges(),
                Ok(t) => final(self).exchanges() == old(self).exchanges().push(
                    (report_prompt(t, summary@, actions_json@), reply_view(r)),
                ),
            },
    {
        match self.load_prompt("06_report.txt") {
            Err(e) => Err(e),
            Ok(template) => {
                let with_summary = fill_template(template.as_str(), "summary", summary);
                let prompt = fill_template(with_summary.as_str(), "actions", actions_json);
                self.send(prompt.as_str())
            },
        }
    }

    /// Stage 7: generate a meeting title from the summary; the model's answer
    /// is trimmed.
    pub fn stage7_title(&mut self, summary: &str) -> (r: Result<String, AppError>)
        ensures
            final(self).prompt_files() == old(self).prompt_files(),
            final(self).observer() == old(self).observer(),
            final(self).codec_log() == old(self).codec_log(),
            match prompt_outcome(old(self).prompt_files(), stage_file(7)) {
                Err(msg) => is_other_error(r, msg) && final(self).exchanges() == old(
                    self,
                ).exchanges(),
                Ok(t) => final(self).exchanges().len() == old(self).exchanges().len() + 1
                    && final(self).exchanges().drop_last() == old(self).exchanges()
                    && final(self).exchanges().last().0 == filled(t, "summary"@, summary@)
                    && match final(self).exchanges().last().1 {
                    Ok(x) => r matches Ok(s) && s@ == trim(x),
                    Err(e) => r == Err::<String, AppError>(e),
                },
            },
    {
        let ghost before = self.exchanges();
        let reply = self.ask("07_title.txt", "summary", summary);
        proof {
            if self.exchanges() != before {
                assert(self.exchanges().drop_last() =~= before);
            }
        }
        match reply {
            Ok(title) => Ok(trim_str(title.as_str())),
            Err(e) => Err(e),
        }
    }
}


// ───────────────────────── the whole run ─────────────────────────

/// One exchange with the client: the prompt and what came back.
pub type Exchange = (Seq<char>, Result<Seq<char>, AppError>);

/// A notice to the observer: stage number, stage name, summary.
pub type Notice = (u8, Seq<char>, Seq<char>);

/// The template of `stage` loads.
pub open spec fn loads(files: Seq<PromptFile>, stage: nat) -> bool {
    prompt_outcome(files, stage_file(stage)) is Ok
}

/// The text of the template of `stage` (meaningful when it loads).
pub open spec fn template_of(files: Seq<PromptFile>, stage: nat) -> Seq<char> {
    prompt_outcome(files, stage_file(stage))->Ok_0
}

/// The title that a stage-7 reply gives: the trimmed answer, or none.
pub open spec fn title_from(reply: Result<Seq<char>, AppError>, title: Option<String>) -> bool {
    match reply {
        Ok(x) => title matches Some(t) && t@ == trim(x),
        Err(_) => title is None,
    }
}

/// The notice of stage 3 for the empty structure.
pub open spec fn empty_structure_notice() -> Seq<char> {
    "主题："@ + "未知"@ + " · 参会 "@ + decimal(0) + " 人 · "@ + decimal(0) + " 项决策"@
}

/// The six notices of a run, from the cleaned text, the organised text,
/// the stage-3 notice, the summary and the number of action items.
pub open spec fn notices_of(
    clean: Seq<char>,
    organized: Seq<char>,
    structure_text: Seq<char>,
    summary: Seq<char>,
    n_items: nat,
) -> Seq<Notice> {
    seq![
        (1u8, "文本清洗"@, clean_notice(clean)),
        (2u8, "说话人整理"@, preview(organized, 50)),
        (3u8, "结构化提取"@, structure_text),
        (4u8, "会议总结"@, preview(summary, 100)),
        (5u8, "行动项提取"@, actions_notice(n_items)),
        (6u8, "报告生成"@, "报告已生成，点击查看"@),
    ]
}

/// The notices that a successful run reports, in order.
pub open spec fn run_notices(out: PipelineOutput, organized: Seq<char>) -> Seq<Notice> {
    notices_of(
        out.clean_transcript@,
        organized,
        structure_notice(out.structure),
        out.summary@,
        out.action_items@.len(),
    )
}

/// Where the exchange of stage `k` stands in a run whose first exchange is
/// at `at`: stages 3 and 5 ask only when their template loads.
pub open spec fn stage_index(files: Seq<PromptFile>, at: int, k: nat) -> int {
    let c3: int = if loads(files, 3) { 1 } else { 0 };
    let c5: int = if loads(files, 5) { 1 } else { 0 };
    if k <= 1 {
        at
    } else if k == 2 {
        at + 1
    } else if k == 3 {
        at + 2
    } else if k == 4 {
        at + 2 + c3
    } else if k == 5 {
        at + 3 + c3
    } else if k == 6 {
        at + 3 + c3 + c5
    } else {
        at + 4 + c3 + c5
    }
}

/// The answer that stage `k` of a run got (meaningful when it got one).
pub open spec fn answer(files: Seq<PromptFile>, log: Seq<Exchange>, at: int, k: nat) -> Seq<char> {
    log[stage_index(files, at, k)].1->Ok_0
}

/// The prompt of stage `k` of a run over `raw` (stage 6 is the report
/// prompt and takes the JSON of the action items besides).
pub open spec fn stage_prompt(
    files: Seq<PromptFile>,
    raw: Seq<char>,
    log: Seq<Exchange>,
    at: int,
    k: nat,
) -> Seq<char> {
    if k <= 1 {
        filled(template_of(files, 1), "transcript"@, raw)
    } else if k == 2 {
        filled(template_of(files, 2), "transcript"@, answer(files, log, at, 1))
    } else {
        filled(template_of(files, k), "meeting_text"@, answer(files, log, at, 2))
    }
}

/// Stage `k` asked `prompt` at position `i` of the record and was answered.
pub open spec fn stage_answered(
    files: Seq<PromptFile>,
    log: Seq<Exchange>,
    i: int,
    k: nat,
    prompt: Seq<char>,
) -> bool {
    loads(files, k) && i < log.len() && log[i].0 == prompt && log[i].1 is Ok
}

/// Stage `k` stopped the run with `e` at position `i` of the record while
/// about to ask `prompt`: either its template did not load (`e` is
/// `AppError::Other` with the loading message, and nothing was asked), or
/// the model answered `e`; nothing was asked after it.
pub open spec fn stage_failed(
    files: Seq<PromptFile>,
    log: Seq<Exchange>,
    i: int,
    k: nat,
    prompt: Seq<char>,
    e: AppError,
) -> bool {
    match prompt_outcome(files, stage_file(k)) {
        Err(m) => log.len() == i && (e matches AppError::Other(s) && s@ == m),
        Ok(_) => log.len() == i + 1 && log[i] == (prompt, Err::<Seq<char>, AppError>(e)),
    }
}

/// Stage 3 (or 5) asked the model (its template loads) and the model answered.
pub open spec fn stage_read(files: Seq<PromptFile>, log: Seq<Exchange>, at: int, k: nat) -> bool {
    loads(files, k) && log[stage_index(files, at, k)].1 is Ok
}

/// Stage 3 of a run asked its prompt when its template loads, and the
/// codec read the JSON of the answer as a structure when there was one.
pub open spec fn structure_step(
    files: Seq<PromptFile>,
    raw: Seq<char>,
    log: Seq<Exchange>,
    at: int,
    cb: CodecLog,
    ca: CodecLog,
) -> bool {
    &&& loads(files, 3) ==> at + 2 < log.len() && log[at + 2].0 == stage_prompt(files, raw, log, at, 3)
    &&& if stage_read(files, log, at, 3) {
        &&& ca.0.len() == cb.0.len() + 1
        &&& ca.0.take(cb.0.len() as int) == cb.0
        &&& ca.0[cb.0.len() as int].0 == extract_json_spec(answer(files, log, at, 3))
    } else {
        ca.0 == cb.0
    }
}

/// Stage 5 of a run asked its prompt when its template loads, and the
/// codec read the JSON of the answer as action items when there was one.
pub open spec fn items_step(
    files: Seq<PromptFile>,
    raw: Seq<char>,
    log: Seq<Exchange>,
    at: int,
    cb: CodecLog,
    ca: CodecLog,
) -> bool {
    let i5 = stage_index(files, at, 5);
    &&& loads(files, 5) ==> i5 < log.len() && log[i5].0 == stage_prompt(files, raw, log, at, 5)
    &&& if stage_read(files, log, at, 5) {
        &&& ca.1.len() == cb.1.len() + 1
        &&& ca.1.take(cb.1.len() as int) == cb.1
        &&& ca.1[cb.1.len() as int].0 == extract_json_spec(answer(files, log, at, 5))
    } else {
        ca.1 == cb.1
    }
}

/// The structure stage 3 produced: what the codec read, or none when the
/// template, the model or the JSON failed.
pub open spec fn structure_got(
    files: Seq<PromptFile>,
    log: Seq<Exchange>,
    at: int,
    cb: CodecLog,
    ca: CodecLog,
) -> Option<StructuredMeeting> {
    if stage_read(files, log, at, 3) && ca.0[cb.0.len() as int].1 is Ok {
        Some(ca.0[cb.0.len() as int].1->Ok_0)
    } else {
        None
    }
}

/// The action items stage 5 produced: what the codec read, or none.
pub open spec fn items_got(
    files: Seq<PromptFile>,
    log: Seq<Exchange>,
    at: int,
    cb: CodecLog,
    ca: CodecLog,
) -> Seq<ActionItemRaw> {
    if stage_read(files, log, at, 5) && ca.1[cb.1.len() as int].1 is Ok {
        ca.1[cb.1.len() as int].1->Ok_0@
    } else {
        Seq::empty()
    }
}

/// The six notices of a run, read off its record and the codec's.
pub open spec fn run_notice_list(
    files: Seq<PromptFile>,
    log: Seq<Exchange>,
    at: int,
    cb: CodecLog,
    ca: CodecLog,
) -> Seq<Notice> {
    notices_of(
        answer(files, log, at, 1),
        answer(files, log, at, 2),
        match structure_got(files, log, at, cb, ca) {
            Some(s) => structure_notice(s),
            None => empty_structure_notice(),
        },
        answer(files, log, at, 4),
        items_got(files, log, at, cb, ca).len(),
    )
}

/// Stages 1 to 5 of a run over `raw` went through: stages 1, 2 and 4 were
/// answered, with the prompts a run sends, and stages 3 and 5 did their
/// part.
pub open spec fn through_stage5(
    files: Seq<PromptFile>,
    raw: Seq<char>,
    log: Seq<Exchange>,
    at: int,
    cb: CodecLog,
    ca: CodecLog,
) -> bool {
    &&& stage_answered(files, log, at, 1, stage_prompt(files, raw, log, at, 1))
    &&& stage_answered(files, log, at + 1, 2, stage_prompt(files, raw, log, at, 2))
    &&& structure_step(files, raw, log, at, cb, ca)
    &&& stage_answered(files, log, stage_index(files, at, 4), 4, stage_prompt(files, raw, log, at, 4))
    &&& items_step(files, raw, log, at, cb, ca)
}

/// The codec wrote the action items of the run as JSON, with outcome `res`.
pub open spec fn items_written(
    files: Seq<PromptFile>,
    log: Seq<Exchange>,
    at: int,
    cb: CodecLog,
    ca: CodecLog,
    res: Result<Seq<char>, AppError>,
) -> bool {
    ca.2 == cb.2.push((items_got(files, log, at, cb, ca), res))
}

/// The report prompt of a run: the summary and the JSON the codec wrote.
pub open spec fn run_report_prompt(
    files: Seq<PromptFile>,
    log: Seq<Exchange>,
    at: int,
    ca: CodecLog,
) -> Seq<char> {
    report_prompt(template_of(files, 6), answer(files, log, at, 4), ca.2.last().1->Ok_0)
}

/// How a run over `raw`, whose first exchange is at position `at` of the
/// record, stopped with `e` after `done` finished stages: the first stage
/// to fail was 1, 2, 4 or 6 (at 6 either the action items could not be
/// written as JSON or the report failed); every stage before it went
/// through, and nothing was asked after it.
pub open spec fn run_failure(
    files: Seq<PromptFile>,
    raw: Seq<char>,
    log: Seq<Exchange>,
    at: int,
    cb: CodecLog,
    ca: CodecLog,
    e: AppError,
    done: nat,
) -> bool {
    let i6 = stage_index(files, at, 6);
    ||| done == 0 && ca == cb && stage_failed(files, log, at, 1, stage_prompt(files, raw, log, at, 1), e)
    ||| done == 1 && ca == cb && stage_answered(files, log, at, 1, stage_prompt(files, raw, log, at, 1))
        && stage_failed(files, log, at + 1, 2, stage_prompt(files, raw, log, at, 2), e)
    ||| done == 3 && stage_answered(files, log, at, 1, stage_prompt(files, raw, log, at, 1))
        && stage_answered(files, log, at + 1, 2, stage_prompt(files, raw, log, at, 2))
        && structure_step(files, raw, log, at, cb, ca) && ca.1 == cb.1 && ca.2 == cb.2
        && stage_failed(files, log, stage_index(files, at, 4), 4, stage_prompt(files, raw, log, at, 4), e)
    ||| done == 5 && through_stage5(files, raw, log, at, cb, ca) && log.len() == i6
        && items_written(files, log, at, cb, ca, Err(e))
    ||| done == 5 && through_stage5(files, raw, log, at, cb, ca) && ca.2.last().1 is Ok
        && items_written(files, log, at, cb, ca, ca.2.last().1)
        && stage_failed(files, log, i6, 6, run_report_prompt(files, log, at, ca), e)
}

/// What a successful run over `raw` did and gave: stages 1 to 5 went
/// through, the codec wrote the action items as JSON, the report was asked
/// with the summary and that JSON, stage 7 ran only when asked for (and its
/// template loads), and `out` holds the answers and what the codec read.
pub open spec fn run_success(
    files: Seq<PromptFile>,
    raw: Seq<char>,
    auto_titled: bool,
    log: Seq<Exchange>,
    at: int,
    cb: CodecLog,
    ca: CodecLog,
    out: PipelineOutput,
) -> bool {
    let i6 = stage_index(files, at, 6);
    let i7 = stage_index(files, at, 7);
    &&& through_stage5(files, raw, log, at, cb, ca)
    &&& ca.2.last().1 is Ok
    &&& items_written(files, log, at, cb, ca, ca.2.last().1)
    &&& stage_answered(files, log, i6, 6, run_report_prompt(files, log, at, ca))
    &&& out.clean_transcript@ == answer(files, log, at, 1)
    &&& out.summary@ == answer(files, log, at, 4)
    &&& out.report@ == answer(files, log, at, 6)
    &&& match structure_got(files, log, at, cb, ca) {
        Some(s) => out.structure == s,
        None => is_empty_structure(out.structure),
    }
    &&& out.action_items@ == items_got(files, log, at, cb, ca)
    &&& if auto_titled && loads(files, 7) {
        &&& log.len() == i7 + 1
        &&& log[i7].0 == filled(template_of(files, 7), "summary"@, out.summary@)
        &&& title_from(log[i7].1, out.generated_title)
    } else {
        &&& log.len() == i7
        &&& out.generated_title is None
    }
}

/// The notices added to `before`: `added` after it when there is an
/// observer.
pub open spec fn noticed(
    before: Option<Seq<Notice>>,
    after: Option<Seq<Notice>>,
    added: Seq<Notice>,
) -> bool {
    after == match before {
        Some(n) => Some(n + added),
        None => None,
    }
}

impl<C: LlmClient, O: StageObserver> Pipeline<C, O> {
    /// Runs stages 1 to 6 over `raw_transcript`, and stage 7 when
    /// `auto_titled`; each finished stage is reported to the observer.
    /// Stages 3 and 5 never fail the run; a failed title leaves it untitled.
    /// The first of stages 1, 2, 4 and 6 to fail stops the run with its
    /// error.
    #[verifier::rlimit(100)]
    #[verifier::spinoff_prover]
    pub fn run<J: MeetingCodec>(&mut self, raw_transcript: &str, auto_titled: bool, codec: &J) -> (r:
        Result<PipelineOutput, AppError>)
        ensures
            final(self).prompt_files() == old(self).prompt_files(),
            final(self).exchanges().len() >= old(self).exchanges().len(),
            final(self).exchanges().take(old(self).exchanges().len() as int) == old(
                self,
            ).exchanges(),
            r matches Ok(out) ==> run_success(
                old(self).prompt_files(),
                raw_transcript@,
                auto_titled,
                final(self).exchanges(),
                old(self).exchanges().len() as int,
                old(self).codec_log(),
                final(self).codec_log(),
                out,
            ),
            r matches Ok(out) ==> noticed(
                old(self).observer(),
                final(self).observer(),
                run_notices(out, answer(old(self).prompt_files(), final(self).exchanges(), old(self).exchanges().len() as int, 2)),
            ),
            r matches Err(e) ==> exists|done: nat|
                #[trigger] run_failure(
                    old(self).prompt_files(),
                    raw_transcript@,
                    final(self).exchanges(),
                    old(self).exchanges().len() as int,
                    old(self).codec_log(),
                    final(self).codec_log(),
                    e,
                    done,
                ) && noticed(
                    old(self).observer(),
                    final(self).observer(),
                    run_notice_list(
                        old(self).prompt_files(),
                        final(self).exchanges(),
                        old(self).exchanges().len() as int,
                        old(self).codec_log(),
                        final(self).codec_log(),
                    ).take(done as int),
                ),
    {
        let ghost files = self.prompt_files();
        let ghost raw = raw_transcript@;
        let ghost log0 = self.exchanges();
        let ghost at = log0.len() as int;
        let ghost obs0 = self.observer();
        let ghost cb = self.codec_log();
        // stage 1
        let clean = match self.stage1_clean(raw_transcript) {
            Ok(c) => c,
            Err(e) => {
                proof {
                    let l = self.exchanges();
                    assert(l.take(at) =~= log0);
                    assert(run_failure(files, raw, l, at, cb, self.codec_log(), e, 0));
                    match obs0 {
                        Some(n) => assert(self.observer()->Some_0 =~= n + run_notice_list(files, l, at, cb, self.codec_log()).take(0) && n + run_notice_list(files, l, at, cb, self.codec_log()).take(0) =~= n),
                        None => {},
                    }
                }
                return Err(e);
            },
        };
        let ghost log1 = self.exchanges();
        assert(log1.take(at) =~= log0);
        assert(log1[at] == (stage_prompt(files, raw, log1, at, 1), Ok::<Seq<char>, AppError>(clean@)));
        let note1 = clean_notice_of(clean.as_str());
        self.notify_stage(1, "文本清洗", note1.as_str());
        let ghost obs1 = self.observer();
        // stage 2
        let organized = match self.stage2_speaker(clean.as_str()) {
            Ok(o) => o,
            Err(e) => {
                proof {
                    let l = self.exchanges();
                    assert(l.take(at) =~= log0);
                    assert(l[at] == log1[at]);
                    assert(answer(files, l, at, 1) == clean@);
                    assert(run_failure(files, raw, l, at, cb, self.codec_log(), e, 1));
                    match obs0 {
                        Some(n) => assert(self.observer()->Some_0 =~= n + run_notice_list(files, l, at, cb, self.codec_log()).take(1) && n + run_notice_list(files, l, at, cb, self.codec_log()).take(1) =~= n.push((1u8, "文本清洗"@, clean_notice(clean@)))),
                        None => {},
                    }
                }
                return Err(e);
            },
        };
        let ghost log2 = self.exchanges();
        assert(log2.take(at) =~= log0);
        assert(log2[at] == log1[at]);
        assert(log2[at + 1] == (stage_prompt(files, raw, log2, at, 2), Ok::<Seq<char>, AppError>(organized@)));
        let note2 = preview_of(organized.as_str(), 50);
        self.notify_stage(2, "说话人整理", note2.as_str());
        // stage 3
        let structure = self.stage3_structure(organized.as_str(), codec);
        let ghost log3 = self.exchanges();
        let ghost ca3 = self.codec_log();
        proof {
            assert(log3.take(at) =~= log0);
            if loads(files, 3) {
                assert(log3.drop_last() =~= log2);
                assert(log3[at] == log2[at]);
                assert(log3[at + 1] == log2[at + 1]);
            } else {
                assert(log3 == log2);
            }
            assert(structure_step(files, raw, log3, at, cb, ca3));
            match structure_got(files, log3, at, cb, ca3) {
                Some(s) => assert(structure == s),
                None => {
                    assert(is_empty_structure(structure));
                    assert(structure_notice(structure) =~= empty_structure_notice());
                },
            }
        }
        let note3 = structure_notice_of(&structure);
        self.notify_stage(3, "结构化提取", note3.as_str());
        // stage 4
        let summary = match self.stage4_summary(organized.as_str()) {
            Ok(s) => s,
            Err(e) => {
                proof {
                    let l = self.exchanges();
                    let ca = self.codec_log();
                    assert(l.take(at) =~= log0);
                    assert(l.take(log3.len() as int) =~= log3);
                    assert(l[at] == log3[at]);
                    assert(l[at + 1] == log3[at + 1]);
                    if loads(files, 3) {
                        assert(l[at + 2] == log3[at + 2]);
                    }
                    assert(structure_step(files, raw, l, at, cb, ca));
                    assert(structure_got(files, l, at, cb, ca) == structure_got(files, log3, at, cb, ca3));
                    assert(run_failure(files, raw, l, at, cb, ca, e, 3));
                    match obs0 {
                        Some(n) => assert(self.observer()->Some_0 =~= n + run_notice_list(files, l, at, cb, ca).take(3) && n + run_notice_list(files, l, at, cb, ca).take(3) =~= n + seq![
                            (1u8, "文本清洗"@, clean_notice(clean@)),
                            (2u8, "说话人整理"@, preview(organized@, 50)),
                            (3u8, "结构化提取"@, structure_notice(structure)),
                        ]),
                        None => {},
                    }
                }
                return Err(e);
            },
        };
        let ghost log4 = self.exchanges();
        proof {
            assert(log4.take(at) =~= log0);
            assert(log4.drop_last() =~= log3);
            assert(log4[at] == log3[at]);
            assert(log4[at + 1] == log3[at + 1]);
            if loads(files, 3) {
                assert(log4[at + 2] == log3[at + 2]);
            }
        }
        let note4 = preview_of(summary.as_str(), 100);
        self.notify_stage(4, "会议总结", note4.as_str());
        // stage 5
        let action_items = self.stage5_actions(organized.as_str(), codec);
        let ghost log5 = self.exchanges();
        let ghost ca5 = self.codec_log();
        proof {
            assert(log5.take(at) =~= log0);
            if loads(files, 5) {
                assert(log5.drop_last() =~= log4);
            } else {
                assert(log5 == log4);
            }
            assert(log5[at] == log4[at]);
            assert(log5[at + 1] == log4[at + 1]);
            if loads(files, 3) {
                assert(log5[at + 2] == log4[at + 2]);
            }
            assert(log5[stage_index(files, at, 4)] == log4[stage_index(files, at, 4)]);
            assert(through_stage5(files, raw, log5, at, cb, ca5));
            assert(action_items@ == items_got(files, log5, at, cb, ca5));
        }
        let note5 = actions_notice_of(action_items.len());
        self.notify_stage(5, "行动项提取", note5.as_str());
        // the action items as JSON, for the report
        let actions_json = match self.encode_items(codec, &action_items) {
            Ok(j) => j,
            Err(e) => {
                proof {
                    let l = self.exchanges();
                    let ca = self.codec_log();
                    assert(l.take(at) =~= log0);
                    assert(items_got(files, l, at, cb, ca) == items_got(files, log5, at, cb, ca5));
                    assert(structure_got(files, l, at, cb, ca) == structure_got(files, log3, at, cb, ca3));
                    assert(through_stage5(files, raw, l, at, cb, ca));
                    assert(run_failure(files, raw, l, at, cb, ca, e, 5));
                    match obs0 {
                        Some(n) => assert(self.observer()->Some_0 =~= n + run_notice_list(files, l, at, cb, ca).take(5) && n + run_notice_list(files, l, at, cb, ca).take(5) =~= n + seq![
                            (1u8, "文本清洗"@, clean_notice(clean@)),
                            (2u8, "说话人整理"@, preview(organized@, 50)),
                            (3u8, "结构化提取"@, structure_notice(structure)),
                            (4u8, "会议总结"@, preview(summary@, 100)),
                            (5u8, "行动项提取"@, actions_notice(action_items@.len())),
                        ]),
                        None => {},
                    }
                }
                return Err(e);
            },
        };
        let ghost caw = self.codec_log();
        proof {
            assert(items_got(files, log5, at, cb, caw) == items_got(files, log5, at, cb, ca5));
            assert(structure_got(files, log5, at, cb, caw) == structure_got(files, log3, at, cb, ca3));
            assert(through_stage5(files, raw, log5, at, cb, caw));
            assert(caw.2.last().1 == Ok::<Seq<char>, AppError>(actions_json@));
        }
        // stage 6
        let report = match self.stage6_report(summary.as_str(), actions_json.as_str()) {
            Ok(s) => s,
            Err(e) => {
                proof {
                    let l = self.exchanges();
                    assert(l.take(at) =~= log0);
                    if loads(files, 6) {
                        assert(l.drop_last() =~= log5);
                    }
                    assert(l.take(log5.len() as int) =~= log5);
                    assert(l[at] == log5[at]);
                    assert(l[at + 1] == log5[at + 1]);
                    if loads(files, 3) {
                        assert(l[at + 2] == log5[at + 2]);
                    }
                    assert(l[stage_index(files, at, 4)] == log5[stage_index(files, at, 4)]);
                    if loads(files, 5) {
                        assert(l[stage_index(files, at, 5)] == log5[stage_index(files, at, 5)]);
                    }
                    assert(items_got(files, l, at, cb, caw) == items_got(files, log5, at, cb, ca5));
                    assert(structure_got(files, l, at, cb, caw) == structure_got(files, log3, at, cb, ca3));
                    assert(through_stage5(files, raw, l, at, cb, caw));
                    assert(run_failure(files, raw, l, at, cb, caw, e, 5));
                    match obs0 {
                        Some(n) => assert(self.observer()->Some_0 =~= n + run_notice_list(files, l, at, cb, caw).take(5) && n + run_notice_list(files, l, at, cb, caw).take(5) =~= n + seq![
                            (1u8, "文本清洗"@, clean_notice(clean@)),
                            (2u8, "说话人整理"@, preview(organized@, 50)),
                            (3u8, "结构化提取"@, structure_notice(structure)),
                            (4u8, "会议总结"@, preview(summary@, 100)),
                            (5u8, "行动项提取"@, actions_notice(action_items@.len())),
                        ]),
                        None => {},
                    }
                }
                return Err(e);
            },
        };
        let ghost log6 = self.exchanges();
        proof {
            assert(log6.take(at) =~= log0);
            assert(log6.drop_last() =~= log5);
        }
        self.notify_stage(6, "报告生成", "报告已生成，点击查看");
        // stage 7
        let generated_title = if auto_titled {
            match self.stage7_title(summary.as_str()) {
                Ok(t) => Some(t),
                Err(_) => None,
            }
        } else {
            None
        };
        let ghost log7 = self.exchanges();
        proof {
            assert(log7.take(at) =~= log0);
            if auto_titled && loads(files, 7) {
                assert(log7.drop_last() =~= log6);
            } else {
                assert(log7 == log6);
            }
            assert(log7[at] == log5[at]);
            assert(log7[at + 1] == log5[at + 1]);
            if loads(files, 3) {
                assert(log7[at + 2] == log5[at + 2]);
            }
            assert(log7[stage_index(files, at, 4)] == log5[stage_index(files, at, 4)]);
            if loads(files, 5) {
                assert(log7[stage_index(files, at, 5)] == log5[stage_index(files, at, 5)]);
            }
            assert(log7[stage_index(files, at, 6)] == log6[stage_index(files, at, 6)]);
            assert(items_got(files, log7, at, cb, caw) == items_got(files, log5, at, cb, ca5));
            assert(structure_got(files, log7, at, cb, caw) == structure_got(files, log3, at, cb, ca3));
            assert(through_stage5(files, raw, log7, at, cb, caw));
        }
        let out = PipelineOutput {
            clean_transcript: clean,
            structure,
            summary,
            action_items,
            report,
            generated_title,
        };
        proof {
            assert(run_success(files, raw, auto_titled, log7, at, cb, caw, out));
            match obs0 {
                Some(n) => {
                    assert(self.observer()->Some_0 =~= n + run_notices(out, answer(files, log7, at, 2)));
                },
                None => {},
            }
        }
        Ok(out)
    }
}

} // verus!
