//! Results of the settings page's connection checks and of the FunASR
//! session commands, and the events the pipeline reports.
use vstd::prelude::*;
use crate::asr::streaming::StreamingSegment;
use crate::text::{
    contains, decimal, first_line, first_line_of, starts_with, str_contains, str_starts_with, trim,
    trim_str, u64_to_decimal,
};

verus! {

// ───────────────────────── events and results ─────────────────────────

/// A pipeline stage finished.
#[derive(Debug)]
pub struct PipelineStageDoneEvent {
    pub stage: u8,
    pub name: String,
    pub summary: String,
}

/// A pipeline stage failed.
#[derive(Debug)]
pub struct PipelineStageFailed {
    pub stage: u8,
    pub error: String,
}

/// A stage of summary regeneration started.
#[derive(Debug)]
pub struct SummaryStageEvent {
    pub stage: u8,
    pub name: String,
}

/// A piece of a streamed summary.
#[derive(Debug)]
pub struct SummaryChunkEvent {
    pub text: String,
}

/// Summary regeneration finished.
#[derive(Debug)]
pub struct SummaryDoneEvent {
    pub summary: String,
}

/// Summary regeneration failed.
#[derive(Debug)]
pub struct SummaryErrorEvent {
    pub message: String,
}

/// What the pipeline command returns.
#[derive(Debug)]
pub struct PipelineResult {
    pub clean_transcript: String,
    pub summary: String,
    pub report: String,
    pub generated_title: Option<String>,
}

/// Outcome of the LLM connection test.
#[derive(Debug)]
pub struct LlmTestResult {
    pub success: bool,
    pub message: String,
    pub latency_ms: u64,
}

/// Outcome of the Whisper tool check.
#[derive(Debug)]
pub struct WhisperCheckResult {
    pub found: bool,
    pub version: Option<String>,
    pub status: String,
}

/// Outcome of the ASR credentials test.
#[derive(Debug)]
pub struct AsrTestResult {
    pub success: bool,
    pub message: String,
}

/// The final segments of a stopped FunASR session.
#[derive(Debug)]
pub struct FunAsrStopResult {
    pub segments: Vec<StreamingSegment>,
}

/// Outcome of the FunASR server check.
#[derive(Debug)]
pub struct FunAsrCheckResult {
    pub found: bool,
    pub message: String,
}

// ───────────────────────── LLM connection test ─────────────────────────

/// What the user is told about a failed LLM call: refused connections name
/// the server, authorisation failures the key, unknown models the model;
/// anything else is shown as it is.
pub open spec fn friendly_llm_message(msg: Seq<char>, base_url: Seq<char>, model: Seq<char>) -> Seq<
    char,
> {
    if contains(msg, "Connection refused"@) || contains(msg, "connect error"@) {
        "无法连接到 "@ + base_url + "，请确认服务已启动"@
    } else if contains(msg, "401"@) || contains(msg, "Unauthorized"@) {
        "API Key 无效，请检查配置"@
    } else if contains(msg, "model"@) && contains(msg, "not found"@) {
        "模型 '"@ + model + "' 不存在，请确认模型名称"@
    } else {
        msg
    }
}

/// The user-facing message for a failed LLM call.
pub fn friendly_llm_error(msg: &str, base_url: &str, model: &str) -> (r: String)
    ensures
        r@ == friendly_llm_message(msg@, base_url@, model@),
{
    if str_contains(msg, "Connection refused") || str_contains(msg, "connect error") {
        let mut s = "无法连接到 ".to_owned();
        s.append(base_url);
        s.append("，请确认服务已启动");
        s
    } else if str_contains(msg, "401") || str_contains(msg, "Unauthorized") {
        "API Key 无效，请检查配置".to_owned()
    } else if str_contains(msg, "model") && str_contains(msg, "not found") {
        let mut s = "模型 '".to_owned();
        s.append(model);
        s.append("' 不存在，请确认模型名称");
        s
    } else {
        msg.to_owned()
    }
}

/// The result of the LLM connection test: the latency of a successful call,
/// or the user-facing message of a failed one.
pub fn llm_test_result(outcome: Result<u64, String>, base_url: &str, model: &str) -> (r: LlmTestResult)
    ensures
        outcome matches Ok(ms) ==> r.success && r.latency_ms == ms && r.message@ == "连接正常 ("@
            + decimal(ms as nat) + "ms)"@,
        outcome matches Err(msg) ==> !r.success && r.latency_ms == 0 && r.message@
            == friendly_llm_message(msg@, base_url@, model@),
{
    match outcome {
        Ok(ms) => {
            let mut m = "连接正常 (".to_owned();
            let d = u64_to_decimal(ms);
            m.append(d.as_str());
            m.append("ms)");
            LlmTestResult { success: true, message: m, latency_ms: ms }
        },
        Err(msg) => LlmTestResult {
            success: false,
            message: friendly_llm_error(msg.as_str(), base_url, model),
            latency_ms: 0,
        },
    }
}

// ───────────────────────── Whisper tool check ─────────────────────────

/// How starting the Whisper tool went.
#[derive(Debug)]
pub enum ProbeOutcome {
    /// The executable does not exist.
    NotFound,
    /// It exists but could not be run.
    ExecFailed,
    /// It ran.
    Ran,
}

/// The version line of `whisper-cli --version`: the first line of its
/// output (standard output, or standard error when that is empty), trimmed;
/// none when that is empty or reads as an error.
pub open spec fn whisper_version(stdout: Seq<char>, stderr: Seq<char>) -> Option<Seq<char>> {
    let text = if stdout.len() > 0 {
        stdout
    } else {
        stderr
    };
    let line = trim(
        match first_line(text) {
            Some(l) => l,
            None => Seq::empty(),
        },
    );
    if line.len() == 0 || starts_with(line, "error:"@) || contains(line, "unknown argument"@) {
        None
    } else {
        Some(line)
    }
}

/// Reads the version of the Whisper tool from its output.
pub fn whisper_version_of(stdout: &str, stderr: &str) -> (r: Option<String>)
    ensures
        crate::text::opt_view(r) == whisper_version(stdout@, stderr@),
{
    let text = if !stdout.is_empty() {
        stdout
    } else {
        stderr
    };
    let first = match first_line_of(text) {
        Some(l) => l,
        None => String::new(),
    };
    let line = trim_str(first.as_str());
    if line.as_str().is_empty() || str_starts_with(line.as_str(), "error:") || str_contains(
        line.as_str(),
        "unknown argument",
    ) {
        None
    } else {
        Some(line)
    }
}

/// The result of the Whisper tool check.
pub fn whisper_check_result(probe: ProbeOutcome, version: Option<String>) -> (r: WhisperCheckResult)
    ensures
        probe is NotFound ==> !r.found && r.version is None && r.status@ == "notFound"@,
        probe is ExecFailed ==> !r.found && r.version is None && r.status@ == "execFailed"@,
        probe is Ran ==> r.found && r.version == version && r.status@ == "found"@,
{
    match probe {
        ProbeOutcome::NotFound => WhisperCheckResult {
            found: false,
            version: None,
            status: "notFound".to_owned(),
        },
        ProbeOutcome::ExecFailed => WhisperCheckResult {
            found: false,
            version: None,
            status: "execFailed".to_owned(),
        },
        ProbeOutcome::Ran => WhisperCheckResult { found: true, version, status: "found".to_owned() },
    }
}

// ───────────────────────── ASR credentials test ─────────────────────────

/// Only the Aliyun provider has credentials to test.
pub fn asr_needs_test(provider: &str) -> (r: bool)
    ensures
        r == (provider@ == "aliyun"@),
{
    provider.to_owned() == "aliyun".to_owned()
}

/// The result of an ASR credentials test: the test's outcome, or, when the
/// provider has nothing to test, a failure saying so.
pub fn asr_test_result(outcome: Option<Result<String, String>>) -> (r: AsrTestResult)
    ensures
        outcome matches Some(Ok(m)) ==> r.success && r.message@ == m@,
        outcome matches Some(Err(m)) ==> !r.success && r.message@ == m@,
        outcome is None ==> !r.success && r.message@ == "当前 ASR Provider 无需测试"@,
{
    match outcome {
        Some(Ok(m)) => AsrTestResult { success: true, message: m },
        Some(Err(m)) => AsrTestResult { success: false, message: m },
        None => AsrTestResult { success: false, message: "当前 ASR Provider 无需测试".to_owned() },
    }
}

// ───────────────────────── FunASR server ─────────────────────────

/// The executable to run: the configured path, or "funasr-server".
pub open spec fn server_exe(path: Seq<char>) -> Seq<char> {
    if path.len() == 0 {
        "funasr-server"@
    } else {
        path
    }
}

/// The executable to run.
pub fn server_exe_of(path: &str) -> (r: String)
    ensures
        r@ == server_exe(path@),
{
    if path.is_empty() {
        "funasr-server".to_owned()
    } else {
        path.to_owned()
    }
}

/// How to reach a FunASR server.
#[derive(Debug)]
pub enum ServerPlan {
    /// Use the configured external service.
    External { ws_url: String },
    /// Start `exe --port <port> --model paraformer-zh` and connect locally.
    Launch { exe: String, port_arg: String, ws_url: String },
}

/// Chooses between the configured external server and a local one started
/// on `port`.
pub fn server_plan(ws_url: &str, server_path: &str, port: u16) -> (r: ServerPlan)
    ensures
        ws_url@.len() > 0 ==> (r matches ServerPlan::External { ws_url: u } && u@ == ws_url@),
        ws_url@.len() == 0 ==> (r matches ServerPlan::Launch { exe, port_arg, ws_url: u }
            && exe@ == server_exe(server_path@) && port_arg@ == decimal(port as nat)
            && u@ == "ws://localhost:"@ + decimal(port as nat)),
{
    if !ws_url.is_empty() {
        ServerPlan::External { ws_url: ws_url.to_owned() }
    } else {
        let port_arg = u64_to_decimal(port as u64);
        let mut u = "ws://localhost:".to_owned();
        u.append(port_arg.as_str());
        ServerPlan::Launch { exe: server_exe_of(server_path), port_arg, ws_url: u }
    }
}

/// The message when the server executable cannot be started.
pub fn server_missing_message(exe: &str) -> (r: String)
    ensures
        r@ == "FunASR server not found at '"@ + exe@ + "'. Install via: pip install funasr-runtime"@,
{
    let mut m = "FunASR server not found at '".to_owned();
    m.append(exe);
    m.append("'. Install via: pip install funasr-runtime");
    m
}

/// The version a FunASR server reports: the first line of its standard
/// output, or of its standard error when the output has no line, trimmed;
/// a placeholder when that is empty.
pub open spec fn funasr_version(stdout: Seq<char>, stderr: Seq<char>) -> Seq<char> {
    let line = match first_line(stdout) {
        Some(l) => l,
        None => match first_line(stderr) {
            Some(l) => l,
            None => "unknown"@,
        },
    };
    if trim(line).len() == 0 {
        "funasr-server found"@
    } else {
        trim(line)
    }
}

/// Checks a local FunASR server from the output of `--version` (or the
/// failure to start it).
pub fn check_funasr_output(exe: &str, output: Option<(&str, &str)>) -> (r: Result<String, String>)
    ensures
        output matches Some((o, e)) ==> (r matches Ok(v) && v@ == funasr_version(o@, e@)),
        output is None ==> (r matches Err(m) && m@ == "funasr-server not found at '"@ + exe@
            + "'. Install via: pip install funasr-runtime"@),
{
    match output {
        Some((o, e)) => {
            let line = match first_line_of(o) {
                Some(l) => l,
                None => match first_line_of(e) {
                    Some(l) => l,
                    None => "unknown".to_owned(),
                },
            };
            let v = trim_str(line.as_str());
            if v.as_str().is_empty() {
                Ok("funasr-server found".to_owned())
            } else {
                Ok(v)
            }
        },
        None => {
            let mut m = "funasr-server not found at '".to_owned();
            m.append(exe);
            m.append("'. Install via: pip install funasr-runtime");
            Err(m)
        },
    }
}

/// The result of the FunASR server check.
pub fn funasr_check_result(outcome: Result<String, String>) -> (r: FunAsrCheckResult)
    ensures
        outcome matches Ok(v) ==> r.found && r.message@ == v@,
        outcome matches Err(m) ==> !r.found && r.message@ == m@,
{
    match outcome {
        Ok(v) => FunAsrCheckResult { found: true, message: v },
        Err(m) => FunAsrCheckResult { found: false, message: m },
    }
}

/// What starting a FunASR session does.
#[derive(Debug)]
pub enum SessionStart {
    /// A session is already running: refuse with this message.
    AlreadyRunning(String),
    /// Realtime recognition is switched off: do nothing.
    Skip,
    /// Start a session.
    Start,
}

/// Decides whether to start a FunASR session.
pub fn session_start(running: bool, enabled: bool) -> (r: SessionStart)
    ensures
        running ==> (r matches SessionStart::AlreadyRunning(m)
            && m@ == "FunASR session already running. Call stop_funasr_session first."@),
        !running && !enabled ==> r is Skip,
        !running && enabled ==> r is Start,
{
    if running {
        SessionStart::AlreadyRunning(
            "FunASR session already running. Call stop_funasr_session first.".to_owned(),
        )
    } else if !enabled {
        SessionStart::Skip
    } else {
        SessionStart::Start
    }
}

/// The name a realtime result is reported under.
pub fn segment_event_name(is_final: bool) -> (r: &'static str)
    ensures
        is_final ==> r@ == "asr_final"@,
        !is_final ==> r@ == "asr_partial"@,
{
    if is_final {
        "asr_final"
    } else {
        "asr_partial"
    }
}

} // verus!
