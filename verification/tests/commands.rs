use memo_ai::asr::transcript::TranscriptSegment;
use memo_ai::commands::checks::{
    asr_needs_test, asr_test_result, check_funasr_output, friendly_llm_error, llm_test_result,
    segment_event_name, server_exe_of, server_missing_message, server_plan, session_start,
    whisper_check_result, whisper_version_of, ProbeOutcome, ServerPlan, SessionStart,
};
use memo_ai::commands::config::{default_asr_provider, default_funasr_port, AppConfig};
use memo_ai::commands::report::{
    action_line_of, recording_filename, render_report, search_pattern, stream_name, ActionRow,
};
use memo_ai::commands::retry::{
    full_run_input, regenerated_summary, summary_stream_events, SummaryEvent, retry_plan, retry_result, retry_stages, retry_start_stage, StoredRun,
};
use memo_ai::commands::transcript::{joined_segment_text, transcript_text, TranscriptLine};
use memo_ai::db::migrations::{column_missing, pending_migrations, CURRENT_VERSION};
use memo_ai::error::AppError;
use memo_ai::llm::client::LlmClient;
use memo_ai::llm::mock_client::MockLlmClient;
use memo_ai::llm::pipeline::{
    ActionItemRaw, MeetingCodec, Pipeline, PromptFile, PromptSet, StageLog, StructuredMeeting,
};

/// A codec that reads no JSON and writes action items as their count.
struct CountingCodec;

impl MeetingCodec for CountingCodec {
    fn parse_structure(&self, _json: &str) -> Result<StructuredMeeting, AppError> {
        Err(AppError::Json("unsupported".to_string()))
    }
    fn parse_action_items(&self, _json: &str) -> Result<Vec<ActionItemRaw>, AppError> {
        Ok(vec![ActionItemRaw { task: "t".to_string(), owner: None, deadline: None }])
    }
    fn action_items_json(&self, items: &Vec<ActionItemRaw>) -> Result<String, AppError> {
        Ok(format!("[{}]", items.len()))
    }
}

fn prompts() -> PromptSet {
    let f = |n: &str, t: &str| PromptFile { name: n.to_string(), text: Ok(t.to_string()) };
    PromptSet {
        files: vec![
            f("01_clean.txt", "C {{transcript}}"),
            f("02_speaker.txt", "S {{transcript}}"),
            f("03_structure.txt", "T {{meeting_text}}"),
            f("04_summary.txt", "M {{meeting_text}}"),
            f("05_actions.txt", "A {{meeting_text}}"),
            f("06_report.txt", "R {{summary}} {{actions}}"),
            f("07_title.txt", "H {{summary}}"),
        ],
    }
}

fn line(speaker: Option<&str>, text: &str) -> TranscriptLine {
    TranscriptLine { speaker: speaker.map(|s| s.to_string()), text: text.to_string() }
}

fn seg(text: &str) -> TranscriptSegment {
    TranscriptSegment { start_ms: 0, end_ms: 1000, text: text.to_string(), speaker: None }
}

#[test]
fn transcript_lines_join_with_speakers() {
    let lines = vec![line(Some("张三"), "你好"), line(None, "嗯"), line(Some("李四"), "开始")];
    assert_eq!(transcript_text(&lines), "张三：你好\n嗯\n李四：开始");
    assert_eq!(transcript_text(&[]), "");
}

#[test]
fn segment_texts_join_with_spaces_and_trim() {
    assert_eq!(joined_segment_text(&[seg("a"), seg("b c"), seg("")]), "a b c");
    assert_eq!(joined_segment_text(&[]), "");
}

#[test]
fn action_lines_show_status_owner_and_deadline() {
    let row = |owner: Option<&str>, deadline: Option<&str>, status: &str| ActionRow {
        task: "压测".to_string(),
        owner: owner.map(|s| s.to_string()),
        deadline: deadline.map(|s| s.to_string()),
        status: status.to_string(),
    };
    assert_eq!(action_line_of(&row(Some("王五"), Some("周三"), "done")), "- [x] 压测（王五 / 周三）");
    assert_eq!(action_line_of(&row(Some("王五"), None, "pending")), "- [ ] 压测（王五）");
    assert_eq!(action_line_of(&row(None, Some("周三"), "pending")), "- [ ] 压测（周三）");
    assert_eq!(action_line_of(&row(None, None, "pending")), "- [ ] 压测");
}

#[test]
fn report_markdown_layout() {
    let items = vec![ActionRow {
        task: "写文档".to_string(),
        owner: None,
        deadline: None,
        status: "done".to_string(),
    }];
    let md = render_report("周会", "2024-01-01", Some("总结"), None, &items);
    assert_eq!(
        md,
        "# 周会\n\n**日期：** 2024-01-01\n\n## 会议总结\n\n总结\n\n## 行动项\n\n- [x] 写文档\n\n## 完整报告\n\n（暂无报告）\n"
    );
    let empty = render_report("t", "d", None, Some("r"), &[]);
    assert_eq!(
        empty,
        "# t\n\n**日期：** d\n\n## 会议总结\n\n（暂无总结）\n\n## 行动项\n\n（暂无行动项）\n\n## 完整报告\n\nr\n"
    );
}

#[test]
fn names_and_patterns() {
    assert_eq!(recording_filename(42), "meeting_42.wav");
    assert_eq!(recording_filename(-3), "meeting_-3.wav");
    assert_eq!(stream_name(7), "meeting_7");
    assert_eq!(search_pattern("预算"), "%预算%");
}

#[test]
fn friendly_llm_messages() {
    assert_eq!(
        friendly_llm_error("error: Connection refused (os error 111)", "http://h:1", "m"),
        "无法连接到 http://h:1，请确认服务已启动"
    );
    assert_eq!(friendly_llm_error("HTTP 401", "u", "m"), "API Key 无效，请检查配置");
    assert_eq!(
        friendly_llm_error("model 'x' not found", "u", "qwen"),
        "模型 'qwen' 不存在，请确认模型名称"
    );
    assert_eq!(friendly_llm_error("timeout", "u", "m"), "timeout");
}

#[test]
fn llm_test_results() {
    let ok = llm_test_result(Ok(250), "u", "m");
    assert!(ok.success);
    assert_eq!(ok.latency_ms, 250);
    assert_eq!(ok.message, "连接正常 (250ms)");
    let bad = llm_test_result(Err("Unauthorized".to_string()), "u", "m");
    assert!(!bad.success);
    assert_eq!(bad.latency_ms, 0);
    assert_eq!(bad.message, "API Key 无效，请检查配置");
}

#[test]
fn whisper_versions() {
    assert_eq!(whisper_version_of("whisper 1.5.4\nmore", ""), Some("whisper 1.5.4".to_string()));
    assert_eq!(whisper_version_of("", "  v2  \n"), Some("v2".to_string()));
    assert_eq!(whisper_version_of("error: bad flag", ""), None);
    assert_eq!(whisper_version_of("", "unknown argument: --version"), None);
    assert_eq!(whisper_version_of("", ""), None);
    let r = whisper_check_result(ProbeOutcome::Ran, Some("v".to_string()));
    assert!(r.found);
    assert_eq!(r.status, "found");
    assert_eq!(r.version.as_deref(), Some("v"));
    let r = whisper_check_result(ProbeOutcome::NotFound, None);
    assert!(!r.found);
    assert_eq!(r.status, "notFound");
    let r = whisper_check_result(ProbeOutcome::ExecFailed, Some("v".to_string()));
    assert_eq!(r.status, "execFailed");
    assert!(r.version.is_none());
}

#[test]
fn asr_tests() {
    assert!(asr_needs_test("aliyun"));
    assert!(!asr_needs_test("local_whisper"));
    let r = asr_test_result(None);
    assert!(!r.success);
    assert_eq!(r.message, "当前 ASR Provider 无需测试");
    let r = asr_test_result(Some(Ok("ok".to_string())));
    assert!(r.success);
    assert_eq!(r.message, "ok");
}

#[test]
fn funasr_server_plans() {
    match server_plan("ws://remote:1", "", 10095) {
        ServerPlan::External { ws_url } => assert_eq!(ws_url, "ws://remote:1"),
        _ => panic!("expected the external server"),
    }
    match server_plan("", "", 10095) {
        ServerPlan::Launch { exe, port_arg, ws_url } => {
            assert_eq!(exe, "funasr-server");
            assert_eq!(port_arg, "10095");
            assert_eq!(ws_url, "ws://localhost:10095");
        }
        _ => panic!("expected a local server"),
    }
    assert_eq!(server_exe_of("/opt/fs"), "/opt/fs");
    assert_eq!(
        server_missing_message("fs"),
        "FunASR server not found at 'fs'. Install via: pip install funasr-runtime"
    );
}

#[test]
fn funasr_version_checks() {
    assert_eq!(check_funasr_output("x", Some(("1.2.3\n", ""))), Ok("1.2.3".to_string()));
    assert_eq!(check_funasr_output("x", Some(("", "v9\nz"))), Ok("v9".to_string()));
    assert_eq!(check_funasr_output("x", Some(("  \n", ""))), Ok("funasr-server found".to_string()));
    assert_eq!(check_funasr_output("x", Some(("", ""))), Ok("unknown".to_string()));
    assert_eq!(
        check_funasr_output("fs", None),
        Err("funasr-server not found at 'fs'. Install via: pip install funasr-runtime".to_string())
    );
}

#[test]
fn session_decisions() {
    match session_start(true, true) {
        SessionStart::AlreadyRunning(m) => {
            assert_eq!(m, "FunASR session already running. Call stop_funasr_session first.")
        }
        _ => panic!("expected a refusal"),
    }
    assert!(matches!(session_start(false, false), SessionStart::Skip));
    assert!(matches!(session_start(false, true), SessionStart::Start));
    assert_eq!(segment_event_name(true), "asr_final");
    assert_eq!(segment_event_name(false), "asr_partial");
}

#[test]
fn default_settings() {
    let c = AppConfig::default();
    assert_eq!(c.llm_provider.provider_type, "ollama");
    assert_eq!(c.llm_provider.base_url, "http://localhost:11434");
    assert_eq!(c.llm_provider.model, "llama3");
    assert_eq!(c.whisper_model, "base");
    assert_eq!(c.language, "zh");
    assert_eq!(c.funasr_port, 10095);
    assert!(!c.funasr_enabled);
    assert_eq!(default_asr_provider(), "local_whisper");
    assert_eq!(default_funasr_port(), 10095);
    let l = c.llm_config();
    assert_eq!(l.provider, "ollama");
    assert!(l.api_key.is_none());
}

#[test]
fn migrations_pending() {
    assert_eq!(CURRENT_VERSION, 3);
    assert_eq!(pending_migrations(0), vec![1, 2, 3]);
    assert_eq!(pending_migrations(1), vec![2, 3]);
    assert_eq!(pending_migrations(3), Vec::<u32>::new());
    assert!(column_missing(0));
    assert!(!column_missing(1));
}

#[test]
fn retry_start_never_needs_missing_data() {
    assert_eq!(retry_start_stage(4, true, true), 4);
    assert_eq!(retry_start_stage(4, true, false), 2);
    assert_eq!(retry_start_stage(4, false, false), 1);
    assert_eq!(retry_start_stage(2, false, true), 1);
    assert_eq!(retry_start_stage(1, false, false), 1);
    let p = retry_plan(4);
    assert!(!p.run_clean && !p.run_speaker && !p.run_structure);
    assert!(p.run_summary && p.run_actions);
}

fn stored(raw: &str, clean: Option<&str>, organized: Option<&str>, titled: bool) -> StoredRun {
    StoredRun {
        raw_transcript: raw.to_string(),
        clean: clean.map(|s| s.to_string()),
        organized: organized.map(|s| s.to_string()),
        summary: "old summary".to_string(),
        action_items: vec![],
        auto_titled: titled,
    }
}

#[test]
fn retry_from_summary_reuses_stored_text() {
    let mock = MockLlmClient::new(vec!["new summary", "[]", "report", " 标题 "]);
    let mut p = Pipeline::new(mock, prompts()).with_callback(StageLog::new());
    let out = retry_stages(&mut p, &stored("raw", Some("c"), Some("o"), true), 4, &CountingCodec);
    assert_eq!(out.start, 4);
    assert!(out.failed.is_none());
    assert!(out.clean.is_none() && out.organized.is_none() && out.structure.is_none());
    assert_eq!(out.summary.as_deref(), Some("new summary"));
    assert_eq!(out.action_items.as_ref().map(|v| v.len()), Some(1));
    assert_eq!(out.report.as_deref(), Some("report"));
    assert_eq!(out.title.as_deref(), Some("标题"));
}

#[test]
fn retry_falls_back_to_cleaning_when_data_is_missing() {
    let mock = MockLlmClient::new(vec!["c", "o", "{}", "s", "[]", "r"]);
    let mut p = Pipeline::new(mock, prompts());
    let out = retry_stages(&mut p, &stored("raw", None, None, false), 5, &CountingCodec);
    assert_eq!(out.start, 1);
    assert_eq!(out.clean.as_deref(), Some("c"));
    assert_eq!(out.organized.as_deref(), Some("o"));
    assert!(out.structure.unwrap().topic.is_none());
    assert_eq!(out.summary.as_deref(), Some("s"));
    assert_eq!(out.report.as_deref(), Some("r"));
    assert!(out.title.is_none());
}

#[test]
fn retry_without_transcript_fails_at_stage_one() {
    let mut p = Pipeline::new(MockLlmClient::new(vec!["x"]), prompts());
    let out = retry_stages(&mut p, &stored("", None, None, false), 1, &CountingCodec);
    assert_eq!(out.failed, Some((1, "No transcript available to process".to_string())));
    assert!(out.clean.is_none());
    let mut client = p.into_client();
    assert_eq!(client.complete("q").unwrap(), "x");
}

#[test]
fn retry_stops_at_failing_summary() {
    let set = PromptSet {
        files: prompts().files.into_iter().filter(|f| f.name != "04_summary.txt").collect(),
    };
    let mut p = Pipeline::new(MockLlmClient::new(vec!["reply"]), set);
    let out = retry_stages(&mut p, &stored("raw", Some("c"), Some("o"), true), 3, &CountingCodec);
    assert_eq!(out.failed, Some((4, "Failed to load prompt 04_summary.txt: not found".to_string())));
    assert!(out.structure.is_some());
    assert!(out.summary.is_none() && out.report.is_none() && out.title.is_none());
}

#[test]
fn regenerated_summary_chains_three_stages() {
    let mut p = Pipeline::new(MockLlmClient::new(vec!["c", "o", "the summary"]), prompts());
    assert_eq!(regenerated_summary(&mut p, "words"), Ok("the summary".to_string()));
    let mut p = Pipeline::new(MockLlmClient::new(vec!["c"]), prompts());
    assert_eq!(
        regenerated_summary(&mut p, ""),
        Err("No transcript available to regenerate summary".to_string())
    );
    let mut p = Pipeline::new(MockLlmClient::new(vec![]), prompts());
    assert_eq!(
        regenerated_summary(&mut p, "words"),
        Err("MockLlmClient has no responses configured".to_string())
    );
}

#[test]
fn retry_results_for_the_command() {
    let st = stored("raw", Some("stored clean"), Some("o"), false);
    let mock = MockLlmClient::new(vec!["s", "[]", "r"]);
    let mut p = Pipeline::new(mock, prompts());
    let out = retry_stages(&mut p, &st, 4, &CountingCodec);
    let res = retry_result(&st, &out).unwrap();
    assert_eq!(res.clean_transcript, "stored clean");
    assert_eq!(res.summary, "s");
    assert_eq!(res.report, "r");
    assert!(res.generated_title.is_none());
    let empty = stored("", None, None, false);
    let mut p = Pipeline::new(MockLlmClient::new(vec!["x"]), prompts());
    let out = retry_stages(&mut p, &empty, 1, &CountingCodec);
    match retry_result(&empty, &out) {
        Err((stage, msg)) => {
            assert_eq!(stage, 1);
            assert_eq!(msg, "No transcript available to process");
        }
        Ok(_) => panic!("expected a failure"),
    }
}

/// A codec that reads nothing and cannot write JSON.
struct BrokenCodec;

impl MeetingCodec for BrokenCodec {
    fn parse_structure(&self, _json: &str) -> Result<StructuredMeeting, AppError> {
        Err(AppError::Json("unsupported".to_string()))
    }
    fn parse_action_items(&self, _json: &str) -> Result<Vec<ActionItemRaw>, AppError> {
        Err(AppError::Json("unsupported".to_string()))
    }
    fn action_items_json(&self, _items: &Vec<ActionItemRaw>) -> Result<String, AppError> {
        Err(AppError::Json("cannot write".to_string()))
    }
}

#[test]
fn retry_of_the_report_fails_when_json_cannot_be_written() {
    let mut p = Pipeline::new(MockLlmClient::new(vec!["report"]), prompts());
    let out = retry_stages(&mut p, &stored("raw", Some("c"), Some("o"), false), 6, &BrokenCodec);
    assert_eq!(out.failed, Some((6, "JSON error: cannot write".to_string())));
    assert!(out.report.is_none());
    // The report was never asked for.
    let mut client = p.into_client();
    assert_eq!(client.complete("q").unwrap(), "report");
}

#[test]
fn full_run_refuses_an_empty_transcript() {
    match full_run_input(String::new(), true) {
        Err(m) => assert_eq!(m, "No transcript available to process"),
        Ok(_) => panic!("expected a refusal"),
    }
    let s = full_run_input("a：b".to_string(), true).unwrap();
    assert_eq!(s.raw_transcript, "a：b");
    assert!(s.clean.is_none() && s.organized.is_none());
    assert!(s.summary.is_empty() && s.action_items.is_empty());
    assert!(s.auto_titled);
}

#[test]
fn full_run_from_its_input_asks_every_stage() {
    let s = full_run_input("words".to_string(), false).unwrap();
    let mock = MockLlmClient::new(vec!["c", "o", "{}", "s", "[]", "r", "next"]);
    let mut p = Pipeline::new(mock, prompts());
    let out = retry_stages(&mut p, &s, 1, &CountingCodec);
    assert!(out.failed.is_none());
    assert_eq!(out.report.as_deref(), Some("r"));
    let mut client = p.into_client();
    assert_eq!(client.complete("q").unwrap(), "next");
}

fn event_text(e: &SummaryEvent) -> String {
    match e {
        SummaryEvent::Stage { stage, name } => format!("stage {} {}", stage, name),
        SummaryEvent::Chunk { text } => format!("chunk {}", text),
        SummaryEvent::Done { summary } => format!("done {}", summary),
        SummaryEvent::Error { message } => format!("error {}", message),
    }
}

#[test]
fn summary_events_follow_the_stages() {
    let mut p = Pipeline::new(MockLlmClient::new(vec!["c", "o", "the summary"]), prompts());
    let events: Vec<String> = summary_stream_events(&mut p, "words").iter().map(event_text).collect();
    assert_eq!(
        events,
        vec![
            "stage 1 正在清洗文本...",
            "stage 2 正在整理说话人...",
            "stage 4 正在生成摘要...",
            "chunk the summary",
            "done the summary",
        ]
    );
}

#[test]
fn summary_events_stop_at_the_first_failure() {
    let mut p = Pipeline::new(MockLlmClient::new(vec!["c"]), prompts());
    let events: Vec<String> = summary_stream_events(&mut p, "").iter().map(event_text).collect();
    assert_eq!(events, vec!["error No transcript available"]);
    let set = PromptSet {
        files: prompts().files.into_iter().filter(|f| f.name != "02_speaker.txt").collect(),
    };
    let mut p = Pipeline::new(MockLlmClient::new(vec!["c", "next"]), set);
    let events: Vec<String> = summary_stream_events(&mut p, "words").iter().map(event_text).collect();
    assert_eq!(
        events,
        vec![
            "stage 1 正在清洗文本...",
            "stage 2 正在整理说话人...",
            "error Failed to load prompt 02_speaker.txt: not found",
        ]
    );
    let mut client = p.into_client();
    assert_eq!(client.complete("q").unwrap(), "next");
}
