use memo_ai::audio::encoder::{encode_wav, pcm_to_le_bytes};
use memo_ai::audio::wasapi::WasapiLoopback;
use memo_ai::error::AppError;
use memo_ai::eval::cli::parse_args;
use memo_ai::eval::fixture::{
    id_not_after, retain_matching, should_judge, sort_by_id, status, EvalStatus, Fixture,
    FixtureExpected, FixtureInput, FixtureMeta,
};
use memo_ai::eval::grader_code::{failed_run_grade, grade};
use memo_ai::eval::grader_llm::{grade as judge, judge_outcome, judge_prompt};
use memo_ai::llm::client::{
    default_llm_config, endpoint_url, first_choice, ollama_generate_url, openai_chat_url,
    ClientPlan, LlmConfig,
};
use memo_ai::llm::mock_client::MockLlmClient;
use memo_ai::llm::pipeline::{ActionItemRaw, PipelineOutput, StructuredMeeting};
use memo_ai::text::{i64_to_decimal, str_contains, trim_str, u64_to_decimal};

fn fixture(id: &str) -> Fixture {
    Fixture {
        meta: FixtureMeta { id: id.to_string(), scene: "s".to_string(), difficulty: "easy".to_string() },
        input: FixtureInput { raw_transcript: "raw".to_string() },
        expected: expected(vec![], 0, vec![], None),
    }
}

fn expected(kw: Vec<&str>, min: usize, people: Vec<&str>, golden: Option<&str>) -> FixtureExpected {
    FixtureExpected {
        summary_must_contain: kw.into_iter().map(|s| s.to_string()).collect(),
        min_action_items: min,
        required_participants: people.into_iter().map(|s| s.to_string()).collect(),
        golden_summary: golden.map(|s| s.to_string()),
        golden_actions: vec![],
    }
}

fn output(participants: Vec<&str>, summary: &str, n_items: usize, report: &str, clean: &str) -> PipelineOutput {
    PipelineOutput {
        clean_transcript: clean.to_string(),
        structure: StructuredMeeting {
            topic: None,
            participants: participants.into_iter().map(|s| s.to_string()).collect(),
            key_points: vec![],
            decisions: vec![],
            risks: vec![],
        },
        summary: summary.to_string(),
        action_items: (0..n_items)
            .map(|i| ActionItemRaw { task: format!("t{}", i), owner: None, deadline: None })
            .collect(),
        report: report.to_string(),
        generated_title: None,
    }
}

#[test]
fn wav_encoding_layout() {
    let wav = encode_wav(&[1, -1], 16000, 1);
    assert_eq!(wav.len(), 48);
    assert_eq!(&wav[0..4], b"RIFF");
    assert_eq!(&wav[4..8], &[40, 0, 0, 0]);
    assert_eq!(&wav[8..16], b"WAVEfmt ");
    assert_eq!(&wav[24..28], &16000u32.to_le_bytes());
    assert_eq!(&wav[28..32], &32000u32.to_le_bytes());
    assert_eq!(&wav[36..40], b"data");
    assert_eq!(&wav[40..44], &[4, 0, 0, 0]);
    assert_eq!(&wav[44..48], &[1, 0, 0xff, 0xff]);
    assert_eq!(pcm_to_le_bytes(&[0x0102, -2]), vec![2, 1, 0xfe, 0xff]);
    assert!(!WasapiLoopback::is_supported());
}

#[test]
fn decimal_and_text_helpers() {
    assert_eq!(u64_to_decimal(0), "0");
    assert_eq!(u64_to_decimal(18446744073709551615), "18446744073709551615");
    assert_eq!(i64_to_decimal(-9223372036854775808), "-9223372036854775808");
    assert_eq!(trim_str("\t a b \n"), "a b");
    assert!(str_contains("hello", "ll"));
    assert!(str_contains("hello", ""));
    assert!(!str_contains("he", "hello"));
}

#[test]
fn error_texts() {
    assert_eq!(AppError::Llm("x".to_string()).to_string(), "LLM error: x");
    assert_eq!(AppError::Db("x".to_string()).to_string(), "Database error: x");
    assert_eq!(AppError::Other("x".to_string()).to_string(), "x");
}

#[test]
fn llm_endpoints_and_clients() {
    assert_eq!(endpoint_url("http://h:1/", "/x"), "http://h:1/x");
    assert_eq!(ollama_generate_url("http://localhost:11434"), "http://localhost:11434/api/generate");
    assert_eq!(openai_chat_url("https://api/v1//"), "https://api/v1/chat/completions");
    assert_eq!(first_choice(vec!["a".to_string(), "b".to_string()]).unwrap(), "a");
    match first_choice(vec![]) {
        Err(AppError::Llm(m)) => assert_eq!(m, "Empty choices in OpenAI response"),
        _ => panic!("expected an error"),
    }
    let d = default_llm_config();
    assert_eq!((d.provider.as_str(), d.base_url.as_str(), d.model.as_str()), ("ollama", "http://localhost:11434", "llama3"));
    let c = LlmConfig { provider: "openai".to_string(), base_url: "u".to_string(), model: "m".to_string(), api_key: None };
    match c.build_client() {
        ClientPlan::OpenAi { api_key, .. } => assert_eq!(api_key, ""),
        _ => panic!("expected openai"),
    }
    let c = LlmConfig { provider: "other".to_string(), base_url: "u".to_string(), model: "m".to_string(), api_key: None };
    assert!(matches!(c.build_client(), ClientPlan::Ollama { .. }));
}

#[test]
fn code_grade_all_checks_pass() {
    let out = output(vec!["张三（产品）", "李四"], "讨论了 Redis 缓存", 2, "report", "clean");
    let exp = expected(vec!["Redis"], 2, vec!["张三", "李四"], None);
    let g = grade(&out, &exp);
    assert_eq!((g.passed_weight, g.total_weight), (9, 9));
    assert_eq!(g.passed.len(), 6);
    assert!(g.failed.is_empty());
}

#[test]
fn code_grade_reports_failed_checks_in_order() {
    let out = output(vec![], "summary", 0, "  ", "clean");
    let exp = expected(vec!["Redis"], 1, vec!["张三"], None);
    let g = grade(&out, &exp);
    assert_eq!(g.passed_weight, 1);
    assert_eq!(g.passed, vec!["stage1_clean_nonempty"]);
    assert_eq!(
        g.failed,
        vec![
            "stage3_participants_nonempty",
            "stage3_required_participants",
            "stage4_summary_keywords",
            "stage5_min_action_items",
            "stage6_report_nonempty",
        ]
    );
}

#[test]
fn verdicts() {
    assert_eq!(status(5, 9, false), EvalStatus::Fail);
    assert_eq!(status(6, 9, false), EvalStatus::Warn);
    assert_eq!(status(8, 9, false), EvalStatus::Pass);
    assert_eq!(status(9, 9, true), EvalStatus::Warn);
    assert_eq!(status(0, 9, true), EvalStatus::Fail);
    assert_eq!(EvalStatus::Pass.as_str(), "PASS");
    assert!(should_judge(false, 6, 9, &Some("gold".to_string())));
    assert!(!should_judge(true, 9, 9, &Some("gold".to_string())));
    assert!(!should_judge(false, 5, 9, &Some("gold".to_string())));
    assert!(!should_judge(false, 9, 9, &Some(String::new())));
    assert!(!should_judge(false, 9, 9, &None));
}

#[test]
fn fixtures_are_filtered_and_sorted() {
    let v = vec![fixture("tech_review"), fixture("daily"), fixture("tech_plan")];
    let kept = retain_matching(v, "tech");
    let ids: Vec<&str> = kept.iter().map(|f| f.meta.id.as_str()).collect();
    assert_eq!(ids, vec!["tech_review", "tech_plan"]);
    let sorted = sort_by_id(vec![fixture("b"), fixture("a2"), fixture("a"), fixture("Z")]);
    let ids: Vec<&str> = sorted.iter().map(|f| f.meta.id.as_str()).collect();
    assert_eq!(ids, vec!["Z", "a", "a2", "b"]);
    assert!(id_not_after("ab", "abc"));
    assert!(!id_not_after("b", "abc"));
    assert!(id_not_after("é", "ê"));
}

#[test]
fn judge_prompt_and_reply() {
    assert_eq!(
        judge_prompt("G={{golden_summary}} A={{actual_summary}}", "g", "a"),
        "G=g A=a"
    );
    let mut mock = MockLlmClient::new(vec!["```json\n{\"score\": 0.8, \"reason\": \"ok\"}\n```"]);
    let r = judge(&mut mock, "{{golden_summary}}|{{actual_summary}}", "g", "a").unwrap();
    assert_eq!(r.json, "{\"score\": 0.8, \"reason\": \"ok\"}");
    assert!(r.raw.starts_with("```json"));
    let mut empty = MockLlmClient::new(vec![]);
    assert!(judge(&mut empty, "t", "g", "a").is_err());
}

#[test]
fn command_line_options() {
    let args: Vec<String> = ["eval", "--fixture", "tech", "--no-llm-judge", "--config", "c.json", "--bogus", "--output", "r.md"]
        .iter()
        .map(|s| s.to_string())
        .collect();
    let cli = parse_args(&args);
    assert_eq!(cli.fixture_filter.as_deref(), Some("tech"));
    assert!(cli.no_llm_judge);
    assert_eq!(cli.config_path.as_deref(), Some("c.json"));
    assert_eq!(cli.output_path.as_deref(), Some("r.md"));
    let args: Vec<String> = ["eval", "--output"].iter().map(|s| s.to_string()).collect();
    let cli = parse_args(&args);
    assert!(cli.output_path.is_none());
    assert!(!cli.no_llm_judge);
}

#[test]
fn failed_runs_are_graded_as_failures() {
    let (g, reason) = failed_run_grade(&AppError::Llm("down".to_string()));
    assert_eq!((g.passed_weight, g.total_weight), (0, 9));
    assert!(g.passed.is_empty());
    assert_eq!(g.failed, vec!["pipeline_run"]);
    assert_eq!(reason, "Pipeline error: LLM error: down");
    assert_eq!(status(g.passed_weight, g.total_weight, false), EvalStatus::Fail);
}

#[test]
fn judge_outcomes() {
    let r = judge_outcome("p".to_string(), Ok(" ```\n{\"score\": 1}\n``` ".to_string())).unwrap();
    assert_eq!(r.prompt, "p");
    assert_eq!(r.json, "{\"score\": 1}");
    match judge_outcome("p".to_string(), Err(AppError::Llm("down".to_string()))) {
        Err(AppError::Llm(m)) => assert_eq!(m, "down"),
        _ => panic!("expected the client's error"),
    }
}
