use memo_ai::error::AppError;
use memo_ai::llm::client::LlmClient;
use memo_ai::llm::mock_client::MockLlmClient;
use memo_ai::llm::pipeline::{
    clean_notice_of, preview_of, ActionItemRaw, MeetingCodec, Pipeline, PromptFile, PromptSet,
    StageLog, StructuredMeeting,
};
use memo_ai::llm::template::{extract_json, fill_template, strip_fences};

/// Reads and writes the pipeline's JSON with serde_json.
struct JsonCodec;

fn string_list(v: &serde_json::Value, key: &str) -> Result<Vec<String>, AppError> {
    let arr = v
        .get(key)
        .and_then(|x| x.as_array())
        .ok_or_else(|| AppError::Json(format!("missing field `{}`", key)))?;
    let mut out = Vec::new();
    for item in arr {
        match item.as_str() {
            Some(s) => out.push(s.to_string()),
            None => return Err(AppError::Json("expected a string".to_string())),
        }
    }
    Ok(out)
}

fn opt_string(v: &serde_json::Value, key: &str) -> Option<String> {
    v.get(key).and_then(|x| x.as_str()).map(|s| s.to_string())
}

impl MeetingCodec for JsonCodec {
    fn parse_structure(&self, json: &str) -> Result<StructuredMeeting, AppError> {
        let v: serde_json::Value =
            serde_json::from_str(json).map_err(|e| AppError::Json(e.to_string()))?;
        if !v.is_object() {
            return Err(AppError::Json("expected an object".to_string()));
        }
        Ok(StructuredMeeting {
            topic: opt_string(&v, "topic"),
            participants: string_list(&v, "participants")?,
            key_points: string_list(&v, "key_points")?,
            decisions: string_list(&v, "decisions")?,
            risks: string_list(&v, "risks")?,
        })
    }

    fn parse_action_items(&self, json: &str) -> Result<Vec<ActionItemRaw>, AppError> {
        let v: serde_json::Value =
            serde_json::from_str(json).map_err(|e| AppError::Json(e.to_string()))?;
        let arr = v.as_array().ok_or_else(|| AppError::Json("expected an array".to_string()))?;
        let mut out = Vec::new();
        for item in arr {
            let task = opt_string(item, "task")
                .ok_or_else(|| AppError::Json("missing field `task`".to_string()))?;
            out.push(ActionItemRaw {
                task,
                owner: opt_string(item, "owner"),
                deadline: opt_string(item, "deadline"),
            });
        }
        Ok(out)
    }

    fn action_items_json(&self, items: &Vec<ActionItemRaw>) -> Result<String, AppError> {
        let arr: Vec<serde_json::Value> = items
            .iter()
            .map(|a| {
                let mut m = serde_json::Map::new();
                m.insert("task".to_string(), serde_json::Value::String(a.task.clone()));
                m.insert(
                    "owner".to_string(),
                    a.owner.clone().map(serde_json::Value::String).unwrap_or(serde_json::Value::Null),
                );
                m.insert(
                    "deadline".to_string(),
                    a.deadline.clone().map(serde_json::Value::String).unwrap_or(serde_json::Value::Null),
                );
                serde_json::Value::Object(m)
            })
            .collect();
        serde_json::to_string(&arr).map_err(|e| AppError::Json(e.to_string()))
    }
}

fn file(name: &str, text: &str) -> PromptFile {
    PromptFile { name: name.to_string(), text: Ok(text.to_string()) }
}

fn prompts() -> PromptSet {
    PromptSet {
        files: vec![
            file("01_clean.txt", "clean: {{transcript}}"),
            file("02_speaker.txt", "speakers: {{transcript}}"),
            file("03_structure.txt", "structure: {{meeting_text}}"),
            file("04_summary.txt", "summary: {{meeting_text}}"),
            file("05_actions.txt", "actions: {{meeting_text}}"),
            file("06_report.txt", "report: {{summary}} / {{actions}}"),
            file("07_title.txt", "title: {{summary}}"),
        ],
    }
}

#[test]
fn test_stage3_returns_empty_struct_on_invalid_json() {
    let mock = MockLlmClient::new(vec!["this is not json"]);
    let mut pipeline = Pipeline::new(mock, prompts());
    let result = pipeline.stage3_structure("任意输入", &JsonCodec);
    assert!(result.participants.is_empty());
    assert!(result.topic.is_none());
}

#[test]
fn test_stage3_parses_valid_json() {
    let json = r#"{
            "topic": "缓存方案评审",
            "participants": ["张三", "李四"],
            "key_points": ["采用 Redis"],
            "decisions": ["使用 Redis 集群"],
            "risks": []
        }"#;
    let mock = MockLlmClient::with_json(json);
    let mut pipeline = Pipeline::new(mock, prompts());
    let result = pipeline.stage3_structure("输入文本", &JsonCodec);
    assert_eq!(result.topic.as_deref(), Some("缓存方案评审"));
    assert_eq!(result.participants.len(), 2);
}

#[test]
fn test_stage5_returns_empty_vec_on_invalid_json() {
    let mock = MockLlmClient::new(vec!["not json"]);
    let mut pipeline = Pipeline::new(mock, prompts());
    let result = pipeline.stage5_actions("输入文本", &JsonCodec);
    assert!(result.is_empty());
}

#[test]
fn test_stage5_parses_action_items() {
    let json = r#"[
            {"task": "方案细化", "owner": "李四", "deadline": "下周五"},
            {"task": "压测", "owner": "王五", "deadline": "周三"}
        ]"#;
    let mock = MockLlmClient::with_json(json);
    let mut pipeline = Pipeline::new(mock, prompts());
    let result = pipeline.stage5_actions("输入文本", &JsonCodec);
    assert_eq!(result.len(), 2);
    assert_eq!(result[0].task, "方案细化");
    assert_eq!(result[0].owner.as_deref(), Some("李四"));
}

#[test]
fn test_extract_json_strips_markdown_fence() {
    let input = "```json\n{\"key\":\"value\"}\n```";
    assert_eq!(extract_json(input), "{\"key\":\"value\"}");
}

#[test]
fn test_extract_json_passthrough_plain() {
    let input = r#"{"key":"value"}"#;
    assert_eq!(extract_json(input), r#"{"key":"value"}"#);
}

#[test]
fn extract_json_trims_and_keeps_unclosed_fence() {
    assert_eq!(extract_json("  {\"a\":1}  \n"), "{\"a\":1}");
    assert_eq!(extract_json("```json\n{\"a\":1}"), "```json\n{\"a\":1}");
    assert_eq!(extract_json("text ```\n[1, 2]\n``` more"), "[1, 2]");
    assert_eq!(strip_fences("```[1]```"), "[1]");
}

#[test]
fn fill_template_replaces_every_placeholder() {
    assert_eq!(fill_template("a {{x}} b {{x}}", "x", "1"), "a 1 b 1");
    assert_eq!(fill_template("no placeholder", "x", "1"), "no placeholder");
    assert_eq!(fill_template("{{y}} {{x}}", "x", "{{y}}"), "{{y}} {{y}}");
}

#[test]
fn stage3_without_template_falls_back_without_asking() {
    let mock = MockLlmClient::with_json("{}");
    let mut pipeline = Pipeline::new(mock, PromptSet { files: vec![] });
    let result = pipeline.stage3_structure("x", &JsonCodec);
    assert!(result.topic.is_none());
    assert!(result.decisions.is_empty());
    let mut client = pipeline.into_client();
    // The mock was never asked, so it still starts from its first answer.
    assert_eq!(client.complete("p").unwrap(), "{}");
}

#[test]
fn load_prompt_reports_missing_and_unreadable_files() {
    let set = PromptSet {
        files: vec![PromptFile { name: "04_summary.txt".to_string(), text: Err("denied".to_string()) }],
    };
    let pipeline = Pipeline::new(MockLlmClient::new(vec!["x"]), set);
    match pipeline.load_prompt("04_summary.txt") {
        Err(e) => assert_eq!(e.to_string(), "Failed to load prompt 04_summary.txt: denied"),
        Ok(_) => panic!("expected an error"),
    }
    match pipeline.load_prompt("01_clean.txt") {
        Err(e) => assert_eq!(e.to_string(), "Failed to load prompt 01_clean.txt: not found"),
        Ok(_) => panic!("expected an error"),
    }
}

#[test]
fn stage7_trims_the_title() {
    let mut pipeline = Pipeline::new(MockLlmClient::new(vec!["  周会  \n"]), prompts());
    assert_eq!(pipeline.stage7_title("s").unwrap(), "周会");
}

#[test]
fn run_produces_every_stage_and_reports_progress() {
    let mock = MockLlmClient::new(vec![
        "clean text",
        "organized text",
        r#"{"topic": "评审", "participants": ["张三"], "key_points": [], "decisions": ["上线"], "risks": []}"#,
        "the summary",
        r#"[{"task": "压测", "owner": "王五", "deadline": null}]"#,
        "the report",
        "  标题 ",
    ]);
    let mut pipeline = Pipeline::new(mock, prompts()).with_callback(StageLog::new());
    let out = pipeline.run("raw words", true, &JsonCodec).unwrap();
    assert_eq!(out.clean_transcript, "clean text");
    assert_eq!(out.structure.topic.as_deref(), Some("评审"));
    assert_eq!(out.summary, "the summary");
    assert_eq!(out.action_items.len(), 1);
    assert_eq!(out.action_items[0].owner.as_deref(), Some("王五"));
    assert_eq!(out.report, "the report");
    assert_eq!(out.generated_title.as_deref(), Some("标题"));
    let log = pipeline.into_observer().unwrap();
    let notices: Vec<(u8, &str, &str)> =
        log.entries.iter().map(|n| (n.stage, n.name.as_str(), n.summary.as_str())).collect();
    assert_eq!(
        notices,
        vec![
            (1, "文本清洗", "完成（共 10 字）"),
            (2, "说话人整理", "organized text"),
            (3, "结构化提取", "主题：评审 · 参会 1 人 · 1 项决策"),
            (4, "会议总结", "the summary"),
            (5, "行动项提取", "共 1 项行动"),
            (6, "报告生成", "报告已生成，点击查看"),
        ]
    );
}

#[test]
fn run_without_title_asks_six_times() {
    let mock = MockLlmClient::new(vec!["a", "b", "not json", "c", "not json", "d", "e"]);
    let mut pipeline = Pipeline::new(mock, prompts());
    let out = pipeline.run("raw", false, &JsonCodec).unwrap();
    assert!(out.generated_title.is_none());
    assert!(out.structure.participants.is_empty());
    assert!(out.action_items.is_empty());
    assert_eq!(out.report, "d");
    // The seventh scripted answer is next.
    let mut client = pipeline.into_client();
    assert_eq!(client.complete("p").unwrap(), "e");
}

#[test]
fn run_fails_when_cleaning_template_is_missing() {
    let mut pipeline = Pipeline::new(MockLlmClient::new(vec!["x"]), PromptSet { files: vec![] });
    match pipeline.run("raw", false, &JsonCodec) {
        Err(e) => assert_eq!(e.to_string(), "Failed to load prompt 01_clean.txt: not found"),
        Ok(_) => panic!("expected an error"),
    }
}

#[test]
fn stage_notices() {
    assert_eq!(clean_notice_of("会议"), "完成（共 6 字）");
    assert_eq!(preview_of("abcdef", 3), "abc");
    assert_eq!(preview_of("ab", 3), "ab");
}

#[test]
fn mock_replays_round_robin() {
    let mut mock = MockLlmClient::new(vec!["one", "two"]);
    assert_eq!(mock.complete("a").unwrap(), "one");
    assert_eq!(mock.complete("b").unwrap(), "two");
    assert_eq!(mock.complete("c").unwrap(), "one");
    assert_eq!(mock.provider_name(), "mock");
}

#[test]
fn mock_without_responses_fails() {
    let mut mock = MockLlmClient::new(vec![]);
    match mock.complete("a") {
        Err(AppError::Other(m)) => assert_eq!(m, "MockLlmClient has no responses configured"),
        _ => panic!("expected an error"),
    }
}

/// A client that answers from a script of results and keeps the prompts.
struct ScriptedClient {
    replies: Vec<Result<String, AppError>>,
    prompts: Vec<String>,
}

impl LlmClient for ScriptedClient {
    fn complete(&mut self, prompt: &str) -> Result<String, AppError> {
        let i = self.prompts.len();
        self.prompts.push(prompt.to_string());
        match self.replies.get(i) {
            Some(Ok(s)) => Ok(s.clone()),
            Some(Err(e)) => Err(match e {
                AppError::Llm(m) => AppError::Llm(m.clone()),
                _ => AppError::Other("scripted".to_string()),
            }),
            None => Err(AppError::Other("script ended".to_string())),
        }
    }

    fn provider_name(&self) -> &'static str {
        "scripted"
    }
}

/// A codec that cannot write JSON.
struct NoWriteCodec;

impl MeetingCodec for NoWriteCodec {
    fn parse_structure(&self, json: &str) -> Result<StructuredMeeting, AppError> {
        JsonCodec.parse_structure(json)
    }

    fn parse_action_items(&self, json: &str) -> Result<Vec<ActionItemRaw>, AppError> {
        JsonCodec.parse_action_items(json)
    }

    fn action_items_json(&self, _items: &Vec<ActionItemRaw>) -> Result<String, AppError> {
        Err(AppError::Json("cannot write".to_string()))
    }
}

fn notices_of(log: &StageLog) -> Vec<(u8, String, String)> {
    log.entries.iter().map(|n| (n.stage, n.name.clone(), n.summary.clone())).collect()
}

#[test]
fn run_stops_at_the_failing_summary_stage() {
    let client = ScriptedClient {
        replies: vec![
            Ok("c1".to_string()),
            Ok("o2".to_string()),
            Ok("x".to_string()),
            Err(AppError::Llm("down".to_string())),
            Ok("never".to_string()),
        ],
        prompts: vec![],
    };
    let mut pipeline = Pipeline::new(client, prompts()).with_callback(StageLog::new());
    match pipeline.run("raw", true, &JsonCodec) {
        Err(e) => assert_eq!(e.to_string(), "LLM error: down"),
        Ok(_) => panic!("expected the summary stage to fail"),
    }
    let client = pipeline.into_client();
    assert_eq!(client.prompts, vec!["clean: raw", "speakers: c1", "structure: o2", "summary: o2"]);
}

#[test]
fn run_notices_stop_before_the_failing_stage() {
    let client = ScriptedClient {
        replies: vec![
            Ok("c1".to_string()),
            Ok("o2".to_string()),
            Ok("x".to_string()),
            Err(AppError::Llm("down".to_string())),
        ],
        prompts: vec![],
    };
    let mut pipeline = Pipeline::new(client, prompts()).with_callback(StageLog::new());
    assert!(pipeline.run("raw", false, &JsonCodec).is_err());
    let log = pipeline.into_observer().unwrap();
    assert_eq!(
        notices_of(&log),
        vec![
            (1, "文本清洗".to_string(), "完成（共 2 字）".to_string()),
            (2, "说话人整理".to_string(), "o2".to_string()),
            (3, "结构化提取".to_string(), "主题：未知 · 参会 0 人 · 0 项决策".to_string()),
        ]
    );
}

#[test]
fn run_fails_at_cleaning_without_notices() {
    let client = ScriptedClient { replies: vec![Err(AppError::Llm("busy".to_string()))], prompts: vec![] };
    let mut pipeline = Pipeline::new(client, prompts()).with_callback(StageLog::new());
    match pipeline.run("raw", false, &JsonCodec) {
        Err(e) => assert_eq!(e.to_string(), "LLM error: busy"),
        Ok(_) => panic!("expected the cleaning stage to fail"),
    }
    assert!(pipeline.into_observer().unwrap().entries.is_empty());
}

#[test]
fn run_fails_when_the_action_items_cannot_be_written() {
    let mock = MockLlmClient::new(vec!["c1", "o2", "{bad", "sum4", "[bad", "r6"]);
    let mut pipeline = Pipeline::new(mock, prompts()).with_callback(StageLog::new());
    match pipeline.run("raw", false, &NoWriteCodec) {
        Err(e) => assert_eq!(e.to_string(), "JSON error: cannot write"),
        Ok(_) => panic!("expected the report stage to fail"),
    }
    let log = pipeline.into_observer().unwrap();
    let stages: Vec<u8> = log.entries.iter().map(|n| n.stage).collect();
    assert_eq!(stages, vec![1, 2, 3, 4, 5]);
}

#[test]
fn run_with_unparsable_json_still_succeeds() {
    let mock = MockLlmClient::new(vec!["c1", "o2", "{bad", "sum4", "[bad", "r6", "  t7 "]);
    let mut pipeline = Pipeline::new(mock, prompts()).with_callback(StageLog::new());
    let out = pipeline.run("raw", true, &JsonCodec).unwrap();
    assert_eq!(out.clean_transcript, "c1");
    assert_eq!(out.summary, "sum4");
    assert_eq!(out.report, "r6");
    assert!(out.action_items.is_empty());
    assert!(out.structure.topic.is_none());
    assert!(out.structure.participants.is_empty() && out.structure.decisions.is_empty());
    assert_eq!(out.generated_title.as_deref(), Some("t7"));
    let log = pipeline.into_observer().unwrap();
    assert_eq!(
        notices_of(&log),
        vec![
            (1, "文本清洗".to_string(), "完成（共 2 字）".to_string()),
            (2, "说话人整理".to_string(), "o2".to_string()),
            (3, "结构化提取".to_string(), "主题：未知 · 参会 0 人 · 0 项决策".to_string()),
            (4, "会议总结".to_string(), "sum4".to_string()),
            (5, "行动项提取".to_string(), "共 0 项行动".to_string()),
            (6, "报告生成".to_string(), "报告已生成，点击查看".to_string()),
        ]
    );
}

#[test]
fn stage_methods_do_not_notify_the_observer() {
    let mut plain = Pipeline::new(MockLlmClient::new(vec!["same"]), prompts());
    let mut observed = Pipeline::new(MockLlmClient::new(vec!["same"]), prompts()).with_callback(StageLog::new());
    assert_eq!(plain.stage1_clean("raw").unwrap(), observed.stage1_clean("raw").unwrap());
    assert_eq!(plain.stage4_summary("x").unwrap(), observed.stage4_summary("x").unwrap());
    assert!(observed.into_observer().unwrap().entries.is_empty());
}
