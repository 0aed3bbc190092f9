use memo_ai::asr::aliyun::{
    error_body_excerpt, flash_result_segments, test_connection, token_id, url_encode, AliyunAsr, FlashResult,
    FlashSentence,
};
use memo_ai::asr::funasr::{
    batch_step, smart_merge, AudioAction, AudioMsg, BatchAction, FunAsrBatchProvider,
    FunAsrResponse, ReadAction, ReadEvent, StreamLoop,
};
use memo_ai::asr::provider::{build_asr, AsrChoice};
use memo_ai::asr::qwen3asr::{
    asr_text_of, chunk_ranges, chunk_segments, split_samples, Qwen3AsrProvider, WavFormat,
};
use memo_ai::asr::streaming::StreamingSegment;
use memo_ai::asr::transcript::TranscriptSegment;
use memo_ai::asr::whisper::{stub_transcript, whisper_exit_error, WhisperAsr};
use memo_ai::commands::config::AppConfig;
use memo_ai::error::AppError;

fn response(mode: Option<&str>, text: Option<&str>, is_final: bool, ts: Option<Vec<(u32, u32)>>) -> FunAsrResponse {
    FunAsrResponse {
        mode: mode.map(|s| s.to_string()),
        text: text.map(|s| s.to_string()),
        is_final,
        timestamp: ts,
    }
}

fn seg(start: u64, end: u64, text: &str) -> TranscriptSegment {
    TranscriptSegment { start_ms: start, end_ms: end, text: text.to_string(), speaker: None }
}

#[test]
fn url_encoding_keeps_unreserved_characters() {
    assert_eq!(url_encode("abc-_.~XYZ09"), "abc-_.~XYZ09");
    assert_eq!(url_encode("a b&c=d"), "a%20b%26c%3Dd");
    assert_eq!(url_encode("\n"), "%0A");
    assert_eq!(url_encode("中文"), "中文");
    assert_eq!(url_encode("€"), "%20AC");
}

#[test]
fn aliyun_flash_url() {
    let a = AliyunAsr::new("key 1", "id", "secret", "zh");
    assert_eq!(
        a.flash_url("wav"),
        "https://nls-gateway.cn-shanghai.aliyuncs.com/api/v1/recognition/flash?appkey=key%201&format=wav&sample_rate=16000"
    );
    assert_eq!(a.app_key_str(), "key 1");
    assert_eq!(a.access_key_id_str(), "id");
    assert_eq!(a.access_key_secret_str(), "secret");
}

#[test]
fn aliyun_tokens() {
    assert_eq!(test_connection(Ok("t".to_string())), Ok("阿里云 ASR 鉴权成功".to_string()));
    assert_eq!(
        test_connection(Err(AppError::Asr("bad".to_string()))),
        Err("ASR error: bad".to_string())
    );
    assert_eq!(token_id(Some("tok".to_string())).unwrap(), "tok");
    match token_id(None) {
        Err(AppError::Asr(m)) => assert_eq!(m, "Aliyun token response missing Token field"),
        _ => panic!("expected an error"),
    }
}

#[test]
fn aliyun_flash_results() {
    let ok = FlashResult {
        flash_result: Some(vec![
            FlashSentence { text: " 你好 ".to_string(), begin_time: Some(10), end_time: Some(900) },
            FlashSentence { text: "再见".to_string(), begin_time: None, end_time: None },
        ]),
        status: Some(20000000),
        message: None,
    };
    let segs = flash_result_segments(&ok).unwrap();
    assert_eq!(segs.len(), 2);
    assert_eq!((segs[0].start_ms, segs[0].end_ms, segs[0].text.as_str()), (10, 900, "你好"));
    assert_eq!((segs[1].start_ms, segs[1].end_ms), (0, 0));
    let bad = FlashResult { flash_result: None, status: Some(40000001), message: Some("denied".to_string()) };
    match flash_result_segments(&bad) {
        Err(AppError::Asr(m)) => assert_eq!(m, "Aliyun ASR failed (status 40000001): denied"),
        _ => panic!("expected an error"),
    }
    let none = FlashResult { flash_result: None, status: None, message: None };
    assert!(flash_result_segments(&none).unwrap().is_empty());
}

#[test]
fn stream_loop_audio_decisions() {
    let mut l = StreamLoop::new();
    match l.on_audio(AudioMsg::Chunk(vec![1, 2])) {
        AudioAction::SendBinary(b) => assert_eq!(b, vec![1, 2]),
        _ => panic!("expected a send"),
    }
    assert!(!l.should_pause());
    assert!(matches!(l.on_audio(AudioMsg::End), AudioAction::SendEnd));
    assert!(l.should_pause());
    assert!(matches!(l.on_audio(AudioMsg::Empty), AudioAction::Idle));
    assert!(matches!(l.on_audio(AudioMsg::Disconnected), AudioAction::Stop));
}

#[test]
fn stream_loop_numbers_results() {
    let mut l = StreamLoop::new();
    let ev = ReadEvent::Text(Some(response(Some("2pass-online"), Some(" 你好 "), false, None)));
    match l.on_read(ev) {
        ReadAction::Emit(s) => {
            assert_eq!(s.text, "你好");
            assert!(!s.is_final);
            assert_eq!(s.segment_id, 0);
            assert_eq!(s.start_ms, None);
        }
        _ => panic!("expected a result"),
    }
    let ev = ReadEvent::Text(Some(response(Some("2pass-offline"), Some("好的"), false, Some(vec![(100, 200), (300, 450)]))));
    match l.on_read(ev) {
        ReadAction::Emit(s) => {
            assert!(s.is_final);
            assert_eq!(s.segment_id, 1);
            assert_eq!((s.start_ms, s.end_ms), (Some(100), Some(450)));
        }
        _ => panic!("expected a result"),
    }
    assert_eq!(l.segment_counter, 2);
    assert!(matches!(l.on_read(ReadEvent::Text(Some(response(None, Some("  "), true, None)))), ReadAction::Continue));
    assert!(matches!(l.on_read(ReadEvent::TimedOut), ReadAction::Continue));
    assert!(matches!(l.on_read(ReadEvent::Closed), ReadAction::Stop));
    assert!(matches!(l.on_read(ReadEvent::Failed("x".to_string())), ReadAction::Stop));
    assert_eq!(l.segment_counter, 2);
}

#[test]
fn batch_steps_collect_until_final() {
    let mut segs = Vec::new();
    let a = batch_step(ReadEvent::Text(Some(response(Some("offline"), Some("全部"), false, Some(vec![(0, 5), (6, 900)])))), &mut segs);
    assert!(matches!(a, BatchAction::Done));
    assert_eq!(segs.len(), 1);
    assert_eq!((segs[0].start_ms, segs[0].end_ms), (0, 900));
    let a = batch_step(ReadEvent::Text(Some(response(Some("online"), Some("部分"), false, None))), &mut segs);
    assert!(matches!(a, BatchAction::Continue));
    assert_eq!((segs[1].start_ms, segs[1].end_ms), (0, 0));
    match batch_step(ReadEvent::Failed("reset".to_string()), &mut segs) {
        BatchAction::Fail(AppError::Asr(m)) => assert_eq!(m, "FunASR batch read error: reset"),
        _ => panic!("expected a failure"),
    }
    assert!(matches!(batch_step(ReadEvent::Closed, &mut segs), BatchAction::Done));
    assert_eq!(segs.len(), 2);
    assert_eq!(FunAsrBatchProvider::new("ws://h:1").ws_url(), "ws://h:1");
}

#[test]
fn smart_merge_prefers_batch_results() {
    let batch = vec![seg(0, 10, "batch")];
    let streaming = vec![StreamingSegment { text: "s".to_string(), is_final: true, segment_id: 0, start_ms: Some(1), end_ms: Some(2) }];
    let merged = smart_merge(&batch, &streaming);
    assert_eq!(merged.len(), 1);
    assert_eq!(merged[0].text, "batch");
    let streaming = vec![
        StreamingSegment { text: "partial".to_string(), is_final: false, segment_id: 0, start_ms: None, end_ms: None },
        StreamingSegment { text: "final".to_string(), is_final: true, segment_id: 1, start_ms: Some(5), end_ms: None },
    ];
    let merged = smart_merge(&[], &streaming);
    assert_eq!(merged.len(), 1);
    assert_eq!((merged[0].start_ms, merged[0].end_ms, merged[0].text.as_str()), (5, 0, "final"));
}

#[test]
fn qwen3_reply_text_and_urls() {
    assert_eq!(asr_text_of("language Chinese<asr_text> 你好 "), "你好");
    assert_eq!(asr_text_of("  plain  "), "plain");
    let q = Qwen3AsrProvider::new("http://h:8000//");
    assert_eq!(q.api_url(), "http://h:8000");
    assert_eq!(q.transcriptions_url(), "http://h:8000/v1/audio/transcriptions");
}

#[test]
fn qwen3_chunking() {
    assert_eq!(chunk_ranges(10, 4), vec![(0, 4), (4, 8), (8, 10)]);
    assert_eq!(chunk_ranges(8, 4), vec![(0, 4), (4, 8)]);
    assert!(chunk_ranges(0, 4).is_empty());
    let fmt = WavFormat { channels: 1, sample_rate: 4, bits_per_sample: 16, float_format: false };
    let samples: Vec<i32> = (0..10).collect();
    let (chunks, total_ms) = split_samples(fmt, &samples, 1).unwrap();
    assert_eq!(total_ms, 2500);
    assert_eq!(chunks.len(), 3);
    assert_eq!(chunks[0].len(), 44 + 8);
    assert_eq!(chunks[2].len(), 44 + 4);
    assert_eq!(&chunks[0][0..4], b"RIFF");
}

#[test]
fn qwen3_chunk_segments() {
    let results = vec![Ok("一".to_string()), Err(AppError::Asr("x".to_string())), Ok(String::new()), Ok("四".to_string())];
    let segs = chunk_segments(results, 100_000, 30).unwrap();
    assert_eq!(segs.len(), 2);
    assert_eq!((segs[0].start_ms, segs[0].end_ms), (0, 30_000));
    assert_eq!((segs[1].start_ms, segs[1].end_ms, segs[1].text.as_str()), (90_000, 100_000, "四"));
    match chunk_segments(vec![Ok(String::new())], 10, 30) {
        Err(AppError::Asr(m)) => assert_eq!(m, "Qwen3-ASR: all chunks returned empty or failed"),
        _ => panic!("expected an error"),
    }
}

#[test]
fn whisper_invocation() {
    let w = WhisperAsr::new("/m/ggml-base.bin", "zh");
    assert_eq!(w.program(), "whisper");
    assert_eq!(
        w.args("/a.wav"),
        vec!["/a.wav", "--model", "/m/ggml-base.bin", "--language", "zh", "--output_format", "json"]
    );
    let s = stub_transcript();
    assert_eq!(s.len(), 1);
    assert_eq!(s[0].text, "[ASR stub: whisper model not loaded]");
    match whisper_exit_error("boom") {
        AppError::Asr(m) => assert_eq!(m, "whisper exited with error: boom"),
        _ => panic!("expected an ASR error"),
    }
}

#[test]
fn provider_choice_follows_settings() {
    let mut c = AppConfig::default();
    c.whisper_model_dir = "/models".to_string();
    match build_asr(&c) {
        AsrChoice::Whisper(w) => {
            assert_eq!(w.program(), "whisper-cli");
            assert_eq!(w.args("x")[2], "/models/ggml-base.bin");
        }
        _ => panic!("expected whisper"),
    }
    c.asr_provider = "aliyun".to_string();
    c.aliyun_asr_app_key = "k".to_string();
    match build_asr(&c) {
        AsrChoice::Aliyun(a) => assert_eq!(a.app_key_str(), "k"),
        _ => panic!("expected aliyun"),
    }
}

#[test]
fn error_bodies_are_cut_at_200_bytes() {
    let long = "x".repeat(250);
    assert_eq!(error_body_excerpt(&long), "x".repeat(200));
    assert_eq!(error_body_excerpt("short body"), "short body");
    let exact = "y".repeat(200);
    assert_eq!(error_body_excerpt(&exact), exact);
    // 100 two-byte characters are exactly 200 bytes.
    let wide = "é".repeat(120);
    assert_eq!(error_body_excerpt(&wide), "é".repeat(100));
}
