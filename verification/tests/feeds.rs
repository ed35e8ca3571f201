use llama_hud::log_tailer::process_capture;
use llama_hud::metrics::{scan_metrics, N_TOKENS_MAX, PROMPT_TOKENS_SECONDS, PROMPT_TOKENS_TOTAL, REQUESTS_DEFERRED};
use llama_hud::slots::{NextTokenInfo, SlotApiResponse, SlotParams};

#[test]
fn metrics_scan_keeps_last_valid_sample() {
    let body = "# HELP llamacpp:prompt_tokens_total x\n\
                llamacpp:prompt_tokens_total 10\n\
                llamacpp:prompt_tokens_total 20\r\n\
                llamacpp:prompt_tokens_total oops\n\
                llamacpp:n_tokens_max 1e3\n\
                llamacpp:requests_deferred  +Inf \n\
                llamacpp:prompt_tokens_seconds 1 2\n";
    let v = scan_metrics(body);
    assert_eq!(v.len(), 11);
    assert_eq!(v[PROMPT_TOKENS_TOTAL].as_deref(), Some("20"));
    assert_eq!(v[N_TOKENS_MAX].as_deref(), Some("1e3"));
    assert_eq!(v[REQUESTS_DEFERRED].as_deref(), Some("+Inf"));
    assert_eq!(v[PROMPT_TOKENS_SECONDS], None);
}

#[test]
fn metrics_scan_accepts_what_f64_parse_accepts() {
    for value in ["1", "1.", ".5", "-2.5e-3", "NaN", "inf", "-Infinity", "1e", ".", "e5", "1.2.3", "0x10", "+", "5E+2"] {
        let body = format!("llamacpp:n_tokens_max {}", value);
        let v = scan_metrics(&body);
        assert_eq!(v[N_TOKENS_MAX].is_some(), value.parse::<f64>().is_ok(), "value {:?}", value);
    }
}

#[test]
fn capture_resumes_after_last_sent_lines() {
    let (sent, keep) = process_capture(Vec::new(), "a\nb\nc\n");
    assert_eq!(sent, vec!["c"]);
    assert_eq!(keep, vec!["a", "b", "c"]);
    let (sent, keep) = process_capture(keep, "a\nb\n c \n\nd\ne\n");
    assert_eq!(sent, vec!["d", "e"]);
    assert_eq!(keep, vec!["a", "b", "c", "", "d", "e"]);
    let (sent, keep2) = process_capture(keep.clone(), "");
    assert!(sent.is_empty());
    assert_eq!(keep2, keep);
}

#[test]
fn capture_without_anchor_takes_last_tenth() {
    let text: String = (0..20).map(|i| format!("l{}\n", i)).collect();
    let last = vec!["x".to_string(), "y".to_string(), "z".to_string()];
    let (sent, keep) = process_capture(last, &text);
    assert_eq!(sent, vec!["l18", "l19"]);
    assert_eq!(keep.len(), 10);
    assert_eq!(keep[0], "l10");
}

#[test]
fn snapshot_flattening() {
    let r = SlotApiResponse {
        id: 3,
        speculative: None,
        is_processing: true,
        id_task: 9,
        n_prompt_tokens: 10,
        n_prompt_tokens_processed: 8,
        n_prompt_tokens_cache: 2,
        n_ctx: 100,
        params: Some(SlotParams { max_tokens: -5, n_predict: 50, ..SlotParams::default() }),
        next_token: Some(vec![NextTokenInfo { has_next_token: true, n_remain: 4, n_decoded: 6 }]),
    };
    let s = r.to_snapshot();
    assert_eq!((s.id, s.id_task, s.max_tokens, s.n_decoded, s.n_remain), (3, 9, 50, 6, 4));
    let r2 = SlotApiResponse { params: None, next_token: Some(vec![]), ..r };
    let s2 = r2.to_snapshot();
    assert_eq!((s2.max_tokens, s2.n_decoded, s2.n_remain), (0, 0, -1));
    let r3 = SlotApiResponse {
        params: Some(SlotParams { max_tokens: -5, n_predict: -1, ..SlotParams::default() }),
        ..r2
    };
    assert_eq!(r3.to_snapshot().max_tokens, 0);
}

#[test]
fn capture_sends_only_non_empty_lines_and_keeps_ten() {
    let text: String = (0..25).map(|i| if i % 2 == 0 { format!("  \n") } else { format!("m{}\n", i) }).collect();
    let (sent, keep) = process_capture(Vec::new(), &text);
    assert_eq!(sent, vec!["m23"]);
    assert!(sent.iter().all(|l| !l.is_empty()));
    assert_eq!(keep.len(), 10);
    assert_eq!(keep[9], "");
    let (sent, keep) = process_capture(keep, &format!("{}m25\n\nm27\n", text));
    assert_eq!(sent, vec!["m25", "m27"]);
    assert_eq!(keep.len(), 10);
}
