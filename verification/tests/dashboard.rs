use llama_hud::app::{format_duration, format_eta, App, ConfigEdits, ConfigField, Key, KeyEffect, ServerState};
use llama_hud::config::AppConfig;
use llama_hud::metrics::PrometheusMetrics;
use llama_hud::slot_state::{CompletedTask, SlotPhase};
use llama_hud::slots::{SlotParams, SlotSnapshot};

fn snap(id: u32, task: i64, processing: bool, processed: u64, decoded: u64) -> SlotSnapshot {
    SlotSnapshot {
        id,
        is_processing: processing,
        id_task: task,
        n_prompt_tokens: 10_000,
        n_prompt_tokens_processed: processed,
        n_prompt_tokens_cache: 0,
        n_decoded: decoded,
        n_remain: -1,
        max_tokens: 100,
        n_ctx: 4000,
        params: SlotParams::default(),
    }
}

fn metrics(total: u64) -> PrometheusMetrics {
    PrometheusMetrics {
        prompt_tps_bits: 1.5f64.to_bits(),
        predicted_tps_bits: 2.5f64.to_bits(),
        prompt_tokens_total: total,
        predicted_tokens_total: total + 1,
        n_decode_total: 0,
        n_tokens_max: 0,
        requests_processing: 0,
        requests_deferred: 0,
        n_busy_slots_per_decode_bits: 0,
    }
}

#[test]
fn durations_render() {
    assert_eq!(format_eta(0), "0s");
    assert_eq!(format_eta(42), "42s");
    assert_eq!(format_eta(187), "3m 7s");
    assert_eq!(format_eta(3600), "1h 0m");
    assert_eq!(format_eta(8100), "2h 15m");
    assert_eq!(format_duration(std::time::Duration::from_millis(65_900)), "1m 5s");
}

#[test]
fn phase_labels() {
    assert_eq!(SlotPhase::Idle.label(), "IDLE ");
    assert_eq!(SlotPhase::Prompt.label(), "THINK");
    assert_eq!(SlotPhase::Generation.label(), "WRITE");
    assert_eq!(SlotPhase::Done.label(), "DONE ");
}

#[test]
fn editor_buffers_from_config() {
    let mut c = AppConfig::default();
    c.tmux_session = Some("llm".to_string());
    let e = ConfigEdits::from_config(&c);
    assert_eq!(e.url, "http://127.0.0.1:8080");
    assert_eq!(e.tmux_session, "llm");
    assert_eq!(e.slots_poll_ms, "500");
    assert_eq!(e.metrics_poll_ms, "2000");
    assert_eq!(e.chart_history, "600");
    assert_eq!(e.theme, "default");
    assert_eq!(ConfigEdits::from_config(&AppConfig::default()).tmux_session, "");
}

#[test]
fn new_app_shows_editor_without_config_file() {
    let a = App::new(AppConfig::default(), false);
    assert!(a.show_config);
    assert!(a.running);
    assert!(a.show_stats && a.show_slots && a.show_logs && !a.show_slot_detail);
    assert!(a.server_state == ServerState::Unknown);
    assert_eq!(a.uptime_str(), "N/A");
    let b = App::new(AppConfig::default(), true);
    assert!(!b.show_config);
}

#[test]
fn slots_follow_the_poll() {
    let mut a = App::new(AppConfig::default(), true);
    a.update_slots(vec![snap(2, 0, false, 0, 0), snap(0, 0, false, 0, 0), snap(1, 0, false, 0, 0)]);
    let ids: Vec<u32> = a.slots().iter().map(|s| s.id).collect();
    assert_eq!(ids, vec![0, 1, 2]);
    a.update_slots(vec![snap(1, 0, false, 0, 0)]);
    let ids: Vec<u32> = a.slots().iter().map(|s| s.id).collect();
    assert_eq!(ids, vec![1]);
}

#[test]
fn phases_from_deltas() {
    let mut a = App::new(AppConfig::default(), true);
    a.update_slot_at(snap(0, 5, true, 100, 0), 1_000);
    let s = &a.slots()[0];
    assert_eq!(s.phase, SlotPhase::Prompt);
    assert_eq!(s.progress.num, 100);
    assert_eq!(s.progress.den, 4000);
    assert_eq!(s.prompt_tps_window_start, Some(1_000));
    assert_eq!(s.prompt_tps_window_tokens, 100);
    a.update_slot_at(snap(0, 5, true, 300, 0), 2_000);
    let s = &a.slots()[0];
    assert_eq!(s.prompt_tps_window_tokens, 300);
    assert_eq!(s.prompt_tps_elapsed_nanos, 1_000);
    a.update_slot_at(snap(0, 5, true, 300, 10), 3_000);
    let s = &a.slots()[0];
    assert_eq!(s.phase, SlotPhase::Generation);
    assert_eq!((s.progress.num, s.progress.den), (10, 100));
    assert_eq!(s.prompt_tps_window_start, None);
    assert_eq!(s.gen_tps_window_tokens, 10);
    a.update_slot_at(snap(0, 5, true, 300, 10), 3_500);
    assert_eq!(a.slots()[0].phase, SlotPhase::Idle);
    assert_eq!(a.slots()[0].gen_tps_window_start, None);
    a.update_slot_at(snap(0, 5, false, 300, 10), 4_000);
    assert_eq!(a.slots()[0].phase, SlotPhase::Idle);
    assert_eq!((a.slots()[0].progress.num, a.slots()[0].progress.den), (0, 1));
}

#[test]
fn expected_total_drives_prompt_progress_until_new_task() {
    let mut a = App::new(AppConfig::default(), true);
    a.update_slot_at(snap(3, 7, true, 100, 0), 0);
    a.on_log_line("prompt processing, n_tokens = 100, progress = 0.25".to_string());
    assert_eq!(a.slots()[0].expected_prompt_total, Some(400));
    a.update_slot_at(snap(3, 7, true, 200, 0), 10);
    assert_eq!((a.slots()[0].progress.num, a.slots()[0].progress.den), (200, 400));
    a.update_slot_at(snap(3, 8, true, 10, 0), 20);
    assert_eq!(a.slots()[0].expected_prompt_total, None);
    assert_eq!(a.slots()[0].phase, SlotPhase::Idle);
    assert_eq!(a.logs().len(), 1);
}

#[test]
fn progress_is_capped_at_one() {
    let mut a = App::new(AppConfig::default(), true);
    let mut s = snap(0, 1, true, 5000, 0);
    s.n_ctx = 4000;
    a.update_slot_at(s, 0);
    assert_eq!((a.slots()[0].progress.num, a.slots()[0].progress.den), (1, 1));
}

#[test]
fn selection_cycles_and_follows_removal() {
    let mut a = App::new(AppConfig::default(), true);
    a.update_slots(vec![snap(0, 0, false, 0, 0), snap(1, 0, false, 0, 0), snap(2, 0, false, 0, 0)]);
    a.handle_key(Key::Down);
    assert_eq!(a.selected_slot(), Some(1));
    assert!(a.show_slot_detail);
    a.handle_key(Key::Down);
    a.handle_key(Key::Down);
    assert_eq!(a.selected_slot(), Some(0));
    a.handle_key(Key::Up);
    assert_eq!(a.selected_slot(), Some(2));
    let flagged: Vec<u32> = a.slots().iter().filter(|s| s.selected).map(|s| s.id).collect();
    assert_eq!(flagged, vec![2]);
    a.update_slots(vec![snap(0, 0, false, 0, 0)]);
    assert_eq!(a.selected_slot(), None);
    assert!(!a.show_slot_detail);
}

#[test]
fn detail_toggle_selects_first_slot() {
    let mut a = App::new(AppConfig::default(), true);
    a.update_slots(vec![snap(4, 0, false, 0, 0), snap(9, 0, false, 0, 0)]);
    a.handle_key(Key::Char('3'));
    assert!(a.show_slot_detail);
    assert_eq!(a.selected_slot(), Some(4));
    a.handle_key(Key::Char('3'));
    assert!(!a.show_slot_detail);
}

#[test]
fn view_toggles_and_quit() {
    let mut a = App::new(AppConfig::default(), true);
    a.handle_key(Key::Char('1'));
    assert!(!a.show_stats);
    a.handle_key(Key::Char('2'));
    assert!(!a.show_slots);
    a.handle_key(Key::Char('4'));
    assert!(!a.show_logs);
    a.handle_key(Key::Char('1'));
    assert!(a.show_stats);
    a.handle_key(Key::Char('Q'));
    assert!(!a.running);
}

#[test]
fn editor_saves_parsed_values() {
    let mut a = App::new(AppConfig::default(), true);
    a.update_slots(vec![snap(0, 0, false, 0, 0)]);
    a.handle_key(Key::Down);
    assert_eq!(a.handle_key(Key::Esc), KeyEffect::Nothing);
    assert!(a.show_config);
    assert_eq!(a.selected_slot(), None);
    for _ in 0..22 {
        a.handle_key(Key::Backspace);
    }
    for c in "http://h:9/".chars() {
        a.handle_key(Key::Char(c));
    }
    a.handle_key(Key::Tab);
    assert_eq!(a.config_field, ConfigField::TmuxSession);
    for c in "main".chars() {
        a.handle_key(Key::Char(c));
    }
    a.handle_key(Key::Down);
    a.handle_key(Key::Backspace);
    a.handle_key(Key::Char('x'));
    a.handle_key(Key::Down);
    a.handle_key(Key::Backspace);
    a.handle_key(Key::Down);
    a.handle_key(Key::Backspace);
    a.handle_key(Key::Char('5'));
    a.handle_key(Key::Down);
    a.handle_key(Key::Right);
    assert_eq!(a.config_edits.theme, "nord");
    assert_eq!(a.theme, "nord");
    assert_eq!(a.handle_key(Key::Enter), KeyEffect::SaveConfig { url_changed: true });
    assert!(!a.show_config);
    assert_eq!(a.config.url, "http://h:9/");
    assert_eq!(a.config.base_url(), "http://h:9");
    assert_eq!(a.config.tmux_session.as_deref(), Some("main"));
    assert_eq!(a.config.slots_poll_ms, 500);
    assert_eq!(a.config.metrics_poll_ms, 200);
    assert_eq!(a.config.chart_history, 605);
    assert_eq!(a.config.theme, "nord");
}

#[test]
fn editor_q_discards_and_restores_theme() {
    let mut a = App::new(AppConfig::default(), false);
    a.config_field = ConfigField::Theme;
    a.handle_key(Key::Left);
    assert_eq!(a.theme, "flexoki");
    a.handle_key(Key::Char('q'));
    assert!(!a.show_config);
    assert_eq!(a.theme, "default");
    assert_eq!(a.config.theme, "default");
    assert!(a.running);
}

#[test]
fn esc_then_enter_keeps_config() {
    let mut a = App::new(AppConfig::default(), true);
    a.handle_key(Key::Esc);
    assert_eq!(a.handle_key(Key::Enter), KeyEffect::SaveConfig { url_changed: false });
    assert_eq!(a.config.url, "http://127.0.0.1:8080");
    assert_eq!(a.config.slots_poll_ms, 500);
    assert_eq!(a.config.metrics_poll_ms, 2000);
    assert_eq!(a.config.chart_history, 600);
}

#[test]
fn repeated_log_lines_fold() {
    let mut a = App::new(AppConfig::default(), true);
    a.add_log("10:00 hello".to_string());
    a.add_log("10:01 hello".to_string());
    a.add_log("10:02 hello ".to_string());
    let logs: Vec<String> = a.logs().iter().cloned().collect();
    assert_eq!(logs, vec!["10:00 hello  (×3)".to_string()]);
    a.add_log("10:03 other".to_string());
    a.add_log("10:04 third".to_string());
    let logs: Vec<String> = a.logs().iter().cloned().collect();
    assert_eq!(logs, vec!["10:00 hello  (×3)".to_string(), "10:03 other".to_string(), "10:04 third".to_string()]);
}

#[test]
fn log_buffer_is_bounded() {
    let mut a = App::new(AppConfig::default(), true);
    for i in 0..1005 {
        a.add_log(format!("t line {}", i));
    }
    assert_eq!(a.logs().len(), 1000);
    assert_eq!(a.logs().front().unwrap(), "t line 5");
}

#[test]
fn histories_keep_chart_history_values() {
    let mut c = AppConfig::default();
    c.chart_history = 3;
    let mut a = App::new(c, true);
    for i in 0..5 {
        a.update_prometheus_at(metrics(i), i * 10);
    }
    let h: Vec<u64> = a.prompt_tokens_total_history.iter().copied().collect();
    assert_eq!(h, vec![2, 3, 4]);
    let g: Vec<u64> = a.predicted_tokens_total_history.iter().copied().collect();
    assert_eq!(g, vec![3, 4, 5]);
    assert_eq!(f64::from_bits(*a.prompt_tps_history.back().unwrap()), 1.5);
    assert_eq!(a.last_metrics_time, Some(40));
    assert_eq!(a.prometheus.unwrap().prompt_tokens_total, 4);
}

#[test]
fn errors_clear_after_three_clean_ticks() {
    let mut a = App::new(AppConfig::default(), true);
    let c = a.settle_errors(vec!["down".to_string(), String::new()], false, false, 5);
    assert_eq!(c, 0);
    assert_eq!(a.error_message.as_deref(), Some("down"));
    let c = a.settle_errors(vec![], true, true, c);
    let c = a.settle_errors(vec![String::new()], true, true, c);
    assert_eq!(a.error_message.as_deref(), Some("down"));
    let c = a.settle_errors(vec![], true, true, c);
    assert_eq!(c, 3);
    assert_eq!(a.error_message, None);
    let c = a.settle_errors(vec!["again".to_string()], true, true, c);
    assert_eq!(c, 1);
    assert_eq!(a.error_message.as_deref(), Some("again"));
}

#[test]
fn server_seen_once() {
    let mut a = App::new(AppConfig::default(), true);
    a.mark_server_seen_at(5_000_000_000);
    assert!(a.server_state == ServerState::Running);
    assert_eq!(a.start_time, Some(5_000_000_000));
    a.mark_server_seen_at(9_000_000_000);
    assert_eq!(a.start_time, Some(5_000_000_000));
    assert_eq!(a.uptime_str_at(5_000_000_000 + 125_000_000_000), "2m 5s");
}

#[test]
fn model_name_set_once() {
    let mut a = App::new(AppConfig::default(), true);
    a.offer_model_name(String::new());
    assert_eq!(a.model_name, "");
    a.offer_model_name("qwen".to_string());
    a.offer_model_name("other".to_string());
    assert_eq!(a.model_name, "qwen");
}

#[test]
fn expected_total_ignored_without_prompt_slot() {
    let mut a = App::new(AppConfig::default(), true);
    a.update_slot_at(snap(1, 1, false, 0, 0), 0);
    a.apply_expected_total(7, 10);
    a.on_log_line("prompt processing, n_tokens = 100, progress = 0.5".to_string());
    assert_eq!(a.slots()[0].expected_prompt_total, None);
    a.apply_expected_total(1, 10);
    assert_eq!(a.slots()[0].expected_prompt_total, Some(10));
}

#[test]
fn new_task_records_last_task() {
    let mut a = App::new(AppConfig::default(), true);
    a.update_slot_at(snap(1, 0, false, 0, 0), 100);
    assert_eq!(a.slots()[0].current_task_start, None);
    a.update_slot_at(snap(1, 4, true, 500, 0), 1_000);
    assert_eq!(a.slots()[0].current_task_start, Some(1_000));
    assert_eq!(a.slots()[0].last_task, None);
    a.update_slot_at(snap(1, 4, true, 500, 30), 2_000);
    assert_eq!(a.slots()[0].phase, SlotPhase::Generation);
    a.update_slot_at(snap(1, 4, true, 500, 42), 5_000);
    a.update_slot_at(snap(1, 9, true, 20, 3), 9_000);
    let s = &a.slots()[0];
    assert_eq!(
        s.last_task,
        Some(CompletedTask { n_prompt_tokens: 10_000, n_decoded: 42, duration_nanos: 8_000 })
    );
    assert_eq!(s.current_task_start, Some(9_000));
    a.update_slot_at(snap(1, 9, true, 40, 3), 9_500);
    assert_eq!(a.slots()[0].phase, SlotPhase::Prompt);
    assert_eq!(a.slots()[0].last_task.map(|t| t.n_decoded), Some(42));
}
