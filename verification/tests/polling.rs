use llama_hud::config::AppConfig;
use llama_hud::polling::{poll_error_message, PollFailure, PollerSettings};

#[test]
fn poll_failures_render_messages() {
    assert_eq!(
        poll_error_message(PollFailure::Status("503 Service Unavailable".to_string())),
        "Server returned 503 Service Unavailable"
    );
    assert_eq!(
        poll_error_message(PollFailure::BadBody("expected value".to_string())),
        "Bad response from /slots: expected value"
    );
    assert_eq!(poll_error_message(PollFailure::Connect), "Connection refused — is llama-server running?");
    assert_eq!(poll_error_message(PollFailure::Timeout), "Request timed out");
    assert_eq!(
        poll_error_message(PollFailure::Transport("dns error".to_string())),
        "Cannot reach server: dns error"
    );
}

#[test]
fn settings_changes_pick_restarts() {
    let mut cfg = AppConfig::default();
    let mut settings = PollerSettings::from_config(&cfg);
    let r = settings.update(&cfg);
    assert!(!r.pollers && !r.tailer);

    cfg.metrics_poll_ms = 1000;
    let r = settings.update(&cfg);
    assert!(r.pollers && !r.tailer);
    assert_eq!(settings.metrics_poll_ms, 1000);
    assert!(!settings.update(&cfg).pollers);

    cfg.slots_poll_ms = 250;
    assert!(settings.update(&cfg).pollers);

    cfg.tmux_session = Some("llama".to_string());
    let r = settings.update(&cfg);
    assert!(!r.pollers && r.tailer);
    assert_eq!(settings.tmux_session.as_deref(), Some("llama"));
    assert!(!settings.update(&cfg).tailer);
    cfg.tmux_session = Some("other".to_string());
    assert!(settings.update(&cfg).tailer);
    cfg.tmux_session = None;
    assert!(settings.update(&cfg).tailer);
}
