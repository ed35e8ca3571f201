use llama_hud::config::{
    default_chart_history, default_metrics_poll_ms, default_slots_poll_ms, default_url, expand_tilde,
    merge_config, AppConfig, CONFIG_FILE,
};

#[test]
fn defaults() {
    let c = AppConfig::default();
    assert_eq!(c.url, "http://127.0.0.1:8080");
    assert_eq!(c.tmux_session, None);
    assert_eq!(c.slots_poll_ms, 500);
    assert_eq!(c.metrics_poll_ms, 2000);
    assert_eq!(c.chart_history, 600);
    assert_eq!(c.theme, "default");
    assert_eq!(default_url(), "http://127.0.0.1:8080");
    assert_eq!(default_slots_poll_ms(), 500);
    assert_eq!(default_metrics_poll_ms(), 2000);
    assert_eq!(default_chart_history(), 600);
}

#[test]
fn base_url_drops_trailing_slashes() {
    let mut c = AppConfig::default();
    c.url = "http://host:1234///".to_string();
    assert_eq!(c.base_url(), "http://host:1234");
    c.url = "http://host:1234".to_string();
    assert_eq!(c.base_url(), "http://host:1234");
    c.url = "///".to_string();
    assert_eq!(c.base_url(), "");
}

#[test]
fn tilde_expansion() {
    assert_eq!(expand_tilde(CONFIG_FILE, Some("/home/u")), "/home/u/.config/llama-hud/config.json");
    assert_eq!(expand_tilde("~/x", Some("/home/u/")), "/home/u/x");
    assert_eq!(expand_tilde("~/x", Some("")), "x");
    assert_eq!(expand_tilde("~//etc", Some("/home/u")), "/etc");
    assert_eq!(expand_tilde("~/x", None), "~/x");
    assert_eq!(expand_tilde("/abs/x", Some("/home/u")), "/abs/x");
    assert_eq!(expand_tilde("~x", Some("/home/u")), "~x");
}

#[test]
fn tilde_expansion_matches_pathbuf_push() {
    for (home, rest) in [("/home/u", "a/b"), ("/home/u/", "a"), ("", "a"), ("/h", "/abs")] {
        let mut p = std::path::PathBuf::from(home);
        p.push(rest);
        let path = format!("~/{}", rest);
        assert_eq!(expand_tilde(&path, Some(home)), p.to_str().unwrap());
    }
}

#[test]
fn command_line_overrides_win() {
    let c = merge_config(AppConfig::default(), Some("http://other".to_string()), Some("sess".to_string()));
    assert_eq!(c.url, "http://other");
    assert_eq!(c.tmux_session.as_deref(), Some("sess"));
    let c = merge_config(AppConfig::default(), None, None);
    assert_eq!(c.url, "http://127.0.0.1:8080");
    assert_eq!(c.tmux_session, None);
}
