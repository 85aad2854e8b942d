use jobhunting::settings::{agent_settings_update, thinking_effort_options, AgentSettings};
use jobhunting::views::is_read_only_query;

#[test]
fn partial_agent_update_keeps_and_clamps() {
    let current = AgentSettings::default();
    let r = agent_settings_update(current, Some(0), None, Some("low".to_string()), Some(-3), Some(true));
    assert_eq!(r.ctx_window, 1);
    assert_eq!(r.max_output, AgentSettings::default().max_output);
    assert_eq!(r.thinking_effort, "low");
    assert_eq!(r.wiki_query_max_hops, 1);
    assert!(r.wiki_auto_ingest);
    let kept = agent_settings_update(AgentSettings::default(), None, None, None, None, None);
    assert_eq!(kept.ctx_window, AgentSettings::default().ctx_window);
    assert_eq!(kept.thinking_effort, AgentSettings::default().thinking_effort);
}

#[test]
fn only_reading_queries_run() {
    assert!(is_read_only_query("  select * from jobs"));
    assert!(is_read_only_query("WITH x AS (SELECT 1) SELECT * FROM x"));
    assert!(is_read_only_query("\u{17f}elect 1"));
    assert!(!is_read_only_query("DELETE FROM jobs"));
    assert!(!is_read_only_query("  update jobs set status = 'x'"));
    assert!(!is_read_only_query(""));
}

#[test]
fn effort_options_per_provider() {
    let o = thinking_effort_options();
    let names = |path: &[&str]| -> Vec<String> {
        o.pointer(path)
            .and_then(|v| v.as_array())
            .map(|a| a.iter().filter_map(|x| x.as_str().map(|s| s.to_string())).collect())
            .unwrap_or_default()
    };
    assert_eq!(names(&["all"]), vec!["none", "minimal", "low", "medium", "high", "xhigh", "adaptive"]);
    assert_eq!(names(&["providers", "openai"]), vec!["none", "minimal", "low", "medium", "high", "xhigh"]);
    assert_eq!(names(&["providers", "openai-compat"]).len(), 6);
    assert_eq!(names(&["providers", "anthropic"]).last().map(|s| s.as_str()), Some("adaptive"));
    assert_eq!(names(&["providers", "google"]).len(), 7);
}
