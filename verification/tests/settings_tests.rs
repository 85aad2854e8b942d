use jobhunting::crawler::{
    crawl_step, normalize_url, percent_decode, select_crawl_urls, title_blacklist_match, url_hint,
    CrawlAction, CrawlTally, UrlOutcome,
};
use jobhunting::settings::{
    crawl_params, join_unlocked_files, merge_llm_config, parse_profile_frontmatter,
    parse_unlocked_files, scheduler_due, AgentSettings, CrawlActivity, LlmConfigRow, LlmEnv,
    PipelineConfig, SchedulerConfigRow,
};
use jobhunting::provider::Provider;
use jobhunting::views::{
    batch_job_ids, card_kind, escape_html, is_jobstreet_url, manual_job_fields, parse_cv_content,
    CardKind,
};
use jobhunting::json::Json;

#[test]
fn db_known_statuses_are_valid_strings() {
    let statuses = ["new", "scraping", "generating", "pending_approval", "approved", "rejected", "failed"];
    for s in statuses {
        assert!(!s.is_empty(), "status must be non-empty");
        assert!(s.is_ascii(), "status must be ASCII: {s}");
    }
    let unique: std::collections::HashSet<_> = statuses.iter().collect();
    assert_eq!(unique.len(), statuses.len(), "duplicate status entry");
}

#[test]
fn mod_known_statuses_are_valid_strings() {
    let statuses = ["new", "scraping", "pre_screening", "generating", "generated", "failed"];
    for s in statuses {
        assert!(!s.is_empty(), "status must be non-empty");
        assert!(s.is_ascii(), "status must be ASCII: {s}");
    }
    let unique: std::collections::HashSet<_> = statuses.iter().collect();
    assert_eq!(unique.len(), statuses.len(), "duplicate status entry");
}

#[test]
fn defaults_match_the_schema() {
    let a = AgentSettings::default();
    assert_eq!((a.ctx_window, a.max_output, a.wiki_query_max_hops), (1_048_576, 131_072, 10));
    assert_eq!(a.thinking_effort, "high");
    let p = PipelineConfig::default();
    assert_eq!((p.llm_concurrency, p.max_jobs_per_crawl), (2, 30));
    assert!(LlmConfigRow::default().openai_compat);
}

#[test]
fn unlocked_files_round_trip() {
    let files = vec!["index.md".to_string(), "wiki/Rust.md".to_string()];
    let joined = join_unlocked_files(&files);
    assert_eq!(joined, "index.md,wiki/Rust.md");
    assert_eq!(parse_unlocked_files(&joined), files);
    assert_eq!(parse_unlocked_files(" a , ,b,"), vec!["a".to_string(), "b".to_string()]);
}

#[test]
fn prefilters_default_and_parse() {
    let (bl, db) = parse_profile_frontmatter(None);
    assert_eq!(bl.len(), 8);
    assert_eq!(db[0], "mandatory office");
    let content = "---\ntitle_blacklist: \"PHP, 'Sales' ,\"\n---\nbody";
    let (bl2, db2) = parse_profile_frontmatter(Some(content));
    assert_eq!(bl2, vec!["PHP".to_string(), "Sales".to_string()]);
    assert_eq!(db2.len(), 3);
}

#[test]
fn env_fills_an_empty_stored_config() {
    let env = LlmEnv {
        endpoint: "https://api.anthropic.com".into(),
        api_key: "k".into(),
        model: "m".into(),
        provider: None,
        mock: true,
    };
    let c = merge_llm_config(LlmConfigRow::default(), env);
    assert_eq!(c.endpoint, "https://api.anthropic.com");
    assert!(!c.openai_compat);
    assert!(c.mock_llm);
    assert_eq!(c.provider, Provider::Anthropic);
    let row = LlmConfigRow { endpoint: "http://local".into(), api_key: String::new(), model: "x".into(), openai_compat: true, mock: false };
    let env2 = LlmEnv { endpoint: "e".into(), api_key: "k".into(), model: "m".into(), provider: Some("google".into()), mock: true };
    let d = merge_llm_config(row, env2);
    assert_eq!(d.model, "x");
    assert!(!d.mock_llm);
}

#[test]
fn scheduler_timing() {
    assert!(!scheduler_due(0, 1000, 0));
    assert!(scheduler_due(5, 300, 0));
    assert!(!scheduler_due(5, 299, 0));
    assert_eq!(crawl_params(&SchedulerConfigRow { interval_minutes: 1, date_range: -3, max_pages: 2 }), (3, 2));
    let mut a = CrawlActivity::idle();
    a.start();
    a.set(Some(7), "Spawned 1/2: x");
    a.finish();
    assert!(!a.active);
    assert_eq!(a.message, "Spawned 1/2: x");
}

#[test]
fn crawl_urls_and_hints() {
    assert_eq!(percent_decode("senior-backend%20engineer+now"), "senior backend engineer now");
    assert_eq!(percent_decode("100%"), "100%");
    assert_eq!(url_hint("https://id.jobstreet.com/job/123/backend-engineer"), "backend engineer");
    assert_eq!(url_hint("https://x.com/"), "https://x.com/");
    assert_eq!(normalize_url("https://x.com/job/1?tracking=abc"), "https://x.com/job/1");
    let bl = vec!["php".to_string()];
    assert!(title_blacklist_match("Senior PHP Developer", &bl));
    assert!(!title_blacklist_match("Rust Developer", &bl));
    let listings: Vec<(String, String)> = (0..8).map(|i| (format!("Job {i}"), format!("u{i}"))).collect();
    let sel = select_crawl_urls(&listings, &vec!["Job 0".to_string()], 1);
    assert_eq!(sel.found, 8);
    assert_eq!(sel.filtered, 1);
    assert_eq!(sel.urls, vec!["u1", "u2", "u3", "u4", "u5"]);
}

#[test]
fn crawl_loop_steps() {
    let mut t = CrawlTally { spawned: 0, total: 2 };
    assert!(matches!(crawl_step(&mut t, false, UrlOutcome::AlreadyKnown, "u"), CrawlAction::Skip));
    match crawl_step(&mut t, false, UrlOutcome::Created, "https://x/job/data-engineer") {
        CrawlAction::Spawn(m) => assert_eq!(m, "Spawned 1/2: data engineer"),
        _ => panic!("expected spawn"),
    }
    assert!(matches!(crawl_step(&mut t, true, UrlOutcome::Created, "u"), CrawlAction::Stop(m) if m == "Stopped after 1/2 jobs"));
}

#[test]
fn job_pages() {
    assert!(is_jobstreet_url("https://id.jobstreet.com/id/job/123"));
    assert!(!is_jobstreet_url("https://evil.com/?u=id.jobstreet.com"));
    assert!(!is_jobstreet_url("not a url"));
    let ids = batch_job_ids(b"ids=67e55044-10b1-426f-9247-bb680e5fe0c8&ids=bad&x=1");
    assert_eq!(ids, vec![0x67e5504410b1426f9247bb680e5fe0c8u128]);
    assert_eq!(escape_html("a<b & c"), "a&lt;b &amp; c");
    assert_eq!(card_kind("generated"), CardKind::Ready);
    assert_eq!(card_kind(""), CardKind::Removed);
    assert_eq!(card_kind("scraping"), CardKind::Processing);
    assert!(manual_job_fields("  ", "d").is_none());
    assert_eq!(manual_job_fields(" T ", " D "), Some(("T".to_string(), "D".to_string())));
    let cv = Json::Obj(vec![
        ("summary".to_string(), Json::Str("S".to_string())),
        ("skills".to_string(), Json::Arr(vec![Json::Str("Rust".to_string()), Json::PosInt(1)])),
    ]);
    let c = parse_cv_content(&cv);
    assert_eq!(c.summary, "S");
    assert_eq!(c.skills, vec!["Rust".to_string()]);
    assert!(c.experiences.is_empty());
}

#[test]
fn normalized_urls_are_stable() {
    let once = normalize_url("https://x.com/job/1?a=1?b=2");
    assert_eq!(once, "https://x.com/job/1");
    assert_eq!(normalize_url(&once), once);
    assert_eq!(normalize_url("https://x.com/plain"), "https://x.com/plain");
}

#[test]
fn escaped_text_opens_no_tag() {
    let e = escape_html("<script>a && b</script>");
    assert_eq!(e, "&lt;script>a &amp;&amp; b&lt;/script>");
    assert!(!e.contains('<'));
}

#[test]
fn crawl_selection_never_exceeds_five_hundred() {
    let listings: Vec<(String, String)> = (0..700)
        .map(|i| (if i % 7 == 0 { format!("PHP dev {i}") } else { format!("Rust dev {i}") }, format!("u{i}")))
        .collect();
    let sel = select_crawl_urls(&listings, &vec!["php".to_string()], 10_000);
    assert_eq!(sel.urls.len(), 500);
    assert_eq!(sel.found, 700);
    assert_eq!(sel.filtered, 100);
    assert!(sel.urls.iter().all(|u| u[1..].parse::<usize>().unwrap() % 7 != 0));
}

#[test]
fn job_ids_in_every_documented_form() {
    let body = b"ids=67E55044-10B1-426F-9247-BB680E5FE0C8&ids=67e5504410b1426f9247bb680e5fe0c8&ids=%7B67e55044-10b1-426f-9247-bb680e5fe0c8%7D&ids=URN:UUID:67e55044-10b1-426f-9247-bb680e5fe0c8&ids=67e55044_10b1-426f-9247-bb680e5fe0c8&ids=67e55044-10b1-426f-9247-bb680e5fe0cg";
    let v = 0x67e5504410b1426f9247bb680e5fe0c8u128;
    assert_eq!(batch_job_ids(body), vec![v, v, v, v]);
}
