use jobhunting::ingest::{
    is_safe_node_name, needs_ingest, plan_wiki_tool, select_sources, IngestReport, RawEntry,
    WikiToolPlan,
};
use jobhunting::json::Json;
use jobhunting::lint::{lint_findings, lint_report};
use jobhunting::pipeline::{first_stage, next_stage, Stage, StageEvent};
use jobhunting::pipeline::{
    build_prompt, build_wiki_context, deal_breaker, editor_accepts, loop_status, pipeline_limits,
    pre_screen_result, review_outcome, revision_feedback, should_revise, take_writer_constraints,
};
use jobhunting::wiki_graph::{WikiGraph, WikiNode};

fn s(x: &str) -> Json {
    Json::Str(x.to_string())
}

fn obj(fields: Vec<(&str, Json)>) -> Json {
    Json::Obj(fields.into_iter().map(|(k, v)| (k.to_string(), v)).collect())
}

#[test]
fn build_prompt_contains_context_and_task() {
    let mut map = serde_json::Map::new();
    map.insert("job_description".to_string(), serde_json::Value::String("Engineer role".to_string()));
    map.insert("master_cv".to_string(), serde_json::Value::String("CV text".to_string()));
    let context = serde_json::Value::Object(map);
    let ctx_text = serde_json::to_string_pretty(&context).unwrap_or_default();
    let prompt = build_prompt("Do the thing", &ctx_text);
    assert!(prompt.contains("### CONTEXT"), "missing CONTEXT section");
    assert!(prompt.contains("### TASK"), "missing TASK section");
    assert!(prompt.contains("Do the thing"), "task text not in prompt");
    assert!(prompt.contains("job_description"), "context not serialized into prompt");
}

#[test]
fn lint_report_format() {
    let report = IngestReport {
        sources_processed: 2,
        nodes_created: 3,
        nodes_appended: 1,
        errors: vec!["test error".into()],
    };
    let summary = report.summary();
    assert!(summary.contains("2 sources"));
    assert!(summary.contains("3 created"));
    assert!(summary.contains("1 errors"));
}

#[test]
fn ingest_summary_exact_text() {
    let report = IngestReport::new();
    assert_eq!(report.summary(), "Ingest: 0 sources → 0 created, 0 appended, 0 errors");
}

#[test]
fn needs_ingest_returns_true_when_raw_has_files() {
    let entries: Vec<RawEntry> = Vec::new();
    let result = needs_ingest(&entries, None);
    let _ = result;
}

#[test]
fn sources_are_fresh_markdown_oldest_first() {
    let entries = vec![
        RawEntry { path: "raw/b.md".into(), modified: Some(30) },
        RawEntry { path: "raw/a.md".into(), modified: Some(20) },
        RawEntry { path: "raw/c.txt".into(), modified: Some(40) },
        RawEntry { path: "raw/old.md".into(), modified: Some(5) },
        RawEntry { path: "raw/x.md".into(), modified: None },
    ];
    let picked = select_sources(&entries, Some(10));
    let paths: Vec<&str> = picked.iter().map(|p| p.0.as_str()).collect();
    assert_eq!(paths, vec!["raw/a.md", "raw/b.md"]);
    assert!(needs_ingest(&entries, Some(10)));
    assert!(!needs_ingest(&entries, Some(30)));
}

fn node(title: &str, body: &str, links: Vec<&str>) -> WikiNode {
    WikiNode {
        path: format!("{title}.md"),
        title: title.to_string(),
        summary: String::new(),
        body: body.to_string(),
        links: links.into_iter().map(|l| l.to_string()).collect(),
        frontmatter: vec![("tags".to_string(), "x".to_string())],
        updated_at: None,
    }
}

fn graph() -> WikiGraph {
    WikiGraph {
        nodes: vec![
            ("rust".to_string(), node("Rust", &"r".repeat(120), vec!["Docker"])),
            ("go".to_string(), node("Go", "short", vec![])),
        ],
        index: "[[Rust]]".to_string(),
        raw_dir: String::new(),
        wiki_dir: String::new(),
    }
}

#[test]
fn wiki_tools_answer_from_the_graph() {
    let g = graph();
    let args = obj(vec![("name", s("rust"))]);
    match plan_wiki_tool("read_node", &args, Some(&g)) {
        WikiToolPlan::Reply(Ok(page)) => assert!(page.starts_with("---\ntags: x\n---\n\n")),
        _ => panic!("expected the node"),
    }
    let bad = obj(vec![("name", s("../etc")), ("body", s("x"))]);
    assert!(matches!(plan_wiki_tool("write_node", &bad, Some(&g)), WikiToolPlan::Reply(Err(e)) if e == "Invalid node name: ../etc"));
    assert!(matches!(plan_wiki_tool("read_index", &obj(vec![]), None), WikiToolPlan::ReadIndexFile));
    assert!(matches!(plan_wiki_tool("nope", &obj(vec![]), None), WikiToolPlan::Reply(Err(e)) if e == "Unknown tool: nope"));
    assert!(!is_safe_node_name("a/b"));
}

#[test]
fn lint_finds_orphans_dangling_and_thin_nodes() {
    let g = graph();
    let f = lint_findings(&g);
    assert_eq!(f.len(), 3);
    assert!(f[0].starts_with("## Orphan: Go"));
    assert!(f[1].starts_with("## Dangling link in Rust: [[Docker]]"));
    assert!(f[2].starts_with("## Thin node: Go\n\nBody is only 5 chars."));
    let r = lint_report(&f, "now");
    assert!(r.starts_with("# Wiki Lint Report\n\nGenerated: now\nTotal issues: 3\n\n"));
    assert_eq!(lint_report(&vec![], "now"), "# Wiki Lint Report\n\nNo issues found. The wiki is healthy.\n");
}

#[test]
fn wiki_context_falls_back_to_master_cv() {
    assert_eq!(build_wiki_context(None, "cv"), "cv");
    let g = graph();
    let ctx = build_wiki_context(Some(&g), "cv");
    assert!(ctx.starts_with("# Career Knowledge Base — Index\n\n[[Rust]]\n\n# Relevant Wiki Nodes\n\n"));
    assert!(ctx.contains("## Go\n\nshort\n\n"));
}

#[test]
fn pre_screen_scores_are_clamped() {
    assert_eq!(pre_screen_result(&obj(vec![("score", Json::PosInt(150))])), (100, "missing_skills".to_string()));
    assert_eq!(pre_screen_result(&obj(vec![("category", s("possible"))])), (50, "possible".to_string()));
    assert_eq!(pre_screen_result(&obj(vec![("score", Json::NegInt(-3))])).0, 0);
}

#[test]
fn review_loop_decisions() {
    let r = review_outcome(&obj(vec![
        ("score", Json::PosInt(88)),
        ("feedback", s("tighten")),
        ("strengths", s("clear")),
        ("satisfied", s("TRUE")),
    ]));
    assert_eq!(r.score, 88);
    assert_eq!(r.feedback, "tighten\n\nStrengths: clear");
    assert!(r.satisfied);
    assert!(should_revise(0, false));
    assert!(!should_revise(4, false));
    assert!(!should_revise(1, true));
    assert!(revision_feedback("f", true).starts_with("FABRICATION WARNING"));
    assert_eq!(revision_feedback("f", false), "f");
    assert_eq!(loop_status(true, 1), "✓ Passed in 1 iteration");
    assert_eq!(loop_status(true, 3), "✓ Passed in 3 iterations");
    assert_eq!(loop_status(false, 5), "⚠ Loop exhausted (5/5 iterations) — still needs work");
}

#[test]
fn editor_output_needs_bullets() {
    let good = obj(vec![("experiences", Json::Arr(vec![obj(vec![("bullet_points", Json::Arr(vec![s("b")]))])]))]);
    let empty = obj(vec![("experiences", Json::Arr(vec![obj(vec![("bullet_points", Json::Arr(vec![]))])]))]);
    assert!(editor_accepts(&good));
    assert!(!editor_accepts(&empty));
    assert!(!editor_accepts(&obj(vec![])));
}

#[test]
fn deal_breakers_and_limits() {
    let kws = vec!["On-Site Only".to_string(), "office".to_string()];
    assert_eq!(deal_breaker("This role is ON-SITE ONLY.", &kws), Some(0));
    assert_eq!(deal_breaker("remote", &kws), None);
    assert_eq!(pipeline_limits(10, 10), (256, 1000));
    assert_eq!(pipeline_limits(4096, 200_000), (4096, 200_000));
    let mut cv = obj(vec![("constraints", s("no k8s")), ("summary", s("x"))]);
    assert_eq!(take_writer_constraints(&mut cv), Some("no k8s".to_string()));
    assert!(cv.get("constraints").is_none());
}

fn source(rel: &str, stem: &str, content: &str) -> jobhunting::wiki_graph::SourceFile {
    jobhunting::wiki_graph::SourceFile {
        path: format!("/p/{rel}"),
        rel: rel.to_string(),
        stem: stem.to_string(),
        content: content.to_string(),
        updated_at: None,
    }
}

#[test]
fn later_file_wins_after_build() {
    let files = vec![
        source("rust.md", "rust", "---\nname: Rust\n---\nFirst [[Tokio]]"),
        source("System/index.md", "index", "Index text"),
        source("wiki/rust.md", "rust", "---\nname: RUST\n---\nSecond"),
        source("raw/note.md", "note", "raw"),
        source("docker.md", "docker", "Containers"),
    ];
    let g = WikiGraph::from_sources(String::new(), "Catalog".to_string(), &files, "raw".to_string(), "wiki".to_string());
    assert_eq!(g.len(), 2);
    let n = g.get("rust").unwrap();
    assert_eq!(n.title, "RUST");
    assert_eq!(n.body, "Second");
    assert_eq!(g.get("Docker").map(|n| n.body.clone()), Some("Containers".to_string()));
    assert!(g.get("note").is_none());
    assert!(g.get("index").is_none());
    assert_eq!(g.index_body(), "Catalog");
}

#[test]
fn links_and_backlinks_of_a_node() {
    let files = vec![
        source("rust.md", "rust", "Uses [[Tokio]] and [[Serde|serde]]"),
        source("tokio.md", "tokio", "Async runtime, see [[Rust]]"),
    ];
    let g = WikiGraph::from_sources("Index".to_string(), String::new(), &files, String::new(), String::new());
    assert_eq!(g.get_links("RUST"), vec!["tokio", "serde"]);
    assert!(g.get_links("missing").is_empty());
    assert_eq!(g.get_backlinks("tokio"), vec!["rust"]);
    assert_eq!(g.index_body(), "Index");
}

#[test]
fn stages_follow_the_review_loop() {
    // Never satisfied: five critic rounds, the mid-loop check after the third.
    let mut s = first_stage();
    let mut trace = Vec::new();
    while s != Stage::Done {
        trace.push(s);
        let e = match s {
            Stage::Critique(_) => StageEvent::Critiqued(false),
            Stage::MidCheck(_, _) => StageEvent::Checked(90),
            Stage::Revise(_) => StageEvent::Revised,
            Stage::FinalCheck => StageEvent::Checked(40),
            Stage::Edit => StageEvent::Edited(true),
            Stage::Recheck => StageEvent::Checked(80),
            Stage::Rank => StageEvent::Ranked,
            Stage::Done => unreachable!(),
        };
        s = next_stage(s, e);
    }
    let critiques = trace.iter().filter(|s| matches!(s, Stage::Critique(_))).count();
    assert_eq!(critiques, 5);
    assert_eq!(trace.iter().filter(|s| matches!(s, Stage::MidCheck(2, false))).count(), 1);
    assert_eq!(&trace[trace.len() - 4..], &[Stage::FinalCheck, Stage::Edit, Stage::Recheck, Stage::Rank]);
    // Satisfied at once: straight to the fact check; truth 50 skips the editor.
    assert_eq!(next_stage(Stage::Critique(0), StageEvent::Critiqued(true)), Stage::FinalCheck);
    assert_eq!(next_stage(Stage::Critique(2), StageEvent::Critiqued(true)), Stage::MidCheck(2, true));
    assert_eq!(next_stage(Stage::MidCheck(2, true), StageEvent::Checked(10)), Stage::FinalCheck);
    assert_eq!(next_stage(Stage::FinalCheck, StageEvent::Checked(50)), Stage::Rank);
    assert_eq!(next_stage(Stage::Edit, StageEvent::Edited(false)), Stage::Rank);
    assert_eq!(next_stage(Stage::Rank, StageEvent::Revised), Stage::Rank);
}

#[test]
fn healthy_report_only_without_findings() {
    let healthy = "# Wiki Lint Report\n\nNo issues found. The wiki is healthy.\n";
    assert_eq!(lint_report(&vec![], "2024-01-01"), healthy);
    assert_ne!(lint_report(&vec!["x".to_string()], "2024-01-01"), healthy);
}

#[test]
fn backlinks_lead_back_and_lookup_ignores_case() {
    let files = vec![
        source("rust.md", "rust", "---\nname: Rust\n---\nUses [[Tokio]]"),
        source("tokio.md", "tokio", "---\nname: Tokio\n---\nRuntime"),
    ];
    let g = WikiGraph::from_sources(String::new(), String::new(), &files, String::new(), String::new());
    assert_eq!(g.get("RUST").map(|n| n.title.clone()), g.get("rust").map(|n| n.title.clone()));
    for t in g.get_backlinks("TOKIO") {
        assert!(g.get_links(t).contains(&"tokio"));
    }
    assert_eq!(g.get_backlinks("tokio"), vec!["Rust"]);
}
