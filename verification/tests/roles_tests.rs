use jobhunting::json::{validate_required_fields, Json};
use jobhunting::roles::{
    checker_role, critic_role, editor_role, mock_job_json, pre_screen_role, ranker_role,
    regeneration_feedback, writer_role, RoleCall,
};

fn is_string(j: Option<&Json>) -> bool {
    j.and_then(|v| v.as_str()).is_some()
}

fn is_array(j: Option<&Json>) -> bool {
    j.and_then(|v| v.as_array()).is_some()
}

fn required_names(r: &RoleCall) -> Vec<String> {
    r.schema
        .get("required")
        .and_then(|v| v.as_array())
        .map(|a| a.iter().filter_map(|x| x.as_str().map(|s| s.to_string())).collect())
        .unwrap_or_default()
}

#[test]
fn mock_llm_returns_required_keys() {
    let result = writer_role(false).mock;
    assert!(is_string(result.get("summary")), "mock missing 'summary'");
    assert!(is_array(result.get("skills")), "mock missing 'skills'");
    assert!(is_array(result.get("experiences")), "mock missing 'experiences'");
}

#[test]
fn every_mock_meets_its_schema() {
    let roles = vec![
        writer_role(false),
        writer_role(true),
        critic_role(),
        checker_role(),
        editor_role(),
        ranker_role(),
        pre_screen_role(),
    ];
    for r in &roles {
        assert!(validate_required_fields(&r.mock, &r.schema).is_ok(), "{}", r.tool);
        assert!(!required_names(r).is_empty(), "{}", r.tool);
    }
}

#[test]
fn role_tools_and_tasks() {
    let w = writer_role(false);
    assert_eq!(w.tool, "submit_cv");
    assert_eq!(w.desc, "Submit the tailored CV");
    assert!(w.task.starts_with("You are a CV writer."));
    let rw = writer_role(true);
    assert!(rw.task.starts_with("REVISE the prior draft to fix every point in the recruiter feedback below.\nDo NOT discard strengths; only address weaknesses.\n\nYou are a CV writer."));
    assert!(rw.task.ends_with(&w.task));
    assert_eq!(required_names(&w), vec!["summary", "skills", "experiences"]);
    assert_eq!(critic_role().tool, "submit_review");
    assert_eq!(required_names(&critic_role()), vec!["score", "feedback", "strengths", "satisfied"]);
    assert_eq!(checker_role().tool, "submit_verification");
    assert_eq!(editor_role().tool, "submit_edited_cv");
    assert_eq!(ranker_role().tool, "submit_ranking");
    let p = pre_screen_role();
    assert_eq!(p.tool, "submit_review");
    assert_eq!(required_names(&p), vec!["score", "category"]);
    assert_eq!(p.mock.get("score").and_then(|v| v.as_u64()), Some(50));
}

#[test]
fn checker_mock_has_two_claims() {
    let m = checker_role().mock;
    assert_eq!(m.get("truth_pct").and_then(|v| v.as_u64()), Some(67));
    let items = m.get("items").and_then(|v| v.as_array()).unwrap();
    assert_eq!(items.len(), 2);
    assert_eq!(items[1].get("verdict").and_then(|v| v.as_str()), Some("lie"));
    let schema = checker_role().schema;
    let min = schema.pointer(&["properties", "items", "minItems"]).and_then(|v| v.as_u64());
    assert_eq!(min, Some(1));
}

#[test]
fn regeneration_feedback_shape() {
    let f = regeneration_feedback("shorter please");
    assert_eq!(f.get("score").and_then(|v| v.as_u64()), Some(0));
    assert_eq!(f.get("feedback").and_then(|v| v.as_str()), Some("shorter please"));
    assert_eq!(f.get("strengths").and_then(|v| v.as_str()), Some(""));
}

#[test]
fn mock_job_is_a_backend_role() {
    let j = mock_job_json();
    assert_eq!(j.get("title").and_then(|v| v.as_str()), Some("Mock Backend Engineer"));
    assert_eq!(j.get("company").and_then(|v| v.as_str()), Some("Mock Corp"));
    assert!(j.get("description").and_then(|v| v.as_str()).unwrap().contains("PostgreSQL"));
}
