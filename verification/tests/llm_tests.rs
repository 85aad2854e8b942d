use jobhunting::json::{
    extract_xml_tool_call, json_candidates, parse_satisfied, strip_cv_metadata,
    validate_required_fields, Json,
};
use jobhunting::provider::{
    extract_origin, gemini_thinking_budget, resolve_endpoint, resolve_models_endpoint, Provider,
};
use jobhunting::transport::{
    anthropic_thinking_config, auth_headers, backoff_secs, build_tool_request, caps_from_models,
    decide_after_error, decide_after_output, is_transient_error, loop_turn, meta_matches,
    models_from_body, reply_has_content, tool_reply_messages, LoopTurn, ModelInfo, RetryAction,
    ToolArgs, ToolCall,
};

fn s(x: &str) -> Json {
    Json::Str(x.to_string())
}

fn obj(fields: Vec<(&str, Json)>) -> Json {
    Json::Obj(fields.into_iter().map(|(k, v)| (k.to_string(), v)).collect())
}

fn text_of(j: Option<&Json>) -> Option<String> {
    j.and_then(|v| v.as_str()).map(|x| x.to_string())
}

#[test]
fn parse_satisfied_handles_types() {
    assert!(parse_satisfied(&obj(vec![("satisfied", Json::Bool(true))])));
    assert!(!parse_satisfied(&obj(vec![("satisfied", Json::Bool(false))])));
    assert!(parse_satisfied(&obj(vec![("satisfied", s("true"))])));
    assert!(parse_satisfied(&obj(vec![("satisfied", s(" True "))])));
    assert!(!parse_satisfied(&obj(vec![("satisfied", s("false"))])));
    assert!(parse_satisfied(&obj(vec![("satisfied", Json::PosInt(1))])));
    assert!(!parse_satisfied(&obj(vec![("satisfied", Json::PosInt(0))])));
    assert!(!parse_satisfied(&obj(vec![])));
}

#[test]
fn provider_parse_round_trips_and_defaults() {
    for p in [Provider::Openai, Provider::OpenaiCompat, Provider::Anthropic, Provider::Google] {
        assert_eq!(Provider::parse(p.as_str()), p);
    }
    assert_eq!(Provider::parse("  Anthropic "), Provider::Anthropic);
    assert_eq!(Provider::parse("GOOGLE"), Provider::Google);
    assert_eq!(Provider::parse("something-else"), Provider::OpenaiCompat);
    assert_eq!(Provider::default(), Provider::OpenaiCompat);
    assert!(Provider::OpenaiCompat.is_openai_family());
    assert!(!Provider::Google.is_openai_family());
}

#[test]
fn provider_detected_from_endpoint() {
    assert_eq!(Provider::from_endpoint("https://API.Anthropic.com/v1"), Provider::Anthropic);
    assert_eq!(
        Provider::from_endpoint("https://generativelanguage.googleapis.com/v1beta"),
        Provider::Google
    );
    assert_eq!(Provider::from_endpoint("https://api.openai.com/v1"), Provider::Openai);
    assert_eq!(Provider::from_endpoint("http://localhost:8080/v1"), Provider::OpenaiCompat);
}

#[test]
fn endpoints_resolve_per_provider() {
    assert_eq!(
        resolve_endpoint("https://x.io/v1/", Provider::Openai),
        "https://x.io/v1/chat/completions"
    );
    assert_eq!(
        resolve_endpoint("https://x.io/v1/chat/completions", Provider::OpenaiCompat),
        "https://x.io/v1/chat/completions"
    );
    assert_eq!(resolve_endpoint("https://a.com/v1", Provider::Anthropic), "https://a.com/v1/messages");
    assert_eq!(resolve_endpoint("https://a.com", Provider::Anthropic), "https://a.com/v1/messages");
    assert_eq!(resolve_endpoint("https://g.com/x", Provider::Google), "https://g.com/x");
    let once = resolve_endpoint("https://a.com/", Provider::Anthropic);
    assert_eq!(resolve_endpoint(&once, Provider::Anthropic), once);
}

#[test]
fn model_endpoints_resolve_per_provider() {
    assert_eq!(
        resolve_models_endpoint("https://x.io/v1/chat/completions", Provider::Openai),
        "https://x.io/v1/models"
    );
    assert_eq!(resolve_models_endpoint("https://a.com", Provider::Anthropic), "https://a.com/v1/models");
    assert_eq!(
        resolve_models_endpoint("https://g.com/v1beta/", Provider::Google),
        "https://g.com/v1beta/models"
    );
    assert_eq!(resolve_models_endpoint("https://g.com", Provider::Google), "https://g.com/v1beta/models");
}

#[test]
fn origin_is_scheme_and_host() {
    assert_eq!(extract_origin("https://proxy.example.com/anthropic/v1"), "https://proxy.example.com");
    assert_eq!(extract_origin("https://proxy.example.com"), "https://proxy.example.com");
    assert_eq!(extract_origin("no-scheme/path"), "no-scheme/path");
}

#[test]
fn thinking_budgets_follow_effort() {
    assert_eq!(gemini_thinking_budget(None), Some(-1));
    assert_eq!(gemini_thinking_budget(Some("low")), Some(0));
    assert_eq!(gemini_thinking_budget(Some("medium")), Some(8192));
    let off = anthropic_thinking_config(Some("none"));
    assert_eq!(text_of(off.get("type")), Some("disabled".to_string()));
    let high = anthropic_thinking_config(None);
    assert_eq!(high.get("budget_tokens").and_then(|v| v.as_u64()), Some(16384));
    let xhigh = anthropic_thinking_config(Some("xhigh"));
    assert_eq!(xhigh.get("budget_tokens").and_then(|v| v.as_u64()), Some(32768));
}

#[test]
fn required_fields_are_checked_in_order() {
    let schema = obj(vec![("required", Json::Arr(vec![s("score"), s("feedback")]))]);
    let ok = obj(vec![("score", Json::PosInt(3)), ("feedback", s("x"))]);
    assert!(validate_required_fields(&ok, &schema).is_ok());
    let missing = obj(vec![("score", Json::Null)]);
    assert_eq!(
        validate_required_fields(&missing, &schema),
        Err("missing required field: 'score'".to_string())
    );
    assert!(validate_required_fields(&missing, &obj(vec![])).is_ok());
}

#[test]
fn cv_metadata_is_stripped() {
    let mut cv = obj(vec![("summary", s("a")), ("constraints", s("b"))]);
    strip_cv_metadata(&mut cv);
    assert!(cv.get("constraints").is_none());
    assert!(cv.get("summary").is_some());
}

#[test]
fn json_candidates_unfence_and_find_braces() {
    let c = json_candidates("```json\n{\"a\": 1}\n```");
    assert_eq!(c[1], "{\"a\": 1}");
    let d = json_candidates("Here you go: {\"a\": 1} thanks");
    assert_eq!(d.len(), 3);
    assert_eq!(d[2], "{\"a\": 1}");
    assert_eq!(json_candidates(" x ").len(), 2);
}

#[test]
fn xml_tool_calls_become_objects() {
    let c = "<tool_call><parameter=score> 80 </parameter><parameter=category>good_match</tool_call>";
    let v = extract_xml_tool_call(c).expect("parameters");
    assert_eq!(text_of(v.get("score")), Some("80".to_string()));
    assert_eq!(text_of(v.get("category")), Some("good_match".to_string()));
    assert!(extract_xml_tool_call("no call").is_none());
    assert!(extract_xml_tool_call("<tool_call></tool_call>").is_none());
}

#[test]
fn pointers_follow_arrays_and_objects() {
    let resp = obj(vec![(
        "choices",
        Json::Arr(vec![obj(vec![("message", obj(vec![("content", s("hi"))]))])]),
    )]);
    assert_eq!(text_of(resp.pointer(&["choices", "0", "message", "content"])), Some("hi".to_string()));
    assert!(resp.pointer(&["choices", "1"]).is_none());
    assert!(resp.pointer(&["choices", "00"]).is_none());
}

#[test]
fn openai_tool_request_forces_the_tool() {
    let msgs = vec![obj(vec![("role", s("user")), ("content", s("hi"))])];
    let body = build_tool_request("m", &msgs, 100, "submit", "desc", &obj(vec![]), Provider::Openai, Some("low"));
    assert_eq!(text_of(body.get("model")), Some("m".to_string()));
    assert_eq!(text_of(body.get("reasoning_effort")), Some("low".to_string()));
    let choice = body.get("tool_choice").unwrap();
    assert_eq!(text_of(choice.pointer(&["function", "name"])), Some("submit".to_string()));
}

#[test]
fn anthropic_request_lifts_system_and_caches_last_message() {
    let msgs = vec![
        obj(vec![("role", s("system")), ("content", s("rules"))]),
        obj(vec![("role", s("user")), ("content", s("task"))]),
    ];
    let body = build_tool_request("m", &msgs, 100, "t", "d", &obj(vec![]), Provider::Anthropic, None);
    assert_eq!(text_of(body.pointer(&["system", "0", "text"])), Some("rules".to_string()));
    assert_eq!(body.get("messages").and_then(|m| m.as_array()).map(|a| a.len()), Some(1));
    assert!(body.pointer(&["messages", "0", "cache_control"]).is_some());
}

#[test]
fn gemini_request_uses_contents() {
    let msgs = vec![
        obj(vec![("role", s("system")), ("content", s("rules"))]),
        obj(vec![("role", s("assistant")), ("content", s("ok"))]),
    ];
    let body = build_tool_request("m", &msgs, 10, "t", "d", &obj(vec![]), Provider::Google, None);
    assert_eq!(text_of(body.pointer(&["contents", "0", "role"])), Some("model".to_string()));
    assert_eq!(text_of(body.pointer(&["systemInstruction", "parts", "0", "text"])), Some("rules".to_string()));
    assert_eq!(body.pointer(&["toolConfig", "functionCallingConfig", "mode"]).and_then(|v| v.as_str()), Some("ANY"));
}

#[test]
fn auth_headers_per_provider() {
    let h = auth_headers(Provider::Openai, "k");
    assert_eq!(h, vec![("authorization".to_string(), "Bearer k".to_string())]);
    assert_eq!(auth_headers(Provider::Anthropic, "k").len(), 2);
}

#[test]
fn retry_decisions() {
    assert_eq!(backoff_secs(0), 1);
    assert_eq!(backoff_secs(2), 4);
    assert!(is_transient_error("HTTP 503 Service Unavailable"));
    assert!(!is_transient_error("invalid api key"));
    assert!(matches!(decide_after_error(0, "400 Bad Request: tool_choice unsupported"), RetryAction::FallbackToJson));
    assert!(matches!(decide_after_error(0, "502 bad gateway"), RetryAction::Retry { backoff_secs: 1, .. }));
    assert!(matches!(decide_after_error(2, "502 bad gateway"), RetryAction::Fail));
    assert!(matches!(decide_after_error(0, "invalid api key"), RetryAction::Fail));
    let schema = obj(vec![("required", Json::Arr(vec![s("a")]))]);
    assert!(matches!(decide_after_output(1, obj(vec![("a", s("x"))]), &schema), RetryAction::Accept(_)));
    match decide_after_output(1, obj(vec![]), &schema) {
        RetryAction::Retry { last_error, backoff_secs } => {
            assert_eq!(last_error, "missing required field: 'a'");
            assert_eq!(backoff_secs, 2);
        }
        _ => panic!("expected a retry"),
    }
}

#[test]
fn tool_loop_reads_openai_calls() {
    let call = obj(vec![
        ("id", s("c1")),
        ("function", obj(vec![("name", s("read_node")), ("arguments", s("{\"name\":\"Rust\"}"))])),
    ]);
    let resp = obj(vec![(
        "choices",
        Json::Arr(vec![obj(vec![("message", obj(vec![("tool_calls", Json::Arr(vec![call]))]))])]),
    )]);
    match loop_turn(Provider::Openai, &resp) {
        LoopTurn::Calls { calls, .. } => {
            assert_eq!(calls.len(), 1);
            assert_eq!(calls[0].name, "read_node");
            assert!(matches!(&calls[0].args, ToolArgs::Raw(a) if a == "{\"name\":\"Rust\"}"));
        }
        LoopTurn::Final(_) => panic!("expected calls"),
    }
    let done = obj(vec![(
        "choices",
        Json::Arr(vec![obj(vec![("message", obj(vec![("content", s("done"))]))])]),
    )]);
    assert!(matches!(loop_turn(Provider::Openai, &done), LoopTurn::Final(t) if t == "done"));
}

#[test]
fn tool_loop_reads_anthropic_text() {
    let resp = obj(vec![(
        "content",
        Json::Arr(vec![
            obj(vec![("type", s("text")), ("text", s("a"))]),
            obj(vec![("type", s("thinking")), ("text", s("x"))]),
            obj(vec![("type", s("text")), ("text", s("b"))]),
        ]),
    )]);
    assert!(matches!(loop_turn(Provider::Anthropic, &resp), LoopTurn::Final(t) if t == "ab"));
}

#[test]
fn tool_results_are_reported_per_provider() {
    let calls = vec![ToolCall { id: "c1".to_string(), name: "n".to_string(), args: ToolArgs::Value(Json::Null) }];
    let results: Vec<Result<String, String>> = vec![Err("boom".to_string())];
    let m = tool_reply_messages(Provider::Openai, &calls, &results);
    assert_eq!(text_of(m[0].get("content")), Some("Error: boom".to_string()));
    let a = tool_reply_messages(Provider::Anthropic, &calls, &results);
    assert_eq!(a.len(), 1);
    assert!(a[0].pointer(&["content", "0", "cache_control"]).is_some());
    let g = tool_reply_messages(Provider::Google, &calls, &results);
    assert_eq!(
        text_of(g[0].pointer(&["parts", "0", "functionResponse", "response", "result"])),
        Some("Error: boom".to_string())
    );
}

#[test]
fn model_lists_and_capabilities() {
    let body = obj(vec![(
        "models",
        Json::Arr(vec![
            obj(vec![("name", s("models/gemini-pro")), ("inputTokenLimit", Json::PosInt(32000))]),
            obj(vec![("name", s(""))]),
        ]),
    )]);
    let ms = models_from_body(&body, true);
    assert_eq!(ms.len(), 1);
    assert_eq!(ms[0].id, "gemini-pro");
    assert_eq!(ms[0].context_window, Some(32000));
    let list = vec![ModelInfo { id: "gpt-x".to_string(), context_window: Some(100), max_output: None }];
    let caps = caps_from_models(&list, "openrouter/gpt-x").expect("match");
    assert_eq!((caps.ctx_window, caps.max_output, caps.source), (100, 0, "api-partial"));
    assert!(meta_matches("MiMo-7B", "mimo"));
}

#[test]
fn connection_replies_need_content() {
    let resp = obj(vec![("content", Json::Arr(vec![obj(vec![])]))]);
    assert!(reply_has_content(&resp, Provider::Anthropic));
    assert!(!reply_has_content(&obj(vec![]), Provider::Openai));
}

#[test]
fn fields_read_back_after_insert_and_remove() {
    let mut v = obj(vec![("a", s("1")), ("b", s("2"))]);
    v.insert("a", s("x"));
    v.insert("c", s("3"));
    assert_eq!(text_of(v.get("a")), Some("x".to_string()));
    assert_eq!(text_of(v.get("b")), Some("2".to_string()));
    assert_eq!(text_of(v.get("c")), Some("3".to_string()));
    v.remove("a");
    assert!(v.get("a").is_none());
    assert_eq!(text_of(v.get("b")), Some("2".to_string()));
    let mut n = Json::Null;
    n.insert("k", s("v"));
    assert_eq!(text_of(n.get("k")), Some("v".to_string()));
    assert!(n.get("other").is_none());
}

#[test]
fn provider_parse_ignores_case_and_space() {
    assert_eq!(Provider::parse("  ANTHROPIC\t"), Provider::Anthropic);
    assert_eq!(Provider::parse("Google"), Provider::Google);
    assert_eq!(Provider::parse(" OpenAI "), Provider::Openai);
    assert_eq!(Provider::parse("OPENAI-COMPAT"), Provider::OpenaiCompat);
}

#[test]
fn setting_an_existing_key_keeps_keys_distinct() {
    let mut v = obj(vec![("a", s("1"))]);
    v.insert("a", s("2"));
    v.insert("a", s("3"));
    match &v {
        Json::Obj(f) => assert_eq!(f.len(), 1),
        _ => panic!("object expected"),
    }
    assert_eq!(text_of(v.get("a")), Some("3".to_string()));
}
