//! LLM transport: request bodies for each provider, reading structured
//! output and tool calls out of replies, and the decisions of the retry
//! harness, the JSON-mode fallback and the multi-turn tool loop.
use vstd::prelude::*;
use crate::json::{
    jfs, jptr, jvs, lemma_arr_view, opt_chars, opt_view, tok_views, validate_required_fields,
    first_missing, missing_message, JVal, Json,
};
use crate::provider::{
    effort_chars, effort_or_high, is_thinking_off, opt_str_view, openai_family,
    thinking_off, gemini_budget, gemini_thinking_budget, Provider,
};
use crate::text::{chars_of, contains, contains_str, push_str, string_of};

verus! {

/// Attempts the retry harness makes for transient failures.
pub const LLM_MAX_RETRIES: u32 = 3;

/// A tool the model may call in the multi-turn loop.
pub struct ToolDef {
    pub name: String,
    pub desc: String,
    pub params: Json,
}

// ---------------------------------------------------------------------------
// Building values
// ---------------------------------------------------------------------------

/// The empty object.
pub open spec fn jobj() -> JVal {
    JVal::Obj(Seq::empty())
}

/// The JSON number of an integer.
pub open spec fn jint(i: i64) -> JVal {
    if i < 0 {
        JVal::NegInt(i)
    } else {
        JVal::PosInt(i as u64)
    }
}

/// An empty object.
pub fn new_obj() -> (r: Json)
    ensures
        r@ == jobj(),
{
    let r = Json::object(Vec::new());
    proof {
        assert(jfs(Seq::<(String, Json)>::empty()) =~= Seq::<(Seq<char>, JVal)>::empty());
    }
    r
}

/// A one-item array.
pub fn arr1(x: Json) -> (r: Json)
    ensures
        r@ == JVal::Arr(seq![x@]),
{
    let mut v: Vec<Json> = Vec::new();
    v.push(x);
    let r = Json::array(v);
    proof {
        assert(jvs(v@) =~= seq![x@]);
    }
    r
}

/// The JSON number of an integer.
pub fn int_json(i: i64) -> (r: Json)
    ensures
        r@ == jint(i),
{
    if i < 0 {
        Json::NegInt(i)
    } else {
        Json::PosInt(i as u64)
    }
}

/// Copies of the documents of a slice.
pub fn copy_all(v: &[Json]) -> (r: Vec<Json>)
    ensures
        jvs(r@) == jvs(v@),
{
    let mut r: Vec<Json> = Vec::new();
    let mut i: usize = 0;
    while i < v.len()
        invariant
            i <= v@.len(),
            jvs(r@) == jvs(v@).take(i as int),
        decreases v@.len() - i,
    {
        let c = v[i].copy();
        let ghost before = r@;
        r.push(c);
        proof {
            assert(jvs(r@) =~= jvs(before).push(c@));
            assert(jvs(v@).take(i + 1) =~= jvs(v@).take(i as int).push(v@[i as int]@));
        }
        i = i + 1;
    }
    proof {
        assert(jvs(v@).take(v@.len() as int) =~= jvs(v@));
    }
    r
}

// ---------------------------------------------------------------------------
// Provider details
// ---------------------------------------------------------------------------

/// Anthropic `thinking` settings for an effort: disabled when off, budgets
/// of 8192, 16384 and 32768 tokens for `medium`, `high` and `xhigh`,
/// `adaptive` as such, and the `high` budget for anything else.
pub open spec fn anthropic_thinking(effort: Option<Seq<char>>) -> JVal {
    let e = effort_or_high(effort);
    if thinking_off(e) {
        jobj().set("type"@, JVal::Str("disabled"@))
    } else if e == "adaptive"@ {
        jobj().set("type"@, JVal::Str("adaptive"@))
    } else {
        let budget: u64 = if e == "medium"@ {
            8192
        } else if e == "xhigh"@ {
            32768
        } else {
            16384
        };
        jobj().set("type"@, JVal::Str("enabled"@)).set("budget_tokens"@, JVal::PosInt(budget))
    }
}

/// Maps a thinking-effort setting to Anthropic's `thinking` configuration.
pub fn anthropic_thinking_config(effort: Option<&str>) -> (r: Json)
    ensures
        r@ == anthropic_thinking(opt_str_view(effort)),
{
    let e = effort_chars(effort);
    let mut r = new_obj();
    if is_thinking_off(e.as_slice()) {
        r.insert("type", Json::text("disabled"));
    } else if crate::text::eq_str(e.as_slice(), "adaptive") {
        r.insert("type", Json::text("adaptive"));
    } else {
        let budget: u64 = if crate::text::eq_str(e.as_slice(), "medium") {
            8192
        } else if crate::text::eq_str(e.as_slice(), "xhigh") {
            32768
        } else {
            16384
        };
        r.insert("type", Json::text("enabled"));
        r.insert("budget_tokens", Json::PosInt(budget));
    }
    r
}

/// The authentication headers each provider expects, in order.
pub open spec fn auth_header_spec(p: Provider, key: Seq<char>) -> Seq<(Seq<char>, Seq<char>)> {
    match p {
        Provider::Openai | Provider::OpenaiCompat => seq![("authorization"@, "Bearer "@ + key)],
        Provider::Anthropic => seq![("api-key"@, key), ("anthropic-version"@, "2023-06-01"@)],
        Provider::Google => seq![("x-goog-api-key"@, key)],
    }
}

/// Views of a list of header pairs.
pub open spec fn header_views(h: Seq<(String, String)>) -> Seq<(Seq<char>, Seq<char>)> {
    h.map_values(|p: (String, String)| (p.0@, p.1@))
}

/// The headers that authenticate a request to the provider: a bearer token
/// for the OpenAI family, `api-key` with the API version for Anthropic,
/// `x-goog-api-key` for Gemini.
pub fn auth_headers(provider: Provider, api_key: &str) -> (r: Vec<(String, String)>)
    ensures
        header_views(r@) == auth_header_spec(provider, api_key@),
{
    let mut r: Vec<(String, String)> = Vec::new();
    match provider {
        Provider::Openai | Provider::OpenaiCompat => {
            let mut v = chars_of("Bearer ");
            push_str(&mut v, api_key);
            r.push(("authorization".to_owned(), string_of(v.as_slice())));
        },
        Provider::Anthropic => {
            r.push(("api-key".to_owned(), api_key.to_owned()));
            r.push(("anthropic-version".to_owned(), "2023-06-01".to_owned()));
        },
        Provider::Google => {
            r.push(("x-goog-api-key".to_owned(), api_key.to_owned()));
        },
    }
    proof {
        assert(header_views(r@) =~= auth_header_spec(provider, api_key@));
    }
    r
}

/// The message of an error reply: `error.message`, else `error` when it is
/// a string, else the given default.
pub open spec fn api_error_text(resp: JVal, dflt: Seq<char>) -> Seq<char> {
    match jptr(resp, seq!["error"@, "message"@]) {
        Some(JVal::Str(m)) => m,
        _ => match resp.get("error"@) {
            Some(JVal::Str(m)) => m,
            _ => dflt,
        },
    }
}

/// Reads the error message out of a failed API reply.
pub fn api_error_message(resp: &Json, dflt: &str) -> (r: String)
    ensures
        r@ == api_error_text(resp@, dflt@),
{
    let p = resp.pointer(&["error", "message"]);
    proof {
        assert(tok_views(seq!["error", "message"]) =~= seq!["error"@, "message"@]);
    }
    match p {
        Some(m) => match m.as_str() {
            Some(s) => {
                return s.to_owned();
            },
            None => {},
        },
        None => {},
    }
    match resp.get("error") {
        Some(e) => match e.as_str() {
            Some(s) => s.to_owned(),
            None => dflt.to_owned(),
        },
        None => dflt.to_owned(),
    }
}

/// The error line of a failed JSON-mode request: `Gemini API error` or
/// `LLM API error`, the status, and the reply's `error.message` (or
/// `unknown`).
pub open spec fn json_mode_error_text(gemini: bool, status: Seq<char>, resp: JVal) -> Seq<char> {
    (if gemini {
        "Gemini"@
    } else {
        "LLM"@
    }) + " API error "@ + status + ": "@ + match jptr(resp, seq!["error"@, "message"@]) {
        Some(JVal::Str(m)) => m,
        _ => "unknown"@,
    }
}

/// The error line of a failed JSON-mode request, given the status text.
pub fn json_mode_error(gemini: bool, status: &str, resp: &Json) -> (r: String)
    ensures
        r@ == json_mode_error_text(gemini, status@, resp@),
{
    let p = resp.pointer(&["error", "message"]);
    proof {
        assert(tok_views(seq!["error", "message"]) =~= seq!["error"@, "message"@]);
    }
    let mut v = if gemini {
        chars_of("Gemini")
    } else {
        chars_of("LLM")
    };
    push_str(&mut v, " API error ");
    push_str(&mut v, status);
    push_str(&mut v, ": ");
    let msg: &str = match p {
        Some(m) => match m.as_str() {
            Some(s) => s,
            None => "unknown",
        },
        None => "unknown",
    };
    push_str(&mut v, msg);
    string_of(v.as_slice())
}

// ---------------------------------------------------------------------------
// Conversation shapes
// ---------------------------------------------------------------------------

/// A message's role; `user` when absent.
pub open spec fn msg_role(m: JVal) -> Seq<char> {
    match m.get("role"@) {
        Some(JVal::Str(r)) => r,
        _ => "user"@,
    }
}

/// A message's text content; empty when absent.
pub open spec fn msg_content(m: JVal) -> Seq<char> {
    match m.get("content"@) {
        Some(JVal::Str(t)) => t,
        _ => Seq::empty(),
    }
}

/// `[{"text": t}]`.
pub open spec fn text_parts(t: Seq<char>) -> JVal {
    JVal::Arr(seq![jobj().set("text"@, JVal::Str(t))])
}

/// A Gemini turn for a message: its own `parts` when it has them, else
/// its text content as one part.
pub open spec fn gemini_turn(m: JVal, role: Seq<char>) -> JVal {
    let parts = match m.get("parts"@) {
        Some(p) => p,
        None => text_parts(msg_content(m)),
    };
    jobj().set("role"@, JVal::Str(role)).set("parts"@, parts)
}

/// Gemini `contents` for a conversation: system messages left out,
/// assistant (or model) turns as `model`, every other turn as `user`.
pub open spec fn gemini_turns(msgs: Seq<JVal>) -> Seq<JVal>
    decreases msgs.len(),
{
    if msgs.len() == 0 {
        Seq::empty()
    } else {
        let prev = gemini_turns(msgs.drop_last());
        let m = msgs.last();
        let r = msg_role(m);
        if r == "system"@ {
            prev
        } else if r == "assistant"@ || r == "model"@ {
            prev.push(gemini_turn(m, "model"@))
        } else {
            prev.push(gemini_turn(m, "user"@))
        }
    }
}

/// Gemini `systemInstruction`: the text of the last system message as one
/// part; `null` when there is none.
pub open spec fn gemini_system(msgs: Seq<JVal>) -> JVal
    decreases msgs.len(),
{
    if msgs.len() == 0 {
        JVal::Null
    } else if msg_role(msgs.last()) == "system"@ {
        jobj().set("parts"@, text_parts(msg_content(msgs.last())))
    } else {
        gemini_system(msgs.drop_last())
    }
}

/// The role of a message.
pub fn role_of(m: &Json) -> (r: &str)
    ensures
        r@ == msg_role(m@),
{
    match m.get("role") {
        Some(v) => match v.as_str() {
            Some(s) => s,
            None => "user",
        },
        None => "user",
    }
}

/// The text content of a message.
pub fn content_of(m: &Json) -> (r: &str)
    ensures
        r@ == msg_content(m@),
{
    proof {
        reveal_strlit("");
    }
    match m.get("content") {
        Some(v) => match v.as_str() {
            Some(s) => s,
            None => "",
        },
        None => "",
    }
}

/// `[{"text": t}]`.
pub fn text_parts_json(t: &str) -> (r: Json)
    ensures
        r@ == text_parts(t@),
{
    let mut p = new_obj();
    p.insert("text", Json::text(t));
    arr1(p)
}

/// A Gemini turn for a message.
pub fn gemini_turn_json(m: &Json, role: &str) -> (r: Json)
    ensures
        r@ == gemini_turn(m@, role@),
{
    let parts = match m.get("parts") {
        Some(p) => p.copy(),
        None => text_parts_json(content_of(m)),
    };
    let mut t = new_obj();
    t.insert("role", Json::text(role));
    t.insert("parts", parts);
    t
}

/// Converts messages to Gemini `contents`, lifting system messages to the
/// `systemInstruction` (the last one wins).
pub fn gemini_contents(messages: &[Json]) -> (r: (Vec<Json>, Json))
    ensures
        jvs(r.0@) == gemini_turns(jvs(messages@)),
        r.1@ == gemini_system(jvs(messages@)),
{
    let mut contents: Vec<Json> = Vec::new();
    let mut sys = Json::Null;
    let mut i: usize = 0;
    proof {
        assert(jvs(messages@).take(0) =~= Seq::<JVal>::empty());
        assert(jvs(contents@) =~= Seq::<JVal>::empty());
    }
    while i < messages.len()
        invariant
            i <= messages@.len(),
            jvs(contents@) == gemini_turns(jvs(messages@).take(i as int)),
            sys@ == gemini_system(jvs(messages@).take(i as int)),
        decreases messages@.len() - i,
    {
        let m = &messages[i];
        proof {
            let t = jvs(messages@).take(i + 1);
            assert(t.drop_last() =~= jvs(messages@).take(i as int));
            assert(t.last() == m@);
        }
        let role = role_of(m);
        let ghost before = contents@;
        if crate::json::str_eq(role, "system") {
            let mut s = new_obj();
            s.insert("parts", text_parts_json(content_of(m)));
            sys = s;
        } else if crate::json::str_eq(role, "assistant") || crate::json::str_eq(role, "model") {
            let t = gemini_turn_json(m, "model");
            contents.push(t);
            proof {
                assert(jvs(contents@) =~= jvs(before).push(t@));
            }
        } else {
            let t = gemini_turn_json(m, "user");
            contents.push(t);
            proof {
                assert(jvs(contents@) =~= jvs(before).push(t@));
            }
        }
        i = i + 1;
    }
    proof {
        assert(jvs(messages@).take(messages@.len() as int) =~= jvs(messages@));
    }
    (contents, sys)
}

/// Anthropic top-level `system` blocks: one text block per system message.
pub open spec fn system_blocks(msgs: Seq<JVal>) -> Seq<JVal>
    decreases msgs.len(),
{
    if msgs.len() == 0 {
        Seq::empty()
    } else if msg_role(msgs.last()) == "system"@ {
        system_blocks(msgs.drop_last()).push(
            jobj().set("type"@, JVal::Str("text"@)).set("text"@, JVal::Str(msg_content(msgs.last()))),
        )
    } else {
        system_blocks(msgs.drop_last())
    }
}

/// The conversation without its system messages.
pub open spec fn convo_messages(msgs: Seq<JVal>) -> Seq<JVal>
    decreases msgs.len(),
{
    if msgs.len() == 0 {
        Seq::empty()
    } else if msg_role(msgs.last()) == "system"@ {
        convo_messages(msgs.drop_last())
    } else {
        convo_messages(msgs.drop_last()).push(msgs.last())
    }
}

/// Splits messages into Anthropic system blocks and the remaining conversation.
pub fn split_system_messages(messages: &[Json]) -> (r: (Vec<Json>, Vec<Json>))
    ensures
        jvs(r.0@) == system_blocks(jvs(messages@)),
        jvs(r.1@) == convo_messages(jvs(messages@)),
{
    let mut blocks: Vec<Json> = Vec::new();
    let mut convo: Vec<Json> = Vec::new();
    let mut i: usize = 0;
    proof {
        assert(jvs(messages@).take(0) =~= Seq::<JVal>::empty());
        assert(jvs(blocks@) =~= Seq::<JVal>::empty());
        assert(jvs(convo@) =~= Seq::<JVal>::empty());
    }
    while i < messages.len()
        invariant
            i <= messages@.len(),
            jvs(blocks@) == system_blocks(jvs(messages@).take(i as int)),
            jvs(convo@) == convo_messages(jvs(messages@).take(i as int)),
        decreases messages@.len() - i,
    {
        let m = &messages[i];
        proof {
            let t = jvs(messages@).take(i + 1);
            assert(t.drop_last() =~= jvs(messages@).take(i as int));
            assert(t.last() == m@);
        }
        let ghost b0 = blocks@;
        let ghost c0 = convo@;
        if crate::json::str_eq(role_of(m), "system") {
            let mut b = new_obj();
            b.insert("type", Json::text("text"));
            b.insert("text", Json::text(content_of(m)));
            blocks.push(b);
            proof {
                assert(jvs(blocks@) =~= jvs(b0).push(b@));
            }
        } else {
            let c = m.copy();
            convo.push(c);
            proof {
                assert(jvs(convo@) =~= jvs(c0).push(c@));
            }
        }
        i = i + 1;
    }
    proof {
        assert(jvs(messages@).take(messages@.len() as int) =~= jvs(messages@));
    }
    (blocks, convo)
}

// ---------------------------------------------------------------------------
// Request bodies
// ---------------------------------------------------------------------------

/// `{"name", "description", <schema_key>: schema}`.
pub open spec fn tool_decl(name: Seq<char>, desc: Seq<char>, key: Seq<char>, schema: JVal) -> JVal {
    jobj().set("name"@, JVal::Str(name)).set("description"@, JVal::Str(desc)).set(key, schema)
}

/// `{"type": "ephemeral", "ttl": "5m"}`: a prompt-cache breakpoint.
pub open spec fn cache_ctl() -> JVal {
    jobj().set("type"@, JVal::Str("ephemeral"@)).set("ttl"@, JVal::Str("5m"@))
}

/// The sequence with a cache breakpoint on its last element.
pub open spec fn with_last_cached(s: Seq<JVal>) -> Seq<JVal> {
    if s.len() == 0 {
        s
    } else {
        s.update(s.len() - 1, s.last().set("cache_control"@, cache_ctl()))
    }
}

/// A last element that a field can be set on (an object or `null`).
pub open spec fn cacheable_last(s: Seq<JVal>) -> bool {
    s.len() > 0 ==> (s.last() is Obj || s.last() is Null)
}

/// Gemini `generationConfig` with the thinking budget.
pub open spec fn gemini_generation(max_tokens: u32, effort: Option<Seq<char>>) -> JVal {
    jobj().set("maxOutputTokens"@, JVal::PosInt(max_tokens as u64)).set(
        "thinkingConfig"@,
        jobj().set("thinkingBudget"@, jint(gemini_budget(effort))),
    )
}

/// A Gemini request body around the given function declarations.
pub open spec fn gemini_body(
    msgs: Seq<JVal>,
    max_tokens: u32,
    decls: Seq<JVal>,
    mode: Seq<char>,
    effort: Option<Seq<char>>,
) -> JVal {
    let b = jobj().set("contents"@, JVal::Arr(gemini_turns(msgs))).set(
        "tools"@,
        JVal::Arr(seq![jobj().set("functionDeclarations"@, JVal::Arr(decls))]),
    ).set(
        "toolConfig"@,
        jobj().set("functionCallingConfig"@, jobj().set("mode"@, JVal::Str(mode))),
    ).set("generationConfig"@, gemini_generation(max_tokens, effort));
    if gemini_system(msgs) is Null {
        b
    } else {
        b.set("systemInstruction"@, gemini_system(msgs))
    }
}

/// An Anthropic request body: system blocks lifted to `system`, cache
/// breakpoints on the last system block, the last tool and the last message.
pub open spec fn anthropic_body(
    model: Seq<char>,
    msgs: Seq<JVal>,
    max_tokens: u32,
    tools: Seq<JVal>,
    choice: JVal,
    effort: Option<Seq<char>>,
) -> JVal {
    let blocks = system_blocks(msgs);
    let b = jobj().set("model"@, JVal::Str(model)).set(
        "max_tokens"@,
        JVal::PosInt(max_tokens as u64),
    ).set("messages"@, JVal::Arr(with_last_cached(convo_messages(msgs)))).set(
        "tools"@,
        JVal::Arr(with_last_cached(tools)),
    ).set("tool_choice"@, choice).set("thinking"@, anthropic_thinking(effort));
    if blocks.len() == 0 {
        b
    } else {
        b.set("system"@, JVal::Arr(with_last_cached(blocks)))
    }
}

/// An OpenAI-family request body.
pub open spec fn openai_body(
    model: Seq<char>,
    msgs: Seq<JVal>,
    max_tokens: u32,
    tools: Seq<JVal>,
    choice: JVal,
    effort: Option<Seq<char>>,
) -> JVal {
    let b = jobj().set("model"@, JVal::Str(model)).set(
        "max_tokens"@,
        JVal::PosInt(max_tokens as u64),
    ).set("messages"@, JVal::Arr(msgs)).set("stream"@, JVal::Bool(false)).set(
        "tools"@,
        JVal::Arr(tools),
    ).set("tool_choice"@, choice);
    match effort {
        Some(e) => b.set("reasoning_effort"@, JVal::Str(e)),
        None => b,
    }
}

/// An OpenAI function tool entry.
pub open spec fn openai_tool(name: Seq<char>, desc: Seq<char>, schema: JVal) -> JVal {
    jobj().set("type"@, JVal::Str("function"@)).set(
        "function"@,
        tool_decl(name, desc, "parameters"@, schema),
    )
}

/// The body of a request that forces one tool.
pub open spec fn tool_request_body(
    model: Seq<char>,
    msgs: Seq<JVal>,
    max_tokens: u32,
    name: Seq<char>,
    desc: Seq<char>,
    schema: JVal,
    provider: Provider,
    effort: Option<Seq<char>>,
) -> JVal {
    match provider {
        Provider::Google => gemini_body(
            msgs,
            max_tokens,
            seq![tool_decl(name, desc, "parameters"@, schema)],
            "ANY"@,
            effort,
        ),
        Provider::Anthropic => anthropic_body(
            model,
            msgs,
            max_tokens,
            seq![tool_decl(name, desc, "input_schema"@, schema)],
            jobj().set("type"@, JVal::Str("tool"@)).set("name"@, JVal::Str(name)),
            effort,
        ),
        _ => openai_body(
            model,
            msgs,
            max_tokens,
            seq![openai_tool(name, desc, schema)],
            jobj().set("type"@, JVal::Str("function"@)).set(
                "function"@,
                jobj().set("name"@, JVal::Str(name)),
            ),
            effort,
        ),
    }
}

/// Declarations of a tool list under the given schema key.
pub open spec fn tool_decls(tools: Seq<ToolDef>, key: Seq<char>) -> Seq<JVal> {
    tools.map_values(|t: ToolDef| tool_decl(t.name@, t.desc@, key, t.params@))
}

/// OpenAI function entries of a tool list.
pub open spec fn openai_tools(tools: Seq<ToolDef>) -> Seq<JVal> {
    tools.map_values(|t: ToolDef| openai_tool(t.name@, t.desc@, t.params@))
}

/// The body of a request that offers several tools and lets the model choose.
pub open spec fn multi_tool_request_body(
    model: Seq<char>,
    msgs: Seq<JVal>,
    max_tokens: u32,
    tools: Seq<ToolDef>,
    provider: Provider,
    effort: Option<Seq<char>>,
) -> JVal {
    match provider {
        Provider::Google => gemini_body(
            msgs,
            max_tokens,
            tool_decls(tools, "parameters"@),
            "AUTO"@,
            effort,
        ),
        Provider::Anthropic => anthropic_body(
            model,
            msgs,
            max_tokens,
            tool_decls(tools, "input_schema"@),
            jobj().set("type"@, JVal::Str("auto"@)),
            effort,
        ),
        _ => openai_body(model, msgs, max_tokens, openai_tools(tools), JVal::Str("auto"@), effort),
    }
}

/// A prompt-cache breakpoint.
pub fn cache_json() -> (r: Json)
    ensures
        r@ == cache_ctl(),
{
    let mut c = new_obj();
    c.insert("type", Json::text("ephemeral"));
    c.insert("ttl", Json::text("5m"));
    c
}

/// Puts a cache breakpoint on the last element.
pub fn cache_last(v: &mut Vec<Json>)
    requires
        cacheable_last(jvs(old(v)@)),
    ensures
        jvs(final(v)@) == with_last_cached(jvs(old(v)@)),
{
    let ghost before = jvs(v@);
    match v.pop() {
        Some(mut last) => {
            proof {
                assert(before.last() == last@);
            }
            let ghost rest = jvs(v@);
            last.insert("cache_control", cache_json());
            v.push(last);
            proof {
                assert(jvs(v@) =~= with_last_cached(before));
            }
        },
        None => {},
    }
}

/// `{"name", "description", <key>: schema}`.
pub fn tool_decl_json(name: &str, desc: &str, key: &str, schema: Json) -> (r: Json)
    ensures
        r@ == tool_decl(name@, desc@, key@, schema@),
{
    let mut d = new_obj();
    d.insert("name", Json::text(name));
    d.insert("description", Json::text(desc));
    d.insert(key, schema);
    d
}

/// An OpenAI function tool entry.
pub fn openai_tool_json(name: &str, desc: &str, schema: Json) -> (r: Json)
    ensures
        r@ == openai_tool(name@, desc@, schema@),
{
    let mut t = new_obj();
    t.insert("type", Json::text("function"));
    t.insert("function", tool_decl_json(name, desc, "parameters", schema));
    t
}

/// Builds a Gemini request body.
pub fn gemini_body_json(
    messages: &[Json],
    max_tokens: u32,
    decls: Vec<Json>,
    mode: &str,
    effort: Option<&str>,
) -> (r: Json)
    ensures
        r@ == gemini_body(jvs(messages@), max_tokens, jvs(decls@), mode@, opt_str_view(effort)),
{
    let (contents, sys) = gemini_contents(messages);
    let mut fd = new_obj();
    fd.insert("functionDeclarations", Json::array(decls));
    let mut fcc = new_obj();
    fcc.insert("mode", Json::text(mode));
    let mut tc = new_obj();
    tc.insert("functionCallingConfig", fcc);
    let budget = match gemini_thinking_budget(effort) {
        Some(b) => b,
        None => 0,
    };
    let mut think = new_obj();
    think.insert("thinkingBudget", int_json(budget));
    let mut gen = new_obj();
    gen.insert("maxOutputTokens", Json::PosInt(max_tokens as u64));
    gen.insert("thinkingConfig", think);
    let mut body = new_obj();
    body.insert("contents", Json::array(contents));
    body.insert("tools", arr1(fd));
    body.insert("toolConfig", tc);
    body.insert("generationConfig", gen);
    if !sys.is_null() {
        body.insert("systemInstruction", sys);
    }
    body
}

/// Builds an Anthropic request body.
pub fn anthropic_body_json(
    model: &str,
    messages: &[Json],
    max_tokens: u32,
    tools: Vec<Json>,
    choice: Json,
    effort: Option<&str>,
) -> (r: Json)
    requires
        cacheable_last(convo_messages(jvs(messages@))),
        cacheable_last(jvs(tools@)),
    ensures
        r@ == anthropic_body(model@, jvs(messages@), max_tokens, jvs(tools@), choice@, opt_str_view(effort)),
{
    let (mut blocks, mut convo) = split_system_messages(messages);
    let mut tools = tools;
    cache_last(&mut convo);
    cache_last(&mut tools);
    let mut body = new_obj();
    body.insert("model", Json::text(model));
    body.insert("max_tokens", Json::PosInt(max_tokens as u64));
    body.insert("messages", Json::array(convo));
    body.insert("tools", Json::array(tools));
    body.insert("tool_choice", choice);
    body.insert("thinking", anthropic_thinking_config(effort));
    if blocks.len() > 0 {
        proof {
            assert(jvs(blocks@).last() == blocks@.last()@);
            lemma_system_blocks_objects(jvs(messages@));
        }
        cache_last(&mut blocks);
        body.insert("system", Json::array(blocks));
    }
    body
}

/// System blocks are objects.
proof fn lemma_system_blocks_objects(msgs: Seq<JVal>)
    ensures
        forall|i: int| 0 <= i < system_blocks(msgs).len() ==> #[trigger] system_blocks(msgs)[i] is Obj,
    decreases msgs.len(),
{
    if msgs.len() > 0 {
        lemma_system_blocks_objects(msgs.drop_last());
    }
}

/// Builds an OpenAI-family request body.
pub fn openai_body_json(
    model: &str,
    messages: &[Json],
    max_tokens: u32,
    tools: Vec<Json>,
    choice: Json,
    effort: Option<&str>,
) -> (r: Json)
    ensures
        r@ == openai_body(model@, jvs(messages@), max_tokens, jvs(tools@), choice@, opt_str_view(effort)),
{
    let mut body = new_obj();
    body.insert("model", Json::text(model));
    body.insert("max_tokens", Json::PosInt(max_tokens as u64));
    body.insert("messages", Json::array(copy_all(messages)));
    body.insert("stream", Json::Bool(false));
    body.insert("tools", Json::array(tools));
    body.insert("tool_choice", choice);
    match effort {
        Some(e) => body.insert("reasoning_effort", Json::text(e)),
        None => {},
    }
    body
}

/// One-element vector.
pub fn vec1(x: Json) -> (r: Vec<Json>)
    ensures
        jvs(r@) == seq![x@],
{
    let mut v: Vec<Json> = Vec::new();
    v.push(x);
    proof {
        assert(jvs(v@) =~= seq![x@]);
    }
    v
}

/// Builds the body of an LLM call that forces the tool `tool_name`.
pub fn build_tool_request(
    model: &str,
    messages: &[Json],
    max_tokens: u32,
    tool_name: &str,
    tool_desc: &str,
    schema: &Json,
    provider: Provider,
    reasoning_effort: Option<&str>,
) -> (r: Json)
    requires
        provider is Anthropic ==> cacheable_last(convo_messages(jvs(messages@))),
    ensures
        r@ == tool_request_body(
            model@,
            jvs(messages@),
            max_tokens,
            tool_name@,
            tool_desc@,
            schema@,
            provider,
            opt_str_view(reasoning_effort),
        ),
{
    match provider {
        Provider::Google => {
            let d = tool_decl_json(tool_name, tool_desc, "parameters", schema.copy());
            gemini_body_json(messages, max_tokens, vec1(d), "ANY", reasoning_effort)
        },
        Provider::Anthropic => {
            let d = tool_decl_json(tool_name, tool_desc, "input_schema", schema.copy());
            let mut choice = new_obj();
            choice.insert("type", Json::text("tool"));
            choice.insert("name", Json::text(tool_name));
            anthropic_body_json(model, messages, max_tokens, vec1(d), choice, reasoning_effort)
        },
        _ => {
            let t = openai_tool_json(tool_name, tool_desc, schema.copy());
            let mut f = new_obj();
            f.insert("name", Json::text(tool_name));
            let mut choice = new_obj();
            choice.insert("type", Json::text("function"));
            choice.insert("function", f);
            openai_body_json(model, messages, max_tokens, vec1(t), choice, reasoning_effort)
        },
    }
}

/// Declarations of each tool under the given schema key.
pub fn tool_decls_json(tools: &[ToolDef], key: &str) -> (r: Vec<Json>)
    ensures
        jvs(r@) == tool_decls(tools@, key@),
{
    let mut r: Vec<Json> = Vec::new();
    let mut i: usize = 0;
    while i < tools.len()
        invariant
            i <= tools@.len(),
            jvs(r@) == tool_decls(tools@, key@).take(i as int),
        decreases tools@.len() - i,
    {
        let t = &tools[i];
        let d = tool_decl_json(t.name.as_str(), t.desc.as_str(), key, t.params.copy());
        let ghost before = r@;
        r.push(d);
        proof {
            assert(jvs(r@) =~= jvs(before).push(d@));
            assert(tool_decls(tools@, key@).take(i + 1) =~= tool_decls(tools@, key@).take(
                i as int,
            ).push(d@));
        }
        i = i + 1;
    }
    proof {
        assert(tool_decls(tools@, key@).take(tools@.len() as int) =~= tool_decls(tools@, key@));
    }
    r
}

/// OpenAI function entries of each tool.
pub fn openai_tools_json(tools: &[ToolDef]) -> (r: Vec<Json>)
    ensures
        jvs(r@) == openai_tools(tools@),
{
    let mut r: Vec<Json> = Vec::new();
    let mut i: usize = 0;
    while i < tools.len()
        invariant
            i <= tools@.len(),
            jvs(r@) == openai_tools(tools@).take(i as int),
        decreases tools@.len() - i,
    {
        let t = &tools[i];
        let d = openai_tool_json(t.name.as_str(), t.desc.as_str(), t.params.copy());
        let ghost before = r@;
        r.push(d);
        proof {
            assert(jvs(r@) =~= jvs(before).push(d@));
            assert(openai_tools(tools@).take(i + 1) =~= openai_tools(tools@).take(i as int).push(
                d@,
            ));
        }
        i = i + 1;
    }
    proof {
        assert(openai_tools(tools@).take(tools@.len() as int) =~= openai_tools(tools@));
    }
    r
}

/// Tool declarations are objects.
proof fn lemma_tool_decls_objects(tools: Seq<ToolDef>, key: Seq<char>)
    ensures
        cacheable_last(tool_decls(tools, key)),
{
}

/// Builds the body of an LLM call that offers several tools (`tool_choice`
/// auto).
pub fn build_multi_tool_request(
    model: &str,
    messages: &[Json],
    max_tokens: u32,
    tools: &[ToolDef],
    provider: Provider,
    reasoning_effort: Option<&str>,
) -> (r: Json)
    requires
        provider is Anthropic ==> cacheable_last(convo_messages(jvs(messages@))),
    ensures
        r@ == multi_tool_request_body(
            model@,
            jvs(messages@),
            max_tokens,
            tools@,
            provider,
            opt_str_view(reasoning_effort),
        ),
{
    match provider {
        Provider::Google => {
            let d = tool_decls_json(tools, "parameters");
            gemini_body_json(messages, max_tokens, d, "AUTO", reasoning_effort)
        },
        Provider::Anthropic => {
            let d = tool_decls_json(tools, "input_schema");
            proof {
                lemma_tool_decls_objects(tools@, "input_schema"@);
            }
            let mut choice = new_obj();
            choice.insert("type", Json::text("auto"));
            anthropic_body_json(model, messages, max_tokens, d, choice, reasoning_effort)
        },
        _ => {
            let t = openai_tools_json(tools);
            openai_body_json(model, messages, max_tokens, t, Json::text("auto"), reasoning_effort)
        },
    }
}

// ---------------------------------------------------------------------------
// Reading replies
// ---------------------------------------------------------------------------

/// The text of a string value; empty for anything else.
pub open spec fn str_or_empty(v: JVal) -> Seq<char> {
    match v {
        JVal::Str(s) => s,
        _ => Seq::empty(),
    }
}

/// The text of a string value, or empty.
pub fn text_or_empty(v: &Json) -> (r: String)
    ensures
        r@ == str_or_empty(v@),
{
    match v.as_str() {
        Some(s) => s.to_owned(),
        None => {
            proof {
                reveal_strlit("");
            }
            "".to_owned()
        },
    }
}

/// `value[key]`, as a copy.
pub fn field_copy(v: &Json, key: &str) -> (r: Json)
    ensures
        r@ == v@.field(key@),
{
    match v.get(key) {
        Some(x) => x.copy(),
        None => Json::Null,
    }
}

/// Index of the first block, from `i` on, whose `type` is `tool_use`.
pub open spec fn first_tool_use_from(blocks: Seq<JVal>, i: int) -> Option<int>
    decreases blocks.len() - i,
{
    if i < 0 || i >= blocks.len() {
        None
    } else if blocks[i].field("type"@).is_text("tool_use"@) {
        Some(i)
    } else {
        first_tool_use_from(blocks, i + 1)
    }
}

/// The `input` of the first `tool_use` block of an Anthropic reply.
pub open spec fn anthropic_output(resp: JVal) -> Option<JVal> {
    match resp.field("content"@).as_arr() {
        Some(blocks) => match first_tool_use_from(blocks, 0) {
            Some(i) => blocks[i].get("input"@),
            None => None,
        },
        None => None,
    }
}

/// The structured output of an Anthropic reply: the `input` of its first
/// `tool_use` block; `None` when there is no such block or it has no input.
pub fn extract_anthropic_output(resp: &Json) -> (r: Option<Json>)
    ensures
        crate::json::opt_view_owned(r) == anthropic_output(resp@),
{
    let blocks = match resp.get("content") {
        Some(c) => match c.as_array() {
            Some(b) => b,
            None => {
                return None;
            },
        },
        None => {
            return None;
        },
    };
    let ghost bv = jvs(blocks@);
    let mut i: usize = 0;
    while i < blocks.len()
        invariant
            i <= blocks@.len(),
            bv == jvs(blocks@),
            resp@.field("content"@).as_arr() == Some(bv),
            first_tool_use_from(bv, 0) == first_tool_use_from(bv, i as int),
        decreases blocks@.len() - i,
    {
        let b = &blocks[i];
        let is_tool = match b.get("type") {
            Some(t) => t.is_text("tool_use"),
            None => false,
        };
        if is_tool {
            return match b.get("input") {
                Some(x) => Some(x.copy()),
                None => None,
            };
        }
        i = i + 1;
    }
    None
}

/// `candidates[0].content.parts` of a Gemini reply, when it is an array.
pub open spec fn gemini_parts(resp: JVal) -> Option<Seq<JVal>> {
    match jptr(resp, seq!["candidates"@, "0"@, "content"@, "parts"@]) {
        Some(JVal::Arr(p)) => Some(p),
        _ => None,
    }
}

/// The `args` of the first part, from `i` on, holding a `functionCall` with args.
pub open spec fn first_call_args_from(parts: Seq<JVal>, i: int) -> Option<JVal>
    decreases parts.len() - i,
{
    if i < 0 || i >= parts.len() {
        None
    } else {
        match parts[i].get("functionCall"@) {
            Some(fc) => match fc.get("args"@) {
                Some(a) => Some(a),
                None => first_call_args_from(parts, i + 1),
            },
            None => first_call_args_from(parts, i + 1),
        }
    }
}

/// The concatenated `text` of the parts that have one.
pub open spec fn parts_text(parts: Seq<JVal>) -> Seq<char>
    decreases parts.len(),
{
    if parts.len() == 0 {
        Seq::empty()
    } else {
        parts_text(parts.drop_last()) + match parts.last().get("text"@) {
            Some(JVal::Str(t)) => t,
            _ => Seq::empty(),
        }
    }
}

/// What a Gemini reply offers as structured output.
pub enum GeminiReply {
    /// The arguments of a function call.
    Args(Json),
    /// No function call: the text of the parts, to be read as JSON.
    Text(String),
    /// The reply has no `candidates[0].content.parts` array.
    NoParts,
}

/// The pointer to a Gemini reply's parts.
pub fn gemini_parts_of(resp: &Json) -> (r: Option<&Vec<Json>>)
    ensures
        r matches Some(p) ==> gemini_parts(resp@) == Some(jvs(p@)),
        r is None ==> gemini_parts(resp@) is None,
{
    let p = resp.pointer(&["candidates", "0", "content", "parts"]);
    proof {
        assert(tok_views(seq!["candidates", "0", "content", "parts"]) =~= seq![
            "candidates"@,
            "0"@,
            "content"@,
            "parts"@,
        ]);
    }
    match p {
        Some(v) => v.as_array(),
        None => None,
    }
}

/// The concatenated text of a list of parts.
pub fn parts_text_of(parts: &Vec<Json>) -> (r: String)
    ensures
        r@ == parts_text(jvs(parts@)),
{
    let mut t: Vec<char> = Vec::new();
    let mut i: usize = 0;
    proof {
        assert(jvs(parts@).take(0) =~= Seq::<JVal>::empty());
    }
    while i < parts.len()
        invariant
            i <= parts@.len(),
            t@ == parts_text(jvs(parts@).take(i as int)),
        decreases parts@.len() - i,
    {
        proof {
            let q = jvs(parts@).take(i + 1);
            assert(q.drop_last() =~= jvs(parts@).take(i as int));
            assert(q.last() == parts@[i as int]@);
        }
        match parts[i].get("text") {
            Some(x) => match x.as_str() {
                Some(s) => {
                    push_str(&mut t, s);
                },
                None => {
                    proof {
                        assert(t@ + Seq::<char>::empty() =~= t@);
                    }
                },
            },
            None => {
                proof {
                    assert(t@ + Seq::<char>::empty() =~= t@);
                }
            },
        }
        i = i + 1;
    }
    proof {
        assert(jvs(parts@).take(parts@.len() as int) =~= jvs(parts@));
    }
    string_of(t.as_slice())
}

/// Reads a Gemini reply: the args of the first function call, else the text
/// of its parts, else that it has no parts.
pub fn extract_gemini_output(resp: &Json) -> (r: GeminiReply)
    ensures
        r is NoParts <==> gemini_parts(resp@) is None,
        r matches GeminiReply::Args(a) ==> gemini_parts(resp@) matches Some(p)
            && first_call_args_from(p, 0) == Some(a@),
        r matches GeminiReply::Text(t) ==> gemini_parts(resp@) matches Some(p)
            && first_call_args_from(p, 0) is None && t@ == parts_text(p),
{
    let parts = match gemini_parts_of(resp) {
        Some(p) => p,
        None => {
            return GeminiReply::NoParts;
        },
    };
    let ghost pv = jvs(parts@);
    let mut i: usize = 0;
    while i < parts.len()
        invariant
            i <= parts@.len(),
            pv == jvs(parts@),
            gemini_parts(resp@) == Some(pv),
            first_call_args_from(pv, 0) == first_call_args_from(pv, i as int),
        decreases parts@.len() - i,
    {
        match parts[i].get("functionCall") {
            Some(fc) => match fc.get("args") {
                Some(a) => {
                    return GeminiReply::Args(a.copy());
                },
                None => {},
            },
            None => {},
        }
        i = i + 1;
    }
    GeminiReply::Text(parts_text_of(parts))
}

/// What an OpenAI-family reply offers as structured output.
pub enum OpenaiReply {
    /// The arguments string of the first tool call, to be parsed as JSON.
    ToolArgs(String),
    /// No tool call: the message content, to be read as JSON or as an
    /// XML-style tool call, with the finish reason (`?` when absent).
    Content { content: String, finish: String },
    /// Neither a tool call nor a message content.
    NoContent,
}

/// `choices[0].message.tool_calls[0].function.arguments`.
pub open spec fn openai_args_path() -> Seq<Seq<char>> {
    seq!["choices"@, "0"@, "message"@, "tool_calls"@, "0"@, "function"@, "arguments"@]
}

/// `choices[0].message.content`.
pub open spec fn openai_content_path() -> Seq<Seq<char>> {
    seq!["choices"@, "0"@, "message"@, "content"@]
}

/// Reads an OpenAI-family reply: the first tool call's arguments string,
/// else the message content with the finish reason, else nothing.
pub fn extract_openai_output(resp: &Json) -> (r: OpenaiReply)
    ensures
        r matches OpenaiReply::ToolArgs(a) ==> jptr(resp@, openai_args_path()) == Some(
            JVal::Str(a@),
        ),
        r matches OpenaiReply::Content { content, finish } ==> !(jptr(
            resp@,
            openai_args_path(),
        ) matches Some(JVal::Str(_))) && jptr(resp@, openai_content_path()) == Some(
            JVal::Str(content@),
        ) && finish@ == match jptr(resp@, seq!["choices"@, "0"@, "finish_reason"@]) {
            Some(JVal::Str(f)) => f,
            _ => "?"@,
        },
        r is NoContent ==> !(jptr(resp@, openai_args_path()) matches Some(JVal::Str(_))) && !(jptr(
            resp@,
            openai_content_path(),
        ) matches Some(JVal::Str(_))),
{
    proof {
        assert(tok_views(seq!["choices", "0", "message", "tool_calls", "0", "function", "arguments"])
            =~= openai_args_path());
        assert(tok_views(seq!["choices", "0", "message", "content"]) =~= openai_content_path());
        assert(tok_views(seq!["choices", "0", "finish_reason"]) =~= seq![
            "choices"@,
            "0"@,
            "finish_reason"@,
        ]);
    }
    match resp.pointer(&["choices", "0", "message", "tool_calls", "0", "function", "arguments"]) {
        Some(a) => match a.as_str() {
            Some(s) => {
                return OpenaiReply::ToolArgs(s.to_owned());
            },
            None => {},
        },
        None => {},
    }
    let content = match resp.pointer(&["choices", "0", "message", "content"]) {
        Some(c) => match c.as_str() {
            Some(s) => s.to_owned(),
            None => {
                return OpenaiReply::NoContent;
            },
        },
        None => {
            return OpenaiReply::NoContent;
        },
    };
    let finish = match resp.pointer(&["choices", "0", "finish_reason"]) {
        Some(f) => match f.as_str() {
            Some(s) => s.to_owned(),
            None => "?".to_owned(),
        },
        None => "?".to_owned(),
    };
    OpenaiReply::Content { content, finish }
}

// ---------------------------------------------------------------------------
// Multi-turn tool loop
// ---------------------------------------------------------------------------

/// The arguments of a tool call: a JSON text still to be parsed (an
/// unparsable text counts as `null`), or a value.
pub enum ToolArgs {
    Raw(String),
    Value(Json),
}

/// A tool call the model asked for.
pub struct ToolCall {
    pub id: String,
    pub name: String,
    pub args: ToolArgs,
}

/// What one reply of the tool loop asks for.
pub enum LoopTurn {
    /// Tool calls, with the assistant turn that carries them.
    Calls { assistant: Json, calls: Vec<ToolCall> },
    /// The model's final text.
    Final(String),
}

/// The model of tool-call arguments.
pub enum ArgsV {
    Raw(Seq<char>),
    Value(JVal),
}

/// The model of a tool call: id, name, arguments.
pub open spec fn call_v(c: ToolCall) -> (Seq<char>, Seq<char>, ArgsV) {
    (
        c.id@,
        c.name@,
        match c.args {
            ToolArgs::Raw(s) => ArgsV::Raw(s@),
            ToolArgs::Value(v) => ArgsV::Value(v@),
        },
    )
}

/// Models of a list of tool calls.
pub open spec fn calls_v(s: Seq<ToolCall>) -> Seq<(Seq<char>, Seq<char>, ArgsV)> {
    s.map_values(|c: ToolCall| call_v(c))
}

/// The model of a loop turn.
pub enum TurnV {
    Calls(JVal, Seq<(Seq<char>, Seq<char>, ArgsV)>),
    Final(Seq<char>),
}

pub open spec fn turn_v(t: LoopTurn) -> TurnV {
    match t {
        LoopTurn::Calls { assistant, calls } => TurnV::Calls(assistant@, calls_v(calls@)),
        LoopTurn::Final(s) => TurnV::Final(s@),
    }
}

/// An OpenAI tool call: its id, its function's name, and its arguments (a
/// string to parse, an object as is, `null` otherwise).
pub open spec fn openai_call(c: JVal) -> (Seq<char>, Seq<char>, ArgsV) {
    let f = c.field("function"@);
    let a = f.field("arguments"@);
    (
        str_or_empty(c.field("id"@)),
        str_or_empty(f.field("name"@)),
        match a {
            JVal::Str(s) => ArgsV::Raw(s),
            JVal::Obj(_) => ArgsV::Value(a),
            _ => ArgsV::Value(JVal::Null),
        },
    )
}

/// An Anthropic `tool_use` block as a call.
pub open spec fn anthropic_call(b: JVal) -> (Seq<char>, Seq<char>, ArgsV) {
    (str_or_empty(b.field("id"@)), str_or_empty(b.field("name"@)), ArgsV::Value(b.field("input"@)))
}

/// A Gemini `functionCall` part as a call (Gemini calls carry no id).
pub open spec fn gemini_call(p: JVal) -> (Seq<char>, Seq<char>, ArgsV) {
    let fc = p.field("functionCall"@);
    (Seq::empty(), str_or_empty(fc.field("name"@)), ArgsV::Value(fc.field("args"@)))
}

/// The blocks whose `type` is `kind`.
pub open spec fn blocks_of_type(blocks: Seq<JVal>, kind: Seq<char>) -> Seq<JVal>
    decreases blocks.len(),
{
    if blocks.len() == 0 {
        Seq::empty()
    } else {
        let prev = blocks_of_type(blocks.drop_last(), kind);
        if blocks.last().field("type"@).is_text(kind) {
            prev.push(blocks.last())
        } else {
            prev
        }
    }
}

/// The concatenated `text` of the blocks that have a string `text`.
pub open spec fn blocks_text(blocks: Seq<JVal>) -> Seq<char>
    decreases blocks.len(),
{
    if blocks.len() == 0 {
        Seq::empty()
    } else {
        blocks_text(blocks.drop_last()) + match blocks.last().field("text"@) {
            JVal::Str(t) => t,
            _ => Seq::empty(),
        }
    }
}

/// The parts that hold a `functionCall`.
pub open spec fn call_parts(parts: Seq<JVal>) -> Seq<JVal>
    decreases parts.len(),
{
    if parts.len() == 0 {
        Seq::empty()
    } else {
        let prev = call_parts(parts.drop_last());
        if parts.last().get("functionCall"@) is Some {
            prev.push(parts.last())
        } else {
            prev
        }
    }
}

/// What a reply in the tool loop asks for, by provider.
pub open spec fn loop_turn_spec(p: Provider, resp: JVal) -> TurnV {
    if openai_family(p) {
        match jptr(resp, seq!["choices"@, "0"@, "message"@, "tool_calls"@]) {
            Some(JVal::Arr(calls)) if calls.len() > 0 => TurnV::Calls(
                match jptr(resp, seq!["choices"@, "0"@, "message"@]) {
                    Some(m) => m,
                    None => jobj(),
                },
                calls.map_values(|c: JVal| openai_call(c)),
            ),
            _ => TurnV::Final(str_or_empty(
                match jptr(resp, openai_content_path()) {
                    Some(c) => c,
                    None => JVal::Null,
                },
            )),
        }
    } else if p is Anthropic {
        match resp.field("content"@) {
            JVal::Arr(blocks) => {
                let uses = blocks_of_type(blocks, "tool_use"@);
                if uses.len() > 0 {
                    TurnV::Calls(
                        jobj().set("role"@, JVal::Str("assistant"@)).set(
                            "content"@,
                            JVal::Arr(blocks),
                        ),
                        uses.map_values(|b: JVal| anthropic_call(b)),
                    )
                } else {
                    TurnV::Final(blocks_text(blocks_of_type(blocks, "text"@)))
                }
            },
            _ => TurnV::Final(Seq::empty()),
        }
    } else {
        match gemini_parts(resp) {
            Some(parts) => {
                let fcs = call_parts(parts);
                if fcs.len() > 0 {
                    TurnV::Calls(
                        jobj().set("role"@, JVal::Str("model"@)).set("parts"@, JVal::Arr(fcs)),
                        fcs.map_values(|q: JVal| gemini_call(q)),
                    )
                } else {
                    TurnV::Final(parts_text(parts))
                }
            },
            None => TurnV::Final(Seq::empty()),
        }
    }
}

/// Reads an OpenAI tool call.
fn openai_call_of(c: &Json) -> (r: ToolCall)
    ensures
        call_v(r) == openai_call(c@),
{
    let f = field_copy(c, "function");
    let a = field_copy(&f, "arguments");
    let args = match &a {
        Json::Str(s) => ToolArgs::Raw(s.clone()),
        Json::Obj(_) => ToolArgs::Value(a.copy()),
        _ => ToolArgs::Value(Json::Null),
    };
    ToolCall { id: text_or_empty(&field_copy(c, "id")), name: text_or_empty(&field_copy(&f, "name")), args }
}

/// Reads an Anthropic `tool_use` block.
fn anthropic_call_of(b: &Json) -> (r: ToolCall)
    ensures
        call_v(r) == anthropic_call(b@),
{
    ToolCall {
        id: text_or_empty(&field_copy(b, "id")),
        name: text_or_empty(&field_copy(b, "name")),
        args: ToolArgs::Value(field_copy(b, "input")),
    }
}

/// Reads a Gemini `functionCall` part.
fn gemini_call_of(p: &Json) -> (r: ToolCall)
    ensures
        call_v(r) == gemini_call(p@),
{
    let fc = field_copy(p, "functionCall");
    proof {
        reveal_strlit("");
    }
    ToolCall {
        id: "".to_owned(),
        name: text_or_empty(&field_copy(&fc, "name")),
        args: ToolArgs::Value(field_copy(&fc, "args")),
    }
}

/// Reads what one reply of the multi-turn tool loop asks for: the tool
/// calls with the assistant turn that carries them, or the final text.
pub fn loop_turn(provider: Provider, resp: &Json) -> (r: LoopTurn)
    ensures
        turn_v(r) == loop_turn_spec(provider, resp@),
{
    proof {
        assert(tok_views(seq!["choices", "0", "message", "tool_calls"]) =~= seq![
            "choices"@,
            "0"@,
            "message"@,
            "tool_calls"@,
        ]);
        assert(tok_views(seq!["choices", "0", "message"]) =~= seq![
            "choices"@,
            "0"@,
            "message"@,
        ]);
        assert(tok_views(seq!["choices", "0", "message", "content"]) =~= openai_content_path());
    }
    if provider.is_openai_family() {
        let calls = match resp.pointer(&["choices", "0", "message", "tool_calls"]) {
            Some(c) => c.as_array(),
            None => None,
        };
        match calls {
            Some(cs) => {
                if cs.len() > 0 {
                    let assistant = match resp.pointer(&["choices", "0", "message"]) {
                        Some(m) => m.copy(),
                        None => new_obj(),
                    };
                    let mut out: Vec<ToolCall> = Vec::new();
                    let mut i: usize = 0;
                    while i < cs.len()
                        invariant
                            i <= cs@.len(),
                            calls_v(out@) == jvs(cs@).take(i as int).map_values(
                                |c: JVal| openai_call(c),
                            ),
                        decreases cs@.len() - i,
                    {
                        let c = openai_call_of(&cs[i]);
                        let ghost before = out@;
                        out.push(c);
                        proof {
                            assert(calls_v(out@) =~= calls_v(before).push(call_v(c)));
                            assert(jvs(cs@).take(i + 1).map_values(|c: JVal| openai_call(c))
                                =~= jvs(cs@).take(i as int).map_values(|c: JVal| openai_call(c)).push(
                                openai_call(cs@[i as int]@),
                            ));
                        }
                        i = i + 1;
                    }
                    proof {
                        assert(jvs(cs@).take(cs@.len() as int) =~= jvs(cs@));
                    }
                    return LoopTurn::Calls { assistant, calls: out };
                }
            },
            None => {},
        }
        let content = match resp.pointer(&["choices", "0", "message", "content"]) {
            Some(c) => text_or_empty(c),
            None => text_or_empty(&Json::Null),
        };
        LoopTurn::Final(content)
    } else if provider == Provider::Anthropic {
        let blocks = match resp.get("content") {
            Some(c) => c.as_array(),
            None => None,
        };
        match blocks {
            Some(bs) => {
                let ghost bv = jvs(bs@);
                let mut uses: Vec<ToolCall> = Vec::new();
                let mut text: Vec<char> = Vec::new();
                let mut i: usize = 0;
                proof {
                    assert(bv.take(0) =~= Seq::<JVal>::empty());
                }
                while i < bs.len()
                    invariant
                        i <= bs@.len(),
                        bv == jvs(bs@),
                        calls_v(uses@) == blocks_of_type(bv.take(i as int), "tool_use"@).map_values(
                            |b: JVal| anthropic_call(b),
                        ),
                        text@ == blocks_text(blocks_of_type(bv.take(i as int), "text"@)),
                    decreases bs@.len() - i,
                {
                    let b = &bs[i];
                    proof {
                        assert(bv.take(i + 1).drop_last() =~= bv.take(i as int));
                        assert(bv.take(i + 1).last() == b@);
                    }
                    let t = field_copy(b, "type");
                    let ghost before = uses@;
                    if t.is_text("tool_use") {
                        let c = anthropic_call_of(b);
                        uses.push(c);
                        proof {
                            assert(calls_v(uses@) =~= calls_v(before).push(call_v(c)));
                            assert(blocks_of_type(bv.take(i + 1), "tool_use"@).map_values(
                                |b: JVal| anthropic_call(b),
                            ) =~= blocks_of_type(bv.take(i as int), "tool_use"@).map_values(
                                |b: JVal| anthropic_call(b),
                            ).push(anthropic_call(b@)));
                        }
                    }
                    if t.is_text("text") {
                        proof {
                            let bt = blocks_of_type(bv.take(i as int), "text"@);
                            assert(blocks_of_type(bv.take(i + 1), "text"@) == bt.push(b@));
                            assert(bt.push(b@).drop_last() =~= bt);
                        }
                        let x = field_copy(b, "text");
                        match x.as_str() {
                            Some(s) => push_str(&mut text, s),
                            None => {
                                proof {
                                    assert(text@ + Seq::<char>::empty() =~= text@);
                                }
                            },
                        }
                    }
                    i = i + 1;
                }
                proof {
                    assert(bv.take(bs@.len() as int) =~= bv);
                }
                if uses.len() > 0 {
                    let mut a = new_obj();
                    a.insert("role", Json::text("assistant"));
                    a.insert("content", Json::array(copy_all(bs.as_slice())));
                    LoopTurn::Calls { assistant: a, calls: uses }
                } else {
                    LoopTurn::Final(string_of(text.as_slice()))
                }
            },
            None => LoopTurn::Final(text_or_empty(&Json::Null)),
        }
    } else {
        match gemini_parts_of(resp) {
            Some(parts) => {
                let ghost pv = jvs(parts@);
                let mut fcs: Vec<Json> = Vec::new();
                let mut calls: Vec<ToolCall> = Vec::new();
                let mut i: usize = 0;
                proof {
                    assert(pv.take(0) =~= Seq::<JVal>::empty());
                    assert(jvs(fcs@) =~= Seq::<JVal>::empty());
                }
                while i < parts.len()
                    invariant
                        i <= parts@.len(),
                        pv == jvs(parts@),
                        jvs(fcs@) == call_parts(pv.take(i as int)),
                        calls_v(calls@) == call_parts(pv.take(i as int)).map_values(
                            |q: JVal| gemini_call(q),
                        ),
                    decreases parts@.len() - i,
                {
                    let q = &parts[i];
                    proof {
                        assert(pv.take(i + 1).drop_last() =~= pv.take(i as int));
                        assert(pv.take(i + 1).last() == q@);
                    }
                    if q.get("functionCall").is_some() {
                        let ghost f0 = fcs@;
                        let ghost c0 = calls@;
                        let c = gemini_call_of(q);
                        let qc = q.copy();
                        fcs.push(qc);
                        calls.push(c);
                        proof {
                            assert(jvs(fcs@) =~= jvs(f0).push(qc@));
                            assert(calls_v(calls@) =~= calls_v(c0).push(call_v(c)));
                            assert(call_parts(pv.take(i + 1)).map_values(|q: JVal| gemini_call(q))
                                =~= call_parts(pv.take(i as int)).map_values(
                                |q: JVal| gemini_call(q),
                            ).push(gemini_call(q@)));
                        }
                    }
                    i = i + 1;
                }
                proof {
                    assert(pv.take(parts@.len() as int) =~= pv);
                }
                if fcs.len() > 0 {
                    let mut a = new_obj();
                    a.insert("role", Json::text("model"));
                    a.insert("parts", Json::array(fcs));
                    LoopTurn::Calls { assistant: a, calls }
                } else {
                    LoopTurn::Final(parts_text_of(parts))
                }
            },
            None => LoopTurn::Final(text_or_empty(&Json::Null)),
        }
    }
}

/// The text a tool result is reported with: the output, or `Error: {e}`.
pub open spec fn result_text(r: Result<String, String>) -> Seq<char> {
    match r {
        Ok(s) => s@,
        Err(e) => "Error: "@ + e@,
    }
}

/// The messages that report tool results back to the model: one `tool`
/// message per call for the OpenAI family; one user turn of `tool_result`
/// blocks (the last one a cache breakpoint) for Anthropic; one user turn of
/// `functionResponse` parts for Gemini.
pub open spec fn tool_reply_spec(
    p: Provider,
    calls: Seq<(Seq<char>, Seq<char>, ArgsV)>,
    results: Seq<Result<String, String>>,
) -> Seq<JVal> {
    if openai_family(p) {
        Seq::new(
            calls.len(),
            |i: int|
                jobj().set("role"@, JVal::Str("tool"@)).set("tool_call_id"@, JVal::Str(calls[i].0)).set(
                    "content"@,
                    JVal::Str(result_text(results[i])),
                ),
        )
    } else if p is Anthropic {
        seq![
            jobj().set("role"@, JVal::Str("user"@)).set(
                "content"@,
                JVal::Arr(
                    with_last_cached(
                        Seq::new(
                            calls.len(),
                            |i: int|
                                jobj().set("type"@, JVal::Str("tool_result"@)).set(
                                    "tool_use_id"@,
                                    JVal::Str(calls[i].0),
                                ).set("content"@, JVal::Str(result_text(results[i]))),
                        ),
                    ),
                ),
            ),
        ]
    } else {
        seq![
            jobj().set("role"@, JVal::Str("user"@)).set(
                "parts"@,
                JVal::Arr(
                    Seq::new(
                        calls.len(),
                        |i: int|
                            jobj().set(
                                "functionResponse"@,
                                jobj().set("name"@, JVal::Str(calls[i].1)).set(
                                    "response"@,
                                    jobj().set("result"@, JVal::Str(result_text(results[i]))),
                                ),
                            ),
                    ),
                ),
            ),
        ]
    }
}

/// The text of a tool result.
pub fn result_text_of(r: &Result<String, String>) -> (s: String)
    ensures
        s@ == result_text(*r),
{
    match r {
        Ok(s) => s.clone(),
        Err(e) => {
            let mut v = chars_of("Error: ");
            push_str(&mut v, e.as_str());
            string_of(v.as_slice())
        },
    }
}

/// Builds the messages that report tool results back to the model.
pub fn tool_reply_messages(
    provider: Provider,
    calls: &Vec<ToolCall>,
    results: &Vec<Result<String, String>>,
) -> (r: Vec<Json>)
    requires
        calls@.len() == results@.len(),
    ensures
        jvs(r@) == tool_reply_spec(provider, calls_v(calls@), results@),
{
    let ghost cv = calls_v(calls@);
    let mut items: Vec<Json> = Vec::new();
    let mut i: usize = 0;
    while i < calls.len()
        invariant
            i <= calls@.len() == results@.len(),
            cv == calls_v(calls@),
            items@.len() == i,
            forall|k: int|
                0 <= k < i ==> (#[trigger] items@[k])@ == (if openai_family(provider) {
                    jobj().set("role"@, JVal::Str("tool"@)).set("tool_call_id"@, JVal::Str(cv[k].0)).set(
                        "content"@,
                        JVal::Str(result_text(results@[k])),
                    )
                } else if provider is Anthropic {
                    jobj().set("type"@, JVal::Str("tool_result"@)).set(
                        "tool_use_id"@,
                        JVal::Str(cv[k].0),
                    ).set("content"@, JVal::Str(result_text(results@[k])))
                } else {
                    jobj().set(
                        "functionResponse"@,
                        jobj().set("name"@, JVal::Str(cv[k].1)).set(
                            "response"@,
                            jobj().set("result"@, JVal::Str(result_text(results@[k]))),
                        ),
                    )
                }),
        decreases calls@.len() - i,
    {
        let c = &calls[i];
        let text = result_text_of(&results[i]);
        let mut m = new_obj();
        if provider.is_openai_family() {
            m.insert("role", Json::text("tool"));
            m.insert("tool_call_id", Json::text(c.id.as_str()));
            m.insert("content", Json::Str(text));
        } else if provider == Provider::Anthropic {
            m.insert("type", Json::text("tool_result"));
            m.insert("tool_use_id", Json::text(c.id.as_str()));
            m.insert("content", Json::Str(text));
        } else {
            let mut res = new_obj();
            res.insert("result", Json::Str(text));
            let mut fr = new_obj();
            fr.insert("name", Json::text(c.name.as_str()));
            fr.insert("response", res);
            m.insert("functionResponse", fr);
        }
        items.push(m);
        i = i + 1;
    }
    if provider.is_openai_family() {
        proof {
            assert(jvs(items@) =~= tool_reply_spec(provider, cv, results@));
        }
        items
    } else if provider == Provider::Anthropic {
        let ghost iv = jvs(items@);
        let mut items = items;
        cache_last(&mut items);
        let mut m = new_obj();
        m.insert("role", Json::text("user"));
        m.insert("content", Json::array(items));
        let r = vec1(m);
        proof {
            assert(iv =~= Seq::new(
                cv.len(),
                |i: int|
                    jobj().set("type"@, JVal::Str("tool_result"@)).set(
                        "tool_use_id"@,
                        JVal::Str(cv[i].0),
                    ).set("content"@, JVal::Str(result_text(results@[i]))),
            ));
        }
        r
    } else {
        let ghost iv = jvs(items@);
        let mut m = new_obj();
        m.insert("role", Json::text("user"));
        m.insert("parts", Json::array(items));
        proof {
            assert(iv =~= Seq::new(
                cv.len(),
                |i: int|
                    jobj().set(
                        "functionResponse"@,
                        jobj().set("name"@, JVal::Str(cv[i].1)).set(
                            "response"@,
                            jobj().set("result"@, JVal::Str(result_text(results@[i]))),
                        ),
                    ),
            ));
        }
        vec1(m)
    }
}

// ---------------------------------------------------------------------------
// Retry harness
// ---------------------------------------------------------------------------

/// `2^n`.
pub open spec fn two_pow(n: nat) -> nat
    decreases n,
{
    if n == 0 {
        1
    } else {
        2 * two_pow((n - 1) as nat)
    }
}

/// Seconds to wait after a failed attempt: `2^attempt`.
pub fn backoff_secs(attempt: u32) -> (r: u64)
    requires
        attempt < LLM_MAX_RETRIES,
    ensures
        r == two_pow(attempt as nat),
{
    proof {
        reveal_with_fuel(two_pow, 3);
    }
    if attempt == 0 {
        1
    } else if attempt == 1 {
        2
    } else {
        4
    }
}

/// Errors worth another attempt: gateway and rate-limit statuses, timeouts,
/// dropped connections, empty replies.
pub open spec fn transient_error(msg: Seq<char>) -> bool {
    contains(msg, "502"@) || contains(msg, "503"@) || contains(msg, "504"@) || contains(
        msg,
        "429"@,
    ) || contains(msg, "500"@) || contains(msg, "timed out"@) || contains(msg, "connection"@)
        || contains(msg, "empty response"@)
}

/// A proxy that refuses forced tool choice: a 400 / Bad Request about tools.
pub open spec fn tool_choice_rejected(msg: Seq<char>) -> bool {
    contains(msg, "tool"@) && (contains(msg, "400"@) || contains(msg, "Bad Request"@))
}

/// Server errors (500, 502, 503, 504), rate limiting (429), time-outs,
/// connection failures and empty responses are all transient: any message
/// that mentions one of them is retried.
pub proof fn law_transient_markers(msg: Seq<char>)
    ensures
        contains(msg, "429"@) ==> transient_error(msg),
        contains(msg, "500"@) ==> transient_error(msg),
        contains(msg, "502"@) ==> transient_error(msg),
        contains(msg, "503"@) ==> transient_error(msg),
        contains(msg, "504"@) ==> transient_error(msg),
        contains(msg, "timed out"@) ==> transient_error(msg),
        contains(msg, "connection"@) ==> transient_error(msg),
        contains(msg, "empty response"@) ==> transient_error(msg),
{
}

/// Whether a request error is transient.
pub fn is_transient_error(msg: &str) -> (b: bool)
    ensures
        b == transient_error(msg@),
{
    let m = chars_of(msg);
    contains_str(m.as_slice(), "502") || contains_str(m.as_slice(), "503") || contains_str(
        m.as_slice(),
        "504",
    ) || contains_str(m.as_slice(), "429") || contains_str(m.as_slice(), "500") || contains_str(
        m.as_slice(),
        "timed out",
    ) || contains_str(m.as_slice(), "connection") || contains_str(m.as_slice(), "empty response")
}

/// Whether a request error says the proxy rejected forced tool choice.
pub fn is_tool_choice_rejection(msg: &str) -> (b: bool)
    ensures
        b == tool_choice_rejected(msg@),
{
    let m = chars_of(msg);
    contains_str(m.as_slice(), "tool") && (contains_str(m.as_slice(), "400") || contains_str(
        m.as_slice(),
        "Bad Request",
    ))
}

/// What the retry harness does after an attempt.
pub enum RetryAction {
    /// Return this output.
    Accept(Json),
    /// Switch to the JSON-mode fallback.
    FallbackToJson,
    /// Give up with the request's own error.
    Fail,
    /// Remember the error and wait before the next attempt.
    Retry { last_error: String, backoff_secs: u64 },
}

/// After an attempt that produced output: accept it when it has every
/// required field, else retry with the validation message.
pub fn decide_after_output(attempt: u32, output: Json, schema: &Json) -> (r: RetryAction)
    requires
        attempt < LLM_MAX_RETRIES,
    ensures
        first_missing(output@, schema@) is None ==> (r matches RetryAction::Accept(o) && o@
            == output@),
        first_missing(output@, schema@) matches Some(n) ==> (r matches RetryAction::Retry {
            last_error,
            backoff_secs,
        } && last_error@ == missing_message(n) && backoff_secs == two_pow(attempt as nat)),
{
    match validate_required_fields(&output, schema) {
        Ok(()) => RetryAction::Accept(output),
        Err(e) => RetryAction::Retry { last_error: e, backoff_secs: backoff_secs(attempt) },
    }
}

/// After an attempt whose request failed: fall back to JSON mode when the
/// proxy rejected tool choice; fail on a lasting error or on the last
/// attempt; otherwise retry after the backoff.
pub fn decide_after_error(attempt: u32, msg: &str) -> (r: RetryAction)
    requires
        attempt < LLM_MAX_RETRIES,
    ensures
        tool_choice_rejected(msg@) ==> r is FallbackToJson,
        !tool_choice_rejected(msg@) && (!transient_error(msg@) || attempt + 1 >= LLM_MAX_RETRIES)
            ==> r is Fail,
        !tool_choice_rejected(msg@) && transient_error(msg@) && attempt + 1 < LLM_MAX_RETRIES
            ==> (r matches RetryAction::Retry { last_error, backoff_secs } && last_error@ == msg@
            && backoff_secs == two_pow(attempt as nat)),
{
    if is_tool_choice_rejection(msg) {
        RetryAction::FallbackToJson
    } else if !is_transient_error(msg) || attempt + 1 >= LLM_MAX_RETRIES {
        RetryAction::Fail
    } else {
        RetryAction::Retry { last_error: msg.to_owned(), backoff_secs: backoff_secs(attempt) }
    }
}

/// The follow-up turn after a rejected reply.
pub open spec fn retry_prompt_text(err: Seq<char>, tool_name: Seq<char>) -> Seq<char> {
    "Your previous response was rejected: "@ + err + "\nPlease call "@ + tool_name
        + " again with a valid response that includes ALL required fields."@
}

/// The user turn that asks the model to call the tool again.
pub fn retry_prompt(err: &str, tool_name: &str) -> (r: Json)
    ensures
        r@ == jobj().set("role"@, JVal::Str("user"@)).set(
            "content"@,
            JVal::Str(retry_prompt_text(err@, tool_name@)),
        ),
{
    let mut v = chars_of("Your previous response was rejected: ");
    push_str(&mut v, err);
    push_str(&mut v, "\nPlease call ");
    push_str(&mut v, tool_name);
    push_str(&mut v, " again with a valid response that includes ALL required fields.");
    let mut m = new_obj();
    m.insert("role", Json::text("user"));
    m.insert("content", Json::Str(string_of(v.as_slice())));
    m
}

/// `{"role": "user", "content": text}`.
pub fn user_message(text: &str) -> (r: Json)
    ensures
        r@ == jobj().set("role"@, JVal::Str("user"@)).set("content"@, JVal::Str(text@)),
{
    let mut m = new_obj();
    m.insert("role", Json::text("user"));
    m.insert("content", Json::text(text));
    m
}

/// `{"role": "system", "content": text}`.
pub fn system_message(text: &str) -> (r: Json)
    ensures
        r@ == jobj().set("role"@, JVal::Str("system"@)).set("content"@, JVal::Str(text@)),
{
    let mut m = new_obj();
    m.insert("role", Json::text("system"));
    m.insert("content", Json::text(text));
    m
}

/// The last error, or `unknown`.
pub open spec fn last_error_text(last: Option<Seq<char>>) -> Seq<char> {
    match last {
        Some(e) => e,
        None => "unknown"@,
    }
}

/// `call_llm_tool[{tool}]: exhausted 3 attempts. Last error: {last}`.
pub fn exhausted_message(tool_name: &str, last: Option<&str>) -> (r: String)
    ensures
        r@ == "call_llm_tool["@ + tool_name@ + "]: exhausted 3 attempts. Last error: "@
            + last_error_text(opt_str_view(last)),
{
    let mut v = chars_of("call_llm_tool[");
    push_str(&mut v, tool_name);
    push_str(&mut v, "]: exhausted 3 attempts. Last error: ");
    match last {
        Some(e) => push_str(&mut v, e),
        None => push_str(&mut v, "unknown"),
    }
    string_of(v.as_slice())
}

// ---------------------------------------------------------------------------
// JSON-mode fallback
// ---------------------------------------------------------------------------

/// The prompt with the schema appended, asking for a bare JSON object.
pub open spec fn json_mode_prompt_text(prompt: Seq<char>, desc: Seq<char>, schema: Seq<char>) -> Seq<
    char,
> {
    prompt + "\n\n### OUTPUT FORMAT\n"@ + desc
        + ". Respond with ONLY a valid JSON object (no markdown fences, no prose) matching this schema:\n"@
        + schema
}

/// Builds the JSON-mode prompt from the task prompt, the tool description
/// and the pretty-printed schema.
pub fn json_mode_prompt(prompt: &str, tool_desc: &str, schema_text: &str) -> (r: String)
    ensures
        r@ == json_mode_prompt_text(prompt@, tool_desc@, schema_text@),
{
    let mut v = chars_of(prompt);
    push_str(&mut v, "\n\n### OUTPUT FORMAT\n");
    push_str(&mut v, tool_desc);
    push_str(
        &mut v,
        ". Respond with ONLY a valid JSON object (no markdown fences, no prose) matching this schema:\n",
    );
    push_str(&mut v, schema_text);
    string_of(v.as_slice())
}

/// The Gemini JSON-mode body: one user turn, JSON response type.
pub fn gemini_json_body(prompt: &str, max_tokens: u32) -> (r: Json)
    ensures
        r@ == jobj().set(
            "contents"@,
            JVal::Arr(
                seq![
                    jobj().set("role"@, JVal::Str("user"@)).set("parts"@, text_parts(prompt@)),
                ],
            ),
        ).set(
            "generationConfig"@,
            jobj().set("maxOutputTokens"@, JVal::PosInt(max_tokens as u64)).set(
                "responseMimeType"@,
                JVal::Str("application/json"@),
            ),
        ),
{
    let mut turn = new_obj();
    turn.insert("role", Json::text("user"));
    turn.insert("parts", text_parts_json(prompt));
    let mut gen = new_obj();
    gen.insert("maxOutputTokens", Json::PosInt(max_tokens as u64));
    gen.insert("responseMimeType", Json::text("application/json"));
    let mut body = new_obj();
    body.insert("contents", arr1(turn));
    body.insert("generationConfig", gen);
    body
}

/// The OpenAI-family JSON-mode body.
pub fn json_mode_body(model: &str, messages: &[Json], max_tokens: u32) -> (r: Json)
    ensures
        r@ == jobj().set("model"@, JVal::Str(model@)).set(
            "max_tokens"@,
            JVal::PosInt(max_tokens as u64),
        ).set("stream"@, JVal::Bool(false)).set(
            "response_format"@,
            jobj().set("type"@, JVal::Str("json_object"@)),
        ).set("messages"@, JVal::Arr(jvs(messages@))),
{
    let mut fmt = new_obj();
    fmt.insert("type", Json::text("json_object"));
    let mut body = new_obj();
    body.insert("model", Json::text(model));
    body.insert("max_tokens", Json::PosInt(max_tokens as u64));
    body.insert("stream", Json::Bool(false));
    body.insert("response_format", fmt);
    body.insert("messages", Json::array(copy_all(messages)));
    body
}

/// The follow-up turn after an invalid JSON-mode reply.
pub fn invalid_json_prompt(err: &str) -> (r: Json)
    ensures
        r@ == jobj().set("role"@, JVal::Str("user"@)).set(
            "content"@,
            JVal::Str("Your previous response was invalid: "@ + err@ + ". Output ONLY valid JSON."@),
        ),
{
    let mut v = chars_of("Your previous response was invalid: ");
    push_str(&mut v, err);
    push_str(&mut v, ". Output ONLY valid JSON.");
    let s = string_of(v.as_slice());
    user_message(s.as_str())
}

/// The outcome of one JSON-mode attempt given the document found in the
/// reply (if any): the output when it has every required field, else the
/// error to remember.
pub open spec fn json_attempt_spec(
    parsed: Option<JVal>,
    schema: JVal,
    gemini: bool,
    finish: Seq<char>,
) -> Result<JVal, Seq<char>> {
    match parsed {
        Some(o) => match first_missing(o, schema) {
            None => Ok(o),
            Some(n) => Err(missing_message(n)),
        },
        None => if gemini {
            Err("could not parse JSON from Gemini response"@)
        } else {
            Err("could not parse JSON [finish="@ + finish + "]"@)
        },
    }
}

/// Judges one JSON-mode attempt.
pub fn json_attempt(parsed: Option<Json>, schema: &Json, gemini: bool, finish: &str) -> (r: Result<
    Json,
    String,
>)
    ensures
        match (r, json_attempt_spec(crate::json::opt_view_owned(parsed), schema@, gemini, finish@)) {
            (Ok(o), Ok(v)) => o@ == v,
            (Err(e), Err(m)) => e@ == m,
            _ => false,
        },
{
    match parsed {
        Some(o) => match validate_required_fields(&o, schema) {
            Ok(()) => Ok(o),
            Err(e) => Err(e),
        },
        None => if gemini {
            Err("could not parse JSON from Gemini response".to_owned())
        } else {
            let mut v = chars_of("could not parse JSON [finish=");
            push_str(&mut v, finish);
            push_str(&mut v, "]");
            Err(string_of(v.as_slice()))
        },
    }
}

/// The message when the JSON-mode fallback runs out of attempts.
pub fn json_fallback_exhausted(tool_name: &str, gemini: bool, last: Option<&str>) -> (r: String)
    ensures
        r@ == (if gemini {
            "call_llm_json_fallback[gemini, "@
        } else {
            "call_llm_json_fallback["@
        }) + tool_name@ + "]: exhausted retries. Last error: "@ + last_error_text(
            opt_str_view(last),
        ),
{
    let mut v = if gemini {
        chars_of("call_llm_json_fallback[gemini, ")
    } else {
        chars_of("call_llm_json_fallback[")
    };
    push_str(&mut v, tool_name);
    push_str(&mut v, "]: exhausted retries. Last error: ");
    match last {
        Some(e) => push_str(&mut v, e),
        None => push_str(&mut v, "unknown"),
    }
    string_of(v.as_slice())
}

// ---------------------------------------------------------------------------
// Model discovery and capabilities
// ---------------------------------------------------------------------------

/// A model an endpoint lists, with the limits it reports.
pub struct ModelInfo {
    pub id: String,
    pub context_window: Option<u32>,
    pub max_output: Option<u32>,
}

/// Context window and output limit of one model.
pub struct ModelCapabilities {
    pub ctx_window: u32,
    pub max_output: u32,
    pub source: &'static str,
}

/// The model of a listed model: id, context window, output limit.
pub open spec fn model_v(m: ModelInfo) -> (Seq<char>, Option<u32>, Option<u32>) {
    (m.id@, m.context_window, m.max_output)
}

pub open spec fn models_v(s: Seq<ModelInfo>) -> Seq<(Seq<char>, Option<u32>, Option<u32>)> {
    s.map_values(|m: ModelInfo| model_v(m))
}

/// A number read as `u32` (truncating, as `as u32` does).
pub open spec fn u32_of(v: JVal) -> Option<u32> {
    match v.as_u64() {
        Some(n) => Some(n as u32),
        None => None,
    }
}

/// One entry of a model list: OpenAI-style `{id, context_length,
/// top_provider.max_completion_tokens}`, or Gemini-style `{name:
/// "models/…", inputTokenLimit}`.
pub open spec fn model_entry(m: JVal, google: bool) -> (Seq<char>, Option<u32>, Option<u32>) {
    if google {
        let name = str_or_empty(m.field("name"@));
        let id = if crate::text::starts_with(name, "models/"@) {
            name.skip(7)
        } else {
            name
        };
        (id, u32_of(m.field("inputTokenLimit"@)), None)
    } else {
        (
            str_or_empty(m.field("id"@)),
            u32_of(m.field("context_length"@)),
            u32_of(m.field("top_provider"@).field("max_completion_tokens"@)),
        )
    }
}

/// The entries with a non-empty id, in order.
pub open spec fn model_entries(items: Seq<JVal>, google: bool) -> Seq<
    (Seq<char>, Option<u32>, Option<u32>),
>
    decreases items.len(),
{
    if items.len() == 0 {
        Seq::empty()
    } else {
        let prev = model_entries(items.drop_last(), google);
        let e = model_entry(items.last(), google);
        if e.0.len() == 0 {
            prev
        } else {
            prev.push(e)
        }
    }
}

/// The models listed in a model-list reply: under `models` for Gemini,
/// under `data` otherwise.
pub open spec fn listed_models(body: JVal, google: bool) -> Seq<(Seq<char>, Option<u32>, Option<u32>)> {
    match body.field(if google {
        "models"@
    } else {
        "data"@
    }) {
        JVal::Arr(items) => model_entries(items, google),
        _ => Seq::empty(),
    }
}

/// A number read as `u32`.
fn u32_json(v: &Json) -> (r: Option<u32>)
    ensures
        r == u32_of(v@),
{
    match v.as_u64() {
        Some(n) => Some(n as u32),
        None => None,
    }
}

/// Reads one entry of a model list.
fn model_entry_of(m: &Json, google: bool) -> (r: ModelInfo)
    ensures
        model_v(r) == model_entry(m@, google),
{
    if google {
        let name = chars_of(text_or_empty(&field_copy(m, "name")).as_str());
        let id = if crate::text::starts_with_str(name.as_slice(), "models/") {
            proof {
                reveal_strlit("models/");
            }
            let v = crate::text::slice_chars(name.as_slice(), 7, name.len());
            proof {
                assert(v@ =~= name@.skip(7));
            }
            v
        } else {
            name
        };
        ModelInfo {
            id: string_of(id.as_slice()),
            context_window: u32_json(&field_copy(m, "inputTokenLimit")),
            max_output: None,
        }
    } else {
        let tp = field_copy(m, "top_provider");
        ModelInfo {
            id: text_or_empty(&field_copy(m, "id")),
            context_window: u32_json(&field_copy(m, "context_length")),
            max_output: u32_json(&field_copy(&tp, "max_completion_tokens")),
        }
    }
}

/// Reads the models out of a model-list reply (entries without an id are
/// skipped).
pub fn models_from_body(body: &Json, google: bool) -> (r: Vec<ModelInfo>)
    ensures
        models_v(r@) == listed_models(body@, google),
{
    let list = field_copy(body, if google {
        "models"
    } else {
        "data"
    });
    let mut out: Vec<ModelInfo> = Vec::new();
    match &list {
        Json::Arr(items) => {
            proof {
                lemma_arr_view(*items);
            }
            let ghost iv = jvs(items@);
            let mut i: usize = 0;
            proof {
                assert(iv.take(0) =~= Seq::<JVal>::empty());
                assert(models_v(out@) =~= Seq::<(Seq<char>, Option<u32>, Option<u32>)>::empty());
            }
            while i < items.len()
                invariant
                    i <= items@.len(),
                    iv == jvs(items@),
                    models_v(out@) == model_entries(iv.take(i as int), google),
                decreases items@.len() - i,
            {
                proof {
                    assert(iv.take(i + 1).drop_last() =~= iv.take(i as int));
                    assert(iv.take(i + 1).last() == items@[i as int]@);
                }
                let e = model_entry_of(&items[i], google);
                if e.id.as_str().is_empty() == false {
                    let ghost before = out@;
                    out.push(e);
                    proof {
                        assert(models_v(out@) =~= models_v(before).push(model_v(e)));
                    }
                }
                i = i + 1;
            }
            proof {
                assert(iv.take(items@.len() as int) =~= iv);
            }
        },
        _ => {},
    }
    out
}

/// The model-list URL tried after the native Anthropic listing fails:
/// `{origin}/v1/models`.
pub open spec fn fallback_models_url_spec(endpoint: Seq<char>) -> Seq<char> {
    crate::text::strip_end_char(crate::provider::url_origin(endpoint), '/') + "/v1/models"@
}

/// The OpenAI-compatible model-list URL on the endpoint's origin.
pub fn fallback_models_url(endpoint: &str) -> (r: String)
    ensures
        r@ == fallback_models_url_spec(endpoint@),
{
    let origin = crate::provider::extract_origin(endpoint);
    let mut v = crate::text::trim_end_matches(chars_of(origin.as_str()).as_slice(), '/');
    push_str(&mut v, "/v1/models");
    string_of(v.as_slice())
}

/// Index of the first listed model, from `i` on, whose id is the model or
/// occurs in its name.
pub open spec fn first_model_match(ms: Seq<(Seq<char>, Option<u32>, Option<u32>)>, model: Seq<char>, i: int) -> Option<int>
    decreases ms.len() - i,
{
    if i < 0 || i >= ms.len() {
        None
    } else if ms[i].0 == model || contains(model, ms[i].0) {
        Some(i)
    } else {
        first_model_match(ms, model, i + 1)
    }
}

/// Capabilities read from a model list: those of the first listed model
/// matching `model`, when it reports a context window; the output limit
/// defaults to 0, and the source says whether it was reported.
pub open spec fn listed_caps(ms: Seq<(Seq<char>, Option<u32>, Option<u32>)>, model: Seq<char>) -> Option<
    (u32, u32, Seq<char>),
> {
    match first_model_match(ms, model, 0) {
        Some(i) => match ms[i].1 {
            Some(ctx) => {
                let mo: u32 = match ms[i].2 {
                    Some(x) => x,
                    None => 0,
                };
                Some((ctx, mo, if mo > 0 {
                    "api"@
                } else {
                    "api-partial"@
                }))
            },
            None => None,
        },
        None => None,
    }
}

/// The model of capabilities.
pub open spec fn caps_v(c: ModelCapabilities) -> (u32, u32, Seq<char>) {
    (c.ctx_window, c.max_output, c.source@)
}

/// Looks a model up in a model list.
pub fn caps_from_models(models: &Vec<ModelInfo>, model: &str) -> (r: Option<ModelCapabilities>)
    ensures
        match r {
            Some(c) => listed_caps(models_v(models@), model@) == Some(caps_v(c)),
            None => listed_caps(models_v(models@), model@) is None,
        },
{
    let ghost mv = models_v(models@);
    let mc = chars_of(model);
    let mut i: usize = 0;
    while i < models.len()
        invariant
            i <= models@.len(),
            mv == models_v(models@),
            mc@ == model@,
            first_model_match(mv, model@, 0) == first_model_match(mv, model@, i as int),
        decreases models@.len() - i,
    {
        let m = &models[i];
        let id = chars_of(m.id.as_str());
        if crate::text::chars_eq(id.as_slice(), mc.as_slice()) || crate::text::contains_exec(
            mc.as_slice(),
            id.as_slice(),
        ) {
            return match m.context_window {
                Some(ctx) => {
                    let mo: u32 = match m.max_output {
                        Some(x) => x,
                        None => 0,
                    };
                    Some(ModelCapabilities { ctx_window: ctx, max_output: mo, source: if mo > 0 {
                        "api"
                    } else {
                        "api-partial"
                    } })
                },
                None => None,
            };
        }
        i = i + 1;
    }
    None
}

/// Entries of a capability-metadata reply: `data` items with a string id,
/// a context length and an output length.
pub open spec fn meta_entries(items: Seq<JVal>) -> Seq<(Seq<char>, u32, u32)>
    decreases items.len(),
{
    if items.len() == 0 {
        Seq::empty()
    } else {
        let prev = meta_entries(items.drop_last());
        let m = items.last();
        match (m.field("id"@), u32_of(m.field("context_length"@)), u32_of(
            m.field("max_output_length"@),
        )) {
            (JVal::Str(id), Some(ctx), Some(mo)) => prev.push((id, ctx, mo)),
            _ => prev,
        }
    }
}

pub open spec fn meta_v(s: Seq<(String, u32, u32)>) -> Seq<(Seq<char>, u32, u32)> {
    s.map_values(|e: (String, u32, u32)| (e.0@, e.1, e.2))
}

/// Reads the (id, context, output) triples of a capability-metadata reply.
pub fn meta_caps_from_body(body: &Json) -> (r: Vec<(String, u32, u32)>)
    ensures
        meta_v(r@) == match body@.field("data"@) {
            JVal::Arr(items) => meta_entries(items),
            _ => Seq::empty(),
        },
{
    let list = field_copy(body, "data");
    let mut out: Vec<(String, u32, u32)> = Vec::new();
    proof {
        assert(meta_v(out@) =~= Seq::<(Seq<char>, u32, u32)>::empty());
    }
    match &list {
        Json::Arr(items) => {
            proof {
                lemma_arr_view(*items);
            }
            let ghost iv = jvs(items@);
            let mut i: usize = 0;
            proof {
                assert(iv.take(0) =~= Seq::<JVal>::empty());
            }
            while i < items.len()
                invariant
                    i <= items@.len(),
                    iv == jvs(items@),
                    meta_v(out@) == meta_entries(iv.take(i as int)),
                decreases items@.len() - i,
            {
                proof {
                    assert(iv.take(i + 1).drop_last() =~= iv.take(i as int));
                    assert(iv.take(i + 1).last() == items@[i as int]@);
                }
                let m = &items[i];
                let id = field_copy(m, "id");
                let ctx = u32_json(&field_copy(m, "context_length"));
                let mo = u32_json(&field_copy(m, "max_output_length"));
                match (&id, ctx, mo) {
                    (Json::Str(s), Some(c), Some(o)) => {
                        let ghost before = out@;
                        out.push((s.clone(), c, o));
                        proof {
                            assert(meta_v(out@) =~= meta_v(before).push((s@, c, o)));
                        }
                    },
                    _ => {},
                }
                i = i + 1;
            }
            proof {
                assert(iv.take(items@.len() as int) =~= iv);
            }
        },
        _ => {},
    }
    out
}

/// Whether a metadata id and a model name match, ignoring ASCII case: either
/// contains the other.
pub open spec fn meta_id_matches(model: Seq<char>, meta_id: Seq<char>) -> bool {
    let a = crate::text::ascii_lower(model);
    let b = crate::text::ascii_lower(meta_id);
    contains(a, b) || contains(b, a)
}

/// Whether a metadata id names the model.
pub fn meta_matches(model: &str, meta_id: &str) -> (b: bool)
    ensures
        b == meta_id_matches(model@, meta_id@),
{
    let a = crate::text::ascii_lowercase(chars_of(model).as_slice());
    let m = crate::text::ascii_lowercase(chars_of(meta_id).as_slice());
    crate::text::contains_exec(a.as_slice(), m.as_slice()) || crate::text::contains_exec(
        m.as_slice(),
        a.as_slice(),
    )
}

// ---------------------------------------------------------------------------
// Connection test
// ---------------------------------------------------------------------------

/// The minimal request that tests a connection.
pub open spec fn connection_test_spec(model: Seq<char>, p: Provider) -> JVal {
    match p {
        Provider::Anthropic => jobj().set("model"@, JVal::Str(model)).set(
            "max_tokens"@,
            JVal::PosInt(256),
        ).set(
            "messages"@,
            JVal::Arr(
                seq![
                    jobj().set("role"@, JVal::Str("user"@)).set(
                        "content"@,
                        JVal::Str("Say hi. Reply with one word."@),
                    ),
                ],
            ),
        ),
        Provider::Google => jobj().set(
            "contents"@,
            JVal::Arr(
                seq![jobj().set("role"@, JVal::Str("user"@)).set("parts"@, text_parts("Say hi"@))],
            ),
        ).set("generationConfig"@, jobj().set("maxOutputTokens"@, JVal::PosInt(16))),
        _ => jobj().set("model"@, JVal::Str(model)).set(
            "messages"@,
            JVal::Arr(
                seq![jobj().set("role"@, JVal::Str("user"@)).set("content"@, JVal::Str("Say hi"@))],
            ),
        ).set("max_tokens"@, JVal::PosInt(16)).set("stream"@, JVal::Bool(false)),
    }
}

/// Builds the minimal connection-test request.
pub fn connection_test_body(model: &str, provider: Provider) -> (r: Json)
    ensures
        r@ == connection_test_spec(model@, provider),
{
    match provider {
        Provider::Anthropic => {
            let mut b = new_obj();
            b.insert("model", Json::text(model));
            b.insert("max_tokens", Json::PosInt(256));
            b.insert("messages", arr1(user_message("Say hi. Reply with one word.")));
            b
        },
        Provider::Google => {
            let mut turn = new_obj();
            turn.insert("role", Json::text("user"));
            turn.insert("parts", text_parts_json("Say hi"));
            let mut gen = new_obj();
            gen.insert("maxOutputTokens", Json::PosInt(16));
            let mut b = new_obj();
            b.insert("contents", arr1(turn));
            b.insert("generationConfig", gen);
            b
        },
        _ => {
            let mut b = new_obj();
            b.insert("model", Json::text(model));
            b.insert("messages", arr1(user_message("Say hi")));
            b.insert("max_tokens", Json::PosInt(16));
            b.insert("stream", Json::Bool(false));
            b
        },
    }
}

/// A non-empty string at the given path.
pub open spec fn nonempty_str_at(resp: JVal, path: Seq<Seq<char>>) -> bool {
    match jptr(resp, path) {
        Some(JVal::Str(s)) => s.len() > 0,
        _ => false,
    }
}

/// Whether a connection-test reply carries content: message content or
/// reasoning content for the OpenAI family, a non-empty content array for
/// Anthropic, a text or function-call first part for Gemini.
pub open spec fn reply_has_content_spec(resp: JVal, p: Provider) -> bool {
    match p {
        Provider::Anthropic => match resp.get("content"@) {
            Some(JVal::Arr(a)) => a.len() > 0,
            _ => false,
        },
        Provider::Google => (jptr(
            resp,
            seq!["candidates"@, "0"@, "content"@, "parts"@, "0"@, "text"@],
        ) matches Some(JVal::Str(_))) || jptr(
            resp,
            seq!["candidates"@, "0"@, "content"@, "parts"@, "0"@, "functionCall"@],
        ) is Some,
        _ => nonempty_str_at(resp, openai_content_path()) || nonempty_str_at(
            resp,
            seq!["choices"@, "0"@, "message"@, "reasoning_content"@],
        ),
    }
}

/// Whether a non-empty string sits at the path.
fn nonempty_at(resp: &Json, toks: &[&str]) -> (b: bool)
    ensures
        b == nonempty_str_at(resp@, tok_views(toks@)),
{
    match resp.pointer(toks) {
        Some(v) => match v.as_str() {
            Some(s) => !s.is_empty(),
            None => false,
        },
        None => false,
    }
}

/// Judges a connection-test reply.
pub fn reply_has_content(resp: &Json, provider: Provider) -> (b: bool)
    ensures
        b == reply_has_content_spec(resp@, provider),
{
    proof {
        assert(tok_views(seq!["choices", "0", "message", "content"]) =~= openai_content_path());
        assert(tok_views(seq!["choices", "0", "message", "reasoning_content"]) =~= seq![
            "choices"@,
            "0"@,
            "message"@,
            "reasoning_content"@,
        ]);
        assert(tok_views(seq!["candidates", "0", "content", "parts", "0", "text"]) =~= seq![
            "candidates"@,
            "0"@,
            "content"@,
            "parts"@,
            "0"@,
            "text"@,
        ]);
        assert(tok_views(seq!["candidates", "0", "content", "parts", "0", "functionCall"]) =~= seq![
            "candidates"@,
            "0"@,
            "content"@,
            "parts"@,
            "0"@,
            "functionCall"@,
        ]);
    }
    match provider {
        Provider::Anthropic => match resp.get("content") {
            Some(c) => match c.as_array() {
                Some(a) => a.len() > 0,
                None => false,
            },
            None => false,
        },
        Provider::Google => {
            let t = match resp.pointer(&["candidates", "0", "content", "parts", "0", "text"]) {
                Some(v) => v.as_str().is_some(),
                None => false,
            };
            t || resp.pointer(&["candidates", "0", "content", "parts", "0", "functionCall"]).is_some()
        },
        _ => nonempty_at(resp, &["choices", "0", "message", "content"]) || nonempty_at(
            resp,
            &["choices", "0", "message", "reasoning_content"],
        ),
    }
}

} // verus!
