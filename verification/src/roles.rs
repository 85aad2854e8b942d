//! The pipeline's LLM roles: for each, the task it is given, the tool the
//! model must call with the schema of that tool's arguments, and what a mock
//! run answers in place of the model.
use vstd::prelude::*;
use crate::json::{JVal, Json, jvs};
use crate::text::{chars_of, push_str, string_of};
use crate::transport::{jobj, new_obj, int_json};

verus! {

// ---------------------------------------------------------------------------
// Schema building blocks
// ---------------------------------------------------------------------------

/// `{"type": t}`.
pub open spec fn typed(t: Seq<char>) -> JVal {
    jobj().set("type"@, JVal::Str(t))
}

/// `v` with a `description`.
pub open spec fn described(v: JVal, d: Seq<char>) -> JVal {
    v.set("description"@, JVal::Str(d))
}

/// `{"type": "array", "items": items}`.
pub open spec fn array_of(items: JVal) -> JVal {
    typed("array"@).set("items"@, items)
}

/// An array of strings.
pub open spec fn strings(s: Seq<Seq<char>>) -> JVal {
    JVal::Arr(s.map_values(|x: Seq<char>| JVal::Str(x)))
}

/// `{"type": "string", "enum": options}`.
pub open spec fn one_of(options: Seq<Seq<char>>) -> JVal {
    typed("string"@).set("enum"@, strings(options))
}

/// `{"type": "object", "properties": props, "required": required}`.
pub open spec fn object_schema(props: JVal, required: Seq<Seq<char>>) -> JVal {
    typed("object"@).set("properties"@, props).set("required"@, strings(required))
}

/// `{"type": t}` as a document.
fn typed_json(t: &str) -> (r: Json)
    ensures
        r@ == typed(t@),
{
    let mut o = new_obj();
    o.insert("type", Json::text(t));
    o
}

/// `o` with the field `k` set to `v`.
pub(crate) fn with(o: Json, k: &str, v: Json) -> (r: Json)
    requires
        o@ is Obj,
    ensures
        r@ == o@.set(k@, v@),
{
    let mut o = o;
    o.insert(k, v);
    o
}

/// An array of the given strings.
pub(crate) fn text_list(items: &Vec<&str>) -> (r: Json)
    ensures
        r@ == strings(items@.map_values(|s: &str| s@)),
{
    let mut v: Vec<Json> = Vec::new();
    let mut i: usize = 0;
    while i < items.len()
        invariant
            i <= items@.len(),
            jvs(v@) == items@.take(i as int).map_values(|s: &str| JVal::Str(s@)),
        decreases items@.len() - i,
    {
        let ghost before = v@;
        v.push(Json::text(items[i]));
        proof {
            assert(jvs(v@) =~= jvs(before).push(JVal::Str(items@[i as int]@)));
            assert(items@.take(i + 1) =~= items@.take(i as int).push(items@[i as int]));
        }
        i = i + 1;
    }
    proof {
        assert(items@.take(items@.len() as int) =~= items@);
        assert(jvs(v@) =~= items@.map_values(|s: &str| s@).map_values(|x: Seq<char>| JVal::Str(x)));
    }
    Json::array(v)
}

/// `{"type": "array", "items": items}` as a document.
fn array_json(items: Json) -> (r: Json)
    ensures
        r@ == array_of(items@),
{
    with(typed_json("array"), "items", items)
}

/// A string property with a description.
fn described_text(d: &str) -> (r: Json)
    ensures
        r@ == described(typed("string"@), d@),
{
    with(typed_json("string"), "description", Json::text(d))
}

/// `{"type": "object", "properties": props, "required": required}` as a document.
fn object_json(props: Json, required: &Vec<&str>) -> (r: Json)
    ensures
        r@ == object_schema(props@, required@.map_values(|s: &str| s@)),
{
    with(with(typed_json("object"), "properties", props), "required", text_list(required))
}

/// One LLM role call: its task, the tool the model must call and the tool's
/// description, the schema of the tool's arguments, and the mock answer.
pub struct RoleCall {
    pub task: String,
    pub tool: String,
    pub desc: String,
    pub schema: Json,
    pub mock: Json,
}

/// The role's parts, as values.
pub open spec fn role_is(
    r: RoleCall,
    task: Seq<char>,
    tool: Seq<char>,
    desc: Seq<char>,
    schema: JVal,
    mock: JVal,
) -> bool {
    r.task@ == task && r.tool@ == tool && r.desc@ == desc && r.schema@ == schema && r.mock@ == mock
}

// ---------------------------------------------------------------------------
// The CV shape the writer and the editor submit
// ---------------------------------------------------------------------------

/// Schema of one experience of a CV.
pub open spec fn experience_schema() -> JVal {
    object_schema(
        jobj().set("company"@, typed("string"@)).set("role"@, typed("string"@)).set(
            "bullet_points"@,
            array_of(typed("string"@)),
        ),
        seq!["company"@, "role"@, "bullet_points"@],
    )
}

fn experience_json() -> (r: Json)
    ensures
        r@ == experience_schema(),
{
    let p = with(
        with(with(new_obj(), "company", typed_json("string")), "role", typed_json("string")),
        "bullet_points",
        array_json(typed_json("string")),
    );
    let mut req: Vec<&str> = Vec::new();
    req.push("company");
    req.push("role");
    req.push("bullet_points");
    proof {
        assert(req@.map_values(|s: &str| s@) =~= seq!["company"@, "role"@, "bullet_points"@]);
    }
    object_json(p, &req)
}

/// The fields every CV carries.
pub open spec fn cv_required() -> Seq<Seq<char>> {
    seq!["summary"@, "skills"@, "experiences"@]
}

fn cv_required_list() -> (r: Vec<&'static str>)
    ensures
        r@.map_values(|s: &str| s@) == cv_required(),
{
    let mut req: Vec<&str> = Vec::new();
    req.push("summary");
    req.push("skills");
    req.push("experiences");
    proof {
        assert(req@.map_values(|s: &str| s@) =~= cv_required());
    }
    req
}

// ---------------------------------------------------------------------------
// Writer
// ---------------------------------------------------------------------------

/// The writer's instructions.
pub open spec fn writer_task() -> Seq<char> {
    "You are a CV writer. Given a job description and a master CV (knowledge base),\nproduce a tailored CV that makes the candidate look like the obvious hire.\n\nRULES:\n1. Cherry-pick — only include experience, skills, and projects from the master CV\nthat are RELEVANT to this specific job. Skip unrelated content entirely.\n2. Match the JD's language — use the same terms the job uses.\n3. Quantify every bullet point — use real numbers from the master CV if available.\n4. Reorder experience — most relevant role first, regardless of chronology.\n5. The output must be concise enough to fit one A4 page.\n\nHARD REQUIREMENTS:\n- `summary`: 2-3 sentences. Lead with the candidate's most relevant strength for THIS role.\n- `skills`: 5-15 technical skills from the JD that the candidate actually has.\n- `experiences`: ≥1 entry (empty array = FAILURE). Each: `company`, `role`,\n`bullet_points` (2-5 quantified, achievement-focused bullets).\n- `constraints`: If the critic asks for something the master CV cannot provide\n(missing skill, no relevant experience), explain what you cannot fix and why.\nOmit or set to null if no constraints."@
}

/// What a revising writer is told before its instructions.
pub open spec fn revise_preamble() -> Seq<char> {
    "REVISE the prior draft to fix every point in the recruiter feedback below.\nDo NOT discard strengths; only address weaknesses.\n\n"@
}

/// The schema of the writer's CV.
pub open spec fn writer_schema() -> JVal {
    object_schema(
        jobj().set("summary"@, described(typed("string"@), "2-3 sentences tailored to the job"@)).set(
            "skills"@,
            described(array_of(typed("string"@)), "5-15 JD-matching skills the candidate has"@),
        ).set("experiences"@, described(array_of(experience_schema()), "≥1 entry, never empty"@)).set(
            "constraints"@,
            described(
                typed("string"@),
                "What the critic asked for that the master CV cannot provide, and why. Omit if none."@,
            ),
        ),
        cv_required(),
    )
}

/// The writer's mock CV.
pub open spec fn writer_mock() -> JVal {
    jobj().set("summary"@, JVal::Str("Mock summary for development."@)).set(
        "skills"@,
        strings(seq!["Rust"@, "Python"@, "PostgreSQL"@]),
    ).set(
        "experiences"@,
        JVal::Arr(
            seq![
                jobj().set("company"@, JVal::Str("Mock Corp"@)).set("role"@, JVal::Str("Mock Engineer"@)).set(
                    "bullet_points"@,
                    strings(seq!["Achieved mock results"@, "Delivered mock features"@]),
                ),
            ],
        ),
    )
}

/// The writer's instructions, as text.
fn writer_task_str() -> (r: &'static str)
    ensures
        r@ == writer_task(),
{
    "You are a CV writer. Given a job description and a master CV (knowledge base),\nproduce a tailored CV that makes the candidate look like the obvious hire.\n\nRULES:\n1. Cherry-pick — only include experience, skills, and projects from the master CV\nthat are RELEVANT to this specific job. Skip unrelated content entirely.\n2. Match the JD's language — use the same terms the job uses.\n3. Quantify every bullet point — use real numbers from the master CV if available.\n4. Reorder experience — most relevant role first, regardless of chronology.\n5. The output must be concise enough to fit one A4 page.\n\nHARD REQUIREMENTS:\n- `summary`: 2-3 sentences. Lead with the candidate's most relevant strength for THIS role.\n- `skills`: 5-15 technical skills from the JD that the candidate actually has.\n- `experiences`: ≥1 entry (empty array = FAILURE). Each: `company`, `role`,\n`bullet_points` (2-5 quantified, achievement-focused bullets).\n- `constraints`: If the critic asks for something the master CV cannot provide\n(missing skill, no relevant experience), explain what you cannot fix and why.\nOmit or set to null if no constraints."
}

/// The writer's call: a first draft, or, with feedback on a prior draft, a
/// revision (the preamble then comes first).
pub fn writer_role(revising: bool) -> (r: RoleCall)
    ensures
        role_is(
            r,
            if revising {
                revise_preamble() + writer_task()
            } else {
                writer_task()
            },
            "submit_cv"@,
            "Submit the tailored CV"@,
            writer_schema(),
            writer_mock(),
        ),
{
    let task = if revising {
        let mut v = chars_of("REVISE the prior draft to fix every point in the recruiter feedback below.\nDo NOT discard strengths; only address weaknesses.\n\n");
        push_str(&mut v, writer_task_str());
        string_of(v.as_slice())
    } else {
        writer_task_str().to_owned()
    };
    let props = with(
        with(
            with(
                with(new_obj(), "summary", described_text("2-3 sentences tailored to the job")),
                "skills",
                with(array_json(typed_json("string")), "description", Json::text("5-15 JD-matching skills the candidate has")),
            ),
            "experiences",
            with(array_json(experience_json()), "description", Json::text("≥1 entry, never empty")),
        ),
        "constraints",
        described_text("What the critic asked for that the master CV cannot provide, and why. Omit if none."),
    );
    let schema = object_json(props, &cv_required_list());
    let mut skills: Vec<&str> = Vec::new();
    skills.push("Rust");
    skills.push("Python");
    skills.push("PostgreSQL");
    let mut bullets: Vec<&str> = Vec::new();
    bullets.push("Achieved mock results");
    bullets.push("Delivered mock features");
    let exp = with(
        with(with(new_obj(), "company", Json::text("Mock Corp")), "role", Json::text("Mock Engineer")),
        "bullet_points",
        text_list(&bullets),
    );
    let mut exps: Vec<Json> = Vec::new();
    exps.push(exp);
    let ghost ev = exps@;
    let mock = with(
        with(with(new_obj(), "summary", Json::text("Mock summary for development.")), "skills", text_list(&skills)),
        "experiences",
        Json::array(exps),
    );
    proof {
        assert(skills@.map_values(|s: &str| s@) =~= seq!["Rust"@, "Python"@, "PostgreSQL"@]);
        assert(bullets@.map_values(|s: &str| s@) =~= seq!["Achieved mock results"@, "Delivered mock features"@]);
        assert(jvs(ev) =~= seq![ev[0]@]);
    }
    RoleCall {
        task,
        tool: "submit_cv".to_owned(),
        desc: "Submit the tailored CV".to_owned(),
        schema,
        mock,
    }
}

/// The prior review a user's regeneration request hands the writer: score
/// 0, the user's feedback, no strengths.
pub fn regeneration_feedback(feedback: &str) -> (r: Json)
    ensures
        r@ == jobj().set("score"@, JVal::PosInt(0)).set("feedback"@, JVal::Str(feedback@)).set(
            "strengths"@,
            JVal::Str(""@),
        ),
{
    with(with(with(new_obj(), "score", Json::PosInt(0)), "feedback", Json::text(feedback)), "strengths", Json::text(""))
}

// ---------------------------------------------------------------------------
// Critic
// ---------------------------------------------------------------------------

/// The critic's instructions.
pub open spec fn critic_task() -> Seq<char> {
    "You are a critical QA critic at a top-tier tech company. Review this CV against the job description. Find every weakness, but also know when to ship.\n\nSCORING GUIDE:\n- 90-100: Exceptional CV. Strong match to JD, quantified achievements, no missing critical skills. Ready to submit.\n- 70-89: Good CV with minor issues. Specific improvements possible but not blocking.\n- 50-69: Adequate CV. Significant gaps in JD alignment or weak bullets.\n- Below 50: Poor CV. Major rewriting needed.\n\nSATISFIED SIGNAL — set `satisfied: true` ONLY when ALL are true:\n1. Score is 85+\n2. No critical JD requirements missing from CV (unless the writer reports a master CV limitation in `writer_constraints` — in that case, the gap is acceptable and does not block satisfaction)\n3. Every bullet point is quantified\n4. Summary leads with the most relevant strength for THIS role\nIf ANY fail, set `satisfied: false` with specific feedback.\n\nIf `writer_constraints` is present in the context, the writer has explained why certain critic feedback cannot be addressed. Factor this into your satisfied decision — do not keep requesting what the master CV cannot provide."@
}

/// The schema of the critic's review.
pub open spec fn critic_schema() -> JVal {
    object_schema(
        jobj().set("score"@, described(typed("integer"@), "0-100"@)).set(
            "feedback"@,
            described(typed("string"@), "Specific, actionable critique"@),
        ).set("strengths"@, described(typed("string"@), "What to keep across revision"@)).set(
            "satisfied"@,
            described(typed("boolean"@), "True if no actionable critique remains"@),
        ),
        seq!["score"@, "feedback"@, "strengths"@, "satisfied"@],
    )
}

/// The critic's mock review.
pub open spec fn critic_mock() -> JVal {
    jobj().set("score"@, JVal::PosInt(92)).set("feedback"@, JVal::Str("Mock: strong draft — passes."@)).set(
        "strengths"@,
        JVal::Str("All."@),
    ).set("satisfied"@, JVal::Bool(true))
}

/// The critic's call, scoring a draft against the job description.
pub fn critic_role() -> (r: RoleCall)
    ensures
        role_is(r, critic_task(), "submit_review"@, "Submit your CV review"@, critic_schema(), critic_mock()),
{
    let props = with(
        with(
            with(
                with(new_obj(), "score", with(typed_json("integer"), "description", Json::text("0-100"))),
                "feedback",
                described_text("Specific, actionable critique"),
            ),
            "strengths",
            described_text("What to keep across revision"),
        ),
        "satisfied",
        with(typed_json("boolean"), "description", Json::text("True if no actionable critique remains")),
    );
    let mut req: Vec<&str> = Vec::new();
    req.push("score");
    req.push("feedback");
    req.push("strengths");
    req.push("satisfied");
    proof {
        assert(req@.map_values(|s: &str| s@) =~= seq!["score"@, "feedback"@, "strengths"@, "satisfied"@]);
    }
    let schema = object_json(props, &req);
    let mock = with(
        with(
            with(with(new_obj(), "score", Json::PosInt(92)), "feedback", Json::text("Mock: strong draft — passes.")),
            "strengths",
            Json::text("All."),
        ),
        "satisfied",
        Json::Bool(true),
    );
    RoleCall {
        task: "You are a critical QA critic at a top-tier tech company. Review this CV against the job description. Find every weakness, but also know when to ship.\n\nSCORING GUIDE:\n- 90-100: Exceptional CV. Strong match to JD, quantified achievements, no missing critical skills. Ready to submit.\n- 70-89: Good CV with minor issues. Specific improvements possible but not blocking.\n- 50-69: Adequate CV. Significant gaps in JD alignment or weak bullets.\n- Below 50: Poor CV. Major rewriting needed.\n\nSATISFIED SIGNAL — set `satisfied: true` ONLY when ALL are true:\n1. Score is 85+\n2. No critical JD requirements missing from CV (unless the writer reports a master CV limitation in `writer_constraints` — in that case, the gap is acceptable and does not block satisfaction)\n3. Every bullet point is quantified\n4. Summary leads with the most relevant strength for THIS role\nIf ANY fail, set `satisfied: false` with specific feedback.\n\nIf `writer_constraints` is present in the context, the writer has explained why certain critic feedback cannot be addressed. Factor this into your satisfied decision — do not keep requesting what the master CV cannot provide.".to_owned(),
        tool: "submit_review".to_owned(),
        desc: "Submit your CV review".to_owned(),
        schema,
        mock,
    }
}

// ---------------------------------------------------------------------------
// Fact checker
// ---------------------------------------------------------------------------

/// The fact checker's instructions.
pub open spec fn checker_task() -> Seq<char> {
    "You are a rigorous fact-checker. Compare every claim in the CV against the master CV knowledge base. The master CV is the SINGLE SOURCE OF TRUTH.\n\nSTEP 1 (do this FIRST): Count every verifiable claim in the CV:\n- N skills (each is one claim)\n- M experiences, each with: company name + role title + K bullet points\n- Summary sentence count\nTotal claims = N + M*2 + sum(K) + summary_sentence_count\nSTEP 2: Your `items` array MUST have EXACTLY that many entries. No fewer.\nSTEP 3: Fill in each entry.\n\nFor each claim, determine:\n- truth: directly supported by or reasonably inferred from the master CV\n- lie: cannot be found in the master CV, contradicts it, or exaggerates significantly\n\nIMPORTANT:\n- List EVERY claim. Do not skip any. An incomplete items array is wrong.\n- If a claim is partially true but exaggerated, classify it as 'lie'.\n- Count summary sentences individually. Count each skill as one item. Count each bullet point as one item.\n- CRITICAL: keep `evidence` to ≤12 words. Cite the master CV section briefly (e.g. \"Observability section\") or write \"not mentioned\". NEVER quote long passages verbatim — it bloats the output past the token cap and truncates the JSON."@
}

/// Schema of one checked claim.
pub open spec fn claim_schema() -> JVal {
    object_schema(
        jobj().set("category"@, one_of(seq!["summary"@, "skill"@, "experience"@])).set(
            "field"@,
            described(typed("string"@), "Company/role or skill name"@),
        ).set("claim"@, typed("string"@)).set("verdict"@, one_of(seq!["truth"@, "lie"@])).set(
            "evidence"@,
            described(typed("string"@), "Master CV excerpt or 'not mentioned'"@),
        ),
        seq!["category"@, "field"@, "claim"@, "verdict"@, "evidence"@],
    )
}

/// The schema of the fact checker's report.
pub open spec fn checker_schema() -> JVal {
    object_schema(
        jobj().set("truth_pct"@, described(typed("integer"@), "0-100, round(truth_count / total * 100)"@)).set(
            "items"@,
            array_of(claim_schema()).set("minItems"@, JVal::PosInt(1)),
        ),
        seq!["truth_pct"@, "items"@],
    )
}

/// One mock claim.
pub open spec fn mock_claim(field: Seq<char>, verdict: Seq<char>, evidence: Seq<char>) -> JVal {
    jobj().set("category"@, JVal::Str("skill"@)).set("field"@, JVal::Str(field)).set("claim"@, JVal::Str(field)).set(
        "verdict"@,
        JVal::Str(verdict),
    ).set("evidence"@, JVal::Str(evidence))
}

/// The fact checker's mock report.
pub open spec fn checker_mock() -> JVal {
    jobj().set("truth_pct"@, JVal::PosInt(67)).set(
        "items"@,
        JVal::Arr(
            seq![
                mock_claim("Rust"@, "truth"@, "Rust (primary, 3yr)"@),
                mock_claim("Kubernetes"@, "lie"@, "not mentioned"@),
            ],
        ),
    )
}

fn one_of_json(options: &Vec<&str>) -> (r: Json)
    ensures
        r@ == one_of(options@.map_values(|s: &str| s@)),
{
    with(typed_json("string"), "enum", text_list(options))
}

fn mock_claim_json(field: &str, verdict: &str, evidence: &str) -> (r: Json)
    ensures
        r@ == mock_claim(field@, verdict@, evidence@),
{
    with(
        with(
            with(with(with(new_obj(), "category", Json::text("skill")), "field", Json::text(field)), "claim", Json::text(field)),
            "verdict",
            Json::text(verdict),
        ),
        "evidence",
        Json::text(evidence),
    )
}

/// The fact checker's call, labelling every claim of a CV against the master CV.
pub fn checker_role() -> (r: RoleCall)
    ensures
        role_is(
            r,
            checker_task(),
            "submit_verification"@,
            "Submit your fact-check results"@,
            checker_schema(),
            checker_mock(),
        ),
{
    let mut cats: Vec<&str> = Vec::new();
    cats.push("summary");
    cats.push("skill");
    cats.push("experience");
    let mut tl: Vec<&str> = Vec::new();
    tl.push("truth");
    tl.push("lie");
    let mut ireq: Vec<&str> = Vec::new();
    ireq.push("category");
    ireq.push("field");
    ireq.push("claim");
    ireq.push("verdict");
    ireq.push("evidence");
    let mut req: Vec<&str> = Vec::new();
    req.push("truth_pct");
    req.push("items");
    proof {
        assert(cats@.map_values(|s: &str| s@) =~= seq!["summary"@, "skill"@, "experience"@]);
        assert(tl@.map_values(|s: &str| s@) =~= seq!["truth"@, "lie"@]);
        assert(ireq@.map_values(|s: &str| s@) =~= seq!["category"@, "field"@, "claim"@, "verdict"@, "evidence"@]);
        assert(req@.map_values(|s: &str| s@) =~= seq!["truth_pct"@, "items"@]);
    }
    let item_props = with(
        with(
            with(
                with(with(new_obj(), "category", one_of_json(&cats)), "field", described_text("Company/role or skill name")),
                "claim",
                typed_json("string"),
            ),
            "verdict",
            one_of_json(&tl),
        ),
        "evidence",
        described_text("Master CV excerpt or 'not mentioned'"),
    );
    let item = object_json(item_props, &ireq);
    let props = with(
        with(new_obj(), "truth_pct", with(typed_json("integer"), "description", Json::text("0-100, round(truth_count / total * 100)"))),
        "items",
        with(array_json(item), "minItems", Json::PosInt(1)),
    );
    let schema = object_json(props, &req);
    let mut claims: Vec<Json> = Vec::new();
    claims.push(mock_claim_json("Rust", "truth", "Rust (primary, 3yr)"));
    claims.push(mock_claim_json("Kubernetes", "lie", "not mentioned"));
    let ghost cv = claims@;
    proof {
        assert(jvs(cv) =~= seq![cv[0]@, cv[1]@]);
    }
    let mock = with(with(new_obj(), "truth_pct", Json::PosInt(67)), "items", Json::array(claims));
    RoleCall {
        task: "You are a rigorous fact-checker. Compare every claim in the CV against the master CV knowledge base. The master CV is the SINGLE SOURCE OF TRUTH.\n\nSTEP 1 (do this FIRST): Count every verifiable claim in the CV:\n- N skills (each is one claim)\n- M experiences, each with: company name + role title + K bullet points\n- Summary sentence count\nTotal claims = N + M*2 + sum(K) + summary_sentence_count\nSTEP 2: Your `items` array MUST have EXACTLY that many entries. No fewer.\nSTEP 3: Fill in each entry.\n\nFor each claim, determine:\n- truth: directly supported by or reasonably inferred from the master CV\n- lie: cannot be found in the master CV, contradicts it, or exaggerates significantly\n\nIMPORTANT:\n- List EVERY claim. Do not skip any. An incomplete items array is wrong.\n- If a claim is partially true but exaggerated, classify it as 'lie'.\n- Count summary sentences individually. Count each skill as one item. Count each bullet point as one item.\n- CRITICAL: keep `evidence` to ≤12 words. Cite the master CV section briefly (e.g. \"Observability section\") or write \"not mentioned\". NEVER quote long passages verbatim — it bloats the output past the token cap and truncates the JSON.".to_owned(),
        tool: "submit_verification".to_owned(),
        desc: "Submit your fact-check results".to_owned(),
        schema,
        mock,
    }
}

// ---------------------------------------------------------------------------
// Editor
// ---------------------------------------------------------------------------

/// The editor's instructions.
pub open spec fn editor_task() -> Seq<char> {
    "You are a FACT-CHECKER, not a CV writer. You are a DIFFERENT person than the writer who created this draft. The writer was incentivized to embellish; you are incentivized to be accurate.\n\nRULES:\n- If a bullet point makes a claim not EXPLICITLY in the master CV, DELETE it.\nDo not soften, hedge, or rewrite. DELETE.\n- If an experience has no supporting facts, remove it entirely.\n- bullet_points may be empty [] — that is acceptable and preferred over fabrication.\n- DO NOT apply the 'experiences MUST contain ≥1' rule — that is the writer's constraint, not yours.\n- Re-output the FULL CV with these corrections applied."@
}

/// The schema of the editor's CV.
pub open spec fn editor_schema() -> JVal {
    object_schema(
        jobj().set("summary"@, typed("string"@)).set("skills"@, array_of(typed("string"@))).set(
            "experiences"@,
            array_of(experience_schema()),
        ),
        cv_required(),
    )
}

/// The editor's mock CV.
pub open spec fn editor_mock() -> JVal {
    jobj().set("summary"@, JVal::Str("Mock edited summary."@)).set("skills"@, strings(seq!["Rust"@, "Python"@])).set(
        "experiences"@,
        JVal::Arr(
            seq![
                jobj().set("company"@, JVal::Str("Mock Corp"@)).set("role"@, JVal::Str("Mock Engineer"@)).set(
                    "bullet_points"@,
                    strings(seq!["Edited mock bullet."@]),
                ),
            ],
        ),
    )
}

/// The editor's call, deleting every claim the master CV does not support.
pub fn editor_role() -> (r: RoleCall)
    ensures
        role_is(
            r,
            editor_task(),
            "submit_edited_cv"@,
            "Submit the corrected CV"@,
            editor_schema(),
            editor_mock(),
        ),
{
    let props = with(
        with(with(new_obj(), "summary", typed_json("string")), "skills", array_json(typed_json("string"))),
        "experiences",
        array_json(experience_json()),
    );
    let schema = object_json(props, &cv_required_list());
    let mut skills: Vec<&str> = Vec::new();
    skills.push("Rust");
    skills.push("Python");
    let mut bullets: Vec<&str> = Vec::new();
    bullets.push("Edited mock bullet.");
    let exp = with(
        with(with(new_obj(), "company", Json::text("Mock Corp")), "role", Json::text("Mock Engineer")),
        "bullet_points",
        text_list(&bullets),
    );
    let mut exps: Vec<Json> = Vec::new();
    exps.push(exp);
    let ghost ev = exps@;
    let mock = with(
        with(with(new_obj(), "summary", Json::text("Mock edited summary.")), "skills", text_list(&skills)),
        "experiences",
        Json::array(exps),
    );
    proof {
        assert(skills@.map_values(|s: &str| s@) =~= seq!["Rust"@, "Python"@]);
        assert(bullets@.map_values(|s: &str| s@) =~= seq!["Edited mock bullet."@]);
        assert(jvs(ev) =~= seq![ev[0]@]);
    }
    RoleCall {
        task: "You are a FACT-CHECKER, not a CV writer. You are a DIFFERENT person than the writer who created this draft. The writer was incentivized to embellish; you are incentivized to be accurate.\n\nRULES:\n- If a bullet point makes a claim not EXPLICITLY in the master CV, DELETE it.\nDo not soften, hedge, or rewrite. DELETE.\n- If an experience has no supporting facts, remove it entirely.\n- bullet_points may be empty [] — that is acceptable and preferred over fabrication.\n- DO NOT apply the 'experiences MUST contain ≥1' rule — that is the writer's constraint, not yours.\n- Re-output the FULL CV with these corrections applied.".to_owned(),
        tool: "submit_edited_cv".to_owned(),
        desc: "Submit the corrected CV".to_owned(),
        schema,
        mock,
    }
}

// ---------------------------------------------------------------------------
// Ranker
// ---------------------------------------------------------------------------

/// The ranker's instructions.
pub open spec fn ranker_task() -> Seq<char> {
    "You are predicting whether a real HR manager would shortlist this CV for this specific job. This is NOT a quality score — it's a prediction of real-world hiring outcome.\n\nA high-quality CV (90+) for a senior role when the candidate has 2 years of experience might have approval_probability of 25.\nA mediocre CV (70) for an entry-level role in a desperate market might have approval_probability of 80.\n\nCalibration:\n- 80-100: Strong match. HR would likely shortlist.\n- 50-79: Possible. Depends on competition.\n- 20-49: Unlikely. Significant gaps.\n- 0-19: Very unlikely. Wrong level or implausible claims."@
}

/// The schema of the ranker's prediction.
pub open spec fn ranker_schema() -> JVal {
    object_schema(
        jobj().set("approval_probability"@, described(typed("integer"@), "0-100"@)).set(
            "good"@,
            described(array_of(typed("string"@)), "What the CV does well for this role"@),
        ).set("bad"@, described(array_of(typed("string"@)), "What's missing or weak"@)).set(
            "improvements"@,
            described(array_of(typed("string"@)), "Actionable improvements"@),
        ),
        seq!["approval_probability"@, "good"@, "bad"@, "improvements"@],
    )
}

/// The ranker's mock prediction.
pub open spec fn ranker_mock() -> JVal {
    jobj().set("approval_probability"@, JVal::PosInt(72)).set(
        "good"@,
        strings(seq!["Strong Rust experience"@, "Quantified achievements"@]),
    ).set("bad"@, strings(seq!["Missing Kubernetes"@])).set(
        "improvements"@,
        strings(seq!["Add Kubernetes if you have it"@]),
    )
}

fn described_list(d: &str) -> (r: Json)
    ensures
        r@ == described(array_of(typed("string"@)), d@),
{
    with(array_json(typed_json("string")), "description", Json::text(d))
}

/// The ranker's call, predicting whether HR would shortlist the CV.
pub fn ranker_role() -> (r: RoleCall)
    ensures
        role_is(
            r,
            ranker_task(),
            "submit_ranking"@,
            "Submit your HR approval prediction"@,
            ranker_schema(),
            ranker_mock(),
        ),
{
    let props = with(
        with(
            with(
                with(new_obj(), "approval_probability", with(typed_json("integer"), "description", Json::text("0-100"))),
                "good",
                described_list("What the CV does well for this role"),
            ),
            "bad",
            described_list("What's missing or weak"),
        ),
        "improvements",
        described_list("Actionable improvements"),
    );
    let mut req: Vec<&str> = Vec::new();
    req.push("approval_probability");
    req.push("good");
    req.push("bad");
    req.push("improvements");
    let mut good: Vec<&str> = Vec::new();
    good.push("Strong Rust experience");
    good.push("Quantified achievements");
    let mut bad: Vec<&str> = Vec::new();
    bad.push("Missing Kubernetes");
    let mut imp: Vec<&str> = Vec::new();
    imp.push("Add Kubernetes if you have it");
    proof {
        assert(req@.map_values(|s: &str| s@) =~= seq!["approval_probability"@, "good"@, "bad"@, "improvements"@]);
        assert(good@.map_values(|s: &str| s@) =~= seq!["Strong Rust experience"@, "Quantified achievements"@]);
        assert(bad@.map_values(|s: &str| s@) =~= seq!["Missing Kubernetes"@]);
        assert(imp@.map_values(|s: &str| s@) =~= seq!["Add Kubernetes if you have it"@]);
    }
    let schema = object_json(props, &req);
    let mock = with(
        with(
            with(with(new_obj(), "approval_probability", Json::PosInt(72)), "good", text_list(&good)),
            "bad",
            text_list(&bad),
        ),
        "improvements",
        text_list(&imp),
    );
    RoleCall {
        task: "You are predicting whether a real HR manager would shortlist this CV for this specific job. This is NOT a quality score — it's a prediction of real-world hiring outcome.\n\nA high-quality CV (90+) for a senior role when the candidate has 2 years of experience might have approval_probability of 25.\nA mediocre CV (70) for an entry-level role in a desperate market might have approval_probability of 80.\n\nCalibration:\n- 80-100: Strong match. HR would likely shortlist.\n- 50-79: Possible. Depends on competition.\n- 20-49: Unlikely. Significant gaps.\n- 0-19: Very unlikely. Wrong level or implausible claims.".to_owned(),
        tool: "submit_ranking".to_owned(),
        desc: "Submit your HR approval prediction".to_owned(),
        schema,
        mock,
    }
}

// ---------------------------------------------------------------------------
// Pre-screen
// ---------------------------------------------------------------------------

/// The pre-screen's instructions.
pub open spec fn pre_screen_task() -> Seq<char> {
    "Score 0-100 how well this candidate fits this role:\n- 70-100: good_match — right skills, role type, experience.\n- 40-69: possible — some overlap, worth exploring.\n- 0-39: one of wrong_role, wrong_industry, wrong_level, missing_skills.\n\nReturn ONLY {score, category}. No descriptions, no explanation. One line."@
}

/// The categories a pre-screen can give.
pub open spec fn fit_categories() -> Seq<Seq<char>> {
    seq!["good_match"@, "possible"@, "wrong_role"@, "wrong_industry"@, "wrong_level"@, "missing_skills"@]
}

/// The schema of a pre-screen.
pub open spec fn pre_screen_schema() -> JVal {
    object_schema(
        jobj().set("score"@, described(typed("integer"@), "0-100 fit score"@)).set("category"@, one_of(fit_categories())),
        seq!["score"@, "category"@],
    )
}

/// The pre-screen's mock answer.
pub open spec fn pre_screen_mock() -> JVal {
    jobj().set("score"@, JVal::PosInt(50)).set("category"@, JVal::Str("possible"@))
}

/// The pre-screen's call: one cheap request scoring the candidate's fit.
pub fn pre_screen_role() -> (r: RoleCall)
    ensures
        role_is(
            r,
            pre_screen_task(),
            "submit_review"@,
            "Submit your pre-screen verdict"@,
            pre_screen_schema(),
            pre_screen_mock(),
        ),
{
    let mut cats: Vec<&str> = Vec::new();
    cats.push("good_match");
    cats.push("possible");
    cats.push("wrong_role");
    cats.push("wrong_industry");
    cats.push("wrong_level");
    cats.push("missing_skills");
    let mut req: Vec<&str> = Vec::new();
    req.push("score");
    req.push("category");
    proof {
        assert(cats@.map_values(|s: &str| s@) =~= seq!["good_match"@, "possible"@, "wrong_role"@, "wrong_industry"@, "wrong_level"@, "missing_skills"@]);
        assert(req@.map_values(|s: &str| s@) =~= seq!["score"@, "category"@]);
    }
    let props = with(
        with(new_obj(), "score", with(typed_json("integer"), "description", Json::text("0-100 fit score"))),
        "category",
        one_of_json(&cats),
    );
    let schema = object_json(props, &req);
    let mock = with(with(new_obj(), "score", Json::PosInt(50)), "category", Json::text("possible"));
    RoleCall {
        task: "Score 0-100 how well this candidate fits this role:\n- 70-100: good_match — right skills, role type, experience.\n- 40-69: possible — some overlap, worth exploring.\n- 0-39: one of wrong_role, wrong_industry, wrong_level, missing_skills.\n\nReturn ONLY {score, category}. No descriptions, no explanation. One line.".to_owned(),
        tool: "submit_review".to_owned(),
        desc: "Submit your pre-screen verdict".to_owned(),
        schema,
        mock,
    }
}

// ---------------------------------------------------------------------------
// Scraper
// ---------------------------------------------------------------------------

/// The job a mock run scrapes.
pub open spec fn mock_job() -> JVal {
    jobj().set("title"@, JVal::Str("Mock Backend Engineer"@)).set(
        "description"@,
        JVal::Str("We are looking for a backend engineer with experience in Rust, Python, and Docker. Requirements: 3+ years of experience, strong knowledge of APIs, experience with PostgreSQL."@),
    ).set("company"@, JVal::Str("Mock Corp"@))
}

/// The scraped job a mock run works on.
pub fn mock_job_json() -> (r: Json)
    ensures
        r@ == mock_job(),
{
    with(
        with(
            with(new_obj(), "title", Json::text("Mock Backend Engineer")),
            "description",
            Json::text("We are looking for a backend engineer with experience in Rust, Python, and Docker. Requirements: 3+ years of experience, strong knowledge of APIs, experience with PostgreSQL."),
        ),
        "company",
        Json::text("Mock Corp"),
    )
}

} // verus!
