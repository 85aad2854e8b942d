//! The CV pipeline's decisions: deal-breaker scan, pre-screen result, the
//! review loop (at most five reviews, a mid-loop fact check on the third),
//! the editor's acceptance test, and the status texts the UI shows.
use vstd::prelude::*;
use crate::json::{JVal, Json, satisfied_flag, parse_satisfied, strip_cv_metadata};
use crate::text::{
    chars_of, contains, contains_exec, dec, dec_int, fmt_i64, fmt_u64, push_all, push_str,
    string_of, to_lowercase, unicode_lower,
};
use crate::transport::{field_copy, jobj, new_obj, str_or_empty, text_or_empty};
use crate::wiki_graph::WikiGraph;

verus! {

/// Reviews the loop runs at most.
pub const MAX_REVIEW_ITERS: u32 = 5;

// ---------------------------------------------------------------------------
// Settings and deal-breakers
// ---------------------------------------------------------------------------

/// The output budget and context window the pipeline runs with: at least
/// 256 and 1000 tokens, converted to `u32` as `as u32` does.
pub fn pipeline_limits(max_output: i64, ctx_window: i64) -> (r: (u32, u32))
    ensures
        r.0 == (if max_output < 256 {
            256
        } else {
            max_output
        }) as u32,
        r.1 == (if ctx_window < 1000 {
            1000
        } else {
            ctx_window
        }) as u32,
{
    let m = if max_output < 256 {
        256
    } else {
        max_output
    };
    let c = if ctx_window < 1000 {
        1000
    } else {
        ctx_window
    };
    (m as u32, c as u32)
}

/// A keyword occurs in the job description, ignoring case.
pub open spec fn breaks_deal(jd: Seq<char>, kw: Seq<char>) -> bool {
    contains(unicode_lower(jd), unicode_lower(kw))
}

/// Index of the first deal-breaker keyword found in `jd`.
pub open spec fn first_deal_breaker(jd: Seq<char>, kws: Seq<Seq<char>>, i: int) -> Option<int>
    decreases kws.len() - i,
{
    if i < 0 || i >= kws.len() {
        None
    } else if breaks_deal(jd, kws[i]) {
        Some(i)
    } else {
        first_deal_breaker(jd, kws, i + 1)
    }
}

/// The first deal-breaker keyword (by index) that the job description
/// contains, case-insensitively.
pub fn deal_breaker(jd: &str, keywords: &[String]) -> (r: Option<usize>)
    ensures
        match r {
            Some(i) => first_deal_breaker(jd@, crate::text::views(keywords@), 0) == Some(i as int),
            None => first_deal_breaker(jd@, crate::text::views(keywords@), 0) is None,
        },
{
    let ghost kv = crate::text::views(keywords@);
    let jl = chars_of(to_lowercase(jd).as_str());
    let mut i: usize = 0;
    while i < keywords.len()
        invariant
            i <= keywords@.len(),
            kv == crate::text::views(keywords@),
            jl@ == unicode_lower(jd@),
            first_deal_breaker(jd@, kv, 0) == first_deal_breaker(jd@, kv, i as int),
        decreases keywords@.len() - i,
    {
        let k = chars_of(to_lowercase(keywords[i].as_str()).as_str());
        proof {
            assert(kv[i as int] == keywords@[i as int]@);
        }
        if contains_exec(jl.as_slice(), k.as_slice()) {
            return Some(i);
        }
        i = i + 1;
    }
    None
}

// ---------------------------------------------------------------------------
// Pre-screen
// ---------------------------------------------------------------------------

/// Score at which a job goes on to CV generation.
pub const PRE_SCREEN_PASS: i64 = 50;

/// The pre-screen result: the score (50 when unreadable) clamped to
/// 0..=100, and the category (`missing_skills` when unreadable).
pub open spec fn pre_screen_score(result: JVal) -> i64 {
    let s = match result.field("score"@).as_i64() {
        Some(n) => n,
        None => 50,
    };
    if s < 0 {
        0
    } else if s > 100 {
        100
    } else {
        s
    }
}

pub open spec fn pre_screen_category(result: JVal) -> Seq<char> {
    match result.field("category"@).as_str() {
        Some(c) => c,
        None => "missing_skills"@,
    }
}

/// Reads the pre-screen reply.
pub fn pre_screen_result(result: &Json) -> (r: (i64, String))
    ensures
        r.0 == pre_screen_score(result@),
        r.1@ == pre_screen_category(result@),
        0 <= r.0 <= 100,
{
    let s = match field_copy(result, "score").as_i64() {
        Some(n) => n,
        None => 50,
    };
    let score = if s < 0 {
        0
    } else if s > 100 {
        100
    } else {
        s
    };
    let category = match field_copy(result, "category").as_str() {
        Some(c) => c.to_owned(),
        None => "missing_skills".to_owned(),
    };
    (score, category)
}

/// The note shown when a job is skipped: `score={score}, {category}`.
pub fn skip_message(score: i64, category: &str) -> (r: String)
    ensures
        r@ == "score="@ + dec_int(score as int) + ", "@ + category@,
{
    let mut v = chars_of("score=");
    let d = fmt_i64(score);
    push_all(&mut v, d.as_slice());
    push_str(&mut v, ", ");
    push_str(&mut v, category);
    string_of(v.as_slice())
}

/// The first 1500 characters of a text.
pub open spec fn first_chars(s: Seq<char>, n: nat) -> Seq<char> {
    if s.len() <= n {
        s
    } else {
        s.take(n as int)
    }
}

/// The pre-screen context: the CV (or wiki index), the job title, and the
/// first 1500 characters of the description.
pub fn pre_screen_context(master_cv: &str, title: &str, description: &str) -> (r: Json)
    ensures
        r@ == jobj().set("master_cv"@, JVal::Str(master_cv@)).set(
            "job_title"@,
            JVal::Str(title@),
        ).set("job_description"@, JVal::Str(first_chars(description@, 1500))),
{
    let d = chars_of(description);
    let n = if d.len() <= 1500 {
        d.len()
    } else {
        1500
    };
    let cut = crate::text::slice_chars(d.as_slice(), 0, n);
    proof {
        if d@.len() <= 1500 {
            assert(cut@ =~= d@);
        }
    }
    let mut c = new_obj();
    c.insert("master_cv", Json::text(master_cv));
    c.insert("job_title", Json::text(title));
    c.insert("job_description", Json::Str(string_of(cut.as_slice())));
    c
}

// ---------------------------------------------------------------------------
// Writer and critic
// ---------------------------------------------------------------------------

/// The writer's note on what the master CV cannot provide, when non-empty.
pub open spec fn constraints_of(cv: JVal) -> Option<Seq<char>> {
    match cv.get("constraints"@) {
        Some(JVal::Str(s)) => if s.len() > 0 {
            Some(s)
        } else {
            None
        },
        _ => None,
    }
}

/// Takes the writer's `constraints` note out of a draft: returns it (when a
/// non-empty string) and removes the field.
pub fn take_writer_constraints(cv: &mut Json) -> (r: Option<String>)
    ensures
        match r {
            Some(s) => constraints_of(old(cv)@) == Some(s@),
            None => constraints_of(old(cv)@) is None,
        },
        final(cv)@ == old(cv)@.without("constraints"@),
{
    let c = match cv.get("constraints") {
        Some(v) => match v.as_str() {
            Some(s) => if s.is_empty() {
                None
            } else {
                Some(s.to_owned())
            },
            None => None,
        },
        None => None,
    };
    strip_cv_metadata(cv);
    c
}

/// What the loop keeps from a review.
pub struct ReviewOutcome {
    pub score: i64,
    pub feedback: String,
    pub satisfied: bool,
}

/// The review's score (0 when unreadable).
pub open spec fn review_score(review: JVal) -> i64 {
    match review.field("score"@).as_i64() {
        Some(n) => n,
        None => 0,
    }
}

/// `{feedback}\n\nStrengths: {strengths}` (missing texts as empty).
pub open spec fn review_text(review: JVal) -> Seq<char> {
    str_or_empty(review.field("feedback"@)) + "\n\nStrengths: "@ + str_or_empty(
        review.field("strengths"@),
    )
}

/// Reads a review reply.
pub fn review_outcome(review: &Json) -> (r: ReviewOutcome)
    ensures
        r.score == review_score(review@),
        r.feedback@ == review_text(review@),
        r.satisfied == satisfied_flag(review@),
{
    let score = match field_copy(review, "score").as_i64() {
        Some(n) => n,
        None => 0,
    };
    let mut v = chars_of(text_or_empty(&field_copy(review, "feedback")).as_str());
    push_str(&mut v, "\n\nStrengths: ");
    push_str(&mut v, text_or_empty(&field_copy(review, "strengths")).as_str());
    ReviewOutcome { score, feedback: string_of(v.as_slice()), satisfied: parse_satisfied(review) }
}

/// The verifier's truth percentage, with the given default when unreadable.
pub open spec fn truth_pct(ver: JVal, dflt: i64) -> i64 {
    match ver.field("truth_pct"@).as_i64() {
        Some(n) => n,
        None => dflt,
    }
}

/// Reads the truth percentage of a verification.
pub fn truth_of(ver: &Json, dflt: i64) -> (r: i64)
    ensures
        r == truth_pct(ver@, dflt),
{
    match field_copy(ver, "truth_pct").as_i64() {
        Some(n) => n,
        None => dflt,
    }
}

/// The review on which the mid-loop fact check runs (the third, index 2).
pub const MID_LOOP_CHECK: u32 = 2;

/// Whether a fact check finds more than half of the claims unsupported.
pub fn fabrication_found(ver: &Json) -> (b: bool)
    ensures
        b == (truth_pct(ver@, 100) < 50),
{
    truth_of(ver, 100) < 50
}

/// Whether the loop revises after review number `iteration` (from 0): not
/// when the critic is satisfied, not after the fifth round.
pub fn should_revise(iteration: u32, satisfied: bool) -> (b: bool)
    ensures
        b == (!satisfied && iteration + 1 < MAX_REVIEW_ITERS),
{
    !satisfied && iteration < MAX_REVIEW_ITERS - 1
}

/// The fabrication warning that leads the writer's feedback once the
/// mid-loop check has fired.
pub open spec fn fabrication_warning_text() -> Seq<char> {
    "FABRICATION WARNING: The verifier found that more than 50% of claims are not supported by the master CV. Focus on using ONLY facts from the master CV. Do not fabricate skills or experience.\n\n"@
}

/// The feedback handed to the writer for a revision.
pub fn revision_feedback(feedback: &str, warning: bool) -> (r: String)
    ensures
        r@ == (if warning {
            fabrication_warning_text() + feedback@
        } else {
            feedback@
        }),
{
    if warning {
        let mut v = chars_of(
            "FABRICATION WARNING: The verifier found that more than 50% of claims are not supported by the master CV. Focus on using ONLY facts from the master CV. Do not fabricate skills or experience.\n\n",
        );
        push_str(&mut v, feedback);
        string_of(v.as_slice())
    } else {
        feedback.to_owned()
    }
}

/// The JSON number of an integer.
pub open spec fn int_v(i: i64) -> JVal {
    crate::transport::jint(i)
}

/// The prior review handed to the writer: score, feedback and the
/// critic's strengths.
pub fn prior_review(score: i64, feedback: &str, review: &Json) -> (r: Json)
    ensures
        r@ == jobj().set("score"@, int_v(score)).set("feedback"@, JVal::Str(feedback@)).set(
            "strengths"@,
            review@.field("strengths"@),
        ),
{
    let mut p = new_obj();
    p.insert("score", crate::transport::int_json(score));
    p.insert("feedback", Json::text(feedback));
    p.insert("strengths", field_copy(review, "strengths"));
    p
}

/// The writer's context: master CV and job description, with the prior
/// review's score, feedback and strengths when revising.
pub fn writer_context(master_cv: &str, jd: &str, prior: Option<&Json>) -> (r: Json)
    ensures
        r@ == match prior {
            Some(h) => jobj().set("master_cv"@, JVal::Str(master_cv@)).set(
                "job_description"@,
                JVal::Str(jd@),
            ).set(
                "prior_draft_feedback"@,
                jobj().set("score"@, h@.field("score"@)).set(
                    "feedback"@,
                    h@.field("feedback"@),
                ).set("strengths"@, h@.field("strengths"@)),
            ),
            None => jobj().set("master_cv"@, JVal::Str(master_cv@)).set(
                "job_description"@,
                JVal::Str(jd@),
            ),
        },
{
    let mut c = new_obj();
    c.insert("master_cv", Json::text(master_cv));
    c.insert("job_description", Json::text(jd));
    match prior {
        Some(h) => {
            let mut f = new_obj();
            f.insert("score", field_copy(h, "score"));
            f.insert("feedback", field_copy(h, "feedback"));
            f.insert("strengths", field_copy(h, "strengths"));
            c.insert("prior_draft_feedback", f);
        },
        None => {},
    }
    c
}

/// The critic's context: job description, draft, and the writer's
/// constraints when there are any.
pub fn review_context(jd: &str, cv: &Json, constraints: Option<&str>) -> (r: Json)
    ensures
        r@ == match constraints {
            Some(c) => jobj().set("job_description"@, JVal::Str(jd@)).set("draft_cv"@, cv@).set(
                "writer_constraints"@,
                JVal::Str(c@),
            ),
            None => jobj().set("job_description"@, JVal::Str(jd@)).set("draft_cv"@, cv@),
        },
{
    let mut c = new_obj();
    c.insert("job_description", Json::text(jd));
    c.insert("draft_cv", cv.copy());
    match constraints {
        Some(s) => c.insert("writer_constraints", Json::text(s)),
        None => {},
    }
    c
}

/// The fact checker's (and editor's) context: master CV and draft.
pub fn check_context(master_cv: &str, cv: &Json) -> (r: Json)
    ensures
        r@ == jobj().set("master_cv"@, JVal::Str(master_cv@)).set("draft_cv"@, cv@),
{
    let mut c = new_obj();
    c.insert("master_cv", Json::text(master_cv));
    c.insert("draft_cv", cv.copy());
    c
}

/// The ranker's context: job description and CV.
pub fn rank_context(jd: &str, cv: &Json) -> (r: Json)
    ensures
        r@ == jobj().set("job_description"@, JVal::Str(jd@)).set("cv"@, cv@),
{
    let mut c = new_obj();
    c.insert("job_description", Json::text(jd));
    c.insert("cv", cv.copy());
    c
}

// ---------------------------------------------------------------------------
// Stage order
// ---------------------------------------------------------------------------

/// Where the pipeline stands once the first draft is written. Rounds count
/// from zero.
#[derive(PartialEq, Eq, Structural, Clone, Copy, Debug)]
pub enum Stage {
    /// The critic scores the draft of round `r`.
    Critique(u32),
    /// The fact check in the middle of the loop, after round `r`'s critique,
    /// which said `satisfied`.
    MidCheck(u32, bool),
    /// The writer revises the draft of round `r`.
    Revise(u32),
    /// The fact check after the loop.
    FinalCheck,
    /// The editor deletes unsupported claims.
    Edit,
    /// The fact check of the edited CV.
    Recheck,
    /// The ranker predicts HR approval.
    Rank,
    /// Nothing is left to do.
    Done,
}

/// What the work of a stage came to.
#[derive(PartialEq, Eq, Structural, Clone, Copy, Debug)]
pub enum StageEvent {
    /// The critic answered, satisfied or not.
    Critiqued(bool),
    /// A fact check answered with this truth percentage.
    Checked(i64),
    /// The writer handed in a revision.
    Revised,
    /// The editor's CV was kept (`true`) or not.
    Edited(bool),
    /// The ranker answered.
    Ranked,
}

/// The stage that follows `s` once its work came to `e`; an event that does
/// not belong to the stage leaves it as it is.
pub open spec fn stage_after(s: Stage, e: StageEvent) -> Stage {
    match (s, e) {
        (Stage::Critique(r), StageEvent::Critiqued(sat)) => if r == MID_LOOP_CHECK {
            Stage::MidCheck(r, sat)
        } else if !sat && r + 1 < MAX_REVIEW_ITERS {
            Stage::Revise(r)
        } else {
            Stage::FinalCheck
        },
        (Stage::MidCheck(r, sat), StageEvent::Checked(_)) => if !sat && r + 1 < MAX_REVIEW_ITERS {
            Stage::Revise(r)
        } else {
            Stage::FinalCheck
        },
        (Stage::Revise(r), StageEvent::Revised) => Stage::Critique((r + 1) as u32),
        (Stage::FinalCheck, StageEvent::Checked(t)) => if t < 50 {
            Stage::Edit
        } else {
            Stage::Rank
        },
        (Stage::Edit, StageEvent::Edited(kept)) => if kept {
            Stage::Recheck
        } else {
            Stage::Rank
        },
        (Stage::Recheck, StageEvent::Checked(_)) => Stage::Rank,
        (Stage::Rank, StageEvent::Ranked) => Stage::Done,
        _ => s,
    }
}

/// The stage the pipeline starts from once the first draft is written.
pub fn first_stage() -> (r: Stage)
    ensures
        r == Stage::Critique(0),
{
    Stage::Critique(0)
}

/// The next stage of the pipeline.
pub fn next_stage(s: Stage, e: StageEvent) -> (r: Stage)
    requires
        s matches Stage::Revise(k) ==> k < u32::MAX,
    ensures
        r == stage_after(s, e),
{
    match (s, e) {
        (Stage::Critique(r), StageEvent::Critiqued(sat)) => if r == MID_LOOP_CHECK {
            Stage::MidCheck(r, sat)
        } else if should_revise(r, sat) {
            Stage::Revise(r)
        } else {
            Stage::FinalCheck
        },
        (Stage::MidCheck(r, sat), StageEvent::Checked(_)) => if should_revise(r, sat) {
            Stage::Revise(r)
        } else {
            Stage::FinalCheck
        },
        (Stage::Revise(r), StageEvent::Revised) => Stage::Critique(r + 1),
        (Stage::FinalCheck, StageEvent::Checked(t)) => if t < 50 {
            Stage::Edit
        } else {
            Stage::Rank
        },
        (Stage::Edit, StageEvent::Edited(kept)) => if kept {
            Stage::Recheck
        } else {
            Stage::Rank
        },
        (Stage::Recheck, StageEvent::Checked(_)) => Stage::Rank,
        (Stage::Rank, StageEvent::Ranked) => Stage::Done,
        _ => s,
    }
}

/// The stages a run can reach: critic rounds 0 to 4, the mid-loop check only
/// after round 2, revisions only after rounds 0 to 3.
pub open spec fn stage_ok(s: Stage) -> bool {
    match s {
        Stage::Critique(r) => r < MAX_REVIEW_ITERS,
        Stage::MidCheck(r, _) => r == MID_LOOP_CHECK,
        Stage::Revise(r) => r + 1 < MAX_REVIEW_ITERS,
        _ => true,
    }
}

/// The review loop keeps to its bounds: from a reachable stage every event
/// leads to a reachable stage, so the critic scores at most five drafts.
pub proof fn law_review_rounds_bounded(s: Stage, e: StageEvent)
    requires
        stage_ok(s),
    ensures
        stage_ok(stage_after(s, e)),
{
}

/// A satisfied critic ends the loop: the next stage is the fact check after
/// the loop, or on round 2 the mid-loop check, which then leads to it.
pub proof fn law_satisfied_critique_ends_loop(r: u32, t: i64)
    requires
        stage_ok(Stage::Critique(r)),
    ensures
        stage_after(Stage::Critique(r), StageEvent::Critiqued(true)) == (if r == MID_LOOP_CHECK {
            Stage::MidCheck(r, true)
        } else {
            Stage::FinalCheck
        }),
        stage_after(Stage::MidCheck(r, true), StageEvent::Checked(t)) == Stage::FinalCheck,
{
}

/// The last critic round ends the loop whatever the critic says.
pub proof fn law_last_round_ends_loop(sat: bool)
    ensures
        stage_after(Stage::Critique((MAX_REVIEW_ITERS - 1) as u32), StageEvent::Critiqued(sat))
            == Stage::FinalCheck,
{
}

/// The mid-loop fact check comes only right after the critique of round 2
/// (the third round).
pub proof fn law_mid_check_only_after_third_round(s: Stage, e: StageEvent)
    requires
        stage_after(s, e) is MidCheck,
        !(s is MidCheck),
    ensures
        s == Stage::Critique(MID_LOOP_CHECK),
        e is Critiqued,
{
}

/// The editor runs only after the post-loop fact check found fewer than
/// half of the claims supported.
pub proof fn law_editor_only_after_fabrication(s: Stage, e: StageEvent)
    requires
        stage_after(s, e) is Edit,
        !(s is Edit),
    ensures
        s == Stage::FinalCheck,
        e matches StageEvent::Checked(t) && t < 50,
{
}

// ---------------------------------------------------------------------------
// Editor
// ---------------------------------------------------------------------------

/// Some experience has a non-empty `bullet_points` array.
pub open spec fn has_bullets(exps: Seq<JVal>) -> bool {
    exists|i: int|
        0 <= i < exps.len() && ((#[trigger] exps[i]).field("bullet_points"@) matches JVal::Arr(b)
            && b.len() > 0)
}

/// The editor's CV is kept only when it still has experiences and at
/// least one of them has bullet points.
pub open spec fn editor_keeps(edited: JVal) -> bool {
    match edited.field("experiences"@) {
        JVal::Arr(e) => e.len() > 0 && has_bullets(e),
        _ => false,
    }
}

/// Judges the editor's output.
pub fn editor_accepts(edited: &Json) -> (b: bool)
    ensures
        b == editor_keeps(edited@),
{
    let exps = field_copy(edited, "experiences");
    match &exps {
        Json::Arr(e) => {
            proof {
                crate::json::lemma_arr_view(*e);
            }
            let ghost ev = crate::json::jvs(e@);
            if e.len() == 0 {
                return false;
            }
            let mut i: usize = 0;
            while i < e.len()
                invariant
                    i <= e@.len(),
                    ev == crate::json::jvs(e@),
                    exps@ == JVal::Arr(ev),
                    exps@ == edited@.field("experiences"@),
                    e@.len() > 0,
                    forall|k: int|
                        0 <= k < i ==> !((#[trigger] ev[k]).field("bullet_points"@) matches JVal::Arr(
                            b,
                        ) && b.len() > 0),
                decreases e@.len() - i,
            {
                let bp = field_copy(&e[i], "bullet_points");
                match bp.as_array() {
                    Some(b) => {
                        if b.len() > 0 {
                            proof {
                                assert(ev[i as int] == e@[i as int]@);
                                assert(bp@.as_arr() == Some(crate::json::jvs(b@)));
                                assert(crate::json::jvs(b@).len() > 0);
                                assert(ev[i as int].field("bullet_points"@) matches JVal::Arr(bb)
                                    && bb.len() > 0);
                                assert(has_bullets(ev));
                            }
                            return true;
                        }
                    },
                    None => {},
                }
                proof {
                    assert(ev[i as int] == e@[i as int]@);
                }
                i = i + 1;
            }
            false
        },
        _ => false,
    }
}

/// Flags a verification whose editor fix was rejected.
pub fn mark_fabrication(verification: &mut Json)
    requires
        old(verification)@ is Obj || old(verification)@ is Null,
    ensures
        final(verification)@ == old(verification)@.set("fabrication_detected"@, JVal::Bool(true)),
{
    verification.insert("fabrication_detected", Json::Bool(true));
}

// ---------------------------------------------------------------------------
// Progress and status texts
// ---------------------------------------------------------------------------

/// `Writer: revising draft ({next}/5)…`.
pub fn revising_message(next: u32) -> (r: String)
    ensures
        r@ == "Writer: revising draft ("@ + dec(next as nat) + "/5)…"@,
{
    let mut v = chars_of("Writer: revising draft (");
    push_all(&mut v, fmt_u64(next as u64).as_slice());
    push_str(&mut v, "/5)…");
    string_of(v.as_slice())
}

/// `Critic {n}/5: scoring draft…`.
pub fn critic_message(n: u32) -> (r: String)
    ensures
        r@ == "Critic "@ + dec(n as nat) + "/5: scoring draft…"@,
{
    let mut v = chars_of("Critic ");
    push_all(&mut v, fmt_u64(n as u64).as_slice());
    push_str(&mut v, "/5: scoring draft…");
    string_of(v.as_slice())
}

/// `Editor: fixing fabrication (truth={truth}%)…`.
pub fn editor_message(truth: i64) -> (r: String)
    ensures
        r@ == "Editor: fixing fabrication (truth="@ + dec_int(truth as int) + "%)…"@,
{
    let mut v = chars_of("Editor: fixing fabrication (truth=");
    push_all(&mut v, fmt_i64(truth).as_slice());
    push_str(&mut v, "%)…");
    string_of(v.as_slice())
}

/// The loop's status line: passed in `n` iteration(s), or exhausted.
pub open spec fn loop_status_text(satisfied: bool, iters: u32) -> Seq<char> {
    if satisfied {
        "✓ Passed in "@ + dec(iters as nat) + " iteration"@ + if iters == 1 {
            ""@
        } else {
            "s"@
        }
    } else {
        "⚠ Loop exhausted ("@ + dec(iters as nat) + "/5 iterations) — still needs work"@
    }
}

/// The review loop's status line.
pub fn loop_status(satisfied: bool, iters: u32) -> (r: String)
    ensures
        r@ == loop_status_text(satisfied, iters),
{
    let n = fmt_u64(iters as u64);
    if satisfied {
        let mut v = chars_of("✓ Passed in ");
        push_all(&mut v, n.as_slice());
        push_str(&mut v, " iteration");
        if iters == 1 {
            push_str(&mut v, "");
        } else {
            push_str(&mut v, "s");
        }
        string_of(v.as_slice())
    } else {
        let mut v = chars_of("⚠ Loop exhausted (");
        push_all(&mut v, n.as_slice());
        push_str(&mut v, "/5 iterations) — still needs work");
        string_of(v.as_slice())
    }
}

/// The saved review feedback: the status line, a blank line, the review.
pub fn final_feedback(status: &str, feedback: &str) -> (r: String)
    ensures
        r@ == status@ + "\n\n"@ + feedback@,
{
    let mut v = chars_of(status);
    push_str(&mut v, "\n\n");
    push_str(&mut v, feedback);
    string_of(v.as_slice())
}

/// `Score: {score}/100 — {status}`.
pub fn score_message(score: i64, status: &str) -> (r: String)
    ensures
        r@ == "Score: "@ + dec_int(score as int) + "/100 — "@ + status@,
{
    let mut v = chars_of("Score: ");
    push_all(&mut v, fmt_i64(score).as_slice());
    push_str(&mut v, "/100 — ");
    push_str(&mut v, status);
    string_of(v.as_slice())
}

// ---------------------------------------------------------------------------
// Prompts
// ---------------------------------------------------------------------------

/// The prompt layout: a CONTEXT section with the pretty-printed context,
/// then a TASK section.
pub open spec fn prompt_text(task: Seq<char>, context_text: Seq<char>) -> Seq<char> {
    "\n### CONTEXT\n"@ + context_text + "\n### TASK\n"@ + task + "\n"@
}

/// Lays out a prompt from the task and the pretty-printed context.
pub fn build_prompt(task: &str, context_text: &str) -> (r: String)
    ensures
        r@ == prompt_text(task@, context_text@),
{
    let mut v = chars_of("\n### CONTEXT\n");
    push_str(&mut v, context_text);
    push_str(&mut v, "\n### TASK\n");
    push_str(&mut v, task);
    push_str(&mut v, "\n");
    string_of(v.as_slice())
}

// ---------------------------------------------------------------------------
// Wiki context
// ---------------------------------------------------------------------------

/// One node's section of the writer's context.
pub open spec fn wiki_section(n: crate::wiki_graph::WikiNode) -> Seq<char> {
    "## "@ + n.title@ + "\n\n"@ + n.body@ + "\n\n"@
}

/// The sections of the nodes found under the given titles, in order (a
/// title that finds no node adds nothing).
pub open spec fn node_sections(
    nodes: Seq<(String, crate::wiki_graph::WikiNode)>,
    titles: Seq<Seq<char>>,
) -> Seq<char>
    decreases titles.len(),
{
    if titles.len() == 0 {
        Seq::empty()
    } else {
        node_sections(nodes, titles.drop_last()) + match crate::wiki_graph::key_index(
            nodes,
            unicode_lower(titles.last()),
        ) {
            Some(i) => wiki_section(nodes[i].1),
            None => Seq::empty(),
        }
    }
}

/// The writer's knowledge-base context: the index, then the sections of
/// the nodes listed under `titles`.
pub open spec fn wiki_context_text(g: WikiGraph, titles: Seq<Seq<char>>) -> Seq<char> {
    "# Career Knowledge Base — Index\n\n"@ + g.index@ + "\n\n# Relevant Wiki Nodes\n\n"@
        + node_sections(g.nodes@, titles)
}

/// The titles of the nodes, in node order.
pub open spec fn node_titles(g: WikiGraph) -> Seq<Seq<char>> {
    g.nodes@.map_values(|p: (String, crate::wiki_graph::WikiNode)| p.1.title@)
}

/// `titles` lists every node's title once per node, sorted, and nothing else.
pub open spec fn all_titles_sorted(g: WikiGraph, titles: Seq<Seq<char>>) -> bool {
    &&& forall|j: int| 0 <= j < titles.len() - 1 ==> crate::sorting::seq_le(#[trigger] titles[j], titles[j + 1])
    &&& titles.to_multiset() == node_titles(g).to_multiset()
}

/// The knowledge the writer works from: the master CV when there is no wiki
/// (or it is empty), else the wiki index followed by every node, by title.
pub fn build_wiki_context(graph: Option<&WikiGraph>, master_cv: &str) -> (r: String)
    ensures
        match graph {
            Some(g) => if g.nodes@.len() == 0 {
                r@ == master_cv@
            } else {
                exists|titles: Seq<Seq<char>>| all_titles_sorted(*g, titles) && r@ == wiki_context_text(*g, titles)
            },
            None => r@ == master_cv@,
        },
{
    let g = match graph {
        Some(g) => g,
        None => {
            return master_cv.to_owned();
        },
    };
    if g.is_empty() {
        return master_cv.to_owned();
    }
    let mut v = chars_of("# Career Knowledge Base — Index\n\n");
    push_str(&mut v, g.index_body());
    push_str(&mut v, "\n\n# Relevant Wiki Nodes\n\n");
    let entries = g.list(None);
    let ghost titles = entries@.map_values(|e: (&str, &str)| e.0@);
    let ghost head = v@;
    let mut i: usize = 0;
    proof {
        assert(titles.take(0) =~= Seq::<Seq<char>>::empty());
        assert(v@ =~= head + node_sections(g.nodes@, titles.take(0)));
    }
    while i < entries.len()
        invariant
            i <= entries@.len(),
            titles == entries@.map_values(|e: (&str, &str)| e.0@),
            v@ == head + node_sections(g.nodes@, titles.take(i as int)),
        decreases entries@.len() - i,
    {
        proof {
            assert(titles.take(i + 1).drop_last() =~= titles.take(i as int));
            assert(titles.take(i + 1).last() == entries@[i as int].0@);
        }
        let ghost before = v@;
        match g.get(entries[i].0) {
            Some(node) => {
                push_str(&mut v, "## ");
                push_str(&mut v, node.title.as_str());
                push_str(&mut v, "\n\n");
                push_str(&mut v, node.body.as_str());
                push_str(&mut v, "\n\n");
                proof {
                    assert(v@ =~= before + wiki_section(*node));
                }
            },
            None => {
                proof {
                    assert(v@ =~= before + Seq::<char>::empty());
                }
            },
        }
        i = i + 1;
    }
    proof {
        assert(titles.take(entries@.len() as int) =~= titles);
        assert forall|j: int| 0 <= j < titles.len() - 1 implies crate::sorting::seq_le(
            #[trigger] titles[j],
            titles[j + 1],
        ) by {
            assert(crate::sorting::seq_le(entries@[j].0@, entries@[j + 1].0@));
        }
        let ev = crate::wiki_graph::entry_views(entries@);
        let fst = |e: (Seq<char>, Seq<char>)| e.0;
        assert(titles =~= ev.map_values(fst));
        crate::sorting::lemma_map_multiset(ev, crate::wiki_graph::list_entries(g.nodes@, None), fst);
        crate::wiki_graph::lemma_passing_all(g.nodes@, g.nodes@.len() as int);
        assert(crate::wiki_graph::list_entries(g.nodes@, None).map_values(fst) =~= node_titles(*g));
        assert(all_titles_sorted(*g, titles));
    }
    string_of(v.as_slice())
}

} // verus!
