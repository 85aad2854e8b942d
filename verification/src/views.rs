//! What the web pages show: the CV, review, fact check and ranking read out
//! of stored JSON, the polling card for a job, form fields, the accepted
//! job URLs, and the escaping of error text.
use vstd::prelude::*;
use crate::json::{jvs, JVal, Json};
use crate::text::{chars_of, push_str, string_of, trim, trim_chars, views};
use crate::transport::{field_copy, str_or_empty, text_or_empty};

verus! {

// ---------------------------------------------------------------------------
// Outside calls
// ---------------------------------------------------------------------------

/// The host of a URL as the `url` crate parses it; `None` when it does not
/// parse or has no host.
pub uninterp spec fn url_host(url: Seq<char>) -> Option<Seq<char>>;

/// The name/value pairs of an `application/x-www-form-urlencoded` body,
/// decoded, in order.
pub uninterp spec fn form_pairs(body: Seq<u8>) -> Seq<(Seq<char>, Seq<char>)>;

/// Value of a hexadecimal digit, in either case.
pub open spec fn hex_digit(c: char) -> Option<nat> {
    if '0' <= c && c <= '9' {
        Some((c as u32 - 48) as nat)
    } else if 'a' <= c && c <= 'f' {
        Some((c as u32 - 87) as nat)
    } else if 'A' <= c && c <= 'F' {
        Some((c as u32 - 55) as nat)
    } else {
        None
    }
}

/// The number the hexadecimal digits spell, most significant first.
pub open spec fn hex_number(s: Seq<char>) -> Option<nat>
    decreases s.len(),
{
    if s.len() == 0 {
        Some(0)
    } else {
        match (hex_number(s.drop_last()), hex_digit(s.last())) {
            (Some(a), Some(d)) => Some(a * 16 + d),
            _ => None,
        }
    }
}

/// The 32 digits of the hyphenated form `8-4-4-4-12`.
pub open spec fn hyphenated_digits(s: Seq<char>) -> Option<Seq<char>> {
    if s.len() == 36 && s[8] == '-' && s[13] == '-' && s[18] == '-' && s[23] == '-' {
        Some(
            s.subrange(0, 8) + s.subrange(9, 13) + s.subrange(14, 18) + s.subrange(19, 23)
                + s.subrange(24, 36),
        )
    } else {
        None
    }
}

/// The digits of a UUID in one of the forms `uuid` documents: simple (32
/// digits), hyphenated, braced (`{hyphenated}`) or `urn:uuid:hyphenated`
/// (prefix in any ASCII case).
pub open spec fn uuid_digits(s: Seq<char>) -> Option<Seq<char>> {
    if s.len() == 32 {
        Some(s)
    } else if s.len() == 36 {
        hyphenated_digits(s)
    } else if s.len() == 38 && s[0] == '{' && s[37] == '}' {
        hyphenated_digits(s.subrange(1, 37))
    } else if s.len() == 45 && crate::text::ascii_lower(s.take(9)) == "urn:uuid:"@ {
        hyphenated_digits(s.skip(9))
    } else {
        None
    }
}

/// The 128-bit value of a UUID in text form, its digits read as one
/// big-endian number; `None` when it does not parse.
pub open spec fn uuid_value(s: Seq<char>) -> Option<u128> {
    match uuid_digits(s) {
        Some(d) => match hex_number(d) {
            Some(n) => Some(n as u128),
            None => None,
        },
        None => None,
    }
}

/// The view of an optional string.
pub open spec fn opt_string(o: Option<String>) -> Option<Seq<char>> {
    match o {
        Some(s) => Some(s@),
        None => None,
    }
}

/// Pairs of strings, as values.
pub open spec fn pair_strings(v: Seq<(String, String)>) -> Seq<(Seq<char>, Seq<char>)> {
    v.map_values(|p: (String, String)| (p.0@, p.1@))
}

/// `reqwest::Url::parse(url)` then `host_str()`: the URL's host. The
/// contract names the result and claims no more.
#[verifier::external_body]
fn parse_url_host(url: &str) -> (r: Option<String>)
    ensures
        opt_string(r) == url_host(url@),
{
    reqwest::Url::parse(url).ok().and_then(|u| u.host_str().map(|h| h.to_owned()))
}

/// `form_urlencoded::parse(body)`: the decoded pairs, in order. The
/// contract names the result and claims no more.
#[verifier::external_body]
fn parse_form(body: &[u8]) -> (r: Vec<(String, String)>)
    ensures
        pair_strings(r@) == form_pairs(body@),
{
    form_urlencoded::parse(body).map(|(k, v)| (k.into_owned(), v.into_owned())).collect()
}

/// `uuid::Uuid::parse_str(s)` then `as_u128()`: the documented text forms,
/// hexadecimal digits in either case, packed big-endian into a `u128`.
#[verifier::external_body]
fn parse_uuid(s: &str) -> (r: Option<u128>)
    ensures
        r == uuid_value(s@),
{
    uuid::Uuid::parse_str(s).ok().map(|u| u.as_u128())
}

/// The only job board accepted.
pub open spec fn jobstreet_url(url: Seq<char>) -> bool {
    url_host(url) == Some("id.jobstreet.com"@)
}

/// Whether a URL points at id.jobstreet.com.
pub fn is_jobstreet_url(url: &str) -> (b: bool)
    ensures
        b == jobstreet_url(url@),
{
    match parse_url_host(url) {
        Some(h) => crate::json::str_eq(h.as_str(), "id.jobstreet.com"),
        None => false,
    }
}

/// The values given for `key` in a form, in order.
pub open spec fn values_for(pairs: Seq<(Seq<char>, Seq<char>)>, key: Seq<char>) -> Seq<Seq<char>>
    decreases pairs.len(),
{
    if pairs.len() == 0 {
        Seq::empty()
    } else {
        let prev = values_for(pairs.drop_last(), key);
        if pairs.last().0 == key {
            prev.push(pairs.last().1)
        } else {
            prev
        }
    }
}

/// The values a form body gives for `key` (repeated keys allowed).
pub fn form_values(body: &[u8], key: &str) -> (r: Vec<String>)
    ensures
        views(r@) == values_for(form_pairs(body@), key@),
{
    let pairs = parse_form(body);
    let ghost pv = pair_strings(pairs@);
    let mut out: Vec<String> = Vec::new();
    let mut i: usize = 0;
    proof {
        assert(pv.take(0) =~= Seq::<(Seq<char>, Seq<char>)>::empty());
        assert(views(out@) =~= Seq::<Seq<char>>::empty());
    }
    while i < pairs.len()
        invariant
            i <= pairs@.len(),
            pv == pair_strings(pairs@),
            views(out@) == values_for(pv.take(i as int), key@),
        decreases pairs@.len() - i,
    {
        proof {
            assert(pv.take(i + 1).drop_last() =~= pv.take(i as int));
            assert(pv.take(i + 1).last() == pv[i as int]);
        }
        if crate::json::str_eq(pairs[i].0.as_str(), key) {
            let ghost before = views(out@);
            out.push(pairs[i].1.clone());
            proof {
                assert(views(out@) =~= before.push(pairs@[i as int].1@));
            }
        }
        i = i + 1;
    }
    proof {
        assert(pv.take(pairs@.len() as int) =~= pv);
    }
    out
}

/// The UUIDs among some texts, in order (texts that do not parse are skipped).
pub open spec fn uuids_of(texts: Seq<Seq<char>>) -> Seq<u128>
    decreases texts.len(),
{
    if texts.len() == 0 {
        Seq::empty()
    } else {
        let prev = uuids_of(texts.drop_last());
        match uuid_value(texts.last()) {
            Some(u) => prev.push(u),
            None => prev,
        }
    }
}

/// The job ids a batch form selects: its `ids` values that are UUIDs.
pub fn batch_job_ids(body: &[u8]) -> (r: Vec<u128>)
    ensures
        r@ == uuids_of(values_for(form_pairs(body@), "ids"@)),
{
    let ids = form_values(body, "ids");
    let ghost iv = views(ids@);
    let mut out: Vec<u128> = Vec::new();
    let mut i: usize = 0;
    proof {
        assert(iv.take(0) =~= Seq::<Seq<char>>::empty());
    }
    while i < ids.len()
        invariant
            i <= ids@.len(),
            iv == views(ids@),
            out@ == uuids_of(iv.take(i as int)),
        decreases ids@.len() - i,
    {
        proof {
            assert(iv.take(i + 1).drop_last() =~= iv.take(i as int));
            assert(iv.take(i + 1).last() == ids@[i as int]@);
        }
        match parse_uuid(ids[i].as_str()) {
            Some(u) => out.push(u),
            None => {},
        }
        i = i + 1;
    }
    proof {
        assert(iv.take(ids@.len() as int) =~= iv);
    }
    out
}

// ---------------------------------------------------------------------------
// Escaping
// ---------------------------------------------------------------------------

/// `&` and `<` escaped (ampersands first), as error text is shown.
pub open spec fn escape_text(s: Seq<char>) -> Seq<char>
    decreases s.len(),
{
    if s.len() == 0 {
        Seq::empty()
    } else {
        escape_text(s.drop_last()) + if s.last() == '&' {
            "&amp;"@
        } else if s.last() == '<' {
            "&lt;"@
        } else {
            seq![s.last()]
        }
    }
}

/// A debug query may run only when it reads: its trimmed, upper-cased text
/// starts with `SELECT` or `WITH`.
pub open spec fn read_only_query(q: Seq<char>) -> bool {
    let u = crate::text::unicode_upper(crate::text::trim(q));
    crate::text::starts_with(u, "SELECT"@) || crate::text::starts_with(u, "WITH"@)
}

/// Whether a debug query is one that only reads.
pub fn is_read_only_query(q: &str) -> (b: bool)
    ensures
        b == read_only_query(q@),
{
    let t = string_of(crate::text::trim_chars(chars_of(q).as_slice()).as_slice());
    let u = chars_of(crate::text::to_uppercase(t.as_str()).as_str());
    crate::text::starts_with_str(u.as_slice(), "SELECT") || crate::text::starts_with_str(
        u.as_slice(),
        "WITH",
    )
}

/// Escaped text opens no tag: it holds no `<`.
pub proof fn law_escaped_text_has_no_tag_open(s: Seq<char>)
    ensures
        forall|i: int| 0 <= i < escape_text(s).len() ==> escape_text(s)[i] != '<',
    decreases s.len(),
{
    if s.len() > 0 {
        law_escaped_text_has_no_tag_open(s.drop_last());
        reveal_strlit("&amp;");
        reveal_strlit("&lt;");
        let a = escape_text(s.drop_last());
        let b = if s.last() == '&' {
            "&amp;"@
        } else if s.last() == '<' {
            "&lt;"@
        } else {
            seq![s.last()]
        };
        assert(escape_text(s) == a + b);
        assert forall|i: int| 0 <= i < (a + b).len() implies (a + b)[i] != '<' by {
            if i >= a.len() {
                assert((a + b)[i] == b[i - a.len()]);
            }
        }
    }
}

/// Escapes `&` and `<` for display inside HTML.
pub fn escape_html(s: &str) -> (r: String)
    ensures
        r@ == escape_text(s@),
{
    let c = chars_of(s);
    let mut v: Vec<char> = Vec::new();
    let mut i: usize = 0;
    proof {
        assert(c@.take(0) =~= Seq::<char>::empty());
    }
    while i < c.len()
        invariant
            i <= c@.len(),
            c@ == s@,
            v@ == escape_text(c@.take(i as int)),
        decreases c@.len() - i,
    {
        proof {
            assert(c@.take(i + 1).drop_last() =~= c@.take(i as int));
            assert(c@.take(i + 1).last() == c@[i as int]);
        }
        let ch = c[i];
        let ghost before = v@;
        if ch == '&' {
            push_str(&mut v, "&amp;");
        } else if ch == '<' {
            push_str(&mut v, "&lt;");
        } else {
            v.push(ch);
            proof {
                assert(v@ =~= before + seq![ch]);
            }
        }
        i = i + 1;
    }
    proof {
        assert(c@.take(c@.len() as int) =~= c@);
    }
    string_of(v.as_slice())
}

/// `&`, `<` and `>` escaped (ampersands first), as text shown verbatim
/// in a page is.
pub open spec fn markup_text(s: Seq<char>) -> Seq<char>
    decreases s.len(),
{
    if s.len() == 0 {
        Seq::empty()
    } else {
        markup_text(s.drop_last()) + if s.last() == '&' {
            "&amp;"@
        } else if s.last() == '<' {
            "&lt;"@
        } else if s.last() == '>' {
            "&gt;"@
        } else {
            seq![s.last()]
        }
    }
}

/// Escapes `&`, `<` and `>`.
pub fn escape_markup(s: &str) -> (r: String)
    ensures
        r@ == markup_text(s@),
{
    let c = chars_of(s);
    let mut v: Vec<char> = Vec::new();
    let mut i: usize = 0;
    proof {
        assert(c@.take(0) =~= Seq::<char>::empty());
    }
    while i < c.len()
        invariant
            i <= c@.len(),
            c@ == s@,
            v@ == markup_text(c@.take(i as int)),
        decreases c@.len() - i,
    {
        proof {
            assert(c@.take(i + 1).drop_last() =~= c@.take(i as int));
            assert(c@.take(i + 1).last() == c@[i as int]);
        }
        let ch = c[i];
        let ghost before = v@;
        if ch == '&' {
            push_str(&mut v, "&amp;");
        } else if ch == '<' {
            push_str(&mut v, "&lt;");
        } else if ch == '>' {
            push_str(&mut v, "&gt;");
        } else {
            v.push(ch);
            proof {
                assert(v@ =~= before + seq![ch]);
            }
        }
        i = i + 1;
    }
    proof {
        assert(c@.take(c@.len() as int) =~= c@);
    }
    string_of(v.as_slice())
}

// ---------------------------------------------------------------------------
// Job cards
// ---------------------------------------------------------------------------

/// What the polling card of a job shows.
#[derive(PartialEq, Eq, Structural, Clone, Copy, Debug)]
pub enum CardKind {
    /// The CV is ready.
    Ready,
    /// Processing failed.
    Failed,
    /// The job is gone (deleted while processing).
    Removed,
    /// Still processing: keep polling.
    Processing,
}

/// The card for a job status: `generated` ready, `failed` failed, no
/// status removed, anything else still processing.
pub open spec fn card_for(status: Seq<char>) -> CardKind {
    if status == "generated"@ {
        CardKind::Ready
    } else if status == "failed"@ {
        CardKind::Failed
    } else if status.len() == 0 {
        CardKind::Removed
    } else {
        CardKind::Processing
    }
}

/// Picks the card for a job status.
pub fn card_kind(status: &str) -> (r: CardKind)
    ensures
        r == card_for(status@),
{
    if crate::json::str_eq(status, "generated") {
        CardKind::Ready
    } else if crate::json::str_eq(status, "failed") {
        CardKind::Failed
    } else if chars_of(status).len() == 0 {
        CardKind::Removed
    } else {
        CardKind::Processing
    }
}

/// A terminal card: `<article id="job-{id}"><span class="error">{text}</span></article>`.
pub fn terminal_card(id: &str, text: &str) -> (r: String)
    ensures
        r@ == "<article id=\"job-"@ + id@ + "\"><span class=\"error\">"@ + text@
            + "</span></article>"@,
{
    let mut v = chars_of("<article id=\"job-");
    push_str(&mut v, id);
    push_str(&mut v, "\"><span class=\"error\">");
    push_str(&mut v, text);
    push_str(&mut v, "</span></article>");
    string_of(v.as_slice())
}

/// The trimmed title and description of a manual job; `None` when either
/// is blank.
pub fn manual_job_fields(title: &str, description: &str) -> (r: Option<(String, String)>)
    ensures
        match r {
            Some((t, d)) => t@ == trim(title@) && d@ == trim(description@) && t@.len() > 0 && d@.len()
                > 0,
            None => trim(title@).len() == 0 || trim(description@).len() == 0,
        },
{
    let t = trim_chars(chars_of(title).as_slice());
    let d = trim_chars(chars_of(description).as_slice());
    if t.len() == 0 || d.len() == 0 {
        None
    } else {
        Some((string_of(t.as_slice()), string_of(d.as_slice())))
    }
}

// ---------------------------------------------------------------------------
// CV, review, fact check, ranking
// ---------------------------------------------------------------------------

/// One experience of a CV.
pub struct Experience {
    pub company: String,
    pub role: String,
    pub bullet_points: Vec<String>,
}

/// A CV as the pages show it.
pub struct CvContent {
    pub summary: String,
    pub skills: Vec<String>,
    pub experiences: Vec<Experience>,
}

/// The strings of an array (other items skipped); none when not an array.
pub open spec fn strings_in(v: JVal) -> Seq<Seq<char>> {
    match v {
        JVal::Arr(a) => strings_from(a),
        _ => Seq::empty(),
    }
}

pub open spec fn strings_from(a: Seq<JVal>) -> Seq<Seq<char>>
    decreases a.len(),
{
    if a.len() == 0 {
        Seq::empty()
    } else {
        let prev = strings_from(a.drop_last());
        match a.last() {
            JVal::Str(s) => prev.push(s),
            _ => prev,
        }
    }
}

/// Reads the strings of an array.
pub fn strings_of_json(v: &Json) -> (r: Vec<String>)
    ensures
        views(r@) == strings_in(v@),
{
    let mut out: Vec<String> = Vec::new();
    proof {
        assert(views(out@) =~= Seq::<Seq<char>>::empty());
    }
    match v {
        Json::Arr(a) => {
            proof {
                crate::json::lemma_arr_view(*a);
            }
            let ghost av = jvs(a@);
            let mut i: usize = 0;
            proof {
                assert(av.take(0) =~= Seq::<JVal>::empty());
            }
            while i < a.len()
                invariant
                    i <= a@.len(),
                    av == jvs(a@),
                    views(out@) == strings_from(av.take(i as int)),
                decreases a@.len() - i,
            {
                proof {
                    assert(av.take(i + 1).drop_last() =~= av.take(i as int));
                    assert(av.take(i + 1).last() == a@[i as int]@);
                }
                match a[i].as_str() {
                    Some(s) => {
                        let ghost before = views(out@);
                        out.push(s.to_owned());
                        proof {
                            assert(views(out@) =~= before.push(s@));
                        }
                    },
                    None => {},
                }
                i = i + 1;
            }
            proof {
                assert(av.take(a@.len() as int) =~= av);
            }
        },
        _ => {},
    }
    out
}

/// The model of an experience.
pub open spec fn exp_v(e: Experience) -> (Seq<char>, Seq<char>, Seq<Seq<char>>) {
    (e.company@, e.role@, views(e.bullet_points@))
}

/// An experience read from JSON (missing texts empty).
pub open spec fn exp_of(e: JVal) -> (Seq<char>, Seq<char>, Seq<Seq<char>>) {
    (
        str_or_empty(e.field("company"@)),
        str_or_empty(e.field("role"@)),
        strings_in(e.field("bullet_points"@)),
    )
}

/// A CV read from JSON: summary, string skills, experiences.
pub open spec fn cv_summary(cv: JVal) -> Seq<char> {
    str_or_empty(cv.field("summary"@))
}

pub open spec fn cv_experiences(cv: JVal) -> Seq<(Seq<char>, Seq<char>, Seq<Seq<char>>)> {
    match cv.field("experiences"@) {
        JVal::Arr(a) => a.map_values(|e: JVal| exp_of(e)),
        _ => Seq::empty(),
    }
}

/// Reads a stored CV (a document that did not parse reads as `null`).
pub fn parse_cv_content(cv: &Json) -> (r: CvContent)
    ensures
        r.summary@ == cv_summary(cv@),
        views(r.skills@) == strings_in(cv@.field("skills"@)),
        r.experiences@.map_values(|e: Experience| exp_v(e)) == cv_experiences(cv@),
{
    let summary = text_or_empty(&field_copy(cv, "summary"));
    let skills = strings_of_json(&field_copy(cv, "skills"));
    let exps = field_copy(cv, "experiences");
    let mut out: Vec<Experience> = Vec::new();
    match &exps {
        Json::Arr(a) => {
            proof {
                crate::json::lemma_arr_view(*a);
            }
            let ghost av = jvs(a@);
            let mut i: usize = 0;
            while i < a.len()
                invariant
                    i <= a@.len(),
                    av == jvs(a@),
                    out@.map_values(|e: Experience| exp_v(e)) == av.take(i as int).map_values(
                        |e: JVal| exp_of(e),
                    ),
                decreases a@.len() - i,
            {
                let e = &a[i];
                let x = Experience {
                    company: text_or_empty(&field_copy(e, "company")),
                    role: text_or_empty(&field_copy(e, "role")),
                    bullet_points: strings_of_json(&field_copy(e, "bullet_points")),
                };
                let ghost before = out@;
                out.push(x);
                proof {
                    assert(out@.map_values(|e: Experience| exp_v(e)) =~= before.map_values(
                        |e: Experience| exp_v(e),
                    ).push(exp_v(x)));
                    assert(av.take(i + 1).map_values(|e: JVal| exp_of(e)) =~= av.take(
                        i as int,
                    ).map_values(|e: JVal| exp_of(e)).push(exp_of(e@)));
                }
                i = i + 1;
            }
            proof {
                assert(av.take(a@.len() as int) =~= av);
            }
        },
        _ => {
            proof {
                assert(out@.map_values(|e: Experience| exp_v(e)) =~= Seq::<
                    (Seq<char>, Seq<char>, Seq<Seq<char>>),
                >::empty());
            }
        },
    }
    CvContent { summary, skills, experiences: out }
}

/// The critic's score and feedback as the job page shows it.
pub struct ReviewSummary {
    pub score: i64,
    pub feedback: String,
}

/// The review shown for a job: present when it has feedback; the score
/// defaults to 0.
pub fn review_summary(score: Option<i64>, feedback: Option<&str>) -> (r: Option<ReviewSummary>)
    ensures
        match feedback {
            Some(f) => r matches Some(s) && s.feedback@ == f@ && s.score == match score {
                Some(x) => x,
                None => 0,
            },
            None => r is None,
        },
{
    match feedback {
        Some(f) => Some(
            ReviewSummary {
                score: match score {
                    Some(x) => x,
                    None => 0,
                },
                feedback: f.to_owned(),
            },
        ),
        None => None,
    }
}

/// One checked claim.
pub struct VerificationItem {
    pub category: String,
    pub field: String,
    pub claim: String,
    pub verdict: String,
    pub evidence: String,
}

/// The fact check as the job page shows it.
pub struct Verification {
    pub truth_pct: i64,
    pub items: Vec<VerificationItem>,
    pub gap_report: String,
    pub fabrication_detected: bool,
    pub incomplete: bool,
}

/// The model of a checked claim.
pub open spec fn item_v(i: VerificationItem) -> Seq<Seq<char>> {
    seq![i.category@, i.field@, i.claim@, i.verdict@, i.evidence@]
}

/// A claim read from JSON (missing texts empty).
pub open spec fn item_of(v: JVal) -> Seq<Seq<char>> {
    seq![
        str_or_empty(v.field("category"@)),
        str_or_empty(v.field("field"@)),
        str_or_empty(v.field("claim"@)),
        str_or_empty(v.field("verdict"@)),
        str_or_empty(v.field("evidence"@)),
    ]
}

/// A flag that is `true` only when the value is the boolean true.
pub open spec fn flag(v: JVal) -> bool {
    v == JVal::Bool(true)
}

fn flag_of(v: &Json) -> (b: bool)
    ensures
        b == flag(v@),
{
    match v {
        Json::Bool(b) => *b,
        _ => false,
    }
}

/// Reads a stored fact check.
pub fn verification_from(v: &Json) -> (r: Verification)
    ensures
        r.truth_pct == crate::pipeline::truth_pct(v@, 0),
        r.items@.map_values(|i: VerificationItem| item_v(i)) == match v@.field("items"@) {
            JVal::Arr(a) => a.map_values(|x: JVal| item_of(x)),
            _ => Seq::empty(),
        },
        r.gap_report@ == str_or_empty(v@.field("gap_report"@)),
        r.fabrication_detected == flag(v@.field("fabrication_detected"@)),
        r.incomplete == flag(v@.field("incomplete"@)),
{
    let items_j = field_copy(v, "items");
    let mut items: Vec<VerificationItem> = Vec::new();
    match &items_j {
        Json::Arr(a) => {
            proof {
                crate::json::lemma_arr_view(*a);
            }
            let ghost av = jvs(a@);
            let mut i: usize = 0;
            while i < a.len()
                invariant
                    i <= a@.len(),
                    av == jvs(a@),
                    items@.map_values(|i: VerificationItem| item_v(i)) == av.take(i as int).map_values(
                        |x: JVal| item_of(x),
                    ),
                decreases a@.len() - i,
            {
                let it = &a[i];
                let x = VerificationItem {
                    category: text_or_empty(&field_copy(it, "category")),
                    field: text_or_empty(&field_copy(it, "field")),
                    claim: text_or_empty(&field_copy(it, "claim")),
                    verdict: text_or_empty(&field_copy(it, "verdict")),
                    evidence: text_or_empty(&field_copy(it, "evidence")),
                };
                let ghost before = items@;
                items.push(x);
                proof {
                    assert(items@.map_values(|i: VerificationItem| item_v(i)) =~= before.map_values(
                        |i: VerificationItem| item_v(i),
                    ).push(item_v(x)));
                    assert(item_v(x) =~= item_of(it@));
                    assert(av.take(i + 1).map_values(|x: JVal| item_of(x)) =~= av.take(
                        i as int,
                    ).map_values(|x: JVal| item_of(x)).push(item_of(it@)));
                }
                i = i + 1;
            }
            proof {
                assert(av.take(a@.len() as int) =~= av);
            }
        },
        _ => {
            proof {
                assert(items@.map_values(|i: VerificationItem| item_v(i)) =~= Seq::<
                    Seq<Seq<char>>,
                >::empty());
            }
        },
    }
    Verification {
        truth_pct: crate::pipeline::truth_of(v, 0),
        items,
        gap_report: text_or_empty(&field_copy(v, "gap_report")),
        fabrication_detected: flag_of(&field_copy(v, "fabrication_detected")),
        incomplete: flag_of(&field_copy(v, "incomplete")),
    }
}

/// The ranker's prediction as the job page shows it.
pub struct RankSummary {
    pub approval_probability: i64,
    pub good: Vec<String>,
    pub bad: Vec<String>,
    pub improvements: Vec<String>,
}

/// Reads a stored ranking.
pub fn rank_from(v: &Json) -> (r: RankSummary)
    ensures
        r.approval_probability == match v@.field("approval_probability"@).as_i64() {
            Some(n) => n,
            None => 0,
        },
        views(r.good@) == strings_in(v@.field("good"@)),
        views(r.bad@) == strings_in(v@.field("bad"@)),
        views(r.improvements@) == strings_in(v@.field("improvements"@)),
{
    RankSummary {
        approval_probability: match field_copy(v, "approval_probability").as_i64() {
            Some(n) => n,
            None => 0,
        },
        good: strings_of_json(&field_copy(v, "good")),
        bad: strings_of_json(&field_copy(v, "bad")),
        improvements: strings_of_json(&field_copy(v, "improvements")),
    }
}

// ---------------------------------------------------------------------------
// Page data
// ---------------------------------------------------------------------------

/// The crawl panel of the main page.
pub struct CrawlStatusTemplate {
    pub active: bool,
    pub stopping: bool,
    pub message: String,
    pub terminal: i64,
    pub total: i64,
}

/// The crawl panel for the current activity: progress counts only while a
/// crawl of a known search runs.
pub fn crawl_status_view(a: &crate::settings::CrawlActivity, progress: Option<(i64, i64)>) -> (r: CrawlStatusTemplate)
    ensures
        r.active == a.active,
        r.stopping == a.stopping,
        r.message@ == a.message@,
        (r.terminal, r.total) == (if a.active && a.search_id is Some {
            match progress {
                Some(p) => p,
                None => (0, 0),
            }
        } else {
            (0i64, 0i64)
        }),
{
    let (terminal, total) = if a.active && a.search_id.is_some() {
        match progress {
            Some(p) => p,
            None => (0, 0),
        }
    } else {
        (0, 0)
    };
    CrawlStatusTemplate { active: a.active, stopping: a.stopping, message: a.message.clone(), terminal, total }
}

/// The settings page.
pub struct SettingsTemplate {
    pub llm_endpoint: String,
    pub llm_api_key: String,
    pub llm_model: String,
    pub llm_openai_compat: bool,
    pub llm_mock: bool,
    pub scheduler_interval: i64,
    pub scheduler_date_range: i64,
    pub scheduler_max_pages: i64,
    pub scheduler_runs: Vec<crate::settings::SchedulerRunRow>,
    pub status: String,
    pub agent_ctx_window: i64,
    pub agent_max_output: i64,
    pub agent_thinking_effort: String,
    pub agent_wiki_query_max_hops: i64,
    pub wiki_auto_ingest: bool,
    pub llm_concurrency: i64,
    pub max_jobs_per_crawl: i64,
}

/// The profile editor page.
pub struct ProfileTemplate {
    pub files: Vec<crate::profile::ProfileFile>,
    pub current_file: String,
    pub content: String,
}

/// The printable CV page.
pub struct CvPrintTemplate {
    pub name: String,
    pub title: String,
    pub summary: String,
    pub skills: Vec<String>,
    pub experiences: Vec<Experience>,
}

} // verus!
