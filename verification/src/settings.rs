//! Settings: the stored rows and their defaults, the form clamps, the
//! LLM configuration merged with the environment, the profile pre-filter
//! lists, the unlocked-files list, the scheduler's timing and the crawl
//! activity shown in the UI.
use vstd::prelude::*;
use crate::provider::{endpoint_provider, parsed_provider, Provider};
use crate::text::{
    chars_of, contains, contains_str, join, push_str, string_of, trim, trim_chars, trim_char,
    trim_matches, unicode_lower, views, to_lowercase,
};

verus! {

// ---------------------------------------------------------------------------
// Stored rows
// ---------------------------------------------------------------------------

/// LLM settings as stored.
pub struct LlmConfigRow {
    pub endpoint: String,
    pub api_key: String,
    pub model: String,
    pub openai_compat: bool,
    pub mock: bool,
}

impl Default for LlmConfigRow {
    fn default() -> (r: Self)
        ensures
            r.endpoint@.len() == 0,
            r.api_key@.len() == 0,
            r.model@.len() == 0,
            r.openai_compat,
            !r.mock,
    {
        LlmConfigRow {
            endpoint: String::new(),
            api_key: String::new(),
            model: String::new(),
            openai_compat: true,
            mock: false,
        }
    }
}

/// Agent settings as stored.
pub struct AgentSettings {
    pub ctx_window: i64,
    pub max_output: i64,
    pub thinking_effort: String,
    pub wiki_query_max_hops: i64,
    pub wiki_auto_ingest: bool,
}

impl Default for AgentSettings {
    fn default() -> (r: Self)
        ensures
            r.ctx_window == 1_048_576,
            r.max_output == 131_072,
            r.thinking_effort@ == "high"@,
            r.wiki_query_max_hops == 10,
            !r.wiki_auto_ingest,
    {
        AgentSettings {
            ctx_window: 1_048_576,
            max_output: 131_072,
            thinking_effort: "high".to_owned(),
            wiki_query_max_hops: 10,
            wiki_auto_ingest: false,
        }
    }
}

/// Pipeline tuning as stored.
pub struct PipelineConfig {
    pub llm_concurrency: i64,
    pub max_jobs_per_crawl: i64,
}

impl Default for PipelineConfig {
    fn default() -> (r: Self)
        ensures
            r.llm_concurrency == 2,
            r.max_jobs_per_crawl == 30,
    {
        PipelineConfig { llm_concurrency: 2, max_jobs_per_crawl: 30 }
    }
}

/// Scheduler settings as stored.
pub struct SchedulerConfigRow {
    pub interval_minutes: i64,
    pub date_range: i64,
    pub max_pages: i64,
}

/// The scheduler settings used when none can be read: off, last day, five pages.
pub fn default_scheduler_config() -> (r: SchedulerConfigRow)
    ensures
        r.interval_minutes == 0,
        r.date_range == 1,
        r.max_pages == 5,
{
    SchedulerConfigRow { interval_minutes: 0, date_range: 1, max_pages: 5 }
}

/// At least one.
pub open spec fn at_least_one(x: i64) -> i64 {
    if x < 1 {
        1
    } else {
        x
    }
}

fn max1(x: i64) -> (r: i64)
    ensures
        r == at_least_one(x),
{
    if x < 1 {
        1
    } else {
        x
    }
}

/// Agent settings from the settings form: numbers at least one, the
/// auto-ingest box ticked when it reads `on`.
pub fn agent_settings_from_form(
    ctx_window: i64,
    max_output: i64,
    thinking_effort: String,
    wiki_query_max_hops: i64,
    wiki_auto_ingest: Option<&str>,
) -> (r: AgentSettings)
    ensures
        r.ctx_window == at_least_one(ctx_window),
        r.max_output == at_least_one(max_output),
        r.thinking_effort == thinking_effort,
        r.wiki_query_max_hops == at_least_one(wiki_query_max_hops),
        r.wiki_auto_ingest == (crate::provider::opt_str_view(wiki_auto_ingest) == Some("on"@)),
{
    let auto = match wiki_auto_ingest {
        Some(s) => crate::json::str_eq(s, "on"),
        None => false,
    };
    AgentSettings {
        ctx_window: max1(ctx_window),
        max_output: max1(max_output),
        thinking_effort,
        wiki_query_max_hops: max1(wiki_query_max_hops),
        wiki_auto_ingest: auto,
    }
}

/// Agent settings after a partial update: each given field replaces the
/// current one; the numbers are then kept at 1 or more.
pub fn agent_settings_update(
    current: AgentSettings,
    ctx_window: Option<i64>,
    max_output: Option<i64>,
    thinking_effort: Option<String>,
    wiki_query_max_hops: Option<i64>,
    wiki_auto_ingest: Option<bool>,
) -> (r: AgentSettings)
    ensures
        r.ctx_window == at_least_one(
            match ctx_window {
                Some(v) => v,
                None => current.ctx_window,
            },
        ),
        r.max_output == at_least_one(
            match max_output {
                Some(v) => v,
                None => current.max_output,
            },
        ),
        r.thinking_effort@ == (match thinking_effort {
            Some(t) => t@,
            None => current.thinking_effort@,
        }),
        r.wiki_query_max_hops == at_least_one(
            match wiki_query_max_hops {
                Some(v) => v,
                None => current.wiki_query_max_hops,
            },
        ),
        r.wiki_auto_ingest == (match wiki_auto_ingest {
            Some(b) => b,
            None => current.wiki_auto_ingest,
        }),
{
    let c = match ctx_window {
        Some(v) => v,
        None => current.ctx_window,
    };
    let m = match max_output {
        Some(v) => v,
        None => current.max_output,
    };
    let h = match wiki_query_max_hops {
        Some(v) => v,
        None => current.wiki_query_max_hops,
    };
    let a = match wiki_auto_ingest {
        Some(b) => b,
        None => current.wiki_auto_ingest,
    };
    let t = match thinking_effort {
        Some(t) => t,
        None => current.thinking_effort,
    };
    AgentSettings {
        ctx_window: max1(c),
        max_output: max1(m),
        thinking_effort: t,
        wiki_query_max_hops: max1(h),
        wiki_auto_ingest: a,
    }
}

/// The thinking-effort levels a provider accepts: `adaptive` only outside
/// the OpenAI family.
pub open spec fn effort_levels(p: Provider) -> Seq<Seq<char>> {
    let base = seq!["none"@, "minimal"@, "low"@, "medium"@, "high"@, "xhigh"@];
    if crate::provider::openai_family(p) {
        base
    } else {
        base.push("adaptive"@)
    }
}

/// The thinking-effort choices the settings UI offers: every level, and
/// the levels of each provider under its key.
pub open spec fn effort_options() -> crate::json::JVal {
    crate::transport::jobj().set("all"@, crate::roles::strings(effort_levels(Provider::Anthropic))).set(
        "providers"@,
        crate::transport::jobj().set(
            crate::provider::provider_key(Provider::Openai),
            crate::roles::strings(effort_levels(Provider::Openai)),
        ).set(
            crate::provider::provider_key(Provider::Anthropic),
            crate::roles::strings(effort_levels(Provider::Anthropic)),
        ).set(
            crate::provider::provider_key(Provider::Google),
            crate::roles::strings(effort_levels(Provider::Google)),
        ).set(
            crate::provider::provider_key(Provider::OpenaiCompat),
            crate::roles::strings(effort_levels(Provider::OpenaiCompat)),
        ),
    )
}

fn effort_levels_json(p: Provider) -> (r: crate::json::Json)
    ensures
        r@ == crate::roles::strings(effort_levels(p)),
{
    let mut v: Vec<&str> = Vec::new();
    v.push("none");
    v.push("minimal");
    v.push("low");
    v.push("medium");
    v.push("high");
    v.push("xhigh");
    if !p.is_openai_family() {
        v.push("adaptive");
    }
    proof {
        assert(v@.map_values(|s: &str| s@) =~= effort_levels(p));
    }
    crate::roles::text_list(&v)
}

/// The thinking-effort choices, as the settings API serves them.
pub fn thinking_effort_options() -> (r: crate::json::Json)
    ensures
        r@ == effort_options(),
{
    let providers = crate::roles::with(
        crate::roles::with(
            crate::roles::with(
                crate::roles::with(
                    crate::transport::new_obj(),
                    Provider::Openai.as_str(),
                    effort_levels_json(Provider::Openai),
                ),
                Provider::Anthropic.as_str(),
                effort_levels_json(Provider::Anthropic),
            ),
            Provider::Google.as_str(),
            effort_levels_json(Provider::Google),
        ),
        Provider::OpenaiCompat.as_str(),
        effort_levels_json(Provider::OpenaiCompat),
    );
    crate::roles::with(
        crate::roles::with(crate::transport::new_obj(), "all", effort_levels_json(Provider::Anthropic)),
        "providers",
        providers,
    )
}

/// Pipeline tuning from the settings form: both numbers at least one.
pub fn pipeline_config_from_form(llm_concurrency: i64, max_jobs_per_crawl: i64) -> (r: PipelineConfig)
    ensures
        r.llm_concurrency == at_least_one(llm_concurrency),
        r.max_jobs_per_crawl == at_least_one(max_jobs_per_crawl),
{
    PipelineConfig { llm_concurrency: max1(llm_concurrency), max_jobs_per_crawl: max1(max_jobs_per_crawl) }
}

/// The provider a settings form names: its provider field when filled in,
/// else the one the endpoint points at.
pub open spec fn form_provider(provider: Option<Seq<char>>, endpoint: Seq<char>) -> Provider {
    match provider {
        Some(p) => if p.len() > 0 {
            parsed_provider(p)
        } else {
            endpoint_provider(trim(endpoint))
        },
        None => endpoint_provider(trim(endpoint)),
    }
}

/// The stored LLM row from the settings form: fields trimmed, the
/// provider's family as the compatibility flag, mock when ticked.
pub fn llm_row_from_form(
    endpoint: &str,
    api_key: &str,
    model: &str,
    provider: Option<&str>,
    mock_llm: Option<&str>,
) -> (r: LlmConfigRow)
    ensures
        r.endpoint@ == trim(endpoint@),
        r.api_key@ == trim(api_key@),
        r.model@ == trim(model@),
        r.openai_compat == crate::provider::openai_family(
            form_provider(crate::provider::opt_str_view(provider), endpoint@),
        ),
        r.mock == (crate::provider::opt_str_view(mock_llm) == Some("on"@)),
{
    let e = string_of(trim_chars(chars_of(endpoint).as_slice()).as_slice());
    let p = match provider {
        Some(s) => if chars_of(s).len() == 0 {
            Provider::from_endpoint(e.as_str())
        } else {
            Provider::parse(s)
        },
        None => Provider::from_endpoint(e.as_str()),
    };
    let mock = match mock_llm {
        Some(s) => crate::json::str_eq(s, "on"),
        None => false,
    };
    LlmConfigRow {
        endpoint: e,
        api_key: string_of(trim_chars(chars_of(api_key).as_slice()).as_slice()),
        model: string_of(trim_chars(chars_of(model).as_slice()).as_slice()),
        openai_compat: p.is_openai_family(),
        mock,
    }
}

// ---------------------------------------------------------------------------
// Effective LLM configuration
// ---------------------------------------------------------------------------

/// The LLM configuration the app runs with.
pub struct LlmConfig {
    pub endpoint: String,
    pub api_key: String,
    pub model: String,
    pub openai_compat: bool,
    pub mock_llm: bool,
    pub provider: Provider,
}

/// The LLM variables of the environment (unset ones empty or `None`).
pub struct LlmEnv {
    pub endpoint: String,
    pub api_key: String,
    pub model: String,
    pub provider: Option<String>,
    pub mock: bool,
}

/// Whether the environment describes an OpenAI-compatible upstream: by its
/// provider variable when set (anything but `anthropic`), else by the
/// endpoint (not an anthropic.com one).
pub open spec fn env_compat(env: LlmEnv) -> bool {
    match env.provider {
        Some(p) => unicode_lower(p@) != "anthropic"@,
        None => !contains(env.endpoint@, "anthropic.com"@),
    }
}

/// The provider the environment names: its provider variable when set,
/// else the one its endpoint points at.
pub open spec fn env_provider(env: LlmEnv) -> Provider {
    match env.provider {
        Some(p) => parsed_provider(p@),
        None => endpoint_provider(env.endpoint@),
    }
}

/// Merges the stored configuration with the environment: a stored row
/// without an endpoint gives way to the environment as a whole.
pub fn merge_llm_config(row: LlmConfigRow, env: LlmEnv) -> (r: LlmConfig)
    ensures
        row.endpoint@.len() == 0 ==> r.endpoint@ == env.endpoint@ && r.api_key@ == env.api_key@
            && r.model@ == env.model@ && r.openai_compat == env_compat(env) && r.mock_llm
            == env.mock && r.provider == env_provider(env),
        row.endpoint@.len() > 0 ==> r.endpoint@ == row.endpoint@ && r.api_key@ == row.api_key@
            && r.model@ == row.model@ && r.openai_compat == row.openai_compat && r.mock_llm
            == row.mock && r.provider == endpoint_provider(row.endpoint@),
{
    if chars_of(row.endpoint.as_str()).len() > 0 {
        let provider = Provider::from_endpoint(row.endpoint.as_str());
        return LlmConfig {
            endpoint: row.endpoint,
            api_key: row.api_key,
            model: row.model,
            openai_compat: row.openai_compat,
            mock_llm: row.mock,
            provider,
        };
    }
    let compat = match &env.provider {
        Some(p) => {
            let l = to_lowercase(p.as_str());
            !crate::json::str_eq(l.as_str(), "anthropic")
        },
        None => !contains_str(chars_of(env.endpoint.as_str()).as_slice(), "anthropic.com"),
    };
    let provider = match &env.provider {
        Some(p) => Provider::parse(p.as_str()),
        None => Provider::from_endpoint(env.endpoint.as_str()),
    };
    LlmConfig {
        endpoint: env.endpoint,
        api_key: env.api_key,
        model: env.model,
        openai_compat: compat,
        mock_llm: env.mock,
        provider,
    }
}

// ---------------------------------------------------------------------------
// Profile pre-filters
// ---------------------------------------------------------------------------

/// One comma-separated item as the pre-filter reads it: trimmed, then
/// stripped of double and then single quotes.
pub open spec fn csv_item(s: Seq<char>) -> Seq<char> {
    trim_char(trim_char(trim(s), '"'), '\'')
}

/// Splits at commas.
pub open spec fn split_commas(s: Seq<char>) -> Seq<Seq<char>>
    decreases s.len(),
{
    match crate::text::find_char(s, ',') {
        Some(i) => {
            proof {
                lemma_find_char_range(s, ',');
            }
            seq![s.take(i)] + split_commas(s.skip(i + 1))
        },
        None => seq![s],
    }
}

/// The non-empty items of a comma-separated list, each read by `item`.
pub open spec fn nonempty_items(parts: Seq<Seq<char>>, quoted: bool) -> Seq<Seq<char>>
    decreases parts.len(),
{
    if parts.len() == 0 {
        Seq::empty()
    } else {
        let prev = nonempty_items(parts.drop_last(), quoted);
        let it = if quoted {
            csv_item(parts.last())
        } else {
            trim(parts.last())
        };
        if it.len() == 0 {
            prev
        } else {
            prev.push(it)
        }
    }
}

pub proof fn lemma_find_char_range(s: Seq<char>, c: char)
    ensures
        crate::text::find_char(s, c) matches Some(i) ==> 0 <= i < s.len(),
{
    crate::text::lemma_find_from_first(s, seq![c], 0);
}

/// Splits `s` at commas and keeps the non-empty items, each trimmed (and,
/// when `quoted`, stripped of surrounding quotes).
pub fn split_list(s: &str, quoted: bool) -> (r: Vec<String>)
    ensures
        views(r@) == nonempty_items(split_commas(s@), quoted),
{
    let c = chars_of(s);
    let mut out: Vec<String> = Vec::new();
    let mut start: usize = 0;
    let ghost mut parts: Seq<Seq<char>> = Seq::empty();
    proof {
        assert(c@.skip(0) =~= c@);
        assert(views(out@) =~= Seq::<Seq<char>>::empty());
        assert(parts + split_commas(c@.skip(0)) =~= split_commas(s@));
    }
    loop
        invariant_except_break
            start <= c@.len(),
            c@ == s@,
            split_commas(s@) == parts + split_commas(c@.skip(start as int)),
            views(out@) == nonempty_items(parts, quoted),
        ensures
            views(out@) == nonempty_items(split_commas(s@), quoted),
        decreases c@.len() - start,
    {
        let rest = crate::text::slice_chars(c.as_slice(), start, c.len());
        proof {
            assert(rest@ =~= c@.skip(start as int));
            lemma_find_char_range(rest@, ',');
        }
        let (end, last) = match crate::text::find_char_exec(rest.as_slice(), ',') {
            Some(i) => (start + i, false),
            None => (c.len(), true),
        };
        let piece = crate::text::slice_chars(c.as_slice(), start, end);
        let ghost r = c@.skip(start as int);
        proof {
            assert(piece@ =~= r.take(end - start));
            if !last {
                assert(r.skip(end - start + 1) =~= c@.skip(end + 1));
                assert(split_commas(r) == seq![piece@] + split_commas(c@.skip(end + 1)));
            } else {
                assert(piece@ =~= r);
                assert(split_commas(r) == seq![piece@]);
            }
        }
        let t = trim_chars(piece.as_slice());
        let item = if quoted {
            trim_matches(trim_matches(t.as_slice(), '"').as_slice(), '\'')
        } else {
            t
        };
        let ghost before = views(out@);
        let ghost old_parts = parts;
        if item.len() > 0 {
            out.push(string_of(item.as_slice()));
            proof {
                assert(views(out@) =~= before.push(item@));
            }
        }
        proof {
            parts = parts.push(piece@);
            assert(parts.drop_last() =~= old_parts);
        }
        if last {
            proof {
                assert(split_commas(s@) =~= parts);
            }
            break ;
        }
        proof {
            assert(old_parts + (seq![piece@] + split_commas(c@.skip(end + 1))) =~= parts
                + split_commas(c@.skip(end + 1)));
        }
        start = end + 1;
    }
    out
}

/// The titles a crawl skips when the profile sets none.
pub open spec fn default_blacklist() -> Seq<Seq<char>> {
    seq![
        "WordPress"@,
        "PHP"@,
        "Frontend"@,
        "Mobile"@,
        "Game Dev"@,
        "Blockchain"@,
        "Crypto"@,
        "Gambling"@,
    ]
}

/// The deal-breakers used when the profile sets none.
pub open spec fn default_deal_breakers() -> Seq<Seq<char>> {
    seq!["mandatory office"@, "5 days in office"@, "on-site only"@]
}

/// The pre-filter lists of the profile's frontmatter: `title_blacklist`
/// and `deal_breaker_keywords` as comma-separated lists, each defaulting
/// when the profile cannot be read or does not set it.
pub open spec fn prefilters(content: Option<Seq<char>>) -> (Seq<Seq<char>>, Seq<Seq<char>>) {
    match content {
        None => (default_blacklist(), default_deal_breakers()),
        Some(c) => {
            let m = crate::profile::frontmatter_map(c);
            (
                if m.contains_key("title_blacklist"@) {
                    nonempty_items(split_commas(m["title_blacklist"@]), true)
                } else {
                    default_blacklist()
                },
                if m.contains_key("deal_breaker_keywords"@) {
                    nonempty_items(split_commas(m["deal_breaker_keywords"@]), true)
                } else {
                    default_deal_breakers()
                },
            )
        },
    }
}

fn strings_of(v: &[&str]) -> (r: Vec<String>)
    ensures
        views(r@) == crate::wiki_graph::str_views(v@),
{
    let mut r: Vec<String> = Vec::new();
    let mut i: usize = 0;
    while i < v.len()
        invariant
            i <= v@.len(),
            views(r@) == crate::wiki_graph::str_views(v@).take(i as int),
        decreases v@.len() - i,
    {
        let ghost before = views(r@);
        r.push(v[i].to_owned());
        proof {
            assert(views(r@) =~= before.push(v@[i as int]@));
            assert(crate::wiki_graph::str_views(v@).take(i + 1) =~= crate::wiki_graph::str_views(
                v@,
            ).take(i as int).push(v@[i as int]@));
        }
        i = i + 1;
    }
    proof {
        assert(crate::wiki_graph::str_views(v@).take(v@.len() as int) =~= crate::wiki_graph::str_views(v@));
    }
    r
}

/// Reads the crawl pre-filters (title blacklist, deal-breaker keywords)
/// from the profile's index file, when it could be read.
pub fn parse_profile_frontmatter(content: Option<&str>) -> (r: (Vec<String>, Vec<String>))
    ensures
        (views(r.0@), views(r.1@)) == prefilters(crate::provider::opt_str_view(content)),
{
    let bl = strings_of(
        &["WordPress", "PHP", "Frontend", "Mobile", "Game Dev", "Blockchain", "Crypto", "Gambling"],
    );
    let db = strings_of(&["mandatory office", "5 days in office", "on-site only"]);
    proof {
        assert(crate::wiki_graph::str_views(
            seq!["WordPress", "PHP", "Frontend", "Mobile", "Game Dev", "Blockchain", "Crypto", "Gambling"],
        ) =~= default_blacklist());
        assert(crate::wiki_graph::str_views(seq!["mandatory office", "5 days in office", "on-site only"])
            =~= default_deal_breakers());
    }
    match content {
        None => (bl, db),
        Some(c) => {
            let pairs = crate::profile::parse_frontmatter(c);
            let t = match crate::assoc::assoc_get(&pairs, "title_blacklist") {
                Some(v) => split_list(v.as_str(), true),
                None => bl,
            };
            let d = match crate::assoc::assoc_get(&pairs, "deal_breaker_keywords") {
                Some(v) => split_list(v.as_str(), true),
                None => db,
            };
            (t, d)
        },
    }
}

// ---------------------------------------------------------------------------
// Unlocked profile files
// ---------------------------------------------------------------------------

/// Reads the stored list of unlocked profile files: comma-separated,
/// trimmed, empty entries dropped.
pub fn parse_unlocked_files(raw: &str) -> (r: Vec<String>)
    ensures
        views(r@) == nonempty_items(split_commas(raw@), false),
{
    split_list(raw, false)
}

/// Joins unlocked files with commas for storage.
pub fn join_unlocked_files(files: &Vec<String>) -> (r: String)
    ensures
        r@ == join(views(files@), ","@),
{
    let mut v: Vec<char> = Vec::new();
    let ghost fv = views(files@);
    let mut i: usize = 0;
    proof {
        assert(fv.take(0) =~= Seq::<Seq<char>>::empty());
    }
    while i < files.len()
        invariant
            i <= files@.len(),
            fv == views(files@),
            v@ == join(fv.take(i as int), ","@),
        decreases files@.len() - i,
    {
        let ghost before = v@;
        if i > 0 {
            push_str(&mut v, ",");
        }
        push_str(&mut v, files[i].as_str());
        proof {
            let t = fv.take(i + 1);
            assert(t.drop_last() =~= fv.take(i as int));
            assert(t.last() == fv[i as int]);
            if i == 0 {
                assert(v@ =~= fv[0]);
            } else {
                assert(v@ =~= before + ","@ + fv[i as int]);
            }
        }
        i = i + 1;
    }
    proof {
        assert(fv.take(files@.len() as int) =~= fv);
    }
    string_of(v.as_slice())
}

/// The first comma of `a + [','] + b` is the first comma of `a`, or the
/// one joining them.
proof fn lemma_find_comma_concat(a: Seq<char>, b: Seq<char>)
    ensures
        crate::text::find_char(a + seq![','] + b, ',') == match crate::text::find_char(a, ',') {
            Some(i) => Some(i),
            None => Some(a.len() as int),
        },
{
    let s = a + seq![','] + b;
    crate::text::lemma_find_from_first(s, seq![','], 0);
    crate::text::lemma_find_from_first(a, seq![','], 0);
    assert forall|k: int| 0 <= k < a.len() implies crate::text::occurs_at(s, seq![','], k)
        == crate::text::occurs_at(a, seq![','], k) by {
        assert(s.subrange(k, k + 1) =~= a.subrange(k, k + 1));
    }
    assert(crate::text::occurs_at(s, seq![','], a.len() as int)) by {
        assert(s.subrange(a.len() as int, a.len() as int + 1) =~= seq![',']);
    }
    match crate::text::find_char(s, ',') {
        Some(k) => {
            match crate::text::find_char(a, ',') {
                Some(i) => {
                    if k < i {
                    } else if k > i {
                        assert(crate::text::occurs_at(s, seq![','], i));
                    }
                },
                None => {
                    if k < a.len() {
                        assert(crate::text::occurs_at(a, seq![','], k));
                    } else if k > a.len() {
                    }
                },
            }
        },
        None => {},
    }
}

/// Splitting at commas distributes over a comma-joined pair.
proof fn lemma_split_concat(a: Seq<char>, b: Seq<char>)
    ensures
        split_commas(a + seq![','] + b) == split_commas(a) + split_commas(b),
    decreases a.len(),
{
    lemma_find_comma_concat(a, b);
    let s = a + seq![','] + b;
    match crate::text::find_char(a, ',') {
        Some(i) => {
            lemma_find_char_range(a, ',');
            assert(s.take(i) =~= a.take(i));
            assert(s.skip(i + 1) =~= a.skip(i + 1) + seq![','] + b);
            lemma_split_concat(a.skip(i + 1), b);
        },
        None => {
            assert(s.take(a.len() as int) =~= a);
            assert(s.skip(a.len() as int + 1) =~= b);
        },
    }
}

/// Reading items distributes over concatenation.
proof fn lemma_items_concat(p: Seq<Seq<char>>, q: Seq<Seq<char>>, quoted: bool)
    ensures
        nonempty_items(p + q, quoted) == nonempty_items(p, quoted) + nonempty_items(q, quoted),
    decreases q.len(),
{
    if q.len() == 0 {
        assert(p + q =~= p);
        assert(nonempty_items(p, quoted) + nonempty_items(q, quoted) =~= nonempty_items(p, quoted));
    } else {
        lemma_items_concat(p, q.drop_last(), quoted);
        assert((p + q).drop_last() =~= p + q.drop_last());
        assert((p + q).last() == q.last());
    }
}

/// An unlocked-file name that survives storage: non-empty, already trimmed,
/// without commas.
pub open spec fn storable_name(f: Seq<char>) -> bool {
    f.len() > 0 && trim(f) == f && !f.contains(',')
}

/// Storing unlocked files and reading them back gives the same list, for
/// names that are non-empty, trimmed and free of commas.
pub proof fn law_unlocked_files_roundtrip(files: Seq<Seq<char>>)
    requires
        forall|i: int| 0 <= i < files.len() ==> storable_name(#[trigger] files[i]),
    ensures
        nonempty_items(split_commas(join(files, ","@)), false) == files,
    decreases files.len(),
{
    reveal_strlit(",");
    if files.len() == 0 {
        assert(split_commas(Seq::empty()) == seq![Seq::<char>::empty()]) by {
            crate::text::lemma_find_from_first(Seq::<char>::empty(), seq![','], 0);
        }
        assert(trim(Seq::<char>::empty()) =~= Seq::<char>::empty());
        assert(seq![Seq::<char>::empty()].drop_last() =~= Seq::<Seq<char>>::empty());
        assert(nonempty_items(seq![Seq::<char>::empty()], false) =~= files) by {
            reveal_with_fuel(nonempty_items, 2);
        }
    } else {
        let f = files.last();
        assert(storable_name(files[files.len() - 1]));
        assert(crate::text::find_char(f, ',') is None) by {
            crate::text::lemma_find_from_first(f, seq![','], 0);
            if crate::text::find_char(f, ',') is Some {
                let k = crate::text::find_char(f, ',')->0;
                assert(f.subrange(k, k + 1) == seq![',']);
                assert(f.subrange(k, k + 1)[0] == f[k]);
                assert(f[k] == ',');
                assert(f.contains(','));
            }
        }
        assert(split_commas(f) == seq![f]);
        assert(nonempty_items(seq![f], false) == seq![f]) by {
            reveal_with_fuel(nonempty_items, 2);
            assert(seq![f].drop_last() =~= Seq::<Seq<char>>::empty());
            assert(seq![f].last() == f);
            assert(trim(f) == f && f.len() > 0);
            assert(Seq::<Seq<char>>::empty().push(f) =~= seq![f]);
        }
        if files.len() == 1 {
            assert(join(files, ","@) == f);
            assert(seq![f] =~= files);
        } else {
            let pre = files.drop_last();
            assert forall|i: int| 0 <= i < pre.len() implies storable_name(#[trigger] pre[i]) by {
                assert(pre[i] == files[i]);
            }
            law_unlocked_files_roundtrip(pre);
            assert(join(files, ","@) == join(pre, ","@) + ","@ + f);
            assert(","@ == seq![',']);
            lemma_split_concat(join(pre, ","@), f);
            lemma_items_concat(split_commas(join(pre, ","@)), split_commas(f), false);
            assert(pre + seq![f] =~= files);
        }
    }
}

// ---------------------------------------------------------------------------
// Scheduler
// ---------------------------------------------------------------------------

/// Whether a scheduled crawl is due: the scheduler is on and at least the
/// interval has passed since the last run.
pub open spec fn scheduler_due_spec(interval_minutes: i64, now: i64, last: i64) -> bool {
    interval_minutes != 0 && now - last >= interval_minutes * 60
}

/// Decides whether the background scheduler starts a crawl now.
pub fn scheduler_due(interval_minutes: i64, now: i64, last: i64) -> (b: bool)
    requires
        i64::MIN <= now - last <= i64::MAX,
        i64::MIN <= interval_minutes * 60 <= i64::MAX,
    ensures
        b == scheduler_due_spec(interval_minutes, now, last),
{
    interval_minutes != 0 && now - last >= interval_minutes * 60
}

/// The magnitude of a stored number as a `u32` (as `unsigned_abs() as u32`).
pub open spec fn abs_u32(x: i64) -> u32 {
    (if x < 0 {
        -(x as int)
    } else {
        x as int
    }) as u32
}

/// The crawl's date range and page count from the stored settings.
pub fn crawl_params(cfg: &SchedulerConfigRow) -> (r: (u32, u32))
    ensures
        r.0 == abs_u32(cfg.date_range),
        r.1 == abs_u32(cfg.max_pages),
{
    (abs_as_u32(cfg.date_range), abs_as_u32(cfg.max_pages))
}

/// `x.unsigned_abs() as u32`.
fn abs_as_u32(x: i64) -> (r: u32)
    ensures
        r == abs_u32(x),
{
    let a: u64 = if x < 0 {
        (0i128 - x as i128) as u64
    } else {
        x as u64
    };
    a as u32
}

/// `Accepted: firehose browse (date_range={d}, max_pages={m})`.
pub fn scheduler_accepted_message(date_range: u32, max_pages: u32) -> (r: String)
    ensures
        r@ == "Accepted: firehose browse (date_range="@ + crate::text::dec(date_range as nat)
            + ", max_pages="@ + crate::text::dec(max_pages as nat) + ")"@,
{
    let mut v = chars_of("Accepted: firehose browse (date_range=");
    crate::text::push_all(&mut v, crate::text::fmt_u64(date_range as u64).as_slice());
    push_str(&mut v, ", max_pages=");
    crate::text::push_all(&mut v, crate::text::fmt_u64(max_pages as u64).as_slice());
    push_str(&mut v, ")");
    string_of(v.as_slice())
}

// ---------------------------------------------------------------------------
// Crawl activity
// ---------------------------------------------------------------------------

/// Live crawl state shown in the UI; `search_id` ties the message to the
/// running batch.
pub struct CrawlActivity {
    pub search_id: Option<u128>,
    pub message: String,
    pub stopping: bool,
    pub active: bool,
}

impl CrawlActivity {
    /// No crawl.
    pub fn idle() -> (r: CrawlActivity)
        ensures
            r.search_id is None,
            r.message@.len() == 0,
            !r.stopping,
            !r.active,
    {
        CrawlActivity { search_id: None, message: String::new(), stopping: false, active: false }
    }

    /// A crawl starts: active, not stopping.
    pub fn start(&mut self)
        ensures
            final(self).active,
            !final(self).stopping,
            final(self).search_id == old(self).search_id,
            final(self).message == old(self).message,
    {
        self.active = true;
        self.stopping = false;
    }

    /// Updates the message for a search.
    pub fn set(&mut self, search_id: Option<u128>, message: &str)
        ensures
            final(self).search_id == search_id,
            final(self).message@ == message@,
            final(self).active == old(self).active,
            final(self).stopping == old(self).stopping,
    {
        self.search_id = search_id;
        self.message = message.to_owned();
    }

    /// The user asked to stop.
    pub fn request_stop(&mut self)
        ensures
            final(self).stopping,
            final(self).active == old(self).active,
            final(self).search_id == old(self).search_id,
            final(self).message == old(self).message,
    {
        self.stopping = true;
    }

    /// The crawl is over; its last message stays visible.
    pub fn finish(&mut self)
        ensures
            !final(self).active,
            !final(self).stopping,
            final(self).search_id == old(self).search_id,
            final(self).message == old(self).message,
    {
        self.active = false;
        self.stopping = false;
    }
}

// ---------------------------------------------------------------------------
// Forms and rows
// ---------------------------------------------------------------------------

/// One scheduler run as the settings page lists it.
pub struct SchedulerRunRow {
    pub started_at: String,
    pub finished_at: Option<String>,
    pub status: String,
    pub queries_run: i64,
    pub jobs_found: i64,
    pub jobs_filtered: i64,
}

/// The job-submission form.
pub struct JobForm {
    pub url: String,
}

/// The regeneration form.
pub struct RegenerateForm {
    pub review_notes: Option<String>,
}

/// The LLM settings form.
pub struct LlmSettingsForm {
    pub endpoint: String,
    pub api_key: String,
    pub model: String,
    pub openai_compat: Option<String>,
    pub mock_llm: Option<String>,
}

/// The scheduler settings form.
pub struct SchedulerSettingsForm {
    pub interval_minutes: i64,
    pub date_range: i64,
    pub max_pages: i64,
}

/// The agent settings form.
pub struct AgentSettingsForm {
    pub ctx_window: i64,
    pub max_output: i64,
    pub thinking_effort: String,
    pub wiki_query_max_hops: i64,
    pub wiki_auto_ingest: Option<String>,
}

/// The profile editor form.
pub struct ProfileForm {
    pub content: String,
    pub file: String,
}

/// The scheduler settings as stored from its form.
pub fn scheduler_config_from_form(f: &SchedulerSettingsForm) -> (r: SchedulerConfigRow)
    ensures
        r.interval_minutes == f.interval_minutes,
        r.date_range == f.date_range,
        r.max_pages == f.max_pages,
{
    SchedulerConfigRow { interval_minutes: f.interval_minutes, date_range: f.date_range, max_pages: f.max_pages }
}

} // verus!
