//! LLM upstream providers: parsing the settings key, detecting the provider
//! from an endpoint URL, and resolving the request and model-listing paths.
use vstd::prelude::*;
use crate::text::{
    ascii_lower, ascii_lowercase, chars_of, contains, contains_str, ends_with, ends_with_str,
    eq_str, find, find_char, find_char_exec, find_exec, is_ws, lemma_ascii_lower_plain,
    lemma_trim_plain, push_str, slice_chars, string_of, strip_end_char, trim, trim_chars,
    trim_end_matches,
};

verus! {

/// Supported LLM upstream providers.
#[derive(Debug, Clone, Copy, PartialEq, Eq, Structural)]
pub enum Provider {
    Openai,
    OpenaiCompat,
    Anthropic,
    Google,
}

/// The persisted key of a provider.
pub open spec fn provider_key(p: Provider) -> Seq<char> {
    match p {
        Provider::Openai => "openai"@,
        Provider::OpenaiCompat => "openai-compat"@,
        Provider::Anthropic => "anthropic"@,
        Provider::Google => "google"@,
    }
}

/// The provider a settings string names: matched after trimming and ASCII
/// lower-casing; anything unknown is `OpenaiCompat`.
pub open spec fn parsed_provider(s: Seq<char>) -> Provider {
    let k = ascii_lower(trim(s));
    if k == "openai"@ {
        Provider::Openai
    } else if k == "anthropic"@ {
        Provider::Anthropic
    } else if k == "google"@ {
        Provider::Google
    } else {
        Provider::OpenaiCompat
    }
}

/// The provider an endpoint URL points at, by host fragments of its
/// lower-cased text.
pub open spec fn endpoint_provider(u: Seq<char>) -> Provider {
    let l = ascii_lower(u);
    if contains(l, "anthropic.com"@) {
        Provider::Anthropic
    } else if contains(l, "generativelanguage.googleapis.com"@) || contains(
        l,
        "aiplatform.googleapis.com"@,
    ) || contains(l, "vertexai"@) {
        Provider::Google
    } else if contains(l, "api.openai.com"@) {
        Provider::Openai
    } else {
        Provider::OpenaiCompat
    }
}

/// OpenAI and OpenAI-compatible upstreams share one request and response shape.
pub open spec fn openai_family(p: Provider) -> bool {
    p is Openai || p is OpenaiCompat
}

impl Provider {
    /// Parses a settings string (case-insensitive); unknown strings give
    /// `OpenaiCompat`.
    pub fn parse(s: &str) -> (p: Provider)
        ensures
            p == parsed_provider(s@),
    {
        let t = trim_chars(chars_of(s).as_slice());
        let k = ascii_lowercase(t.as_slice());
        if eq_str(k.as_slice(), "openai") {
            Provider::Openai
        } else if eq_str(k.as_slice(), "anthropic") {
            Provider::Anthropic
        } else if eq_str(k.as_slice(), "google") {
            Provider::Google
        } else {
            Provider::OpenaiCompat
        }
    }

    /// Detects the provider from an endpoint URL.
    pub fn from_endpoint(url: &str) -> (p: Provider)
        ensures
            p == endpoint_provider(url@),
    {
        let l = ascii_lowercase(chars_of(url).as_slice());
        if contains_str(l.as_slice(), "anthropic.com") {
            Provider::Anthropic
        } else if contains_str(l.as_slice(), "generativelanguage.googleapis.com") || contains_str(
            l.as_slice(),
            "aiplatform.googleapis.com",
        ) || contains_str(l.as_slice(), "vertexai") {
            Provider::Google
        } else if contains_str(l.as_slice(), "api.openai.com") {
            Provider::Openai
        } else {
            Provider::OpenaiCompat
        }
    }

    /// True for `Openai` and `OpenaiCompat`.
    pub fn is_openai_family(&self) -> (b: bool)
        ensures
            b == openai_family(*self),
    {
        match self {
            Provider::Openai | Provider::OpenaiCompat => true,
            _ => false,
        }
    }

    /// The key stored in the settings table.
    pub fn as_str(&self) -> (s: &'static str)
        ensures
            s@ == provider_key(*self),
    {
        match self {
            Provider::Openai => "openai",
            Provider::OpenaiCompat => "openai-compat",
            Provider::Anthropic => "anthropic",
            Provider::Google => "google",
        }
    }
}

impl Default for Provider {
    fn default() -> (p: Self)
        ensures
            p == Provider::OpenaiCompat,
    {
        Provider::OpenaiCompat
    }
}

/// Parsing the stored key of a provider gives that provider back.
pub proof fn law_parse_as_str(p: Provider)
    ensures
        parsed_provider(provider_key(p)) == p,
{
    reveal_strlit("openai");
    reveal_strlit("openai-compat");
    reveal_strlit("anthropic");
    reveal_strlit("google");
    let k = provider_key(p);
    assert(!is_ws(k[0]) && !is_ws(k.last()));
    lemma_trim_plain(k);
    assert forall|i: int| 0 <= i < k.len() implies !('A' <= #[trigger] k[i] && k[i] <= 'Z') by {}
    lemma_ascii_lower_plain(k);
}

/// Google endpoints (the Gemini API and Vertex AI) are detected as Google
/// unless the endpoint names anthropic.com, which wins; anthropic.com is
/// always Anthropic.
pub proof fn law_endpoint_detection(u: Seq<char>)
    ensures
        contains(ascii_lower(u), "anthropic.com"@) ==> endpoint_provider(u) == Provider::Anthropic,
        !contains(ascii_lower(u), "anthropic.com"@) && (contains(
            ascii_lower(u),
            "generativelanguage.googleapis.com"@,
        ) || contains(ascii_lower(u), "aiplatform.googleapis.com"@) || contains(
            ascii_lower(u),
            "vertexai"@,
        )) ==> endpoint_provider(u) == Provider::Google,
        endpoint_provider(u) == Provider::Openai ==> contains(ascii_lower(u), "api.openai.com"@),
{
}

/// Parsing ignores case and surrounding whitespace: any text that trims and
/// ASCII-lower-cases to a provider's stored key (such as `"  ANTHROPIC\t"`)
/// parses to that provider.
pub proof fn law_parse_ignores_case_and_space(p: Provider, s: Seq<char>)
    requires
        ascii_lower(trim(s)) == provider_key(p),
    ensures
        parsed_provider(s) == p,
{
    reveal_strlit("openai");
    reveal_strlit("openai-compat");
    reveal_strlit("anthropic");
    reveal_strlit("google");
    law_parse_as_str(p);
}

// ---------------------------------------------------------------------------
// Endpoints
// ---------------------------------------------------------------------------

/// The request URL for a configured endpoint: kept when it already ends (after
/// trailing slashes) with the provider's path, otherwise the path appended.
pub open spec fn resolved_endpoint(e: Seq<char>, p: Provider) -> Seq<char> {
    let base = strip_end_char(e, '/');
    match p {
        Provider::Openai | Provider::OpenaiCompat => {
            if ends_with(base, "/chat/completions"@) {
                e
            } else {
                base + "/chat/completions"@
            }
        },
        Provider::Anthropic => {
            if ends_with(base, "/messages"@) {
                e
            } else if ends_with(base, "/v1"@) {
                base + "/messages"@
            } else {
                base + "/v1/messages"@
            }
        },
        Provider::Google => e,
    }
}

/// Resolves a base endpoint to the provider's full request path.
pub fn resolve_endpoint(endpoint: &str, provider: Provider) -> (r: String)
    ensures
        r@ == resolved_endpoint(endpoint@, provider),
{
    let base = trim_end_matches(chars_of(endpoint).as_slice(), '/');
    match provider {
        Provider::Openai | Provider::OpenaiCompat => {
            if ends_with_str(base.as_slice(), "/chat/completions") {
                endpoint.to_owned()
            } else {
                let mut v = base;
                push_str(&mut v, "/chat/completions");
                string_of(v.as_slice())
            }
        },
        Provider::Anthropic => {
            if ends_with_str(base.as_slice(), "/messages") {
                endpoint.to_owned()
            } else if ends_with_str(base.as_slice(), "/v1") {
                let mut v = base;
                push_str(&mut v, "/messages");
                string_of(v.as_slice())
            } else {
                let mut v = base;
                push_str(&mut v, "/v1/messages");
                string_of(v.as_slice())
            }
        },
        Provider::Google => endpoint.to_owned(),
    }
}

/// Resolving an already resolved endpoint changes nothing.
pub proof fn law_resolve_endpoint_idempotent(e: Seq<char>, p: Provider)
    ensures
        resolved_endpoint(resolved_endpoint(e, p), p) == resolved_endpoint(e, p),
{
    reveal_strlit("/chat/completions");
    reveal_strlit("/messages");
    reveal_strlit("/v1/messages");
    let base = strip_end_char(e, '/');
    let r = resolved_endpoint(e, p);
    if r != e {
        let suffix = if openai_family(p) {
            "/chat/completions"@
        } else if ends_with(base, "/v1"@) {
            "/messages"@
        } else {
            "/v1/messages"@
        };
        assert(r == base + suffix);
        assert(r.last() != '/');
        assert(strip_end_char(r, '/') == r);
        if openai_family(p) {
            assert(r.skip(r.len() - 17) =~= "/chat/completions"@);
        } else {
            assert(r.skip(r.len() - 9) =~= "/messages"@);
        }
    }
}

/// The model-listing URL for a configured endpoint.
pub open spec fn models_endpoint(e: Seq<char>, p: Provider) -> Seq<char> {
    let base = strip_end_char(e, '/');
    match p {
        Provider::Openai | Provider::OpenaiCompat => {
            let b = if ends_with(base, "/chat/completions"@) {
                base.take(base.len() - 17)
            } else {
                base
            };
            b + "/models"@
        },
        Provider::Anthropic => {
            if ends_with(base, "/v1"@) {
                base + "/models"@
            } else {
                base + "/v1/models"@
            }
        },
        Provider::Google => {
            if contains(base, "/v1beta"@) {
                base + "/models"@
            } else {
                base + "/v1beta/models"@
            }
        },
    }
}

/// Resolves a base endpoint to the provider's model-listing path.
pub fn resolve_models_endpoint(endpoint: &str, provider: Provider) -> (r: String)
    ensures
        r@ == models_endpoint(endpoint@, provider),
{
    let base = trim_end_matches(chars_of(endpoint).as_slice(), '/');
    let mut v: Vec<char>;
    match provider {
        Provider::Openai | Provider::OpenaiCompat => {
            if ends_with_str(base.as_slice(), "/chat/completions") {
                proof {
                    reveal_strlit("/chat/completions");
                }
                v = slice_chars(base.as_slice(), 0, base.len() - 17);
            } else {
                v = base;
            }
            push_str(&mut v, "/models");
        },
        Provider::Anthropic => {
            v = base;
            if ends_with_str(v.as_slice(), "/v1") {
                push_str(&mut v, "/models");
            } else {
                push_str(&mut v, "/v1/models");
            }
        },
        Provider::Google => {
            v = base;
            if contains_str(v.as_slice(), "/v1beta") {
                push_str(&mut v, "/models");
            } else {
                push_str(&mut v, "/v1beta/models");
            }
        },
    }
    string_of(v.as_slice())
}

/// The origin of a URL: everything before the first `/` after `://`; the
/// whole URL when there is no `://` or no `/` after it.
pub open spec fn url_origin(u: Seq<char>) -> Seq<char> {
    match find(u, "://"@) {
        Some(s) => match find_char(u.skip(s + 3), '/') {
            Some(e) => u.take(s + 3 + e),
            None => u,
        },
        None => u,
    }
}

/// Extracts the origin (scheme and host) of a URL.
pub fn extract_origin(url: &str) -> (r: String)
    ensures
        r@ == url_origin(url@),
{
    let u = chars_of(url);
    let sep = chars_of("://");
    match find_exec(u.as_slice(), sep.as_slice()) {
        Some(s) => {
            proof {
                reveal_strlit("://");
            }
            let after = slice_chars(u.as_slice(), s + 3, u.len());
            proof {
                assert(after@ =~= u@.skip(s + 3));
            }
            match find_char_exec(after.as_slice(), '/') {
                Some(e) => {
                    proof {
                        assert(u@.subrange(0, s + 3 + e) =~= u@.take(s + 3 + e));
                    }
                    string_of(slice_chars(u.as_slice(), 0, s + 3 + e).as_slice())
                },
                None => url.to_owned(),
            }
        },
        None => url.to_owned(),
    }
}

// ---------------------------------------------------------------------------
// Thinking effort
// ---------------------------------------------------------------------------

/// The effort named by an optional setting; `high` when unset.
pub open spec fn effort_or_high(effort: Option<Seq<char>>) -> Seq<char> {
    match effort {
        Some(e) => e,
        None => "high"@,
    }
}

/// The efforts that switch thinking off.
pub open spec fn thinking_off(e: Seq<char>) -> bool {
    e == "none"@ || e == "minimal"@ || e == "low"@
}

/// Gemini `thinkingBudget` for an effort: 0 when off, 8192 for `medium`,
/// -1 (dynamic) otherwise.
pub open spec fn gemini_budget(effort: Option<Seq<char>>) -> i64 {
    let e = effort_or_high(effort);
    if thinking_off(e) {
        0
    } else if e == "medium"@ {
        8192
    } else {
        -1i64
    }
}

/// The view of an optional string slice.
pub open spec fn opt_str_view(o: Option<&str>) -> Option<Seq<char>> {
    match o {
        Some(s) => Some(s@),
        None => None,
    }
}

/// Whether the characters of `e` switch thinking off.
pub fn is_thinking_off(e: &[char]) -> (b: bool)
    ensures
        b == thinking_off(e@),
{
    eq_str(e, "none") || eq_str(e, "minimal") || eq_str(e, "low")
}

/// The characters of an optional effort, `high` when unset.
pub fn effort_chars(effort: Option<&str>) -> (r: Vec<char>)
    ensures
        r@ == effort_or_high(opt_str_view(effort)),
{
    match effort {
        Some(e) => chars_of(e),
        None => chars_of("high"),
    }
}

/// Maps a thinking-effort setting to Gemini's `thinkingBudget`.
pub fn gemini_thinking_budget(effort: Option<&str>) -> (r: Option<i64>)
    ensures
        r == Some(gemini_budget(opt_str_view(effort))),
{
    let e = effort_chars(effort);
    if is_thinking_off(e.as_slice()) {
        Some(0)
    } else if eq_str(e.as_slice(), "medium") {
        Some(8192)
    } else {
        Some(-1)
    }
}

} // verus!
