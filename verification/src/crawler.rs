//! Crawl rules: URL normalisation for de-duplication, the title blacklist,
//! the per-crawl cap, and the human-readable job hints and progress lines.
use vstd::prelude::*;
use vstd::string::StringSliceAdditionalSpecFns;
use crate::text::{
    chars_of, contains, contains_exec, dec, find_char, find_char_exec, push_all, push_str,
    rfind_char, rfind_char_exec, slice_chars, string_of, to_lowercase, unicode_lower, fmt_u64,
    lemma_find_from_first, occurs_at,
};

verus! {

// ---------------------------------------------------------------------------
// Percent-decoding
// ---------------------------------------------------------------------------

/// Value of an ASCII hexadecimal digit.
pub open spec fn hex_val(c: u8) -> Option<u8> {
    if 48 <= c <= 57 {
        Some((c - 48) as u8)
    } else if 97 <= c <= 102 {
        Some((c - 87) as u8)
    } else if 65 <= c <= 70 {
        Some((c - 55) as u8)
    } else {
        None
    }
}

/// `u8::from_str_radix` of the two bytes `a b` in base 16: an optional `+`
/// sign followed by digits.
pub open spec fn hex_pair(a: u8, b: u8) -> Option<u8> {
    if a == 43 {
        hex_val(b)
    } else {
        match (hex_val(a), hex_val(b)) {
            (Some(x), Some(y)) => Some((x * 16 + y) as u8),
            _ => None,
        }
    }
}

/// Decodes `%XX` escapes (when followed by two more bytes that parse as
/// hexadecimal) and `+` as a space; every other byte becomes the character
/// with that code.
pub open spec fn decode_from(b: Seq<u8>, i: int) -> Seq<char>
    decreases b.len() - i,
{
    if i < 0 || i >= b.len() {
        Seq::empty()
    } else if b[i] == 37 && i + 2 < b.len() && hex_pair(b[i + 1], b[i + 2]) is Some {
        seq![(hex_pair(b[i + 1], b[i + 2])->0) as char] + decode_from(b, i + 3)
    } else if b[i] == 43 {
        seq![' '] + decode_from(b, i + 1)
    } else {
        seq![b[i] as char] + decode_from(b, i + 1)
    }
}

/// Hyphens shown as spaces.
pub open spec fn dehyphen(s: Seq<char>) -> Seq<char> {
    s.map_values(|c: char|
        if c == '-' {
            ' '
        } else {
            c
        })
}

/// The decoded text of a URL segment with hyphens shown as spaces.
pub open spec fn percent_decoded(b: Seq<u8>) -> Seq<char> {
    dehyphen(decode_from(b, 0))
}

fn hex_digit(c: u8) -> (r: Option<u8>)
    ensures
        r == hex_val(c),
{
    if 48 <= c && c <= 57 {
        Some(c - 48)
    } else if 97 <= c && c <= 102 {
        Some(c - 87)
    } else if 65 <= c && c <= 70 {
        Some(c - 55)
    } else {
        None
    }
}

fn hex_pair_exec(a: u8, b: u8) -> (r: Option<u8>)
    ensures
        r == hex_pair(a, b),
{
    if a == 43 {
        hex_digit(b)
    } else {
        match (hex_digit(a), hex_digit(b)) {
            (Some(x), Some(y)) => Some(x * 16 + y),
            _ => None,
        }
    }
}

/// Percent-decodes `s` byte by byte and shows hyphens as spaces.
pub fn percent_decode(s: &str) -> (r: String)
    ensures
        r@ == percent_decoded(s.spec_bytes()),
{
    let b = s.as_bytes();
    let n = b.len();
    let mut out: Vec<char> = Vec::new();
    let mut i: usize = 0;
    while i < n
        invariant
            i <= n == b@.len(),
            decode_from(b@, 0) == out@ + decode_from(b@, i as int),
        decreases n - i,
    {
        let ghost o = out@;
        if b[i] == 37 && 2 < n - i {
            match hex_pair_exec(b[i + 1], b[i + 2]) {
                Some(v) => {
                    out.push(v as char);
                    proof {
                        assert(o + decode_from(b@, i as int) =~= out@ + decode_from(b@, i + 3));
                    }
                    i = i + 3;
                    continue;
                },
                None => {},
            }
        }
        if b[i] == 43 {
            out.push(' ');
        } else {
            out.push(b[i] as char);
        }
        proof {
            assert(o + decode_from(b@, i as int) =~= out@ + decode_from(b@, i + 1));
        }
        i = i + 1;
    }
    proof {
        assert(out@ + decode_from(b@, n as int) =~= out@);
    }
    let mut r: Vec<char> = Vec::new();
    let mut j: usize = 0;
    while j < out.len()
        invariant
            j <= out@.len(),
            r@ == dehyphen(out@.take(j as int)),
        decreases out@.len() - j,
    {
        let c = out[j];
        r.push(if c == '-' { ' ' } else { c });
        j = j + 1;
        proof {
            assert(out@.take(j as int) =~= out@.take(j - 1).push(c));
            assert(dehyphen(out@.take(j as int)) =~= dehyphen(out@.take(j - 1)).push(
                if c == '-' { ' ' } else { c },
            ));
        }
    }
    proof {
        assert(out@.take(out@.len() as int) =~= out@);
    }
    string_of(r.as_slice())
}


// ---------------------------------------------------------------------------
// URLs and titles
// ---------------------------------------------------------------------------

/// The text after the last `/` (all of it when there is none).
pub open spec fn last_segment(u: Seq<char>) -> Seq<char> {
    match rfind_char(u, '/') {
        Some(k) => u.skip(k + 1),
        None => u,
    }
}

/// The first `n` characters, or all when there are fewer.
pub open spec fn prefix(s: Seq<char>, n: nat) -> Seq<char> {
    if s.len() <= n {
        s
    } else {
        s.take(n as int)
    }
}

/// Short label for a job URL: its last path segment, decoded; the first 40
/// characters of the URL when that is empty.
pub open spec fn hint_of(u: Seq<char>) -> Seq<char> {
    let d = percent_decoded(vstd::utf8::encode_utf8(last_segment(u)));
    if d.len() == 0 {
        prefix(u, 40)
    } else {
        d
    }
}

proof fn lemma_rfind_range(s: Seq<char>, c: char)
    ensures
        rfind_char(s, c) matches Some(k) ==> 0 <= k < s.len(),
    decreases s.len(),
{
    if s.len() > 0 {
        lemma_rfind_range(s.drop_last(), c);
    }
}

/// Short human label for a job URL: the last path segment, percent-decoded,
/// with hyphens as spaces; the URL's first 40 characters when that is empty.
pub fn url_hint(url: &str) -> (r: String)
    ensures
        r@ == hint_of(url@),
{
    let u = chars_of(url);
    proof {
        lemma_rfind_range(u@, '/');
    }
    let n = u.len();
    let start = match rfind_char_exec(u.as_slice(), '/') {
        Some(k) => k + 1,
        None => 0,
    };
    let last = url.substring_char(start, n);
    proof {
        assert(last@ == last_segment(url@)) by {
            if start == 0 {
                if rfind_char(u@, '/') is None {
                    assert(u@.subrange(0, u@.len() as int) =~= u@);
                }
            }
        };
    }
    let decoded = percent_decode(last);
    if decoded.as_str().is_empty() {
        let cut = if u.len() <= 40 {
            u.len()
        } else {
            40
        };
        proof {
            if u@.len() <= 40 {
                assert(u@.subrange(0, cut as int) =~= u@);
            }
        }
        string_of(slice_chars(u.as_slice(), 0, cut).as_slice())
    } else {
        decoded
    }
}

/// Text before the first `?`.
pub open spec fn without_query(u: Seq<char>) -> Seq<char> {
    match find_char(u, '?') {
        Some(p) => u.take(p),
        None => u,
    }
}

/// Normalises a URL for de-duplication by dropping its query string.
pub fn normalize_url(url: &str) -> (r: String)
    ensures
        r@ == without_query(url@),
{
    let u = chars_of(url);
    match find_char_exec(u.as_slice(), '?') {
        Some(p) => string_of(slice_chars(u.as_slice(), 0, p).as_slice()),
        None => url.to_owned(),
    }
}

/// Normalising a normalised URL changes nothing, so the normalised form is
/// a stable de-duplication key.
pub proof fn law_normalize_url_idempotent(u: Seq<char>)
    ensures
        without_query(without_query(u)) == without_query(u),
{
    if let Some(p) = find_char(u, '?') {
        let t = u.take(p);
        lemma_find_from_first(u, seq!['?'], 0);
        lemma_find_from_first(t, seq!['?'], 0);
        if let Some(k) = find_char(t, '?') {
            assert(t.subrange(k, k + 1) =~= u.subrange(k, k + 1));
            assert(!occurs_at(u, seq!['?'], k));
        }
    }
}

/// A title is blacklisted when its lower-cased form contains a lower-cased keyword.
pub open spec fn blacklisted(title: Seq<char>, blacklist: Seq<Seq<char>>) -> bool {
    exists|i: int|
        0 <= i < blacklist.len() && contains(unicode_lower(title), unicode_lower(#[trigger] blacklist[i]))
}

/// Whether a job title matches any blacklisted keyword, case-insensitively.
pub fn title_blacklist_match(title: &str, blacklist: &[String]) -> (b: bool)
    ensures
        b == blacklisted(title@, crate::text::views(blacklist@)),
{
    let t = chars_of(to_lowercase(title).as_str());
    let ghost bl = crate::text::views(blacklist@);
    let mut i: usize = 0;
    while i < blacklist.len()
        invariant
            i <= blacklist@.len(),
            t@ == unicode_lower(title@),
            bl == crate::text::views(blacklist@),
            forall|j: int| 0 <= j < i ==> !contains(unicode_lower(title@), unicode_lower(#[trigger] bl[j])),
        decreases blacklist@.len() - i,
    {
        let k = chars_of(to_lowercase(blacklist[i].as_str()).as_str());
        if contains_exec(t.as_slice(), k.as_slice()) {
            proof {
                assert(bl[i as int] == blacklist@[i as int]@);
            }
            return true;
        }
        proof {
            assert(bl[i as int] == blacklist@[i as int]@);
        }
        i = i + 1;
    }
    false
}

// ---------------------------------------------------------------------------
// Crawl selection
// ---------------------------------------------------------------------------

/// URLs of the listings whose titles are not blacklisted, in order.
pub open spec fn kept_urls(listings: Seq<(String, String)>, blacklist: Seq<Seq<char>>) -> Seq<
    Seq<char>,
>
    decreases listings.len(),
{
    if listings.len() == 0 {
        Seq::empty()
    } else {
        let rest = kept_urls(listings.drop_last(), blacklist);
        if blacklisted(listings.last().0@, blacklist) {
            rest
        } else {
            rest.push(listings.last().1@)
        }
    }
}

/// Number of listings whose titles are blacklisted.
pub open spec fn blocked_count(listings: Seq<(String, String)>, blacklist: Seq<Seq<char>>) -> nat
    decreases listings.len(),
{
    if listings.len() == 0 {
        0
    } else {
        blocked_count(listings.drop_last(), blacklist) + if blacklisted(
            listings.last().0@,
            blacklist,
        ) {
            1nat
        } else {
            0nat
        }
    }
}

/// The per-crawl cap: the configured maximum clamped to 5..=500.
pub open spec fn crawl_cap(max_jobs_per_crawl: int) -> int {
    if max_jobs_per_crawl < 5 {
        5
    } else if max_jobs_per_crawl > 500 {
        500
    } else {
        max_jobs_per_crawl
    }
}

/// What a scheduled crawl goes on with.
pub struct CrawlSelection {
    /// URLs to process, in listing order, at most the cap.
    pub urls: Vec<String>,
    /// Listings seen.
    pub found: usize,
    /// Listings dropped by the title blacklist.
    pub filtered: usize,
}

/// Drops listings (title, url) whose title is blacklisted and keeps at most
/// `clamp(max_jobs_per_crawl, 5, 500)` of the remaining URLs, in order.
pub fn select_crawl_urls(
    listings: &Vec<(String, String)>,
    blacklist: &Vec<String>,
    max_jobs_per_crawl: i64,
) -> (r: CrawlSelection)
    ensures
        r.found == listings@.len(),
        r.filtered == blocked_count(listings@, crate::text::views(blacklist@)),
        crate::text::views(r.urls@) == prefix_seq(
            kept_urls(listings@, crate::text::views(blacklist@)),
            crawl_cap(max_jobs_per_crawl as int) as nat,
        ),
{
    let ghost bl = crate::text::views(blacklist@);
    let mut urls: Vec<String> = Vec::new();
    let mut filtered: usize = 0;
    let mut i: usize = 0;
    proof {
        assert(listings@.take(0) =~= Seq::<(String, String)>::empty());
        assert(crate::text::views(urls@) =~= Seq::<Seq<char>>::empty());
    }
    while i < listings.len()
        invariant
            i <= listings@.len(),
            bl == crate::text::views(blacklist@),
            filtered <= i,
            crate::text::views(urls@) == kept_urls(listings@.take(i as int), bl),
            filtered == blocked_count(listings@.take(i as int), bl),
        decreases listings@.len() - i,
    {
        proof {
            assert(listings@.take(i + 1).drop_last() =~= listings@.take(i as int));
            assert(listings@.take(i + 1).last() == listings@[i as int]);
        }
        let ghost before = urls@;
        if title_blacklist_match(listings[i].0.as_str(), blacklist.as_slice()) {
            filtered = filtered + 1;
        } else {
            urls.push(listings[i].1.clone());
            proof {
                assert(crate::text::views(urls@) =~= crate::text::views(before).push(
                    listings@[i as int].1@,
                ));
            }
        }
        i = i + 1;
    }
    proof {
        assert(listings@.take(listings@.len() as int) =~= listings@);
    }
    let cap: usize = if max_jobs_per_crawl < 5 {
        5
    } else if max_jobs_per_crawl > 500 {
        500
    } else {
        max_jobs_per_crawl as usize
    };
    if urls.len() > cap {
        urls.truncate(cap);
    }
    proof {
        let k = kept_urls(listings@, bl);
        if k.len() > cap {
            assert(crate::text::views(urls@) =~= k.take(cap as int));
        }
    }
    CrawlSelection { urls, found: listings.len(), filtered }
}

/// The first `n` elements, or all when there are fewer.
pub open spec fn prefix_seq<T>(s: Seq<T>, n: nat) -> Seq<T> {
    if s.len() <= n {
        s
    } else {
        s.take(n as int)
    }
}

/// Every kept URL belongs to a listing whose title is not blacklisted.
proof fn lemma_kept_from_clean_listings(listings: Seq<(String, String)>, blacklist: Seq<Seq<char>>)
    ensures
        forall|j: int|
            0 <= j < kept_urls(listings, blacklist).len() ==> exists|i: int|
                0 <= i < listings.len() && !blacklisted(listings[i].0@, blacklist)
                    && #[trigger] kept_urls(listings, blacklist)[j] == listings[i].1@,
    decreases listings.len(),
{
    if listings.len() > 0 {
        let prev = listings.drop_last();
        lemma_kept_from_clean_listings(prev, blacklist);
        let k = kept_urls(listings, blacklist);
        assert forall|j: int| 0 <= j < k.len() implies exists|i: int|
            0 <= i < listings.len() && !blacklisted(listings[i].0@, blacklist) && #[trigger] k[j]
                == listings[i].1@ by {
            if j < kept_urls(prev, blacklist).len() {
                let i = choose|i: int|
                    0 <= i < prev.len() && !blacklisted(prev[i].0@, blacklist)
                        && #[trigger] kept_urls(prev, blacklist)[j] == prev[i].1@;
                assert(listings[i] == prev[i]);
            } else {
                assert(listings[listings.len() - 1] == listings.last());
            }
        }
    }
}

/// A crawl goes on with at most 500 URLs, and each is the URL of a listing
/// whose title the blacklist lets through.
pub proof fn law_crawl_selection_is_capped_and_clean(
    listings: Seq<(String, String)>,
    blacklist: Seq<Seq<char>>,
    max_jobs_per_crawl: int,
)
    ensures
        prefix_seq(kept_urls(listings, blacklist), crawl_cap(max_jobs_per_crawl) as nat).len()
            <= 500,
        forall|j: int|
            0 <= j < prefix_seq(kept_urls(listings, blacklist), crawl_cap(max_jobs_per_crawl) as nat).len()
                ==> exists|i: int|
                0 <= i < listings.len() && !blacklisted(listings[i].0@, blacklist)
                    && #[trigger] prefix_seq(
                    kept_urls(listings, blacklist),
                    crawl_cap(max_jobs_per_crawl) as nat,
                )[j] == listings[i].1@,
{
    lemma_kept_from_clean_listings(listings, blacklist);
    let k = kept_urls(listings, blacklist);
    let p = prefix_seq(k, crawl_cap(max_jobs_per_crawl) as nat);
    assert forall|j: int| 0 <= j < p.len() implies exists|i: int|
        0 <= i < listings.len() && !blacklisted(listings[i].0@, blacklist) && #[trigger] p[j]
            == listings[i].1@ by {
        assert(p[j] == k[j]);
    }
}

// ---------------------------------------------------------------------------
// Progress lines
// ---------------------------------------------------------------------------

/// `a/b` in decimal.
pub open spec fn ratio(a: nat, b: nat) -> Seq<char> {
    dec(a) + seq!['/'] + dec(b)
}

fn push_ratio(out: &mut Vec<char>, a: u64, b: u64)
    ensures
        final(out)@ == old(out)@ + ratio(a as nat, b as nat),
{
    let x = fmt_u64(a);
    let y = fmt_u64(b);
    push_all(out, x.as_slice());
    out.push('/');
    push_all(out, y.as_slice());
    proof {
        assert(final(out)@ =~= old(out)@ + ratio(a as nat, b as nat));
    }
}

/// `Stopped after {spawned}/{total} jobs`.
pub fn stopped_message(spawned: u64, total: u64) -> (r: String)
    ensures
        r@ == "Stopped after "@ + ratio(spawned as nat, total as nat) + " jobs"@,
{
    let mut v: Vec<char> = Vec::new();
    push_str(&mut v, "Stopped after ");
    push_ratio(&mut v, spawned, total);
    push_str(&mut v, " jobs");
    proof {
        assert(v@ =~= "Stopped after "@ + ratio(spawned as nat, total as nat) + " jobs"@);
    }
    string_of(v.as_slice())
}

/// `Spawned {spawned}/{total}: {hint}`.
pub fn spawned_message(spawned: u64, total: u64, hint: &str) -> (r: String)
    ensures
        r@ == "Spawned "@ + ratio(spawned as nat, total as nat) + ": "@ + hint@,
{
    let mut v: Vec<char> = Vec::new();
    push_str(&mut v, "Spawned ");
    push_ratio(&mut v, spawned, total);
    push_str(&mut v, ": ");
    push_str(&mut v, hint);
    proof {
        assert(v@ =~= "Spawned "@ + ratio(spawned as nat, total as nat) + ": "@ + hint@);
    }
    string_of(v.as_slice())
}

/// `Completed {done}/{total} jobs`.
pub fn completed_message(done: u64, total: u64) -> (r: String)
    ensures
        r@ == "Completed "@ + ratio(done as nat, total as nat) + " jobs"@,
{
    let mut v: Vec<char> = Vec::new();
    push_str(&mut v, "Completed ");
    push_ratio(&mut v, done, total);
    push_str(&mut v, " jobs");
    proof {
        assert(v@ =~= "Completed "@ + ratio(done as nat, total as nat) + " jobs"@);
    }
    string_of(v.as_slice())
}

/// The search record's listing URL: `dateRange={date_range}&sortMode=ListedDate`.
pub fn listing_url(date_range: u32) -> (r: String)
    ensures
        r@ == "dateRange="@ + dec(date_range as nat) + "&sortMode=ListedDate"@,
{
    let mut v: Vec<char> = Vec::new();
    push_str(&mut v, "dateRange=");
    let d = fmt_u64(date_range as u64);
    push_all(&mut v, d.as_slice());
    push_str(&mut v, "&sortMode=ListedDate");
    proof {
        assert(v@ =~= "dateRange="@ + dec(date_range as nat) + "&sortMode=ListedDate"@);
    }
    string_of(v.as_slice())
}

/// `Scheduler: browsing last {date_range} days`.
pub fn browsing_message(date_range: u32) -> (r: String)
    ensures
        r@ == "Scheduler: browsing last "@ + dec(date_range as nat) + " days"@,
{
    let mut v: Vec<char> = Vec::new();
    push_str(&mut v, "Scheduler: browsing last ");
    let d = fmt_u64(date_range as u64);
    push_all(&mut v, d.as_slice());
    push_str(&mut v, " days");
    proof {
        assert(v@ =~= "Scheduler: browsing last "@ + dec(date_range as nat) + " days"@);
    }
    string_of(v.as_slice())
}

// ---------------------------------------------------------------------------
// The per-URL crawl loop
// ---------------------------------------------------------------------------

/// What became of a discovered URL's bookkeeping.
#[derive(PartialEq, Eq, Structural, Clone, Copy, Debug)]
pub enum UrlOutcome {
    /// A job with this URL exists already (it is linked to the search).
    AlreadyKnown,
    /// The duplicate check failed.
    LookupFailed,
    /// The job stub could not be created.
    StubFailed,
    /// A job stub was created.
    Created,
}

/// What the crawl loop does with a URL.
pub enum CrawlAction {
    /// Stop the crawl, showing this message.
    Stop(String),
    /// Go on with the next URL.
    Skip,
    /// Process the new job in the background, showing this message.
    Spawn(String),
}

/// Jobs spawned so far out of the URLs of the batch.
pub struct CrawlTally {
    pub spawned: u64,
    pub total: u64,
}

/// One step of the crawl loop: stop when cancelled; skip known URLs and
/// failed bookkeeping; otherwise count the job and report it.
pub fn crawl_step(tally: &mut CrawlTally, cancelled: bool, outcome: UrlOutcome, url: &str) -> (r:
    CrawlAction)
    requires
        old(tally).spawned < old(tally).total,
    ensures
        final(tally).total == old(tally).total,
        cancelled ==> (r matches CrawlAction::Stop(m) && m@ == "Stopped after "@ + ratio(
            old(tally).spawned as nat,
            old(tally).total as nat,
        ) + " jobs"@ && final(tally).spawned == old(tally).spawned),
        !cancelled && outcome != UrlOutcome::Created ==> (r is Skip && final(tally).spawned
            == old(tally).spawned),
        !cancelled && outcome == UrlOutcome::Created ==> (r matches CrawlAction::Spawn(m)
            && final(tally).spawned == old(tally).spawned + 1 && m@ == "Spawned "@ + ratio(
            final(tally).spawned as nat,
            old(tally).total as nat,
        ) + ": "@ + hint_of(url@)),
{
    if cancelled {
        return CrawlAction::Stop(stopped_message(tally.spawned, tally.total));
    }
    if outcome != UrlOutcome::Created {
        return CrawlAction::Skip;
    }
    tally.spawned = tally.spawned + 1;
    let hint = url_hint(url);
    CrawlAction::Spawn(spawned_message(tally.spawned, tally.total, hint.as_str()))
}

} // verus!
