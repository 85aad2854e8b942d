//! The profile knowledge base: YAML-like frontmatter between `---` lines,
//! the body after it, and `[[wikilinks]]` in markdown text.
use vstd::prelude::*;
use crate::assoc::{assoc_get, assoc_insert, distinct_keys, pairs_map};
use crate::text::{
    chars_of, find, find_char, find_char_exec, find_exec, find_from_exec, lemma_find_from_first,
    lemma_find_from_shift, push_all, slice_chars, starts_with, starts_with_exec, string_of, trim,
    trim_bounds, trim_char, trim_chars, trim_matches, trim_range,
};

verus! {

// ---------------------------------------------------------------------------
// Frontmatter
// ---------------------------------------------------------------------------

/// The delimiter `---`.
pub open spec fn dashes() -> Seq<char> {
    seq!['-', '-', '-']
}

/// Text between the opening `---` and the next `---`; `None` when the content
/// does not open with `---` or the block is never closed.
pub open spec fn frontmatter_block(content: Seq<char>) -> Option<Seq<char>> {
    if starts_with(content, dashes()) {
        let rest = content.skip(3);
        match find(rest, dashes()) {
            Some(e) => Some(rest.take(e)),
            None => None,
        }
    } else {
        None
    }
}

/// A value with whitespace, then double quotes, then single quotes removed at both ends.
pub open spec fn clean_value(v: Seq<char>) -> Seq<char> {
    trim_char(trim_char(trim(v), '"'), '\'')
}

/// Scanner state: current key, current value, inside a list, finished entries.
pub type FmState = (Seq<char>, Seq<char>, bool, Map<Seq<char>, Seq<char>>);

/// Records the pending key (when there is one) with its trimmed value.
pub open spec fn fm_flush(key: Seq<char>, val: Seq<char>, map: Map<Seq<char>, Seq<char>>) -> Map<
    Seq<char>,
    Seq<char>,
> {
    if key.len() > 0 {
        map.insert(key, trim(val))
    } else {
        map
    }
}

/// One line of frontmatter: `key: value` starts a new key (an empty value or
/// `[` opens a list); `- item` inside a list appends `item` to the value,
/// one item per line; any other line is ignored.
pub open spec fn fm_step(st: FmState, line: Seq<char>) -> FmState {
    let t = trim(line);
    match find_char(t, ':') {
        Some(k) => {
            let v = clean_value(t.skip(k + 1));
            let is_list = v == seq!['['] || v.len() == 0;
            (
                trim(t.take(k)),
                if is_list {
                    Seq::empty()
                } else {
                    v
                },
                is_list,
                fm_flush(st.0, st.1, st.3),
            )
        },
        None => if st.2 && starts_with(t, seq!['-']) {
            let item = clean_value(t.drop_first());
            let val2 = if st.1.len() > 0 {
                st.1 + seq!['\n'] + item
            } else {
                item
            };
            (st.0, val2, st.2, st.3)
        } else {
            st
        },
    }
}

/// Runs `fm_step` over the `\n`-separated lines of `s`.
pub open spec fn fm_scan(s: Seq<char>, st: FmState) -> FmState
    decreases s.len(),
{
    match find_char(s, '\n') {
        Some(k) => {
            proof {
                lemma_find_from_first(s, seq!['\n'], 0);
            }
            fm_scan(s.skip(k + 1), fm_step(st, s.take(k)))
        },
        None => fm_step(st, s),
    }
}

/// The key → value map of the frontmatter of `content` (empty without frontmatter).
pub open spec fn frontmatter_map(content: Seq<char>) -> Map<Seq<char>, Seq<char>> {
    match frontmatter_block(content) {
        None => Map::empty(),
        Some(fm) => {
            let st = fm_scan(fm, (Seq::empty(), Seq::empty(), false, Map::empty()));
            fm_flush(st.0, st.1, st.3)
        },
    }
}

/// The frontmatter value under `key`, or the empty string.
pub open spec fn frontmatter_field(content: Seq<char>, key: Seq<char>) -> Seq<char> {
    let m = frontmatter_map(content);
    if m.contains_key(key) {
        m[key]
    } else {
        Seq::empty()
    }
}

fn dashes_vec() -> (r: Vec<char>)
    ensures
        r@ == dashes(),
{
    let r = vec!['-', '-', '-'];
    proof {
        assert(r@ =~= dashes());
    }
    r
}

fn flush_exec(key: &Vec<char>, val: &Vec<char>, entries: &mut Vec<(String, String)>)
    requires
        distinct_keys(old(entries)@),
    ensures
        distinct_keys(final(entries)@),
        pairs_map(final(entries)@) == fm_flush(key@, val@, pairs_map(old(entries)@)),
{
    if key.len() > 0 {
        let v = trim_chars(val.as_slice());
        assoc_insert(entries, string_of(key.as_slice()), string_of(v.as_slice()));
    }
}

fn clean_value_exec(s: &[char], from: usize, to: usize) -> (r: Vec<char>)
    requires
        from <= to <= s@.len(),
    ensures
        r@ == clean_value(s@.subrange(from as int, to as int)),
{
    let t = trim_range(s, from, to);
    let u = trim_matches(t.as_slice(), '"');
    trim_matches(u.as_slice(), '\'')
}

fn fm_step_exec(
    key: &mut Vec<char>,
    val: &mut Vec<char>,
    in_list: &mut bool,
    entries: &mut Vec<(String, String)>,
    line: &[char],
)
    requires
        distinct_keys(old(entries)@),
    ensures
        distinct_keys(final(entries)@),
        (final(key)@, final(val)@, *final(in_list), pairs_map(final(entries)@)) == fm_step(
            (old(key)@, old(val)@, *old(in_list), pairs_map(old(entries)@)),
            line@,
        ),
{
    let t = trim_chars(line);
    match find_char_exec(t.as_slice(), ':') {
        Some(k) => {
            proof {
                lemma_find_from_first(t@, seq![':'], 0);
            }
            flush_exec(key, val, entries);
            let v = clean_value_exec(t.as_slice(), k + 1, t.len());
            let newkey = trim_range(t.as_slice(), 0, k);
            proof {
                assert(t@.subrange(k + 1, t@.len() as int) == t@.skip(k + 1));
                assert(t@.subrange(0, k as int) == t@.take(k as int));
            }
            let is_list = (v.len() == 1 && v[0] == '[') || v.len() == 0;
            proof {
                if v@.len() == 1 && v@[0] == '[' {
                    assert(v@ =~= seq!['[']);
                }
            }
            *key = newkey;
            *in_list = is_list;
            if is_list {
                *val = Vec::new();
            } else {
                *val = v;
            }
        },
        None => {
            if *in_list && t.len() > 0 && t[0] == '-' {
                proof {
                    assert(t@.take(1) =~= seq!['-']);
                }
                let item = clean_value_exec(t.as_slice(), 1, t.len());
                proof {
                    assert(t@.subrange(1, t@.len() as int) == t@.drop_first());
                }
                if val.len() > 0 {
                    val.push('\n');
                    push_all(val, item.as_slice());
                    proof {
                        assert(val@ =~= old(val)@ + seq!['\n'] + item@);
                    }
                } else {
                    *val = item;
                }
            } else {
                proof {
                    if t@.len() > 0 && t@[0] != '-' {
                        assert(t@.take(1)[0] != '-');
                    }
                }
            }
        },
    }
}

/// Parses the frontmatter between `---` delimiters into key → value entries,
/// one per distinct key. Inline values keep their text with surrounding
/// quotes removed; `key:` followed by `- item` lines gives the items joined
/// by newlines. Without a complete frontmatter block the result is empty.
pub fn parse_frontmatter(content: &str) -> (r: Vec<(String, String)>)
    ensures
        distinct_keys(r@),
        pairs_map(r@) == frontmatter_map(content@),
{
    let mut entries: Vec<(String, String)> = Vec::new();
    proof {
        assert(pairs_map(entries@) =~= Map::<Seq<char>, Seq<char>>::empty());
    }
    let c = chars_of(content);
    let d = dashes_vec();
    if !starts_with_exec(c.as_slice(), d.as_slice()) {
        return entries;
    }
    let rest = slice_chars(c.as_slice(), 3, c.len());
    proof {
        assert(rest@ == content@.skip(3));
    }
    let e = match find_exec(rest.as_slice(), d.as_slice()) {
        Some(e) => e,
        None => {
            return entries;
        },
    };
    proof {
        lemma_find_from_first(rest@, dashes(), 0);
    }
    let fm = slice_chars(rest.as_slice(), 0, e);
    proof {
        assert(fm@ == rest@.take(e as int));
        assert(frontmatter_block(content@) == Some(fm@));
    }
    let nl = vec!['\n'];
    proof {
        assert(nl@ =~= seq!['\n']);
        assert(fm@.skip(0) =~= fm@);
    }
    let mut key: Vec<char> = Vec::new();
    let mut val: Vec<char> = Vec::new();
    let mut in_list = false;
    let ghost init: FmState = (Seq::empty(), Seq::empty(), false, Map::empty());
    proof {
        assert(key@ =~= Seq::<char>::empty());
        assert(val@ =~= Seq::<char>::empty());
    }
    let mut pos: usize = 0;
    loop
        invariant
            pos <= fm@.len(),
            nl@ == seq!['\n'],
            frontmatter_block(content@) == Some(fm@),
            init == (Seq::<char>::empty(), Seq::<char>::empty(), false, Map::<
                Seq<char>,
                Seq<char>,
            >::empty()),
            distinct_keys(entries@),
            fm_scan(fm@, init) == fm_scan(
                fm@.skip(pos as int),
                (key@, val@, in_list, pairs_map(entries@)),
            ),
        decreases fm@.len() - pos,
    {
        let ghost s = fm@.skip(pos as int);
        proof {
            lemma_find_from_shift(fm@, seq!['\n'], pos as int, 0);
            lemma_find_from_first(s, seq!['\n'], 0);
        }
        match find_from_exec(fm.as_slice(), nl.as_slice(), pos) {
            Some(k) => {
                let line = slice_chars(fm.as_slice(), pos, k);
                proof {
                    assert(line@ == s.take(k - pos));
                    assert(s.skip(k - pos + 1) =~= fm@.skip(k + 1));
                }
                fm_step_exec(&mut key, &mut val, &mut in_list, &mut entries, line.as_slice());
                pos = k + 1;
            },
            None => {
                let line = slice_chars(fm.as_slice(), pos, fm.len());
                proof {
                    assert(line@ == s);
                }
                let ghost st = (key@, val@, in_list, pairs_map(entries@));
                fm_step_exec(&mut key, &mut val, &mut in_list, &mut entries, line.as_slice());
                proof {
                    assert(find_char(s, '\n') is None);
                    assert(fm_scan(s, st) == fm_step(st, s));
                    assert(frontmatter_block(content@) == Some(fm@));
                    assert(fm_scan(fm@, init) == (key@, val@, in_list, pairs_map(entries@)));
                    assert(init == (Seq::<char>::empty(), Seq::<char>::empty(), false, Map::<
                        Seq<char>,
                        Seq<char>,
                    >::empty()));
                }
                flush_exec(&key, &val, &mut entries);
                return entries;
            },
        }
    }
}

/// The `name` and `title` frontmatter fields, each empty when absent.
pub fn extract_name_title(content: &str) -> (r: (String, String))
    ensures
        r.0@ == frontmatter_field(content@, "name"@),
        r.1@ == frontmatter_field(content@, "title"@),
{
    let map = parse_frontmatter(content);
    let name = match assoc_get(&map, "name") {
        Some(v) => v,
        None => String::new(),
    };
    let title = match assoc_get(&map, "title") {
        Some(v) => v,
        None => String::new(),
    };
    (name, title)
}

/// The body of `content`: the text after the closing `---`, trimmed; the
/// content itself when there is no complete frontmatter block.
pub open spec fn body_of(content: Seq<char>) -> Seq<char> {
    if starts_with(content, dashes()) {
        match find(content.skip(3), dashes()) {
            Some(idx) => trim(content.skip(3 + idx + 3)),
            None => content,
        }
    } else {
        content
    }
}

/// Strips the frontmatter block and returns the trimmed body after it.
pub fn strip_frontmatter(content: &str) -> (r: &str)
    ensures
        r@ == body_of(content@),
{
    let c = chars_of(content);
    let d = dashes_vec();
    if !starts_with_exec(c.as_slice(), d.as_slice()) {
        return content;
    }
    let rest = slice_chars(c.as_slice(), 3, c.len());
    proof {
        assert(rest@ == content@.skip(3));
    }
    match find_exec(rest.as_slice(), d.as_slice()) {
        Some(idx) => {
            proof {
                lemma_find_from_first(rest@, dashes(), 0);
            }
            let (lo, hi) = trim_bounds(c.as_slice(), idx + 6, c.len());
            proof {
                assert(c@.subrange(idx + 6, c@.len() as int) == content@.skip(3 + idx + 3));
            }
            content.substring_char(lo, hi)
        },
        None => content,
    }
}

// ---------------------------------------------------------------------------
// Wikilinks
// ---------------------------------------------------------------------------

/// The closing delimiter `]]`.
pub open spec fn close_brackets() -> Seq<char> {
    seq![']', ']']
}

/// Splits at the first `]]`: the text before it and the text after it; with
/// no `]]`, all the text and nothing after.
pub open spec fn close_split(s: Seq<char>) -> (Seq<char>, Seq<char>) {
    match find(s, close_brackets()) {
        Some(k) => (s.take(k), s.skip(k + 2)),
        None => (s, Seq::empty()),
    }
}

/// What a link shows: the label after the first `|`, else the target.
pub open spec fn link_display(link: Seq<char>) -> Seq<char> {
    match find_char(link, '|') {
        Some(p) => link.skip(p + 1),
        None => link,
    }
}

pub proof fn lemma_close_split_shorter(s: Seq<char>)
    ensures
        close_split(s).1.len() <= s.len(),
{
    lemma_find_from_first(s, close_brackets(), 0);
}

/// `[[target|label]]` becomes `label`, `[[target]]` becomes `target`, and an
/// image embed `![[...]]` is removed; other text is kept.
pub open spec fn expand_links(s: Seq<char>) -> Seq<char>
    decreases s.len(),
{
    if s.len() == 0 {
        Seq::empty()
    } else if s.len() >= 2 && s[0] == '!' && s[1] == '[' {
        if s.len() >= 3 && s[2] == '[' {
            proof {
                lemma_close_split_shorter(s.skip(3));
            }
            expand_links(close_split(s.skip(3)).1)
        } else {
            seq!['!', '['] + expand_links(s.skip(2))
        }
    } else if s.len() >= 2 && s[0] == '[' && s[1] == '[' {
        proof {
            lemma_close_split_shorter(s.skip(2));
        }
        link_display(close_split(s.skip(2)).0) + expand_links(close_split(s.skip(2)).1)
    } else {
        seq![s[0]] + expand_links(s.drop_first())
    }
}

/// Text with no `[[` holds no link and no embed: expanding it changes
/// nothing.
pub proof fn law_plain_text_unchanged(s: Seq<char>)
    requires
        forall|i: int| 0 <= i < s.len() - 1 ==> !(#[trigger] s[i] == '[' && s[i + 1] == '['),
    ensures
        expand_links(s) == s,
    decreases s.len(),
{
    if s.len() > 0 {
        if s.len() >= 2 && s[0] == '!' && s[1] == '[' {
            if s.len() >= 3 {
                assert(!(s[1] == '[' && s[2] == '['));
            }
            let t = s.skip(2);
            assert forall|i: int| 0 <= i < t.len() - 1 implies !(#[trigger] t[i] == '[' && t[i + 1] == '[') by {
                assert(t[i] == s[i + 2] && t[i + 1] == s[i + 3]);
            }
            law_plain_text_unchanged(t);
            assert(s =~= seq!['!', '['] + t);
        } else {
            if s.len() >= 2 {
                assert(!(s[0] == '[' && s[1] == '['));
            }
            let t = s.drop_first();
            assert forall|i: int| 0 <= i < t.len() - 1 implies !(#[trigger] t[i] == '[' && t[i + 1] == '[') by {
                assert(t[i] == s[i + 1] && t[i + 1] == s[i + 2]);
            }
            law_plain_text_unchanged(t);
            assert(s =~= seq![s[0]] + t);
        }
    }
}

/// Where the link text opened at `from` ends and where scanning resumes.
fn close_bounds(v: &[char], from: usize) -> (r: (usize, usize))
    requires
        from <= v@.len(),
    ensures
        from <= r.0 <= r.1 <= v@.len(),
        v@.subrange(from as int, r.0 as int) == close_split(v@.skip(from as int)).0,
        v@.skip(r.1 as int) == close_split(v@.skip(from as int)).1,
{
    let pat = vec![']', ']'];
    proof {
        assert(pat@ =~= close_brackets());
        lemma_find_from_shift(v@, close_brackets(), from as int, 0);
        lemma_find_from_first(v@.skip(from as int), close_brackets(), 0);
    }
    match find_from_exec(v, pat.as_slice(), from) {
        Some(k) => {
            proof {
                assert(v@.subrange(from as int, k as int) =~= v@.skip(from as int).take(
                    k - from,
                ));
                assert(v@.skip(k + 2) =~= v@.skip(from as int).skip(k - from + 2));
            }
            (k, k + 2)
        },
        None => {
            proof {
                assert(v@.subrange(from as int, v@.len() as int) =~= v@.skip(from as int));
                assert(v@.skip(v@.len() as int) =~= Seq::<char>::empty());
            }
            (v.len(), v.len())
        },
    }
}

/// Expands wikilinks to their display text and removes image embeds.
pub fn expand_wikilinks(content: &str) -> (r: String)
    ensures
        r@ == expand_links(content@),
{
    let v = chars_of(content);
    let n = v.len();
    let mut out: Vec<char> = Vec::new();
    let mut i: usize = 0;
    proof {
        assert(v@.skip(0) =~= v@);
        assert(out@ + expand_links(v@) =~= expand_links(v@));
    }
    while i < n
        invariant
            i <= n == v@.len(),
            expand_links(v@) == out@ + expand_links(v@.skip(i as int)),
        decreases n - i,
    {
        let ghost s = v@.skip(i as int);
        let ghost o = out@;
        if i + 1 < n && v[i] == '!' && v[i + 1] == '[' {
            if i + 2 < n && v[i + 2] == '[' {
                let (_, next) = close_bounds(v.as_slice(), i + 3);
                proof {
                    assert(s.skip(3) =~= v@.skip(i + 3));
                }
                i = next;
            } else {
                out.push('!');
                out.push('[');
                proof {
                    assert(s.skip(2) =~= v@.skip(i + 2));
                    assert(o + expand_links(s) =~= out@ + expand_links(v@.skip(i + 2)));
                }
                i = i + 2;
            }
        } else if i + 1 < n && v[i] == '[' && v[i + 1] == '[' {
            let (end, next) = close_bounds(v.as_slice(), i + 2);
            let link = slice_chars(v.as_slice(), i + 2, end);
            proof {
                assert(s.skip(2) =~= v@.skip(i + 2));
            }
            match find_char_exec(link.as_slice(), '|') {
                Some(p) => {
                    proof {
                        lemma_find_from_first(link@, seq!['|'], 0);
                    }
                    let shown = slice_chars(link.as_slice(), p + 1, link.len());
                    proof {
                        assert(shown@ == link@.skip(p + 1));
                    }
                    push_all(&mut out, shown.as_slice());
                },
                None => {
                    push_all(&mut out, link.as_slice());
                },
            }
            proof {
                assert(o + expand_links(s) =~= out@ + expand_links(v@.skip(next as int)));
            }
            i = next;
        } else {
            out.push(v[i]);
            proof {
                assert(s.drop_first() =~= v@.skip(i + 1));
                assert(s[0] == v@[i as int]);
                assert(o + expand_links(s) =~= out@ + expand_links(v@.skip(i + 1)));
            }
            i = i + 1;
        }
        proof {
            assert(expand_links(v@) == out@ + expand_links(v@.skip(i as int)));
        }
    }
    proof {
        assert(v@.skip(n as int) =~= Seq::<char>::empty());
        assert(out@ + Seq::<char>::empty() =~= out@);
    }
    string_of(out.as_slice())
}

// ---------------------------------------------------------------------------
// Profile files
// ---------------------------------------------------------------------------

/// A markdown file of the profile: its path under the profile directory
/// and its name without extension.
pub struct ProfileFile {
    pub path: String,
    pub name: String,
}

/// Lists profile files sorted by path.
pub fn list_profile_files(files: Vec<ProfileFile>) -> (r: Vec<ProfileFile>)
    ensures
        r@.to_multiset() == files@.to_multiset(),
        r@.len() == files@.len(),
        crate::sorting::sorted_by(r@, |f: ProfileFile| f.path@),
{
    let mut keys: Vec<Vec<char>> = Vec::new();
    let mut i: usize = 0;
    while i < files.len()
        invariant
            i <= files@.len(),
            keys@.len() == i,
            forall|k: int| 0 <= k < i ==> #[trigger] keys@[k]@ == files@[k].path@,
        decreases files@.len() - i,
    {
        keys.push(chars_of(files[i].path.as_str()));
        i = i + 1;
    }
    crate::sorting::sort_by_keys(files, keys, Ghost(|f: ProfileFile| f.path@))
}

/// A relative profile path the app may read or write: no `..`.
pub open spec fn safe_profile_path(p: Seq<char>) -> bool {
    !crate::text::contains(p, ".."@)
}

/// Whether a requested profile path stays inside the profile directory.
pub fn is_safe_profile_path(path: &str) -> (b: bool)
    ensures
        b == safe_profile_path(path@),
{
    !crate::text::contains_str(chars_of(path).as_slice(), "..")
}

/// The file a save request names, trimmed, and whether it is the index
/// (whose save also refreshes the stored master CV); `None` when the name
/// is empty or leaves the profile directory.
pub fn save_target(file: &str) -> (r: Option<(String, bool)>)
    ensures
        match r {
            Some((p, is_index)) => p@ == trim(file@) && p@.len() > 0 && safe_profile_path(p@)
                && is_index == (p@ == "index.md"@),
            None => trim(file@).len() == 0 || !safe_profile_path(trim(file@)),
        },
{
    let tc = trim_chars(chars_of(file).as_slice());
    let t = string_of(tc.as_slice());
    if tc.len() == 0 || !is_safe_profile_path(t.as_str()) {
        return None;
    }
    let is_index = crate::json::str_eq(t.as_str(), "index.md");
    Some((t, is_index))
}

/// The master CV built from the profile: the index file, then (when there
/// is one) the portfolio's body under a `# Portfolio` heading, with
/// wikilinks expanded.
pub open spec fn master_cv_text(index: Option<Seq<char>>, portfolio: Option<Seq<char>>) -> Seq<char> {
    let base = match index {
        Some(i) => i,
        None => Seq::empty(),
    };
    let full = match portfolio {
        Some(p) => base + "\n\n# Portfolio\n\n"@ + body_of(p),
        None => base,
    };
    expand_links(full)
}

/// Builds the master CV from the profile's index and portfolio files.
pub fn master_cv(index: Option<&str>, portfolio: Option<&str>) -> (r: String)
    ensures
        r@ == master_cv_text(crate::provider::opt_str_view(index), crate::provider::opt_str_view(portfolio)),
{
    let mut v: Vec<char> = match index {
        Some(i) => chars_of(i),
        None => Vec::new(),
    };
    match portfolio {
        Some(p) => {
            crate::text::push_str(&mut v, "\n\n# Portfolio\n\n");
            crate::text::push_str(&mut v, strip_frontmatter(p));
        },
        None => {},
    }
    let full = string_of(v.as_slice());
    expand_wikilinks(full.as_str())
}

// ---------------------------------------------------------------------------
// Print view
// ---------------------------------------------------------------------------

/// `s` with every trailing `pat` removed, as `str::trim_end_matches` does
/// with a non-empty string pattern.
pub open spec fn strip_end_str(s: Seq<char>, pat: Seq<char>) -> Seq<char>
    decreases s.len(),
{
    if pat.len() > 0 && crate::text::ends_with(s, pat) {
        strip_end_str(s.take(s.len() - pat.len()), pat)
    } else {
        s
    }
}

/// The body links the profile file at `path`: it holds `[[stem]]` or
/// `[[stem|`, the stem being the path without its `.md` endings.
pub open spec fn links_file(body: Seq<char>, path: Seq<char>) -> bool {
    let stem = strip_end_str(path, ".md"@);
    crate::text::contains(body, "[["@ + stem + "]]"@) || crate::text::contains(body, "[["@ + stem + "|"@)
}

/// The print body after going through `files` in order, from `start`: a
/// file not seen yet that the body links is marked seen and, when it could
/// be read, its body is appended after a blank line.
pub open spec fn print_fold(
    files: Seq<(Seq<char>, Option<Seq<char>>)>,
    start: (Seq<char>, Set<Seq<char>>),
) -> (Seq<char>, Set<Seq<char>>)
    decreases files.len(),
{
    if files.len() == 0 {
        start
    } else {
        let prev = print_fold(files.drop_last(), start);
        let path = files.last().0;
        if prev.1.contains(path) || !links_file(prev.0, path) {
            prev
        } else {
            match files.last().1 {
                Some(t) => (prev.0 + "\n\n"@ + body_of(t), prev.1.insert(path)),
                None => (prev.0, prev.1.insert(path)),
            }
        }
    }
}

/// The text the print view shows for the profile file `file`: its body,
/// followed by the bodies of the profile files it links, transitively in
/// list order.
pub open spec fn print_body(
    file: Seq<char>,
    content: Seq<char>,
    files: Seq<(Seq<char>, Option<Seq<char>>)>,
) -> Seq<char> {
    print_fold(files, (body_of(content), set![file])).0
}

/// The files as values.
pub open spec fn listed_files(files: Seq<(String, Option<String>)>) -> Seq<(Seq<char>, Option<Seq<char>>)> {
    files.map_values(
        |f: (String, Option<String>)|
            (
                f.0@,
                match f.1 {
                    Some(t) => Some(t@),
                    None => None,
                },
            ),
    )
}

/// Removes every trailing `.md`.
fn strip_md(path: &str) -> (r: Vec<char>)
    ensures
        r@ == strip_end_str(path@, ".md"@),
{
    let md = chars_of(".md");
    let mut v = chars_of(path);
    while crate::text::ends_with_exec(v.as_slice(), md.as_slice())
        invariant
            md@ == ".md"@,
            strip_end_str(v@, ".md"@) == strip_end_str(path@, ".md"@),
        decreases v@.len(),
    {
        proof {
            reveal_strlit(".md");
        }
        let n = v.len() - 3;
        v.truncate(n);
    }
    proof {
        reveal_strlit(".md");
    }
    v
}

/// Whether the body links the profile file at `path`.
fn links_file_exec(body: &[char], path: &str) -> (b: bool)
    ensures
        b == links_file(body@, path@),
{
    let stem = strip_md(path);
    let mut a = chars_of("[[");
    push_all(&mut a, stem.as_slice());
    let mut b = a.clone();
    crate::text::push_str(&mut a, "]]");
    crate::text::push_str(&mut b, "|");
    crate::text::contains_exec(body, a.as_slice()) || crate::text::contains_exec(body, b.as_slice())
}

/// Whether `seen` holds `p`.
fn seen_has(seen: &Vec<String>, p: &str) -> (b: bool)
    ensures
        b == crate::text::views(seen@).contains(p@),
{
    let pc = chars_of(p);
    let mut i: usize = 0;
    while i < seen.len()
        invariant
            i <= seen@.len(),
            pc@ == p@,
            forall|j: int| 0 <= j < i ==> seen@[j]@ != p@,
        decreases seen@.len() - i,
    {
        if crate::text::eq_str(pc.as_slice(), seen[i].as_str()) {
            proof {
                assert(crate::text::views(seen@)[i as int] == p@);
            }
            return true;
        }
        i = i + 1;
    }
    proof {
        if crate::text::views(seen@).contains(p@) {
            let j = choose|j: int| 0 <= j < seen@.len() && crate::text::views(seen@)[j] == p@;
            assert(seen@[j]@ == p@);
        }
    }
    false
}

/// The print view's text for `file` with content `content`, given the
/// profile's files in list order, each with its content when it could be
/// read.
pub fn profile_print_body(file: &str, content: &str, files: &Vec<(String, Option<String>)>) -> (r: String)
    ensures
        r@ == print_body(file@, content@, listed_files(files@)),
{
    let ghost fs = listed_files(files@);
    let mut body = chars_of(strip_frontmatter(content));
    let mut seen: Vec<String> = Vec::new();
    seen.push(file.to_owned());
    let mut i: usize = 0;
    proof {
        assert(fs.take(0) =~= Seq::<(Seq<char>, Option<Seq<char>>)>::empty());
        assert(crate::text::views(seen@) =~= Seq::<Seq<char>>::empty() + seq![file@]);
        Seq::<Seq<char>>::lemma_to_set_insert_commutes(Seq::empty(), file@);
        assert(Seq::<Seq<char>>::empty().to_set() =~= Set::<Seq<char>>::empty());
        assert(crate::text::views(seen@).to_set() =~= set![file@]);
    }
    while i < files.len()
        invariant
            i <= files@.len(),
            fs == listed_files(files@),
            (body@, crate::text::views(seen@).to_set()) == print_fold(
                fs.take(i as int),
                (body_of(content@), set![file@]),
            ),
        decreases files@.len() - i,
    {
        proof {
            assert(fs.take(i + 1).drop_last() =~= fs.take(i as int));
            assert(fs.take(i + 1).last() == fs[i as int]);
        }
        let path = files[i].0.as_str();
        if !seen_has(&seen, path) && links_file_exec(body.as_slice(), path) {
            let ghost before_seen = crate::text::views(seen@);
            seen.push(path.to_owned());
            proof {
                assert(crate::text::views(seen@) =~= before_seen + seq![path@]);
                Seq::<Seq<char>>::lemma_to_set_insert_commutes(before_seen, path@);
            }
            match &files[i].1 {
                Some(t) => {
                    crate::text::push_str(&mut body, "\n\n");
                    crate::text::push_str(&mut body, strip_frontmatter(t.as_str()));
                },
                None => {},
            }
        } else {
            proof {
                if crate::text::views(seen@).contains(path@) {
                    assert(crate::text::views(seen@).to_set().contains(path@));
                }
            }
        }
        i = i + 1;
    }
    proof {
        assert(fs.take(files@.len() as int) =~= fs);
    }
    string_of(body.as_slice())
}

} // verus!
