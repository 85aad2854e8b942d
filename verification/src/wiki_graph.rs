//! The in-memory knowledge graph built from the profile's markdown files:
//! nodes keyed by lower-cased title, their `[[wikilinks]]`, and the list,
//! search and link queries over them.
use vstd::prelude::*;
use crate::assoc::{assoc_get, distinct_keys, pairs_map};
use crate::profile::{body_of, frontmatter_map, link_display, parse_frontmatter, strip_frontmatter};
use crate::sorting::{sort_by_keys, sorted_by};
use crate::text::{
    chars_of, contains, contains_exec, find, find_char, find_char_exec, find_from_exec,
    lemma_find_from_first, lemma_find_from_shift, slice_chars, starts_with, starts_with_exec,
    string_of, to_lowercase, unicode_lower, views,
};

verus! {

/// One markdown file as the loader read it from disk.
pub struct SourceFile {
    /// Full path of the file.
    pub path: String,
    /// Path relative to the profile directory.
    pub rel: String,
    /// File name without extension.
    pub stem: String,
    /// File content.
    pub content: String,
    /// Modification time, in seconds since the Unix epoch, when known.
    pub updated_at: Option<u64>,
}

/// A single wiki node (one .md file).
#[derive(Clone)]
pub struct WikiNode {
    pub path: String,
    pub title: String,
    /// The first 200 characters of the body.
    pub summary: String,
    /// The markdown body without frontmatter.
    pub body: String,
    /// Outgoing `[[wikilinks]]`, lower-cased.
    pub links: Vec<String>,
    pub frontmatter: Vec<(String, String)>,
    pub updated_at: Option<u64>,
}

/// The in-memory knowledge graph: nodes under their lower-cased titles.
#[derive(Clone)]
pub struct WikiGraph {
    pub nodes: Vec<(String, WikiNode)>,
    /// Body of `System/index.md`, or of `index.md` when that is empty.
    pub index: String,
    pub raw_dir: String,
    pub wiki_dir: String,
}

// ---------------------------------------------------------------------------
// Wikilink extraction
// ---------------------------------------------------------------------------

pub open spec fn open_brackets() -> Seq<char> {
    seq!['[', '[']
}

pub open spec fn close_brackets() -> Seq<char> {
    seq![']', ']']
}

/// The target of a link: the text before the first `|`.
pub open spec fn link_target(link: Seq<char>) -> Seq<char> {
    match find_char(link, '|') {
        Some(p) => link.take(p),
        None => link,
    }
}

pub proof fn lemma_links_step(s: Seq<char>)
    ensures
        find(s, open_brackets()) matches Some(start) ==> 0 <= start && start + 2 <= s.len() && (
        find(s.skip(start + 2), close_brackets()) matches Some(end) ==> 0 <= end && end + 2
            <= s.skip(start + 2).len()),
{
    lemma_find_from_first(s, open_brackets(), 0);
    if let Some(start) = find(s, open_brackets()) {
        lemma_find_from_first(s.skip(start + 2), close_brackets(), 0);
    }
}

/// The targets of the `[[...]]` links in `s`, in order, skipping image
/// embeds `![[...]]`; an unclosed `[[` ends the scan.
pub open spec fn wikilinks(s: Seq<char>) -> Seq<Seq<char>>
    decreases s.len(),
{
    match find(s, open_brackets()) {
        None => Seq::empty(),
        Some(start) => {
            let after = s.skip(start + 2);
            match find(after, close_brackets()) {
                None => Seq::empty(),
                Some(end) => {
                    proof {
                        lemma_links_step(s);
                    }
                    let rest = after.skip(end + 2);
                    if start > 0 && s[start - 1] == '!' {
                        wikilinks(rest)
                    } else {
                        seq![link_target(after.take(end))] + wikilinks(rest)
                    }
                },
            }
        },
    }
}

/// Lower-cased views of link targets.
pub open spec fn lowered(s: Seq<Seq<char>>) -> Seq<Seq<char>> {
    s.map_values(|l: Seq<char>| unicode_lower(l))
}

/// The first 200 characters.
pub open spec fn summary_of(body: Seq<char>) -> Seq<char> {
    if body.len() <= 200 {
        body
    } else {
        body.take(200)
    }
}

/// A node's title: frontmatter `name`, else `title`, else the file stem.
pub open spec fn source_title(f: SourceFile) -> Seq<char> {
    let fm = frontmatter_map(f.content@);
    if fm.contains_key("name"@) {
        fm["name"@]
    } else if fm.contains_key("title"@) {
        fm["title"@]
    } else {
        f.stem@
    }
}

/// Files under `System/` or `raw/` do not become nodes.
pub open spec fn eligible(f: SourceFile) -> bool {
    !starts_with(f.rel@, "System"@) && !starts_with(f.rel@, "raw"@)
}

/// The key a file's node is stored under.
pub open spec fn source_key(f: SourceFile) -> Seq<char> {
    unicode_lower(source_title(f))
}

/// `n` is the node that the loader builds from `f`.
pub open spec fn node_matches(n: WikiNode, f: SourceFile) -> bool {
    let body = body_of(f.content@);
    &&& n.path@ == f.path@
    &&& n.title@ == source_title(f)
    &&& n.body@ == body
    &&& n.summary@ == summary_of(body)
    &&& views(n.links@) == lowered(wikilinks(body))
    &&& distinct_keys(n.frontmatter@)
    &&& pairs_map(n.frontmatter@) == frontmatter_map(f.content@)
    &&& n.updated_at == f.updated_at
}

/// Index of the last eligible file stored under `k`.
pub open spec fn last_source(files: Seq<SourceFile>, k: Seq<char>) -> Option<int>
    decreases files.len(),
{
    if files.len() == 0 {
        None
    } else if eligible(files.last()) && source_key(files.last()) == k {
        Some(files.len() - 1)
    } else {
        last_source(files.drop_last(), k)
    }
}

/// A well-formed graph: no two nodes share a key, and each node is stored
/// under its lower-cased title.
pub open spec fn graph_wf(nodes: Seq<(String, WikiNode)>) -> bool {
    &&& forall|i: int, j: int| 0 <= i < j < nodes.len() ==> nodes[i].0@ != nodes[j].0@
    &&& forall|i: int| 0 <= i < nodes.len() ==> #[trigger] nodes[i].0@ == unicode_lower(nodes[i].1.title@)
}

/// The nodes are exactly those the loader builds from `files`: one per key,
/// from the last eligible file with that key.
pub open spec fn built_from(nodes: Seq<(String, WikiNode)>, files: Seq<SourceFile>) -> bool {
    &&& forall|i: int, j: int| 0 <= i < j < nodes.len() ==> nodes[i].0@ != nodes[j].0@
    &&& forall|i: int|
        0 <= i < nodes.len() ==> {
            &&& nodes[i].0@ == unicode_lower(nodes[i].1.title@)
            &&& last_source(files, nodes[i].0@) matches Some(j) && node_matches(nodes[i].1, files[j])
        }
    &&& forall|j: int|
        0 <= j < files.len() && eligible(files[j]) ==> exists|i: int|
            0 <= i < nodes.len() && #[trigger] nodes[i].0@ == source_key(files[j])
}

impl WikiGraph {
    /// Extracts the targets of all `[[wikilinks]]` in `content` (the text
    /// before `|`), skipping image embeds `![[...]]`.
    pub fn extract_wikilinks(content: &str) -> (r: Vec<String>)
        ensures
            views(r@) == wikilinks(content@),
    {
        let v = chars_of(content);
        let open = vec!['[', '['];
        let close = vec![']', ']'];
        proof {
            assert(open@ =~= open_brackets());
            assert(close@ =~= close_brackets());
            assert(v@.skip(0) =~= v@);
        }
        let mut links: Vec<String> = Vec::new();
        let mut pos: usize = 0;
        proof {
            assert(views(links@) + wikilinks(v@) =~= wikilinks(v@));
        }
        loop
            invariant
                pos <= v@.len(),
                v@ == content@,
                open@ == open_brackets(),
                close@ == close_brackets(),
                wikilinks(v@) == views(links@) + wikilinks(v@.skip(pos as int)),
            decreases v@.len() - pos,
        {
            let ghost s = v@.skip(pos as int);
            proof {
                lemma_find_from_shift(v@, open_brackets(), pos as int, 0);
                lemma_links_step(s);
            }
            let start = match find_from_exec(v.as_slice(), open.as_slice(), pos) {
                Some(st) => st,
                None => {
                    proof {
                        assert(views(links@) + Seq::<Seq<char>>::empty() =~= views(links@));
                    }
                    return links;
                },
            };
            proof {
                lemma_find_from_shift(v@, close_brackets(), start + 2, 0);
                assert(s.skip(start - pos + 2) =~= v@.skip(start + 2));
            }
            let end = match find_from_exec(v.as_slice(), close.as_slice(), start + 2) {
                Some(e) => e,
                None => {
                    proof {
                        assert(views(links@) + Seq::<Seq<char>>::empty() =~= views(links@));
                    }
                    return links;
                },
            };
            let ghost after = v@.skip(start + 2);
            proof {
                assert(after.skip(end - start - 2 + 2) =~= v@.skip(end + 2));
                if start > pos {
                    assert(s[start - pos - 1] == v@[start - 1]);
                }
            }
            let ghost before = views(links@);
            if start > pos && v[start - 1] == '!' {
            } else {
                let link = slice_chars(v.as_slice(), start + 2, end);
                proof {
                    assert(link@ =~= after.take(end - start - 2));
                }
                let target = match find_char_exec(link.as_slice(), '|') {
                    Some(p) => slice_chars(link.as_slice(), 0, p),
                    None => link,
                };
                proof {
                    assert(target@ == link_target(after.take(end - start - 2)));
                }
                links.push(string_of(target.as_slice()));
                proof {
                    assert(views(links@) =~= before.push(target@));
                    assert(before + (seq![target@] + wikilinks(v@.skip(end + 2))) =~= views(links@)
                        + wikilinks(v@.skip(end + 2)));
                }
            }
            pos = end + 2;
        }
    }

    /// Splits a markdown file into its frontmatter entries and its body.
    pub fn parse_file(content: &str) -> (r: (Vec<(String, String)>, String))
        ensures
            distinct_keys(r.0@),
            pairs_map(r.0@) == frontmatter_map(content@),
            r.1@ == body_of(content@),
    {
        let fm = parse_frontmatter(content);
        let body = strip_frontmatter(content).to_owned();
        (fm, body)
    }
}


fn lower_all(links: &Vec<String>) -> (r: Vec<String>)
    ensures
        views(r@) == lowered(views(links@)),
{
    let mut r: Vec<String> = Vec::new();
    let mut i: usize = 0;
    while i < links.len()
        invariant
            i <= links@.len(),
            views(r@) == lowered(views(links@.take(i as int))),
        decreases links@.len() - i,
    {
        let l = to_lowercase(links[i].as_str());
        let ghost before = r@;
        r.push(l);
        i = i + 1;
        proof {
            assert(links@.take(i as int) =~= links@.take(i - 1).push(links@[i - 1]));
            assert(views(r@) =~= views(before).push(l@));
            assert(lowered(views(links@.take(i as int))) =~= lowered(views(links@.take(i - 1))).push(
                unicode_lower(links@[i - 1]@),
            ));
        }
    }
    proof {
        assert(links@.take(links@.len() as int) =~= links@);
    }
    r
}

fn source_title_exec(fm: &Vec<(String, String)>, stem: &String) -> (t: String)
    requires
        distinct_keys(fm@),
    ensures
        t@ == (if pairs_map(fm@).contains_key("name"@) {
            pairs_map(fm@)["name"@]
        } else if pairs_map(fm@).contains_key("title"@) {
            pairs_map(fm@)["title"@]
        } else {
            stem@
        }),
{
    match assoc_get(fm, "name") {
        Some(t) => t,
        None => match assoc_get(fm, "title") {
            Some(t) => t,
            None => stem.clone(),
        },
    }
}

impl WikiNode {
    /// Builds the node for one markdown file: title from frontmatter `name`,
    /// else `title`, else the file stem; body without frontmatter; summary of
    /// its first 200 characters; lower-cased link targets.
    pub fn from_source(f: &SourceFile) -> (n: WikiNode)
        ensures
            node_matches(n, *f),
    {
        let (fm, body) = WikiGraph::parse_file(f.content.as_str());
        let title = source_title_exec(&fm, &f.stem);
        let raw_links = WikiGraph::extract_wikilinks(body.as_str());
        let links = lower_all(&raw_links);
        let bc = chars_of(body.as_str());
        let cut = if bc.len() <= 200 {
            bc.len()
        } else {
            200
        };
        let summary = string_of(slice_chars(bc.as_slice(), 0, cut).as_slice());
        proof {
            if bc@.len() <= 200 {
                assert(bc@.subrange(0, cut as int) =~= bc@);
            }
        }
        WikiNode {
            path: f.path.clone(),
            title,
            summary,
            body,
            links,
            frontmatter: fm,
            updated_at: f.updated_at,
        }
    }
}

fn is_eligible(f: &SourceFile) -> (b: bool)
    ensures
        b == eligible(*f),
{
    let rel = chars_of(f.rel.as_str());
    let sys = chars_of("System");
    let raw = chars_of("raw");
    !starts_with_exec(rel.as_slice(), sys.as_slice()) && !starts_with_exec(
        rel.as_slice(),
        raw.as_slice(),
    )
}

/// Index of the first entry stored under `key`.
pub fn find_key(nodes: &Vec<(String, WikiNode)>, key: &str) -> (r: Option<usize>)
    ensures
        r matches Some(i) ==> i < nodes@.len() && nodes@[i as int].0@ == key@ && forall|j: int|
            0 <= j < i ==> nodes@[j].0@ != key@,
        r is None ==> forall|j: int| 0 <= j < nodes@.len() ==> nodes@[j].0@ != key@,
{
    let k = key.to_owned();
    let mut i: usize = 0;
    while i < nodes.len()
        invariant
            i <= nodes@.len(),
            k@ == key@,
            forall|j: int| 0 <= j < i ==> nodes@[j].0@ != key@,
        decreases nodes@.len() - i,
    {
        if nodes[i].0 == k {
            return Some(i);
        }
        i = i + 1;
    }
    None
}

/// The file that `last_source` names is an eligible file with that key.
pub proof fn lemma_last_source_range(files: Seq<SourceFile>, k: Seq<char>)
    ensures
        last_source(files, k) matches Some(j) ==> 0 <= j < files.len() && eligible(files[j])
            && source_key(files[j]) == k,
    decreases files.len(),
{
    if files.len() > 0 {
        lemma_last_source_range(files.drop_last(), k);
    }
}

proof fn lemma_last_source_push(p: Seq<SourceFile>, f: SourceFile, k: Seq<char>)
    ensures
        last_source(p.push(f), k) == (if eligible(f) && source_key(f) == k {
            Some(p.len() as int)
        } else {
            last_source(p, k)
        }),
{
    assert(p.push(f).drop_last() =~= p);
}

impl WikiGraph {
    /// Builds the graph from the files the loader found, in walk order: each
    /// eligible file becomes a node under its lower-cased title, a later file
    /// replacing an earlier one with the same key. The index is
    /// `system_index` unless that is empty, then `index_body`.
    pub fn from_sources(
        index_body: String,
        system_index: String,
        files: &Vec<SourceFile>,
        raw_dir: String,
        wiki_dir: String,
    ) -> (g: WikiGraph)
        ensures
            built_from(g.nodes@, files@),
            graph_wf(g.nodes@),
            g.index@ == (if system_index@.len() > 0 {
                system_index@
            } else {
                index_body@
            }),
            g.raw_dir == raw_dir,
            g.wiki_dir == wiki_dir,
    {
        let mut nodes: Vec<(String, WikiNode)> = Vec::new();
        let mut t: usize = 0;
        proof {
            assert(files@.take(0) =~= Seq::<SourceFile>::empty());
        }
        while t < files.len()
            invariant
                t <= files@.len(),
                built_from(nodes@, files@.take(t as int)),
            decreases files@.len() - t,
        {
            let ghost p = files@.take(t as int);
            let ghost f = files@[t as int];
            proof {
                assert(files@.take(t + 1) =~= p.push(f));
            }
            let ghost before = nodes@;
            if is_eligible(&files[t]) {
                let node = WikiNode::from_source(&files[t]);
                let key = to_lowercase(node.title.as_str());
                let slot = find_key(&nodes, key.as_str());
                let found = slot.is_some();
                let i: usize = match slot {
                    Some(i) => i,
                    None => nodes.len(),
                };
                if found {
                    nodes.set(i, (key, node));
                } else {
                    nodes.push((key, node));
                }
                proof {
                    let p2 = p.push(f);
                    assert forall|a: int, b: int| 0 <= a < b < nodes@.len() implies nodes@[a].0@
                        != nodes@[b].0@ by {
                        if found {
                            if a != i as int && b != i as int {
                                assert(before[a].0@ != before[b].0@);
                            } else if a == i as int {
                                assert(before[a].0@ != before[b].0@);
                            } else {
                                assert(before[a].0@ != before[b].0@);
                            }
                        } else if b < before.len() {
                            assert(before[a].0@ != before[b].0@);
                        }
                    }
                    assert forall|a: int| 0 <= a < nodes@.len() implies {
                        &&& nodes@[a].0@ == unicode_lower(nodes@[a].1.title@)
                        &&& last_source(p2, nodes@[a].0@) matches Some(j) && node_matches(
                            nodes@[a].1,
                            p2[j],
                        )
                    } by {
                        lemma_last_source_push(p, f, nodes@[a].0@);
                        if (found && a == i as int) || (!found && a == before.len()) {
                            assert(p2[p.len() as int] == f);
                        } else {
                            assert(nodes@[a] == before[a]);
                            lemma_last_source_range(p, before[a].0@);
                            let j = last_source(p, before[a].0@)->0;
                            assert(p2[j] == p[j]);
                        }
                    }
                    assert forall|j: int| 0 <= j < p2.len() && eligible(p2[j]) implies exists|
                        a: int,
                    | 0 <= a < nodes@.len() && #[trigger] nodes@[a].0@ == source_key(p2[j]) by {
                        if j < p.len() {
                            assert(p2[j] == p[j]);
                            let a = choose|a: int|
                                0 <= a < before.len() && #[trigger] before[a].0@ == source_key(
                                    p[j],
                                );
                            if found && a == i as int {
                                assert(nodes@[a].0@ == key@);
                                assert(before[a].0@ == key@);
                            } else {
                                assert(nodes@[a] == before[a]);
                            }
                        } else {
                            assert(p2[j] == f);
                            if found {
                                assert(nodes@[i as int].0@ == source_key(f));
                            } else {
                                assert(nodes@[before.len() as int].0@ == source_key(f));
                            }
                        }
                    }
                }
            } else {
                proof {
                    let p2 = p.push(f);
                    assert forall|a: int| 0 <= a < nodes@.len() implies {
                        &&& nodes@[a].0@ == unicode_lower(nodes@[a].1.title@)
                        &&& last_source(p2, nodes@[a].0@) matches Some(j) && node_matches(
                            nodes@[a].1,
                            p2[j],
                        )
                    } by {
                        lemma_last_source_push(p, f, nodes@[a].0@);
                        lemma_last_source_range(p, nodes@[a].0@);
                        let j = last_source(p, nodes@[a].0@)->0;
                        assert(p2[j] == p[j]);
                    }
                    assert forall|j: int| 0 <= j < p2.len() && eligible(p2[j]) implies exists|
                        a: int,
                    | 0 <= a < nodes@.len() && #[trigger] nodes@[a].0@ == source_key(p2[j]) by {
                        assert(j < p.len());
                        assert(p2[j] == p[j]);
                    }
                }
            }
            t = t + 1;
        }
        proof {
            assert(files@.take(files@.len() as int) =~= files@);
        }
        let index = if !system_index.as_str().is_empty() {
            system_index
        } else {
            index_body
        };
        WikiGraph { nodes, index, raw_dir, wiki_dir }
    }
}


/// Index of the first node stored under `k`.
pub open spec fn key_index(nodes: Seq<(String, WikiNode)>, k: Seq<char>) -> Option<int>
    decreases nodes.len(),
{
    if nodes.len() == 0 {
        None
    } else {
        match key_index(nodes.drop_last(), k) {
            Some(i) => Some(i),
            None => if nodes.last().0@ == k {
                Some(nodes.len() - 1)
            } else {
                None
            },
        }
    }
}

pub proof fn lemma_key_index(nodes: Seq<(String, WikiNode)>, k: Seq<char>)
    ensures
        key_index(nodes, k) matches Some(i) ==> 0 <= i < nodes.len() && nodes[i].0@ == k && forall|
            j: int,
        | 0 <= j < i ==> nodes[j].0@ != k,
        key_index(nodes, k) is None ==> forall|j: int| 0 <= j < nodes.len() ==> nodes[j].0@ != k,
    decreases nodes.len(),
{
    if nodes.len() > 0 {
        let t = nodes.drop_last();
        lemma_key_index(t, k);
        assert forall|j: int| 0 <= j < t.len() implies t[j] == nodes[j] by {}
    }
}

/// Views of a sequence of string slices.
pub open spec fn str_views(v: Seq<&str>) -> Seq<Seq<char>> {
    v.map_values(|s: &str| s@)
}

/// The listing filter: no filter keeps every node; otherwise the lower-cased
/// title or summary must contain the lower-cased filter.
pub open spec fn list_passes(n: WikiNode, filter: Option<Seq<char>>) -> bool {
    match filter {
        None => true,
        Some(q) => contains(unicode_lower(n.title@), unicode_lower(q)) || contains(
            unicode_lower(n.summary@),
            unicode_lower(q),
        ),
    }
}

/// Positions, in order, of the first `n` nodes that pass the list filter.
pub open spec fn passing_indices(nodes: Seq<(String, WikiNode)>, filter: Option<Seq<char>>, n: int) -> Seq<
    int,
>
    decreases n,
{
    if n <= 0 {
        Seq::empty()
    } else {
        let rest = passing_indices(nodes, filter, n - 1);
        if list_passes(nodes[n - 1].1, filter) {
            rest.push(n - 1)
        } else {
            rest
        }
    }
}

/// The (title, summary) entry of the node at position `k`.
pub open spec fn entry_at(nodes: Seq<(String, WikiNode)>) -> spec_fn(int) -> (Seq<char>, Seq<char>) {
    |k: int| (nodes[k].1.title@, nodes[k].1.summary@)
}

/// The entries of the nodes that pass the list filter, in node order.
pub open spec fn list_entries(nodes: Seq<(String, WikiNode)>, filter: Option<Seq<char>>) -> Seq<
    (Seq<char>, Seq<char>),
> {
    passing_indices(nodes, filter, nodes.len() as int).map_values(entry_at(nodes))
}

/// `entries` are the (title, summary) entries of the nodes that pass the
/// filter, each as often as it occurs among the nodes, sorted by title.
pub open spec fn sorted_listing(
    nodes: Seq<(String, WikiNode)>,
    filter: Option<Seq<char>>,
    entries: Seq<(Seq<char>, Seq<char>)>,
) -> bool {
    &&& forall|j: int| 0 <= j < entries.len() - 1 ==> #[trigger] crate::sorting::seq_le(entries[j].0, entries[j + 1].0)
    &&& entries.to_multiset() == list_entries(nodes, filter).to_multiset()
}

/// Without a filter every node passes, in order.
pub proof fn lemma_passing_all(nodes: Seq<(String, WikiNode)>, n: int)
    requires
        0 <= n <= nodes.len(),
    ensures
        passing_indices(nodes, None, n) == Seq::new(n as nat, |k: int| k),
    decreases n,
{
    if n > 0 {
        lemma_passing_all(nodes, n - 1);
    }
    assert(passing_indices(nodes, None, n) =~= Seq::new(n as nat, |k: int| k));
}

/// The characters of listed entries.
pub open spec fn entry_views(r: Seq<(&str, &str)>) -> Seq<(Seq<char>, Seq<char>)> {
    r.map_values(|e: (&str, &str)| (e.0@, e.1@))
}

/// The search filter: the lower-cased title, body or summary contains the
/// lower-cased query.
pub open spec fn search_passes(n: WikiNode, q: Seq<char>) -> bool {
    let ql = unicode_lower(q);
    contains(unicode_lower(n.title@), ql) || contains(unicode_lower(n.body@), ql) || contains(
        unicode_lower(n.summary@),
        ql,
    )
}

/// Positions, in order, of the first `n` nodes that match the search query.
pub open spec fn search_indices(nodes: Seq<(String, WikiNode)>, q: Seq<char>, n: int) -> Seq<int>
    decreases n,
{
    if n <= 0 {
        Seq::empty()
    } else {
        let rest = search_indices(nodes, q, n - 1);
        if search_passes(nodes[n - 1].1, q) {
            rest.push(n - 1)
        } else {
            rest
        }
    }
}

/// The nodes that match the search query, in node order.
pub open spec fn search_results(nodes: Seq<(String, WikiNode)>, q: Seq<char>) -> Seq<WikiNode> {
    search_indices(nodes, q, nodes.len() as int).map_values(|k: int| nodes[k].1)
}

/// Titles of the nodes (in node order) whose links contain `target`.
pub open spec fn backlink_titles(nodes: Seq<(String, WikiNode)>, target: Seq<char>) -> Seq<
    Seq<char>,
>
    decreases nodes.len(),
{
    if nodes.len() == 0 {
        Seq::empty()
    } else {
        let rest = backlink_titles(nodes.drop_last(), target);
        if views(nodes.last().1.links@).contains(target) {
            rest.push(nodes.last().1.title@)
        } else {
            rest
        }
    }
}

fn list_test(n: &WikiNode, ql: &Option<Vec<char>>, Ghost(filter): Ghost<Option<Seq<char>>>) -> (b: bool)
    requires
        match filter {
            None => ql is None,
            Some(q) => ql matches Some(v) && v@ == unicode_lower(q),
        },
    ensures
        b == list_passes(*n, filter),
{
    match ql {
        None => true,
        Some(q) => {
            let t = chars_of(to_lowercase(n.title.as_str()).as_str());
            let s = chars_of(to_lowercase(n.summary.as_str()).as_str());
            contains_exec(t.as_slice(), q.as_slice()) || contains_exec(s.as_slice(), q.as_slice())
        },
    }
}

fn search_test(n: &WikiNode, ql: &Vec<char>, Ghost(query): Ghost<Seq<char>>) -> (b: bool)
    requires
        ql@ == unicode_lower(query),
    ensures
        b == search_passes(*n, query),
{
    let t = chars_of(to_lowercase(n.title.as_str()).as_str());
    let bd = chars_of(to_lowercase(n.body.as_str()).as_str());
    let s = chars_of(to_lowercase(n.summary.as_str()).as_str());
    contains_exec(t.as_slice(), ql.as_slice()) || contains_exec(bd.as_slice(), ql.as_slice())
        || contains_exec(s.as_slice(), ql.as_slice())
}

/// Title of the node at index `i`.
pub open spec fn title_at(nodes: Seq<(String, WikiNode)>) -> spec_fn(usize) -> Seq<char> {
    |i: usize| nodes[i as int].1.title@
}

/// Sorts node indices by the title of the node.
fn sort_by_title(nodes: &Vec<(String, WikiNode)>, idx: Vec<usize>) -> (r: Vec<usize>)
    requires
        forall|j: int| 0 <= j < idx@.len() ==> idx@[j] < nodes@.len(),
    ensures
        r@.to_multiset() == idx@.to_multiset(),
        r@.len() == idx@.len(),
        sorted_by(r@, title_at(nodes@)),
        forall|j: int| 0 <= j < r@.len() ==> r@[j] < nodes@.len(),
{
    let mut keys: Vec<Vec<char>> = Vec::new();
    let mut j: usize = 0;
    while j < idx.len()
        invariant
            j <= idx@.len(),
            keys@.len() == j,
            forall|a: int| 0 <= a < idx@.len() ==> idx@[a] < nodes@.len(),
            forall|a: int| 0 <= a < j ==> #[trigger] keys@[a]@ == title_at(nodes@)(idx@[a]),
        decreases idx@.len() - j,
    {
        keys.push(chars_of(nodes[idx[j]].1.title.as_str()));
        j = j + 1;
    }
    let ghost orig = idx@;
    let r = sort_by_keys(idx, keys, Ghost(title_at(nodes@)));
    proof {
        broadcast use vstd::seq_lib::group_to_multiset_ensures;
        assert forall|a: int| 0 <= a < r@.len() implies r@[a] < nodes@.len() by {
            assert(r@.to_multiset().count(r@[a]) > 0);
            assert(orig.contains(r@[a]));
        }
    }
    r
}

impl WikiGraph {
    /// Gets a node by name, case-insensitively: the node stored under the
    /// lower-cased name.
    pub fn get(&self, name: &str) -> (r: Option<&WikiNode>)
        ensures
            match key_index(self.nodes@, unicode_lower(name@)) {
                Some(i) => r == Some(&self.nodes@[i].1),
                None => r is None,
            },
            crate::text::all_ascii(name@) ==> match key_index(
                self.nodes@,
                crate::text::ascii_lower(name@),
            ) {
                Some(i) => r == Some(&self.nodes@[i].1),
                None => r is None,
            },
            graph_wf(self.nodes@) ==> match r {
                Some(n) => unicode_lower(n.title@) == unicode_lower(name@),
                None => forall|i: int|
                    0 <= i < self.nodes@.len() ==> unicode_lower(#[trigger] self.nodes@[i].1.title@)
                        != unicode_lower(name@),
            },
    {
        let key = to_lowercase(name);
        proof {
            lemma_key_index(self.nodes@, unicode_lower(name@));
            if graph_wf(self.nodes@) {
                assert forall|i: int| 0 <= i < self.nodes@.len() implies self.nodes@[i].0@
                    == unicode_lower(#[trigger] self.nodes@[i].1.title@) by {}
            }
        }
        match find_key(&self.nodes, key.as_str()) {
            Some(i) => Some(&self.nodes[i].1),
            None => None,
        }
    }

    /// All nodes as (title, summary), sorted by title; with a filter, only
    /// those whose title or summary contains it, case-insensitively.
    pub fn list(&self, filter: Option<&str>) -> (r: Vec<(&str, &str)>)
        ensures
            forall|j: int|
                0 <= j < r@.len() - 1 ==> #[trigger] crate::sorting::seq_le(
                    r@[j].0@,
                    r@[j + 1].0@,
                ),
            forall|j: int| 0 <= j < r@.len() ==> #[trigger] listed(r@[j], self.nodes@, opt_view(filter)),
            forall|i: int|
                0 <= i < self.nodes@.len() && list_passes(self.nodes@[i].1, opt_view(filter))
                    ==> exists|j: int|
                    0 <= j < r@.len() && #[trigger] r@[j].0@ == self.nodes@[i].1.title@
                        && r@[j].1@ == self.nodes@[i].1.summary@,
            entry_views(r@).to_multiset() == list_entries(self.nodes@, opt_view(filter)).to_multiset(),
            sorted_listing(self.nodes@, opt_view(filter), entry_views(r@)),
    {
        let ql: Option<Vec<char>> = match filter {
            None => None,
            Some(q) => Some(chars_of(to_lowercase(q).as_str())),
        };
        let mut idx: Vec<usize> = Vec::new();
        let mut i: usize = 0;
        while i < self.nodes.len()
            invariant
                i <= self.nodes@.len(),
                match opt_view(filter) {
                    None => ql is None,
                    Some(q) => ql matches Some(v) && v@ == unicode_lower(q),
                },
                forall|a: int| 0 <= a < idx@.len() ==> idx@[a] < i,
                forall|a: int|
                    0 <= a < idx@.len() ==> list_passes(
                        #[trigger] self.nodes@[idx@[a] as int].1,
                        opt_view(filter),
                    ),
                forall|b: int|
                    0 <= b < i && list_passes(self.nodes@[b].1, opt_view(filter)) ==> idx@.contains(
                        b as usize,
                    ),
                idx@.map_values(|k: usize| k as int) == passing_indices(self.nodes@, opt_view(filter), i as int),
            decreases self.nodes@.len() - i,
        {
            if list_test(&self.nodes[i].1, &ql, Ghost(opt_view(filter))) {
                let ghost before = idx@;
                idx.push(i);
                proof {
                    assert(idx@.map_values(|k: usize| k as int) =~= before.map_values(|k: usize| k as int).push(i as int));
                    assert forall|b: int|
                        0 <= b < i && list_passes(
                            self.nodes@[b].1,
                            opt_view(filter),
                        ) implies idx@.contains(b as usize) by {
                        let a = choose|a: int| 0 <= a < before.len() && before[a] == b as usize;
                        assert(idx@[a] == b as usize);
                    }
                    assert(idx@[before.len() as int] == i);
                }
            }
            i = i + 1;
        }
        let ghost passing = idx@;
        let order = sort_by_title(&self.nodes, idx);
        let mut r: Vec<(&str, &str)> = Vec::new();
        let mut j: usize = 0;
        while j < order.len()
            invariant
                j <= order@.len(),
                r@.len() == j,
                forall|a: int| 0 <= a < order@.len() ==> order@[a] < self.nodes@.len(),
                forall|a: int|
                    #![trigger r@[a]]
                    0 <= a < j ==> r@[a].0@ == self.nodes@[order@[a] as int].1.title@ && r@[a].1@
                        == self.nodes@[order@[a] as int].1.summary@,
            decreases order@.len() - j,
        {
            let n = &self.nodes[order[j]].1;
            r.push((n.title.as_str(), n.summary.as_str()));
            j = j + 1;
        }
        proof {
            broadcast use vstd::seq_lib::group_to_multiset_ensures;
            assert forall|a: int| 0 <= a < r@.len() - 1 implies #[trigger] crate::sorting::seq_le(
                r@[a].0@,
                r@[a + 1].0@,
            ) by {
                assert(crate::sorting::seq_le(
                    title_at(self.nodes@)(order@[a]),
                    title_at(self.nodes@)(order@[a + 1]),
                ));
            }
            assert forall|a: int| 0 <= a < r@.len() implies #[trigger] listed(
                r@[a],
                self.nodes@,
                opt_view(filter),
            ) by {
                assert(order@.to_multiset().count(order@[a]) > 0);
                assert(passing.contains(order@[a]));
                let k = choose|k: int| 0 <= k < passing.len() && passing[k] == order@[a];
                let i = order@[a] as int;
                assert(list_passes(self.nodes@[passing[k] as int].1, opt_view(filter)));
                assert(list_passes(self.nodes@[i].1, opt_view(filter)) && r@[a].0@
                    == self.nodes@[i].1.title@ && r@[a].1@ == self.nodes@[i].1.summary@);
                assert(0 <= i < self.nodes@.len());
            }
            assert forall|i: int|
                0 <= i < self.nodes@.len() && list_passes(
                    self.nodes@[i].1,
                    opt_view(filter),
                ) implies exists|a: int|
                0 <= a < r@.len() && #[trigger] r@[a].0@ == self.nodes@[i].1.title@ && r@[a].1@
                    == self.nodes@[i].1.summary@ by {
                assert(passing.contains(i as usize));
                assert(passing.to_multiset().count(i as usize) > 0);
                assert(order@.contains(i as usize));
                let a = choose|a: int| 0 <= a < order@.len() && order@[a] == i as usize;
                assert(r@[a].0@ == self.nodes@[i].1.title@);
            }
            let f = |k: usize| entry_at(self.nodes@)(k as int);
            crate::sorting::lemma_map_multiset(order@, passing, f);
            assert(entry_views(r@) =~= order@.map_values(f));
            assert(passing.map_values(f) =~= passing.map_values(|k: usize| k as int).map_values(
                entry_at(self.nodes@),
            ));
            let ev = entry_views(r@);
            assert forall|j: int| 0 <= j < ev.len() - 1 implies #[trigger] crate::sorting::seq_le(
                ev[j].0,
                ev[j + 1].0,
            ) by {
                assert(crate::sorting::seq_le(r@[j].0@, r@[j + 1].0@));
            }
        }
        r
    }

    /// Nodes whose title, body or summary contains the query
    /// (case-insensitive), sorted by title.
    pub fn search(&self, query: &str) -> (r: Vec<&WikiNode>)
        ensures
            forall|j: int|
                0 <= j < r@.len() - 1 ==> #[trigger] crate::sorting::seq_le(
                    r@[j].title@,
                    r@[j + 1].title@,
                ),
            forall|j: int| 0 <= j < r@.len() ==> #[trigger] found_in(r@[j], self.nodes@, query@),
            forall|i: int|
                0 <= i < self.nodes@.len() && search_passes(self.nodes@[i].1, query@) ==> exists|
                    j: int,
                | 0 <= j < r@.len() && #[trigger] r@[j] == &self.nodes@[i].1,
            r@.map_values(|n: &WikiNode| *n).to_multiset() == search_results(self.nodes@, query@).to_multiset(),
    {
        let ql = chars_of(to_lowercase(query).as_str());
        let mut idx: Vec<usize> = Vec::new();
        let mut i: usize = 0;
        while i < self.nodes.len()
            invariant
                i <= self.nodes@.len(),
                ql@ == unicode_lower(query@),
                forall|a: int| 0 <= a < idx@.len() ==> idx@[a] < i,
                forall|a: int|
                    0 <= a < idx@.len() ==> search_passes(
                        #[trigger] self.nodes@[idx@[a] as int].1,
                        query@,
                    ),
                forall|b: int|
                    0 <= b < i && search_passes(self.nodes@[b].1, query@) ==> idx@.contains(
                        b as usize,
                    ),
                idx@.map_values(|k: usize| k as int) == search_indices(self.nodes@, query@, i as int),
            decreases self.nodes@.len() - i,
        {
            if search_test(&self.nodes[i].1, &ql, Ghost(query@)) {
                let ghost before = idx@;
                idx.push(i);
                proof {
                    assert(idx@.map_values(|k: usize| k as int) =~= before.map_values(|k: usize| k as int).push(i as int));
                    assert forall|b: int|
                        0 <= b < i && search_passes(
                            self.nodes@[b].1,
                            query@,
                        ) implies idx@.contains(b as usize) by {
                        let a = choose|a: int| 0 <= a < before.len() && before[a] == b as usize;
                        assert(idx@[a] == b as usize);
                    }
                    assert(idx@[before.len() as int] == i);
                }
            }
            i = i + 1;
        }
        let ghost passing = idx@;
        let order = sort_by_title(&self.nodes, idx);
        let mut r: Vec<&WikiNode> = Vec::new();
        let mut j: usize = 0;
        while j < order.len()
            invariant
                j <= order@.len(),
                r@.len() == j,
                forall|a: int| 0 <= a < order@.len() ==> order@[a] < self.nodes@.len(),
                forall|a: int| 0 <= a < j ==> #[trigger] r@[a] == &self.nodes@[order@[a] as int].1,
            decreases order@.len() - j,
        {
            r.push(&self.nodes[order[j]].1);
            j = j + 1;
        }
        proof {
            broadcast use vstd::seq_lib::group_to_multiset_ensures;
            assert forall|a: int| 0 <= a < r@.len() - 1 implies #[trigger] crate::sorting::seq_le(
                r@[a].title@,
                r@[a + 1].title@,
            ) by {
                assert(crate::sorting::seq_le(
                    title_at(self.nodes@)(order@[a]),
                    title_at(self.nodes@)(order@[a + 1]),
                ));
            }
            assert forall|a: int| 0 <= a < r@.len() implies #[trigger] found_in(
                r@[a],
                self.nodes@,
                query@,
            ) by {
                assert(order@.to_multiset().count(order@[a]) > 0);
                assert(passing.contains(order@[a]));
                let k = choose|k: int| 0 <= k < passing.len() && passing[k] == order@[a];
                let i = order@[a] as int;
                assert(search_passes(self.nodes@[passing[k] as int].1, query@));
                assert(search_passes(self.nodes@[i].1, query@) && r@[a] == &self.nodes@[i].1);
            }
            assert forall|i: int|
                0 <= i < self.nodes@.len() && search_passes(
                    self.nodes@[i].1,
                    query@,
                ) implies exists|a: int| 0 <= a < r@.len() && #[trigger] r@[a] == &self.nodes@[i].1 by {
                assert(passing.contains(i as usize));
                assert(passing.to_multiset().count(i as usize) > 0);
                assert(order@.contains(i as usize));
                let a = choose|a: int| 0 <= a < order@.len() && order@[a] == i as usize;
                assert(r@[a] == &self.nodes@[i].1);
            }
            let f = |k: usize| self.nodes@[k as int].1;
            crate::sorting::lemma_map_multiset(order@, passing, f);
            assert(r@.map_values(|n: &WikiNode| *n) =~= order@.map_values(f));
            assert(passing.map_values(f) =~= passing.map_values(|k: usize| k as int).map_values(
                |k: int| self.nodes@[k].1,
            ));
        }
        r
    }

    /// Outgoing links of the named node; empty when there is no such node.
    pub fn get_links(&self, name: &str) -> (r: Vec<&str>)
        ensures
            match key_index(self.nodes@, unicode_lower(name@)) {
                Some(i) => str_views(r@) == views(self.nodes@[i].1.links@),
                None => r@.len() == 0,
            },
    {
        let mut r: Vec<&str> = Vec::new();
        match self.get(name) {
            Some(n) => {
                let mut j: usize = 0;
                while j < n.links.len()
                    invariant
                        j <= n.links@.len(),
                        str_views(r@) == views(n.links@.take(j as int)),
                    decreases n.links@.len() - j,
                {
                    let ghost before = r@;
                    r.push(n.links[j].as_str());
                    j = j + 1;
                    proof {
                        assert(n.links@.take(j as int) =~= n.links@.take(j - 1).push(n.links@[j - 1]));
                        assert(str_views(r@) =~= str_views(before).push(n.links@[j - 1]@));
                        assert(views(n.links@.take(j as int)) =~= views(n.links@.take(j - 1)).push(
                            n.links@[j - 1]@,
                        ));
                    }
                }
                proof {
                    assert(n.links@.take(n.links@.len() as int) =~= n.links@);
                }
                r
            },
            None => r,
        }
    }

    /// Titles of the nodes that link to the named node (case-insensitive).
    pub fn get_backlinks(&self, name: &str) -> (r: Vec<&str>)
        ensures
            str_views(r@) == backlink_titles(self.nodes@, unicode_lower(name@)),
    {
        let target = to_lowercase(name);
        let mut r: Vec<&str> = Vec::new();
        let mut i: usize = 0;
        proof {
            assert(self.nodes@.take(0) =~= Seq::<(String, WikiNode)>::empty());
            assert(str_views(r@) =~= Seq::<Seq<char>>::empty());
        }
        while i < self.nodes.len()
            invariant
                i <= self.nodes@.len(),
                target@ == unicode_lower(name@),
                str_views(r@) == backlink_titles(self.nodes@.take(i as int), target@),
            decreases self.nodes@.len() - i,
        {
            let n = &self.nodes[i].1;
            let mut found = false;
            let mut j: usize = 0;
            while j < n.links.len()
                invariant
                    j <= n.links@.len(),
                    found == views(n.links@.take(j as int)).contains(target@),
                decreases n.links@.len() - j,
            {
                let ghost prev = views(n.links@.take(j as int));
                let ghost next = views(n.links@.take(j + 1));
                proof {
                    assert(next =~= prev.push(n.links@[j as int]@));
                    if next.contains(target@) {
                        let a = choose|a: int| 0 <= a < next.len() && next[a] == target@;
                        if a < prev.len() {
                            assert(prev[a] == target@);
                        }
                    }
                    if prev.contains(target@) {
                        let a = choose|a: int| 0 <= a < prev.len() && prev[a] == target@;
                        assert(next[a] == target@);
                    }
                    if n.links@[j as int]@ == target@ {
                        assert(next[prev.len() as int] == target@);
                    }
                }
                if n.links[j] == target {
                    found = true;
                }
                j = j + 1;
            }
            proof {
                assert(n.links@.take(n.links@.len() as int) =~= n.links@);
                assert(self.nodes@.take(i + 1).drop_last() =~= self.nodes@.take(i as int));
                assert(self.nodes@.take(i + 1).last() == self.nodes@[i as int]);
            }
            let ghost before = r@;
            if found {
                r.push(n.title.as_str());
                proof {
                    assert(str_views(r@) =~= str_views(before).push(n.title@));
                }
            }
            i = i + 1;
        }
        proof {
            assert(self.nodes@.take(self.nodes@.len() as int) =~= self.nodes@);
        }
        r
    }

    /// Body of the index file.
    pub fn index_body(&self) -> (r: &str)
        ensures
            r@ == self.index@,
    {
        self.index.as_str()
    }

    /// Number of nodes.
    pub fn len(&self) -> (r: usize)
        ensures
            r == self.nodes@.len(),
    {
        self.nodes.len()
    }

    /// Whether the graph has no node.
    pub fn is_empty(&self) -> (r: bool)
        ensures
            r == (self.nodes@.len() == 0),
    {
        self.nodes.len() == 0
    }
}

/// `entry` is the (title, summary) of a node that passes the listing filter.
pub open spec fn listed(
    entry: (&str, &str),
    nodes: Seq<(String, WikiNode)>,
    filter: Option<Seq<char>>,
) -> bool {
    exists|i: int|
        #![trigger nodes[i]]
        0 <= i < nodes.len() && list_passes(nodes[i].1, filter) && entry.0@ == nodes[i].1.title@
            && entry.1@ == nodes[i].1.summary@
}

/// `n` is a node of `nodes` that matches the search query.
pub open spec fn found_in(n: &WikiNode, nodes: Seq<(String, WikiNode)>, query: Seq<char>) -> bool {
    exists|i: int|
        #![trigger nodes[i]]
        0 <= i < nodes.len() && search_passes(nodes[i].1, query) && *n == nodes[i].1
}

/// View of an optional string slice.
pub open spec fn opt_view(o: Option<&str>) -> Option<Seq<char>> {
    match o {
        Some(s) => Some(s@),
        None => None,
    }
}


/// Reading after building: in a graph built from `files`, the name whose
/// lower-cased form is `k` finds a node exactly when some eligible file has
/// that key, and the node found is the one built from the last such file.
pub proof fn law_get_after_build(
    nodes: Seq<(String, WikiNode)>,
    files: Seq<SourceFile>,
    k: Seq<char>,
)
    requires
        built_from(nodes, files),
    ensures
        key_index(nodes, k) is Some <==> last_source(files, k) is Some,
        key_index(nodes, k) matches Some(i) ==> node_matches(
            nodes[i].1,
            files[last_source(files, k)->0],
        ),
{
    lemma_key_index(nodes, k);
    lemma_last_source_range(files, k);
    if let Some(j) = last_source(files, k) {
        let i = choose|i: int| 0 <= i < nodes.len() && #[trigger] nodes[i].0@ == source_key(files[j]);
        assert(nodes[i].0@ == k);
    }
}

/// In a graph whose keys are distinct, the node stored under key `k` is
/// found by looking `k` up.
proof fn lemma_key_index_distinct(nodes: Seq<(String, WikiNode)>, i: int)
    requires
        forall|a: int, b: int| 0 <= a < b < nodes.len() ==> nodes[a].0@ != nodes[b].0@,
        0 <= i < nodes.len(),
    ensures
        key_index(nodes, nodes[i].0@) == Some(i),
{
    lemma_key_index(nodes, nodes[i].0@);
}

/// A title is among the backlink titles of `target` exactly when some node
/// with that title links to `target`.
proof fn lemma_backlink_titles_member(nodes: Seq<(String, WikiNode)>, target: Seq<char>, t: Seq<char>)
    ensures
        backlink_titles(nodes, target).contains(t) <==> exists|i: int|
            0 <= i < nodes.len() && #[trigger] nodes[i].1.title@ == t && views(
                nodes[i].1.links@,
            ).contains(target),
    decreases nodes.len(),
{
    if nodes.len() > 0 {
        let prev = nodes.drop_last();
        lemma_backlink_titles_member(prev, target, t);
        let bl = backlink_titles(nodes, target);
        let pb = backlink_titles(prev, target);
        let last = nodes.len() - 1;
        if bl.contains(t) {
            let j = choose|j: int| 0 <= j < bl.len() && bl[j] == t;
            if j < pb.len() && (views(nodes.last().1.links@).contains(target) ==> j < bl.len() - 1) {
                assert(pb[j] == t);
                assert(pb.contains(t));
                let i = choose|i: int|
                    0 <= i < prev.len() && #[trigger] prev[i].1.title@ == t && views(
                        prev[i].1.links@,
                    ).contains(target);
                assert(nodes[i] == prev[i]);
            } else {
                assert(nodes[last] == nodes.last());
            }
        }
        if exists|i: int|
            0 <= i < nodes.len() && #[trigger] nodes[i].1.title@ == t && views(
                nodes[i].1.links@,
            ).contains(target) {
            let i = choose|i: int|
                0 <= i < nodes.len() && #[trigger] nodes[i].1.title@ == t && views(
                    nodes[i].1.links@,
                ).contains(target);
            if i < last {
                assert(prev[i] == nodes[i]);
                assert(pb.contains(t));
                let j = choose|j: int| 0 <= j < pb.len() && pb[j] == t;
                assert(bl[j] == t);
            } else {
                assert(nodes[i] == nodes.last());
                assert(bl[bl.len() - 1] == t);
            }
        }
    }
}

/// Looking names up ignores case: two names with the same lower-cased form
/// find the same node.
pub proof fn law_lookup_ignores_case(g: WikiGraph, a: Seq<char>, b: Seq<char>)
    requires
        unicode_lower(a) == unicode_lower(b),
    ensures
        key_index(g.nodes@, unicode_lower(a)) == key_index(g.nodes@, unicode_lower(b)),
{
}

/// In a well-formed graph the backlinks of `x` are the titles of exactly the
/// nodes that link to `x` (lower-cased), and looking up any of those titles
/// finds a node whose links contain `x` (lower-cased).
pub proof fn law_backlinks_link_back(g: WikiGraph, x: Seq<char>)
    requires
        graph_wf(g.nodes@),
    ensures
        forall|t: Seq<char>|
            #![trigger backlink_titles(g.nodes@, unicode_lower(x)).contains(t)]
            backlink_titles(g.nodes@, unicode_lower(x)).contains(t) <==> exists|i: int|
                0 <= i < g.nodes@.len() && #[trigger] g.nodes@[i].1.title@ == t && views(
                    g.nodes@[i].1.links@,
                ).contains(unicode_lower(x)),
        forall|j: int|
            0 <= j < backlink_titles(g.nodes@, unicode_lower(x)).len() ==> (key_index(
                g.nodes@,
                unicode_lower(#[trigger] backlink_titles(g.nodes@, unicode_lower(x))[j]),
            ) matches Some(i) && views(g.nodes@[i].1.links@).contains(unicode_lower(x))),
{
    let nodes = g.nodes@;
    let target = unicode_lower(x);
    let bl = backlink_titles(nodes, target);
    assert forall|t: Seq<char>| #![trigger bl.contains(t)]
        bl.contains(t) <==> exists|i: int|
            0 <= i < nodes.len() && #[trigger] nodes[i].1.title@ == t && views(
                nodes[i].1.links@,
            ).contains(target) by {
        lemma_backlink_titles_member(nodes, target, t);
    }
    assert forall|j: int| 0 <= j < bl.len() implies (key_index(nodes, unicode_lower(#[trigger] bl[j]))
        matches Some(i) && views(nodes[i].1.links@).contains(target)) by {
        let t = bl[j];
        assert(bl.contains(t));
        lemma_backlink_titles_member(nodes, target, t);
        let i = choose|i: int|
            0 <= i < nodes.len() && #[trigger] nodes[i].1.title@ == t && views(
                nodes[i].1.links@,
            ).contains(target);
        assert(nodes[i].0@ == unicode_lower(nodes[i].1.title@));
        lemma_key_index_distinct(nodes, i);
    }
}

/// ASCII lower-casing twice changes nothing more than once.
pub proof fn lemma_ascii_lower_idempotent(s: Seq<char>)
    ensures
        crate::text::ascii_lower(crate::text::ascii_lower(s)) == crate::text::ascii_lower(s),
        crate::text::all_ascii(s) ==> crate::text::all_ascii(crate::text::ascii_lower(s)),
{
    let l = crate::text::ascii_lower(s);
    assert(crate::text::ascii_lower(l) =~= l);
    if crate::text::all_ascii(s) {
        assert forall|i: int| 0 <= i < l.len() implies (#[trigger] l[i] as u32) < 128 by {
            assert((s[i] as u32) < 128);
        }
    }
}

/// For an ASCII name, looking the name up and looking its lower-cased form
/// up (the lookups `get` makes on ASCII names) find the same node: for
/// example `get("RUST")` and `get("rust")` agree.
pub proof fn law_ascii_lookup_ignores_case(g: WikiGraph, name: Seq<char>)
    requires
        crate::text::all_ascii(name),
    ensures
        crate::text::all_ascii(crate::text::ascii_lower(name)),
        key_index(g.nodes@, crate::text::ascii_lower(crate::text::ascii_lower(name))) == key_index(
            g.nodes@,
            crate::text::ascii_lower(name),
        ),
{
    lemma_ascii_lower_idempotent(name);
}

/// A node is titled by its file's frontmatter `name` when there is one,
/// whether or not a `title` is also given; else by the frontmatter `title`;
/// else by the file's stem.
pub proof fn law_node_title_prefers_name(n: WikiNode, f: SourceFile)
    requires
        node_matches(n, f),
    ensures
        frontmatter_map(f.content@).contains_key("name"@) ==> n.title@ == frontmatter_map(
            f.content@,
        )["name"@],
        !frontmatter_map(f.content@).contains_key("name"@) && frontmatter_map(
            f.content@,
        ).contains_key("title"@) ==> n.title@ == frontmatter_map(f.content@)["title"@],
        !frontmatter_map(f.content@).contains_key("name"@) && !frontmatter_map(
            f.content@,
        ).contains_key("title"@) ==> n.title@ == f.stem@,
{
}

/// A page whose frontmatter names it is found by that name: in a graph
/// built from the files, looking up the lower-cased name of any eligible
/// file with a `name` finds a node whose title lower-cases to it.
pub proof fn law_named_page_found_by_name(
    nodes: Seq<(String, WikiNode)>,
    files: Seq<SourceFile>,
    j: int,
)
    requires
        built_from(nodes, files),
        0 <= j < files.len(),
        eligible(files[j]),
        frontmatter_map(files[j].content@).contains_key("name"@),
    ensures
        key_index(nodes, unicode_lower(frontmatter_map(files[j].content@)["name"@])) matches Some(
            i,
        ) && unicode_lower(nodes[i].1.title@) == unicode_lower(
            frontmatter_map(files[j].content@)["name"@],
        ),
{
    let k = unicode_lower(frontmatter_map(files[j].content@)["name"@]);
    assert(source_key(files[j]) == k);
    let i0 = choose|i: int| 0 <= i < nodes.len() && #[trigger] nodes[i].0@ == source_key(files[j]);
    lemma_key_index(nodes, k);
    let i = key_index(nodes, k)->0;
    assert(nodes[i].0@ == unicode_lower(nodes[i].1.title@));
}

} // verus!
