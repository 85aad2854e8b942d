//! Wiki ingest and lint: which raw sources need ingesting, the agent's
//! prompts and tools, what each tool call does to the wiki, the run's
//! report, and the lint findings over the knowledge graph.
use vstd::prelude::*;
use crate::json::{JVal, Json};
use crate::text::{
    chars_of, contains, contains_exec, dec, ends_with, fmt_u64, push_all, push_str, string_of,
    trim, trim_chars, unicode_lower, views,
};
use crate::transport::{field_copy, jobj, new_obj, ToolDef};
use crate::wiki_graph::{WikiGraph, WikiNode};

verus! {

// ---------------------------------------------------------------------------
// Report
// ---------------------------------------------------------------------------

/// Report from an ingest run.
pub struct IngestReport {
    pub sources_processed: usize,
    pub nodes_created: usize,
    pub nodes_appended: usize,
    pub errors: Vec<String>,
}

/// `Ingest: {n} sources → {c} created, {a} appended, {e} errors`.
pub open spec fn summary_text(r: IngestReport) -> Seq<char> {
    "Ingest: "@ + dec(r.sources_processed as nat) + " sources → "@ + dec(r.nodes_created as nat)
        + " created, "@ + dec(r.nodes_appended as nat) + " appended, "@ + dec(
        r.errors@.len() as nat,
    ) + " errors"@
}

impl IngestReport {
    /// An empty report.
    pub fn new() -> (r: IngestReport)
        ensures
            r.sources_processed == 0,
            r.nodes_created == 0,
            r.nodes_appended == 0,
            r.errors@.len() == 0,
    {
        IngestReport { sources_processed: 0, nodes_created: 0, nodes_appended: 0, errors: Vec::new() }
    }

    /// One line summarising the run.
    pub fn summary(&self) -> (r: String)
        ensures
            r@ == summary_text(*self),
    {
        let mut v = chars_of("Ingest: ");
        push_all(&mut v, fmt_u64(self.sources_processed as u64).as_slice());
        push_str(&mut v, " sources → ");
        push_all(&mut v, fmt_u64(self.nodes_created as u64).as_slice());
        push_str(&mut v, " created, ");
        push_all(&mut v, fmt_u64(self.nodes_appended as u64).as_slice());
        push_str(&mut v, " appended, ");
        push_all(&mut v, fmt_u64(self.errors.len() as u64).as_slice());
        push_str(&mut v, " errors");
        string_of(v.as_slice())
    }

    /// Records a source the agent finished: processed when none of its
    /// `write_node` calls failed, else its write errors are kept; nodes the
    /// reloaded graph gained count as created.
    pub fn record_source(
        &mut self,
        write_errors: Vec<String>,
        nodes_before: usize,
        nodes_after: Option<usize>,
    )
        requires
            old(self).sources_processed < usize::MAX,
            old(self).nodes_created + (match nodes_after {
                Some(a) => a,
                None => 0,
            }) <= usize::MAX,
        ensures
            final(self).sources_processed == old(self).sources_processed + (if write_errors@.len()
                == 0 {
                1int
            } else {
                0int
            }),
            final(self).errors@ == old(self).errors@ + write_errors@,
            final(self).nodes_created == old(self).nodes_created + match nodes_after {
                Some(a) => if a > nodes_before {
                    a - nodes_before
                } else {
                    0
                },
                None => 0,
            },
            final(self).nodes_appended == old(self).nodes_appended,
    {
        if write_errors.len() == 0 {
            self.sources_processed = self.sources_processed + 1;
        } else {
            let mut w = write_errors;
            self.errors.append(&mut w);
        }
        match nodes_after {
            Some(a) => if a > nodes_before {
                self.nodes_created = self.nodes_created + (a - nodes_before);
            },
            None => {},
        }
    }

    /// Records a failed source.
    pub fn record_error(&mut self, msg: String)
        ensures
            final(self).errors@ == old(self).errors@.push(msg),
            final(self).sources_processed == old(self).sources_processed,
            final(self).nodes_created == old(self).nodes_created,
            final(self).nodes_appended == old(self).nodes_appended,
    {
        self.errors.push(msg);
    }
}

// ---------------------------------------------------------------------------
// Sources
// ---------------------------------------------------------------------------

/// A file under the raw sources directory: its path and, when readable,
/// its modification time (seconds since the epoch).
pub struct RawEntry {
    pub path: String,
    pub modified: Option<i64>,
}

/// A markdown file modified after `since` (every markdown file when unset).
pub open spec fn wanted(e: RawEntry, since: Option<i64>) -> bool {
    ends_with(e.path@, ".md"@) && match e.modified {
        Some(ts) => match since {
            Some(s) => ts > s,
            None => true,
        },
        None => false,
    }
}

/// The wanted entries, in order, with their times.
pub open spec fn wanted_entries(es: Seq<RawEntry>, since: Option<i64>) -> Seq<(Seq<char>, i64)>
    decreases es.len(),
{
    if es.len() == 0 {
        Seq::empty()
    } else {
        let prev = wanted_entries(es.drop_last(), since);
        let e = es.last();
        if wanted(e, since) {
            prev.push((e.path@, e.modified->0))
        } else {
            prev
        }
    }
}

/// Paths and times, as values.
pub open spec fn pt_views(s: Seq<(String, i64)>) -> Seq<(Seq<char>, i64)> {
    s.map_values(|p: (String, i64)| (p.0@, p.1))
}

/// Sorted by time, oldest first.
pub open spec fn by_time(s: Seq<(Seq<char>, i64)>) -> bool {
    forall|i: int, j: int| 0 <= i < j < s.len() ==> s[i].1 <= s[j].1
}

/// Sorts entries by time, oldest first.
fn sort_by_time(v: Vec<(String, i64)>) -> (r: Vec<(String, i64)>)
    ensures
        pt_views(r@).to_multiset() == pt_views(v@).to_multiset(),
        by_time(pt_views(r@)),
{
    let mut src = v;
    let ghost orig = pt_views(src@);
    let mut out: Vec<(String, i64)> = Vec::new();
    proof {
        broadcast use vstd::seq_lib::group_to_multiset_ensures;
        broadcast use vstd::multiset::group_multiset_axioms;
        assert(pt_views(out@) =~= Seq::<(Seq<char>, i64)>::empty());
        assert(pt_views(out@).to_multiset() =~= vstd::multiset::Multiset::empty());
        assert(vstd::multiset::Multiset::<(Seq<char>, i64)>::empty().add(orig.to_multiset()) =~= orig.to_multiset());
    }
    while src.len() > 0
        invariant
            pt_views(out@).to_multiset().add(pt_views(src@).to_multiset()) == orig.to_multiset(),
            by_time(pt_views(out@)),
        decreases src@.len(),
    {
        let ghost before_src = pt_views(src@);
        let x = src.pop().unwrap();
        proof {
            assert(before_src =~= pt_views(src@).push((x.0@, x.1)));
            broadcast use vstd::seq_lib::group_to_multiset_ensures;
        }
        let mut j = out.len();
        while j > 0 && x.1 < out[j - 1].1
            invariant
                j <= out@.len(),
                forall|i: int| j <= i < out@.len() ==> x.1 < #[trigger] out@[i].1,
            decreases j,
        {
            j = j - 1;
        }
        let ghost before = out@;
        out.insert(j, x);
        proof {
            broadcast use vstd::seq_lib::group_to_multiset_ensures;
            assert(out@ == before.insert(j as int, x));
            assert(pt_views(out@) =~= pt_views(before).insert(j as int, (x.0@, x.1)));
            vstd::seq_lib::to_multiset_insert(pt_views(before), j as int, (x.0@, x.1));
            assert forall|a: int, b: int| 0 <= a < b < pt_views(out@).len() implies pt_views(
                out@,
            )[a].1 <= pt_views(out@)[b].1 by {
                let pb = pt_views(before);
                if b < j {
                    assert(pt_views(out@)[a] == pb[a] && pt_views(out@)[b] == pb[b]);
                } else if b == j {
                    assert(pt_views(out@)[a] == pb[a]);
                    assert(pb[j - 1].1 <= x.1);
                    if a < j - 1 {
                        assert(pb[a].1 <= pb[j - 1].1);
                    }
                } else if a < j {
                    assert(pt_views(out@)[a] == pb[a] && pt_views(out@)[b] == pb[b - 1]);
                    if a < b - 1 {
                        assert(pb[a].1 <= pb[b - 1].1);
                    }
                } else if a == j {
                    assert(pt_views(out@)[b] == pb[b - 1]);
                    assert(x.1 < before[b - 1].1);
                } else {
                    assert(pt_views(out@)[a] == pb[a - 1] && pt_views(out@)[b] == pb[b - 1]);
                }
            }
        }
    }
    proof {
        broadcast use vstd::seq_lib::group_to_multiset_ensures;
        broadcast use vstd::multiset::group_multiset_axioms;
        assert(pt_views(src@) =~= Seq::<(Seq<char>, i64)>::empty());
        assert(pt_views(out@).to_multiset().add(pt_views(src@).to_multiset()) =~= pt_views(out@).to_multiset());
    }
    out
}

/// The raw sources to ingest: markdown files modified after the last
/// ingest, oldest first.
pub fn select_sources(entries: &Vec<RawEntry>, since: Option<i64>) -> (r: Vec<(String, i64)>)
    ensures
        pt_views(r@).to_multiset() == wanted_entries(entries@, since).to_multiset(),
        by_time(pt_views(r@)),
{
    let mut picked: Vec<(String, i64)> = Vec::new();
    let mut i: usize = 0;
    proof {
        assert(entries@.take(0) =~= Seq::<RawEntry>::empty());
        assert(pt_views(picked@) =~= Seq::<(Seq<char>, i64)>::empty());
    }
    while i < entries.len()
        invariant
            i <= entries@.len(),
            pt_views(picked@) == wanted_entries(entries@.take(i as int), since),
        decreases entries@.len() - i,
    {
        proof {
            assert(entries@.take(i + 1).drop_last() =~= entries@.take(i as int));
            assert(entries@.take(i + 1).last() == entries@[i as int]);
        }
        let e = &entries[i];
        let md = crate::text::ends_with_str(chars_of(e.path.as_str()).as_slice(), ".md");
        let fresh = match e.modified {
            Some(ts) => match since {
                Some(s) => ts > s,
                None => true,
            },
            None => false,
        };
        if md && fresh {
            let ghost before = picked@;
            let ts = match e.modified {
                Some(t) => t,
                None => 0,
            };
            picked.push((e.path.clone(), ts));
            proof {
                assert(pt_views(picked@) =~= pt_views(before).push((e.path@, ts)));
            }
        }
        i = i + 1;
    }
    proof {
        assert(entries@.take(entries@.len() as int) =~= entries@);
    }
    sort_by_time(picked)
}

/// Whether the raw directory has sources newer than the last ingest.
pub fn needs_ingest(entries: &Vec<RawEntry>, last_ingest_at: Option<i64>) -> (b: bool)
    ensures
        b == (wanted_entries(entries@, last_ingest_at).len() > 0),
{
    let r = select_sources(entries, last_ingest_at);
    proof {
        broadcast use vstd::seq_lib::group_to_multiset_ensures;
        let w = wanted_entries(entries@, last_ingest_at);
        assert(pt_views(r@).len() == r@.len());
        if w.len() > 0 {
            assert(w.to_multiset().count(w[0]) > 0);
            assert(pt_views(r@).to_multiset().count(w[0]) > 0);
        } else {
            assert(w.to_multiset().len() == 0);
        }
    }
    r.len() > 0
}

/// The newest time seen, starting from the last ingest.
pub fn newest(max_ts: i64, ts: Option<i64>) -> (r: i64)
    ensures
        r == match ts {
            Some(t) => if t > max_ts {
                t
            } else {
                max_ts
            },
            None => max_ts,
        },
{
    match ts {
        Some(t) => if t > max_ts {
            t
        } else {
            max_ts
        },
        None => max_ts,
    }
}

/// Whether the ingest time moves forward and must be saved.
pub fn should_save_ingest_time(max_ts: i64, last_ingest_at: Option<i64>) -> (b: bool)
    ensures
        b == (max_ts > match last_ingest_at {
            Some(l) => l,
            None => 0,
        }),
{
    max_ts > match last_ingest_at {
        Some(l) => l,
        None => 0,
    }
}

/// Tool-call rounds the ingest agent gets: the configured hops, at least one.
pub fn max_hops(wiki_query_max_hops: i64) -> (r: u32)
    ensures
        r == (if wiki_query_max_hops < 1 {
            1
        } else {
            wiki_query_max_hops
        }) as u32,
{
    let h = if wiki_query_max_hops < 1 {
        1
    } else {
        wiki_query_max_hops
    };
    h as u32
}

// ---------------------------------------------------------------------------
// Agent prompts
// ---------------------------------------------------------------------------

/// The first 80 characters of a text.
pub open spec fn first80(s: Seq<char>) -> Seq<char> {
    if s.len() <= 80 {
        s
    } else {
        s.take(80)
    }
}

/// `- {title}: {summary}` lines, summaries cut to 80 characters when `cut`.
pub open spec fn node_lines(entries: Seq<(Seq<char>, Seq<char>)>, cut: bool) -> Seq<char>
    decreases entries.len(),
{
    if entries.len() == 0 {
        Seq::empty()
    } else {
        let line = "- "@ + entries.last().0 + ": "@ + if cut {
            first80(entries.last().1)
        } else {
            entries.last().1
        };
        if entries.len() == 1 {
            line
        } else {
            node_lines(entries.drop_last(), cut) + "\n"@ + line
        }
    }
}

/// Views of (title, summary) pairs.
pub open spec fn pair_views(s: Seq<(&str, &str)>) -> Seq<(Seq<char>, Seq<char>)> {
    s.map_values(|p: (&str, &str)| (p.0@, p.1@))
}

/// Joins `- {title}: {summary}` lines with newlines.
pub fn node_list_text(entries: &Vec<(&str, &str)>, cut: bool) -> (r: String)
    ensures
        r@ == node_lines(pair_views(entries@), cut),
{
    let ghost pv = pair_views(entries@);
    let mut v: Vec<char> = Vec::new();
    let mut i: usize = 0;
    proof {
        assert(pv.take(0) =~= Seq::<(Seq<char>, Seq<char>)>::empty());
    }
    while i < entries.len()
        invariant
            i <= entries@.len(),
            pv == pair_views(entries@),
            v@ == node_lines(pv.take(i as int), cut),
        decreases entries@.len() - i,
    {
        proof {
            assert(pv.take(i + 1).drop_last() =~= pv.take(i as int));
            assert(pv.take(i + 1).last() == pv[i as int]);
        }
        let ghost before = v@;
        if i > 0 {
            push_str(&mut v, "\n");
        }
        push_str(&mut v, "- ");
        push_str(&mut v, entries[i].0);
        push_str(&mut v, ": ");
        if cut {
            let s = chars_of(entries[i].1);
            let n = if s.len() <= 80 {
                s.len()
            } else {
                80
            };
            let c = crate::text::slice_chars(s.as_slice(), 0, n);
            proof {
                if s@.len() <= 80 {
                    assert(c@ =~= s@);
                }
            }
            push_all(&mut v, c.as_slice());
        } else {
            push_str(&mut v, entries[i].1);
        }
        proof {
            let line = "- "@ + pv[i as int].0 + ": "@ + if cut {
                first80(pv[i as int].1)
            } else {
                pv[i as int].1
            };
            if i == 0 {
                assert(v@ =~= line);
            } else {
                assert(v@ =~= before + "\n"@ + line);
            }
        }
        i = i + 1;
    }
    proof {
        assert(pv.take(entries@.len() as int) =~= pv);
    }
    string_of(v.as_slice())
}

/// The ingest agent's system prompt around the wiki's index and node list.
pub open spec fn ingest_system_text(index: Seq<char>, nodes: Seq<char>) -> Seq<char> {
    "You are a wiki editor. Your job is to integrate new source material into the career knowledge wiki.\n\n## Current Wiki Structure\n\n### Index\n"@
        + index + "\n\n### Existing Nodes\n"@ + nodes
        + "\n\n## Rules\n- Use `write_node` to create new nodes or update existing ones.\n- Use `read_node` to check existing content before modifying.\n- Use `list_nodes` to find relevant nodes.\n- Use `read_index` to see the full catalog.\n- Every mention of a skill/project/concept should be [[wikilinked]].\n- Keep node bodies concise (100-500 words).\n- YAML frontmatter: tags, category, proficiency, years (as applicable).\n- If the source material overlaps with an existing node, APPEND to it (don't overwrite).\n- Update System/index.md if you create new nodes.\n- When done, respond with a brief summary of what you changed."@
}

/// The ingest agent's system prompt for the current wiki (empty index and
/// node list when no wiki is loaded).
pub fn ingest_system_prompt(graph: Option<&WikiGraph>) -> (r: String)
    ensures
        graph is None ==> r@ == ingest_system_text(Seq::empty(), Seq::empty()),
        graph matches Some(g) ==> exists|entries: Seq<(Seq<char>, Seq<char>)>|
            crate::wiki_graph::sorted_listing(g.nodes@, None, entries)
                && r@ == ingest_system_text(g.index@, node_lines(entries, true)),
{
    let mut v = chars_of(
        "You are a wiki editor. Your job is to integrate new source material into the career knowledge wiki.\n\n## Current Wiki Structure\n\n### Index\n",
    );
    let ghost head = v@;
    let ghost mut entries: Seq<(Seq<char>, Seq<char>)> = Seq::empty();
    match graph {
        Some(g) => {
            push_str(&mut v, g.index_body());
            push_str(&mut v, "\n\n### Existing Nodes\n");
            let l = g.list(None);
            let t = node_list_text(&l, true);
            proof {
                entries = pair_views(l@);
                assert(entries =~= crate::wiki_graph::entry_views(l@));
            }
            push_str(&mut v, t.as_str());
        },
        None => {
            push_str(&mut v, "\n\n### Existing Nodes\n");
            proof {
                reveal_strlit("");
            }
        },
    }
    push_str(
        &mut v,
        "\n\n## Rules\n- Use `write_node` to create new nodes or update existing ones.\n- Use `read_node` to check existing content before modifying.\n- Use `list_nodes` to find relevant nodes.\n- Use `read_index` to see the full catalog.\n- Every mention of a skill/project/concept should be [[wikilinked]].\n- Keep node bodies concise (100-500 words).\n- YAML frontmatter: tags, category, proficiency, years (as applicable).\n- If the source material overlaps with an existing node, APPEND to it (don't overwrite).\n- Update System/index.md if you create new nodes.\n- When done, respond with a brief summary of what you changed.",
    );
    proof {
        match graph {
            Some(g) => {
                assert(v@ =~= ingest_system_text(g.index@, node_lines(entries, true)));
            },
            None => {
                assert(v@ =~= ingest_system_text(Seq::empty(), Seq::empty()));
            },
        }
    }
    string_of(v.as_slice())
}

/// The ingest agent's task for one source.
pub fn ingest_user_message(source_name: &str, content: &str) -> (r: String)
    ensures
        r@ == "Integrate the following source material into the wiki:\n\n## Source: "@
            + source_name@ + "\n\n"@ + content@ + "\n\nProcess this content now."@,
{
    let mut v = chars_of("Integrate the following source material into the wiki:\n\n## Source: ");
    push_str(&mut v, source_name);
    push_str(&mut v, "\n\n");
    push_str(&mut v, content);
    push_str(&mut v, "\n\nProcess this content now.");
    string_of(v.as_slice())
}

/// `{"type": "string", "description": d}`.
fn string_prop(d: &str) -> (r: Json)
    ensures
        r@ == jobj().set("type"@, JVal::Str("string"@)).set("description"@, JVal::Str(d@)),
{
    let mut p = new_obj();
    p.insert("type", Json::text("string"));
    p.insert("description", Json::text(d));
    p
}

/// `{"type": "object", "properties": props}` with the required names.
fn object_schema(props: Json, required: Vec<Json>) -> (r: Json)
    ensures
        r@ == if required@.len() == 0 {
            jobj().set("type"@, JVal::Str("object"@)).set("properties"@, props@)
        } else {
            jobj().set("type"@, JVal::Str("object"@)).set("properties"@, props@).set(
                "required"@,
                JVal::Arr(crate::json::jvs(required@)),
            )
        },
{
    let mut s = new_obj();
    s.insert("type", Json::text("object"));
    s.insert("properties", props);
    if required.len() > 0 {
        s.insert("required", Json::array(required));
    }
    s
}

/// The four tools of the ingest agent: `read_node`, `list_nodes`,
/// `read_index` and `write_node`.
pub fn ingest_tools() -> (r: Vec<ToolDef>)
    ensures
        r@.len() == 4,
        r@[0].name@ == "read_node"@,
        r@[1].name@ == "list_nodes"@,
        r@[2].name@ == "read_index"@,
        r@[3].name@ == "write_node"@,
        r@[0].params@ == jobj().set("type"@, JVal::Str("object"@)).set(
            "properties"@,
            jobj().set(
                "name"@,
                jobj().set("type"@, JVal::Str("string"@)).set(
                    "description"@,
                    JVal::Str("Node name (case-insensitive)"@),
                ),
            ),
        ).set("required"@, JVal::Arr(seq![JVal::Str("name"@)])),
        r@[3].params@ == jobj().set("type"@, JVal::Str("object"@)).set(
            "properties"@,
            jobj().set(
                "name"@,
                jobj().set("type"@, JVal::Str("string"@)).set(
                    "description"@,
                    JVal::Str("Node name (used as filename.md)"@),
                ),
            ).set(
                "body"@,
                jobj().set("type"@, JVal::Str("string"@)).set(
                    "description"@,
                    JVal::Str("Full markdown content including YAML frontmatter"@),
                ),
            ),
        ).set("required"@, JVal::Arr(seq![JVal::Str("name"@), JVal::Str("body"@)])),
{
    let mut p0 = new_obj();
    p0.insert("name", string_prop("Node name (case-insensitive)"));
    let mut req0: Vec<Json> = Vec::new();
    req0.push(Json::text("name"));
    let s0 = object_schema(p0, req0);
    proof {
        assert(crate::json::jvs(req0@) =~= seq![JVal::Str("name"@)]);
    }
    let mut p1 = new_obj();
    p1.insert("filter", string_prop("Optional substring filter"));
    let s1 = object_schema(p1, Vec::new());
    let s2 = object_schema(new_obj(), Vec::new());
    let mut p3 = new_obj();
    p3.insert("name", string_prop("Node name (used as filename.md)"));
    p3.insert("body", string_prop("Full markdown content including YAML frontmatter"));
    let mut req3: Vec<Json> = Vec::new();
    req3.push(Json::text("name"));
    req3.push(Json::text("body"));
    proof {
        assert(crate::json::jvs(req3@) =~= seq![JVal::Str("name"@), JVal::Str("body"@)]);
    }
    let s3 = object_schema(p3, req3);
    let mut r: Vec<ToolDef> = Vec::new();
    r.push(ToolDef {
        name: "read_node".to_owned(),
        desc: "Read a wiki node by name. Returns the full markdown body.".to_owned(),
        params: s0,
    });
    r.push(ToolDef {
        name: "list_nodes".to_owned(),
        desc: "List all wiki nodes with their titles and summaries. Optional filter by substring.".to_owned(),
        params: s1,
    });
    r.push(ToolDef {
        name: "read_index".to_owned(),
        desc: "Read the System/index.md catalog file.".to_owned(),
        params: s2,
    });
    r.push(ToolDef {
        name: "write_node".to_owned(),
        desc: "Write or update a wiki node file. Creates the file in profile/wiki/.".to_owned(),
        params: s3,
    });
    r
}

// ---------------------------------------------------------------------------
// Tool dispatch
// ---------------------------------------------------------------------------

/// What a tool call of the ingest agent comes to.
pub enum WikiToolPlan {
    /// Answer the model with this result.
    Reply(Result<String, String>),
    /// Read `System/index.md` from disk (no wiki is loaded).
    ReadIndexFile,
    /// Write the node's file `wiki/{name}.md` with this body.
    WriteNode { name: String, body: String },
}

/// A node name the agent may write: no `..`, no `/`, no `\`.
pub open spec fn safe_node_name(n: Seq<char>) -> bool {
    !contains(n, ".."@) && !contains(n, "/"@) && !contains(n, "\\"@)
}

/// Whether a node name is safe to use as a file name.
pub fn is_safe_node_name(name: &str) -> (b: bool)
    ensures
        b == safe_node_name(name@),
{
    let n = chars_of(name);
    !crate::text::contains_str(n.as_slice(), "..") && !crate::text::contains_str(n.as_slice(), "/")
        && !crate::text::contains_str(n.as_slice(), "\\")
}

/// A node as `read_node` shows it: its frontmatter between `---` lines,
/// then its body.
pub open spec fn node_page(n: WikiNode) -> Seq<char> {
    "---\n"@ + crate::text::join(fm_lines(n.frontmatter@), "\n"@) + "\n---\n\n"@ + n.body@
}

/// `key: value` lines of frontmatter.
pub open spec fn fm_lines(fm: Seq<(String, String)>) -> Seq<Seq<char>> {
    fm.map_values(|p: (String, String)| p.0@ + ": "@ + p.1@)
}

/// Renders a node for `read_node`.
pub fn node_page_text(n: &WikiNode) -> (r: String)
    ensures
        r@ == node_page(*n),
{
    let mut v = chars_of("---\n");
    let ghost lines = fm_lines(n.frontmatter@);
    let ghost head = v@;
    let mut i: usize = 0;
    proof {
        assert(lines.take(0) =~= Seq::<Seq<char>>::empty());
        assert(v@ =~= head + crate::text::join(lines.take(0), "\n"@));
    }
    while i < n.frontmatter.len()
        invariant
            i <= n.frontmatter@.len(),
            lines == fm_lines(n.frontmatter@),
            v@ == head + crate::text::join(lines.take(i as int), "\n"@),
        decreases n.frontmatter@.len() - i,
    {
        let ghost before = v@;
        if i > 0 {
            push_str(&mut v, "\n");
        }
        push_str(&mut v, n.frontmatter[i].0.as_str());
        push_str(&mut v, ": ");
        push_str(&mut v, n.frontmatter[i].1.as_str());
        proof {
            let t = lines.take(i + 1);
            assert(t.drop_last() =~= lines.take(i as int));
            assert(t.last() == lines[i as int]);
            if i == 0 {
                assert(v@ =~= head + lines[0]);
            } else {
                assert(v@ =~= before + "\n"@ + lines[i as int]);
            }
        }
        i = i + 1;
    }
    proof {
        assert(lines.take(n.frontmatter@.len() as int) =~= lines);
    }
    push_str(&mut v, "\n---\n\n");
    push_str(&mut v, n.body.as_str());
    string_of(v.as_slice())
}

/// The string argument `key` of a tool call.
pub open spec fn str_arg(args: JVal, key: Seq<char>) -> Option<Seq<char>> {
    args.field(key).as_str()
}

/// Reads a string argument.
fn string_arg(args: &Json, key: &str) -> (r: Option<String>)
    ensures
        match r {
            Some(s) => str_arg(args@, key@) == Some(s@),
            None => str_arg(args@, key@) is None,
        },
{
    match field_copy(args, key).as_str() {
        Some(s) => Some(s.to_owned()),
        None => None,
    }
}

/// Decides what a tool call of the ingest agent does: `read_node` and
/// `list_nodes` answer from the loaded wiki; `read_index` answers from it
/// or reads the index file; `write_node` writes a node file when its name
/// is safe; anything else is an unknown tool.
pub fn plan_wiki_tool(tool_name: &str, args: &Json, graph: Option<&WikiGraph>) -> (r: WikiToolPlan)
    ensures
        tool_name@ == "read_node"@ ==> match str_arg(args@, "name"@) {
            None => (r matches WikiToolPlan::Reply(Err(e)) && e@ == "missing 'name' parameter"@),
            Some(n) => match graph {
                Some(g) => match crate::wiki_graph::key_index(g.nodes@, unicode_lower(n)) {
                    Some(i) => (r matches WikiToolPlan::Reply(Ok(s)) && s@ == node_page(g.nodes@[i].1)),
                    None => (r matches WikiToolPlan::Reply(Err(e)) && e@ == "Node '"@ + n + "' not found"@),
                },
                None => (r matches WikiToolPlan::Reply(Err(e)) && e@ == "Node '"@ + n + "' not found"@),
            },
        },
        tool_name@ == "list_nodes"@ ==> match graph {
            Some(g) => (r matches WikiToolPlan::Reply(Ok(s)) && exists|entries: Seq<(Seq<char>, Seq<char>)>|
                s@ == node_lines(entries, false)
                    && crate::wiki_graph::sorted_listing(g.nodes@, str_arg(args@, "filter"@), entries)),
            None => (r matches WikiToolPlan::Reply(Ok(s)) && s@ == "No wiki loaded."@),
        },
        tool_name@ == "read_index"@ ==> match graph {
            Some(g) => (r matches WikiToolPlan::Reply(Ok(s)) && s@ == g.index@),
            None => r is ReadIndexFile,
        },
        tool_name@ == "write_node"@ ==> match (str_arg(args@, "name"@), str_arg(args@, "body"@)) {
            (None, _) => (r matches WikiToolPlan::Reply(Err(e)) && e@ == "missing 'name' parameter"@),
            (Some(_), None) => (r matches WikiToolPlan::Reply(Err(e)) && e@ == "missing 'body' parameter"@),
            (Some(n), Some(b)) => if safe_node_name(n) {
                (r matches WikiToolPlan::WriteNode { name, body } && name@ == n && body@ == b)
            } else {
                (r matches WikiToolPlan::Reply(Err(e)) && e@ == "Invalid node name: "@ + n)
            },
        },
        tool_name@ != "read_node"@ && tool_name@ != "list_nodes"@ && tool_name@ != "read_index"@
            && tool_name@ != "write_node"@ ==> (r matches WikiToolPlan::Reply(Err(e)) && e@
            == "Unknown tool: "@ + tool_name@),
{
    proof {
        reveal_strlit("read_node");
        reveal_strlit("list_nodes");
        reveal_strlit("read_index");
        reveal_strlit("write_node");
        assert("read_node"@[0] != "list_nodes"@[0]);
        assert("read_node"@[5] != "read_index"@[5]);
        assert("read_node"@[0] != "write_node"@[0]);
        assert("list_nodes"@[0] != "read_index"@[0]);
        assert("list_nodes"@[0] != "write_node"@[0]);
        assert("read_index"@[0] != "write_node"@[0]);
    }
    if crate::json::str_eq(tool_name, "read_node") {
        let name = match string_arg(args, "name") {
            Some(n) => n,
            None => {
                return WikiToolPlan::Reply(Err("missing 'name' parameter".to_owned()));
            },
        };
        let found = match graph {
            Some(g) => g.get(name.as_str()),
            None => None,
        };
        match found {
            Some(node) => WikiToolPlan::Reply(Ok(node_page_text(node))),
            None => {
                let mut v = chars_of("Node '");
                push_str(&mut v, name.as_str());
                push_str(&mut v, "' not found");
                WikiToolPlan::Reply(Err(string_of(v.as_slice())))
            },
        }
    } else if crate::json::str_eq(tool_name, "list_nodes") {
        match graph {
            Some(g) => {
                let filter = string_arg(args, "filter");
                let l = match &filter {
                    Some(f) => g.list(Some(f.as_str())),
                    None => g.list(None),
                };
                let t = node_list_text(&l, false);
                proof {
                    assert(pair_views(l@) =~= crate::wiki_graph::entry_views(l@));
                }
                WikiToolPlan::Reply(Ok(t))
            },
            None => WikiToolPlan::Reply(Ok("No wiki loaded.".to_owned())),
        }
    } else if crate::json::str_eq(tool_name, "read_index") {
        match graph {
            Some(g) => WikiToolPlan::Reply(Ok(g.index_body().to_owned())),
            None => WikiToolPlan::ReadIndexFile,
        }
    } else if crate::json::str_eq(tool_name, "write_node") {
        let name = match string_arg(args, "name") {
            Some(n) => n,
            None => {
                return WikiToolPlan::Reply(Err("missing 'name' parameter".to_owned()));
            },
        };
        let body = match string_arg(args, "body") {
            Some(b) => b,
            None => {
                return WikiToolPlan::Reply(Err("missing 'body' parameter".to_owned()));
            },
        };
        if !is_safe_node_name(name.as_str()) {
            let mut v = chars_of("Invalid node name: ");
            push_str(&mut v, name.as_str());
            return WikiToolPlan::Reply(Err(string_of(v.as_slice())));
        }
        WikiToolPlan::WriteNode { name, body }
    } else {
        let mut v = chars_of("Unknown tool: ");
        push_str(&mut v, tool_name);
        WikiToolPlan::Reply(Err(string_of(v.as_slice())))
    }
}

} // verus!
