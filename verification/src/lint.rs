//! Wiki lint: orphans, dangling links and thin nodes, and the report that
//! lists them.
use vstd::prelude::*;
use vstd::string::StringSliceAdditionalSpecFns;
use crate::text::{
    chars_of, contains, contains_exec, dec, fmt_u64, join, push_all, push_str, string_of, trim,
    trim_chars, unicode_lower, views,
};
use crate::wiki_graph::{backlink_titles, key_index, WikiGraph, WikiNode};

verus! {

/// The node is referenced from the index as `[[title]]` or `[[title|…`.
pub open spec fn in_index(index: Seq<char>, title: Seq<char>) -> bool {
    contains(index, "[["@ + title + "]]"@) || contains(index, "[["@ + title + "|"@)
}

/// The orphan finding for a title.
pub open spec fn orphan_text(t: Seq<char>) -> Seq<char> {
    "## Orphan: "@ + t
        + "\n\nNo backlinks and not referenced in System/index.md.\nAdd `[["@ + t
        + "]]` to the appropriate section in System/index.md.\n"@
}

/// The dangling-link finding.
pub open spec fn dangling_text(t: Seq<char>, link: Seq<char>) -> Seq<char> {
    "## Dangling link in "@ + t + ": [["@ + link
        + "]]\n\nTarget node doesn't exist. Either create the node or remove the link.\n"@
}

/// The thin-node finding (`n` is the trimmed body's length in bytes).
pub open spec fn thin_text(t: Seq<char>, n: nat) -> Seq<char> {
    "## Thin node: "@ + t + "\n\nBody is only "@ + dec(n)
        + " chars. Expand with more detail or merge into another node.\n"@
}

/// The trimmed body's length in UTF-8 bytes.
pub open spec fn body_bytes(n: WikiNode) -> nat {
    vstd::utf8::encode_utf8(trim(n.body@)).len()
}

/// Orphan findings of the nodes, in node order: nodes nothing links to
/// that the index does not mention.
pub open spec fn orphans(nodes: Seq<(String, WikiNode)>, all: Seq<(String, WikiNode)>, index: Seq<char>) -> Seq<Seq<char>>
    decreases nodes.len(),
{
    if nodes.len() == 0 {
        Seq::empty()
    } else {
        let prev = orphans(nodes.drop_last(), all, index);
        let t = nodes.last().1.title@;
        if backlink_titles(all, unicode_lower(t)).len() == 0 && !in_index(index, t) {
            prev.push(orphan_text(t))
        } else {
            prev
        }
    }
}

/// Dangling-link findings of one node's links.
pub open spec fn dangling_of(t: Seq<char>, links: Seq<Seq<char>>, all: Seq<(String, WikiNode)>) -> Seq<Seq<char>>
    decreases links.len(),
{
    if links.len() == 0 {
        Seq::empty()
    } else {
        let prev = dangling_of(t, links.drop_last(), all);
        if key_index(all, unicode_lower(links.last())) is None {
            prev.push(dangling_text(t, links.last()))
        } else {
            prev
        }
    }
}

/// Dangling-link findings of the nodes, in node order.
pub open spec fn danglings(nodes: Seq<(String, WikiNode)>, all: Seq<(String, WikiNode)>) -> Seq<Seq<char>>
    decreases nodes.len(),
{
    if nodes.len() == 0 {
        Seq::empty()
    } else {
        danglings(nodes.drop_last(), all) + dangling_of(
            nodes.last().1.title@,
            views(nodes.last().1.links@),
            all,
        )
    }
}

/// Thin-node findings: trimmed bodies under 100 bytes.
pub open spec fn thins(nodes: Seq<(String, WikiNode)>) -> Seq<Seq<char>>
    decreases nodes.len(),
{
    if nodes.len() == 0 {
        Seq::empty()
    } else {
        let prev = thins(nodes.drop_last());
        let n = nodes.last().1;
        if body_bytes(n) < 100 {
            prev.push(thin_text(n.title@, body_bytes(n)))
        } else {
            prev
        }
    }
}

/// All findings: orphans, then dangling links, then thin nodes.
pub open spec fn findings_of(g: WikiGraph) -> Seq<Seq<char>> {
    orphans(g.nodes@, g.nodes@, g.index@) + danglings(g.nodes@, g.nodes@) + thins(g.nodes@)
}

/// Finds the orphans.
fn orphan_findings(g: &WikiGraph, out: &mut Vec<String>)
    ensures
        views(final(out)@) == views(old(out)@) + orphans(g.nodes@, g.nodes@, g.index@),
{
    let ghost start = views(out@);
    let idx = chars_of(g.index_body());
    let mut i: usize = 0;
    proof {
        assert(g.nodes@.take(0) =~= Seq::<(String, WikiNode)>::empty());
        assert(start + Seq::<Seq<char>>::empty() =~= start);
    }
    while i < g.nodes.len()
        invariant
            i <= g.nodes@.len(),
            idx@ == g.index@,
            views(out@) == start + orphans(g.nodes@.take(i as int), g.nodes@, g.index@),
        decreases g.nodes@.len() - i,
    {
        proof {
            assert(g.nodes@.take(i + 1).drop_last() =~= g.nodes@.take(i as int));
            assert(g.nodes@.take(i + 1).last() == g.nodes@[i as int]);
        }
        let t = g.nodes[i].1.title.as_str();
        let back = g.get_backlinks(t);
        let mut a = chars_of("[[");
        push_str(&mut a, t);
        let mut b = a.clone();
        push_str(&mut a, "]]");
        push_str(&mut b, "|");
        let listed = contains_exec(idx.as_slice(), a.as_slice()) || contains_exec(
            idx.as_slice(),
            b.as_slice(),
        );
        proof {
            assert(crate::wiki_graph::str_views(back@).len() == back@.len());
        }
        if back.len() == 0 && !listed {
            let mut v = chars_of("## Orphan: ");
            push_str(&mut v, t);
            push_str(
                &mut v,
                "\n\nNo backlinks and not referenced in System/index.md.\nAdd `[[",
            );
            push_str(&mut v, t);
            push_str(&mut v, "]]` to the appropriate section in System/index.md.\n");
            let ghost before = views(out@);
            let f = string_of(v.as_slice());
            out.push(f);
            proof {
                assert(views(out@) =~= before.push(f@));
                assert(f@ =~= orphan_text(t@));
            }
        }
        i = i + 1;
    }
    proof {
        assert(g.nodes@.take(g.nodes@.len() as int) =~= g.nodes@);
    }
}

/// Finds the dangling links.
fn dangling_findings(g: &WikiGraph, out: &mut Vec<String>)
    ensures
        views(final(out)@) == views(old(out)@) + danglings(g.nodes@, g.nodes@),
{
    let ghost start = views(out@);
    let mut i: usize = 0;
    proof {
        assert(g.nodes@.take(0) =~= Seq::<(String, WikiNode)>::empty());
        assert(start + Seq::<Seq<char>>::empty() =~= start);
    }
    while i < g.nodes.len()
        invariant
            i <= g.nodes@.len(),
            views(out@) == start + danglings(g.nodes@.take(i as int), g.nodes@),
        decreases g.nodes@.len() - i,
    {
        proof {
            assert(g.nodes@.take(i + 1).drop_last() =~= g.nodes@.take(i as int));
            assert(g.nodes@.take(i + 1).last() == g.nodes@[i as int]);
        }
        let node = &g.nodes[i].1;
        let ghost lv = views(node.links@);
        let ghost mid = views(out@);
        let mut j: usize = 0;
        proof {
            assert(lv.take(0) =~= Seq::<Seq<char>>::empty());
            assert(mid + Seq::<Seq<char>>::empty() =~= mid);
        }
        while j < node.links.len()
            invariant
                j <= node.links@.len(),
                lv == views(node.links@),
                views(out@) == mid + dangling_of(node.title@, lv.take(j as int), g.nodes@),
            decreases node.links@.len() - j,
        {
            proof {
                assert(lv.take(j + 1).drop_last() =~= lv.take(j as int));
                assert(lv.take(j + 1).last() == node.links@[j as int]@);
            }
            let link = node.links[j].as_str();
            if g.get(link).is_none() {
                let mut v = chars_of("## Dangling link in ");
                push_str(&mut v, node.title.as_str());
                push_str(&mut v, ": [[");
                push_str(&mut v, link);
                push_str(
                    &mut v,
                    "]]\n\nTarget node doesn't exist. Either create the node or remove the link.\n",
                );
                let ghost before = views(out@);
                let f = string_of(v.as_slice());
                out.push(f);
                proof {
                    assert(views(out@) =~= before.push(f@));
                    assert(f@ =~= dangling_text(node.title@, link@));
                    assert(mid + dangling_of(node.title@, lv.take(j + 1), g.nodes@) =~= (mid
                        + dangling_of(node.title@, lv.take(j as int), g.nodes@)).push(f@));
                }
            }
            j = j + 1;
        }
        proof {
            assert(lv.take(node.links@.len() as int) =~= lv);
            assert(views(out@) =~= start + danglings(g.nodes@.take(i + 1), g.nodes@));
        }
        i = i + 1;
    }
    proof {
        assert(g.nodes@.take(g.nodes@.len() as int) =~= g.nodes@);
    }
}

/// Finds the thin nodes.
fn thin_findings(g: &WikiGraph, out: &mut Vec<String>)
    ensures
        views(final(out)@) == views(old(out)@) + thins(g.nodes@),
{
    let ghost start = views(out@);
    let mut i: usize = 0;
    proof {
        assert(g.nodes@.take(0) =~= Seq::<(String, WikiNode)>::empty());
        assert(start + Seq::<Seq<char>>::empty() =~= start);
    }
    while i < g.nodes.len()
        invariant
            i <= g.nodes@.len(),
            views(out@) == start + thins(g.nodes@.take(i as int)),
        decreases g.nodes@.len() - i,
    {
        proof {
            assert(g.nodes@.take(i + 1).drop_last() =~= g.nodes@.take(i as int));
            assert(g.nodes@.take(i + 1).last() == g.nodes@[i as int]);
        }
        let node = &g.nodes[i].1;
        let t = string_of(trim_chars(chars_of(node.body.as_str()).as_slice()).as_slice());
        let n = t.as_str().as_bytes().len();
        if n < 100 {
            let mut v = chars_of("## Thin node: ");
            push_str(&mut v, node.title.as_str());
            push_str(&mut v, "\n\nBody is only ");
            push_all(&mut v, fmt_u64(n as u64).as_slice());
            push_str(&mut v, " chars. Expand with more detail or merge into another node.\n");
            let ghost before = views(out@);
            let f = string_of(v.as_slice());
            out.push(f);
            proof {
                assert(views(out@) =~= before.push(f@));
                assert(f@ =~= thin_text(node.title@, body_bytes(*node)));
            }
        }
        i = i + 1;
    }
    proof {
        assert(g.nodes@.take(g.nodes@.len() as int) =~= g.nodes@);
    }
}

/// The lint findings of a wiki: orphans, dangling links, thin nodes.
pub fn lint_findings(g: &WikiGraph) -> (r: Vec<String>)
    ensures
        views(r@) == findings_of(*g),
{
    let mut out: Vec<String> = Vec::new();
    proof {
        assert(views(out@) =~= Seq::<Seq<char>>::empty());
    }
    orphan_findings(g, &mut out);
    dangling_findings(g, &mut out);
    thin_findings(g, &mut out);
    proof {
        assert(views(out@) =~= findings_of(*g));
    }
    out
}

/// The lint report: a healthy note when nothing was found, else the time,
/// the count and the findings separated by rules.
pub open spec fn lint_report_text(findings: Seq<Seq<char>>, generated: Seq<char>) -> Seq<char> {
    if findings.len() == 0 {
        "# Wiki Lint Report\n\nNo issues found. The wiki is healthy.\n"@
    } else {
        "# Wiki Lint Report\n\nGenerated: "@ + generated + "\nTotal issues: "@ + dec(
            findings.len(),
        ) + "\n\n"@ + join(findings, "\n---\n\n"@) + "\n"@
    }
}

/// Distinct titles give distinct orphan findings.
proof fn lemma_orphan_text_injective(t: Seq<char>, u: Seq<char>)
    requires
        orphan_text(t) == orphan_text(u),
    ensures
        t == u,
{
    reveal_strlit("## Orphan: ");
    let x = orphan_text(t);
    let y = orphan_text(u);
    assert(x.len() == y.len());
    assert(t.len() == u.len());
    assert forall|k: int| 0 <= k < t.len() implies t[k] == u[k] by {
        assert(x[11 + k] == t[k]);
        assert(y[11 + k] == u[k]);
    }
    assert(t =~= u);
}

/// Every orphan finding names a node that nothing links to and that the
/// index references neither as `[[title]]` nor as a labelled `[[title|…`.
pub proof fn law_orphans_are_unreferenced(
    nodes: Seq<(String, WikiNode)>,
    all: Seq<(String, WikiNode)>,
    index: Seq<char>,
)
    ensures
        forall|j: int|
            0 <= j < orphans(nodes, all, index).len() ==> exists|i: int|
                0 <= i < nodes.len() && #[trigger] orphans(nodes, all, index)[j] == orphan_text(
                    nodes[i].1.title@,
                ) && !contains(index, "[["@ + nodes[i].1.title@ + "]]"@) && !contains(
                    index,
                    "[["@ + nodes[i].1.title@ + "|"@,
                ) && backlink_titles(all, unicode_lower(nodes[i].1.title@)).len() == 0,
    decreases nodes.len(),
{
    if nodes.len() > 0 {
        let prev_nodes = nodes.drop_last();
        law_orphans_are_unreferenced(prev_nodes, all, index);
        let o = orphans(nodes, all, index);
        let p = orphans(prev_nodes, all, index);
        let n = nodes.len() - 1;
        assert forall|j: int| 0 <= j < o.len() implies exists|i: int|
            0 <= i < nodes.len() && #[trigger] o[j] == orphan_text(nodes[i].1.title@) && !contains(
                index,
                "[["@ + nodes[i].1.title@ + "]]"@,
            ) && !contains(index, "[["@ + nodes[i].1.title@ + "|"@) && backlink_titles(
                all,
                unicode_lower(nodes[i].1.title@),
            ).len() == 0 by {
            if j < p.len() {
                assert(o[j] == p[j]);
                let i = choose|i: int|
                    0 <= i < prev_nodes.len() && #[trigger] p[j] == orphan_text(
                        prev_nodes[i].1.title@,
                    ) && !contains(index, "[["@ + prev_nodes[i].1.title@ + "]]"@) && !contains(
                        index,
                        "[["@ + prev_nodes[i].1.title@ + "|"@,
                    ) && backlink_titles(all, unicode_lower(prev_nodes[i].1.title@)).len() == 0;
                assert(prev_nodes[i] == nodes[i]);
            } else {
                assert(o[j] == orphan_text(nodes[n].1.title@));
            }
        }
    }
}

/// A node that the index references by a labelled link `[[title|…` is never
/// reported as an orphan.
pub proof fn law_labelled_index_link_is_no_orphan(g: WikiGraph, i: int)
    requires
        0 <= i < g.nodes@.len(),
        contains(g.index@, "[["@ + g.nodes@[i].1.title@ + "|"@),
    ensures
        !orphans(g.nodes@, g.nodes@, g.index@).contains(orphan_text(g.nodes@[i].1.title@)),
{
    let o = orphans(g.nodes@, g.nodes@, g.index@);
    let t = g.nodes@[i].1.title@;
    law_orphans_are_unreferenced(g.nodes@, g.nodes@, g.index@);
    if o.contains(orphan_text(t)) {
        let j = choose|j: int| 0 <= j < o.len() && o[j] == orphan_text(t);
        let k = choose|k: int|
            0 <= k < g.nodes@.len() && #[trigger] o[j] == orphan_text(g.nodes@[k].1.title@)
                && !contains(g.index@, "[["@ + g.nodes@[k].1.title@ + "]]"@) && !contains(
                g.index@,
                "[["@ + g.nodes@[k].1.title@ + "|"@,
            ) && backlink_titles(g.nodes@, unicode_lower(g.nodes@[k].1.title@)).len() == 0;
        lemma_orphan_text_injective(g.nodes@[k].1.title@, t);
    }
}

/// The report says the wiki is healthy exactly when the graph has no
/// orphan, no dangling link and no thin node.
pub proof fn law_healthy_report_iff_no_findings(g: WikiGraph, generated: Seq<char>)
    ensures
        (lint_report_text(findings_of(g), generated)
            == "# Wiki Lint Report\n\nNo issues found. The wiki is healthy.\n"@) <==> (
        orphans(g.nodes@, g.nodes@, g.index@).len() == 0 && danglings(g.nodes@, g.nodes@).len() == 0
            && thins(g.nodes@).len() == 0),
{
    reveal_strlit("# Wiki Lint Report\n\nNo issues found. The wiki is healthy.\n");
    reveal_strlit("# Wiki Lint Report\n\nGenerated: ");
    let f = findings_of(g);
    if f.len() > 0 {
        let h = "# Wiki Lint Report\n\nNo issues found. The wiki is healthy.\n"@;
        let r = lint_report_text(f, generated);
        let head = "# Wiki Lint Report\n\nGenerated: "@;
        assert(r[20] == head[20]);
        assert(h[20] == 'N');
        assert(head[20] == 'G');
        assert(r != h);
    }
}

/// Writes the lint report.
pub fn lint_report(findings: &Vec<String>, generated: &str) -> (r: String)
    ensures
        r@ == lint_report_text(views(findings@), generated@),
{
    if findings.len() == 0 {
        return "# Wiki Lint Report\n\nNo issues found. The wiki is healthy.\n".to_owned();
    }
    let mut v = chars_of("# Wiki Lint Report\n\nGenerated: ");
    push_str(&mut v, generated);
    push_str(&mut v, "\nTotal issues: ");
    push_all(&mut v, fmt_u64(findings.len() as u64).as_slice());
    push_str(&mut v, "\n\n");
    let ghost head = v@;
    let ghost fv = views(findings@);
    let mut i: usize = 0;
    proof {
        assert(fv.take(0) =~= Seq::<Seq<char>>::empty());
        assert(v@ =~= head + join(fv.take(0), "\n---\n\n"@));
    }
    while i < findings.len()
        invariant
            i <= findings@.len(),
            fv == views(findings@),
            v@ == head + join(fv.take(i as int), "\n---\n\n"@),
        decreases findings@.len() - i,
    {
        let ghost before = v@;
        if i > 0 {
            push_str(&mut v, "\n---\n\n");
        }
        push_str(&mut v, findings[i].as_str());
        proof {
            let t = fv.take(i + 1);
            assert(t.drop_last() =~= fv.take(i as int));
            assert(t.last() == fv[i as int]);
            if i == 0 {
                assert(v@ =~= head + fv[0]);
            } else {
                assert(v@ =~= before + "\n---\n\n"@ + fv[i as int]);
            }
        }
        i = i + 1;
    }
    proof {
        assert(fv.take(findings@.len() as int) =~= fv);
    }
    push_str(&mut v, "\n");
    string_of(v.as_slice())
}

/// The message shown before any lint report exists.
pub fn no_lint_report_message() -> (r: &'static str)
    ensures
        r@ == "No lint report yet. Run `POST /wiki/lint` first."@,
{
    "No lint report yet. Run `POST /wiki/lint` first."
}

} // verus!
