//! The Graphviz digraph: one subgraph cluster per composite node, one edge
//! per internal dependency that is not a direct child of its source, with
//! ignore filtering and first-match highlight colouring of the edges.
use vstd::prelude::*;
use crate::project::Project;
use crate::project::ProjectView;
use crate::project::tree_names;
use crate::project::subs_vw;
use crate::project::lemma_subs_vw;
use crate::project::collect_crate_names;
use crate::project::contains_name;
use crate::strutil::spec_replace_dashes;
use crate::strutil::replace_dashes;
use crate::strutil::str_eq;

verus! {

/// A name as a quoted DOT identifier; quoted identifiers need no
/// sanitization.
pub open spec fn quoted(name: Seq<char>) -> Seq<char> {
    "\""@ + name + "\""@
}

fn quote_name(s: &str) -> (r: String)
    ensures
        r@ == quoted(s@),
{
    let mut r = String::from_str("\"");
    r.append(s);
    r.append("\"");
    proof {
        assert(r@ =~= quoted(s@));
    }
    r
}

/// The cluster pass: a composite node opens a named cluster (its name with
/// `-` replaced by `_`, since the bare identifier needs sanitizing),
/// labelled with the plain name, lists itself, then its children's
/// clusters, and closes; a leaf is a bare quoted node.
pub open spec fn cluster_lines(p: ProjectView) -> Seq<Seq<char>>
    decreases p,
{
    if p.subs.len() == 0 {
        seq![quoted(p.name)]
    } else {
        seq![
            "subgraph cluster_"@ + spec_replace_dashes(p.name) + " {"@,
            "label=\""@ + p.name + "\""@,
            quoted(p.name),
        ] + cluster_forest_from(p.subs, 0) + seq!["}"@]
    }
}

pub open spec fn cluster_forest_from(subs: Seq<ProjectView>, i: int) -> Seq<Seq<char>>
    decreases subs, subs.len() - i,
{
    if i < 0 || i >= subs.len() {
        Seq::empty()
    } else {
        cluster_lines(subs[i]) + cluster_forest_from(subs, i + 1)
    }
}

/// Whether `d` names a direct child of a node with children `subs`.
pub open spec fn is_child_name(subs: Seq<ProjectView>, d: Seq<char>) -> bool {
    exists|k: int| 0 <= k < subs.len() && subs[k].name == d
}

/// Whether an edge from the node `p` to dependency `d` is drawn: only an
/// internal dependency, with neither endpoint ignored, and not a direct
/// child of `p` (child edges are implied by the clustering).
pub open spec fn edge_keep(
    p: ProjectView,
    d: Seq<char>,
    names: Set<Seq<char>>,
    ignore: Set<Seq<char>>,
) -> bool {
    names.contains(d) && !ignore.contains(p.name) && !ignore.contains(d) && !is_child_name(
        p.subs,
        d,
    )
}

/// The dependencies of `p` that are drawn as edges, in declaration order.
pub open spec fn kept_deps(p: ProjectView, names: Set<Seq<char>>, ignore: Set<Seq<char>>) -> Seq<
    Seq<char>,
> {
    p.deps.filter(|d: Seq<char>| edge_keep(p, d, names, ignore))
}

/// Whether a highlight rule matches an edge: `+X` matches a source `X`,
/// `-X` a target `X`, and a bare `X` either endpoint.
pub open spec fn rule_matches(h: Seq<char>, from: Seq<char>, to: Seq<char>) -> bool {
    (h.len() >= 1 && h[0] == '+' && from == h.skip(1)) || (h.len() >= 1 && h[0] == '-' && to
        == h.skip(1)) || from == h || to == h
}

/// The colour a matching rule gives an edge.
pub open spec fn rule_color(h: Seq<char>, from: Seq<char>, to: Seq<char>) -> Seq<char> {
    if h.len() >= 1 && h[0] == '+' && from == h.skip(1) {
        "[color=blue]"@
    } else if h.len() >= 1 && h[0] == '-' && to == h.skip(1) {
        "[color=red]"@
    } else {
        "[color=black]"@
    }
}

/// The colour attribute of an edge under the rules from index `i` on: the
/// first matching rule decides, and no rule leaves the edge transparent.
pub open spec fn highlight_color(from: Seq<char>, to: Seq<char>, rules: Seq<Seq<char>>, i: int) -> Seq<
    char,
>
    decreases rules.len() - i,
{
    if i < 0 || i >= rules.len() {
        "[color=transparent]"@
    } else if rule_matches(rules[i], from, to) {
        rule_color(rules[i], from, to)
    } else {
        highlight_color(from, to, rules, i + 1)
    }
}

/// The attribute text after an edge: empty when no highlighting was asked
/// for, else the first matching rule's colour.
pub open spec fn edge_attrs(from: Seq<char>, to: Seq<char>, rules: Seq<Seq<char>>) -> Seq<char> {
    if rules.len() == 0 {
        ""@
    } else {
        highlight_color(from, to, rules, 0)
    }
}

/// One edge line.
pub open spec fn edge_line(from: Seq<char>, to: Seq<char>, rules: Seq<Seq<char>>) -> Seq<char> {
    quoted(from) + " -> "@ + quoted(to) + " "@ + edge_attrs(from, to, rules)
}

/// The edge lines one node contributes.
pub open spec fn node_edge_lines(
    p: ProjectView,
    names: Set<Seq<char>>,
    ignore: Set<Seq<char>>,
    rules: Seq<Seq<char>>,
) -> Seq<Seq<char>> {
    kept_deps(p, names, ignore).map_values(|d: Seq<char>| edge_line(p.name, d, rules))
}

/// The edge pass over a subtree: the node's own edges, then its children's,
/// in tree order.
pub open spec fn tree_edge_lines(
    p: ProjectView,
    names: Set<Seq<char>>,
    ignore: Set<Seq<char>>,
    rules: Seq<Seq<char>>,
) -> Seq<Seq<char>>
    decreases p,
{
    node_edge_lines(p, names, ignore, rules) + edge_forest_from(p.subs, names, ignore, rules, 0)
}

pub open spec fn edge_forest_from(
    subs: Seq<ProjectView>,
    names: Set<Seq<char>>,
    ignore: Set<Seq<char>>,
    rules: Seq<Seq<char>>,
    i: int,
) -> Seq<Seq<char>>
    decreases subs, subs.len() - i,
{
    if i < 0 || i >= subs.len() {
        Seq::empty()
    } else {
        tree_edge_lines(subs[i], names, ignore, rules) + edge_forest_from(
            subs,
            names,
            ignore,
            rules,
            i + 1,
        )
    }
}

/// The whole digraph: the clusters of the tree, then its edges, against
/// the tree's own crate-name index.
pub open spec fn spec_render_dot(
    p: ProjectView,
    ignore: Set<Seq<char>>,
    rules: Seq<Seq<char>>,
) -> Seq<Seq<char>> {
    seq!["digraph G {"@] + cluster_lines(p) + tree_edge_lines(p, tree_names(p), ignore, rules)
        + seq!["}"@]
}

fn emit_clusters(p: &Project, out: &mut Vec<String>)
    ensures
        final(out).deep_view() == old(out).deep_view() + cluster_lines(p.vw()),
    decreases *p,
{
    let ghost pv = p.vw();
    if p.subs.len() == 0 {
        let ghost before = out.deep_view();
        out.push(quote_name(p.name.as_str()));
        proof {
            assert(out.deep_view() =~= before.push(quoted(pv.name)));
            assert(before.push(quoted(pv.name)) =~= before + cluster_lines(pv));
        }
        return ;
    }
    let ghost before = out.deep_view();
    let mut open = String::from_str("subgraph cluster_");
    let sanitized = replace_dashes(p.name.as_str());
    open.append(sanitized.as_str());
    open.append(" {");
    out.push(open);
    let mut label = String::from_str("label=\"");
    label.append(p.name.as_str());
    label.append("\"");
    out.push(label);
    out.push(quote_name(p.name.as_str()));
    let ghost head = seq![
        "subgraph cluster_"@ + spec_replace_dashes(pv.name) + " {"@,
        "label=\""@ + pv.name + "\""@,
        quoted(pv.name),
    ];
    proof {
        lemma_subs_vw(p.subs@);
        assert(out.deep_view() =~= before + head);
    }
    let ghost csubs = pv.subs;
    let mut j: usize = 0;
    proof {
        assert(out.deep_view() + cluster_forest_from(csubs, 0) =~= (before + head)
            + cluster_forest_from(csubs, 0));
    }
    while j < p.subs.len()
        invariant
            j <= p.subs.len(),
            csubs == subs_vw(p.subs@),
            csubs.len() == p.subs@.len(),
            forall|t: int| 0 <= t < p.subs@.len() ==> csubs[t] == p.subs@[t].vw(),
            (before + head) + cluster_forest_from(csubs, 0) == out.deep_view()
                + cluster_forest_from(csubs, j as int),
        decreases p.subs.len() - j,
    {
        let ghost mid = out.deep_view();
        emit_clusters(&p.subs[j], out);
        proof {
            assert(out.deep_view() + cluster_forest_from(csubs, j as int + 1) =~= mid
                + (cluster_lines(csubs[j as int]) + cluster_forest_from(csubs, j as int + 1)));
        }
        j += 1;
    }
    proof {
        assert(cluster_forest_from(csubs, p.subs@.len() as int) =~= Seq::<Seq<char>>::empty());
        assert(out.deep_view() + Seq::<Seq<char>>::empty() =~= out.deep_view());
    }
    let ghost closing = out.deep_view();
    out.push(String::from_str("}"));
    proof {
        assert(out.deep_view() =~= closing.push("}"@));
        assert(closing.push("}"@) =~= closing + seq!["}"@]);
        assert(out.deep_view() =~= before + cluster_lines(pv));
    }
}

/// The first matching rule's colour attribute, or transparent; empty text
/// when there are no rules at all.
fn pick_attrs(from: &str, to: &str, rules: &Vec<String>) -> (r: &'static str)
    ensures
        r@ == edge_attrs(from@, to@, rules.deep_view()),
{
    if rules.len() == 0 {
        proof {
            assert(rules.deep_view().len() == 0);
        }
        return "";
    }
    let ghost rv = rules.deep_view();
    let mut i: usize = 0;
    while i < rules.len()
        invariant
            i <= rules.len(),
            rv == rules.deep_view(),
            rv.len() == rules@.len(),
            rv.len() > 0,
            highlight_color(from@, to@, rv, 0) == highlight_color(from@, to@, rv, i as int),
        decreases rules.len() - i,
    {
        let h = &rules[i];
        let hlen = h.as_str().unicode_len();
        proof {
            assert(rv[i as int] == rules@[i as int]@);
        }
        if hlen >= 1 {
            let c = h.as_str().get_char(0);
            if c == '+' {
                if str_eq(from, h.as_str().substring_char(1, hlen)) {
                    proof {
                        assert(h@.skip(1) =~= h@.subrange(1, hlen as int));
                        assert(rule_matches(rv[i as int], from@, to@));
                    }
                    return "[color=blue]";
                }
                // A `+` rule that does not match the source may still match
                // as a bare name.
            } else if c == '-' {
                if str_eq(to, h.as_str().substring_char(1, hlen)) {
                    proof {
                        assert(h@.skip(1) =~= h@.subrange(1, hlen as int));
                        assert(rv[i as int].len() >= 1 && rv[i as int][0] == '-');
                        assert(!(rv[i as int][0] == '+'));
                        assert(rule_matches(rv[i as int], from@, to@));
                    }
                    return "[color=red]";
                }
            }
        }
        if str_eq(from, h.as_str()) || str_eq(to, h.as_str()) {
            proof {
                assert(rule_matches(rv[i as int], from@, to@));
                if rv[i as int].len() >= 1 && rv[i as int][0] == '+' && from@ == rv[i as int].skip(
                    1,
                ) {
                    assert(h@.subrange(1, hlen as int) =~= h@.skip(1));
                }
                if rv[i as int].len() >= 1 && rv[i as int][0] == '-' && to@ == rv[i as int].skip(
                    1,
                ) {
                    assert(h@.subrange(1, hlen as int) =~= h@.skip(1));
                }
            }
            return "[color=black]";
        }
        proof {
            if rule_matches(rv[i as int], from@, to@) {
                if rv[i as int].len() >= 1 && rv[i as int][0] == '+' && from@ == rv[i as int].skip(
                    1,
                ) {
                    assert(h@.subrange(1, hlen as int) =~= h@.skip(1));
                }
                if rv[i as int].len() >= 1 && rv[i as int][0] == '-' && to@ == rv[i as int].skip(
                    1,
                ) {
                    assert(h@.subrange(1, hlen as int) =~= h@.skip(1));
                }
            }
            assert(!rule_matches(rv[i as int], from@, to@));
        }
        i += 1;
    }
    "[color=transparent]"
}

fn has_child_named(p: &Project, d: &str) -> (r: bool)
    ensures
        r == is_child_name(p.vw().subs, d@),
{
    proof {
        lemma_subs_vw(p.subs@);
    }
    let ghost csubs = p.vw().subs;
    let mut k: usize = 0;
    while k < p.subs.len()
        invariant
            k <= p.subs.len(),
            csubs == subs_vw(p.subs@),
            csubs.len() == p.subs@.len(),
            forall|t: int| 0 <= t < p.subs@.len() ==> csubs[t] == p.subs@[t].vw(),
            forall|t: int| 0 <= t < k ==> csubs[t].name != d@,
        decreases p.subs.len() - k,
    {
        if str_eq(p.subs[k].name.as_str(), d) {
            proof {
                assert(csubs[k as int].name == d@);
            }
            return true;
        }
        k += 1;
    }
    false
}

fn emit_edges(p: &Project, names: &Vec<String>, ignore: &Vec<String>, rules: &Vec<String>, out: &mut Vec<String>)
    ensures
        final(out).deep_view() == old(out).deep_view() + tree_edge_lines(
            p.vw(),
            names.deep_view().to_set(),
            ignore.deep_view().to_set(),
            rules.deep_view(),
        ),
    decreases *p,
{
    let ghost pv = p.vw();
    let ghost names_set = names.deep_view().to_set();
    let ghost ignore_set = ignore.deep_view().to_set();
    let ghost rv = rules.deep_view();
    let ghost before = out.deep_view();
    let ghost dv = p.deps.deep_view();
    let ghost keep = |d: Seq<char>| edge_keep(pv, d, names_set, ignore_set);
    let ghost to_line = |d: Seq<char>| edge_line(pv.name, d, rules.deep_view());
    let mut i: usize = 0;
    proof {
        assert(dv.take(0) =~= Seq::<Seq<char>>::empty());
        assert(dv.take(0).filter(keep) =~= Seq::<Seq<char>>::empty()) by {
            reveal(Seq::filter);
        }
        assert(out.deep_view() =~= before + dv.take(0).filter(keep).map_values(to_line));
    }
    while i < p.deps.len()
        invariant
            i <= p.deps.len(),
            pv == p.vw(),
            names_set == names.deep_view().to_set(),
            ignore_set == ignore.deep_view().to_set(),
            rv == rules.deep_view(),
            dv == p.deps.deep_view(),
            dv.len() == p.deps@.len(),
            keep == (|d: Seq<char>| edge_keep(pv, d, names_set, ignore_set)),
            to_line == (|d: Seq<char>| edge_line(pv.name, d, rules.deep_view())),
            out.deep_view() == before + dv.take(i as int).filter(keep).map_values(to_line),
        decreases p.deps.len() - i,
    {
        let d = &p.deps[i];
        proof {
            assert(dv[i as int] == p.deps@[i as int]@);
            assert(dv.take(i as int + 1) =~= dv.take(i as int).push(dv[i as int]));
            dv.take(i as int).lemma_filter_push(dv[i as int], keep);
        }
        let is_internal = contains_name(names, d.as_str());
        let from_ignored = contains_name(ignore, p.name.as_str());
        let dep_ignored = contains_name(ignore, d.as_str());
        let is_child = has_child_named(p, d.as_str());
        if is_internal && !from_ignored && !dep_ignored && !is_child {
            proof {
                assert(keep(dv[i as int]));
            }
            let mut line = quote_name(p.name.as_str());
            line.append(" -> ");
            let q2 = quote_name(d.as_str());
            line.append(q2.as_str());
            line.append(" ");
            let attrs = pick_attrs(p.name.as_str(), d.as_str(), rules);
            line.append(attrs);
            proof {
                assert(line@ =~= edge_line(pv.name, dv[i as int], rv));
            }
            let ghost mid = out.deep_view();
            out.push(line);
            proof {
                let prev = dv.take(i as int).filter(keep);
                assert(out.deep_view() =~= mid.push(to_line(dv[i as int])));
                assert(prev.push(dv[i as int]).map_values(to_line) =~= prev.map_values(
                    to_line,
                ).push(to_line(dv[i as int])));
                assert(out.deep_view() =~= before + dv.take(i as int + 1).filter(keep).map_values(
                    to_line,
                ));
            }
        } else {
            proof {
                assert(!keep(dv[i as int]));
            }
        }
        i += 1;
    }
    proof {
        assert(dv.take(p.deps@.len() as int) =~= dv);
        assert(out.deep_view() =~= before + node_edge_lines(pv, names_set, ignore_set, rv));
        lemma_subs_vw(p.subs@);
    }
    let ghost csubs = pv.subs;
    let ghost pre_children = out.deep_view();
    let mut j: usize = 0;
    proof {
        assert(pre_children + edge_forest_from(csubs, names_set, ignore_set, rv, 0)
            =~= out.deep_view() + edge_forest_from(csubs, names_set, ignore_set, rv, 0));
    }
    while j < p.subs.len()
        invariant
            j <= p.subs.len(),
            names_set == names.deep_view().to_set(),
            ignore_set == ignore.deep_view().to_set(),
            rv == rules.deep_view(),
            csubs == subs_vw(p.subs@),
            csubs.len() == p.subs@.len(),
            forall|t: int| 0 <= t < p.subs@.len() ==> csubs[t] == p.subs@[t].vw(),
            pre_children + edge_forest_from(csubs, names_set, ignore_set, rv, 0) == out.deep_view()
                + edge_forest_from(csubs, names_set, ignore_set, rv, j as int),
        decreases p.subs.len() - j,
    {
        let ghost mid = out.deep_view();
        emit_edges(&p.subs[j], names, ignore, rules, out);
        proof {
            assert(out.deep_view() + edge_forest_from(csubs, names_set, ignore_set, rv, j as int + 1)
                =~= mid + (tree_edge_lines(csubs[j as int], names_set, ignore_set, rv)
                + edge_forest_from(csubs, names_set, ignore_set, rv, j as int + 1)));
        }
        j += 1;
    }
    proof {
        assert(edge_forest_from(csubs, names_set, ignore_set, rv, p.subs@.len() as int) =~= Seq::<
            Seq<char>,
        >::empty());
        assert(out.deep_view() + Seq::<Seq<char>>::empty() =~= out.deep_view());
        assert(out.deep_view() =~= before + tree_edge_lines(pv, names_set, ignore_set, rv));
    }
}

/// The DOT digraph of a tree, as lines. `ignore` suppresses every edge
/// touching one of its names; `highlight` colours each edge by its first
/// matching rule, when it holds any rule at all.
pub fn render_project_dot(p: &Project, ignore: &Vec<String>, highlight: &Vec<String>) -> (r: Vec<
    String,
>)
    ensures
        r.deep_view() == spec_render_dot(
            p.vw(),
            ignore.deep_view().to_set(),
            highlight.deep_view(),
        ),
{
    let names = collect_crate_names(p);
    let mut out: Vec<String> = Vec::new();
    out.push(String::from_str("digraph G {"));
    proof {
        assert(out.deep_view() =~= seq!["digraph G {"@]);
    }
    emit_clusters(p, &mut out);
    emit_edges(p, &names, ignore, highlight, &mut out);
    let ghost closing = out.deep_view();
    out.push(String::from_str("}"));
    proof {
        assert(out.deep_view() =~= closing.push("}"@));
        assert(out.deep_view() =~= spec_render_dot(
            p.vw(),
            ignore.deep_view().to_set(),
            highlight.deep_view(),
        ));
    }
    out
}

/// Edge-filter law: no emitted edge of a node targets one of that node's
/// direct children, and no emitted edge touches an ignored name on either
/// end.
pub proof fn lemma_edge_filter(p: ProjectView, names: Set<Seq<char>>, ignore: Set<Seq<char>>)
    ensures
        forall|k: int| 0 <= k < kept_deps(p, names, ignore).len() ==> edge_keep(
            p,
            #[trigger] kept_deps(p, names, ignore)[k],
            names,
            ignore,
        ),
{
    assert forall|k: int| 0 <= k < kept_deps(p, names, ignore).len() implies edge_keep(
        p,
        #[trigger] kept_deps(p, names, ignore)[k],
        names,
        ignore,
    ) by {
        p.deps.lemma_filter_pred(|d: Seq<char>| edge_keep(p, d, names, ignore), k);
    }
}

/// Highlight precedence law: when the first rule of the list matches an
/// edge, it alone decides the colour; later rules are never consulted.
pub proof fn lemma_highlight_first_match(from: Seq<char>, to: Seq<char>, rules: Seq<Seq<char>>)
    requires
        rules.len() >= 1,
        rule_matches(rules[0], from, to),
    ensures
        edge_attrs(from, to, rules) == rule_color(rules[0], from, to),
{
}

} // verus!
