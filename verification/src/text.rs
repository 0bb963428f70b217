//! The indented text report: a fixed legend, then one block per node with
//! a rail-mark margin per ancestor level, the word-wrapped header and
//! description, and the dependency names grouped into internal and external
//! lists.
use vstd::prelude::*;
use crate::project::Project;
use crate::project::ProjectView;
use crate::project::tree_names;
use crate::project::subs_vw;
use crate::project::lemma_subs_vw;
use crate::project::collect_crate_names;
use crate::project::contains_name;
use crate::strutil::spec_repeat;
use crate::strutil::repeat_str;
use crate::strutil::spec_join_comma;
use crate::strutil::join_comma;
use crate::wrap::spec_pad_text;
use crate::wrap::pad_text;

verus! {

/// The rail marker that builds the left margin, one copy per level.
pub open spec fn rail() -> Seq<char> {
    "   |"@
}

pub open spec fn margin_seq(level: nat) -> Seq<char> {
    spec_repeat(rail(), level)
}

pub open spec fn spaces_seq(n: nat) -> Seq<char> {
    spec_repeat(" "@, n)
}

proof fn lemma_repeat_len(s: Seq<char>, n: nat)
    ensures
        spec_repeat(s, n).len() == n * s.len(),
    decreases n,
{
    if n > 0 {
        lemma_repeat_len(s, (n - 1) as nat);
        assert(n * s.len() == (n - 1) * s.len() + s.len()) by (nonlinear_arith);
    }
}

/// The column budget at nesting `level` for a folder label of
/// `folder_len` characters: nominally 80 − folder_len + 3 + 4·level, so
/// that the right edge of wrapped lines stays aligned as the label and the
/// nesting grow; clamped below at zero and above at the machine limit.
pub open spec fn spec_budget(folder_len: nat, level: nat) -> nat {
    let capped: int = if 4 * level > usize::MAX - 83 {
        usize::MAX as int
    } else {
        83 + 4 * (level as int)
    };
    if capped >= folder_len {
        (capped - folder_len) as nat
    } else {
        0
    }
}

/// The computed column budget, from the folder label's length and the
/// margin's length (four characters per level).
fn budget_of(folder_len: usize, margin_len: usize, Ghost(level): Ghost<nat>) -> (r: usize)
    requires
        margin_len == 4 * level,
    ensures
        r as nat == spec_budget(folder_len as nat, level),
{
    let capped: usize = if margin_len > usize::MAX - 83 {
        usize::MAX
    } else {
        83 + margin_len
    };
    if capped >= folder_len {
        capped - folder_len
    } else {
        0
    }
}

/// The header text of a node: the bracketed name, then the description or
/// the `<no desc>` placeholder.
pub open spec fn header_text(p: ProjectView) -> Seq<char> {
    "["@ + p.name + "] "@ + (match p.desc {
        Some(d) => d,
        None => "<no desc>"@,
    })
}

/// Lines of a wrapped block: the first line after `p1`, every further line
/// after `p2`.
pub open spec fn two_prefixed(p1: Seq<char>, p2: Seq<char>, ls: Seq<Seq<char>>) -> Seq<Seq<char>> {
    Seq::new(ls.len(), |k: int| if k == 0 { p1 + ls[0] } else { p2 + ls[k] })
}

/// A dependency list's lines: nothing when the joined list is empty, else
/// the joined names wrapped to the budget, each line after the prefix.
pub open spec fn dep_block(prefix: Seq<char>, joined: Seq<char>, bud: int) -> Seq<Seq<char>> {
    if joined.len() == 0 {
        Seq::empty()
    } else {
        two_prefixed(prefix, prefix, spec_pad_text(joined, bud))
    }
}

/// The dependency names that name another component of this tree.
pub open spec fn internal_deps(deps: Seq<Seq<char>>, names: Set<Seq<char>>) -> Seq<Seq<char>> {
    deps.filter(|d: Seq<char>| names.contains(d))
}

/// The dependency names that name nothing in this tree.
pub open spec fn external_deps(deps: Seq<Seq<char>>, names: Set<Seq<char>>) -> Seq<Seq<char>> {
    deps.filter(|d: Seq<char>| !names.contains(d))
}

/// The report lines of one node and its subtree at `level`.
pub open spec fn node_lines(p: ProjectView, names: Set<Seq<char>>, level: nat) -> Seq<Seq<char>>
    decreases p,
{
    let bud = spec_budget(p.folder.len(), level) as int;
    let m = margin_seq(level);
    let sp = spaces_seq(p.folder.len());
    two_prefixed(m + p.folder + " - "@, m + sp + "   "@, spec_pad_text(header_text(p), bud))
        + dep_block(m + sp + "   < "@, spec_join_comma(internal_deps(p.deps, names)), bud)
        + dep_block(m + sp + "   > "@, spec_join_comma(external_deps(p.deps, names)), bud)
        + children_lines_from(p.subs, names, level, 0)
}

/// The report lines of the children from index `i` on, each preceded by
/// one bare rail line at the parent's level.
pub open spec fn children_lines_from(
    subs: Seq<ProjectView>,
    names: Set<Seq<char>>,
    level: nat,
    i: int,
) -> Seq<Seq<char>>
    decreases subs, subs.len() - i,
{
    if i < 0 || i >= subs.len() {
        Seq::empty()
    } else {
        seq![margin_seq(level)] + node_lines(subs[i], names, level + 1) + children_lines_from(
            subs,
            names,
            level,
            i + 1,
        )
    }
}

/// The legend the report opens with.
pub open spec fn legend() -> Seq<Seq<char>> {
    seq![
        "dump format:"@,
        " <folder-name> - [<crate-name>] crate-description"@,
        "                 < internal dependencies"@,
        "                 > external dependencies"@,
        ""@,
    ]
}

/// The whole text report of a tree: the legend, then the root's block at
/// level zero, against the tree's own crate-name index.
pub open spec fn spec_render_text(p: ProjectView) -> Seq<Seq<char>> {
    legend() + node_lines(p, tree_names(p), 0)
}

fn push_two_prefixed(out: &mut Vec<String>, pfx1: &String, pfx2: &String, lines: &Vec<String>)
    ensures
        final(out).deep_view() == old(out).deep_view() + two_prefixed(
            pfx1@,
            pfx2@,
            lines.deep_view(),
        ),
{
    let ghost target = two_prefixed(pfx1@, pfx2@, lines.deep_view());
    let mut k: usize = 0;
    proof {
        assert(out.deep_view() + target.take(0) =~= out.deep_view());
    }
    while k < lines.len()
        invariant
            k <= lines.len(),
            target == two_prefixed(pfx1@, pfx2@, lines.deep_view()),
            target.len() == lines.deep_view().len(),
            lines.deep_view().len() == lines@.len(),
            out.deep_view() == old(out).deep_view() + target.take(k as int),
        decreases lines.len() - k,
    {
        let ghost before = out.deep_view();
        let mut line = if k == 0 {
            pfx1.clone()
        } else {
            pfx2.clone()
        };
        line.append(lines[k].as_str());
        proof {
            assert(lines.deep_view()[k as int] == lines@[k as int]@);
            assert(line@ == target[k as int]);
        }
        out.push(line);
        proof {
            assert(out.deep_view() =~= before.push(target[k as int]));
            assert(target.take(k as int + 1) =~= target.take(k as int).push(target[k as int]));
            assert(before.push(target[k as int]) =~= old(out).deep_view() + target.take(
                k as int + 1,
            ));
        }
        k += 1;
    }
    proof {
        assert(target.take(lines@.len() as int) =~= target);
    }
}

fn render_node(
    p: &Project,
    names: &Vec<String>,
    margin: &String,
    Ghost(level): Ghost<nat>,
    out: &mut Vec<String>,
)
    requires
        margin@ == margin_seq(level),
    ensures
        final(out).deep_view() == old(out).deep_view() + node_lines(
            p.vw(),
            names.deep_view().to_set(),
            level,
        ),
    decreases *p,
{
    let ghost names_set = names.deep_view().to_set();
    let ghost pv = p.vw();
    let flen = p.folder.as_str().unicode_len();
    let mlen = margin.as_str().unicode_len();
    proof {
        lemma_repeat_len(rail(), level);
        assert(rail().len() == 4) by {
            reveal_strlit("   |");
        }
    }
    let bud = budget_of(flen, mlen, Ghost(level));
    let sp = repeat_str(" ", flen);
    proof {
        assert(sp@ == spaces_seq(pv.folder.len()));
    }

    // Header: "[name] description", wrapped; first line carries the folder
    // label, continuation lines align under it.
    let mut text = String::from_str("[");
    text.append(p.name.as_str());
    text.append("] ");
    match &p.desc {
        Some(d) => text.append(d.as_str()),
        None => text.append("<no desc>"),
    };
    proof {
        assert(text@ =~= header_text(pv));
    }
    let wrapped = pad_text(text.as_str(), bud);
    let mut pfx1 = margin.clone();
    pfx1.append(p.folder.as_str());
    pfx1.append(" - ");
    let mut pfx2 = margin.clone();
    pfx2.append(sp.as_str());
    pfx2.append("   ");
    proof {
        assert(pfx1@ =~= margin_seq(level) + pv.folder + " - "@);
        assert(pfx2@ =~= margin_seq(level) + spaces_seq(pv.folder.len()) + "   "@);
    }
    let ghost out0 = out.deep_view();
    push_two_prefixed(out, &pfx1, &pfx2, &wrapped);

    // Dependencies, partitioned by the crate-name index.
    let mut ivec: Vec<String> = Vec::new();
    let mut evec: Vec<String> = Vec::new();
    let ghost dv = p.deps.deep_view();
    let mut i: usize = 0;
    proof {
        assert(ivec.deep_view() =~= Seq::<Seq<char>>::empty());
        assert(evec.deep_view() =~= Seq::<Seq<char>>::empty());
        assert(dv.take(0) =~= Seq::<Seq<char>>::empty());
        assert(dv.take(0).filter(|d: Seq<char>| names_set.contains(d)) =~= Seq::<Seq<char>>::empty())
            by {
            reveal(Seq::filter);
        }
        assert(dv.take(0).filter(|d: Seq<char>| !names_set.contains(d)) =~= Seq::<
            Seq<char>,
        >::empty()) by {
            reveal(Seq::filter);
        }
    }
    while i < p.deps.len()
        invariant
            i <= p.deps.len(),
            dv == p.deps.deep_view(),
            dv.len() == p.deps@.len(),
            names_set == names.deep_view().to_set(),
            ivec.deep_view() == dv.take(i as int).filter(|d: Seq<char>| names_set.contains(d)),
            evec.deep_view() == dv.take(i as int).filter(|d: Seq<char>| !names_set.contains(d)),
        decreases p.deps.len() - i,
    {
        let d = &p.deps[i];
        let ghost before_i = ivec.deep_view();
        let ghost before_e = evec.deep_view();
        proof {
            assert(dv[i as int] == p.deps@[i as int]@);
            assert(dv.take(i as int + 1) =~= dv.take(i as int).push(dv[i as int]));
            dv.take(i as int).lemma_filter_push(dv[i as int], |d: Seq<char>| names_set.contains(d));
            dv.take(i as int).lemma_filter_push(
                dv[i as int],
                |d: Seq<char>| !names_set.contains(d),
            );
        }
        if contains_name(names, d.as_str()) {
            ivec.push(d.clone());
            proof {
                assert(ivec.deep_view() =~= before_i.push(dv[i as int]));
            }
        } else {
            evec.push(d.clone());
            proof {
                assert(evec.deep_view() =~= before_e.push(dv[i as int]));
            }
        }
        i += 1;
    }
    proof {
        assert(dv.take(p.deps@.len() as int) =~= dv);
    }
    let ij = join_comma(&ivec);
    if !ij.as_str().is_empty() {
        let mut ipfx = margin.clone();
        ipfx.append(sp.as_str());
        ipfx.append("   < ");
        proof {
            assert(ipfx@ =~= margin_seq(level) + spaces_seq(pv.folder.len()) + "   < "@);
        }
        let iw = pad_text(ij.as_str(), bud);
        push_two_prefixed(out, &ipfx, &ipfx, &iw);
    }
    let ej = join_comma(&evec);
    if !ej.as_str().is_empty() {
        let mut epfx = margin.clone();
        epfx.append(sp.as_str());
        epfx.append("   > ");
        proof {
            assert(epfx@ =~= margin_seq(level) + spaces_seq(pv.folder.len()) + "   > "@);
        }
        let ew = pad_text(ej.as_str(), bud);
        push_two_prefixed(out, &epfx, &epfx, &ew);
    }
    let ghost pre_children = out.deep_view();
    proof {
        assert(pre_children =~= out0 + two_prefixed(
            margin_seq(level) + pv.folder + " - "@,
            margin_seq(level) + spaces_seq(pv.folder.len()) + "   "@,
            spec_pad_text(header_text(pv), spec_budget(pv.folder.len(), level) as int),
        ) + dep_block(
            margin_seq(level) + spaces_seq(pv.folder.len()) + "   < "@,
            spec_join_comma(internal_deps(pv.deps, names_set)),
            spec_budget(pv.folder.len(), level) as int,
        ) + dep_block(
            margin_seq(level) + spaces_seq(pv.folder.len()) + "   > "@,
            spec_join_comma(external_deps(pv.deps, names_set)),
            spec_budget(pv.folder.len(), level) as int,
        ));
    }

    // Children, each preceded by one bare rail line at this level.
    let mut cm = margin.clone();
    cm.append("   |");
    proof {
        assert(cm@ =~= margin_seq(level + 1));
        lemma_subs_vw(p.subs@);
    }
    let ghost csubs = pv.subs;
    let mut j: usize = 0;
    proof {
        assert(pre_children + children_lines_from(csubs, names_set, level, 0) =~= out.deep_view()
            + children_lines_from(csubs, names_set, level, 0));
    }
    while j < p.subs.len()
        invariant
            j <= p.subs.len(),
            margin@ == margin_seq(level),
            cm@ == margin_seq(level + 1),
            names_set == names.deep_view().to_set(),
            csubs == subs_vw(p.subs@),
            csubs.len() == p.subs@.len(),
            forall|t: int| 0 <= t < p.subs@.len() ==> csubs[t] == p.subs@[t].vw(),
            pre_children + children_lines_from(csubs, names_set, level, 0) == out.deep_view()
                + children_lines_from(csubs, names_set, level, j as int),
        decreases p.subs.len() - j,
    {
        let ghost before = out.deep_view();
        out.push(margin.clone());
        render_node(&p.subs[j], names, &cm, Ghost(level + 1), out);
        proof {
            assert(out.deep_view() =~= before.push(margin_seq(level)) + node_lines(
                csubs[j as int],
                names_set,
                level + 1,
            ));
            assert(before.push(margin_seq(level)) =~= before + seq![margin_seq(level)]);
            assert(out.deep_view() + children_lines_from(csubs, names_set, level, j as int + 1)
                =~= before + (seq![margin_seq(level)] + node_lines(csubs[j as int], names_set, level + 1)
                + children_lines_from(csubs, names_set, level, j as int + 1)));
        }
        j += 1;
    }
    proof {
        assert(children_lines_from(csubs, names_set, level, p.subs@.len() as int) =~= Seq::<
            Seq<char>,
        >::empty());
        assert(out.deep_view() + Seq::<Seq<char>>::empty() =~= out.deep_view());
        assert(out.deep_view() =~= old(out).deep_view() + node_lines(pv, names_set, level));
    }
}

/// The indented text report of a tree, as lines: the legend, then every
/// node with its margin, wrapped header, and grouped dependency lists.
pub fn render_project_text(p: &Project) -> (r: Vec<String>)
    ensures
        r.deep_view() == spec_render_text(p.vw()),
{
    let names = collect_crate_names(p);
    let mut out: Vec<String> = Vec::new();
    out.push(String::from_str("dump format:"));
    out.push(String::from_str(" <folder-name> - [<crate-name>] crate-description"));
    out.push(String::from_str("                 < internal dependencies"));
    out.push(String::from_str("                 > external dependencies"));
    out.push(String::new());
    proof {
        reveal_strlit("");
        assert(""@ =~= Seq::<char>::empty());
        assert(out.deep_view() =~= legend());
    }
    let margin0 = String::new();
    proof {
        assert(margin0@ =~= margin_seq(0));
    }
    render_node(p, &names, &margin0, Ghost(0nat), &mut out);
    proof {
        assert(out.deep_view() =~= spec_render_text(p.vw()));
    }
    out
}

} // verus!
