//! The project tree: one node per directory that carries a manifest, with
//! the component name, optional description, declared dependency names, and
//! the child components found in subdirectories.
use vstd::prelude::*;
use crate::strutil::str_eq;

verus! {

/// A component node, as built from one directory.
pub struct Project {
    /// Name of the directory the node was built from; empty for an unnamed
    /// root.
    pub folder: String,
    /// Component name from the manifest; empty when the manifest lacked one
    /// and the lenient name policy is in force.
    pub name: String,
    /// Optional human-readable description from the manifest.
    pub desc: Option<String>,
    /// Dependency names in declaration order, duplicates kept.
    pub deps: Vec<String>,
    /// Child components, one per manifested subdirectory, in listing order.
    pub subs: Vec<Project>,
}

/// The mathematical shape of a project node.
#[verifier::ext_equal]
pub ghost struct ProjectView {
    pub folder: Seq<char>,
    pub name: Seq<char>,
    pub desc: Option<Seq<char>>,
    pub deps: Seq<Seq<char>>,
    pub subs: Seq<ProjectView>,
}

pub open spec fn opt_str_view(o: Option<String>) -> Option<Seq<char>> {
    match o {
        Some(s) => Some(s@),
        None => None,
    }
}

impl Project {
    /// The node's mathematical shape.
    pub open spec fn vw(self) -> ProjectView
        decreases self,
    {
        ProjectView {
            folder: self.folder@,
            name: self.name@,
            desc: opt_str_view(self.desc),
            deps: self.deps.deep_view(),
            subs: subs_vw(self.subs@),
        }
    }
}

/// The shapes of a list of nodes, in order.
pub open spec fn subs_vw(s: Seq<Project>) -> Seq<ProjectView>
    decreases s,
{
    if s.len() == 0 {
        Seq::empty()
    } else {
        seq![s[0].vw()] + subs_vw(s.drop_first())
    }
}

pub proof fn lemma_subs_vw(s: Seq<Project>)
    ensures
        subs_vw(s).len() == s.len(),
        forall|i: int| 0 <= i < s.len() ==> subs_vw(s)[i] == s[i].vw(),
    decreases s,
{
    if s.len() > 0 {
        lemma_subs_vw(s.drop_first());
        assert forall|i: int| 0 <= i < s.len() implies subs_vw(s)[i] == s[i].vw() by {
            if i > 0 {
                assert(subs_vw(s)[i] == subs_vw(s.drop_first())[i - 1]);
                assert(s.drop_first()[i - 1] == s[i]);
            }
        }
    }
}

/// Every component name appearing anywhere in the tree.
pub open spec fn tree_names(p: ProjectView) -> Set<Seq<char>>
    decreases p,
{
    set![p.name].union(forest_names(p.subs))
}

pub open spec fn forest_names(subs: Seq<ProjectView>) -> Set<Seq<char>>
    decreases subs,
{
    if subs.len() == 0 {
        Set::empty()
    } else {
        tree_names(subs[0]).union(forest_names(subs.drop_first()))
    }
}

proof fn lemma_push_to_set(s: Seq<Seq<char>>, x: Seq<char>)
    ensures
        s.push(x).to_set() == s.to_set().insert(x),
{
    assert forall|y: Seq<char>| s.push(x).to_set().contains(y) <==> s.to_set().insert(x).contains(
        y,
    ) by {
        if s.push(x).contains(y) {
            let k = choose|k: int| 0 <= k < s.push(x).len() && s.push(x)[k] == y;
            if k < s.len() {
                assert(s.contains(y));
            }
        }
        if s.contains(y) {
            let k = choose|k: int| 0 <= k < s.len() && s[k] == y;
            assert(s.push(x)[k] == y);
            assert(s.push(x).contains(y));
        }
        if y == x {
            assert(s.push(x)[s.len() as int] == y);
            assert(s.push(x).contains(y));
        }
    }
    assert(s.push(x).to_set() =~= s.to_set().insert(x));
}

/// Names of the subtrees from index `i` on.
pub open spec fn forest_names_from(subs: Seq<ProjectView>, i: int) -> Set<Seq<char>>
    decreases subs, subs.len() - i,
{
    if i < 0 || i >= subs.len() {
        Set::empty()
    } else {
        tree_names(subs[i]).union(forest_names_from(subs, i + 1))
    }
}

proof fn lemma_forest_names_from(subs: Seq<ProjectView>, i: int)
    requires
        0 <= i <= subs.len(),
    ensures
        forest_names_from(subs, i) == forest_names(subs.skip(i)),
    decreases subs.len() - i,
{
    if i == subs.len() {
        assert(subs.skip(i).len() == 0);
    } else {
        lemma_forest_names_from(subs, i + 1);
        assert(subs.skip(i)[0] == subs[i]);
        assert(subs.skip(i).drop_first() =~= subs.skip(i + 1));
    }
}

fn collect_into(p: &Project, names: &mut Vec<String>)
    ensures
        final(names).deep_view().to_set() == old(names).deep_view().to_set().union(
            tree_names(p.vw()),
        ),
    decreases *p,
{
    let ghost base = names.deep_view().to_set();
    names.push(p.name.clone());
    proof {
        assert(names.deep_view() =~= old(names).deep_view().push(p.name@));
        lemma_push_to_set(old(names).deep_view(), p.name@);
    }
    let ghost subs_v = p.vw().subs;
    let mut i: usize = 0;
    proof {
        lemma_subs_vw(p.subs@);
        assert(names.deep_view().to_set().union(forest_names_from(subs_v, 0)) =~= base.union(
            tree_names(p.vw()),
        )) by {
            lemma_forest_names_from(subs_v, 0);
            assert(subs_v.skip(0) =~= subs_v);
        }
    }
    while i < p.subs.len()
        invariant
            i <= p.subs.len(),
            subs_v == p.vw().subs,
            subs_v.len() == p.subs.len(),
            names.deep_view().to_set().union(forest_names_from(subs_v, i as int)) == base.union(
                tree_names(p.vw()),
            ),
        decreases p.subs.len() - i,
    {
        let ghost before = names.deep_view().to_set();
        collect_into(&p.subs[i], names);
        proof {
            lemma_subs_vw(p.subs@);
            assert(subs_v[i as int] == p.subs@[i as int].vw());
            assert(names.deep_view().to_set().union(forest_names_from(subs_v, i as int + 1))
                =~= before.union(forest_names_from(subs_v, i as int)));
        }
        i += 1;
    }
    proof {
        assert(forest_names_from(subs_v, p.subs.len() as int) =~= Set::<Seq<char>>::empty());
        assert(names.deep_view().to_set() =~= names.deep_view().to_set().union(
            forest_names_from(subs_v, p.subs.len() as int),
        ));
    }
}

/// The crate-name index: every component name in the tree, as a list whose
/// set of elements is exactly the tree's names.
pub fn collect_crate_names(p: &Project) -> (r: Vec<String>)
    ensures
        r.deep_view().to_set() == tree_names(p.vw()),
{
    let mut names: Vec<String> = Vec::new();
    collect_into(p, &mut names);
    proof {
        assert(Seq::<Seq<char>>::empty().to_set().union(tree_names(p.vw())) =~= tree_names(
            p.vw(),
        )) by {
            assert(forall|y: Seq<char>| !Seq::<Seq<char>>::empty().contains(y));
        }
    }
    names
}

/// Membership in the crate-name index.
pub fn contains_name(names: &Vec<String>, s: &str) -> (r: bool)
    ensures
        r == names.deep_view().to_set().contains(s@),
{
    let mut i: usize = 0;
    while i < names.len()
        invariant
            i <= names.len(),
            forall|j: int| 0 <= j < i ==> names.deep_view()[j] != s@,
        decreases names.len() - i,
    {
        if str_eq(names[i].as_str(), s) {
            proof {
                assert(names.deep_view()[i as int] == s@);
                assert(names.deep_view().contains(s@));
            }
            return true;
        }
        i += 1;
    }
    proof {
        assert(!names.deep_view().contains(s@));
    }
    false
}

} // verus!
