//! Building the project tree from a snapshot of the directory tree: a node
//! for every directory that carries a manifest, pruned at any directory
//! that carries none, whose own subdirectories then contribute nothing.
use vstd::prelude::*;
use crate::manifest::ManifestError;
use crate::manifest::ManifestInfo;
use crate::project::Project;
use crate::project::ProjectView;
use crate::project::subs_vw;
use crate::project::lemma_subs_vw;
use crate::project::opt_str_view;
use crate::reader::parse_manifest;
use crate::reader::spec_parse_manifest;

verus! {

/// A directory as the walk found it: its name, the text of its manifest
/// file if it has one, and its immediate subdirectories in listing order.
pub struct SourceDir {
    /// Final path segment of the directory; empty for an unnamed root.
    pub label: String,
    /// The manifest file's text, when the directory has one.
    pub manifest: Option<String>,
    /// Immediate subdirectories, in listing order.
    pub subdirs: Vec<SourceDir>,
}

/// The mathematical shape of a directory snapshot.
#[verifier::ext_equal]
pub ghost struct DirView {
    pub label: Seq<char>,
    pub manifest: Option<Seq<char>>,
    pub subdirs: Seq<DirView>,
}

impl SourceDir {
    /// The snapshot's mathematical shape.
    pub open spec fn vw(self) -> DirView
        decreases self,
    {
        DirView {
            label: self.label@,
            manifest: opt_str_view(self.manifest),
            subdirs: dirs_vw(self.subdirs@),
        }
    }
}

/// The shapes of a list of directory snapshots, in order.
pub open spec fn dirs_vw(s: Seq<SourceDir>) -> Seq<DirView>
    decreases s,
{
    if s.len() == 0 {
        Seq::empty()
    } else {
        seq![s[0].vw()] + dirs_vw(s.drop_first())
    }
}

pub proof fn lemma_dirs_vw(s: Seq<SourceDir>)
    ensures
        dirs_vw(s).len() == s.len(),
        forall|i: int| 0 <= i < s.len() ==> dirs_vw(s)[i] == s[i].vw(),
    decreases s,
{
    if s.len() > 0 {
        lemma_dirs_vw(s.drop_first());
        assert forall|i: int| 0 <= i < s.len() implies dirs_vw(s)[i] == s[i].vw() by {
            if i > 0 {
                assert(dirs_vw(s)[i] == dirs_vw(s.drop_first())[i - 1]);
                assert(s.drop_first()[i - 1] == s[i]);
            }
        }
    }
}

/// The node a directory yields: none without a manifest; with one, a node
/// whose folder label is the directory's label, whose fields come from the
/// manifest, and whose children are the nodes of the subdirectories, in
/// order. Under the strict name policy a nameless manifest is the error
/// `MissingName`; under the lenient one the name is left empty. The first
/// failing manifest anywhere aborts the whole build.
pub open spec fn spec_build(d: DirView, strict: bool) -> Result<Option<ProjectView>, ManifestError>
    decreases d,
{
    match d.manifest {
        None => Ok(None),
        Some(text) => match spec_parse_manifest(text) {
            Err(e) => Err(e),
            Ok(mv) => match spec_build_subs_from(d.subdirs, 0, strict) {
                Err(e) => Err(e),
                Ok(children) => if strict && mv.name is None {
                    Err(ManifestError::MissingName)
                } else {
                    Ok(
                        Some(
                            ProjectView {
                                folder: d.label,
                                name: match mv.name {
                                    Some(n) => n,
                                    None => Seq::empty(),
                                },
                                desc: mv.desc,
                                deps: mv.deps,
                                subs: children,
                            },
                        ),
                    )
                },
            },
        },
    }
}

/// The children contributed by the subdirectories from index `i` on.
pub open spec fn spec_build_subs_from(subs: Seq<DirView>, i: int, strict: bool) -> Result<
    Seq<ProjectView>,
    ManifestError,
>
    decreases subs, subs.len() - i,
{
    if i < 0 || i >= subs.len() {
        Ok(Seq::empty())
    } else {
        match spec_build(subs[i], strict) {
            Err(e) => Err(e),
            Ok(None) => spec_build_subs_from(subs, i + 1, strict),
            Ok(Some(p)) => match spec_build_subs_from(subs, i + 1, strict) {
                Err(e) => Err(e),
                Ok(rest) => Ok(seq![p] + rest),
            },
        }
    }
}

/// The children contributed by a list of subdirectories.
pub open spec fn spec_build_subs(subs: Seq<DirView>, strict: bool) -> Result<
    Seq<ProjectView>,
    ManifestError,
> {
    spec_build_subs_from(subs, 0, strict)
}

/// Builds the project tree of a directory snapshot. `strict` selects the
/// name policy: a nameless manifest is fatal when set, and yields an empty
/// name otherwise.
pub fn build_tree(d: &SourceDir, strict: bool) -> (r: Result<Option<Project>, ManifestError>)
    ensures
        match r {
            Ok(opt) => match opt {
                Some(p) => spec_build(d.vw(), strict) == Ok::<Option<ProjectView>, ManifestError>(
                    Some(p.vw()),
                ),
                None => spec_build(d.vw(), strict) == Ok::<Option<ProjectView>, ManifestError>(
                    None,
                ),
            },
            Err(e) => spec_build(d.vw(), strict) == Err::<Option<ProjectView>, ManifestError>(e),
        },
    decreases *d,
{
    let text = match &d.manifest {
        None => {
            return Ok(None);
        },
        Some(t) => t,
    };
    let info = match parse_manifest(text.as_str()) {
        Err(e) => {
            return Err(e);
        },
        Ok(m) => m,
    };
    let ghost mv = info.vw();
    let ghost dsubs = d.vw().subdirs;
    proof {
        lemma_dirs_vw(d.subdirs@);
    }
    let mut children: Vec<Project> = Vec::new();
    let mut i: usize = 0;
    proof {
        assert(subs_vw(children@) =~= Seq::<ProjectView>::empty());
    }
    while i < d.subdirs.len()
        invariant
            i <= d.subdirs.len(),
            d.vw().manifest == Some(text@),
            spec_parse_manifest(text@) == Ok::<crate::manifest::ManifestView, ManifestError>(mv),
            dsubs == d.vw().subdirs,
            dsubs.len() == d.subdirs@.len(),
            forall|j: int| 0 <= j < d.subdirs@.len() ==> dsubs[j] == d.subdirs@[j].vw(),
            match spec_build_subs_from(dsubs, i as int, strict) {
                Ok(rest) => spec_build_subs(dsubs, strict) == Ok::<Seq<ProjectView>, ManifestError>(
                    subs_vw(children@) + rest,
                ),
                Err(e) => spec_build_subs(dsubs, strict) == Err::<Seq<ProjectView>, ManifestError>(
                    e,
                ),
            },
        decreases d.subdirs.len() - i,
    {
        match build_tree(&d.subdirs[i], strict) {
            Err(e) => {
                proof {
                    assert(spec_build_subs_from(dsubs, i as int, strict) == Err::<
                        Seq<ProjectView>,
                        ManifestError,
                    >(e));
                    assert(spec_build_subs(dsubs, strict) == Err::<Seq<ProjectView>, ManifestError>(
                        e,
                    ));
                    assert(d.vw().manifest == Some(text@));
                    assert(spec_build(d.vw(), strict) == Err::<Option<ProjectView>, ManifestError>(
                        e,
                    ));
                }
                return Err(e);
            },
            Ok(None) => {},
            Ok(Some(p)) => {
                let ghost before = children@;
                children.push(p);
                proof {
                    assert(children@ =~= before.push(p));
                    assert(subs_vw(children@) =~= subs_vw(before).push(p.vw())) by {
                        lemma_subs_vw(children@);
                        lemma_subs_vw(before);
                        assert(forall|j: int| 0 <= j < before.len() ==> before.push(p)[j]
                            == before[j]);
                    }
                    match spec_build_subs_from(dsubs, i as int + 1, strict) {
                        Ok(rest) => {
                            assert(subs_vw(before) + (seq![p.vw()] + rest) =~= subs_vw(children@)
                                + rest);
                        },
                        Err(_) => {},
                    }
                }
            },
        }
        i += 1;
    }
    proof {
        assert(spec_build_subs_from(dsubs, i as int, strict) == Ok::<
            Seq<ProjectView>,
            ManifestError,
        >(Seq::empty()));
        assert(subs_vw(children@) + Seq::<ProjectView>::empty() =~= subs_vw(children@));
        assert(spec_build_subs(dsubs, strict) == Ok::<Seq<ProjectView>, ManifestError>(
            subs_vw(children@),
        ));
    }
    let ManifestInfo { name, desc, deps } = info;
    let nm = match name {
        Some(n) => n,
        None => {
            if strict {
                return Err(ManifestError::MissingName);
            }
            String::new()
        },
    };
    let p = Project { folder: d.label.clone(), name: nm, desc, deps, subs: children };
    proof {
        assert(p.vw() =~= ProjectView {
            folder: d.vw().label,
            name: match mv.name {
                Some(n) => n,
                None => Seq::empty(),
            },
            desc: mv.desc,
            deps: mv.deps,
            subs: subs_vw(children@),
        });
    }
    Ok(Some(p))
}

/// Folder-label law: every built node's folder label is the label of the
/// directory it was built from — at the root directly, and at every depth
/// because each child is itself built by `spec_build` from its own
/// subdirectory.
pub proof fn lemma_folder_is_dir_label(d: DirView, strict: bool)
    ensures
        match spec_build(d, strict) {
            Ok(opt) => match opt {
                Some(p) => p.folder == d.label,
                None => true,
            },
            Err(_) => true,
        },
{
}

proof fn lemma_subs_from_sources(subs: Seq<DirView>, i: int, strict: bool)
    requires
        0 <= i <= subs.len(),
    ensures
        match spec_build_subs_from(subs, i, strict) {
            Ok(l) => forall|j: int|
                0 <= j < l.len() ==> exists|k: int|
                    i <= k < subs.len() && spec_build(subs[k], strict) == Ok::<
                        Option<ProjectView>,
                        ManifestError,
                    >(Some(#[trigger] l[j])),
            Err(_) => true,
        },
    decreases subs.len() - i,
{
    if i < subs.len() {
        lemma_subs_from_sources(subs, i + 1, strict);
        match spec_build(subs[i], strict) {
            Ok(Some(p)) => {
                match spec_build_subs_from(subs, i + 1, strict) {
                    Ok(rest) => {
                        let l = seq![p] + rest;
                        assert forall|j: int| 0 <= j < l.len() implies exists|k: int|
                            i <= k < subs.len() && spec_build(subs[k], strict) == Ok::<
                                Option<ProjectView>,
                                ManifestError,
                            >(Some(#[trigger] l[j])) by {
                            if j == 0 {
                                assert(l[0] == p);
                                assert(i <= i < subs.len() && spec_build(subs[i], strict) == Ok::<
                                    Option<ProjectView>,
                                    ManifestError,
                                >(Some(l[0])));
                            } else {
                                assert(l[j] == rest[j - 1]);
                                let k = choose|k: int|
                                    i + 1 <= k < subs.len() && spec_build(subs[k], strict) == Ok::<
                                        Option<ProjectView>,
                                        ManifestError,
                                    >(Some(rest[j - 1]));
                                assert(i <= k < subs.len() && spec_build(subs[k], strict) == Ok::<
                                    Option<ProjectView>,
                                    ManifestError,
                                >(Some(l[j])));
                            }
                        }
                    },
                    Err(_) => {},
                }
            },
            _ => {},
        }
    }
}

/// Folder-label law, at depth: every child of a built node is itself the
/// node that `spec_build` yields for one of the subdirectories, so — with
/// `lemma_folder_is_dir_label` applied along the tree — every node's folder
/// label at every depth is the label of its own directory.
pub proof fn lemma_children_are_subdir_builds(d: DirView, strict: bool)
    ensures
        match spec_build(d, strict) {
            Ok(opt) => match opt {
                Some(p) => forall|j: int|
                    0 <= j < p.subs.len() ==> exists|k: int|
                        0 <= k < d.subdirs.len() && spec_build(d.subdirs[k], strict) == Ok::<
                            Option<ProjectView>,
                            ManifestError,
                        >(Some(#[trigger] p.subs[j])),
                None => true,
            },
            Err(_) => true,
        },
{
    lemma_subs_from_sources(d.subdirs, 0, strict);
}

/// Pruning law, part one: a directory without a manifest yields no node,
/// whatever its subdirectories hold.
pub proof fn lemma_no_manifest_no_node(d: DirView, strict: bool)
    requires
        d.manifest is None,
    ensures
        spec_build(d, strict) == Ok::<Option<ProjectView>, ManifestError>(None),
{
}

proof fn lemma_subs_shift(subs: Seq<DirView>, i: int, strict: bool)
    requires
        0 <= i <= subs.len(),
    ensures
        spec_build_subs_from(subs, i, strict) == spec_build_subs(subs.skip(i), strict),
    decreases subs.len() - i,
{
    if i == subs.len() {
        assert(subs.skip(i).len() == 0);
    } else {
        lemma_subs_shift(subs, i + 1, strict);
        lemma_subs_shift(subs.skip(i), 1, strict);
        assert(subs.skip(i)[0] == subs[i]);
        assert(subs.skip(i).skip(1) =~= subs.skip(i + 1));
    }
}

/// Pruning law, part two: an un-manifested subdirectory contributes no
/// child at all — the children are those of the list with it removed, so
/// no descendant of such a directory appears anywhere in the tree.
pub proof fn lemma_unmanifested_subdir_dropped(subs: Seq<DirView>, k: int, strict: bool)
    requires
        0 <= k < subs.len(),
        subs[k].manifest is None,
    ensures
        spec_build_subs(subs, strict) == spec_build_subs(subs.remove(k), strict),
    decreases k,
{
    if k == 0 {
        lemma_no_manifest_no_node(subs[0], strict);
        lemma_subs_shift(subs, 1, strict);
        assert(subs.remove(0) =~= subs.skip(1));
    } else {
        lemma_subs_shift(subs, 1, strict);
        lemma_subs_shift(subs.remove(k), 1, strict);
        assert(subs.remove(k)[0] == subs[0]);
        assert(subs.remove(k).skip(1) =~= subs.skip(1).remove(k - 1));
        assert(subs.skip(1)[k - 1] == subs[k]);
        lemma_unmanifested_subdir_dropped(subs.skip(1), k - 1, strict);
    }
}

} // verus!
