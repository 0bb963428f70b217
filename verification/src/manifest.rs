//! The plain shape of a parsed manifest document, and the extraction of the
//! component's name, description and dependency names from it.
//!
//! A manifest document is a list of top-level entries in declaration order.
//! The extraction reads the `package` section's `name` and `description`
//! fields, collects the keys of the `dependencies` section, and registers any
//! top-level key of the form `dependencies.<name>` as a further dependency
//! named `<name>`; both forms contribute to one list without deduplication,
//! the section's keys first in their declaration order, then the dotted
//! names in theirs.
use vstd::prelude::*;
use crate::strutil::str_eq;
use crate::strutil::starts_with_str;

verus! {

/// A value inside a manifest section: a piece of text, or anything else.
pub enum FieldVal {
    Text(String),
    NonText,
}

/// One entry of a manifest section.
pub struct TableEntry {
    pub key: String,
    pub value: FieldVal,
}

/// A top-level manifest value: text, a section of entries, or anything else.
pub enum TopVal {
    Text(String),
    Table(Vec<TableEntry>),
    Other,
}

/// One top-level entry of a manifest document.
pub struct DocEntry {
    pub key: String,
    pub value: TopVal,
}

/// Why a manifest was rejected; each failure aborts the whole run.
#[derive(Clone, Copy, Debug, PartialEq, Eq, Structural)]
pub enum ManifestError {
    /// The text is not a well-formed manifest document.
    Unparsable,
    /// The `package` entry is not a section.
    PackageNotTable,
    /// The `dependencies` entry is not a section.
    DependenciesNotTable,
    /// The `package.name` field is not text.
    NameNotText,
    /// The `package.description` field is not text.
    DescriptionNotText,
    /// The manifest names no component, under the strict name policy.
    MissingName,
}

/// What extraction yields from a manifest document.
pub struct ManifestInfo {
    pub name: Option<String>,
    pub desc: Option<String>,
    pub deps: Vec<String>,
}

/// The mathematical shape of an extracted manifest.
#[verifier::ext_equal]
pub ghost struct ManifestView {
    pub name: Option<Seq<char>>,
    pub desc: Option<Seq<char>>,
    pub deps: Seq<Seq<char>>,
}

impl ManifestInfo {
    pub open spec fn vw(self) -> ManifestView {
        ManifestView {
            name: crate::project::opt_str_view(self.name),
            desc: crate::project::opt_str_view(self.desc),
            deps: self.deps.deep_view(),
        }
    }
}

/// The running state of a document scan. The two dependency lists are kept
/// apart so that the final list can put every section key before every
/// dotted name.
#[verifier::ext_equal]
pub ghost struct ScanState {
    pub name: Option<Seq<char>>,
    pub desc: Option<Seq<char>>,
    pub table_deps: Seq<Seq<char>>,
    pub dotted_deps: Seq<Seq<char>>,
}

pub open spec fn empty_scan() -> ScanState {
    ScanState { name: None, desc: None, table_deps: Seq::empty(), dotted_deps: Seq::empty() }
}

/// First-match lookup of `key` among the entries from index `j` on.
pub open spec fn table_lookup_from(t: Seq<TableEntry>, key: Seq<char>, j: int) -> Option<FieldVal>
    decreases t.len() - j,
{
    if j < 0 || j >= t.len() {
        None
    } else if t[j].key@ == key {
        Some(t[j].value)
    } else {
        table_lookup_from(t, key, j + 1)
    }
}

pub open spec fn table_lookup(t: Seq<TableEntry>, key: Seq<char>) -> Option<FieldVal> {
    table_lookup_from(t, key, 0)
}

/// The text of a looked-up field, if it is text.
pub open spec fn text_of(v: Option<FieldVal>) -> Option<Seq<char>> {
    match v {
        Some(FieldVal::Text(s)) => Some(s@),
        _ => None,
    }
}

/// The keys of a section, in order.
pub open spec fn table_keys(t: Seq<TableEntry>) -> Seq<Seq<char>> {
    Seq::new(t.len(), |i: int| t[i].key@)
}

pub open spec fn dep_prefix() -> Seq<char> {
    "dependencies."@
}

/// A top-level key of the dotted form `dependencies.<name>`.
pub open spec fn is_dotted_dep(key: Seq<char>) -> bool {
    dep_prefix().is_prefix_of(key)
}

/// How one top-level entry changes the scan state: a `package` section sets
/// name and description (to absent when the field is missing), a
/// `dependencies` section appends its keys to the section list, a dotted
/// `dependencies.<name>` key appends `<name>` to the dotted list, and
/// anything else is ignored.
pub open spec fn scan_step(st: ScanState, e: DocEntry) -> Result<ScanState, ManifestError> {
    if e.key@ == "package"@ {
        match e.value {
            TopVal::Table(t) => {
                let d = table_lookup(t@, "description"@);
                let n = table_lookup(t@, "name"@);
                if d matches Some(FieldVal::NonText) {
                    Err(ManifestError::DescriptionNotText)
                } else if n matches Some(FieldVal::NonText) {
                    Err(ManifestError::NameNotText)
                } else {
                    Ok(
                        ScanState {
                            name: text_of(n),
                            desc: text_of(d),
                            table_deps: st.table_deps,
                            dotted_deps: st.dotted_deps,
                        },
                    )
                }
            },
            _ => Err(ManifestError::PackageNotTable),
        }
    } else if e.key@ == "dependencies"@ {
        match e.value {
            TopVal::Table(t) => Ok(
                ScanState {
                    name: st.name,
                    desc: st.desc,
                    table_deps: st.table_deps + table_keys(t@),
                    dotted_deps: st.dotted_deps,
                },
            ),
            _ => Err(ManifestError::DependenciesNotTable),
        }
    } else if is_dotted_dep(e.key@) {
        Ok(
            ScanState {
                name: st.name,
                desc: st.desc,
                table_deps: st.table_deps,
                dotted_deps: st.dotted_deps.push(e.key@.skip(dep_prefix().len() as int)),
            },
        )
    } else {
        Ok(st)
    }
}

/// The scan state after the entries from index `i` on, or the first failure
/// among them.
pub open spec fn scan_from(entries: Seq<DocEntry>, i: int, st: ScanState) -> Result<
    ScanState,
    ManifestError,
>
    decreases entries.len() - i,
{
    if i < 0 || i >= entries.len() {
        Ok(st)
    } else {
        match scan_step(st, entries[i]) {
            Ok(st2) => scan_from(entries, i + 1, st2),
            Err(e) => Err(e),
        }
    }
}

/// What extraction yields from a whole document: the final dependency list
/// holds every `dependencies` section key before every dotted
/// `dependencies.<name>` name, each group in declaration order.
pub open spec fn spec_extract(entries: Seq<DocEntry>) -> Result<ManifestView, ManifestError> {
    match scan_from(entries, 0, empty_scan()) {
        Ok(st) => Ok(
            ManifestView { name: st.name, desc: st.desc, deps: st.table_deps + st.dotted_deps },
        ),
        Err(e) => Err(e),
    }
}

/// First-match lookup of `key` in a section.
fn table_get<'a>(t: &'a Vec<TableEntry>, key: &str) -> (r: Option<&'a FieldVal>)
    ensures
        match r {
            Some(f) => table_lookup(t@, key@) == Some(*f),
            None => table_lookup(t@, key@) is None,
        },
{
    let mut j: usize = 0;
    while j < t.len()
        invariant
            j <= t.len(),
            table_lookup(t@, key@) == table_lookup_from(t@, key@, j as int),
        decreases t.len() - j,
    {
        if str_eq(t[j].key.as_str(), key) {
            return Some(&t[j].value);
        }
        j += 1;
    }
    None
}

/// The cloned text of a field, if it is text.
fn field_text(f: Option<&FieldVal>) -> (r: Option<String>)
    ensures
        crate::project::opt_str_view(r) == (match f {
            Some(v) => text_of(Some(*v)),
            None => None::<Seq<char>>,
        }),
{
    match f {
        Some(FieldVal::Text(s)) => Some(s.clone()),
        _ => None,
    }
}

/// Extracts name, description and dependency names from a manifest
/// document, or reports the first offending entry. The dependency list puts
/// the `dependencies` section's keys first and the dotted names after them.
pub fn extract_manifest(entries: &Vec<DocEntry>) -> (r: Result<ManifestInfo, ManifestError>)
    ensures
        match r {
            Ok(m) => spec_extract(entries@) == Ok::<ManifestView, ManifestError>(m.vw()),
            Err(e) => spec_extract(entries@) == Err::<ManifestView, ManifestError>(e),
        },
{
    let mut name: Option<String> = None;
    let mut desc: Option<String> = None;
    let mut table_deps: Vec<String> = Vec::new();
    let mut dotted_deps: Vec<String> = Vec::new();
    let mut i: usize = 0;
    proof {
        assert(ScanState {
            name: crate::project::opt_str_view(name),
            desc: crate::project::opt_str_view(desc),
            table_deps: table_deps.deep_view(),
            dotted_deps: dotted_deps.deep_view(),
        } =~= empty_scan()) by {
            assert(table_deps.deep_view() =~= Seq::<Seq<char>>::empty());
            assert(dotted_deps.deep_view() =~= Seq::<Seq<char>>::empty());
        }
    }
    while i < entries.len()
        invariant
            i <= entries.len(),
            scan_from(
                entries@,
                i as int,
                ScanState {
                    name: crate::project::opt_str_view(name),
                    desc: crate::project::opt_str_view(desc),
                    table_deps: table_deps.deep_view(),
                    dotted_deps: dotted_deps.deep_view(),
                },
            ) == scan_from(entries@, 0, empty_scan()),
        decreases entries.len() - i,
    {
        let ghost st = ScanState {
            name: crate::project::opt_str_view(name),
            desc: crate::project::opt_str_view(desc),
            table_deps: table_deps.deep_view(),
            dotted_deps: dotted_deps.deep_view(),
        };
        let e = &entries[i];
        if str_eq(e.key.as_str(), "package") {
            match &e.value {
                TopVal::Table(t) => {
                    let d = table_get(t, "description");
                    match d {
                        Some(FieldVal::NonText) => {
                            proof {
                                assert(scan_step(st, entries@[i as int]) == Err::<
                                    ScanState,
                                    ManifestError,
                                >(ManifestError::DescriptionNotText));
                            }
                            return Err(ManifestError::DescriptionNotText);
                        },
                        _ => {},
                    }
                    let n = table_get(t, "name");
                    match n {
                        Some(FieldVal::NonText) => {
                            proof {
                                assert(scan_step(st, entries@[i as int]) == Err::<
                                    ScanState,
                                    ManifestError,
                                >(ManifestError::NameNotText));
                            }
                            return Err(ManifestError::NameNotText);
                        },
                        _ => {},
                    }
                    desc = field_text(d);
                    name = field_text(n);
                    proof {
                        assert(scan_step(st, entries@[i as int]) == Ok::<ScanState, ManifestError>(
                            ScanState {
                                name: crate::project::opt_str_view(name),
                                desc: crate::project::opt_str_view(desc),
                                table_deps: table_deps.deep_view(),
                                dotted_deps: dotted_deps.deep_view(),
                            },
                        ));
                    }
                },
                _ => {
                    proof {
                        assert(scan_step(st, entries@[i as int]) == Err::<
                            ScanState,
                            ManifestError,
                        >(ManifestError::PackageNotTable));
                    }
                    return Err(ManifestError::PackageNotTable);
                },
            }
        } else if str_eq(e.key.as_str(), "dependencies") {
            match &e.value {
                TopVal::Table(t) => {
                    let ghost prev_deps = table_deps.deep_view();
                    let mut j: usize = 0;
                    while j < t.len()
                        invariant
                            j <= t.len(),
                            table_deps.deep_view() =~= prev_deps + table_keys(t@).take(j as int),
                        decreases t.len() - j,
                    {
                        let ghost before = table_deps.deep_view();
                        table_deps.push(t[j].key.clone());
                        proof {
                            assert(table_deps.deep_view() =~= before.push(t@[j as int].key@));
                            assert(table_keys(t@).take(j as int + 1) =~= table_keys(t@).take(
                                j as int,
                            ).push(t@[j as int].key@));
                        }
                        j += 1;
                    }
                    proof {
                        assert(table_keys(t@).take(t@.len() as int) =~= table_keys(t@));
                        assert(scan_step(st, entries@[i as int]) == Ok::<ScanState, ManifestError>(
                            ScanState {
                                name: st.name,
                                desc: st.desc,
                                table_deps: table_deps.deep_view(),
                                dotted_deps: st.dotted_deps,
                            },
                        ));
                    }
                },
                _ => {
                    proof {
                        assert(scan_step(st, entries@[i as int]) == Err::<
                            ScanState,
                            ManifestError,
                        >(ManifestError::DependenciesNotTable));
                    }
                    return Err(ManifestError::DependenciesNotTable);
                },
            }
        } else if starts_with_str(e.key.as_str(), "dependencies.") {
            let klen = e.key.as_str().unicode_len();
            proof {
                reveal_strlit("dependencies.");
                assert(dep_prefix().len() == 13);
            }
            let suffix = e.key.as_str().substring_char(13, klen);
            let ghost before = dotted_deps.deep_view();
            dotted_deps.push(String::from_str(suffix));
            proof {
                assert(suffix@ =~= e.key@.skip(dep_prefix().len() as int));
                assert(dotted_deps.deep_view() =~= before.push(
                    e.key@.skip(dep_prefix().len() as int),
                ));
                assert(scan_step(st, entries@[i as int]) == Ok::<ScanState, ManifestError>(
                    ScanState {
                        name: st.name,
                        desc: st.desc,
                        table_deps: st.table_deps,
                        dotted_deps: dotted_deps.deep_view(),
                    },
                ));
            }
        } else {
            proof {
                assert(scan_step(st, entries@[i as int]) == Ok::<ScanState, ManifestError>(st));
            }
        }
        i += 1;
    }
    let ghost end_state = ScanState {
        name: crate::project::opt_str_view(name),
        desc: crate::project::opt_str_view(desc),
        table_deps: table_deps.deep_view(),
        dotted_deps: dotted_deps.deep_view(),
    };
    proof {
        assert(scan_from(entries@, entries@.len() as int, end_state) == Ok::<
            ScanState,
            ManifestError,
        >(end_state));
    }

    // The section keys come first; the dotted names follow them.
    let mut deps = table_deps;
    let mut k: usize = 0;
    while k < dotted_deps.len()
        invariant
            k <= dotted_deps.len(),
            dotted_deps.deep_view() == end_state.dotted_deps,
            deps.deep_view() =~= end_state.table_deps + end_state.dotted_deps.take(k as int),
        decreases dotted_deps.len() - k,
    {
        let ghost before = deps.deep_view();
        deps.push(dotted_deps[k].clone());
        proof {
            assert(deps.deep_view() =~= before.push(end_state.dotted_deps[k as int]));
            assert(end_state.dotted_deps.take(k as int + 1) =~= end_state.dotted_deps.take(
                k as int,
            ).push(end_state.dotted_deps[k as int]));
        }
        k += 1;
    }
    proof {
        assert(end_state.dotted_deps.take(dotted_deps@.len() as int) =~= end_state.dotted_deps);
    }
    let r = ManifestInfo { name, desc, deps };
    proof {
        assert(r.vw() =~= ManifestView {
            name: end_state.name,
            desc: end_state.desc,
            deps: end_state.table_deps + end_state.dotted_deps,
        });
    }
    Ok(r)
}

/// How many dependency names one top-level entry contributes.
pub open spec fn dep_contrib(e: DocEntry) -> int {
    if e.key@ == "package"@ {
        0
    } else if e.key@ == "dependencies"@ {
        match e.value {
            TopVal::Table(t) => t@.len() as int,
            _ => 0,
        }
    } else if is_dotted_dep(e.key@) {
        1
    } else {
        0
    }
}

/// How many dependency names the entries from index `i` on contribute.
pub open spec fn dep_contrib_from(entries: Seq<DocEntry>, i: int) -> int
    decreases entries.len() - i,
{
    if i < 0 || i >= entries.len() {
        0
    } else {
        dep_contrib(entries[i]) + dep_contrib_from(entries, i + 1)
    }
}

proof fn lemma_scan_dep_count(entries: Seq<DocEntry>, i: int, st: ScanState)
    requires
        0 <= i <= entries.len(),
    ensures
        scan_from(entries, i, st) matches Ok(v) ==> v.table_deps.len() + v.dotted_deps.len()
            == st.table_deps.len() + st.dotted_deps.len() + dep_contrib_from(entries, i),
    decreases entries.len() - i,
{
    if i < entries.len() {
        match scan_step(st, entries[i]) {
            Ok(st2) => {
                lemma_scan_dep_count(entries, i + 1, st2);
                assert(st2.table_deps.len() + st2.dotted_deps.len() == st.table_deps.len()
                    + st.dotted_deps.len() + dep_contrib(entries[i]));
            },
            Err(_) => {},
        }
    }
}

/// Dependency-count law: a successfully extracted manifest holds exactly one
/// dependency per key of the `dependencies` section plus one per dotted
/// `dependencies.<name>` top-level key.
pub proof fn lemma_dependency_count(entries: Seq<DocEntry>)
    ensures
        spec_extract(entries) matches Ok(v) ==> v.deps.len() == dep_contrib_from(entries, 0),
{
    lemma_scan_dep_count(entries, 0, empty_scan());
}

} // verus!
