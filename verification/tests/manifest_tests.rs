use folderinfo::builder::build_tree;
use folderinfo::builder::SourceDir;
use folderinfo::manifest::ManifestError;
use folderinfo::reader::parse_manifest;

fn dir(label: &str, manifest: Option<&str>, subdirs: Vec<SourceDir>) -> SourceDir {
    SourceDir {
        label: label.to_string(),
        manifest: manifest.map(|m| m.to_string()),
        subdirs,
    }
}

#[test]
fn parse_extracts_name_and_description() {
    let m = parse_manifest("[package]\nname = \"demo\"\ndescription = \"a demo\"\n").unwrap();
    assert_eq!(m.name, Some("demo".to_string()));
    assert_eq!(m.desc, Some("a demo".to_string()));
    assert_eq!(m.deps, Vec::<String>::new());
}

#[test]
fn parse_keeps_dependency_declaration_order() {
    let text = "[package]\nname = \"demo\"\n\n[dependencies]\nzebra = \"1\"\nalpha = \"1\"\n";
    let m = parse_manifest(text).unwrap();
    assert_eq!(m.deps, vec!["zebra".to_string(), "alpha".to_string()]);
}

#[test]
fn parse_registers_dotted_dependency_keys() {
    // The dotted key stands first in the document, as TOML demands of
    // top-level keys, yet the section's names come first in the list.
    let text = "\"dependencies.extra\" = \"x\"\n\n[package]\nname = \"demo\"\n\n[dependencies]\nzebra = \"1\"\nalpha = \"1\"\n";
    let m = parse_manifest(text).unwrap();
    assert_eq!(
        m.deps,
        vec!["zebra".to_string(), "alpha".to_string(), "extra".to_string()]
    );
}

#[test]
fn parse_keeps_duplicate_dependency_names() {
    let text = "\"dependencies.dup\" = \"x\"\n\n[dependencies]\ndup = \"1\"\n";
    let m = parse_manifest(text).unwrap();
    assert_eq!(m.deps, vec!["dup".to_string(), "dup".to_string()]);
}

#[test]
fn parse_tolerates_missing_name() {
    let m = parse_manifest("[dependencies]\nserde = \"1\"\n").unwrap();
    assert_eq!(m.name, None);
    assert_eq!(m.deps, vec!["serde".to_string()]);
}

#[test]
fn unparsable_text_is_an_error() {
    let r = parse_manifest("= = =");
    assert!(matches!(r, Err(ManifestError::Unparsable)));
}

#[test]
fn package_must_be_a_table() {
    let r = parse_manifest("package = 3\n");
    assert!(matches!(r, Err(ManifestError::PackageNotTable)));
}

#[test]
fn dependencies_must_be_a_table() {
    let r = parse_manifest("dependencies = 3\n");
    assert!(matches!(r, Err(ManifestError::DependenciesNotTable)));
}

#[test]
fn name_must_be_text() {
    let r = parse_manifest("[package]\nname = 3\n");
    assert!(matches!(r, Err(ManifestError::NameNotText)));
}

#[test]
fn description_must_be_text() {
    // The description is inspected before the name, as the extraction order
    // has it.
    let r = parse_manifest("[package]\nname = 3\ndescription = 3\n");
    assert!(matches!(r, Err(ManifestError::DescriptionNotText)));
}

#[test]
fn strict_build_rejects_a_nameless_manifest() {
    let root = dir("top", Some("[dependencies]\n"), vec![]);
    let r = build_tree(&root, true);
    assert!(matches!(r, Err(ManifestError::MissingName)));
}

#[test]
fn lenient_build_leaves_the_name_empty() {
    let root = dir("top", Some("[dependencies]\n"), vec![]);
    let p = build_tree(&root, false).unwrap().unwrap();
    assert_eq!(p.name, "".to_string());
    assert_eq!(p.folder, "top".to_string());
}

#[test]
fn directory_without_manifest_yields_no_node() {
    let inner = dir("deep", Some("[package]\nname = \"deep\"\n"), vec![]);
    let bare = dir("bare", None, vec![inner]);
    let r = build_tree(&bare, true).unwrap();
    assert!(r.is_none());
}

#[test]
fn unmanifested_subdir_hides_its_descendants() {
    let deep = dir("deep", Some("[package]\nname = \"deep\"\n"), vec![]);
    let bare = dir("bare", None, vec![deep]);
    let root = dir("top", Some("[package]\nname = \"root\"\n"), vec![bare]);
    let p = build_tree(&root, true).unwrap().unwrap();
    assert_eq!(p.subs.len(), 0);
}

#[test]
fn sub_manifest_errors_abort_the_build() {
    let bad = dir("bad", Some("package = 3\n"), vec![]);
    let root = dir("top", Some("[package]\nname = \"root\"\n"), vec![bad]);
    let r = build_tree(&root, true);
    assert!(matches!(r, Err(ManifestError::PackageNotTable)));
}

#[test]
fn children_follow_listing_order() {
    let a = dir("a", Some("[package]\nname = \"a\"\n"), vec![]);
    let b = dir("b", Some("[package]\nname = \"b\"\n"), vec![]);
    let root = dir("top", Some("[package]\nname = \"root\"\n"), vec![b, a]);
    let p = build_tree(&root, true).unwrap().unwrap();
    assert_eq!(p.subs[0].name, "b".to_string());
    assert_eq!(p.subs[1].name, "a".to_string());
}
