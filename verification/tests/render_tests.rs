use folderinfo::builder::build_tree;
use folderinfo::builder::SourceDir;
use folderinfo::dot::render_project_dot;
use folderinfo::project::collect_crate_names;
use folderinfo::project::Project;
use folderinfo::text::render_project_text;

fn dir(label: &str, manifest: Option<&str>, subdirs: Vec<SourceDir>) -> SourceDir {
    SourceDir {
        label: label.to_string(),
        manifest: manifest.map(|m| m.to_string()),
        subdirs,
    }
}

fn built(root: SourceDir) -> Project {
    build_tree(&root, true).unwrap().unwrap()
}

fn strs(v: &[&str]) -> Vec<String> {
    v.iter().map(|s| s.to_string()).collect()
}

#[test]
fn text_report_of_root_and_one_child() {
    let lib = dir("lib", Some("[package]\nname = \"lib\"\n"), vec![]);
    let root = dir("top", Some("[package]\nname = \"root\"\n"), vec![lib]);
    let p = built(root);
    assert_eq!(
        render_project_text(&p),
        strs(&[
            "dump format:",
            " <folder-name> - [<crate-name>] crate-description",
            "                 < internal dependencies",
            "                 > external dependencies",
            "",
            "top - [root] <no desc> ",
            "",
            "   |lib - [lib] <no desc> ",
        ])
    );
}

#[test]
fn text_report_groups_internal_and_external_dependencies() {
    let lib = dir("lib", Some("[package]\nname = \"lib\"\n"), vec![]);
    let root = dir(
        "top",
        Some("[package]\nname = \"root\"\n\n[dependencies]\nlib = \"1\"\nserde = \"1\"\n"),
        vec![lib],
    );
    let p = built(root);
    let lines = render_project_text(&p);
    assert_eq!(lines[5], "top - [root] <no desc> ".to_string());
    assert_eq!(lines[6], "      < lib ".to_string());
    assert_eq!(lines[7], "      > serde ".to_string());
}

#[test]
fn text_report_shows_a_description_and_wraps_it() {
    let word = "d".repeat(74);
    let manifest = format!(
        "[package]\nname = \"n\"\ndescription = \"{} tail\"\n",
        word
    );
    let root = dir("pkg", Some(&manifest), vec![]);
    let p = built(root);
    let lines = render_project_text(&p);
    // Budget at level zero for the three-character folder label is
    // 80 - 3 + 3 = 80: "[n] " plus the 74-character word fills 79, and the
    // next word no longer fits.
    assert_eq!(lines[5], format!("pkg - [n] {} ", word));
    assert_eq!(lines[6], "      tail ".to_string());
}

#[test]
fn text_report_renders_an_empty_name_as_empty_brackets() {
    let root = dir("top", Some("[dependencies]\n"), vec![]);
    let p = build_tree(&root, false).unwrap().unwrap();
    let lines = render_project_text(&p);
    assert_eq!(lines[5], "top - [] <no desc> ".to_string());
}

#[test]
fn text_report_joins_dependency_lists_with_commas() {
    let a = dir("a", Some("[package]\nname = \"a\"\n"), vec![]);
    let b = dir("b", Some("[package]\nname = \"b\"\n"), vec![]);
    let root = dir(
        "top",
        Some("[package]\nname = \"root\"\n\n[dependencies]\na = \"1\"\nb = \"1\"\nzzz = \"1\"\n"),
        vec![a, b],
    );
    let p = built(root);
    let lines = render_project_text(&p);
    assert_eq!(lines[6], "      < a, b ".to_string());
    assert_eq!(lines[7], "      > zzz ".to_string());
}

#[test]
fn text_report_builds_one_rail_per_level() {
    let leaf = dir("leaf", Some("[package]\nname = \"leaf\"\n"), vec![]);
    let mid = dir("mid", Some("[package]\nname = \"mid\"\n"), vec![leaf]);
    let root = dir("top", Some("[package]\nname = \"root\"\n"), vec![mid]);
    let p = built(root);
    let lines = render_project_text(&p);
    assert_eq!(lines[5], "top - [root] <no desc> ".to_string());
    assert_eq!(lines[6], "".to_string());
    assert_eq!(lines[7], "   |mid - [mid] <no desc> ".to_string());
    assert_eq!(lines[8], "   |".to_string());
    assert_eq!(lines[9], "   |   |leaf - [leaf] <no desc> ".to_string());
}

#[test]
fn text_report_of_an_unnamed_root_directory() {
    // A walk started at the current directory has no nameable final path
    // segment, so the folder label is empty.
    let root = dir("", Some("[package]\nname = \"root\"\n"), vec![]);
    let p = built(root);
    let lines = render_project_text(&p);
    assert_eq!(lines[5], " - [root] <no desc> ".to_string());
}

#[test]
fn crate_name_index_holds_every_tree_name() {
    let lib = dir("lib", Some("[package]\nname = \"lib\"\n"), vec![]);
    let root = dir("top", Some("[package]\nname = \"root\"\n"), vec![lib]);
    let p = built(root);
    let names = collect_crate_names(&p);
    assert!(names.contains(&"root".to_string()));
    assert!(names.contains(&"lib".to_string()));
    assert!(!names.contains(&"serde".to_string()));
}

#[test]
fn dot_report_with_ignored_name_suppresses_all_its_edges() {
    let lib = dir("lib", Some("[package]\nname = \"lib\"\n"), vec![]);
    let root = dir(
        "top",
        Some("[package]\nname = \"root\"\n\n[dependencies]\nlib = \"1\"\nserde = \"1\"\n"),
        vec![lib],
    );
    let p = built(root);
    let ignore = strs(&["lib"]);
    let lines = render_project_dot(&p, &ignore, &vec![]);
    assert_eq!(
        lines,
        strs(&[
            "digraph G {",
            "subgraph cluster_root {",
            "label=\"root\"",
            "\"root\"",
            "\"lib\"",
            "}",
            "}",
        ])
    );
    assert!(lines.iter().all(|l| !l.contains("->")));
}

#[test]
fn dot_report_never_draws_child_edges() {
    let lib = dir("lib", Some("[package]\nname = \"lib\"\n"), vec![]);
    let root = dir(
        "top",
        Some("[package]\nname = \"root\"\n\n[dependencies]\nlib = \"1\"\n"),
        vec![lib],
    );
    let p = built(root);
    let lines = render_project_dot(&p, &vec![], &vec![]);
    assert!(lines.iter().all(|l| !l.contains("->")));
}

fn a_b_c_tree() -> Project {
    // The nodes b and c are siblings of a, so edges from a to them are not
    // child edges and are drawn.
    let a = dir(
        "a",
        Some("[package]\nname = \"a\"\n\n[dependencies]\nb = \"1\"\nc = \"1\"\n"),
        vec![],
    );
    let b = dir("b", Some("[package]\nname = \"b\"\n"), vec![]);
    let c = dir("c", Some("[package]\nname = \"c\"\n"), vec![]);
    built(dir(
        "top",
        Some("[package]\nname = \"root\"\n"),
        vec![a, b, c],
    ))
}

#[test]
fn dot_report_without_highlight_has_no_color_attribute() {
    let p = a_b_c_tree();
    let lines = render_project_dot(&p, &vec![], &vec![]);
    assert!(lines.contains(&"\"a\" -> \"b\" ".to_string()));
    assert!(lines.contains(&"\"a\" -> \"c\" ".to_string()));
}

#[test]
fn dot_report_highlights_both_edges_from_a_plus_source() {
    let p = a_b_c_tree();
    let highlight = strs(&["+a"]);
    let lines = render_project_dot(&p, &vec![], &highlight);
    assert!(lines.contains(&"\"a\" -> \"b\" [color=blue]".to_string()));
    assert!(lines.contains(&"\"a\" -> \"c\" [color=blue]".to_string()));
}

#[test]
fn dot_report_highlight_first_rule_wins() {
    let p = a_b_c_tree();
    // Both "+a" and "-b" match the edge a -> b; the one listed first
    // decides its colour.
    let lines = render_project_dot(&p, &vec![], &strs(&["+a", "-b", "c"]));
    assert!(lines.contains(&"\"a\" -> \"b\" [color=blue]".to_string()));
    let lines = render_project_dot(&p, &vec![], &strs(&["-b", "+a", "c"]));
    assert!(lines.contains(&"\"a\" -> \"b\" [color=red]".to_string()));
}

#[test]
fn dot_report_bare_highlight_rule_matches_either_endpoint() {
    let p = a_b_c_tree();
    let lines = render_project_dot(&p, &vec![], &strs(&["c"]));
    assert!(lines.contains(&"\"a\" -> \"c\" [color=black]".to_string()));
    assert!(lines.contains(&"\"a\" -> \"b\" [color=transparent]".to_string()));
}

#[test]
fn dot_report_sanitizes_only_the_cluster_identifier() {
    let inner = dir("in", Some("[package]\nname = \"in-ner\"\n"), vec![]);
    let root = dir("top", Some("[package]\nname = \"my-root\"\n"), vec![inner]);
    let p = built(root);
    let lines = render_project_dot(&p, &vec![], &vec![]);
    assert_eq!(lines[1], "subgraph cluster_my_root {".to_string());
    assert_eq!(lines[2], "label=\"my-root\"".to_string());
    assert_eq!(lines[3], "\"my-root\"".to_string());
}
