use std::path::PathBuf;

use tinymist_query::complete::item::CompletionKind;
use tinymist_query::complete::paths::{
    complete_labelled, complete_path, file_outcomes, label_of, path_labels, path_target,
    split_labels, FileEntry, FileOutcome, PathTarget, StrLiteral,
};

fn entry(path: &str, is_dir: bool) -> FileEntry {
    FileEntry { path: PathBuf::from(path), is_dir }
}

fn workspace() -> (PathBuf, PathBuf, Vec<FileEntry>) {
    (
        PathBuf::from("/ws"),
        PathBuf::from("/ws/dir/main.typ"),
        vec![
            entry("dir/a.typ", false),
            entry("b.typ", false),
            entry("dir/main.typ", false),
            entry("assets", true),
            entry("dir/./sub", true),
        ],
    )
}

#[test]
fn label_goes_by_the_root_or_by_the_source_file() {
    let s = |x: &str| Some(x.to_string());
    assert_eq!(label_of(true, s("a/b.typ"), None), s("/a/b.typ"));
    assert_eq!(label_of(true, s("a/b.typ"), s("other")), s("/a/b.typ"));
    assert_eq!(label_of(true, None, s("b.typ")), None);
    assert_eq!(label_of(false, s("a/b.typ"), s("../b.typ")), s("../b.typ"));
    assert_eq!(label_of(false, s("a/b.typ"), None), None);
}

#[test]
fn labels_from_the_folder_of_the_source_file() {
    let (root, base, files) = workspace();
    let (modules, folders) = path_labels(&root, &base, "", &files).unwrap();
    assert_eq!(modules, vec!["a.typ", "../b.typ"]);
    assert_eq!(folders, vec!["../assets", "sub"]);
}

#[test]
fn labels_from_the_root() {
    let (root, base, files) = workspace();
    let (modules, folders) = path_labels(&root, &base, "/", &files).unwrap();
    assert_eq!(modules, vec!["/dir/a.typ", "/b.typ"]);
    assert_eq!(folders, vec!["/assets", "/dir/sub"]);
}

#[test]
fn paths_are_completed_in_order() {
    let (root, base, files) = workspace();
    let got = complete_path(&root, &base, "", &files, true).unwrap();
    let view: Vec<(String, CompletionKind, String, String)> = got
        .iter()
        .map(|p| (p.label.clone(), p.kind, p.insert_text.clone(), p.sort_text.clone()))
        .collect();
    let s = |x: &str| x.to_string();
    assert_eq!(
        view,
        vec![
            (s("a.typ"), CompletionKind::File, s("a.typ"), s("0")),
            (s("../b.typ"), CompletionKind::File, s("../b.typ"), s("1")),
            (s("sub"), CompletionKind::Folder, s("sub"), s("2")),
            (s("../assets"), CompletionKind::Folder, s("../assets"), s("3")),
        ]
    );
}

#[test]
fn a_source_file_without_a_folder_has_no_labels() {
    let files = vec![entry("a.typ", false)];
    assert!(path_labels(&PathBuf::from(""), &PathBuf::from(""), "", &files).is_none());
}

#[test]
fn without_files_nothing_is_offered() {
    let (root, base, _) = workspace();
    assert_eq!(path_labels(&root, &base, "", &vec![]), Some((vec![], vec![])));
    assert!(complete_path(&root, &base, "/", &vec![], false).unwrap().is_empty());
}

fn lit(text: &str, value: &str, start: usize, end: usize) -> StrLiteral {
    StrLiteral { text: text.to_string(), value: value.to_string(), start, end }
}

#[test]
fn path_target_without_a_string_is_the_cursor() {
    assert_eq!(
        path_target(None, 7),
        Some(PathTarget {
            typed_from: 7,
            typed_to: 7,
            replace_from: 7,
            replace_to: 7,
            in_text: false
        })
    );
}

#[test]
fn path_target_inside_a_string() {
    // The string "ab/c" stands at the bytes 10 to 16.
    let l = lit("\"ab/c\"", "ab/c", 10, 16);
    assert_eq!(
        path_target(Some(&l), 13),
        Some(PathTarget {
            typed_from: 11,
            typed_to: 13,
            replace_from: 11,
            replace_to: 15,
            in_text: true
        })
    );
    // Directly behind the opening quote nothing was typed yet.
    assert_eq!(path_target(Some(&l), 11).map(|t| (t.typed_from, t.typed_to)), Some((11, 11)));
    assert_eq!(path_target(Some(&l), 15).map(|t| (t.typed_from, t.typed_to)), Some((11, 15)));
}

#[test]
fn path_target_is_refused_outside_the_quotes() {
    let l = lit("\"ab/c\"", "ab/c", 10, 16);
    assert_eq!(path_target(Some(&l), 10), None);
    assert_eq!(path_target(Some(&l), 9), None);
    assert_eq!(path_target(Some(&l), 16), None);
    assert_eq!(path_target(Some(&l), 17), None);
    assert_eq!(path_target(Some(&lit("\"", "", 10, 11)), 10), None);
    assert_eq!(path_target(Some(&lit("", "", 10, 10)), 10), None);
    assert_eq!(path_target(Some(&lit("\"\"", "", usize::MAX - 1, usize::MAX)), usize::MAX), None);
}

#[test]
fn path_target_is_refused_for_an_escape() {
    // The text between the quotes differs from the value.
    let l = lit("\"a\\nb\"", "a\nb", 0, 6);
    assert_eq!(path_target(Some(&l), 3), None);
    let same = lit("\"a-b\"", "a-b", 0, 5);
    assert!(path_target(Some(&same), 3).is_some());
}

fn outcome(own: bool, is_dir: bool, from_root: Option<&str>, from_base: Option<&str>) -> FileOutcome {
    FileOutcome {
        own,
        is_dir,
        from_root: from_root.map(str::to_string),
        from_base: from_base.map(str::to_string),
    }
}

#[test]
fn labels_are_split_into_files_and_folders() {
    let outcomes = vec![
        outcome(false, false, Some("dir/a.typ"), Some("a.typ")),
        outcome(true, false, Some("dir/main.typ"), Some("main.typ")),
        outcome(false, true, Some("assets"), Some("../assets")),
        outcome(false, false, Some("b.typ"), Some("../b.typ")),
    ];
    let s = |x: &str| x.to_string();
    assert_eq!(
        split_labels(true, &outcomes),
        Some((vec![s("/dir/a.typ"), s("/b.typ")], vec![s("/assets")]))
    );
    assert_eq!(
        split_labels(false, &outcomes),
        Some((vec![s("a.typ"), s("../b.typ")], vec![s("../assets")]))
    );
}

#[test]
fn one_missing_label_leaves_no_labels() {
    let outcomes = vec![
        outcome(false, false, Some("a.typ"), Some("a.typ")),
        outcome(false, true, None, Some("sub")),
        outcome(false, false, Some("b.typ"), None),
    ];
    assert_eq!(split_labels(true, &outcomes), None);
    assert_eq!(split_labels(false, &outcomes), None);
    assert!(complete_labelled(true, &outcomes, true).is_none());
    // The source file at hand needs no label.
    let own = vec![outcome(true, false, None, None)];
    assert_eq!(split_labels(true, &own), Some((vec![], vec![])));
    assert_eq!(split_labels(false, &own), Some((vec![], vec![])));
}

#[test]
fn labelled_files_are_completed_in_order() {
    let outcomes = vec![
        outcome(false, true, None, Some("sub")),
        outcome(false, false, None, Some("../b.typ")),
        outcome(true, false, None, None),
        outcome(false, false, None, Some("a.typ")),
    ];
    let got = complete_labelled(false, &outcomes, false).unwrap();
    let view: Vec<(String, CompletionKind, String, String)> = got
        .iter()
        .map(|p| (p.label.clone(), p.kind, p.insert_text.clone(), p.sort_text.clone()))
        .collect();
    let s = |x: &str| x.to_string();
    assert_eq!(
        view,
        vec![
            (s("a.typ"), CompletionKind::File, s("\"a.typ\""), s("0")),
            (s("../b.typ"), CompletionKind::File, s("\"../b.typ\""), s("1")),
            (s("sub"), CompletionKind::Folder, s("\"sub\""), s("2")),
        ]
    );
}

#[test]
fn outcomes_stand_for_the_files_one_for_one() {
    let (root, base, files) = workspace();
    let got = file_outcomes(&root, &base, false, &files);
    assert_eq!(got.len(), files.len());
    let view: Vec<(bool, bool, Option<String>, Option<String>)> = got
        .iter()
        .map(|o| (o.own, o.is_dir, o.from_root.clone(), o.from_base.clone()))
        .collect();
    let s = |x: &str| Some(x.to_string());
    assert_eq!(
        view,
        vec![
            (false, false, None, s("a.typ")),
            (false, false, None, s("../b.typ")),
            (true, false, None, None),
            (false, true, None, s("../assets")),
            (false, true, None, s("sub")),
        ]
    );
    let rooted = file_outcomes(&root, &base, true, &files);
    assert_eq!(rooted[0].from_root, s("dir/a.typ"));
    assert_eq!(rooted[0].from_base, None);
    assert!(rooted[2].own && rooted[2].from_root.is_none());
}
