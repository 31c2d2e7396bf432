//! The labels under which files are offered where a path is completed.

use std::path::{Path, PathBuf};
use vstd::prelude::*;
use vstd::string::*;

use crate::complete::order::{
    PathCompletion, PathCompletionView, complete_paths, complete_paths_spec, paths_view,
    texts_view,
};
use crate::ty::builtin::text;

verus! {

#[verifier::external_type_specification]
#[verifier::external_body]
pub struct ExPathBuf(PathBuf);

/// Calls `Path::join`: `path` put behind `root`. Nothing is claimed of the
/// result.
#[verifier::external_body]
fn join(root: &PathBuf, path: &PathBuf) -> (r: PathBuf) {
    root.join(path)
}

/// Calls `PathClean::clean`: the path without its redundant components.
/// Nothing is claimed of the result.
#[verifier::external_body]
fn clean(path: &PathBuf) -> (r: PathBuf) {
    reflexo::path::PathClean::clean(path)
}

/// Compares two paths as `PartialEq` of `PathBuf` does. Nothing is claimed of
/// the result.
#[verifier::external_body]
fn same_path(a: &PathBuf, b: &PathBuf) -> (r: bool) {
    a == b
}

/// Calls `Path::strip_prefix`: what is left of `path` behind `root`, if
/// `path` starts with `root`. Nothing is claimed of the result.
#[verifier::external_body]
fn strip_prefix(path: &PathBuf, root: &PathBuf) -> (r: Option<PathBuf>) {
    path.strip_prefix(root).ok().map(Path::to_path_buf)
}

/// Calls `Path::parent`: the path without its last component, if it has
/// one. Nothing is claimed of the result.
#[verifier::external_body]
fn parent(path: &PathBuf) -> (r: Option<PathBuf>) {
    path.parent().map(Path::to_path_buf)
}

/// Calls `pathdiff::diff_paths`: the path that leads from `base` to `path`,
/// if there is one. Nothing is claimed of the result.
#[verifier::external_body]
fn diff_paths(path: &PathBuf, base: &PathBuf) -> (r: Option<PathBuf>) {
    pathdiff::diff_paths(path, base)
}

/// Calls `reflexo::path::unix_slash`: the path as a text with slashes
/// between its components. Nothing is claimed of the result.
#[verifier::external_body]
fn unix_slash(path: &PathBuf) -> (r: String) {
    reflexo::path::unix_slash(path)
}

/// Calls `Path::has_root`: whether the path that was typed starts at a
/// root. Nothing is claimed of the result.
#[verifier::external_body]
fn has_root(typed: &str) -> (r: bool) {
    Path::new(typed).has_root()
}

/// A file that can be completed: its path from the root of the workspace,
/// and whether it is a folder.
pub struct FileEntry {
    pub path: PathBuf,
    pub is_dir: bool,
}

/// The label under which a file is offered: where the path that was typed
/// starts at a root, a slash and the path of the file from the root of the
/// workspace; else the path of the file from the folder of the source file.
/// There is no label where the path in question cannot be had.
pub open spec fn label_spec(
    rooted: bool,
    from_root: Option<Seq<char>>,
    from_base: Option<Seq<char>>,
) -> Option<Seq<char>> {
    if rooted {
        match from_root {
            Some(w) => Some("/"@ + w),
            None => None,
        }
    } else {
        from_base
    }
}

/// The view of an optional text.
pub open spec fn opt_text_view(s: &Option<String>) -> Option<Seq<char>> {
    match s {
        Some(s) => Some(s@),
        None => None,
    }
}

/// The label under which a file is offered, given its path from the root
/// and its path from the folder of the source file, as far as they can be
/// had.
pub fn label_of(rooted: bool, from_root: Option<String>, from_base: Option<String>) -> (r: Option<
    String,
>)
    ensures
        opt_text_view(&r) == label_spec(
            rooted,
            opt_text_view(&from_root),
            opt_text_view(&from_base),
        ),
{
    if rooted {
        match from_root {
            Some(w) => Some(text("/").concat(w.as_str())),
            None => None,
        }
    } else {
        from_base
    }
}

/// The string under the cursor where a path is completed: its text in the
/// source file with the quotes, the value that it stands for, and the range
/// of bytes that it takes in the source file.
pub struct StrLiteral {
    pub text: String,
    pub value: String,
    pub start: usize,
    pub end: usize,
}

/// What is completed where a path is asked for: the range of bytes of the
/// source file that holds the path typed so far, the range that a completion
/// replaces, and whether the cursor stands inside a string.
#[derive(Debug, PartialEq, Eq)]
pub struct PathTarget {
    pub typed_from: usize,
    pub typed_to: usize,
    pub replace_from: usize,
    pub replace_to: usize,
    pub in_text: bool,
}

/// What is completed at `cursor`. Without a string the path is empty, and a
/// completion is put in at the cursor. Inside a string the path is what
/// stands between the opening quote and the cursor, and a completion
/// replaces what stands between the quotes. Nothing is completed where the
/// string holds an escape, so that its text between the quotes differs from
/// its value, nor where the cursor stands before the opening quote's end or
/// behind the closing quote's start.
pub open spec fn path_target_spec(lit: Option<&StrLiteral>, cursor: usize) -> Option<PathTarget> {
    match lit {
        Some(l) => {
            if l.text@.len() < 2 || l.text@.subrange(1, l.text@.len() - 1) != l.value@ || cursor
                <= l.start || l.end <= cursor || l.end - l.start < 2 {
                None
            } else {
                Some(
                    PathTarget {
                        typed_from: (l.start + 1) as usize,
                        typed_to: cursor,
                        replace_from: (l.start + 1) as usize,
                        replace_to: (l.end - 1) as usize,
                        in_text: true,
                    },
                )
            }
        },
        None => Some(
            PathTarget {
                typed_from: cursor,
                typed_to: cursor,
                replace_from: cursor,
                replace_to: cursor,
                in_text: false,
            },
        ),
    }
}

/// Tells what is completed at `cursor`, where `lit` is the string under the
/// cursor, if there is one.
pub fn path_target(lit: Option<&StrLiteral>, cursor: usize) -> (r: Option<PathTarget>)
    ensures
        r == path_target_spec(lit, cursor),
{
    match lit {
        Some(l) => {
            let len = l.text.as_str().unicode_len();
            if len < 2 {
                return None;
            }
            let unquoted = text(l.text.as_str().substring_char(1, len - 1));
            if unquoted != l.value {
                return None;
            }
            if cursor <= l.start || l.end <= cursor || l.end - l.start < 2 {
                return None;
            }
            Some(
                PathTarget {
                    typed_from: l.start + 1,
                    typed_to: cursor,
                    replace_from: l.start + 1,
                    replace_to: l.end - 1,
                    in_text: true,
                },
            )
        },
        None => Some(
            PathTarget {
                typed_from: cursor,
                typed_to: cursor,
                replace_from: cursor,
                replace_to: cursor,
                in_text: false,
            },
        ),
    }
}

/// What the rules of the file system gave for one file: whether it is the
/// source file at hand, whether it is a folder, and its path from the root of
/// the workspace and from the folder of the source file, as far as they were
/// asked for and can be had.
pub struct FileOutcome {
    pub own: bool,
    pub is_dir: bool,
    pub from_root: Option<String>,
    pub from_base: Option<String>,
}

/// The mathematical value of a [`FileOutcome`].
pub struct FileOutcomeView {
    pub own: bool,
    pub is_dir: bool,
    pub from_root: Option<Seq<char>>,
    pub from_base: Option<Seq<char>>,
}

impl View for FileOutcome {
    type V = FileOutcomeView;

    open spec fn view(&self) -> FileOutcomeView {
        FileOutcomeView {
            own: self.own,
            is_dir: self.is_dir,
            from_root: opt_text_view(&self.from_root),
            from_base: opt_text_view(&self.from_base),
        }
    }
}

/// The mathematical value of a list of outcomes.
pub open spec fn outcomes_view(v: &Vec<FileOutcome>) -> Seq<FileOutcomeView> {
    Seq::new(v@.len(), |i: int| v@[i]@)
}

/// The labels of the files and of the folders among the first `n` outcomes,
/// each list in the order of the outcomes. The source file at hand is passed
/// over. There are no labels if the label of one of the others cannot be
/// had.
pub open spec fn split_labels_spec(rooted: bool, s: Seq<FileOutcomeView>, n: nat) -> Option<
    (Seq<Seq<char>>, Seq<Seq<char>>),
>
    decreases n,
{
    if n == 0 || n > s.len() {
        Some((Seq::empty(), Seq::empty()))
    } else {
        let o = s[n - 1];
        match split_labels_spec(rooted, s, (n - 1) as nat) {
            Some(before) => if o.own {
                Some(before)
            } else {
                match label_spec(rooted, o.from_root, o.from_base) {
                    Some(label) => if o.is_dir {
                        Some((before.0, before.1.push(label)))
                    } else {
                        Some((before.0.push(label), before.1))
                    },
                    None => None,
                }
            },
            None => None,
        }
    }
}

/// Once a label cannot be had, there are no labels, however many outcomes
/// follow.
pub proof fn lemma_split_fails_on(rooted: bool, s: Seq<FileOutcomeView>, n: nat, m: nat)
    requires
        n <= m <= s.len(),
        split_labels_spec(rooted, s, n) is None,
    ensures
        split_labels_spec(rooted, s, m) is None,
    decreases m,
{
    if n < m {
        lemma_split_fails_on(rooted, s, n, (m - 1) as nat);
    }
}

/// There are no more labels than outcomes.
pub proof fn lemma_split_len(rooted: bool, s: Seq<FileOutcomeView>, n: nat)
    requires
        n <= s.len(),
    ensures
        split_labels_spec(rooted, s, n) matches Some(l) ==> l.0.len() + l.1.len() <= n,
    decreases n,
{
    if n > 0 {
        lemma_split_len(rooted, s, (n - 1) as nat);
    }
}

/// The view of optional lists of labels.
pub open spec fn opt_labels_view(r: &Option<(Vec<String>, Vec<String>)>) -> Option<
    (Seq<Seq<char>>, Seq<Seq<char>>),
> {
    match r {
        Some(l) => Some((texts_view(&l.0), texts_view(&l.1))),
        None => None,
    }
}

fn label_for(rooted: bool, o: &FileOutcome) -> (r: Option<String>)
    ensures
        opt_text_view(&r) == label_spec(rooted, o@.from_root, o@.from_base),
{
    if rooted {
        match &o.from_root {
            Some(w) => Some(text("/").concat(w.as_str())),
            None => None,
        }
    } else {
        match &o.from_base {
            Some(w) => Some(w.clone()),
            None => None,
        }
    }
}

/// The labels of the files and of the folders among `outcomes`.
#[verifier::loop_isolation(false)]
pub fn split_labels(rooted: bool, outcomes: &Vec<FileOutcome>) -> (r: Option<
    (Vec<String>, Vec<String>),
>)
    ensures
        opt_labels_view(&r) == split_labels_spec(
            rooted,
            outcomes_view(outcomes),
            outcomes.len() as nat,
        ),
{
    let ghost s = outcomes_view(outcomes);
    let mut module_completions: Vec<String> = Vec::new();
    let mut folder_completions: Vec<String> = Vec::new();
    assert(texts_view(&module_completions) =~= Seq::empty());
    assert(texts_view(&folder_completions) =~= Seq::empty());
    let mut i: usize = 0;
    while i < outcomes.len()
        invariant
            i <= outcomes.len(),
            split_labels_spec(rooted, s, i as nat) == Some(
                (texts_view(&module_completions), texts_view(&folder_completions)),
            ),
        decreases outcomes.len() - i,
    {
        let ghost files = texts_view(&module_completions);
        let ghost folders = texts_view(&folder_completions);
        assert(s[i as int] == outcomes[i as int]@);
        // Skip the source file at hand.
        if !outcomes[i].own {
            match label_for(rooted, &outcomes[i]) {
                Some(label) => {
                    if outcomes[i].is_dir {
                        folder_completions.push(label);
                        assert(texts_view(&folder_completions) =~= folders.push(label@));
                    } else {
                        module_completions.push(label);
                        assert(texts_view(&module_completions) =~= files.push(label@));
                    }
                },
                None => {
                    proof {
                        lemma_split_fails_on(rooted, s, (i + 1) as nat, outcomes.len() as nat);
                    }
                    return None;
                },
            }
        }
        i += 1;
    }
    Some((module_completions, folder_completions))
}

/// The view of optional path completions.
pub open spec fn opt_paths_view(r: &Option<Vec<PathCompletion>>) -> Option<Seq<PathCompletionView>> {
    match r {
        Some(v) => Some(paths_view(v)),
        None => None,
    }
}

/// The completions of a path for the files of `s`, in the order in which
/// they are offered; none if the label of one of the files cannot be had.
pub open spec fn labelled_spec(rooted: bool, s: Seq<FileOutcomeView>, in_text: bool) -> Option<
    Seq<PathCompletionView>,
> {
    match split_labels_spec(rooted, s, s.len()) {
        Some(l) => Some(complete_paths_spec(l.0, l.1, in_text)),
        None => None,
    }
}

/// The completions of a path for the files of `outcomes`, in the order in
/// which they are offered.
pub fn complete_labelled(rooted: bool, outcomes: &Vec<FileOutcome>, in_text: bool) -> (r: Option<
    Vec<PathCompletion>,
>)
    ensures
        opt_paths_view(&r) == labelled_spec(rooted, outcomes_view(outcomes), in_text),
{
    proof {
        lemma_split_len(rooted, outcomes_view(outcomes), outcomes.len() as nat);
    }
    match split_labels(rooted, outcomes) {
        Some(labels) => complete_paths(&labels.0, &labels.1, in_text),
        None => None,
    }
}

/// The path of a file from the root of the workspace, as a text.
fn path_from_root(path: &PathBuf, root: &PathBuf) -> (r: Option<String>) {
    match strip_prefix(path, root) {
        Some(w) => Some(unix_slash(&w)),
        None => None,
    }
}

/// The path of a file from the folder of the source file `base`, as a
/// text.
fn path_from_base(path: &PathBuf, base: &PathBuf) -> (r: Option<String>) {
    match parent(base) {
        Some(folder) => match diff_paths(path, &folder) {
            Some(w) => Some(unix_slash(&w)),
            None => None,
        },
        None => None,
    }
}

/// Whether the outcomes stand for the files one for one, as far as this
/// library knows of a file: whether it is a folder.
pub open spec fn outcomes_of(s: Seq<FileOutcomeView>, files: Seq<FileEntry>) -> bool {
    &&& s.len() == files.len()
    &&& forall|i: int| 0 <= i < s.len() ==> (#[trigger] s[i]).is_dir == files[i].is_dir
}

/// Asks the rules of the file system about each of `files`: `root` is the
/// root of the workspace, `base` the source file at hand, and `rooted` tells
/// whether the paths from the root are asked for, or those from the folder
/// of the source file.
#[verifier::loop_isolation(false)]
pub fn file_outcomes(root: &PathBuf, base: &PathBuf, rooted: bool, files: &Vec<FileEntry>) -> (r:
    Vec<FileOutcome>)
    ensures
        outcomes_of(outcomes_view(&r), files@),
{
    let own = clean(base);
    let mut out: Vec<FileOutcome> = Vec::new();
    let mut i: usize = 0;
    while i < files.len()
        invariant
            i <= files.len(),
            out.len() == i,
            forall|k: int| 0 <= k < i ==> (#[trigger] out[k]).is_dir == files[k].is_dir,
        decreases files.len() - i,
    {
        // Diff with the root.
        let path = join(root, &files[i].path);
        let is_own = same_path(&clean(&path), &own);
        let from_root = if !is_own && rooted {
            path_from_root(&path, root)
        } else {
            None
        };
        let from_base = if !is_own && !rooted {
            path_from_base(&path, base)
        } else {
            None
        };
        out.push(FileOutcome { own: is_own, is_dir: files[i].is_dir, from_root, from_base });
        i += 1;
    }
    out
}

/// The labels of the files and of the folders among `files`, each list in
/// the order of `files`. The source file itself, `base`, is passed over.
/// There are no labels if the label of one of the files cannot be had. What
/// the file system's rules give for a file is not stated here: the labels
/// are those of some outcomes that stand for the files one for one.
pub fn path_labels(root: &PathBuf, base: &PathBuf, typed: &str, files: &Vec<FileEntry>) -> (r:
    Option<(Vec<String>, Vec<String>)>)
    ensures
        exists|rooted: bool, s: Seq<FileOutcomeView>|
            outcomes_of(s, files@) && opt_labels_view(&r) == #[trigger] split_labels_spec(
                rooted,
                s,
                s.len(),
            ),
        files.len() == 0 ==> (r matches Some(l) && l.0.len() == 0 && l.1.len() == 0),
{
    let rooted = has_root(typed);
    let outcomes = file_outcomes(root, base, rooted, files);
    let r = split_labels(rooted, &outcomes);
    assert(opt_labels_view(&r) == split_labels_spec(
        rooted,
        outcomes_view(&outcomes),
        outcomes_view(&outcomes).len(),
    ));
    proof {
        if files.len() == 0 {
            let labels = r.unwrap();
            assert(texts_view(&labels.0).len() == labels.0.len());
            assert(texts_view(&labels.1).len() == labels.1.len());
        }
    }
    r
}

/// The completions of a path in the order in which they are offered:
/// `root` is the root of the workspace, `base` the source file at hand,
/// `typed` the path that was typed so far, and `files` the files that can be
/// completed. Nothing is completed if the label of one of the files cannot be
/// had. What the file system's rules give for a file is not stated here: the
/// completions are those of some outcomes that stand for the files one for
/// one, and so those of some labels, no more of them than there are files.
pub fn complete_path(
    root: &PathBuf,
    base: &PathBuf,
    typed: &str,
    files: &Vec<FileEntry>,
    in_text: bool,
) -> (r: Option<Vec<PathCompletion>>)
    ensures
        exists|rooted: bool, s: Seq<FileOutcomeView>|
            outcomes_of(s, files@) && opt_paths_view(&r) == #[trigger] labelled_spec(
                rooted,
                s,
                in_text,
            ),
        r matches Some(v) ==> exists|fs: Seq<Seq<char>>, ds: Seq<Seq<char>>|
            fs.len() + ds.len() <= files.len() && paths_view(&v) == #[trigger] complete_paths_spec(
                fs,
                ds,
                in_text,
            ),
        r matches Some(v) ==> v.len() <= files.len(),
        files.len() == 0 ==> (r matches Some(v) && v.len() == 0),
{
    let rooted = has_root(typed);
    let outcomes = file_outcomes(root, base, rooted, files);
    let r = complete_labelled(rooted, &outcomes, in_text);
    proof {
        let s = outcomes_view(&outcomes);
        lemma_split_len(rooted, s, s.len());
        assert(opt_paths_view(&r) == labelled_spec(rooted, s, in_text));
        match split_labels_spec(rooted, s, s.len()) {
            Some(l) => {
                crate::complete::order::lemma_complete_paths_len(l.0, l.1, in_text);
                assert(paths_view(&r->0) == complete_paths_spec(l.0, l.1, in_text));
                assert(paths_view(&r->0).len() == r->0.len());
            },
            None => {},
        }
    }
    r
}

} // verus!
