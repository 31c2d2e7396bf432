//! The order in which completion items are offered.

use vstd::prelude::*;
use vstd::string::*;

use crate::complete::item::{Completion, CompletionKind, CompletionView, completions_view};
use crate::ty::builtin::text;
use crate::ty::check::{bytes_before, name_before, sorts_before};
use crate::value::opt_str_view;

verus! {

/// The character of a decimal digit.
pub open spec fn digit_char(d: nat) -> char {
    if d == 0 {
        '0'
    } else if d == 1 {
        '1'
    } else if d == 2 {
        '2'
    } else if d == 3 {
        '3'
    } else if d == 4 {
        '4'
    } else if d == 5 {
        '5'
    } else if d == 6 {
        '6'
    } else if d == 7 {
        '7'
    } else if d == 8 {
        '8'
    } else {
        '9'
    }
}

/// The decimal digits of a number.
pub open spec fn decimal(n: nat) -> Seq<char>
    decreases n,
{
    if n < 10 {
        seq![digit_char(n)]
    } else {
        decimal(n / 10).push(digit_char(n % 10))
    }
}

/// As many zeros as `n` asks for.
pub open spec fn zeros(n: nat) -> Seq<char> {
    Seq::new(n, |i: int| '0')
}

/// The decimal digits of a number, with zeros in front up to the width
/// `width`.
pub open spec fn padded(n: nat, width: nat) -> Seq<char> {
    if decimal(n).len() >= width {
        decimal(n)
    } else {
        zeros((width - decimal(n).len()) as nat) + decimal(n)
    }
}

fn digit(d: u8) -> (r: &'static str)
    requires
        d < 10,
    ensures
        r@ == seq![digit_char(d as nat)],
{
    proof {
        reveal_strlit("0");
        reveal_strlit("1");
        reveal_strlit("2");
        reveal_strlit("3");
        reveal_strlit("4");
        reveal_strlit("5");
        reveal_strlit("6");
        reveal_strlit("7");
        reveal_strlit("8");
        reveal_strlit("9");
    }
    let r = if d == 0 {
        "0"
    } else if d == 1 {
        "1"
    } else if d == 2 {
        "2"
    } else if d == 3 {
        "3"
    } else if d == 4 {
        "4"
    } else if d == 5 {
        "5"
    } else if d == 6 {
        "6"
    } else if d == 7 {
        "7"
    } else if d == 8 {
        "8"
    } else {
        "9"
    };
    assert(r@ =~= seq![digit_char(d as nat)]);
    r
}

/// The decimal digits of a number.
pub fn decimal_text(n: u128) -> (r: String)
    ensures
        r@ == decimal(n as nat),
    decreases n,
{
    if n < 10 {
        text(digit(n as u8))
    } else {
        let rest = decimal_text(n / 10);
        let r = rest.concat(digit((n % 10) as u8));
        assert(r@ =~= decimal((n / 10) as nat).push(digit_char((n % 10) as nat)));
        r
    }
}

/// The decimal digits of a number, with zeros in front up to the width
/// `width`.
#[verifier::loop_isolation(false)]
pub fn padded_text(n: u128, width: usize) -> (r: String)
    ensures
        r@ == padded(n as nat, width as nat),
{
    let digits = decimal_text(n);
    let len = digits.as_str().unicode_len();
    if len >= width {
        return digits;
    }
    let mut r = String::new();
    let mut i: usize = 0;
    proof {
        reveal_strlit("0");
    }
    while i < width - len
        invariant
            i <= width - len,
            r@ == zeros(i as nat),
        decreases width - len - i,
    {
        let ghost before = r@;
        r.append("0");
        assert(r@ =~= zeros((i + 1) as nat));
        i += 1;
    }
    let r = r.concat(digits.as_str());
    r
}

/// Whether the text `a` comes before the text `b`, each being optional:
/// no text comes before any text, and texts go by their bytes.
pub open spec fn opt_before(a: Option<Seq<char>>, b: Option<Seq<char>>) -> bool {
    match (a, b) {
        (None, Some(_)) => true,
        (Some(x), Some(y)) => name_before(x, y),
        _ => false,
    }
}

/// Whether the item `a` is offered before the item `b`: by the sort text,
/// then by the label.
pub open spec fn item_before(a: CompletionView, b: CompletionView) -> bool {
    if a.sort_text == b.sort_text {
        name_before(a.label, b.label)
    } else {
        opt_before(a.sort_text, b.sort_text)
    }
}

/// The first position at or behind `from` whose item is offered behind
/// `x`.
pub open spec fn sorted_position(s: Seq<CompletionView>, x: CompletionView, from: int) -> int
    decreases s.len() - from,
{
    if from < 0 || from >= s.len() || item_before(x, s[from]) {
        from
    } else {
        sorted_position(s, x, from + 1)
    }
}

/// The items `s` with `x` put in behind every item that is not offered
/// behind it.
pub open spec fn insert_sorted(s: Seq<CompletionView>, x: CompletionView) -> Seq<CompletionView> {
    s.insert(sorted_position(s, x, 0), x)
}

/// The first `n` items of `s` in the order in which they are offered; items
/// of which neither is offered before the other keep their order.
pub open spec fn stable_sort(s: Seq<CompletionView>, n: nat) -> Seq<CompletionView>
    decreases n,
{
    if n == 0 || n > s.len() {
        Seq::empty()
    } else {
        insert_sorted(stable_sort(s, (n - 1) as nat), s[n - 1])
    }
}

/// Sorting keeps the number of items.
pub proof fn lemma_stable_sort_len(s: Seq<CompletionView>, n: nat)
    requires
        n <= s.len(),
    ensures
        stable_sort(s, n).len() == n,
    decreases n,
{
    if n > 0 {
        lemma_stable_sort_len(s, (n - 1) as nat);
        lemma_sorted_position(stable_sort(s, (n - 1) as nat), s[n - 1], 0);
    }
}

/// The place at which an item is put in lies within the list.
pub proof fn lemma_sorted_position(s: Seq<CompletionView>, x: CompletionView, from: int)
    requires
        0 <= from <= s.len(),
    ensures
        from <= sorted_position(s, x, from) <= s.len(),
    decreases s.len() - from,
{
    if from < s.len() && !item_before(x, s[from]) {
        lemma_sorted_position(s, x, from + 1);
    }
}

/// Whether two optional texts are the same.
fn same_opt(a: &Option<String>, b: &Option<String>) -> (r: bool)
    ensures
        r == (opt_str_view(a) == opt_str_view(b)),
{
    match (a, b) {
        (None, None) => true,
        (Some(x), Some(y)) => *x == *y,
        _ => false,
    }
}

/// Whether the item `a` is offered before the item `b`.
pub fn offered_before(a: &Completion, b: &Completion) -> (r: bool)
    ensures
        r == item_before(a@, b@),
{
    if same_opt(&a.sort_text, &b.sort_text) {
        sorts_before(&a.label, &b.label)
    } else {
        match (&a.sort_text, &b.sort_text) {
            (None, Some(_)) => true,
            (Some(x), Some(y)) => sorts_before(x, y),
            _ => false,
        }
    }
}

/// Sorts the items into the order in which they are offered.
#[verifier::loop_isolation(false)]
pub fn sort_completions(items: Vec<Completion>) -> (r: Vec<Completion>)
    ensures
        completions_view(&r) == stable_sort(completions_view(&items), items.len() as nat),
        in_order(completions_view(&r)),
        completions_view(&r).to_multiset() == completions_view(&items).to_multiset(),
{
    let mut items = items;
    let ghost all = completions_view(&items);
    proof {
        lemma_stable_sort_in_order(all, all.len());
        lemma_stable_sort_permutes(all, all.len());
        assert(all.subrange(0, all.len() as int) =~= all);
    }
    let mut out: Vec<Completion> = Vec::new();
    let mut taken: Vec<Completion> = Vec::new();
    // Take the items from the back, so that they can be put in from the front.
    while items.len() > 0
        invariant
            items.len() + taken.len() == all.len(),
            forall|k: int| 0 <= k < items.len() ==> (#[trigger] items@[k])@ == all[k],
            forall|k: int|
                0 <= k < taken.len() ==> (#[trigger] taken@[k])@ == all[all.len() - 1 - k],
        decreases items.len(),
    {
        match items.pop() {
            Some(c) => {
                taken.push(c);
            },
            None => {},
        }
    }
    assert(completions_view(&out) =~= stable_sort(all, 0));
    let mut n: usize = 0;
    while taken.len() > 0
        invariant
            n + taken.len() == all.len(),
            forall|k: int|
                0 <= k < taken.len() ==> (#[trigger] taken@[k])@ == all[all.len() - 1 - k],
            completions_view(&out) == stable_sort(all, n as nat),
        decreases taken.len(),
    {
        match taken.pop() {
            Some(c) => {
                assert(c@ == all[n as int]);
                insert_completion(&mut out, c);
                n += 1;
            },
            None => {},
        }
    }
    out
}

/// Puts the item in behind every item that is not offered behind it.
#[verifier::loop_isolation(false)]
fn insert_completion(out: &mut Vec<Completion>, c: Completion)
    ensures
        completions_view(final(out)) == insert_sorted(completions_view(old(out)), c@),
{
    let ghost before = completions_view(out);
    let mut p: usize = 0;
    while p < out.len() && !offered_before(&c, &out[p])
        invariant
            p <= out.len(),
            completions_view(out) == before,
            sorted_position(before, c@, 0) == sorted_position(before, c@, p as int),
        decreases out.len() - p,
    {
        assert(before[p as int] == out[p as int]@);
        p += 1;
    }
    proof {
        if p < out.len() {
            assert(before[p as int] == out[p as int]@);
        }
    }
    proof {
        lemma_sorted_position(before, c@, 0);
    }
    out.insert(p, c);
    assert(completions_view(out) =~= before.insert(p as int, c@));
}

/// The item with the sort text `text`.
pub open spec fn with_sort_text(c: CompletionView, text: Seq<char>) -> CompletionView {
    CompletionView { sort_text: Some(text), ..c }
}

/// The first `n` items of `s`, each with its number as its sort text: the
/// first has the number `base`, and numbers have three digits at least.
pub open spec fn numbered(s: Seq<CompletionView>, base: nat, n: nat) -> Seq<CompletionView>
    decreases n,
{
    if n == 0 || n > s.len() {
        Seq::empty()
    } else {
        numbered(s, base, (n - 1) as nat).push(
            with_sort_text(s[n - 1], padded(base + (n - 1) as nat, 3)),
        )
    }
}

/// The sort text of the path completion with the number `i`: the number
/// with three digits at least.
pub open spec fn path_sort_text_spec(i: nat) -> Seq<char> {
    padded(i, 3)
}

/// The sort text of the path completion with the number `i`.
pub fn path_sort_text(i: usize) -> (r: String)
    ensures
        r@ == path_sort_text_spec(i as nat),
{
    padded_text(i as u128, 3)
}

/// The order in which the items of a completion are offered: `typed` are
/// the items that the expected types gave, `code` the items of code
/// completion, and `paths` the number of path completions, which come first
/// and have the numbers before `paths`. Each list is sorted; then the typed
/// items are numbered from `paths` on and the code items behind them; the
/// result holds the code items first, then the typed items.
pub open spec fn offered(typed: Seq<CompletionView>, code: Seq<CompletionView>, paths: nat)
    -> Seq<CompletionView> {
    let typed = stable_sort(typed, typed.len());
    let code = stable_sort(code, code.len());
    numbered(code, paths + typed.len(), code.len()) + numbered(typed, paths, typed.len())
}

#[verifier::loop_isolation(false)]
fn number(items: Vec<Completion>, base: u128) -> (r: Vec<Completion>)
    requires
        base + items.len() <= u128::MAX,
    ensures
        completions_view(&r) == numbered(
            completions_view(&items),
            base as nat,
            items.len() as nat,
        ),
{
    let ghost all = completions_view(&items);
    let mut out: Vec<Completion> = Vec::new();
    assert(completions_view(&out) =~= numbered(all, base as nat, 0));
    let mut i: usize = 0;
    while i < items.len()
        invariant
            i <= items.len(),
            completions_view(&out) == numbered(all, base as nat, i as nat),
        decreases items.len() - i,
    {
        let ghost before = completions_view(&out);
        assert(all[i as int] == items[i as int]@);
        let mut c = items[i].clone();
        c.sort_text = Some(padded_text(base + i as u128, 3));
        out.push(c);
        assert(completions_view(&out) =~= before.push(
            with_sort_text(all[i as int], padded((base + i) as nat, 3)),
        ));
        i += 1;
    }
    out
}

/// Sorts and numbers the items of a completion.
pub fn sort_and_explicit_code_completion(
    typed: Vec<Completion>,
    code: Vec<Completion>,
    paths: usize,
) -> (r: Vec<Completion>)
    ensures
        completions_view(&r) == offered(
            completions_view(&typed),
            completions_view(&code),
            paths as nat,
        ),
{
    proof {
        lemma_stable_sort_len(completions_view(&typed), typed.len() as nat);
        lemma_stable_sort_len(completions_view(&code), code.len() as nat);
    }
    let typed = sort_completions(typed);
    let code = sort_completions(code);
    let base = paths as u128;
    let typed_len = typed.len();
    let mut typed = number(typed, base);
    let mut all = number(code, base + typed_len as u128);
    let ghost a = completions_view(&all);
    let ghost b = completions_view(&typed);
    all.append(&mut typed);
    assert(completions_view(&all) =~= a + b);
    all
}

/// How many characters from the position `from` on are dots or slashes
/// without a break.
pub open spec fn leading_dots(s: Seq<char>, from: int) -> nat
    decreases s.len() - from,
{
    if from < 0 || from >= s.len() || !(s[from] == '.' || s[from] == '/') {
        0
    } else {
        1 + leading_dots(s, from + 1)
    }
}

/// Whether the path `a` is offered before the path `b`. Where one of them
/// starts with a dot, the one with fewer dots and slashes in front comes
/// first; else, and where they have as many, paths go by their bytes.
pub open spec fn path_before(a: Seq<char>, b: Seq<char>) -> bool {
    let dotted = (a.len() > 0 && a[0] == '.') || (b.len() > 0 && b[0] == '.');
    if dotted && leading_dots(a, 0) != leading_dots(b, 0) {
        leading_dots(a, 0) < leading_dots(b, 0)
    } else {
        name_before(a, b)
    }
}

#[verifier::loop_isolation(false)]
fn count_leading(s: &String) -> (r: usize)
    ensures
        r == leading_dots(s@, 0),
{
    let len = s.as_str().unicode_len();
    let mut i: usize = 0;
    while i < len
        invariant
            i <= len,
            len == s@.len(),
            leading_dots(s@, 0) == i + leading_dots(s@, i as int),
        decreases len - i,
    {
        let c = s.as_str().get_char(i);
        if !(c == '.' || c == '/') {
            return i;
        }
        i += 1;
    }
    i
}

fn starts_with_dot(s: &String) -> (r: bool)
    ensures
        r == (s@.len() > 0 && s@[0] == '.'),
{
    s.as_str().unicode_len() > 0 && s.as_str().get_char(0) == '.'
}

/// Whether the path `a` is offered before the path `b`.
pub fn path_priority(a: &String, b: &String) -> (r: bool)
    ensures
        r == path_before(a@, b@),
{
    // Files are more important than dot started paths.
    if starts_with_dot(a) || starts_with_dot(b) {
        // Compare consecutive dots and slashes.
        let a_prefix = count_leading(a);
        let b_prefix = count_leading(b);
        if a_prefix != b_prefix {
            return a_prefix < b_prefix;
        }
    }
    sorts_before(a, b)
}

/// The mathematical value of a list of texts.
pub open spec fn texts_view(v: &Vec<String>) -> Seq<Seq<char>> {
    Seq::new(v@.len(), |i: int| v@[i]@)
}

/// The first position at or behind `from` whose path is offered behind
/// `x`.
pub open spec fn path_position(s: Seq<Seq<char>>, x: Seq<char>, from: int) -> int
    decreases s.len() - from,
{
    if from < 0 || from >= s.len() || path_before(x, s[from]) {
        from
    } else {
        path_position(s, x, from + 1)
    }
}

/// The first `n` paths of `s` in the order in which they are offered; paths
/// of which neither is offered before the other keep their order.
pub open spec fn sort_paths_spec(s: Seq<Seq<char>>, n: nat) -> Seq<Seq<char>>
    decreases n,
{
    if n == 0 || n > s.len() {
        Seq::empty()
    } else {
        let before = sort_paths_spec(s, (n - 1) as nat);
        before.insert(path_position(before, s[n - 1], 0), s[n - 1])
    }
}

proof fn lemma_path_position(s: Seq<Seq<char>>, x: Seq<char>, from: int)
    requires
        0 <= from <= s.len(),
    ensures
        from <= path_position(s, x, from) <= s.len(),
    decreases s.len() - from,
{
    if from < s.len() && !path_before(x, s[from]) {
        lemma_path_position(s, x, from + 1);
    }
}

/// Sorting keeps the number of paths.
pub proof fn lemma_sort_paths_len(s: Seq<Seq<char>>, n: nat)
    requires
        n <= s.len(),
    ensures
        sort_paths_spec(s, n).len() == n,
    decreases n,
{
    if n > 0 {
        lemma_sort_paths_len(s, (n - 1) as nat);
        lemma_path_position(sort_paths_spec(s, (n - 1) as nat), s[n - 1], 0);
    }
}

/// Sorts paths into the order in which they are offered.
#[verifier::loop_isolation(false)]
pub fn sort_paths(paths: &Vec<String>) -> (r: Vec<String>)
    ensures
        texts_view(&r) == sort_paths_spec(texts_view(paths), paths.len() as nat),
{
    let ghost all = texts_view(paths);
    let mut out: Vec<String> = Vec::new();
    assert(texts_view(&out) =~= sort_paths_spec(all, 0));
    let mut n: usize = 0;
    while n < paths.len()
        invariant
            n <= paths.len(),
            texts_view(&out) == sort_paths_spec(all, n as nat),
        decreases paths.len() - n,
    {
        let ghost before = texts_view(&out);
        let x = &paths[n];
        assert(all[n as int] == x@);
        let mut p: usize = 0;
        while p < out.len() && !path_priority(x, &out[p])
            invariant
                p <= out.len(),
                texts_view(&out) == before,
                path_position(before, x@, 0) == path_position(before, x@, p as int),
            decreases out.len() - p,
        {
            assert(before[p as int] == out[p as int]@);
            p += 1;
        }
        proof {
            if p < out.len() {
                assert(before[p as int] == out[p as int]@);
            }
            lemma_path_position(before, x@, 0);
        }
        out.insert(p, x.clone());
        assert(texts_view(&out) =~= before.insert(p as int, x@));
        n += 1;
    }
    out
}

/// A completion of a path.
#[derive(Debug)]
pub struct PathCompletion {
    /// The path as it is shown.
    pub label: String,
    /// Whether the path is a file or a folder.
    pub kind: CompletionKind,
    /// The text that is put in.
    pub insert_text: String,
    /// The text by which the completion is sorted.
    pub sort_text: String,
}

/// The mathematical value of a [`PathCompletion`].
pub struct PathCompletionView {
    pub label: Seq<char>,
    pub kind: CompletionKind,
    pub insert_text: Seq<char>,
    pub sort_text: Seq<char>,
}

impl View for PathCompletion {
    type V = PathCompletionView;

    open spec fn view(&self) -> PathCompletionView {
        PathCompletionView {
            label: self.label@,
            kind: self.kind,
            insert_text: self.insert_text@,
            sort_text: self.sort_text@,
        }
    }
}

/// The mathematical value of a list of path completions.
pub open spec fn paths_view(v: &Vec<PathCompletion>) -> Seq<PathCompletionView> {
    Seq::new(v@.len(), |i: int| v@[i]@)
}

/// The completion of the path `label` with the number `i`: inside a string
/// the path itself is put in, elsewhere the path in quotes; the sort text is
/// the number with `digits` digits at least.
pub open spec fn path_completion(
    label: Seq<char>,
    kind: CompletionKind,
    in_text: bool,
    i: nat,
    digits: nat,
) -> PathCompletionView {
    PathCompletionView {
        label,
        kind,
        insert_text: if in_text {
            label
        } else {
            "\""@ + label + "\""@
        },
        sort_text: padded(i, digits),
    }
}

/// The completions of the first `n` of the paths `s`, numbered from `base`
/// on.
pub open spec fn path_completions(
    s: Seq<Seq<char>>,
    kind: CompletionKind,
    in_text: bool,
    base: nat,
    digits: nat,
    n: nat,
) -> Seq<PathCompletionView>
    decreases n,
{
    if n == 0 || n > s.len() {
        Seq::empty()
    } else {
        path_completions(s, kind, in_text, base, digits, (n - 1) as nat).push(
            path_completion(s[n - 1], kind, in_text, base + (n - 1) as nat, digits),
        )
    }
}

/// The completions of paths in the order in which they are offered: the
/// files, sorted, then the folders, sorted, numbered through with as many
/// digits as the number of all of them has.
pub open spec fn complete_paths_spec(files: Seq<Seq<char>>, folders: Seq<Seq<char>>, in_text: bool)
    -> Seq<PathCompletionView> {
    let digits = decimal(files.len() + folders.len()).len();
    let files = sort_paths_spec(files, files.len());
    let folders = sort_paths_spec(folders, folders.len());
    path_completions(files, CompletionKind::File, in_text, 0, digits, files.len())
        + path_completions(
        folders,
        CompletionKind::Folder,
        in_text,
        files.len(),
        digits,
        folders.len(),
    )
}

#[verifier::loop_isolation(false)]
fn number_paths(
    out: &mut Vec<PathCompletion>,
    paths: &Vec<String>,
    kind: CompletionKind,
    in_text: bool,
    base: usize,
    digits: usize,
)
    requires
        base + paths.len() <= usize::MAX,
    ensures
        paths_view(final(out)) == paths_view(old(out)) + path_completions(
            texts_view(paths),
            kind,
            in_text,
            base as nat,
            digits as nat,
            paths.len() as nat,
        ),
{
    let ghost start = paths_view(out);
    let ghost all = texts_view(paths);
    let mut i: usize = 0;
    assert(paths_view(out) =~= start + path_completions(
        all,
        kind,
        in_text,
        base as nat,
        digits as nat,
        0,
    ));
    while i < paths.len()
        invariant
            i <= paths.len(),
            paths_view(out) == start + path_completions(
                all,
                kind,
                in_text,
                base as nat,
                digits as nat,
                i as nat,
            ),
        decreases paths.len() - i,
    {
        let ghost before = paths_view(out);
        let label = &paths[i];
        assert(all[i as int] == label@);
        let insert_text = if in_text {
            label.clone()
        } else {
            text("\"").concat(label.as_str()).concat("\"")
        };
        let item = PathCompletion {
            label: label.clone(),
            kind,
            insert_text,
            sort_text: padded_text((base + i) as u128, digits),
        };
        out.push(item);
        assert(paths_view(out) =~= before.push(
            path_completion(all[i as int], kind, in_text, (base + i) as nat, digits as nat),
        ));
        assert(paths_view(out) =~= start + path_completions(
            all,
            kind,
            in_text,
            base as nat,
            digits as nat,
            (i + 1) as nat,
        ));
        i += 1;
    }
}

/// Orders and numbers the completions of paths: `files` and `folders` are
/// the paths as they are shown. Nothing is completed where there are more
/// paths than can be counted.
pub fn complete_paths(files: &Vec<String>, folders: &Vec<String>, in_text: bool) -> (r: Option<
    Vec<PathCompletion>,
>)
    ensures
        r is Some <==> files.len() + folders.len() <= usize::MAX,
        r matches Some(v) ==> paths_view(&v) == complete_paths_spec(
            texts_view(files),
            texts_view(folders),
            in_text,
        ),
{
    if folders.len() > usize::MAX - files.len() {
        return None;
    }
    let total = files.len() + folders.len();
    let digits = decimal_text(total as u128).as_str().unicode_len();
    proof {
        lemma_sort_paths_len(texts_view(files), files.len() as nat);
        lemma_sort_paths_len(texts_view(folders), folders.len() as nat);
    }
    let files = sort_paths(files);
    let folders = sort_paths(folders);
    let mut out: Vec<PathCompletion> = Vec::new();
    assert(paths_view(&out) =~= Seq::empty());
    number_paths(&mut out, &files, CompletionKind::File, in_text, 0, digits);
    number_paths(&mut out, &folders, CompletionKind::Folder, in_text, files.len(), digits);
    Some(out)
}

/// Numbering keeps the number of paths.
pub proof fn lemma_path_completions_len(
    s: Seq<Seq<char>>,
    kind: CompletionKind,
    in_text: bool,
    base: nat,
    digits: nat,
    n: nat,
)
    requires
        n <= s.len(),
    ensures
        path_completions(s, kind, in_text, base, digits, n).len() == n,
    decreases n,
{
    if n > 0 {
        lemma_path_completions_len(s, kind, in_text, base, digits, (n - 1) as nat);
    }
}

/// There are as many completions of paths as there are files and folders.
pub proof fn lemma_complete_paths_len(files: Seq<Seq<char>>, folders: Seq<Seq<char>>, in_text: bool)
    ensures
        complete_paths_spec(files, folders, in_text).len() == files.len() + folders.len(),
{
    let digits = decimal(files.len() + folders.len()).len();
    lemma_sort_paths_len(files, files.len());
    lemma_sort_paths_len(folders, folders.len());
    let sorted_files = sort_paths_spec(files, files.len());
    let sorted_folders = sort_paths_spec(folders, folders.len());
    lemma_path_completions_len(
        sorted_files,
        CompletionKind::File,
        in_text,
        0,
        digits,
        sorted_files.len(),
    );
    lemma_path_completions_len(
        sorted_folders,
        CompletionKind::Folder,
        in_text,
        sorted_files.len(),
        digits,
        sorted_folders.len(),
    );
}

/// No bytes come before themselves.
pub proof fn lemma_bytes_not_before_self(x: Seq<u8>, from: int)
    requires
        0 <= from,
    ensures
        !bytes_before(x, x, from),
    decreases x.len() - from,
{
    if from < x.len() {
        lemma_bytes_not_before_self(x, from + 1);
    }
}

/// The order of bytes is transitive.
pub proof fn lemma_bytes_before_trans(x: Seq<u8>, y: Seq<u8>, z: Seq<u8>, from: int)
    requires
        0 <= from,
        bytes_before(x, y, from),
        bytes_before(y, z, from),
    ensures
        bytes_before(x, z, from),
    decreases y.len() - from,
{
    if from < x.len() && from < y.len() && from < z.len() && x[from] == y[from] && y[from]
        == z[from] {
        lemma_bytes_before_trans(x, y, z, from + 1);
    }
}

/// The order in which items are offered is transitive.
pub proof fn lemma_item_before_trans(a: CompletionView, b: CompletionView, c: CompletionView)
    requires
        item_before(a, b),
        item_before(b, c),
    ensures
        item_before(a, c),
{
    let key = |t: Option<Seq<char>>|
        match t {
            Some(x) => vstd::utf8::encode_utf8(x),
            None => Seq::<u8>::empty(),
        };
    if a.sort_text == b.sort_text && b.sort_text == c.sort_text {
        lemma_bytes_before_trans(
            vstd::utf8::encode_utf8(a.label),
            vstd::utf8::encode_utf8(b.label),
            vstd::utf8::encode_utf8(c.label),
            0,
        );
    } else if a.sort_text == b.sort_text || b.sort_text == c.sort_text {
    } else {
        if a.sort_text is Some && b.sort_text is Some && c.sort_text is Some {
            lemma_bytes_before_trans(key(a.sort_text), key(b.sort_text), key(c.sort_text), 0);
            if a.sort_text == c.sort_text {
                lemma_bytes_not_before_self(key(a.sort_text), 0);
            }
        }
    }
}

/// Whether no item of `s` is offered before an item that stands in front of
/// it.
pub open spec fn in_order(s: Seq<CompletionView>) -> bool {
    forall|i: int, j: int| 0 <= i < j < s.len() ==> !item_before(#[trigger] s[j], #[trigger] s[i])
}

proof fn lemma_sorted_position_first(s: Seq<CompletionView>, x: CompletionView, from: int)
    requires
        0 <= from <= s.len(),
    ensures
        forall|k: int| from <= k < sorted_position(s, x, from) ==> !item_before(x, #[trigger] s[k]),
        sorted_position(s, x, from) < s.len() ==> item_before(x, s[sorted_position(s, x, from)]),
    decreases s.len() - from,
{
    if from < s.len() && !item_before(x, s[from]) {
        lemma_sorted_position_first(s, x, from + 1);
    }
}

/// Putting an item in where it belongs keeps the items in order.
pub proof fn lemma_insert_sorted_in_order(s: Seq<CompletionView>, x: CompletionView)
    requires
        in_order(s),
    ensures
        in_order(insert_sorted(s, x)),
{
    let p = sorted_position(s, x, 0);
    lemma_sorted_position(s, x, 0);
    lemma_sorted_position_first(s, x, 0);
    let t = insert_sorted(s, x);
    assert forall|i: int, j: int| 0 <= i < j < t.len() implies !item_before(
        #[trigger] t[j],
        #[trigger] t[i],
    ) by {
        if j < p {
            assert(t[i] == s[i] && t[j] == s[j]);
        } else if j == p {
            assert(t[i] == s[i] && t[j] == x);
        } else if i == p {
            assert(t[i] == x && t[j] == s[j - 1]);
            if item_before(s[j - 1], x) {
                lemma_item_before_trans(s[j - 1], x, s[p]);
                if j - 1 > p {
                    assert(!item_before(s[j - 1], s[p]));
                } else {
                    lemma_item_not_before_self(s[p]);
                }
            }
        } else if i < p {
            assert(t[i] == s[i] && t[j] == s[j - 1]);
        } else {
            assert(t[i] == s[i - 1] && t[j] == s[j - 1]);
        }
    }
}

/// No item is offered before itself.
pub proof fn lemma_item_not_before_self(a: CompletionView)
    ensures
        !item_before(a, a),
{
    lemma_bytes_not_before_self(vstd::utf8::encode_utf8(a.label), 0);
}

/// Sorted items are in order.
pub proof fn lemma_stable_sort_in_order(s: Seq<CompletionView>, n: nat)
    ensures
        in_order(stable_sort(s, n)),
    decreases n,
{
    if n == 0 || n > s.len() {
    } else {
        lemma_stable_sort_in_order(s, (n - 1) as nat);
        lemma_insert_sorted_in_order(stable_sort(s, (n - 1) as nat), s[n - 1]);
    }
}

/// Sorted items are the items that were given, each as often as it was
/// given.
pub proof fn lemma_stable_sort_permutes(s: Seq<CompletionView>, n: nat)
    requires
        n <= s.len(),
    ensures
        stable_sort(s, n).to_multiset() == s.subrange(0, n as int).to_multiset(),
    decreases n,
{
    broadcast use vstd::seq_lib::group_to_multiset_ensures;

    if n == 0 {
        assert(stable_sort(s, 0) =~= s.subrange(0, 0));
    } else {
        lemma_stable_sort_permutes(s, (n - 1) as nat);
        let before = stable_sort(s, (n - 1) as nat);
        let x = s[n - 1];
        let p = sorted_position(before, x, 0);
        lemma_sorted_position(before, x, 0);
        let t = before.insert(p, x);
        assert(t.remove(p) =~= before);
        assert(t[p] == x);
        assert(t.remove(p).to_multiset() =~= t.to_multiset().remove(x));
        assert(t.to_multiset().count(x) > 0) by {
            assert(t.contains(x));
        }
        assert(t.to_multiset() =~= before.to_multiset().insert(x));
        assert(s.subrange(0, n as int) =~= s.subrange(0, n - 1).push(x));
    }
}

} // verus!
