//! Completion items, and what type inference asks the host to complete.

use vstd::prelude::*;
use vstd::string::*;

use crate::ty::builtin::{PathPreference, text};
use crate::ty::copy::clone_opt_string;
use crate::value::{Type, TypeVal, Val, Value, opt_str_view};

verus! {

/// What a completion item stands for.
#[derive(Debug, Clone, Copy, PartialEq, Eq, Structural)]
pub enum CompletionKind {
    Syntax,
    Func,
    Type,
    Param,
    Field,
    Variable,
    Constant,
    Symbol(char),
    Module,
    File,
    Folder,
}

/// A completion item.
#[derive(Debug)]
pub struct Completion {
    pub kind: CompletionKind,
    /// The text that is shown.
    pub label: String,
    /// A detail that is shown beside the label.
    pub label_detail: Option<String>,
    /// The text by which the item is sorted.
    pub sort_text: Option<String>,
    /// The text that is put in; the label where there is none.
    pub apply: Option<String>,
    /// A description of the item.
    pub detail: Option<String>,
    /// The editor command that is run once the item was put in.
    pub command: Option<String>,
}

/// The mathematical value of a [`Completion`].
pub struct CompletionView {
    pub kind: CompletionKind,
    pub label: Seq<char>,
    pub label_detail: Option<Seq<char>>,
    pub sort_text: Option<Seq<char>>,
    pub apply: Option<Seq<char>>,
    pub detail: Option<Seq<char>>,
    pub command: Option<Seq<char>>,
}

impl View for Completion {
    type V = CompletionView;

    open spec fn view(&self) -> CompletionView {
        CompletionView {
            kind: self.kind,
            label: self.label@,
            label_detail: opt_str_view(&self.label_detail),
            sort_text: opt_str_view(&self.sort_text),
            apply: opt_str_view(&self.apply),
            detail: opt_str_view(&self.detail),
            command: opt_str_view(&self.command),
        }
    }
}

/// The editor command that asks for suggestions again.
pub open spec fn trigger_suggest() -> Seq<char> {
    "editor.action.triggerSuggest"@
}

/// The item with the given kind and label and nothing else.
pub open spec fn plain_item(kind: CompletionKind, label: Seq<char>) -> CompletionView {
    CompletionView {
        kind,
        label,
        label_detail: None,
        sort_text: None,
        apply: None,
        detail: None,
        command: None,
    }
}

/// The item of a snippet: a piece of syntax that is put in as `snippet` and
/// described by `docs`.
pub open spec fn snippet_item(label: Seq<char>, snippet: Seq<char>, docs: Seq<char>)
    -> CompletionView {
    CompletionView {
        apply: Some(snippet),
        detail: Some(docs),
        ..plain_item(CompletionKind::Syntax, label)
    }
}

impl Completion {
    /// The item with the given kind and label and nothing else.
    pub fn plain(kind: CompletionKind, label: String) -> (r: Completion)
        ensures
            r@ == plain_item(kind, label@),
    {
        Completion {
            kind,
            label,
            label_detail: None,
            sort_text: None,
            apply: None,
            detail: None,
            command: None,
        }
    }

    /// The item of a snippet.
    pub fn snippet(label: &str, snippet: &str, docs: &str) -> (r: Completion)
        ensures
            r@ == snippet_item(label@, snippet@, docs@),
    {
        Completion {
            kind: CompletionKind::Syntax,
            label: text(label),
            label_detail: None,
            sort_text: None,
            apply: Some(text(snippet)),
            detail: Some(text(docs)),
            command: None,
        }
    }
}

impl Clone for Completion {
    fn clone(&self) -> (r: Self)
        ensures
            r@ == self@,
    {
        Completion {
            kind: self.kind,
            label: self.label.clone(),
            label_detail: clone_opt_string(&self.label_detail),
            sort_text: clone_opt_string(&self.sort_text),
            apply: clone_opt_string(&self.apply),
            detail: clone_opt_string(&self.detail),
            command: clone_opt_string(&self.command),
        }
    }
}

/// What type inference suggests at a position: a completion item, or
/// something that only the host can complete.
#[derive(Debug)]
pub enum Suggestion {
    /// A completion item.
    Item(Completion),
    /// The files that a path parameter of this preference accepts.
    Paths(PathPreference),
    /// The values in scope that have this type.
    ScopeOfType(Type),
    /// The fonts that are installed.
    Fonts,
    /// The labels of the document.
    Labels,
    /// A value, with its documentation.
    Value { value: Value, docs: Option<String> },
    /// The constructor of an element, with its documentation.
    Element { name: String, docs: Option<String> },
    /// The values that the parameter of this name is cast from.
    Casts { param: String },
}

/// The mathematical value of a [`Suggestion`].
pub enum SuggestionView {
    Item(CompletionView),
    Paths(PathPreference),
    ScopeOfType(TypeVal),
    Fonts,
    Labels,
    Value { value: Val, docs: Option<Seq<char>> },
    Element { name: Seq<char>, docs: Option<Seq<char>> },
    Casts { param: Seq<char> },
}

impl View for Suggestion {
    type V = SuggestionView;

    open spec fn view(&self) -> SuggestionView {
        match self {
            Suggestion::Item(c) => SuggestionView::Item(c@),
            Suggestion::Paths(p) => SuggestionView::Paths(*p),
            Suggestion::ScopeOfType(t) => SuggestionView::ScopeOfType(t@),
            Suggestion::Fonts => SuggestionView::Fonts,
            Suggestion::Labels => SuggestionView::Labels,
            Suggestion::Value { value, docs } => SuggestionView::Value {
                value: value@,
                docs: opt_str_view(docs),
            },
            Suggestion::Element { name, docs } => SuggestionView::Element {
                name: name@,
                docs: opt_str_view(docs),
            },
            Suggestion::Casts { param } => SuggestionView::Casts { param: param@ },
        }
    }
}

/// The mathematical value of a list of suggestions.
pub open spec fn suggestions_view(v: &Vec<Suggestion>) -> Seq<SuggestionView> {
    Seq::new(v@.len(), |i: int| v@[i]@)
}

/// The mathematical value of a list of completion items.
pub open spec fn completions_view(v: &Vec<Completion>) -> Seq<CompletionView> {
    Seq::new(v@.len(), |i: int| v@[i]@)
}

/// Adds a suggestion to the list.
pub fn suggest(out: &mut Vec<Suggestion>, s: Suggestion)
    ensures
        suggestions_view(final(out)) == suggestions_view(old(out)).push(s@),
{
    out.push(s);
    assert(suggestions_view(out) =~= suggestions_view(old(out)).push(s@));
}

/// Adds the item of a snippet to the list.
pub fn suggest_snippet(out: &mut Vec<Suggestion>, label: &str, snippet: &str, docs: &str)
    ensures
        suggestions_view(final(out)) == suggestions_view(old(out)).push(
            SuggestionView::Item(snippet_item(label@, snippet@, docs@)),
        ),
{
    suggest(out, Suggestion::Item(Completion::snippet(label, snippet, docs)));
}

/// Whether the text before the cursor ends with `mark`.
pub open spec fn ends_with(before: Seq<char>, mark: char) -> bool {
    before.len() > 0 && before.last() == mark
}

/// The item set off by a blank: a blank is put in before what the item put
/// in so far, which is its label where nothing else was given.
pub open spec fn set_off_item(c: CompletionView) -> CompletionView {
    CompletionView {
        apply: Some(
            " "@ + (match c.apply {
                Some(a) => a,
                None => c.label,
            }),
        ),
        ..c
    }
}

/// The items as they are put in behind the text `before`: each set off by a
/// blank where `before` ends with `mark`, else as they are.
pub open spec fn set_off_spec(items: Seq<CompletionView>, before: Seq<char>, mark: char) -> Seq<
    CompletionView,
> {
    if ends_with(before, mark) {
        Seq::new(items.len(), |i: int| set_off_item(items[i]))
    } else {
        items
    }
}

/// Sets the items off by a blank where the text before the cursor ends with
/// `mark`: the comma behind an argument, or the colon behind a name.
#[verifier::loop_isolation(false)]
pub fn set_off(items: &mut Vec<Completion>, before: &str, mark: char)
    ensures
        completions_view(final(items)) == set_off_spec(completions_view(old(items)), before@, mark),
{
    let len = before.unicode_len();
    if len == 0 || before.get_char(len - 1) != mark {
        return ;
    }
    let ghost start = completions_view(items);
    let mut out: Vec<Completion> = Vec::new();
    let mut i: usize = 0;
    while i < items.len()
        invariant
            i <= items.len(),
            out.len() == i,
            completions_view(items) == start,
            forall|k: int| 0 <= k < i ==> (#[trigger] out[k])@ == set_off_item(start[k]),
        decreases items.len() - i,
    {
        let c = &items[i];
        assert(start[i as int] == c@);
        let current = match &c.apply {
            Some(a) => a,
            None => &c.label,
        };
        out.push(
            Completion {
                kind: c.kind,
                label: c.label.clone(),
                label_detail: clone_opt_string(&c.label_detail),
                sort_text: clone_opt_string(&c.sort_text),
                apply: Some(text(" ").concat(current.as_str())),
                detail: clone_opt_string(&c.detail),
                command: clone_opt_string(&c.command),
            },
        );
        i += 1;
    }
    *items = out;
    assert(completions_view(items) =~= set_off_spec(start, before@, mark));
}

} // verus!
