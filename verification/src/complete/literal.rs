//! Suggestions inside a dictionary or array literal.

use vstd::prelude::*;
use vstd::string::*;

use crate::complete::by_type::{
    Suggested, TablesView, TypeCompletions, expected_view, type_completion, type_completion_spec,
};
use crate::complete::item::{
    Completion, CompletionKind, CompletionView, Suggestion, SuggestionView, plain_item,
    suggestions_view, trigger_suggest,
};
use crate::syntax::DictItem;
use crate::ty::builtin::{canonical_dict, canonical_fields, is_dict_alias, text};
use crate::ty::def::{FieldTy, FlowRecord, FlowType, Ty, fields_view, tys_view};
use crate::value::Value;

verus! {

/// The names of the fields that the first `n` items of a dictionary literal
/// give, in order: the names of the named items and the keys that are
/// strings.
pub open spec fn existing_names(items: Seq<DictItem>, n: nat) -> Seq<Seq<char>>
    decreases n,
{
    if n == 0 || n > items.len() {
        Seq::empty()
    } else {
        let before = existing_names(items, (n - 1) as nat);
        match items[n - 1] {
            DictItem::Named { name, .. } => before.push(name@),
            DictItem::Keyed { key: Some(Value::Str(key)), .. } => before.push(key@),
            _ => before,
        }
    }
}

/// The item that completes the field `key` of a dictionary.
pub open spec fn field_item(key: Seq<char>) -> CompletionView {
    CompletionView {
        apply: Some(key + ": ${}"@),
        command: Some(trigger_suggest()),
        ..plain_item(CompletionKind::Field, key)
    }
}

/// With an item for each of the first `n` fields whose name is not among
/// `existing`.
pub open spec fn missing_fields(
    st: Suggested,
    fields: Seq<FieldTy>,
    existing: Seq<Seq<char>>,
    n: nat,
) -> Suggested
    decreases n,
{
    if n == 0 || n > fields.len() {
        st
    } else {
        let before = missing_fields(st, fields, existing, (n - 1) as nat);
        if existing.contains(fields[n - 1].name) {
            before
        } else {
            before.add(SuggestionView::Item(field_item(fields[n - 1].name)))
        }
    }
}

/// What the type `ty` of a literal suggests inside the literal: the fields
/// that are missing for a dictionary or an alias of one, what the type of the
/// elements suggests for an array, and all of that for each member of a
/// union.
pub open spec fn on_lit_ty_spec(st: Suggested, tables: TablesView, ty: Ty, existing: Seq<Seq<char>>)
    -> Suggested
    decreases ty, 0nat,
{
    match ty {
        Ty::Builtin(b) => if is_dict_alias(b) {
            missing_fields(st, canonical_fields(b), existing, canonical_fields(b).len())
        } else {
            st
        },
        Ty::Dict(d) => missing_fields(st, d, existing, d.len()),
        Ty::Array(a) => type_completion_spec(st, tables, Some(*a), None).0,
        Ty::Union(u) => on_lit_tys_spec(st, tables, u, existing, u.len()),
        _ => st,
    }
}

/// What each of the first `n` types suggests inside a literal.
pub open spec fn on_lit_tys_spec(
    st: Suggested,
    tables: TablesView,
    s: Seq<Ty>,
    existing: Seq<Seq<char>>,
    n: nat,
) -> Suggested
    decreases s, n,
{
    if n == 0 || n > s.len() {
        st
    } else {
        on_lit_ty_spec(
            on_lit_tys_spec(st, tables, s, existing, (n - 1) as nat),
            tables,
            s[n - 1],
            existing,
        )
    }
}

/// What is suggested inside a literal with the given items: what the type
/// expected of the named item at hand suggests, if there is one; else what
/// the type of the literal suggests inside it.
pub open spec fn complete_literal_spec(
    st: Suggested,
    tables: TablesView,
    items: Seq<DictItem>,
    named_ty: Option<Ty>,
    lit_ty: Option<Ty>,
) -> Suggested {
    match named_ty {
        Some(_) => type_completion_spec(st, tables, named_ty, None).0,
        None => match lit_ty {
            Some(t) => on_lit_ty_spec(st, tables, t, existing_names(items, items.len())),
            None => st,
        },
    }
}

/// The mathematical value of a list of names.
pub open spec fn names_view(v: &Vec<String>) -> Seq<Seq<char>> {
    Seq::new(v@.len(), |i: int| v@[i]@)
}

/// The names of the fields that a dictionary literal gives.
#[verifier::loop_isolation(false)]
pub fn existing_keys(items: &Vec<DictItem>) -> (r: Vec<String>)
    ensures
        names_view(&r) == existing_names(items@, items.len() as nat),
{
    let mut out: Vec<String> = Vec::new();
    assert(names_view(&out) =~= Seq::empty());
    let mut i: usize = 0;
    while i < items.len()
        invariant
            i <= items.len(),
            names_view(&out) == existing_names(items@, i as nat),
        decreases items.len() - i,
    {
        let ghost before = names_view(&out);
        match &items[i] {
            DictItem::Named { name, .. } => {
                out.push(name.clone());
                assert(names_view(&out) =~= before.push(name@));
            },
            DictItem::Keyed { key: Some(Value::Str(key)), .. } => {
                out.push(key.clone());
                assert(names_view(&out) =~= before.push(key@));
            },
            _ => {},
        }
        i += 1;
    }
    out
}

/// Whether `name` is among `names`.
#[verifier::loop_isolation(false)]
pub fn has_name(names: &Vec<String>, name: &String) -> (r: bool)
    ensures
        r == names_view(names).contains(name@),
{
    let mut i: usize = 0;
    while i < names.len()
        invariant
            i <= names.len(),
            forall|k: int| 0 <= k < i ==> names_view(names)[k] != name@,
        decreases names.len() - i,
    {
        if names[i] == *name {
            assert(names_view(names)[i as int] == name@);
            return true;
        }
        i += 1;
    }
    false
}

/// Suggests the fields of `dict_iface` that the literal does not hold yet.
#[verifier::loop_isolation(false)]
fn on_iface(ctx: &mut TypeCompletions, dict_iface: &FlowRecord, existing: &Vec<String>)
    ensures
        final(ctx).state() == missing_fields(
            old(ctx).state(),
            dict_iface@,
            names_view(existing),
            dict_iface@.len(),
        ),
        final(ctx).tables == old(ctx).tables,
{
    let ghost start = ctx.state();
    let mut i: usize = 0;
    while i < dict_iface.fields.len()
        invariant
            i <= dict_iface.fields.len(),
            ctx.tables == old(ctx).tables,
            ctx.state() == missing_fields(start, dict_iface@, names_view(existing), i as nat),
        decreases dict_iface.fields.len() - i,
    {
        let key = &dict_iface.fields[i].0;
        assert(dict_iface@[i as int].name == key@);
        if !has_name(existing, key) {
            let ghost before = suggestions_view(&ctx.suggestions);
            let item = Completion {
                kind: CompletionKind::Field,
                label: key.clone(),
                label_detail: None,
                sort_text: None,
                apply: Some(key.clone().concat(": ${}")),
                detail: None,
                command: Some(text("editor.action.triggerSuggest")),
            };
            ctx.suggestions.push(Suggestion::Item(item));
            assert(suggestions_view(&ctx.suggestions) =~= before.push(
                SuggestionView::Item(field_item(key@)),
            ));
        }
        i += 1;
    }
}

/// Suggests what the type `ty` of a literal suggests inside the literal.
pub fn on_lit_ty(ctx: &mut TypeCompletions, ty: &FlowType, existing: &Vec<String>)
    ensures
        final(ctx).state() == on_lit_ty_spec(
            old(ctx).state(),
            old(ctx).tables@,
            ty@,
            names_view(existing),
        ),
        final(ctx).tables == old(ctx).tables,
    decreases ty@, 0nat,
{
    match ty {
        FlowType::Builtin(b) => {
            match canonical_dict(*b) {
                Some(shape) => {
                    on_iface(ctx, &shape, existing);
                },
                None => {},
            }
        },
        FlowType::Dict(d) => {
            assert(ty@->Dict_0 == fields_view(&d.fields));
            on_iface(ctx, d, existing);
        },
        FlowType::Array(a) => {
            assert(*ty@->Array_0 == a@);
            let _ = type_completion(ctx, Some(&**a), None);
        },
        FlowType::Union(u) => {
            assert(ty@->Union_0 == tys_view(u));
            on_lit_tys(ctx, u, existing);
        },
        _ => {},
    }
}

#[verifier::loop_isolation(false)]
fn on_lit_tys(ctx: &mut TypeCompletions, s: &Vec<FlowType>, existing: &Vec<String>)
    ensures
        final(ctx).state() == on_lit_tys_spec(
            old(ctx).state(),
            old(ctx).tables@,
            tys_view(s),
            names_view(existing),
            s.len() as nat,
        ),
        final(ctx).tables == old(ctx).tables,
    decreases tys_view(s), s.len(),
{
    let ghost start = ctx.state();
    let mut i: usize = 0;
    while i < s.len()
        invariant
            i <= s.len(),
            ctx.tables == old(ctx).tables,
            ctx.state() == on_lit_tys_spec(
                start,
                old(ctx).tables@,
                tys_view(s),
                names_view(existing),
                i as nat,
            ),
        decreases s.len() - i,
    {
        assert(tys_view(s)[i as int] == s[i as int]@);
        on_lit_ty(ctx, &s[i], existing);
        i += 1;
    }
}

/// Suggests what fits inside a dictionary or array literal with the items
/// `items`: `named_ty` is the type expected of the named item at hand,
/// `lit_ty` the type expected of the literal.
pub fn complete_literal(
    ctx: &mut TypeCompletions,
    items: &Vec<DictItem>,
    named_ty: Option<&FlowType>,
    lit_ty: Option<&FlowType>,
)
    ensures
        final(ctx).state() == complete_literal_spec(
            old(ctx).state(),
            old(ctx).tables@,
            items@,
            expected_view(named_ty),
            expected_view(lit_ty),
        ),
        final(ctx).tables == old(ctx).tables,
{
    match named_ty {
        Some(_) => {
            let _ = type_completion(ctx, named_ty, None);
        },
        None => {
            match lit_ty {
                Some(t) => {
                    let existing = existing_keys(items);
                    on_lit_ty(ctx, t, &existing);
                },
                None => {},
            }
        },
    }
}

} // verus!
