//! Suggestions for the parameters of a call, and for the definitions in
//! scope.

use vstd::prelude::*;
use vstd::string::*;

use crate::complete::by_type::{
    Suggested, TablesView, TypeCompletions, docs_view, expected_view, type_completion,
    type_completion_spec,
};
use crate::complete::item::{
    Completion, CompletionKind, CompletionView, Suggestion, SuggestionView, completions_view,
    plain_item, suggest, trigger_suggest,
};
use crate::complete::literal::{has_name, names_view};
use crate::ty::apply::{named_position_upto, named_type, param_position_upto};
use crate::ty::builtin::{FlowBuiltinType, text};
use crate::ty::check::{name_before, sorts_before};
use crate::ty::def::{FlowSignature, FlowType, SigTy, Ty, named_view, sig_view, tys_view};
use crate::ty::signatures::{opt_sigs_view, sigs_view};
use crate::value::{ParamSpec, ParamVal, Signature, SignatureVal, param_view, params_view};

verus! {

/// The item that completes the named parameter `p`.
pub open spec fn param_item(p: ParamVal) -> CompletionView {
    CompletionView {
        apply: Some(p.name + ": ${}"@),
        detail: Some(p.docs),
        command: Some(trigger_suggest()),
        ..plain_item(CompletionKind::Param, p.name)
    }
}

/// The item that completes the named parameter `p` with the value
/// `template`.
pub open spec fn template_item(p: ParamVal, template: Seq<char>) -> CompletionView {
    CompletionView { label: p.name + ": "@ + template, apply: None, ..param_item(p) }
}

/// The text sizes that are offered.
pub open spec fn size_templates() -> Seq<Seq<char>> {
    seq![
        "10.5pt"@,
        "12pt"@,
        "9pt"@,
        "14pt"@,
        "8pt"@,
        "16pt"@,
        "18pt"@,
        "20pt"@,
        "22pt"@,
        "24pt"@,
        "28pt"@,
    ]
}

/// The directions that are offered.
pub open spec fn dir_templates() -> Seq<Seq<char>> {
    seq!["ltr"@, "rtl"@, "ttb"@, "btt"@]
}

/// The values that are offered with the named parameter `p`.
pub open spec fn templates_of(p: ParamVal) -> Seq<Seq<char>> {
    match p.infer_type {
        Some(Ty::Builtin(FlowBuiltinType::TextSize)) => size_templates(),
        Some(Ty::Builtin(FlowBuiltinType::Dir)) => dir_templates(),
        _ => Seq::empty(),
    }
}

/// With an item for each of the first `n` templates of the parameter `p`.
pub open spec fn template_items(st: Suggested, p: ParamVal, templates: Seq<Seq<char>>, n: nat)
    -> Suggested
    decreases n,
{
    if n == 0 || n > templates.len() {
        st
    } else {
        template_items(st, p, templates, (n - 1) as nat).add(
            SuggestionView::Item(template_item(p, templates[n - 1])),
        )
    }
}

/// What the declared type of the parameter `p` suggests; where it has
/// nothing to complete, the values that the parameter is cast from are asked
/// for.
pub open spec fn declared_or_casts(st: Suggested, tables: TablesView, p: ParamVal) -> Suggested {
    let r = type_completion_spec(st, tables, p.infer_type, Some(p.docs));
    if r.1 {
        r.0
    } else {
        r.0.add(SuggestionView::Casts { param: p.name })
    }
}

/// What the named parameter `p` suggests: nothing if an argument of its
/// name is there already or if it cannot be set in a set rule; else its
/// templates and its item if it is passed by name, and the values of its
/// declared type if it can be passed by position.
pub open spec fn named_param_spec(
    st: Suggested,
    tables: TablesView,
    p: ParamVal,
    set: bool,
    exclude: Seq<Seq<char>>,
) -> Suggested {
    if exclude.contains(p.name) || (set && !p.settable) {
        st
    } else {
        let named = if p.named {
            template_items(st, p, templates_of(p), templates_of(p).len()).add(
                SuggestionView::Item(param_item(p)),
            )
        } else {
            st
        };
        if p.positional {
            declared_or_casts(named, tables, p)
        } else {
            named
        }
    }
}

/// What the first `n` named parameters suggest, one after the other.
pub open spec fn named_params_spec(
    st: Suggested,
    tables: TablesView,
    params: Seq<ParamVal>,
    set: bool,
    exclude: Seq<Seq<char>>,
    n: nat,
) -> Suggested
    decreases n,
{
    if n == 0 || n > params.len() {
        st
    } else {
        named_param_spec(
            named_params_spec(st, tables, params, set, exclude, (n - 1) as nat),
            tables,
            params[n - 1],
            set,
            exclude,
        )
    }
}

/// What the parameter at the position `index` of each of the first `n`
/// inferred signatures suggests.
pub open spec fn inferred_positional(
    st: Suggested,
    tables: TablesView,
    sigs: Seq<SigTy>,
    index: int,
    docs: Option<Seq<char>>,
    n: nat,
) -> Suggested
    decreases n,
{
    if n == 0 || n > sigs.len() {
        st
    } else {
        let before = inferred_positional(st, tables, sigs, index, docs, (n - 1) as nat);
        if 0 <= index < sigs[n - 1].pos.len() {
            type_completion_spec(before, tables, Some(sigs[n - 1].pos[index]), docs).0
        } else {
            before
        }
    }
}

/// The inferred signatures; none where inference gave none.
pub open spec fn inferred(type_sig: Option<Seq<SigTy>>) -> Seq<SigTy> {
    match type_sig {
        Some(s) => s,
        None => Seq::empty(),
    }
}

/// What the parameters of a call suggest at the argument with the position
/// `pos_index`, and whether anything is to be completed at all. `sig` is the
/// runtime signature of the callee, `type_sig` its inferred signatures,
/// `set` tells a set rule, and `exclude` holds the names of the arguments
/// that are there already.
///
/// Nothing is to be completed where the parameter at the position cannot be
/// set in a set rule.
pub open spec fn param_completions_spec(
    st: Suggested,
    tables: TablesView,
    sig: SignatureVal,
    type_sig: Option<Seq<SigTy>>,
    pos_index: Option<int>,
    set: bool,
    exclude: Seq<Seq<char>>,
) -> (Suggested, bool) {
    match pos_index {
        Some(i) => {
            if 0 <= i < sig.pos.len() && set && !sig.pos[i].settable {
                (st, false)
            } else {
                let at = if 0 <= i < sig.pos.len() && sig.pos[i].positional {
                    declared_or_casts(st, tables, sig.pos[i])
                } else {
                    st
                };
                let docs = if 0 <= i < sig.pos.len() {
                    Some(sig.pos[i].docs)
                } else {
                    None
                };
                let by_type = inferred_positional(
                    at,
                    tables,
                    inferred(type_sig),
                    i,
                    docs,
                    inferred(type_sig).len(),
                );
                (named_params_spec(by_type, tables, sig.named, set, exclude, sig.named.len()), true)
            }
        },
        None => (named_params_spec(st, tables, sig.named, set, exclude, sig.named.len()), true),
    }
}

fn declared_or_ask(ctx: &mut TypeCompletions, p: &ParamSpec)
    ensures
        final(ctx).state() == declared_or_casts(old(ctx).state(), old(ctx).tables@, p@),
        final(ctx).tables == old(ctx).tables,
{
    let r = match &p.infer_type {
        Some(t) => type_completion(ctx, Some(t), Some(&p.docs)),
        None => type_completion(ctx, None, Some(&p.docs)),
    };
    match r {
        Some(_) => {},
        None => {
            suggest(&mut ctx.suggestions, Suggestion::Casts { param: p.name.clone() });
        },
    }
}

fn param_completion(p: &ParamSpec) -> (r: Completion)
    ensures
        r@ == param_item(p@),
{
    Completion {
        kind: CompletionKind::Param,
        label: p.name.clone(),
        label_detail: None,
        sort_text: None,
        apply: Some(p.name.clone().concat(": ${}")),
        detail: Some(p.docs.clone()),
        // Only some editors ask for suggestions again by this command.
        command: Some(text("editor.action.triggerSuggest")),
    }
}

fn push_template(ctx: &mut TypeCompletions, p: &ParamSpec, template: &str)
    ensures
        final(ctx).state() == old(ctx).state().add(
            SuggestionView::Item(template_item(p@, template@)),
        ),
        final(ctx).tables == old(ctx).tables,
{
    let compl = param_completion(p);
    let item = Completion {
        kind: compl.kind,
        label: p.name.clone().concat(": ").concat(template),
        label_detail: compl.label_detail,
        sort_text: compl.sort_text,
        apply: None,
        detail: compl.detail,
        command: compl.command,
    };
    suggest(&mut ctx.suggestions, Suggestion::Item(item));
}

fn sizes() -> (r: Vec<String>)
    ensures
        names_view(&r) == size_templates(),
{
    let mut v: Vec<String> = Vec::new();
    v.push(text("10.5pt"));
    v.push(text("12pt"));
    v.push(text("9pt"));
    v.push(text("14pt"));
    v.push(text("8pt"));
    v.push(text("16pt"));
    v.push(text("18pt"));
    v.push(text("20pt"));
    v.push(text("22pt"));
    v.push(text("24pt"));
    v.push(text("28pt"));
    assert(names_view(&v) =~= size_templates());
    v
}

fn dirs() -> (r: Vec<String>)
    ensures
        names_view(&r) == dir_templates(),
{
    let mut v: Vec<String> = Vec::new();
    v.push(text("ltr"));
    v.push(text("rtl"));
    v.push(text("ttb"));
    v.push(text("btt"));
    assert(names_view(&v) =~= dir_templates());
    v
}

fn templates(p: &ParamSpec) -> (r: Vec<String>)
    ensures
        names_view(&r) == templates_of(p@),
{
    match &p.infer_type {
        Some(FlowType::Builtin(FlowBuiltinType::TextSize)) => sizes(),
        Some(FlowType::Builtin(FlowBuiltinType::Dir)) => dirs(),
        _ => {
            let v: Vec<String> = Vec::new();
            assert(names_view(&v) =~= Seq::empty());
            v
        },
    }
}

#[verifier::loop_isolation(false)]
fn push_templates(ctx: &mut TypeCompletions, p: &ParamSpec)
    ensures
        final(ctx).state() == template_items(
            old(ctx).state(),
            p@,
            templates_of(p@),
            templates_of(p@).len(),
        ),
        final(ctx).tables == old(ctx).tables,
{
    let ghost start = ctx.state();
    let all = templates(p);
    let mut i: usize = 0;
    while i < all.len()
        invariant
            i <= all.len(),
            ctx.tables == old(ctx).tables,
            ctx.state() == template_items(start, p@, templates_of(p@), i as nat),
        decreases all.len() - i,
    {
        assert(names_view(&all)[i as int] == all[i as int]@);
        push_template(ctx, p, all[i].as_str());
        i += 1;
    }
}

fn named_param(ctx: &mut TypeCompletions, p: &ParamSpec, set: bool, exclude: &Vec<String>)
    ensures
        final(ctx).state() == named_param_spec(
            old(ctx).state(),
            old(ctx).tables@,
            p@,
            set,
            names_view(exclude),
        ),
        final(ctx).tables == old(ctx).tables,
{
    if has_name(exclude, &p.name) {
        return ;
    }
    if set && !p.settable {
        return ;
    }
    if p.named {
        push_templates(ctx, p);
        suggest(&mut ctx.suggestions, Suggestion::Item(param_completion(p)));
    }
    if p.positional {
        declared_or_ask(ctx, p);
    }
}

#[verifier::loop_isolation(false)]
fn named_params(ctx: &mut TypeCompletions, params: &Vec<ParamSpec>, set: bool, exclude: &Vec<String>)
    ensures
        final(ctx).state() == named_params_spec(
            old(ctx).state(),
            old(ctx).tables@,
            params_view(params),
            set,
            names_view(exclude),
            params.len() as nat,
        ),
        final(ctx).tables == old(ctx).tables,
{
    let ghost start = ctx.state();
    let mut i: usize = 0;
    while i < params.len()
        invariant
            i <= params.len(),
            ctx.tables == old(ctx).tables,
            ctx.state() == named_params_spec(
                start,
                old(ctx).tables@,
                params_view(params),
                set,
                names_view(exclude),
                i as nat,
            ),
        decreases params.len() - i,
    {
        assert(params_view(params)[i as int] == params[i as int]@);
        named_param(ctx, &params[i], set, exclude);
        i += 1;
    }
}

#[verifier::loop_isolation(false)]
fn positional_by_type(
    ctx: &mut TypeCompletions,
    sigs: &Vec<FlowSignature>,
    index: usize,
    docs: Option<&String>,
)
    ensures
        final(ctx).state() == inferred_positional(
            old(ctx).state(),
            old(ctx).tables@,
            sigs_view(sigs),
            index as int,
            docs_view(docs),
            sigs.len() as nat,
        ),
        final(ctx).tables == old(ctx).tables,
{
    let ghost start = ctx.state();
    let mut i: usize = 0;
    while i < sigs.len()
        invariant
            i <= sigs.len(),
            ctx.tables == old(ctx).tables,
            ctx.state() == inferred_positional(
                start,
                old(ctx).tables@,
                sigs_view(sigs),
                index as int,
                docs_view(docs),
                i as nat,
            ),
        decreases sigs.len() - i,
    {
        assert(sigs_view(sigs)[i as int] == sig_view(&sigs[i as int]));
        assert(sigs_view(sigs)[i as int].pos == tys_view(&sigs[i as int].pos));
        if index < sigs[i].pos.len() {
            assert(tys_view(&sigs[i as int].pos)[index as int] == sigs[i as int].pos[index as int]@);
            let _ = type_completion(ctx, Some(&sigs[i].pos[index]), docs);
        }
        i += 1;
    }
}

/// The view of an optional position.
pub open spec fn index_view(i: Option<usize>) -> Option<int> {
    match i {
        Some(i) => Some(i as int),
        None => None,
    }
}

/// Suggests the parameters of a call. Tells whether anything is to be
/// completed at all.
pub fn param_completions(
    ctx: &mut TypeCompletions,
    signature: &Signature,
    type_sig: &Option<Vec<FlowSignature>>,
    pos_index: Option<usize>,
    set: bool,
    exclude: &Vec<String>,
) -> (r: bool)
    ensures
        (final(ctx).state(), r) == param_completions_spec(
            old(ctx).state(),
            old(ctx).tables@,
            signature@,
            opt_sigs_view(type_sig),
            index_view(pos_index),
            set,
            names_view(exclude),
        ),
        final(ctx).tables == old(ctx).tables,
{
    let none: Vec<FlowSignature> = Vec::new();
    assert(sigs_view(&none) =~= Seq::empty());
    let sigs = match type_sig {
        Some(s) => s,
        None => &none,
    };
    match pos_index {
        Some(pos_index) => {
            let mut doc: Option<&String> = None;
            if pos_index < signature.pos.len() {
                let pos = &signature.pos[pos_index];
                assert(signature@.pos[pos_index as int] == pos@);
                if set && !pos.settable {
                    return false;
                }
                doc = Some(&pos.docs);
                if pos.positional {
                    declared_or_ask(ctx, pos);
                }
            }
            positional_by_type(ctx, sigs, pos_index, doc);
        },
        None => {},
    }
    named_params(ctx, &signature.named, set, exclude);
    true
}

/// What the type of the parameter named `name` in each of the first `n`
/// inferred signatures suggests, and whether any of them has such a
/// parameter.
pub open spec fn inferred_named(
    st: Suggested,
    tables: TablesView,
    sigs: Seq<SigTy>,
    name: Seq<char>,
    docs: Option<Seq<char>>,
    n: nat,
) -> (Suggested, bool)
    decreases n,
{
    if n == 0 || n > sigs.len() {
        (st, false)
    } else {
        let before = inferred_named(st, tables, sigs, name, docs, (n - 1) as nat);
        match named_type(sigs[n - 1].named, name) {
            Some(t) => (type_completion_spec(before.0, tables, Some(t), docs).0, true),
            None => before,
        }
    }
}

/// The item of the default value of a parameter.
pub open spec fn default_item(expr: Seq<char>, docs: Seq<char>) -> CompletionView {
    CompletionView { detail: Some(docs), ..plain_item(CompletionKind::Constant, expr) }
}

/// What the type `ty` suggests, if there is one.
pub open spec fn if_expected(
    st: Suggested,
    tables: TablesView,
    ty: Option<Ty>,
    docs: Option<Seq<char>>,
) -> Suggested {
    match ty {
        Some(_) => type_completion_spec(st, tables, ty, docs).0,
        None => st,
    }
}

/// What is suggested for the value of the named argument `name`, and
/// whether anything is to be completed at all. `resolved` holds the runtime
/// signature of the callee and its inferred signatures, if the callee could
/// be resolved, and `ty` is the type that is expected at the argument.
///
/// Where the callee is not resolved, only the expected type suggests. Where
/// the callee has no parameter of the name that is passed by name, nothing is
/// suggested. Else the expected type suggests, then the inferred types of
/// the parameter; if there is none, the default value of the parameter is
/// offered; then the declared type of the parameter suggests.
pub open spec fn named_param_value_spec(
    st: Suggested,
    tables: TablesView,
    resolved: Option<(SignatureVal, Option<Seq<SigTy>>)>,
    name: Seq<char>,
    ty: Option<Ty>,
) -> (Suggested, bool) {
    match resolved {
        None => (if_expected(st, tables, ty, None), false),
        Some((sig, type_sig)) => match param_position_upto(
            sig.named,
            name,
            sig.named.len() as int,
        ) {
            None => (st, false),
            Some(j) => {
                let p = sig.named[j];
                if !p.named {
                    (st, false)
                } else {
                    let docs = Some(p.docs);
                    let expected = if_expected(st, tables, ty, docs);
                    let by_type = inferred_named(
                        expected,
                        tables,
                        inferred(type_sig),
                        name,
                        docs,
                        inferred(type_sig).len(),
                    );
                    let with_default = if by_type.1 {
                        by_type.0
                    } else {
                        match p.expr {
                            Some(e) => by_type.0.add(
                                SuggestionView::Item(default_item(e, p.docs)),
                            ),
                            None => by_type.0,
                        }
                    };
                    (declared_or_casts(with_default, tables, p), true)
                }
            },
        },
    }
}

#[verifier::loop_isolation(false)]
fn find_param(params: &Vec<ParamSpec>, name: &String) -> (r: Option<usize>)
    ensures
        match r {
            Some(j) => j < params.len() && param_position_upto(
                params_view(params),
                name@,
                params.len() as int,
            ) == Some(j as int),
            None => param_position_upto(params_view(params), name@, params.len() as int) is None,
        },
{
    let mut j: usize = 0;
    while j < params.len()
        invariant
            j <= params.len(),
            param_position_upto(params_view(params), name@, j as int) is None,
        decreases params.len() - j,
    {
        assert(params_view(params)[j as int] == param_view(&params[j as int]));
        if params[j].name == *name {
            proof {
                lemma_param_found(params_view(params), name@, j + 1, params.len() as int);
            }
            return Some(j);
        }
        j += 1;
    }
    None
}

proof fn lemma_param_found(s: Seq<ParamVal>, name: Seq<char>, upto: int, more: int)
    requires
        0 <= upto <= more <= s.len(),
        param_position_upto(s, name, upto) is Some,
    ensures
        param_position_upto(s, name, more) == param_position_upto(s, name, upto),
    decreases more - upto,
{
    if upto < more {
        lemma_param_found(s, name, upto, more - 1);
    }
}

proof fn lemma_named_found(s: Seq<(Seq<char>, Ty)>, name: Seq<char>, upto: int, more: int)
    requires
        0 <= upto <= more <= s.len(),
        named_position_upto(s, name, upto) is Some,
    ensures
        named_position_upto(s, name, more) == named_position_upto(s, name, upto),
    decreases more - upto,
{
    if upto < more {
        lemma_named_found(s, name, upto, more - 1);
    }
}

#[verifier::loop_isolation(false)]
fn find_named(named: &Vec<(String, FlowType)>, name: &String) -> (r: Option<usize>)
    ensures
        match r {
            Some(j) => j < named.len() && named_type(named_view(named), name@) == Some(
                named[j as int].1@,
            ),
            None => named_type(named_view(named), name@) is None,
        },
{
    let mut j: usize = 0;
    while j < named.len()
        invariant
            j <= named.len(),
            named_position_upto(named_view(named), name@, j as int) is None,
        decreases named.len() - j,
    {
        assert(named_view(named)[j as int] == (named[j as int].0@, named[j as int].1@));
        if named[j].0 == *name {
            proof {
                lemma_named_found(named_view(named), name@, j + 1, named.len() as int);
            }
            return Some(j);
        }
        j += 1;
    }
    None
}

#[verifier::loop_isolation(false)]
fn named_by_type(
    ctx: &mut TypeCompletions,
    sigs: &Vec<FlowSignature>,
    name: &String,
    docs: Option<&String>,
) -> (completed: bool)
    ensures
        (final(ctx).state(), completed) == inferred_named(
            old(ctx).state(),
            old(ctx).tables@,
            sigs_view(sigs),
            name@,
            docs_view(docs),
            sigs.len() as nat,
        ),
        final(ctx).tables == old(ctx).tables,
{
    let ghost start = ctx.state();
    let mut completed = false;
    let mut i: usize = 0;
    while i < sigs.len()
        invariant
            i <= sigs.len(),
            ctx.tables == old(ctx).tables,
            (ctx.state(), completed) == inferred_named(
                start,
                old(ctx).tables@,
                sigs_view(sigs),
                name@,
                docs_view(docs),
                i as nat,
            ),
        decreases sigs.len() - i,
    {
        assert(sigs_view(sigs)[i as int] == sig_view(&sigs[i as int]));
        assert(sigs_view(sigs)[i as int].named == named_view(&sigs[i as int].named));
        match find_named(&sigs[i].named, name) {
            Some(j) => {
                let _ = type_completion(ctx, Some(&sigs[i].named[j].1), docs);
                completed = true;
            },
            None => {},
        }
        i += 1;
    }
    completed
}

/// The view of what is known of a resolved callee.
pub open spec fn resolved_view(resolved: Option<(&Signature, &Option<Vec<FlowSignature>>)>)
    -> Option<(SignatureVal, Option<Seq<SigTy>>)> {
    match resolved {
        Some((sig, type_sig)) => Some((sig@, opt_sigs_view(type_sig))),
        None => None,
    }
}

/// Suggests values for the named argument `name`. Tells whether anything
/// is to be completed at all.
pub fn named_param_value_completions(
    ctx: &mut TypeCompletions,
    resolved: Option<(&Signature, &Option<Vec<FlowSignature>>)>,
    name: &String,
    ty: Option<&FlowType>,
) -> (r: bool)
    ensures
        (final(ctx).state(), r) == named_param_value_spec(
            old(ctx).state(),
            old(ctx).tables@,
            resolved_view(resolved),
            name@,
            expected_view(ty),
        ),
        final(ctx).tables == old(ctx).tables,
{
    let (signature, type_sig) = match resolved {
        Some(r) => r,
        None => {
            // Static analysis only.
            match ty {
                Some(_) => {
                    let _ = type_completion(ctx, ty, None);
                },
                None => {},
            }
            return false;
        },
    };
    let param = match find_param(&signature.named, name) {
        Some(j) => {
            assert(signature@.named[j as int] == signature.named[j as int]@);
            &signature.named[j]
        },
        None => {
            return false;
        },
    };
    if !param.named {
        return false;
    }
    let doc = Some(&param.docs);
    match ty {
        Some(_) => {
            let _ = type_completion(ctx, ty, doc);
        },
        None => {},
    }
    let none: Vec<FlowSignature> = Vec::new();
    assert(sigs_view(&none) =~= Seq::empty());
    let sigs = match type_sig {
        Some(s) => s,
        None => &none,
    };
    let completed = named_by_type(ctx, sigs, name, doc);
    if !completed {
        match &param.expr {
            Some(expr) => {
                let item = Completion {
                    kind: CompletionKind::Constant,
                    label: expr.clone(),
                    label_detail: None,
                    sort_text: None,
                    apply: None,
                    detail: Some(param.docs.clone()),
                    command: None,
                };
                suggest(&mut ctx.suggestions, Suggestion::Item(item));
            },
            None => {},
        }
    }
    declared_or_ask(ctx, param);
    true
}

/// The first position at or behind `from` whose name does not sort before
/// `name`.
pub open spec fn definition_position(
    defined: Seq<(Seq<char>, CompletionKind)>,
    name: Seq<char>,
    from: int,
) -> int
    decreases defined.len() - from,
{
    if from < 0 || from >= defined.len() || !name_before(defined[from].0, name) {
        from
    } else {
        definition_position(defined, name, from + 1)
    }
}

/// The definitions once `name` was met as a definition of the kind `kind`.
/// A name without characters is no definition, and the first definition of a
/// name counts. The definitions stay sorted by name.
pub open spec fn define_spec(
    defined: Seq<(Seq<char>, CompletionKind)>,
    name: Seq<char>,
    kind: CompletionKind,
) -> Seq<(Seq<char>, CompletionKind)> {
    let p = definition_position(defined, name, 0);
    if name.len() == 0 || (0 <= p < defined.len() && defined[p].0 == name) {
        defined
    } else {
        defined.insert(p, (name, kind))
    }
}

/// The mathematical value of a list of definitions.
pub open spec fn defined_view(v: &Vec<(String, CompletionKind)>) -> Seq<(Seq<char>, CompletionKind)> {
    Seq::new(v@.len(), |i: int| (v@[i].0@, v@[i].1))
}

proof fn lemma_definition_position(
    defined: Seq<(Seq<char>, CompletionKind)>,
    name: Seq<char>,
    from: int,
)
    requires
        0 <= from <= defined.len(),
    ensures
        from <= definition_position(defined, name, from) <= defined.len(),
    decreases defined.len() - from,
{
    if from < defined.len() && name_before(defined[from].0, name) {
        lemma_definition_position(defined, name, from + 1);
    }
}

/// Takes note of a definition that is in scope.
#[verifier::loop_isolation(false)]
pub fn try_insert(defined: &mut Vec<(String, CompletionKind)>, name: String, kind: CompletionKind)
    ensures
        defined_view(final(defined)) == define_spec(defined_view(old(defined)), name@, kind),
{
    let ghost before = defined_view(defined);
    if name.as_str().unicode_len() == 0 {
        return ;
    }
    let mut p: usize = 0;
    while p < defined.len() && sorts_before(&defined[p].0, &name)
        invariant
            p <= defined.len(),
            defined_view(defined) == before,
            definition_position(before, name@, 0) == definition_position(before, name@, p as int),
        decreases defined.len() - p,
    {
        assert(before[p as int].0 == defined[p as int].0@);
        p += 1;
    }
    proof {
        if p < defined.len() {
            assert(before[p as int].0 == defined[p as int].0@);
        }
    }
    if p < defined.len() && defined[p].0 == name {
        return ;
    }
    defined.insert(p, (name, kind));
    assert(defined_view(defined) =~= before.insert(p as int, (name@, kind)));
}

/// The items of a definition: a function is offered with its partial
/// application, with its specialization and with a call; anything else is
/// offered by its name.
pub open spec fn definition_items(name: Seq<char>, kind: CompletionKind) -> Seq<CompletionView> {
    if kind == CompletionKind::Func {
        seq![
            CompletionView {
                apply: Some(name + ".with(${})"@),
                command: Some(trigger_suggest()),
                ..plain_item(kind, name + ".with"@)
            },
            CompletionView {
                apply: Some(name + ".where(${})"@),
                command: Some(trigger_suggest()),
                ..plain_item(kind, name + ".where"@)
            },
            CompletionView {
                apply: Some(name + "(${})"@),
                command: Some(trigger_suggest()),
                ..plain_item(kind, name)
            },
        ]
    } else {
        seq![plain_item(kind, name)]
    }
}

/// The items of the first `n` definitions, in order.
pub open spec fn scope_items(defined: Seq<(Seq<char>, CompletionKind)>, n: nat) -> Seq<
    CompletionView,
>
    decreases n,
{
    if n == 0 || n > defined.len() {
        Seq::empty()
    } else {
        let before = scope_items(defined, (n - 1) as nat);
        if defined[n - 1].0.len() == 0 {
            before
        } else {
            before + definition_items(defined[n - 1].0, defined[n - 1].1)
        }
    }
}

/// The completions of the definitions in scope: none unless definitions of
/// the source file are accepted.
pub open spec fn scope_completions_spec(defined: Seq<(Seq<char>, CompletionKind)>, accept: bool)
    -> Seq<CompletionView> {
    if accept {
        scope_items(defined, defined.len())
    } else {
        Seq::empty()
    }
}

fn applied(kind: CompletionKind, label: String, apply: String) -> (r: Completion)
    ensures
        r@ == (CompletionView {
            apply: Some(apply@),
            command: Some(trigger_suggest()),
            ..plain_item(kind, label@)
        }),
{
    Completion {
        kind,
        label,
        label_detail: None,
        sort_text: None,
        apply: Some(apply),
        detail: None,
        // Only some editors ask for suggestions again by this command.
        command: Some(text("editor.action.triggerSuggest")),
    }
}

/// The completions of the definitions in scope, where the values of the
/// host library are filtered and the definitions of the source file are all
/// accepted.
pub fn scope_completions(defined: &Vec<(String, CompletionKind)>) -> (r: Vec<Completion>)
    ensures
        completions_view(&r) == scope_completions_spec(defined_view(defined), true),
{
    scope_completions_(defined, true)
}

/// The completions of the definitions in scope, where only values of the
/// host library that pass the filter are accepted: none.
pub fn strict_scope_completions(defined: &Vec<(String, CompletionKind)>) -> (r: Vec<Completion>)
    ensures
        completions_view(&r) == scope_completions_spec(defined_view(defined), false),
{
    scope_completions_(defined, false)
}

/// The completions of the definitions in scope; `accept` tells whether the
/// definitions of the source file pass the filter.
#[verifier::loop_isolation(false)]
pub fn scope_completions_(defined: &Vec<(String, CompletionKind)>, accept: bool) -> (r: Vec<
    Completion,
>)
    ensures
        completions_view(&r) == scope_completions_spec(defined_view(defined), accept),
{
    let mut out: Vec<Completion> = Vec::new();
    assert(completions_view(&out) =~= Seq::empty());
    if !accept {
        return out;
    }
    let mut i: usize = 0;
    while i < defined.len()
        invariant
            i <= defined.len(),
            completions_view(&out) == scope_items(defined_view(defined), i as nat),
        decreases defined.len() - i,
    {
        let ghost before = completions_view(&out);
        let name = &defined[i].0;
        let kind = defined[i].1;
        assert(defined_view(defined)[i as int] == (name@, kind));
        if name.as_str().unicode_len() > 0 {
            if kind == CompletionKind::Func {
                out.push(applied(kind, name.clone().concat(".with"), name.clone().concat(".with(${})")));
                out.push(
                    applied(kind, name.clone().concat(".where"), name.clone().concat(".where(${})")),
                );
                out.push(applied(kind, name.clone(), name.clone().concat("(${})")));
            } else {
                out.push(Completion::plain(kind, name.clone()));
            }
            assert(completions_view(&out) =~= before + definition_items(name@, kind));
        }
        i += 1;
    }
    out
}

/// Whether a definition of the source file has the name.
pub open spec fn shadowed(defined: Seq<(Seq<char>, CompletionKind)>, name: Seq<char>) -> bool {
    exists|k: int| 0 <= k < defined.len() && (#[trigger] defined[k]).0 == name
}

/// Whether the value at `i` of the host library is visible: the filter
/// accepted it, and no definition of the source file has its name.
pub open spec fn visible(
    names: Seq<Seq<char>>,
    accepted: Seq<bool>,
    defined: Seq<(Seq<char>, CompletionKind)>,
    i: int,
) -> bool {
    0 <= i < names.len() && i < accepted.len() && accepted[i] && !shadowed(defined, names[i])
}

fn is_defined(defined: &Vec<(String, CompletionKind)>, name: &String) -> (r: bool)
    ensures
        r == shadowed(defined_view(defined), name@),
{
    let mut k: usize = 0;
    while k < defined.len()
        invariant
            k <= defined.len(),
            forall|j: int| 0 <= j < k ==> (#[trigger] defined_view(defined)[j]).0 != name@,
        decreases defined.len() - k,
    {
        if defined[k].0 == *name {
            assert(defined_view(defined)[k as int].0 == name@);
            return true;
        }
        k += 1;
    }
    false
}

/// The values of the host library that scope completion shows, as positions
/// in `names`, in ascending order: each value that the filter accepted and
/// that no definition of the source file shadows.
pub fn visible_globals(
    names: &Vec<String>,
    accepted: &Vec<bool>,
    defined: &Vec<(String, CompletionKind)>,
) -> (r: Vec<usize>)
    requires
        names.len() == accepted.len(),
    ensures
        forall|k: int|
            0 <= k < r.len() ==> visible(
                names_view(names),
                accepted@,
                defined_view(defined),
                #[trigger] r[k] as int,
            ),
        forall|j: int, k: int| 0 <= j < k < r.len() ==> r[j] < r[k],
        forall|i: int|
            visible(names_view(names), accepted@, defined_view(defined), i) ==> exists|k: int|
                0 <= k < r.len() && #[trigger] r[k] == i,
{
    let mut out: Vec<usize> = Vec::new();
    let mut i: usize = 0;
    while i < names.len()
        invariant
            i <= names.len(),
            names.len() == accepted.len(),
            forall|k: int|
                0 <= k < out.len() ==> out[k] < i && visible(
                    names_view(names),
                    accepted@,
                    defined_view(defined),
                    #[trigger] out[k] as int,
                ),
            forall|j: int, k: int| 0 <= j < k < out.len() ==> out[j] < out[k],
            forall|p: int|
                0 <= p < i && visible(names_view(names), accepted@, defined_view(defined), p)
                    ==> exists|k: int| 0 <= k < out.len() && #[trigger] out[k] == p,
        decreases names.len() - i,
    {
        let ghost before = out@;
        let shown = accepted[i] && !is_defined(defined, &names[i]);
        assert(names_view(names)[i as int] == names[i as int]@);
        if shown {
            out.push(i);
            assert(out[before.len() as int] == i);
        }
        assert forall|p: int|
            0 <= p < i + 1 && visible(
                names_view(names),
                accepted@,
                defined_view(defined),
                p,
            ) implies exists|k: int| 0 <= k < out.len() && #[trigger] out[k] == p by {
            if p < i {
                let k = choose|k: int| 0 <= k < before.len() && #[trigger] before[k] == p;
                assert(out[k] == p);
            } else {
                assert(out[before.len() as int] == p);
            }
        }
        i += 1;
    }
    out
}

} // verus!
