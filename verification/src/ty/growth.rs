//! Type checking only adds: variables are never replaced, their bounds only
//! grow, and the invariant of the result is kept.

use vstd::prelude::*;

use crate::syntax::{
    Arg, Binding, DefId, DictItem, LetBindingKind, Param, Pattern, Span, SyntaxBody, SyntaxKind,
    SyntaxNode,
};
use crate::ty::apply::{
    Applied, apply_runtime_spec, check_apply_each, check_apply_spec, constrain_call,
    constrain_named, constrain_positional, declared_at, declared_named, formal_at, named_type,
    positional_spans, primary_type_spec, record_named, runtime_named, runtime_positional,
};
use crate::ty::builtin::FlowBuiltinType;
use crate::ty::check::{
    binary_effects, bind_spec, check_arg_items_spec, check_call_spec, check_children_spec,
    check_elements_spec, check_init_spec, check_inner_spec, check_items_spec, check_joined_spec,
    check_optional_spec, check_params_spec, check_pattern_spec, check_spec, constant_kind,
    get_var_spec, is_ground, joins_children, possible_ever_be_spec, type_check_spec, var_ref,
};
use crate::ty::constrain::{constrain_spec, lemma_constrain_posts};
use crate::ty::def::{ArgsTy, SigTy, Ty};
use crate::ty::info::{
    InfoTy, lemma_advances_trans, lemma_define_advances, lemma_lower_posts, lemma_posts_advances,
    lemma_posts_trans, lemma_record_advances,
};
use crate::ty::join::{JoinerTy, joiner_start};
use crate::value::{ParamVal, Value};

verus! {

/// Constraining positional arguments only posts.
pub proof fn lemma_constrain_positional_posts(
    info: InfoTy,
    actuals: Seq<Ty>,
    formals: Seq<Ty>,
    n: nat,
)
    ensures
        info.posts_to(constrain_positional(info, actuals, formals, n)),
    decreases n,
{
    if n == 0 || n > actuals.len() {
    } else {
        let before = constrain_positional(info, actuals, formals, (n - 1) as nat);
        lemma_constrain_positional_posts(info, actuals, formals, (n - 1) as nat);
        lemma_constrain_posts(before, actuals[n - 1], formal_at(formals, n - 1));
        lemma_posts_trans(info, before, constrain_positional(info, actuals, formals, n));
    }
}

/// Constraining named arguments only posts.
pub proof fn lemma_constrain_named_posts(
    info: InfoTy,
    actuals: Seq<(Seq<char>, Ty)>,
    formals: Seq<(Seq<char>, Ty)>,
    n: nat,
)
    ensures
        info.posts_to(constrain_named(info, actuals, formals, n)),
    decreases n,
{
    if n == 0 || n > actuals.len() {
    } else {
        let before = constrain_named(info, actuals, formals, (n - 1) as nat);
        lemma_constrain_named_posts(info, actuals, formals, (n - 1) as nat);
        match named_type(formals, actuals[n - 1].0) {
            Some(formal) => {
                lemma_constrain_posts(before, actuals[n - 1].1, formal);
                lemma_posts_trans(info, before, constrain_named(info, actuals, formals, n));
            },
            None => {},
        }
    }
}

/// Constraining the arguments of a call only posts.
pub proof fn lemma_constrain_call_posts(info: InfoTy, sig: SigTy, args: ArgsTy)
    ensures
        info.posts_to(constrain_call(info, sig, args)),
{
    let first = constrain_positional(info, args.args, sig.pos, args.args.len());
    lemma_constrain_positional_posts(info, args.args, sig.pos, args.args.len());
    lemma_constrain_named_posts(first, args.named, sig.named, args.named.len());
    lemma_posts_trans(info, first, constrain_call(info, sig, args));
}

/// Applying a runtime signature to positional arguments advances.
pub proof fn lemma_runtime_positional_advances(
    info: InfoTy,
    actuals: Seq<Ty>,
    params: Seq<ParamVal>,
    spans: Seq<Span>,
    n: nat,
)
    ensures
        info.advances_to(runtime_positional(info, actuals, params, spans, n)),
    decreases n,
{
    if n == 0 || n > actuals.len() {
    } else {
        let before = runtime_positional(info, actuals, params, spans, (n - 1) as nat);
        lemma_runtime_positional_advances(info, actuals, params, spans, (n - 1) as nat);
        let t = declared_at(params, n - 1);
        let posted = constrain_spec(before, actuals[n - 1], t);
        lemma_constrain_posts(before, actuals[n - 1], t);
        lemma_posts_advances(before, posted);
        lemma_advances_trans(info, before, posted);
        if n - 1 < spans.len() {
            lemma_record_advances(posted, spans[n - 1], t);
            lemma_advances_trans(info, posted, posted.record(spans[n - 1], t));
        }
    }
}

/// Recording a declared type for a named argument advances.
pub proof fn lemma_record_named_advances(info: InfoTy, items: Seq<Arg>, name: Seq<char>, t: Ty)
    ensures
        info.advances_to(record_named(info, items, name, t)),
{
    match crate::ty::apply::named_arg_upto(items, name, items.len() as int) {
        Some(j) => match items[j] {
            Arg::Named { expr, span, .. } => {
                lemma_record_advances(info, span, t);
                lemma_record_advances(info.record(span, t), expr.span, t);
                lemma_advances_trans(
                    info,
                    info.record(span, t),
                    info.record(span, t).record(expr.span, t),
                );
            },
            _ => {},
        },
        None => {},
    }
}

/// Applying a runtime signature to named arguments advances.
pub proof fn lemma_runtime_named_advances(
    info: InfoTy,
    actuals: Seq<(Seq<char>, Ty)>,
    params: Seq<ParamVal>,
    items: Seq<Arg>,
    n: nat,
)
    ensures
        info.advances_to(runtime_named(info, actuals, params, items, n)),
    decreases n,
{
    if n == 0 || n > actuals.len() {
    } else {
        let before = runtime_named(info, actuals, params, items, (n - 1) as nat);
        lemma_runtime_named_advances(info, actuals, params, items, (n - 1) as nat);
        match declared_named(params, actuals[n - 1].0) {
            Some(t) => {
                let posted = constrain_spec(before, actuals[n - 1].1, t);
                lemma_constrain_posts(before, actuals[n - 1].1, t);
                lemma_posts_advances(before, posted);
                lemma_record_named_advances(posted, items, actuals[n - 1].0, t);
                lemma_advances_trans(info, before, posted);
                lemma_advances_trans(
                    info,
                    posted,
                    record_named(posted, items, actuals[n - 1].0, t),
                );
            },
            None => {},
        }
    }
}

/// Applying a callee advances.
pub proof fn lemma_check_apply_advances(
    st: Applied,
    known: Set<DefId>,
    visiting: Set<DefId>,
    callee: Ty,
    args: ArgsTy,
    items: Seq<Arg>,
)
    requires
        known.finite(),
    ensures
        st.info.advances_to(check_apply_spec(st, known, visiting, callee, args, items).info),
    decreases known.difference(visiting).len(), callee, 0nat,
{
    if !st.ok {
    } else {
        match callee {
            Ty::Var(v, _) => {
                if !st.info.vars.contains_key(v) {
                } else if visiting.contains(v) || !known.contains(v) {
                } else {
                    let bounds = st.info.vars[v].lbs + st.info.vars[v].ubs;
                    known.lemma_set_insert_diff_decreases(visiting, v);
                    lemma_check_apply_each_advances(
                        st,
                        known,
                        visiting.insert(v),
                        bounds,
                        args,
                        items,
                        bounds.len(),
                    );
                }
            },
            Ty::Func(sig) => {
                lemma_constrain_call_posts(st.info, sig, args);
            },
            Ty::Value(v, _) => {
                lemma_apply_value_advances(st, v, args, items);
            },
            Ty::ValueDoc(v, _) => {
                lemma_apply_value_advances(st, v, args, items);
            },
            Ty::At(target, method) => {
                let primary = primary_type_spec(st.info, *target);
                if primary is Func {
                    lemma_constrain_call_posts(st.info, primary->Func_0, args);
                }
            },
            _ => {},
        }
    }
}

/// Applying a value of the host library advances.
pub proof fn lemma_apply_value_advances(
    st: Applied,
    v: crate::value::Val,
    args: ArgsTy,
    items: Seq<Arg>,
)
    ensures
        v matches crate::value::Val::Func(f) ==> st.info.advances_to(
            apply_runtime_spec(st, f.signature, args, items).info,
        ),
{
    match v {
        crate::value::Val::Func(f) => {
            let sig = f.signature;
            let spans = positional_spans(items, items.len());
            let first = runtime_positional(st.info, args.args, sig.pos, spans, args.args.len());
            lemma_runtime_positional_advances(
                st.info,
                args.args,
                sig.pos,
                spans,
                args.args.len(),
            );
            lemma_runtime_named_advances(first, args.named, sig.named, items, args.named.len());
            lemma_advances_trans(
                st.info,
                first,
                runtime_named(first, args.named, sig.named, items, args.named.len()),
            );
        },
        _ => {},
    }
}

/// Applying bounds in turn advances.
pub proof fn lemma_check_apply_each_advances(
    st: Applied,
    known: Set<DefId>,
    visiting: Set<DefId>,
    bounds: Seq<Ty>,
    args: ArgsTy,
    items: Seq<Arg>,
    n: nat,
)
    requires
        known.finite(),
    ensures
        st.info.advances_to(check_apply_each(st, known, visiting, bounds, args, items, n).info),
    decreases known.difference(visiting).len(), bounds, n,
{
    if n == 0 || n > bounds.len() {
    } else {
        let before = check_apply_each(st, known, visiting, bounds, args, items, (n - 1) as nat);
        lemma_check_apply_each_advances(
            st,
            known,
            visiting,
            bounds,
            args,
            items,
            (n - 1) as nat,
        );
        lemma_check_apply_advances(before, known, visiting, bounds[n - 1], args, items);
        lemma_advances_trans(
            st.info,
            before.info,
            check_apply_each(st, known, visiting, bounds, args, items, n).info,
        );
    }
}

/// A call advances.
pub proof fn lemma_call_advances(info: InfoTy, callee: Ty, args: Ty, items: Seq<Arg>)
    requires
        info.vars.dom().finite(),
    ensures
        info.advances_to(check_call_spec(info, callee, args, items).0),
{
    match args {
        Ty::Args(a) => {
            let start = Applied { info, candidates: Seq::empty(), ok: true };
            lemma_check_apply_advances(start, info.vars.dom(), Set::empty(), callee, a, items);
        },
        _ => {},
    }
}

/// Telling a variable what it may ever be only posts.
pub proof fn lemma_possible_ever_be_posts(info: InfoTy, lhs: Ty, rhs: Ty)
    ensures
        info.posts_to(possible_ever_be_spec(info, lhs, rhs)),
{
    if is_ground(rhs) {
        lemma_constrain_posts(info, rhs, lhs);
    }
}

/// The constraints of a binary operation only post.
pub proof fn lemma_binary_effects_posts(info: InfoTy, op: crate::syntax::BinOp, lhs: Ty, rhs: Ty)
    ensures
        info.posts_to(binary_effects(info, op, lhs, rhs)),
{
    let boolean = Ty::Boolean(None);
    lemma_possible_ever_be_posts(info, lhs, rhs);
    lemma_possible_ever_be_posts(possible_ever_be_spec(info, lhs, rhs), rhs, lhs);
    lemma_posts_trans(
        info,
        possible_ever_be_spec(info, lhs, rhs),
        possible_ever_be_spec(possible_ever_be_spec(info, lhs, rhs), rhs, lhs),
    );
    lemma_constrain_posts(info, lhs, boolean);
    lemma_constrain_posts(constrain_spec(info, lhs, boolean), rhs, boolean);
    lemma_posts_trans(
        info,
        constrain_spec(info, lhs, boolean),
        constrain_spec(constrain_spec(info, lhs, boolean), rhs, boolean),
    );
}

/// Fetching a variable advances, and the variable is known afterwards.
pub proof fn lemma_get_var_advances(info: InfoTy, b: Binding)
    ensures
        info.advances_to(get_var_spec(info, b).0),
        get_var_spec(info, b).1 matches Some(d) ==> get_var_spec(info, b).0.vars.contains_key(d),
{
    match b.def {
        Some(d) => {
            let made = info.define(d, b.name@);
            lemma_define_advances(info, d, b.name@);
            lemma_record_advances(made, b.span, var_ref(made, d));
            lemma_advances_trans(info, made, made.record(b.span, var_ref(made, d)));
        },
        None => {},
    }
}

/// Binding a variable advances.
pub proof fn lemma_bind_advances(info: InfoTy, b: Binding, value: Ty)
    ensures
        info.advances_to(bind_spec(info, b, value).0),
{
    let got = get_var_spec(info, b);
    lemma_get_var_advances(info, b);
    match got.1 {
        Some(d) => {
            lemma_lower_posts(got.0, d, value);
            lemma_posts_advances(got.0, got.0.lower(d, value));
            lemma_advances_trans(info, got.0, got.0.lower(d, value));
        },
        None => {},
    }
}

/// A value that a variable is bound to at its binding site comes last
/// among its lower bounds, behind the bounds that the variable had. (A
/// `Clause` is no value.)
pub proof fn lemma_bind_posts_last(info: InfoTy, b: Binding, value: Ty)
    requires
        b.def is Some,
        !(value is Clause),
    ensures
        bind_spec(info, b, value).0.vars.contains_key(b.def.unwrap()),
        bind_spec(info, b, value).0.vars[b.def.unwrap()].lbs == info.lbs(b.def.unwrap()).push(
            value,
        ),
        bind_spec(info, b, value).0.vars[b.def.unwrap()].ubs == info.ubs(b.def.unwrap()),
{
}

/// Distributing a value over a pattern advances.
pub proof fn lemma_check_pattern_advances(info: InfoTy, p: Pattern, value: Ty)
    ensures
        info.advances_to(check_pattern_spec(info, p, value).0),
    decreases p,
{
    match p {
        Pattern::Ident(b) => {
            lemma_bind_advances(info, b, value);
        },
        Pattern::Parenthesized(inner) => {
            lemma_check_pattern_advances(info, *inner, value);
        },
        _ => {},
    }
}

/// Walking a node advances: the variables that were known stay, each with
/// its old bounds first, and the invariant of the result is kept.
pub proof fn lemma_check_advances(info: InfoTy, node: SyntaxNode)
    requires
        info.wf(),
    ensures
        info.advances_to(check_spec(info, node).0),
    decreases node, 2nat,
{
    let r = check_inner_spec(info, node);
    lemma_check_inner_advances(info, node);
    if node.kind is FuncCall {
        let w = match r.1 {
            Some(t) => t,
            None => Ty::Undef,
        };
        lemma_record_advances(r.0, node.span, w);
        lemma_advances_trans(info, r.0, r.0.record(node.span, w));
    }
}

/// Walking a node by its kind advances.
pub proof fn lemma_check_inner_advances(info: InfoTy, node: SyntaxNode)
    requires
        info.wf(),
    ensures
        info.advances_to(check_inner_spec(info, node).0),
    decreases node, 1nat,
{
    if constant_kind(node.kind) is Some {
    } else if joins_children(node.kind) {
        lemma_check_joined_advances(info, node);
    } else {
        match node.kind {
            SyntaxKind::Ident | SyntaxKind::MathIdent => {
                match node.body {
                    SyntaxBody::Ident(i) => match i.def {
                        Some(d) => {
                            let made = info.define(d, i.name@);
                            lemma_define_advances(info, d, i.name@);
                            lemma_record_advances(made, node.span, var_ref(made, d));
                            lemma_advances_trans(
                                info,
                                made,
                                made.record(node.span, var_ref(made, d)),
                            );
                        },
                        None => {},
                    },
                    _ => {},
                }
            },
            SyntaxKind::Array => {
                match node.body {
                    SyntaxBody::Children(v) => {
                        lemma_check_elements_advances(info, v@, v@.len());
                    },
                    _ => {},
                }
            },
            SyntaxKind::Dict => {
                match node.body {
                    SyntaxBody::Dict(items) => {
                        lemma_check_items_advances(info, items@, items@.len());
                    },
                    _ => {},
                }
            },
            SyntaxKind::Unary => {
                match node.body {
                    SyntaxBody::Unary { constant: None, op, expr } => {
                        lemma_check_advances(info, *expr);
                    },
                    _ => {},
                }
            },
            SyntaxKind::Binary => {
                match node.body {
                    SyntaxBody::Binary { constant: None, op, lhs, rhs } => {
                        let l = check_spec(info, *lhs);
                        lemma_check_advances(info, *lhs);
                        let r = check_spec(l.0, *rhs);
                        lemma_check_advances(l.0, *rhs);
                        lemma_binary_effects_posts(r.0, op, l.1, r.1);
                        lemma_posts_advances(r.0, binary_effects(r.0, op, l.1, r.1));
                        lemma_advances_trans(info, l.0, r.0);
                        lemma_advances_trans(info, r.0, binary_effects(r.0, op, l.1, r.1));
                    },
                    _ => {},
                }
            },
            SyntaxKind::FieldAccess => {
                match node.body {
                    SyntaxBody::FieldAccess { target, field } => {
                        lemma_check_advances(info, *target);
                    },
                    _ => {},
                }
            },
            SyntaxKind::FuncCall => {
                match node.body {
                    SyntaxBody::FuncCall { callee, args } => {
                        let a = check_spec(info, *args);
                        lemma_check_advances(info, *args);
                        let c = check_spec(a.0, *callee);
                        lemma_check_advances(a.0, *callee);
                        lemma_call_advances(c.0, c.1, a.1, crate::ty::check::arg_items(*args));
                        lemma_advances_trans(info, a.0, c.0);
                        lemma_advances_trans(
                            info,
                            c.0,
                            check_call_spec(c.0, c.1, a.1, crate::ty::check::arg_items(*args)).0,
                        );
                    },
                    _ => {},
                }
            },
            SyntaxKind::Args => {
                match node.body {
                    SyntaxBody::Args(items) => {
                        lemma_check_arg_items_advances(info, items@, items@.len());
                    },
                    _ => {},
                }
            },
            SyntaxKind::Closure => {
                match node.body {
                    SyntaxBody::Closure { params, body } => {
                        let p = check_params_spec(info, params@, params@.len());
                        lemma_check_params_advances(info, params@, params@.len());
                        if p.ok {
                            lemma_check_advances(p.info, *body);
                            lemma_advances_trans(info, p.info, check_spec(p.info, *body).0);
                        }
                    },
                    _ => {},
                }
            },
            SyntaxKind::LetBinding => {
                match node.body {
                    SyntaxBody::LetBinding { kind, init } => {
                        let value = check_init_spec(info, init);
                        match init {
                            Some(e) => {
                                lemma_check_advances(info, *e);
                            },
                            None => {},
                        }
                        match kind {
                            LetBindingKind::Closure(b) => {
                                lemma_bind_advances(value.0, b, value.1);
                                lemma_advances_trans(
                                    info,
                                    value.0,
                                    bind_spec(value.0, b, value.1).0,
                                );
                            },
                            LetBindingKind::Normal(pattern) => {
                                lemma_check_pattern_advances(value.0, pattern, value.1);
                                lemma_advances_trans(
                                    info,
                                    value.0,
                                    check_pattern_spec(value.0, pattern, value.1).0,
                                );
                            },
                        }
                    },
                    _ => {},
                }
            },
            SyntaxKind::SetRule => {
                match node.body {
                    SyntaxBody::SetRule { target, args, condition } => {
                        let c = check_spec(info, *target);
                        lemma_check_advances(info, *target);
                        let a = check_spec(c.0, *args);
                        lemma_check_advances(c.0, *args);
                        let cond = check_optional_spec(a.0, condition);
                        match condition {
                            Some(e) => {
                                lemma_check_advances(a.0, *e);
                            },
                            None => {},
                        }
                        lemma_call_advances(cond, c.1, a.1, crate::ty::check::arg_items(*args));
                        lemma_advances_trans(info, c.0, a.0);
                        lemma_advances_trans(info, a.0, cond);
                        lemma_advances_trans(
                            info,
                            cond,
                            check_call_spec(cond, c.1, a.1, crate::ty::check::arg_items(*args)).0,
                        );
                    },
                    _ => {},
                }
            },
            SyntaxKind::ShowRule => {
                match node.body {
                    SyntaxBody::ShowRule { selector, transform } => {
                        let s = check_optional_spec(info, selector);
                        match selector {
                            Some(e) => {
                                lemma_check_advances(info, *e);
                            },
                            None => {},
                        }
                        lemma_check_advances(s, *transform);
                        lemma_advances_trans(info, s, check_spec(s, *transform).0);
                    },
                    _ => {},
                }
            },
            SyntaxKind::Contextual => {
                match node.body {
                    SyntaxBody::Contextual { body } => {
                        lemma_check_advances(info, *body);
                    },
                    _ => {},
                }
            },
            SyntaxKind::Conditional => {
                match node.body {
                    SyntaxBody::Conditional { condition, if_body, else_body } => {
                        let c = check_spec(info, *condition);
                        lemma_check_advances(info, *condition);
                        let t = check_spec(c.0, *if_body);
                        lemma_check_advances(c.0, *if_body);
                        lemma_advances_trans(info, c.0, t.0);
                        match else_body {
                            Some(e) => {
                                lemma_check_advances(t.0, *e);
                                lemma_advances_trans(info, t.0, check_spec(t.0, *e).0);
                            },
                            None => {},
                        }
                    },
                    _ => {},
                }
            },
            SyntaxKind::WhileLoop => {
                match node.body {
                    SyntaxBody::WhileLoop { condition, body } => {
                        let c = check_spec(info, *condition);
                        lemma_check_advances(info, *condition);
                        lemma_check_advances(c.0, *body);
                        lemma_advances_trans(info, c.0, check_spec(c.0, *body).0);
                    },
                    _ => {},
                }
            },
            SyntaxKind::ForLoop => {
                match node.body {
                    SyntaxBody::ForLoop { iterable, pattern, body } => {
                        let i = check_spec(info, *iterable);
                        lemma_check_advances(info, *iterable);
                        let p = check_spec(i.0, *pattern);
                        lemma_check_advances(i.0, *pattern);
                        lemma_check_advances(p.0, *body);
                        lemma_advances_trans(info, i.0, p.0);
                        lemma_advances_trans(info, p.0, check_spec(p.0, *body).0);
                    },
                    _ => {},
                }
            },
            _ => {},
        }
    }
}

/// Walking the children of a container advances.
pub proof fn lemma_check_joined_advances(info: InfoTy, node: SyntaxNode)
    requires
        info.wf(),
    ensures
        info.advances_to(check_joined_spec(info, node).0),
    decreases node, 0nat,
{
    match node.body {
        SyntaxBody::Children(v) => {
            lemma_check_children_advances(info, joiner_start(), v@, v@.len());
        },
        _ => {},
    }
}

/// Walking children in turn advances.
pub proof fn lemma_check_children_advances(info: InfoTy, j: JoinerTy, s: Seq<SyntaxNode>, n: nat)
    requires
        info.wf(),
    ensures
        info.advances_to(check_children_spec(info, j, s, n).0),
    decreases s, n,
{
    if n == 0 || n > s.len() {
    } else {
        let before = check_children_spec(info, j, s, (n - 1) as nat);
        lemma_check_children_advances(info, j, s, (n - 1) as nat);
        lemma_check_advances(before.0, s[n - 1]);
        lemma_advances_trans(info, before.0, check_spec(before.0, s[n - 1]).0);
    }
}

/// Walking the elements of an array advances.
pub proof fn lemma_check_elements_advances(info: InfoTy, s: Seq<SyntaxNode>, n: nat)
    requires
        info.wf(),
    ensures
        info.advances_to(check_elements_spec(info, s, n).0),
    decreases s, n,
{
    if n == 0 || n > s.len() {
    } else {
        let before = check_elements_spec(info, s, (n - 1) as nat);
        lemma_check_elements_advances(info, s, (n - 1) as nat);
        lemma_check_advances(before.0, s[n - 1]);
        lemma_advances_trans(info, before.0, check_spec(before.0, s[n - 1]).0);
    }
}

/// Walking the items of a dictionary advances.
pub proof fn lemma_check_items_advances(info: InfoTy, s: Seq<DictItem>, n: nat)
    requires
        info.wf(),
    ensures
        info.advances_to(check_items_spec(info, s, n).0),
    decreases s, n,
{
    if n == 0 || n > s.len() {
    } else {
        let before = check_items_spec(info, s, (n - 1) as nat);
        lemma_check_items_advances(info, s, (n - 1) as nat);
        match s[n - 1] {
            DictItem::Named { name, expr, span } => {
                lemma_check_advances(before.0, expr);
                lemma_advances_trans(info, before.0, check_spec(before.0, expr).0);
            },
            DictItem::Keyed { key: Some(Value::Str(key)), expr, span } => {
                lemma_check_advances(before.0, expr);
                lemma_advances_trans(info, before.0, check_spec(before.0, expr).0);
            },
            _ => {},
        }
    }
}

/// Walking the arguments of a call advances.
pub proof fn lemma_check_arg_items_advances(info: InfoTy, s: Seq<Arg>, n: nat)
    requires
        info.wf(),
    ensures
        info.advances_to(check_arg_items_spec(info, s, n).0),
    decreases s, n,
{
    if n == 0 || n > s.len() {
    } else {
        let before = check_arg_items_spec(info, s, (n - 1) as nat);
        lemma_check_arg_items_advances(info, s, (n - 1) as nat);
        match s[n - 1] {
            Arg::Pos(e) => {
                lemma_check_advances(before.0, e);
                lemma_advances_trans(info, before.0, check_spec(before.0, e).0);
            },
            Arg::Named { name, expr, .. } => {
                lemma_check_advances(before.0, expr);
                lemma_advances_trans(info, before.0, check_spec(before.0, expr).0);
            },
            Arg::Spread => {},
        }
    }
}

/// Walking the parameters of a closure advances.
pub proof fn lemma_check_params_advances(info: InfoTy, s: Seq<Param>, n: nat)
    requires
        info.wf(),
    ensures
        info.advances_to(check_params_spec(info, s, n).info),
    decreases s, n,
{
    if n == 0 || n > s.len() {
    } else {
        let before = check_params_spec(info, s, (n - 1) as nat);
        lemma_check_params_advances(info, s, (n - 1) as nat);
        if before.ok {
            match s[n - 1] {
                Param::Pos(pattern) => {
                    lemma_check_pattern_advances(before.info, pattern, Ty::Any);
                    lemma_advances_trans(
                        info,
                        before.info,
                        check_pattern_spec(before.info, pattern, Ty::Any).0,
                    );
                },
                Param::Named { name, expr } => {
                    let exp = check_spec(before.info, expr);
                    lemma_check_advances(before.info, expr);
                    lemma_bind_advances(exp.0, name, exp.1);
                    lemma_advances_trans(info, before.info, exp.0);
                    lemma_advances_trans(info, exp.0, bind_spec(exp.0, name, exp.1).0);
                },
                Param::Spread { sink: Some(b) } => {
                    let value = Ty::Builtin(FlowBuiltinType::Args);
                    lemma_bind_advances(before.info, b, value);
                    lemma_advances_trans(info, before.info, bind_spec(before.info, b, value).0);
                },
                Param::Spread { sink: None } => {},
            }
        }
    }
}

/// The result of type checking a source file keeps the invariant.
pub proof fn lemma_type_check_wf(root: SyntaxNode)
    ensures
        type_check_spec(root).wf(),
{
    lemma_check_advances(InfoTy::empty(), root);
}

} // verus!
