//! What simplification leaves behind: no variable where it rebuilds, no
//! `Clause` that was not there before, and a fixed point.

use vstd::prelude::*;

use crate::syntax::{DefId, Span};
use crate::ty::builtin::{FlowBuiltinType, canonical_fields, is_dict_alias};
use crate::ty::def::{FieldTy, Ty};
use crate::ty::info::{InfoTy, no_clause};
use crate::ty::simplify::{
    Memo, Polarity, SimplifyCx, analyze_spec, bound_type, lemma_merge_pending, lemma_put_pending,
    simplify_spec, transform_all, transform_fields, transform_named, transform_spec,
};

verus! {

/// Whether `t` holds the kind of term that `bad` tells of in none of the
/// places that simplification rebuilds: the term itself, the parameters and
/// the result of a function, the fields of a dictionary, the members of a
/// tuple, an array or a union, the callee of a partial application, the
/// arguments of a bundle, and the bounds of a `Let`.
pub open spec fn rebuilt_free(t: Ty, bad: spec_fn(Ty) -> bool) -> bool
    decreases t,
{
    !bad(t) && match t {
        Ty::Func(sig) => {
            &&& forall|i: int| 0 <= i < sig.pos.len() ==> rebuilt_free(#[trigger] sig.pos[i], bad)
            &&& forall|i: int|
                0 <= i < sig.named.len() ==> rebuilt_free((#[trigger] sig.named[i]).1, bad)
            &&& sig.rest matches Some(r) ==> rebuilt_free(*r, bad)
            &&& rebuilt_free(*sig.ret, bad)
        },
        Ty::Dict(fs) => forall|i: int| 0 <= i < fs.len() ==> rebuilt_free((#[trigger] fs[i]).ty, bad),
        Ty::Tuple(s) => forall|i: int| 0 <= i < s.len() ==> rebuilt_free(#[trigger] s[i], bad),
        Ty::Array(e) => rebuilt_free(*e, bad),
        Ty::With(f, _) => rebuilt_free(*f, bad),
        Ty::Args(a) => {
            &&& forall|i: int| 0 <= i < a.args.len() ==> rebuilt_free(#[trigger] a.args[i], bad)
            &&& forall|i: int|
                0 <= i < a.named.len() ==> rebuilt_free((#[trigger] a.named[i]).1, bad)
        },
        Ty::Union(s) => forall|i: int| 0 <= i < s.len() ==> rebuilt_free(#[trigger] s[i], bad),
        Ty::Let(lbs, ubs) => {
            &&& forall|i: int| 0 <= i < lbs.len() ==> rebuilt_free(#[trigger] lbs[i], bad)
            &&& forall|i: int| 0 <= i < ubs.len() ==> rebuilt_free(#[trigger] ubs[i], bad)
        },
        _ => true,
    }
}

/// Whether no variable stands in `t` where simplification rebuilds.
pub open spec fn settled(t: Ty) -> bool {
    rebuilt_free(t, |u: Ty| u is Var)
}


/// Whether a type is fit to stand for a variable: no variable stands in it
/// where simplification rebuilds, and it is no `Clause`.
pub open spec fn good(t: Ty) -> bool {
    settled(t) && !(t is Clause)
}

/// Whether every type that the memo remembers is fit to stand for a
/// variable.
pub open spec fn memo_good(m: Memo) -> bool {
    &&& forall|d: DefId| #[trigger] m.pos.contains_key(d) ==> good(m.pos[d])
    &&& forall|d: DefId| #[trigger] m.neg.contains_key(d) ==> good(m.neg[d])
}

/// Whether each of the terms is settled.
pub open spec fn all_settled(s: Seq<Ty>) -> bool {
    forall|i: int| 0 <= i < s.len() ==> settled(#[trigger] s[i])
}

proof fn lemma_bound_type_good(upper_only: bool, lbs: Seq<Ty>, ubs: Seq<Ty>)
    requires
        all_settled(lbs),
        all_settled(ubs),
        no_clause(lbs),
        no_clause(ubs),
    ensures
        good(bound_type(upper_only, lbs, ubs)),
{
}

/// What simplification rebuilds of a term is settled, is a `Clause` only
/// if the term is one, and leaves the memo good.
pub proof fn lemma_transform_good(cx: SimplifyCx, memo: Memo, ty: Ty, pol: bool)
    requires
        cx.info.wf(),
        memo_good(memo),
    ensures
        settled(transform_spec(cx, memo, ty, pol).0),
        !(ty is Clause) ==> !(transform_spec(cx, memo, ty, pol).0 is Clause),
        memo_good(transform_spec(cx, memo, ty, pol).1),
    decreases memo.pending(cx.info.vars.dom()), ty, 0nat,
{
    let known = cx.info.vars.dom();
    match ty {
        Ty::Var(v, _) => {
            if !cx.info.vars.contains_key(v) {
            } else if memo.has(v, pol) {
            } else {
                let m0 = memo.put(v, pol, Ty::Any);
                lemma_put_pending(memo, v, pol, Ty::Any, known);
                let lbs = cx.info.vars[v].lbs;
                let ubs = cx.info.vars[v].ubs;
                let lower = if cx.upper_only(v) {
                    (Seq::<Ty>::empty(), m0)
                } else {
                    transform_all(cx, m0, lbs, pol, lbs.len())
                };
                if !cx.upper_only(v) {
                    lemma_transform_all_good(cx, m0, lbs, pol, lbs.len());
                }
                let m1 = m0.merge(lower.1);
                lemma_merge_pending(m0, lower.1, known);
                let upper = if cx.lower_only(v) {
                    (Seq::<Ty>::empty(), m1)
                } else {
                    transform_all(cx, m1, ubs, !pol, ubs.len())
                };
                if !cx.lower_only(v) {
                    lemma_transform_all_good(cx, m1, ubs, !pol, ubs.len());
                }
                lemma_bound_type_good(cx.upper_only(v), lower.0, upper.0);
            }
        },
        Ty::Func(sig) => {
            let pos = transform_all(cx, memo, sig.pos, !pol, sig.pos.len());
            lemma_transform_all_good(cx, memo, sig.pos, !pol, sig.pos.len());
            let m1 = memo.merge(pos.1);
            lemma_merge_pending(memo, pos.1, known);
            let named = transform_named(cx, m1, sig.named, !pol, sig.named.len());
            lemma_transform_named_good(cx, m1, sig.named, !pol, sig.named.len());
            let m2 = m1.merge(named.1);
            lemma_merge_pending(m1, named.1, known);
            let rest = match sig.rest {
                Some(r) => Some(transform_spec(cx, m2, *r, !pol)),
                None => None,
            };
            if sig.rest is Some {
                lemma_transform_good(cx, m2, *sig.rest.unwrap(), !pol);
                lemma_merge_pending(m2, rest.unwrap().1, known);
            }
            let m3 = match rest {
                Some(t) => m2.merge(t.1),
                None => m2,
            };
            lemma_transform_good(cx, m3, *sig.ret, pol);
        },
        Ty::Dict(fields) => {
            lemma_transform_fields_good(cx, memo, fields, !pol, fields.len());
        },
        Ty::Tuple(s) => {
            lemma_transform_all_good(cx, memo, s, pol, s.len());
        },
        Ty::Array(e) => {
            lemma_transform_good(cx, memo, *e, pol);
        },
        Ty::With(f, bundles) => {
            lemma_transform_good(cx, memo, *f, pol);
        },
        Ty::Args(a) => {
            let args = transform_all(cx, memo, a.args, pol, a.args.len());
            lemma_transform_all_good(cx, memo, a.args, pol, a.args.len());
            let m1 = memo.merge(args.1);
            lemma_merge_pending(memo, args.1, known);
            lemma_transform_named_good(cx, m1, a.named, pol, a.named.len());
        },
        Ty::Union(s) => {
            lemma_transform_all_good(cx, memo, s, pol, s.len());
        },
        Ty::Let(lbs, ubs) => {
            let lower = transform_all(cx, memo, lbs, !pol, lbs.len());
            lemma_transform_all_good(cx, memo, lbs, !pol, lbs.len());
            let m1 = memo.merge(lower.1);
            lemma_merge_pending(memo, lower.1, known);
            lemma_transform_all_good(cx, m1, ubs, pol, ubs.len());
        },
        _ => {},
    }
}

/// What simplification rebuilds of a list of terms is settled term by term,
/// holds no `Clause` if the list held none, and leaves the memo good.
pub proof fn lemma_transform_all_good(cx: SimplifyCx, memo: Memo, s: Seq<Ty>, pol: bool, n: nat)
    requires
        cx.info.wf(),
        memo_good(memo),
    ensures
        all_settled(transform_all(cx, memo, s, pol, n).0),
        n <= s.len() ==> transform_all(cx, memo, s, pol, n).0.len() == n,
        no_clause(s) ==> no_clause(transform_all(cx, memo, s, pol, n).0),
        memo_good(transform_all(cx, memo, s, pol, n).1),
    decreases memo.pending(cx.info.vars.dom()), s, n,
{
    if n == 0 || n > s.len() {
    } else {
        let before = transform_all(cx, memo, s, pol, (n - 1) as nat);
        lemma_transform_all_good(cx, memo, s, pol, (n - 1) as nat);
        let m1 = memo.merge(before.1);
        lemma_merge_pending(memo, before.1, cx.info.vars.dom());
        lemma_transform_good(cx, m1, s[n - 1], pol);
    }
}

/// What simplification rebuilds of a list of named terms is settled term by
/// term, keeps the names, and leaves the memo good.
pub proof fn lemma_transform_named_good(
    cx: SimplifyCx,
    memo: Memo,
    s: Seq<(Seq<char>, Ty)>,
    pol: bool,
    n: nat,
)
    requires
        cx.info.wf(),
        memo_good(memo),
    ensures
        forall|i: int|
            0 <= i < transform_named(cx, memo, s, pol, n).0.len() ==> settled(
                (#[trigger] transform_named(cx, memo, s, pol, n).0[i]).1,
            ),
        n <= s.len() ==> transform_named(cx, memo, s, pol, n).0.len() == n,
        n <= s.len() ==> forall|i: int|
            0 <= i < n ==> (#[trigger] transform_named(cx, memo, s, pol, n).0[i]).0 == s[i].0,
        memo_good(transform_named(cx, memo, s, pol, n).1),
    decreases memo.pending(cx.info.vars.dom()), s, n,
{
    if n == 0 || n > s.len() {
    } else {
        let before = transform_named(cx, memo, s, pol, (n - 1) as nat);
        lemma_transform_named_good(cx, memo, s, pol, (n - 1) as nat);
        let m1 = memo.merge(before.1);
        lemma_merge_pending(memo, before.1, cx.info.vars.dom());
        lemma_transform_good(cx, m1, s[n - 1].1, pol);
    }
}

/// What simplification rebuilds of the fields of a dictionary is settled
/// field by field, keeps the names and the spans, and leaves the memo good.
pub proof fn lemma_transform_fields_good(
    cx: SimplifyCx,
    memo: Memo,
    s: Seq<FieldTy>,
    pol: bool,
    n: nat,
)
    requires
        cx.info.wf(),
        memo_good(memo),
    ensures
        forall|i: int|
            0 <= i < transform_fields(cx, memo, s, pol, n).0.len() ==> settled(
                (#[trigger] transform_fields(cx, memo, s, pol, n).0[i]).ty,
            ),
        n <= s.len() ==> transform_fields(cx, memo, s, pol, n).0.len() == n,
        n <= s.len() ==> forall|i: int|
            0 <= i < n ==> (#[trigger] transform_fields(cx, memo, s, pol, n).0[i]).name
                == s[i].name && transform_fields(cx, memo, s, pol, n).0[i].span == s[i].span,
        memo_good(transform_fields(cx, memo, s, pol, n).1),
    decreases memo.pending(cx.info.vars.dom()), s, n,
{
    if n == 0 || n > s.len() {
    } else {
        let before = transform_fields(cx, memo, s, pol, (n - 1) as nat);
        lemma_transform_fields_good(cx, memo, s, pol, (n - 1) as nat);
        let m1 = memo.merge(before.1);
        lemma_merge_pending(memo, before.1, cx.info.vars.dom());
        lemma_transform_good(cx, m1, s[n - 1].ty, pol);
    }
}

/// Simplifying a type that is no `Clause` never gives `Clause`, and leaves
/// no variable where simplification rebuilds.
pub proof fn lemma_simplify_never_clause(info: InfoTy, ty: Ty, principal: bool)
    requires
        info.wf(),
        !(ty is Clause),
    ensures
        !(simplify_spec(info, ty, principal) is Clause),
        settled(simplify_spec(info, ty, principal)),
{
    let marks = analyze_spec(info, Polarity::empty(), ty, true);
    lemma_transform_good(SimplifyCx { info, marks, principal }, Memo::empty(), ty, true);
}

/// For every span at which a type that is no `Clause` is recorded,
/// simplifying that type never gives `Clause`.
pub proof fn lemma_recorded_never_clause(info: InfoTy, span: Span, principal: bool)
    requires
        info.wf(),
        info.mapping.contains_key(span),
        !(info.mapping[span] is Clause),
    ensures
        !(simplify_spec(info, info.mapping[span], principal) is Clause),
{
    lemma_simplify_never_clause(info, info.mapping[span], principal);
}

proof fn lemma_merge_self(memo: Memo)
    ensures
        memo.merge(memo) == memo,
{
    assert(memo.merge(memo).pos =~= memo.pos);
    assert(memo.merge(memo).neg =~= memo.neg);
}

/// Simplification rebuilds a settled term as it is and remembers nothing new.
pub proof fn lemma_transform_fixed(cx: SimplifyCx, memo: Memo, ty: Ty, pol: bool)
    requires
        cx.info.vars.dom().finite(),
        settled(ty),
    ensures
        transform_spec(cx, memo, ty, pol) == (ty, memo),
    decreases ty, 0nat,
{
    lemma_merge_self(memo);
    match ty {
        Ty::Func(sig) => {
            lemma_transform_all_fixed(cx, memo, sig.pos, !pol, sig.pos.len());
            lemma_transform_named_fixed(cx, memo, sig.named, !pol, sig.named.len());
            if sig.rest is Some {
                lemma_transform_fixed(cx, memo, *sig.rest.unwrap(), !pol);
            }
            lemma_transform_fixed(cx, memo, *sig.ret, pol);
            let r = transform_spec(cx, memo, ty, pol);
            assert(r.0->Func_0.pos =~= sig.pos);
            assert(r.0->Func_0.named =~= sig.named);
            assert(r.0->Func_0.rest == sig.rest);
            assert(r.0->Func_0.ret == sig.ret);
        },
        Ty::Dict(fields) => {
            lemma_transform_fields_fixed(cx, memo, fields, !pol, fields.len());
            assert(transform_spec(cx, memo, ty, pol).0->Dict_0 =~= fields);
        },
        Ty::Tuple(s) => {
            lemma_transform_all_fixed(cx, memo, s, pol, s.len());
            assert(transform_spec(cx, memo, ty, pol).0->Tuple_0 =~= s);
        },
        Ty::Array(e) => {
            lemma_transform_fixed(cx, memo, *e, pol);
        },
        Ty::With(f, bundles) => {
            lemma_transform_fixed(cx, memo, *f, pol);
        },
        Ty::Args(a) => {
            lemma_transform_all_fixed(cx, memo, a.args, pol, a.args.len());
            lemma_transform_named_fixed(cx, memo, a.named, pol, a.named.len());
            let r = transform_spec(cx, memo, ty, pol);
            assert(r.0->Args_0.args =~= a.args);
            assert(r.0->Args_0.named =~= a.named);
        },
        Ty::Union(s) => {
            lemma_transform_all_fixed(cx, memo, s, pol, s.len());
            assert(transform_spec(cx, memo, ty, pol).0->Union_0 =~= s);
        },
        Ty::Let(lbs, ubs) => {
            lemma_transform_all_fixed(cx, memo, lbs, !pol, lbs.len());
            lemma_transform_all_fixed(cx, memo, ubs, pol, ubs.len());
            let r = transform_spec(cx, memo, ty, pol);
            assert(r.0->Let_0 =~= lbs);
            assert(r.0->Let_1 =~= ubs);
        },
        _ => {},
    }
}

proof fn lemma_transform_all_fixed(cx: SimplifyCx, memo: Memo, s: Seq<Ty>, pol: bool, n: nat)
    requires
        cx.info.vars.dom().finite(),
        n <= s.len(),
        forall|i: int| 0 <= i < s.len() ==> settled(#[trigger] s[i]),
    ensures
        transform_all(cx, memo, s, pol, n) == (s.subrange(0, n as int), memo),
    decreases s, n,
{
    lemma_merge_self(memo);
    if n == 0 {
        assert(s.subrange(0, 0) =~= Seq::<Ty>::empty());
    } else {
        lemma_transform_all_fixed(cx, memo, s, pol, (n - 1) as nat);
        lemma_transform_fixed(cx, memo, s[n - 1], pol);
        assert(s.subrange(0, n as int) =~= s.subrange(0, n - 1).push(s[n - 1]));
    }
}

proof fn lemma_transform_named_fixed(
    cx: SimplifyCx,
    memo: Memo,
    s: Seq<(Seq<char>, Ty)>,
    pol: bool,
    n: nat,
)
    requires
        cx.info.vars.dom().finite(),
        n <= s.len(),
        forall|i: int| 0 <= i < s.len() ==> settled((#[trigger] s[i]).1),
    ensures
        transform_named(cx, memo, s, pol, n) == (s.subrange(0, n as int), memo),
    decreases s, n,
{
    lemma_merge_self(memo);
    if n == 0 {
        assert(s.subrange(0, 0) =~= Seq::<(Seq<char>, Ty)>::empty());
    } else {
        lemma_transform_named_fixed(cx, memo, s, pol, (n - 1) as nat);
        lemma_transform_fixed(cx, memo, s[n - 1].1, pol);
        assert(s.subrange(0, n as int) =~= s.subrange(0, n - 1).push(s[n - 1]));
    }
}

proof fn lemma_transform_fields_fixed(
    cx: SimplifyCx,
    memo: Memo,
    s: Seq<FieldTy>,
    pol: bool,
    n: nat,
)
    requires
        cx.info.vars.dom().finite(),
        n <= s.len(),
        forall|i: int| 0 <= i < s.len() ==> settled((#[trigger] s[i]).ty),
    ensures
        transform_fields(cx, memo, s, pol, n) == (s.subrange(0, n as int), memo),
    decreases s, n,
{
    lemma_merge_self(memo);
    if n == 0 {
        assert(s.subrange(0, 0) =~= Seq::<FieldTy>::empty());
    } else {
        lemma_transform_fields_fixed(cx, memo, s, pol, (n - 1) as nat);
        lemma_transform_fixed(cx, memo, s[n - 1].ty, pol);
        assert(s.subrange(0, n as int) =~= s.subrange(0, n - 1).push(s[n - 1]));
    }
}

/// Simplifying twice gives what simplifying once gives.
pub proof fn lemma_simplify_idempotent(info: InfoTy, ty: Ty, principal: bool)
    requires
        info.wf(),
    ensures
        simplify_spec(info, simplify_spec(info, ty, principal), principal) == simplify_spec(
            info,
            ty,
            principal,
        ),
{
    let once = simplify_spec(info, ty, principal);
    let marks = analyze_spec(info, Polarity::empty(), ty, true);
    lemma_transform_good(SimplifyCx { info, marks, principal }, Memo::empty(), ty, true);
    let again = analyze_spec(info, Polarity::empty(), once, true);
    lemma_transform_fixed(SimplifyCx { info, marks: again, principal }, Memo::empty(), once, true);
}

/// Whether `name` is the name of a field of `fields`.
pub open spec fn has_field(fields: Seq<FieldTy>, name: Seq<char>) -> bool {
    exists|j: int| 0 <= j < fields.len() && #[trigger] fields[j].name == name
}

/// Whether every field of `d` is named like a field of `shape`.
pub open spec fn fields_within(d: Seq<FieldTy>, shape: Seq<FieldTy>) -> bool {
    forall|i: int| 0 <= i < d.len() ==> has_field(shape, #[trigger] d[i].name)
}

/// Simplifying a dictionary gives a dictionary with the same fields, by
/// name and span and in the same order.
pub proof fn lemma_simplify_keeps_fields(info: InfoTy, d: Seq<FieldTy>, principal: bool)
    requires
        info.wf(),
    ensures
        simplify_spec(info, Ty::Dict(d), principal) is Dict,
        simplify_spec(info, Ty::Dict(d), principal)->Dict_0.len() == d.len(),
        forall|i: int|
            0 <= i < d.len() ==> (#[trigger] simplify_spec(
                info,
                Ty::Dict(d),
                principal,
            )->Dict_0[i]).name == d[i].name && simplify_spec(
                info,
                Ty::Dict(d),
                principal,
            )->Dict_0[i].span == d[i].span,
{
    let marks = analyze_spec(info, Polarity::empty(), Ty::Dict(d), true);
    let cx = SimplifyCx { info, marks, principal };
    lemma_transform_fields_good(cx, Memo::empty(), d, false, d.len());
}

/// A dictionary whose fields are all named like fields of the canonical
/// shape of an alias still has only such fields after simplification.
pub proof fn lemma_alias_fields_stay_canonical(
    info: InfoTy,
    d: Seq<FieldTy>,
    alias: FlowBuiltinType,
    principal: bool,
)
    requires
        info.wf(),
        is_dict_alias(alias),
        fields_within(d, canonical_fields(alias)),
    ensures
        simplify_spec(info, Ty::Dict(d), principal) is Dict,
        fields_within(
            simplify_spec(info, Ty::Dict(d), principal)->Dict_0,
            canonical_fields(alias),
        ),
{
    lemma_simplify_keeps_fields(info, d, principal);
    let e = simplify_spec(info, Ty::Dict(d), principal)->Dict_0;
    assert forall|i: int| 0 <= i < e.len() implies has_field(
        canonical_fields(alias),
        #[trigger] e[i].name,
    ) by {
        assert(e[i].name == d[i].name);
    }
}

} // verus!
