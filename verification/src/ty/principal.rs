//! A principal type holds no bound that the type with all bounds does not
//! hold.

use vstd::prelude::*;

use crate::syntax::DefId;
use crate::ty::def::{ArgsTy, FieldTy, SigTy, Ty};
use crate::ty::info::InfoTy;
use crate::ty::settled::rebuilt_free;
use crate::ty::simplify::{
    Memo, Polarity, SimplifyCx, analyze_spec, bound_type, lemma_merge_pending, lemma_put_pending,
    simplify_spec, transform_all, transform_fields, transform_named, transform_spec,
};

verus! {

/// Whether the known variable `d` has a rank below `bound`.
pub open spec fn ranked_below(info: InfoTy, rank: Map<DefId, nat>, d: DefId, bound: nat) -> bool {
    info.vars.contains_key(d) && rank.contains_key(d) && rank[d] < bound
}

/// Whether every known variable that stands in `t` where simplification
/// rebuilds has a rank below `bound`.
pub open spec fn vars_below(info: InfoTy, rank: Map<DefId, nat>, t: Ty, bound: nat) -> bool {
    rebuilt_free(
        t,
        |u: Ty| u is Var && info.vars.contains_key(u->Var_0) && !ranked_below(info, rank, u->Var_0, bound),
    )
}

/// Whether each of the terms has its variables below `bound`.
pub open spec fn all_below(info: InfoTy, rank: Map<DefId, nat>, s: Seq<Ty>, bound: nat) -> bool {
    forall|i: int| 0 <= i < s.len() ==> vars_below(info, rank, #[trigger] s[i], bound)
}

/// Whether the bounds of the variables form no cycle: `rank` gives each
/// variable a rank above the ranks of the variables that stand in its bounds
/// where simplification rebuilds.
pub open spec fn acyclic(info: InfoTy, rank: Map<DefId, nat>) -> bool {
    forall|d: DefId| #[trigger]
        info.vars.contains_key(d) ==> {
            &&& rank.contains_key(d)
            &&& all_below(info, rank, info.vars[d].lbs, rank[d])
            &&& all_below(info, rank, info.vars[d].ubs, rank[d])
        }
}

/// The type with all bounds of `t`, computed without remembering: each
/// known variable with a rank below `bound` stands for all its bounds.
pub open spec fn full_type(info: InfoTy, rank: Map<DefId, nat>, t: Ty, bound: nat) -> Ty
    decreases bound, t, 0nat,
{
    match t {
        Ty::Var(v, _) => {
            if ranked_below(info, rank, v, bound) {
                let lbs = info.vars[v].lbs;
                let ubs = info.vars[v].ubs;
                bound_type(
                    false,
                    full_types(info, rank, lbs, rank[v], lbs.len()),
                    full_types(info, rank, ubs, rank[v], ubs.len()),
                )
            } else {
                Ty::Any
            }
        },
        Ty::Func(sig) => Ty::Func(
            SigTy {
                pos: full_types(info, rank, sig.pos, bound, sig.pos.len()),
                named: full_named(info, rank, sig.named, bound, sig.named.len()),
                rest: match sig.rest {
                    Some(r) => Some(Box::new(full_type(info, rank, *r, bound))),
                    None => None,
                },
                ret: Box::new(full_type(info, rank, *sig.ret, bound)),
            },
        ),
        Ty::Dict(fields) => Ty::Dict(full_fields(info, rank, fields, bound, fields.len())),
        Ty::Tuple(s) => Ty::Tuple(full_types(info, rank, s, bound, s.len())),
        Ty::Array(e) => Ty::Array(Box::new(full_type(info, rank, *e, bound))),
        Ty::With(f, bundles) => Ty::With(Box::new(full_type(info, rank, *f, bound)), bundles),
        Ty::Args(a) => Ty::Args(
            ArgsTy {
                args: full_types(info, rank, a.args, bound, a.args.len()),
                named: full_named(info, rank, a.named, bound, a.named.len()),
            },
        ),
        Ty::Union(s) => Ty::Union(full_types(info, rank, s, bound, s.len())),
        Ty::Let(lbs, ubs) => Ty::Let(
            full_types(info, rank, lbs, bound, lbs.len()),
            full_types(info, rank, ubs, bound, ubs.len()),
        ),
        _ => t,
    }
}

/// The types with all bounds of the first `n` terms of `s`.
pub open spec fn full_types(info: InfoTy, rank: Map<DefId, nat>, s: Seq<Ty>, bound: nat, n: nat)
    -> Seq<Ty>
    decreases bound, s, n,
{
    if n == 0 || n > s.len() {
        Seq::empty()
    } else {
        full_types(info, rank, s, bound, (n - 1) as nat).push(
            full_type(info, rank, s[n - 1], bound),
        )
    }
}

/// The first `n` named terms of `s` with the types with all bounds.
pub open spec fn full_named(
    info: InfoTy,
    rank: Map<DefId, nat>,
    s: Seq<(Seq<char>, Ty)>,
    bound: nat,
    n: nat,
) -> Seq<(Seq<char>, Ty)>
    decreases bound, s, n,
{
    if n == 0 || n > s.len() {
        Seq::empty()
    } else {
        full_named(info, rank, s, bound, (n - 1) as nat).push(
            (s[n - 1].0, full_type(info, rank, s[n - 1].1, bound)),
        )
    }
}

/// The first `n` fields of `s` with the types with all bounds.
pub open spec fn full_fields(
    info: InfoTy,
    rank: Map<DefId, nat>,
    s: Seq<FieldTy>,
    bound: nat,
    n: nat,
) -> Seq<FieldTy>
    decreases bound, s, n,
{
    if n == 0 || n > s.len() {
        Seq::empty()
    } else {
        full_fields(info, rank, s, bound, (n - 1) as nat).push(
            FieldTy { ty: full_type(info, rank, s[n - 1].ty, bound), ..s[n - 1] },
        )
    }
}

/// Whether `a` holds no bound that `b` does not hold: `a` is `b` with bounds
/// of variables left out.
///
/// `Any` holds no bound. Where `b` holds the lower and upper bounds of a
/// variable, `a` may hold some of them: its single lower bound, its single
/// upper bound, or lists of which each is empty or holds the bounds of `b`
/// one for one. Else `a` and `b` are built alike from parts of which the
/// same holds, and are the same in what simplification does not rebuild.
pub open spec fn holds_no_more(a: Ty, b: Ty) -> bool
    decreases b,
{
    ||| a is Any
    ||| match b {
        Ty::Func(y) => a matches Ty::Func(x) && {
            &&& x.pos.len() == y.pos.len()
            &&& forall|i: int|
                0 <= i < x.pos.len() ==> holds_no_more(x.pos[i], #[trigger] y.pos[i])
            &&& x.named.len() == y.named.len()
            &&& forall|i: int|
                0 <= i < x.named.len() ==> x.named[i].0 == y.named[i].0 && holds_no_more(
                    x.named[i].1,
                    (#[trigger] y.named[i]).1,
                )
            &&& match y.rest {
                Some(r) => x.rest matches Some(q) && holds_no_more(*q, *r),
                None => x.rest is None,
            }
            &&& holds_no_more(*x.ret, *y.ret)
        },
        Ty::Dict(y) => a matches Ty::Dict(x) && {
            &&& x.len() == y.len()
            &&& forall|i: int|
                0 <= i < x.len() ==> x[i].name == y[i].name && x[i].span == y[i].span
                    && holds_no_more(x[i].ty, (#[trigger] y[i]).ty)
        },
        Ty::Tuple(y) => a matches Ty::Tuple(x) && {
            &&& x.len() == y.len()
            &&& forall|i: int| 0 <= i < x.len() ==> holds_no_more(x[i], #[trigger] y[i])
        },
        Ty::Array(y) => a matches Ty::Array(x) && holds_no_more(*x, *y),
        Ty::With(g, by) => a matches Ty::With(f, bx) && bx == by && holds_no_more(*f, *g),
        Ty::Args(y) => a matches Ty::Args(x) && {
            &&& x.args.len() == y.args.len()
            &&& forall|i: int|
                0 <= i < x.args.len() ==> holds_no_more(x.args[i], #[trigger] y.args[i])
            &&& x.named.len() == y.named.len()
            &&& forall|i: int|
                0 <= i < x.named.len() ==> x.named[i].0 == y.named[i].0 && holds_no_more(
                    x.named[i].1,
                    (#[trigger] y.named[i]).1,
                )
        },
        Ty::Union(y) => a matches Ty::Union(x) && {
            &&& x.len() == y.len()
            &&& forall|i: int| 0 <= i < x.len() ==> holds_no_more(x[i], #[trigger] y[i])
        },
        Ty::Let(lbs, ubs) => {
            ||| lbs.len() == 1 && holds_no_more(a, lbs[0])
            ||| ubs.len() == 1 && holds_no_more(a, ubs[0])
            ||| a matches Ty::Let(l, u) && {
                &&& l.len() == 0 || (l.len() == lbs.len() && forall|i: int|
                    0 <= i < l.len() ==> holds_no_more(l[i], #[trigger] lbs[i]))
                &&& u.len() == 0 || (u.len() == ubs.len() && forall|i: int|
                    0 <= i < u.len() ==> holds_no_more(u[i], #[trigger] ubs[i]))
            }
        },
        _ => a == b,
    }
}

/// The type with all bounds that stands for the variable `d`.
pub open spec fn full_var(info: InfoTy, rank: Map<DefId, nat>, d: DefId) -> Ty {
    full_type(info, rank, Ty::Var(d, Seq::empty()), rank[d] + 1)
}

/// Whether the memo remembers known variables only, and remembers of each
/// variable with a rank below `bound` the type with all bounds.
pub open spec fn memo_done(info: InfoTy, rank: Map<DefId, nat>, memo: Memo, bound: nat) -> bool {
    &&& forall|d: DefId| #[trigger]
        memo.pos.contains_key(d) ==> info.vars.contains_key(d) && (ranked_below(info, rank, d, bound)
            ==> memo.pos[d] == full_var(info, rank, d))
    &&& forall|d: DefId| #[trigger]
        memo.neg.contains_key(d) ==> info.vars.contains_key(d) && (ranked_below(info, rank, d, bound)
            ==> memo.neg[d] == full_var(info, rank, d))
}

/// Whether `after` remembers of the variables that have no rank below
/// `bound` just what `before` remembers.
pub open spec fn same_above(
    info: InfoTy,
    rank: Map<DefId, nat>,
    before: Memo,
    after: Memo,
    bound: nat,
) -> bool {
    &&& forall|d: DefId| #[trigger]
        after.pos.contains_key(d) && !ranked_below(info, rank, d, bound)
            ==> before.pos.contains_key(d) && after.pos[d] == before.pos[d]
    &&& forall|d: DefId| #[trigger]
        after.neg.contains_key(d) && !ranked_below(info, rank, d, bound)
            ==> before.neg.contains_key(d) && after.neg[d] == before.neg[d]
}

/// What a step of simplification without a principal type keeps: the memo
/// grows, stays done below `bound`, and is untouched above.
pub open spec fn plain_step(
    info: InfoTy,
    rank: Map<DefId, nat>,
    before: Memo,
    after: Memo,
    bound: nat,
) -> bool {
    &&& before.within(after)
    &&& memo_done(info, rank, after, bound)
    &&& same_above(info, rank, before, after, bound)
}

proof fn lemma_merged(a: Memo, b: Memo)
    requires
        a.within(b),
    ensures
        a.merge(b) == b,
{
    assert(a.merge(b).pos =~= b.pos);
    assert(a.merge(b).neg =~= b.neg);
}

proof fn lemma_plain_step_trans(
    info: InfoTy,
    rank: Map<DefId, nat>,
    a: Memo,
    b: Memo,
    c: Memo,
    bound: nat,
)
    requires
        plain_step(info, rank, a, b, bound),
        plain_step(info, rank, b, c, bound),
    ensures
        plain_step(info, rank, a, c, bound),
{
    assert forall|d: DefId| #[trigger]
        c.pos.contains_key(d) && !ranked_below(info, rank, d, bound) implies a.pos.contains_key(d)
        && c.pos[d] == a.pos[d] by {
        assert(b.pos.contains_key(d));
    }
    assert forall|d: DefId| #[trigger]
        c.neg.contains_key(d) && !ranked_below(info, rank, d, bound) implies a.neg.contains_key(d)
        && c.neg[d] == a.neg[d] by {
        assert(b.neg.contains_key(d));
    }
}

/// The type that stands for a variable does not depend on the bound, as
/// long as the rank of the variable is below it.
proof fn lemma_full_var(info: InfoTy, rank: Map<DefId, nat>, d: DefId, name: Seq<char>, bound: nat)
    requires
        ranked_below(info, rank, d, bound),
    ensures
        full_type(info, rank, Ty::Var(d, name), bound) == full_var(info, rank, d),
{
}

/// Without a principal type and without cycles, simplification gives for
/// each term the type with all bounds, whatever it remembers: it never meets
/// a variable that is being rebuilt.
pub proof fn lemma_plain(
    cx: SimplifyCx,
    memo: Memo,
    ty: Ty,
    pol: bool,
    rank: Map<DefId, nat>,
    bound: nat,
)
    requires
        cx.info.vars.dom().finite(),
        !cx.principal,
        acyclic(cx.info, rank),
        vars_below(cx.info, rank, ty, bound),
        memo_done(cx.info, rank, memo, bound),
    ensures
        transform_spec(cx, memo, ty, pol).0 == full_type(cx.info, rank, ty, bound),
        plain_step(cx.info, rank, memo, transform_spec(cx, memo, ty, pol).1, bound),
    decreases memo.pending(cx.info.vars.dom()), ty, 0nat,
{
    let info = cx.info;
    let known = info.vars.dom();
    match ty {
        Ty::Var(v, name) => {
            if !info.vars.contains_key(v) {
            } else if memo.has(v, pol) {
                lemma_full_var(info, rank, v, name, bound);
            } else {
                lemma_full_var(info, rank, v, name, bound);
                let r = rank[v];
                let m0 = memo.put(v, pol, Ty::Any);
                lemma_put_pending(memo, v, pol, Ty::Any, known);
                let lbs = info.vars[v].lbs;
                let ubs = info.vars[v].ubs;
                assert(memo_done(info, rank, m0, r));
                lemma_plain_all(cx, m0, lbs, pol, rank, r, lbs.len());
                let lower = transform_all(cx, m0, lbs, pol, lbs.len());
                lemma_merged(m0, lower.1);
                let m1 = lower.1;
                lemma_merge_pending(m0, lower.1, known);
                lemma_plain_all(cx, m1, ubs, !pol, rank, r, ubs.len());
                let upper = transform_all(cx, m1, ubs, !pol, ubs.len());
                lemma_merged(m1, upper.1);
                let m2 = upper.1;
                lemma_plain_step_trans(info, rank, m0, m1, m2, r);
                let res = bound_type(cx.upper_only(v), lower.0, upper.0);
                assert(res == full_var(info, rank, v));
                let last = m2.put(v, pol, res);
                assert(transform_spec(cx, memo, ty, pol) == (res, last));
                assert(memo.within(last));
                assert(plain_step(info, rank, m0, m2, r));
                assert forall|d: DefId| #[trigger] last.pos.contains_key(d) implies info.vars.contains_key(d)
                    && (ranked_below(info, rank, d, bound) ==> last.pos[d] == full_var(
                    info,
                    rank,
                    d,
                )) by {
                    if d == v && pol {
                    } else {
                        assert(m2.pos.contains_key(d));
                        assert(last.pos[d] == m2.pos[d]);
                        if !ranked_below(info, rank, d, r) {
                            assert(m0.pos.contains_key(d) && m2.pos[d] == m0.pos[d]);
                            assert(memo.pos.contains_key(d) && m0.pos[d] == memo.pos[d]);
                        }
                    }
                }
                assert forall|d: DefId| #[trigger] last.neg.contains_key(d) implies info.vars.contains_key(d)
                    && (ranked_below(info, rank, d, bound) ==> last.neg[d] == full_var(
                    info,
                    rank,
                    d,
                )) by {
                    if d == v && !pol {
                    } else {
                        assert(m2.neg.contains_key(d));
                        assert(last.neg[d] == m2.neg[d]);
                        if !ranked_below(info, rank, d, r) {
                            assert(m0.neg.contains_key(d) && m2.neg[d] == m0.neg[d]);
                            assert(memo.neg.contains_key(d) && m0.neg[d] == memo.neg[d]);
                        }
                    }
                }
                assert forall|d: DefId| #[trigger]
                    last.pos.contains_key(d) && !ranked_below(info, rank, d, bound) implies memo.pos.contains_key(
                    d,
                ) && last.pos[d] == memo.pos[d] by {
                    assert(d != v);
                    assert(m2.pos.contains_key(d));
                    assert(!ranked_below(info, rank, d, r));
                    assert(m0.pos.contains_key(d) && m2.pos[d] == m0.pos[d]);
                }
                assert forall|d: DefId| #[trigger]
                    last.neg.contains_key(d) && !ranked_below(info, rank, d, bound) implies memo.neg.contains_key(
                    d,
                ) && last.neg[d] == memo.neg[d] by {
                    assert(d != v);
                    assert(m2.neg.contains_key(d));
                    assert(!ranked_below(info, rank, d, r));
                    assert(m0.neg.contains_key(d) && m2.neg[d] == m0.neg[d]);
                }
            }
        },
        Ty::Func(sig) => {
            lemma_plain_all(cx, memo, sig.pos, !pol, rank, bound, sig.pos.len());
            let pos = transform_all(cx, memo, sig.pos, !pol, sig.pos.len());
            lemma_merged(memo, pos.1);
            let m1 = pos.1;
            lemma_merge_pending(memo, pos.1, known);
            lemma_plain_named(cx, m1, sig.named, !pol, rank, bound, sig.named.len());
            let named = transform_named(cx, m1, sig.named, !pol, sig.named.len());
            lemma_merged(m1, named.1);
            let m2 = named.1;
            lemma_merge_pending(m1, named.1, known);
            lemma_plain_step_trans(info, rank, memo, m1, m2, bound);
            let m3 = match sig.rest {
                Some(r) => {
                    lemma_plain(cx, m2, *r, !pol, rank, bound);
                    let t = transform_spec(cx, m2, *r, !pol);
                    lemma_merged(m2, t.1);
                    lemma_merge_pending(m2, t.1, known);
                    lemma_plain_step_trans(info, rank, memo, m2, t.1, bound);
                    t.1
                },
                None => m2,
            };
            lemma_plain(cx, m3, *sig.ret, pol, rank, bound);
            let ret = transform_spec(cx, m3, *sig.ret, pol);
            lemma_merged(m3, ret.1);
            lemma_plain_step_trans(info, rank, memo, m3, ret.1, bound);
        },
        Ty::Dict(fields) => {
            lemma_plain_fields(cx, memo, fields, !pol, rank, bound, fields.len());
            lemma_merged(memo, transform_fields(cx, memo, fields, !pol, fields.len()).1);
        },
        Ty::Tuple(s) => {
            lemma_plain_all(cx, memo, s, pol, rank, bound, s.len());
            lemma_merged(memo, transform_all(cx, memo, s, pol, s.len()).1);
        },
        Ty::Array(e) => {
            lemma_plain(cx, memo, *e, pol, rank, bound);
            lemma_merged(memo, transform_spec(cx, memo, *e, pol).1);
        },
        Ty::With(f, bundles) => {
            lemma_plain(cx, memo, *f, pol, rank, bound);
            lemma_merged(memo, transform_spec(cx, memo, *f, pol).1);
        },
        Ty::Args(a) => {
            lemma_plain_all(cx, memo, a.args, pol, rank, bound, a.args.len());
            let args = transform_all(cx, memo, a.args, pol, a.args.len());
            lemma_merged(memo, args.1);
            let m1 = args.1;
            lemma_merge_pending(memo, args.1, known);
            lemma_plain_named(cx, m1, a.named, pol, rank, bound, a.named.len());
            let named = transform_named(cx, m1, a.named, pol, a.named.len());
            lemma_merged(m1, named.1);
            lemma_plain_step_trans(info, rank, memo, m1, named.1, bound);
        },
        Ty::Union(s) => {
            lemma_plain_all(cx, memo, s, pol, rank, bound, s.len());
            lemma_merged(memo, transform_all(cx, memo, s, pol, s.len()).1);
        },
        Ty::Let(lbs, ubs) => {
            lemma_plain_all(cx, memo, lbs, !pol, rank, bound, lbs.len());
            let lower = transform_all(cx, memo, lbs, !pol, lbs.len());
            lemma_merged(memo, lower.1);
            let m1 = lower.1;
            lemma_merge_pending(memo, lower.1, known);
            lemma_plain_all(cx, m1, ubs, pol, rank, bound, ubs.len());
            let upper = transform_all(cx, m1, ubs, pol, ubs.len());
            lemma_merged(m1, upper.1);
            lemma_plain_step_trans(info, rank, memo, m1, upper.1, bound);
        },
        _ => {},
    }
}

/// Without a principal type and without cycles, simplification gives for
/// each term of a list the type with all bounds.
pub proof fn lemma_plain_all(
    cx: SimplifyCx,
    memo: Memo,
    s: Seq<Ty>,
    pol: bool,
    rank: Map<DefId, nat>,
    bound: nat,
    n: nat,
)
    requires
        cx.info.vars.dom().finite(),
        !cx.principal,
        acyclic(cx.info, rank),
        all_below(cx.info, rank, s, bound),
        memo_done(cx.info, rank, memo, bound),
    ensures
        transform_all(cx, memo, s, pol, n).0 == full_types(cx.info, rank, s, bound, n),
        plain_step(cx.info, rank, memo, transform_all(cx, memo, s, pol, n).1, bound),
    decreases memo.pending(cx.info.vars.dom()), s, n,
{
    if n == 0 || n > s.len() {
    } else {
        lemma_plain_all(cx, memo, s, pol, rank, bound, (n - 1) as nat);
        let before = transform_all(cx, memo, s, pol, (n - 1) as nat);
        lemma_merged(memo, before.1);
        lemma_merge_pending(memo, before.1, cx.info.vars.dom());
        lemma_plain(cx, before.1, s[n - 1], pol, rank, bound);
        let t = transform_spec(cx, before.1, s[n - 1], pol);
        lemma_merged(before.1, t.1);
        lemma_plain_step_trans(cx.info, rank, memo, before.1, t.1, bound);
    }
}

/// Without a principal type and without cycles, simplification gives for
/// each named term of a list the type with all bounds.
pub proof fn lemma_plain_named(
    cx: SimplifyCx,
    memo: Memo,
    s: Seq<(Seq<char>, Ty)>,
    pol: bool,
    rank: Map<DefId, nat>,
    bound: nat,
    n: nat,
)
    requires
        cx.info.vars.dom().finite(),
        !cx.principal,
        acyclic(cx.info, rank),
        forall|i: int| 0 <= i < s.len() ==> vars_below(cx.info, rank, (#[trigger] s[i]).1, bound),
        memo_done(cx.info, rank, memo, bound),
    ensures
        transform_named(cx, memo, s, pol, n).0 == full_named(cx.info, rank, s, bound, n),
        plain_step(cx.info, rank, memo, transform_named(cx, memo, s, pol, n).1, bound),
    decreases memo.pending(cx.info.vars.dom()), s, n,
{
    if n == 0 || n > s.len() {
    } else {
        lemma_plain_named(cx, memo, s, pol, rank, bound, (n - 1) as nat);
        let before = transform_named(cx, memo, s, pol, (n - 1) as nat);
        lemma_merged(memo, before.1);
        lemma_merge_pending(memo, before.1, cx.info.vars.dom());
        lemma_plain(cx, before.1, s[n - 1].1, pol, rank, bound);
        let t = transform_spec(cx, before.1, s[n - 1].1, pol);
        lemma_merged(before.1, t.1);
        lemma_plain_step_trans(cx.info, rank, memo, before.1, t.1, bound);
    }
}

/// Without a principal type and without cycles, simplification gives for
/// each field of a list the type with all bounds.
pub proof fn lemma_plain_fields(
    cx: SimplifyCx,
    memo: Memo,
    s: Seq<FieldTy>,
    pol: bool,
    rank: Map<DefId, nat>,
    bound: nat,
    n: nat,
)
    requires
        cx.info.vars.dom().finite(),
        !cx.principal,
        acyclic(cx.info, rank),
        forall|i: int| 0 <= i < s.len() ==> vars_below(cx.info, rank, (#[trigger] s[i]).ty, bound),
        memo_done(cx.info, rank, memo, bound),
    ensures
        transform_fields(cx, memo, s, pol, n).0 == full_fields(cx.info, rank, s, bound, n),
        plain_step(cx.info, rank, memo, transform_fields(cx, memo, s, pol, n).1, bound),
    decreases memo.pending(cx.info.vars.dom()), s, n,
{
    if n == 0 || n > s.len() {
    } else {
        lemma_plain_fields(cx, memo, s, pol, rank, bound, (n - 1) as nat);
        let before = transform_fields(cx, memo, s, pol, (n - 1) as nat);
        lemma_merged(memo, before.1);
        lemma_merge_pending(memo, before.1, cx.info.vars.dom());
        lemma_plain(cx, before.1, s[n - 1].ty, pol, rank, bound);
        let t = transform_spec(cx, before.1, s[n - 1].ty, pol);
        lemma_merged(before.1, t.1);
        lemma_plain_step_trans(cx.info, rank, memo, before.1, t.1, bound);
    }
}

/// Whether the memo remembers known variables only, and of each variable a
/// type that holds no more than the type with all bounds.
pub open spec fn memo_bounded(info: InfoTy, rank: Map<DefId, nat>, memo: Memo) -> bool {
    &&& forall|d: DefId| #[trigger]
        memo.pos.contains_key(d) ==> info.vars.contains_key(d) && holds_no_more(
            memo.pos[d],
            full_var(info, rank, d),
        )
    &&& forall|d: DefId| #[trigger]
        memo.neg.contains_key(d) ==> info.vars.contains_key(d) && holds_no_more(
            memo.neg[d],
            full_var(info, rank, d),
        )
}

/// Whether the terms of `a` hold no more than the terms of `b`, one for
/// one.
pub open spec fn all_hold_no_more(a: Seq<Ty>, b: Seq<Ty>) -> bool {
    a.len() == b.len() && forall|i: int| 0 <= i < a.len() ==> holds_no_more(a[i], #[trigger] b[i])
}

/// The types with all bounds of a list are those of its terms, one for
/// one.
pub proof fn lemma_full_types(info: InfoTy, rank: Map<DefId, nat>, s: Seq<Ty>, bound: nat, n: nat)
    requires
        n <= s.len(),
    ensures
        full_types(info, rank, s, bound, n).len() == n,
        forall|i: int|
            0 <= i < n ==> #[trigger] full_types(info, rank, s, bound, n)[i] == full_type(
                info,
                rank,
                s[i],
                bound,
            ),
    decreases n,
{
    if n > 0 {
        lemma_full_types(info, rank, s, bound, (n - 1) as nat);
    }
}

/// The named terms with all bounds of a list are those of its terms, one
/// for one.
pub proof fn lemma_full_named(
    info: InfoTy,
    rank: Map<DefId, nat>,
    s: Seq<(Seq<char>, Ty)>,
    bound: nat,
    n: nat,
)
    requires
        n <= s.len(),
    ensures
        full_named(info, rank, s, bound, n).len() == n,
        forall|i: int|
            0 <= i < n ==> #[trigger] full_named(info, rank, s, bound, n)[i] == (
                s[i].0,
                full_type(info, rank, s[i].1, bound),
            ),
    decreases n,
{
    if n > 0 {
        lemma_full_named(info, rank, s, bound, (n - 1) as nat);
    }
}

/// The fields with all bounds of a list are those of its fields, one for
/// one.
pub proof fn lemma_full_fields(
    info: InfoTy,
    rank: Map<DefId, nat>,
    s: Seq<FieldTy>,
    bound: nat,
    n: nat,
)
    requires
        n <= s.len(),
    ensures
        full_fields(info, rank, s, bound, n).len() == n,
        forall|i: int|
            0 <= i < n ==> #[trigger] full_fields(info, rank, s, bound, n)[i] == (FieldTy {
                ty: full_type(info, rank, s[i].ty, bound),
                ..s[i]
            }),
    decreases n,
{
    if n > 0 {
        lemma_full_fields(info, rank, s, bound, (n - 1) as nat);
    }
}

/// The type that stands for a variable of which some bounds were left out
/// holds no more than the type that stands for it with all its bounds.
pub proof fn lemma_bound_type_holds_no_more(
    upper_only: bool,
    lower: Seq<Ty>,
    upper: Seq<Ty>,
    lbs: Seq<Ty>,
    ubs: Seq<Ty>,
)
    requires
        lower.len() == 0 || all_hold_no_more(lower, lbs),
        upper.len() == 0 || all_hold_no_more(upper, ubs),
        upper_only ==> lower.len() == 0,
    ensures
        holds_no_more(bound_type(upper_only, lower, upper), bound_type(false, lbs, ubs)),
{
    let a = bound_type(upper_only, lower, upper);
    let b = bound_type(false, lbs, ubs);
    if a is Any {
    } else if upper.len() == 0 {
        if lower.len() == 1 {
            assert(holds_no_more(lower[0], lbs[0]));
        } else {
            assert(a == Ty::Let(lower, upper));
            assert(b == Ty::Let(lbs, ubs));
        }
    } else {
        assert(b == Ty::Let(lbs, ubs));
        if upper_only && lower.len() == 0 && upper.len() == 1 {
            assert(holds_no_more(upper[0], ubs[0]));
        } else {
            assert(a == Ty::Let(lower, upper));
        }
    }
}

/// Whatever simplification remembers, and whether a principal type is
/// asked for or not, it gives for each term a type that holds no more than
/// the type with all bounds.
pub proof fn lemma_bounded(
    cx: SimplifyCx,
    memo: Memo,
    ty: Ty,
    pol: bool,
    rank: Map<DefId, nat>,
    bound: nat,
)
    requires
        cx.info.vars.dom().finite(),
        acyclic(cx.info, rank),
        vars_below(cx.info, rank, ty, bound),
        memo_bounded(cx.info, rank, memo),
    ensures
        holds_no_more(transform_spec(cx, memo, ty, pol).0, full_type(cx.info, rank, ty, bound)),
        memo_bounded(cx.info, rank, transform_spec(cx, memo, ty, pol).1),
        memo.within(transform_spec(cx, memo, ty, pol).1),
    decreases memo.pending(cx.info.vars.dom()), ty, 1nat,
{
    let info = cx.info;
    let known = info.vars.dom();
    match ty {
        Ty::Var(..) => {
            lemma_bounded_var(cx, memo, ty, pol, rank, bound);
        },
        Ty::Func(..) => {
            lemma_bounded_func(cx, memo, ty, pol, rank, bound);
        },
        Ty::Dict(fields) => {
            lemma_bounded_fields(cx, memo, fields, !pol, rank, bound, fields.len());
            let r = transform_fields(cx, memo, fields, !pol, fields.len());
            lemma_merged(memo, r.1);
            lemma_full_fields(info, rank, fields, bound, fields.len());
            let y = full_fields(info, rank, fields, bound, fields.len());
            assert forall|i: int| 0 <= i < r.0.len() implies r.0[i].name == y[i].name
                && r.0[i].span == y[i].span && holds_no_more(r.0[i].ty, (#[trigger] y[i]).ty) by {
                assert(y[i] == (FieldTy {
                    ty: full_type(info, rank, fields[i].ty, bound),
                    ..fields[i]
                }));
            }
        },
        Ty::Tuple(s) => {
            lemma_bounded_all(cx, memo, s, pol, rank, bound, s.len());
            let r = transform_all(cx, memo, s, pol, s.len());
            lemma_merged(memo, r.1);
            lemma_full_types(info, rank, s, bound, s.len());
            let y = full_types(info, rank, s, bound, s.len());
            assert forall|i: int| 0 <= i < r.0.len() implies holds_no_more(
                r.0[i],
                #[trigger] y[i],
            ) by {
                assert(y[i] == full_type(info, rank, s[i], bound));
            }
        },
        Ty::Array(e) => {
            lemma_bounded(cx, memo, *e, pol, rank, bound);
            lemma_merged(memo, transform_spec(cx, memo, *e, pol).1);
        },
        Ty::With(f, bundles) => {
            lemma_bounded(cx, memo, *f, pol, rank, bound);
            lemma_merged(memo, transform_spec(cx, memo, *f, pol).1);
        },
        Ty::Args(..) => {
            lemma_bounded_args(cx, memo, ty, pol, rank, bound);
        },
        Ty::Union(s) => {
            lemma_bounded_all(cx, memo, s, pol, rank, bound, s.len());
            let r = transform_all(cx, memo, s, pol, s.len());
            lemma_merged(memo, r.1);
            lemma_full_types(info, rank, s, bound, s.len());
            let y = full_types(info, rank, s, bound, s.len());
            assert forall|i: int| 0 <= i < r.0.len() implies holds_no_more(
                r.0[i],
                #[trigger] y[i],
            ) by {
                assert(y[i] == full_type(info, rank, s[i], bound));
            }
        },
        Ty::Let(..) => {
            lemma_bounded_let(cx, memo, ty, pol, rank, bound);
        },
        _ => {},
    }
}

/// The same for a term of one shape, stated apart to keep each proof small.
proof fn lemma_bounded_var(
    cx: SimplifyCx,
    memo: Memo,
    ty: Ty,
    pol: bool,
    rank: Map<DefId, nat>,
    bound: nat,
)
    requires
        cx.info.vars.dom().finite(),
        acyclic(cx.info, rank),
        vars_below(cx.info, rank, ty, bound),
        memo_bounded(cx.info, rank, memo),
        ty is Var,
    ensures
        holds_no_more(transform_spec(cx, memo, ty, pol).0, full_type(cx.info, rank, ty, bound)),
        memo_bounded(cx.info, rank, transform_spec(cx, memo, ty, pol).1),
        memo.within(transform_spec(cx, memo, ty, pol).1),
    decreases memo.pending(cx.info.vars.dom()), ty, 0nat,
{
    let info = cx.info;
    let known = info.vars.dom();
    match ty {
        Ty::Var(v, name) => {
            if !info.vars.contains_key(v) {
            } else if memo.has(v, pol) {
                lemma_full_var(info, rank, v, name, bound);
            } else {
                lemma_full_var(info, rank, v, name, bound);
                let r = rank[v];
                let m0 = memo.put(v, pol, Ty::Any);
                lemma_put_pending(memo, v, pol, Ty::Any, known);
                let lbs = info.vars[v].lbs;
                let ubs = info.vars[v].ubs;
                lemma_full_types(info, rank, lbs, r, lbs.len());
                lemma_full_types(info, rank, ubs, r, ubs.len());
                let full_l = full_types(info, rank, lbs, r, lbs.len());
                let full_u = full_types(info, rank, ubs, r, ubs.len());
                let lower = if cx.upper_only(v) {
                    (Seq::<Ty>::empty(), m0)
                } else {
                    transform_all(cx, m0, lbs, pol, lbs.len())
                };
                if !cx.upper_only(v) {
                    lemma_bounded_all(cx, m0, lbs, pol, rank, r, lbs.len());
                }
                lemma_merged(m0, lower.1);
                let m1 = lower.1;
                lemma_merge_pending(m0, lower.1, known);
                let upper = if cx.lower_only(v) {
                    (Seq::<Ty>::empty(), m1)
                } else {
                    transform_all(cx, m1, ubs, !pol, ubs.len())
                };
                if !cx.lower_only(v) {
                    lemma_bounded_all(cx, m1, ubs, !pol, rank, r, ubs.len());
                }
                lemma_merged(m1, upper.1);
                let m2 = upper.1;
                let res = bound_type(cx.upper_only(v), lower.0, upper.0);
                assert(lower.0.len() == 0 || all_hold_no_more(lower.0, full_l)) by {
                    if !cx.upper_only(v) {
                        assert forall|i: int| 0 <= i < lower.0.len() implies holds_no_more(
                            lower.0[i],
                            #[trigger] full_l[i],
                        ) by {
                            assert(full_l[i] == full_type(info, rank, lbs[i], r));
                        }
                    }
                }
                assert(upper.0.len() == 0 || all_hold_no_more(upper.0, full_u)) by {
                    if !cx.lower_only(v) {
                        assert forall|i: int| 0 <= i < upper.0.len() implies holds_no_more(
                            upper.0[i],
                            #[trigger] full_u[i],
                        ) by {
                            assert(full_u[i] == full_type(info, rank, ubs[i], r));
                        }
                    }
                }
                lemma_bound_type_holds_no_more(cx.upper_only(v), lower.0, upper.0, full_l, full_u);
                assert(full_var(info, rank, v) == bound_type(false, full_l, full_u));
                let last = m2.put(v, pol, res);
                assert(transform_spec(cx, memo, ty, pol) == (res, last));
                assert forall|d: DefId| #[trigger] last.pos.contains_key(d) implies info.vars.contains_key(d)
                    && holds_no_more(last.pos[d], full_var(info, rank, d)) by {
                    if d == v && pol {
                    } else {
                        assert(m2.pos.contains_key(d));
                    }
                }
                assert forall|d: DefId| #[trigger] last.neg.contains_key(d) implies info.vars.contains_key(d)
                    && holds_no_more(last.neg[d], full_var(info, rank, d)) by {
                    if d == v && !pol {
                    } else {
                        assert(m2.neg.contains_key(d));
                    }
                }
            }
        },
        _ => {},
    }
}

/// The same for a term of one shape, stated apart to keep each proof small.
proof fn lemma_bounded_func(
    cx: SimplifyCx,
    memo: Memo,
    ty: Ty,
    pol: bool,
    rank: Map<DefId, nat>,
    bound: nat,
)
    requires
        cx.info.vars.dom().finite(),
        acyclic(cx.info, rank),
        vars_below(cx.info, rank, ty, bound),
        memo_bounded(cx.info, rank, memo),
        ty is Func,
    ensures
        holds_no_more(transform_spec(cx, memo, ty, pol).0, full_type(cx.info, rank, ty, bound)),
        memo_bounded(cx.info, rank, transform_spec(cx, memo, ty, pol).1),
        memo.within(transform_spec(cx, memo, ty, pol).1),
    decreases memo.pending(cx.info.vars.dom()), ty, 0nat,
{
    let info = cx.info;
    let known = info.vars.dom();
    match ty {
        Ty::Func(sig) => {
            lemma_bounded_all(cx, memo, sig.pos, !pol, rank, bound, sig.pos.len());
            let pos = transform_all(cx, memo, sig.pos, !pol, sig.pos.len());
            lemma_merged(memo, pos.1);
            let m1 = pos.1;
            lemma_merge_pending(memo, pos.1, known);
            lemma_bounded_named(cx, m1, sig.named, !pol, rank, bound, sig.named.len());
            let named = transform_named(cx, m1, sig.named, !pol, sig.named.len());
            lemma_merged(m1, named.1);
            let m2 = named.1;
            lemma_merge_pending(m1, named.1, known);
            let m3 = match sig.rest {
                Some(r) => {
                    lemma_bounded(cx, m2, *r, !pol, rank, bound);
                    let t = transform_spec(cx, m2, *r, !pol);
                    lemma_merged(m2, t.1);
                    lemma_merge_pending(m2, t.1, known);
                    t.1
                },
                None => m2,
            };
            lemma_bounded(cx, m3, *sig.ret, pol, rank, bound);
            let ret = transform_spec(cx, m3, *sig.ret, pol);
            lemma_merged(m3, ret.1);
            lemma_full_types(info, rank, sig.pos, bound, sig.pos.len());
            lemma_full_named(info, rank, sig.named, bound, sig.named.len());
            let a = transform_spec(cx, memo, ty, pol).0;
            let b = full_type(info, rank, ty, bound);
            assert(a is Func && b is Func);
            let x = a->Func_0;
            let y = b->Func_0;
            assert(x.pos == pos.0);
            assert(x.named == named.0);
            assert forall|i: int| 0 <= i < x.pos.len() implies holds_no_more(
                x.pos[i],
                #[trigger] y.pos[i],
            ) by {
                assert(y.pos[i] == full_type(info, rank, sig.pos[i], bound));
            }
            assert forall|i: int| 0 <= i < x.named.len() implies x.named[i].0 == y.named[i].0
                && holds_no_more(x.named[i].1, (#[trigger] y.named[i]).1) by {
                assert(y.named[i] == (sig.named[i].0, full_type(info, rank, sig.named[i].1, bound)));
            }
        },
        _ => {},
    }
}

/// The same for a term of one shape, stated apart to keep each proof small.
proof fn lemma_bounded_args(
    cx: SimplifyCx,
    memo: Memo,
    ty: Ty,
    pol: bool,
    rank: Map<DefId, nat>,
    bound: nat,
)
    requires
        cx.info.vars.dom().finite(),
        acyclic(cx.info, rank),
        vars_below(cx.info, rank, ty, bound),
        memo_bounded(cx.info, rank, memo),
        ty is Args,
    ensures
        holds_no_more(transform_spec(cx, memo, ty, pol).0, full_type(cx.info, rank, ty, bound)),
        memo_bounded(cx.info, rank, transform_spec(cx, memo, ty, pol).1),
        memo.within(transform_spec(cx, memo, ty, pol).1),
    decreases memo.pending(cx.info.vars.dom()), ty, 0nat,
{
    let info = cx.info;
    let known = info.vars.dom();
    match ty {
        Ty::Args(a) => {
            lemma_bounded_all(cx, memo, a.args, pol, rank, bound, a.args.len());
            let args = transform_all(cx, memo, a.args, pol, a.args.len());
            lemma_merged(memo, args.1);
            let m1 = args.1;
            lemma_merge_pending(memo, args.1, known);
            lemma_bounded_named(cx, m1, a.named, pol, rank, bound, a.named.len());
            let named = transform_named(cx, m1, a.named, pol, a.named.len());
            lemma_merged(m1, named.1);
            lemma_full_types(info, rank, a.args, bound, a.args.len());
            lemma_full_named(info, rank, a.named, bound, a.named.len());
            let y = full_type(info, rank, ty, bound)->Args_0;
            assert forall|i: int| 0 <= i < args.0.len() implies holds_no_more(
                args.0[i],
                #[trigger] y.args[i],
            ) by {
                assert(y.args[i] == full_type(info, rank, a.args[i], bound));
            }
            assert forall|i: int| 0 <= i < named.0.len() implies named.0[i].0 == y.named[i].0
                && holds_no_more(named.0[i].1, (#[trigger] y.named[i]).1) by {
                assert(y.named[i] == (a.named[i].0, full_type(info, rank, a.named[i].1, bound)));
            }
        },
        _ => {},
    }
}

/// The same for a term of one shape, stated apart to keep each proof small.
proof fn lemma_bounded_let(
    cx: SimplifyCx,
    memo: Memo,
    ty: Ty,
    pol: bool,
    rank: Map<DefId, nat>,
    bound: nat,
)
    requires
        cx.info.vars.dom().finite(),
        acyclic(cx.info, rank),
        vars_below(cx.info, rank, ty, bound),
        memo_bounded(cx.info, rank, memo),
        ty is Let,
    ensures
        holds_no_more(transform_spec(cx, memo, ty, pol).0, full_type(cx.info, rank, ty, bound)),
        memo_bounded(cx.info, rank, transform_spec(cx, memo, ty, pol).1),
        memo.within(transform_spec(cx, memo, ty, pol).1),
    decreases memo.pending(cx.info.vars.dom()), ty, 0nat,
{
    let info = cx.info;
    let known = info.vars.dom();
    match ty {
        Ty::Let(lbs, ubs) => {
            lemma_bounded_all(cx, memo, lbs, !pol, rank, bound, lbs.len());
            let lower = transform_all(cx, memo, lbs, !pol, lbs.len());
            lemma_merged(memo, lower.1);
            let m1 = lower.1;
            lemma_merge_pending(memo, lower.1, known);
            lemma_bounded_all(cx, m1, ubs, pol, rank, bound, ubs.len());
            let upper = transform_all(cx, m1, ubs, pol, ubs.len());
            lemma_merged(m1, upper.1);
            lemma_full_types(info, rank, lbs, bound, lbs.len());
            lemma_full_types(info, rank, ubs, bound, ubs.len());
            let fl = full_types(info, rank, lbs, bound, lbs.len());
            let fu = full_types(info, rank, ubs, bound, ubs.len());
            assert forall|i: int| 0 <= i < lower.0.len() implies holds_no_more(
                lower.0[i],
                #[trigger] fl[i],
            ) by {
                assert(fl[i] == full_type(info, rank, lbs[i], bound));
            }
            assert forall|i: int| 0 <= i < upper.0.len() implies holds_no_more(
                upper.0[i],
                #[trigger] fu[i],
            ) by {
                assert(fu[i] == full_type(info, rank, ubs[i], bound));
            }
        },
        _ => {},
    }
}

/// Simplification gives for each term of a list a type that holds no more
/// than the type with all bounds.
pub proof fn lemma_bounded_all(
    cx: SimplifyCx,
    memo: Memo,
    s: Seq<Ty>,
    pol: bool,
    rank: Map<DefId, nat>,
    bound: nat,
    n: nat,
)
    requires
        cx.info.vars.dom().finite(),
        acyclic(cx.info, rank),
        all_below(cx.info, rank, s, bound),
        memo_bounded(cx.info, rank, memo),
        n <= s.len(),
    ensures
        transform_all(cx, memo, s, pol, n).0.len() == n,
        forall|i: int|
            0 <= i < n ==> holds_no_more(
                #[trigger] transform_all(cx, memo, s, pol, n).0[i],
                full_type(cx.info, rank, s[i], bound),
            ),
        memo_bounded(cx.info, rank, transform_all(cx, memo, s, pol, n).1),
        memo.within(transform_all(cx, memo, s, pol, n).1),
    decreases memo.pending(cx.info.vars.dom()), s, n,
{
    if n == 0 {
    } else {
        lemma_bounded_all(cx, memo, s, pol, rank, bound, (n - 1) as nat);
        let before = transform_all(cx, memo, s, pol, (n - 1) as nat);
        lemma_merged(memo, before.1);
        lemma_merge_pending(memo, before.1, cx.info.vars.dom());
        lemma_bounded(cx, before.1, s[n - 1], pol, rank, bound);
        let t = transform_spec(cx, before.1, s[n - 1], pol);
        lemma_merged(before.1, t.1);
        let r = transform_all(cx, memo, s, pol, n);
        assert(r.0 == before.0.push(t.0));
        assert forall|i: int| 0 <= i < n implies holds_no_more(
            #[trigger] r.0[i],
            full_type(cx.info, rank, s[i], bound),
        ) by {
            if i < n - 1 {
                assert(r.0[i] == before.0[i]);
            }
        }
    }
}

/// Simplification gives for each named term of a list a type that holds
/// no more than the type with all bounds, under the same name.
pub proof fn lemma_bounded_named(
    cx: SimplifyCx,
    memo: Memo,
    s: Seq<(Seq<char>, Ty)>,
    pol: bool,
    rank: Map<DefId, nat>,
    bound: nat,
    n: nat,
)
    requires
        cx.info.vars.dom().finite(),
        acyclic(cx.info, rank),
        forall|i: int| 0 <= i < s.len() ==> vars_below(cx.info, rank, (#[trigger] s[i]).1, bound),
        memo_bounded(cx.info, rank, memo),
        n <= s.len(),
    ensures
        transform_named(cx, memo, s, pol, n).0.len() == n,
        forall|i: int|
            0 <= i < n ==> (#[trigger] transform_named(cx, memo, s, pol, n).0[i]).0 == s[i].0
                && holds_no_more(
                transform_named(cx, memo, s, pol, n).0[i].1,
                full_type(cx.info, rank, s[i].1, bound),
            ),
        memo_bounded(cx.info, rank, transform_named(cx, memo, s, pol, n).1),
        memo.within(transform_named(cx, memo, s, pol, n).1),
    decreases memo.pending(cx.info.vars.dom()), s, n,
{
    if n == 0 {
    } else {
        lemma_bounded_named(cx, memo, s, pol, rank, bound, (n - 1) as nat);
        let before = transform_named(cx, memo, s, pol, (n - 1) as nat);
        lemma_merged(memo, before.1);
        lemma_merge_pending(memo, before.1, cx.info.vars.dom());
        lemma_bounded(cx, before.1, s[n - 1].1, pol, rank, bound);
        let t = transform_spec(cx, before.1, s[n - 1].1, pol);
        lemma_merged(before.1, t.1);
        let r = transform_named(cx, memo, s, pol, n);
        assert(r.0 == before.0.push((s[n - 1].0, t.0)));
        assert forall|i: int| 0 <= i < n implies (#[trigger] r.0[i]).0 == s[i].0 && holds_no_more(
            r.0[i].1,
            full_type(cx.info, rank, s[i].1, bound),
        ) by {
            if i < n - 1 {
                assert(r.0[i] == before.0[i]);
            }
        }
    }
}

/// Simplification gives for each field of a list a type that holds no more
/// than the type with all bounds, under the same name and span.
pub proof fn lemma_bounded_fields(
    cx: SimplifyCx,
    memo: Memo,
    s: Seq<FieldTy>,
    pol: bool,
    rank: Map<DefId, nat>,
    bound: nat,
    n: nat,
)
    requires
        cx.info.vars.dom().finite(),
        acyclic(cx.info, rank),
        forall|i: int| 0 <= i < s.len() ==> vars_below(cx.info, rank, (#[trigger] s[i]).ty, bound),
        memo_bounded(cx.info, rank, memo),
        n <= s.len(),
    ensures
        transform_fields(cx, memo, s, pol, n).0.len() == n,
        forall|i: int|
            0 <= i < n ==> (#[trigger] transform_fields(cx, memo, s, pol, n).0[i]).name
                == s[i].name && transform_fields(cx, memo, s, pol, n).0[i].span == s[i].span
                && holds_no_more(
                transform_fields(cx, memo, s, pol, n).0[i].ty,
                full_type(cx.info, rank, s[i].ty, bound),
            ),
        memo_bounded(cx.info, rank, transform_fields(cx, memo, s, pol, n).1),
        memo.within(transform_fields(cx, memo, s, pol, n).1),
    decreases memo.pending(cx.info.vars.dom()), s, n,
{
    if n == 0 {
    } else {
        lemma_bounded_fields(cx, memo, s, pol, rank, bound, (n - 1) as nat);
        let before = transform_fields(cx, memo, s, pol, (n - 1) as nat);
        lemma_merged(memo, before.1);
        lemma_merge_pending(memo, before.1, cx.info.vars.dom());
        lemma_bounded(cx, before.1, s[n - 1].ty, pol, rank, bound);
        let t = transform_spec(cx, before.1, s[n - 1].ty, pol);
        lemma_merged(before.1, t.1);
        let r = transform_fields(cx, memo, s, pol, n);
        assert(r.0 == before.0.push(FieldTy { ty: t.0, ..s[n - 1] }));
        assert forall|i: int| 0 <= i < n implies (#[trigger] r.0[i]).name == s[i].name
            && r.0[i].span == s[i].span && holds_no_more(
            r.0[i].ty,
            full_type(cx.info, rank, s[i].ty, bound),
        ) by {
            if i < n - 1 {
                assert(r.0[i] == before.0[i]);
            }
        }
    }
}

/// The principal type of a term holds no bound that the type with all
/// bounds does not hold, where the bounds of the variables form no cycle:
/// `rank` ranks each variable above the variables in its bounds, and the
/// variables of the term below `bound`.
pub proof fn lemma_principal_holds_no_more(
    info: InfoTy,
    ty: Ty,
    rank: Map<DefId, nat>,
    bound: nat,
)
    requires
        info.wf(),
        acyclic(info, rank),
        vars_below(info, rank, ty, bound),
    ensures
        holds_no_more(simplify_spec(info, ty, true), simplify_spec(info, ty, false)),
{
    let marks = analyze_spec(info, Polarity::empty(), ty, true);
    lemma_plain(SimplifyCx { info, marks, principal: false }, Memo::empty(), ty, true, rank, bound);
    lemma_bounded(SimplifyCx { info, marks, principal: true }, Memo::empty(), ty, true, rank, bound);
}

} // verus!
