//! Turning a type term into a principal type.
//!
//! A first pass marks for each variable whether it occurs in an output
//! position, in an input position or in both. A second pass rebuilds the
//! term and puts the bounds of each variable in its place. Both passes
//! remember what they met, so that variables whose bounds form a cycle are
//! entered once only.

use std::collections::{HashMap, HashSet};
use vstd::prelude::*;
use vstd::std_specs::hash::*;

use crate::syntax::{DefId, Span};
use crate::ty::copy::{clone_args_list, clone_ty};
use crate::ty::def::{
    ArgsTy, FieldTy, FlowArgs, FlowRecord, FlowSignature, FlowType, FlowVarStore, SigTy, Ty,
    args_list_view, args_view, fields_view, named_view, sig_view, tys_view,
};
use crate::ty::info::{InfoTy, TypeCheckInfo, lemma_info_finite};

verus! {

broadcast use vstd::std_specs::hash::group_hash_axioms;

/// For each variable, whether it was met in an output position
/// (`positives`) and whether in an input position (`negatives`).
pub struct Polarity {
    pub positives: Set<DefId>,
    pub negatives: Set<DefId>,
}

impl Polarity {
    /// No variable was met.
    pub open spec fn empty() -> Polarity {
        Polarity { positives: Set::empty(), negatives: Set::empty() }
    }

    /// Whether `d` was met at the polarity `pol`.
    pub open spec fn seen(self, d: DefId, pol: bool) -> bool {
        if pol {
            self.positives.contains(d)
        } else {
            self.negatives.contains(d)
        }
    }

    /// The marks once `d` was met at the polarity `pol`.
    pub open spec fn mark(self, d: DefId, pol: bool) -> Polarity {
        if pol {
            Polarity { positives: self.positives.insert(d), ..self }
        } else {
            Polarity { negatives: self.negatives.insert(d), ..self }
        }
    }

    /// The marks of both.
    pub open spec fn join(self, other: Polarity) -> Polarity {
        Polarity {
            positives: self.positives.union(other.positives),
            negatives: self.negatives.union(other.negatives),
        }
    }

    /// Whether each mark of `self` is a mark of `other`.
    pub open spec fn within(self, other: Polarity) -> bool {
        self.positives.subset_of(other.positives) && self.negatives.subset_of(other.negatives)
    }

    /// How many marks of the variables `known` are still to be made.
    pub open spec fn pending(self, known: Set<DefId>) -> nat {
        known.difference(self.positives).len() + known.difference(self.negatives).len()
    }
}

/// Joining marks leaves no more to be made.
pub proof fn lemma_join_pending(a: Polarity, b: Polarity, known: Set<DefId>)
    requires
        known.finite(),
    ensures
        a.join(b).pending(known) <= a.pending(known),
        a.within(a.join(b)),
{
    vstd::set_lib::lemma_len_subset(
        known.difference(a.join(b).positives),
        known.difference(a.positives),
    );
    vstd::set_lib::lemma_len_subset(
        known.difference(a.join(b).negatives),
        known.difference(a.negatives),
    );
}

/// A new mark of a known variable leaves fewer to be made.
pub proof fn lemma_mark_pending(a: Polarity, d: DefId, pol: bool, known: Set<DefId>)
    requires
        known.finite(),
        known.contains(d),
        !a.seen(d, pol),
    ensures
        a.mark(d, pol).pending(known) < a.pending(known),
{
    if pol {
        known.lemma_set_insert_diff_decreases(a.positives, d);
    } else {
        known.lemma_set_insert_diff_decreases(a.negatives, d);
    }
}

/// The marks after the term `ty` was walked at the polarity `pol`.
///
/// A variable is marked; one that is known and was not marked at `pol`
/// before has its lower bounds walked if `pol` is positive, its upper bounds
/// if not. The parameters of a function and the fields of a dictionary are
/// walked at the opposite polarity, and so are the lower bounds of a `Let`;
/// every other part is walked at `pol`.
pub open spec fn analyze_spec(info: InfoTy, st: Polarity, ty: Ty, pol: bool) -> Polarity
    decreases st.pending(info.vars.dom()), ty, 0nat,
    when info.vars.dom().finite()
{
    match ty {
        Ty::Var(v, _) => {
            if st.seen(v, pol) || !info.vars.contains_key(v) {
                st.mark(v, pol)
            } else {
                let bounds = if pol {
                    info.vars[v].lbs
                } else {
                    info.vars[v].ubs
                };
                proof {
                    lemma_mark_pending(st, v, pol, info.vars.dom());
                }
                analyze_all(info, st.mark(v, pol), bounds, pol, bounds.len())
            }
        },
        Ty::Func(sig) => {
            let s1 = st.join(analyze_all(info, st, sig.pos, !pol, sig.pos.len()));
            proof {
                lemma_join_pending(
                    st,
                    analyze_all(info, st, sig.pos, !pol, sig.pos.len()),
                    info.vars.dom(),
                );
            }
            let s2 = s1.join(analyze_named(info, s1, sig.named, !pol, sig.named.len()));
            proof {
                lemma_join_pending(
                    s1,
                    analyze_named(info, s1, sig.named, !pol, sig.named.len()),
                    info.vars.dom(),
                );
            }
            let s3 = match sig.rest {
                Some(r) => s2.join(analyze_spec(info, s2, *r, !pol)),
                None => s2,
            };
            proof {
                if sig.rest is Some {
                    lemma_join_pending(
                        s2,
                        analyze_spec(info, s2, *sig.rest->0, !pol),
                        info.vars.dom(),
                    );
                }
            }
            analyze_spec(info, s3, *sig.ret, pol)
        },
        Ty::Dict(fields) => analyze_fields(info, st, fields, !pol, fields.len()),
        Ty::Tuple(s) => analyze_all(info, st, s, pol, s.len()),
        Ty::Array(e) => analyze_spec(info, st, *e, pol),
        Ty::With(f, bundles) => {
            let s1 = st.join(analyze_spec(info, st, *f, pol));
            proof {
                lemma_join_pending(st, analyze_spec(info, st, *f, pol), info.vars.dom());
            }
            analyze_bundles(info, s1, bundles, pol, bundles.len())
        },
        Ty::Args(a) => analyze_all(info, st, a.args, pol, a.args.len()),
        Ty::Unary(_, e) => analyze_spec(info, st, *e, pol),
        Ty::Binary(_, l, r) => {
            let s1 = st.join(analyze_spec(info, st, *l, pol));
            proof {
                lemma_join_pending(st, analyze_spec(info, st, *l, pol), info.vars.dom());
            }
            analyze_spec(info, s1, *r, pol)
        },
        Ty::If(c, t, e) => {
            let s1 = st.join(analyze_spec(info, st, *c, pol));
            proof {
                lemma_join_pending(st, analyze_spec(info, st, *c, pol), info.vars.dom());
            }
            let s2 = s1.join(analyze_spec(info, s1, *t, pol));
            proof {
                lemma_join_pending(s1, analyze_spec(info, s1, *t, pol), info.vars.dom());
            }
            analyze_spec(info, s2, *e, pol)
        },
        Ty::Union(s) => analyze_all(info, st, s, pol, s.len()),
        Ty::At(t, _) => analyze_spec(info, st, *t, pol),
        Ty::Let(lbs, ubs) => {
            let s1 = st.join(analyze_all(info, st, lbs, !pol, lbs.len()));
            proof {
                lemma_join_pending(
                    st,
                    analyze_all(info, st, lbs, !pol, lbs.len()),
                    info.vars.dom(),
                );
            }
            analyze_all(info, s1, ubs, pol, ubs.len())
        },
        _ => st,
    }
}

/// The marks after the first `n` terms of `s` were walked.
pub open spec fn analyze_all(info: InfoTy, st: Polarity, s: Seq<Ty>, pol: bool, n: nat) -> Polarity
    decreases st.pending(info.vars.dom()), s, n,
    when info.vars.dom().finite()
{
    if n == 0 || n > s.len() {
        st
    } else {
        let before = st.join(analyze_all(info, st, s, pol, (n - 1) as nat));
        proof {
            lemma_join_pending(
                st,
                analyze_all(info, st, s, pol, (n - 1) as nat),
                info.vars.dom(),
            );
        }
        analyze_spec(info, before, s[n - 1], pol)
    }
}

/// The marks after the types of the first `n` named terms of `s` were
/// walked.
pub open spec fn analyze_named(
    info: InfoTy,
    st: Polarity,
    s: Seq<(Seq<char>, Ty)>,
    pol: bool,
    n: nat,
) -> Polarity
    decreases st.pending(info.vars.dom()), s, n,
    when info.vars.dom().finite()
{
    if n == 0 || n > s.len() {
        st
    } else {
        let before = st.join(analyze_named(info, st, s, pol, (n - 1) as nat));
        proof {
            lemma_join_pending(
                st,
                analyze_named(info, st, s, pol, (n - 1) as nat),
                info.vars.dom(),
            );
        }
        analyze_spec(info, before, s[n - 1].1, pol)
    }
}

/// The marks after the types of the first `n` fields of `s` were walked.
pub open spec fn analyze_fields(
    info: InfoTy,
    st: Polarity,
    s: Seq<FieldTy>,
    pol: bool,
    n: nat,
) -> Polarity
    decreases st.pending(info.vars.dom()), s, n,
    when info.vars.dom().finite()
{
    if n == 0 || n > s.len() {
        st
    } else {
        let before = st.join(analyze_fields(info, st, s, pol, (n - 1) as nat));
        proof {
            lemma_join_pending(
                st,
                analyze_fields(info, st, s, pol, (n - 1) as nat),
                info.vars.dom(),
            );
        }
        analyze_spec(info, before, s[n - 1].ty, pol)
    }
}

/// The marks after the positional arguments of the first `n` bundles of `s`
/// were walked.
pub open spec fn analyze_bundles(
    info: InfoTy,
    st: Polarity,
    s: Seq<ArgsTy>,
    pol: bool,
    n: nat,
) -> Polarity
    decreases st.pending(info.vars.dom()), s, n,
    when info.vars.dom().finite()
{
    if n == 0 || n > s.len() {
        st
    } else {
        let before = st.join(analyze_bundles(info, st, s, pol, (n - 1) as nat));
        proof {
            lemma_join_pending(
                st,
                analyze_bundles(info, st, s, pol, (n - 1) as nat),
                info.vars.dom(),
            );
        }
        analyze_all(info, before, s[n - 1].args, pol, s[n - 1].args.len())
    }
}

/// What the second pass remembers of each variable: the type that stands
/// for it where it is met in an output position (`pos`) and in an input
/// position (`neg`). A variable that is being rebuilt is remembered as `Any`.
pub struct Memo {
    pub pos: Map<DefId, Ty>,
    pub neg: Map<DefId, Ty>,
}

impl Memo {
    /// Nothing is remembered.
    pub open spec fn empty() -> Memo {
        Memo { pos: Map::empty(), neg: Map::empty() }
    }

    /// Whether `d` is remembered at the polarity `pol`.
    pub open spec fn has(self, d: DefId, pol: bool) -> bool {
        if pol {
            self.pos.contains_key(d)
        } else {
            self.neg.contains_key(d)
        }
    }

    /// What is remembered of `d` at the polarity `pol`.
    pub open spec fn get(self, d: DefId, pol: bool) -> Ty {
        if pol {
            self.pos[d]
        } else {
            self.neg[d]
        }
    }

    /// The memo once `t` is remembered of `d` at the polarity `pol`.
    pub open spec fn put(self, d: DefId, pol: bool, t: Ty) -> Memo {
        if pol {
            Memo { pos: self.pos.insert(d, t), ..self }
        } else {
            Memo { neg: self.neg.insert(d, t), ..self }
        }
    }

    /// All that either remembers; where both do, `newer` counts.
    pub open spec fn merge(self, newer: Memo) -> Memo {
        Memo {
            pos: self.pos.union_prefer_right(newer.pos),
            neg: self.neg.union_prefer_right(newer.neg),
        }
    }

    /// Whether `later` remembers every variable that `self` remembers.
    pub open spec fn within(self, later: Memo) -> bool {
        self.pos.dom().subset_of(later.pos.dom()) && self.neg.dom().subset_of(later.neg.dom())
    }

    /// How many of the variables `known` are still to be remembered, counted
    /// once for each polarity.
    pub open spec fn pending(self, known: Set<DefId>) -> nat {
        known.difference(self.pos.dom()).len() + known.difference(self.neg.dom()).len()
    }
}

/// Merging memos leaves no more to be remembered.
pub proof fn lemma_merge_pending(a: Memo, b: Memo, known: Set<DefId>)
    requires
        known.finite(),
    ensures
        a.merge(b).pending(known) <= a.pending(known),
        a.within(a.merge(b)),
{
    vstd::set_lib::lemma_len_subset(
        known.difference(a.merge(b).pos.dom()),
        known.difference(a.pos.dom()),
    );
    vstd::set_lib::lemma_len_subset(
        known.difference(a.merge(b).neg.dom()),
        known.difference(a.neg.dom()),
    );
}

/// Remembering a known variable for the first time leaves fewer to be
/// remembered.
pub proof fn lemma_put_pending(a: Memo, d: DefId, pol: bool, t: Ty, known: Set<DefId>)
    requires
        known.finite(),
        known.contains(d),
        !a.has(d, pol),
    ensures
        a.put(d, pol, t).pending(known) < a.pending(known),
{
    if pol {
        known.lemma_set_insert_diff_decreases(a.pos.dom(), d);
        assert(a.put(d, pol, t).pos.dom() =~= a.pos.dom().insert(d));
    } else {
        known.lemma_set_insert_diff_decreases(a.neg.dom(), d);
        assert(a.put(d, pol, t).neg.dom() =~= a.neg.dom().insert(d));
    }
}

/// What the second pass is given: the result of type checking, the marks of
/// the first pass, and whether a principal type is asked for.
pub struct SimplifyCx {
    pub info: InfoTy,
    pub marks: Polarity,
    pub principal: bool,
}

impl SimplifyCx {
    /// Whether the variable `d` stands for its lower bounds only: a principal
    /// type is asked for, and `d` was not met in an input position.
    pub open spec fn lower_only(self, d: DefId) -> bool {
        self.principal && !self.marks.negatives.contains(d)
    }

    /// Whether the variable `d` stands for its upper bounds only: a principal
    /// type is asked for, and `d` was met in input positions only.
    pub open spec fn upper_only(self, d: DefId) -> bool {
        self.principal && self.marks.negatives.contains(d) && !self.marks.positives.contains(d)
    }
}

/// The type that stands for a variable with the rebuilt bounds `lbs` and
/// `ubs`. Without upper bounds it is `Any` for no lower bound, the lower
/// bound itself for one, and the list of them for more. A single upper bound
/// stands for the variable itself where only the upper bounds are kept. In
/// every other case both lists stand for it.
pub open spec fn bound_type(upper_only: bool, lbs: Seq<Ty>, ubs: Seq<Ty>) -> Ty {
    if ubs.len() == 0 {
        if lbs.len() == 0 {
            Ty::Any
        } else if lbs.len() == 1 {
            lbs[0]
        } else {
            Ty::Let(lbs, ubs)
        }
    } else if upper_only && lbs.len() == 0 && ubs.len() == 1 {
        ubs[0]
    } else {
        Ty::Let(lbs, ubs)
    }
}

/// The term `ty` rebuilt at the polarity `pol`, with what is remembered
/// afterwards.
///
/// A known variable that is remembered at `pol` gives what is remembered.
/// Else it is remembered as `Any`, its lower bounds are rebuilt at `pol` and
/// its upper bounds at the opposite polarity, as far as they are kept (a
/// principal type keeps one side only of a variable that was met in output
/// positions only or in input positions only), and the type that stands for
/// them is remembered in place of `Any`. An unknown
/// variable gives `Any`. The parameters of a function and the fields of a
/// dictionary are rebuilt at the opposite polarity, and so are the lower
/// bounds of a `Let`; its upper bounds are rebuilt at `pol`. Unary, binary
/// and conditional expressions, field accesses and the arguments of a
/// partial application stay as they are.
pub open spec fn transform_spec(cx: SimplifyCx, memo: Memo, ty: Ty, pol: bool) -> (Ty, Memo)
    decreases memo.pending(cx.info.vars.dom()), ty, 0nat,
    when cx.info.vars.dom().finite()
{
    match ty {
        Ty::Var(v, _) => {
            if !cx.info.vars.contains_key(v) {
                (Ty::Any, memo)
            } else if memo.has(v, pol) {
                (memo.get(v, pol), memo)
            } else {
                let m0 = memo.put(v, pol, Ty::Any);
                proof {
                    lemma_put_pending(memo, v, pol, Ty::Any, cx.info.vars.dom());
                }
                let lbs = cx.info.vars[v].lbs;
                let ubs = cx.info.vars[v].ubs;
                let lower = if cx.upper_only(v) {
                    (Seq::<Ty>::empty(), m0)
                } else {
                    transform_all(cx, m0, lbs, pol, lbs.len())
                };
                let m1 = m0.merge(lower.1);
                proof {
                    lemma_merge_pending(m0, lower.1, cx.info.vars.dom());
                }
                let upper = if cx.lower_only(v) {
                    (Seq::<Ty>::empty(), m1)
                } else {
                    transform_all(cx, m1, ubs, !pol, ubs.len())
                };
                let m2 = m1.merge(upper.1);
                let res = bound_type(cx.upper_only(v), lower.0, upper.0);
                (res, m2.put(v, pol, res))
            }
        },
        Ty::Func(sig) => {
            let pos = transform_all(cx, memo, sig.pos, !pol, sig.pos.len());
            let m1 = memo.merge(pos.1);
            proof {
                lemma_merge_pending(memo, pos.1, cx.info.vars.dom());
            }
            let named = transform_named(cx, m1, sig.named, !pol, sig.named.len());
            let m2 = m1.merge(named.1);
            proof {
                lemma_merge_pending(m1, named.1, cx.info.vars.dom());
            }
            let rest = match sig.rest {
                Some(r) => Some(transform_spec(cx, m2, *r, !pol)),
                None => None,
            };
            let m3 = match rest {
                Some(t) => m2.merge(t.1),
                None => m2,
            };
            proof {
                if rest is Some {
                    lemma_merge_pending(m2, rest.unwrap().1, cx.info.vars.dom());
                }
            }
            let ret = transform_spec(cx, m3, *sig.ret, pol);
            (
                Ty::Func(
                    SigTy {
                        pos: pos.0,
                        named: named.0,
                        rest: match rest {
                            Some(t) => Some(Box::new(t.0)),
                            None => None,
                        },
                        ret: Box::new(ret.0),
                    },
                ),
                m3.merge(ret.1),
            )
        },
        Ty::Dict(fields) => {
            let r = transform_fields(cx, memo, fields, !pol, fields.len());
            (Ty::Dict(r.0), memo.merge(r.1))
        },
        Ty::Tuple(s) => {
            let r = transform_all(cx, memo, s, pol, s.len());
            (Ty::Tuple(r.0), memo.merge(r.1))
        },
        Ty::Array(e) => {
            let r = transform_spec(cx, memo, *e, pol);
            (Ty::Array(Box::new(r.0)), memo.merge(r.1))
        },
        Ty::With(f, bundles) => {
            let r = transform_spec(cx, memo, *f, pol);
            (Ty::With(Box::new(r.0), bundles), memo.merge(r.1))
        },
        Ty::Args(a) => {
            let args = transform_all(cx, memo, a.args, pol, a.args.len());
            let m1 = memo.merge(args.1);
            proof {
                lemma_merge_pending(memo, args.1, cx.info.vars.dom());
            }
            let named = transform_named(cx, m1, a.named, pol, a.named.len());
            (Ty::Args(ArgsTy { args: args.0, named: named.0 }), m1.merge(named.1))
        },
        Ty::Union(s) => {
            let r = transform_all(cx, memo, s, pol, s.len());
            (Ty::Union(r.0), memo.merge(r.1))
        },
        Ty::Let(lbs, ubs) => {
            let lower = transform_all(cx, memo, lbs, !pol, lbs.len());
            let m1 = memo.merge(lower.1);
            proof {
                lemma_merge_pending(memo, lower.1, cx.info.vars.dom());
            }
            let upper = transform_all(cx, m1, ubs, pol, ubs.len());
            (Ty::Let(lower.0, upper.0), m1.merge(upper.1))
        },
        _ => (ty, memo),
    }
}

/// The first `n` terms of `s` rebuilt in order, with what is remembered
/// afterwards.
pub open spec fn transform_all(cx: SimplifyCx, memo: Memo, s: Seq<Ty>, pol: bool, n: nat) -> (
    Seq<Ty>,
    Memo,
)
    decreases memo.pending(cx.info.vars.dom()), s, n,
    when cx.info.vars.dom().finite()
{
    if n == 0 || n > s.len() {
        (Seq::empty(), memo)
    } else {
        let before = transform_all(cx, memo, s, pol, (n - 1) as nat);
        let m1 = memo.merge(before.1);
        proof {
            lemma_merge_pending(memo, before.1, cx.info.vars.dom());
        }
        let t = transform_spec(cx, m1, s[n - 1], pol);
        (before.0.push(t.0), m1.merge(t.1))
    }
}

/// The first `n` named terms of `s` with their types rebuilt in order, with
/// what is remembered afterwards.
pub open spec fn transform_named(
    cx: SimplifyCx,
    memo: Memo,
    s: Seq<(Seq<char>, Ty)>,
    pol: bool,
    n: nat,
) -> (Seq<(Seq<char>, Ty)>, Memo)
    decreases memo.pending(cx.info.vars.dom()), s, n,
    when cx.info.vars.dom().finite()
{
    if n == 0 || n > s.len() {
        (Seq::empty(), memo)
    } else {
        let before = transform_named(cx, memo, s, pol, (n - 1) as nat);
        let m1 = memo.merge(before.1);
        proof {
            lemma_merge_pending(memo, before.1, cx.info.vars.dom());
        }
        let t = transform_spec(cx, m1, s[n - 1].1, pol);
        (before.0.push((s[n - 1].0, t.0)), m1.merge(t.1))
    }
}

/// The first `n` fields of `s` with their types rebuilt in order, with what
/// is remembered afterwards.
pub open spec fn transform_fields(
    cx: SimplifyCx,
    memo: Memo,
    s: Seq<FieldTy>,
    pol: bool,
    n: nat,
) -> (Seq<FieldTy>, Memo)
    decreases memo.pending(cx.info.vars.dom()), s, n,
    when cx.info.vars.dom().finite()
{
    if n == 0 || n > s.len() {
        (Seq::empty(), memo)
    } else {
        let before = transform_fields(cx, memo, s, pol, (n - 1) as nat);
        let m1 = memo.merge(before.1);
        proof {
            lemma_merge_pending(memo, before.1, cx.info.vars.dom());
        }
        let t = transform_spec(cx, m1, s[n - 1].ty, pol);
        (before.0.push(FieldTy { ty: t.0, ..s[n - 1] }), m1.merge(t.1))
    }
}

/// The principal type of `ty` if `principal` is set, else the type with all
/// the bounds of its variables: the term is walked in an output position to
/// mark its variables, then rebuilt in an output position with nothing
/// remembered.
pub open spec fn simplify_spec(info: InfoTy, ty: Ty, principal: bool) -> Ty {
    let marks = analyze_spec(info, Polarity::empty(), ty, true);
    transform_spec(SimplifyCx { info, marks, principal }, Memo::empty(), ty, true).0
}

/// Marks that include others leave no more to be made.
pub proof fn lemma_within_pending(a: Polarity, b: Polarity, known: Set<DefId>)
    requires
        known.finite(),
        a.within(b),
    ensures
        b.pending(known) <= a.pending(known),
        a.join(b) == b,
{
    lemma_join_pending(a, b, known);
    assert(a.join(b).positives =~= b.positives);
    assert(a.join(b).negatives =~= b.negatives);
}

/// A memo that remembers what another does leaves no more to be remembered.
pub proof fn lemma_memo_within_pending(a: Memo, b: Memo, known: Set<DefId>)
    requires
        known.finite(),
        a.within(b),
    ensures
        b.pending(known) <= a.pending(known),
        a.merge(b) == b,
{
    lemma_merge_pending(a, b, known);
    assert(a.merge(b).pos =~= b.pos);
    assert(a.merge(b).neg =~= b.neg);
}

/// The worker of one simplification.
pub struct TypeSimplifier<'a> {
    principal: bool,
    info: &'a TypeCheckInfo,
    cano_pos: HashMap<u64, FlowType>,
    cano_neg: HashMap<u64, FlowType>,
    negatives: HashSet<u64>,
    positives: HashSet<u64>,
}

impl<'a> TypeSimplifier<'a> {
    /// The marks made so far.
    pub closed spec fn marks(&self) -> Polarity {
        Polarity {
            positives: Set::new(|d: DefId| self.positives@.contains(d.0)),
            negatives: Set::new(|d: DefId| self.negatives@.contains(d.0)),
        }
    }

    /// What is remembered so far.
    pub closed spec fn memo(&self) -> Memo {
        Memo {
            pos: Map::new(
                |d: DefId| self.cano_pos@.contains_key(d.0),
                |d: DefId| self.cano_pos@[d.0]@,
            ),
            neg: Map::new(
                |d: DefId| self.cano_neg@.contains_key(d.0),
                |d: DefId| self.cano_neg@[d.0]@,
            ),
        }
    }

    /// The result of type checking that is read.
    pub closed spec fn info(&self) -> InfoTy {
        self.info@
    }

    /// Whether a principal type is asked for.
    pub closed spec fn principal(&self) -> bool {
        self.principal
    }

    /// What the second pass is given.
    pub open spec fn cx(&self) -> SimplifyCx {
        SimplifyCx { info: self.info(), marks: self.marks(), principal: self.principal() }
    }

    /// Whether `other` reads the same result and was asked for the same kind
    /// of type.
    pub open spec fn same_task(&self, other: &Self) -> bool {
        self.info() == other.info() && self.principal() == other.principal()
    }

    /// A worker that has marked and remembered nothing.
    pub fn new(info: &'a TypeCheckInfo, principal: bool) -> (r: Self)
        ensures
            r.info() == info@,
            r.principal() == principal,
            r.marks() == Polarity::empty(),
            r.memo() == Memo::empty(),
    {
        let r = TypeSimplifier {
            principal,
            info,
            cano_pos: HashMap::new(),
            cano_neg: HashMap::new(),
            negatives: HashSet::new(),
            positives: HashSet::new(),
        };
        assert(r.marks().positives =~= Set::empty());
        assert(r.marks().negatives =~= Set::empty());
        assert(r.memo().pos =~= Map::empty());
        assert(r.memo().neg =~= Map::empty());
        r
    }

    fn seen(&self, id: DefId, pol: bool) -> (r: bool)
        ensures
            r == self.marks().seen(id, pol),
    {
        if pol {
            self.positives.contains(&id.0)
        } else {
            self.negatives.contains(&id.0)
        }
    }

    fn mark(&mut self, id: DefId, pol: bool)
        ensures
            final(self).marks() == old(self).marks().mark(id, pol),
            final(self).memo() == old(self).memo(),
            final(self).same_task(old(self)),
    {
        if pol {
            self.positives.insert(id.0);
            assert(self.marks().positives =~= old(self).marks().positives.insert(id));
        } else {
            self.negatives.insert(id.0);
            assert(self.marks().negatives =~= old(self).marks().negatives.insert(id));
        }
    }

    /// First pass: marks the variables of `ty`, walked at the polarity `pol`.
    pub fn analyze(&mut self, ty: &FlowType, pol: bool)
        ensures
            final(self).marks() == analyze_spec(old(self).info(), old(self).marks(), ty@, pol),
            old(self).marks().within(final(self).marks()),
            final(self).memo() == old(self).memo(),
            final(self).same_task(old(self)),
        decreases old(self).marks().pending(old(self).info().vars.dom()), ty@, 0nat,
    {
        proof {
            lemma_info_finite(self.info);
        }
        let ghost known = self.info().vars.dom();
        let ghost start = self.marks();
        match ty {
            FlowType::Var(v) => {
                let id = v.0;
                let seen = self.seen(id, pol);
                self.mark(id, pol);
                if !seen {
                    let info = self.info;
                    match info.var(id) {
                        Some(w) => {
                            proof {
                                lemma_mark_pending(start, id, pol, known);
                            }
                            if pol {
                                self.analyze_all(&w.store.lbs, pol);
                            } else {
                                self.analyze_all(&w.store.ubs, pol);
                            }
                        },
                        None => {},
                    }
                }
            },
            FlowType::Func(f) => {
                assert(ty@->Func_0 == sig_view(f));
                assert(ty@->Func_0.pos == tys_view(&f.pos));
                assert(ty@->Func_0.named == named_view(&f.named));
                assert(*ty@->Func_0.ret == f.ret@);
                assert(f.rest matches Some(r) ==> *ty@->Func_0.rest->0 == r@);
                self.analyze_all(&f.pos, !pol);
                proof {
                    lemma_within_pending(start, self.marks(), known);
                }
                let ghost s1 = self.marks();
                self.analyze_named(&f.named, !pol);
                proof {
                    lemma_within_pending(s1, self.marks(), known);
                }
                let ghost s2 = self.marks();
                match &f.rest {
                    Some(r) => {
                        self.analyze(r, !pol);
                        proof {
                            lemma_within_pending(s2, self.marks(), known);
                        }
                    },
                    None => {},
                }
                self.analyze(&f.ret, pol);
            },
            FlowType::Dict(r) => {
                assert(ty@->Dict_0 == fields_view(&r.fields));
                self.analyze_fields(&r.fields, !pol);
            },
            FlowType::Tuple(e) => {
                assert(ty@->Tuple_0 == tys_view(e));
                self.analyze_all(e, pol);
            },
            FlowType::Array(e) => {
                assert(*ty@->Array_0 == e@);
                self.analyze(e, pol);
            },
            FlowType::With(w) => {
                assert(*ty@->With_0 == w.0@);
                assert(ty@->With_1 == args_list_view(&w.1));
                self.analyze(&w.0, pol);
                proof {
                    lemma_within_pending(start, self.marks(), known);
                }
                self.analyze_bundles(&w.1, pol);
            },
            FlowType::Args(args) => {
                assert(ty@->Args_0 == args_view(args));
                assert(ty@->Args_0.args == tys_view(&args.args));
                self.analyze_all(&args.args, pol);
            },
            FlowType::Unary(u) => {
                assert(*ty@->Unary_1 == u@.1);
                self.analyze(u.lhs(), pol);
            },
            FlowType::Binary(b) => {
                let (lhs, rhs) = b.repr();
                assert(*ty@->Binary_1 == lhs@);
                assert(*ty@->Binary_2 == rhs@);
                self.analyze(lhs, pol);
                proof {
                    lemma_within_pending(start, self.marks(), known);
                }
                self.analyze(rhs, pol);
            },
            FlowType::If(i) => {
                assert(*ty@->If_0 == i.cond@);
                assert(*ty@->If_1 == i.then_@);
                assert(*ty@->If_2 == i.else_@);
                self.analyze(&i.cond, pol);
                proof {
                    lemma_within_pending(start, self.marks(), known);
                }
                let ghost s1 = self.marks();
                self.analyze(&i.then_, pol);
                proof {
                    lemma_within_pending(s1, self.marks(), known);
                }
                self.analyze(&i.else_, pol);
            },
            FlowType::Union(v) => {
                assert(ty@->Union_0 == tys_view(v));
                self.analyze_all(v, pol);
            },
            FlowType::At(a) => {
                assert(*ty@->At_0 == a.0.0@);
                self.analyze(&a.0.0, pol);
            },
            FlowType::Let(v) => {
                assert(ty@->Let_0 == tys_view(&v.lbs));
                assert(ty@->Let_1 == tys_view(&v.ubs));
                self.analyze_all(&v.lbs, !pol);
                proof {
                    lemma_within_pending(start, self.marks(), known);
                }
                self.analyze_all(&v.ubs, pol);
            },
            _ => {},
        }
    }

    #[verifier::loop_isolation(false)]
    fn analyze_all(&mut self, s: &Vec<FlowType>, pol: bool)
        ensures
            final(self).marks() == analyze_all(
                old(self).info(),
                old(self).marks(),
                tys_view(s),
                pol,
                s.len() as nat,
            ),
            old(self).marks().within(final(self).marks()),
            final(self).memo() == old(self).memo(),
            final(self).same_task(old(self)),
        decreases old(self).marks().pending(old(self).info().vars.dom()), tys_view(s), s.len(),
    {
        proof {
            lemma_info_finite(self.info);
        }
        let ghost known = self.info().vars.dom();
        let ghost start = self.marks();
        let mut i: usize = 0;
        while i < s.len()
            invariant
                i <= s.len(),
                self.marks() == analyze_all(old(self).info(), start, tys_view(s), pol, i as nat),
                start.within(self.marks()),
                self.memo() == old(self).memo(),
                self.same_task(old(self)),
            decreases s.len() - i,
        {
            proof {
                lemma_within_pending(start, self.marks(), known);
                assert(tys_view(s)[i as int] == s[i as int]@);
            }
            self.analyze(&s[i], pol);
            i += 1;
        }
    }

    #[verifier::loop_isolation(false)]
    fn analyze_named(&mut self, s: &Vec<(String, FlowType)>, pol: bool)
        ensures
            final(self).marks() == analyze_named(
                old(self).info(),
                old(self).marks(),
                named_view(s),
                pol,
                s.len() as nat,
            ),
            old(self).marks().within(final(self).marks()),
            final(self).memo() == old(self).memo(),
            final(self).same_task(old(self)),
        decreases old(self).marks().pending(old(self).info().vars.dom()), named_view(s), s.len(),
    {
        proof {
            lemma_info_finite(self.info);
        }
        let ghost known = self.info().vars.dom();
        let ghost start = self.marks();
        let mut i: usize = 0;
        while i < s.len()
            invariant
                i <= s.len(),
                self.marks() == analyze_named(
                    old(self).info(),
                    start,
                    named_view(s),
                    pol,
                    i as nat,
                ),
                start.within(self.marks()),
                self.memo() == old(self).memo(),
                self.same_task(old(self)),
            decreases s.len() - i,
        {
            proof {
                lemma_within_pending(start, self.marks(), known);
                assert(named_view(s)[i as int].1 == s[i as int].1@);
            }
            self.analyze(&s[i].1, pol);
            i += 1;
        }
    }

    #[verifier::loop_isolation(false)]
    fn analyze_fields(&mut self, s: &Vec<(String, FlowType, Span)>, pol: bool)
        ensures
            final(self).marks() == analyze_fields(
                old(self).info(),
                old(self).marks(),
                fields_view(s),
                pol,
                s.len() as nat,
            ),
            old(self).marks().within(final(self).marks()),
            final(self).memo() == old(self).memo(),
            final(self).same_task(old(self)),
        decreases old(self).marks().pending(old(self).info().vars.dom()), fields_view(s), s.len(),
    {
        proof {
            lemma_info_finite(self.info);
        }
        let ghost known = self.info().vars.dom();
        let ghost start = self.marks();
        let mut i: usize = 0;
        while i < s.len()
            invariant
                i <= s.len(),
                self.marks() == analyze_fields(
                    old(self).info(),
                    start,
                    fields_view(s),
                    pol,
                    i as nat,
                ),
                start.within(self.marks()),
                self.memo() == old(self).memo(),
                self.same_task(old(self)),
            decreases s.len() - i,
        {
            proof {
                lemma_within_pending(start, self.marks(), known);
                assert(fields_view(s)[i as int].ty == s[i as int].1@);
            }
            self.analyze(&s[i].1, pol);
            i += 1;
        }
    }

    #[verifier::loop_isolation(false)]
    fn analyze_bundles(&mut self, s: &Vec<FlowArgs>, pol: bool)
        ensures
            final(self).marks() == analyze_bundles(
                old(self).info(),
                old(self).marks(),
                args_list_view(s),
                pol,
                s.len() as nat,
            ),
            old(self).marks().within(final(self).marks()),
            final(self).memo() == old(self).memo(),
            final(self).same_task(old(self)),
        decreases old(self).marks().pending(old(self).info().vars.dom()),
            args_list_view(s),
            s.len(),
    {
        proof {
            lemma_info_finite(self.info);
        }
        let ghost known = self.info().vars.dom();
        let ghost start = self.marks();
        let mut i: usize = 0;
        while i < s.len()
            invariant
                i <= s.len(),
                self.marks() == analyze_bundles(
                    old(self).info(),
                    start,
                    args_list_view(s),
                    pol,
                    i as nat,
                ),
                start.within(self.marks()),
                self.memo() == old(self).memo(),
                self.same_task(old(self)),
            decreases s.len() - i,
        {
            proof {
                lemma_within_pending(start, self.marks(), known);
                assert(args_list_view(s)[i as int] == args_view(&s[i as int]));
                assert(args_list_view(s)[i as int].args == tys_view(&s[i as int].args));
            }
            self.analyze_all(&s[i].args, pol);
            i += 1;
        }
    }
}

/// The type that stands for a variable with the rebuilt bounds `lbs` and
/// `ubs`.
fn bound(upper_only: bool, lbs: Vec<FlowType>, ubs: Vec<FlowType>) -> (r: FlowType)
    ensures
        r@ == bound_type(upper_only, tys_view(&lbs), tys_view(&ubs)),
{
    let mut lbs = lbs;
    let mut ubs = ubs;
    let ghost l = tys_view(&lbs);
    let ghost u = tys_view(&ubs);
    if ubs.len() == 0 {
        if lbs.len() == 0 {
            return FlowType::Any;
        }
        if lbs.len() == 1 {
            match lbs.pop() {
                Some(t) => {
                    assert(t@ == l[0]);
                    return t;
                },
                None => {},
            }
        }
    } else if upper_only && lbs.len() == 0 && ubs.len() == 1 {
        match ubs.pop() {
            Some(t) => {
                assert(t@ == u[0]);
                return t;
            },
            None => {},
        }
    }
    FlowType::Let(Box::new(FlowVarStore { lbs, ubs }))
}

impl<'a> TypeSimplifier<'a> {
    fn recall(&self, id: DefId, pol: bool) -> (r: Option<FlowType>)
        ensures
            r is Some <==> self.memo().has(id, pol),
            r matches Some(t) ==> t@ == self.memo().get(id, pol),
    {
        let found = if pol {
            self.cano_pos.get(&id.0)
        } else {
            self.cano_neg.get(&id.0)
        };
        match found {
            Some(t) => Some(clone_ty(t)),
            None => None,
        }
    }

    fn remember(&mut self, id: DefId, pol: bool, ty: FlowType)
        ensures
            final(self).memo() == old(self).memo().put(id, pol, ty@),
            final(self).marks() == old(self).marks(),
            final(self).same_task(old(self)),
    {
        if pol {
            self.cano_pos.insert(id.0, ty);
            assert(self.memo().pos =~= old(self).memo().pos.insert(id, ty@));
        } else {
            self.cano_neg.insert(id.0, ty);
            assert(self.memo().neg =~= old(self).memo().neg.insert(id, ty@));
        }
    }

    fn lower_only(&self, id: DefId) -> (r: bool)
        ensures
            r == self.cx().lower_only(id),
    {
        self.principal && !self.negatives.contains(&id.0)
    }

    fn upper_only(&self, id: DefId) -> (r: bool)
        ensures
            r == self.cx().upper_only(id),
    {
        self.principal && self.negatives.contains(&id.0) && !self.positives.contains(&id.0)
    }

    /// Second pass: rebuilds `ty` at the polarity `pol`.
    pub fn transform(&mut self, ty: &FlowType, pol: bool) -> (r: FlowType)
        ensures
            (r@, final(self).memo()) == transform_spec(old(self).cx(), old(self).memo(), ty@, pol),
            old(self).memo().within(final(self).memo()),
            final(self).marks() == old(self).marks(),
            final(self).same_task(old(self)),
        decreases old(self).memo().pending(old(self).info().vars.dom()), ty@, 1nat,
    {
        proof {
            lemma_info_finite(self.info);
        }
        let ghost known = self.info().vars.dom();
        let ghost start = self.memo();
        match ty {
            FlowType::Var(_) => self.transform_var(ty, pol),
            FlowType::Func(_) => self.transform_func(ty, pol),
            FlowType::Args(_) => self.transform_args(ty, pol),
            FlowType::Dict(r) => {
                assert(ty@->Dict_0 == fields_view(&r.fields));
                let fields = self.transform_fields(&r.fields, !pol);
                proof {
                    lemma_memo_within_pending(start, self.memo(), known);
                }
                FlowType::Dict(FlowRecord { fields })
            },
            FlowType::Tuple(e) => {
                assert(ty@->Tuple_0 == tys_view(e));
                let e2 = self.transform_all(e, pol);
                proof {
                    lemma_memo_within_pending(start, self.memo(), known);
                }
                FlowType::Tuple(e2)
            },
            FlowType::Array(e) => {
                assert(*ty@->Array_0 == e@);
                let e2 = self.transform(e, pol);
                proof {
                    lemma_memo_within_pending(start, self.memo(), known);
                }
                FlowType::Array(Box::new(e2))
            },
            FlowType::With(w) => {
                assert(*ty@->With_0 == w.0@);
                assert(ty@->With_1 == args_list_view(&w.1));
                let primary = self.transform(&w.0, pol);
                proof {
                    lemma_memo_within_pending(start, self.memo(), known);
                }
                FlowType::With(Box::new((primary, clone_args_list(&w.1))))
            },
            FlowType::Union(v) => {
                assert(ty@->Union_0 == tys_view(v));
                let v2 = self.transform_all(v, pol);
                proof {
                    lemma_memo_within_pending(start, self.memo(), known);
                }
                FlowType::Union(Box::new(v2))
            },
            FlowType::Let(v) => {
                assert(ty@->Let_0 == tys_view(&v.lbs));
                assert(ty@->Let_1 == tys_view(&v.ubs));
                let lbs = self.transform_all(&v.lbs, !pol);
                let ghost m1 = self.memo();
                proof {
                    lemma_memo_within_pending(start, m1, known);
                }
                let ubs = self.transform_all(&v.ubs, pol);
                proof {
                    lemma_memo_within_pending(m1, self.memo(), known);
                }
                FlowType::Let(Box::new(FlowVarStore { lbs, ubs }))
            },
            _ => clone_ty(ty),
        }
    }

    fn transform_var(&mut self, ty: &FlowType, pol: bool) -> (r: FlowType)
        requires
            ty@ is Var,
        ensures
            (r@, final(self).memo()) == transform_spec(old(self).cx(), old(self).memo(), ty@, pol),
            old(self).memo().within(final(self).memo()),
            final(self).marks() == old(self).marks(),
            final(self).same_task(old(self)),
        decreases old(self).memo().pending(old(self).info().vars.dom()), ty@, 0nat,
    {
        proof {
            lemma_info_finite(self.info);
        }
        let ghost known = self.info().vars.dom();
        let ghost start = self.memo();
        match ty {
            FlowType::Var(v) => {
                let id = v.0;
                let info = self.info;
                match info.var(id) {
                    None => FlowType::Any,
                    Some(w) => {
                        match self.recall(id, pol) {
                            Some(t) => {
                                return t;
                            },
                            None => {},
                        }
                        self.remember(id, pol, FlowType::Any);
                        let ghost m0 = self.memo();
                        proof {
                            lemma_put_pending(start, id, pol, Ty::Any, known);
                        }
                        let lower_only = self.lower_only(id);
                        let upper_only = self.upper_only(id);
                        let lbs = if upper_only {
                            let e: Vec<FlowType> = Vec::new();
                            assert(tys_view(&e) =~= Seq::<Ty>::empty());
                            e
                        } else {
                            self.transform_all(&w.store.lbs, pol)
                        };
                        let ghost m1 = self.memo();
                        proof {
                            lemma_memo_within_pending(m0, m1, known);
                        }
                        let ubs = if lower_only {
                            let e: Vec<FlowType> = Vec::new();
                            assert(tys_view(&e) =~= Seq::<Ty>::empty());
                            e
                        } else {
                            self.transform_all(&w.store.ubs, !pol)
                        };
                        let ghost m2 = self.memo();
                        proof {
                            lemma_memo_within_pending(m1, m2, known);
                        }
                        let res = bound(upper_only, lbs, ubs);
                        self.remember(id, pol, clone_ty(&res));
                        res
                    },
                }
            },
            _ => FlowType::Any,
        }
    }

    fn transform_func(&mut self, ty: &FlowType, pol: bool) -> (r: FlowType)
        requires
            ty@ is Func,
        ensures
            (r@, final(self).memo()) == transform_spec(old(self).cx(), old(self).memo(), ty@, pol),
            old(self).memo().within(final(self).memo()),
            final(self).marks() == old(self).marks(),
            final(self).same_task(old(self)),
        decreases old(self).memo().pending(old(self).info().vars.dom()), ty@, 0nat,
    {
        proof {
            lemma_info_finite(self.info);
        }
        let ghost known = self.info().vars.dom();
        let ghost start = self.memo();
        match ty {
            FlowType::Func(f) => {
                assert(ty@->Func_0 == sig_view(f));
                assert(ty@->Func_0.pos == tys_view(&f.pos));
                assert(ty@->Func_0.named == named_view(&f.named));
                assert(*ty@->Func_0.ret == f.ret@);
                assert(f.rest matches Some(r) ==> *ty@->Func_0.rest->0 == r@);
                let pos = self.transform_all(&f.pos, !pol);
                let ghost m1 = self.memo();
                proof {
                    lemma_memo_within_pending(start, m1, known);
                }
                let named = self.transform_named(&f.named, !pol);
                let ghost m2 = self.memo();
                proof {
                    lemma_memo_within_pending(m1, m2, known);
                }
                let rest = match &f.rest {
                    Some(r) => Some(self.transform(r, !pol)),
                    None => None,
                };
                let ghost m3 = self.memo();
                proof {
                    lemma_memo_within_pending(m2, m3, known);
                }
                let ret = self.transform(&f.ret, pol);
                proof {
                    lemma_memo_within_pending(m3, self.memo(), known);
                }
                let sig = FlowSignature { pos, named, rest, ret };
                let ghost spec = transform_spec(old(self).cx(), start, ty@, pol);
                assert(spec.0 is Func);
                assert(sig_view(&sig).pos == spec.0->Func_0.pos);
                assert(sig_view(&sig).named == spec.0->Func_0.named);
                assert(sig_view(&sig).ret == spec.0->Func_0.ret);
                assert(sig_view(&sig).rest == spec.0->Func_0.rest);
                assert(self.memo() == spec.1);
                FlowType::Func(Box::new(sig))
            },
            _ => FlowType::Any,
        }
    }

    fn transform_args(&mut self, ty: &FlowType, pol: bool) -> (r: FlowType)
        requires
            ty@ is Args,
        ensures
            (r@, final(self).memo()) == transform_spec(old(self).cx(), old(self).memo(), ty@, pol),
            old(self).memo().within(final(self).memo()),
            final(self).marks() == old(self).marks(),
            final(self).same_task(old(self)),
        decreases old(self).memo().pending(old(self).info().vars.dom()), ty@, 0nat,
    {
        proof {
            lemma_info_finite(self.info);
        }
        let ghost known = self.info().vars.dom();
        let ghost start = self.memo();
        match ty {
            FlowType::Args(args) => {
                assert(ty@->Args_0 == args_view(args));
                assert(ty@->Args_0.args == tys_view(&args.args));
                assert(ty@->Args_0.named == named_view(&args.named));
                let args_res = self.transform_all(&args.args, pol);
                let ghost m1 = self.memo();
                proof {
                    lemma_memo_within_pending(start, m1, known);
                }
                let named = self.transform_named(&args.named, pol);
                proof {
                    lemma_memo_within_pending(m1, self.memo(), known);
                }
                let bundle = FlowArgs { args: args_res, named };
                let ghost spec = transform_spec(old(self).cx(), start, ty@, pol);
                assert(spec.0 is Args);
                assert(args_view(&bundle).args == spec.0->Args_0.args);
                assert(args_view(&bundle).named == spec.0->Args_0.named);
                assert(self.memo() == spec.1);
                FlowType::Args(Box::new(bundle))
            },
            _ => FlowType::Any,
        }
    }

    #[verifier::loop_isolation(false)]
    fn transform_all(&mut self, s: &Vec<FlowType>, pol: bool) -> (r: Vec<FlowType>)
        ensures
            (tys_view(&r), final(self).memo()) == transform_all(
                old(self).cx(),
                old(self).memo(),
                tys_view(s),
                pol,
                s.len() as nat,
            ),
            old(self).memo().within(final(self).memo()),
            final(self).marks() == old(self).marks(),
            final(self).same_task(old(self)),
        decreases old(self).memo().pending(old(self).info().vars.dom()), tys_view(s), s.len(),
    {
        proof {
            lemma_info_finite(self.info);
        }
        let ghost known = self.info().vars.dom();
        let ghost start = self.memo();
        let ghost cx = self.cx();
        let mut out: Vec<FlowType> = Vec::new();
        let mut i: usize = 0;
        assert(tys_view(&out) =~= Seq::<Ty>::empty());
        while i < s.len()
            invariant
                i <= s.len(),
                (tys_view(&out), self.memo()) == transform_all(
                    cx,
                    start,
                    tys_view(s),
                    pol,
                    i as nat,
                ),
                start.within(self.memo()),
                self.marks() == old(self).marks(),
                self.same_task(old(self)),
            decreases s.len() - i,
        {
            let ghost before = tys_view(&out);
            let ghost m1 = self.memo();
            proof {
                lemma_memo_within_pending(start, m1, known);
                assert(tys_view(s)[i as int] == s[i as int]@);
            }
            let t = self.transform(&s[i], pol);
            proof {
                lemma_memo_within_pending(m1, self.memo(), known);
            }
            out.push(t);
            assert(tys_view(&out) =~= before.push(t@));
            i += 1;
        }
        out
    }

    #[verifier::loop_isolation(false)]
    fn transform_named(&mut self, s: &Vec<(String, FlowType)>, pol: bool) -> (r: Vec<
        (String, FlowType),
    >)
        ensures
            (named_view(&r), final(self).memo()) == transform_named(
                old(self).cx(),
                old(self).memo(),
                named_view(s),
                pol,
                s.len() as nat,
            ),
            old(self).memo().within(final(self).memo()),
            final(self).marks() == old(self).marks(),
            final(self).same_task(old(self)),
        decreases old(self).memo().pending(old(self).info().vars.dom()), named_view(s), s.len(),
    {
        proof {
            lemma_info_finite(self.info);
        }
        let ghost known = self.info().vars.dom();
        let ghost start = self.memo();
        let ghost cx = self.cx();
        let mut out: Vec<(String, FlowType)> = Vec::new();
        let mut i: usize = 0;
        assert(named_view(&out) =~= Seq::<(Seq<char>, Ty)>::empty());
        while i < s.len()
            invariant
                i <= s.len(),
                (named_view(&out), self.memo()) == transform_named(
                    cx,
                    start,
                    named_view(s),
                    pol,
                    i as nat,
                ),
                start.within(self.memo()),
                self.marks() == old(self).marks(),
                self.same_task(old(self)),
            decreases s.len() - i,
        {
            let ghost before = named_view(&out);
            let ghost m1 = self.memo();
            proof {
                lemma_memo_within_pending(start, m1, known);
                assert(named_view(s)[i as int].0 == s[i as int].0@);
                assert(named_view(s)[i as int].1 == s[i as int].1@);
            }
            let t = self.transform(&s[i].1, pol);
            proof {
                lemma_memo_within_pending(m1, self.memo(), known);
            }
            out.push((s[i].0.clone(), t));
            assert(named_view(&out) =~= before.push((s[i as int].0@, t@)));
            i += 1;
        }
        out
    }

    #[verifier::loop_isolation(false)]
    fn transform_fields(&mut self, s: &Vec<(String, FlowType, Span)>, pol: bool) -> (r: Vec<
        (String, FlowType, Span),
    >)
        ensures
            (fields_view(&r), final(self).memo()) == transform_fields(
                old(self).cx(),
                old(self).memo(),
                fields_view(s),
                pol,
                s.len() as nat,
            ),
            old(self).memo().within(final(self).memo()),
            final(self).marks() == old(self).marks(),
            final(self).same_task(old(self)),
        decreases old(self).memo().pending(old(self).info().vars.dom()), fields_view(s), s.len(),
    {
        proof {
            lemma_info_finite(self.info);
        }
        let ghost known = self.info().vars.dom();
        let ghost start = self.memo();
        let ghost cx = self.cx();
        let mut out: Vec<(String, FlowType, Span)> = Vec::new();
        let mut i: usize = 0;
        assert(fields_view(&out) =~= Seq::<FieldTy>::empty());
        while i < s.len()
            invariant
                i <= s.len(),
                (fields_view(&out), self.memo()) == transform_fields(
                    cx,
                    start,
                    fields_view(s),
                    pol,
                    i as nat,
                ),
                start.within(self.memo()),
                self.marks() == old(self).marks(),
                self.same_task(old(self)),
            decreases s.len() - i,
        {
            let ghost before = fields_view(&out);
            let ghost m1 = self.memo();
            proof {
                lemma_memo_within_pending(start, m1, known);
                assert(fields_view(s)[i as int].ty == s[i as int].1@);
            }
            let t = self.transform(&s[i].1, pol);
            proof {
                lemma_memo_within_pending(m1, self.memo(), known);
            }
            out.push((s[i].0.clone(), t, s[i].2));
            assert(fields_view(&out) =~= before.push(
                FieldTy { ty: t@, ..fields_view(s)[i as int] },
            ));
            i += 1;
        }
        out
    }

    /// Marks the variables of `ty`, then rebuilds it.
    pub fn simplify(&mut self, ty: FlowType) -> (r: FlowType)
        requires
            old(self).marks() == Polarity::empty(),
            old(self).memo() == Memo::empty(),
        ensures
            r@ == simplify_spec(old(self).info(), ty@, old(self).principal()),
    {
        self.analyze(&ty, true);
        self.transform(&ty, true)
    }
}

impl TypeCheckInfo {
    /// The principal type of `ty` if `principal` is set, else the type with
    /// all the bounds of its variables.
    pub fn simplify(&self, ty: FlowType, principal: bool) -> (r: FlowType)
        ensures
            r@ == simplify_spec(self@, ty@, principal),
    {
        let mut worker = TypeSimplifier::new(self, principal);
        worker.simplify(ty)
    }
}

} // verus!
