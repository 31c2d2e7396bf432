//! Posting subtype constraints.

use vstd::prelude::*;

use crate::syntax::Span;
use crate::ty::builtin::{
    FlowBuiltinType, canonical_dict, canonical_field, canonical_fields, dash_array, dash_names,
    is_dict_alias, str_ty, stroke_fields,
};
use crate::ty::def::{FieldTy, FlowRecord, FlowType, Ty, tys_view};
use crate::ty::info::{
    InfoTy, TypeCheckInfo, lemma_lower_posts, lemma_posts_trans, lemma_record_if_absent_posts,
    lemma_upper_posts,
};
use crate::ty::record::{intersect_keys_spec, lemma_intersect_keys, pairs_view};

verus! {

/// How many aliases of a structural dictionary stand in `t` where a
/// constraint can reach them: at `t` itself, in the members of a union and in
/// the fields of a dictionary.
pub open spec fn aliases(t: Ty) -> nat
    decreases t, 0nat,
{
    match t {
        Ty::Builtin(b) => if is_dict_alias(b) {
            1
        } else {
            0
        },
        Ty::Union(s) => member_aliases(s, s.len()),
        Ty::Dict(fs) => field_aliases(fs, fs.len()),
        _ => 0,
    }
}

/// The aliases in the first `n` terms of `s`.
pub open spec fn member_aliases(s: Seq<Ty>, n: nat) -> nat
    decreases s, n,
{
    if n == 0 || n > s.len() {
        0
    } else {
        member_aliases(s, (n - 1) as nat) + aliases(s[n - 1])
    }
}

/// The aliases in the types of the first `n` fields of `fs`.
pub open spec fn field_aliases(fs: Seq<FieldTy>, n: nat) -> nat
    decreases fs, n,
{
    if n == 0 || n > fs.len() {
        0
    } else {
        field_aliases(fs, (n - 1) as nat) + aliases(fs[n - 1].ty)
    }
}

/// A member of a union holds no more aliases than the union.
pub proof fn lemma_member_aliases(s: Seq<Ty>, n: nat, i: int)
    requires
        0 <= i < n <= s.len(),
    ensures
        aliases(s[i]) <= member_aliases(s, n),
    decreases n,
{
    if i < n - 1 {
        lemma_member_aliases(s, (n - 1) as nat, i);
    }
}

/// The type of a field holds no more aliases than the dictionary.
pub proof fn lemma_field_aliases(fs: Seq<FieldTy>, n: nat, i: int)
    requires
        0 <= i < n <= fs.len(),
    ensures
        aliases(fs[i].ty) <= field_aliases(fs, n),
    decreases n,
{
    if i < n - 1 {
        lemma_field_aliases(fs, (n - 1) as nat, i);
    }
}

/// Terms of which none holds an alias hold none together.
pub proof fn lemma_no_member_aliases(s: Seq<Ty>, n: nat)
    requires
        n <= s.len(),
        forall|i: int| 0 <= i < s.len() ==> aliases(#[trigger] s[i]) == 0,
    ensures
        member_aliases(s, n) == 0,
    decreases n,
{
    if n > 0 {
        lemma_no_member_aliases(s, (n - 1) as nat);
    }
}

/// Fields of which none holds an alias hold none together.
pub proof fn lemma_no_field_aliases(fs: Seq<FieldTy>, n: nat)
    requires
        n <= fs.len(),
        forall|i: int| 0 <= i < fs.len() ==> aliases((#[trigger] fs[i]).ty) == 0,
    ensures
        field_aliases(fs, n) == 0,
    decreases n,
{
    if n > 0 {
        lemma_no_field_aliases(fs, (n - 1) as nat);
    }
}

proof fn lemma_stroke_alias_free()
    ensures
        forall|i: int| 0 <= i < stroke_fields().len() ==> aliases((#[trigger] stroke_fields()[i]).ty) == 0,
{
    let cap = seq![str_ty("butt"@), str_ty("round"@), str_ty("square"@)];
    lemma_no_member_aliases(cap, cap.len());
    let join = seq![str_ty("miter"@), str_ty("round"@), str_ty("bevel"@)];
    lemma_no_member_aliases(join, join.len());
    let pattern = seq![
        canonical_field("array"@, dash_array()),
        canonical_field("phase"@, Ty::Builtin(FlowBuiltinType::Length)),
    ];
    lemma_no_field_aliases(pattern, pattern.len());
    let names = dash_names();
    assert forall|i: int| 0 <= i < names.len() implies aliases(#[trigger] names[i]) == 0 by {
        assert(names[i] is Value);
    }
    let dash = names.push(dash_array()).push(Ty::Dict(pattern));
    assert forall|i: int| 0 <= i < dash.len() implies aliases(#[trigger] dash[i]) == 0 by {
        if i < names.len() {
            assert(dash[i] == names[i]);
        }
    }
    lemma_no_member_aliases(dash, dash.len());
    let fields = stroke_fields();
    assert forall|i: int| 0 <= i < fields.len() implies aliases((#[trigger] fields[i]).ty)
        == 0 by {
        if i == 0 {
        } else if i == 1 {
        } else if i == 2 {
            assert(fields[i].ty == Ty::Union(cap));
        } else if i == 3 {
            assert(fields[i].ty == Ty::Union(join));
        } else if i == 4 {
            assert(fields[i].ty == Ty::Union(dash));
        } else {
        }
    }
}

/// No canonical shape holds an alias.
pub proof fn lemma_canonical_alias_free(b: FlowBuiltinType)
    ensures
        aliases(Ty::Dict(canonical_fields(b))) == 0,
{
    let fs = canonical_fields(b);
    if b is Stroke {
        lemma_stroke_alias_free();
    }
    lemma_no_field_aliases(fs, fs.len());
}

/// How many steps a constraint between `lhs` and `rhs` takes at the top:
/// one for each member of a union, one for each pair of fields of two
/// dictionaries.
pub open spec fn steps(lhs: Ty, rhs: Ty) -> nat {
    if lhs is Union {
        lhs->Union_0.len()
    } else if rhs is Union {
        rhs->Union_0.len()
    } else if lhs is Dict && rhs is Dict {
        intersect_keys_spec(lhs->Dict_0, rhs->Dict_0).len()
    } else {
        0
    }
}

/// The result of type checking after the constraint `lhs ⪯ rhs` was posted.
///
/// - Between two variables nothing is posted.
/// - A variable on the left takes `rhs` as an upper bound, one on the right
///   takes `lhs` as a lower bound.
/// - A union is taken member by member, in order.
/// - An alias that meets a dictionary stands for its canonical shape.
/// - Two dictionaries are taken field by field over the names they share;
///   each field with a span that is not detached has the other field's type
///   recorded there, unless a type is recorded there already.
/// - A literal with a span that is not detached has the other side recorded
///   there, unless a type is recorded there already.
/// - Anything else posts nothing.
pub open spec fn constrain_spec(info: InfoTy, lhs: Ty, rhs: Ty) -> InfoTy
    decreases aliases(lhs) + aliases(rhs), lhs, rhs, steps(lhs, rhs) + 1,
{
    if lhs is Var && rhs is Var {
        info
    } else if lhs is Var {
        info.upper(lhs->Var_0, rhs)
    } else if rhs is Var {
        info.lower(rhs->Var_0, lhs)
    } else if lhs is Union {
        constrain_members(info, lhs, rhs, lhs->Union_0.len())
    } else if rhs is Union {
        constrain_alternatives(info, lhs, rhs, rhs->Union_0.len())
    } else if lhs is Dict && rhs is Builtin && is_dict_alias(rhs->Builtin_0) {
        let shape = Ty::Dict(canonical_fields(rhs->Builtin_0));
        proof {
            lemma_canonical_alias_free(rhs->Builtin_0);
        }
        constrain_fields(info, lhs, shape, steps(lhs, shape))
    } else if lhs is Builtin && is_dict_alias(lhs->Builtin_0) && rhs is Dict {
        let shape = Ty::Dict(canonical_fields(lhs->Builtin_0));
        proof {
            lemma_canonical_alias_free(lhs->Builtin_0);
        }
        constrain_fields(info, shape, rhs, steps(shape, rhs))
    } else if lhs is Dict && rhs is Dict {
        constrain_fields(info, lhs, rhs, steps(lhs, rhs))
    } else if lhs is Value {
        backfill(info, lhs->Value_1, rhs)
    } else if rhs is Value {
        backfill(info, rhs->Value_1, lhs)
    } else {
        info
    }
}

/// The result after `t` was recorded at `span` if no type was there; a
/// detached span records nothing.
pub open spec fn backfill(info: InfoTy, span: Span, t: Ty) -> InfoTy {
    if span.is_detached() {
        info
    } else {
        info.record_if_absent(span, t)
    }
}

/// The result after each of the first `n` members of the union `lhs` was
/// constrained by `rhs`.
pub open spec fn constrain_members(info: InfoTy, lhs: Ty, rhs: Ty, n: nat) -> InfoTy
    decreases aliases(lhs) + aliases(rhs), lhs, rhs, n,
{
    if n == 0 || !(lhs is Union) || n > lhs->Union_0.len() {
        info
    } else {
        proof {
            lemma_member_aliases(lhs->Union_0, lhs->Union_0.len(), n - 1);
        }
        constrain_spec(
            constrain_members(info, lhs, rhs, (n - 1) as nat),
            lhs->Union_0[n - 1],
            rhs,
        )
    }
}

/// The result after `lhs` was constrained by each of the first `n` members
/// of the union `rhs`.
pub open spec fn constrain_alternatives(info: InfoTy, lhs: Ty, rhs: Ty, n: nat) -> InfoTy
    decreases aliases(lhs) + aliases(rhs), lhs, rhs, n,
{
    if n == 0 || !(rhs is Union) || n > rhs->Union_0.len() {
        info
    } else {
        proof {
            lemma_member_aliases(rhs->Union_0, rhs->Union_0.len(), n - 1);
        }
        constrain_spec(
            constrain_alternatives(info, lhs, rhs, (n - 1) as nat),
            lhs,
            rhs->Union_0[n - 1],
        )
    }
}

/// The result after the first `n` pairs of fields that the dictionaries `lhs`
/// and `rhs` share were constrained and backfilled.
pub open spec fn constrain_fields(info: InfoTy, lhs: Ty, rhs: Ty, n: nat) -> InfoTy
    decreases aliases(lhs) + aliases(rhs), lhs, rhs, n,
{
    if n == 0 || !(lhs is Dict) || !(rhs is Dict) || n > steps(lhs, rhs) {
        info
    } else {
        let a = lhs->Dict_0;
        let b = rhs->Dict_0;
        let p = intersect_keys_spec(a, b)[n - 1];
        proof {
            lemma_intersect_keys(a, b);
            lemma_field_aliases(a, a.len(), p.0);
            lemma_field_aliases(b, b.len(), p.1);
        }
        let before = constrain_fields(info, lhs, rhs, (n - 1) as nat);
        let posted = constrain_spec(before, a[p.0].ty, b[p.1].ty);
        backfill(backfill(posted, a[p.0].span, b[p.1].ty), b[p.1].span, a[p.0].ty)
    }
}

impl TypeCheckInfo {
    /// Records `ty` at `span` if the span is not detached and holds no type.
    pub fn backfill(&mut self, span: Span, ty: &FlowType)
        ensures
            final(self)@ == backfill(old(self)@, span, ty@),
    {
        if !span.is_detached() {
            self.record_if_absent(span, ty.clone());
        }
    }

    /// Posts the constraint `lhs ⪯ rhs`.
    #[verifier::loop_isolation(false)]
    pub fn constrain(&mut self, lhs: &FlowType, rhs: &FlowType)
        ensures
            final(self)@ == constrain_spec(old(self)@, lhs@, rhs@),
        decreases aliases(lhs@) + aliases(rhs@), lhs@, rhs@, 1nat,
    {
        let ghost start = self@;
        match (lhs, rhs) {
            (FlowType::Var(_), FlowType::Var(_)) => {},
            (FlowType::Var(v), _) => {
                self.at_most(v.0, rhs.clone());
            },
            (_, FlowType::Var(w)) => {
                self.ever_be(w.0, lhs.clone());
            },
            (FlowType::Union(u), _) => {
                let mut i: usize = 0;
                while i < u.len()
                    invariant
                        i <= u.len(),
                        self@ == constrain_members(start, lhs@, rhs@, i as nat),
                    decreases u.len() - i,
                {
                    proof {
                        assert(lhs@->Union_0 == tys_view(u));
                        assert(tys_view(u)[i as int] == u[i as int]@);
                        lemma_member_aliases(lhs@->Union_0, u.len() as nat, i as int);
                    }
                    self.constrain(&u[i], rhs);
                    i += 1;
                }
            },
            (_, FlowType::Union(u)) => {
                let mut i: usize = 0;
                while i < u.len()
                    invariant
                        i <= u.len(),
                        self@ == constrain_alternatives(start, lhs@, rhs@, i as nat),
                    decreases u.len() - i,
                {
                    proof {
                        assert(rhs@->Union_0 == tys_view(u));
                        assert(tys_view(u)[i as int] == u[i as int]@);
                        lemma_member_aliases(rhs@->Union_0, u.len() as nat, i as int);
                    }
                    self.constrain(lhs, &u[i]);
                    i += 1;
                }
            },
            (FlowType::Dict(a), FlowType::Builtin(b)) => {
                match canonical_dict(*b) {
                    Some(shape) => {
                        proof {
                            lemma_canonical_alias_free(*b);
                        }
                        self.constrain_records(a, &shape);
                    },
                    None => {},
                }
            },
            (FlowType::Builtin(b), FlowType::Dict(d)) => {
                match canonical_dict(*b) {
                    Some(shape) => {
                        proof {
                            lemma_canonical_alias_free(*b);
                        }
                        self.constrain_records(&shape, d);
                    },
                    None => {},
                }
            },
            (FlowType::Dict(a), FlowType::Dict(b)) => {
                self.constrain_records(a, b);
            },
            (FlowType::Value(v), _) => {
                self.backfill(v.1, rhs);
            },
            (_, FlowType::Value(v)) => {
                self.backfill(v.1, lhs);
            },
            _ => {},
        }
    }

    /// Constrains two dictionaries field by field over the names they share.
    #[verifier::loop_isolation(false)]
    pub fn constrain_records(&mut self, a: &FlowRecord, b: &FlowRecord)
        ensures
            final(self)@ == constrain_fields(
                old(self)@,
                Ty::Dict(a@),
                Ty::Dict(b@),
                steps(Ty::Dict(a@), Ty::Dict(b@)),
            ),
        decreases aliases(Ty::Dict(a@)) + aliases(Ty::Dict(b@)), Ty::Dict(a@), Ty::Dict(b@), 0nat,
    {
        let ghost start = self@;
        let pairs = a.intersect_keys_enumerate(b);
        let mut k: usize = 0;
        assert(pairs@.len() == pairs_view(pairs@).len());
        while k < pairs.len()
            invariant
                k <= pairs.len(),
                self@ == constrain_fields(start, Ty::Dict(a@), Ty::Dict(b@), k as nat),
            decreases pairs.len() - k,
        {
            let i = pairs[k].0;
            let j = pairs[k].1;
            proof {
                assert(pairs_view(pairs@)[k as int] == (i as int, j as int));
                lemma_field_aliases(a@, a@.len(), i as int);
                lemma_field_aliases(b@, b@.len(), j as int);
            }
            let lf = &a.fields[i];
            let rf = &b.fields[j];
            self.constrain(&lf.1, &rf.1);
            self.backfill(lf.2, &rf.1);
            self.backfill(rf.2, &lf.1);
            k += 1;
        }
    }
}

/// Backfilling posts.
pub proof fn lemma_backfill_posts(info: InfoTy, span: Span, t: Ty)
    ensures
        info.posts_to(backfill(info, span, t)),
{
    lemma_record_if_absent_posts(info, span, t);
}

/// A constraint only posts: it keeps the variables, puts new bounds behind
/// the old ones, leaves every recorded type where it is, and keeps the
/// invariant.
pub proof fn lemma_constrain_posts(info: InfoTy, lhs: Ty, rhs: Ty)
    ensures
        info.posts_to(constrain_spec(info, lhs, rhs)),
    decreases aliases(lhs) + aliases(rhs), lhs, rhs, steps(lhs, rhs) + 1,
{
    if lhs is Var && rhs is Var {
    } else if lhs is Var {
        lemma_upper_posts(info, lhs->Var_0, rhs);
    } else if rhs is Var {
        lemma_lower_posts(info, rhs->Var_0, lhs);
    } else if lhs is Union {
        lemma_constrain_members_posts(info, lhs, rhs, lhs->Union_0.len());
    } else if rhs is Union {
        lemma_constrain_alternatives_posts(info, lhs, rhs, rhs->Union_0.len());
    } else if lhs is Dict && rhs is Builtin && is_dict_alias(rhs->Builtin_0) {
        let shape = Ty::Dict(canonical_fields(rhs->Builtin_0));
        lemma_canonical_alias_free(rhs->Builtin_0);
        lemma_constrain_fields_posts(info, lhs, shape, steps(lhs, shape));
    } else if lhs is Builtin && is_dict_alias(lhs->Builtin_0) && rhs is Dict {
        let shape = Ty::Dict(canonical_fields(lhs->Builtin_0));
        lemma_canonical_alias_free(lhs->Builtin_0);
        lemma_constrain_fields_posts(info, shape, rhs, steps(shape, rhs));
    } else if lhs is Dict && rhs is Dict {
        lemma_constrain_fields_posts(info, lhs, rhs, steps(lhs, rhs));
    } else if lhs is Value {
        lemma_backfill_posts(info, lhs->Value_1, rhs);
    } else if rhs is Value {
        lemma_backfill_posts(info, rhs->Value_1, lhs);
    } else {
    }
}

/// Constraining the members of a union only posts.
pub proof fn lemma_constrain_members_posts(info: InfoTy, lhs: Ty, rhs: Ty, n: nat)
    ensures
        info.posts_to(constrain_members(info, lhs, rhs, n)),
    decreases aliases(lhs) + aliases(rhs), lhs, rhs, n,
{
    if n == 0 || !(lhs is Union) || n > lhs->Union_0.len() {
    } else {
        lemma_member_aliases(lhs->Union_0, lhs->Union_0.len(), n - 1);
        let before = constrain_members(info, lhs, rhs, (n - 1) as nat);
        lemma_constrain_members_posts(info, lhs, rhs, (n - 1) as nat);
        lemma_constrain_posts(before, lhs->Union_0[n - 1], rhs);
        lemma_posts_trans(info, before, constrain_members(info, lhs, rhs, n));
    }
}

/// Constraining by the members of a union only posts.
pub proof fn lemma_constrain_alternatives_posts(info: InfoTy, lhs: Ty, rhs: Ty, n: nat)
    ensures
        info.posts_to(constrain_alternatives(info, lhs, rhs, n)),
    decreases aliases(lhs) + aliases(rhs), lhs, rhs, n,
{
    if n == 0 || !(rhs is Union) || n > rhs->Union_0.len() {
    } else {
        lemma_member_aliases(rhs->Union_0, rhs->Union_0.len(), n - 1);
        let before = constrain_alternatives(info, lhs, rhs, (n - 1) as nat);
        lemma_constrain_alternatives_posts(info, lhs, rhs, (n - 1) as nat);
        lemma_constrain_posts(before, lhs, rhs->Union_0[n - 1]);
        lemma_posts_trans(info, before, constrain_alternatives(info, lhs, rhs, n));
    }
}

/// Constraining two dictionaries field by field only posts.
pub proof fn lemma_constrain_fields_posts(info: InfoTy, lhs: Ty, rhs: Ty, n: nat)
    ensures
        info.posts_to(constrain_fields(info, lhs, rhs, n)),
    decreases aliases(lhs) + aliases(rhs), lhs, rhs, n,
{
    if n == 0 || !(lhs is Dict) || !(rhs is Dict) || n > steps(lhs, rhs) {
    } else {
        let a = lhs->Dict_0;
        let b = rhs->Dict_0;
        let p = intersect_keys_spec(a, b)[n - 1];
        lemma_intersect_keys(a, b);
        lemma_field_aliases(a, a.len(), p.0);
        lemma_field_aliases(b, b.len(), p.1);
        let before = constrain_fields(info, lhs, rhs, (n - 1) as nat);
        lemma_constrain_fields_posts(info, lhs, rhs, (n - 1) as nat);
        let posted = constrain_spec(before, a[p.0].ty, b[p.1].ty);
        lemma_constrain_posts(before, a[p.0].ty, b[p.1].ty);
        let first = backfill(posted, a[p.0].span, b[p.1].ty);
        lemma_backfill_posts(posted, a[p.0].span, b[p.1].ty);
        let second = backfill(first, b[p.1].span, a[p.0].ty);
        lemma_backfill_posts(first, b[p.1].span, a[p.0].ty);
        lemma_posts_trans(info, before, posted);
        lemma_posts_trans(info, posted, first);
        lemma_posts_trans(info, first, second);
    }
}

/// A dictionary that is constrained by an alias, or constrains one, is
/// constrained as by the canonical shape of the alias; the fields that the
/// constraint reaches are those that the dictionary shares with the shape by
/// name, and no others.
pub proof fn lemma_alias_constraint(info: InfoTy, d: Seq<FieldTy>, alias: FlowBuiltinType)
    requires
        is_dict_alias(alias),
    ensures
        constrain_spec(info, Ty::Dict(d), Ty::Builtin(alias)) == constrain_spec(
            info,
            Ty::Dict(d),
            Ty::Dict(canonical_fields(alias)),
        ),
        constrain_spec(info, Ty::Builtin(alias), Ty::Dict(d)) == constrain_spec(
            info,
            Ty::Dict(canonical_fields(alias)),
            Ty::Dict(d),
        ),
        forall|k: int|
            0 <= k < intersect_keys_spec(d, canonical_fields(alias)).len() ==> {
                let p = #[trigger] intersect_keys_spec(d, canonical_fields(alias))[k];
                &&& 0 <= p.0 < d.len()
                &&& 0 <= p.1 < canonical_fields(alias).len()
                &&& d[p.0].name == canonical_fields(alias)[p.1].name
            },
{
    lemma_intersect_keys(d, canonical_fields(alias));
}

} // verus!
