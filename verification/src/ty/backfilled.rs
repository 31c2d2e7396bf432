//! Where a constraint records types: at the spans of the literals and of the
//! fields that it reaches, and nowhere else.

use vstd::prelude::*;

use crate::syntax::Span;
use crate::ty::builtin::{
    FlowBuiltinType, canonical_field, canonical_fields, dash_array, dash_names, is_dict_alias,
    str_ty, stroke_fields,
};
use crate::ty::constrain::{
    aliases, backfill, constrain_alternatives, constrain_fields, constrain_members,
    constrain_spec, lemma_backfill_posts, lemma_canonical_alias_free, lemma_constrain_posts,
    lemma_field_aliases, lemma_member_aliases, steps,
};
use crate::ty::def::{FieldTy, Ty};
use crate::ty::info::{InfoTy, lemma_posts_trans};
use crate::ty::record::{intersect_keys_spec, lemma_intersect_keys};

verus! {

/// Whether a constraint on `t` reaches the span `s`: `s` is not detached,
/// and it is the span of `t` if `t` is a literal, the span of a member that
/// is reached if `t` is a union, and the span of a field or a span that is
/// reached in the type of a field if `t` is a dictionary.
pub open spec fn reaches(t: Ty, s: Span) -> bool
    decreases t,
{
    match t {
        Ty::Value(_, at) => at == s && !s.is_detached(),
        Ty::Union(members) => exists|i: int|
            0 <= i < members.len() && reaches(#[trigger] members[i], s),
        Ty::Dict(fields) => exists|i: int|
            0 <= i < fields.len() && (((#[trigger] fields[i]).span == s && !s.is_detached())
                || reaches(fields[i].ty, s)),
        _ => false,
    }
}

/// Whether `later` holds a type at no span but those at which `info` holds
/// one and those that a constraint on `lhs` or on `rhs` reaches.
pub open spec fn records_within(info: InfoTy, later: InfoTy, lhs: Ty, rhs: Ty) -> bool {
    forall|s: Span| #[trigger]
        later.mapping.contains_key(s) ==> info.mapping.contains_key(s) || reaches(lhs, s)
            || reaches(rhs, s)
}

proof fn lemma_stroke_unreached(s: Span)
    ensures
        !reaches(Ty::Dict(stroke_fields()), s),
{
    let cap = seq![str_ty("butt"@), str_ty("round"@), str_ty("square"@)];
    assert forall|i: int| 0 <= i < cap.len() implies !reaches(#[trigger] cap[i], s) by {}
    let join = seq![str_ty("miter"@), str_ty("round"@), str_ty("bevel"@)];
    assert forall|i: int| 0 <= i < join.len() implies !reaches(#[trigger] join[i], s) by {}
    let pattern = seq![
        canonical_field("array"@, dash_array()),
        canonical_field("phase"@, Ty::Builtin(FlowBuiltinType::Length)),
    ];
    assert forall|i: int| 0 <= i < pattern.len() implies !reaches((#[trigger] pattern[i]).ty, s)
        && (pattern[i].span != s || s.is_detached()) by {}
    assert(!reaches(Ty::Dict(pattern), s));
    let names = dash_names();
    let dash = names.push(dash_array()).push(Ty::Dict(pattern));
    assert forall|i: int| 0 <= i < dash.len() implies !reaches(#[trigger] dash[i], s) by {
        if i < names.len() {
            assert(dash[i] == names[i]);
            assert(names[i] is Value && names[i]->Value_1.is_detached());
        }
    }
    assert(!reaches(Ty::Union(cap), s));
    assert(!reaches(Ty::Union(join), s));
    assert(!reaches(Ty::Union(dash), s));
    let fields = stroke_fields();
    assert forall|i: int| 0 <= i < fields.len() implies !reaches((#[trigger] fields[i]).ty, s)
        && (fields[i].span != s || s.is_detached()) by {
        if i == 2 {
            assert(fields[i].ty == Ty::Union(cap));
        } else if i == 3 {
            assert(fields[i].ty == Ty::Union(join));
        } else if i == 4 {
            assert(fields[i].ty == Ty::Union(dash));
        }
    }
}

/// A constraint reaches no span in a canonical shape: nothing is ever
/// recorded for the fields of an alias themselves.
pub proof fn lemma_canonical_unreached(b: FlowBuiltinType, s: Span)
    ensures
        !reaches(Ty::Dict(canonical_fields(b)), s),
{
    if b is Stroke {
        lemma_stroke_unreached(s);
    } else {
        let fields = canonical_fields(b);
        assert forall|i: int| 0 <= i < fields.len() implies !reaches((#[trigger] fields[i]).ty, s)
            && (fields[i].span != s || s.is_detached()) by {}
    }
}

/// A constraint records types only at spans that it reaches in one of its
/// sides. Where a dictionary meets an alias, these are spans of the
/// dictionary: no type is recorded for a field that only the alias has.
pub proof fn lemma_constrain_records_within(info: InfoTy, lhs: Ty, rhs: Ty)
    ensures
        records_within(info, constrain_spec(info, lhs, rhs), lhs, rhs),
    decreases aliases(lhs) + aliases(rhs), lhs, rhs, steps(lhs, rhs) + 1,
{
    if lhs is Var && rhs is Var {
    } else if lhs is Var {
    } else if rhs is Var {
    } else if lhs is Union {
        lemma_members_record_within(info, lhs, rhs, lhs->Union_0.len());
    } else if rhs is Union {
        lemma_alternatives_record_within(info, lhs, rhs, rhs->Union_0.len());
    } else if lhs is Dict && rhs is Builtin && is_dict_alias(rhs->Builtin_0) {
        let shape = Ty::Dict(canonical_fields(rhs->Builtin_0));
        lemma_canonical_alias_free(rhs->Builtin_0);
        lemma_fields_record_within(info, lhs, shape, steps(lhs, shape));
        let later = constrain_spec(info, lhs, rhs);
        assert forall|s: Span| #[trigger] later.mapping.contains_key(s) implies info.mapping.contains_key(
            s,
        ) || reaches(lhs, s) || reaches(rhs, s) by {
            lemma_canonical_unreached(rhs->Builtin_0, s);
        }
    } else if lhs is Builtin && is_dict_alias(lhs->Builtin_0) && rhs is Dict {
        let shape = Ty::Dict(canonical_fields(lhs->Builtin_0));
        lemma_canonical_alias_free(lhs->Builtin_0);
        lemma_fields_record_within(info, shape, rhs, steps(shape, rhs));
        let later = constrain_spec(info, lhs, rhs);
        assert forall|s: Span| #[trigger] later.mapping.contains_key(s) implies info.mapping.contains_key(
            s,
        ) || reaches(lhs, s) || reaches(rhs, s) by {
            lemma_canonical_unreached(lhs->Builtin_0, s);
        }
    } else if lhs is Dict && rhs is Dict {
        lemma_fields_record_within(info, lhs, rhs, steps(lhs, rhs));
    } else if lhs is Value {
    } else if rhs is Value {
    } else {
    }
}

/// Constraining the members of a union records only at spans that are
/// reached.
pub proof fn lemma_members_record_within(info: InfoTy, lhs: Ty, rhs: Ty, n: nat)
    ensures
        records_within(info, constrain_members(info, lhs, rhs, n), lhs, rhs),
    decreases aliases(lhs) + aliases(rhs), lhs, rhs, n,
{
    if n == 0 || !(lhs is Union) || n > lhs->Union_0.len() {
    } else {
        let members = lhs->Union_0;
        lemma_member_aliases(members, members.len(), n - 1);
        let before = constrain_members(info, lhs, rhs, (n - 1) as nat);
        lemma_members_record_within(info, lhs, rhs, (n - 1) as nat);
        lemma_constrain_records_within(before, members[n - 1], rhs);
        let later = constrain_members(info, lhs, rhs, n);
        assert forall|s: Span| #[trigger] later.mapping.contains_key(s) implies info.mapping.contains_key(
            s,
        ) || reaches(lhs, s) || reaches(rhs, s) by {
            if reaches(members[n - 1], s) {
                assert(reaches(lhs, s));
            }
        }
    }
}

/// Constraining by the members of a union records only at spans that are
/// reached.
pub proof fn lemma_alternatives_record_within(info: InfoTy, lhs: Ty, rhs: Ty, n: nat)
    ensures
        records_within(info, constrain_alternatives(info, lhs, rhs, n), lhs, rhs),
    decreases aliases(lhs) + aliases(rhs), lhs, rhs, n,
{
    if n == 0 || !(rhs is Union) || n > rhs->Union_0.len() {
    } else {
        let members = rhs->Union_0;
        lemma_member_aliases(members, members.len(), n - 1);
        let before = constrain_alternatives(info, lhs, rhs, (n - 1) as nat);
        lemma_alternatives_record_within(info, lhs, rhs, (n - 1) as nat);
        lemma_constrain_records_within(before, lhs, members[n - 1]);
        let later = constrain_alternatives(info, lhs, rhs, n);
        assert forall|s: Span| #[trigger] later.mapping.contains_key(s) implies info.mapping.contains_key(
            s,
        ) || reaches(lhs, s) || reaches(rhs, s) by {
            if reaches(members[n - 1], s) {
                assert(reaches(rhs, s));
            }
        }
    }
}

/// Constraining two dictionaries field by field records only at spans that
/// are reached.
pub proof fn lemma_fields_record_within(info: InfoTy, lhs: Ty, rhs: Ty, n: nat)
    ensures
        records_within(info, constrain_fields(info, lhs, rhs, n), lhs, rhs),
    decreases aliases(lhs) + aliases(rhs), lhs, rhs, n,
{
    if n == 0 || !(lhs is Dict) || !(rhs is Dict) || n > steps(lhs, rhs) {
    } else {
        let a = lhs->Dict_0;
        let b = rhs->Dict_0;
        let p = intersect_keys_spec(a, b)[n - 1];
        lemma_intersect_keys(a, b);
        lemma_field_aliases(a, a.len(), p.0);
        lemma_field_aliases(b, b.len(), p.1);
        let before = constrain_fields(info, lhs, rhs, (n - 1) as nat);
        lemma_fields_record_within(info, lhs, rhs, (n - 1) as nat);
        let posted = constrain_spec(before, a[p.0].ty, b[p.1].ty);
        lemma_constrain_records_within(before, a[p.0].ty, b[p.1].ty);
        let later = constrain_fields(info, lhs, rhs, n);
        assert forall|s: Span| #[trigger] later.mapping.contains_key(s) implies info.mapping.contains_key(
            s,
        ) || reaches(lhs, s) || reaches(rhs, s) by {
            if posted.mapping.contains_key(s) {
                if reaches(a[p.0].ty, s) {
                    assert(reaches(lhs, s));
                }
                if reaches(b[p.1].ty, s) {
                    assert(reaches(rhs, s));
                }
            } else if s == a[p.0].span {
                assert(reaches(lhs, s));
            } else {
                assert(s == b[p.1].span);
                assert(reaches(rhs, s));
            }
        }
    }
}

/// A literal that is constrained by a type other than a variable or a union
/// has that type recorded at its span, unless the span is detached or holds
/// a type already; so has one that constrains such a type.
pub proof fn lemma_literal_backfilled(info: InfoTy, literal: Ty, peer: Ty)
    requires
        literal is Value,
        !(peer is Var),
        !(peer is Union),
    ensures
        constrain_spec(info, literal, peer) == backfill(info, literal->Value_1, peer),
        !(peer is Dict) && !(peer is Value) ==> constrain_spec(info, peer, literal) == backfill(
            info,
            literal->Value_1,
            peer,
        ),
{
}

/// The type that the constraint between the dictionaries `lhs` and `rhs`
/// finds at the span of the left field of the `k`-th pair of fields that
/// they share, once it has constrained the two fields and before it records
/// a type for them.
pub open spec fn found_at_field(info: InfoTy, lhs: Ty, rhs: Ty, k: int) -> Option<Ty> {
    let a = lhs->Dict_0;
    let b = rhs->Dict_0;
    let p = intersect_keys_spec(a, b)[k];
    let posted = constrain_spec(constrain_fields(info, lhs, rhs, k as nat), a[p.0].ty, b[p.1].ty);
    if posted.mapping.contains_key(a[p.0].span) {
        Some(posted.mapping[a[p.0].span])
    } else {
        None
    }
}

/// After two dictionaries were constrained over the first `n` pairs of
/// fields that they share, the span of the left field of each of these
/// pairs holds a type, unless it is detached: the type of the right field,
/// unless the constraint found a type there.
pub proof fn lemma_field_backfilled(info: InfoTy, lhs: Ty, rhs: Ty, n: nat, k: int)
    requires
        lhs is Dict,
        rhs is Dict,
        0 <= k < n <= steps(lhs, rhs),
        !lhs->Dict_0[intersect_keys_spec(lhs->Dict_0, rhs->Dict_0)[k].0].span.is_detached(),
    ensures
        ({
            let p = intersect_keys_spec(lhs->Dict_0, rhs->Dict_0)[k];
            let span = lhs->Dict_0[p.0].span;
            let later = constrain_fields(info, lhs, rhs, n);
            &&& later.mapping.contains_key(span)
            &&& later.mapping[span] == match found_at_field(info, lhs, rhs, k) {
                Some(t) => t,
                None => rhs->Dict_0[p.1].ty,
            }
        }),
    decreases n,
{
    let a = lhs->Dict_0;
    let b = rhs->Dict_0;
    lemma_intersect_keys(a, b);
    let q = intersect_keys_spec(a, b)[n - 1];
    let before = constrain_fields(info, lhs, rhs, (n - 1) as nat);
    let posted = constrain_spec(before, a[q.0].ty, b[q.1].ty);
    let first = backfill(posted, a[q.0].span, b[q.1].ty);
    let second = backfill(first, b[q.1].span, a[q.0].ty);
    assert(constrain_fields(info, lhs, rhs, n) == second);
    lemma_backfill_posts(first, b[q.1].span, a[q.0].ty);
    if k < n - 1 {
        lemma_field_backfilled(info, lhs, rhs, (n - 1) as nat, k);
        lemma_constrain_posts(before, a[q.0].ty, b[q.1].ty);
        lemma_backfill_posts(posted, a[q.0].span, b[q.1].ty);
        lemma_posts_trans(before, posted, first);
        lemma_posts_trans(before, first, second);
    }
}

/// Where a dictionary is constrained by an alias, the span of each field
/// that the dictionary shares with the canonical shape of the alias holds a
/// type afterwards, unless it is detached: the type of the field of the
/// canonical shape, unless the constraint found a type there.
pub proof fn lemma_alias_backfilled(info: InfoTy, d: Seq<FieldTy>, alias: FlowBuiltinType, k: int)
    requires
        is_dict_alias(alias),
        0 <= k < intersect_keys_spec(d, canonical_fields(alias)).len(),
        !d[intersect_keys_spec(d, canonical_fields(alias))[k].0].span.is_detached(),
    ensures
        ({
            let shape = canonical_fields(alias);
            let p = intersect_keys_spec(d, shape)[k];
            let later = constrain_spec(info, Ty::Dict(d), Ty::Builtin(alias));
            &&& later.mapping.contains_key(d[p.0].span)
            &&& later.mapping[d[p.0].span] == match found_at_field(
                info,
                Ty::Dict(d),
                Ty::Dict(shape),
                k,
            ) {
                Some(t) => t,
                None => shape[p.1].ty,
            }
        }),
{
    let shape = Ty::Dict(canonical_fields(alias));
    lemma_field_backfilled(info, Ty::Dict(d), shape, steps(Ty::Dict(d), shape), k);
}

} // verus!
