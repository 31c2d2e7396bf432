//! Matching the fields of two structural dictionaries by name.

use vstd::prelude::*;

use crate::syntax::Span;
use crate::ty::def::{FieldTy, FlowRecord, FlowType, fields_view};

verus! {

/// The position of the first field named `name` among the first `upto`
/// fields.
pub open spec fn field_position_upto(fields: Seq<FieldTy>, name: Seq<char>, upto: int) -> Option<
    int,
>
    decreases upto,
{
    if upto <= 0 {
        None
    } else {
        match field_position_upto(fields, name, upto - 1) {
            Some(j) => Some(j),
            None => if fields[upto - 1].name == name {
                Some(upto - 1)
            } else {
                None
            },
        }
    }
}

/// The position of the first field named `name`.
pub open spec fn field_position(fields: Seq<FieldTy>, name: Seq<char>) -> Option<int> {
    field_position_upto(fields, name, fields.len() as int)
}

/// For each of the first `upto` fields of `outer` that has a namesake in
/// `inner`, in order: its position, and the position of the first namesake.
pub open spec fn scan_pairs(outer: Seq<FieldTy>, inner: Seq<FieldTy>, upto: int) -> Seq<(int, int)>
    decreases upto,
{
    if upto <= 0 {
        Seq::empty()
    } else {
        let rest = scan_pairs(outer, inner, upto - 1);
        match field_position(inner, outer[upto - 1].name) {
            Some(j) => rest.push((upto - 1, j)),
            None => rest,
        }
    }
}

/// The pair with its two positions exchanged.
pub open spec fn flip(p: (int, int)) -> (int, int) {
    (p.1, p.0)
}

/// The fields that two dictionaries share by name, as pairs of a position in
/// `a` and a position in `b`. The dictionary with more fields is scanned in
/// order, `a` if both have as many, and each of its fields is paired with its
/// first namesake in the other.
pub open spec fn intersect_keys_spec(a: Seq<FieldTy>, b: Seq<FieldTy>) -> Seq<(int, int)> {
    if a.len() < b.len() {
        scan_pairs(b, a, b.len() as int).map_values(|p: (int, int)| flip(p))
    } else {
        scan_pairs(a, b, a.len() as int)
    }
}

/// The pairs that index positions hold.
pub open spec fn pairs_view(v: Seq<(usize, usize)>) -> Seq<(int, int)> {
    v.map_values(|p: (usize, usize)| (p.0 as int, p.1 as int))
}

/// A position found by `field_position_upto` is in range and holds the name,
/// and no earlier field does.
pub proof fn lemma_field_position(fields: Seq<FieldTy>, name: Seq<char>, upto: int)
    requires
        0 <= upto <= fields.len(),
    ensures
        match field_position_upto(fields, name, upto) {
            Some(j) => 0 <= j < upto && fields[j].name == name && forall|k: int|
                0 <= k < j ==> fields[k].name != name,
            None => forall|k: int| 0 <= k < upto ==> fields[k].name != name,
        },
    decreases upto,
{
    if upto > 0 {
        lemma_field_position(fields, name, upto - 1);
    }
}

/// Once a position was found among the first fields, it stays the answer for
/// any longer prefix.
pub proof fn lemma_field_position_stable(
    fields: Seq<FieldTy>,
    name: Seq<char>,
    upto: int,
    more: int,
)
    requires
        0 <= upto <= more <= fields.len(),
        field_position_upto(fields, name, upto) is Some,
    ensures
        field_position_upto(fields, name, more) == field_position_upto(fields, name, upto),
    decreases more - upto,
{
    if upto < more {
        lemma_field_position_stable(fields, name, upto, more - 1);
    }
}

/// Every pair of `scan_pairs` joins two fields of one name, both in range.
pub proof fn lemma_scan_pairs(outer: Seq<FieldTy>, inner: Seq<FieldTy>, upto: int)
    requires
        0 <= upto <= outer.len(),
    ensures
        scan_pairs(outer, inner, upto).len() <= upto,
        forall|k: int|
            0 <= k < scan_pairs(outer, inner, upto).len() ==> {
                let p = #[trigger] scan_pairs(outer, inner, upto)[k];
                &&& 0 <= p.0 < upto
                &&& 0 <= p.1 < inner.len()
                &&& outer[p.0].name == inner[p.1].name
            },
    decreases upto,
{
    if upto > 0 {
        lemma_scan_pairs(outer, inner, upto - 1);
        lemma_field_position(inner, outer[upto - 1].name, inner.len() as int);
    }
}

/// Every pair of `intersect_keys_spec` joins a field of `a` and a field of
/// `b` of one name.
pub proof fn lemma_intersect_keys(a: Seq<FieldTy>, b: Seq<FieldTy>)
    ensures
        forall|k: int|
            0 <= k < intersect_keys_spec(a, b).len() ==> {
                let p = #[trigger] intersect_keys_spec(a, b)[k];
                &&& 0 <= p.0 < a.len()
                &&& 0 <= p.1 < b.len()
                &&& a[p.0].name == b[p.1].name
            },
{
    if a.len() < b.len() {
        lemma_scan_pairs(b, a, b.len() as int);
    } else {
        lemma_scan_pairs(a, b, a.len() as int);
    }
}

#[verifier::loop_isolation(false)]
fn position_of(fields: &Vec<(String, FlowType, Span)>, name: &String) -> (r: Option<usize>)
    ensures
        match r {
            Some(j) => field_position(fields_view(fields), name@) == Some(j as int),
            None => field_position(fields_view(fields), name@) is None,
        },
{
    let mut j: usize = 0;
    while j < fields.len()
        invariant
            j <= fields.len(),
            field_position_upto(fields_view(fields), name@, j as int) is None,
        decreases fields.len() - j,
    {
        if fields[j].0 == *name {
            proof {
                assert(field_position_upto(fields_view(fields), name@, j + 1) == Some(j as int));
                lemma_field_position_stable(
                    fields_view(fields),
                    name@,
                    j + 1,
                    fields.len() as int,
                );
            }
            return Some(j);
        }
        j += 1;
    }
    None
}

#[verifier::loop_isolation(false)]
fn scan(
    outer: &Vec<(String, FlowType, Span)>,
    inner: &Vec<(String, FlowType, Span)>,
    swapped: bool,
) -> (r: Vec<(usize, usize)>)
    ensures
        pairs_view(r@) == if swapped {
            scan_pairs(fields_view(outer), fields_view(inner), outer.len() as int).map_values(
                |p: (int, int)| flip(p),
            )
        } else {
            scan_pairs(fields_view(outer), fields_view(inner), outer.len() as int)
        },
{
    let mut out: Vec<(usize, usize)> = Vec::new();
    let mut i: usize = 0;
    let ghost o = fields_view(outer);
    let ghost n = fields_view(inner);
    assert(pairs_view(out@) =~= Seq::<(int, int)>::empty());
    assert(scan_pairs(o, n, 0).map_values(|p: (int, int)| flip(p)) =~= Seq::<
        (int, int),
    >::empty());
    while i < outer.len()
        invariant
            i <= outer.len(),
            pairs_view(out@) == if swapped {
                scan_pairs(o, n, i as int).map_values(|p: (int, int)| flip(p))
            } else {
                scan_pairs(o, n, i as int)
            },
        decreases outer.len() - i,
    {
        let ghost before = out@;
        match position_of(inner, &outer[i].0) {
            Some(j) => {
                if swapped {
                    out.push((j, i));
                    assert(pairs_view(out@) =~= pairs_view(before).push((j as int, i as int)));
                    assert(scan_pairs(o, n, i + 1).map_values(|p: (int, int)| flip(p))
                        =~= scan_pairs(o, n, i as int).map_values(|p: (int, int)| flip(p)).push(
                        (j as int, i as int),
                    ));
                } else {
                    out.push((i, j));
                    assert(pairs_view(out@) =~= pairs_view(before).push((i as int, j as int)));
                }
            },
            None => {},
        }
        i += 1;
    }
    out
}

impl FlowRecord {
    /// The fields that `self` and `rhs` share by name, as pairs of a position
    /// in `self` and a position in `rhs`.
    pub fn intersect_keys_enumerate(&self, rhs: &FlowRecord) -> (r: Vec<(usize, usize)>)
        ensures
            pairs_view(r@) == intersect_keys_spec(self@, rhs@),
            forall|k: int|
                0 <= k < r@.len() ==> (#[trigger] r@[k]).0 < self.fields.len() && r@[k].1
                    < rhs.fields.len(),
    {
        let r = if self.fields.len() < rhs.fields.len() {
            scan(&rhs.fields, &self.fields, true)
        } else {
            scan(&self.fields, &rhs.fields, false)
        };
        proof {
            lemma_intersect_keys(self@, rhs@);
            assert forall|k: int| 0 <= k < r@.len() implies (#[trigger] r@[k]).0
                < self.fields.len() && r@[k].1 < rhs.fields.len() by {
                assert(pairs_view(r@)[k] == (r@[k].0 as int, r@[k].1 as int));
            }
        }
        r
    }
}

impl FlowRecord {
    /// The fields that `self` and `rhs` share by name, as pairs of a field of
    /// `self` and a field of `rhs`.
    #[verifier::loop_isolation(false)]
    pub fn intersect_keys<'a>(&'a self, rhs: &'a FlowRecord) -> (r: Vec<
        (&'a (String, FlowType, Span), &'a (String, FlowType, Span)),
    >)
        ensures
            r@.len() == intersect_keys_spec(self@, rhs@).len(),
            forall|k: int|
                0 <= k < r@.len() ==> {
                    let p = intersect_keys_spec(self@, rhs@)[k];
                    &&& 0 <= p.0 < self.fields@.len()
                    &&& 0 <= p.1 < rhs.fields@.len()
                    &&& *(#[trigger] r@[k]).0 == self.fields@[p.0]
                    &&& *r@[k].1 == rhs.fields@[p.1]
                },
    {
        let pairs = self.intersect_keys_enumerate(rhs);
        let mut out: Vec<(&'a (String, FlowType, Span), &'a (String, FlowType, Span))> = Vec::new();
        let mut k: usize = 0;
        assert(pairs@.len() == pairs_view(pairs@).len());
        while k < pairs.len()
            invariant
                k <= pairs.len(),
                out@.len() == k,
                forall|m: int|
                    0 <= m < k ==> {
                        let p = intersect_keys_spec(self@, rhs@)[m];
                        &&& 0 <= p.0 < self.fields@.len()
                        &&& 0 <= p.1 < rhs.fields@.len()
                        &&& *(#[trigger] out@[m]).0 == self.fields@[p.0]
                        &&& *out@[m].1 == rhs.fields@[p.1]
                    },
            decreases pairs.len() - k,
        {
            let i = pairs[k].0;
            let j = pairs[k].1;
            assert(pairs_view(pairs@)[k as int] == (i as int, j as int));
            out.push((&self.fields[i], &rhs.fields[j]));
            k += 1;
        }
        out
    }
}

} // verus!
