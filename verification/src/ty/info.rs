//! The result of type checking one source file: the variables with their
//! bounds, and the types observed at spans.

use std::collections::HashMap;
use vstd::prelude::*;
use vstd::std_specs::hash::*;

use crate::syntax::{DefId, Span};
use crate::ty::def::{FlowType, FlowVar, Ty, VarTy, post_bound};

verus! {

broadcast use vstd::std_specs::hash::group_hash_axioms;

/// What type checking found for one source file.
#[derive(Debug)]
pub struct TypeCheckInfo {
    /// The variables, by the raw number of their definition.
    pub vars: HashMap<u64, FlowVar>,
    /// The types observed, by the raw number of the span.
    pub mapping: HashMap<u64, FlowType>,
}

/// The mathematical value of a [`TypeCheckInfo`].
pub struct InfoTy {
    pub vars: Map<DefId, VarTy>,
    pub mapping: Map<Span, Ty>,
}

impl View for TypeCheckInfo {
    type V = InfoTy;

    open spec fn view(&self) -> InfoTy {
        InfoTy {
            vars: Map::new(|d: DefId| self.vars@.contains_key(d.0), |d: DefId| self.vars@[d.0]@),
            mapping: Map::new(
                |s: Span| self.mapping@.contains_key(s.0),
                |s: Span| self.mapping@[s.0]@,
            ),
        }
    }
}

/// Whether no term of `s` is a `Clause`.
pub open spec fn no_clause(s: Seq<Ty>) -> bool {
    forall|i: int| 0 <= i < s.len() ==> !(#[trigger] s[i] is Clause)
}

impl InfoTy {
    /// The result that holds nothing.
    pub open spec fn empty() -> InfoTy {
        InfoTy { vars: Map::empty(), mapping: Map::empty() }
    }

    /// The invariant of a result: it holds finitely many variables, each
    /// variable is filed under its own identifier, and no `Clause` is a bound.
    pub open spec fn wf(self) -> bool {
        &&& self.vars.dom().finite()
        &&& forall|d: DefId| #[trigger]
            self.vars.contains_key(d) ==> {
                &&& self.vars[d].id == d
                &&& no_clause(self.vars[d].lbs)
                &&& no_clause(self.vars[d].ubs)
            }
    }

    /// The lower bounds of `d`; none for an unknown variable.
    pub open spec fn lbs(self, d: DefId) -> Seq<Ty> {
        if self.vars.contains_key(d) {
            self.vars[d].lbs
        } else {
            Seq::empty()
        }
    }

    /// The upper bounds of `d`; none for an unknown variable.
    pub open spec fn ubs(self, d: DefId) -> Seq<Ty> {
        if self.vars.contains_key(d) {
            self.vars[d].ubs
        } else {
            Seq::empty()
        }
    }

    /// The result once `d` is a variable: a new variable has the name `name`
    /// and no bounds, a known one stays as it is.
    pub open spec fn define(self, d: DefId, name: Seq<char>) -> InfoTy {
        if self.vars.contains_key(d) {
            self
        } else {
            InfoTy {
                vars: self.vars.insert(
                    d,
                    VarTy { name, id: d, lbs: Seq::empty(), ubs: Seq::empty() },
                ),
                ..self
            }
        }
    }

    /// The result once `t` was posted as a lower bound of `d`. Nothing
    /// changes for an unknown variable or for a `Clause`.
    pub open spec fn lower(self, d: DefId, t: Ty) -> InfoTy {
        if self.vars.contains_key(d) {
            InfoTy {
                vars: self.vars.insert(
                    d,
                    VarTy { lbs: post_bound(self.vars[d].lbs, t), ..self.vars[d] },
                ),
                ..self
            }
        } else {
            self
        }
    }

    /// The result once `t` was posted as an upper bound of `d`. Nothing
    /// changes for an unknown variable or for a `Clause`.
    pub open spec fn upper(self, d: DefId, t: Ty) -> InfoTy {
        if self.vars.contains_key(d) {
            InfoTy {
                vars: self.vars.insert(
                    d,
                    VarTy { ubs: post_bound(self.vars[d].ubs, t), ..self.vars[d] },
                ),
                ..self
            }
        } else {
            self
        }
    }

    /// The result once `t` was observed at `s`, whatever was there before.
    pub open spec fn record(self, s: Span, t: Ty) -> InfoTy {
        InfoTy { mapping: self.mapping.insert(s, t), ..self }
    }

    /// The result once `t` was observed at `s`, unless a type was there
    /// before.
    pub open spec fn record_if_absent(self, s: Span, t: Ty) -> InfoTy {
        if self.mapping.contains_key(s) {
            self
        } else {
            self.record(s, t)
        }
    }

    /// Whether `later` came from `self` by posting bounds and by recording
    /// types at spans that held none: the variables are the same, each with
    /// its old bounds first, every span keeps its type, and the invariant is
    /// kept.
    pub open spec fn posts_to(self, later: InfoTy) -> bool {
        &&& self.vars.dom() == later.vars.dom()
        &&& self.grows_to(later)
        &&& forall|s: Span| #[trigger]
            self.mapping.contains_key(s) ==> later.mapping.contains_key(s) && later.mapping[s]
                == self.mapping[s]
        &&& self.wf() ==> later.wf()
    }

    /// Whether `later` came from `self` by a part of type checking: it holds
    /// the same variables and maybe more, each with its old bounds first, and
    /// the invariant is kept.
    pub open spec fn advances_to(self, later: InfoTy) -> bool {
        &&& self.grows_to(later)
        &&& self.wf() ==> later.wf()
    }

    /// Whether `later` holds all that `self` holds of variables: the same
    /// variables and maybe more, each with its old bounds first.
    pub open spec fn grows_to(self, later: InfoTy) -> bool {
        forall|d: DefId| #[trigger]
            self.vars.contains_key(d) ==> {
                &&& later.vars.contains_key(d)
                &&& later.vars[d].name == self.vars[d].name
                &&& later.vars[d].id == self.vars[d].id
                &&& self.vars[d].lbs.is_prefix_of(later.vars[d].lbs)
                &&& self.vars[d].ubs.is_prefix_of(later.vars[d].ubs)
            }
    }
}

impl TypeCheckInfo {
    /// A result that holds nothing.
    pub fn new() -> (r: TypeCheckInfo)
        ensures
            r@ == InfoTy::empty(),
    {
        let r = TypeCheckInfo { vars: HashMap::new(), mapping: HashMap::new() };
        assert(r@.vars =~= Map::empty());
        assert(r@.mapping =~= Map::empty());
        r
    }

    /// The variable of a definition.
    pub fn var(&self, id: DefId) -> (r: Option<&FlowVar>)
        ensures
            r is Some <==> self@.vars.contains_key(id),
            r matches Some(v) ==> v@ == self@.vars[id],
    {
        self.vars.get(&id.0)
    }

    /// The type observed at a span.
    pub fn type_of_span(&self, span: Span) -> (r: Option<&FlowType>)
        ensures
            r is Some <==> self@.mapping.contains_key(span),
            r matches Some(t) ==> t@ == self@.mapping[span],
    {
        self.mapping.get(&span.0)
    }

    /// Makes `id` a variable, under the name `name` if it is new.
    pub fn define(&mut self, id: DefId, name: String)
        ensures
            final(self)@ == old(self)@.define(id, name@),
    {
        if !self.vars.contains_key(&id.0) {
            self.vars.insert(id.0, FlowVar::new(name, id));
            assert(self@.vars =~= old(self)@.define(id, name@).vars);
            assert(self@.mapping =~= old(self)@.mapping);
        }
    }

    /// Posts `exp` as a lower bound of the variable `id`.
    pub fn ever_be(&mut self, id: DefId, exp: FlowType)
        ensures
            final(self)@ == old(self)@.lower(id, exp@),
    {
        let found = self.vars.remove(&id.0);
        match found {
            Some(v) => {
                let mut v = v;
                v.ever_be(exp);
                self.vars.insert(id.0, v);
                assert(self@.vars =~= old(self)@.lower(id, exp@).vars);
                assert(self@.mapping =~= old(self)@.mapping);
            },
            None => {
                assert(self@.vars =~= old(self)@.vars);
                assert(self@.mapping =~= old(self)@.mapping);
            },
        }
    }

    /// Posts `exp` as an upper bound of the variable `id`.
    pub fn at_most(&mut self, id: DefId, exp: FlowType)
        ensures
            final(self)@ == old(self)@.upper(id, exp@),
    {
        let found = self.vars.remove(&id.0);
        match found {
            Some(v) => {
                let mut v = v;
                v.at_most(exp);
                self.vars.insert(id.0, v);
                assert(self@.vars =~= old(self)@.upper(id, exp@).vars);
                assert(self@.mapping =~= old(self)@.mapping);
            },
            None => {
                assert(self@.vars =~= old(self)@.vars);
                assert(self@.mapping =~= old(self)@.mapping);
            },
        }
    }

    /// Records `ty` as the type observed at `span`, in place of what was
    /// there.
    pub fn record(&mut self, span: Span, ty: FlowType)
        ensures
            final(self)@ == old(self)@.record(span, ty@),
    {
        self.mapping.insert(span.0, ty);
        assert(self@.mapping =~= old(self)@.record(span, ty@).mapping);
        assert(self@.vars =~= old(self)@.vars);
    }

    /// Records `ty` as the type observed at `span`, unless one is there.
    pub fn record_if_absent(&mut self, span: Span, ty: FlowType)
        ensures
            final(self)@ == old(self)@.record_if_absent(span, ty@),
    {
        if !self.mapping.contains_key(&span.0) {
            self.record(span, ty);
        }
    }
}

/// A result of type checking holds finitely many variables.
pub proof fn lemma_info_finite(info: &TypeCheckInfo)
    ensures
        info@.vars.dom().finite(),
{
    let raw = info.vars@.dom();
    let f = |k: u64| DefId(k);
    raw.lemma_map_finite(f);
    assert(info@.vars.dom() =~= raw.map(f)) by {
        assert forall|d: DefId| info@.vars.dom().contains(d) implies raw.map(f).contains(d) by {
            assert(raw.contains(d.0) && f(d.0) == d);
        }
    }
}

/// Posting a lower bound posts.
pub proof fn lemma_lower_posts(info: InfoTy, d: DefId, t: Ty)
    ensures
        info.posts_to(info.lower(d, t)),
{
    let later = info.lower(d, t);
    assert(info.vars.dom() =~= later.vars.dom());
    if info.wf() {
        assert forall|e: DefId| #[trigger] later.vars.contains_key(e) implies later.vars[e].id == e
            && no_clause(later.vars[e].lbs) && no_clause(later.vars[e].ubs) by {
            assert(info.vars.contains_key(e));
        }
    }
}

/// Posting an upper bound posts.
pub proof fn lemma_upper_posts(info: InfoTy, d: DefId, t: Ty)
    ensures
        info.posts_to(info.upper(d, t)),
{
    let later = info.upper(d, t);
    assert(info.vars.dom() =~= later.vars.dom());
    if info.wf() {
        assert forall|e: DefId| #[trigger] later.vars.contains_key(e) implies later.vars[e].id == e
            && no_clause(later.vars[e].lbs) && no_clause(later.vars[e].ubs) by {
            assert(info.vars.contains_key(e));
        }
    }
}

/// Recording a type at a span that holds none posts.
pub proof fn lemma_record_if_absent_posts(info: InfoTy, s: Span, t: Ty)
    ensures
        info.posts_to(info.record_if_absent(s, t)),
{
}

/// Recording a type advances.
pub proof fn lemma_record_advances(info: InfoTy, s: Span, t: Ty)
    ensures
        info.advances_to(info.record(s, t)),
        info.record(s, t).vars == info.vars,
{
}

/// Making a variable advances.
pub proof fn lemma_define_advances(info: InfoTy, d: DefId, name: Seq<char>)
    ensures
        info.advances_to(info.define(d, name)),
{
    let later = info.define(d, name);
    if info.wf() {
        assert forall|e: DefId| #[trigger] later.vars.contains_key(e) implies later.vars[e].id == e
            && no_clause(later.vars[e].lbs) && no_clause(later.vars[e].ubs) by {
            if e != d {
                assert(info.vars.contains_key(e));
            }
        }
    }
}

/// What posts twice posts.
pub proof fn lemma_posts_trans(a: InfoTy, b: InfoTy, c: InfoTy)
    requires
        a.posts_to(b),
        b.posts_to(c),
    ensures
        a.posts_to(c),
{
    assert forall|d: DefId| #[trigger] a.vars.contains_key(d) implies c.vars.contains_key(d)
        && c.vars[d].name == a.vars[d].name && c.vars[d].id == a.vars[d].id
        && a.vars[d].lbs.is_prefix_of(c.vars[d].lbs) && a.vars[d].ubs.is_prefix_of(
        c.vars[d].ubs,
    ) by {
        assert(b.vars.contains_key(d));
    }
    assert forall|s: Span| #[trigger] a.mapping.contains_key(s) implies c.mapping.contains_key(s)
        && c.mapping[s] == a.mapping[s] by {
        assert(b.mapping.contains_key(s));
    }
}

/// What advances twice advances.
pub proof fn lemma_advances_trans(a: InfoTy, b: InfoTy, c: InfoTy)
    requires
        a.advances_to(b),
        b.advances_to(c),
    ensures
        a.advances_to(c),
{
    assert forall|d: DefId| #[trigger] a.vars.contains_key(d) implies c.vars.contains_key(d)
        && c.vars[d].name == a.vars[d].name && c.vars[d].id == a.vars[d].id
        && a.vars[d].lbs.is_prefix_of(c.vars[d].lbs) && a.vars[d].ubs.is_prefix_of(
        c.vars[d].ubs,
    ) by {
        assert(b.vars.contains_key(d));
    }
}

/// What posts advances.
pub proof fn lemma_posts_advances(a: InfoTy, b: InfoTy)
    requires
        a.posts_to(b),
    ensures
        a.advances_to(b),
{
}

/// The result after each of the first `n` of `values` was posted as a lower
/// bound of `d`, in order.
pub open spec fn lower_all(info: InfoTy, d: DefId, values: Seq<Ty>, n: nat) -> InfoTy
    decreases n,
{
    if n == 0 || n > values.len() {
        info
    } else {
        lower_all(info, d, values, (n - 1) as nat).lower(d, values[n - 1])
    }
}

/// The lower bounds of a variable hold every value that was posted to it,
/// behind the bounds that it had and in the order of posting. (A `Clause` is
/// no value.)
pub proof fn lemma_ever_be_in_order(info: InfoTy, d: DefId, values: Seq<Ty>, n: nat)
    requires
        info.vars.contains_key(d),
        no_clause(values),
        n <= values.len(),
    ensures
        lower_all(info, d, values, n).vars.contains_key(d),
        lower_all(info, d, values, n).vars[d].lbs == info.vars[d].lbs + values.subrange(
            0,
            n as int,
        ),
        lower_all(info, d, values, n).vars[d].ubs == info.vars[d].ubs,
    decreases n,
{
    if n == 0 {
        assert(info.vars[d].lbs + values.subrange(0, 0) =~= info.vars[d].lbs);
    } else {
        lemma_ever_be_in_order(info, d, values, (n - 1) as nat);
        assert(info.vars[d].lbs + values.subrange(0, n as int) =~= (info.vars[d].lbs
            + values.subrange(0, n - 1)).push(values[n - 1]));
    }
}

} // verus!
