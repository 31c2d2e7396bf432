//! Applying a callee to a bundle of arguments.

use std::collections::HashSet;
use vstd::prelude::*;
use vstd::std_specs::hash::*;

use crate::syntax::{Arg, DefId, Span};
use crate::ty::builtin::is_text;
use crate::ty::constrain::{constrain_spec, lemma_constrain_posts};
use crate::ty::copy::{clone_args, clone_sig, clone_ty, clone_tys};
use crate::ty::def::{
    ArgsTy, FlowArgs, FlowSignature, FlowType, SigTy, Ty, named_view, sig_view, tys_view,
};
use crate::ty::info::{
    InfoTy, TypeCheckInfo, lemma_info_finite, lemma_posts_advances, lemma_posts_trans,
    lemma_record_advances,
};
use crate::ty::signatures::def_ids;
use crate::value::{
    ParamSpec, ParamVal, Signature, SignatureVal, Val, Value, param_view, params_view,
    signature_view,
};

verus! {

broadcast use vstd::std_specs::hash::group_hash_axioms;

/// The position of the first of the first `upto` named terms that has the
/// name `name`.
pub open spec fn named_position_upto(s: Seq<(Seq<char>, Ty)>, name: Seq<char>, upto: int) -> Option<
    int,
>
    decreases upto,
{
    if upto <= 0 {
        None
    } else {
        match named_position_upto(s, name, upto - 1) {
            Some(j) => Some(j),
            None => if s[upto - 1].0 == name {
                Some(upto - 1)
            } else {
                None
            },
        }
    }
}

/// The type of the first named term that has the name `name`.
pub open spec fn named_type(s: Seq<(Seq<char>, Ty)>, name: Seq<char>) -> Option<Ty> {
    match named_position_upto(s, name, s.len() as int) {
        Some(j) => Some(s[j].1),
        None => None,
    }
}

/// The formal type that the positional argument `i` meets: `Any` behind the
/// last formal.
pub open spec fn formal_at(formals: Seq<Ty>, i: int) -> Ty {
    if 0 <= i < formals.len() {
        formals[i]
    } else {
        Ty::Any
    }
}

/// The result after each of the first `n` positional arguments was
/// constrained by the formal at its position.
pub open spec fn constrain_positional(info: InfoTy, actuals: Seq<Ty>, formals: Seq<Ty>, n: nat)
    -> InfoTy
    decreases n,
{
    if n == 0 || n > actuals.len() {
        info
    } else {
        constrain_spec(
            constrain_positional(info, actuals, formals, (n - 1) as nat),
            actuals[n - 1],
            formal_at(formals, n - 1),
        )
    }
}

/// The result after each of the first `n` named arguments was constrained
/// by the formal of its name, where there is one.
pub open spec fn constrain_named(
    info: InfoTy,
    actuals: Seq<(Seq<char>, Ty)>,
    formals: Seq<(Seq<char>, Ty)>,
    n: nat,
) -> InfoTy
    decreases n,
{
    if n == 0 || n > actuals.len() {
        info
    } else {
        let before = constrain_named(info, actuals, formals, (n - 1) as nat);
        match named_type(formals, actuals[n - 1].0) {
            Some(formal) => constrain_spec(before, actuals[n - 1].1, formal),
            None => before,
        }
    }
}

/// The result after the arguments `args` were constrained by the signature
/// `sig`: the positional ones first, then the named ones.
pub open spec fn constrain_call(info: InfoTy, sig: SigTy, args: ArgsTy) -> InfoTy {
    constrain_named(
        constrain_positional(info, args.args, sig.pos, args.args.len()),
        args.named,
        sig.named,
        args.named.len(),
    )
}

/// The type that a projection is resolved against: for a variable its first
/// upper bound, else its first lower bound, else `Any`; for a field access
/// the primary type of its target; anything else is its own primary type.
pub open spec fn primary_type_spec(info: InfoTy, e: Ty) -> Ty
    decreases e,
{
    match e {
        Ty::Var(v, _) => {
            if info.ubs(v).len() > 0 {
                info.ubs(v)[0]
            } else if info.lbs(v).len() > 0 {
                info.lbs(v)[0]
            } else {
                Ty::Any
            }
        },
        Ty::At(target, _) => primary_type_spec(info, *target),
        _ => e,
    }
}

/// What an application has come to: the result of type checking, the
/// candidates for the type of the call, and whether every variable that was
/// met is known.
pub struct Applied {
    pub info: InfoTy,
    pub candidates: Seq<Ty>,
    pub ok: bool,
}

/// The partial application of the signature `sig` to `args`.
pub open spec fn partial_apply_spec(sig: SigTy, args: ArgsTy) -> Ty {
    Ty::With(Box::new(Ty::Func(sig)), seq![args])
}

/// Applying the method `method` of `primary` to `args`: the methods `with`
/// and `where` of a function constrain the arguments by its signature and
/// give its partial application as a candidate. Anything else does nothing.
pub open spec fn apply_method_spec(st: Applied, primary: Ty, method: Seq<char>, args: ArgsTy)
    -> Applied {
    if primary is Func && (method == "with"@ || method == "where"@) {
        Applied {
            info: constrain_call(st.info, primary->Func_0, args),
            candidates: st.candidates.push(partial_apply_spec(primary->Func_0, args)),
            ..st
        }
    } else {
        st
    }
}

/// The declared type of a parameter: `Any` where none is declared.
pub open spec fn declared(p: ParamVal) -> Ty {
    match p.infer_type {
        Some(t) => t,
        None => Ty::Any,
    }
}

/// The declared type that the positional argument `i` meets.
pub open spec fn declared_at(params: Seq<ParamVal>, i: int) -> Ty {
    if 0 <= i < params.len() {
        declared(params[i])
    } else {
        Ty::Any
    }
}

/// The position of the first of the first `upto` parameters that has the
/// name `name`.
pub open spec fn param_position_upto(params: Seq<ParamVal>, name: Seq<char>, upto: int) -> Option<
    int,
>
    decreases upto,
{
    if upto <= 0 {
        None
    } else {
        match param_position_upto(params, name, upto - 1) {
            Some(j) => Some(j),
            None => if params[upto - 1].name == name {
                Some(upto - 1)
            } else {
                None
            },
        }
    }
}

/// The declared type of the first parameter named `name`, if there is such
/// a parameter and it declares a type.
pub open spec fn declared_named(params: Seq<ParamVal>, name: Seq<char>) -> Option<Ty> {
    match param_position_upto(params, name, params.len() as int) {
        Some(j) => params[j].infer_type,
        None => None,
    }
}

/// The spans of the positional arguments among the first `n` arguments.
pub open spec fn positional_spans(items: Seq<Arg>, n: nat) -> Seq<Span>
    decreases n,
{
    if n == 0 || n > items.len() {
        Seq::empty()
    } else {
        let before = positional_spans(items, (n - 1) as nat);
        match items[n - 1] {
            Arg::Pos(e) => before.push(e.span),
            _ => before,
        }
    }
}

/// The position of the first named argument called `name` among the first
/// `upto` arguments.
pub open spec fn named_arg_upto(items: Seq<Arg>, name: Seq<char>, upto: int) -> Option<int>
    decreases upto,
{
    if upto <= 0 {
        None
    } else {
        match named_arg_upto(items, name, upto - 1) {
            Some(j) => Some(j),
            None => match items[upto - 1] {
                Arg::Named { name: n, .. } => if n@ == name {
                    Some(upto - 1)
                } else {
                    None
                },
                _ => None,
            },
        }
    }
}

/// The result after the declared type `t` was recorded for the named
/// argument `name`: at the span of the item and at the span of its
/// expression.
pub open spec fn record_named(info: InfoTy, items: Seq<Arg>, name: Seq<char>, t: Ty) -> InfoTy {
    match named_arg_upto(items, name, items.len() as int) {
        Some(j) => match items[j] {
            Arg::Named { expr, span, .. } => info.record(span, t).record(expr.span, t),
            _ => info,
        },
        None => info,
    }
}

/// The result after each of the first `n` positional arguments was
/// constrained by the declared type at its position, which was then recorded
/// at the span of the argument.
pub open spec fn runtime_positional(
    info: InfoTy,
    actuals: Seq<Ty>,
    params: Seq<ParamVal>,
    spans: Seq<Span>,
    n: nat,
) -> InfoTy
    decreases n,
{
    if n == 0 || n > actuals.len() {
        info
    } else {
        let before = runtime_positional(info, actuals, params, spans, (n - 1) as nat);
        let t = declared_at(params, n - 1);
        let posted = constrain_spec(before, actuals[n - 1], t);
        if n - 1 < spans.len() {
            posted.record(spans[n - 1], t)
        } else {
            posted
        }
    }
}

/// The result after each of the first `n` named arguments was constrained
/// by the declared type of its name, which was then recorded for the
/// argument.
pub open spec fn runtime_named(
    info: InfoTy,
    actuals: Seq<(Seq<char>, Ty)>,
    params: Seq<ParamVal>,
    items: Seq<Arg>,
    n: nat,
) -> InfoTy
    decreases n,
{
    if n == 0 || n > actuals.len() {
        info
    } else {
        let before = runtime_named(info, actuals, params, items, (n - 1) as nat);
        match declared_named(params, actuals[n - 1].0) {
            Some(t) => record_named(
                constrain_spec(before, actuals[n - 1].1, t),
                items,
                actuals[n - 1].0,
                t,
            ),
            None => before,
        }
    }
}

/// Applying a callable value of the host library with the signature `sig`:
/// the arguments are constrained by the declared types, which are recorded
/// at the spans of the arguments, and the declared result is a candidate,
/// `Any` where none is declared.
pub open spec fn apply_runtime_spec(st: Applied, sig: SignatureVal, args: ArgsTy, items: Seq<Arg>)
    -> Applied {
    let spans = positional_spans(items, items.len());
    let first = runtime_positional(st.info, args.args, sig.pos, spans, args.args.len());
    let second = runtime_named(first, args.named, sig.named, items, args.named.len());
    Applied {
        info: second,
        candidates: st.candidates.push(
            match sig.ret_ty {
                Some(t) => t,
                None => Ty::Any,
            },
        ),
        ..st
    }
}

/// Applying `callee` to `args`, whose syntax is `items`.
///
/// - A function constrains the arguments by its signature and gives its
///   result as a candidate.
/// - A callable value of the host library is applied by its runtime
///   signature.
/// - A field access applies the method of the primary type of its target.
/// - A known variable is applied through each of its lower bounds, then each
///   of its upper bounds, as they stand when the variable is met. A variable
///   that is met again among its own bounds (`visiting`) is passed over. An
///   unknown variable makes the application fail, and nothing is applied
///   after a failure.
/// - Anything else does nothing.
///
/// `known` are the variables of the result of type checking.
pub open spec fn check_apply_spec(
    st: Applied,
    known: Set<DefId>,
    visiting: Set<DefId>,
    callee: Ty,
    args: ArgsTy,
    items: Seq<Arg>,
) -> Applied
    decreases known.difference(visiting).len(), callee, 0nat,
    when known.finite()
{
    if !st.ok {
        st
    } else {
        match callee {
            Ty::Var(v, _) => {
                if !st.info.vars.contains_key(v) {
                    Applied { ok: false, ..st }
                } else if visiting.contains(v) || !known.contains(v) {
                    st
                } else {
                    let bounds = st.info.vars[v].lbs + st.info.vars[v].ubs;
                    proof {
                        known.lemma_set_insert_diff_decreases(visiting, v);
                    }
                    check_apply_each(
                        st,
                        known,
                        visiting.insert(v),
                        bounds,
                        args,
                        items,
                        bounds.len(),
                    )
                }
            },
            Ty::Func(sig) => Applied {
                info: constrain_call(st.info, sig, args),
                candidates: st.candidates.push(*sig.ret),
                ..st
            },
            Ty::Value(v, _) => match v {
                Val::Func(f) => apply_runtime_spec(st, f.signature, args, items),
                _ => st,
            },
            Ty::ValueDoc(v, _) => match v {
                Val::Func(f) => apply_runtime_spec(st, f.signature, args, items),
                _ => st,
            },
            Ty::At(target, method) => apply_method_spec(
                st,
                primary_type_spec(st.info, *target),
                method,
                args,
            ),
            _ => st,
        }
    }
}

/// Applying each of the first `n` terms of `bounds` in turn.
pub open spec fn check_apply_each(
    st: Applied,
    known: Set<DefId>,
    visiting: Set<DefId>,
    bounds: Seq<Ty>,
    args: ArgsTy,
    items: Seq<Arg>,
    n: nat,
) -> Applied
    decreases known.difference(visiting).len(), bounds, n,
    when known.finite()
{
    if n == 0 || n > bounds.len() {
        st
    } else {
        check_apply_spec(
            check_apply_each(st, known, visiting, bounds, args, items, (n - 1) as nat),
            known,
            visiting,
            bounds[n - 1],
            args,
            items,
        )
    }
}

/// The type of a call of `callee` with `args`: `Undef` if the application
/// failed, else the one candidate, `Any` for none, their union for more.
pub open spec fn call_spec(info: InfoTy, callee: Ty, args: ArgsTy, items: Seq<Arg>) -> (
    InfoTy,
    Option<Ty>,
) {
    let start = Applied { info, candidates: Seq::empty(), ok: true };
    let done = check_apply_spec(start, info.vars.dom(), Set::empty(), callee, args, items);
    (
        done.info,
        if done.ok {
            Some(crate::ty::def::from_types_spec(done.candidates))
        } else {
            None
        },
    )
}

/// Once an application has failed, applying more changes nothing.
pub proof fn lemma_failed_stays(
    st: Applied,
    known: Set<DefId>,
    visiting: Set<DefId>,
    bounds: Seq<Ty>,
    args: ArgsTy,
    items: Seq<Arg>,
    i: nat,
    n: nat,
)
    requires
        known.finite(),
        i <= n <= bounds.len(),
        !check_apply_each(st, known, visiting, bounds, args, items, i).ok,
    ensures
        check_apply_each(st, known, visiting, bounds, args, items, n) == check_apply_each(
            st,
            known,
            visiting,
            bounds,
            args,
            items,
            i,
        ),
    decreases n - i,
{
    if i < n {
        lemma_failed_stays(st, known, visiting, bounds, args, items, i, (n - 1) as nat);
        let before = check_apply_each(st, known, visiting, bounds, args, items, (n - 1) as nat);
        assert(check_apply_spec(before, known, visiting, bounds[n - 1], args, items) == before);
    }
}

#[verifier::loop_isolation(false)]
fn named_lookup(formals: &Vec<(String, FlowType)>, name: &String) -> (r: Option<usize>)
    ensures
        match r {
            Some(j) => j < formals.len() && named_position_upto(
                named_view(formals),
                name@,
                formals.len() as int,
            ) == Some(j as int),
            None => named_position_upto(named_view(formals), name@, formals.len() as int)
                is None,
        },
{
    let mut j: usize = 0;
    while j < formals.len()
        invariant
            j <= formals.len(),
            named_position_upto(named_view(formals), name@, j as int) is None,
        decreases formals.len() - j,
    {
        assert(named_view(formals)[j as int].0 == formals[j as int].0@);
        if formals[j].0 == *name {
            proof {
                lemma_named_position_stable(
                    named_view(formals),
                    name@,
                    j + 1,
                    formals.len() as int,
                );
            }
            return Some(j);
        }
        j += 1;
    }
    None
}

proof fn lemma_named_position_stable(s: Seq<(Seq<char>, Ty)>, name: Seq<char>, upto: int, more: int)
    requires
        0 <= upto <= more <= s.len(),
        named_position_upto(s, name, upto) is Some,
    ensures
        named_position_upto(s, name, more) == named_position_upto(s, name, upto),
    decreases more - upto,
{
    if upto < more {
        lemma_named_position_stable(s, name, upto, more - 1);
    }
}

proof fn lemma_param_position_stable(s: Seq<ParamVal>, name: Seq<char>, upto: int, more: int)
    requires
        0 <= upto <= more <= s.len(),
        param_position_upto(s, name, upto) is Some,
    ensures
        param_position_upto(s, name, more) == param_position_upto(s, name, upto),
    decreases more - upto,
{
    if upto < more {
        lemma_param_position_stable(s, name, upto, more - 1);
    }
}

proof fn lemma_named_arg_stable(s: Seq<Arg>, name: Seq<char>, upto: int, more: int)
    requires
        0 <= upto <= more <= s.len(),
        named_arg_upto(s, name, upto) is Some,
    ensures
        named_arg_upto(s, name, more) == named_arg_upto(s, name, upto),
    decreases more - upto,
{
    if upto < more {
        lemma_named_arg_stable(s, name, upto, more - 1);
    }
}

#[verifier::loop_isolation(false)]
fn param_lookup(params: &Vec<ParamSpec>, name: &String) -> (r: Option<usize>)
    ensures
        match r {
            Some(j) => j < params.len() && param_position_upto(
                params_view(params),
                name@,
                params.len() as int,
            ) == Some(j as int),
            None => param_position_upto(params_view(params), name@, params.len() as int) is None,
        },
{
    let mut j: usize = 0;
    while j < params.len()
        invariant
            j <= params.len(),
            param_position_upto(params_view(params), name@, j as int) is None,
        decreases params.len() - j,
    {
        assert(params_view(params)[j as int] == param_view(&params[j as int]));
        if params[j].name == *name {
            proof {
                lemma_param_position_stable(
                    params_view(params),
                    name@,
                    j + 1,
                    params.len() as int,
                );
            }
            return Some(j);
        }
        j += 1;
    }
    None
}

#[verifier::loop_isolation(false)]
fn named_arg_lookup(items: &Vec<Arg>, name: &String) -> (r: Option<usize>)
    ensures
        match r {
            Some(j) => j < items.len() && named_arg_upto(items@, name@, items.len() as int)
                == Some(j as int),
            None => named_arg_upto(items@, name@, items.len() as int) is None,
        },
{
    let mut j: usize = 0;
    while j < items.len()
        invariant
            j <= items.len(),
            named_arg_upto(items@, name@, j as int) is None,
        decreases items.len() - j,
    {
        match &items[j] {
            Arg::Named { name: n, .. } => {
                if *n == *name {
                    proof {
                        lemma_named_arg_stable(items@, name@, j + 1, items.len() as int);
                    }
                    return Some(j);
                }
            },
            _ => {},
        }
        j += 1;
    }
    None
}

#[verifier::loop_isolation(false)]
fn spans_of_positional(items: &Vec<Arg>) -> (r: Vec<Span>)
    ensures
        r@ == positional_spans(items@, items.len() as nat),
{
    let mut out: Vec<Span> = Vec::new();
    let mut i: usize = 0;
    while i < items.len()
        invariant
            i <= items.len(),
            out@ == positional_spans(items@, i as nat),
        decreases items.len() - i,
    {
        match &items[i] {
            Arg::Pos(e) => {
                out.push(e.span);
            },
            _ => {},
        }
        i += 1;
    }
    out
}

impl TypeCheckInfo {
    /// The type that a projection on `e` is resolved against.
    pub fn check_primary_type(&self, e: FlowType) -> (r: FlowType)
        ensures
            r@ == primary_type_spec(self@, e@),
        decreases e@,
    {
        match e {
            FlowType::Var(v) => {
                match self.var(v.0) {
                    Some(w) => {
                        if w.store.ubs.len() > 0 {
                            assert(w@.ubs[0] == w.store.ubs[0]@);
                            return clone_ty(&w.store.ubs[0]);
                        }
                        if w.store.lbs.len() > 0 {
                            assert(w@.lbs[0] == w.store.lbs[0]@);
                            return clone_ty(&w.store.lbs[0]);
                        }
                        FlowType::Any
                    },
                    None => FlowType::Any,
                }
            },
            FlowType::At(a) => {
                assert(*e@->At_0 == a.0.0@);
                let inner = *a.0;
                self.check_primary_type(inner.0)
            },
            e => e,
        }
    }

    /// The partial application of the signature `f` to `args`.
    pub fn partial_apply(&self, f: &FlowSignature, args: &FlowArgs) -> (r: FlowType)
        ensures
            r@ == partial_apply_spec(f@, args@),
    {
        let mut bundles: Vec<FlowArgs> = Vec::new();
        bundles.push(clone_args(args));
        let callee = FlowType::Func(Box::new(clone_sig(f)));
        assert(crate::ty::def::args_list_view(&bundles) =~= seq![args@]);
        assert(callee@ == Ty::Func(f@));
        FlowType::With(Box::new((callee, bundles)))
    }

    /// Constrains the arguments `args` by the signature `f`.
    #[verifier::loop_isolation(false)]
    pub fn constrain_call(&mut self, f: &FlowSignature, args: &FlowArgs)
        ensures
            final(self)@ == constrain_call(old(self)@, f@, args@),
            old(self)@.posts_to(final(self)@),
    {
        let ghost start = self@;
        let any = FlowType::Any;
        let mut i: usize = 0;
        while i < args.args.len()
            invariant
                i <= args.args.len(),
                self@ == constrain_positional(start, args@.args, f@.pos, i as nat),
                start.posts_to(self@),
                any@ == Ty::Any,
            decreases args.args.len() - i,
        {
            let ghost before = self@;
            assert(args@.args[i as int] == args.args[i as int]@);
            if i < f.pos.len() {
                assert(f@.pos[i as int] == f.pos[i as int]@);
                self.constrain(&args.args[i], &f.pos[i]);
            } else {
                self.constrain(&args.args[i], &any);
            }
            proof {
                lemma_constrain_posts(before, args@.args[i as int], formal_at(f@.pos, i as int));
                lemma_posts_trans(start, before, self@);
            }
            i += 1;
        }
        let ghost middle = self@;
        let mut i: usize = 0;
        while i < args.named.len()
            invariant
                i <= args.named.len(),
                self@ == constrain_named(middle, args@.named, f@.named, i as nat),
                start.posts_to(self@),
            decreases args.named.len() - i,
        {
            let ghost before = self@;
            assert(args@.named[i as int] == (args.named[i as int].0@, args.named[i as int].1@));
            match named_lookup(&f.named, &args.named[i].0) {
                Some(j) => {
                    assert(f@.named[j as int].1 == f.named[j as int].1@);
                    self.constrain(&args.named[i].1, &f.named[j].1);
                    proof {
                        lemma_constrain_posts(before, args@.named[i as int].1, f@.named[j as int].1);
                        lemma_posts_trans(start, before, self@);
                    }
                },
                None => {},
            }
            i += 1;
        }
    }

    /// Applies the method `method_name` of `primary_type` to `args`.
    pub fn check_apply_method(
        &mut self,
        primary_type: FlowType,
        method_name: &String,
        args: &FlowArgs,
        candidates: &mut Vec<FlowType>,
    ) -> (r: Option<()>)
        ensures
            r is Some,
            ({
                let st = Applied {
                    info: old(self)@,
                    candidates: tys_view(old(candidates)),
                    ok: true,
                };
                let done = apply_method_spec(st, primary_type@, method_name@, args@);
                final(self)@ == done.info && tys_view(final(candidates)) == done.candidates
            }),
            old(self)@.posts_to(final(self)@),
    {
        match primary_type {
            FlowType::Func(v) => {
                if is_text(method_name, "with") || is_text(method_name, "where") {
                    assert(primary_type@->Func_0 == sig_view(&v));
                    self.constrain_call(&v, args);
                    let ghost before = tys_view(candidates);
                    let applied = self.partial_apply(&v, args);
                    candidates.push(applied);
                    assert(tys_view(candidates) =~= before.push(partial_apply_spec(v@, args@)));
                }
            },
            _ => {},
        }
        Some(())
    }

    /// Constrains the positional arguments by the declared types of the
    /// runtime signature `sig`, and records those at the spans `spans`.
    #[verifier::loop_isolation(false)]
    fn runtime_positional(&mut self, sig: &Signature, args: &FlowArgs, spans: &Vec<Span>)
        ensures
            final(self)@ == runtime_positional(
                old(self)@,
                args@.args,
                sig@.pos,
                spans@,
                args@.args.len(),
            ),
            old(self)@.advances_to(final(self)@),
            old(self)@.vars.dom() == final(self)@.vars.dom(),
    {
        let ghost start = self@;
        let any = FlowType::Any;
        let mut i: usize = 0;
        while i < args.args.len()
            invariant
                i <= args.args.len(),
                self@ == runtime_positional(start, args@.args, sig@.pos, spans@, i as nat),
                start.advances_to(self@),
                start.vars.dom() == self@.vars.dom(),
                any@ == Ty::Any,
            decreases args.args.len() - i,
        {
            let ghost before = self@;
            assert(args@.args[i as int] == args.args[i as int]@);
            let pos_ty: &FlowType = if i < sig.pos.len() {
                assert(sig@.pos[i as int] == param_view(&sig.pos[i as int]));
                match &sig.pos[i].infer_type {
                    Some(t) => t,
                    None => &any,
                }
            } else {
                &any
            };
            assert(pos_ty@ == declared_at(sig@.pos, i as int));
            self.constrain(&args.args[i], pos_ty);
            proof {
                lemma_constrain_posts(before, args@.args[i as int], pos_ty@);
                lemma_posts_advances(before, self@);
                crate::ty::info::lemma_advances_trans(start, before, self@);
            }
            let ghost posted = self@;
            if i < spans.len() {
                self.record(spans[i], clone_ty(pos_ty));
                proof {
                    lemma_record_advances(posted, spans@[i as int], pos_ty@);
                    crate::ty::info::lemma_advances_trans(start, posted, self@);
                }
            }
            i += 1;
        }
    }

    /// Records the declared type `ty` for the named argument `name`.
    fn record_named(&mut self, syntax_args: &Vec<Arg>, name: &String, ty: &FlowType)
        ensures
            final(self)@ == record_named(old(self)@, syntax_args@, name@, ty@),
            old(self)@.advances_to(final(self)@),
            old(self)@.vars.dom() == final(self)@.vars.dom(),
    {
        let ghost start = self@;
        match named_arg_lookup(syntax_args, name) {
            Some(k) => {
                match &syntax_args[k] {
                    Arg::Named { expr, span, .. } => {
                        self.record(*span, clone_ty(ty));
                        let ghost first = self@;
                        self.record(expr.span, clone_ty(ty));
                        proof {
                            lemma_record_advances(start, *span, ty@);
                            lemma_record_advances(first, expr.span, ty@);
                            crate::ty::info::lemma_advances_trans(start, first, self@);
                        }
                    },
                    _ => {},
                }
            },
            None => {},
        }
    }

    /// Constrains the named arguments by the declared types of the runtime
    /// signature `sig`, and records those for the arguments.
    #[verifier::loop_isolation(false)]
    fn runtime_named(&mut self, sig: &Signature, args: &FlowArgs, syntax_args: &Vec<Arg>)
        ensures
            final(self)@ == runtime_named(
                old(self)@,
                args@.named,
                sig@.named,
                syntax_args@,
                args@.named.len(),
            ),
            old(self)@.advances_to(final(self)@),
            old(self)@.vars.dom() == final(self)@.vars.dom(),
    {
        let ghost start = self@;
        let mut i: usize = 0;
        while i < args.named.len()
            invariant
                i <= args.named.len(),
                self@ == runtime_named(start, args@.named, sig@.named, syntax_args@, i as nat),
                start.advances_to(self@),
                start.vars.dom() == self@.vars.dom(),
            decreases args.named.len() - i,
        {
            let ghost before = self@;
            assert(args@.named[i as int] == (args.named[i as int].0@, args.named[i as int].1@));
            let name = &args.named[i].0;
            match param_lookup(&sig.named, name) {
                Some(j) => {
                    assert(sig@.named[j as int] == param_view(&sig.named[j as int]));
                    match &sig.named[j].infer_type {
                        Some(named_ty) => {
                            self.constrain(&args.named[i].1, named_ty);
                            let ghost posted = self@;
                            self.record_named(syntax_args, name, named_ty);
                            proof {
                                lemma_constrain_posts(before, args@.named[i as int].1, named_ty@);
                                lemma_posts_advances(before, posted);
                                crate::ty::info::lemma_advances_trans(start, before, posted);
                                crate::ty::info::lemma_advances_trans(start, posted, self@);
                            }
                        },
                        None => {},
                    }
                },
                None => {},
            }
            i += 1;
        }
    }

    /// Applies a callable value of the host library with the runtime
    /// signature `sig` to `args`.
    pub fn check_apply_runtime(
        &mut self,
        sig: &Signature,
        args: &FlowArgs,
        syntax_args: &Vec<Arg>,
        candidates: &mut Vec<FlowType>,
    ) -> (r: Option<()>)
        ensures
            r is Some,
            ({
                let st = Applied {
                    info: old(self)@,
                    candidates: tys_view(old(candidates)),
                    ok: true,
                };
                let done = apply_runtime_spec(st, sig@, args@, syntax_args@);
                final(self)@ == done.info && tys_view(final(candidates)) == done.candidates
            }),
            old(self)@.advances_to(final(self)@),
            old(self)@.vars.dom() == final(self)@.vars.dom(),
    {
        let ghost start = self@;
        let spans = spans_of_positional(syntax_args);
        self.runtime_positional(sig, args, &spans);
        let ghost middle = self@;
        self.runtime_named(sig, args, syntax_args);
        proof {
            crate::ty::info::lemma_advances_trans(start, middle, self@);
        }
        let ghost before = tys_view(candidates);
        let ret = match &sig.ret_ty {
            Some(t) => clone_ty(t),
            None => FlowType::Any,
        };
        candidates.push(ret);
        assert(tys_view(candidates) =~= before.push(ret@));
        Some(())
    }
}

/// The lower bounds of a variable followed by its upper bounds.
fn bounds_of(lbs: &Vec<FlowType>, ubs: &Vec<FlowType>) -> (r: Vec<FlowType>)
    ensures
        tys_view(&r) == tys_view(lbs) + tys_view(ubs),
{
    let mut all = clone_tys(lbs);
    let mut rest = clone_tys(ubs);
    let ghost a = tys_view(&all);
    let ghost b = tys_view(&rest);
    all.append(&mut rest);
    assert(tys_view(&all) =~= a + b);
    all
}

impl TypeCheckInfo {
    /// Applies `callee` to `args`, whose syntax is `syntax_args`, and adds
    /// the candidates for the type of the call to `candidates`. `visiting`
    /// holds the variables whose bounds are being applied.
    pub fn check_apply(
        &mut self,
        callee: &FlowType,
        args: &FlowArgs,
        syntax_args: &Vec<Arg>,
        candidates: &mut Vec<FlowType>,
        visiting: &mut HashSet<u64>,
    ) -> (r: Option<()>)
        ensures
            ({
                let st = Applied {
                    info: old(self)@,
                    candidates: tys_view(old(candidates)),
                    ok: true,
                };
                let done = check_apply_spec(
                    st,
                    old(self)@.vars.dom(),
                    def_ids(old(visiting)@),
                    callee@,
                    args@,
                    syntax_args@,
                );
                final(self)@ == done.info && tys_view(final(candidates)) == done.candidates && (r
                    is Some) == done.ok
            }),
            final(visiting)@ == old(visiting)@,
            old(self)@.advances_to(final(self)@),
            old(self)@.vars.dom() == final(self)@.vars.dom(),
        decreases old(self)@.vars.dom().difference(def_ids(old(visiting)@)).len(), callee@, 1nat,
    {
        proof {
            lemma_info_finite(self);
        }
        let ghost known = self@.vars.dom();
        let ghost seen = def_ids(visiting@);
        match callee {
            FlowType::Var(v) => {
                let id = v.0;
                let bounds = match self.var(id) {
                    Some(w) => bounds_of(&w.store.lbs, &w.store.ubs),
                    None => {
                        return None;
                    },
                };
                if visiting.contains(&id.0) {
                    return Some(());
                }
                let ghost outer = visiting@;
                visiting.insert(id.0);
                proof {
                    assert(def_ids(visiting@) =~= seen.insert(id));
                    known.lemma_set_insert_diff_decreases(seen, id);
                }
                let r = self.check_apply_each(&bounds, args, syntax_args, candidates, visiting);
                visiting.remove(&id.0);
                assert(visiting@ =~= outer);
                r
            },
            FlowType::Func(f) => {
                assert(callee@->Func_0 == sig_view(f));
                self.constrain_call(f, args);
                proof {
                    lemma_posts_advances(old(self)@, self@);
                }
                let ghost before = tys_view(candidates);
                candidates.push(clone_ty(&f.ret));
                assert(tys_view(candidates) =~= before.push(f.ret@));
                Some(())
            },
            FlowType::Value(v) => {
                match &v.0 {
                    Value::Func(f) => {
                        assert(v.0@->Func_0.signature == signature_view(&f.signature));
                        self.check_apply_runtime(&f.signature, args, syntax_args, candidates)
                    },
                    _ => Some(()),
                }
            },
            FlowType::ValueDoc(v) => {
                match &v.0 {
                    Value::Func(f) => {
                        assert(v.0@->Func_0.signature == signature_view(&f.signature));
                        self.check_apply_runtime(&f.signature, args, syntax_args, candidates)
                    },
                    _ => Some(()),
                }
            },
            FlowType::At(e) => {
                let primary_type = self.check_primary_type(clone_ty(&e.0.0));
                let r = self.check_apply_method(primary_type, &e.0.1, args, candidates);
                proof {
                    lemma_posts_advances(old(self)@, self@);
                }
                r
            },
            _ => Some(()),
        }
    }

    /// Applies each of `bounds` in turn, up to the first failure.
    #[verifier::loop_isolation(false)]
    fn check_apply_each(
        &mut self,
        bounds: &Vec<FlowType>,
        args: &FlowArgs,
        syntax_args: &Vec<Arg>,
        candidates: &mut Vec<FlowType>,
        visiting: &mut HashSet<u64>,
    ) -> (r: Option<()>)
        ensures
            ({
                let st = Applied {
                    info: old(self)@,
                    candidates: tys_view(old(candidates)),
                    ok: true,
                };
                let done = check_apply_each(
                    st,
                    old(self)@.vars.dom(),
                    def_ids(old(visiting)@),
                    tys_view(bounds),
                    args@,
                    syntax_args@,
                    bounds.len() as nat,
                );
                final(self)@ == done.info && tys_view(final(candidates)) == done.candidates && (r
                    is Some) == done.ok
            }),
            final(visiting)@ == old(visiting)@,
            old(self)@.advances_to(final(self)@),
            old(self)@.vars.dom() == final(self)@.vars.dom(),
        decreases old(self)@.vars.dom().difference(def_ids(old(visiting)@)).len(),
            tys_view(bounds),
            bounds.len(),
    {
        proof {
            lemma_info_finite(self);
        }
        let ghost known = self@.vars.dom();
        let ghost seen = def_ids(visiting@);
        let ghost start = Applied {
            info: self@,
            candidates: tys_view(candidates),
            ok: true,
        };
        let mut i: usize = 0;
        let mut ok = true;
        while i < bounds.len() && ok
            invariant
                i <= bounds.len(),
                ({
                    let done = check_apply_each(
                        start,
                        known,
                        seen,
                        tys_view(bounds),
                        args@,
                        syntax_args@,
                        i as nat,
                    );
                    self@ == done.info && tys_view(candidates) == done.candidates && ok == done.ok
                }),
                visiting@ == old(visiting)@,
                start.info.advances_to(self@),
                self@.vars.dom() == known,
            decreases bounds.len() - i,
        {
            let ghost before = self@;
            assert(tys_view(bounds)[i as int] == bounds[i as int]@);
            let r = self.check_apply(&bounds[i], args, syntax_args, candidates, visiting);
            proof {
                crate::ty::info::lemma_advances_trans(start.info, before, self@);
            }
            match r {
                Some(_) => {},
                None => {
                    ok = false;
                },
            }
            i += 1;
        }
        proof {
            if !ok {
                lemma_failed_stays(
                    start,
                    known,
                    seen,
                    tys_view(bounds),
                    args@,
                    syntax_args@,
                    i as nat,
                    bounds.len() as nat,
                );
            }
        }
        if ok {
            Some(())
        } else {
            None
        }
    }
}

} // verus!
