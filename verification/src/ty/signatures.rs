//! Extracting the signatures under which a type can be called.

use std::collections::HashSet;
use vstd::prelude::*;
use vstd::std_specs::hash::*;

use crate::syntax::DefId;
use crate::ty::copy::{clone_sig, clone_ty};
use crate::ty::def::{
    ArgsTy, FlowArgs, FlowSignature, FlowType, SigTy, Ty, args_list_view, named_view, sig_view,
    tys_view,
};
use crate::ty::info::{InfoTy, TypeCheckInfo, lemma_info_finite};
use crate::ty::simplify::simplify_spec;

verus! {

broadcast use vstd::std_specs::hash::group_hash_axioms;

/// How many positional arguments the first `n` bundles of `bundles` hold.
pub open spec fn applied_count(bundles: Seq<ArgsTy>, n: nat) -> nat
    decreases n,
{
    if n == 0 || n > bundles.len() {
        0
    } else {
        applied_count(bundles, (n - 1) as nat) + bundles[n - 1].args.len()
    }
}

/// The signature `sig` after `k` leading positional parameters were
/// consumed.
pub open spec fn consume_positional(sig: SigTy, k: nat) -> SigTy {
    SigTy {
        pos: if sig.pos.len() > k {
            sig.pos.subrange(k as int, sig.pos.len() as int)
        } else {
            Seq::empty()
        },
        ..sig
    }
}

/// The signatures under which `ty` can be called, in the order in which they
/// are found.
///
/// A function gives its signature. A partial application gives the
/// signatures of what it applies, each less as many leading positional
/// parameters as its bundles hold positional arguments. A union gives the
/// signatures of its members. A variable gives the signatures of its upper
/// bounds and, unless `principal` is set, of its lower bounds; a variable
/// that is unknown, or that is met again among its own bounds (`visiting`),
/// gives none. Anything else gives none.
pub open spec fn check_signatures_spec(
    info: InfoTy,
    visiting: Set<DefId>,
    ty: Ty,
    principal: bool,
) -> Seq<SigTy>
    decreases info.vars.dom().difference(visiting).len(), ty, 0nat,
    when info.vars.dom().finite()
{
    match ty {
        Ty::Func(s) => seq![s],
        Ty::With(f, bundles) => {
            let found = check_signatures_spec(info, visiting, *f, principal);
            let k = applied_count(bundles, bundles.len());
            Seq::new(found.len(), |i: int| consume_positional(found[i], k))
        },
        Ty::Union(u) => check_signatures_all(info, visiting, u, principal, u.len()),
        Ty::Var(v, _) => {
            if !info.vars.contains_key(v) || visiting.contains(v) {
                Seq::empty()
            } else {
                let inner = visiting.insert(v);
                proof {
                    info.vars.dom().lemma_set_insert_diff_decreases(visiting, v);
                }
                let ubs = info.vars[v].ubs;
                let lbs = info.vars[v].lbs;
                let upper = check_signatures_all(info, inner, ubs, principal, ubs.len());
                if principal {
                    upper
                } else {
                    upper + check_signatures_all(info, inner, lbs, principal, lbs.len())
                }
            }
        },
        _ => Seq::empty(),
    }
}

/// The signatures of the first `n` terms of `s`, one term after the other.
pub open spec fn check_signatures_all(
    info: InfoTy,
    visiting: Set<DefId>,
    s: Seq<Ty>,
    principal: bool,
    n: nat,
) -> Seq<SigTy>
    decreases info.vars.dom().difference(visiting).len(), s, n,
    when info.vars.dom().finite()
{
    if n == 0 || n > s.len() {
        Seq::empty()
    } else {
        check_signatures_all(info, visiting, s, principal, (n - 1) as nat) + check_signatures_spec(
            info,
            visiting,
            s[n - 1],
            principal,
        )
    }
}

/// The signature `sig` with the types of its positional and named
/// parameters simplified, each on its own.
pub open spec fn simplify_params(info: InfoTy, sig: SigTy, principal: bool) -> SigTy {
    SigTy {
        pos: Seq::new(sig.pos.len(), |i: int| simplify_spec(info, sig.pos[i], principal)),
        named: Seq::new(
            sig.named.len(),
            |i: int| (sig.named[i].0, simplify_spec(info, sig.named[i].1, principal)),
        ),
        ..sig
    }
}

/// The signatures under which `ty` can be called, with the types of their
/// parameters simplified; nothing if there is none.
pub open spec fn signatures_spec(info: InfoTy, ty: Ty, principal: bool) -> Option<Seq<SigTy>> {
    let found = check_signatures_spec(info, Set::empty(), ty, principal);
    if found.len() == 0 {
        None
    } else {
        Some(Seq::new(found.len(), |i: int| simplify_params(info, found[i], principal)))
    }
}

/// The mathematical value of a list of signatures.
pub open spec fn sigs_view(v: &Vec<FlowSignature>) -> Seq<SigTy> {
    Seq::new(v@.len(), |i: int| sig_view(&v@[i]))
}

/// The variables that a set of raw numbers stands for.
pub open spec fn def_ids(raw: Set<u64>) -> Set<DefId> {
    Set::new(|d: DefId| raw.contains(d.0))
}

/// Counts the positional arguments of the bundles, up to the largest number
/// that can be counted.
#[verifier::loop_isolation(false)]
fn count_applied(bundles: &Vec<FlowArgs>) -> (r: usize)
    ensures
        r == applied_count(args_list_view(bundles), bundles.len() as nat) || (r == usize::MAX
            && applied_count(args_list_view(bundles), bundles.len() as nat) > usize::MAX),
{
    let mut total: usize = 0;
    let mut i: usize = 0;
    while i < bundles.len()
        invariant
            i <= bundles.len(),
            total == applied_count(args_list_view(bundles), i as nat) || (total == usize::MAX
                && applied_count(args_list_view(bundles), i as nat) > usize::MAX),
        decreases bundles.len() - i,
    {
        assert(args_list_view(bundles)[i as int].args == tys_view(&bundles[i as int].args));
        let n = bundles[i].args.len();
        total = if n > usize::MAX - total {
            usize::MAX
        } else {
            total + n
        };
        i += 1;
    }
    total
}

/// The signature without its first `k` positional parameters.
#[verifier::loop_isolation(false)]
fn consume(sig: &FlowSignature, k: usize) -> (r: FlowSignature)
    ensures
        sig_view(&r) == consume_positional(sig_view(sig), k as nat),
{
    let mut pos: Vec<FlowType> = Vec::new();
    let mut i: usize = k;
    let ghost want = consume_positional(sig_view(sig), k as nat).pos;
    while i < sig.pos.len()
        invariant
            k <= i,
            sig.pos.len() > k ==> i <= sig.pos.len(),
            sig.pos.len() > k ==> pos@.len() == i - k,
            sig.pos.len() > k ==> forall|j: int| 0 <= j < i - k ==> pos@[j]@ == want[j],
            sig.pos.len() <= k ==> pos@.len() == 0,
        decreases sig.pos.len() - i,
    {
        assert(want[i - k] == tys_view(&sig.pos)[i as int]);
        pos.push(clone_ty(&sig.pos[i]));
        i += 1;
    }
    assert(tys_view(&pos) =~= want);
    let full = clone_sig(sig);
    FlowSignature { pos, named: full.named, rest: full.rest, ret: full.ret }
}

/// Appends to `sigs` the signatures of the partial application of `f` to the
/// bundles `args`.
#[verifier::loop_isolation(false)]
pub fn instantiate_signature(
    f: &FlowType,
    args: &Vec<FlowArgs>,
    sigs: &mut Vec<FlowSignature>,
    ty_chk: &TypeCheckInfo,
    principal: bool,
    visiting: &mut HashSet<u64>,
)
    ensures
        sigs_view(final(sigs)) == sigs_view(old(sigs)) + check_signatures_spec(
            ty_chk@,
            def_ids(old(visiting)@),
            Ty::With(Box::new(f@), args_list_view(args)),
            principal,
        ),
        final(visiting)@ == old(visiting)@,
    decreases ty_chk@.vars.dom().difference(def_ids(old(visiting)@)).len(),
        Ty::With(Box::new(f@), args_list_view(args)),
        0nat,
{
    proof {
        lemma_info_finite(ty_chk);
    }
    let ghost start = sigs_view(sigs);
    let mut found: Vec<FlowSignature> = Vec::new();
    assert(sigs_view(&found) =~= Seq::empty());
    proof {
        let whole = Ty::With(Box::new(f@), args_list_view(args));
        assert(*whole->With_0 == f@);
    }
    check_signatures(f, &mut found, ty_chk, principal, visiting);
    assert(sigs_view(&found) =~= check_signatures_spec(
        ty_chk@,
        def_ids(visiting@),
        f@,
        principal,
    ));
    let k = count_applied(args);
    let ghost want = check_signatures_spec(
        ty_chk@,
        def_ids(visiting@),
        Ty::With(Box::new(f@), args_list_view(args)),
        principal,
    );
    let mut i: usize = 0;
    while i < found.len()
        invariant
            i <= found.len(),
            sigs_view(sigs) == start + want.subrange(0, i as int),
            want.len() == found.len(),
        decreases found.len() - i,
    {
        let ghost before = sigs_view(sigs);
        let sig = consume(&found[i], k);
        proof {
            let total = applied_count(args_list_view(args), args.len() as nat);
            assert(sigs_view(&found)[i as int] == sig_view(&found[i as int]));
            assert(sig_view(&found[i as int]).pos.len() == found[i as int].pos.len());
            assert(consume_positional(sig_view(&found[i as int]), k as nat) == consume_positional(
                sig_view(&found[i as int]),
                total,
            ));
            assert(sig_view(&sig) == want[i as int]);
        }
        sigs.push(sig);
        assert(sigs_view(sigs) =~= before.push(want[i as int]));
        assert(sigs_view(sigs) =~= start + want.subrange(0, i + 1));
        i += 1;
    }
    assert(want.subrange(0, found.len() as int) =~= want);
}

/// Appends to `res` the signatures under which `ty` can be called.
#[verifier::loop_isolation(false)]
pub fn check_signatures(
    ty: &FlowType,
    res: &mut Vec<FlowSignature>,
    ty_chk: &TypeCheckInfo,
    principal: bool,
    visiting: &mut HashSet<u64>,
)
    ensures
        sigs_view(final(res)) == sigs_view(old(res)) + check_signatures_spec(
            ty_chk@,
            def_ids(old(visiting)@),
            ty@,
            principal,
        ),
        final(visiting)@ == old(visiting)@,
    decreases ty_chk@.vars.dom().difference(def_ids(old(visiting)@)).len(), ty@, 1nat,
{
    proof {
        lemma_info_finite(ty_chk);
    }
    let ghost start = sigs_view(res);
    let ghost seen = def_ids(visiting@);
    match ty {
        FlowType::Func(s) => {
            let ghost before = sigs_view(res);
            res.push(clone_sig(s));
            assert(ty@->Func_0 == sig_view(s));
            assert(sigs_view(res) =~= before + seq![sig_view(s)]);
        },
        FlowType::With(w) => {
            assert(*ty@->With_0 == w.0@);
            assert(ty@->With_1 == args_list_view(&w.1));
            instantiate_signature(&w.0, &w.1, res, ty_chk, principal, visiting);
        },
        FlowType::Union(u) => {
            assert(ty@->Union_0 == tys_view(u));
            check_signatures_in(u, res, ty_chk, principal, visiting);
        },
        FlowType::Var(u) => {
            let id = u.0;
            match ty_chk.var(id) {
                Some(var) => {
                    if !visiting.contains(&id.0) {
                        let ghost outer = visiting@;
                        visiting.insert(id.0);
                        proof {
                            assert(def_ids(visiting@) =~= seen.insert(id));
                            ty_chk@.vars.dom().lemma_set_insert_diff_decreases(seen, id);
                        }
                        check_signatures_in(&var.store.ubs, res, ty_chk, principal, visiting);
                        if !principal {
                            check_signatures_in(&var.store.lbs, res, ty_chk, principal, visiting);
                        }
                        visiting.remove(&id.0);
                        assert(visiting@ =~= outer);
                        assert(sigs_view(res) =~= start + check_signatures_spec(
                            ty_chk@,
                            seen,
                            ty@,
                            principal,
                        ));
                    } else {
                        assert(sigs_view(res) =~= start + Seq::<SigTy>::empty());
                    }
                },
                None => {
                    assert(sigs_view(res) =~= start + Seq::<SigTy>::empty());
                },
            }
        },
        _ => {
            assert(sigs_view(res) =~= start + Seq::<SigTy>::empty());
        },
    }
}

/// Appends to `res` the signatures of each term of `s`.
#[verifier::loop_isolation(false)]
fn check_signatures_in(
    s: &Vec<FlowType>,
    res: &mut Vec<FlowSignature>,
    ty_chk: &TypeCheckInfo,
    principal: bool,
    visiting: &mut HashSet<u64>,
)
    ensures
        sigs_view(final(res)) == sigs_view(old(res)) + check_signatures_all(
            ty_chk@,
            def_ids(old(visiting)@),
            tys_view(s),
            principal,
            s.len() as nat,
        ),
        final(visiting)@ == old(visiting)@,
    decreases ty_chk@.vars.dom().difference(def_ids(old(visiting)@)).len(), tys_view(s), s.len(),
{
    proof {
        lemma_info_finite(ty_chk);
    }
    let ghost start = sigs_view(res);
    let ghost seen = def_ids(visiting@);
    let mut i: usize = 0;
    assert(sigs_view(res) =~= start + Seq::<SigTy>::empty());
    while i < s.len()
        invariant
            i <= s.len(),
            sigs_view(res) == start + check_signatures_all(
                ty_chk@,
                seen,
                tys_view(s),
                principal,
                i as nat,
            ),
            visiting@ == old(visiting)@,
        decreases s.len() - i,
    {
        let ghost before = sigs_view(res);
        proof {
            assert(tys_view(s)[i as int] == s[i as int]@);
        }
        check_signatures(&s[i], res, ty_chk, principal, visiting);
        assert(sigs_view(res) =~= start + check_signatures_all(
            ty_chk@,
            seen,
            tys_view(s),
            principal,
            (i + 1) as nat,
        ));
        i += 1;
    }
}

/// The signature with the types of its positional and named parameters
/// simplified.
#[verifier::loop_isolation(false)]
fn simplify_signature(ty_chk: &TypeCheckInfo, sig: &FlowSignature, principal: bool) -> (r:
    FlowSignature)
    ensures
        sig_view(&r) == simplify_params(ty_chk@, sig_view(sig), principal),
{
    let ghost want = simplify_params(ty_chk@, sig_view(sig), principal);
    let mut pos: Vec<FlowType> = Vec::new();
    let mut i: usize = 0;
    while i < sig.pos.len()
        invariant
            i <= sig.pos.len(),
            pos@.len() == i,
            forall|j: int| 0 <= j < i ==> pos@[j]@ == want.pos[j],
        decreases sig.pos.len() - i,
    {
        assert(sig_view(sig).pos[i as int] == sig.pos[i as int]@);
        pos.push(ty_chk.simplify(clone_ty(&sig.pos[i]), principal));
        i += 1;
    }
    assert(tys_view(&pos) =~= want.pos);
    let mut named: Vec<(String, FlowType)> = Vec::new();
    let mut i: usize = 0;
    while i < sig.named.len()
        invariant
            i <= sig.named.len(),
            named@.len() == i,
            forall|j: int| 0 <= j < i ==> (named@[j].0@, named@[j].1@) == want.named[j],
        decreases sig.named.len() - i,
    {
        assert(sig_view(sig).named[i as int] == (sig.named[i as int].0@, sig.named[i as int].1@));
        named.push((sig.named[i].0.clone(), ty_chk.simplify(clone_ty(&sig.named[i].1), principal)));
        i += 1;
    }
    assert(named_view(&named) =~= want.named);
    let full = clone_sig(sig);
    FlowSignature { pos, named, rest: full.rest, ret: full.ret }
}

/// The mathematical value of an optional list of signatures.
pub open spec fn opt_sigs_view(v: &Option<Vec<FlowSignature>>) -> Option<Seq<SigTy>> {
    match v {
        Some(v) => Some(sigs_view(v)),
        None => None,
    }
}

impl FlowType {
    /// The signatures under which this type can be called, with the types of
    /// their parameters simplified; `None` if there is none.
    #[verifier::loop_isolation(false)]
    pub fn signatures(&self, ty_chk: &TypeCheckInfo, principal: bool) -> (r: Option<
        Vec<FlowSignature>,
    >)
        ensures
            opt_sigs_view(&r) == signatures_spec(ty_chk@, self@, principal),
    {
        let mut res: Vec<FlowSignature> = Vec::new();
        let mut visiting: HashSet<u64> = HashSet::new();
        assert(sigs_view(&res) =~= Seq::empty());
        assert(def_ids(visiting@) =~= Set::empty());
        check_signatures(self, &mut res, ty_chk, principal, &mut visiting);
        let ghost found = check_signatures_spec(ty_chk@, Set::empty(), self@, principal);
        assert(sigs_view(&res) =~= found);
        if res.len() == 0 {
            None
        } else {
            let mut out: Vec<FlowSignature> = Vec::new();
            let mut i: usize = 0;
            while i < res.len()
                invariant
                    i <= res.len(),
                    out@.len() == i,
                    forall|j: int|
                        0 <= j < i ==> sig_view(&out@[j]) == simplify_params(
                            ty_chk@,
                            found[j],
                            principal,
                        ),
                decreases res.len() - i,
            {
                assert(found[i as int] == sig_view(&res[i as int]));
                out.push(simplify_signature(ty_chk, &res[i], principal));
                i += 1;
            }
            assert(sigs_view(&out) =~= signatures_spec(ty_chk@, self@, principal)->0);
            Some(out)
        }
    }
}

/// How many positional parameters are left of `arity` once `applied` were
/// consumed: none if more were consumed than there are.
pub open spec fn remaining_arity(arity: nat, applied: nat) -> nat {
    if arity > applied {
        (arity - applied) as nat
    } else {
        0
    }
}

/// A partial application has as many signatures as what it applies, each
/// with as many positional parameters fewer as were applied, and with none
/// where more were applied than there are.
pub proof fn lemma_partial_application_arity(
    info: InfoTy,
    f: Ty,
    bundles: Seq<ArgsTy>,
    principal: bool,
)
    requires
        info.vars.dom().finite(),
    ensures
        ({
            let of = check_signatures_spec(info, Set::empty(), f, principal);
            let with = check_signatures_spec(
                info,
                Set::empty(),
                Ty::With(Box::new(f), bundles),
                principal,
            );
            &&& with.len() == of.len()
            &&& forall|i: int|
                0 <= i < with.len() ==> (#[trigger] with[i]).pos.len() == remaining_arity(
                    of[i].pos.len(),
                    applied_count(bundles, bundles.len()),
                )
        }),
{
}

/// The signatures that are extracted of the partial application of `f` to
/// one bundle `args` are as many as those of `f`, and the positional arity of
/// each is that of the signature of `f` less the number of positional
/// arguments of `args`, and zero where that would be less than zero.
pub proof fn lemma_with_arity(info: InfoTy, f: Ty, args: ArgsTy, principal: bool)
    requires
        info.vars.dom().finite(),
    ensures
        ({
            let with = Ty::With(Box::new(f), seq![args]);
            match (signatures_spec(info, f, principal), signatures_spec(info, with, principal)) {
                (Some(of), Some(w)) => w.len() == of.len() && forall|i: int|
                    0 <= i < w.len() ==> (#[trigger] w[i]).pos.len() == remaining_arity(
                        of[i].pos.len(),
                        args.args.len(),
                    ),
                (None, None) => true,
                _ => false,
            }
        }),
{
    let bundles = seq![args];
    lemma_partial_application_arity(info, f, bundles, principal);
    assert(applied_count(bundles, 1) == args.args.len()) by {
        assert(applied_count(bundles, 0) == 0);
    }
}

} // verus!
