//! Types read off the declarations of the host library.

use vstd::prelude::*;

use crate::syntax::{DETACHED, Span};
use crate::ty::builtin::{param_mapping, param_mapping_spec};
use crate::ty::copy::{clone_element, clone_type, clone_value};
use crate::ty::def::{FlowType, Ty, opt_ty_view, ty_view, tys_view};
use crate::value::{
    CastInfo, CastVal, Func, FuncRepr, FuncVal, ParamInfo, ReprVal, Val, Value, cast_view,
};

verus! {

/// The term that stands for a declared description of values: a documented
/// value for one value, a type literal that no span carries for a type, and a
/// union, member by member, for several descriptions.
pub open spec fn cast_ty(c: CastVal) -> Ty
    decreases c,
{
    match c {
        CastVal::Any => Ty::Any,
        CastVal::Value(v, doc) => Ty::ValueDoc(v, doc),
        CastVal::Type(t) => Ty::Value(Val::Type(t), Span(DETACHED)),
        CastVal::Union(s) => Ty::Union(
            Seq::new(
                s.len(),
                |i: int|
                    if 0 <= i < s.len() {
                        cast_ty(s[i])
                    } else {
                        arbitrary()
                    },
            ),
        ),
    }
}

/// What a call of `f` returns, `c` being the declared description of its
/// result: the element itself for an element constructor, whatever the
/// wrapped callable returns for a partial application.
pub open spec fn return_site_spec(f: FuncVal, c: CastVal) -> Ty
    decreases f,
{
    match f.repr {
        ReprVal::Element(e) => Ty::Element(e),
        ReprVal::With(inner) => return_site_spec(*inner, c),
        _ => cast_ty(c),
    }
}

/// What the parameter `p` of `f` accepts, `c` being its declared
/// description: the catalog's refined type where it holds one for an element
/// constructor or a native function.
pub open spec fn param_site_spec(f: FuncVal, p: Seq<char>, c: CastVal) -> Ty
    decreases f,
{
    match f.repr {
        ReprVal::With(inner) => param_site_spec(*inner, p, c),
        ReprVal::Closure => cast_ty(c),
        _ => match param_mapping_spec(f.name, p) {
            Some(t) => t,
            None => cast_ty(c),
        },
    }
}

/// The term that stands for a declared description of values.
#[verifier::loop_isolation(false)]
pub fn cast_type(c: &CastInfo) -> (r: FlowType)
    ensures
        r@ == cast_ty(c@),
    decreases c,
{
    match c {
        CastInfo::Any => FlowType::Any,
        CastInfo::Value(v, doc) => FlowType::ValueDoc(Box::new((clone_value(v), doc.clone()))),
        CastInfo::Type(t) => {
            let v = Value::Type(clone_type(t));
            assert(v@ == Val::Type(t@));
            FlowType::Value(Box::new((v, Span::detached())))
        },
        CastInfo::Union(v) => {
            let mut out: Vec<FlowType> = Vec::new();
            let mut i: usize = 0;
            while i < v.len()
                invariant
                    i <= v.len(),
                    out@.len() == i,
                    forall|k: int| 0 <= k < i ==> ty_view(&out@[k]) == cast_ty(cast_view(&v@[k])),
                decreases v.len() - i,
            {
                out.push(cast_type(&v[i]));
                i += 1;
            }
            assert(tys_view(&out) =~= cast_ty(c@)->Union_0);
            FlowType::Union(Box::new(out))
        },
    }
}

impl FlowType {
    /// The type of what a call of `f` returns, given the declared description
    /// of its result.
    pub fn from_return_site(f: &Func, c: &CastInfo) -> (r: Option<FlowType>)
        ensures
            opt_ty_view(&r) == Some(return_site_spec(f@, c@)),
        decreases f,
    {
        match &f.repr {
            FuncRepr::Element(e) => Some(FlowType::Element(clone_element(e))),
            FuncRepr::With(inner) => FlowType::from_return_site(inner, c),
            FuncRepr::Closure => Some(cast_type(c)),
            FuncRepr::Native => Some(cast_type(c)),
        }
    }

    /// The type that the parameter `p` of `f` accepts, given its declared
    /// description.
    pub fn from_param_site(f: &Func, p: &ParamInfo, s: &CastInfo) -> (r: Option<FlowType>)
        ensures
            opt_ty_view(&r) == Some(param_site_spec(f@, p@, s@)),
        decreases f,
    {
        match &f.repr {
            FuncRepr::With(inner) => FlowType::from_param_site(inner, p, s),
            FuncRepr::Closure => Some(cast_type(s)),
            _ => {
                match param_mapping(f, p) {
                    Some(t) => Some(t),
                    None => Some(cast_type(s)),
                }
            },
        }
    }
}

} // verus!
