//! Deep copies of type terms and host values.

use vstd::prelude::*;

use crate::syntax::Span;
use crate::ty::def::{
    FlowArgs, FlowAt, FlowBinaryType, FlowIfType, FlowRecord, FlowSignature, FlowType,
    FlowUnaryType, FlowVarStore, args_list_view, args_view, fields_view, named_view, opt_ty_view,
    sig_view, ty_view, tys_view,
};
use crate::value::{
    Element, Func, FuncRepr, ParamSpec, Signature, Type, Value, func_view, opt_str_view, param_view,
    params_view, signature_view, value_view,
};

verus! {

pub fn clone_opt_string(s: &Option<String>) -> (r: Option<String>)
    ensures
        opt_str_view(&r) == opt_str_view(s),
{
    match s {
        Some(s) => Some(s.clone()),
        None => None,
    }
}

pub fn clone_type(t: &Type) -> (r: Type)
    ensures
        r@ == t@,
{
    Type { name: t.name.clone(), long_name: t.long_name.clone() }
}

pub fn clone_element(e: &Element) -> (r: Element)
    ensures
        r@ == e@,
{
    Element { name: e.name.clone() }
}

pub fn clone_param(p: &ParamSpec) -> (r: ParamSpec)
    ensures
        param_view(&r) == param_view(p),
    decreases p,
{
    ParamSpec {
        name: p.name.clone(),
        docs: p.docs.clone(),
        infer_type: clone_opt_ty(&p.infer_type),
        positional: p.positional,
        named: p.named,
        variadic: p.variadic,
        settable: p.settable,
        expr: clone_opt_string(&p.expr),
    }
}

#[verifier::loop_isolation(false)]
pub fn clone_params(v: &Vec<ParamSpec>) -> (r: Vec<ParamSpec>)
    ensures
        params_view(&r) == params_view(v),
    decreases v,
{
    let mut out: Vec<ParamSpec> = Vec::new();
    let mut i: usize = 0;
    while i < v.len()
        invariant
            i <= v.len(),
            out@.len() == i,
            forall|k: int| 0 <= k < i ==> param_view(&out@[k]) == param_view(&v@[k]),
        decreases v.len() - i,
    {
        out.push(clone_param(&v[i]));
        i += 1;
    }
    assert(params_view(&out) =~= params_view(v));
    out
}

pub fn clone_signature(s: &Signature) -> (r: Signature)
    ensures
        signature_view(&r) == signature_view(s),
    decreases s,
{
    Signature {
        pos: clone_params(&s.pos),
        named: clone_params(&s.named),
        rest: match &s.rest {
            Some(p) => Some(clone_param(p)),
            None => None,
        },
        ret_ty: clone_opt_ty(&s.ret_ty),
    }
}

pub fn clone_func(f: &Func) -> (r: Func)
    ensures
        func_view(&r) == func_view(f),
    decreases f,
{
    Func {
        name: clone_opt_string(&f.name),
        repr: match &f.repr {
            FuncRepr::Native => FuncRepr::Native,
            FuncRepr::Element(e) => FuncRepr::Element(clone_element(e)),
            FuncRepr::Closure => FuncRepr::Closure,
            FuncRepr::With(inner) => FuncRepr::With(Box::new(clone_func(inner))),
        },
        signature: clone_signature(&f.signature),
    }
}

pub fn clone_value(v: &Value) -> (r: Value)
    ensures
        value_view(&r) == value_view(v),
    decreases v,
{
    match v {
        Value::NoneValue => Value::NoneValue,
        Value::Auto => Value::Auto,
        Value::Bool(b) => Value::Bool(*b),
        Value::Int(i) => Value::Int(*i),
        Value::Str(s) => Value::Str(s.clone()),
        Value::Type(t) => Value::Type(clone_type(t)),
        Value::Func(f) => Value::Func(Box::new(clone_func(f))),
        Value::Other(t, repr) => Value::Other(clone_type(t), repr.clone()),
    }
}

pub fn clone_opt_ty(t: &Option<FlowType>) -> (r: Option<FlowType>)
    ensures
        opt_ty_view(&r) == opt_ty_view(t),
    decreases t,
{
    match t {
        Some(t) => Some(clone_ty(t)),
        None => None,
    }
}

#[verifier::loop_isolation(false)]
pub fn clone_tys(v: &Vec<FlowType>) -> (r: Vec<FlowType>)
    ensures
        tys_view(&r) == tys_view(v),
    decreases v,
{
    let mut out: Vec<FlowType> = Vec::new();
    let mut i: usize = 0;
    while i < v.len()
        invariant
            i <= v.len(),
            out@.len() == i,
            forall|k: int| 0 <= k < i ==> ty_view(&out@[k]) == ty_view(&v@[k]),
        decreases v.len() - i,
    {
        out.push(clone_ty(&v[i]));
        i += 1;
    }
    assert(tys_view(&out) =~= tys_view(v));
    out
}

#[verifier::loop_isolation(false)]
pub fn clone_named(v: &Vec<(String, FlowType)>) -> (r: Vec<(String, FlowType)>)
    ensures
        named_view(&r) == named_view(v),
    decreases v,
{
    let mut out: Vec<(String, FlowType)> = Vec::new();
    let mut i: usize = 0;
    while i < v.len()
        invariant
            i <= v.len(),
            out@.len() == i,
            forall|k: int|
                0 <= k < i ==> out@[k].0@ == v@[k].0@ && ty_view(&out@[k].1) == ty_view(
                    &v@[k].1,
                ),
        decreases v.len() - i,
    {
        out.push((v[i].0.clone(), clone_ty(&v[i].1)));
        i += 1;
    }
    assert(named_view(&out) =~= named_view(v));
    out
}

#[verifier::loop_isolation(false)]
pub fn clone_fields(v: &Vec<(String, FlowType, Span)>) -> (r: Vec<(String, FlowType, Span)>)
    ensures
        fields_view(&r) == fields_view(v),
    decreases v,
{
    let mut out: Vec<(String, FlowType, Span)> = Vec::new();
    let mut i: usize = 0;
    while i < v.len()
        invariant
            i <= v.len(),
            out@.len() == i,
            forall|k: int|
                0 <= k < i ==> out@[k].0@ == v@[k].0@ && ty_view(&out@[k].1) == ty_view(
                    &v@[k].1,
                ) && out@[k].2 == v@[k].2,
        decreases v.len() - i,
    {
        out.push((v[i].0.clone(), clone_ty(&v[i].1), v[i].2));
        i += 1;
    }
    assert(fields_view(&out) =~= fields_view(v));
    out
}

pub fn clone_sig(s: &FlowSignature) -> (r: FlowSignature)
    ensures
        sig_view(&r) == sig_view(s),
    decreases s,
{
    FlowSignature {
        pos: clone_tys(&s.pos),
        named: clone_named(&s.named),
        rest: match &s.rest {
            Some(r) => Some(clone_ty(r)),
            None => None,
        },
        ret: clone_ty(&s.ret),
    }
}

pub fn clone_args(a: &FlowArgs) -> (r: FlowArgs)
    ensures
        args_view(&r) == args_view(a),
    decreases a,
{
    FlowArgs { args: clone_tys(&a.args), named: clone_named(&a.named) }
}

#[verifier::loop_isolation(false)]
pub fn clone_args_list(v: &Vec<FlowArgs>) -> (r: Vec<FlowArgs>)
    ensures
        args_list_view(&r) == args_list_view(v),
    decreases v,
{
    let mut out: Vec<FlowArgs> = Vec::new();
    let mut i: usize = 0;
    while i < v.len()
        invariant
            i <= v.len(),
            out@.len() == i,
            forall|k: int| 0 <= k < i ==> args_view(&out@[k]) == args_view(&v@[k]),
        decreases v.len() - i,
    {
        out.push(clone_args(&v[i]));
        i += 1;
    }
    assert(args_list_view(&out) =~= args_list_view(v));
    out
}

pub fn clone_ty(t: &FlowType) -> (r: FlowType)
    ensures
        ty_view(&r) == ty_view(t),
    decreases t,
{
    match t {
        FlowType::Clause => FlowType::Clause,
        FlowType::Undef => FlowType::Undef,
        FlowType::Content => FlowType::Content,
        FlowType::Any => FlowType::Any,
        FlowType::NoneType => FlowType::NoneType,
        FlowType::Infer => FlowType::Infer,
        FlowType::FlowNone => FlowType::FlowNone,
        FlowType::Auto => FlowType::Auto,
        FlowType::Boolean(b) => FlowType::Boolean(*b),
        FlowType::Builtin(b) => FlowType::Builtin(*b),
        FlowType::Value(v) => FlowType::Value(Box::new((clone_value(&v.0), v.1))),
        FlowType::ValueDoc(v) => FlowType::ValueDoc(Box::new((clone_value(&v.0), v.1.clone()))),
        FlowType::Element(e) => FlowType::Element(clone_element(e)),
        FlowType::Var(v) => FlowType::Var(Box::new((v.0, v.1.clone()))),
        FlowType::Func(s) => FlowType::Func(Box::new(clone_sig(s))),
        FlowType::Dict(r) => FlowType::Dict(FlowRecord { fields: clone_fields(&r.fields) }),
        FlowType::Array(e) => FlowType::Array(Box::new(clone_ty(e))),
        FlowType::Tuple(v) => FlowType::Tuple(clone_tys(v)),
        FlowType::With(w) => FlowType::With(Box::new((clone_ty(&w.0), clone_args_list(&w.1)))),
        FlowType::Args(a) => FlowType::Args(Box::new(clone_args(a))),
        FlowType::At(a) => FlowType::At(FlowAt(Box::new((clone_ty(&a.0.0), a.0.1.clone())))),
        FlowType::Unary(u) => FlowType::Unary(
            match u {
                FlowUnaryType::Pos(e) => FlowUnaryType::Pos(Box::new(clone_ty(e))),
                FlowUnaryType::Neg(e) => FlowUnaryType::Neg(Box::new(clone_ty(e))),
                FlowUnaryType::Not(e) => FlowUnaryType::Not(Box::new(clone_ty(e))),
                FlowUnaryType::Context(e) => FlowUnaryType::Context(Box::new(clone_ty(e))),
            },
        ),
        FlowType::Binary(b) => FlowType::Binary(
            FlowBinaryType {
                op: b.op,
                operands: Box::new((clone_ty(&b.operands.0), clone_ty(&b.operands.1))),
            },
        ),
        FlowType::If(i) => FlowType::If(
            Box::new(
                FlowIfType {
                    cond: clone_ty(&i.cond),
                    then_: clone_ty(&i.then_),
                    else_: clone_ty(&i.else_),
                },
            ),
        ),
        FlowType::Union(v) => FlowType::Union(Box::new(clone_tys(v))),
        FlowType::Let(s) => FlowType::Let(
            Box::new(FlowVarStore { lbs: clone_tys(&s.lbs), ubs: clone_tys(&s.ubs) }),
        ),
    }
}

impl Clone for FlowType {
    fn clone(&self) -> (r: Self)
        ensures
            r@ == self@,
    {
        clone_ty(self)
    }
}

impl Clone for Value {
    fn clone(&self) -> (r: Self)
        ensures
            r@ == self@,
    {
        clone_value(self)
    }
}

impl Clone for FlowSignature {
    fn clone(&self) -> (r: Self)
        ensures
            r@ == self@,
    {
        clone_sig(self)
    }
}

impl Clone for FlowArgs {
    fn clone(&self) -> (r: Self)
        ensures
            r@ == self@,
    {
        clone_args(self)
    }
}

} // verus!
