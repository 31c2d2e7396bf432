//! Values of the host library, as far as type inference reads them.

use vstd::prelude::*;

use crate::ty::def::{FlowType, Ty, opt_ty_view};

verus! {

/// A type of the host library, known by its names.
#[derive(Debug, Hash)]
pub struct Type {
    /// The name used in code, such as `str`.
    pub name: String,
    /// The name used in diagnostics, such as `string`.
    pub long_name: String,
}

/// The mathematical value of a [`Type`].
pub struct TypeVal {
    pub name: Seq<char>,
    pub long_name: Seq<char>,
}

impl View for Type {
    type V = TypeVal;

    open spec fn view(&self) -> TypeVal {
        TypeVal { name: self.name@, long_name: self.long_name@ }
    }
}

/// An element constructor of the host library, known by its name.
#[derive(Debug, Hash)]
pub struct Element {
    pub name: String,
}

impl View for Element {
    type V = Seq<char>;

    open spec fn view(&self) -> Seq<char> {
        self.name@
    }
}

/// What the runtime signature analyzer tells of one parameter.
#[derive(Debug, Hash)]
pub struct ParamSpec {
    pub name: String,
    pub docs: String,
    /// The type hint declared for the parameter, if any.
    pub infer_type: Option<FlowType>,
    pub positional: bool,
    pub named: bool,
    pub variadic: bool,
    pub settable: bool,
    /// The source text of the default value, if any.
    pub expr: Option<String>,
}

/// The mathematical value of a [`ParamSpec`].
pub struct ParamVal {
    pub name: Seq<char>,
    pub docs: Seq<char>,
    pub infer_type: Option<Ty>,
    pub positional: bool,
    pub named: bool,
    pub variadic: bool,
    pub settable: bool,
    pub expr: Option<Seq<char>>,
}

/// What the runtime signature analyzer tells of a callable value.
#[derive(Debug, Hash)]
pub struct Signature {
    /// The positional parameters, in order.
    pub pos: Vec<ParamSpec>,
    /// The named parameters; the first one of a name counts.
    pub named: Vec<ParamSpec>,
    /// The rest parameter.
    pub rest: Option<ParamSpec>,
    /// The declared return type.
    pub ret_ty: Option<FlowType>,
}

/// The mathematical value of a [`Signature`].
pub struct SignatureVal {
    pub pos: Seq<ParamVal>,
    pub named: Seq<ParamVal>,
    pub rest: Option<ParamVal>,
    pub ret_ty: Option<Ty>,
}

/// How a callable value is made.
#[derive(Debug, Hash)]
pub enum FuncRepr {
    /// A function of the host library.
    Native,
    /// An element constructor.
    Element(Element),
    /// A closure of user code.
    Closure,
    /// A partial application of another callable.
    With(Box<Func>),
}

/// The mathematical value of a [`FuncRepr`].
pub enum ReprVal {
    Native,
    Element(Seq<char>),
    Closure,
    With(Box<FuncVal>),
}

/// A callable value.
#[derive(Debug, Hash)]
pub struct Func {
    pub name: Option<String>,
    pub repr: FuncRepr,
    pub signature: Signature,
}

/// The mathematical value of a [`Func`].
pub struct FuncVal {
    pub name: Option<Seq<char>>,
    pub repr: ReprVal,
    pub signature: SignatureVal,
}

/// A value of the host library.
#[derive(Debug, Hash)]
pub enum Value {
    NoneValue,
    Auto,
    Bool(bool),
    Int(i64),
    Str(String),
    Type(Type),
    Func(Box<Func>),
    /// Any other value, by its type and its textual representation.
    Other(Type, String),
}

/// The mathematical value of a [`Value`].
pub enum Val {
    NoneValue,
    Auto,
    Bool(bool),
    Int(i64),
    Str(Seq<char>),
    Type(TypeVal),
    Func(Box<FuncVal>),
    Other(TypeVal, Seq<char>),
}

pub open spec fn opt_str_view(s: &Option<String>) -> Option<Seq<char>> {
    match s {
        Some(s) => Some(s@),
        None => None,
    }
}

pub open spec fn param_view(p: &ParamSpec) -> ParamVal
    decreases p,
{
    ParamVal {
        name: p.name@,
        docs: p.docs@,
        infer_type: opt_ty_view(&p.infer_type),
        positional: p.positional,
        named: p.named,
        variadic: p.variadic,
        settable: p.settable,
        expr: opt_str_view(&p.expr),
    }
}

pub open spec fn params_view(v: &Vec<ParamSpec>) -> Seq<ParamVal>
    decreases v,
{
    Seq::new(
        v@.len(),
        |i: int|
            if 0 <= i < v@.len() {
                param_view(&v@[i])
            } else {
                arbitrary()
            },
    )
}

pub open spec fn signature_view(s: &Signature) -> SignatureVal
    decreases s,
{
    SignatureVal {
        pos: params_view(&s.pos),
        named: params_view(&s.named),
        rest: match &s.rest {
            Some(p) => Some(param_view(p)),
            None => None,
        },
        ret_ty: opt_ty_view(&s.ret_ty),
    }
}

pub open spec fn func_view(f: &Func) -> FuncVal
    decreases f,
{
    FuncVal {
        name: opt_str_view(&f.name),
        repr: match &f.repr {
            FuncRepr::Native => ReprVal::Native,
            FuncRepr::Element(e) => ReprVal::Element(e@),
            FuncRepr::Closure => ReprVal::Closure,
            FuncRepr::With(inner) => ReprVal::With(Box::new(func_view(inner))),
        },
        signature: signature_view(&f.signature),
    }
}

pub open spec fn value_view(v: &Value) -> Val
    decreases v,
{
    match v {
        Value::NoneValue => Val::NoneValue,
        Value::Auto => Val::Auto,
        Value::Bool(b) => Val::Bool(*b),
        Value::Int(i) => Val::Int(*i),
        Value::Str(s) => Val::Str(s@),
        Value::Type(t) => Val::Type(t@),
        Value::Func(f) => Val::Func(Box::new(func_view(f))),
        Value::Other(t, repr) => Val::Other(t@, repr@),
    }
}

impl View for ParamSpec {
    type V = ParamVal;

    open spec fn view(&self) -> ParamVal {
        param_view(self)
    }
}

impl View for Signature {
    type V = SignatureVal;

    open spec fn view(&self) -> SignatureVal {
        signature_view(self)
    }
}

impl View for Func {
    type V = FuncVal;

    open spec fn view(&self) -> FuncVal {
        func_view(self)
    }
}

impl View for Value {
    type V = Val;

    open spec fn view(&self) -> Val {
        value_view(self)
    }
}

/// What the host library declares of a parameter.
#[derive(Debug, Hash)]
pub struct ParamInfo {
    pub name: String,
}

impl View for ParamInfo {
    type V = Seq<char>;

    open spec fn view(&self) -> Seq<char> {
        self.name@
    }
}

/// What the host library declares of the values that a parameter or a
/// result accepts.
#[derive(Debug, Hash)]
pub enum CastInfo {
    Any,
    /// One value, with its documentation.
    Value(Value, String),
    /// Every value of a type.
    Type(Type),
    /// Any of several descriptions.
    Union(Vec<CastInfo>),
}

/// The mathematical value of a [`CastInfo`].
pub enum CastVal {
    Any,
    Value(Val, Seq<char>),
    Type(TypeVal),
    Union(Seq<CastVal>),
}

pub open spec fn cast_view(c: &CastInfo) -> CastVal
    decreases c,
{
    match c {
        CastInfo::Any => CastVal::Any,
        CastInfo::Value(v, doc) => CastVal::Value(value_view(v), doc@),
        CastInfo::Type(t) => CastVal::Type(t@),
        CastInfo::Union(v) => CastVal::Union(
            Seq::new(
                v@.len(),
                |i: int|
                    if 0 <= i < v@.len() {
                        cast_view(&v@[i])
                    } else {
                        arbitrary()
                    },
            ),
        ),
    }
}

impl View for CastInfo {
    type V = CastVal;

    open spec fn view(&self) -> CastVal {
        cast_view(self)
    }
}

} // verus!
