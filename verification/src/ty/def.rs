//! The closed set of type terms, and their mathematical values.

use vstd::prelude::*;

use crate::syntax::{BinOp, DefId, Span};
use crate::ty::builtin::FlowBuiltinType;
use crate::value::{Val, Value, value_view};

verus! {

/// A type term.
#[derive(Debug, Hash)]
pub enum FlowType {
    Clause,
    Undef,
    Content,
    Any,
    NoneType,
    Infer,
    FlowNone,
    Auto,
    Boolean(Option<bool>),
    Builtin(FlowBuiltinType),
    Value(Box<(Value, Span)>),
    ValueDoc(Box<(Value, String)>),
    Element(crate::value::Element),
    Var(Box<(DefId, String)>),
    Func(Box<FlowSignature>),
    Dict(FlowRecord),
    Array(Box<FlowType>),
    Tuple(Vec<FlowType>),
    With(Box<(FlowType, Vec<FlowArgs>)>),
    Args(Box<FlowArgs>),
    At(FlowAt),
    Unary(FlowUnaryType),
    Binary(FlowBinaryType),
    If(Box<FlowIfType>),
    Union(Box<Vec<FlowType>>),
    Let(Box<FlowVarStore>),
}

/// A unary type expression.
#[derive(Debug, Hash)]
pub enum FlowUnaryType {
    Pos(Box<FlowType>),
    Neg(Box<FlowType>),
    Not(Box<FlowType>),
    Context(Box<FlowType>),
}

/// A binary type expression.
#[derive(Debug, Hash)]
pub struct FlowBinaryType {
    pub op: BinOp,
    pub operands: Box<(FlowType, FlowType)>,
}

/// A conditional type expression.
#[derive(Debug, Hash)]
pub struct FlowIfType {
    pub cond: FlowType,
    pub then_: FlowType,
    pub else_: FlowType,
}

/// The bounds gathered for a variable.
#[derive(Debug, Hash)]
pub struct FlowVarStore {
    pub lbs: Vec<FlowType>,
    pub ubs: Vec<FlowType>,
}

/// A deferred field access.
#[derive(Debug, Hash)]
pub struct FlowAt(pub Box<(FlowType, String)>);

/// A bundle of actual arguments.
#[derive(Debug, Hash)]
pub struct FlowArgs {
    pub args: Vec<FlowType>,
    pub named: Vec<(String, FlowType)>,
}

/// A function signature.
#[derive(Debug, Hash)]
pub struct FlowSignature {
    pub pos: Vec<FlowType>,
    pub named: Vec<(String, FlowType)>,
    pub rest: Option<FlowType>,
    pub ret: FlowType,
}

/// A structural dictionary: fields in declaration order.
#[derive(Debug, Hash)]
pub struct FlowRecord {
    pub fields: Vec<(String, FlowType, Span)>,
}

/// Which unary type expression a term is.
#[derive(Debug, Clone, Copy, PartialEq, Eq, Structural)]
pub enum UnaryKind {
    Pos,
    Neg,
    Not,
    Context,
}

/// The mathematical value of a [`FlowSignature`].
pub struct SigTy {
    pub pos: Seq<Ty>,
    pub named: Seq<(Seq<char>, Ty)>,
    pub rest: Option<Box<Ty>>,
    pub ret: Box<Ty>,
}

/// The mathematical value of a [`FlowArgs`].
pub struct ArgsTy {
    pub args: Seq<Ty>,
    pub named: Seq<(Seq<char>, Ty)>,
}

/// The mathematical value of a field of a [`FlowRecord`].
pub struct FieldTy {
    pub name: Seq<char>,
    pub ty: Ty,
    pub span: Span,
}

/// The mathematical value of a [`FlowType`].
pub enum Ty {
    Clause,
    Undef,
    Content,
    Any,
    NoneType,
    Infer,
    FlowNone,
    Auto,
    Boolean(Option<bool>),
    Builtin(FlowBuiltinType),
    Value(Val, Span),
    ValueDoc(Val, Seq<char>),
    Element(Seq<char>),
    Var(DefId, Seq<char>),
    Func(SigTy),
    Dict(Seq<FieldTy>),
    Array(Box<Ty>),
    Tuple(Seq<Ty>),
    With(Box<Ty>, Seq<ArgsTy>),
    Args(ArgsTy),
    At(Box<Ty>, Seq<char>),
    Unary(UnaryKind, Box<Ty>),
    Binary(BinOp, Box<Ty>, Box<Ty>),
    If(Box<Ty>, Box<Ty>, Box<Ty>),
    Union(Seq<Ty>),
    Let(Seq<Ty>, Seq<Ty>),
}

pub open spec fn tys_view(v: &Vec<FlowType>) -> Seq<Ty>
    decreases v,
{
    Seq::new(
        v@.len(),
        |i: int|
            if 0 <= i < v@.len() {
                ty_view(&v@[i])
            } else {
                arbitrary()
            },
    )
}

pub open spec fn named_view(v: &Vec<(String, FlowType)>) -> Seq<(Seq<char>, Ty)>
    decreases v,
{
    Seq::new(
        v@.len(),
        |i: int|
            if 0 <= i < v@.len() {
                (v@[i].0@, ty_view(&v@[i].1))
            } else {
                arbitrary()
            },
    )
}

pub open spec fn fields_view(v: &Vec<(String, FlowType, Span)>) -> Seq<FieldTy>
    decreases v,
{
    Seq::new(
        v@.len(),
        |i: int|
            if 0 <= i < v@.len() {
                FieldTy { name: v@[i].0@, ty: ty_view(&v@[i].1), span: v@[i].2 }
            } else {
                arbitrary()
            },
    )
}

pub open spec fn opt_ty_view(t: &Option<FlowType>) -> Option<Ty>
    decreases t,
{
    match t {
        Some(t) => Some(ty_view(t)),
        None => None,
    }
}

pub open spec fn sig_view(s: &FlowSignature) -> SigTy
    decreases s,
{
    SigTy {
        pos: tys_view(&s.pos),
        named: named_view(&s.named),
        rest: match &s.rest {
            Some(r) => Some(Box::new(ty_view(r))),
            None => None,
        },
        ret: Box::new(ty_view(&s.ret)),
    }
}

pub open spec fn args_view(a: &FlowArgs) -> ArgsTy
    decreases a,
{
    ArgsTy { args: tys_view(&a.args), named: named_view(&a.named) }
}

pub open spec fn args_list_view(v: &Vec<FlowArgs>) -> Seq<ArgsTy>
    decreases v,
{
    Seq::new(
        v@.len(),
        |i: int|
            if 0 <= i < v@.len() {
                args_view(&v@[i])
            } else {
                arbitrary()
            },
    )
}

pub open spec fn ty_view(t: &FlowType) -> Ty
    decreases t,
{
    match t {
        FlowType::Clause => Ty::Clause,
        FlowType::Undef => Ty::Undef,
        FlowType::Content => Ty::Content,
        FlowType::Any => Ty::Any,
        FlowType::NoneType => Ty::NoneType,
        FlowType::Infer => Ty::Infer,
        FlowType::FlowNone => Ty::FlowNone,
        FlowType::Auto => Ty::Auto,
        FlowType::Boolean(b) => Ty::Boolean(*b),
        FlowType::Builtin(b) => Ty::Builtin(*b),
        FlowType::Value(v) => Ty::Value(value_view(&v.0), v.1),
        FlowType::ValueDoc(v) => Ty::ValueDoc(value_view(&v.0), v.1@),
        FlowType::Element(e) => Ty::Element(e@),
        FlowType::Var(v) => Ty::Var(v.0, v.1@),
        FlowType::Func(s) => Ty::Func(sig_view(s)),
        FlowType::Dict(r) => Ty::Dict(fields_view(&r.fields)),
        FlowType::Array(e) => Ty::Array(Box::new(ty_view(e))),
        FlowType::Tuple(v) => Ty::Tuple(tys_view(v)),
        FlowType::With(w) => Ty::With(Box::new(ty_view(&w.0)), args_list_view(&w.1)),
        FlowType::Args(a) => Ty::Args(args_view(a)),
        FlowType::At(a) => Ty::At(Box::new(ty_view(&a.0.0)), a.0.1@),
        FlowType::Unary(u) => match u {
            FlowUnaryType::Pos(e) => Ty::Unary(UnaryKind::Pos, Box::new(ty_view(e))),
            FlowUnaryType::Neg(e) => Ty::Unary(UnaryKind::Neg, Box::new(ty_view(e))),
            FlowUnaryType::Not(e) => Ty::Unary(UnaryKind::Not, Box::new(ty_view(e))),
            FlowUnaryType::Context(e) => Ty::Unary(UnaryKind::Context, Box::new(ty_view(e))),
        },
        FlowType::Binary(b) => Ty::Binary(
            b.op,
            Box::new(ty_view(&b.operands.0)),
            Box::new(ty_view(&b.operands.1)),
        ),
        FlowType::If(i) => Ty::If(
            Box::new(ty_view(&i.cond)),
            Box::new(ty_view(&i.then_)),
            Box::new(ty_view(&i.else_)),
        ),
        FlowType::Union(v) => Ty::Union(tys_view(v)),
        FlowType::Let(s) => Ty::Let(tys_view(&s.lbs), tys_view(&s.ubs)),
    }
}

impl View for FlowType {
    type V = Ty;

    open spec fn view(&self) -> Ty {
        ty_view(self)
    }
}

impl View for FlowSignature {
    type V = SigTy;

    open spec fn view(&self) -> SigTy {
        sig_view(self)
    }
}

impl View for FlowArgs {
    type V = ArgsTy;

    open spec fn view(&self) -> ArgsTy {
        args_view(self)
    }
}

impl View for FlowRecord {
    type V = Seq<FieldTy>;

    open spec fn view(&self) -> Seq<FieldTy> {
        fields_view(&self.fields)
    }
}

/// An inference variable: the unknown that stands for one definition.
#[derive(Debug, Hash)]
pub struct FlowVar {
    pub name: String,
    pub id: DefId,
    pub store: FlowVarStore,
}

/// The mathematical value of a [`FlowVar`].
pub struct VarTy {
    pub name: Seq<char>,
    pub id: DefId,
    pub lbs: Seq<Ty>,
    pub ubs: Seq<Ty>,
}

impl View for FlowVar {
    type V = VarTy;

    open spec fn view(&self) -> VarTy {
        VarTy {
            name: self.name@,
            id: self.id,
            lbs: tys_view(&self.store.lbs),
            ubs: tys_view(&self.store.ubs),
        }
    }
}

impl View for FlowUnaryType {
    type V = (UnaryKind, Ty);

    open spec fn view(&self) -> (UnaryKind, Ty) {
        match self {
            FlowUnaryType::Pos(e) => (UnaryKind::Pos, ty_view(e)),
            FlowUnaryType::Neg(e) => (UnaryKind::Neg, ty_view(e)),
            FlowUnaryType::Not(e) => (UnaryKind::Not, ty_view(e)),
            FlowUnaryType::Context(e) => (UnaryKind::Context, ty_view(e)),
        }
    }
}

impl View for FlowBinaryType {
    type V = (BinOp, Ty, Ty);

    open spec fn view(&self) -> (BinOp, Ty, Ty) {
        (self.op, ty_view(&self.operands.0), ty_view(&self.operands.1))
    }
}

/// The term that stands for a list of alternatives: `Any` for none, the
/// alternative itself for one, their union for more.
pub open spec fn from_types_spec(s: Seq<Ty>) -> Ty {
    if s.len() == 0 {
        Ty::Any
    } else if s.len() == 1 {
        s[0]
    } else {
        Ty::Union(s)
    }
}

/// What a variable's lower bounds are after `exp` was posted: `exp` comes
/// last, unless it is a `Clause`, which is no bound.
pub open spec fn post_bound(bounds: Seq<Ty>, exp: Ty) -> Seq<Ty> {
    if exp is Clause {
        bounds
    } else {
        bounds.push(exp)
    }
}

impl FlowType {
    /// Whether the term is a structural dictionary.
    pub fn is_dict(&self) -> (r: bool)
        ensures
            r == (self@ is Dict),
    {
        match self {
            FlowType::Dict(_) => true,
            _ => false,
        }
    }

    /// Whether the term is the punctuation marker.
    pub fn is_clause(&self) -> (r: bool)
        ensures
            r == (self@ is Clause),
    {
        match self {
            FlowType::Clause => true,
            _ => false,
        }
    }

    /// Joins a list of alternatives into one term.
    pub fn from_types(e: Vec<FlowType>) -> (r: FlowType)
        ensures
            r@ == from_types_spec(tys_view(&e)),
    {
        let mut e = e;
        if e.len() == 0 {
            FlowType::Any
        } else if e.len() == 1 {
            let ghost before = e;
            let last = e.pop();
            match last {
                Some(t) => {
                    assert(ty_view(&t) == tys_view(&before)[0]);
                    t
                },
                None => FlowType::Any,
            }
        } else {
            FlowType::Union(Box::new(e))
        }
    }
}

impl FlowUnaryType {
    /// The operand.
    pub fn lhs(&self) -> (r: &FlowType)
        ensures
            r@ == self@.1,
    {
        match self {
            FlowUnaryType::Pos(e) => e,
            FlowUnaryType::Neg(e) => e,
            FlowUnaryType::Not(e) => e,
            FlowUnaryType::Context(e) => e,
        }
    }
}

impl FlowBinaryType {
    /// The two operands.
    pub fn repr(&self) -> (r: (&FlowType, &FlowType))
        ensures
            r.0@ == self@.1,
            r.1@ == self@.2,
    {
        (&self.operands.0, &self.operands.1)
    }
}

impl FlowArgs {
    /// The positional arguments, in the order in which they are matched.
    pub fn start_match(&self) -> (r: &[FlowType])
        ensures
            r@ == self.args@,
    {
        self.args.as_slice()
    }
}

impl FlowVar {
    /// A variable without bounds.
    pub fn new(name: String, id: DefId) -> (r: FlowVar)
        ensures
            r@ == (VarTy { name: name@, id, lbs: Seq::empty(), ubs: Seq::empty() }),
    {
        let r = FlowVar { name, id, store: FlowVarStore { lbs: Vec::new(), ubs: Vec::new() } };
        assert(r@.lbs =~= Seq::empty());
        assert(r@.ubs =~= Seq::empty());
        r
    }

    /// The name under which the variable was defined.
    pub fn name(&self) -> (r: String)
        ensures
            r@ == self@.name,
    {
        self.name.clone()
    }

    /// The definition that the variable stands for.
    pub fn id(&self) -> (r: DefId)
        ensures
            r == self@.id,
    {
        self.id
    }

    /// The term that refers to this variable.
    pub fn get_ref(&self) -> (r: FlowType)
        ensures
            r@ == Ty::Var(self@.id, self@.name),
    {
        FlowType::Var(Box::new((self.id, self.name.clone())))
    }

    /// Posts `exp` as a lower bound: the variable has ever been `exp`.
    pub fn ever_be(&mut self, exp: FlowType)
        ensures
            final(self)@ == (VarTy { lbs: post_bound(old(self)@.lbs, exp@), ..old(self)@ }),
    {
        if !exp.is_clause() {
            let ghost before = self.store.lbs;
            self.store.lbs.push(exp);
            assert(tys_view(&self.store.lbs) =~= tys_view(&before).push(exp@));
        }
    }

    /// Posts `exp` as a lower bound of a variable bound to a closure.
    pub fn as_strong(&mut self, exp: FlowType)
        ensures
            final(self)@ == (VarTy { lbs: post_bound(old(self)@.lbs, exp@), ..old(self)@ }),
    {
        self.ever_be(exp)
    }

    /// Posts `exp` as an upper bound.
    pub fn at_most(&mut self, exp: FlowType)
        ensures
            final(self)@ == (VarTy { ubs: post_bound(old(self)@.ubs, exp@), ..old(self)@ }),
    {
        if !exp.is_clause() {
            let ghost before = self.store.ubs;
            self.store.ubs.push(exp);
            assert(tys_view(&self.store.ubs) =~= tys_view(&before).push(exp@));
        }
    }
}

} // verus!
