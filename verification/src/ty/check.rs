//! The walk over the syntax tree that infers a type for every node.

use std::collections::HashSet;
use vstd::prelude::*;
use vstd::string::*;
use vstd::utf8::encode_utf8;

use crate::syntax::{
    Arg, BinOp, Binding, DefId, DictItem, LetBindingKind, Param, Pattern, Span, SyntaxBody,
    SyntaxKind, SyntaxNode, UnOp,
};
use crate::ty::apply::call_spec;
use crate::ty::builtin::FlowBuiltinType;
use crate::ty::constrain::constrain_spec;
use crate::ty::copy::{clone_ty, clone_value};
use crate::ty::def::{
    ArgsTy, FieldTy, FlowArgs, FlowAt, FlowBinaryType, FlowIfType, FlowRecord, FlowSignature,
    FlowType, FlowUnaryType, SigTy, Ty, UnaryKind, args_view, fields_view, named_view, opt_ty_view,
    sig_view, tys_view,
};
use crate::ty::info::{InfoTy, TypeCheckInfo};
use crate::ty::join::{Joiner, JoinerTy, finalize_spec, join_spec, joiner_start};
use crate::value::{Value, value_view};

verus! {

/// How the tokens of a subtree are read.
#[derive(Debug, Clone, Copy, PartialEq, Eq, Structural)]
pub enum InterpretMode {
    Markup,
    Code,
    Math,
}

/// Whether the bytes `x` come before the bytes `y` in lexicographic order,
/// given that they agree before the position `from`.
pub open spec fn bytes_before(x: Seq<u8>, y: Seq<u8>, from: int) -> bool
    decreases x.len() - from,
{
    if from >= y.len() {
        false
    } else if from >= x.len() {
        true
    } else if x[from] != y[from] {
        x[from] < y[from]
    } else {
        bytes_before(x, y, from + 1)
    }
}

/// Whether the name `a` sorts before the name `b`: by the bytes of their
/// encodings.
pub open spec fn name_before(a: Seq<char>, b: Seq<char>) -> bool {
    bytes_before(encode_utf8(a), encode_utf8(b), 0)
}

/// The first position at or behind `from` whose name does not sort before
/// `name`.
pub open spec fn insert_position(s: Seq<(Seq<char>, Ty)>, name: Seq<char>, from: int) -> int
    decreases s.len() - from,
{
    if from < 0 || from >= s.len() || !name_before(s[from].0, name) {
        from
    } else {
        insert_position(s, name, from + 1)
    }
}

/// The named terms `s` with `name` bound to `t`: in place of the term of
/// that name if there is one at the place where `name` sorts, else put in
/// there.
pub open spec fn named_insert(s: Seq<(Seq<char>, Ty)>, name: Seq<char>, t: Ty) -> Seq<
    (Seq<char>, Ty),
> {
    let p = insert_position(s, name, 0);
    if 0 <= p < s.len() && s[p].0 == name {
        s.update(p, (name, t))
    } else {
        s.insert(p, (name, t))
    }
}

/// Whether a value can be posted back into a variable at an equality or an
/// assignment.
pub open spec fn is_ground(t: Ty) -> bool {
    t is Undef || t is Content || t is NoneType || t is FlowNone || t is Auto || t is Element
        || t is Builtin || t is Value || t is Boolean || t is ValueDoc
}

/// The result after `lhs` was told that it may ever be `rhs`: a ground
/// `rhs` is posted as a constraint `rhs ⪯ lhs`.
pub open spec fn possible_ever_be_spec(info: InfoTy, lhs: Ty, rhs: Ty) -> InfoTy {
    if is_ground(rhs) {
        constrain_spec(info, rhs, lhs)
    } else {
        info
    }
}

/// The constraints that a binary operation posts on its operands.
pub open spec fn binary_effects(info: InfoTy, op: BinOp, lhs: Ty, rhs: Ty) -> InfoTy {
    match op {
        BinOp::Eq | BinOp::Neq | BinOp::Leq | BinOp::Geq => possible_ever_be_spec(
            possible_ever_be_spec(info, lhs, rhs),
            rhs,
            lhs,
        ),
        BinOp::And | BinOp::Or => constrain_spec(
            constrain_spec(info, lhs, Ty::Boolean(None)),
            rhs,
            Ty::Boolean(None),
        ),
        BinOp::Assign => possible_ever_be_spec(info, lhs, rhs),
        _ => info,
    }
}

/// The unary type expression of an operator.
pub open spec fn unary_kind(op: UnOp) -> UnaryKind {
    match op {
        UnOp::Pos => UnaryKind::Pos,
        UnOp::Neg => UnaryKind::Neg,
        UnOp::Not => UnaryKind::Not,
    }
}

/// The term that refers to the variable `d`, known to `info`.
pub open spec fn var_ref(info: InfoTy, d: DefId) -> Ty {
    Ty::Var(d, info.vars[d].name)
}

/// Fetching the variable of a binding: the variable is made if it is new,
/// and the term that refers to it is recorded at the span of the binding.
/// Nothing happens where the resolver knows no definition.
pub open spec fn get_var_spec(info: InfoTy, b: Binding) -> (InfoTy, Option<DefId>) {
    match b.def {
        Some(d) => {
            let made = info.define(d, b.name@);
            (made.record(b.span, var_ref(made, d)), Some(d))
        },
        None => (info, None),
    }
}

/// Binding the variable of `b` to a value that it has ever been: the
/// variable is fetched, and the value is posted as its lower bound. Gives the
/// term that refers to the variable.
pub open spec fn bind_spec(info: InfoTy, b: Binding, value: Ty) -> (InfoTy, Option<Ty>) {
    let got = get_var_spec(info, b);
    match got.1 {
        Some(d) => (got.0.lower(d, value), Some(var_ref(got.0, d))),
        None => (got.0, None),
    }
}

/// Distributing `value` over the bindings of a pattern: an identifier is
/// bound to it, and gives `Undef` where it cannot be bound; every other
/// pattern leaves it and gives `Any`.
pub open spec fn check_pattern_spec(info: InfoTy, p: Pattern, value: Ty) -> (InfoTy, Ty)
    decreases p,
{
    match p {
        Pattern::Ident(b) => {
            let bound = bind_spec(info, b, value);
            (
                bound.0,
                match bound.1 {
                    Some(t) => t,
                    None => Ty::Undef,
                },
            )
        },
        Pattern::Parenthesized(inner) => check_pattern_spec(info, *inner, value),
        _ => (info, Ty::Any),
    }
}

/// The type of a node kind that has the same type wherever it stands, if it
/// is such a kind.
pub open spec fn constant_kind(kind: SyntaxKind) -> Option<Ty> {
    match kind {
        SyntaxKind::Space | SyntaxKind::Parbreak => Some(Ty::NoneType),
        SyntaxKind::Text
        | SyntaxKind::Linebreak
        | SyntaxKind::Escape
        | SyntaxKind::Shorthand
        | SyntaxKind::SmartQuote
        | SyntaxKind::Raw
        | SyntaxKind::RawLang
        | SyntaxKind::RawDelim
        | SyntaxKind::RawTrimmed
        | SyntaxKind::Link
        | SyntaxKind::Label
        | SyntaxKind::Ref
        | SyntaxKind::RefMarker
        | SyntaxKind::HeadingMarker
        | SyntaxKind::EnumMarker
        | SyntaxKind::ListMarker
        | SyntaxKind::TermMarker
        | SyntaxKind::MathAlignPoint
        | SyntaxKind::MathPrimes
        | SyntaxKind::ModuleInclude => Some(Ty::Content),
        SyntaxKind::LoopBreak
        | SyntaxKind::LoopContinue
        | SyntaxKind::FuncReturn
        | SyntaxKind::Break
        | SyntaxKind::Continue
        | SyntaxKind::Return => Some(Ty::FlowNone),
        SyntaxKind::LineComment
        | SyntaxKind::BlockComment
        | SyntaxKind::Error
        | SyntaxKind::Eof
        | SyntaxKind::NoneLit
        | SyntaxKind::ModuleImport
        | SyntaxKind::DestructAssignment => Some(Ty::NoneType),
        SyntaxKind::Auto => Some(Ty::Auto),
        SyntaxKind::Destructuring => Some(Ty::Any),
        SyntaxKind::Named
        | SyntaxKind::Keyed
        | SyntaxKind::Spread
        | SyntaxKind::Params
        | SyntaxKind::ImportItems
        | SyntaxKind::RenamedImportItem
        | SyntaxKind::Hash
        | SyntaxKind::LeftBrace
        | SyntaxKind::RightBrace
        | SyntaxKind::LeftBracket
        | SyntaxKind::RightBracket
        | SyntaxKind::LeftParen
        | SyntaxKind::RightParen
        | SyntaxKind::Comma
        | SyntaxKind::Semicolon
        | SyntaxKind::Colon
        | SyntaxKind::Star
        | SyntaxKind::Underscore
        | SyntaxKind::Dollar
        | SyntaxKind::Plus
        | SyntaxKind::Minus
        | SyntaxKind::Slash
        | SyntaxKind::Hat
        | SyntaxKind::Prime
        | SyntaxKind::Dot
        | SyntaxKind::Eq
        | SyntaxKind::EqEq
        | SyntaxKind::ExclEq
        | SyntaxKind::Lt
        | SyntaxKind::LtEq
        | SyntaxKind::Gt
        | SyntaxKind::GtEq
        | SyntaxKind::PlusEq
        | SyntaxKind::HyphEq
        | SyntaxKind::StarEq
        | SyntaxKind::SlashEq
        | SyntaxKind::Dots
        | SyntaxKind::Arrow
        | SyntaxKind::Root
        | SyntaxKind::Not
        | SyntaxKind::And
        | SyntaxKind::Or
        | SyntaxKind::Let
        | SyntaxKind::SetKw
        | SyntaxKind::Show
        | SyntaxKind::Context
        | SyntaxKind::If
        | SyntaxKind::Else
        | SyntaxKind::For
        | SyntaxKind::In
        | SyntaxKind::While
        | SyntaxKind::Import
        | SyntaxKind::Include
        | SyntaxKind::As => Some(Ty::Clause),
        _ => None,
    }
}

/// The mode in which the children of a node of this kind are read, if the
/// kind sets one.
pub open spec fn mode_of(kind: SyntaxKind) -> Option<InterpretMode> {
    match kind {
        SyntaxKind::Markup | SyntaxKind::ContentBlock => Some(InterpretMode::Markup),
        SyntaxKind::Math => Some(InterpretMode::Math),
        SyntaxKind::Code | SyntaxKind::CodeBlock => Some(InterpretMode::Code),
        _ => None,
    }
}

/// Whether the type of a node of this kind is the join of its children.
pub open spec fn joins_children(kind: SyntaxKind) -> bool {
    mode_of(kind) is Some || kind is Strong || kind is Emph || kind is Heading || kind is ListItem
        || kind is EnumItem || kind is TermItem || kind is Equation || kind is MathDelimited
        || kind is MathAttach || kind is MathFrac || kind is MathRoot || kind is Parenthesized
}

/// The arguments that an argument list holds; none where the node is read
/// otherwise.
pub open spec fn arg_items(node: SyntaxNode) -> Seq<Arg> {
    match node.body {
        SyntaxBody::Args(v) => v@,
        _ => Seq::empty(),
    }
}

/// The type of an identifier in use. Where it is bound to a definition, its
/// variable is made under the name of the identifier if it is new, and the
/// term that refers to the variable is recorded at the span of the
/// identifier and given. Where it is bound to no definition, the value of
/// the name is given: in the math scope for an identifier of math, in the
/// global scope for one of code.
pub open spec fn check_ident_spec(info: InfoTy, node: SyntaxNode, in_math: bool) -> (
    InfoTy,
    Option<Ty>,
) {
    match node.body {
        SyntaxBody::Ident(i) => match i.def {
            Some(d) => {
                let made = info.define(d, i.name@);
                (made.record(node.span, var_ref(made, d)), Some(var_ref(made, d)))
            },
            None => match (if in_math {
                i.math
            } else {
                i.global
            }) {
                Some(v) => (info, Some(Ty::Value(value_view(&v), node.span))),
                None => (info, None),
            },
        },
        _ => (info, None),
    }
}

/// The type of a call: the candidates of the application joined, nothing if
/// it failed. Nothing is applied where the arguments did not come out as a
/// bundle.
pub open spec fn check_call_spec(info: InfoTy, callee: Ty, args: Ty, items: Seq<Arg>) -> (
    InfoTy,
    Option<Ty>,
) {
    match args {
        Ty::Args(a) => call_spec(info, callee, a, items),
        _ => (info, Some(Ty::Any)),
    }
}

/// The type of the node, with the result of type checking after the node
/// was walked.
///
/// A node whose type cannot be told has the type `Undef`. The type of a call
/// is recorded at its span.
pub open spec fn check_spec(info: InfoTy, node: SyntaxNode) -> (InfoTy, Ty)
    decreases node, 2nat,
{
    let r = check_inner_spec(info, node);
    let w = match r.1 {
        Some(t) => t,
        None => Ty::Undef,
    };
    if node.kind is FuncCall {
        (r.0.record(node.span, w), w)
    } else {
        (r.0, w)
    }
}

/// The type of the node by its kind, if it can be told.
pub open spec fn check_inner_spec(info: InfoTy, node: SyntaxNode) -> (InfoTy, Option<Ty>)
    decreases node, 1nat,
{
    if constant_kind(node.kind) is Some {
        (info, constant_kind(node.kind))
    } else if joins_children(node.kind) {
        check_joined_spec(info, node)
    } else {
        match node.kind {
            SyntaxKind::Ident => check_ident_spec(info, node, false),
            SyntaxKind::MathIdent => check_ident_spec(info, node, true),
            SyntaxKind::Bool
            | SyntaxKind::Int
            | SyntaxKind::Float
            | SyntaxKind::Numeric
            | SyntaxKind::Str => (info, check_literal_spec(node)),
            SyntaxKind::Array => check_array_spec(info, node),
            SyntaxKind::Dict => check_dict_spec(info, node),
            SyntaxKind::Unary => check_unary_spec(info, node),
            SyntaxKind::Binary => check_binary_spec(info, node),
            SyntaxKind::FieldAccess => check_field_access_spec(info, node),
            SyntaxKind::FuncCall => check_func_call_spec(info, node),
            SyntaxKind::Args => check_args_spec(info, node),
            SyntaxKind::Closure => check_closure_spec(info, node),
            SyntaxKind::LetBinding => check_let_spec(info, node),
            SyntaxKind::SetRule => check_set_spec(info, node),
            SyntaxKind::ShowRule => check_show_spec(info, node),
            SyntaxKind::Contextual => check_contextual_spec(info, node),
            SyntaxKind::Conditional => check_conditional_spec(info, node),
            SyntaxKind::WhileLoop => check_while_loop_spec(info, node),
            SyntaxKind::ForLoop => check_for_loop_spec(info, node),
            _ => (info, None),
        }
    }
}

/// The type of a literal: the value that evaluation gives for it, at the
/// span of the node.
pub open spec fn check_literal_spec(node: SyntaxNode) -> Option<Ty> {
    match node.body {
        SyntaxBody::Literal(Some(v)) => Some(Ty::Value(value_view(&v), node.span)),
        _ => None,
    }
}

/// The type of a container: the join of the types of its children.
pub open spec fn check_joined_spec(info: InfoTy, node: SyntaxNode) -> (InfoTy, Option<Ty>)
    decreases node, 0nat,
{
    match node.body {
        SyntaxBody::Children(v) => {
            let r = check_children_spec(info, joiner_start(), v@, v@.len());
            (r.0, Some(finalize_spec(r.1)))
        },
        _ => (info, Some(finalize_spec(joiner_start()))),
    }
}

/// The type of an array literal: the tuple of the types of its children
/// that are no punctuation.
pub open spec fn check_array_spec(info: InfoTy, node: SyntaxNode) -> (InfoTy, Option<Ty>)
    decreases node, 0nat,
{
    match node.body {
        SyntaxBody::Children(v) => {
            let r = check_elements_spec(info, v@, v@.len());
            (r.0, Some(Ty::Tuple(r.1)))
        },
        _ => (info, Some(Ty::Tuple(Seq::empty()))),
    }
}

/// The joiner after the first `n` children were walked and joined, one
/// after the other.
pub open spec fn check_children_spec(info: InfoTy, j: JoinerTy, s: Seq<SyntaxNode>, n: nat) -> (
    InfoTy,
    JoinerTy,
)
    decreases s, n,
{
    if n == 0 || n > s.len() {
        (info, j)
    } else {
        let before = check_children_spec(info, j, s, (n - 1) as nat);
        let child = check_spec(before.0, s[n - 1]);
        (child.0, join_spec(before.1, child.1))
    }
}

/// The types of the first `n` children that are no punctuation, in order.
pub open spec fn check_elements_spec(info: InfoTy, s: Seq<SyntaxNode>, n: nat) -> (InfoTy, Seq<Ty>)
    decreases s, n,
{
    if n == 0 || n > s.len() {
        (info, Seq::empty())
    } else {
        let before = check_elements_spec(info, s, (n - 1) as nat);
        let child = check_spec(before.0, s[n - 1]);
        (
            child.0,
            if child.1 is Clause {
                before.1
            } else {
                before.1.push(child.1)
            },
        )
    }
}

/// The fields that the first `n` items of a dictionary literal give: one
/// for each named item and for each keyed item whose key is a string.
pub open spec fn check_items_spec(info: InfoTy, s: Seq<DictItem>, n: nat) -> (InfoTy, Seq<FieldTy>)
    decreases s, n,
{
    if n == 0 || n > s.len() {
        (info, Seq::empty())
    } else {
        let before = check_items_spec(info, s, (n - 1) as nat);
        match s[n - 1] {
            DictItem::Named { name, expr, span } => {
                let value = check_spec(before.0, expr);
                (value.0, before.1.push(FieldTy { name: name@, ty: value.1, span }))
            },
            DictItem::Keyed { key: Some(Value::Str(key)), expr, span } => {
                let value = check_spec(before.0, expr);
                (value.0, before.1.push(FieldTy { name: key@, ty: value.1, span }))
            },
            _ => before,
        }
    }
}

/// The type of a dictionary literal.
pub open spec fn check_dict_spec(info: InfoTy, node: SyntaxNode) -> (InfoTy, Option<Ty>)
    decreases node, 0nat,
{
    match node.body {
        SyntaxBody::Dict(items) => {
            let r = check_items_spec(info, items@, items@.len());
            (r.0, Some(Ty::Dict(r.1)))
        },
        _ => (info, None),
    }
}

/// The type of a unary operation: its constant where it has one, else the
/// unary type expression over the type of its operand.
pub open spec fn check_unary_spec(info: InfoTy, node: SyntaxNode) -> (InfoTy, Option<Ty>)
    decreases node, 0nat,
{
    match node.body {
        SyntaxBody::Unary { constant: Some(c), .. } => (
            info,
            Some(Ty::Value(value_view(&c), node.span)),
        ),
        SyntaxBody::Unary { constant: None, op, expr } => {
            let e = check_spec(info, *expr);
            (e.0, Some(Ty::Unary(unary_kind(op), Box::new(e.1))))
        },
        _ => (info, None),
    }
}

/// The type of a binary operation: its constant where it has one, else the
/// binary type expression over the types of its operands, which are
/// constrained as the operator asks.
pub open spec fn check_binary_spec(info: InfoTy, node: SyntaxNode) -> (InfoTy, Option<Ty>)
    decreases node, 0nat,
{
    match node.body {
        SyntaxBody::Binary { constant: Some(c), .. } => (
            info,
            Some(Ty::Value(value_view(&c), node.span)),
        ),
        SyntaxBody::Binary { constant: None, op, lhs, rhs } => {
            let l = check_spec(info, *lhs);
            let r = check_spec(l.0, *rhs);
            (
                binary_effects(r.0, op, l.1, r.1),
                Some(Ty::Binary(op, Box::new(l.1), Box::new(r.1))),
            )
        },
        _ => (info, None),
    }
}

/// The type of a field access: the projection, left for later.
pub open spec fn check_field_access_spec(info: InfoTy, node: SyntaxNode) -> (InfoTy, Option<Ty>)
    decreases node, 0nat,
{
    match node.body {
        SyntaxBody::FieldAccess { target, field } => {
            let obj = check_spec(info, *target);
            (obj.0, Some(Ty::At(Box::new(obj.1), field@)))
        },
        _ => (info, None),
    }
}

/// The type of a call: the arguments are walked, then the callee, then the
/// callee is applied.
pub open spec fn check_func_call_spec(info: InfoTy, node: SyntaxNode) -> (InfoTy, Option<Ty>)
    decreases node, 0nat,
{
    match node.body {
        SyntaxBody::FuncCall { callee, args } => {
            let a = check_spec(info, *args);
            let c = check_spec(a.0, *callee);
            check_call_spec(c.0, c.1, a.1, arg_items(*args))
        },
        _ => (info, None),
    }
}

/// The bundle that the first `n` arguments give.
pub open spec fn check_arg_items_spec(info: InfoTy, s: Seq<Arg>, n: nat) -> (InfoTy, ArgsTy)
    decreases s, n,
{
    if n == 0 || n > s.len() {
        (info, ArgsTy { args: Seq::empty(), named: Seq::empty() })
    } else {
        let before = check_arg_items_spec(info, s, (n - 1) as nat);
        match s[n - 1] {
            Arg::Pos(e) => {
                let value = check_spec(before.0, e);
                (value.0, ArgsTy { args: before.1.args.push(value.1), ..before.1 })
            },
            Arg::Named { name, expr, .. } => {
                let value = check_spec(before.0, expr);
                (value.0, ArgsTy { named: before.1.named.push((name@, value.1)), ..before.1 })
            },
            Arg::Spread => before,
        }
    }
}

/// The type of an argument list: the bundle of its arguments.
pub open spec fn check_args_spec(info: InfoTy, node: SyntaxNode) -> (InfoTy, Option<Ty>)
    decreases node, 0nat,
{
    match node.body {
        SyntaxBody::Args(items) => {
            let r = check_arg_items_spec(info, items@, items@.len());
            (r.0, Some(Ty::Args(r.1)))
        },
        _ => (info, None),
    }
}

/// What the parameters of a closure have come to.
pub struct ParamsTy {
    pub info: InfoTy,
    pub pos: Seq<Ty>,
    pub named: Seq<(Seq<char>, Ty)>,
    pub rest: Option<Ty>,
    pub ok: bool,
}

/// The parameters that the first `n` parameters of a closure give. A
/// positional parameter is a pattern that is bound to `Any`. A named
/// parameter is bound to the type of its default and filed under its name.
/// A sink with an identifier is bound to the built-in bundle of arguments.
/// Once a parameter cannot be bound, the later ones are not walked.
pub open spec fn check_params_spec(info: InfoTy, s: Seq<Param>, n: nat) -> ParamsTy
    decreases s, n,
{
    if n == 0 || n > s.len() {
        ParamsTy { info, pos: Seq::empty(), named: Seq::empty(), rest: None, ok: true }
    } else {
        let before = check_params_spec(info, s, (n - 1) as nat);
        if !before.ok {
            before
        } else {
            match s[n - 1] {
                Param::Pos(pattern) => {
                    let p = check_pattern_spec(before.info, pattern, Ty::Any);
                    ParamsTy { info: p.0, pos: before.pos.push(p.1), ..before }
                },
                Param::Named { name, expr } => {
                    let exp = check_spec(before.info, expr);
                    let bound = bind_spec(exp.0, name, exp.1);
                    match bound.1 {
                        Some(v) => ParamsTy {
                            info: bound.0,
                            named: named_insert(before.named, name.name@, v),
                            ..before
                        },
                        None => ParamsTy { info: bound.0, ok: false, ..before },
                    }
                },
                Param::Spread { sink: Some(b) } => {
                    let bound = bind_spec(before.info, b, Ty::Builtin(FlowBuiltinType::Args));
                    match bound.1 {
                        Some(v) => ParamsTy { info: bound.0, rest: Some(v), ..before },
                        None => ParamsTy { info: bound.0, ok: false, ..before },
                    }
                },
                Param::Spread { sink: None } => before,
            }
        }
    }
}

/// The type of a closure: the function of its parameters that returns the
/// type of its body. It cannot be told where a parameter cannot be bound; the
/// body is then not walked.
pub open spec fn check_closure_spec(info: InfoTy, node: SyntaxNode) -> (InfoTy, Option<Ty>)
    decreases node, 0nat,
{
    match node.body {
        SyntaxBody::Closure { params, body } => {
            let p = check_params_spec(info, params@, params@.len());
            if p.ok {
                let b = check_spec(p.info, *body);
                (
                    b.0,
                    Some(
                        Ty::Func(
                            SigTy {
                                pos: p.pos,
                                named: p.named,
                                rest: match p.rest {
                                    Some(r) => Some(Box::new(r)),
                                    None => None,
                                },
                                ret: Box::new(b.1),
                            },
                        ),
                    ),
                )
            } else {
                (p.info, None)
            }
        },
        _ => (info, None),
    }
}

/// The type of the initializer of a binding: `Infer` where there is none.
pub open spec fn check_init_spec(info: InfoTy, init: Option<Box<SyntaxNode>>) -> (InfoTy, Ty)
    decreases init, 0nat,
{
    match init {
        Some(e) => check_spec(info, *e),
        None => (info, Ty::Infer),
    }
}

/// The type of a let binding, which is `Any`: the value of the initializer
/// is bound to the name of a closure, or distributed over a pattern.
pub open spec fn check_let_spec(info: InfoTy, node: SyntaxNode) -> (InfoTy, Option<Ty>)
    decreases node, 0nat,
{
    match node.body {
        SyntaxBody::LetBinding { kind, init } => {
            let value = check_init_spec(info, init);
            match kind {
                LetBindingKind::Closure(b) => {
                    let bound = bind_spec(value.0, b, value.1);
                    (
                        bound.0,
                        match bound.1 {
                            Some(_) => Some(Ty::Any),
                            None => None,
                        },
                    )
                },
                LetBindingKind::Normal(pattern) => (
                    check_pattern_spec(value.0, pattern, value.1).0,
                    Some(Ty::Any),
                ),
            }
        },
        _ => (info, None),
    }
}

/// The type of an optional part, walked for what it posts.
pub open spec fn check_optional_spec(info: InfoTy, part: Option<Box<SyntaxNode>>) -> InfoTy
    decreases part, 0nat,
{
    match part {
        Some(e) => check_spec(info, *e).0,
        None => info,
    }
}

/// The type of a set rule: the target is walked, then the arguments, then
/// the condition, then the target is applied as in a call.
pub open spec fn check_set_spec(info: InfoTy, node: SyntaxNode) -> (InfoTy, Option<Ty>)
    decreases node, 0nat,
{
    match node.body {
        SyntaxBody::SetRule { target, args, condition } => {
            let c = check_spec(info, *target);
            let a = check_spec(c.0, *args);
            let cond = check_optional_spec(a.0, condition);
            check_call_spec(cond, c.1, a.1, arg_items(*args))
        },
        _ => (info, None),
    }
}

/// The type of a show rule, which is `Any`: the selector and the transform
/// are walked for what they post.
pub open spec fn check_show_spec(info: InfoTy, node: SyntaxNode) -> (InfoTy, Option<Ty>)
    decreases node, 0nat,
{
    match node.body {
        SyntaxBody::ShowRule { selector, transform } => {
            let s = check_optional_spec(info, selector);
            (check_spec(s, *transform).0, Some(Ty::Any))
        },
        _ => (info, None),
    }
}

/// The type of a contextual expression.
pub open spec fn check_contextual_spec(info: InfoTy, node: SyntaxNode) -> (InfoTy, Option<Ty>)
    decreases node, 0nat,
{
    match node.body {
        SyntaxBody::Contextual { body } => {
            let b = check_spec(info, *body);
            (b.0, Some(Ty::Unary(UnaryKind::Context, Box::new(b.1))))
        },
        _ => (info, None),
    }
}

/// The type of a conditional; a missing else branch has the type
/// `NoneType`.
pub open spec fn check_conditional_spec(info: InfoTy, node: SyntaxNode) -> (InfoTy, Option<Ty>)
    decreases node, 0nat,
{
    match node.body {
        SyntaxBody::Conditional { condition, if_body, else_body } => {
            let c = check_spec(info, *condition);
            let t = check_spec(c.0, *if_body);
            let e = match else_body {
                Some(e) => check_spec(t.0, *e),
                None => (t.0, Ty::NoneType),
            };
            (e.0, Some(Ty::If(Box::new(c.1), Box::new(t.1), Box::new(e.1))))
        },
        _ => (info, None),
    }
}

/// The type of a while loop, which is `Any`.
pub open spec fn check_while_loop_spec(info: InfoTy, node: SyntaxNode) -> (InfoTy, Option<Ty>)
    decreases node, 0nat,
{
    match node.body {
        SyntaxBody::WhileLoop { condition, body } => {
            let c = check_spec(info, *condition);
            (check_spec(c.0, *body).0, Some(Ty::Any))
        },
        _ => (info, None),
    }
}

/// The type of a for loop, which is `Any`.
pub open spec fn check_for_loop_spec(info: InfoTy, node: SyntaxNode) -> (InfoTy, Option<Ty>)
    decreases node, 0nat,
{
    match node.body {
        SyntaxBody::ForLoop { iterable, pattern, body } => {
            let i = check_spec(info, *iterable);
            let p = check_spec(i.0, *pattern);
            (check_spec(p.0, *body).0, Some(Ty::Any))
        },
        _ => (info, None),
    }
}

/// The result of type checking a source file with the given root: the walk
/// starts with nothing known.
pub open spec fn type_check_spec(root: SyntaxNode) -> InfoTy {
    check_spec(InfoTy::empty(), root).0
}

/// Whether the bytes `x` come before the bytes `y` in lexicographic order.
#[verifier::loop_isolation(false)]
fn slice_before(x: &[u8], y: &[u8]) -> (r: bool)
    ensures
        r == bytes_before(x@, y@, 0),
{
    let mut i: usize = 0;
    while i < x.len() && i < y.len()
        invariant
            i <= x.len(),
            i <= y.len(),
            bytes_before(x@, y@, 0) == bytes_before(x@, y@, i as int),
        decreases x.len() - i,
    {
        if x[i] != y[i] {
            return x[i] < y[i];
        }
        i += 1;
    }
    i < y.len()
}

/// Whether the name `a` sorts before the name `b`.
pub fn sorts_before(a: &String, b: &String) -> (r: bool)
    ensures
        r == name_before(a@, b@),
{
    slice_before(a.as_str().as_bytes(), b.as_str().as_bytes())
}

/// Binds `name` to `ty` among the named terms `named`, which stay sorted by
/// name.
#[verifier::loop_isolation(false)]
pub fn insert_named(named: &mut Vec<(String, FlowType)>, name: String, ty: FlowType)
    ensures
        named_view(final(named)) == named_insert(named_view(old(named)), name@, ty@),
{
    let ghost before = named_view(named);
    let mut p: usize = 0;
    while p < named.len() && sorts_before(&named[p].0, &name)
        invariant
            p <= named.len(),
            insert_position(before, name@, 0) == insert_position(before, name@, p as int),
            named_view(named) == before,
        decreases named.len() - p,
    {
        assert(before[p as int].0 == named[p as int].0@);
        p += 1;
    }
    proof {
        if p < named.len() {
            assert(before[p as int].0 == named[p as int].0@);
        }
        assert(insert_position(before, name@, 0) == p);
    }
    if p < named.len() && named[p].0 == name {
        named.remove(p);
        named.insert(p, (name, ty));
        assert(named_view(named) =~= before.update(p as int, (name@, ty@)));
    } else {
        named.insert(p, (name, ty));
        assert(named_view(named) =~= before.insert(p as int, (name@, ty@)));
    }
}

/// The type of a node kind that has the same type wherever it stands.
pub fn constant_type(kind: SyntaxKind) -> (r: Option<FlowType>)
    ensures
        opt_ty_view(&r) == constant_kind(kind),
{
    match kind {
        SyntaxKind::Space | SyntaxKind::Parbreak => Some(FlowType::NoneType),
        SyntaxKind::Text
        | SyntaxKind::Linebreak
        | SyntaxKind::Escape
        | SyntaxKind::Shorthand
        | SyntaxKind::SmartQuote
        | SyntaxKind::Raw
        | SyntaxKind::RawLang
        | SyntaxKind::RawDelim
        | SyntaxKind::RawTrimmed
        | SyntaxKind::Link
        | SyntaxKind::Label
        | SyntaxKind::Ref
        | SyntaxKind::RefMarker
        | SyntaxKind::HeadingMarker
        | SyntaxKind::EnumMarker
        | SyntaxKind::ListMarker
        | SyntaxKind::TermMarker
        | SyntaxKind::MathAlignPoint
        | SyntaxKind::MathPrimes
        | SyntaxKind::ModuleInclude => Some(FlowType::Content),
        SyntaxKind::LoopBreak
        | SyntaxKind::LoopContinue
        | SyntaxKind::FuncReturn
        | SyntaxKind::Break
        | SyntaxKind::Continue
        | SyntaxKind::Return => Some(FlowType::FlowNone),
        SyntaxKind::LineComment
        | SyntaxKind::BlockComment
        | SyntaxKind::Error
        | SyntaxKind::Eof
        | SyntaxKind::NoneLit
        | SyntaxKind::ModuleImport
        | SyntaxKind::DestructAssignment => Some(FlowType::NoneType),
        SyntaxKind::Auto => Some(FlowType::Auto),
        SyntaxKind::Destructuring => Some(FlowType::Any),
        SyntaxKind::Named
        | SyntaxKind::Keyed
        | SyntaxKind::Spread
        | SyntaxKind::Params
        | SyntaxKind::ImportItems
        | SyntaxKind::RenamedImportItem
        | SyntaxKind::Hash
        | SyntaxKind::LeftBrace
        | SyntaxKind::RightBrace
        | SyntaxKind::LeftBracket
        | SyntaxKind::RightBracket
        | SyntaxKind::LeftParen
        | SyntaxKind::RightParen
        | SyntaxKind::Comma
        | SyntaxKind::Semicolon
        | SyntaxKind::Colon
        | SyntaxKind::Star
        | SyntaxKind::Underscore
        | SyntaxKind::Dollar
        | SyntaxKind::Plus
        | SyntaxKind::Minus
        | SyntaxKind::Slash
        | SyntaxKind::Hat
        | SyntaxKind::Prime
        | SyntaxKind::Dot
        | SyntaxKind::Eq
        | SyntaxKind::EqEq
        | SyntaxKind::ExclEq
        | SyntaxKind::Lt
        | SyntaxKind::LtEq
        | SyntaxKind::Gt
        | SyntaxKind::GtEq
        | SyntaxKind::PlusEq
        | SyntaxKind::HyphEq
        | SyntaxKind::StarEq
        | SyntaxKind::SlashEq
        | SyntaxKind::Dots
        | SyntaxKind::Arrow
        | SyntaxKind::Root
        | SyntaxKind::Not
        | SyntaxKind::And
        | SyntaxKind::Or
        | SyntaxKind::Let
        | SyntaxKind::SetKw
        | SyntaxKind::Show
        | SyntaxKind::Context
        | SyntaxKind::If
        | SyntaxKind::Else
        | SyntaxKind::For
        | SyntaxKind::In
        | SyntaxKind::While
        | SyntaxKind::Import
        | SyntaxKind::Include
        | SyntaxKind::As => Some(FlowType::Clause),
        _ => None,
    }
}

/// The mode in which the children of a node of this kind are read.
pub fn mode_for(kind: SyntaxKind) -> (r: Option<InterpretMode>)
    ensures
        r == mode_of(kind),
{
    match kind {
        SyntaxKind::Markup | SyntaxKind::ContentBlock => Some(InterpretMode::Markup),
        SyntaxKind::Math => Some(InterpretMode::Math),
        SyntaxKind::Code | SyntaxKind::CodeBlock => Some(InterpretMode::Code),
        _ => None,
    }
}

/// Whether the type of a node of this kind is the join of its children.
pub fn is_container(kind: SyntaxKind) -> (r: bool)
    ensures
        r == joins_children(kind),
{
    match kind {
        SyntaxKind::Markup
        | SyntaxKind::ContentBlock
        | SyntaxKind::Math
        | SyntaxKind::Code
        | SyntaxKind::CodeBlock
        | SyntaxKind::Strong
        | SyntaxKind::Emph
        | SyntaxKind::Heading
        | SyntaxKind::ListItem
        | SyntaxKind::EnumItem
        | SyntaxKind::TermItem
        | SyntaxKind::Equation
        | SyntaxKind::MathDelimited
        | SyntaxKind::MathAttach
        | SyntaxKind::MathFrac
        | SyntaxKind::MathRoot
        | SyntaxKind::Parenthesized => true,
        _ => false,
    }
}

/// The walker: the result of type checking so far, and the mode in which
/// the subtree at hand is read.
pub struct TypeChecker {
    pub info: TypeCheckInfo,
    pub mode: InterpretMode,
}

impl TypeChecker {
    /// A walker that knows nothing yet and reads markup.
    pub fn new() -> (r: TypeChecker)
        ensures
            r.info@ == InfoTy::empty(),
            r.mode == InterpretMode::Markup,
    {
        TypeChecker { info: TypeCheckInfo::new(), mode: InterpretMode::Markup }
    }

    /// Whether two values can be compared. Nothing is checked yet.
    fn check_comparable(&self, lhs: &FlowType, rhs: &FlowType) {
    }

    /// Whether a value can be assigned. Nothing is checked yet.
    fn check_assignable(&self, lhs: &FlowType, rhs: &FlowType) {
    }

    /// Whether a container can hold an element. Nothing is checked yet.
    fn check_containing(&self, container: &FlowType, elem: &FlowType, expected_in: bool) {
    }

    /// Posts the constraint `lhs ⪯ rhs`.
    pub fn constrain(&mut self, lhs: &FlowType, rhs: &FlowType)
        ensures
            final(self).info@ == constrain_spec(old(self).info@, lhs@, rhs@),
            final(self).mode == old(self).mode,
    {
        self.info.constrain(lhs, rhs);
    }

    /// Tells `lhs` that it may ever be `rhs`.
    pub fn possible_ever_be(&mut self, lhs: &FlowType, rhs: &FlowType)
        ensures
            final(self).info@ == possible_ever_be_spec(old(self).info@, lhs@, rhs@),
            final(self).mode == old(self).mode,
    {
        match rhs {
            FlowType::Undef
            | FlowType::Content
            | FlowType::NoneType
            | FlowType::FlowNone
            | FlowType::Auto
            | FlowType::Element(..)
            | FlowType::Builtin(..)
            | FlowType::Value(..)
            | FlowType::Boolean(..)
            | FlowType::ValueDoc(..) => {
                self.constrain(rhs, lhs);
            },
            _ => {},
        }
    }

    /// Posts the constraints that the operator `op` asks of its operands.
    fn check_operands(&mut self, op: BinOp, lhs: &FlowType, rhs: &FlowType)
        ensures
            final(self).info@ == binary_effects(old(self).info@, op, lhs@, rhs@),
            final(self).mode == old(self).mode,
    {
        match op {
            BinOp::Add | BinOp::Sub | BinOp::Mul | BinOp::Div => {},
            BinOp::Eq | BinOp::Neq | BinOp::Leq | BinOp::Geq => {
                self.check_comparable(lhs, rhs);
                self.possible_ever_be(lhs, rhs);
                self.possible_ever_be(rhs, lhs);
            },
            BinOp::Lt | BinOp::Gt => {
                self.check_comparable(lhs, rhs);
            },
            BinOp::And | BinOp::Or => {
                let boolean = FlowType::Boolean(None);
                self.constrain(lhs, &boolean);
                self.constrain(rhs, &boolean);
            },
            BinOp::NotIn | BinOp::In => {
                self.check_containing(rhs, lhs, op == BinOp::In);
            },
            BinOp::Assign => {
                self.check_assignable(lhs, rhs);
                self.possible_ever_be(lhs, rhs);
            },
            BinOp::AddAssign | BinOp::SubAssign | BinOp::MulAssign | BinOp::DivAssign => {
                self.check_assignable(lhs, rhs);
            },
        }
    }

    /// The term that refers to the variable `id`, if it is known.
    fn var_ref(&self, id: DefId) -> (r: Option<FlowType>)
        ensures
            r is Some <==> self.info@.vars.contains_key(id),
            r matches Some(t) ==> t@ == var_ref(self.info@, id),
    {
        match self.info.var(id) {
            Some(var) => Some(FlowType::Var(Box::new((id, var.name())))),
            None => None,
        }
    }

    /// Fetches the variable of a binding, making it if it is new, and
    /// records the term that refers to it at the span of the binding. Gives
    /// the definition of the variable with the term that refers to it.
    pub fn get_var(&mut self, b: &Binding) -> (r: Option<(DefId, FlowType)>)
        ensures
            final(self).info@ == get_var_spec(old(self).info@, *b).0,
            match r {
                Some(found) => get_var_spec(old(self).info@, *b).1 == Some(found.0)
                    && final(self).info@.vars.contains_key(found.0) && found.1@ == var_ref(
                    final(self).info@,
                    found.0,
                ),
                None => get_var_spec(old(self).info@, *b).1 is None,
            },
            final(self).mode == old(self).mode,
    {
        let def_id = match b.def {
            Some(d) => d,
            None => {
                return None;
            },
        };
        self.info.define(def_id, b.name.clone());
        let ghost made = self.info@;
        assert(made.vars.contains_key(def_id));
        match self.var_ref(def_id) {
            Some(var_ty) => {
                self.info.record(b.span, clone_ty(&var_ty));
                assert(self.info@.vars == made.vars);
                Some((def_id, var_ty))
            },
            None => None,
        }
    }

    /// Binds the variable of `b` to a value that it has ever been.
    fn bind(&mut self, b: &Binding, value: FlowType) -> (r: Option<FlowType>)
        ensures
            (final(self).info@, opt_ty_view(&r)) == bind_spec(old(self).info@, *b, value@),
            final(self).mode == old(self).mode,
    {
        match self.get_var(b) {
            Some(found) => {
                self.info.ever_be(found.0, value);
                Some(found.1)
            },
            None => None,
        }
    }

    /// Distributes `value` over the bindings of a pattern.
    pub fn check_pattern(&mut self, pattern: &Pattern, value: FlowType) -> (r: FlowType)
        ensures
            (final(self).info@, r@) == check_pattern_spec(old(self).info@, *pattern, value@),
            final(self).mode == old(self).mode,
        decreases pattern, 1nat,
    {
        match self.check_pattern_(pattern, value) {
            Some(t) => t,
            None => FlowType::Undef,
        }
    }

    fn check_pattern_(&mut self, pattern: &Pattern, value: FlowType) -> (r: Option<FlowType>)
        ensures
            (
                final(self).info@,
                match r {
                    Some(t) => t@,
                    None => Ty::Undef,
                },
            ) == check_pattern_spec(old(self).info@, *pattern, value@),
            final(self).mode == old(self).mode,
        decreases pattern, 0nat,
    {
        match pattern {
            Pattern::Ident(ident) => self.bind(ident, value),
            Pattern::Normal => Some(FlowType::Any),
            Pattern::Placeholder => Some(FlowType::Any),
            Pattern::Parenthesized(exp) => Some(self.check_pattern(exp, value)),
            Pattern::Destructuring => Some(FlowType::Any),
        }
    }
}

/// The common contract of the functions that walk one node: what they give
/// and leave behind is what `told` holds, and the mode is as it was.
pub open spec fn walked(
    before: &TypeChecker,
    after: &TypeChecker,
    r: &Option<FlowType>,
    told: (InfoTy, Option<Ty>),
) -> bool {
    after.info@ == told.0 && opt_ty_view(r) == told.1 && after.mode == before.mode
}

impl TypeChecker {
    /// The type of the node; the type of a call is recorded at its span.
    pub fn check(&mut self, root: &SyntaxNode) -> (w: FlowType)
        ensures
            (final(self).info@, w@) == check_spec(old(self).info@, *root),
            final(self).mode == old(self).mode,
        decreases root, 3nat,
    {
        let should_record = match root.kind {
            SyntaxKind::FuncCall => true,
            _ => false,
        };
        let w = match self.check_inner(root) {
            Some(t) => t,
            None => FlowType::Undef,
        };
        if should_record {
            self.info.record(root.span, clone_ty(&w));
        }
        w
    }

    fn check_inner(&mut self, root: &SyntaxNode) -> (r: Option<FlowType>)
        ensures
            walked(old(self), final(self), &r, check_inner_spec(old(self).info@, *root)),
        decreases root, 2nat,
    {
        match constant_type(root.kind) {
            Some(t) => {
                return Some(t);
            },
            None => {},
        }
        match mode_for(root.kind) {
            Some(mode) => {
                return self.check_in_mode(root, mode);
            },
            None => {},
        }
        if is_container(root.kind) {
            return self.check_children(root);
        }
        match root.kind {
            SyntaxKind::Ident => self.check_ident(root, InterpretMode::Code),
            SyntaxKind::MathIdent => self.check_ident(root, InterpretMode::Math),
            SyntaxKind::Bool
            | SyntaxKind::Int
            | SyntaxKind::Float
            | SyntaxKind::Numeric
            | SyntaxKind::Str => self.check_literal(root),
            SyntaxKind::Array => self.check_array(root),
            SyntaxKind::Dict => self.check_dict(root),
            SyntaxKind::Unary => self.check_unary(root),
            SyntaxKind::Binary => self.check_binary(root),
            SyntaxKind::FieldAccess => self.check_field_access(root),
            SyntaxKind::FuncCall => self.check_func_call(root),
            SyntaxKind::Args => self.check_args(root),
            SyntaxKind::Closure => self.check_closure(root),
            SyntaxKind::LetBinding => self.check_let(root),
            SyntaxKind::SetRule => self.check_set(root),
            SyntaxKind::ShowRule => self.check_show(root),
            SyntaxKind::Contextual => self.check_contextual(root),
            SyntaxKind::Conditional => self.check_conditional(root),
            SyntaxKind::WhileLoop => self.check_while_loop(root),
            SyntaxKind::ForLoop => self.check_for_loop(root),
            _ => None,
        }
    }

    fn check_in_mode(&mut self, root: &SyntaxNode, into_mode: InterpretMode) -> (r: Option<
        FlowType,
    >)
        ensures
            walked(old(self), final(self), &r, check_joined_spec(old(self).info@, *root)),
        decreases root, 1nat,
    {
        let mode = self.mode;
        self.mode = into_mode;
        let res = self.check_children(root);
        self.mode = mode;
        res
    }

    #[verifier::loop_isolation(false)]
    fn check_children(&mut self, root: &SyntaxNode) -> (r: Option<FlowType>)
        ensures
            walked(old(self), final(self), &r, check_joined_spec(old(self).info@, *root)),
        decreases root, 0nat,
    {
        let mut joiner = Joiner::default();
        match &root.body {
            SyntaxBody::Children(children) => {
                let mut i: usize = 0;
                while i < children.len()
                    invariant
                        i <= children.len(),
                        (self.info@, joiner@) == check_children_spec(
                            old(self).info@,
                            joiner_start(),
                            children@,
                            i as nat,
                        ),
                        self.mode == old(self).mode,
                    decreases children.len() - i,
                {
                    let child = self.check(&children[i]);
                    joiner.join(child);
                    i += 1;
                }
            },
            _ => {},
        }
        Some(joiner.finalize())
    }

    fn check_ident(&mut self, root: &SyntaxNode, mode: InterpretMode) -> (r: Option<FlowType>)
        ensures
            walked(
                old(self),
                final(self),
                &r,
                check_ident_spec(old(self).info@, *root, mode == InterpretMode::Math),
            ),
    {
        match &root.body {
            SyntaxBody::Ident(ident) => {
                match ident.def {
                    Some(def_id) => {
                        self.info.define(def_id, ident.name.clone());
                        let ghost made = self.info@;
                        assert(made.vars.contains_key(def_id));
                        let var_ty = self.var_ref(def_id);
                        match var_ty {
                            Some(t) => {
                                self.info.record(root.span, clone_ty(&t));
                                assert(self.info@.vars == made.vars);
                                Some(t)
                            },
                            None => None,
                        }
                    },
                    None => {
                        let resolved = if mode == InterpretMode::Math {
                            &ident.math
                        } else {
                            &ident.global
                        };
                        match resolved {
                            Some(v) => Some(
                                FlowType::Value(Box::new((clone_value(v), root.span))),
                            ),
                            None => None,
                        }
                    },
                }
            },
            _ => None,
        }
    }

    fn check_literal(&mut self, root: &SyntaxNode) -> (r: Option<FlowType>)
        ensures
            walked(old(self), final(self), &r, (old(self).info@, check_literal_spec(*root))),
    {
        match &root.body {
            SyntaxBody::Literal(Some(v)) => Some(
                FlowType::Value(Box::new((clone_value(v), root.span))),
            ),
            _ => None,
        }
    }

    #[verifier::loop_isolation(false)]
    fn check_array(&mut self, root: &SyntaxNode) -> (r: Option<FlowType>)
        ensures
            walked(old(self), final(self), &r, check_array_spec(old(self).info@, *root)),
        decreases root, 0nat,
    {
        let mut elements: Vec<FlowType> = Vec::new();
        assert(tys_view(&elements) =~= Seq::<Ty>::empty());
        match &root.body {
            SyntaxBody::Children(children) => {
                let mut i: usize = 0;
                while i < children.len()
                    invariant
                        i <= children.len(),
                        (self.info@, tys_view(&elements)) == check_elements_spec(
                            old(self).info@,
                            children@,
                            i as nat,
                        ),
                        self.mode == old(self).mode,
                    decreases children.len() - i,
                {
                    let ghost before = tys_view(&elements);
                    let ty = self.check(&children[i]);
                    if !ty.is_clause() {
                        elements.push(ty);
                        assert(tys_view(&elements) =~= before.push(ty@));
                    }
                    i += 1;
                }
            },
            _ => {},
        }
        Some(FlowType::Tuple(elements))
    }

    #[verifier::loop_isolation(false)]
    fn check_dict(&mut self, root: &SyntaxNode) -> (r: Option<FlowType>)
        ensures
            walked(old(self), final(self), &r, check_dict_spec(old(self).info@, *root)),
        decreases root, 0nat,
    {
        match &root.body {
            SyntaxBody::Dict(items) => {
                let mut fields: Vec<(String, FlowType, Span)> = Vec::new();
                assert(fields_view(&fields) =~= Seq::<FieldTy>::empty());
                let mut i: usize = 0;
                while i < items.len()
                    invariant
                        i <= items.len(),
                        (self.info@, fields_view(&fields)) == check_items_spec(
                            old(self).info@,
                            items@,
                            i as nat,
                        ),
                        self.mode == old(self).mode,
                    decreases items.len() - i,
                {
                    let ghost before = fields_view(&fields);
                    let ghost start = self.info@;
                    let ghost step = check_items_spec(old(self).info@, items@, (i + 1) as nat);
                    match &items[i] {
                        DictItem::Named { name, expr, span } => {
                            let value = self.check(expr);
                            fields.push((name.clone(), value, *span));
                            assert(fields_view(&fields) =~= before.push(
                                FieldTy { name: name@, ty: value@, span: *span },
                            ));
                            assert(step.0 == check_spec(start, *expr).0);
                            assert(step.1 == fields_view(&fields));
                        },
                        DictItem::Keyed { key: Some(Value::Str(key)), expr, span } => {
                            let value = self.check(expr);
                            fields.push((key.clone(), value, *span));
                            assert(fields_view(&fields) =~= before.push(
                                FieldTy { name: key@, ty: value@, span: *span },
                            ));
                            assert(step.0 == check_spec(start, *expr).0);
                            assert(step.1 == fields_view(&fields));
                        },
                        _ => {
                            assert(step == (start, before));
                        },
                    }
                    i += 1;
                }
                Some(FlowType::Dict(FlowRecord { fields }))
            },
            _ => None,
        }
    }

    fn check_unary(&mut self, root: &SyntaxNode) -> (r: Option<FlowType>)
        ensures
            walked(old(self), final(self), &r, check_unary_spec(old(self).info@, *root)),
        decreases root, 0nat,
    {
        match &root.body {
            SyntaxBody::Unary { constant: Some(c), .. } => Some(
                FlowType::Value(Box::new((clone_value(c), root.span))),
            ),
            SyntaxBody::Unary { constant: None, op, expr } => {
                let operand = Box::new(self.check(expr));
                let ty = match op {
                    UnOp::Pos => FlowUnaryType::Pos(operand),
                    UnOp::Neg => FlowUnaryType::Neg(operand),
                    UnOp::Not => FlowUnaryType::Not(operand),
                };
                Some(FlowType::Unary(ty))
            },
            _ => None,
        }
    }

    fn check_binary(&mut self, root: &SyntaxNode) -> (r: Option<FlowType>)
        ensures
            walked(old(self), final(self), &r, check_binary_spec(old(self).info@, *root)),
        decreases root, 0nat,
    {
        match &root.body {
            SyntaxBody::Binary { constant: Some(c), .. } => Some(
                FlowType::Value(Box::new((clone_value(c), root.span))),
            ),
            SyntaxBody::Binary { constant: None, op, lhs, rhs } => {
                let lhs = self.check(lhs);
                let rhs = self.check(rhs);
                self.check_operands(*op, &lhs, &rhs);
                Some(FlowType::Binary(FlowBinaryType { op: *op, operands: Box::new((lhs, rhs)) }))
            },
            _ => None,
        }
    }

    fn check_field_access(&mut self, root: &SyntaxNode) -> (r: Option<FlowType>)
        ensures
            walked(old(self), final(self), &r, check_field_access_spec(old(self).info@, *root)),
        decreases root, 0nat,
    {
        match &root.body {
            SyntaxBody::FieldAccess { target, field } => {
                let obj = self.check(target);
                Some(FlowType::At(FlowAt(Box::new((obj, field.clone())))))
            },
            _ => None,
        }
    }

    /// The type of a call of `callee` with the bundle `args`.
    fn check_call(&mut self, callee: FlowType, args: FlowType, items: &Vec<Arg>) -> (r: Option<
        FlowType,
    >)
        ensures
            walked(
                old(self),
                final(self),
                &r,
                check_call_spec(old(self).info@, callee@, args@, items@),
            ),
    {
        let mut candidates: Vec<FlowType> = Vec::new();
        assert(tys_view(&candidates) =~= Seq::<Ty>::empty());
        match args {
            FlowType::Args(bundle) => {
                assert(args@->Args_0 == args_view(&bundle));
                let mut visiting: HashSet<u64> = HashSet::new();
                assert(crate::ty::signatures::def_ids(visiting@) =~= Set::empty());
                match self.info.check_apply(&callee, &bundle, items, &mut candidates, &mut visiting) {
                    Some(_) => {},
                    None => {
                        return None;
                    },
                }
            },
            _ => {},
        }
        Some(FlowType::from_types(candidates))
    }

    fn check_func_call(&mut self, root: &SyntaxNode) -> (r: Option<FlowType>)
        ensures
            walked(old(self), final(self), &r, check_func_call_spec(old(self).info@, *root)),
        decreases root, 0nat,
    {
        match &root.body {
            SyntaxBody::FuncCall { callee, args } => {
                let args_ty = self.check(args);
                let callee_ty = self.check(callee);
                let none: Vec<Arg> = Vec::new();
                let items = match &args.body {
                    SyntaxBody::Args(items) => items,
                    _ => &none,
                };
                self.check_call(callee_ty, args_ty, items)
            },
            _ => None,
        }
    }

    #[verifier::loop_isolation(false)]
    fn check_args(&mut self, root: &SyntaxNode) -> (r: Option<FlowType>)
        ensures
            walked(old(self), final(self), &r, check_args_spec(old(self).info@, *root)),
        decreases root, 0nat,
    {
        match &root.body {
            SyntaxBody::Args(items) => {
                let mut args_res: Vec<FlowType> = Vec::new();
                let mut named: Vec<(String, FlowType)> = Vec::new();
                assert(tys_view(&args_res) =~= Seq::<Ty>::empty());
                assert(named_view(&named) =~= Seq::<(Seq<char>, Ty)>::empty());
                let mut i: usize = 0;
                while i < items.len()
                    invariant
                        i <= items.len(),
                        (
                            self.info@,
                            ArgsTy { args: tys_view(&args_res), named: named_view(&named) },
                        ) == check_arg_items_spec(old(self).info@, items@, i as nat),
                        self.mode == old(self).mode,
                    decreases items.len() - i,
                {
                    let ghost a = tys_view(&args_res);
                    let ghost n = named_view(&named);
                    let ghost start = self.info@;
                    let ghost step = check_arg_items_spec(old(self).info@, items@, (i + 1) as nat);
                    match &items[i] {
                        Arg::Pos(e) => {
                            let value = self.check(e);
                            args_res.push(value);
                            assert(tys_view(&args_res) =~= a.push(value@));
                            assert(step.0 == check_spec(start, *e).0);
                            assert(step.1 == (ArgsTy { args: a.push(value@), named: n }));
                        },
                        Arg::Named { name, expr, .. } => {
                            let value = self.check(expr);
                            named.push((name.clone(), value));
                            assert(named_view(&named) =~= n.push((name@, value@)));
                            assert(step.0 == check_spec(start, *expr).0);
                            assert(step.1 == (ArgsTy { args: a, named: n.push((name@, value@)) }));
                        },
                        Arg::Spread => {
                            assert(step == (start, ArgsTy { args: a, named: n }));
                        },
                    }
                    i += 1;
                }
                Some(FlowType::Args(Box::new(FlowArgs { args: args_res, named })))
            },
            _ => None,
        }
    }

    fn check_init(&mut self, init: &Option<Box<SyntaxNode>>) -> (r: FlowType)
        ensures
            (final(self).info@, r@) == check_init_spec(old(self).info@, *init),
            final(self).mode == old(self).mode,
        decreases init, 0nat,
    {
        match init {
            Some(e) => self.check(e),
            None => FlowType::Infer,
        }
    }

    fn check_optional(&mut self, part: &Option<Box<SyntaxNode>>)
        ensures
            final(self).info@ == check_optional_spec(old(self).info@, *part),
            final(self).mode == old(self).mode,
        decreases part, 0nat,
    {
        match part {
            Some(e) => {
                let _ = self.check(e);
            },
            None => {},
        }
    }

    fn check_let(&mut self, root: &SyntaxNode) -> (r: Option<FlowType>)
        ensures
            walked(old(self), final(self), &r, check_let_spec(old(self).info@, *root)),
        decreases root, 0nat,
    {
        match &root.body {
            SyntaxBody::LetBinding { kind, init } => {
                let value = self.check_init(init);
                match kind {
                    LetBindingKind::Closure(c) => {
                        match self.bind(c, value) {
                            Some(_) => Some(FlowType::Any),
                            None => None,
                        }
                    },
                    LetBindingKind::Normal(pattern) => {
                        let _ = self.check_pattern(pattern, value);
                        Some(FlowType::Any)
                    },
                }
            },
            _ => None,
        }
    }

    fn check_set(&mut self, root: &SyntaxNode) -> (r: Option<FlowType>)
        ensures
            walked(old(self), final(self), &r, check_set_spec(old(self).info@, *root)),
        decreases root, 0nat,
    {
        match &root.body {
            SyntaxBody::SetRule { target, args, condition } => {
                let callee = self.check(target);
                let args_ty = self.check(args);
                self.check_optional(condition);
                let none: Vec<Arg> = Vec::new();
                let items = match &args.body {
                    SyntaxBody::Args(items) => items,
                    _ => &none,
                };
                self.check_call(callee, args_ty, items)
            },
            _ => None,
        }
    }

    fn check_show(&mut self, root: &SyntaxNode) -> (r: Option<FlowType>)
        ensures
            walked(old(self), final(self), &r, check_show_spec(old(self).info@, *root)),
        decreases root, 0nat,
    {
        match &root.body {
            SyntaxBody::ShowRule { selector, transform } => {
                self.check_optional(selector);
                let _ = self.check(transform);
                Some(FlowType::Any)
            },
            _ => None,
        }
    }

    fn check_contextual(&mut self, root: &SyntaxNode) -> (r: Option<FlowType>)
        ensures
            walked(old(self), final(self), &r, check_contextual_spec(old(self).info@, *root)),
        decreases root, 0nat,
    {
        match &root.body {
            SyntaxBody::Contextual { body } => {
                let body = self.check(body);
                Some(FlowType::Unary(FlowUnaryType::Context(Box::new(body))))
            },
            _ => None,
        }
    }

    fn check_conditional(&mut self, root: &SyntaxNode) -> (r: Option<FlowType>)
        ensures
            walked(old(self), final(self), &r, check_conditional_spec(old(self).info@, *root)),
        decreases root, 0nat,
    {
        match &root.body {
            SyntaxBody::Conditional { condition, if_body, else_body } => {
                let cond = self.check(condition);
                let then_ = self.check(if_body);
                let else_ = match else_body {
                    Some(e) => self.check(e),
                    None => FlowType::NoneType,
                };
                Some(FlowType::If(Box::new(FlowIfType { cond, then_, else_ })))
            },
            _ => None,
        }
    }

    fn check_while_loop(&mut self, root: &SyntaxNode) -> (r: Option<FlowType>)
        ensures
            walked(old(self), final(self), &r, check_while_loop_spec(old(self).info@, *root)),
        decreases root, 0nat,
    {
        match &root.body {
            SyntaxBody::WhileLoop { condition, body } => {
                let _ = self.check(condition);
                let _ = self.check(body);
                Some(FlowType::Any)
            },
            _ => None,
        }
    }

    fn check_for_loop(&mut self, root: &SyntaxNode) -> (r: Option<FlowType>)
        ensures
            walked(old(self), final(self), &r, check_for_loop_spec(old(self).info@, *root)),
        decreases root, 0nat,
    {
        match &root.body {
            SyntaxBody::ForLoop { iterable, pattern, body } => {
                let _ = self.check(iterable);
                let _ = self.check(pattern);
                let _ = self.check(body);
                Some(FlowType::Any)
            },
            _ => None,
        }
    }

    #[verifier::loop_isolation(false)]
    fn check_closure(&mut self, root: &SyntaxNode) -> (r: Option<FlowType>)
        ensures
            walked(old(self), final(self), &r, check_closure_spec(old(self).info@, *root)),
        decreases root, 0nat,
    {
        match &root.body {
            SyntaxBody::Closure { params, body } => {
                let mut pos: Vec<FlowType> = Vec::new();
                let mut named: Vec<(String, FlowType)> = Vec::new();
                let mut rest: Option<FlowType> = None;
                assert(tys_view(&pos) =~= Seq::<Ty>::empty());
                assert(named_view(&named) =~= Seq::<(Seq<char>, Ty)>::empty());
                let mut i: usize = 0;
                while i < params.len()
                    invariant
                        i <= params.len(),
                        check_params_spec(old(self).info@, params@, i as nat) == (ParamsTy {
                            info: self.info@,
                            pos: tys_view(&pos),
                            named: named_view(&named),
                            rest: opt_ty_view(&rest),
                            ok: true,
                        }),
                        self.mode == old(self).mode,
                    decreases params.len() - i,
                {
                    let ghost p = tys_view(&pos);
                    match &params[i] {
                        Param::Pos(pattern) => {
                            let ty = self.check_pattern(pattern, FlowType::Any);
                            pos.push(ty);
                            assert(tys_view(&pos) =~= p.push(ty@));
                        },
                        Param::Named { name, expr } => {
                            let exp = self.check(expr);
                            match self.bind(name, exp) {
                                Some(v) => {
                                    insert_named(&mut named, name.name.clone(), v);
                                },
                                None => {
                                    proof {
                                        lemma_params_failed(
                                            old(self).info@,
                                            params@,
                                            (i + 1) as nat,
                                            params@.len(),
                                        );
                                    }
                                    return None;
                                },
                            }
                        },
                        Param::Spread { sink: Some(b) } => {
                            match self.bind(b, FlowType::Builtin(FlowBuiltinType::Args)) {
                                Some(v) => {
                                    rest = Some(v);
                                },
                                None => {
                                    proof {
                                        lemma_params_failed(
                                            old(self).info@,
                                            params@,
                                            (i + 1) as nat,
                                            params@.len(),
                                        );
                                    }
                                    return None;
                                },
                            }
                        },
                        Param::Spread { sink: None } => {},
                    }
                    i += 1;
                }
                let body = self.check(body);
                let sig = FlowSignature { pos, named, rest, ret: body };
                let ghost want = check_closure_spec(old(self).info@, *root).1->0->Func_0;
                assert(sig_view(&sig).pos == want.pos);
                assert(sig_view(&sig).named == want.named);
                assert(sig_view(&sig).rest == want.rest);
                assert(sig_view(&sig).ret == want.ret);
                Some(FlowType::Func(Box::new(sig)))
            },
            _ => None,
        }
    }
}

/// Once a parameter could not be bound, the later ones change nothing.
pub proof fn lemma_params_failed(info: InfoTy, s: Seq<Param>, i: nat, n: nat)
    requires
        i <= n <= s.len(),
        !check_params_spec(info, s, i).ok,
    ensures
        check_params_spec(info, s, n) == check_params_spec(info, s, i),
    decreases n - i,
{
    if i < n {
        lemma_params_failed(info, s, i, (n - 1) as nat);
    }
}

/// Type checks the source file with the given root.
pub fn type_check(root: &SyntaxNode) -> (info: TypeCheckInfo)
    ensures
        info@ == type_check_spec(*root),
        info@.wf(),
{
    let mut type_checker = TypeChecker::new();
    let _ = type_checker.check(root);
    proof {
        crate::ty::growth::lemma_type_check_wf(*root);
    }
    type_checker.info
}

} // verus!
