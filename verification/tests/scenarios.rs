use tinymist_query::syntax::{
    Arg, BinOp, Binding, DefId, DictItem, IdentInfo, LetBindingKind, Param, Pattern, Span,
    SyntaxBody, SyntaxKind, SyntaxNode,
};
use tinymist_query::ty::builtin::FlowBuiltinType;
use tinymist_query::ty::check::type_check;
use tinymist_query::ty::def::{FlowArgs, FlowBinaryType, FlowIfType, FlowSignature, FlowType};
use tinymist_query::ty::info::TypeCheckInfo;
use tinymist_query::value::{Func, FuncRepr, ParamSpec, Signature, Type, Value};

fn show(t: &FlowType) -> String {
    format!("{:?}", t)
}

fn node(kind: SyntaxKind, span: u64, body: SyntaxBody) -> SyntaxNode {
    SyntaxNode::new(kind, Span(span), body)
}

fn code(span: u64, children: Vec<SyntaxNode>) -> SyntaxNode {
    SyntaxNode::inner(SyntaxKind::Code, Span(span), children)
}

fn int_lit(v: i64, span: u64) -> SyntaxNode {
    node(SyntaxKind::Int, span, SyntaxBody::Literal(Some(Value::Int(v))))
}

fn str_lit(s: &str, span: u64) -> SyntaxNode {
    node(SyntaxKind::Str, span, SyntaxBody::Literal(Some(Value::Str(s.to_string()))))
}

fn binding(name: &str, span: u64, def: u64) -> Binding {
    Binding { name: name.to_string(), span: Span(span), def: Some(DefId(def)) }
}

fn local(name: &str, span: u64, def: u64) -> SyntaxNode {
    node(
        SyntaxKind::Ident,
        span,
        SyntaxBody::Ident(IdentInfo {
            name: name.to_string(),
            def: Some(DefId(def)),
            global: None,
            math: None,
        }),
    )
}

fn global(name: &str, span: u64, value: Value) -> SyntaxNode {
    node(
        SyntaxKind::Ident,
        span,
        SyntaxBody::Ident(IdentInfo {
            name: name.to_string(),
            def: None,
            global: Some(value),
            math: None,
        }),
    )
}

fn let_normal(span: u64, b: Binding, init: SyntaxNode) -> SyntaxNode {
    node(
        SyntaxKind::LetBinding,
        span,
        SyntaxBody::LetBinding {
            kind: LetBindingKind::Normal(Pattern::Ident(b)),
            init: Some(Box::new(init)),
        },
    )
}

fn value(v: Value, span: u64) -> FlowType {
    FlowType::Value(Box::new((v, Span(span))))
}

fn var(id: u64, name: &str) -> FlowType {
    FlowType::Var(Box::new((DefId(id), name.to_string())))
}

fn recorded(info: &TypeCheckInfo, span: u64) -> FlowType {
    info.type_of_span(Span(span)).expect("a type is recorded at the span").clone()
}

fn other(ty: &str, repr: &str) -> Value {
    Value::Other(Type { name: ty.to_string(), long_name: ty.to_string() }, repr.to_string())
}

#[test]
fn let_binding_captures_the_literal() {
    // let x = 1
    let root = code(1, vec![let_normal(2, binding("x", 3, 100), int_lit(1, 4))]);
    let info = type_check(&root);
    assert_eq!(show(&recorded(&info, 3)), show(&var(100, "x")));
    let principal = info.simplify(recorded(&info, 3), true);
    assert_eq!(show(&principal), show(&value(Value::Int(1), 4)));
}

fn closure_f() -> SyntaxNode {
    // let f(a, b: 2) = a + b
    let body = node(
        SyntaxKind::Binary,
        20,
        SyntaxBody::Binary {
            constant: None,
            op: BinOp::Add,
            lhs: Box::new(local("a", 21, 101)),
            rhs: Box::new(local("b", 22, 102)),
        },
    );
    let closure = node(
        SyntaxKind::Closure,
        10,
        SyntaxBody::Closure {
            params: vec![
                Param::Pos(Pattern::Ident(binding("a", 11, 101))),
                Param::Named { name: binding("b", 12, 102), expr: int_lit(2, 13) },
            ],
            body: Box::new(body),
        },
    );
    node(
        SyntaxKind::LetBinding,
        2,
        SyntaxBody::LetBinding {
            kind: LetBindingKind::Closure(binding("f", 3, 100)),
            init: Some(Box::new(closure)),
        },
    )
}

#[test]
fn closure_binding_gives_its_signature() {
    let root = code(1, vec![closure_f()]);
    let info = type_check(&root);
    let principal = info.simplify(recorded(&info, 3), true);
    let want = FlowType::Func(Box::new(FlowSignature {
        pos: vec![FlowType::Any],
        named: vec![("b".to_string(), value(Value::Int(2), 13))],
        rest: None,
        ret: FlowType::Binary(FlowBinaryType {
            op: BinOp::Add,
            operands: Box::new((var(101, "a"), var(102, "b"))),
        }),
    }));
    assert_eq!(show(&principal), show(&want));
}

fn rect() -> Value {
    let stroke = ParamSpec {
        name: "stroke".to_string(),
        docs: "How to stroke the rectangle.".to_string(),
        infer_type: Some(FlowType::Builtin(FlowBuiltinType::Stroke)),
        positional: false,
        named: true,
        variadic: false,
        settable: true,
        expr: None,
    };
    Value::Func(Box::new(Func {
        name: Some("rect".to_string()),
        repr: FuncRepr::Native,
        signature: Signature {
            pos: vec![],
            named: vec![stroke],
            rest: None,
            ret_ty: Some(FlowType::Content),
        },
    }))
}

#[test]
fn stroke_dictionary_backfills_its_fields() {
    // #rect(stroke: (paint: red, thickness: 2pt))
    let red = global("red", 31, other("color", "red"));
    let two_pt = node(
        SyntaxKind::Numeric,
        33,
        SyntaxBody::Literal(Some(other("length", "2pt"))),
    );
    let dict = node(
        SyntaxKind::Dict,
        20,
        SyntaxBody::Dict(vec![
            DictItem::Named { name: "paint".to_string(), expr: red, span: Span(30) },
            DictItem::Named { name: "thickness".to_string(), expr: two_pt, span: Span(32) },
        ]),
    );
    let args = node(
        SyntaxKind::Args,
        10,
        SyntaxBody::Args(vec![Arg::Named {
            name: "stroke".to_string(),
            expr: dict,
            span: Span(11),
        }]),
    );
    let call = node(
        SyntaxKind::FuncCall,
        2,
        SyntaxBody::FuncCall {
            callee: Box::new(global("rect", 3, rect())),
            args: Box::new(args),
        },
    );
    let info = type_check(&SyntaxNode::inner(SyntaxKind::Markup, Span(1), vec![call]));
    let color = FlowType::Builtin(FlowBuiltinType::Color);
    let length = FlowType::Builtin(FlowBuiltinType::Length);
    let stroke = FlowType::Builtin(FlowBuiltinType::Stroke);
    assert_eq!(show(&recorded(&info, 30)), show(&color));
    assert_eq!(show(&recorded(&info, 31)), show(&color));
    assert_eq!(show(&recorded(&info, 32)), show(&length));
    assert_eq!(show(&recorded(&info, 33)), show(&length));
    assert_eq!(show(&recorded(&info, 11)), show(&stroke));
    assert_eq!(show(&recorded(&info, 20)), show(&stroke));
    assert_eq!(show(&recorded(&info, 2)), show(&FlowType::Content));
    for span in [30, 31, 32, 33, 11, 20, 2] {
        let simplified = info.simplify(recorded(&info, span), true);
        assert!(!matches!(simplified, FlowType::Clause));
    }
}

fn closure_two(def_f: u64) -> SyntaxNode {
    // let f(a, b) = a
    let closure = node(
        SyntaxKind::Closure,
        10,
        SyntaxBody::Closure {
            params: vec![
                Param::Pos(Pattern::Ident(binding("a", 11, 101))),
                Param::Pos(Pattern::Ident(binding("b", 12, 102))),
            ],
            body: Box::new(local("a", 13, 101)),
        },
    );
    node(
        SyntaxKind::LetBinding,
        2,
        SyntaxBody::LetBinding {
            kind: LetBindingKind::Closure(binding("f", 3, def_f)),
            init: Some(Box::new(closure)),
        },
    )
}

#[test]
fn partial_application_consumes_a_positional_slot() {
    // let f(a, b) = a; let g = f.with(10); g(20)
    let with = node(
        SyntaxKind::FieldAccess,
        41,
        SyntaxBody::FieldAccess {
            target: Box::new(local("f", 42, 100)),
            field: "with".to_string(),
        },
    );
    let with_call = node(
        SyntaxKind::FuncCall,
        40,
        SyntaxBody::FuncCall {
            callee: Box::new(with),
            args: Box::new(node(
                SyntaxKind::Args,
                43,
                SyntaxBody::Args(vec![Arg::Pos(int_lit(10, 44))]),
            )),
        },
    );
    let let_g = let_normal(30, binding("g", 31, 103), with_call);
    let g_call = node(
        SyntaxKind::FuncCall,
        50,
        SyntaxBody::FuncCall {
            callee: Box::new(local("g", 51, 103)),
            args: Box::new(node(
                SyntaxKind::Args,
                52,
                SyntaxBody::Args(vec![Arg::Pos(int_lit(20, 53))]),
            )),
        },
    );
    let root = code(1, vec![closure_two(100), let_g, g_call]);
    let info = type_check(&root);

    let f_sigs = var(100, "f").signatures(&info, false).expect("f can be called");
    assert_eq!(f_sigs.len(), 1);
    assert_eq!(f_sigs[0].pos.len(), 2);

    let g_sigs = var(103, "g").signatures(&info, false).expect("g can be called");
    assert_eq!(g_sigs.len(), 1);
    assert_eq!(g_sigs[0].pos.len(), 1);

    // A partial application gives no candidate when it is applied.
    assert_eq!(show(&recorded(&info, 50)), show(&FlowType::Any));
    // The argument of `with` was posted to the first parameter of `f`.
    let a = info.var(DefId(101)).expect("a is a variable");
    assert_eq!(a.store.lbs.len(), 2);
    assert_eq!(show(&a.store.lbs[1]), show(&value(Value::Int(10), 44)));
}

#[test]
fn conditional_keeps_both_branches() {
    // if cond { "a" } else { 1 }
    let block = |span: u64, inner: SyntaxNode| {
        SyntaxNode::inner(
            SyntaxKind::CodeBlock,
            Span(span),
            vec![
                SyntaxNode::leaf(SyntaxKind::LeftBrace, Span(span + 1)),
                code(span + 2, vec![inner]),
                SyntaxNode::leaf(SyntaxKind::RightBrace, Span(span + 3)),
            ],
        )
    };
    let cond = global("cond", 11, Value::Bool(true));
    let conditional = node(
        SyntaxKind::Conditional,
        10,
        SyntaxBody::Conditional {
            condition: Box::new(cond),
            if_body: Box::new(block(20, str_lit("a", 24))),
            else_body: Some(Box::new(block(30, int_lit(1, 34)))),
        },
    );
    let mut checker = tinymist_query::ty::check::TypeChecker::new();
    let got = checker.check(&conditional);
    let want = FlowType::If(Box::new(FlowIfType {
        cond: value(Value::Bool(true), 11),
        then_: value(Value::Str("a".to_string()), 24),
        else_: value(Value::Int(1), 34),
    }));
    assert_eq!(show(&got), show(&want));

    // Two distinct concrete types in one block collapse.
    let both = code(40, vec![str_lit("a", 41), int_lit(1, 42)]);
    assert_eq!(show(&checker.check(&both)), show(&FlowType::Undef));
}

#[test]
fn conditional_without_else_has_none() {
    let conditional = node(
        SyntaxKind::Conditional,
        10,
        SyntaxBody::Conditional {
            condition: Box::new(global("cond", 11, Value::Bool(true))),
            if_body: Box::new(int_lit(1, 12)),
            else_body: None,
        },
    );
    let mut checker = tinymist_query::ty::check::TypeChecker::new();
    let want = FlowType::If(Box::new(FlowIfType {
        cond: value(Value::Bool(true), 11),
        then_: value(Value::Int(1), 12),
        else_: FlowType::NoneType,
    }));
    assert_eq!(show(&checker.check(&conditional)), show(&want));
}

#[test]
fn a_variable_in_its_own_bounds_collapses_to_any() {
    let mut info = TypeCheckInfo::new();
    info.define(DefId(1), "rec".to_string());
    info.ever_be(DefId(1), var(1, "rec"));
    assert_eq!(show(&info.simplify(var(1, "rec"), true)), show(&FlowType::Any));
    // Without a principal type both bound lists are kept.
    let all = info.simplify(var(1, "rec"), false);
    assert_eq!(show(&all), show(&FlowType::Any));
}

#[test]
fn a_recursive_function_is_elided_in_its_result() {
    let mut info = TypeCheckInfo::new();
    info.define(DefId(1), "rec".to_string());
    let func = |ret: FlowType| {
        FlowType::Func(Box::new(FlowSignature {
            pos: vec![],
            named: vec![],
            rest: None,
            ret,
        }))
    };
    info.ever_be(DefId(1), func(var(1, "rec")));
    let got = info.simplify(var(1, "rec"), true);
    assert_eq!(show(&got), show(&func(FlowType::Any)));
    // Extracting and applying terminate on the cycle too.
    let sigs = var(1, "rec").signatures(&info, false).expect("rec can be called");
    assert_eq!(sigs.len(), 1);
    info.at_most(DefId(1), var(1, "rec"));
    let sigs = var(1, "rec").signatures(&info, false).expect("rec can be called");
    assert_eq!(sigs.len(), 1);
    let mut candidates = Vec::new();
    let mut visiting = std::collections::HashSet::new();
    let args = FlowArgs { args: vec![], named: vec![] };
    let r = info.check_apply(&var(1, "rec"), &args, &vec![], &mut candidates, &mut visiting);
    assert!(r.is_some());
    assert_eq!(candidates.len(), 1);
    assert!(visiting.is_empty());
}
