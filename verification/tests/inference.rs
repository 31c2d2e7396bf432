use std::collections::HashSet;

use tinymist_query::syntax::{
    Arg, BinOp, Binding, DefId, DictItem, IdentInfo, LetBindingKind, Param, Pattern, Span,
    SyntaxBody, SyntaxKind, SyntaxNode, UnOp,
};
use tinymist_query::ty::builtin::{
    canonical_dict, literally, param_mapping, FlowBuiltinType, PathPreference,
};
use tinymist_query::ty::check::{
    constant_type, insert_named, sorts_before, type_check, InterpretMode, TypeChecker,
};
use tinymist_query::ty::def::{
    FlowArgs, FlowAt, FlowBinaryType, FlowRecord, FlowSignature, FlowType, FlowUnaryType,
    FlowVarStore,
};
use tinymist_query::ty::info::TypeCheckInfo;
use tinymist_query::ty::signatures::{check_signatures, instantiate_signature};
use tinymist_query::value::{
    CastInfo, Element, Func, FuncRepr, ParamInfo, ParamSpec, Signature, Type, Value,
};

fn show(t: &FlowType) -> String {
    format!("{:?}", t)
}

fn shown(ts: &[FlowType]) -> Vec<String> {
    ts.iter().map(show).collect()
}

fn num(i: i64, span: u64) -> FlowType {
    FlowType::Value(Box::new((Value::Int(i), Span(span))))
}

fn var(id: u64, name: &str) -> FlowType {
    FlowType::Var(Box::new((DefId(id), name.to_string())))
}

fn builtin(b: FlowBuiltinType) -> FlowType {
    FlowType::Builtin(b)
}

fn dict(fields: Vec<(&str, FlowType, u64)>) -> FlowType {
    FlowType::Dict(FlowRecord {
        fields: fields.into_iter().map(|(n, t, s)| (n.to_string(), t, Span(s))).collect(),
    })
}

fn func(pos: Vec<FlowType>, named: Vec<(&str, FlowType)>, ret: FlowType) -> FlowType {
    FlowType::Func(Box::new(FlowSignature {
        pos,
        named: named.into_iter().map(|(n, t)| (n.to_string(), t)).collect(),
        rest: None,
        ret,
    }))
}

fn args(pos: Vec<FlowType>, named: Vec<(&str, FlowType)>) -> FlowArgs {
    FlowArgs { args: pos, named: named.into_iter().map(|(n, t)| (n.to_string(), t)).collect() }
}

fn info_with(vars: &[(u64, &str)]) -> TypeCheckInfo {
    let mut info = TypeCheckInfo::new();
    for (id, name) in vars {
        info.define(DefId(*id), name.to_string());
    }
    info
}

fn lbs(info: &TypeCheckInfo, id: u64) -> Vec<String> {
    shown(&info.var(DefId(id)).unwrap().store.lbs)
}

fn ubs(info: &TypeCheckInfo, id: u64) -> Vec<String> {
    shown(&info.var(DefId(id)).unwrap().store.ubs)
}

fn at(info: &TypeCheckInfo, span: u64) -> Option<String> {
    info.type_of_span(Span(span)).map(show)
}

#[test]
fn span_one_is_detached() {
    assert!(Span::detached().is_detached());
    assert_eq!(Span::detached(), Span(1));
    assert!(!Span(2).is_detached());
}

#[test]
fn define_keeps_a_known_variable() {
    let mut info = info_with(&[(1, "x")]);
    info.ever_be(DefId(1), num(1, 5));
    info.define(DefId(1), "other".to_string());
    assert_eq!(info.var(DefId(1)).unwrap().name(), "x");
    assert_eq!(lbs(&info, 1), vec![show(&num(1, 5))]);
    assert!(info.var(DefId(2)).is_none());
}

#[test]
fn bounds_of_an_unknown_variable_are_dropped() {
    let mut info = info_with(&[]);
    info.ever_be(DefId(7), num(1, 5));
    info.at_most(DefId(7), num(1, 5));
    assert!(info.var(DefId(7)).is_none());
}

#[test]
fn record_overwrites_and_record_if_absent_does_not() {
    let mut info = info_with(&[]);
    info.record(Span(5), FlowType::Auto);
    info.record_if_absent(Span(5), FlowType::Content);
    assert_eq!(at(&info, 5), Some(show(&FlowType::Auto)));
    info.record(Span(5), FlowType::Content);
    assert_eq!(at(&info, 5), Some(show(&FlowType::Content)));
    // Every type is recorded as it is given.
    info.record(Span(6), FlowType::Clause);
    info.record_if_absent(Span(7), FlowType::Clause);
    assert_eq!(at(&info, 6), Some(show(&FlowType::Clause)));
    assert_eq!(at(&info, 7), Some(show(&FlowType::Clause)));
    info.record(Span(6), FlowType::Undef);
    assert_eq!(at(&info, 6), Some(show(&FlowType::Undef)));
}

#[test]
fn constrain_between_variables_posts_nothing() {
    let mut info = info_with(&[(1, "x"), (2, "y")]);
    info.constrain(&var(1, "x"), &var(2, "y"));
    info.constrain(&var(1, "x"), &var(1, "x"));
    assert!(lbs(&info, 1).is_empty() && ubs(&info, 1).is_empty());
    assert!(lbs(&info, 2).is_empty() && ubs(&info, 2).is_empty());
}

#[test]
fn constrain_posts_upper_and_lower_bounds() {
    let mut info = info_with(&[(1, "x")]);
    info.constrain(&var(1, "x"), &FlowType::Content);
    info.constrain(&num(1, 1), &var(1, "x"));
    info.constrain(&var(1, "x"), &FlowType::Auto);
    assert_eq!(ubs(&info, 1), shown(&[FlowType::Content, FlowType::Auto]));
    assert_eq!(lbs(&info, 1), shown(&[num(1, 1)]));
    // An unknown variable takes no bound.
    info.constrain(&var(9, "z"), &FlowType::Content);
    assert!(info.var(DefId(9)).is_none());
}

#[test]
fn constrain_distributes_over_unions() {
    let mut info = info_with(&[(1, "x"), (2, "y")]);
    let union = FlowType::Union(Box::new(vec![var(1, "x"), FlowType::Auto, var(2, "y")]));
    info.constrain(&union, &FlowType::Content);
    assert_eq!(ubs(&info, 1), shown(&[FlowType::Content]));
    assert_eq!(ubs(&info, 2), shown(&[FlowType::Content]));
    let alternatives = FlowType::Union(Box::new(vec![FlowType::Auto, FlowType::NoneType]));
    info.constrain(&alternatives, &var(1, "x"));
    assert_eq!(lbs(&info, 1), shown(&[alternatives.clone()]));
    let mut info = info_with(&[(1, "x")]);
    info.constrain(&FlowType::Content, &FlowType::Union(Box::new(vec![var(1, "x"), var(1, "x")])));
    assert_eq!(lbs(&info, 1), shown(&[FlowType::Content, FlowType::Content]));
}

#[test]
fn constrain_backfills_literals() {
    let mut info = info_with(&[]);
    info.constrain(&num(1, 5), &FlowType::Content);
    info.constrain(&FlowType::Auto, &num(2, 6));
    info.constrain(&num(1, 5), &FlowType::Auto);
    info.constrain(&num(3, 1), &FlowType::Content);
    assert_eq!(at(&info, 5), Some(show(&FlowType::Content)));
    assert_eq!(at(&info, 6), Some(show(&FlowType::Auto)));
    assert_eq!(at(&info, 1), None);
    // Between two literals the left one is backfilled.
    info.constrain(&num(1, 7), &num(2, 8));
    assert_eq!(at(&info, 7), Some(show(&num(2, 8))));
    assert_eq!(at(&info, 8), None);
}

#[test]
fn constrain_dictionaries_field_by_field() {
    let mut info = info_with(&[(1, "x")]);
    let a = dict(vec![("p", var(1, "x"), 10), ("q", num(1, 21), 11), ("only", num(2, 22), 12)]);
    let b = dict(vec![("q", FlowType::Auto, 1), ("p", FlowType::Content, 31)]);
    info.constrain(&a, &b);
    assert_eq!(ubs(&info, 1), shown(&[FlowType::Content]));
    assert_eq!(at(&info, 10), Some(show(&FlowType::Content)));
    assert_eq!(at(&info, 31), Some(show(&var(1, "x"))));
    assert_eq!(at(&info, 21), Some(show(&FlowType::Auto)));
    assert_eq!(at(&info, 11), Some(show(&FlowType::Auto)));
    assert_eq!(at(&info, 12), None);
    assert_eq!(at(&info, 22), None);
    assert_eq!(at(&info, 1), None);
}

#[test]
fn intersect_keys_pairs_positions_by_name() {
    let record = |names: &[&str]| FlowRecord {
        fields: names.iter().map(|n| (n.to_string(), FlowType::Any, Span(1))).collect(),
    };
    let a = record(&["x", "y", "z"]);
    let b = record(&["z", "x"]);
    assert_eq!(a.intersect_keys_enumerate(&b), vec![(0, 1), (2, 0)]);
    // The longer dictionary is scanned.
    assert_eq!(b.intersect_keys_enumerate(&a), vec![(1, 0), (0, 2)]);
    let c = record(&["x", "x"]);
    let d = record(&["x", "x"]);
    assert_eq!(c.intersect_keys_enumerate(&d), vec![(0, 0), (1, 0)]);
    assert!(a.intersect_keys_enumerate(&record(&[])).is_empty());
    let pairs: Vec<(String, String)> =
        a.intersect_keys(&b).iter().map(|(l, r)| (l.0.clone(), r.0.clone())).collect();
    assert_eq!(
        pairs,
        vec![("x".to_string(), "x".to_string()), ("z".to_string(), "z".to_string())]
    );
}

#[test]
fn alias_meets_dictionary_as_its_canonical_shape() {
    let mut info = info_with(&[]);
    let d = dict(vec![("top", num(1, 21), 11), ("nope", num(2, 22), 12)]);
    info.constrain(&d, &builtin(FlowBuiltinType::Margin));
    let length = show(&builtin(FlowBuiltinType::Length));
    assert_eq!(at(&info, 11), Some(length.clone()));
    assert_eq!(at(&info, 21), Some(length.clone()));
    assert_eq!(at(&info, 12), None);
    let mut info = info_with(&[]);
    info.constrain(&builtin(FlowBuiltinType::Radius), &dict(vec![("top-left", num(1, 21), 11)]));
    assert_eq!(at(&info, 11), Some(length));
    // An alias that meets no dictionary is a built-in like any other.
    let mut info = info_with(&[]);
    info.constrain(&num(1, 5), &builtin(FlowBuiltinType::Stroke));
    assert_eq!(at(&info, 5), Some(show(&builtin(FlowBuiltinType::Stroke))));
}

#[test]
fn canonical_shapes() {
    let names = |b: FlowBuiltinType| -> Vec<String> {
        canonical_dict(b).unwrap().fields.iter().map(|f| f.0.clone()).collect()
    };
    assert_eq!(
        names(FlowBuiltinType::Stroke),
        vec!["paint", "thickness", "cap", "join", "dash", "miter-limit"]
    );
    assert_eq!(
        names(FlowBuiltinType::Margin),
        vec!["top", "right", "bottom", "left", "inside", "outside", "x", "y", "rest"]
    );
    assert_eq!(
        names(FlowBuiltinType::Inset),
        vec!["top", "right", "bottom", "left", "x", "y", "rest"]
    );
    assert_eq!(names(FlowBuiltinType::Outset), names(FlowBuiltinType::Inset));
    assert_eq!(
        names(FlowBuiltinType::Radius),
        vec![
            "top",
            "right",
            "bottom",
            "left",
            "top-left",
            "top-right",
            "bottom-left",
            "bottom-right",
            "rest"
        ]
    );
    assert!(canonical_dict(FlowBuiltinType::Color).is_none());
    assert!(canonical_dict(FlowBuiltinType::Path(PathPreference::Csv)).is_none());
    let stroke = canonical_dict(FlowBuiltinType::Stroke).unwrap();
    assert_eq!(show(&stroke.fields[0].1), show(&builtin(FlowBuiltinType::Color)));
    assert_eq!(show(&stroke.fields[1].1), show(&builtin(FlowBuiltinType::Length)));
    assert!(stroke.fields.iter().all(|f| f.2.is_detached()));
    assert_eq!(show(&literally(FlowBuiltinType::Float)), show(&builtin(FlowBuiltinType::Float)));
}

fn native(name: &str) -> Func {
    Func {
        name: Some(name.to_string()),
        repr: FuncRepr::Native,
        signature: Signature { pos: vec![], named: vec![], rest: None, ret_ty: None },
    }
}

fn pinfo(name: &str) -> ParamInfo {
    ParamInfo { name: name.to_string() }
}

#[test]
fn catalog_of_parameters() {
    let map = |f: &str, p: &str| param_mapping(&native(f), &pinfo(p)).map(|t| show(&t));
    let is = |b: FlowBuiltinType| Some(show(&builtin(b)));
    assert_eq!(map("rect", "stroke"), is(FlowBuiltinType::Stroke));
    assert_eq!(map("rect", "fill"), is(FlowBuiltinType::Color));
    assert_eq!(map("rect", "inset"), is(FlowBuiltinType::Inset));
    assert_eq!(map("rect", "outset"), is(FlowBuiltinType::Outset));
    assert_eq!(map("rect", "radius"), is(FlowBuiltinType::Radius));
    assert_eq!(map("page", "margin"), is(FlowBuiltinType::Margin));
    assert_eq!(map("text", "size"), is(FlowBuiltinType::TextSize));
    assert_eq!(map("text", "dir"), is(FlowBuiltinType::Dir));
    assert_eq!(map("stack", "dir"), is(FlowBuiltinType::Dir));
    assert_eq!(map("text", "font"), is(FlowBuiltinType::TextFont));
    assert_eq!(map("text", "lang"), is(FlowBuiltinType::TextLang));
    assert_eq!(map("text", "region"), is(FlowBuiltinType::TextRegion));
    assert_eq!(map("image", "path"), is(FlowBuiltinType::Path(PathPreference::Image)));
    assert_eq!(map("read", "path"), is(FlowBuiltinType::Path(PathPreference::Unrestricted)));
    assert_eq!(map("raw", "theme"), is(FlowBuiltinType::Path(PathPreference::RawTheme)));
    assert_eq!(map("raw", "syntaxes"), is(FlowBuiltinType::Path(PathPreference::RawSyntax)));
    assert_eq!(map("line", "stroke"), is(FlowBuiltinType::Stroke));
    assert_eq!(map("line", "fill"), None);
    assert_eq!(map("rect", "margin"), None);
    assert_eq!(map("rect", "width"), None);
    let mut anonymous = native("rect");
    anonymous.name = None;
    assert!(param_mapping(&anonymous, &pinfo("stroke")).is_none());
}

#[test]
fn types_at_declaration_sites() {
    let int = Type { name: "int".to_string(), long_name: "integer".to_string() };
    let casts = CastInfo::Union(vec![
        CastInfo::Any,
        CastInfo::Value(Value::Str("ltr".to_string()), "Left to right.".to_string()),
        CastInfo::Type(Type { name: "int".to_string(), long_name: "integer".to_string() }),
    ]);
    let want = FlowType::Union(Box::new(vec![
        FlowType::Any,
        FlowType::ValueDoc(Box::new((Value::Str("ltr".to_string()), "Left to right.".to_string()))),
        FlowType::Value(Box::new((Value::Type(int), Span::detached()))),
    ]));
    let f = native("f");
    assert_eq!(FlowType::from_return_site(&f, &casts).map(|t| show(&t)), Some(show(&want)));
    assert_eq!(
        FlowType::from_param_site(&f, &pinfo("x"), &casts).map(|t| show(&t)),
        Some(show(&want))
    );
    // The catalog counts before the declaration.
    assert_eq!(
        FlowType::from_param_site(&native("rect"), &pinfo("stroke"), &casts).map(|t| show(&t)),
        Some(show(&builtin(FlowBuiltinType::Stroke)))
    );
    // A closure is not looked up in the catalog.
    let mut closure = native("rect");
    closure.repr = FuncRepr::Closure;
    assert_eq!(
        FlowType::from_param_site(&closure, &pinfo("stroke"), &CastInfo::Any).map(|t| show(&t)),
        Some(show(&FlowType::Any))
    );
    // An element constructor returns its element, also through a partial application.
    let mut element = native("rect");
    element.repr = FuncRepr::Element(Element { name: "rect".to_string() });
    let mut with = native("rect");
    with.repr = FuncRepr::With(Box::new(element));
    let e = FlowType::Element(Element { name: "rect".to_string() });
    assert_eq!(FlowType::from_return_site(&with, &casts).map(|t| show(&t)), Some(show(&e)));
    assert_eq!(
        FlowType::from_param_site(&with, &pinfo("stroke"), &casts).map(|t| show(&t)),
        Some(show(&builtin(FlowBuiltinType::Stroke)))
    );
}

fn apply(info: &mut TypeCheckInfo, callee: &FlowType, a: &FlowArgs, items: &Vec<Arg>)
    -> Option<Vec<String>> {
    let mut candidates = Vec::new();
    let mut visiting = HashSet::new();
    let r = info.check_apply(callee, a, items, &mut candidates, &mut visiting);
    assert!(visiting.is_empty());
    r.map(|_| shown(&candidates))
}

#[test]
fn applying_a_function_constrains_its_arguments() {
    let mut info = info_with(&[(1, "a"), (2, "b"), (3, "x")]);
    let f = func(vec![var(1, "a")], vec![("k", var(2, "b"))], FlowType::Content);
    let a = args(
        vec![num(1, 11), var(3, "x")],
        vec![("k", num(2, 12)), ("unknown", num(3, 13))],
    );
    let got = apply(&mut info, &f, &a, &vec![]);
    assert_eq!(got, Some(shown(&[FlowType::Content])));
    assert_eq!(lbs(&info, 1), shown(&[num(1, 11)]));
    assert_eq!(lbs(&info, 2), shown(&[num(2, 12)]));
    // The argument behind the last formal meets `Any`.
    assert_eq!(ubs(&info, 3), shown(&[FlowType::Any]));
    assert_eq!(at(&info, 13), None);
}

#[test]
fn applying_a_variable_goes_through_its_bounds() {
    let mut info = info_with(&[(1, "f")]);
    info.ever_be(DefId(1), func(vec![], vec![], FlowType::Content));
    info.ever_be(DefId(1), FlowType::Auto);
    info.at_most(DefId(1), func(vec![], vec![], FlowType::NoneType));
    let got = apply(&mut info, &var(1, "f"), &args(vec![], vec![]), &vec![]);
    assert_eq!(got, Some(shown(&[FlowType::Content, FlowType::NoneType])));
    // An unknown variable makes the application fail.
    assert_eq!(apply(&mut info, &var(9, "g"), &args(vec![], vec![]), &vec![]), None);
    info.ever_be(DefId(1), var(9, "g"));
    assert_eq!(apply(&mut info, &var(1, "f"), &args(vec![], vec![]), &vec![]), None);
}

#[test]
fn applying_anything_else_gives_no_candidate() {
    let mut info = info_with(&[]);
    for callee in [
        FlowType::Any,
        FlowType::Content,
        dict(vec![]),
        FlowType::Tuple(vec![]),
        num(1, 5),
        builtin(FlowBuiltinType::Color),
        FlowType::With(Box::new((func(vec![], vec![], FlowType::Any), vec![]))),
    ] {
        let got = apply(&mut info, &callee, &args(vec![num(1, 6)], vec![]), &vec![]);
        assert_eq!(got, Some(vec![]), "{:?}", callee);
    }
    assert_eq!(at(&info, 6), None);
}

fn runtime(pos: Vec<Option<FlowType>>, named: Vec<(&str, Option<FlowType>)>, ret: Option<FlowType>)
    -> FlowType {
    let spec = |name: &str, ty: Option<FlowType>| ParamSpec {
        name: name.to_string(),
        docs: String::new(),
        infer_type: ty,
        positional: true,
        named: true,
        variadic: false,
        settable: true,
        expr: None,
    };
    let f = Func {
        name: Some("f".to_string()),
        repr: FuncRepr::Native,
        signature: Signature {
            pos: pos.into_iter().map(|t| spec("p", t)).collect(),
            named: named.into_iter().map(|(n, t)| spec(n, t)).collect(),
            rest: None,
            ret_ty: ret,
        },
    };
    FlowType::Value(Box::new((Value::Func(Box::new(f)), Span(2))))
}

fn leaf(span: u64) -> SyntaxNode {
    SyntaxNode::leaf(SyntaxKind::Int, Span(span))
}

#[test]
fn applying_a_host_function_records_the_declared_types() {
    let mut info = info_with(&[(1, "x")]);
    let callee = runtime(
        vec![Some(FlowType::Content), None],
        vec![("k", Some(FlowType::Auto)), ("untyped", None)],
        None,
    );
    let a = args(
        vec![var(1, "x"), num(1, 21), num(2, 22)],
        vec![("k", num(3, 23)), ("untyped", num(4, 24)), ("nope", num(5, 25))],
    );
    let items = vec![
        Arg::Pos(leaf(31)),
        Arg::Named { name: "k".to_string(), expr: leaf(33), span: Span(32) },
        Arg::Spread,
        Arg::Pos(leaf(34)),
        Arg::Named { name: "untyped".to_string(), expr: leaf(36), span: Span(35) },
    ];
    let got = apply(&mut info, &callee, &a, &items);
    assert_eq!(got, Some(shown(&[FlowType::Any])));
    assert_eq!(ubs(&info, 1), shown(&[FlowType::Content]));
    assert_eq!(at(&info, 31), Some(show(&FlowType::Content)));
    assert_eq!(at(&info, 34), Some(show(&FlowType::Any)));
    assert_eq!(at(&info, 21), Some(show(&FlowType::Any)));
    // The third positional argument has no syntax to record at.
    assert_eq!(at(&info, 22), Some(show(&FlowType::Any)));
    assert_eq!(at(&info, 32), Some(show(&FlowType::Auto)));
    assert_eq!(at(&info, 33), Some(show(&FlowType::Auto)));
    assert_eq!(at(&info, 23), Some(show(&FlowType::Auto)));
    assert_eq!(at(&info, 35), None);
    assert_eq!(at(&info, 24), None);
    assert_eq!(at(&info, 25), None);
    let documented = match runtime(vec![], vec![], Some(FlowType::Content)) {
        FlowType::Value(v) => FlowType::ValueDoc(Box::new((v.0, "docs".to_string()))),
        other => other,
    };
    let got = apply(&mut info, &documented, &args(vec![], vec![]), &vec![]);
    assert_eq!(got, Some(shown(&[FlowType::Content])));
}

#[test]
fn methods_with_and_where_apply_partially() {
    let f = func(vec![var(1, "a")], vec![], FlowType::Content);
    let a = args(vec![num(1, 11)], vec![]);
    for method in ["with", "where"] {
        let mut info = info_with(&[(1, "a"), (2, "f")]);
        info.ever_be(DefId(2), f.clone());
        let callee = FlowType::At(FlowAt(Box::new((var(2, "f"), method.to_string()))));
        let got = apply(&mut info, &callee, &a, &vec![]);
        let want = FlowType::With(Box::new((f.clone(), vec![a.clone()])));
        assert_eq!(got, Some(shown(&[want])), "{method}");
        assert_eq!(lbs(&info, 1), shown(&[num(1, 11)]));
    }
    let mut info = info_with(&[(1, "a"), (2, "f")]);
    info.ever_be(DefId(2), f.clone());
    let other = FlowType::At(FlowAt(Box::new((var(2, "f"), "map".to_string()))));
    assert_eq!(apply(&mut info, &other, &a, &vec![]), Some(vec![]));
    assert!(lbs(&info, 1).is_empty());
}

#[test]
fn primary_type_prefers_upper_bounds() {
    let mut info = info_with(&[(1, "x"), (2, "y")]);
    assert_eq!(show(&info.check_primary_type(var(1, "x"))), show(&FlowType::Any));
    info.ever_be(DefId(1), FlowType::Content);
    info.ever_be(DefId(1), FlowType::Auto);
    assert_eq!(show(&info.check_primary_type(var(1, "x"))), show(&FlowType::Content));
    info.at_most(DefId(1), FlowType::NoneType);
    assert_eq!(show(&info.check_primary_type(var(1, "x"))), show(&FlowType::NoneType));
    let nested = FlowType::At(FlowAt(Box::new((
        FlowType::At(FlowAt(Box::new((var(1, "x"), "a".to_string())))),
        "b".to_string(),
    ))));
    assert_eq!(show(&info.check_primary_type(nested)), show(&FlowType::NoneType));
    assert_eq!(show(&info.check_primary_type(var(9, "z"))), show(&FlowType::Any));
    assert_eq!(show(&info.check_primary_type(num(1, 2))), show(&num(1, 2)));
    let applied = info.partial_apply(
        &FlowSignature { pos: vec![], named: vec![], rest: None, ret: FlowType::Any },
        &args(vec![num(1, 2)], vec![]),
    );
    let want = FlowType::With(Box::new((
        func(vec![], vec![], FlowType::Any),
        vec![args(vec![num(1, 2)], vec![])],
    )));
    assert_eq!(show(&applied), show(&want));
}

fn arities(t: &FlowType, info: &TypeCheckInfo, principal: bool) -> Option<Vec<usize>> {
    t.signatures(info, principal).map(|sigs| sigs.iter().map(|s| s.pos.len()).collect())
}

#[test]
fn signatures_of_unions_and_variables() {
    let mut info = info_with(&[(1, "f")]);
    let one = func(vec![FlowType::Any], vec![], FlowType::Any);
    let two = func(vec![FlowType::Any, FlowType::Any], vec![], FlowType::Any);
    let union = FlowType::Union(Box::new(vec![one.clone(), FlowType::Auto, two.clone()]));
    assert_eq!(arities(&union, &info, true), Some(vec![1, 2]));
    assert_eq!(arities(&FlowType::Auto, &info, true), None);
    assert_eq!(arities(&var(1, "f"), &info, false), None);
    assert_eq!(arities(&var(9, "g"), &info, false), None);
    info.ever_be(DefId(1), one);
    info.at_most(DefId(1), two);
    // The upper bounds come first; the lower bounds count without a principal type only.
    assert_eq!(arities(&var(1, "f"), &info, false), Some(vec![2, 1]));
    assert_eq!(arities(&var(1, "f"), &info, true), Some(vec![2]));
}

#[test]
fn partial_application_consumes_positional_parameters() {
    let info = info_with(&[]);
    let three = func(vec![num(1, 1), num(2, 2), num(3, 3)], vec![("k", FlowType::Auto)], FlowType::Any);
    let with = |bundles: Vec<FlowArgs>| FlowType::With(Box::new((three.clone(), bundles)));
    let one = args(vec![FlowType::Any], vec![("k", FlowType::Any)]);
    let two = args(vec![FlowType::Any, FlowType::Any], vec![]);
    assert_eq!(arities(&with(vec![]), &info, false), Some(vec![3]));
    assert_eq!(arities(&with(vec![one.clone()]), &info, false), Some(vec![2]));
    assert_eq!(arities(&with(vec![one.clone(), two.clone()]), &info, false), Some(vec![0]));
    assert_eq!(arities(&with(vec![two.clone(), two.clone()]), &info, false), Some(vec![0]));
    let left = with(vec![two]).signatures(&info, false).unwrap();
    assert_eq!(shown(&left[0].pos), shown(&[num(3, 3)]));
    assert_eq!(left[0].named.len(), 1);
    let nested = FlowType::With(Box::new((with(vec![one.clone()]), vec![one])));
    assert_eq!(arities(&nested, &info, false), Some(vec![1]));
    let mut sigs = Vec::new();
    let mut visiting = HashSet::new();
    check_signatures(&three, &mut sigs, &info, false, &mut visiting);
    instantiate_signature(&three, &vec![], &mut sigs, &info, false, &mut visiting);
    assert_eq!(sigs.len(), 2);
}

#[test]
fn signatures_have_their_parameters_simplified() {
    let mut info = info_with(&[(1, "a")]);
    info.ever_be(DefId(1), FlowType::Content);
    let f = func(vec![var(1, "a")], vec![("k", var(1, "a"))], var(1, "a"));
    let sigs = f.signatures(&info, false).unwrap();
    assert_eq!(shown(&sigs[0].pos), shown(&[FlowType::Content]));
    assert_eq!(show(&sigs[0].named[0].1), show(&FlowType::Content));
    assert_eq!(show(&sigs[0].ret), show(&var(1, "a")));
}

#[test]
fn simplify_by_polarity() {
    let mut info = info_with(&[(1, "x")]);
    info.ever_be(DefId(1), FlowType::Content);
    info.at_most(DefId(1), FlowType::Auto);
    // Met in an output position only: the lower bounds stand for it.
    assert_eq!(show(&info.simplify(var(1, "x"), true)), show(&FlowType::Content));
    // Met in an input position only: the upper bounds stand for it.
    let taking = func(vec![var(1, "x")], vec![], FlowType::Any);
    let want = func(vec![FlowType::Auto], vec![], FlowType::Any);
    assert_eq!(show(&info.simplify(taking.clone(), true)), show(&want));
    // Met in both: both lists stand for it.
    let both = func(vec![var(1, "x")], vec![], var(1, "x"));
    let bounds = FlowType::Let(Box::new(FlowVarStore {
        lbs: vec![FlowType::Content],
        ubs: vec![FlowType::Auto],
    }));
    let want = func(vec![bounds.clone()], vec![], bounds.clone());
    assert_eq!(show(&info.simplify(both, true)), show(&want));
    // Without a principal type both lists are kept everywhere.
    assert_eq!(show(&info.simplify(var(1, "x"), false)), show(&bounds));
    let want = func(vec![bounds], vec![], FlowType::Any);
    assert_eq!(show(&info.simplify(taking, false)), show(&want));
}

#[test]
fn simplify_collapses_bound_lists() {
    let mut info = info_with(&[(1, "x"), (2, "y"), (3, "z")]);
    assert_eq!(show(&info.simplify(var(1, "x"), true)), show(&FlowType::Any));
    assert_eq!(show(&info.simplify(var(9, "unknown"), true)), show(&FlowType::Any));
    info.ever_be(DefId(2), FlowType::Content);
    info.ever_be(DefId(2), FlowType::Auto);
    let two = FlowType::Let(Box::new(FlowVarStore {
        lbs: vec![FlowType::Content, FlowType::Auto],
        ubs: vec![],
    }));
    assert_eq!(show(&info.simplify(var(2, "y"), true)), show(&two));
    info.at_most(DefId(3), FlowType::Content);
    // A single upper bound stands for itself only where the upper bounds alone are kept.
    let upper = FlowType::Let(Box::new(FlowVarStore { lbs: vec![], ubs: vec![FlowType::Content] }));
    assert_eq!(show(&info.simplify(var(3, "z"), false)), show(&upper));
    assert_eq!(show(&info.simplify(var(3, "z"), true)), show(&FlowType::Any));
}

#[test]
fn simplify_rebuilds_structures() {
    let mut info = info_with(&[(1, "x")]);
    info.ever_be(DefId(1), FlowType::Content);
    let x = || var(1, "x");
    let c = || FlowType::Content;
    let cases = vec![
        (FlowType::Tuple(vec![x(), x()]), FlowType::Tuple(vec![c(), c()])),
        (FlowType::Array(Box::new(x())), FlowType::Array(Box::new(c()))),
        (FlowType::Union(Box::new(vec![x()])), FlowType::Union(Box::new(vec![c()]))),
        (
            FlowType::Args(Box::new(args(vec![x()], vec![("k", x())]))),
            FlowType::Args(Box::new(args(vec![c()], vec![("k", c())]))),
        ),
        (
            FlowType::With(Box::new((x(), vec![args(vec![x()], vec![])]))),
            FlowType::With(Box::new((c(), vec![args(vec![x()], vec![])]))),
        ),
        // Expressions and projections stay as they are.
        (FlowType::Unary(FlowUnaryType::Neg(Box::new(x()))), FlowType::Unary(FlowUnaryType::Neg(Box::new(x())))),
        (
            FlowType::At(FlowAt(Box::new((x(), "f".to_string())))),
            FlowType::At(FlowAt(Box::new((x(), "f".to_string())))),
        ),
        (
            FlowType::Let(Box::new(FlowVarStore { lbs: vec![c()], ubs: vec![] })),
            FlowType::Let(Box::new(FlowVarStore { lbs: vec![c()], ubs: vec![] })),
        ),
        (
            FlowType::Let(Box::new(FlowVarStore { lbs: vec![x(), c()], ubs: vec![x()] })),
            FlowType::Let(Box::new(FlowVarStore { lbs: vec![c(), c()], ubs: vec![c()] })),
        ),
        (FlowType::Clause, FlowType::Clause),
    ];
    for (given, want) in cases {
        assert_eq!(show(&info.simplify(given, false)), show(&want));
    }
    // The fields of a dictionary are input positions.
    info.at_most(DefId(1), FlowType::Auto);
    let got = info.simplify(dict(vec![("f", x(), 5)]), true);
    assert_eq!(show(&got), show(&dict(vec![("f", FlowType::Auto, 5)])));
}

#[test]
fn simplify_keeps_the_fields_of_a_dictionary() {
    let mut info = info_with(&[(1, "x")]);
    info.at_most(DefId(1), FlowType::Auto);
    let d = dict(vec![("paint", var(1, "x"), 5), ("thickness", num(1, 7), 6)]);
    info.constrain(&d, &builtin(FlowBuiltinType::Stroke));
    for principal in [true, false] {
        match info.simplify(d.clone(), principal) {
            FlowType::Dict(r) => {
                let names: Vec<(String, Span)> = r.fields.iter().map(|f| (f.0.clone(), f.2)).collect();
                assert_eq!(
                    names,
                    vec![("paint".to_string(), Span(5)), ("thickness".to_string(), Span(6))]
                );
                let canonical = canonical_dict(FlowBuiltinType::Stroke).unwrap();
                assert!(r.fields.iter().all(|f| canonical.fields.iter().any(|c| c.0 == f.0)));
            }
            other => panic!("{:?}", other),
        }
    }
    assert_eq!(ubs(&info, 1), shown(&[FlowType::Auto, builtin(FlowBuiltinType::Color)]));
}

#[test]
fn simplify_is_idempotent() {
    let mut info = info_with(&[(1, "x")]);
    info.ever_be(DefId(1), FlowType::Content);
    let t = FlowType::Tuple(vec![var(1, "x"), FlowType::Auto]);
    let once = info.simplify(t, true);
    let twice = info.simplify(once.clone(), true);
    assert_eq!(show(&once), show(&twice));
    // A list of bounds is rebuilt as it is.
    info.ever_be(DefId(1), FlowType::Auto);
    info.at_most(DefId(1), FlowType::Content);
    for principal in [true, false] {
        let once = info.simplify(var(1, "x"), principal);
        assert!(matches!(once, FlowType::Let(_)));
        assert_eq!(show(&info.simplify(once.clone(), principal)), show(&once));
        let nested = FlowType::Array(Box::new(var(1, "x")));
        let once = info.simplify(nested, principal);
        assert_eq!(show(&info.simplify(once.clone(), principal)), show(&once));
    }
}

#[test]
fn principal_type_drops_bounds() {
    let mut info = info_with(&[(1, "x")]);
    info.ever_be(DefId(1), FlowType::Content);
    info.at_most(DefId(1), FlowType::Auto);
    let principal = info.simplify(var(1, "x"), true);
    let all = info.simplify(var(1, "x"), false);
    assert_eq!(show(&principal), show(&FlowType::Content));
    match all {
        FlowType::Let(store) => {
            assert_eq!(shown(&store.lbs), shown(&[FlowType::Content]));
            assert_eq!(shown(&store.ubs), shown(&[FlowType::Auto]));
        }
        other => panic!("{:?}", other),
    }
}

#[test]
fn names_sort_by_their_bytes() {
    let s = |x: &str| x.to_string();
    assert!(sorts_before(&s("a"), &s("b")));
    assert!(sorts_before(&s("a"), &s("ab")));
    assert!(sorts_before(&s(""), &s("a")));
    assert!(sorts_before(&s("B"), &s("a")));
    assert!(sorts_before(&s("z"), &s("é")));
    assert!(!sorts_before(&s("a"), &s("a")));
    assert!(!sorts_before(&s("b"), &s("a")));
    let mut named = Vec::new();
    insert_named(&mut named, s("m"), FlowType::Auto);
    insert_named(&mut named, s("a"), FlowType::Content);
    insert_named(&mut named, s("z"), FlowType::Any);
    insert_named(&mut named, s("m"), FlowType::NoneType);
    let got: Vec<(String, String)> = named.iter().map(|(n, t)| (n.clone(), show(t))).collect();
    assert_eq!(
        got,
        vec![
            (s("a"), show(&FlowType::Content)),
            (s("m"), show(&FlowType::NoneType)),
            (s("z"), show(&FlowType::Any)),
        ]
    );
}

fn node(kind: SyntaxKind, span: u64, body: SyntaxBody) -> SyntaxNode {
    SyntaxNode::new(kind, Span(span), body)
}

fn int_lit(v: i64, span: u64) -> SyntaxNode {
    node(SyntaxKind::Int, span, SyntaxBody::Literal(Some(Value::Int(v))))
}

fn binding(name: &str, span: u64, def: Option<u64>) -> Binding {
    Binding { name: name.to_string(), span: Span(span), def: def.map(DefId) }
}

fn use_of(name: &str, _span: u64, def: Option<u64>, global: Option<Value>, math: Option<Value>)
    -> IdentInfo {
    IdentInfo { name: name.to_string(), def: def.map(DefId), global, math }
}

fn check(n: &SyntaxNode) -> (TypeChecker, FlowType) {
    let mut checker = TypeChecker::new();
    let t = checker.check(n);
    assert_eq!(checker.mode, InterpretMode::Markup);
    (checker, t)
}

#[test]
fn kinds_with_a_fixed_type() {
    let of = |k: SyntaxKind| constant_type(k).map(|t| show(&t));
    assert_eq!(of(SyntaxKind::Text), Some(show(&FlowType::Content)));
    assert_eq!(of(SyntaxKind::ModuleInclude), Some(show(&FlowType::Content)));
    assert_eq!(of(SyntaxKind::Space), Some(show(&FlowType::NoneType)));
    assert_eq!(of(SyntaxKind::NoneLit), Some(show(&FlowType::NoneType)));
    assert_eq!(of(SyntaxKind::ModuleImport), Some(show(&FlowType::NoneType)));
    assert_eq!(of(SyntaxKind::DestructAssignment), Some(show(&FlowType::NoneType)));
    assert_eq!(of(SyntaxKind::Auto), Some(show(&FlowType::Auto)));
    assert_eq!(of(SyntaxKind::Destructuring), Some(show(&FlowType::Any)));
    for k in [
        SyntaxKind::Break,
        SyntaxKind::Continue,
        SyntaxKind::Return,
        SyntaxKind::LoopBreak,
        SyntaxKind::LoopContinue,
        SyntaxKind::FuncReturn,
    ] {
        assert_eq!(of(k), Some(show(&FlowType::FlowNone)));
    }
    for k in [SyntaxKind::Comma, SyntaxKind::Named, SyntaxKind::SetKw, SyntaxKind::As] {
        assert_eq!(of(k), Some(show(&FlowType::Clause)));
    }
    for k in [SyntaxKind::Ident, SyntaxKind::Markup, SyntaxKind::Binary, SyntaxKind::Array] {
        assert_eq!(of(k), None);
    }
}

#[test]
fn unreadable_nodes_are_undef() {
    for k in [
        SyntaxKind::Int,
        SyntaxKind::Ident,
        SyntaxKind::Dict,
        SyntaxKind::Unary,
        SyntaxKind::Binary,
        SyntaxKind::FieldAccess,
        SyntaxKind::FuncCall,
        SyntaxKind::Args,
        SyntaxKind::Closure,
        SyntaxKind::LetBinding,
        SyntaxKind::SetRule,
        SyntaxKind::ShowRule,
        SyntaxKind::Contextual,
        SyntaxKind::Conditional,
        SyntaxKind::WhileLoop,
        SyntaxKind::ForLoop,
    ] {
        let (_, t) = check(&SyntaxNode::leaf(k, Span(5)));
        assert_eq!(show(&t), show(&FlowType::Undef), "{:?}", k);
    }
    let (_, t) = check(&node(SyntaxKind::Str, 5, SyntaxBody::Literal(None)));
    assert_eq!(show(&t), show(&FlowType::Undef));
    // A container without children has the type of nothing.
    let (_, t) = check(&SyntaxNode::leaf(SyntaxKind::Strong, Span(5)));
    assert_eq!(show(&t), show(&FlowType::NoneType));
    let (_, t) = check(&SyntaxNode::leaf(SyntaxKind::Array, Span(5)));
    assert_eq!(show(&t), show(&FlowType::Tuple(vec![])));
}

#[test]
fn containers_join_their_children() {
    let markup = SyntaxNode::inner(
        SyntaxKind::Markup,
        Span(2),
        vec![
            SyntaxNode::leaf(SyntaxKind::Text, Span(3)),
            SyntaxNode::leaf(SyntaxKind::Space, Span(4)),
            SyntaxNode::inner(
                SyntaxKind::Strong,
                Span(5),
                vec![
                    SyntaxNode::leaf(SyntaxKind::Star, Span(6)),
                    SyntaxNode::leaf(SyntaxKind::Text, Span(7)),
                    SyntaxNode::leaf(SyntaxKind::Star, Span(8)),
                ],
            ),
        ],
    );
    let (_, t) = check(&markup);
    assert_eq!(show(&t), show(&FlowType::Content));
    let after_return = SyntaxNode::inner(
        SyntaxKind::Code,
        Span(2),
        vec![
            int_lit(1, 3),
            SyntaxNode::leaf(SyntaxKind::FuncReturn, Span(4)),
            SyntaxNode::leaf(SyntaxKind::Text, Span(5)),
        ],
    );
    let (_, t) = check(&after_return);
    assert_eq!(show(&t), show(&num(1, 3)));
}

#[test]
fn array_drops_punctuation() {
    let array = SyntaxNode::inner(
        SyntaxKind::Array,
        Span(2),
        vec![
            SyntaxNode::leaf(SyntaxKind::LeftParen, Span(3)),
            int_lit(1, 4),
            SyntaxNode::leaf(SyntaxKind::Comma, Span(5)),
            SyntaxNode::leaf(SyntaxKind::Spread, Span(6)),
            int_lit(2, 7),
            SyntaxNode::leaf(SyntaxKind::RightParen, Span(8)),
        ],
    );
    let (_, t) = check(&array);
    assert_eq!(show(&t), show(&FlowType::Tuple(vec![num(1, 4), num(2, 7)])));
}

#[test]
fn dictionary_fields_come_in_source_order() {
    let keyed = |key: Option<Value>, span: u64| DictItem::Keyed {
        key,
        expr: int_lit(span as i64, span + 1),
        span: Span(span),
    };
    let d = node(
        SyntaxKind::Dict,
        2,
        SyntaxBody::Dict(vec![
            DictItem::Named { name: "b".to_string(), expr: int_lit(1, 11), span: Span(10) },
            keyed(Some(Value::Str("a key".to_string())), 20),
            DictItem::Spread,
            keyed(Some(Value::Int(3)), 30),
            keyed(None, 40),
            DictItem::Named { name: "a".to_string(), expr: int_lit(2, 51), span: Span(50) },
        ]),
    );
    let (_, t) = check(&d);
    let want = dict(vec![("b", num(1, 11), 10), ("a key", num(20, 21), 20), ("a", num(2, 51), 50)]);
    assert_eq!(show(&t), show(&want));
}

#[test]
fn constants_win_over_operators() {
    let unary = |constant: Option<Value>| {
        node(
            SyntaxKind::Unary,
            2,
            SyntaxBody::Unary { constant, op: UnOp::Neg, expr: Box::new(int_lit(1, 3)) },
        )
    };
    let (_, t) = check(&unary(Some(Value::Int(-1))));
    assert_eq!(show(&t), show(&num(-1, 2)));
    let (_, t) = check(&unary(None));
    assert_eq!(show(&t), show(&FlowType::Unary(FlowUnaryType::Neg(Box::new(num(1, 3))))));
    let binary = node(
        SyntaxKind::Binary,
        2,
        SyntaxBody::Binary {
            constant: Some(Value::Int(3)),
            op: BinOp::Add,
            lhs: Box::new(int_lit(1, 3)),
            rhs: Box::new(int_lit(2, 4)),
        },
    );
    let (_, t) = check(&binary);
    assert_eq!(show(&t), show(&num(3, 2)));
}

fn with_x(then: SyntaxNode) -> SyntaxNode {
    // let x; <then>
    let let_x = node(
        SyntaxKind::LetBinding,
        90,
        SyntaxBody::LetBinding {
            kind: LetBindingKind::Normal(Pattern::Ident(binding("x", 91, Some(1)))),
            init: None,
        },
    );
    SyntaxNode::inner(SyntaxKind::Code, Span(89), vec![let_x, then])
}

fn x_use(span: u64) -> SyntaxNode {
    node(SyntaxKind::Ident, span, SyntaxBody::Ident(use_of("x", span, Some(1), None, None)))
}

fn binary(op: BinOp, lhs: SyntaxNode, rhs: SyntaxNode) -> SyntaxNode {
    node(
        SyntaxKind::Binary,
        80,
        SyntaxBody::Binary { constant: None, op, lhs: Box::new(lhs), rhs: Box::new(rhs) },
    )
}

#[test]
fn let_without_initializer_infers() {
    let info = type_check(&with_x(SyntaxNode::leaf(SyntaxKind::Space, Span(2))));
    assert_eq!(lbs(&info, 1), shown(&[FlowType::Infer]));
    assert_eq!(at(&info, 91), Some(show(&var(1, "x"))));
}

#[test]
fn comparisons_and_assignments_post_ground_values() {
    for op in [BinOp::Eq, BinOp::Neq, BinOp::Leq, BinOp::Geq, BinOp::Assign] {
        let info = type_check(&with_x(binary(op, x_use(3), int_lit(1, 4))));
        assert_eq!(lbs(&info, 1), shown(&[FlowType::Infer, num(1, 4)]), "{:?}", op);
        assert!(ubs(&info, 1).is_empty());
    }
    for op in [BinOp::Eq, BinOp::Neq] {
        let info = type_check(&with_x(binary(op, int_lit(1, 4), x_use(3))));
        assert_eq!(lbs(&info, 1), shown(&[FlowType::Infer, num(1, 4)]));
    }
    // An assignment posts to its left side only.
    let info = type_check(&with_x(binary(BinOp::Assign, int_lit(1, 4), x_use(3))));
    assert_eq!(lbs(&info, 1), shown(&[FlowType::Infer]));
    for op in [BinOp::Lt, BinOp::Gt, BinOp::Add, BinOp::In, BinOp::NotIn, BinOp::AddAssign] {
        let info = type_check(&with_x(binary(op, x_use(3), int_lit(1, 4))));
        assert_eq!(lbs(&info, 1), shown(&[FlowType::Infer]), "{:?}", op);
        assert!(ubs(&info, 1).is_empty());
    }
    for op in [BinOp::And, BinOp::Or] {
        let info = type_check(&with_x(binary(op, x_use(3), x_use(5))));
        assert_eq!(ubs(&info, 1), shown(&[FlowType::Boolean(None), FlowType::Boolean(None)]));
    }
}

#[test]
fn identifiers_resolve_by_scope() {
    let ident = |kind: SyntaxKind, def: Option<u64>| {
        node(
            kind,
            5,
            SyntaxBody::Ident(use_of("pi", 5, def, Some(Value::Int(1)), Some(Value::Int(2)))),
        )
    };
    let (_, t) = check(&ident(SyntaxKind::Ident, None));
    assert_eq!(show(&t), show(&num(1, 5)));
    let (_, t) = check(&ident(SyntaxKind::MathIdent, None));
    assert_eq!(show(&t), show(&num(2, 5)));
    // A reference to a variable that is not made yet makes it.
    let (checker, t) = check(&ident(SyntaxKind::Ident, Some(1)));
    assert_eq!(show(&t), show(&var(1, "pi")));
    assert_eq!(at(&checker.info, 5), Some(show(&var(1, "pi"))));
    assert!(checker.info.vars.contains_key(&1));
    assert!(lbs(&checker.info, 1).is_empty() && ubs(&checker.info, 1).is_empty());
    let (checker, t) = check(&ident(SyntaxKind::MathIdent, Some(1)));
    assert_eq!(show(&t), show(&var(1, "pi")));
    assert_eq!(at(&checker.info, 5), Some(show(&var(1, "pi"))));
    let info = type_check(&with_x(x_use(3)));
    assert_eq!(at(&info, 3), Some(show(&var(1, "x"))));
    let unresolved = node(SyntaxKind::Ident, 5, SyntaxBody::Ident(use_of("q", 5, None, None, None)));
    let (_, t) = check(&unresolved);
    assert_eq!(show(&t), show(&FlowType::Undef));
}

#[test]
fn patterns_distribute_the_value() {
    let let_with = |pattern: Pattern| {
        node(
            SyntaxKind::LetBinding,
            2,
            SyntaxBody::LetBinding {
                kind: LetBindingKind::Normal(pattern),
                init: Some(Box::new(int_lit(1, 3))),
            },
        )
    };
    let nested = Pattern::Parenthesized(Box::new(Pattern::Ident(binding("y", 4, Some(2)))));
    let (checker, t) = check(&let_with(nested));
    assert_eq!(show(&t), show(&FlowType::Any));
    assert_eq!(lbs(&checker.info, 2), shown(&[num(1, 3)]));
    assert_eq!(at(&checker.info, 4), Some(show(&var(2, "y"))));
    for p in [Pattern::Normal, Pattern::Placeholder, Pattern::Destructuring] {
        let (checker, t) = check(&let_with(p));
        assert_eq!(show(&t), show(&FlowType::Any));
        assert!(checker.info.vars.is_empty());
    }
    // A binding that the resolver does not know leaves nothing.
    let (checker, t) = check(&let_with(Pattern::Ident(binding("y", 4, None))));
    assert_eq!(show(&t), show(&FlowType::Any));
    assert!(checker.info.vars.is_empty());
    let mut checker = TypeChecker::new();
    let undef = checker.check_pattern(&Pattern::Ident(binding("y", 4, None)), num(1, 3));
    assert_eq!(show(&undef), show(&FlowType::Undef));
    assert!(checker.get_var(&binding("y", 4, None)).is_none());
    // A closure binding that cannot be bound cannot be told.
    let closure = node(
        SyntaxKind::LetBinding,
        2,
        SyntaxBody::LetBinding { kind: LetBindingKind::Closure(binding("f", 4, None)), init: None },
    );
    let (_, t) = check(&closure);
    assert_eq!(show(&t), show(&FlowType::Undef));
}

fn closure(params: Vec<Param>, body: SyntaxNode) -> SyntaxNode {
    node(SyntaxKind::Closure, 2, SyntaxBody::Closure { params, body: Box::new(body) })
}

#[test]
fn closure_parameters() {
    let c = closure(
        vec![
            Param::Named { name: binding("z", 10, Some(3)), expr: int_lit(1, 11) },
            Param::Pos(Pattern::Placeholder),
            Param::Spread { sink: Some(binding("rest", 12, Some(4))) },
            Param::Named { name: binding("a", 13, Some(5)), expr: int_lit(2, 14) },
            Param::Spread { sink: None },
            Param::Pos(Pattern::Ident(binding("p", 15, Some(6)))),
        ],
        int_lit(3, 16),
    );
    let (checker, t) = check(&c);
    let want = FlowType::Func(Box::new(FlowSignature {
        pos: vec![FlowType::Any, var(6, "p")],
        named: vec![("a".to_string(), var(5, "a")), ("z".to_string(), var(3, "z"))],
        rest: Some(var(4, "rest")),
        ret: num(3, 16),
    }));
    assert_eq!(show(&t), show(&want));
    assert_eq!(lbs(&checker.info, 3), shown(&[num(1, 11)]));
    assert_eq!(lbs(&checker.info, 4), shown(&[builtin(FlowBuiltinType::Args)]));
    assert_eq!(lbs(&checker.info, 6), shown(&[FlowType::Any]));
    assert_eq!(at(&checker.info, 12), Some(show(&var(4, "rest"))));
}

#[test]
fn closure_with_an_unbound_parameter_cannot_be_told() {
    let c = closure(
        vec![
            Param::Pos(Pattern::Ident(binding("p", 15, Some(6)))),
            Param::Named { name: binding("z", 10, None), expr: int_lit(1, 11) },
            Param::Pos(Pattern::Ident(binding("q", 17, Some(7)))),
        ],
        with_x(int_lit(3, 16)),
    );
    let (checker, t) = check(&c);
    assert_eq!(show(&t), show(&FlowType::Undef));
    // What was walked before stays; what comes behind is not walked.
    assert!(checker.info.var(DefId(6)).is_some());
    assert!(checker.info.var(DefId(7)).is_none());
    assert!(checker.info.var(DefId(1)).is_none());
    let c = closure(vec![Param::Spread { sink: Some(binding("r", 10, None)) }], int_lit(3, 16));
    let (_, t) = check(&c);
    assert_eq!(show(&t), show(&FlowType::Undef));
}

fn call(kind: SyntaxKind, callee: SyntaxNode, items: Vec<Arg>) -> SyntaxNode {
    let args = node(SyntaxKind::Args, 60, SyntaxBody::Args(items));
    match kind {
        SyntaxKind::SetRule => node(
            kind,
            50,
            SyntaxBody::SetRule {
                target: Box::new(callee),
                args: Box::new(args),
                condition: Some(Box::new(x_use(70))),
            },
        ),
        _ => node(kind, 50, SyntaxBody::FuncCall { callee: Box::new(callee), args: Box::new(args) }),
    }
}

fn host_callee(ret: Option<FlowType>) -> SyntaxNode {
    let value = match runtime(vec![Some(FlowType::Auto)], vec![], ret) {
        FlowType::Value(v) => v.0,
        _ => Value::NoneValue,
    };
    node(SyntaxKind::Ident, 55, SyntaxBody::Ident(use_of("f", 55, None, Some(value), None)))
}

#[test]
fn calls_are_recorded_and_set_rules_are_not() {
    let info = type_check(&with_x(call(
        SyntaxKind::FuncCall,
        host_callee(Some(FlowType::Content)),
        vec![Arg::Pos(x_use(61))],
    )));
    assert_eq!(at(&info, 50), Some(show(&FlowType::Content)));
    assert_eq!(at(&info, 61), Some(show(&FlowType::Auto)));
    assert_eq!(ubs(&info, 1), shown(&[FlowType::Auto]));
    let info = type_check(&with_x(call(
        SyntaxKind::SetRule,
        host_callee(Some(FlowType::Content)),
        vec![Arg::Pos(x_use(61))],
    )));
    assert_eq!(at(&info, 50), None);
    assert_eq!(at(&info, 70), Some(show(&var(1, "x"))));
    assert_eq!(ubs(&info, 1), shown(&[FlowType::Auto]));
    // Without candidates a call is `Any`.
    let info = type_check(&call(SyntaxKind::FuncCall, int_lit(1, 55), vec![]));
    assert_eq!(at(&info, 50), Some(show(&FlowType::Any)));
    // A callee that cannot be told gives no candidate.
    let mut checker = TypeChecker::new();
    let t = checker.check(&call(SyntaxKind::FuncCall, x_use(55), vec![]));
    assert_eq!(show(&t), show(&FlowType::Any));
}

#[test]
fn a_call_through_an_unknown_variable_cannot_be_told() {
    // let y = f(); y()  where the host declares that `f` returns a variable that is unknown
    let ghost = host_callee(Some(var(9, "ghost")));
    let let_y = node(
        SyntaxKind::LetBinding,
        20,
        SyntaxBody::LetBinding {
            kind: LetBindingKind::Normal(Pattern::Ident(binding("y", 21, Some(2)))),
            init: Some(Box::new(call(SyntaxKind::FuncCall, ghost, vec![]))),
        },
    );
    let y = node(SyntaxKind::Ident, 31, SyntaxBody::Ident(use_of("y", 31, Some(2), None, None)));
    let y_call = node(
        SyntaxKind::FuncCall,
        30,
        SyntaxBody::FuncCall {
            callee: Box::new(y),
            args: Box::new(node(SyntaxKind::Args, 32, SyntaxBody::Args(vec![]))),
        },
    );
    let info = type_check(&SyntaxNode::inner(SyntaxKind::Code, Span(2), vec![let_y, y_call]));
    assert_eq!(lbs(&info, 2), shown(&[var(9, "ghost")]));
    assert_eq!(at(&info, 30), Some(show(&FlowType::Undef)));
}

#[test]
fn arguments_form_a_bundle() {
    let a = node(
        SyntaxKind::Args,
        2,
        SyntaxBody::Args(vec![
            Arg::Named { name: "k".to_string(), expr: int_lit(1, 4), span: Span(3) },
            Arg::Pos(int_lit(2, 5)),
            Arg::Spread,
            Arg::Pos(int_lit(3, 6)),
            Arg::Named { name: "k".to_string(), expr: int_lit(4, 8), span: Span(7) },
        ]),
    );
    let (_, t) = check(&a);
    let want = FlowType::Args(Box::new(args(
        vec![num(2, 5), num(3, 6)],
        vec![("k", num(1, 4)), ("k", num(4, 8))],
    )));
    assert_eq!(show(&t), show(&want));
}

#[test]
fn rules_loops_and_projections() {
    let boxed = |n: SyntaxNode| Box::new(n);
    let show_rule = node(
        SyntaxKind::ShowRule,
        2,
        SyntaxBody::ShowRule { selector: Some(boxed(x_use(3))), transform: boxed(x_use(4)) },
    );
    let info = type_check(&with_x(show_rule));
    assert_eq!(at(&info, 3), Some(show(&var(1, "x"))));
    assert_eq!(at(&info, 4), Some(show(&var(1, "x"))));
    let kinds: Vec<(SyntaxNode, FlowType)> = vec![
        (
            node(SyntaxKind::ShowRule, 2, SyntaxBody::ShowRule { selector: None, transform: boxed(int_lit(1, 3)) }),
            FlowType::Any,
        ),
        (
            node(
                SyntaxKind::WhileLoop,
                2,
                SyntaxBody::WhileLoop { condition: boxed(int_lit(1, 3)), body: boxed(int_lit(2, 4)) },
            ),
            FlowType::Any,
        ),
        (
            node(
                SyntaxKind::ForLoop,
                2,
                SyntaxBody::ForLoop {
                    iterable: boxed(int_lit(1, 3)),
                    pattern: boxed(SyntaxNode::leaf(SyntaxKind::Underscore, Span(4))),
                    body: boxed(int_lit(2, 5)),
                },
            ),
            FlowType::Any,
        ),
        (
            node(SyntaxKind::Contextual, 2, SyntaxBody::Contextual { body: boxed(int_lit(1, 3)) }),
            FlowType::Unary(FlowUnaryType::Context(Box::new(num(1, 3)))),
        ),
        (
            node(
                SyntaxKind::FieldAccess,
                2,
                SyntaxBody::FieldAccess { target: boxed(int_lit(1, 3)), field: "len".to_string() },
            ),
            FlowType::At(FlowAt(Box::new((num(1, 3), "len".to_string())))),
        ),
        (
            binary(BinOp::Add, int_lit(1, 3), int_lit(2, 4)),
            FlowType::Binary(FlowBinaryType { op: BinOp::Add, operands: Box::new((num(1, 3), num(2, 4))) }),
        ),
    ];
    for (n, want) in kinds {
        let (_, t) = check(&n);
        assert_eq!(show(&t), show(&want));
    }
}

#[test]
fn type_checking_keeps_clauses_out() {
    // A let binding of punctuation does not bind a clause.
    let root = node(
        SyntaxKind::LetBinding,
        2,
        SyntaxBody::LetBinding {
            kind: LetBindingKind::Normal(Pattern::Ident(binding("x", 3, Some(1)))),
            init: Some(Box::new(SyntaxNode::leaf(SyntaxKind::Comma, Span(4)))),
        },
    );
    let info = type_check(&root);
    assert!(lbs(&info, 1).is_empty());
    for (_, t) in info.mapping.iter() {
        assert!(!matches!(info.simplify(t.clone(), true), FlowType::Clause));
        assert!(!matches!(info.simplify(t.clone(), false), FlowType::Clause));
    }
}

#[test]
fn a_use_before_the_definition_shares_the_variable() {
    // The variable that a use made takes the bounds of the later binding.
    let first = node(SyntaxKind::Ident, 3, SyntaxBody::Ident(use_of("x", 3, Some(1), None, None)));
    let binding_of_x = node(
        SyntaxKind::LetBinding,
        4,
        SyntaxBody::LetBinding {
            kind: LetBindingKind::Normal(Pattern::Ident(binding("x", 5, Some(1)))),
            init: Some(Box::new(int_lit(1, 6))),
        },
    );
    let root = node(SyntaxKind::Markup, 2, SyntaxBody::Children(vec![first, binding_of_x]));
    let info = type_check(&root);
    assert_eq!(at(&info, 3), Some(show(&var(1, "x"))));
    assert_eq!(at(&info, 5), Some(show(&var(1, "x"))));
    assert_eq!(lbs(&info, 1), shown(&[num(1, 6)]));
}

#[test]
fn bounds_that_refer_to_each_other_are_simplified() {
    let mut info = info_with(&[(1, "v"), (2, "w")]);
    info.ever_be(DefId(1), FlowType::Content);
    info.at_most(DefId(1), var(2, "w"));
    info.ever_be(DefId(2), var(1, "v"));
    let t = FlowType::Tuple(vec![var(1, "v"), var(2, "w")]);
    let principal = info.simplify(t.clone(), true);
    let all = info.simplify(t, false);
    assert_eq!(show(&principal), show(&FlowType::Tuple(vec![FlowType::Content, FlowType::Content])));
    // Where the walk comes back to a variable that it is rebuilding, it
    // stops with `Any`.
    let bounds = |lbs: Vec<FlowType>, ubs: Vec<FlowType>| {
        FlowType::Let(Box::new(FlowVarStore { lbs, ubs }))
    };
    let inner = bounds(vec![FlowType::Content], vec![FlowType::Any]);
    let want = FlowType::Tuple(vec![bounds(vec![FlowType::Content], vec![inner]), FlowType::Any]);
    assert_eq!(show(&all), show(&want));
}

#[test]
fn a_constraint_records_only_at_spans_of_its_sides() {
    let mut info = info_with(&[]);
    info.record(Span(40), FlowType::Auto);
    let d = dict(vec![
        ("cap", num(1, 21), 11),
        ("paint", num(2, 22), 12),
        ("other", num(3, 23), 13),
        ("thickness", num(4, 40), 1),
    ]);
    info.constrain(&d, &builtin(FlowBuiltinType::Stroke));
    let mut spans: Vec<u64> = info.mapping.keys().copied().collect();
    spans.sort();
    assert_eq!(spans, vec![11, 12, 21, 22, 40]);
    // The span of a field holds the type of the canonical field.
    assert_eq!(at(&info, 12), Some(show(&builtin(FlowBuiltinType::Color))));
    assert_eq!(at(&info, 22), Some(show(&builtin(FlowBuiltinType::Color))));
    // A type that was found at a span stays.
    assert_eq!(at(&info, 40), Some(show(&FlowType::Auto)));
    // A literal that meets a union holds its first member.
    match info.type_of_span(Span(21)) {
        Some(FlowType::Value(v)) => assert!(v.1.is_detached()),
        other => panic!("{:?}", other),
    }
    assert!(matches!(info.type_of_span(Span(11)), Some(FlowType::Union(_))));
}
