use tinymist_query::syntax::{BinOp, DefId, Span};
use tinymist_query::ty::builtin::FlowBuiltinType;
use tinymist_query::ty::def::{
    FlowArgs, FlowBinaryType, FlowRecord, FlowType, FlowUnaryType, FlowVar,
};
use tinymist_query::ty::join::Joiner;
use tinymist_query::value::{Type, Value};

fn show(t: &FlowType) -> String {
    format!("{:?}", t)
}

fn num(i: i64, span: u64) -> FlowType {
    FlowType::Value(Box::new((Value::Int(i), Span(span))))
}

fn text(s: &str, span: u64) -> FlowType {
    FlowType::Value(Box::new((Value::Str(s.to_string()), Span(span))))
}

fn var(id: u64, name: &str) -> FlowType {
    FlowType::Var(Box::new((DefId(id), name.to_string())))
}

#[test]
fn from_types_of_nothing_is_any() {
    assert_eq!(show(&FlowType::from_types(vec![])), show(&FlowType::Any));
}

#[test]
fn from_types_of_one_is_that_one() {
    assert_eq!(show(&FlowType::from_types(vec![num(1, 7)])), show(&num(1, 7)));
}

#[test]
fn from_types_of_more_is_their_union_in_order() {
    let got = FlowType::from_types(vec![num(1, 7), num(1, 7), text("a", 9)]);
    let want = FlowType::Union(Box::new(vec![num(1, 7), num(1, 7), text("a", 9)]));
    assert_eq!(show(&got), show(&want));
}

#[test]
fn is_dict_tells_dictionaries_apart() {
    assert!(FlowType::Dict(FlowRecord { fields: vec![] }).is_dict());
    assert!(!FlowType::Tuple(vec![]).is_dict());
    assert!(!FlowType::Builtin(FlowBuiltinType::Stroke).is_dict());
}

#[test]
fn unary_lhs_is_the_operand() {
    assert_eq!(show(FlowUnaryType::Pos(Box::new(num(1, 2))).lhs()), show(&num(1, 2)));
    assert_eq!(show(FlowUnaryType::Neg(Box::new(num(2, 2))).lhs()), show(&num(2, 2)));
    assert_eq!(show(FlowUnaryType::Not(Box::new(num(3, 2))).lhs()), show(&num(3, 2)));
    assert_eq!(show(FlowUnaryType::Context(Box::new(num(4, 2))).lhs()), show(&num(4, 2)));
}

#[test]
fn binary_repr_gives_both_operands() {
    let b = FlowBinaryType { op: BinOp::Add, operands: Box::new((num(1, 2), text("x", 3))) };
    let (l, r) = b.repr();
    assert_eq!(show(l), show(&num(1, 2)));
    assert_eq!(show(r), show(&text("x", 3)));
}

#[test]
fn args_start_match_gives_the_positional_arguments() {
    let a = FlowArgs { args: vec![num(1, 2), num(2, 3)], named: vec![("k".to_string(), num(3, 4))] };
    let got: Vec<String> = a.start_match().iter().map(show).collect();
    assert_eq!(got, vec![show(&num(1, 2)), show(&num(2, 3))]);
}

#[test]
fn variable_accessors() {
    let v = FlowVar::new("x".to_string(), DefId(5));
    assert_eq!(v.name(), "x");
    assert_eq!(v.id(), DefId(5));
    assert_eq!(show(&v.get_ref()), show(&var(5, "x")));
    assert!(v.store.lbs.is_empty());
    assert!(v.store.ubs.is_empty());
}

#[test]
fn ever_be_keeps_insertion_order() {
    let mut v = FlowVar::new("x".to_string(), DefId(5));
    v.ever_be(num(1, 2));
    v.ever_be(text("a", 3));
    v.as_strong(num(1, 2));
    let got: Vec<String> = v.store.lbs.iter().map(show).collect();
    assert_eq!(got, vec![show(&num(1, 2)), show(&text("a", 3)), show(&num(1, 2))]);
    assert!(v.store.ubs.is_empty());
}

#[test]
fn a_clause_is_no_bound() {
    let mut v = FlowVar::new("x".to_string(), DefId(5));
    v.ever_be(FlowType::Clause);
    v.as_strong(FlowType::Clause);
    v.at_most(FlowType::Clause);
    assert!(v.store.lbs.is_empty());
    assert!(v.store.ubs.is_empty());
}

#[test]
fn clone_is_deep() {
    let t = FlowType::Tuple(vec![num(1, 2), var(3, "y"), FlowType::Array(Box::new(text("a", 4)))]);
    assert_eq!(show(&t.clone()), show(&t));
}

fn joined(children: Vec<FlowType>) -> FlowType {
    let mut j = Joiner::default();
    for c in children {
        j.join(c);
    }
    j.finalize()
}

#[test]
fn joiner_starts_at_none() {
    assert_eq!(show(&joined(vec![])), show(&FlowType::NoneType));
}

#[test]
fn joiner_ignores_noise() {
    let got = joined(vec![
        FlowType::Clause,
        FlowType::Undef,
        FlowType::Any,
        FlowType::Infer,
        FlowType::NoneType,
    ]);
    assert_eq!(show(&got), show(&FlowType::NoneType));
}

#[test]
fn joiner_content_stays_content() {
    assert_eq!(show(&joined(vec![FlowType::Content])), show(&FlowType::Content));
    assert_eq!(
        show(&joined(vec![FlowType::Content, FlowType::Clause, FlowType::Content])),
        show(&FlowType::Content)
    );
}

#[test]
fn joiner_content_after_concrete_is_undef() {
    assert_eq!(show(&joined(vec![num(1, 2), FlowType::Content])), show(&FlowType::Undef));
    assert_eq!(show(&joined(vec![FlowType::Content, num(1, 2)])), show(&FlowType::Undef));
}

#[test]
fn joiner_first_concrete_is_definite() {
    assert_eq!(show(&joined(vec![FlowType::Clause, num(1, 2)])), show(&num(1, 2)));
    assert_eq!(
        show(&joined(vec![FlowType::Boolean(Some(true))])),
        show(&FlowType::Boolean(Some(true)))
    );
    assert_eq!(show(&joined(vec![FlowType::Auto])), show(&FlowType::Auto));
}

#[test]
fn joiner_two_concrete_types_collapse_to_undef() {
    assert_eq!(show(&joined(vec![text("a", 2), num(1, 3)])), show(&FlowType::Undef));
    assert_eq!(show(&joined(vec![text("a", 2), num(1, 3), num(2, 4)])), show(&FlowType::Undef));
}

#[test]
fn joiner_with_a_variable_is_any() {
    assert_eq!(show(&joined(vec![var(1, "x")])), show(&FlowType::Any));
    assert_eq!(show(&joined(vec![num(1, 2), var(1, "x")])), show(&FlowType::Any));
}

#[test]
fn joiner_is_poisoned_by_a_control_exit() {
    assert_eq!(show(&joined(vec![FlowType::FlowNone, num(1, 2)])), show(&FlowType::NoneType));
    assert_eq!(
        show(&joined(vec![num(1, 2), FlowType::FlowNone, text("a", 3), var(1, "x")])),
        show(&num(1, 2))
    );
}

#[test]
fn type_values_keep_both_names() {
    let t = Type { name: "str".to_string(), long_name: "string".to_string() };
    let v = Value::Type(t);
    assert_eq!(format!("{:?}", v.clone()), format!("{:?}", v));
}
