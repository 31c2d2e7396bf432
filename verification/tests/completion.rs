use tinymist_query::complete::by_type::{type_completion, CodeTables, TypeCompletions};
use tinymist_query::complete::item::{set_off, Completion, CompletionKind, Suggestion};
use tinymist_query::complete::literal::{complete_literal, existing_keys};
use tinymist_query::complete::order::{
    complete_paths, decimal_text, padded_text, path_priority, path_sort_text,
    sort_and_explicit_code_completion, sort_completions, sort_paths,
};
use tinymist_query::complete::params::{
    named_param_value_completions, param_completions, scope_completions, scope_completions_,
    strict_scope_completions, try_insert, visible_globals,
};
use tinymist_query::syntax::{DictItem, Span, SyntaxBody, SyntaxKind, SyntaxNode};
use tinymist_query::ty::builtin::{FlowBuiltinType, PathPreference};
use tinymist_query::ty::def::{FlowRecord, FlowSignature, FlowType, FlowVarStore};
use tinymist_query::value::{Element, ParamSpec, Signature, Type, Value};

fn tables() -> CodeTables {
    CodeTables {
        languages: vec![
            ("EN".to_string(), "English".to_string()),
            ("de".to_string(), "German".to_string()),
        ],
        regions: vec![("US".to_string(), "United States of America".to_string())],
        source_available: true,
    }
}

fn run() -> TypeCompletions {
    TypeCompletions::with_tables(tables())
}

fn labels(ctx: &TypeCompletions) -> Vec<String> {
    ctx.suggestions
        .iter()
        .map(|s| match s {
            Suggestion::Item(c) => c.label.clone(),
            other => format!("{:?}", other),
        })
        .collect()
}

fn item(ctx: &TypeCompletions, i: usize) -> &Completion {
    match &ctx.suggestions[i] {
        Suggestion::Item(c) => c,
        other => panic!("no item at {i}: {:?}", other),
    }
}

fn builtin(b: FlowBuiltinType) -> FlowType {
    FlowType::Builtin(b)
}

fn ty(name: &str) -> Type {
    Type { name: name.to_string(), long_name: name.to_string() }
}

#[test]
fn no_type_has_nothing_to_complete() {
    let mut ctx = run();
    assert!(type_completion(&mut ctx, None, None).is_none());
    assert!(ctx.suggestions.is_empty());
    // The second time it counts as completed before.
    assert!(type_completion(&mut ctx, None, None).is_some());
}

#[test]
fn types_without_completions() {
    for t in [
        FlowType::Clause,
        FlowType::Undef,
        FlowType::Content,
        FlowType::Any,
        FlowType::Infer,
        FlowType::FlowNone,
        builtin(FlowBuiltinType::Args),
        builtin(FlowBuiltinType::TextSize),
    ] {
        let mut ctx = run();
        assert!(type_completion(&mut ctx, Some(&t), None).is_none(), "{:?}", t);
        assert!(ctx.suggestions.is_empty());
    }
}

#[test]
fn simple_types_give_snippets() {
    let mut ctx = run();
    assert!(type_completion(&mut ctx, Some(&FlowType::NoneType), None).is_some());
    assert!(type_completion(&mut ctx, Some(&FlowType::Auto), None).is_some());
    assert!(type_completion(&mut ctx, Some(&FlowType::Boolean(None)), None).is_some());
    assert!(type_completion(&mut ctx, Some(&FlowType::Tuple(vec![])), None).is_some());
    assert_eq!(labels(&ctx), vec!["none", "auto", "false", "true", "()"]);
    let none = item(&ctx, 0);
    assert_eq!(none.kind, CompletionKind::Syntax);
    assert_eq!(none.apply.as_deref(), Some("none"));
    assert_eq!(none.detail.as_deref(), Some("Nothing."));
    assert_eq!(item(&ctx, 4).apply.as_deref(), Some("(${})"));
    assert_eq!(item(&ctx, 4).detail.as_deref(), Some("An array."));
}

#[test]
fn a_type_is_completed_once() {
    let mut ctx = run();
    assert!(type_completion(&mut ctx, Some(&FlowType::Auto), None).is_some());
    assert!(type_completion(&mut ctx, Some(&FlowType::Auto), None).is_some());
    assert_eq!(labels(&ctx), vec!["auto"]);
    // Another type is completed all the same.
    assert!(type_completion(&mut ctx, Some(&FlowType::NoneType), None).is_some());
    assert_eq!(labels(&ctx), vec!["auto", "none"]);
}

#[test]
fn stroke_leads_on_to_color_and_length() {
    let mut ctx = run();
    assert!(type_completion(&mut ctx, Some(&builtin(FlowBuiltinType::Stroke)), None).is_some());
    let got = labels(&ctx);
    assert_eq!(
        got,
        vec![
            "stroke()",
            "()",
            "luma()",
            "rgb()",
            "cmyk()",
            "oklab()",
            "oklch()",
            "color.linear-rgb()",
            "color.hsv()",
            "color.hsl()",
            "ScopeOfType(Type { name: \"color\", long_name: \"color\" })",
            "pt",
            "mm",
            "cm",
            "in",
            "em",
            "ScopeOfType(Type { name: \"length\", long_name: \"length\" })",
            "auto",
        ]
    );
    assert_eq!(item(&ctx, 1).detail.as_deref(), Some("Stroke dictionary."));
    assert_eq!(item(&ctx, 3).apply.as_deref(), Some("rgb(${r}, ${g}, ${b}, ${a})"));
}

#[test]
fn margin_suggests_a_dictionary_and_lengths() {
    let mut ctx = run();
    assert!(type_completion(&mut ctx, Some(&builtin(FlowBuiltinType::Margin)), None).is_some());
    assert_eq!(labels(&ctx)[0], "()");
    assert_eq!(item(&ctx, 0).detail.as_deref(), Some("Margin dictionary."));
    assert_eq!(labels(&ctx)[1], "pt");
    assert_eq!(labels(&ctx).len(), 8);
}

#[test]
fn languages_come_lowercase_from_the_table() {
    let mut ctx = run();
    assert!(type_completion(&mut ctx, Some(&builtin(FlowBuiltinType::TextLang)), None).is_some());
    assert_eq!(labels(&ctx), vec!["en", "de"]);
    let en = item(&ctx, 0);
    assert_eq!(en.apply.as_deref(), Some("\"en\""));
    assert_eq!(en.detail.as_deref(), Some("An ISO 639-1/2/3 language code, English."));
    assert_eq!(en.label_detail.as_deref(), Some("English"));
}

#[test]
fn regions_come_lowercase_from_the_table() {
    let mut ctx = run();
    assert!(type_completion(&mut ctx, Some(&builtin(FlowBuiltinType::TextRegion)), None).is_some());
    assert_eq!(labels(&ctx), vec!["us"]);
    assert_eq!(
        item(&ctx, 0).detail.as_deref(),
        Some("An ISO 3166-1 alpha-2 region code, United States of America.")
    );
}

#[test]
fn the_code_tables_of_the_standards_are_read() {
    let mut ctx = TypeCompletions::new(true);
    assert!(ctx.tables.languages.len() > 100);
    assert!(ctx.tables.regions.len() > 100);
    assert!(type_completion(&mut ctx, Some(&builtin(FlowBuiltinType::TextLang)), None).is_some());
    assert_eq!(ctx.suggestions.len(), ctx.tables.languages.len());
    assert!(labels(&ctx).iter().any(|l| l == "en"));
    assert!(labels(&ctx).iter().all(|l| *l == l.to_lowercase()));
}

#[test]
fn paths_need_the_source() {
    let path = builtin(FlowBuiltinType::Path(PathPreference::Image));
    let mut ctx = run();
    assert!(type_completion(&mut ctx, Some(&path), None).is_some());
    assert!(matches!(ctx.suggestions[0], Suggestion::Paths(PathPreference::Image)));
    let mut without = TypeCompletions::with_tables(CodeTables {
        languages: vec![],
        regions: vec![],
        source_available: false,
    });
    assert!(type_completion(&mut without, Some(&path), None).is_none());
    assert!(without.suggestions.is_empty());
}

#[test]
fn host_requests() {
    let mut ctx = run();
    assert!(type_completion(&mut ctx, Some(&builtin(FlowBuiltinType::Dir)), None).is_some());
    assert!(type_completion(&mut ctx, Some(&builtin(FlowBuiltinType::TextFont)), None).is_some());
    let element = FlowType::Element(Element { name: "rect".to_string() });
    let docs = "A rectangle.".to_string();
    assert!(type_completion(&mut ctx, Some(&element), Some(&docs)).is_some());
    assert!(matches!(&ctx.suggestions[0], Suggestion::ScopeOfType(t) if t.name == "direction"));
    assert!(matches!(ctx.suggestions[1], Suggestion::Fonts));
    assert!(matches!(
        &ctx.suggestions[2],
        Suggestion::Element { name, docs: Some(d) } if name == "rect" && d == "A rectangle."
    ));
}

#[test]
fn union_and_bound_lists_complete_their_members() {
    let mut ctx = run();
    let union = FlowType::Union(Box::new(vec![FlowType::Auto, FlowType::NoneType, FlowType::Auto]));
    assert!(type_completion(&mut ctx, Some(&union), None).is_some());
    assert_eq!(labels(&ctx), vec!["auto", "none"]);
    let mut ctx = run();
    let bounds = FlowType::Let(Box::new(FlowVarStore {
        lbs: vec![FlowType::NoneType],
        ubs: vec![FlowType::Boolean(None)],
    }));
    assert!(type_completion(&mut ctx, Some(&bounds), None).is_some());
    // The upper bounds come first.
    assert_eq!(labels(&ctx), vec!["false", "true", "none"]);
}

#[test]
fn values_of_types() {
    let of = |name: &str| FlowType::Value(Box::new((Value::Type(ty(name)), Span(1))));
    let mut ctx = run();
    assert!(type_completion(&mut ctx, Some(&of("none")), None).is_some());
    assert!(type_completion(&mut ctx, Some(&of("bool")), None).is_some());
    assert!(type_completion(&mut ctx, Some(&of("label")), None).is_some());
    assert!(type_completion(&mut ctx, Some(&of("function")), None).is_some());
    assert_eq!(
        labels(&ctx),
        vec!["none", "false", "true", "Labels", "function"]
    );
    assert_eq!(item(&ctx, 4).apply.as_deref(), Some("(${params}) => ${output}"));

    let mut ctx = run();
    let int = FlowType::Value(Box::new((
        Value::Type(Type { name: "int".to_string(), long_name: "integer".to_string() }),
        Span(1),
    )));
    assert!(type_completion(&mut ctx, Some(&int), None).is_some());
    let placeholder = item(&ctx, 0);
    assert_eq!(placeholder.label, "integer");
    assert_eq!(placeholder.apply.as_deref(), Some("${integer}"));
    assert_eq!(placeholder.detail.as_deref(), Some("A value of type integer."));
    assert!(matches!(&ctx.suggestions[1], Suggestion::ScopeOfType(t) if t.name == "int"));
}

#[test]
fn a_value_is_completed_once_whatever_its_span() {
    let mut ctx = run();
    let one = |span: u64| FlowType::Value(Box::new((Value::Int(1), Span(span))));
    assert!(type_completion(&mut ctx, Some(&one(1)), None).is_some());
    assert!(type_completion(&mut ctx, Some(&one(2)), None).is_some());
    assert_eq!(ctx.suggestions.len(), 1);
    assert!(matches!(&ctx.suggestions[0], Suggestion::Value { value: Value::Int(1), docs: None }));
    let two = FlowType::Value(Box::new((Value::Int(2), Span(1))));
    assert!(type_completion(&mut ctx, Some(&two), None).is_some());
    assert_eq!(ctx.suggestions.len(), 2);
}

#[test]
fn documented_values_carry_their_documentation() {
    let mut ctx = run();
    let doc = FlowType::ValueDoc(Box::new((Value::Str("ltr".to_string()), "Left to right.".to_string())));
    assert!(type_completion(&mut ctx, Some(&doc), None).is_some());
    assert!(matches!(
        &ctx.suggestions[0],
        Suggestion::Value { value: Value::Str(s), docs: Some(d) } if s == "ltr" && d == "Left to right."
    ));
}

#[test]
fn numbers_are_padded() {
    assert_eq!(decimal_text(0), "0");
    assert_eq!(decimal_text(7), "7");
    assert_eq!(decimal_text(120), "120");
    assert_eq!(decimal_text(u128::MAX), u128::MAX.to_string());
    assert_eq!(padded_text(7, 3), "007");
    assert_eq!(padded_text(42, 3), "042");
    assert_eq!(padded_text(123, 3), "123");
    assert_eq!(padded_text(1234, 3), "1234");
    assert_eq!(padded_text(5, 0), "5");
    assert_eq!(padded_text(5, 1), "5");
    assert_eq!(path_sort_text(0), "000");
    assert_eq!(path_sort_text(12), "012");
    assert_eq!(path_sort_text(1000), "1000");
}

fn plain(label: &str, sort_text: Option<&str>) -> Completion {
    let mut c = Completion::plain(CompletionKind::Constant, label.to_string());
    c.sort_text = sort_text.map(|s| s.to_string());
    c
}

fn order(items: &[Completion]) -> Vec<(String, Option<String>)> {
    items.iter().map(|c| (c.label.clone(), c.sort_text.clone())).collect()
}

#[test]
fn items_sort_by_sort_text_then_label() {
    let sorted = sort_completions(vec![
        plain("b", Some("2")),
        plain("z", None),
        plain("a", Some("2")),
        plain("c", Some("1")),
        plain("a", None),
    ]);
    let got: Vec<String> = sorted.iter().map(|c| c.label.clone()).collect();
    assert_eq!(got, vec!["a", "z", "c", "a", "b"]);
}

#[test]
fn sorting_is_stable() {
    let mut first = plain("a", None);
    first.detail = Some("first".to_string());
    let mut second = plain("a", None);
    second.detail = Some("second".to_string());
    let sorted = sort_completions(vec![first, plain("0", None), second]);
    let got: Vec<Option<String>> = sorted.iter().map(|c| c.detail.clone()).collect();
    assert_eq!(got, vec![None, Some("first".to_string()), Some("second".to_string())]);
}

#[test]
fn typed_items_are_numbered_before_code_items_and_listed_behind() {
    let typed = vec![plain("t2", None), plain("t1", None)];
    let code = vec![plain("c2", None), plain("c1", None), plain("c0", Some("x"))];
    let got = sort_and_explicit_code_completion(typed, code, 2);
    assert_eq!(
        order(&got),
        vec![
            ("c1".to_string(), Some("004".to_string())),
            ("c2".to_string(), Some("005".to_string())),
            ("c0".to_string(), Some("006".to_string())),
            ("t1".to_string(), Some("002".to_string())),
            ("t2".to_string(), Some("003".to_string())),
        ]
    );
}

#[test]
fn paths_with_dots_come_later() {
    let s = |x: &str| x.to_string();
    assert!(path_priority(&s("a.typ"), &s("b.typ")));
    assert!(!path_priority(&s("b.typ"), &s("a.typ")));
    assert!(!path_priority(&s("a.typ"), &s("a.typ")));
    assert!(path_priority(&s("z.typ"), &s("../a.typ")));
    assert!(!path_priority(&s("../a.typ"), &s("z.typ")));
    assert!(path_priority(&s("./z.typ"), &s("../a.typ")));
    assert!(path_priority(&s("../a.typ"), &s("../b.typ")));
    let sorted = sort_paths(&vec![s("../x.typ"), s("b.typ"), s("./c.typ"), s("a.typ")]);
    assert_eq!(sorted, vec!["a.typ", "b.typ", "./c.typ", "../x.typ"]);
}

#[test]
fn path_completions_are_numbered_through() {
    let s = |x: &str| x.to_string();
    let got = complete_paths(&vec![s("b.typ"), s("a.typ")], &vec![s("dir")], false).unwrap();
    let view: Vec<(String, CompletionKind, String, String)> = got
        .iter()
        .map(|p| (p.label.clone(), p.kind, p.insert_text.clone(), p.sort_text.clone()))
        .collect();
    assert_eq!(
        view,
        vec![
            (s("a.typ"), CompletionKind::File, s("\"a.typ\""), s("0")),
            (s("b.typ"), CompletionKind::File, s("\"b.typ\""), s("1")),
            (s("dir"), CompletionKind::Folder, s("\"dir\""), s("2")),
        ]
    );
    let many: Vec<String> = (0..12).map(|i| format!("f{i:02}")).collect();
    let got = complete_paths(&many, &vec![], true).unwrap();
    assert_eq!(got[0].sort_text, "00");
    assert_eq!(got[11].sort_text, "11");
    assert_eq!(got[3].insert_text, "f03");
}

fn param(name: &str, infer_type: Option<FlowType>, positional: bool, named: bool) -> ParamSpec {
    ParamSpec {
        name: name.to_string(),
        docs: format!("The {name}."),
        infer_type,
        positional,
        named,
        variadic: false,
        settable: named,
        expr: None,
    }
}

fn text_signature() -> Signature {
    Signature {
        pos: vec![param("body", Some(FlowType::Content), true, false)],
        named: vec![
            param("size", Some(builtin(FlowBuiltinType::TextSize)), false, true),
            param("dir", Some(builtin(FlowBuiltinType::Dir)), false, true),
            param("fill", Some(builtin(FlowBuiltinType::Color)), false, true),
        ],
        rest: None,
        ret_ty: Some(FlowType::Content),
    }
}

#[test]
fn named_parameters_are_offered_with_templates() {
    let mut ctx = run();
    let exclude = vec!["fill".to_string()];
    assert!(param_completions(&mut ctx, &text_signature(), &None, None, false, &exclude));
    let got = labels(&ctx);
    assert_eq!(got.len(), 11 + 1 + 4 + 1);
    assert_eq!(got[0], "size: 10.5pt");
    assert_eq!(got[10], "size: 28pt");
    assert_eq!(got[11], "size");
    assert_eq!(got[12], "dir: ltr");
    assert_eq!(got[15], "dir: btt");
    assert_eq!(got[16], "dir");
    let size = item(&ctx, 11);
    assert_eq!(size.kind, CompletionKind::Param);
    assert_eq!(size.apply.as_deref(), Some("size: ${}"));
    assert_eq!(size.detail.as_deref(), Some("The size."));
    assert_eq!(size.command.as_deref(), Some("editor.action.triggerSuggest"));
    assert_eq!(item(&ctx, 0).apply, None);
    assert_eq!(item(&ctx, 0).detail.as_deref(), Some("The size."));
}

#[test]
fn positional_parameter_falls_back_to_casts() {
    let mut ctx = run();
    let all: Vec<String> = vec!["size".into(), "dir".into(), "fill".into()];
    assert!(param_completions(&mut ctx, &text_signature(), &None, Some(0), false, &all));
    // Content has nothing to complete, so the casts are asked for.
    assert_eq!(ctx.suggestions.len(), 1);
    assert!(matches!(&ctx.suggestions[0], Suggestion::Casts { param } if param == "body"));
}

#[test]
fn set_rule_stops_at_a_parameter_that_cannot_be_set() {
    let mut ctx = run();
    assert!(!param_completions(&mut ctx, &text_signature(), &None, Some(0), true, &vec![]));
    assert!(ctx.suggestions.is_empty());
}

#[test]
fn inferred_signatures_complete_the_position() {
    let mut ctx = run();
    let inferred = Some(vec![FlowSignature {
        pos: vec![FlowType::Auto],
        named: vec![],
        rest: None,
        ret: FlowType::Any,
    }]);
    let all: Vec<String> = vec!["size".into(), "dir".into(), "fill".into()];
    assert!(param_completions(&mut ctx, &text_signature(), &inferred, Some(0), false, &all));
    assert_eq!(ctx.suggestions.len(), 2);
    assert_eq!(item(&ctx, 1).label, "auto");
    assert_eq!(item(&ctx, 1).detail.as_deref(), Some("A smart default."));
}

#[test]
fn value_of_an_unresolved_callee_goes_by_the_expected_type() {
    let mut ctx = run();
    let name = "fill".to_string();
    assert!(!named_param_value_completions(&mut ctx, None, &name, Some(&FlowType::Auto)));
    assert_eq!(labels(&ctx), vec!["auto"]);
    let mut ctx = run();
    assert!(!named_param_value_completions(&mut ctx, None, &name, None));
    assert!(ctx.suggestions.is_empty());
}

#[test]
fn value_of_a_named_parameter() {
    let mut sig = text_signature();
    sig.named[2].expr = Some("black".to_string());
    let name = "fill".to_string();
    let mut ctx = run();
    assert!(named_param_value_completions(&mut ctx, Some((&sig, &None)), &name, None));
    let got = labels(&ctx);
    // The default value, then what a color suggests.
    assert_eq!(got[0], "black");
    assert_eq!(item(&ctx, 0).kind, CompletionKind::Constant);
    assert_eq!(item(&ctx, 0).detail.as_deref(), Some("The fill."));
    assert_eq!(got[1], "luma()");
    assert_eq!(got.len(), 1 + 8 + 1);

    let unknown = "nope".to_string();
    let mut ctx = run();
    assert!(!named_param_value_completions(&mut ctx, Some((&sig, &None)), &unknown, None));
    assert!(ctx.suggestions.is_empty());
}

#[test]
fn inferred_type_of_a_named_parameter_replaces_the_default() {
    let mut sig = text_signature();
    sig.named[2].expr = Some("black".to_string());
    let inferred = Some(vec![FlowSignature {
        pos: vec![],
        named: vec![("fill".to_string(), FlowType::NoneType)],
        rest: None,
        ret: FlowType::Any,
    }]);
    let name = "fill".to_string();
    let mut ctx = run();
    assert!(named_param_value_completions(&mut ctx, Some((&sig, &inferred)), &name, None));
    assert_eq!(labels(&ctx)[0], "none");
    assert_eq!(labels(&ctx)[1], "luma()");
}

#[test]
fn definitions_are_filed_by_name_and_the_first_counts() {
    let mut defined = Vec::new();
    try_insert(&mut defined, "x".to_string(), CompletionKind::Variable);
    try_insert(&mut defined, "f".to_string(), CompletionKind::Func);
    try_insert(&mut defined, "".to_string(), CompletionKind::Variable);
    try_insert(&mut defined, "x".to_string(), CompletionKind::Func);
    try_insert(&mut defined, "a".to_string(), CompletionKind::Module);
    assert_eq!(
        defined,
        vec![
            ("a".to_string(), CompletionKind::Module),
            ("f".to_string(), CompletionKind::Func),
            ("x".to_string(), CompletionKind::Variable),
        ]
    );
    let items = scope_completions(&defined);
    let got: Vec<(String, Option<String>)> =
        items.iter().map(|c| (c.label.clone(), c.apply.clone())).collect();
    assert_eq!(
        got,
        vec![
            ("a".to_string(), None),
            ("f.with".to_string(), Some("f.with(${})".to_string())),
            ("f.where".to_string(), Some("f.where(${})".to_string())),
            ("f".to_string(), Some("f(${})".to_string())),
            ("x".to_string(), None),
        ]
    );
    assert_eq!(items[1].kind, CompletionKind::Func);
    assert_eq!(items[1].command.as_deref(), Some("editor.action.triggerSuggest"));
    assert_eq!(items[4].command, None);
    assert!(strict_scope_completions(&defined).is_empty());
    assert_eq!(scope_completions_(&defined, true).len(), 5);
}

fn named_item(name: &str) -> DictItem {
    DictItem::Named {
        name: name.to_string(),
        expr: SyntaxNode::new(SyntaxKind::Int, Span(9), SyntaxBody::Literal(Some(Value::Int(1)))),
        span: Span(8),
    }
}

#[test]
fn literal_offers_the_missing_fields_of_a_stroke() {
    let items = vec![
        named_item("paint"),
        DictItem::Keyed {
            key: Some(Value::Str("cap".to_string())),
            expr: SyntaxNode::leaf(SyntaxKind::Str, Span(10)),
            span: Span(11),
        },
        DictItem::Keyed {
            key: Some(Value::Int(3)),
            expr: SyntaxNode::leaf(SyntaxKind::Str, Span(12)),
            span: Span(13),
        },
        DictItem::Spread,
    ];
    assert_eq!(existing_keys(&items), vec!["paint", "cap"]);
    let mut ctx = run();
    complete_literal(&mut ctx, &items, None, Some(&builtin(FlowBuiltinType::Stroke)));
    assert_eq!(labels(&ctx), vec!["thickness", "join", "dash", "miter-limit"]);
    let field = item(&ctx, 0);
    assert_eq!(field.kind, CompletionKind::Field);
    assert_eq!(field.apply.as_deref(), Some("thickness: ${}"));
    assert_eq!(field.command.as_deref(), Some("editor.action.triggerSuggest"));
}

#[test]
fn literal_goes_by_the_named_type_first() {
    let mut ctx = run();
    complete_literal(
        &mut ctx,
        &vec![],
        Some(&FlowType::Auto),
        Some(&builtin(FlowBuiltinType::Stroke)),
    );
    assert_eq!(labels(&ctx), vec!["auto"]);
}

#[test]
fn literal_of_an_array_completes_its_elements() {
    let mut ctx = run();
    let array = FlowType::Array(Box::new(FlowType::Boolean(None)));
    let dict = FlowType::Dict(FlowRecord {
        fields: vec![("x".to_string(), FlowType::Any, Span(1))],
    });
    let union = FlowType::Union(Box::new(vec![array, dict, FlowType::Auto]));
    complete_literal(&mut ctx, &vec![], None, Some(&union));
    assert_eq!(labels(&ctx), vec!["false", "true", "x"]);
}

#[test]
fn globals_are_shown_unless_filtered_or_shadowed() {
    let s = |x: &str| x.to_string();
    let names = vec![s("rgb"), s("luma"), s("text"), s("rgb"), s("page")];
    let accepted = vec![true, false, true, true, true];
    let defined = vec![(s("text"), CompletionKind::Func), (s("mine"), CompletionKind::Variable)];
    assert_eq!(visible_globals(&names, &accepted, &defined), vec![0, 3, 4]);
    assert_eq!(visible_globals(&names, &accepted, &vec![]), vec![0, 2, 3, 4]);
    assert_eq!(visible_globals(&names, &vec![false; 5], &vec![]), Vec::<usize>::new());
    assert_eq!(visible_globals(&vec![], &vec![], &defined), Vec::<usize>::new());
    let all = vec![
        (s("rgb"), CompletionKind::Constant),
        (s("page"), CompletionKind::Constant),
        (s("text"), CompletionKind::Constant),
    ];
    assert_eq!(visible_globals(&names, &accepted, &all), Vec::<usize>::new());
}

#[test]
fn items_are_set_off_behind_a_mark() {
    let item = |label: &str, apply: Option<&str>| Completion {
        apply: apply.map(str::to_string),
        ..Completion::plain(CompletionKind::Constant, label.to_string())
    };
    let applies = |items: &Vec<Completion>| -> Vec<Option<String>> {
        items.iter().map(|c| c.apply.clone()).collect()
    };
    let s = |x: &str| Some(x.to_string());
    let mut items = vec![item("red", None), item("rgb", Some("rgb(${})"))];
    set_off(&mut items, "fill: red,", ',');
    assert_eq!(applies(&items), vec![s(" red"), s(" rgb(${})")]);
    assert_eq!(items[0].label, "red");
    assert_eq!(items[1].kind, CompletionKind::Constant);
    // Another end of the text leaves the items as they are.
    let mut items = vec![item("red", None), item("rgb", Some("rgb(${})"))];
    set_off(&mut items, "fill: red, ", ',');
    assert_eq!(applies(&items), vec![None, s("rgb(${})")]);
    set_off(&mut items, "", ',');
    assert_eq!(applies(&items), vec![None, s("rgb(${})")]);
    set_off(&mut items, "fill:", ',');
    assert_eq!(applies(&items), vec![None, s("rgb(${})")]);
    set_off(&mut items, "fill:", ':');
    assert_eq!(applies(&items), vec![s(" red"), s(" rgb(${})")]);
}
