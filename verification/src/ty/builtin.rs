//! Built-in scalar domains and structural aliases.

use vstd::prelude::*;
use vstd::string::*;

use crate::syntax::{DETACHED, Span};
use crate::ty::def::{FieldTy, FlowRecord, FlowType, Ty, opt_ty_view, tys_view};
use crate::value::{Func, ParamInfo, Val, Value};

verus! {

/// Which kind of file a path parameter prefers.
#[derive(Debug, Clone, Copy, PartialEq, Eq, Structural, Hash)]
pub enum PathPreference {
    Unrestricted,
    Special,
    Source,
    Csv,
    Image,
    Json,
    Yaml,
    Xml,
    Toml,
    Bibliography,
    RawTheme,
    RawSyntax,
}

/// A named scalar domain or structural alias of the element library.
#[derive(Debug, Clone, Copy, PartialEq, Eq, Structural, Hash)]
pub enum FlowBuiltinType {
    Args,
    Color,
    TextSize,
    TextFont,
    TextLang,
    TextRegion,
    Dir,
    Length,
    Float,
    Stroke,
    Margin,
    Inset,
    Outset,
    Radius,
    Path(PathPreference),
}

/// The term of a built-in domain.
pub open spec fn literally_spec(b: FlowBuiltinType) -> Ty {
    Ty::Builtin(b)
}

/// The term of a string literal that no source span carries.
pub open spec fn str_ty(s: Seq<char>) -> Ty {
    Ty::Value(Val::Str(s), Span(DETACHED))
}

/// A field of a canonical shape: no source span carries it.
pub open spec fn canonical_field(name: Seq<char>, ty: Ty) -> FieldTy {
    FieldTy { name, ty, span: Span(DETACHED) }
}

/// The dash patterns that a stroke accepts by name.
pub open spec fn dash_names() -> Seq<Ty> {
    seq![
        str_ty("solid"@),
        str_ty("dotted"@),
        str_ty("densely-dotted"@),
        str_ty("loosely-dotted"@),
        str_ty("dashed"@),
        str_ty("densely-dashed"@),
        str_ty("loosely-dashed"@),
        str_ty("dash-dotted"@),
        str_ty("densely-dash-dotted"@),
        str_ty("loosely-dash-dotted"@),
    ]
}

/// An array of dash lengths: each is the word `dot` or a number.
pub open spec fn dash_array() -> Ty {
    Ty::Array(Box::new(Ty::Union(seq![str_ty("dot"@), Ty::Builtin(FlowBuiltinType::Float)])))
}

/// The canonical shape of a stroke.
pub open spec fn stroke_fields() -> Seq<FieldTy> {
    seq![
        canonical_field("paint"@, Ty::Builtin(FlowBuiltinType::Color)),
        canonical_field("thickness"@, Ty::Builtin(FlowBuiltinType::Length)),
        canonical_field(
            "cap"@,
            Ty::Union(seq![str_ty("butt"@), str_ty("round"@), str_ty("square"@)]),
        ),
        canonical_field(
            "join"@,
            Ty::Union(seq![str_ty("miter"@), str_ty("round"@), str_ty("bevel"@)]),
        ),
        canonical_field(
            "dash"@,
            Ty::Union(
                dash_names().push(dash_array()).push(
                    Ty::Dict(
                        seq![
                            canonical_field("array"@, dash_array()),
                            canonical_field("phase"@, Ty::Builtin(FlowBuiltinType::Length)),
                        ],
                    ),
                ),
            ),
        ),
        canonical_field("miter-limit"@, Ty::Builtin(FlowBuiltinType::Float)),
    ]
}

/// A shape whose fields are all lengths.
pub open spec fn length_fields(names: Seq<Seq<char>>) -> Seq<FieldTy> {
    Seq::new(
        names.len(),
        |i: int| canonical_field(names[i], Ty::Builtin(FlowBuiltinType::Length)),
    )
}

/// The field names of a page margin.
pub open spec fn margin_names() -> Seq<Seq<char>> {
    seq![
        "top"@,
        "right"@,
        "bottom"@,
        "left"@,
        "inside"@,
        "outside"@,
        "x"@,
        "y"@,
        "rest"@,
    ]
}

/// The field names of an inset or an outset.
pub open spec fn sides_names() -> Seq<Seq<char>> {
    seq!["top"@, "right"@, "bottom"@, "left"@, "x"@, "y"@, "rest"@]
}

/// The field names of a corner radius.
pub open spec fn radius_names() -> Seq<Seq<char>> {
    seq![
        "top"@,
        "right"@,
        "bottom"@,
        "left"@,
        "top-left"@,
        "top-right"@,
        "bottom-left"@,
        "bottom-right"@,
        "rest"@,
    ]
}

/// Whether a built-in is an alias of a structural dictionary.
pub open spec fn is_dict_alias(b: FlowBuiltinType) -> bool {
    b is Stroke || b is Margin || b is Inset || b is Outset || b is Radius
}

/// The canonical dictionary shape of an alias; no fields for the built-ins
/// that are no alias.
pub open spec fn canonical_fields(b: FlowBuiltinType) -> Seq<FieldTy> {
    match b {
        FlowBuiltinType::Stroke => stroke_fields(),
        FlowBuiltinType::Margin => length_fields(margin_names()),
        FlowBuiltinType::Inset => length_fields(sides_names()),
        FlowBuiltinType::Outset => length_fields(sides_names()),
        FlowBuiltinType::Radius => length_fields(radius_names()),
        _ => Seq::empty(),
    }
}

/// Makes an owned string of a literal.
pub fn text(s: &str) -> (r: String)
    ensures
        r@ == s@,
{
    String::from_str(s)
}

/// The term of a built-in domain.
pub fn literally(b: FlowBuiltinType) -> (r: FlowType)
    ensures
        r@ == literally_spec(b),
{
    FlowType::Builtin(b)
}

fn str_value(s: &str) -> (r: FlowType)
    ensures
        r@ == str_ty(s@),
{
    let v = Value::Str(text(s));
    assert(v@ == Val::Str(s@));
    FlowType::Value(Box::new((v, Span::detached())))
}

fn field(name: &str, ty: FlowType) -> (r: (String, FlowType, Span))
    ensures
        r.0@ == name@,
        r.1@ == ty@,
        r.2 == Span(DETACHED),
{
    (text(name), ty, Span::detached())
}

fn length_field(name: &str) -> (r: (String, FlowType, Span))
    ensures
        r.0@ == name@,
        r.1@ == Ty::Builtin(FlowBuiltinType::Length),
        r.2 == Span(DETACHED),
{
    field(name, FlowType::Builtin(FlowBuiltinType::Length))
}

fn union_of(v: Vec<FlowType>) -> (r: FlowType)
    ensures
        r@ == Ty::Union(tys_view(&v)),
{
    FlowType::Union(Box::new(v))
}

fn dash_array_type() -> (r: FlowType)
    ensures
        r@ == dash_array(),
{
    let mut alts: Vec<FlowType> = Vec::new();
    alts.push(str_value("dot"));
    alts.push(FlowType::Builtin(FlowBuiltinType::Float));
    assert(tys_view(&alts) =~= seq![str_ty("dot"@), Ty::Builtin(FlowBuiltinType::Float)]);
    FlowType::Array(Box::new(union_of(alts)))
}

fn stroke_dict() -> (r: FlowRecord)
    ensures
        r@ == stroke_fields(),
{
    let mut cap: Vec<FlowType> = Vec::new();
    cap.push(str_value("butt"));
    cap.push(str_value("round"));
    cap.push(str_value("square"));
    assert(tys_view(&cap) =~= seq![str_ty("butt"@), str_ty("round"@), str_ty("square"@)]);
    let mut join: Vec<FlowType> = Vec::new();
    join.push(str_value("miter"));
    join.push(str_value("round"));
    join.push(str_value("bevel"));
    assert(tys_view(&join) =~= seq![str_ty("miter"@), str_ty("round"@), str_ty("bevel"@)]);
    let mut pattern: Vec<(String, FlowType, Span)> = Vec::new();
    pattern.push(field("array", dash_array_type()));
    pattern.push(length_field("phase"));
    let pattern = FlowRecord { fields: pattern };
    assert(pattern@ =~= seq![
        canonical_field("array"@, dash_array()),
        canonical_field("phase"@, Ty::Builtin(FlowBuiltinType::Length)),
    ]);
    let mut dash: Vec<FlowType> = Vec::new();
    dash.push(str_value("solid"));
    dash.push(str_value("dotted"));
    dash.push(str_value("densely-dotted"));
    dash.push(str_value("loosely-dotted"));
    dash.push(str_value("dashed"));
    dash.push(str_value("densely-dashed"));
    dash.push(str_value("loosely-dashed"));
    dash.push(str_value("dash-dotted"));
    dash.push(str_value("densely-dash-dotted"));
    dash.push(str_value("loosely-dash-dotted"));
    assert(tys_view(&dash) =~= dash_names());
    dash.push(dash_array_type());
    dash.push(FlowType::Dict(pattern));
    assert(tys_view(&dash) =~= dash_names().push(dash_array()).push(Ty::Dict(pattern@)));
    let mut fields: Vec<(String, FlowType, Span)> = Vec::new();
    fields.push(field("paint", FlowType::Builtin(FlowBuiltinType::Color)));
    fields.push(length_field("thickness"));
    fields.push(field("cap", union_of(cap)));
    fields.push(field("join", union_of(join)));
    fields.push(field("dash", union_of(dash)));
    fields.push(field("miter-limit", FlowType::Builtin(FlowBuiltinType::Float)));
    let r = FlowRecord { fields };
    assert(r@ =~= stroke_fields());
    r
}

fn margin_dict() -> (r: FlowRecord)
    ensures
        r@ == length_fields(margin_names()),
{
    let mut fields: Vec<(String, FlowType, Span)> = Vec::new();
    fields.push(length_field("top"));
    fields.push(length_field("right"));
    fields.push(length_field("bottom"));
    fields.push(length_field("left"));
    fields.push(length_field("inside"));
    fields.push(length_field("outside"));
    fields.push(length_field("x"));
    fields.push(length_field("y"));
    fields.push(length_field("rest"));
    let r = FlowRecord { fields };
    assert(r@ =~= length_fields(margin_names()));
    r
}

fn sides_dict() -> (r: FlowRecord)
    ensures
        r@ == length_fields(sides_names()),
{
    let mut fields: Vec<(String, FlowType, Span)> = Vec::new();
    fields.push(length_field("top"));
    fields.push(length_field("right"));
    fields.push(length_field("bottom"));
    fields.push(length_field("left"));
    fields.push(length_field("x"));
    fields.push(length_field("y"));
    fields.push(length_field("rest"));
    let r = FlowRecord { fields };
    assert(r@ =~= length_fields(sides_names()));
    r
}

fn radius_dict() -> (r: FlowRecord)
    ensures
        r@ == length_fields(radius_names()),
{
    let mut fields: Vec<(String, FlowType, Span)> = Vec::new();
    fields.push(length_field("top"));
    fields.push(length_field("right"));
    fields.push(length_field("bottom"));
    fields.push(length_field("left"));
    fields.push(length_field("top-left"));
    fields.push(length_field("top-right"));
    fields.push(length_field("bottom-left"));
    fields.push(length_field("bottom-right"));
    fields.push(length_field("rest"));
    let r = FlowRecord { fields };
    assert(r@ =~= length_fields(radius_names()));
    r
}

/// The canonical dictionary shape of `b`, if `b` is an alias of one.
pub fn canonical_dict(b: FlowBuiltinType) -> (r: Option<FlowRecord>)
    ensures
        r is Some <==> is_dict_alias(b),
        r matches Some(d) ==> d@ == canonical_fields(b),
{
    match b {
        FlowBuiltinType::Stroke => Some(stroke_dict()),
        FlowBuiltinType::Margin => Some(margin_dict()),
        FlowBuiltinType::Inset => Some(sides_dict()),
        FlowBuiltinType::Outset => Some(sides_dict()),
        FlowBuiltinType::Radius => Some(radius_dict()),
        _ => None,
    }
}

/// The kind of file that the path parameter of the constructor `f` prefers.
pub open spec fn path_param_spec(f: Seq<char>) -> Option<PathPreference> {
    if f == "cbor"@ || f == "read"@ {
        Some(PathPreference::Unrestricted)
    } else if f == "csv"@ {
        Some(PathPreference::Csv)
    } else if f == "image"@ {
        Some(PathPreference::Image)
    } else if f == "json"@ {
        Some(PathPreference::Json)
    } else if f == "yaml"@ {
        Some(PathPreference::Yaml)
    } else if f == "xml"@ {
        Some(PathPreference::Xml)
    } else if f == "toml"@ {
        Some(PathPreference::Toml)
    } else if f == "bibliography"@ {
        Some(PathPreference::Bibliography)
    } else {
        None
    }
}

/// The constructors that take a fill color.
pub open spec fn takes_fill(f: Seq<char>) -> bool {
    f == "page"@ || f == "highlight"@ || f == "text"@ || f == "path"@ || f == "rect"@ || f
        == "ellipse"@ || f == "circle"@ || f == "polygon"@ || f == "box"@ || f == "block"@ || f
        == "table"@ || f == "regular"@
}

/// The constructors that take an inset.
pub open spec fn takes_inset(f: Seq<char>) -> bool {
    f == "table"@ || f == "cell"@ || f == "block"@ || f == "box"@ || f == "circle"@ || f
        == "ellipse"@ || f == "rect"@ || f == "square"@
}

/// The constructors that take an outset.
pub open spec fn takes_outset(f: Seq<char>) -> bool {
    f == "block"@ || f == "box"@ || f == "circle"@ || f == "ellipse"@ || f == "rect"@ || f
        == "square"@
}

/// The constructors that take a corner radius.
pub open spec fn takes_radius(f: Seq<char>) -> bool {
    f == "block"@ || f == "box"@ || f == "rect"@ || f == "square"@
}

/// The constructors that take a stroke.
pub open spec fn takes_stroke(f: Seq<char>) -> bool {
    f == "cancel"@ || f == "highlight"@ || f == "overline"@ || f == "strike"@ || f
        == "underline"@ || f == "text"@ || f == "path"@ || f == "rect"@ || f == "ellipse"@ || f
        == "circle"@ || f == "polygon"@ || f == "box"@ || f == "block"@ || f == "table"@ || f
        == "line"@ || f == "cell"@ || f == "hline"@ || f == "vline"@ || f == "regular"@
}

/// The built-in domain that the parameter `p` of the constructor `f` accepts,
/// where the catalog knows one.
pub open spec fn param_builtin_spec(f: Seq<char>, p: Seq<char>) -> Option<FlowBuiltinType> {
    if p == "path"@ {
        match path_param_spec(f) {
            Some(pref) => Some(FlowBuiltinType::Path(pref)),
            None => None,
        }
    } else if p == "theme"@ {
        if f == "raw"@ {
            Some(FlowBuiltinType::Path(PathPreference::RawTheme))
        } else {
            None
        }
    } else if p == "syntaxes"@ {
        if f == "raw"@ {
            Some(FlowBuiltinType::Path(PathPreference::RawSyntax))
        } else {
            None
        }
    } else if p == "size"@ {
        if f == "text"@ {
            Some(FlowBuiltinType::TextSize)
        } else {
            None
        }
    } else if p == "dir"@ {
        if f == "text"@ || f == "stack"@ {
            Some(FlowBuiltinType::Dir)
        } else {
            None
        }
    } else if p == "font"@ {
        if f == "text"@ {
            Some(FlowBuiltinType::TextFont)
        } else {
            None
        }
    } else if p == "lang"@ {
        if f == "text"@ {
            Some(FlowBuiltinType::TextLang)
        } else {
            None
        }
    } else if p == "region"@ {
        if f == "text"@ {
            Some(FlowBuiltinType::TextRegion)
        } else {
            None
        }
    } else if p == "fill"@ {
        if takes_fill(f) {
            Some(FlowBuiltinType::Color)
        } else {
            None
        }
    } else if p == "inset"@ {
        if takes_inset(f) {
            Some(FlowBuiltinType::Inset)
        } else {
            None
        }
    } else if p == "outset"@ {
        if takes_outset(f) {
            Some(FlowBuiltinType::Outset)
        } else {
            None
        }
    } else if p == "radius"@ {
        if takes_radius(f) {
            Some(FlowBuiltinType::Radius)
        } else {
            None
        }
    } else if p == "stroke"@ {
        if takes_stroke(f) {
            Some(FlowBuiltinType::Stroke)
        } else {
            None
        }
    } else if p == "margin"@ {
        if f == "page"@ {
            Some(FlowBuiltinType::Margin)
        } else {
            None
        }
    } else {
        None
    }
}

/// The refined type of a parameter of a named callable, where the catalog
/// knows one. A callable without a name has none.
pub open spec fn param_mapping_spec(f: Option<Seq<char>>, p: Seq<char>) -> Option<Ty> {
    match f {
        Some(f) => match param_builtin_spec(f, p) {
            Some(b) => Some(Ty::Builtin(b)),
            None => None,
        },
        None => None,
    }
}

/// Whether `s` reads as the literal `lit`.
pub fn is_text(s: &String, lit: &str) -> (r: bool)
    ensures
        r == (s@ == lit@),
{
    let t = text(lit);
    *s == t
}

fn path_param(f: &String) -> (r: Option<PathPreference>)
    ensures
        r == path_param_spec(f@),
{
    if is_text(f, "cbor") || is_text(f, "read") {
        Some(PathPreference::Unrestricted)
    } else if is_text(f, "csv") {
        Some(PathPreference::Csv)
    } else if is_text(f, "image") {
        Some(PathPreference::Image)
    } else if is_text(f, "json") {
        Some(PathPreference::Json)
    } else if is_text(f, "yaml") {
        Some(PathPreference::Yaml)
    } else if is_text(f, "xml") {
        Some(PathPreference::Xml)
    } else if is_text(f, "toml") {
        Some(PathPreference::Toml)
    } else if is_text(f, "bibliography") {
        Some(PathPreference::Bibliography)
    } else {
        None
    }
}

fn fill_owner(f: &String) -> (r: bool)
    ensures
        r == takes_fill(f@),
{
    is_text(f, "page") || is_text(f, "highlight") || is_text(f, "text") || is_text(f, "path")
        || is_text(f, "rect") || is_text(f, "ellipse") || is_text(f, "circle") || is_text(
        f,
        "polygon",
    ) || is_text(f, "box") || is_text(f, "block") || is_text(f, "table") || is_text(
        f,
        "regular",
    )
}

fn inset_owner(f: &String) -> (r: bool)
    ensures
        r == takes_inset(f@),
{
    is_text(f, "table") || is_text(f, "cell") || is_text(f, "block") || is_text(f, "box")
        || is_text(f, "circle") || is_text(f, "ellipse") || is_text(f, "rect") || is_text(
        f,
        "square",
    )
}

fn outset_owner(f: &String) -> (r: bool)
    ensures
        r == takes_outset(f@),
{
    is_text(f, "block") || is_text(f, "box") || is_text(f, "circle") || is_text(f, "ellipse")
        || is_text(f, "rect") || is_text(f, "square")
}

fn radius_owner(f: &String) -> (r: bool)
    ensures
        r == takes_radius(f@),
{
    is_text(f, "block") || is_text(f, "box") || is_text(f, "rect") || is_text(f, "square")
}

fn stroke_owner(f: &String) -> (r: bool)
    ensures
        r == takes_stroke(f@),
{
    is_text(f, "cancel") || is_text(f, "highlight") || is_text(f, "overline") || is_text(
        f,
        "strike",
    ) || is_text(f, "underline") || is_text(f, "text") || is_text(f, "path") || is_text(
        f,
        "rect",
    ) || is_text(f, "ellipse") || is_text(f, "circle") || is_text(f, "polygon") || is_text(
        f,
        "box",
    ) || is_text(f, "block") || is_text(f, "table") || is_text(f, "line") || is_text(f, "cell")
        || is_text(f, "hline") || is_text(f, "vline") || is_text(f, "regular")
}

fn param_builtin(f: &String, p: &String) -> (r: Option<FlowBuiltinType>)
    ensures
        r == param_builtin_spec(f@, p@),
{
    if is_text(p, "path") {
        match path_param(f) {
            Some(pref) => Some(FlowBuiltinType::Path(pref)),
            None => None,
        }
    } else if is_text(p, "theme") {
        if is_text(f, "raw") {
            Some(FlowBuiltinType::Path(PathPreference::RawTheme))
        } else {
            None
        }
    } else if is_text(p, "syntaxes") {
        if is_text(f, "raw") {
            Some(FlowBuiltinType::Path(PathPreference::RawSyntax))
        } else {
            None
        }
    } else if is_text(p, "size") {
        if is_text(f, "text") {
            Some(FlowBuiltinType::TextSize)
        } else {
            None
        }
    } else if is_text(p, "dir") {
        if is_text(f, "text") || is_text(f, "stack") {
            Some(FlowBuiltinType::Dir)
        } else {
            None
        }
    } else if is_text(p, "font") {
        if is_text(f, "text") {
            Some(FlowBuiltinType::TextFont)
        } else {
            None
        }
    } else if is_text(p, "lang") {
        if is_text(f, "text") {
            Some(FlowBuiltinType::TextLang)
        } else {
            None
        }
    } else if is_text(p, "region") {
        if is_text(f, "text") {
            Some(FlowBuiltinType::TextRegion)
        } else {
            None
        }
    } else if is_text(p, "fill") {
        if fill_owner(f) {
            Some(FlowBuiltinType::Color)
        } else {
            None
        }
    } else if is_text(p, "inset") {
        if inset_owner(f) {
            Some(FlowBuiltinType::Inset)
        } else {
            None
        }
    } else if is_text(p, "outset") {
        if outset_owner(f) {
            Some(FlowBuiltinType::Outset)
        } else {
            None
        }
    } else if is_text(p, "radius") {
        if radius_owner(f) {
            Some(FlowBuiltinType::Radius)
        } else {
            None
        }
    } else if is_text(p, "stroke") {
        if stroke_owner(f) {
            Some(FlowBuiltinType::Stroke)
        } else {
            None
        }
    } else if is_text(p, "margin") {
        if is_text(f, "page") {
            Some(FlowBuiltinType::Margin)
        } else {
            None
        }
    } else {
        None
    }
}

/// The refined type that the catalog holds for the parameter `p` of the
/// callable `f`.
pub fn param_mapping(f: &Func, p: &ParamInfo) -> (r: Option<FlowType>)
    ensures
        opt_ty_view(&r) == param_mapping_spec(f@.name, p@),
{
    match &f.name {
        Some(name) => match param_builtin(name, &p.name) {
            Some(b) => Some(FlowType::Builtin(b)),
            None => None,
        },
        None => None,
    }
}

} // verus!
