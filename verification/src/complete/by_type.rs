//! Suggestions for a position from the type that is expected there.

use std::collections::HashSet;
use vstd::prelude::*;
use vstd::std_specs::hash::*;
use vstd::string::*;

use crate::complete::item::{
    Completion, CompletionKind, CompletionView, Suggestion, SuggestionView, plain_item,
    snippet_item, suggest, suggest_snippet, suggestions_view,
};
use crate::syntax::{DETACHED, Span};
use crate::ty::builtin::{FlowBuiltinType, is_text, text};
use crate::ty::copy::{clone_ty, clone_type, clone_value};
use crate::ty::def::{FlowType, Ty, opt_ty_view, tys_view};
use crate::value::{Type, TypeVal, Val, Value, opt_str_view};

verus! {

/// What was completed before: an expected type, or a value.
#[derive(Debug, Hash)]
pub enum SeenKey {
    Type(Option<FlowType>),
    Value(Value),
}

/// The mathematical value of a [`SeenKey`].
pub enum SeenKeyView {
    Type(Option<Ty>),
    Value(Val),
}

impl View for SeenKey {
    type V = SeenKeyView;

    open spec fn view(&self) -> SeenKeyView {
        match self {
            SeenKey::Type(t) => SeenKeyView::Type(opt_ty_view(t)),
            SeenKey::Value(v) => SeenKeyView::Value(v@),
        }
    }
}

/// The 128-bit content hash of a key.
pub uninterp spec fn hash128_of(key: SeenKeyView) -> u128;

/// The lowercase form of a text.
pub uninterp spec fn lowercase_of(s: Seq<char>) -> Seq<char>;

/// Calls `typst::util::hash128` on the key: the SipHash-1-3 of what the key
/// feeds to the hasher, under a fixed key. Keys with the same mathematical
/// value feed the same, so the hash is a function of that value.
#[verifier::external_body]
fn content_hash(key: &SeenKey) -> (h: u128)
    ensures
        h == hash128_of(key@),
{
    typst::util::hash128(key)
}

/// Calls `str::to_lowercase`: the text with each character mapped to its
/// lowercase form as Unicode defines it, whatever the locale.
#[verifier::external_body]
fn lowercase(s: &String) -> (r: String)
    ensures
        r@ == lowercase_of(s@),
{
    s.to_lowercase()
}

/// Reads `rust_iso639::ALL_MAP`: each language code of the table with the
/// name of its language. Nothing is claimed of the entries.
#[verifier::external_body]
fn language_codes() -> (r: Vec<(String, String)>) {
    rust_iso639::ALL_MAP.entries().map(|(key, desc)| (key.to_string(), desc.name.to_string())).collect()
}

/// Reads `rust_iso3166::ALPHA2_MAP`: each two-letter region code of the
/// table with the name of its region. Nothing is claimed of the entries.
#[verifier::external_body]
fn region_codes() -> (r: Vec<(String, String)>) {
    rust_iso3166::ALPHA2_MAP.entries().map(|(key, desc)| (key.to_string(), desc.name.to_string())).collect()
}

/// What the host tells type completion: the codes of languages and of
/// regions with their names, and whether the source file at hand can be had.
#[derive(Debug)]
pub struct CodeTables {
    pub languages: Vec<(String, String)>,
    pub regions: Vec<(String, String)>,
    pub source_available: bool,
}

/// The mathematical value of a list of codes with their names.
pub open spec fn codes_view(v: &Vec<(String, String)>) -> Seq<(Seq<char>, Seq<char>)> {
    Seq::new(v@.len(), |i: int| (v@[i].0@, v@[i].1@))
}

/// The mathematical value of a [`CodeTables`].
pub struct TablesView {
    pub languages: Seq<(Seq<char>, Seq<char>)>,
    pub regions: Seq<(Seq<char>, Seq<char>)>,
    pub source_available: bool,
}

impl View for CodeTables {
    type V = TablesView;

    open spec fn view(&self) -> TablesView {
        TablesView {
            languages: codes_view(&self.languages),
            regions: codes_view(&self.regions),
            source_available: self.source_available,
        }
    }
}

/// What type completion has come to: the hashes of what was completed, and
/// the suggestions in the order in which they were made.
pub struct Suggested {
    pub seen: Set<u128>,
    pub out: Seq<SuggestionView>,
}

impl Suggested {
    /// With one more suggestion.
    pub open spec fn add(self, s: SuggestionView) -> Suggested {
        Suggested { out: self.out.push(s), ..self }
    }

    /// With the item of a snippet.
    pub open spec fn snippet(self, label: Seq<char>, snippet: Seq<char>, docs: Seq<char>)
        -> Suggested {
        self.add(SuggestionView::Item(snippet_item(label, snippet, docs)))
    }

    /// With the two items of a boolean.
    pub open spec fn booleans(self) -> Suggested {
        self.snippet("false"@, "false"@, "No / Disabled."@).snippet(
            "true"@,
            "true"@,
            "Yes / Enabled."@,
        )
    }

    /// With the items of the ways to write a color.
    pub open spec fn colors(self) -> Suggested {
        self.snippet("luma()"@, "luma(${v})"@, "A custom grayscale color."@).snippet(
            "rgb()"@,
            "rgb(${r}, ${g}, ${b}, ${a})"@,
            "A custom RGBA color."@,
        ).snippet("cmyk()"@, "cmyk(${c}, ${m}, ${y}, ${k})"@, "A custom CMYK color."@).snippet(
            "oklab()"@,
            "oklab(${l}, ${a}, ${b}, ${alpha})"@,
            "A custom Oklab color."@,
        ).snippet(
            "oklch()"@,
            "oklch(${l}, ${chroma}, ${hue}, ${alpha})"@,
            "A custom Oklch color."@,
        ).snippet(
            "color.linear-rgb()"@,
            "color.linear-rgb(${r}, ${g}, ${b}, ${a})"@,
            "A custom linear RGBA color."@,
        ).snippet(
            "color.hsv()"@,
            "color.hsv(${h}, ${s}, ${v}, ${a})"@,
            "A custom HSVA color."@,
        ).snippet(
            "color.hsl()"@,
            "color.hsl(${h}, ${s}, ${l}, ${a})"@,
            "A custom HSLA color."@,
        )
    }

    /// With the items of the units of length.
    pub open spec fn lengths(self) -> Suggested {
        self.snippet("pt"@, "${1}pt"@, "Point length unit."@).snippet(
            "mm"@,
            "${1}mm"@,
            "Millimeter length unit."@,
        ).snippet("cm"@, "${1}cm"@, "Centimeter length unit."@).snippet(
            "in"@,
            "${1}in"@,
            "Inch length unit."@,
        ).snippet("em"@, "${1}em"@, "Em length unit."@)
    }
}

/// A type of the host library whose two names are the same.
pub open spec fn simple_type(name: Seq<char>) -> TypeVal {
    TypeVal { name, long_name: name }
}

/// The item of a code with the name of what it stands for: the code is
/// shown and put in lowercase, in quotes.
pub open spec fn code_item(entry: (Seq<char>, Seq<char>), what: Seq<char>) -> SuggestionView {
    let code = lowercase_of(entry.0);
    SuggestionView::Item(
        CompletionView {
            apply: Some("\""@ + code + "\""@),
            detail: Some(what + entry.1 + "."@),
            label_detail: Some(entry.1),
            ..plain_item(CompletionKind::Syntax, code)
        },
    )
}

/// With the items of the first `n` codes of a table.
pub open spec fn code_items(
    st: Suggested,
    entries: Seq<(Seq<char>, Seq<char>)>,
    what: Seq<char>,
    n: nat,
) -> Suggested
    decreases n,
{
    if n == 0 || n > entries.len() {
        st
    } else {
        code_items(st, entries, what, (n - 1) as nat).add(code_item(entries[n - 1], what))
    }
}

/// How deep unions and bound lists are nested in `t`.
pub open spec fn nesting(t: Ty) -> nat
    decreases t, 0nat,
{
    match t {
        Ty::Union(s) => 1 + nesting_of(s, s.len()),
        Ty::Let(l, u) => 1 + nesting_of(l, l.len()) + nesting_of(u, u.len()),
        _ => 0,
    }
}

/// The deepest nesting among the first `n` terms of `s`.
pub open spec fn nesting_of(s: Seq<Ty>, n: nat) -> nat
    decreases s, n,
{
    if n == 0 || n > s.len() {
        0
    } else {
        let before = nesting_of(s, (n - 1) as nat);
        let last = nesting(s[n - 1]);
        if before > last {
            before
        } else {
            last
        }
    }
}

/// A term of a list is nested no deeper than the list.
pub proof fn lemma_nesting_of(s: Seq<Ty>, n: nat, i: int)
    requires
        0 <= i < n <= s.len(),
    ensures
        nesting(s[i]) <= nesting_of(s, n),
    decreases n,
{
    if i < n - 1 {
        lemma_nesting_of(s, (n - 1) as nat, i);
    }
}

/// How many times completing a term that is no union and no bound list can
/// lead on to completing another such term.
pub open spec fn leads_on(t: Ty) -> nat {
    match t {
        Ty::ValueDoc(..) => 4,
        Ty::Value(..) => 3,
        Ty::Builtin(b) => match b {
            FlowBuiltinType::Stroke
            | FlowBuiltinType::Margin
            | FlowBuiltinType::Inset
            | FlowBuiltinType::Outset
            | FlowBuiltinType::Radius => 2,
            FlowBuiltinType::Color | FlowBuiltinType::Length => 1,
            _ => 0,
        },
        _ => 0,
    }
}

/// What completing the expected type `ty` suggests, and whether the type
/// gave anything to complete.
///
/// A type that was completed before suggests nothing more, and counts as
/// completed. No type has nothing to complete.
pub open spec fn type_completion_spec(
    st: Suggested,
    tables: TablesView,
    ty: Option<Ty>,
    docs: Option<Seq<char>>,
) -> (Suggested, bool)
    decreases
            match ty {
                Some(t) => nesting(t),
                None => 0,
            },
            match ty {
                Some(t) => leads_on(t),
                None => 0,
            },
            2nat,
{
    let key = hash128_of(SeenKeyView::Type(ty));
    if st.seen.contains(key) {
        (st, true)
    } else {
        let st = Suggested { seen: st.seen.insert(key), ..st };
        match ty {
            Some(t) => complete_by_type(st, tables, t, docs),
            None => (st, false),
        }
    }
}

/// What completing a type that was not completed before suggests.
pub open spec fn complete_by_type(st: Suggested, tables: TablesView, t: Ty, docs: Option<Seq<char>>)
    -> (Suggested, bool)
    decreases nesting(t), leads_on(t), 1nat,
{
    match t {
        Ty::Tuple(..) | Ty::Array(..) => (st.snippet("()"@, "(${})"@, "An array."@), true),
        Ty::Dict(..) => (st.snippet("()"@, "(${})"@, "A dictionary."@), true),
        Ty::NoneType => (st.snippet("none"@, "none"@, "Nothing."@), true),
        Ty::Auto => (st.snippet("auto"@, "auto"@, "A smart default."@), true),
        Ty::Boolean(_) => (st.booleans(), true),
        Ty::Builtin(b) => match b {
            FlowBuiltinType::Path(p) => if tables.source_available {
                (st.add(SuggestionView::Paths(p)), true)
            } else {
                (st, false)
            },
            FlowBuiltinType::Args | FlowBuiltinType::TextSize => (st, false),
            FlowBuiltinType::Stroke => {
                let st = st.snippet("stroke()"@, "stroke(${})"@, "Stroke type."@).snippet(
                    "()"@,
                    "(${})"@,
                    "Stroke dictionary."@,
                );
                let st = type_completion_spec(
                    st,
                    tables,
                    Some(Ty::Builtin(FlowBuiltinType::Color)),
                    docs,
                ).0;
                (
                    type_completion_spec(
                        st,
                        tables,
                        Some(Ty::Builtin(FlowBuiltinType::Length)),
                        docs,
                    ).0,
                    true,
                )
            },
            FlowBuiltinType::Color => (
                st.colors().add(SuggestionView::ScopeOfType(simple_type("color"@))),
                true,
            ),
            FlowBuiltinType::TextLang => (
                code_items(
                    st,
                    tables.languages,
                    "An ISO 639-1/2/3 language code, "@,
                    tables.languages.len(),
                ),
                true,
            ),
            FlowBuiltinType::TextRegion => (
                code_items(
                    st,
                    tables.regions,
                    "An ISO 3166-1 alpha-2 region code, "@,
                    tables.regions.len(),
                ),
                true,
            ),
            FlowBuiltinType::Dir => (
                st.add(SuggestionView::ScopeOfType(simple_type("direction"@))),
                true,
            ),
            FlowBuiltinType::TextFont => (st.add(SuggestionView::Fonts), true),
            FlowBuiltinType::Margin => (
                sides_completion(st, tables, "Margin dictionary."@, docs),
                true,
            ),
            FlowBuiltinType::Inset => (
                sides_completion(st, tables, "Inset dictionary."@, docs),
                true,
            ),
            FlowBuiltinType::Outset => (
                sides_completion(st, tables, "Outset dictionary."@, docs),
                true,
            ),
            FlowBuiltinType::Radius => (
                sides_completion(st, tables, "Radius dictionary."@, docs),
                true,
            ),
            FlowBuiltinType::Length => {
                let st = st.lengths().add(SuggestionView::ScopeOfType(simple_type("length"@)));
                (type_completion_spec(st, tables, Some(Ty::Auto), docs).0, true)
            },
            FlowBuiltinType::Float => (
                st.snippet("exponential notation"@, "${1}e${0}"@, "Exponential notation"@),
                true,
            ),
        },
        Ty::Union(u) => (complete_each(st, tables, u, docs, u.len()), true),
        Ty::Let(lbs, ubs) => {
            proof {
                assert(nesting_of(ubs, ubs.len()) < nesting(t));
                assert(nesting_of(lbs, lbs.len()) < nesting(t));
            }
            let st = complete_each(st, tables, ubs, docs, ubs.len());
            (complete_each(st, tables, lbs, docs, lbs.len()), true)
        },
        Ty::Value(v, _) => (complete_value(st, tables, v, docs), true),
        Ty::ValueDoc(v, doc) => (
            type_completion_spec(st, tables, Some(Ty::Value(v, Span(DETACHED))), Some(doc)).0,
            true,
        ),
        Ty::Element(name) => (st.add(SuggestionView::Element { name, docs }), true),
        _ => (st, false),
    }
}

/// What completing a dictionary of sides suggests: the dictionary, and
/// what a length suggests.
pub open spec fn sides_completion(
    st: Suggested,
    tables: TablesView,
    what: Seq<char>,
    docs: Option<Seq<char>>,
) -> Suggested
    decreases 0nat, 2nat, 0nat,
{
    type_completion_spec(
        st.snippet("()"@, "(${})"@, what),
        tables,
        Some(Ty::Builtin(FlowBuiltinType::Length)),
        docs,
    ).0
}

/// What completing each of the first `n` terms of `s` suggests, one after
/// the other.
pub open spec fn complete_each(
    st: Suggested,
    tables: TablesView,
    s: Seq<Ty>,
    docs: Option<Seq<char>>,
    n: nat,
) -> Suggested
    decreases nesting_of(s, s.len()), 5nat, n,
{
    if n == 0 || n > s.len() {
        st
    } else {
        proof {
            lemma_nesting_of(s, s.len(), n - 1);
        }
        type_completion_spec(
            complete_each(st, tables, s, docs, (n - 1) as nat),
            tables,
            Some(s[n - 1]),
            docs,
        ).0
    }
}

/// What completing a concrete value suggests. A value that was completed
/// before suggests nothing more. A type suggests its values: what `NoneType`
/// and `Auto` suggest for the types of none and auto, the booleans, what a
/// color suggests, the labels, a function literal, and for any other type a
/// placeholder and the values in scope of that type. The values none and
/// auto suggest what their types suggest. Any other value suggests itself.
pub open spec fn complete_value(st: Suggested, tables: TablesView, v: Val, docs: Option<Seq<char>>)
    -> Suggested
    decreases 0nat, 3nat, 0nat,
{
    let key = hash128_of(SeenKeyView::Value(v));
    if st.seen.contains(key) {
        st
    } else {
        let st = Suggested { seen: st.seen.insert(key), ..st };
        match v {
            Val::Type(ty) => {
                if ty.name == "none"@ {
                    type_completion_spec(st, tables, Some(Ty::NoneType), docs).0
                } else if ty.name == "auto"@ {
                    type_completion_spec(st, tables, Some(Ty::Auto), docs).0
                } else if ty.name == "bool"@ {
                    st.booleans()
                } else if ty.name == "color"@ {
                    type_completion_spec(
                        st,
                        tables,
                        Some(Ty::Builtin(FlowBuiltinType::Color)),
                        None,
                    ).0
                } else if ty.name == "label"@ {
                    st.add(SuggestionView::Labels)
                } else if ty.name == "function"@ {
                    st.snippet("function"@, "(${params}) => ${output}"@, "A custom function."@)
                } else {
                    st.add(
                        SuggestionView::Item(
                            CompletionView {
                                apply: Some("${"@ + ty.long_name + "}"@),
                                detail: Some("A value of type "@ + ty.long_name + "."@),
                                ..plain_item(CompletionKind::Syntax, ty.long_name)
                            },
                        ),
                    ).add(SuggestionView::ScopeOfType(ty))
                }
            },
            Val::NoneValue => type_completion_spec(st, tables, Some(Ty::NoneType), docs).0,
            Val::Auto => type_completion_spec(st, tables, Some(Ty::Auto), docs).0,
            _ => st.add(SuggestionView::Value { value: v, docs }),
        }
    }
}

/// The part of a completion run that type completion works on.
#[derive(Debug)]
pub struct TypeCompletions {
    /// The hashes of what was completed.
    pub seen_casts: HashSet<u128>,
    /// The suggestions made so far.
    pub suggestions: Vec<Suggestion>,
    /// What the host told.
    pub tables: CodeTables,
}

/// The view of an optional documentation text.
pub open spec fn docs_view(docs: Option<&String>) -> Option<Seq<char>> {
    match docs {
        Some(d) => Some(d@),
        None => None,
    }
}

/// The view of an optional expected type.
pub open spec fn expected_view(ty: Option<&FlowType>) -> Option<Ty> {
    match ty {
        Some(t) => Some(t@),
        None => None,
    }
}

fn own_docs(docs: Option<&String>) -> (r: Option<String>)
    ensures
        opt_str_view(&r) == docs_view(docs),
{
    match docs {
        Some(d) => Some(d.clone()),
        None => None,
    }
}

fn own_type(ty: Option<&FlowType>) -> (r: Option<FlowType>)
    ensures
        opt_ty_view(&r) == expected_view(ty),
{
    match ty {
        Some(t) => Some(clone_ty(t)),
        None => None,
    }
}

fn simple(name: &str) -> (r: Type)
    ensures
        r@ == simple_type(name@),
{
    Type { name: text(name), long_name: text(name) }
}

impl TypeCompletions {
    /// The hashes of what was completed.
    pub open spec fn seen(&self) -> Set<u128> {
        self.seen_casts@
    }

    /// What type completion has come to.
    pub open spec fn state(&self) -> Suggested {
        Suggested { seen: self.seen(), out: suggestions_view(&self.suggestions) }
    }

    /// A run in which nothing was completed, with the given tables.
    pub fn with_tables(tables: CodeTables) -> (r: TypeCompletions)
        ensures
            r.state() == (Suggested { seen: Set::empty(), out: Seq::empty() }),
            r.tables == tables,
    {
        let r = TypeCompletions { seen_casts: HashSet::new(), suggestions: Vec::new(), tables };
        assert(suggestions_view(&r.suggestions) =~= Seq::empty());
        r
    }

    /// A run in which nothing was completed, with the tables of language
    /// and region codes that the code tables of ISO 639 and ISO 3166 hold.
    pub fn new(source_available: bool) -> (r: TypeCompletions)
        ensures
            r.state() == (Suggested { seen: Set::empty(), out: Seq::empty() }),
            r.tables.source_available == source_available,
    {
        TypeCompletions::with_tables(
            CodeTables { languages: language_codes(), regions: region_codes(), source_available },
        )
    }

    /// Takes note of a key; tells whether it is new.
    fn note(&mut self, key: &SeenKey) -> (fresh: bool)
        ensures
            fresh == !old(self).seen().contains(hash128_of(key@)),
            final(self).seen() == old(self).seen().insert(hash128_of(key@)),
            final(self).suggestions == old(self).suggestions,
            final(self).tables == old(self).tables,
    {
        broadcast use vstd::std_specs::hash::group_hash_axioms;

        self.seen_casts.insert(content_hash(key))
    }

    fn snippet(&mut self, label: &str, snippet: &str, docs: &str)
        ensures
            final(self).state() == old(self).state().snippet(label@, snippet@, docs@),
            final(self).tables == old(self).tables,
    {
        suggest_snippet(&mut self.suggestions, label, snippet, docs);
    }

    fn add(&mut self, s: Suggestion)
        ensures
            final(self).state() == old(self).state().add(s@),
            final(self).tables == old(self).tables,
    {
        suggest(&mut self.suggestions, s);
    }

    fn booleans(&mut self)
        ensures
            final(self).state() == old(self).state().booleans(),
            final(self).tables == old(self).tables,
    {
        self.snippet("false", "false", "No / Disabled.");
        self.snippet("true", "true", "Yes / Enabled.");
    }

    fn colors(&mut self)
        ensures
            final(self).state() == old(self).state().colors(),
            final(self).tables == old(self).tables,
    {
        self.snippet("luma()", "luma(${v})", "A custom grayscale color.");
        self.snippet("rgb()", "rgb(${r}, ${g}, ${b}, ${a})", "A custom RGBA color.");
        self.snippet("cmyk()", "cmyk(${c}, ${m}, ${y}, ${k})", "A custom CMYK color.");
        self.snippet("oklab()", "oklab(${l}, ${a}, ${b}, ${alpha})", "A custom Oklab color.");
        self.snippet(
            "oklch()",
            "oklch(${l}, ${chroma}, ${hue}, ${alpha})",
            "A custom Oklch color.",
        );
        self.snippet(
            "color.linear-rgb()",
            "color.linear-rgb(${r}, ${g}, ${b}, ${a})",
            "A custom linear RGBA color.",
        );
        self.snippet("color.hsv()", "color.hsv(${h}, ${s}, ${v}, ${a})", "A custom HSVA color.");
        self.snippet("color.hsl()", "color.hsl(${h}, ${s}, ${l}, ${a})", "A custom HSLA color.");
    }

    fn lengths(&mut self)
        ensures
            final(self).state() == old(self).state().lengths(),
            final(self).tables == old(self).tables,
    {
        self.snippet("pt", "${1}pt", "Point length unit.");
        self.snippet("mm", "${1}mm", "Millimeter length unit.");
        self.snippet("cm", "${1}cm", "Centimeter length unit.");
        self.snippet("in", "${1}in", "Inch length unit.");
        self.snippet("em", "${1}em", "Em length unit.");
    }

    /// Suggests each code of a table.
    #[verifier::loop_isolation(false)]
    fn codes(&mut self, languages: bool, what: &str)
        ensures
            final(self).state() == code_items(
                old(self).state(),
                if languages {
                    old(self).tables@.languages
                } else {
                    old(self).tables@.regions
                },
                what@,
                if languages {
                    old(self).tables@.languages.len()
                } else {
                    old(self).tables@.regions.len()
                },
            ),
            final(self).tables == old(self).tables,
    {
        let ghost start = self.state();
        let ghost entries = if languages {
            self.tables@.languages
        } else {
            self.tables@.regions
        };
        let n = if languages {
            self.tables.languages.len()
        } else {
            self.tables.regions.len()
        };
        let mut i: usize = 0;
        while i < n
            invariant
                i <= n,
                n == entries.len(),
                self.tables == old(self).tables,
                self.state() == code_items(start, entries, what@, i as nat),
            decreases n - i,
        {
            let entry = if languages {
                &self.tables.languages[i]
            } else {
                &self.tables.regions[i]
            };
            assert(entries[i as int] == (entry.0@, entry.1@));
            let code = lowercase(&entry.0);
            let item = Completion {
                kind: CompletionKind::Syntax,
                label: code.clone(),
                label_detail: Some(entry.1.clone()),
                sort_text: None,
                apply: Some(text("\"").concat(code.as_str()).concat("\"")),
                detail: Some(text(what).concat(entry.1.as_str()).concat(".")),
                command: None,
            };
            self.add(Suggestion::Item(item));
            i += 1;
        }
    }
}

/// Suggests what fits the expected type `infer_type`. Gives `None` where
/// the type has nothing to complete.
pub fn type_completion(
    ctx: &mut TypeCompletions,
    infer_type: Option<&FlowType>,
    docs: Option<&String>,
) -> (r: Option<()>)
    ensures
        (final(ctx).state(), r is Some) == type_completion_spec(
            old(ctx).state(),
            old(ctx).tables@,
            expected_view(infer_type),
            docs_view(docs),
        ),
        final(ctx).tables == old(ctx).tables,
    decreases
            match infer_type {
                Some(t) => nesting(t@),
                None => 0,
            },
            match infer_type {
                Some(t) => leads_on(t@),
                None => 0,
            },
            2nat,
{
    // Prevent duplicate completions from appearing.
    let ghost start = ctx.state();
    let key = SeenKey::Type(own_type(infer_type));
    assert(key@ == SeenKeyView::Type(expected_view(infer_type)));
    if !ctx.note(&key) {
        assert(ctx.seen() =~= start.seen);
        return Some(());
    }
    assert(ctx.state() == (Suggested { seen: start.seen.insert(hash128_of(key@)), ..start }));
    match infer_type {
        Some(t) => complete_type(ctx, t, docs),
        None => None,
    }
}

fn complete_type(ctx: &mut TypeCompletions, t: &FlowType, docs: Option<&String>) -> (r: Option<
    (),
>)
    ensures
        (final(ctx).state(), r is Some) == complete_by_type(
            old(ctx).state(),
            old(ctx).tables@,
            t@,
            docs_view(docs),
        ),
        final(ctx).tables == old(ctx).tables,
    decreases nesting(t@), leads_on(t@), 1nat,
{
    match t {
        FlowType::Tuple(..) | FlowType::Array(..) => {
            ctx.snippet("()", "(${})", "An array.");
        },
        FlowType::Dict(..) => {
            ctx.snippet("()", "(${})", "A dictionary.");
        },
        FlowType::NoneType => {
            ctx.snippet("none", "none", "Nothing.");
        },
        FlowType::Auto => {
            ctx.snippet("auto", "auto", "A smart default.");
        },
        FlowType::Boolean(_) => {
            ctx.booleans();
        },
        FlowType::Builtin(b) => {
            return complete_builtin(ctx, *b, docs);
        },
        FlowType::Union(u) => {
            assert(t@->Union_0 == tys_view(u));
            complete_all(ctx, u, docs);
        },
        FlowType::Let(e) => {
            assert(t@->Let_0 == tys_view(&e.lbs));
            assert(t@->Let_1 == tys_view(&e.ubs));
            complete_all(ctx, &e.ubs, docs);
            complete_all(ctx, &e.lbs, docs);
        },
        FlowType::Value(v) => {
            complete_concrete(ctx, &v.0, docs);
        },
        FlowType::ValueDoc(v) => {
            let value = FlowType::Value(Box::new((clone_value(&v.0), Span::detached())));
            let _ = type_completion(ctx, Some(&value), Some(&v.1));
        },
        FlowType::Element(e) => {
            ctx.add(Suggestion::Element { name: e.name.clone(), docs: own_docs(docs) });
        },
        _ => {
            return None;
        },
    }
    Some(())
}

fn complete_builtin(ctx: &mut TypeCompletions, b: FlowBuiltinType, docs: Option<&String>) -> (r:
    Option<()>)
    ensures
        (final(ctx).state(), r is Some) == complete_by_type(
            old(ctx).state(),
            old(ctx).tables@,
            Ty::Builtin(b),
            docs_view(docs),
        ),
        final(ctx).tables == old(ctx).tables,
    decreases 0nat, leads_on(Ty::Builtin(b)), 0nat,
{
    match b {
        FlowBuiltinType::Path(p) => {
            if !ctx.tables.source_available {
                return None;
            }
            ctx.add(Suggestion::Paths(p));
        },
        FlowBuiltinType::Args => {
            return None;
        },
        FlowBuiltinType::Stroke => {
            ctx.snippet("stroke()", "stroke(${})", "Stroke type.");
            ctx.snippet("()", "(${})", "Stroke dictionary.");
            let color = FlowType::Builtin(FlowBuiltinType::Color);
            let length = FlowType::Builtin(FlowBuiltinType::Length);
            let _ = type_completion(ctx, Some(&color), docs);
            let _ = type_completion(ctx, Some(&length), docs);
        },
        FlowBuiltinType::Color => {
            ctx.colors();
            ctx.add(Suggestion::ScopeOfType(simple("color")));
        },
        FlowBuiltinType::TextSize => {
            return None;
        },
        FlowBuiltinType::TextLang => {
            ctx.codes(true, "An ISO 639-1/2/3 language code, ");
        },
        FlowBuiltinType::TextRegion => {
            ctx.codes(false, "An ISO 3166-1 alpha-2 region code, ");
        },
        FlowBuiltinType::Dir => {
            ctx.add(Suggestion::ScopeOfType(simple("direction")));
        },
        FlowBuiltinType::TextFont => {
            ctx.add(Suggestion::Fonts);
        },
        FlowBuiltinType::Margin => {
            complete_sides(ctx, "Margin dictionary.", docs);
        },
        FlowBuiltinType::Inset => {
            complete_sides(ctx, "Inset dictionary.", docs);
        },
        FlowBuiltinType::Outset => {
            complete_sides(ctx, "Outset dictionary.", docs);
        },
        FlowBuiltinType::Radius => {
            complete_sides(ctx, "Radius dictionary.", docs);
        },
        FlowBuiltinType::Length => {
            ctx.lengths();
            ctx.add(Suggestion::ScopeOfType(simple("length")));
            let auto = FlowType::Auto;
            let _ = type_completion(ctx, Some(&auto), docs);
        },
        FlowBuiltinType::Float => {
            ctx.snippet("exponential notation", "${1}e${0}", "Exponential notation");
        },
    }
    Some(())
}

fn complete_sides(ctx: &mut TypeCompletions, what: &str, docs: Option<&String>)
    ensures
        final(ctx).state() == sides_completion(
            old(ctx).state(),
            old(ctx).tables@,
            what@,
            docs_view(docs),
        ),
        final(ctx).tables == old(ctx).tables,
    decreases 0nat, 1nat, 3nat,
{
    ctx.snippet("()", "(${})", what);
    let length = FlowType::Builtin(FlowBuiltinType::Length);
    let _ = type_completion(ctx, Some(&length), docs);
}

#[verifier::loop_isolation(false)]
fn complete_all(ctx: &mut TypeCompletions, s: &Vec<FlowType>, docs: Option<&String>)
    ensures
        final(ctx).state() == complete_each(
            old(ctx).state(),
            old(ctx).tables@,
            tys_view(s),
            docs_view(docs),
            s.len() as nat,
        ),
        final(ctx).tables == old(ctx).tables,
    decreases nesting_of(tys_view(s), s.len() as nat), 5nat, s.len(),
{
    let ghost start = ctx.state();
    let mut i: usize = 0;
    while i < s.len()
        invariant
            i <= s.len(),
            ctx.tables == old(ctx).tables,
            ctx.state() == complete_each(
                start,
                old(ctx).tables@,
                tys_view(s),
                docs_view(docs),
                i as nat,
            ),
        decreases s.len() - i,
    {
        proof {
            assert(tys_view(s)[i as int] == s[i as int]@);
            lemma_nesting_of(tys_view(s), s.len() as nat, i as int);
        }
        let _ = type_completion(ctx, Some(&s[i]), docs);
        i += 1;
    }
}

fn complete_concrete(ctx: &mut TypeCompletions, v: &Value, docs: Option<&String>)
    ensures
        final(ctx).state() == complete_value(
            old(ctx).state(),
            old(ctx).tables@,
            v@,
            docs_view(docs),
        ),
        final(ctx).tables == old(ctx).tables,
    decreases 0nat, 3nat, 0nat,
{
    // Prevent duplicate completions from appearing.
    let ghost start = ctx.state();
    let key = SeenKey::Value(clone_value(v));
    assert(key@ == SeenKeyView::Value(v@));
    if !ctx.note(&key) {
        assert(ctx.seen() =~= start.seen);
        return ;
    }
    assert(ctx.state() == (Suggested { seen: start.seen.insert(hash128_of(key@)), ..start }));
    let none = FlowType::NoneType;
    let auto = FlowType::Auto;
    match v {
        Value::Type(ty) => {
            if is_text(&ty.name, "none") {
                let _ = type_completion(ctx, Some(&none), docs);
            } else if is_text(&ty.name, "auto") {
                let _ = type_completion(ctx, Some(&auto), docs);
            } else if is_text(&ty.name, "bool") {
                ctx.booleans();
            } else if is_text(&ty.name, "color") {
                let color = FlowType::Builtin(FlowBuiltinType::Color);
                let _ = type_completion(ctx, Some(&color), None);
            } else if is_text(&ty.name, "label") {
                ctx.add(Suggestion::Labels);
            } else if is_text(&ty.name, "function") {
                ctx.snippet("function", "(${params}) => ${output}", "A custom function.");
            } else {
                let item = Completion {
                    kind: CompletionKind::Syntax,
                    label: ty.long_name.clone(),
                    label_detail: None,
                    sort_text: None,
                    apply: Some(text("${").concat(ty.long_name.as_str()).concat("}")),
                    detail: Some(text("A value of type ").concat(ty.long_name.as_str()).concat(".")),
                    command: None,
                };
                ctx.add(Suggestion::Item(item));
                ctx.add(Suggestion::ScopeOfType(clone_type(ty)));
            }
        },
        Value::NoneValue => {
            let _ = type_completion(ctx, Some(&none), docs);
        },
        Value::Auto => {
            let _ = type_completion(ctx, Some(&auto), docs);
        },
        _ => {
            ctx.add(Suggestion::Value { value: clone_value(v), docs: own_docs(docs) });
        },
    }
}

} // verus!
