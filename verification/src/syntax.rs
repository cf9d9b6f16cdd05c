//! The Rust syntax that the attribute macros read, held as plain values.
//!
//! Each piece keeps what the macros decide on (paths, the kind of a field's
//! type, the arguments of attributes) together with the printed text of the
//! tokens, so that the generated code can be written back out as text.
use vstd::prelude::*;
use vstd::string::*;
use crate::text::{comma_separated, colon_separated, word2, str_eq, owned, concat, push_word, join_with, keep, lemma_keep_step, lemma_keep_elements};

verus! {

/// A generic argument of a path segment: a type, or anything else (lifetime, constant, binding).
#[derive(Debug, PartialEq, Eq)]
pub enum GenericArg {
    Type(String),
    Other(String),
}

/// What follows the identifier of a path segment.
#[derive(Debug, PartialEq, Eq)]
pub enum SegmentArgs {
    /// Nothing.
    Plain,
    /// `<...>`, written `::<...>` when `turbofish` holds.
    Angle { turbofish: bool, args: Vec<GenericArg> },
    /// `(...) -> ...`, as printed.
    Paren(String),
}

/// One segment of a path.
#[derive(Debug, PartialEq, Eq)]
pub struct Segment {
    pub ident: String,
    pub arguments: SegmentArgs,
}

/// A path such as `Action::Start` or `::std::option::Option<T>`.
#[derive(Debug, PartialEq, Eq)]
pub struct PathModel {
    pub leading_colon: bool,
    pub segments: Vec<Segment>,
}

/// A type: a path type (without a qualified self), or any other type as printed.
#[derive(Debug, PartialEq, Eq)]
pub enum TypeModel {
    Path(PathModel),
    Other(String),
}

/// A string literal: its value and its printed token.
#[derive(Debug, PartialEq, Eq)]
pub struct LitStrModel {
    pub value: String,
    pub text: String,
}

/// An expression on the right of `name = ...` in an attribute's arguments.
#[derive(Debug, PartialEq, Eq)]
pub enum ExprModel {
    Path(PathModel),
    LitStr(LitStrModel),
    /// Another literal, as printed.
    OtherLit(String),
    /// Any other expression, as printed.
    Other(String),
}

/// The form of one entry of a comma-separated attribute argument list.
#[derive(Debug, PartialEq, Eq)]
pub enum MetaKind {
    /// `name`
    Path,
    /// `name(...)`, with the printed tokens inside.
    List(String),
    /// `name = expr`
    NameValue(ExprModel),
}

/// One entry of a comma-separated attribute argument list.
#[derive(Debug, PartialEq, Eq)]
pub struct MetaItem {
    pub path: PathModel,
    pub kind: MetaKind,
}

/// How the tokens after `=` of a nested entry read as a value of some kind:
/// the value and whether nothing else follows it, or why they do not read.
pub type ValueReading<T> = Result<(T, bool), String>;

/// The readings of the tokens after `name =` in a nested entry.
#[derive(Debug, PartialEq, Eq)]
pub struct AssignedValue {
    pub lit_str: ValueReading<LitStrModel>,
    pub path: ValueReading<PathModel>,
    pub ty: ValueReading<TypeModel>,
    /// The tokens read as an expression, as printed.
    pub expr: ValueReading<String>,
}

/// A parenthesized value `name(...)` of a nested entry.
#[derive(Debug, PartialEq, Eq)]
pub struct ParenValue {
    /// The tokens inside the parentheses, as printed.
    pub tokens: String,
    /// Those tokens read as a comma-separated argument list.
    pub meta: Result<Vec<MetaItem>, String>,
}

/// What follows the path of a nested entry.
#[derive(Debug, PartialEq, Eq)]
pub enum NestedValue {
    /// Nothing before the next comma.
    Bare,
    /// `= ...`
    Assigned(AssignedValue),
    /// `(...)`
    Paren(ParenValue),
}

/// One entry `path`, `path = value` or `path(...)` of a nested attribute list.
#[derive(Debug, PartialEq, Eq)]
pub struct NestedEntry {
    pub path: PathModel,
    pub value: NestedValue,
}

/// The nested entries of an attribute such as `#[hill(ask = "...", ctx)]`:
/// the entries that read, then the syntax error that stopped reading, if any.
#[derive(Debug, PartialEq, Eq)]
pub struct NestedMeta {
    pub entries: Vec<NestedEntry>,
    pub error: Option<String>,
}

/// An outer attribute.
#[derive(Debug, PartialEq, Eq)]
pub struct Attribute {
    pub path: PathModel,
    /// The whole attribute as printed, such as `# [arg (long)]`.
    pub text: String,
    /// The arguments read as a comma-separated argument list.
    pub meta: Result<Vec<MetaItem>, String>,
    /// The arguments read as nested entries; given for `hill` attributes, empty for others.
    pub nested: NestedMeta,
}

/// The generics of an item, as printed in each of the places they appear.
#[derive(Debug, PartialEq, Eq)]
pub struct GenericsModel {
    pub params: String,
    pub impl_generics: String,
    pub type_generics: String,
    pub where_clause: String,
}

/// A field of a struct, a union or an enum variant.
#[derive(Debug, PartialEq, Eq)]
pub struct FieldModel {
    pub attrs: Vec<Attribute>,
    pub vis: String,
    pub ident: Option<String>,
    pub ty: TypeModel,
}

/// The fields of a struct or an enum variant; for a list, whether a comma follows its
/// last field.
#[derive(Debug, PartialEq, Eq)]
pub enum FieldsModel {
    Named(Vec<FieldModel>, bool),
    Unnamed(Vec<FieldModel>, bool),
    Unit,
}

#[derive(Debug, PartialEq, Eq)]
pub struct StructModel {
    pub attrs: Vec<Attribute>,
    pub vis: String,
    pub ident: String,
    pub generics: GenericsModel,
    pub fields: FieldsModel,
}

#[derive(Debug, PartialEq, Eq)]
pub struct VariantModel {
    pub attrs: Vec<Attribute>,
    pub ident: String,
    pub fields: FieldsModel,
    /// The printed discriminant expression, if any.
    pub discriminant: Option<String>,
}

#[derive(Debug, PartialEq, Eq)]
pub struct EnumModel {
    pub attrs: Vec<Attribute>,
    pub vis: String,
    pub ident: String,
    pub generics: GenericsModel,
    pub variants: Vec<VariantModel>,
    /// Whether a comma follows the last variant.
    pub trailing_comma: bool,
}

#[derive(Debug, PartialEq, Eq)]
pub struct UnionModel {
    pub attrs: Vec<Attribute>,
    pub vis: String,
    pub ident: String,
    pub generics: GenericsModel,
    pub fields: Vec<FieldModel>,
    /// Whether a comma follows the last field.
    pub trailing_comma: bool,
}

/// An item the macros are applied to.
#[derive(Debug, PartialEq, Eq)]
pub enum ItemModel {
    Struct(StructModel),
    Enum(EnumModel),
    Union(UnionModel),
    /// Any other item, as printed.
    Other(String),
}

// ---------------------------------------------------------------------------
// Copies
// ---------------------------------------------------------------------------

impl LitStrModel {
    /// A copy of the literal.
    pub fn duplicate(&self) -> (r: Self)
        ensures
            r == *self,
    {
        LitStrModel { value: self.value.clone(), text: self.text.clone() }
    }
}

/// A copy of an optional string.
pub fn duplicate_opt(s: &Option<String>) -> (r: Option<String>)
    ensures
        r == *s,
{
    match s {
        Some(t) => Some(t.clone()),
        None => None,
    }
}

// ---------------------------------------------------------------------------
// Paths
// ---------------------------------------------------------------------------

/// `path.is_ident(name)`: a single plain segment with that identifier and no leading `::`.
pub open spec fn spec_is_ident(p: PathModel, name: Seq<char>) -> bool {
    &&& !p.leading_colon
    &&& p.segments@.len() == 1
    &&& p.segments@[0].arguments is Plain
    &&& p.segments@[0].ident@ == name
}

/// `path.get_ident()`: the identifier of a path that is a single plain segment.
pub open spec fn spec_get_ident(p: PathModel) -> Option<String> {
    if !p.leading_colon && p.segments@.len() == 1 && p.segments@[0].arguments is Plain {
        Some(p.segments@[0].ident)
    } else {
        None
    }
}

/// Whether `p` is the single identifier `name`.
pub fn is_ident(p: &PathModel, name: &str) -> (r: bool)
    ensures
        r == spec_is_ident(*p, name@),
{
    if p.leading_colon || p.segments.len() != 1 {
        return false;
    }
    match &p.segments[0].arguments {
        SegmentArgs::Plain => str_eq(p.segments[0].ident.as_str(), name),
        _ => false,
    }
}

/// The identifier of `p`, when it is a single plain segment.
pub fn get_ident(p: &PathModel) -> (r: Option<String>)
    ensures
        r == spec_get_ident(*p),
{
    if p.leading_colon || p.segments.len() != 1 {
        return None;
    }
    match &p.segments[0].arguments {
        SegmentArgs::Plain => Some(p.segments[0].ident.clone()),
        _ => None,
    }
}

/// Whether an attribute's path is one of `names`.
pub open spec fn spec_attr_is_any(a: Attribute, names: Seq<&str>) -> bool {
    exists|i: int| 0 <= i < names.len() && spec_is_ident(a.path, (#[trigger] names[i])@)
}

/// The attributes whose path is one of `names`.
pub open spec fn named_in(names: Seq<&str>) -> spec_fn(Attribute) -> bool {
    |a: Attribute| spec_attr_is_any(a, names)
}

/// The attributes whose path is none of `names`.
pub open spec fn named_outside(names: Seq<&str>) -> spec_fn(Attribute) -> bool {
    |a: Attribute| !spec_attr_is_any(a, names)
}

/// The fields of a structure or a variant, in order; none for a unit one.
pub open spec fn fields_of(fields: FieldsModel) -> Seq<FieldModel> {
    match fields {
        FieldsModel::Named(fs, _) => fs@,
        FieldsModel::Unnamed(fs, _) => fs@,
        FieldsModel::Unit => Seq::empty(),
    }
}

/// Whether none of the attributes is named `name`.
pub open spec fn none_named(attrs: Seq<Attribute>, name: Seq<char>) -> bool {
    forall|j: int| 0 <= j < attrs.len() ==> !spec_is_ident((#[trigger] attrs[j]).path, name)
}

/// The attributes kept outside `names` are named none of them.
pub proof fn lemma_kept_outside(attrs: Seq<Attribute>, names: Seq<&str>, k: int)
    requires
        0 <= k < names.len(),
    ensures
        none_named(keep(attrs, named_outside(names)), names[k]@),
{
    lemma_keep_elements(attrs, named_outside(names));
    let kept = keep(attrs, named_outside(names));
    assert forall|j: int| 0 <= j < kept.len() implies !spec_is_ident((#[trigger] kept[j]).path, names[k]@) by {
        assert(named_outside(names)(kept[j]));
        if spec_is_ident(kept[j].path, names[k]@) {
            assert(spec_attr_is_any(kept[j], names));
        }
    }
}

/// Whether the attribute's path is one of `names`.
pub fn attr_is_any(a: &Attribute, names: &[&str]) -> (r: bool)
    ensures
        r == spec_attr_is_any(*a, names@),
{
    let mut i: usize = 0;
    while i < names.len()
        invariant
            i <= names@.len(),
            forall|j: int| 0 <= j < i ==> !spec_is_ident(a.path, (#[trigger] names@[j])@),
        decreases names@.len() - i,
    {
        if is_ident(&a.path, names[i]) {
            return true;
        }
        i = i + 1;
    }
    false
}

/// Splits attributes into those whose path is one of `names` and the others, keeping their order.
pub fn partition_attributes(attrs: Vec<Attribute>, names: &[&str]) -> (r: (Vec<Attribute>, Vec<Attribute>))
    ensures
        r.0@ == keep(attrs@, named_in(names@)),
        r.1@ == keep(attrs@, named_outside(names@)),
{
    let ghost orig = attrs@;
    assert(orig.len() == attrs.len());
    let mut rest = attrs;
    let mut inside: Vec<Attribute> = Vec::new();
    let mut outside: Vec<Attribute> = Vec::new();
    let mut i: usize = 0;
    while rest.len() > 0
        invariant
            i <= orig.len() <= usize::MAX,
            orig == attrs@,
            rest@ == orig.skip(i as int),
            inside@ == keep(orig.take(i as int), named_in(names@)),
            outside@ == keep(orig.take(i as int), named_outside(names@)),
        decreases rest.len(),
    {
        let a = rest.remove(0);
        assert(a == orig[i as int]);
        proof {
            lemma_keep_step(orig, i as int, named_in(names@));
            lemma_keep_step(orig, i as int, named_outside(names@));
        }
        if attr_is_any(&a, names) {
            inside.push(a);
        } else {
            outside.push(a);
        }
        i = i + 1;
        assert(rest@ =~= orig.skip(i as int));
    }
    assert(orig.take(i as int) =~= orig);
    (inside, outside)
}

// ---------------------------------------------------------------------------
// Printing
// ---------------------------------------------------------------------------

pub open spec fn generic_arg_text(a: GenericArg) -> Seq<char> {
    match a {
        GenericArg::Type(t) => t@,
        GenericArg::Other(t) => t@,
    }
}

/// A segment as printed under the identifier `name`.
pub open spec fn segment_text_as(s: Segment, name: Seq<char>) -> Seq<char> {
    match s.arguments {
        SegmentArgs::Plain => name,
        SegmentArgs::Angle { turbofish, args } => {
            let head = if turbofish {
                name + seq![' ', ':', ':']
            } else {
                name
            };
            let inner = comma_separated(args@.map_values(|a: GenericArg| generic_arg_text(a)));
            word2(word2(word2(head, seq!['<']), inner), seq!['>'])
        },
        SegmentArgs::Paren(t) => word2(name, t@),
    }
}

pub open spec fn segment_text(s: Segment) -> Seq<char> {
    segment_text_as(s, s.ident@)
}

/// A path as printed, with `suffix` added to the identifier of its last segment.
pub open spec fn suffixed_path_text(p: PathModel, suffix: Seq<char>) -> Seq<char> {
    let n = p.segments@.len();
    let last = p.segments@[n - 1];
    let texts = p.segments@.map_values(|s: Segment| segment_text(s)).update(n - 1, segment_text_as(last, last.ident@ + suffix));
    let body = colon_separated(texts);
    if p.leading_colon {
        word2(seq![':', ':'], body)
    } else {
        body
    }
}

/// A path as printed, such as `Action :: Start`.
pub open spec fn path_text(p: PathModel) -> Seq<char> {
    let body = colon_separated(p.segments@.map_values(|s: Segment| segment_text(s)));
    if p.leading_colon {
        word2(seq![':', ':'], body)
    } else {
        body
    }
}

/// A type as printed, such as `Option < Base >`.
pub open spec fn type_text(t: TypeModel) -> Seq<char> {
    match t {
        TypeModel::Path(p) => path_text(p),
        TypeModel::Other(s) => s@,
    }
}

pub fn render_generic_arg(a: &GenericArg) -> (r: String)
    ensures
        r@ == generic_arg_text(*a),
{
    match a {
        GenericArg::Type(t) => t.clone(),
        GenericArg::Other(t) => t.clone(),
    }
}

pub fn render_segment(s: &Segment) -> (r: String)
    ensures
        r@ == segment_text(*s),
{
    render_segment_as(s, s.ident.as_str())
}

/// A segment as printed under the identifier `name`.
pub fn render_segment_as(s: &Segment, name: &str) -> (r: String)
    ensures
        r@ == segment_text_as(*s, name@),
{
    match &s.arguments {
        SegmentArgs::Plain => owned(name),
        SegmentArgs::Angle { turbofish, args } => {
            let mut texts: Vec<String> = Vec::new();
            let mut i: usize = 0;
            while i < args.len()
                invariant
                    i <= args.len(),
                    texts@.len() == i,
                    forall|j: int| 0 <= j < i ==> #[trigger] texts@[j]@ == generic_arg_text(args@[j]),
                decreases args.len() - i,
            {
                texts.push(render_generic_arg(&args[i]));
                i = i + 1;
            }
            assert(texts@.map_values(|p: String| p@) =~= args@.map_values(|a: GenericArg| generic_arg_text(a)));
            proof {
                reveal_strlit(" , ");
                assert(" , "@ =~= seq![' ', ',', ' ']);
            }
            let inner = join_with(&texts, " , ");
            proof {
                reveal_strlit(" ::");
                reveal_strlit("<");
                reveal_strlit(">");
            }
            let mut head = owned(name);
            if *turbofish {
                head.append(" ::");
                assert(" ::"@ =~= seq![' ', ':', ':']);
            }
            assert("<"@ =~= seq!['<']);
            assert(">"@ =~= seq!['>']);
            push_word(&mut head, "<");
            push_word(&mut head, inner.as_str());
            push_word(&mut head, ">");
            head
        },
        SegmentArgs::Paren(t) => {
            let mut head = owned(name);
            push_word(&mut head, t.as_str());
            head
        },
    }
}

pub fn render_path(p: &PathModel) -> (r: String)
    ensures
        r@ == path_text(*p),
{
    let mut texts: Vec<String> = Vec::new();
    let mut i: usize = 0;
    while i < p.segments.len()
        invariant
            i <= p.segments.len(),
            texts@.len() == i,
            forall|j: int| 0 <= j < i ==> #[trigger] texts@[j]@ == segment_text(p.segments@[j]),
        decreases p.segments.len() - i,
    {
        texts.push(render_segment(&p.segments[i]));
        i = i + 1;
    }
    assert(texts@.map_values(|t: String| t@) =~= p.segments@.map_values(|s: Segment| segment_text(s)));
    proof {
        reveal_strlit(" :: ");
        reveal_strlit("::");
        assert(" :: "@ =~= seq![' ', ':', ':', ' ']);
        assert("::"@ =~= seq![':', ':']);
    }
    let body = join_with(&texts, " :: ");
    if p.leading_colon {
        let mut r = owned("::");
        push_word(&mut r, body.as_str());
        r
    } else {
        body
    }
}

/// A path as printed, with `suffix` added to the identifier of its last segment.
pub fn render_suffixed_path(p: &PathModel, suffix: &str) -> (r: String)
    requires
        p.segments@.len() > 0,
    ensures
        r@ == suffixed_path_text(*p, suffix@),
{
    let n = p.segments.len();
    let mut texts: Vec<String> = Vec::new();
    let mut i: usize = 0;
    while i + 1 < n
        invariant
            n == p.segments@.len(),
            i < n,
            texts@.len() == i,
            forall|j: int| 0 <= j < i ==> #[trigger] texts@[j]@ == segment_text(p.segments@[j]),
        decreases n - i,
    {
        texts.push(render_segment(&p.segments[i]));
        i = i + 1;
    }
    let last = &p.segments[n - 1];
    let name = concat(last.ident.as_str(), suffix);
    texts.push(render_segment_as(last, name.as_str()));
    let ghost last_s = p.segments@[n - 1];
    assert(texts@.map_values(|t: String| t@) =~= p.segments@.map_values(|s: Segment| segment_text(s)).update(
        n - 1,
        segment_text_as(last_s, last_s.ident@ + suffix@),
    ));
    proof {
        reveal_strlit(" :: ");
        reveal_strlit("::");
        assert(" :: "@ =~= seq![' ', ':', ':', ' ']);
        assert("::"@ =~= seq![':', ':']);
    }
    let body = join_with(&texts, " :: ");
    if p.leading_colon {
        let mut r = owned("::");
        push_word(&mut r, body.as_str());
        r
    } else {
        body
    }
}

pub fn render_type(t: &TypeModel) -> (r: String)
    ensures
        r@ == type_text(*t),
{
    match t {
        TypeModel::Path(p) => render_path(p),
        TypeModel::Other(s) => s.clone(),
    }
}

// ---------------------------------------------------------------------------
// Types
// ---------------------------------------------------------------------------

/// The type argument `T` of a type whose last path segment is `Option<T>`.
pub open spec fn spec_option_inner_type(t: TypeModel) -> Option<String> {
    match t {
        TypeModel::Path(p) => if p.segments@.len() == 0 {
            None
        } else {
            let last = p.segments@.last();
            if last.ident@ != "Option"@ {
                None
            } else {
                match last.arguments {
                    SegmentArgs::Angle { turbofish, args } => if args@.len() != 1 {
                        None
                    } else {
                        match args@[0] {
                            GenericArg::Type(inner) => Some(inner),
                            GenericArg::Other(_) => None,
                        }
                    },
                    _ => None,
                }
            }
        },
        TypeModel::Other(_) => None,
    }
}

/// The type argument of an `Option<T>` type, as printed.
pub fn option_inner_type(t: &TypeModel) -> (r: Option<String>)
    ensures
        r == spec_option_inner_type(*t),
{
    match t {
        TypeModel::Path(p) => {
            if p.segments.len() == 0 {
                return None;
            }
            let last = &p.segments[p.segments.len() - 1];
            if !str_eq(last.ident.as_str(), "Option") {
                return None;
            }
            match &last.arguments {
                SegmentArgs::Angle { turbofish: _, args } => {
                    if args.len() != 1 {
                        return None;
                    }
                    match &args[0] {
                        GenericArg::Type(inner) => Some(inner.clone()),
                        GenericArg::Other(_) => None,
                    }
                },
                _ => None,
            }
        },
        TypeModel::Other(_) => None,
    }
}

} // verus!
