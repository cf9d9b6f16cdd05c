//! `#[group(fallback = path)]` on an enum: each variant becomes a flag (a
//! variant without fields) or an option (a variant with one unnamed field) of
//! a clap argument group in which at most one may be given; resolving the
//! group gives the variant whose flag or option was given, or the fallback.
use vstd::prelude::*;
use vstd::string::*;
use crate::commands::{hill_names, paren_attr_spec, paren_attribute};
use crate::error::HillError;
use crate::item::{enum_text, render_enum};
use crate::naming::{heck_kebab_case, heck_snake_case, kebab_case, snake_case};
use crate::syntax::{
    lemma_kept_outside, none_named, get_ident, is_ident, spec_get_ident, named_in, named_outside, partition_attributes, path_text, render_path, render_type,
    spec_is_ident, type_text, Attribute, EnumModel, ExprModel, FieldsModel, MetaItem, MetaKind,
    NestedEntry, NestedMeta, NestedValue, ParenValue, PathModel, VariantModel,
};
use crate::text::{
    braced, brace, comma_list, join_comma_list, join_words, keep, lemma_try_fold_end,
    lemma_try_fold_step, owned, parened, push_word, quote_str, quoted, try_fold, word2, words,
};

verus! {

// ---------------------------------------------------------------------------
// `fallback = path`
// ---------------------------------------------------------------------------

/// One entry of the arguments of `group`: only `fallback = path`, once.
pub open spec fn fallback_step(st: Option<PathModel>, e: MetaItem) -> Result<Option<PathModel>, HillError> {
    match e.kind {
        MetaKind::NameValue(value) => if !spec_is_ident(e.path, "fallback"@) {
            Err(HillError::UnknownGroupParameter)
        } else if st is Some {
            Err(HillError::DuplicateParameter { name: spec_get_ident(e.path)->Some_0 })
        } else {
            match value {
                ExprModel::Path(p) => Ok(Some(p)),
                _ => Err(HillError::FallbackNotPath),
            }
        },
        _ => Err(HillError::ExpectedFallbackParameter),
    }
}

pub open spec fn fallback_fold() -> spec_fn(Option<PathModel>, MetaItem) -> Result<Option<PathModel>, HillError> {
    |st: Option<PathModel>, e: MetaItem| fallback_step(st, e)
}

/// The fallback named by the arguments of `group`, if any.
pub open spec fn spec_group_options(arguments: Result<Vec<MetaItem>, String>) -> Result<Option<PathModel>, HillError> {
    match arguments {
        Err(m) => Err(HillError::Syntax(m)),
        Ok(entries) => try_fold(entries@, None, fallback_fold()),
    }
}

/// Reads `fallback = path` from the arguments of `group`.
pub fn parse_group_options(arguments: Result<Vec<MetaItem>, String>) -> (r: Result<Option<PathModel>, HillError>)
    ensures
        r == spec_group_options(arguments),
{
    let entries = match arguments {
        Err(m) => {
            return Err(HillError::Syntax(m));
        },
        Ok(entries) => entries,
    };
    let ghost orig = entries@;
    assert(orig.len() == entries.len());
    let mut rest = entries;
    let mut fallback: Option<PathModel> = None;
    let mut i: usize = 0;
    assert(orig.skip(0) =~= orig);
    while rest.len() > 0
        invariant
            i <= orig.len() <= usize::MAX,
            arguments matches Ok(es) && es@ == orig,
            rest@ == orig.skip(i as int),
            try_fold(orig, None, fallback_fold()) == try_fold(orig.skip(i as int), fallback, fallback_fold()),
        decreases rest.len(),
    {
        let e = rest.remove(0);
        assert(e == orig[i as int]);
        proof {
            lemma_try_fold_step(orig, i as int, fallback, fallback_fold());
            assert(fallback_fold()(fallback, e) == fallback_step(fallback, e));
        }
        let MetaItem { path, kind } = e;
        let value = match kind {
            MetaKind::NameValue(v) => v,
            _ => {
                return Err(HillError::ExpectedFallbackParameter);
            },
        };
        if !is_ident(&path, "fallback") {
            return Err(HillError::UnknownGroupParameter);
        }
        if fallback.is_some() {
            let name = get_ident(&path).unwrap();
            return Err(HillError::DuplicateParameter { name });
        }
        match value {
            ExprModel::Path(p) => {
                fallback = Some(p);
            },
            _ => {
                return Err(HillError::FallbackNotPath);
            },
        }
        i = i + 1;
        assert(rest@ =~= orig.skip(i as int));
    }
    proof {
        lemma_try_fold_end(orig, fallback, fallback_fold());
    }
    Ok(fallback)
}

// ---------------------------------------------------------------------------
// The marks of a variant: `arg(...)`
// ---------------------------------------------------------------------------

/// What the expansion reads of a clap attribute of a variant: its text, and whether its
/// arguments hold an entry named `long`, or why they do not read as a list.
pub struct GroupAttr {
    pub text: Seq<char>,
    pub long: Result<bool, String>,
}

/// Whether an argument list holds an entry whose path is `long`.
pub open spec fn lists_long(items: Seq<MetaItem>) -> bool {
    exists|i: int| 0 <= i < items.len() && spec_is_ident((#[trigger] items[i]).path, "long"@)
}

pub open spec fn long_of(meta: Result<Vec<MetaItem>, String>) -> Result<bool, String> {
    match meta {
        Err(m) => Err(m),
        Ok(items) => Ok(lists_long(items@)),
    }
}

pub open spec fn group_attr_desc(a: Attribute) -> GroupAttr {
    GroupAttr { text: a.text@, long: long_of(a.meta) }
}

pub open spec fn group_attr_descs(s: Seq<Attribute>) -> Seq<GroupAttr> {
    s.map_values(|a: Attribute| group_attr_desc(a))
}

/// One nested entry of a variant's `hill` attribute: only `arg(...)`.
pub open spec fn group_entry_step(variant: String, st: Seq<GroupAttr>, e: NestedEntry) -> Result<Seq<GroupAttr>, HillError> {
    if !spec_is_ident(e.path, "arg"@) {
        Err(HillError::GroupVariantMarker { variant })
    } else {
        match e.value {
            NestedValue::Paren(pv) => Ok(st.push(GroupAttr { text: paren_attr_spec("arg"@, pv).text, long: long_of(pv.meta) })),
            _ => Err(HillError::ExpectedParens),
        }
    }
}

pub open spec fn group_entry_fold(variant: String) -> spec_fn(Seq<GroupAttr>, NestedEntry) -> Result<Seq<GroupAttr>, HillError> {
    |st: Seq<GroupAttr>, e: NestedEntry| group_entry_step(variant, st, e)
}

/// One `hill` attribute of a variant: its entries in order, then its syntax error if any.
pub open spec fn group_attr_step(variant: String, st: Seq<GroupAttr>, a: Attribute) -> Result<Seq<GroupAttr>, HillError> {
    match try_fold(a.nested.entries@, st, group_entry_fold(variant)) {
        Err(e) => Err(e),
        Ok(next) => match a.nested.error {
            Some(m) => Err(HillError::Syntax(m)),
            None => Ok(next),
        },
    }
}

pub open spec fn group_attr_fold(variant: String) -> spec_fn(Seq<GroupAttr>, Attribute) -> Result<Seq<GroupAttr>, HillError> {
    |st: Seq<GroupAttr>, a: Attribute| group_attr_step(variant, st, a)
}

/// The clap attributes of a variant, read from its `hill` attributes.
pub open spec fn spec_group_attributes(hill: Seq<Attribute>, variant: String) -> Result<Seq<GroupAttr>, HillError> {
    try_fold(hill, Seq::empty(), group_attr_fold(variant))
}

fn apply_group_attr(variant: &String, st: Vec<Attribute>, a: Attribute) -> (r: Result<Vec<Attribute>, HillError>)
    ensures
        match group_attr_step(*variant, group_attr_descs(st@), a) {
            Err(e) => r == Err::<Vec<Attribute>, HillError>(e),
            Ok(next) => r is Ok && group_attr_descs(r->Ok_0@) == next,
        },
{
    let ghost attr = a;
    let Attribute { path: _, text: _, meta: _, nested } = a;
    let NestedMeta { entries, error } = nested;
    let ghost orig = entries@;
    let ghost start = group_attr_descs(st@);
    assert(orig.len() == entries.len());
    let mut rest = entries;
    let mut state = st;
    let mut i: usize = 0;
    assert(orig.skip(0) =~= orig);
    while rest.len() > 0
        invariant
            i <= orig.len() <= usize::MAX,
            orig == attr.nested.entries@,
            attr == a,
            start == group_attr_descs(st@),
            error == attr.nested.error,
            rest@ == orig.skip(i as int),
            try_fold(orig, start, group_entry_fold(*variant)) == try_fold(
                orig.skip(i as int),
                group_attr_descs(state@),
                group_entry_fold(*variant),
            ),
        decreases rest.len(),
    {
        let e = rest.remove(0);
        assert(e == orig[i as int]);
        let ghost before = state@;
        proof {
            lemma_try_fold_step(orig, i as int, group_attr_descs(before), group_entry_fold(*variant));
            assert(group_entry_fold(*variant)(group_attr_descs(before), e) == group_entry_step(*variant, group_attr_descs(before), e));
        }
        let NestedEntry { path, value } = e;
        if !is_ident(&path, "arg") {
            return Err(HillError::GroupVariantMarker { variant: variant.clone() });
        }
        match value {
            NestedValue::Paren(pv) => {
                let a = paren_attribute("arg", pv);
                state.push(a);
                assert(group_attr_descs(state@) =~= group_attr_descs(before).push(group_attr_desc(a)));
            },
            _ => {
                return Err(HillError::ExpectedParens);
            },
        }
        i = i + 1;
        assert(rest@ =~= orig.skip(i as int));
    }
    proof {
        lemma_try_fold_end(orig, group_attr_descs(state@), group_entry_fold(*variant));
    }
    match error {
        Some(m) => Err(HillError::Syntax(m)),
        None => Ok(state),
    }
}

/// Reads the clap attributes of a variant from its `hill` attributes.
pub fn parse_attributes(hill: Vec<Attribute>, variant: &String) -> (r: Result<Vec<Attribute>, HillError>)
    ensures
        match spec_group_attributes(hill@, *variant) {
            Err(e) => r == Err::<Vec<Attribute>, HillError>(e),
            Ok(attrs) => r is Ok && group_attr_descs(r->Ok_0@) == attrs,
        },
{
    let ghost orig = hill@;
    assert(orig.len() == hill.len());
    let mut rest = hill;
    let mut state: Vec<Attribute> = Vec::new();
    assert(group_attr_descs(state@) =~= Seq::<GroupAttr>::empty());
    let mut i: usize = 0;
    assert(orig.skip(0) =~= orig);
    while rest.len() > 0
        invariant
            i <= orig.len() <= usize::MAX,
            orig == hill@,
            rest@ == orig.skip(i as int),
            try_fold(orig, Seq::empty(), group_attr_fold(*variant)) == try_fold(
                orig.skip(i as int),
                group_attr_descs(state@),
                group_attr_fold(*variant),
            ),
        decreases rest.len(),
    {
        let a = rest.remove(0);
        assert(a == orig[i as int]);
        proof {
            lemma_try_fold_step(orig, i as int, group_attr_descs(state@), group_attr_fold(*variant));
            assert(group_attr_fold(*variant)(group_attr_descs(state@), a) == group_attr_step(*variant, group_attr_descs(state@), a));
        }
        state = match apply_group_attr(variant, state, a) {
            Err(e) => {
                return Err(e);
            },
            Ok(next) => next,
        };
        i = i + 1;
        assert(rest@ =~= orig.skip(i as int));
    }
    proof {
        lemma_try_fold_end(orig, group_attr_descs(state@), group_attr_fold(*variant));
    }
    Ok(state)
}

/// Whether one of the clap attributes already gives `long`: the attributes are read in
/// order, and the first whose arguments do not read as a list stops the search.
pub open spec fn first_long(attrs: Seq<GroupAttr>) -> Result<bool, String>
    decreases attrs.len(),
{
    if attrs.len() == 0 {
        Ok(false)
    } else {
        match attrs[0].long {
            Err(m) => Err(m),
            Ok(true) => Ok(true),
            Ok(false) => first_long(attrs.drop_first()),
        }
    }
}

/// Whether an argument list holds an entry whose path is `long`.
fn list_has_long(items: &Vec<MetaItem>) -> (r: bool)
    ensures
        r == lists_long(items@),
{
    let mut i: usize = 0;
    while i < items.len()
        invariant
            i <= items.len(),
            forall|j: int| 0 <= j < i ==> !spec_is_ident((#[trigger] items@[j]).path, "long"@),
        decreases items.len() - i,
    {
        if is_ident(&items[i].path, "long") {
            return true;
        }
        i = i + 1;
    }
    false
}

/// Whether one of the clap attributes already gives `long`.
pub fn has_long(attrs: &Vec<Attribute>) -> (r: Result<bool, HillError>)
    ensures
        match first_long(group_attr_descs(attrs@)) {
            Err(m) => r == Err::<bool, HillError>(HillError::Syntax(m)),
            Ok(b) => r == Ok::<bool, HillError>(b),
        },
{
    let ghost descs = group_attr_descs(attrs@);
    let mut i: usize = 0;
    assert(descs.skip(0) =~= descs);
    while i < attrs.len()
        invariant
            i <= attrs.len(),
            descs == group_attr_descs(attrs@),
            first_long(descs) == first_long(descs.skip(i as int)),
        decreases attrs.len() - i,
    {
        assert(descs.skip(i as int).drop_first() =~= descs.skip(i + 1));
        assert(descs.skip(i as int)[0] == group_attr_desc(attrs@[i as int]));
        match &attrs[i].meta {
            Err(m) => {
                return Err(HillError::Syntax(m.clone()));
            },
            Ok(items) => {
                if list_has_long(items) {
                    return Ok(true);
                }
            },
        }
        i = i + 1;
    }
    assert(descs.skip(attrs.len() as int).len() == 0);
    Ok(false)
}

// ---------------------------------------------------------------------------
// Variants
// ---------------------------------------------------------------------------

/// What one variant contributes: its field of the arguments structure, and its branches
/// in the two `resolve` methods.
pub struct GroupPart {
    pub field: Seq<char>,
    pub required: Seq<char>,
    pub optional: Seq<char>,
}

/// The printed texts of the clap attributes, one after the other.
pub open spec fn group_attr_texts(attrs: Seq<GroupAttr>) -> Seq<char> {
    words(attrs.map_values(|a: GroupAttr| a.text))
}

/// `#[arg(long = "flag")]` when no clap attribute gives `long`, nothing otherwise.
pub open spec fn default_long_text(long: bool, flag: Seq<char>) -> Seq<char> {
    if long {
        Seq::empty()
    } else {
        "# [arg (long = "@ + quoted(flag) + ")]"@
    }
}

/// Reading one variant of the enum `enum_ident`.
pub open spec fn group_variant_outcome(v: VariantModel, enum_ident: Seq<char>, vis: Seq<char>) -> Result<GroupPart, HillError> {
    match spec_group_attributes(keep(v.attrs@, named_in(hill_names())), v.ident) {
        Err(e) => Err(e),
        Ok(attrs) => match first_long(attrs) {
            Err(m) => Err(HillError::Syntax(m)),
            Ok(long) => {
                let f = heck_snake_case(v.ident@);
                let head = word2(word2(default_long_text(long, heck_kebab_case(v.ident@)), group_attr_texts(attrs)), vis);
                let target = enum_ident + " :: "@ + v.ident@;
                match v.fields {
                    FieldsModel::Unit => Ok(
                        GroupPart {
                            field: word2(word2(word2(head, f), ":"@), "bool"@),
                            required: "if self . "@ + f + " { return Ok ("@ + target + ") ; }"@,
                            optional: "if self . "@ + f + " { return Ok (Some ("@ + target + ")) ; }"@,
                        },
                    ),
                    FieldsModel::Unnamed(fs, _) => if fs@.len() == 1 {
                        Ok(
                            GroupPart {
                                field: word2(word2(word2(head, f), ":"@), "Option < "@ + type_text(fs@[0].ty) + " >"@),
                                required: "if let Some (value) = self . "@ + f + " { return Ok ("@ + target + " (value)) ; }"@,
                                optional: "if let Some (value) = self . "@ + f + " { return Ok (Some ("@ + target
                                    + " (value))) ; }"@,
                            },
                        )
                    } else {
                        Err(HillError::GroupVariantOneField { variant: v.ident })
                    },
                    FieldsModel::Named(_, _) => Err(HillError::GroupVariantShape { variant: v.ident }),
                }
            },
        },
    }
}

/// `out` is the variant `src` without its `hill` attributes.
pub open spec fn group_variant_stripped(out: VariantModel, src: VariantModel) -> bool {
    &&& out.attrs@ == keep(src.attrs@, named_outside(hill_names()))
    &&& out.ident == src.ident
    &&& out.fields == src.fields
    &&& out.discriminant == src.discriminant
}

/// The printed pieces of one variant.
pub struct GroupTexts {
    pub field: String,
    pub required: String,
    pub optional: String,
}

pub open spec fn group_texts_view(t: GroupTexts) -> GroupPart {
    GroupPart { field: t.field@, required: t.required@, optional: t.optional@ }
}

/// Reads one variant: its printed pieces and the variant without `hill` attributes.
pub fn group_variant(v: VariantModel, enum_ident: &String, vis: &String) -> (r: Result<(GroupTexts, VariantModel), HillError>)
    ensures
        match group_variant_outcome(v, enum_ident@, vis@) {
            Err(e) => r == Err::<(GroupTexts, VariantModel), HillError>(e),
            Ok(part) => r is Ok && group_texts_view(r->Ok_0.0) == part && group_variant_stripped(r->Ok_0.1, v),
        },
{
    let VariantModel { attrs, ident, fields, discriminant } = v;
    let (hill, kept) = partition_attributes(attrs, &["hill"]);
    assert(["hill"]@ =~= hill_names());
    let clap_attrs = match parse_attributes(hill, &ident) {
        Err(e) => {
            return Err(e);
        },
        Ok(a) => a,
    };
    let long = match has_long(&clap_attrs) {
        Err(e) => {
            return Err(e);
        },
        Ok(b) => b,
    };
    let f = snake_case(ident.as_str());
    let flag = kebab_case(ident.as_str());
    let mut head = if long {
        String::new()
    } else {
        let q = quote_str(flag.as_str());
        let mut d = owned("# [arg (long = ");
        d.append(q.as_str());
        d.append(")]");
        d
    };
    proof {
        reveal_strlit(":");
        reveal_strlit("bool");
        assert(group_attr_descs(clap_attrs@).map_values(|a: GroupAttr| a.text)
            =~= clap_attrs@.map_values(|a: Attribute| a.text@));
    }
    let attr_texts = crate::item::render_attrs(&clap_attrs);
    push_word(&mut head, attr_texts.as_str());
    push_word(&mut head, vis.as_str());
    let mut target = enum_ident.clone();
    target.append(" :: ");
    target.append(ident.as_str());
    let mut field = head;
    push_word(&mut field, f.as_str());
    push_word(&mut field, ":");
    let texts = match &fields {
        FieldsModel::Unit => {
            push_word(&mut field, "bool");
            let required = crate::text::concat3("if self . ", f.as_str(), " { return Ok (");
            let mut required = required;
            required.append(target.as_str());
            required.append(") ; }");
            let mut optional = crate::text::concat3("if self . ", f.as_str(), " { return Ok (Some (");
            optional.append(target.as_str());
            optional.append(")) ; }");
            GroupTexts { field, required, optional }
        },
        FieldsModel::Unnamed(fs, _) => {
            if fs.len() != 1 {
                return Err(HillError::GroupVariantOneField { variant: ident });
            }
            let ty = render_type(&fs[0].ty);
            let wrapped = crate::text::concat3("Option < ", ty.as_str(), " >");
            push_word(&mut field, wrapped.as_str());
            let mut required = crate::text::concat3("if let Some (value) = self . ", f.as_str(), " { return Ok (");
            required.append(target.as_str());
            required.append(" (value)) ; }");
            let mut optional = crate::text::concat3("if let Some (value) = self . ", f.as_str(), " { return Ok (Some (");
            optional.append(target.as_str());
            optional.append(" (value))) ; }");
            GroupTexts { field, required, optional }
        },
        FieldsModel::Named(_, _) => {
            return Err(HillError::GroupVariantShape { variant: ident });
        },
    };
    let variant = VariantModel { attrs: kept, ident, fields, discriminant };
    Ok((texts, variant))
}

// ---------------------------------------------------------------------------
// The expansion
// ---------------------------------------------------------------------------

pub open spec fn group_variants_step(enum_ident: Seq<char>, vis: Seq<char>, acc: Seq<GroupPart>, v: VariantModel) -> Result<Seq<GroupPart>, HillError> {
    match group_variant_outcome(v, enum_ident, vis) {
        Err(e) => Err(e),
        Ok(p) => Ok(acc.push(p)),
    }
}

pub open spec fn group_variants_fold(enum_ident: Seq<char>, vis: Seq<char>) -> spec_fn(Seq<GroupPart>, VariantModel) -> Result<Seq<GroupPart>, HillError> {
    |acc: Seq<GroupPart>, v: VariantModel| group_variants_step(enum_ident, vis, acc, v)
}

/// What `group` reads: the enum, its fallback and the pieces of each variant.
pub struct GroupPlan {
    pub item: EnumModel,
    pub fallback: PathModel,
    pub parts: Seq<GroupPart>,
}

/// What `#[group(fallback = ...)]` reads from its enum and its arguments, or the first error met.
pub open spec fn spec_group(arguments: Result<Vec<MetaItem>, String>, input: Result<EnumModel, String>) -> Result<GroupPlan, HillError> {
    match input {
        Err(m) => Err(HillError::Syntax(m)),
        Ok(item) => match spec_group_options(arguments) {
            Err(e) => Err(e),
            Ok(None) => Err(HillError::MissingFallback { item: item.ident }),
            Ok(Some(fallback)) => match try_fold(item.variants@, Seq::empty(), group_variants_fold(item.ident@, item.vis@)) {
                Err(e) => Err(e),
                Ok(parts) => Ok(GroupPlan { item, fallback, parts }),
            },
        },
    }
}

/// `out` is the enum `src` with `hill` attributes removed from its variants.
pub open spec fn group_enum_stripped(out: EnumModel, src: EnumModel) -> bool {
    &&& out.attrs == src.attrs
    &&& out.trailing_comma == src.trailing_comma
    &&& out.vis == src.vis
    &&& out.ident == src.ident
    &&& out.generics == src.generics
    &&& out.variants@.len() == src.variants@.len()
    &&& forall|i: int| 0 <= i < src.variants@.len() ==> group_variant_stripped(#[trigger] out.variants@[i], src.variants@[i])
}

/// The enum that `group` writes back carries no `hill` attribute on its variants.
pub proof fn group_leaves_no_hill_marks(c: EnumModel, src: EnumModel)
    requires
        group_enum_stripped(c, src),
    ensures
        forall|i: int| 0 <= i < c.variants@.len() ==> none_named((#[trigger] c.variants@[i]).attrs@, "hill"@),
{
    assert(hill_names()[0]@ == "hill"@);
    assert forall|i: int| 0 <= i < c.variants@.len() implies none_named((#[trigger] c.variants@[i]).attrs@, "hill"@) by {
        assert(group_variant_stripped(c.variants@[i], src.variants@[i]));
        lemma_kept_outside(src.variants@[i].attrs@, hill_names(), 0);
    }
}

/// The code that `group` writes after the enum: the arguments structure and the two
/// `Resolve` impls, one giving the enum (or the fallback) and one giving an optional enum.
pub open spec fn group_code_text(plan: GroupPlan) -> Seq<char> {
    let e = plan.item.ident@;
    let args = e + "Args"@;
    let strct = word2(
        word2(word2("# [derive (clap :: Args)] # [group (multiple = false)]"@, plan.item.vis@), "struct "@ + args),
        braced(comma_list(plan.parts.map_values(|p: GroupPart| p.field))),
    );
    let required = "impl :: command_hills :: Resolve < "@ + e + " > for "@ + args + " "@ + braced(
        "fn resolve (self) -> :: command_hills :: Result < "@ + e + " > "@ + braced(
            word2(words(plan.parts.map_values(|p: GroupPart| p.required)), path_text(plan.fallback) + " ()"@),
        ),
    );
    let optional = "impl :: command_hills :: Resolve < Option < "@ + e + " >> for "@ + args + " "@ + braced(
        "fn resolve (self) -> :: command_hills :: Result < Option < "@ + e + " >> "@ + braced(
            word2(words(plan.parts.map_values(|p: GroupPart| p.optional)), "Ok (None)"@),
        ),
    );
    word2(word2(strct, required), optional)
}

/// `text` is the expansion of `group` for `plan`.
pub open spec fn group_expansion_of(text: Seq<char>, plan: GroupPlan) -> bool {
    exists|c: EnumModel| group_enum_stripped(c, plan.item) && text == word2(enum_text(c), group_code_text(plan))
}

/// `#[group(fallback = path)]`: expands an enum into a group of mutually exclusive arguments.
pub fn expand(arguments: Result<Vec<MetaItem>, String>, input: Result<EnumModel, String>) -> (r: Result<String, HillError>)
    ensures
        match spec_group(arguments, input) {
            Err(e) => r == Err::<String, HillError>(e),
            Ok(plan) => r is Ok && group_expansion_of(r->Ok_0@, plan),
        },
{
    let ghost args0 = arguments;
    let ghost input0 = input;
    let item = match input {
        Err(m) => {
            return Err(HillError::Syntax(m));
        },
        Ok(item) => item,
    };
    let fallback = match parse_group_options(arguments) {
        Err(e) => {
            return Err(e);
        },
        Ok(None) => {
            return Err(HillError::MissingFallback { item: item.ident });
        },
        Ok(Some(p)) => p,
    };
    let ghost src = item;
    let EnumModel { attrs, vis, ident, generics, variants, trailing_comma } = item;
    let ghost orig = variants@;
    assert(orig.len() == variants.len());
    let mut rest = variants;
    let mut texts: Vec<GroupTexts> = Vec::new();
    let mut cleaned: Vec<VariantModel> = Vec::new();
    let mut i: usize = 0;
    assert(orig.skip(0) =~= orig);
    assert(texts@.map_values(|t: GroupTexts| group_texts_view(t)) =~= Seq::<GroupPart>::empty());
    while rest.len() > 0
        invariant
            i <= orig.len() <= usize::MAX,
            orig == src.variants@,
            ident == src.ident,
            vis == src.vis,
            args0 == arguments,
            input0 == input,
            input0 == Ok::<EnumModel, String>(src),
            spec_group_options(args0) == Ok::<Option<PathModel>, HillError>(Some(fallback)),
            rest@ == orig.skip(i as int),
            cleaned@.len() == i,
            forall|j: int| 0 <= j < i ==> group_variant_stripped(#[trigger] cleaned@[j], orig[j]),
            try_fold(orig, Seq::empty(), group_variants_fold(ident@, vis@)) == try_fold(
                orig.skip(i as int),
                texts@.map_values(|t: GroupTexts| group_texts_view(t)),
                group_variants_fold(ident@, vis@),
            ),
        decreases rest.len(),
    {
        let v = rest.remove(0);
        assert(v == orig[i as int]);
        let ghost acc = texts@.map_values(|t: GroupTexts| group_texts_view(t));
        proof {
            lemma_try_fold_step(orig, i as int, acc, group_variants_fold(ident@, vis@));
            assert(group_variants_fold(ident@, vis@)(acc, v) == group_variants_step(ident@, vis@, acc, v));
        }
        match group_variant(v, &ident, &vis) {
            Err(e) => {
                return Err(e);
            },
            Ok((t, c)) => {
                texts.push(t);
                cleaned.push(c);
                assert(texts@.map_values(|t: GroupTexts| group_texts_view(t)) =~= acc.push(group_texts_view(t)));
            },
        }
        i = i + 1;
        assert(rest@ =~= orig.skip(i as int));
    }
    proof {
        lemma_try_fold_end(orig, texts@.map_values(|t: GroupTexts| group_texts_view(t)), group_variants_fold(ident@, vis@));
    }
    let ghost parts = texts@.map_values(|t: GroupTexts| group_texts_view(t));
    let ghost plan = GroupPlan { item: src, fallback, parts };
    assert(spec_group(args0, input0) == Ok::<GroupPlan, HillError>(plan));
    let mut fields: Vec<String> = Vec::new();
    let mut required: Vec<String> = Vec::new();
    let mut optional: Vec<String> = Vec::new();
    let mut k: usize = 0;
    while k < texts.len()
        invariant
            k <= texts.len(),
            parts == texts@.map_values(|t: GroupTexts| group_texts_view(t)),
            fields@.len() == k,
            required@.len() == k,
            optional@.len() == k,
            forall|j: int| 0 <= j < k ==> #[trigger] fields@[j]@ == parts[j].field,
            forall|j: int| 0 <= j < k ==> #[trigger] required@[j]@ == parts[j].required,
            forall|j: int| 0 <= j < k ==> #[trigger] optional@[j]@ == parts[j].optional,
        decreases texts.len() - k,
    {
        fields.push(texts[k].field.clone());
        required.push(texts[k].required.clone());
        optional.push(texts[k].optional.clone());
        k = k + 1;
    }
    assert(fields@.map_values(|p: String| p@) =~= parts.map_values(|p: GroupPart| p.field));
    assert(required@.map_values(|p: String| p@) =~= parts.map_values(|p: GroupPart| p.required));
    assert(optional@.map_values(|p: String| p@) =~= parts.map_values(|p: GroupPart| p.optional));
    let item = EnumModel { attrs, vis, ident, generics, variants: cleaned, trailing_comma };
    assert(group_enum_stripped(item, src));
    let mut out = render_enum(&item);
    proof {
        reveal_strlit("# [derive (clap :: Args)] # [group (multiple = false)]");
        reveal_strlit("Ok (None)");
    }
    let mut args_ident = item.ident.clone();
    args_ident.append("Args");
    let mut strct = owned("# [derive (clap :: Args)] # [group (multiple = false)]");
    push_word(&mut strct, item.vis.as_str());
    let head = crate::text::concat("struct ", args_ident.as_str());
    push_word(&mut strct, head.as_str());
    let field_list = join_comma_list(&fields);
    let field_block = brace(field_list.as_str());
    push_word(&mut strct, field_block.as_str());
    // The impl that gives the enum.
    let mut req_body = join_words(&required);
    let fallback_text = render_path(&fallback);
    let call = crate::text::concat(fallback_text.as_str(), " ()");
    push_word(&mut req_body, call.as_str());
    let req_block = brace(req_body.as_str());
    let mut req_fn = crate::text::concat3("fn resolve (self) -> :: command_hills :: Result < ", item.ident.as_str(), " > ");
    req_fn.append(req_block.as_str());
    let req_fn_block = brace(req_fn.as_str());
    let mut req_impl = crate::text::concat3("impl :: command_hills :: Resolve < ", item.ident.as_str(), " > for ");
    req_impl.append(args_ident.as_str());
    req_impl.append(" ");
    req_impl.append(req_fn_block.as_str());
    // The impl that gives an optional enum.
    let mut opt_body = join_words(&optional);
    push_word(&mut opt_body, "Ok (None)");
    let opt_block = brace(opt_body.as_str());
    let mut opt_fn = crate::text::concat3("fn resolve (self) -> :: command_hills :: Result < Option < ", item.ident.as_str(), " >> ");
    opt_fn.append(opt_block.as_str());
    let opt_fn_block = brace(opt_fn.as_str());
    let mut opt_impl = crate::text::concat3("impl :: command_hills :: Resolve < Option < ", item.ident.as_str(), " >> for ");
    opt_impl.append(args_ident.as_str());
    opt_impl.append(" ");
    opt_impl.append(opt_fn_block.as_str());
    let mut code = strct;
    push_word(&mut code, req_impl.as_str());
    push_word(&mut code, opt_impl.as_str());
    assert(code@ == group_code_text(plan));
    push_word(&mut out, code.as_str());
    assert(group_expansion_of(out@, plan));
    Ok(out)
}

} // verus!
