//! Printing items back out, and removing the attributes that only the
//! macros understand.
use vstd::prelude::*;
use vstd::string::*;
use crate::syntax::{
    partition_attributes, named_outside, render_type, type_text, Attribute, EnumModel, FieldModel,
    FieldsModel, GenericsModel, ItemModel, StructModel, UnionModel, VariantModel,
};
use crate::text::{
    braced, brace, comma_list, join_comma_list, join_punctuated, punctuated, join_words, keep, paren, parened, push_word, word2,
    words,
};

verus! {

/// Attributes as printed, one after the other.
pub open spec fn attrs_text(attrs: Seq<Attribute>) -> Seq<char> {
    words(attrs.map_values(|a: Attribute| a.text@))
}

/// Attributes as printed, one after the other.
pub fn render_attrs(attrs: &Vec<Attribute>) -> (r: String)
    ensures
        r@ == attrs_text(attrs@),
{
    let mut texts: Vec<String> = Vec::new();
    let mut i: usize = 0;
    while i < attrs.len()
        invariant
            i <= attrs.len(),
            texts@.len() == i,
            forall|j: int| 0 <= j < i ==> #[trigger] texts@[j]@ == attrs@[j].text@,
        decreases attrs.len() - i,
    {
        texts.push(attrs[i].text.clone());
        i = i + 1;
    }
    assert(texts@.map_values(|p: String| p@) =~= attrs@.map_values(|a: Attribute| a.text@));
    join_words(&texts)
}

/// A field as printed: `attrs vis name : Type`, or `attrs vis Type` when unnamed.
pub open spec fn field_model_text(f: FieldModel) -> Seq<char> {
    let head = word2(attrs_text(f.attrs@), f.vis@);
    match f.ident {
        Some(name) => word2(word2(word2(head, name@), ":"@), type_text(f.ty)),
        None => word2(head, type_text(f.ty)),
    }
}

/// The fields as a list, separated by commas, with a comma after the last one when
/// `trailing` holds.
pub open spec fn field_list_text(fs: Seq<FieldModel>, trailing: bool) -> Seq<char> {
    punctuated(fs.map_values(|f: FieldModel| field_model_text(f)), trailing)
}

/// The fields of an enum variant as printed.
pub open spec fn variant_fields_text(fields: FieldsModel) -> Seq<char> {
    match fields {
        FieldsModel::Named(fs, t) => braced(field_list_text(fs@, t)),
        FieldsModel::Unnamed(fs, t) => parened(field_list_text(fs@, t)),
        FieldsModel::Unit => Seq::empty(),
    }
}

/// An enum variant as printed.
pub open spec fn variant_text(v: VariantModel) -> Seq<char> {
    let body = word2(word2(attrs_text(v.attrs@), v.ident@), variant_fields_text(v.fields));
    match v.discriminant {
        Some(d) => word2(word2(body, "="@), d@),
        None => body,
    }
}

/// The head shared by structs, enums and unions: attributes, visibility, keyword, name, parameters.
pub open spec fn item_head(attrs: Seq<Attribute>, vis: String, keyword: Seq<char>, ident: String, generics: GenericsModel) -> Seq<char> {
    word2(word2(word2(word2(attrs_text(attrs), vis@), keyword), ident@), generics.params@)
}

pub open spec fn struct_text(s: StructModel) -> Seq<char> {
    let head = item_head(s.attrs@, s.vis, "struct"@, s.ident, s.generics);
    match s.fields {
        FieldsModel::Named(fs, t) => word2(word2(head, s.generics.where_clause@), braced(field_list_text(fs@, t))),
        FieldsModel::Unnamed(fs, t) => word2(
            word2(word2(head, parened(field_list_text(fs@, t))), s.generics.where_clause@),
            ";"@,
        ),
        FieldsModel::Unit => word2(word2(head, s.generics.where_clause@), ";"@),
    }
}

pub open spec fn enum_text(e: EnumModel) -> Seq<char> {
    let head = item_head(e.attrs@, e.vis, "enum"@, e.ident, e.generics);
    word2(
        word2(head, e.generics.where_clause@),
        braced(punctuated(e.variants@.map_values(|v: VariantModel| variant_text(v)), e.trailing_comma)),
    )
}

pub open spec fn union_text(u: UnionModel) -> Seq<char> {
    let head = item_head(u.attrs@, u.vis, "union"@, u.ident, u.generics);
    word2(word2(head, u.generics.where_clause@), braced(field_list_text(u.fields@, u.trailing_comma)))
}

/// An item as printed.
pub open spec fn item_text(item: ItemModel) -> Seq<char> {
    match item {
        ItemModel::Struct(s) => struct_text(s),
        ItemModel::Enum(e) => enum_text(e),
        ItemModel::Union(u) => union_text(u),
        ItemModel::Other(t) => t@,
    }
}

pub fn render_field_model(f: &FieldModel) -> (r: String)
    ensures
        r@ == field_model_text(*f),
{
    let mut s = render_attrs(&f.attrs);
    push_word(&mut s, f.vis.as_str());
    let ty = render_type(&f.ty);
    match &f.ident {
        Some(name) => {
            push_word(&mut s, name.as_str());
            push_word(&mut s, ":");
            push_word(&mut s, ty.as_str());
        },
        None => {
            push_word(&mut s, ty.as_str());
        },
    }
    s
}

pub fn render_field_list(fs: &Vec<FieldModel>, trailing: bool) -> (r: String)
    ensures
        r@ == field_list_text(fs@, trailing),
{
    let mut texts: Vec<String> = Vec::new();
    let mut i: usize = 0;
    while i < fs.len()
        invariant
            i <= fs.len(),
            texts@.len() == i,
            forall|j: int| 0 <= j < i ==> #[trigger] texts@[j]@ == field_model_text(fs@[j]),
        decreases fs.len() - i,
    {
        texts.push(render_field_model(&fs[i]));
        i = i + 1;
    }
    assert(texts@.map_values(|p: String| p@) =~= fs@.map_values(|f: FieldModel| field_model_text(f)));
    join_punctuated(&texts, trailing)
}

pub fn render_variant_fields(fields: &FieldsModel) -> (r: String)
    ensures
        r@ == variant_fields_text(*fields),
{
    match fields {
        FieldsModel::Named(fs, t) => {
            let l = render_field_list(fs, *t);
            brace(l.as_str())
        },
        FieldsModel::Unnamed(fs, t) => {
            let l = render_field_list(fs, *t);
            paren(l.as_str())
        },
        FieldsModel::Unit => String::new(),
    }
}

pub fn render_variant(v: &VariantModel) -> (r: String)
    ensures
        r@ == variant_text(*v),
{
    let mut s = render_attrs(&v.attrs);
    push_word(&mut s, v.ident.as_str());
    let f = render_variant_fields(&v.fields);
    push_word(&mut s, f.as_str());
    match &v.discriminant {
        Some(d) => {
            push_word(&mut s, "=");
            push_word(&mut s, d.as_str());
        },
        None => {},
    }
    s
}

fn render_item_head(attrs: &Vec<Attribute>, vis: &String, keyword: &str, ident: &String, generics: &GenericsModel) -> (r: String)
    ensures
        r@ == item_head(attrs@, *vis, keyword@, *ident, *generics),
{
    let mut s = render_attrs(attrs);
    push_word(&mut s, vis.as_str());
    push_word(&mut s, keyword);
    push_word(&mut s, ident.as_str());
    push_word(&mut s, generics.params.as_str());
    s
}

pub fn render_struct(st: &StructModel) -> (r: String)
    ensures
        r@ == struct_text(*st),
{
    let mut s = render_item_head(&st.attrs, &st.vis, "struct", &st.ident, &st.generics);
    match &st.fields {
        FieldsModel::Named(fs, t) => {
            push_word(&mut s, st.generics.where_clause.as_str());
            let l = render_field_list(fs, *t);
            let b = brace(l.as_str());
            push_word(&mut s, b.as_str());
        },
        FieldsModel::Unnamed(fs, t) => {
            let l = render_field_list(fs, *t);
            let p = paren(l.as_str());
            push_word(&mut s, p.as_str());
            push_word(&mut s, st.generics.where_clause.as_str());
            push_word(&mut s, ";");
        },
        FieldsModel::Unit => {
            push_word(&mut s, st.generics.where_clause.as_str());
            push_word(&mut s, ";");
        },
    }
    s
}

pub fn render_enum(e: &EnumModel) -> (r: String)
    ensures
        r@ == enum_text(*e),
{
    let mut s = render_item_head(&e.attrs, &e.vis, "enum", &e.ident, &e.generics);
    push_word(&mut s, e.generics.where_clause.as_str());
    let mut texts: Vec<String> = Vec::new();
    let mut i: usize = 0;
    while i < e.variants.len()
        invariant
            i <= e.variants.len(),
            texts@.len() == i,
            forall|j: int| 0 <= j < i ==> #[trigger] texts@[j]@ == variant_text(e.variants@[j]),
        decreases e.variants.len() - i,
    {
        texts.push(render_variant(&e.variants[i]));
        i = i + 1;
    }
    assert(texts@.map_values(|p: String| p@) =~= e.variants@.map_values(|v: VariantModel| variant_text(v)));
    let l = join_punctuated(&texts, e.trailing_comma);
    let b = brace(l.as_str());
    push_word(&mut s, b.as_str());
    s
}

pub fn render_union(u: &UnionModel) -> (r: String)
    ensures
        r@ == union_text(*u),
{
    let mut s = render_item_head(&u.attrs, &u.vis, "union", &u.ident, &u.generics);
    push_word(&mut s, u.generics.where_clause.as_str());
    let l = render_field_list(&u.fields, u.trailing_comma);
    let b = brace(l.as_str());
    push_word(&mut s, b.as_str());
    s
}

/// Prints an item.
pub fn render_item(item: &ItemModel) -> (r: String)
    ensures
        r@ == item_text(*item),
{
    match item {
        ItemModel::Struct(s) => render_struct(s),
        ItemModel::Enum(e) => render_enum(e),
        ItemModel::Union(u) => render_union(u),
        ItemModel::Other(t) => t.clone(),
    }
}

} // verus!
