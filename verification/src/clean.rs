//! Giving an item back without the attributes that only the macros and clap
//! understand, so that a refused declaration still leaves its type defined.
use vstd::prelude::*;
use crate::item::{item_text, render_item};
use crate::syntax::{
    fields_of, lemma_kept_outside, none_named, named_outside, partition_attributes, spec_attr_is_any, Attribute, EnumModel, FieldModel, FieldsModel, ItemModel,
    StructModel, UnionModel, VariantModel,
};
use crate::text::keep;

verus! {

/// The attribute names that are removed from an item whose expansion failed.
pub open spec fn clean_names() -> Seq<&'static str> {
    seq!["hill", "arg", "command", "group", "value"]
}

/// The attributes that stay: those whose path is none of the removed names.
pub open spec fn cleaned_attrs(attrs: Seq<Attribute>) -> Seq<Attribute> {
    keep(attrs, named_outside(clean_names()))
}

pub open spec fn field_cleaned(out: FieldModel, src: FieldModel) -> bool {
    &&& out.attrs@ == cleaned_attrs(src.attrs@)
    &&& out.vis == src.vis
    &&& out.ident == src.ident
    &&& out.ty == src.ty
}

pub open spec fn field_seq_cleaned(out: Seq<FieldModel>, src: Seq<FieldModel>) -> bool {
    &&& out.len() == src.len()
    &&& forall|i: int| 0 <= i < src.len() ==> field_cleaned(#[trigger] out[i], src[i])
}

pub open spec fn fields_cleaned(out: FieldsModel, src: FieldsModel) -> bool {
    match (out, src) {
        (FieldsModel::Named(a, ta), FieldsModel::Named(b, tb)) => ta == tb && field_seq_cleaned(a@, b@),
        (FieldsModel::Unnamed(a, ta), FieldsModel::Unnamed(b, tb)) => ta == tb && field_seq_cleaned(a@, b@),
        (FieldsModel::Unit, FieldsModel::Unit) => true,
        _ => false,
    }
}

pub open spec fn variant_cleaned(out: VariantModel, src: VariantModel) -> bool {
    &&& out.attrs@ == cleaned_attrs(src.attrs@)
    &&& out.ident == src.ident
    &&& fields_cleaned(out.fields, src.fields)
    &&& out.discriminant == src.discriminant
}

/// `out` is `src` with the removed attributes taken off the item, its variants and its fields.
pub open spec fn item_cleaned(out: ItemModel, src: ItemModel) -> bool {
    match (out, src) {
        (ItemModel::Struct(a), ItemModel::Struct(b)) => {
            &&& a.attrs@ == cleaned_attrs(b.attrs@)
            &&& a.vis == b.vis
            &&& a.ident == b.ident
            &&& a.generics == b.generics
            &&& fields_cleaned(a.fields, b.fields)
        },
        (ItemModel::Enum(a), ItemModel::Enum(b)) => {
            &&& a.attrs@ == cleaned_attrs(b.attrs@)
            &&& a.vis == b.vis
            &&& a.ident == b.ident
            &&& a.generics == b.generics
            &&& a.trailing_comma == b.trailing_comma
            &&& a.variants@.len() == b.variants@.len()
            &&& forall|i: int| 0 <= i < b.variants@.len() ==> variant_cleaned(#[trigger] a.variants@[i], b.variants@[i])
        },
        (ItemModel::Union(a), ItemModel::Union(b)) => {
            &&& a.attrs@ == cleaned_attrs(b.attrs@)
            &&& a.vis == b.vis
            &&& a.ident == b.ident
            &&& a.generics == b.generics
            &&& a.trailing_comma == b.trailing_comma
            &&& field_seq_cleaned(a.fields@, b.fields@)
        },
        (ItemModel::Other(a), ItemModel::Other(b)) => a == b,
        _ => false,
    }
}

/// Removes the `hill`, `arg`, `command`, `group` and `value` attributes, keeping the others in order.
pub fn clean_attributes(attrs: Vec<Attribute>) -> (r: Vec<Attribute>)
    ensures
        r@ == cleaned_attrs(attrs@),
{
    let (_, kept) = partition_attributes(attrs, &["hill", "arg", "command", "group", "value"]);
    assert(["hill", "arg", "command", "group", "value"]@ =~= clean_names());
    kept
}

fn clean_field_seq(fields: Vec<FieldModel>) -> (r: Vec<FieldModel>)
    ensures
        field_seq_cleaned(r@, fields@),
{
    let ghost orig = fields@;
    assert(orig.len() == fields.len());
    let mut rest = fields;
    let mut out: Vec<FieldModel> = Vec::new();
    let mut i: usize = 0;
    while rest.len() > 0
        invariant
            i <= orig.len() <= usize::MAX,
            orig == fields@,
            rest@ == orig.skip(i as int),
            out@.len() == i,
            forall|j: int| 0 <= j < i ==> field_cleaned(#[trigger] out@[j], orig[j]),
        decreases rest.len(),
    {
        let f = rest.remove(0);
        assert(f == orig[i as int]);
        let FieldModel { attrs, vis, ident, ty } = f;
        out.push(FieldModel { attrs: clean_attributes(attrs), vis, ident, ty });
        i = i + 1;
        assert(rest@ =~= orig.skip(i as int));
    }
    out
}

/// Removes the attributes from every field.
pub fn clean_fields(fields: FieldsModel) -> (r: FieldsModel)
    ensures
        fields_cleaned(r, fields),
{
    match fields {
        FieldsModel::Named(fs, t) => FieldsModel::Named(clean_field_seq(fs), t),
        FieldsModel::Unnamed(fs, t) => FieldsModel::Unnamed(clean_field_seq(fs), t),
        FieldsModel::Unit => FieldsModel::Unit,
    }
}

fn clean_variants(variants: Vec<VariantModel>) -> (r: Vec<VariantModel>)
    ensures
        r@.len() == variants@.len(),
        forall|i: int| 0 <= i < variants@.len() ==> variant_cleaned(#[trigger] r@[i], variants@[i]),
{
    let ghost orig = variants@;
    assert(orig.len() == variants.len());
    let mut rest = variants;
    let mut out: Vec<VariantModel> = Vec::new();
    let mut i: usize = 0;
    while rest.len() > 0
        invariant
            i <= orig.len() <= usize::MAX,
            orig == variants@,
            rest@ == orig.skip(i as int),
            out@.len() == i,
            forall|j: int| 0 <= j < i ==> variant_cleaned(#[trigger] out@[j], orig[j]),
        decreases rest.len(),
    {
        let v = rest.remove(0);
        assert(v == orig[i as int]);
        let VariantModel { attrs, ident, fields, discriminant } = v;
        out.push(VariantModel { attrs: clean_attributes(attrs), ident, fields: clean_fields(fields), discriminant });
        i = i + 1;
        assert(rest@ =~= orig.skip(i as int));
    }
    out
}

/// Removes the macros' attributes from an enum, a struct or a union; other items are kept as they are.
pub fn clean_item(item: ItemModel) -> (r: ItemModel)
    ensures
        item_cleaned(r, item),
{
    match item {
        ItemModel::Enum(e) => {
            let EnumModel { attrs, vis, ident, generics, variants, trailing_comma } = e;
            ItemModel::Enum(
                EnumModel { attrs: clean_attributes(attrs), vis, ident, generics, variants: clean_variants(variants), trailing_comma },
            )
        },
        ItemModel::Struct(s) => {
            let StructModel { attrs, vis, ident, generics, fields } = s;
            ItemModel::Struct(StructModel { attrs: clean_attributes(attrs), vis, ident, generics, fields: clean_fields(fields) })
        },
        ItemModel::Union(u) => {
            let UnionModel { attrs, vis, ident, generics, fields, trailing_comma } = u;
            ItemModel::Union(
                UnionModel { attrs: clean_attributes(attrs), vis, ident, generics, fields: clean_field_seq(fields), trailing_comma },
            )
        },
        ItemModel::Other(t) => ItemModel::Other(t),
    }
}

/// Whether none of the attributes of the fields is named `name`.
pub open spec fn fields_none_named(fs: Seq<FieldModel>, name: Seq<char>) -> bool {
    forall|k: int| 0 <= k < fs.len() ==> none_named((#[trigger] fs[k]).attrs@, name)
}

proof fn lemma_fields_cleaned(out: Seq<FieldModel>, src: Seq<FieldModel>, k: int)
    requires
        field_seq_cleaned(out, src),
        0 <= k < clean_names().len(),
    ensures
        fields_none_named(out, clean_names()[k]@),
{
    assert forall|j: int| 0 <= j < out.len() implies none_named((#[trigger] out[j]).attrs@, clean_names()[k]@) by {
        assert(field_cleaned(out[j], src[j]));
        lemma_kept_outside(src[j].attrs@, clean_names(), k);
    }
}

/// An item given back after a refusal carries none of the removed attributes (`hill`,
/// `arg`, `command`, `group`, `value`): not on itself, its variants or its fields.
pub proof fn cleaned_item_has_no_macro_attributes(c: ItemModel, src: ItemModel, k: int)
    requires
        item_cleaned(c, src),
        0 <= k < clean_names().len(),
    ensures
        match c {
            ItemModel::Struct(a) => none_named(a.attrs@, clean_names()[k]@) && fields_none_named(fields_of(a.fields), clean_names()[k]@),
            ItemModel::Enum(a) => none_named(a.attrs@, clean_names()[k]@) && forall|i: int| 0 <= i < a.variants@.len() ==> {
                &&& none_named((#[trigger] a.variants@[i]).attrs@, clean_names()[k]@)
                &&& fields_none_named(fields_of(a.variants@[i].fields), clean_names()[k]@)
            },
            ItemModel::Union(a) => none_named(a.attrs@, clean_names()[k]@) && fields_none_named(a.fields@, clean_names()[k]@),
            ItemModel::Other(_) => true,
        },
{
    match (c, src) {
        (ItemModel::Struct(a), ItemModel::Struct(b)) => {
            lemma_kept_outside(b.attrs@, clean_names(), k);
            match (a.fields, b.fields) {
                (FieldsModel::Named(x, _), FieldsModel::Named(y, _)) => lemma_fields_cleaned(x@, y@, k),
                (FieldsModel::Unnamed(x, _), FieldsModel::Unnamed(y, _)) => lemma_fields_cleaned(x@, y@, k),
                _ => {},
            }
        },
        (ItemModel::Enum(a), ItemModel::Enum(b)) => {
            lemma_kept_outside(b.attrs@, clean_names(), k);
            assert forall|i: int| 0 <= i < a.variants@.len() implies {
                &&& none_named((#[trigger] a.variants@[i]).attrs@, clean_names()[k]@)
                &&& fields_none_named(fields_of(a.variants@[i].fields), clean_names()[k]@)
            } by {
                assert(variant_cleaned(a.variants@[i], b.variants@[i]));
                lemma_kept_outside(b.variants@[i].attrs@, clean_names(), k);
                match (a.variants@[i].fields, b.variants@[i].fields) {
                    (FieldsModel::Named(x, _), FieldsModel::Named(y, _)) => lemma_fields_cleaned(x@, y@, k),
                    (FieldsModel::Unnamed(x, _), FieldsModel::Unnamed(y, _)) => lemma_fields_cleaned(x@, y@, k),
                    _ => {},
                }
            }
        },
        (ItemModel::Union(a), ItemModel::Union(b)) => {
            lemma_kept_outside(b.attrs@, clean_names(), k);
            lemma_fields_cleaned(a.fields@, b.fields@, k);
        },
        _ => {},
    }
}

/// Cleaning keeps every attribute whose path is none of `hill`, `arg`, `command`, `group`
/// and `value` (a `derive`, a doc comment, any other attribute), in its order, and no other.
pub proof fn cleaning_keeps_other_attributes(attrs: Seq<Attribute>)
    ensures
        cleaned_attrs(attrs) == attrs.filter(|a: Attribute| !spec_attr_is_any(a, seq!["hill", "arg", "command", "group", "value"])),
        forall|i: int| 0 <= i < attrs.len() && !spec_attr_is_any(attrs[i], seq!["hill", "arg", "command", "group", "value"]) ==> cleaned_attrs(
            attrs,
        ).contains(#[trigger] attrs[i]),
        forall|i: int| 0 <= i < cleaned_attrs(attrs).len() ==> attrs.contains(#[trigger] cleaned_attrs(attrs)[i]) && !spec_attr_is_any(
            cleaned_attrs(attrs)[i],
            seq!["hill", "arg", "command", "group", "value"],
        ),
{
    let p = named_outside(clean_names());
    assert(clean_names() =~= seq!["hill", "arg", "command", "group", "value"]);
    crate::text::lemma_keep_is_filter(attrs, p);
    assert(p =~= (|a: Attribute| !spec_attr_is_any(a, seq!["hill", "arg", "command", "group", "value"])));
    assert forall|i: int| 0 <= i < attrs.len() && !spec_attr_is_any(attrs[i], seq!["hill", "arg", "command", "group", "value"]) implies cleaned_attrs(
        attrs,
    ).contains(#[trigger] attrs[i]) by {
        crate::text::lemma_keep_contains(attrs, p, i);
    }
    crate::text::lemma_keep_elements(attrs, p);
}

/// An item given back after a refusal keeps, on itself, on each variant and on each field,
/// exactly the attributes of the original that are none of the removed names, in order.
pub proof fn cleaned_item_keeps_other_attributes(c: ItemModel, src: ItemModel)
    requires
        item_cleaned(c, src),
    ensures
        match (c, src) {
            (ItemModel::Struct(a), ItemModel::Struct(b)) => {
                &&& a.attrs@ == b.attrs@.filter(|x: Attribute| !spec_attr_is_any(x, seq!["hill", "arg", "command", "group", "value"]))
                &&& fields_of(a.fields).len() == fields_of(b.fields).len()
                &&& forall|k: int| 0 <= k < fields_of(b.fields).len() ==> (#[trigger] fields_of(a.fields)[k]).attrs@
                    == fields_of(b.fields)[k].attrs@.filter(|x: Attribute| !spec_attr_is_any(x, seq!["hill", "arg", "command", "group", "value"]))
            },
            (ItemModel::Enum(a), ItemModel::Enum(b)) => {
                &&& a.attrs@ == b.attrs@.filter(|x: Attribute| !spec_attr_is_any(x, seq!["hill", "arg", "command", "group", "value"]))
                &&& forall|i: int| 0 <= i < b.variants@.len() ==> (#[trigger] a.variants@[i]).attrs@
                    == b.variants@[i].attrs@.filter(|x: Attribute| !spec_attr_is_any(x, seq!["hill", "arg", "command", "group", "value"]))
            },
            (ItemModel::Union(a), ItemModel::Union(b)) => {
                &&& a.attrs@ == b.attrs@.filter(|x: Attribute| !spec_attr_is_any(x, seq!["hill", "arg", "command", "group", "value"]))
                &&& forall|k: int| 0 <= k < b.fields@.len() ==> (#[trigger] a.fields@[k]).attrs@
                    == b.fields@[k].attrs@.filter(|x: Attribute| !spec_attr_is_any(x, seq!["hill", "arg", "command", "group", "value"]))
            },
            (ItemModel::Other(a), ItemModel::Other(b)) => a == b,
            _ => false,
        },
{
    match (c, src) {
        (ItemModel::Struct(a), ItemModel::Struct(b)) => {
            cleaning_keeps_other_attributes(b.attrs@);
            assert forall|k: int| 0 <= k < fields_of(b.fields).len() implies (#[trigger] fields_of(a.fields)[k]).attrs@
                == fields_of(b.fields)[k].attrs@.filter(|x: Attribute| !spec_attr_is_any(x, seq!["hill", "arg", "command", "group", "value"])) by {
                assert(field_cleaned(fields_of(a.fields)[k], fields_of(b.fields)[k]));
                cleaning_keeps_other_attributes(fields_of(b.fields)[k].attrs@);
            }
        },
        (ItemModel::Enum(a), ItemModel::Enum(b)) => {
            cleaning_keeps_other_attributes(b.attrs@);
            assert forall|i: int| 0 <= i < b.variants@.len() implies (#[trigger] a.variants@[i]).attrs@
                == b.variants@[i].attrs@.filter(|x: Attribute| !spec_attr_is_any(x, seq!["hill", "arg", "command", "group", "value"])) by {
                assert(variant_cleaned(a.variants@[i], b.variants@[i]));
                cleaning_keeps_other_attributes(b.variants@[i].attrs@);
            }
        },
        (ItemModel::Union(a), ItemModel::Union(b)) => {
            cleaning_keeps_other_attributes(b.attrs@);
            assert forall|k: int| 0 <= k < b.fields@.len() implies (#[trigger] a.fields@[k]).attrs@
                == b.fields@[k].attrs@.filter(|x: Attribute| !spec_attr_is_any(x, seq!["hill", "arg", "command", "group", "value"])) by {
                assert(field_cleaned(a.fields@[k], b.fields@[k]));
                cleaning_keeps_other_attributes(b.fields@[k].attrs@);
            }
        },
        _ => {},
    }
}

/// What a refused macro still gives back besides its error: the cleaned item, printed,
/// when the input was an item at all.
pub fn preserve_item(input: Result<ItemModel, String>) -> (r: Option<String>)
    ensures
        match input {
            Err(_) => r is None,
            Ok(item) => r is Some && exists|c: ItemModel| item_cleaned(c, item) && r->Some_0@ == item_text(c),
        },
{
    match input {
        Err(_) => None,
        Ok(item) => {
            let c = clean_item(item);
            Some(render_item(&c))
        },
    }
}

} // verus!
