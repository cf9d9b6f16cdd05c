//! An attribute macro and a derive that write `resolve` for an arguments
//! structure, copying every field but `base` into `Target`.
use vstd::prelude::*;
use vstd::string::*;
use crate::item::{render_struct, struct_text};
use crate::syntax::{is_ident, spec_is_ident, Attribute, FieldModel, FieldsModel, StructModel};
use crate::text::{braced, brace, join_words, owned, push_word, str_eq, word2, words};
use crate::syntax::fields_of;

verus! {

/// Whether a field carries an attribute named `unknown`.
pub open spec fn has_unknown(f: FieldModel) -> bool {
    exists|i: int| 0 <= i < f.attrs@.len() && spec_is_ident((#[trigger] f.attrs@[i]).path, "unknown"@)
}

/// Whether one of the fields carries an attribute named `unknown`.
pub open spec fn any_unknown(fs: Seq<FieldModel>) -> bool {
    exists|i: int| 0 <= i < fs.len() && has_unknown(#[trigger] fs[i])
}

/// Whether the field is named `base`.
pub open spec fn is_base(f: FieldModel) -> bool {
    f.ident matches Some(x) && x@ == "base"@
}

/// The initializer of one field: `name : self . name ,`.
pub open spec fn init_text(f: FieldModel) -> Seq<char> {
    match f.ident {
        Some(x) => x@ + " : self . "@ + x@ + " ,"@,
        None => ": self . ,"@,
    }
}

/// The initializers of the fields before `n`, skipping `base`.
pub open spec fn inits_text(fs: Seq<FieldModel>) -> Seq<Seq<char>>
    decreases fs.len(),
{
    if fs.len() == 0 {
        Seq::empty()
    } else if is_base(fs.last()) {
        inits_text(fs.drop_last())
    } else {
        inits_text(fs.drop_last()).push(init_text(fs.last()))
    }
}

/// `impl Args { pub fn resolve(self) -> Target { Target { ... } } }`.
pub open spec fn resolve_impl_text(item: StructModel) -> Seq<char> {
    "impl "@ + item.ident@ + " { pub fn resolve (self) -> Target { Target "@ + braced(
        words(inits_text(fields_of(item.fields))),
    ) + " } }"@
}

/// The message of the error for an attribute named `unknown`.
pub open spec fn unknown_message() -> Seq<char> {
    "unknown attribute"@
}

fn field_has_unknown(f: &FieldModel) -> (r: bool)
    ensures
        r == has_unknown(*f),
{
    let mut i: usize = 0;
    while i < f.attrs.len()
        invariant
            i <= f.attrs.len(),
            forall|j: int| 0 <= j < i ==> !spec_is_ident((#[trigger] f.attrs@[j]).path, "unknown"@),
        decreases f.attrs.len() - i,
    {
        if is_ident(&f.attrs[i].path, "unknown") {
            return true;
        }
        i = i + 1;
    }
    false
}

/// The `resolve` impl for the structure, or the error for the first field that carries
/// an attribute named `unknown`.
fn resolve_impl(item: &StructModel) -> (r: Result<String, String>)
    ensures
        any_unknown(fields_of(item.fields)) ==> (r matches Err(m) && m@ == unknown_message()),
        !any_unknown(fields_of(item.fields)) ==> (r matches Ok(t) && t@ == resolve_impl_text(*item)),
{
    let empty: Vec<FieldModel> = Vec::new();
    let fields = match &item.fields {
        FieldsModel::Named(fs, _) => fs,
        FieldsModel::Unnamed(fs, _) => fs,
        FieldsModel::Unit => &empty,
    };
    assert(fields@ == fields_of(item.fields));
    let mut inits: Vec<String> = Vec::new();
    let mut i: usize = 0;
    while i < fields.len()
        invariant
            i <= fields.len(),
            fields@ == fields_of(item.fields),
            inits@.map_values(|t: String| t@) == inits_text(fields@.take(i as int)),
            forall|j: int| 0 <= j < i ==> !has_unknown(#[trigger] fields@[j]),
        decreases fields.len() - i,
    {
        let f = &fields[i];
        if field_has_unknown(f) {
            return Err(owned("unknown attribute"));
        }
        proof {
            assert(fields@.take(i + 1).drop_last() =~= fields@.take(i as int));
            assert(fields@.take(i + 1).last() == *f);
        }
        let skip = match &f.ident {
            Some(x) => str_eq(x.as_str(), "base"),
            None => false,
        };
        if !skip {
            let ghost before = inits@;
            let t = match &f.ident {
                Some(x) => {
                    let mut t = x.clone();
                    t.append(" : self . ");
                    t.append(x.as_str());
                    t.append(" ,");
                    t
                },
                None => owned(": self . ,"),
            };
            inits.push(t);
            assert(inits@.map_values(|t: String| t@) =~= before.map_values(|t: String| t@).push(t@));
        }
        i = i + 1;
    }
    assert(fields@.take(fields@.len() as int) =~= fields@);
    let body = join_words(&inits);
    let block = brace(body.as_str());
    let mut r = owned("impl ");
    r.append(item.ident.as_str());
    r.append(" { pub fn resolve (self) -> Target { Target ");
    r.append(block.as_str());
    r.append(" } }");
    Ok(r)
}

/// `#[generate_resolve]`: the structure followed by its `resolve` impl, or the error for
/// the first field that carries an attribute named `unknown`.
pub fn generate_resolve(item: &StructModel) -> (r: Result<String, String>)
    ensures
        any_unknown(fields_of(item.fields)) ==> (r matches Err(m) && m@ == unknown_message()),
        !any_unknown(fields_of(item.fields)) ==> (r matches Ok(t) && t@ == word2(struct_text(*item), resolve_impl_text(*item))),
{
    let imp = match resolve_impl(item) {
        Err(m) => {
            return Err(m);
        },
        Ok(t) => t,
    };
    let mut r = render_struct(item);
    push_word(&mut r, imp.as_str());
    Ok(r)
}

/// `#[derive(ResolveDerive)]`: the `resolve` impl of the structure, or the error for the
/// first field that carries an attribute named `unknown`.
pub fn derive_resolve(item: &StructModel) -> (r: Result<String, String>)
    ensures
        any_unknown(fields_of(item.fields)) ==> (r matches Err(m) && m@ == unknown_message()),
        !any_unknown(fields_of(item.fields)) ==> (r matches Ok(t) && t@ == resolve_impl_text(*item)),
{
    resolve_impl(item)
}

} // verus!
