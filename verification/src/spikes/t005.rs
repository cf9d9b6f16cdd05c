//! An attribute macro that turns `hill` attributes on the fields of a
//! structure into clap argument attributes with value candidates, a value
//! completer or a value parser.
use vstd::prelude::*;
use vstd::string::*;
use crate::item::struct_text;
use crate::syntax::{
    fields_of, is_ident, render_type, spec_is_ident, type_text, Attribute, FieldModel, FieldsModel,
    NestedEntry, NestedValue, StructModel,
};
use crate::text::{braced, brace, join_words, owned, push_word, words};

verus! {

/// Whether an entry of a `hill` attribute reads: one of `candidates`, `completer` and
/// `value_parser` with `=` and one whole expression, or any other name standing alone.
pub open spec fn cli_entry_reads(e: NestedEntry) -> bool {
    if spec_is_ident(e.path, "candidates"@) || spec_is_ident(e.path, "completer"@) || spec_is_ident(e.path, "value_parser"@) {
        e.value matches NestedValue::Assigned(a) && a.expr matches Ok((_, true))
    } else {
        e.value is Bare
    }
}

/// Whether every `hill` attribute of the field reads.
pub open spec fn cli_field_reads(f: FieldModel) -> bool {
    forall|i: int| 0 <= i < f.attrs@.len() && spec_is_ident((#[trigger] f.attrs@[i]).path, "hill"@) ==> {
        &&& f.attrs@[i].nested.error is None
        &&& forall|j: int| 0 <= j < f.attrs@[i].nested.entries@.len() ==> cli_entry_reads(#[trigger] f.attrs@[i].nested.entries@[j])
    }
}

/// What one entry adds to the arguments of `arg`.
pub open spec fn entry_args(e: NestedEntry) -> Seq<char> {
    match e.value {
        NestedValue::Assigned(a) => match a.expr {
            Ok((x, _)) => if spec_is_ident(e.path, "candidates"@) {
                " , add = :: spike_lib :: reexports :: ArgValueCandidates :: new ("@ + x@ + ")"@
            } else if spec_is_ident(e.path, "completer"@) {
                " , add = :: spike_lib :: reexports :: ArgValueCompleter :: new ("@ + x@ + ")"@
            } else if spec_is_ident(e.path, "value_parser"@) {
                " , value_parser = "@ + x@
            } else {
                Seq::empty()
            },
            Err(_) => Seq::empty(),
        },
        _ => Seq::empty(),
    }
}

/// What the entries of one attribute add, in order.
pub open spec fn entries_args(es: Seq<NestedEntry>) -> Seq<char>
    decreases es.len(),
{
    if es.len() == 0 {
        Seq::empty()
    } else {
        entries_args(es.drop_last()) + entry_args(es.last())
    }
}

/// What the `hill` attributes of a field add, in order.
pub open spec fn attrs_args(attrs: Seq<Attribute>) -> Seq<char>
    decreases attrs.len(),
{
    if attrs.len() == 0 {
        Seq::empty()
    } else {
        attrs_args(attrs.drop_last()) + if spec_is_ident(attrs.last().path, "hill"@) {
            entries_args(attrs.last().nested.entries@)
        } else {
            Seq::empty()
        }
    }
}

/// The field of the generated parser: `#[arg(long ...)] pub name: Type,`.
pub open spec fn cli_field_text(f: FieldModel) -> Seq<char> {
    let name = match f.ident {
        Some(x) => x@ + " "@,
        None => Seq::empty(),
    };
    "# [arg (long"@ + attrs_args(f.attrs@) + ")] pub "@ + name + ": "@ + type_text(f.ty) + " ,"@
}

/// The parser written for the structure.
pub open spec fn generated_cli_text(item: StructModel) -> Seq<char> {
    "# [derive (clap :: Parser , Debug)] pub struct "@ + item.ident@ + " "@ + braced(
        words(fields_of(item.fields).map_values(|f: FieldModel| cli_field_text(f))),
    )
}

fn render_entries_args(es: &Vec<NestedEntry>) -> (r: String)
    ensures
        r@ == entries_args(es@),
{
    let mut r = String::new();
    let mut i: usize = 0;
    while i < es.len()
        invariant
            i <= es.len(),
            r@ == entries_args(es@.take(i as int)),
        decreases es.len() - i,
    {
        let e = &es[i];
        proof {
            assert(es@.take(i + 1).drop_last() =~= es@.take(i as int));
            assert(es@.take(i + 1).last() == *e);
        }
        match &e.value {
            NestedValue::Assigned(a) => match &a.expr {
                Ok((x, _)) => {
                    if is_ident(&e.path, "candidates") {
                        r.append(" , add = :: spike_lib :: reexports :: ArgValueCandidates :: new (");
                        r.append(x.as_str());
                        r.append(")");
                    } else if is_ident(&e.path, "completer") {
                        r.append(" , add = :: spike_lib :: reexports :: ArgValueCompleter :: new (");
                        r.append(x.as_str());
                        r.append(")");
                    } else if is_ident(&e.path, "value_parser") {
                        r.append(" , value_parser = ");
                        r.append(x.as_str());
                    }
                },
                Err(_) => {},
            },
            _ => {},
        }
        i = i + 1;
    }
    assert(es@.take(es@.len() as int) =~= es@);
    r
}

fn render_cli_field(f: &FieldModel) -> (r: String)
    ensures
        r@ == cli_field_text(*f),
{
    let mut args = String::new();
    let mut i: usize = 0;
    while i < f.attrs.len()
        invariant
            i <= f.attrs.len(),
            args@ == attrs_args(f.attrs@.take(i as int)),
        decreases f.attrs.len() - i,
    {
        let a = &f.attrs[i];
        proof {
            assert(f.attrs@.take(i + 1).drop_last() =~= f.attrs@.take(i as int));
            assert(f.attrs@.take(i + 1).last() == *a);
        }
        if is_ident(&a.path, "hill") {
            let more = render_entries_args(&a.nested.entries);
            args.append(more.as_str());
        }
        i = i + 1;
    }
    assert(f.attrs@.take(f.attrs@.len() as int) =~= f.attrs@);
    let mut r = owned("# [arg (long");
    r.append(args.as_str());
    r.append(")] pub ");
    match &f.ident {
        Some(x) => {
            r.append(x.as_str());
            r.append(" ");
        },
        None => {},
    }
    r.append(": ");
    let ty = render_type(&f.ty);
    r.append(ty.as_str());
    r.append(" ,");
    r
}

/// `#[generate_cli]`: writes a clap parser with the structure's name, one long option
/// for each of its fields, with the candidates, completer or value parser that the
/// field's `hill` attributes name.
pub fn generate_cli(item: &StructModel) -> (r: String)
    requires
        forall|i: int| 0 <= i < fields_of(item.fields).len() ==> cli_field_reads(#[trigger] fields_of(item.fields)[i]),
    ensures
        r@ == generated_cli_text(*item),
{
    let empty: Vec<FieldModel> = Vec::new();
    let fields = match &item.fields {
        FieldsModel::Named(fs, _) => fs,
        FieldsModel::Unnamed(fs, _) => fs,
        FieldsModel::Unit => &empty,
    };
    assert(fields@ == fields_of(item.fields));
    let mut texts: Vec<String> = Vec::new();
    let mut i: usize = 0;
    while i < fields.len()
        invariant
            i <= fields.len(),
            texts@.len() == i,
            forall|j: int| 0 <= j < i ==> #[trigger] texts@[j]@ == cli_field_text(fields@[j]),
        decreases fields.len() - i,
    {
        texts.push(render_cli_field(&fields[i]));
        i = i + 1;
    }
    assert(texts@.map_values(|t: String| t@) =~= fields@.map_values(|f: FieldModel| cli_field_text(f)));
    let body = join_words(&texts);
    let block = brace(body.as_str());
    let mut r = owned("# [derive (clap :: Parser , Debug)] pub struct ");
    r.append(item.ident.as_str());
    r.append(" ");
    r.append(block.as_str());
    r
}

} // verus!
