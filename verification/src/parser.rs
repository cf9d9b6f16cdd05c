//! Reading a `#[fill(target = ..., context = ...)]` declaration.
use vstd::prelude::*;
use vstd::string::*;
use crate::error::HillError;
use crate::model::{Declaration, Destination, Field, Marker, Question};
use crate::syntax::{
    get_ident, is_ident, named_in, option_inner_type, partition_attributes, render_path,
    spec_get_ident, spec_is_ident, spec_option_inner_type, path_text, Attribute,
    ExprModel, FieldModel, FieldsModel, GenericArg, LitStrModel, MetaItem, MetaKind, NestedEntry,
    NestedValue, PathModel, SegmentArgs, StructModel, TypeModel,
};
use crate::text::{keep, lemma_try_fold_end, lemma_try_fold_step, str_eq, try_fold};

verus! {

/// The attribute names that belong to clap and are passed through.
pub open spec fn clap_names() -> Seq<&'static str> {
    seq!["arg", "command"]
}

// ---------------------------------------------------------------------------
// Options
// ---------------------------------------------------------------------------

/// The `target` and `context` read so far.
pub type FillOptions = (Option<PathModel>, Option<PathModel>);

/// One entry of the arguments of `fill`.
pub open spec fn options_step(st: FillOptions, e: MetaItem) -> Result<FillOptions, HillError> {
    match e.kind {
        MetaKind::NameValue(value) => match spec_get_ident(e.path) {
            None => Err(HillError::ExpectedParameterName),
            Some(name) => match value {
                ExprModel::Path(p) => if name@ == "target"@ {
                    if st.0 is Some {
                        Err(HillError::DuplicateParameter { name })
                    } else {
                        Ok((Some(p), st.1))
                    }
                } else if name@ == "context"@ {
                    if st.1 is Some {
                        Err(HillError::DuplicateParameter { name })
                    } else {
                        Ok((st.0, Some(p)))
                    }
                } else {
                    Err(HillError::UnknownParameter { name })
                },
                _ => Err(HillError::ParameterNotPath { name }),
            },
        },
        _ => Err(HillError::ExpectedTargetParameter),
    }
}

pub open spec fn options_fold() -> spec_fn(FillOptions, MetaItem) -> Result<FillOptions, HillError> {
    |st: FillOptions, e: MetaItem| options_step(st, e)
}

/// The arguments of `fill`, read entry by entry; the first refused entry decides the error.
pub open spec fn spec_fill_options(entries: Seq<MetaItem>) -> Result<FillOptions, HillError> {
    try_fold(entries, (None, None), options_fold())
}

/// Reads the `target = Path, context = Path` arguments of `fill`.
pub fn parse_options(entries: Vec<MetaItem>) -> (r: Result<FillOptions, HillError>)
    ensures
        r == spec_fill_options(entries@),
{
    let ghost orig = entries@;
    assert(orig.len() == entries.len());
    let mut rest = entries;
    let mut target: Option<PathModel> = None;
    let mut context: Option<PathModel> = None;
    let mut i: usize = 0;
    assert(orig.skip(0) =~= orig);
    while rest.len() > 0
        invariant
            i <= orig.len() <= usize::MAX,
            orig == entries@,
            rest@ == orig.skip(i as int),
            spec_fill_options(orig) == try_fold(orig.skip(i as int), (target, context), options_fold()),
        decreases rest.len(),
    {
        let e = rest.remove(0);
        assert(e == orig[i as int]);
        proof {
            lemma_try_fold_step(orig, i as int, (target, context), options_fold());
            assert(options_fold()((target, context), e) == options_step((target, context), e));
        }
        let MetaItem { path, kind } = e;
        match kind {
            MetaKind::NameValue(value) => {
                match get_ident(&path) {
                    None => {
                        return Err(HillError::ExpectedParameterName);
                    },
                    Some(name) => {
                        match value {
                            ExprModel::Path(p) => {
                                if str_eq(name.as_str(), "target") {
                                    if target.is_some() {
                                        return Err(HillError::DuplicateParameter { name });
                                    }
                                    target = Some(p);
                                } else if str_eq(name.as_str(), "context") {
                                    if context.is_some() {
                                        return Err(HillError::DuplicateParameter { name });
                                    }
                                    context = Some(p);
                                } else {
                                    return Err(HillError::UnknownParameter { name });
                                }
                            },
                            _ => {
                                return Err(HillError::ParameterNotPath { name });
                            },
                        }
                    },
                }
            },
            _ => {
                return Err(HillError::ExpectedTargetParameter);
            },
        }
        i = i + 1;
        assert(rest@ =~= orig.skip(i as int));
    }
    proof {
        lemma_try_fold_end(orig, (target, context), options_fold());
    }
    Ok((target, context))
}

// ---------------------------------------------------------------------------
// `hill` marks of a field
// ---------------------------------------------------------------------------

/// The question and whether `ctx` was given, read so far.
pub type HillState = (Option<Question>, bool);

/// One nested entry of a `#[hill(...)]` attribute of the field `field`.
pub open spec fn fill_entry_step(field: String, st: HillState, e: NestedEntry) -> Result<HillState, HillError> {
    if spec_is_ident(e.path, "ctx"@) {
        if st.1 {
            Err(HillError::DuplicateFieldMarker { marker: "ctx", field })
        } else {
            match e.value {
                NestedValue::Bare => Ok((st.0, true)),
                _ => Err(HillError::ExpectedComma),
            }
        }
    } else if spec_is_ident(e.path, "ask"@) || spec_is_ident(e.path, "keep"@) {
        match e.value {
            NestedValue::Assigned(a) => match a.lit_str {
                Err(m) => Err(HillError::Syntax(m)),
                Ok((lit, complete)) => if st.0 is Some {
                    Err(HillError::SeveralQuestions { field })
                } else if !complete {
                    Err(HillError::ExpectedComma)
                } else if spec_is_ident(e.path, "ask"@) {
                    Ok((Some(Question::Ask(lit)), st.1))
                } else {
                    Ok((Some(Question::Keep(lit)), st.1))
                },
            },
            _ => Err(HillError::ExpectedEq),
        }
    } else {
        Err(HillError::UnknownFieldMarker { field })
    }
}

pub open spec fn fill_entry_fold(field: String) -> spec_fn(HillState, NestedEntry) -> Result<HillState, HillError> {
    |st: HillState, e: NestedEntry| fill_entry_step(field, st, e)
}

/// One attribute of the field: only `hill` attributes are read.
pub open spec fn fill_attr_step(field: String, st: HillState, a: Attribute) -> Result<HillState, HillError> {
    if spec_is_ident(a.path, "hill"@) {
        match try_fold(a.nested.entries@, st, fill_entry_fold(field)) {
            Err(e) => Err(e),
            Ok(next) => match a.nested.error {
                Some(m) => Err(HillError::Syntax(m)),
                None => Ok(next),
            },
        }
    } else {
        Ok(st)
    }
}

pub open spec fn fill_attr_fold(field: String) -> spec_fn(HillState, Attribute) -> Result<HillState, HillError> {
    |st: HillState, a: Attribute| fill_attr_step(field, st, a)
}

/// The `hill` marks of a field: at most one question, which needs an `Option<T>`
/// field and excludes `ctx`.
pub open spec fn spec_parse_hill(f: FieldModel, field: String) -> Result<HillState, HillError> {
    match try_fold(f.attrs@, (None, false), fill_attr_fold(field)) {
        Err(e) => Err(e),
        Ok((question, ctx)) => if question is Some && ctx {
            Err(HillError::QuestionWithContext { field })
        } else if question is Some && spec_option_inner_type(f.ty) is None {
            Err(HillError::QuestionNeedsOption { field })
        } else {
            Ok((question, ctx))
        },
    }
}

fn parse_hill_entries(
    field: &String,
    entries: &Vec<NestedEntry>,
    start: HillState,
) -> (r: Result<HillState, HillError>)
    ensures
        r == try_fold(entries@, start, fill_entry_fold(*field)),
{
    let mut question = start.0;
    let mut with_context = start.1;
    let mut i: usize = 0;
    assert(entries@.skip(0) =~= entries@);
    while i < entries.len()
        invariant
            i <= entries.len(),
            try_fold(entries@, start, fill_entry_fold(*field)) == try_fold(
                entries@.skip(i as int),
                (question, with_context),
                fill_entry_fold(*field),
            ),
        decreases entries.len() - i,
    {
        let e = &entries[i];
        proof {
            lemma_try_fold_step(entries@, i as int, (question, with_context), fill_entry_fold(*field));
            assert(fill_entry_fold(*field)((question, with_context), *e) == fill_entry_step(*field, (question, with_context), *e));
        }
        if is_ident(&e.path, "ctx") {
            if with_context {
                return Err(HillError::DuplicateFieldMarker { marker: "ctx", field: field.clone() });
            }
            match &e.value {
                NestedValue::Bare => {
                    with_context = true;
                },
                _ => {
                    return Err(HillError::ExpectedComma);
                },
            }
        } else if is_ident(&e.path, "ask") || is_ident(&e.path, "keep") {
            match &e.value {
                NestedValue::Assigned(a) => match &a.lit_str {
                    Err(m) => {
                        return Err(HillError::Syntax(m.clone()));
                    },
                    Ok((lit, complete)) => {
                        if question.is_some() {
                            return Err(HillError::SeveralQuestions { field: field.clone() });
                        }
                        if !*complete {
                            return Err(HillError::ExpectedComma);
                        }
                        if is_ident(&e.path, "ask") {
                            question = Some(Question::Ask(lit.duplicate()));
                        } else {
                            question = Some(Question::Keep(lit.duplicate()));
                        }
                    },
                },
                _ => {
                    return Err(HillError::ExpectedEq);
                },
            }
        } else {
            return Err(HillError::UnknownFieldMarker { field: field.clone() });
        }
        i = i + 1;
    }
    proof {
        lemma_try_fold_end(entries@, (question, with_context), fill_entry_fold(*field));
    }
    Ok((question, with_context))
}

/// Reads the `#[hill(...)]` marks of a field.
pub fn parse_hill(f: &FieldModel, field: &String) -> (r: Result<HillState, HillError>)
    ensures
        r == spec_parse_hill(*f, *field),
{
    let mut state: HillState = (None, false);
    let mut i: usize = 0;
    assert(f.attrs@.skip(0) =~= f.attrs@);
    while i < f.attrs.len()
        invariant
            i <= f.attrs.len(),
            try_fold(f.attrs@, (None, false), fill_attr_fold(*field)) == try_fold(
                f.attrs@.skip(i as int),
                state,
                fill_attr_fold(*field),
            ),
        decreases f.attrs.len() - i,
    {
        let a = &f.attrs[i];
        proof {
            lemma_try_fold_step(f.attrs@, i as int, state, fill_attr_fold(*field));
            assert(fill_attr_fold(*field)(state, *a) == fill_attr_step(*field, state, *a));
        }
        if is_ident(&a.path, "hill") {
            let next = parse_hill_entries(field, &a.nested.entries, state);
            match next {
                Err(e) => {
                    return Err(e);
                },
                Ok(next) => {
                    match &a.nested.error {
                        Some(m) => {
                            return Err(HillError::Syntax(m.clone()));
                        },
                        None => {
                            state = next;
                        },
                    }
                },
            }
        }
        i = i + 1;
    }
    proof {
        lemma_try_fold_end(f.attrs@, state, fill_attr_fold(*field));
    }
    let (question, with_context) = state;
    if question.is_some() && with_context {
        return Err(HillError::QuestionWithContext { field: field.clone() });
    }
    if question.is_some() && option_inner_type(&f.ty).is_none() {
        return Err(HillError::QuestionNeedsOption { field: field.clone() });
    }
    Ok((question, with_context))
}

// ---------------------------------------------------------------------------
// `Only<T>` markers
// ---------------------------------------------------------------------------

/// The type argument of an `Only<T>` field type; any other shape of `Only` is refused.
pub open spec fn spec_parse_markers(ty: TypeModel, field: String) -> Result<Option<String>, HillError> {
    match ty {
        TypeModel::Path(p) => if p.segments@.len() == 0 {
            Ok(None)
        } else {
            let last = p.segments@.last();
            if last.ident@ != "Only"@ {
                Ok(None)
            } else {
                match last.arguments {
                    SegmentArgs::Angle { turbofish, args } => if args@.len() == 1 && args@[0] is Type {
                        Ok(Some(args@[0]->Type_0))
                    } else {
                        Err(HillError::InvalidMarker { marker: last.ident, field })
                    },
                    _ => Err(HillError::InvalidMarker { marker: last.ident, field }),
                }
            }
        },
        TypeModel::Other(_) => Ok(None),
    }
}

/// Reads the `Only<T>` marker of a field type.
pub fn parse_markers(ty: &TypeModel, field: &String) -> (r: Result<Option<String>, HillError>)
    ensures
        r == spec_parse_markers(*ty, *field),
{
    match ty {
        TypeModel::Path(p) => {
            if p.segments.len() == 0 {
                return Ok(None);
            }
            let last = &p.segments[p.segments.len() - 1];
            if !str_eq(last.ident.as_str(), "Only") {
                return Ok(None);
            }
            match &last.arguments {
                SegmentArgs::Angle { turbofish: _, args } => {
                    if args.len() == 1 {
                        match &args[0] {
                            GenericArg::Type(inner) => {
                                return Ok(Some(inner.clone()));
                            },
                            GenericArg::Other(_) => {},
                        }
                    }
                    Err(HillError::InvalidMarker { marker: last.ident.clone(), field: field.clone() })
                },
                _ => Err(HillError::InvalidMarker { marker: last.ident.clone(), field: field.clone() }),
            }
        },
        TypeModel::Other(_) => Ok(None),
    }
}

// ---------------------------------------------------------------------------
// Fields
// ---------------------------------------------------------------------------

/// What is read of one field: its `Only` type argument, its question and whether `ctx` was given.
pub type FieldReading = (Option<String>, Option<Question>, bool);

/// Reading one named field: first its type's marker, then its `hill` marks.
pub open spec fn spec_parse_field(f: FieldModel) -> Result<FieldReading, HillError> {
    match f.ident {
        None => Err(HillError::ExpectedNamedField),
        Some(ident) => match spec_parse_markers(f.ty, ident) {
            Err(e) => Err(e),
            Ok(marker) => match spec_parse_hill(f, ident) {
                Err(e) => Err(e),
                Ok((question, ctx)) => Ok((marker, question, ctx)),
            },
        },
    }
}

/// What a `hill` entry of a field gives whenever reading it succeeds, and what every
/// successful entry keeps, holds of what is read of the field.
proof fn lemma_hill_mark(f: FieldModel, a: int, m: int, inv: spec_fn(HillState) -> bool)
    requires
        f.ident is Some,
        0 <= a < f.attrs@.len(),
        spec_is_ident(f.attrs@[a].path, "hill"@),
        0 <= m < f.attrs@[a].nested.entries@.len(),
        forall|x: HillState| (#[trigger] fill_entry_step(f.ident->Some_0, x, f.attrs@[a].nested.entries@[m])) is Ok
            ==> inv(fill_entry_step(f.ident->Some_0, x, f.attrs@[a].nested.entries@[m])->Ok_0),
        forall|x: HillState, n: NestedEntry| inv(x) && (#[trigger] fill_entry_step(f.ident->Some_0, x, n)) is Ok
            ==> inv(fill_entry_step(f.ident->Some_0, x, n)->Ok_0),
    ensures
        spec_parse_field(f) matches Ok(reading) ==> inv((reading.1, reading.2)),
{
    let es = f.attrs@[a].nested.entries@;
    let ident = f.ident->Some_0;
    assert forall|x: HillState, n: NestedEntry| inv(x) && (#[trigger] fill_entry_fold(ident)(x, n)) is Ok implies inv(
        fill_entry_fold(ident)(x, n)->Ok_0,
    ) by {
        assert(fill_entry_fold(ident)(x, n) == fill_entry_step(ident, x, n));
    }
    assert forall|x: HillState| (#[trigger] fill_entry_fold(ident)(x, es[m])) is Ok implies inv(
        fill_entry_fold(ident)(x, es[m])->Ok_0,
    ) by {
        assert(fill_entry_fold(ident)(x, es[m]) == fill_entry_step(ident, x, es[m]));
    }
    assert forall|x: HillState, at: Attribute| inv(x) && (#[trigger] fill_attr_fold(ident)(x, at)) is Ok implies inv(
        fill_attr_fold(ident)(x, at)->Ok_0,
    ) by {
        assert(fill_attr_fold(ident)(x, at) == fill_attr_step(ident, x, at));
        crate::text::lemma_try_fold_keeps(at.nested.entries@, x, fill_entry_fold(ident), inv);
    }
    assert forall|x: HillState| (#[trigger] fill_attr_fold(ident)(x, f.attrs@[a])) is Ok implies inv(
        fill_attr_fold(ident)(x, f.attrs@[a])->Ok_0,
    ) by {
        assert(fill_attr_fold(ident)(x, f.attrs@[a]) == fill_attr_step(ident, x, f.attrs@[a]));
        crate::text::lemma_try_fold_sets(es, m, x, fill_entry_fold(ident), inv);
    }
    crate::text::lemma_try_fold_sets(f.attrs@, a, (None, false), fill_attr_fold(ident), inv);
}

/// A field that carries `#[hill(ask = "...")]` is read with the question `Ask` and that
/// message, one that carries `#[hill(keep = "...")]` with `Keep` and that message, and one
/// that carries `#[hill(ctx)]` as taking the context; whichever attribute and entry hold
/// the mark.
pub proof fn field_marks_give_their_reading(f: FieldModel, a: int, m: int)
    requires
        spec_parse_field(f) is Ok,
        0 <= a < f.attrs@.len(),
        spec_is_ident(f.attrs@[a].path, "hill"@),
        0 <= m < f.attrs@[a].nested.entries@.len(),
    ensures
        ({
            let e = f.attrs@[a].nested.entries@[m];
            let reading = spec_parse_field(f)->Ok_0;
            &&& spec_is_ident(e.path, "ask"@) && e.value is Assigned && e.value->Assigned_0.lit_str is Ok
                ==> reading.1 == Some(Question::Ask(e.value->Assigned_0.lit_str->Ok_0.0))
            &&& spec_is_ident(e.path, "keep"@) && e.value is Assigned && e.value->Assigned_0.lit_str is Ok
                ==> reading.1 == Some(Question::Keep(e.value->Assigned_0.lit_str->Ok_0.0))
            &&& spec_is_ident(e.path, "ctx"@) ==> reading.2
        }),
{
    reveal_strlit("ask");
    reveal_strlit("keep");
    reveal_strlit("ctx");
    let e = f.attrs@[a].nested.entries@[m];
    let asked = spec_is_ident(e.path, "ask"@);
    let kept = spec_is_ident(e.path, "keep"@);
    assert("ask"@.len() == 3 && "keep"@.len() == 4 && "ctx"@.len() == 3);
    assert("ask"@[0] == 'a' && "ctx"@[0] == 'c');
    assert(kept ==> !asked);
    if (asked || kept) && e.value is Assigned && e.value->Assigned_0.lit_str is Ok {
        assert(!spec_is_ident(e.path, "ctx"@));
        let l = e.value->Assigned_0.lit_str->Ok_0.0;
        let q = if asked { Some(Question::Ask(l)) } else { Some(Question::Keep(l)) };
        lemma_hill_mark(f, a, m, |s: HillState| s.0 == q);
    }
    if spec_is_ident(e.path, "ctx"@) {
        lemma_hill_mark(f, a, m, |s: HillState| s.1);
    }
}

/// `out` is the field `src`, read as `reading`, at `position`.
pub open spec fn field_built(out: Field, src: FieldModel, position: int, reading: FieldReading) -> bool {
    &&& out.visibility == src.vis
    &&& src.ident == Some(out.ident)
    &&& out.ty == src.ty
    &&& out.position == position
    &&& out.clap_attributes@ == keep(src.attrs@, named_in(clap_names()))
    &&& match reading.0 {
        None => out.markers@.len() == 0,
        Some(inner) => {
            &&& out.markers@.len() == 1
            &&& out.markers@[0].ident@ == "Only"@
            &&& out.markers@[0].inner_type == inner
        },
    }
    &&& out.question == reading.1
    &&& out.with_context == reading.2
    &&& out.resolver is None
    &&& out.resolver_message is None
}

/// Reads one field of the declaration.
pub fn parse_field(f: FieldModel, position: usize) -> (r: Result<Field, HillError>)
    ensures
        match spec_parse_field(f) {
            Err(e) => r == Err::<Field, HillError>(e),
            Ok(reading) => r is Ok && field_built(r->Ok_0, f, position as int, reading),
        },
{
    let ident = match &f.ident {
        None => {
            return Err(HillError::ExpectedNamedField);
        },
        Some(ident) => ident.clone(),
    };
    let marker = match parse_markers(&f.ty, &ident) {
        Err(e) => {
            return Err(e);
        },
        Ok(m) => m,
    };
    let (question, with_context) = match parse_hill(&f, &ident) {
        Err(e) => {
            return Err(e);
        },
        Ok(s) => s,
    };
    let FieldModel { attrs, vis, ident: _, ty } = f;
    let (clap_attributes, _) = partition_attributes(attrs, &["arg", "command"]);
    proof {
        assert(["arg", "command"]@ =~= clap_names());
    }
    let mut markers: Vec<Marker> = Vec::new();
    match marker {
        Some(inner) => {
            markers.push(Marker { ident: crate::text::owned("Only"), inner_type: inner });
        },
        None => {},
    }
    Ok(
        Field {
            visibility: vis,
            ident,
            ty,
            position,
            clap_attributes,
            markers,
            question,
            with_context,
            resolver: None,
            resolver_message: None,
        },
    )
}

pub open spec fn fields_fold() -> spec_fn((), FieldModel) -> Result<(), HillError> {
    |st: (), f: FieldModel| match spec_parse_field(f) {
        Ok(_) => Ok(()),
        Err(e) => Err(e),
    }
}

/// The fields in `out` are the fields of `src`, read in order.
pub open spec fn fields_built(out: Seq<Field>, src: Seq<FieldModel>) -> bool {
    &&& out.len() == src.len()
    &&& forall|i: int| 0 <= i < src.len() ==> field_built(#[trigger] out[i], src[i], i, spec_parse_field(src[i])->Ok_0)
}

/// Reads the named fields of a declaration, in order; the first refused field decides the error.
pub fn parse_fields(fields: Vec<FieldModel>) -> (r: Result<Vec<Field>, HillError>)
    ensures
        match try_fold(fields@, (), fields_fold()) {
            Err(e) => r == Err::<Vec<Field>, HillError>(e),
            Ok(_) => r is Ok && fields_built(r->Ok_0@, fields@),
        },
{
    let ghost orig = fields@;
    assert(orig.len() == fields.len());
    let mut rest = fields;
    let mut out: Vec<Field> = Vec::new();
    let mut i: usize = 0;
    assert(orig.skip(0) =~= orig);
    while rest.len() > 0
        invariant
            i <= orig.len() <= usize::MAX,
            orig == fields@,
            rest@ == orig.skip(i as int),
            try_fold(orig, (), fields_fold()) == try_fold(orig.skip(i as int), (), fields_fold()),
            out@.len() == i,
            forall|j: int| 0 <= j < i ==> field_built(#[trigger] out@[j], orig[j], j, spec_parse_field(orig[j])->Ok_0),
            forall|j: int| 0 <= j < i ==> spec_parse_field(#[trigger] orig[j]) is Ok,
        decreases rest.len(),
    {
        let f = rest.remove(0);
        assert(f == orig[i as int]);
        proof {
            lemma_try_fold_step(orig, i as int, (), fields_fold());
            assert(fields_fold()((), f) == match spec_parse_field(f) {
                Ok(_) => Ok::<(), HillError>(()),
                Err(e) => Err(e),
            });
        }
        match parse_field(f, i) {
            Err(e) => {
                return Err(e);
            },
            Ok(field) => {
                out.push(field);
            },
        }
        i = i + 1;
        assert(rest@ =~= orig.skip(i as int));
    }
    proof {
        lemma_try_fold_end(orig, (), fields_fold());
    }
    Ok(out)
}

// ---------------------------------------------------------------------------
// Declaration
// ---------------------------------------------------------------------------

/// `d` is the declaration read from `item` with the given target and context.
pub open spec fn declaration_built(d: Declaration, item: StructModel, target: PathModel, context: Option<PathModel>) -> bool {
    &&& d.visibility == item.vis
    &&& d.ident == item.ident
    &&& d.generics == item.generics
    &&& d.target == target
    &&& d.destination.initializer@ == path_text(target)
    &&& d.destination.result@ == path_text(target)
    &&& d.context is Some == context is Some
    &&& context is Some ==> d.context->Some_0@ == path_text(context->Some_0)
    &&& d.clap_attributes@ == keep(item.attrs@, named_in(clap_names()))
    &&& item.fields matches FieldsModel::Named(fs, _) && fields_built(d.fields@, fs@)
}

/// The fields of a declaration that was read stand in their declared order, so writing the
/// arguments structure keeps that order; and each keeps only clap attributes.
pub proof fn declared_fields_keep_their_order(d: Declaration, item: StructModel, target: PathModel, context: Option<PathModel>)
    requires
        declaration_built(d, item, target, context),
    ensures
        crate::generate::sorted_fields(d.fields@) == d.fields@,
        forall|i: int, j: int| 0 <= i < d.fields@.len() && 0 <= j < d.fields@[i].clap_attributes@.len()
            ==> crate::syntax::spec_attr_is_any(#[trigger] d.fields@[i].clap_attributes@[j], clap_names()),
{
    let fs = match item.fields {
        FieldsModel::Named(fs, _) => fs@,
        _ => Seq::empty(),
    };
    assert forall|i: int| 0 <= i < d.fields@.len() implies (#[trigger] d.fields@[i]).position == i by {
        assert(field_built(d.fields@[i], fs[i], i, spec_parse_field(fs[i])->Ok_0));
    }
    crate::generate::lemma_sorted_in_place(d.fields@);
    assert forall|i: int, j: int| 0 <= i < d.fields@.len() && 0 <= j < d.fields@[i].clap_attributes@.len()
        implies crate::syntax::spec_attr_is_any(#[trigger] d.fields@[i].clap_attributes@[j], clap_names()) by {
        assert(field_built(d.fields@[i], fs[i], i, spec_parse_field(fs[i])->Ok_0));
        crate::text::lemma_keep_elements(fs[i].attrs@, named_in(clap_names()));
        assert(named_in(clap_names())(d.fields@[i].clap_attributes@[j]));
    }
}

/// What reading a `fill` declaration gives: `Ok(())` where the declaration is accepted,
/// else the first error met, in the order the checks run.
pub open spec fn spec_declaration_outcome(
    arguments: Result<Vec<MetaItem>, String>,
    input: Result<StructModel, String>,
) -> Result<(StructModel, PathModel, Option<PathModel>), HillError> {
    match input {
        Err(m) => Err(HillError::Syntax(m)),
        Ok(item) => match arguments {
            Err(m) => Err(HillError::Syntax(m)),
            Ok(entries) => match spec_fill_options(entries@) {
                Err(e) => Err(e),
                Ok((target, context)) => match target {
                    None => Err(HillError::MissingTarget { item: item.ident }),
                    Some(t) => match item.fields {
                        FieldsModel::Named(fs, _) => match try_fold(fs@, (), fields_fold()) {
                            Err(e) => Err(e),
                            Ok(_) => Ok((item, t, context)),
                        },
                        _ => Err(HillError::NamedFieldsRequired { item: item.ident }),
                    },
                },
            },
        },
    }
}

/// Reads a `#[fill(target = ..., context = ...)]` declaration: the macro's arguments and
/// the structure it is applied to.
pub fn parse_declaration(
    arguments: Result<Vec<MetaItem>, String>,
    input: Result<StructModel, String>,
) -> (r: Result<Declaration, HillError>)
    ensures
        match spec_declaration_outcome(arguments, input) {
            Err(e) => r == Err::<Declaration, HillError>(e),
            Ok((item, target, context)) => r is Ok && declaration_built(r->Ok_0, item, target, context),
        },
{
    let item = match input {
        Err(m) => {
            return Err(HillError::Syntax(m));
        },
        Ok(item) => item,
    };
    let entries = match arguments {
        Err(m) => {
            return Err(HillError::Syntax(m));
        },
        Ok(entries) => entries,
    };
    let (target, context) = match parse_options(entries) {
        Err(e) => {
            return Err(e);
        },
        Ok(options) => options,
    };
    let target = match target {
        None => {
            return Err(HillError::MissingTarget { item: item.ident });
        },
        Some(t) => t,
    };
    let ghost old_item = item;
    let StructModel { attrs, vis, ident, generics, fields } = item;
    let fields = match fields {
        FieldsModel::Named(fs, _) => fs,
        _ => {
            return Err(HillError::NamedFieldsRequired { item: ident });
        },
    };
    let fields = match parse_fields(fields) {
        Err(e) => {
            return Err(e);
        },
        Ok(fields) => fields,
    };
    let (clap_attributes, _) = partition_attributes(attrs, &["arg", "command"]);
    proof {
        assert(["arg", "command"]@ =~= clap_names());
    }
    let context_text = match &context {
        Some(c) => Some(render_path(c)),
        None => None,
    };
    let initializer = render_path(&target);
    let result = render_path(&target);
    Ok(
        Declaration {
            visibility: vis,
            ident,
            generics,
            target,
            destination: Destination { initializer, result },
            context: context_text,
            clap_attributes,
            fields,
        },
    )
}

} // verus!
