//! `#[root(action = Action, ask = "...")]` on the command structure: the
//! structure gains an `action` field, and a clap parser `Cli` is written with
//! `resolve`, which resolves each field with its function and fills the action.
use vstd::prelude::*;
use vstd::string::*;
use crate::commands::{field_stripped, hill_names, paren_attr_spec, paren_attribute};
use crate::error::HillError;
use crate::generate::{attr_desc, attr_descs, texts_of, AttrSpec};
use crate::item::{render_struct, struct_text};
use crate::syntax::{
    fields_of, lemma_kept_outside, none_named, get_ident, is_ident, named_in, named_outside, partition_attributes, path_text, render_path,
    render_suffixed_path, render_type, spec_get_ident, spec_is_ident, suffixed_path_text,
    type_text, Attribute, ExprModel, FieldModel, FieldsModel, LitStrModel, MetaItem, MetaKind,
    NestedEntry, NestedMeta, NestedValue, PathModel, StructModel, TypeModel,
};
use crate::text::{
    braced, brace, comma_list, join_comma_list, join_words, keep, lemma_occurs_in_braced, lemma_occurs_in_joined, occurs_in, lemma_try_fold_end,
    lemma_try_fold_step, owned, push_word, str_eq, try_fold, word2, words,
};

verus! {

// ---------------------------------------------------------------------------
// `action = Path, ask = "..."`
// ---------------------------------------------------------------------------

/// The arguments of `root` read so far.
pub struct RootOptions {
    pub action: Option<PathModel>,
    pub ask: Option<LitStrModel>,
}

/// One entry of the arguments of `root`.
pub open spec fn root_option_step(st: RootOptions, e: MetaItem) -> Result<RootOptions, HillError> {
    match e.kind {
        MetaKind::NameValue(value) => match spec_get_ident(e.path) {
            None => Err(HillError::ExpectedParameterName),
            Some(name) => if name@ == "action"@ {
                if st.action is Some {
                    Err(HillError::DuplicateParameter { name })
                } else {
                    match value {
                        ExprModel::Path(p) => Ok(RootOptions { action: Some(p), ask: st.ask }),
                        _ => Err(HillError::ParameterNotPath { name }),
                    }
                }
            } else if name@ == "ask"@ {
                if st.ask is Some {
                    Err(HillError::DuplicateParameter { name })
                } else {
                    match value {
                        ExprModel::LitStr(l) => Ok(RootOptions { action: st.action, ask: Some(l) }),
                        _ => Err(HillError::AskNotString),
                    }
                }
            } else {
                Err(HillError::UnknownRootParameter { name })
            },
        },
        _ => Err(HillError::ExpectedRootParameter),
    }
}

pub open spec fn root_option_fold() -> spec_fn(RootOptions, MetaItem) -> Result<RootOptions, HillError> {
    |st: RootOptions, e: MetaItem| root_option_step(st, e)
}

/// The action type and the question of `root`, read from its arguments.
pub open spec fn spec_root_options(arguments: Result<Vec<MetaItem>, String>) -> Result<(PathModel, LitStrModel), HillError> {
    match arguments {
        Err(m) => Err(HillError::Syntax(m)),
        Ok(entries) => match try_fold(entries@, RootOptions { action: None, ask: None }, root_option_fold()) {
            Err(e) => Err(e),
            Ok(o) => match o.action {
                None => Err(HillError::MissingRootParameter { name: "action" }),
                Some(action) => match o.ask {
                    None => Err(HillError::MissingRootParameter { name: "ask" }),
                    Some(ask) => Ok((action, ask)),
                },
            },
        },
    }
}

/// Reads `action = Path` and `ask = "..."` from the arguments of `root`.
pub fn parse_root_options(arguments: Result<Vec<MetaItem>, String>) -> (r: Result<(PathModel, LitStrModel), HillError>)
    ensures
        r == spec_root_options(arguments),
{
    let entries = match arguments {
        Err(m) => {
            return Err(HillError::Syntax(m));
        },
        Ok(entries) => entries,
    };
    let ghost orig = entries@;
    assert(orig.len() == entries.len());
    let mut rest = entries;
    let mut st = RootOptions { action: None, ask: None };
    let mut i: usize = 0;
    assert(orig.skip(0) =~= orig);
    while rest.len() > 0
        invariant
            i <= orig.len() <= usize::MAX,
            arguments matches Ok(es) && es@ == orig,
            rest@ == orig.skip(i as int),
            try_fold(orig, RootOptions { action: None, ask: None }, root_option_fold()) == try_fold(
                orig.skip(i as int),
                st,
                root_option_fold(),
            ),
        decreases rest.len(),
    {
        let e = rest.remove(0);
        assert(e == orig[i as int]);
        proof {
            lemma_try_fold_step(orig, i as int, st, root_option_fold());
            assert(root_option_fold()(st, e) == root_option_step(st, e));
        }
        let MetaItem { path, kind } = e;
        let value = match kind {
            MetaKind::NameValue(v) => v,
            _ => {
                return Err(HillError::ExpectedRootParameter);
            },
        };
        let name = match get_ident(&path) {
            None => {
                return Err(HillError::ExpectedParameterName);
            },
            Some(n) => n,
        };
        if str_eq(name.as_str(), "action") {
            if st.action.is_some() {
                return Err(HillError::DuplicateParameter { name });
            }
            match value {
                ExprModel::Path(p) => {
                    st = RootOptions { action: Some(p), ask: st.ask };
                },
                _ => {
                    return Err(HillError::ParameterNotPath { name });
                },
            }
        } else if str_eq(name.as_str(), "ask") {
            if st.ask.is_some() {
                return Err(HillError::DuplicateParameter { name });
            }
            match value {
                ExprModel::LitStr(l) => {
                    st = RootOptions { action: st.action, ask: Some(l) };
                },
                _ => {
                    return Err(HillError::AskNotString);
                },
            }
        } else {
            return Err(HillError::UnknownRootParameter { name });
        }
        i = i + 1;
        assert(rest@ =~= orig.skip(i as int));
    }
    proof {
        lemma_try_fold_end(orig, st, root_option_fold());
    }
    let RootOptions { action, ask } = st;
    match action {
        None => Err(HillError::MissingRootParameter { name: "action" }),
        Some(action) => match ask {
            None => Err(HillError::MissingRootParameter { name: "ask" }),
            Some(ask) => Ok((action, ask)),
        },
    }
}

// ---------------------------------------------------------------------------
// The marks of a field: `context`, `with = path`, `arg(...)`, `command(...)`
// ---------------------------------------------------------------------------

/// The marks of a field of the command structure read so far.
pub struct RootMarks {
    pub context: bool,
    /// `with = path`, as printed.
    pub resolver: Option<Seq<char>>,
    /// The clap attributes written as `arg(...)` and `command(...)`.
    pub clap: Seq<AttrSpec>,
}

/// The marks of a field as they are kept while reading.
pub struct RootFieldMarks {
    pub context: bool,
    pub resolver: Option<String>,
    pub clap_attributes: Vec<Attribute>,
}

pub open spec fn root_marks_of(m: RootFieldMarks) -> RootMarks {
    RootMarks {
        context: m.context,
        resolver: match m.resolver {
            Some(r) => Some(r@),
            None => None,
        },
        clap: attr_descs(m.clap_attributes@),
    }
}

/// One nested entry of a field's `hill` attribute inside `root`.
pub open spec fn root_entry_step(field: String, st: RootMarks, e: NestedEntry) -> Result<RootMarks, HillError> {
    if spec_is_ident(e.path, "context"@) {
        if st.context {
            Err(HillError::DuplicateFieldMarker { marker: "context", field })
        } else {
            match e.value {
                NestedValue::Bare => Ok(RootMarks { context: true, resolver: st.resolver, clap: st.clap }),
                _ => Err(HillError::ExpectedComma),
            }
        }
    } else if spec_is_ident(e.path, "with"@) {
        if st.resolver is Some {
            Err(HillError::DuplicateFieldMarker { marker: "with", field })
        } else {
            match e.value {
                NestedValue::Assigned(a) => match a.path {
                    Err(m) => Err(HillError::Syntax(m)),
                    Ok((p, complete)) => if complete {
                        Ok(RootMarks { context: st.context, resolver: Some(path_text(p)), clap: st.clap })
                    } else {
                        Err(HillError::ExpectedComma)
                    },
                },
                _ => Err(HillError::ExpectedEq),
            }
        }
    } else if spec_is_ident(e.path, "arg"@) || spec_is_ident(e.path, "command"@) {
        match e.value {
            NestedValue::Paren(pv) => Ok(
                RootMarks {
                    context: st.context,
                    resolver: st.resolver,
                    clap: st.clap.push(
                        paren_attr_spec(if spec_is_ident(e.path, "arg"@) { "arg"@ } else { "command"@ }, pv),
                    ),
                },
            ),
            _ => Err(HillError::ExpectedParens),
        }
    } else {
        Err(HillError::UnknownRootFieldMarker { field })
    }
}

pub open spec fn root_entry_fold(field: String) -> spec_fn(RootMarks, NestedEntry) -> Result<RootMarks, HillError> {
    |st: RootMarks, e: NestedEntry| root_entry_step(field, st, e)
}

/// One `hill` attribute of a field: its entries in order, then its syntax error if any.
pub open spec fn root_attr_step(field: String, st: RootMarks, a: Attribute) -> Result<RootMarks, HillError> {
    match try_fold(a.nested.entries@, st, root_entry_fold(field)) {
        Err(e) => Err(e),
        Ok(next) => match a.nested.error {
            Some(m) => Err(HillError::Syntax(m)),
            None => Ok(next),
        },
    }
}

pub open spec fn root_attr_fold(field: String) -> spec_fn(RootMarks, Attribute) -> Result<RootMarks, HillError> {
    |st: RootMarks, a: Attribute| root_attr_step(field, st, a)
}

pub open spec fn no_root_marks() -> RootMarks {
    RootMarks { context: false, resolver: None, clap: Seq::empty() }
}

/// The marks of a field of the command structure, read from its `hill` attributes;
/// `with` is required.
pub open spec fn spec_root_field(hill: Seq<Attribute>, field: String) -> Result<RootMarks, HillError> {
    match try_fold(hill, no_root_marks(), root_attr_fold(field)) {
        Err(e) => Err(e),
        Ok(m) => if m.resolver is None {
            Err(HillError::MissingWith { field })
        } else {
            Ok(m)
        },
    }
}

fn apply_root_entry(field: &String, st: RootFieldMarks, e: NestedEntry) -> (r: Result<RootFieldMarks, HillError>)
    ensures
        match root_entry_step(*field, root_marks_of(st), e) {
            Err(err) => r == Err::<RootFieldMarks, HillError>(err),
            Ok(m) => r is Ok && root_marks_of(r->Ok_0) == m,
        },
{
    let RootFieldMarks { context, resolver, clap_attributes } = st;
    let NestedEntry { path, value } = e;
    if is_ident(&path, "context") {
        if context {
            return Err(HillError::DuplicateFieldMarker { marker: "context", field: field.clone() });
        }
        match value {
            NestedValue::Bare => Ok(RootFieldMarks { context: true, resolver, clap_attributes }),
            _ => Err(HillError::ExpectedComma),
        }
    } else if is_ident(&path, "with") {
        if resolver.is_some() {
            return Err(HillError::DuplicateFieldMarker { marker: "with", field: field.clone() });
        }
        match value {
            NestedValue::Assigned(a) => match a.path {
                Err(m) => Err(HillError::Syntax(m)),
                Ok((p, complete)) => {
                    if !complete {
                        return Err(HillError::ExpectedComma);
                    }
                    let text = render_path(&p);
                    Ok(RootFieldMarks { context, resolver: Some(text), clap_attributes })
                },
            },
            _ => Err(HillError::ExpectedEq),
        }
    } else if is_ident(&path, "arg") || is_ident(&path, "command") {
        match value {
            NestedValue::Paren(pv) => {
                let name = if is_ident(&path, "arg") {
                    "arg"
                } else {
                    "command"
                };
                let attr = paren_attribute(name, pv);
                let mut clap_attributes = clap_attributes;
                let ghost before = clap_attributes@;
                clap_attributes.push(attr);
                assert(attr_descs(clap_attributes@) =~= attr_descs(before).push(attr_desc(attr)));
                Ok(RootFieldMarks { context, resolver, clap_attributes })
            },
            _ => Err(HillError::ExpectedParens),
        }
    } else {
        Err(HillError::UnknownRootFieldMarker { field: field.clone() })
    }
}

fn apply_root_attr(field: &String, st: RootFieldMarks, a: Attribute) -> (r: Result<RootFieldMarks, HillError>)
    ensures
        match root_attr_step(*field, root_marks_of(st), a) {
            Err(err) => r == Err::<RootFieldMarks, HillError>(err),
            Ok(m) => r is Ok && root_marks_of(r->Ok_0) == m,
        },
{
    let ghost attr = a;
    let Attribute { path: _, text: _, meta: _, nested } = a;
    let NestedMeta { entries, error } = nested;
    let ghost orig = entries@;
    let ghost start = root_marks_of(st);
    assert(orig.len() == entries.len());
    let mut rest = entries;
    let mut state = st;
    let mut i: usize = 0;
    assert(orig.skip(0) =~= orig);
    while rest.len() > 0
        invariant
            i <= orig.len() <= usize::MAX,
            orig == attr.nested.entries@,
            attr == a,
            start == root_marks_of(st),
            error == attr.nested.error,
            rest@ == orig.skip(i as int),
            try_fold(orig, start, root_entry_fold(*field)) == try_fold(
                orig.skip(i as int),
                root_marks_of(state),
                root_entry_fold(*field),
            ),
        decreases rest.len(),
    {
        let e = rest.remove(0);
        assert(e == orig[i as int]);
        proof {
            lemma_try_fold_step(orig, i as int, root_marks_of(state), root_entry_fold(*field));
            assert(root_entry_fold(*field)(root_marks_of(state), e) == root_entry_step(*field, root_marks_of(state), e));
        }
        state = match apply_root_entry(field, state, e) {
            Err(err) => {
                return Err(err);
            },
            Ok(next) => next,
        };
        i = i + 1;
        assert(rest@ =~= orig.skip(i as int));
    }
    proof {
        lemma_try_fold_end(orig, root_marks_of(state), root_entry_fold(*field));
    }
    match error {
        Some(m) => Err(HillError::Syntax(m)),
        None => Ok(state),
    }
}

/// Reads the marks of a field of the command structure from its `hill` attributes.
pub fn parse_root_field(hill: Vec<Attribute>, field: &String) -> (r: Result<RootFieldMarks, HillError>)
    ensures
        match spec_root_field(hill@, *field) {
            Err(e) => r == Err::<RootFieldMarks, HillError>(e),
            Ok(m) => r is Ok && root_marks_of(r->Ok_0) == m,
        },
{
    let ghost orig = hill@;
    assert(orig.len() == hill.len());
    let mut rest = hill;
    let mut state = RootFieldMarks { context: false, resolver: None, clap_attributes: Vec::new() };
    assert(root_marks_of(state).clap =~= Seq::<AttrSpec>::empty());
    let mut i: usize = 0;
    assert(orig.skip(0) =~= orig);
    while rest.len() > 0
        invariant
            i <= orig.len() <= usize::MAX,
            orig == hill@,
            rest@ == orig.skip(i as int),
            try_fold(orig, no_root_marks(), root_attr_fold(*field)) == try_fold(
                orig.skip(i as int),
                root_marks_of(state),
                root_attr_fold(*field),
            ),
        decreases rest.len(),
    {
        let a = rest.remove(0);
        assert(a == orig[i as int]);
        proof {
            lemma_try_fold_step(orig, i as int, root_marks_of(state), root_attr_fold(*field));
            assert(root_attr_fold(*field)(root_marks_of(state), a) == root_attr_step(*field, root_marks_of(state), a));
        }
        state = match apply_root_attr(field, state, a) {
            Err(err) => {
                return Err(err);
            },
            Ok(next) => next,
        };
        i = i + 1;
        assert(rest@ =~= orig.skip(i as int));
    }
    proof {
        lemma_try_fold_end(orig, root_marks_of(state), root_attr_fold(*field));
    }
    if state.resolver.is_none() {
        return Err(HillError::MissingWith { field: field.clone() });
    }
    Ok(state)
}

// ---------------------------------------------------------------------------
// The fields of the command structure
// ---------------------------------------------------------------------------

/// A field of the command structure as the parser `Cli` holds it.
pub struct RootFieldSpec {
    pub visibility: Seq<char>,
    pub ident: String,
    /// The field's type, as printed.
    pub ty: Seq<char>,
    /// The function that resolves the field, as printed.
    pub resolver: Seq<char>,
    pub clap: Seq<AttrSpec>,
}

/// A field of the command structure as it is kept while expanding.
pub struct RootField {
    pub visibility: String,
    pub ident: String,
    pub ty: String,
    pub resolver: String,
    pub clap_attributes: Vec<Attribute>,
}

pub open spec fn root_field_view(f: RootField) -> RootFieldSpec {
    RootFieldSpec {
        visibility: f.visibility@,
        ident: f.ident,
        ty: f.ty@,
        resolver: f.resolver@,
        clap: attr_descs(f.clap_attributes@),
    }
}

pub open spec fn root_field_views(fs: Seq<RootField>) -> Seq<RootFieldSpec> {
    fs.map_values(|f: RootField| root_field_view(f))
}

/// The fields read so far, and the field marked `context` if one was.
pub struct RootScan {
    pub fields: Seq<RootFieldSpec>,
    pub context: Option<String>,
}

/// Reading one field: its description and whether it is marked `context`.
pub open spec fn root_field_outcome(f: FieldModel) -> Result<(RootFieldSpec, bool), HillError> {
    match f.ident {
        None => Err(HillError::ExpectedNamedField),
        Some(x) => match spec_root_field(keep(f.attrs@, named_in(hill_names())), x) {
            Err(e) => Err(e),
            Ok(m) => Ok(
                (
                    RootFieldSpec {
                        visibility: f.vis@,
                        ident: x,
                        ty: type_text(f.ty),
                        resolver: m.resolver->Some_0,
                        clap: m.clap,
                    },
                    m.context,
                ),
            ),
        },
    }
}

/// One field of the command structure; a second `context` mark is refused.
pub open spec fn root_fields_step(st: RootScan, f: FieldModel) -> Result<RootScan, HillError> {
    match root_field_outcome(f) {
        Err(e) => Err(e),
        Ok((spec, context)) => if context && st.context is Some {
            Err(HillError::ExtraContext { field: spec.ident })
        } else {
            Ok(
                RootScan {
                    fields: st.fields.push(spec),
                    context: if context { Some(spec.ident) } else { st.context },
                },
            )
        },
    }
}

pub open spec fn root_fields_fold() -> spec_fn(RootScan, FieldModel) -> Result<RootScan, HillError> {
    |st: RootScan, f: FieldModel| root_fields_step(st, f)
}

/// Whether the field is named `action`.
pub open spec fn is_action_field(f: FieldModel) -> bool {
    f.ident matches Some(x) && x@ == "action"@
}

/// Whether one of the fields is named `action`.
pub open spec fn declares_action_spec(fs: Seq<FieldModel>) -> bool {
    exists|i: int| 0 <= i < fs.len() && is_action_field(#[trigger] fs[i])
}

/// Whether one of the fields is named `action`.
pub fn declares_action(fs: &Vec<FieldModel>) -> (r: bool)
    ensures
        r == declares_action_spec(fs@),
{
    let mut i: usize = 0;
    while i < fs.len()
        invariant
            i <= fs.len(),
            forall|j: int| 0 <= j < i ==> !is_action_field(#[trigger] fs@[j]),
        decreases fs.len() - i,
    {
        match &fs[i].ident {
            Some(x) => {
                if str_eq(x.as_str(), "action") {
                    assert(is_action_field(fs@[i as int]));
                    return true;
                }
            },
            None => {},
        }
        i = i + 1;
    }
    false
}

// ---------------------------------------------------------------------------
// The expansion
// ---------------------------------------------------------------------------

/// What `root` reads: the action type, the question, the structure, its fields and
/// the field that holds the context.
pub struct RootPlan {
    pub action: PathModel,
    pub ask: LitStrModel,
    pub item: StructModel,
    pub fields: Seq<RootFieldSpec>,
    pub context: String,
}

/// What `#[root(...)]` reads from its arguments and its structure, or the first error met.
pub open spec fn spec_root(arguments: Result<Vec<MetaItem>, String>, input: Result<StructModel, String>) -> Result<RootPlan, HillError> {
    match spec_root_options(arguments) {
        Err(e) => Err(e),
        Ok((action, ask)) => match input {
            Err(m) => Err(HillError::Syntax(m)),
            Ok(item) => match item.fields {
                FieldsModel::Named(fs, _) => if declares_action_spec(fs@) {
                    Err(HillError::ActionFieldDeclared { item: item.ident })
                } else if action.segments@.len() == 0 {
                    Err(HillError::ActionNotPath)
                } else {
                    match try_fold(fs@, RootScan { fields: Seq::empty(), context: None }, root_fields_fold()) {
                        Err(e) => Err(e),
                        Ok(scan) => match scan.context {
                            None => Err(
                                HillError::MissingContextField {
                                    field: if scan.fields.len() > 0 { scan.fields[0].ident } else { item.ident },
                                },
                            ),
                            Some(context) => Ok(RootPlan { action, ask, item, fields: scan.fields, context }),
                        },
                    }
                },
                _ => Err(HillError::NamedFieldsRequired { item: item.ident }),
            },
        },
    }
}

/// Whether one of the field's `hill` attributes holds an entry named `context`.
pub open spec fn marked_context(f: FieldModel) -> bool {
    exists|a: int, m: int|
        0 <= a < f.attrs@.len() && spec_is_ident(f.attrs@[a].path, "hill"@) && 0 <= m < f.attrs@[a].nested.entries@.len()
            && spec_is_ident(#[trigger] f.attrs@[a].nested.entries@[m].path, "context"@)
}

/// A field marked `context` is read, when it is read at all, as the context field.
proof fn lemma_marked_field_is_context(f: FieldModel)
    requires
        marked_context(f),
    ensures
        root_field_outcome(f) matches Ok((_, context)) ==> context,
{
    let (a, m) = choose|a: int, m: int|
        0 <= a < f.attrs@.len() && spec_is_ident(f.attrs@[a].path, "hill"@) && 0 <= m < f.attrs@[a].nested.entries@.len()
            && spec_is_ident(#[trigger] f.attrs@[a].nested.entries@[m].path, "context"@);
    if f.ident is Some {
        let x = f.ident->Some_0;
        let es = f.attrs@[a].nested.entries@;
        let hs = keep(f.attrs@, named_in(hill_names()));
        assert(hill_names()[0]@ == "hill"@);
        assert(named_in(hill_names())(f.attrs@[a]));
        crate::text::lemma_keep_contains(f.attrs@, named_in(hill_names()), a);
        let j = choose|j: int| 0 <= j < hs.len() && hs[j] == f.attrs@[a];
        let inv = |s: RootMarks| s.context;
        assert forall|st: RootMarks, n: NestedEntry| inv(st) && (#[trigger] root_entry_fold(x)(st, n)) is Ok implies inv(
            root_entry_fold(x)(st, n)->Ok_0,
        ) by {
            assert(root_entry_fold(x)(st, n) == root_entry_step(x, st, n));
        }
        assert forall|st: RootMarks| (#[trigger] root_entry_fold(x)(st, es[m])) is Ok implies inv(
            root_entry_fold(x)(st, es[m])->Ok_0,
        ) by {
            assert(root_entry_fold(x)(st, es[m]) == root_entry_step(x, st, es[m]));
        }
        assert forall|st: RootMarks, at: Attribute| inv(st) && (#[trigger] root_attr_fold(x)(st, at)) is Ok implies inv(
            root_attr_fold(x)(st, at)->Ok_0,
        ) by {
            assert(root_attr_fold(x)(st, at) == root_attr_step(x, st, at));
            crate::text::lemma_try_fold_keeps(at.nested.entries@, st, root_entry_fold(x), inv);
        }
        assert forall|st: RootMarks| (#[trigger] root_attr_fold(x)(st, hs[j])) is Ok implies inv(
            root_attr_fold(x)(st, hs[j])->Ok_0,
        ) by {
            assert(root_attr_fold(x)(st, hs[j]) == root_attr_step(x, st, hs[j]));
            crate::text::lemma_try_fold_sets(es, m, st, root_entry_fold(x), inv);
        }
        crate::text::lemma_try_fold_sets(hs, j, no_root_marks(), root_attr_fold(x), inv);
    }
}

/// `resolve` fills the action with the field marked `context`, wherever it stands among
/// the fields: what `root` reads of an accepted structure names that field as the context.
pub proof fn root_fills_with_the_context_field(
    arguments: Result<Vec<MetaItem>, String>,
    input: Result<StructModel, String>,
    k: int,
)
    requires
        spec_root(arguments, input) is Ok,
        input is Ok,
        0 <= k < fields_of(input->Ok_0.fields).len(),
        marked_context(fields_of(input->Ok_0.fields)[k]),
    ensures
        fields_of(input->Ok_0.fields)[k].ident == Some(spec_root(arguments, input)->Ok_0.context),
{
    let fs = fields_of(input->Ok_0.fields);
    let f = fs[k];
    lemma_marked_field_is_context(f);
    let inv = |st: RootScan| st.context is Some && st.context == f.ident;
    assert forall|st: RootScan, g: FieldModel| inv(st) && (#[trigger] root_fields_fold()(st, g)) is Ok implies inv(
        root_fields_fold()(st, g)->Ok_0,
    ) by {
        assert(root_fields_fold()(st, g) == root_fields_step(st, g));
    }
    assert forall|st: RootScan| (#[trigger] root_fields_fold()(st, fs[k])) is Ok implies inv(
        root_fields_fold()(st, fs[k])->Ok_0,
    ) by {
        assert(root_fields_fold()(st, fs[k]) == root_fields_step(st, fs[k]));
    }
    crate::text::lemma_try_fold_sets(fs, k, RootScan { fields: Seq::empty(), context: None }, root_fields_fold(), inv);
}

/// What scanning fields adds: one description for each field, in order.
proof fn lemma_scan_fields(fs: Seq<FieldModel>, st: RootScan)
    ensures
        try_fold(fs, st, root_fields_fold()) matches Ok(scan) ==> {
            &&& scan.fields.len() == st.fields.len() + fs.len()
            &&& forall|i: int| 0 <= i < st.fields.len() ==> scan.fields[i] == st.fields[i]
            &&& forall|i: int| 0 <= i < fs.len() ==> (#[trigger] root_field_outcome(fs[i])) is Ok
                && scan.fields[st.fields.len() + i] == root_field_outcome(fs[i])->Ok_0.0
        },
    decreases fs.len(),
{
    if fs.len() > 0 {
        assert(root_fields_fold()(st, fs[0]) == root_fields_step(st, fs[0]));
        match root_fields_step(st, fs[0]) {
            Err(_) => {},
            Ok(next) => {
                lemma_scan_fields(fs.drop_first(), next);
                if let Ok(scan) = try_fold(fs, st, root_fields_fold()) {
                    assert forall|i: int| 0 <= i < fs.len() implies (#[trigger] root_field_outcome(fs[i])) is Ok
                        && scan.fields[st.fields.len() + i] == root_field_outcome(fs[i])->Ok_0.0 by {
                        if i > 0 {
                            assert(fs.drop_first()[i - 1] == fs[i]);
                            assert(scan.fields[st.fields.len() + i] == scan.fields[next.fields.len() + (i - 1)]);
                        }
                    }
                }
            },
        }
    }
}

/// `Cli` and `resolve` take every field of an accepted command structure, in order: each
/// with its name, its type and the function named by its `with` mark.
pub proof fn root_resolves_every_field(arguments: Result<Vec<MetaItem>, String>, input: Result<StructModel, String>)
    requires
        spec_root(arguments, input) is Ok,
        input is Ok,
    ensures
        spec_root(arguments, input)->Ok_0.fields.len() == fields_of(input->Ok_0.fields).len(),
        forall|i: int| 0 <= i < fields_of(input->Ok_0.fields).len() ==> {
            let f = #[trigger] fields_of(input->Ok_0.fields)[i];
            let g = spec_root(arguments, input)->Ok_0.fields[i];
            &&& f.ident == Some(g.ident)
            &&& g.ty == type_text(f.ty)
            &&& g.visibility == f.vis@
            &&& spec_root_field(keep(f.attrs@, named_in(hill_names())), g.ident) matches Ok(marks)
                && marks.resolver == Some(g.resolver)
        },
{
    let fs = fields_of(input->Ok_0.fields);
    let plan = spec_root(arguments, input)->Ok_0;
    lemma_scan_fields(fs, RootScan { fields: Seq::empty(), context: None });
    assert forall|i: int| 0 <= i < fs.len() implies {
        let f = #[trigger] fs[i];
        let g = plan.fields[i];
        &&& f.ident == Some(g.ident)
        &&& g.ty == type_text(f.ty)
        &&& g.visibility == f.vis@
        &&& spec_root_field(keep(f.attrs@, named_in(hill_names())), g.ident) matches Ok(marks)
            && marks.resolver == Some(g.resolver)
    } by {
        assert(root_field_outcome(fs[i]) is Ok);
        assert(plan.fields[i] == root_field_outcome(fs[i])->Ok_0.0);
    }
}

/// The call of `fill` in `resolve`: the action's arguments and a reference to the field `context`.
pub open spec fn fill_call_text(context: Seq<char>) -> Seq<char> {
    "fill (action_args , & "@ + context + ")"@
}

/// The tail of `resolve` calls `fill` with the plan's context field.
proof fn lemma_tail_calls_fill(plan: RootPlan)
    ensures
        occurs_in(fill_call_text(plan.context@), resolve_tail_text(plan)),
{
    let inits = braced(word2(comma_list(plan.fields.map_values(|f: RootFieldSpec| f.ident@)), "action ,"@));
    let head = subcommand_text(plan.ask.text@);
    let call = fill_call_text(plan.context@);
    let with_call = head + "fill (action_args , & "@ + plan.context@ + ")"@;
    assert(with_call.subrange(head.len() as int, (head.len() + call.len()) as int) =~= call);
    let t1 = with_call + " . await ? ; Ok ("@;
    let t2 = t1 + plan.item.ident@;
    let t3 = t2 + " "@;
    let t4 = t3 + inits;
    lemma_occurs_in_joined(call, with_call, " . await ? ; Ok ("@);
    lemma_occurs_in_joined(call, t1, plan.item.ident@);
    lemma_occurs_in_joined(call, t2, " "@);
    lemma_occurs_in_joined(call, t3, inits);
    lemma_occurs_in_joined(call, t4, ")"@);
}

/// The code that `root` writes for an accepted structure calls `fill` with the action's
/// arguments and the field marked `context`, wherever that field stands among the fields.
pub proof fn root_calls_fill_with_the_context_field(
    arguments: Result<Vec<MetaItem>, String>,
    input: Result<StructModel, String>,
    k: int,
    text: Seq<char>,
)
    requires
        spec_root(arguments, input) is Ok,
        input is Ok,
        0 <= k < fields_of(input->Ok_0.fields).len(),
        marked_context(fields_of(input->Ok_0.fields)[k]),
        root_expansion_of(text, spec_root(arguments, input)->Ok_0),
    ensures
        fields_of(input->Ok_0.fields)[k].ident matches Some(x) && occurs_in(fill_call_text(x@), text),
{
    let plan = spec_root(arguments, input)->Ok_0;
    root_fills_with_the_context_field(arguments, input, k);
    let c = choose|c: StructModel| root_stripped(c, plan.item, plan.action) && text == root_text(struct_text(c), plan);
    let call = fill_call_text(plan.context@);
    lemma_tail_calls_fill(plan);
    let head = word2(plan.item.vis@, "async fn resolve (self) -> :: command_hills :: Result < "@ + plan.item.ident@ + " >"@);
    let body = word2(words(plan.fields.map_values(|f: RootFieldSpec| resolved_field_text(f))), resolve_tail_text(plan));
    lemma_occurs_in_joined(call, words(plan.fields.map_values(|f: RootFieldSpec| resolved_field_text(f))), resolve_tail_text(plan));
    lemma_occurs_in_braced(call, body);
    lemma_occurs_in_joined(call, head, braced(body));
    lemma_occurs_in_braced(call, word2(head, braced(body)));
    lemma_occurs_in_joined(call, "impl Cli "@, braced(word2(head, braced(body))));
    let w1 = word2(struct_text(c), cli_text(plan));
    lemma_occurs_in_joined(call, w1, cli_impl_text(plan));
    lemma_occurs_in_joined(call, word2(w1, cli_impl_text(plan)), parse_impl_text(plan));
}

/// `out` is the command structure `src` without `command` and `hill` attributes, with the
/// field `action` of type `action` added after its own fields and no comma after it.
pub open spec fn root_stripped(out: StructModel, src: StructModel, action: PathModel) -> bool {
    &&& out.attrs@ == keep(keep(src.attrs@, named_outside(seq!["command"])), named_outside(hill_names()))
    &&& out.vis == src.vis
    &&& out.ident == src.ident
    &&& out.generics == src.generics
    &&& match (out.fields, src.fields) {
        (FieldsModel::Named(a, ta), FieldsModel::Named(b, _)) => {
            &&& !ta
            &&& a@.len() == b@.len() + 1
            &&& forall|i: int| 0 <= i < b@.len() ==> field_stripped(#[trigger] a@[i], b@[i])
            &&& a@[b@.len() as int].attrs@.len() == 0
            &&& a@[b@.len() as int].vis == src.vis
            &&& is_action_field(a@[b@.len() as int])
            &&& a@[b@.len() as int].ty == TypeModel::Path(action)
        },
        _ => false,
    }
}

/// The structure that `root` writes back carries no `command` or `hill` attribute, and
/// its fields carry no `hill` attribute.
pub proof fn root_leaves_no_hill_marks(c: StructModel, src: StructModel, action: PathModel)
    requires
        root_stripped(c, src, action),
    ensures
        none_named(c.attrs@, "hill"@),
        none_named(c.attrs@, "command"@),
        forall|k: int| 0 <= k < fields_of(c.fields).len() ==> none_named((#[trigger] fields_of(c.fields)[k]).attrs@, "hill"@),
{
    let without_command = keep(src.attrs@, named_outside(seq!["command"]));
    assert(hill_names()[0]@ == "hill"@);
    assert(seq!["command"][0]@ == "command"@);
    lemma_kept_outside(without_command, hill_names(), 0);
    lemma_kept_outside(src.attrs@, seq!["command"], 0);
    crate::text::lemma_keep_elements(without_command, named_outside(hill_names()));
    assert forall|j: int| 0 <= j < c.attrs@.len() implies !spec_is_ident((#[trigger] c.attrs@[j]).path, "command"@) by {
        assert(without_command.contains(c.attrs@[j]));
    }
    match (c.fields, src.fields) {
        (FieldsModel::Named(a, _), FieldsModel::Named(b, _)) => {
            assert forall|k: int| 0 <= k < a@.len() implies none_named((#[trigger] a@[k]).attrs@, "hill"@) by {
                if k < b@.len() {
                    assert(field_stripped(a@[k], b@[k]));
                    lemma_kept_outside(b@[k].attrs@, hill_names(), 0);
                }
            }
        },
        _ => {},
    }
}

/// A field of `Cli`: `attrs vis name : Option < Type >`.
pub open spec fn cli_field_text(f: RootFieldSpec) -> Seq<char> {
    word2(word2(word2(word2(texts_of(f.clap), f.visibility), f.ident@), ":"@), "Option < "@ + f.ty + " >"@)
}

/// The statement of `resolve` that resolves one field.
pub open spec fn resolved_field_text(f: RootFieldSpec) -> Seq<char> {
    "let "@ + f.ident@ + " = "@ + f.resolver + " (self . "@ + f.ident@ + ") ;"@
}

/// The parser `Cli`.
pub open spec fn cli_text(plan: RootPlan) -> Seq<char> {
    let vis = plan.item.vis@;
    let head = word2(
        word2(word2("# [derive (clap :: Parser)]"@, texts_of(attr_descs(keep(plan.item.attrs@, named_in(seq!["command"]))))), vis),
        "struct Cli"@,
    );
    let action = word2(word2("# [command (subcommand)]"@, vis), "action : Option < "@ + suffixed_path_text(plan.action, "Args"@) + " > ,"@);
    word2(head, braced(word2(comma_list(plan.fields.map_values(|f: RootFieldSpec| cli_field_text(f))), action)))
}

/// The start of the tail of `resolve`: the subcommand parsed, or asked for with `ask` and parsed.
pub open spec fn subcommand_text(ask: Seq<char>) -> Seq<char> {
    "let action_args = match self . action { Some (action) => action , None => { let chosen = :: command_hills :: __private :: ask_subcommand :: < Cli > ("@
        + ask
        + ") ? ; let parsed = :: command_hills :: __private :: clap_result (< Cli as clap :: Parser > :: try_parse_from ([:: std :: string :: String :: from (\"command-hills\") , chosen ,]) ,) ? ; :: command_hills :: __private :: required_subcommand (parsed . action) ? } } ; let action = "@
}

/// The body of `Cli::resolve` after the resolved fields.
pub open spec fn resolve_tail_text(plan: RootPlan) -> Seq<char> {
    let inits = braced(word2(comma_list(plan.fields.map_values(|f: RootFieldSpec| f.ident@)), "action ,"@));
    subcommand_text(plan.ask.text@) + "fill (action_args , & "@ + plan.context@ + ")"@ + " . await ? ; Ok ("@ + plan.item.ident@ + " "@ + inits + ")"@
}

/// `impl Cli` with `resolve`.
pub open spec fn cli_impl_text(plan: RootPlan) -> Seq<char> {
    let head = word2(plan.item.vis@, "async fn resolve (self) -> :: command_hills :: Result < "@ + plan.item.ident@ + " >"@);
    let body = word2(words(plan.fields.map_values(|f: RootFieldSpec| resolved_field_text(f))), resolve_tail_text(plan));
    "impl Cli "@ + braced(word2(head, braced(body)))
}

/// `impl` of the command structure with `parse`.
pub open spec fn parse_impl_text(plan: RootPlan) -> Seq<char> {
    "impl "@ + plan.item.ident@ + " "@ + braced(
        word2(
            plan.item.vis@,
            "async fn parse () -> :: command_hills :: Result < Self > { < Cli as clap :: Parser > :: parse () . resolve () . await }"@,
        ),
    )
}

/// The code that `root` writes: the structure, then `Cli`, its `resolve`, and `parse`.
pub open spec fn root_text(item: Seq<char>, plan: RootPlan) -> Seq<char> {
    word2(word2(word2(item, cli_text(plan)), cli_impl_text(plan)), parse_impl_text(plan))
}

/// `text` is the expansion of `root` for `plan`.
pub open spec fn root_expansion_of(text: Seq<char>, plan: RootPlan) -> bool {
    exists|c: StructModel| root_stripped(c, plan.item, plan.action) && text == root_text(struct_text(c), plan)
}

/// Reads the fields of the command structure: what `Cli` holds of each, the fields without
/// their `hill` attributes, and the field marked `context`.
fn scan_root_fields(fs: Vec<FieldModel>) -> (r: Result<(Vec<RootField>, Vec<FieldModel>, Option<String>), HillError>)
    ensures
        match try_fold(fs@, RootScan { fields: Seq::empty(), context: None }, root_fields_fold()) {
            Err(e) => r == Err::<(Vec<RootField>, Vec<FieldModel>, Option<String>), HillError>(e),
            Ok(scan) => r is Ok && root_field_views(r->Ok_0.0@) == scan.fields && r->Ok_0.2 == scan.context
                && r->Ok_0.1@.len() == fs@.len()
                && forall|i: int| 0 <= i < fs@.len() ==> field_stripped(#[trigger] r->Ok_0.1@[i], fs@[i]),
        },
{
    let ghost orig = fs@;
    assert(orig.len() == fs.len());
    let mut rest = fs;
    let mut out: Vec<RootField> = Vec::new();
    let mut stripped: Vec<FieldModel> = Vec::new();
    let mut context: Option<String> = None;
    let mut i: usize = 0;
    assert(orig.skip(0) =~= orig);
    assert(root_field_views(out@) =~= Seq::<RootFieldSpec>::empty());
    while rest.len() > 0
        invariant
            i <= orig.len() <= usize::MAX,
            orig == fs@,
            rest@ == orig.skip(i as int),
            stripped@.len() == i,
            forall|j: int| 0 <= j < i ==> field_stripped(#[trigger] stripped@[j], orig[j]),
            try_fold(orig, RootScan { fields: Seq::empty(), context: None }, root_fields_fold()) == try_fold(
                orig.skip(i as int),
                RootScan { fields: root_field_views(out@), context },
                root_fields_fold(),
            ),
        decreases rest.len(),
    {
        let f = rest.remove(0);
        assert(f == orig[i as int]);
        let ghost st = RootScan { fields: root_field_views(out@), context };
        proof {
            lemma_try_fold_step(orig, i as int, st, root_fields_fold());
            assert(root_fields_fold()(st, f) == root_fields_step(st, f));
        }
        let ghost src = f;
        let FieldModel { attrs, vis, ident, ty } = f;
        let x = match ident {
            None => {
                return Err(HillError::ExpectedNamedField);
            },
            Some(x) => x,
        };
        let (hill, kept) = partition_attributes(attrs, &["hill"]);
        assert(["hill"]@ =~= hill_names());
        let marks = match parse_root_field(hill, &x) {
            Err(e) => {
                return Err(e);
            },
            Ok(m) => m,
        };
        if marks.context && context.is_some() {
            return Err(HillError::ExtraContext { field: x });
        }
        let RootFieldMarks { context: is_context, resolver, clap_attributes } = marks;
        let resolver = resolver.unwrap();
        let ty_text = render_type(&ty);
        let field = RootField {
            visibility: vis.clone(),
            ident: x.clone(),
            ty: ty_text,
            resolver,
            clap_attributes,
        };
        if is_context {
            context = Some(x.clone());
        }
        let ghost before = out@;
        out.push(field);
        assert(root_field_views(out@) =~= root_field_views(before).push(root_field_view(field)));
        stripped.push(FieldModel { attrs: kept, vis, ident: Some(x), ty });
        i = i + 1;
        assert(rest@ =~= orig.skip(i as int));
    }
    proof {
        lemma_try_fold_end(orig, RootScan { fields: root_field_views(out@), context }, root_fields_fold());
    }
    Ok((out, stripped, context))
}

/// `#[root(action = Action, ask = "...")]`: expands the command structure.
pub fn expand(arguments: Result<Vec<MetaItem>, String>, input: Result<StructModel, String>) -> (r: Result<String, HillError>)
    ensures
        match spec_root(arguments, input) {
            Err(e) => r == Err::<String, HillError>(e),
            Ok(plan) => r is Ok && root_expansion_of(r->Ok_0@, plan),
        },
{
    let ghost args0 = arguments;
    let ghost input0 = input;
    let (action, ask) = match parse_root_options(arguments) {
        Err(e) => {
            return Err(e);
        },
        Ok(o) => o,
    };
    let item = match input {
        Err(m) => {
            return Err(HillError::Syntax(m));
        },
        Ok(item) => item,
    };
    let ghost src = item;
    let StructModel { attrs, vis, ident, generics, fields } = item;
    let fs = match fields {
        FieldsModel::Named(fs, _) => fs,
        _ => {
            return Err(HillError::NamedFieldsRequired { item: ident });
        },
    };
    if declares_action(&fs) {
        return Err(HillError::ActionFieldDeclared { item: ident });
    }
    if action.segments.len() == 0 {
        return Err(HillError::ActionNotPath);
    }
    let action_args = render_suffixed_path(&action, "Args");
    let (cli_attributes, rest_attrs) = partition_attributes(attrs, &["command"]);
    let (_, kept_attrs) = partition_attributes(rest_attrs, &["hill"]);
    assert(["command"]@ =~= seq!["command"]);
    assert(["hill"]@ =~= hill_names());
    let ghost orig_fields = fs@;
    let (parsed, stripped, context) = match scan_root_fields(fs) {
        Err(e) => {
            return Err(e);
        },
        Ok(t) => t,
    };
    let context = match context {
        None => {
            let field = if parsed.len() > 0 {
                parsed[0].ident.clone()
            } else {
                ident
            };
            return Err(HillError::MissingContextField { field });
        },
        Some(c) => c,
    };
    let ghost plan = RootPlan { action, ask, item: src, fields: root_field_views(parsed@), context };
    assert(spec_root(args0, input0) == Ok::<RootPlan, HillError>(plan));
    // The structure, with `action` added.
    let mut new_fields = stripped;
    new_fields.push(FieldModel { attrs: Vec::new(), vis: vis.clone(), ident: Some(owned("action")), ty: TypeModel::Path(action) });
    let cleaned = StructModel { attrs: kept_attrs, vis, ident, generics, fields: FieldsModel::Named(new_fields, false) };
    assert(root_stripped(cleaned, src, plan.action));
    let mut out = render_struct(&cleaned);
    let vis = &cleaned.vis;
    let ident = &cleaned.ident;
    // `Cli`.
    let mut cli = owned("# [derive (clap :: Parser)]");
    proof {
        reveal_strlit("# [derive (clap :: Parser)]");
        reveal_strlit("# [command (subcommand)]");
        reveal_strlit("struct Cli");
        reveal_strlit("action ,");
    }
    let cli_attr_text = render_attr_texts(&cli_attributes);
    push_word(&mut cli, cli_attr_text.as_str());
    push_word(&mut cli, vis.as_str());
    push_word(&mut cli, "struct Cli");
    let mut cli_fields: Vec<String> = Vec::new();
    let mut resolved: Vec<String> = Vec::new();
    let mut idents: Vec<String> = Vec::new();
    let mut k: usize = 0;
    while k < parsed.len()
        invariant
            k <= parsed.len(),
            plan.fields == root_field_views(parsed@),
            cli_fields@.len() == k,
            resolved@.len() == k,
            idents@.len() == k,
            forall|j: int| 0 <= j < k ==> #[trigger] cli_fields@[j]@ == cli_field_text(plan.fields[j]),
            forall|j: int| 0 <= j < k ==> #[trigger] resolved@[j]@ == resolved_field_text(plan.fields[j]),
            forall|j: int| 0 <= j < k ==> #[trigger] idents@[j]@ == plan.fields[j].ident@,
        decreases parsed.len() - k,
    {
        let f = &parsed[k];
        let mut line = render_attr_texts(&f.clap_attributes);
        push_word(&mut line, f.visibility.as_str());
        push_word(&mut line, f.ident.as_str());
        push_word(&mut line, ":");
        let wrapped = crate::text::concat3("Option < ", f.ty.as_str(), " >");
        push_word(&mut line, wrapped.as_str());
        cli_fields.push(line);
        let mut stmt = owned("let ");
        stmt.append(f.ident.as_str());
        stmt.append(" = ");
        stmt.append(f.resolver.as_str());
        stmt.append(" (self . ");
        stmt.append(f.ident.as_str());
        stmt.append(") ;");
        resolved.push(stmt);
        idents.push(f.ident.clone());
        k = k + 1;
    }
    assert(cli_fields@.map_values(|t: String| t@) =~= plan.fields.map_values(|f: RootFieldSpec| cli_field_text(f)));
    assert(resolved@.map_values(|t: String| t@) =~= plan.fields.map_values(|f: RootFieldSpec| resolved_field_text(f)));
    assert(idents@.map_values(|t: String| t@) =~= plan.fields.map_values(|f: RootFieldSpec| f.ident@));
    let mut inner = join_comma_list(&cli_fields);
    let mut action_field = owned("# [command (subcommand)]");
    push_word(&mut action_field, vis.as_str());
    let action_decl = crate::text::concat3("action : Option < ", action_args.as_str(), " > ,");
    push_word(&mut action_field, action_decl.as_str());
    push_word(&mut inner, action_field.as_str());
    let block = brace(inner.as_str());
    push_word(&mut cli, block.as_str());
    assert(cli@ == cli_text(plan));
    push_word(&mut out, cli.as_str());
    // `impl Cli`.
    let mut head = vis.clone();
    let sig = crate::text::concat3("async fn resolve (self) -> :: command_hills :: Result < ", ident.as_str(), " >");
    push_word(&mut head, sig.as_str());
    let mut inits = join_comma_list(&idents);
    push_word(&mut inits, "action ,");
    let inits_block = brace(inits.as_str());
    let mut tail = owned(
        "let action_args = match self . action { Some (action) => action , None => { let chosen = :: command_hills :: __private :: ask_subcommand :: < Cli > (",
    );
    tail.append(ask.text.as_str());
    tail.append(
        ") ? ; let parsed = :: command_hills :: __private :: clap_result (< Cli as clap :: Parser > :: try_parse_from ([:: std :: string :: String :: from (\"command-hills\") , chosen ,]) ,) ? ; :: command_hills :: __private :: required_subcommand (parsed . action) ? } } ; let action = ",
    );
    tail.append("fill (action_args , & ");
    tail.append(context.as_str());
    tail.append(")");
    tail.append(" . await ? ; Ok (");
    tail.append(ident.as_str());
    tail.append(" ");
    tail.append(inits_block.as_str());
    tail.append(")");
    assert(tail@ == resolve_tail_text(plan));
    let mut body = join_words(&resolved);
    push_word(&mut body, tail.as_str());
    let body_block = brace(body.as_str());
    push_word(&mut head, body_block.as_str());
    let impl_block = brace(head.as_str());
    let impl_cli = crate::text::concat("impl Cli ", impl_block.as_str());
    assert(impl_cli@ == cli_impl_text(plan));
    push_word(&mut out, impl_cli.as_str());
    // `impl` of the structure.
    let mut parse_fn = vis.clone();
    push_word(
        &mut parse_fn,
        "async fn parse () -> :: command_hills :: Result < Self > { < Cli as clap :: Parser > :: parse () . resolve () . await }",
    );
    let parse_block = brace(parse_fn.as_str());
    let mut impl_item = crate::text::concat3("impl ", ident.as_str(), " ");
    impl_item.append(parse_block.as_str());
    assert(impl_item@ == parse_impl_text(plan));
    push_word(&mut out, impl_item.as_str());
    assert(out@ == root_text(struct_text(cleaned), plan));
    assert(root_expansion_of(out@, plan));
    Ok(out)
}

/// The printed texts of attributes, one after the other.
fn render_attr_texts(attrs: &Vec<Attribute>) -> (r: String)
    ensures
        r@ == texts_of(attr_descs(attrs@)),
{
    let r = crate::item::render_attrs(attrs);
    assert(attr_descs(attrs@).map_values(|a: AttrSpec| a.text) =~= attrs@.map_values(|a: Attribute| a.text@));
    r
}

} // verus!
