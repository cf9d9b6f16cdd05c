//! `#[commands(context = ...)]` on an enum of actions: each variant gets an
//! arguments structure, the arguments become a clap subcommand enum, and
//! `fill` turns parsed subcommand arguments into the action.
use vstd::prelude::*;
use vstd::string::*;
use crate::error::HillError;
use crate::generate::{
    attr_desc, attr_descs, field_descs, flatten_desc, gen_outcome, generate, generics_text,
    lemma_sorted_in_place, lists_flatten_spec, opt_view, sorted_fields, spec_generate, AttrSpec,
    FieldSpec, GenericsText,
};
use crate::item::{enum_text, render_enum};
use crate::model::{Declaration, Destination, Field, Marker, Question};
use crate::syntax::{
    fields_of, lemma_kept_outside, none_named, get_ident, is_ident, named_in, named_outside, option_inner_type, partition_attributes,
    path_text, render_path, render_type, spec_get_ident, spec_is_ident, spec_option_inner_type,
    type_text, Attribute, EnumModel, ExprModel, FieldModel, FieldsModel, GenericsModel,
    LitStrModel, MetaItem, MetaKind, NestedEntry, NestedMeta, NestedValue, ParenValue, PathModel,
    Segment, SegmentArgs, TypeModel, VariantModel,
};
use crate::text::{
    braced, brace, comma_list, join_comma_list, join_words, keep, lemma_keep_step,
    lemma_try_fold_end, lemma_try_fold_step, owned, paren, parened, push_word, str_eq, try_fold,
    word2, words,
};

verus! {

/// The one attribute name whose entries the macros read.
pub open spec fn hill_names() -> Seq<&'static str> {
    seq!["hill"]
}

// ---------------------------------------------------------------------------
// `context = Path`
// ---------------------------------------------------------------------------

/// One entry of the arguments of `commands`: only `context = Path`, once.
pub open spec fn context_step(st: Option<PathModel>, e: MetaItem) -> Result<Option<PathModel>, HillError> {
    match e.kind {
        MetaKind::NameValue(value) => match spec_get_ident(e.path) {
            None => Err(HillError::ExpectedParameterName),
            Some(name) => if name@ != "context"@ {
                Err(HillError::UnknownParameter { name })
            } else if st is Some {
                Err(HillError::DuplicateParameter { name })
            } else {
                match value {
                    ExprModel::Path(p) => Ok(Some(p)),
                    _ => Err(HillError::ParameterNotPath { name }),
                }
            },
        },
        _ => Err(HillError::ExpectedContextParameter),
    }
}

pub open spec fn context_fold() -> spec_fn(Option<PathModel>, MetaItem) -> Result<Option<PathModel>, HillError> {
    |st: Option<PathModel>, e: MetaItem| context_step(st, e)
}

/// The context type named by the arguments of `commands`.
pub open spec fn spec_parse_context(arguments: Result<Vec<MetaItem>, String>) -> Result<PathModel, HillError> {
    match arguments {
        Err(m) => Err(HillError::Syntax(m)),
        Ok(entries) => match try_fold(entries@, None, context_fold()) {
            Err(e) => Err(e),
            Ok(None) => Err(HillError::MissingCommandsContext),
            Ok(Some(p)) => Ok(p),
        },
    }
}

/// Reads `context = Path` from the arguments of `commands`.
pub fn parse_context(arguments: Result<Vec<MetaItem>, String>) -> (r: Result<PathModel, HillError>)
    ensures
        r == spec_parse_context(arguments),
{
    let entries = match arguments {
        Err(m) => {
            return Err(HillError::Syntax(m));
        },
        Ok(entries) => entries,
    };
    let ghost orig = entries@;
    assert(orig.len() == entries.len());
    let mut rest = entries;
    let mut context: Option<PathModel> = None;
    let mut i: usize = 0;
    assert(orig.skip(0) =~= orig);
    while rest.len() > 0
        invariant
            i <= orig.len() <= usize::MAX,
            arguments matches Ok(es) && es@ == orig,
            rest@ == orig.skip(i as int),
            try_fold(orig, None, context_fold()) == try_fold(orig.skip(i as int), context, context_fold()),
        decreases rest.len(),
    {
        let e = rest.remove(0);
        assert(e == orig[i as int]);
        proof {
            lemma_try_fold_step(orig, i as int, context, context_fold());
            assert(context_fold()(context, e) == context_step(context, e));
        }
        let MetaItem { path, kind } = e;
        match kind {
            MetaKind::NameValue(value) => match get_ident(&path) {
                None => {
                    return Err(HillError::ExpectedParameterName);
                },
                Some(name) => {
                    if !str_eq(name.as_str(), "context") {
                        return Err(HillError::UnknownParameter { name });
                    }
                    if context.is_some() {
                        return Err(HillError::DuplicateParameter { name });
                    }
                    match value {
                        ExprModel::Path(p) => {
                            context = Some(p);
                        },
                        _ => {
                            return Err(HillError::ParameterNotPath { name });
                        },
                    }
                },
            },
            _ => {
                return Err(HillError::ExpectedContextParameter);
            },
        }
        i = i + 1;
        assert(rest@ =~= orig.skip(i as int));
    }
    proof {
        lemma_try_fold_end(orig, context, context_fold());
    }
    match context {
        None => Err(HillError::MissingCommandsContext),
        Some(p) => Ok(p),
    }
}

// ---------------------------------------------------------------------------
// `#[hill(about = "...")]` of a variant
// ---------------------------------------------------------------------------

pub open spec fn about_entry_step(variant: String, st: Option<LitStrModel>, e: NestedEntry) -> Result<Option<LitStrModel>, HillError> {
    if !spec_is_ident(e.path, "about"@) {
        Err(HillError::UnknownVariantMarker { variant })
    } else if st is Some {
        Err(HillError::DuplicateAbout { variant })
    } else {
        match e.value {
            NestedValue::Assigned(a) => match a.lit_str {
                Err(m) => Err(HillError::Syntax(m)),
                Ok((lit, complete)) => if complete {
                    Ok(Some(lit))
                } else {
                    Err(HillError::ExpectedComma)
                },
            },
            _ => Err(HillError::ExpectedEq),
        }
    }
}

pub open spec fn about_entry_fold(variant: String) -> spec_fn(Option<LitStrModel>, NestedEntry) -> Result<Option<LitStrModel>, HillError> {
    |st: Option<LitStrModel>, e: NestedEntry| about_entry_step(variant, st, e)
}

pub open spec fn about_attr_step(variant: String, st: Option<LitStrModel>, a: Attribute) -> Result<Option<LitStrModel>, HillError> {
    if spec_is_ident(a.path, "hill"@) {
        match try_fold(a.nested.entries@, st, about_entry_fold(variant)) {
            Err(e) => Err(e),
            Ok(next) => match a.nested.error {
                Some(m) => Err(HillError::Syntax(m)),
                None => Ok(next),
            },
        }
    } else {
        Ok(st)
    }
}

pub open spec fn about_attr_fold(variant: String) -> spec_fn(Option<LitStrModel>, Attribute) -> Result<Option<LitStrModel>, HillError> {
    |st: Option<LitStrModel>, a: Attribute| about_attr_step(variant, st, a)
}

/// The `about` text of a variant, given exactly once in its `hill` attributes.
pub open spec fn spec_parse_about(attrs: Seq<Attribute>, variant: String) -> Result<LitStrModel, HillError> {
    match try_fold(attrs, None, about_attr_fold(variant)) {
        Err(e) => Err(e),
        Ok(None) => Err(HillError::MissingAbout { variant }),
        Ok(Some(l)) => Ok(l),
    }
}

fn about_entries(variant: &String, entries: &Vec<NestedEntry>, start: Option<LitStrModel>) -> (r: Result<Option<LitStrModel>, HillError>)
    ensures
        r == try_fold(entries@, start, about_entry_fold(*variant)),
{
    let mut about = start;
    let mut i: usize = 0;
    assert(entries@.skip(0) =~= entries@);
    while i < entries.len()
        invariant
            i <= entries.len(),
            try_fold(entries@, start, about_entry_fold(*variant)) == try_fold(
                entries@.skip(i as int),
                about,
                about_entry_fold(*variant),
            ),
        decreases entries.len() - i,
    {
        let e = &entries[i];
        proof {
            lemma_try_fold_step(entries@, i as int, about, about_entry_fold(*variant));
            assert(about_entry_fold(*variant)(about, *e) == about_entry_step(*variant, about, *e));
        }
        if !is_ident(&e.path, "about") {
            return Err(HillError::UnknownVariantMarker { variant: variant.clone() });
        }
        if about.is_some() {
            return Err(HillError::DuplicateAbout { variant: variant.clone() });
        }
        match &e.value {
            NestedValue::Assigned(a) => match &a.lit_str {
                Err(m) => {
                    return Err(HillError::Syntax(m.clone()));
                },
                Ok((lit, complete)) => {
                    if !*complete {
                        return Err(HillError::ExpectedComma);
                    }
                    about = Some(lit.duplicate());
                },
            },
            _ => {
                return Err(HillError::ExpectedEq);
            },
        }
        i = i + 1;
    }
    proof {
        lemma_try_fold_end(entries@, about, about_entry_fold(*variant));
    }
    Ok(about)
}

/// Reads the `about` text of a variant.
pub fn parse_about(attrs: &Vec<Attribute>, variant: &String) -> (r: Result<LitStrModel, HillError>)
    ensures
        r == spec_parse_about(attrs@, *variant),
{
    let mut about: Option<LitStrModel> = None;
    let mut i: usize = 0;
    assert(attrs@.skip(0) =~= attrs@);
    while i < attrs.len()
        invariant
            i <= attrs.len(),
            try_fold(attrs@, None, about_attr_fold(*variant)) == try_fold(attrs@.skip(i as int), about, about_attr_fold(*variant)),
        decreases attrs.len() - i,
    {
        let a = &attrs[i];
        proof {
            lemma_try_fold_step(attrs@, i as int, about, about_attr_fold(*variant));
            assert(about_attr_fold(*variant)(about, *a) == about_attr_step(*variant, about, *a));
        }
        if is_ident(&a.path, "hill") {
            match about_entries(variant, &a.nested.entries, about) {
                Err(e) => {
                    return Err(e);
                },
                Ok(next) => match &a.nested.error {
                    Some(m) => {
                        return Err(HillError::Syntax(m.clone()));
                    },
                    None => {
                        about = next;
                    },
                },
            }
        }
        i = i + 1;
    }
    proof {
        lemma_try_fold_end(attrs@, about, about_attr_fold(*variant));
    }
    match about {
        None => Err(HillError::MissingAbout { variant: variant.clone() }),
        Some(l) => Ok(l),
    }
}

// ---------------------------------------------------------------------------
// `hill` marks of a field of a variant
// ---------------------------------------------------------------------------

/// The marks of a field read so far.
pub struct CommandMarks {
    /// `with = path`, as printed.
    pub resolver: Option<Seq<char>>,
    pub question: Option<Question>,
    /// `args = Type`, as printed.
    pub arguments: Option<Seq<char>>,
    pub with_context: bool,
    pub resolver_message: Option<LitStrModel>,
    /// The clap attributes written as `arg(...)` and `command(...)`.
    pub clap: Seq<AttrSpec>,
}

/// The marks of a field as they are kept while reading.
pub struct CommandField {
    pub resolver: Option<String>,
    pub question: Option<Question>,
    pub arguments: Option<String>,
    pub with_context: bool,
    pub resolver_message: Option<LitStrModel>,
    pub clap_attributes: Vec<Attribute>,
}

pub open spec fn marks_of(c: CommandField) -> CommandMarks {
    CommandMarks {
        resolver: opt_view(c.resolver),
        question: c.question,
        arguments: opt_view(c.arguments),
        with_context: c.with_context,
        resolver_message: c.resolver_message,
        clap: attr_descs(c.clap_attributes@),
    }
}

pub open spec fn empty_marks() -> CommandMarks {
    CommandMarks {
        resolver: None,
        question: None,
        arguments: None,
        with_context: false,
        resolver_message: None,
        clap: Seq::empty(),
    }
}

/// The attribute `#[name(tokens)]` written from `name(tokens)` in a `hill` attribute.
pub open spec fn paren_attr_spec(name: Seq<char>, value: ParenValue) -> AttrSpec {
    AttrSpec {
        ident: Some(name),
        text: "# ["@ + name + " "@ + parened(value.tokens@) + "]"@,
        flatten: flatten_desc(value.meta),
    }
}

/// The attribute `#[command(flatten)]`.
pub open spec fn flatten_attr_spec() -> AttrSpec {
    AttrSpec { ident: Some("command"@), text: "# [command (flatten)]"@, flatten: Ok(true) }
}

/// A path of one plain identifier.
pub fn ident_path(name: &str) -> (p: PathModel)
    ensures
        spec_get_ident(p) matches Some(s) && s@ == name@,
        spec_is_ident(p, name@),
{
    let mut segments: Vec<Segment> = Vec::new();
    segments.push(Segment { ident: owned(name), arguments: SegmentArgs::Plain });
    PathModel { leading_colon: false, segments }
}

/// Writes `#[name(tokens)]`.
pub fn paren_attribute(name: &str, value: ParenValue) -> (a: Attribute)
    ensures
        attr_desc(a) == paren_attr_spec(name@, value),
        a.meta == value.meta,
{
    let ParenValue { tokens, meta } = value;
    let p = paren(tokens.as_str());
    let mut text = owned("# [");
    text.append(name);
    text.append(" ");
    text.append(p.as_str());
    text.append("]");
    Attribute {
        path: ident_path(name),
        text,
        meta,
        nested: NestedMeta { entries: Vec::new(), error: None },
    }
}

/// Writes `#[command(flatten)]`.
pub fn flatten_attribute() -> (a: Attribute)
    ensures
        attr_desc(a) == flatten_attr_spec(),
{
    let mut items: Vec<MetaItem> = Vec::new();
    items.push(MetaItem { path: ident_path("flatten"), kind: MetaKind::Path });
    assert((items@[0]).kind is Path && spec_is_ident(items@[0].path, "flatten"@));
    assert(lists_flatten_spec(items@));
    Attribute {
        path: ident_path("command"),
        text: owned("# [command (flatten)]"),
        meta: Ok(items),
        nested: NestedMeta { entries: Vec::new(), error: None },
    }
}

/// One nested entry of a field's `hill` attribute inside `commands`.
pub open spec fn command_entry_step(field: String, st: CommandMarks, e: NestedEntry) -> Result<CommandMarks, HillError> {
    if spec_is_ident(e.path, "with"@) {
        if st.resolver is Some {
            Err(HillError::DuplicateFieldMarker { marker: "with", field })
        } else {
            match e.value {
                NestedValue::Assigned(a) => match a.path {
                    Err(m) => Err(HillError::Syntax(m)),
                    Ok((p, complete)) => if complete {
                        Ok(CommandMarks { resolver: Some(path_text(p)), ..st })
                    } else {
                        Err(HillError::ExpectedComma)
                    },
                },
                _ => Err(HillError::ExpectedEq),
            }
        }
    } else if spec_is_ident(e.path, "message"@) {
        if st.resolver_message is Some {
            Err(HillError::DuplicateMessage { field })
        } else {
            match e.value {
                NestedValue::Assigned(a) => match a.lit_str {
                    Err(m) => Err(HillError::Syntax(m)),
                    Ok((l, complete)) => if complete {
                        Ok(CommandMarks { resolver_message: Some(l), ..st })
                    } else {
                        Err(HillError::ExpectedComma)
                    },
                },
                _ => Err(HillError::ExpectedEq),
            }
        }
    } else if spec_is_ident(e.path, "args"@) {
        if st.arguments is Some {
            Err(HillError::DuplicateFieldMarker { marker: "args", field })
        } else {
            match e.value {
                NestedValue::Assigned(a) => match a.ty {
                    Err(m) => Err(HillError::Syntax(m)),
                    Ok((t, complete)) => if complete {
                        Ok(CommandMarks { arguments: Some(type_text(t)), ..st })
                    } else {
                        Err(HillError::ExpectedComma)
                    },
                },
                _ => Err(HillError::ExpectedEq),
            }
        }
    } else if spec_is_ident(e.path, "ctx"@) {
        if st.with_context {
            Err(HillError::DuplicateFieldMarker { marker: "ctx", field })
        } else {
            match e.value {
                NestedValue::Bare => Ok(CommandMarks { with_context: true, ..st }),
                _ => Err(HillError::ExpectedComma),
            }
        }
    } else if spec_is_ident(e.path, "ask"@) || spec_is_ident(e.path, "keep"@) {
        if st.question is Some {
            Err(HillError::AskAndKeep { field })
        } else {
            match e.value {
                NestedValue::Assigned(a) => match a.lit_str {
                    Err(m) => Err(HillError::Syntax(m)),
                    Ok((l, complete)) => if !complete {
                        Err(HillError::ExpectedComma)
                    } else if spec_is_ident(e.path, "ask"@) {
                        Ok(CommandMarks { question: Some(Question::Ask(l)), ..st })
                    } else {
                        Ok(CommandMarks { question: Some(Question::Keep(l)), ..st })
                    },
                },
                _ => Err(HillError::ExpectedEq),
            }
        }
    } else if spec_is_ident(e.path, "arg"@) || spec_is_ident(e.path, "command"@) {
        match e.value {
            NestedValue::Paren(pv) => Ok(
                CommandMarks {
                    clap: st.clap.push(
                        paren_attr_spec(if spec_is_ident(e.path, "arg"@) { "arg"@ } else { "command"@ }, pv),
                    ),
                    ..st
                },
            ),
            _ => Err(HillError::ExpectedParens),
        }
    } else {
        Err(HillError::UnknownFieldMarker { field })
    }
}

pub open spec fn command_entry_fold(field: String) -> spec_fn(CommandMarks, NestedEntry) -> Result<CommandMarks, HillError> {
    |st: CommandMarks, e: NestedEntry| command_entry_step(field, st, e)
}

pub open spec fn command_attr_step(field: String, st: CommandMarks, a: Attribute) -> Result<CommandMarks, HillError> {
    if spec_is_ident(a.path, "hill"@) {
        match try_fold(a.nested.entries@, st, command_entry_fold(field)) {
            Err(e) => Err(e),
            Ok(next) => match a.nested.error {
                Some(m) => Err(HillError::Syntax(m)),
                None => Ok(next),
            },
        }
    } else {
        Ok(st)
    }
}

pub open spec fn command_attr_fold(field: String) -> spec_fn(CommandMarks, Attribute) -> Result<CommandMarks, HillError> {
    |st: CommandMarks, a: Attribute| command_attr_step(field, st, a)
}

/// The marks of a field inside `commands`, with the combinations that are refused.
pub open spec fn spec_command_field(attrs: Seq<Attribute>, field: String) -> Result<CommandMarks, HillError> {
    match try_fold(attrs, empty_marks(), command_attr_fold(field)) {
        Err(e) => Err(e),
        Ok(m) => if m.resolver is Some && m.question is Some {
            Err(HillError::WithAndQuestion { field })
        } else if m.arguments is Some && (m.resolver is Some || m.question is Some) {
            Err(HillError::ArgsAndOthers { field })
        } else if m.with_context && m.arguments is None {
            Err(HillError::CtxWithoutArgs { field })
        } else if m.resolver_message is Some && m.resolver is None {
            Err(HillError::MessageWithoutWith { field })
        } else {
            Ok(m)
        },
    }
}

fn apply_command_entry(field: &String, st: CommandField, e: NestedEntry) -> (r: Result<CommandField, HillError>)
    ensures
        match command_entry_step(*field, marks_of(st), e) {
            Err(err) => r == Err::<CommandField, HillError>(err),
            Ok(m) => r is Ok && marks_of(r->Ok_0) == m,
        },
{
    let ghost old_st = marks_of(st);
    let ghost entry = e;
    let CommandField { resolver, question, arguments, with_context, resolver_message, clap_attributes } = st;
    let NestedEntry { path, value } = e;
    if is_ident(&path, "with") {
        if resolver.is_some() {
            return Err(HillError::DuplicateFieldMarker { marker: "with", field: field.clone() });
        }
        match value {
            NestedValue::Assigned(a) => match a.path {
                Err(m) => Err(HillError::Syntax(m)),
                Ok((p, complete)) => {
                    if !complete {
                        return Err(HillError::ExpectedComma);
                    }
                    let text = render_path(&p);
                    Ok(CommandField { resolver: Some(text), question, arguments, with_context, resolver_message, clap_attributes })
                },
            },
            _ => Err(HillError::ExpectedEq),
        }
    } else if is_ident(&path, "message") {
        if resolver_message.is_some() {
            return Err(HillError::DuplicateMessage { field: field.clone() });
        }
        match value {
            NestedValue::Assigned(a) => match a.lit_str {
                Err(m) => Err(HillError::Syntax(m)),
                Ok((l, complete)) => {
                    if !complete {
                        return Err(HillError::ExpectedComma);
                    }
                    Ok(CommandField { resolver, question, arguments, with_context, resolver_message: Some(l), clap_attributes })
                },
            },
            _ => Err(HillError::ExpectedEq),
        }
    } else if is_ident(&path, "args") {
        if arguments.is_some() {
            return Err(HillError::DuplicateFieldMarker { marker: "args", field: field.clone() });
        }
        match value {
            NestedValue::Assigned(a) => match a.ty {
                Err(m) => Err(HillError::Syntax(m)),
                Ok((t, complete)) => {
                    if !complete {
                        return Err(HillError::ExpectedComma);
                    }
                    let text = render_type(&t);
                    Ok(CommandField { resolver, question, arguments: Some(text), with_context, resolver_message, clap_attributes })
                },
            },
            _ => Err(HillError::ExpectedEq),
        }
    } else if is_ident(&path, "ctx") {
        if with_context {
            return Err(HillError::DuplicateFieldMarker { marker: "ctx", field: field.clone() });
        }
        match value {
            NestedValue::Bare => Ok(CommandField { resolver, question, arguments, with_context: true, resolver_message, clap_attributes }),
            _ => Err(HillError::ExpectedComma),
        }
    } else if is_ident(&path, "ask") || is_ident(&path, "keep") {
        if question.is_some() {
            return Err(HillError::AskAndKeep { field: field.clone() });
        }
        match value {
            NestedValue::Assigned(a) => match a.lit_str {
                Err(m) => Err(HillError::Syntax(m)),
                Ok((l, complete)) => {
                    if !complete {
                        return Err(HillError::ExpectedComma);
                    }
                    let q = if is_ident(&path, "ask") {
                        Question::Ask(l)
                    } else {
                        Question::Keep(l)
                    };
                    Ok(CommandField { resolver, question: Some(q), arguments, with_context, resolver_message, clap_attributes })
                },
            },
            _ => Err(HillError::ExpectedEq),
        }
    } else if is_ident(&path, "arg") || is_ident(&path, "command") {
        match value {
            NestedValue::Paren(pv) => {
                let name = if is_ident(&path, "arg") {
                    "arg"
                } else {
                    "command"
                };
                let attr = paren_attribute(name, pv);
                let mut clap_attributes = clap_attributes;
                let ghost before = clap_attributes@;
                clap_attributes.push(attr);
                assert(attr_descs(clap_attributes@) =~= attr_descs(before).push(attr_desc(attr)));
                Ok(CommandField { resolver, question, arguments, with_context, resolver_message, clap_attributes })
            },
            _ => Err(HillError::ExpectedParens),
        }
    } else {
        Err(HillError::UnknownFieldMarker { field: field.clone() })
    }
}

fn apply_command_attr(field: &String, st: CommandField, a: Attribute) -> (r: Result<CommandField, HillError>)
    ensures
        match command_attr_step(*field, marks_of(st), a) {
            Err(err) => r == Err::<CommandField, HillError>(err),
            Ok(m) => r is Ok && marks_of(r->Ok_0) == m,
        },
{
    if !is_ident(&a.path, "hill") {
        return Ok(st);
    }
    let ghost attr = a;
    let Attribute { path: _, text: _, meta: _, nested } = a;
    let NestedMeta { entries, error } = nested;
    let ghost orig = entries@;
    let ghost start = marks_of(st);
    assert(orig.len() == entries.len());
    let mut rest = entries;
    let mut state = st;
    let mut i: usize = 0;
    assert(orig.skip(0) =~= orig);
    while rest.len() > 0
        invariant
            i <= orig.len() <= usize::MAX,
            orig == attr.nested.entries@,
            attr == a,
            start == marks_of(st),
            spec_is_ident(a.path, "hill"@),
            error == attr.nested.error,
            rest@ == orig.skip(i as int),
            try_fold(orig, start, command_entry_fold(*field)) == try_fold(
                orig.skip(i as int),
                marks_of(state),
                command_entry_fold(*field),
            ),
        decreases rest.len(),
    {
        let e = rest.remove(0);
        assert(e == orig[i as int]);
        proof {
            lemma_try_fold_step(orig, i as int, marks_of(state), command_entry_fold(*field));
            assert(command_entry_fold(*field)(marks_of(state), e) == command_entry_step(*field, marks_of(state), e));
        }
        state = match apply_command_entry(field, state, e) {
            Err(err) => {
                return Err(err);
            },
            Ok(next) => next,
        };
        i = i + 1;
        assert(rest@ =~= orig.skip(i as int));
    }
    proof {
        lemma_try_fold_end(orig, marks_of(state), command_entry_fold(*field));
    }
    match error {
        Some(m) => Err(HillError::Syntax(m)),
        None => Ok(state),
    }
}

/// Reads the marks of a field inside `commands` from its `hill` attributes.
pub fn parse_command_field(attrs: Vec<Attribute>, field: &String) -> (r: Result<CommandField, HillError>)
    ensures
        match spec_command_field(attrs@, *field) {
            Err(err) => r == Err::<CommandField, HillError>(err),
            Ok(m) => r is Ok && marks_of(r->Ok_0) == m,
        },
{
    let ghost orig = attrs@;
    assert(orig.len() == attrs.len());
    let mut rest = attrs;
    let mut state = CommandField {
        resolver: None,
        question: None,
        arguments: None,
        with_context: false,
        resolver_message: None,
        clap_attributes: Vec::new(),
    };
    assert(attr_descs(state.clap_attributes@) =~= Seq::<AttrSpec>::empty());
    assert(marks_of(state) == empty_marks());
    let mut i: usize = 0;
    assert(orig.skip(0) =~= orig);
    while rest.len() > 0
        invariant
            i <= orig.len() <= usize::MAX,
            orig == attrs@,
            rest@ == orig.skip(i as int),
            try_fold(orig, empty_marks(), command_attr_fold(*field)) == try_fold(
                orig.skip(i as int),
                marks_of(state),
                command_attr_fold(*field),
            ),
        decreases rest.len(),
    {
        let a = rest.remove(0);
        assert(a == orig[i as int]);
        proof {
            lemma_try_fold_step(orig, i as int, marks_of(state), command_attr_fold(*field));
            assert(command_attr_fold(*field)(marks_of(state), a) == command_attr_step(*field, marks_of(state), a));
        }
        state = match apply_command_attr(field, state, a) {
            Err(err) => {
                return Err(err);
            },
            Ok(next) => next,
        };
        i = i + 1;
        assert(rest@ =~= orig.skip(i as int));
    }
    proof {
        lemma_try_fold_end(orig, marks_of(state), command_attr_fold(*field));
    }
    if state.resolver.is_some() && state.question.is_some() {
        return Err(HillError::WithAndQuestion { field: field.clone() });
    }
    if state.arguments.is_some() && (state.resolver.is_some() || state.question.is_some()) {
        return Err(HillError::ArgsAndOthers { field: field.clone() });
    }
    if state.with_context && state.arguments.is_none() {
        return Err(HillError::CtxWithoutArgs { field: field.clone() });
    }
    if state.resolver_message.is_some() && state.resolver.is_none() {
        return Err(HillError::MessageWithoutWith { field: field.clone() });
    }
    Ok(state)
}

// ---------------------------------------------------------------------------
// Fields of a variant
// ---------------------------------------------------------------------------

/// `Option < t >`, as printed.
pub open spec fn option_text(t: Seq<char>) -> Seq<char> {
    "Option < "@ + t + " >"@
}

/// The printed type of the argument that a field of a variant becomes.
pub open spec fn argument_type(m: CommandMarks, ty: TypeModel, field: String) -> Result<Seq<char>, HillError> {
    match m.arguments {
        Some(a) => if m.resolver is None && m.question is None {
            Ok(a)
        } else {
            Err(HillError::ConflictingMarkers { field })
        },
        None => match m.resolver {
            Some(_) => if m.question is None {
                Ok(option_text(type_text(ty)))
            } else {
                Err(HillError::ConflictingMarkers { field })
            },
            None => match m.question {
                Some(Question::Ask(_)) => Ok(option_text(type_text(ty))),
                Some(Question::Keep(_)) => match spec_option_inner_type(ty) {
                    Some(inner) => Ok(option_text(inner@)),
                    None => Err(HillError::KeepNeedsOption { field }),
                },
                None => match spec_option_inner_type(ty) {
                    Some(inner) => Ok(option_text(inner@)),
                    None => Err(HillError::MissingFieldMarker { field }),
                },
            },
        },
    }
}

/// The field of the arguments structure that a field of a variant becomes.
pub open spec fn command_field_spec(f: FieldModel, ident: String, position: int, m: CommandMarks, ty: Seq<char>) -> FieldSpec {
    FieldSpec {
        visibility: f.vis@,
        ident,
        ty,
        position: position as usize,
        clap: if m.arguments is Some {
            m.clap.push(flatten_attr_spec())
        } else {
            m.clap
        },
        only: None,
        skipped: false,
        question: m.question,
        with_context: m.with_context,
        resolver: m.resolver,
    }
}

/// Reading one field of a variant at `position`.
pub open spec fn command_field_outcome(f: FieldModel, position: int) -> Result<FieldSpec, HillError> {
    match f.ident {
        None => Err(HillError::ExpectedNamedField),
        Some(ident) => match spec_command_field(keep(f.attrs@, named_in(hill_names())), ident) {
            Err(e) => Err(e),
            Ok(m) => match argument_type(m, f.ty, ident) {
                Err(e) => Err(e),
                Ok(ty) => Ok(command_field_spec(f, ident, position, m, ty)),
            },
        },
    }
}

/// What a `hill` entry of a field gives whenever reading it succeeds, and what every
/// successful entry keeps, holds of the marks read from all the field's attributes.
proof fn lemma_command_mark(f: FieldModel, a: int, m: int, inv: spec_fn(CommandMarks) -> bool)
    requires
        f.ident is Some,
        0 <= a < f.attrs@.len(),
        spec_is_ident(f.attrs@[a].path, "hill"@),
        0 <= m < f.attrs@[a].nested.entries@.len(),
        forall|x: CommandMarks| (#[trigger] command_entry_step(f.ident->Some_0, x, f.attrs@[a].nested.entries@[m])) is Ok
            ==> inv(command_entry_step(f.ident->Some_0, x, f.attrs@[a].nested.entries@[m])->Ok_0),
        forall|x: CommandMarks, n: NestedEntry| inv(x) && (#[trigger] command_entry_step(f.ident->Some_0, x, n)) is Ok
            ==> inv(command_entry_step(f.ident->Some_0, x, n)->Ok_0),
    ensures
        spec_command_field(keep(f.attrs@, named_in(hill_names())), f.ident->Some_0) matches Ok(mk) ==> inv(mk),
{
    reveal_strlit("hill");
    let es = f.attrs@[a].nested.entries@;
    let ident = f.ident->Some_0;
    let hs = keep(f.attrs@, named_in(hill_names()));
    assert(hill_names()[0]@ == "hill"@);
    assert(named_in(hill_names())(f.attrs@[a]));
    crate::text::lemma_keep_contains(f.attrs@, named_in(hill_names()), a);
    let j = choose|j: int| 0 <= j < hs.len() && hs[j] == f.attrs@[a];
    assert forall|x: CommandMarks, n: NestedEntry| inv(x) && (#[trigger] command_entry_fold(ident)(x, n)) is Ok implies inv(
        command_entry_fold(ident)(x, n)->Ok_0,
    ) by {
        assert(command_entry_fold(ident)(x, n) == command_entry_step(ident, x, n));
    }
    assert forall|x: CommandMarks| (#[trigger] command_entry_fold(ident)(x, es[m])) is Ok implies inv(
        command_entry_fold(ident)(x, es[m])->Ok_0,
    ) by {
        assert(command_entry_fold(ident)(x, es[m]) == command_entry_step(ident, x, es[m]));
    }
    assert forall|x: CommandMarks, at: Attribute| inv(x) && (#[trigger] command_attr_fold(ident)(x, at)) is Ok implies inv(
        command_attr_fold(ident)(x, at)->Ok_0,
    ) by {
        assert(command_attr_fold(ident)(x, at) == command_attr_step(ident, x, at));
        crate::text::lemma_try_fold_keeps(at.nested.entries@, x, command_entry_fold(ident), inv);
    }
    assert forall|x: CommandMarks| (#[trigger] command_attr_fold(ident)(x, hs[j])) is Ok implies inv(
        command_attr_fold(ident)(x, hs[j])->Ok_0,
    ) by {
        assert(command_attr_fold(ident)(x, hs[j]) == command_attr_step(ident, x, hs[j]));
        crate::text::lemma_try_fold_sets(es, m, x, command_entry_fold(ident), inv);
    }
    crate::text::lemma_try_fold_sets(hs, j, empty_marks(), command_attr_fold(ident), inv);
}

/// Facts on the names of the marks that the entries of a field are told apart by.
proof fn lemma_mark_names()
    ensures
        "with"@.len() == 4 && "message"@.len() == 7 && "args"@.len() == 4 && "ctx"@.len() == 3,
        "ask"@.len() == 3 && "keep"@.len() == 4 && "arg"@.len() == 3 && "command"@.len() == 7,
        "with"@[0] == 'w' && "args"@[0] == 'a' && "ctx"@[0] == 'c' && "ask"@[0] == 'a' && "keep"@[0] == 'k',
        "ask"@[1] == 's' && "arg"@[1] == 'r',
{
    reveal_strlit("with");
    reveal_strlit("message");
    reveal_strlit("args");
    reveal_strlit("ctx");
    reveal_strlit("ask");
    reveal_strlit("keep");
    reveal_strlit("arg");
    reveal_strlit("command");
}

/// A field of a variant marked `with = f` or `ask = "..."` becomes an argument of type
/// `Option < T >`, `T` being the field's own type: the resolver, or the question, is
/// handed the value that was given on the command line, if any.
pub proof fn resolved_and_asked_fields_become_optional(f: FieldModel, position: int, a: int, m: int)
    requires
        command_field_outcome(f, position) is Ok,
        0 <= a < f.attrs@.len(),
        spec_is_ident(f.attrs@[a].path, "hill"@),
        0 <= m < f.attrs@[a].nested.entries@.len(),
        spec_is_ident(f.attrs@[a].nested.entries@[m].path, "with"@) || spec_is_ident(
            f.attrs@[a].nested.entries@[m].path,
            "ask"@,
        ),
    ensures
        command_field_outcome(f, position)->Ok_0.ty == "Option < "@ + type_text(f.ty) + " >"@,
{
    lemma_mark_names();
    let e = f.attrs@[a].nested.entries@[m];
    let resolved = spec_is_ident(e.path, "with"@);
    assert(resolved ==> !spec_is_ident(e.path, "ask"@));
    let inv = |s: CommandMarks| if resolved {
        s.resolver is Some
    } else {
        s.question is Some && s.question->Some_0 is Ask
    };
    assert(!spec_is_ident(e.path, "message"@) && !spec_is_ident(e.path, "args"@) && !spec_is_ident(e.path, "ctx"@));
    assert(!resolved ==> !spec_is_ident(e.path, "keep"@));
    lemma_command_mark(f, a, m, inv);
}

/// A field of a variant marked `keep = "..."` must be an `Option < T >` and becomes an
/// argument of that same type; one marked `args = A` becomes an argument of type `A`,
/// flattened into the arguments structure.
pub proof fn kept_and_grouped_fields_get_their_argument_type(f: FieldModel, position: int, a: int, m: int)
    requires
        command_field_outcome(f, position) is Ok,
        0 <= a < f.attrs@.len(),
        spec_is_ident(f.attrs@[a].path, "hill"@),
        0 <= m < f.attrs@[a].nested.entries@.len(),
    ensures
        ({
            let e = f.attrs@[a].nested.entries@[m];
            let out = command_field_outcome(f, position)->Ok_0;
            &&& spec_is_ident(e.path, "keep"@) ==> spec_option_inner_type(f.ty) is Some && out.ty == "Option < "@
                + spec_option_inner_type(f.ty)->Some_0@ + " >"@
            &&& spec_is_ident(e.path, "args"@) && e.value is Assigned && e.value->Assigned_0.ty is Ok ==> out.ty == type_text(
                e.value->Assigned_0.ty->Ok_0.0,
            ) && out.clap.last() == flatten_attr_spec()
        }),
{
    lemma_mark_names();
    let e = f.attrs@[a].nested.entries@[m];
    if spec_is_ident(e.path, "keep"@) {
        assert(!spec_is_ident(e.path, "with"@) && !spec_is_ident(e.path, "ask"@));
        assert(!spec_is_ident(e.path, "message"@) && !spec_is_ident(e.path, "args"@) && !spec_is_ident(e.path, "ctx"@));
        lemma_command_mark(f, a, m, |s: CommandMarks| s.question is Some && s.question->Some_0 is Keep);
    }
    if spec_is_ident(e.path, "args"@) && e.value is Assigned && e.value->Assigned_0.ty is Ok {
        assert(!spec_is_ident(e.path, "with"@) && !spec_is_ident(e.path, "message"@));
        let t = Some(type_text(e.value->Assigned_0.ty->Ok_0.0));
        lemma_command_mark(f, a, m, |s: CommandMarks| s.arguments == t);
    }
}

/// In a variant, `#[hill(ask = "...")]` gives the field the question `Ask` with that
/// message, `#[hill(keep = "...")]` the question `Keep` with that message, and
/// `#[hill(with = f)]` the resolver `f`, whichever attribute and entry hold the mark.
pub proof fn command_marks_give_their_question_and_resolver(f: FieldModel, position: int, a: int, m: int)
    requires
        command_field_outcome(f, position) is Ok,
        0 <= a < f.attrs@.len(),
        spec_is_ident(f.attrs@[a].path, "hill"@),
        0 <= m < f.attrs@[a].nested.entries@.len(),
        f.attrs@[a].nested.entries@[m].value is Assigned,
    ensures
        ({
            let e = f.attrs@[a].nested.entries@[m];
            let v = e.value->Assigned_0;
            let out = command_field_outcome(f, position)->Ok_0;
            &&& spec_is_ident(e.path, "ask"@) && v.lit_str is Ok ==> out.question == Some(Question::Ask(v.lit_str->Ok_0.0))
            &&& spec_is_ident(e.path, "keep"@) && v.lit_str is Ok ==> out.question == Some(Question::Keep(v.lit_str->Ok_0.0))
            &&& spec_is_ident(e.path, "with"@) && v.path is Ok ==> out.resolver == Some(path_text(v.path->Ok_0.0))
        }),
{
    lemma_mark_names();
    let e = f.attrs@[a].nested.entries@[m];
    let v = e.value->Assigned_0;
    let asked = spec_is_ident(e.path, "ask"@);
    let kept = spec_is_ident(e.path, "keep"@);
    let resolved = spec_is_ident(e.path, "with"@);
    assert(asked ==> !kept && !resolved);
    assert(kept ==> !asked && !resolved);
    assert(asked || kept ==> !spec_is_ident(e.path, "message"@) && !spec_is_ident(e.path, "args"@) && !spec_is_ident(e.path, "ctx"@));
    if (asked || kept) && v.lit_str is Ok {
        let l = v.lit_str->Ok_0.0;
        let q = if asked { Some(Question::Ask(l)) } else { Some(Question::Keep(l)) };
        let inv = |s: CommandMarks| s.question == q;
        lemma_command_mark(f, a, m, inv);
    }
    if resolved && v.path is Ok {
        let r = Some(path_text(v.path->Ok_0.0));
        let inv = |s: CommandMarks| s.resolver == r;
        lemma_command_mark(f, a, m, inv);
    }
}

pub open spec fn command_fields_step(acc: Seq<FieldSpec>, f: FieldModel) -> Result<Seq<FieldSpec>, HillError> {
    match command_field_outcome(f, acc.len() as int) {
        Err(e) => Err(e),
        Ok(fs) => Ok(acc.push(fs)),
    }
}

pub open spec fn command_fields_fold() -> spec_fn(Seq<FieldSpec>, FieldModel) -> Result<Seq<FieldSpec>, HillError> {
    |acc: Seq<FieldSpec>, f: FieldModel| command_fields_step(acc, f)
}

/// `out` is `src` without its `hill` attributes.
pub open spec fn field_stripped(out: FieldModel, src: FieldModel) -> bool {
    &&& out.attrs@ == keep(src.attrs@, named_outside(hill_names()))
    &&& out.vis == src.vis
    &&& out.ident == src.ident
    &&& out.ty == src.ty
}

fn argument_type_of(m: &CommandField, ty: &TypeModel, field: &String) -> (r: Result<String, HillError>)
    ensures
        match argument_type(marks_of(*m), *ty, *field) {
            Err(e) => r == Err::<String, HillError>(e),
            Ok(t) => r is Ok && r->Ok_0@ == t,
        },
{
    proof {
        reveal_strlit("Option < ");
        reveal_strlit(" >");
    }
    match &m.arguments {
        Some(a) => {
            if m.resolver.is_none() && m.question.is_none() {
                Ok(a.clone())
            } else {
                Err(HillError::ConflictingMarkers { field: field.clone() })
            }
        },
        None => match &m.resolver {
            Some(_) => {
                if m.question.is_none() {
                    let t = render_type(ty);
                    Ok(crate::text::concat3("Option < ", t.as_str(), " >"))
                } else {
                    Err(HillError::ConflictingMarkers { field: field.clone() })
                }
            },
            None => match &m.question {
                Some(Question::Ask(_)) => {
                    let t = render_type(ty);
                    Ok(crate::text::concat3("Option < ", t.as_str(), " >"))
                },
                Some(Question::Keep(_)) => match option_inner_type(ty) {
                    Some(inner) => Ok(crate::text::concat3("Option < ", inner.as_str(), " >")),
                    None => Err(HillError::KeepNeedsOption { field: field.clone() }),
                },
                None => match option_inner_type(ty) {
                    Some(inner) => Ok(crate::text::concat3("Option < ", inner.as_str(), " >")),
                    None => Err(HillError::MissingFieldMarker { field: field.clone() }),
                },
            },
        },
    }
}

/// Reads one field of a variant: the field of the arguments structure it becomes,
/// and the field itself without its `hill` attributes.
pub fn command_field(f: FieldModel, position: usize) -> (r: Result<(Field, FieldModel), HillError>)
    ensures
        match command_field_outcome(f, position as int) {
            Err(e) => r == Err::<(Field, FieldModel), HillError>(e),
            Ok(spec) => r is Ok && crate::generate::field_desc(r->Ok_0.0) == spec && r->Ok_0.0.position == position
                && field_stripped(r->Ok_0.1, f),
        },
{
    let ident = match &f.ident {
        None => {
            return Err(HillError::ExpectedNamedField);
        },
        Some(i) => i.clone(),
    };
    let ghost src = f;
    let FieldModel { attrs, vis, ident: name, ty } = f;
    let (hill, kept) = partition_attributes(attrs, &["hill"]);
    assert(["hill"]@ =~= hill_names());
    let marks = match parse_command_field(hill, &ident) {
        Err(e) => {
            return Err(e);
        },
        Ok(m) => m,
    };
    let arg_ty = match argument_type_of(&marks, &ty, &ident) {
        Err(e) => {
            return Err(e);
        },
        Ok(t) => t,
    };
    let ghost m = marks_of(marks);
    let CommandField { resolver, question, arguments, with_context, resolver_message, clap_attributes } = marks;
    let mut clap_attributes = clap_attributes;
    if arguments.is_some() {
        let ghost before = clap_attributes@;
        let fa = flatten_attribute();
        clap_attributes.push(fa);
        assert(attr_descs(clap_attributes@) =~= attr_descs(before).push(attr_desc(fa)));
    }
    let field = Field {
        visibility: vis.clone(),
        ident: ident.clone(),
        ty: TypeModel::Other(arg_ty),
        position,
        clap_attributes,
        markers: Vec::new(),
        question,
        with_context,
        resolver,
        resolver_message,
    };
    proof {
        assert(field.markers@ =~= Seq::<Marker>::empty());
        assert(crate::generate::field_desc(field) == command_field_spec(src, ident, position as int, m, arg_ty@));
    }
    Ok((field, FieldModel { attrs: kept, vis, ident: name, ty }))
}

// ---------------------------------------------------------------------------
// Variants
// ---------------------------------------------------------------------------

/// What one variant contributes: its arguments structure with `resolve`, its entry in the
/// subcommand enum, and its arm in `fill`.
pub struct VariantPart {
    pub structure: Seq<char>,
    pub entry: Seq<char>,
    pub arm: Seq<char>,
}

/// The generics of a type without parameters.
pub open spec fn no_generics() -> GenericsText {
    GenericsText {
        params: Seq::empty(),
        impl_generics: Seq::empty(),
        type_generics: Seq::empty(),
        where_clause: Seq::empty(),
    }
}

/// Reading one variant of the actions enum `enum_ident`.
pub open spec fn variant_outcome(v: VariantModel, enum_ident: String, vis: String, context: Seq<char>) -> Result<VariantPart, HillError> {
    match spec_parse_about(keep(v.attrs@, named_in(hill_names())), v.ident) {
        Err(e) => Err(e),
        Ok(about) => match v.fields {
            FieldsModel::Named(fs, _) => match try_fold(fs@, Seq::empty(), command_fields_fold()) {
                Err(e) => Err(e),
                Ok(specs) => match gen_outcome(
                    vis@,
                    v.ident@ + "Args"@,
                    no_generics(),
                    enum_ident@ + " :: "@ + v.ident@,
                    enum_ident@,
                    Some(context),
                    Seq::empty(),
                    specs,
                ) {
                    Err(e) => Err(e),
                    Ok(structure) => Ok(
                        VariantPart {
                            structure,
                            entry: "# [command (about = "@ + about.text@ + ")] "@ + v.ident@ + " ("@ + v.ident@
                                + "Args)"@,
                            arm: enum_ident@ + "Args :: "@ + v.ident@ + " (args) => args . resolve (ctx) . await"@,
                        },
                    ),
                },
            },
            _ => Err(HillError::VariantNamedFields { variant: v.ident }),
        },
    }
}

/// `out` is the variant `src` without `hill` attributes on it and on its fields.
pub open spec fn variant_stripped(out: VariantModel, src: VariantModel) -> bool {
    &&& out.attrs@ == keep(src.attrs@, named_outside(hill_names()))
    &&& out.ident == src.ident
    &&& out.discriminant == src.discriminant
    &&& match (out.fields, src.fields) {
        (FieldsModel::Named(a, ta), FieldsModel::Named(b, tb)) => {
            &&& ta == tb
            &&& a@.len() == b@.len()
            &&& forall|i: int| 0 <= i < b@.len() ==> field_stripped(#[trigger] a@[i], b@[i])
        },
        _ => false,
    }
}

/// The printed pieces of one variant.
pub struct VariantTexts {
    pub structure: String,
    pub entry: String,
    pub arm: String,
}

pub open spec fn texts_view(t: VariantTexts) -> VariantPart {
    VariantPart { structure: t.structure@, entry: t.entry@, arm: t.arm@ }
}

/// Reads one variant: its printed pieces and the variant without `hill` attributes.
pub fn command_variant(v: VariantModel, enum_ident: &String, vis: &String, context: &String) -> (r: Result<(VariantTexts, VariantModel), HillError>)
    ensures
        match variant_outcome(v, *enum_ident, *vis, context@) {
            Err(e) => r == Err::<(VariantTexts, VariantModel), HillError>(e),
            Ok(part) => r is Ok && texts_view(r->Ok_0.0) == part && variant_stripped(r->Ok_0.1, v),
        },
{
    let ghost src = v;
    let VariantModel { attrs, ident, fields, discriminant } = v;
    let (hill, kept) = partition_attributes(attrs, &["hill"]);
    assert(["hill"]@ =~= hill_names());
    let about = match parse_about(&hill, &ident) {
        Err(e) => {
            return Err(e);
        },
        Ok(a) => a,
    };
    let (fs, trailing) = match fields {
        FieldsModel::Named(fs, t) => (fs, t),
        _ => {
            return Err(HillError::VariantNamedFields { variant: ident });
        },
    };
    let ghost orig = fs@;
    assert(orig.len() == fs.len());
    let mut rest = fs;
    let mut out: Vec<Field> = Vec::new();
    let mut stripped: Vec<FieldModel> = Vec::new();
    let mut i: usize = 0;
    assert(orig.skip(0) =~= orig);
    assert(crate::generate::field_descs(out@) =~= Seq::<FieldSpec>::empty());
    while rest.len() > 0
        invariant
            i <= orig.len() <= usize::MAX,
            src.fields matches FieldsModel::Named(sf, st) && sf@ == orig && st == trailing,
            ident == src.ident,
            src == v,
            spec_parse_about(keep(src.attrs@, named_in(hill_names())), src.ident) == Ok::<LitStrModel, HillError>(about),
            rest@ == orig.skip(i as int),
            out@.len() == i,
            stripped@.len() == i,
            forall|j: int| 0 <= j < i ==> (#[trigger] out@[j]).position == j,
            forall|j: int| 0 <= j < i ==> field_stripped(#[trigger] stripped@[j], orig[j]),
            try_fold(orig, Seq::empty(), command_fields_fold()) == try_fold(
                orig.skip(i as int),
                crate::generate::field_descs(out@),
                command_fields_fold(),
            ),
        decreases rest.len(),
    {
        let f = rest.remove(0);
        assert(f == orig[i as int]);
        let ghost acc = crate::generate::field_descs(out@);
        proof {
            lemma_try_fold_step(orig, i as int, acc, command_fields_fold());
            assert(command_fields_fold()(acc, f) == command_fields_step(acc, f));
        }
        match command_field(f, i) {
            Err(e) => {
                return Err(e);
            },
            Ok((field, plain)) => {
                out.push(field);
                stripped.push(plain);
                assert(crate::generate::field_descs(out@) =~= acc.push(crate::generate::field_desc(field)));
            },
        }
        i = i + 1;
        assert(rest@ =~= orig.skip(i as int));
    }
    proof {
        lemma_try_fold_end(orig, crate::generate::field_descs(out@), command_fields_fold());
        lemma_sorted_in_place(out@);
    }
    let ghost specs = crate::generate::field_descs(out@);
    let mut structure_ident = ident.clone();
    structure_ident.append("Args");
    let mut initializer = enum_ident.clone();
    initializer.append(" :: ");
    initializer.append(ident.as_str());
    let mut segments: Vec<Segment> = Vec::new();
    segments.push(Segment { ident: enum_ident.clone(), arguments: SegmentArgs::Plain });
    segments.push(Segment { ident: ident.clone(), arguments: SegmentArgs::Plain });
    let decl = Declaration {
        visibility: vis.clone(),
        ident: structure_ident,
        generics: GenericsModel { params: String::new(), impl_generics: String::new(), type_generics: String::new(), where_clause: String::new() },
        target: PathModel { leading_colon: false, segments },
        destination: Destination { initializer, result: enum_ident.clone() },
        context: Some(context.clone()),
        clap_attributes: Vec::new(),
        fields: out,
    };
    proof {
        assert(decl.clap_attributes@.map_values(|a: Attribute| a.text@) =~= Seq::<Seq<char>>::empty());
        assert(generics_text(decl.generics) == no_generics());
        assert(spec_generate(decl) == gen_outcome(
            vis@,
            ident@ + "Args"@,
            no_generics(),
            enum_ident@ + " :: "@ + ident@,
            enum_ident@,
            Some(context@),
            Seq::empty(),
            specs,
        ));
    }
    let structure = match generate(decl) {
        Err(e) => {
            return Err(e);
        },
        Ok(t) => t,
    };
    let mut entry = owned("# [command (about = ");
    entry.append(about.text.as_str());
    entry.append(")] ");
    entry.append(ident.as_str());
    entry.append(" (");
    entry.append(ident.as_str());
    entry.append("Args)");
    let mut arm = enum_ident.clone();
    arm.append("Args :: ");
    arm.append(ident.as_str());
    arm.append(" (args) => args . resolve (ctx) . await");
    let variant = VariantModel { attrs: kept, ident, fields: FieldsModel::Named(stripped, trailing), discriminant };
    Ok((VariantTexts { structure, entry, arm }, variant))
}

// ---------------------------------------------------------------------------
// The whole expansion
// ---------------------------------------------------------------------------

pub open spec fn variants_step(enum_ident: String, vis: String, context: Seq<char>, acc: Seq<VariantPart>, v: VariantModel) -> Result<Seq<VariantPart>, HillError> {
    match variant_outcome(v, enum_ident, vis, context) {
        Err(e) => Err(e),
        Ok(p) => Ok(acc.push(p)),
    }
}

pub open spec fn variants_fold(enum_ident: String, vis: String, context: Seq<char>) -> spec_fn(Seq<VariantPart>, VariantModel) -> Result<Seq<VariantPart>, HillError> {
    |acc: Seq<VariantPart>, v: VariantModel| variants_step(enum_ident, vis, context, acc, v)
}

/// `out` is the actions enum `src` with `hill` attributes removed from its variants and fields.
pub open spec fn enum_stripped(out: EnumModel, src: EnumModel) -> bool {
    &&& out.attrs == src.attrs
    &&& out.trailing_comma == src.trailing_comma
    &&& out.vis == src.vis
    &&& out.ident == src.ident
    &&& out.generics == src.generics
    &&& out.variants@.len() == src.variants@.len()
    &&& forall|i: int| 0 <= i < src.variants@.len() ==> variant_stripped(#[trigger] out.variants@[i], src.variants@[i])
}

/// The code that `commands` writes after the cleaned enum.
pub open spec fn commands_text(item: Seq<char>, vis: Seq<char>, enum_ident: Seq<char>, context: Seq<char>, parts: Seq<VariantPart>) -> Seq<char> {
    let args_ident = enum_ident + "Args"@;
    let structures = words(parts.map_values(|p: VariantPart| p.structure));
    let args_enum = word2(
        word2(word2(word2("# [derive (clap :: Subcommand)]"@, vis), "enum"@), args_ident),
        braced(comma_list(parts.map_values(|p: VariantPart| p.entry))),
    );
    let fill = word2(
        word2(
            word2(vis, "async fn fill (args : "@ + args_ident + " , ctx : & "@ + context + ")"@),
            "-> :: command_hills :: Result < "@ + enum_ident + " >"@,
        ),
        braced(word2("match args"@, braced(comma_list(parts.map_values(|p: VariantPart| p.arm))))),
    );
    word2(word2(word2(item, structures), args_enum), fill)
}

/// What `#[commands(...)]` gives for its arguments and its enum: the context, the enum, and
/// each variant's pieces, or the first error met.
pub open spec fn spec_commands(
    arguments: Result<Vec<MetaItem>, String>,
    input: Result<EnumModel, String>,
) -> Result<(Seq<char>, EnumModel, Seq<VariantPart>), HillError> {
    match spec_parse_context(arguments) {
        Err(e) => Err(e),
        Ok(context) => match input {
            Err(m) => Err(HillError::Syntax(m)),
            Ok(item) => match try_fold(item.variants@, Seq::empty(), variants_fold(item.ident, item.vis, path_text(context))) {
                Err(e) => Err(e),
                Ok(parts) => Ok((path_text(context), item, parts)),
            },
        },
    }
}

/// The enum that `commands` writes back carries no `hill` attribute on its variants or
/// on their fields.
pub proof fn commands_leave_no_hill_marks(c: EnumModel, item: EnumModel)
    requires
        enum_stripped(c, item),
    ensures
        forall|i: int| 0 <= i < c.variants@.len() ==> none_named((#[trigger] c.variants@[i]).attrs@, "hill"@),
        forall|i: int, k: int| 0 <= i < c.variants@.len() && 0 <= k < fields_of(c.variants@[i].fields).len()
            ==> none_named((#[trigger] fields_of(c.variants@[i].fields)[k]).attrs@, "hill"@),
{
    assert(hill_names()[0]@ == "hill"@);
    assert forall|i: int| 0 <= i < c.variants@.len() implies none_named((#[trigger] c.variants@[i]).attrs@, "hill"@) by {
        assert(variant_stripped(c.variants@[i], item.variants@[i]));
        lemma_kept_outside(item.variants@[i].attrs@, hill_names(), 0);
    }
    assert forall|i: int, k: int| 0 <= i < c.variants@.len() && 0 <= k < fields_of(c.variants@[i].fields).len()
        implies none_named((#[trigger] fields_of(c.variants@[i].fields)[k]).attrs@, "hill"@) by {
        assert(variant_stripped(c.variants@[i], item.variants@[i]));
        let src = item.variants@[i];
        match (c.variants@[i].fields, src.fields) {
            (FieldsModel::Named(a, _), FieldsModel::Named(b, _)) => {
                assert(field_stripped(a@[k], b@[k]));
                lemma_kept_outside(b@[k].attrs@, hill_names(), 0);
            },
            _ => {},
        }
    }
}

/// `text` is the expansion of the actions enum `item`: the enum stripped of its `hill`
/// attributes, then the code written for its variants.
pub open spec fn expansion_of(text: Seq<char>, item: EnumModel, context: Seq<char>, parts: Seq<VariantPart>) -> bool {
    exists|c: EnumModel| enum_stripped(c, item) && text == commands_text(enum_text(c), item.vis@, item.ident@, context, parts)
}

/// `#[commands(context = Ctx)]`: expands an enum of actions.
pub fn expand(arguments: Result<Vec<MetaItem>, String>, input: Result<EnumModel, String>) -> (r: Result<String, HillError>)
    ensures
        match spec_commands(arguments, input) {
            Err(e) => r == Err::<String, HillError>(e),
            Ok((context, item, parts)) => r is Ok && expansion_of(r->Ok_0@, item, context, parts),
        },
{
    let ghost args0 = arguments;
    let ghost input0 = input;
    let context_path = match parse_context(arguments) {
        Err(e) => {
            return Err(e);
        },
        Ok(p) => p,
    };
    let context = render_path(&context_path);
    let item = match input {
        Err(m) => {
            return Err(HillError::Syntax(m));
        },
        Ok(item) => item,
    };
    let ghost src = item;
    let EnumModel { attrs, vis, ident, generics, variants, trailing_comma } = item;
    let ghost orig = variants@;
    assert(orig.len() == variants.len());
    let mut rest = variants;
    let mut texts: Vec<VariantTexts> = Vec::new();
    let mut cleaned: Vec<VariantModel> = Vec::new();
    let mut i: usize = 0;
    assert(orig.skip(0) =~= orig);
    assert(texts@.map_values(|t: VariantTexts| texts_view(t)) =~= Seq::<VariantPart>::empty());
    while rest.len() > 0
        invariant
            i <= orig.len() <= usize::MAX,
            orig == src.variants@,
            ident == src.ident,
            vis == src.vis,
            args0 == arguments,
            input0 == input,
            input0 == Ok::<EnumModel, String>(src),
            spec_parse_context(args0) == Ok::<PathModel, HillError>(context_path),
            context@ == path_text(context_path),
            rest@ == orig.skip(i as int),
            cleaned@.len() == i,
            forall|j: int| 0 <= j < i ==> variant_stripped(#[trigger] cleaned@[j], orig[j]),
            try_fold(orig, Seq::empty(), variants_fold(ident, vis, context@)) == try_fold(
                orig.skip(i as int),
                texts@.map_values(|t: VariantTexts| texts_view(t)),
                variants_fold(ident, vis, context@),
            ),
        decreases rest.len(),
    {
        let v = rest.remove(0);
        assert(v == orig[i as int]);
        let ghost acc = texts@.map_values(|t: VariantTexts| texts_view(t));
        proof {
            lemma_try_fold_step(orig, i as int, acc, variants_fold(ident, vis, context@));
            assert(variants_fold(ident, vis, context@)(acc, v) == variants_step(ident, vis, context@, acc, v));
        }
        match command_variant(v, &ident, &vis, &context) {
            Err(e) => {
                return Err(e);
            },
            Ok((t, c)) => {
                texts.push(t);
                cleaned.push(c);
                assert(texts@.map_values(|t: VariantTexts| texts_view(t)) =~= acc.push(texts_view(t)));
            },
        }
        i = i + 1;
        assert(rest@ =~= orig.skip(i as int));
    }
    proof {
        lemma_try_fold_end(orig, texts@.map_values(|t: VariantTexts| texts_view(t)), variants_fold(ident, vis, context@));
    }
    let ghost parts = texts@.map_values(|t: VariantTexts| texts_view(t));
    let mut structures: Vec<String> = Vec::new();
    let mut entries: Vec<String> = Vec::new();
    let mut arms: Vec<String> = Vec::new();
    let mut k: usize = 0;
    while k < texts.len()
        invariant
            k <= texts.len(),
            parts == texts@.map_values(|t: VariantTexts| texts_view(t)),
            structures@.len() == k,
            entries@.len() == k,
            arms@.len() == k,
            forall|j: int| 0 <= j < k ==> #[trigger] structures@[j]@ == parts[j].structure,
            forall|j: int| 0 <= j < k ==> #[trigger] entries@[j]@ == parts[j].entry,
            forall|j: int| 0 <= j < k ==> #[trigger] arms@[j]@ == parts[j].arm,
        decreases texts.len() - k,
    {
        structures.push(texts[k].structure.clone());
        entries.push(texts[k].entry.clone());
        arms.push(texts[k].arm.clone());
        k = k + 1;
    }
    assert(structures@.map_values(|p: String| p@) =~= parts.map_values(|p: VariantPart| p.structure));
    assert(entries@.map_values(|p: String| p@) =~= parts.map_values(|p: VariantPart| p.entry));
    assert(arms@.map_values(|p: String| p@) =~= parts.map_values(|p: VariantPart| p.arm));
    let item = EnumModel { attrs, vis, ident, generics, variants: cleaned, trailing_comma };
    assert(enum_stripped(item, src));
    let mut out = render_enum(&item);
    let structures_txt = join_words(&structures);
    push_word(&mut out, structures_txt.as_str());
    let mut args_ident = item.ident.clone();
    args_ident.append("Args");
    let mut args_enum = owned("# [derive (clap :: Subcommand)]");
    proof {
        reveal_strlit("# [derive (clap :: Subcommand)]");
        reveal_strlit("match args");
    }
    push_word(&mut args_enum, item.vis.as_str());
    push_word(&mut args_enum, "enum");
    push_word(&mut args_enum, args_ident.as_str());
    let entry_list = join_comma_list(&entries);
    let entry_block = brace(entry_list.as_str());
    push_word(&mut args_enum, entry_block.as_str());
    push_word(&mut out, args_enum.as_str());
    let mut fill = item.vis.clone();
    let mut sig = owned("async fn fill (args : ");
    sig.append(args_ident.as_str());
    sig.append(" , ctx : & ");
    sig.append(context.as_str());
    sig.append(")");
    push_word(&mut fill, sig.as_str());
    let mut ret = owned("-> :: command_hills :: Result < ");
    ret.append(item.ident.as_str());
    ret.append(" >");
    push_word(&mut fill, ret.as_str());
    let arm_list = join_comma_list(&arms);
    let arm_block = brace(arm_list.as_str());
    let mut matcher = owned("match args");
    push_word(&mut matcher, arm_block.as_str());
    let body = brace(matcher.as_str());
    push_word(&mut fill, body.as_str());
    push_word(&mut out, fill.as_str());
    assert(spec_commands(args0, input0) == Ok::<(Seq<char>, EnumModel, Seq<VariantPart>), HillError>((context@, src, parts)));
    assert(out@ == commands_text(enum_text(item), src.vis@, src.ident@, context@, parts));
    assert(enum_stripped(item, src));
    assert(expansion_of(out@, src, context@, parts));
    Ok(out)
}

} // verus!
