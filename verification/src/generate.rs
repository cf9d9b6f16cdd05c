//! Writing the arguments structure of a declaration and its `resolve` method.
use vstd::prelude::*;
use vstd::string::*;
use crate::error::HillError;
use crate::model::{Declaration, Destination, Field, Marker, Question};
use crate::syntax::GenericsModel;
use crate::item::{attrs_text, render_attrs};
use crate::syntax::{
    is_ident, render_type, spec_get_ident, spec_is_ident, type_text, Attribute, MetaItem, MetaKind,
};
use crate::text::{
    keep, braced, brace, comma_list, join_comma_list, lemma_try_fold_end, lemma_try_fold_step, paren,
    parened, push_word, str_eq, try_fold, word2, words, join_words,
};

verus! {

// ---------------------------------------------------------------------------
// Order of the fields
// ---------------------------------------------------------------------------

/// The index at which a field with position `pos` goes: after every field whose
/// position is not greater, so that fields of equal position keep their order.
pub open spec fn insertion_point(s: Seq<Field>, pos: usize) -> int
    decreases s.len(),
{
    if s.len() == 0 {
        0
    } else if s[0].position > pos {
        0
    } else {
        1 + insertion_point(s.drop_first(), pos)
    }
}

/// The fields ordered by position; fields of equal position keep their order.
pub open spec fn sorted_fields(s: Seq<Field>) -> Seq<Field>
    decreases s.len(),
{
    if s.len() == 0 {
        Seq::empty()
    } else {
        let prev = sorted_fields(s.drop_last());
        prev.insert(insertion_point(prev, s.last().position), s.last())
    }
}

proof fn lemma_insertion_point(s: Seq<Field>, pos: usize, k: int)
    requires
        0 <= k <= s.len(),
        forall|j: int| 0 <= j < k ==> (#[trigger] s[j]).position <= pos,
        k == s.len() || s[k].position > pos,
    ensures
        insertion_point(s, pos) == k,
    decreases s.len(),
{
    if s.len() > 0 && k > 0 {
        assert forall|j: int| 0 <= j < k - 1 implies (#[trigger] s.drop_first()[j]).position <= pos by {
            assert(s.drop_first()[j] == s[j + 1]);
        }
        lemma_insertion_point(s.drop_first(), pos, k - 1);
    }
}

proof fn lemma_insertion_point_bound(s: Seq<Field>, pos: usize)
    ensures
        0 <= insertion_point(s, pos) <= s.len(),
    decreases s.len(),
{
    if s.len() > 0 {
        lemma_insertion_point_bound(s.drop_first(), pos);
    }
}

/// Fields that already stand at their positions keep their order.
pub proof fn lemma_sorted_in_place(s: Seq<Field>)
    requires
        forall|i: int| 0 <= i < s.len() ==> (#[trigger] s[i]).position == i,
    ensures
        sorted_fields(s) == s,
    decreases s.len(),
{
    if s.len() > 0 {
        let prev = s.drop_last();
        assert forall|i: int| 0 <= i < prev.len() implies (#[trigger] prev[i]).position == i by {
            assert(prev[i] == s[i]);
        }
        lemma_sorted_in_place(prev);
        let pos = s.last().position;
        assert forall|j: int| 0 <= j < prev.len() implies (#[trigger] prev[j]).position <= pos by {
            assert(prev[j] == s[j]);
        }
        lemma_insertion_point(prev, pos, prev.len() as int);
        assert(prev.insert(prev.len() as int, s.last()) =~= s);
    }
}

proof fn lemma_insertion_point_props(s: Seq<Field>, pos: usize)
    ensures
        forall|j: int| 0 <= j < insertion_point(s, pos) ==> (#[trigger] s[j]).position <= pos,
        insertion_point(s, pos) < s.len() ==> s[insertion_point(s, pos)].position > pos,
    decreases s.len(),
{
    lemma_insertion_point_bound(s, pos);
    if s.len() > 0 && s[0].position <= pos {
        lemma_insertion_point_props(s.drop_first(), pos);
        assert forall|j: int| 0 <= j < insertion_point(s, pos) implies (#[trigger] s[j]).position <= pos by {
            if j > 0 {
                assert(s[j] == s.drop_first()[j - 1]);
            }
        }
        let k = insertion_point(s.drop_first(), pos);
        lemma_insertion_point_bound(s.drop_first(), pos);
        if k < s.drop_first().len() {
            assert(s[k + 1] == s.drop_first()[k]);
        }
    }
}

/// Ordering fields by position gives them in increasing order of position, and gives back
/// each field as many times as it was given.
pub proof fn sorted_fields_are_ordered(s: Seq<Field>)
    ensures
        forall|i: int, j: int| 0 <= i < j < sorted_fields(s).len() ==> (#[trigger] sorted_fields(s)[i]).position <= (#[trigger] sorted_fields(s)[j]).position,
        sorted_fields(s).to_multiset() == s.to_multiset(),
    decreases s.len(),
{
    if s.len() > 0 {
        let rest = s.drop_last();
        let x = s.last();
        sorted_fields_are_ordered(rest);
        let prev = sorted_fields(rest);
        let k = insertion_point(prev, x.position);
        lemma_insertion_point_bound(prev, x.position);
        lemma_insertion_point_props(prev, x.position);
        let r = prev.insert(k, x);
        prev.insert_ensures(k, x);
        assert(sorted_fields(s) == r);
        assert forall|i: int, j: int| 0 <= i < j < r.len() implies (#[trigger] r[i]).position <= (#[trigger] r[j]).position by {
            if j < k {
                assert(r[i] == prev[i] && r[j] == prev[j]);
            } else if j == k {
                assert(r[i] == prev[i]);
            } else if i < k {
                assert(r[i] == prev[i] && r[j] == prev[j - 1]);
            } else if i == k {
                assert(r[j] == prev[j - 1]);
                assert(prev[k].position > x.position);
                if j - 1 > k {
                    assert(prev[k].position <= prev[j - 1].position);
                }
            } else {
                assert(r[i] == prev[i - 1] && r[j] == prev[j - 1]);
            }
        }
        vstd::seq_lib::to_multiset_insert(prev, k, x);
        vstd::seq_lib::to_multiset_build(rest, x);
        assert(rest.push(x) =~= s);
        assert(r.to_multiset() == rest.push(x).to_multiset());
    } else {
        assert(s =~= Seq::<Field>::empty());
        assert(sorted_fields(s) =~= Seq::<Field>::empty());
    }
}

/// The fields ordered by position, keeping the order of fields of equal position.
pub fn sort_by_position(fields: Vec<Field>) -> (r: Vec<Field>)
    ensures
        r@ == sorted_fields(fields@),
{
    let ghost orig = fields@;
    assert(orig.len() == fields.len());
    let mut rest = fields;
    let mut out: Vec<Field> = Vec::new();
    let mut i: usize = 0;
    while rest.len() > 0
        invariant
            i <= orig.len() <= usize::MAX,
            orig == fields@,
            rest@ == orig.skip(i as int),
            out@ == sorted_fields(orig.take(i as int)),
            out@.len() == i,
        decreases rest.len(),
    {
        let f = rest.remove(0);
        assert(f == orig[i as int]);
        let pos = f.position;
        let mut k: usize = 0;
        while k < out.len() && out[k].position <= pos
            invariant
                k <= out@.len(),
                forall|j: int| 0 <= j < k ==> (#[trigger] out@[j]).position <= pos,
            decreases out@.len() - k,
        {
            k = k + 1;
        }
        proof {
            lemma_insertion_point(out@, pos, k as int);
            assert(orig.take(i + 1).drop_last() =~= orig.take(i as int));
            assert(orig.take(i + 1).last() == f);
        }
        out.insert(k, f);
        i = i + 1;
        assert(rest@ =~= orig.skip(i as int));
    }
    assert(orig.take(i as int) =~= orig);
    out
}

// ---------------------------------------------------------------------------
// Fields of the arguments structure
// ---------------------------------------------------------------------------

/// The type argument of the first `Only` marker.
pub open spec fn first_only(ms: Seq<Marker>) -> Option<String>
    decreases ms.len(),
{
    if ms.len() == 0 {
        None
    } else if ms[0].ident@ == "Only"@ {
        Some(ms[0].inner_type)
    } else {
        first_only(ms.drop_first())
    }
}

/// The characters of an optional string.
pub open spec fn opt_view(o: Option<String>) -> Option<Seq<char>> {
    match o {
        Some(s) => Some(s@),
        None => None,
    }
}

/// What generating reads of an attribute: its name when that is a single identifier,
/// its printed text and its arguments read as a list.
pub struct AttrSpec {
    pub ident: Option<Seq<char>>,
    pub text: Seq<char>,
    /// Whether the argument list holds the bare entry `flatten`, or why the arguments do not read as a list.
    pub flatten: Result<bool, String>,
}

/// Whether an argument list holds the bare entry `flatten`.
pub open spec fn lists_flatten_spec(items: Seq<MetaItem>) -> bool {
    exists|j: int| 0 <= j < items.len() && (#[trigger] items[j]).kind is Path && spec_is_ident(items[j].path, "flatten"@)
}

/// The `flatten` reading of an attribute's argument list.
pub open spec fn flatten_desc(meta: Result<Vec<MetaItem>, String>) -> Result<bool, String> {
    match meta {
        Err(m) => Err(m),
        Ok(items) => Ok(lists_flatten_spec(items@)),
    }
}

pub open spec fn attr_desc(a: Attribute) -> AttrSpec {
    AttrSpec { ident: opt_view(spec_get_ident(a.path)), text: a.text@, flatten: flatten_desc(a.meta) }
}

pub open spec fn attr_descs(s: Seq<Attribute>) -> Seq<AttrSpec> {
    s.map_values(|a: Attribute| attr_desc(a))
}

/// What generating reads of a field of the arguments structure.
pub struct FieldSpec {
    pub visibility: Seq<char>,
    pub ident: String,
    /// The field's type, as printed.
    pub ty: Seq<char>,
    pub position: usize,
    pub clap: Seq<AttrSpec>,
    /// The type argument of its first `Only` marker.
    pub only: Option<Seq<char>>,
    /// Whether it has markers, which keep it out of the target.
    pub skipped: bool,
    pub question: Option<Question>,
    pub with_context: bool,
    /// Its resolver's path, as printed.
    pub resolver: Option<Seq<char>>,
}

pub open spec fn field_desc(f: Field) -> FieldSpec {
    FieldSpec {
        visibility: f.visibility@,
        ident: f.ident,
        ty: type_text(f.ty),
        position: f.position,
        clap: attr_descs(f.clap_attributes@),
        only: opt_view(first_only(f.markers@)),
        skipped: f.markers@.len() > 0,
        question: f.question,
        with_context: f.with_context,
        resolver: opt_view(f.resolver),
    }
}

pub open spec fn field_descs(s: Seq<Field>) -> Seq<FieldSpec> {
    s.map_values(|f: Field| field_desc(f))
}

/// Printed attributes, one after the other.
pub open spec fn texts_of(attrs: Seq<AttrSpec>) -> Seq<char> {
    words(attrs.map_values(|a: AttrSpec| a.text))
}

/// A field of the arguments structure: its clap attributes, visibility, name and type,
/// where an `Only<T>` field has the type `T`.
pub open spec fn field_text(f: FieldSpec) -> Seq<char> {
    let ty = match f.only {
        Some(inner) => inner,
        None => f.ty,
    };
    word2(word2(word2(word2(texts_of(f.clap), f.visibility), f.ident@), ":"@), ty)
}

fn find_only(ms: &Vec<Marker>) -> (r: Option<String>)
    ensures
        r == first_only(ms@),
{
    let mut i: usize = 0;
    assert(ms@.skip(0) =~= ms@);
    while i < ms.len()
        invariant
            i <= ms.len(),
            first_only(ms@) == first_only(ms@.skip(i as int)),
        decreases ms.len() - i,
    {
        assert(ms@.skip(i as int).drop_first() =~= ms@.skip(i + 1));
        if str_eq(ms[i].ident.as_str(), "Only") {
            return Some(ms[i].inner_type.clone());
        }
        i = i + 1;
    }
    None
}

/// Writes one field of the arguments structure.
pub fn generate_field(f: &Field) -> (r: String)
    ensures
        r@ == field_text(field_desc(*f)),
{
    let ty = match find_only(&f.markers) {
        Some(inner) => inner,
        None => render_type(&f.ty),
    };
    let mut s = render_attrs(&f.clap_attributes);
    assert(attr_descs(f.clap_attributes@).map_values(|a: AttrSpec| a.text) =~= f.clap_attributes@.map_values(
        |a: Attribute| a.text@,
    ));
    push_word(&mut s, f.visibility.as_str());
    push_word(&mut s, f.ident.as_str());
    push_word(&mut s, ":");
    push_word(&mut s, ty.as_str());
    s
}

// ---------------------------------------------------------------------------
// How each field is resolved
// ---------------------------------------------------------------------------

/// One attribute in the search for `#[command(flatten)]`; once found, later attributes are not read.
pub open spec fn flatten_step(found: bool, a: AttrSpec) -> Result<bool, HillError> {
    if found || a.ident != Some("command"@) {
        Ok(found)
    } else {
        match a.flatten {
            Err(m) => Err(HillError::Syntax(m)),
            Ok(found) => Ok(found),
        }
    }
}

pub open spec fn flatten_fold() -> spec_fn(bool, AttrSpec) -> Result<bool, HillError> {
    |found: bool, a: AttrSpec| flatten_step(found, a)
}

/// Whether a `#[command(...)]` attribute lists `flatten`; the arguments of `command`
/// attributes are read until one does.
pub open spec fn spec_is_flattened(attrs: Seq<AttrSpec>) -> Result<bool, HillError> {
    try_fold(attrs, false, flatten_fold())
}

/// Whether the argument list holds the bare entry `flatten`.
fn lists_flatten(items: &Vec<MetaItem>) -> (r: bool)
    ensures
        r == lists_flatten_spec(items@),
{
    let mut j: usize = 0;
    while j < items.len()
        invariant
            j <= items.len(),
            forall|k: int|
                0 <= k < j ==> !((#[trigger] items@[k]).kind is Path && spec_is_ident(items@[k].path, "flatten"@)),
        decreases items.len() - j,
    {
        let is_path = match &items[j].kind {
            MetaKind::Path => true,
            _ => false,
        };
        if is_path && is_ident(&items[j].path, "flatten") {
            assert((items@[j as int]).kind is Path && spec_is_ident(items@[j as int].path, "flatten"@));
            return true;
        }
        j = j + 1;
    }
    false
}

/// Once `flatten` has been found, no later attribute changes the outcome.
proof fn lemma_found_stays(attrs: Seq<AttrSpec>, m: int)
    requires
        0 <= m <= attrs.len(),
    ensures
        try_fold(attrs.skip(m), true, flatten_fold()) == Ok::<bool, HillError>(true),
    decreases attrs.len() - m,
{
    if m < attrs.len() {
        lemma_try_fold_step(attrs, m, true, flatten_fold());
        assert(flatten_fold()(true, attrs[m]) == flatten_step(true, attrs[m]));
        lemma_found_stays(attrs, m + 1);
    } else {
        lemma_try_fold_end(attrs, true, flatten_fold());
    }
}

/// Whether the field is flattened by clap.
pub fn is_flattened(attrs: &Vec<Attribute>) -> (r: Result<bool, HillError>)
    ensures
        r == spec_is_flattened(attr_descs(attrs@)),
{
    let ghost descs = attr_descs(attrs@);
    let mut i: usize = 0;
    assert(descs.skip(0) =~= descs);
    while i < attrs.len()
        invariant
            i <= attrs.len(),
            descs == attr_descs(attrs@),
            spec_is_flattened(descs) == try_fold(descs.skip(i as int), false, flatten_fold()),
        decreases attrs.len() - i,
    {
        let a = &attrs[i];
        proof {
            lemma_try_fold_step(descs, i as int, false, flatten_fold());
            assert(descs[i as int] == attr_desc(*a));
            assert(flatten_fold()(false, descs[i as int]) == flatten_step(false, attr_desc(*a)));
        }
        if is_ident(&a.path, "command") {
            match &a.meta {
                Err(m) => {
                    return Err(HillError::Syntax(m.clone()));
                },
                Ok(items) => {
                    if lists_flatten(items) {
                        proof {
                            assert forall|m: int| i + 1 <= m <= descs.len() implies
                                try_fold(descs.skip(m), true, flatten_fold()) == Ok::<bool, HillError>(true) by {
                                lemma_found_stays(descs, m);
                            }
                        }
                        return Ok(true);
                    }
                },
            }
        }
        i = i + 1;
    }
    proof {
        lemma_try_fold_end(descs, false, flatten_fold());
    }
    Ok(false)
}

/// The initializer of one field of the target: through its own resolver, a question,
/// `Resolve`/`ResolveWithCtx` for flattened fields, or the parsed value itself.
pub open spec fn resolution_text(f: FieldSpec, has_context: bool) -> Result<Seq<char>, HillError> {
    let x = f.ident@;
    match f.resolver {
        Some(p) => Ok(
            if has_context {
                x + " : "@ + p + " (self . "@ + x + " , ctx) . await ?"@
            } else {
                x + " : "@ + p + " (self . "@ + x + ") ?"@
            },
        ),
        None => match f.question {
            Some(Question::Ask(m)) => Ok(
                x + " : :: command_hills :: __private :: ask_variant ("@ + m.text@ + " , self . "@ + x
                    + ") ?"@,
            ),
            Some(Question::Keep(m)) => Ok(
                x + " : :: command_hills :: __private :: ask_variant_or_keep ("@ + m.text@
                    + " , self . "@ + x + ") ?"@,
            ),
            None => match spec_is_flattened(f.clap) {
                Err(e) => Err(e),
                Ok(true) => if f.with_context {
                    if has_context {
                        Ok(
                            x + " : :: command_hills :: ResolveWithCtx :: resolve (self . "@ + x
                                + " , ctx) . await ?"@,
                        )
                    } else {
                        Err(HillError::ContextNeededForCtx { field: f.ident })
                    }
                } else {
                    Ok(x + " : :: command_hills :: Resolve :: resolve (self . "@ + x + ") ?"@)
                },
                Ok(false) => if f.with_context {
                    Err(HillError::CtxRequiresFlatten { field: f.ident })
                } else {
                    Ok(x + " : self . "@ + x)
                },
            },
        },
    }
}

/// Writes the initializer of one field of the target.
pub fn resolve_field(f: &Field, has_context: bool) -> (r: Result<String, HillError>)
    ensures
        match resolution_text(field_desc(*f), has_context) {
            Err(e) => r == Err::<String, HillError>(e),
            Ok(t) => r is Ok && r->Ok_0@ == t,
        },
{
    let x = f.ident.as_str();
    let mut s = f.ident.clone();
    match &f.resolver {
        Some(p) => {
            if has_context {
                s.append(" : ");
                s.append(p.as_str());
                s.append(" (self . ");
                s.append(x);
                s.append(" , ctx) . await ?");
            } else {
                s.append(" : ");
                s.append(p.as_str());
                s.append(" (self . ");
                s.append(x);
                s.append(") ?");
            }
            return Ok(s);
        },
        None => {},
    }
    match &f.question {
        Some(Question::Ask(m)) => {
            s.append(" : :: command_hills :: __private :: ask_variant (");
            s.append(m.text.as_str());
            s.append(" , self . ");
            s.append(x);
            s.append(") ?");
            return Ok(s);
        },
        Some(Question::Keep(m)) => {
            s.append(" : :: command_hills :: __private :: ask_variant_or_keep (");
            s.append(m.text.as_str());
            s.append(" , self . ");
            s.append(x);
            s.append(") ?");
            return Ok(s);
        },
        None => {},
    }
    match is_flattened(&f.clap_attributes) {
        Err(e) => Err(e),
        Ok(true) => {
            if f.with_context {
                if has_context {
                    s.append(" : :: command_hills :: ResolveWithCtx :: resolve (self . ");
                    s.append(x);
                    s.append(" , ctx) . await ?");
                    Ok(s)
                } else {
                    Err(HillError::ContextNeededForCtx { field: f.ident.clone() })
                }
            } else {
                s.append(" : :: command_hills :: Resolve :: resolve (self . ");
                s.append(x);
                s.append(") ?");
                Ok(s)
            }
        },
        Ok(false) => {
            if f.with_context {
                Err(HillError::CtxRequiresFlatten { field: f.ident.clone() })
            } else {
                s.append(" : self . ");
                s.append(x);
                Ok(s)
            }
        },
    }
}

// ---------------------------------------------------------------------------
// The whole output
// ---------------------------------------------------------------------------

/// One field in the collection of initializers: fields with markers are skipped.
pub open spec fn resolve_step(has_context: bool, acc: Seq<Seq<char>>, f: FieldSpec) -> Result<Seq<Seq<char>>, HillError> {
    if !f.skipped {
        match resolution_text(f, has_context) {
            Err(e) => Err(e),
            Ok(t) => Ok(acc.push(t)),
        }
    } else {
        Ok(acc)
    }
}

pub open spec fn resolve_fold(has_context: bool) -> spec_fn(Seq<Seq<char>>, FieldSpec) -> Result<Seq<Seq<char>>, HillError> {
    |acc: Seq<Seq<char>>, f: FieldSpec| resolve_step(has_context, acc, f)
}

/// The initializers of the target's fields, in order; the first refused field decides the error.
pub open spec fn spec_resolutions(fields: Seq<FieldSpec>, has_context: bool) -> Result<Seq<Seq<char>>, HillError> {
    try_fold(fields, Seq::empty(), resolve_fold(has_context))
}

/// Whether a field goes into the target: it has no marker.
pub open spec fn goes_to_target() -> spec_fn(FieldSpec) -> bool {
    |f: FieldSpec| !f.skipped
}

/// `keep` read from the front.
proof fn lemma_keep_front<A>(s: Seq<A>, p: spec_fn(A) -> bool)
    requires
        s.len() > 0,
    ensures
        keep(s, p) == (if p(s[0]) { seq![s[0]] } else { Seq::empty() }) + keep(s.drop_first(), p),
    decreases s.len(),
{
    if s.len() == 1 {
        assert(s.drop_last() =~= Seq::<A>::empty());
        assert(s.drop_first() =~= Seq::<A>::empty());
        assert(keep(s.drop_first(), p) =~= Seq::<A>::empty());
        if p(s[0]) {
            assert(keep(s, p) =~= seq![s[0]]);
        } else {
            assert(keep(s, p) =~= Seq::<A>::empty());
        }
    } else {
        let t = s.drop_last();
        lemma_keep_front(t, p);
        assert(t.drop_first() =~= s.drop_first().drop_last());
        assert(s.drop_first().last() == s.last());
        assert(t[0] == s[0]);
        let head: Seq<A> = if p(s[0]) { seq![s[0]] } else { Seq::empty() };
        if p(s.last()) {
            assert(keep(s, p) =~= head + keep(s.drop_first(), p));
        } else {
            assert(keep(s, p) =~= head + keep(s.drop_first(), p));
        }
    }
}

/// An initializer written for a field starts with the field's name.
proof fn lemma_resolution_names_field(f: FieldSpec, has_context: bool)
    ensures
        resolution_text(f, has_context) matches Ok(t) ==> (f.ident@ + " : "@).is_prefix_of(t),
{
    reveal_strlit(" : ");
    reveal_strlit(" : :: command_hills :: __private :: ask_variant (");
    reveal_strlit(" : :: command_hills :: __private :: ask_variant_or_keep (");
    reveal_strlit(" : :: command_hills :: ResolveWithCtx :: resolve (self . ");
    reveal_strlit(" : :: command_hills :: Resolve :: resolve (self . ");
    reveal_strlit(" : self . ");
    let x = f.ident@;
    let head = x + " : "@;
    if let Ok(t) = resolution_text(f, has_context) {
        assert(t.len() >= head.len());
        assert forall|i: int| 0 <= i < head.len() implies head[i] == t[i] by {}
        assert(t.take(head.len() as int) =~= head);
    }
}

proof fn lemma_resolutions_from(fields: Seq<FieldSpec>, acc: Seq<Seq<char>>, has_context: bool)
    ensures
        try_fold(fields, acc, resolve_fold(has_context)) matches Ok(rs) ==> {
            let kept = keep(fields, goes_to_target());
            &&& rs.len() == acc.len() + kept.len()
            &&& forall|i: int| 0 <= i < acc.len() ==> rs[i] == acc[i]
            &&& forall|k: int| 0 <= k < kept.len() ==> (#[trigger] kept[k].ident@ + " : "@).is_prefix_of(rs[acc.len() + k])
            &&& forall|k: int| 0 <= k < kept.len() ==> resolution_text(#[trigger] kept[k], has_context) == Ok::<Seq<char>, HillError>(rs[acc.len() + k])
        },
    decreases fields.len(),
{
    if fields.len() > 0 {
        let f = fields[0];
        lemma_keep_front(fields, goes_to_target());
        assert(resolve_fold(has_context)(acc, f) == resolve_step(has_context, acc, f));
        match resolve_step(has_context, acc, f) {
            Err(_) => {},
            Ok(next) => {
                lemma_resolutions_from(fields.drop_first(), next, has_context);
                if !f.skipped {
                    lemma_resolution_names_field(f, has_context);
                    let kept = keep(fields, goes_to_target());
                    let rest = keep(fields.drop_first(), goes_to_target());
                    assert(kept =~= seq![f] + rest);
                    if let Ok(rs) = try_fold(fields, acc, resolve_fold(has_context)) {
                        assert forall|k: int| 0 <= k < kept.len() implies (#[trigger] kept[k].ident@ + " : "@).is_prefix_of(rs[acc.len() + k]) by {
                            if k > 0 {
                                assert(kept[k] == rest[k - 1]);
                                assert(rs[acc.len() + k] == rs[next.len() + (k - 1)]);
                            } else {
                                assert(rs[acc.len() as int] == next[acc.len() as int]);
                            }
                        }
                        assert forall|k: int| 0 <= k < kept.len() implies resolution_text(#[trigger] kept[k], has_context) == Ok::<Seq<char>, HillError>(rs[acc.len() + k]) by {
                            if k > 0 {
                                assert(kept[k] == rest[k - 1]);
                                assert(rs[acc.len() + k] == rs[next.len() + (k - 1)]);
                            } else {
                                assert(rs[acc.len() as int] == next[acc.len() as int]);
                            }
                        }
                    }
                } else {
                    assert(keep(fields, goes_to_target()) =~= keep(fields.drop_first(), goes_to_target()));
                }
            },
        }
    } else {
        assert(keep(fields, goes_to_target()) =~= Seq::<FieldSpec>::empty());
    }
}

/// The target is built from the fields without markers, in order: one initializer for
/// each, naming the field; fields with a marker stay arguments only.
pub proof fn only_unmarked_fields_reach_the_target(fields: Seq<FieldSpec>, has_context: bool)
    ensures
        spec_resolutions(fields, has_context) matches Ok(rs) ==> {
            let kept = keep(fields, goes_to_target());
            &&& rs.len() == kept.len()
            &&& forall|k: int| 0 <= k < kept.len() ==> (#[trigger] kept[k].ident@ + " : "@).is_prefix_of(rs[k])
            &&& forall|k: int| 0 <= k < kept.len() ==> resolution_text(#[trigger] kept[k], has_context) == Ok::<Seq<char>, HillError>(rs[k])
        },
{
    lemma_resolutions_from(fields, Seq::empty(), has_context);
}

/// In `resolve`, a field with a resolver is initialized by calling it on the field's parsed
/// value, awaited and with the context where the declaration has one; the resolver comes
/// before any question the field has. A field with neither resolver, question, flatten nor
/// `ctx` is copied as it was parsed.
pub proof fn resolvers_take_the_value_and_the_context(f: FieldSpec, has_context: bool)
    ensures
        f.resolver matches Some(p) ==> resolution_text(f, has_context) == Ok::<Seq<char>, HillError>(
            if has_context {
                f.ident@ + " : "@ + p + " (self . "@ + f.ident@ + " , ctx) . await ?"@
            } else {
                f.ident@ + " : "@ + p + " (self . "@ + f.ident@ + ") ?"@
            },
        ),
        f.resolver is None && f.question is None && spec_is_flattened(f.clap) == Ok::<bool, HillError>(false)
            && !f.with_context ==> resolution_text(f, has_context) == Ok::<Seq<char>, HillError>(
            f.ident@ + " : self . "@ + f.ident@,
        ),
{
}

/// In `resolve`, a field asked with `ask` is initialized by `ask_variant`, which makes the
/// user choose one of the variants, and only a field asked with `keep` by
/// `ask_variant_or_keep`, which also offers to keep the value given; both take the
/// question's message and the field's parsed value.
pub proof fn ask_and_keep_questions_pick_their_helper(f: FieldSpec, has_context: bool)
    requires
        f.resolver is None,
    ensures
        f.question matches Some(Question::Ask(m)) ==> resolution_text(f, has_context) == Ok::<Seq<char>, HillError>(
            f.ident@ + " : :: command_hills :: __private :: ask_variant ("@ + m.text@ + " , self . "@ + f.ident@ + ") ?"@,
        ),
        f.question matches Some(Question::Keep(m)) ==> resolution_text(f, has_context) == Ok::<Seq<char>, HillError>(
            f.ident@ + " : :: command_hills :: __private :: ask_variant_or_keep ("@ + m.text@ + " , self . "@ + f.ident@
                + ") ?"@,
        ),
{
}

/// The generics of an item, as printed in each place.
pub struct GenericsText {
    pub params: Seq<char>,
    pub impl_generics: Seq<char>,
    pub type_generics: Seq<char>,
    pub where_clause: Seq<char>,
}

pub open spec fn generics_text(g: GenericsModel) -> GenericsText {
    GenericsText {
        params: g.params@,
        impl_generics: g.impl_generics@,
        type_generics: g.type_generics@,
        where_clause: g.where_clause@,
    }
}

/// The `resolve` method: asynchronous and taking the context when the declaration has one.
pub open spec fn resolve_method_text(
    context: Option<Seq<char>>,
    initializer: Seq<char>,
    result: Seq<char>,
    resolved: Seq<Seq<char>>,
) -> Seq<char> {
    let head = match context {
        Some(c) => "pub async fn resolve (self , ctx : & "@ + c + ")"@,
        None => "pub fn resolve (self)"@,
    };
    let ret = "-> :: command_hills :: Result < "@ + result + " >"@;
    let body = braced(word2("Ok"@, parened(word2(initializer, braced(comma_list(resolved))))));
    word2(word2(head, ret), body)
}

/// The generated code: the arguments structure deriving `clap::Parser`, and its `resolve` method.
pub open spec fn fill_text(
    visibility: Seq<char>,
    ident: Seq<char>,
    generics: GenericsText,
    initializer: Seq<char>,
    result: Seq<char>,
    context: Option<Seq<char>>,
    attr_texts: Seq<Seq<char>>,
    fields: Seq<FieldSpec>,
    resolved: Seq<Seq<char>>,
) -> Seq<char> {
    let fields_txt = braced(comma_list(fields.map_values(|f: FieldSpec| field_text(f))));
    let strct = word2(
        word2(
            word2(word2(word2(word2("# [derive (clap :: Parser)]"@, words(attr_texts)), visibility), "struct"@), ident),
            generics.params,
        ),
        fields_txt,
    );
    let imp = word2(
        word2(
            word2(word2(word2("impl"@, generics.impl_generics), ident), generics.type_generics),
            generics.where_clause,
        ),
        braced(resolve_method_text(context, initializer, result, resolved)),
    );
    word2(strct, imp)
}

/// What generating gives for a declaration described piece by piece.
pub open spec fn gen_outcome(
    visibility: Seq<char>,
    ident: Seq<char>,
    generics: GenericsText,
    initializer: Seq<char>,
    result: Seq<char>,
    context: Option<Seq<char>>,
    attr_texts: Seq<Seq<char>>,
    fields: Seq<FieldSpec>,
) -> Result<Seq<char>, HillError> {
    match spec_resolutions(fields, context is Some) {
        Err(e) => Err(e),
        Ok(resolved) => Ok(
            fill_text(visibility, ident, generics, initializer, result, context, attr_texts, fields, resolved),
        ),
    }
}

/// What generating from a declaration gives: its fields are taken in order of position.
pub open spec fn spec_generate(d: Declaration) -> Result<Seq<char>, HillError> {
    gen_outcome(
        d.visibility@,
        d.ident@,
        generics_text(d.generics),
        d.destination.initializer@,
        d.destination.result@,
        opt_view(d.context),
        d.clap_attributes@.map_values(|a: Attribute| a.text@),
        field_descs(sorted_fields(d.fields@)),
    )
}

fn render_resolutions(fields: &Vec<Field>, has_context: bool) -> (r: Result<Vec<String>, HillError>)
    ensures
        match spec_resolutions(field_descs(fields@), has_context) {
            Err(e) => r == Err::<Vec<String>, HillError>(e),
            Ok(resolved) => r is Ok && r->Ok_0@.map_values(|p: String| p@) == resolved,
        },
{
    let ghost descs = field_descs(fields@);
    let mut out: Vec<String> = Vec::new();
    let mut i: usize = 0;
    assert(descs.skip(0) =~= descs);
    assert(out@.map_values(|p: String| p@) =~= Seq::<Seq<char>>::empty());
    while i < fields.len()
        invariant
            i <= fields.len(),
            descs == field_descs(fields@),
            spec_resolutions(descs, has_context) == try_fold(
                descs.skip(i as int),
                out@.map_values(|p: String| p@),
                resolve_fold(has_context),
            ),
        decreases fields.len() - i,
    {
        let f = &fields[i];
        let ghost acc = out@.map_values(|p: String| p@);
        proof {
            lemma_try_fold_step(descs, i as int, acc, resolve_fold(has_context));
            assert(descs[i as int] == field_desc(*f));
            assert(resolve_fold(has_context)(acc, descs[i as int]) == resolve_step(has_context, acc, field_desc(*f)));
        }
        if f.markers.len() == 0 {
            match resolve_field(f, has_context) {
                Err(e) => {
                    return Err(e);
                },
                Ok(t) => {
                    out.push(t);
                    assert(out@.map_values(|p: String| p@) =~= acc.push(resolution_text(field_desc(*f), has_context)->Ok_0));
                },
            }
        }
        i = i + 1;
    }
    proof {
        lemma_try_fold_end(descs, out@.map_values(|p: String| p@), resolve_fold(has_context));
    }
    Ok(out)
}

/// Writes the `resolve` method.
fn render_resolve_method(context: &Option<String>, destination: &Destination, resolved: &Vec<String>) -> (r: String)
    ensures
        r@ == resolve_method_text(
            opt_view(*context),
            destination.initializer@,
            destination.result@,
            resolved@.map_values(|p: String| p@),
        ),
{
    let mut head = match context {
        Some(c) => {
            let mut h = crate::text::owned("pub async fn resolve (self , ctx : & ");
            h.append(c.as_str());
            h.append(")");
            h
        },
        None => crate::text::owned("pub fn resolve (self)"),
    };
    let mut ret = crate::text::owned("-> :: command_hills :: Result < ");
    ret.append(destination.result.as_str());
    ret.append(" >");
    let list = join_comma_list(resolved);
    let mut inner = destination.initializer.clone();
    let b = brace(list.as_str());
    push_word(&mut inner, b.as_str());
    let p = paren(inner.as_str());
    let mut call = crate::text::owned("Ok");
    proof {
        reveal_strlit("Ok");
        reveal_strlit("-> :: command_hills :: Result < ");
        reveal_strlit("pub fn resolve (self)");
        reveal_strlit("pub async fn resolve (self , ctx : & ");
    }
    push_word(&mut call, p.as_str());
    let body = brace(call.as_str());
    push_word(&mut head, ret.as_str());
    push_word(&mut head, body.as_str());
    head
}

/// Writes the arguments structure of a declaration and its `resolve` method.
pub fn generate(d: Declaration) -> (r: Result<String, HillError>)
    ensures
        match spec_generate(d) {
            Err(e) => r == Err::<String, HillError>(e),
            Ok(t) => r is Ok && r->Ok_0@ == t,
        },
{
    let Declaration { visibility, ident, generics, target: _, destination, context, clap_attributes, fields } = d;
    let fields = sort_by_position(fields);
    let has_context = context.is_some();
    let resolved = match render_resolutions(&fields, has_context) {
        Err(e) => {
            return Err(e);
        },
        Ok(resolved) => resolved,
    };
    let mut texts: Vec<String> = Vec::new();
    let mut i: usize = 0;
    while i < fields.len()
        invariant
            i <= fields.len(),
            texts@.len() == i,
            forall|j: int| 0 <= j < i ==> #[trigger] texts@[j]@ == field_text(field_desc(fields@[j])),
        decreases fields.len() - i,
    {
        texts.push(generate_field(&fields[i]));
        i = i + 1;
    }
    assert(texts@.map_values(|p: String| p@) =~= field_descs(fields@).map_values(|f: FieldSpec| field_text(f)));
    let field_list = join_comma_list(&texts);
    let fields_txt = brace(field_list.as_str());
    proof {
        reveal_strlit("# [derive (clap :: Parser)]");
        reveal_strlit("struct");
        reveal_strlit("impl");
    }
    let mut out = crate::text::owned("# [derive (clap :: Parser)]");
    let attrs = render_attrs(&clap_attributes);
    push_word(&mut out, attrs.as_str());
    push_word(&mut out, visibility.as_str());
    push_word(&mut out, "struct");
    push_word(&mut out, ident.as_str());
    push_word(&mut out, generics.params.as_str());
    push_word(&mut out, fields_txt.as_str());
    let mut imp = crate::text::owned("impl");
    push_word(&mut imp, generics.impl_generics.as_str());
    push_word(&mut imp, ident.as_str());
    push_word(&mut imp, generics.type_generics.as_str());
    push_word(&mut imp, generics.where_clause.as_str());
    let method = render_resolve_method(&context, &destination, &resolved);
    let body = brace(method.as_str());
    push_word(&mut imp, body.as_str());
    push_word(&mut out, imp.as_str());
    Ok(out)
}

} // verus!
