//! The choices offered when a value was not given on the command line: the
//! variants of a value enum under their command-line names, and, where the
//! value may stay as it is, that option first.
use vstd::prelude::*;
use vstd::string::*;
use crate::text::owned;

verus! {

/// A variant offered to the user, shown under its command-line name.
pub struct Choice<T> {
    pub name: String,
    pub value: T,
}

/// An option of a question whose answer may also keep the value as it is.
pub enum KeepChoice<T> {
    Keep,
    Variant(Choice<T>),
}

/// The label shown for keeping the value.
pub open spec fn keep_label() -> Seq<char> {
    "оставить как есть"@
}

impl<T> Choice<T> {
    /// The label shown for this choice: the variant's name.
    pub fn label(&self) -> (r: String)
        ensures
            r@ == self.name@,
    {
        self.name.clone()
    }
}

/// The value an option gives: none for keeping the value as it is.
pub open spec fn chosen_value<T>(k: KeepChoice<T>) -> Option<T> {
    match k {
        KeepChoice::Keep => None,
        KeepChoice::Variant(c) => Some(c.value),
    }
}

impl<T> KeepChoice<T> {
    /// The value chosen: none when the user keeps it as it is.
    pub fn into_option(self) -> (r: Option<T>)
        ensures
            r == chosen_value(self),
    {
        match self {
            KeepChoice::Keep => None,
            KeepChoice::Variant(choice) => Some(choice.value),
        }
    }

    /// The label shown for this option.
    pub fn label(&self) -> (r: String)
        ensures
            match self {
                KeepChoice::Keep => r@ == keep_label(),
                KeepChoice::Variant(c) => r@ == c.name@,
            },
    {
        match self {
            KeepChoice::Keep => owned("оставить как есть"),
            KeepChoice::Variant(choice) => choice.label(),
        }
    }
}

/// The choices for the variants of a value enum, each given with its command-line name,
/// or with none when the variant is hidden from the command line: the named ones, in order.
pub open spec fn choices_spec<T>(variants: Seq<(T, Option<String>)>) -> Seq<Choice<T>>
    decreases variants.len(),
{
    if variants.len() == 0 {
        Seq::empty()
    } else {
        let rest = choices_spec(variants.drop_last());
        match variants.last().1 {
            Some(name) => rest.push(Choice { name, value: variants.last().0 }),
            None => rest,
        }
    }
}

/// The choices for the variants of a value enum: each variant with a command-line name,
/// under that name, in the order of the variants.
pub fn variant_choices<T>(variants: Vec<(T, Option<String>)>) -> (r: Vec<Choice<T>>)
    ensures
        r@ == choices_spec(variants@),
{
    let ghost orig = variants@;
    assert(orig.len() == variants.len());
    let mut rest = variants;
    let mut out: Vec<Choice<T>> = Vec::new();
    let mut i: usize = 0;
    assert(orig.take(0) =~= Seq::<(T, Option<String>)>::empty());
    while rest.len() > 0
        invariant
            i <= orig.len() <= usize::MAX,
            rest@ == orig.skip(i as int),
            out@ == choices_spec(orig.take(i as int)),
        decreases rest.len(),
    {
        let (value, name) = rest.remove(0);
        assert(orig.take(i + 1).drop_last() =~= orig.take(i as int));
        assert(orig.take(i + 1).last() == orig[i as int]);
        match name {
            Some(n) => {
                out.push(Choice { name: n, value });
            },
            None => {},
        }
        i = i + 1;
        assert(rest@ =~= orig.skip(i as int));
    }
    assert(orig.take(orig.len() as int) =~= orig);
    out
}

/// The options of a question that may keep the value: keeping it first, then the choices.
pub open spec fn keep_choices_spec<T>(choices: Seq<Choice<T>>) -> Seq<KeepChoice<T>> {
    seq![KeepChoice::Keep].add(choices.map_values(|c: Choice<T>| KeepChoice::Variant(c)))
}

/// Of the options of a question that may keep the value, the first gives no value and is
/// labelled as keeping it; each following one gives the value of its choice, in order.
pub proof fn keeping_comes_first<T>(choices: Seq<Choice<T>>)
    ensures
        keep_choices_spec(choices).len() == choices.len() + 1,
        chosen_value(keep_choices_spec(choices)[0]) is None,
        forall|i: int| 0 <= i < choices.len() ==> chosen_value(#[trigger] keep_choices_spec(choices)[i + 1]) == Some(choices[i].value),
{
    let k = keep_choices_spec(choices);
    assert forall|i: int| 0 <= i < choices.len() implies chosen_value(#[trigger] keep_choices_spec(choices)[i + 1]) == Some(choices[i].value) by {
        assert(k[i + 1] == KeepChoice::Variant(choices[i]));
    }
}

/// The options of a question that may keep the value: keeping it first, then the choices.
pub fn keep_choices<T>(choices: Vec<Choice<T>>) -> (r: Vec<KeepChoice<T>>)
    ensures
        r@ == keep_choices_spec(choices@),
{
    let ghost orig = choices@;
    assert(orig.len() == choices.len());
    let mut rest = choices;
    let mut out: Vec<KeepChoice<T>> = Vec::new();
    out.push(KeepChoice::Keep);
    let mut i: usize = 0;
    while rest.len() > 0
        invariant
            i <= orig.len() <= usize::MAX,
            rest@ == orig.skip(i as int),
            out@.len() == i + 1,
            out@[0] is Keep,
            forall|j: int| 0 <= j < i ==> out@[j + 1] == KeepChoice::Variant(#[trigger] orig[j]),
        decreases rest.len(),
    {
        let c = rest.remove(0);
        assert(c == orig[i as int]);
        out.push(KeepChoice::Variant(c));
        i = i + 1;
        assert(rest@ =~= orig.skip(i as int));
    }
    assert(out@ =~= keep_choices_spec(orig));
    out
}

} // verus!
