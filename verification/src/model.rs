//! What a `fill` declaration says once it has been read: the structure of
//! command-line arguments and how each of its fields becomes a field of the
//! target value.
use vstd::prelude::*;
use crate::syntax::{Attribute, GenericsModel, LitStrModel, PathModel, TypeModel};

verus! {

/// A question that is put to the user when a field was not given on the command line.
#[derive(Debug, PartialEq, Eq)]
pub enum Question {
    /// `ask = "..."`: choose one of the variants.
    Ask(LitStrModel),
    /// `keep = "..."`: choose one of the variants, or keep the current value.
    Keep(LitStrModel),
}

/// A field type `Only<T>`: the field is an argument of type `T` and is not copied to the target.
#[derive(Debug, PartialEq, Eq)]
pub struct Marker {
    pub ident: String,
    /// The type argument, as printed.
    pub inner_type: String,
}

/// Where the resolved value goes: the path that builds it and its type, as printed.
#[derive(Debug, PartialEq, Eq)]
pub struct Destination {
    pub initializer: String,
    pub result: String,
}

/// A field of the arguments structure.
#[derive(Debug, PartialEq, Eq)]
pub struct Field {
    pub visibility: String,
    pub ident: String,
    pub ty: TypeModel,
    pub position: usize,
    pub clap_attributes: Vec<Attribute>,
    pub markers: Vec<Marker>,
    pub question: Option<Question>,
    pub with_context: bool,
    /// The resolver function's path, as printed.
    pub resolver: Option<String>,
    pub resolver_message: Option<LitStrModel>,
}

/// An arguments structure and the value it resolves into.
#[derive(Debug, PartialEq, Eq)]
pub struct Declaration {
    pub visibility: String,
    pub ident: String,
    pub generics: GenericsModel,
    pub target: PathModel,
    pub destination: Destination,
    /// The context type, as printed.
    pub context: Option<String>,
    pub clap_attributes: Vec<Attribute>,
    pub fields: Vec<Field>,
}

impl Question {
    pub fn duplicate(&self) -> (r: Question)
        ensures
            r == *self,
    {
        match self {
            Question::Ask(m) => Question::Ask(LitStrModel { value: m.value.clone(), text: m.text.clone() }),
            Question::Keep(m) => Question::Keep(LitStrModel { value: m.value.clone(), text: m.text.clone() }),
        }
    }
}

} // verus!
