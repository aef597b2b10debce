//! What is known of an expression before it runs: the kinds of value that it may
//! produce, and whether running it can fail.

use crate::kind::{every_tag, Kind, Tag};
use vstd::prelude::*;

verus! {

/// The static description of an expression.
#[derive(Clone, Copy, Debug, PartialEq, Eq, Structural)]
pub struct TypeDef {
    kind: Kind,
    fallible: bool,
}

/// A static description, as a mathematical value.
pub struct TypeDefModel {
    /// The kinds of value that may be produced.
    pub kinds: Set<Tag>,
    /// Whether evaluation may end in a runtime error of the expression's own making.
    pub fallible: bool,
}

impl View for TypeDef {
    type V = TypeDefModel;

    closed spec fn view(&self) -> TypeDefModel {
        TypeDefModel { kinds: self.kind@, fallible: self.fallible }
    }
}

impl TypeDef {
    /// The description that promises nothing: any kind, and evaluation may fail.
    pub fn new() -> (description: TypeDef)
        ensures
            description@ == (TypeDefModel { kinds: every_tag(), fallible: true }),
    {
        TypeDef { kind: Kind::any(), fallible: true }
    }

    /// The same kinds, and evaluation may fail.
    pub fn fallible(self) -> (description: TypeDef)
        ensures
            description@ == (TypeDefModel { kinds: self@.kinds, fallible: true }),
    {
        TypeDef { kind: self.kind, fallible: true }
    }

    /// The same kinds, and evaluation cannot fail.
    pub fn infallible(self) -> (description: TypeDef)
        ensures
            description@ == (TypeDefModel { kinds: self@.kinds, fallible: false }),
    {
        TypeDef { kind: self.kind, fallible: false }
    }

    /// The same fallibility, and the kinds of `kind`.
    pub fn with_kind(self, kind: Kind) -> (description: TypeDef)
        ensures
            description@ == (TypeDefModel { kinds: kind@, fallible: self@.fallible }),
    {
        TypeDef { kind, fallible: self.fallible }
    }

    /// The same fallibility, and a boolean as the only kind.
    pub fn boolean(self) -> (description: TypeDef)
        ensures
            description@ == (TypeDefModel { kinds: set![Tag::Boolean], fallible: self@.fallible }),
    {
        self.with_kind(Kind::only(Tag::Boolean))
    }

    /// The kinds of value that may be produced.
    pub fn kind(&self) -> (kind: Kind)
        ensures
            kind@ == self@.kinds,
    {
        self.kind
    }

    /// Whether evaluation may fail.
    pub fn is_fallible(&self) -> (answer: bool)
        ensures
            answer == self@.fallible,
    {
        self.fallible
    }
}

} // verus!
