//! What the compiler knows while it compiles a program.

use crate::kind::{every_tag, Kind, Tag};
use vstd::prelude::*;

verus! {

/// The state of a compilation: the kinds of value that the event itself may be. The set
/// is never empty.
#[derive(Clone, Copy, Debug, PartialEq, Eq)]
pub struct Compiler {
    target: Kind,
}

impl View for Compiler {
    type V = Set<Tag>;

    closed spec fn view(&self) -> Set<Tag> {
        self.target@
    }
}

impl Compiler {
    /// What holds of every state: the event may be of some kind.
    #[verifier::type_invariant]
    pub open spec fn names_a_kind(self) -> bool {
        self@ != Set::<Tag>::empty()
    }

    /// The state in which nothing is known of the event: it may be of any kind.
    pub fn new() -> (state: Compiler)
        ensures
            state@ == every_tag(),
    {
        let target = Kind::any();
        assert(target@.contains(Tag::Null));
        Compiler { target }
    }

    /// The state in which the event is known to be of one of the kinds of `target`, or
    /// `None` if `target` names no kind at all.
    pub fn expecting(target: Kind) -> (state: Option<Compiler>)
        ensures
            match state {
                Some(state) => state@ == target@ && target@ != Set::<Tag>::empty(),
                None => target@ == Set::<Tag>::empty(),
            },
    {
        if target.is_empty() {
            None
        } else {
            Some(Compiler { target })
        }
    }

    /// The kinds of value that the event may be.
    pub fn target(&self) -> (target: Kind)
        ensures
            target@ == self@,
    {
        self.target
    }
}

} // verus!
