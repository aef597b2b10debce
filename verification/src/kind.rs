//! Value kinds and sets of them.
//!
//! Every runtime value has exactly one kind. What an expression may produce, and what a
//! function parameter accepts, is a set of kinds: a [`Kind`].

use vstd::prelude::*;

verus! {

/// The kind of a runtime value.
#[derive(Clone, Copy, Debug, PartialEq, Eq, Hash, Structural)]
pub enum Tag {
    Bytes,
    Integer,
    Float,
    Boolean,
    Null,
    Timestamp,
    Regex,
    Array,
    Object,
    Error,
}

/// A set of value kinds.
#[derive(Clone, Copy, Debug, PartialEq, Eq, Hash, Structural)]
pub struct Kind {
    bits: u16,
}

/// The place of a kind's bit inside a [`Kind`].
pub closed spec fn position(tag: Tag) -> u16 {
    match tag {
        Tag::Bytes => 0,
        Tag::Integer => 1,
        Tag::Float => 2,
        Tag::Boolean => 3,
        Tag::Null => 4,
        Tag::Timestamp => 5,
        Tag::Regex => 6,
        Tag::Array => 7,
        Tag::Object => 8,
        Tag::Error => 9,
    }
}

/// The bit that stands for a kind inside a [`Kind`].
pub closed spec fn flag(tag: Tag) -> u16 {
    1u16 << position(tag)
}

impl View for Kind {
    type V = Set<Tag>;

    closed spec fn view(&self) -> Set<Tag> {
        Set::new(|tag: Tag| self.bits & flag(tag) != 0)
    }
}

/// The set of every kind.
pub open spec fn every_tag() -> Set<Tag> {
    Set::new(|tag: Tag| true)
}

/// Whether two sets of kinds have a kind in common.
pub open spec fn overlap(left: Set<Tag>, right: Set<Tag>) -> bool {
    exists|tag: Tag| left.contains(tag) && right.contains(tag)
}

fn flag_of(tag: Tag) -> (bit: u16)
    ensures
        bit == flag(tag),
{
    let place: u16 = match tag {
        Tag::Bytes => 0,
        Tag::Integer => 1,
        Tag::Float => 2,
        Tag::Boolean => 3,
        Tag::Null => 4,
        Tag::Timestamp => 5,
        Tag::Regex => 6,
        Tag::Array => 7,
        Tag::Object => 8,
        Tag::Error => 9,
    };
    1u16 << place
}

/// Every kind has a bit of its own among the ten lowest.
proof fn lemma_flags(tag: Tag)
    ensures
        position(tag) < 10,
        flag(tag) != 0,
        flag(tag) & 0x3ff == flag(tag),
{
    let place = position(tag);
    assert(place < 10 ==> (1u16 << place) != 0 && (1u16 << place) & 0x3ff == (1u16 << place))
        by (bit_vector);
}

/// A non-zero pattern within the ten lowest bits holds the bit of some kind.
proof fn lemma_some_flag(bits: u16) -> (tag: Tag)
    requires
        bits & 0x3ff != 0,
    ensures
        bits & flag(tag) != 0,
{
    assert(bits & 0x3ff != 0 ==> bits & (1u16 << 0) != 0 || bits & (1u16 << 1) != 0 || bits & (1u16
        << 2) != 0 || bits & (1u16 << 3) != 0 || bits & (1u16 << 4) != 0 || bits & (1u16 << 5)
        != 0 || bits & (1u16 << 6) != 0 || bits & (1u16 << 7) != 0 || bits & (1u16 << 8) != 0
        || bits & (1u16 << 9) != 0) by (bit_vector);
    if bits & (1u16 << 0) != 0 {
        Tag::Bytes
    } else if bits & (1u16 << 1) != 0 {
        Tag::Integer
    } else if bits & (1u16 << 2) != 0 {
        Tag::Float
    } else if bits & (1u16 << 3) != 0 {
        Tag::Boolean
    } else if bits & (1u16 << 4) != 0 {
        Tag::Null
    } else if bits & (1u16 << 5) != 0 {
        Tag::Timestamp
    } else if bits & (1u16 << 6) != 0 {
        Tag::Regex
    } else if bits & (1u16 << 7) != 0 {
        Tag::Array
    } else if bits & (1u16 << 8) != 0 {
        Tag::Object
    } else {
        Tag::Error
    }
}

/// Different kinds have different bits, and no bit in common.
proof fn lemma_distinct_flags(tag: Tag, other: Tag)
    ensures
        (flag(tag) & flag(other) != 0) == (tag == other),
{
    let place = position(tag);
    let other_place = position(other);
    assert(place < 10 && other_place < 10 ==> (((1u16 << place) & (1u16 << other_place) != 0) == (
    place == other_place))) by (bit_vector);
}

impl Kind {
    /// The set without any kind.
    pub fn empty() -> (kind: Kind)
        ensures
            kind@ == Set::<Tag>::empty(),
    {
        let kind = Kind { bits: 0 };
        proof {
            assert forall|tag: Tag| !kind@.contains(tag) by {
                let bit = flag(tag);
                assert(0u16 & bit == 0) by (bit_vector);
            }
            assert(kind@ =~= Set::<Tag>::empty());
        }
        kind
    }

    /// The set of every kind.
    pub fn any() -> (kind: Kind)
        ensures
            kind@ == every_tag(),
    {
        let kind = Kind { bits: 0x3ff };
        proof {
            assert forall|tag: Tag| kind@.contains(tag) by {
                lemma_flags(tag);
                let bit = flag(tag);
                assert(bit & 0x3ff == 0x3ffu16 & bit) by (bit_vector);
            }
            assert(kind@ =~= every_tag());
        }
        kind
    }

    /// The set of the one kind `tag`.
    pub fn only(tag: Tag) -> (kind: Kind)
        ensures
            kind@ == set![tag],
    {
        let kind = Kind { bits: flag_of(tag) };
        proof {
            assert forall|other: Tag| kind@.contains(other) == (other == tag) by {
                lemma_distinct_flags(tag, other);
            }
            assert(kind@ =~= set![tag]);
        }
        kind
    }

    /// Whether `tag` is in the set.
    pub fn contains(&self, tag: Tag) -> (answer: bool)
        ensures
            answer == self@.contains(tag),
    {
        self.bits & flag_of(tag) != 0
    }

    /// Whether the set holds no kind at all.
    pub fn is_empty(&self) -> (answer: bool)
        ensures
            answer == (self@ == Set::<Tag>::empty()),
    {
        let answer = self.bits & 0x3ff == 0;
        proof {
            let bits = self.bits;
            if answer {
                assert forall|tag: Tag| !self@.contains(tag) by {
                    lemma_flags(tag);
                    let bit = flag(tag);
                    assert(bits & 0x3ff == 0 && bit & 0x3ff == bit ==> bits & bit == 0)
                        by (bit_vector);
                }
                assert(self@ =~= Set::<Tag>::empty());
            } else {
                let tag = lemma_some_flag(bits);
                assert(self@.contains(tag));
            }
        }
        answer
    }

    /// The kinds of either set.
    pub fn union(self, other: Kind) -> (kind: Kind)
        ensures
            kind@ == self@.union(other@),
    {
        let kind = Kind { bits: self.bits | other.bits };
        proof {
            let left = self.bits;
            let right = other.bits;
            assert forall|tag: Tag|
                kind@.contains(tag) == (self@.contains(tag) || other@.contains(tag)) by {
                let bit = flag(tag);
                assert(((left | right) & bit != 0) == (left & bit != 0 || right & bit != 0))
                    by (bit_vector);
            }
            assert(kind@ =~= self@.union(other@));
        }
        kind
    }

    /// Whether the two sets have a kind in common.
    pub fn intersects(&self, other: &Kind) -> (answer: bool)
        ensures
            answer == overlap(self@, other@),
    {
        let answer = self.bits & other.bits & 0x3ff != 0;
        proof {
            let left = self.bits;
            let right = other.bits;
            if answer {
                let tag = lemma_some_flag(left & right);
                let bit = flag(tag);
                assert((left & right) & bit != 0 ==> left & bit != 0 && right & bit != 0)
                    by (bit_vector);
                assert(self@.contains(tag) && other@.contains(tag));
            } else {
                assert forall|tag: Tag| !(self@.contains(tag) && other@.contains(tag)) by {
                    lemma_flags(tag);
                    let place = position(tag);
                    assert(place < 10 && left & right & 0x3ff == 0 ==> !(left & (1u16 << place)
                        != 0 && right & (1u16 << place) != 0)) by (bit_vector);
                }
            }
        }
        answer
    }

    /// Whether every kind of this set is in `other` too.
    pub fn is_subset(&self, other: &Kind) -> (answer: bool)
        ensures
            answer == self@.subset_of(other@),
    {
        let answer = self.bits & !other.bits & 0x3ff == 0;
        proof {
            let left = self.bits;
            let right = other.bits;
            if answer {
                assert forall|tag: Tag| self@.contains(tag) implies other@.contains(tag) by {
                    lemma_flags(tag);
                    let bit = flag(tag);
                    assert(left & !right & 0x3ff == 0 && bit & 0x3ff == bit && left & bit != 0
                        ==> right & bit != 0) by (bit_vector);
                }
            } else {
                let tag = lemma_some_flag(left & !right);
                lemma_flags(tag);
                let place = position(tag);
                assert(place < 10 && (left & !right) & (1u16 << place) != 0 ==> left & (1u16
                    << place) != 0 && right & (1u16 << place) == 0) by (bit_vector);
                assert(self@.contains(tag) && !other@.contains(tag));
            }
        }
        answer
    }
}

} // verus!
