//! Runtime values: what an event holds and what an expression produces.

use crate::kind::{Kind, Tag};
use vstd::prelude::*;

verus! {

/// `regex::Regex`, a compiled pattern. A value of this type is carried, never looked
/// into: nothing is said of what it holds.
#[verifier::external_type_specification]
#[verifier::external_body]
pub struct ExRegex(regex::Regex);

/// `Clone::clone` of `regex::Regex`. The copy holds the pattern text of its source and
/// shares its compiled program; the contract takes the two to be equal. Nothing proves
/// it.
pub assume_specification[ <regex::Regex as Clone>::clone ](pattern: &regex::Regex) -> (copy:
    regex::Regex)
    ensures
        copy == *pattern,
;

/// A runtime value.
#[derive(Debug)]
pub enum Value {
    /// A string of bytes; text is held as its UTF-8 bytes.
    Bytes(Vec<u8>),
    Integer(i64),
    /// A floating-point number, held as the bits of its IEEE 754 double-precision form.
    Float(u64),
    Boolean(bool),
    Null,
    /// A point in time, in nanoseconds since the Unix epoch.
    Timestamp(i64),
    Regex(regex::Regex),
    Array(Vec<Value>),
    /// Named members, in the order in which they were added. Where a name occurs more
    /// than once, the first member of that name is the one that is found.
    Object(Vec<(String, Value)>),
    /// An error that has been turned into data.
    Error(String),
}

/// A runtime value, as a mathematical value.
pub enum ValueModel {
    Bytes(Seq<u8>),
    Integer(int),
    Float(u64),
    Boolean(bool),
    Null,
    Timestamp(int),
    Regex(regex::Regex),
    Array(Seq<ValueModel>),
    Object(Seq<(Seq<char>, ValueModel)>),
    Error(Seq<char>),
}

impl View for Value {
    type V = ValueModel;

    open spec fn view(&self) -> ValueModel
        decreases self,
    {
        match self {
            Value::Bytes(bytes) => ValueModel::Bytes(bytes@),
            Value::Integer(number) => ValueModel::Integer(*number as int),
            Value::Float(bits) => ValueModel::Float(*bits),
            Value::Boolean(truth) => ValueModel::Boolean(*truth),
            Value::Null => ValueModel::Null,
            Value::Timestamp(nanoseconds) => ValueModel::Timestamp(*nanoseconds as int),
            Value::Regex(pattern) => ValueModel::Regex(*pattern),
            Value::Array(items) => ValueModel::Array(item_models(items@)),
            Value::Object(members) => ValueModel::Object(member_models(members@)),
            Value::Error(message) => ValueModel::Error(message@),
        }
    }
}

/// What the items of an array stand for, in order.
pub open spec fn item_models(items: Seq<Value>) -> Seq<ValueModel>
    decreases items,
{
    Seq::new(
        items.len(),
        |i: int|
            if 0 <= i < items.len() {
                items[i]@
            } else {
                ValueModel::Null
            },
    )
}

/// What the members of an object stand for, in order.
pub open spec fn member_models(members: Seq<(String, Value)>) -> Seq<(Seq<char>, ValueModel)>
    decreases members,
{
    Seq::new(
        members.len(),
        |i: int|
            if 0 <= i < members.len() {
                (members[i].0@, members[i].1@)
            } else {
                (Seq::empty(), ValueModel::Null)
            },
    )
}

/// The kind of a value.
pub open spec fn tag_of(value: ValueModel) -> Tag {
    match value {
        ValueModel::Bytes(_) => Tag::Bytes,
        ValueModel::Integer(_) => Tag::Integer,
        ValueModel::Float(_) => Tag::Float,
        ValueModel::Boolean(_) => Tag::Boolean,
        ValueModel::Null => Tag::Null,
        ValueModel::Timestamp(_) => Tag::Timestamp,
        ValueModel::Regex(_) => Tag::Regex,
        ValueModel::Array(_) => Tag::Array,
        ValueModel::Object(_) => Tag::Object,
        ValueModel::Error(_) => Tag::Error,
    }
}

impl Value {
    /// The kind of the value.
    pub fn tag(&self) -> (tag: Tag)
        ensures
            tag == tag_of(self@),
    {
        match self {
            Value::Bytes(_) => Tag::Bytes,
            Value::Integer(_) => Tag::Integer,
            Value::Float(_) => Tag::Float,
            Value::Boolean(_) => Tag::Boolean,
            Value::Null => Tag::Null,
            Value::Timestamp(_) => Tag::Timestamp,
            Value::Regex(_) => Tag::Regex,
            Value::Array(_) => Tag::Array,
            Value::Object(_) => Tag::Object,
            Value::Error(_) => Tag::Error,
        }
    }

    /// The set that holds the kind of the value and no other.
    pub fn kind(&self) -> (kind: Kind)
        ensures
            kind@ == set![tag_of(self@)],
    {
        Kind::only(self.tag())
    }

    /// Whether the value is a compiled pattern.
    pub fn is_regex(&self) -> (answer: bool)
        ensures
            answer == (self@ is Regex),
    {
        match self {
            Value::Regex(_) => true,
            _ => false,
        }
    }

    /// Whether the value is null.
    pub fn is_null(&self) -> (answer: bool)
        ensures
            answer == (self@ is Null),
    {
        match self {
            Value::Null => true,
            _ => false,
        }
    }
}

impl Clone for Value {
    fn clone(&self) -> (copy: Value)
        ensures
            copy@ == self@,
        decreases self,
    {
        match self {
            Value::Bytes(bytes) => Value::Bytes(bytes.clone()),
            Value::Integer(number) => Value::Integer(*number),
            Value::Float(bits) => Value::Float(*bits),
            Value::Boolean(truth) => Value::Boolean(*truth),
            Value::Null => Value::Null,
            Value::Timestamp(nanoseconds) => Value::Timestamp(*nanoseconds),
            Value::Regex(pattern) => Value::Regex(pattern.clone()),
            Value::Array(items) => {
                let mut copies: Vec<Value> = Vec::new();
                let mut i: usize = 0;
                while i < items.len()
                    invariant
                        *self is Array,
                        self->Array_0 == *items,
                        i <= items.len(),
                        copies.len() == i,
                        forall|j: int| 0 <= j < i ==> copies@[j]@ == items@[j]@,
                    decreases items.len() - i,
                {
                    assert(decreases_to!(*self => self->Array_0[i as int]));
                    copies.push(items[i].clone());
                    i += 1;
                }
                assert(item_models(copies@) =~= item_models(items@));
                Value::Array(copies)
            },
            Value::Object(members) => {
                let mut copies: Vec<(String, Value)> = Vec::new();
                let mut i: usize = 0;
                while i < members.len()
                    invariant
                        *self is Object,
                        self->Object_0 == *members,
                        i <= members.len(),
                        copies.len() == i,
                        forall|j: int|
                            0 <= j < i ==> copies@[j].0@ == members@[j].0@ && copies@[j].1@
                                == members@[j].1@,
                    decreases members.len() - i,
                {
                    assert(decreases_to!(*self => self->Object_0[i as int].1));
                    copies.push((members[i].0.clone(), members[i].1.clone()));
                    i += 1;
                }
                assert(member_models(copies@) =~= member_models(members@));
                Value::Object(copies)
            },
            Value::Error(message) => Value::Error(message.clone()),
        }
    }
}

} // verus!
