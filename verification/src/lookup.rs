//! Following a path into a value.
//!
//! A path is a sequence of segments. A field segment leads into the member of an object,
//! an index segment into the item of an array. A coalesce segment stands for several
//! ways on: each alternative is followed, together with the rest of the path, and the
//! first one that ends at a value other than null is the one that counts.

use crate::segment::{models, SegmentBuf, SegmentModel};
use crate::value::{item_models, member_models, Value, ValueModel};
use vstd::prelude::*;

verus! {

/// The first member called `name`, if there is one.
pub open spec fn member(members: Seq<(Seq<char>, ValueModel)>, name: Seq<char>) -> Option<
    ValueModel,
>
    decreases members.len(),
{
    if members.len() == 0 {
        None
    } else if members[0].0 == name {
        Some(members[0].1)
    } else {
        member(members.drop_first(), name)
    }
}

/// Where a field or an index segment leads from `value`: into the member of an object
/// or the item of an array. Any other combination leads nowhere.
pub open spec fn child(value: ValueModel, segment: SegmentModel) -> Option<ValueModel> {
    match segment {
        SegmentModel::Field { name, .. } => match value {
            ValueModel::Object(members) => member(members, name),
            _ => None,
        },
        SegmentModel::Index(position) => match value {
            ValueModel::Array(items) => if position < items.len() {
                Some(items[position as int])
            } else {
                None
            },
            _ => None,
        },
        SegmentModel::Coalesce(_) => None,
    }
}

/// Whether something other than null was found.
pub open spec fn is_present(found: Option<ValueModel>) -> bool {
    found matches Some(value) && !(value is Null)
}

/// What is found from `value` by following `first` and then `rest`.
pub open spec fn descend(value: ValueModel, first: SegmentModel, rest: Seq<SegmentModel>) -> Option<
    ValueModel,
>
    decreases rest.len(), first, 0int,
{
    match first {
        SegmentModel::Coalesce(alternatives) => first_present(value, alternatives, rest, 0),
        _ => match child(value, first) {
            Some(next) => if rest.len() == 0 {
                Some(next)
            } else {
                descend(next, rest[0], rest.drop_first())
            },
            None => None,
        },
    }
}

/// What the alternatives from position `from` on find: the result of the first one that,
/// followed by `rest`, ends at a value other than null.
pub open spec fn first_present(
    value: ValueModel,
    alternatives: Seq<SegmentModel>,
    rest: Seq<SegmentModel>,
    from: nat,
) -> Option<ValueModel>
    decreases rest.len(), alternatives, alternatives.len() - from,
{
    if from >= alternatives.len() {
        None
    } else {
        let found = descend(value, alternatives[from as int], rest);
        if is_present(found) {
            found
        } else {
            first_present(value, alternatives, rest, from + 1)
        }
    }
}

/// What is found from `value` at the end of `path`. The empty path ends at `value`
/// itself.
pub open spec fn lookup(value: ValueModel, path: Seq<SegmentModel>) -> Option<ValueModel> {
    if path.len() == 0 {
        Some(value)
    } else {
        descend(value, path[0], path.drop_first())
    }
}

/// Whether `found` is a reference to what `wanted` describes, or nothing where nothing
/// is wanted.
pub open spec fn refers_to(found: Option<&Value>, wanted: Option<ValueModel>) -> bool {
    match found {
        Some(value) => wanted == Some(value@),
        None => wanted is None,
    }
}

/// The segment with every `requires_quoting` cleared, at any depth.
pub open spec fn without_quoting(segment: SegmentModel) -> SegmentModel
    decreases segment,
{
    match segment {
        SegmentModel::Field { name, .. } => SegmentModel::Field { name, requires_quoting: false },
        SegmentModel::Index(position) => SegmentModel::Index(position),
        SegmentModel::Coalesce(alternatives) => SegmentModel::Coalesce(
            each_without_quoting(alternatives),
        ),
    }
}

/// The segments with every `requires_quoting` cleared, at any depth.
pub open spec fn each_without_quoting(segments: Seq<SegmentModel>) -> Seq<SegmentModel>
    decreases segments,
{
    Seq::new(
        segments.len(),
        |i: int|
            if 0 <= i < segments.len() {
                without_quoting(segments[i])
            } else {
                SegmentModel::Index(0)
            },
    )
}

/// Coalesce ordering: where the alternatives before `winner` find nothing or null and
/// `winner` finds something else, the coalesce segment finds what `winner` finds.
/// Nothing is asked of the alternatives after it.
pub proof fn lemma_coalesce_finds_first_present(
    value: ValueModel,
    alternatives: Seq<SegmentModel>,
    rest: Seq<SegmentModel>,
    winner: int,
)
    requires
        0 <= winner < alternatives.len(),
        forall|i: int| 0 <= i < winner ==> !is_present(descend(value, alternatives[i], rest)),
        is_present(descend(value, alternatives[winner], rest)),
    ensures
        descend(value, SegmentModel::Coalesce(alternatives), rest) == descend(
            value,
            alternatives[winner],
            rest,
        ),
{
    lemma_first_present_skips(value, alternatives, rest, 0, winner);
}

/// Coalesce ordering: where every alternative finds nothing or null, the coalesce
/// segment finds nothing.
pub proof fn lemma_coalesce_of_absent_finds_nothing(
    value: ValueModel,
    alternatives: Seq<SegmentModel>,
    rest: Seq<SegmentModel>,
)
    requires
        forall|i: int|
            0 <= i < alternatives.len() ==> !is_present(descend(value, alternatives[i], rest)),
    ensures
        descend(value, SegmentModel::Coalesce(alternatives), rest) is None,
{
    lemma_first_present_skips(value, alternatives, rest, 0, alternatives.len() as int);
}

proof fn lemma_first_present_skips(
    value: ValueModel,
    alternatives: Seq<SegmentModel>,
    rest: Seq<SegmentModel>,
    from: int,
    to: int,
)
    requires
        0 <= from <= to <= alternatives.len(),
        forall|i: int| from <= i < to ==> !is_present(descend(value, alternatives[i], rest)),
    ensures
        first_present(value, alternatives, rest, from as nat) == first_present(
            value,
            alternatives,
            rest,
            to as nat,
        ),
    decreases to - from,
{
    if from < to {
        lemma_first_present_skips(value, alternatives, rest, from + 1, to);
    }
}

/// Quoting plays no part in a lookup: following a segment finds the same with every
/// `requires_quoting` cleared, in the segment and in the rest of the path.
pub proof fn lemma_descend_ignores_quoting(
    value: ValueModel,
    first: SegmentModel,
    rest: Seq<SegmentModel>,
)
    ensures
        descend(value, first, rest) == descend(
            value,
            without_quoting(first),
            each_without_quoting(rest),
        ),
    decreases rest.len(), first, 0int,
{
    let plain_rest = each_without_quoting(rest);
    match first {
        SegmentModel::Coalesce(alternatives) => {
            lemma_first_present_ignores_quoting(value, alternatives, rest, 0);
        },
        _ => {
            assert(child(value, first) == child(value, without_quoting(first)));
            match child(value, first) {
                Some(next) => {
                    if rest.len() > 0 {
                        lemma_descend_ignores_quoting(next, rest[0], rest.drop_first());
                        assert(plain_rest.drop_first() =~= each_without_quoting(rest.drop_first()));
                    }
                },
                None => {},
            }
        },
    }
}

proof fn lemma_first_present_ignores_quoting(
    value: ValueModel,
    alternatives: Seq<SegmentModel>,
    rest: Seq<SegmentModel>,
    from: nat,
)
    ensures
        first_present(value, alternatives, rest, from) == first_present(
            value,
            each_without_quoting(alternatives),
            each_without_quoting(rest),
            from,
        ),
    decreases rest.len(), alternatives, alternatives.len() - from,
{
    if from < alternatives.len() {
        lemma_descend_ignores_quoting(value, alternatives[from as int], rest);
        lemma_first_present_ignores_quoting(value, alternatives, rest, from + 1);
    }
}

/// Quoting fidelity: two paths that differ in nothing but `requires_quoting` lead to
/// the same place.
pub proof fn lemma_lookup_ignores_quoting(
    value: ValueModel,
    path: Seq<SegmentModel>,
    other: Seq<SegmentModel>,
)
    requires
        each_without_quoting(path) == each_without_quoting(other),
    ensures
        lookup(value, path) == lookup(value, other),
{
    let plain = each_without_quoting(path);
    assert(path.len() == plain.len() == other.len());
    if path.len() > 0 {
        lemma_descend_ignores_quoting(value, path[0], path.drop_first());
        lemma_descend_ignores_quoting(value, other[0], other.drop_first());
        assert(each_without_quoting(path.drop_first()) =~= plain.drop_first());
        assert(each_without_quoting(other.drop_first()) =~= plain.drop_first());
        assert(without_quoting(path[0]) == plain[0]);
        assert(without_quoting(other[0]) == plain[0]);
    }
}

fn find_member<'a>(members: &'a Vec<(String, Value)>, name: &String) -> (found: Option<&'a Value>)
    ensures
        refers_to(found, member(member_models(members@), name@)),
{
    let ghost all = member_models(members@);
    let mut i: usize = 0;
    assert(all.skip(0) =~= all);
    while i < members.len()
        invariant
            i <= members.len(),
            all == member_models(members@),
            member(all, name@) == member(all.skip(i as int), name@),
        decreases members.len() - i,
    {
        if members[i].0 == *name {
            return Some(&members[i].1);
        }
        assert(all.skip(i as int).drop_first() =~= all.skip(i + 1));
        i += 1;
    }
    None
}

fn child_of<'a>(value: &'a Value, segment: &SegmentBuf) -> (found: Option<&'a Value>)
    ensures
        refers_to(found, child(value@, segment@)),
{
    match segment {
        SegmentBuf::Field { name, .. } => match value {
            Value::Object(members) => find_member(members, name),
            _ => None,
        },
        SegmentBuf::Index(position) => match value {
            Value::Array(items) => {
                assert(item_models(items@).len() == items@.len());
                if *position < items.len() {
                    Some(&items[*position])
                } else {
                    None
                }
            },
            _ => None,
        },
        SegmentBuf::Coalesce(_) => None,
    }
}

fn follow<'a>(value: &'a Value, first: &SegmentBuf, path: &[SegmentBuf], next: usize) -> (found:
    Option<&'a Value>)
    requires
        next <= path.len(),
    ensures
        refers_to(found, descend(value@, first@, models(path@).skip(next as int))),
    decreases path.len() - next, first,
{
    let ghost rest = models(path@).skip(next as int);
    match first {
        SegmentBuf::Coalesce(alternatives) => {
            let ghost choices = models(alternatives@);
            let mut i: usize = 0;
            while i < alternatives.len()
                invariant
                    *first is Coalesce,
                    first->Coalesce_0 == *alternatives,
                    next <= path.len(),
                    rest == models(path@).skip(next as int),
                    choices == models(alternatives@),
                    i <= alternatives.len(),
                    first_present(value@, choices, rest, 0) == first_present(
                        value@,
                        choices,
                        rest,
                        i as nat,
                    ),
                decreases alternatives.len() - i,
            {
                assert(decreases_to!(*first => first->Coalesce_0[i as int]));
                match follow(value, &alternatives[i], path, next) {
                    Some(found) => {
                        if !found.is_null() {
                            return Some(found);
                        }
                    },
                    None => {},
                }
                i += 1;
            }
            None
        },
        _ => match child_of(value, first) {
            Some(inner) => {
                if next == path.len() {
                    Some(inner)
                } else {
                    assert(rest[0] == path@[next as int]@);
                    assert(rest.drop_first() =~= models(path@).skip(next + 1));
                    follow(inner, &path[next], path, next + 1)
                }
            },
            None => None,
        },
    }
}

impl Value {
    /// The value at the end of `path`, if the path leads to one.
    pub fn get<'a>(&'a self, path: &[SegmentBuf]) -> (found: Option<&'a Value>)
        ensures
            refers_to(found, lookup(self@, models(path@))),
    {
        if path.len() == 0 {
            Some(self)
        } else {
            assert(models(path@).drop_first() =~= models(path@).skip(1));
            follow(self, &path[0], path, 1)
        }
    }
}

} // verus!
