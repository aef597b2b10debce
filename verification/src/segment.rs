//! Path segments: the addressing steps that lead from the root of an event into its
//! nested data.
//!
//! A segment exists in two forms, [`SegmentBuf`], which owns its data, and [`Segment`],
//! which borrows it. Both stand for the same mathematical value, a [`SegmentModel`], and
//! every contract in this module is stated over that value.

use crate::text::{
    decimal, decimal_string, join, joined, lemma_text_order_equal, lemma_text_order_is_transitive,
    lemma_text_order_reverses, order_texts, reversed, text_order, Order,
};
use std::cmp::Ordering;
use vstd::prelude::*;
use vstd::std_specs::cmp::{PartialEqSpecImpl, PartialOrdSpecImpl};
use vstd::std_specs::convert::FromSpecImpl;
use vstd::string::*;

verus! {

/// One addressing step, as a mathematical value.
pub enum SegmentModel {
    /// A member of an object, by name. `requires_quoting` records how the name was
    /// written; it plays no part in finding the member.
    Field { name: Seq<char>, requires_quoting: bool },
    /// An element of an array, by position.
    Index(nat),
    /// Alternatives, tried from the first to the last.
    Coalesce(Seq<SegmentModel>),
}

/// The owned form of an addressing step.
#[derive(Debug, Eq, Ord, Hash)]
pub enum SegmentBuf {
    Field { name: String, requires_quoting: bool },
    Index(usize),
    Coalesce(Vec<SegmentBuf>),
}

/// The borrowed form of an addressing step.
#[derive(Debug, Eq, Ord, Hash)]
pub enum Segment<'a> {
    Field { name: &'a str, requires_quoting: bool },
    Index(usize),
    Coalesce(Vec<Segment<'a>>),
}

impl View for SegmentBuf {
    type V = SegmentModel;

    open spec fn view(&self) -> SegmentModel
        decreases self,
    {
        match self {
            SegmentBuf::Field { name, requires_quoting } => SegmentModel::Field {
                name: name@,
                requires_quoting: *requires_quoting,
            },
            SegmentBuf::Index(position) => SegmentModel::Index(*position as nat),
            SegmentBuf::Coalesce(alternatives) => SegmentModel::Coalesce(models(alternatives@)),
        }
    }
}

impl<'a> View for Segment<'a> {
    type V = SegmentModel;

    open spec fn view(&self) -> SegmentModel
        decreases self,
    {
        match self {
            Segment::Field { name, requires_quoting } => SegmentModel::Field {
                name: name@,
                requires_quoting: *requires_quoting,
            },
            Segment::Index(position) => SegmentModel::Index(*position as nat),
            Segment::Coalesce(alternatives) => SegmentModel::Coalesce(
                borrowed_models(alternatives@),
            ),
        }
    }
}

/// The values that a sequence of owned segments stands for, in order.
pub open spec fn models(segments: Seq<SegmentBuf>) -> Seq<SegmentModel>
    decreases segments,
{
    Seq::new(
        segments.len(),
        |i: int|
            if 0 <= i < segments.len() {
                segments[i]@
            } else {
                SegmentModel::Index(0)
            },
    )
}

/// The values that a sequence of borrowed segments stands for, in order.
pub open spec fn borrowed_models(segments: Seq<Segment<'_>>) -> Seq<SegmentModel>
    decreases segments,
{
    Seq::new(
        segments.len(),
        |i: int|
            if 0 <= i < segments.len() {
                segments[i]@
            } else {
                SegmentModel::Index(0)
            },
    )
}

/// The text between two alternatives of a rendered coalesce segment.
pub open spec fn coalesce_separator() -> Seq<char> {
    seq![' ', '|', ' ']
}

/// The text form of a segment. A field is its name, inside double quotes if it
/// `requires_quoting`; an index is its decimal numeral; a coalesce segment is its
/// alternatives, rendered and joined by `" | "`.
pub open spec fn rendered(segment: SegmentModel) -> Seq<char>
    decreases segment,
{
    match segment {
        SegmentModel::Field { name, requires_quoting } => if requires_quoting {
            seq!['"'] + name + seq!['"']
        } else {
            name
        },
        SegmentModel::Index(position) => decimal(position),
        SegmentModel::Coalesce(alternatives) => joined(
            rendered_each(alternatives),
            coalesce_separator(),
        ),
    }
}

/// The text forms of the alternatives of a coalesce segment, in order.
pub open spec fn rendered_each(alternatives: Seq<SegmentModel>) -> Seq<Seq<char>>
    decreases alternatives,
{
    Seq::new(
        alternatives.len(),
        |i: int|
            if 0 <= i < alternatives.len() {
                rendered(alternatives[i])
            } else {
                Seq::empty()
            },
    )
}

/// Whether a field text is written in quotes: its first character is a double quote.
/// Nothing else of the text is inspected.
pub open spec fn is_quoted(text: Seq<char>) -> bool {
    text.len() > 0 && text[0] == '"'
}

/// Whether a field text can be turned into a segment. An unquoted text always can. A
/// quoted text loses its first and its last byte, so it needs a second character, and
/// its last character must be a single byte.
pub open spec fn is_field_text(text: Seq<char>) -> bool {
    is_quoted(text) ==> text.len() >= 2 && (text.last() as u32) < 0x80
}

/// The field segment that a field text denotes. A quoted text gives up exactly its first
/// and last character and is marked `requires_quoting`; any other text is the name as it
/// stands.
pub open spec fn field_of_text(text: Seq<char>) -> SegmentModel {
    if is_quoted(text) {
        SegmentModel::Field { name: text.subrange(1, text.len() - 1), requires_quoting: true }
    } else {
        SegmentModel::Field { name: text, requires_quoting: false }
    }
}

/// The place of a segment's variant in the order of segments: fields come before
/// indexes, and indexes before coalesces.
pub open spec fn rank(segment: SegmentModel) -> int {
    match segment {
        SegmentModel::Field { .. } => 0,
        SegmentModel::Index(_) => 1,
        SegmentModel::Coalesce(_) => 2,
    }
}

/// How `left` stands to `right` in the order of segments: by variant first, then by
/// what the variant holds. Fields go by name and then by `requires_quoting`, unset
/// before set; indexes by position; coalesces by their alternatives, one after the
/// other, and a coalesce before every longer one that begins with it.
pub open spec fn order_of(left: SegmentModel, right: SegmentModel) -> Order
    decreases left, 0int,
{
    match (left, right) {
        (
            SegmentModel::Field { name, requires_quoting },
            SegmentModel::Field { name: other_name, requires_quoting: other_quoting },
        ) => match text_order(name, other_name) {
            Order::Equal => if requires_quoting == other_quoting {
                Order::Equal
            } else if other_quoting {
                Order::Less
            } else {
                Order::Greater
            },
            decided => decided,
        },
        (SegmentModel::Index(position), SegmentModel::Index(other_position)) => if position
            < other_position {
            Order::Less
        } else if position > other_position {
            Order::Greater
        } else {
            Order::Equal
        },
        (SegmentModel::Coalesce(alternatives), SegmentModel::Coalesce(other_alternatives)) => {
            order_of_each(alternatives, other_alternatives, 0)
        },
        _ => if rank(left) < rank(right) {
            Order::Less
        } else {
            Order::Greater
        },
    }
}

/// How the segments of `left` from position `from` on stand to those of `right`.
pub open spec fn order_of_each(left: Seq<SegmentModel>, right: Seq<SegmentModel>, from: nat) -> Order
    decreases left, left.len() - from,
{
    if from >= left.len() {
        if from >= right.len() {
            Order::Equal
        } else {
            Order::Less
        }
    } else if from >= right.len() {
        Order::Greater
    } else {
        match order_of(left[from as int], right[from as int]) {
            Order::Equal => order_of_each(left, right, from + 1),
            decided => decided,
        }
    }
}

/// Two segments are equal in the order exactly if they are the same segment.
pub proof fn lemma_order_equal(left: SegmentModel, right: SegmentModel)
    ensures
        (order_of(left, right) == Order::Equal) == (left == right),
    decreases left, 0int,
{
    match (left, right) {
        (
            SegmentModel::Field { name, .. },
            SegmentModel::Field { name: other_name, .. },
        ) => {
            lemma_text_order_equal(name, other_name);
        },
        (SegmentModel::Coalesce(alternatives), SegmentModel::Coalesce(other_alternatives)) => {
            lemma_order_of_each_equal(alternatives, other_alternatives, 0);
            if alternatives.len() == other_alternatives.len() && (forall|i: int|
                0 <= i < alternatives.len() ==> alternatives[i] == other_alternatives[i]) {
                assert(alternatives =~= other_alternatives);
            }
        },
        _ => {},
    }
}

proof fn lemma_order_of_each_equal(left: Seq<SegmentModel>, right: Seq<SegmentModel>, from: nat)
    ensures
        (order_of_each(left, right, from) == Order::Equal) == ((left.len() == right.len()
            || from >= left.len() && from >= right.len()) && forall|i: int|
            from <= i < left.len() ==> i < right.len() && left[i] == right[i]),
    decreases left, left.len() - from,
{
    if from < left.len() && from < right.len() {
        lemma_order_equal(left[from as int], right[from as int]);
        lemma_order_of_each_equal(left, right, from + 1);
    }
}

/// Seen from the other side, the order of two segments is the reverse.
pub proof fn lemma_order_reverses(left: SegmentModel, right: SegmentModel)
    ensures
        order_of(right, left) == reversed(order_of(left, right)),
    decreases left, 0int,
{
    match (left, right) {
        (
            SegmentModel::Field { name, .. },
            SegmentModel::Field { name: other_name, .. },
        ) => {
            lemma_text_order_reverses(name, other_name);
        },
        (SegmentModel::Coalesce(alternatives), SegmentModel::Coalesce(other_alternatives)) => {
            lemma_order_of_each_reverses(alternatives, other_alternatives, 0);
        },
        _ => {},
    }
}

proof fn lemma_order_of_each_reverses(left: Seq<SegmentModel>, right: Seq<SegmentModel>, from: nat)
    ensures
        order_of_each(right, left, from) == reversed(order_of_each(left, right, from)),
    decreases left, left.len() - from,
{
    if from < left.len() && from < right.len() {
        lemma_order_reverses(left[from as int], right[from as int]);
        lemma_order_of_each_reverses(left, right, from + 1);
    }
}

/// The order of segments is transitive: a segment that is not after a second, which is
/// not after a third, is not after the third, and is before it if it is before the
/// second or the second before the third.
pub proof fn lemma_order_is_transitive(
    first: SegmentModel,
    second: SegmentModel,
    third: SegmentModel,
)
    requires
        order_of(first, second) != Order::Greater,
        order_of(second, third) != Order::Greater,
    ensures
        order_of(first, third) != Order::Greater,
        order_of(first, second) == Order::Less || order_of(second, third) == Order::Less
            ==> order_of(first, third) == Order::Less,
    decreases first, 0int,
{
    match (first, second, third) {
        (
            SegmentModel::Field { name: a, .. },
            SegmentModel::Field { name: b, .. },
            SegmentModel::Field { name: c, .. },
        ) => {
            lemma_text_order_is_transitive(a, b, c);
            lemma_text_order_equal(a, b);
            lemma_text_order_equal(b, c);
            lemma_text_order_equal(a, c);
        },
        (
            SegmentModel::Coalesce(a),
            SegmentModel::Coalesce(b),
            SegmentModel::Coalesce(c),
        ) => {
            lemma_order_of_each_is_transitive(a, b, c, 0);
        },
        _ => {},
    }
}

proof fn lemma_order_of_each_is_transitive(
    first: Seq<SegmentModel>,
    second: Seq<SegmentModel>,
    third: Seq<SegmentModel>,
    from: nat,
)
    requires
        order_of_each(first, second, from) != Order::Greater,
        order_of_each(second, third, from) != Order::Greater,
    ensures
        order_of_each(first, third, from) != Order::Greater,
        order_of_each(first, second, from) == Order::Less || order_of_each(second, third, from)
            == Order::Less ==> order_of_each(first, third, from) == Order::Less,
    decreases first, first.len() - from,
{
    if from < first.len() && from < second.len() && from < third.len() {
        let a = first[from as int];
        let b = second[from as int];
        let c = third[from as int];
        lemma_order_is_transitive(a, b, c);
        if order_of(a, b) == Order::Equal && order_of(b, c) == Order::Equal {
            lemma_order_equal(a, b);
            lemma_order_equal(b, c);
            lemma_order_equal(a, c);
            lemma_order_of_each_is_transitive(first, second, third, from + 1);
        }
    }
}

/// A field segment that is marked `requires_quoting`, or whose name does not begin with
/// a double quote, is read back from its text form as it was.
pub proof fn lemma_rendered_field_reads_back(name: Seq<char>, requires_quoting: bool)
    requires
        requires_quoting || !is_quoted(name),
    ensures
        is_field_text(rendered(SegmentModel::Field { name, requires_quoting })),
        field_of_text(rendered(SegmentModel::Field { name, requires_quoting })) == (
        SegmentModel::Field { name, requires_quoting }),
{
    if requires_quoting {
        let text = seq!['"'] + name + seq!['"'];
        assert(text.last() == '"');
        assert(text.subrange(1, text.len() - 1) =~= name);
    }
}

/// A field text that is unquoted, or that ends in a double quote as it begins with one,
/// is the text form of the segment that it denotes.
pub proof fn lemma_field_text_is_rendered_back(text: Seq<char>)
    requires
        is_field_text(text),
        is_quoted(text) ==> text.last() == '"',
    ensures
        rendered(field_of_text(text)) == text,
{
    if is_quoted(text) {
        let name = text.subrange(1, text.len() - 1);
        assert(seq!['"'] + name + seq!['"'] =~= text);
    }
}

/// Round trip: the field segment that a field text denotes, rendered and read as a
/// field text again, is the same segment, quoting flag included.
pub proof fn lemma_field_text_round_trip(text: Seq<char>)
    requires
        is_field_text(text),
    ensures
        is_field_text(rendered(field_of_text(text))),
        field_of_text(rendered(field_of_text(text))) == field_of_text(text),
{
    if is_quoted(text) {
        lemma_rendered_field_reads_back(text.subrange(1, text.len() - 1), true);
    } else {
        lemma_rendered_field_reads_back(text, false);
    }
}

impl SegmentBuf {
    /// A field segment with the given name.
    pub fn field(name: String, requires_quoting: bool) -> (segment: SegmentBuf)
        ensures
            segment@ == (SegmentModel::Field { name: name@, requires_quoting }),
    {
        SegmentBuf::Field { name, requires_quoting }
    }

    /// Whether the segment is a field.
    pub fn is_field(&self) -> (answer: bool)
        ensures
            answer == (self@ is Field),
    {
        match self {
            SegmentBuf::Field { .. } => true,
            _ => false,
        }
    }

    /// An index segment for the given position.
    pub fn index(v: usize) -> (segment: SegmentBuf)
        ensures
            segment@ == SegmentModel::Index(v as nat),
    {
        SegmentBuf::Index(v)
    }

    /// Whether the segment is an index.
    pub fn is_index(&self) -> (answer: bool)
        ensures
            answer == (self@ is Index),
    {
        match self {
            SegmentBuf::Index(_) => true,
            _ => false,
        }
    }

    /// A coalesce segment over the given alternatives, kept in their order.
    pub fn coalesce(v: Vec<SegmentBuf>) -> (segment: SegmentBuf)
        ensures
            segment@ == SegmentModel::Coalesce(models(v@)),
    {
        SegmentBuf::Coalesce(v)
    }

    /// Whether the segment is a coalesce.
    pub fn is_coalesce(&self) -> (answer: bool)
        ensures
            answer == (self@ is Coalesce),
    {
        match self {
            SegmentBuf::Coalesce(_) => true,
            _ => false,
        }
    }

    /// The same segment in borrowed form.
    pub fn as_segment<'a>(&'a self) -> (segment: Segment<'a>)
        ensures
            segment@ == self@,
        decreases self,
    {
        match self {
            SegmentBuf::Field { name, requires_quoting } => Segment::field(
                name.as_str(),
                *requires_quoting,
            ),
            SegmentBuf::Index(position) => Segment::index(*position),
            SegmentBuf::Coalesce(alternatives) => {
                let mut borrowed: Vec<Segment<'a>> = Vec::new();
                let mut i: usize = 0;
                while i < alternatives.len()
                    invariant
                        *self is Coalesce,
                        self->Coalesce_0 == *alternatives,
                        i <= alternatives.len(),
                        borrowed.len() == i,
                        forall|j: int| 0 <= j < i ==> borrowed@[j]@ == alternatives@[j]@,
                    decreases alternatives.len() - i,
                {
                    assert(decreases_to!(*self => self->Coalesce_0[i as int]));
                    borrowed.push(alternatives[i].as_segment());
                    i += 1;
                }
                proof {
                    assert(borrowed_models(borrowed@) =~= models(alternatives@));
                }
                Segment::coalesce(borrowed)
            },
        }
    }

    /// The text form of the segment.
    pub fn to_string(&self) -> (text: String)
        ensures
            text@ == rendered(self@),
        decreases self,
    {
        match self {
            SegmentBuf::Index(position) => decimal_string(*position),
            SegmentBuf::Field { name, requires_quoting } => {
                if *requires_quoting {
                    proof {
                        reveal_strlit("\"");
                    }
                    let mut text = String::from_str("\"");
                    text.append(name.as_str());
                    text.append("\"");
                    assert(text@ =~= seq!['"'] + name@ + seq!['"']);
                    text
                } else {
                    name.clone()
                }
            },
            SegmentBuf::Coalesce(alternatives) => {
                let mut parts: Vec<String> = Vec::new();
                let mut i: usize = 0;
                while i < alternatives.len()
                    invariant
                        *self is Coalesce,
                        self->Coalesce_0 == *alternatives,
                        i <= alternatives.len(),
                        parts.len() == i,
                        forall|j: int| 0 <= j < i ==> parts@[j]@ == rendered(alternatives@[j]@),
                    decreases alternatives.len() - i,
                {
                    assert(decreases_to!(*self => self->Coalesce_0[i as int]));
                    parts.push(alternatives[i].to_string());
                    i += 1;
                }
                proof {
                    reveal_strlit(" | ");
                    let shown = Seq::new(parts@.len(), |i: int| parts@[i]@);
                    assert(shown =~= rendered_each(models(alternatives@)));
                    assert(" | "@ =~= coalesce_separator());
                }
                join(&parts, " | ")
            },
        }
    }

    /// The field segment that `text` denotes.
    ///
    /// A text whose first character is a double quote is a quoted name: its first and
    /// last character are dropped and the segment `requires_quoting`. Whether the last
    /// character is a double quote too is not looked at, nor what lies between. Any
    /// other text is taken as the name, unchanged.
    pub fn from_text(text: String) -> (segment: SegmentBuf)
        requires
            is_field_text(text@),
        ensures
            segment@ == field_of_text(text@),
    {
        let length: usize = text.as_str().unicode_len();
        if length > 0 && text.as_str().get_char(0) == '"' {
            let name = String::from_str(text.as_str().substring_char(1, length - 1));
            SegmentBuf::Field { name, requires_quoting: true }
        } else {
            SegmentBuf::Field { name: text, requires_quoting: false }
        }
    }

    /// The field segment that `text` denotes, or `None` for the texts that
    /// [`SegmentBuf::from_text`] does not take.
    pub fn try_from_text(text: String) -> (segment: Option<SegmentBuf>)
        ensures
            segment is Some <==> is_field_text(text@),
            segment matches Some(found) ==> found@ == field_of_text(text@),
    {
        let length: usize = text.as_str().unicode_len();
        if length > 0 && text.as_str().get_char(0) == '"' {
            if length >= 2 && (text.as_str().get_char(length - 1) as u32) < 0x80 {
                Some(SegmentBuf::from_text(text))
            } else {
                None
            }
        } else {
            Some(SegmentBuf::from_text(text))
        }
    }
}

impl SegmentBuf {
    /// How the segment stands to `other` in the order of segments.
    pub fn order(&self, other: &SegmentBuf) -> (order: Order)
        ensures
            order == order_of(self@, other@),
        decreases self,
    {
        match (self, other) {
            (
                SegmentBuf::Field { name, requires_quoting },
                SegmentBuf::Field { name: other_name, requires_quoting: other_quoting },
            ) => match order_texts(name.as_str(), other_name.as_str()) {
                Order::Equal => if *requires_quoting == *other_quoting {
                    Order::Equal
                } else if *other_quoting {
                    Order::Less
                } else {
                    Order::Greater
                },
                decided => decided,
            },
            (SegmentBuf::Index(position), SegmentBuf::Index(other_position)) => if *position
                < *other_position {
                Order::Less
            } else if *position > *other_position {
                Order::Greater
            } else {
                Order::Equal
            },
            (SegmentBuf::Coalesce(alternatives), SegmentBuf::Coalesce(other_alternatives)) => {
                let ghost left = models(alternatives@);
                let ghost right = models(other_alternatives@);
                let mut i: usize = 0;
                while i < alternatives.len() && i < other_alternatives.len()
                    invariant
                        *self is Coalesce,
                        self->Coalesce_0 == *alternatives,
                        *other is Coalesce,
                        other->Coalesce_0 == *other_alternatives,
                        left == models(alternatives@),
                        right == models(other_alternatives@),
                        i <= alternatives.len(),
                        i <= other_alternatives.len(),
                        order_of_each(left, right, 0) == order_of_each(left, right, i as nat),
                    decreases alternatives.len() - i,
                {
                    assert(decreases_to!(*self => self->Coalesce_0[i as int]));
                    match alternatives[i].order(&other_alternatives[i]) {
                        Order::Equal => {},
                        decided => {
                            return decided;
                        },
                    }
                    i += 1;
                }
                if i < other_alternatives.len() {
                    Order::Less
                } else if i < alternatives.len() {
                    Order::Greater
                } else {
                    Order::Equal
                }
            },
            (SegmentBuf::Field { .. }, _) => Order::Less,
            (SegmentBuf::Index(_), SegmentBuf::Field { .. }) => Order::Greater,
            (SegmentBuf::Index(_), _) => Order::Less,
            (SegmentBuf::Coalesce(_), _) => Order::Greater,
        }
    }
}

impl PartialOrd for SegmentBuf {
    fn partial_cmp(&self, other: &SegmentBuf) -> (order: Option<Ordering>) {
        match self.order(other) {
            Order::Less => Some(Ordering::Less),
            Order::Equal => Some(Ordering::Equal),
            Order::Greater => Some(Ordering::Greater),
        }
    }
}

impl PartialOrdSpecImpl for SegmentBuf {
    open spec fn obeys_partial_cmp_spec() -> bool {
        true
    }

    open spec fn partial_cmp_spec(&self, other: &SegmentBuf) -> Option<Ordering> {
        match order_of(self@, other@) {
            Order::Less => Some(Ordering::Less),
            Order::Equal => Some(Ordering::Equal),
            Order::Greater => Some(Ordering::Greater),
        }
    }
}

impl PartialEq for SegmentBuf {
    /// Two segments are equal where they stand for the same value: the same variant
    /// with the same data.
    fn eq(&self, other: &SegmentBuf) -> (equal: bool) {
        proof {
            lemma_order_equal(self@, other@);
        }
        match self.order(other) {
            Order::Equal => true,
            _ => false,
        }
    }
}

impl PartialEqSpecImpl for SegmentBuf {
    open spec fn obeys_eq_spec() -> bool {
        true
    }

    open spec fn eq_spec(&self, other: &SegmentBuf) -> bool {
        self@ == other@
    }
}

impl Clone for SegmentBuf {
    fn clone(&self) -> (copy: SegmentBuf)
        ensures
            copy@ == self@,
        decreases self,
    {
        match self {
            SegmentBuf::Field { name, requires_quoting } => SegmentBuf::Field {
                name: name.clone(),
                requires_quoting: *requires_quoting,
            },
            SegmentBuf::Index(position) => SegmentBuf::Index(*position),
            SegmentBuf::Coalesce(alternatives) => {
                let mut copies: Vec<SegmentBuf> = Vec::new();
                let mut i: usize = 0;
                while i < alternatives.len()
                    invariant
                        *self is Coalesce,
                        self->Coalesce_0 == *alternatives,
                        i <= alternatives.len(),
                        copies.len() == i,
                        forall|j: int| 0 <= j < i ==> copies@[j]@ == alternatives@[j]@,
                    decreases alternatives.len() - i,
                {
                    assert(decreases_to!(*self => self->Coalesce_0[i as int]));
                    copies.push(alternatives[i].clone());
                    i += 1;
                }
                proof {
                    assert(models(copies@) =~= models(alternatives@));
                }
                SegmentBuf::coalesce(copies)
            },
        }
    }
}

impl<'a> Segment<'a> {
    /// A field segment with the given name.
    pub fn field(name: &'a str, requires_quoting: bool) -> (segment: Segment<'a>)
        ensures
            segment@ == (SegmentModel::Field { name: name@, requires_quoting }),
    {
        Segment::Field { name, requires_quoting }
    }

    /// Whether the segment is a field.
    pub fn is_field(&self) -> (answer: bool)
        ensures
            answer == (self@ is Field),
    {
        match self {
            Segment::Field { .. } => true,
            _ => false,
        }
    }

    /// An index segment for the given position.
    pub fn index(v: usize) -> (segment: Segment<'a>)
        ensures
            segment@ == SegmentModel::Index(v as nat),
    {
        Segment::Index(v)
    }

    /// Whether the segment is an index.
    pub fn is_index(&self) -> (answer: bool)
        ensures
            answer == (self@ is Index),
    {
        match self {
            Segment::Index(_) => true,
            _ => false,
        }
    }

    /// A coalesce segment over the given alternatives, kept in their order.
    pub fn coalesce(v: Vec<Segment<'a>>) -> (segment: Segment<'a>)
        ensures
            segment@ == SegmentModel::Coalesce(borrowed_models(v@)),
    {
        Segment::Coalesce(v)
    }

    /// Whether the segment is a coalesce.
    pub fn is_coalesce(&self) -> (answer: bool)
        ensures
            answer == (self@ is Coalesce),
    {
        match self {
            Segment::Coalesce(_) => true,
            _ => false,
        }
    }

    /// The same segment in owned form.
    pub fn as_segment_buf(&self) -> (segment: SegmentBuf)
        ensures
            segment@ == self@,
        decreases self,
    {
        match self {
            Segment::Field { name, requires_quoting } => SegmentBuf::field(
                String::from_str(name),
                *requires_quoting,
            ),
            Segment::Index(position) => SegmentBuf::index(*position),
            Segment::Coalesce(alternatives) => {
                let mut owned: Vec<SegmentBuf> = Vec::new();
                let mut i: usize = 0;
                while i < alternatives.len()
                    invariant
                        *self is Coalesce,
                        self->Coalesce_0 == *alternatives,
                        i <= alternatives.len(),
                        owned.len() == i,
                        forall|j: int| 0 <= j < i ==> owned@[j]@ == alternatives@[j]@,
                    decreases alternatives.len() - i,
                {
                    assert(decreases_to!(*self => self->Coalesce_0[i as int]));
                    owned.push(alternatives[i].as_segment_buf());
                    i += 1;
                }
                proof {
                    assert(models(owned@) =~= borrowed_models(alternatives@));
                }
                SegmentBuf::coalesce(owned)
            },
        }
    }
}

impl<'a> Segment<'a> {
    /// How the segment stands to `other` in the order of segments.
    pub fn order(&self, other: &Segment<'_>) -> (order: Order)
        ensures
            order == order_of(self@, other@),
        decreases self,
    {
        match (self, other) {
            (
                Segment::Field { name, requires_quoting },
                Segment::Field { name: other_name, requires_quoting: other_quoting },
            ) => match order_texts(name, other_name) {
                Order::Equal => if *requires_quoting == *other_quoting {
                    Order::Equal
                } else if *other_quoting {
                    Order::Less
                } else {
                    Order::Greater
                },
                decided => decided,
            },
            (Segment::Index(position), Segment::Index(other_position)) => if *position
                < *other_position {
                Order::Less
            } else if *position > *other_position {
                Order::Greater
            } else {
                Order::Equal
            },
            (Segment::Coalesce(alternatives), Segment::Coalesce(other_alternatives)) => {
                let ghost left = borrowed_models(alternatives@);
                let ghost right = borrowed_models(other_alternatives@);
                let mut i: usize = 0;
                while i < alternatives.len() && i < other_alternatives.len()
                    invariant
                        *self is Coalesce,
                        self->Coalesce_0 == *alternatives,
                        *other is Coalesce,
                        other->Coalesce_0 == *other_alternatives,
                        left == borrowed_models(alternatives@),
                        right == borrowed_models(other_alternatives@),
                        i <= alternatives.len(),
                        i <= other_alternatives.len(),
                        order_of_each(left, right, 0) == order_of_each(left, right, i as nat),
                    decreases alternatives.len() - i,
                {
                    assert(decreases_to!(*self => self->Coalesce_0[i as int]));
                    match alternatives[i].order(&other_alternatives[i]) {
                        Order::Equal => {},
                        decided => {
                            return decided;
                        },
                    }
                    i += 1;
                }
                if i < other_alternatives.len() {
                    Order::Less
                } else if i < alternatives.len() {
                    Order::Greater
                } else {
                    Order::Equal
                }
            },
            (Segment::Field { .. }, _) => Order::Less,
            (Segment::Index(_), Segment::Field { .. }) => Order::Greater,
            (Segment::Index(_), _) => Order::Less,
            (Segment::Coalesce(_), _) => Order::Greater,
        }
    }

    /// The text form of the segment: that of its owned form.
    pub fn to_string(&self) -> (text: String)
        ensures
            text@ == rendered(self@),
    {
        self.as_segment_buf().to_string()
    }
}

impl<'a> PartialEq for Segment<'a> {
    /// Two segments are equal where they stand for the same value: the same variant
    /// with the same data.
    fn eq(&self, other: &Segment<'a>) -> (equal: bool) {
        proof {
            lemma_order_equal(self@, other@);
        }
        match self.order(other) {
            Order::Equal => true,
            _ => false,
        }
    }
}

impl<'a> PartialEqSpecImpl for Segment<'a> {
    open spec fn obeys_eq_spec() -> bool {
        true
    }

    open spec fn eq_spec(&self, other: &Segment<'a>) -> bool {
        self@ == other@
    }
}

impl<'a> PartialOrd for Segment<'a> {
    fn partial_cmp(&self, other: &Segment<'a>) -> (order: Option<Ordering>) {
        match self.order(other) {
            Order::Less => Some(Ordering::Less),
            Order::Equal => Some(Ordering::Equal),
            Order::Greater => Some(Ordering::Greater),
        }
    }
}

impl<'a> PartialOrdSpecImpl for Segment<'a> {
    open spec fn obeys_partial_cmp_spec() -> bool {
        true
    }

    open spec fn partial_cmp_spec(&self, other: &Segment<'a>) -> Option<Ordering> {
        match order_of(self@, other@) {
            Order::Less => Some(Ordering::Less),
            Order::Equal => Some(Ordering::Equal),
            Order::Greater => Some(Ordering::Greater),
        }
    }
}

impl<'a> Clone for Segment<'a> {
    fn clone(&self) -> (copy: Segment<'a>)
        ensures
            copy@ == self@,
        decreases self,
    {
        match self {
            Segment::Field { name, requires_quoting } => Segment::Field {
                name: *name,
                requires_quoting: *requires_quoting,
            },
            Segment::Index(position) => Segment::Index(*position),
            Segment::Coalesce(alternatives) => {
                let mut copies: Vec<Segment<'a>> = Vec::new();
                let mut i: usize = 0;
                while i < alternatives.len()
                    invariant
                        *self is Coalesce,
                        self->Coalesce_0 == *alternatives,
                        i <= alternatives.len(),
                        copies.len() == i,
                        forall|j: int| 0 <= j < i ==> copies@[j]@ == alternatives@[j]@,
                    decreases alternatives.len() - i,
                {
                    assert(decreases_to!(*self => self->Coalesce_0[i as int]));
                    copies.push(alternatives[i].clone());
                    i += 1;
                }
                proof {
                    assert(borrowed_models(copies@) =~= borrowed_models(alternatives@));
                }
                Segment::coalesce(copies)
            },
        }
    }
}

impl From<usize> for SegmentBuf {
    fn from(value: usize) -> (segment: SegmentBuf) {
        SegmentBuf::Index(value)
    }
}

impl FromSpecImpl<usize> for SegmentBuf {
    open spec fn obeys_from_spec() -> bool {
        true
    }

    open spec fn from_spec(value: usize) -> SegmentBuf {
        SegmentBuf::Index(value)
    }
}

impl From<Vec<SegmentBuf>> for SegmentBuf {
    fn from(value: Vec<SegmentBuf>) -> (segment: SegmentBuf) {
        SegmentBuf::Coalesce(value)
    }
}

impl FromSpecImpl<Vec<SegmentBuf>> for SegmentBuf {
    open spec fn obeys_from_spec() -> bool {
        true
    }

    open spec fn from_spec(value: Vec<SegmentBuf>) -> SegmentBuf {
        SegmentBuf::Coalesce(value)
    }
}

impl<'a> From<Segment<'a>> for SegmentBuf {
    fn from(value: Segment<'a>) -> (segment: SegmentBuf)
        ensures
            segment@ == value@,
    {
        value.as_segment_buf()
    }
}

impl<'a> FromSpecImpl<Segment<'a>> for SegmentBuf {
    /// The owned copy is a new value: it stands for the same segment, and that is all
    /// that is known of it.
    open spec fn obeys_from_spec() -> bool {
        false
    }

    open spec fn from_spec(value: Segment<'a>) -> SegmentBuf {
        choose|segment: SegmentBuf| segment@ == value@
    }
}

} // verus!
