//! Compiled expressions and their evaluation against an event.

use crate::is_regex::IsRegexFn;
use crate::kind::{every_tag, Kind, Tag};
use crate::lookup::{lookup, refers_to};
use crate::segment::{models, SegmentBuf};
use crate::state::Compiler;
use crate::type_def::{TypeDef, TypeDefModel};
use crate::value::{tag_of, Value, ValueModel};
use vstd::prelude::*;

verus! {

/// The failure of an evaluation.
#[derive(Debug, PartialEq, Eq)]
pub struct RuntimeError {
    /// What went wrong, in words.
    pub message: String,
}

impl View for RuntimeError {
    type V = Seq<char>;

    open spec fn view(&self) -> Seq<char> {
        self.message@
    }
}

/// What an evaluation ends in: a value, or the failure that stopped it.
pub type Resolved = Result<Value, RuntimeError>;

/// The event that an expression is evaluated against.
#[derive(Debug)]
pub struct Context {
    event: Value,
}

impl View for Context {
    type V = ValueModel;

    closed spec fn view(&self) -> ValueModel {
        self.event@
    }
}

/// A compiled expression. Once built it is never changed; all that differs between
/// two evaluations is the [`Context`] that is handed in.
#[derive(Debug)]
pub enum Expression {
    /// A constant.
    Literal(Value),
    /// The value at the end of a path into the event, or null where the path leads
    /// nowhere.
    Query(Vec<SegmentBuf>),
    /// The value of the first alternative that is not null, or null if there is none.
    Coalesce(Vec<Expression>),
    /// A call of the built-in `is_regex`.
    IsRegex(IsRegexFn),
    /// Ends the evaluation with a failure.
    Abort { message: String },
}

/// An outcome of an evaluation, as a mathematical value.
pub open spec fn outcome(resolved: Resolved) -> Result<ValueModel, Seq<char>> {
    match resolved {
        Ok(value) => Ok(value@),
        Err(error) => Err(error@),
    }
}

/// What the evaluation of `expression` against `event` ends in.
///
/// Sub-expressions are evaluated from left to right and the first failure ends the
/// evaluation. A query never fails: a path that leads nowhere gives null.
pub open spec fn resolved(expression: Expression, event: ValueModel) -> Result<
    ValueModel,
    Seq<char>,
>
    decreases expression, 0int,
{
    match expression {
        Expression::Literal(value) => Ok(value@),
        Expression::Query(path) => match lookup(event, models(path@)) {
            Some(found) => Ok(found),
            None => Ok(ValueModel::Null),
        },
        Expression::Coalesce(alternatives) => first_concrete(alternatives@, event, 0),
        Expression::IsRegex(call) => classified(resolved(*call.value, event)),
        Expression::Abort { message } => Err(message@),
    }
}

/// What the alternatives from position `from` on end in: the first failure, or the
/// first value that is not null, whichever comes first; null if neither comes.
pub open spec fn first_concrete(alternatives: Seq<Expression>, event: ValueModel, from: nat) -> Result<
    ValueModel,
    Seq<char>,
>
    decreases alternatives, alternatives.len() - from,
{
    if from >= alternatives.len() {
        Ok(ValueModel::Null)
    } else {
        match resolved(alternatives[from as int], event) {
            Err(error) => Err(error),
            Ok(value) => if value is Null {
                first_concrete(alternatives, event, from + 1)
            } else {
                Ok(value)
            },
        }
    }
}

/// What `is_regex` makes of the outcome of its argument: a failure is passed on as it
/// is; a value is answered by whether it is a compiled pattern.
pub open spec fn classified(argument: Result<ValueModel, Seq<char>>) -> Result<
    ValueModel,
    Seq<char>,
> {
    match argument {
        Ok(value) => Ok(ValueModel::Boolean(value is Regex)),
        Err(error) => Err(error),
    }
}

/// What is known of `expression` before it runs, where the event is known to be of one
/// of the kinds of `target`.
///
/// A literal has the kind of its value. The query of the empty path is the event; any
/// other query may find anything. A coalesce may produce whatever one of its
/// alternatives may, or null, and may fail if one of them may. The call of `is_regex`
/// produces a boolean, whatever its argument is, and adds no failure of its own. None
/// but an abort fails by itself.
pub open spec fn described(expression: Expression, target: Set<Tag>) -> TypeDefModel
    decreases expression, 0int,
{
    match expression {
        Expression::Literal(value) => TypeDefModel {
            kinds: set![tag_of(value@)],
            fallible: false,
        },
        Expression::Query(path) => TypeDefModel {
            kinds: if path@.len() == 0 {
                target
            } else {
                every_tag()
            },
            fallible: false,
        },
        Expression::Coalesce(alternatives) => merged(described_each(alternatives@, target)),
        Expression::IsRegex(_) => TypeDefModel { kinds: set![Tag::Boolean], fallible: false },
        Expression::Abort { .. } => TypeDefModel { kinds: set![Tag::Null], fallible: true },
    }
}

/// What is known of each of `alternatives`, in order.
pub open spec fn described_each(alternatives: Seq<Expression>, target: Set<Tag>) -> Seq<
    TypeDefModel,
>
    decreases alternatives, 1int,
{
    Seq::new(
        alternatives.len(),
        |i: int|
            if 0 <= i < alternatives.len() {
                described(alternatives[i], target)
            } else {
                TypeDefModel { kinds: Set::empty(), fallible: false }
            },
    )
}

/// The description of a coalesce over alternatives with the given descriptions: null
/// and every kind of every alternative; fallible if an alternative is.
pub open spec fn merged(descriptions: Seq<TypeDefModel>) -> TypeDefModel {
    TypeDefModel {
        kinds: Set::new(
            |tag: Tag|
                tag == Tag::Null || exists|i: int|
                    0 <= i < descriptions.len() && #[trigger] descriptions[i].kinds.contains(tag),
        ),
        fallible: exists|i: int| 0 <= i < descriptions.len() && #[trigger] descriptions[i].fallible,
    }
}

/// Merging one description more adds its kinds and its fallibility to what was merged
/// before.
proof fn lemma_merged_grows(descriptions: Seq<TypeDefModel>, count: int)
    requires
        0 <= count < descriptions.len(),
    ensures
        merged(descriptions.take(count + 1)).kinds == merged(descriptions.take(count)).kinds.union(
            descriptions[count].kinds,
        ),
        merged(descriptions.take(count + 1)).fallible == (merged(descriptions.take(count)).fallible
            || descriptions[count].fallible),
{
    let before = descriptions.take(count);
    let after = descriptions.take(count + 1);
    let added = descriptions[count];
    assert(after[count] == added);
    assert forall|i: int| 0 <= i < count implies after[i] == before[i] by {}
    assert forall|tag: Tag| merged(after).kinds.contains(tag) implies merged(before).kinds.union(
        added.kinds,
    ).contains(tag) by {
        if tag != Tag::Null {
            let i = choose|i: int| 0 <= i < after.len() && #[trigger] after[i].kinds.contains(tag);
            if i < count {
                assert(before[i].kinds.contains(tag));
            }
        }
    }
    assert forall|tag: Tag|
        merged(before).kinds.union(added.kinds).contains(tag) implies merged(after).kinds.contains(
        tag,
    ) by {
        if added.kinds.contains(tag) {
            assert(after[count].kinds.contains(tag));
        } else if tag != Tag::Null {
            let i = choose|i: int| 0 <= i < before.len() && #[trigger] before[i].kinds.contains(tag);
            assert(after[i].kinds.contains(tag));
        }
    }
    assert(merged(after).kinds =~= merged(before).kinds.union(added.kinds));
    if merged(after).fallible {
        let i = choose|i: int| 0 <= i < after.len() && #[trigger] after[i].fallible;
        if i < count {
            assert(before[i].fallible);
        }
    }
    if merged(before).fallible {
        let i = choose|i: int| 0 <= i < before.len() && #[trigger] before[i].fallible;
        assert(after[i].fallible);
    }
    if added.fallible {
        assert(after[count].fallible);
    }
}

/// The set of kinds in the description of an expression is never empty.
pub proof fn lemma_described_is_inhabited(expression: Expression, target: Set<Tag>)
    requires
        target != Set::<Tag>::empty(),
    ensures
        exists|tag: Tag| described(expression, target).kinds.contains(tag),
{
    match expression {
        Expression::Literal(value) => {
            assert(described(expression, target).kinds.contains(tag_of(value@)));
        },
        Expression::Query(path) => {
            if path@.len() == 0 {
                if forall|tag: Tag| !target.contains(tag) {
                    assert(target =~= Set::<Tag>::empty());
                }
                let tag = choose|tag: Tag| target.contains(tag);
                assert(described(expression, target).kinds.contains(tag));
            } else {
                assert(described(expression, target).kinds.contains(Tag::Null));
            }
        },
        Expression::Coalesce(alternatives) => {
            assert(merged(described_each(alternatives@, target)).kinds.contains(Tag::Null));
        },
        Expression::IsRegex(_) => {
            assert(described(expression, target).kinds.contains(Tag::Boolean));
        },
        Expression::Abort { .. } => {
            assert(described(expression, target).kinds.contains(Tag::Null));
        },
    }
}

/// Whether `expression`, or an expression inside it, is described as fallible.
pub open spec fn holds_fallible(expression: Expression) -> bool
    decreases expression,
{
    described(expression, every_tag()).fallible || match expression {
        Expression::Coalesce(alternatives) => exists|i: int|
            0 <= i < alternatives@.len() && holds_fallible(#[trigger] alternatives@[i]),
        Expression::IsRegex(call) => holds_fallible(*call.value),
        _ => false,
    }
}

/// Coalesce ordering: where the alternatives before `winner` evaluate to null and
/// `winner` ends in anything else, a value or a failure, the coalesce ends in what
/// `winner` ends in. Nothing is asked of the alternatives after it: they are not
/// evaluated, so a failure among them is never met.
pub proof fn lemma_coalesce_ends_at_first_outcome(
    alternatives: Vec<Expression>,
    event: ValueModel,
    winner: int,
)
    requires
        0 <= winner < alternatives@.len(),
        forall|i: int|
            0 <= i < winner ==> resolved(alternatives@[i], event) == Ok::<ValueModel, Seq<char>>(
                ValueModel::Null,
            ),
        resolved(alternatives@[winner], event) != Ok::<ValueModel, Seq<char>>(ValueModel::Null),
    ensures
        resolved(Expression::Coalesce(alternatives), event) == resolved(
            alternatives@[winner],
            event,
        ),
{
    lemma_first_concrete_skips(alternatives@, event, 0, winner);
}

/// Coalesce ordering: where every alternative evaluates to null, so does the coalesce.
pub proof fn lemma_coalesce_of_nulls_is_null(alternatives: Vec<Expression>, event: ValueModel)
    requires
        forall|i: int|
            0 <= i < alternatives@.len() ==> resolved(alternatives@[i], event) == Ok::<
                ValueModel,
                Seq<char>,
            >(ValueModel::Null),
    ensures
        resolved(Expression::Coalesce(alternatives), event) == Ok::<ValueModel, Seq<char>>(
            ValueModel::Null,
        ),
{
    lemma_first_concrete_skips(alternatives@, event, 0, alternatives@.len() as int);
}

proof fn lemma_first_concrete_skips(
    alternatives: Seq<Expression>,
    event: ValueModel,
    from: int,
    to: int,
)
    requires
        0 <= from <= to <= alternatives.len(),
        forall|i: int|
            from <= i < to ==> resolved(alternatives[i], event) == Ok::<ValueModel, Seq<char>>(
                ValueModel::Null,
            ),
    ensures
        first_concrete(alternatives, event, from as nat) == first_concrete(
            alternatives,
            event,
            to as nat,
        ),
    decreases to - from,
{
    if from < to {
        lemma_first_concrete_skips(alternatives, event, from + 1, to);
    }
}

/// Idempotence: what an expression evaluates to depends on the expression and on what
/// the event holds, and on nothing else. Two contexts whose events hold the same give
/// the same outcome, however often and in whatever order they are used.
pub proof fn lemma_same_content_same_outcome(
    expression: Expression,
    first: Context,
    second: Context,
)
    requires
        first@ == second@,
    ensures
        resolved(expression, first@) == resolved(expression, second@),
{
}

/// The value that an expression evaluates to is of a kind that its description names,
/// provided that the event is of a kind that the compiler was told to expect.
pub proof fn lemma_outcome_is_of_described_kind(
    expression: Expression,
    target: Set<Tag>,
    event: ValueModel,
)
    requires
        target.contains(tag_of(event)),
    ensures
        resolved(expression, event) matches Ok(value) ==> described(
            expression,
            target,
        ).kinds.contains(tag_of(value)),
    decreases expression, 0int,
{
    match expression {
        Expression::Coalesce(alternatives) => {
            lemma_first_concrete_is_of_merged_kind(alternatives@, target, event, 0);
        },
        _ => {},
    }
}

proof fn lemma_first_concrete_is_of_merged_kind(
    alternatives: Seq<Expression>,
    target: Set<Tag>,
    event: ValueModel,
    from: nat,
)
    requires
        target.contains(tag_of(event)),
    ensures
        first_concrete(alternatives, event, from) matches Ok(value) ==> merged(
            described_each(alternatives, target),
        ).kinds.contains(tag_of(value)),
    decreases alternatives, alternatives.len() - from,
{
    if from < alternatives.len() {
        lemma_outcome_is_of_described_kind(alternatives[from as int], target, event);
        lemma_first_concrete_is_of_merged_kind(alternatives, target, event, from + 1);
        let each = described_each(alternatives, target);
        match resolved(alternatives[from as int], event) {
            Ok(value) => {
                if !(value is Null) {
                    assert(each[from as int].kinds.contains(tag_of(value)));
                }
            },
            Err(_) => {},
        }
    }
}

/// An evaluation fails only where the expression, or an expression inside it, is
/// described as fallible.
pub proof fn lemma_failure_has_a_fallible_source(expression: Expression, event: ValueModel)
    ensures
        resolved(expression, event) is Err ==> holds_fallible(expression),
    decreases expression, 0int,
{
    match expression {
        Expression::Coalesce(alternatives) => {
            lemma_first_concrete_failure_has_a_source(alternatives@, event, 0);
        },
        Expression::IsRegex(call) => {
            lemma_failure_has_a_fallible_source(*call.value, event);
        },
        _ => {},
    }
}

proof fn lemma_first_concrete_failure_has_a_source(
    alternatives: Seq<Expression>,
    event: ValueModel,
    from: nat,
)
    ensures
        first_concrete(alternatives, event, from) is Err ==> exists|i: int|
            0 <= i < alternatives.len() && holds_fallible(#[trigger] alternatives[i]),
    decreases alternatives, alternatives.len() - from,
{
    if from < alternatives.len() {
        lemma_failure_has_a_fallible_source(alternatives[from as int], event);
        lemma_first_concrete_failure_has_a_source(alternatives, event, from + 1);
    }
}

impl Context {
    /// A context for the evaluation against `event`.
    pub fn new(event: Value) -> (context: Context)
        ensures
            context@ == event@,
    {
        Context { event }
    }

    /// The event.
    pub fn event(&self) -> (event: &Value)
        ensures
            event@ == self@,
    {
        &self.event
    }

    /// The value at the end of `path` into the event, if the path leads to one.
    pub fn get<'a>(&'a self, path: &[SegmentBuf]) -> (found: Option<&'a Value>)
        ensures
            refers_to(found, lookup(self@, models(path@))),
    {
        self.event.get(path)
    }

    /// Puts `event` in the place of the event held so far.
    pub fn rebind(&mut self, event: Value)
        ensures
            final(self)@ == event@,
    {
        self.event = event;
    }
}

impl Expression {
    /// Evaluates the expression against the event of `ctx`.
    pub fn resolve(&self, ctx: &mut Context) -> (result: Resolved)
        ensures
            outcome(result) == resolved(*self, old(ctx)@),
            *final(ctx) == *old(ctx),
        decreases self, 0int,
    {
        match self {
            Expression::Literal(value) => Ok(value.clone()),
            Expression::Query(path) => match ctx.get(path.as_slice()) {
                Some(found) => Ok(found.clone()),
                None => Ok(Value::Null),
            },
            Expression::Coalesce(alternatives) => {
                let mut i: usize = 0;
                while i < alternatives.len()
                    invariant
                        *self is Coalesce,
                        self->Coalesce_0 == *alternatives,
                        *ctx == *old(ctx),
                        i <= alternatives.len(),
                        first_concrete(alternatives@, ctx@, 0) == first_concrete(
                            alternatives@,
                            ctx@,
                            i as nat,
                        ),
                    decreases alternatives.len() - i,
                {
                    assert(decreases_to!(*self => self->Coalesce_0[i as int]));
                    match alternatives[i].resolve(ctx) {
                        Err(error) => {
                            return Err(error);
                        },
                        Ok(value) => {
                            if !value.is_null() {
                                return Ok(value);
                            }
                        },
                    }
                    i += 1;
                }
                Ok(Value::Null)
            },
            Expression::IsRegex(call) => call.resolve(ctx),
            Expression::Abort { message } => Err(RuntimeError { message: message.clone() }),
        }
    }

    /// What is known of the expression before it runs. At least one kind is always
    /// named.
    pub fn type_def(&self, state: &Compiler) -> (description: TypeDef)
        ensures
            description@ == described(*self, state@),
            exists|tag: Tag| description@.kinds.contains(tag),
        decreases self, 0int,
    {
        proof {
            use_type_invariant(state);
            lemma_described_is_inhabited(*self, state@);
        }
        match self {
            Expression::Literal(value) => TypeDef::new().infallible().with_kind(value.kind()),
            Expression::Query(path) => {
                if path.len() == 0 {
                    TypeDef::new().infallible().with_kind(state.target())
                } else {
                    TypeDef::new().infallible()
                }
            },
            Expression::Coalesce(alternatives) => {
                let ghost each = described_each(alternatives@, state@);
                let mut kind = Kind::only(Tag::Null);
                let mut fallible = false;
                let mut i: usize = 0;
                while i < alternatives.len()
                    invariant
                        *self is Coalesce,
                        self->Coalesce_0 == *alternatives,
                        each == described_each(alternatives@, state@),
                        i <= alternatives.len(),
                        kind@ == merged(each.take(i as int)).kinds,
                        fallible == merged(each.take(i as int)).fallible,
                    decreases alternatives.len() - i,
                {
                    assert(decreases_to!(*self => self->Coalesce_0[i as int]));
                    let description = alternatives[i].type_def(state);
                    proof {
                        assert(each[i as int] == description@);
                        lemma_merged_grows(each, i as int);
                    }
                    kind = kind.union(description.kind());
                    fallible = fallible || description.is_fallible();
                    i += 1;
                }
                proof {
                    assert(each.take(i as int) =~= each);
                }
                let description = TypeDef::new().with_kind(kind);
                if fallible {
                    description.fallible()
                } else {
                    description.infallible()
                }
            },
            Expression::IsRegex(call) => call.type_def(state),
            Expression::Abort { .. } => TypeDef::new().fallible().with_kind(Kind::only(Tag::Null)),
        }
    }
}

} // verus!
