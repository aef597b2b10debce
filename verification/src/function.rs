//! Built-in functions as the compiler sees them: their parameters, their examples, and
//! the check of a call's arguments against the parameters.

use crate::expression::{described, Expression};
use crate::kind::{overlap, Kind, Tag};
use crate::state::Compiler;
use vstd::prelude::*;
use vstd::string::*;

verus! {

/// One parameter of a function.
#[derive(Clone, Copy, Debug, PartialEq, Eq)]
pub struct Parameter {
    /// The name by which an argument is bound to the parameter.
    pub keyword: &'static str,
    /// The kinds of value that the parameter accepts.
    pub kind: Kind,
    /// Whether a call must supply an argument for the parameter.
    pub required: bool,
}

/// A parameter, as a mathematical value.
pub struct ParameterModel {
    pub keyword: Seq<char>,
    pub kinds: Set<Tag>,
    pub required: bool,
}

impl View for Parameter {
    type V = ParameterModel;

    open spec fn view(&self) -> ParameterModel {
        ParameterModel { keyword: self.keyword@, kinds: self.kind@, required: self.required }
    }
}

/// What a sequence of parameters stands for, in order.
pub open spec fn parameter_models(parameters: Seq<Parameter>) -> Seq<ParameterModel> {
    Seq::new(parameters.len(), |i: int| parameters[i]@)
}

/// A use of a function, shown with what it evaluates to.
#[derive(Clone, Copy, Debug, PartialEq, Eq)]
pub struct Example {
    pub title: &'static str,
    /// The call, in source text.
    pub source: &'static str,
    /// What the call evaluates to against an empty event, in source text, or the
    /// message of the failure.
    pub result: Result<&'static str, &'static str>,
}

/// An example, as a mathematical value.
pub struct ExampleModel {
    pub title: Seq<char>,
    pub source: Seq<char>,
    pub result: Result<Seq<char>, Seq<char>>,
}

impl View for Example {
    type V = ExampleModel;

    open spec fn view(&self) -> ExampleModel {
        ExampleModel {
            title: self.title@,
            source: self.source@,
            result: match self.result {
                Ok(text) => Ok(text@),
                Err(text) => Err(text@),
            },
        }
    }
}

/// Why a call cannot be compiled.
#[derive(Debug, PartialEq, Eq)]
pub enum CompileError {
    /// No function has this identifier.
    UnknownFunction { identifier: String },
    /// The call supplies no argument for a required parameter.
    MissingArgument { function: String, keyword: String },
    /// What the argument may produce does not go with what the parameter accepts.
    InvalidArgumentKind { function: String, keyword: String, expected: Kind, actual: Kind },
}

/// A compile error, as a mathematical value.
pub enum CompileErrorModel {
    UnknownFunction { identifier: Seq<char> },
    MissingArgument { function: Seq<char>, keyword: Seq<char> },
    InvalidArgumentKind {
        function: Seq<char>,
        keyword: Seq<char>,
        expected: Set<Tag>,
        actual: Set<Tag>,
    },
}

impl View for CompileError {
    type V = CompileErrorModel;

    open spec fn view(&self) -> CompileErrorModel {
        match self {
            CompileError::UnknownFunction { identifier } => CompileErrorModel::UnknownFunction {
                identifier: identifier@,
            },
            CompileError::MissingArgument { function, keyword } => CompileErrorModel::MissingArgument {
                function: function@,
                keyword: keyword@,
            },
            CompileError::InvalidArgumentKind {
                function,
                keyword,
                expected,
                actual,
            } => CompileErrorModel::InvalidArgumentKind {
                function: function@,
                keyword: keyword@,
                expected: expected@,
                actual: actual@,
            },
        }
    }
}

/// What a compilation ends in.
pub type Compiled = Result<Expression, CompileError>;

/// What a compilation ended in, with the error as a mathematical value.
pub open spec fn compilation(compiled: Compiled) -> Result<Expression, CompileErrorModel> {
    match compiled {
        Ok(expression) => Ok(expression),
        Err(error) => Err(error@),
    }
}

/// How the kinds of an argument must stand to the kinds that a parameter accepts.
#[derive(Clone, Copy, Debug, PartialEq, Eq, Structural)]
pub enum KindPolicy {
    /// Every kind that the argument may produce is accepted.
    Subset,
    /// Some kind that the argument may produce is accepted.
    Overlap,
}

/// Whether an argument that may produce `actual` goes with a parameter that accepts
/// `accepted`. Under either policy the two sets must have a kind in common.
pub open spec fn admits(policy: KindPolicy, accepted: Set<Tag>, actual: Set<Tag>) -> bool {
    match policy {
        KindPolicy::Subset => overlap(actual, accepted) && actual.subset_of(accepted),
        KindPolicy::Overlap => overlap(actual, accepted),
    }
}

/// The arguments of a call, each bound to a keyword, in the order in which they were
/// added.
#[derive(Debug)]
pub struct ArgumentList {
    arguments: Vec<(String, Expression)>,
}

impl View for ArgumentList {
    type V = Seq<(Seq<char>, Expression)>;

    closed spec fn view(&self) -> Seq<(Seq<char>, Expression)> {
        Seq::new(self.arguments@.len(), |i: int| (self.arguments@[i].0@, self.arguments@[i].1))
    }
}

/// The position of the first argument bound to `keyword`, at or after `from`.
pub open spec fn position_of(
    arguments: Seq<(Seq<char>, Expression)>,
    keyword: Seq<char>,
    from: int,
) -> Option<int>
    decreases arguments.len() - from,
{
    if from < 0 || from >= arguments.len() {
        None
    } else if arguments[from].0 == keyword {
        Some(from)
    } else {
        position_of(arguments, keyword, from + 1)
    }
}

/// The first argument bound to `keyword`.
pub open spec fn argument(arguments: Seq<(Seq<char>, Expression)>, keyword: Seq<char>) -> Option<
    Expression,
> {
    match position_of(arguments, keyword, 0) {
        Some(position) => Some(arguments[position].1),
        None => None,
    }
}

/// What is wrong with the call as far as `parameter` goes: a required argument is
/// missing, or the argument's kinds do not go with the parameter's.
pub open spec fn parameter_violation(
    function: Seq<char>,
    parameter: ParameterModel,
    arguments: Seq<(Seq<char>, Expression)>,
    target: Set<Tag>,
    policy: KindPolicy,
) -> Option<CompileErrorModel> {
    match argument(arguments, parameter.keyword) {
        None => if parameter.required {
            Some(
                CompileErrorModel::MissingArgument { function, keyword: parameter.keyword },
            )
        } else {
            None
        },
        Some(expression) => if admits(
            policy,
            parameter.kinds,
            described(expression, target).kinds,
        ) {
            None
        } else {
            Some(
                CompileErrorModel::InvalidArgumentKind {
                    function,
                    keyword: parameter.keyword,
                    expected: parameter.kinds,
                    actual: described(expression, target).kinds,
                },
            )
        },
    }
}

/// What is wrong with the call: the violation of the first parameter, at or after
/// `from`, that has one.
pub open spec fn first_violation(
    function: Seq<char>,
    parameters: Seq<ParameterModel>,
    arguments: Seq<(Seq<char>, Expression)>,
    target: Set<Tag>,
    policy: KindPolicy,
    from: nat,
) -> Option<CompileErrorModel>
    decreases parameters.len() - from,
{
    if from >= parameters.len() {
        None
    } else {
        match parameter_violation(function, parameters[from as int], arguments, target, policy) {
            Some(error) => Some(error),
            None => first_violation(function, parameters, arguments, target, policy, from + 1),
        }
    }
}

/// The complaint that the argument bound to `parameter` may produce none of the kinds
/// that the parameter accepts.
pub open spec fn kind_mismatch(
    function: Seq<char>,
    parameter: ParameterModel,
    arguments: Seq<(Seq<char>, Expression)>,
    target: Set<Tag>,
) -> CompileErrorModel {
    CompileErrorModel::InvalidArgumentKind {
        function,
        keyword: parameter.keyword,
        expected: parameter.kinds,
        actual: described(argument(arguments, parameter.keyword)->Some_0, target).kinds,
    }
}

/// Kind rejection: where the argument bound to a parameter may produce no kind that the
/// parameter accepts, the parameter is violated under either policy, and the violation
/// is the kind mismatch that names the parameter. The call then has a violation, so it
/// does not compile and never comes to run. The violation that is reported for the call
/// is this one, unless a parameter before that one has a violation of its own.
pub proof fn lemma_disjoint_kinds_are_refused(
    function: Seq<char>,
    parameters: Seq<ParameterModel>,
    arguments: Seq<(Seq<char>, Expression)>,
    target: Set<Tag>,
    policy: KindPolicy,
    index: int,
)
    requires
        0 <= index < parameters.len(),
        argument(arguments, parameters[index].keyword) matches Some(expression) && !overlap(
            described(expression, target).kinds,
            parameters[index].kinds,
        ),
    ensures
        parameter_violation(function, parameters[index], arguments, target, policy) == Some(
            kind_mismatch(function, parameters[index], arguments, target),
        ),
        first_violation(function, parameters, arguments, target, policy, 0) is Some,
        (forall|i: int|
            0 <= i < index ==> parameter_violation(
                function,
                parameters[i],
                arguments,
                target,
                policy,
            ) is None) ==> first_violation(function, parameters, arguments, target, policy, 0)
            == Some(kind_mismatch(function, parameters[index], arguments, target)),
{
    lemma_violation_is_found(function, parameters, arguments, target, policy, 0, index);
    if forall|i: int|
        0 <= i < index ==> parameter_violation(function, parameters[i], arguments, target, policy)
            is None {
        lemma_first_violation_skips(function, parameters, arguments, target, policy, 0, index);
    }
}

proof fn lemma_violation_is_found(
    function: Seq<char>,
    parameters: Seq<ParameterModel>,
    arguments: Seq<(Seq<char>, Expression)>,
    target: Set<Tag>,
    policy: KindPolicy,
    from: int,
    index: int,
)
    requires
        0 <= from <= index < parameters.len(),
        parameter_violation(function, parameters[index], arguments, target, policy) is Some,
    ensures
        first_violation(function, parameters, arguments, target, policy, from as nat) is Some,
    decreases index - from,
{
    if from < index {
        lemma_violation_is_found(function, parameters, arguments, target, policy, from + 1, index);
    }
}

proof fn lemma_first_violation_skips(
    function: Seq<char>,
    parameters: Seq<ParameterModel>,
    arguments: Seq<(Seq<char>, Expression)>,
    target: Set<Tag>,
    policy: KindPolicy,
    from: int,
    to: int,
)
    requires
        0 <= from <= to <= parameters.len(),
        forall|i: int|
            from <= i < to ==> parameter_violation(
                function,
                parameters[i],
                arguments,
                target,
                policy,
            ) is None,
    ensures
        first_violation(function, parameters, arguments, target, policy, from as nat)
            == first_violation(function, parameters, arguments, target, policy, to as nat),
    decreases to - from,
{
    if from < to {
        lemma_first_violation_skips(function, parameters, arguments, target, policy, from + 1, to);
    }
}

impl ArgumentList {
    /// The empty list.
    pub fn new() -> (arguments: ArgumentList)
        ensures
            arguments@ == Seq::<(Seq<char>, Expression)>::empty(),
    {
        let arguments = ArgumentList { arguments: Vec::new() };
        assert(arguments@ =~= Seq::<(Seq<char>, Expression)>::empty());
        arguments
    }

    /// Adds `expression` at the end, bound to `keyword`.
    pub fn insert(&mut self, keyword: &str, expression: Expression)
        ensures
            final(self)@ == old(self)@.push((keyword@, expression)),
    {
        self.arguments.push((String::from_str(keyword), expression));
        assert(self@ =~= old(self)@.push((keyword@, expression)));
    }

    fn find(&self, keyword: &str) -> (position: Option<usize>)
        ensures
            match position {
                Some(index) => position_of(self@, keyword@, 0) == Some(index as int) && index
                    < self.arguments@.len(),
                None => position_of(self@, keyword@, 0) is None,
            },
    {
        let wanted = String::from_str(keyword);
        let mut i: usize = 0;
        while i < self.arguments.len()
            invariant
                i <= self.arguments@.len(),
                self@.len() == self.arguments@.len(),
                wanted@ == keyword@,
                position_of(self@, keyword@, 0) == position_of(self@, keyword@, i as int),
            decreases self.arguments.len() - i,
        {
            if self.arguments[i].0 == wanted {
                return Some(i);
            }
            i += 1;
        }
        None
    }

    /// The first argument bound to `keyword`, if there is one.
    pub fn get(&self, keyword: &str) -> (found: Option<&Expression>)
        ensures
            match found {
                Some(expression) => argument(self@, keyword@) == Some(*expression),
                None => argument(self@, keyword@) is None,
            },
    {
        match self.find(keyword) {
            Some(index) => Some(&self.arguments[index].1),
            None => None,
        }
    }

    /// Takes the first argument bound to `keyword` out of the list, if there is one.
    pub fn optional(&mut self, keyword: &str) -> (taken: Option<Expression>)
        ensures
            taken == argument(old(self)@, keyword@),
            match position_of(old(self)@, keyword@, 0) {
                Some(position) => final(self)@ == old(self)@.remove(position),
                None => final(self)@ == old(self)@,
            },
    {
        match self.find(keyword) {
            Some(index) => {
                let entry = self.arguments.remove(index);
                assert(self@ =~= old(self)@.remove(index as int));
                Some(entry.1)
            },
            None => None,
        }
    }

    /// Takes the first argument bound to `keyword` out of the list.
    pub fn required(&mut self, keyword: &str) -> (taken: Expression)
        requires
            argument(old(self)@, keyword@) is Some,
        ensures
            Some(taken) == argument(old(self)@, keyword@),
            final(self)@ == old(self)@.remove(position_of(old(self)@, keyword@, 0)->Some_0),
    {
        self.optional(keyword).unwrap()
    }
}

/// A built-in function: a name, a list of parameters, examples of its use, and the step
/// that turns the arguments of a call into an expression.
pub trait Function {
    /// The name by which calls refer to the function.
    spec fn name(&self) -> Seq<char>;

    /// The parameters, in the order of their declaration.
    spec fn signature(&self) -> Seq<ParameterModel>;

    /// How the kinds of an argument must stand to those of its parameter.
    spec fn policy(&self) -> KindPolicy;

    /// The name by which calls refer to the function.
    fn identifier(&self) -> (identifier: &'static str)
        ensures
            identifier@ == self.name(),
    ;

    /// The parameters, in the order of their declaration.
    fn parameters(&self) -> (parameters: Vec<Parameter>)
        ensures
            parameter_models(parameters@) == self.signature(),
    ;

    /// Uses of the function, each with what it evaluates to.
    fn examples(&self) -> (examples: Vec<Example>)
    ;

    /// Turns the arguments of a call into an expression. The call is refused, with what
    /// is wrong with the first parameter that is not satisfied, exactly when a required
    /// argument is missing or the kinds of an argument do not go with its parameter.
    fn compile(&self, state: &Compiler, arguments: ArgumentList) -> (compiled: Compiled)
        ensures
            match first_violation(
                self.name(),
                self.signature(),
                arguments@,
                state@,
                self.policy(),
                0,
            ) {
                Some(error) => compilation(compiled) == Err::<Expression, CompileErrorModel>(error),
                None => compiled is Ok,
            },
    ;
}

/// Checks the arguments of a call of `function` against `parameters`, in the order of
/// the parameters, and reports what is wrong with the first parameter that is not
/// satisfied.
pub fn check_arguments(
    function: &str,
    parameters: &Vec<Parameter>,
    arguments: &ArgumentList,
    state: &Compiler,
    policy: KindPolicy,
) -> (checked: Result<(), CompileError>)
    ensures
        match checked {
            Ok(_) => first_violation(
                function@,
                parameter_models(parameters@),
                arguments@,
                state@,
                policy,
                0,
            ) is None,
            Err(error) => first_violation(
                function@,
                parameter_models(parameters@),
                arguments@,
                state@,
                policy,
                0,
            ) == Some(error@),
        },
{
    let ghost wanted = parameter_models(parameters@);
    let mut i: usize = 0;
    while i < parameters.len()
        invariant
            i <= parameters.len(),
            wanted == parameter_models(parameters@),
            first_violation(function@, wanted, arguments@, state@, policy, 0) == first_violation(
                function@,
                wanted,
                arguments@,
                state@,
                policy,
                i as nat,
            ),
        decreases parameters.len() - i,
    {
        let parameter = &parameters[i];
        assert(wanted[i as int] == parameter@);
        match arguments.get(parameter.keyword) {
            None => {
                if parameter.required {
                    return Err(
                        CompileError::MissingArgument {
                            function: String::from_str(function),
                            keyword: String::from_str(parameter.keyword),
                        },
                    );
                }
            },
            Some(expression) => {
                let actual = expression.type_def(state).kind();
                let admitted = match policy {
                    KindPolicy::Subset => actual.intersects(&parameter.kind) && actual.is_subset(
                        &parameter.kind,
                    ),
                    KindPolicy::Overlap => actual.intersects(&parameter.kind),
                };
                if !admitted {
                    return Err(
                        CompileError::InvalidArgumentKind {
                            function: String::from_str(function),
                            keyword: String::from_str(parameter.keyword),
                            expected: parameter.kind,
                            actual,
                        },
                    );
                }
            },
        }
        i += 1;
    }
    Ok(())
}

} // verus!
