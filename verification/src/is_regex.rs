//! The built-in `is_regex`: whether a value is a compiled pattern.

use crate::expression::{
    classified, lemma_described_is_inhabited, outcome, resolved, Context, Expression, Resolved,
};
use crate::function::{
    argument, check_arguments, compilation, first_violation, parameter_models, ArgumentList,
    CompileErrorModel, Compiled, Example, ExampleModel, Function, KindPolicy, Parameter,
    ParameterModel,
};
use crate::kind::{every_tag, Kind, Tag};
use crate::state::Compiler;
use crate::type_def::{TypeDef, TypeDefModel};
use crate::value::Value;
use vstd::prelude::*;

verus! {

/// The built-in `is_regex(value)`. It takes a value of any kind and answers whether it
/// is a compiled pattern.
#[derive(Clone, Copy, Debug)]
pub struct IsRegex;

/// The examples of `is_regex`, as mathematical values.
pub open spec fn is_regex_examples() -> Seq<ExampleModel> {
    seq![
        ExampleModel {
            title: "string"@,
            source: "is_regex(\"foobar\")"@,
            result: Ok("false"@),
        },
        ExampleModel { title: "regex"@, source: "is_regex(r'\\d+')"@, result: Ok("true"@) },
        ExampleModel { title: "null"@, source: "is_regex(null)"@, result: Ok("false"@) },
    ]
}

/// What compiling a call of `is_regex` with the given arguments ends in: the call
/// around the argument bound to `value`, or the complaint that there is none.
pub open spec fn is_regex_call(arguments: Seq<(Seq<char>, Expression)>) -> Result<
    Expression,
    CompileErrorModel,
> {
    match argument(arguments, "value"@) {
        Some(expression) => Ok(Expression::IsRegex(IsRegexFn { value: Box::new(expression) })),
        None => Err(
            CompileErrorModel::MissingArgument { function: "is_regex"@, keyword: "value"@ },
        ),
    }
}

impl Function for IsRegex {
    open spec fn name(&self) -> Seq<char> {
        "is_regex"@
    }

    open spec fn signature(&self) -> Seq<ParameterModel> {
        seq![ParameterModel { keyword: "value"@, kinds: every_tag(), required: true }]
    }

    open spec fn policy(&self) -> KindPolicy {
        KindPolicy::Overlap
    }

    fn identifier(&self) -> (identifier: &'static str) {
        "is_regex"
    }

    fn parameters(&self) -> (parameters: Vec<Parameter>) {
        let parameters = vec![Parameter { keyword: "value", kind: Kind::any(), required: true }];
        assert(parameter_models(parameters@) =~= self.signature());
        parameters
    }

    fn examples(&self) -> (examples: Vec<Example>)
        ensures
            examples@.len() == 3,
            forall|i: int| 0 <= i < 3 ==> examples@[i]@ == is_regex_examples()[i],
    {
        vec![
            Example { title: "string", source: "is_regex(\"foobar\")", result: Ok("false") },
            Example { title: "regex", source: "is_regex(r'\\d+')", result: Ok("true") },
            Example { title: "null", source: "is_regex(null)", result: Ok("false") },
        ]
    }

    /// Turns the arguments of a call into the call. The one thing that can be wrong is
    /// that no argument is bound to `value`: whatever an argument may produce, the
    /// parameter accepts it.
    fn compile(&self, state: &Compiler, arguments: ArgumentList) -> (compiled: Compiled)
        ensures
            compilation(compiled) == is_regex_call(arguments@),
    {
        let mut arguments = arguments;
        let parameters = self.parameters();
        proof {
            use_type_invariant(state);
            let wanted = parameter_models(parameters@);
            assert(first_violation("is_regex"@, wanted, arguments@, state@, KindPolicy::Overlap, 1)
                is None);
            match argument(arguments@, "value"@) {
                Some(expression) => {
                    lemma_described_is_inhabited(expression, state@);
                },
                None => {},
            }
        }
        match check_arguments(
            self.identifier(),
            &parameters,
            &arguments,
            state,
            KindPolicy::Overlap,
        ) {
            Err(error) => Err(error),
            Ok(_) => {
                let value = arguments.required("value");
                Ok(Expression::IsRegex(IsRegexFn { value: Box::new(value) }))
            },
        }
    }
}

/// A compiled call of `is_regex`.
#[derive(Debug)]
pub struct IsRegexFn {
    pub value: Box<Expression>,
}

impl IsRegexFn {
    /// What the call makes of the outcome of its argument.
    pub fn classify(argument: Resolved) -> (result: Resolved)
        ensures
            outcome(result) == classified(outcome(argument)),
    {
        match argument {
            Ok(value) => Ok(Value::Boolean(value.is_regex())),
            Err(error) => Err(error),
        }
    }

    /// Evaluates the argument and answers whether its value is a compiled pattern.
    pub fn resolve(&self, ctx: &mut Context) -> (result: Resolved)
        ensures
            outcome(result) == classified(resolved(*self.value, old(ctx)@)),
            *final(ctx) == *old(ctx),
        decreases self, 1int,
    {
        IsRegexFn::classify(self.value.resolve(ctx))
    }

    /// What is known of the call before it runs: it produces a boolean, whatever the
    /// argument is, and adds no failure of its own.
    pub fn type_def(&self, state: &Compiler) -> (description: TypeDef)
        ensures
            description@ == (TypeDefModel { kinds: set![Tag::Boolean], fallible: false }),
    {
        TypeDef::new().infallible().boolean()
    }
}

} // verus!
