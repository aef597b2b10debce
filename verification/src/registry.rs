//! The table of built-in functions, by name.

use crate::expression::Expression;
use crate::function::{compilation, ArgumentList, CompileError, CompileErrorModel, Compiled, Function};
use crate::is_regex::{is_regex_call, IsRegex};
use crate::state::Compiler;
use vstd::prelude::*;
use vstd::string::*;

verus! {

/// What compiling a call of the function called `identifier` ends in. A name that no
/// built-in has is refused as such, whatever the arguments are.
pub open spec fn compiled_call(identifier: Seq<char>, arguments: Seq<(Seq<char>, Expression)>) -> Result<
    Expression,
    CompileErrorModel,
> {
    if identifier == IsRegex.name() {
        is_regex_call(arguments)
    } else {
        Err(CompileErrorModel::UnknownFunction { identifier })
    }
}

/// Compiles a call of the function called `identifier` with the given arguments.
pub fn compile_call(identifier: &str, state: &Compiler, arguments: ArgumentList) -> (compiled:
    Compiled)
    ensures
        compilation(compiled) == compiled_call(identifier@, arguments@),
{
    let wanted = String::from_str(identifier);
    if wanted == String::from_str(IsRegex.identifier()) {
        IsRegex.compile(state, arguments)
    } else {
        Err(CompileError::UnknownFunction { identifier: wanted })
    }
}

} // verus!
