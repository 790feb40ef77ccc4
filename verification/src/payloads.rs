//! Plain data shapes of the service's request and response payloads.

use vstd::prelude::*;

verus! {

/// The intermediate-representation program rendered as text, one string
/// per declaration, statement and function.
#[derive(Clone, Debug)]
pub struct SierraFormattedProgram {
    pub type_declarations: Vec<String>,
    pub libfunc_declarations: Vec<String>,
    pub statements: Vec<String>,
    pub funcs: Vec<String>,
}

/// The run request as the service's clients send it: the source text of
/// the program to compile and trace. The compile-and-run stage that
/// consumes it lives outside this library.
#[derive(Clone, Debug)]
pub struct RunnerPayload {
    pub cairo_program_code: String,
}

} // verus!
