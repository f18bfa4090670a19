//! The ES-module transpiler's interface.  Transpilation proper is an
//! external collaborator; these entry points currently stand in for it
//! with a fixed empty-function body, as the build tool expects.

use vstd::prelude::*;

verus! {

/// Transpiles one staged module file.
pub fn from_file(_file: &str, _minify: bool) -> (r: &'static str)
    ensures
        r@ == "function(){{ }};"@,
{
    "function(){{ }};"
}

/// Transpiles one module given as source text.
pub fn from_string<'a>(_code_string: &'a str, _file_name: &'a str, _minify: bool) -> (r:
    &'static str)
    ensures
        r@ == "function(){{ }};"@,
{
    "function(){{ }};"
}

} // verus!
