//! Argument validation for scaffolding a new application.  The scaffold
//! writer itself is filesystem work and stays with the binary.

use vstd::prelude::*;

verus! {

/// Accepts the application name argument, or reports the error shown
/// when the name was forgotten.
pub fn validate_application_name<'a>(argument: Option<&'a str>) -> (r: Result<
    &'a str,
    &'static str,
>)
    ensures
        argument matches Some(n) ==> (r matches Ok(m) && m@ == n@),
        argument is None ==> (r matches Err(e) && e@
            == "You forgot to include an application name! Example: mber init example-app"@),
{
    match argument {
        Some(name) => Ok(name),
        None => Err("You forgot to include an application name! Example: mber init example-app"),
    }
}

} // verus!
