//! The help screen's text.  Printing, and the coloring of the header,
//! stay with the binary.

use vstd::prelude::*;

verus! {

/// The usage text of the command-line tool, headed by the given version.
pub fn help_text(version: &str) -> (r: String)
    ensures
        r@ == "[mber CLI "@ + version@ + "] Usage: mber <command (Default: help)>\n"@
            + "mber init | new                    # Sets up the initial ember folder structure
mber serve | server                # Starts your ember development server [alias: \"mber s\"]
mber build | b                     # Builds your ember application and outputs to /dist folder
mber console | c                   # Boots your ember application with DOM in a node.js repl
mber test | t                      # Runs your ember tests (--server to run them in browser)
mber generate | g [type] [name]    # Generate ember files for certain abstraction type
mber delete | d [type] [name]      # Remove ember files for certain abstraction type"@,
{
    let mut out = "[mber CLI ".to_owned();
    out.append(version);
    out.append("] Usage: mber <command (Default: help)>\n");
    out.append(
        "mber init | new                    # Sets up the initial ember folder structure
mber serve | server                # Starts your ember development server [alias: \"mber s\"]
mber build | b                     # Builds your ember application and outputs to /dist folder
mber console | c                   # Boots your ember application with DOM in a node.js repl
mber test | t                      # Runs your ember tests (--server to run them in browser)
mber generate | g [type] [name]    # Generate ember files for certain abstraction type
mber delete | d [type] [name]      # Remove ember files for certain abstraction type",
    );
    out
}

} // verus!
