//! The command-line arguments as the build tool currently fixes them.

use vstd::prelude::*;

verus! {

/// The flags the build pipeline reads.
pub struct CLIArguments {
    pub env: &'static str,
    pub port: u16,
    pub server: bool,
    pub fastboot: bool,
    pub watch: bool,
    pub debug: bool,
    pub talk: bool,
    pub testing: bool,
}

impl CLIArguments {
    /// The default argument set of a development run.
    pub fn parse() -> (r: Self)
        ensures
            r.env@ == "development"@,
            r.port == 1234,
            r.server,
            r.fastboot,
            r.watch,
            !r.debug,
            r.talk,
            r.testing,
    {
        CLIArguments {
            env: "development",
            port: 1234,
            server: true,
            fastboot: true,
            watch: true,
            debug: false,
            talk: true,
            testing: true,
        }
    }
}

} // verus!
