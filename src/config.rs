//! Settings of a REPL session, read from its arguments.
use vstd::prelude::*;

verus! {

/// The REPL takes no settings yet: every argument list is accepted.
#[derive(Debug)]
pub struct Config {}

impl Config {
    pub fn from_strings(arg_strs: Vec<String>) -> (r: Result<Config, String>)
        ensures
            r is Ok,
    {
        Ok(Config {  })
    }
}

} // verus!
