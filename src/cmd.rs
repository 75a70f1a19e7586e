use vstd::prelude::*;

verus! {

/// The program's arguments: where the configuration file is.
#[derive(Debug, Clone)]
pub struct CmdArgs {
    pub config: String,
}

impl Default for CmdArgs {
    fn default() -> (r: CmdArgs)
        ensures
            r.config@ == "./config"@,
    {
        proof {
            reveal_strlit("./config");
        }
        CmdArgs { config: "./config".to_owned() }
    }
}

} // verus!
