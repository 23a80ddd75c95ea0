pub mod builder;
pub mod gate;
pub mod pattern;
pub mod plan;
pub mod segment;

use vstd::prelude::*;

verus! {

/// Configuration for the regex check circuit: the pattern grammar string
/// that the constraint builder compiles into sections.
pub struct RegexCheckConfigParams {
    pub regex: String,
}

/// Builds the configuration parameters for the regex check circuit from a
/// pattern grammar string. The pattern is threaded explicitly into
/// `RegexCheckConfig::configure` rather than held in process-wide state.
pub fn set_regex_check_config_params(regex: String) -> (r: RegexCheckConfigParams)
    ensures
        r.regex@ == regex@,
{
    RegexCheckConfigParams { regex }
}

} // verus!
