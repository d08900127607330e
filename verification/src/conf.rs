//! The configuration file schema and its validation rule.

use vstd::prelude::*;
use vstd::string::StrSliceExecFns;

verus! {

/// Why a configuration is rejected.
#[derive(Debug, Clone, Copy, PartialEq, Eq, Structural)]
pub enum ConfigError {
    /// The version field does not name the supported schema version.
    BadVersion,
}

/// The contents of the tool's configuration file.
#[derive(Debug)]
pub struct ConfigFile {
    /// The configuration schema version.
    pub version: String,
}

/// The one supported schema version: the two characters `v0`.
pub open spec fn spec_is_v0(s: Seq<char>) -> bool {
    s.len() == 2 && s[0] == 'v' && s[1] == '0'
}

fn is_v0(val: &str) -> (r: bool)
    ensures
        r == spec_is_v0(val@),
{
    val.unicode_len() == 2 && val.get_char(0) == 'v' && val.get_char(1) == '0'
}

impl ConfigFile {
    /// Check the configuration against its schema rule: the version must
    /// name the supported schema version, and nothing else is constrained.
    pub fn validate(&self) -> (r: Result<(), ConfigError>)
        ensures
            r is Ok <==> spec_is_v0(self.version@),
            r is Err ==> r == Err::<(), ConfigError>(ConfigError::BadVersion),
    {
        if is_v0(self.version.as_str()) {
            Ok(())
        } else {
            Err(ConfigError::BadVersion)
        }
    }
}

} // verus!
