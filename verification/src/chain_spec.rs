//! Selection of the host chain's specification by its command-line name.

use vstd::prelude::*;

use crate::strutil::str_eq;

verus! {

/// The chain specification option the node can be started with.
#[derive(Clone, Copy, Debug, PartialEq, Eq, Structural)]
pub enum ChainSpec {
    /// Whatever the current runtime is, with a single development authority.
    Development,
    /// Whatever the current runtime is, with a pair of local test authorities.
    LocalTestnet,
    /// Whatever the current runtime is, with the global-testnet defaults.
    StagingTestnet,
}

/// The loaded chain configuration. Genesis parameters and service wiring are
/// the node's business, outside this library; the relay only needs to know
/// which specification was chosen.
#[derive(Clone, Copy, Debug, PartialEq, Eq, Structural)]
pub struct ChainConfig {
    /// The specification this configuration was loaded from.
    pub spec: ChainSpec,
}

/// Which specification a command-line identifier selects, if any.
pub open spec fn spec_of_id(s: Seq<char>) -> Option<ChainSpec> {
    if s == "dev"@ || s == ""@ {
        Some(ChainSpec::Development)
    } else if s == "local"@ {
        Some(ChainSpec::LocalTestnet)
    } else if s == "staging"@ {
        Some(ChainSpec::StagingTestnet)
    } else {
        None
    }
}

impl ChainSpec {
    /// Get a chain configuration from a spec setting.
    pub fn load(self) -> (r: Result<ChainConfig, String>)
        ensures
            r == Ok::<ChainConfig, String>(ChainConfig { spec: self }),
    {
        Ok(ChainConfig { spec: self })
    }

    /// Parse a chain specification from its command-line identifier.
    pub fn from(s: &str) -> (r: Option<Self>)
        ensures
            r == spec_of_id(s@),
    {
        if str_eq(s, "dev") || str_eq(s, "") {
            Some(ChainSpec::Development)
        } else if str_eq(s, "local") {
            Some(ChainSpec::LocalTestnet)
        } else if str_eq(s, "staging") {
            Some(ChainSpec::StagingTestnet)
        } else {
            None
        }
    }
}

/// Load the chain configuration named by a command-line identifier; an
/// unknown identifier selects no configuration and is no error.
pub fn load_spec(id: &str) -> (r: Result<Option<ChainConfig>, String>)
    ensures
        match spec_of_id(id@) {
            Some(spec) => r == Ok::<Option<ChainConfig>, String>(
                Some(ChainConfig { spec }),
            ),
            None => r == Ok::<Option<ChainConfig>, String>(None),
        },
{
    match ChainSpec::from(id) {
        Some(spec) => match spec.load() {
            Ok(config) => Ok(Some(config)),
            Err(e) => Err(e),
        },
        None => Ok(None),
    }
}

} // verus!
