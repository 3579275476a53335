//! Errors of the coordination layer and of the services around it.
use vstd::prelude::*;

verus! {

/// What can go wrong while building, starting or calling a hash service.
#[derive(Debug, Clone, PartialEq, Eq)]
pub enum HashServiceError {
    /// A hash ring was asked for with no node (or no position per node).
    EmptyNodeSet,
    /// A configured node did not answer the start-up health probe.
    NodeSetIncomplete,
    /// A call to one node timed out or its transport failed.
    NodeUnreachable,
    /// The admission gate rejected a write.
    TooManyRequests,
    /// A configured node address is not of the form `host:port`.
    InvalidNodeAddress,
    /// The settings lack the section that the selected mode needs.
    MissingConfiguration { mode: String, configuration: String },
    /// Any other failure.
    Unknown,
}

/// The error for a settings section that `mode` needs and that is missing.
pub fn build_configuration_error(mode: &str, configuration: &str) -> (r: HashServiceError)
    ensures
        r matches HashServiceError::MissingConfiguration { mode: m, configuration: c } && m@
            == mode@ && c@ == configuration@,
{
    HashServiceError::MissingConfiguration {
        mode: mode.to_owned(),
        configuration: configuration.to_owned(),
    }
}

} // verus!
