//! Health check.

use vstd::prelude::*;

verus! {

pub struct EndpointHealthzOutput {
    pub version: String,
}

/// Answers a health check with the version of the running service.
pub fn endpoint_healthz(version: &str) -> (out: EndpointHealthzOutput)
    ensures
        out.version@ == version@,
{
    EndpointHealthzOutput { version: version.to_owned() }
}

} // verus!
