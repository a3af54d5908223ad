use vstd::prelude::*;

verus! {

/// Why forwarding one request failed. Each kind is recoverable for the
/// process and answered the same way to the client.
#[derive(Debug, Clone, Copy, PartialEq, Eq, Structural)]
pub enum ProxyError {
    /// The installation token could not be obtained.
    Refresh,
    /// The target URL or its authority could not be built.
    Build,
    /// A header value held characters a header cannot carry.
    Header,
    /// The outbound call failed.
    Transport,
}

} // verus!
