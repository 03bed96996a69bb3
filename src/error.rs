use vstd::prelude::*;

verus! {

/// The failures of a collection run.
#[derive(Debug, Clone, Copy, PartialEq, Eq, Structural)]
pub enum Error {
    /// The remote API asked for no further calls until `retry_at`,
    /// in seconds since the Unix epoch.
    RateLimited { retry_at: i32 },
    /// Any other failure of a remote call.
    TransportError,
    /// A storage operation failed.
    StorageError,
}

} // verus!
