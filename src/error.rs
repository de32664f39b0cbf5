use vstd::prelude::*;

verus! {

/// Why a registry operation was refused. Each is a caller's logic error, reported rather than
/// acted on.
#[derive(Debug, Clone, Copy, PartialEq, Eq, Structural)]
pub enum ResourceError {
    /// The handle names nothing live: its value was removed, or it was never issued here.
    StaleHandle,
    /// A mesh or pipeline still has instance lists that draw with it.
    ResourceInUse,
    /// The arena's generation counter has reached its limit, so nothing more can be removed.
    GenerationsExhausted,
}

} // verus!
