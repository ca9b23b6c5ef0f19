use vstd::prelude::*;

verus! {

/// Failure taxonomy of the shared-memory region.
///
/// Every operation either fully succeeds or fails with one of these; nothing
/// is retried internally and there is no partial-success mode.
#[derive(Debug, Clone, Copy, PartialEq, Eq, Structural)]
pub enum ShmError {
    /// The backing object could not be created or opened; carries the
    /// error code reported by the facility.
    CreationFailure(i32),
    /// The backing object could not be resized to the requested length.
    ResizeFailure,
    /// The mapping into the address space could not be established.
    MappingFailure,
    /// A typed or raw access was attempted before a successful open.
    NotMapped,
}

} // verus!
