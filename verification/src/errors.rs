//! Error taxonomy of the presentation pipeline.

use vstd::prelude::*;

verus! {

/// Every way the pipeline can fail.
///
/// `CommitBusy` is the only transient error: it is recovered by waiting
/// for the outstanding commit's completion event and retrying. All other
/// variants are fatal for the session.
#[derive(Clone, Copy, Debug, PartialEq, Eq, Structural)]
pub enum DisplayError {
    /// Resource enumeration or the control channel itself failed.
    ResourceError,
    /// A property name was not present on the object it was resolved against.
    PropertyNotFound,
    /// No plane both covers the target CRTC and supports the requested format.
    NoCompatiblePlane,
    /// The kernel could not allocate a dumb buffer.
    AllocationFailed,
    /// The controller rejected the buffer's format or geometry for scanout.
    FramebufferCreationFailed,
    /// A blob payload did not have the size the property expects.
    BlobCreationFailed,
    /// An atomic commit was rejected as an invalid property combination.
    CommitRejected,
    /// A commit was attempted while a previous one was still in flight.
    CommitBusy,
    /// An operation named a handle that is not currently live.
    UnknownHandle,
    /// A handle was registered while an equal handle was still live.
    DuplicateHandle,
    /// A destroy was attempted out of dependency order: the handle is still
    /// referenced by a live framebuffer or by the outstanding commit.
    HandleInUse,
}

} // verus!
