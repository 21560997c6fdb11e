//! Verified core of an atomic display presentation pipeline.
//!
//! The library models the logic of driving a kernel display controller:
//! resolving named properties to handles, selecting a compatible plane,
//! tracking buffer/framebuffer/blob lifetimes in dependency order,
//! serializing a fixed-point color-transform matrix into a property blob,
//! and gating frame submission so that at most one commit is ever
//! outstanding. All device I/O stays outside; callers feed the library
//! plain values (handles, names, event kinds) and act on its decisions.

use vstd::prelude::*;

pub mod errors;
pub mod fixed;
pub mod buffers;
pub mod commit;
pub mod pattern;
pub mod resources;

verus! {

} // verus!
