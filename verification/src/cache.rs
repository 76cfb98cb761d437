//! Pipeline cache: the GPU pipeline state is built at most once and the
//! cached handle is reused, read-only, for the life of the device.
//!
//! Building the state itself (shader compilation, blend and depth modes)
//! is the host's; this holds the build-at-most-once discipline.  A build
//! failure is fatal to the plugin and never reaches the cache: the host
//! aborts initialization instead of inserting a handle.

use vstd::prelude::*;

verus! {

/// The cached pipeline handle: empty until the first use, then fixed.
pub struct PipelineCache {
    pub handle: Option<u64>,
}

impl PipelineCache {
    /// A cache holds its handle forever once one is in.
    pub open spec fn holds(self, h: u64) -> bool {
        self.handle == Some(h)
    }

    pub fn new() -> (c: PipelineCache)
        ensures
            c.handle is None,
    {
        PipelineCache { handle: None }
    }

    /// First use installs the freshly built handle; every later use
    /// returns the cached one unchanged — the build happens at most
    /// once, and the cache is read-only thereafter.
    pub fn get_or_insert(&mut self, built: u64) -> (h: u64)
        ensures
            old(self).handle is Some ==> *final(self) == *old(self) && Some(h) == old(self).handle,
            old(self).handle is None ==> final(self).handle == Some(built) && h == built,
            final(self).holds(h),
    {
        match self.handle {
            Some(existing) => existing,
            None => {
                self.handle = Some(built);
                built
            },
        }
    }
}

} // verus!
