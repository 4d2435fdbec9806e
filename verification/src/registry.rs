use vstd::prelude::*;
use vstd::rwlock::RwLock;

verus! {

/// The port value meaning "not yet known".
pub const PORT_UNSET: u16 = 0;

/// The shared port registry: one 16-bit value, written by the supervisor's
/// event loop when a port announcement is parsed and read by any number of
/// concurrent callers.
///
/// The value sits behind a verified reader-writer lock, so a reader only
/// ever observes a whole value some writer stored — never a torn one —
/// and the default before the first write is the sentinel 0. Overwrites
/// are unconditional: a later announcement replaces an earlier port, and
/// readers must treat the value as eventually consistent.
pub struct PortRegistry {
    cell: RwLock<u16, spec_fn(u16) -> bool>,
}

impl PortRegistry {
    /// Every 16-bit value is admissible; 0 stands for "not yet known".
    pub closed spec fn wf(&self) -> bool {
        forall|v: u16| self.cell.inv(v)
    }

    /// A registry holding the sentinel.
    pub fn new() -> (s: Self)
        ensures
            s.wf(),
    {
        let cell = RwLock::new(PORT_UNSET, Ghost(|v: u16| true));
        PortRegistry { cell }
    }

    /// Snapshot of the latest stored port; non-blocking aside from the
    /// lock, and never a partially written value.
    pub fn get(&self) -> u16
        requires
            self.wf(),
    {
        let handle = self.cell.acquire_read();
        let v = *handle.borrow();
        handle.release_read();
        v
    }

    /// Stores `v` unconditionally; the last writer wins.
    pub fn set(&self, v: u16)
        requires
            self.wf(),
    {
        let (_, handle) = self.cell.acquire_write();
        handle.release_write(v);
    }
}

} // verus!
