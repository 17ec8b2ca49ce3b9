//! Plain identifier and action types shared by the whole crate.

use vstd::prelude::*;

verus! {

/// Opaque 128-bit identifier of a pool, unique per pool for its lifetime.
pub type PoolUuid = u128;

/// Opaque 128-bit identifier of a block device owned by a pool.
pub type DevUuid = u128;

/// Opaque 128-bit identifier of a filesystem within a pool.
pub type FilesystemUuid = u128;

/// Data-protection scheme selected for a pool at creation time.
#[derive(Clone, Copy, Debug, PartialEq, Eq, Structural)]
pub enum Redundancy {
    NONE,
}

/// Outcome of a rename operation: either nothing had to change because the
/// requested name was already the current one, or the entity was renamed.
#[derive(Clone, Copy, Debug, PartialEq, Eq, Structural)]
pub enum RenameAction {
    Identity,
    Renamed,
}

/// Source of fresh 128-bit identifiers.
///
/// Identifiers are handed out in increasing order, so every identifier ever
/// produced is strictly below `peek_next()`; holders can use that bound to
/// show freshness against identifiers they recorded earlier.
#[derive(Clone, Copy, Debug)]
pub struct UuidGen {
    next: u128,
}

impl UuidGen {
    /// Spec-level accessor for the next identifier to be handed out.
    pub closed spec fn spec_next(self) -> u128 {
        self.next
    }

    /// A generator that starts above every identifier in `floor`.
    pub fn starting_above(floor: u128) -> (r: UuidGen)
        requires
            floor < u128::MAX,
        ensures
            r.spec_next() == floor + 1,
    {
        UuidGen { next: floor + 1 }
    }

    /// A generator starting at the lowest identifier.
    pub fn new() -> (r: UuidGen)
        ensures
            r.spec_next() == 0,
    {
        UuidGen { next: 0 }
    }

    /// How many identifiers can still be produced before the space runs out.
    pub fn remaining(&self) -> (r: u128)
        ensures
            r == u128::MAX - self.spec_next(),
    {
        u128::MAX - self.next
    }

    /// Produce a fresh identifier, never handed out before by this generator.
    pub fn fresh(&mut self) -> (r: u128)
        requires
            old(self).spec_next() < u128::MAX,
        ensures
            r == old(self).spec_next(),
            final(self).spec_next() == old(self).spec_next() + 1,
    {
        let r = self.next;
        self.next = self.next + 1;
        r
    }
}

} // verus!
