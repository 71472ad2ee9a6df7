//! Gate managers: owners of custom virtual regions that cooperate with the
//! general builder through one shared copy-constraint registry.

use vstd::prelude::*;
use crate::backend::{Region, Registry, region_registry, region_tracking};

verus! {

/// Basic region management for custom circuit builders: access to the main
/// working region.
pub trait CommonCircuitBuilder: Sized {
    /// The main working region.
    spec fn main_region(&self) -> Region;

    /// `self` with its main working region replaced.
    spec fn with_main_region(&self, r: Region) -> Self;

    /// Hands out the main working region.
    fn main(&mut self) -> (r: &mut Region)
        ensures
            *r == old(self).main_region(),
            *final(self) == old(self).with_main_region(*final(r)),
    ;
}

/// A pluggable gate manager: it owns the virtual regions of one
/// computational domain, shares a copy-constraint registry with the other
/// builders of the same proof, and carries the `unknown`-witness flag used
/// during key generation.
pub trait CommonGateManager: Sized {
    /// The registry this manager's regions report to.
    spec fn registry(&self) -> Registry;

    /// The `unknown`-witness flag: true means symbolic placeholders stand
    /// in for real witness values.
    spec fn unknown_flag(&self) -> bool;

    /// Whether the manager was built for witness generation only.
    spec fn witness_gen_flag(&self) -> bool;

    /// The manager's own regions report to the registry it holds.
    spec fn wf(&self) -> bool;

    /// The custom working region.
    spec fn custom_region(&self) -> Region;

    /// `self` with its custom working region replaced.
    spec fn with_custom_region(&self, r: Region) -> Self;

    /// A fresh manager with its own new registry, the `unknown` flag
    /// clear, and a working region in the given mode.
    fn new(witness_gen_only: bool) -> (r: Self)
        ensures
            r.wf(),
            !r.unknown_flag(),
            r.witness_gen_flag() == witness_gen_only,
            region_tracking(r.custom_region()) == !witness_gen_only,
    ;

    /// Re-points the manager, and every region it owns, at the given
    /// registry.
    fn use_copy_manager(self, copy_manager: Registry) -> (r: Self)
        ensures
            r.wf(),
            r.registry() == copy_manager,
            r.unknown_flag() == self.unknown_flag(),
            r.witness_gen_flag() == self.witness_gen_flag(),
            region_tracking(r.custom_region()) == region_tracking(self.custom_region()),
    ;

    /// Returns `self` with the `unknown`-witness flag set as given.
    fn unknown(self, use_unknown: bool) -> (r: Self)
        ensures
            r.wf() == self.wf(),
            r.unknown_flag() == use_unknown,
            r.registry() == self.registry(),
            r.witness_gen_flag() == self.witness_gen_flag(),
            r.custom_region() == self.custom_region(),
    ;

    /// Hands out the custom working region.
    fn custom_context(&mut self) -> (r: &mut Region)
        ensures
            *r == old(self).custom_region(),
            *final(self) == old(self).with_custom_region(*final(r)),
            final(self).registry() == old(self).registry(),
            final(self).unknown_flag() == old(self).unknown_flag(),
            final(self).witness_gen_flag() == old(self).witness_gen_flag(),
    ;
}

/// The manager behind the spread gadget: it keeps one working region for
/// emitting spread witnesses, a handle to the registry it reports to, and
/// the two flags that key generation and proving care about.
pub struct ShaGateManager {
    /// The custom virtual region where spread witnesses are emitted.
    pub thread: Region,
    /// The shared copy-constraint registry this manager reports to.
    pub copy_manager: Registry,
    /// True when the builder only generates witnesses (the real prover).
    pub witness_gen_only: bool,
    /// True when symbolic placeholders stand in for witness values.
    pub use_unknown: bool,
}

impl CommonCircuitBuilder for ShaGateManager {
    open spec fn main_region(&self) -> Region {
        self.thread
    }

    open spec fn with_main_region(&self, r: Region) -> Self {
        ShaGateManager { thread: r, ..*self }
    }

    fn main(&mut self) -> (r: &mut Region) {
        &mut self.thread
    }
}

impl CommonGateManager for ShaGateManager {
    open spec fn registry(&self) -> Registry {
        self.copy_manager
    }

    open spec fn unknown_flag(&self) -> bool {
        self.use_unknown
    }

    open spec fn witness_gen_flag(&self) -> bool {
        self.witness_gen_only
    }

    open spec fn wf(&self) -> bool {
        region_registry(self.thread) == self.copy_manager
    }

    open spec fn custom_region(&self) -> Region {
        self.thread
    }

    open spec fn with_custom_region(&self, r: Region) -> Self {
        ShaGateManager { thread: r, ..*self }
    }

    fn new(witness_gen_only: bool) -> (r: Self) {
        let registry = Registry::new();
        let thread = Region::new(witness_gen_only, 0, &registry);
        ShaGateManager { thread, copy_manager: registry, witness_gen_only, use_unknown: false }
    }

    fn use_copy_manager(self, copy_manager: Registry) -> (r: Self) {
        let mut updated = self;
        updated.thread.set_registry(&copy_manager);
        updated.copy_manager = copy_manager;
        updated
    }

    fn unknown(self, use_unknown: bool) -> (r: Self) {
        let mut updated = self;
        updated.use_unknown = use_unknown;
        updated
    }

    fn custom_context(&mut self) -> (r: &mut Region) {
        &mut self.thread
    }
}

} // verus!
