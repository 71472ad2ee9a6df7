//! The composite circuit builder: the general-purpose builder and the hash
//! gate manager side by side, wired to one shared copy-constraint registry
//! at construction and never re-wired.

use vstd::prelude::*;
use vstd::arithmetic::power2::pow2;
use crate::backend::{GeneralBuilder, Region, RangeService, Cell, base_registry, base_wgo, base_unknown, base_lookup_bits, base_k, base_instances, base_instance_cols, base_phases, base_break_points, params_instance_cols, rc_lookup_bits, region_tracking};
use halo2_base::gates::circuit::BaseCircuitParams;
use crate::gates::{CommonGateManager, ShaGateManager};

verus! {

/// The lifecycle stage a builder is constructed for, fixed at construction.
#[derive(Clone, Copy, PartialEq, Eq, Structural)]
pub enum CircuitBuilderStage {
    /// Key generation: witness values are replaced by symbolic unknowns.
    Keygen,
    /// Real proving: witness generation only, no constraint bookkeeping.
    Prover,
    /// Mock proving: real witnesses with full constraint bookkeeping.
    Mock,
}

/// The composite builder: one hash gate manager and one general builder,
/// both reporting copy constraints to the same registry.
pub struct ShaCircuitBuilder {
    /// The manager that owns the spread-gadget region.
    pub sha: ShaGateManager,
    /// The general-purpose arithmetic builder.
    pub base: GeneralBuilder,
}

impl ShaCircuitBuilder {
    /// True when both halves of the composite report their copy
    /// constraints to one and the same registry.
    pub open spec fn shares_registry_spec(self) -> bool {
        &&& self.sha.wf()
        &&& self.sha.registry() == base_registry(self.base)
    }

    /// True when both halves were built for the same witness-only mode.
    pub open spec fn mode_is(self, witness_gen_only: bool) -> bool {
        &&& self.sha.witness_gen_only == witness_gen_only
        &&& region_tracking(self.sha.thread) == !witness_gen_only
        &&& base_wgo(self.base) == witness_gen_only
    }

    /// Everything this type tracks of the two halves, unchanged between
    /// two composite states, except the base's lookup width.
    pub open spec fn same_but_lookup_bits(a: Self, b: Self) -> bool {
        &&& a.sha == b.sha
        &&& base_wgo(a.base) == base_wgo(b.base)
        &&& base_registry(a.base) == base_registry(b.base)
        &&& base_unknown(a.base) == base_unknown(b.base)
        &&& base_k(a.base) == base_k(b.base)
        &&& base_instances(a.base) == base_instances(b.base)
        &&& base_phases(a.base) == base_phases(b.base)
        &&& base_break_points(a.base) == base_break_points(b.base)
    }

    /// Builds both halves and re-points the spread-side manager at the
    /// registry that the arithmetic side created for its phase 0.
    pub fn new(witness_gen_only: bool) -> (r: Self)
        ensures
            r.shares_registry_spec(),
            r.mode_is(witness_gen_only),
            !r.sha.use_unknown,
            !base_unknown(r.base),
            base_lookup_bits(r.base) is None,
            base_k(r.base) == 0,
            base_instances(r.base) == Seq::<Seq<Cell>>::empty(),
            base_phases(r.base) == 1,
    {
        let base = GeneralBuilder::new(witness_gen_only);
        let registry = base.copy_manager();
        let sha = ShaGateManager::new(witness_gen_only).use_copy_manager(registry);
        Self { sha, base }
    }

    /// Builds for one lifecycle stage: the prover stage runs witness
    /// generation only, and the keygen stage sets the `unknown` flag on
    /// both sub-builders.
    pub fn from_stage(stage: CircuitBuilderStage) -> (r: Self)
        ensures
            r.shares_registry_spec(),
            r.mode_is(stage == CircuitBuilderStage::Prover),
            r.sha.use_unknown == (stage == CircuitBuilderStage::Keygen),
            base_unknown(r.base) == (stage == CircuitBuilderStage::Keygen),
            base_lookup_bits(r.base) is None,
            base_k(r.base) == 0,
            base_instances(r.base) == Seq::<Seq<Cell>>::empty(),
            base_phases(r.base) == 1,
    {
        Self::new(stage == CircuitBuilderStage::Prover).unknown(
            stage == CircuitBuilderStage::Keygen,
        )
    }

    /// Returns `self` with the `unknown`-witness flag set as given on both
    /// sub-builders; the registry handles and all other configuration stay
    /// as they are.
    pub fn unknown(self, use_unknown: bool) -> (r: Self)
        ensures
            r.shares_registry_spec() == self.shares_registry_spec(),
            r.sha.use_unknown == use_unknown,
            base_unknown(r.base) == use_unknown,
            r.sha.copy_manager == self.sha.copy_manager,
            r.sha.thread == self.sha.thread,
            r.sha.witness_gen_only == self.sha.witness_gen_only,
            base_registry(r.base) == base_registry(self.base),
            base_wgo(r.base) == base_wgo(self.base),
            base_lookup_bits(r.base) == base_lookup_bits(self.base),
            base_k(r.base) == base_k(self.base),
            base_instances(r.base) == base_instances(self.base),
            base_phases(r.base) == base_phases(self.base),
            base_break_points(r.base) == base_break_points(self.base),
    {
        Self { sha: self.sha.unknown(use_unknown), base: self.base.unknown(use_unknown) }
    }

    /// A builder for key generation: `unknown` is set on both sub-builders,
    /// and witnesses are generated for real (not witness-only mode).
    pub fn keygen() -> (r: Self)
        ensures
            r.shares_registry_spec(),
            r.mode_is(false),
            r.sha.use_unknown,
            base_unknown(r.base),
            base_lookup_bits(r.base) is None,
            base_k(r.base) == 0,
            base_instances(r.base) == Seq::<Seq<Cell>>::empty(),
            base_phases(r.base) == 1,
    {
        Self::from_stage(CircuitBuilderStage::Keygen)
    }

    /// A builder for mock proving: `unknown` is clear on both sub-builders,
    /// with full constraint bookkeeping.
    pub fn mock() -> (r: Self)
        ensures
            r.shares_registry_spec(),
            r.mode_is(false),
            !r.sha.use_unknown,
            !base_unknown(r.base),
            base_lookup_bits(r.base) is None,
            base_k(r.base) == 0,
            base_instances(r.base) == Seq::<Seq<Cell>>::empty(),
            base_phases(r.base) == 1,
    {
        Self::from_stage(CircuitBuilderStage::Mock)
    }

    /// A builder for real proving: witness generation only, `unknown`
    /// clear on both sub-builders.
    pub fn prover() -> (r: Self)
        ensures
            r.shares_registry_spec(),
            r.mode_is(true),
            !r.sha.use_unknown,
            !base_unknown(r.base),
            base_lookup_bits(r.base) is None,
            base_k(r.base) == 0,
            base_instances(r.base) == Seq::<Seq<Cell>>::empty(),
            base_phases(r.base) == 1,
    {
        Self::from_stage(CircuitBuilderStage::Prover)
    }

    /// Reads the `unknown`-witness flags of the two sub-builders: the
    /// spread side first, the arithmetic side second.
    pub fn unknown_flags(&self) -> (r: (bool, bool))
        ensures
            r.0 == self.sha.use_unknown,
            r.1 == base_unknown(self.base),
    {
        (self.sha.use_unknown, self.base.is_unknown())
    }

    /// Checks at run time that the two sub-builders hold the identical
    /// shared registry.
    pub fn shares_registry(&self) -> (r: bool)
        ensures
            r == (self.sha.registry() == base_registry(self.base)),
    {
        let base_handle = self.base.copy_manager();
        self.sha.copy_manager.same_as(&base_handle)
    }

    /// The log-2 size of the lookup table, if configured.
    pub fn lookup_bits(&self) -> (r: Option<usize>)
        ensures
            r == base_lookup_bits(self.base),
    {
        self.base.lookup_bits()
    }

    /// The configured log-2 circuit size.
    pub fn k(&self) -> (r: usize)
        ensures
            r == base_k(self.base),
    {
        self.base.k()
    }

    /// Sets the lookup-table width.
    pub fn set_lookup_bits(&mut self, lookup_bits: usize)
        ensures
            base_lookup_bits(final(self).base) == Some(lookup_bits),
            Self::same_but_lookup_bits(*final(self), *old(self)),
            old(self).shares_registry_spec() ==> final(self).shares_registry_spec(),
    {
        self.base.set_lookup_bits(lookup_bits)
    }

    /// Returns `self` with the lookup-table width set.
    pub fn use_lookup_bits(self, lookup_bits: usize) -> (r: Self)
        ensures
            base_lookup_bits(r.base) == Some(lookup_bits),
            Self::same_but_lookup_bits(r, self),
            self.shares_registry_spec() ==> r.shares_registry_spec(),
    {
        let mut updated = self;
        updated.set_lookup_bits(lookup_bits);
        updated
    }

    /// Sets the number of instance columns, growing the instance lists
    /// with empty ones and keeping those already stored.
    pub fn set_instance_columns(&mut self, num_instance_columns: usize)
        requires
            base_instance_cols(old(self).base) <= num_instance_columns,
        ensures
            base_instances(final(self).base).len() == num_instance_columns,
            forall|i: int|
                0 <= i < base_instances(old(self).base).len() ==> #[trigger] base_instances(
                    final(self).base,
                )[i] == base_instances(old(self).base)[i],
            forall|i: int|
                base_instances(old(self).base).len() <= i < num_instance_columns
                    ==> #[trigger] base_instances(final(self).base)[i] == Seq::<Cell>::empty(),
            final(self).sha == old(self).sha,
            base_wgo(final(self).base) == base_wgo(old(self).base),
            base_registry(final(self).base) == base_registry(old(self).base),
            base_unknown(final(self).base) == base_unknown(old(self).base),
            base_lookup_bits(final(self).base) == base_lookup_bits(old(self).base),
            base_k(final(self).base) == base_k(old(self).base),
            base_phases(final(self).base) == base_phases(old(self).base),
            base_break_points(final(self).base) == base_break_points(old(self).base),
            old(self).shares_registry_spec() ==> final(self).shares_registry_spec(),
    {
        self.base.set_instance_columns(num_instance_columns)
    }

    /// Returns `self` with the number of instance columns set.
    pub fn use_instance_columns(self, num_instance_columns: usize) -> (r: Self)
        requires
            base_instance_cols(self.base) <= num_instance_columns,
        ensures
            base_instances(r.base).len() == num_instance_columns,
            forall|i: int|
                0 <= i < base_instances(self.base).len() ==> #[trigger] base_instances(r.base)[i]
                    == base_instances(self.base)[i],
            forall|i: int|
                base_instances(self.base).len() <= i < num_instance_columns
                    ==> #[trigger] base_instances(r.base)[i] == Seq::<Cell>::empty(),
            r.sha == self.sha,
            base_wgo(r.base) == base_wgo(self.base),
            base_registry(r.base) == base_registry(self.base),
            base_unknown(r.base) == base_unknown(self.base),
            base_lookup_bits(r.base) == base_lookup_bits(self.base),
            base_k(r.base) == base_k(self.base),
            base_phases(r.base) == base_phases(self.base),
            base_break_points(r.base) == base_break_points(self.base),
            self.shares_registry_spec() ==> r.shares_registry_spec(),
    {
        let mut updated = self;
        updated.set_instance_columns(num_instance_columns);
        updated
    }

    /// Replaces the instance list of one column, leaving the others as
    /// they are.
    pub fn set_instances(&mut self, column: usize, assigned_instances: Vec<Cell>)
        requires
            column < base_instance_cols(old(self).base),
        ensures
            base_instances(final(self).base) == base_instances(old(self).base).update(
                column as int,
                assigned_instances@,
            ),
            final(self).sha == old(self).sha,
            base_wgo(final(self).base) == base_wgo(old(self).base),
            base_registry(final(self).base) == base_registry(old(self).base),
            base_unknown(final(self).base) == base_unknown(old(self).base),
            base_lookup_bits(final(self).base) == base_lookup_bits(old(self).base),
            base_k(final(self).base) == base_k(old(self).base),
            base_phases(final(self).base) == base_phases(old(self).base),
            base_break_points(final(self).base) == base_break_points(old(self).base),
            old(self).shares_registry_spec() ==> final(self).shares_registry_spec(),
    {
        self.base.store_instances(column, assigned_instances)
    }

    /// Returns `self` with the instance list of one column replaced.
    pub fn use_instances(self, column: usize, assigned_instances: Vec<Cell>) -> (r: Self)
        requires
            column < base_instance_cols(self.base),
        ensures
            base_instances(r.base) == base_instances(self.base).update(
                column as int,
                assigned_instances@,
            ),
            r.sha == self.sha,
            base_wgo(r.base) == base_wgo(self.base),
            base_registry(r.base) == base_registry(self.base),
            base_unknown(r.base) == base_unknown(self.base),
            base_lookup_bits(r.base) == base_lookup_bits(self.base),
            base_k(r.base) == base_k(self.base),
            base_phases(r.base) == base_phases(self.base),
            base_break_points(r.base) == base_break_points(self.base),
            self.shares_registry_spec() ==> r.shares_registry_spec(),
    {
        let mut updated = self;
        updated.set_instances(column, assigned_instances);
        updated
    }

    /// Sets `k`, the log-2 of the circuit's row count.
    pub fn set_k(&mut self, k: usize)
        ensures
            base_k(final(self).base) == k,
            final(self).sha == old(self).sha,
            base_wgo(final(self).base) == base_wgo(old(self).base),
            base_registry(final(self).base) == base_registry(old(self).base),
            base_unknown(final(self).base) == base_unknown(old(self).base),
            base_lookup_bits(final(self).base) == base_lookup_bits(old(self).base),
            base_instances(final(self).base) == base_instances(old(self).base),
            base_phases(final(self).base) == base_phases(old(self).base),
            base_break_points(final(self).base) == base_break_points(old(self).base),
            old(self).shares_registry_spec() ==> final(self).shares_registry_spec(),
    {
        self.base.set_k(k)
    }

    /// Returns `self` with `k` set.
    pub fn use_k(self, k: usize) -> (r: Self)
        ensures
            base_k(r.base) == k,
            r.sha == self.sha,
            base_wgo(r.base) == base_wgo(self.base),
            base_registry(r.base) == base_registry(self.base),
            base_unknown(r.base) == base_unknown(self.base),
            base_lookup_bits(r.base) == base_lookup_bits(self.base),
            base_instances(r.base) == base_instances(self.base),
            base_phases(r.base) == base_phases(self.base),
            base_break_points(r.base) == base_break_points(self.base),
            self.shares_registry_spec() ==> r.shares_registry_spec(),
    {
        let mut updated = self;
        updated.set_k(k);
        updated
    }

    /// Stores a full parameter record; the instance columns grow to the
    /// record's count.
    pub fn set_params(&mut self, params: &BaseCircuitParams)
        requires
            base_instance_cols(old(self).base) <= params_instance_cols(*params),
        ensures
            base_instances(final(self).base).len() == params_instance_cols(*params),
            forall|i: int|
                0 <= i < base_instances(old(self).base).len() ==> #[trigger] base_instances(
                    final(self).base,
                )[i] == base_instances(old(self).base)[i],
            final(self).sha == old(self).sha,
            base_wgo(final(self).base) == base_wgo(old(self).base),
            base_registry(final(self).base) == base_registry(old(self).base),
            base_unknown(final(self).base) == base_unknown(old(self).base),
            base_phases(final(self).base) == base_phases(old(self).base),
            base_break_points(final(self).base) == base_break_points(old(self).base),
            old(self).shares_registry_spec() ==> final(self).shares_registry_spec(),
    {
        self.base.set_params(params)
    }

    /// Returns `self` with a full parameter record stored.
    pub fn use_params(self, params: &BaseCircuitParams) -> (r: Self)
        requires
            base_instance_cols(self.base) <= params_instance_cols(*params),
        ensures
            base_instances(r.base).len() == params_instance_cols(*params),
            forall|i: int|
                0 <= i < base_instances(self.base).len() ==> #[trigger] base_instances(r.base)[i]
                    == base_instances(self.base)[i],
            r.sha == self.sha,
            base_wgo(r.base) == base_wgo(self.base),
            base_registry(r.base) == base_registry(self.base),
            base_unknown(r.base) == base_unknown(self.base),
            base_phases(r.base) == base_phases(self.base),
            base_break_points(r.base) == base_break_points(self.base),
            self.shares_registry_spec() ==> r.shares_registry_spec(),
    {
        let mut updated = self;
        updated.set_params(params);
        updated
    }

    /// Sets the multi-phase break points: a non-empty list grows the
    /// phases to its length and stores one entry per phase; the empty list
    /// is a no-op.
    pub fn set_break_points(&mut self, break_points: Vec<Vec<usize>>)
        requires
            break_points@.len() == 0 || base_phases(old(self).base) <= break_points@.len(),
        ensures
            break_points@.len() > 0 ==> base_break_points(final(self).base)
                == break_points.deep_view() && base_phases(final(self).base)
                == break_points@.len(),
            break_points@.len() == 0 ==> base_break_points(final(self).base) == base_break_points(
                old(self).base,
            ) && base_phases(final(self).base) == base_phases(old(self).base),
            final(self).sha == old(self).sha,
            base_wgo(final(self).base) == base_wgo(old(self).base),
            base_registry(final(self).base) == base_registry(old(self).base),
            base_unknown(final(self).base) == base_unknown(old(self).base),
            base_lookup_bits(final(self).base) == base_lookup_bits(old(self).base),
            base_k(final(self).base) == base_k(old(self).base),
            base_instances(final(self).base) == base_instances(old(self).base),
            old(self).shares_registry_spec() ==> final(self).shares_registry_spec(),
    {
        self.base.set_break_points(break_points)
    }

    /// Returns `self` with the multi-phase break points set.
    pub fn use_break_points(self, break_points: Vec<Vec<usize>>) -> (r: Self)
        requires
            break_points@.len() == 0 || base_phases(self.base) <= break_points@.len(),
        ensures
            break_points@.len() > 0 ==> base_break_points(r.base) == break_points.deep_view()
                && base_phases(r.base) == break_points@.len(),
            break_points@.len() == 0 ==> base_break_points(r.base) == base_break_points(self.base)
                && base_phases(r.base) == base_phases(self.base),
            r.sha == self.sha,
            base_wgo(r.base) == base_wgo(self.base),
            base_registry(r.base) == base_registry(self.base),
            base_unknown(r.base) == base_unknown(self.base),
            base_lookup_bits(r.base) == base_lookup_bits(self.base),
            base_k(r.base) == base_k(self.base),
            base_instances(r.base) == base_instances(self.base),
            self.shares_registry_spec() ==> r.shares_registry_spec(),
    {
        let mut updated = self;
        updated.set_break_points(break_points);
        updated
    }

    /// Computes and stores the circuit's configuration parameters from the
    /// accumulated constraints, and returns the record for the caller to
    /// pass on explicitly.
    pub fn calculate_params(&mut self, minimum_rows: Option<usize>) -> (r: BaseCircuitParams)
        requires
            1 <= base_k(old(self).base) < 64,
            minimum_rows matches Some(m) ==> (m as nat) < pow2(base_k(old(self).base)),
        ensures
            params_instance_cols(r) == base_instance_cols(old(self).base),
            final(self).sha == old(self).sha,
            base_wgo(final(self).base) == base_wgo(old(self).base),
            base_registry(final(self).base) == base_registry(old(self).base),
            base_unknown(final(self).base) == base_unknown(old(self).base),
            base_lookup_bits(final(self).base) == base_lookup_bits(old(self).base),
            base_instances(final(self).base) == base_instances(old(self).base),
            base_phases(final(self).base) == base_phases(old(self).base),
            base_break_points(final(self).base) == base_break_points(old(self).base),
            old(self).shares_registry_spec() ==> final(self).shares_registry_spec(),
    {
        self.base.calculate_params(minimum_rows)
    }

    /// Loads one witness value onto the general builder's first-phase gate
    /// thread: general-side emission for callers that mix plain witnesses
    /// with spread-gadget work.
    pub fn load_base_witness(&mut self, value: u64) -> (r: Cell)
        ensures
            crate::backend::cell_val(r) == value as nat,
            crate::backend::cell_concrete(r),
            crate::backend::cell_tracked(r) == !base_wgo(old(self).base),
            final(self).sha == old(self).sha,
            base_wgo(final(self).base) == base_wgo(old(self).base),
            base_registry(final(self).base) == base_registry(old(self).base),
            base_unknown(final(self).base) == base_unknown(old(self).base),
            base_lookup_bits(final(self).base) == base_lookup_bits(old(self).base),
            base_k(final(self).base) == base_k(old(self).base),
            base_instances(final(self).base) == base_instances(old(self).base),
            base_phases(final(self).base) == base_phases(old(self).base),
            base_break_points(final(self).base) == base_break_points(old(self).base),
            old(self).shares_registry_spec() ==> final(self).shares_registry_spec(),
    {
        self.base.load_witness_main(value)
    }

    /// Hands out the general builder and the hash-domain working region
    /// together, so one call site can mix general and spread-gadget
    /// emission while both report to the shared registry.  The first
    /// component is the whole general builder rather than its phase-0
    /// working region: the backend's region type cannot be handed out
    /// through the verified boundary, so general-side emission goes
    /// through the builder handle.
    pub fn sha_contexts_pair(&mut self) -> (r: (&mut GeneralBuilder, &mut Region))
        ensures
            *r.0 == old(self).base,
            *r.1 == old(self).sha.custom_region(),
            *final(self) == (ShaCircuitBuilder {
                base: *final(r.0),
                sha: old(self).sha.with_custom_region(*final(r.1)),
            }),
    {
        (&mut self.base, self.sha.custom_context())
    }

    /// Sets the lookup width and builds the range-check service over the
    /// general builder's lookup tables.  The backend supports widths of 1
    /// through 28 only.
    pub fn range_chip(&mut self, lookup_bits: usize) -> (r: RangeService)
        requires
            1 <= lookup_bits <= 28,
        ensures
            rc_lookup_bits(r) == lookup_bits,
            base_lookup_bits(final(self).base) == Some(lookup_bits),
            Self::same_but_lookup_bits(*final(self), *old(self)),
            old(self).shares_registry_spec() ==> final(self).shares_registry_spec(),
    {
        self.base.set_lookup_bits(lookup_bits);
        self.base.range_chip()
    }
}

} // verus!
