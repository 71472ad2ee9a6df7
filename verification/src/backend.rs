//! The trusted boundary to the arithmetic-circuit backend.
//!
//! Everything the library needs from the backend crate passes through the
//! wrapper types and functions in this module.  Each wrapper type holds one
//! backend value in a private field; what the library's contracts say about
//! such a value is carried by the uninterpreted functions below: the
//! canonical integer a witness cell holds (`cell_val`), whether it holds it
//! directly rather than as an unevaluated fraction (`cell_concrete`), which
//! copy-constraint registry a region or builder reports to, the
//! configuration items of the general builder, and a region's emission
//! history (`region_log`): every witness cell appended to its advice
//! column, in order, and — when the region records constraints — every
//! advice-to-advice equality recorded through it.  Constant bindings and
//! queued range lookups are not part of the history.  An equality event is
//! oriented with its source cell first: an explicit equality keeps its two
//! arguments in argument order, and the copy binding a gate emission makes
//! of an input cell names that input first and its freshly appended copy
//! second (the backend stores that same pair with the fresh copy first;
//! the orientation here is the model's, fixed once for all contracts
//! below).  A `Registry` value stands for one shared registry allocation:
//! two `Registry` values are equal exactly when they are handles to the
//! same allocation.

use vstd::prelude::*;
use vstd::arithmetic::power2::pow2;
use halo2_base::AssignedValue;
use halo2_base::Context;
use halo2_base::QuantumCell;
use halo2_base::gates::GateInstructions;
use halo2_base::gates::RangeChip;
use halo2_base::gates::RangeInstructions;
use halo2_base::gates::circuit::BaseCircuitParams;
use halo2_base::gates::circuit::builder::BaseCircuitBuilder;
use halo2_base::virtual_region::copy_constraints::SharedCopyConstraintManager;
use halo2_base::halo2_proofs::halo2curves::bn256::Fr;

verus! {

#[verifier::external_type_specification]
#[verifier::external_body]
pub struct ExBaseCircuitParams(halo2_base::gates::circuit::BaseCircuitParams);

#[verifier::external_type_specification]
#[verifier::external_body]
pub struct ExPlonkError(halo2_base::halo2_proofs::plonk::Error);

/// A witness cell: a scalar-field value bound to a circuit cell.
#[verifier::external_body]
pub struct Cell {
    inner: AssignedValue<Fr>,
}

/// A virtual region: an append-only sequence of witness cells with local
/// constraints, reporting equalities to a shared registry.
#[verifier::external_body]
pub struct Region {
    inner: Context<Fr>,
}

/// A handle to a shared copy-constraint registry.
#[verifier::external_body]
pub struct Registry {
    inner: SharedCopyConstraintManager<Fr>,
}

/// The lookup-table-backed range-check service of the backend.
#[verifier::external_body]
pub struct RangeService {
    inner: RangeChip<Fr>,
}

/// The general-purpose multi-phase circuit builder of the backend.
#[verifier::external_body]
pub struct GeneralBuilder {
    inner: BaseCircuitBuilder<Fr>,
}

/// One record in a region's emission history.
pub enum Emission {
    /// A witness cell appended to the region's advice column.
    Witness(Cell),
    /// An advice-to-advice equality constraint recorded through the region,
    /// source cell first (see the module doc for the orientation).
    Equality(Cell, Cell),
}

/// The canonical integer a witness cell carries.
pub uninterp spec fn cell_val(a: Cell) -> nat;

/// Whether a witness cell holds its value directly (not as an unevaluated
/// fraction), so that reading it back cannot fail.
pub uninterp spec fn cell_concrete(a: Cell) -> bool;

/// Whether a witness cell carries a reference to its position.  Cells made
/// in a region that records constraints do; cells made in a
/// witness-generation-only region do not, and feeding one to a recording
/// region's equality constraint would fail.
pub uninterp spec fn cell_tracked(a: Cell) -> bool;

/// Whether a virtual region records constraint information (true for key
/// generation and mock proving, false for witness generation only).
pub uninterp spec fn region_tracking(c: Region) -> bool;

/// The registry a virtual region reports its equalities to.
pub uninterp spec fn region_registry(c: Region) -> Registry;

/// The emission history of a virtual region: its appended witness cells
/// and, when it records constraints, the equalities recorded through it.
pub uninterp spec fn region_log(c: Region) -> Seq<Emission>;

/// The registry owned by the general builder's first phase.
pub uninterp spec fn base_registry(b: GeneralBuilder) -> Registry;

/// Whether the general builder was built for witness generation only.
pub uninterp spec fn base_wgo(b: GeneralBuilder) -> bool;

/// The `use_unknown` flag of the general builder.
pub uninterp spec fn base_unknown(b: GeneralBuilder) -> bool;

/// The configured lookup-table width of the general builder, if set.
pub uninterp spec fn base_lookup_bits(b: GeneralBuilder) -> Option<usize>;

/// The configured log-2 circuit size of the general builder.
pub uninterp spec fn base_k(b: GeneralBuilder) -> nat;

/// The instance lists of the general builder, one per instance column.
pub uninterp spec fn base_instances(b: GeneralBuilder) -> Seq<Seq<Cell>>;

/// The number of instance columns of the general builder.
pub open spec fn base_instance_cols(b: GeneralBuilder) -> nat {
    base_instances(b).len()
}

/// The number of challenge phases the general builder has materialized.
pub uninterp spec fn base_phases(b: GeneralBuilder) -> nat;

/// The per-phase break points stored in the general builder; the value is
/// unspecified for phases whose break points were never stored.
pub uninterp spec fn base_break_points(b: GeneralBuilder) -> Seq<Seq<usize>>;

/// The number of instance columns recorded in a parameter record.
pub uninterp spec fn params_instance_cols(p: BaseCircuitParams) -> nat;

/// The lookup-table width a range service was built with.
pub uninterp spec fn rc_lookup_bits(rc: RangeService) -> nat;

impl Registry {
    /// Relies on `SharedCopyConstraintManager::default`: a fresh, empty
    /// registry allocation.
    #[verifier::external_body]
    pub fn new() -> (r: Registry) {
        Registry { inner: SharedCopyConstraintManager::<Fr>::default() }
    }

    /// Relies on `Arc::ptr_eq`: true exactly when the two handles point to
    /// the same registry allocation, which is what equality of `Registry`
    /// values means.
    #[verifier::external_body]
    pub fn same_as(&self, other: &Registry) -> (r: bool)
        ensures
            r == (*self == *other),
    {
        std::sync::Arc::ptr_eq(&self.inner, &other.inner)
    }
}

impl Region {
    /// Relies on `Context::new` and `Arc::clone`: a fresh virtual region
    /// reporting to the given registry.  The region tag names this crate's
    /// domain together with the caller-chosen `context_id`, which must be
    /// unique among live regions sharing one registry, as the backend
    /// requires of its cell names.
    #[verifier::external_body]
    pub fn new(witness_gen_only: bool, context_id: usize, registry: &Registry) -> (r: Region)
        ensures
            region_registry(r) == *registry,
            region_tracking(r) == !witness_gen_only,
            region_log(r) == Seq::<Emission>::empty(),
    {
        Region {
            inner: Context::new(
                witness_gen_only,
                0,
                "sha256_spread:region",
                context_id,
                registry.inner.clone(),
            ),
        }
    }

    /// Relies on the public `copy_manager` field of `Context` and
    /// `Arc::clone`: the region reports to the given registry from now on;
    /// its advice cells and past history are untouched.
    #[verifier::external_body]
    pub fn set_registry(&mut self, registry: &Registry)
        ensures
            region_registry(*final(self)) == *registry,
            region_tracking(*final(self)) == region_tracking(*old(self)),
            region_log(*final(self)) == region_log(*old(self)),
    {
        self.inner.copy_manager = registry.inner.clone();
    }

    /// Relies on `Context::load_witness`: it appends one advice cell
    /// holding exactly the given value.
    #[verifier::external_body]
    pub fn load_witness(&mut self, value: u64) -> (r: Cell)
        ensures
            cell_val(r) == value as nat,
            cell_concrete(r),
            cell_tracked(r) == region_tracking(*old(self)),
            region_registry(*final(self)) == region_registry(*old(self)),
            region_tracking(*final(self)) == region_tracking(*old(self)),
            region_log(*final(self)) == region_log(*old(self)).push(Emission::Witness(r)),
    {
        Cell { inner: self.inner.load_witness(Fr::from(value)) }
    }

    /// Relies on `Context::load_zero`: it returns a cell constrained to
    /// zero, appending one only when no zero cell was cached yet.
    #[verifier::external_body]
    pub fn load_zero(&mut self) -> (r: Cell)
        ensures
            cell_val(r) == 0,
            cell_concrete(r),
            cell_tracked(r) == region_tracking(*old(self)),
            region_registry(*final(self)) == region_registry(*old(self)),
            region_tracking(*final(self)) == region_tracking(*old(self)),
            region_log(*final(self)) == region_log(*old(self)) || region_log(*final(self))
                == region_log(*old(self)).push(Emission::Witness(r)),
    {
        Cell { inner: self.inner.load_zero() }
    }

    /// Relies on `Context::assign_witnesses`: it appends one advice cell
    /// per value, each holding exactly that value.
    #[verifier::external_body]
    pub fn assign_witnesses(&mut self, values: &Vec<u64>) -> (r: Vec<Cell>)
        ensures
            r@.len() == values@.len(),
            forall|i: int|
                0 <= i < r@.len() ==> cell_val(#[trigger] r@[i]) == values@[i] as nat
                    && cell_concrete(r@[i]) && cell_tracked(r@[i]) == region_tracking(
                    *old(self),
                ),
            region_registry(*final(self)) == region_registry(*old(self)),
            region_tracking(*final(self)) == region_tracking(*old(self)),
            region_log(*final(self)) == region_log(*old(self)) + r@.map_values(
                |c: Cell| Emission::Witness(c),
            ),
    {
        self.inner.assign_witnesses(values.iter().map(|v| Fr::from(*v))).into_iter().map(
            |inner| Cell { inner },
        ).collect()
    }

    /// Relies on `Context::constrain_equal`: a recording region pushes the
    /// equality of the two cells, in argument order, to its registry; a
    /// witness-generation-only region records nothing.  A recording region
    /// reads both cells' position references, so untracked cells are
    /// excluded there.
    #[verifier::external_body]
    pub fn constrain_equal(&mut self, a: &Cell, b: &Cell)
        requires
            region_tracking(*old(self)) ==> cell_tracked(*a) && cell_tracked(*b),
        ensures
            region_registry(*final(self)) == region_registry(*old(self)),
            region_tracking(*final(self)) == region_tracking(*old(self)),
            region_tracking(*old(self)) ==> region_log(*final(self)) == region_log(
                *old(self),
            ).push(Emission::Equality(*a, *b)),
            !region_tracking(*old(self)) ==> region_log(*final(self)) == region_log(*old(self)),
    {
        self.inner.constrain_equal(&a.inner, &b.inner)
    }
}

impl Cell {
    /// Relies on `AssignedValue` being `Copy`: an identical cell pointer.
    #[verifier::external_body]
    pub fn copied(&self) -> (r: Cell)
        ensures
            r == *self,
    {
        Cell { inner: self.inner }
    }

    /// Relies on `AssignedValue::value` and `ScalarField::get_lower_64`:
    /// the low 64 bits of the canonical encoding of the cell's value.
    #[verifier::external_body]
    pub fn value_u64(&self) -> (r: u64)
        requires
            cell_concrete(*self),
        ensures
            r as nat == cell_val(*self) % 0x1_0000_0000_0000_0000,
    {
        halo2_base::utils::ScalarField::get_lower_64(self.inner.value())
    }
}

impl RangeService {
    /// Relies on `GateInstructions::mul_add` of the underlying gate chip,
    /// over the scalar field of order above `2^253`: with the product and
    /// sum held below `2^128` no reduction occurs, so the output cell
    /// carries exactly `a * mult + add_to`.  Four cells go onto the advice
    /// column; where bookkeeping is on, each copied input is bound back to
    /// its source, an event the model orients source-first (see the module
    /// doc), so any fresh equality event names `a` or `add_to` first.
    /// Bookkeeping also reads the inputs' position references, so
    /// untracked cells are excluded there.
    #[verifier::external_body]
    pub fn mul_add(&self, region: &mut Region, a: &Cell, mult: u64, add_to: &Cell) -> (r: Cell)
        requires
            cell_concrete(*a),
            cell_concrete(*add_to),
            region_tracking(*old(region)) ==> cell_tracked(*a) && cell_tracked(*add_to),
            cell_val(*a) * mult + cell_val(*add_to) < pow2(128),
        ensures
            cell_val(r) == cell_val(*a) * mult + cell_val(*add_to),
            cell_concrete(r),
            cell_tracked(r) == region_tracking(*old(region)),
            region_registry(*final(region)) == region_registry(*old(region)),
            region_tracking(*final(region)) == region_tracking(*old(region)),
            region_log(*old(region)).is_prefix_of(region_log(*final(region))),
            forall|i: int|
                region_log(*old(region)).len() <= i < region_log(*final(region)).len() ==> ((
                #[trigger] region_log(*final(region))[i]) matches Emission::Equality(x, y) ==> x
                    == *a || x == *add_to),
    {
        Cell {
            inner: self.inner.gate.mul_add(
                &mut region.inner,
                QuantumCell::Existing(a.inner),
                QuantumCell::Constant(Fr::from(mult)),
                QuantumCell::Existing(add_to.inner),
            ),
        }
    }

    /// Relies on `RangeInstructions::range_check`: it constrains the cell
    /// to the given bit width via the lookup table.  The checked width must
    /// either be a multiple of the table width or fit in one table entry:
    /// otherwise the backend adds extra constraints on an internal top
    /// limb, whose equality events would name that limb rather than `a`.
    /// Under that requirement every fresh equality names `a` first and
    /// binds it to a cell appended within this call.  A zero-width table
    /// or a width beyond the backend's supported 28 panics, so the
    /// requirements exclude those; an out-of-range value is silently
    /// truncated by the decomposition, leaving the emitted constraints
    /// unsatisfiable, so the value bound keeps them meaningful.
    #[verifier::external_body]
    pub fn range_check(&self, region: &mut Region, a: Cell, range_bits: usize)
        requires
            cell_concrete(a),
            region_tracking(*old(region)) ==> cell_tracked(a),
            cell_val(a) < pow2(range_bits as nat),
            1 <= range_bits <= 64,
            1 <= rc_lookup_bits(*self) <= 28,
            range_bits as nat % rc_lookup_bits(*self) == 0 || range_bits as nat <= rc_lookup_bits(
                *self,
            ),
        ensures
            region_registry(*final(region)) == region_registry(*old(region)),
            region_tracking(*final(region)) == region_tracking(*old(region)),
            region_log(*old(region)).is_prefix_of(region_log(*final(region))),
            forall|i: int|
                region_log(*old(region)).len() <= i < region_log(*final(region)).len() ==> ((
                #[trigger] region_log(*final(region))[i]) matches Emission::Equality(x, y) ==> x
                    == a && exists|j: int|
                    region_log(*old(region)).len() <= j < region_log(*final(region)).len()
                        && region_log(*final(region))[j] == Emission::Witness(y)),
    {
        self.inner.range_check(&mut region.inner, a.inner, range_bits)
    }
}

impl GeneralBuilder {
    /// Relies on `BaseCircuitBuilder::new`: a fresh builder has no
    /// configuration set, `use_unknown` false, no instance columns, one
    /// phase with a freshly created registry, and the given witness-only
    /// mode.
    #[verifier::external_body]
    pub fn new(witness_gen_only: bool) -> (r: GeneralBuilder)
        ensures
            base_wgo(r) == witness_gen_only,
            !base_unknown(r),
            base_lookup_bits(r) is None,
            base_k(r) == 0,
            base_instances(r) == Seq::<Seq<Cell>>::empty(),
            base_phases(r) == 1,
    {
        GeneralBuilder { inner: BaseCircuitBuilder::new(witness_gen_only) }
    }

    /// Relies on `BaseCircuitBuilder::unknown`: it sets the `use_unknown`
    /// flag on every phase manager and touches nothing else.
    #[verifier::external_body]
    pub fn unknown(self, use_unknown: bool) -> (r: GeneralBuilder)
        ensures
            base_unknown(r) == use_unknown,
            base_wgo(r) == base_wgo(self),
            base_registry(r) == base_registry(self),
            base_lookup_bits(r) == base_lookup_bits(self),
            base_k(r) == base_k(self),
            base_instances(r) == base_instances(self),
            base_phases(r) == base_phases(self),
            base_break_points(r) == base_break_points(self),
    {
        GeneralBuilder { inner: self.inner.unknown(use_unknown) }
    }

    /// Relies on the `copy_manager` field of the first phase manager and
    /// on `Arc::clone`: a handle to the builder's own registry.
    #[verifier::external_body]
    pub fn copy_manager(&self) -> (r: Registry)
        ensures
            r == base_registry(*self),
    {
        Registry { inner: self.inner.core().phase_manager[0].copy_manager.clone() }
    }

    /// Relies on the `use_unknown` getter of the builder's core manager: it
    /// reads the `unknown`-witness flag.
    #[verifier::external_body]
    pub fn is_unknown(&self) -> (r: bool)
        ensures
            r == base_unknown(*self),
    {
        self.inner.core().use_unknown()
    }

    /// Relies on `BaseCircuitBuilder::lookup_bits`: it reads the configured
    /// lookup width.
    #[verifier::external_body]
    pub fn lookup_bits(&self) -> (r: Option<usize>)
        ensures
            r == base_lookup_bits(*self),
    {
        self.inner.lookup_bits()
    }

    /// Relies on the public `k` field of the builder's configuration
    /// record.
    #[verifier::external_body]
    pub fn k(&self) -> (r: usize)
        ensures
            r == base_k(*self),
    {
        self.inner.config_params.k
    }

    /// Relies on `BaseCircuitBuilder::set_lookup_bits`: it stores the
    /// lookup width and touches nothing else.
    #[verifier::external_body]
    pub fn set_lookup_bits(&mut self, lookup_bits: usize)
        ensures
            base_lookup_bits(*final(self)) == Some(lookup_bits),
            base_wgo(*final(self)) == base_wgo(*old(self)),
            base_registry(*final(self)) == base_registry(*old(self)),
            base_unknown(*final(self)) == base_unknown(*old(self)),
            base_k(*final(self)) == base_k(*old(self)),
            base_instances(*final(self)) == base_instances(*old(self)),
            base_phases(*final(self)) == base_phases(*old(self)),
            base_break_points(*final(self)) == base_break_points(*old(self)),
    {
        self.inner.set_lookup_bits(lookup_bits)
    }

    /// Relies on `BaseCircuitBuilder::set_k`: it stores the log-2 circuit
    /// size and touches nothing else.
    #[verifier::external_body]
    pub fn set_k(&mut self, k: usize)
        ensures
            base_k(*final(self)) == k,
            base_wgo(*final(self)) == base_wgo(*old(self)),
            base_registry(*final(self)) == base_registry(*old(self)),
            base_unknown(*final(self)) == base_unknown(*old(self)),
            base_lookup_bits(*final(self)) == base_lookup_bits(*old(self)),
            base_instances(*final(self)) == base_instances(*old(self)),
            base_phases(*final(self)) == base_phases(*old(self)),
            base_break_points(*final(self)) == base_break_points(*old(self)),
    {
        self.inner.set_k(k)
    }

    /// Relies on `BaseCircuitBuilder::set_instance_columns`: it grows
    /// `assigned_instances` to the requested count with empty lists,
    /// keeping the existing ones; it panics when asked to shrink, so the
    /// requirement excludes that.
    #[verifier::external_body]
    pub fn set_instance_columns(&mut self, num_instance_columns: usize)
        requires
            base_instance_cols(*old(self)) <= num_instance_columns,
        ensures
            base_instances(*final(self)).len() == num_instance_columns,
            forall|i: int|
                0 <= i < base_instances(*old(self)).len() ==> #[trigger] base_instances(
                    *final(self),
                )[i] == base_instances(*old(self))[i],
            forall|i: int|
                base_instances(*old(self)).len() <= i < num_instance_columns
                    ==> #[trigger] base_instances(*final(self))[i] == Seq::<Cell>::empty(),
            base_wgo(*final(self)) == base_wgo(*old(self)),
            base_registry(*final(self)) == base_registry(*old(self)),
            base_unknown(*final(self)) == base_unknown(*old(self)),
            base_lookup_bits(*final(self)) == base_lookup_bits(*old(self)),
            base_k(*final(self)) == base_k(*old(self)),
            base_phases(*final(self)) == base_phases(*old(self)),
            base_break_points(*final(self)) == base_break_points(*old(self)),
    {
        self.inner.set_instance_columns(num_instance_columns)
    }

    /// Relies on the public `assigned_instances` field: one column's
    /// instance list is replaced wholesale, every other column untouched.
    #[verifier::external_body]
    pub fn store_instances(&mut self, column: usize, assigned_instances: Vec<Cell>)
        requires
            column < base_instance_cols(*old(self)),
        ensures
            base_instances(*final(self)) == base_instances(*old(self)).update(
                column as int,
                assigned_instances@,
            ),
            base_wgo(*final(self)) == base_wgo(*old(self)),
            base_registry(*final(self)) == base_registry(*old(self)),
            base_unknown(*final(self)) == base_unknown(*old(self)),
            base_lookup_bits(*final(self)) == base_lookup_bits(*old(self)),
            base_k(*final(self)) == base_k(*old(self)),
            base_phases(*final(self)) == base_phases(*old(self)),
            base_break_points(*final(self)) == base_break_points(*old(self)),
    {
        self.inner.assigned_instances[column] =
            assigned_instances.into_iter().map(|c| c.inner).collect();
    }

    /// Relies on `BaseCircuitBuilder::set_params`: it stores the parameter
    /// record and grows the instance columns to its count with empty lists;
    /// it panics when asked to shrink them, so the requirement excludes
    /// that.  The stored lookup width and size come from the record and are
    /// no longer tracked.
    #[verifier::external_body]
    pub fn set_params(&mut self, params: &BaseCircuitParams)
        requires
            base_instance_cols(*old(self)) <= params_instance_cols(*params),
        ensures
            base_instances(*final(self)).len() == params_instance_cols(*params),
            forall|i: int|
                0 <= i < base_instances(*old(self)).len() ==> #[trigger] base_instances(
                    *final(self),
                )[i] == base_instances(*old(self))[i],
            forall|i: int|
                base_instances(*old(self)).len() <= i < params_instance_cols(*params)
                    ==> #[trigger] base_instances(*final(self))[i] == Seq::<Cell>::empty(),
            base_wgo(*final(self)) == base_wgo(*old(self)),
            base_registry(*final(self)) == base_registry(*old(self)),
            base_unknown(*final(self)) == base_unknown(*old(self)),
            base_phases(*final(self)) == base_phases(*old(self)),
            base_break_points(*final(self)) == base_break_points(*old(self)),
    {
        self.inner.set_params(params.clone())
    }

    /// Relies on `BaseCircuitBuilder::set_break_points`: a non-empty list
    /// grows the phases to the list's length and stores one entry per
    /// phase; the empty list does nothing.  It panics when the list is
    /// shorter than the phases already materialized, so the requirement
    /// excludes that.
    #[verifier::external_body]
    pub fn set_break_points(&mut self, break_points: Vec<Vec<usize>>)
        requires
            break_points@.len() == 0 || base_phases(*old(self)) <= break_points@.len(),
        ensures
            break_points@.len() > 0 ==> base_break_points(*final(self))
                == break_points.deep_view() && base_phases(*final(self)) == break_points@.len(),
            break_points@.len() == 0 ==> base_break_points(*final(self)) == base_break_points(
                *old(self),
            ) && base_phases(*final(self)) == base_phases(*old(self)),
            base_wgo(*final(self)) == base_wgo(*old(self)),
            base_registry(*final(self)) == base_registry(*old(self)),
            base_unknown(*final(self)) == base_unknown(*old(self)),
            base_lookup_bits(*final(self)) == base_lookup_bits(*old(self)),
            base_k(*final(self)) == base_k(*old(self)),
            base_instances(*final(self)) == base_instances(*old(self)),
    {
        self.inner.set_break_points(break_points)
    }

    /// Relies on `BaseCircuitBuilder::calculate_params`: it computes a
    /// parameter record from the accumulated region statistics and stores
    /// it.  It requires a set size `k`, and `minimum_rows` must leave at
    /// least one usable row.  The computed record keeps the builder's
    /// instance-column count and lookup width; the regions, instances and
    /// break points are only read.
    #[verifier::external_body]
    pub fn calculate_params(&mut self, minimum_rows: Option<usize>) -> (r: BaseCircuitParams)
        requires
            1 <= base_k(*old(self)) < 64,
            minimum_rows matches Some(m) ==> (m as nat) < pow2(base_k(*old(self))),
        ensures
            params_instance_cols(r) == base_instance_cols(*old(self)),
            base_instances(*final(self)) == base_instances(*old(self)),
            base_wgo(*final(self)) == base_wgo(*old(self)),
            base_registry(*final(self)) == base_registry(*old(self)),
            base_unknown(*final(self)) == base_unknown(*old(self)),
            base_lookup_bits(*final(self)) == base_lookup_bits(*old(self)),
            base_phases(*final(self)) == base_phases(*old(self)),
            base_break_points(*final(self)) == base_break_points(*old(self)),
    {
        self.inner.calculate_params(minimum_rows)
    }

    /// Relies on `BaseCircuitBuilder::main` with phase 0 and
    /// `Context::load_witness`: it appends to the first-phase gate thread
    /// one advice cell holding exactly the given value.  The builder's
    /// configuration, regions and registry are otherwise untouched.
    #[verifier::external_body]
    pub fn load_witness_main(&mut self, value: u64) -> (r: Cell)
        ensures
            cell_val(r) == value as nat,
            cell_concrete(r),
            cell_tracked(r) == !base_wgo(*old(self)),
            base_wgo(*final(self)) == base_wgo(*old(self)),
            base_registry(*final(self)) == base_registry(*old(self)),
            base_unknown(*final(self)) == base_unknown(*old(self)),
            base_lookup_bits(*final(self)) == base_lookup_bits(*old(self)),
            base_k(*final(self)) == base_k(*old(self)),
            base_instances(*final(self)) == base_instances(*old(self)),
            base_phases(*final(self)) == base_phases(*old(self)),
            base_break_points(*final(self)) == base_break_points(*old(self)),
    {
        Cell { inner: self.inner.main(0).load_witness(Fr::from(value)) }
    }

    /// Relies on `BaseCircuitBuilder::range_chip`: it builds a range chip
    /// over the builder's lookup managers with the configured lookup width.
    /// It panics when no width is set, and the backend supports widths only
    /// up to 28 (its table sizing shifts by the width and its own
    /// configuration asserts that bound), so the requirement excludes the
    /// rest.
    #[verifier::external_body]
    pub fn range_chip(&self) -> (r: RangeService)
        requires
            base_lookup_bits(*self) matches Some(lb) && 1 <= lb <= 28,
        ensures
            rc_lookup_bits(r) == base_lookup_bits(*self)->Some_0,
    {
        RangeService { inner: self.inner.range_chip() }
    }
}

/// A sequence is a prefix of itself.
pub proof fn lemma_prefix_refl<T>(s: Seq<T>)
    ensures
        s.is_prefix_of(s),
{
    assert(s =~= s.subrange(0, s.len() as int));
}

/// A prefix agrees with the whole at every index it covers.
pub proof fn lemma_prefix_index<T>(a: Seq<T>, b: Seq<T>, i: int)
    requires
        a.is_prefix_of(b),
        0 <= i < a.len(),
    ensures
        a[i] == b[i],
{
    assert(a[i] == b.subrange(0, a.len() as int)[i]);
}

/// A sequence is a prefix of itself with one element appended.
pub proof fn lemma_prefix_push<T>(s: Seq<T>, x: T)
    ensures
        s.is_prefix_of(s.push(x)),
{
    assert(s =~= s.push(x).subrange(0, s.len() as int));
}

/// A sequence is a prefix of itself with another appended.
pub proof fn lemma_prefix_concat<T>(s: Seq<T>, t: Seq<T>)
    ensures
        s.is_prefix_of(s + t),
{
    assert(s =~= (s + t).subrange(0, s.len() as int));
}

/// Being a prefix is transitive.
pub proof fn lemma_prefix_trans<T>(a: Seq<T>, b: Seq<T>, c: Seq<T>)
    requires
        a.is_prefix_of(b),
        b.is_prefix_of(c),
    ensures
        a.is_prefix_of(c),
{
    assert forall|i: int| 0 <= i < a.len() implies a[i] == c.subrange(0, a.len() as int)[i] by {
        assert(a[i] == b.subrange(0, a.len() as int)[i]);
        assert(b[i] == c.subrange(0, b.len() as int)[i]);
    }
    assert(a =~= c.subrange(0, a.len() as int));
}

/// Whatever a prefix contains, the whole contains.
pub proof fn lemma_prefix_contains<T>(a: Seq<T>, b: Seq<T>, x: T)
    requires
        a.is_prefix_of(b),
        a.contains(x),
    ensures
        b.contains(x),
{
    let i = choose|i: int| 0 <= i < a.len() && a[i] == x;
    assert(a[i] == b.subrange(0, a.len() as int)[i]);
    assert(b[i] == x);
}

} // verus!
