use sha256_spread::backend::Registry;
use sha256_spread::builder::{CircuitBuilderStage, ShaCircuitBuilder};
use sha256_spread::gates::{CommonCircuitBuilder, CommonGateManager, ShaGateManager};

/// Lifecycle invariant: keygen sets `unknown` on both sub-builders, mock
/// and prover leave it clear.
#[test]
fn lifecycle_unknown_flags() {
    let b = ShaCircuitBuilder::keygen();
    assert_eq!(b.unknown_flags(), (true, true));

    let b = ShaCircuitBuilder::mock();
    assert_eq!(b.unknown_flags(), (false, false));

    let b = ShaCircuitBuilder::prover();
    assert_eq!(b.unknown_flags(), (false, false));
}

/// The explicit `unknown` call overrides the stage's choice on both
/// sub-builders.
#[test]
fn unknown_override() {
    let b = ShaCircuitBuilder::mock().unknown(true);
    assert_eq!(b.unknown_flags(), (true, true));
    let b = ShaCircuitBuilder::keygen().unknown(false);
    assert_eq!(b.unknown_flags(), (false, false));
}

/// Whichever stage a composite is built for, its two halves come out
/// holding one and the same registry, while a registry made elsewhere is a
/// different one.
#[test]
fn shared_registry_every_stage() {
    for stage in [CircuitBuilderStage::Keygen, CircuitBuilderStage::Mock,
        CircuitBuilderStage::Prover] {
        let b = ShaCircuitBuilder::from_stage(stage);
        assert!(b.shares_registry());
        let foreign = Registry::new();
        assert!(!b.sha.copy_manager.same_as(&foreign));
    }
}

/// A gate manager built on its own holds its own registry until it is
/// re-pointed by `use_copy_manager`.
#[test]
fn gate_manager_rewiring() {
    let b = ShaCircuitBuilder::mock();
    let target = b.base.copy_manager();
    let gm = ShaGateManager::new(false);
    assert!(!gm.copy_manager.same_as(&target));
    let gm = gm.use_copy_manager(b.base.copy_manager());
    assert!(gm.copy_manager.same_as(&target));
}

/// The configuration setters and their fluent variants store what they are
/// given.
#[test]
fn configuration_round_trip() {
    let mut b = ShaCircuitBuilder::mock();
    assert_eq!(b.lookup_bits(), None);
    b.set_lookup_bits(8);
    assert_eq!(b.lookup_bits(), Some(8));

    let b = ShaCircuitBuilder::mock().use_lookup_bits(12).use_k(10).use_instance_columns(2);
    assert_eq!(b.lookup_bits(), Some(12));
    assert_eq!(b.k(), 10);
    assert!(b.shares_registry());
}

/// Sizing: `calculate_params` returns the computed record (with the
/// builder's instance-column count) instead of publishing it ambiently,
/// and the record can be stored again.
#[test]
fn calculate_and_reuse_params() {
    let mut b = ShaCircuitBuilder::mock().use_k(10).use_lookup_bits(8).use_instance_columns(1);
    let range = b.range_chip(8);
    {
        let (_, region) = b.sha_contexts_pair();
        let x = region.load_witness(7);
        let y = region.load_witness(9);
        let _ = range.mul_add(region, &x, 3, &y);
    }
    let params = b.calculate_params(Some(9));
    let mut fresh = ShaCircuitBuilder::keygen();
    fresh.set_params(&params);
    assert!(fresh.shares_registry());
}

/// Instance lists can be stored per column once the columns exist, and
/// witnesses can be loaded onto the general builder's own thread.
#[test]
fn store_instances() {
    let mut b = ShaCircuitBuilder::mock().use_lookup_bits(8).use_instance_columns(1);
    let cell = b.load_base_witness(42);
    assert_eq!(cell.value_u64(), 42);
    b.set_instances(0, vec![cell]);
    let b = b.use_instances(0, vec![]);
    assert!(b.shares_registry());
}

/// Break points distribute over the materialized phases; the empty list is
/// a no-op.
#[test]
fn break_points() {
    let mut b = ShaCircuitBuilder::mock();
    b.set_break_points(vec![]);
    b.set_break_points(vec![vec![]]);
    let b = b.use_break_points(vec![vec![]]);
    assert!(b.shares_registry());
}

/// Both accessors of the spread-side manager reach a usable working
/// region.
#[test]
fn manager_regions() {
    let mut gm = ShaGateManager::new(false);
    let c = gm.main().load_witness(11);
    assert_eq!(c.value_u64(), 11);
    let c2 = gm.custom_context().load_witness(12);
    assert_eq!(c2.value_u64(), 12);
}
