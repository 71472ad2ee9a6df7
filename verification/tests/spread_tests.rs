use sha256_spread::backend::{Region, Registry};
use sha256_spread::bits::{and_value, even_part, odd_part, pow2_u64, spread_value, xor_value};
use sha256_spread::builder::ShaCircuitBuilder;
use sha256_spread::spread::SpreadChip;

/// Round trip: every bit of a 16-bit value lands on the even position of
/// its spread form, and every odd position is zero.
#[test]
fn spread_round_trip_bits() {
    for v in [0u64, 1, 2, 5, 6, 0x8000, 0xABCD, 0xFFFF] {
        let s = spread_value(v, 16);
        for i in 0..16u64 {
            assert_eq!((s >> (2 * i)) & 1, (v >> i) & 1);
            assert_eq!((s >> (2 * i + 1)) & 1, 0);
        }
        assert_eq!(even_part(s, 16), v);
        assert_eq!(odd_part(s, 16), 0);
    }
}

/// Exact spread values: each dense bit contributes `4^i`.
#[test]
fn spread_exact_values() {
    assert_eq!(spread_value(0, 16), 0);
    assert_eq!(spread_value(1, 16), 1);
    assert_eq!(spread_value(2, 16), 4);
    assert_eq!(spread_value(5, 16), 17);
    assert_eq!(spread_value(3, 16), 5);
    assert_eq!(spread_value(0xFFFF, 16), 0x5555_5555);
}

/// The even/odd decomposition picks exactly the even- and odd-position
/// bits, and both results are 16-bit values.
#[test]
fn even_odd_inverse() {
    for s in [0u64, 1, 2, 3, 22, 0x5555_5555, 0xAAAA_AAAA, 0xFFFF_FFFF, 0x1234_5678] {
        let e = even_part(s, 16);
        let o = odd_part(s, 16);
        let mut expect_e = 0u64;
        let mut expect_o = 0u64;
        for i in 0..16u64 {
            expect_e += ((s >> (2 * i)) & 1) << i;
            expect_o += ((s >> (2 * i + 1)) & 1) << i;
        }
        assert_eq!(e, expect_e);
        assert_eq!(o, expect_o);
        assert!(e < 1 << 16);
        assert!(o < 1 << 16);
    }
}

/// Linking-constraint composition on plain values: the sum of two spread
/// forms decomposes into the xor word and the and word.
#[test]
fn linking_composition_values() {
    let a = 5u64;
    let b = 3u64;
    let sum = spread_value(a, 16) + spread_value(b, 16);
    assert_eq!(sum, 22);
    let e = even_part(sum, 16);
    let o = odd_part(sum, 16);
    assert_eq!(e, 6);
    assert_eq!(o, 1);
    assert_eq!(e, a ^ b);
    assert_eq!(o, a & b);
    // The linking equation the caller must constrain.
    assert_eq!(sum, spread_value(e, 16) + 2 * spread_value(o, 16));
    assert_eq!(xor_value(a, b, 16), 6);
    assert_eq!(and_value(a, b, 16), 1);
}

/// Linking-constraint composition end to end through the gadget: spread
/// two witnesses, add them with the general gate, decompose, and read the
/// xor/and words back.
#[test]
fn linking_composition_in_circuit() {
    let mut builder = ShaCircuitBuilder::mock();
    let range = builder.range_chip(8);
    let chip = SpreadChip::new(&range, 8);
    let (_, region) = builder.sha_contexts_pair();

    let a = region.load_witness(5);
    let b = region.load_witness(3);
    let sa = chip.spread(region, &a).unwrap();
    let sb = chip.spread(region, &b).unwrap();
    assert_eq!(sa.value_u64(), 17);
    assert_eq!(sb.value_u64(), 5);
    let sum = range.mul_add(region, &sa, 1, &sb);
    assert_eq!(sum.value_u64(), 22);
    let (e, o) = chip.decompose_even_and_odd_unchecked(region, &sum).unwrap();
    assert_eq!(e.value_u64(), 6);
    assert_eq!(o.value_u64(), 1);
    // The caller-supplied link: sum = spread(e) + 2 * spread(o).
    let se = chip.spread(region, &e).unwrap();
    let so = chip.spread(region, &o).unwrap();
    assert_eq!(sum.value_u64(), se.value_u64() + 2 * so.value_u64());
}

/// The gadget computes the same spread for every accepted lookup width.
#[test]
fn spread_same_for_every_width() {
    for width in [1usize, 2, 4, 8, 16] {
        let mut builder = ShaCircuitBuilder::mock();
        let range = builder.range_chip(width.max(2));
        let chip = SpreadChip::new(&range, width);
        let (_, region) = builder.sha_contexts_pair();
        let d = region.load_witness(0xABCD);
        let s = chip.spread(region, &d).unwrap();
        assert_eq!(s.value_u64(), spread_value(0xABCD, 16));
    }
}

/// Limb-width validation: a width that does not divide 16 is refused
/// before any witness emission.
#[test]
fn limb_width_validation() {
    let mut builder = ShaCircuitBuilder::mock();
    let range = builder.range_chip(8);
    assert!(SpreadChip::try_new(&range, 0).is_none());
    assert!(SpreadChip::try_new(&range, 3).is_none());
    assert!(SpreadChip::try_new(&range, 5).is_none());
    assert!(SpreadChip::try_new(&range, 17).is_none());
    assert!(SpreadChip::try_new(&range, 1).is_some());
    assert!(SpreadChip::try_new(&range, 2).is_some());
    assert!(SpreadChip::try_new(&range, 4).is_some());
    assert!(SpreadChip::try_new(&range, 8).is_some());
    assert!(SpreadChip::try_new(&range, 16).is_some());
}

/// Malformed input: a value wider than 16 bits is not rejected; the
/// gadget spreads only the low 16 bits, so the round-trip property fails
/// for it, but nothing crashes.
#[test]
fn malformed_wide_input_no_crash() {
    let mut builder = ShaCircuitBuilder::mock();
    let range = builder.range_chip(8);
    let chip = SpreadChip::new(&range, 8);
    let (_, region) = builder.sha_contexts_pair();
    let wide = 0x15_0005u64;
    let d = region.load_witness(wide);
    let s = chip.spread(region, &d).unwrap();
    // Only the low 16 bits are spread.
    assert_eq!(s.value_u64(), spread_value(wide & 0xFFFF, 16));
    // The round trip recovers the truncation, not the original value.
    assert_ne!(even_part(s.value_u64(), 16), wide);
}

/// The decomposition alone emits no linking constraint, so both halves of
/// an arbitrary 32-bit word still come back range-checked and exact.
#[test]
fn decompose_arbitrary_word() {
    let registry = Registry::new();
    let mut builder = ShaCircuitBuilder::mock();
    let range = builder.range_chip(8);
    let chip = SpreadChip::new(&range, 8);
    let mut region = Region::new(false, 1, &registry);
    let s = region.load_witness(0xDEAD_BEEF);
    let (e, o) = chip.decompose_even_and_odd_unchecked(&mut region, &s).unwrap();
    assert_eq!(e.value_u64(), even_part(0xDEAD_BEEF, 16));
    assert_eq!(o.value_u64(), odd_part(0xDEAD_BEEF, 16));
    assert!(e.value_u64() < 1 << 16);
    assert!(o.value_u64() < 1 << 16);
}

/// The machine-word power-of-two helper matches shifting.
#[test]
fn pow2_helper() {
    assert_eq!(pow2_u64(0), 1);
    assert_eq!(pow2_u64(16), 65536);
    assert_eq!(pow2_u64(63), 1 << 63);
}

/// In prover mode the builder skips constraint bookkeeping; the gadget
/// still computes the same spread witnesses.
#[test]
fn spread_in_prover_mode() {
    let mut builder = ShaCircuitBuilder::prover();
    let range = builder.range_chip(8);
    let chip = SpreadChip::new(&range, 8);
    let (_, region) = builder.sha_contexts_pair();
    let d = region.load_witness(0x1234);
    let s = chip.spread(region, &d).unwrap();
    assert_eq!(s.value_u64(), spread_value(0x1234, 16));
}
