//! The arithmetic of the spread encoding.
//!
//! A dense value is read little-endian; its spread form places bit `i` of the
//! dense value at position `2*i` and keeps every odd position zero.  All
//! definitions here recurse on the low bit, so every proof is an induction
//! that peels one dense bit (two spread bits) at a time.

use vstd::prelude::*;
use vstd::arithmetic::power2::{pow2, lemma_pow2_adds, lemma_pow2_pos, lemma_pow2_strictly_increases, lemma2_to64};
use vstd::arithmetic::div_mod::{lemma_fundamental_div_mod_converse, lemma_breakdown, lemma_div_denominator};

verus! {

/// Bit `i` of `v`, read little-endian.
pub open spec fn bit_of(v: nat, i: nat) -> nat {
    (v / pow2(i)) % 2
}

/// The spread form of the low `n` bits of `v`: bit `i` of `v` moves to
/// position `2*i`, every odd position is zero.
pub open spec fn spread_val(v: nat, n: nat) -> nat
    decreases n,
{
    if n == 0 {
        0
    } else {
        (v % 2) + 4 * spread_val(v / 2, (n - 1) as nat)
    }
}

/// The dense value carried by the even-position bits among the low `2*n`
/// bits of `s`.
pub open spec fn even_val(s: nat, n: nat) -> nat
    decreases n,
{
    if n == 0 {
        0
    } else {
        (s % 2) + 2 * even_val(s / 4, (n - 1) as nat)
    }
}

/// The dense value carried by the odd-position bits among the low `2*n`
/// bits of `s`.
pub open spec fn odd_val(s: nat, n: nat) -> nat
    decreases n,
{
    if n == 0 {
        0
    } else {
        ((s / 2) % 2) + 2 * odd_val(s / 4, (n - 1) as nat)
    }
}

/// Bitwise exclusive-or of the low `n` bits of `a` and `b`.
pub open spec fn xor_val(a: nat, b: nat, n: nat) -> nat
    decreases n,
{
    if n == 0 {
        0
    } else {
        ((a + b) % 2) + 2 * xor_val(a / 2, b / 2, (n - 1) as nat)
    }
}

/// Bitwise and of the low `n` bits of `a` and `b`.
pub open spec fn and_val(a: nat, b: nat, n: nat) -> nat
    decreases n,
{
    if n == 0 {
        0
    } else {
        (a % 2) * (b % 2) + 2 * and_val(a / 2, b / 2, (n - 1) as nat)
    }
}

/// The value of limb `j` of `v`, for limbs of `b` bits, low limb first.
pub open spec fn limb_of(v: nat, b: nat, j: nat) -> nat {
    (v / pow2(b * j)) % pow2(b)
}

/// `x == d * q + r` with `r < d` pins down quotient and remainder.
pub proof fn lemma_split(x: nat, d: nat, q: nat, r: nat)
    requires
        0 < d,
        r < d,
        x == d * q + r,
    ensures
        x / d == q,
        x % d == r,
{
    vstd::arithmetic::mul::lemma_mul_is_commutative(q as int, d as int);
    lemma_fundamental_div_mod_converse(x as int, d as int, q as int, r as int);
}

/// The spread of `n` bits fits in `2*n` bits.
pub proof fn lemma_spread_bound(v: nat, n: nat)
    ensures
        spread_val(v, n) < pow2(2 * n),
    decreases n,
{
    if n == 0 {
        lemma2_to64();
    } else {
        lemma_spread_bound(v / 2, (n - 1) as nat);
        lemma_pow2_adds(2, (2 * (n - 1)) as nat);
        lemma2_to64();
        assert(spread_val(v, n) == (v % 2) + 4 * spread_val(v / 2, (n - 1) as nat));
        assert(4 * spread_val(v / 2, (n - 1) as nat) + 4 <= 4 * pow2((2 * (n - 1)) as nat)) by (nonlinear_arith)
            requires
                spread_val(v / 2, (n - 1) as nat) < pow2((2 * (n - 1)) as nat),
        ;
    }
}

/// `even_val` of `n` pairs fits in `n` bits.
pub proof fn lemma_even_bound(s: nat, n: nat)
    ensures
        even_val(s, n) < pow2(n),
    decreases n,
{
    if n == 0 {
        lemma2_to64();
    } else {
        lemma_even_bound(s / 4, (n - 1) as nat);
        lemma_pow2_adds(1, (n - 1) as nat);
        lemma2_to64();
    }
}

/// `odd_val` of `n` pairs fits in `n` bits.
pub proof fn lemma_odd_bound(s: nat, n: nat)
    ensures
        odd_val(s, n) < pow2(n),
    decreases n,
{
    if n == 0 {
        lemma2_to64();
    } else {
        lemma_odd_bound(s / 4, (n - 1) as nat);
        lemma_pow2_adds(1, (n - 1) as nat);
        lemma2_to64();
    }
}

/// `xor_val` and `and_val` of `n` bits fit in `n` bits.
pub proof fn lemma_xor_and_bound(a: nat, b: nat, n: nat)
    ensures
        xor_val(a, b, n) < pow2(n),
        and_val(a, b, n) < pow2(n),
    decreases n,
{
    if n == 0 {
        lemma2_to64();
    } else {
        lemma_xor_and_bound(a / 2, b / 2, (n - 1) as nat);
        lemma_pow2_adds(1, (n - 1) as nat);
        lemma2_to64();
        assert((a % 2) * (b % 2) <= 1) by (nonlinear_arith)
            requires
                a % 2 < 2,
                b % 2 < 2,
        ;
    }
}

/// Reducing the argument modulo `pow2(m)` with `n <= m` does not change the
/// spread of the low `n` bits.
pub proof fn lemma_spread_truncate(v: nat, m: nat, n: nat)
    requires
        n <= m,
    ensures
        spread_val(v % pow2(m), n) == spread_val(v, n),
    decreases n,
{
    if n > 0 {
        let w = v % pow2(m);
        lemma_pow2_adds(1, (m - 1) as nat);
        lemma2_to64();
        lemma_pow2_pos((m - 1) as nat);
        lemma_breakdown(v as int, 2, pow2((m - 1) as nat) as int);
        assert(w == 2 * ((v / 2) % pow2((m - 1) as nat)) + v % 2);
        lemma_split(w, 2, (v / 2) % pow2((m - 1) as nat), v % 2);
        lemma_spread_truncate(v / 2, (m - 1) as nat, (n - 1) as nat);
        assert(spread_val(w, n) == (w % 2) + 4 * spread_val(w / 2, (n - 1) as nat));
        assert(spread_val(v, n) == (v % 2) + 4 * spread_val(v / 2, (n - 1) as nat));
        assert(spread_val(w / 2, (n - 1) as nat) == spread_val(v / 2, (n - 1) as nat));
        assert(spread_val(w, n) == spread_val(v, n));
    } else {
        lemma_pow2_pos(m);
        assert(spread_val(v % pow2(m), 0) == 0);
        assert(spread_val(v, 0) == 0);
    }
}

/// Helper for the even/odd truncation proofs: the low two bits and the
/// upper part of `v % pow2(m)`, for `m >= 2`.
proof fn lemma_mod_pow2_low_pair(v: nat, m: nat)
    requires
        2 <= m,
    ensures
        (v % pow2(m)) % 2 == v % 2,
        ((v % pow2(m)) / 2) % 2 == (v / 2) % 2,
        (v % pow2(m)) / 4 == (v / 4) % pow2((m - 2) as nat),
{
    let w = v % pow2(m);
    let q = (v / 4) % pow2((m - 2) as nat);
    let r = v % 4;
    lemma_pow2_pos((m - 2) as nat);
    lemma_pow2_adds(2, (m - 2) as nat);
    lemma2_to64();
    lemma_breakdown(v as int, 4, pow2((m - 2) as nat) as int);
    assert(w == 4 * q + r);
    lemma_split(w, 4, q, r);
    // Low bits of r agree with the low bits of v.
    lemma_breakdown(v as int, 2, 2);
    assert(r == 2 * ((v / 2) % 2) + v % 2);
    lemma_split(r, 2, (v / 2) % 2, v % 2);
    // w == 2 * (2q + r/2) + r%2 pins w's low bit and half.
    lemma_split(w, 2, 2 * q + r / 2, r % 2);
    assert(w % 2 == v % 2);
    assert(w / 2 == 2 * q + r / 2);
    lemma_split(2 * q + r / 2, 2, q, r / 2);
    assert((w / 2) % 2 == (v / 2) % 2);
}

/// One unfolding of `even_val` and `odd_val`.
proof fn lemma_even_odd_unfold(w: nat, n: nat)
    requires
        n > 0,
    ensures
        even_val(w, n) == (w % 2) + 2 * even_val(w / 4, (n - 1) as nat),
        odd_val(w, n) == ((w / 2) % 2) + 2 * odd_val(w / 4, (n - 1) as nat),
{
}

/// Reducing the argument modulo `pow2(m)` with `2*n <= m` does not change
/// the extracted even or odd words of the low `n` pairs.
pub proof fn lemma_even_odd_truncate(s: nat, m: nat, n: nat)
    requires
        2 * n <= m,
    ensures
        even_val(s % pow2(m), n) == even_val(s, n),
        odd_val(s % pow2(m), n) == odd_val(s, n),
    decreases n,
{
    if n > 0 {
        let w = s % pow2(m);
        lemma_mod_pow2_low_pair(s, m);
        lemma_even_odd_truncate(s / 4, (m - 2) as nat, (n - 1) as nat);
        lemma_even_odd_unfold(w, n);
        lemma_even_odd_unfold(s, n);
    } else {
        lemma_pow2_pos(m);
        assert(even_val(s % pow2(m), 0) == 0);
        assert(odd_val(s % pow2(m), 0) == 0);
    }
}

/// A value below `pow2(b)` has the same spread over any width of at least
/// `b` bits.
pub proof fn lemma_spread_of_small(x: nat, b: nat, n: nat)
    requires
        b <= n,
        x < pow2(b),
    ensures
        spread_val(x, n) == spread_val(x, b),
{
    lemma_spread_split(x, b, (n - b) as nat);
    lemma_pow2_pos(b);
    vstd::arithmetic::div_mod::lemma_basic_div(x as int, pow2(b) as int);
    lemma_spread_zero((n - b) as nat);
}

/// Splitting the low `m + n` bits: the spread of the whole is the spread of
/// the low `m` bits plus the shifted spread of the next `n` bits.
pub proof fn lemma_spread_split(v: nat, m: nat, n: nat)
    ensures
        spread_val(v, m + n) == spread_val(v, m) + pow2(2 * m) * spread_val(v / pow2(m), n),
    decreases m,
{
    if m == 0 {
        lemma2_to64();
        assert(pow2(2 * m) == 1);
        assert(v / pow2(m) == v);
        assert(spread_val(v, m) == 0);
        assert(m + n == n);
        assert(pow2(2 * m) * spread_val(v / pow2(m), n) == spread_val(v, n)) by (nonlinear_arith)
            requires
                pow2(2 * m) == 1,
                v / pow2(m) == v,
        ;
    } else {
        lemma_spread_split(v / 2, (m - 1) as nat, n);
        lemma_pow2_pos((m - 1) as nat);
        lemma_pow2_adds(1, (m - 1) as nat);
        lemma_pow2_adds(2, (2 * (m - 1)) as nat);
        lemma2_to64();
        lemma_div_denominator(v as int, 2, pow2((m - 1) as nat) as int);
        assert((v / 2) / pow2((m - 1) as nat) == v / pow2(m));
        let s1 = spread_val((v / 2), (m - 1) as nat);
        let s2 = spread_val(v / pow2(m), n);
        assert(spread_val(v, m + n) == (v % 2) + 4 * spread_val(v / 2, ((m + n) - 1) as nat));
        assert(spread_val(v / 2, ((m - 1) + n) as nat) == s1 + pow2((2 * (m - 1)) as nat) * s2);
        assert(spread_val(v, m + n) == (v % 2) + 4 * (s1 + pow2((2 * (m - 1)) as nat) * s2));
        assert(4 * (s1 + pow2((2 * (m - 1)) as nat) * s2)
            == 4 * s1 + (4 * pow2((2 * (m - 1)) as nat)) * s2) by (nonlinear_arith);
        assert(spread_val(v, m) == (v % 2) + 4 * s1);
        assert(pow2(2 * m) == 4 * pow2((2 * (m - 1)) as nat));
        assert(spread_val(v, m + n) == (v % 2) + 4 * s1 + pow2(2 * m) * s2);
        assert(spread_val(v, m + n) == spread_val(v, m) + pow2(2 * m) * s2);
    }
}

/// Adding two spread values never carries across bit pairs: the sum is the
/// spread of the bitwise xor plus twice the spread of the bitwise and.
pub proof fn lemma_spread_sum(a: nat, b: nat, n: nat)
    ensures
        spread_val(a, n) + spread_val(b, n)
            == spread_val(xor_val(a, b, n), n) + 2 * spread_val(and_val(a, b, n), n),
    decreases n,
{
    if n > 0 {
        let ra = a % 2;
        let rb = b % 2;
        let x = xor_val(a, b, n);
        let y = and_val(a, b, n);
        let xr = xor_val(a / 2, b / 2, (n - 1) as nat);
        let yr = and_val(a / 2, b / 2, (n - 1) as nat);
        lemma_spread_sum(a / 2, b / 2, (n - 1) as nat);
        // Low bits of the xor / and words.
        assert((a + b) % 2 < 2);
        assert(ra * rb < 2) by (nonlinear_arith)
            requires
                ra < 2,
                rb < 2,
        ;
        lemma_split(x, 2, xr, (a + b) % 2);
        lemma_split(y, 2, yr, ra * rb);
        assert(spread_val(x, n) == (a + b) % 2 + 4 * spread_val(xr, (n - 1) as nat));
        assert(spread_val(y, n) == ra * rb + 4 * spread_val(yr, (n - 1) as nat));
        vstd::arithmetic::div_mod::lemma_add_mod_noop(a as int, b as int, 2);
        assert((a + b) % 2 == (ra + rb) % 2);
        // One bit position: ra + rb == (ra + rb) % 2 + 2 * (ra * rb).
        assert(ra + rb == (ra + rb) % 2 + 2 * (ra * rb)) by (nonlinear_arith)
            requires
                ra < 2,
                rb < 2,
        ;
        assert(spread_val(a, n) == ra + 4 * spread_val(a / 2, (n - 1) as nat));
        assert(spread_val(b, n) == rb + 4 * spread_val(b / 2, (n - 1) as nat));
    }
}

/// Extracting even and odd positions undoes an interleaving: if `s` was
/// formed as `spread(e) + 2 * spread(o)`, the extraction returns the low
/// bits of `e` and `o`.
pub proof fn lemma_despread(e: nat, o: nat, n: nat)
    ensures
        even_val(spread_val(e, n) + 2 * spread_val(o, n), n) == e % pow2(n),
        odd_val(spread_val(e, n) + 2 * spread_val(o, n), n) == o % pow2(n),
    decreases n,
{
    if n == 0 {
        lemma2_to64();
    } else {
        let se = spread_val(e / 2, (n - 1) as nat);
        let so = spread_val(o / 2, (n - 1) as nat);
        let s = spread_val(e, n) + 2 * spread_val(o, n);
        let r = (e % 2) + 2 * (o % 2);
        let q = se + 2 * so;
        assert(s == 4 * q + r) by (nonlinear_arith)
            requires
                spread_val(e, n) == (e % 2) + 4 * se,
                spread_val(o, n) == (o % 2) + 4 * so,
                s == spread_val(e, n) + 2 * spread_val(o, n),
                r == (e % 2) + 2 * (o % 2),
                q == se + 2 * so,
        ;
        lemma_split(s, 4, q, r);
        assert(s / 4 == q);
        // Low two bits of s.
        lemma_split(s, 2, (o % 2) + 2 * q, e % 2);
        assert(s % 2 == e % 2);
        assert(s / 2 == (o % 2) + 2 * q);
        lemma_split((o % 2) + 2 * q, 2, q, o % 2);
        assert((s / 2) % 2 == o % 2);
        lemma_despread(e / 2, o / 2, (n - 1) as nat);
        assert(even_val(s, n) == (e % 2) + 2 * ((e / 2) % pow2((n - 1) as nat)));
        assert(odd_val(s, n) == (o % 2) + 2 * ((o / 2) % pow2((n - 1) as nat)));
        // Reassemble e % pow2(n) from its low bit and the rest.
        lemma_pow2_pos((n - 1) as nat);
        lemma_pow2_adds(1, (n - 1) as nat);
        lemma2_to64();
        lemma_breakdown(e as int, 2, pow2((n - 1) as nat) as int);
        lemma_breakdown(o as int, 2, pow2((n - 1) as nat) as int);
    }
}

/// The spread of zero is zero.
pub proof fn lemma_spread_zero(n: nat)
    ensures
        spread_val(0, n) == 0,
    decreases n,
{
    if n > 0 {
        lemma_spread_zero((n - 1) as nat);
    }
}

/// Round trip: extracting the even positions of a spread value returns the
/// dense value, and the odd positions hold nothing.
pub proof fn lemma_round_trip(v: nat, n: nat)
    ensures
        even_val(spread_val(v, n), n) == v % pow2(n),
        odd_val(spread_val(v, n), n) == 0,
{
    lemma_spread_zero(n);
    lemma_despread(v, 0, n);
    lemma_pow2_pos(n);
}

/// Round trip, stated bit by bit: bit `2*i` of the spread of `v` is bit `i`
/// of `v`, and bit `2*i + 1` is zero.
pub proof fn lemma_spread_bits(v: nat, n: nat, i: nat)
    requires
        i < n,
    ensures
        bit_of(spread_val(v, n), 2 * i) == bit_of(v, i),
        bit_of(spread_val(v, n), 2 * i + 1) == 0,
    decreases i,
{
    let s = spread_val(v, n);
    let sr = spread_val(v / 2, (n - 1) as nat);
    assert(s == 4 * sr + v % 2);
    lemma_split(s, 4, sr, v % 2);
    lemma_split(s, 2, 2 * sr, v % 2);
    lemma2_to64();
    if i == 0 {
        assert(bit_of(s, 0) == s % 2);
        assert(bit_of(v, 0) == v % 2);
        assert(bit_of(s, 1) == (s / 2) % 2);
        lemma_split(2 * sr, 2, sr, 0);
    } else {
        lemma_spread_bits(v / 2, (n - 1) as nat, (i - 1) as nat);
        lemma_pow2_pos((2 * (i - 1)) as nat);
        lemma_pow2_pos((2 * i - 1) as nat);
        // s / pow2(2i) == (s / 4) / pow2(2(i-1))
        lemma_pow2_adds(2, (2 * (i - 1)) as nat);
        lemma_div_denominator(s as int, 4, pow2((2 * (i - 1)) as nat) as int);
        assert(bit_of(s, 2 * i) == bit_of(sr, 2 * ((i - 1) as nat)));
        // s / pow2(2i + 1) == (s / 4) / pow2(2(i-1) + 1)
        lemma_pow2_adds(2, (2 * (i - 1) + 1) as nat);
        lemma_div_denominator(s as int, 4, pow2((2 * (i - 1) + 1) as nat) as int);
        assert(bit_of(s, 2 * i + 1) == bit_of(sr, 2 * ((i - 1) as nat) + 1));
        // v / pow2(i) == (v / 2) / pow2(i - 1)
        lemma_pow2_adds(1, (i - 1) as nat);
        lemma_pow2_pos((i - 1) as nat);
        lemma_div_denominator(v as int, 2, pow2((i - 1) as nat) as int);
        assert(bit_of(v, i) == bit_of(v / 2, (i - 1) as nat));
    }
}

/// The extraction, stated bit by bit: bit `i` of the even word is bit `2*i`
/// of `s`, and bit `i` of the odd word is bit `2*i + 1` of `s`.
pub proof fn lemma_even_odd_bits(s: nat, n: nat, i: nat)
    requires
        i < n,
    ensures
        bit_of(even_val(s, n), i) == bit_of(s, 2 * i),
        bit_of(odd_val(s, n), i) == bit_of(s, 2 * i + 1),
    decreases i,
{
    let ev = even_val(s, n);
    let ov = odd_val(s, n);
    let er = even_val(s / 4, (n - 1) as nat);
    let or = odd_val(s / 4, (n - 1) as nat);
    lemma_split(ev, 2, er, s % 2);
    lemma_split(ov, 2, or, (s / 2) % 2);
    lemma2_to64();
    if i == 0 {
        assert(bit_of(ev, 0) == ev % 2);
        assert(bit_of(ov, 0) == ov % 2);
        assert(bit_of(s, 0) == s % 2);
        assert(bit_of(s, 1) == (s / 2) % 2);
    } else {
        lemma_even_odd_bits(s / 4, (n - 1) as nat, (i - 1) as nat);
        lemma_pow2_pos((i - 1) as nat);
        lemma_pow2_adds(1, (i - 1) as nat);
        lemma_div_denominator(ev as int, 2, pow2((i - 1) as nat) as int);
        lemma_div_denominator(ov as int, 2, pow2((i - 1) as nat) as int);
        assert(bit_of(ev, i) == bit_of(er, (i - 1) as nat));
        assert(bit_of(ov, i) == bit_of(or, (i - 1) as nat));
        lemma_pow2_pos((2 * (i - 1)) as nat);
        lemma_pow2_pos((2 * i - 1) as nat);
        lemma_pow2_adds(2, (2 * (i - 1)) as nat);
        lemma_div_denominator(s as int, 4, pow2((2 * (i - 1)) as nat) as int);
        assert(bit_of(s / 4, 2 * ((i - 1) as nat)) == bit_of(s, 2 * i));
        lemma_pow2_adds(2, (2 * (i - 1) + 1) as nat);
        lemma_div_denominator(s as int, 4, pow2((2 * (i - 1) + 1) as nat) as int);
        assert(bit_of(s / 4, 2 * ((i - 1) as nat) + 1) == bit_of(s, 2 * i + 1));
    }
}

/// The linking law: when a sum of two spread values is decomposed into its
/// even and odd words, the even word is the bitwise xor and the odd word
/// the bitwise and of the two dense operands.
pub proof fn lemma_sum_decomposition(a: nat, b: nat, n: nat)
    ensures
        even_val(spread_val(a, n) + spread_val(b, n), n) == xor_val(a, b, n),
        odd_val(spread_val(a, n) + spread_val(b, n), n) == and_val(a, b, n),
{
    lemma_spread_sum(a, b, n);
    lemma_despread(xor_val(a, b, n), and_val(a, b, n), n);
    lemma_xor_and_bound(a, b, n);
    vstd::arithmetic::div_mod::lemma_small_mod(xor_val(a, b, n), pow2(n));
    vstd::arithmetic::div_mod::lemma_small_mod(and_val(a, b, n), pow2(n));
}

/// `pow2(e)` as a machine word.
pub fn pow2_u64(e: u64) -> (r: u64)
    requires
        e < 64,
    ensures
        r as nat == pow2(e as nat),
{
    proof {
        vstd::bits::lemma_u64_pow2_no_overflow(e as nat);
        vstd::bits::lemma_u64_shl_is_mul(1u64, e);
    }
    1u64 << e
}

/// Computes the spread form of the low `n` bits of `v`.
pub fn spread_value(v: u64, n: u64) -> (r: u64)
    requires
        n <= 16,
    ensures
        r as nat == spread_val(v as nat, n as nat),
    decreases n,
{
    if n == 0 {
        0
    } else {
        let rest = spread_value(v / 2, n - 1);
        proof {
            lemma_spread_bound((v / 2) as nat, (n - 1) as nat);
            lemma_pow2_strictly_increases((2 * (n - 1)) as nat, 31);
            lemma2_to64();
        }
        v % 2 + 4 * rest
    }
}

/// Extracts the dense value held at the even bit positions among the low
/// `2*n` bits of `s`.
pub fn even_part(s: u64, n: u64) -> (r: u64)
    requires
        n <= 16,
    ensures
        r as nat == even_val(s as nat, n as nat),
    decreases n,
{
    if n == 0 {
        0
    } else {
        let rest = even_part(s / 4, n - 1);
        proof {
            lemma_even_bound((s / 4) as nat, (n - 1) as nat);
            lemma_pow2_strictly_increases((n - 1) as nat, 16);
            lemma2_to64();
        }
        s % 2 + 2 * rest
    }
}

/// Extracts the dense value held at the odd bit positions among the low
/// `2*n` bits of `s`.
pub fn odd_part(s: u64, n: u64) -> (r: u64)
    requires
        n <= 16,
    ensures
        r as nat == odd_val(s as nat, n as nat),
    decreases n,
{
    if n == 0 {
        0
    } else {
        let rest = odd_part(s / 4, n - 1);
        proof {
            lemma_odd_bound((s / 4) as nat, (n - 1) as nat);
            lemma_pow2_strictly_increases((n - 1) as nat, 16);
            lemma2_to64();
        }
        s / 2 % 2 + 2 * rest
    }
}

/// Bitwise exclusive-or of the low `n` bits, computed by the same peeling
/// as its specification.
pub fn xor_value(a: u64, b: u64, n: u64) -> (r: u64)
    requires
        n <= 16,
    ensures
        r as nat == xor_val(a as nat, b as nat, n as nat),
    decreases n,
{
    if n == 0 {
        0
    } else {
        let rest = xor_value(a / 2, b / 2, n - 1);
        proof {
            lemma_xor_and_bound((a / 2) as nat, (b / 2) as nat, (n - 1) as nat);
            lemma_pow2_strictly_increases((n - 1) as nat, 16);
            lemma2_to64();
            vstd::arithmetic::div_mod::lemma_add_mod_noop(a as int, b as int, 2);
        }
        (a % 2 + b % 2) % 2 + 2 * rest
    }
}

/// Bitwise and of the low `n` bits, computed by the same peeling as its
/// specification.
pub fn and_value(a: u64, b: u64, n: u64) -> (r: u64)
    requires
        n <= 16,
    ensures
        r as nat == and_val(a as nat, b as nat, n as nat),
    decreases n,
{
    if n == 0 {
        0
    } else {
        let rest = and_value(a / 2, b / 2, n - 1);
        proof {
            lemma_xor_and_bound((a / 2) as nat, (b / 2) as nat, (n - 1) as nat);
            lemma_pow2_strictly_increases((n - 1) as nat, 16);
            lemma2_to64();
            assert((a % 2) * (b % 2) <= 1) by (nonlinear_arith)
                requires
                    a % 2 < 2,
                    b % 2 < 2,
            ;
        }
        (a % 2) * (b % 2) + 2 * rest
    }
}

} // verus!

