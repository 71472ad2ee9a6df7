//! The spread gadget: bitwise logic over a prime field by bit spreading.
//!
//! A 16-bit dense value is re-encoded with each data bit at an even
//! position and a zero guard bit at every odd position.  Sums of spread
//! values then carry per-bit sums without cross-position carries, and the
//! even/odd decomposition recovers xor- and and-words.  The gadget splits
//! a dense value into lookup-width limbs, emits each limb and its spread
//! form as witnesses, and reassembles both sides as weighted sums.

use vstd::prelude::*;
use vstd::arithmetic::power2::{pow2, lemma_pow2_adds, lemma_pow2_strictly_increases, lemma2_to64, lemma2_to64_rest};
use vstd::arithmetic::div_mod::{lemma_breakdown, lemma_div_denominator, lemma_fundamental_div_mod};
use crate::backend::{Cell, Region, RangeService, Emission, cell_val, cell_concrete, cell_tracked, region_registry, region_tracking, region_log, rc_lookup_bits, lemma_prefix_refl, lemma_prefix_push, lemma_prefix_concat, lemma_prefix_trans, lemma_prefix_contains, lemma_prefix_index};
use crate::bits::{spread_val, even_val, odd_val, limb_of, spread_value, even_part, odd_part, pow2_u64, lemma_spread_bound, lemma_spread_truncate, lemma_spread_split, lemma_spread_of_small, lemma_even_bound, lemma_odd_bound, lemma_even_odd_truncate, lemma_split};
use halo2_base::halo2_proofs::plonk::Error;

verus! {

/// Some cell in the emission history `log` is a witness carrying limb `j`
/// (width `b`) of `v`.
pub open spec fn limb_witnessed(log: Seq<Emission>, v: nat, b: nat, j: nat) -> bool {
    exists|w: Cell| log.contains(Emission::Witness(w)) && cell_val(w) == limb_of(v, b, j)
}

/// Width validation as a law: a well-formed gadget always carries a lookup
/// width that divides the 16-bit dense width evenly, so no gadget whose
/// width fails that test ever reaches witness emission (every emitting
/// operation requires well-formedness).
pub proof fn lemma_wf_width<'a>(c: SpreadChip<'a>)
    ensures
        c.wf() ==> 0 < c.spec_lookup_bits() <= 16 && 16usize % c.spec_lookup_bits() == 0,
{
}

/// The stateless spread gadget: an immutable lookup width and a reference
/// to the range-check service that backs the dense-to-spread lookups.
pub struct SpreadChip<'a> {
    lookup_bits: usize,
    range: &'a RangeService,
}

impl<'a> SpreadChip<'a> {
    /// The gadget is well formed when its lookup width divides the 16-bit
    /// dense width evenly and the range service has a real lookup table of
    /// a width the backend supports, with which a 16-bit check decomposes
    /// without a partial top limb.
    pub closed spec fn wf(self) -> bool {
        &&& 0 < self.lookup_bits <= 16
        &&& 16usize % self.lookup_bits == 0
        &&& 1 <= rc_lookup_bits(*self.range) <= 28
        &&& (16nat % rc_lookup_bits(*self.range) == 0 || 16 <= rc_lookup_bits(*self.range))
    }

    /// The lookup width the gadget was built with.
    pub closed spec fn spec_lookup_bits(self) -> usize {
        self.lookup_bits
    }

    /// The range service the gadget was built over.
    pub closed spec fn spec_range(self) -> &'a RangeService {
        self.range
    }

    /// Builds the gadget.  The lookup width must divide the dense width of
    /// 16 bits evenly; a width that does not is rejected before any
    /// witness is emitted, so this constructor refuses it up front.
    pub fn new(range: &'a RangeService, lookup_bits: usize) -> (r: Self)
        requires
            0 < lookup_bits <= 16,
            16usize % lookup_bits == 0,
            1 <= rc_lookup_bits(*range) <= 28,
            16nat % rc_lookup_bits(*range) == 0 || 16 <= rc_lookup_bits(*range),
        ensures
            r.wf(),
            r.spec_lookup_bits() == lookup_bits,
            r.spec_range() == range,
    {
        Self { range, lookup_bits }
    }

    /// Validating constructor: returns the gadget exactly when the lookup
    /// width divides the dense width of 16 bits evenly, and nothing
    /// otherwise.
    pub fn try_new(range: &'a RangeService, lookup_bits: usize) -> (r: Option<Self>)
        requires
            1 <= rc_lookup_bits(*range) <= 28,
            16nat % rc_lookup_bits(*range) == 0 || 16 <= rc_lookup_bits(*range),
        ensures
            r is Some <==> (0 < lookup_bits <= 16 && 16usize % lookup_bits == 0),
            r matches Some(c) ==> c.wf() && c.spec_lookup_bits() == lookup_bits && c.spec_range()
                == range,
    {
        if 0 < lookup_bits && lookup_bits <= 16 && 16usize % lookup_bits == 0 {
            Some(Self { range, lookup_bits })
        } else {
            None
        }
    }

    /// The range-check service the gadget was built over.
    pub fn range(&self) -> (r: &'a RangeService)
        ensures
            r == self.spec_range(),
    {
        self.range
    }

    /// Emits the spread form of the low 16 bits of `dense`.
    ///
    /// The dense value is split into `16 / lookup_bits` limbs; the limbs
    /// are emitted as witnesses and constrained to reassemble the input as
    /// a weighted sum, and each limb's spread form is emitted and summed
    /// with weight `4^(lookup_bits * i)` into the result.  An input wider
    /// than 16 bits is not rejected: the result then spreads only the low
    /// 16 bits and the reassembly constraint is unsatisfiable.
    ///
    /// The region grows append-only; one witness per limb is emitted, and
    /// in a recording region an equality binds the limbs' weighted sum to
    /// the input cell.
    pub fn spread(&self, ctx: &mut Region, dense: &Cell) -> (r: Result<Cell, Error>)
        requires
            self.wf(),
            cell_concrete(*dense),
            region_tracking(*old(ctx)) ==> cell_tracked(*dense),
        ensures
            r is Ok,
            r matches Ok(c) ==> cell_val(c) == spread_val(cell_val(*dense), 16) && cell_concrete(
                c,
            ) && cell_tracked(c) == region_tracking(*old(ctx)),
            region_registry(*final(ctx)) == region_registry(*old(ctx)),
            region_tracking(*final(ctx)) == region_tracking(*old(ctx)),
            region_log(*old(ctx)).is_prefix_of(region_log(*final(ctx))),
            region_tracking(*old(ctx)) ==> exists|s: Cell|
                region_log(*final(ctx)).contains(Emission::Equality(s, *dense)) && cell_val(s)
                    == cell_val(*dense) % pow2(16),
            forall|j: nat|
                j < 16nat / (self.spec_lookup_bits() as nat) ==> #[trigger] limb_witnessed(
                    region_log(*final(ctx)),
                    cell_val(*dense) % pow2(64),
                    self.spec_lookup_bits() as nat,
                    j,
                ),
    {
        let ghost reg0 = region_registry(*ctx);
        let ghost tr0 = region_tracking(*ctx);
        let ghost log0 = region_log(*ctx);
        let limb_bits = self.lookup_bits;
        let num_limbs = 16 / limb_bits;
        proof {
            lemma_fundamental_div_mod(16int, limb_bits as int);
            assert(limb_bits * num_limbs == 16);
        }
        let dense_low = dense.value_u64();
        let ghost v = dense_low as nat;
        let base = pow2_u64(limb_bits as u64);

        // Split the low 16 bits into limbs, low limb first.
        let mut limbs: Vec<u64> = Vec::new();
        let mut cur = dense_low;
        let mut i: usize = 0;
        proof {
            lemma2_to64();
            vstd::arithmetic::power2::lemma_pow2_pos(limb_bits as nat);
            lemma_split(v, 1, v, 0);
            assert(cur as nat == v / pow2((limb_bits * 0) as nat));
        }
        while i < num_limbs
            invariant
                i <= num_limbs,
                limb_bits * num_limbs == 16,
                0 < limb_bits <= 16,
                base as nat == pow2(limb_bits as nat),
                base >= 1,
                limbs@.len() == i,
                cur as nat == v / pow2((limb_bits * i) as nat),
                forall|j: int|
                    0 <= j < i ==> limbs@[j] as nat == (v / pow2((limb_bits * j) as nat)) % pow2(
                        limb_bits as nat,
                    ),
            decreases num_limbs - i,
        {
            limbs.push(cur % base);
            proof {
                vstd::arithmetic::power2::lemma_pow2_pos((limb_bits * i) as nat);
                vstd::arithmetic::power2::lemma_pow2_pos(limb_bits as nat);
                lemma_pow2_adds((limb_bits * i) as nat, limb_bits as nat);
                lemma_div_denominator(
                    v as int,
                    pow2((limb_bits * i) as nat) as int,
                    pow2(limb_bits as nat) as int,
                );
                assert(limb_bits * (i + 1) == limb_bits * i + limb_bits) by (nonlinear_arith);
            }
            cur = cur / base;
            i = i + 1;
        }
        let assigned = ctx.assign_witnesses(&limbs);
        let ghost log_a = region_log(*ctx);
        proof {
            lemma_prefix_concat(log0, assigned@.map_values(|c: Cell| Emission::Witness(c)));
        }

        // Constrain the limbs to reassemble the dense input.
        let mut limbs_sum = ctx.load_zero();
        let mut weight: u64 = 1;
        let mut idx: usize = 0;
        proof {
            lemma2_to64();
            lemma_split(v, 1, v, 0);
            assert(cell_val(limbs_sum) == v % pow2((limb_bits * 0) as nat));
            lemma_prefix_refl(log_a);
            lemma_prefix_push(log_a, Emission::Witness(limbs_sum));
        }
        while idx < num_limbs
            invariant
                idx <= num_limbs,
                limb_bits * num_limbs == 16,
                0 < limb_bits <= 16,
                base as nat == pow2(limb_bits as nat),
                assigned@.len() == num_limbs,
                forall|j: int|
                    0 <= j < num_limbs ==> cell_val(#[trigger] assigned@[j]) == (v / pow2(
                        (limb_bits * j) as nat,
                    )) % pow2(limb_bits as nat) && cell_concrete(assigned@[j]) && cell_tracked(
                        assigned@[j],
                    ) == tr0,
                weight as nat == pow2((limb_bits * idx) as nat),
                cell_val(limbs_sum) == v % pow2((limb_bits * idx) as nat),
                cell_concrete(limbs_sum),
                cell_tracked(limbs_sum) == tr0,
                region_registry(*ctx) == reg0,
                region_tracking(*ctx) == tr0,
                log_a.is_prefix_of(region_log(*ctx)),
            decreases num_limbs - idx,
        {
            let ghost log_it = region_log(*ctx);
            proof {
                let b = limb_bits as nat;
                let m = (limb_bits * idx) as nat;
                let limb = (v / pow2(m)) % pow2(b);
                vstd::arithmetic::power2::lemma_pow2_pos(b);
                vstd::arithmetic::power2::lemma_pow2_pos(m);
                assert(limb_bits * (idx + 1) == limb_bits * idx + limb_bits) by (nonlinear_arith);
                assert(limb_bits * (idx + 1) <= limb_bits * num_limbs) by (nonlinear_arith)
                    requires
                        idx < num_limbs,
                        limb_bits >= 1,
                ;
                lemma_pow2_adds(m, b);
                lemma_breakdown(v as int, pow2(m) as int, pow2(b) as int);
                assert(v % pow2((m + b) as nat) == pow2(m) * limb + v % pow2(m));
                assert(pow2(m) * limb == limb * pow2(m)) by (nonlinear_arith);
                lemma_pow2_strictly_increases((m + b) as nat, 64);
                lemma_pow2_strictly_increases((m + b) as nat, 128);
                lemma2_to64();
                lemma2_to64_rest();
                assert(limb * (weight as nat) + cell_val(limbs_sum) == v % pow2((m + b) as nat));
            }
            limbs_sum = self.range.mul_add(ctx, &assigned[idx], weight, &limbs_sum);
            proof {
                lemma_prefix_trans(log_a, log_it, region_log(*ctx));
            }
            weight = weight * base;
            idx = idx + 1;
        }
        let ghost log_b = region_log(*ctx);
        ctx.constrain_equal(&limbs_sum, dense);
        let ghost eq_ev = Emission::Equality(limbs_sum, *dense);
        let ghost sum_cell = limbs_sum;
        let ghost log_e = region_log(*ctx);
        proof {
            if tr0 {
                assert(log_e == log_b.push(eq_ev));
                assert(log_e[log_e.len() - 1] == eq_ev);
                assert(log_e.contains(eq_ev));
                lemma_prefix_push(log_b, eq_ev);
            } else {
                lemma_prefix_refl(log_b);
            }
            lemma_prefix_trans(log_a, log_b, log_e);
        }

        // Sum the limbs' spread forms with weight 4^(lookup_bits * i).
        let mut acc = ctx.load_zero();
        let spread_base = pow2_u64(2 * limb_bits as u64);
        let mut spread_weight: u64 = 1;
        let mut idx2: usize = 0;
        proof {
            lemma2_to64();
            assert(spread_val(v, (limb_bits * 0) as nat) == 0);
            lemma_prefix_refl(log_e);
            lemma_prefix_push(log_e, Emission::Witness(acc));
        }
        while idx2 < num_limbs
            invariant
                idx2 <= num_limbs,
                limb_bits * num_limbs == 16,
                0 < limb_bits <= 16,
                self.wf(),
                spread_base as nat == pow2((2 * limb_bits) as nat),
                assigned@.len() == num_limbs,
                forall|j: int|
                    0 <= j < num_limbs ==> cell_val(#[trigger] assigned@[j]) == (v / pow2(
                        (limb_bits * j) as nat,
                    )) % pow2(limb_bits as nat) && cell_concrete(assigned@[j]) && cell_tracked(
                        assigned@[j],
                    ) == tr0,
                spread_weight as nat == pow2((2 * (limb_bits * idx2)) as nat),
                cell_val(acc) == spread_val(v, (limb_bits * idx2) as nat),
                cell_concrete(acc),
                cell_tracked(acc) == tr0,
                region_registry(*ctx) == reg0,
                region_tracking(*ctx) == tr0,
                log_e.is_prefix_of(region_log(*ctx)),
            decreases num_limbs - idx2,
        {
            let ghost log_s1 = region_log(*ctx);
            let spread_limb = self.spread_limb(ctx, &assigned[idx2]);
            let spread_cell = match spread_limb {
                Ok(c) => c,
                Err(e) => {
                    return Err(e);
                },
            };
            proof {
                lemma_prefix_trans(log_e, log_s1, region_log(*ctx));
            }
            let ghost log_s2 = region_log(*ctx);
            proof {
                let b = limb_bits as nat;
                let m = (limb_bits * idx2) as nat;
                let limb = (v / pow2(m)) % pow2(b);
                assert(limb_bits * (idx2 + 1) == limb_bits * idx2 + limb_bits) by (nonlinear_arith);
                assert(limb_bits * (idx2 + 1) <= limb_bits * num_limbs) by (nonlinear_arith)
                    requires
                        idx2 < num_limbs,
                        limb_bits >= 1,
                ;
                vstd::arithmetic::power2::lemma_pow2_pos(b);
                vstd::arithmetic::power2::lemma_pow2_pos(m);
                assert(limb < pow2(b));
                lemma_spread_of_small(limb, b, 16);
                lemma_spread_truncate(v / pow2(m), b, b);
                lemma_spread_split(v, m, b);
                lemma_spread_bound(v, (m + b) as nat);
                lemma_pow2_adds((2 * m) as nat, (2 * b) as nat);
                assert(2 * (m + b) == 2 * m + 2 * b) by (nonlinear_arith);
                assert(pow2((2 * m) as nat) * spread_val(v / pow2(m), b) == spread_val(
                    v / pow2(m),
                    b,
                ) * pow2((2 * m) as nat)) by (nonlinear_arith);
                lemma_pow2_strictly_increases((2 * (m + b)) as nat, 64);
                lemma_pow2_strictly_increases((2 * (m + b)) as nat, 128);
                lemma2_to64();
                lemma2_to64_rest();
                assert(cell_val(spread_cell) * (spread_weight as nat) + cell_val(acc)
                    == spread_val(v, (m + b) as nat));
            }
            acc = self.range.mul_add(ctx, &spread_cell, spread_weight, &acc);
            proof {
                lemma_prefix_trans(log_e, log_s2, region_log(*ctx));
            }
            spread_weight = spread_weight * spread_base;
            idx2 = idx2 + 1;
        }
        proof {
            lemma2_to64_rest();
            lemma_spread_truncate(cell_val(*dense), 64, 16);
            lemma_prefix_trans(log0, log_a, log_e);
            lemma_prefix_trans(log0, log_e, region_log(*ctx));
            if tr0 {
                lemma_prefix_contains(log_e, region_log(*ctx), eq_ev);
                lemma_pow2_adds(16, 48);
                vstd::arithmetic::div_mod::lemma_mod_mod(
                    cell_val(*dense) as int,
                    pow2(16) as int,
                    pow2(48) as int,
                );
                assert(cell_val(sum_cell) == cell_val(*dense) % pow2(16));
            }
            lemma_split(16nat, limb_bits as nat, num_limbs as nat, 0);
            assert(16nat / (limb_bits as nat) == num_limbs as nat);
            assert(v == cell_val(*dense) % pow2(64));
            assert forall|j: nat| j < 16nat / (self.spec_lookup_bits() as nat)
                implies #[trigger] limb_witnessed(
                region_log(*ctx),
                cell_val(*dense) % pow2(64),
                self.spec_lookup_bits() as nat,
                j,
            ) by {
                let jj = j as int;
                let evs = assigned@.map_values(|c: Cell| Emission::Witness(c));
                assert(log_a[log0.len() + jj] == evs[jj]);
                assert(evs[jj] == Emission::Witness(assigned@[jj]));
                assert(log_a.contains(Emission::Witness(assigned@[jj])));
                lemma_prefix_contains(log_a, region_log(*ctx), Emission::Witness(assigned@[jj]));
                assert((limb_bits * jj) as nat == (limb_bits as nat) * j) by (nonlinear_arith)
                    requires
                        jj == j,
                ;
                assert(cell_val(assigned@[jj]) == limb_of(v, limb_bits as nat, j));
                assert(limb_witnessed(region_log(*ctx), v, limb_bits as nat, j));
            }
        }
        Ok(acc)
    }

    /// Emits one limb's spread form: the limb value is reloaded and
    /// constrained equal to the limb cell, its spread form is computed off
    /// circuit and loaded twice, and the two copies are constrained equal
    /// so that one of them can feed the external dense-to-spread lookup.
    /// In a recording region both equalities are in the emission history.
    fn spread_limb(&self, ctx: &mut Region, limb: &Cell) -> (r: Result<Cell, Error>)
        requires
            self.wf(),
            cell_concrete(*limb),
            region_tracking(*old(ctx)) ==> cell_tracked(*limb),
        ensures
            r is Ok,
            r matches Ok(c) ==> cell_val(c) == spread_val(cell_val(*limb), 16) && cell_concrete(
                c,
            ) && cell_tracked(c) == region_tracking(*old(ctx)),
            region_registry(*final(ctx)) == region_registry(*old(ctx)),
            region_tracking(*final(ctx)) == region_tracking(*old(ctx)),
            region_log(*old(ctx)).is_prefix_of(region_log(*final(ctx))),
            r matches Ok(c) ==> (region_tracking(*old(ctx)) ==> (exists|dup: Cell|
                region_log(*final(ctx)).contains(Emission::Equality(dup, *limb)) && cell_val(dup)
                    == cell_val(*limb) % pow2(64)) && (exists|lk: Cell|
                region_log(*final(ctx)).contains(Emission::Equality(lk, c)) && cell_val(lk)
                    == cell_val(c))),
    {
        let ghost log0 = region_log(*ctx);
        let ghost tr0 = region_tracking(*ctx);
        let limb_low = limb.value_u64();
        let assigned_dense = ctx.load_witness(limb_low);
        ctx.constrain_equal(&assigned_dense, limb);
        let ghost log2 = region_log(*ctx);
        let spread_v = spread_value(limb_low, 16);
        proof {
            lemma2_to64_rest();
            lemma_spread_truncate(cell_val(*limb), 64, 16);
        }
        let assigned_spread = ctx.load_witness(spread_v);
        let assigned_spread_vanila = ctx.load_witness(spread_v);
        ctx.constrain_equal(&assigned_spread_vanila, &assigned_spread);
        proof {
            let fin = region_log(*ctx);
            if tr0 {
                assert(log2 == log0.push(Emission::Witness(assigned_dense)).push(
                    Emission::Equality(assigned_dense, *limb),
                ));
                assert(fin == log2.push(Emission::Witness(assigned_spread)).push(
                    Emission::Witness(assigned_spread_vanila),
                ).push(Emission::Equality(assigned_spread_vanila, assigned_spread)));
                assert(fin[log0.len() as int + 1] == Emission::Equality(assigned_dense, *limb));
                assert(fin.contains(Emission::Equality(assigned_dense, *limb)));
                assert(fin[fin.len() - 1] == Emission::Equality(
                    assigned_spread_vanila,
                    assigned_spread,
                ));
                assert(fin.contains(Emission::Equality(assigned_spread_vanila, assigned_spread)));
            }
            assert(log0 =~= fin.subrange(0, log0.len() as int));
        }
        Ok(assigned_spread)
    }

    /// Splits a 32-bit spread value into its even-position and odd-position
    /// dense words, each emitted as a witness and range-checked to 16 bits.
    ///
    /// Deliberately unchecked: this emits no constraint linking the input
    /// to the two words, so the caller must separately constrain
    /// `spread == even_spread + 2 * odd_spread` under the linking equation
    /// that fits how the input was summed.  The last clause makes the
    /// omission precise: every equality this call records names one of the
    /// two result cells first and binds it to a cell this call itself
    /// appended, so none relates the input to the two words.
    pub fn decompose_even_and_odd_unchecked(&self, ctx: &mut Region, spread: &Cell) -> (r: Result<
        (Cell, Cell),
        Error,
    >)
        requires
            self.wf(),
            cell_concrete(*spread),
        ensures
            r is Ok,
            r matches Ok(p) ==> cell_val(p.0) == even_val(cell_val(*spread), 16) && cell_val(p.1)
                == odd_val(cell_val(*spread), 16) && cell_val(p.0) < pow2(16) && cell_val(p.1)
                < pow2(16) && cell_concrete(p.0) && cell_concrete(p.1) && cell_tracked(p.0)
                == region_tracking(*old(ctx)) && cell_tracked(p.1) == region_tracking(*old(ctx)),
            region_registry(*final(ctx)) == region_registry(*old(ctx)),
            region_tracking(*final(ctx)) == region_tracking(*old(ctx)),
            region_log(*old(ctx)).is_prefix_of(region_log(*final(ctx))),
            r matches Ok(p) ==> forall|i: int|
                region_log(*old(ctx)).len() <= i < region_log(*final(ctx)).len() ==> ((
                #[trigger] region_log(*final(ctx))[i]) matches Emission::Equality(x, y) ==> (x
                    == p.0 || x == p.1) && exists|j: int|
                    region_log(*old(ctx)).len() <= j < region_log(*final(ctx)).len()
                        && region_log(*final(ctx))[j] == Emission::Witness(y)),
    {
        let ghost log0 = region_log(*ctx);
        let spread_low = spread.value_u64();
        let even_v = even_part(spread_low, 16);
        let odd_v = odd_part(spread_low, 16);
        proof {
            lemma2_to64_rest();
            lemma_even_odd_truncate(cell_val(*spread), 64, 16);
            lemma_even_bound(spread_low as nat, 16);
            lemma_odd_bound(spread_low as nat, 16);
        }
        let even_assigned = ctx.load_witness(even_v);
        let odd_assigned = ctx.load_witness(odd_v);
        let ghost log2 = region_log(*ctx);
        self.range.range_check(ctx, even_assigned.copied(), 16);
        let ghost log3 = region_log(*ctx);
        self.range.range_check(ctx, odd_assigned.copied(), 16);
        proof {
            let fin = region_log(*ctx);
            assert(log2 == log0.push(Emission::Witness(even_assigned)).push(
                Emission::Witness(odd_assigned),
            ));
            assert(log0 =~= log2.subrange(0, log0.len() as int));
            lemma_prefix_trans(log0, log2, log3);
            lemma_prefix_trans(log0, log3, fin);
            lemma_prefix_trans(log2, log3, fin);
            assert forall|i: int| log0.len() <= i < fin.len() implies ((#[trigger] fin[i]) matches
                Emission::Equality(x, y) ==> (x == even_assigned || x == odd_assigned) && exists|
                j: int,
            | log0.len() <= j < fin.len() && fin[j] == Emission::Witness(y)) by {
                if i < log2.len() {
                    lemma_prefix_index(log2, fin, i);
                } else if i < log3.len() {
                    lemma_prefix_index(log3, fin, i);
                    match fin[i] {
                        Emission::Equality(x, y) => {
                            let j = choose|j: int|
                                log2.len() <= j < log3.len() && log3[j] == Emission::Witness(y);
                            lemma_prefix_index(log3, fin, j);
                            assert(fin[j] == Emission::Witness(y));
                        },
                        _ => {},
                    }
                } else {
                    match fin[i] {
                        Emission::Equality(x, y) => {
                            let j = choose|j: int|
                                log3.len() <= j < fin.len() && fin[j] == Emission::Witness(y);
                            assert(fin[j] == Emission::Witness(y));
                        },
                        _ => {},
                    }
                }
            }
        }
        Ok((even_assigned, odd_assigned))
    }
}

} // verus!
