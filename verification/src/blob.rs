//! Blob gas parameters and the EIP-4844 blob fee.

use vstd::prelude::*;

verus! {

/// Blob gas that one blob takes up.
pub const DATA_GAS_PER_BLOB: u64 = 131_072;

/// Blob gas available in a block under the first blob fork, used for blocks whose blob
/// parameters are not known.
pub const MAX_DATA_GAS_PER_BLOCK_DENCUN: u64 = 786_432;

/// Configuration for the blob-related calculations of a block.
#[derive(Clone, Copy, Debug, PartialEq, Eq)]
pub struct BlobParams {
    /// Target blob count for the block.
    pub target_blob_count: u64,
    /// Max blob count for the block.
    pub max_blob_count: u64,
    /// Update fraction for excess blob gas calculation.
    pub update_fraction: u128,
    /// Minimum gas price for a data blob.
    pub min_blob_fee: u128,
    /// Maximum number of blobs per transaction.
    pub max_blobs_per_tx: u64,
}

/// The number of terms, counted from term `i`, before the terms of the series start to shrink.
pub open spec fn growing_terms(numerator: nat, denominator: nat, i: nat) -> nat {
    if numerator / denominator >= i {
        (numerator / denominator + 1 - i) as nat
    } else {
        0
    }
}

/// Past `numerator / denominator` each term of the series is smaller than the one before, so the
/// series ends.
pub proof fn lemma_terms_shrink(numerator: nat, denominator: nat, term: nat, i: nat)
    requires
        denominator > 0,
        i > 0,
        term > 0,
    ensures
        0 <= (term * numerator) / (denominator * i),
        numerator / denominator < i ==> (term * numerator) / (denominator * i) < term,
{
    let d: nat = denominator * i;
    assert(d > 0) by (nonlinear_arith)
        requires
            d == denominator * i,
            denominator > 0,
            i > 0,
    ;
    assert(0 <= (term * numerator) / d) by (nonlinear_arith)
        requires
            d > 0,
    ;
    if numerator / denominator < i {
        assert(numerator < denominator * i) by (nonlinear_arith)
            requires
                denominator > 0,
                numerator / denominator < i,
        ;
        assert((term * numerator) / d < term) by (nonlinear_arith)
            requires
                0 <= numerator < d,
                term > 0,
        ;
    }
}

/// The sum of the integer Taylor series of `exp(numerator / denominator)`, from the `i`-th term,
/// which follows a term of `term`, on. Terms are rounded down; the series ends at the first term
/// that is zero.
pub open spec fn exponential_sum(numerator: nat, denominator: nat, term: nat, i: nat) -> nat
    decreases growing_terms(numerator, denominator, i), term,
{
    if term == 0 || denominator == 0 || i == 0 {
        0
    } else {
        proof {
            lemma_terms_shrink(numerator, denominator, term, i);
        }
        term + exponential_sum(
            numerator,
            denominator,
            (term * numerator) / (denominator * i),
            i + 1,
        )
    }
}

/// Whether every product, every partial sum and the count of that series fits in 128 bits, when
/// `total` has been summed up before it.
pub open spec fn exponential_fits(
    numerator: nat,
    denominator: nat,
    term: nat,
    i: nat,
    total: nat,
) -> bool
    decreases growing_terms(numerator, denominator, i), term,
{
    if term == 0 || denominator == 0 || i == 0 {
        true
    } else {
        proof {
            lemma_terms_shrink(numerator, denominator, term, i);
        }
        &&& total + term <= u128::MAX
        &&& term * numerator <= u128::MAX
        &&& denominator * i <= u128::MAX
        &&& i < u128::MAX
        &&& exponential_fits(
            numerator,
            denominator,
            (term * numerator) / (denominator * i),
            i + 1,
            total + term,
        )
    }
}

/// The `fake_exponential` of EIP-4844: `factor * exp(numerator / denominator)` in integers.
pub open spec fn fake_exponential(factor: nat, numerator: nat, denominator: nat) -> nat {
    exponential_sum(numerator, denominator, factor * denominator, 1) / denominator
}

impl BlobParams {
    /// The blob fee of a block with the given excess blob gas.
    pub open spec fn blob_fee(self, excess_blob_gas: u64) -> nat {
        fake_exponential(
            self.min_blob_fee as nat,
            excess_blob_gas as nat,
            self.update_fraction as nat,
        )
    }

    /// Whether the blob fee can be computed in 128 bits.
    pub open spec fn blob_fee_computable(self, excess_blob_gas: u64) -> bool {
        &&& self.update_fraction > 0
        &&& self.min_blob_fee * self.update_fraction <= u128::MAX
        &&& exponential_fits(
            excess_blob_gas as nat,
            self.update_fraction as nat,
            (self.min_blob_fee * self.update_fraction) as nat,
            1,
            0,
        )
    }

    /// The blob gas that all blobs of a full block take up.
    pub open spec fn max_blob_gas(self) -> int {
        self.max_blob_count * DATA_GAS_PER_BLOB
    }

    /// The blob gas that a block is meant to use.
    pub open spec fn target_blob_gas(self) -> int {
        self.target_blob_count * DATA_GAS_PER_BLOB
    }

    /// The excess blob gas that a block hands on to the next one.
    pub open spec fn next_excess_blob_gas(self, excess_blob_gas: u64, blob_gas_used: u64) -> int {
        if excess_blob_gas + blob_gas_used < self.target_blob_gas() {
            0
        } else {
            excess_blob_gas + blob_gas_used - self.target_blob_gas()
        }
    }

    /// Tests whether [`Self::blob_fee`] can be computed in 128 bits.
    pub fn can_compute_blob_fee(&self, excess_blob_gas: u64) -> (r: bool)
        ensures
            r == self.blob_fee_computable(excess_blob_gas),
    {
        let numerator: u128 = excess_blob_gas as u128;
        let denominator: u128 = self.update_fraction;
        if denominator == 0 {
            return false;
        }
        let mut term: u128 = match self.min_blob_fee.checked_mul(denominator) {
            Some(term) => term,
            None => return false,
        };
        let mut i: u128 = 1;
        let mut total: u128 = 0;
        while term > 0
            invariant
                numerator == excess_blob_gas,
                denominator == self.update_fraction,
                denominator > 0,
                i > 0,
                self.min_blob_fee * self.update_fraction <= u128::MAX,
                self.blob_fee_computable(excess_blob_gas) == exponential_fits(
                    numerator as nat,
                    denominator as nat,
                    term as nat,
                    i as nat,
                    total as nat,
                ),
            decreases growing_terms(numerator as nat, denominator as nat, i as nat), term,
        {
            proof {
                lemma_terms_shrink(numerator as nat, denominator as nat, term as nat, i as nat);
            }
            let sum = match total.checked_add(term) {
                Some(sum) => sum,
                None => return false,
            };
            let product = match term.checked_mul(numerator) {
                Some(product) => product,
                None => return false,
            };
            let divisor = match denominator.checked_mul(i) {
                Some(divisor) => divisor,
                None => return false,
            };
            proof {
                assert(divisor > 0) by (nonlinear_arith)
                    requires
                        divisor == denominator * i,
                        denominator > 0,
                        i > 0,
                ;
            }
            total = sum;
            term = product / divisor;
            if i == u128::MAX {
                return false;
            }
            i = i + 1;
        }
        true
    }
}

/// Without excess blob gas the blob fee is the minimum.
pub proof fn law_blob_fee_without_excess(params: BlobParams)
    requires
        params.update_fraction > 0,
    ensures
        params.blob_fee(0) == params.min_blob_fee,
{
    let factor = params.min_blob_fee as nat;
    let denominator = params.update_fraction as nat;
    let term = factor * denominator;
    assert(term * 0 == 0 && denominator * 1 == denominator);
    assert(0nat / denominator == 0) by (nonlinear_arith)
        requires
            denominator > 0,
    ;
    assert(exponential_sum(0, denominator, 0, 2) == 0);
    assert(exponential_sum(0, denominator, term, 1) == term);
    assert((factor * denominator) / denominator == factor) by (nonlinear_arith)
        requires
            denominator > 0,
    ;
}

proof fn lemma_exponential_sum_grows(
    numerator1: nat,
    numerator2: nat,
    denominator: nat,
    term1: nat,
    term2: nat,
    i: nat,
)
    requires
        numerator1 <= numerator2,
        term1 <= term2,
        denominator > 0,
        i > 0,
    ensures
        exponential_sum(numerator1, denominator, term1, i) <= exponential_sum(
            numerator2,
            denominator,
            term2,
            i,
        ),
    decreases growing_terms(numerator1, denominator, i), term1,
{
    if term1 > 0 {
        lemma_terms_shrink(numerator1, denominator, term1, i);
        lemma_terms_shrink(numerator2, denominator, term2, i);
        let d = denominator * i;
        assert(d > 0) by (nonlinear_arith)
            requires
                d == denominator * i,
                denominator > 0,
                i > 0,
        ;
        assert(term1 * numerator1 <= term2 * numerator2) by (nonlinear_arith)
            requires
                term1 <= term2,
                numerator1 <= numerator2,
        ;
        vstd::arithmetic::div_mod::lemma_div_is_ordered(
            (term1 * numerator1) as int,
            (term2 * numerator2) as int,
            d as int,
        );
        lemma_exponential_sum_grows(
            numerator1,
            numerator2,
            denominator,
            (term1 * numerator1) / d,
            (term2 * numerator2) / d,
            i + 1,
        );
    }
}

/// More excess blob gas never lowers the blob fee, and the fee is never below the minimum.
pub proof fn law_blob_fee_grows_with_excess(params: BlobParams, excess1: u64, excess2: u64)
    requires
        params.update_fraction > 0,
        excess1 <= excess2,
    ensures
        params.min_blob_fee <= params.blob_fee(excess1) <= params.blob_fee(excess2),
{
    let denominator = params.update_fraction as nat;
    let term = params.min_blob_fee as nat * denominator;
    law_blob_fee_without_excess(params);
    lemma_exponential_sum_grows(0, excess1 as nat, denominator, term, term, 1);
    lemma_exponential_sum_grows(excess1 as nat, excess2 as nat, denominator, term, term, 1);
    vstd::arithmetic::div_mod::lemma_div_is_ordered(
        exponential_sum(0, denominator, term, 1) as int,
        exponential_sum(excess1 as nat, denominator, term, 1) as int,
        denominator as int,
    );
    vstd::arithmetic::div_mod::lemma_div_is_ordered(
        exponential_sum(excess1 as nat, denominator, term, 1) as int,
        exponential_sum(excess2 as nat, denominator, term, 1) as int,
        denominator as int,
    );
}

proof fn lemma_fitting_sum(numerator: nat, denominator: nat, term: nat, i: nat, total: nat)
    requires
        denominator > 0,
        i > 0,
        total <= u128::MAX,
        exponential_fits(numerator, denominator, term, i, total),
    ensures
        total + exponential_sum(numerator, denominator, term, i) <= u128::MAX,
    decreases growing_terms(numerator, denominator, i), term,
{
    if term > 0 {
        lemma_terms_shrink(numerator, denominator, term, i);
        lemma_fitting_sum(
            numerator,
            denominator,
            (term * numerator) / (denominator * i),
            i + 1,
            total + term,
        );
    }
}

/// A blob fee that can be computed in 128 bits fits in 128 bits.
pub proof fn law_computable_blob_fee_fits(params: BlobParams, excess: u64)
    requires
        params.blob_fee_computable(excess),
    ensures
        params.blob_fee(excess) <= u128::MAX,
{
    let denominator = params.update_fraction as nat;
    let term = (params.min_blob_fee * params.update_fraction) as nat;
    lemma_fitting_sum(excess as nat, denominator, term, 1, 0);
    let sum = exponential_sum(excess as nat, denominator, term, 1);
    assert(sum / denominator <= sum) by (nonlinear_arith)
        requires
            denominator > 0,
    ;
}

proof fn lemma_fits_with_less(
    numerator1: nat,
    numerator2: nat,
    denominator: nat,
    term1: nat,
    term2: nat,
    i: nat,
    total1: nat,
    total2: nat,
)
    requires
        numerator1 <= numerator2,
        term1 <= term2,
        total1 <= total2,
        denominator > 0,
        i > 0,
        exponential_fits(numerator2, denominator, term2, i, total2),
    ensures
        exponential_fits(numerator1, denominator, term1, i, total1),
    decreases growing_terms(numerator1, denominator, i), term1,
{
    if term1 > 0 {
        lemma_terms_shrink(numerator1, denominator, term1, i);
        lemma_terms_shrink(numerator2, denominator, term2, i);
        let d = denominator * i;
        assert(d > 0) by (nonlinear_arith)
            requires
                d == denominator * i,
                denominator > 0,
                i > 0,
        ;
        assert(term1 * numerator1 <= term2 * numerator2) by (nonlinear_arith)
            requires
                term1 <= term2,
                numerator1 <= numerator2,
        ;
        vstd::arithmetic::div_mod::lemma_div_is_ordered(
            (term1 * numerator1) as int,
            (term2 * numerator2) as int,
            d as int,
        );
        lemma_fits_with_less(
            numerator1,
            numerator2,
            denominator,
            (term1 * numerator1) / d,
            (term2 * numerator2) / d,
            i + 1,
            total1 + term1,
            total2 + term2,
        );
    }
}

/// Where a blob fee can be computed, so can the one at any smaller excess.
pub proof fn law_smaller_excess_is_computable(params: BlobParams, excess1: u64, excess2: u64)
    requires
        excess1 <= excess2,
        params.blob_fee_computable(excess2),
    ensures
        params.blob_fee_computable(excess1),
{
    let term = (params.min_blob_fee * params.update_fraction) as nat;
    lemma_fits_with_less(
        excess1 as nat,
        excess2 as nat,
        params.update_fraction as nat,
        term,
        term,
        1,
        0,
        0,
    );
}

/// Without excess blob gas the blob fee can be computed exactly if there is an update fraction and
/// its product with the minimum fee fits.
pub proof fn law_computable_without_excess(params: BlobParams)
    ensures
        params.blob_fee_computable(0) <==> params.update_fraction > 0 && params.min_blob_fee
            * params.update_fraction <= u128::MAX,
{
    let denominator = params.update_fraction as nat;
    let term = (params.min_blob_fee * params.update_fraction) as nat;
    if params.update_fraction > 0 && term <= u128::MAX {
        assert(term * 0 == 0 && denominator * 1 == denominator);
        assert(0nat / denominator == 0) by (nonlinear_arith)
            requires
                denominator > 0,
        ;
        assert(exponential_fits(0, denominator, 0, 2, term));
        assert(exponential_fits(0, denominator, term, 1, 0));
    }
}

/// The blob fee grows with the excess at least as fast as a straight line does.
pub proof fn law_blob_fee_is_above_a_line(params: BlobParams, excess: u64)
    requires
        params.update_fraction > 0,
    ensures
        params.blob_fee(excess) >= params.min_blob_fee + (params.min_blob_fee * excess)
            / params.update_fraction as int,
{
    let factor = params.min_blob_fee as nat;
    let numerator = excess as nat;
    let denominator = params.update_fraction as nat;
    let term = factor * denominator;
    let next = (term * numerator) / (denominator * 1);
    if term > 0 {
        lemma_terms_shrink(numerator, denominator, term, 1);
        assert(next == factor * numerator) by (nonlinear_arith)
            requires
                term == factor * denominator,
                next == (term * numerator) / (denominator * 1),
                denominator > 0,
        ;
        assert(exponential_sum(numerator, denominator, next, 2) >= next);
    } else {
        assert(factor == 0) by (nonlinear_arith)
            requires
                factor * denominator == 0,
                denominator > 0,
        ;
        assert(factor * numerator == 0) by (nonlinear_arith)
            requires
                factor == 0,
        ;
    }
    let sum = exponential_sum(numerator, denominator, term, 1);
    assert(sum >= factor * denominator + factor * numerator);
    assert(sum / denominator >= factor + (factor * numerator) / denominator) by (nonlinear_arith)
        requires
            sum >= factor * denominator + factor * numerator,
            denominator > 0,
    ;
}

proof fn lemma_halving_terms(numerator: nat, denominator: nat, term: nat, i: nat)
    requires
        0 < denominator,
        numerator <= denominator,
        i >= 2,
    ensures
        exponential_sum(numerator, denominator, term, i) <= 2 * term,
    decreases growing_terms(numerator, denominator, i), term,
{
    if term > 0 {
        lemma_terms_shrink(numerator, denominator, term, i);
        let next = (term * numerator) / (denominator * i);
        assert(2 * next <= term) by (nonlinear_arith)
            requires
                next == (term * numerator) / (denominator * i),
                numerator <= denominator,
                denominator > 0,
                i >= 2,
        {
            let d = denominator * i;
            assert(d >= 2 * denominator);
            assert(next * d <= term * numerator);
            assert(next * (2 * denominator) <= next * d);
            assert(term * numerator <= term * denominator);
        }
        lemma_halving_terms(numerator, denominator, next, i + 1);
    }
}

/// Up to an excess of one update fraction, the blob fee is at most three times the minimum.
pub proof fn law_blob_fee_of_small_excess(params: BlobParams, excess: u64)
    requires
        0 < params.update_fraction,
        excess <= params.update_fraction,
    ensures
        params.blob_fee(excess) <= 3 * params.min_blob_fee,
{
    let factor = params.min_blob_fee as nat;
    let numerator = excess as nat;
    let denominator = params.update_fraction as nat;
    let term = factor * denominator;
    let next = (term * numerator) / (denominator * 1);
    if term > 0 {
        lemma_terms_shrink(numerator, denominator, term, 1);
        assert(next <= term) by (nonlinear_arith)
            requires
                next == (term * numerator) / (denominator * 1),
                numerator <= denominator,
                denominator > 0,
        ;
        lemma_halving_terms(numerator, denominator, next, 2);
    }
    let sum = exponential_sum(numerator, denominator, term, 1);
    assert(sum <= 3 * term);
    assert(sum / denominator <= 3 * factor) by (nonlinear_arith)
        requires
            sum <= 3 * (factor * denominator),
            denominator > 0,
    ;
}

/// Excess blob gas builds up where a block uses more than the target, wears off where it uses
/// less, and stays where it uses the target.
pub proof fn law_excess_follows_target(params: BlobParams, excess: u64, used: u64)
    ensures
        used > params.target_blob_gas() ==> params.next_excess_blob_gas(excess, used) > excess,
        used == params.target_blob_gas() ==> params.next_excess_blob_gas(excess, used) == excess,
        used < params.target_blob_gas() && excess > 0 ==> params.next_excess_blob_gas(excess, used)
            < excess,
        0 <= params.next_excess_blob_gas(excess, used) <= excess + used,
{
}

/// Calls `alloy_eips::eip7840::BlobParams::calc_blob_fee`.
///
/// The call evaluates the `fake_exponential` series of EIP-4844 in 128 bits. It panics where the
/// update fraction is zero and, in builds with overflow checks, where a step of the series does
/// not fit, so both are left out. On all other inputs it is claimed to return the series' value.
#[verifier::external_body]
pub(crate) fn calc_blob_fee(params: &BlobParams, excess_blob_gas: u64) -> (fee: u128)
    requires
        params.blob_fee_computable(excess_blob_gas),
    ensures
        fee == params.blob_fee(excess_blob_gas),
{
    alloy_eips::eip7840::BlobParams {
        target_blob_count: params.target_blob_count,
        max_blob_count: params.max_blob_count,
        update_fraction: params.update_fraction,
        min_blob_fee: params.min_blob_fee,
        max_blobs_per_tx: params.max_blobs_per_tx,
    }.calc_blob_fee(excess_blob_gas)
}

/// Calls `alloy_eips::eip7840::BlobParams::next_block_excess_blob_gas`.
///
/// It is claimed to return the excess and the used blob gas less the target, or zero where the
/// target is not reached. Inputs on which the sum or the target overflow are left out.
#[verifier::external_body]
pub(crate) fn next_block_excess_blob_gas(
    params: &BlobParams,
    excess_blob_gas: u64,
    blob_gas_used: u64,
) -> (next: u64)
    requires
        excess_blob_gas + blob_gas_used <= u64::MAX,
        params.target_blob_gas() <= u64::MAX,
    ensures
        next == params.next_excess_blob_gas(excess_blob_gas, blob_gas_used),
{
    alloy_eips::eip7840::BlobParams {
        target_blob_count: params.target_blob_count,
        max_blob_count: params.max_blob_count,
        update_fraction: params.update_fraction,
        min_blob_fee: params.min_blob_fee,
        max_blobs_per_tx: params.max_blobs_per_tx,
    }.next_block_excess_blob_gas(excess_blob_gas, blob_gas_used)
}

/// Calls `alloy_eips::eip7840::BlobParams::max_blob_gas_per_block`.
///
/// It is claimed to return the maximum blob count times the blob gas of one blob. Counts for
/// which that product overflows are left out.
#[verifier::external_body]
pub(crate) fn max_blob_gas_per_block(params: &BlobParams) -> (gas: u64)
    requires
        params.max_blob_gas() <= u64::MAX,
    ensures
        gas == params.max_blob_gas(),
{
    alloy_eips::eip7840::BlobParams {
        target_blob_count: params.target_blob_count,
        max_blob_count: params.max_blob_count,
        update_fraction: params.update_fraction,
        min_blob_fee: params.min_blob_fee,
        max_blobs_per_tx: params.max_blobs_per_tx,
    }.max_blob_gas_per_block()
}

/// Reads the constant `alloy_eips::eip4844::MAX_DATA_GAS_PER_BLOCK_DENCUN`, claimed to be
/// [`MAX_DATA_GAS_PER_BLOCK_DENCUN`].
#[verifier::external_body]
pub(crate) fn max_data_gas_per_block_dencun() -> (gas: u64)
    ensures
        gas == MAX_DATA_GAS_PER_BLOCK_DENCUN,
{
    alloy_eips::eip4844::MAX_DATA_GAS_PER_BLOCK_DENCUN
}

} // verus!
