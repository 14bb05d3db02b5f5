//! The blob fee, as the sum of a series.

use crate::blob::{
    exponential_fits, exponential_sum, growing_terms, law_computable_blob_fee_fits,
    lemma_terms_shrink, BlobParams,
};
use vstd::prelude::*;

verus! {

/// The `i`-th term, from one on, of the series that approximates the minimum fee times the update
/// fraction times `e` to the power of the excess over the update fraction: each term is the one
/// before it times the excess, over the update fraction times the number of the term before it.
pub open spec fn series_term(params: BlobParams, excess: u64, i: nat) -> nat
    decreases i,
{
    if i <= 1 {
        params.min_blob_fee as nat * params.update_fraction as nat
    } else {
        (series_term(params, excess, (i - 1) as nat) * excess as nat) / (
        params.update_fraction as nat * (i - 1) as nat)
    }
}

/// The sum of the first `n` terms.
pub open spec fn series_sum(params: BlobParams, excess: u64, n: nat) -> nat
    decreases n,
{
    if n == 0 {
        0
    } else {
        series_sum(params, excess, (n - 1) as nat) + series_term(params, excess, n)
    }
}

proof fn lemma_zero_stays(params: BlobParams, excess: u64, i: nat, m: nat)
    requires
        params.update_fraction > 0,
        1 <= i <= m,
        series_term(params, excess, i) == 0,
    ensures
        series_term(params, excess, m) == 0,
        series_sum(params, excess, m) == series_sum(params, excess, (i - 1) as nat),
    decreases m,
{
    if i < m {
        lemma_zero_stays(params, excess, i, (m - 1) as nat);
        let d = params.update_fraction as nat * (m - 1) as nat;
        assert(d > 0) by (nonlinear_arith)
            requires
                d == params.update_fraction as nat * (m - 1) as nat,
                params.update_fraction > 0,
                m >= 2,
        ;
        assert((0 * excess as nat) / d == 0) by (nonlinear_arith)
            requires
                d > 0,
        ;
    }
}

proof fn lemma_sum_from(params: BlobParams, excess: u64, i: nat, m: nat)
    requires
        params.update_fraction > 0,
        1 <= i <= m,
        series_term(params, excess, m) == 0,
    ensures
        series_sum(params, excess, (i - 1) as nat) + exponential_sum(
            excess as nat,
            params.update_fraction as nat,
            series_term(params, excess, i),
            i,
        ) == series_sum(params, excess, m),
    decreases m - i,
{
    let term = series_term(params, excess, i);
    if term == 0 {
        lemma_zero_stays(params, excess, i, m);
    } else {
        lemma_terms_shrink(excess as nat, params.update_fraction as nat, term, i);
        lemma_sum_from(params, excess, i + 1, m);
    }
}

/// The blob fee is the sum of the series up to its first term that is zero, over the update
/// fraction.
pub proof fn law_blob_fee_is_the_sum_of_a_series(params: BlobParams, excess: u64, end: nat)
    requires
        params.update_fraction > 0,
        end > 0,
        series_term(params, excess, end) == 0,
    ensures
        params.blob_fee(excess) == series_sum(params, excess, end) / params.update_fraction as nat,
{
    lemma_sum_from(params, excess, 1, end);
    assert(series_sum(params, excess, 0) == 0);
}

/// Whether a term of the series that is not zero can be added and the next one computed, in 128
/// bits.
pub open spec fn step_fits(params: BlobParams, excess: u64, i: nat) -> bool {
    &&& series_sum(params, excess, i) <= u128::MAX
    &&& series_term(params, excess, i) * excess as nat <= u128::MAX
    &&& params.update_fraction as nat * i <= u128::MAX
    &&& i < u128::MAX
}

proof fn lemma_steps_fit(params: BlobParams, excess: u64, i: nat)
    requires
        params.update_fraction > 0,
        i >= 1,
        exponential_fits(
            excess as nat,
            params.update_fraction as nat,
            series_term(params, excess, i),
            i,
            series_sum(params, excess, (i - 1) as nat),
        ),
    ensures
        forall|k: nat|
            k >= i && series_term(params, excess, k) > 0 ==> #[trigger] step_fits(
                params,
                excess,
                k,
            ),
    decreases
            growing_terms(excess as nat, params.update_fraction as nat, i),
            series_term(params, excess, i),
{
    let term = series_term(params, excess, i);
    if term == 0 {
        assert forall|k: nat| k >= i && series_term(params, excess, k) > 0 implies #[trigger]
            step_fits(params, excess, k) by {
            lemma_zero_stays(params, excess, i, k);
        }
    } else {
        lemma_terms_shrink(excess as nat, params.update_fraction as nat, term, i);
        lemma_steps_fit(params, excess, i + 1);
        assert(step_fits(params, excess, i));
        assert forall|k: nat| k >= i && series_term(params, excess, k) > 0 implies #[trigger]
            step_fits(params, excess, k) by {
            if k > i {
                assert(k >= i + 1);
            }
        }
    }
}

proof fn lemma_fitting_steps(params: BlobParams, excess: u64, i: nat)
    requires
        params.update_fraction > 0,
        i >= 1,
        forall|k: nat|
            k >= i && series_term(params, excess, k) > 0 ==> #[trigger] step_fits(
                params,
                excess,
                k,
            ),
    ensures
        exponential_fits(
            excess as nat,
            params.update_fraction as nat,
            series_term(params, excess, i),
            i,
            series_sum(params, excess, (i - 1) as nat),
        ),
    decreases
            growing_terms(excess as nat, params.update_fraction as nat, i),
            series_term(params, excess, i),
{
    let term = series_term(params, excess, i);
    if term > 0 {
        lemma_terms_shrink(excess as nat, params.update_fraction as nat, term, i);
        assert(step_fits(params, excess, i));
        lemma_fitting_steps(params, excess, i + 1);
    }
}

/// The test before a blob fee is computed succeeds exactly if there is an update fraction and
/// every step of the series fits in 128 bits. The fee then fits too.
pub proof fn law_blob_fee_is_tested(params: &BlobParams, excess: u64, computable: bool)
    requires
        call_ensures(BlobParams::can_compute_blob_fee, (params, excess), computable),
    ensures
        computable <==> {
            &&& params.update_fraction > 0
            &&& params.min_blob_fee * params.update_fraction <= u128::MAX
            &&& forall|k: nat|
                k >= 1 && series_term(*params, excess, k) > 0 ==> #[trigger] step_fits(
                    *params,
                    excess,
                    k,
                )
        },
        computable <==> params.blob_fee_computable(excess),
        computable ==> params.blob_fee(excess) <= u128::MAX,
{
    if params.update_fraction > 0 {
        assert(series_sum(*params, excess, 0) == 0);
        if params.blob_fee_computable(excess) {
            lemma_steps_fit(*params, excess, 1);
            law_computable_blob_fee_fits(*params, excess);
        } else if params.min_blob_fee * params.update_fraction <= u128::MAX && forall|k: nat|
            k >= 1 && series_term(*params, excess, k) > 0 ==> #[trigger] step_fits(
                *params,
                excess,
                k,
            ) {
            lemma_fitting_steps(*params, excess, 1);
        }
    }
}

} // verus!
