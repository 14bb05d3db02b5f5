//! The entry of a block, and what it predicts for the next one.

use crate::blob::{
    law_blob_fee_grows_with_excess, law_blob_fee_without_excess, law_computable_blob_fee_fits,
    BlobParams,
};
use crate::block::{Block, Header};
use crate::entry::{
    can_compute_entry, checked_blob_gas_used_ratio, EntryView, FeeHistoryEntry, Ratio,
};
use vstd::prelude::*;

verus! {

/// Whether the blob gas used in a block and the parameters of the block, where they are known, are
/// small enough to compute with.
pub open spec fn within_limits<H>(header: Header<H>, params: Option<BlobParams>) -> bool {
    params matches Some(params) ==> {
        &&& params.max_blob_count * 131_072 <= u64::MAX
        &&& header.excess_blob_gas matches Some(excess) ==> params.blob_fee_computable(excess)
    }
}

/// Whether an entry says of a block what it is to say, leaving aside its rewards: the header and
/// the blob parameters as they are, gas used over gas limit, blob gas used over the blob gas that
/// all blobs of a full block take up, and the base fee per blob gas. Without blob parameters a
/// full block has six blobs. The base fee is zero before there are blobs, and unknown where only
/// one of the excess and the parameters is there.
pub open spec fn tells_of<H>(
    entry: EntryView<H>,
    header: Header<H>,
    body_blob_gas_used: u64,
    params: Option<BlobParams>,
) -> bool {
    &&& entry.header == header
    &&& entry.blob_params == params
    &&& entry.gas_used_ratio.numerator == header.gas_used
    &&& entry.gas_used_ratio.denominator == header.gas_limit
    &&& entry.blob_gas_used_ratio.numerator == body_blob_gas_used
    &&& body_blob_gas_used > 0 ==> entry.blob_gas_used_ratio.denominator == match params {
        Some(params) => params.max_blob_count * 131_072,
        None => 6int * 131_072,
    }
    &&& body_blob_gas_used == 0 ==> entry.blob_gas_used_ratio.denominator > 0
    &&& match (header.excess_blob_gas, params) {
        (Some(excess), Some(params)) => {
            &&& entry.base_fee_per_blob_gas matches Some(fee)
            &&& fee == params.blob_fee(excess)
            &&& fee >= params.min_blob_fee
            &&& excess == 0 ==> fee == params.min_blob_fee
        },
        (None, None) => entry.base_fee_per_blob_gas == Some(0u128),
        _ => entry.base_fee_per_blob_gas is None,
    }
}

pub(crate) proof fn lemma_entry_tells<H>(
    header: Header<H>,
    body_blob_gas_used: u64,
    params: Option<BlobParams>,
    rewards: Seq<u128>,
)
    requires
        within_limits(header, params),
    ensures
        tells_of(
            EntryView {
                rewards,
                ..crate::entry::entry_of(header, body_blob_gas_used, params)
            },
            header,
            body_blob_gas_used,
            params,
        ),
{
    if let (Some(excess), Some(params)) = (header.excess_blob_gas, params) {
        law_computable_blob_fee_fits(params, excess);
        law_blob_fee_without_excess(params);
        law_blob_fee_grows_with_excess(params, 0, excess);
    }
}

/// The entry of a block says of it what it is to say, and holds no rewards yet. An entry can be
/// made of every block within the limits.
pub proof fn law_entry_tells_of_its_block<H>(
    block: &Block<H>,
    params: Option<BlobParams>,
    entry: FeeHistoryEntry<H>,
)
    requires
        within_limits(block.header, params),
    ensures
        call_requires(FeeHistoryEntry::<H>::new, (block, params)),
        call_ensures(FeeHistoryEntry::<H>::new, (block, params), entry) ==> {
            &&& tells_of(entry@, block.header, block.body_blob_gas_used, params)
            &&& entry.rewards@.len() == 0
        },
{
    lemma_entry_tells(block.header, block.body_blob_gas_used, params, Seq::empty());
}

/// The test before an entry is made succeeds exactly within the limits.
pub proof fn law_limits_are_tested<H>(
    header: &Header<H>,
    params: &Option<BlobParams>,
    computable: bool,
)
    requires
        call_ensures(can_compute_entry::<H>, (header, params), computable),
    ensures
        computable <==> within_limits(*header, *params),
{
}

/// Of two blocks under the same parameters, the one with more excess blob gas has no lower base
/// fee per blob gas.
pub proof fn law_base_blob_fee_grows_with_excess<H>(
    block1: &Block<H>,
    block2: &Block<H>,
    params: BlobParams,
    entry1: FeeHistoryEntry<H>,
    entry2: FeeHistoryEntry<H>,
)
    requires
        within_limits(block1.header, Some(params)),
        within_limits(block2.header, Some(params)),
        call_ensures(FeeHistoryEntry::<H>::new, (block1, Some(params)), entry1),
        call_ensures(FeeHistoryEntry::<H>::new, (block2, Some(params)), entry2),
        block1.header.excess_blob_gas is Some,
        block2.header.excess_blob_gas is Some,
        block1.header.excess_blob_gas->0 <= block2.header.excess_blob_gas->0,
    ensures
        entry1.base_fee_per_blob_gas is Some,
        entry2.base_fee_per_blob_gas is Some,
        entry1.base_fee_per_blob_gas->0 <= entry2.base_fee_per_blob_gas->0,
{
    law_entry_tells_of_its_block(block1, Some(params), entry1);
    law_entry_tells_of_its_block(block2, Some(params), entry2);
    law_blob_fee_grows_with_excess(
        params,
        block1.header.excess_blob_gas->0,
        block2.header.excess_blob_gas->0,
    );
}

/// A ratio of blob gas is that of its two amounts; it is zero, and never over zero, where no blob
/// gas was used.
pub proof fn law_blob_ratio(used: u64, available: u64, ratio: Ratio)
    requires
        call_ensures(checked_blob_gas_used_ratio, (used, available), ratio),
    ensures
        ratio.numerator == used,
        used > 0 ==> ratio.denominator == available,
        used == 0 ==> ratio.denominator > 0,
{
}

/// An entry with excess `e`, blob gas used `u` and parameters with a target of `t` blobs predicts
/// what `e + u` leaves above the gas of `t` blobs: `e` where the block used its own target, more
/// above it and less below it. Without one of the three nothing is predicted.
pub proof fn law_predicted_excess<H>(entry: &FeeHistoryEntry<H>, next: Option<u64>)
    requires
        entry.header.excess_blob_gas is Some && entry.header.blob_gas_used is Some ==> (
        entry.header.excess_blob_gas->0 + entry.header.blob_gas_used->0 <= u64::MAX),
        call_ensures(FeeHistoryEntry::<H>::next_block_excess_blob_gas, (entry,), next),
    ensures
        match (entry.header.excess_blob_gas, entry.header.blob_gas_used, entry.blob_params) {
            (Some(excess), Some(used), Some(params)) => {
                let target = params.target_blob_count * 131_072;
                &&& next matches Some(next)
                &&& excess + used >= target ==> next + target == excess + used
                &&& excess + used < target ==> next == 0
                &&& used == target ==> next == excess
                &&& used > target ==> next > excess
                &&& used < target && excess > 0 ==> next < excess
            },
            _ => next is None,
        },
{
}

/// The next excess can be computed wherever the sums that it is made of fit.
pub proof fn law_excess_can_be_predicted<H>(entry: &FeeHistoryEntry<H>, computable: bool)
    requires
        call_ensures(
            FeeHistoryEntry::<H>::can_compute_next_block_excess_blob_gas,
            (entry,),
            computable,
        ),
    ensures
        computable <==> (match (
            entry.header.excess_blob_gas,
            entry.header.blob_gas_used,
            entry.blob_params,
        ) {
            (Some(excess), Some(used), Some(params)) => {
                &&& excess + used <= u64::MAX
                &&& params.target_blob_count * 131_072 <= u64::MAX
            },
            _ => true,
        }),
        computable ==> call_requires(
            FeeHistoryEntry::<H>::next_block_excess_blob_gas,
            (entry,),
        ),
{
}

/// The predicted blob fee is the fee at the predicted excess, and there is one exactly if an
/// excess is predicted. It can be computed wherever the excess and the fee can be.
pub proof fn law_predicted_blob_fee<H>(
    entry: &FeeHistoryEntry<H>,
    next: Option<u64>,
    excess_computable: bool,
    computable: bool,
    fee: Option<u128>,
)
    requires
        call_ensures(FeeHistoryEntry::<H>::next_block_excess_blob_gas, (entry,), next),
        call_ensures(
            FeeHistoryEntry::<H>::can_compute_next_block_excess_blob_gas,
            (entry,),
            excess_computable,
        ),
        call_ensures(FeeHistoryEntry::<H>::can_compute_next_block_blob_fee, (entry,), computable),
        call_ensures(FeeHistoryEntry::<H>::next_block_blob_fee, (entry,), fee),
    ensures
        computable <==> excess_computable && (next is Some && entry.blob_params is Some
            ==> entry.blob_params->0.blob_fee_computable(next->0)),
        computable ==> call_requires(FeeHistoryEntry::<H>::next_block_blob_fee, (entry,)),
        fee is Some <==> next is Some,
        computable ==> (fee matches Some(fee) ==> {
            &&& entry.blob_params is Some
            &&& fee == entry.blob_params->0.blob_fee(next->0)
            &&& fee >= entry.blob_params->0.min_blob_fee
        }),
{
    if let (Some(next), Some(params)) = (next, entry.blob_params) {
        if params.blob_fee_computable(next) {
            law_computable_blob_fee_fits(params, next);
            law_blob_fee_grows_with_excess(params, 0, next);
        }
    }
}

/// The blob fee that an entry predicts is the one that the entry of the next block reports, where
/// that block has the predicted excess and the same parameters.
pub proof fn law_next_entry_reports_the_predicted_fee<H>(
    entry: &FeeHistoryEntry<H>,
    next: Option<u64>,
    fee: Option<u128>,
    block: &Block<H>,
    next_entry: FeeHistoryEntry<H>,
)
    requires
        entry.blob_params is Some,
        call_ensures(FeeHistoryEntry::<H>::next_block_excess_blob_gas, (entry,), next),
        call_ensures(FeeHistoryEntry::<H>::next_block_blob_fee, (entry,), fee),
        block.header.excess_blob_gas == next,
        call_ensures(FeeHistoryEntry::<H>::new, (block, entry.blob_params), next_entry),
    ensures
        next_entry.base_fee_per_blob_gas == fee,
{
}

/// What is said of an entry is said of its fields as they are.
pub proof fn law_entries_are_read_field_by_field<H>(entry: FeeHistoryEntry<H>)
    ensures
        entry@.header == entry.header,
        entry@.gas_used_ratio == entry.gas_used_ratio,
        entry@.base_fee_per_blob_gas == entry.base_fee_per_blob_gas,
        entry@.blob_gas_used_ratio == entry.blob_gas_used_ratio,
        entry@.rewards == entry.rewards@,
        entry@.blob_params == entry.blob_params,
{
}

/// A copy of an entry holds the same.
pub proof fn law_copy_of_entry<H>(entry: &FeeHistoryEntry<H>, copy: FeeHistoryEntry<H>)
    requires
        call_ensures(FeeHistoryEntry::<H>::clone, (entry,), copy),
    ensures
        copy.header == entry.header,
        copy.gas_used_ratio == entry.gas_used_ratio,
        copy.base_fee_per_blob_gas == entry.base_fee_per_blob_gas,
        copy.blob_gas_used_ratio == entry.blob_gas_used_ratio,
        copy.rewards@ == entry.rewards@,
        copy.blob_params == entry.blob_params,
{
}

} // verus!
