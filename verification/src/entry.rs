//! Fee history entries: what is kept of a block to answer fee history requests.

use crate::blob::{
    calc_blob_fee, max_blob_gas_per_block, max_data_gas_per_block_dencun,
    next_block_excess_blob_gas, BlobParams, DATA_GAS_PER_BLOB, MAX_DATA_GAS_PER_BLOCK_DENCUN,
};
use crate::block::{Block, Header};
use vstd::prelude::*;

verus! {

/// A ratio of two amounts of gas.
#[derive(Clone, Copy, Debug, PartialEq, Eq)]
pub struct Ratio {
    /// The amount that was used.
    pub numerator: u64,
    /// The amount that was available.
    pub denominator: u64,
}

/// The blob gas used ratio: zero where no blob gas was used, whatever was available.
pub open spec fn blob_ratio(blob_gas_used: u64, max_blob_gas_per_block: u64) -> Ratio {
    if blob_gas_used == 0 {
        Ratio { numerator: 0, denominator: 1 }
    } else {
        Ratio { numerator: blob_gas_used, denominator: max_blob_gas_per_block }
    }
}

/// Returns the ratio of the blob gas used in a block and the blob gas available in it, zero where
/// no blob gas was used.
pub fn checked_blob_gas_used_ratio(blob_gas_used: u64, max_blob_gas_per_block: u64) -> (ratio:
    Ratio)
    ensures
        ratio == blob_ratio(blob_gas_used, max_blob_gas_per_block),
{
    if blob_gas_used == 0 {
        Ratio { numerator: 0, denominator: 1 }
    } else {
        Ratio { numerator: blob_gas_used, denominator: max_blob_gas_per_block }
    }
}

/// A cached entry for a block's fee history.
#[derive(Debug)]
pub struct FeeHistoryEntry<H> {
    /// The block header.
    pub header: Header<H>,
    /// Gas used ratio of this block.
    pub gas_used_ratio: Ratio,
    /// The base fee per blob gas for EIP-4844, zero before EIP-4844. `None` where it is not known:
    /// the blob parameters or the excess blob gas are missing, but not both.
    pub base_fee_per_blob_gas: Option<u128>,
    /// Blob gas used ratio for this block.
    ///
    /// Calculated as the ratio of blob gas used and the available blob data gas per block.
    /// Zero if no blob gas was used or before EIP-4844.
    pub blob_gas_used_ratio: Ratio,
    /// Approximated rewards for the configured percentiles.
    pub rewards: Vec<u128>,
    /// Blob parameters for this block.
    pub blob_params: Option<BlobParams>,
}

/// What a [`FeeHistoryEntry`] holds.
#[verifier::ext_equal]
pub struct EntryView<H> {
    pub header: Header<H>,
    pub gas_used_ratio: Ratio,
    pub base_fee_per_blob_gas: Option<u128>,
    pub blob_gas_used_ratio: Ratio,
    pub rewards: Seq<u128>,
    pub blob_params: Option<BlobParams>,
}

impl<H> View for FeeHistoryEntry<H> {
    type V = EntryView<H>;

    open spec fn view(&self) -> EntryView<H> {
        EntryView {
            header: self.header,
            gas_used_ratio: self.gas_used_ratio,
            base_fee_per_blob_gas: self.base_fee_per_blob_gas,
            blob_gas_used_ratio: self.blob_gas_used_ratio,
            rewards: self.rewards@,
            blob_params: self.blob_params,
        }
    }
}

impl<H> Clone for FeeHistoryEntry<H> {
    fn clone(&self) -> (entry: Self)
        ensures
            entry@ == self@,
    {
        let rewards = self.rewards.clone();
        assert(rewards@ =~= self.rewards@);
        FeeHistoryEntry {
            header: self.header.clone(),
            gas_used_ratio: self.gas_used_ratio,
            base_fee_per_blob_gas: self.base_fee_per_blob_gas,
            blob_gas_used_ratio: self.blob_gas_used_ratio,
            rewards,
            blob_params: self.blob_params,
        }
    }
}

/// The blob fee at an excess of blob gas, where both the excess and the parameters are known.
pub open spec fn blob_fee_at(
    excess_blob_gas: Option<u64>,
    blob_params: Option<BlobParams>,
) -> Option<u128> {
    match (excess_blob_gas, blob_params) {
        (Some(excess), Some(params)) => Some(params.blob_fee(excess) as u128),
        _ => None,
    }
}

/// The base fee per blob gas of a block: the blob fee at its excess of blob gas, zero before
/// EIP-4844, when there are neither an excess nor blob parameters.
pub open spec fn base_blob_fee(
    excess_blob_gas: Option<u64>,
    blob_params: Option<BlobParams>,
) -> Option<u128> {
    if excess_blob_gas is None && blob_params is None {
        Some(0)
    } else {
        blob_fee_at(excess_blob_gas, blob_params)
    }
}

/// Whether the blob fee at an excess of blob gas can be computed in 128 bits.
pub open spec fn blob_fee_at_computable(
    excess_blob_gas: Option<u64>,
    blob_params: Option<BlobParams>,
) -> bool {
    match (excess_blob_gas, blob_params) {
        (Some(excess), Some(params)) => params.blob_fee_computable(excess),
        _ => true,
    }
}

/// The blob gas available in a block.
pub open spec fn available_blob_gas(blob_params: Option<BlobParams>) -> int {
    match blob_params {
        Some(params) => params.max_blob_gas(),
        None => MAX_DATA_GAS_PER_BLOCK_DENCUN as int,
    }
}

/// Whether the entry of a block can be computed without overflow.
pub open spec fn entry_computable<H>(header: Header<H>, blob_params: Option<BlobParams>) -> bool {
    &&& available_blob_gas(blob_params) <= u64::MAX
    &&& blob_fee_at_computable(header.excess_blob_gas, blob_params)
}

/// The entry of a block, without rewards.
pub open spec fn entry_of<H>(
    header: Header<H>,
    body_blob_gas_used: u64,
    blob_params: Option<BlobParams>,
) -> EntryView<H> {
    EntryView {
        header,
        gas_used_ratio: Ratio { numerator: header.gas_used, denominator: header.gas_limit },
        base_fee_per_blob_gas: base_blob_fee(header.excess_blob_gas, blob_params),
        blob_gas_used_ratio: blob_ratio(
            body_blob_gas_used,
            available_blob_gas(blob_params) as u64,
        ),
        rewards: Seq::empty(),
        blob_params,
    }
}

/// Tests whether the entry of a block can be computed without overflow.
pub fn can_compute_entry<H>(header: &Header<H>, blob_params: &Option<BlobParams>) -> (r: bool)
    ensures
        r == entry_computable(*header, *blob_params),
{
    match blob_params {
        Some(params) => {
            if params.max_blob_count.checked_mul(DATA_GAS_PER_BLOB).is_none() {
                return false;
            }
            match header.excess_blob_gas {
                Some(excess) => params.can_compute_blob_fee(excess),
                None => true,
            }
        },
        None => true,
    }
}

impl<H> EntryView<H> {
    /// The excess blob gas of the next block, where this block's blob gas and the parameters are
    /// known.
    pub open spec fn next_excess(self) -> Option<u64> {
        match (self.header.excess_blob_gas, self.blob_params, self.header.blob_gas_used) {
            (Some(excess), Some(params), Some(used)) => Some(
                params.next_excess_blob_gas(excess, used) as u64,
            ),
            _ => None,
        }
    }

    /// Whether that excess can be computed without overflow.
    pub open spec fn next_excess_computable(self) -> bool {
        match (self.header.excess_blob_gas, self.blob_params, self.header.blob_gas_used) {
            (Some(excess), Some(params), Some(used)) => {
                &&& excess + used <= u64::MAX
                &&& params.target_blob_gas() <= u64::MAX
            },
            _ => true,
        }
    }

    /// Whether the blob fee of the next block can be computed without overflow.
    pub open spec fn next_blob_fee_computable(self) -> bool {
        &&& self.next_excess_computable()
        &&& blob_fee_at_computable(self.next_excess(), self.blob_params)
    }
}

impl<H> FeeHistoryEntry<H> {
    /// Creates a new entry from a block.
    ///
    /// Note: This does not calculate the rewards for the block.
    pub fn new(block: &Block<H>, blob_params: Option<BlobParams>) -> (entry: Self)
        requires
            entry_computable(block.header, blob_params),
        ensures
            entry@ == entry_of(block.header, block.body_blob_gas_used, blob_params),
    {
        let header = block.header.clone();
        let base_fee_per_blob_gas = match (header.excess_blob_gas, &blob_params) {
            (Some(excess_blob_gas), Some(params)) => Some(calc_blob_fee(params, excess_blob_gas)),
            (None, None) => Some(0),
            _ => None,
        };
        let available: u64 = match &blob_params {
            Some(params) => max_blob_gas_per_block(params),
            None => max_data_gas_per_block_dencun(),
        };
        let entry = FeeHistoryEntry {
            gas_used_ratio: Ratio { numerator: header.gas_used, denominator: header.gas_limit },
            header,
            base_fee_per_blob_gas,
            blob_gas_used_ratio: checked_blob_gas_used_ratio(block.body_blob_gas_used, available),
            rewards: Vec::new(),
            blob_params,
        };
        assert(entry@ =~= entry_of(block.header, block.body_blob_gas_used, blob_params));
        entry
    }

    /// Returns the blob fee for the next block according to EIP-4844.
    ///
    /// Returns `None` if there is no excess blob gas for the next block.
    ///
    /// See also [`Self::next_block_excess_blob_gas`]
    pub fn next_block_blob_fee(&self) -> (fee: Option<u128>)
        requires
            self@.next_blob_fee_computable(),
        ensures
            fee == blob_fee_at(self@.next_excess(), self.blob_params),
    {
        match self.next_block_excess_blob_gas() {
            Some(excess_blob_gas) => match &self.blob_params {
                Some(params) => Some(calc_blob_fee(params, excess_blob_gas)),
                None => None,
            },
            None => None,
        }
    }

    /// Calculates the excess blob gas for the next block according to EIP-4844.
    ///
    /// Returns `None` if no excess blob gas is set, no EIP-4844 support.
    pub fn next_block_excess_blob_gas(&self) -> (next: Option<u64>)
        requires
            self@.next_excess_computable(),
        ensures
            next == self@.next_excess(),
    {
        let excess_blob_gas = match self.header.excess_blob_gas {
            Some(excess_blob_gas) => excess_blob_gas,
            None => return None,
        };
        match (&self.blob_params, self.header.blob_gas_used) {
            (Some(params), Some(blob_gas_used)) => Some(
                next_block_excess_blob_gas(params, excess_blob_gas, blob_gas_used),
            ),
            _ => None,
        }
    }

    /// Tests whether the excess blob gas of the next block can be computed without overflow.
    pub fn can_compute_next_block_excess_blob_gas(&self) -> (r: bool)
        ensures
            r == self@.next_excess_computable(),
    {
        match (self.header.excess_blob_gas, &self.blob_params, self.header.blob_gas_used) {
            (Some(excess), Some(params), Some(used)) => {
                excess.checked_add(used).is_some()
                    && params.target_blob_count.checked_mul(DATA_GAS_PER_BLOB).is_some()
            },
            _ => true,
        }
    }

    /// Tests whether the blob fee of the next block can be computed without overflow.
    pub fn can_compute_next_block_blob_fee(&self) -> (r: bool)
        ensures
            r == self@.next_blob_fee_computable(),
    {
        if !self.can_compute_next_block_excess_blob_gas() {
            return false;
        }
        match (self.next_block_excess_blob_gas(), &self.blob_params) {
            (Some(excess), Some(params)) => params.can_compute_blob_fee(excess),
            _ => true,
        }
    }
}

/// The blob fee predicted for the next block is the one that the next block's entry reports, where
/// that block has the predicted excess blob gas and the same blob parameters.
pub proof fn law_predicted_blob_fee_is_reported<H>(
    parent: EntryView<H>,
    child: Header<H>,
    body_blob_gas_used: u64,
    params: BlobParams,
)
    requires
        parent.blob_params == Some(params),
        child.excess_blob_gas == parent.next_excess(),
    ensures
        blob_fee_at(parent.next_excess(), parent.blob_params) == entry_of(
            child,
            body_blob_gas_used,
            Some(params),
        ).base_fee_per_blob_gas,
        parent.next_excess() matches Some(excess) ==> entry_of(
            child,
            body_blob_gas_used,
            Some(params),
        ).base_fee_per_blob_gas == Some(params.blob_fee(excess) as u128),
{
}

} // verus!
