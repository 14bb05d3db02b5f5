//! The plain block data that the fee history is computed from.

use std::sync::Arc;
use vstd::prelude::*;

verus! {

/// A block header: the values that the fee history reads, and the full header that they were read
/// from, which it hands on untouched.
#[derive(Debug, PartialEq, Eq)]
pub struct Header<H> {
    /// Number of the block.
    pub number: u64,
    /// Timestamp of the block.
    pub timestamp: u64,
    /// Gas that the transactions of the block used.
    pub gas_used: u64,
    /// Gas limit of the block.
    pub gas_limit: u64,
    /// Base fee per gas, from EIP-1559 on.
    pub base_fee_per_gas: Option<u64>,
    /// Blob gas used, from EIP-4844 on.
    pub blob_gas_used: Option<u64>,
    /// Excess blob gas, from EIP-4844 on.
    pub excess_blob_gas: Option<u64>,
    /// The full block header.
    pub full: Arc<H>,
}

impl<H> Header<H> {
    /// The base fee per gas, zero before EIP-1559.
    pub open spec fn base_fee(self) -> u64 {
        match self.base_fee_per_gas {
            Some(base_fee) => base_fee,
            None => 0,
        }
    }
}

impl<H> Clone for Header<H> {
    fn clone(&self) -> (r: Self)
        ensures
            r == *self,
    {
        Header {
            number: self.number,
            timestamp: self.timestamp,
            gas_used: self.gas_used,
            gas_limit: self.gas_limit,
            base_fee_per_gas: self.base_fee_per_gas,
            blob_gas_used: self.blob_gas_used,
            excess_blob_gas: self.excess_blob_gas,
            full: self.full.clone(),
        }
    }
}

/// What a transaction offers to pay for its gas.
#[derive(Clone, Copy, Debug, PartialEq, Eq)]
pub enum TxFees {
    /// A transaction with a single gas price.
    Legacy { gas_price: u128 },
    /// A transaction with a fee cap and a priority fee.
    Dynamic { max_fee_per_gas: u128, max_priority_fee_per_gas: u128 },
    /// A transaction that works out its own tip, with the tip that it quotes for the base fee of
    /// its block.
    Quoted { tip: Option<u128> },
}

/// What a fee cap leaves above the base fee, `None` where it is below the base fee.
pub open spec fn above_base_fee(fee_cap: u128, base_fee: u64) -> Option<u128> {
    if fee_cap < base_fee {
        None
    } else {
        Some((fee_cap - base_fee) as u128)
    }
}

impl TxFees {
    /// The tip per gas at the given base fee: what the gas price or the fee cap leaves above the
    /// base fee, but no more than the priority fee, or what the transaction quotes. `None` where
    /// the transaction cannot pay the base fee.
    pub open spec fn tip(self, base_fee: u64) -> Option<u128> {
        match self {
            TxFees::Legacy { gas_price } => above_base_fee(gas_price, base_fee),
            TxFees::Dynamic { max_fee_per_gas, max_priority_fee_per_gas } => match above_base_fee(
                max_fee_per_gas,
                base_fee,
            ) {
                Some(above) if above <= max_priority_fee_per_gas => Some(above),
                Some(_) => Some(max_priority_fee_per_gas),
                None => None,
            },
            TxFees::Quoted { tip } => tip,
        }
    }

    /// Returns the effective tip per gas of the transaction, if it can pay the base fee at all.
    pub fn effective_tip_per_gas(&self, base_fee: u64) -> (tip: Option<u128>)
        ensures
            tip == self.tip(base_fee),
    {
        match *self {
            TxFees::Legacy { gas_price } => legacy_tip_per_gas(gas_price, base_fee),
            TxFees::Dynamic { max_fee_per_gas, max_priority_fee_per_gas } => dynamic_tip_per_gas(
                max_fee_per_gas,
                max_priority_fee_per_gas,
                base_fee,
            ),
            TxFees::Quoted { tip } => tip,
        }
    }
}

/// Calls `alloy_consensus::Transaction::effective_tip_per_gas` on a legacy transaction.
///
/// It is claimed to return the gas price less the base fee, or `None` where the gas price is
/// below the base fee.
#[verifier::external_body]
fn legacy_tip_per_gas(gas_price: u128, base_fee: u64) -> (tip: Option<u128>)
    ensures
        tip == (TxFees::Legacy { gas_price }).tip(base_fee),
{
    let tx = alloy_consensus::TxLegacy { gas_price, ..Default::default() };
    alloy_consensus::Transaction::effective_tip_per_gas(&tx, base_fee)
}

/// Calls `alloy_consensus::Transaction::effective_tip_per_gas` on an EIP-1559 transaction.
///
/// It is claimed to return the smaller of the priority fee and the fee cap less the base fee, or
/// `None` where the fee cap is below the base fee.
#[verifier::external_body]
fn dynamic_tip_per_gas(
    max_fee_per_gas: u128,
    max_priority_fee_per_gas: u128,
    base_fee: u64,
) -> (tip: Option<u128>)
    ensures
        tip == (TxFees::Dynamic { max_fee_per_gas, max_priority_fee_per_gas }).tip(base_fee),
{
    let tx = alloy_consensus::TxEip1559 {
        max_fee_per_gas,
        max_priority_fee_per_gas,
        ..Default::default()
    };
    alloy_consensus::Transaction::effective_tip_per_gas(&tx, base_fee)
}

/// The part of a transaction receipt that the fee history reads.
#[derive(Clone, Copy, Debug, PartialEq, Eq)]
pub struct Receipt {
    /// Gas used in the block up to and including the receipt's transaction.
    pub cumulative_gas_used: u64,
}

/// A block: its header and what the fee history reads of its body.
#[derive(Debug, PartialEq, Eq)]
pub struct Block<H> {
    /// The block header.
    pub header: Header<H>,
    /// Blob gas used by all the transactions of the body.
    pub body_blob_gas_used: u64,
    /// The transactions of the body, in block order.
    pub transactions: Vec<TxFees>,
}

} // verus!
