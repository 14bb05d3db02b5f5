//! Placeholder components, and builders for them.
//!
//! The components stand in for real ones where a node needs none: they hold nothing and have no
//! operations.

use crate::components::stages::{
    ConsensusBuilder, FullNodeTypes, NetworkBuilder, PayloadServiceBuilder, PoolBuilder,
};
use std::marker::PhantomData;
use vstd::prelude::*;

verus! {

/// A placeholder for a transaction pool.
#[derive(Debug)]
pub struct NoopTransactionPool<Tx>(PhantomData<Tx>);

impl<Tx> NoopTransactionPool<Tx> {
    /// The only pool of this type.
    pub closed spec fn noop() -> Self {
        NoopTransactionPool(PhantomData)
    }
}

impl<Tx> Clone for NoopTransactionPool<Tx> {
    fn clone(&self) -> (r: Self)
        ensures
            r == *self,
    {
        NoopTransactionPool(PhantomData)
    }
}

/// A placeholder for a network.
#[derive(Debug)]
pub struct NoopNetwork<Net>(PhantomData<Net>);

impl<Net> NoopNetwork<Net> {
    /// The only network of this type.
    pub closed spec fn noop() -> Self {
        NoopNetwork(PhantomData)
    }
}

impl<Net> Clone for NoopNetwork<Net> {
    fn clone(&self) -> (r: Self)
        ensures
            r == *self,
    {
        NoopNetwork(PhantomData)
    }
}

/// A placeholder for a consensus implementation.
#[derive(Clone, Copy, Debug, PartialEq, Eq)]
pub struct NoopConsensus;

/// A placeholder for the handle to a payload builder service.
#[derive(Clone, Copy, Debug, PartialEq, Eq)]
pub struct NoopPayloadBuilderHandle;

/// Builds [`NoopTransactionPool`].
#[derive(Debug)]
pub struct NoopTransactionPoolBuilder<Tx>(PhantomData<Tx>);

impl<Tx> NoopTransactionPoolBuilder<Tx> {
    /// The only builder of this type.
    pub closed spec fn noop() -> Self {
        NoopTransactionPoolBuilder(PhantomData)
    }
}

impl<Tx> Clone for NoopTransactionPoolBuilder<Tx> {
    fn clone(&self) -> (r: Self)
        ensures
            r == *self,
    {
        NoopTransactionPoolBuilder(PhantomData)
    }
}

impl<N: FullNodeTypes, Tx> PoolBuilder<N> for NoopTransactionPoolBuilder<Tx> {
    type Pool = NoopTransactionPool<Tx>;
}

impl<Tx> Default for NoopTransactionPoolBuilder<Tx> {
    fn default() -> (r: Self)
        ensures
            r == Self::noop(),
    {
        NoopTransactionPoolBuilder(PhantomData)
    }
}

impl<Tx> NoopTransactionPoolBuilder<Tx> {
    /// Builds the pool.
    pub fn build_pool(self) -> (pool: NoopTransactionPool<Tx>)
        ensures
            pool == NoopTransactionPool::<Tx>::noop(),
    {
        NoopTransactionPool(PhantomData)
    }
}

/// Builds [`NoopNetwork`].
#[derive(Debug)]
pub struct NoopNetworkBuilder<Net>(PhantomData<Net>);

impl<Net> NoopNetworkBuilder<Net> {
    /// The only builder of this type.
    pub closed spec fn noop() -> Self {
        NoopNetworkBuilder(PhantomData)
    }
}

impl<Net> Clone for NoopNetworkBuilder<Net> {
    fn clone(&self) -> (r: Self)
        ensures
            r == *self,
    {
        NoopNetworkBuilder(PhantomData)
    }
}

impl<N: FullNodeTypes, Pool, Net> NetworkBuilder<N, Pool> for NoopNetworkBuilder<Net> {
    type Network = NoopNetwork<Net>;
}

impl<Net> Default for NoopNetworkBuilder<Net> {
    fn default() -> (r: Self)
        ensures
            r == Self::noop(),
    {
        NoopNetworkBuilder(PhantomData)
    }
}

impl<Net> NoopNetworkBuilder<Net> {
    /// Builds the network.
    pub fn build_network(self) -> (network: NoopNetwork<Net>)
        ensures
            network == NoopNetwork::<Net>::noop(),
    {
        NoopNetwork(PhantomData)
    }
}

/// Builds [`NoopConsensus`].
#[derive(Clone, Copy, Debug, Default)]
pub struct NoopConsensusBuilder;

impl<N: FullNodeTypes> ConsensusBuilder<N> for NoopConsensusBuilder {
    type Consensus = NoopConsensus;
}

impl NoopConsensusBuilder {
    /// Builds the consensus implementation.
    pub fn build_consensus(self) -> (consensus: NoopConsensus)
        ensures
            consensus == NoopConsensus,
    {
        NoopConsensus
    }
}

/// Builds [`NoopPayloadBuilderHandle`].
#[derive(Clone, Copy, Debug, Default)]
pub struct NoopPayloadBuilder;

impl<N: FullNodeTypes, Pool, EVM> PayloadServiceBuilder<N, Pool, EVM> for NoopPayloadBuilder {
    type Handle = NoopPayloadBuilderHandle;
}

impl NoopPayloadBuilder {
    /// Spawns no service and returns the handle to it.
    pub fn spawn_payload_builder_service(self) -> (handle: NoopPayloadBuilderHandle)
        ensures
            handle == NoopPayloadBuilderHandle,
    {
        NoopPayloadBuilderHandle
    }
}

} // verus!
