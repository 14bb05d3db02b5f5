//! The construction of the components, stage by stage.
//!
//! Building a component may wait for the outside world, so it is left to the caller: each stage
//! names the builder to run next and what to give it, and takes the outcome. First all standalone
//! components are built: the executor, the transaction pool and the consensus implementation.
//! Then follow the services that depend on them: the network on the transaction pool, the payload
//! builder service on the transaction pool and the executor. The construction ends with the first
//! component that cannot be built.

use vstd::prelude::*;

verus! {

/// The types of a node.
pub trait FullNodeTypes: Sized {
    /// What the component builders are given to build from.
    type Context;
}

/// A type that knows how to build the transaction pool.
pub trait PoolBuilder<Node: FullNodeTypes>: Sized {
    /// The transaction pool to build.
    type Pool;
}

/// A type that knows how to build the network, on top of a transaction pool.
pub trait NetworkBuilder<Node: FullNodeTypes, Pool>: Sized {
    /// The network to build.
    type Network;
}

/// A type that knows how to build the block executor.
pub trait ExecutorBuilder<Node: FullNodeTypes>: Sized {
    /// The executor configuration to build.
    type EVM;
}

/// A type that knows how to spawn the payload builder service, on top of a transaction pool and
/// an executor.
pub trait PayloadServiceBuilder<Node: FullNodeTypes, Pool, EVM>: Sized {
    /// The handle to the service.
    type Handle;
}

/// A type that knows how to build the consensus implementation.
pub trait ConsensusBuilder<Node: FullNodeTypes>: Sized {
    /// The consensus implementation to build.
    type Consensus;
}

/// All the components of a node.
#[derive(Debug)]
pub struct Components<EVM, Pool, Network, Handle, Consensus> {
    /// The transaction pool of the node.
    pub transaction_pool: Pool,
    /// The executor configuration of the node.
    pub evm_config: EVM,
    /// The network of the node.
    pub network: Network,
    /// The handle to the payload builder service.
    pub payload_builder_handle: Handle,
    /// The consensus implementation of the node.
    pub consensus: Consensus,
}

/// The executor is being built.
#[derive(Debug)]
pub struct AwaitingEvm<PoolB, PayloadB, NetworkB, ConsB> {
    pool_builder: PoolB,
    payload_builder: PayloadB,
    network_builder: NetworkB,
    consensus_builder: ConsB,
}

/// The executor is built, the transaction pool is being built.
#[derive(Debug)]
pub struct AwaitingPool<PayloadB, NetworkB, ConsB, EVM> {
    payload_builder: PayloadB,
    network_builder: NetworkB,
    consensus_builder: ConsB,
    evm_config: EVM,
}

/// The transaction pool is built, the consensus implementation is being built.
#[derive(Debug)]
pub struct AwaitingConsensus<PayloadB, NetworkB, EVM, Pool> {
    payload_builder: PayloadB,
    network_builder: NetworkB,
    evm_config: EVM,
    transaction_pool: Pool,
}

/// The standalone components are built, the network is being built.
#[derive(Debug)]
pub struct AwaitingNetwork<PayloadB, EVM, Pool, Consensus> {
    payload_builder: PayloadB,
    evm_config: EVM,
    transaction_pool: Pool,
    consensus: Consensus,
}

/// The network is built, the payload builder service is being spawned.
#[derive(Debug)]
pub struct AwaitingPayload<EVM, Pool, Consensus, Network> {
    evm_config: EVM,
    transaction_pool: Pool,
    consensus: Consensus,
    network: Network,
}

impl<PoolB, PayloadB, NetworkB, ConsB> AwaitingEvm<PoolB, PayloadB, NetworkB, ConsB> {
    /// The builder of the transaction pool, which waits for its turn.
    pub closed spec fn pool_builder(self) -> PoolB {
        self.pool_builder
    }

    /// The builder of the payload builder service, which waits for its turn.
    pub closed spec fn payload_builder(self) -> PayloadB {
        self.payload_builder
    }

    /// The builder of the network, which waits for its turn.
    pub closed spec fn network_builder(self) -> NetworkB {
        self.network_builder
    }

    /// The builder of the consensus implementation, which waits for its turn.
    pub closed spec fn consensus_builder(self) -> ConsB {
        self.consensus_builder
    }

    /// The first stage, with the builders that wait for the executor.
    pub(crate) fn new(
        pool_builder: PoolB,
        payload_builder: PayloadB,
        network_builder: NetworkB,
        consensus_builder: ConsB,
    ) -> (stage: Self)
        ensures
            stage.pool_builder() == pool_builder,
            stage.payload_builder() == payload_builder,
            stage.network_builder() == network_builder,
            stage.consensus_builder() == consensus_builder,
    {
        AwaitingEvm { pool_builder, payload_builder, network_builder, consensus_builder }
    }

    /// Whether `next` is the stage that follows once the executor is built:
    /// it keeps what this stage holds, but for the builder that runs next.
    pub open spec fn followed_by<EVM>(
        self,
        evm_config: EVM,
        next: AwaitingPool<PayloadB, NetworkB, ConsB, EVM>,
    ) -> bool {
        &&& next.payload_builder() == self.payload_builder()
        &&& next.network_builder() == self.network_builder()
        &&& next.consensus_builder() == self.consensus_builder()
        &&& next.evm_config() == evm_config
    }

    /// Takes the executor; the pool builder is to run next.
    pub fn evm_built<EVM, E>(self, built: Result<EVM, E>) -> (next: Result<
        (PoolB, AwaitingPool<PayloadB, NetworkB, ConsB, EVM>),
        E,
    >)
        ensures
            match built {
                Ok(evm_config) => {
                    &&& next matches Ok((pool_builder, stage))
                    &&& pool_builder == self.pool_builder()
                    &&& self.followed_by(evm_config, stage)
                },
                Err(error) => next == Err::<
                    (PoolB, AwaitingPool<PayloadB, NetworkB, ConsB, EVM>),
                    E,
                >(error),
            },
    {
        match built {
            Ok(evm_config) => Ok(
                (
                    self.pool_builder,
                    AwaitingPool {
                        payload_builder: self.payload_builder,
                        network_builder: self.network_builder,
                        consensus_builder: self.consensus_builder,
                        evm_config,
                    },
                ),
            ),
            Err(error) => Err(error),
        }
    }
}

impl<PayloadB, NetworkB, ConsB, EVM> AwaitingPool<PayloadB, NetworkB, ConsB, EVM> {
    /// The builder of the payload builder service, which waits for its turn.
    pub closed spec fn payload_builder(self) -> PayloadB {
        self.payload_builder
    }

    /// The builder of the network, which waits for its turn.
    pub closed spec fn network_builder(self) -> NetworkB {
        self.network_builder
    }

    /// The builder of the consensus implementation, which waits for its turn.
    pub closed spec fn consensus_builder(self) -> ConsB {
        self.consensus_builder
    }

    /// The executor configuration that was built.
    pub closed spec fn evm_config(self) -> EVM {
        self.evm_config
    }

    /// Whether `next` is the stage that follows once the transaction pool is built:
    /// it keeps what this stage holds, but for the builder that runs next.
    pub open spec fn followed_by<Pool>(
        self,
        transaction_pool: Pool,
        next: AwaitingConsensus<PayloadB, NetworkB, EVM, Pool>,
    ) -> bool {
        &&& next.payload_builder() == self.payload_builder()
        &&& next.network_builder() == self.network_builder()
        &&& next.evm_config() == self.evm_config()
        &&& next.transaction_pool() == transaction_pool
    }

    /// Takes the transaction pool; the consensus builder is to run next.
    pub fn pool_built<Pool, E>(self, built: Result<Pool, E>) -> (next: Result<
        (ConsB, AwaitingConsensus<PayloadB, NetworkB, EVM, Pool>),
        E,
    >)
        ensures
            match built {
                Ok(transaction_pool) => {
                    &&& next matches Ok((consensus_builder, stage))
                    &&& consensus_builder == self.consensus_builder()
                    &&& self.followed_by(transaction_pool, stage)
                },
                Err(error) => next == Err::<
                    (ConsB, AwaitingConsensus<PayloadB, NetworkB, EVM, Pool>),
                    E,
                >(error),
            },
    {
        match built {
            Ok(transaction_pool) => Ok(
                (
                    self.consensus_builder,
                    AwaitingConsensus {
                        payload_builder: self.payload_builder,
                        network_builder: self.network_builder,
                        evm_config: self.evm_config,
                        transaction_pool,
                    },
                ),
            ),
            Err(error) => Err(error),
        }
    }
}

impl<PayloadB, NetworkB, EVM, Pool> AwaitingConsensus<PayloadB, NetworkB, EVM, Pool> {
    /// The builder of the payload builder service, which waits for its turn.
    pub closed spec fn payload_builder(self) -> PayloadB {
        self.payload_builder
    }

    /// The builder of the network, which waits for its turn.
    pub closed spec fn network_builder(self) -> NetworkB {
        self.network_builder
    }

    /// The executor configuration that was built.
    pub closed spec fn evm_config(self) -> EVM {
        self.evm_config
    }

    /// The transaction pool that was built.
    pub closed spec fn transaction_pool(self) -> Pool {
        self.transaction_pool
    }

    /// Whether `next` is the stage that follows once the consensus implementation is built:
    /// it keeps what this stage holds, but for the builder that runs next.
    pub open spec fn followed_by<Consensus>(
        self,
        consensus: Consensus,
        next: AwaitingNetwork<PayloadB, EVM, Pool, Consensus>,
    ) -> bool {
        &&& next.payload_builder() == self.payload_builder()
        &&& next.evm_config() == self.evm_config()
        &&& next.transaction_pool() == self.transaction_pool()
        &&& next.consensus() == consensus
    }

    /// Takes the consensus implementation; the network builder is to run next, with a clone of the
    /// pool.
    pub fn consensus_built<Consensus, E>(self, built: Result<Consensus, E>) -> (next: Result<
        (NetworkB, Pool, AwaitingNetwork<PayloadB, EVM, Pool, Consensus>),
        E,
    >) where Pool: Clone
        ensures
            match built {
                Ok(consensus) => {
                    &&& next matches Ok((network_builder, pool, stage))
                    &&& network_builder == self.network_builder()
                    &&& cloned(self.transaction_pool(), pool)
                    &&& self.followed_by(consensus, stage)
                },
                Err(error) => next == Err::<
                    (NetworkB, Pool, AwaitingNetwork<PayloadB, EVM, Pool, Consensus>),
                    E,
                >(error),
            },
    {
        match built {
            Ok(consensus) => {
                let pool = self.transaction_pool.clone();
                Ok(
                    (
                        self.network_builder,
                        pool,
                        AwaitingNetwork {
                            payload_builder: self.payload_builder,
                            evm_config: self.evm_config,
                            transaction_pool: self.transaction_pool,
                            consensus,
                        },
                    ),
                )
            },
            Err(error) => Err(error),
        }
    }
}

impl<PayloadB, EVM, Pool, Consensus> AwaitingNetwork<PayloadB, EVM, Pool, Consensus> {
    /// The builder of the payload builder service, which waits for its turn.
    pub closed spec fn payload_builder(self) -> PayloadB {
        self.payload_builder
    }

    /// The executor configuration that was built.
    pub closed spec fn evm_config(self) -> EVM {
        self.evm_config
    }

    /// The transaction pool that was built.
    pub closed spec fn transaction_pool(self) -> Pool {
        self.transaction_pool
    }

    /// The consensus implementation that was built.
    pub closed spec fn consensus(self) -> Consensus {
        self.consensus
    }

    /// Whether `next` is the stage that follows once the network is built:
    /// it keeps what this stage holds, but for the builder that runs next.
    pub open spec fn followed_by<Network>(
        self,
        network: Network,
        next: AwaitingPayload<EVM, Pool, Consensus, Network>,
    ) -> bool {
        &&& next.evm_config() == self.evm_config()
        &&& next.transaction_pool() == self.transaction_pool()
        &&& next.consensus() == self.consensus()
        &&& next.network() == network
    }

    /// Takes the network; the payload builder service is to be spawned next, with clones of the
    /// pool and of the executor configuration.
    pub fn network_built<Network, E>(self, built: Result<Network, E>) -> (next: Result<
        (PayloadB, Pool, EVM, AwaitingPayload<EVM, Pool, Consensus, Network>),
        E,
    >) where EVM: Clone, Pool: Clone
        ensures
            match built {
                Ok(network) => {
                    &&& next matches Ok((payload_builder, pool, evm_config, stage))
                    &&& payload_builder == self.payload_builder()
                    &&& cloned(self.transaction_pool(), pool)
                    &&& cloned(self.evm_config(), evm_config)
                    &&& self.followed_by(network, stage)
                },
                Err(error) => next == Err::<
                    (PayloadB, Pool, EVM, AwaitingPayload<EVM, Pool, Consensus, Network>),
                    E,
                >(error),
            },
    {
        match built {
            Ok(network) => {
                let pool = self.transaction_pool.clone();
                let evm_config = self.evm_config.clone();
                Ok(
                    (
                        self.payload_builder,
                        pool,
                        evm_config,
                        AwaitingPayload {
                            evm_config: self.evm_config,
                            transaction_pool: self.transaction_pool,
                            consensus: self.consensus,
                            network,
                        },
                    ),
                )
            },
            Err(error) => Err(error),
        }
    }
}

impl<EVM, Pool, Consensus, Network> AwaitingPayload<EVM, Pool, Consensus, Network> {
    /// The executor configuration that was built.
    pub closed spec fn evm_config(self) -> EVM {
        self.evm_config
    }

    /// The transaction pool that was built.
    pub closed spec fn transaction_pool(self) -> Pool {
        self.transaction_pool
    }

    /// The consensus implementation that was built.
    pub closed spec fn consensus(self) -> Consensus {
        self.consensus
    }

    /// The network that was built.
    pub closed spec fn network(self) -> Network {
        self.network
    }

    /// The components once the payload builder service is spawned.
    pub open spec fn with_payload<Handle>(self, payload_builder_handle: Handle) -> Components<
        EVM,
        Pool,
        Network,
        Handle,
        Consensus,
    > {
        Components {
            transaction_pool: self.transaction_pool(),
            evm_config: self.evm_config(),
            network: self.network(),
            payload_builder_handle,
            consensus: self.consensus(),
        }
    }

    /// Takes the handle to the payload builder service and returns all the components.
    pub fn payload_spawned<Handle, E>(self, built: Result<Handle, E>) -> (components: Result<
        Components<EVM, Pool, Network, Handle, Consensus>,
        E,
    >)
        ensures
            match built {
                Ok(handle) => components == Ok::<_, E>(self.with_payload(handle)),
                Err(error) => components == Err::<
                    Components<EVM, Pool, Network, Handle, Consensus>,
                    E,
                >(error),
            },
    {
        match built {
            Ok(payload_builder_handle) => Ok(
                Components {
                    transaction_pool: self.transaction_pool,
                    evm_config: self.evm_config,
                    network: self.network,
                    payload_builder_handle,
                    consensus: self.consensus,
                },
            ),
            Err(error) => Err(error),
        }
    }
}

/// A construction in which every component is built ends with exactly these components, and every
/// captured builder is still there when its turn comes. The services are built on the transaction
/// pool and the executor that end up among the components.
pub proof fn law_components_are_what_was_built<
    PoolB,
    PayloadB,
    NetworkB,
    ConsB,
    EVM,
    Pool,
    Network,
    Handle,
    Consensus,
>(
    start: AwaitingEvm<PoolB, PayloadB, NetworkB, ConsB>,
    evm_config: EVM,
    second: AwaitingPool<PayloadB, NetworkB, ConsB, EVM>,
    transaction_pool: Pool,
    third: AwaitingConsensus<PayloadB, NetworkB, EVM, Pool>,
    consensus: Consensus,
    fourth: AwaitingNetwork<PayloadB, EVM, Pool, Consensus>,
    network: Network,
    last: AwaitingPayload<EVM, Pool, Consensus, Network>,
    payload_builder_handle: Handle,
)
    requires
        start.followed_by(evm_config, second),
        second.followed_by(transaction_pool, third),
        third.followed_by(consensus, fourth),
        fourth.followed_by(network, last),
    ensures
        second.consensus_builder() == start.consensus_builder(),
        third.network_builder() == start.network_builder(),
        third.transaction_pool() == transaction_pool,
        fourth.payload_builder() == start.payload_builder(),
        fourth.transaction_pool() == transaction_pool,
        fourth.evm_config() == evm_config,
        last.with_payload(payload_builder_handle) == (Components {
            transaction_pool,
            evm_config,
            network,
            payload_builder_handle,
            consensus,
        }),
{
}

} // verus!
