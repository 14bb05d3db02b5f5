//! A generic builder for the components of a node.

use crate::components::noop::{
    NoopConsensusBuilder, NoopNetworkBuilder, NoopPayloadBuilder, NoopTransactionPoolBuilder,
};
use crate::components::stages::{
    AwaitingEvm, ConsensusBuilder, ExecutorBuilder, FullNodeTypes, NetworkBuilder,
    PayloadServiceBuilder, PoolBuilder,
};
use std::marker::PhantomData;
use vstd::prelude::*;

verus! {

/// A generic, general purpose and customizable builder for the components of a node.
///
/// This type is stateful and captures the configuration of the node's components.
///
/// ## Component dependencies:
///
/// The components of the node depend on each other:
/// - The payload builder service depends on the transaction pool.
/// - The network depends on the transaction pool.
///
/// We distinguish between different kind of components:
/// - Components that are standalone, such as the transaction pool.
/// - Components that are spawned as a service, such as the payload builder service or the network.
///
/// ## Builder lifecycle:
///
/// First all standalone components are built. Then the service components are spawned.
/// All component builders are captured in the builder state and will be consumed once the node is
/// launched.
#[derive(Debug)]
pub struct ComponentsBuilder<Node, PoolB, PayloadB, NetworkB, ExecB, ConsB> {
    pool_builder: PoolB,
    payload_builder: PayloadB,
    network_builder: NetworkB,
    executor_builder: ExecB,
    consensus_builder: ConsB,
    _marker: PhantomData<Node>,
}

impl<Node, PoolB, PayloadB, NetworkB, ExecB, ConsB> ComponentsBuilder<
    Node,
    PoolB,
    PayloadB,
    NetworkB,
    ExecB,
    ConsB,
> {
    /// The captured pool builder.
    pub closed spec fn pool_builder(self) -> PoolB {
        self.pool_builder
    }

    /// The captured payload builder.
    pub closed spec fn payload_builder(self) -> PayloadB {
        self.payload_builder
    }

    /// The captured network builder.
    pub closed spec fn network_builder(self) -> NetworkB {
        self.network_builder
    }

    /// The captured executor builder.
    pub closed spec fn executor_builder(self) -> ExecB {
        self.executor_builder
    }

    /// The captured consensus builder.
    pub closed spec fn consensus_builder(self) -> ConsB {
        self.consensus_builder
    }

    /// Configures the node types.
    pub fn node_types<Types>(self) -> (r: ComponentsBuilder<
        Types,
        PoolB,
        PayloadB,
        NetworkB,
        ExecB,
        ConsB,
    >) where Types: FullNodeTypes
        ensures
            r.pool_builder() == self.pool_builder(),
            r.payload_builder() == self.payload_builder(),
            r.network_builder() == self.network_builder(),
            r.executor_builder() == self.executor_builder(),
            r.consensus_builder() == self.consensus_builder(),
    {
        ComponentsBuilder {
            pool_builder: self.pool_builder,
            payload_builder: self.payload_builder,
            network_builder: self.network_builder,
            executor_builder: self.executor_builder,
            consensus_builder: self.consensus_builder,
            _marker: PhantomData,
        }
    }

    /// Apply a function to the pool builder.
    pub fn map_pool(self, f: impl FnOnce(PoolB) -> PoolB) -> (r: Self)
        requires
            call_requires(f, (self.pool_builder(),)),
        ensures
            call_ensures(f, (self.pool_builder(),), r.pool_builder()),
            r.payload_builder() == self.payload_builder(),
            r.network_builder() == self.network_builder(),
            r.executor_builder() == self.executor_builder(),
            r.consensus_builder() == self.consensus_builder(),
    {
        ComponentsBuilder {
            pool_builder: f(self.pool_builder),
            payload_builder: self.payload_builder,
            network_builder: self.network_builder,
            executor_builder: self.executor_builder,
            consensus_builder: self.consensus_builder,
            _marker: self._marker,
        }
    }

    /// Apply a function to the payload builder.
    pub fn map_payload(self, f: impl FnOnce(PayloadB) -> PayloadB) -> (r: Self)
        requires
            call_requires(f, (self.payload_builder(),)),
        ensures
            r.pool_builder() == self.pool_builder(),
            call_ensures(f, (self.payload_builder(),), r.payload_builder()),
            r.network_builder() == self.network_builder(),
            r.executor_builder() == self.executor_builder(),
            r.consensus_builder() == self.consensus_builder(),
    {
        ComponentsBuilder {
            pool_builder: self.pool_builder,
            payload_builder: f(self.payload_builder),
            network_builder: self.network_builder,
            executor_builder: self.executor_builder,
            consensus_builder: self.consensus_builder,
            _marker: self._marker,
        }
    }

    /// Apply a function to the network builder.
    pub fn map_network(self, f: impl FnOnce(NetworkB) -> NetworkB) -> (r: Self)
        requires
            call_requires(f, (self.network_builder(),)),
        ensures
            r.pool_builder() == self.pool_builder(),
            r.payload_builder() == self.payload_builder(),
            call_ensures(f, (self.network_builder(),), r.network_builder()),
            r.executor_builder() == self.executor_builder(),
            r.consensus_builder() == self.consensus_builder(),
    {
        ComponentsBuilder {
            pool_builder: self.pool_builder,
            payload_builder: self.payload_builder,
            network_builder: f(self.network_builder),
            executor_builder: self.executor_builder,
            consensus_builder: self.consensus_builder,
            _marker: self._marker,
        }
    }

    /// Apply a function to the executor builder.
    pub fn map_executor(self, f: impl FnOnce(ExecB) -> ExecB) -> (r: Self)
        requires
            call_requires(f, (self.executor_builder(),)),
        ensures
            r.pool_builder() == self.pool_builder(),
            r.payload_builder() == self.payload_builder(),
            r.network_builder() == self.network_builder(),
            call_ensures(f, (self.executor_builder(),), r.executor_builder()),
            r.consensus_builder() == self.consensus_builder(),
    {
        ComponentsBuilder {
            pool_builder: self.pool_builder,
            payload_builder: self.payload_builder,
            network_builder: self.network_builder,
            executor_builder: f(self.executor_builder),
            consensus_builder: self.consensus_builder,
            _marker: self._marker,
        }
    }

    /// Apply a function to the consensus builder.
    pub fn map_consensus(self, f: impl FnOnce(ConsB) -> ConsB) -> (r: Self)
        requires
            call_requires(f, (self.consensus_builder(),)),
        ensures
            r.pool_builder() == self.pool_builder(),
            r.payload_builder() == self.payload_builder(),
            r.network_builder() == self.network_builder(),
            r.executor_builder() == self.executor_builder(),
            call_ensures(f, (self.consensus_builder(),), r.consensus_builder()),
    {
        ComponentsBuilder {
            pool_builder: self.pool_builder,
            payload_builder: self.payload_builder,
            network_builder: self.network_builder,
            executor_builder: self.executor_builder,
            consensus_builder: f(self.consensus_builder),
            _marker: self._marker,
        }
    }
}

impl<Node, PoolB, PayloadB, NetworkB, ExecB, ConsB> ComponentsBuilder<
    Node,
    PoolB,
    PayloadB,
    NetworkB,
    ExecB,
    ConsB,
> where Node: FullNodeTypes {
    /// Configures the pool builder.
    ///
    /// This accepts a [`PoolBuilder`] instance that will be used to create the node's transaction
    /// pool.
    pub fn pool<PB>(self, pool_builder: PB) -> (r: ComponentsBuilder<
        Node,
        PB,
        PayloadB,
        NetworkB,
        ExecB,
        ConsB,
    >) where PB: PoolBuilder<Node>
        ensures
            r.pool_builder() == pool_builder,
            r.payload_builder() == self.payload_builder(),
            r.network_builder() == self.network_builder(),
            r.executor_builder() == self.executor_builder(),
            r.consensus_builder() == self.consensus_builder(),
    {
        ComponentsBuilder {
            pool_builder,
            payload_builder: self.payload_builder,
            network_builder: self.network_builder,
            executor_builder: self.executor_builder,
            consensus_builder: self.consensus_builder,
            _marker: self._marker,
        }
    }

    /// Sets [`NoopTransactionPoolBuilder`].
    pub fn noop_pool<Tx>(self) -> (r: ComponentsBuilder<
        Node,
        NoopTransactionPoolBuilder<Tx>,
        PayloadB,
        NetworkB,
        ExecB,
        ConsB,
    >)
        ensures
            r.pool_builder() == NoopTransactionPoolBuilder::<Tx>::noop(),
            r.payload_builder() == self.payload_builder(),
            r.network_builder() == self.network_builder(),
            r.executor_builder() == self.executor_builder(),
            r.consensus_builder() == self.consensus_builder(),
    {
        ComponentsBuilder {
            pool_builder: NoopTransactionPoolBuilder::<Tx>::default(),
            payload_builder: self.payload_builder,
            network_builder: self.network_builder,
            executor_builder: self.executor_builder,
            consensus_builder: self.consensus_builder,
            _marker: self._marker,
        }
    }
}

impl<Node, PoolB, PayloadB, NetworkB, ExecB, ConsB> ComponentsBuilder<
    Node,
    PoolB,
    PayloadB,
    NetworkB,
    ExecB,
    ConsB,
> where Node: FullNodeTypes, PoolB: PoolBuilder<Node> {
    /// Configures the network builder.
    ///
    /// This accepts a [`NetworkBuilder`] instance that will be used to create the node's network
    /// stack.
    pub fn network<NB>(self, network_builder: NB) -> (r: ComponentsBuilder<
        Node,
        PoolB,
        PayloadB,
        NB,
        ExecB,
        ConsB,
    >) where NB: NetworkBuilder<Node, PoolB::Pool>
        ensures
            r.pool_builder() == self.pool_builder(),
            r.payload_builder() == self.payload_builder(),
            r.network_builder() == network_builder,
            r.executor_builder() == self.executor_builder(),
            r.consensus_builder() == self.consensus_builder(),
    {
        ComponentsBuilder {
            pool_builder: self.pool_builder,
            payload_builder: self.payload_builder,
            network_builder,
            executor_builder: self.executor_builder,
            consensus_builder: self.consensus_builder,
            _marker: self._marker,
        }
    }

    /// Configures the payload builder.
    ///
    /// This accepts a [`PayloadServiceBuilder`] instance that will be used to create the node's
    /// payload builder service.
    pub fn payload<PB>(self, payload_builder: PB) -> (r: ComponentsBuilder<
        Node,
        PoolB,
        PB,
        NetworkB,
        ExecB,
        ConsB,
    >) where ExecB: ExecutorBuilder<Node>, PB: PayloadServiceBuilder<Node, PoolB::Pool, ExecB::EVM>
        ensures
            r.pool_builder() == self.pool_builder(),
            r.payload_builder() == payload_builder,
            r.network_builder() == self.network_builder(),
            r.executor_builder() == self.executor_builder(),
            r.consensus_builder() == self.consensus_builder(),
    {
        ComponentsBuilder {
            pool_builder: self.pool_builder,
            payload_builder,
            network_builder: self.network_builder,
            executor_builder: self.executor_builder,
            consensus_builder: self.consensus_builder,
            _marker: self._marker,
        }
    }

    /// Configures the executor builder.
    ///
    /// This accepts a [`ExecutorBuilder`] instance that will be used to create the node's
    /// components for execution.
    pub fn executor<EB>(self, executor_builder: EB) -> (r: ComponentsBuilder<
        Node,
        PoolB,
        PayloadB,
        NetworkB,
        EB,
        ConsB,
    >) where EB: ExecutorBuilder<Node>
        ensures
            r.pool_builder() == self.pool_builder(),
            r.payload_builder() == self.payload_builder(),
            r.network_builder() == self.network_builder(),
            r.executor_builder() == executor_builder,
            r.consensus_builder() == self.consensus_builder(),
    {
        ComponentsBuilder {
            pool_builder: self.pool_builder,
            payload_builder: self.payload_builder,
            network_builder: self.network_builder,
            executor_builder,
            consensus_builder: self.consensus_builder,
            _marker: self._marker,
        }
    }

    /// Configures the consensus builder.
    ///
    /// This accepts a [`ConsensusBuilder`] instance that will be used to create the node's
    /// components for consensus.
    pub fn consensus<CB>(self, consensus_builder: CB) -> (r: ComponentsBuilder<
        Node,
        PoolB,
        PayloadB,
        NetworkB,
        ExecB,
        CB,
    >) where CB: ConsensusBuilder<Node>
        ensures
            r.pool_builder() == self.pool_builder(),
            r.payload_builder() == self.payload_builder(),
            r.network_builder() == self.network_builder(),
            r.executor_builder() == self.executor_builder(),
            r.consensus_builder() == consensus_builder,
    {
        ComponentsBuilder {
            pool_builder: self.pool_builder,
            payload_builder: self.payload_builder,
            network_builder: self.network_builder,
            executor_builder: self.executor_builder,
            consensus_builder,
            _marker: self._marker,
        }
    }

    /// Sets [`NoopNetworkBuilder`].
    pub fn noop_network<Net>(self) -> (r: ComponentsBuilder<
        Node,
        PoolB,
        PayloadB,
        NoopNetworkBuilder<Net>,
        ExecB,
        ConsB,
    >)
        ensures
            r.pool_builder() == self.pool_builder(),
            r.payload_builder() == self.payload_builder(),
            r.network_builder() == NoopNetworkBuilder::<Net>::noop(),
            r.executor_builder() == self.executor_builder(),
            r.consensus_builder() == self.consensus_builder(),
    {
        ComponentsBuilder {
            pool_builder: self.pool_builder,
            payload_builder: self.payload_builder,
            network_builder: NoopNetworkBuilder::<Net>::default(),
            executor_builder: self.executor_builder,
            consensus_builder: self.consensus_builder,
            _marker: self._marker,
        }
    }

    /// Sets [`NoopPayloadBuilder`].
    pub fn noop_payload(self) -> (r: ComponentsBuilder<
        Node,
        PoolB,
        NoopPayloadBuilder,
        NetworkB,
        ExecB,
        ConsB,
    >)
        ensures
            r.pool_builder() == self.pool_builder(),
            r.payload_builder() == NoopPayloadBuilder,
            r.network_builder() == self.network_builder(),
            r.executor_builder() == self.executor_builder(),
            r.consensus_builder() == self.consensus_builder(),
    {
        ComponentsBuilder {
            pool_builder: self.pool_builder,
            payload_builder: NoopPayloadBuilder,
            network_builder: self.network_builder,
            executor_builder: self.executor_builder,
            consensus_builder: self.consensus_builder,
            _marker: self._marker,
        }
    }

    /// Sets [`NoopConsensusBuilder`].
    pub fn noop_consensus(self) -> (r: ComponentsBuilder<
        Node,
        PoolB,
        PayloadB,
        NetworkB,
        ExecB,
        NoopConsensusBuilder,
    >)
        ensures
            r.pool_builder() == self.pool_builder(),
            r.payload_builder() == self.payload_builder(),
            r.network_builder() == self.network_builder(),
            r.executor_builder() == self.executor_builder(),
            r.consensus_builder() == NoopConsensusBuilder,
    {
        ComponentsBuilder {
            pool_builder: self.pool_builder,
            payload_builder: self.payload_builder,
            network_builder: self.network_builder,
            executor_builder: self.executor_builder,
            consensus_builder: NoopConsensusBuilder,
            _marker: self._marker,
        }
    }
}

impl Default for ComponentsBuilder<(), (), (), (), (), ()> {
    fn default() -> (r: Self)
        ensures
            r.pool_builder() == (),
            r.payload_builder() == (),
            r.network_builder() == (),
            r.executor_builder() == (),
            r.consensus_builder() == (),
    {
        ComponentsBuilder {
            pool_builder: (),
            payload_builder: (),
            network_builder: (),
            executor_builder: (),
            consensus_builder: (),
            _marker: PhantomData,
        }
    }
}

/// A type that configures all the customizable components of the node and knows how to build them.
///
/// The [`ComponentsBuilder`] is a generic, general purpose implementation of this trait that can
/// be used to customize certain components of the node using the builder pattern and defaults.
/// A function from the context is another one.
pub trait NodeComponentsBuilder<Node: FullNodeTypes>: Sized {
    /// The construction of the components, once it is under way.
    type Build;

    /// Whether the components can be built from the context.
    spec fn can_build(self, ctx: &Node::Context) -> bool;

    /// Whether `build` is a construction of the components from the context.
    spec fn builds(self, ctx: &Node::Context, build: Self::Build) -> bool;

    /// Consumes the type and sets off the construction of the components.
    fn build_components(self, ctx: &Node::Context) -> (build: Self::Build)
        requires
            self.can_build(ctx),
        ensures
            self.builds(ctx, build),
    ;
}

/// The construction starts with the executor: the executor builder is to run first, all other
/// builders wait for their turn.
impl<Node, PoolB, PayloadB, NetworkB, ExecB, ConsB> NodeComponentsBuilder<
    Node,
> for ComponentsBuilder<Node, PoolB, PayloadB, NetworkB, ExecB, ConsB> where
    Node: FullNodeTypes,
    PoolB: PoolBuilder<Node>,
    NetworkB: NetworkBuilder<Node, PoolB::Pool>,
    PayloadB: PayloadServiceBuilder<Node, PoolB::Pool, ExecB::EVM>,
    ExecB: ExecutorBuilder<Node>,
    ConsB: ConsensusBuilder<Node>,
 {
    type Build = (ExecB, AwaitingEvm<PoolB, PayloadB, NetworkB, ConsB>);

    open spec fn can_build(self, ctx: &Node::Context) -> bool {
        true
    }

    open spec fn builds(
        self,
        ctx: &Node::Context,
        build: (ExecB, AwaitingEvm<PoolB, PayloadB, NetworkB, ConsB>),
    ) -> bool {
        let (executor_builder, stage) = build;
        &&& executor_builder == self.executor_builder()
        &&& stage.pool_builder() == self.pool_builder()
        &&& stage.payload_builder() == self.payload_builder()
        &&& stage.network_builder() == self.network_builder()
        &&& stage.consensus_builder() == self.consensus_builder()
    }

    fn build_components(self, ctx: &Node::Context) -> (build: (
        ExecB,
        AwaitingEvm<PoolB, PayloadB, NetworkB, ConsB>,
    )) {
        (
            self.executor_builder,
            AwaitingEvm::new(
                self.pool_builder,
                self.payload_builder,
                self.network_builder,
                self.consensus_builder,
            ),
        )
    }
}

/// The construction is whatever the function returns.
impl<Node, F, Fut> NodeComponentsBuilder<Node> for F where
    Node: FullNodeTypes,
    F: FnOnce(&Node::Context) -> Fut,
 {
    type Build = Fut;

    open spec fn can_build(self, ctx: &Node::Context) -> bool {
        call_requires(self, (ctx,))
    }

    open spec fn builds(self, ctx: &Node::Context, build: Fut) -> bool {
        call_ensures(self, (ctx,), build)
    }

    fn build_components(self, ctx: &Node::Context) -> (build: Fut) {
        self(ctx)
    }
}

} // verus!
