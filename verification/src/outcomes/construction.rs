//! The construction of components, and the builder that sets it off.

use crate::components::builder::{ComponentsBuilder, NodeComponentsBuilder};
use crate::components::stages::{
    AwaitingConsensus, AwaitingEvm, AwaitingNetwork, AwaitingPayload, AwaitingPool, Components,
    ConsensusBuilder, ExecutorBuilder, FullNodeTypes, NetworkBuilder, PayloadServiceBuilder,
    PoolBuilder,
};
use vstd::prelude::*;

verus! {

/// A construction hands out the captured builders in order, each with what it depends on: the
/// executor's first, then those of the transaction pool, the consensus implementation, the
/// network and the payload builder service. It ends with the components that were built.
pub proof fn law_construction_runs_through<
    Node: FullNodeTypes,
    PoolB: PoolBuilder<Node>,
    PayloadB: PayloadServiceBuilder<Node, PoolB::Pool, ExecB::EVM>,
    NetworkB: NetworkBuilder<Node, PoolB::Pool>,
    ExecB: ExecutorBuilder<Node>,
    ConsB: ConsensusBuilder<Node>,
    EVM: Clone,
    Pool: Clone,
    Network,
    Handle,
    Consensus,
    E,
>(
    builder: ComponentsBuilder<Node, PoolB, PayloadB, NetworkB, ExecB, ConsB>,
    ctx: &Node::Context,
    begun: (ExecB, AwaitingEvm<PoolB, PayloadB, NetworkB, ConsB>),
    evm_config: EVM,
    second: (PoolB, AwaitingPool<PayloadB, NetworkB, ConsB, EVM>),
    transaction_pool: Pool,
    third: (ConsB, AwaitingConsensus<PayloadB, NetworkB, EVM, Pool>),
    consensus: Consensus,
    fourth: (NetworkB, Pool, AwaitingNetwork<PayloadB, EVM, Pool, Consensus>),
    network: Network,
    fifth: (PayloadB, Pool, EVM, AwaitingPayload<EVM, Pool, Consensus, Network>),
    payload_builder_handle: Handle,
    built: Result<Components<EVM, Pool, Network, Handle, Consensus>, E>,
)
    requires
        call_ensures(
            ComponentsBuilder::<
                Node,
                PoolB,
                PayloadB,
                NetworkB,
                ExecB,
                ConsB,
            >::build_components,
            (builder, ctx),
            begun,
        ),
        call_ensures(
            AwaitingEvm::<PoolB, PayloadB, NetworkB, ConsB>::evm_built::<EVM, E>,
            (begun.1, Ok(evm_config)),
            Ok(second),
        ),
        call_ensures(
            AwaitingPool::<PayloadB, NetworkB, ConsB, EVM>::pool_built::<Pool, E>,
            (second.1, Ok(transaction_pool)),
            Ok(third),
        ),
        call_ensures(
            AwaitingConsensus::<PayloadB, NetworkB, EVM, Pool>::consensus_built::<Consensus, E>,
            (third.1, Ok(consensus)),
            Ok(fourth),
        ),
        call_ensures(
            AwaitingNetwork::<PayloadB, EVM, Pool, Consensus>::network_built::<Network, E>,
            (fourth.2, Ok(network)),
            Ok(fifth),
        ),
        call_ensures(
            AwaitingPayload::<EVM, Pool, Consensus, Network>::payload_spawned::<Handle, E>,
            (fifth.3, Ok(payload_builder_handle)),
            built,
        ),
    ensures
        begun.0 == builder.executor_builder(),
        second.0 == builder.pool_builder(),
        third.0 == builder.consensus_builder(),
        fourth.0 == builder.network_builder(),
        cloned(transaction_pool, fourth.1),
        fifth.0 == builder.payload_builder(),
        cloned(transaction_pool, fifth.1),
        cloned(evm_config, fifth.2),
        built matches Ok(components) && {
            &&& components.evm_config == evm_config
            &&& components.transaction_pool == transaction_pool
            &&& components.consensus == consensus
            &&& components.network == network
            &&& components.payload_builder_handle == payload_builder_handle
        },
{
}

/// No stage fails where its component was built.
pub proof fn law_built_components_carry_on<
    PoolB,
    PayloadB,
    NetworkB,
    ConsB,
    EVM: Clone,
    Pool: Clone,
    Network,
    Handle,
    Consensus,
    E,
>(
    first: AwaitingEvm<PoolB, PayloadB, NetworkB, ConsB>,
    evm_config: EVM,
    after_first: Result<(PoolB, AwaitingPool<PayloadB, NetworkB, ConsB, EVM>), E>,
    second: AwaitingPool<PayloadB, NetworkB, ConsB, EVM>,
    transaction_pool: Pool,
    after_second: Result<(ConsB, AwaitingConsensus<PayloadB, NetworkB, EVM, Pool>), E>,
    third: AwaitingConsensus<PayloadB, NetworkB, EVM, Pool>,
    consensus: Consensus,
    after_third: Result<
        (NetworkB, Pool, AwaitingNetwork<PayloadB, EVM, Pool, Consensus>),
        E,
    >,
    fourth: AwaitingNetwork<PayloadB, EVM, Pool, Consensus>,
    network: Network,
    after_fourth: Result<
        (PayloadB, Pool, EVM, AwaitingPayload<EVM, Pool, Consensus, Network>),
        E,
    >,
)
    requires
        call_ensures(
            AwaitingEvm::<PoolB, PayloadB, NetworkB, ConsB>::evm_built::<EVM, E>,
            (first, Ok(evm_config)),
            after_first,
        ),
        call_ensures(
            AwaitingPool::<PayloadB, NetworkB, ConsB, EVM>::pool_built::<Pool, E>,
            (second, Ok(transaction_pool)),
            after_second,
        ),
        call_ensures(
            AwaitingConsensus::<PayloadB, NetworkB, EVM, Pool>::consensus_built::<Consensus, E>,
            (third, Ok(consensus)),
            after_third,
        ),
        call_ensures(
            AwaitingNetwork::<PayloadB, EVM, Pool, Consensus>::network_built::<Network, E>,
            (fourth, Ok(network)),
            after_fourth,
        ),
    ensures
        after_first is Ok,
        after_second is Ok,
        after_third is Ok,
        after_fourth is Ok,
{
}

/// The construction ends with the first component that cannot be built, and with its error.
pub proof fn law_construction_ends_with_the_first_failure<
    PoolB,
    PayloadB,
    NetworkB,
    ConsB,
    EVM: Clone,
    Pool: Clone,
    Network,
    Handle,
    Consensus,
    E,
>(
    error: E,
    first: AwaitingEvm<PoolB, PayloadB, NetworkB, ConsB>,
    after_first: Result<(PoolB, AwaitingPool<PayloadB, NetworkB, ConsB, EVM>), E>,
    second: AwaitingPool<PayloadB, NetworkB, ConsB, EVM>,
    after_second: Result<(ConsB, AwaitingConsensus<PayloadB, NetworkB, EVM, Pool>), E>,
    third: AwaitingConsensus<PayloadB, NetworkB, EVM, Pool>,
    after_third: Result<
        (NetworkB, Pool, AwaitingNetwork<PayloadB, EVM, Pool, Consensus>),
        E,
    >,
    fourth: AwaitingNetwork<PayloadB, EVM, Pool, Consensus>,
    after_fourth: Result<
        (PayloadB, Pool, EVM, AwaitingPayload<EVM, Pool, Consensus, Network>),
        E,
    >,
    fifth: AwaitingPayload<EVM, Pool, Consensus, Network>,
    after_fifth: Result<Components<EVM, Pool, Network, Handle, Consensus>, E>,
)
    requires
        call_ensures(
            AwaitingEvm::<PoolB, PayloadB, NetworkB, ConsB>::evm_built::<EVM, E>,
            (first, Err(error)),
            after_first,
        ),
        call_ensures(
            AwaitingPool::<PayloadB, NetworkB, ConsB, EVM>::pool_built::<Pool, E>,
            (second, Err(error)),
            after_second,
        ),
        call_ensures(
            AwaitingConsensus::<PayloadB, NetworkB, EVM, Pool>::consensus_built::<Consensus, E>,
            (third, Err(error)),
            after_third,
        ),
        call_ensures(
            AwaitingNetwork::<PayloadB, EVM, Pool, Consensus>::network_built::<Network, E>,
            (fourth, Err(error)),
            after_fourth,
        ),
        call_ensures(
            AwaitingPayload::<EVM, Pool, Consensus, Network>::payload_spawned::<Handle, E>,
            (fifth, Err(error)),
            after_fifth,
        ),
    ensures
        after_first matches Err(e) && e == error,
        after_second matches Err(e) && e == error,
        after_third matches Err(e) && e == error,
        after_fourth matches Err(e) && e == error,
        after_fifth matches Err(e) && e == error,
{
}

/// A function applied to one captured builder changes that one to a result of the function, and
/// no other.
pub proof fn law_map_changes_one_builder<
    Node,
    PoolB,
    PayloadB,
    NetworkB,
    ExecB,
    ConsB,
    FPool: FnOnce(PoolB) -> PoolB,
    FPayload: FnOnce(PayloadB) -> PayloadB,
    FNetwork: FnOnce(NetworkB) -> NetworkB,
    FExec: FnOnce(ExecB) -> ExecB,
    FCons: FnOnce(ConsB) -> ConsB,
>(
    builder: ComponentsBuilder<Node, PoolB, PayloadB, NetworkB, ExecB, ConsB>,
    on_pool: FPool,
    with_pool: ComponentsBuilder<Node, PoolB, PayloadB, NetworkB, ExecB, ConsB>,
    on_payload: FPayload,
    with_payload: ComponentsBuilder<Node, PoolB, PayloadB, NetworkB, ExecB, ConsB>,
    on_network: FNetwork,
    with_network: ComponentsBuilder<Node, PoolB, PayloadB, NetworkB, ExecB, ConsB>,
    on_executor: FExec,
    with_executor: ComponentsBuilder<Node, PoolB, PayloadB, NetworkB, ExecB, ConsB>,
    on_consensus: FCons,
    with_consensus: ComponentsBuilder<Node, PoolB, PayloadB, NetworkB, ExecB, ConsB>,
)
    requires
        call_ensures(
            ComponentsBuilder::<Node, PoolB, PayloadB, NetworkB, ExecB, ConsB>::map_pool,
            (builder, on_pool),
            with_pool,
        ),
        call_ensures(
            ComponentsBuilder::<Node, PoolB, PayloadB, NetworkB, ExecB, ConsB>::map_payload,
            (builder, on_payload),
            with_payload,
        ),
        call_ensures(
            ComponentsBuilder::<Node, PoolB, PayloadB, NetworkB, ExecB, ConsB>::map_network,
            (builder, on_network),
            with_network,
        ),
        call_ensures(
            ComponentsBuilder::<Node, PoolB, PayloadB, NetworkB, ExecB, ConsB>::map_executor,
            (builder, on_executor),
            with_executor,
        ),
        call_ensures(
            ComponentsBuilder::<Node, PoolB, PayloadB, NetworkB, ExecB, ConsB>::map_consensus,
            (builder, on_consensus),
            with_consensus,
        ),
    ensures
        call_ensures(on_pool, (builder.pool_builder(),), with_pool.pool_builder()),
        call_ensures(on_payload, (builder.payload_builder(),), with_payload.payload_builder()),
        call_ensures(on_network, (builder.network_builder(),), with_network.network_builder()),
        call_ensures(on_executor, (builder.executor_builder(),), with_executor.executor_builder()),
        call_ensures(
            on_consensus,
            (builder.consensus_builder(),),
            with_consensus.consensus_builder(),
        ),
        with_payload.pool_builder() == builder.pool_builder(),
        with_network.pool_builder() == builder.pool_builder(),
        with_executor.pool_builder() == builder.pool_builder(),
        with_consensus.pool_builder() == builder.pool_builder(),
        with_pool.payload_builder() == builder.payload_builder(),
        with_network.payload_builder() == builder.payload_builder(),
        with_executor.payload_builder() == builder.payload_builder(),
        with_consensus.payload_builder() == builder.payload_builder(),
        with_pool.network_builder() == builder.network_builder(),
        with_payload.network_builder() == builder.network_builder(),
        with_executor.network_builder() == builder.network_builder(),
        with_consensus.network_builder() == builder.network_builder(),
        with_pool.executor_builder() == builder.executor_builder(),
        with_payload.executor_builder() == builder.executor_builder(),
        with_network.executor_builder() == builder.executor_builder(),
        with_consensus.executor_builder() == builder.executor_builder(),
        with_pool.consensus_builder() == builder.consensus_builder(),
        with_payload.consensus_builder() == builder.consensus_builder(),
        with_network.consensus_builder() == builder.consensus_builder(),
        with_executor.consensus_builder() == builder.consensus_builder(),
{
}

} // verus!
