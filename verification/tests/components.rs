use eth_node::components::builder::{ComponentsBuilder, NodeComponentsBuilder};
use eth_node::components::noop::{
    NoopConsensus, NoopConsensusBuilder, NoopPayloadBuilder, NoopPayloadBuilderHandle,
};
use eth_node::components::stages::{
    AwaitingEvm, ConsensusBuilder, ExecutorBuilder, FullNodeTypes, NetworkBuilder,
    PayloadServiceBuilder, PoolBuilder,
};

#[derive(Debug)]
struct Node;

impl FullNodeTypes for Node {
    type Context = u32;
}

#[derive(Debug, PartialEq)]
struct Part(&'static str);

impl PoolBuilder<Node> for Part {
    type Pool = String;
}

impl<Pool> NetworkBuilder<Node, Pool> for Part {
    type Network = u8;
}

impl ExecutorBuilder<Node> for Part {
    type EVM = u16;
}

impl<Pool, EVM> PayloadServiceBuilder<Node, Pool, EVM> for Part {
    type Handle = u64;
}

impl ConsensusBuilder<Node> for Part {
    type Consensus = bool;
}

type Start = (Part, AwaitingEvm<Part, Part, Part, Part>);

fn builder() -> ComponentsBuilder<Node, Part, Part, Part, Part, Part> {
    ComponentsBuilder::default()
        .node_types::<Node>()
        .pool(Part("pool"))
        .executor(Part("executor"))
        .payload(Part("payload"))
        .network(Part("network"))
        .consensus(Part("consensus"))
}

fn start(builder: ComponentsBuilder<Node, Part, Part, Part, Part, Part>) -> Start {
    NodeComponentsBuilder::<Node>::build_components(builder, &1)
}

/// Walks through a construction and names the builders in the order in which they run.
fn names(start: Start) -> [&'static str; 5] {
    let (executor, stage) = start;
    let (pool, stage) = stage.evm_built(Ok::<u16, ()>(0)).unwrap();
    let (consensus, stage) = stage.pool_built(Ok::<String, ()>(String::new())).unwrap();
    let (network, _, stage) = stage.consensus_built(Ok::<bool, ()>(true)).unwrap();
    let (payload, _, _, _) = stage.network_built(Ok::<u8, ()>(0)).unwrap();
    [executor.0, pool.0, consensus.0, network.0, payload.0]
}

#[test]
fn builder_captures_each_part() {
    assert_eq!(
        names(start(builder())),
        ["executor", "pool", "consensus", "network", "payload"]
    );
}

#[test]
fn later_part_replaces_the_one_before() {
    let b = builder().pool(Part("other pool")).consensus(Part("other consensus"));
    assert_eq!(
        names(start(b)),
        ["executor", "other pool", "other consensus", "network", "payload"]
    );
}

#[test]
fn map_changes_one_part() {
    let b = builder()
        .map_pool(|_| Part("a"))
        .map_payload(|_| Part("b"))
        .map_network(|_| Part("c"))
        .map_executor(|_| Part("d"))
        .map_consensus(|_| Part("e"));
    assert_eq!(names(start(b)), ["d", "a", "e", "c", "b"]);
    assert_eq!(
        names(start(builder().map_network(|part| Part(&part.0[..3])))),
        ["executor", "pool", "consensus", "net", "payload"]
    );
}

#[test]
fn construction_of_all_components() {
    let (executor, stage) = start(builder());
    assert_eq!(executor, Part("executor"));
    let (pool, stage) = stage.evm_built(Ok::<u16, String>(1)).unwrap();
    assert_eq!(pool, Part("pool"));
    let (consensus, stage) =
        stage.pool_built(Ok::<String, String>("the pool".to_string())).unwrap();
    assert_eq!(consensus, Part("consensus"));
    let (network, for_network, stage) =
        stage.consensus_built(Ok::<bool, String>(true)).unwrap();
    assert_eq!((network, for_network.as_str()), (Part("network"), "the pool"));
    let (payload, for_payload, evm_config, stage) =
        stage.network_built(Ok::<u8, String>(2)).unwrap();
    assert_eq!((payload, for_payload.as_str(), evm_config), (Part("payload"), "the pool", 1));
    let components = stage.payload_spawned(Ok::<u64, String>(3)).unwrap();
    assert_eq!(components.transaction_pool, "the pool");
    assert_eq!(components.evm_config, 1);
    assert_eq!(components.network, 2);
    assert_eq!(components.payload_builder_handle, 3);
    assert!(components.consensus);
}

#[test]
fn construction_ends_with_the_first_failure() {
    let stage = || start(builder()).1;
    assert_eq!(stage().evm_built(Err::<u16, u8>(1)).unwrap_err(), 1);
    let pool = || stage().evm_built(Ok::<u16, u8>(7)).unwrap().1;
    assert_eq!(pool().pool_built(Err::<String, u8>(2)).unwrap_err(), 2);
    let consensus = || pool().pool_built(Ok::<String, u8>(String::new())).unwrap().1;
    assert_eq!(consensus().consensus_built(Err::<bool, u8>(3)).unwrap_err(), 3);
    let network = || consensus().consensus_built(Ok::<bool, u8>(true)).unwrap().2;
    assert_eq!(network().network_built(Err::<u8, u8>(4)).unwrap_err(), 4);
    let payload = || network().network_built(Ok::<u8, u8>(0)).unwrap().3;
    assert_eq!(payload().payload_spawned(Err::<u64, u8>(5)).unwrap_err(), 5);
}

#[test]
fn function_builds_components() {
    let build = NodeComponentsBuilder::<Node>::build_components(|ctx: &u32| *ctx + 1, &41);
    assert_eq!(build, 42);
}

#[test]
fn noop_parts() {
    let b = ComponentsBuilder::default()
        .node_types::<Node>()
        .noop_pool::<u8>()
        .executor(Part("executor"))
        .noop_network::<u16>()
        .noop_payload()
        .noop_consensus();
    let (executor, stage) = NodeComponentsBuilder::<Node>::build_components(b, &0);
    assert_eq!(executor, Part("executor"));
    let (pool, stage) = stage.evm_built(Ok::<u16, ()>(1)).unwrap();
    let (consensus, stage) = stage.pool_built(Ok::<_, ()>(pool.build_pool())).unwrap();
    let (network, _, stage) =
        stage.consensus_built(Ok::<_, ()>(consensus.build_consensus())).unwrap();
    let (payload, _, _, stage) =
        stage.network_built(Ok::<_, ()>(network.build_network())).unwrap();
    let handle = payload.spawn_payload_builder_service();
    let components = stage.payload_spawned(Ok::<_, ()>(handle)).unwrap();
    assert_eq!(components.payload_builder_handle, NoopPayloadBuilderHandle);
    assert_eq!(components.consensus, NoopConsensus);
    assert_eq!(NoopConsensusBuilder::default().build_consensus(), NoopConsensus);
    let handle = NoopPayloadBuilder::default().spawn_payload_builder_service();
    assert_eq!(handle, NoopPayloadBuilderHandle);
}
