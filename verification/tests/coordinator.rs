use data_exchange::coordinator::advance;
use data_exchange::coordinator::BuiltFragment;
use data_exchange::coordinator::Execution;
use data_exchange::coordinator::ExecutorPacket;
use data_exchange::coordinator::PublisherEndpoint;
use data_exchange::coordinator::QueryCoordinator;
use data_exchange::coordinator::QueryStage;
use data_exchange::coordinator::SourceFragments;
use data_exchange::error::ErrorCode;
use data_exchange::error::ErrorKind;
use data_exchange::fragment::FragmentCoordinator;
use data_exchange::fragment::FragmentPacket;
use data_exchange::fragment::PlanNode;
use data_exchange::packet::DataBlock;
use data_exchange::packet::DataPacket;
use data_exchange::params::DataExchange;
use data_exchange::params::DataSchemaRef;
use data_exchange::params::ExchangeParams;
use data_exchange::params::MergeExchange;
use data_exchange::params::ShuffleDataExchange;
use data_exchange::pipeline::FragmentSender;
use data_exchange::pipeline::Pipeline;

fn node() -> PlanNode {
    PlanNode { schema: DataSchemaRef { id: 9 } }
}

fn merge(destination: &str) -> Option<DataExchange> {
    Some(DataExchange::Merge(MergeExchange { destination_id: destination.to_string() }))
}

fn shuffle(destinations: &[&str]) -> Option<DataExchange> {
    Some(DataExchange::ShuffleDataExchange(ShuffleDataExchange {
        destination_ids: destinations.iter().map(|d| d.to_string()).collect(),
        exchange_expression: "number".to_string(),
    }))
}

fn packet(executor: &str, fragments: Vec<FragmentPacket>, sources: &[&str]) -> ExecutorPacket {
    ExecutorPacket {
        query_id: "q".to_string(),
        executor: executor.to_string(),
        request_executor: "a".to_string(),
        fragments,
        executors_info: vec![],
        source_2_fragments: sources
            .iter()
            .map(|s| SourceFragments { source: s.to_string(), fragments: vec![0] })
            .collect(),
    }
}

fn fragment(id: usize, exchange: Option<DataExchange>) -> FragmentPacket {
    FragmentPacket { node: node(), fragment_id: id, data_exchange: exchange }
}

fn endpoint(target: &str, to_request_server: bool, ids: &[usize]) -> (PublisherEndpoint, Vec<async_channel::Receiver<DataPacket>>) {
    let mut fragments = Vec::new();
    let mut receivers = Vec::new();
    for id in ids {
        let (tx, rx) = async_channel::bounded(2);
        fragments.push((*id, FragmentSender { tx }));
        receivers.push(rx);
    }
    (
        PublisherEndpoint { target: target.to_string(), to_request_server, fragments: Ok(fragments) },
        receivers,
    )
}

#[test]
fn new_coordinator_knows_its_fragments_only() {
    let query = QueryCoordinator::create(&packet(
        "b",
        vec![fragment(1, merge("a")), fragment(2, None), fragment(1, shuffle(&["a", "c"]))],
        &[],
    ));
    assert_eq!(query.query_id, "q");
    assert_eq!(query.executor_id, "b");
    assert_eq!(query.stage, QueryStage::Created);
    assert_eq!(query.fragments_coordinator.len(), 2);
    assert_eq!(query.fragments_coordinator[0].fragment_id, 1);
    assert_eq!(query.fragments_coordinator[0].data_exchange, shuffle(&["a", "c"]));
    assert_eq!(query.fragments_coordinator[1].fragment_id, 2);
    assert!(query.request_server_tx.is_none());
    assert!(query.shutdown_cause.is_none());
    assert!(!query.executing);
    assert!(query.publish_fragments.is_empty());
}

#[test]
fn fragment_pipeline_is_built_once() {
    let mut fragment = *FragmentCoordinator::create(&fragment(3, merge("a")));
    assert!(!fragment.initialized);
    assert!(fragment.prepare_pipeline(Ok(Pipeline::with_source(2))).is_ok());
    assert!(fragment.initialized);
    assert_eq!(fragment.pipeline.as_ref().unwrap().outputs, 2);
    assert!(fragment.prepare_pipeline(Ok(Pipeline::with_source(5))).is_ok());
    assert_eq!(fragment.pipeline.as_ref().unwrap().outputs, 2);
    assert!(fragment.prepare_pipeline(Err(ErrorCode::new(ErrorKind::LogicalError, "x"))).is_ok());
    assert_eq!(fragment.pipeline.as_ref().unwrap().outputs, 2);
}

#[test]
fn failed_build_leaves_the_fragment_without_pipeline() {
    let mut fragment = *FragmentCoordinator::create(&fragment(3, merge("a")));
    let failure = ErrorCode::new(ErrorKind::LogicalError, "no table");
    assert_eq!(fragment.prepare_pipeline(Err(failure.clone())), Err(failure));
    assert!(fragment.initialized);
    assert!(fragment.pipeline.is_none());
    assert!(fragment.prepare_pipeline(Ok(Pipeline::with_source(1))).is_ok());
    assert!(fragment.pipeline.is_none());
}

#[test]
fn exchange_params_follow_the_policy() {
    let query = QueryCoordinator::create(&packet("b", vec![], &[]));
    let merged = *FragmentCoordinator::create(&fragment(3, merge("a")));
    match merged.create_exchange_params(&query).unwrap() {
        ExchangeParams::MergeExchange(params) => {
            assert_eq!(params.destination_id, "a");
            assert_eq!(params.fragment_id, 3);
            assert_eq!(params.query_id, "q");
            assert_eq!(params.schema, DataSchemaRef { id: 9 });
        }
        other => panic!("{:?}", other),
    }
    let shuffled = *FragmentCoordinator::create(&fragment(4, shuffle(&["a", "c"])));
    match shuffled.create_exchange_params(&query).unwrap() {
        ExchangeParams::ShuffleExchange(params) => {
            assert_eq!(params.destination_ids, vec!["a".to_string(), "c".to_string()]);
            assert_eq!(params.executor_id, "b");
            assert_eq!(params.query_id, "q");
            assert_eq!(params.fragment_id, 4);
            assert_eq!(params.shuffle_scatter.scatter_size(), 2);
        }
        other => panic!("{:?}", other),
    }
}

#[test]
fn fragment_without_policy_has_no_exchange_params() {
    let query = QueryCoordinator::create(&packet("b", vec![], &[]));
    let root = *FragmentCoordinator::create(&fragment(0, None));
    let failure = root.create_exchange_params(&query).unwrap_err();
    assert_eq!(failure.kind, ErrorKind::LogicalError);
    assert_eq!(failure.message, "Cannot found data exchange.");
    let empty = *FragmentCoordinator::create(&fragment(0, shuffle(&[])));
    assert_eq!(empty.create_exchange_params(&query).unwrap_err().kind, ErrorKind::LogicalError);
}

#[test]
fn prepare_pipeline_installs_in_order_and_stops_at_a_failure() {
    let mut query = QueryCoordinator::create(&packet(
        "b",
        vec![fragment(1, merge("a")), fragment(2, merge("a")), fragment(3, merge("a"))],
        &[],
    ));
    let failure = ErrorCode::new(ErrorKind::LogicalError, "broken plan");
    let r = query.prepare_pipeline(vec![
        BuiltFragment { fragment_id: 2, outcome: Ok(Pipeline::with_source(4)) },
        BuiltFragment { fragment_id: 7, outcome: Ok(Pipeline::with_source(1)) },
        BuiltFragment { fragment_id: 1, outcome: Err(failure.clone()) },
        BuiltFragment { fragment_id: 3, outcome: Ok(Pipeline::with_source(1)) },
    ]);
    assert_eq!(r, Err(failure));
    assert_eq!(query.stage, QueryStage::Created);
    assert!(query.fragments_coordinator[0].initialized);
    assert!(query.fragments_coordinator[0].pipeline.is_none());
    assert_eq!(query.fragments_coordinator[1].pipeline.as_ref().unwrap().outputs, 4);
    assert!(!query.fragments_coordinator[2].initialized);

    let mut query = QueryCoordinator::create(&packet("b", vec![fragment(1, merge("a"))], &[]));
    let r = query.prepare_pipeline(vec![BuiltFragment { fragment_id: 1, outcome: Ok(Pipeline::with_source(1)) }]);
    assert!(r.is_ok());
    assert_eq!(query.stage, QueryStage::PipelinePrepared);
}

#[test]
fn subscribe_channels_are_opened_for_remote_sources() {
    let mut query = QueryCoordinator::create(&packet("b", vec![], &[]));
    let opened = query.prepare_subscribes_channel(&packet("b", vec![], &["a", "b", "c"]));
    assert_eq!(opened.len(), 2);
    assert_eq!(opened[0].source, "a");
    assert_eq!(opened[1].source, "c");
    assert_eq!(opened[0].capacity, 1);
    assert_eq!(opened[0].rx.capacity(), Some(1));
    assert_eq!(query.exchange_receivers, vec!["a".to_string(), "c".to_string()]);
    assert_eq!(query.subscribe_channel.len(), 2);
    assert_eq!(query.subscribe_channel[0].source, "a");
    assert_eq!(query.subscribe_channel[1].source, "c");
}

#[test]
fn inbound_channel_is_handed_out_once() {
    let mut query = QueryCoordinator::create(&packet("b", vec![], &[]));
    let opened = query.prepare_subscribes_channel(&packet("b", vec![], &["a"]));
    let tx = query.receive_data("a").unwrap();
    let sent = DataPacket::Data(0, DataBlock { rows: vec![1] });
    tx.try_send(DataPacket::Data(0, DataBlock { rows: vec![1] })).unwrap();
    assert_eq!(opened[0].rx.try_recv().unwrap(), sent);
    let failure = query.receive_data("a").unwrap_err();
    assert_eq!(failure.kind, ErrorKind::NotFound);
    assert_eq!(failure.message, "Cannot found fragment channel, It's a bug.");
    assert_eq!(query.receive_data("z").unwrap_err().kind, ErrorKind::NotFound);
}

#[test]
fn full_channel_holds_the_producer_and_keeps_the_order() {
    let mut query = QueryCoordinator::create(&packet("b", vec![], &[]));
    let opened = query.prepare_subscribes_channel(&packet("b", vec![], &["a"]));
    let tx = query.receive_data("a").unwrap();
    let first = DataPacket::Data(0, DataBlock { rows: vec![1] });
    let second = DataPacket::Data(0, DataBlock { rows: vec![2] });
    assert!(tx.try_send(DataPacket::Data(0, DataBlock { rows: vec![1] })).is_ok());
    let refused = tx.try_send(DataPacket::Data(0, DataBlock { rows: vec![2] }));
    match refused {
        Err(async_channel::TrySendError::Full(kept)) => assert_eq!(kept, second),
        other => panic!("{:?}", other),
    }
    assert!(tx.is_full());
    assert_eq!(opened[0].rx.len(), 1);
    assert_eq!(opened[0].rx.try_recv().unwrap(), first);
    assert!(tx.try_send(DataPacket::Data(0, DataBlock { rows: vec![2] })).is_ok());
    assert_eq!(opened[0].rx.try_recv().unwrap(), second);
    assert!(opened[0].rx.try_recv().is_err());
}

#[test]
fn publisher_registers_queues_and_the_path_to_the_requester() {
    let mut query = QueryCoordinator::create(&packet("b", vec![fragment(1, merge("a"))], &[]));
    let (to_a, queues_a) = endpoint("a", true, &[1, 2]);
    let (to_c, _queues_c) = endpoint("c", false, &[1]);
    assert!(query.init_publisher(vec![to_a, to_c]).is_ok());
    assert_eq!(query.stage, QueryStage::PublisherPrepared);
    assert_eq!(query.request_server_tx, Some("a".to_string()));
    assert_eq!(query.exchange_senders, vec!["a".to_string(), "c".to_string()]);
    assert_eq!(query.publish_fragments.len(), 3);
    assert_eq!(query.publish_fragments[1].target, "a");
    assert_eq!(query.publish_fragments[1].fragment_id, 2);

    let sink = query.get_fragment_sink(2, "a").unwrap();
    sink.tx.try_send(DataPacket::Data(2, DataBlock { rows: vec![8] })).unwrap();
    assert_eq!(queues_a[1].try_recv().unwrap(), DataPacket::Data(2, DataBlock { rows: vec![8] }));
    assert!(queues_a[0].try_recv().is_err());

    let failure = query.get_fragment_sink(2, "c").unwrap_err();
    assert_eq!(failure.kind, ErrorKind::NotFound);
    assert_eq!(failure.message, "Not found node c in cluster");
}

#[test]
fn publisher_stops_at_an_endpoint_that_failed_to_listen() {
    let mut query = QueryCoordinator::create(&packet("b", vec![], &[]));
    let (to_a, _qa) = endpoint("a", false, &[1]);
    let failure = ErrorCode::new(ErrorKind::Transport, "refused");
    let broken = PublisherEndpoint { target: "c".to_string(), to_request_server: true, fragments: Err(failure.clone()) };
    let (to_d, _qd) = endpoint("d", false, &[1]);
    assert_eq!(query.init_publisher(vec![to_a, broken, to_d]), Err(failure));
    assert_eq!(query.exchange_senders, vec!["a".to_string()]);
    assert_eq!(query.publish_fragments.len(), 1);
    assert!(query.request_server_tx.is_none());
    assert_eq!(query.stage, QueryStage::Created);
}

#[test]
fn node_without_fragments_has_nothing_to_execute() {
    let mut query = QueryCoordinator::create(&packet("a", vec![], &[]));
    assert!(query.execute_pipeline(8).unwrap().is_none());
    assert!(!query.executing);
    assert_eq!(query.stage, QueryStage::Created);
}

#[test]
fn execution_closes_every_pipeline_with_its_sinks() {
    let mut query = QueryCoordinator::create(&packet(
        "b",
        vec![fragment(1, shuffle(&["a", "c"])), fragment(2, merge("a"))],
        &[],
    ));
    query
        .prepare_pipeline(vec![
            BuiltFragment { fragment_id: 1, outcome: Ok(Pipeline::with_source(2)) },
            BuiltFragment { fragment_id: 2, outcome: Ok(Pipeline::with_source(1)) },
        ])
        .unwrap();
    let (to_a, _qa) = endpoint("a", true, &[1, 2]);
    let (to_c, _qc) = endpoint("c", false, &[1]);
    query.init_publisher(vec![to_a, to_c]).unwrap();
    query.exchange_receivers.push("c".to_string());
    let run = query.execute_pipeline(8).unwrap().unwrap();
    assert!(query.executing);
    assert_eq!(query.stage, QueryStage::Executing);
    assert!(query.request_server_tx.is_none());
    assert_eq!(run.request_server_tx, Some("a".to_string()));
    assert_eq!(run.receivers, vec!["c".to_string()]);
    assert_eq!(run.pipelines.len(), 2);
    assert_eq!(run.pipelines[0].max_threads, 8);
    assert!(run.pipelines[0].is_complete_pipeline());
    assert_eq!(run.pipelines[0].sinks.len(), 2);
    assert_eq!(run.pipelines[0].sinks[0].destination, "a");
    assert_eq!(run.pipelines[0].sinks[1].destination, "c");
    assert_eq!(run.pipelines[0].sinks[1].fragment_id, 1);
    assert!(run.pipelines[0].sinks.iter().all(|s| s.sender.is_some()));
    assert_eq!(run.pipelines[1].sinks.len(), 1);
    assert_eq!(run.pipelines[1].sinks[0].destination, "a");
    assert!(query.fragments_coordinator.iter().all(|f| f.pipeline.is_none()));
}

#[test]
fn execution_refuses_a_pipeline_that_yields_nothing() {
    let mut query = QueryCoordinator::create(&packet("b", vec![fragment(1, merge("a"))], &[]));
    query
        .prepare_pipeline(vec![BuiltFragment { fragment_id: 1, outcome: Ok(Pipeline::create()) }])
        .unwrap();
    let failure = query.execute_pipeline(8).unwrap_err();
    assert_eq!(failure.kind, ErrorKind::LogicalError);
    assert_eq!(failure.message, "Logical error, It's a bug");
    assert!(!query.executing);
}

#[test]
fn execution_refuses_a_fragment_without_policy_or_queue() {
    let mut query = QueryCoordinator::create(&packet("b", vec![fragment(1, None)], &[]));
    assert_eq!(query.execute_pipeline(8).unwrap_err().kind, ErrorKind::LogicalError);

    let mut query = QueryCoordinator::create(&packet("b", vec![fragment(1, merge("a"))], &[]));
    query
        .prepare_pipeline(vec![BuiltFragment { fragment_id: 1, outcome: Ok(Pipeline::with_source(1)) }])
        .unwrap();
    assert_eq!(query.execute_pipeline(8).unwrap_err().kind, ErrorKind::NotFound);
}

#[test]
fn remote_fragment_becomes_the_source_of_the_pipeline() {
    let mut query = QueryCoordinator::create(&packet("a", vec![], &[]));
    let mut pipeline = Pipeline::create();
    let r = query.subscribe_fragment(5, DataSchemaRef { id: 2 }, &mut pipeline, Ok(Pipeline::with_source(3)));
    assert!(r.is_ok());
    assert!(pipeline.is_pulling_pipeline());
    assert_eq!(pipeline.outputs, 1);
    assert_eq!(pipeline.sources.len(), 1);
    assert_eq!(pipeline.sources[0].fragment_id, 5);
    assert_eq!(pipeline.sources[0].schema, DataSchemaRef { id: 2 });
    assert_eq!(query.subscribe_fragments.len(), 1);
    assert_eq!(query.subscribe_fragments[0].fragment_id, 5);
    assert_eq!(query.subscribe_fragments[0].capacity, 1);
    query.subscribe_fragments[0]
        .receiver
        .tx
        .try_send(DataPacket::Data(5, DataBlock { rows: vec![1] }))
        .unwrap();
    assert_eq!(
        pipeline.sources[0].rx.try_recv().unwrap(),
        DataPacket::Data(5, DataBlock { rows: vec![1] })
    );
}

#[test]
fn local_fragment_is_merged_into_the_pipeline() {
    let mut query = QueryCoordinator::create(&packet(
        "a",
        vec![fragment(5, merge("a")), fragment(6, None), fragment(7, merge("a"))],
        &[],
    ));
    let mut pipeline = Pipeline::create();
    let r = query.subscribe_fragment(5, DataSchemaRef { id: 2 }, &mut pipeline, Ok(Pipeline::with_source(3)));
    assert!(r.is_ok());
    assert_eq!(pipeline.outputs, 3);
    assert_eq!(pipeline.sinks.len(), 1);
    assert_eq!(pipeline.sinks[0].destination, "a");
    assert_eq!(pipeline.sinks[0].fragment_id, 5);
    assert_eq!(pipeline.sources.len(), 1);
    assert_eq!(pipeline.sources[0].schema, DataSchemaRef { id: 9 });
    assert_eq!(query.fragments_coordinator.len(), 2);

    let mut root = Pipeline::create();
    let r = query.subscribe_fragment(6, DataSchemaRef { id: 2 }, &mut root, Ok(Pipeline::with_source(4)));
    assert!(r.is_ok());
    assert_eq!(root.outputs, 4);
    assert!(root.sinks.is_empty());
    assert!(root.sources.is_empty());
    assert_eq!(query.fragments_coordinator.len(), 1);
}

#[test]
fn fragment_that_was_started_without_pipeline_is_a_circular_dependency() {
    let mut query = QueryCoordinator::create(&packet("a", vec![fragment(5, merge("a"))], &[]));
    query.fragments_coordinator[0].initialized = true;
    let mut pipeline = Pipeline::create();
    let failure = query
        .subscribe_fragment(5, DataSchemaRef { id: 2 }, &mut pipeline, Ok(Pipeline::with_source(3)))
        .unwrap_err();
    assert_eq!(failure.kind, ErrorKind::LogicalError);
    assert_eq!(failure.message, "Pipeline is none, maybe query fragment circular dependency.");
    assert!(!pipeline.staged);
}

#[test]
fn shutdown_records_the_cause() {
    let mut query = QueryCoordinator::create(&packet("a", vec![], &[]));
    let cause = ErrorCode::new(ErrorKind::Transport, "lost");
    assert!(!query.shutdown(Some(cause.clone())));
    assert_eq!(query.shutdown_cause, Some(cause));
    assert_eq!(query.stage, QueryStage::Terminated);
    query.executing = true;
    assert!(query.shutdown(None));
    assert!(query.shutdown_cause.is_none());
}

#[test]
fn stages_only_move_forward() {
    assert_eq!(advance(QueryStage::Created, QueryStage::Executing), QueryStage::Executing);
    assert_eq!(advance(QueryStage::Executing, QueryStage::PipelinePrepared), QueryStage::Executing);
    assert_eq!(advance(QueryStage::Terminated, QueryStage::Created), QueryStage::Terminated);
    assert_eq!(advance(QueryStage::Terminated, QueryStage::Executing), QueryStage::Terminated);
    assert_eq!(advance(QueryStage::PipelinePrepared, QueryStage::PublisherPrepared), QueryStage::PublisherPrepared);
    assert_eq!(advance(QueryStage::Executing, QueryStage::Terminated), QueryStage::Terminated);
}

#[test]
fn only_the_first_of_two_failures_reaches_the_requester() {
    let executor = ErrorCode::new(ErrorKind::Transport, "node c failed");
    let recorded = ErrorCode::new(ErrorKind::Transport, "node d failed");
    let mut run = Execution { pipelines: vec![], request_server_tx: Some("a".to_string()), receivers: vec![] };
    let signal = run.report(Err(executor.clone()), Some(recorded.clone()));
    assert_eq!(signal, Some(("a".to_string(), executor)));
    assert!(run.request_server_tx.is_none());
    assert_eq!(run.report(Err(recorded.clone()), Some(recorded.clone())), None);

    let mut run = Execution { pipelines: vec![], request_server_tx: Some("a".to_string()), receivers: vec![] };
    assert_eq!(run.report(Ok(()), Some(recorded.clone())), Some(("a".to_string(), recorded.clone())));
    assert_eq!(run.report(Ok(()), Some(recorded.clone())), None);

    let mut run = Execution { pipelines: vec![], request_server_tx: Some("a".to_string()), receivers: vec![] };
    assert_eq!(run.report(Ok(()), None), None);
    assert_eq!(run.request_server_tx, Some("a".to_string()));

    let mut run = Execution { pipelines: vec![], request_server_tx: None, receivers: vec![] };
    assert_eq!(run.report(Err(recorded.clone()), Some(recorded)), None);
}

#[test]
fn shuffled_rows_arrive_at_the_node_of_their_bucket() {
    let mut node_a = QueryCoordinator::create(&packet("a", vec![fragment(1, shuffle(&["b", "c"]))], &[]));
    node_a
        .prepare_pipeline(vec![BuiltFragment { fragment_id: 1, outcome: Ok(Pipeline::with_source(1)) }])
        .unwrap();
    let (to_b, wire_b) = endpoint("b", false, &[1]);
    let (to_c, wire_c) = endpoint("c", false, &[1]);
    node_a.init_publisher(vec![to_b, to_c]).unwrap();
    let params = node_a.fragments_coordinator[0].create_exchange_params(&node_a).unwrap();
    let run = node_a.execute_pipeline(2).unwrap().unwrap();

    let rows: Vec<u64> = (0..100).collect();
    for delivery in data_exchange::params::route_block(&params, DataBlock { rows: rows.clone() }) {
        let sink = run.pipelines[0].sinks.iter().find(|s| s.destination == delivery.destination).unwrap();
        sink.sender.as_ref().unwrap().tx.try_send(DataPacket::Data(1, delivery.block)).unwrap();
    }

    let mut node_b = QueryCoordinator::create(&packet("b", vec![fragment(2, None)], &[]));
    let opened = node_b.prepare_subscribes_channel(&packet("b", vec![], &["a"]));
    let inbound = node_b.receive_data("a").unwrap();
    let arrived = wire_b[0].try_recv().unwrap();
    let forwarded = data_exchange::packet::inbound_packet(data_exchange::packet::StreamItem::Packet(arrived));
    inbound.try_send(forwarded).unwrap();
    let seen = data_exchange::packet::source_step(opened[0].rx.try_recv().unwrap()).unwrap();
    let even: Vec<u64> = (0..100).filter(|r| r % 2 == 0).collect();
    assert_eq!(seen.rows, even);
    assert!(wire_b[0].try_recv().is_err());

    let other = data_exchange::packet::source_step(wire_c[0].try_recv().unwrap()).unwrap();
    let odd: Vec<u64> = (0..100).filter(|r| r % 2 == 1).collect();
    assert_eq!(other.rows, odd);
    let mut all = seen.rows.clone();
    all.extend(other.rows.iter().copied());
    all.sort();
    assert_eq!(all, rows);
}

#[test]
fn publishing_worker_has_a_queue_of_two() {
    let query = QueryCoordinator::create(&packet("b", vec![], &[]));
    let worker = query.spawn_pub_worker();
    assert_eq!(worker.query_id, "q");
    assert_eq!(worker.source, "b");
    assert_eq!(worker.capacity, 2);
    assert_eq!(worker.tx.capacity(), Some(2));
    worker.tx.try_send(DataPacket::Data(0, DataBlock { rows: vec![1] })).unwrap();
    worker.tx.try_send(DataPacket::Data(0, DataBlock { rows: vec![2] })).unwrap();
    assert!(worker.tx.try_send(DataPacket::Data(0, DataBlock { rows: vec![3] })).is_err());
    assert_eq!(worker.rx.try_recv().unwrap(), DataPacket::Data(0, DataBlock { rows: vec![1] }));
    assert_eq!(worker.rx.try_recv().unwrap(), DataPacket::Data(0, DataBlock { rows: vec![2] }));
}

#[test]
fn failed_connection_is_the_cause_of_a_shutdown() {
    let status = ErrorCode::new(ErrorKind::Transport, "refused");
    assert_eq!(data_exchange::coordinator::connection_ended(Err(status.clone())), Some(status));
    assert_eq!(data_exchange::coordinator::connection_ended(Ok(())), None);
}

#[test]
fn inbound_channel_of_a_fragment_is_found_by_its_id() {
    let mut query = QueryCoordinator::create(&packet("a", vec![], &[]));
    let mut pipeline = Pipeline::create();
    query.subscribe_fragment(5, DataSchemaRef { id: 2 }, &mut pipeline, Ok(Pipeline::create())).unwrap();
    let receiver = query.get_fragment_receiver(5).unwrap();
    receiver.tx.try_send(DataPacket::Data(5, DataBlock { rows: vec![3] })).unwrap();
    assert_eq!(pipeline.sources[0].rx.try_recv().unwrap(), DataPacket::Data(5, DataBlock { rows: vec![3] }));
    let failure = query.get_fragment_receiver(6).unwrap_err();
    assert_eq!(failure.kind, ErrorKind::NotFound);
}
