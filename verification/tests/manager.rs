use data_exchange::coordinator::BuiltFragment;
use data_exchange::coordinator::ExecutorPacket;
use data_exchange::coordinator::NodeInfo;
use data_exchange::coordinator::PublisherEndpoint;
use data_exchange::coordinator::QueryStage;
use data_exchange::coordinator::SourceFragments;
use data_exchange::error::ErrorCode;
use data_exchange::error::ErrorKind;
use data_exchange::fragment::FragmentPacket;
use data_exchange::fragment::PlanNode;
use data_exchange::manager::flight_address;
use data_exchange::manager::CommitStep;
use data_exchange::manager::DataExchangeManager;
use data_exchange::manager::ExecutePacket;
use data_exchange::manager::PrepareChannel;
use data_exchange::manager::PreparePipeline;
use data_exchange::packet::DataPacket;
use data_exchange::params::DataExchange;
use data_exchange::params::DataSchemaRef;
use data_exchange::params::MergeExchange;
use data_exchange::pipeline::FragmentSender;
use data_exchange::pipeline::Pipeline;

fn nodes() -> Vec<NodeInfo> {
    vec![
        NodeInfo { id: "a".to_string(), flight_address: "10.0.0.1:9090".to_string() },
        NodeInfo { id: "b".to_string(), flight_address: "10.0.0.2:9090".to_string() },
    ]
}

fn executor_packet(query: &str, executor: &str, fragments: &[usize], sources: &[&str]) -> ExecutorPacket {
    ExecutorPacket {
        query_id: query.to_string(),
        executor: executor.to_string(),
        request_executor: "a".to_string(),
        fragments: fragments
            .iter()
            .map(|id| FragmentPacket {
                node: PlanNode { schema: DataSchemaRef { id: 1 } },
                fragment_id: *id,
                data_exchange: Some(DataExchange::Merge(MergeExchange { destination_id: "a".to_string() })),
            })
            .collect(),
        executors_info: nodes(),
        source_2_fragments: sources
            .iter()
            .map(|s| SourceFragments { source: s.to_string(), fragments: vec![1] })
            .collect(),
    }
}

fn prepare(query: &str, executor: &str, fragments: &[usize], sources: &[&str]) -> PreparePipeline {
    PreparePipeline { executor_packet: executor_packet(query, executor, fragments, sources) }
}

fn built(ids: &[usize]) -> Vec<BuiltFragment> {
    ids.iter().map(|id| BuiltFragment { fragment_id: *id, outcome: Ok(Pipeline::with_source(1)) }).collect()
}

fn channel_packet(query: &str) -> PrepareChannel {
    PrepareChannel {
        query_id: query.to_string(),
        executor: "b".to_string(),
        request_server: "a".to_string(),
        data_endpoints: nodes(),
        target_2_fragments: vec![],
    }
}

fn endpoint(target: &str, ids: &[usize]) -> (PublisherEndpoint, Vec<async_channel::Receiver<DataPacket>>) {
    let mut fragments = Vec::new();
    let mut receivers = Vec::new();
    for id in ids {
        let (tx, rx) = async_channel::bounded(2);
        fragments.push((*id, FragmentSender { tx }));
        receivers.push(rx);
    }
    (PublisherEndpoint { target: target.to_string(), to_request_server: true, fragments: Ok(fragments) }, receivers)
}

#[test]
fn query_is_prepared_at_most_once() {
    let mut manager = DataExchangeManager::create();
    assert_eq!(manager.query_count(), 0);
    let opened = manager.handle_prepare_pipeline(&prepare("q1", "b", &[1], &["a", "b"]), built(&[1])).unwrap();
    assert_eq!(opened.len(), 1);
    assert_eq!(opened[0].source, "a");
    assert!(manager.contains_query("q1"));
    assert_eq!(manager.query_count(), 1);
    assert_eq!(manager.get_query("q1").unwrap().stage, QueryStage::PipelinePrepared);

    let failure = manager.handle_prepare_pipeline(&prepare("q1", "b", &[1, 2], &[]), built(&[1, 2])).unwrap_err();
    assert_eq!(failure.kind, ErrorKind::AlreadyExists);
    assert_eq!(failure.message, "Already exists query id q1");
    assert_eq!(manager.query_count(), 1);
    assert_eq!(manager.get_query("q1").unwrap().fragments_coordinator.len(), 1);

    assert!(manager.handle_prepare_pipeline(&prepare("q2", "b", &[], &[]), vec![]).is_ok());
    assert_eq!(manager.query_count(), 2);
}

#[test]
fn requesting_node_opens_no_channels_while_preparing() {
    let mut manager = DataExchangeManager::create();
    let opened = manager.handle_prepare_pipeline(&prepare("q1", "a", &[1], &["b"]), built(&[1])).unwrap();
    assert!(opened.is_empty());
    assert!(manager.get_query("q1").unwrap().subscribe_channel.is_empty());
}

#[test]
fn failed_preparation_keeps_the_query_registered() {
    let mut manager = DataExchangeManager::create();
    let failure = ErrorCode::new(ErrorKind::LogicalError, "bad plan");
    let r = manager.handle_prepare_pipeline(
        &prepare("q1", "b", &[1], &["a"]),
        vec![BuiltFragment { fragment_id: 1, outcome: Err(failure.clone()) }],
    );
    assert_eq!(r.unwrap_err(), failure);
    assert!(manager.contains_query("q1"));
    assert!(manager.get_query("q1").unwrap().subscribe_channel.is_empty());
}

#[test]
fn unknown_query_is_refused_everywhere() {
    let mut manager = DataExchangeManager::create();
    manager.handle_prepare_pipeline(&prepare("q1", "b", &[1], &["a"]), built(&[1])).unwrap();

    let (to_a, _q) = endpoint("a", &[1]);
    let failure = manager.handle_prepare_publisher(&channel_packet("nope"), vec![to_a]).unwrap_err();
    assert_eq!(failure.kind, ErrorKind::NotFound);
    assert_eq!(failure.message, "Query nope not found in cluster.");
    assert_eq!(manager.handle_execute_pipeline("nope", 4).unwrap_err().kind, ErrorKind::NotFound);
    assert_eq!(manager.handle_do_put("nope", "a").unwrap_err().kind, ErrorKind::NotFound);
    assert_eq!(manager.shutdown_query("nope", None).unwrap_err().kind, ErrorKind::NotFound);
    let failure = manager.get_fragment_sink("nope", 1, "a").unwrap_err();
    assert_eq!(failure.kind, ErrorKind::NotFound);
    assert_eq!(failure.message, "Query not exists.");
    let mut pipeline = Pipeline::create();
    let failure = manager
        .get_fragment_source("nope".to_string(), 1, DataSchemaRef { id: 1 }, &mut pipeline, Ok(Pipeline::create()))
        .unwrap_err();
    assert_eq!(failure.kind, ErrorKind::NotFound);
    assert!(!pipeline.staged);
    let failure = manager
        .build_root_pipeline("nope".to_string(), 1, DataSchemaRef { id: 1 }, &vec![], Ok(Pipeline::create()))
        .unwrap_err();
    assert_eq!(failure.kind, ErrorKind::NotFound);

    assert_eq!(manager.query_count(), 1);
    let query = manager.get_query("q1").unwrap();
    assert_eq!(query.stage, QueryStage::PipelinePrepared);
    assert_eq!(query.subscribe_channel.len(), 1);
    assert!(query.publish_fragments.is_empty());
    assert!(!query.executing);
    assert!(!manager.contains_query("nope"));
}

#[test]
fn known_query_goes_through_its_stages() {
    let mut manager = DataExchangeManager::create();
    manager.handle_prepare_pipeline(&prepare("q1", "b", &[1], &["a"]), built(&[1])).unwrap();
    let (to_a, queues) = endpoint("a", &[1]);
    manager.handle_prepare_publisher(&channel_packet("q1"), vec![to_a]).unwrap();
    assert_eq!(manager.get_query("q1").unwrap().stage, QueryStage::PublisherPrepared);

    let sink = manager.get_fragment_sink("q1", 1, "a").unwrap();
    sink.tx.try_send(DataPacket::ErrorCode(ErrorCode::new(ErrorKind::Transport, "x"))).unwrap();
    assert!(queues[0].try_recv().is_ok());
    assert_eq!(manager.get_fragment_sink("q1", 3, "a").unwrap_err().kind, ErrorKind::NotFound);

    let run = manager.handle_execute_pipeline("q1", 4).unwrap().unwrap();
    assert_eq!(run.pipelines.len(), 1);
    assert_eq!(run.request_server_tx, Some("a".to_string()));
    assert_eq!(manager.get_query("q1").unwrap().stage, QueryStage::Executing);

    assert!(manager.handle_do_put("q1", "a").is_ok());
    assert_eq!(manager.handle_do_put("q1", "a").unwrap_err().kind, ErrorKind::NotFound);
    assert_eq!(manager.handle_do_put("q1", "a").unwrap_err().message, "Cannot found fragment channel, It's a bug.");
}

#[test]
fn shutdown_removes_the_query_and_a_second_one_finds_nothing() {
    let mut manager = DataExchangeManager::create();
    manager.handle_prepare_pipeline(&prepare("q1", "b", &[1], &[]), built(&[1])).unwrap();
    manager.handle_prepare_pipeline(&prepare("q2", "b", &[1], &[]), built(&[1])).unwrap();
    let cause = ErrorCode::new(ErrorKind::Transport, "connection lost");
    let ended = manager.shutdown_query("q1", Some(cause.clone())).unwrap();
    assert_eq!(ended.query_id, "q1");
    assert_eq!(ended.stage, QueryStage::Terminated);
    assert_eq!(ended.shutdown_cause, Some(cause.clone()));
    assert!(!manager.contains_query("q1"));
    assert!(manager.contains_query("q2"));
    assert_eq!(manager.query_count(), 1);

    let failure = manager.shutdown_query("q1", Some(cause)).unwrap_err();
    assert_eq!(failure.kind, ErrorKind::NotFound);
    assert_eq!(failure.message, "Query q1 not found in cluster.");
    assert_eq!(manager.query_count(), 1);
    assert!(manager.contains_query("q2"));
}

#[test]
fn root_pipeline_pulls_from_the_root_fragment() {
    let mut manager = DataExchangeManager::create();
    manager.handle_prepare_pipeline(&prepare("q1", "a", &[], &["b"]), vec![]).unwrap();
    let packets = vec![executor_packet("q1", "a", &[], &["a", "b"]), executor_packet("q1", "b", &[1], &["a"])];
    let (pipeline, opened) = manager
        .build_root_pipeline("q1".to_string(), 0, DataSchemaRef { id: 3 }, &packets, Ok(Pipeline::create()))
        .unwrap();
    assert!(pipeline.is_pulling_pipeline());
    assert_eq!(pipeline.sources.len(), 1);
    assert_eq!(pipeline.sources[0].fragment_id, 0);
    assert_eq!(opened.len(), 1);
    assert_eq!(opened[0].source, "b");
    assert_eq!(manager.get_query("q1").unwrap().subscribe_channel.len(), 1);

    let packets = vec![executor_packet("q9", "a", &[], &["b"])];
    let failure = manager
        .build_root_pipeline("q1".to_string(), 0, DataSchemaRef { id: 3 }, &packets, Ok(Pipeline::create()))
        .unwrap_err();
    assert_eq!(failure.kind, ErrorKind::NotFound);
    assert_eq!(failure.message, "Query q9 not found in cluster.");
}

#[test]
fn rounds_call_every_node_up_to_the_first_unknown_one() {
    let mut stray = executor_packet("q1", "z", &[], &[]);
    stray.executors_info = nodes();
    let packets = vec![executor_packet("q1", "b", &[], &[]), executor_packet("q1", "a", &[], &[]), stray, executor_packet("q1", "a", &[], &[])];
    let plan = DataExchangeManager::prepare_pipeline(&packets);
    assert_eq!(plan.addresses, vec!["10.0.0.2:9090".to_string(), "10.0.0.1:9090".to_string()]);
    let failure = plan.failure.unwrap();
    assert_eq!(failure.kind, ErrorKind::LogicalError);
    assert_eq!(failure.message, "Not found z node in cluster");

    let plan = DataExchangeManager::prepare_pipeline(&packets[..2].iter().map(|p| executor_packet(&p.query_id, &p.executor, &[], &[])).collect());
    assert_eq!(plan.addresses.len(), 2);
    assert!(plan.failure.is_none());

    let plan = DataExchangeManager::prepare_channel(&vec![channel_packet("q1")]);
    assert_eq!(plan.addresses, vec!["10.0.0.2:9090".to_string()]);
    assert!(plan.failure.is_none());

    let plan = DataExchangeManager::execute_pipeline(&vec![
        ExecutePacket { query_id: "q1".to_string(), executor: "a".to_string(), executors_info: nodes() },
        ExecutePacket { query_id: "q1".to_string(), executor: "b".to_string(), executors_info: vec![] },
    ]);
    assert_eq!(plan.addresses, vec!["10.0.0.1:9090".to_string()]);
    assert_eq!(plan.failure.unwrap().message, "Not found b node in cluster");
}

#[test]
fn address_is_looked_up_by_node() {
    assert_eq!(flight_address(&nodes(), "b"), Some("10.0.0.2:9090".to_string()));
    assert_eq!(flight_address(&nodes(), "c"), None);
}

#[test]
fn commit_takes_its_steps_in_order() {
    let mut step = CommitStep::PreparePipelines;
    let mut seen = vec![step];
    while step != CommitStep::Finished {
        step = DataExchangeManager::commit_actions(step, true);
        seen.push(step);
    }
    assert_eq!(
        seen,
        vec![
            CommitStep::PreparePipelines,
            CommitStep::BuildRootPipeline,
            CommitStep::PrepareChannels,
            CommitStep::InitRootPipeline,
            CommitStep::ExecutePipelines,
            CommitStep::Finished,
        ]
    );
    assert_eq!(DataExchangeManager::commit_actions(CommitStep::PrepareChannels, false), CommitStep::Failed);
    assert_eq!(DataExchangeManager::commit_actions(CommitStep::Failed, true), CommitStep::Failed);
    assert_eq!(DataExchangeManager::commit_actions(CommitStep::Finished, true), CommitStep::Finished);
}
