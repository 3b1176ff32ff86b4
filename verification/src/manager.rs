//! The registry of the queries that run on this node.

use vstd::prelude::*;
use crate::coordinator::channel_taken;
use crate::coordinator::channels_prepared;
use crate::coordinator::created_of;
use crate::coordinator::execution_started;
use crate::coordinator::fragment_subscribed;
use crate::coordinator::pipelines_prepared;
use crate::coordinator::publisher_initialized;
use crate::coordinator::same_text;
use crate::coordinator::shut_down;
use crate::coordinator::sink_found;
use crate::coordinator::BuiltFragment;
use crate::coordinator::Execution;
use crate::coordinator::ExecutorPacket;
use crate::coordinator::NodeInfo;
use crate::coordinator::PublisherEndpoint;
use crate::coordinator::QueryCoordinator;
use crate::coordinator::Subscription;
use crate::error::node_missing_text;
use crate::error::query_exists_text;
use crate::error::query_not_found_text;
use crate::error::ErrorCode;
use crate::error::ErrorKind;
use crate::packet::DataPacket;
use crate::params::DataSchemaRef;
use crate::pipeline::FragmentSender;
use crate::pipeline::Pipeline;
use crate::table::lemma_position;
use crate::table::lemma_position_at;
use crate::table::lemma_position_none;
use crate::table::position;
use crate::table::present;
use crate::table::without;

verus! {

/// The request to prepare the pipelines of a query on one node.
#[derive(Debug, PartialEq, Eq)]
pub struct PreparePipeline {
    pub executor_packet: ExecutorPacket,
}

/// The fragments that one node publishes to one target.
#[derive(Debug, PartialEq, Eq)]
pub struct TargetFragments {
    pub target: String,
    pub fragments: Vec<usize>,
}

/// The request to open the outbound connections of a query on one node.
#[derive(Debug, PartialEq, Eq)]
pub struct PrepareChannel {
    pub query_id: String,
    /// The node that this packet is for.
    pub executor: String,
    /// The node that the client asked.
    pub request_server: String,
    pub data_endpoints: Vec<NodeInfo>,
    pub target_2_fragments: Vec<TargetFragments>,
}

/// The request to start a query on one node.
#[derive(Debug, PartialEq, Eq)]
pub struct ExecutePacket {
    pub query_id: String,
    /// The node that this packet is for.
    pub executor: String,
    pub executors_info: Vec<NodeInfo>,
}

/// The requests of one round to the nodes of a query: the addresses to call
/// in turn, one for each packet up to the first whose node is unknown, and
/// the failure that ends the round there, if any.
#[derive(Debug, PartialEq, Eq)]
pub struct CallPlan {
    pub addresses: Vec<String>,
    pub failure: Option<ErrorCode>,
}

/// The steps by which the node that compiled a query commits it.
#[derive(Clone, Copy, Debug, PartialEq, Eq, Structural)]
pub enum CommitStep {
    /// Ask every node to prepare its pipelines.
    PreparePipelines,
    /// Build the pipeline of the root fragment on this node.
    BuildRootPipeline,
    /// Ask every node that forwards rows to open its outbound connections.
    PrepareChannels,
    /// Attach the sinks of the root pipeline.
    InitRootPipeline,
    /// Ask every other node to start.
    ExecutePipelines,
    /// Hand the root pipeline to the caller.
    Finished,
    /// Give up: a step failed.
    Failed,
}

/// The step that follows `step` once it ended well or badly.
pub open spec fn step_after(step: CommitStep, succeeded: bool) -> CommitStep {
    if !succeeded {
        CommitStep::Failed
    } else {
        match step {
            CommitStep::PreparePipelines => CommitStep::BuildRootPipeline,
            CommitStep::BuildRootPipeline => CommitStep::PrepareChannels,
            CommitStep::PrepareChannels => CommitStep::InitRootPipeline,
            CommitStep::InitRootPipeline => CommitStep::ExecutePipelines,
            CommitStep::ExecutePipelines => CommitStep::Finished,
            CommitStep::Finished => CommitStep::Finished,
            CommitStep::Failed => CommitStep::Failed,
        }
    }
}

/// Accepts the coordinator of the query `id`.
pub open spec fn query_is(id: Seq<char>) -> spec_fn(QueryCoordinator) -> bool {
    |q: QueryCoordinator| q.query_id@ == id
}

/// Accepts the node `id`.
pub open spec fn node_is(id: Seq<char>) -> spec_fn(NodeInfo) -> bool {
    |n: NodeInfo| n.id@ == id
}

/// Whether no two coordinators are of the same query.
pub open spec fn one_per_query(queries: Seq<QueryCoordinator>) -> bool {
    forall|i: int, j: int|
        0 <= i < j < queries.len() ==> queries[i].query_id@ != queries[j].query_id@
}

/// Whether `after` is `before` but for the coordinator at `at`.
pub open spec fn changed_at(before: Seq<QueryCoordinator>, at: int, after: Seq<QueryCoordinator>) -> bool {
    &&& after.len() == before.len()
    &&& forall|j: int| 0 <= j < before.len() && j != at ==> after[j] == before[j]
}

/// Whether `address` is where the node of the `k`-th packet listens.
pub open spec fn reaches(
    executors: Seq<Seq<char>>,
    nodes: Seq<Seq<NodeInfo>>,
    k: int,
    address: String,
) -> bool {
    &&& present(nodes[k], node_is(executors[k]))
    &&& address@ == nodes[k][position(nodes[k], node_is(executors[k]))].flight_address@
}

/// Whether `plan` is the round over packets for the nodes `executors`, each
/// looked up in the nodes that its packet names.
pub open spec fn planned(
    executors: Seq<Seq<char>>,
    nodes: Seq<Seq<NodeInfo>>,
    plan: CallPlan,
) -> bool {
    &&& plan.addresses@.len() <= executors.len()
    &&& forall|k: int|
        0 <= k < plan.addresses@.len() ==> #[trigger] reaches(
            executors,
            nodes,
            k,
            plan.addresses@[k],
        )
    &&& plan.failure is None ==> plan.addresses@.len() == executors.len()
    &&& plan.failure is Some ==> {
        let stop = plan.addresses@.len() as int;
        &&& stop < executors.len()
        &&& !present(nodes[stop], node_is(executors[stop]))
        &&& plan.failure->Some_0.kind == ErrorKind::LogicalError
        &&& plan.failure->Some_0.message@ == node_missing_text(executors[stop])
    }
}

/// The nodes that the packets of a round to prepare pipelines are for.
pub open spec fn pipeline_executors(packets: Seq<ExecutorPacket>) -> Seq<Seq<char>> {
    Seq::new(packets.len(), |k: int| packets[k].executor@)
}

/// The nodes that each packet of a round to prepare pipelines names.
pub open spec fn pipeline_nodes(packets: Seq<ExecutorPacket>) -> Seq<Seq<NodeInfo>> {
    Seq::new(packets.len(), |k: int| packets[k].executors_info@)
}

/// The nodes that the packets of a round to open connections are for.
pub open spec fn channel_executors(packets: Seq<PrepareChannel>) -> Seq<Seq<char>> {
    Seq::new(packets.len(), |k: int| packets[k].executor@)
}

/// The nodes that each packet of a round to open connections names.
pub open spec fn channel_nodes(packets: Seq<PrepareChannel>) -> Seq<Seq<NodeInfo>> {
    Seq::new(packets.len(), |k: int| packets[k].data_endpoints@)
}

/// The nodes that the packets of a round to start are for.
pub open spec fn execute_executors(packets: Seq<ExecutePacket>) -> Seq<Seq<char>> {
    Seq::new(packets.len(), |k: int| packets[k].executor@)
}

/// The nodes that each packet of a round to start names.
pub open spec fn execute_nodes(packets: Seq<ExecutePacket>) -> Seq<Seq<NodeInfo>> {
    Seq::new(packets.len(), |k: int| packets[k].executors_info@)
}

/// Whether a request for the unknown query `id` was refused: nothing
/// changed, and the failure names the query.
pub open spec fn query_missing(
    before: Seq<QueryCoordinator>,
    id: Seq<char>,
    after: Seq<QueryCoordinator>,
    failure: ErrorCode,
) -> bool {
    &&& after == before
    &&& failure.kind == ErrorKind::NotFound
    &&& failure.message@ == query_not_found_text(id)
}

/// What `handle_prepare_pipeline` makes of a registry: a query that is
/// registered already is refused and nothing changes; else the query is
/// registered with a new coordinator, whose pipelines are prepared from
/// `built`, and which opens its inbound channels unless this node is the one
/// that the client asked.
pub open spec fn query_prepared(
    before: Seq<QueryCoordinator>,
    prepare: PreparePipeline,
    built: Vec<BuiltFragment>,
    after: Seq<QueryCoordinator>,
    r: Result<Vec<Subscription>, ErrorCode>,
) -> bool {
    let packet = prepare.executor_packet;
    if present(before, query_is(packet.query_id@)) {
        &&& r is Err
        &&& r->Err_0.kind == ErrorKind::AlreadyExists
        &&& r->Err_0.message@ == query_exists_text(packet.query_id@)
        &&& after == before
    } else {
        exists|fresh: QueryCoordinator, prepared: QueryCoordinator, outcome: Result<(), ErrorCode>|
            {
                &&& created_of(fresh, packet)
                &&& pipelines_prepared(fresh, built, prepared, outcome)
                &&& after.len() == before.len() + 1
                &&& after.drop_last() == before
                &&& match outcome {
                    Err(cause) => r == Err::<Vec<Subscription>, ErrorCode>(cause) && after.last()
                        == prepared,
                    Ok(_) => r is Ok && if packet.executor@ != packet.request_executor@ {
                        channels_prepared(prepared, packet, after.last(), r->Ok_0@)
                    } else {
                        after.last() == prepared && r->Ok_0@.len() == 0
                    },
                }
            }
    }
}

/// What one packet of the node that the client asked adds while the root
/// pipeline is built: the inbound channels of that node for the query of the
/// packet. A packet for another node adds nothing, and a packet of an unknown
/// query ends the building.
pub open spec fn root_step(
    mid: Seq<QueryCoordinator>,
    packet: ExecutorPacket,
    after: Seq<QueryCoordinator>,
    added: Seq<Subscription>,
    failure: Option<ErrorCode>,
) -> bool {
    if packet.executor@ != packet.request_executor@ {
        after == mid && added.len() == 0 && failure is None
    } else if !present(mid, query_is(packet.query_id@)) {
        &&& after == mid
        &&& added.len() == 0
        &&& failure is Some
        &&& failure->Some_0.kind == ErrorKind::NotFound
        &&& failure->Some_0.message@ == query_not_found_text(packet.query_id@)
    } else {
        let at = position(mid, query_is(packet.query_id@));
        &&& changed_at(mid, at, after)
        &&& channels_prepared(mid[at], packet, after[at], added)
        &&& failure is None
    }
}

/// What the packets make of a registry one after the other while the root
/// pipeline is built, up to the first failure.
pub open spec fn root_subscribed(
    before: Seq<QueryCoordinator>,
    packets: Seq<ExecutorPacket>,
    after: Seq<QueryCoordinator>,
    opened: Seq<Subscription>,
    failure: Option<ErrorCode>,
) -> bool
    decreases packets.len(),
{
    if packets.len() == 0 {
        after == before && opened.len() == 0 && failure is None
    } else {
        exists|mid: Seq<QueryCoordinator>, earlier: Seq<Subscription>, added: Seq<Subscription>|
            {
                &&& root_subscribed(before, packets.drop_last(), mid, earlier, None)
                &&& root_step(mid, packets.last(), after, added, failure)
                &&& opened == earlier + added
            }
    }
}

/// What `build_root_pipeline` makes of a registry that knows the query:
/// `sourced` is how putting the root fragment at the input of the empty
/// pipeline `root` ended, with the registry at `mid` after it; on success,
/// the first `reached` packets opened the channels `opened`, and `failure`
/// is what ended that, if anything did.
pub open spec fn root_built(
    before: Seq<QueryCoordinator>,
    query_id: Seq<char>,
    fragment_id: usize,
    schema: DataSchemaRef,
    packets: Seq<ExecutorPacket>,
    built: Result<Pipeline, ErrorCode>,
    after: Seq<QueryCoordinator>,
    r: Result<(Pipeline, Vec<Subscription>), ErrorCode>,
    mid: Seq<QueryCoordinator>,
    root: Pipeline,
    sourced: Result<(), ErrorCode>,
    opened: Seq<Subscription>,
    failure: Option<ErrorCode>,
    reached: int,
) -> bool
    {
        let at = position(before, query_is(query_id));
        &&& 0 <= reached <= packets.len()
        &&& failure is None ==> reached == packets.len()
        &&& changed_at(before, at, mid)
        &&& Pipeline::created(root)
        &&& match sourced {
            Err(cause) => {
                &&& fragment_subscribed(
                    before[at],
                    fragment_id,
                    schema,
                    root,
                    built,
                    mid[at],
                    root,
                    sourced,
                )
                &&& r == Err::<(Pipeline, Vec<Subscription>), ErrorCode>(cause)
                &&& after == mid
            },
            Ok(_) => {
                &&& root_subscribed(
                    mid,
                    packets.take(reached),
                    after,
                    opened,
                    failure,
                )
                &&& match failure {
                    Some(cause) => r == Err::<(Pipeline, Vec<Subscription>), ErrorCode>(
                        cause,
                    ),
                    None => {
                        &&& r is Ok
                        &&& r->Ok_0.1@ == opened
                        &&& fragment_subscribed(
                            before[at],
                            fragment_id,
                            schema,
                            root,
                            built,
                            mid[at],
                            r->Ok_0.0,
                            sourced,
                        )
                    },
                }
            },
        }
    }

/// What `shutdown_query` makes of a registry: an unknown query is refused
/// and nothing changes; else the coordinator of the query leaves the
/// registry and is handed out, terminated, with the cause recorded in it.
pub open spec fn query_ended(
    before: Seq<QueryCoordinator>,
    id: Seq<char>,
    cause: Option<ErrorCode>,
    after: Seq<QueryCoordinator>,
    r: Result<QueryCoordinator, ErrorCode>,
) -> bool {
    &&& one_per_query(before) ==> one_per_query(after)
    &&& !present(before, query_is(id)) ==> r is Err && query_missing(before, id, after, r->Err_0)
    &&& present(before, query_is(id)) ==> {
        let at = position(before, query_is(id));
        &&& r is Ok
        &&& after == without(before, query_is(id))
        &&& shut_down(before[at], cause, r->Ok_0, before[at].executing)
        &&& one_per_query(before) ==> !present(after, query_is(id))
    }
}

/// A query is prepared at most once: whatever a first request to prepare a
/// query made of the registry, the query is registered after it, and a
/// second request for the same query is refused as existing already and
/// changes nothing.
pub proof fn law_prepare_at_most_once(
    before: Seq<QueryCoordinator>,
    first: PreparePipeline,
    first_built: Vec<BuiltFragment>,
    between: Seq<QueryCoordinator>,
    first_result: Result<Vec<Subscription>, ErrorCode>,
    second: PreparePipeline,
    second_built: Vec<BuiltFragment>,
    after: Seq<QueryCoordinator>,
    second_result: Result<Vec<Subscription>, ErrorCode>,
)
    requires
        query_prepared(before, first, first_built, between, first_result),
        query_prepared(between, second, second_built, after, second_result),
        second.executor_packet.query_id@ == first.executor_packet.query_id@,
    ensures
        present(between, query_is(first.executor_packet.query_id@)),
        second_result is Err,
        second_result->Err_0.kind == ErrorKind::AlreadyExists,
        after == between,
{
    let id = first.executor_packet.query_id@;
    if !present(before, query_is(id)) {
        assert(between.last().query_id@ == id);
        assert(query_is(id)(between[between.len() - 1]));
        lemma_position(between, query_is(id));
    }
}

/// Ending a query twice does no harm: in a registry with one coordinator
/// for each query, after a query was ended it is unknown, and a second
/// request to end it is refused as not found and changes nothing.
pub proof fn law_shutdown_twice(
    before: Seq<QueryCoordinator>,
    id: Seq<char>,
    first_cause: Option<ErrorCode>,
    between: Seq<QueryCoordinator>,
    first_result: Result<QueryCoordinator, ErrorCode>,
    second_cause: Option<ErrorCode>,
    after: Seq<QueryCoordinator>,
    second_result: Result<QueryCoordinator, ErrorCode>,
)
    requires
        one_per_query(before),
        query_ended(before, id, first_cause, between, first_result),
        query_ended(between, id, second_cause, after, second_result),
    ensures
        !present(between, query_is(id)),
        second_result is Err,
        second_result->Err_0.kind == ErrorKind::NotFound,
        after == between,
{
}

/// The address at which the node `node` listens, if `nodes` names it.
pub fn flight_address(nodes: &Vec<NodeInfo>, node: &str) -> (address: Option<String>)
    ensures
        address is Some <==> present(nodes@, node_is(node@)),
        address is Some ==> address->Some_0@ == nodes@[position(
            nodes@,
            node_is(node@),
        )].flight_address@,
{
    let mut i: usize = 0;
    while i < nodes.len()
        invariant
            i <= nodes@.len(),
            forall|j: int| 0 <= j < i ==> !node_is(node@)(nodes@[j]),
        decreases nodes@.len() - i,
    {
        if same_text(nodes[i].id.as_str(), node) {
            proof {
                lemma_position_at(nodes@, node_is(node@), i as int);
            }
            return Some(nodes[i].flight_address.clone());
        }
        i += 1;
    }
    proof {
        lemma_position_none(nodes@, node_is(node@));
    }
    None
}

/// The registry: for each query that runs on this node, its coordinator.
#[derive(Debug)]
pub struct DataExchangeManager {
    queries_coordinator: Vec<QueryCoordinator>,
}

impl View for DataExchangeManager {
    type V = Seq<QueryCoordinator>;

    closed spec fn view(&self) -> Seq<QueryCoordinator> {
        self.queries_coordinator@
    }
}

impl DataExchangeManager {
    /// A registry without queries.
    pub fn create() -> (manager: DataExchangeManager)
        ensures
            manager@.len() == 0,
            one_per_query(manager@),
    {
        DataExchangeManager { queries_coordinator: Vec::new() }
    }

    /// The number of queries that run on this node.
    pub fn query_count(&self) -> (n: usize)
        ensures
            n == self@.len(),
    {
        self.queries_coordinator.len()
    }

    /// The place of the coordinator of the query `id`.
    fn find_query(&self, id: &str) -> (at: Option<usize>)
        ensures
            at is Some ==> at->Some_0 == position(self@, query_is(id@)) && at->Some_0 < self@.len(),
            at is None ==> position(self@, query_is(id@)) == -1,
    {
        let mut i: usize = 0;
        while i < self.queries_coordinator.len()
            invariant
                i <= self.queries_coordinator@.len(),
                forall|j: int| 0 <= j < i ==> !query_is(id@)(self.queries_coordinator@[j]),
            decreases self.queries_coordinator@.len() - i,
        {
            if same_text(self.queries_coordinator[i].query_id.as_str(), id) {
                proof {
                    lemma_position_at(self.queries_coordinator@, query_is(id@), i as int);
                }
                return Some(i);
            }
            i += 1;
        }
        proof {
            lemma_position_none(self.queries_coordinator@, query_is(id@));
        }
        None
    }

    /// Whether the query `id` runs on this node.
    pub fn contains_query(&self, id: &str) -> (known: bool)
        ensures
            known == present(self@, query_is(id@)),
    {
        self.find_query(id).is_some()
    }

    /// The coordinator of the query `id`.
    pub fn get_query(&self, id: &str) -> (query: Option<&QueryCoordinator>)
        ensures
            query is Some <==> present(self@, query_is(id@)),
            query is Some ==> *query->Some_0 == self@[position(self@, query_is(id@))],
    {
        match self.find_query(id) {
            Some(at) => Some(&self.queries_coordinator[at]),
            None => None,
        }
    }

    /// Registers a query and prepares it on this node.
    pub fn handle_prepare_pipeline(&mut self, prepare: &PreparePipeline, built: Vec<BuiltFragment>) -> (r:
        Result<Vec<Subscription>, ErrorCode>)
        ensures
            query_prepared(old(self)@, *prepare, built, final(self)@, r),
            one_per_query(old(self)@) ==> one_per_query(final(self)@),
    {
        let packet = &prepare.executor_packet;
        let ghost before = self.queries_coordinator@;
        if self.find_query(packet.query_id.as_str()).is_some() {
            return Err(ErrorCode::query_exists(packet.query_id.as_str()));
        }
        proof {
            lemma_position(before, query_is(packet.query_id@));
        }
        let mut query = QueryCoordinator::create(packet);
        let ghost fresh = query;
        let outcome = query.prepare_pipeline(built);
        let ghost prepared = query;
        match outcome {
            Err(cause) => {
                self.queries_coordinator.push(query);
                proof {
                    assert(self.queries_coordinator@.drop_last() =~= before);
                    assert(pipelines_prepared(fresh, built, prepared, Err::<(), ErrorCode>(cause)));
                }
                Err(cause)
            },
            Ok(()) => {
                let opened = if !same_text(packet.executor.as_str(), packet.request_executor.as_str()) {
                    query.prepare_subscribes_channel(packet)
                } else {
                    Vec::new()
                };
                self.queries_coordinator.push(query);
                proof {
                    assert(self.queries_coordinator@.drop_last() =~= before);
                    assert(pipelines_prepared(fresh, built, prepared, Ok::<(), ErrorCode>(())));
                }
                Ok(opened)
            },
        }
    }

    /// Registers the outbound connections of a query.
    pub fn handle_prepare_publisher(&mut self, packet: &PrepareChannel, senders: Vec<PublisherEndpoint>) -> (r:
        Result<(), ErrorCode>)
        ensures
            one_per_query(old(self)@) ==> one_per_query(final(self)@),
            !present(old(self)@, query_is(packet.query_id@)) ==> r is Err && query_missing(
                old(self)@,
                packet.query_id@,
                final(self)@,
                r->Err_0,
            ),
            present(old(self)@, query_is(packet.query_id@)) ==> {
                let at = position(old(self)@, query_is(packet.query_id@));
                &&& changed_at(old(self)@, at, final(self)@)
                &&& publisher_initialized(old(self)@[at], senders, final(self)@[at], r)
            },
    {
        match self.find_query(packet.query_id.as_str()) {
            None => Err(ErrorCode::query_not_found(packet.query_id.as_str())),
            Some(at) => self.queries_coordinator[at].init_publisher(senders),
        }
    }

    /// Starts a query on this node.
    pub fn handle_execute_pipeline(&mut self, query_id: &str, max_threads: usize) -> (r: Result<
        Option<Execution>,
        ErrorCode,
    >)
        ensures
            one_per_query(old(self)@) ==> one_per_query(final(self)@),
            !present(old(self)@, query_is(query_id@)) ==> r is Err && query_missing(
                old(self)@,
                query_id@,
                final(self)@,
                r->Err_0,
            ),
            present(old(self)@, query_is(query_id@)) ==> {
                let at = position(old(self)@, query_is(query_id@));
                &&& changed_at(old(self)@, at, final(self)@)
                &&& execution_started(old(self)@[at], max_threads, final(self)@[at], r)
            },
    {
        match self.find_query(query_id) {
            None => Err(ErrorCode::query_not_found(query_id)),
            Some(at) => self.queries_coordinator[at].execute_pipeline(max_threads),
        }
    }

    /// Hands out the channel that takes what the node `source` sends for the
    /// query `id`.
    pub fn handle_do_put(&mut self, id: &str, source: &str) -> (r: Result<
        async_channel::Sender<DataPacket>,
        ErrorCode,
    >)
        ensures
            one_per_query(old(self)@) ==> one_per_query(final(self)@),
            !present(old(self)@, query_is(id@)) ==> r is Err && query_missing(
                old(self)@,
                id@,
                final(self)@,
                r->Err_0,
            ),
            present(old(self)@, query_is(id@)) ==> {
                let at = position(old(self)@, query_is(id@));
                &&& changed_at(old(self)@, at, final(self)@)
                &&& channel_taken(old(self)@[at], source@, final(self)@[at], r)
            },
    {
        match self.find_query(id) {
            None => Err(ErrorCode::query_not_found(id)),
            Some(at) => self.queries_coordinator[at].receive_data(source),
        }
    }

    /// Ends a query on this node: its coordinator leaves the registry,
    /// terminated, with `cause` recorded in it.
    pub fn shutdown_query(&mut self, query_id: &str, cause: Option<ErrorCode>) -> (r: Result<
        QueryCoordinator,
        ErrorCode,
    >)
        ensures
            query_ended(old(self)@, query_id@, cause, final(self)@, r),
    {
        match self.find_query(query_id) {
            None => Err(ErrorCode::query_not_found(query_id)),
            Some(at) => {
                let ghost before = self.queries_coordinator@;
                let mut query = self.queries_coordinator.remove(at);
                let _ = query.shutdown(cause);
                proof {
                    let after = self.queries_coordinator@;
                    if one_per_query(before) {
                        lemma_position(before, query_is(query_id@));
                        assert forall|j: int| 0 <= j < after.len() implies !query_is(query_id@)(
                            after[j],
                        ) by {
                            if j < at {
                                assert(after[j] == before[j]);
                            } else {
                                assert(after[j] == before[j + 1]);
                            }
                        }
                        lemma_position_none(after, query_is(query_id@));
                        assert forall|j: int, k: int| 0 <= j < k < after.len() implies after[j].query_id@
                            != after[k].query_id@ by {
                            let jj = if j < at { j } else { j + 1 };
                            let kk = if k < at { k } else { k + 1 };
                            assert(after[j] == before[jj] && after[k] == before[kk]);
                        }
                    }
                }
                Ok(query)
            },
        }
    }

    /// Another handle to the queue of fragment `id` of the query `query_id`
    /// towards `endpoint`.
    pub fn get_fragment_sink(&self, query_id: &str, id: usize, endpoint: &str) -> (r: Result<
        FragmentSender,
        ErrorCode,
    >)
        ensures
            !present(self@, query_is(query_id@)) ==> r is Err && r->Err_0.kind
                == ErrorKind::NotFound && r->Err_0.message@ == "Query not exists."@,
            present(self@, query_is(query_id@)) ==> sink_found(
                self@[position(self@, query_is(query_id@))],
                id,
                endpoint@,
                r,
            ),
    {
        match self.find_query(query_id) {
            None => Err(ErrorCode::new(ErrorKind::NotFound, "Query not exists.")),
            Some(at) => self.queries_coordinator[at].get_fragment_sink(id, endpoint),
        }
    }

    /// Puts the fragment `fragment_id` of the query `query_id` at the input
    /// of `pipeline`.
    pub fn get_fragment_source(
        &mut self,
        query_id: String,
        fragment_id: usize,
        schema: DataSchemaRef,
        pipeline: &mut Pipeline,
        built: Result<Pipeline, ErrorCode>,
    ) -> (r: Result<(), ErrorCode>)
        ensures
            one_per_query(old(self)@) ==> one_per_query(final(self)@),
            !present(old(self)@, query_is(query_id@)) ==> {
                &&& r is Err
                &&& r->Err_0.kind == ErrorKind::NotFound
                &&& r->Err_0.message@ == "Query not exists."@
                &&& final(self)@ == old(self)@
                &&& *final(pipeline) == *old(pipeline)
            },
            present(old(self)@, query_is(query_id@)) ==> {
                let at = position(old(self)@, query_is(query_id@));
                &&& changed_at(old(self)@, at, final(self)@)
                &&& fragment_subscribed(
                    old(self)@[at],
                    fragment_id,
                    schema,
                    *old(pipeline),
                    built,
                    final(self)@[at],
                    *final(pipeline),
                    r,
                )
            },
    {
        match self.find_query(query_id.as_str()) {
            None => Err(ErrorCode::new(ErrorKind::NotFound, "Query not exists.")),
            Some(at) => self.queries_coordinator[at].subscribe_fragment(
                fragment_id,
                schema,
                pipeline,
                built,
            ),
        }
    }

    /// Builds the pipeline from which the caller pulls the result of the
    /// query: the root fragment at its input, and the inbound channels of
    /// this node opened for each packet that is for the node that the client
    /// asked.
    pub fn build_root_pipeline(
        &mut self,
        query_id: String,
        fragment_id: usize,
        schema: DataSchemaRef,
        executor_packet: &Vec<ExecutorPacket>,
        built: Result<Pipeline, ErrorCode>,
    ) -> (r: Result<(Pipeline, Vec<Subscription>), ErrorCode>)
        ensures
            one_per_query(old(self)@) ==> one_per_query(final(self)@),
            !present(old(self)@, query_is(query_id@)) ==> {
                &&& r is Err
                &&& r->Err_0.kind == ErrorKind::NotFound
                &&& final(self)@ == old(self)@
            },
            present(old(self)@, query_is(query_id@)) ==> exists|
                mid: Seq<QueryCoordinator>,
                root: Pipeline,
                sourced: Result<(), ErrorCode>,
                opened: Seq<Subscription>,
                failure: Option<ErrorCode>,
                reached: int,
            | #[trigger]
                root_built(
                    old(self)@,
                    query_id@,
                    fragment_id,
                    schema,
                    executor_packet@,
                    built,
                    final(self)@,
                    r,
                    mid,
                    root,
                    sourced,
                    opened,
                    failure,
                    reached,
                ),
    {
        let ghost before = self@;
        let ghost packets = executor_packet@;
        let ghost at = position(before, query_is(query_id@));
        let mut pipeline = Pipeline::create();
        let ghost root = pipeline;
        let sourced = self.get_fragment_source(query_id, fragment_id, schema, &mut pipeline, built);
        let ghost mid = self@;
        let ghost none = Seq::<Subscription>::empty();
        match sourced {
            Ok(()) => {},
            Err(cause) => {
                proof {
                    if present(before, query_is(query_id@)) {
                        assert(root_built(
                            before,
                            query_id@,
                            fragment_id,
                            schema,
                            packets,
                            built,
                            self@,
                            Err::<(Pipeline, Vec<Subscription>), ErrorCode>(cause),
                            mid,
                            root,
                            sourced,
                            none,
                            None,
                            packets.len() as int,
                        ));
                    }
                }
                return Err(cause);
            },
        }
        let mut opened: Vec<Subscription> = Vec::new();
        let mut i: usize = 0;
        while i < executor_packet.len()
            invariant
                i <= executor_packet@.len(),
                packets == executor_packet@,
                present(before, query_is(query_id@)),
                before == old(self)@,
                at == position(before, query_is(query_id@)),
                changed_at(before, at, mid),
                Pipeline::created(root),
                sourced is Ok,
                fragment_subscribed(
                    before[at],
                    fragment_id,
                    schema,
                    root,
                    built,
                    mid[at],
                    pipeline,
                    sourced,
                ),
                one_per_query(before) ==> one_per_query(self@),
                root_subscribed(mid, packets.take(i as int), self@, opened@, None),
            decreases executor_packet@.len() - i,
        {
            let packet = &executor_packet[i];
            let ghost table = self@;
            let ghost earlier = opened@;
            let ghost grown = packets.take(i + 1);
            let ghost none = Seq::<Subscription>::empty();
            proof {
                assert(grown.drop_last() =~= packets.take(i as int));
                assert(grown.last() == *packet);
            }
            if same_text(packet.executor.as_str(), packet.request_executor.as_str()) {
                match self.find_query(packet.query_id.as_str()) {
                    None => {
                        let cause = ErrorCode::query_not_found(packet.query_id.as_str());
                        proof {
                            assert(root_step(table, *packet, table, none, Some(cause)));
                            assert(earlier + none =~= earlier);
                            assert(root_subscribed(mid, grown, self@, earlier, Some(cause)));
                            assert(root_built(
                                before,
                                query_id@,
                                fragment_id,
                                schema,
                                packets,
                                built,
                                self@,
                                Err::<(Pipeline, Vec<Subscription>), ErrorCode>(cause),
                                mid,
                                root,
                                sourced,
                                earlier,
                                Some(cause),
                                i + 1,
                            ));
                        }
                        return Err(cause);
                    },
                    Some(found) => {
                        proof {
                            lemma_position(table, query_is(packet.query_id@));
                        }
                        let mut added = self.queries_coordinator[found].prepare_subscribes_channel(
                            packet,
                        );
                        let ghost new = added@;
                        opened.append(&mut added);
                        proof {
                            assert(changed_at(table, found as int, self@));
                            assert(root_step(table, *packet, self@, new, None));
                            assert(opened@ =~= earlier + new);
                            assert(root_subscribed(mid, grown, self@, opened@, None));
                        }
                    },
                }
            } else {
                proof {
                    assert(root_step(table, *packet, table, none, None));
                    assert(earlier + none =~= earlier);
                    assert(root_subscribed(mid, grown, self@, opened@, None));
                }
            }
            i += 1;
        }
        proof {
            assert(packets.take(i as int) =~= packets);
            assert(root_built(
                before,
                query_id@,
                fragment_id,
                schema,
                packets,
                built,
                self@,
                Ok::<(Pipeline, Vec<Subscription>), ErrorCode>((pipeline, opened)),
                mid,
                root,
                sourced,
                opened@,
                None,
                packets.len() as int,
            ));
        }
        Ok((pipeline, opened))
    }

    /// The addresses to call in a round that asks the nodes to prepare their
    /// pipelines.
    pub fn prepare_pipeline(packets: &Vec<ExecutorPacket>) -> (plan: CallPlan)
        ensures
            planned(pipeline_executors(packets@), pipeline_nodes(packets@), plan),
    {
        let ghost executors = pipeline_executors(packets@);
        let ghost nodes = pipeline_nodes(packets@);
        let mut addresses: Vec<String> = Vec::new();
        let mut i: usize = 0;
        while i < packets.len()
            invariant
                i <= packets@.len(),
                executors == pipeline_executors(packets@),
                nodes == pipeline_nodes(packets@),
                addresses@.len() == i,
                forall|k: int|
                    0 <= k < i ==> #[trigger] reaches(executors, nodes, k, addresses@[k]),
            decreases packets@.len() - i,
        {
            let ghost earlier = addresses@;
            proof {
                assert(executors[i as int] == packets@[i as int].executor@);
                assert(nodes[i as int] == packets@[i as int].executors_info@);
            }
            match flight_address(&packets[i].executors_info, packets[i].executor.as_str()) {
                None => {
                    return CallPlan {
                        addresses,
                        failure: Some(ErrorCode::node_missing(packets[i].executor.as_str())),
                    };
                },
                Some(address) => {
                    addresses.push(address);
                    proof {
                        assert forall|k: int| 0 <= k < i + 1 implies #[trigger] reaches(
                            executors,
                            nodes,
                            k,
                            addresses@[k],
                        ) by {
                            if k < i {
                                assert(addresses@[k] == earlier[k]);
                            }
                        }
                    }
                },
            }
            i += 1;
        }
        CallPlan { addresses, failure: None }
    }

    /// The addresses to call in a round that asks the nodes to open their
    /// outbound connections.
    pub fn prepare_channel(packets: &Vec<PrepareChannel>) -> (plan: CallPlan)
        ensures
            planned(channel_executors(packets@), channel_nodes(packets@), plan),
    {
        let ghost executors = channel_executors(packets@);
        let ghost nodes = channel_nodes(packets@);
        let mut addresses: Vec<String> = Vec::new();
        let mut i: usize = 0;
        while i < packets.len()
            invariant
                i <= packets@.len(),
                executors == channel_executors(packets@),
                nodes == channel_nodes(packets@),
                addresses@.len() == i,
                forall|k: int|
                    0 <= k < i ==> #[trigger] reaches(executors, nodes, k, addresses@[k]),
            decreases packets@.len() - i,
        {
            let ghost earlier = addresses@;
            proof {
                assert(executors[i as int] == packets@[i as int].executor@);
                assert(nodes[i as int] == packets@[i as int].data_endpoints@);
            }
            match flight_address(&packets[i].data_endpoints, packets[i].executor.as_str()) {
                None => {
                    return CallPlan {
                        addresses,
                        failure: Some(ErrorCode::node_missing(packets[i].executor.as_str())),
                    };
                },
                Some(address) => {
                    addresses.push(address);
                    proof {
                        assert forall|k: int| 0 <= k < i + 1 implies #[trigger] reaches(
                            executors,
                            nodes,
                            k,
                            addresses@[k],
                        ) by {
                            if k < i {
                                assert(addresses@[k] == earlier[k]);
                            }
                        }
                    }
                },
            }
            i += 1;
        }
        CallPlan { addresses, failure: None }
    }

    /// The addresses to call in a round that asks the nodes to start.
    pub fn execute_pipeline(packets: &Vec<ExecutePacket>) -> (plan: CallPlan)
        ensures
            planned(execute_executors(packets@), execute_nodes(packets@), plan),
    {
        let ghost executors = execute_executors(packets@);
        let ghost nodes = execute_nodes(packets@);
        let mut addresses: Vec<String> = Vec::new();
        let mut i: usize = 0;
        while i < packets.len()
            invariant
                i <= packets@.len(),
                executors == execute_executors(packets@),
                nodes == execute_nodes(packets@),
                addresses@.len() == i,
                forall|k: int|
                    0 <= k < i ==> #[trigger] reaches(executors, nodes, k, addresses@[k]),
            decreases packets@.len() - i,
        {
            let ghost earlier = addresses@;
            proof {
                assert(executors[i as int] == packets@[i as int].executor@);
                assert(nodes[i as int] == packets@[i as int].executors_info@);
            }
            match flight_address(&packets[i].executors_info, packets[i].executor.as_str()) {
                None => {
                    return CallPlan {
                        addresses,
                        failure: Some(ErrorCode::node_missing(packets[i].executor.as_str())),
                    };
                },
                Some(address) => {
                    addresses.push(address);
                    proof {
                        assert forall|k: int| 0 <= k < i + 1 implies #[trigger] reaches(
                            executors,
                            nodes,
                            k,
                            addresses@[k],
                        ) by {
                            if k < i {
                                assert(addresses@[k] == earlier[k]);
                            }
                        }
                    }
                },
            }
            i += 1;
        }
        CallPlan { addresses, failure: None }
    }

    /// The step that the committing node takes after `step` ended: the next
    /// one in order while all goes well, and none once a step has failed.
    pub fn commit_actions(step: CommitStep, succeeded: bool) -> (next: CommitStep)
        ensures
            next == step_after(step, succeeded),
    {
        if !succeeded {
            CommitStep::Failed
        } else {
            match step {
                CommitStep::PreparePipelines => CommitStep::BuildRootPipeline,
                CommitStep::BuildRootPipeline => CommitStep::PrepareChannels,
                CommitStep::PrepareChannels => CommitStep::InitRootPipeline,
                CommitStep::InitRootPipeline => CommitStep::ExecutePipelines,
                CommitStep::ExecutePipelines => CommitStep::Finished,
                CommitStep::Finished => CommitStep::Finished,
                CommitStep::Failed => CommitStep::Failed,
            }
        }
    }
}

} // verus!
