//! The coordinator of one query on one node.

use vstd::prelude::*;
use crate::channel::bounded_channel;
use crate::error::ErrorCode;
use crate::error::ErrorKind;
use crate::fragment::can_exchange;
use crate::fragment::params_of;
use crate::fragment::FragmentCoordinator;
use crate::fragment::FragmentPacket;
use crate::packet::DataPacket;
use crate::params::copy_names;
use crate::params::names_view;
use crate::params::DataExchange;
use crate::params::DataSchemaRef;
use crate::params::ExchangeParams;
use crate::pipeline::destinations_of;
use crate::pipeline::fragment_of;
use crate::pipeline::sinks_added;
use crate::pipeline::ExchangeSinkProcessor;
use crate::pipeline::FragmentReceiver;
use crate::pipeline::FragmentSender;
use crate::pipeline::Pipeline;
use crate::table::lemma_position;
use crate::table::lemma_position_at;
use crate::table::lemma_position_none;
use crate::table::position;
use crate::table::present;
use crate::table::put;
use crate::table::without;

verus! {

/// How many packets a channel towards a local consumer holds: a producer
/// waits as soon as the consumer lags by one packet.
pub const SUBSCRIBE_CAPACITY: usize = 1;

/// How many packets the queue towards a destination holds.
pub const PUBLISH_CAPACITY: usize = 2;

/// How far a query has come on this node.
#[derive(Clone, Copy, Debug, PartialEq, Eq, Structural)]
pub enum QueryStage {
    Created,
    PipelinePrepared,
    PublisherPrepared,
    Executing,
    Terminated,
}

/// The place of a stage in the life of a query.
pub open spec fn rank(stage: QueryStage) -> int {
    match stage {
        QueryStage::Created => 0,
        QueryStage::PipelinePrepared => 1,
        QueryStage::PublisherPrepared => 2,
        QueryStage::Executing => 3,
        QueryStage::Terminated => 4,
    }
}

/// The stage of a query at `from` after a step that leads to `to`: a query
/// never goes back.
pub open spec fn advanced(from: QueryStage, to: QueryStage) -> QueryStage {
    if rank(from) >= rank(to) {
        from
    } else {
        to
    }
}

/// Computes the stage after a step.
pub fn advance(from: QueryStage, to: QueryStage) -> (stage: QueryStage)
    ensures
        stage == advanced(from, to),
{
    let back = match (from, to) {
        (QueryStage::Terminated, _) => true,
        (_, QueryStage::Created) => true,
        (QueryStage::Executing, QueryStage::Terminated) => false,
        (QueryStage::Executing, _) => true,
        (QueryStage::PublisherPrepared, QueryStage::PipelinePrepared) => true,
        (QueryStage::PublisherPrepared, QueryStage::PublisherPrepared) => true,
        (QueryStage::PipelinePrepared, QueryStage::PipelinePrepared) => true,
        _ => false,
    };
    if back {
        from
    } else {
        to
    }
}

/// A query only moves forward through its stages, and a terminated query
/// stays terminated.
pub proof fn law_stage_moves_forward(from: QueryStage, to: QueryStage)
    ensures
        rank(advanced(from, to)) >= rank(from),
        advanced(QueryStage::Terminated, to) == QueryStage::Terminated,
        advanced(from, to) == from || advanced(from, to) == to,
{
}

/// A node of the cluster and where its exchange service listens.
#[derive(Debug, PartialEq, Eq)]
pub struct NodeInfo {
    pub id: String,
    pub flight_address: String,
}

/// The fragments whose rows a source node sends to this node.
#[derive(Debug, PartialEq, Eq)]
pub struct SourceFragments {
    pub source: String,
    pub fragments: Vec<usize>,
}

/// What the coordinating node tells one node about a query.
#[derive(Debug, PartialEq, Eq)]
pub struct ExecutorPacket {
    pub query_id: String,
    /// The node that this packet is for.
    pub executor: String,
    /// The node that the client asked.
    pub request_executor: String,
    pub fragments: Vec<FragmentPacket>,
    pub executors_info: Vec<NodeInfo>,
    pub source_2_fragments: Vec<SourceFragments>,
}

/// The queue towards one destination for one fragment.
#[derive(Debug)]
pub struct PublishEntry {
    pub target: String,
    pub fragment_id: usize,
    pub sender: FragmentSender,
}

/// The channel that takes what one source node sends.
#[derive(Debug)]
pub struct SubscribeChannel {
    pub source: String,
    pub capacity: usize,
    pub tx: async_channel::Sender<DataPacket>,
}

/// The receiving half of the channel of one source node, for the task that
/// splits what arrives by fragment.
#[derive(Debug)]
pub struct Subscription {
    pub source: String,
    pub capacity: usize,
    pub rx: async_channel::Receiver<DataPacket>,
}

/// The queue of the task that streams the packets of a query to one
/// destination, and what the task tells the destination of itself.
#[derive(Debug)]
pub struct PubWorker {
    pub query_id: String,
    pub source: String,
    pub capacity: usize,
    pub tx: async_channel::Sender<DataPacket>,
    pub rx: async_channel::Receiver<DataPacket>,
}

/// The inbound channel of one fragment.
#[derive(Debug)]
pub struct SubscribeFragment {
    pub fragment_id: usize,
    pub capacity: usize,
    pub receiver: FragmentReceiver,
}

/// What a connection to one destination offers once it listens: a queue for
/// each fragment, or the failure to listen.
#[derive(Debug)]
pub struct PublisherEndpoint {
    pub target: String,
    /// Whether the destination is the node that the client asked.
    pub to_request_server: bool,
    pub fragments: Result<Vec<(usize, FragmentSender)>, ErrorCode>,
}

/// What the pipeline builder made of the plan of one fragment.
#[derive(Debug)]
pub struct BuiltFragment {
    pub fragment_id: usize,
    pub outcome: Result<Pipeline, ErrorCode>,
}

/// What is to be run once a query executes on this node.
#[derive(Debug)]
pub struct Execution {
    /// The pipelines of the fragments, each closed by its sinks.
    pub pipelines: Vec<Pipeline>,
    /// The destination that leads to the node that the client asked, as long
    /// as no terminal failure has been sent there.
    pub request_server_tx: Option<String>,
    /// The source nodes whose receivers are stopped and awaited at the end.
    pub receivers: Vec<String>,
}

/// The state of one query on this node.
#[derive(Debug)]
pub struct QueryCoordinator {
    pub query_id: String,
    pub executor_id: String,
    pub stage: QueryStage,
    pub request_server_tx: Option<String>,
    pub publish_fragments: Vec<PublishEntry>,
    pub subscribe_channel: Vec<SubscribeChannel>,
    pub subscribe_fragments: Vec<SubscribeFragment>,
    pub fragments_coordinator: Vec<FragmentCoordinator>,
    pub shutdown_cause: Option<ErrorCode>,
    pub executing: bool,
    pub exchange_senders: Vec<String>,
    pub exchange_receivers: Vec<String>,
}

/// Accepts the fragment `id`.
pub open spec fn fragment_is(id: usize) -> spec_fn(FragmentCoordinator) -> bool {
    |f: FragmentCoordinator| f.fragment_id == id
}

/// Accepts the channel of the source `source`.
pub open spec fn source_is(source: Seq<char>) -> spec_fn(SubscribeChannel) -> bool {
    |c: SubscribeChannel| c.source@ == source
}

/// Accepts the queue of fragment `id` towards `target`.
pub open spec fn target_is(target: Seq<char>, id: usize) -> spec_fn(PublishEntry) -> bool {
    |e: PublishEntry| e.target@ == target && e.fragment_id == id
}

/// Accepts the inbound channel of fragment `id`.
pub open spec fn receiver_is(id: usize) -> spec_fn(SubscribeFragment) -> bool {
    |s: SubscribeFragment| s.fragment_id == id
}

/// Whether `fragment` is the unprepared coordinator of `packet`.
pub open spec fn fresh_of(fragment: FragmentCoordinator, packet: FragmentPacket) -> bool {
    &&& !fragment.initialized
    &&& fragment.node == packet.node
    &&& fragment.fragment_id == packet.fragment_id
    &&& fragment.pipeline is None
    &&& fragment.data_exchange is Some == packet.data_exchange is Some
    &&& fragment.data_exchange is Some ==> fragment.data_exchange->Some_0@
        == packet.data_exchange->Some_0@
}

/// Whether `table` holds the coordinators of `packets`, entered one after
/// the other under their fragment ids: a later packet takes the place of an
/// earlier one with the same id.
pub open spec fn table_of(table: Seq<FragmentCoordinator>, packets: Seq<FragmentPacket>) -> bool
    decreases packets.len(),
{
    if packets.len() == 0 {
        table.len() == 0
    } else {
        exists|before: Seq<FragmentCoordinator>, entry: FragmentCoordinator|
            {
                &&& table_of(before, packets.drop_last())
                &&& fresh_of(entry, packets.last())
                &&& table == put(before, fragment_is(packets.last().fragment_id), entry)
            }
    }
}

/// A fragment after its pipeline was installed from `built`.
pub open spec fn after_prepare(
    fragment: FragmentCoordinator,
    built: Result<Pipeline, ErrorCode>,
) -> FragmentCoordinator {
    if fragment.initialized {
        fragment
    } else {
        FragmentCoordinator {
            initialized: true,
            pipeline: if built is Ok {
                Some(built->Ok_0)
            } else {
                fragment.pipeline
            },
            ..fragment
        }
    }
}

/// The fragments after the pipelines in `built` were installed one after the
/// other, and the failure at which that stopped, if any. A pipeline for an
/// unknown fragment is passed over.
pub open spec fn prepare_all(before: Seq<FragmentCoordinator>, built: Seq<BuiltFragment>) -> (
    Seq<FragmentCoordinator>,
    Option<ErrorCode>,
)
    decreases built.len(),
{
    if built.len() == 0 {
        (before, None)
    } else {
        let first = built.first();
        let at = position(before, fragment_is(first.fragment_id));
        if at < 0 {
            prepare_all(before, built.drop_first())
        } else {
            let next = before.update(at, after_prepare(before[at], first.outcome));
            if !before[at].initialized && first.outcome is Err {
                (next, Some(first.outcome->Err_0))
            } else {
                prepare_all(next, built.drop_first())
            }
        }
    }
}

/// The sources other than `executor`, in the order of `sources`.
pub open spec fn remote_sources(sources: Seq<SourceFragments>, executor: Seq<char>) -> Seq<
    Seq<char>,
>
    decreases sources.len(),
{
    if sources.len() == 0 {
        Seq::empty()
    } else {
        let before = remote_sources(sources.drop_last(), executor);
        if sources.last().source@ == executor {
            before
        } else {
            before.push(sources.last().source@)
        }
    }
}

/// Whether `after` is `before` with a channel of the subscribe capacity
/// entered for each of `sources` in turn, a later one taking the place of an
/// earlier one of the same source.
pub open spec fn channels_opened(
    before: Seq<SubscribeChannel>,
    sources: Seq<Seq<char>>,
    after: Seq<SubscribeChannel>,
) -> bool
    decreases sources.len(),
{
    if sources.len() == 0 {
        after == before
    } else {
        exists|mid: Seq<SubscribeChannel>, entry: SubscribeChannel|
            {
                &&& channels_opened(before, sources.drop_last(), mid)
                &&& entry.source@ == sources.last()
                &&& entry.capacity == SUBSCRIBE_CAPACITY
                &&& after == put(mid, source_is(sources.last()), entry)
            }
    }
}

/// Whether every sink of `sinks` that has no queue yet finds one in `table`.
pub open spec fn all_published(
    table: Seq<PublishEntry>,
    sinks: Seq<ExchangeSinkProcessor>,
) -> bool {
    forall|i: int|
        0 <= i < sinks.len() && sinks[i].sender is None ==> present(
            table,
            target_is(#[trigger] sinks[i].destination@, sinks[i].fragment_id),
        )
}

/// Whether `now` are the sinks `before`, each for the same fragment and
/// destination, those that had a queue with the same queue.
pub open spec fn same_sinks(
    before: Seq<ExchangeSinkProcessor>,
    now: Seq<ExchangeSinkProcessor>,
) -> bool {
    &&& now.len() == before.len()
    &&& forall|i: int|
        0 <= i < before.len() ==> {
            &&& (#[trigger] now[i]).fragment_id == before[i].fragment_id
            &&& now[i].destination@ == before[i].destination@
            &&& before[i].sender is Some ==> now[i].sender == before[i].sender
        }
}

/// Whether `now` is the pipeline `before` with nothing changed but queues
/// given to sinks that had none.
pub open spec fn pipeline_kept(before: Pipeline, now: Pipeline) -> bool {
    &&& now.max_threads == before.max_threads
    &&& now.staged == before.staged
    &&& now.inputs == before.inputs
    &&& now.outputs == before.outputs
    &&& now.sources == before.sources
    &&& same_sinks(before.sinks@, now.sinks@)
}

/// Whether `now` is the fragment `before` with nothing changed but queues
/// given to sinks of its pipeline that had none.
pub open spec fn fragment_kept(before: FragmentCoordinator, now: FragmentCoordinator) -> bool {
    &&& now.node == before.node
    &&& now.initialized == before.initialized
    &&& now.fragment_id == before.fragment_id
    &&& now.data_exchange == before.data_exchange
    &&& now.pipeline is Some == before.pipeline is Some
    &&& before.pipeline is Some ==> pipeline_kept(before.pipeline->Some_0, now.pipeline->Some_0)
}

/// Whether the sinks of the pipeline of `fragment`, if it has one, all find
/// their queue in `table`.
pub open spec fn fragment_published(
    table: Seq<PublishEntry>,
    fragment: FragmentCoordinator,
) -> bool {
    fragment.pipeline is Some ==> all_published(table, fragment.pipeline->Some_0.sinks@)
}

/// Whether the sinks of the pipeline of `fragment`, if it has one, all have
/// a queue.
pub open spec fn fragment_attached(fragment: FragmentCoordinator) -> bool {
    fragment.pipeline is Some ==> all_attached(fragment.pipeline->Some_0.sinks@)
}

/// The publish table with a queue entered for `target` and each fragment of
/// `list` in turn.
pub open spec fn register_fragments(
    table: Seq<PublishEntry>,
    target: String,
    list: Seq<(usize, FragmentSender)>,
) -> Seq<PublishEntry>
    decreases list.len(),
{
    if list.len() == 0 {
        table
    } else {
        register_fragments(
            put(
                table,
                target_is(target@, list.first().0),
                PublishEntry { target, fragment_id: list.first().0, sender: list.first().1 },
            ),
            target,
            list.drop_first(),
        )
    }
}

/// What a coordinator knows of its publishers.
pub struct Publishers {
    pub publish_fragments: Seq<PublishEntry>,
    pub request_server_tx: Option<String>,
    pub exchange_senders: Seq<String>,
}

/// The publishers after the endpoints were registered one after the other,
/// and the failure at which that stopped, if any: an endpoint that failed to
/// listen registers nothing and ends the registration.
pub open spec fn register_all(known: Publishers, endpoints: Seq<PublisherEndpoint>) -> (
    Publishers,
    Option<ErrorCode>,
)
    decreases endpoints.len(),
{
    if endpoints.len() == 0 {
        (known, None)
    } else {
        let first = endpoints.first();
        match first.fragments {
            Err(cause) => (known, Some(cause)),
            Ok(list) => register_all(
                Publishers {
                    publish_fragments: register_fragments(
                        known.publish_fragments,
                        first.target,
                        list@,
                    ),
                    request_server_tx: if first.to_request_server {
                        Some(first.target)
                    } else {
                        known.request_server_tx
                    },
                    exchange_senders: known.exchange_senders.push(first.target),
                },
                endpoints.drop_first(),
            ),
        }
    }
}

/// The destinations that the policy of `fragment` names, in order.
pub open spec fn exchange_destinations(fragment: FragmentCoordinator) -> Seq<Seq<char>> {
    match fragment.data_exchange {
        Some(DataExchange::Merge(merge)) => seq![merge.destination_id@],
        Some(DataExchange::ShuffleDataExchange(shuffle)) => names_view(shuffle.destination_ids@),
        None => Seq::empty(),
    }
}

/// Whether `table` has a queue of `fragment` towards each of `destinations`.
pub open spec fn queues_known(
    table: Seq<PublishEntry>,
    fragment: usize,
    destinations: Seq<Seq<char>>,
) -> bool {
    forall|k: int|
        0 <= k < destinations.len() ==> present(table, target_is(#[trigger] destinations[k], fragment))
}

/// Whether `pipeline` can be closed by sinks towards `destinations`: rows
/// can be pulled from it, nothing is missing at its input, and every sink,
/// old or new, finds its queue.
pub open spec fn closable(
    table: Seq<PublishEntry>,
    pipeline: Pipeline,
    fragment: usize,
    destinations: Seq<Seq<char>>,
) -> bool {
    &&& pipeline.pulling()
    &&& pipeline.inputs == 0
    &&& all_published(table, pipeline.sinks@)
    &&& queues_known(table, fragment, destinations)
}

/// Whether `now` is `before`, set to `max_threads`, closed by one sink of
/// `fragment` towards each of `destinations`, with every sink attached.
pub open spec fn closed_by(
    before: Pipeline,
    fragment: usize,
    destinations: Seq<Seq<char>>,
    max_threads: usize,
    now: Pipeline,
) -> bool {
    &&& now.max_threads == max_threads
    &&& now.complete()
    &&& now.sources == before.sources
    &&& all_attached(now.sinks@)
    &&& now.sinks@.len() == before.sinks@.len() + destinations.len()
    &&& same_sinks(before.sinks@, now.sinks@.take(before.sinks@.len() as int))
    &&& forall|k: int|
        0 <= k < destinations.len() ==> {
            let sink = #[trigger] now.sinks@[before.sinks@.len() + k];
            sink.fragment_id == fragment && sink.destination@ == destinations[k]
        }
}

/// Whether the fragment can run: if it holds a pipeline, that pipeline can
/// be closed by sinks towards the destinations of its policy.
pub open spec fn fragment_runnable(
    table: Seq<PublishEntry>,
    fragment: FragmentCoordinator,
) -> bool {
    fragment.pipeline is Some ==> closable(
        table,
        fragment.pipeline->Some_0,
        fragment.fragment_id,
        exchange_destinations(fragment),
    )
}

/// The places of the fragments that hold a pipeline, in ascending order.
pub open spec fn with_pipeline(fragments: Seq<FragmentCoordinator>) -> Seq<int>
    decreases fragments.len(),
{
    if fragments.len() == 0 {
        Seq::empty()
    } else {
        let before = with_pipeline(fragments.drop_last());
        if fragments.last().pipeline is Some {
            before.push(fragments.len() - 1)
        } else {
            before
        }
    }
}

/// Whether `pipeline` is the pipeline of the `k`-th fragment that holds one,
/// closed by the sinks of that fragment.
pub open spec fn closed_at(
    fragments: Seq<FragmentCoordinator>,
    max_threads: usize,
    k: int,
    pipeline: Pipeline,
) -> bool {
    let at = with_pipeline(fragments)[k];
    &&& 0 <= at < fragments.len()
    &&& fragments[at].pipeline is Some
    &&& closed_by(
        fragments[at].pipeline->Some_0,
        fragments[at].fragment_id,
        exchange_destinations(fragments[at]),
        max_threads,
        pipeline,
    )
}

/// Whether `pipelines` are the pipelines of `fragments`, in the order of the
/// fragments, each closed by the sinks of its fragment.
pub open spec fn pipelines_closed(
    fragments: Seq<FragmentCoordinator>,
    max_threads: usize,
    pipelines: Seq<Pipeline>,
) -> bool {
    &&& pipelines.len() == with_pipeline(fragments).len()
    &&& forall|k: int|
        0 <= k < pipelines.len() ==> #[trigger] closed_at(fragments, max_threads, k, pipelines[k])
}

/// Whether every sink of `now` that had no queue in `before` has the queue
/// that `table` holds for its fragment and destination.
pub open spec fn attached_from(
    table: Seq<PublishEntry>,
    before: Seq<ExchangeSinkProcessor>,
    now: Seq<ExchangeSinkProcessor>,
) -> bool {
    forall|i: int|
        0 <= i < before.len() && i < now.len() && before[i].sender is None ==> (#[trigger] now[i]).sender
            == Some(
            table[position(table, target_is(before[i].destination@, before[i].fragment_id))].sender,
        )
}

/// Whether every sink has a queue.
pub open spec fn all_attached(sinks: Seq<ExchangeSinkProcessor>) -> bool {
    forall|i: int| 0 <= i < sinks.len() ==> (#[trigger] sinks[i]).sender is Some
}

/// The one failure that is sent to the node that the client asked when an
/// execution ends: none if no path leads there; else the failure of the
/// executor; else the recorded cause of a shutdown, if any.
pub open spec fn terminal_signal(
    has_path: bool,
    outcome: Result<(), ErrorCode>,
    cause: Option<ErrorCode>,
) -> Option<ErrorCode> {
    if !has_path {
        None
    } else if outcome is Err {
        Some(outcome->Err_0)
    } else {
        cause
    }
}

/// Whether a path to the node that the client asked is left after an
/// execution reported its end: a path carries one terminal failure.
pub open spec fn path_after(
    has_path: bool,
    outcome: Result<(), ErrorCode>,
    cause: Option<ErrorCode>,
) -> bool {
    has_path && terminal_signal(has_path, outcome, cause) is None
}

/// At most one terminal failure reaches the node that the client asked:
/// when the executor failed and a shutdown cause was recorded as well, the
/// failure of the executor is sent and the cause is not; and once a failure
/// was sent, whatever is reported later sends nothing.
pub proof fn law_single_terminal_signal(
    has_path: bool,
    outcome: Result<(), ErrorCode>,
    cause: Option<ErrorCode>,
    later_outcome: Result<(), ErrorCode>,
    later_cause: Option<ErrorCode>,
)
    ensures
        has_path && outcome is Err ==> terminal_signal(has_path, outcome, cause) == Some(
            outcome->Err_0,
        ),
        terminal_signal(has_path, outcome, cause) is Some ==> terminal_signal(
            path_after(has_path, outcome, cause),
            later_outcome,
            later_cause,
        ) is None,
        !has_path ==> terminal_signal(has_path, outcome, cause) is None,
{
}

/// Whether `now` is the local pipeline `local` of `fragment`, with its
/// output passing through the sinks of the fragment and with one more
/// source, which feeds what arrives for the fragment from other nodes.
pub open spec fn spliced(local: Pipeline, fragment: FragmentCoordinator, now: Pipeline) -> bool {
    &&& now.max_threads == local.max_threads
    &&& now.staged == local.staged
    &&& now.inputs == local.inputs
    &&& now.outputs == local.outputs
    &&& sinks_added(local.sinks@, now.sinks@, fragment.fragment_id, exchange_destinations(fragment))
    &&& now.sources@.len() == local.sources@.len() + 1
    &&& now.sources@.drop_last() == local.sources@
    &&& now.sources@.last().fragment_id == fragment.fragment_id
    &&& now.sources@.last().schema == fragment.node.schema
}

/// Whether `now` is `before` with a first stage that feeds what arrives for
/// the fragment `id` from other nodes.
pub open spec fn sourced(
    before: Pipeline,
    id: usize,
    schema: DataSchemaRef,
    now: Pipeline,
) -> bool {
    &&& now.max_threads == before.max_threads
    &&& now.staged
    &&& now.inputs == before.inputs
    &&& now.outputs == 1
    &&& now.sinks == before.sinks
    &&& now.sources@.len() == before.sources@.len() + 1
    &&& now.sources@.drop_last() == before.sources@
    &&& now.sources@.last().fragment_id == id
    &&& now.sources@.last().schema == schema
}

/// Whether two texts are the same.
pub fn same_text(a: &str, b: &str) -> (same: bool)
    ensures
        same == (a@ == b@),
{
    let left = a.to_owned();
    let right = b.to_owned();
    left == right
}

/// The place of the fragment `id` in `table`.
pub fn find_fragment(table: &Vec<FragmentCoordinator>, id: usize) -> (at: Option<usize>)
    ensures
        at is Some ==> at->Some_0 == position(table@, fragment_is(id)),
        at is None ==> position(table@, fragment_is(id)) == -1,
{
    let mut i: usize = 0;
    while i < table.len()
        invariant
            i <= table@.len(),
            forall|j: int| 0 <= j < i ==> !fragment_is(id)(table@[j]),
        decreases table@.len() - i,
    {
        if table[i].fragment_id == id {
            proof {
                lemma_position_at(table@, fragment_is(id), i as int);
            }
            return Some(i);
        }
        i += 1;
    }
    proof {
        lemma_position_none(table@, fragment_is(id));
    }
    None
}

/// The place of the channel of `source` in `table`.
pub fn find_channel(table: &Vec<SubscribeChannel>, source: &str) -> (at: Option<usize>)
    ensures
        at is Some ==> at->Some_0 == position(table@, source_is(source@)),
        at is None ==> position(table@, source_is(source@)) == -1,
{
    let mut i: usize = 0;
    while i < table.len()
        invariant
            i <= table@.len(),
            forall|j: int| 0 <= j < i ==> !source_is(source@)(table@[j]),
        decreases table@.len() - i,
    {
        if same_text(table[i].source.as_str(), source) {
            proof {
                lemma_position_at(table@, source_is(source@), i as int);
            }
            return Some(i);
        }
        i += 1;
    }
    proof {
        lemma_position_none(table@, source_is(source@));
    }
    None
}

/// The place of the queue of fragment `id` towards `target` in `table`.
pub fn find_publisher(table: &Vec<PublishEntry>, target: &str, id: usize) -> (at: Option<usize>)
    ensures
        at is Some ==> at->Some_0 == position(table@, target_is(target@, id)),
        at is None ==> position(table@, target_is(target@, id)) == -1,
{
    let mut i: usize = 0;
    while i < table.len()
        invariant
            i <= table@.len(),
            forall|j: int| 0 <= j < i ==> !target_is(target@, id)(table@[j]),
        decreases table@.len() - i,
    {
        if table[i].fragment_id == id && same_text(table[i].target.as_str(), target) {
            proof {
                lemma_position_at(table@, target_is(target@, id), i as int);
            }
            return Some(i);
        }
        i += 1;
    }
    proof {
        lemma_position_none(table@, target_is(target@, id));
    }
    None
}

/// The place of the inbound channel of fragment `id` in `table`.
pub fn find_receiver(table: &Vec<SubscribeFragment>, id: usize) -> (at: Option<usize>)
    ensures
        at is Some ==> at->Some_0 == position(table@, receiver_is(id)),
        at is None ==> position(table@, receiver_is(id)) == -1,
{
    let mut i: usize = 0;
    while i < table.len()
        invariant
            i <= table@.len(),
            forall|j: int| 0 <= j < i ==> !receiver_is(id)(table@[j]),
        decreases table@.len() - i,
    {
        if table[i].fragment_id == id {
            proof {
                lemma_position_at(table@, receiver_is(id), i as int);
            }
            return Some(i);
        }
        i += 1;
    }
    proof {
        lemma_position_none(table@, receiver_is(id));
    }
    None
}

/// What `prepare_pipeline` makes of a coordinator.
pub open spec fn pipelines_prepared(
    before: QueryCoordinator,
    built: Vec<BuiltFragment>,
    after: QueryCoordinator,
    r: Result<(), ErrorCode>,
) -> bool {
    &&& (after.fragments_coordinator@ == prepare_all(
        before.fragments_coordinator@,
        built@,
    ).0)
    &&& (r is Ok <==> prepare_all(before.fragments_coordinator@, built@).1 is None)
    &&& (r is Err ==> Some(r->Err_0) == prepare_all(before.fragments_coordinator@, built@).1)
    &&& (after.stage == if r is Ok {
        advanced(before.stage, QueryStage::PipelinePrepared)
    } else {
        before.stage
    })
    &&& (after.query_id == before.query_id)
    &&& (after.executor_id == before.executor_id)
    &&& (after.request_server_tx == before.request_server_tx)
    &&& (after.publish_fragments == before.publish_fragments)
    &&& (after.subscribe_channel == before.subscribe_channel)
    &&& (after.subscribe_fragments == before.subscribe_fragments)
    &&& (after.shutdown_cause == before.shutdown_cause)
    &&& (after.executing == before.executing)
    &&& (after.exchange_senders == before.exchange_senders)
    &&& (after.exchange_receivers == before.exchange_receivers)
}

/// What `shutdown` makes of a coordinator.
pub open spec fn shut_down(
    before: QueryCoordinator,
    cause: Option<ErrorCode>,
    after: QueryCoordinator,
    finish_executor: bool,
) -> bool {
    &&& (finish_executor == before.executing)
    &&& (after == (QueryCoordinator {
        shutdown_cause: cause,
        stage: QueryStage::Terminated,
        ..before
    }))
}

/// What `prepare_subscribes_channel` makes of a coordinator.
pub open spec fn channels_prepared(
    before: QueryCoordinator,
    prepare: ExecutorPacket,
    after: QueryCoordinator,
    opened: Seq<Subscription>,
) -> bool {
    &&& (opened.len() == remote_sources(prepare.source_2_fragments@, prepare.executor@).len())
    &&& (forall|i: int|
        0 <= i < opened.len() ==> (#[trigger] opened[i]).source@ == remote_sources(
            prepare.source_2_fragments@,
            prepare.executor@,
        )[i] && opened[i].capacity == SUBSCRIBE_CAPACITY)
    &&& (channels_opened(
        before.subscribe_channel@,
        remote_sources(prepare.source_2_fragments@, prepare.executor@),
        after.subscribe_channel@,
    ))
    &&& (after.exchange_receivers@.len() == before.exchange_receivers@.len()
        + opened.len())
    &&& (after.exchange_receivers@.subrange(0, before.exchange_receivers@.len() as int)
        == before.exchange_receivers@)
    &&& (forall|i: int|
        0 <= i < opened.len() ==> (#[trigger] after.exchange_receivers@[before.exchange_receivers@.len() + i])@ == opened[i].source@)
    &&& (after.stage == before.stage)
    &&& (after.query_id == before.query_id)
    &&& (after.executor_id == before.executor_id)
    &&& (after.request_server_tx == before.request_server_tx)
    &&& (after.publish_fragments == before.publish_fragments)
    &&& (after.subscribe_fragments == before.subscribe_fragments)
    &&& (after.fragments_coordinator == before.fragments_coordinator)
    &&& (after.shutdown_cause == before.shutdown_cause)
    &&& (after.executing == before.executing)
    &&& (after.exchange_senders == before.exchange_senders)
}

/// What `receive_data` makes of a coordinator.
pub open spec fn channel_taken(
    before: QueryCoordinator,
    source: Seq<char>,
    after: QueryCoordinator,
    r: Result<async_channel::Sender<DataPacket>, ErrorCode>,
) -> bool {
    &&& (r is Ok <==> present(before.subscribe_channel@, source_is(source)))
    &&& (r is Ok ==> r->Ok_0 == before.subscribe_channel@[position(
        before.subscribe_channel@,
        source_is(source),
    )].tx)
    &&& (r is Err ==> r->Err_0.kind == ErrorKind::NotFound && r->Err_0.message@
        == "Cannot found fragment channel, It's a bug."@)
    &&& (after == (QueryCoordinator {
        subscribe_channel: after.subscribe_channel,
        ..before
    }))
    &&& (after.subscribe_channel@ == without(
        before.subscribe_channel@,
        source_is(source),
    ))
}

/// What `get_fragment_sink` answers.
pub open spec fn sink_found(
    query: QueryCoordinator,
    id: usize,
    endpoint: Seq<char>,
    r: Result<FragmentSender, ErrorCode>,
) -> bool {
    &&& (r is Ok <==> present(query.publish_fragments@, target_is(endpoint, id)))
    &&& (r is Ok ==> r->Ok_0 == query.publish_fragments@[position(
        query.publish_fragments@,
        target_is(endpoint, id),
    )].sender)
    &&& (r is Err ==> r->Err_0.kind == ErrorKind::NotFound && r->Err_0.message@
        == crate::error::node_not_found_text(endpoint))
}

/// What `init_publisher` makes of a coordinator.
pub open spec fn publisher_initialized(
    before: QueryCoordinator,
    senders: Vec<PublisherEndpoint>,
    after: QueryCoordinator,
    r: Result<(), ErrorCode>,
) -> bool {
    &&& (after.publishers() == register_all(before.publishers(), senders@).0)
    &&& (register_all(before.publishers(), senders@).1 is Some ==> r == Err::<(), ErrorCode>(
        register_all(before.publishers(), senders@).1->Some_0,
    ) && after.fragments_coordinator == before.fragments_coordinator)
    &&& (register_all(before.publishers(), senders@).1 is None ==> {
        &&& r is Ok <==> forall|i: int|
            0 <= i < before.fragments_coordinator@.len() ==> fragment_published(
                after.publish_fragments@,
                #[trigger] before.fragments_coordinator@[i],
            )
        &&& r is Err ==> r->Err_0.kind == ErrorKind::NotFound
        &&& r is Ok ==> forall|i: int|
            0 <= i < after.fragments_coordinator@.len() ==> fragment_attached(
                #[trigger] after.fragments_coordinator@[i],
            )
    })
    &&& (after.fragments_coordinator@.len() == before.fragments_coordinator@.len())
    &&& (forall|i: int|
        0 <= i < before.fragments_coordinator@.len() ==> fragment_kept(
            before.fragments_coordinator@[i],
            #[trigger] after.fragments_coordinator@[i],
        ))
    &&& (after.stage == if r is Ok {
        advanced(before.stage, QueryStage::PublisherPrepared)
    } else {
        before.stage
    })
    &&& (after.query_id == before.query_id)
    &&& (after.executor_id == before.executor_id)
    &&& (after.subscribe_channel == before.subscribe_channel)
    &&& (after.subscribe_fragments == before.subscribe_fragments)
    &&& (after.shutdown_cause == before.shutdown_cause)
    &&& (after.executing == before.executing)
    &&& (after.exchange_receivers == before.exchange_receivers)
}

/// Whether starting a query stopped at the fragment `stop`: the fragments
/// before it can run and it cannot; its pipeline and those before it have
/// left their fragments, the later ones are untouched; and the failure is
/// not found where only a queue is missing and a logical error else.
pub open spec fn stopped_at(
    table: Seq<PublishEntry>,
    fragments: Seq<FragmentCoordinator>,
    stop: int,
    now: Seq<FragmentCoordinator>,
    failure: ErrorCode,
) -> bool {
    &&& 0 <= stop < fragments.len()
    &&& !fragment_runnable(table, fragments[stop])
    &&& forall|j: int| 0 <= j < stop ==> fragment_runnable(table, #[trigger] fragments[j])
    &&& now.len() == fragments.len()
    &&& forall|j: int|
        0 <= j <= stop ==> #[trigger] now[j] == (FragmentCoordinator {
            pipeline: None,
            ..fragments[j]
        })
    &&& forall|j: int| stop < j < fragments.len() ==> #[trigger] now[j] == fragments[j]
    &&& failure.kind == if fragments[stop].pipeline->Some_0.pulling()
        && fragments[stop].pipeline->Some_0.inputs == 0 {
        ErrorKind::NotFound
    } else {
        ErrorKind::LogicalError
    }
}

/// What `execute_pipeline` makes of a coordinator.
pub open spec fn execution_started(
    before: QueryCoordinator,
    max_threads: usize,
    after: QueryCoordinator,
    r: Result<Option<Execution>, ErrorCode>,
) -> bool {
    &&& (before.fragments_coordinator@.len() == 0 ==> r is Ok && r->Ok_0 is None && after == before)
    &&& (before.fragments_coordinator@.len() > 0 ==> {
        &&& r is Ok <==> forall|i: int|
            0 <= i < before.fragments_coordinator@.len() ==> can_exchange(
                #[trigger] before.fragments_coordinator@[i],
            ) && fragment_runnable(
                before.publish_fragments@,
                before.fragments_coordinator@[i],
            )
        &&& r is Ok ==> r->Ok_0 is Some
    })
    &&& (r is Ok && r->Ok_0 is Some ==> {
        let run = r->Ok_0->Some_0;
        &&& pipelines_closed(before.fragments_coordinator@, max_threads, run.pipelines@)
        &&& run.request_server_tx == before.request_server_tx
        &&& run.receivers@ == before.exchange_receivers@
        &&& after.executing
        &&& after.request_server_tx is None
        &&& after.stage == advanced(before.stage, QueryStage::Executing)
        &&& forall|i: int|
            0 <= i < before.fragments_coordinator@.len() ==> #[trigger] after.fragments_coordinator@[i] == (FragmentCoordinator {
                pipeline: None,
                ..before.fragments_coordinator@[i]
            })
    })
    &&& (r is Err ==> {
        &&& after.executing == before.executing
        &&& after.request_server_tx == before.request_server_tx
        &&& after.stage == before.stage
        &&& (r->Err_0.kind == ErrorKind::LogicalError || r->Err_0.kind
            == ErrorKind::NotFound)
        &&& (exists|i: int|
            0 <= i < before.fragments_coordinator@.len() && !can_exchange(
                #[trigger] before.fragments_coordinator@[i],
            )) ==> r->Err_0.kind == ErrorKind::LogicalError && after == before
        &&& (forall|i: int|
            0 <= i < before.fragments_coordinator@.len() ==> can_exchange(
                #[trigger] before.fragments_coordinator@[i],
            )) ==> exists|stop: int| #[trigger]
            stopped_at(
                before.publish_fragments@,
                before.fragments_coordinator@,
                stop,
                after.fragments_coordinator@,
                r->Err_0,
            )
    })
    &&& (after.fragments_coordinator@.len() == before.fragments_coordinator@.len())
    &&& (after.query_id == before.query_id)
    &&& (after.executor_id == before.executor_id)
    &&& (after.publish_fragments == before.publish_fragments)
    &&& (after.subscribe_channel == before.subscribe_channel)
    &&& (after.subscribe_fragments == before.subscribe_fragments)
    &&& (after.shutdown_cause == before.shutdown_cause)
    &&& (after.exchange_senders == before.exchange_senders)
    &&& (after.exchange_receivers == before.exchange_receivers)
}

/// What `subscribe_fragment` makes of a coordinator and of the pipeline.
pub open spec fn fragment_subscribed(
    before: QueryCoordinator,
    fragment_id: usize,
    schema: DataSchemaRef,
    pipeline: Pipeline,
    built: Result<Pipeline, ErrorCode>,
    after: QueryCoordinator,
    spliced_into: Pipeline,
    r: Result<(), ErrorCode>,
) -> bool {
    &&& (exists|entry: SubscribeFragment|
        {
            &&& entry.fragment_id == fragment_id
            &&& entry.capacity == SUBSCRIBE_CAPACITY
            &&& after.subscribe_fragments@ == put(
                before.subscribe_fragments@,
                receiver_is(fragment_id),
                entry,
            )
        })
    &&& (after.fragments_coordinator@ == without(
        before.fragments_coordinator@,
        fragment_is(fragment_id),
    ))
    &&& (after == (QueryCoordinator {
        subscribe_fragments: after.subscribe_fragments,
        fragments_coordinator: after.fragments_coordinator,
        ..before
    }))
    &&& (!present(before.fragments_coordinator@, fragment_is(fragment_id)) ==> r is Ok
        && sourced(pipeline, fragment_id, schema, spliced_into))
    &&& (present(before.fragments_coordinator@, fragment_is(fragment_id)) ==> {
        let held = before.fragments_coordinator@[position(
            before.fragments_coordinator@,
            fragment_is(fragment_id),
        )];
        let fragment = after_prepare(held, built);
        if !held.initialized && built is Err {
            r == Err::<(), ErrorCode>(built->Err_0) && spliced_into == pipeline
        } else if fragment.pipeline is None {
            &&& r is Err
            &&& r->Err_0.kind == ErrorKind::LogicalError
            &&& r->Err_0.message@
                == "Pipeline is none, maybe query fragment circular dependency."@
            &&& spliced_into == pipeline
        } else if fragment.data_exchange is None {
            r is Ok && spliced_into == fragment.pipeline->Some_0
        } else if !can_exchange(fragment) {
            &&& r is Err
            &&& r->Err_0.kind == ErrorKind::LogicalError
            &&& spliced_into == pipeline
        } else {
            r is Ok && spliced(fragment.pipeline->Some_0, fragment, spliced_into)
        }
    })
}

/// Whether `query` is the coordinator of a query that a node has just heard
/// of through `executor`: it knows the fragments of the packet, nothing else.
pub open spec fn created_of(query: QueryCoordinator, executor: ExecutorPacket) -> bool {
    &&& query.query_id@ == executor.query_id@
    &&& query.executor_id@ == executor.executor@
    &&& query.stage == QueryStage::Created
    &&& query.request_server_tx is None
    &&& query.publish_fragments@.len() == 0
    &&& query.subscribe_channel@.len() == 0
    &&& query.subscribe_fragments@.len() == 0
    &&& table_of(query.fragments_coordinator@, executor.fragments@)
    &&& query.shutdown_cause is None
    &&& !query.executing
    &&& query.exchange_senders@.len() == 0
    &&& query.exchange_receivers@.len() == 0
}

impl QueryCoordinator {
    /// The coordinator of a query that this node has just heard of: it knows
    /// the fragments of the packet and nothing else.
    pub fn create(executor: &ExecutorPacket) -> (query: QueryCoordinator)
        ensures
            created_of(query, *executor),
    {
        let mut fragments_coordinator: Vec<FragmentCoordinator> = Vec::new();
        let mut i: usize = 0;
        while i < executor.fragments.len()
            invariant
                i <= executor.fragments@.len(),
                table_of(fragments_coordinator@, executor.fragments@.take(i as int)),
            decreases executor.fragments@.len() - i,
        {
            let ghost before = fragments_coordinator@;
            let fragment = FragmentCoordinator::create(&executor.fragments[i]);
            let entry: FragmentCoordinator = *fragment;
            let ghost kept = entry;
            match find_fragment(&fragments_coordinator, entry.fragment_id) {
                Some(at) => {
                    proof {
                        lemma_position(before, fragment_is(entry.fragment_id));
                    }
                    fragments_coordinator[at] = entry;
                },
                None => {
                    fragments_coordinator.push(entry);
                },
            }
            proof {
                let grown = executor.fragments@.take(i + 1);
                assert(grown.drop_last() =~= executor.fragments@.take(i as int));
                assert(grown.last() == executor.fragments@[i as int]);
                assert(fresh_of(kept, grown.last()));
                assert(fragments_coordinator@ =~= put(
                    before,
                    fragment_is(grown.last().fragment_id),
                    kept,
                ));
            }
            i += 1;
        }
        proof {
            assert(executor.fragments@.take(i as int) =~= executor.fragments@);
        }
        QueryCoordinator {
            query_id: executor.query_id.clone(),
            executor_id: executor.executor.clone(),
            stage: QueryStage::Created,
            request_server_tx: None,
            publish_fragments: Vec::new(),
            subscribe_channel: Vec::new(),
            subscribe_fragments: Vec::new(),
            fragments_coordinator,
            shutdown_cause: None,
            executing: false,
            exchange_senders: Vec::new(),
            exchange_receivers: Vec::new(),
        }
    }

    /// Installs the pipelines of the fragments of this node, each at most
    /// once, in the order of `built`, and stops at the first build that
    /// failed for a fragment that had none.
    pub fn prepare_pipeline(&mut self, built: Vec<BuiltFragment>) -> (r: Result<(), ErrorCode>)
        ensures
            pipelines_prepared(*old(self), built, *final(self), r),
    {
        let mut pending = built;
        let ghost all = pending@;
        while pending.len() > 0
            invariant
                all == built@,
                prepare_all(old(self).fragments_coordinator@, all) == prepare_all(
                    self.fragments_coordinator@,
                    pending@,
                ),
                self.stage == old(self).stage,
                self.query_id == old(self).query_id,
                self.executor_id == old(self).executor_id,
                self.request_server_tx == old(self).request_server_tx,
                self.publish_fragments == old(self).publish_fragments,
                self.subscribe_channel == old(self).subscribe_channel,
                self.subscribe_fragments == old(self).subscribe_fragments,
                self.shutdown_cause == old(self).shutdown_cause,
                self.executing == old(self).executing,
                self.exchange_senders == old(self).exchange_senders,
                self.exchange_receivers == old(self).exchange_receivers,
            decreases pending@.len(),
        {
            let ghost rest = pending@;
            let ghost table = self.fragments_coordinator@;
            let item = pending.remove(0);
            assert(pending@ =~= rest.drop_first());
            assert(item == rest.first());
            match find_fragment(&self.fragments_coordinator, item.fragment_id) {
                None => {},
                Some(at) => {
                    proof {
                        lemma_position(table, fragment_is(item.fragment_id));
                    }
                    let outcome = self.fragments_coordinator[at].prepare_pipeline(item.outcome);
                    assert(self.fragments_coordinator@ =~= table.update(
                        at as int,
                        after_prepare(table[at as int], item.outcome),
                    ));
                    match outcome {
                        Ok(()) => {},
                        Err(cause) => {
                            proof {
                                assert(!table[at as int].initialized && item.outcome is Err);
                                assert(prepare_all(table, rest) == (
                                    self.fragments_coordinator@,
                                    Some(cause),
                                ));
                            }
                            return Err(cause);
                        },
                    }
                },
            }
        }
        self.stage = advance(self.stage, QueryStage::PipelinePrepared);
        Ok(())
    }

    /// Records why the query ends and ends it. The result says whether an
    /// executor runs that has to be told to finish.
    pub fn shutdown(&mut self, cause: Option<ErrorCode>) -> (finish_executor: bool)
        ensures
            shut_down(*old(self), cause, *final(self), finish_executor),
    {
        self.shutdown_cause = cause;
        self.stage = QueryStage::Terminated;
        self.executing
    }

    /// Opens a channel for every source node other than this node, before
    /// any of them sends, and hands out the receiving halves in the order of
    /// the packet.
    pub fn prepare_subscribes_channel(&mut self, prepare: &ExecutorPacket) -> (opened: Vec<
        Subscription,
    >)
        ensures
            channels_prepared(*old(self), *prepare, *final(self), opened@),
    {
        let mut opened: Vec<Subscription> = Vec::new();
        let ghost first_receivers = self.exchange_receivers@;
        let mut i: usize = 0;
        while i < prepare.source_2_fragments.len()
            invariant
                i <= prepare.source_2_fragments@.len(),
                first_receivers == old(self).exchange_receivers@,
                opened@.len() == remote_sources(
                    prepare.source_2_fragments@.take(i as int),
                    prepare.executor@,
                ).len(),
                forall|k: int|
                    0 <= k < opened@.len() ==> (#[trigger] opened@[k]).source@ == remote_sources(
                        prepare.source_2_fragments@.take(i as int),
                        prepare.executor@,
                    )[k] && opened@[k].capacity == SUBSCRIBE_CAPACITY,
                channels_opened(
                    old(self).subscribe_channel@,
                    remote_sources(prepare.source_2_fragments@.take(i as int), prepare.executor@),
                    self.subscribe_channel@,
                ),
                self.exchange_receivers@.len() == first_receivers.len() + opened@.len(),
                self.exchange_receivers@.subrange(0, first_receivers.len() as int)
                    == first_receivers,
                forall|k: int|
                    0 <= k < opened@.len() ==> (#[trigger] self.exchange_receivers@[
                        first_receivers.len() + k])@ == opened@[k].source@,
                self.stage == old(self).stage,
                self.query_id == old(self).query_id,
                self.executor_id == old(self).executor_id,
                self.request_server_tx == old(self).request_server_tx,
                self.publish_fragments == old(self).publish_fragments,
                self.subscribe_fragments == old(self).subscribe_fragments,
                self.fragments_coordinator == old(self).fragments_coordinator,
                self.shutdown_cause == old(self).shutdown_cause,
                self.executing == old(self).executing,
                self.exchange_senders == old(self).exchange_senders,
            decreases prepare.source_2_fragments@.len() - i,
        {
            let source = &prepare.source_2_fragments[i].source;
            let ghost grown = prepare.source_2_fragments@.take(i + 1);
            let ghost earlier = remote_sources(
                prepare.source_2_fragments@.take(i as int),
                prepare.executor@,
            );
            proof {
                assert(grown.drop_last() =~= prepare.source_2_fragments@.take(i as int));
                assert(grown.last() == prepare.source_2_fragments@[i as int]);
            }
            if !same_text(source.as_str(), prepare.executor.as_str()) {
                let (tx, rx) = bounded_channel(SUBSCRIBE_CAPACITY);
                let ghost mid = self.subscribe_channel@;
                let ghost receivers = self.exchange_receivers@;
                let ghost handed = opened@;
                let entry = SubscribeChannel {
                    source: source.clone(),
                    capacity: SUBSCRIBE_CAPACITY,
                    tx,
                };
                let ghost kept = entry;
                opened.push(
                    Subscription { source: source.clone(), capacity: SUBSCRIBE_CAPACITY, rx },
                );
                self.exchange_receivers.push(source.clone());
                match find_channel(&self.subscribe_channel, source.as_str()) {
                    Some(at) => {
                        proof {
                            lemma_position(mid, source_is(source@));
                        }
                        self.subscribe_channel[at] = entry;
                    },
                    None => {
                        self.subscribe_channel.push(entry);
                    },
                }
                proof {
                    let now = remote_sources(grown, prepare.executor@);
                    assert(now == earlier.push(source@));
                    assert(now.drop_last() =~= earlier);
                    assert(now.last() == source@);
                    assert(self.subscribe_channel@ =~= put(mid, source_is(source@), kept));
                    assert(channels_opened(old(self).subscribe_channel@, now.drop_last(), mid));
                    assert(kept.source@ == now.last() && kept.capacity == SUBSCRIBE_CAPACITY);
                    assert(channels_opened(
                        old(self).subscribe_channel@,
                        now,
                        self.subscribe_channel@,
                    ));
                    assert(self.exchange_receivers@.subrange(0, first_receivers.len() as int)
                        =~= receivers.subrange(0, first_receivers.len() as int));
                    assert forall|k: int| 0 <= k < opened@.len() implies (
                    #[trigger] self.exchange_receivers@[first_receivers.len() + k])@
                        == opened@[k].source@ by {
                        if k < handed.len() {
                            assert(self.exchange_receivers@[first_receivers.len() + k]
                                == receivers[first_receivers.len() + k]);
                            assert(opened@[k] == handed[k]);
                        }
                    }
                    assert forall|k: int| 0 <= k < opened@.len() implies (#[trigger] opened@[k]).source@
                        == now[k] && opened@[k].capacity == SUBSCRIBE_CAPACITY by {
                        if k < handed.len() {
                            assert(opened@[k] == handed[k]);
                        }
                    }
                }
            } else {
                proof {
                    assert(remote_sources(grown, prepare.executor@) == earlier);
                }
            }
            i += 1;
        }
        proof {
            assert(prepare.source_2_fragments@.take(i as int) =~= prepare.source_2_fragments@);
        }
        opened
    }

    /// Hands out the channel that takes what `source` sends, once: the task
    /// that drains the inbound stream of that node owns it from then on. A
    /// node that was never subscribed has no channel.
    pub fn receive_data(&mut self, source: &str) -> (r: Result<
        async_channel::Sender<DataPacket>,
        ErrorCode,
    >)
        ensures
            channel_taken(*old(self), source@, *final(self), r),
    {
        match find_channel(&self.subscribe_channel, source) {
            Some(at) => {
                proof {
                    lemma_position(self.subscribe_channel@, source_is(source@));
                }
                let entry = self.subscribe_channel.remove(at);
                Ok(entry.tx)
            },
            None => Err(
                ErrorCode::new(ErrorKind::NotFound, "Cannot found fragment channel, It's a bug."),
            ),
        }
    }

    /// Another handle to the queue of fragment `id` towards `endpoint`.
    pub fn get_fragment_sink(&self, id: usize, endpoint: &str) -> (r: Result<
        FragmentSender,
        ErrorCode,
    >)
        ensures
            sink_found(*self, id, endpoint@, r),
    {
        match find_publisher(&self.publish_fragments, endpoint, id) {
            Some(at) => {
                proof {
                    lemma_position(self.publish_fragments@, target_is(endpoint@, id));
                }
                Ok(self.publish_fragments[at].sender.duplicate())
            },
            None => Err(ErrorCode::node_not_found(ErrorKind::NotFound, endpoint)),
        }
    }

    /// The publishers that this coordinator knows.
    pub open spec fn publishers(&self) -> Publishers {
        Publishers {
            publish_fragments: self.publish_fragments@,
            request_server_tx: self.request_server_tx,
            exchange_senders: self.exchange_senders@,
        }
    }

    /// Gives every sink of the pipeline that has no queue yet a handle to
    /// the queue of its fragment towards its destination, in the order of
    /// the sinks, and stops at the first sink whose queue is unknown.
    pub fn init_pipeline(publish_fragments: &Vec<PublishEntry>, pipeline: &mut Pipeline) -> (r:
        Result<(), ErrorCode>)
        ensures
            r is Ok <==> all_published(publish_fragments@, old(pipeline).sinks@),
            r is Ok ==> all_attached(final(pipeline).sinks@),
            r is Ok ==> attached_from(
                publish_fragments@,
                old(pipeline).sinks@,
                final(pipeline).sinks@,
            ),
            r is Err ==> r->Err_0.kind == ErrorKind::NotFound,
            pipeline_kept(*old(pipeline), *final(pipeline)),
    {
        let mut i: usize = 0;
        while i < pipeline.sinks.len()
            invariant
                i <= pipeline.sinks@.len(),
                pipeline_kept(*old(pipeline), *pipeline),
                forall|j: int| 0 <= j < i ==> (#[trigger] pipeline.sinks@[j]).sender is Some,
                forall|j: int| i <= j < pipeline.sinks@.len() ==> pipeline.sinks@[j] == old(pipeline).sinks@[j],
                forall|j: int|
                    0 <= j < i && old(pipeline).sinks@[j].sender is None ==> (
                    #[trigger] pipeline.sinks@[j]).sender == Some(
                        publish_fragments@[position(
                            publish_fragments@,
                            target_is(
                                old(pipeline).sinks@[j].destination@,
                                old(pipeline).sinks@[j].fragment_id,
                            ),
                        )].sender,
                    ),
                forall|j: int|
                    0 <= j < i && old(pipeline).sinks@[j].sender is None ==> present(
                        publish_fragments@,
                        target_is(#[trigger] old(pipeline).sinks@[j].destination@, old(pipeline).sinks@[j].fragment_id),
                    ),
            decreases pipeline.sinks@.len() - i,
        {
            if pipeline.sinks[i].sender.is_none() {
                let found = find_publisher(
                    publish_fragments,
                    pipeline.sinks[i].destination.as_str(),
                    pipeline.sinks[i].fragment_id,
                );
                match found {
                    None => {
                        return Err(
                            ErrorCode::node_not_found(
                                ErrorKind::NotFound,
                                pipeline.sinks[i].destination.as_str(),
                            ),
                        );
                    },
                    Some(at) => {
                        proof {
                            lemma_position(
                                publish_fragments@,
                                target_is(
                                    pipeline.sinks@[i as int].destination@,
                                    pipeline.sinks@[i as int].fragment_id,
                                ),
                            );
                        }
                        let sender = publish_fragments[at].sender.duplicate();
                        pipeline.sinks[i].sender = Some(sender);
                    },
                }
            }
            i += 1;
        }
        Ok(())
    }

    /// Attaches the sinks of every pipeline that the fragments hold, in the
    /// order of the fragments, and stops at the first sink whose queue is
    /// unknown.
    pub fn attach_publishers(&mut self) -> (r: Result<(), ErrorCode>)
        ensures
            r is Ok <==> forall|i: int|
                0 <= i < old(self).fragments_coordinator@.len() ==> fragment_published(
                    old(self).publish_fragments@,
                    #[trigger] old(self).fragments_coordinator@[i],
                ),
            r is Ok ==> forall|i: int|
                0 <= i < final(self).fragments_coordinator@.len() ==> fragment_attached(
                    #[trigger] final(self).fragments_coordinator@[i],
                ),
            r is Err ==> r->Err_0.kind == ErrorKind::NotFound,
            final(self).fragments_coordinator@.len() == old(self).fragments_coordinator@.len(),
            forall|i: int|
                0 <= i < old(self).fragments_coordinator@.len() ==> fragment_kept(
                    old(self).fragments_coordinator@[i],
                    #[trigger] final(self).fragments_coordinator@[i],
                ),
            *final(self) == (QueryCoordinator {
                fragments_coordinator: final(self).fragments_coordinator,
                ..*old(self)
            }),
    {
        let mut i: usize = 0;
        while i < self.fragments_coordinator.len()
            invariant
                i <= self.fragments_coordinator@.len(),
                self.fragments_coordinator@.len() == old(self).fragments_coordinator@.len(),
                forall|j: int|
                    0 <= j < old(self).fragments_coordinator@.len() ==> fragment_kept(
                        old(self).fragments_coordinator@[j],
                        #[trigger] self.fragments_coordinator@[j],
                    ),
                forall|j: int|
                    i <= j < old(self).fragments_coordinator@.len() ==> self.fragments_coordinator@[j]
                        == old(self).fragments_coordinator@[j],
                forall|j: int|
                    0 <= j < i ==> fragment_published(
                        old(self).publish_fragments@,
                        #[trigger] old(self).fragments_coordinator@[j],
                    ),
                forall|j: int|
                    0 <= j < i ==> fragment_attached(#[trigger] self.fragments_coordinator@[j]),
                *self == (QueryCoordinator {
                    fragments_coordinator: self.fragments_coordinator,
                    ..*old(self)
                }),
            decreases self.fragments_coordinator@.len() - i,
        {
            let ghost table = self.fragments_coordinator@;
            let taken = self.fragments_coordinator[i].pipeline.take();
            match taken {
                None => {
                    assert(self.fragments_coordinator@[i as int] == table[i as int]);
                },
                Some(pipeline) => {
                    let mut pipeline = pipeline;
                    let outcome = Self::init_pipeline(&self.publish_fragments, &mut pipeline);
                    self.fragments_coordinator[i].pipeline = Some(pipeline);
                    match outcome {
                        Ok(()) => {},
                        Err(cause) => {
                            assert(!fragment_published(
                                old(self).publish_fragments@,
                                old(self).fragments_coordinator@[i as int],
                            ));
                            return Err(cause);
                        },
                    }
                },
            }
            i += 1;
        }
        Ok(())
    }

    /// Enters a queue for `target` and each fragment of `list` in turn.
    fn register_target(&mut self, target: &String, list: Vec<(usize, FragmentSender)>)
        ensures
            final(self).publish_fragments@ == register_fragments(
                old(self).publish_fragments@,
                *target,
                list@,
            ),
            *final(self) == (QueryCoordinator {
                publish_fragments: final(self).publish_fragments,
                ..*old(self)
            }),
    {
        let mut pending = list;
        while pending.len() > 0
            invariant
                register_fragments(old(self).publish_fragments@, *target, list@)
                    == register_fragments(self.publish_fragments@, *target, pending@),
                *self == (QueryCoordinator {
                    publish_fragments: self.publish_fragments,
                    ..*old(self)
                }),
            decreases pending@.len(),
        {
            let ghost rest = pending@;
            let ghost table = self.publish_fragments@;
            let (fragment_id, sender) = pending.remove(0);
            assert(pending@ =~= rest.drop_first());
            let entry = PublishEntry { target: target.clone(), fragment_id, sender };
            let ghost kept = entry;
            match find_publisher(&self.publish_fragments, target.as_str(), fragment_id) {
                Some(at) => {
                    proof {
                        lemma_position(table, target_is(target@, fragment_id));
                    }
                    self.publish_fragments[at] = entry;
                },
                None => {
                    self.publish_fragments.push(entry);
                },
            }
            assert(self.publish_fragments@ =~= put(table, target_is(target@, fragment_id), kept));
        }
    }

    /// Registers the connections to the destinations, one after the other:
    /// the queues that each offers, the one that leads to the node that the
    /// client asked, and the connection itself. Then attaches the sinks of
    /// the pipelines that exist already.
    pub fn init_publisher(&mut self, senders: Vec<PublisherEndpoint>) -> (r: Result<(), ErrorCode>)
        ensures
            publisher_initialized(*old(self), senders, *final(self), r),
    {
        let mut pending = senders;
        while pending.len() > 0
            invariant
                register_all(old(self).publishers(), senders@) == register_all(
                    self.publishers(),
                    pending@,
                ),
                self.fragments_coordinator == old(self).fragments_coordinator,
                self.stage == old(self).stage,
                self.query_id == old(self).query_id,
                self.executor_id == old(self).executor_id,
                self.subscribe_channel == old(self).subscribe_channel,
                self.subscribe_fragments == old(self).subscribe_fragments,
                self.shutdown_cause == old(self).shutdown_cause,
                self.executing == old(self).executing,
                self.exchange_receivers == old(self).exchange_receivers,
            decreases pending@.len(),
        {
            let ghost rest = pending@;
            let ghost known = self.publishers();
            let endpoint = pending.remove(0);
            assert(pending@ =~= rest.drop_first());
            assert(endpoint == rest.first());
            let target = endpoint.target;
            match endpoint.fragments {
                Err(cause) => {
                    return Err(cause);
                },
                Ok(list) => {
                    self.register_target(&target, list);
                    if endpoint.to_request_server {
                        self.request_server_tx = Some(target.clone());
                    }
                    self.exchange_senders.push(target);
                },
            }
        }
        match self.attach_publishers() {
            Ok(()) => {},
            Err(cause) => {
                return Err(cause);
            },
        }
        self.stage = advance(self.stage, QueryStage::PublisherPrepared);
        Ok(())
    }

    /// Closes a pipeline for execution: sets its threads, checks that rows
    /// can be pulled from it, adds the sinks that publish its output under
    /// `params`, checks that no port is left open, and attaches the sinks.
    pub fn close_pipeline(
        publish_fragments: &Vec<PublishEntry>,
        pipeline: Pipeline,
        params: &ExchangeParams,
        max_threads: usize,
    ) -> (r: Result<Pipeline, ErrorCode>)
        ensures
            r is Ok <==> closable(
                publish_fragments@,
                pipeline,
                fragment_of(*params),
                destinations_of(*params),
            ),
            r is Ok ==> closed_by(
                pipeline,
                fragment_of(*params),
                destinations_of(*params),
                max_threads,
                r->Ok_0,
            ),
            r is Err ==> (if pipeline.pulling() && pipeline.inputs == 0 {
                r->Err_0.kind == ErrorKind::NotFound
            } else {
                r->Err_0.kind == ErrorKind::LogicalError && r->Err_0.message@
                    == "Logical error, It's a bug"@
            }),
    {
        let mut pipeline = pipeline;
        let ghost before = pipeline;
        let ghost destinations = destinations_of(*params);
        pipeline.set_max_threads(max_threads);
        if !pipeline.is_pulling_pipeline() {
            return Err(ErrorCode::new(ErrorKind::LogicalError, "Logical error, It's a bug"));
        }
        pipeline.publisher_sink(params);
        if !pipeline.is_complete_pipeline() {
            return Err(ErrorCode::new(ErrorKind::LogicalError, "Logical error, It's a bug"));
        }
        let ghost sunk = pipeline;
        proof {
            assert(sinks_added(before.sinks@, sunk.sinks@, fragment_of(*params), destinations));
            if all_published(publish_fragments@, sunk.sinks@) {
                assert forall|i: int|
                    0 <= i < before.sinks@.len() && before.sinks@[i].sender is None implies present(
                    publish_fragments@,
                    target_is(#[trigger] before.sinks@[i].destination@, before.sinks@[i].fragment_id),
                ) by {
                    assert(sunk.sinks@.subrange(0, before.sinks@.len() as int)[i] == sunk.sinks@[i]);
                }
                assert forall|k: int| 0 <= k < destinations.len() implies present(
                    publish_fragments@,
                    target_is(#[trigger] destinations[k], fragment_of(*params)),
                ) by {
                    let sink = sunk.sinks@[before.sinks@.len() + k];
                    assert(sink.sender is None);
                    assert(sink.destination@ == destinations[k]);
                }
            }
            if closable(publish_fragments@, before, fragment_of(*params), destinations) {
                assert forall|i: int|
                    0 <= i < sunk.sinks@.len() && sunk.sinks@[i].sender is None implies present(
                    publish_fragments@,
                    target_is(#[trigger] sunk.sinks@[i].destination@, sunk.sinks@[i].fragment_id),
                ) by {
                    if i < before.sinks@.len() {
                        assert(sunk.sinks@.subrange(0, before.sinks@.len() as int)[i]
                            == sunk.sinks@[i]);
                    } else {
                        let k = i - before.sinks@.len();
                        assert(sunk.sinks@[before.sinks@.len() + k].destination@
                            == destinations[k]);
                    }
                }
            }
        }
        match Self::init_pipeline(publish_fragments, &mut pipeline) {
            Err(cause) => Err(cause),
            Ok(()) => {
                proof {
                    assert forall|i: int| 0 <= i < before.sinks@.len() implies {
                        &&& (#[trigger] pipeline.sinks@.take(
                            before.sinks@.len() as int,
                        )[i]).fragment_id == before.sinks@[i].fragment_id
                        &&& pipeline.sinks@.take(before.sinks@.len() as int)[i].destination@
                            == before.sinks@[i].destination@
                        &&& before.sinks@[i].sender is Some ==> pipeline.sinks@.take(
                            before.sinks@.len() as int,
                        )[i].sender == before.sinks@[i].sender
                    } by {
                        assert(sunk.sinks@.subrange(0, before.sinks@.len() as int)[i]
                            == sunk.sinks@[i]);
                    }
                }
                Ok(pipeline)
            },
        }
    }

    /// The sink parameters of every fragment, in the order of the fragments.
    fn all_exchange_params(&self) -> (r: Result<Vec<ExchangeParams>, ErrorCode>)
        ensures
            r is Ok <==> forall|i: int|
                0 <= i < self.fragments_coordinator@.len() ==> can_exchange(
                    #[trigger] self.fragments_coordinator@[i],
                ),
            r is Ok ==> r->Ok_0@.len() == self.fragments_coordinator@.len(),
            r is Ok ==> forall|i: int|
                0 <= i < self.fragments_coordinator@.len() ==> params_of(
                    self.fragments_coordinator@[i],
                    self.query_id@,
                    self.executor_id@,
                    #[trigger] r->Ok_0@[i],
                ),
            r is Err ==> r->Err_0.kind == ErrorKind::LogicalError,
    {
        let mut params: Vec<ExchangeParams> = Vec::new();
        let mut i: usize = 0;
        while i < self.fragments_coordinator.len()
            invariant
                i <= self.fragments_coordinator@.len(),
                params@.len() == i,
                forall|j: int|
                    0 <= j < i ==> can_exchange(#[trigger] self.fragments_coordinator@[j]),
                forall|j: int|
                    0 <= j < i ==> params_of(
                        self.fragments_coordinator@[j],
                        self.query_id@,
                        self.executor_id@,
                        #[trigger] params@[j],
                    ),
            decreases self.fragments_coordinator@.len() - i,
        {
            match self.fragments_coordinator[i].create_exchange_params(self) {
                Ok(one) => {
                    params.push(one);
                },
                Err(cause) => {
                    return Err(cause);
                },
            }
            i += 1;
        }
        Ok(params)
    }

    /// Starts the query on this node. A node without fragments has nothing
    /// to run. Otherwise every pipeline that the fragments hold is closed by
    /// the sinks of its fragment, in the order of the fragments; the
    /// pipelines leave the fragments and are handed out to be run, together
    /// with the path to the node that the client asked.
    pub fn execute_pipeline(&mut self, max_threads: usize) -> (r: Result<
        Option<Execution>,
        ErrorCode,
    >)
        ensures
            execution_started(*old(self), max_threads, *final(self), r),
    {
        if self.fragments_coordinator.len() == 0 {
            return Ok(None);
        }
        let params = match self.all_exchange_params() {
            Ok(params) => params,
            Err(cause) => {
                return Err(cause);
            },
        };
        let ghost first = self.fragments_coordinator@;
        let mut pipelines: Vec<Pipeline> = Vec::new();
        let mut i: usize = 0;
        while i < self.fragments_coordinator.len()
            invariant
                i <= first.len(),
                first == old(self).fragments_coordinator@,
                self.fragments_coordinator@.len() == first.len(),
                params@.len() == first.len(),
                forall|j: int| 0 <= j < first.len() ==> can_exchange(#[trigger] first[j]),
                forall|j: int|
                    0 <= j < first.len() ==> params_of(
                        first[j],
                        self.query_id@,
                        self.executor_id@,
                        #[trigger] params@[j],
                    ),
                forall|j: int|
                    0 <= j < i ==> #[trigger] self.fragments_coordinator@[j] == (FragmentCoordinator {
                        pipeline: None,
                        ..first[j]
                    }),
                forall|j: int|
                    i <= j < first.len() ==> #[trigger] self.fragments_coordinator@[j] == first[j],
                forall|j: int|
                    0 <= j < i ==> fragment_runnable(
                        old(self).publish_fragments@,
                        #[trigger] first[j],
                    ),
                pipelines_closed(first.take(i as int), max_threads, pipelines@),
                self.executing == old(self).executing,
                self.request_server_tx == old(self).request_server_tx,
                self.stage == old(self).stage,
                self.query_id == old(self).query_id,
                self.executor_id == old(self).executor_id,
                self.publish_fragments == old(self).publish_fragments,
                self.subscribe_channel == old(self).subscribe_channel,
                self.subscribe_fragments == old(self).subscribe_fragments,
                self.shutdown_cause == old(self).shutdown_cause,
                self.exchange_senders == old(self).exchange_senders,
                self.exchange_receivers == old(self).exchange_receivers,
            decreases first.len() - i,
        {
            let ghost table = self.fragments_coordinator@;
            let ghost done = pipelines@;
            let ghost grown = first.take(i + 1);
            proof {
                assert(grown.drop_last() =~= first.take(i as int));
                assert(grown.last() == first[i as int]);
                assert(params_of(first[i as int], self.query_id@, self.executor_id@, params@[i as int]));
                assert(can_exchange(first[i as int]));
                assert(destinations_of(params@[i as int]) =~= exchange_destinations(first[i as int]));
                assert(fragment_of(params@[i as int]) == first[i as int].fragment_id);
            }
            let taken = self.fragments_coordinator[i].pipeline.take();
            assert(self.fragments_coordinator@[i as int] == (FragmentCoordinator {
                pipeline: None,
                ..first[i as int]
            }));
            match taken {
                None => {
                    proof {
                        let before = with_pipeline(first.take(i as int));
                        assert(with_pipeline(grown) == before);
                        assert forall|k: int| 0 <= k < pipelines@.len() implies #[trigger] closed_at(
                            grown,
                            max_threads,
                            k,
                            pipelines@[k],
                        ) by {
                            assert(pipelines@[k] == done[k]);
                            assert(closed_at(first.take(i as int), max_threads, k, done[k]));
                            let at = before[k];
                            assert(first.take(i as int)[at] == grown[at]);
                        }
                        assert(pipelines@.len() == with_pipeline(grown).len());
                        assert(pipelines_closed(grown, max_threads, pipelines@));
                    }
                },
                Some(pipeline) => {
                    match Self::close_pipeline(
                        &self.publish_fragments,
                        pipeline,
                        &params[i],
                        max_threads,
                    ) {
                        Err(cause) => {
                            assert(!fragment_runnable(
                                old(self).publish_fragments@,
                                first[i as int],
                            ));
                            assert(stopped_at(
                                old(self).publish_fragments@,
                                first,
                                i as int,
                                self.fragments_coordinator@,
                                cause,
                            ));
                            return Err(cause);
                        },
                        Ok(closed) => {
                            pipelines.push(closed);
                            proof {
                                let before = with_pipeline(first.take(i as int));
                                assert(with_pipeline(grown) == before.push(i as int));
                                assert forall|k: int| 0 <= k < pipelines@.len() implies #[trigger] closed_at(
                                    grown,
                                    max_threads,
                                    k,
                                    pipelines@[k],
                                ) by {
                                    if k < done.len() {
                                        assert(pipelines@[k] == done[k]);
                                        assert(closed_at(
                                            first.take(i as int),
                                            max_threads,
                                            k,
                                            done[k],
                                        ));
                                        let at = before[k];
                                        assert(first.take(i as int)[at] == grown[at]);
                                    }
                                }
                                assert(pipelines_closed(grown, max_threads, pipelines@));
                            }
                        },
                    }
                },
            }
            i += 1;
        }
        proof {
            assert(first.take(i as int) =~= first);
        }
        let receivers = copy_names(&self.exchange_receivers);
        self.executing = true;
        let request_server_tx = self.request_server_tx.take();
        self.stage = advance(self.stage, QueryStage::Executing);
        Ok(Some(Execution { pipelines, request_server_tx, receivers }))
    }

    /// Registers the inbound channel of a fragment and puts the fragment at
    /// the input of `pipeline`. If this node holds the fragment itself, the
    /// fragment leaves the coordinator and its own pipeline, prepared from
    /// `built` unless it was prepared before, becomes `pipeline`: as it is
    /// where the fragment has no destination policy, and else with its output
    /// passing through the sinks of the fragment and with the inbound channel
    /// as one more source. If this node does not hold the fragment, the
    /// inbound channel becomes the first stage of `pipeline`.
    pub fn subscribe_fragment(
        &mut self,
        fragment_id: usize,
        schema: DataSchemaRef,
        pipeline: &mut Pipeline,
        built: Result<Pipeline, ErrorCode>,
    ) -> (r: Result<(), ErrorCode>)
        ensures
            fragment_subscribed(*old(self), fragment_id, schema, *old(pipeline), built, *final(self), *final(pipeline), r),
    {
        let (tx, rx) = bounded_channel(SUBSCRIBE_CAPACITY);
        let entry = SubscribeFragment {
            fragment_id,
            capacity: SUBSCRIBE_CAPACITY,
            receiver: FragmentReceiver { tx },
        };
        let ghost kept = entry;
        let ghost receivers = self.subscribe_fragments@;
        match find_receiver(&self.subscribe_fragments, fragment_id) {
            Some(at) => {
                proof {
                    lemma_position(receivers, receiver_is(fragment_id));
                }
                self.subscribe_fragments[at] = entry;
            },
            None => {
                self.subscribe_fragments.push(entry);
            },
        }
        assert(self.subscribe_fragments@ =~= put(receivers, receiver_is(fragment_id), kept));
        match find_fragment(&self.fragments_coordinator, fragment_id) {
            Some(at) => {
                proof {
                    lemma_position(self.fragments_coordinator@, fragment_is(fragment_id));
                }
                let mut fragment = self.fragments_coordinator.remove(at);
                match fragment.prepare_pipeline(built) {
                    Ok(()) => {},
                    Err(cause) => {
                        return Err(cause);
                    },
                }
                let ghost prepared = fragment;
                let local = match fragment.pipeline.take() {
                    Some(local) => local,
                    None => {
                        return Err(
                            ErrorCode::new(
                                ErrorKind::LogicalError,
                                "Pipeline is none, maybe query fragment circular dependency.",
                            ),
                        );
                    },
                };
                if fragment.data_exchange.is_none() {
                    *pipeline = local;
                    return Ok(());
                }
                assert(can_exchange(fragment) == can_exchange(prepared));
                let params = match fragment.create_exchange_params(self) {
                    Ok(params) => params,
                    Err(cause) => {
                        return Err(cause);
                    },
                };
                proof {
                    assert(params_of(fragment, self.query_id@, self.executor_id@, params));
                    assert(destinations_of(params) =~= exchange_destinations(prepared));
                    assert(fragment_of(params) == prepared.fragment_id);
                }
                *pipeline = local;
                pipeline.sink_via_exchange(&params);
                let ghost sunk = pipeline.sources@;
                pipeline.source_via_exchange(rx, &params);
                assert(pipeline.sources@.drop_last() =~= sunk);
                Ok(())
            },
            None => {
                let ghost sources = pipeline.sources@;
                pipeline.create_source(rx, fragment_id, schema);
                assert(pipeline.sources@.drop_last() =~= sources);
                Ok(())
            },
        }
    }
}

impl Execution {
    /// Decides what the node that the client asked is told when the executor
    /// has ended with `outcome` and `cause` is the recorded cause of a
    /// shutdown: the failure of the executor, else the cause, and nothing if
    /// no path leads there or if there is no failure. The path is used up by
    /// what is sent.
    pub fn report(&mut self, outcome: Result<(), ErrorCode>, cause: Option<ErrorCode>) -> (signal:
        Option<(String, ErrorCode)>)
        ensures
            signal is Some <==> terminal_signal(
                old(self).request_server_tx is Some,
                outcome,
                cause,
            ) is Some,
            signal is Some ==> Some(signal->Some_0.1) == terminal_signal(
                old(self).request_server_tx is Some,
                outcome,
                cause,
            ) && Some(signal->Some_0.0) == old(self).request_server_tx,
            final(self).request_server_tx is Some == path_after(
                old(self).request_server_tx is Some,
                outcome,
                cause,
            ),
            final(self).request_server_tx is Some ==> final(self).request_server_tx == old(self).request_server_tx,
            final(self).pipelines == old(self).pipelines,
            final(self).receivers == old(self).receivers,
    {
        let mut signal: Option<(String, ErrorCode)> = None;
        match outcome {
            Ok(()) => {},
            Err(failure) => {
                match self.request_server_tx.take() {
                    Some(path) => {
                        signal = Some((path, failure));
                    },
                    None => {},
                }
            },
        }
        match cause {
            None => {},
            Some(recorded) => {
                match self.request_server_tx.take() {
                    Some(path) => {
                        signal = Some((path, recorded));
                    },
                    None => {},
                }
            },
        }
        signal
    }
}

impl QueryCoordinator {
    /// Makes the queue of a task that streams packets of this query to one
    /// destination: the task names this query and this node to the
    /// destination, and its queue holds two packets.
    pub fn spawn_pub_worker(&self) -> (worker: PubWorker)
        ensures
            worker.query_id@ == self.query_id@,
            worker.source@ == self.executor_id@,
            worker.capacity == PUBLISH_CAPACITY,
    {
        let (tx, rx) = bounded_channel(PUBLISH_CAPACITY);
        PubWorker {
            query_id: self.query_id.clone(),
            source: self.executor_id.clone(),
            capacity: PUBLISH_CAPACITY,
            tx,
            rx,
        }
    }

    /// Another handle to the inbound channel of fragment `id`, for the task
    /// that splits what a source node sends by fragment.
    pub fn get_fragment_receiver(&self, id: usize) -> (r: Result<FragmentReceiver, ErrorCode>)
        ensures
            r is Ok <==> present(self.subscribe_fragments@, receiver_is(id)),
            r is Ok ==> r->Ok_0 == self.subscribe_fragments@[position(
                self.subscribe_fragments@,
                receiver_is(id),
            )].receiver,
            r is Err ==> r->Err_0.kind == ErrorKind::NotFound && r->Err_0.message@
                == "Cannot found fragment channel, It's a bug."@,
    {
        match find_receiver(&self.subscribe_fragments, id) {
            Some(at) => {
                proof {
                    lemma_position(self.subscribe_fragments@, receiver_is(id));
                }
                Ok(self.subscribe_fragments[at].receiver.duplicate())
            },
            None => Err(
                ErrorCode::new(ErrorKind::NotFound, "Cannot found fragment channel, It's a bug."),
            ),
        }
    }
}

/// What follows when the connection of a worker has ended: a failed
/// connection ends the whole query, with the failure as the cause.
pub fn connection_ended(outcome: Result<(), ErrorCode>) -> (cause: Option<ErrorCode>)
    ensures
        cause == match outcome {
            Ok(_) => None::<ErrorCode>,
            Err(status) => Some(status),
        },
{
    match outcome {
        Ok(()) => None,
        Err(status) => Some(status),
    }
}

} // verus!
