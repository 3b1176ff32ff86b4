//! The coordinator of one fragment on one node.

use vstd::prelude::*;
use crate::coordinator::QueryCoordinator;
use crate::error::ErrorCode;
use crate::error::ErrorKind;
use crate::params::copy_names;
use crate::params::names_view;
use crate::params::DataExchange;
use crate::params::DataSchemaRef;
use crate::params::ExchangeParams;
use crate::params::MergeExchangeParams;
use crate::params::ShuffleExchangeParams;
use crate::pipeline::Pipeline;
use crate::scatter::HashScatter;

verus! {

/// The plan of a fragment, as far as the fabric reads it.
#[derive(Clone, Copy, Debug, PartialEq, Eq, Structural)]
pub struct PlanNode {
    pub schema: DataSchemaRef,
}

impl PlanNode {
    /// The schema of the rows that the plan produces.
    pub fn schema(&self) -> (schema: DataSchemaRef)
        ensures
            schema == self.schema,
    {
        self.schema
    }
}

/// A fragment as the coordinating node describes it to a worker.
#[derive(Debug, PartialEq, Eq)]
pub struct FragmentPacket {
    pub node: PlanNode,
    pub fragment_id: usize,
    /// Where the output goes; none for the fragment that feeds the client.
    pub data_exchange: Option<DataExchange>,
}

/// The state of one fragment on this node.
#[derive(Debug)]
pub struct FragmentCoordinator {
    pub node: PlanNode,
    /// Whether building the local pipeline has been started.
    pub initialized: bool,
    pub fragment_id: usize,
    pub data_exchange: Option<DataExchange>,
    pub pipeline: Option<Pipeline>,
}

/// Whether `params` are the sink parameters of the fragment `fragment` in a
/// query `query_id` that runs on the node `executor_id`.
pub open spec fn params_of(
    fragment: FragmentCoordinator,
    query_id: Seq<char>,
    executor_id: Seq<char>,
    params: ExchangeParams,
) -> bool {
    match fragment.data_exchange {
        None => false,
        Some(DataExchange::Merge(exchange)) => {
            &&& params is MergeExchange
            &&& params->MergeExchange_0.schema == fragment.node.schema
            &&& params->MergeExchange_0.fragment_id == fragment.fragment_id
            &&& params->MergeExchange_0.query_id@ == query_id
            &&& params->MergeExchange_0.destination_id@ == exchange.destination_id@
        },
        Some(DataExchange::ShuffleDataExchange(exchange)) => {
            &&& params is ShuffleExchange
            &&& params->ShuffleExchange_0.schema == fragment.node.schema
            &&& params->ShuffleExchange_0.fragment_id == fragment.fragment_id
            &&& params->ShuffleExchange_0.query_id@ == query_id
            &&& params->ShuffleExchange_0.executor_id@ == executor_id
            &&& names_view(params->ShuffleExchange_0.destination_ids@) == names_view(
                exchange.destination_ids@,
            )
            &&& params->ShuffleExchange_0.shuffle_scatter.destinations()
                == exchange.destination_ids@.len()
        },
    }
}

/// Whether the fragment has a destination policy that a sink can follow: a
/// merge, or a shuffle over at least one destination.
pub open spec fn can_exchange(fragment: FragmentCoordinator) -> bool {
    match fragment.data_exchange {
        None => false,
        Some(DataExchange::Merge(_)) => true,
        Some(DataExchange::ShuffleDataExchange(exchange)) => exchange.destination_ids@.len() > 0,
    }
}

impl FragmentCoordinator {
    /// The coordinator of a fragment that has not been prepared.
    pub fn create(packet: &FragmentPacket) -> (fragment: Box<FragmentCoordinator>)
        ensures
            !fragment.initialized,
            fragment.node == packet.node,
            fragment.fragment_id == packet.fragment_id,
            fragment.pipeline is None,
            fragment.data_exchange is Some == packet.data_exchange is Some,
            fragment.data_exchange is Some ==> fragment.data_exchange->Some_0@
                == packet.data_exchange->Some_0@,
    {
        let data_exchange = match &packet.data_exchange {
            None => None,
            Some(exchange) => Some(exchange.duplicate()),
        };
        Box::new(
            FragmentCoordinator {
                initialized: false,
                node: packet.node,
                fragment_id: packet.fragment_id,
                data_exchange,
                pipeline: None,
            },
        )
    }

    /// The parameters of the sink that publishes the output of this
    /// fragment. A fragment without a destination policy has none, and there
    /// is no shuffle over no destination: both are logical errors.
    pub fn create_exchange_params(&self, query: &QueryCoordinator) -> (r: Result<
        ExchangeParams,
        ErrorCode,
    >)
        ensures
            r is Ok <==> can_exchange(*self),
            r is Ok ==> params_of(*self, query.query_id@, query.executor_id@, r->Ok_0) && (r->Ok_0).wf(),
            r is Err ==> r->Err_0.kind == ErrorKind::LogicalError,
            r is Err && self.data_exchange is None ==> r->Err_0.message@
                == "Cannot found data exchange."@,
    {
        match &self.data_exchange {
            None => Err(ErrorCode::new(ErrorKind::LogicalError, "Cannot found data exchange.")),
            Some(DataExchange::Merge(exchange)) => Ok(
                ExchangeParams::MergeExchange(
                    MergeExchangeParams {
                        schema: self.node.schema(),
                        fragment_id: self.fragment_id,
                        query_id: query.query_id.clone(),
                        destination_id: exchange.destination_id.clone(),
                    },
                ),
            ),
            Some(DataExchange::ShuffleDataExchange(exchange)) => {
                match HashScatter::try_create(exchange.destination_ids.len()) {
                    Err(cause) => Err(cause),
                    Ok(shuffle_scatter) => Ok(
                        ExchangeParams::ShuffleExchange(
                            ShuffleExchangeParams {
                                schema: self.node.schema(),
                                fragment_id: self.fragment_id,
                                query_id: query.query_id.clone(),
                                executor_id: query.executor_id.clone(),
                                destination_ids: copy_names(&exchange.destination_ids),
                                shuffle_scatter,
                            },
                        ),
                    ),
                }
            },
        }
    }

    /// Installs the local pipeline of the fragment, once. `built` is what the
    /// pipeline builder made of the plan; it counts only on the first call.
    /// A failed build leaves the fragment without a pipeline for good.
    pub fn prepare_pipeline(&mut self, built: Result<Pipeline, ErrorCode>) -> (r: Result<
        (),
        ErrorCode,
    >)
        ensures
            final(self).initialized,
            final(self).node == old(self).node,
            final(self).fragment_id == old(self).fragment_id,
            final(self).data_exchange == old(self).data_exchange,
            old(self).initialized ==> r is Ok && final(self).pipeline == old(self).pipeline,
            !old(self).initialized && built is Ok ==> r is Ok && final(self).pipeline == Some(
                built->Ok_0,
            ),
            !old(self).initialized && built is Err ==> r == Err::<(), ErrorCode>(built->Err_0)
                && final(self).pipeline == old(self).pipeline,
    {
        if !self.initialized {
            self.initialized = true;
            match built {
                Ok(pipeline) => {
                    self.pipeline = Some(pipeline);
                },
                Err(cause) => {
                    return Err(cause);
                },
            }
        }
        Ok(())
    }
}

} // verus!
