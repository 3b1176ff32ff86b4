//! The part of a local pipeline that the exchange fabric reads and extends.

use vstd::prelude::*;
use crate::channel::clone_sender;
use crate::packet::DataPacket;
use crate::params::DataSchemaRef;
use crate::params::names_view;
use crate::params::ExchangeParams;

verus! {

/// The handle through which a sink hands the batches of one fragment to the
/// connection of one destination.
#[derive(Debug)]
pub struct FragmentSender {
    pub tx: async_channel::Sender<DataPacket>,
}

impl FragmentSender {
    /// Another handle to the same queue.
    pub fn duplicate(&self) -> (copy: FragmentSender)
        ensures
            copy == *self,
    {
        FragmentSender { tx: clone_sender(&self.tx) }
    }
}

/// The handle through which inbound batches of one fragment reach its source
/// processor.
#[derive(Debug)]
pub struct FragmentReceiver {
    pub tx: async_channel::Sender<DataPacket>,
}

impl FragmentReceiver {
    /// Another handle to the same channel.
    pub fn duplicate(&self) -> (copy: FragmentReceiver)
        ensures
            copy == *self,
    {
        FragmentReceiver { tx: clone_sender(&self.tx) }
    }
}

/// A processor that publishes the output of a fragment to one destination.
#[derive(Debug)]
pub struct ExchangeSinkProcessor {
    pub fragment_id: usize,
    pub destination: String,
    /// The queue of the destination, once the publisher is attached.
    pub sender: Option<FragmentSender>,
}

/// A processor that feeds inbound batches of a fragment into a pipeline.
#[derive(Debug)]
pub struct ExchangeSourceProcessor {
    pub fragment_id: usize,
    pub schema: DataSchemaRef,
    pub rx: async_channel::Receiver<DataPacket>,
}

/// A local pipeline, as far as the fabric is concerned with it.
#[derive(Debug)]
pub struct Pipeline {
    pub max_threads: usize,
    /// Whether the pipeline has at least one stage.
    pub staged: bool,
    /// The input ports of the first stage that nothing feeds.
    pub inputs: usize,
    /// The output ports of the last stage that nothing drains.
    pub outputs: usize,
    pub sinks: Vec<ExchangeSinkProcessor>,
    pub sources: Vec<ExchangeSourceProcessor>,
}

/// The destinations that a sink under `params` sends to, in order.
pub open spec fn destinations_of(params: ExchangeParams) -> Seq<Seq<char>> {
    match params {
        ExchangeParams::MergeExchange(merge) => seq![merge.destination_id@],
        ExchangeParams::ShuffleExchange(shuffle) => names_view(shuffle.destination_ids@),
    }
}

/// The fragment that `params` belong to.
pub open spec fn fragment_of(params: ExchangeParams) -> usize {
    match params {
        ExchangeParams::MergeExchange(merge) => merge.fragment_id,
        ExchangeParams::ShuffleExchange(shuffle) => shuffle.fragment_id,
    }
}

/// Whether `now` is `before` followed by one unattached sink of `fragment`
/// for each of `destinations`.
pub open spec fn sinks_added(
    before: Seq<ExchangeSinkProcessor>,
    now: Seq<ExchangeSinkProcessor>,
    fragment: usize,
    destinations: Seq<Seq<char>>,
) -> bool {
    &&& now.len() == before.len() + destinations.len()
    &&& now.subrange(0, before.len() as int) == before
    &&& forall|i: int|
        0 <= i < destinations.len() ==> {
            let sink = #[trigger] now[before.len() + i];
            sink.fragment_id == fragment && sink.destination@ == destinations[i] && sink.sender
                is None
        }
}

impl Pipeline {
    /// Whether `p` is a pipeline without stages.
    pub open spec fn created(p: Pipeline) -> bool {
        &&& !p.staged
        &&& p.inputs == 0
        &&& p.outputs == 0
        &&& p.max_threads == 0
        &&& p.sinks@.len() == 0
        &&& p.sources@.len() == 0
    }

    /// A pipeline without stages.
    pub fn create() -> (p: Pipeline)
        ensures
            Pipeline::created(p),
    {
        Pipeline {
            max_threads: 0,
            staged: false,
            inputs: 0,
            outputs: 0,
            sinks: Vec::new(),
            sources: Vec::new(),
        }
    }

    /// A pipeline of one stage that produces rows on `outputs` ports.
    pub fn with_source(outputs: usize) -> (p: Pipeline)
        ensures
            p.staged,
            p.inputs == 0,
            p.outputs == outputs,
            p.max_threads == 0,
            p.sinks@.len() == 0,
            p.sources@.len() == 0,
    {
        Pipeline {
            max_threads: 0,
            staged: true,
            inputs: 0,
            outputs,
            sinks: Vec::new(),
            sources: Vec::new(),
        }
    }

    /// Whether a consumer can pull rows from the pipeline.
    pub open spec fn pulling(&self) -> bool {
        self.staged && self.outputs > 0
    }

    /// Whether the pipeline has a source and a sink and no open port.
    pub open spec fn complete(&self) -> bool {
        self.staged && self.inputs == 0 && self.outputs == 0
    }

    /// Whether a consumer can pull rows from the pipeline.
    pub fn is_pulling_pipeline(&self) -> (b: bool)
        ensures
            b == self.pulling(),
    {
        self.staged && self.outputs > 0
    }

    /// Whether the pipeline has a source and a sink and no open port.
    pub fn is_complete_pipeline(&self) -> (b: bool)
        ensures
            b == self.complete(),
    {
        self.staged && self.inputs == 0 && self.outputs == 0
    }

    /// Sets the number of threads that may run the pipeline.
    pub fn set_max_threads(&mut self, max_threads: usize)
        ensures
            *final(self) == (Pipeline { max_threads, ..*old(self) }),
    {
        self.max_threads = max_threads;
    }

    /// Appends the sinks that publish the output under `params`, one for
    /// each destination, none of them attached yet.
    fn add_sinks(&mut self, params: &ExchangeParams)
        ensures
            sinks_added(
                old(self).sinks@,
                final(self).sinks@,
                fragment_of(*params),
                destinations_of(*params),
            ),
            final(self).max_threads == old(self).max_threads,
            final(self).staged == old(self).staged,
            final(self).inputs == old(self).inputs,
            final(self).outputs == old(self).outputs,
            final(self).sources == old(self).sources,
    {
        let ghost before = self.sinks@;
        match params {
            ExchangeParams::MergeExchange(merge) => {
                self.sinks.push(
                    ExchangeSinkProcessor {
                        fragment_id: merge.fragment_id,
                        destination: merge.destination_id.clone(),
                        sender: None,
                    },
                );
                assert(self.sinks@.subrange(0, before.len() as int) =~= before);
            },
            ExchangeParams::ShuffleExchange(shuffle) => {
                let mut i: usize = 0;
                assert(self.sinks@.subrange(0, before.len() as int) =~= before);
                while i < shuffle.destination_ids.len()
                    invariant
                        i <= shuffle.destination_ids@.len(),
                        self.max_threads == old(self).max_threads,
                        self.staged == old(self).staged,
                        self.inputs == old(self).inputs,
                        self.outputs == old(self).outputs,
                        self.sources == old(self).sources,
                        before == old(self).sinks@,
                        sinks_added(
                            before,
                            self.sinks@,
                            shuffle.fragment_id,
                            destinations_of(*params).take(i as int),
                        ),
                        *params == ExchangeParams::ShuffleExchange(*shuffle),
                    decreases shuffle.destination_ids@.len() - i,
                {
                    let ghost earlier = self.sinks@;
                    self.sinks.push(
                        ExchangeSinkProcessor {
                            fragment_id: shuffle.fragment_id,
                            destination: shuffle.destination_ids[i].clone(),
                            sender: None,
                        },
                    );
                    proof {
                        assert(self.sinks@.subrange(0, before.len() as int) =~= earlier.subrange(
                            0,
                            before.len() as int,
                        ));
                        assert forall|k: int| 0 <= k < i + 1 implies {
                            let sink = #[trigger] self.sinks@[before.len() + k];
                            sink.fragment_id == shuffle.fragment_id && sink.destination@
                                == destinations_of(*params).take(i + 1)[k] && sink.sender is None
                        } by {
                            if k < i {
                                assert(self.sinks@[before.len() + k] == earlier[before.len() + k]);
                                assert(destinations_of(*params).take(i as int)[k] == destinations_of(
                                    *params,
                                ).take(i + 1)[k]);
                            }
                        }
                    }
                    i += 1;
                }
                assert(destinations_of(*params).take(i as int) =~= destinations_of(*params));
            },
        }
    }

    /// Closes the pipeline with the sinks that publish its output under
    /// `params`: its output ports are drained from then on.
    pub fn publisher_sink(&mut self, params: &ExchangeParams)
        ensures
            sinks_added(
                old(self).sinks@,
                final(self).sinks@,
                fragment_of(*params),
                destinations_of(*params),
            ),
            final(self).max_threads == old(self).max_threads,
            final(self).staged,
            final(self).inputs == old(self).inputs,
            final(self).outputs == 0,
            final(self).sources == old(self).sources,
    {
        self.add_sinks(params);
        self.staged = true;
        self.outputs = 0;
    }

    /// Lets the output pass through sinks that publish it under `params` and
    /// leaves the output ports open for a local consumer.
    pub fn sink_via_exchange(&mut self, params: &ExchangeParams)
        ensures
            sinks_added(
                old(self).sinks@,
                final(self).sinks@,
                fragment_of(*params),
                destinations_of(*params),
            ),
            final(self).max_threads == old(self).max_threads,
            final(self).staged == old(self).staged,
            final(self).inputs == old(self).inputs,
            final(self).outputs == old(self).outputs,
            final(self).sources == old(self).sources,
    {
        self.add_sinks(params);
    }

    /// Adds a source that feeds the batches arriving on `rx` for `fragment`
    /// into the pipeline, beside what the pipeline produces itself.
    pub fn source_via_exchange(
        &mut self,
        rx: async_channel::Receiver<DataPacket>,
        params: &ExchangeParams,
    )
        ensures
            final(self).sources@ == old(self).sources@.push(
                ExchangeSourceProcessor {
                    fragment_id: fragment_of(*params),
                    schema: match *params {
                        ExchangeParams::MergeExchange(merge) => merge.schema,
                        ExchangeParams::ShuffleExchange(shuffle) => shuffle.schema,
                    },
                    rx,
                },
            ),
            final(self).max_threads == old(self).max_threads,
            final(self).staged == old(self).staged,
            final(self).inputs == old(self).inputs,
            final(self).outputs == old(self).outputs,
            final(self).sinks == old(self).sinks,
    {
        let fragment_id = params.get_fragment_id();
        let schema = params.get_schema();
        self.sources.push(ExchangeSourceProcessor { fragment_id, schema, rx });
    }

    /// Makes the batches arriving on `rx` for `fragment_id` the first stage
    /// of the pipeline, with one output port.
    pub fn create_source(
        &mut self,
        rx: async_channel::Receiver<DataPacket>,
        fragment_id: usize,
        schema: DataSchemaRef,
    )
        ensures
            final(self).sources@ == old(self).sources@.push(
                ExchangeSourceProcessor { fragment_id, schema, rx },
            ),
            final(self).max_threads == old(self).max_threads,
            final(self).staged,
            final(self).inputs == old(self).inputs,
            final(self).outputs == 1,
            final(self).sinks == old(self).sinks,
    {
        self.sources.push(ExchangeSourceProcessor { fragment_id, schema, rx });
        self.staged = true;
        self.outputs = 1;
    }
}

} // verus!
