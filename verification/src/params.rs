//! Where the output of a fragment goes, and how a sink sends it there.

use vstd::prelude::*;
use crate::packet::DataBlock;
use crate::scatter::bucket_block;
use crate::scatter::law_single_bucket_keeps_all;
use crate::scatter::HashScatter;

verus! {

/// A handle to the schema of a row batch. The fabric carries it and never
/// looks inside.
#[derive(Clone, Copy, Debug, PartialEq, Eq, Structural)]
pub struct DataSchemaRef {
    pub id: u64,
}

/// The policy that sends all output of a fragment to one node.
#[derive(Debug, PartialEq, Eq)]
pub struct MergeExchange {
    pub destination_id: String,
}

/// The policy that splits the output of a fragment over several nodes by the
/// hash of a partition expression.
#[derive(Debug, PartialEq, Eq)]
pub struct ShuffleDataExchange {
    pub destination_ids: Vec<String>,
    pub exchange_expression: String,
}

/// The destination policy of a fragment.
#[derive(Debug, PartialEq, Eq)]
pub enum DataExchange {
    Merge(MergeExchange),
    ShuffleDataExchange(ShuffleDataExchange),
}

/// What a sink needs to send everything to one node.
#[derive(Debug, PartialEq, Eq)]
pub struct MergeExchangeParams {
    pub schema: DataSchemaRef,
    pub fragment_id: usize,
    pub query_id: String,
    pub destination_id: String,
}

/// What a sink needs to split its output over several nodes.
#[derive(Debug, PartialEq, Eq)]
pub struct ShuffleExchangeParams {
    pub schema: DataSchemaRef,
    pub fragment_id: usize,
    pub query_id: String,
    pub executor_id: String,
    pub destination_ids: Vec<String>,
    pub shuffle_scatter: HashScatter,
}

/// The parameters of a sink.
#[derive(Debug, PartialEq, Eq)]
pub enum ExchangeParams {
    MergeExchange(MergeExchangeParams),
    ShuffleExchange(ShuffleExchangeParams),
}

/// One batch on its way to one node.
#[derive(Debug, PartialEq, Eq)]
pub struct Delivery {
    pub destination: String,
    pub block: DataBlock,
}

impl View for Delivery {
    type V = (Seq<char>, Seq<u64>);

    open spec fn view(&self) -> (Seq<char>, Seq<u64>) {
        (self.destination@, self.block@)
    }
}

/// The names that a list holds, each as its text.
pub open spec fn names_view(names: Seq<String>) -> Seq<Seq<char>> {
    Seq::new(names.len(), |i: int| names[i]@)
}

/// A copy of a list of names.
pub fn copy_names(names: &Vec<String>) -> (copy: Vec<String>)
    ensures
        copy@ == names@,
        names_view(copy@) == names_view(names@),
{
    let mut copy: Vec<String> = Vec::new();
    let mut i: usize = 0;
    while i < names.len()
        invariant
            i <= names@.len(),
            copy@ == names@.take(i as int),
        decreases names@.len() - i,
    {
        copy.push(names[i].clone());
        assert(copy@ =~= names@.take(i + 1));
        i += 1;
    }
    assert(names@.take(i as int) =~= names@);
    copy
}

/// A destination policy as plain values.
pub enum DataExchangeView {
    /// Everything to the named node.
    Merge(Seq<char>),
    /// Split over the named nodes by the hash of the expression.
    Shuffle(Seq<Seq<char>>, Seq<char>),
}

impl View for DataExchange {
    type V = DataExchangeView;

    open spec fn view(&self) -> DataExchangeView {
        match self {
            DataExchange::Merge(merge) => DataExchangeView::Merge(merge.destination_id@),
            DataExchange::ShuffleDataExchange(shuffle) => DataExchangeView::Shuffle(
                names_view(shuffle.destination_ids@),
                shuffle.exchange_expression@,
            ),
        }
    }
}

impl DataExchange {
    /// A copy of this policy.
    pub fn duplicate(&self) -> (copy: DataExchange)
        ensures
            copy@ == self@,
    {
        match self {
            DataExchange::Merge(merge) => DataExchange::Merge(
                MergeExchange { destination_id: merge.destination_id.clone() },
            ),
            DataExchange::ShuffleDataExchange(shuffle) => {
                let destination_ids = copy_names(&shuffle.destination_ids);
                DataExchange::ShuffleDataExchange(
                    ShuffleDataExchange {
                        destination_ids,
                        exchange_expression: shuffle.exchange_expression.clone(),
                    },
                )
            },
        }
    }
}

impl ShuffleExchangeParams {
    /// The split has one bucket for each destination.
    pub open spec fn wf(&self) -> bool {
        self.shuffle_scatter.destinations() == self.destination_ids@.len()
    }
}

impl ExchangeParams {
    /// The parameters are consistent.
    pub open spec fn wf(&self) -> bool {
        match self {
            ExchangeParams::MergeExchange(_) => true,
            ExchangeParams::ShuffleExchange(shuffle) => shuffle.wf(),
        }
    }

    /// The fragment whose output these parameters direct.
    pub fn get_fragment_id(&self) -> (id: usize)
        ensures
            id == match self {
                ExchangeParams::MergeExchange(merge) => merge.fragment_id,
                ExchangeParams::ShuffleExchange(shuffle) => shuffle.fragment_id,
            },
    {
        match self {
            ExchangeParams::MergeExchange(merge) => merge.fragment_id,
            ExchangeParams::ShuffleExchange(shuffle) => shuffle.fragment_id,
        }
    }

    /// The schema of the batches that the sink sends.
    pub fn get_schema(&self) -> (schema: DataSchemaRef)
        ensures
            schema == match self {
                ExchangeParams::MergeExchange(merge) => merge.schema,
                ExchangeParams::ShuffleExchange(shuffle) => shuffle.schema,
            },
    {
        match self {
            ExchangeParams::MergeExchange(merge) => merge.schema,
            ExchangeParams::ShuffleExchange(shuffle) => shuffle.schema,
        }
    }
}

/// The deliveries that a sink makes of one batch: under merge the whole
/// batch to the one destination; under shuffle, to each destination the rows
/// of its bucket.
pub open spec fn routed(params: ExchangeParams, rows: Seq<u64>) -> Seq<(Seq<char>, Seq<u64>)> {
    match params {
        ExchangeParams::MergeExchange(merge) => seq![(merge.destination_id@, rows)],
        ExchangeParams::ShuffleExchange(shuffle) => Seq::new(
            shuffle.destination_ids@.len(),
            |b: int| (shuffle.destination_ids@[b]@, bucket_block(rows, shuffle.destination_ids@.len(), b as nat)),
        ),
    }
}

/// Sends one batch the way the parameters direct.
pub fn route_block(params: &ExchangeParams, block: DataBlock) -> (deliveries: Vec<Delivery>)
    requires
        params.wf(),
    ensures
        deliveries@.len() == routed(*params, block@).len(),
        forall|b: int|
            0 <= b < deliveries@.len() ==> (#[trigger] deliveries@[b])@ == routed(*params, block@)[b],
{
    let mut deliveries: Vec<Delivery> = Vec::new();
    match params {
        ExchangeParams::MergeExchange(merge) => {
            deliveries.push(Delivery { destination: merge.destination_id.clone(), block });
        },
        ExchangeParams::ShuffleExchange(shuffle) => {
            let mut parts = shuffle.shuffle_scatter.execute(&block);
            let ghost split = parts@;
            let count: usize = shuffle.destination_ids.len();
            let mut b: usize = 0;
            while b < count
                invariant
                    b <= count,
                    count == shuffle.destination_ids@.len(),
                    parts@.len() == count,
                    split.len() == count,
                    deliveries@.len() == b,
                    forall|c: int| b <= c < count ==> #[trigger] parts@[c] == split[c],
                    forall|c: int|
                        0 <= c < b ==> (#[trigger] deliveries@[c])@ == (
                            shuffle.destination_ids@[c]@,
                            split[c]@,
                        ),
                decreases count - b,
            {
                let mut taken = DataBlock { rows: Vec::new() };
                std::mem::swap(&mut taken, &mut parts[b]);
                deliveries.push(Delivery { destination: shuffle.destination_ids[b].clone(), block: taken });
                b += 1;
            }
        },
    }
    deliveries
}

/// Merging to one node and shuffling over that node alone deliver the same:
/// every row of every batch goes to that node, in the order of the batch.
pub proof fn law_merge_is_single_shuffle(
    merge: MergeExchangeParams,
    shuffle: ShuffleExchangeParams,
    rows: Seq<u64>,
)
    requires
        shuffle.destination_ids@.len() == 1,
        shuffle.destination_ids@[0]@ == merge.destination_id@,
    ensures
        routed(ExchangeParams::ShuffleExchange(shuffle), rows) == routed(
            ExchangeParams::MergeExchange(merge),
            rows,
        ),
        routed(ExchangeParams::ShuffleExchange(shuffle), rows) == seq![(merge.destination_id@, rows)],
{
    law_single_bucket_keeps_all(rows);
    assert(routed(ExchangeParams::ShuffleExchange(shuffle), rows) =~= seq![
        (merge.destination_id@, rows),
    ]);
}

} // verus!
