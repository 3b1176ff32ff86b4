//! The builder that turns a physical plan into the stages of a pipeline.

use vstd::prelude::*;
use crate::error::ErrorCode;
use crate::error::ErrorKind;

verus! {

/// The index of a column in the metadata of a query.
pub type IndexType = usize;

/// What a node of a plan does.
#[derive(Debug, PartialEq, Eq)]
pub enum PlanType {
    /// Reads the given columns of a table.
    PhysicalScan { table_index: IndexType, columns: Vec<IndexType> },
    /// Computes the given columns from the rows of its input.
    Project { items: Vec<IndexType> },
    /// Anything that cannot be run.
    Logical,
}

/// A plan: a node and the plan of its input, if it has one.
#[derive(Debug, PartialEq, Eq)]
pub struct SExpr {
    pub plan: PlanType,
    pub child: Option<Box<SExpr>>,
}

/// A column as the metadata of a query describe it.
#[derive(Debug, PartialEq, Eq)]
pub struct ColumnEntry {
    pub name: String,
    pub nullable: bool,
}

/// The metadata of a query.
#[derive(Debug, PartialEq, Eq)]
pub struct Metadata {
    pub columns: Vec<ColumnEntry>,
}

/// One stage of a pipeline.
#[derive(Debug, PartialEq, Eq)]
pub enum Stage {
    /// Reads a table.
    Source { table_index: IndexType },
    /// Projects its input onto the given columns.
    Projection { columns: Vec<IndexType> },
}

/// A stage as plain values.
pub enum StageView {
    Source(IndexType),
    Projection(Seq<IndexType>),
}

impl View for Stage {
    type V = StageView;

    open spec fn view(&self) -> StageView {
        match self {
            Stage::Source { table_index } => StageView::Source(*table_index),
            Stage::Projection { columns } => StageView::Projection(columns@),
        }
    }
}

/// The stages of a pipeline as plain values.
pub open spec fn stage_views(stages: Seq<Stage>) -> Seq<StageView> {
    Seq::new(stages.len(), |i: int| stages[i]@)
}

/// The builder of the pipeline of one query.
#[derive(Debug, PartialEq, Eq)]
pub struct PipelineBuilder {
    pub metadata: Metadata,
    pub result_columns: Vec<(IndexType, String)>,
    pub expression: SExpr,
    pub pipeline: Vec<Stage>,
}

/// The stages that a plan is built into, or nothing where the plan cannot
/// be run: a scan reads its table and projects onto its columns; a
/// projection follows the stages of its input; a scan has no input and a
/// projection has one.
pub open spec fn stages_of(expression: SExpr) -> Option<Seq<StageView>>
    decreases expression,
{
    match expression.plan {
        PlanType::PhysicalScan { table_index, columns } => match expression.child {
            None => Some(seq![StageView::Source(table_index), StageView::Projection(columns@)]),
            Some(_) => None,
        },
        PlanType::Project { items } => match expression.child {
            None => None,
            Some(input) => match stages_of(*input) {
                None => None,
                Some(before) => Some(before.push(StageView::Projection(items@))),
            },
        },
        PlanType::Logical => None,
    }
}

/// A copy of a list of column indices.
pub fn copy_indices(indices: &Vec<IndexType>) -> (copy: Vec<IndexType>)
    ensures
        copy@ == indices@,
{
    let mut copy: Vec<IndexType> = Vec::new();
    let mut i: usize = 0;
    while i < indices.len()
        invariant
            i <= indices@.len(),
            copy@ == indices@.take(i as int),
        decreases indices@.len() - i,
    {
        copy.push(indices[i]);
        assert(copy@ =~= indices@.take(i + 1));
        i += 1;
    }
    assert(indices@.take(i as int) =~= indices@);
    copy
}

impl PipelineBuilder {
    /// A builder for a plan, with an empty pipeline.
    pub fn new(result_columns: Vec<(IndexType, String)>, metadata: Metadata, expression: SExpr) -> (b:
        PipelineBuilder)
        ensures
            b.metadata == metadata,
            b.result_columns == result_columns,
            b.expression == expression,
            b.pipeline@.len() == 0,
    {
        PipelineBuilder { metadata, result_columns, expression, pipeline: Vec::new() }
    }

    /// Appends the stages of a plan to `pipeline`. A plan that cannot be run
    /// is a logical error; what was appended before it was found stays.
    pub fn build_pipeline(pipeline: &mut Vec<Stage>, expression: &SExpr) -> (r: Result<(), ErrorCode>)
        ensures
            r is Ok <==> stages_of(*expression) is Some,
            r is Ok ==> stage_views(final(pipeline)@) == stage_views(old(pipeline)@) + stages_of(
                *expression,
            )->Some_0,
            r is Err ==> r->Err_0.kind == ErrorKind::LogicalError && r->Err_0.message@
                == "Invalid physical plan"@,
        decreases *expression,
    {
        match &expression.plan {
            PlanType::PhysicalScan { table_index, columns } => {
                if expression.child.is_some() {
                    return Err(ErrorCode::new(ErrorKind::LogicalError, "Invalid physical plan"));
                }
                let ghost before = pipeline@;
                pipeline.push(Stage::Source { table_index: *table_index });
                pipeline.push(Stage::Projection { columns: copy_indices(columns) });
                assert(stage_views(pipeline@) =~= stage_views(before) + stages_of(
                    *expression,
                )->Some_0);
                Ok(())
            },
            PlanType::Project { items } => {
                match &expression.child {
                    None => Err(ErrorCode::new(ErrorKind::LogicalError, "Invalid physical plan")),
                    Some(input) => {
                        let ghost before = pipeline@;
                        match Self::build_pipeline(pipeline, input) {
                            Err(cause) => Err(cause),
                            Ok(()) => {
                                let ghost mid = pipeline@;
                                pipeline.push(Stage::Projection { columns: copy_indices(items) });
                                assert(stage_views(pipeline@) =~= stage_views(mid).push(
                                    StageView::Projection(items@),
                                ));
                                assert(stage_views(pipeline@) =~= stage_views(before) + stages_of(
                                    *expression,
                                )->Some_0);
                                Ok(())
                            },
                        }
                    },
                }
            },
            PlanType::Logical => Err(
                ErrorCode::new(ErrorKind::LogicalError, "Invalid physical plan"),
            ),
        }
    }

    /// Builds the pipeline of the plan of this builder and hands it out,
    /// closed by the projection onto the result columns.
    pub fn spawn(self) -> (r: Result<Vec<Stage>, ErrorCode>)
        ensures
            r is Ok <==> stages_of(self.expression) is Some,
            r is Ok ==> r->Ok_0@.len() == self.pipeline@.len() + stages_of(
                self.expression,
            )->Some_0.len() + 1,
            r is Ok ==> stage_views(r->Ok_0@.drop_last()) == stage_views(self.pipeline@)
                + stages_of(self.expression)->Some_0,
            r is Ok ==> r->Ok_0@.last() is Projection,
            r is Ok ==> r->Ok_0@.last()->Projection_columns@.len() == self.result_columns@.len(),
            r is Ok ==> forall|i: int|
                0 <= i < self.result_columns@.len() ==> #[trigger] r->Ok_0@.last()->Projection_columns@[i]
                    == self.result_columns@[i].0,
            r is Err ==> r->Err_0.kind == ErrorKind::LogicalError,
    {
        let mut pipeline = self.pipeline;
        match Self::build_pipeline(&mut pipeline, &self.expression) {
            Err(cause) => Err(cause),
            Ok(()) => {
                let ghost built = pipeline@;
                assert(stage_views(built).len() == (stage_views(self.pipeline@) + stages_of(
                    self.expression,
                )->Some_0).len());
                let columns = Self::align_data_schema(&self.result_columns);
                pipeline.push(Stage::Projection { columns });
                assert(pipeline@.drop_last() =~= built);
                Ok(pipeline)
            },
        }
    }

    /// The columns of the closing projection: the indices of the result
    /// columns, in their order.
    pub fn align_data_schema(result_columns: &Vec<(IndexType, String)>) -> (columns: Vec<IndexType>)
        ensures
            columns@.len() == result_columns@.len(),
            forall|i: int|
                0 <= i < result_columns@.len() ==> #[trigger] columns@[i] == result_columns@[i].0,
    {
        let mut columns: Vec<IndexType> = Vec::new();
        let mut i: usize = 0;
        while i < result_columns.len()
            invariant
                i <= result_columns@.len(),
                columns@.len() == i,
                forall|k: int| 0 <= k < i ==> #[trigger] columns@[k] == result_columns@[k].0,
            decreases result_columns@.len() - i,
        {
            columns.push(result_columns[i].0);
            i += 1;
        }
        columns
    }
}

} // verus!
