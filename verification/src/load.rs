//! The decisions of a streaming load: which format the upload has, and what
//! a stream of blocks yields.

use vstd::prelude::*;
use vstd::string::StringExecFns;
use crate::error::ErrorCode;
use crate::error::ErrorKind;

verus! {

/// The progress of a load.
#[derive(Clone, Copy, Debug, PartialEq, Eq, Structural)]
pub struct ProgressValues {
    pub rows: usize,
    pub bytes: usize,
}

/// The answer to a streaming load.
#[derive(Debug, PartialEq, Eq)]
pub struct LoadResponse {
    pub id: String,
    pub state: String,
    pub stats: ProgressValues,
    pub error: Option<String>,
}

/// A format in which rows can be uploaded.
#[derive(Clone, Copy, Debug, PartialEq, Eq, Structural)]
pub enum LoadFormat {
    Csv,
    Parquet,
    NdJson,
}

/// What an insert statement reads its rows from.
#[derive(Debug, PartialEq, Eq)]
pub enum InsertInputSource {
    /// The rows are in the statement itself or come from a query.
    Inline,
    /// The rows are uploaded in the named format.
    StreamingWithFormat(String),
}

/// A statement, as far as a streaming load reads it.
#[derive(Debug, PartialEq, Eq)]
pub enum LoadPlan {
    Insert(InsertInputSource),
    /// Any other statement, with its name.
    Other(String),
}

/// The text in lower case.
pub uninterp spec fn lowercase(text: Seq<char>) -> Seq<char>;

/// Calls `to_lowercase` of `str`, which gives the lowercase equivalent of a
/// text.
#[verifier::external_body]
pub(crate) fn to_lowercase(text: &str) -> (lower: String)
    ensures
        lower@ == lowercase(text@),
{
    text.to_lowercase()
}

/// The format that a name stands for, in lower case: `csv`, `parquet`, and
/// `ndjson` or `jsoneachrow`.
pub open spec fn format_named(lower: Seq<char>) -> Option<LoadFormat> {
    if lower == "csv"@ {
        Some(LoadFormat::Csv)
    } else if lower == "parquet"@ {
        Some(LoadFormat::Parquet)
    } else if lower == "ndjson"@ || lower == "jsoneachrow"@ {
        Some(LoadFormat::NdJson)
    } else {
        None
    }
}

/// The message that refuses a format.
pub open spec fn unsupported_format_text(format: Seq<char>) -> Seq<char> {
    "Streaming load only supports csv format, but got "@ + format
}

/// The message that refuses a statement that is no insert.
pub open spec fn not_insert_text(name: Seq<char>) -> Seq<char> {
    "Only supports INSERT statement in streaming load, but got "@ + name
}

/// The format that a name in lower case stands for.
pub fn format_of(lower: &str) -> (format: Option<LoadFormat>)
    ensures
        format == format_named(lower@),
{
    if crate::coordinator::same_text(lower, "csv") {
        Some(LoadFormat::Csv)
    } else if crate::coordinator::same_text(lower, "parquet") {
        Some(LoadFormat::Parquet)
    } else if crate::coordinator::same_text(lower, "ndjson") || crate::coordinator::same_text(
        lower,
        "jsoneachrow",
    ) {
        Some(LoadFormat::NdJson)
    } else {
        None
    }
}

/// The format in which the rows of a statement are uploaded. Only an insert
/// that reads an upload has one, and only in a format that is known, whatever
/// the case of its name: all else is a bad request with a message that says what
/// was found.
pub fn select_format(plan: &LoadPlan) -> (r: Result<LoadFormat, ErrorCode>)
    ensures
        r is Ok <==> plan is Insert && plan->Insert_0 is StreamingWithFormat && format_named(
            lowercase(plan->Insert_0->StreamingWithFormat_0@),
        ) is Some,
        r is Ok ==> Some(r->Ok_0) == format_named(
            lowercase(plan->Insert_0->StreamingWithFormat_0@),
        ),
        r is Err ==> r->Err_0.kind == ErrorKind::BadRequest,
        r is Err ==> r->Err_0.message@ == match *plan {
            LoadPlan::Insert(InsertInputSource::StreamingWithFormat(format)) => unsupported_format_text(
                format@,
            ),
            LoadPlan::Insert(InsertInputSource::Inline) => "Only supports streaming upload. e.g. INSERT INTO $table FORMAT CSV"@,
            LoadPlan::Other(name) => not_insert_text(name@),
        },
{
    match plan {
        LoadPlan::Insert(InsertInputSource::StreamingWithFormat(format)) => {
            let lower = to_lowercase(format.as_str());
            match format_of(lower.as_str()) {
                Some(found) => Ok(found),
                None => {
                    let mut message = String::from_str(
                        "Streaming load only supports csv format, but got ",
                    );
                    message.append(format.as_str());
                    Err(ErrorCode { kind: ErrorKind::BadRequest, message })
                },
            }
        },
        LoadPlan::Insert(InsertInputSource::Inline) => Err(
            ErrorCode::new(
                ErrorKind::BadRequest,
                "Only supports streaming upload. e.g. INSERT INTO $table FORMAT CSV",
            ),
        ),
        LoadPlan::Other(name) => {
            let mut message = String::from_str(
                "Only supports INSERT statement in streaming load, but got ",
            );
            message.append(name.as_str());
            Err(ErrorCode { kind: ErrorKind::BadRequest, message })
        },
    }
}

/// Whether the new execution framework takes a load: it does where it is
/// switched on and the node stands alone.
pub fn uses_new_processor(enabled: u64, cluster_is_empty: bool) -> (b: bool)
    ensures
        b == (enabled != 0 && cluster_is_empty),
{
    enabled != 0 && cluster_is_empty
}

/// What the stream of an upload does with what its source read: it yields a
/// block or a failure and reads on, and it ends when the source is drained.
pub fn stream_step<B>(read: Result<Option<B>, ErrorCode>) -> (step: Option<Result<B, ErrorCode>>)
    ensures
        step == match read {
            Ok(None) => None::<Result<B, ErrorCode>>,
            Ok(Some(block)) => Some(Ok::<B, ErrorCode>(block)),
            Err(cause) => Some(Err::<B, ErrorCode>(cause)),
        },
{
    match read {
        Ok(None) => None,
        Ok(Some(block)) => Some(Ok(block)),
        Err(cause) => Some(Err(cause)),
    }
}

/// The answer to a load that went well.
pub fn success_response(id: String, stats: ProgressValues) -> (response: LoadResponse)
    ensures
        response.id == id,
        response.state@ == "SUCCESS"@,
        response.stats == stats,
        response.error is None,
{
    LoadResponse { id, state: String::from_str("SUCCESS"), stats, error: None }
}

} // verus!
