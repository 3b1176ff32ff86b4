//! The type of columns that hold objects of a semi-structured document.

use std::sync::Arc;
use vstd::prelude::*;
use vstd::string::StringExecFns;
use crate::data_type::ArrowExtension;
use crate::data_type::DataTypeImpl;
use crate::data_type::TypeID;
use crate::error::ErrorCode;
use crate::error::ErrorKind;

verus! {

/// The type of object columns.
#[derive(Clone, Copy, Debug, PartialEq, Eq, Structural)]
pub struct VariantObjectType {}

impl VariantObjectType {
    /// The object type, as a shared data type.
    pub fn arc() -> (t: Arc<DataTypeImpl>)
        ensures
            *t == DataTypeImpl::VariantObject(VariantObjectType {  }),
    {
        Arc::new(DataTypeImpl::VariantObject(VariantObjectType {  }))
    }

    /// The id of the type.
    pub fn data_type_id(&self) -> (id: TypeID)
        ensures
            id == TypeID::VariantObject,
    {
        TypeID::VariantObject
    }

    /// The name of the type.
    pub fn name(&self) -> (name: String)
        ensures
            name@ == "Object"@,
    {
        String::from_str("Object")
    }

    /// What a columnar file records of this type beside its storage type:
    /// the name `VariantObject` and nothing more.
    pub fn custom_arrow_meta(&self) -> (meta: ArrowExtension)
        ensures
            meta.name@ == "VariantObject"@,
            meta.meta is None,
    {
        ArrowExtension { name: String::from_str("VariantObject"), meta: None }
    }
}

/// A value of a semi-structured document.
#[verifier::external_type_specification]
#[verifier::external_body]
pub struct ExValue(serde_json::Value);

/// The failure to read a document.
#[verifier::external_type_specification]
#[verifier::external_body]
pub struct ExJsonError(serde_json::Error);

/// Whether the bytes are the text of one document.
pub uninterp spec fn json_text(bytes: Seq<u8>) -> bool;

/// Calls `serde_json::from_slice` for a `Value`, which reads the bytes as
/// the text of one document and fails where they are not.
#[verifier::external_body]
pub(crate) fn json_from_slice(bytes: &[u8]) -> (r: Result<serde_json::Value, serde_json::Error>)
    ensures
        r is Ok <==> json_text(bytes@),
{
    serde_json::from_slice(bytes)
}

/// Makes the variant `Null` of `serde_json::Value`. Nothing is claimed of
/// it.
#[verifier::external_body]
pub(crate) fn json_null() -> (value: serde_json::Value) {
    serde_json::Value::Null
}

/// Calls `clone` of `serde_json::Value`, which copies the document: the
/// copy equals the document that it was made of.
#[verifier::external_body]
pub(crate) fn json_clone(value: &serde_json::Value) -> (copy: serde_json::Value)
    ensures
        copy == *value,
{
    value.clone()
}

/// Whether a row of a batch begins within the bytes and runs to their end
/// as the text of one document.
pub open spec fn row_is_json(reader: Seq<u8>, step: int, row: int) -> bool {
    &&& step * row <= reader.len()
    &&& json_text(reader.subrange(step * row, reader.len() as int))
}

/// The reader of an object column: it gathers one document for each row.
#[derive(Debug)]
pub struct VariantDeserializer {
    pub buffer: Vec<u8>,
    pub builder: Vec<serde_json::Value>,
}

impl VariantDeserializer {
    /// A reader with room for `capacity` rows.
    pub fn with_capacity(capacity: usize) -> (d: VariantDeserializer)
        ensures
            d.builder@.len() == 0,
            d.buffer@.len() == 0,
    {
        VariantDeserializer { buffer: Vec::new(), builder: Vec::with_capacity(capacity) }
    }

    /// Adds a row for a missing value: the null document.
    pub fn de_default(&mut self)
        ensures
            final(self).builder@.len() == old(self).builder@.len() + 1,
            final(self).builder@.drop_last() == old(self).builder@,
            final(self).buffer == old(self).buffer,
    {
        let ghost before = self.builder@;
        self.builder.push(json_null());
        assert(self.builder@.drop_last() =~= before);
    }

    /// Adds a row for a document.
    pub fn de_json(&mut self, value: &serde_json::Value)
        ensures
            final(self).builder@ == old(self).builder@.push(*value),
            final(self).buffer == old(self).buffer,
    {
        self.builder.push(json_clone(value));
    }

    /// Adds a row for the document that the bytes are the text of. Bytes
    /// that are not the text of one document are bad bytes.
    pub fn de_whole_text(&mut self, reader: &[u8]) -> (r: Result<(), ErrorCode>)
        ensures
            r is Ok <==> json_text(reader@),
            r is Ok ==> final(self).builder@.len() == old(self).builder@.len() + 1 && final(self).builder@.drop_last() == old(self).builder@,
            r is Err ==> r->Err_0.kind == ErrorKind::BadBytes && final(self).builder@ == old(self).builder@,
            final(self).buffer == old(self).buffer,
    {
        let ghost before = self.builder@;
        match json_from_slice(reader) {
            Ok(value) => {
                self.builder.push(value);
                assert(self.builder@.drop_last() =~= before);
                Ok(())
            },
            Err(_) => Err(ErrorCode::new(ErrorKind::BadBytes, "Incorrect json value")),
        }
    }

    /// Reads `rows` documents that begin `step` bytes apart and each run to
    /// the end of the bytes, up to the first row that begins behind the end
    /// or is not the text of one document.
    pub fn de_fixed_binary_batch(&mut self, reader: &[u8], step: usize, rows: usize) -> (r: Result<
        (),
        ErrorCode,
    >)
        ensures
            r is Ok <==> forall|row: int| 0 <= row < rows ==> #[trigger] row_is_json(reader@, step as int, row),
            r is Ok ==> final(self).builder@.len() == old(self).builder@.len() + rows,
            r is Err ==> r->Err_0.kind == ErrorKind::BadBytes && exists|stop: int|
                {
                    &&& 0 <= stop < rows
                    &&& !row_is_json(reader@, step as int, stop)
                    &&& forall|row: int| 0 <= row < stop ==> #[trigger] row_is_json(reader@, step as int, row)
                    &&& final(self).builder@.len() == old(self).builder@.len() + stop
                },
            final(self).builder@.subrange(0, old(self).builder@.len() as int) == old(self).builder@,
            final(self).buffer == old(self).buffer,
    {
        let total: usize = reader.len();
        let ghost first = self.builder@;
        let mut row: usize = 0;
        while row < rows
            invariant
                row <= rows,
                total == reader@.len(),
                first == old(self).builder@,
                forall|k: int| 0 <= k < row ==> #[trigger] row_is_json(reader@, step as int, k),
                self.builder@.len() == first.len() + row,
                self.builder@.subrange(0, first.len() as int) == first,
                self.buffer == old(self).buffer,
            decreases rows - row,
        {
            let ghost before = self.builder@;
            let at = match step.checked_mul(row) {
                Some(at) => at,
                None => {
                    assert(!row_is_json(reader@, step as int, row as int));
                    return Err(ErrorCode::new(ErrorKind::BadBytes, "Incorrect json value"));
                },
            };
            if at > total {
                assert(!row_is_json(reader@, step as int, row as int));
                return Err(ErrorCode::new(ErrorKind::BadBytes, "Incorrect json value"));
            }
            let rest = vstd::slice::slice_subrange(reader, at, total);
            match json_from_slice(rest) {
                Ok(value) => {
                    self.builder.push(value);
                },
                Err(_) => {
                    assert(!row_is_json(reader@, step as int, row as int));
                    return Err(ErrorCode::new(ErrorKind::BadBytes, "Incorrect json value"));
                },
            }
            assert(row_is_json(reader@, step as int, row as int));
            assert(self.builder@.subrange(0, first.len() as int) =~= before.subrange(
                0,
                first.len() as int,
            ));
            row += 1;
        }
        Ok(())
    }

    /// Hands out the rows read so far and starts anew.
    pub fn finish_to_column(&mut self) -> (column: Vec<serde_json::Value>)
        ensures
            column@ == old(self).builder@,
            final(self).builder@.len() == 0,
            final(self).buffer == old(self).buffer,
    {
        let mut column: Vec<serde_json::Value> = Vec::new();
        std::mem::swap(&mut column, &mut self.builder);
        column
    }
}

} // verus!
