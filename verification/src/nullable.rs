//! The reader of columns whose rows may be missing.

use vstd::prelude::*;
use crate::binary::le_value;
use crate::binary::read_bool;
use crate::binary::signed32;
use crate::binary::signed64;
use crate::date::DateDeserializer;
use crate::date_time::DateTimeDeserializer;
use crate::error::ErrorCode;
use crate::error::ErrorKind;

verus! {

/// A reader of a column of fixed-width values whose rows are all there.
#[derive(Debug)]
pub enum TypeDeserializerImpl {
    Date(DateDeserializer),
    DateTime(DateTimeDeserializer),
}

/// The rows of a reader of either kind, as numbers.
pub open spec fn rows_of(reader: TypeDeserializerImpl) -> Seq<int> {
    match reader {
        TypeDeserializerImpl::Date(d) => Seq::new(d.builder@.len(), |i: int| d.builder@[i] as int),
        TypeDeserializerImpl::DateTime(d) => Seq::new(
            d.builder@.len(),
            |i: int| d.builder@[i] as int,
        ),
    }
}

/// The width of a value of a reader, in bytes.
pub open spec fn width_of(reader: TypeDeserializerImpl) -> int {
    match reader {
        TypeDeserializerImpl::Date(_) => 4,
        TypeDeserializerImpl::DateTime(_) => 8,
    }
}

/// The value that a reader finds at `at`.
pub open spec fn value_at(reader: TypeDeserializerImpl, bytes: Seq<u8>, at: int) -> int {
    match reader {
        TypeDeserializerImpl::Date(_) => signed32(le_value(bytes, at, 4)),
        TypeDeserializerImpl::DateTime(_) => signed64(le_value(bytes, at, 8)),
    }
}

/// Whether `now` is the reader `before` with one more row of value `v`.
pub open spec fn row_added(before: TypeDeserializerImpl, v: int, now: TypeDeserializerImpl) -> bool {
    &&& rows_of(now) == rows_of(before).push(v)
    &&& match before {
        TypeDeserializerImpl::Date(_) => now is Date,
        TypeDeserializerImpl::DateTime(d) => now is DateTime && now->DateTime_0.tz == d.tz
            && now->DateTime_0.precision == d.precision,
    }
}

impl TypeDeserializerImpl {
    /// The number of rows read so far.
    pub open spec fn rows(&self) -> nat {
        rows_of(*self).len()
    }

    /// Adds a row for a missing value: zero.
    pub fn de_default(&mut self)
        ensures
            row_added(*old(self), 0, *final(self)),
    {
        match self {
            TypeDeserializerImpl::Date(d) => {
                d.de_default();
            },
            TypeDeserializerImpl::DateTime(d) => {
                d.de_default();
            },
        }
        assert(rows_of(*self) =~= rows_of(*old(self)).push(0));
    }

    /// Adds a row for a number: a date keeps its low 32 bits.
    pub fn append_data_value(&mut self, value: i64)
        ensures
            row_added(
                *old(self),
                if *old(self) is Date {
                    (value as i32) as int
                } else {
                    value as int
                },
                *final(self),
            ),
    {
        match self {
            TypeDeserializerImpl::Date(d) => {
                d.append_data_value(value);
            },
            TypeDeserializerImpl::DateTime(d) => {
                d.append_data_value(value);
            },
        }
        assert(rows_of(*self) =~= rows_of(*old(self)).push(
            if *old(self) is Date {
                (value as i32) as int
            } else {
                value as int
            },
        ));
    }

    /// Reads one row at `at` and answers where the next row begins.
    pub fn de_binary(&mut self, reader: &[u8], at: usize) -> (r: Result<usize, ErrorCode>)
        ensures
            r is Ok <==> at + width_of(*old(self)) <= reader@.len(),
            r is Ok ==> r->Ok_0 == at + width_of(*old(self)) && row_added(
                *old(self),
                value_at(*old(self), reader@, at as int),
                *final(self),
            ),
            r is Err ==> r->Err_0.kind == ErrorKind::BadBytes && *final(self) == *old(self),
    {
        let r = match self {
            TypeDeserializerImpl::Date(d) => d.de_binary(reader, at),
            TypeDeserializerImpl::DateTime(d) => d.de_binary(reader, at),
        };
        proof {
            if r is Ok {
                crate::binary::lemma_le_value_bound(
                    reader@,
                    at as int,
                    width_of(*old(self)) as nat,
                );
                assert(rows_of(*self) =~= rows_of(*old(self)).push(
                    value_at(*old(self), reader@, at as int),
                ));
            }
        }
        r
    }
}

/// Whether the bytes spell `null`, in letters of either case.
pub open spec fn null_text(bytes: Seq<u8>) -> bool {
    &&& bytes.len() == 4
    &&& (bytes[0] == 0x6e || bytes[0] == 0x4e)
    &&& (bytes[1] == 0x75 || bytes[1] == 0x55)
    &&& (bytes[2] == 0x6c || bytes[2] == 0x4c)
    &&& (bytes[3] == 0x6c || bytes[3] == 0x4c)
}

/// Whether the bytes spell `null`, in letters of either case.
pub fn is_null_text(bytes: &[u8]) -> (b: bool)
    ensures
        b == null_text(bytes@),
{
    bytes.len() == 4 && (bytes[0] == 0x6e || bytes[0] == 0x4e) && (bytes[1] == 0x75 || bytes[1]
        == 0x55) && (bytes[2] == 0x6c || bytes[2] == 0x4c) && (bytes[3] == 0x6c || bytes[3] == 0x4c)
}

/// The reader of a column whose rows may be missing: beside the values it
/// keeps, for each row, whether the row is there.
#[derive(Debug)]
pub struct NullableDeserializer {
    pub inner: Box<TypeDeserializerImpl>,
    pub bitmap: Vec<bool>,
}

impl NullableDeserializer {
    /// Reads one row: a byte that says whether the value is there, and the
    /// value if it is. Answers where the next row begins. A row that is cut
    /// short is bad bytes and adds nothing.
    pub fn de_binary(&mut self, reader: &[u8], at: usize) -> (r: Result<usize, ErrorCode>)
        ensures
            r is Ok <==> at < reader@.len() && (reader@[at as int] == 0 || at + 1 + width_of(
                *old(self).inner,
            ) <= reader@.len()),
            r is Ok ==> final(self).bitmap@ == old(self).bitmap@.push(reader@[at as int] != 0),
            r is Ok && reader@[at as int] == 0 ==> r->Ok_0 == at + 1 && row_added(
                *old(self).inner,
                0,
                *final(self).inner,
            ),
            r is Ok && reader@[at as int] != 0 ==> r->Ok_0 == at + 1 + width_of(*old(self).inner)
                && row_added(
                *old(self).inner,
                value_at(*old(self).inner, reader@, at + 1),
                *final(self).inner,
            ),
            r is Err ==> r->Err_0.kind == ErrorKind::BadBytes && *final(self) == *old(self),
    {
        let total: usize = reader.len();
        let valid = match read_bool(reader, at) {
            Ok(valid) => valid,
            Err(cause) => {
                return Err(cause);
            },
        };
        let next = if valid {
            match self.inner.de_binary(reader, at + 1) {
                Ok(next) => next,
                Err(cause) => {
                    return Err(cause);
                },
            }
        } else {
            self.inner.de_default();
            at + 1
        };
        self.bitmap.push(valid);
        Ok(next)
    }

    /// Adds a missing row.
    pub fn de_default(&mut self)
        ensures
            final(self).bitmap@ == old(self).bitmap@.push(false),
            row_added(*old(self).inner, 0, *final(self).inner),
    {
        self.inner.de_default();
        self.bitmap.push(false);
    }

    /// Adds a missing row and says that a missing row can be taken.
    pub fn de_null(&mut self) -> (taken: bool)
        ensures
            taken,
            final(self).bitmap@ == old(self).bitmap@.push(false),
            row_added(*old(self).inner, 0, *final(self).inner),
    {
        self.inner.de_default();
        self.bitmap.push(false);
        true
    }

    /// Adds a row: a missing one for no value, and else the value.
    pub fn append_data_value(&mut self, value: Option<i64>)
        ensures
            final(self).bitmap@ == old(self).bitmap@.push(value is Some),
            row_added(
                *old(self).inner,
                match value {
                    None => 0,
                    Some(v) => if *old(self).inner is Date {
                        (v as i32) as int
                    } else {
                        v as int
                    },
                },
                *final(self).inner,
            ),
    {
        match value {
            None => {
                self.inner.de_default();
                self.bitmap.push(false);
            },
            Some(v) => {
                self.inner.append_data_value(v);
                self.bitmap.push(true);
            },
        }
    }

    /// Hands out, for each row read so far, whether the row is there, and
    /// starts that record anew.
    pub fn finish_to_column(&mut self) -> (bitmap: Vec<bool>)
        ensures
            bitmap@ == old(self).bitmap@,
            final(self).bitmap@.len() == 0,
            final(self).inner == old(self).inner,
    {
        let mut bitmap: Vec<bool> = Vec::new();
        std::mem::swap(&mut bitmap, &mut self.bitmap);
        bitmap
    }
}

} // verus!
