//! The reader of timestamp columns.

use vstd::prelude::*;
use crate::binary::le_value;
use crate::binary::read_i64;
use crate::binary::signed64;
use crate::date::row_fits;
use crate::error::ErrorCode;
use crate::error::ErrorKind;
use crate::timestamp::div_to_zero;

verus! {

/// A time zone of the zone database.
#[verifier::external_type_specification]
#[verifier::external_body]
pub struct ExTz(chrono_tz::Tz);

/// Whether the zone database has a zone of this name.
pub uninterp spec fn zone_known(name: Seq<char>) -> bool;

/// Calls `from_str` of `chrono_tz::Tz`, which looks a name up in the zone
/// database and fails on a name that the database does not have.
#[verifier::external_body]
pub(crate) fn parse_zone(name: &str) -> (zone: Option<chrono_tz::Tz>)
    ensures
        zone is Some <==> zone_known(name@),
{
    name.parse::<chrono_tz::Tz>().ok()
}

/// The ticks of `nanos` nanoseconds at a precision: seconds at 0,
/// milliseconds at 3, microseconds at 6, and nanoseconds at any other.
pub open spec fn uniform_ticks(nanos: i64, precision: usize) -> int {
    if precision == 0 {
        div_to_zero(nanos as int, 1_000_000_000)
    } else if precision == 3 {
        div_to_zero(nanos as int, 1_000_000)
    } else if precision == 6 {
        div_to_zero(nanos as int, 1_000)
    } else {
        nanos as int
    }
}

/// Brings a count of nanoseconds to the precision of a column.
pub fn uniform(nanos: i64, precision: usize) -> (ticks: i64)
    ensures
        ticks == uniform_ticks(nanos, precision),
{
    if precision == 0 {
        nanos / 1_000_000_000
    } else if precision == 3 {
        nanos / 1_000_000
    } else if precision == 6 {
        nanos / 1_000
    } else {
        nanos
    }
}

/// The values of the rows `from` up to `to` of a batch of fixed-width rows,
/// each read as a signed number of 64 bits at the start of its row.
pub open spec fn batch_values64(reader: Seq<u8>, step: int, from: int, to: int) -> Seq<i64> {
    Seq::new((to - from) as nat, |k: int| signed64(le_value(reader, step * (from + k), 8)) as i64)
}

/// The reader of a timestamp column: it gathers the ticks since the epoch,
/// one for each row.
#[derive(Debug)]
pub struct DateTimeDeserializer {
    pub builder: Vec<i64>,
    pub tz: chrono_tz::Tz,
    pub precision: usize,
}

impl DateTimeDeserializer {
    /// Reads one row from the eight bytes at `at` and answers where the next
    /// row begins.
    pub fn de_binary(&mut self, reader: &[u8], at: usize) -> (r: Result<usize, ErrorCode>)
        ensures
            r is Ok <==> at + 8 <= reader@.len(),
            r is Ok ==> r->Ok_0 == at + 8 && final(self).builder@ == old(self).builder@.push(
                signed64(le_value(reader@, at as int, 8)) as i64,
            ),
            r is Err ==> r->Err_0.kind == ErrorKind::BadBytes && *final(self) == *old(self),
            final(self).tz == old(self).tz,
            final(self).precision == old(self).precision,
    {
        let total: usize = reader.len();
        match read_i64(reader, at) {
            Ok(value) => {
                assert(at + 8 <= total);
                self.builder.push(value);
                Ok(at + 8)
            },
            Err(cause) => Err(cause),
        }
    }

    /// Adds a row for a missing value: the epoch.
    pub fn de_default(&mut self)
        ensures
            final(self).builder@ == old(self).builder@.push(0i64),
            final(self).tz == old(self).tz,
            final(self).precision == old(self).precision,
    {
        self.builder.push(0);
    }

    /// Reads `rows` rows that lie `step` bytes apart, up to the first row
    /// that does not hold eight bytes.
    pub fn de_fixed_binary_batch(&mut self, reader: &[u8], step: usize, rows: usize) -> (r: Result<
        (),
        ErrorCode,
    >)
        ensures
            r is Ok <==> forall|row: int|
                0 <= row < rows ==> #[trigger] row_fits(reader@, step as int, row, 8),
            r is Ok ==> final(self).builder@ == old(self).builder@ + batch_values64(
                reader@,
                step as int,
                0,
                rows as int,
            ),
            r is Err ==> r->Err_0.kind == ErrorKind::BadBytes && exists|stop: int|
                {
                    &&& 0 <= stop < rows
                    &&& !row_fits(reader@, step as int, stop, 8)
                    &&& forall|row: int|
                        0 <= row < stop ==> #[trigger] row_fits(reader@, step as int, row, 8)
                    &&& final(self).builder@ == old(self).builder@ + batch_values64(
                        reader@,
                        step as int,
                        0,
                        stop,
                    )
                },
            final(self).tz == old(self).tz,
            final(self).precision == old(self).precision,
    {
        let total: usize = reader.len();
        let mut row: usize = 0;
        while row < rows
            invariant
                row <= rows,
                total == reader@.len(),
                forall|k: int| 0 <= k < row ==> #[trigger] row_fits(reader@, step as int, k, 8),
                self.builder@ == old(self).builder@ + batch_values64(
                    reader@,
                    step as int,
                    0,
                    row as int,
                ),
                self.tz == old(self).tz,
                self.precision == old(self).precision,
            decreases rows - row,
        {
            let at = match step.checked_mul(row) {
                Some(at) => at,
                None => {
                    assert(!row_fits(reader@, step as int, row as int, 8));
                    return Err(crate::binary::unexpected_end());
                },
            };
            match read_i64(reader, at) {
                Ok(value) => {
                    self.builder.push(value);
                },
                Err(cause) => {
                    assert(!row_fits(reader@, step as int, row as int, 8));
                    return Err(cause);
                },
            }
            assert(row_fits(reader@, step as int, row as int, 8));
            assert(self.builder@ =~= old(self).builder@ + batch_values64(
                reader@,
                step as int,
                0,
                row + 1,
            ));
            row += 1;
        }
        Ok(())
    }

    /// Adds a row for an instant given in nanoseconds since the epoch, at
    /// the precision of the column.
    pub fn append_nanos(&mut self, nanos: i64)
        ensures
            final(self).builder@ == old(self).builder@.push(
                uniform_ticks(nanos, old(self).precision) as i64,
            ),
            final(self).tz == old(self).tz,
            final(self).precision == old(self).precision,
    {
        let ticks = uniform(nanos, self.precision);
        self.builder.push(ticks);
    }

    /// Adds a row for a count of ticks.
    pub fn append_data_value(&mut self, value: i64)
        ensures
            final(self).builder@ == old(self).builder@.push(value),
            final(self).tz == old(self).tz,
            final(self).precision == old(self).precision,
    {
        self.builder.push(value);
    }

    /// Hands out the rows read so far and starts anew.
    pub fn finish_to_column(&mut self) -> (column: Vec<i64>)
        ensures
            column@ == old(self).builder@,
            final(self).builder@.len() == 0,
            final(self).tz == old(self).tz,
            final(self).precision == old(self).precision,
    {
        let mut column: Vec<i64> = Vec::new();
        std::mem::swap(&mut column, &mut self.builder);
        column
    }
}

} // verus!
