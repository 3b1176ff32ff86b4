//! Dates as days since the epoch, and the reader of date columns.

use vstd::prelude::*;
use crate::binary::le_value;
use crate::binary::read_i32;
use crate::binary::signed32;
use crate::error::ErrorCode;
use crate::error::ErrorKind;

verus! {

/// The day number of the first day of 1970, where the first day of the
/// year 1 has the number 1.
pub const EPOCH_DAYS_FROM_CE: i32 = 719_163;

/// The first year that has dates.
pub const MIN_YEAR: i32 = -262_143;

/// The last year that has dates.
pub const MAX_YEAR: i32 = 262_142;

/// Whether a year of the proleptic Gregorian calendar has a 29th of February.
pub open spec fn leap_year(year: int) -> bool {
    year % 4 == 0 && (year % 100 != 0 || year % 400 == 0)
}

/// The number of days of a month.
pub open spec fn days_in_month(year: int, month: int) -> int {
    if month == 2 {
        if leap_year(year) {
            29
        } else {
            28
        }
    } else if month == 4 || month == 6 || month == 9 || month == 11 {
        30
    } else {
        31
    }
}

/// Whether the calendar has the date.
pub open spec fn date_exists(year: i32, month: u32, day: u32) -> bool {
    &&& MIN_YEAR <= year <= MAX_YEAR
    &&& 1 <= month <= 12
    &&& 1 <= day <= days_in_month(year as int, month as int)
}

/// The number of days of a year before the first of a month.
pub open spec fn days_before_month(year: int, month: int) -> int
    decreases month,
{
    if month <= 1 {
        0
    } else {
        days_before_month(year, month - 1) + days_in_month(year, month - 1)
    }
}

/// The number of a day in the proleptic Gregorian calendar, where the first
/// of January of the year 1 has the number 1.
pub open spec fn ce_day_number(year: i32, month: u32, day: u32) -> int {
    let before = year - 1;
    365 * before + before / 4 - before / 100 + before / 400 + days_before_month(
        year as int,
        month as int,
    ) + day
}

/// Calls `NaiveDate::from_ymd_opt` and, on the date it makes,
/// `Datelike::num_days_from_ce` of chrono. The first makes a date where the
/// calendar has one, in the years that chrono covers; the second counts the
/// days in the proleptic Gregorian calendar with the first of January of the
/// year 1 as day 1.
#[verifier::external_body]
pub(crate) fn days_from_ce(year: i32, month: u32, day: u32) -> (days: Option<i32>)
    ensures
        days is Some <==> date_exists(year, month, day),
        days is Some ==> days->Some_0 == ce_day_number(year, month, day),
{
    match chrono::NaiveDate::from_ymd_opt(year, month, day) {
        Some(date) => Some(chrono::Datelike::num_days_from_ce(&date)),
        None => None,
    }
}

/// No month starts later than on the 336th day of its year.
pub proof fn lemma_days_before_month(year: int, month: int)
    requires
        1 <= month <= 12,
    ensures
        0 <= days_before_month(year, month) <= 335,
{
    reveal_with_fuel(days_before_month, 13);
}

/// The days from the epoch to a date, if the calendar has the date.
pub fn uniform(year: i32, month: u32, day: u32) -> (days: Option<i32>)
    ensures
        days is Some <==> date_exists(year, month, day),
        days is Some ==> days->Some_0 == ce_day_number(year, month, day) - EPOCH_DAYS_FROM_CE,
{
    match days_from_ce(year, month, day) {
        Some(days) => {
            proof {
                lemma_days_before_month(year as int, month as int);
            }
            Some(days - EPOCH_DAYS_FROM_CE)
        },
        None => None,
    }
}

/// The values of the rows `from` up to `to` of a batch of fixed-width rows,
/// each read as a signed number of 32 bits at the start of its row.
pub open spec fn batch_values32(reader: Seq<u8>, step: int, from: int, to: int) -> Seq<i32> {
    Seq::new((to - from) as nat, |k: int| signed32(le_value(reader, step * (from + k), 4)) as i32)
}

/// Whether a number of `width` bytes lies at the start of a row of a batch.
pub open spec fn row_fits(reader: Seq<u8>, step: int, row: int, width: int) -> bool {
    step * row + width <= reader.len()
}

/// The reader of a date column: it gathers the days since the epoch, one
/// for each row.
#[derive(Debug, PartialEq, Eq)]
pub struct DateDeserializer {
    pub builder: Vec<i32>,
}

impl DateDeserializer {
    /// A reader with room for `capacity` rows.
    pub fn with_capacity(capacity: usize) -> (d: DateDeserializer)
        ensures
            d.builder@.len() == 0,
    {
        DateDeserializer { builder: Vec::with_capacity(capacity) }
    }

    /// Reads one row from the four bytes at `at` and answers where the next
    /// row begins.
    pub fn de_binary(&mut self, reader: &[u8], at: usize) -> (r: Result<usize, ErrorCode>)
        ensures
            r is Ok <==> at + 4 <= reader@.len(),
            r is Ok ==> r->Ok_0 == at + 4 && final(self).builder@ == old(self).builder@.push(
                signed32(le_value(reader@, at as int, 4)) as i32,
            ),
            r is Err ==> r->Err_0.kind == ErrorKind::BadBytes && *final(self) == *old(self),
    {
        let total: usize = reader.len();
        match read_i32(reader, at) {
            Ok(value) => {
                assert(at + 4 <= total);
                self.builder.push(value);
                Ok(at + 4)
            },
            Err(cause) => Err(cause),
        }
    }

    /// Adds a row for a missing value: the epoch.
    pub fn de_default(&mut self)
        ensures
            final(self).builder@ == old(self).builder@.push(0i32),
    {
        self.builder.push(0);
    }

    /// Reads `rows` rows that lie `step` bytes apart, up to the first row
    /// that does not hold four bytes.
    pub fn de_fixed_binary_batch(&mut self, reader: &[u8], step: usize, rows: usize) -> (r: Result<
        (),
        ErrorCode,
    >)
        ensures
            r is Ok <==> forall|row: int|
                0 <= row < rows ==> #[trigger] row_fits(reader@, step as int, row, 4),
            r is Ok ==> final(self).builder@ == old(self).builder@ + batch_values32(
                reader@,
                step as int,
                0,
                rows as int,
            ),
            r is Err ==> r->Err_0.kind == ErrorKind::BadBytes && exists|stop: int|
                {
                    &&& 0 <= stop < rows
                    &&& !row_fits(reader@, step as int, stop, 4)
                    &&& forall|row: int|
                        0 <= row < stop ==> #[trigger] row_fits(reader@, step as int, row, 4)
                    &&& final(self).builder@ == old(self).builder@ + batch_values32(
                        reader@,
                        step as int,
                        0,
                        stop,
                    )
                },
    {
        let total: usize = reader.len();
        let mut row: usize = 0;
        while row < rows
            invariant
                row <= rows,
                total == reader@.len(),
                forall|k: int| 0 <= k < row ==> #[trigger] row_fits(reader@, step as int, k, 4),
                self.builder@ == old(self).builder@ + batch_values32(
                    reader@,
                    step as int,
                    0,
                    row as int,
                ),
            decreases rows - row,
        {
            let ghost before = self.builder@;
            let at = match step.checked_mul(row) {
                Some(at) => at,
                None => {
                    assert(!row_fits(reader@, step as int, row as int, 4));
                    return Err(crate::binary::unexpected_end());
                },
            };
            match read_i32(reader, at) {
                Ok(value) => {
                    self.builder.push(value);
                },
                Err(cause) => {
                    assert(!row_fits(reader@, step as int, row as int, 4));
                    return Err(cause);
                },
            }
            assert(row_fits(reader@, step as int, row as int, 4));
            assert(self.builder@ =~= old(self).builder@ + batch_values32(
                reader@,
                step as int,
                0,
                row + 1,
            ));
            row += 1;
        }
        Ok(())
    }

    /// Adds a row for a date of the calendar. A date that the calendar does
    /// not have is bad bytes.
    pub fn append_date(&mut self, year: i32, month: u32, day: u32) -> (r: Result<(), ErrorCode>)
        ensures
            r is Ok <==> date_exists(year, month, day),
            r is Ok ==> final(self).builder@ == old(self).builder@.push(
                (ce_day_number(year, month, day) - EPOCH_DAYS_FROM_CE) as i32,
            ),
            r is Err ==> r->Err_0.kind == ErrorKind::BadBytes && final(self).builder@ == old(self).builder@,
    {
        match uniform(year, month, day) {
            Some(days) => {
                self.builder.push(days);
                Ok(())
            },
            None => Err(ErrorCode::new(ErrorKind::BadBytes, "Incorrect date value")),
        }
    }

    /// Adds a row for a number of days, of which the low 32 bits count.
    pub fn append_data_value(&mut self, value: i64)
        ensures
            final(self).builder@ == old(self).builder@.push(value as i32),
    {
        self.builder.push(#[verifier::truncate] (value as i32));
    }

    /// Hands out the rows read so far and starts anew.
    pub fn finish_to_column(&mut self) -> (column: Vec<i32>)
        ensures
            column@ == old(self).builder@,
            final(self).builder@.len() == 0,
    {
        let mut column: Vec<i32> = Vec::new();
        std::mem::swap(&mut column, &mut self.builder);
        column
    }
}

} // verus!
