//! The timestamp type: a count of ticks since the epoch, at a precision of
//! zero to nine decimal digits of a second.

use std::sync::Arc;
use vstd::prelude::*;
use vstd::string::StringExecFns;
use crate::data_type::ArrowExtension;
use crate::data_type::DataTypeImpl;
use crate::data_type::TypeID;
use crate::date_time::parse_zone;
use crate::date_time::zone_known;
use crate::date_time::DateTimeDeserializer;
use crate::text::decimal_digits;
use crate::text::decimal_text;

verus! {

/// The nanoseconds of one second.
pub const NANOS_PER_SECOND: i64 = 1_000_000_000;

/// The highest precision: nanoseconds.
pub const MAX_PRECISION: usize = 9;

/// Ten to the power of `n`.
pub open spec fn pow10(n: nat) -> int
    decreases n,
{
    if n == 0 {
        1
    } else {
        10 * pow10((n - 1) as nat)
    }
}

/// The quotient of `a` by a positive `b`, rounded towards zero.
pub open spec fn div_to_zero(a: int, b: int) -> int {
    if a >= 0 {
        a / b
    } else {
        -((-a) / b)
    }
}

/// The remainder of `a` by a positive `b` that goes with `div_to_zero`.
pub open spec fn rem_to_zero(a: int, b: int) -> int {
    a - b * div_to_zero(a, b)
}

/// The nanoseconds that one tick lasts at a precision.
pub open spec fn tick_nanos(precision: usize) -> int {
    pow10((MAX_PRECISION - precision) as nat)
}

/// A point in time as whole seconds since the epoch and the nanoseconds
/// after them.
#[derive(Clone, Copy, Debug, PartialEq, Eq, Structural)]
pub struct UtcInstant {
    pub secs: i64,
    pub nsecs: u32,
}

/// The type of timestamp columns.
#[derive(Debug, PartialEq, Eq)]
pub struct TimestampType {
    /// The number of decimal digits of a second that a tick resolves: 0 for
    /// seconds, 3 for milliseconds, 6 for microseconds, 9 for nanoseconds.
    precision: usize,
    /// The time zone; none means UTC.
    tz: Option<String>,
}

/// The powers of ten up to the ninth.
pub proof fn lemma_pow10_values()
    ensures
        pow10(0) == 1,
        pow10(1) == 10,
        pow10(2) == 100,
        pow10(3) == 1_000,
        pow10(4) == 10_000,
        pow10(5) == 100_000,
        pow10(6) == 1_000_000,
        pow10(7) == 10_000_000,
        pow10(8) == 100_000_000,
        pow10(9) == 1_000_000_000,
{
    reveal_with_fuel(pow10, 11);
}

/// Ten to the power of `n`, for `n` up to nine.
pub fn power_of_ten(n: usize) -> (p: i64)
    requires
        n <= MAX_PRECISION,
    ensures
        p == pow10(n as nat),
        1 <= p <= NANOS_PER_SECOND,
{
    proof {
        lemma_pow10_values();
    }
    let mut p: i64 = 1;
    let mut i: usize = 0;
    while i < n
        invariant
            i <= n <= MAX_PRECISION,
            p == pow10(i as nat),
            1 <= p,
        decreases n - i,
    {
        assert(pow10(i as nat) <= pow10(8)) by {
            lemma_pow10_monotone(i as nat, 8);
        }
        proof {
            lemma_pow10_values();
        }
        p = p * 10;
        i += 1;
    }
    assert(pow10(n as nat) <= pow10(9)) by {
        lemma_pow10_monotone(n as nat, 9);
    }
    p
}

/// A higher power of ten is no smaller.
pub proof fn lemma_pow10_monotone(a: nat, b: nat)
    requires
        a <= b,
    ensures
        1 <= pow10(a) <= pow10(b),
    decreases b,
{
    if a < b {
        lemma_pow10_monotone(a, (b - 1) as nat);
    } else if a > 0 {
        lemma_pow10_monotone((a - 1) as nat, (b - 1) as nat);
    }
}

impl TimestampType {
    /// The precision of the type.
    pub closed spec fn spec_precision(&self) -> usize {
        self.precision
    }

    /// The time zone of the type, as text.
    pub closed spec fn spec_tz(&self) -> Option<Seq<char>> {
        match self.tz {
            Some(tz) => Some(tz@),
            None => None,
        }
    }

    /// The timestamp type of a precision and a time zone.
    pub fn create(precision: usize, tz: Option<String>) -> (t: TimestampType)
        ensures
            t.spec_precision() == precision,
            t.spec_tz() == match tz {
                Some(name) => Some(name@),
                None => None,
            },
    {
        TimestampType { precision, tz }
    }

    /// The timestamp type of a precision and a time zone, as a shared data
    /// type.
    pub fn arc(precision: usize, tz: Option<String>) -> (t: Arc<DataTypeImpl>)
        ensures
            *t is Timestamp,
            (*t)->Timestamp_0.spec_precision() == precision,
            (*t)->Timestamp_0.spec_tz() == match tz {
                Some(name) => Some(name@),
                None => None,
            },
    {
        Arc::new(DataTypeImpl::Timestamp(TimestampType { precision, tz }))
    }

    /// The time zone; none means UTC.
    pub fn tz(&self) -> (tz: Option<&String>)
        ensures
            match tz {
                Some(name) => self.spec_tz() == Some(name@),
                None => self.spec_tz() is None,
            },
    {
        self.tz.as_ref()
    }

    /// The precision.
    pub fn precision(&self) -> (precision: usize)
        ensures
            precision == self.spec_precision(),
    {
        self.precision
    }

    /// The instant of the tick count `v`: the whole seconds since the epoch,
    /// rounded towards zero, and the nanoseconds after them. There is none
    /// where the nanoseconds would have to be taken off the seconds.
    pub fn utc_timestamp(&self, v: i64) -> (instant: UtcInstant)
        requires
            self.spec_precision() <= MAX_PRECISION,
            i64::MIN <= v * tick_nanos(self.spec_precision()) <= i64::MAX,
            rem_to_zero(v * tick_nanos(self.spec_precision()), NANOS_PER_SECOND as int) >= 0,
        ensures
            instant.secs == div_to_zero(
                v * tick_nanos(self.spec_precision()),
                NANOS_PER_SECOND as int,
            ),
            instant.nsecs == rem_to_zero(
                v * tick_nanos(self.spec_precision()),
                NANOS_PER_SECOND as int,
            ),
    {
        let scale = power_of_ten(MAX_PRECISION - self.precision);
        let nanos: i64 = v * scale;
        let secs: i64 = nanos / NANOS_PER_SECOND;
        let rest: i64 = nanos % NANOS_PER_SECOND;
        UtcInstant { secs, nsecs: rest as u32 }
    }

    /// The whole seconds of the tick count `v`, rounded towards zero.
    pub fn to_seconds(&self, v: i64) -> (secs: i64)
        requires
            self.spec_precision() <= MAX_PRECISION,
            i64::MIN <= v * tick_nanos(self.spec_precision()) <= i64::MAX,
        ensures
            secs == div_to_zero(v * tick_nanos(self.spec_precision()), NANOS_PER_SECOND as int),
    {
        let scale = power_of_ten(MAX_PRECISION - self.precision);
        let nanos: i64 = v * scale;
        nanos / NANOS_PER_SECOND
    }

    /// The tick count of `v` nanoseconds, rounded towards zero.
    pub fn from_nano_seconds(&self, v: i64) -> (ticks: i64)
        requires
            self.spec_precision() <= MAX_PRECISION,
        ensures
            ticks == div_to_zero(v as int, tick_nanos(self.spec_precision())),
    {
        let scale = power_of_ten(MAX_PRECISION - self.precision);
        v / scale
    }

    /// The pattern by which a timestamp of this type is written: date and
    /// time, and the fraction of a second at the precision of the type.
    pub fn format_string(&self) -> (pattern: String)
        ensures
            pattern@ == if self.spec_precision() == 0 {
                "%Y-%m-%d %H:%M:%S"@
            } else {
                "%Y-%m-%d %H:%M:%S%."@ + decimal_digits(self.spec_precision() as nat) + "f"@
            },
    {
        if self.precision == 0 {
            String::from_str("%Y-%m-%d %H:%M:%S")
        } else {
            let mut pattern = String::from_str("%Y-%m-%d %H:%M:%S%.");
            let digits = decimal_text(self.precision);
            pattern.append(digits.as_str());
            pattern.append("f");
            pattern
        }
    }

    /// The id of the type.
    pub fn data_type_id(&self) -> (id: TypeID)
        ensures
            id == TypeID::Timestamp,
    {
        TypeID::Timestamp
    }

    /// The name of the type: `Timestamp` and the precision in brackets.
    pub fn name(&self) -> (name: String)
        ensures
            name@ == "Timestamp("@ + decimal_digits(self.spec_precision() as nat) + ")"@,
    {
        let mut name = String::from_str("Timestamp(");
        let digits = decimal_text(self.precision);
        name.append(digits.as_str());
        name.append(")");
        name
    }

    /// The other names of the type: `DateTime` with the precision, and at
    /// microseconds `Timestamp` and `DateTime` alone. A precision above nine
    /// has none.
    pub fn aliases(&self) -> (names: Vec<String>)
        ensures
            self.spec_precision() > MAX_PRECISION ==> names@.len() == 0,
            self.spec_precision() == 6 ==> names@.len() == 2 && names@[0]@ == "Timestamp"@
                && names@[1]@ == "DateTime"@,
            self.spec_precision() <= MAX_PRECISION && self.spec_precision() != 6 ==> names@.len()
                == 1 && names@[0]@ == "DateTime("@ + decimal_digits(self.spec_precision() as nat)
                + ")"@,
    {
        let mut names: Vec<String> = Vec::new();
        if self.precision == 6 {
            names.push(String::from_str("Timestamp"));
            names.push(String::from_str("DateTime"));
        } else if self.precision <= MAX_PRECISION {
            let mut name = String::from_str("DateTime(");
            let digits = decimal_text(self.precision);
            name.append(digits.as_str());
            name.append(")");
            names.push(name);
        }
        names
    }

    /// The value of a column of this type where none is given.
    pub fn default_value(&self) -> (v: i64)
        ensures
            v == 0,
    {
        0
    }

    /// The time zone by which values of this type are read and written.
    pub fn zone_name(&self) -> (name: String)
        ensures
            name@ == match self.spec_tz() {
                Some(tz) => tz,
                None => "UTC"@,
            },
    {
        match &self.tz {
            Some(tz) => tz.clone(),
            None => String::from_str("UTC"),
        }
    }

    /// What a columnar file records of this type beside its storage type:
    /// the name `Timestamp`, and the precision followed by the time zone.
    pub fn custom_arrow_meta(&self) -> (meta: ArrowExtension)
        ensures
            meta.name@ == "Timestamp"@,
            meta.meta is Some,
            meta.meta->Some_0@ == decimal_digits(self.spec_precision() as nat) + match self.spec_tz() {
                Some(tz) => tz,
                None => "UTC"@,
            },
    {
        let mut text = decimal_text(self.precision);
        let zone = self.zone_name();
        text.append(zone.as_str());
        ArrowExtension { name: String::from_str("Timestamp"), meta: Some(text) }
    }

    /// The reader of a column of this type, with room for `capacity` rows.
    /// There is none where the zone database does not have the time zone of
    /// the type.
    pub fn create_deserializer(&self, capacity: usize) -> (reader: Option<DateTimeDeserializer>)
        ensures
            reader is Some <==> zone_known(
                match self.spec_tz() {
                    Some(tz) => tz,
                    None => "UTC"@,
                },
            ),
            reader is Some ==> reader->Some_0.builder@.len() == 0 && reader->Some_0.precision
                == self.spec_precision(),
    {
        let zone = self.zone_name();
        match parse_zone(zone.as_str()) {
            Some(tz) => Some(
                DateTimeDeserializer {
                    builder: Vec::with_capacity(capacity),
                    tz,
                    precision: self.precision,
                },
            ),
            None => None,
        }
    }
}

} // verus!
