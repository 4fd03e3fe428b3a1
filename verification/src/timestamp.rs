//! Timestamp and timestamp delta types.
//!
//! Time is represented as a signed 64-bit count of nanoseconds since the Unix
//! epoch, UTC. The representable dates lie between 1677-09-21T00:12:43.145224192
//! and 2262-04-11T23:47:16.854775807; conversions that would leave this range
//! fail with a typed error rather than truncating silently.

use vstd::prelude::*;
use vstd::arithmetic::div_mod::{lemma_div_nonincreasing, lemma_div_pos_is_pos};

verus! {

// Conversion factors between nanoseconds and coarser units.
pub const NANOS_PER_MICRO: i64 = 1_000;
pub const NANOS_PER_MILLI: i64 = NANOS_PER_MICRO * 1_000;
pub const NANOS_PER_SECOND: i64 = NANOS_PER_MILLI * 1_000;
pub const NANOS_PER_MINUTE: i64 = NANOS_PER_SECOND * 60;
pub const NANOS_PER_HOUR: i64 = NANOS_PER_MINUTE * 60;
pub const NANOS_PER_DAY: i64 = NANOS_PER_HOUR * 24;

/// A timestamp in nanoseconds in the UTC timezone.
#[derive(Clone, Copy, PartialEq, Eq, Structural, PartialOrd, Ord, Hash, Debug, Default)]
pub struct NanoTimestamp(pub i64);

/// A timestamp delta (duration) in nanoseconds.
///
/// Subtracting two timestamps yields a `NanoDelta`.
#[derive(Clone, Copy, PartialEq, Eq, Structural, PartialOrd, Ord, Hash, Debug, Default)]
pub struct NanoDelta(pub i64);

impl View for NanoTimestamp {
    type V = int;

    open spec fn view(&self) -> int {
        self.0 as int
    }
}

impl View for NanoDelta {
    type V = int;

    open spec fn view(&self) -> int {
        self.0 as int
    }
}

/// Error type for timestamp conversion operations.
#[derive(Debug, Clone)]
pub enum TimestampError {
    /// Arithmetic or calendar conversion left the signed 64-bit nanosecond range.
    Overflow(String),
    /// A calendar text could not be parsed; carries the parser's diagnostic.
    Parse(String),
    /// A byte slice of the wrong length was offered for decoding.
    ConversionError { expected: usize, actual: usize },
}

/// Quotient of `x` and `d` rounded towards zero, as Rust's integer division
/// computes it (Verus's own `/` on `int` is Euclidean).
pub open spec fn div_towards_zero(x: int, d: int) -> int {
    if x >= 0 {
        x / d
    } else {
        -((-x) / d)
    }
}

proof fn lemma_div_towards_zero_bounds(x: int, d: int)
    requires
        1 <= d,
    ensures
        x >= 0 ==> 0 <= div_towards_zero(x, d) <= x,
        x < 0 ==> x <= div_towards_zero(x, d) <= 0,
{
    if x >= 0 {
        lemma_div_pos_is_pos(x, d);
        lemma_div_nonincreasing(x, d);
    } else {
        lemma_div_pos_is_pos(-x, d);
        lemma_div_nonincreasing(-x, d);
    }
}

/// Divide by a positive constant with Rust's truncating semantics.
fn div_i64_by_positive(x: i64, d: i64) -> (r: i64)
    requires
        1 <= d,
    ensures
        r == div_towards_zero(x as int, d as int),
{
    proof {
        lemma_div_towards_zero_bounds(x as int, d as int);
    }
    match x.checked_div(d) {
        Some(q) => q,
        None => {
            proof {
                assert(false);
            }
            0
        },
    }
}

impl NanoTimestamp {
    pub fn zero() -> (r: Self)
        ensures
            r@ == 0,
    {
        Self(0)
    }

    pub fn as_nanos(&self) -> (r: i64)
        ensures
            r == self@,
    {
        self.0
    }

    pub fn as_micros(&self) -> (r: i64)
        ensures
            r == div_towards_zero(self@, NANOS_PER_MICRO as int),
    {
        div_i64_by_positive(self.0, NANOS_PER_MICRO)
    }

    pub fn as_millis(&self) -> (r: i64)
        ensures
            r == div_towards_zero(self@, NANOS_PER_MILLI as int),
    {
        div_i64_by_positive(self.0, NANOS_PER_MILLI)
    }

    pub fn as_secs(&self) -> (r: i64)
        ensures
            r == div_towards_zero(self@, NANOS_PER_SECOND as int),
    {
        div_i64_by_positive(self.0, NANOS_PER_SECOND)
    }

    pub fn as_minutes(&self) -> (r: i64)
        ensures
            r == div_towards_zero(self@, NANOS_PER_MINUTE as int),
    {
        div_i64_by_positive(self.0, NANOS_PER_MINUTE)
    }

    pub fn as_hours(&self) -> (r: i64)
        ensures
            r == div_towards_zero(self@, NANOS_PER_HOUR as int),
    {
        div_i64_by_positive(self.0, NANOS_PER_HOUR)
    }

    pub fn as_days(&self) -> (r: i64)
        ensures
            r == div_towards_zero(self@, NANOS_PER_DAY as int),
    {
        div_i64_by_positive(self.0, NANOS_PER_DAY)
    }

    pub fn from_nanos(nanos: i64) -> (r: Self)
        ensures
            r@ == nanos,
    {
        Self(nanos)
    }

    pub fn from_micros_safe(micros: i64) -> (r: Self)
        requires
            i64::MIN <= micros * NANOS_PER_MICRO <= i64::MAX,
        ensures
            r@ == micros * NANOS_PER_MICRO,
    {
        Self(micros * NANOS_PER_MICRO)
    }

    pub fn from_millis_safe(millis: i64) -> (r: Self)
        requires
            i64::MIN <= millis * NANOS_PER_MILLI <= i64::MAX,
        ensures
            r@ == millis * NANOS_PER_MILLI,
    {
        Self(millis * NANOS_PER_MILLI)
    }

    pub fn from_secs_safe(secs: i64) -> (r: Self)
        requires
            i64::MIN <= secs * NANOS_PER_SECOND <= i64::MAX,
        ensures
            r@ == secs * NANOS_PER_SECOND,
    {
        Self(secs * NANOS_PER_SECOND)
    }

    pub fn from_minutes_safe(minutes: i64) -> (r: Self)
        requires
            i64::MIN <= minutes * NANOS_PER_MINUTE <= i64::MAX,
        ensures
            r@ == minutes * NANOS_PER_MINUTE,
    {
        Self(minutes * NANOS_PER_MINUTE)
    }

    pub fn from_hours_safe(hours: i64) -> (r: Self)
        requires
            i64::MIN <= hours * NANOS_PER_HOUR <= i64::MAX,
        ensures
            r@ == hours * NANOS_PER_HOUR,
    {
        Self(hours * NANOS_PER_HOUR)
    }

    pub fn from_days_safe(days: i64) -> (r: Self)
        requires
            i64::MIN <= days * NANOS_PER_DAY <= i64::MAX,
        ensures
            r@ == days * NANOS_PER_DAY,
    {
        Self(days * NANOS_PER_DAY)
    }

    pub fn from_micros(micros: i64) -> (r: Result<Self, TimestampError>)
        ensures
            r is Ok <==> i64::MIN <= micros * NANOS_PER_MICRO <= i64::MAX,
            r matches Ok(t) ==> t@ == micros * NANOS_PER_MICRO,
            r matches Err(e) ==> e is Overflow,
    {
        match micros.checked_mul(NANOS_PER_MICRO) {
            Some(n) => Ok(Self(n)),
            None => Err(TimestampError::Overflow("microseconds conversion overflowed".to_owned())),
        }
    }

    pub fn from_millis(millis: i64) -> (r: Result<Self, TimestampError>)
        ensures
            r is Ok <==> i64::MIN <= millis * NANOS_PER_MILLI <= i64::MAX,
            r matches Ok(t) ==> t@ == millis * NANOS_PER_MILLI,
            r matches Err(e) ==> e is Overflow,
    {
        match millis.checked_mul(NANOS_PER_MILLI) {
            Some(n) => Ok(Self(n)),
            None => Err(TimestampError::Overflow("milliseconds conversion overflowed".to_owned())),
        }
    }

    pub fn from_secs(secs: i64) -> (r: Result<Self, TimestampError>)
        ensures
            r is Ok <==> i64::MIN <= secs * NANOS_PER_SECOND <= i64::MAX,
            r matches Ok(t) ==> t@ == secs * NANOS_PER_SECOND,
            r matches Err(e) ==> e is Overflow,
    {
        match secs.checked_mul(NANOS_PER_SECOND) {
            Some(n) => Ok(Self(n)),
            None => Err(TimestampError::Overflow("seconds conversion overflowed".to_owned())),
        }
    }

    pub fn from_minutes(minutes: i64) -> (r: Result<Self, TimestampError>)
        ensures
            r is Ok <==> i64::MIN <= minutes * NANOS_PER_MINUTE <= i64::MAX,
            r matches Ok(t) ==> t@ == minutes * NANOS_PER_MINUTE,
            r matches Err(e) ==> e is Overflow,
    {
        match minutes.checked_mul(NANOS_PER_MINUTE) {
            Some(n) => Ok(Self(n)),
            None => Err(TimestampError::Overflow("minutes conversion overflowed".to_owned())),
        }
    }

    pub fn from_hours(hours: i64) -> (r: Result<Self, TimestampError>)
        ensures
            r is Ok <==> i64::MIN <= hours * NANOS_PER_HOUR <= i64::MAX,
            r matches Ok(t) ==> t@ == hours * NANOS_PER_HOUR,
            r matches Err(e) ==> e is Overflow,
    {
        match hours.checked_mul(NANOS_PER_HOUR) {
            Some(n) => Ok(Self(n)),
            None => Err(TimestampError::Overflow("hours conversion overflowed".to_owned())),
        }
    }

    pub fn from_days(days: i64) -> (r: Result<Self, TimestampError>)
        ensures
            r is Ok <==> i64::MIN <= days * NANOS_PER_DAY <= i64::MAX,
            r matches Ok(t) ==> t@ == days * NANOS_PER_DAY,
            r matches Err(e) ==> e is Overflow,
    {
        match days.checked_mul(NANOS_PER_DAY) {
            Some(n) => Ok(Self(n)),
            None => Err(TimestampError::Overflow("days conversion overflowed".to_owned())),
        }
    }

    /// Add a delta; the caller guarantees that the sum stays representable.
    pub fn add_delta(self, rhs: NanoDelta) -> (r: Self)
        requires
            i64::MIN <= self@ + rhs@ <= i64::MAX,
        ensures
            r@ == self@ + rhs@,
    {
        Self(self.0 + rhs.0)
    }

    /// Subtract a delta; the caller guarantees that the difference stays representable.
    pub fn sub_delta(self, rhs: NanoDelta) -> (r: Self)
        requires
            i64::MIN <= self@ - rhs@ <= i64::MAX,
        ensures
            r@ == self@ - rhs@,
    {
        Self(self.0 - rhs.0)
    }

    /// The delta from `rhs` to `self`.
    pub fn diff(self, rhs: NanoTimestamp) -> (r: NanoDelta)
        requires
            i64::MIN <= self@ - rhs@ <= i64::MAX,
        ensures
            r@ == self@ - rhs@,
    {
        NanoDelta(self.0 - rhs.0)
    }
}

impl NanoDelta {
    pub fn zero() -> (r: Self)
        ensures
            r@ == 0,
    {
        Self(0)
    }

    pub fn as_nanos(&self) -> (r: i64)
        ensures
            r == self@,
    {
        self.0
    }

    pub fn as_micros(&self) -> (r: i64)
        ensures
            r == div_towards_zero(self@, NANOS_PER_MICRO as int),
    {
        NanoTimestamp::from_nanos(self.0).as_micros()
    }

    pub fn as_millis(&self) -> (r: i64)
        ensures
            r == div_towards_zero(self@, NANOS_PER_MILLI as int),
    {
        NanoTimestamp::from_nanos(self.0).as_millis()
    }

    pub fn as_secs(&self) -> (r: i64)
        ensures
            r == div_towards_zero(self@, NANOS_PER_SECOND as int),
    {
        NanoTimestamp::from_nanos(self.0).as_secs()
    }

    pub fn as_minutes(&self) -> (r: i64)
        ensures
            r == div_towards_zero(self@, NANOS_PER_MINUTE as int),
    {
        NanoTimestamp::from_nanos(self.0).as_minutes()
    }

    pub fn as_hours(&self) -> (r: i64)
        ensures
            r == div_towards_zero(self@, NANOS_PER_HOUR as int),
    {
        NanoTimestamp::from_nanos(self.0).as_hours()
    }

    pub fn as_days(&self) -> (r: i64)
        ensures
            r == div_towards_zero(self@, NANOS_PER_DAY as int),
    {
        NanoTimestamp::from_nanos(self.0).as_days()
    }

    pub fn from_nanos(nanos: i64) -> (r: Self)
        ensures
            r@ == nanos,
    {
        Self(nanos)
    }

    pub fn from_micros_safe(micros: i64) -> (r: Self)
        requires
            i64::MIN <= micros * NANOS_PER_MICRO <= i64::MAX,
        ensures
            r@ == micros * NANOS_PER_MICRO,
    {
        Self(NanoTimestamp::from_micros_safe(micros).0)
    }

    pub fn from_millis_safe(millis: i64) -> (r: Self)
        requires
            i64::MIN <= millis * NANOS_PER_MILLI <= i64::MAX,
        ensures
            r@ == millis * NANOS_PER_MILLI,
    {
        Self(NanoTimestamp::from_millis_safe(millis).0)
    }

    pub fn from_secs_safe(secs: i64) -> (r: Self)
        requires
            i64::MIN <= secs * NANOS_PER_SECOND <= i64::MAX,
        ensures
            r@ == secs * NANOS_PER_SECOND,
    {
        Self(NanoTimestamp::from_secs_safe(secs).0)
    }

    pub fn from_minutes_safe(minutes: i64) -> (r: Self)
        requires
            i64::MIN <= minutes * NANOS_PER_MINUTE <= i64::MAX,
        ensures
            r@ == minutes * NANOS_PER_MINUTE,
    {
        Self(NanoTimestamp::from_minutes_safe(minutes).0)
    }

    pub fn from_hours_safe(hours: i64) -> (r: Self)
        requires
            i64::MIN <= hours * NANOS_PER_HOUR <= i64::MAX,
        ensures
            r@ == hours * NANOS_PER_HOUR,
    {
        Self(NanoTimestamp::from_hours_safe(hours).0)
    }

    pub fn from_days_safe(days: i64) -> (r: Self)
        requires
            i64::MIN <= days * NANOS_PER_DAY <= i64::MAX,
        ensures
            r@ == days * NANOS_PER_DAY,
    {
        Self(NanoTimestamp::from_days_safe(days).0)
    }

    pub fn from_micros(micros: i64) -> (r: Result<Self, TimestampError>)
        ensures
            r is Ok <==> i64::MIN <= micros * NANOS_PER_MICRO <= i64::MAX,
            r matches Ok(t) ==> t@ == micros * NANOS_PER_MICRO,
            r matches Err(e) ==> e is Overflow,
    {
        match NanoTimestamp::from_micros(micros) {
            Ok(ts) => Ok(Self(ts.0)),
            Err(e) => Err(e),
        }
    }

    pub fn from_millis(millis: i64) -> (r: Result<Self, TimestampError>)
        ensures
            r is Ok <==> i64::MIN <= millis * NANOS_PER_MILLI <= i64::MAX,
            r matches Ok(t) ==> t@ == millis * NANOS_PER_MILLI,
            r matches Err(e) ==> e is Overflow,
    {
        match NanoTimestamp::from_millis(millis) {
            Ok(ts) => Ok(Self(ts.0)),
            Err(e) => Err(e),
        }
    }

    pub fn from_secs(secs: i64) -> (r: Result<Self, TimestampError>)
        ensures
            r is Ok <==> i64::MIN <= secs * NANOS_PER_SECOND <= i64::MAX,
            r matches Ok(t) ==> t@ == secs * NANOS_PER_SECOND,
            r matches Err(e) ==> e is Overflow,
    {
        match NanoTimestamp::from_secs(secs) {
            Ok(ts) => Ok(Self(ts.0)),
            Err(e) => Err(e),
        }
    }

    pub fn from_minutes(minutes: i64) -> (r: Result<Self, TimestampError>)
        ensures
            r is Ok <==> i64::MIN <= minutes * NANOS_PER_MINUTE <= i64::MAX,
            r matches Ok(t) ==> t@ == minutes * NANOS_PER_MINUTE,
            r matches Err(e) ==> e is Overflow,
    {
        match NanoTimestamp::from_minutes(minutes) {
            Ok(ts) => Ok(Self(ts.0)),
            Err(e) => Err(e),
        }
    }

    pub fn from_hours(hours: i64) -> (r: Result<Self, TimestampError>)
        ensures
            r is Ok <==> i64::MIN <= hours * NANOS_PER_HOUR <= i64::MAX,
            r matches Ok(t) ==> t@ == hours * NANOS_PER_HOUR,
            r matches Err(e) ==> e is Overflow,
    {
        match NanoTimestamp::from_hours(hours) {
            Ok(ts) => Ok(Self(ts.0)),
            Err(e) => Err(e),
        }
    }

    pub fn from_days(days: i64) -> (r: Result<Self, TimestampError>)
        ensures
            r is Ok <==> i64::MIN <= days * NANOS_PER_DAY <= i64::MAX,
            r matches Ok(t) ==> t@ == days * NANOS_PER_DAY,
            r matches Err(e) ==> e is Overflow,
    {
        match NanoTimestamp::from_days(days) {
            Ok(ts) => Ok(Self(ts.0)),
            Err(e) => Err(e),
        }
    }

    /// Add a delta; the caller guarantees that the sum stays representable.
    pub fn add_delta(self, rhs: NanoDelta) -> (r: Self)
        requires
            i64::MIN <= self@ + rhs@ <= i64::MAX,
        ensures
            r@ == self@ + rhs@,
    {
        Self(self.0 + rhs.0)
    }

    /// Subtract a delta; the caller guarantees that the difference stays representable.
    pub fn sub_delta(self, rhs: NanoDelta) -> (r: Self)
        requires
            i64::MIN <= self@ - rhs@ <= i64::MAX,
        ensures
            r@ == self@ - rhs@,
    {
        Self(self.0 - rhs.0)
    }
}

/// Byte `k` of the little-endian encoding of a nanosecond count.
pub open spec fn le_byte_of(n: i64, k: int) -> u8 {
    ((n as u64) >> (8 * k)) as u8
}

/// The 8-byte little-endian encoding of a nanosecond count.
pub open spec fn le_bytes_of(n: i64) -> Seq<u8> {
    Seq::new(8, |k: int| le_byte_of(n, k))
}

/// The nanosecond count encoded by 8 little-endian bytes.
pub open spec fn nanos_of_le_bytes(b: Seq<u8>) -> i64 {
    (((b[0] as u64)) | ((b[1] as u64) << 8) | ((b[2] as u64) << 16) | ((b[3] as u64) << 24) | ((b[4]
        as u64) << 32) | ((b[5] as u64) << 40) | ((b[6] as u64) << 48) | ((b[7] as u64)
        << 56)) as i64
}

/// Binary encode/decode round-trips exactly, for every representable
/// nanosecond value.
pub proof fn lemma_le_bytes_round_trip(n: i64)
    ensures
        nanos_of_le_bytes(le_bytes_of(n)) == n,
{
    let b = le_bytes_of(n);
    assert(b[0] == le_byte_of(n, 0) && b[1] == le_byte_of(n, 1) && b[2] == le_byte_of(n, 2) && b[3]
        == le_byte_of(n, 3) && b[4] == le_byte_of(n, 4) && b[5] == le_byte_of(n, 5) && b[6]
        == le_byte_of(n, 6) && b[7] == le_byte_of(n, 7));
    assert(((((((n as u64) >> 0) as u8) as u64)) | (((((n as u64) >> 8) as u8) as u64) << 8) | ((((
    (n as u64) >> 16) as u8) as u64) << 16) | (((((n as u64) >> 24) as u8) as u64) << 24) | (((((n
        as u64) >> 32) as u8) as u64) << 32) | (((((n as u64) >> 40) as u8) as u64) << 40) | (((((n
        as u64) >> 48) as u8) as u64) << 48) | (((((n as u64) >> 56) as u8) as u64) << 56)) as i64
        == n) by (bit_vector);
}

impl NanoTimestamp {
    /// The raw little-endian byte representation of the nanosecond count.
    pub fn as_le_bytes(&self) -> (r: [u8; 8])
        ensures
            r@ == le_bytes_of(self.0),
    {
        let u = #[verifier::truncate] (self.0 as u64);
        let r: [u8; 8] = [
            #[verifier::truncate] (u as u8),
            #[verifier::truncate] ((u >> 8) as u8),
            #[verifier::truncate] ((u >> 16) as u8),
            #[verifier::truncate] ((u >> 24) as u8),
            #[verifier::truncate] ((u >> 32) as u8),
            #[verifier::truncate] ((u >> 40) as u8),
            #[verifier::truncate] ((u >> 48) as u8),
            #[verifier::truncate] ((u >> 56) as u8),
        ];
        proof {
            let v = self.0;
            assert(#[verifier::truncate] (v as u64) >> 0 == #[verifier::truncate] (v as u64))
                by (bit_vector);
            assert(r@ =~= le_bytes_of(self.0));
        }
        r
    }

    /// Decode the raw little-endian byte representation of a nanosecond count.
    pub fn from_le_bytes(bytes: [u8; 8]) -> (r: Self)
        ensures
            r.0 == nanos_of_le_bytes(bytes@),
    {
        let u: u64 = (bytes[0] as u64) | ((bytes[1] as u64) << 8) | ((bytes[2] as u64) << 16) | ((
        bytes[3] as u64) << 24) | ((bytes[4] as u64) << 32) | ((bytes[5] as u64) << 40) | ((bytes[6]
            as u64) << 48) | ((bytes[7] as u64) << 56);
        Self(#[verifier::truncate] (u as i64))
    }
}

/// The RFC 3339 rendering chrono gives a nanosecond timestamp (always UTC);
/// a function of the nanosecond count alone.
pub uninterp spec fn rfc3339_of(nanos: i64) -> Seq<char>;

/// The RFC 2822 rendering chrono gives a nanosecond timestamp (always UTC);
/// a function of the nanosecond count alone.
pub uninterp spec fn rfc2822_of(nanos: i64) -> Seq<char>;

/// The nanosecond count chrono reads out of an RFC 3339 text, `None` where the
/// text does not parse or the instant does not fit in i64 nanoseconds;
/// a function of the text alone.
pub uninterp spec fn rfc3339_parsed(text: Seq<char>) -> Option<i64>;

/// Whether chrono accepts the text as RFC 3339 at all (the instant may still
/// lie outside the i64 nanosecond range); a function of the text alone.
pub uninterp spec fn rfc3339_wellformed(text: Seq<char>) -> bool;

/// The nanosecond count chrono reads out of an RFC 2822 text, `None` where the
/// text does not parse or the instant does not fit in i64 nanoseconds;
/// a function of the text alone.
pub uninterp spec fn rfc2822_parsed(text: Seq<char>) -> Option<i64>;

/// Whether chrono accepts the text as RFC 2822 at all (the instant may still
/// lie outside the i64 nanosecond range); a function of the text alone.
pub uninterp spec fn rfc2822_wellformed(text: Seq<char>) -> bool;

/// Relies on chrono: `TimeZone::timestamp_nanos` maps every i64 nanosecond
/// count to its UTC date-time (its documentation: "this never fails"), and
/// `DateTime::to_rfc3339` renders that date-time as text, so the result is a
/// function of the nanosecond count alone.
#[verifier::external_body]
fn chrono_format_rfc3339(nanos: i64) -> (r: String)
    ensures
        r@ == rfc3339_of(nanos),
{
    <chrono::Utc as chrono::TimeZone>::timestamp_nanos(&chrono::Utc, nanos).to_rfc3339()
}

/// Relies on chrono: `TimeZone::timestamp_nanos` maps every i64 nanosecond
/// count to its UTC date-time, and `DateTime::to_rfc2822` renders that
/// date-time as text; it panics only for years outside 0..=9999, and every
/// i64 nanosecond count lies in 1677..=2262.
#[verifier::external_body]
fn chrono_format_rfc2822(nanos: i64) -> (r: String)
    ensures
        r@ == rfc2822_of(nanos),
{
    <chrono::Utc as chrono::TimeZone>::timestamp_nanos(&chrono::Utc, nanos).to_rfc2822()
}

/// Relies on chrono: `DateTime::parse_from_rfc3339` accepts exactly the valid
/// RFC 3339 texts, and `DateTime::timestamp_nanos_opt` gives the instant's
/// nanosecond count exactly when it fits in an i64; both depend on the text
/// alone.
#[verifier::external_body]
fn chrono_parse_rfc3339(text: &str) -> (r: Result<i64, TimestampError>)
    ensures
        r is Ok <==> rfc3339_parsed(text@) is Some,
        r matches Ok(n) ==> rfc3339_parsed(text@) == Some(n),
        r matches Err(e) ==> (e is Parse <==> !rfc3339_wellformed(text@)) && (e is Overflow
            <==> rfc3339_wellformed(text@)),
{
    match chrono::DateTime::parse_from_rfc3339(text) {
        Ok(dt) => match dt.timestamp_nanos_opt() {
            Some(n) => Ok(n),
            None => Err(
                TimestampError::Overflow("DateTime value out of i64 nanosecond range".to_owned()),
            ),
        },
        Err(e) => Err(TimestampError::Parse(e.to_string())),
    }
}

/// Relies on chrono: `DateTime::parse_from_rfc2822` accepts exactly the valid
/// RFC 2822 texts, and `DateTime::timestamp_nanos_opt` gives the instant's
/// nanosecond count exactly when it fits in an i64; both depend on the text
/// alone.
#[verifier::external_body]
fn chrono_parse_rfc2822(text: &str) -> (r: Result<i64, TimestampError>)
    ensures
        r is Ok <==> rfc2822_parsed(text@) is Some,
        r matches Ok(n) ==> rfc2822_parsed(text@) == Some(n),
        r matches Err(e) ==> (e is Parse <==> !rfc2822_wellformed(text@)) && (e is Overflow
            <==> rfc2822_wellformed(text@)),
{
    match chrono::DateTime::parse_from_rfc2822(text) {
        Ok(dt) => match dt.timestamp_nanos_opt() {
            Some(n) => Ok(n),
            None => Err(
                TimestampError::Overflow("DateTime value out of i64 nanosecond range".to_owned()),
            ),
        },
        Err(e) => Err(TimestampError::Parse(e.to_string())),
    }
}

impl NanoTimestamp {
    /// Render as RFC 3339 text, e.g. `1970-01-14T00:04:16.789+00:00`.
    pub fn as_rfc3339(&self) -> (r: String)
        ensures
            r@ == rfc3339_of(self.0),
    {
        chrono_format_rfc3339(self.0)
    }

    /// Render as RFC 2822 text, e.g. `Wed, 14 Jan 1970 00:04:16 +0000`.
    pub fn as_rfc2822(&self) -> (r: String)
        ensures
            r@ == rfc2822_of(self.0),
    {
        chrono_format_rfc2822(self.0)
    }

    /// Parse RFC 3339 text into a timestamp. Malformed text gives a `Parse`
    /// error; well-formed text naming an instant outside the representable
    /// range gives an `Overflow` error.
    pub fn from_rfc3339(rfc3339: &str) -> (r: Result<Self, TimestampError>)
        ensures
            r is Ok <==> rfc3339_parsed(rfc3339@) is Some,
            r matches Ok(t) ==> rfc3339_parsed(rfc3339@) == Some(t.0),
            r matches Err(e) ==> (e is Parse <==> !rfc3339_wellformed(rfc3339@)) && (e is Overflow
                <==> rfc3339_wellformed(rfc3339@)),
    {
        match chrono_parse_rfc3339(rfc3339) {
            Ok(n) => Ok(Self(n)),
            Err(e) => Err(e),
        }
    }

    /// Parse RFC 2822 text into a timestamp. Malformed text gives a `Parse`
    /// error; well-formed text naming an instant outside the representable
    /// range gives an `Overflow` error.
    pub fn from_rfc2822(rfc2822: &str) -> (r: Result<Self, TimestampError>)
        ensures
            r is Ok <==> rfc2822_parsed(rfc2822@) is Some,
            r matches Ok(t) ==> rfc2822_parsed(rfc2822@) == Some(t.0),
            r matches Err(e) ==> (e is Parse <==> !rfc2822_wellformed(rfc2822@)) && (e is Overflow
                <==> rfc2822_wellformed(rfc2822@)),
    {
        match chrono_parse_rfc2822(rfc2822) {
            Ok(n) => Ok(Self(n)),
            Err(e) => Err(e),
        }
    }
}

impl From<i64> for NanoTimestamp {
    fn from(nanos: i64) -> (r: Self) {
        Self(nanos)
    }
}

impl vstd::std_specs::convert::FromSpecImpl<i64> for NanoTimestamp {
    open spec fn obeys_from_spec() -> bool {
        true
    }

    open spec fn from_spec(nanos: i64) -> Self {
        NanoTimestamp(nanos)
    }
}

impl From<i64> for NanoDelta {
    fn from(nanos: i64) -> (r: Self) {
        Self(nanos)
    }
}

impl vstd::std_specs::convert::FromSpecImpl<i64> for NanoDelta {
    open spec fn obeys_from_spec() -> bool {
        true
    }

    open spec fn from_spec(nanos: i64) -> Self {
        NanoDelta(nanos)
    }
}

} // verus!

