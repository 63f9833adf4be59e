//! The timestamp codec: epoch seconds arrive as an integer or as a string,
//! and leave as one UTC instant.

use chrono::{NaiveDateTime, TimeZone, Utc};
use vstd::prelude::*;
use vstd::std_specs::convert::TryFromSpecImpl;

verus! {

/// The first second that a UTC instant can hold: midnight on the first day
/// of the year -262143.
pub const MIN_EPOCH_SECONDS: i64 = -8_334_601_228_800;

/// The last second that a UTC instant can hold: the last second of the year
/// 262142.
pub const MAX_EPOCH_SECONDS: i64 = 8_210_266_876_799;

/// A UTC instant, held as whole seconds since the start of 1970.
#[derive(Debug, Clone, Copy, PartialEq, Eq, Structural)]
pub struct Timestamp(pub i64);

/// The two shapes in which a timestamp arrives.
#[derive(Debug, Clone, PartialEq, Eq)]
pub enum TimestampDeserialize {
    TsI64(i64),
    TsString(String),
}

/// Why a value is no timestamp.
#[derive(Debug, Clone, Copy, PartialEq, Eq, Structural)]
pub enum ParseTimeError {
    /// The integer lies outside the range of UTC instants.
    FromInt(i64),
    /// The string does not spell epoch seconds.
    FromString,
}

/// `chrono::ParseError`, the error of chrono's date parser. It is carried
/// from the parser to the place where it becomes
/// [`ParseTimeError::FromString`]; nothing is said of what it holds.
#[verifier::external_type_specification]
#[verifier::external_body]
pub struct ExParseError(chrono::ParseError);

/// The seconds since the start of 1970 of the date and time that
/// `chrono::NaiveDateTime::parse_from_str` reads from `text` under `format`,
/// or `None` where it reports an error.
pub uninterp spec fn naive_epoch_seconds(text: Seq<char>, format: Seq<char>) -> Option<i64>;

/// Whether `secs` lies within the range of UTC instants.
pub open spec fn is_utc_second(secs: i64) -> bool {
    MIN_EPOCH_SECONDS <= secs <= MAX_EPOCH_SECONDS
}

/// The instant that an integer denotes.
pub open spec fn timestamp_from_int(secs: i64) -> Result<Timestamp, ParseTimeError> {
    if is_utc_second(secs) {
        Ok(Timestamp(secs))
    } else {
        Err(ParseTimeError::FromInt(secs))
    }
}

/// The instant that follows from what the date parser made of a string.
pub open spec fn timestamp_from_parsed(parsed: Option<i64>) -> Result<Timestamp, ParseTimeError> {
    match parsed {
        Some(secs) => timestamp_from_int(secs),
        None => Err(ParseTimeError::FromString),
    }
}

/// The instant that a string denotes.
pub open spec fn timestamp_from_text(text: Seq<char>) -> Result<Timestamp, ParseTimeError> {
    timestamp_from_parsed(naive_epoch_seconds(text, "%s"@))
}

/// What decoding a timestamp attribute yields.
pub open spec fn decoded_timestamp(value: TimestampDeserialize) -> Result<
    Timestamp,
    ParseTimeError,
> {
    match value {
        TimestampDeserialize::TsI64(secs) => timestamp_from_int(secs),
        TimestampDeserialize::TsString(s) => timestamp_from_text(s@),
    }
}

/// `chrono::TimeZone::timestamp_opt` on `Utc` with no nanoseconds, then
/// `earliest`, the instant read back with `chrono::DateTime::timestamp`.
///
/// Not proved, but taken from chrono: it builds the instant from the day
/// that `secs` falls on and accepts it exactly when that day lies in a year
/// from -262143 to 262142, whose first and last second are the two bounds;
/// for UTC the result is never ambiguous; and the instant it builds reads
/// back as `secs`.
#[verifier::external_body]
fn utc_instant_seconds(secs: i64) -> (r: Option<i64>)
    ensures
        r == (if is_utc_second(secs) {
            Some(secs)
        } else {
            None::<i64>
        }),
{
    match Utc.timestamp_opt(secs, 0).earliest() {
        Some(instant) => Some(instant.timestamp()),
        None => None,
    }
}

/// `chrono::NaiveDateTime::parse_from_str`, the date and time it returns read
/// as seconds since the start of 1970 (`and_utc`, then `timestamp`).
///
/// Not proved, but taken from chrono: what it reads from a text under a
/// format depends on these two alone. The contract gives that outcome its
/// name and claims nothing else of it.
#[verifier::external_body]
fn parse_naive_seconds(text: &str, format: &str) -> (r: Result<i64, chrono::ParseError>)
    ensures
        match r {
            Ok(secs) => naive_epoch_seconds(text@, format@) == Some(secs),
            Err(_) => naive_epoch_seconds(text@, format@) is None,
        },
{
    match NaiveDateTime::parse_from_str(text, format) {
        Ok(naive) => Ok(naive.and_utc().timestamp()),
        Err(e) => Err(e),
    }
}

impl Timestamp {
    /// Whether this value is an instant that UTC can hold.
    pub open spec fn is_valid(self) -> bool {
        is_utc_second(self.0)
    }

    /// The seconds since the start of 1970.
    pub fn epoch_seconds(&self) -> (secs: i64)
        ensures
            secs == self.0,
    {
        self.0
    }

    /// The instant `secs` seconds after the start of 1970, or
    /// `ParseTimeError::FromInt` where no UTC instant is that far away.
    pub fn from_epoch_seconds(secs: i64) -> (r: Result<Timestamp, ParseTimeError>)
        ensures
            r == timestamp_from_int(secs),
            r matches Ok(t) ==> t.is_valid(),
    {
        match utc_instant_seconds(secs) {
            Some(instant) => Ok(Timestamp(instant)),
            None => Err(ParseTimeError::FromInt(secs)),
        }
    }

    /// The instant that follows from the date parser's reading of a string:
    /// its seconds where it read some, `ParseTimeError::FromString` where it
    /// read none.
    pub fn from_parsed_seconds(parsed: Option<i64>) -> (r: Result<Timestamp, ParseTimeError>)
        ensures
            r == timestamp_from_parsed(parsed),
            r matches Ok(t) ==> t.is_valid(),
    {
        match parsed {
            Some(secs) => Timestamp::from_epoch_seconds(secs),
            None => Err(ParseTimeError::FromString),
        }
    }

    /// The instant that `text` spells as epoch seconds.
    pub fn from_text(text: &str) -> (r: Result<Timestamp, ParseTimeError>)
        ensures
            r == timestamp_from_text(text@),
            r matches Ok(t) ==> t.is_valid(),
    {
        let parsed = match parse_naive_seconds(text, "%s") {
            Ok(secs) => Some(secs),
            Err(_) => None,
        };
        Timestamp::from_parsed_seconds(parsed)
    }
}

impl TryFrom<TimestampDeserialize> for Timestamp {
    type Error = ParseTimeError;

    fn try_from(value: TimestampDeserialize) -> (r: Result<Timestamp, ParseTimeError>) {
        match value {
            TimestampDeserialize::TsI64(secs) => Timestamp::from_epoch_seconds(secs),
            TimestampDeserialize::TsString(s) => Timestamp::from_text(s.as_str()),
        }
    }
}

impl TryFromSpecImpl<TimestampDeserialize> for Timestamp {
    open spec fn obeys_try_from_spec() -> bool {
        true
    }

    open spec fn try_from_spec(value: TimestampDeserialize) -> Result<Timestamp, ParseTimeError> {
        decoded_timestamp(value)
    }
}

/// An integer and a string that the date parser reads as that integer
/// decode to the same instant, or fail alike where the integer is out of
/// range.
pub proof fn lemma_timestamp_shapes_agree(secs: i64, spelled: String)
    ensures
        naive_epoch_seconds(spelled@, "%s"@) == Some(secs) ==> decoded_timestamp(
            TimestampDeserialize::TsString(spelled),
        ) == decoded_timestamp(TimestampDeserialize::TsI64(secs)),
{
}

} // verus!
