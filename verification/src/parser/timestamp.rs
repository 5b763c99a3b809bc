//! The point in time of a log line, read from its fields.

use crate::parser::decimal::{parse_u32, u32_of_text};
use crate::parser::field_map::FieldMap;
use vstd::prelude::*;

verus! {

#[derive(Clone, Debug, Eq, PartialEq)]
pub struct Timestamp {
    pub year: u32,
    pub month: u32,
    pub day: u32,
    pub hour: u32,
    pub minute: u32,
    pub second: u32,
    pub millisecond: Option<u32>,
}

/// The number that the field `name` spells, if the fields hold it and it
/// spells one.
pub open spec fn number_field(fields: Map<Seq<char>, Seq<char>>, name: Seq<char>) -> Option<u32> {
    if fields.contains_key(name) {
        u32_of_text(fields[name])
    } else {
        None
    }
}

/// The timestamp that the fields `year`, `month`, `day`, `hour`, `minute`,
/// `second` and `millisecond` spell. Only the milliseconds may be missing.
pub open spec fn timestamp_of_fields(fields: Map<Seq<char>, Seq<char>>) -> Option<Timestamp> {
    if number_field(fields, "year"@) is Some && number_field(fields, "month"@) is Some
        && number_field(fields, "day"@) is Some && number_field(fields, "hour"@) is Some
        && number_field(fields, "minute"@) is Some && number_field(fields, "second"@) is Some {
        Some(
            Timestamp {
                year: number_field(fields, "year"@)->0,
                month: number_field(fields, "month"@)->0,
                day: number_field(fields, "day"@)->0,
                hour: number_field(fields, "hour"@)->0,
                minute: number_field(fields, "minute"@)->0,
                second: number_field(fields, "second"@)->0,
                millisecond: number_field(fields, "millisecond"@),
            },
        )
    } else {
        None
    }
}

/// Reads the number that one field spells.
pub fn read_number_field(fields: &FieldMap, name: &str) -> (number: Option<u32>)
    ensures
        number == number_field(fields@, name@),
{
    match fields.get(name) {
        Some(text) => parse_u32(text.as_str()),
        None => None,
    }
}

impl Timestamp {
    /// The timestamp that the texts spell. Milliseconds that spell no number
    /// count as missing.
    pub fn new(
        year: &str,
        month: &str,
        day: &str,
        hour: &str,
        minute: &str,
        second: &str,
        millisecond: Option<&str>,
    ) -> (timestamp: Self)
        requires
            u32_of_text(year@) is Some,
            u32_of_text(month@) is Some,
            u32_of_text(day@) is Some,
            u32_of_text(hour@) is Some,
            u32_of_text(minute@) is Some,
            u32_of_text(second@) is Some,
        ensures
            timestamp == (Timestamp {
                year: u32_of_text(year@)->0,
                month: u32_of_text(month@)->0,
                day: u32_of_text(day@)->0,
                hour: u32_of_text(hour@)->0,
                minute: u32_of_text(minute@)->0,
                second: u32_of_text(second@)->0,
                millisecond: match millisecond {
                    Some(ms) => u32_of_text(ms@),
                    None => None,
                },
            }),
    {
        Timestamp {
            year: parse_u32(year).unwrap(),
            month: parse_u32(month).unwrap(),
            day: parse_u32(day).unwrap(),
            hour: parse_u32(hour).unwrap(),
            minute: parse_u32(minute).unwrap(),
            second: parse_u32(second).unwrap(),
            millisecond: match millisecond {
                Some(ms) => parse_u32(ms),
                None => None,
            },
        }
    }

    /// The timestamp that the fields of a line spell, if they spell one.
    pub fn read(fields: &FieldMap) -> (timestamp: Option<Self>)
        ensures
            timestamp == timestamp_of_fields(fields@),
    {
        let year = read_number_field(fields, "year");
        let month = read_number_field(fields, "month");
        let day = read_number_field(fields, "day");
        let hour = read_number_field(fields, "hour");
        let minute = read_number_field(fields, "minute");
        let second = read_number_field(fields, "second");
        let millisecond = read_number_field(fields, "millisecond");
        match (year, month, day, hour, minute, second) {
            (Some(year), Some(month), Some(day), Some(hour), Some(minute), Some(second)) => Some(
                Timestamp { year, month, day, hour, minute, second, millisecond },
            ),
            _ => None,
        }
    }

    /// The timestamp of a matched line, from its fields.
    pub fn from_match(fields: &FieldMap) -> (timestamp: Self)
        requires
            timestamp_of_fields(fields@) is Some,
        ensures
            Some(timestamp) == timestamp_of_fields(fields@),
    {
        Self::read(fields).unwrap()
    }
}

} // verus!
