//! Calendar dates as play records give them.

use vstd::prelude::*;
use crate::text::{
    chars_of, decimal_i32, fields_of, lemma_field_views, parse_i32, split_fields,
};

verus! {

/// A calendar date. The three numbers are kept as given: nothing checks that
/// the month or the day exists.
#[derive(Clone, Copy, Debug, PartialEq, Eq, Structural)]
pub struct Date {
    year: i32,
    month: i32,
    day: i32,
}

/// What a `Date` holds.
pub struct DateView {
    pub year: int,
    pub month: int,
    pub day: int,
}

impl View for Date {
    type V = DateView;

    closed spec fn view(&self) -> DateView {
        DateView { year: self.year as int, month: self.month as int, day: self.day as int }
    }
}

/// Why a date token was refused.
#[derive(Clone, Copy, Debug, PartialEq, Eq, Structural)]
pub enum DateError {
    /// The year is not a 32-bit decimal integer.
    InvalidYear,
    /// The month is not a 32-bit decimal integer.
    InvalidMonth,
    /// The day is not a 32-bit decimal integer.
    InvalidDay,
    /// The token has fewer than three fields.
    MissingField,
}

/// The date that a `year/month/day` token denotes, or the reason it denotes
/// none. The fields are read in order, and the first fault decides: a year
/// that is no number is reported before a month that is missing. Fields after
/// the third are ignored.
pub open spec fn date_of_token(token: Seq<char>) -> Result<DateView, DateError> {
    let fields = fields_of(token, '/');
    if decimal_i32(fields[0]) is None {
        Err(DateError::InvalidYear)
    } else if fields.len() < 2 {
        Err(DateError::MissingField)
    } else if decimal_i32(fields[1]) is None {
        Err(DateError::InvalidMonth)
    } else if fields.len() < 3 {
        Err(DateError::MissingField)
    } else if decimal_i32(fields[2]) is None {
        Err(DateError::InvalidDay)
    } else {
        Ok(
            DateView {
                year: decimal_i32(fields[0])->0 as int,
                month: decimal_i32(fields[1])->0 as int,
                day: decimal_i32(fields[2])->0 as int,
            },
        )
    }
}

impl Date {
    pub fn new(year: i32, month: i32, day: i32) -> (date: Self)
        ensures
            date@ == (DateView { year: year as int, month: month as int, day: day as int }),
    {
        Self { year, month, day }
    }

    pub fn clone(&self) -> (copy: Self)
        ensures
            copy == *self,
    {
        Self { year: self.year, month: self.month, day: self.day }
    }

    pub fn get_year(&self) -> (year: &i32)
        ensures
            *year == self@.year,
    {
        &self.year
    }

    pub fn get_month(&self) -> (month: &i32)
        ensures
            *month == self@.month,
    {
        &self.month
    }

    pub fn get_day(&self) -> (day: &i32)
        ensures
            *day == self@.day,
    {
        &self.day
    }
}

/// Reads a `year/month/day` token such as `2023/04/01`.
pub fn convert_string_to_date(date_string: &str) -> (date: Result<Date, DateError>)
    ensures
        match date {
            Ok(d) => date_of_token(date_string@) == Ok::<DateView, DateError>(d@),
            Err(e) => date_of_token(date_string@) == Err::<DateView, DateError>(e),
        },
{
    let chars = chars_of(date_string);
    date_from_chars(&chars)
}

/// Reads a `year/month/day` token that is at hand as characters.
pub fn date_from_chars(token: &Vec<char>) -> (date: Result<Date, DateError>)
    ensures
        match date {
            Ok(d) => date_of_token(token@) == Ok::<DateView, DateError>(d@),
            Err(e) => date_of_token(token@) == Err::<DateView, DateError>(e),
        },
{
    let fields = split_fields(token, '/');
    proof {
        lemma_field_views(fields@, fields_of(token@, '/'));
    }
    let year = match parse_i32(&fields[0]) {
        Some(year) => year,
        None => {
            return Err(DateError::InvalidYear);
        },
    };
    if fields.len() < 2 {
        return Err(DateError::MissingField);
    }
    let month = match parse_i32(&fields[1]) {
        Some(month) => month,
        None => {
            return Err(DateError::InvalidMonth);
        },
    };
    if fields.len() < 3 {
        return Err(DateError::MissingField);
    }
    let day = match parse_i32(&fields[2]) {
        Some(day) => day,
        None => {
            return Err(DateError::InvalidDay);
        },
    };
    Ok(Date { year, month, day })
}

} // verus!
