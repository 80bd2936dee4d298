use vstd::prelude::*;
use vstd::string::StringSliceAdditionalSpecFns;

use crate::navigation::trim_bounds;
use crate::selection::white_space;
use crate::calendar::{
    clock_day, date_before, format_date, formatted_date, is_before, is_calendar_date, parse_date,
    parsed_date, today, CalendarDate,
};

verus! {

/// A validation outcome by the views of its strings.
pub open spec fn outcome_view(result: Result<String, String>) -> Result<Seq<char>, Seq<char>> {
    match result {
        Ok(value) => Ok(value@),
        Err(message) => Err(message@),
    }
}

pub open spec fn is_digit_byte(b: u8) -> bool {
    48 <= b <= 57
}

/// The number written by two decimal digits.
pub open spec fn two_digit_value(tens: u8, ones: u8) -> int {
    (tens - 48) * 10 + (ones - 48)
}

pub open spec fn all_digit_bytes(bytes: Seq<u8>) -> bool {
    forall|i: int| 0 <= i < bytes.len() ==> is_digit_byte(#[trigger] bytes[i])
}

/// What the birth-date part of an Austrian insurance number (DDMMYY)
/// validates to: empty input is accepted as it is; otherwise the input must be
/// six digits, with a day of at most 31 and a month of at most 15.
pub open spec fn insurance_date_outcome(value: &str) -> Result<Seq<char>, Seq<char>> {
    let bytes = value.spec_bytes();
    if value@.len() == 0 {
        Ok(Seq::empty())
    } else if bytes.len() != 6 || !all_digit_bytes(bytes) {
        Err("Der zweite Teil der Versicherungsnummer muss aus 6 Zeichen bestehen"@)
    } else if two_digit_value(bytes[0], bytes[1]) > 31 {
        Err("Der Tag darf nicht größer als 31 sein"@)
    } else if two_digit_value(bytes[2], bytes[3]) > 15 {
        Err("Falsche Monatsangabe!"@)
    } else {
        Ok(value@)
    }
}

fn digit_pair(tens: u8, ones: u8) -> (value: u8)
    requires
        is_digit_byte(tens),
        is_digit_byte(ones),
    ensures
        value == two_digit_value(tens, ones),
{
    (tens - 48) * 10 + (ones - 48)
}

/// Validates the birth-date part of an Austrian insurance number, with the
/// messages the form itself shows.
pub fn validate_insurance_date(value: &str) -> (result: Result<String, String>)
    ensures
        outcome_view(result) == insurance_date_outcome(value),
{
    if value.is_empty() {
        return Ok(String::new());
    }
    let bytes = value.as_bytes();
    let mut digits = bytes.len() == 6;
    let mut i: usize = 0;
    while digits && i < bytes.len()
        invariant
            bytes@ == value.spec_bytes(),
            i <= bytes@.len(),
            digits ==> forall|k: int| 0 <= k < i ==> is_digit_byte(#[trigger] bytes@[k]),
            digits ==> bytes@.len() == 6,
            !digits ==> (bytes@.len() != 6 || !all_digit_bytes(bytes@)),
        decreases bytes@.len() - i,
    {
        if !(48 <= bytes[i] && bytes[i] <= 57) {
            digits = false;
        }
        i = i + 1;
    }
    if !digits {
        return Err(
            String::from_str("Der zweite Teil der Versicherungsnummer muss aus 6 Zeichen bestehen"),
        );
    }
    let day = digit_pair(bytes[0], bytes[1]);
    if day > 31 {
        return Err(String::from_str("Der Tag darf nicht größer als 31 sein"));
    }
    let month = digit_pair(bytes[2], bytes[3]);
    if month > 15 {
        return Err(String::from_str("Falsche Monatsangabe!"));
    }
    Ok(value.to_owned())
}

/// The strftime pattern of the dates the form fields hold: day.month.year.
pub open spec fn field_date_pattern() -> Seq<char> {
    "%d.%m.%Y"@
}

/// The input as it is parsed: a nine-byte input (one day digit) gets a
/// leading zero.
pub open spec fn padded_date_input(value: &str) -> Seq<char> {
    if value.spec_bytes().len() == 9 {
        "0"@ + value@
    } else {
        value@
    }
}

/// The message for input that does not read as a date.
pub open spec fn date_format_message(display_format: Seq<char>, example: Seq<char>) -> Seq<char> {
    "Bitte geben Sie das Datum im Format "@ + display_format + " ein. (Beispiel:"@ + example
        + ")"@
}

/// Whether the date is rejected as lying in the future: future dates are
/// rejected, the clock gave a day, and the date falls after it.
pub open spec fn after_today(
    date: CalendarDate,
    reject_future: bool,
    today: Option<CalendarDate>,
) -> bool {
    reject_future && (today matches Some(day) && date_before(day, date))
}

/// Whether the bounds read as day.month.year dates wherever the validation of
/// `value` reaches them when the date is not rejected as lying in the future:
/// the minimum once the value reads as a date, the maximum once that date is
/// also not before the minimum.
pub open spec fn date_bounds_readable(value: &str, minimum: Seq<char>, maximum: Seq<char>) -> bool {
    value@.len() > 0 ==> match parsed_date(padded_date_input(value), field_date_pattern()) {
        Some(date) => match parsed_date(minimum, field_date_pattern()) {
            Some(low) => !date_before(date, low) ==> parsed_date(
                maximum,
                field_date_pattern(),
            ) is Some,
            None => false,
        },
        None => true,
    }
}

/// Whether validating `value` comes to an outcome without reading a bound
/// that is not a date: the bounds read where they are reached, or the value
/// is a date rejected as lying after `today`.
pub open spec fn date_settles(
    value: &str,
    reject_future: bool,
    minimum: Seq<char>,
    maximum: Seq<char>,
    today: Option<CalendarDate>,
) -> bool {
    ||| date_bounds_readable(value, minimum, maximum)
    ||| value@.len() > 0 && (parsed_date(padded_date_input(value), field_date_pattern()) matches Some(
        date,
    ) && after_today(date, reject_future, today))
}

/// What a date form field validates to when the clock gave `today`: empty
/// input is accepted; otherwise the input (with a leading zero added to a
/// single day digit) must read as day.month.year, not lie after today when
/// future dates are rejected and the clock gave a day, and lie within the
/// bounds; it is then written back in the form's own day.month.year shape.
pub open spec fn date_outcome(
    value: &str,
    display_format: Seq<char>,
    example: Seq<char>,
    reject_future: bool,
    minimum: Seq<char>,
    maximum: Seq<char>,
    today: Option<CalendarDate>,
) -> Result<Seq<char>, Seq<char>> {
    if value@.len() == 0 {
        Ok(Seq::empty())
    } else {
        match parsed_date(padded_date_input(value), field_date_pattern()) {
            None => Err(date_format_message(display_format, example)),
            Some(date) => {
                if after_today(date, reject_future, today) {
                    Err("Das Datum darf nicht nach dem akutellen Datum liegen!"@)
                } else if date_before(date, parsed_date(minimum, field_date_pattern())->0) {
                    Err("Das Datum muss nach "@ + minimum + " liegen."@)
                } else if date_before(parsed_date(maximum, field_date_pattern())->0, date) {
                    Err("Das Datum muss vor "@ + maximum + " liegen."@)
                } else {
                    Ok(formatted_date(date, field_date_pattern()))
                }
            },
        }
    }
}

/// The date a field value reads as: the value, with a leading zero added to a
/// single day digit, read as day.month.year.
fn field_date(value: &str) -> (date: Option<CalendarDate>)
    ensures
        date == parsed_date(padded_date_input(value), field_date_pattern()),
        date matches Some(d) ==> is_calendar_date(d),
{
    let padded = if value.as_bytes().len() == 9 {
        let mut padded = String::from_str("0");
        padded.append(value);
        padded
    } else {
        value.to_owned()
    };
    assert(padded@ == padded_date_input(value));
    parse_date(padded.as_str(), "%d.%m.%Y")
}

/// Validates a date form field as on the day `today` the clock gave (`None`
/// where it gave none), with the messages the form itself shows.
pub fn validate_date_value_on(
    value: &str,
    display_format: &str,
    example: &str,
    reject_future: bool,
    minimum: &str,
    maximum: &str,
    today: Option<CalendarDate>,
) -> (result: Result<String, String>)
    requires
        date_settles(value, reject_future, minimum@, maximum@, today),
    ensures
        outcome_view(result) == date_outcome(
            value,
            display_format@,
            example@,
            reject_future,
            minimum@,
            maximum@,
            today,
        ),
{
    if value.is_empty() {
        return Ok(String::new());
    }
    let pattern = "%d.%m.%Y";
    let date = match field_date(value) {
        Some(date) => date,
        None => {
            let mut message = String::from_str("Bitte geben Sie das Datum im Format ");
            message.append(display_format);
            message.append(" ein. (Beispiel:");
            message.append(example);
            message.append(")");
            return Err(message);
        },
    };
    let future = match today {
        Some(day) => reject_future && is_before(day, date),
        None => false,
    };
    if future {
        return Err(String::from_str("Das Datum darf nicht nach dem akutellen Datum liegen!"));
    }
    let low = match parse_date(minimum, pattern) {
        Some(low) => low,
        None => {
            assert(false);
            return Err(String::new());
        },
    };
    if is_before(date, low) {
        let mut message = String::from_str("Das Datum muss nach ");
        message.append(minimum);
        message.append(" liegen.");
        return Err(message);
    }
    let high = match parse_date(maximum, pattern) {
        Some(high) => high,
        None => {
            assert(false);
            return Err(String::new());
        },
    };
    if is_before(high, date) {
        let mut message = String::from_str("Das Datum muss vor ");
        message.append(maximum);
        message.append(" liegen.");
        return Err(message);
    }
    Ok(format_date(date, pattern))
}

/// Validates a date form field, with the messages the form itself shows. The
/// clock is read only where the answer depends on it: for a value that reads
/// as a date when future dates are rejected. The outcome is that of
/// `validate_date_value_on` for what the clock gave.
pub fn validate_date_value(
    value: &str,
    display_format: &str,
    example: &str,
    reject_future: bool,
    minimum: &str,
    maximum: &str,
) -> (result: Result<String, String>)
    requires
        date_bounds_readable(value, minimum@, maximum@),
    ensures
        exists|day: Option<CalendarDate>|
            clock_day(day) && outcome_view(result) == #[trigger] date_outcome(
                value,
                display_format@,
                example@,
                reject_future,
                minimum@,
                maximum@,
                day,
            ),
        !reject_future ==> outcome_view(result) == date_outcome(
            value,
            display_format@,
            example@,
            reject_future,
            minimum@,
            maximum@,
            None,
        ),
{
    let day = if reject_future && !value.is_empty() && field_date(value).is_some() {
        today()
    } else {
        None
    };
    validate_date_value_on(value, display_format, example, reject_future, minimum, maximum, day)
}

/// Whether the bounds read as dates wherever the validation of `value`
/// reaches them, short of a rejection as lying in the future.
fn bounds_readable(value: &str, minimum: &str, maximum: &str) -> (readable: bool)
    ensures
        readable == date_bounds_readable(value, minimum@, maximum@),
{
    if value.is_empty() {
        return true;
    }
    match field_date(value) {
        None => true,
        Some(date) => match parse_date(minimum, "%d.%m.%Y") {
            None => false,
            Some(low) => is_before(date, low) || parse_date(maximum, "%d.%m.%Y").is_some(),
        },
    }
}

/// Validates a date form field like `validate_date_value`, without asking
/// that the bounds be dates: `None` where validating would read a bound that
/// is not one. The clock is read at most once, and only for a value that
/// reads as a date when future dates are rejected; what is returned is the
/// outcome for what it gave.
pub fn validate_date_field(
    value: &str,
    display_format: &str,
    example: &str,
    reject_future: bool,
    minimum: &str,
    maximum: &str,
) -> (result: Option<Result<String, String>>)
    ensures
        date_bounds_readable(value, minimum@, maximum@) ==> result is Some,
        exists|day: Option<CalendarDate>|
            #![trigger clock_day(day)]
            clock_day(day) && match result {
                Some(outcome) => outcome_view(outcome) == date_outcome(
                    value,
                    display_format@,
                    example@,
                    reject_future,
                    minimum@,
                    maximum@,
                    day,
                ),
                None => !date_settles(value, reject_future, minimum@, maximum@, day),
            },
{
    if bounds_readable(value, minimum, maximum) {
        return Some(
            validate_date_value(value, display_format, example, reject_future, minimum, maximum),
        );
    }
    if !reject_future {
        assert(clock_day(None) && !date_settles(value, reject_future, minimum@, maximum@, None));
        return None;
    }
    let day = today();
    let date = match field_date(value) {
        Some(date) => date,
        None => {
            assert(false);
            return None;
        },
    };
    assert(clock_day(day));
    match day {
        Some(now) => {
            if is_before(now, date) {
                Some(
                    validate_date_value_on(
                        value,
                        display_format,
                        example,
                        reject_future,
                        minimum,
                        maximum,
                        day,
                    ),
                )
            } else {
                None
            }
        },
        None => None,
    }
}

/// The strftime pattern for a form's date format name: month/day/year,
/// year-month-day, and day.month.year for any other name.
pub open spec fn pattern_for_format(format: Seq<char>) -> Seq<char> {
    if format == "mm/dd/yyyy"@ {
        "%m/%d/%Y"@
    } else if format == "yyyy-mm-dd"@ {
        "%Y-%m-%d"@
    } else {
        "%d.%m.%Y"@
    }
}

/// `date` written in the form's date format `format`.
pub fn format_date_as(format: &str, date: CalendarDate) -> (text: String)
    requires
        is_calendar_date(date),
    ensures
        text@ == formatted_date(date, pattern_for_format(format@)),
{
    let name = format.to_owned();
    let pattern = if name == String::from_str("mm/dd/yyyy") {
        "%m/%d/%Y"
    } else if name == String::from_str("yyyy-mm-dd") {
        "%Y-%m-%d"
    } else {
        "%d.%m.%Y"
    };
    format_date(date, pattern)
}

/// The text a form shows for the day the clock gave, in the date format
/// `format`; none where the clock gave no day.
pub open spec fn day_text(format: Seq<char>, day: Option<CalendarDate>) -> Option<Seq<char>> {
    match day {
        Some(d) => Some(formatted_date(d, pattern_for_format(format))),
        None => None,
    }
}

/// Today's date written in the form's date format `format`; `None` where the
/// clock gives no day.
pub fn format_today(format: &str) -> (text: Option<String>)
    ensures
        exists|day: Option<CalendarDate>|
            #![trigger clock_day(day)]
            clock_day(day) && day_text(format@, day) == match text {
                Some(t) => Some(t@),
                None => None,
            },
{
    let day = today();
    let text = match day {
        Some(d) => Some(format_date_as(format, d)),
        None => None,
    };
    assert(clock_day(day));
    text
}

/// What becomes of a form field when it loses focus.
#[derive(Debug, PartialEq, Eq)]
pub enum FieldCheck {
    /// The value stands as typed.
    Keep,
    /// The value is replaced by its normalized form.
    Replace(String),
    /// The value is replaced and the user is told why.
    Alert { value: String, message: String },
}

/// A field check by the views of its strings.
pub open spec fn check_view(check: FieldCheck) -> (int, Seq<char>, Seq<char>) {
    match check {
        FieldCheck::Keep => (0, Seq::empty(), Seq::empty()),
        FieldCheck::Replace(value) => (1, value@, Seq::empty()),
        FieldCheck::Alert { value, message } => (2, value@, message@),
    }
}

pub open spec fn all_white_space(s: Seq<char>) -> bool {
    forall|i: int| 0 <= i < s.len() ==> white_space(#[trigger] s[i])
}

/// What becomes of a field on blur: a required field left blank gets its
/// stored value back with an alert; otherwise the validation outcome, where
/// the field has a validation rule, decides: a normalized value replaces the
/// typed one, and a rejected value is cleared (date fields) or reset to the
/// stored value (other fields), with the rule's message.
pub open spec fn field_outcome(
    required: bool,
    value: Seq<char>,
    stored: Seq<char>,
    validation: Option<(bool, Result<Seq<char>, Seq<char>>)>,
) -> (int, Seq<char>, Seq<char>) {
    if required && all_white_space(value) {
        (2, stored, "Please fill out this field."@)
    } else {
        match validation {
            None => (0, Seq::empty(), Seq::empty()),
            Some((is_date, outcome)) => match outcome {
                Ok(normalized) => if normalized != value {
                    (1, normalized, Seq::empty())
                } else {
                    (0, Seq::empty(), Seq::empty())
                },
                Err(message) => (
                    2,
                    if is_date {
                        Seq::empty()
                    } else {
                        stored
                    },
                    message,
                ),
            },
        }
    }
}

/// Decides what becomes of a form field when it loses focus. `validation`
/// holds, for a field with a validation rule, whether the rule is a date rule
/// and what validating the typed value gave.
pub fn check_field(
    required: bool,
    value: &str,
    stored: &str,
    validation: Option<(bool, Result<String, String>)>,
) -> (check: FieldCheck)
    ensures
        check_view(check) == field_outcome(
            required,
            value@,
            stored@,
            match validation {
                Some((is_date, outcome)) => Some((is_date, outcome_view(outcome))),
                None => None,
            },
        ),
{
    let (start, end) = trim_bounds(value);
    if required && start == end {
        assert(all_white_space(value@)) by {
            assert forall|i: int| 0 <= i < value@.len() implies white_space(#[trigger] value@[i]) by {
                if i >= start as int {
                    assert(i >= end as int);
                }
            }
        }
        return FieldCheck::Alert {
            value: stored.to_owned(),
            message: String::from_str("Please fill out this field."),
        };
    }
    if required {
        assert(!all_white_space(value@)) by {
            assert(!white_space(value@[start as int]));
        }
    }
    match validation {
        None => FieldCheck::Keep,
        Some((is_date, outcome)) => match outcome {
            Ok(normalized) => {
                if normalized != value.to_owned() {
                    FieldCheck::Replace(normalized)
                } else {
                    FieldCheck::Keep
                }
            },
            Err(message) => {
                let replacement = if is_date {
                    String::new()
                } else {
                    stored.to_owned()
                };
                FieldCheck::Alert { value: replacement, message }
            },
        },
    }
}

} // verus!
