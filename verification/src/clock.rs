//! The wall clock of the game's servers, and how a reading is written.
//!
//! Notifications carry the time of day in one fixed zone, whatever zone the
//! machine is in. The caller says what instant it is, in seconds since the
//! Unix epoch; the zone's reading at that instant comes from the calendar
//! library, and everything after it is plain formatting.

use vstd::prelude::*;
use vstd::string::StringExecFns;

verus! {

/// The server zone's offset from UTC, in seconds: five hours west.
pub const SERVER_UTC_OFFSET_SECONDS: i32 = -18000;

/// A time of day on a twelve-hour clock.
#[derive(Clone, Copy, Debug)]
pub struct ClockReading {
    /// `true` after noon.
    pub is_pm: bool,
    /// The hour, 1 to 12.
    pub hour: u32,
    /// The minute, 0 to 59.
    pub minute: u32,
    /// The second, 0 to 59.
    pub second: u32,
}

impl ClockReading {
    /// Whether the three numbers are in the range of a clock face.
    pub open spec fn well_formed(self) -> bool {
        &&& 1 <= self.hour <= 12
        &&& self.minute < 60
        &&& self.second < 60
    }
}

/// The time of day in the zone `offset_seconds` east of UTC at the instant
/// `epoch_seconds` after the Unix epoch, leap seconds not counted: whether
/// it is after noon, the hour on a twelve-hour clock, the minute and the
/// second. `None` where the offset is no zone offset or the instant is out
/// of the calendar's range.
pub uninterp spec fn zone_reading(epoch_seconds: int, offset_seconds: int) -> Option<
    (bool, int, int, int),
>;

/// The four parts of a reading, if there is one.
pub open spec fn reading_parts(reading: Option<ClockReading>) -> Option<(bool, int, int, int)> {
    match reading {
        Some(r) => Some((r.is_pm, r.hour as int, r.minute as int, r.second as int)),
        None => None,
    }
}

/// Converts an instant to the time of day in a zone:
/// `chrono::FixedOffset::east_opt` for the zone,
/// `chrono::DateTime::from_timestamp` for the instant,
/// `DateTime::with_timezone`, and `Timelike::hour12`, `minute` and `second`
/// of the result.
///
/// Trusted: that the outcome is `zone_reading` of the two numbers, and that
/// a reading's hour is 1 to 12, its minute and second 0 to 59, as `Timelike`
/// documents. The two constructors return `None` where they refuse a
/// number; no step panics.
#[verifier::external_body]
pub(crate) fn reading_at(epoch_seconds: i64, offset_seconds: i32) -> (reading: Option<
    ClockReading,
>)
    ensures
        reading_parts(reading) == zone_reading(epoch_seconds as int, offset_seconds as int),
        reading matches Some(r) ==> r.well_formed(),
{
    let zone = chrono::FixedOffset::east_opt(offset_seconds)?;
    let instant = chrono::DateTime::from_timestamp(epoch_seconds, 0)?;
    let local = instant.with_timezone(&zone);
    let (is_pm, hour) = chrono::Timelike::hour12(&local);
    Some(
        ClockReading {
            is_pm,
            hour,
            minute: chrono::Timelike::minute(&local),
            second: chrono::Timelike::second(&local),
        },
    )
}

/// The character of one decimal digit.
pub open spec fn digit_char(digit: int) -> char {
    (('0' as u8) + digit) as char
}

/// A natural number written in decimal, without leading zeros.
pub open spec fn decimal_text(n: nat) -> Seq<char>
    decreases n,
{
    if n < 10 {
        seq![digit_char(n as int)]
    } else {
        decimal_text(n / 10).push(digit_char((n % 10) as int))
    }
}

/// A natural number written in decimal with at least two digits: a number
/// below ten gets a leading zero.
pub open spec fn two_digit_text(n: nat) -> Seq<char> {
    if n < 10 {
        seq!['0', digit_char(n as int)]
    } else {
        decimal_text(n)
    }
}

/// The four parts of a reading written as `HH:MM:SS AM` or `HH:MM:SS PM`.
pub open spec fn parts_text(parts: (bool, int, int, int)) -> Seq<char> {
    two_digit_text(parts.1 as nat) + seq![':'] + two_digit_text(parts.2 as nat) + seq![':']
        + two_digit_text(parts.3 as nat) + seq![' '] + if parts.0 {
        seq!['P', 'M']
    } else {
        seq!['A', 'M']
    }
}

/// A reading written as `HH:MM:SS AM` or `HH:MM:SS PM`.
pub open spec fn reading_text(reading: ClockReading) -> Seq<char> {
    parts_text((reading.is_pm, reading.hour as int, reading.minute as int, reading.second as int))
}

/// The time of day in a zone at an instant, written as `HH:MM:SS AM` or
/// `HH:MM:SS PM`; `None` where the zone has no reading at that instant.
pub open spec fn zone_text(epoch_seconds: int, offset_seconds: int) -> Option<Seq<char>> {
    match zone_reading(epoch_seconds, offset_seconds) {
        Some(parts) => Some(parts_text(parts)),
        None => None,
    }
}

/// The character of one decimal digit.
fn digit_of(digit: u8) -> (c: char)
    requires
        digit < 10,
    ensures
        c == digit_char(digit as int),
{
    (('0' as u8) + digit) as char
}

/// Writes `n` in decimal.
pub fn decimal(n: u64) -> (text: String)
    ensures
        text@ == decimal_text(n as nat),
    decreases n,
{
    if n < 10 {
        let mut text = String::new();
        text.push(digit_of(n as u8));
        assert(text@ =~= decimal_text(n as nat));
        text
    } else {
        let mut text = decimal(n / 10);
        text.push(digit_of((n % 10) as u8));
        text
    }
}

/// Appends `n`, written with at least two digits, to `out`.
fn push_two_digits(out: &mut String, n: u32)
    ensures
        final(out)@ == old(out)@ + two_digit_text(n as nat),
{
    if n < 10 {
        out.push('0');
        out.push(digit_of(n as u8));
        assert(out@ =~= old(out)@ + two_digit_text(n as nat));
    } else {
        let digits = decimal(n as u64);
        out.append(digits.as_str());
    }
}

/// Writes a reading as `HH:MM:SS AM` or `HH:MM:SS PM`.
pub fn timestring(reading: ClockReading) -> (text: String)
    ensures
        text@ == reading_text(reading),
{
    let mut text = String::new();
    push_two_digits(&mut text, reading.hour);
    text.push(':');
    push_two_digits(&mut text, reading.minute);
    text.push(':');
    push_two_digits(&mut text, reading.second);
    text.push(' ');
    text.push(
        if reading.is_pm {
            'P'
        } else {
            'A'
        },
    );
    text.push('M');
    assert(text@ =~= reading_text(reading));
    text
}

/// The time of day in the zone `offset_seconds` east of UTC at the instant
/// `epoch_seconds`, written as `HH:MM:SS AM` or `HH:MM:SS PM`.
///
/// Returns `None` where the zone has no reading at that instant.
pub fn timestring_at(epoch_seconds: i64, offset_seconds: i32) -> (text: Option<String>)
    ensures
        text.deep_view() == zone_text(epoch_seconds as int, offset_seconds as int),
        text matches Some(written) ==> written@.len() == 11,
{
    match reading_at(epoch_seconds, offset_seconds) {
        Some(reading) => {
            proof {
                lemma_reading_text_has_eleven_characters(reading);
            }
            Some(timestring(reading))
        },
        None => None,
    }
}

/// The time of day in the server zone at the instant `epoch_seconds` after
/// the Unix epoch, written as `HH:MM:SS AM` or `HH:MM:SS PM`.
///
/// Returns `None` where the server zone has no reading at that instant.
pub fn get_webhook_timestring(epoch_seconds: i64) -> (text: Option<String>)
    ensures
        text.deep_view() == zone_text(epoch_seconds as int, SERVER_UTC_OFFSET_SECONDS as int),
        text matches Some(written) ==> written@.len() == 11,
{
    timestring_at(epoch_seconds, SERVER_UTC_OFFSET_SECONDS)
}

/// A reading from a clock face is written with eleven characters: two
/// digits each for hour, minute and second, two colons, a space and the two
/// letters of the half of the day.
pub proof fn lemma_reading_text_has_eleven_characters(reading: ClockReading)
    requires
        reading.well_formed(),
    ensures
        reading_text(reading).len() == 11,
        reading_text(reading)[2] == ':',
        reading_text(reading)[5] == ':',
        reading_text(reading)[8] == ' ',
        reading_text(reading)[10] == 'M',
{
    reveal_with_fuel(decimal_text, 2);
    assert(two_digit_text(reading.hour as nat).len() == 2);
    assert(two_digit_text(reading.minute as nat).len() == 2);
    assert(two_digit_text(reading.second as nat).len() == 2);
}

} // verus!
