//! Calendar dates and RFC 3339 timestamps.

use vstd::prelude::*;

use crate::text::{
    all_digits, decimal_value, find_byte, first_index, is_digit, law_numbers_are_decimal,
    law_pieces_lie_between_separators, lemma_first_index, only_digits, parse_digits, split_fields,
    split_on,
};

verus! {

/// Whether `year` has a 29th of February.
pub open spec fn is_leap(year: int) -> bool {
    year % 400 == 0 || (year % 4 == 0 && year % 100 != 0)
}

/// Days of one month; none where there is no such month.
pub open spec fn month_length(year: int, month: int) -> int {
    if month == 4 || month == 6 || month == 9 || month == 11 {
        30
    } else if month == 2 {
        if is_leap(year) {
            29
        } else {
            28
        }
    } else if 1 <= month <= 12 {
        31
    } else {
        0
    }
}

/// Days of one year.
pub open spec fn year_length(year: int) -> int {
    if is_leap(year) {
        366
    } else {
        365
    }
}

/// Days of a year before its month `month`.
pub open spec fn days_before_month(year: int, month: int) -> int
    decreases month,
{
    if month <= 1 {
        0
    } else {
        days_before_month(year, month - 1) + month_length(year, month - 1)
    }
}

/// Days from the first day of year zero to the first day of `year`.
pub open spec fn days_before_year(year: int) -> int
    decreases year,
{
    if year <= 0 {
        0
    } else {
        days_before_year(year - 1) + year_length(year - 1)
    }
}

/// Days from the first of January 1970 to a date, counted in the Gregorian
/// calendar.
pub open spec fn day_number(year: int, month: int, day: int) -> int {
    days_before_year(year) + days_before_month(year, month) + day - 1 - days_before_year(1970)
}

/// Days before a year, its own leap day counted in, by the leap rules.
proof fn lemma_days_before_year(year: int)
    requires
        0 <= year,
    ensures
        days_before_year(year) + year_length(year) == 365 * year + year / 4 - year / 100 + year / 400
            + 366,
    decreases year,
{
    if year > 0 {
        lemma_days_before_year(year - 1);
    }
}

/// Four hundred years always have the same number of days.
proof fn lemma_era(year: int, era: int, year_of_era: int)
    requires
        year == era * 400 + year_of_era,
        0 <= year_of_era < 400,
    ensures
        365 * year + year / 4 - year / 100 + year / 400 == era * 146_097 + year_of_era * 365
            + year_of_era / 4 - year_of_era / 100,
{
    assert(year / 400 == era);
    assert(year / 100 == era * 4 + year_of_era / 100);
    assert(year / 4 == era * 100 + year_of_era / 4);
}

proof fn lemma_days_before_month(year: int, month: int)
    requires
        1 <= month <= 12,
    ensures
        month <= 2 ==> days_before_month(year, month) == 31 * (month - 1),
        month > 2 ==> days_before_month(year, month) == (153 * (month - 3) + 2) / 5 + 59 + (if is_leap(
            year,
        ) {
            1int
        } else {
            0int
        }),
    decreases month,
{
    if month > 1 {
        lemma_days_before_month(year, month - 1);
    }
}

/// Days of one month; none where there is no such month.
pub fn days_in_month(year: u32, month: u32) -> (days: u32)
    ensures
        days == month_length(year as int, month as int),
{
    if month == 4 || month == 6 || month == 9 || month == 11 {
        30
    } else if month == 2 {
        if year % 400 == 0 || (year % 4 == 0 && year % 100 != 0) {
            29
        } else {
            28
        }
    } else if month >= 1 && month <= 12 {
        31
    } else {
        0
    }
}

/// Days from the first of January 1970 to a date.
pub fn days_from_civil(year: u32, month: u32, day: u32) -> (days: i64)
    requires
        1 <= month <= 12,
    ensures
        days == day_number(year as int, month as int, day as int),
{
    let shifted_year: i64 = year as i64 - if month <= 2 {
        1
    } else {
        0
    };
    let era: i64 = if shifted_year < 0 {
        -1
    } else {
        shifted_year / 400
    };
    let year_of_era: i64 = shifted_year - era * 400;
    let shifted_month: i64 = if month > 2 {
        month as i64 - 3
    } else {
        month as i64 + 9
    };
    let day_of_year: i64 = (153 * shifted_month + 2) / 5 + day as i64 - 1;
    let day_of_era: i64 = year_of_era * 365 + year_of_era / 4 - year_of_era / 100 + day_of_year;
    proof {
        lemma_days_before_year(1969);
        lemma_days_before_month(year as int, month as int);
        lemma_era(shifted_year as int, era as int, year_of_era as int);
        if month > 2 {
            lemma_days_before_year(year as int);
        } else if year > 0 {
            lemma_days_before_year(year - 1);
        }
    }
    era * 146_097 + day_of_era - 719_468
}

/// A timestamp, taken apart.
pub struct Moment {
    pub year: int,
    pub month: int,
    pub day: int,
    pub hour: int,
    pub minute: int,
    pub second: int,
    pub millis: int,
    /// Seconds that local time is ahead of universal time.
    pub offset: int,
}

impl Moment {
    /// Seconds since the first of January 1970, in universal time.
    pub open spec fn seconds(self) -> int {
        day_number(self.year, self.month, self.day) * 86_400 + self.hour * 3_600 + self.minute * 60
            + self.second - self.offset
    }

    /// Milliseconds since the first of January 1970, in universal time.
    pub open spec fn unix_millis(self) -> int {
        self.seconds() * 1_000 + self.millis
    }
}

/// Number of exactly so many digits.
pub open spec fn fixed_number(digits: Seq<u8>, length: int) -> Option<int> {
    if digits.len() == length && all_digits(digits) {
        Some(decimal_value(digits) as int)
    } else {
        None
    }
}

/// Year, month and day of a date that exists.
pub open spec fn parsed_date(text: Seq<u8>) -> Option<(int, int, int)> {
    let parts = split_on(text, 45);
    if parts.len() != 3 {
        None
    } else {
        match (fixed_number(parts[0], 4), fixed_number(parts[1], 2), fixed_number(parts[2], 2)) {
            (Some(year), Some(month), Some(day)) => if 1 <= month <= 12 && 1 <= day <= month_length(
                year,
                month,
            ) {
                Some((year, month, day))
            } else {
                None
            },
            _ => None,
        }
    }
}

/// Milliseconds of a decimal fraction of a second; further digits are dropped.
pub open spec fn parsed_fraction(digits: Seq<u8>) -> Option<int> {
    if digits.len() == 0 || digits.len() > 9 || !all_digits(digits) {
        None
    } else if digits.len() == 1 {
        Some(decimal_value(digits) as int * 100)
    } else if digits.len() == 2 {
        Some(decimal_value(digits) as int * 10)
    } else {
        Some(decimal_value(digits.subrange(0, 3)) as int)
    }
}

/// Second and milliseconds.
pub open spec fn parsed_second(text: Seq<u8>) -> Option<(int, int)> {
    let point = first_index(text, 46);
    let fraction = if point == text.len() {
        Some(0)
    } else {
        parsed_fraction(text.subrange(point + 1, text.len() as int))
    };
    match (fixed_number(text.subrange(0, point), 2), fraction) {
        (Some(second), Some(millis)) => if second <= 59 {
            Some((second, millis))
        } else {
            None
        },
        _ => None,
    }
}

/// Hour, minute, second and milliseconds of a local time.
pub open spec fn parsed_time(text: Seq<u8>) -> Option<(int, int, int, int)> {
    let parts = split_on(text, 58);
    if parts.len() != 3 {
        None
    } else {
        match (fixed_number(parts[0], 2), fixed_number(parts[1], 2), parsed_second(parts[2])) {
            (Some(hour), Some(minute), Some((second, millis))) => if hour <= 23 && minute <= 59 {
                Some((hour, minute, second, millis))
            } else {
                None
            },
            _ => None,
        }
    }
}

/// Seconds that hours and minutes of a zone offset are.
pub open spec fn parsed_offset(text: Seq<u8>) -> Option<int> {
    let parts = split_on(text, 58);
    if parts.len() != 2 {
        None
    } else {
        match (fixed_number(parts[0], 2), fixed_number(parts[1], 2)) {
            (Some(hours), Some(minutes)) => if hours <= 23 && minutes <= 59 {
                Some(hours * 3_600 + minutes * 60)
            } else {
                None
            },
            _ => None,
        }
    }
}

/// Index of the last sign, or -1 where there is none.
pub open spec fn last_sign(text: Seq<u8>) -> int
    decreases text.len(),
{
    if text.len() == 0 {
        -1
    } else if text.last() == 43 || text.last() == 45 {
        text.len() - 1
    } else {
        last_sign(text.drop_last())
    }
}

/// Local time and zone offset.
pub open spec fn split_zone(text: Seq<u8>) -> Option<(Seq<u8>, int)> {
    if text.len() > 0 && (text.last() == 90 || text.last() == 122) {
        Some((text.drop_last(), 0))
    } else {
        let sign = last_sign(text);
        if sign < 0 {
            None
        } else {
            match parsed_offset(text.subrange(sign + 1, text.len() as int)) {
                Some(seconds) => Some(
                    (
                        text.subrange(0, sign),
                        if text[sign] == 45 {
                            -seconds
                        } else {
                            seconds
                        },
                    ),
                ),
                None => None,
            }
        }
    }
}

/// Index of what parts the date from the time, or the length where nothing does.
pub open spec fn date_end(text: Seq<u8>) -> int {
    if first_index(text, 84) < text.len() {
        first_index(text, 84)
    } else {
        first_index(text, 116)
    }
}

/// The timestamp that a text denotes.
pub open spec fn parsed_moment(text: Seq<u8>) -> Option<Moment> {
    let end = date_end(text);
    if end >= text.len() {
        None
    } else {
        match (
            parsed_date(text.subrange(0, end)),
            split_zone(text.subrange(end + 1, text.len() as int)),
        ) {
            (Some((year, month, day)), Some((time, offset))) => match parsed_time(time) {
                Some((hour, minute, second, millis)) => Some(
                    Moment { year, month, day, hour, minute, second, millis, offset },
                ),
                None => None,
            },
            _ => None,
        }
    }
}

proof fn lemma_fixed_bound(digits: Seq<u8>)
    requires
        all_digits(digits),
    ensures
        digits.len() <= 4 ==> decimal_value(digits) <= 9_999,
        digits.len() <= 3 ==> decimal_value(digits) <= 999,
        digits.len() <= 2 ==> decimal_value(digits) <= 99,
        digits.len() <= 1 ==> decimal_value(digits) <= 9,
    decreases digits.len(),
{
    if digits.len() > 0 {
        assert(all_digits(digits.drop_last())) by {
            assert forall|i: int| 0 <= i < digits.len() - 1 implies is_digit(
                #[trigger] digits.drop_last()[i],
            ) by {
                assert(digits.drop_last()[i] == digits[i]);
            }
        }
        assert(is_digit(digits[digits.len() - 1]));
        lemma_fixed_bound(digits.drop_last());
    }
}

/// Number of exactly so many digits.
fn parse_date_part(digits: &[u8], length: usize) -> (number: Option<u32>)
    requires
        length <= 4,
    ensures
        match number {
            Some(n) => fixed_number(digits@, length as int) == Some(n as int) && n <= 9_999 && (length
                <= 2 ==> n <= 99),
            None => fixed_number(digits@, length as int) is None,
        },
{
    if digits.len() != length || !only_digits(digits) {
        return None;
    }
    proof {
        lemma_fixed_bound(digits@);
    }
    match parse_digits(digits) {
        Some(number) => Some(number as u32),
        None => None,
    }
}

/// Milliseconds of a decimal fraction of a second.
fn parse_fraction_millis(digits: &[u8]) -> (millis: Option<u32>)
    ensures
        match millis {
            Some(n) => parsed_fraction(digits@) == Some(n as int) && n <= 999,
            None => parsed_fraction(digits@) is None,
        },
{
    if digits.len() == 0 || digits.len() > 9 || !only_digits(digits) {
        return None;
    }
    let kept: usize = if digits.len() < 3 {
        digits.len()
    } else {
        3
    };
    let front: &[u8] = vstd::slice::slice_subrange(digits, 0, kept);
    proof {
        if digits@.len() <= 3 {
            assert(front@ =~= digits@);
        }
        assert(all_digits(front@)) by {
            assert forall|i: int| 0 <= i < front@.len() implies is_digit(
                #[trigger] front@[i],
            ) by {
                assert(front@[i] == digits@[i]);
            }
        }
        lemma_fixed_bound(front@);
    }
    match parse_digits(front) {
        Some(number) => Some(
            number as u32 * if kept == 1 {
                100
            } else if kept == 2 {
                10
            } else {
                1
            },
        ),
        None => None,
    }
}

fn parse_date(text: &[u8]) -> (date: Option<(u32, u32, u32)>)
    ensures
        match date {
            Some((year, month, day)) => parsed_date(text@) == Some(
                (year as int, month as int, day as int),
            ) && year <= 9_999 && 1 <= month <= 12 && 1 <= day <= 31,
            None => parsed_date(text@) is None,
        },
{
    let parts: Vec<Vec<u8>> = split_fields(text, 45);
    if parts.len() != 3 {
        return None;
    }
    match (
        parse_date_part(parts[0].as_slice(), 4),
        parse_date_part(parts[1].as_slice(), 2),
        parse_date_part(parts[2].as_slice(), 2),
    ) {
        (Some(year), Some(month), Some(day)) => {
            if month < 1 || month > 12 || day == 0 || day > days_in_month(year, month) {
                None
            } else {
                Some((year, month, day))
            }
        },
        _ => None,
    }
}

fn parse_second(text: &[u8]) -> (second: Option<(u32, u32)>)
    ensures
        match second {
            Some((second, millis)) => parsed_second(text@) == Some((second as int, millis as int))
                && second <= 59 && millis <= 999,
            None => parsed_second(text@) is None,
        },
{
    let point: usize = find_byte(text, 46);
    let whole: &[u8] = vstd::slice::slice_subrange(text, 0, point);
    let fraction: Option<u32> = if point == text.len() {
        Some(0)
    } else {
        parse_fraction_millis(vstd::slice::slice_subrange(text, point + 1, text.len()))
    };
    match (parse_date_part(whole, 2), fraction) {
        (Some(second), Some(millis)) => if second <= 59 {
            Some((second, millis))
        } else {
            None
        },
        _ => None,
    }
}

fn parse_time(text: &[u8]) -> (time: Option<(u32, u32, u32, u32)>)
    ensures
        match time {
            Some((hour, minute, second, millis)) => parsed_time(text@) == Some(
                (hour as int, minute as int, second as int, millis as int),
            ) && hour <= 23 && minute <= 59 && second <= 59 && millis <= 999,
            None => parsed_time(text@) is None,
        },
{
    let parts: Vec<Vec<u8>> = split_fields(text, 58);
    if parts.len() != 3 {
        return None;
    }
    match (
        parse_date_part(parts[0].as_slice(), 2),
        parse_date_part(parts[1].as_slice(), 2),
        parse_second(parts[2].as_slice()),
    ) {
        (Some(hour), Some(minute), Some((second, millis))) => {
            if hour > 23 || minute > 59 {
                None
            } else {
                Some((hour, minute, second, millis))
            }
        },
        _ => None,
    }
}

fn parse_offset(text: &[u8]) -> (offset: Option<i64>)
    ensures
        match offset {
            Some(seconds) => parsed_offset(text@) == Some(seconds as int) && 0 <= seconds < 86_400,
            None => parsed_offset(text@) is None,
        },
{
    let parts: Vec<Vec<u8>> = split_fields(text, 58);
    if parts.len() != 2 {
        return None;
    }
    match (parse_date_part(parts[0].as_slice(), 2), parse_date_part(parts[1].as_slice(), 2)) {
        (Some(hours), Some(minutes)) => {
            if hours > 23 || minutes > 59 {
                None
            } else {
                Some(hours as i64 * 3_600 + minutes as i64 * 60)
            }
        },
        _ => None,
    }
}

/// Splits the zone off a local time.
fn split_rfc3339_offset(text: &[u8]) -> (split: Option<(&[u8], i64)>)
    ensures
        match split {
            Some((time, offset)) => split_zone(text@) == Some((time@, offset as int)) && -86_400
                < offset < 86_400,
            None => split_zone(text@) is None,
        },
{
    let length: usize = text.len();
    if length > 0 && (text[length - 1] == 90 || text[length - 1] == 122) {
        let time: &[u8] = vstd::slice::slice_subrange(text, 0, length - 1);
        assert(time@ =~= text@.drop_last());
        return Some((time, 0));
    }
    let mut end: usize = length;
    assert(text@.subrange(0, length as int) =~= text@);
    while end > 0 && text[end - 1] != 43 && text[end - 1] != 45
        invariant
            0 <= end <= text@.len(),
            last_sign(text@) == last_sign(text@.subrange(0, end as int)),
        decreases end,
    {
        assert(text@.subrange(0, end as int).drop_last() =~= text@.subrange(0, end - 1));
        end = end - 1;
    }
    if end == 0 {
        return None;
    }
    let sign: usize = end - 1;
    match parse_offset(vstd::slice::slice_subrange(text, sign + 1, length)) {
        Some(seconds) => Some(
            (
                vstd::slice::slice_subrange(text, 0, sign),
                if text[sign] == 45 {
                    -seconds
                } else {
                    seconds
                },
            ),
        ),
        None => None,
    }
}

proof fn lemma_day_number_bounds(year: int, month: int, day: int)
    requires
        0 <= year <= 9_999,
        1 <= month <= 12,
        1 <= day <= 31,
    ensures
        -800_000 <= day_number(year, month, day) <= 3_000_000,
{
    lemma_days_before_year(1969);
    lemma_days_before_year(year);
    lemma_days_before_month(year, month);
}

/// Milliseconds since the first of January 1970 that an RFC 3339 timestamp
/// denotes: `Some(None)` for an earlier one, and nothing for other text.
pub fn parse_rfc3339_millis(text: &[u8]) -> (millis: Option<Option<u64>>)
    ensures
        match parsed_moment(text@) {
            None => millis is None,
            Some(moment) => if moment.seconds() < 0 {
                millis == Some(None::<u64>)
            } else {
                millis matches Some(Some(value)) && value == moment.unix_millis()
            },
        },
{
    let upper: usize = find_byte(text, 84);
    let end: usize = if upper < text.len() {
        upper
    } else {
        find_byte(text, 116)
    };
    if end == text.len() {
        return None;
    }
    let date = parse_date(vstd::slice::slice_subrange(text, 0, end));
    let zone = split_rfc3339_offset(vstd::slice::slice_subrange(text, end + 1, text.len()));
    match (date, zone) {
        (Some((year, month, day)), Some((time, offset))) => match parse_time(time) {
            Some((hour, minute, second, fraction)) => {
                proof {
                    lemma_day_number_bounds(year as int, month as int, day as int);
                }
                let days: i64 = days_from_civil(year, month, day);
                let seconds: i64 = days * 86_400 + hour as i64 * 3_600 + minute as i64 * 60
                    + second as i64 - offset;
                if seconds < 0 {
                    Some(None)
                } else {
                    Some(Some(seconds as u64 * 1_000 + fraction as u64))
                }
            },
            None => None,
        },
        _ => None,
    }
}

/// Days are counted without gap from the first of January 1970: each day of a
/// month follows the one before it, a month the last day of the month before it,
/// and a year the last of December.
pub proof fn law_days_follow_each_other(year: int, month: int, day: int)
    requires
        0 <= year,
        1 <= month <= 12,
    ensures
        day_number(1970, 1, 1) == 0,
        day_number(year, month, day + 1) == day_number(year, month, day) + 1,
        month < 12 ==> day_number(year, month + 1, 1) == day_number(
            year,
            month,
            month_length(year, month),
        ) + 1,
        day_number(year + 1, 1, 1) == day_number(year, 12, 31) + 1,
{
    reveal_with_fuel(days_before_month, 13);
}

/// February has a day more in every fourth year, but in a hundredth only where it
/// is also a four-hundredth; the other months are as long every year.
pub proof fn law_months_have_their_lengths(year: int, month: int)
    requires
        0 <= year,
    ensures
        month_length(year, 2) == if year % 4 == 0 && (year % 100 != 0 || year % 400 == 0) {
            29int
        } else {
            28int
        },
        month_length(year, 1) == 31 && month_length(year, 3) == 31 && month_length(year, 5) == 31,
        month_length(year, 7) == 31 && month_length(year, 8) == 31 && month_length(year, 10) == 31,
        month_length(year, 12) == 31,
        month_length(year, 4) == 30 && month_length(year, 6) == 30,
        month_length(year, 9) == 30 && month_length(year, 11) == 30,
        !(1 <= month <= 12) ==> month_length(year, month) == 0,
{
    assert(year % 400 == 0 ==> year % 4 == 0);
}

/// A later time of day comes as much later, a day has so many seconds, and local
/// time that is ahead is so much earlier in universal time.
pub proof fn law_moments_count_seconds(moment: Moment, other: Moment)
    ensures
        moment.year == other.year && moment.month == other.month && moment.day == other.day
            ==> moment.seconds() - other.seconds() == (moment.hour - other.hour) * 3_600 + (moment.minute
            - other.minute) * 60 + (moment.second - other.second) - (moment.offset - other.offset),
        moment.hour == other.hour && moment.minute == other.minute && moment.second == other.second
            && moment.offset == other.offset ==> moment.seconds() - other.seconds() == (day_number(
            moment.year,
            moment.month,
            moment.day,
        ) - day_number(other.year, other.month, other.day)) * 86_400,
        moment.unix_millis() == moment.seconds() * 1_000 + moment.millis,
{
}

/// Milliseconds of a fraction are its first three digits, those that are missing
/// counted as zeros.
pub proof fn law_fractions_are_read_to_the_millisecond(a: u8, b: u8, c: u8, more: Seq<u8>)
    requires
        48 <= a <= 57,
        48 <= b <= 57,
        48 <= c <= 57,
        more.len() <= 6,
        forall|i: int| 0 <= i < more.len() ==> 48 <= #[trigger] more[i] <= 57,
    ensures
        parsed_fraction(seq![a]) == Some((a - 48) * 100),
        parsed_fraction(seq![a, b]) == Some((a - 48) * 100 + (b - 48) * 10),
        parsed_fraction(seq![a, b, c] + more) == Some((a - 48) * 100 + (b - 48) * 10 + (c - 48)),
        parsed_fraction(Seq::empty()) is None,
{
    let digits = seq![a, b, c] + more;
    assert(digits.subrange(0, 3) =~= seq![a, b, c]);
    assert forall|i: int| 0 <= i < digits.len() implies is_digit(#[trigger] digits[i]) by {
        if i >= 3 {
            assert(digits[i] == more[i - 3]);
        }
    }
    assert(seq![a, b, c] =~= Seq::<u8>::empty().push(a).push(b).push(c));
    assert(seq![a, b] =~= Seq::<u8>::empty().push(a).push(b));
    assert(seq![a] =~= Seq::<u8>::empty().push(a));
    law_numbers_are_decimal(Seq::empty(), a, 0);
    law_numbers_are_decimal(seq![a], b, 0);
    law_numbers_are_decimal(seq![a, b], c, 0);
    assert(seq![a].push(b) =~= seq![a, b]);
    assert(seq![a, b].push(c) =~= seq![a, b, c]);
}

proof fn lemma_digits_hold_no_sign(digits: Seq<u8>, sign: u8)
    requires
        all_digits(digits),
        sign < 48 || sign > 57,
    ensures
        !digits.contains(sign),
{
    assert forall|i: int| 0 <= i < digits.len() implies digits[i] != sign by {
        assert(is_digit(digits[i]));
    }
}

proof fn lemma_three_pieces(a: Seq<u8>, b: Seq<u8>, c: Seq<u8>, separator: u8)
    requires
        !a.contains(separator),
        !b.contains(separator),
        !c.contains(separator),
    ensures
        split_on((a.push(separator) + b).push(separator) + c, separator) == seq![a, b, c],
{
    law_pieces_lie_between_separators(Seq::empty(), a, separator);
    law_pieces_lie_between_separators(a, b, separator);
    law_pieces_lie_between_separators(a.push(separator) + b, c, separator);
    assert(split_on((a.push(separator) + b).push(separator) + c, separator) =~= seq![a, b, c]);
}

/// A timestamp in universal time reads as the numbers that stand in it, each in
/// its place, where they are a date that exists and a time of day.
pub proof fn law_timestamps_read_as_their_numbers(
    year: Seq<u8>,
    month: Seq<u8>,
    day: Seq<u8>,
    hour: Seq<u8>,
    minute: Seq<u8>,
    second: Seq<u8>,
)
    requires
        all_digits(year) && year.len() == 4,
        all_digits(month) && month.len() == 2,
        all_digits(day) && day.len() == 2,
        all_digits(hour) && hour.len() == 2,
        all_digits(minute) && minute.len() == 2,
        all_digits(second) && second.len() == 2,
        1 <= decimal_value(month) <= 12,
        1 <= decimal_value(day) <= month_length(decimal_value(year) as int, decimal_value(month) as int),
        decimal_value(hour) <= 23,
        decimal_value(minute) <= 59,
        decimal_value(second) <= 59,
    ensures
        parsed_moment(
            ((year.push(45) + month).push(45) + day).push(84) + ((hour.push(58) + minute).push(58)
                + second).push(90),
        ) == Some(
            Moment {
                year: decimal_value(year) as int,
                month: decimal_value(month) as int,
                day: decimal_value(day) as int,
                hour: decimal_value(hour) as int,
                minute: decimal_value(minute) as int,
                second: decimal_value(second) as int,
                millis: 0,
                offset: 0,
            },
        ),
{
    let date = (year.push(45) + month).push(45) + day;
    let time = (hour.push(58) + minute).push(58) + second;
    let text = date.push(84) + time.push(90);
    lemma_digits_hold_no_sign(year, 45);
    lemma_digits_hold_no_sign(month, 45);
    lemma_digits_hold_no_sign(day, 45);
    lemma_digits_hold_no_sign(hour, 58);
    lemma_digits_hold_no_sign(minute, 58);
    lemma_digits_hold_no_sign(second, 58);
    lemma_three_pieces(year, month, day, 45);
    lemma_three_pieces(hour, minute, second, 58);
    assert forall|i: int| 0 <= i < date.len() implies #[trigger] text[i] != 84 by {
        if i < 4 {
            assert(text[i] == year[i]);
            assert(is_digit(year[i]));
        } else if 4 < i < 7 {
            assert(text[i] == month[i - 5]);
            assert(is_digit(month[i - 5]));
        } else if i > 7 {
            assert(text[i] == day[i - 8]);
            assert(is_digit(day[i - 8]));
        }
    }
    assert(text[date.len() as int] == 84);
    lemma_first_index(text, 84, date.len() as int);
    assert(text.subrange(0, date.len() as int) =~= date);
    assert(text.subrange(date.len() as int + 1, text.len() as int) =~= time.push(90));
    assert(time.push(90).drop_last() =~= time);
    assert forall|i: int| 0 <= i < second.len() implies second[i] != 46 by {
        assert(is_digit(second[i]));
    }
    lemma_first_index(second, 46, second.len() as int);
    assert(second.subrange(0, second.len() as int) =~= second);
}

/// A zone behind a time says how far that is ahead of universal time, or behind
/// it, by its sign.
pub proof fn law_zones_shift_the_time(time: Seq<u8>, hours: Seq<u8>, minutes: Seq<u8>)
    requires
        all_digits(hours) && hours.len() == 2,
        all_digits(minutes) && minutes.len() == 2,
        decimal_value(hours) <= 23,
        decimal_value(minutes) <= 59,
    ensures
        split_zone(time.push(90)) == Some((time, 0int)),
        split_zone(time.push(122)) == Some((time, 0int)),
        split_zone(time.push(43) + hours.push(58) + minutes) == Some(
            (time, (decimal_value(hours) * 3_600 + decimal_value(minutes) * 60) as int),
        ),
        split_zone(time.push(45) + hours.push(58) + minutes) == Some(
            (time, -(decimal_value(hours) * 3_600 + decimal_value(minutes) * 60)),
        ),
{
    assert(time.push(90).drop_last() =~= time);
    assert(time.push(122).drop_last() =~= time);
    lemma_digits_hold_no_sign(hours, 58);
    lemma_digits_hold_no_sign(minutes, 58);
    law_pieces_lie_between_separators(Seq::empty(), hours, 58);
    law_pieces_lie_between_separators(hours, minutes, 58);
    let zone = hours.push(58) + minutes;
    assert(split_on(zone, 58) =~= seq![hours, minutes]);
    assert forall|i: int| 0 <= i < zone.len() implies #[trigger] zone[i] != 43 && zone[i] != 45
        && zone[i] != 90 && zone[i] != 122 by {
        if i < 2 {
            assert(zone[i] == hours[i]);
            assert(is_digit(hours[i]));
        } else if i > 2 {
            assert(zone[i] == minutes[i - 3]);
            assert(is_digit(minutes[i - 3]));
        }
    }
    let ahead = time.push(43) + hours.push(58) + minutes;
    let behind = time.push(45) + hours.push(58) + minutes;
    assert(ahead =~= time.push(43) + zone);
    assert(behind =~= time.push(45) + zone);
    lemma_last_sign(time.push(43), zone);
    lemma_last_sign(time.push(45), zone);
    assert(last_sign(time.push(43)) == time.len());
    assert(last_sign(time.push(45)) == time.len());
    assert(ahead.last() == zone[zone.len() - 1]);
    assert(behind.last() == zone[zone.len() - 1]);
    assert(ahead.subrange(time.len() as int + 1, ahead.len() as int) =~= zone);
    assert(behind.subrange(time.len() as int + 1, behind.len() as int) =~= zone);
    assert(ahead.subrange(0, time.len() as int) =~= time);
    assert(behind.subrange(0, time.len() as int) =~= time);
}

proof fn lemma_last_sign(front: Seq<u8>, back: Seq<u8>)
    requires
        forall|i: int| 0 <= i < back.len() ==> #[trigger] back[i] != 43 && back[i] != 45,
    ensures
        last_sign(front + back) == last_sign(front),
    decreases back.len(),
{
    if back.len() == 0 {
        assert(front + back =~= front);
    } else {
        assert(back[back.len() - 1] != 43 && back[back.len() - 1] != 45);
        assert((front + back).last() == back.last());
        assert((front + back).drop_last() =~= front + back.drop_last());
        assert forall|i: int| 0 <= i < back.drop_last().len() implies #[trigger] back.drop_last()[i] != 43
            && back.drop_last()[i] != 45 by {
            assert(back.drop_last()[i] == back[i]);
        }
        lemma_last_sign(front, back.drop_last());
    }
}

} // verus!
