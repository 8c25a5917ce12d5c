//! Dates written as a year, a month and a day, each followed by its mark
//! (`年`, `月`, `日`), and the count of days that leads to a timestamp.

use vstd::prelude::*;
use crate::number::{all_digits, decimal_value, digit_value, lemma_decimal_value_prefix};
use crate::text::{chars_of, is_digit};

verus! {

/// Seconds in a day.
pub const SECONDS_PER_DAY: i64 = 86400;

/// Whether `y` is a leap year of the Gregorian calendar.
pub open spec fn is_leap_year(y: int) -> bool {
    y % 4 == 0 && (y % 100 != 0 || y % 400 == 0)
}

/// The number of days of year `y`.
pub open spec fn days_in_year(y: int) -> int {
    if is_leap_year(y) {
        366
    } else {
        365
    }
}

/// The number of days of month `m` (1 to 12) of year `y`.
pub open spec fn days_in_month(y: int, m: int) -> int {
    if m == 2 {
        if is_leap_year(y) {
            29
        } else {
            28
        }
    } else if m == 4 || m == 6 || m == 9 || m == 11 {
        30
    } else {
        31
    }
}

/// The number of days of year `y` that lie before its month `m`.
pub open spec fn days_before_month(y: int, m: int) -> int
    decreases m,
{
    if m <= 1 {
        0
    } else {
        days_before_month(y, m - 1) + days_in_month(y, m - 1)
    }
}

/// The number of days from the first day of 1970 to the first day of year
/// `y`; negative for a year before 1970.
pub open spec fn days_before_year(y: int) -> int
    decreases
            (if y >= 1970 {
                y - 1970
            } else {
                1970 - y
            }),
{
    if y > 1970 {
        days_before_year(y - 1) + days_in_year(y - 1)
    } else if y < 1970 {
        days_before_year(y + 1) - days_in_year(y)
    } else {
        0
    }
}

/// The number of days from 1 January 1970 to day `d` of month `m` of year
/// `y`. A day past the end of the month counts on into the next one.
pub open spec fn days_since_epoch(y: int, m: int, d: int) -> int {
    days_before_year(y) + days_before_month(y, m) + (d - 1)
}

/// The number of leap years among the years 1 to `y - 1`.
#[verifier::opaque]
pub open spec fn leap_years_before(y: int) -> int {
    (y - 1) / 4 - (y - 1) / 100 + (y - 1) / 400
}

/// From one year to the next the count of leap years grows by one exactly
/// where the year is a leap year.
pub proof fn lemma_leap_years_step(y: int)
    ensures
        leap_years_before(y + 1) - leap_years_before(y) == if is_leap_year(y) {
            1int
        } else {
            0int
        },
{
    reveal(leap_years_before);
    let by4: int = if y % 4 == 0 {
        1
    } else {
        0
    };
    let by100: int = if y % 100 == 0 {
        1
    } else {
        0
    };
    let by400: int = if y % 400 == 0 {
        1
    } else {
        0
    };
    assert(y / 4 - (y - 1) / 4 == by4);
    assert(y / 100 - (y - 1) / 100 == by100);
    assert(y / 400 - (y - 1) / 400 == by400);
    assert(y % 400 == 0 ==> y % 100 == 0);
    assert(y % 100 == 0 ==> y % 4 == 0);
}

/// The days before a year, counted without going through the years one by
/// one: 365 for each year since 1970 and one more for each leap year.
pub proof fn lemma_days_before_year(y: int)
    ensures
        days_before_year(y) == 365 * (y - 1970) + leap_years_before(y) - leap_years_before(1970),
    decreases
            (if y >= 1970 {
                y - 1970
            } else {
                1970 - y
            }),
{
    if y > 1970 {
        lemma_days_before_year(y - 1);
        lemma_leap_years_step(y - 1);
    } else if y < 1970 {
        lemma_days_before_year(y + 1);
        lemma_leap_years_step(y);
    }
}

/// The day count starts at the epoch and follows the calendar: the next day
/// of a month, the first day of the next month and the first day of the next
/// year each come one day later.
pub proof fn lemma_day_count_follows_calendar(y: int, m: int, d: int)
    requires
        1 <= m <= 12,
    ensures
        days_since_epoch(1970, 1, 1) == 0,
        days_since_epoch(y, m, d + 1) == days_since_epoch(y, m, d) + 1,
        m < 12 ==> days_since_epoch(y, m + 1, 1) == days_since_epoch(y, m, days_in_month(y, m))
            + 1,
        days_since_epoch(y + 1, 1, 1) == days_since_epoch(y, 12, 31) + 1,
{
    reveal_with_fuel(days_before_month, 13);
    lemma_days_before_year(y);
    lemma_days_before_year(y + 1);
}

/// February counts 29 days before March in a leap year and 28 in any other.
pub proof fn lemma_february(y: int)
    ensures
        days_before_month(y, 3) - days_before_month(y, 2) == if is_leap_year(y) {
            29int
        } else {
            28int
        },
{
    reveal_with_fuel(days_before_month, 4);
}

/// What has been read of a date: the year, the month and the day as far as
/// their marks have come (0 until then), the digits read since the last
/// mark, how many marks have come, and whether each came in its turn: the
/// mark of the year first, then that of the month, then that of the day, and
/// none after that.
pub struct DateFields {
    pub year: nat,
    pub month: nat,
    pub day: nat,
    pub run: nat,
    pub marks: nat,
    pub in_order: bool,
}

/// What is left after a mark that came out of its turn: no field changes
/// any more.
pub open spec fn out_of_order(f: DateFields) -> DateFields {
    DateFields { in_order: false, run: 0, ..f }
}

/// Reads one character more: a digit joins the run; a mark that comes in its
/// turn gives the run to its field and starts a new run; a mark that comes
/// out of its turn spoils the date; any other character changes nothing.
pub open spec fn date_step(f: DateFields, c: char) -> DateFields {
    if is_digit(c) {
        DateFields { run: (10 * f.run + digit_value(c)) as nat, ..f }
    } else if c == '年' {
        if f.in_order && f.marks == 0 {
            DateFields { year: f.run, marks: 1, run: 0, ..f }
        } else {
            out_of_order(f)
        }
    } else if c == '月' {
        if f.in_order && f.marks == 1 {
            DateFields { month: f.run, marks: 2, run: 0, ..f }
        } else {
            out_of_order(f)
        }
    } else if c == '日' {
        if f.in_order && f.marks == 2 {
            DateFields { day: f.run, marks: 3, run: 0, ..f }
        } else {
            out_of_order(f)
        }
    } else {
        f
    }
}

/// What `text`, read from left to right, gives for the year, the month and
/// the day.
pub open spec fn date_fields(text: Seq<char>) -> DateFields
    decreases text.len(),
{
    if text.len() == 0 {
        DateFields { year: 0, month: 0, day: 0, run: 0, marks: 0, in_order: true }
    } else {
        date_step(date_fields(text.drop_last()), text.last())
    }
}

/// The timestamp of the date that `text` writes: the seconds from the epoch
/// to the start of that day. None where the marks of the year, the month and
/// the day do not all stand in `text`, each once and in that order; where
/// the year, the month or the day is 0; where the month is past 12; or where
/// the timestamp does not fit in 64 bits.
pub open spec fn date_seconds(text: Seq<char>) -> Option<i64> {
    let f = date_fields(text);
    if !f.in_order || f.marks != 3 || f.year == 0 || f.month == 0 || f.day == 0 || f.month > 12 {
        None
    } else {
        let seconds = SECONDS_PER_DAY * days_since_epoch(f.year as int, f.month as int, f.day as int);
        if seconds <= i64::MAX {
            Some(seconds as i64)
        } else {
            None
        }
    }
}

/// Digits that follow a mark, or the start of the text, make a run of the
/// number that they write, and change nothing else.
pub proof fn lemma_run_of_digits(before: Seq<char>, digits: Seq<char>)
    requires
        all_digits(digits),
        date_fields(before).run == 0,
    ensures
        decimal_value(digits) >= 0,
        date_fields(before + digits) == (DateFields {
            run: decimal_value(digits) as nat,
            ..date_fields(before)
        }),
    decreases digits.len(),
{
    lemma_decimal_value_prefix(digits, 0);
    if digits.len() == 0 {
        assert(before + digits == before);
    } else {
        let init = digits.drop_last();
        assert forall|i: int| 0 <= i < init.len() implies is_digit(#[trigger] init[i]) by {
            assert(init[i] == digits[i]);
        }
        lemma_run_of_digits(before, init);
        assert((before + digits).drop_last() == before + init);
        assert((before + digits).last() == digits.last());
        assert(is_digit(digits[digits.len() - 1]));
    }
}

/// A text made of the digits of the year, of the month and of the day, each
/// followed by its mark, gives the three numbers that the digits write, with
/// the marks in order.
pub proof fn lemma_date_of_parts(year: Seq<char>, month: Seq<char>, day: Seq<char>)
    requires
        all_digits(year),
        all_digits(month),
        all_digits(day),
    ensures
        date_fields(year + seq!['年'] + month + seq!['月'] + day + seq!['日']) == (DateFields {
            year: decimal_value(year) as nat,
            month: decimal_value(month) as nat,
            day: decimal_value(day) as nat,
            run: 0,
            marks: 3,
            in_order: true,
        }),
{
    let none = Seq::<char>::empty();
    lemma_run_of_digits(none, year);
    assert(none + year == year);
    let with_year = year.push('年');
    assert(with_year.drop_last() == year);
    lemma_run_of_digits(with_year, month);
    let with_month = (with_year + month).push('月');
    assert(with_month.drop_last() == with_year + month);
    lemma_run_of_digits(with_month, day);
    let with_day = (with_month + day).push('日');
    assert(with_day.drop_last() == with_month + day);
    assert(with_day == year + seq!['年'] + month + seq!['月'] + day + seq!['日']);
}

/// A mark that has been counted stands in the text, and a field whose mark
/// does not stand in the text is not set.
pub proof fn lemma_field_without_mark(text: Seq<char>)
    ensures
        date_fields(text).marks <= 3,
        !text.contains('年') ==> date_fields(text).year == 0 && date_fields(text).marks < 1,
        !text.contains('月') ==> date_fields(text).month == 0 && date_fields(text).marks < 2,
        !text.contains('日') ==> date_fields(text).day == 0 && date_fields(text).marks < 3,
    decreases text.len(),
{
    if text.len() > 0 {
        let init = text.drop_last();
        lemma_field_without_mark(init);
        assert(text[text.len() - 1] == text.last());
        assert forall|c: char| init.contains(c) implies text.contains(c) by {
            let i = choose|i: int| 0 <= i < init.len() && init[i] == c;
            assert(text[i] == c);
        }
    }
}

/// A date that lacks the mark of the year, of the month or of the day has no
/// timestamp.
pub proof fn lemma_date_missing_component(text: Seq<char>)
    requires
        !text.contains('年') || !text.contains('月') || !text.contains('日'),
    ensures
        date_seconds(text) is None,
{
    lemma_field_without_mark(text);
}

/// What has been settled stays: a date that is spoiled stays spoiled, the
/// count of marks never falls, and a field whose mark has come in its turn
/// keeps its number, whatever follows.
pub proof fn lemma_settled(before: Seq<char>, rest: Seq<char>)
    ensures
        !date_fields(before).in_order ==> !date_fields(before + rest).in_order,
        date_fields(before + rest).marks >= date_fields(before).marks,
        date_fields(before).marks >= 1 ==> date_fields(before + rest).year == date_fields(
            before,
        ).year,
        date_fields(before).marks >= 2 ==> date_fields(before + rest).month == date_fields(
            before,
        ).month,
        date_fields(before).marks >= 3 ==> date_fields(before + rest).day == date_fields(
            before,
        ).day,
    decreases rest.len(),
{
    if rest.len() == 0 {
        assert(before + rest == before);
    } else {
        lemma_settled(before, rest.drop_last());
        assert((before + rest).drop_last() == before + rest.drop_last());
        assert((before + rest).last() == rest.last());
    }
}

/// The turn of a mark: 0 for the year's, 1 for the month's, 2 for the day's.
pub open spec fn mark_turn(mark: char) -> nat {
    if mark == '年' {
        0
    } else if mark == '月' {
        1
    } else {
        2
    }
}

/// Whether `c` is one of the three marks.
pub open spec fn is_mark(c: char) -> bool {
    c == '年' || c == '月' || c == '日'
}

/// The marks of `text`, in the order in which they stand in it.
pub open spec fn marks_of(text: Seq<char>) -> Seq<char> {
    text.filter(|c: char| is_mark(c))
}

/// The three marks in their order.
pub open spec fn marks_in_turn() -> Seq<char> {
    seq!['年', '月', '日']
}

/// A date is in order exactly where its marks, as they stand in the text,
/// are the first of the three marks in their order; the count of marks is
/// then how many they are.
pub proof fn lemma_marks_in_order(text: Seq<char>)
    ensures
        date_fields(text).in_order <==> marks_of(text).is_prefix_of(marks_in_turn()),
        date_fields(text).in_order ==> date_fields(text).marks == marks_of(text).len(),
    decreases text.len(),
{
    let pred = |c: char| is_mark(c);
    if text.len() == 0 {
        assert(marks_of(text).len() == 0) by {
            reveal(Seq::filter);
        }
    } else {
        let init = text.drop_last();
        let c = text.last();
        lemma_marks_in_order(init);
        assert(init.push(c) == text);
        init.lemma_filter_push(c, pred);
        let before = marks_of(init);
        let turns = marks_in_turn();
        if is_mark(c) {
            let after = before.push(c);
            assert(marks_of(text) == after);
            if date_fields(init).in_order {
                let n = before.len() as int;
                assert(before == turns.subrange(0, n));
                if n < 3 && c == turns[n] {
                    assert(after == turns.subrange(0, n + 1));
                } else if n < 3 {
                    assert(after[n] == c);
                    assert(turns.subrange(0, n + 1)[n] == turns[n]);
                }
            } else {
                if after.is_prefix_of(turns) {
                    assert(before == turns.subrange(0, before.len() as int)) by {
                        assert forall|i: int| 0 <= i < before.len() implies before[i]
                            == turns.subrange(0, before.len() as int)[i] by {
                            assert(before[i] == after[i]);
                            assert(after[i] == turns.subrange(0, after.len() as int)[i]);
                        }
                    }
                }
            }
        }
    }
}

/// A text that has a timestamp holds the three marks in their order, each
/// once, and the timestamp is that of the start of a day.
pub proof fn lemma_date_in_order(text: Seq<char>)
    requires
        date_seconds(text) is Some,
    ensures
        marks_of(text) == marks_in_turn(),
        date_seconds(text)->0 % 86400 == 0,
        date_seconds(text)->0 / 86400 == days_since_epoch(
            date_fields(text).year as int,
            date_fields(text).month as int,
            date_fields(text).day as int,
        ),
{
    lemma_marks_in_order(text);
    assert(marks_in_turn().subrange(0, 3) == marks_in_turn());
    let f = date_fields(text);
    let days = days_since_epoch(f.year as int, f.month as int, f.day as int);
    assert(days >= -719163) by {
        reveal_with_fuel(days_before_month, 13);
        reveal(leap_years_before);
        lemma_days_before_year(f.year as int);
    }
    assert(date_seconds(text)->0 == 86400 * days);
}

/// A mark that comes out of its turn, be it too early, too late or a second
/// time, leaves the text without a timestamp, whatever follows.
pub proof fn lemma_mark_out_of_turn(text: Seq<char>, mark: char, rest: Seq<char>)
    requires
        is_mark(mark),
        date_fields(text).marks != mark_turn(mark),
    ensures
        date_seconds(text.push(mark) + rest) is None,
{
    assert(text.push(mark).drop_last() == text);
    lemma_settled(text.push(mark), rest);
}

/// A mark with no digit between it and the mark before it, or the start of
/// the text, leaves the text without a timestamp, whatever follows.
pub proof fn lemma_mark_without_digits(text: Seq<char>, mark: char, rest: Seq<char>)
    requires
        is_mark(mark),
        date_fields(text).run == 0,
    ensures
        date_seconds(text.push(mark) + rest) is None,
{
    assert(text.push(mark).drop_last() == text);
    lemma_settled(text.push(mark), rest);
}

/// The bound at which the parser stops counting a run of digits: no year and
/// no day that large has a timestamp of 64 bits.
const RUN_CAP: u64 = 1_000_000_000_000_000;

/// `n`, or the cap where `n` is beyond it.
spec fn capped(n: nat) -> int {
    if n >= RUN_CAP {
        RUN_CAP as int
    } else {
        n as int
    }
}

/// A year or a day at the cap or beyond it gives a timestamp that does not
/// fit in 64 bits.
proof fn lemma_beyond_cap(y: int, m: int, d: int)
    requires
        y >= 1,
        1 <= m <= 12,
        d >= 1,
        y >= RUN_CAP || d >= RUN_CAP,
    ensures
        SECONDS_PER_DAY * days_since_epoch(y, m, d) > i64::MAX,
{
    reveal_with_fuel(days_before_month, 13);
    reveal(leap_years_before);
    lemma_days_before_year(y);
}

/// The days of a year before its month `month`, from a table.
fn month_offset(leap: bool, month: u64) -> (days: i128)
    requires
        1 <= month <= 12,
    ensures
        forall|y: int| is_leap_year(y) == leap ==> days == #[trigger] days_before_month(y, month as int),
        0 <= days <= 335,
{
    proof {
        reveal_with_fuel(days_before_month, 13);
    }
    let extra: i128 = if leap && month > 2 {
        1
    } else {
        0
    };
    let base: i128 = if month == 1 {
        0
    } else if month == 2 {
        31
    } else if month == 3 {
        59
    } else if month == 4 {
        90
    } else if month == 5 {
        120
    } else if month == 6 {
        151
    } else if month == 7 {
        181
    } else if month == 8 {
        212
    } else if month == 9 {
        243
    } else if month == 10 {
        273
    } else if month == 11 {
        304
    } else {
        334
    };
    base + extra
}

/// Parses a date written as `2026年2月22日` into the timestamp of the start of
/// that day.
pub fn parse_date(text: &str) -> (r: Option<i64>)
    ensures
        r == date_seconds(text@),
{
    let chars = chars_of(text);
    let mut year: u64 = 0;
    let mut month: u64 = 0;
    let mut day: u64 = 0;
    let mut run: u64 = 0;
    let mut marks: u8 = 0;
    let mut in_order: bool = true;
    let mut i: usize = 0;
    while i < chars.len()
        invariant
            i <= chars.len(),
            year == capped(date_fields(chars@.take(i as int)).year),
            month == capped(date_fields(chars@.take(i as int)).month),
            day == capped(date_fields(chars@.take(i as int)).day),
            run == capped(date_fields(chars@.take(i as int)).run),
            marks == date_fields(chars@.take(i as int)).marks,
            in_order == date_fields(chars@.take(i as int)).in_order,
        decreases chars.len() - i,
    {
        let c = chars[i];
        proof {
            let seen = chars@.take(i + 1);
            assert(seen.drop_last() == chars@.take(i as int));
            assert(seen.last() == c);
        }
        if '0' <= c && c <= '9' {
            let d: u64 = (c as u32 - '0' as u32) as u64;
            assert(d == digit_value(c));
            if run < RUN_CAP {
                let next: u64 = run * 10 + d;
                run = if next > RUN_CAP {
                    RUN_CAP
                } else {
                    next
                };
            }
        } else if c == '年' {
            if in_order && marks == 0 {
                year = run;
                marks = 1;
            } else {
                in_order = false;
            }
            run = 0;
        } else if c == '月' {
            if in_order && marks == 1 {
                month = run;
                marks = 2;
            } else {
                in_order = false;
            }
            run = 0;
        } else if c == '日' {
            if in_order && marks == 2 {
                day = run;
                marks = 3;
            } else {
                in_order = false;
            }
            run = 0;
        }
        i += 1;
    }
    assert(chars@.take(i as int) == text@);
    if !in_order || marks != 3 || year == 0 || month == 0 || day == 0 || month > 12 {
        return None;
    }
    let ghost f = date_fields(text@);
    if year >= RUN_CAP || day >= RUN_CAP {
        proof {
            lemma_beyond_cap(f.year as int, f.month as int, f.day as int);
        }
        return None;
    }
    proof {
        reveal(leap_years_before);
        lemma_days_before_year(year as int);
    }
    let leap: bool = year % 4 == 0 && (year % 100 != 0 || year % 400 == 0);
    let leaps: u64 = (year - 1) / 4 - (year - 1) / 100 + (year - 1) / 400;
    let before_year: i128 = 365 * (year as i128 - 1970) + leaps as i128 - 477;
    let days: i128 = before_year + month_offset(leap, month) + (day as i128 - 1);
    assert(days == days_since_epoch(f.year as int, f.month as int, f.day as int));
    let seconds: i128 = days * 86400;
    if seconds > i64::MAX as i128 {
        None
    } else {
        Some(seconds as i64)
    }
}

} // verus!
