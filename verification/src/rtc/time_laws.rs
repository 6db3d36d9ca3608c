//! What the clock shows, and what its registers hold.
#[allow(unused_imports)]
use crate::rtc::{
    date_of, law_dates_are_distinct, lemma_month_table, lemma_year_len, time_register, Date,
    RtcState,
};
use vstd::prelude::*;

verus! {

/// Days of a month: February has 29 in every fourth year, but in a century only every
/// fourth time.
pub open spec fn length_of_month(y: int, m: int) -> int {
    if m == 2 {
        if y % 400 == 0 || (y % 4 == 0 && y % 100 != 0) {
            29
        } else {
            28
        }
    } else if m == 4 || m == 6 || m == 9 || m == 11 {
        30
    } else {
        31
    }
}

/// The day after a date.
pub open spec fn day_after(t: Date) -> Date {
    if t.d < length_of_month(t.y, t.m) {
        Date { d: t.d + 1, ..t }
    } else if t.m < 12 {
        Date { m: t.m + 1, d: 1, ..t }
    } else {
        Date { y: t.y + 1, m: 1, d: 1 }
    }
}

/// Day 0 is the first of January 1970, and every day is followed by the next of the
/// calendar.
pub proof fn law_days_follow(n: int)
    requires
        n >= 0,
    ensures
        date_of(0) == (Date { y: 1970, m: 1, d: 1 }),
        date_of(n + 1) == day_after(date_of(n)),
        1 <= date_of(n).m <= 12,
        1 <= date_of(n).d <= length_of_month(date_of(n).y, date_of(n).m),
{
    lemma_first_day();
    lemma_dates_exist(n);
    lemma_dates_exist(n + 1);
    let t = date_of(n);
    lemma_next_day(t);
    law_dates_are_distinct(day_after(t), date_of(n + 1));
}

proof fn lemma_first_day()
    ensures
        (Date { y: 1970, m: 1, d: 1 }).valid(),
        (Date { y: 1970, m: 1, d: 1 }).number() == 0,
        date_of(0) == (Date { y: 1970, m: 1, d: 1 }),
{
    let t = Date { y: 1970, m: 1, d: 1 };
    lemma_month_table(1970);
    assert(t.valid() && t.number() == 0);
    law_dates_are_distinct(t, date_of(0));
}

proof fn lemma_next_day(t: Date)
    requires
        t.valid(),
    ensures
        day_after(t).valid(),
        day_after(t).number() == t.number() + 1,
{
    lemma_month_table(t.y);
    lemma_month_table(t.y + 1);
    lemma_year_len(t.y);
}

proof fn lemma_dates_exist(n: int)
    requires
        n >= 0,
    ensures
        date_of(n).valid(),
        date_of(n).number() == n,
    decreases n,
{
    if n == 0 {
        lemma_first_day();
    } else {
        lemma_dates_exist(n - 1);
        let t = day_after(date_of(n - 1));
        lemma_next_day(date_of(n - 1));
        assert(t.valid() && t.number() == n);
    }
}

/// Two registers as a number of two digits.
pub open spec fn digits(secs: int, ones: int) -> int {
    time_register(ones, secs) + 10 * time_register(ones + 1, secs)
}

/// The time registers hold ones and tens: seconds in 0 and 1, minutes in 2 and 3, hours in
/// 4 and 5, the weekday in 6, the day in 7 and 8, the month in 9 and 10, and the years
/// since 1980 in 11 and 12. No digit is above 9.
pub proof fn law_time_in_digits(secs: int)
    requires
        secs >= 0,
    ensures
        ({
            let t = date_of(secs / 86400);
            &&& digits(secs, 0) == secs % 60
            &&& digits(secs, 2) == (secs / 60) % 60
            &&& digits(secs, 4) == (secs / 3600) % 24
            &&& digits(secs, 7) == t.d
            &&& digits(secs, 9) == t.m
            &&& 1980 <= t.y ==> digits(secs, 11) == (t.y - 1980) % 100
            &&& t.y < 1980 ==> digits(secs, 11) == 0
            &&& forall|r: int| 0 <= r < 13 ==> 0 <= #[trigger] time_register(r, secs) <= 9
        }),
{
    law_days_follow(secs / 86400);
}

/// Weekdays go round: the first of January 1970 was the fifth day of a week that starts with
/// Sunday, and the next day is the next weekday.
pub proof fn law_weekdays_follow(secs: int)
    requires
        secs >= 0,
    ensures
        secs < 86400 ==> time_register(6, secs) == 4,
        0 <= time_register(6, secs) < 7,
        time_register(6, secs + 86400) == (if time_register(6, secs) == 6 {
            0
        } else {
            time_register(6, secs) + 1
        }),
        time_register(6, secs + 7 * 86400) == time_register(6, secs),
{
}

/// The register that is selected reads in the low four bits, with the others up. Register 13
/// is the mode, whose low two bits select the bank of the others; bank 0 is the time; 14
/// and 15 read as 15.
pub proof fn law_registers_by_bank(s: RtcState, secs: int)
    requires
        s.wf(),
    ensures
        s.reg == 13 ==> s.value(secs) == 0xF0 + s.mode,
        s.reg > 13 ==> s.value(secs) == 0xFF,
        s.reg < 13 && s.mode % 4 == 0 ==> s.value(secs) == 0xF0 + time_register(
            s.reg as int,
            secs,
        ),
        s.reg < 13 && s.mode % 4 != 0 ==> s.value(secs) == 0xF0 + s.cells[13 * (s.mode % 4)
            + s.reg],
        s.reg < 13 && s.mode % 4 == 0 ==> s.value_unset() == 0xF0,
{
}

/// A write to register 13 selects a bank; one to a register below stores four bits in the
/// bank that is selected, unless that is the time; one above does nothing.
pub proof fn law_registers_take_writes(s: RtcState, value: u8, i: int)
    requires
        s.wf(),
        0 <= i < 52,
    ensures
        ({
            let t = s.written(value);
            &&& t.wf()
            &&& t.reg == s.reg
            &&& t.mode == (if s.reg == 13 {
                value % 16
            } else {
                s.mode
            })
            &&& t.cells[i] == (if s.reg < 13 && s.mode % 4 != 0 && i == 13 * (s.mode % 4) + s.reg {
                value % 16
            } else {
                s.cells[i]
            })
        }),
{
}

} // verus!
