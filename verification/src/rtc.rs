//! The RP-5C01 real-time clock.
//!
//! Thirteen four-bit registers in each of four banks. Bank 0 shows the time of
//! the host in UTC: ones and tens of seconds, minutes and hours, the weekday,
//! and ones and tens of day, month and year since 1980. The others hold what
//! was written: alarm and mode in bank 1, the settings of the machine in banks
//! 2 and 3. Register 13 selects the bank, 14 and 15 read as 15.
pub mod time_laws;

use vstd::prelude::*;

verus! {

/// Every fourth year, but only every fourth of the centuries.
pub open spec fn leap(y: int) -> bool {
    y % 4 == 0 && (y % 100 != 0 || y % 400 == 0)
}

/// Days of a month.
pub open spec fn month_len(y: int, m: int) -> int {
    if m == 2 {
        if leap(y) {
            29
        } else {
            28
        }
    } else if m == 4 || m == 6 || m == 9 || m == 11 {
        30
    } else {
        31
    }
}

/// Days of a year before a month.
pub open spec fn days_before_month(y: int, m: int) -> int
    decreases m,
{
    if m <= 1 {
        0
    } else {
        days_before_month(y, m - 1) + month_len(y, m - 1)
    }
}

/// Days before a year, from the start of year 1.
pub open spec fn days_before_year(y: int) -> int {
    365 * (y - 1) + (y - 1) / 4 - (y - 1) / 100 + (y - 1) / 400
}

/// A date: year, month and day.
pub struct Date {
    pub y: int,
    pub m: int,
    pub d: int,
}

impl Date {
    pub open spec fn valid(self) -> bool {
        1 <= self.m <= 12 && 1 <= self.d <= month_len(self.y, self.m)
    }

    /// Days since the first day of 1970.
    pub open spec fn number(self) -> int {
        days_before_year(self.y) - 719162 + days_before_month(self.y, self.m) + self.d - 1
    }
}

/// The date so many days after the first day of 1970.
pub open spec fn date_of(days: int) -> Date {
    choose|t: Date| t.valid() && #[trigger] t.number() == days
}

/// Time register `reg` at so many seconds since the start of 1970.
pub open spec fn time_register(reg: int, secs: int) -> int {
    let t = date_of(secs / 86400);
    let year = if t.y < 1980 {
        0
    } else {
        t.y - 1980
    };
    if reg == 0 {
        secs % 60 % 10
    } else if reg == 1 {
        secs % 60 / 10
    } else if reg == 2 {
        secs / 60 % 60 % 10
    } else if reg == 3 {
        secs / 60 % 60 / 10
    } else if reg == 4 {
        secs / 3600 % 24 % 10
    } else if reg == 5 {
        secs / 3600 % 24 / 10
    } else if reg == 6 {
        // The first day of 1970 was a Thursday.
        (secs / 86400 + 4) % 7
    } else if reg == 7 {
        t.d % 10
    } else if reg == 8 {
        t.d / 10
    } else if reg == 9 {
        t.m % 10
    } else if reg == 10 {
        t.m / 10
    } else if reg == 11 {
        year % 10
    } else if reg == 12 {
        year / 10 % 10
    } else {
        15
    }
}

pub(crate) proof fn lemma_month_table(y: int)
    ensures
        days_before_month(y, 1) == 0,
        days_before_month(y, 2) == 31,
        days_before_month(y, 3) == 31 + month_len(y, 2),
        days_before_month(y, 4) == 62 + month_len(y, 2),
        days_before_month(y, 5) == 92 + month_len(y, 2),
        days_before_month(y, 6) == 123 + month_len(y, 2),
        days_before_month(y, 7) == 153 + month_len(y, 2),
        days_before_month(y, 8) == 184 + month_len(y, 2),
        days_before_month(y, 9) == 215 + month_len(y, 2),
        days_before_month(y, 10) == 245 + month_len(y, 2),
        days_before_month(y, 11) == 276 + month_len(y, 2),
        days_before_month(y, 12) == 306 + month_len(y, 2),
        days_before_month(y, 13) == 337 + month_len(y, 2),
{
    reveal_with_fuel(days_before_month, 14);
}

/// Days of a year.
pub(crate) proof fn lemma_year_len(y: int)
    ensures
        days_before_year(y + 1) - days_before_year(y) == (if leap(y) {
            366int
        } else {
            365
        }),
{
}

proof fn lemma_years_increase(y: int, z: int)
    requires
        y < z,
    ensures
        days_before_year(z) >= days_before_year(y + 1),
    decreases z - y,
{
    if y + 1 < z {
        lemma_years_increase(y, z - 1);
        lemma_year_len(z - 1);
    }
}

/// No two dates have the same number.
pub proof fn law_dates_are_distinct(a: Date, b: Date)
    requires
        a.valid(),
        b.valid(),
        a.number() == b.number(),
    ensures
        a == b,
{
    lemma_month_table(a.y);
    lemma_month_table(b.y);
    lemma_year_len(a.y);
    lemma_year_len(b.y);
    if a.y < b.y {
        lemma_years_increase(a.y, b.y);
    }
    if b.y < a.y {
        lemma_years_increase(b.y, a.y);
    }
}

/// Days before March of a year, from March of year 0.
spec fn days_before_march(y: int) -> int {
    365 * y + y / 4 - y / 100 + y / 400
}

proof fn lemma_march(era: int, century: int, quad: int, year: int)
    requires
        0 <= era,
        0 <= century <= 3,
        0 <= quad <= 24,
        0 <= year <= 3,
    ensures
        days_before_march(era * 400 + century * 100 + quad * 4 + year) == era * 146097 + century
            * 36524 + quad * 1461 + year * 365,
        year == 3 && (quad < 24 || century == 3) ==> leap(
            era * 400 + century * 100 + quad * 4 + year + 1,
        ),
{
    let y = era * 400 + century * 100 + quad * 4 + year;
    assert(y / 4 == era * 100 + century * 25 + quad);
    assert(y / 100 == era * 4 + century);
    assert(y / 400 == era);
    if year == 3 && quad < 24 {
        assert((y + 1) % 4 == 0);
        assert((y + 1) % 100 == (quad + 1) * 4);
    }
    if year == 3 && quad == 24 && century == 3 {
        assert((y + 1) % 400 == 0);
    }
}

/// The last March that began no later than a day, and the days since. Years
/// that start in March have the leap day last.
fn march_of(days: u64) -> (r: (u64, u64))
    requires
        days <= 213503982334601,
    ensures
        days_before_march(r.0 as int) + r.1 == days + 719468,
        1969 <= r.0 <= days + 1970,
        r.1 <= 365,
        r.1 == 365 ==> leap(r.0 + 1),
{
    let z: u64 = days + 719468;
    let era: u64 = z / 146097;
    let doe: u64 = z % 146097;
    let century: u64 = if doe >= 109572 {
        3
    } else {
        doe / 36524
    };
    let doc: u64 = doe - century * 36524;
    let quad: u64 = doc / 1461;
    let doq: u64 = doc % 1461;
    let year: u64 = if doq >= 1095 {
        3
    } else {
        doq / 365
    };
    let doy: u64 = doq - year * 365;
    proof {
        lemma_march(era as int, century as int, quad as int, year as int);
    }
    (era * 400 + century * 100 + quad * 4 + year, doy)
}

proof fn lemma_date(march: int, doy: int, mp: int, y: int, m: int, d: int)
    requires
        0 <= doy <= 365,
        doy == 365 ==> leap(march + 1),
        mp == (5 * doy + 2) / 153,
        d == doy - (153 * mp + 2) / 5 + 1,
        mp < 10 ==> m == mp + 3 && y == march,
        mp >= 10 ==> m == mp - 9 && y == march + 1,
    ensures
        (Date { y, m, d }).valid(),
        (Date { y, m, d }).number() == days_before_march(march) + doy - 719468,
        0 <= mp <= 11,
{
    lemma_month_table(y);
    lemma_year_len(march);
    assert(0 <= mp <= 11);
    assert(days_before_year(march + 1) == days_before_march(march));
}

/// The date so many days after the first day of 1970.
fn civil_date(days: u64) -> (r: (u64, u64, u64))
    requires
        days <= 213503982334601,
    ensures
        date_of(days as int) == (Date { y: r.0 as int, m: r.1 as int, d: r.2 as int }),
        1 <= r.1 <= 12,
        1 <= r.2 <= 31,
{
    let (march, doy) = march_of(days);
    let mp: u64 = (5 * doy + 2) / 153;
    let d: u64 = doy - (153 * mp + 2) / 5 + 1;
    let (y, m): (u64, u64) = if mp < 10 {
        (march, mp + 3)
    } else {
        (march + 1, mp - 9)
    };
    proof {
        let t = Date { y: y as int, m: m as int, d: d as int };
        lemma_date(march as int, doy as int, mp as int, y as int, m as int, d as int);
        law_dates_are_distinct(t, date_of(days as int));
    }
    (y, m, d)
}

/// Time register `reg` at so many seconds since the start of 1970.
pub fn time_nibble(reg: u8, secs: u64) -> (r: u8)
    ensures
        r == time_register(reg as int, secs as int),
        r < 16,
{
    let s = secs % 60;
    let mi = secs / 60 % 60;
    let h = secs / 3600 % 24;
    let days = secs / 86400;
    let (y, m, d) = civil_date(days);
    let year80: u64 = if y < 1980 {
        0
    } else {
        y - 1980
    };
    let v: u64 = match reg {
        0 => s % 10,
        1 => s / 10,
        2 => mi % 10,
        3 => mi / 10,
        4 => h % 10,
        5 => h / 10,
        6 => (days + 4) % 7,
        7 => d % 10,
        8 => d / 10,
        9 => m % 10,
        10 => m / 10,
        11 => year80 % 10,
        12 => year80 / 10 % 10,
        _ => 15,
    };
    v as u8
}

/// Seconds since the start of 1970 by the host's clock: `SystemTime::elapsed`
/// of the Unix epoch, and `None` where the clock stands before it. Nothing is
/// claimed of what the clock says. It needs a platform with a clock: on a host
/// without one, `Rtc::read_unset` reads the chip.
#[verifier::external_body]
fn host_seconds() -> (r: Option<u64>) {
    std::time::UNIX_EPOCH.elapsed().ok().map(|d| d.as_secs())
}

/// Everything the clock holds, as values.
#[verifier::ext_equal]
pub struct RtcState {
    pub reg: u8,
    pub mode: u8,
    /// Thirteen registers of each bank.
    pub cells: Seq<u8>,
}

impl RtcState {
    pub open spec fn wf(self) -> bool {
        self.reg < 16 && self.mode < 16 && self.cells.len() == 52 && forall|i: int|
            0 <= i < 52 ==> #[trigger] self.cells[i] < 16
    }

    pub open spec fn bank(self) -> int {
        (self.mode % 4) as int
    }

    /// Where the selected register of the selected bank is.
    pub open spec fn cell(self) -> int {
        13 * self.bank() + self.reg
    }

    /// What a read gives at a time of the host's clock: the register with the
    /// upper four bits up.
    pub open spec fn value(self, secs: int) -> int {
        let nibble = if self.reg == 13 {
            self.mode as int
        } else if self.reg > 13 {
            15
        } else if self.bank() == 0 {
            time_register(self.reg as int, secs)
        } else {
            self.cells[self.cell()] as int
        };
        0xF0 + nibble
    }

    /// What a read gives where there is no clock: the digits of the time are 0.
    pub open spec fn value_unset(self) -> int {
        if self.reg < 13 && self.bank() == 0 {
            0xF0
        } else {
            self.value(0)
        }
    }

    /// A register written. The mode register selects the bank; the time is not
    /// to be written.
    pub open spec fn written(self, value: u8) -> RtcState {
        if self.reg < 13 && self.bank() == 0 {
            self
        } else if self.reg < 13 {
            RtcState { cells: self.cells.update(self.cell(), value % 16), ..self }
        } else if self.reg == 13 {
            RtcState { mode: value % 16, ..self }
        } else {
            self
        }
    }
}

/// The clock.
pub struct Rtc {
    reg: u8,
    mode: u8,
    banks: [u8; 52],
}

impl View for Rtc {
    type V = RtcState;

    closed spec fn view(&self) -> RtcState {
        RtcState { reg: self.reg, mode: self.mode, cells: self.banks@ }
    }
}

impl Rtc {
    pub open spec fn wf(&self) -> bool {
        self@.wf()
    }

    pub fn new() -> (r: Self)
        ensures
            r.wf(),
            r@ == (RtcState { reg: 0, mode: 0, cells: Seq::new(52, |i: int| 0u8) }),
    {
        Rtc { reg: 0, mode: 0, banks: [0; 52] }
    }

    /// Select a register.
    pub fn select(&mut self, value: u8)
        requires
            old(self).wf(),
        ensures
            final(self).wf(),
            final(self)@ == (RtcState { reg: value % 16, ..old(self)@ }),
    {
        self.reg = value % 16;
    }

    /// Write the selected register.
    pub fn write(&mut self, value: u8)
        requires
            old(self).wf(),
        ensures
            final(self).wf(),
            final(self)@ == old(self)@.written(value),
    {
        let value = value % 16;
        if self.reg < 13 && self.mode % 4 == 0 {
            return;
        }
        if self.reg < 13 {
            self.banks[13 * (self.mode % 4) as usize + self.reg as usize] = value;
        } else if self.reg == 13 {
            self.mode = value;
        }
    }

    /// Read the selected register at a time of the host's clock.
    pub fn read_at(&self, secs: u64) -> (r: u8)
        requires
            self.wf(),
        ensures
            r == self@.value(secs as int),
    {
        let nibble: u8 = match self.reg {
            13 => self.mode,
            14 | 15 => 0x0F,
            r => {
                if self.mode % 4 == 0 {
                    time_nibble(r, secs)
                } else {
                    self.banks[13 * (self.mode % 4) as usize + r as usize]
                }
            },
        };
        0xF0 + nibble
    }

    /// Read the selected register. A clock that stands before 1970 counts as
    /// the start of it.
    pub fn read(&self) -> (r: u8)
        requires
            self.wf(),
        ensures
            exists|secs: u64| r == #[trigger] self@.value(secs as int),
            self@.reg >= 13 || self@.bank() != 0 ==> forall|secs: u64|
                r == #[trigger] self@.value(secs as int),
    {
        let secs: u64 = match host_seconds() {
            Some(secs) => secs,
            None => 0,
        };
        self.read_at(secs)
    }

    /// Read the selected register on a host without a clock.
    pub fn read_unset(&self) -> (r: u8)
        requires
            self.wf(),
        ensures
            r == self@.value_unset(),
    {
        if self.reg < 13 && self.mode % 4 == 0 {
            0xF0
        } else {
            self.read_at(0)
        }
    }
}

/// The settings banks keep what is written, each register apart from every
/// other.
pub proof fn law_banks_retain(s: RtcState, value: u8, other: RtcState, secs: int)
    requires
        s.wf(),
        s.reg < 13,
        s.bank() != 0,
        other.wf(),
        other.cells == s.cells,
        other.reg < 13,
        other.bank() != 0,
    ensures
        s.written(value).value(secs) == 0xF0 + value % 16,
        (other.bank(), other.reg) != (s.bank(), s.reg) ==> (RtcState {
            cells: s.written(value).cells,
            ..other
        }).value(secs) == other.value(secs),
{
}

/// Only the time depends on the clock: every other register reads the same at
/// any time, and without a clock.
pub proof fn law_clock_shows_in_time_only(s: RtcState, secs: int)
    requires
        s.wf(),
        s.reg >= 13 || s.bank() != 0,
    ensures
        s.value(secs) == s.value_unset(),
{
}

/// The time cannot be set: a write to a time register changes nothing.
pub proof fn law_time_is_read_only(s: RtcState, value: u8)
    requires
        s.wf(),
        s.reg < 13,
        s.bank() == 0,
    ensures
        s.written(value) == s,
{
}

} // verus!
