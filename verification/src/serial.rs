//! Serial numbers of days, and the dates and times that they stand for.

use crate::calendar::{civil_from_days, civil_of_day_number, day_number_of, days_from_civil};
use crate::decimal::{digits_len, exponent_of, exponent_value, mantissa_end, mantissa_fraction,
    mantissa_whole, scan_parts, signless};
use crate::model::{Date, DateSystem, DateTime, Time};
use crate::number::{all_digits, digits_value, parse_number};
use crate::text::chars_of;
use vstd::prelude::*;

verus! {

/// The milliseconds of one day.
pub const DAY_MILLIS: u32 = 86_400_000;

/// What a serial number of a workbook turns out to be.
#[derive(Clone, Copy, Debug, PartialEq, Eq, Structural)]
pub enum DateConversion {
    Date(Date),
    DateTime(DateTime),
    Time(Time),
    /// No date: the serial stays a number.
    Number,
}

/// A serial number that is not negative: its whole days, the part of a day
/// behind the point in milliseconds, rounded, and whether any digit behind
/// the point is other than zero.
#[derive(Clone, Copy, Debug, PartialEq, Eq, Structural)]
pub struct Serial {
    pub days: u32,
    pub millis: u32,
    pub fraction: bool,
}

/// The whole part of `c` times the fraction that the digits `f` write behind
/// a point.
pub open spec fn fraction_scaled(f: Seq<char>, c: int) -> int
    decreases f.len(),
{
    if f.len() == 0 {
        0
    } else {
        ((f[0] as int - 48) * c + fraction_scaled(f.skip(1), c)) / 10
    }
}

/// The milliseconds of the part of a day that the digits `f` write behind a
/// point, rounded to the nearest, a half upwards.
pub open spec fn fraction_millis(f: Seq<char>) -> int {
    (fraction_scaled(f, 172_800_000) + 1) / 2
}

/// One of the digits `f` is not zero.
pub open spec fn has_fraction(f: Seq<char>) -> bool {
    exists|i: int| 0 <= i < f.len() && #[trigger] f[i] != '0'
}

/// `n` zeros.
pub open spec fn zeros(n: int) -> Seq<char> {
    Seq::new(n as nat, |i: int| '0')
}

/// The digits before the point, once the point of the digits `d` has been
/// put behind the first `p` of them.
pub open spec fn shifted_whole(d: Seq<char>, p: int) -> Seq<char> {
    if p >= d.len() {
        d + zeros(p - d.len())
    } else if p <= 0 {
        Seq::empty()
    } else {
        d.take(p)
    }
}

/// The digits behind the point, once the point of the digits `d` has been
/// put behind the first `p` of them.
pub open spec fn shifted_fraction(d: Seq<char>, p: int) -> Seq<char> {
    if p >= d.len() {
        Seq::empty()
    } else if p <= 0 {
        zeros(-p) + d
    } else {
        d.skip(p)
    }
}

/// The serial whose whole days the digits `whole` write and whose part of
/// a day the digits `fraction` write behind the point, where the days are
/// no more than 32 bits hold.
pub open spec fn serial_of_digits(whole: Seq<char>, fraction: Seq<char>) -> Option<Serial> {
    if digits_value(whole) <= u32::MAX {
        Some(
            Serial {
                days: digits_value(whole) as u32,
                millis: fraction_millis(fraction) as u32,
                fraction: has_fraction(fraction),
            },
        )
    } else {
        None
    }
}

/// The serial number that the text `s` writes: digits with a point among
/// them or none, one digit at the least, a `+` before them or none, and an
/// exponent of at most 1000 either way or none, which moves the point.
/// None where the text is written otherwise, or has a minus sign, or more
/// whole days than 32 bits hold.
pub open spec fn serial_of(s: Seq<char>) -> Option<Serial> {
    let b = signless(s);
    let d = mantissa_whole(b) + mantissa_fraction(b);
    match exponent_of(b.skip(mantissa_end(b))) {
        Some(e) => if !(s.len() > 0 && s[0] == '-') && d.len() > 0 {
            serial_of_digits(
                shifted_whole(d, digits_len(b) + e),
                shifted_fraction(d, digits_len(b) + e),
            )
        } else {
            None
        },
        None => None,
    }
}

/// The day from which the serial numbers of `system` count on: under
/// `V1900` the last day of 1899 for the days before the 60th, and the day
/// before it from the 60th on, which is the 29th of February 1900 that the
/// calendar does not have.
pub open spec fn epoch_of(system: DateSystem, days: int) -> (int, int, int) {
    match system {
        DateSystem::V1900 => if days < 60 {
            (1899, 12, 31)
        } else {
            (1899, 12, 30)
        },
        DateSystem::V1904 => (1904, 1, 1),
    }
}

/// The time of day that is `ms` milliseconds after midnight.
pub open spec fn time_of_millis(ms: int) -> Time {
    Time {
        hour: (ms / 3_600_000) as u32,
        minute: (ms / 60_000 % 60) as u32,
        second: (ms / 1000 % 60) as u32,
        millisecond: (ms % 1000) as u32,
    }
}

/// The number of the day on which the serial falls, counted on from the
/// number `base` of its epoch: the whole days, and one more where the part
/// of a day rounds to a full day. None where 32 bits do not hold it.
pub open spec fn day_number_from(serial: Serial, base: int) -> Option<int> {
    let n = base + serial.days + serial.millis / 86_400_000;
    if n <= i32::MAX {
        Some(n)
    } else {
        None
    }
}

/// The day on which the serial falls, by the calendar of chrono.
pub open spec fn serial_day(serial: Serial, system: DateSystem) -> Option<Date> {
    let e = epoch_of(system, serial.days as int);
    match day_number_of(e.0, e.1, e.2) {
        Some(base) => match day_number_from(serial, base) {
            Some(n) => match civil_of_day_number(n) {
                Some(c) => Some(Date { year: c.0 as i32, month: c.1 as u32, day: c.2 as u32 }),
                None => None,
            },
            None => None,
        },
        None => None,
    }
}

/// What the serial stands for under `system`, where it falls on the day
/// `day`, or on none that the calendar reaches. Zero under `V1900` is no
/// day and stays a number, and so does a serial whose day the calendar does
/// not reach. A serial of whole days is a date. One of less than a day is a
/// time. Any other is a date with a time.
pub open spec fn conversion_on(serial: Serial, system: DateSystem, day: Option<Date>)
    -> DateConversion {
    let time = time_of_millis(serial.millis as int % 86_400_000);
    if system == DateSystem::V1900 && serial.days == 0 && !serial.fraction {
        DateConversion::Number
    } else {
        match day {
            None => DateConversion::Number,
            Some(date) => if !serial.fraction {
                DateConversion::Date(date)
            } else if serial.days == 0 {
                DateConversion::Time(time)
            } else {
                DateConversion::DateTime(DateTime { date, time })
            },
        }
    }
}

/// What the serial stands for under `system`.
pub open spec fn conversion_of(serial: Serial, system: DateSystem) -> DateConversion {
    conversion_on(serial, system, serial_day(serial, system))
}

/// The number of the day on which the whole serial `days` falls under
/// `V1900`, where the epoch of the days from the 60th on has the number
/// `later` and the epoch of the days before it the number behind that.
pub open spec fn v1900_day_number(days: int, later: int) -> int {
    if days < 60 {
        later + 1 + days
    } else {
        later + days
    }
}

/// Under `V1900` the 60th day, which the calendar does not have, takes no
/// day of its own: whole serials fall on consecutive days, but the 60th
/// falls on the day of the 59th, so that the 61st falls on the day after
/// the 59th.
pub proof fn lemma_pseudo_day(days: u32, later: int)
    requires
        later + days + 1 <= i32::MAX,
    ensures
        day_number_from(
            Serial { days, millis: 0, fraction: false },
            if days < 60 {
                later + 1
            } else {
                later
            },
        ) == Some(v1900_day_number(days as int, later)),
        days != 59 ==> v1900_day_number(days + 1, later) == v1900_day_number(days as int, later)
            + 1,
        v1900_day_number(60, later) == v1900_day_number(59, later),
        v1900_day_number(61, later) == v1900_day_number(59, later) + 1,
{
}

/// What the text of a cell in a date style stands for: what its serial
/// stands for, or a number where the text writes no serial.
pub open spec fn conversion_of_text(s: Seq<char>, system: DateSystem) -> DateConversion {
    match serial_of(s) {
        Some(serial) => conversion_of(serial, system),
        None => DateConversion::Number,
    }
}

/// Appends the characters `chars[from..to]` to `out`.
fn append_range(out: &mut Vec<char>, chars: &[char], from: usize, to: usize)
    requires
        from <= to <= chars@.len(),
    ensures
        final(out)@ == old(out)@ + chars@.subrange(from as int, to as int),
{
    let mut i: usize = from;
    while i < to
        invariant
            from <= i <= to <= chars@.len(),
            out@ == old(out)@ + chars@.subrange(from as int, i as int),
        decreases to - i,
    {
        out.push(chars[i]);
        i = i + 1;
    }
}

/// Appends `n` zeros to `out`.
fn append_zeros(out: &mut Vec<char>, n: usize)
    ensures
        final(out)@ == old(out)@ + zeros(n as int),
{
    let mut i: usize = 0;
    while i < n
        invariant
            i <= n,
            out@ == old(out)@ + zeros(i as int),
        decreases n - i,
    {
        out.push('0');
        i = i + 1;
    }
}

/// The serial whose whole days the digits `whole` write and whose part of
/// a day the digits `fraction` write behind the point.
pub fn serial_from_digits(whole: &[char], fraction: &[char]) -> (r: Option<Serial>)
    requires
        all_digits(whole@),
        all_digits(fraction@),
    ensures
        r == serial_of_digits(whole@, fraction@),
        r matches Some(serial) ==> serial.millis <= 86_400_000,
{
    let ghost f = fraction@;
    let n = fraction.len();
    let mut any = false;
    let mut scaled: u64 = 0;
    let mut i: usize = n;
    while i > 0
        invariant
            i <= n,
            n == fraction@.len(),
            f == fraction@,
            all_digits(f),
            scaled == fraction_scaled(f.subrange(i as int, n as int), 172_800_000),
            scaled < 172_800_000,
            any == has_fraction(f.subrange(i as int, n as int)),
        decreases i,
    {
        let c = fraction[i - 1];
        let ghost tail = f.subrange(i as int, n as int);
        let ghost longer = f.subrange(i as int - 1, n as int);
        proof {
            assert(longer.skip(1) == tail);
            if has_fraction(longer) {
                let j = choose|j: int| 0 <= j < longer.len() && #[trigger] longer[j] != '0';
                if j > 0 {
                    assert(tail[j - 1] == longer[j]);
                }
            }
        }
        let d: u64 = (c as u32 - 48) as u64;
        scaled = (d * 172_800_000 + scaled) / 10;
        if c != '0' {
            any = true;
        }
        i = i - 1;
    }
    assert(f.subrange(0, n as int) == f);
    let mut days: u64 = 0;
    if whole.len() > 0 {
        proof {
            assert(whole@.subrange(0, whole@.len() as int) == whole@);
        }
        match parse_number(whole, 0, whole.len(), 0xffff_ffff) {
            Some(v) => {
                days = v;
            },
            None => {
                return None;
            },
        }
    }
    Some(Serial { days: days as u32, millis: ((scaled + 1) / 2) as u32, fraction: any })
}

/// The digits `digits` with their point put behind the first `whole_len`
/// of them and then moved by `exponent` places: those before the point and
/// those behind it.
fn shift_digits(digits: &[char], whole_len: usize, exponent: i32) -> (r: (Vec<char>, Vec<char>))
    requires
        all_digits(digits@),
        whole_len <= digits@.len(),
        -1000 <= exponent <= 1000,
    ensures
        r.0@ == shifted_whole(digits@, whole_len + exponent),
        r.1@ == shifted_fraction(digits@, whole_len + exponent),
        all_digits(r.0@),
        all_digits(r.1@),
{
    let len = digits.len();
    let point: i128 = whole_len as i128 + exponent as i128;
    let mut whole: Vec<char> = Vec::new();
    let mut fraction: Vec<char> = Vec::new();
    if point >= len as i128 {
        append_range(&mut whole, digits, 0, len);
        append_zeros(&mut whole, (point - len as i128) as usize);
    } else if point <= 0 {
        append_zeros(&mut fraction, (-point) as usize);
        append_range(&mut fraction, digits, 0, len);
    } else {
        append_range(&mut whole, digits, 0, point as usize);
        append_range(&mut fraction, digits, point as usize, len);
    }
    (whole, fraction)
}

/// The digits of a number before its exponent, without the point: those of
/// `chars[start..whole_end]`, and of `chars[whole_end + 1..end]` where the
/// number has a point.
fn join_digits(chars: &[char], start: usize, whole_end: usize, end: usize) -> (digits: Vec<char>)
    requires
        start <= whole_end <= end <= chars@.len(),
    ensures
        digits@ == chars@.subrange(start as int, whole_end as int) + if end > whole_end {
            chars@.subrange(whole_end as int + 1, end as int)
        } else {
            Seq::empty()
        },
{
    let mut digits: Vec<char> = Vec::new();
    append_range(&mut digits, chars, start, whole_end);
    if end > whole_end {
        append_range(&mut digits, chars, whole_end + 1, end);
    }
    assert(digits@ =~= chars@.subrange(start as int, whole_end as int) + if end > whole_end {
        chars@.subrange(whole_end as int + 1, end as int)
    } else {
        Seq::empty()
    });
    digits
}

/// Reads the serial number that `text` writes.
pub fn parse_serial(text: &str) -> (r: Option<Serial>)
    ensures
        r == serial_of(text@),
        r matches Some(serial) ==> serial.millis <= 86_400_000,
{
    let chars = chars_of(text);
    let n = chars.len();
    let ghost s = chars@;
    let mut start: usize = 0;
    if n > 0 && (chars[0] == '+' || chars[0] == '-') {
        start = 1;
    }
    let ghost b = signless(s);
    assert(b == s.skip(start as int));
    let (whole_end, end) = scan_parts(&chars, start);
    assert(b.skip(end - start) == s.skip(end as int));
    let exponent = match exponent_value(&chars, end) {
        Some(e) => e,
        None => {
            return None;
        },
    };
    if n > 0 && chars[0] == '-' {
        return None;
    }
    let digits = join_digits(&chars, start, whole_end, end);
    let ghost d = mantissa_whole(b) + mantissa_fraction(b);
    assert(all_digits(d));
    if digits.len() == 0 {
        return None;
    }
    let (whole, fraction) = shift_digits(&digits, whole_end - start, exponent);
    serial_from_digits(&whole, &fraction)
}

/// The time of day that is `ms` milliseconds after midnight.
pub fn time_from_millis(ms: u32) -> (t: Time)
    requires
        ms < 86_400_000,
    ensures
        t == time_of_millis(ms as int),
        t.hour < 24 && t.minute < 60 && t.second < 60 && t.millisecond < 1000,
{
    Time {
        hour: ms / 3_600_000,
        minute: ms / 60_000 % 60,
        second: ms / 1000 % 60,
        millisecond: ms % 1000,
    }
}

/// The day from which the serial counts on under `date_system`.
pub fn epoch(serial: Serial, date_system: &DateSystem) -> (e: Date)
    ensures
        (e.year as int, e.month as int, e.day as int) == epoch_of(
            *date_system,
            serial.days as int,
        ),
{
    match date_system {
        DateSystem::V1900 => if serial.days < 60 {
            Date { year: 1899, month: 12, day: 31 }
        } else {
            Date { year: 1899, month: 12, day: 30 }
        },
        DateSystem::V1904 => Date { year: 1904, month: 1, day: 1 },
    }
}

/// The number of the day on which the serial falls, counted on from the
/// number `base` of its epoch.
pub fn serial_day_number(serial: Serial, base: i32) -> (r: Option<i32>)
    requires
        serial.millis <= 86_400_000,
    ensures
        r is Some <==> day_number_from(serial, base as int) is Some,
        r matches Some(n) ==> day_number_from(serial, base as int) == Some(n as int),
{
    let n: i64 = base as i64 + serial.days as i64 + (serial.millis / DAY_MILLIS) as i64;
    if n > 0x7fff_ffff {
        None
    } else {
        Some(n as i32)
    }
}

/// What the serial stands for under `date_system`, where it falls on the
/// day `day`, or on none that the calendar reaches.
pub fn conversion_on_day(serial: Serial, date_system: &DateSystem, day: Option<Date>) -> (r:
    DateConversion)
    requires
        serial.millis <= 86_400_000,
    ensures
        r == conversion_on(serial, *date_system, day),
{
    let v1900 = match date_system {
        DateSystem::V1900 => true,
        DateSystem::V1904 => false,
    };
    if v1900 && serial.days == 0 && !serial.fraction {
        return DateConversion::Number;
    }
    let date = match day {
        Some(d) => d,
        None => {
            return DateConversion::Number;
        },
    };
    let time = time_from_millis(serial.millis % DAY_MILLIS);
    if !serial.fraction {
        DateConversion::Date(date)
    } else if serial.days == 0 {
        DateConversion::Time(time)
    } else {
        DateConversion::DateTime(DateTime { date, time })
    }
}

/// Converts a serial number to the date, the time or the date with a time
/// that it stands for under `date_system`: the day is the one that the
/// calendar of chrono has at the serial's day number, counted on from the
/// number that it has for the epoch.
pub fn excel_number_to_date(serial: Serial, date_system: &DateSystem) -> (r: DateConversion)
    requires
        serial.millis <= 86_400_000,
    ensures
        r == conversion_of(serial, *date_system),
{
    let e = epoch(serial, date_system);
    let day = match days_from_civil(e.year, e.month, e.day) {
        Some(base) => match serial_day_number(serial, base) {
            Some(n) => civil_from_days(n),
            None => None,
        },
        None => None,
    };
    conversion_on_day(serial, date_system, day)
}

/// What the text of a cell in a date style stands for.
pub fn text_conversion(raw: &str, date_system: &DateSystem) -> (r: DateConversion)
    ensures
        r == conversion_of_text(raw@, *date_system),
{
    match parse_serial(raw) {
        Some(serial) => excel_number_to_date(serial, date_system),
        None => DateConversion::Number,
    }
}

} // verus!
