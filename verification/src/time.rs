//! Decimal time of day: 10 decimal hours of 100 decimal minutes of 100
//! decimal seconds, converted from milliseconds since the epoch.

use vstd::prelude::*;
use vstd::arithmetic::div_mod::{
    lemma_add_mod_noop, lemma_fundamental_div_mod, lemma_fundamental_div_mod_converse,
    lemma_fundamental_div_mod_converse_mod, lemma_mod_add_multiples_vanish, lemma_mod_bound,
    lemma_mod_mod, lemma_mod_multiples_vanish, lemma_mod_pos_bound, lemma_mod_self_0,
    lemma_multiply_divide_lt, lemma_small_mod,
};

verus! {

/// Milliseconds in a civil day.
pub const MILLIS_PER_DAY: u64 = 86_400_000;

/// Milliseconds in one decimal hour (a tenth of a day).
pub const MILLIS_PER_DECIMAL_HOUR: u64 = 8_640_000;

/// Milliseconds in one decimal minute (a hundredth of a decimal hour).
pub const MILLIS_PER_DECIMAL_MINUTE: u64 = 86_400;

/// Milliseconds in one decimal second (a hundredth of a decimal minute).
pub const MILLIS_PER_DECIMAL_SECOND: u64 = 864;

/// Milliseconds in one civil hour, the unit of the timezone offset.
pub const MILLIS_PER_HOUR: u64 = 3_600_000;

/// Decimal seconds in a whole day: 10 * 100 * 100.
pub const DECIMAL_SECONDS_PER_DAY: u64 = 100_000;

/// A time of day in decimal units: hour in 0..=9, minute and second in 0..=99.
#[derive(Clone, Copy, Debug, PartialEq, Eq, Structural)]
pub struct DecimalTime {
    pub dec_hour: u32,
    pub dec_min: u32,
    pub dec_sec: u32,
}

/// Milliseconds since local midnight, for a clock reading `total_ms`
/// milliseconds after the epoch and a timezone offset of `tz_offset` whole
/// hours. The remainder is Euclidean, so it lies in [0, MILLIS_PER_DAY)
/// whatever the sign of the offset.
pub open spec fn spec_local_millis(total_ms: int, tz_offset: int) -> int {
    (total_ms + tz_offset * MILLIS_PER_HOUR) % (MILLIS_PER_DAY as int)
}

/// The decimal time read off from `local` milliseconds since local midnight:
/// each field is the floor of the real-valued decimal hour, minute and second.
pub open spec fn spec_from_local(local: int) -> DecimalTime {
    DecimalTime {
        dec_hour: (local / (MILLIS_PER_DECIMAL_HOUR as int)) as u32,
        dec_min: ((local % (MILLIS_PER_DECIMAL_HOUR as int)) / (MILLIS_PER_DECIMAL_MINUTE as int)) as u32,
        dec_sec: ((local % (MILLIS_PER_DECIMAL_MINUTE as int)) / (MILLIS_PER_DECIMAL_SECOND as int)) as u32,
    }
}

/// Advancing a valid decimal time by one decimal second, with carry from
/// second to minute to hour and a silent wrap at the end of the day.
pub open spec fn spec_increment(t: DecimalTime) -> DecimalTime {
    if t.dec_sec < 99 {
        DecimalTime { dec_hour: t.dec_hour, dec_min: t.dec_min, dec_sec: (t.dec_sec + 1) as u32 }
    } else if t.dec_min < 99 {
        DecimalTime { dec_hour: t.dec_hour, dec_min: (t.dec_min + 1) as u32, dec_sec: 0 }
    } else if t.dec_hour < 9 {
        DecimalTime { dec_hour: (t.dec_hour + 1) as u32, dec_min: 0, dec_sec: 0 }
    } else {
        DecimalTime { dec_hour: 0, dec_min: 0, dec_sec: 0 }
    }
}

/// `spec_increment` applied `n` times.
pub open spec fn spec_increment_many(t: DecimalTime, n: nat) -> DecimalTime
    decreases n,
{
    if n == 0 {
        t
    } else {
        spec_increment(spec_increment_many(t, (n - 1) as nat))
    }
}

impl DecimalTime {
    /// Every field is within its modulus.
    pub open spec fn wf(self) -> bool {
        self.dec_hour <= 9 && self.dec_min <= 99 && self.dec_sec <= 99
    }

    /// The rank of this time within the day, counted in decimal seconds.
    pub open spec fn total_decimal_seconds(self) -> int {
        self.dec_hour * 10_000 + self.dec_min * 100 + self.dec_sec
    }

    /// The instant, in milliseconds since local midnight, at which this
    /// decimal second begins.
    pub open spec fn spec_millis_floor(self) -> int {
        self.dec_hour * (MILLIS_PER_DECIMAL_HOUR as int)
            + self.dec_min * (MILLIS_PER_DECIMAL_MINUTE as int)
            + self.dec_sec * (MILLIS_PER_DECIMAL_SECOND as int)
    }

    /// Executable check of `wf`.
    pub fn is_valid(&self) -> (b: bool)
        ensures
            b == self.wf(),
    {
        self.dec_hour <= 9 && self.dec_min <= 99 && self.dec_sec <= 99
    }

    /// Converts milliseconds since local midnight to decimal time.
    pub fn from_local_millis(local_ms: u64) -> (t: DecimalTime)
        requires
            local_ms < MILLIS_PER_DAY,
        ensures
            t == spec_from_local(local_ms as int),
            t.wf(),
    {
        let hour = local_ms / MILLIS_PER_DECIMAL_HOUR;
        let hour_rem = local_ms % MILLIS_PER_DECIMAL_HOUR;
        let minute = hour_rem / MILLIS_PER_DECIMAL_MINUTE;
        let minute_rem = local_ms % MILLIS_PER_DECIMAL_MINUTE;
        let second = minute_rem / MILLIS_PER_DECIMAL_SECOND;
        proof {
            lemma_multiply_divide_lt(local_ms as int, MILLIS_PER_DECIMAL_HOUR as int, 10);
            lemma_mod_pos_bound(local_ms as int, MILLIS_PER_DECIMAL_HOUR as int);
            lemma_multiply_divide_lt(hour_rem as int, MILLIS_PER_DECIMAL_MINUTE as int, 100);
            lemma_mod_pos_bound(local_ms as int, MILLIS_PER_DECIMAL_MINUTE as int);
            lemma_multiply_divide_lt(minute_rem as int, MILLIS_PER_DECIMAL_SECOND as int, 100);
        }
        DecimalTime {
            dec_hour: hour as u32,
            dec_min: minute as u32,
            dec_sec: second as u32,
        }
    }

    /// Converts a clock reading in milliseconds since the epoch, together
    /// with a timezone offset in whole hours, to decimal time.
    pub fn from_epoch_millis(total_ms: u64, tz_offset: i32) -> (t: DecimalTime)
        ensures
            t == spec_from_local(spec_local_millis(total_ms as int, tz_offset as int)),
            t.wf(),
    {
        let local = local_millis_of(total_ms, tz_offset);
        Self::from_local_millis(local)
    }

    /// Reads the system clock and converts it to decimal time with the given
    /// timezone offset in whole hours. `None` when the clock reads before the
    /// epoch, an unrecoverable environment fault.
    pub fn now(tz_offset: i32) -> (r: Option<DecimalTime>)
        ensures
            r matches Some(t) ==> t.wf(),
            r matches Some(t) ==> exists|ms: int|
                0 <= ms && t == spec_from_local(spec_local_millis(ms, tz_offset as int)),
    {
        match epoch_millis_now() {
            Some(ms) => {
                let t = Self::from_epoch_millis(ms, tz_offset);
                proof {
                    assert(t == spec_from_local(
                        spec_local_millis(ms as int, tz_offset as int),
                    ));
                }
                Some(t)
            },
            None => None,
        }
    }

    /// Advances this time by one decimal second, carrying second into minute
    /// and minute into hour, and wrapping silently at the end of the day.
    pub fn increment(&mut self)
        requires
            old(self).wf(),
        ensures
            *final(self) == spec_increment(*old(self)),
            final(self).wf(),
            final(self).total_decimal_seconds() == (old(self).total_decimal_seconds() + 1)
                % (DECIMAL_SECONDS_PER_DAY as int),
    {
        proof {
            lemma_increment_total(*old(self));
        }
        if self.dec_sec < 99 {
            self.dec_sec = self.dec_sec + 1;
        } else if self.dec_min < 99 {
            self.dec_sec = 0;
            self.dec_min = self.dec_min + 1;
        } else if self.dec_hour < 9 {
            self.dec_sec = 0;
            self.dec_min = 0;
            self.dec_hour = self.dec_hour + 1;
        } else {
            self.dec_sec = 0;
            self.dec_min = 0;
            self.dec_hour = 0;
        }
    }
}

/// Declares std::time::SystemTime, the opaque measurement of the system
/// clock, so that readings can pass between the wrappers below.
#[verifier::external_type_specification]
#[verifier::external_body]
pub struct ExSystemTime(std::time::SystemTime);

/// Relies on std::time::SystemTime::now: the current system time. Nothing
/// can be promised of a clock reading.
#[verifier::external_body]
fn system_time_now() -> std::time::SystemTime {
    std::time::SystemTime::now()
}

/// Relies on SystemTime::duration_since, measured from UNIX_EPOCH: the time
/// elapsed since the epoch, `None` when the clock reads before it.
#[verifier::external_body]
fn elapsed_since_epoch(t: &std::time::SystemTime) -> Option<core::time::Duration> {
    t.duration_since(std::time::UNIX_EPOCH).ok()
}

/// Relies on Duration::as_millis: the duration in whole milliseconds,
/// `None` past what a u64 holds.
#[verifier::external_body]
fn duration_millis(d: &core::time::Duration) -> Option<u64> {
    u64::try_from(d.as_millis()).ok()
}

/// The system clock's reading in milliseconds since the epoch, `None` on a
/// reading before the epoch or beyond what a u64 holds.
fn epoch_millis_now() -> (r: Option<u64>) {
    let instant = system_time_now();
    match elapsed_since_epoch(&instant) {
        Some(elapsed) => duration_millis(&elapsed),
        None => None,
    }
}

/// Reduces a clock reading and a timezone offset to milliseconds since local
/// midnight, normalized to a non-negative remainder even for negative offsets.
pub fn local_millis_of(total_ms: u64, tz_offset: i32) -> (local: u64)
    ensures
        local == spec_local_millis(total_ms as int, tz_offset as int),
        local < MILLIS_PER_DAY,
{
    let wrapped: u64 = total_ms % MILLIS_PER_DAY;
    let hours_ahead: u64 = if tz_offset >= 0 {
        (tz_offset as u64) % 24
    } else {
        let magnitude: u64 = (-(tz_offset as i64)) as u64;
        let partial: u64 = magnitude % 24;
        (24 - partial) % 24
    };
    proof {
        lemma_hours_ahead(tz_offset as int, hours_ahead as int);
    }
    let local = (wrapped + hours_ahead * MILLIS_PER_HOUR) % MILLIS_PER_DAY;
    proof {
        lemma_local_millis_reduction(total_ms as int, tz_offset as int, hours_ahead as int);
        lemma_mod_pos_bound(
            (wrapped + hours_ahead * MILLIS_PER_HOUR) as int,
            MILLIS_PER_DAY as int,
        );
    }
    local
}

/// The Euclidean remainder of the offset by 24 hours, as computed without
/// taking the remainder of a negative number.
proof fn lemma_hours_ahead(tz_offset: int, hours_ahead: int)
    requires
        tz_offset >= 0 ==> hours_ahead == tz_offset % 24,
        tz_offset < 0 ==> hours_ahead == (24 - (-tz_offset) % 24) % 24,
    ensures
        hours_ahead == tz_offset % 24,
        0 <= hours_ahead < 24,
{
    lemma_mod_bound(tz_offset, 24);
    if tz_offset < 0 {
        let magnitude = -tz_offset;
        lemma_fundamental_div_mod(magnitude, 24);
        lemma_mod_pos_bound(magnitude, 24);
        let quotient = magnitude / 24;
        let partial = magnitude % 24;
        if partial == 0 {
            assert(tz_offset == (-quotient) * 24 + 0) by (nonlinear_arith)
                requires
                    magnitude == 24 * quotient + partial,
                    partial == 0,
                    tz_offset == -magnitude,
            ;
            lemma_fundamental_div_mod_converse_mod(tz_offset, 24, -quotient, 0);
        } else {
            assert(tz_offset == (-quotient - 1) * 24 + (24 - partial)) by (nonlinear_arith)
                requires
                    magnitude == 24 * quotient + partial,
                    tz_offset == -magnitude,
            ;
            lemma_fundamental_div_mod_converse_mod(tz_offset, 24, -quotient - 1, 24 - partial);
            lemma_small_mod((24 - partial) as nat, 24);
        }
    }
}

/// Wrapping the reading by a day and the offset by 24 hours before adding
/// does not change the remainder modulo a day.
proof fn lemma_local_millis_reduction(total_ms: int, tz_offset: int, hours_ahead: int)
    requires
        total_ms >= 0,
        hours_ahead == tz_offset % 24,
    ensures
        (total_ms % (MILLIS_PER_DAY as int) + hours_ahead * MILLIS_PER_HOUR)
            % (MILLIS_PER_DAY as int) == spec_local_millis(total_ms, tz_offset),
{
    let day = MILLIS_PER_DAY as int;
    let hour = MILLIS_PER_HOUR as int;
    let quotient = tz_offset / 24;
    lemma_fundamental_div_mod(tz_offset, 24);
    lemma_mod_bound(tz_offset, 24);
    assert(tz_offset * hour == day * quotient + hours_ahead * hour) by (nonlinear_arith)
        requires
            tz_offset == 24 * quotient + hours_ahead,
            hour == MILLIS_PER_HOUR as int,
            day == MILLIS_PER_DAY as int,
    ;
    lemma_mod_multiples_vanish(quotient, total_ms + hours_ahead * hour, day);
    lemma_add_mod_noop(total_ms, hours_ahead * hour, day);
    lemma_small_mod((hours_ahead * hour) as nat, day as nat);
}

/// One decimal second forward moves the rank within the day forward by one,
/// modulo the length of the day.
proof fn lemma_increment_total(t: DecimalTime)
    requires
        t.wf(),
    ensures
        spec_increment(t).wf(),
        spec_increment(t).total_decimal_seconds() == (t.total_decimal_seconds() + 1)
            % (DECIMAL_SECONDS_PER_DAY as int),
{
    let day = DECIMAL_SECONDS_PER_DAY as int;
    if t.dec_sec == 99 && t.dec_min == 99 && t.dec_hour == 9 {
        lemma_mod_self_0(day);
    } else {
        lemma_small_mod((t.total_decimal_seconds() + 1) as nat, day as nat);
    }
}

/// A valid decimal time is determined by its rank within the day.
proof fn lemma_total_determines_fields(a: DecimalTime, b: DecimalTime)
    requires
        a.wf(),
        b.wf(),
        a.total_decimal_seconds() == b.total_decimal_seconds(),
    ensures
        a == b,
{
    lemma_fundamental_div_mod_converse(
        a.total_decimal_seconds(),
        10_000,
        a.dec_hour as int,
        a.dec_min * 100 + a.dec_sec,
    );
    lemma_fundamental_div_mod_converse(
        b.total_decimal_seconds(),
        10_000,
        b.dec_hour as int,
        b.dec_min * 100 + b.dec_sec,
    );
    lemma_fundamental_div_mod_converse(
        a.dec_min * 100 + a.dec_sec,
        100,
        a.dec_min as int,
        a.dec_sec as int,
    );
    lemma_fundamental_div_mod_converse(
        b.dec_min * 100 + b.dec_sec,
        100,
        b.dec_min as int,
        b.dec_sec as int,
    );
}

/// Applying `spec_increment` `n` times moves the rank forward by `n`, modulo
/// the length of the day, and keeps the time valid.
proof fn lemma_increment_many_total(t: DecimalTime, n: nat)
    requires
        t.wf(),
    ensures
        spec_increment_many(t, n).wf(),
        spec_increment_many(t, n).total_decimal_seconds() == (t.total_decimal_seconds() + n)
            % (DECIMAL_SECONDS_PER_DAY as int),
    decreases n,
{
    let day = DECIMAL_SECONDS_PER_DAY as int;
    if n == 0 {
        lemma_small_mod(t.total_decimal_seconds() as nat, day as nat);
    } else {
        let prev = spec_increment_many(t, (n - 1) as nat);
        lemma_increment_many_total(t, (n - 1) as nat);
        lemma_increment_total(prev);
        lemma_add_mod_noop(t.total_decimal_seconds() + (n - 1), 1, day);
        lemma_small_mod(1nat, day as nat);
        lemma_mod_pos_bound(t.total_decimal_seconds() + (n - 1), day);
        lemma_small_mod(
            ((t.total_decimal_seconds() + (n - 1)) % day) as nat,
            day as nat,
        );
    }
}

/// A full day of decimal seconds returns a valid decimal time to itself.
pub proof fn lemma_increment_full_day(t: DecimalTime)
    requires
        t.wf(),
    ensures
        spec_increment_many(t, DECIMAL_SECONDS_PER_DAY as nat) == t,
{
    let day = DECIMAL_SECONDS_PER_DAY as int;
    let total = t.total_decimal_seconds();
    lemma_increment_many_total(t, DECIMAL_SECONDS_PER_DAY as nat);
    lemma_mod_add_multiples_vanish(total, day);
    lemma_small_mod(total as nat, day as nat);
    lemma_total_determines_fields(spec_increment_many(t, DECIMAL_SECONDS_PER_DAY as nat), t);
}

/// For every clock reading and every offset, the milliseconds since local
/// midnight land in [0, MILLIS_PER_DAY), and the decimal time read off from
/// them is valid and brackets the instant to within one decimal second.
pub proof fn lemma_epoch_conversion_in_range(total_ms: int, tz_offset: int)
    requires
        total_ms >= 0,
    ensures
        0 <= spec_local_millis(total_ms, tz_offset) < MILLIS_PER_DAY,
        spec_from_local(spec_local_millis(total_ms, tz_offset)).wf(),
        spec_from_local(spec_local_millis(total_ms, tz_offset)).spec_millis_floor()
            <= spec_local_millis(total_ms, tz_offset),
        spec_local_millis(total_ms, tz_offset) < spec_from_local(
            spec_local_millis(total_ms, tz_offset),
        ).spec_millis_floor() + MILLIS_PER_DECIMAL_SECOND,
{
    lemma_mod_bound(total_ms + tz_offset * MILLIS_PER_HOUR, MILLIS_PER_DAY as int);
    lemma_conversion_brackets(spec_local_millis(total_ms, tz_offset));
}

/// The conversion from milliseconds since local midnight is exact: the
/// resulting fields are in range and name the decimal second that the instant
/// falls in, to within one decimal second's worth of milliseconds.
pub proof fn lemma_conversion_brackets(local: int)
    requires
        0 <= local < MILLIS_PER_DAY,
    ensures
        spec_from_local(local).wf(),
        spec_from_local(local).spec_millis_floor() <= local,
        local < spec_from_local(local).spec_millis_floor() + MILLIS_PER_DECIMAL_SECOND,
{
    let dh = MILLIS_PER_DECIMAL_HOUR as int;
    let dm = MILLIS_PER_DECIMAL_MINUTE as int;
    let ds = MILLIS_PER_DECIMAL_SECOND as int;
    lemma_multiply_divide_lt(local, dh, 10);
    lemma_mod_pos_bound(local, dh);
    lemma_multiply_divide_lt(local % dh, dm, 100);
    lemma_mod_pos_bound(local, dm);
    lemma_multiply_divide_lt(local % dm, ds, 100);
    lemma_fundamental_div_mod(local, dh);
    lemma_fundamental_div_mod(local % dh, dm);
    lemma_fundamental_div_mod(local % dm, ds);
    lemma_mod_mod(local, dm, 100);
    lemma_mod_pos_bound(local % dm, ds);
}

} // verus!
