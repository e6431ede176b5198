//! Simulation time: durations in seconds, instants in simulation ticks,
//! times of day in minutes, and ranges of times of day that may wrap
//! around midnight.
use vstd::prelude::*;
use vstd::std_specs::ops::{AddSpec, AddSpecImpl, SubSpec, SubSpecImpl};

verus! {

pub const TICKS_PER_SIM_SECOND: u32 = 3;

pub const TICKS_PER_SIM_MINUTE: u32 = 60 * TICKS_PER_SIM_SECOND;

/// The hour of the day at which the simulation starts.
pub const BEGINNING_TIME_OF_DAY: usize = 7;

pub const MINUTES_PER_DAY: usize = 60 * 24;

/// A number of simulation ticks.
#[derive(Clone, Copy, PartialEq, Eq, PartialOrd, Ord, Structural)]
pub struct Ticks(pub u32);

/// A span of simulated time in whole seconds.
#[derive(Clone, Copy, Debug, PartialEq, Eq, PartialOrd, Ord, Structural)]
pub struct Duration(pub u32);

/// The number of ticks in `seconds` simulated seconds.
pub open spec fn ticks_of_seconds(seconds: int) -> int {
    seconds * TICKS_PER_SIM_SECOND
}

/// The number of whole minutes in a duration.
pub open spec fn whole_minutes(d: Duration) -> int {
    d.0 as int / 60
}

/// `x` reduced to 32 bits, as an `as u32` cast does.
pub open spec fn low_32_bits(x: int) -> int {
    x % 0x1_0000_0000
}

/// `x` reduced to 16 bits, as an `as u16` cast does.
pub open spec fn low_16_bits(x: int) -> int {
    x % 0x1_0000
}

proof fn lemma_usize_as_u32(x: usize)
    ensures
        (x as u32) as int == low_32_bits(x as int),
{
    assert((x as u32) as int == (x as int) % 0x1_0000_0000) by (bit_vector);
}

proof fn lemma_usize_as_u16(x: usize)
    ensures
        (x as u16) as int == low_16_bits(x as int),
{
    assert((x as u16) as int == (x as int) % 0x1_0000) by (bit_vector);
}

proof fn lemma_u32_as_u16(x: u32)
    ensures
        (x as u16) as int == low_16_bits(x as int),
{
    assert((x as u16) as int == (x as int) % 0x1_0000) by (bit_vector);
}

impl Ticks {
    /// The ticks that elapse during a duration.
    pub fn from_duration(d: Duration) -> (t: Ticks)
        requires
            ticks_of_seconds(d.0 as int) <= u32::MAX,
        ensures
            t.0 == ticks_of_seconds(d.0 as int),
    {
        Ticks(d.0 * TICKS_PER_SIM_SECOND)
    }
}

/// The ticks that elapse during a duration, the product kept in 32 bits
/// (reduced modulo 2^32 where it does not fit).
impl core::convert::From<Duration> for Ticks {
    fn from(d: Duration) -> (t: Ticks) {
        Ticks(d.0.wrapping_mul(TICKS_PER_SIM_SECOND))
    }
}

impl vstd::std_specs::convert::FromSpecImpl<Duration> for Ticks {
    open spec fn obeys_from_spec() -> bool {
        true
    }

    open spec fn from_spec(d: Duration) -> Ticks {
        Ticks((ticks_of_seconds(d.0 as int) % 0x1_0000_0000) as u32)
    }
}

impl Duration {
    /// A duration of `seconds` seconds, kept in 32 bits (the count is reduced modulo 2^32).
    pub fn from_seconds(seconds: usize) -> (d: Duration)
        ensures
            d.0 == low_32_bits(seconds as int),
    {
        proof {
            lemma_usize_as_u32(seconds);
        }
        Duration(seconds as u32)
    }

    pub fn from_minutes(minutes: usize) -> (d: Duration)
        requires
            60 * minutes <= usize::MAX,
        ensures
            d.0 == low_32_bits(60 * minutes),
    {
        Self::from_seconds(60 * minutes)
    }

    pub fn from_hours(hours: usize) -> (d: Duration)
        requires
            3600 * hours <= usize::MAX,
        ensures
            d.0 == low_32_bits(3600 * hours),
    {
        Self::from_minutes(60 * hours)
    }
}

impl core::ops::Add for Duration {
    type Output = Duration;

    fn add(self, rhs: Duration) -> (r: Duration) {
        Duration(self.0 + rhs.0)
    }
}

impl AddSpecImpl for Duration {
    open spec fn obeys_add_spec() -> bool {
        true
    }

    open spec fn add_req(self, rhs: Duration) -> bool {
        self.0 + rhs.0 <= u32::MAX
    }

    open spec fn add_spec(self, rhs: Duration) -> Duration {
        Duration((self.0 + rhs.0) as u32)
    }
}

impl core::ops::AddAssign for Duration {
    fn add_assign(&mut self, rhs: Duration)
        requires
            old(self).0 + rhs.0 <= u32::MAX,
        ensures
            final(self).0 == old(self).0 + rhs.0,
    {
        self.0 = self.0 + rhs.0;
    }
}

/// A point in simulated time, counted in ticks since the simulation began.
#[derive(Clone, Copy, Debug, PartialEq, Eq, PartialOrd, Ord, Hash, Structural)]
pub struct Instant(u32);

impl View for Instant {
    type V = nat;

    closed spec fn view(&self) -> nat {
        self.0 as nat
    }
}

impl Instant {
    /// The instant `ticks` ticks after the beginning (reduced modulo 2^32).
    pub fn new(ticks: usize) -> (i: Instant)
        ensures
            i@ == low_32_bits(ticks as int),
    {
        proof {
            lemma_usize_as_u32(ticks);
        }
        Instant(ticks as u32)
    }

    pub fn ticks(self) -> (t: usize)
        ensures
            t == self@,
    {
        self.0 as usize
    }

    /// The tick count as a signed number; on a target whose `isize` cannot
    /// hold it, the count wraps as an `as isize` cast does.
    pub fn iticks(self) -> (t: isize)
        ensures
            self@ <= isize::MAX ==> t == self@,
            t == self@ as isize,
    {
        self.0 as isize
    }

    /// The instant `t` ticks after this one (before it, for a negative `t`).
    pub closed spec fn spec_add_ticks(self, t: int) -> Instant {
        Instant((self@ + t) as u32)
    }

    /// A tick count fits in 32 bits.
    pub broadcast proof fn lemma_ticks_bound(self)
        ensures
            #[trigger] self@ <= u32::MAX,
    {
    }

    /// Moving an instant by `t` ticks, within the range of a tick count,
    /// moves its tick count by `t`.
    pub broadcast proof fn lemma_add_ticks_view(self, t: int)
        requires
            0 <= self@ + t <= u32::MAX,
        ensures
            #[trigger] self.spec_add_ticks(t)@ == self@ + t,
    {
    }
}

impl core::ops::Add<Ticks> for Instant {
    type Output = Instant;

    fn add(self, rhs: Ticks) -> (r: Instant) {
        Instant(self.0 + rhs.0)
    }
}

impl AddSpecImpl<Ticks> for Instant {
    open spec fn obeys_add_spec() -> bool {
        true
    }

    open spec fn add_req(self, rhs: Ticks) -> bool {
        self@ + rhs.0 <= u32::MAX
    }

    open spec fn add_spec(self, rhs: Ticks) -> Instant {
        self.spec_add_ticks(rhs.0 as int)
    }
}

impl core::ops::Add<Duration> for Instant {
    type Output = Instant;

    fn add(self, rhs: Duration) -> (r: Instant) {
        self + Ticks::from_duration(rhs)
    }
}

impl AddSpecImpl<Duration> for Instant {
    open spec fn obeys_add_spec() -> bool {
        true
    }

    open spec fn add_req(self, rhs: Duration) -> bool {
        self@ + ticks_of_seconds(rhs.0 as int) <= u32::MAX
    }

    open spec fn add_spec(self, rhs: Duration) -> Instant {
        self.spec_add_ticks(ticks_of_seconds(rhs.0 as int))
    }
}

impl core::ops::Sub<Ticks> for Instant {
    type Output = Instant;

    fn sub(self, rhs: Ticks) -> (r: Instant) {
        Instant(self.0 - rhs.0)
    }
}

impl SubSpecImpl<Ticks> for Instant {
    open spec fn obeys_sub_spec() -> bool {
        true
    }

    open spec fn sub_req(self, rhs: Ticks) -> bool {
        rhs.0 <= self@
    }

    open spec fn sub_spec(self, rhs: Ticks) -> Instant {
        self.spec_add_ticks(-(rhs.0 as int))
    }
}

impl core::ops::Sub<Duration> for Instant {
    type Output = Instant;

    fn sub(self, rhs: Duration) -> (r: Instant) {
        self - Ticks::from_duration(rhs)
    }
}

impl SubSpecImpl<Duration> for Instant {
    open spec fn obeys_sub_spec() -> bool {
        true
    }

    open spec fn sub_req(self, rhs: Duration) -> bool {
        ticks_of_seconds(rhs.0 as int) <= self@
    }

    open spec fn sub_spec(self, rhs: Duration) -> Instant {
        self.spec_add_ticks(-ticks_of_seconds(rhs.0 as int))
    }
}

impl core::ops::AddAssign<Ticks> for Instant {
    fn add_assign(&mut self, rhs: Ticks)
        requires
            old(self)@ + rhs.0 <= u32::MAX,
        ensures
            final(self)@ == old(self)@ + rhs.0,
    {
        self.0 = self.0 + rhs.0;
    }
}

impl core::ops::AddAssign<Duration> for Instant {
    fn add_assign(&mut self, rhs: Duration)
        requires
            old(self)@ + ticks_of_seconds(rhs.0 as int) <= u32::MAX,
        ensures
            final(self)@ == old(self)@ + ticks_of_seconds(rhs.0 as int),
    {
        self.0 = self.0 + Ticks::from_duration(rhs).0;
    }
}

impl core::ops::SubAssign<Ticks> for Instant {
    fn sub_assign(&mut self, rhs: Ticks)
        requires
            rhs.0 <= old(self)@,
        ensures
            final(self)@ == old(self)@ - rhs.0,
    {
        self.0 = self.0 - rhs.0;
    }
}

impl core::ops::SubAssign<Duration> for Instant {
    fn sub_assign(&mut self, rhs: Duration)
        requires
            ticks_of_seconds(rhs.0 as int) <= old(self)@,
        ensures
            final(self)@ == old(self)@ - ticks_of_seconds(rhs.0 as int),
    {
        self.0 = self.0 - Ticks::from_duration(rhs).0;
    }
}

/// A time of day, in minutes after midnight.
///
/// `TimeOfDay::new` and `+` do not reduce modulo a day, so a value may lie at or
/// beyond `MINUTES_PER_DAY`; `earlier_by`, `later_by` and the conversion from an
/// `Instant` always give a value within the day.
#[derive(Clone, Copy, PartialEq, Eq, PartialOrd, Structural)]
pub struct TimeOfDay {
    minutes_of_day: u16,
}

impl View for TimeOfDay {
    type V = nat;

    closed spec fn view(&self) -> nat {
        self.minutes_of_day as nat
    }
}

/// `a` modulo `MINUTES_PER_DAY`, always in `0..MINUTES_PER_DAY`.
pub open spec fn wrap_day(a: int) -> int {
    a % (MINUTES_PER_DAY as int)
}

/// The minute of the day `delta` after minute `m`.
pub open spec fn minutes_later(m: int, delta: Duration) -> int {
    wrap_day(m + whole_minutes(delta))
}

/// The minute of the day `delta` before minute `m`.
pub open spec fn minutes_earlier(m: int, delta: Duration) -> int {
    wrap_day(m - whole_minutes(delta))
}

/// The minute of the day at which an instant falls.
pub open spec fn minute_of_day_at(ticks: int) -> int {
    wrap_day(BEGINNING_TIME_OF_DAY as int * 60 + ticks / TICKS_PER_SIM_MINUTE as int)
}

impl TimeOfDay {
    /// `h` hours and `m` minutes after midnight. Both parts are kept in 16 bits
    /// before they are added, and their sum must fit in 16 bits.
    pub fn new(h: usize, m: usize) -> (t: TimeOfDay)
        requires
            h * 60 <= usize::MAX,
            low_16_bits(m as int) + low_16_bits(h * 60) <= u16::MAX,
        ensures
            t@ == low_16_bits(m as int) + low_16_bits(h * 60),
    {
        proof {
            lemma_usize_as_u16(m);
            lemma_usize_as_u16((h * 60) as usize);
        }
        TimeOfDay { minutes_of_day: m as u16 + (h * 60) as u16 }
    }

    /// The whole hours and the remaining minutes.
    pub fn hours_minutes(self) -> (hm: (usize, usize))
        ensures
            hm.0 == self@ / 60,
            hm.1 == self@ % 60,
    {
        ((self.minutes_of_day / 60) as usize, (self.minutes_of_day % 60) as usize)
    }

    /// The time of day `delta` earlier, wrapping around midnight; the duration
    /// counts in whole minutes.
    pub fn earlier_by(self, delta: Duration) -> (t: TimeOfDay)
        ensures
            t@ == minutes_earlier(self@ as int, delta),
            t@ < MINUTES_PER_DAY,
    {
        let day = MINUTES_PER_DAY as i64;
        let shifted: i64 = self.minutes_of_day as i64 - (delta.0 / 60) as i64;
        let r: i64 = ((shifted % day) + day) % day;
        proof {
            assert(0 <= r < 1440);
            assert(r == wrap_day(shifted as int)) by {
                let q = shifted as int;
                vstd::arithmetic::div_mod::lemma_fundamental_div_mod(q, 1440);
            }
        }
        TimeOfDay { minutes_of_day: r as u16 }
    }

    /// The time of day `delta` later, wrapping around midnight; the duration
    /// counts in whole minutes.
    pub fn later_by(self, delta: Duration) -> (t: TimeOfDay)
        ensures
            t@ == minutes_later(self@ as int, delta),
            t@ < MINUTES_PER_DAY,
    {
        let r: u32 = (self.minutes_of_day as u32 + delta.0 / 60) % (MINUTES_PER_DAY as u32);
        TimeOfDay { minutes_of_day: r as u16 }
    }

    /// The time of day at an instant; the simulation starts at
    /// `BEGINNING_TIME_OF_DAY` o'clock.
    pub fn from_instant(instant: Instant) -> (t: TimeOfDay)
        ensures
            t@ == minute_of_day_at(instant@ as int),
            t@ < MINUTES_PER_DAY,
    {
        let r: usize = (BEGINNING_TIME_OF_DAY * 60 + (instant.ticks() / TICKS_PER_SIM_MINUTE as usize))
            % MINUTES_PER_DAY;
        TimeOfDay { minutes_of_day: r as u16 }
    }

    /// The time as `"h : m"`, the form in which a time of day is both shown
    /// and debug-printed.
    pub fn to_string(self) -> (s: String)
        ensures
            s@ == crate::text::decimal(self@ / 60) + " : "@ + crate::text::decimal(self@ % 60),
    {
        let (h, m) = self.hours_minutes();
        let mut s = crate::text::usize_to_decimal(h);
        s.append(" : ");
        let ms = crate::text::usize_to_decimal(m);
        s.append(ms.as_str());
        s
    }

    /// A minute count fits in 16 bits.
    pub broadcast proof fn lemma_minutes_bound(self)
        ensures
            #[trigger] self@ <= u16::MAX,
    {
    }

    /// The time of day with `m` minutes after midnight.
    pub closed spec fn from_minutes_spec(m: int) -> TimeOfDay {
        TimeOfDay { minutes_of_day: m as u16 }
    }

    /// Within the range of the representation, the time of day built from a
    /// minute count has that minute count.
    pub broadcast proof fn lemma_from_minutes_view(m: int)
        requires
            0 <= m <= u16::MAX,
        ensures
            #[trigger] Self::from_minutes_spec(m)@ == m,
    {
    }
}

impl core::convert::From<Instant> for TimeOfDay {
    fn from(instant: Instant) -> (t: TimeOfDay) {
        TimeOfDay::from_instant(instant)
    }
}

impl vstd::std_specs::convert::FromSpecImpl<Instant> for TimeOfDay {
    open spec fn obeys_from_spec() -> bool {
        true
    }

    open spec fn from_spec(instant: Instant) -> TimeOfDay {
        TimeOfDay::from_minutes_spec(minute_of_day_at(instant@ as int))
    }
}

/// The number of minutes that `+` and `-` move a time of day by: the whole
/// minutes of the duration, kept in 16 bits.
pub open spec fn shift_minutes(d: Duration) -> int {
    low_16_bits(whole_minutes(d))
}

impl core::ops::Add<Duration> for TimeOfDay {
    type Output = TimeOfDay;

    /// Moves the time forward without wrapping around midnight.
    fn add(self, rhs: Duration) -> (t: TimeOfDay) {
        proof {
            lemma_u32_as_u16(rhs.0 / 60);
        }
        TimeOfDay { minutes_of_day: self.minutes_of_day + (rhs.0 / 60) as u16 }
    }
}

impl AddSpecImpl<Duration> for TimeOfDay {
    open spec fn obeys_add_spec() -> bool {
        true
    }

    open spec fn add_req(self, rhs: Duration) -> bool {
        self@ + shift_minutes(rhs) <= u16::MAX
    }

    open spec fn add_spec(self, rhs: Duration) -> TimeOfDay {
        TimeOfDay::from_minutes_spec(self@ + shift_minutes(rhs))
    }
}

impl core::ops::Sub<Duration> for TimeOfDay {
    type Output = TimeOfDay;

    /// Moves the time backward without wrapping around midnight.
    fn sub(self, rhs: Duration) -> (t: TimeOfDay) {
        proof {
            lemma_u32_as_u16(rhs.0 / 60);
        }
        TimeOfDay { minutes_of_day: self.minutes_of_day - (rhs.0 / 60) as u16 }
    }
}

impl SubSpecImpl<Duration> for TimeOfDay {
    open spec fn obeys_sub_spec() -> bool {
        true
    }

    open spec fn sub_req(self, rhs: Duration) -> bool {
        shift_minutes(rhs) <= self@
    }

    open spec fn sub_spec(self, rhs: Duration) -> TimeOfDay {
        TimeOfDay::from_minutes_spec(self@ - shift_minutes(rhs))
    }
}

impl core::ops::AddAssign<Duration> for TimeOfDay {
    fn add_assign(&mut self, rhs: Duration)
        requires
            old(self)@ + shift_minutes(rhs) <= u16::MAX,
        ensures
            final(self)@ == old(self)@ + shift_minutes(rhs),
    {
        proof {
            lemma_u32_as_u16(rhs.0 / 60);
        }
        self.minutes_of_day = self.minutes_of_day + (rhs.0 / 60) as u16;
    }
}

impl core::ops::SubAssign<Duration> for TimeOfDay {
    fn sub_assign(&mut self, rhs: Duration)
        requires
            shift_minutes(rhs) <= old(self)@,
        ensures
            final(self)@ == old(self)@ - shift_minutes(rhs),
    {
        proof {
            lemma_u32_as_u16(rhs.0 / 60);
        }
        self.minutes_of_day = self.minutes_of_day - (rhs.0 / 60) as u16;
    }
}

/// A span of the day from `start` to `end`, both included; when `end` comes
/// before `start` the span runs across midnight.
#[derive(Clone, Copy)]
pub struct TimeOfDayRange {
    pub start: TimeOfDay,
    pub end: TimeOfDay,
}

/// Whether minute `t` lies in the span from minute `s` to minute `e`.
pub open spec fn span_contains(s: int, e: int, t: int) -> bool {
    if s <= e {
        s <= t && t <= e
    } else {
        s <= t || t <= e
    }
}

/// Whether the span from minute `s` to minute `e` still has its end ahead at minute `t`.
pub open spec fn span_end_ahead(s: int, e: int, t: int) -> bool {
    if e > s {
        t < e
    } else {
        t > s || t < e
    }
}

impl TimeOfDayRange {
    pub fn new(start_h: usize, start_m: usize, end_h: usize, end_m: usize) -> (r: TimeOfDayRange)
        requires
            start_h * 60 <= usize::MAX,
            low_16_bits(start_m as int) + low_16_bits(start_h * 60) <= u16::MAX,
            end_h * 60 <= usize::MAX,
            low_16_bits(end_m as int) + low_16_bits(end_h * 60) <= u16::MAX,
        ensures
            r.start@ == low_16_bits(start_m as int) + low_16_bits(start_h * 60),
            r.end@ == low_16_bits(end_m as int) + low_16_bits(end_h * 60),
    {
        TimeOfDayRange { start: TimeOfDay::new(start_h, start_m), end: TimeOfDay::new(end_h, end_m) }
    }

    pub fn contains(self, time: TimeOfDay) -> (r: bool)
        ensures
            r == span_contains(self.start@ as int, self.end@ as int, time@ as int),
    {
        let s = self.start.minutes_of_day;
        let e = self.end.minutes_of_day;
        let t = time.minutes_of_day;
        if s <= e {
            s <= t && t <= e
        } else {
            s <= t || t <= e
        }
    }

    /// Whether the time of day at an instant lies in the range.
    pub fn contains_instant(self, instant: Instant) -> (r: bool)
        ensures
            r == span_contains(
                self.start@ as int,
                self.end@ as int,
                minute_of_day_at(instant@ as int),
            ),
    {
        self.contains(TimeOfDay::from_instant(instant))
    }

    /// Both ends moved `delta` earlier, each wrapping around midnight.
    pub fn earlier_by(self, delta: Duration) -> (r: TimeOfDayRange)
        ensures
            r.start@ == minutes_earlier(self.start@ as int, delta),
            r.end@ == minutes_earlier(self.end@ as int, delta),
    {
        TimeOfDayRange { start: self.start.earlier_by(delta), end: self.end.earlier_by(delta) }
    }

    /// Both ends moved `delta` later, each wrapping around midnight.
    pub fn later_by(self, delta: Duration) -> (r: TimeOfDayRange)
        ensures
            r.start@ == minutes_later(self.start@ as int, delta),
            r.end@ == minutes_later(self.end@ as int, delta),
    {
        TimeOfDayRange { start: self.start.later_by(delta), end: self.end.later_by(delta) }
    }

    pub fn end_after_on_same_day(self, time: TimeOfDay) -> (r: bool)
        ensures
            r == span_end_ahead(self.start@ as int, self.end@ as int, time@ as int),
    {
        let s = self.start.minutes_of_day;
        let e = self.end.minutes_of_day;
        let t = time.minutes_of_day;
        if e > s {
            t < e
        } else {
            t > s || t < e
        }
    }
}

/// The facts that callers outside this module need to read the results of
/// `+` and `-` on instants and times of day.
pub broadcast group group_time_views {
    Instant::lemma_add_ticks_view,
    Instant::lemma_ticks_bound,
    TimeOfDay::lemma_from_minutes_view,
    TimeOfDay::lemma_minutes_bound,
}

// Laws of simulation time.

proof fn lemma_mod_shift(x: int, q: int)
    ensures
        wrap_day(x + MINUTES_PER_DAY as int * q) == wrap_day(x),
{
    vstd::arithmetic::div_mod::lemma_mod_multiples_vanish(q, x, MINUTES_PER_DAY as int);
}

proof fn lemma_wrap_day_of_wrapped(x: int, y: int)
    ensures
        wrap_day(wrap_day(x) + y) == wrap_day(x + y),
{
    let d = MINUTES_PER_DAY as int;
    vstd::arithmetic::div_mod::lemma_fundamental_div_mod(x, d);
    lemma_mod_shift(x + y, -(x / d));
    assert(wrap_day(x) + y == (x + y) + d * (-(x / d)));
}

proof fn lemma_wrap_day_small(x: int)
    requires
        -(MINUTES_PER_DAY as int) < x < MINUTES_PER_DAY as int,
    ensures
        wrap_day(x) == if x >= 0 { x } else { x + MINUTES_PER_DAY as int },
{
    if x < 0 {
        lemma_mod_shift(x, 1);
    }
}

/// A wrapped time of day lies within the day.
proof fn lemma_wrap_day_range(x: int)
    ensures
        0 <= wrap_day(x) < MINUTES_PER_DAY as int,
{
}

/// Moving a time of day later and then earlier by the same duration, or the
/// other way round, gives the time of day back (reduced to within the day).
pub proof fn law_later_then_earlier(m: int, delta: Duration)
    ensures
        minutes_earlier(minutes_later(m, delta), delta) == wrap_day(m),
        minutes_later(minutes_earlier(m, delta), delta) == wrap_day(m),
{
    let k = whole_minutes(delta);
    lemma_wrap_day_of_wrapped(m + k, -k);
    lemma_wrap_day_of_wrapped(m - k, k);
    assert(m + k + -k == m);
    assert(m - k + k == m);
}

/// The distance, going forward through the day, from minute `s` to minute `t`.
pub open spec fn forward_distance(s: int, t: int) -> int {
    wrap_day(t - s)
}

proof fn lemma_span_contains_by_distance(s: int, e: int, t: int)
    requires
        0 <= s < MINUTES_PER_DAY as int,
        0 <= e < MINUTES_PER_DAY as int,
        0 <= t < MINUTES_PER_DAY as int,
    ensures
        span_contains(s, e, t) == (forward_distance(s, t) <= forward_distance(s, e)),
{
    lemma_wrap_day_small(t - s);
    lemma_wrap_day_small(e - s);
}

proof fn lemma_forward_distance_shift(s: int, t: int, k: int)
    ensures
        forward_distance(wrap_day(s + k), wrap_day(t + k)) == forward_distance(s, t),
{
    let d = MINUTES_PER_DAY as int;
    vstd::arithmetic::div_mod::lemma_fundamental_div_mod(s + k, d);
    vstd::arithmetic::div_mod::lemma_fundamental_div_mod(t + k, d);
    let q = (s + k) / d - (t + k) / d;
    assert(wrap_day(t + k) - wrap_day(s + k) == (t - s) + d * q);
    lemma_mod_shift(t - s, q);
}

/// A range of the day contains its own start and end.
pub proof fn law_range_contains_its_ends(r: TimeOfDayRange)
    ensures
        span_contains(r.start@ as int, r.end@ as int, r.start@ as int),
        span_contains(r.start@ as int, r.end@ as int, r.end@ as int),
{
}

/// Moving a range and a time of day by the same duration, later or earlier,
/// keeps the time inside the range exactly when it was inside before
/// (for a range and a time that lie within the day).
pub proof fn law_shift_keeps_membership(s: int, e: int, t: int, delta: Duration)
    requires
        0 <= s < MINUTES_PER_DAY as int,
        0 <= e < MINUTES_PER_DAY as int,
        0 <= t < MINUTES_PER_DAY as int,
    ensures
        span_contains(minutes_later(s, delta), minutes_later(e, delta), minutes_later(t, delta))
            == span_contains(s, e, t),
        span_contains(
            minutes_earlier(s, delta),
            minutes_earlier(e, delta),
            minutes_earlier(t, delta),
        ) == span_contains(s, e, t),
{
    let k = whole_minutes(delta);
    lemma_span_contains_by_distance(s, e, t);
    lemma_wrap_day_range(s + k);
    lemma_wrap_day_range(e + k);
    lemma_wrap_day_range(t + k);
    lemma_span_contains_by_distance(wrap_day(s + k), wrap_day(e + k), wrap_day(t + k));
    lemma_forward_distance_shift(s, t, k);
    lemma_forward_distance_shift(s, e, k);
    lemma_wrap_day_range(s - k);
    lemma_wrap_day_range(e - k);
    lemma_wrap_day_range(t - k);
    lemma_span_contains_by_distance(wrap_day(s - k), wrap_day(e - k), wrap_day(t - k));
    assert(s - k == s + (-k) && e - k == e + (-k) && t - k == t + (-k));
    lemma_forward_distance_shift(s, t, -k);
    lemma_forward_distance_shift(s, e, -k);
}

/// Moving a range later or earlier keeps the span of the day that it covers.
pub proof fn law_shift_keeps_span_length(s: int, e: int, delta: Duration)
    ensures
        forward_distance(minutes_later(s, delta), minutes_later(e, delta)) == forward_distance(s, e),
        forward_distance(minutes_earlier(s, delta), minutes_earlier(e, delta))
            == forward_distance(s, e),
{
    let k = whole_minutes(delta);
    lemma_forward_distance_shift(s, e, k);
    assert(s - k == s + (-k) && e - k == e + (-k));
    lemma_forward_distance_shift(s, e, -k);
}

/// `k` simulated minutes after an instant, the time of day is `k` minutes
/// later; in particular a whole simulated day brings back the same time of day.
pub proof fn law_time_of_day_follows_instants(ticks: int, k: int)
    requires
        0 <= ticks,
        0 <= k,
    ensures
        minute_of_day_at(ticks + TICKS_PER_SIM_MINUTE as int * k) == wrap_day(
            minute_of_day_at(ticks) + k,
        ),
        minute_of_day_at(ticks + TICKS_PER_SIM_MINUTE as int * MINUTES_PER_DAY as int)
            == minute_of_day_at(ticks),
{
    let tm = TICKS_PER_SIM_MINUTE as int;
    vstd::arithmetic::div_mod::lemma_fundamental_div_mod(ticks, tm);
    let q = ticks / tm;
    let r = ticks % tm;
    vstd::arithmetic::div_mod::lemma_fundamental_div_mod_converse(ticks + tm * k, tm, q + k, r);
    let b = BEGINNING_TIME_OF_DAY as int * 60;
    lemma_wrap_day_of_wrapped(b + q, k);
    assert(b + (ticks + tm * k) / tm == b + q + k);
    vstd::arithmetic::div_mod::lemma_fundamental_div_mod_converse(
        ticks + tm * MINUTES_PER_DAY as int,
        tm,
        q + MINUTES_PER_DAY as int,
        r,
    );
    lemma_mod_shift(b + q, 1);
}

/// A time of day built from hours and minutes, within the day's notation,
/// gives the same hours and minutes back.
pub proof fn law_hours_minutes_round_trip(h: int, m: int)
    requires
        0 <= h,
        0 <= m < 60,
        h * 60 + m <= u16::MAX,
    ensures
        (low_16_bits(m) + low_16_bits(h * 60)) / 60 == h,
        (low_16_bits(m) + low_16_bits(h * 60)) % 60 == m,
{
    vstd::arithmetic::div_mod::lemma_fundamental_div_mod_converse(h * 60 + m, 60, h, m);
}

/// Subtracting a duration from an instant undoes adding it.
pub proof fn law_instant_sub_undoes_add(i: Instant, d: Duration)
    requires
        i@ + ticks_of_seconds(d.0 as int) <= u32::MAX,
    ensures
        <Instant as SubSpec<Duration>>::sub_spec(
            <Instant as AddSpec<Duration>>::add_spec(i, d),
            d,
        ) == i,
        <Instant as SubSpec<Duration>>::sub_req(
            <Instant as AddSpec<Duration>>::add_spec(i, d),
            d,
        ),
{
    let t = ticks_of_seconds(d.0 as int);
    i.lemma_add_ticks_view(t);
    i.spec_add_ticks(t).lemma_add_ticks_view(-t);
}

/// Adding two durations to an instant one after the other is the same as
/// adding their sum.
pub proof fn law_instant_add_is_associative(i: Instant, a: Duration, b: Duration)
    requires
        i@ + ticks_of_seconds(a.0 as int) + ticks_of_seconds(b.0 as int) <= u32::MAX,
    ensures
        a.0 + b.0 <= u32::MAX,
        <Instant as AddSpec<Duration>>::add_spec(
            <Instant as AddSpec<Duration>>::add_spec(i, a),
            b,
        ) == <Instant as AddSpec<Duration>>::add_spec(
            i,
            <Duration as AddSpec>::add_spec(a, b),
        ),
{
    let ta = ticks_of_seconds(a.0 as int);
    let tb = ticks_of_seconds(b.0 as int);
    i.lemma_add_ticks_view(ta);
    i.spec_add_ticks(ta).lemma_add_ticks_view(tb);
    i.lemma_add_ticks_view(ta + tb);
}

/// Moving a time of day back by a duration with `-` undoes moving it
/// forward by the same duration with `+`.
pub proof fn law_time_of_day_sub_undoes_add(t: TimeOfDay, d: Duration)
    requires
        t@ + shift_minutes(d) <= u16::MAX,
    ensures
        <TimeOfDay as SubSpec<Duration>>::sub_req(<TimeOfDay as AddSpec<Duration>>::add_spec(t, d), d),
        <TimeOfDay as SubSpec<Duration>>::sub_spec(
            <TimeOfDay as AddSpec<Duration>>::add_spec(t, d),
            d,
        ) == t,
{
    let m = t@ + shift_minutes(d);
    assert(0 <= shift_minutes(d));
    TimeOfDay::lemma_from_minutes_view(m);
    TimeOfDay::lemma_from_minutes_view(t@ as int);
}

/// Hours and minutes describe a time of day faithfully: the minutes are
/// below 60, two times of day are equal exactly when their hours and minutes
/// are, and one comes before another (by its minutes after midnight) exactly
/// when its (hours, minutes) pair comes first in lexicographic order.
pub proof fn law_hours_minutes_faithful(t: TimeOfDay, u: TimeOfDay)
    ensures
        t@ % 60 < 60,
        (t == u) == (t@ / 60 == u@ / 60 && t@ % 60 == u@ % 60),
        (t@ < u@) == (t@ / 60 < u@ / 60 || (t@ / 60 == u@ / 60 && t@ % 60 < u@ % 60)),
{
    let (a, b) = (t@ as int, u@ as int);
    vstd::arithmetic::div_mod::lemma_fundamental_div_mod(a, 60);
    vstd::arithmetic::div_mod::lemma_fundamental_div_mod(b, 60);
    if a / 60 < b / 60 {
        assert(60 * (a / 60) + 60 <= 60 * (b / 60));
    }
    if b / 60 < a / 60 {
        assert(60 * (b / 60) + 60 <= 60 * (a / 60));
    }
}

/// Subtracting `t` ticks from an instant lowers its tick count by exactly
/// `t`, and undoes adding them.
pub proof fn law_instant_sub_ticks(i: Instant, t: Ticks)
    ensures
        t.0 <= i@ ==> <Instant as SubSpec<Ticks>>::sub_req(i, t)
            && <Instant as SubSpec<Ticks>>::sub_spec(i, t)@ == i@ - t.0,
        i@ + t.0 <= u32::MAX ==> <Instant as SubSpec<Ticks>>::sub_spec(
            <Instant as AddSpec<Ticks>>::add_spec(i, t),
            t,
        ) == i,
        i@ + t.0 <= u32::MAX ==> <Instant as AddSpec<Ticks>>::add_spec(i, t)@ == i@ + t.0,
{
    if t.0 <= i@ {
        i.lemma_add_ticks_view(-(t.0 as int));
    }
    if i@ + t.0 <= u32::MAX {
        i.lemma_add_ticks_view(t.0 as int);
        i.spec_add_ticks(t.0 as int).lemma_add_ticks_view(-(t.0 as int));
    }
}

/// For a range within one day (its start before its end), the end is still
/// ahead at every time before the end, whether or not that time has reached
/// the start, and at no time from the end on; in particular it is ahead at
/// every time in the range but the end itself. For a range that runs across
/// midnight, the end is ahead after the start and before the end.
pub proof fn law_end_ahead_of_times(r: TimeOfDayRange, t: TimeOfDay)
    ensures
        r.start@ < r.end@ ==> (span_end_ahead(r.start@ as int, r.end@ as int, t@ as int) <==> t@
            < r.end@),
        r.start@ < r.end@ && span_contains(r.start@ as int, r.end@ as int, t@ as int) && t@
            != r.end@ ==> span_end_ahead(r.start@ as int, r.end@ as int, t@ as int),
        r.end@ <= r.start@ ==> (span_end_ahead(r.start@ as int, r.end@ as int, t@ as int) <==> (
        r.start@ < t@ || t@ < r.end@)),
{
}

} // verus!
