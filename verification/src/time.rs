//! ISO 8601 durations, read into millionths of a second.
//!
//! The form read is `P[nY][nM][nW][nD][T[nH][nM][nS]]`: the letter `P`, then
//! date components in this order, then optionally the letter `T` and time
//! components in this order. Each `n` is a decimal number, read to six
//! places. Reading stops at the first character that does not continue this
//! form; what was read up to there counts, and every other component is
//! zero. A text that does not begin with `P` is a duration of zero.
//!
//! A year counts as 365 days and a month as 30 days.

use vstd::prelude::*;
use crate::number::{
    digits_end,
    is_digit,
    number_end,
    number_micros,
    saturated_u64,
    scan_number,
};
use crate::text::chars_of;

verus! {

/// Seconds in a year of 365 days.
pub const SECONDS_PER_YEAR: u64 = 31_536_000;

/// Seconds in a month of 30 days.
pub const SECONDS_PER_MONTH: u64 = 2_592_000;

/// Seconds in a week.
pub const SECONDS_PER_WEEK: u64 = 604_800;

/// Seconds in a day.
pub const SECONDS_PER_DAY: u64 = 86_400;

/// Seconds in an hour.
pub const SECONDS_PER_HOUR: u64 = 3_600;

/// Seconds in a minute.
pub const SECONDS_PER_MINUTE: u64 = 60;

/// The seven components of a duration, each in millionths of its unit.
pub ghost struct DurationParts {
    pub year: nat,
    pub month: nat,
    pub week: nat,
    pub day: nat,
    pub hour: nat,
    pub minute: nat,
    pub second: nat,
}

/// The duration whose components are all zero.
pub open spec fn no_parts() -> DurationParts {
    DurationParts { year: 0, month: 0, week: 0, day: 0, hour: 0, minute: 0, second: 0 }
}

/// The place of a unit letter in the order of components: 0 to 3 for the
/// date letters `Y`, `M`, `W`, `D`, and 4 to 6 for the time letters `H`,
/// `M`, `S`. The letter `M` is a month before `T` and a minute behind it.
pub open spec fn unit_rank(c: char, time: bool) -> Option<int> {
    if !time && c == 'Y' {
        Some(0)
    } else if !time && c == 'M' {
        Some(1)
    } else if !time && c == 'W' {
        Some(2)
    } else if !time && c == 'D' {
        Some(3)
    } else if time && c == 'H' {
        Some(4)
    } else if time && c == 'M' {
        Some(5)
    } else if time && c == 'S' {
        Some(6)
    } else {
        None
    }
}

/// `parts` with the component of the given rank set to `micros`.
pub open spec fn with_part(parts: DurationParts, rank: int, micros: nat) -> DurationParts {
    if rank == 0 {
        DurationParts { year: micros, ..parts }
    } else if rank == 1 {
        DurationParts { month: micros, ..parts }
    } else if rank == 2 {
        DurationParts { week: micros, ..parts }
    } else if rank == 3 {
        DurationParts { day: micros, ..parts }
    } else if rank == 4 {
        DurationParts { hour: micros, ..parts }
    } else if rank == 5 {
        DurationParts { minute: micros, ..parts }
    } else {
        DurationParts { second: micros, ..parts }
    }
}

/// The components read from index `from` on, added to `parts`, when the
/// next component must have rank `next_rank` or more and `time` says
/// whether the letter `T` has been passed.
pub open spec fn parts_from(
    s: Seq<char>,
    from: int,
    next_rank: int,
    time: bool,
    parts: DurationParts,
) -> DurationParts
    decreases s.len() - from,
{
    if from < 0 || from >= s.len() {
        parts
    } else if !time && s[from] == 'T' {
        parts_from(s, from + 1, 4, true, parts)
    } else {
        let end = number_end(s, from);
        if end <= from || end >= s.len() {
            parts
        } else {
            match unit_rank(s[end], time) {
                Some(rank) => if rank >= next_rank {
                    parts_from(
                        s,
                        end + 1,
                        rank + 1,
                        time,
                        with_part(parts, rank, number_micros(s, from)),
                    )
                } else {
                    parts
                },
                None => parts,
            }
        }
    }
}

/// The components of the duration that `s` writes.
pub open spec fn duration_parts(s: Seq<char>) -> DurationParts {
    if s.len() > 0 && s[0] == 'P' {
        parts_from(s, 1, 0, false, no_parts())
    } else {
        no_parts()
    }
}

/// The length of a duration in millionths of a second.
pub open spec fn total_micros(parts: DurationParts) -> nat {
    parts.year * 31_536_000 + parts.month * 2_592_000 + parts.week * 604_800 + parts.day * 86_400
        + parts.hour * 3_600 + parts.minute * 60 + parts.second
}

/// The length of the duration that `s` writes, in millionths of a second.
pub open spec fn duration_micros(s: Seq<char>) -> nat {
    total_micros(duration_parts(s))
}

/// A text that does not begin with the letter `P` is a duration of zero:
/// nothing is read from it.
pub proof fn lemma_not_a_duration_is_zero(s: Seq<char>)
    requires
        s.len() == 0 || s[0] != 'P',
    ensures
        duration_parts(s) == no_parts(),
        duration_micros(s) == 0,
{
}

/// Where the letter `P` is followed by neither a digit nor the letter `T`,
/// or by nothing, the duration is zero.
pub proof fn lemma_no_component_is_zero(s: Seq<char>)
    requires
        s.len() > 0,
        s[0] == 'P',
        s.len() == 1 || (s[1] != 'T' && !is_digit(s[1])),
    ensures
        duration_micros(s) == 0,
{
    if s.len() > 1 {
        assert(digits_end(s, 1) == 1);
        assert(number_end(s, 1) == 1);
    }
}

/// The seconds in the unit of the given rank.
pub open spec fn unit_seconds(rank: int) -> nat {
    if rank == 0 {
        31_536_000
    } else if rank == 1 {
        2_592_000
    } else if rank == 2 {
        604_800
    } else if rank == 3 {
        86_400
    } else if rank == 4 {
        3_600
    } else if rank == 5 {
        60
    } else {
        1
    }
}

/// A text that is the letter `P`, one number and one date letter is worth
/// the number times the seconds in the unit of that letter.
pub proof fn lemma_one_date_component(s: Seq<char>)
    requires
        s.len() >= 3,
        s[0] == 'P',
        is_digit(s[1]),
        number_end(s, 1) == s.len() - 1,
        unit_rank(s[s.len() - 1], false) is Some,
    ensures
        duration_micros(s) == number_micros(s, 1) * unit_seconds(
            unit_rank(s[s.len() - 1], false).unwrap(),
        ),
{
    let end = number_end(s, 1);
    let rank = unit_rank(s[end], false).unwrap();
    let read = with_part(no_parts(), rank, number_micros(s, 1));
    assert(s[1] != 'T');
    assert(parts_from(s, 1, 0, false, no_parts()) == parts_from(s, end + 1, rank + 1, false, read));
    assert(parts_from(s, end + 1, rank + 1, false, read) == read);
    assert(duration_parts(s) == read);
    let n = number_micros(s, 1);
    if rank == 0 {
        assert(n * unit_seconds(rank) == n * 31_536_000);
    } else if rank == 1 {
        assert(n * unit_seconds(rank) == n * 2_592_000);
    } else if rank == 2 {
        assert(n * unit_seconds(rank) == n * 604_800);
    } else {
        assert(n * unit_seconds(rank) == n * 86_400);
    }
}

/// A text that is the letters `PT`, one number and one time letter is
/// worth the number times the seconds in the unit of that letter.
pub proof fn lemma_one_time_component(s: Seq<char>)
    requires
        s.len() >= 4,
        s[0] == 'P',
        s[1] == 'T',
        is_digit(s[2]),
        number_end(s, 2) == s.len() - 1,
        unit_rank(s[s.len() - 1], true) is Some,
    ensures
        duration_micros(s) == number_micros(s, 2) * unit_seconds(
            unit_rank(s[s.len() - 1], true).unwrap(),
        ),
{
    let end = number_end(s, 2);
    let rank = unit_rank(s[end], true).unwrap();
    let read = with_part(no_parts(), rank, number_micros(s, 2));
    assert(parts_from(s, 1, 0, false, no_parts()) == parts_from(s, 2, 4, true, no_parts()));
    assert(parts_from(s, 2, 4, true, no_parts()) == parts_from(s, end + 1, rank + 1, true, read));
    assert(parts_from(s, end + 1, rank + 1, true, read) == read);
    assert(duration_parts(s) == read);
    let n = number_micros(s, 2);
    if rank == 4 {
        assert(n * unit_seconds(rank) == n * 3_600);
    } else if rank == 5 {
        assert(n * unit_seconds(rank) == n * 60);
    } else {
        assert(n * unit_seconds(rank) == n * 1);
    }
}

/// A duration by its components, each in millionths of its unit and held
/// at the largest 64-bit value where it is larger.
#[derive(Debug, Clone, Copy, PartialEq, Eq)]
pub struct Iso8601 {
    pub year: u64,
    pub month: u64,
    pub week: u64,
    pub day: u64,
    pub hour: u64,
    pub minute: u64,
    pub second: u64,
}

impl View for Iso8601 {
    type V = DurationParts;

    open spec fn view(&self) -> DurationParts {
        DurationParts {
            year: self.year as nat,
            month: self.month as nat,
            week: self.week as nat,
            day: self.day as nat,
            hour: self.hour as nat,
            minute: self.minute as nat,
            second: self.second as nat,
        }
    }
}

/// Whether each component of `held` is that of `exact`, or the largest
/// 64-bit value where that is larger.
pub open spec fn holds(held: Iso8601, exact: DurationParts) -> bool {
    &&& held.year == saturated_u64(exact.year)
    &&& held.month == saturated_u64(exact.month)
    &&& held.week == saturated_u64(exact.week)
    &&& held.day == saturated_u64(exact.day)
    &&& held.hour == saturated_u64(exact.hour)
    &&& held.minute == saturated_u64(exact.minute)
    &&& held.second == saturated_u64(exact.second)
}

/// Holding the components at 64 bits does not change the total held at 64
/// bits.
pub proof fn lemma_held_total(held: Iso8601, exact: DurationParts)
    requires
        holds(held, exact),
    ensures
        saturated_u64(total_micros(held@)) == saturated_u64(total_micros(exact)),
{
}

/// A component times the seconds in its unit.
fn scaled(component: u64, seconds: u64) -> (product: u128)
    requires
        seconds <= SECONDS_PER_YEAR,
    ensures
        product == component * seconds,
{
    assert(component * seconds <= 0xffff_ffff_ffff_ffff * 31_536_000) by (nonlinear_arith)
        requires
            component <= 0xffff_ffff_ffff_ffff,
            seconds <= 31_536_000,
    ;
    component as u128 * (seconds as u128)
}

impl Iso8601 {
    /// The duration of length zero.
    pub fn zero() -> (parts: Iso8601)
        ensures
            parts@ == no_parts(),
    {
        Iso8601 { year: 0, month: 0, week: 0, day: 0, hour: 0, minute: 0, second: 0 }
    }

    /// The length in millionths of a second, or the largest 64-bit value
    /// where the length is larger.
    pub fn to_micros(&self) -> (total: u64)
        ensures
            total == saturated_u64(total_micros(self@)),
    {
        let years: u128 = scaled(self.year, SECONDS_PER_YEAR);
        let months: u128 = scaled(self.month, SECONDS_PER_MONTH);
        let weeks: u128 = scaled(self.week, SECONDS_PER_WEEK);
        let days: u128 = scaled(self.day, SECONDS_PER_DAY);
        let hours: u128 = scaled(self.hour, SECONDS_PER_HOUR);
        let minutes: u128 = scaled(self.minute, SECONDS_PER_MINUTE);
        let date: u128 = years + months + weeks + days;
        let time: u128 = hours + minutes + self.second as u128;
        let total: u128 = date + time;
        if total > u64::MAX as u128 {
            u64::MAX
        } else {
            total as u64
        }
    }

    /// Sets the component of the given rank.
    fn set(&mut self, rank: u8, micros: u64)
        requires
            rank <= 6,
        ensures
            forall|exact: DurationParts, value: nat|
                holds(*old(self), exact) && micros == saturated_u64(value) ==> holds(
                    *final(self),
                    #[trigger] with_part(exact, rank as int, value),
                ),
    {
        if rank == 0 {
            self.year = micros;
        } else if rank == 1 {
            self.month = micros;
        } else if rank == 2 {
            self.week = micros;
        } else if rank == 3 {
            self.day = micros;
        } else if rank == 4 {
            self.hour = micros;
        } else if rank == 5 {
            self.minute = micros;
        } else {
            self.second = micros;
        }
    }
}

/// The rank of the unit letter `c`, before or behind the letter `T`.
fn rank_of(c: char, time: bool) -> (rank: Option<u8>)
    ensures
        match rank {
            Some(r) => unit_rank(c, time) == Some(r as int) && r <= 6,
            None => unit_rank(c, time) is None,
        },
{
    if !time && c == 'Y' {
        Some(0)
    } else if !time && c == 'M' {
        Some(1)
    } else if !time && c == 'W' {
        Some(2)
    } else if !time && c == 'D' {
        Some(3)
    } else if time && c == 'H' {
        Some(4)
    } else if time && c == 'M' {
        Some(5)
    } else if time && c == 'S' {
        Some(6)
    } else {
        None
    }
}

/// Reads the components of the duration that `s` writes.
pub fn parse_components(s: &Vec<char>) -> (parts: Iso8601)
    ensures
        holds(parts, duration_parts(s@)),
{
    let mut parts = Iso8601::zero();
    if s.len() == 0 || s[0] != 'P' {
        return parts;
    }
    let ghost mut exact = no_parts();
    let mut i: usize = 1;
    let mut next_rank: u8 = 0;
    let mut time = false;
    while i < s.len()
        invariant
            1 <= i <= s.len(),
            next_rank <= 7,
            holds(parts, exact),
            duration_parts(s@) == parts_from(s@, i as int, next_rank as int, time, exact),
        decreases s.len() - i,
    {
        if !time && s[i] == 'T' {
            time = true;
            next_rank = 4;
            i += 1;
        } else {
            let (end, value) = scan_number(s, i);
            if end == i || end >= s.len() {
                return parts;
            }
            let micros: u64 = match value {
                Some(v) => v,
                None => u64::MAX,
            };
            match rank_of(s[end], time) {
                Some(rank) => {
                    if rank < next_rank {
                        return parts;
                    }
                    parts.set(rank, micros);
                    proof {
                        exact = with_part(exact, rank as int, number_micros(s@, i as int));
                    }
                    next_rank = rank + 1;
                    i = end + 1;
                },
                None => {
                    return parts;
                },
            }
        }
    }
    parts
}

/// The length of the duration that `s` writes, in millionths of a second,
/// or the largest 64-bit value where the length is larger.
pub fn duration_of(s: &Vec<char>) -> (micros: u64)
    ensures
        micros == saturated_u64(duration_micros(s@)),
{
    let parts = parse_components(s);
    proof {
        lemma_held_total(parts, duration_parts(s@));
    }
    parts.to_micros()
}

/// Reads an ISO 8601 duration and returns its length in millionths of a
/// second, or the largest 64-bit value where the length is larger. A text
/// that is no duration gives zero.
pub fn iso8601parser(time: &str) -> (micros: u64)
    ensures
        micros == saturated_u64(duration_micros(time@)),
{
    let s = chars_of(time);
    duration_of(&s)
}

} // verus!
