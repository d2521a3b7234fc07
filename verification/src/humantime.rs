//! Human-readable clock times for the clip-extraction front-end: parsing
//! `HH:MM:SS` texts (hours and minutes optional) and computing the
//! duration between two times.

use vstd::prelude::*;

use crate::extract::{digit_exec, digit_of, digit_of_exec, digits_end};
use crate::text::str_to_chars;

verus! {

/// A clock time or duration, as hours, minutes and seconds.
#[derive(Clone, Copy, Debug, PartialEq, Eq, Structural)]
pub struct HumanTime(pub i16, pub i8, pub i8);

/// The value of a run of one or two digits, bounded by `max`.
pub open spec fn part_ok(p: Seq<char>, max: int) -> bool {
    &&& 1 <= p.len() <= 2
    &&& digit_val_small(p) <= max
}

/// The value of a one- or two-digit run (0 for other lengths).
pub open spec fn digit_val_small(p: Seq<char>) -> int {
    if p.len() == 1 {
        digit_of(p[0]) as int
    } else if p.len() == 2 {
        (digit_of(p[0]) * 10 + digit_of(p[1])) as int
    } else {
        0
    }
}

/// The time a text denotes: `S`, `M:S` or `H:M:S`, each field a run of
/// one or two digits, seconds and minutes up to 59, hours up to 23, and
/// nothing before or after.  Missing fields read as zero.
pub open spec fn time_spec(s: Seq<char>) -> Option<(int, int, int)> {
    let e1 = digits_end(s, 0);
    let p1 = s.subrange(0, e1);
    if e1 >= s.len() {
        if part_ok(p1, 59) {
            Some((0, 0, digit_val_small(p1)))
        } else {
            None
        }
    } else if s[e1] == ':' {
        let e2 = digits_end(s, e1 + 1);
        let p2 = s.subrange(e1 + 1, e2);
        if e2 >= s.len() {
            if part_ok(p1, 59) && part_ok(p2, 59) {
                Some((0, digit_val_small(p1), digit_val_small(p2)))
            } else {
                None
            }
        } else if s[e2] == ':' {
            let e3 = digits_end(s, e2 + 1);
            let p3 = s.subrange(e2 + 1, e3);
            if e3 >= s.len() && part_ok(p1, 23) && part_ok(p2, 59) && part_ok(p3, 59) {
                Some((digit_val_small(p1), digit_val_small(p2), digit_val_small(p3)))
            } else {
                None
            }
        } else {
            None
        }
    } else {
        None
    }
}

/// Decides `digits_end`, on a character buffer.
fn scan_digit_run(s: &Vec<char>, i: usize) -> (r: usize)
    requires
        i <= s@.len(),
    ensures
        r as int == digits_end(s@, i as int),
        i <= r <= s@.len(),
    decreases s@.len() - i,
{
    if i < s.len() && digit_exec(s[i]) {
        scan_digit_run(s, i + 1)
    } else {
        i
    }
}

/// Parses the field `s[a..b]` as a one- or two-digit value bounded by
/// `max`: `Some` exactly when the field is well-formed and in range.
fn parse_part(s: &Vec<char>, a: usize, b: usize, max: u8) -> (r: Option<u8>)
    requires
        a <= b <= s@.len(),
    ensures
        r is Some <==> part_ok(s@.subrange(a as int, b as int), max as int),
        match r {
            Some(v) => v as int == digit_val_small(s@.subrange(a as int, b as int)),
            None => true,
        },
{
    if b - a == 1 {
        let v = digit_of_exec(s[a]);
        if v <= max {
            Some(v)
        } else {
            None
        }
    } else if b - a == 2 {
        let d0 = digit_of_exec(s[a]);
        let d1 = digit_of_exec(s[a + 1]);
        let v: u8 = d0 * 10 + d1;
        if v <= max {
            Some(v)
        } else {
            None
        }
    } else {
        None
    }
}

impl HumanTime {
    /// A time whose components lie in clock range.
    pub open spec fn wf(&self) -> bool {
        &&& 0 <= self.0 <= 23
        &&& 0 <= self.1 <= 59
        &&& 0 <= self.2 <= 59
    }

    /// Parses a time text, exactly as `time_spec` says: `None` when the
    /// text is not a well-formed in-range time.
    pub fn from(time: &str) -> (r: Option<HumanTime>)
        ensures
            match r {
                Some(t) => time_spec(time@) matches Some(v) && t.0 as int == v.0 && t.1 as int
                    == v.1 && t.2 as int == v.2 && t.wf(),
                None => time_spec(time@) is None,
            },
    {
        let sv = str_to_chars(time);
        let n = sv.len();
        let e1 = scan_digit_run(&sv, 0);
        if e1 >= n {
            return match parse_part(&sv, 0, e1, 59) {
                Some(sec) => Some(HumanTime(0, 0, sec as i8)),
                None => None,
            };
        }
        if sv[e1] != ':' {
            return None;
        }
        let e2 = scan_digit_run(&sv, e1 + 1);
        if e2 >= n {
            let p1 = match parse_part(&sv, 0, e1, 59) {
                Some(v) => v,
                None => {
                    return None;
                },
            };
            let p2 = match parse_part(&sv, e1 + 1, e2, 59) {
                Some(v) => v,
                None => {
                    return None;
                },
            };
            return Some(HumanTime(0, p1 as i8, p2 as i8));
        }
        if sv[e2] != ':' {
            return None;
        }
        let e3 = scan_digit_run(&sv, e2 + 1);
        if e3 < n {
            return None;
        }
        let p1 = match parse_part(&sv, 0, e1, 23) {
            Some(v) => v,
            None => {
                return None;
            },
        };
        let p2 = match parse_part(&sv, e1 + 1, e2, 59) {
            Some(v) => v,
            None => {
                return None;
            },
        };
        let p3 = match parse_part(&sv, e2 + 1, e3, 59) {
            Some(v) => v,
            None => {
                return None;
            },
        };
        Some(HumanTime(p1 as i16, p2 as i8, p3 as i8))
    }

    /// The componentwise duration from `self` up to `since`: `None`
    /// exactly when any component of `since` lies before the matching
    /// component of `self`.
    pub fn calculate_duration(&self, since: HumanTime) -> (r: Option<HumanTime>)
        requires
            self.wf(),
            since.wf(),
        ensures
            match r {
                Some(d) => d.0 as int == since.0 - self.0 && d.1 as int == since.1 - self.1 && d.2
                    as int == since.2 - self.2,
                None => since.0 < self.0 || since.1 < self.1 || since.2 < self.2,
            },
    {
        if since.0 < self.0 || since.1 < self.1 || since.2 < self.2 {
            return None;
        }
        Some(HumanTime(since.0 - self.0, since.1 - self.1, since.2 - self.2))
    }
}

} // verus!
