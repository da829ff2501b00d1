//! Creation-time handling: RFC 3339 parsing and coarse age rendering.
//!
//! Parsing a timestamp is delegated to chrono; everything computed from the
//! parsed instant takes the current time as an argument, so it is verified
//! for every reading of the clock.  The rendering policy is the largest
//! whole unit of the elapsed time; it is deterministic for a given
//! (timestamp, now) pair and monotonic in the elapsed duration, which
//! `lemma_age_monotonic` proves.

use vstd::prelude::*;

use vstd::arithmetic::div_mod::{lemma_div_is_ordered, lemma_fundamental_div_mod, lemma_mod_bound};

verus! {

/// The instant an RFC 3339 timestamp denotes, as seconds since the Unix
/// epoch, or `None` for text that is not a valid RFC 3339 date-and-time.
pub uninterp spec fn rfc3339_secs_of(s: Seq<u8>) -> Option<i64>;

/// Relies on chrono's `DateTime::parse_from_rfc3339` and
/// `DateTime::timestamp`: the parsed instant is a function of the input
/// text alone.  Bytes that are not UTF-8 are not a valid timestamp.
#[verifier::external_body]
fn parse_rfc3339_secs(s: &Vec<u8>) -> (r: Option<i64>)
    ensures
        r == rfc3339_secs_of(s@),
{
    let text = match std::str::from_utf8(s) {
        Ok(t) => t,
        Err(_) => return None,
    };
    match chrono::DateTime::parse_from_rfc3339(text) {
        Ok(dt) => Some(dt.timestamp()),
        Err(_) => None,
    }
}

/// Seconds elapsed between a creation timestamp and `now_secs`, clamped at
/// zero for a timestamp that lies in the future; `None` when the timestamp
/// does not parse.
pub fn age_seconds(created: &Vec<u8>, now_secs: i64) -> (r: Option<u64>)
    ensures
        match rfc3339_secs_of(created@) {
            Some(t) => r == Some(if now_secs <= t {
                0u64
            } else {
                (now_secs - t) as u64
            }),
            None => r is None,
        },
{
    match parse_rfc3339_secs(created) {
        None => None,
        Some(t) => {
            if now_secs <= t {
                Some(0)
            } else {
                let diff: i128 = now_secs as i128 - t as i128;
                Some(diff as u64)
            }
        },
    }
}

/// The coarse unit an age is rendered in.
#[derive(Clone, Copy, Debug, PartialEq, Eq, Structural)]
pub enum AgeUnit {
    Seconds,
    Minutes,
    Hours,
    Days,
    Months,
    Years,
}

pub const MINUTE_SECS: u64 = 60;

pub const HOUR_SECS: u64 = 3600;

pub const DAY_SECS: u64 = 86400;

/// Thirty days.
pub const MONTH_SECS: u64 = 2592000;

/// Three hundred and sixty-five days.
pub const YEAR_SECS: u64 = 31536000;

pub open spec fn unit_secs(u: AgeUnit) -> u64 {
    match u {
        AgeUnit::Seconds => 1,
        AgeUnit::Minutes => MINUTE_SECS,
        AgeUnit::Hours => HOUR_SECS,
        AgeUnit::Days => DAY_SECS,
        AgeUnit::Months => MONTH_SECS,
        AgeUnit::Years => YEAR_SECS,
    }
}

/// The largest unit that the elapsed time reaches, with the whole count of
/// that unit.
pub open spec fn age_of(secs: u64) -> (u64, AgeUnit) {
    if secs >= YEAR_SECS {
        ((secs / YEAR_SECS) as u64, AgeUnit::Years)
    } else if secs >= MONTH_SECS {
        ((secs / MONTH_SECS) as u64, AgeUnit::Months)
    } else if secs >= DAY_SECS {
        ((secs / DAY_SECS) as u64, AgeUnit::Days)
    } else if secs >= HOUR_SECS {
        ((secs / HOUR_SECS) as u64, AgeUnit::Hours)
    } else if secs >= MINUTE_SECS {
        ((secs / MINUTE_SECS) as u64, AgeUnit::Minutes)
    } else {
        (secs, AgeUnit::Seconds)
    }
}

/// Renders an elapsed time as its coarse age.
pub fn humanize_age(secs: u64) -> (r: (u64, AgeUnit))
    ensures
        r == age_of(secs),
{
    if secs >= YEAR_SECS {
        (secs / YEAR_SECS, AgeUnit::Years)
    } else if secs >= MONTH_SECS {
        (secs / MONTH_SECS, AgeUnit::Months)
    } else if secs >= DAY_SECS {
        (secs / DAY_SECS, AgeUnit::Days)
    } else if secs >= HOUR_SECS {
        (secs / HOUR_SECS, AgeUnit::Hours)
    } else if secs >= MINUTE_SECS {
        (secs / MINUTE_SECS, AgeUnit::Minutes)
    } else {
        (secs, AgeUnit::Seconds)
    }
}

/// The duration an age stands for: the count times the unit.
pub open spec fn age_value(r: (u64, AgeUnit)) -> int {
    r.0 * unit_secs(r.1)
}

proof fn lemma_age_le(secs: u64)
    ensures
        unit_secs(age_of(secs).1) > 0,
        age_value(age_of(secs)) <= secs,
        secs >= unit_secs(age_of(secs).1) ==> age_value(age_of(secs)) >= unit_secs(age_of(secs).1),
{
    let u = unit_secs(age_of(secs).1) as int;
    let s = secs as int;
    lemma_fundamental_div_mod(s, u);
    lemma_mod_bound(s, u);
    if s >= u {
        lemma_div_is_ordered(u, s, u);
        assert(u / u == 1) by (nonlinear_arith)
            requires
                u > 0,
        ;
        assert((s / u) * u >= 1 * u) by (nonlinear_arith)
            requires
                s / u >= 1,
                u > 0,
        ;
    }
}

/// The rendered age is monotonic in the elapsed duration: a larger elapsed
/// time never renders as a shorter age.
pub proof fn lemma_age_monotonic(a: u64, b: u64)
    requires
        a <= b,
    ensures
        age_value(age_of(a)) <= age_value(age_of(b)),
{
    let ua = unit_secs(age_of(a).1) as int;
    let ub = unit_secs(age_of(b).1) as int;
    lemma_age_le(a);
    lemma_age_le(b);
    if ua == ub {
        lemma_div_is_ordered(a as int, b as int, ua);
        assert((a as int / ua) * ua <= (b as int / ub) * ub) by (nonlinear_arith)
            requires
                a as int / ua <= b as int / ub,
                ua == ub,
                ua > 0,
        ;
    } else {
        // The unit chosen for `b` is larger, `a` lies below its threshold,
        // and `b` reaches it.
        assert(a < ub && b >= ub);
    }
}

} // verus!
