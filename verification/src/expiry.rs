//! Certificate expiry: when a recorded expiry counts as valid or as due for
//! renewal, and the expiry recorded for a newly issued certificate.
//!
//! Instants are (seconds since the Unix epoch, nanoseconds) pairs; the
//! RFC 3339 texts stored in the database are read and written by `chrono`.

use vstd::prelude::*;
use crate::text::{opt_view};

verus! {

/// How long an issued leaf certificate is recorded as valid.
pub const CERT_VALIDITY_DAYS: i64 = 365;

/// How close to its expiry a certificate is renewed at start-up.
pub const RENEW_THRESHOLD_DAYS: i64 = 30;

/// Seconds in a day.
pub const DAY_SECS: i64 = 86400;

/// The instant an RFC 3339 text denotes, as `chrono` reads it, if it is one.
pub uninterp spec fn rfc3339_instant(s: Seq<char>) -> Option<(i64, u32)>;

/// The RFC 3339 text `chrono` writes for a UTC instant, if the instant is
/// within its range.
pub uninterp spec fn rfc3339_utc_text(secs: i64, nanos: u32) -> Option<Seq<char>>;

/// `DateTime::parse_from_rfc3339`, read back as the instant's timestamp and
/// sub-second nanoseconds. Trusted: the result depends on the text alone
/// (named `rfc3339_instant`); the grammar is not stated.
#[verifier::external_body]
fn parse_rfc3339(s: &str) -> (r: Option<(i64, u32)>)
    ensures
        r == rfc3339_instant(s@),
{
    match chrono::DateTime::parse_from_rfc3339(s) {
        Ok(d) => Some((d.timestamp(), d.timestamp_subsec_nanos())),
        Err(_) => None,
    }
}

/// `DateTime::from_timestamp(secs, nanos)` written with `to_rfc3339`.
/// Trusted: the result depends on the instant alone (named `rfc3339_utc_text`).
#[verifier::external_body]
fn format_rfc3339_utc(secs: i64, nanos: u32) -> (r: Option<String>)
    ensures
        opt_view(r) == rfc3339_utc_text(secs, nanos),
{
    match chrono::DateTime::from_timestamp(secs, nanos) {
        Some(d) => Some(d.to_rfc3339()),
        None => None,
    }
}

/// `SystemTime::now().duration_since(UNIX_EPOCH)` as whole seconds and
/// sub-second nanoseconds; `None` when the clock is before the epoch.
/// Trusted: `Duration::subsec_nanos` is below one second; which instant the
/// clock gives is not stated.
#[verifier::external_body]
fn since_epoch() -> (r: Option<(u64, u32)>)
    ensures
        r matches Some(d) ==> d.1 < 1_000_000_000,
{
    match std::time::SystemTime::now().duration_since(std::time::UNIX_EPOCH) {
        Ok(d) => Some((d.as_secs(), d.subsec_nanos())),
        Err(_) => None,
    }
}

/// An instant the system clock can give: not before the epoch, within
/// chrono's range, with fewer than a second of nanoseconds.
pub open spec fn clock_instant(now: (i64, u32)) -> bool {
    0 <= now.0 < 10_000_000_000_000 && now.1 < 1_000_000_000
}

/// The instant of a clock reading (whole seconds and nanoseconds since the
/// epoch): `None` for no reading or one beyond chrono's range (10^13 s).
pub open spec fn instant_spec(d: Option<(u64, u32)>) -> Option<(i64, u32)> {
    match d {
        Some((s, n)) => if s < 10_000_000_000_000 {
            Some((s as i64, n))
        } else {
            None
        },
        None => None,
    }
}

/// The instant of a clock reading; see `instant_spec`.
pub fn instant_of(d: Option<(u64, u32)>) -> (r: Option<(i64, u32)>)
    ensures
        r == instant_spec(d),
{
    match d {
        Some((secs, nanos)) => if secs < 10_000_000_000_000 {
            Some((secs as i64, nanos))
        } else {
            None
        },
        None => None,
    }
}

/// The current instant, if the clock gives one that HyperHost can work
/// with: `instant_of` the clock's reading, so `None` when the clock is
/// before 1970 or beyond chrono's range.
pub fn clock_now() -> (r: Option<(i64, u32)>)
    ensures
        r matches Some(now) ==> clock_instant(now),
{
    instant_of(since_epoch())
}

/// `a` is before `b`.
pub open spec fn before(a: (i64, u32), b: (i64, u32)) -> bool {
    a.0 < b.0 || (a.0 == b.0 && a.1 < b.1)
}

fn is_before(a: (i64, u32), b: (i64, u32)) -> (r: bool)
    ensures
        r == before(a, b),
{
    a.0 < b.0 || (a.0 == b.0 && a.1 < b.1)
}

/// A recorded expiry that is still ahead of `now`; a missing or unreadable
/// one is not valid.
pub open spec fn valid_at(expiry: Option<Seq<char>>, now: (i64, u32)) -> bool {
    match expiry {
        None => false,
        Some(e) => match rfc3339_instant(e) {
            None => false,
            Some(d) => before(now, d),
        },
    }
}

/// Whether a recorded certificate expiry is still ahead of `now`.
pub fn cert_valid_at(expiry: &Option<String>, now: (i64, u32)) -> (r: bool)
    ensures
        r == valid_at(opt_view(*expiry), now),
{
    match expiry {
        None => false,
        Some(e) => match parse_rfc3339(e.as_str()) {
            None => false,
            Some(d) => is_before(now, d),
        },
    }
}

/// Whether a recorded certificate expiry is ahead of a clock's instant;
/// not valid when there is no instant.
pub fn cert_valid_on(expiry: &Option<String>, clock: Option<(i64, u32)>) -> (r: bool)
    ensures
        r == match clock {
            Some(now) => valid_at(opt_view(*expiry), now),
            None => false,
        },
{
    match clock {
        Some(now) => cert_valid_at(expiry, now),
        None => false,
    }
}

/// Whether a recorded certificate expiry is still ahead of the current time:
/// `cert_valid_on` the instant the clock gives; false when the clock gives
/// no usable instant.
pub fn cert_valid_now(expiry: &Option<String>) -> (r: bool)
    ensures
        r ==> exists|now: (i64, u32)| clock_instant(now) && valid_at(opt_view(*expiry), now),
        expiry is None ==> !r,
        (match expiry {
            Some(e) => rfc3339_instant(e@) is None,
            None => false,
        }) ==> !r,
{
    let clock = clock_now();
    let r = cert_valid_on(expiry, clock);
    proof {
        if r {
            let now = clock->0;
            assert(clock_instant(now) && valid_at(opt_view(*expiry), now));
        }
    }
    r
}

/// A recorded expiry before `threshold`; a missing or unreadable one counts
/// as due.
pub open spec fn due_before(expiry: Option<Seq<char>>, threshold: (i64, u32)) -> bool {
    match expiry {
        None => true,
        Some(e) => match rfc3339_instant(e) {
            None => true,
            Some(d) => before(d, threshold),
        },
    }
}

/// Whether a certificate with this recorded expiry is due for renewal
/// before `threshold`.
pub fn cert_due_before(expiry: &Option<String>, threshold: (i64, u32)) -> (r: bool)
    ensures
        r == due_before(opt_view(*expiry), threshold),
{
    match expiry {
        None => true,
        Some(e) => match parse_rfc3339(e.as_str()) {
            None => true,
            Some(d) => is_before(d, threshold),
        },
    }
}

/// The instant `days` days after `t`.
pub open spec fn days_after(t: (i64, u32), days: i64) -> (int, u32) {
    (t.0 + days * DAY_SECS, t.1)
}

/// The renewal threshold: `RENEW_THRESHOLD_DAYS` days after `now`.
pub fn renewal_threshold(now: (i64, u32)) -> (r: (i64, u32))
    requires
        0 <= now.0 < 10_000_000_000_000,
    ensures
        r.0 == days_after(now, RENEW_THRESHOLD_DAYS).0,
        r.1 == now.1,
{
    (now.0 + RENEW_THRESHOLD_DAYS * DAY_SECS, now.1)
}

/// Whether a certificate is due for renewal at a clock's instant: its
/// expiry is missing, unreadable, or within `RENEW_THRESHOLD_DAYS` days of
/// it; due when there is no instant.
pub fn renewal_due_at(expiry: &Option<String>, clock: Option<(i64, u32)>) -> (r: bool)
    requires
        clock matches Some(now) ==> 0 <= now.0 < 10_000_000_000_000,
    ensures
        r == match clock {
            Some(now) => due_before(
                opt_view(*expiry),
                (days_after(now, RENEW_THRESHOLD_DAYS).0 as i64, now.1),
            ),
            None => true,
        },
{
    match clock {
        Some(now) => cert_due_before(expiry, renewal_threshold(now)),
        None => true,
    }
}

/// Whether a certificate is due for renewal at start-up: `renewal_due_at`
/// the instant the clock gives; due when the clock gives no usable instant.
pub fn renewal_due_now(expiry: &Option<String>) -> (r: bool)
    ensures
        expiry is None ==> r,
        (match expiry {
            Some(e) => rfc3339_instant(e@) is None,
            None => false,
        }) ==> r,
        !r ==> exists|now: (i64, u32)|
            clock_instant(now) && !due_before(
                opt_view(*expiry),
                (days_after(now, RENEW_THRESHOLD_DAYS).0 as i64, now.1),
            ),
{
    let clock = clock_now();
    let r = renewal_due_at(expiry, clock);
    proof {
        if !r {
            let now = clock->0;
            assert(clock_instant(now) && !due_before(
                opt_view(*expiry),
                (days_after(now, RENEW_THRESHOLD_DAYS).0 as i64, now.1),
            ));
        }
    }
    r
}

/// The expiry recorded for a certificate issued at `now`: the RFC 3339 text
/// of `CERT_VALIDITY_DAYS` days later (none outside chrono's range).
pub fn expiry_after_validity(now: (i64, u32)) -> (r: Option<String>)
    requires
        0 <= now.0 < 10_000_000_000_000,
    ensures
        opt_view(r) == rfc3339_utc_text(
            days_after(now, CERT_VALIDITY_DAYS).0 as i64,
            now.1,
        ),
{
    format_rfc3339_utc(now.0 + CERT_VALIDITY_DAYS * DAY_SECS, now.1)
}

/// The expiry recorded for a certificate issued at a clock's instant;
/// none when there is no instant.
pub fn expiry_on(clock: Option<(i64, u32)>) -> (r: Option<String>)
    requires
        clock matches Some(now) ==> 0 <= now.0 < 10_000_000_000_000,
    ensures
        opt_view(r) == match clock {
            Some(now) => rfc3339_utc_text(days_after(now, CERT_VALIDITY_DAYS).0 as i64, now.1),
            None => None,
        },
{
    match clock {
        Some(now) => expiry_after_validity(now),
        None => None,
    }
}

/// The expiry recorded for a certificate issued now: `expiry_on` the
/// instant the clock gives; none when the clock gives no usable instant.
pub fn new_cert_expiry() -> (r: Option<String>)
    ensures
        r is Some ==> exists|now: (i64, u32)|
            clock_instant(now) && opt_view(r) == rfc3339_utc_text(
                days_after(now, CERT_VALIDITY_DAYS).0 as i64,
                now.1,
            ),
{
    let clock = clock_now();
    let r = expiry_on(clock);
    proof {
        if r is Some {
            let now = clock->0;
            assert(clock_instant(now) && opt_view(r) == rfc3339_utc_text(
                days_after(now, CERT_VALIDITY_DAYS).0 as i64,
                now.1,
            ));
        }
    }
    r
}


/// A certificate that is not due for renewal before some instant is valid
/// at every instant up to it: a certificate kept at start-up is valid then.
pub proof fn law_not_due_is_valid(expiry: Option<Seq<char>>, now: (i64, u32), threshold: (i64, u32))
    requires
        !due_before(expiry, threshold),
        !before(threshold, now),
    ensures
        valid_at(expiry, now) || (match expiry {
            Some(e) => rfc3339_instant(e) == Some(now),
            None => false,
        }),
{
}

} // verus!
