//! Wall-clock readings and their rendering.

use std::time::{Duration, SystemTime, UNIX_EPOCH};
use vstd::prelude::*;

verus! {

#[verifier::external_type_specification]
#[verifier::external_body]
pub struct ExSystemTime(SystemTime);

/// `SystemTime` is `Copy`: its `clone` hands back the same instant.
pub assume_specification[ <SystemTime as Clone>::clone ](t: &SystemTime) -> (r: SystemTime)
    ensures
        r == *t,
;

/// The span of `ms` milliseconds.
pub uninterp spec fn millis_duration(ms: u64) -> Duration;

/// Calls std's `Duration::from_millis`, which builds the span of `ms`
/// milliseconds; the contract claims that the span is a function of `ms`.
#[verifier::external_body]
fn duration_from_millis(ms: u64) -> (d: Duration)
    ensures
        d == millis_duration(ms),
{
    Duration::from_millis(ms)
}

/// The instant that lies `d` after the Unix epoch.
pub uninterp spec fn epoch_plus(d: Duration) -> SystemTime;

/// Some instant of this platform's `SystemTime` lies exactly `d` after the Unix epoch.
pub open spec fn representable_after_epoch(d: Duration) -> bool {
    exists|x: SystemTime| #[trigger] elapsed_since_epoch(x) == Some(d)
}

/// Calls std's `SystemTime::checked_add` on `UNIX_EPOCH`, which gives the
/// instant `d` after the epoch where that instant can be represented as a
/// `SystemTime`, and `None` otherwise. Which spans can be represented depends
/// on the platform; the contract claims that a `Some` holds an instant that is
/// a function of `d`, and that where some instant lies exactly `d` after the
/// epoch (so that the sum can be represented) the result is a `Some`.
#[verifier::external_body]
fn epoch_checked_add(d: Duration) -> (t: Option<SystemTime>)
    ensures
        t matches Some(x) ==> x == epoch_plus(d),
        representable_after_epoch(d) ==> t is Some,
{
    UNIX_EPOCH.checked_add(d)
}

/// The instant `ms` milliseconds after the Unix epoch.
pub open spec fn time_after_epoch(ms: u64) -> SystemTime {
    epoch_plus(millis_duration(ms))
}

/// This platform's `SystemTime` holds the instant `ms` milliseconds after the Unix epoch.
pub open spec fn time_representable(ms: u64) -> bool {
    representable_after_epoch(millis_duration(ms))
}

/// The instant `ms` milliseconds after the Unix epoch, `None` where this
/// platform's `SystemTime` cannot represent it.
pub(crate) fn time_from_unix_millis(ms: u64) -> (t: Option<SystemTime>)
    ensures
        t matches Some(x) ==> x == time_after_epoch(ms),
        time_representable(ms) ==> t is Some,
{
    epoch_checked_add(duration_from_millis(ms))
}

/// Reads the system clock through std's `SystemTime::now()`. Nothing is
/// claimed of the instant, which depends on the time of the call.
#[verifier::external_body]
fn clock_now() -> (t: SystemTime) {
    SystemTime::now()
}

/// The span from the Unix epoch to `t`, `None` where `t` is earlier.
pub uninterp spec fn elapsed_since_epoch(t: SystemTime) -> Option<Duration>;

/// Calls std's `SystemTime::duration_since(UNIX_EPOCH)`, which gives the span
/// from the epoch to `t`, or an error where `t` is earlier than the epoch; the
/// contract claims that the outcome is a function of `t`.
#[verifier::external_body]
fn duration_since_epoch(t: SystemTime) -> (r: Option<Duration>)
    ensures
        r == elapsed_since_epoch(t),
{
    match t.duration_since(UNIX_EPOCH) {
        Ok(d) => Some(d),
        Err(_) => None,
    }
}

/// The whole seconds of the span `d`.
pub uninterp spec fn duration_secs(d: Duration) -> u64;

/// Calls std's `Duration::as_secs`, the whole seconds of `d`; the contract
/// claims that they are a function of `d`.
#[verifier::external_body]
fn whole_secs(d: Duration) -> (s: u64)
    ensures
        s == duration_secs(d),
{
    d.as_secs()
}

/// Appends a character through std's `String::push`, which adds `c` at the end.
#[verifier::external_body]
fn push_char(s: &mut String, c: char)
    ensures
        final(s)@ == old(s)@.push(c),
{
    s.push(c);
}

/// The character of the decimal digit `d`.
pub open spec fn digit_char(d: nat) -> char {
    ((48 + d) as u8) as char
}

/// The decimal digits of `n`, most significant first, as `format!("{}", n)` writes them.
pub open spec fn decimal(n: nat) -> Seq<char>
    decreases n,
{
    if n < 10 {
        seq![digit_char(n)]
    } else {
        decimal(n / 10).push(digit_char(n % 10))
    }
}

fn push_decimal(out: &mut String, n: u64)
    ensures
        final(out)@ == old(out)@ + decimal(n as nat),
    decreases n,
{
    if n >= 10 {
        push_decimal(out, n / 10);
    }
    let d: u8 = (n % 10) as u8;
    push_char(out, (48u8 + d) as char);
    assert(out@ =~= old(out)@ + decimal(n as nat));
}

/// A time stamp as the bot stores it with its credentials: the seconds since
/// the Unix epoch in decimal, followed by `Z`.
pub fn format_timestamp(secs: u64) -> (s: String)
    ensures
        s@ == decimal(secs as nat).push('Z'),
{
    let mut s = String::new();
    push_decimal(&mut s, secs);
    push_char(&mut s, 'Z');
    s
}

/// The current time stamp (see `format_timestamp`): the whole seconds of the
/// span from the Unix epoch to the instant the system clock reads; `None`
/// where the clock reads earlier than the epoch.
pub fn chrono_now() -> (r: Option<String>)
    ensures
        r matches Some(s) ==> exists|t: SystemTime, d: Duration|
            #![trigger elapsed_since_epoch(t), duration_secs(d)]
            elapsed_since_epoch(t) == Some(d) && s@ == decimal(duration_secs(d) as nat).push('Z'),
        r is None ==> exists|t: SystemTime| #[trigger] elapsed_since_epoch(t) is None,
{
    let now = clock_now();
    match duration_since_epoch(now) {
        Some(d) => {
            let secs = whole_secs(d);
            let s = format_timestamp(secs);
            assert(elapsed_since_epoch(now) == Some(d) && s@ == decimal(duration_secs(d) as nat).push('Z'));
            Some(s)
        },
        None => None,
    }
}

} // verus!
