//! How long ago something happened, in words.

use crate::text;
use vstd::prelude::*;
use vstd::string::*;

verus! {

/// A point in time of the system's clock.
#[verifier::external_type_specification]
#[verifier::external_body]
pub struct ExSystemTime(std::time::SystemTime);

/// The whole days in `secs` seconds.
pub open spec fn days(secs: nat) -> nat {
    secs / 86400
}

/// The whole hours beyond the days.
pub open spec fn hours(secs: nat) -> nat {
    (secs % 86400) / 3600
}

/// The whole minutes beyond the hours.
pub open spec fn minutes(secs: nat) -> nat {
    (secs % 3600) / 60
}

/// A count with its unit, or nothing for a count of zero.
pub open spec fn unless_zero(n: nat, unit: Seq<char>) -> Seq<char> {
    if n > 0 {
        text::decimal(n) + unit
    } else {
        Seq::empty()
    }
}

/// A span of time in days, hours and minutes. Counts of zero are left out,
/// but for a lone zero of minutes.
pub open spec fn elapsed_text(secs: nat) -> Seq<char> {
    let large = unless_zero(days(secs), "d"@) + unless_zero(hours(secs), "h"@);
    if minutes(secs) > 0 || (days(secs) == 0 && hours(secs) == 0) {
        large + text::decimal(minutes(secs)) + "m"@
    } else {
        large
    }
}

/// One time is later than another, as `SystemTime` orders them.
pub uninterp spec fn is_after(a: std::time::SystemTime, b: std::time::SystemTime) -> bool;

/// The order of `SystemTime`, by its `PartialOrd::gt`; it depends on the two
/// times alone.
#[verifier::external_body]
pub(crate) fn later_than(a: std::time::SystemTime, b: std::time::SystemTime) -> (r: bool)
    ensures
        r == is_after(a, b),
{
    a > b
}

/// The span from one time to a later one, as `SystemTime::duration_since` gives
/// it, in whole seconds; none where it gives an error.
pub uninterp spec fn span_between(
    later: std::time::SystemTime,
    earlier: std::time::SystemTime,
) -> Option<u64>;

/// The whole seconds from one time to a later one, and zero where it is not
/// later.
pub open spec fn secs_between(
    later: std::time::SystemTime,
    earlier: std::time::SystemTime,
) -> u64 {
    match span_between(later, earlier) {
        Some(secs) => secs,
        None => 0,
    }
}

/// Why a span of time cannot be told.
#[verifier::external_type_specification]
#[verifier::external_body]
pub struct ExSystemTimeError(std::time::SystemTimeError);

/// The whole seconds in a `Duration`, as `Duration::as_secs` gives them.
pub uninterp spec fn whole_secs(d: std::time::Duration) -> u64;

/// `Duration::as_secs`, which depends on the duration alone.
pub assume_specification[ std::time::Duration::as_secs ](d: &std::time::Duration) -> (secs: u64)
    ensures
        secs == whole_secs(*d),
;

/// `SystemTime::duration_since`, which depends on the two times alone. It gives
/// an error if and only if the second time is the later one, and no time where the
/// first is not.
pub assume_specification[ std::time::SystemTime::duration_since ](
    later: &std::time::SystemTime,
    earlier: std::time::SystemTime,
) -> (r: Result<std::time::Duration, std::time::SystemTimeError>)
    ensures
        match r {
            Ok(d) => span_between(*later, earlier) == Some(whole_secs(d)),
            Err(_) => span_between(*later, earlier) is None,
        },
        r is Err == is_after(earlier, *later),
        r is Ok && !is_after(*later, earlier) ==> span_between(*later, earlier) == Some(0u64),
;

/// `SystemTime::now`. The clock decides, so nothing is claimed of the time.
#[verifier::external_body]
fn clock_time() -> (r: std::time::SystemTime) {
    std::time::SystemTime::now()
}

/// The whole seconds from one time to a later one, and zero where it is not
/// later.
pub fn secs_since(later: std::time::SystemTime, earlier: std::time::SystemTime) -> (secs: u64)
    ensures
        secs == secs_between(later, earlier),
        !is_after(later, earlier) ==> secs == 0,
{
    match later.duration_since(earlier) {
        Ok(d) => d.as_secs(),
        Err(_) => 0,
    }
}

/// A span of time in days, hours and minutes.
pub fn format_secs(secs: u64) -> (r: String)
    ensures
        r@ == elapsed_text(secs as nat),
{
    let d: u64 = secs / 86400;
    let h: u64 = (secs % 86400) / 3600;
    let m: u64 = (secs % 3600) / 60;
    let mut out: String = String::new();
    if d > 0 {
        let n = text::decimal_text(d);
        out.append(n.as_str());
        out.append("d");
    }
    assert(out@ =~= unless_zero(d as nat, "d"@));
    if h > 0 {
        let n = text::decimal_text(h);
        out.append(n.as_str());
        out.append("h");
    }
    assert(out@ =~= unless_zero(d as nat, "d"@) + unless_zero(h as nat, "h"@));
    if m > 0 || (d == 0 && h == 0) {
        let n = text::decimal_text(m);
        out.append(n.as_str());
        out.append("m");
    }
    out
}

/// How long ago `t` was, in days, hours and minutes, whatever the time is; no
/// minutes where it is not past.
pub fn format_time_passed(t: std::time::SystemTime) -> (r: String)
    ensures
        exists|now: std::time::SystemTime|
            {
                &&& r@ == elapsed_text((#[trigger] secs_between(now, t)) as nat)
                &&& !is_after(now, t) ==> r@ == "0m"@
            },
{
    let now = clock_time();
    let secs = secs_since(now, t);
    proof {
        lemma_no_time();
        assert(secs_between(now, t) == secs);
    }
    format_secs(secs)
}

/// No time at all is told as no minutes.
proof fn lemma_no_time()
    ensures
        elapsed_text(0) == "0m"@,
{
    reveal_strlit("0m");
    reveal_strlit("m");
    assert(elapsed_text(0) =~= "0m"@);
}

/// Days, hours and minutes make up a span of time to the minute, with less
/// than a day of hours and less than an hour of minutes.
pub proof fn law_elapsed_parts(secs: nat)
    ensures
        hours(secs) < 24,
        minutes(secs) < 60,
        (days(secs) * 24 + hours(secs)) * 60 + minutes(secs) == secs / 60,
{
    assert(hours(secs) < 24 && minutes(secs) < 60 && (days(secs) * 24 + hours(secs)) * 60 + minutes(
        secs,
    ) == secs / 60) by (nonlinear_arith)
        requires
            days(secs) == secs / 86400,
            hours(secs) == (secs % 86400) / 3600,
            minutes(secs) == (secs % 3600) / 60,
    ;
}

/// A span of time is never told by an empty text.
pub proof fn law_elapsed_text_nonempty(secs: nat)
    ensures
        elapsed_text(secs).len() > 0,
{
    text::lemma_decimal_nonempty(days(secs));
    text::lemma_decimal_nonempty(hours(secs));
    text::lemma_decimal_nonempty(minutes(secs));
}

/// The text of a span of time tells the whole minutes in it, and nothing else:
/// two spans have the same text if and only if they have as many.
pub proof fn law_elapsed_text_tells_minutes(a: nat, b: nat)
    ensures
        elapsed_text(a) == elapsed_text(b) <==> a / 60 == b / 60,
{
    law_elapsed_parts(a);
    law_elapsed_parts(b);
    if elapsed_text(a) == elapsed_text(b) {
        lemma_parts_of_text(a);
        lemma_parts_of_text(b);
    }
    if a / 60 == b / 60 {
        assert(days(a) == (a / 60) / 1440 && hours(a) == ((a / 60) % 1440) / 60 && minutes(a) == (a
            / 60) % 60);
        assert(days(b) == (b / 60) / 1440 && hours(b) == ((b / 60) % 1440) / 60 && minutes(b) == (b
            / 60) % 60);
    }
}

/// The number at the start of a text, before the given letter, and what comes
/// behind the letter; zero and the whole text where there is none.
spec fn count_before(t: Seq<char>, unit: char) -> (nat, Seq<char>) {
    let k = text::digits_upto(t, 0);
    if 0 < k < t.len() && t[k] == unit {
        (text::number_of(t.take(k)), t.skip(k + 1))
    } else {
        (0, t)
    }
}

/// A count that is told can be read back, with what follows it.
proof fn lemma_count_reads_back(n: nat, unit: Seq<char>, rest: Seq<char>)
    requires
        unit.len() == 1,
        !text::is_digit(unit[0]),
    ensures
        count_before(text::decimal(n) + unit + rest, unit[0]) == (n, rest),
        forall|other: char|
            other != unit[0] ==> #[trigger] count_before(text::decimal(n) + unit + rest, other) == (
            0nat,
            text::decimal(n) + unit + rest,
        ),
{
    let d = text::decimal(n);
    let t = d + unit + rest;
    text::lemma_decimal_reads_back(n);
    text::lemma_digits_upto(t, 0, d.len() as int);
    assert(t.take(d.len() as int) =~= d);
    assert(t.skip(d.len() as int + 1) =~= rest);
    assert(t[d.len() as int] == unit[0]);
}

/// The days, hours and minutes can be read from the text of a span of time.
proof fn lemma_parts_of_text(secs: nat)
    ensures
        ({
            let by_days = count_before(elapsed_text(secs), 'd');
            let by_hours = count_before(by_days.1, 'h');
            let by_minutes = count_before(by_hours.1, 'm');
            &&& by_days.0 == days(secs)
            &&& by_hours.0 == hours(secs)
            &&& by_minutes.0 == minutes(secs)
        }),
{
    reveal_strlit("d");
    reveal_strlit("h");
    reveal_strlit("m");
    let (d, h, m) = (days(secs), hours(secs), minutes(secs));
    let none = Seq::<char>::empty();
    let last = if m > 0 || (d == 0 && h == 0) {
        text::decimal(m) + "m"@
    } else {
        none
    };
    let later = unless_zero(h, "h"@) + last;
    let t = elapsed_text(secs);
    assert(t =~= unless_zero(d, "d"@) + later);
    lemma_count_reads_back(m, "m"@, none);
    assert(text::decimal(m) + "m"@ + none =~= text::decimal(m) + "m"@);
    lemma_count_reads_back(h, "h"@, last);
    lemma_count_reads_back(d, "d"@, later);
    assert(none.len() == 0);
    if h > 0 {
        assert(later =~= text::decimal(h) + "h"@ + last);
    } else {
        assert(later =~= last);
    }
    if d > 0 {
        assert(t =~= text::decimal(d) + "d"@ + later);
    } else {
        assert(t =~= later);
    }
    assert(count_before(t, 'd') == (d, later));
    assert(count_before(later, 'h') == (h, last));
}

/// A span of time is told in days, hours and minutes, each with its letter; counts
/// of zero are left out, but for the minutes of a span under one.
pub proof fn law_elapsed_text_has_units(d: nat, h: nat, m: nat, s: nat)
    requires
        h < 24,
        m < 60,
        s < 60,
    ensures
        ({
            let t = elapsed_text(((d * 24 + h) * 60 + m) * 60 + s);
            let (dd, hh, mm) = (text::decimal(d), text::decimal(h), text::decimal(m));
            &&& d > 0 && h > 0 && m > 0 ==> t == dd + "d"@ + hh + "h"@ + mm + "m"@
            &&& d > 0 && h > 0 && m == 0 ==> t == dd + "d"@ + hh + "h"@
            &&& d > 0 && h == 0 && m > 0 ==> t == dd + "d"@ + mm + "m"@
            &&& d > 0 && h == 0 && m == 0 ==> t == dd + "d"@
            &&& d == 0 && h > 0 && m > 0 ==> t == hh + "h"@ + mm + "m"@
            &&& d == 0 && h > 0 && m == 0 ==> t == hh + "h"@
            &&& d == 0 && h == 0 ==> t == mm + "m"@
        }),
{
    let secs = ((d * 24 + h) * 60 + m) * 60 + s;
    assert(secs == 86400 * d + 3600 * h + 60 * m + s) by (nonlinear_arith)
        requires
            secs == ((d * 24 + h) * 60 + m) * 60 + s,
    ;
    assert(days(secs) == d && hours(secs) == h && minutes(secs) == m);
    let none = Seq::<char>::empty();
    let (dd, hh, mm) = (text::decimal(d), text::decimal(h), text::decimal(m));
    let t = elapsed_text(secs);
    if d > 0 && h > 0 && m > 0 {
        assert(t =~= dd + "d"@ + hh + "h"@ + mm + "m"@);
    } else if d > 0 && h > 0 {
        assert(t =~= dd + "d"@ + hh + "h"@);
    } else if d > 0 && m > 0 {
        assert(t =~= dd + "d"@ + mm + "m"@);
    } else if d > 0 {
        assert(t =~= dd + "d"@);
    } else if h > 0 && m > 0 {
        assert(t =~= hh + "h"@ + mm + "m"@);
    } else if h > 0 {
        assert(t =~= hh + "h"@);
    } else {
        assert(t =~= mm + "m"@);
    }
}

} // verus!
