//! Wall-clock timestamps as text, in the three patterns that the supervisor
//! writes: in log files, in live events, and in the names of rotated logs.
//!
//! Which moment a timestamp shows depends on the clock and the time zone of
//! the machine; what is stated here is the form in which it is written.

use vstd::prelude::*;

verus! {

/// A character that a timestamp is made of: a digit, a sign, or one of the
/// separators of the three patterns.
pub open spec fn is_stamp_char(c: char) -> bool {
    ('0' <= c <= '9') || c == '-' || c == '+' || c == ':' || c == '.' || c == ' ' || c == '_'
}

/// A text made of timestamp characters only. It holds neither a bracket nor
/// a line break, so it can stand in a log line.
pub open spec fn has_stamp_chars(s: Seq<char>) -> bool {
    forall|i: int| 0 <= i < s.len() ==> is_stamp_char(#[trigger] s[i])
}

pub open spec fn is_digit(c: char) -> bool {
    '0' <= c <= '9'
}

/// A year as it is written: four digits, or, for a year before 0 or after
/// 9999, a sign and four digits or more.
pub open spec fn is_year_text(y: Seq<char>) -> bool {
    ||| y.len() == 4 && forall|i: int| 0 <= i < 4 ==> is_digit(#[trigger] y[i])
    ||| y.len() >= 5 && (y[0] == '+' || y[0] == '-') && forall|i: int|
        1 <= i < y.len() ==> is_digit(#[trigger] y[i])
}

/// Month and day behind a year, in the form `-MM-DD`.
pub open spec fn is_month_day_text(d: Seq<char>) -> bool {
    d.len() == 6 && forall|i: int|
        #![trigger d[i]]
        0 <= i < 6 ==> if i == 0 || i == 3 {
            d[i] == '-'
        } else {
            is_digit(d[i])
        }
}

/// A time of day to the millisecond, in the form `HH:MM:SS.mmm`.
pub open spec fn is_time_stamp(t: Seq<char>) -> bool {
    t.len() == 12 && forall|i: int|
        #![trigger t[i]]
        0 <= i < 12 ==> if i == 2 || i == 5 {
            t[i] == ':'
        } else if i == 8 {
            t[i] == '.'
        } else {
            is_digit(t[i])
        }
}

/// A date and a time of day to the millisecond, in the form
/// `YYYY-MM-DD HH:MM:SS.mmm`.
pub open spec fn is_date_time_stamp(s: Seq<char>) -> bool {
    let n = s.len() as int;
    &&& n >= 23
    &&& is_year_text(s.take(n - 19))
    &&& is_month_day_text(s.subrange(n - 19, n - 13))
    &&& s[n - 13] == ' '
    &&& is_time_stamp(s.skip(n - 12))
}

/// A date and a time of day to the second, in the form `YYYYMMDD_HHMMSS`.
pub open spec fn is_compact_stamp(s: Seq<char>) -> bool {
    let n = s.len() as int;
    &&& n >= 15
    &&& is_year_text(s.take(n - 11))
    &&& forall|i: int|
        #![trigger s[i]]
        n - 11 <= i < n ==> if i == n - 7 {
            s[i] == '_'
        } else {
            is_digit(s[i])
        }
}

/// The patterns in use: date and time to the millisecond, time to the
/// millisecond, and a compact date and time.
pub open spec fn is_stamp_pattern(pattern: Seq<char>) -> bool {
    ||| pattern == "%Y-%m-%d %H:%M:%S%.3f"@
    ||| pattern == "%H:%M:%S%.3f"@
    ||| pattern == "%Y%m%d_%H%M%S"@
}

/// The form of a timestamp that is written by one of the patterns in use.
pub open spec fn fits_pattern(pattern: Seq<char>, stamp: Seq<char>) -> bool {
    &&& pattern == "%Y-%m-%d %H:%M:%S%.3f"@ ==> is_date_time_stamp(stamp)
    &&& pattern == "%H:%M:%S%.3f"@ ==> is_time_stamp(stamp)
    &&& pattern == "%Y%m%d_%H%M%S"@ ==> is_compact_stamp(stamp)
}

/// A timestamp in any of the three forms is made of timestamp characters.
pub proof fn lemma_forms_are_stamps(s: Seq<char>)
    ensures
        is_date_time_stamp(s) ==> has_stamp_chars(s),
        is_time_stamp(s) ==> has_stamp_chars(s),
        is_compact_stamp(s) ==> has_stamp_chars(s),
{
    let n = s.len() as int;
    if is_date_time_stamp(s) {
        let year = s.take(n - 19);
        let month_day = s.subrange(n - 19, n - 13);
        let time = s.skip(n - 12);
        assert forall|i: int| 0 <= i < n implies is_stamp_char(#[trigger] s[i]) by {
            if i < n - 19 {
                assert(s[i] == year[i]);
            } else if i < n - 13 {
                assert(s[i] == month_day[i - (n - 19)]);
            } else if i >= n - 12 {
                assert(s[i] == time[i - (n - 12)]);
            }
        }
    }
    if is_compact_stamp(s) {
        let year = s.take(n - 11);
        assert forall|i: int| 0 <= i < n implies is_stamp_char(#[trigger] s[i]) by {
            if i < n - 11 {
                assert(s[i] == year[i]);
            }
        }
    }
}

/// `chrono::Local::now`, then `DateTime::format` with `pattern`, then the
/// `to_string` of what that returned. The three patterns are well formed and
/// hold numeric fields and separators only: the year is written with four
/// digits, or with a sign and at least four digits outside 0 to 9999; month,
/// day, hour, minute and second with two digits each; the milliseconds with
/// a point and three digits. Which digits they are depends on the clock and
/// the time zone, and is not stated. `now` panics on a clock that is set
/// before the year 1970.
#[verifier::external_body]
fn local_time(pattern: &str) -> (stamp: String)
    requires
        is_stamp_pattern(pattern@),
    ensures
        fits_pattern(pattern@, stamp@),
{
    chrono::Local::now().format(pattern).to_string()
}

/// The local date and time, as written in front of a log line.
pub fn log_timestamp() -> (stamp: String)
    ensures
        is_date_time_stamp(stamp@),
        has_stamp_chars(stamp@),
{
    let stamp = local_time("%Y-%m-%d %H:%M:%S%.3f");
    proof {
        lemma_forms_are_stamps(stamp@);
    }
    stamp
}

/// The local time of day, as sent with a live event.
pub fn event_timestamp() -> (stamp: String)
    ensures
        is_time_stamp(stamp@),
        has_stamp_chars(stamp@),
{
    let stamp = local_time("%H:%M:%S%.3f");
    proof {
        lemma_forms_are_stamps(stamp@);
    }
    stamp
}

/// The local date and time, as put into the name of a rotated log file.
pub fn backup_timestamp() -> (stamp: String)
    ensures
        is_compact_stamp(stamp@),
        has_stamp_chars(stamp@),
{
    let stamp = local_time("%Y%m%d_%H%M%S");
    proof {
        lemma_forms_are_stamps(stamp@);
    }
    stamp
}

} // verus!
