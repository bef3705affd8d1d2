//! Rendering a last-modified time as `"{abbreviated month} {day}
//! {HH:MM:SS}"` in the local time zone, e.g. `"Jan  5 14:03:22"`.
//!
//! The calendar break-down of a unix timestamp in the local zone comes
//! from an outside call; everything after it — the month names, the
//! space-padded day, the zero-padded clock fields — is rendered here.
//! A timestamp that is absent or cannot be broken down degrades to a
//! fixed placeholder of the same width instead of failing the listing.

use chrono::Datelike;
use chrono::Timelike;
use vstd::prelude::*;
use vstd::string::StringExecFns;

verus! {

/// The largest timestamp (end of year 2099, UTC) up to which a
/// calendar break-down is promised to succeed.
pub const MAX_RENDERABLE_SECS: i64 = 4102444799;

/// A point in time broken down to local calendar and clock fields.
pub struct TimeParts {
    pub month: u32,
    pub day: u32,
    pub hour: u32,
    pub minute: u32,
    pub second: u32,
}

impl TimeParts {
    /// Field ranges of a real calendar time.
    pub open spec fn valid(self) -> bool {
        &&& 1 <= self.month <= 12
        &&& 1 <= self.day <= 31
        &&& self.hour < 24
        &&& self.minute < 60
        &&& self.second < 60
    }
}

/// The English three-letter abbreviation of a month number.
pub open spec fn month_abbrev(m: u32) -> Seq<char> {
    if m == 1 {
        "Jan"@
    } else if m == 2 {
        "Feb"@
    } else if m == 3 {
        "Mar"@
    } else if m == 4 {
        "Apr"@
    } else if m == 5 {
        "May"@
    } else if m == 6 {
        "Jun"@
    } else if m == 7 {
        "Jul"@
    } else if m == 8 {
        "Aug"@
    } else if m == 9 {
        "Sep"@
    } else if m == 10 {
        "Oct"@
    } else if m == 11 {
        "Nov"@
    } else {
        "Dec"@
    }
}

/// One decimal digit as text.
pub open spec fn digit_seq(d: u32) -> Seq<char> {
    if d == 0 {
        "0"@
    } else if d == 1 {
        "1"@
    } else if d == 2 {
        "2"@
    } else if d == 3 {
        "3"@
    } else if d == 4 {
        "4"@
    } else if d == 5 {
        "5"@
    } else if d == 6 {
        "6"@
    } else if d == 7 {
        "7"@
    } else if d == 8 {
        "8"@
    } else {
        "9"@
    }
}

/// A two-digit, zero-padded decimal field.
pub open spec fn two_digits(n: u32) -> Seq<char> {
    digit_seq(n / 10) + digit_seq(n % 10)
}

/// The day-of-month field: space-padded to two characters, as `%e`
/// renders it.
pub open spec fn day_field(d: u32) -> Seq<char> {
    if d < 10 {
        " "@ + digit_seq(d)
    } else {
        two_digits(d)
    }
}

/// The full rendering of a broken-down time.
pub open spec fn spec_time_string(t: TimeParts) -> Seq<char> {
    month_abbrev(t.month) + " "@ + day_field(t.day) + " "@ + two_digits(t.hour) + ":"@ + two_digits(
        t.minute,
    ) + ":"@ + two_digits(t.second)
}

/// The fixed marker shown when a modification time is unavailable. It
/// has the same width and shape as a rendered time.
pub open spec fn placeholder_time() -> Seq<char> {
    "--- -- --:--:--"@
}

proof fn lemma_month_abbrev_len(m: u32)
    ensures
        month_abbrev(m).len() == 3,
{
    reveal_strlit("Jan");
    reveal_strlit("Feb");
    reveal_strlit("Mar");
    reveal_strlit("Apr");
    reveal_strlit("May");
    reveal_strlit("Jun");
    reveal_strlit("Jul");
    reveal_strlit("Aug");
    reveal_strlit("Sep");
    reveal_strlit("Oct");
    reveal_strlit("Nov");
    reveal_strlit("Dec");
}

proof fn lemma_digit_seq_len(d: u32)
    ensures
        digit_seq(d).len() == 1,
{
    reveal_strlit("0");
    reveal_strlit("1");
    reveal_strlit("2");
    reveal_strlit("3");
    reveal_strlit("4");
    reveal_strlit("5");
    reveal_strlit("6");
    reveal_strlit("7");
    reveal_strlit("8");
    reveal_strlit("9");
}

/// A rendered time is always fifteen characters wide.
pub proof fn lemma_time_string_len(t: TimeParts)
    ensures
        spec_time_string(t).len() == 15,
{
    reveal_strlit(" ");
    reveal_strlit(":");
    lemma_month_abbrev_len(t.month);
    lemma_digit_seq_len(t.day);
    lemma_digit_seq_len(t.day / 10);
    lemma_digit_seq_len(t.day % 10);
    lemma_digit_seq_len(t.hour / 10);
    lemma_digit_seq_len(t.hour % 10);
    lemma_digit_seq_len(t.minute / 10);
    lemma_digit_seq_len(t.minute % 10);
    lemma_digit_seq_len(t.second / 10);
    lemma_digit_seq_len(t.second % 10);
}

/// The placeholder is fifteen characters wide, like a rendered time.
pub proof fn lemma_placeholder_len()
    ensures
        placeholder_time().len() == 15,
{
    reveal_strlit("--- -- --:--:--");
}

fn digit_str(d: u32) -> (r: &'static str)
    requires
        d < 10,
    ensures
        r@ == digit_seq(d),
{
    match d {
        0 => "0",
        1 => "1",
        2 => "2",
        3 => "3",
        4 => "4",
        5 => "5",
        6 => "6",
        7 => "7",
        8 => "8",
        _ => "9",
    }
}

fn month_str(m: u32) -> (r: &'static str)
    requires
        1 <= m <= 12,
    ensures
        r@ == month_abbrev(m),
{
    match m {
        1 => "Jan",
        2 => "Feb",
        3 => "Mar",
        4 => "Apr",
        5 => "May",
        6 => "Jun",
        7 => "Jul",
        8 => "Aug",
        9 => "Sep",
        10 => "Oct",
        11 => "Nov",
        _ => "Dec",
    }
}

fn append_two_digits(s: &mut String, n: u32)
    requires
        n < 100,
    ensures
        final(s)@ == old(s)@ + two_digits(n),
{
    s.append(digit_str(n / 10));
    s.append(digit_str(n % 10));
    proof {
        assert(s@ =~= old(s)@ + two_digits(n));
    }
}

/// Render a broken-down time in the fixed listing format.
pub fn format_time_parts(t: &TimeParts) -> (r: String)
    requires
        t.valid(),
    ensures
        r@ == spec_time_string(*t),
        r@.len() == 15,
{
    let mut s = String::from_str(month_str(t.month));
    s.append(" ");
    if t.day < 10 {
        s.append(" ");
        s.append(digit_str(t.day));
    } else {
        append_two_digits(&mut s, t.day);
    }
    s.append(" ");
    append_two_digits(&mut s, t.hour);
    s.append(":");
    append_two_digits(&mut s, t.minute);
    s.append(":");
    append_two_digits(&mut s, t.second);
    proof {
        assert(s@ =~= spec_time_string(*t));
        lemma_time_string_len(*t);
    }
    s
}

/// The placeholder string for an unavailable modification time.
pub fn unavailable_time() -> (r: String)
    ensures
        r@ == placeholder_time(),
        r@.len() == 15,
{
    proof {
        lemma_placeholder_len();
    }
    String::from_str("--- -- --:--:--")
}

/// Relies on chrono: `DateTime::from_timestamp` turns a count of
/// non-leap seconds since the unix epoch into a calendar point, `Some`
/// for every count up to `MAX_RENDERABLE_SECS` and far beyond, `None`
/// only when the resulting date leaves chrono's representable range;
/// `with_timezone(&Local)` re-expresses the point in this machine's
/// time zone; and the `Datelike`/`Timelike` accessors return a month
/// in 1..=12, a day in 1..=31, an hour below 24 and a minute and
/// second below 60 (no leap second arises with zero nanoseconds).
/// Which fields come back depends on the machine's time zone, so
/// nothing beyond their ranges is stated.
#[verifier::external_body]
fn local_time_parts(secs: i64) -> (r: Option<TimeParts>)
    ensures
        r matches Some(t) ==> t.valid(),
        0 <= secs <= MAX_RENDERABLE_SECS ==> r is Some,
{
    let dt = chrono::DateTime::from_timestamp(secs, 0)?.with_timezone(&chrono::Local);
    Some(
        TimeParts {
            month: dt.month(),
            day: dt.day(),
            hour: dt.hour(),
            minute: dt.minute(),
            second: dt.second(),
        },
    )
}

/// Render a modification time, given as non-leap seconds since the
/// unix epoch, in the local time zone; an absent time, or one that the
/// calendar break-down refuses, degrades to the fixed placeholder.
pub fn format_datetime(modified: Option<i64>) -> (r: String)
    ensures
        r@.len() == 15,
        modified is None ==> r@ == placeholder_time(),
        r@ == placeholder_time() || (exists|t: TimeParts|
            t.valid() && r@ == #[trigger] spec_time_string(t)),
        (modified matches Some(secs) && 0 <= secs <= MAX_RENDERABLE_SECS) ==> (exists|
            t: TimeParts,
        |
            t.valid() && r@ == #[trigger] spec_time_string(t)),
{
    match modified {
        None => unavailable_time(),
        Some(secs) => {
            match local_time_parts(secs) {
                None => unavailable_time(),
                Some(t) => {
                    let r = format_time_parts(&t);
                    proof {
                        assert(t.valid() && r@ == spec_time_string(t));
                    }
                    r
                },
            }
        },
    }
}

} // verus!
