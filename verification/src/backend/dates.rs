//! Days since the epoch.

use vstd::prelude::*;

use crate::jmap::types::{Email, EmailV};
use crate::text::{digits_number, number, parse_upto, slice_text, to_chars};

verus! {

/// The day of a date counted from 1970-01-01, in the Gregorian calendar; nothing
/// for a month or a day of the month that does not exist.
pub open spec fn days_since_epoch(year: int, month: int, day: int) -> Option<int> {
    if !(1 <= month <= 12) || !(1 <= day <= 31) {
        None
    } else {
        // Years begin in March, so that a leap day ends its year.
        let y = if month <= 2 {
            year - 1
        } else {
            year
        };
        let era = y / 400;
        let year_of_era = y - era * 400;
        let month_from_march = if month > 2 {
            month - 3
        } else {
            month + 9
        };
        let day_of_year = (153 * month_from_march + 2) / 5 + day - 1;
        let day_of_era = year_of_era * 365 + year_of_era / 4 - year_of_era / 100 + day_of_year;
        Some(era * 146097 + day_of_era - 719468)
    }
}

/// The day of a date counted from 1970-01-01.
pub fn ymd_to_days_since_epoch(year: i32, month: u32, day: u32) -> (r: Option<i64>)
    ensures
        match r {
            Some(d) => days_since_epoch(year as int, month as int, day as int) == Some(d as int),
            None => days_since_epoch(year as int, month as int, day as int) is None,
        },
{
    if month < 1 || month > 12 || day < 1 || day > 31 {
        return None;
    }
    let y: i64 = if month <= 2 {
        year as i64 - 1
    } else {
        year as i64
    };
    let era: i64 = if y >= 0 {
        y / 400
    } else {
        0 - (399 - y) / 400
    };
    assert(era == y as int / 400);
    let year_of_era: i64 = y - era * 400;
    let month_from_march: i64 = if month > 2 {
        month as i64 - 3
    } else {
        month as i64 + 9
    };
    let day_of_year: i64 = (153 * month_from_march + 2) / 5 + day as i64 - 1;
    let day_of_era: i64 = year_of_era * 365 + year_of_era / 4 - year_of_era / 100 + day_of_year;
    Some(era * 146097 + day_of_era - 719468)
}

/// The number that a text denotes: digits, after an optional sign.
pub open spec fn signed_number(s: Seq<char>) -> Option<int> {
    if s.len() > 0 && s[0] == '-' {
        match digits_number(s.subrange(1, s.len() as int)) {
            Some(n) => Some(-(n as int)),
            None => None,
        }
    } else {
        match number(s) {
            Some(n) => Some(n as int),
            None => None,
        }
    }
}

/// The day of the date that a timestamp begins with: four characters for the
/// year, two for the month and two for the day, with one character between them.
pub open spec fn timestamp_days(s: Seq<char>) -> Option<int> {
    if s.len() < 10 || exists|i: int| 0 <= i < 10 && #[trigger] s[i] > '\u{7f}' {
        None
    } else {
        match (
            signed_number(s.subrange(0, 4)),
            number(s.subrange(5, 7)),
            number(s.subrange(8, 10)),
        ) {
            (Some(y), Some(m), Some(d)) => days_since_epoch(y, m as int, d as int),
            _ => None,
        }
    }
}

/// The day on which a message was received.
pub open spec fn received_days(e: EmailV) -> Option<int> {
    match e.received_at {
        Some(s) => timestamp_days(s),
        None => None,
    }
}

proof fn lemma_digits_bound(s: Seq<char>, n: int)
    requires
        0 <= n <= s.len(),
        n <= 4,
    ensures
        crate::text::digits_value(s, n) is Some ==> crate::text::digits_value(s, n)->0 < (if n
            == 0 {
            1
        } else if n == 1 {
            10
        } else if n == 2 {
            100
        } else if n == 3 {
            1000
        } else {
            10000int
        }),
    decreases n,
{
    if n > 0 {
        lemma_digits_bound(s, n - 1);
    }
}

fn parse_signed(v: &Vec<char>, from: usize, to: usize) -> (r: Option<i32>)
    requires
        from <= to <= v@.len(),
        to - from <= 4,
    ensures
        match r {
            Some(n) => signed_number(v@.subrange(from as int, to as int)) == Some(n as int),
            None => signed_number(v@.subrange(from as int, to as int)) is None,
        },
{
    let ghost s = v@.subrange(from as int, to as int);
    if from < to && v[from] == '-' {
        let rest = slice_text(v, from + 1, to);
        let ghost t = s.subrange(1, s.len() as int);
        assert(rest@ =~= t);
        proof {
            lemma_digits_bound(t, t.len() as int);
        }
        if to - from > 1 && v[from + 1] == '+' {
            proof {
                assert(t[0] == '+');
                lemma_bad_digit(t, 1, t.len() as int);
            }
            return None;
        }
        assert(crate::text::without_plus(t) == t);
        match parse_upto(rest.as_str(), 9999) {
            Some(n) => Some(0 - n as i32),
            None => None,
        }
    } else {
        let whole = slice_text(v, from, to);
        let ghost t = crate::text::without_plus(s);
        proof {
            lemma_digits_bound(t, t.len() as int);
        }
        match parse_upto(whole.as_str(), 9999) {
            Some(n) => Some(n as i32),
            None => None,
        }
    }
}

proof fn lemma_bad_digit(s: Seq<char>, i: int, n: int)
    requires
        0 < i <= n <= s.len(),
        !crate::text::is_digit(s[i - 1]),
    ensures
        crate::text::digits_value(s, n) is None,
    decreases n - i,
{
    if i < n {
        lemma_bad_digit(s, i, n - 1);
    }
}

fn parse_two(v: &Vec<char>, from: usize) -> (r: Option<u32>)
    requires
        from + 2 <= v@.len(),
    ensures
        match r {
            Some(n) => number(v@.subrange(from as int, from + 2)) == Some(n as nat),
            None => number(v@.subrange(from as int, from + 2)) is None,
        },
{
    let n: usize = v.len();
    let s = slice_text(v, from, from + 2);
    let ghost t = crate::text::without_plus(s@);
    proof {
        lemma_digits_bound(t, t.len() as int);
    }
    match parse_upto(s.as_str(), 9999) {
        Some(n) => Some(n as u32),
        None => None,
    }
}

/// The day on which a message was received.
pub fn email_received_days(email: &Email) -> (r: Option<i64>)
    ensures
        match r {
            Some(d) => received_days(email.deep_view()) == Some(d as int),
            None => received_days(email.deep_view()) is None,
        },
{
    let s = match &email.received_at {
        Some(s) => s,
        None => {
            return None;
        },
    };
    let v = to_chars(s.as_str());
    if v.len() < 10 {
        return None;
    }
    let mut i: usize = 0;
    while i < 10
        invariant
            v@ == s@,
            email.deep_view().received_at == Some(s@),
            i <= 10 <= v@.len(),
            forall|j: int| 0 <= j < i ==> #[trigger] v@[j] <= '\u{7f}',
        decreases 10 - i,
    {
        if v[i] > '\u{7f}' {
            assert(s@[i as int] > '\u{7f}');
            return None;
        }
        i = i + 1;
    }
    let y = match parse_signed(&v, 0, 4) {
        Some(y) => y,
        None => {
            return None;
        },
    };
    let m = match parse_two(&v, 5) {
        Some(m) => m,
        None => {
            return None;
        },
    };
    let d = match parse_two(&v, 8) {
        Some(d) => d,
        None => {
            return None;
        },
    };
    ymd_to_days_since_epoch(y, m, d)
}

/// The day after another day of the same month comes one later.
pub proof fn law_next_day(year: int, month: int, day: int)
    requires
        1 <= month <= 12,
        1 <= day < 31,
    ensures
        days_since_epoch(year, month, day + 1) == Some(
            days_since_epoch(year, month, day)->0 + 1,
        ),
{
}

/// The number of days of a month.
pub open spec fn month_length(year: int, month: int) -> int {
    if month == 2 {
        if year % 4 == 0 && (year % 100 != 0 || year % 400 == 0) {
            29
        } else {
            28
        }
    } else if month == 4 || month == 6 || month == 9 || month == 11 {
        30
    } else {
        31
    }
}

/// The first day of a month comes one after the last day of the month before, in
/// leap years too.
pub proof fn law_next_month(year: int, month: int)
    requires
        1 <= month <= 12,
    ensures
        ({
            let last = days_since_epoch(year, month, month_length(year, month))->0;
            if month < 12 {
                days_since_epoch(year, month + 1, 1) == Some(last + 1)
            } else {
                days_since_epoch(year + 1, 1, 1) == Some(last + 1)
            }
        }),
{
    if month == 2 {
        lemma_leap_day(year);
    } else if month < 7 {
        assert(month == 1 || month == 3 || month == 4 || month == 5 || month == 6);
    } else {
        assert(month == 7 || month == 8 || month == 9 || month == 10 || month == 11 || month == 12);
    }
}

/// The first of March comes one after the last of February.
proof fn lemma_leap_day(year: int)
    ensures
        days_since_epoch(year, 3, 1) == Some(
            days_since_epoch(year, 2, month_length(year, 2))->0 + 1,
        ),
{
    let era = year / 400;
    let r = year - era * 400;
    assert(0 <= r < 400 && year % 400 == r);
    assert(year % 4 == r % 4);
    assert(year % 100 == r % 100);
    if r == 0 {
        assert((year - 1) / 400 == era - 1);
    } else {
        assert((year - 1) / 400 == era);
        assert(r / 4 == (r - 1) / 4 + (if r % 4 == 0 {
            1int
        } else {
            0
        }));
        assert(r / 100 == (r - 1) / 100 + (if r % 100 == 0 {
            1int
        } else {
            0
        }));
    }
}

} // verus!
