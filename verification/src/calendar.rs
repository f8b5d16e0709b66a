//! The working-day calendar: the ordered business days (Monday through
//! Friday) from day 1 of a month through a given day of that month.

use vstd::prelude::*;

use crate::date::{Date, days_in_month, format_date, is_weekend, iso_of, lemma_iso_of_injective};
use crate::strutil::{lemma_views_of_push, views_of};

verus! {

/// The `YYYY-MM-DD` strings of the non-weekend days among days 1 through `n`
/// of month `m` of year `y`, in ascending day order.
pub open spec fn working_day_seq(y: int, m: int, n: int) -> Seq<Seq<char>>
    decreases n,
{
    if n <= 0 {
        Seq::empty()
    } else {
        working_day_seq(y, m, n - 1) + (if is_weekend(y, m, n) {
            Seq::empty()
        } else {
            seq![iso_of(y, m, n)]
        })
    }
}

/// How many of days 1 through `n` of month `m` of year `y` fall on a weekend.
pub open spec fn weekend_count(y: int, m: int, n: int) -> int
    decreases n,
{
    if n <= 0 {
        0
    } else {
        weekend_count(y, m, n - 1) + (if is_weekend(y, m, n) {
            1int
        } else {
            0int
        })
    }
}

/// The ordered sequence of business days of `today`'s month, from day 1
/// through `today` inclusive, as `YYYY-MM-DD` strings: every day of that
/// span that is not a Saturday or Sunday, in ascending order.
pub fn generate_working_days(today: &Date) -> (r: Vec<String>)
    requires
        today.valid(),
    ensures
        views_of(r@) == working_day_seq(today.year as int, today.month as int, today.day as int),
{
    let ghost y = today.year as int;
    let ghost m = today.month as int;
    let mut days: Vec<String> = Vec::new();
    let mut d: u32 = 1;
    while d <= today.day
        invariant
            today.valid(),
            y == today.year as int,
            m == today.month as int,
            1 <= d <= today.day + 1,
            views_of(days@) == working_day_seq(y, m, d - 1),
        decreases today.day + 1 - d,
    {
        let cur = Date { year: today.year, month: today.month, day: d };
        assert(cur.valid());
        let w = cur.weekday();
        let ghost prev = days@;
        if w != 0 && w != 6 {
            let s = format_date(&cur);
            days.push(s);
            proof {
                lemma_views_of_push(prev, s);
                assert(views_of(days@) =~= working_day_seq(y, m, d as int));
            }
        } else {
            proof {
                assert(working_day_seq(y, m, d as int) =~= working_day_seq(y, m, d - 1));
            }
        }
        d += 1;
    }
    days
}

/// No working day is a Saturday or Sunday: every entry of the working-day
/// sequence is the date of a non-weekend day of the span, and the sequence
/// is exactly `n` minus the number of weekend days long.
pub proof fn lemma_working_days_weekdays_only(y: int, m: int, n: int)
    ensures
        working_day_seq(y, m, n).len() + weekend_count(y, m, n) == if n >= 0 {
            n
        } else {
            0
        },
        forall|i: int| 0 <= i < working_day_seq(y, m, n).len() ==> exists|d: int|
            1 <= d <= n && !is_weekend(y, m, d) && #[trigger] working_day_seq(y, m, n)[i]
                == #[trigger] iso_of(y, m, d),
    decreases n,
{
    if n > 0 {
        lemma_working_days_weekdays_only(y, m, n - 1);
        let prev = working_day_seq(y, m, n - 1);
        let cur = working_day_seq(y, m, n);
        assert forall|i: int| 0 <= i < cur.len() implies exists|d: int|
            1 <= d <= n && !is_weekend(y, m, d) && #[trigger] cur[i] == #[trigger] iso_of(
                y,
                m,
                d,
            ) by {
            if i < prev.len() {
                let d = choose|d: int|
                    1 <= d <= n - 1 && !is_weekend(y, m, d) && #[trigger] prev[i] == #[trigger] iso_of(y, m, d);
                assert(1 <= d <= n && !is_weekend(y, m, d) && cur[i] == iso_of(y, m, d));
            } else {
                assert(!is_weekend(y, m, n) && cur[i] == iso_of(y, m, n));
            }
        }
    }
}

/// The working-day sequence never holds the date string of a Saturday or a
/// Sunday of its month.
pub proof fn lemma_working_days_never_weekend(y: int, m: int, n: int, d: int)
    requires
        1 <= y <= 9999,
        1 <= m <= 12,
        0 <= n <= days_in_month(y, m),
        1 <= d <= days_in_month(y, m),
        is_weekend(y, m, d),
    ensures
        !working_day_seq(y, m, n).contains(iso_of(y, m, d)),
{
    lemma_working_days_weekdays_only(y, m, n);
    if working_day_seq(y, m, n).contains(iso_of(y, m, d)) {
        let i = choose|i: int|
            0 <= i < working_day_seq(y, m, n).len() && working_day_seq(y, m, n)[i] == iso_of(
                y,
                m,
                d,
            );
        let d2 = choose|d2: int|
            1 <= d2 <= n && !is_weekend(y, m, d2) && #[trigger] working_day_seq(y, m, n)[i]
                == #[trigger] iso_of(y, m, d2);
        lemma_iso_of_injective(y, m, d2, y, m, d);
    }
}

} // verus!
