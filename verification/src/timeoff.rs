//! The time-off classifier: reduces the raw records fetched from the HR
//! platform to flat sets of date strings — single-day bank holidays (with a
//! warning for every multi-day holiday span, which is never expanded), the
//! approved full-day vacation days, and the days already logged.

use vstd::prelude::*;

use crate::model::{TimeOffEntry, TimeOffRequest, TimsheetEntry};
use crate::strutil::{lemma_views_of_push, str_eq, views_of};

verus! {

/// A bank holiday: a "who's out" record the platform classifies as a
/// `"holiday"`, covering exactly one day.
pub open spec fn is_single_day_holiday(e: TimeOffEntry) -> bool {
    e.kind@ == "holiday"@ && e.start@ == e.end@
}

/// A `"holiday"` record spanning more than one day; never resolved into
/// per-day holidays, only reported.
pub open spec fn is_multi_day_holiday(e: TimeOffEntry) -> bool {
    e.kind@ == "holiday"@ && e.start@ != e.end@
}

/// The dates of the single-day bank holidays among `entries`, in order.
pub open spec fn bank_holiday_seq(entries: Seq<TimeOffEntry>) -> Seq<Seq<char>>
    decreases entries.len(),
{
    if entries.len() == 0 {
        Seq::empty()
    } else {
        bank_holiday_seq(entries.drop_last()) + (if is_single_day_holiday(entries.last()) {
            seq![entries.last().start@]
        } else {
            Seq::empty()
        })
    }
}

/// The `(start, end)` spans of the multi-day `"holiday"` records among
/// `entries`, in order.
pub open spec fn holiday_warning_seq(entries: Seq<TimeOffEntry>) -> Seq<(Seq<char>, Seq<char>)>
    decreases entries.len(),
{
    if entries.len() == 0 {
        Seq::empty()
    } else {
        holiday_warning_seq(entries.drop_last()) + (if is_multi_day_holiday(entries.last()) {
            seq![(entries.last().start@, entries.last().end@)]
        } else {
            Seq::empty()
        })
    }
}

/// A bank-holiday span that covers more than one day and therefore needs
/// manual handling; the classifier reports it instead of guessing which of
/// its days are non-working.
pub struct MultiDayHolidayWarning {
    /// First day of the unhandled span, `YYYY-MM-DD`.
    pub start: String,
    /// Last day of the unhandled span, `YYYY-MM-DD`.
    pub end: String,
}

/// The `(start, end)` character sequences of a list of warnings.
pub open spec fn warning_views(ws: Seq<MultiDayHolidayWarning>) -> Seq<(Seq<char>, Seq<char>)> {
    ws.map_values(|w: MultiDayHolidayWarning| (w.start@, w.end@))
}

proof fn lemma_warning_views_push(ws: Seq<MultiDayHolidayWarning>, w: MultiDayHolidayWarning)
    ensures
        warning_views(ws.push(w)) =~= warning_views(ws).push((w.start@, w.end@)),
{
    assert forall|k: int| 0 <= k < warning_views(ws.push(w)).len() implies warning_views(
        ws.push(w),
    )[k] == warning_views(ws).push((w.start@, w.end@))[k] by {
        if k < ws.len() {
            assert(ws.push(w)[k] == ws[k]);
        } else {
            assert(ws.push(w)[k] == w);
        }
    }
}

/// The bank-holiday dates among the "who's out" records, together with one
/// warning for each multi-day `"holiday"` span. A single-day `"holiday"`
/// record contributes its one date; a multi-day one contributes no date and
/// exactly one warning; records of any other kind contribute nothing.
pub fn extract_bank_holidays(entries: &Vec<TimeOffEntry>) -> (r: (
    Vec<String>,
    Vec<MultiDayHolidayWarning>,
))
    ensures
        views_of(r.0@) == bank_holiday_seq(entries@),
        warning_views(r.1@) == holiday_warning_seq(entries@),
{
    let mut bank_holidays: Vec<String> = Vec::new();
    let mut warnings: Vec<MultiDayHolidayWarning> = Vec::new();
    let mut i: usize = 0;
    while i < entries.len()
        invariant
            0 <= i <= entries@.len(),
            views_of(bank_holidays@) == bank_holiday_seq(entries@.take(i as int)),
            warning_views(warnings@) == holiday_warning_seq(entries@.take(i as int)),
        decreases entries@.len() - i,
    {
        let entry = &entries[i];
        proof {
            assert(entries@.take(i + 1).drop_last() =~= entries@.take(i as int));
            assert(entries@.take(i + 1).last() == entries@[i as int]);
        }
        if str_eq(entry.kind.as_str(), "holiday") {
            if str_eq(entry.start.as_str(), entry.end.as_str()) {
                let ghost prev = bank_holidays@;
                bank_holidays.push(entry.start.clone());
                proof {
                    lemma_views_of_push(prev, entry.start);
                    assert(views_of(bank_holidays@) =~= bank_holiday_seq(entries@.take(i + 1)));
                    assert(holiday_warning_seq(entries@.take(i + 1)) =~= holiday_warning_seq(
                        entries@.take(i as int),
                    ));
                }
            } else {
                let ghost prevw = warnings@;
                let warning = MultiDayHolidayWarning {
                    start: entry.start.clone(),
                    end: entry.end.clone(),
                };
                let ghost warningv = warning;
                warnings.push(warning);
                proof {
                    lemma_warning_views_push(prevw, warningv);
                    assert(warning_views(warnings@) =~= holiday_warning_seq(entries@.take(i + 1)));
                    assert(bank_holiday_seq(entries@.take(i + 1)) =~= bank_holiday_seq(
                        entries@.take(i as int),
                    ));
                }
            }
        } else {
            proof {
                assert(bank_holiday_seq(entries@.take(i + 1)) =~= bank_holiday_seq(
                    entries@.take(i as int),
                ));
                assert(holiday_warning_seq(entries@.take(i + 1)) =~= holiday_warning_seq(
                    entries@.take(i as int),
                ));
            }
        }
        i += 1;
    }
    proof {
        assert(entries@.take(entries@.len() as int) =~= entries@);
    }
    (bank_holidays, warnings)
}

/// What one `"holiday"` record contributes: a single-day record yields
/// exactly its one date and no warning; a multi-day record yields no date
/// and exactly one warning carrying its span.
pub proof fn lemma_holiday_entry_classification(e: TimeOffEntry)
    ensures
        is_single_day_holiday(e) ==> bank_holiday_seq(seq![e]) == seq![e.start@]
            && holiday_warning_seq(seq![e]).len() == 0,
        is_multi_day_holiday(e) ==> bank_holiday_seq(seq![e]).len() == 0 && holiday_warning_seq(
            seq![e],
        ) == seq![(e.start@, e.end@)],
{
    reveal_with_fuel(bank_holiday_seq, 2);
    reveal_with_fuel(holiday_warning_seq, 2);
    assert(seq![e].drop_last() =~= Seq::<TimeOffEntry>::empty());
    assert(seq![e].last() == e);
    if is_single_day_holiday(e) {
        assert(bank_holiday_seq(seq![e]) =~= seq![e.start@]);
    }
    if is_multi_day_holiday(e) {
        assert(holiday_warning_seq(seq![e]) =~= seq![(e.start@, e.end@)]);
    }
}

/// The per-day amounts of one request, as the platform sent them; a request
/// without a `dates` mapping contributes no days.
pub open spec fn request_pairs(r: TimeOffRequest) -> Seq<(String, String)> {
    match r.dates {
        Some(ds) => ds@,
        None => Seq::empty(),
    }
}

/// The dates among `pairs` whose amount is exactly the full-day sentinel
/// `"1"`, in order.
pub open spec fn full_day_seq(pairs: Seq<(String, String)>) -> Seq<Seq<char>>
    decreases pairs.len(),
{
    if pairs.len() == 0 {
        Seq::empty()
    } else {
        full_day_seq(pairs.drop_last()) + (if pairs.last().1@ == "1"@ {
            seq![pairs.last().0@]
        } else {
            Seq::empty()
        })
    }
}

/// The full-day vacation dates of a list of requests, in order.
pub open spec fn vacation_day_seq(reqs: Seq<TimeOffRequest>) -> Seq<Seq<char>>
    decreases reqs.len(),
{
    if reqs.len() == 0 {
        Seq::empty()
    } else {
        vacation_day_seq(reqs.drop_last()) + full_day_seq(request_pairs(reqs.last()))
    }
}

/// The approved full-day vacation days among the requests: every date whose
/// amount string is exactly `"1"`. Partial-day amounts (`"0.5"`, `"0"`, or
/// anything else) contribute nothing; a request without dates contributes
/// nothing.
pub fn extract_vacation_days(requests: &Vec<TimeOffRequest>) -> (r: Vec<String>)
    ensures
        views_of(r@) == vacation_day_seq(requests@),
{
    let mut vacation_days: Vec<String> = Vec::new();
    let mut i: usize = 0;
    while i < requests.len()
        invariant
            0 <= i <= requests@.len(),
            views_of(vacation_days@) == vacation_day_seq(requests@.take(i as int)),
        decreases requests@.len() - i,
    {
        proof {
            assert(requests@.take(i + 1).drop_last() =~= requests@.take(i as int));
            assert(requests@.take(i + 1).last() == requests@[i as int]);
        }
        match &requests[i].dates {
            None => {
                proof {
                    assert(vacation_day_seq(requests@.take(i + 1)) =~= vacation_day_seq(
                        requests@.take(i as int),
                    ));
                }
            },
            Some(ds) => {
                let ghost base = views_of(vacation_days@);
                let mut j: usize = 0;
                while j < ds.len()
                    invariant
                        0 <= j <= ds@.len(),
                        base == vacation_day_seq(requests@.take(i as int)),
                        views_of(vacation_days@) == base + full_day_seq(ds@.take(j as int)),
                    decreases ds@.len() - j,
                {
                    proof {
                        assert(ds@.take(j + 1).drop_last() =~= ds@.take(j as int));
                        assert(ds@.take(j + 1).last() == ds@[j as int]);
                    }
                    let pair = &ds[j];
                    if str_eq(pair.1.as_str(), "1") {
                        let ghost prev = vacation_days@;
                        vacation_days.push(pair.0.clone());
                        proof {
                            lemma_views_of_push(prev, pair.0);
                            assert(views_of(vacation_days@) =~= base + full_day_seq(
                                ds@.take(j + 1),
                            ));
                        }
                    } else {
                        proof {
                            assert(full_day_seq(ds@.take(j + 1)) =~= full_day_seq(
                                ds@.take(j as int),
                            ));
                        }
                    }
                    j += 1;
                }
                proof {
                    assert(ds@.take(ds@.len() as int) =~= ds@);
                    assert(request_pairs(requests@[i as int]) == ds@);
                    assert(views_of(vacation_days@) == base + full_day_seq(
                        request_pairs(requests@[i as int]),
                    ));
                    assert(views_of(vacation_days@) == vacation_day_seq(requests@.take(i + 1)));
                }
            },
        }
        i += 1;
    }
    proof {
        assert(requests@.take(requests@.len() as int) =~= requests@);
    }
    vacation_days
}

/// A date is among the full days of a pair list exactly when some pair
/// carries that date with the amount exactly `"1"`: every day whose amount
/// string is anything else is excluded.
pub proof fn lemma_full_day_membership(pairs: Seq<(String, String)>, x: Seq<char>)
    ensures
        full_day_seq(pairs).contains(x) <==> exists|j: int|
            0 <= j < pairs.len() && (#[trigger] pairs[j]).0@ == x && pairs[j].1@ == "1"@,
    decreases pairs.len(),
{
    if pairs.len() > 0 {
        let sub = pairs.drop_last();
        lemma_full_day_membership(sub, x);
        if exists|j: int| 0 <= j < pairs.len() && (#[trigger] pairs[j]).0@ == x && pairs[j].1@
            == "1"@ {
            let j = choose|j: int|
                0 <= j < pairs.len() && (#[trigger] pairs[j]).0@ == x && pairs[j].1@ == "1"@;
            if j < pairs.len() - 1 {
                assert(sub[j] == pairs[j]);
                assert(full_day_seq(sub).contains(x));
                let k = choose|k: int|
                    0 <= k < full_day_seq(sub).len() && full_day_seq(sub)[k] == x;
                assert(full_day_seq(pairs)[k] == x);
            } else {
                assert(full_day_seq(pairs)[full_day_seq(sub).len() as int] == x);
            }
            assert(full_day_seq(pairs).contains(x));
        }
        if full_day_seq(pairs).contains(x) {
            let k = choose|k: int|
                0 <= k < full_day_seq(pairs).len() && full_day_seq(pairs)[k] == x;
            if k < full_day_seq(sub).len() {
                assert(full_day_seq(sub)[k] == x);
                assert(full_day_seq(sub).contains(x));
                let j = choose|j: int|
                    0 <= j < sub.len() && (#[trigger] sub[j]).0@ == x && sub[j].1@ == "1"@;
                assert(pairs[j] == sub[j]);
            } else {
                assert(pairs.last().1@ == "1"@ && pairs.last().0@ == x);
                assert((pairs[pairs.len() - 1]).0@ == x);
            }
        }
    }
}

/// A date is a vacation day exactly when some request lists it with the
/// amount exactly `"1"`; dates with any other amount, and requests without
/// dates, contribute nothing.
pub proof fn lemma_vacation_day_membership(reqs: Seq<TimeOffRequest>, x: Seq<char>)
    ensures
        vacation_day_seq(reqs).contains(x) <==> exists|i: int, j: int|
            0 <= i < reqs.len() && 0 <= j < request_pairs(reqs[i]).len()
                && (#[trigger] request_pairs(reqs[i])[j]).0@ == x && request_pairs(reqs[i])[j].1@
                == "1"@,
    decreases reqs.len(),
{
    if reqs.len() > 0 {
        let sub = reqs.drop_last();
        let lastpairs = request_pairs(reqs.last());
        lemma_vacation_day_membership(sub, x);
        lemma_full_day_membership(lastpairs, x);
        if exists|i: int, j: int|
            0 <= i < reqs.len() && 0 <= j < request_pairs(reqs[i]).len()
                && (#[trigger] request_pairs(reqs[i])[j]).0@ == x && request_pairs(reqs[i])[j].1@
                == "1"@ {
            let (i, j) = choose|i: int, j: int|
                0 <= i < reqs.len() && 0 <= j < request_pairs(reqs[i]).len()
                    && (#[trigger] request_pairs(reqs[i])[j]).0@ == x && request_pairs(
                    reqs[i],
                )[j].1@ == "1"@;
            if i < reqs.len() - 1 {
                assert(sub[i] == reqs[i]);
                assert(vacation_day_seq(sub).contains(x));
                let k = choose|k: int|
                    0 <= k < vacation_day_seq(sub).len() && vacation_day_seq(sub)[k] == x;
                assert(vacation_day_seq(reqs)[k] == x);
            } else {
                assert(full_day_seq(lastpairs).contains(x));
                let k = choose|k: int|
                    0 <= k < full_day_seq(lastpairs).len() && full_day_seq(lastpairs)[k] == x;
                assert(vacation_day_seq(reqs)[vacation_day_seq(sub).len() + k] == x);
            }
            assert(vacation_day_seq(reqs).contains(x));
        }
        if vacation_day_seq(reqs).contains(x) {
            let k = choose|k: int|
                0 <= k < vacation_day_seq(reqs).len() && vacation_day_seq(reqs)[k] == x;
            if k < vacation_day_seq(sub).len() {
                assert(vacation_day_seq(sub)[k] == x);
                assert(vacation_day_seq(sub).contains(x));
                let (i, j) = choose|i: int, j: int|
                    0 <= i < sub.len() && 0 <= j < request_pairs(sub[i]).len() && (#[trigger]
                    request_pairs(sub[i])[j]).0@ == x && request_pairs(sub[i])[j].1@ == "1"@;
                assert(reqs[i] == sub[i]);
            } else {
                assert(full_day_seq(lastpairs)[k - vacation_day_seq(sub).len()] == x);
                assert(full_day_seq(lastpairs).contains(x));
                let j = choose|j: int|
                    0 <= j < lastpairs.len() && (#[trigger] lastpairs[j]).0@ == x && lastpairs[j].1@
                        == "1"@;
                assert(reqs[reqs.len() - 1] == reqs.last());
            }
        }
    }
}

/// The days already holding a timesheet entry: each record's `date`, in
/// order.
pub open spec fn logged_day_seq(entries: Seq<TimsheetEntry>) -> Seq<Seq<char>>
    decreases entries.len(),
{
    if entries.len() == 0 {
        Seq::empty()
    } else {
        logged_day_seq(entries.drop_last()).push(entries.last().date@)
    }
}

/// Projects each existing timesheet entry to its date; nothing is filtered.
pub fn extract_logged_days(entries: &Vec<TimsheetEntry>) -> (r: Vec<String>)
    ensures
        views_of(r@) == logged_day_seq(entries@),
{
    let mut logged_days: Vec<String> = Vec::new();
    let mut i: usize = 0;
    while i < entries.len()
        invariant
            0 <= i <= entries@.len(),
            views_of(logged_days@) == logged_day_seq(entries@.take(i as int)),
        decreases entries@.len() - i,
    {
        proof {
            assert(entries@.take(i + 1).drop_last() =~= entries@.take(i as int));
            assert(entries@.take(i + 1).last() == entries@[i as int]);
        }
        let ghost prev = logged_days@;
        logged_days.push(entries[i].date.clone());
        proof {
            lemma_views_of_push(prev, entries@[i as int].date);
            assert(views_of(logged_days@) =~= logged_day_seq(entries@.take(i + 1)));
        }
        i += 1;
    }
    proof {
        assert(entries@.take(entries@.len() as int) =~= entries@);
    }
    logged_days
}

} // verus!
