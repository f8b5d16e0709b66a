//! The eligibility calculator: the ordered subset of the working days that
//! appear in none of the three exclusion sets (vacation, already logged,
//! bank holidays).

use vstd::prelude::*;

use crate::strutil::{contains_str, lemma_views_of_push, str_set, views_of};

verus! {

/// The subsequence of `w` whose members lie in none of the three exclusion
/// sets, in the order `w` gives them.
pub open spec fn eligible_day_seq(
    w: Seq<Seq<char>>,
    vacation: Set<Seq<char>>,
    logged: Set<Seq<char>>,
    holidays: Set<Seq<char>>,
) -> Seq<Seq<char>> {
    w.filter(
        |day: Seq<char>| !vacation.contains(day) && !logged.contains(day) && !holidays.contains(
            day,
        ),
    )
}

/// The ordered days of `working_days` that are missing a timesheet entry:
/// those belonging to none of the vacation, already-added and bank-holiday
/// sets. A day listed more than once in an exclusion list excludes no more
/// than once; the output keeps `working_days`'s order.
pub fn get_eligible_days_this_month(
    working_days: &Vec<String>,
    vacation_days: &Vec<String>,
    already_added_days: &Vec<String>,
    bank_holidays: &Vec<String>,
) -> (r: Vec<String>)
    ensures
        views_of(r@) == eligible_day_seq(
            views_of(working_days@),
            str_set(vacation_days@),
            str_set(already_added_days@),
            str_set(bank_holidays@),
        ),
{
    let ghost w = views_of(working_days@);
    let ghost vs = str_set(vacation_days@);
    let ghost ls = str_set(already_added_days@);
    let ghost hs = str_set(bank_holidays@);
    let mut eligible_days: Vec<String> = Vec::new();
    let mut i: usize = 0;
    while i < working_days.len()
        invariant
            w == views_of(working_days@),
            vs == str_set(vacation_days@),
            ls == str_set(already_added_days@),
            hs == str_set(bank_holidays@),
            0 <= i <= working_days@.len(),
            views_of(eligible_days@) == eligible_day_seq(w.take(i as int), vs, ls, hs),
        decreases working_days@.len() - i,
    {
        let day = &working_days[i];
        proof {
            assert(w.take(i + 1).drop_last() =~= w.take(i as int));
            assert(w.take(i + 1).last() == day@);
        }
        let excluded = contains_str(vacation_days, day.as_str()) || contains_str(
            already_added_days,
            day.as_str(),
        ) || contains_str(bank_holidays, day.as_str());
        if !excluded {
            let ghost prev = eligible_days@;
            eligible_days.push(day.clone());
            proof {
                reveal(Seq::filter);
                lemma_views_of_push(prev, *day);
                assert(eligible_day_seq(w.take(i + 1), vs, ls, hs) == eligible_day_seq(
                    w.take(i as int),
                    vs,
                    ls,
                    hs,
                ).push(day@));
            }
        } else {
            proof {
                reveal(Seq::filter);
                assert(eligible_day_seq(w.take(i + 1), vs, ls, hs) == eligible_day_seq(
                    w.take(i as int),
                    vs,
                    ls,
                    hs,
                ));
            }
        }
        i += 1;
    }
    proof {
        assert(w.take(working_days@.len() as int) =~= w);
    }
    eligible_days
}

/// With no exclusions at all, every working day is eligible: the calculator
/// returns its input unchanged.
pub proof fn lemma_no_exclusions_identity(w: Seq<Seq<char>>)
    ensures
        eligible_day_seq(w, Set::empty(), Set::empty(), Set::empty()) == w,
    decreases w.len(),
{
    reveal(Seq::filter);
    if w.len() > 0 {
        lemma_no_exclusions_identity(w.drop_last());
        assert(eligible_day_seq(w, Set::empty(), Set::empty(), Set::empty()) =~= w);
    }
}

/// A date already present in a list of strings contributes nothing more when
/// listed a second time: the set of the list is unchanged.
pub proof fn lemma_duplicate_in_set(exclusions: Seq<String>, dup: String)
    requires
        str_set(exclusions).contains(dup@),
    ensures
        str_set(exclusions.push(dup)) == str_set(exclusions),
{
    lemma_views_of_push(exclusions, dup);
    assert forall|x: Seq<char>| str_set(exclusions.push(dup)).contains(x) implies str_set(
        exclusions,
    ).contains(x) by {
        let vs = views_of(exclusions);
        let k = choose|k: int| 0 <= k < vs.push(dup@).len() && vs.push(dup@)[k] == x;
        if k < vs.len() {
            assert(vs[k] == x);
        } else {
            assert(x == dup@);
        }
    }
    assert forall|x: Seq<char>| str_set(exclusions).contains(x) implies str_set(
        exclusions.push(dup),
    ).contains(x) by {
        let vs = views_of(exclusions);
        let k = choose|k: int| 0 <= k < vs.len() && vs[k] == x;
        assert(vs.push(dup@)[k] == x);
    }
    assert(str_set(exclusions.push(dup)) =~= str_set(exclusions));
}

/// The eligibility computation is idempotent under duplicate entries in any
/// exclusion list: a date listed twice excludes exactly what it excludes
/// listed once.
pub proof fn lemma_duplicate_exclusions_ignored(
    working: Seq<String>,
    vacation: Seq<String>,
    logged: Seq<String>,
    holidays: Seq<String>,
    dup: String,
)
    ensures
        str_set(vacation).contains(dup@) ==> eligible_day_seq(
            views_of(working),
            str_set(vacation.push(dup)),
            str_set(logged),
            str_set(holidays),
        ) == eligible_day_seq(
            views_of(working),
            str_set(vacation),
            str_set(logged),
            str_set(holidays),
        ),
        str_set(logged).contains(dup@) ==> eligible_day_seq(
            views_of(working),
            str_set(vacation),
            str_set(logged.push(dup)),
            str_set(holidays),
        ) == eligible_day_seq(
            views_of(working),
            str_set(vacation),
            str_set(logged),
            str_set(holidays),
        ),
        str_set(holidays).contains(dup@) ==> eligible_day_seq(
            views_of(working),
            str_set(vacation),
            str_set(logged),
            str_set(holidays.push(dup)),
        ) == eligible_day_seq(
            views_of(working),
            str_set(vacation),
            str_set(logged),
            str_set(holidays),
        ),
{
    if str_set(vacation).contains(dup@) {
        lemma_duplicate_in_set(vacation, dup);
    }
    if str_set(logged).contains(dup@) {
        lemma_duplicate_in_set(logged, dup);
    }
    if str_set(holidays).contains(dup@) {
        lemma_duplicate_in_set(holidays, dup);
    }
}

} // verus!
