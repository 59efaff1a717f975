//! Personal reading statistics: reading streaks over activity days.

use vstd::prelude::*;

verus! {

/// A book completed this year.
pub struct CompletedBookSummary {
    pub id: String,
    pub title: String,
    pub has_cover: bool,
    pub completed_at: String,
}

/// Books completed in a month.
pub struct MonthlyCount {
    pub month: i32,
    pub count: i64,
}

/// How many books were read in a format.
pub struct FormatBreakdownEntry {
    pub format: String,
    pub count: i64,
}

/// The day number (days from the start of the common era) of a
/// `YYYY-MM-DD` date, as chrono reads it.
pub uninterp spec fn ymd_days(s: Seq<char>) -> Option<int>;

/// `chrono::NaiveDate::parse_from_str(s, "%Y-%m-%d")`, then
/// `num_days_from_ce`: the day number of the date, `None` when the text is
/// not a valid date. Dates lie within years ±262143, so the day number is
/// within ±100 000 000. The contract names the result.
#[verifier::external_body]
pub(crate) fn ymd_day_number(s: &str) -> (r: Option<i32>)
    ensures
        match r {
            Some(d) => ymd_days(s@) == Some(d as int) && -100_000_000 <= d <= 100_000_000,
            None => ymd_days(s@) is None,
        },
{
    chrono::NaiveDate::parse_from_str(s, "%Y-%m-%d").ok().map(|d| chrono::Datelike::num_days_from_ce(&d))
}

/// Whether a sequence of days is strictly increasing.
pub open spec fn strictly_increasing(v: Seq<i64>) -> bool {
    forall|i: int, j: int| 0 <= i < j < v.len() ==> v[i] < v[j]
}

/// The length of the run of consecutive days that ends at position `i`.
pub open spec fn run_ending_at(v: Seq<i64>, i: int) -> int
    decreases i,
{
    if i <= 0 {
        1
    } else if v[i] - v[i - 1] == 1 {
        run_ending_at(v, i - 1) + 1
    } else {
        1
    }
}

/// The longest run of consecutive days among the first `n` days.
pub open spec fn longest_run_upto(v: Seq<i64>, n: int) -> int
    decreases n,
{
    if n <= 0 {
        0
    } else {
        let prev = longest_run_upto(v, n - 1);
        let here = run_ending_at(v, n - 1);
        if here > prev {
            here
        } else {
            prev
        }
    }
}

/// The streaks of sorted distinct activity days: the current one (the run
/// ending at the last day, when that day is today or yesterday, else 0) and
/// the longest one.
pub open spec fn streaks_of(v: Seq<i64>, today: i64) -> (int, int) {
    if v.len() == 0 {
        (0, 0)
    } else {
        (
            if today - v.last() <= 1 {
                run_ending_at(v, v.len() - 1)
            } else {
                0
            },
            longest_run_upto(v, v.len() as int),
        )
    }
}

/// The current streak never exceeds the longest one, and both are zero
/// exactly when there is no activity day.
pub proof fn lemma_current_within_longest(v: Seq<i64>, today: i64)
    ensures
        0 <= streaks_of(v, today).0 <= streaks_of(v, today).1,
        (streaks_of(v, today).1 == 0) == (v.len() == 0),
{
    if v.len() > 0 {
        lemma_run_positive(v, v.len() - 1);
        lemma_longest_positive(v, v.len() as int);
    }
}

proof fn lemma_run_positive(v: Seq<i64>, i: int)
    ensures
        run_ending_at(v, i) >= 1,
    decreases i,
{
    if i > 0 {
        lemma_run_positive(v, i - 1);
    }
}

proof fn lemma_longest_positive(v: Seq<i64>, n: int)
    requires
        n >= 1,
    ensures
        longest_run_upto(v, n) >= run_ending_at(v, n - 1) >= 1,
    decreases n,
{
    lemma_run_positive(v, n - 1);
}

/// Whether the days at positions `a..=b` each come exactly one day after
/// the one before.
pub open spec fn steps_by_one(v: Seq<i64>, a: int, b: int) -> bool {
    forall|j: int| a < j <= b ==> #[trigger] v[j] - v[j - 1] == 1
}

/// The run ending at position `i` is made of days each exactly one after the
/// one before, and the day before the run (if any) is not one day before
/// its first day.
proof fn lemma_run_shape(v: Seq<i64>, i: int)
    requires
        0 <= i < v.len(),
    ensures
        1 <= run_ending_at(v, i) <= i + 1,
        forall|j: int| i - run_ending_at(v, i) + 1 < j <= i ==> #[trigger] v[j] - v[j - 1] == 1,
        i - run_ending_at(v, i) + 1 == 0 || v[i - run_ending_at(v, i) + 1] - v[i - run_ending_at(v, i)] != 1,
    decreases i,
{
    if i > 0 {
        lemma_run_shape(v, i - 1);
    }
}

/// Every stretch of days `a..=b` that steps by exactly one day is no longer
/// than the run ending at `b`.
proof fn lemma_stretch_within_run(v: Seq<i64>, a: int, b: int)
    requires
        0 <= a <= b < v.len(),
        forall|j: int| a < j <= b ==> #[trigger] v[j] - v[j - 1] == 1,
    ensures
        b - a + 1 <= run_ending_at(v, b),
    decreases b - a,
{
    if a < b {
        assert(v[b] - v[b - 1] == 1);
        lemma_stretch_within_run(v, a, b - 1);
    } else {
        lemma_run_positive(v, b);
    }
}

/// The longest run among the first `n` days is the run ending at one of
/// them, and no run ending among them is longer.
proof fn lemma_longest_is_max(v: Seq<i64>, n: int)
    requires
        1 <= n <= v.len(),
    ensures
        forall|i: int| 0 <= i < n ==> #[trigger] run_ending_at(v, i) <= longest_run_upto(v, n),
        exists|i: int| 0 <= i < n && longest_run_upto(v, n) == #[trigger] run_ending_at(v, i),
    decreases n,
{
    if n == 1 {
        assert(longest_run_upto(v, 0) == 0);
        lemma_run_positive(v, 0);
        assert(longest_run_upto(v, 1) == run_ending_at(v, 0));
    } else {
        lemma_longest_is_max(v, n - 1);
        if run_ending_at(v, n - 1) > longest_run_upto(v, n - 1) {
            assert(longest_run_upto(v, n) == run_ending_at(v, n - 1));
        } else {
            let i = choose|i: int| 0 <= i < n - 1 && longest_run_upto(v, n - 1) == #[trigger] run_ending_at(v, i);
            assert(longest_run_upto(v, n) == run_ending_at(v, i));
        }
    }
}

/// What the streaks of sorted activity days are. The longest streak is the
/// length of a longest stretch of days each exactly one day after the one
/// before (a stretch with a gap of two or more days breaks it), 0 without
/// activity. The current streak is 0 unless the last day is today or
/// yesterday (or later); then it is the length of the stretch of such days
/// that ends at the last day and cannot be extended backwards.
pub proof fn lemma_streaks_are_runs_of_consecutive_days(v: Seq<i64>, today: i64)
    ensures
        v.len() == 0 ==> streaks_of(v, today) == (0int, 0int),
        v.len() > 0 ==> ({
            let longest = streaks_of(v, today).1;
            &&& exists|a: int, b: int|
                0 <= a <= b < v.len() && b - a + 1 == longest && #[trigger] steps_by_one(v, a, b)
            &&& forall|a: int, b: int|
                0 <= a <= b < v.len() && #[trigger] steps_by_one(v, a, b) ==> b - a + 1 <= longest
        }),
        v.len() > 0 && today - v.last() > 1 ==> streaks_of(v, today).0 == 0,
        v.len() > 0 && today - v.last() <= 1 ==> ({
            let n = v.len() as int;
            let k = streaks_of(v, today).0;
            &&& 1 <= k <= n
            &&& steps_by_one(v, n - k, n - 1)
            &&& (k == n || v[n - k] - v[n - k - 1] != 1)
        }),
{
    if v.len() > 0 {
        let n = v.len() as int;
        lemma_run_shape(v, n - 1);
        lemma_longest_is_max(v, n);
        let longest = streaks_of(v, today).1;
        let b = choose|i: int| 0 <= i < n && longest_run_upto(v, n) == #[trigger] run_ending_at(v, i);
        lemma_run_shape(v, b);
        let a = b - run_ending_at(v, b) + 1;
        assert(0 <= a <= b < v.len() && b - a + 1 == longest && steps_by_one(v, a, b));
        assert forall|a2: int, b2: int|
            0 <= a2 <= b2 < v.len() && #[trigger] steps_by_one(v, a2, b2) implies b2 - a2 + 1 <= longest by {
            lemma_stretch_within_run(v, a2, b2);
            assert(run_ending_at(v, b2) <= longest_run_upto(v, n));
        }
    }
}

/// The days, sorted and without repetitions.
pub fn sorted_distinct_days(days: &Vec<i64>) -> (out: Vec<i64>)
    ensures
        strictly_increasing(out@),
        forall|x: i64| out@.contains(x) <==> days@.contains(x),
{
    let mut out: Vec<i64> = Vec::new();
    let mut i: usize = 0;
    while i < days.len()
        invariant
            i <= days.len(),
            strictly_increasing(out@),
            forall|x: i64| out@.contains(x) <==> days@.take(i as int).contains(x),
        decreases days.len() - i,
    {
        let d = days[i];
        let mut p: usize = 0;
        while p < out.len() && out[p] < d
            invariant
                p <= out.len(),
                forall|k: int| 0 <= k < p ==> out@[k] < d,
            decreases out.len() - p,
        {
            p = p + 1;
        }
        let ghost before = out@;
        if p < out.len() && out[p] == d {
        } else {
            out.insert(p, d);
            proof {
                assert forall|a: int, b: int| 0 <= a < b < out@.len() implies out@[a] < out@[b] by {
                    if b < p {
                        assert(out@[a] == before[a] && out@[b] == before[b]);
                    } else if b == p {
                        assert(out@[a] == before[a]);
                    } else if a < p {
                        assert(out@[a] == before[a] && out@[b] == before[b - 1]);
                    } else if a == p {
                        assert(out@[b] == before[b - 1]);
                        assert(p < before.len() ==> before[p as int] > d);
                    } else {
                        assert(out@[a] == before[a - 1] && out@[b] == before[b - 1]);
                    }
                }
            }
        }
        proof {
            assert(days@.take(i + 1) =~= days@.take(i as int).push(d));
            assert forall|x: i64| out@.contains(x) <==> days@.take(i + 1).contains(x) by {
                if out@.contains(x) {
                    let k = choose|k: int| 0 <= k < out@.len() && #[trigger] out@[k] == x;
                    if x != d {
                        if before.len() < out@.len() {
                            if k < p {
                                assert(before[k] == x);
                            } else if k > p {
                                assert(before[k - 1] == x);
                            }
                        } else {
                            assert(before[k] == x);
                        }
                        assert(before.contains(x));
                        assert(days@.take(i as int).contains(x));
                        let m = choose|m: int| 0 <= m < i && #[trigger] days@.take(i as int)[m] == x;
                        assert(days@.take(i + 1)[m] == x);
                    } else {
                        assert(days@.take(i + 1)[i as int] == d);
                    }
                }
                if days@.take(i + 1).contains(x) {
                    let m = choose|m: int| 0 <= m <= i && #[trigger] days@.take(i + 1)[m] == x;
                    if m < i {
                        assert(days@.take(i as int)[m] == x);
                        assert(days@.take(i as int).contains(x));
                        assert(before.contains(x));
                        let k = choose|k: int| 0 <= k < before.len() && #[trigger] before[k] == x;
                        if before.len() < out@.len() {
                            if k < p {
                                assert(out@[k] == x);
                            } else {
                                assert(out@[k + 1] == x);
                            }
                        } else {
                            assert(out@[k] == x);
                        }
                    } else {
                        if before.len() < out@.len() {
                            assert(out@[p as int] == d);
                        } else {
                            assert(out@[p as int] == d);
                        }
                    }
                }
            }
        }
        i = i + 1;
    }
    assert(days@.take(days.len() as int) =~= days@);
    out
}

/// Compute the current and the longest reading streak from activity days
/// (day numbers) and today's day number: the days are sorted and
/// repetitions dropped first.
pub fn compute_streaks(days: &Vec<i64>, today: i64) -> (r: (i64, i64))
    requires
        forall|i: int| 0 <= i < days@.len() ==> -1_000_000_000 <= #[trigger] days@[i] <= 1_000_000_000,
        -1_000_000_000 <= today <= 1_000_000_000,
    ensures
        exists|v: Seq<i64>|
            strictly_increasing(v) && (forall|x: i64| v.contains(x) <==> days@.contains(x)) && (
            r.0 as int, r.1 as int) == #[trigger] streaks_of(v, today),
{
    let v = sorted_distinct_days(days);
    proof {
        assert forall|i: int| 0 <= i < v@.len() implies -1_000_000_000 <= #[trigger] v@[i]
            <= 1_000_000_000 by {
            assert(v@.contains(v@[i]));
            assert(days@.contains(v@[i]));
        }
    }
    if v.len() == 0 {
        assert(streaks_of(v@, today) == (0int, 0int));
        return (0, 0);
    }
    let mut longest: i64 = 1;
    let mut run: i64 = 1;
    let mut i: usize = 1;
    assert(longest_run_upto(v@, 1) == 1) by {
        assert(longest_run_upto(v@, 0) == 0);
        assert(run_ending_at(v@, 0) == 1);
    }
    while i < v.len()
        invariant
            1 <= i <= v.len(),
            strictly_increasing(v@),
            forall|k: int| 0 <= k < v@.len() ==> -1_000_000_000 <= #[trigger] v@[k] <= 1_000_000_000,
            run as int == run_ending_at(v@, i - 1),
            longest as int == longest_run_upto(v@, i as int),
            1 <= run <= i,
            1 <= longest <= i,
            i <= v@[i - 1] - v@[0] + 1,
        decreases v.len() - i,
    {
        assert(v@[i as int] > v@[i - 1]);
        if v[i] - v[i - 1] == 1 {
            run = run + 1;
        } else {
            run = 1;
        }
        if run > longest {
            longest = run;
        }
        i = i + 1;
    }
    let last = v[v.len() - 1];
    let current = if today - last <= 1 {
        run
    } else {
        0
    };
    assert(streaks_of(v@, today) == (current as int, longest as int));
    (current, longest)
}

/// The day numbers of the dates that parse, in order.
pub open spec fn parsed_days(dates: Seq<String>) -> Seq<i64>
    decreases dates.len(),
{
    if dates.len() == 0 {
        seq![]
    } else {
        let prev = parsed_days(dates.drop_last());
        match ymd_days(dates.last()@) {
            Some(d) => prev.push(d as i64),
            None => prev,
        }
    }
}

/// The current and longest streak of activity dates (`YYYY-MM-DD`; those
/// that do not parse are ignored), given today's day number.
pub fn streaks_from_dates(dates: &Vec<String>, today: i64) -> (r: (i64, i64))
    requires
        -1_000_000_000 <= today <= 1_000_000_000,
    ensures
        exists|v: Seq<i64>|
            strictly_increasing(v) && (forall|x: i64| v.contains(x) <==> parsed_days(dates@).contains(x))
                && (r.0 as int, r.1 as int) == #[trigger] streaks_of(v, today),
{
    let mut days: Vec<i64> = Vec::new();
    let mut i: usize = 0;
    while i < dates.len()
        invariant
            i <= dates.len(),
            days@ == parsed_days(dates@.take(i as int)),
            forall|k: int| 0 <= k < days@.len() ==> -1_000_000_000 <= #[trigger] days@[k] <= 1_000_000_000,
        decreases dates.len() - i,
    {
        assert(dates@.take(i + 1).drop_last() =~= dates@.take(i as int));
        match ymd_day_number(dates[i].as_str()) {
            Some(d) => {
                days.push(d as i64);
            },
            None => {},
        }
        i = i + 1;
    }
    assert(dates@.take(dates.len() as int) =~= dates@);
    compute_streaks(&days, today)
}

} // verus!
