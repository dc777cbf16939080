use vstd::prelude::*;

use crate::models::Session;
use crate::study::quot;

verus! {

/// The remainder of Rust's division, which takes the sign of `a`.
pub open spec fn rem(a: int, b: int) -> int {
    if a >= 0 {
        a % b
    } else {
        -((-a) % b)
    }
}

/// The sum of the accuracies of `s`.
pub open spec fn accuracy_total(s: Seq<Session>) -> int
    decreases s.len(),
{
    if s.len() == 0 {
        0
    } else {
        accuracy_total(s.drop_last()) + s.last().accuracy
    }
}

/// The sum of the durations of `s`.
pub open spec fn duration_total(s: Seq<Session>) -> int
    decreases s.len(),
{
    if s.len() == 0 {
        0
    } else {
        duration_total(s.drop_last()) + s.last().duration
    }
}

/// Every running sum of the accuracies, and of the durations, of `s` fits in
/// an `i32`, as summing them in an `i32` needs.
pub open spec fn sums_fit(s: Seq<Session>) -> bool {
    forall|k: int|
        0 <= k <= s.len() ==> {
            &&& i32::MIN <= #[trigger] accuracy_total(s.take(k)) <= i32::MAX
            &&& i32::MIN <= duration_total(s.take(k)) <= i32::MAX
        }
}

/// One more session adds its accuracy and its duration to the totals,
/// whatever its mode.
pub proof fn law_totals_add_each_session(s: Seq<Session>, x: Session)
    ensures
        accuracy_total(s.push(x)) == accuracy_total(s) + x.accuracy,
        duration_total(s.push(x)) == duration_total(s) + x.duration,
{
    assert(s.push(x).drop_last() =~= s);
}

/// The totals of two lists of sessions, one after the other, are the sums of
/// their totals: every session counts once, wherever it stands.
pub proof fn law_totals_of_joined_lists(s: Seq<Session>, t: Seq<Session>)
    ensures
        accuracy_total(s + t) == accuracy_total(s) + accuracy_total(t),
        duration_total(s + t) == duration_total(s) + duration_total(t),
    decreases t.len(),
{
    if t.len() == 0 {
        assert(s + t =~= s);
    } else {
        law_totals_of_joined_lists(s, t.drop_last());
        assert((s + t).drop_last() =~= s + t.drop_last());
        assert((s + t).last() == t.last());
    }
}

/// The totals of the statistics page: how many sessions, their accuracies
/// summed, and their durations summed in whole minutes.
pub struct SummaryTotals {
    pub session_count: i64,
    pub accuracy_sum: i32,
    pub total_minutes: i64,
}

/// Whether the totals of `sessions` can be summed in an `i32`.
pub fn totals_fit(sessions: &Vec<Session>) -> (r: bool)
    ensures
        r == sums_fit(sessions@),
{
    let mut acc: i64 = 0;
    let mut dur: i64 = 0;
    let mut i: usize = 0;
    assert(sessions@.take(0) =~= Seq::<Session>::empty());
    while i < sessions.len()
        invariant
            i <= sessions.len(),
            acc == accuracy_total(sessions@.take(i as int)),
            dur == duration_total(sessions@.take(i as int)),
            forall|k: int|
                0 <= k <= i ==> {
                    &&& i32::MIN <= #[trigger] accuracy_total(sessions@.take(k)) <= i32::MAX
                    &&& i32::MIN <= duration_total(sessions@.take(k)) <= i32::MAX
                },
        decreases sessions.len() - i,
    {
        assert(sessions@.take(i + 1).drop_last() =~= sessions@.take(i as int));
        acc = acc + sessions[i].accuracy as i64;
        dur = dur + sessions[i].duration as i64;
        if acc < i32::MIN as i64 || acc > i32::MAX as i64 || dur < i32::MIN as i64 || dur
            > i32::MAX as i64 {
            assert(!(i32::MIN <= accuracy_total(sessions@.take(i + 1)) <= i32::MAX
                && i32::MIN <= duration_total(sessions@.take(i + 1)) <= i32::MAX));
            return false;
        }
        i += 1;
    }
    assert(sessions@.take(sessions.len() as int) =~= sessions@);
    true
}

/// The totals of the statistics page for `sessions`.
pub fn summary_totals(sessions: &Vec<Session>) -> (r: SummaryTotals)
    requires
        sums_fit(sessions@),
    ensures
        r.session_count == sessions.len() as i64,
        r.accuracy_sum == accuracy_total(sessions@),
        r.total_minutes == quot(duration_total(sessions@), 60),
{
    if sessions.len() == 0 {
        return SummaryTotals { session_count: 0, accuracy_sum: 0, total_minutes: 0 };
    }
    let mut ta: i32 = 0;
    let mut td: i32 = 0;
    let mut i: usize = 0;
    assert(sessions@.take(0) =~= Seq::<Session>::empty());
    while i < sessions.len()
        invariant
            i <= sessions.len(),
            sums_fit(sessions@),
            ta == accuracy_total(sessions@.take(i as int)),
            td == duration_total(sessions@.take(i as int)),
        decreases sessions.len() - i,
    {
        assert(sessions@.take(i + 1).drop_last() =~= sessions@.take(i as int));
        assert(i32::MIN <= accuracy_total(sessions@.take(i + 1)) <= i32::MAX);
        ta = ta + sessions[i].accuracy;
        td = td + sessions[i].duration;
        i += 1;
    }
    assert(sessions@.take(sessions.len() as int) =~= sessions@);
    SummaryTotals {
        session_count: #[verifier::truncate] (sessions.len() as i64),
        accuracy_sum: ta,
        total_minutes: td as i64 / 60,
    }
}

/// A span of seconds as hours, minutes and seconds.
pub struct Clock {
    pub hours: i64,
    pub minutes: i64,
    pub seconds: i64,
}

/// The span `e` seconds as a clock: hours, the minutes within the hour and
/// the seconds within the minute.
pub fn clock(e: i64) -> (r: Clock)
    ensures
        r.hours == quot(e as int, 3600),
        r.minutes == quot(rem(e as int, 3600), 60),
        r.seconds == rem(e as int, 60),
{
    Clock { hours: e / 3600, minutes: (e % 3600) / 60, seconds: e % 60 }
}

/// A span of seconds reads back whole from its clock: hours, minutes below
/// 60 and seconds below 60.
pub proof fn law_clock_reads_back(e: int)
    requires
        e >= 0,
    ensures
        quot(e, 3600) * 3600 + quot(rem(e, 3600), 60) * 60 + rem(e, 60) == e,
        0 <= quot(rem(e, 3600), 60) < 60,
        0 <= rem(e, 60) < 60,
{
    let h = e / 3600;
    let r = e % 3600;
    assert(e == h * 3600 + r && 0 <= r < 3600) by (nonlinear_arith)
        requires
            e >= 0,
            h == e / 3600,
            r == e % 3600,
    ;
    let m = r / 60;
    let s = r % 60;
    assert(r == m * 60 + s && 0 <= s < 60 && 0 <= m < 60) by (nonlinear_arith)
        requires
            0 <= r < 3600,
            m == r / 60,
            s == r % 60,
    ;
    assert(e % 60 == s) by (nonlinear_arith)
        requires
            e == h * 3600 + m * 60 + s,
            0 <= s < 60,
            h >= 0,
            m >= 0,
    ;
}

/// A duration of seconds as whole minutes and the seconds left over.
pub fn minutes_and_seconds(d: i64) -> (r: (i64, i64))
    ensures
        r.0 == quot(d as int, 60),
        r.1 == rem(d as int, 60),
{
    (d / 60, d % 60)
}

/// Whether an accuracy counts as good: 80 percent or more.
pub fn is_good_accuracy(accuracy: i32) -> (r: bool)
    ensures
        r == (accuracy >= 80),
{
    accuracy >= 80
}

} // verus!
