//! What holds of the timer across calls.
//!
//! Each law is stated over [`TimerView`], the model in which the contracts of
//! [`StepTimer`](crate::timer::StepTimer) are written.

use crate::schedule::{all_ended, lemma_step_at, lemma_step_at_monotone, step_at};
use crate::timer::TimerView;
use std::time::Instant;
use vstd::prelude::*;

verus! {

/// The elapsed seconds never decrease along the sequence.
pub open spec fn non_decreasing_seconds(elapsed: Seq<u64>) -> bool {
    forall|a: int, b: int| 0 <= a <= b < elapsed.len() ==> elapsed[a] <= elapsed[b]
}

/// The `k`-th report of `elapsed` changes the current step of a timer that
/// started out as `t`.
pub open spec fn step_changes_at(t: TimerView, elapsed: Seq<u64>, k: int) -> bool {
    t.run(elapsed.take(k + 1)).current_index != t.run(elapsed.take(k)).current_index
}

/// The current step of `t` is the one that `step_at` names for `elapsed`,
/// where it names one.
spec fn settled(t: TimerView, elapsed: u64) -> bool {
    match step_at(t.plan, elapsed) {
        Some(i) => t.current_index == i,
        None => true,
    }
}

proof fn lemma_run_unfolds(t: TimerView, elapsed: Seq<u64>, k: int)
    requires
        0 < k <= elapsed.len(),
    ensures
        t.run(elapsed.take(k)) == t.run(elapsed.take(k - 1)).advance(elapsed[k - 1]),
{
    assert(elapsed.take(k).drop_last() =~= elapsed.take(k - 1));
}

proof fn lemma_settled_never_goes_back(t: TimerView, earlier: u64, later: u64)
    requires
        t.wf(),
        settled(t, earlier) || t.current_index == 0,
        earlier <= later,
    ensures
        t.current_index <= t.advance(later).current_index,
{
    lemma_step_at(t.plan, earlier);
    lemma_step_at(t.plan, later);
    lemma_step_at_monotone(t.plan, earlier, later);
}

/// Advancing keeps the timer well formed: the current index is always one
/// of the plan's steps, and the plan stays as it is.
pub proof fn lemma_advance_keeps_wf(t: TimerView, elapsed: u64)
    requires
        t.wf(),
    ensures
        t.advance(elapsed).wf(),
        t.advance(elapsed).plan == t.plan,
        t.advance(elapsed).started_at == t.started_at,
        t.advance(elapsed).last_alert_second == t.last_alert_second,
{
    lemma_step_at(t.plan, elapsed);
}

/// However many times elapsed seconds are reported, the timer stays well
/// formed.
pub proof fn lemma_run_keeps_wf(t: TimerView, elapsed: Seq<u64>)
    requires
        t.wf(),
    ensures
        t.run(elapsed).wf(),
        t.run(elapsed).plan == t.plan,
    decreases elapsed.len(),
{
    if elapsed.len() > 0 {
        lemma_run_keeps_wf(t, elapsed.drop_last());
        lemma_advance_keeps_wf(t.run(elapsed.drop_last()), elapsed.last());
    }
}

/// While the reported seconds never decrease, the current index never
/// decreases and stays below the number of steps.
///
/// `i` and `j` count reports: the index after the first `i` reports is at
/// most the index after the first `j`. The index before any report counts
/// too where the timer begins at the first step, as every new timer does.
pub proof fn lemma_index_never_decreases(t: TimerView, elapsed: Seq<u64>, i: int, j: int)
    requires
        t.wf(),
        non_decreasing_seconds(elapsed),
        0 <= i <= j <= elapsed.len(),
        i == 0 ==> t.current_index == 0,
    ensures
        0 <= t.run(elapsed.take(i)).current_index <= t.run(elapsed.take(j)).current_index
            < t.plan.len(),
    decreases j - i,
{
    lemma_run_keeps_wf(t, elapsed.take(i));
    lemma_run_keeps_wf(t, elapsed.take(j));
    if i < j {
        lemma_index_never_decreases(t, elapsed, i, j - 1);
        let before = t.run(elapsed.take(j - 1));
        lemma_run_keeps_wf(t, elapsed.take(j - 1));
        lemma_run_unfolds(t, elapsed, j);
        if j - 1 == 0 {
            assert(elapsed.take(0) =~= Seq::<u64>::empty());
            lemma_settled_never_goes_back(before, elapsed[0], elapsed[0]);
        } else {
            lemma_run_unfolds(t, elapsed, j - 1);
            let two_ago = t.run(elapsed.take(j - 2));
            lemma_run_keeps_wf(t, elapsed.take(j - 2));
            lemma_step_at(two_ago.plan, elapsed[j - 2]);
            assert(settled(before, elapsed[j - 2]));
            lemma_settled_never_goes_back(before, elapsed[j - 2], elapsed[j - 1]);
        }
    }
}

/// Reporting the same elapsed seconds twice is the same as reporting them
/// once: the same current step, and no alert beyond the first report's.
pub proof fn lemma_advance_idempotent(t: TimerView, elapsed: u64)
    ensures
        t.advance(elapsed).advance(elapsed) == t.advance(elapsed),
{
}

/// Once an alert was acknowledged, reporting the same elapsed seconds again
/// does not raise it again, and changes nothing else.
pub proof fn lemma_acknowledged_alert_stays_lowered(t: TimerView, elapsed: u64)
    ensures
        t.advance(elapsed).acknowledge().advance(elapsed) == t.advance(elapsed).acknowledge(),
        !t.advance(elapsed).acknowledge().advance(elapsed).alert_pending,
{
}

/// A report raises the alert exactly when it changes the current step; an
/// alert that was raised before stays.
pub proof fn lemma_alert_raised_on_step_change(t: TimerView, elapsed: u64)
    ensures
        t.advance(elapsed).alert_pending <==> t.alert_pending || t.advance(elapsed).current_index
            != t.current_index,
{
}

/// After any number of reports the alert is raised exactly when it was
/// raised before them or one of them changed the current step: no report
/// lowers it, and none raises it without a step change.
pub proof fn lemma_alert_marks_step_change(t: TimerView, elapsed: Seq<u64>)
    ensures
        t.run(elapsed).alert_pending <==> t.alert_pending || exists|k: int|
            0 <= k < elapsed.len() && step_changes_at(t, elapsed, k),
    decreases elapsed.len(),
{
    let n = elapsed.len() as int;
    if n == 0 {
        assert(elapsed.take(0) =~= elapsed);
    } else {
        let front = elapsed.drop_last();
        lemma_alert_marks_step_change(t, front);
        assert(elapsed.take(n) =~= elapsed);
        assert(elapsed.take(n - 1) =~= front);
        assert forall|k: int| 0 <= k < n - 1 implies step_changes_at(t, front, k)
            == step_changes_at(t, elapsed, k) by {
            assert(front.take(k) =~= elapsed.take(k));
            assert(front.take(k + 1) =~= elapsed.take(k + 1));
        }
        lemma_alert_raised_on_step_change(t.run(front), elapsed.last());
        if t.run(elapsed).alert_pending && !t.alert_pending {
            if t.run(front).alert_pending {
                let k = choose|k: int| 0 <= k < front.len() && step_changes_at(t, front, k);
                assert(step_changes_at(t, elapsed, k));
            } else {
                assert(step_changes_at(t, elapsed, n - 1));
            }
        }
        if exists|k: int| 0 <= k < n && step_changes_at(t, elapsed, k) {
            let k = choose|k: int| 0 <= k < n && step_changes_at(t, elapsed, k);
            if k < n - 1 {
                assert(step_changes_at(t, front, k));
            }
        }
    }
}

/// Once every step has ended, a report changes nothing: the current step
/// stays and no alert is raised.
pub proof fn lemma_finished_plan_is_silent(t: TimerView, elapsed: u64)
    requires
        all_ended(t.plan, elapsed),
    ensures
        t.advance(elapsed) == t,
{
}

/// Acknowledging twice is the same as acknowledging once, and it touches
/// nothing but the alert.
pub proof fn lemma_acknowledge_idempotent(t: TimerView)
    ensures
        t.acknowledge().acknowledge() == t.acknowledge(),
        t.acknowledge().current_index == t.current_index,
        t.acknowledge().started_at == t.started_at,
        t.acknowledge().plan == t.plan,
{
}

/// A running timer cannot be started again: the first start stays.
pub proof fn lemma_start_only_once(t: TimerView, first: Instant, second: Instant)
    ensures
        t.start(first).start(second) == t.start(first),
        t.start(first).started_at is Some,
{
}

/// The alert sound is due at most once in a second: once it was asked for at
/// `second`, it is not due at `second` again.
pub proof fn lemma_sound_once_per_second(t: TimerView, second: u64)
    ensures
        !t.sounded(second).sound_due(second),
        t.sounded(second).sounded(second) == t.sounded(second),
{
}

/// However many frames pass within one second, the sound is played in at
/// most the first of them: a frame that follows a frame at the same elapsed
/// seconds plays none and leaves the timer as it is.
pub proof fn lemma_frame_sounds_once_per_second(t: TimerView, elapsed: u64)
    ensures
        !t.after_frame(elapsed).frame(elapsed).sound_alert,
        t.after_frame(elapsed).after_frame(elapsed) == t.after_frame(elapsed),
{
}

/// No frame lowers the alert: it stays raised until it is acknowledged.
pub proof fn lemma_frame_keeps_alert(t: TimerView, elapsed: u64)
    requires
        t.alert_pending,
    ensures
        t.after_frame(elapsed).alert_pending,
        t.frame(elapsed).alert_pending,
{
}

} // verus!
