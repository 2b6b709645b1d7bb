//! The plan: named steps with cumulative end offsets, and the rule that
//! picks the step that is current at a given elapsed time.

use vstd::prelude::*;

verus! {

/// One named phase of the process.
#[derive(Debug)]
pub struct Step {
    /// Display label.
    pub name: String,
    /// Seconds from the start of the process at which this step ends.
    pub end_offset: u64,
}

/// Why a list of step durations is no plan.
#[derive(Clone, Copy, Debug, PartialEq, Eq, Structural)]
pub enum PlanError {
    /// The list holds no step.
    Empty,
    /// The durations add up to more seconds than a `u64` holds.
    TooLong,
}

/// The end offsets never decrease along the plan.
pub open spec fn non_decreasing(plan: Seq<Step>) -> bool {
    forall|i: int, j: int| 0 <= i <= j < plan.len() ==> plan[i].end_offset <= plan[j].end_offset
}

/// A plan that a timer can follow: at least one step, end offsets in order.
pub open spec fn valid_plan(plan: Seq<Step>) -> bool {
    plan.len() > 0 && non_decreasing(plan)
}

/// Step `i` is the first step of `plan` that ends after `elapsed` seconds.
pub open spec fn is_current(plan: Seq<Step>, elapsed: u64, i: int) -> bool {
    &&& 0 <= i < plan.len()
    &&& elapsed < plan[i].end_offset
    &&& forall|j: int| 0 <= j < i ==> plan[j].end_offset <= elapsed
}

/// Every step of `plan` has ended by `elapsed` seconds.
pub open spec fn all_ended(plan: Seq<Step>, elapsed: u64) -> bool {
    forall|j: int| 0 <= j < plan.len() ==> plan[j].end_offset <= elapsed
}

/// The index of the first step that ends after `elapsed` seconds, or `None`
/// once every step has ended.
pub open spec fn step_at(plan: Seq<Step>, elapsed: u64) -> Option<int> {
    if all_ended(plan, elapsed) {
        None
    } else {
        Some(choose|i: int| is_current(plan, elapsed, i))
    }
}

/// The seconds that the first `n` entries of a list of durations take.
pub open spec fn offset_after(durations: Seq<(&str, u64)>, n: int) -> int
    decreases n,
{
    if n <= 0 {
        0
    } else {
        offset_after(durations, n - 1) + durations[n - 1].1
    }
}

proof fn lemma_first_open_exists(plan: Seq<Step>, elapsed: u64, k: int)
    requires
        0 <= k < plan.len(),
        elapsed < plan[k].end_offset,
    ensures
        exists|i: int| is_current(plan, elapsed, i),
    decreases k,
{
    if forall|j: int| 0 <= j < k ==> plan[j].end_offset <= elapsed {
        assert(is_current(plan, elapsed, k));
    } else {
        let j = choose|j: int| 0 <= j < k && !(plan[j].end_offset <= elapsed);
        lemma_first_open_exists(plan, elapsed, j);
    }
}

/// `step_at` names the one step that is current, and names none exactly when
/// every step has ended.
pub proof fn lemma_step_at(plan: Seq<Step>, elapsed: u64)
    ensures
        match step_at(plan, elapsed) {
            Some(i) => is_current(plan, elapsed, i),
            None => all_ended(plan, elapsed),
        },
        forall|i: int| is_current(plan, elapsed, i) ==> step_at(plan, elapsed) == Some(i),
{
    if !all_ended(plan, elapsed) {
        let k = choose|k: int| 0 <= k < plan.len() && !(plan[k].end_offset <= elapsed);
        lemma_first_open_exists(plan, elapsed, k);
        let c = choose|i: int| is_current(plan, elapsed, i);
        assert forall|i: int| is_current(plan, elapsed, i) implies i == c by {
            if i < c {
                assert(plan[i].end_offset <= elapsed);
            } else if c < i {
                assert(plan[c].end_offset <= elapsed);
            }
        }
    }
}

/// In a plan whose offsets are in order, the steps before the current one
/// have ended and the current one and all after it have not.
pub proof fn lemma_current_splits_plan(plan: Seq<Step>, elapsed: u64, i: int)
    requires
        non_decreasing(plan),
        step_at(plan, elapsed) == Some(i),
    ensures
        0 <= i < plan.len(),
        forall|j: int| 0 <= j < i ==> plan[j].end_offset <= elapsed,
        forall|j: int| i <= j < plan.len() ==> elapsed < plan[j].end_offset,
{
    lemma_step_at(plan, elapsed);
}

/// A later time is never in an earlier step.
pub proof fn lemma_step_at_monotone(plan: Seq<Step>, earlier: u64, later: u64)
    requires
        earlier <= later,
    ensures
        step_at(plan, earlier) is None ==> step_at(plan, later) is None,
        step_at(plan, earlier) is Some && step_at(plan, later) is Some ==> step_at(
            plan,
            earlier,
        )->0 <= step_at(plan, later)->0,
{
    lemma_step_at(plan, earlier);
    lemma_step_at(plan, later);
    if step_at(plan, earlier) is Some && step_at(plan, later) is Some {
        let a = step_at(plan, earlier)->0;
        let b = step_at(plan, later)->0;
        if b < a {
            assert(plan[b].end_offset <= earlier);
        }
    }
}

/// The cumulative offsets of a list of durations never decrease.
pub proof fn lemma_offset_after_monotone(durations: Seq<(&str, u64)>, m: int, n: int)
    requires
        0 <= m <= n,
    ensures
        0 <= offset_after(durations, m) <= offset_after(durations, n),
    decreases n,
{
    if m < n {
        lemma_offset_after_monotone(durations, m, n - 1);
    } else if n > 0 {
        lemma_offset_after_monotone(durations, m - 1, n - 1);
    }
}

/// Finds the first step that ends after `elapsed` seconds.
pub fn locate(steps: &Vec<Step>, elapsed: u64) -> (found: Option<usize>)
    ensures
        match found {
            Some(i) => step_at(steps@, elapsed) == Some(i as int),
            None => step_at(steps@, elapsed) is None,
        },
{
    let mut i: usize = 0;
    while i < steps.len()
        invariant
            i <= steps.len(),
            forall|j: int| 0 <= j < i ==> steps@[j].end_offset <= elapsed,
        decreases steps.len() - i,
    {
        if elapsed < steps[i].end_offset {
            proof {
                assert(is_current(steps@, elapsed, i as int));
                lemma_step_at(steps@, elapsed);
            }
            return Some(i);
        }
        i += 1;
    }
    assert(all_ended(steps@, elapsed));
    None
}

/// Lays the given steps end to end: each step ends where the durations up to
/// and including its own add up to.
pub fn cumulative_steps(durations: &[(&str, u64)]) -> (built: Result<Vec<Step>, PlanError>)
    ensures
        match built {
            Ok(steps) => {
                &&& durations@.len() > 0
                &&& valid_plan(steps@)
                &&& steps@.len() == durations@.len()
                &&& forall|i: int|
                    0 <= i < steps@.len() ==> {
                        &&& (#[trigger] steps@[i]).name@ == durations@[i].0@
                        &&& steps@[i].end_offset == offset_after(durations@, i + 1)
                    }
            },
            Err(PlanError::Empty) => durations@.len() == 0,
            Err(PlanError::TooLong) => {
                &&& durations@.len() > 0
                &&& offset_after(durations@, durations@.len() as int) > u64::MAX
            },
        },
{
    if durations.len() == 0 {
        return Err(PlanError::Empty);
    }
    let mut steps: Vec<Step> = Vec::new();
    let mut time: u64 = 0;
    let mut i: usize = 0;
    while i < durations.len()
        invariant
            i <= durations.len(),
            steps@.len() == i,
            time == offset_after(durations@, i as int),
            forall|k: int|
                0 <= k < i ==> {
                    &&& (#[trigger] steps@[k]).name@ == durations@[k].0@
                    &&& steps@[k].end_offset == offset_after(durations@, k + 1)
                },
        decreases durations.len() - i,
    {
        let (name, own_time) = durations[i];
        match time.checked_add(own_time) {
            None => {
                proof {
                    lemma_offset_after_monotone(durations@, i + 1, durations@.len() as int);
                }
                return Err(PlanError::TooLong);
            },
            Some(end) => {
                time = end;
            },
        }
        steps.push(Step { name: name.to_owned(), end_offset: time });
        i += 1;
    }
    proof {
        assert forall|a: int, b: int| 0 <= a <= b < steps@.len() implies steps@[a].end_offset
            <= steps@[b].end_offset by {
            lemma_offset_after_monotone(durations@, a + 1, b + 1);
        }
    }
    Ok(steps)
}

} // verus!
