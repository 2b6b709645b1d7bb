use sourdough_timer::schedule::{cumulative_steps, locate, PlanError, Step};

fn plan_of(end_offsets: &[u64]) -> Vec<Step> {
    end_offsets
        .iter()
        .enumerate()
        .map(|(i, &end_offset)| Step { name: format!("step {}", i), end_offset })
        .collect()
}

#[test]
fn durations_are_laid_end_to_end() {
    let steps = cumulative_steps(&[
        ("Autolyse", 30),
        ("S&F No.1", 30),
        ("Bulk", 120),
        ("Shaping", 30),
        ("Proofing", 120),
    ])
    .unwrap();
    let offsets: Vec<u64> = steps.iter().map(|s| s.end_offset).collect();
    assert_eq!(offsets, vec![30, 60, 180, 210, 330]);
    let names: Vec<&str> = steps.iter().map(|s| s.name.as_str()).collect();
    assert_eq!(names, vec!["Autolyse", "S&F No.1", "Bulk", "Shaping", "Proofing"]);
}

#[test]
fn a_single_step_ends_after_its_own_duration() {
    let steps = cumulative_steps(&[("Bake", 2700)]).unwrap();
    assert_eq!(steps.len(), 1);
    assert_eq!(steps[0].name, "Bake");
    assert_eq!(steps[0].end_offset, 2700);
}

#[test]
fn steps_without_duration_share_an_offset() {
    let steps = cumulative_steps(&[("a", 0), ("b", 5), ("c", 0)]).unwrap();
    let offsets: Vec<u64> = steps.iter().map(|s| s.end_offset).collect();
    assert_eq!(offsets, vec![0, 5, 5]);
}

#[test]
fn an_empty_list_is_no_plan() {
    assert_eq!(cumulative_steps(&[]).unwrap_err(), PlanError::Empty);
}

#[test]
fn durations_that_overflow_are_no_plan() {
    assert_eq!(cumulative_steps(&[("a", u64::MAX), ("b", 1)]).unwrap_err(), PlanError::TooLong);
    assert_eq!(
        cumulative_steps(&[("a", 1 << 63), ("b", 1 << 63), ("c", 0)]).unwrap_err(),
        PlanError::TooLong
    );
}

#[test]
fn durations_that_just_fit_are_a_plan() {
    let steps = cumulative_steps(&[("a", u64::MAX - 1), ("b", 1), ("c", 0)]).unwrap();
    let offsets: Vec<u64> = steps.iter().map(|s| s.end_offset).collect();
    assert_eq!(offsets, vec![u64::MAX - 1, u64::MAX, u64::MAX]);
}

#[test]
fn locates_the_first_step_that_ends_later() {
    let plan = plan_of(&[30, 60, 180, 210, 330]);
    assert_eq!(locate(&plan, 0), Some(0));
    assert_eq!(locate(&plan, 29), Some(0));
    assert_eq!(locate(&plan, 61), Some(2));
    assert_eq!(locate(&plan, 179), Some(2));
    assert_eq!(locate(&plan, 209), Some(3));
    assert_eq!(locate(&plan, 329), Some(4));
}

#[test]
fn a_step_is_left_at_its_end_offset() {
    let plan = plan_of(&[30, 60, 180, 210, 330]);
    assert_eq!(locate(&plan, 30), Some(1));
    assert_eq!(locate(&plan, 60), Some(2));
    assert_eq!(locate(&plan, 180), Some(3));
    assert_eq!(locate(&plan, 210), Some(4));
}

#[test]
fn no_step_is_located_once_all_have_ended() {
    let plan = plan_of(&[30, 60, 180, 210, 330]);
    assert_eq!(locate(&plan, 330), None);
    assert_eq!(locate(&plan, 400), None);
    assert_eq!(locate(&plan, u64::MAX), None);
}

#[test]
fn steps_without_duration_are_passed_over() {
    let plan = plan_of(&[0, 0, 10, 10, 20]);
    assert_eq!(locate(&plan, 0), Some(2));
    assert_eq!(locate(&plan, 9), Some(2));
    assert_eq!(locate(&plan, 10), Some(4));
    assert_eq!(locate(&plan, 20), None);
}

#[test]
fn nothing_is_located_in_an_empty_list() {
    assert_eq!(locate(&Vec::new(), 0), None);
}
