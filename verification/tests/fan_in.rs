use pr_hub::fan_in::{collect, collect_successes, flatten, FanIn};

#[test]
fn no_task_gives_an_empty_accumulator() {
    let outcomes: Vec<Result<u32, String>> = Vec::new();
    let fan_in = collect(outcomes);
    assert_eq!(fan_in.completed_len(), 0);
    assert_eq!(fan_in.failed_len(), 0);
    let (completed, failed) = fan_in.into_parts();
    assert_eq!(completed, Vec::<u32>::new());
    assert_eq!(failed, Vec::<String>::new());
}

#[test]
fn a_new_accumulator_is_empty() {
    let fan_in: FanIn<u8, u8> = FanIn::new();
    assert_eq!(fan_in.completed_len(), 0);
    assert_eq!(fan_in.failed_len(), 0);
    assert_eq!(fan_in.into_completed(), Vec::<u8>::new());
}

#[test]
fn successes_are_kept_in_the_order_of_arrival() {
    let outcomes: Vec<Result<u32, String>> = vec![Ok(3), Ok(1), Ok(2)];
    assert_eq!(collect_successes(outcomes), vec![3, 1, 2]);
}

#[test]
fn a_failure_is_set_aside_and_the_others_are_kept() {
    let outcomes: Vec<Result<u32, String>> =
        vec![Ok(3), Err("timeout".to_string()), Ok(2), Err("refused".to_string())];
    let (completed, failed) = collect(outcomes).into_parts();
    assert_eq!(completed, vec![3, 2]);
    assert_eq!(failed, vec!["timeout".to_string(), "refused".to_string()]);
}

#[test]
fn only_failures_give_no_value() {
    let outcomes: Vec<Result<u32, u8>> = vec![Err(1), Err(2)];
    let fan_in = collect(outcomes);
    assert_eq!(fan_in.completed_len(), 0);
    assert_eq!(fan_in.failed_len(), 2);
    assert_eq!(fan_in.into_completed(), Vec::<u32>::new());
}

#[test]
fn absorbing_one_outcome_at_a_time_gives_what_collect_gives() {
    let mut fan_in: FanIn<&str, i32> = FanIn::new();
    fan_in.absorb(Ok("a"));
    assert_eq!(fan_in.completed_len(), 1);
    fan_in.absorb(Err(-1));
    assert_eq!(fan_in.completed_len(), 1);
    assert_eq!(fan_in.failed_len(), 1);
    fan_in.absorb(Ok("b"));
    let (completed, failed) = fan_in.into_parts();
    assert_eq!(completed, vec!["a", "b"]);
    assert_eq!(failed, vec![-1]);

    let outcomes: Vec<Result<&str, i32>> = vec![Ok("a"), Err(-1), Ok("b")];
    assert_eq!(collect_successes(outcomes), vec!["a", "b"]);
}

#[test]
fn removing_a_failed_outcome_changes_nothing() {
    let with_failure: Vec<Result<u32, u8>> = vec![Ok(1), Err(9), Ok(2)];
    let without: Vec<Result<u32, u8>> = vec![Ok(1), Ok(2)];
    assert_eq!(collect_successes(with_failure), collect_successes(without));
}

#[test]
fn flatten_joins_the_lists_one_behind_the_other() {
    assert_eq!(flatten(vec![vec![1, 2], vec![], vec![3], vec![4, 5, 6]]), vec![1, 2, 3, 4, 5, 6]);
    assert_eq!(flatten(Vec::<Vec<u8>>::new()), Vec::<u8>::new());
    assert_eq!(flatten(vec![Vec::<u8>::new(), Vec::new()]), Vec::<u8>::new());
}
