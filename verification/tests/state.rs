use test_helpers_end_to_end::{Action, Event, PollDecision, Step, StepTest};

/// A test that has handed the state to its custom step.
fn in_custom_step<C>(cluster: C) -> StepTest<C, (), (), ()> {
    let mut test = StepTest::new(cluster, vec![Step::Custom(())]);
    assert_eq!(test.run(0, Event::Begin), Action::RunCustom { run: () });
    assert!(test.awaits_callback());
    test
}

#[test]
fn new_state_has_nothing_written_or_recorded() {
    let test: StepTest<&str, (), (), ()> = StepTest::new("cluster", vec![]);
    let state = test.state();
    assert_eq!(*state.cluster(), "cluster");
    assert!(state.write_tokens().is_empty());
    assert_eq!(state.num_parquet_files(), None);
}

#[test]
fn cluster_mut_changes_the_cluster_only() {
    let mut test = in_custom_step(1u32);
    let state = test.state_mut();
    state.record_num_parquet_files(Some(4));
    *state.cluster_mut() += 41;
    assert_eq!(*state.cluster(), 42);
    assert_eq!(state.num_parquet_files(), Some(4));
    assert!(state.write_tokens().is_empty());
}

#[test]
fn cluster_can_be_a_mutable_borrow() {
    let mut cluster = vec![1, 2];
    {
        let mut test = in_custom_step(&mut cluster);
        let state = test.state_mut();
        state.cluster_mut().push(3);
        assert_eq!(state.cluster().len(), 3);
    }
    assert_eq!(cluster, vec![1, 2, 3]);
}

#[test]
fn record_stores_the_count() {
    let mut test = in_custom_step(());
    let state = test.state_mut();
    state.record_num_parquet_files(Some(7));
    assert_eq!(state.num_parquet_files(), Some(7));
    state.record_num_parquet_files(Some(3));
    assert_eq!(state.num_parquet_files(), Some(3));
}

#[test]
fn record_takes_an_unreachable_catalog_for_no_files() {
    let mut test = in_custom_step(());
    let state = test.state_mut();
    state.record_num_parquet_files(None);
    assert_eq!(state.num_parquet_files(), Some(0));
    state.record_num_parquet_files(Some(9));
    state.record_num_parquet_files(None);
    assert_eq!(state.num_parquet_files(), Some(0));
}

#[test]
fn any_count_is_a_change_before_the_first_recording() {
    let mut test = in_custom_step(());
    let state = test.state_mut();
    assert_eq!(state.wait_for_num_parquet_file_change(0, Some(0)), PollDecision::Succeeded);
    assert_eq!(state.num_parquet_files(), Some(0));
    let mut other = in_custom_step(());
    let unreachable = other.state_mut();
    assert_eq!(unreachable.wait_for_num_parquet_file_change(0, None), PollDecision::Succeeded);
    assert_eq!(unreachable.num_parquet_files(), Some(0));
}

#[test]
fn equal_count_is_no_change() {
    let mut test = in_custom_step(());
    let state = test.state_mut();
    state.record_num_parquet_files(Some(2));
    assert_eq!(
        state.wait_for_num_parquet_file_change(100, Some(2)),
        PollDecision::Retry { after_ms: 1000, within_ms: 19900 }
    );
    assert_eq!(state.num_parquet_files(), Some(2));
    assert_eq!(state.wait_for_num_parquet_file_change(20000, Some(2)), PollDecision::TimedOut);
    assert_eq!(state.num_parquet_files(), Some(2));
}

#[test]
fn lower_count_is_no_change() {
    let mut test = in_custom_step(());
    let state = test.state_mut();
    state.record_num_parquet_files(Some(2));
    assert_eq!(
        state.wait_for_num_parquet_file_change(0, Some(1)),
        PollDecision::Retry { after_ms: 1000, within_ms: 20000 }
    );
    assert_eq!(
        state.wait_for_num_parquet_file_change(1000, None),
        PollDecision::Retry { after_ms: 1000, within_ms: 19000 }
    );
    assert_eq!(state.num_parquet_files(), Some(2));
}

#[test]
fn higher_count_ends_the_wait_and_is_recorded() {
    let mut test = in_custom_step(());
    let state = test.state_mut();
    state.record_num_parquet_files(Some(2));
    assert_eq!(state.wait_for_num_parquet_file_change(5000, Some(3)), PollDecision::Succeeded);
    assert_eq!(state.num_parquet_files(), Some(3));
}

#[test]
fn higher_count_after_the_deadline_is_too_late() {
    let mut test = in_custom_step(());
    let state = test.state_mut();
    state.record_num_parquet_files(Some(2));
    assert_eq!(state.wait_for_num_parquet_file_change(20001, Some(3)), PollDecision::TimedOut);
    assert_eq!(state.num_parquet_files(), Some(2));
}
