use mvu_core::command::{Command, channel, into_repr, oneshot};

#[test]
fn done_collect_yields_single_list_with_value() {
    let c: Command<u64> = Command::done(7);
    let collected = c.collect();
    let outputs = into_repr(collected).expect("collect always has work");
    assert_eq!(outputs.len(), 1);
    assert_eq!(outputs[0], vec![7]);
}

#[test]
fn none_collect_yields_single_empty_list() {
    let c: Command<u64> = Command::none();
    let outputs = into_repr(c.collect()).expect("collect always has work");
    assert_eq!(outputs.len(), 1);
    assert_eq!(outputs[0], Vec::<u64>::new());
}

#[test]
fn done_produces_exactly_one_value() {
    let c: Command<&'static str> = Command::done("hello");
    assert_eq!(into_repr(c).unwrap(), vec!["hello"]);
}

#[test]
fn none_has_no_work() {
    let c: Command<u64> = Command::none();
    assert!(into_repr(c).is_none());
}

#[test]
fn default_is_none() {
    let c: Command<u64> = Default::default();
    assert!(into_repr(c).is_none());
}

#[test]
fn future_and_stream_deliver_their_outputs() {
    assert_eq!(into_repr(Command::future(3u64)).unwrap(), vec![3]);
    assert_eq!(into_repr(Command::stream(vec![1u64, 2, 3])).unwrap(), vec![1, 2, 3]);
}

#[test]
fn perform_maps_the_resolved_value() {
    let c: Command<u64> = Command::perform(20u64, |x| x + 1);
    assert_eq!(into_repr(c).unwrap(), vec![21]);
}

#[test]
fn run_maps_every_item() {
    let c: Command<u64> = Command::run(vec![1u64, 2, 3], |x| x * 10);
    assert_eq!(into_repr(c).unwrap(), vec![10, 20, 30]);
}

#[test]
fn map_applies_to_each_output() {
    let c = Command::stream(vec![1u64, 2, 3]).map(|x| x + 100);
    assert_eq!(into_repr(c).unwrap(), vec![101, 102, 103]);
}

#[test]
fn map_keeps_none_empty() {
    let c: Command<u64> = Command::none();
    assert!(into_repr(c.map(|x| x + 1)).is_none());
}

#[test]
fn then_flattens_in_source_order() {
    let c = Command::stream(vec![1u64, 2]).then(|x| Command::stream(vec![x, x * 10]));
    assert_eq!(into_repr(c).unwrap(), vec![1, 10, 2, 20]);
}

#[test]
fn then_skips_empty_follow_ups() {
    let c = Command::stream(vec![1u64, 2, 3]).then(|x| {
        if x == 2 {
            Command::none()
        } else {
            Command::done(x)
        }
    });
    assert_eq!(into_repr(c).unwrap(), vec![1, 3]);
}

#[test]
fn chain_emits_all_of_first_before_second() {
    let a = Command::stream(vec![1u64, 2]);
    let b = Command::stream(vec![3u64]);
    assert_eq!(into_repr(a.chain(b)).unwrap(), vec![1, 2, 3]);
}

#[test]
fn chain_with_empty_first_behaves_as_second() {
    let a: Command<u64> = Command::none();
    let b = Command::stream(vec![9u64, 8]);
    assert_eq!(into_repr(a.chain(b)).unwrap(), vec![9, 8]);
}

#[test]
fn chain_with_empty_second_behaves_as_first() {
    let a = Command::stream(vec![4u64]);
    let b: Command<u64> = Command::none();
    assert_eq!(into_repr(a.chain(b)).unwrap(), vec![4]);
}

#[test]
fn discard_keeps_the_work_but_drops_outputs() {
    let c: Command<u64> = Command::stream(vec![1u64, 2]).discard();
    assert_eq!(into_repr(c).unwrap(), Vec::<u64>::new());
    let n: Command<u64> = Command::<u64>::none().discard();
    assert!(into_repr(n).is_none());
}

#[test]
fn batch_follows_the_arrival_order() {
    let a = Command::stream(vec![1u64, 2]);
    let b = Command::stream(vec![10u64]);
    let c = Command::batch(vec![a, b], &vec![1, 0, 0]);
    assert_eq!(into_repr(c).unwrap(), vec![10, 1, 2]);
}

#[test]
fn batch_has_no_required_order_across_commands() {
    let first = Command::batch(
        vec![Command::stream(vec![1u64, 2]), Command::stream(vec![10u64])],
        &vec![0, 0, 1],
    );
    let second = Command::batch(
        vec![Command::stream(vec![1u64, 2]), Command::stream(vec![10u64])],
        &vec![1, 0, 0],
    );
    // Each command's internal order is preserved either way; the relative
    // order across the two differs with the arrival order alone.
    assert_eq!(into_repr(first).unwrap(), vec![1, 2, 10]);
    assert_eq!(into_repr(second).unwrap(), vec![10, 1, 2]);
}

#[test]
fn batch_map_collect_interleaves_mapped_outputs() {
    let a = Command::stream(vec![1u64, 2]);
    let b = Command::stream(vec![10u64]);
    let c = Command::batch(vec![a, b], &vec![0, 1, 0]).map(|x| x + 1).collect();
    let outputs = into_repr(c).unwrap();
    assert_eq!(outputs, vec![vec![2, 11, 3]]);
}

#[test]
fn batch_delivers_leftovers_after_a_short_order() {
    let a = Command::stream(vec![1u64, 2]);
    let b = Command::stream(vec![10u64, 20]);
    let c = Command::batch(vec![a, b], &vec![1]);
    assert_eq!(into_repr(c).unwrap(), vec![10, 1, 2, 20]);
}

#[test]
fn batch_skips_empty_commands_and_bad_indices() {
    let a: Command<u64> = Command::none();
    let b = Command::stream(vec![5u64]);
    let c = Command::batch(vec![a, b], &vec![0, 7, 1]);
    assert_eq!(into_repr(c).unwrap(), vec![5]);
}

#[test]
fn batch_of_nothing_is_still_pending_work() {
    let c: Command<u64> = Command::batch(vec![], &vec![]);
    assert_eq!(into_repr(c).unwrap(), Vec::<u64>::new());
}

#[test]
fn and_then_on_options_runs_only_on_some() {
    let c: Command<Option<u64>> = Command::stream(vec![Some(1u64), None, Some(3)]);
    let r = c.and_then(|x| Command::done(x * 2));
    assert_eq!(into_repr(r).unwrap(), vec![2, 6]);
}

#[test]
fn and_then_on_results_passes_failures_through() {
    let c: Command<Result<u64, &'static str>> =
        Command::stream(vec![Ok(1u64), Err("boom"), Ok(3)]);
    let r = c.and_then(|x| Command::done(Ok(x + 1)));
    assert_eq!(into_repr(r).unwrap(), vec![Ok(2), Err("boom"), Ok(4)]);
}

#[test]
fn map_err_rewrites_only_failures() {
    let c: Command<Result<u64, u64>> = Command::stream(vec![Ok(1u64), Err(7u64)]);
    let r = c.map_err(|e| e + 1);
    assert_eq!(into_repr(r).unwrap(), vec![Ok(1), Err(8)]);
}

#[test]
fn oneshot_delivers_return_then_sent() {
    let c = oneshot(1u64, Some(2u64));
    assert_eq!(into_repr(c).unwrap(), vec![1, 2]);
    let only = oneshot(5u64, None);
    assert_eq!(into_repr(only).unwrap(), vec![5]);
}

#[test]
fn channel_delivers_return_then_every_sent_value() {
    let c = channel(1u64, vec![2u64, 3, 4]);
    assert_eq!(into_repr(c).unwrap(), vec![1, 2, 3, 4]);
}
