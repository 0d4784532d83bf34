use busytube::{
    collect, Collector, FetchBudget, FetchError, Progress, MAX_BYTES, OFFSET_CHUNKS_COUNT,
};

fn budget(max_bytes: usize, skip_chunks: usize) -> FetchBudget {
    FetchBudget { max_bytes, skip_chunks }
}

/// A recorded stream of `count` chunks of `size` bytes each, numbered so
/// that every byte tells which chunk it came from.
fn numbered(count: usize, size: usize) -> Vec<Option<Vec<u8>>> {
    (0..count).map(|i| Some(vec![(i % 251) as u8; size])).collect()
}

#[test]
fn test_download_htmls_length() {
    let mut reads = numbered(OFFSET_CHUNKS_COUNT, 512);
    reads.extend(numbered(200, 1000));
    let chunk = vec![collect(&reads, budget(MAX_BYTES, OFFSET_CHUNKS_COUNT))];
    assert_eq!(MAX_BYTES, chunk[0].as_ref().unwrap().len());
}

#[test]
fn the_defaults_are_the_two_constants() {
    assert_eq!(MAX_BYTES, 70000);
    assert_eq!(OFFSET_CHUNKS_COUNT, 360);
    assert_eq!(FetchBudget::default(), budget(70000, 360));
}

#[test]
fn a_short_body_is_kept_whole() {
    let reads = vec![Some(vec![1, 2, 3]), Some(vec![]), Some(vec![4, 5])];
    assert_eq!(collect(&reads, budget(10, 0)), Ok(vec![1, 2, 3, 4, 5]));
    assert_eq!(collect(&reads, budget(5, 0)), Ok(vec![1, 2, 3, 4, 5]));
}

#[test]
fn a_long_body_is_cut_to_the_budget() {
    let reads = vec![Some(vec![1, 2, 3]), Some(vec![4, 5, 6]), Some(vec![7, 8, 9])];
    assert_eq!(collect(&reads, budget(4, 0)), Ok(vec![1, 2, 3, 4]));
    assert_eq!(collect(&reads, budget(3, 0)), Ok(vec![1, 2, 3]));
    assert_eq!(collect(&reads, budget(2, 0)), Ok(vec![1, 2]));
    assert_eq!(collect(&reads, budget(8, 0)), Ok(vec![1, 2, 3, 4, 5, 6, 7, 8]));
}

#[test]
fn leading_chunks_are_skipped_whole() {
    let reads = vec![Some(vec![1, 2, 3]), Some(vec![4, 5, 6]), Some(vec![7, 8, 9])];
    assert_eq!(collect(&reads, budget(100, 1)), Ok(vec![4, 5, 6, 7, 8, 9]));
    assert_eq!(collect(&reads, budget(100, 2)), Ok(vec![7, 8, 9]));
    assert_eq!(collect(&reads, budget(100, 3)), Ok(vec![]));
    assert_eq!(collect(&reads, budget(100, 4)), Ok(vec![]));
    assert_eq!(collect(&reads, budget(2, 1)), Ok(vec![4, 5]));
}

#[test]
fn an_empty_stream_gives_an_empty_buffer() {
    assert_eq!(collect(&vec![], budget(10, 0)), Ok(vec![]));
    assert_eq!(collect(&vec![], budget(0, 0)), Ok(vec![]));
    assert_eq!(collect(&vec![], budget(10, 3)), Ok(vec![]));
}

#[test]
fn a_failed_read_fails_the_fetch() {
    let reads = vec![Some(vec![1, 2, 3]), None, Some(vec![4])];
    assert_eq!(collect(&reads, budget(10, 0)), Err(FetchError::Transport));
    assert_eq!(collect(&vec![None], budget(10, 0)), Err(FetchError::Transport));
}

#[test]
fn a_failed_read_behind_a_full_buffer_is_never_met() {
    let reads = vec![Some(vec![1, 2, 3]), None, Some(vec![4])];
    assert_eq!(collect(&reads, budget(3, 0)), Ok(vec![1, 2, 3]));
    assert_eq!(collect(&reads, budget(2, 0)), Ok(vec![1, 2]));
    assert_eq!(collect(&reads, budget(4, 0)), Err(FetchError::Transport));
}

#[test]
fn a_failed_read_among_the_skipped_ones_is_skipped() {
    let reads = vec![None, Some(vec![1]), None, Some(vec![2, 3])];
    assert_eq!(collect(&reads, budget(10, 3)), Ok(vec![2, 3]));
    assert_eq!(collect(&reads, budget(10, 1)), Err(FetchError::Transport));
    assert_eq!(collect(&reads, budget(1, 1)), Ok(vec![1]));
}

#[test]
fn with_no_budget_one_counted_read_is_still_made() {
    assert_eq!(collect(&vec![Some(vec![1, 2])], budget(0, 0)), Ok(vec![]));
    assert_eq!(collect(&vec![None], budget(0, 0)), Err(FetchError::Transport));
    assert_eq!(collect(&vec![Some(vec![1]), None], budget(0, 0)), Ok(vec![]));
    assert_eq!(collect(&vec![Some(vec![9]), None], budget(0, 1)), Err(FetchError::Transport));
}

#[test]
fn the_collector_says_when_to_stop_reading() {
    let collector = Collector::new(budget(4, 1));
    // the skipped read
    let collector = match collector.on_chunk(&[9, 9, 9, 9, 9, 9]) {
        Progress::Reading(next) => next,
        Progress::Done(r) => panic!("done too early: {r:?}"),
    };
    let collector = match collector.on_chunk(&[1, 2, 3]) {
        Progress::Reading(next) => next,
        Progress::Done(r) => panic!("done too early: {r:?}"),
    };
    match collector.on_chunk(&[4, 5, 6]) {
        Progress::Reading(_) => panic!("the budget is used up"),
        Progress::Done(r) => assert_eq!(r, Ok(vec![1, 2, 3, 4])),
    }
}

#[test]
fn the_collector_is_done_when_the_budget_is_met_exactly() {
    let collector = Collector::new(budget(3, 0));
    match collector.on_chunk(&[1, 2, 3]) {
        Progress::Reading(_) => panic!("the budget is used up"),
        Progress::Done(r) => assert_eq!(r, Ok(vec![1, 2, 3])),
    }
}

#[test]
fn the_collector_fails_on_a_counted_fault_only() {
    let collector = Collector::new(budget(10, 1));
    let collector = match collector.on_fault() {
        Progress::Reading(next) => next,
        Progress::Done(r) => panic!("a skipped fault ended the fetch: {r:?}"),
    };
    let collector = match collector.on_chunk(&[1]) {
        Progress::Reading(next) => next,
        Progress::Done(r) => panic!("done too early: {r:?}"),
    };
    match collector.on_fault() {
        Progress::Reading(_) => panic!("a counted fault was passed over"),
        Progress::Done(r) => assert_eq!(r, Err(FetchError::Transport)),
    }
}

#[test]
fn finishing_gives_what_was_gathered() {
    let collector = Collector::new(budget(10, 0));
    assert_eq!(collector.finish(), Vec::<u8>::new());
    let collector = Collector::new(budget(10, 0));
    let collector = match collector.on_chunk(&[1, 2]) {
        Progress::Reading(next) => next,
        Progress::Done(r) => panic!("done too early: {r:?}"),
    };
    let collector = match collector.on_chunk(&[]) {
        Progress::Reading(next) => next,
        Progress::Done(r) => panic!("done too early: {r:?}"),
    };
    assert_eq!(collector.finish(), vec![1, 2]);
}

#[test]
fn no_buffer_is_longer_than_the_budget() {
    for max_bytes in 0..12 {
        for skip_chunks in 0..5 {
            for size in 0..5 {
                let reads = numbered(6, size);
                let buffer = collect(&reads, budget(max_bytes, skip_chunks)).unwrap();
                let whole: Vec<u8> =
                    reads.iter().skip(skip_chunks).flat_map(|c| c.clone().unwrap()).collect();
                assert!(buffer.len() <= max_bytes);
                assert_eq!(buffer, whole[..whole.len().min(max_bytes)]);
            }
        }
    }
}

#[test]
fn what_comes_after_the_stop_changes_nothing() {
    let reads = vec![Some(vec![1, 2]), Some(vec![3, 4]), Some(vec![5, 6])];
    let stopped = collect(&reads[..2].to_vec(), budget(3, 0));
    for more in [vec![], vec![Some(vec![7])], vec![None], vec![None, Some(vec![8])]] {
        let mut longer = reads[..2].to_vec();
        longer.extend(more);
        assert_eq!(collect(&longer, budget(3, 0)), stopped);
    }
    assert_eq!(stopped, Ok(vec![1, 2, 3]));
}

#[test]
fn one_failed_fetch_leaves_the_next_one_alone() {
    let streams = vec![
        vec![Some(vec![1]), None, Some(vec![9])],
        vec![Some(vec![1, 2, 3])],
        vec![None],
        vec![Some(vec![4, 5, 6, 7])],
    ];
    let results: Vec<_> = streams.iter().map(|reads| collect(reads, budget(3, 0))).collect();
    assert_eq!(results[0], Err(FetchError::Transport));
    assert_eq!(results[1], Ok(vec![1, 2, 3]));
    assert_eq!(results[2], Err(FetchError::Transport));
    assert_eq!(results[3], Ok(vec![4, 5, 6]));
}
