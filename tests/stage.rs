use factorio::stage::{
    assemble_by_index, filter_item, fork_all, fork_join_item, run_filter, run_filter_map,
    run_fork_join, run_forward, run_map, Outlet, SendOutcome,
};

#[test]
fn forward_keeps_items_in_order() {
    assert_eq!(run_forward(vec![3, 1, 2, 1]), vec![3, 1, 2, 1]);
    assert_eq!(run_forward(Vec::<u32>::new()), Vec::<u32>::new());
}

#[test]
fn map_adds_one() {
    assert_eq!(run_map(&|v: u32| v + 1, vec![5]), vec![6]);
}

#[test]
fn map_keeps_input_order() {
    assert_eq!(
        run_map(&|v: u32| v * 10, vec![3, 1, 2]),
        vec![30, 10, 20]
    );
}

#[test]
fn filter_keeps_even_items_in_order() {
    assert_eq!(
        run_filter(&|v: &u32| v % 2 == 0, vec![5, 6, 4, 1, 8]),
        vec![6, 4, 8]
    );
}

#[test]
fn filter_item_passes_or_drops() {
    assert_eq!(filter_item(&|v: &u32| *v > 3, 4), Some(4));
    assert_eq!(filter_item(&|v: &u32| *v > 3, 3), None);
}

#[test]
fn fork_join_sums_worker_results() {
    assert_eq!(
        run_fork_join(
            &|v: &u32, _id: usize| v + 1,
            2,
            &|rs: Vec<u32>| rs.iter().sum::<u32>(),
            vec![5]
        ),
        vec![12]
    );
}

#[test]
fn fork_join_hands_results_in_worker_order() {
    let seen = fork_join_item(&|v: &u32, id: usize| v + id as u32 + 1, 4, &|rs: Vec<u32>| rs, &5);
    assert_eq!(seen, vec![6, 7, 8, 9]);
    assert_eq!(fork_all(&|v: &u32, id: usize| v * id as u32, &3, 3), vec![0, 3, 6]);
}

#[test]
fn assemble_ignores_completion_order() {
    // Worker 1 finishes last.
    let done = vec![(0, 6), (2, 8), (3, 9), (1, 7)];
    assert_eq!(assemble_by_index(4, done), Some(vec![6, 7, 8, 9]));
}

#[test]
fn assemble_rejects_incomplete_rounds() {
    assert_eq!(assemble_by_index(3, vec![(0, 'a'), (1, 'b')]), None);
    assert_eq!(assemble_by_index(2, vec![(0, 'a'), (0, 'b')]), None);
    assert_eq!(assemble_by_index(2, vec![(0, 'a'), (2, 'b')]), None);
    assert_eq!(assemble_by_index(0, Vec::<(usize, char)>::new()), Some(vec![]));
}

#[test]
fn filter_map_then_map_then_filter() {
    let texts = run_filter_map(
        &|v: u32| if v >= 10 { Some(v.to_string()) } else { None },
        vec![5, 16, 4, 123],
    );
    assert_eq!(texts, vec!["16".to_string(), "123".to_string()]);
    let lengths = run_map(&|s: String| s.len(), texts);
    assert_eq!(run_filter(&|n: &usize| *n > 2, lengths), vec![3]);
}

#[test]
fn outlet_stops_after_disconnect() {
    let mut outlet = Outlet::new();
    assert!(outlet.should_send());
    outlet.record(SendOutcome::Delivered);
    outlet.record(SendOutcome::Delivered);
    assert!(outlet.should_send());
    outlet.record(SendOutcome::Disconnected);
    assert!(!outlet.should_send());
    outlet.record(SendOutcome::Delivered);
    assert!(!outlet.should_send());
}
