use benchmark_runner::scaler::{node_rank, nodes_to_remove, removal_order};

fn names(v: &[&str]) -> Vec<String> {
    v.iter().map(|s| s.to_string()).collect()
}

#[test]
fn removes_highest_workers_and_never_master() {
    let nodes = names(&["master", "worker-1", "worker-2", "worker-3", "worker-4", "worker-5"]);
    assert_eq!(nodes_to_remove(&nodes, 3), names(&["worker-5", "worker-4"]));
}

#[test]
fn listing_order_does_not_change_the_choice() {
    let nodes = names(&["worker-4", "master", "worker-5", "worker-1", "worker-3", "worker-2"]);
    assert_eq!(nodes_to_remove(&nodes, 3), names(&["worker-5", "worker-4"]));
}

#[test]
fn no_removal_at_or_below_target() {
    let nodes = names(&["master", "worker-1", "worker-2"]);
    assert!(nodes_to_remove(&nodes, 2).is_empty());
    assert!(nodes_to_remove(&nodes, 3).is_empty());
    assert!(nodes_to_remove(&nodes, 5).is_empty());
    assert!(nodes_to_remove(&Vec::new(), 0).is_empty());
}

#[test]
fn numeric_not_lexical_order() {
    let nodes = names(&["master", "worker-9", "worker-10", "worker-2"]);
    assert_eq!(nodes_to_remove(&nodes, 1), names(&["worker-10", "worker-9"]));
}

#[test]
fn unnumbered_nodes_are_never_removed() {
    let nodes = names(&["master", "control", "worker-1", "worker-2"]);
    assert_eq!(nodes_to_remove(&nodes, 0), names(&["worker-2", "worker-1"]));
}

#[test]
fn equal_numbers_leave_later_listed_first() {
    let nodes = names(&["worker-3", "master", "worker-3", "worker-1"]);
    assert_eq!(nodes_to_remove(&nodes, 1), names(&["worker-3", "worker-3"]));
    assert_eq!(removal_order(&vec![3, -1, 3, 1], 1), vec![2, 0]);
}

#[test]
fn rank_of_names() {
    assert_eq!(node_rank("worker-7"), 7);
    assert_eq!(node_rank("worker-0"), 0);
    assert_eq!(node_rank("worker-2147483647"), 2147483647);
    assert_eq!(node_rank("worker-2147483648"), -1);
    assert_eq!(node_rank("worker-"), -1);
    assert_eq!(node_rank("worker-1a"), -1);
    assert_eq!(node_rank("master"), -1);
    assert_eq!(node_rank("Worker-3"), -1);
}

#[test]
fn removal_order_ties_break_by_position() {
    assert_eq!(removal_order(&vec![3, -1, 3, 5], 1), vec![3, 2]);
    assert_eq!(removal_order(&vec![3, -1, 3, 5], 0), vec![3, 2, 0]);
    assert_eq!(removal_order(&vec![1, 2], 2), Vec::<usize>::new());
}
