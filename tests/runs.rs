use benchmark_runner::runs::{
    dataset_job_name, dataset_visualizations, join_ids, join_names, record_runs, run_ids_for_dataset,
    run_ids_from, tier_visualization, GraphType, Run,
};

fn run(ds: &str, id: i32) -> Run {
    Run { dataset: ds.to_string(), algorithm: "bfs".to_string(), nodes: 4, run_id: id }
}

#[test]
fn dataset_selection_picks_its_runs() {
    let runs = vec![run("A", 1), run("B", 2), run("A", 3)];
    assert_eq!(run_ids_for_dataset(&runs, &"A".to_string()), vec![1, 3]);
    assert_eq!(run_ids_for_dataset(&runs, &"B".to_string()), vec![2]);
    assert_eq!(run_ids_for_dataset(&runs, &"C".to_string()), Vec::<i32>::new());
}

#[test]
fn run_ids_are_tagged_with_the_tier() {
    let mut runs = Vec::new();
    let algos = vec!["bfs".to_string(), "pr".to_string(), "wcc".to_string()];
    record_runs(&mut runs, &vec![5, 6, 7], &"ds".to_string(), &algos, 4);
    assert_eq!(runs.len(), 3);
    assert!(runs.iter().all(|r| r.nodes == 4 && r.dataset == "ds"));
    assert_eq!(runs.iter().map(|r| r.run_id).collect::<Vec<_>>(), vec![5, 6, 7]);
    assert_eq!(runs.iter().map(|r| r.algorithm.clone()).collect::<Vec<_>>(), algos);
}

#[test]
fn record_runs_pairs_in_step() {
    let mut runs = vec![run("x", 1)];
    record_runs(&mut runs, &vec![8, 9, 10], &"y".to_string(), &vec!["pr".to_string()], 2);
    assert_eq!(runs.len(), 2);
    assert_eq!(runs[1].run_id, 8);
    assert_eq!(runs[1].algorithm, "pr");
}

#[test]
fn slice_from_start() {
    let runs = vec![run("A", 1), run("B", 2), run("A", 3)];
    assert_eq!(run_ids_from(&runs, 1), vec![2, 3]);
    assert_eq!(run_ids_from(&runs, 3), Vec::<i32>::new());
}

#[test]
fn ids_and_names_joined() {
    assert_eq!(join_ids(&vec![1, 22, -3]), "1,22,-3");
    assert_eq!(join_ids(&vec![]), "");
    assert_eq!(join_ids(&vec![i32::MIN]), "-2147483648");
    assert_eq!(join_names(&vec!["bfs".to_string(), "pr".to_string()]), "bfs,pr");
    assert_eq!(join_names(&vec![]), "");
}

#[test]
fn tier_visualization_named_after_driver_and_tier() {
    let runs = vec![run("A", 1), run("B", 2), run("A", 3)];
    let v = tier_visualization(&runs, 1, "neo4j", 12);
    assert_eq!(v.job_name, "neo4j-12");
    assert_eq!(v.run_ids, vec![2, 3]);
    assert_eq!(v.graph_type, GraphType::Bars);
    assert_eq!(v.graph_type.name(), "bars");
    assert_eq!(GraphType::Lines.name(), "lines");
}

#[test]
fn dataset_job_name_drops_first_bad_character() {
    assert_eq!(dataset_job_name("my_data_set"), "mydata_set");
    assert_eq!(dataset_job_name("Abc"), "bc");
    assert_eq!(dataset_job_name("ok-name-1"), "ok-name-1");
    assert_eq!(dataset_job_name("é1"), "1");
}

#[test]
fn one_line_visualization_per_dataset() {
    let runs = vec![run("a_1", 1), run("b", 2), run("a_1", 3)];
    let vs = dataset_visualizations(&runs, &vec!["a_1".to_string(), "b".to_string()]);
    assert_eq!(vs.len(), 2);
    assert_eq!(vs[0].job_name, "a1");
    assert_eq!(vs[0].run_ids, vec![1, 3]);
    assert_eq!(vs[0].graph_type, GraphType::Lines);
    assert_eq!(vs[1].job_name, "b");
    assert_eq!(vs[1].run_ids, vec![2]);
}
