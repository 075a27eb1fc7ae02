use benchmark_runner::launcher::{LaunchAction, LaunchEvent, Launcher};
use benchmark_runner::plan::{benchmark_plan, Step};
use benchmark_runner::runs::{dataset_visualizations, record_runs, tier_visualization, Visualization};
use benchmark_runner::scaler::nodes_to_remove;
use benchmark_runner::sync::{Action, Event, RunSession};
use benchmark_runner::tiers::sort_tiers;

fn launch(l: &mut Launcher, occupied: bool) {
    assert_eq!(l.step(LaunchEvent::Begin), LaunchAction::DeleteConfig);
    assert_eq!(l.step(LaunchEvent::ConfigDeleted), LaunchAction::CreateConfig);
    assert_eq!(l.step(LaunchEvent::ConfigCreated(true)), LaunchAction::ClearSlot);
    if occupied {
        assert_eq!(l.step(LaunchEvent::SlotListed(Some(1))), LaunchAction::WatchSlot);
        assert_eq!(l.step(LaunchEvent::JobDeleted), LaunchAction::SubmitJob);
    } else {
        assert_eq!(l.step(LaunchEvent::SlotListed(Some(0))), LaunchAction::SubmitJob);
    }
    assert_eq!(l.step(LaunchEvent::JobSubmitted(true)), LaunchAction::Launched);
}

fn synchronize(run_ids: &[i32]) {
    let mut s = RunSession::new(run_ids.to_vec());
    for id in run_ids {
        assert_eq!(s.step(Event::Control(Some(true))), Action::StartRecording(*id));
        assert_eq!(s.step(Event::RecordingStarted), Action::Wait);
        assert_eq!(s.step(Event::Control(Some(false))), Action::StopRecording(*id));
        assert_eq!(s.step(Event::RecordingStopped), Action::Wait);
    }
    assert_eq!(s.step(Event::JobDeleted), Action::Finished);
}

#[test]
fn plan_of_two_tiers() {
    let steps = benchmark_plan(&vec![4, 2], 1, 1, 1);
    assert_eq!(
        steps,
        vec![
            Step::ScaleCluster(4),
            Step::SetUpDriver { driver: 0, nodes: 4 },
            Step::RunBatch { driver: 0, dataset: 0, nodes: 4 },
            Step::VisualizeTier { driver: 0, nodes: 4 },
            Step::RemoveDriver { driver: 0, nodes: 4 },
            Step::ScaleCluster(2),
            Step::SetUpDriver { driver: 0, nodes: 2 },
            Step::RunBatch { driver: 0, dataset: 0, nodes: 2 },
            Step::VisualizeTier { driver: 0, nodes: 2 },
            Step::RemoveDriver { driver: 0, nodes: 2 },
            Step::VisualizeDatasets,
        ]
    );
}

#[test]
fn plan_repeats_batches_per_dataset() {
    let steps = benchmark_plan(&vec![3], 2, 2, 2);
    let batches: Vec<(usize, usize)> = steps
        .iter()
        .filter_map(|s| match s {
            Step::RunBatch { driver, dataset, .. } => Some((*driver, *dataset)),
            _ => None,
        })
        .collect();
    assert_eq!(batches, vec![(0, 0), (0, 0), (0, 1), (0, 1), (1, 0), (1, 0), (1, 1), (1, 1)]);
    assert_eq!(benchmark_plan(&vec![], 2, 2, 2), vec![Step::VisualizeDatasets]);
}

#[test]
fn two_tiers_one_driver_one_dataset_two_algorithms() {
    let mut tiers = vec![2, 4];
    sort_tiers(&mut tiers);
    assert_eq!(tiers, vec![4, 2]);
    let drivers = vec!["neo4j".to_string()];
    let datasets = vec!["ds".to_string()];
    let algos = vec!["bfs".to_string(), "pr".to_string()];
    let mut cluster: Vec<String> =
        vec!["master".into(), "worker-1".into(), "worker-2".into(), "worker-3".into(), "worker-4".into()];

    let mut runs = Vec::new();
    let mut tier_visualizations: Vec<Visualization> = Vec::new();
    let mut finals: Vec<Visualization> = Vec::new();
    let mut next_id = 1;
    let mut launcher = Launcher::new();
    let mut scaled = Vec::new();
    let mut start = 0;
    for step in benchmark_plan(&tiers, drivers.len(), datasets.len(), 1) {
        match step {
            Step::ScaleCluster(n) => {
                scaled.push(n);
                let gone = nodes_to_remove(&cluster, n);
                cluster.retain(|c| !gone.contains(c));
                assert_eq!(cluster.len(), n + 1);
            }
            Step::SetUpDriver { .. } => start = runs.len(),
            Step::RunBatch { dataset, nodes, .. } => {
                let ids: Vec<i32> = (0..algos.len() as i32).map(|k| next_id + k).collect();
                next_id += algos.len() as i32;
                record_runs(&mut runs, &ids, &datasets[dataset], &algos, nodes);
                launch(&mut launcher, runs.len() > algos.len());
                synchronize(&ids);
            }
            Step::VisualizeTier { driver, nodes } => {
                tier_visualizations.push(tier_visualization(&runs, start, &drivers[driver], nodes));
            }
            Step::RemoveDriver { .. } => {}
            Step::VisualizeDatasets => finals = dataset_visualizations(&runs, &datasets),
        }
    }

    assert_eq!(scaled, vec![4, 2]);
    assert_eq!(cluster, vec!["master".to_string(), "worker-1".to_string(), "worker-2".to_string()]);
    assert_eq!(runs.len(), 4);
    assert_eq!(tier_visualizations.len(), 2);
    assert_eq!(tier_visualizations[0].job_name, "neo4j-4");
    assert_eq!(tier_visualizations[0].run_ids, vec![1, 2]);
    assert_eq!(tier_visualizations[1].job_name, "neo4j-2");
    assert_eq!(tier_visualizations[1].run_ids, vec![3, 4]);
    assert_eq!(finals.len(), 1);
    assert_eq!(finals[0].run_ids, vec![1, 2, 3, 4]);
}
