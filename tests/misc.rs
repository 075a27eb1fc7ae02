use std::time::Duration;

use benchmark_runner::clock::{clock_str, elapsed_time_str};
use benchmark_runner::config::{dataset_config, run_config, DatasetUserConfig, DebugOptions};
use benchmark_runner::settings::{import_volume_edits, quote_licence, Edit, EditValue};
use benchmark_runner::drivers::{first_container_ready, ready_step, replicas_ready, algorithms_or_default, get_driver_config, resolve_drivers, Driver, Graphscope, Neo4j};
use benchmark_runner::providers::terraform::Root as TerraformRoot;
use benchmark_runner::providers::vagrant::Root;
use benchmark_runner::providers::{machine_name_of, provider_by_name, worker_count, Provider};
use benchmark_runner::text::{push_decimal, push_signed};
use benchmark_runner::tiers::sort_tiers;

fn pairs(v: &[(&str, &str)]) -> Vec<(String, String)> {
    v.iter().map(|(a, b)| (a.to_string(), b.to_string())).collect()
}

#[test]
fn tiers_sorted_largest_first() {
    let mut t = vec![2, 8, 4, 4, 1];
    sort_tiers(&mut t);
    assert_eq!(t, vec![8, 4, 4, 2, 1]);
    let mut e: Vec<usize> = vec![];
    sort_tiers(&mut e);
    assert!(e.is_empty());
}

#[test]
fn clock_formats() {
    assert_eq!(clock_str(0), "00:00:00");
    assert_eq!(clock_str(3661), "01:01:01");
    assert_eq!(clock_str(59 + 59 * 60 + 23 * 3600), "23:59:59");
    assert_eq!(clock_str(360_000), "100:00:00");
    assert_eq!(elapsed_time_str(&Duration::from_millis(61_999)), "00:01:01");
}

#[test]
fn decimal_writing() {
    let mut s = String::from("x=");
    push_decimal(&mut s, 1_234_567_890_123);
    assert_eq!(s, "x=1234567890123");
    let mut s = String::new();
    push_signed(&mut s, -45);
    assert_eq!(s, "-45");
}

#[test]
fn driver_registry_by_exact_name() {
    assert_eq!(get_driver_config("neo4j"), Some(Driver::Neo4j));
    assert_eq!(get_driver_config("graphscope"), Some(Driver::Graphscope));
    assert_eq!(get_driver_config("Neo4j"), None);
    assert_eq!(get_driver_config("neo4j "), None);
    assert_eq!(Driver::Neo4j.name(), "neo4j");
    assert_eq!(Graphscope.name(), "graphscope");
}

#[test]
fn neo4j_runs_two_nodes_as_three() {
    assert_eq!(Neo4j::instances(2), 3);
    assert_eq!(Neo4j::instances(4), 4);
    assert_eq!(
        Neo4j.get_platform_config(2),
        pairs(&[
            ("host", "neo-lb-neo4j"),
            ("port", "7687"),
            ("user", "neo4j"),
            ("password", "graph_benchmarks"),
            ("neo_instances", "3"),
        ])
    );
}

#[test]
fn rescaling_twice_gives_the_same_settings() {
    let keys = vec!["cpu".to_string()];
    let a = Neo4j.scale_service(5, &keys, "10.1.1.1");
    let b = Neo4j.scale_service(5, &keys, "10.1.1.1");
    assert_eq!(edits(&a.edits), edits(&b.edits));
    assert_eq!(a.extra_vars, b.extra_vars);
    assert_eq!(Neo4j.get_platform_config(5), Neo4j.get_platform_config(5));
    let a = Graphscope.scale_service(5, &keys);
    let b = Graphscope.scale_service(5, &keys);
    assert_eq!(edits(&a.edits), edits(&b.edits));
}

#[test]
fn graphscope_settings() {
    assert_eq!(
        Graphscope.get_platform_config(8080),
        pairs(&[("host", "coordinator-service-graphscope"), ("port", "8080")])
    );
    assert_eq!(Graphscope.pod_ready_label(), "graphscope.components=coordinator");
}

#[test]
fn run_configuration() {
    let c = run_config(&vec![4, 5], &vec!["bfs".to_string(), "pr".to_string()], 3);
    assert_eq!(c.ids, "4,5");
    assert_eq!(c.algos, "bfs,pr");
    assert_eq!(c.log_file, "/attached/log");
    assert_eq!(c.nodes, 3);
    let user = DatasetUserConfig { weights: true, directed: false, start_vertex: 6, skip_algos: None };
    let d = dataset_config(&"kgs".to_string(), &user);
    assert_eq!(d.vertex, "/attached/kgs.v");
    assert_eq!(d.edges, "/attached/kgs.e");
    assert_eq!(d.name, "kgs");
    assert!(d.weights && !d.directed);
    assert_eq!(d.start_vertex, 6);
}

#[test]
fn debug_defaults() {
    let d = DebugOptions::default();
    assert_eq!(d.bench_ttl, Some(0));
    assert_eq!(d.skip_join_nodes, Some(false));
}

#[test]
fn providers_and_machines() {
    assert_eq!(provider_by_name("vagrant"), Some(Provider::Vagrant));
    assert_eq!(provider_by_name("terraform"), Some(Provider::Terraform));
    assert_eq!(provider_by_name("aws"), None);
    assert_eq!(Provider::Vagrant.name(), "vagrant");
    assert_eq!(machine_name_of(0), "master");
    assert_eq!(machine_name_of(3), "worker-3");
    assert_eq!(worker_count(&vec![2, 5, 3]), 4);
}

#[test]
fn vagrant_workers_follow_largest_tier() {
    let mut settings = Root::default();
    settings.nodes.workers.cpu = 4;
    settings.apply_node_configs(&vec![3, 6, 2]);
    assert_eq!(settings.nodes.workers.count, 5);
    assert_eq!(settings.nodes.workers.cpu, 4);
}

#[test]
fn master_is_first_address_of_first_machine() {
    let mut root = TerraformRoot::default();
    assert_eq!(root.master_address(), None);
    root.ips.value = vec![vec![], vec!["10.0.0.2".to_string()]];
    assert_eq!(root.master_address(), None);
    root.ips.value = vec![vec!["10.0.0.1".to_string(), "10.0.1.1".to_string()], vec!["10.0.0.2".to_string()]];
    assert_eq!(root.master_address(), Some("10.0.0.1".to_string()));
}

#[test]
fn drivers_resolved_or_first_unknown_reported() {
    let names = vec!["neo4j".to_string(), "graphscope".to_string()];
    assert_eq!(resolve_drivers(&names), Ok(vec![Driver::Neo4j, Driver::Graphscope]));
    let names = vec!["neo4j".to_string(), "tigergraph".to_string(), "nope".to_string()];
    assert_eq!(resolve_drivers(&names), Err(1));
    assert_eq!(resolve_drivers(&vec![]), Ok(vec![]));
}

#[test]
fn algorithms_default_to_all_six() {
    assert_eq!(algorithms_or_default(None), vec!["bfs", "pr", "wcc", "cdlp", "lcc", "sssp"]);
    assert_eq!(algorithms_or_default(Some(vec!["pr".to_string()])), vec!["pr"]);
}

fn edits(e: &[Edit]) -> Vec<(String, String)> {
    e.iter()
        .map(|e| {
            let v = match &e.value {
                EditValue::FromOption(k) => format!("option {k}"),
                EditValue::Count(n) => format!("count {n}"),
                EditValue::Text(t) => format!("text {t}"),
            };
            (e.path.clone(), v)
        })
        .collect()
}

#[test]
fn graphscope_scaling_edits() {
    let plan = Graphscope.scale_service(4, &vec!["memory".to_string()]);
    assert_eq!(
        edits(&plan.edits),
        pairs(&[
            ("engines.num_workers", "count 4"),
            ("engines.gae.resources.requests.memory", "option memory"),
            ("engines.gae.resources.limits.memory", "option memory"),
            ("engines.gie.resources.requests.memory", "option memory"),
            ("engines.gie.resources.limits.memory", "option memory"),
        ])
    );
    assert_eq!(plan.targets.len(), 1);
    assert_eq!(plan.targets[0].name, "values.yaml");
    assert_eq!(plan.targets[0].without, None);
    assert!(plan.extra_vars.is_empty());
    let plan = Graphscope.scale_service(2, &vec![]);
    assert_eq!(edits(&plan.edits), pairs(&[("engines.num_workers", "count 2")]));
}

#[test]
fn neo4j_scaling_edits_and_files() {
    let keys = vec!["storage".to_string(), "cpu".to_string(), "colour".to_string()];
    let plan = Neo4j.scale_service(2, &keys, "10.0.0.9");
    assert_eq!(
        edits(&plan.edits),
        pairs(&[
            ("neo4j.resources.cpu", "option cpu"),
            ("volumes.data.dynamic.requests.storage", "option storage"),
            ("volumes.import.volumeClaimTemplate.nfs.server", "text 10.0.0.9"),
            ("neo4j.minimumClusterSize", "count 3"),
        ])
    );
    let files: Vec<(String, Option<String>)> =
        plan.targets.iter().map(|f| (f.name.clone(), f.without.clone())).collect();
    assert_eq!(
        files,
        vec![
            ("tmp/values-1.yaml".to_string(), None),
            ("tmp/values-2.yaml".to_string(), Some("volumes.import".to_string())),
            ("tmp/values-3.yaml".to_string(), Some("volumes.import".to_string())),
        ]
    );
    assert_eq!(plan.extra_vars, vec!["num_nodes=3".to_string()]);
    assert_eq!(edits(&import_volume_edits("10.0.0.9")), pairs(&[("spec.nfs.server", "text 10.0.0.9")]));
}

#[test]
fn licence_flag_quoted() {
    assert_eq!(
        quote_licence("a: 1\nacceptLicenseAgreement: yes\nacceptLicenseAgreement: yes\n"),
        "a: 1\nacceptLicenseAgreement: 'yes'\nacceptLicenseAgreement: 'yes'\n"
    );
    assert_eq!(quote_licence("acceptLicenseAgreement: no"), "acceptLicenseAgreement: no");
}

#[test]
fn readiness_counts_up_to_the_target() {
    assert_eq!(Driver::Neo4j.ready_target(2), 3);
    assert_eq!(Driver::Graphscope.ready_target(7), 1);
    assert_eq!(ready_step(0, 3, true), (1, false));
    assert_eq!(ready_step(1, 3, false), (1, false));
    assert_eq!(ready_step(2, 3, true), (3, true));
    assert_eq!(ready_step(0, 1, true), (1, true));
    assert!(first_container_ready(&vec![true, false]));
    assert!(!first_container_ready(&vec![false, true]));
    assert!(!first_container_ready(&vec![]));
    assert!(replicas_ready(Some(3), 3));
    assert!(!replicas_ready(Some(2), 3));
    assert!(!replicas_ready(None, 0));
}
