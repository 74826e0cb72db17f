use codspeed_go_runner::results::{
    collect_walltime_results, render_results_json, results_file_name, RawResult,
    WalltimeBenchmark,
};

fn raw(name: &str, pid: u32, times: Vec<u64>, iters: Vec<u64>) -> RawResult {
    RawResult {
        name: name.to_string(),
        uri: format!("pkg/foo/foo_test.go::{name}"),
        pid,
        codspeed_time_per_round_ns: times,
        codspeed_iters_per_round: iters,
    }
}

// Aggregation keeps every sample, in round order.
#[test]
fn test_aggregate_keeps_samples_in_order() {
    let b = WalltimeBenchmark::from_runtime_data(
        "BenchmarkFoo".to_string(),
        "foo_test.go::BenchmarkFoo".to_string(),
        &vec![1, 2, 4],
        &vec![1000, 2000, 4000],
    );
    assert_eq!(b.samples, vec![1000, 1000, 1000]);
    assert_eq!(b.stats.count, 3);
    assert_eq!(b.stats.mean_ns, 1000);
    assert_eq!(b.stats.min_ns, 1000);
    assert_eq!(b.stats.max_ns, 1000);
}

#[test]
fn test_aggregate_stats() {
    let b = WalltimeBenchmark::from_runtime_data(
        "BenchmarkFoo".to_string(),
        "u".to_string(),
        &vec![1, 1, 1],
        &vec![10, 30, 20],
    );
    assert_eq!(b.samples, vec![10, 30, 20]);
    assert_eq!(b.stats.count, 3);
    assert_eq!(b.stats.mean_ns, 20);
    assert_eq!(b.stats.min_ns, 10);
    assert_eq!(b.stats.max_ns, 30);
}

// An empty iteration list counts as one iteration per round: the sample
// count equals the number of rounds and each sample is the round's time.
#[test]
fn test_empty_iters_one_per_round() {
    let b = WalltimeBenchmark::from_runtime_data(
        "BenchmarkFoo".to_string(),
        "u".to_string(),
        &vec![],
        &vec![5, 7, 9],
    );
    assert_eq!(b.samples, vec![5, 7, 9]);
    assert_eq!(b.stats.count, 3);
}

// Three raw files under one pid and two under another: exactly two result
// records, with three and two benchmarks, each carrying its own pid.
#[test]
fn test_two_pids_two_result_files() {
    let raws = vec![
        raw("BenchmarkA", 100, vec![10], vec![1]),
        raw("BenchmarkB", 100, vec![20], vec![1]),
        raw("BenchmarkC", 200, vec![30], vec![1]),
        raw("BenchmarkD", 100, vec![40], vec![1]),
        raw("BenchmarkE", 200, vec![50], vec![1]),
    ];
    let results = collect_walltime_results(&raws, "1.0.0");
    assert_eq!(results.len(), 2);
    assert_eq!(results[0].creator.pid, 100);
    assert_eq!(results[0].creator.name, "codspeed-go");
    assert_eq!(results[0].creator.version, "1.0.0");
    assert_eq!(results[0].benchmarks.len(), 3);
    assert_eq!(results[1].creator.pid, 200);
    assert_eq!(results[1].benchmarks.len(), 2);
    assert_eq!(results_file_name(results[0].creator.pid), "100.json");
    assert_eq!(results_file_name(results[1].creator.pid), "200.json");
}

// The counts in one pid's results sum to the rounds of that pid's raw
// files.
#[test]
fn test_counts_sum_per_pid() {
    let raws = vec![
        raw("BenchmarkA", 1, vec![1, 2, 3], vec![]),
        raw("BenchmarkB", 1, vec![4, 5], vec![1, 1]),
        raw("BenchmarkC", 2, vec![6], vec![1]),
    ];
    let results = collect_walltime_results(&raws, "0.1.0");
    let total_pid1: u64 = results[0].benchmarks.iter().map(|b| b.stats.count).sum();
    assert_eq!(total_pid1, 5);
    let total_pid2: u64 = results[1].benchmarks.iter().map(|b| b.stats.count).sum();
    assert_eq!(total_pid2, 1);
}

// The rendered results file is the exact JSON the downstream pipeline
// reads.
#[test]
fn test_render_results_json() {
    let raws = vec![raw("BenchmarkA", 7, vec![10, 30], vec![1, 1])];
    let results = collect_walltime_results(&raws, "2.0.0");
    let json = render_results_json(&results[0]);
    assert_eq!(
        json,
        "{\"creator\":{\"name\":\"codspeed-go\",\"version\":\"2.0.0\",\"pid\":7},\"benchmarks\":[{\"metadata\":{\"name\":\"BenchmarkA\",\"uri\":\"pkg/foo/foo_test.go::BenchmarkA\"},\"samples\":[10,30],\"stats\":{\"count\":2,\"mean_ns\":20,\"min_ns\":10,\"max_ns\":30}}]}"
    );
}

// String fields are escaped on the way into the JSON.
#[test]
fn test_render_results_json_escapes() {
    let raws = vec![RawResult {
        name: "Benchmark\"Quote\\Back".to_string(),
        uri: "line\nbreak".to_string(),
        pid: 1,
        codspeed_time_per_round_ns: vec![5],
        codspeed_iters_per_round: vec![1],
    }];
    let results = collect_walltime_results(&raws, "0.0.1");
    let json = render_results_json(&results[0]);
    assert!(json.contains("Benchmark\\\"Quote\\\\Back"));
    assert!(json.contains("line\\nbreak"));
}
