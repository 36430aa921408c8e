use katana_bench::benchmark::BenchmarkMetrics;
use katana_bench::duration::Duration;
use katana_bench::result::{
    render_report, BenchmarkResult, Change, Changes, ResultsStorage, StorageAction, StorageFile,
};
use std::collections::BTreeMap;
use std::path::PathBuf;

fn storage() -> ResultsStorage {
    ResultsStorage::new(PathBuf::from("benchmark_results"))
}

fn save(files: &mut BTreeMap<&'static str, String>, json: &str) {
    let exists = files.contains_key(StorageFile::Latest.file_name());
    for action in storage().save_result(exists, json.to_string()) {
        match action {
            StorageAction::Copy { from, to } => {
                let contents = files[from.file_name()].clone();
                files.insert(to.file_name(), contents);
            }
            StorageAction::Write { file, contents } => {
                files.insert(file.file_name(), contents);
            }
        }
    }
}

#[test]
fn storage_files_have_their_names() {
    assert_eq!(StorageFile::Latest.file_name(), "latest_benchmark.json");
    assert_eq!(StorageFile::Previous.file_name(), "previous_benchmark.json");
    assert_eq!(*storage().storage_path(), PathBuf::from("benchmark_results"));
}

#[test]
fn saving_keeps_the_run_before() {
    let mut files = BTreeMap::new();
    save(&mut files, "one");
    assert_eq!(files.get("latest_benchmark.json").unwrap(), "one");
    assert_eq!(files.get("previous_benchmark.json"), None);
    save(&mut files, "two");
    assert_eq!(files.get("latest_benchmark.json").unwrap(), "two");
    assert_eq!(files.get("previous_benchmark.json").unwrap(), "one");
    save(&mut files, "three");
    assert_eq!(files.get("latest_benchmark.json").unwrap(), "three");
    assert_eq!(files.get("previous_benchmark.json").unwrap(), "two");
}

#[test]
fn saving_copies_before_it_writes() {
    assert_eq!(
        storage().save_result(true, "new".to_string()),
        vec![
            StorageAction::Copy { from: StorageFile::Latest, to: StorageFile::Previous },
            StorageAction::Write { file: StorageFile::Latest, contents: "new".to_string() },
        ]
    );
    assert_eq!(
        storage().save_result(false, "new".to_string()),
        vec![StorageAction::Write { file: StorageFile::Latest, contents: "new".to_string() }]
    );
}

#[test]
fn previous_is_read_where_it_exists() {
    assert_eq!(storage().load_previous(true), Some(StorageFile::Previous));
    assert_eq!(storage().load_previous(false), None);
}

#[test]
fn report_without_a_previous_run() {
    let metrics = BenchmarkMetrics::new(
        4,
        &Duration::from_millis(10),
        &Duration::new(1, 500_000_000).unwrap(),
    );
    let report = storage().generate_comparison_report(
        &BenchmarkResult { metrics },
        &format!("{:.2}", 4.0 / 1.5),
        &None,
    );
    assert_eq!(
        report,
        "\nBenchmark Report:\n========================\n\nTPS: 2.67\nAvg Latency: 2.5ms\n\
         Total Duration: 1.5s\n\nNo previous benchmark data available for comparison.\n"
    );
}

#[test]
fn report_with_a_previous_run() {
    let metrics = BenchmarkMetrics::new(
        1,
        &Duration::new(0, 1500).unwrap(),
        &Duration::new(3, 0).unwrap(),
    );
    let changes = Changes {
        tps: Change { percent: "12.50".to_string(), increase: true },
        latency: Change { percent: "3.00".to_string(), increase: false },
    };
    let report = storage().generate_comparison_report(
        &BenchmarkResult { metrics },
        "0.33",
        &Some(changes),
    );
    assert_eq!(
        report,
        "\nBenchmark Report:\n========================\n\nTPS: 0.33\nAvg Latency: 1.5\u{b5}s\n\
         Total Duration: 3s\n\nChanges:\nTPS: 12.50% increase\nLatency: 3.00% decrease\n"
    );
}

#[test]
fn report_is_rendered_from_its_texts() {
    let changes = Changes {
        tps: Change { percent: "a".to_string(), increase: false },
        latency: Change { percent: "b".to_string(), increase: true },
    };
    assert_eq!(
        render_report("x", "y", "z", &Some(changes)),
        "\nBenchmark Report:\n========================\n\nTPS: x\nAvg Latency: y\n\
         Total Duration: z\n\nChanges:\nTPS: a% decrease\nLatency: b% increase\n"
    );
}
