use codspeed_go_runner::runner::{bench_args, go_test_args, run_dir};
use codspeed_go_runner::cli::Cli;
use codspeed_go_runner::text::{lower_str, replace_all, sort_strings, trim, u64_to_dec};
use codspeed_go_runner::utils::{fill_overlay_template, get_git_relative_path};

#[test]
fn test_run_dir_is_module_root() {
    assert_eq!(
        run_dir("/stage/pkg/codspeed/runner.bin"),
        Some("/stage/pkg".to_string())
    );
    assert_eq!(run_dir("runner.bin"), None);
}

#[test]
fn test_go_test_args() {
    let cli = Cli {
        bench: "BenchmarkFoo".to_string(),
        benchtime: "1x".to_string(),
        packages: vec!["./foo".to_string(), "./bar".to_string()],
        dry_run: false,
    };
    let args = go_test_args("/tmp/overlay.json", &cli);
    assert_eq!(
        args,
        vec![
            "test",
            "-overlay",
            "/tmp/overlay.json",
            "-bench",
            "BenchmarkFoo",
            "-benchtime",
            "1x",
            "-run=^$",
            "./foo",
            "./bar",
        ]
    );
    assert_eq!(
        bench_args(".", "3s"),
        vec!["-test.bench", ".", "-test.benchtime", "3s"]
    );
}

#[test]
fn test_get_git_relative_path() {
    assert_eq!(
        get_git_relative_path("/repo/sub/pkg", Some("/repo")),
        "sub/pkg"
    );
    assert_eq!(get_git_relative_path("/repo", Some("/repo")), "");
    assert_eq!(get_git_relative_path("/elsewhere/pkg", None), "/elsewhere/pkg");
}

#[test]
fn test_fill_overlay_template() {
    let content = "dir=@@INSTRUMENT_HOOKS_DIR@@ profile=@@CODSPEED_PROFILE_DIR@@ v=@@GO_RUNNER_VERSION@@ v=@@GO_RUNNER_VERSION@@";
    assert_eq!(
        fill_overlay_template(content, "/hooks", "/profile", "9.9"),
        "dir=/hooks profile=/profile v=9.9 v=9.9"
    );
}

// The lowercase pass goes through the character collector, so a result
// equal to its input here would mean the collector dropped its work.
#[test]
fn test_lower_str() {
    assert_eq!(lower_str("BenchmarkFib20"), "benchmarkfib20");
    assert_eq!(lower_str("mixed_Case-1"), "mixed_case-1");
}

#[test]
fn test_u64_to_dec() {
    assert_eq!(u64_to_dec(0), "0");
    assert_eq!(u64_to_dec(42), "42");
    assert_eq!(u64_to_dec(18446744073709551615), "18446744073709551615");
}

#[test]
fn test_sort_strings_stable() {
    let v = vec![
        "b_test.go".to_string(),
        "a_test.go".to_string(),
        "c_test.go".to_string(),
    ];
    assert_eq!(
        sort_strings(&v),
        vec![
            "a_test.go".to_string(),
            "b_test.go".to_string(),
            "c_test.go".to_string()
        ]
    );
}

#[test]
fn test_replace_all_and_trim() {
    assert_eq!(replace_all("a_test.go_test.go", "_test.go", "_codspeed.go"), "a_codspeed.go_codspeed.go");
    assert_eq!(replace_all("aaa", "aa", "b"), "ba");
    assert_eq!(trim("  spaced\t\n"), "spaced");
}
