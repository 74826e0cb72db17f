use codspeed_go_runner::discovery::GoBenchmark;
use codspeed_go_runner::templater::{
    json_escape, plan_file_moves, render_metadata, render_runner, runner_rel_path,
};

// The rendered runner registers each benchmark under its alias, in order,
// and is byte-identical across runs.
#[test]
fn test_render_runner() {
    let benches = vec![
        GoBenchmark::new(
            "local.dev/example".to_string(),
            "BenchmarkFib".to_string(),
            "fib_test.go".to_string(),
            false,
        ),
        GoBenchmark::new(
            "local.dev/example".to_string(),
            "BenchmarkFib20".to_string(),
            "fib_test.go".to_string(),
            false,
        ),
    ];
    let rendered = render_runner(&benches);
    assert!(rendered.starts_with("package main\n"));
    assert!(rendered.contains("codspeed \"github.com/CodSpeedHQ/codspeed-go/testing\""));
    assert!(rendered.contains(&format!(
        "\t{} \"local.dev/example\"\n",
        benches[0].import_alias
    )));
    assert!(rendered.contains(&format!(
        "\t\t{{\"{0}\", {0}}},\n",
        benches[0].qualified_name
    )));
    assert!(rendered.contains(&format!(
        "\t\t{{\"{0}\", {0}}},\n",
        benches[1].qualified_name
    )));
    // Registrations come in benchmark order.
    let first = rendered.find(&benches[0].qualified_name).unwrap();
    let second = rendered.find(&benches[1].qualified_name).unwrap();
    assert!(first < second);

    let again = render_runner(&benches);
    assert_eq!(rendered, again);
}

#[test]
fn test_render_metadata() {
    let rendered = render_metadata("/tmp/profile", "pkg/foo");
    assert_eq!(
        rendered,
        "{\n  \"profile_folder\": \"/tmp/profile\",\n  \"relative_package_path\": \"pkg/foo\"\n}"
    );
}

#[test]
fn test_json_escape() {
    assert_eq!(json_escape("plain"), "plain");
    assert_eq!(json_escape("a\"b"), "a\\\"b");
    assert_eq!(json_escape("a\\b"), "a\\\\b");
    assert_eq!(json_escape("a\nb\tc"), "a\\nb\\tc");
    assert_eq!(json_escape("\u{1}"), "\\u0001");
}

// Internal test files are renamed in place; external test files move into
// the `codspeed/` subdirectory, so that their `package main` clause can be
// built without clashing with the package under test.
#[test]
fn test_plan_file_moves() {
    let files = vec!["foo_test.go".to_string(), "helper_test.go".to_string()];

    let internal = plan_file_moves(&files, false);
    assert_eq!(
        internal,
        vec![
            ("foo_test.go".to_string(), "foo_codspeed.go".to_string()),
            ("helper_test.go".to_string(), "helper_codspeed.go".to_string()),
        ]
    );

    let external = plan_file_moves(&files, true);
    assert_eq!(
        external,
        vec![
            (
                "foo_test.go".to_string(),
                "codspeed/foo_codspeed.go".to_string()
            ),
            (
                "helper_test.go".to_string(),
                "codspeed/helper_codspeed.go".to_string()
            ),
        ]
    );

    assert_eq!(runner_rel_path(), "codspeed/runner.go");
}
