use codspeed_go_runner::builder::{build_plan, parse_error_line, parse_testing_type_error, with_bin_extension};

#[test]
fn test_parse_testing_type_error_basic() {
    let stderr = r#"
# example
./fib_codspeed.go:11:14: cannot use b (variable of type *codspeed.B) as *"testing".B value in argument to Whatever
"#;

    let result = parse_testing_type_error(stderr);
    assert_eq!(
        result,
        Some((
            "example".to_string(),
            "fib_test.go:11".to_string(),
            "Whatever".to_string()
        ))
    );
}

#[test]
fn test_parse_testing_type_error_with_package() {
    let stderr = r#"
# go.opentelemetry.io/otel/internal/global
./benchmark_codspeed.go:14:15: cannot use b (variable of type *codspeed.B) as "testing".TB value in argument to ResetForTest: *codspeed.B does not implement "testing".TB (unexported method private)
"#;

    let result = parse_testing_type_error(stderr);
    assert_eq!(
        result,
        Some((
            "go.opentelemetry.io/otel/internal/global".to_string(),
            "benchmark_test.go:14".to_string(),
            "ResetForTest".to_string()
        ))
    );
}

#[test]
fn test_parse_testing_type_error_none_on_other_output() {
    let stderr = "# example\nsome unrelated diagnostic\n";
    assert_eq!(parse_testing_type_error(stderr), None);

    let stderr = "ordinary build output without a package header\n";
    assert_eq!(parse_testing_type_error(stderr), None);
}

#[test]
fn test_parse_error_line_rejects_near_misses() {
    // No `./` prefix.
    let line = "fib_codspeed.go:11:14: cannot use b (variable of type *codspeed.B) as *\"testing\".B value in argument to Whatever";
    assert_eq!(parse_error_line(line), None);

    // A different testing type.
    let line = "./fib_codspeed.go:11:14: cannot use b (variable of type *codspeed.B) as \"testing\".M value in argument to Whatever";
    assert_eq!(parse_error_line(line), None);

    // A line number that is not a number.
    let line = "./fib_codspeed.go:x:14: cannot use b (variable of type *codspeed.B) as *\"testing\".B value in argument to Whatever";
    assert_eq!(parse_error_line(line), None);
}

// The error a failing benchmark surfaces names the user's own test file,
// never the staged `_codspeed` copy.
#[test]
fn test_error_has_test_filename() {
    let stderr = "# errorpkg\n./error_codspeed.go:7:10: cannot use b (variable of type *codspeed.B) as *\"testing\".B value in argument to helper\n";
    let (package, file_line, function) = parse_testing_type_error(stderr).unwrap();
    assert_eq!(package, "errorpkg");
    assert!(file_line.contains("error_test.go"));
    assert!(!file_line.contains("error_codspeed.go"));
    assert_eq!(file_line, "error_test.go:7");
    assert_eq!(function, "helper");
}

#[test]
fn test_build_plan_shape() {
    let plan = build_plan("/tmp/stage/pkg/codspeed/runner.go", "3.2.1").unwrap();
    assert_eq!(plan.module_root, "/tmp/stage/pkg");
    assert_eq!(plan.binary_path, "/tmp/stage/pkg/codspeed/runner.bin");
    assert_eq!(
        plan.args,
        vec![
            "build".to_string(),
            "-mod=mod".to_string(),
            "-tags=codspeed".to_string(),
            "-ldflags".to_string(),
            "-X github.com/CodSpeedHQ/codspeed-go/testing/capi.integrationVersion=3.2.1 -s=false -w=false"
                .to_string(),
            "-o".to_string(),
            "/tmp/stage/pkg/codspeed/runner.bin".to_string(),
            "./codspeed".to_string(),
        ]
    );
}

#[test]
fn test_with_bin_extension() {
    assert_eq!(with_bin_extension("/a/b/runner.go"), "/a/b/runner.bin");
    assert_eq!(with_bin_extension("/a/b/runner"), "/a/b/runner.bin");
    assert_eq!(with_bin_extension("/a/b.dir/runner"), "/a/b.dir/runner.bin");
}
