use codspeed_go_runner::discovery::{
    BenchmarkPackage, DiscoveryError, FileSource, GoBenchmark, GoModule, GoPackage,
    PackageInput, repair_list_output,
};
use codspeed_go_runner::runner::bench_args;

fn module() -> GoModule {
    GoModule {
        path: "local.dev/example".to_string(),
        dir: "/repo/example".to_string(),
        go_mod: "/repo/example/go.mod".to_string(),
        version: "1.21".to_string(),
        main: true,
    }
}

fn test_package(name: &str, bench_file: &str, source: &str) -> PackageInput {
    let package = GoPackage {
        dir: format!("/repo/example/{name}"),
        name: name.to_string(),
        import_path: format!(
            "local.dev/example/{name} [local.dev/example/{name}.test]"
        ),
        go_files: Some(vec![format!("{name}.go"), bench_file.to_string()]),
        test_go_files: Some(vec![bench_file.to_string()]),
        imports: Some(vec!["fmt".to_string()]),
        test_imports: Some(vec!["testing".to_string()]),
        compiled_go_files: None,
        for_test: None,
        module: module(),
    };
    let files = vec![FileSource {
        name: bench_file.to_string(),
        content: Some(source.to_string()),
    }];
    PackageInput { package, files }
}

fn qualified_names(packages: &[BenchmarkPackage]) -> Vec<String> {
    packages
        .iter()
        .flat_map(|p| p.benchmarks.iter().map(|b| b.qualified_name.clone()))
        .collect()
}

const FOO_SRC: &str = "package foo\n\nimport \"testing\"\n\nfunc BenchmarkFoo2(b *testing.B) {}\n\nfunc BenchmarkFoo1(b *testing.B) {}\n";
const BAR_SRC: &str = "package bar\n\nimport \"testing\"\n\nfunc BenchmarkBar1(b *testing.B) {}\n\nfunc BenchmarkBar2(b *testing.B) {}\n";

// Discovery over the one selected package yields only that package's
// benchmarks, and the run arguments select only the requested pattern.
#[test]
fn test_pkg_arg_filters_correctly() {
    let inputs = vec![test_package("bar", "bar_test.go", BAR_SRC)];
    let packages = BenchmarkPackage::from_project(inputs);
    assert_eq!(packages.len(), 1);

    let names = qualified_names(&packages);
    assert!(names.iter().any(|n| n.ends_with(".BenchmarkBar1")));
    assert!(!names.iter().any(|n| n.contains("BenchmarkFoo1")));
    assert!(!names.iter().any(|n| n.contains("BenchmarkFoo2")));

    let args = bench_args("BenchmarkBar1", "1x");
    assert_eq!(args, vec!["-test.bench", "BenchmarkBar1", "-test.benchtime", "1x"]);
}

// Discovery over every package yields all benchmarks of the project.
#[test]
fn test_pkg_arg_all_packages() {
    let inputs = vec![
        test_package("foo", "foo_test.go", FOO_SRC),
        test_package("bar", "bar_test.go", BAR_SRC),
    ];
    let packages = BenchmarkPackage::from_project(inputs);
    assert_eq!(packages.len(), 2);

    let names = qualified_names(&packages);
    assert!(names.iter().any(|n| n.ends_with(".BenchmarkFoo1")));
    assert!(names.iter().any(|n| n.ends_with(".BenchmarkFoo2")));
    assert!(names.iter().any(|n| n.ends_with(".BenchmarkBar1")));
    assert!(names.iter().any(|n| n.ends_with(".BenchmarkBar2")));
}

// Naming the two packages explicitly yields both packages' benchmarks.
#[test]
fn test_pkg_arg_multiple_packages() {
    let inputs = vec![
        test_package("foo", "foo_test.go", FOO_SRC),
        test_package("bar", "bar_test.go", BAR_SRC),
    ];
    let packages = BenchmarkPackage::from_project(inputs);

    let names = qualified_names(&packages);
    assert!(names.iter().any(|n| n.ends_with(".BenchmarkFoo1")));
    assert!(names.iter().any(|n| n.ends_with(".BenchmarkFoo2")));
    assert!(names.iter().any(|n| n.ends_with(".BenchmarkBar1")));
    assert!(names.iter().any(|n| n.ends_with(".BenchmarkBar2")));
}

// Packages come out sorted by import path, files and benchmarks by name,
// and every discovered package keeps the `.test]` import-path suffix.
#[test]
fn test_discovery_ordering_and_filters() {
    let inputs = vec![
        test_package("foo", "foo_test.go", FOO_SRC),
        test_package("bar", "bar_test.go", BAR_SRC),
    ];
    let packages = BenchmarkPackage::from_project(inputs);
    assert_eq!(packages.len(), 2);
    assert_eq!(packages[0].raw_package.name, "bar");
    assert_eq!(packages[1].raw_package.name, "foo");
    for p in &packages {
        assert!(p.raw_package.import_path.ends_with(".test]"));
        assert!(!p.benchmarks.is_empty());
        for b in &p.benchmarks {
            assert!(b.name.starts_with("Benchmark"));
            assert!(b.file_path.ends_with("_test.go"));
        }
    }
    // Benchmarks inside one file come out sorted by name even when the
    // source declares them in another order.
    let foo_names: Vec<&str> = packages[1].benchmarks.iter().map(|b| b.name.as_str()).collect();
    assert_eq!(foo_names, vec!["BenchmarkFoo1", "BenchmarkFoo2"]);
}

// A package whose test file declares no Benchmark* function is skipped,
// not an error.
#[test]
fn test_package_without_benchmarks_skipped() {
    let src = "package quiet\n\nimport \"testing\"\n\nfunc TestOnly(t *testing.T) {}\n";
    let inputs = vec![
        test_package("quiet", "quiet_test.go", src),
        test_package("bar", "bar_test.go", BAR_SRC),
    ];
    let packages = BenchmarkPackage::from_project(inputs);
    assert_eq!(packages.len(), 1);
    assert_eq!(packages[0].raw_package.name, "bar");
}

// A test file that does not parse is skipped; the package survives on its
// other files.
#[test]
fn test_unparsable_file_skipped() {
    let mut input = test_package("bar", "bar_test.go", BAR_SRC);
    input.package.test_go_files = Some(vec![
        "bar_test.go".to_string(),
        "broken_test.go".to_string(),
    ]);
    input.files.push(FileSource {
        name: "broken_test.go".to_string(),
        content: Some("package bar\n\nfunc Benchmark(".to_string()),
    });
    let packages = BenchmarkPackage::from_project(vec![input]);
    assert_eq!(packages.len(), 1);
    assert_eq!(packages[0].benchmarks.len(), 2);
}

// Discovery on the same input twice yields identical ordered output.
#[test]
fn test_discovery_deterministic() {
    let make = || {
        vec![
            test_package("foo", "foo_test.go", FOO_SRC),
            test_package("bar", "bar_test.go", BAR_SRC),
        ]
    };
    let first = BenchmarkPackage::from_project(make());
    let second = BenchmarkPackage::from_project(make());
    assert_eq!(qualified_names(&first), qualified_names(&second));
    let aliases_first: Vec<String> = first
        .iter()
        .flat_map(|p| p.benchmarks.iter().map(|b| b.import_alias.clone()))
        .collect();
    let aliases_second: Vec<String> = second
        .iter()
        .flat_map(|p| p.benchmarks.iter().map(|b| b.import_alias.clone()))
        .collect();
    assert_eq!(aliases_first, aliases_second);
}

// One package with two benchmarks: both aliases carry the lower-cased
// function name and the same package hash.
#[test]
fn test_two_benchmarks_share_package_hash() {
    let src = "package example\n\nimport \"testing\"\n\nfunc BenchmarkFib(b *testing.B) {}\n\nfunc BenchmarkFib20(b *testing.B) {}\n";
    let mut input = test_package("example", "fib_test.go", src);
    input.package.dir = "/repo/example".to_string();
    let packages = BenchmarkPackage::from_project(vec![input]);
    assert_eq!(packages.len(), 1);
    let benches = &packages[0].benchmarks;
    assert_eq!(benches.len(), 2);
    assert_eq!(benches[0].name, "BenchmarkFib");
    assert_eq!(benches[1].name, "BenchmarkFib20");
    assert!(benches[0].import_alias.starts_with("benchmarkfib_"));
    assert!(benches[1].import_alias.starts_with("benchmarkfib20_"));
    let hash0 = benches[0].import_alias.rsplit('_').next().unwrap();
    let hash1 = benches[1].import_alias.rsplit('_').next().unwrap();
    assert_eq!(hash0, hash1);
    assert_eq!(
        benches[0].qualified_name,
        format!("{}.BenchmarkFib", benches[0].import_alias)
    );
    assert_eq!(benches[0].file_path, "fib_test.go");
}

// The alias of a benchmark is a function of its name and owning package
// alone; packages with different import paths get different hashes here.
#[test]
fn test_alias_stability_across_packages() {
    let a = GoBenchmark::new(
        "local.dev/example/a".to_string(),
        "BenchmarkX".to_string(),
        "a/x_test.go".to_string(),
        false,
    );
    let a2 = GoBenchmark::new(
        "local.dev/example/a".to_string(),
        "BenchmarkX".to_string(),
        "a/x_test.go".to_string(),
        false,
    );
    let b = GoBenchmark::new(
        "local.dev/example/b".to_string(),
        "BenchmarkX".to_string(),
        "b/x_test.go".to_string(),
        false,
    );
    assert_eq!(a.import_alias, a2.import_alias);
    assert_ne!(a.import_alias, b.import_alias);
}

// An external test package reads its files from the regular partition and
// its import path from the package under test.
#[test]
fn test_external_test_package_discovery() {
    let src = "package foo_test\n\nimport \"testing\"\n\nfunc BenchmarkExternal(b *testing.B) {}\n";
    let package = GoPackage {
        dir: "/repo/example/foo".to_string(),
        name: "foo_test".to_string(),
        import_path: "local.dev/example/foo_test [local.dev/example/foo.test]".to_string(),
        go_files: Some(vec!["foo_test.go".to_string()]),
        test_go_files: None,
        imports: Some(vec!["testing".to_string()]),
        test_imports: None,
        compiled_go_files: None,
        for_test: Some("local.dev/example/foo".to_string()),
        module: module(),
    };
    assert!(package.is_external_test_package());
    assert_eq!(package.test_files(), Some(&vec!["foo_test.go".to_string()]));
    assert_eq!(
        package.package_import_path().unwrap(),
        "local.dev/example/foo"
    );
    let files = vec![FileSource {
        name: "foo_test.go".to_string(),
        content: Some(src.to_string()),
    }];
    let packages = BenchmarkPackage::from_project(vec![PackageInput { package, files }]);
    assert_eq!(packages.len(), 1);
    let b = &packages[0].benchmarks[0];
    assert!(b.is_external);
    assert_eq!(b.package_path, "local.dev/example/foo");
}

// The bracketed annotation is cut from an ordinary package's import path.
#[test]
fn test_package_import_path_strips_annotation() {
    let input = test_package("bar", "bar_test.go", BAR_SRC);
    assert_eq!(
        input.package.package_import_path().unwrap(),
        "local.dev/example/bar"
    );
}

// Each way a package's benchmarks can fail to extract: a missing back
// reference on an external test package, an unreadable test file, and a
// test file outside the module directory.
#[test]
fn test_discovery_error_variants() {
    let mut external = test_package("foo_test", "foo_test.go", "package foo_test\n");
    external.package.for_test = None;
    assert_eq!(
        external.package.package_import_path(),
        Err(DiscoveryError::MissingForTest)
    );
    assert!(matches!(
        external.package.benchmarks(external.files),
        Err(DiscoveryError::MissingForTest)
    ));

    let unreadable = test_package("bar", "bar_test.go", BAR_SRC);
    let files = vec![FileSource {
        name: "bar_test.go".to_string(),
        content: None,
    }];
    assert!(matches!(
        unreadable.package.benchmarks(files),
        Err(DiscoveryError::FileUnreadable)
    ));

    let mut outside = test_package("bar", "bar_test.go", BAR_SRC);
    outside.package.dir = "/elsewhere/bar".to_string();
    assert!(matches!(
        outside.package.benchmarks(outside.files),
        Err(DiscoveryError::FileOutsideModule)
    ));
}

// A package whose file list fails drops out of discovery without failing
// the run.
#[test]
fn test_failing_package_skipped_in_discovery() {
    let bad_files = vec![FileSource {
        name: "bar_test.go".to_string(),
        content: None,
    }];
    let mut bad = test_package("bar", "bar_test.go", BAR_SRC);
    bad.files = bad_files;
    let good = test_package("foo", "foo_test.go", FOO_SRC);
    let packages = BenchmarkPackage::from_project(vec![bad, good]);
    assert_eq!(packages.len(), 1);
    assert_eq!(packages[0].raw_package.name, "foo");
}

// The toolchain's concatenated-object output becomes one JSON array.
#[test]
fn test_repair_list_output() {
    let raw = "{\n  \"Name\": \"a\"\n}\n{\n  \"Name\": \"b\"\n}\n";
    assert_eq!(
        repair_list_output(raw),
        "[{  \"Name\": \"a\"},{  \"Name\": \"b\"}]"
    );
    assert_eq!(repair_list_output(""), "[]");
}
