use codspeed_go_runner::cli::{Cli, CliExit};

fn str_to_iter(cmd: &str) -> Result<Cli, CliExit> {
    let args: Vec<String> = if cmd.trim().is_empty() {
        Vec::new()
    } else {
        cmd.split_whitespace()
            .map(|s| s.to_string())
            .skip(1)
            .collect()
    };
    Cli::parse_args(&args)
}

#[test]
fn test_cli_parse_defaults() {
    let cli = str_to_iter("go-runner test").unwrap();
    assert_eq!(cli.bench, ".");
    assert_eq!(cli.benchtime, Cli::default().benchtime);
    assert_eq!(cli.packages, Cli::default().packages);
}

#[test]
fn test_cli_parse_with_bench_flag() {
    let cli = str_to_iter("go-runner test -bench Test").unwrap();
    assert_eq!(cli.bench, "Test");

    let cli = str_to_iter("go-runner test -bench=BenchmarkFoo").unwrap();
    assert_eq!(cli.bench, "BenchmarkFoo");
}

#[test]
fn test_cli_parse_with_benchtime_flag() {
    let cli = str_to_iter("go-runner test -benchtime 3s").unwrap();
    assert_eq!(cli.benchtime, "3s".to_string());

    let cli = str_to_iter("go-runner test -benchtime=10x").unwrap();
    assert_eq!(cli.benchtime, "10x".to_string());
}

#[test]
fn test_cli_parse_with_packages() {
    let cli = str_to_iter("go-runner test package1 package2").unwrap();
    assert_eq!(cli.bench, ".");
    assert_eq!(
        cli.packages,
        vec!["package1".to_string(), "package2".to_string()]
    );
}

#[test]
fn test_cli_parse_combined_flags() {
    let cli = str_to_iter("go-runner test -bench=BenchmarkFoo -benchtime 5s ./pkg").unwrap();
    assert_eq!(cli.bench, "BenchmarkFoo");
    assert_eq!(cli.benchtime, "5s".to_string());
    assert_eq!(cli.packages, vec!["./pkg".to_string()]);
}

#[test]
fn test_cli_parse_help_flag() {
    let result = str_to_iter("go-runner test -h");
    assert!(matches!(result, Err(CliExit::Help)));

    let result = str_to_iter("go-runner test --help");
    assert!(matches!(result, Err(CliExit::Help)));
}

#[test]
fn test_cli_parse_version_flag() {
    let result = str_to_iter("go-runner test -V");
    assert!(matches!(result, Err(CliExit::Version)));

    let result = str_to_iter("go-runner test --version");
    assert!(matches!(result, Err(CliExit::Version)));
}

#[test]
fn test_cli_parse_invalid() {
    let result = str_to_iter("go-runner test -bench");
    assert!(matches!(result, Err(CliExit::MissingArgument)));

    let result = str_to_iter("go-runner test -benchtime");
    assert!(matches!(result, Err(CliExit::MissingArgument)));

    // Unknown flags generate warnings but don't cause errors
    let result = str_to_iter("go-runner test -unknown");
    assert!(result.is_ok());
}

#[test]
fn test_cli_parse_dry_run_flag() {
    let cli = str_to_iter("go-runner test --dry-run").unwrap();
    assert!(cli.dry_run);

    let cli = str_to_iter("go-runner test").unwrap();
    assert!(!cli.dry_run);
}

#[test]
fn test_cli_parse_dry_run_with_other_flags() {
    let cli = str_to_iter("go-runner test --dry-run -bench=BenchmarkFoo -benchtime 5s").unwrap();
    assert!(cli.dry_run);
    assert_eq!(cli.bench, "BenchmarkFoo");
    assert_eq!(cli.benchtime, "5s");
}

#[test]
fn test_cli_parse_dry_run_with_packages() {
    let cli = str_to_iter("go-runner test --dry-run ./pkg1 ./pkg2").unwrap();
    assert!(cli.dry_run);
    assert_eq!(
        cli.packages,
        vec!["./pkg1".to_string(), "./pkg2".to_string()]
    );
}
