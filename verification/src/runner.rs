//! Planning the execution of a built benchmark binary.

use vstd::prelude::*;
use vstd::string::*;

use crate::builder::{parent_dir, spec_parent_dir};
use crate::cli::Cli;

verus! {

/// The harness flags that select and time the benchmarks.
pub open spec fn spec_bench_args(bench: Seq<char>, benchtime: Seq<char>) -> Seq<Seq<char>> {
    seq!["-test.bench"@, bench, "-test.benchtime"@, benchtime]
}

/// Builds the harness flags for one run.
pub fn bench_args(bench: &str, benchtime: &str) -> (r: Vec<String>)
    ensures
        r.deep_view() == spec_bench_args(bench@, benchtime@),
{
    let mut out: Vec<String> = Vec::new();
    out.push("-test.bench".to_owned());
    out.push(bench.to_owned());
    out.push("-test.benchtime".to_owned());
    out.push(benchtime.to_owned());
    proof {
        assert(out.deep_view() =~= spec_bench_args(bench@, benchtime@));
    }
    out
}

/// The directory a benchmark binary runs in: the module root two levels
/// above it, where benchmarks resolve their asset paths.
pub open spec fn spec_run_dir(binary_path: Seq<char>) -> Option<Seq<char>> {
    match spec_parent_dir(binary_path) {
        Option::None => Option::None,
        Option::Some(dir) => spec_parent_dir(dir),
    }
}

/// The working directory for running the binary at `binary_path`.
pub fn run_dir(binary_path: &str) -> (r: Option<String>)
    ensures
        r.deep_view() == spec_run_dir(binary_path@),
{
    match parent_dir(binary_path) {
        Option::None => Option::None,
        Option::Some(dir) => parent_dir(dir.as_str()),
    }
}

/// The toolchain's `test` invocation over a source overlay: the overlay
/// file, the harness flags, no ordinary tests, and the package selectors.
pub open spec fn spec_go_test_args(overlay_file: Seq<char>, cli: crate::cli::CliView) -> Seq<
    Seq<char>,
> {
    seq![
        "test"@,
        "-overlay"@,
        overlay_file,
        "-bench"@,
        cli.bench,
        "-benchtime"@,
        cli.benchtime,
        "-run=^$"@,
    ] + cli.packages
}

/// Builds the toolchain's `test` arguments for an overlay run.
pub fn go_test_args(overlay_file: &str, cli: &Cli) -> (r: Vec<String>)
    ensures
        r.deep_view() == spec_go_test_args(overlay_file@, cli@),
{
    let mut out: Vec<String> = Vec::new();
    out.push("test".to_owned());
    out.push("-overlay".to_owned());
    out.push(overlay_file.to_owned());
    out.push("-bench".to_owned());
    out.push(cli.bench.clone());
    out.push("-benchtime".to_owned());
    out.push(cli.benchtime.clone());
    out.push("-run=^$".to_owned());
    let ghost head = out.deep_view();
    proof {
        assert(head =~= seq![
            "test"@,
            "-overlay"@,
            overlay_file@,
            "-bench"@,
            cli.bench@,
            "-benchtime"@,
            cli.benchtime@,
            "-run=^$"@,
        ]);
    }
    let n: usize = cli.packages.len();
    let mut i: usize = 0;
    while i < n
        invariant
            i <= n,
            n == cli.packages@.len(),
            out.deep_view() =~= head + cli.packages.deep_view().subrange(0, i as int),
        decreases n - i,
    {
        let ghost pre = out.deep_view();
        out.push(cli.packages[i].clone());
        proof {
            assert(cli.packages.deep_view()[i as int] == cli.packages@[i as int]@);
            assert(out.deep_view() =~= pre.push(cli.packages.deep_view()[i as int]));
        }
        i += 1;
    }
    proof {
        assert(cli.packages.deep_view().subrange(0, n as int) =~= cli.packages.deep_view());
        assert(out.deep_view() =~= spec_go_test_args(overlay_file@, cli@));
    }
    out
}

} // verus!
