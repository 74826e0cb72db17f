//! Planning the compiler invocation for a runner, and reading the compiler's
//! error output for the one failure shape that gets a structured report: a
//! benchmark handing its harness parameter to ordinary `testing` code.

use vstd::prelude::*;
use vstd::string::*;

use crate::text::{
    char_find_from, digit_run_end, is_digit_spec, is_word_char_spec, last_char_index, match_at,
    occurs_at, replace_all, replace_all_spec, rfind_char, run_end_from, split_lines,
    split_lines_spec, starts_with, starts_with_spec, strip_dir, strip_dir_spec, trim, trim_spec,
    word_run_end,
};

verus! {

/// A structured build failure.
#[derive(Debug, Clone)]
pub enum BuildError {
    /// A benchmark passes its harness parameter where the standard library's
    /// `testing` types are expected, which the custom runtime cannot satisfy.
    TestingTBUsage { package: String, file_line: String, function: String },
}

/// The wording of a structured build failure.
pub open spec fn spec_build_error_message(e: BuildError) -> Seq<char> {
    match e {
        BuildError::TestingTBUsage { package, file_line, function } => "Function "@ + function@
            + " in '"@ + file_line@ + "' ('"@ + package@
            + "') is using testing.TB which is not supported because CodSpeed uses a custom 'testing' package. Please modify the file to not use 'testing.TB' or contact support if you need help."@,
    }
}

impl BuildError {
    /// A human-readable account of the failure.
    pub fn message(&self) -> (r: String)
        ensures
            r@ == spec_build_error_message(*self),
    {
        match self {
            BuildError::TestingTBUsage { package, file_line, function } => {
                let mut out: String = "Function ".to_owned();
                out.append(function.as_str());
                out.append(" in '");
                out.append(file_line.as_str());
                out.append("' ('");
                out.append(package.as_str());
                out.append(
                    "') is using testing.TB which is not supported because CodSpeed uses a custom 'testing' package. Please modify the file to not use 'testing.TB' or contact support if you need help.",
                );
                out
            },
        }
    }
}

/// What one compiler diagnostic line yields: the reported file name, the
/// line number and the function the harness parameter was handed to. The
/// line must read `./<file>:<line>:<col>: cannot use <id> (variable of type
/// *codspeed.B) as <testing type> value in argument to <function>`, where
/// the testing type is `*"testing".B` or `"testing".TB`.
pub open spec fn spec_parse_error_line(line: Seq<char>) -> Option<
    (Seq<char>, Seq<char>, Seq<char>),
> {
    let n = line.len() as int;
    if !starts_with_spec(line, "./"@) {
        Option::None
    } else {
        let f_end = run_end_from(line, 2, (|x: char| x != ':'));
        if f_end == 2 || f_end >= n {
            Option::None
        } else {
            let ln_end = run_end_from(line, f_end + 1, (|c: char| is_digit_spec(c)));
            if ln_end == f_end + 1 || ln_end >= n || line[ln_end] != ':' {
                Option::None
            } else {
                let col_end = run_end_from(line, ln_end + 1, (|c: char| is_digit_spec(c)));
                if col_end == ln_end + 1 || !occurs_at(line, ": cannot use "@, col_end) {
                    Option::None
                } else {
                    let id_start = col_end + ": cannot use "@.len();
                    let id_end = run_end_from(line, id_start as int, (|c: char| is_word_char_spec(c)));
                    if id_end == id_start || !occurs_at(
                        line,
                        " (variable of type *codspeed.B) as "@,
                        id_end,
                    ) {
                        Option::None
                    } else {
                        let ty_start = id_end + " (variable of type *codspeed.B) as "@.len();
                        let ty_len: int = if occurs_at(line, "*\"testing\".B"@, ty_start as int) {
                            "*\"testing\".B"@.len() as int
                        } else if occurs_at(line, "\"testing\".TB"@, ty_start as int) {
                            "\"testing\".TB"@.len() as int
                        } else {
                            -1
                        };
                        if ty_len < 0 || !occurs_at(
                            line,
                            " value in argument to "@,
                            ty_start + ty_len,
                        ) {
                            Option::None
                        } else {
                            let fun_start = ty_start + ty_len + " value in argument to "@.len();
                            let fun_end = run_end_from(
                                line,
                                fun_start as int,
                                (|c: char| is_word_char_spec(c)),
                            );
                            if fun_end == fun_start {
                                Option::None
                            } else {
                                Option::Some(
                                    (
                                        line.subrange(2, f_end),
                                        line.subrange(f_end + 1, ln_end),
                                        line.subrange(fun_start as int, fun_end),
                                    ),
                                )
                            }
                        }
                    }
                }
            }
        }
    }
}

/// Whether the literal `lit` occurs in `s` at `i`, with the bounds checked.
fn occurs_here(s: &str, lit: &str, i: usize) -> (r: bool)
    requires
        i <= s@.len(),
    ensures
        r == occurs_at(s@, lit@, i as int),
{
    let n: usize = s.unicode_len();
    let m: usize = lit.unicode_len();
    if m <= n - i {
        match_at(s, lit, i)
    } else {
        false
    }
}

/// Reads one compiler diagnostic line; `None` when it has another shape.
pub fn parse_error_line(line: &str) -> (r: Option<(String, String, String)>)
    ensures
        match r {
            Option::Some(parts) => spec_parse_error_line(line@) == Option::Some(
                (parts.0@, parts.1@, parts.2@),
            ),
            Option::None => spec_parse_error_line(line@) is None,
        },
{
    let n: usize = line.unicode_len();
    if !starts_with(line, "./") {
        return Option::None;
    }
    proof {
        reveal_strlit("./");
    }
    let f_end: usize = char_find_from(line, 2, ':');
    proof {
        crate::text::lemma_run_end_from(line@, 2, (|x: char| x != ':'));
    }
    if f_end == 2 || f_end >= n {
        return Option::None;
    }
    let ln_end: usize = digit_run_end(line, f_end + 1);
    proof {
        crate::text::lemma_run_end_from(line@, f_end + 1, (|c: char| is_digit_spec(c)));
    }
    if ln_end == f_end + 1 || ln_end >= n || line.get_char(ln_end) != ':' {
        return Option::None;
    }
    let col_end: usize = digit_run_end(line, ln_end + 1);
    proof {
        crate::text::lemma_run_end_from(line@, ln_end + 1, (|c: char| is_digit_spec(c)));
    }
    if col_end == ln_end + 1 || !occurs_here(line, ": cannot use ", col_end) {
        return Option::None;
    }
    proof {
        reveal_strlit(": cannot use ");
    }
    let id_start: usize = col_end + 13;
    proof {
        assert(": cannot use "@.len() == 13);
    }
    let id_end: usize = word_run_end(line, id_start);
    proof {
        crate::text::lemma_run_end_from(line@, id_start as int, (|c: char| is_word_char_spec(c)));
    }
    if id_end == id_start || !occurs_here(line, " (variable of type *codspeed.B) as ", id_end) {
        return Option::None;
    }
    proof {
        reveal_strlit(" (variable of type *codspeed.B) as ");
    }
    let ty_start: usize = id_end + 35;
    proof {
        assert(" (variable of type *codspeed.B) as "@.len() == 35);
    }
    let ty_len: usize = if occurs_here(line, "*\"testing\".B", ty_start) {
        proof {
            reveal_strlit("*\"testing\".B");
        }
        12
    } else if occurs_here(line, "\"testing\".TB", ty_start) {
        proof {
            reveal_strlit("*\"testing\".B");
            reveal_strlit("\"testing\".TB");
        }
        12
    } else {
        return Option::None;
    };
    if !occurs_here(line, " value in argument to ", ty_start + ty_len) {
        return Option::None;
    }
    proof {
        reveal_strlit(" value in argument to ");
    }
    let fun_start: usize = ty_start + ty_len + 22;
    proof {
        assert(" value in argument to "@.len() == 22);
    }
    let fun_end: usize = word_run_end(line, fun_start);
    proof {
        crate::text::lemma_run_end_from(line@, fun_start as int, (|c: char| is_word_char_spec(c)));
    }
    if fun_end == fun_start {
        return Option::None;
    }
    Option::Some(
        (
            line.substring_char(2, f_end).to_owned(),
            line.substring_char(f_end + 1, ln_end).to_owned(),
            line.substring_char(fun_start, fun_end).to_owned(),
        ),
    )
}

/// The package a compiler paragraph reports: a trimmed line of the shape
/// `# <package>`.
pub open spec fn spec_package_line(t: Seq<char>) -> Option<Seq<char>> {
    if starts_with_spec(t, "# "@) && t.len() > 2 {
        Option::Some(t.subrange(2, t.len() as int))
    } else {
        Option::None
    }
}

/// The scan of the compiler's error lines from line `i` on: at each `#
/// <package>` line, the next line is read as a diagnostic; the first
/// diagnostic that parses yields `(package, <file>:<line>, function)`, with
/// the staged file name mapped back to the user's `_test.go` name.
pub open spec fn spec_scan_stderr(lines: Seq<Seq<char>>, i: int) -> Option<
    (Seq<char>, Seq<char>, Seq<char>),
>
    decreases lines.len() - i,
{
    if i < 0 || i >= lines.len() {
        Option::None
    } else {
        match spec_package_line(trim_spec(lines[i])) {
            Option::None => spec_scan_stderr(lines, i + 1),
            Option::Some(pkg) => {
                if i + 1 >= lines.len() {
                    Option::None
                } else {
                    match spec_parse_error_line(trim_spec(lines[i + 1])) {
                        Option::Some(parts) => Option::Some(
                            (
                                pkg,
                                replace_all_spec(parts.0, "_codspeed.go"@, "_test.go"@) + ":"@
                                    + parts.1,
                                parts.2,
                            ),
                        ),
                        Option::None => spec_scan_stderr(lines, i + 2),
                    }
                }
            },
        }
    }
}

/// What reading the whole compiler error output yields.
pub open spec fn spec_parse_testing_type_error(stderr: Seq<char>) -> Option<
    (Seq<char>, Seq<char>, Seq<char>),
> {
    spec_scan_stderr(split_lines_spec(stderr), 0)
}

/// Reads the compiler's error output for the known harness-misuse shape.
/// Returns `(package, <file>:<line>, function)` when found.
pub fn parse_testing_type_error(stderr: &str) -> (r: Option<(String, String, String)>)
    ensures
        match r {
            Option::Some(parts) => spec_parse_testing_type_error(stderr@) == Option::Some(
                (parts.0@, parts.1@, parts.2@),
            ),
            Option::None => spec_parse_testing_type_error(stderr@) is None,
        },
{
    let lines: Vec<String> = split_lines(stderr);
    let ghost lines_v = lines.deep_view();
    let n: usize = lines.len();
    let mut i: usize = 0;
    while i < n
        invariant
            i <= n,
            n == lines@.len(),
            lines_v == lines.deep_view(),
            lines_v == split_lines_spec(stderr@),
            lines_v.len() == lines@.len(),
            spec_scan_stderr(lines_v, 0) == spec_scan_stderr(lines_v, i as int),
        decreases n - i,
    {
        proof {
            assert(lines_v[i as int] == lines@[i as int]@);
        }
        let t: String = trim(lines[i].as_str());
        let t_len: usize = t.as_str().unicode_len();
        if starts_with(t.as_str(), "# ") && t_len > 2 {
            proof {
                reveal_strlit("# ");
                assert(spec_package_line(t@) == Option::Some(t@.subrange(2, t@.len() as int)));
            }
            let pkg: String = t.as_str().substring_char(2, t_len).to_owned();
            if i + 1 >= n {
                proof {
                    assert(spec_scan_stderr(lines_v, i as int) is None);
                }
                return Option::None;
            }
            proof {
                assert(lines_v[i + 1] == lines@[i + 1]@);
            }
            let t2: String = trim(lines[i + 1].as_str());
            match parse_error_line(t2.as_str()) {
                Option::Some(parts) => {
                    let (fname, line_no, function) = parts;
                    let mut file_line: String = replace_all(
                        fname.as_str(),
                        "_codspeed.go",
                        "_test.go",
                    );
                    file_line.append(":");
                    file_line.append(line_no.as_str());
                    proof {
                        reveal_strlit(":");
                        assert(t2@ == trim_spec(lines_v[i + 1]));
                        assert(spec_scan_stderr(lines_v, i as int) == Option::Some(
                            (
                                pkg@,
                                replace_all_spec(fname@, "_codspeed.go"@, "_test.go"@) + ":"@
                                    + line_no@,
                                function@,
                            ),
                        ));
                        assert(file_line@ == replace_all_spec(fname@, "_codspeed.go"@, "_test.go"@)
                            + ":"@ + line_no@);
                    }
                    return Option::Some((pkg, file_line, function));
                },
                Option::None => {
                    i += 2;
                },
            }
        } else {
            proof {
                if starts_with_spec(t@, "# "@) {
                    reveal_strlit("# ");
                    assert(t@.len() > 2 || t_len <= 2);
                }
            }
            i += 1;
        }
    }
    Option::None
}

/// The directory part of a path: what precedes its last separator.
pub open spec fn spec_parent_dir(p: Seq<char>) -> Option<Seq<char>> {
    let k = last_char_index(p, '/');
    if k == -1 {
        Option::None
    } else {
        Option::Some(p.subrange(0, k))
    }
}

/// The directory part of a path, `None` for a bare file name.
pub fn parent_dir(p: &str) -> (r: Option<String>)
    ensures
        r.deep_view() == spec_parent_dir(p@),
{
    match rfind_char(p, '/') {
        Option::Some(k) => Option::Some(p.substring_char(0, k).to_owned()),
        Option::None => Option::None,
    }
}

/// The path with its extension replaced by `bin`: the part of the file name
/// after its last dot, or `.bin` appended when the name has no extension.
pub open spec fn spec_with_bin_extension(p: Seq<char>) -> Seq<char> {
    let slash = last_char_index(p, '/');
    let dot = last_char_index(p, '.');
    if dot > slash + 1 {
        p.subrange(0, dot) + ".bin"@
    } else {
        p + ".bin"@
    }
}

pub fn with_bin_extension(p: &str) -> (r: String)
    ensures
        r@ == spec_with_bin_extension(p@),
{
    let slash: Option<usize> = rfind_char(p, '/');
    let dot: Option<usize> = rfind_char(p, '.');
    let cut: Option<usize> = match (dot, slash) {
        (Option::Some(d), Option::Some(s_)) => if d > s_ && d - s_ > 1 {
            Option::Some(d)
        } else {
            Option::None
        },
        (Option::Some(d), Option::None) => if d > 0 {
            Option::Some(d)
        } else {
            Option::None
        },
        (Option::None, _) => Option::None,
    };
    match cut {
        Option::Some(d) => {
            let mut out: String = p.substring_char(0, d).to_owned();
            out.append(".bin");
            out
        },
        Option::None => {
            let mut out: String = p.to_owned();
            out.append(".bin");
            out
        },
    }
}

/// The linker flags that stamp the orchestrator's version into the runtime.
pub open spec fn spec_ldflags(version: Seq<char>) -> Seq<char> {
    "-X github.com/CodSpeedHQ/codspeed-go/testing/capi.integrationVersion="@ + version
        + " -s=false -w=false"@
}

/// Everything a compiler invocation for one runner needs: where to run it,
/// where the binary lands, and the argument list.
pub struct BuildPlan {
    /// The module root the compiler runs in.
    pub module_root: String,
    /// Where the built binary is placed.
    pub binary_path: String,
    /// The compiler's arguments.
    pub args: Vec<String>,
}

#[verifier::ext_equal]
pub ghost struct BuildPlanView {
    pub module_root: Seq<char>,
    pub binary_path: Seq<char>,
    pub args: Seq<Seq<char>>,
}

impl View for BuildPlan {
    type V = BuildPlanView;

    open spec fn view(&self) -> BuildPlanView {
        BuildPlanView {
            module_root: self.module_root@,
            binary_path: self.binary_path@,
            args: self.args.deep_view(),
        }
    }
}

/// The build plan for a runner source at `runner_go_path`: the compiler runs
/// in the module root (two levels up), with the custom runtime's build tag,
/// the version stamped into the linker flags, the output beside the runner,
/// and the runner's directory as a `./`-relative source argument.
pub open spec fn spec_build_plan(runner: Seq<char>, version: Seq<char>) -> Option<BuildPlanView> {
    match spec_parent_dir(runner) {
        Option::None => Option::None,
        Option::Some(file_dir) => match spec_parent_dir(file_dir) {
            Option::None => Option::None,
            Option::Some(module_root) => match strip_dir_spec(file_dir, module_root) {
                Option::None => Option::None,
                Option::Some(rel) => Option::Some(
                    BuildPlanView {
                        module_root,
                        binary_path: spec_with_bin_extension(runner),
                        args: seq![
                            "build"@,
                            "-mod=mod"@,
                            "-tags=codspeed"@,
                            "-ldflags"@,
                            spec_ldflags(version),
                            "-o"@,
                            spec_with_bin_extension(runner),
                            "./"@ + rel,
                        ],
                    },
                ),
            },
        },
    }
}

/// Plans the compiler invocation for the runner at `runner_go_path`.
pub fn build_plan(runner_go_path: &str, version: &str) -> (r: Option<BuildPlan>)
    ensures
        match r {
            Option::Some(plan) => spec_build_plan(runner_go_path@, version@) == Option::Some(
                plan@,
            ),
            Option::None => spec_build_plan(runner_go_path@, version@) is None,
        },
{
    let file_dir: String = match parent_dir(runner_go_path) {
        Option::Some(d) => d,
        Option::None => {
            return Option::None;
        },
    };
    let module_root: String = match parent_dir(file_dir.as_str()) {
        Option::Some(d) => d,
        Option::None => {
            return Option::None;
        },
    };
    let rel: String = match strip_dir(file_dir.as_str(), module_root.as_str()) {
        Option::Some(rel) => rel,
        Option::None => {
            return Option::None;
        },
    };
    let binary_path: String = with_bin_extension(runner_go_path);
    let mut ldflags: String =
        "-X github.com/CodSpeedHQ/codspeed-go/testing/capi.integrationVersion=".to_owned();
    ldflags.append(version);
    ldflags.append(" -s=false -w=false");
    let mut dot_slash: String = "./".to_owned();
    dot_slash.append(rel.as_str());
    let mut args: Vec<String> = Vec::new();
    args.push("build".to_owned());
    args.push("-mod=mod".to_owned());
    args.push("-tags=codspeed".to_owned());
    args.push("-ldflags".to_owned());
    args.push(ldflags);
    args.push("-o".to_owned());
    args.push(binary_path.clone());
    args.push(dot_slash);
    let plan = BuildPlan { module_root, binary_path, args };
    proof {
        assert(plan@.args =~= spec_build_plan(runner_go_path@, version@)->Some_0.args);
        assert(plan@ =~= spec_build_plan(runner_go_path@, version@)->Some_0);
    }
    Option::Some(plan)
}

} // verus!
