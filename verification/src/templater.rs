//! Rendering the per-package runner source and the run metadata file, and
//! routing test files for the staged build.
//!
//! The rendered text is a function of the ordered benchmark list alone, so a
//! run over the same discovery output stages byte-identical sources.

use vstd::prelude::*;
use vstd::string::*;

use crate::discovery::{GoBenchmark, GoBenchmarkView};
use crate::text::{chars_to_string, replace_all, replace_all_spec, to_chars};

verus! {

/// One import line of the runner: the benchmark's owning package under its
/// deterministic alias.
pub open spec fn spec_runner_import_line(b: GoBenchmarkView) -> Seq<char> {
    "\t"@ + b.import_alias + " \""@ + b.package_path + "\"\n"@
}

/// The import lines for the benchmarks, in order.
pub open spec fn spec_runner_imports(benches: Seq<GoBenchmarkView>) -> Seq<char>
    decreases benches.len(),
{
    if benches.len() == 0 {
        Seq::empty()
    } else {
        spec_runner_imports(benches.drop_last()) + spec_runner_import_line(benches.last())
    }
}

/// One registration line: the qualified name as the benchmark's reported
/// name, and as the function reference.
pub open spec fn spec_runner_registration_line(b: GoBenchmarkView) -> Seq<char> {
    "\t\t{\""@ + b.qualified_name + "\", "@ + b.qualified_name + "},\n"@
}

/// The registration lines for the benchmarks, in order.
pub open spec fn spec_runner_registrations(benches: Seq<GoBenchmarkView>) -> Seq<char>
    decreases benches.len(),
{
    if benches.len() == 0 {
        Seq::empty()
    } else {
        spec_runner_registrations(benches.drop_last()) + spec_runner_registration_line(
            benches.last(),
        )
    }
}

/// The full runner source: the custom runtime's entry package, one aliased
/// import per benchmark, and a `main` that registers every benchmark by its
/// qualified name.
pub open spec fn spec_render_runner(benches: Seq<GoBenchmarkView>) -> Seq<char> {
    "package main\n\nimport (\n\tcodspeed \"github.com/CodSpeedHQ/codspeed-go/testing\"\n"@
        + spec_runner_imports(benches)
        + ")\n\nfunc main() {\n\tcodspeed.RunBenchmarks([]codspeed.Benchmark{\n"@
        + spec_runner_registrations(benches) + "\t})\n}\n"@
}

/// Renders the runner source for the benchmarks, in their given order.
pub fn render_runner(benches: &Vec<GoBenchmark>) -> (r: String)
    ensures
        r@ == spec_render_runner(benches.deep_view()),
{
    let ghost benches_v = benches.deep_view();
    let mut imports: String =
        "package main\n\nimport (\n\tcodspeed \"github.com/CodSpeedHQ/codspeed-go/testing\"\n".to_owned();
    let n: usize = benches.len();
    let mut i: usize = 0;
    while i < n
        invariant
            i <= n,
            n == benches@.len(),
            benches_v == benches.deep_view(),
            benches_v.len() == benches@.len(),
            imports@ ==
                "package main\n\nimport (\n\tcodspeed \"github.com/CodSpeedHQ/codspeed-go/testing\"\n"@
                + spec_runner_imports(benches_v.subrange(0, i as int)),
        decreases n - i,
    {
        proof {
            assert(benches_v[i as int] == benches@[i as int]@);
            assert(benches_v.subrange(0, i + 1).drop_last() =~= benches_v.subrange(0, i as int));
            assert(benches_v.subrange(0, i + 1).last() == benches_v[i as int]);
        }
        imports.append("\t");
        imports.append(benches[i].import_alias.as_str());
        imports.append(" \"");
        imports.append(benches[i].package_path.as_str());
        imports.append("\"\n");
        i += 1;
    }
    proof {
        assert(benches_v.subrange(0, n as int) =~= benches_v);
    }
    let mut out: String = imports;
    out.append(")\n\nfunc main() {\n\tcodspeed.RunBenchmarks([]codspeed.Benchmark{\n");
    let mut j: usize = 0;
    while j < n
        invariant
            j <= n,
            n == benches@.len(),
            benches_v == benches.deep_view(),
            benches_v.len() == benches@.len(),
            out@ ==
                "package main\n\nimport (\n\tcodspeed \"github.com/CodSpeedHQ/codspeed-go/testing\"\n"@
                + spec_runner_imports(benches_v)
                + ")\n\nfunc main() {\n\tcodspeed.RunBenchmarks([]codspeed.Benchmark{\n"@
                + spec_runner_registrations(benches_v.subrange(0, j as int)),
        decreases n - j,
    {
        proof {
            assert(benches_v[j as int] == benches@[j as int]@);
            assert(benches_v.subrange(0, j + 1).drop_last() =~= benches_v.subrange(0, j as int));
            assert(benches_v.subrange(0, j + 1).last() == benches_v[j as int]);
        }
        out.append("\t\t{\"");
        out.append(benches[j].qualified_name.as_str());
        out.append("\", ");
        out.append(benches[j].qualified_name.as_str());
        out.append("},\n");
        j += 1;
    }
    proof {
        assert(benches_v.subrange(0, n as int) =~= benches_v);
    }
    out.append("\t})\n}\n");
    out
}

/// The hexadecimal digit character for `d`.
pub open spec fn hex_digit(d: int) -> char {
    if d == 0 { '0' } else if d == 1 { '1' } else if d == 2 { '2' }
    else if d == 3 { '3' } else if d == 4 { '4' } else if d == 5 { '5' }
    else if d == 6 { '6' } else if d == 7 { '7' } else if d == 8 { '8' }
    else if d == 9 { '9' } else if d == 10 { 'a' } else if d == 11 { 'b' }
    else if d == 12 { 'c' } else if d == 13 { 'd' } else if d == 14 { 'e' }
    else { 'f' }
}

fn hex_digit_exec(d: u32) -> (r: char)
    requires
        d < 16,
    ensures
        r == hex_digit(d as int),
{
    if d == 0 { '0' } else if d == 1 { '1' } else if d == 2 { '2' }
    else if d == 3 { '3' } else if d == 4 { '4' } else if d == 5 { '5' }
    else if d == 6 { '6' } else if d == 7 { '7' } else if d == 8 { '8' }
    else if d == 9 { '9' } else if d == 10 { 'a' } else if d == 11 { 'b' }
    else if d == 12 { 'c' } else if d == 13 { 'd' } else if d == 14 { 'e' }
    else { 'f' }
}

/// The JSON escape of one character inside a string literal.
pub open spec fn spec_json_escape_char(c: char) -> Seq<char> {
    if c == '"' {
        seq!['\\', '"']
    } else if c == '\\' {
        seq!['\\', '\\']
    } else if c == '\n' {
        seq!['\\', 'n']
    } else if c == '\r' {
        seq!['\\', 'r']
    } else if c == '\t' {
        seq!['\\', 't']
    } else if (c as u32) < 32 {
        seq!['\\', 'u', '0', '0', hex_digit((c as u32) as int / 16), hex_digit((c as u32) as int % 16)]
    } else {
        seq![c]
    }
}

/// The JSON escape of a whole string, character by character.
pub open spec fn spec_json_escape(s: Seq<char>) -> Seq<char>
    decreases s.len(),
{
    if s.len() == 0 {
        Seq::empty()
    } else {
        spec_json_escape(s.drop_last()) + spec_json_escape_char(s.last())
    }
}

/// Escapes `s` for use inside a JSON string literal.
pub fn json_escape(s: &str) -> (r: String)
    ensures
        r@ == spec_json_escape(s@),
{
    let n: usize = s.unicode_len();
    let mut out: Vec<char> = Vec::new();
    let mut i: usize = 0;
    while i < n
        invariant
            i <= n,
            n == s@.len(),
            out@ == spec_json_escape(s@.subrange(0, i as int)),
        decreases n - i,
    {
        proof {
            assert(s@.subrange(0, i + 1).drop_last() =~= s@.subrange(0, i as int));
            assert(s@.subrange(0, i + 1).last() == s@[i as int]);
        }
        let ghost pre = out@;
        let c: char = s.get_char(i);
        if c == '"' {
            out.push('\\');
            out.push('"');
        } else if c == '\\' {
            out.push('\\');
            out.push('\\');
        } else if c == '\n' {
            out.push('\\');
            out.push('n');
        } else if c == '\r' {
            out.push('\\');
            out.push('r');
        } else if c == '\t' {
            out.push('\\');
            out.push('t');
        } else if (c as u32) < 32 {
            out.push('\\');
            out.push('u');
            out.push('0');
            out.push('0');
            out.push(hex_digit_exec((c as u32) / 16));
            out.push(hex_digit_exec((c as u32) % 16));
        } else {
            out.push(c);
        }
        proof {
            assert(out@ =~= pre + spec_json_escape_char(s@[i as int]));
        }
        i += 1;
    }
    proof {
        assert(s@.subrange(0, n as int) =~= s@);
    }
    chars_to_string(&out)
}

/// The metadata file the runtime reads at benchmark time: the profile
/// directory and the package path relative to the version-control root, as
/// a two-field JSON object.
pub open spec fn spec_metadata_json(profile_folder: Seq<char>, rel_pkg_path: Seq<char>) -> Seq<
    char,
> {
    "{\n  \"profile_folder\": \""@ + spec_json_escape(profile_folder)
        + "\",\n  \"relative_package_path\": \""@ + spec_json_escape(rel_pkg_path) + "\"\n}"@
}

/// Renders the run metadata file.
pub fn render_metadata(profile_folder: &str, rel_pkg_path: &str) -> (r: String)
    ensures
        r@ == spec_metadata_json(profile_folder@, rel_pkg_path@),
{
    let mut out: String = "{\n  \"profile_folder\": \"".to_owned();
    let esc_profile = json_escape(profile_folder);
    out.append(esc_profile.as_str());
    out.append("\",\n  \"relative_package_path\": \"");
    let esc_rel = json_escape(rel_pkg_path);
    out.append(esc_rel.as_str());
    out.append("\"\n}");
    out
}

/// The staged name of one internal test file: `_test` becomes `_codspeed`
/// in place, so the ordinary build compiles it.
pub open spec fn spec_internal_staged_name(file: Seq<char>) -> Seq<char> {
    replace_all_spec(file, "_test"@, "_codspeed"@)
}

/// The staged name of one external test file: `_test.go` becomes
/// `_codspeed.go`, and the file moves into the `codspeed/` subdirectory.
pub open spec fn spec_external_staged_name(file: Seq<char>) -> Seq<char> {
    "codspeed/"@ + replace_all_spec(file, "_test.go"@, "_codspeed.go"@)
}

/// Where one test file of the staged package goes, relative to the package
/// directory: external test files move into `codspeed/` under the
/// `_codspeed.go` name, internal ones are renamed in place.
pub open spec fn spec_staged_name(file: Seq<char>, is_external: bool) -> Seq<char> {
    if is_external {
        spec_external_staged_name(file)
    } else {
        spec_internal_staged_name(file)
    }
}

/// The rename plan for the package's test files: each file name paired with
/// its staged name, in order.
pub open spec fn spec_file_moves(files: Seq<Seq<char>>, is_external: bool) -> Seq<
    (Seq<char>, Seq<char>),
> {
    files.map_values(|f: Seq<char>| (f, spec_staged_name(f, is_external)))
}

/// Plans the renames of the package's test files for the staged build.
pub fn plan_file_moves(files: &Vec<String>, is_external: bool) -> (r: Vec<(String, String)>)
    ensures
        r.deep_view() == spec_file_moves(files.deep_view(), is_external),
{
    let n: usize = files.len();
    let mut out: Vec<(String, String)> = Vec::new();
    let mut i: usize = 0;
    while i < n
        invariant
            i <= n,
            n == files@.len(),
            out@.len() == i,
            forall|j: int|
                0 <= j < i ==> (#[trigger] out@[j]).0@ == files.deep_view()[j] && out@[j].1@
                    == spec_staged_name(files.deep_view()[j], is_external),
        decreases n - i,
    {
        proof {
            assert(files.deep_view()[i as int] == files@[i as int]@);
        }
        let src: String = files[i].clone();
        let dst: String = if is_external {
            let mut d: String = "codspeed/".to_owned();
            let renamed = replace_all(files[i].as_str(), "_test.go", "_codspeed.go");
            d.append(renamed.as_str());
            d
        } else {
            replace_all(files[i].as_str(), "_test", "_codspeed")
        };
        out.push((src, dst));
        i += 1;
    }
    proof {
        assert forall|j: int|
            0 <= j < out.deep_view().len() implies out.deep_view()[j] == spec_file_moves(
            files.deep_view(),
            is_external,
        )[j] by {
            assert(out.deep_view()[j] == out@[j].deep_view());
            assert(out@[j].deep_view() == (out@[j].0@, out@[j].1@));
        }
        assert(out.deep_view() =~= spec_file_moves(files.deep_view(), is_external));
    }
    out
}

/// The path of the generated runner source, relative to the package
/// directory.
pub fn runner_rel_path() -> (r: String)
    ensures
        r@ == "codspeed/runner.go"@,
{
    "codspeed/runner.go".to_owned()
}

/// Rendering is a function of the ordered benchmark list alone: equal
/// discovery output stages an identical runner.
pub proof fn lemma_runner_deterministic(
    b1: Seq<GoBenchmarkView>,
    b2: Seq<GoBenchmarkView>,
)
    requires
        b1 == b2,
    ensures
        spec_render_runner(b1) == spec_render_runner(b2),
{
}

} // verus!
