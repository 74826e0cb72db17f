//! The discovery data model: packages as the Go toolchain's `list -test
//! -json` reports them, and the benchmark records extracted from their test
//! sources.

use vstd::prelude::*;
use vstd::string::*;

use crate::gosource::{go_parse, parse_go_source, GoSourceInfo};
use crate::text::{
    contains_spec, contains_sub, dec_digit, dec_spec, ends_with, ends_with_spec, first_token,
    first_token_spec, insert_pos_chars, insort_chars, lemma_insert_pos_chars, lex_le, lex_le_exec,
    lower_spec, lower_str, sort_strings, starts_with, starts_with_spec, strip_dir, strip_dir_spec,
    u64_to_dec,
};

verus! {

/// A Go module, the unit that contains one or more packages.
pub struct GoModule {
    /// The module path (the root of its import paths).
    pub path: String,
    /// The directory the module lives in.
    pub dir: String,
    /// The path of the module's `go.mod` file.
    pub go_mod: String,
    /// The Go language version the module declares.
    pub version: String,
    /// Whether this is the main module of the build.
    pub main: bool,
}

#[verifier::ext_equal]
pub ghost struct GoModuleView {
    pub path: Seq<char>,
    pub dir: Seq<char>,
    pub go_mod: Seq<char>,
    pub version: Seq<char>,
    pub main: bool,
}

impl View for GoModule {
    type V = GoModuleView;

    open spec fn view(&self) -> GoModuleView {
        GoModuleView {
            path: self.path@,
            dir: self.dir@,
            go_mod: self.go_mod@,
            version: self.version@,
            main: self.main,
        }
    }
}

/// One package record of the toolchain's `list -test -json` output.
pub struct GoPackage {
    /// The directory holding the package's sources.
    pub dir: String,
    /// The declared package name.
    pub name: String,
    /// The import path; for a test executable it carries a bracketed suffix,
    /// as in `path [path.test]`.
    pub import_path: String,
    /// The regular Go source files; for an external test package these are
    /// its test files.
    pub go_files: Option<Vec<String>>,
    /// The internal test files; absent for external test packages.
    pub test_go_files: Option<Vec<String>>,
    /// The package's imports.
    pub imports: Option<Vec<String>>,
    /// The imports of the internal test files.
    pub test_imports: Option<Vec<String>>,
    /// The files the compiler would build.
    pub compiled_go_files: Option<Vec<String>>,
    /// For an external test package, the package under test.
    pub for_test: Option<String>,
    /// The module the package belongs to.
    pub module: GoModule,
}

#[verifier::ext_equal]
pub ghost struct GoPackageView {
    pub dir: Seq<char>,
    pub name: Seq<char>,
    pub import_path: Seq<char>,
    pub go_files: Option<Seq<Seq<char>>>,
    pub test_go_files: Option<Seq<Seq<char>>>,
    pub imports: Option<Seq<Seq<char>>>,
    pub test_imports: Option<Seq<Seq<char>>>,
    pub compiled_go_files: Option<Seq<Seq<char>>>,
    pub for_test: Option<Seq<char>>,
    pub module: GoModuleView,
}

impl View for GoPackage {
    type V = GoPackageView;

    open spec fn view(&self) -> GoPackageView {
        GoPackageView {
            dir: self.dir@,
            name: self.name@,
            import_path: self.import_path@,
            go_files: self.go_files.deep_view(),
            test_go_files: self.test_go_files.deep_view(),
            imports: self.imports.deep_view(),
            test_imports: self.test_imports.deep_view(),
            compiled_go_files: self.compiled_go_files.deep_view(),
            for_test: self.for_test.deep_view(),
            module: self.module@,
        }
    }
}

/// The package declares an external test package: its name carries the
/// `_test` suffix.
pub open spec fn spec_is_external_test_package(p: GoPackageView) -> bool {
    ends_with_spec(p.name, "_test"@)
}

/// The files that hold the package's tests: the regular files for an
/// external test package, the internal test files otherwise.
pub open spec fn spec_test_files(p: GoPackageView) -> Option<Seq<Seq<char>>> {
    if spec_is_external_test_package(p) {
        p.go_files
    } else {
        p.test_go_files
    }
}

/// The imports seen by the package's tests: the regular imports for an
/// external test package, the test imports otherwise.
pub open spec fn spec_test_imports_list(p: GoPackageView) -> Option<Seq<Seq<char>>> {
    if spec_is_external_test_package(p) {
        p.imports
    } else {
        p.test_imports
    }
}

impl GoPackage {
    /// Whether this package is an external test package (its declared name
    /// ends with `_test`).
    pub fn is_external_test_package(&self) -> (r: bool)
        ensures
            r == spec_is_external_test_package(self@),
    {
        ends_with(self.name.as_str(), "_test")
    }

    /// The list of files holding this package's tests, if the record carries
    /// one.
    pub fn test_files(&self) -> (r: Option<&Vec<String>>)
        ensures
            r.deep_view() == spec_test_files(self@),
    {
        if self.is_external_test_package() {
            self.go_files.as_ref()
        } else {
            self.test_go_files.as_ref()
        }
    }

    /// The import list that applies to this package's tests, if the record
    /// carries one.
    pub fn test_imports_list(&self) -> (r: Option<&Vec<String>>)
        ensures
            r.deep_view() == spec_test_imports_list(self@),
    {
        if self.is_external_test_package() {
            self.imports.as_ref()
        } else {
            self.test_imports.as_ref()
        }
    }
}

/// The toolchain's list output repaired into one JSON array: the output is
/// a concatenation of top-level objects, so the newlines go, every `}{`
/// seam becomes `},{`, and brackets wrap the whole.
pub open spec fn spec_repair_list_output(s: Seq<char>) -> Seq<char> {
    "["@ + crate::text::replace_all_spec(
        crate::text::replace_all_spec(s, "\n"@, Seq::empty()),
        "}{"@,
        "},{"@,
    ) + "]"@
}

/// Repairs the toolchain's concatenated-object list output into a JSON
/// array, ready for a JSON reader.
pub fn repair_list_output(s: &str) -> (r: String)
    ensures
        r@ == spec_repair_list_output(s@),
{
    let no_newlines: String = crate::text::replace_all(s, "\n", "");
    let seamed: String = crate::text::replace_all(no_newlines.as_str(), "}{", "},{");
    let mut out: String = "[".to_owned();
    out.append(seamed.as_str());
    out.append("]");
    proof {
        reveal_strlit("");
        assert(""@ =~= Seq::<char>::empty());
    }
    out
}

/// Why a package's benchmarks could not be extracted.
#[derive(Debug, Clone, Copy, PartialEq, Eq, Structural)]
pub enum DiscoveryError {
    /// An external test package without a reference to the package under
    /// test.
    MissingForTest,
    /// A test file whose contents could not be read.
    FileUnreadable,
    /// A test file that does not lie under the module directory.
    FileOutsideModule,
}

/// The clean import path of the package a benchmark belongs to: the package
/// under test for an external test package, otherwise the import path up to
/// its bracketed annotation. `None` stands for an unusable record.
pub open spec fn spec_package_import_path(p: GoPackageView) -> Option<Seq<char>> {
    if spec_is_external_test_package(p) {
        p.for_test
    } else {
        Option::Some(first_token_spec(p.import_path))
    }
}

impl GoPackage {
    /// The clean import path under which the generated runner imports this
    /// package.
    pub fn package_import_path(&self) -> (r: Result<String, DiscoveryError>)
        ensures
            match r {
                Ok(path) => spec_package_import_path(self@) == Option::Some(path@),
                Err(_) => spec_package_import_path(self@) is None,
            },
    {
        if self.is_external_test_package() {
            match &self.for_test {
                Option::Some(path) => Ok(path.clone()),
                Option::None => Err(DiscoveryError::MissingForTest),
            }
        } else {
            Ok(first_token(self.import_path.as_str()))
        }
    }
}

/// A stable 32-bit polynomial hash of a character sequence. Any
/// deterministic non-cryptographic hash serves here: it only keeps import
/// aliases of equal benchmark names in different packages apart.
pub open spec fn hash_spec(s: Seq<char>) -> int
    decreases s.len(),
{
    if s.len() == 0 {
        0
    } else {
        (hash_spec(s.drop_last()) * 31 + (s.last() as u32)) % 0x1_0000_0000
    }
}

pub proof fn lemma_hash_spec_bounds(s: Seq<char>)
    ensures
        0 <= hash_spec(s) < 0x1_0000_0000,
    decreases s.len(),
{
    if s.len() > 0 {
        lemma_hash_spec_bounds(s.drop_last());
    }
}

/// The stable hash of a package import path.
pub fn hash_import_path(s: &str) -> (r: u64)
    ensures
        r as int == hash_spec(s@),
{
    let n: usize = s.unicode_len();
    let mut h: u64 = 0;
    let mut i: usize = 0;
    while i < n
        invariant
            i <= n,
            n == s@.len(),
            h < 0x1_0000_0000,
            h as int == hash_spec(s@.subrange(0, i as int)),
        decreases n - i,
    {
        let c: u64 = s.get_char(i) as u64;
        proof {
            assert(s@.subrange(0, i + 1).drop_last() =~= s@.subrange(0, i as int));
            assert(s@.subrange(0, i + 1).last() == s@[i as int]);
        }
        h = (h * 31 + c) % 0x1_0000_0000;
        i += 1;
    }
    proof {
        assert(s@.subrange(0, n as int) =~= s@);
    }
    h
}

/// The deterministic import alias of a benchmark: its lower-cased name,
/// an underscore, and the hash of the owning package's import path.
pub open spec fn alias_spec(name: Seq<char>, pkg_path: Seq<char>) -> Seq<char> {
    lower_spec(name) + "_"@ + dec_spec(hash_spec(pkg_path))
}

/// The qualified registration name of a benchmark: `<alias>.<name>`.
pub open spec fn qualified_spec(name: Seq<char>, pkg_path: Seq<char>) -> Seq<char> {
    alias_spec(name, pkg_path) + "."@ + name
}

/// One discovered benchmark function.
pub struct GoBenchmark {
    /// The function's name, which begins with `Benchmark`.
    pub name: String,
    /// The import path of the owning package.
    pub package_path: String,
    /// The deterministic alias under which the runner imports the owning
    /// package.
    pub import_alias: String,
    /// The registration name, `<alias>.<name>`.
    pub qualified_name: String,
    /// The source file, relative to the module directory.
    pub file_path: String,
    /// Whether the benchmark comes from an external test package.
    pub is_external: bool,
}

#[verifier::ext_equal]
pub ghost struct GoBenchmarkView {
    pub name: Seq<char>,
    pub package_path: Seq<char>,
    pub import_alias: Seq<char>,
    pub qualified_name: Seq<char>,
    pub file_path: Seq<char>,
    pub is_external: bool,
}

impl View for GoBenchmark {
    type V = GoBenchmarkView;

    open spec fn view(&self) -> GoBenchmarkView {
        GoBenchmarkView {
            name: self.name@,
            package_path: self.package_path@,
            import_alias: self.import_alias@,
            qualified_name: self.qualified_name@,
            file_path: self.file_path@,
            is_external: self.is_external,
        }
    }
}

/// The benchmark record for function `name` of the package at `pkg_path`,
/// found in `file_path`.
pub open spec fn bench_spec(
    pkg_path: Seq<char>,
    name: Seq<char>,
    file_path: Seq<char>,
    is_external: bool,
) -> GoBenchmarkView {
    GoBenchmarkView {
        name,
        package_path: pkg_path,
        import_alias: alias_spec(name, pkg_path),
        qualified_name: qualified_spec(name, pkg_path),
        file_path,
        is_external,
    }
}

impl GoBenchmark {
    /// Builds the record for one benchmark function, with its deterministic
    /// alias and qualified registration name.
    pub fn new(
        package_import_path: String,
        name: String,
        file_path: String,
        is_external: bool,
    ) -> (r: GoBenchmark)
        ensures
            r@ == bench_spec(package_import_path@, name@, file_path@, is_external),
    {
        let hash: u64 = hash_import_path(package_import_path.as_str());
        let mut import_alias: String = lower_str(name.as_str());
        import_alias.append("_");
        let hash_dec = u64_to_dec(hash);
        import_alias.append(hash_dec.as_str());
        let mut qualified_name: String = import_alias.clone();
        qualified_name.append(".");
        qualified_name.append(name.as_str());
        GoBenchmark {
            name,
            package_path: package_import_path,
            import_alias,
            qualified_name,
            file_path,
            is_external,
        }
    }
}

/// The alias is a function of the benchmark name and the owning package's
/// import path alone: two benchmarks that agree on both get the same alias,
/// in any run.
pub proof fn lemma_alias_stable(
    name1: Seq<char>,
    pkg1: Seq<char>,
    name2: Seq<char>,
    pkg2: Seq<char>,
)
    requires
        name1 == name2,
        pkg1 == pkg2,
    ensures
        alias_spec(name1, pkg1) == alias_spec(name2, pkg2),
{
}

/// One test file handed to discovery: its name and its contents, `None` when
/// reading it failed.
pub struct FileSource {
    pub name: String,
    pub content: Option<String>,
}

impl View for FileSource {
    type V = (Seq<char>, Option<Seq<char>>);

    open spec fn view(&self) -> (Seq<char>, Option<Seq<char>>) {
        (self.name@, self.content.deep_view())
    }
}

impl DeepView for FileSource {
    type V = (Seq<char>, Option<Seq<char>>);

    open spec fn deep_view(&self) -> (Seq<char>, Option<Seq<char>>) {
        self@
    }
}

impl DeepView for GoBenchmark {
    type V = GoBenchmarkView;

    open spec fn deep_view(&self) -> GoBenchmarkView {
        self@
    }
}

/// A function name marks a benchmark when it begins with `Benchmark`.
pub open spec fn is_benchmark_name(n: Seq<char>) -> bool {
    starts_with_spec(n, "Benchmark"@)
}

/// The benchmark names found in one parsed file, sorted by name.
pub open spec fn spec_file_bench_names(funcs: Seq<Seq<char>>) -> Seq<Seq<char>> {
    insort_chars(funcs.filter(|n: Seq<char>| is_benchmark_name(n)))
}

/// The benchmark records of one file: one record per sorted benchmark name.
pub open spec fn spec_file_benches(
    pkg_path: Seq<char>,
    funcs: Seq<Seq<char>>,
    rel_path: Seq<char>,
    is_external: bool,
) -> Seq<GoBenchmarkView> {
    spec_file_bench_names(funcs).map_values(
        |n: Seq<char>| bench_spec(pkg_path, n, rel_path, is_external),
    )
}

/// Where a test file belongs among already-sorted files: after every entry
/// whose name is `lex_le` its own.
pub open spec fn insert_pos_file(
    x: (Seq<char>, Option<Seq<char>>),
    s: Seq<(Seq<char>, Option<Seq<char>>)>,
) -> int
    decreases s.len(),
{
    if s.len() == 0 {
        0
    } else if lex_le(s[0].0, x.0) {
        1 + insert_pos_file(x, s.drop_first())
    } else {
        0
    }
}

proof fn lemma_insert_pos_file(
    x: (Seq<char>, Option<Seq<char>>),
    s: Seq<(Seq<char>, Option<Seq<char>>)>,
)
    ensures
        0 <= insert_pos_file(x, s) <= s.len(),
        forall|i: int| 0 <= i < insert_pos_file(x, s) ==> lex_le((#[trigger] s[i]).0, x.0),
        insert_pos_file(x, s) < s.len() ==> !lex_le(s[insert_pos_file(x, s)].0, x.0),
    decreases s.len(),
{
    if s.len() > 0 {
        lemma_insert_pos_file(x, s.drop_first());
        if lex_le(s[0].0, x.0) {
            let k2 = insert_pos_file(x, s.drop_first());
            assert forall|i: int| 0 <= i < k2 + 1 implies lex_le((#[trigger] s[i]).0, x.0) by {
                if i >= 1 {
                    assert(s.drop_first()[i - 1] == s[i]);
                    assert(lex_le(s.drop_first()[i - 1].0, x.0));
                }
            }
            if k2 + 1 < s.len() {
                assert(s.drop_first()[k2] == s[k2 + 1]);
            }
        }
    }
}

/// Stable insertion sort of test files by name: files with equal names keep
/// their relative order.
pub open spec fn insort_files(s: Seq<(Seq<char>, Option<Seq<char>>)>) -> Seq<
    (Seq<char>, Option<Seq<char>>),
>
    decreases s.len(),
{
    if s.len() == 0 {
        s
    } else {
        let sorted_init = insort_files(s.drop_last());
        sorted_init.insert(insert_pos_file(s.last(), sorted_init), s.last())
    }
}

/// Sorts a package's test files by name, keeping the relative order of
/// equal names.
pub fn sort_file_sources(v: Vec<FileSource>) -> (r: Vec<FileSource>)
    ensures
        r.deep_view() == insort_files(v.deep_view()),
{
    let ghost orig = v.deep_view();
    let mut rest: Vec<FileSource> = v;
    let total: usize = rest.len();
    let mut out: Vec<FileSource> = Vec::new();
    let mut done: usize = 0;
    while rest.len() > 0
        invariant
            done + rest@.len() == total,
            total == orig.len(),
            rest.deep_view() =~= orig.subrange(done as int, orig.len() as int),
            out.deep_view() == insort_files(orig.subrange(0, done as int)),
        decreases rest@.len(),
    {
        let ghost rest_pre = rest.deep_view();
        let ghost rest_seq_pre = rest@;
        let x: FileSource = rest.remove(0);
        proof {
            assert(x == rest_seq_pre[0]);
            assert(rest_pre[0] == rest_seq_pre[0].deep_view());
            assert(x@ == orig[done as int]);
            assert forall|i: int|
                0 <= i < rest@.len() implies rest.deep_view()[i] == orig.subrange(
                done + 1,
                orig.len() as int,
            )[i] by {
                assert(rest.deep_view()[i] == rest@[i].deep_view());
                assert(rest@[i] == rest_seq_pre[i + 1]);
                assert(rest_pre[i + 1] == rest_seq_pre[i + 1].deep_view());
                assert(rest_pre[i + 1] == orig.subrange(done as int, orig.len() as int)[i + 1]);
            }
            assert(rest.deep_view().len() == rest@.len());
            assert(rest.deep_view() =~= orig.subrange(done + 1, orig.len() as int));
        }
        let ghost pre = out.deep_view();
        let mut k: usize = 0;
        while k < out.len() && lex_le_exec(out[k].name.as_str(), x.name.as_str())
            invariant
                k <= out.len(),
                out.deep_view().len() == out.len(),
                forall|i: int| 0 <= i < k ==> lex_le((#[trigger] out.deep_view()[i]).0, x@.0),
            decreases out.len() - k,
        {
            k += 1;
        }
        proof {
            lemma_insert_pos_file(x@, pre);
            let sp = insert_pos_file(x@, pre);
            if (k as int) < sp {
                assert(lex_le(pre[k as int].0, x@.0));
                assert(false);
            }
            if sp < (k as int) {
                assert(lex_le(pre[sp].0, x@.0));
                assert(false);
            }
        }
        out.insert(k, x);
        done += 1;
        proof {
            assert(out.deep_view() =~= pre.insert(k as int, orig[done - 1]));
            assert(orig.subrange(0, done as int).drop_last() =~= orig.subrange(0, done - 1));
            assert(orig.subrange(0, done as int).last() == orig[done - 1]);
        }
    }
    proof {
        assert(orig.subrange(0, orig.len() as int) =~= orig);
    }
    out
}

/// The benchmark records of a package, over its test files in order:
/// files not named `*_test.go` contribute nothing, a file that does not
/// parse is skipped, and `None` stands for the package-level failures (no
/// usable import path, an unreadable file, or a file outside the module).
pub open spec fn spec_package_benchmarks(
    p: GoPackageView,
    files: Seq<(Seq<char>, Option<Seq<char>>)>,
) -> Option<Seq<GoBenchmarkView>>
    decreases files.len(),
{
    if spec_package_import_path(p) is None {
        Option::None
    } else if files.len() == 0 {
        Option::Some(Seq::empty())
    } else {
        match spec_package_benchmarks(p, files.drop_last()) {
            Option::None => Option::None,
            Option::Some(rest) => {
                let fname = files.last().0;
                let content_opt = files.last().1;
                if !ends_with_spec(fname, "_test.go"@) {
                    Option::Some(rest)
                } else {
                    match content_opt {
                        Option::None => Option::None,
                        Option::Some(content) => match go_parse(content) {
                            Option::None => Option::Some(rest),
                            Option::Some(info) => {
                                let full = p.dir + "/"@ + fname;
                                match strip_dir_spec(full, p.module.dir) {
                                    Option::None => Option::None,
                                    Option::Some(rel) => Option::Some(
                                        rest + spec_file_benches(
                                            spec_package_import_path(p)->Some_0,
                                            info.3,
                                            rel,
                                            spec_is_external_test_package(p),
                                        ),
                                    ),
                                }
                            },
                        },
                    }
                }
            },
        }
    }
}

impl GoPackage {
    /// The benchmark records of this package, from the contents of its test
    /// files: files sorted by name, each file's benchmarks sorted by name.
    pub fn benchmarks(&self, files: Vec<FileSource>) -> (r: Result<
        Vec<GoBenchmark>,
        DiscoveryError,
    >)
        ensures
            match r {
                Ok(benches) => spec_package_benchmarks(
                    self@,
                    insort_files(files.deep_view()),
                ) == Option::Some(benches.deep_view()),
                Err(_) => spec_package_benchmarks(self@, insort_files(files.deep_view())) is None,
            },
    {
        let sorted: Vec<FileSource> = sort_file_sources(files);
        extract_benchmarks(self, &sorted)
    }
}

/// Extracts the benchmark records of one package from the contents of its
/// test files, in the given file order, each file's benchmarks sorted by
/// name.
fn extract_benchmarks(p: &GoPackage, files: &Vec<FileSource>) -> (r: Result<
    Vec<GoBenchmark>,
    DiscoveryError,
>)
    ensures
        match r {
            Ok(benches) => spec_package_benchmarks(p@, files.deep_view()) == Option::Some(
                benches.deep_view(),
            ),
            Err(_) => spec_package_benchmarks(p@, files.deep_view()) is None,
        },
{
    let pkg_path: String = match p.package_import_path() {
        Ok(path) => path,
        Err(e) => {
            proof {
                lemma_package_benchmarks_no_path(p@, files.deep_view());
            }
            return Err(e);
        },
    };
    let is_external: bool = p.is_external_test_package();
    let mut out: Vec<GoBenchmark> = Vec::new();
    let mut idx: usize = 0;
    while idx < files.len()
        invariant
            idx <= files@.len(),
            files.deep_view().len() == files@.len(),
            spec_package_import_path(p@) == Option::Some(pkg_path@),
            is_external == spec_is_external_test_package(p@),
            spec_package_benchmarks(p@, files.deep_view().subrange(0, idx as int))
                == Option::Some(out.deep_view()),
        decreases files@.len() - idx,
    {
        let ghost pre = out.deep_view();
        let ghost files_prefix = files.deep_view().subrange(0, idx as int);
        let ghost files_next = files.deep_view().subrange(0, idx + 1);
        proof {
            assert(files_next.drop_last() =~= files_prefix);
            assert(files_next.last() == files.deep_view()[idx as int]);
            assert(files.deep_view()[idx as int] == files@[idx as int]@);
        }
        let fname: &String = &files[idx].name;
        if ends_with(fname.as_str(), "_test.go") {
            let content: &String = match &files[idx].content {
                Option::Some(c) => c,
                Option::None => {
                    proof {
                        assert(spec_package_benchmarks(p@, files_next) is None);
                        lemma_package_benchmarks_none_extends(
                            p@,
                            files.deep_view(),
                            idx + 1,
                        );
                    }
                    return Err(DiscoveryError::FileUnreadable);
                },
            };
            match parse_go_source(content.as_str()) {
                Option::None => {},
                Option::Some(info) => {
                    let mut full: String = p.dir.clone();
                    full.append("/");
                    full.append(fname.as_str());
                    let rel: String = match strip_dir(full.as_str(), p.module.dir.as_str()) {
                        Option::Some(rel) => rel,
                        Option::None => {
                            proof {
                                assert(full@ == p@.dir + "/"@ + fname@);
                                assert(spec_package_benchmarks(p@, files_next) is None);
                                lemma_package_benchmarks_none_extends(
                                    p@,
                                    files.deep_view(),
                                    idx + 1,
                                );
                            }
                            return Err(DiscoveryError::FileOutsideModule);
                        },
                    };
                    let mut found: Vec<String> = Vec::new();
                    let n_funcs: usize = info.func_names.len();
                    let mut j: usize = 0;
                    while j < n_funcs
                        invariant
                            j <= n_funcs,
                            n_funcs == info.func_names@.len(),
                            found.deep_view() == info.func_names.deep_view().subrange(
                                0,
                                j as int,
                            ).filter(|n: Seq<char>| is_benchmark_name(n)),
                        decreases n_funcs - j,
                    {
                        let ghost fpre = found.deep_view();
                        let ghost fn_prefix = info.func_names.deep_view().subrange(0, j as int);
                        let ghost fn_next = info.func_names.deep_view().subrange(0, j + 1);
                        proof {
                            reveal(Seq::filter);
                            assert(fn_next.drop_last() =~= fn_prefix);
                            assert(fn_next.last() == info.func_names.deep_view()[j as int]);
                            assert(info.func_names.deep_view()[j as int]
                                == info.func_names@[j as int]@);
                        }
                        if starts_with(info.func_names[j].as_str(), "Benchmark") {
                            found.push(info.func_names[j].clone());
                            proof {
                                assert(found.deep_view() =~= fpre.push(
                                    info.func_names@[j as int]@,
                                ));
                            }
                        }
                        j += 1;
                    }
                    proof {
                        assert(info.func_names.deep_view().subrange(
                            0,
                            n_funcs as int,
                        ) =~= info.func_names.deep_view());
                        assert(info.func_names.deep_view() == info@.3);
                    }
                    let sorted_names: Vec<String> = sort_strings(&found);
                    let n_names: usize = sorted_names.len();
                    let mut k: usize = 0;
                    while k < n_names
                        invariant
                            k <= n_names,
                            n_names == sorted_names@.len(),
                            sorted_names.deep_view() == spec_file_bench_names(info@.3),
                            spec_package_import_path(p@) == Option::Some(pkg_path@),
                            is_external == spec_is_external_test_package(p@),
                            rel@ == strip_dir_spec(p@.dir + "/"@ + fname@, p@.module.dir)->Some_0,
                            out.deep_view() == pre + spec_file_benches(
                                pkg_path@,
                                info@.3,
                                rel@,
                                is_external,
                            ).subrange(0, k as int),
                        decreases n_names - k,
                    {
                        let ghost opre = out.deep_view();
                        let b = GoBenchmark::new(
                            pkg_path.clone(),
                            sorted_names[k].clone(),
                            rel.clone(),
                            is_external,
                        );
                        out.push(b);
                        proof {
                            assert(sorted_names.deep_view()[k as int]
                                == sorted_names@[k as int]@);
                            assert(out.deep_view() =~= opre.push(b@));
                            assert(pre + spec_file_benches(pkg_path@, info@.3, rel@, is_external)
                                .subrange(0, k + 1) =~= opre.push(
                                spec_file_benches(pkg_path@, info@.3, rel@, is_external)[k as int],
                            ));
                        }
                        k += 1;
                    }
                    proof {
                        assert(spec_file_benches(pkg_path@, info@.3, rel@, is_external).subrange(
                            0,
                            spec_file_benches(pkg_path@, info@.3, rel@, is_external).len() as int,
                        ) =~= spec_file_benches(pkg_path@, info@.3, rel@, is_external));
                    }
                },
            }
        }
        idx += 1;
    }
    proof {
        assert(files.deep_view().subrange(0, files@.len() as int) =~= files.deep_view());
    }
    Ok(out)
}

/// Once a prefix of the file list fails, the whole list fails.
proof fn lemma_package_benchmarks_none_extends(
    p: GoPackageView,
    files: Seq<(Seq<char>, Option<Seq<char>>)>,
    k: int,
)
    requires
        0 <= k <= files.len(),
        spec_package_benchmarks(p, files.subrange(0, k)) is None,
    ensures
        spec_package_benchmarks(p, files) is None,
    decreases files.len() - k,
{
    if k < files.len() {
        assert(files.subrange(0, k + 1).drop_last() =~= files.subrange(0, k));
        lemma_package_benchmarks_none_extends(p, files, k + 1);
    } else {
        assert(files.subrange(0, k) =~= files);
    }
}

/// A package without a usable import path yields no benchmark list.
proof fn lemma_package_benchmarks_no_path(
    p: GoPackageView,
    files: Seq<(Seq<char>, Option<Seq<char>>)>,
)
    requires
        spec_package_import_path(p) is None,
    ensures
        spec_package_benchmarks(p, files) is None,
    decreases files.len(),
{
}

/// The discovery filters that look at the package record alone: it must
/// carry a test-file list with at least one `*_test.go` entry, a test-import
/// list naming `testing`, and the bracketed test-executable import path.
pub open spec fn spec_passes_filters(p: GoPackageView) -> bool {
    &&& match spec_test_files(p) {
        Option::Some(files) => exists|i: int|
            0 <= i < files.len() && ends_with_spec(#[trigger] files[i], "_test.go"@),
        Option::None => false,
    }
    &&& match spec_test_imports_list(p) {
        Option::Some(imps) => exists|i: int|
            0 <= i < imps.len() && contains_spec(#[trigger] imps[i], "testing"@),
        Option::None => false,
    }
    &&& ends_with_spec(p.import_path, ".test]"@)
}

/// Whether the package passes the record-level discovery filters.
pub fn passes_filters(p: &GoPackage) -> (r: bool)
    ensures
        r == spec_passes_filters(p@),
{
    let files: &Vec<String> = match p.test_files() {
        Option::Some(files) => files,
        Option::None => {
            return false;
        },
    };
    let mut has_test_file: bool = false;
    let mut i: usize = 0;
    while i < files.len()
        invariant
            i <= files@.len(),
            files.deep_view().len() == files@.len(),
            has_test_file <==> exists|j: int|
                0 <= j < i && ends_with_spec(#[trigger] files.deep_view()[j], "_test.go"@),
        decreases files@.len() - i,
    {
        if ends_with(files[i].as_str(), "_test.go") {
            proof {
                assert(files.deep_view()[i as int] == files@[i as int]@);
            }
            has_test_file = true;
        }
        i += 1;
    }
    if !has_test_file {
        return false;
    }
    let imps: &Vec<String> = match p.test_imports_list() {
        Option::Some(imps) => imps,
        Option::None => {
            return false;
        },
    };
    let mut has_testing_import: bool = false;
    let mut j: usize = 0;
    while j < imps.len()
        invariant
            j <= imps@.len(),
            imps.deep_view().len() == imps@.len(),
            has_testing_import <==> exists|k: int|
                0 <= k < j && contains_spec(#[trigger] imps.deep_view()[k], "testing"@),
        decreases imps@.len() - j,
    {
        if contains_sub(imps[j].as_str(), "testing") {
            proof {
                assert(imps.deep_view()[j as int] == imps@[j as int]@);
            }
            has_testing_import = true;
        }
        j += 1;
    }
    if !has_testing_import {
        return false;
    }
    ends_with(p.import_path.as_str(), ".test]")
}

/// One package together with the contents of its test files, ready for
/// discovery.
pub struct PackageInput {
    pub package: GoPackage,
    pub files: Vec<FileSource>,
}

#[verifier::ext_equal]
pub ghost struct PackageInputView {
    pub package: GoPackageView,
    pub files: Seq<(Seq<char>, Option<Seq<char>>)>,
}

impl View for PackageInput {
    type V = PackageInputView;

    open spec fn view(&self) -> PackageInputView {
        PackageInputView { package: self.package@, files: self.files.deep_view() }
    }
}

impl DeepView for PackageInput {
    type V = PackageInputView;

    open spec fn deep_view(&self) -> PackageInputView {
        self@
    }
}

/// A package that survived discovery, with its benchmarks.
pub struct BenchmarkPackage {
    pub raw_package: GoPackage,
    pub benchmarks: Vec<GoBenchmark>,
}

#[verifier::ext_equal]
pub ghost struct BenchmarkPackageView {
    pub raw_package: GoPackageView,
    pub benchmarks: Seq<GoBenchmarkView>,
}

impl View for BenchmarkPackage {
    type V = BenchmarkPackageView;

    open spec fn view(&self) -> BenchmarkPackageView {
        BenchmarkPackageView {
            raw_package: self.raw_package@,
            benchmarks: self.benchmarks.deep_view(),
        }
    }
}

impl DeepView for BenchmarkPackage {
    type V = BenchmarkPackageView;

    open spec fn deep_view(&self) -> BenchmarkPackageView {
        self@
    }
}

impl BenchmarkPackage {
    /// Pairs a package record with the benchmarks found in it.
    pub fn new(package: GoPackage, benchmarks: Vec<GoBenchmark>) -> (r: BenchmarkPackage)
        ensures
            r@.raw_package == package@,
            r@.benchmarks == benchmarks.deep_view(),
    {
        BenchmarkPackage { raw_package: package, benchmarks }
    }
}

/// Where an input belongs among already-sorted inputs: after every entry
/// whose import path is `lex_le` its own.
pub open spec fn insert_pos_input(x: PackageInputView, s: Seq<PackageInputView>) -> int
    decreases s.len(),
{
    if s.len() == 0 {
        0
    } else if lex_le(s[0].package.import_path, x.package.import_path) {
        1 + insert_pos_input(x, s.drop_first())
    } else {
        0
    }
}

proof fn lemma_insert_pos_input(x: PackageInputView, s: Seq<PackageInputView>)
    ensures
        0 <= insert_pos_input(x, s) <= s.len(),
        forall|i: int|
            0 <= i < insert_pos_input(x, s) ==> lex_le(
                #[trigger] s[i].package.import_path,
                x.package.import_path,
            ),
        insert_pos_input(x, s) < s.len() ==> !lex_le(
            s[insert_pos_input(x, s)].package.import_path,
            x.package.import_path,
        ),
    decreases s.len(),
{
    if s.len() > 0 {
        lemma_insert_pos_input(x, s.drop_first());
        if lex_le(s[0].package.import_path, x.package.import_path) {
            let k2 = insert_pos_input(x, s.drop_first());
            assert forall|i: int|
                0 <= i < k2 + 1 implies lex_le(
                #[trigger] s[i].package.import_path,
                x.package.import_path,
            ) by {
                if i >= 1 {
                    assert(s.drop_first()[i - 1] == s[i]);
                    assert(lex_le(s.drop_first()[i - 1].package.import_path,
                        x.package.import_path));
                }
            }
            if k2 + 1 < s.len() {
                assert(s.drop_first()[k2] == s[k2 + 1]);
            }
        }
    }
}

/// Stable insertion sort of discovery inputs by package import path:
/// packages with equal import paths keep their relative order.
pub open spec fn insort_inputs(s: Seq<PackageInputView>) -> Seq<PackageInputView>
    decreases s.len(),
{
    if s.len() == 0 {
        s
    } else {
        let sorted_init = insort_inputs(s.drop_last());
        sorted_init.insert(insert_pos_input(s.last(), sorted_init), s.last())
    }
}

/// Sorts discovery inputs by package import path, keeping the relative
/// order of equal paths.
pub fn sort_inputs(v: Vec<PackageInput>) -> (r: Vec<PackageInput>)
    ensures
        r.deep_view() == insort_inputs(v.deep_view()),
{
    let ghost orig = v.deep_view();
    let mut rest: Vec<PackageInput> = v;
    let total: usize = rest.len();
    let mut out: Vec<PackageInput> = Vec::new();
    let mut done: usize = 0;
    while rest.len() > 0
        invariant
            done + rest@.len() == total,
            total == orig.len(),
            rest.deep_view() =~= orig.subrange(done as int, orig.len() as int),
            out.deep_view() == insort_inputs(orig.subrange(0, done as int)),
        decreases rest@.len(),
    {
        let ghost rest_pre = rest.deep_view();
        let ghost rest_seq_pre = rest@;
        let x: PackageInput = rest.remove(0);
        proof {
            assert(x == rest_seq_pre[0]);
            assert(rest_pre[0] == rest_seq_pre[0].deep_view());
            assert(x@ == orig[done as int]);
            assert forall|i: int|
                0 <= i < rest@.len() implies rest.deep_view()[i] == orig.subrange(
                done + 1,
                orig.len() as int,
            )[i] by {
                assert(rest.deep_view()[i] == rest@[i].deep_view());
                assert(rest@[i] == rest_seq_pre[i + 1]);
                assert(rest_pre[i + 1] == rest_seq_pre[i + 1].deep_view());
                assert(rest_pre[i + 1] == orig.subrange(done as int, orig.len() as int)[i + 1]);
            }
            assert(rest.deep_view().len() == rest@.len());
            assert(rest.deep_view() =~= orig.subrange(done + 1, orig.len() as int));
        }
        let ghost pre = out.deep_view();
        let mut k: usize = 0;
        while k < out.len()
            && lex_le_exec(
            out[k].package.import_path.as_str(),
            x.package.import_path.as_str(),
        )
            invariant
                k <= out.len(),
                out.deep_view().len() == out.len(),
                forall|i: int|
                    0 <= i < k ==> lex_le(
                        #[trigger] out.deep_view()[i].package.import_path,
                        x@.package.import_path,
                    ),
            decreases out.len() - k,
        {
            k += 1;
        }
        proof {
            lemma_insert_pos_input(x@, pre);
            let sp = insert_pos_input(x@, pre);
            if (k as int) < sp {
                assert(lex_le(pre[k as int].package.import_path, x@.package.import_path));
                assert(false);
            }
            if sp < (k as int) {
                assert(lex_le(pre[sp].package.import_path, x@.package.import_path));
                assert(false);
            }
        }
        out.insert(k, x);
        done += 1;
        proof {
            assert(out.deep_view() =~= pre.insert(k as int, orig[done - 1]));
            assert(orig.subrange(0, done as int).drop_last() =~= orig.subrange(0, done - 1));
            assert(orig.subrange(0, done as int).last() == orig[done - 1]);
        }
    }
    proof {
        assert(orig.subrange(0, orig.len() as int) =~= orig);
    }
    out
}

/// An input is kept when its package passes the record-level filters and at
/// least one benchmark was extracted from its files, taken in name order.
pub open spec fn spec_keep(inp: PackageInputView) -> bool {
    &&& spec_passes_filters(inp.package)
    &&& match spec_package_benchmarks(inp.package, insort_files(inp.files)) {
        Option::Some(benches) => benches.len() > 0,
        Option::None => false,
    }
}

/// The discovery record of a kept input.
pub open spec fn spec_bench_package(inp: PackageInputView) -> BenchmarkPackageView {
    BenchmarkPackageView {
        raw_package: inp.package,
        benchmarks: spec_package_benchmarks(inp.package, insort_files(inp.files))->Some_0,
    }
}

/// The kept inputs, in order, as discovery records.
pub open spec fn spec_collect(inputs: Seq<PackageInputView>) -> Seq<BenchmarkPackageView>
    decreases inputs.len(),
{
    if inputs.len() == 0 {
        Seq::empty()
    } else if spec_keep(inputs.last()) {
        spec_collect(inputs.drop_last()).push(spec_bench_package(inputs.last()))
    } else {
        spec_collect(inputs.drop_last())
    }
}

/// What discovery yields on a project: the inputs sorted by import path,
/// filtered to benchmark-bearing packages, each with its ordered benchmarks.
pub open spec fn spec_from_project(inputs: Seq<PackageInputView>) -> Seq<BenchmarkPackageView> {
    spec_collect(insort_inputs(inputs))
}

impl BenchmarkPackage {
    /// Discovers the benchmark-bearing packages among `inputs`: sorts them
    /// by import path, keeps those that pass the discovery filters and hold
    /// at least one benchmark, and extracts each one's ordered benchmark
    /// records. A package whose files cannot be used is skipped, never an
    /// error.
    #[verifier::rlimit(50)]
    pub fn from_project(inputs: Vec<PackageInput>) -> (r: Vec<BenchmarkPackage>)
        ensures
            r.deep_view() == spec_from_project(inputs.deep_view()),
    {
        let sorted: Vec<PackageInput> = sort_inputs(inputs);
        let ghost sorted_view = sorted.deep_view();
        let mut rest: Vec<PackageInput> = sorted;
        let total: usize = rest.len();
        let mut out: Vec<BenchmarkPackage> = Vec::new();
        let mut done: usize = 0;
        while rest.len() > 0
            invariant
                done + rest@.len() == total,
                total == sorted_view.len(),
                rest.deep_view() =~= sorted_view.subrange(done as int, sorted_view.len() as int),
                out.deep_view() == spec_collect(sorted_view.subrange(0, done as int)),
            decreases rest@.len(),
        {
            let ghost rest_pre = rest.deep_view();
            let ghost rest_seq_pre = rest@;
            let inp: PackageInput = rest.remove(0);
            proof {
                assert(inp == rest_seq_pre[0]);
                assert(rest_pre[0] == rest_seq_pre[0].deep_view());
                assert(inp@ == sorted_view[done as int]);
                assert forall|i: int|
                    0 <= i < rest@.len() implies rest.deep_view()[i] == sorted_view.subrange(
                    done + 1,
                    sorted_view.len() as int,
                )[i] by {
                    assert(rest.deep_view()[i] == rest@[i].deep_view());
                    assert(rest@[i] == rest_seq_pre[i + 1]);
                    assert(rest_pre[i + 1] == rest_seq_pre[i + 1].deep_view());
                    assert(rest_pre[i + 1] == sorted_view.subrange(
                        done as int,
                        sorted_view.len() as int,
                    )[i + 1]);
                }
                assert(rest.deep_view().len() == rest@.len());
                assert(rest.deep_view() =~= sorted_view.subrange(
                    done + 1,
                    sorted_view.len() as int,
                ));
            }
            let ghost pre = out.deep_view();
            let PackageInput { package, files } = inp;
            if passes_filters(&package) {
                match package.benchmarks(files) {
                    Ok(benches) => {
                        if benches.len() > 0 {
                            out.push(BenchmarkPackage::new(package, benches));
                            proof {
                                assert(out.deep_view() =~= pre.push(
                                    spec_bench_package(sorted_view[done as int]),
                                ));
                            }
                        }
                    },
                    Err(_) => {},
                }
            }
            done += 1;
            proof {
                assert(sorted_view.subrange(0, done as int).drop_last() =~= sorted_view.subrange(
                    0,
                    done - 1,
                ));
                assert(sorted_view.subrange(0, done as int).last() == sorted_view[done - 1]);
            }
        }
        proof {
            assert(sorted_view.subrange(0, sorted_view.len() as int) =~= sorted_view);
        }
        out
    }
}

/// Every entry of a stably sorted string sequence is an entry of the input.
proof fn lemma_insort_chars_membership(s: Seq<Seq<char>>)
    ensures
        insort_chars(s).len() == s.len(),
        forall|i: int| 0 <= i < insort_chars(s).len() ==> s.contains(#[trigger] insort_chars(s)[i]),
    decreases s.len(),
{
    if s.len() > 0 {
        lemma_insort_chars_membership(s.drop_last());
        let sorted_init = insort_chars(s.drop_last());
        crate::text::lemma_insert_pos_chars(s.last(), sorted_init);
        let k = insert_pos_chars(s.last(), sorted_init);
        assert forall|i: int|
            0 <= i < insort_chars(s).len() implies s.contains(
            #[trigger] insort_chars(s)[i],
        ) by {
            if i < k {
                assert(insort_chars(s)[i] == sorted_init[i]);
                assert(s.drop_last().contains(sorted_init[i]));
                let j = choose|j: int| 0 <= j < s.drop_last().len() && s.drop_last()[j]
                    == sorted_init[i];
                assert(s[j] == sorted_init[i]);
            } else if i == k {
                assert(insort_chars(s)[i] == s.last());
                assert(s[s.len() - 1] == s.last());
            } else {
                assert(insort_chars(s)[i] == sorted_init[i - 1]);
                assert(s.drop_last().contains(sorted_init[i - 1]));
                let j = choose|j: int| 0 <= j < s.drop_last().len() && s.drop_last()[j]
                    == sorted_init[i - 1];
                assert(s[j] == sorted_init[i - 1]);
            }
        }
    }
}

/// Every name the per-file extraction yields marks a benchmark.
proof fn lemma_file_bench_names_shape(funcs: Seq<Seq<char>>)
    ensures
        forall|i: int|
            0 <= i < spec_file_bench_names(funcs).len() ==> is_benchmark_name(
                #[trigger] spec_file_bench_names(funcs)[i],
            ),
{
    let filtered = funcs.filter(|n: Seq<char>| is_benchmark_name(n));
    lemma_insort_chars_membership(filtered);
    assert forall|i: int|
        0 <= i < spec_file_bench_names(funcs).len() implies is_benchmark_name(
        #[trigger] spec_file_bench_names(funcs)[i],
    ) by {
        assert(filtered.contains(spec_file_bench_names(funcs)[i]));
        let j = choose|j: int| 0 <= j < filtered.len() && filtered[j] == spec_file_bench_names(
            funcs,
        )[i];
        funcs.lemma_filter_pred(|n: Seq<char>| is_benchmark_name(n), j);
    }
}

/// A module-relative path keeps the `_test.go` suffix of the file it names.
proof fn lemma_strip_keeps_test_suffix(dir: Seq<char>, fname: Seq<char>, root: Seq<char>)
    requires
        ends_with_spec(fname, "_test.go"@),
        strip_dir_spec(dir + "/"@ + fname, root) is Some,
    ensures
        ends_with_spec(strip_dir_spec(dir + "/"@ + fname, root)->Some_0, "_test.go"@),
{
    reveal_strlit("_test.go");
    reveal_strlit("/");
    let full = dir + "/"@ + fname;
    let suffix = "_test.go"@;
    let a = root.len() + "/"@.len() as int;
    let rel = full.subrange(a, full.len() as int);
    let n = full.len() as int;
    assert(full[a - 1] == (root + "/"@)[a - 1]);
    assert(full[a - 1] == '/');
    assert forall|j: int| 0 <= j < suffix.len() implies full[n - suffix.len() + j] == suffix[j] by {
        assert(fname[fname.len() - suffix.len() + j] == suffix[j]);
        assert(full[dir.len() + 1 + (fname.len() - suffix.len() + j)] == fname[fname.len()
            - suffix.len() + j]);
    }
    if rel.len() < suffix.len() {
        let off = a - 1 - (n - suffix.len());
        assert(0 <= off < suffix.len());
        assert(full[a - 1] == suffix[off]);
        assert(suffix[off] != '/');
        assert(false);
    }
    assert forall|j: int| 0 <= j < suffix.len() implies rel[rel.len() - suffix.len() + j]
        == suffix[j] by {
        assert(rel[rel.len() - suffix.len() + j] == full[n - suffix.len() + j]);
    }
    assert(rel.subrange(rel.len() - suffix.len(), rel.len() as int) =~= suffix);
}

/// Every record the package-level extraction yields is a well-formed
/// benchmark: its name begins with `Benchmark`, its file path ends with
/// `_test.go`, and its alias and qualified name are the deterministic
/// functions of its name and its package's import path.
pub proof fn lemma_package_benchmarks_shape(
    p: GoPackageView,
    files: Seq<(Seq<char>, Option<Seq<char>>)>,
)
    ensures
        match spec_package_benchmarks(p, files) {
            Option::Some(benches) => forall|i: int|
                0 <= i < benches.len() ==> {
                    &&& is_benchmark_name((#[trigger] benches[i]).name)
                    &&& ends_with_spec(benches[i].file_path, "_test.go"@)
                    &&& benches[i] == bench_spec(
                        spec_package_import_path(p)->Some_0,
                        benches[i].name,
                        benches[i].file_path,
                        spec_is_external_test_package(p),
                    )
                },
            Option::None => true,
        },
    decreases files.len(),
{
    if spec_package_import_path(p) is Some && files.len() > 0 {
        lemma_package_benchmarks_shape(p, files.drop_last());
        match spec_package_benchmarks(p, files.drop_last()) {
            Option::None => {},
            Option::Some(rest) => {
                let fname = files.last().0;
                let content_opt = files.last().1;
                if ends_with_spec(fname, "_test.go"@) {
                    match content_opt {
                        Option::None => {},
                        Option::Some(content) => match go_parse(content) {
                            Option::None => {},
                            Option::Some(info) => {
                                let full = p.dir + "/"@ + fname;
                                match strip_dir_spec(full, p.module.dir) {
                                    Option::None => {},
                                    Option::Some(rel) => {
                                        lemma_file_bench_names_shape(info.3);
                                        lemma_strip_keeps_test_suffix(p.dir, fname, p.module.dir);
                                        let added = spec_file_benches(
                                            spec_package_import_path(p)->Some_0,
                                            info.3,
                                            rel,
                                            spec_is_external_test_package(p),
                                        );
                                        assert(forall|i: int|
                                            0 <= i < added.len() ==> #[trigger] added[i]
                                                == bench_spec(
                                                spec_package_import_path(p)->Some_0,
                                                spec_file_bench_names(info.3)[i],
                                                rel,
                                                spec_is_external_test_package(p),
                                            ));
                                    },
                                }
                            },
                        },
                    }
                }
            },
        }
    }
}

/// Every discovered package is a test executable (its import path ends with
/// `.test]`), holds at least one benchmark, and each of its benchmarks is
/// well formed as `lemma_package_benchmarks_shape` states.
pub proof fn lemma_from_project_shape(inputs: Seq<PackageInputView>)
    ensures
        forall|i: int|
            0 <= i < spec_from_project(inputs).len() ==> {
                &&& ends_with_spec(
                    (#[trigger] spec_from_project(inputs)[i]).raw_package.import_path,
                    ".test]"@,
                )
                &&& spec_from_project(inputs)[i].benchmarks.len() > 0
                &&& forall|j: int|
                    0 <= j < spec_from_project(inputs)[i].benchmarks.len() ==> {
                        &&& is_benchmark_name(
                            (#[trigger] spec_from_project(inputs)[i].benchmarks[j]).name,
                        )
                        &&& ends_with_spec(
                            spec_from_project(inputs)[i].benchmarks[j].file_path,
                            "_test.go"@,
                        )
                    }
            },
{
    lemma_collect_shape(insort_inputs(inputs));
}

proof fn lemma_collect_shape(inputs: Seq<PackageInputView>)
    ensures
        forall|i: int|
            0 <= i < spec_collect(inputs).len() ==> {
                &&& ends_with_spec(
                    (#[trigger] spec_collect(inputs)[i]).raw_package.import_path,
                    ".test]"@,
                )
                &&& spec_collect(inputs)[i].benchmarks.len() > 0
                &&& forall|j: int|
                    0 <= j < spec_collect(inputs)[i].benchmarks.len() ==> {
                        &&& is_benchmark_name(
                            (#[trigger] spec_collect(inputs)[i].benchmarks[j]).name,
                        )
                        &&& ends_with_spec(
                            spec_collect(inputs)[i].benchmarks[j].file_path,
                            "_test.go"@,
                        )
                    }
            },
    decreases inputs.len(),
{
    if inputs.len() > 0 {
        lemma_collect_shape(inputs.drop_last());
        if spec_keep(inputs.last()) {
            lemma_package_benchmarks_shape(
                inputs.last().package,
                insort_files(inputs.last().files),
            );
        }
    }
}

proof fn lemma_dec_len(n: int)
    requires
        n >= 0,
    ensures
        dec_spec(n).len() >= 1,
        n >= 10 ==> dec_spec(n).len() >= 2,
    decreases n,
{
    if n >= 10 {
        lemma_dec_len(n / 10);
    }
}

/// Decimal rendering tells values apart.
proof fn lemma_dec_injective(a: int, b: int)
    requires
        a >= 0,
        b >= 0,
        dec_spec(a) == dec_spec(b),
    ensures
        a == b,
    decreases a + b,
{
    lemma_dec_len(a);
    lemma_dec_len(b);
    assert(dec_spec(a).last() == dec_digit(a % 10));
    assert(dec_spec(b).last() == dec_digit(b % 10));
    assert(a % 10 == b % 10);
    if a < 10 && b < 10 {
    } else if a < 10 {
        assert(dec_spec(a).len() == 1);
        assert(false);
    } else if b < 10 {
        assert(dec_spec(b).len() == 1);
        assert(false);
    } else {
        assert(dec_spec(a).drop_last() == dec_spec(a / 10));
        assert(dec_spec(b).drop_last() == dec_spec(b / 10));
        lemma_dec_injective(a / 10, b / 10);
    }
}

/// Benchmarks of one name in packages whose import paths hash apart get
/// distinct aliases; together with `lemma_alias_stable` this is what keeps
/// the generated registrations unambiguous.
pub proof fn lemma_alias_distinct(name: Seq<char>, pkg1: Seq<char>, pkg2: Seq<char>)
    requires
        hash_spec(pkg1) != hash_spec(pkg2),
    ensures
        alias_spec(name, pkg1) != alias_spec(name, pkg2),
{
    lemma_hash_spec_bounds(pkg1);
    lemma_hash_spec_bounds(pkg2);
    let a1 = alias_spec(name, pkg1);
    let a2 = alias_spec(name, pkg2);
    let head = lower_spec(name) + "_"@;
    let d1 = dec_spec(hash_spec(pkg1));
    let d2 = dec_spec(hash_spec(pkg2));
    if a1 == a2 {
        assert(a1.len() == a2.len());
        assert(d1.len() == d2.len());
        assert forall|j: int| 0 <= j < d1.len() implies d1[j] == d2[j] by {
            assert(a1[head.len() + j] == d1[j]);
            assert(a2[head.len() + j] == d2[j]);
        }
        assert(d1 =~= d2);
        lemma_dec_injective(hash_spec(pkg1), hash_spec(pkg2));
        assert(false);
    }
}

/// The benchmark names extracted from one file come out in `lex_le` order.
pub proof fn lemma_file_bench_names_sorted(funcs: Seq<Seq<char>>)
    ensures
        forall|i: int, j: int|
            0 <= i < j < spec_file_bench_names(funcs).len() ==> lex_le(
                #[trigger] spec_file_bench_names(funcs)[i],
                #[trigger] spec_file_bench_names(funcs)[j],
            ),
{
    crate::text::lemma_insort_chars_sorted(
        funcs.filter(|n: Seq<char>| is_benchmark_name(n)),
    );
}

/// The stable sort of discovery inputs leaves them in import-path order.
proof fn lemma_insort_inputs_sorted(s: Seq<PackageInputView>)
    ensures
        forall|i: int, j: int|
            0 <= i < j < insort_inputs(s).len() ==> lex_le(
                (#[trigger] insort_inputs(s)[i]).package.import_path,
                (#[trigger] insort_inputs(s)[j]).package.import_path,
            ),
    decreases s.len(),
{
    if s.len() > 0 {
        lemma_insort_inputs_sorted(s.drop_last());
        let init = insort_inputs(s.drop_last());
        let x = s.last();
        lemma_insert_pos_input(x, init);
        let k = insert_pos_input(x, init);
        let after = init.insert(k, x);
        assert forall|i: int, j: int|
            0 <= i < j < after.len() implies lex_le(
            (#[trigger] after[i]).package.import_path,
            (#[trigger] after[j]).package.import_path,
        ) by {
            if j < k {
                assert(after[i] == init[i] && after[j] == init[j]);
            } else if j == k {
                assert(after[i] == init[i]);
                assert(lex_le(init[i].package.import_path, x.package.import_path));
            } else if i < k {
                assert(after[i] == init[i] && after[j] == init[j - 1]);
                assert(lex_le(init[i].package.import_path, init[j - 1].package.import_path));
            } else if i == k {
                assert(after[j] == init[j - 1]);
                assert(!lex_le(init[k].package.import_path, x.package.import_path));
                crate::text::lemma_lex_le_total(
                    x.package.import_path,
                    init[k].package.import_path,
                );
                if j - 1 > k {
                    assert(lex_le(init[k].package.import_path, init[j - 1].package.import_path));
                    crate::text::lemma_lex_le_trans(
                        x.package.import_path,
                        init[k].package.import_path,
                        init[j - 1].package.import_path,
                    );
                }
            } else {
                assert(after[i] == init[i - 1] && after[j] == init[j - 1]);
                assert(lex_le(init[i - 1].package.import_path, init[j - 1].package.import_path));
            }
        }
    }
}

/// The record at index `i` of the collected output came from a kept input.
pub open spec fn spec_collected_from(inputs: Seq<PackageInputView>, i: int) -> bool {
    exists|j: int|
        0 <= j < inputs.len() && spec_keep(#[trigger] inputs[j]) && spec_collect(inputs)[i]
            == spec_bench_package(inputs[j])
}

/// Every collected record is the record of some kept input.
proof fn lemma_collect_member(inputs: Seq<PackageInputView>)
    ensures
        forall|i: int|
            0 <= i < spec_collect(inputs).len() ==> #[trigger] spec_collected_from(inputs, i),
    decreases inputs.len(),
{
    if inputs.len() > 0 {
        lemma_collect_member(inputs.drop_last());
        assert forall|i: int|
            0 <= i < spec_collect(inputs).len() implies #[trigger] spec_collected_from(
            inputs,
            i,
        ) by {
            if i < spec_collect(inputs.drop_last()).len() {
                assert(spec_collect(inputs)[i] == spec_collect(inputs.drop_last())[i]);
                assert(spec_collected_from(inputs.drop_last(), i));
                let j = choose|j: int|
                    0 <= j < inputs.drop_last().len() && spec_keep(
                        #[trigger] inputs.drop_last()[j],
                    ) && spec_collect(inputs.drop_last())[i] == spec_bench_package(
                        inputs.drop_last()[j],
                    );
                assert(inputs[j] == inputs.drop_last()[j]);
                assert(0 <= j < inputs.len() && spec_keep(inputs[j]) && spec_collect(inputs)[i]
                    == spec_bench_package(inputs[j]));
            } else {
                assert(spec_keep(inputs.last()));
                let j = inputs.len() - 1;
                assert(0 <= j < inputs.len() && spec_keep(inputs[j]) && spec_collect(inputs)[i]
                    == spec_bench_package(inputs[j]));
            }
        }
    }
}

/// Discovery yields its packages sorted by import path.
pub proof fn lemma_from_project_sorted(inputs: Seq<PackageInputView>)
    ensures
        forall|i: int, j: int|
            0 <= i < j < spec_from_project(inputs).len() ==> lex_le(
                (#[trigger] spec_from_project(inputs)[i]).raw_package.import_path,
                (#[trigger] spec_from_project(inputs)[j]).raw_package.import_path,
            ),
{
    let sorted = insort_inputs(inputs);
    lemma_insort_inputs_sorted(inputs);
    lemma_collect_sorted(sorted);
}

/// Collecting from inputs in import-path order keeps that order.
proof fn lemma_collect_sorted(inputs: Seq<PackageInputView>)
    requires
        forall|i: int, j: int|
            0 <= i < j < inputs.len() ==> lex_le(
                (#[trigger] inputs[i]).package.import_path,
                (#[trigger] inputs[j]).package.import_path,
            ),
    ensures
        forall|i: int, j: int|
            0 <= i < j < spec_collect(inputs).len() ==> lex_le(
                (#[trigger] spec_collect(inputs)[i]).raw_package.import_path,
                (#[trigger] spec_collect(inputs)[j]).raw_package.import_path,
            ),
    decreases inputs.len(),
{
    if inputs.len() > 0 {
        assert(forall|i: int, j: int|
            0 <= i < j < inputs.drop_last().len() ==> lex_le(
                (#[trigger] inputs.drop_last()[i]).package.import_path,
                (#[trigger] inputs.drop_last()[j]).package.import_path,
            ));
        lemma_collect_sorted(inputs.drop_last());
        if spec_keep(inputs.last()) {
            lemma_collect_member(inputs.drop_last());
            let prev = spec_collect(inputs.drop_last());
            assert forall|i: int, j: int|
                0 <= i < j < spec_collect(inputs).len() implies lex_le(
                (#[trigger] spec_collect(inputs)[i]).raw_package.import_path,
                (#[trigger] spec_collect(inputs)[j]).raw_package.import_path,
            ) by {
                if j < prev.len() {
                    assert(spec_collect(inputs)[i] == prev[i]);
                    assert(spec_collect(inputs)[j] == prev[j]);
                } else {
                    assert(spec_collect(inputs)[j] == spec_bench_package(inputs.last()));
                    assert(spec_collect(inputs)[i] == prev[i]);
                    assert(spec_collected_from(inputs.drop_last(), i));
                    let m = choose|m: int|
                        0 <= m < inputs.drop_last().len() && spec_keep(
                            #[trigger] inputs.drop_last()[m],
                        ) && prev[i] == spec_bench_package(inputs.drop_last()[m]);
                    assert(inputs[m] == inputs.drop_last()[m]);
                    assert(lex_le(
                        inputs[m].package.import_path,
                        inputs[inputs.len() - 1].package.import_path,
                    ));
                }
            }
        }
    }
}

/// Discovery is a function of its inputs alone: two runs over equal inputs
/// yield equal output, in the same order.
pub proof fn lemma_discovery_deterministic(
    inputs: Seq<PackageInputView>,
    r1: Seq<BenchmarkPackageView>,
    r2: Seq<BenchmarkPackageView>,
)
    requires
        r1 == spec_from_project(inputs),
        r2 == spec_from_project(inputs),
    ensures
        r1 == r2,
{
}

} // verus!
