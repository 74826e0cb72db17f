//! Character-accurate rewrites of Go source text: import redirection to the
//! custom timing runtime and package-clause renames that make otherwise
//! unbuildable layouts buildable.
//!
//! Each rewrite is computed from the positions the parser reports and applied
//! as a splice over the source's characters. A rewrite whose reported range
//! does not fit the source leaves the text unchanged rather than fail.

use vstd::prelude::*;
use vstd::string::*;

use crate::gosource::{go_parse, parse_go_source, GoSourceInfo};
use crate::text::{
    contains_spec, contains_sub, ends_with, ends_with_spec, splice_spec, splice_str, str_eq,
};

verus! {

/// `p` wrapped in double quotes, the shape of an import path literal.
pub open spec fn quoted_spec(p: Seq<char>) -> Seq<char> {
    seq!['"'] + p + seq!['"']
}

pub fn quote_str(p: &str) -> (r: String)
    ensures
        r@ == quoted_spec(p@),
{
    let mut out = "\"".to_owned();
    out.append(p);
    out.append("\"");
    proof {
        reveal_strlit("\"");
        assert(out@ =~= quoted_spec(p@));
    }
    out
}

/// The index of the first import whose quoted text is `q`, or the number of
/// imports when there is none.
pub open spec fn first_import_match(imports: Seq<(int, Seq<char>)>, q: Seq<char>) -> int
    decreases imports.len(),
{
    if imports.len() == 0 {
        0
    } else if imports[0].1 == q {
        0
    } else {
        1 + first_import_match(imports.drop_first(), q)
    }
}

pub proof fn lemma_first_import_match(imports: Seq<(int, Seq<char>)>, q: Seq<char>)
    ensures
        0 <= first_import_match(imports, q) <= imports.len(),
        forall|i: int| 0 <= i < first_import_match(imports, q) ==> imports[i].1 != q,
        first_import_match(imports, q) < imports.len() ==> imports[first_import_match(
            imports,
            q,
        )].1 == q,
    decreases imports.len(),
{
    if imports.len() > 0 && imports[0].1 != q {
        lemma_first_import_match(imports.drop_first(), q);
        let k2 = first_import_match(imports.drop_first(), q);
        assert forall|i: int| 0 <= i < k2 + 1 implies imports[i].1 != q by {
            if i >= 1 {
                assert(imports.drop_first()[i - 1] == imports[i]);
            }
        }
        if k2 + 1 < imports.len() {
            assert(imports.drop_first()[k2] == imports[k2 + 1]);
        }
    }
}

/// The result of redirecting one import path: when `s` holds `path` somewhere,
/// parses, and declares an import whose quoted text is exactly `"path"`, that
/// literal's range is spliced with `repl`; otherwise `s` is unchanged.
pub open spec fn replace_import_spec(s: Seq<char>, path: Seq<char>, repl: Seq<char>) -> Seq<char> {
    if !contains_spec(s, path) {
        s
    } else {
        match go_parse(s) {
            Option::None => s,
            Option::Some(info) => {
                let imports = info.2;
                let k = first_import_match(imports, quoted_spec(path));
                if k == imports.len() {
                    s
                } else {
                    let pos = imports[k].0;
                    let text = imports[k].1;
                    if 0 <= pos && pos + text.len() <= s.len() {
                        splice_spec(s, pos, text.len() as int, repl)
                    } else {
                        s
                    }
                }
            },
        }
    }
}

/// Redirects the import of `path` in `src` to `repl`.
pub fn replace_import(src: &str, path: &str, repl: &str) -> (r: String)
    ensures
        r@ == replace_import_spec(src@, path@, repl@),
{
    if !contains_sub(src, path) {
        return src.to_owned();
    }
    let parsed = parse_go_source(src);
    let info: GoSourceInfo = match parsed {
        Option::None => {
            return src.to_owned();
        },
        Option::Some(info) => info,
    };
    let q = quote_str(path);
    let n_imports: usize = info.imports.len();
    let mut k: usize = 0;
    while k < n_imports && !str_eq(info.imports[k].text.as_str(), q.as_str())
        invariant
            k <= n_imports,
            n_imports == info.imports@.len(),
            forall|i: int| 0 <= i < k ==> info.imports@[i]@.1 != q@,
        decreases n_imports - k,
    {
        k += 1;
    }
    proof {
        let imports_v = info@.2;
        assert(forall|i: int|
            0 <= i < imports_v.len() ==> imports_v[i] == info.imports@[i]@);
        lemma_first_import_match(imports_v, quoted_spec(path@));
        let sp = first_import_match(imports_v, quoted_spec(path@));
        if (k as int) < sp {
            assert(imports_v[k as int].1 == q@);
            assert(false);
        }
        if sp < (k as int) {
            assert(imports_v[sp].1 == q@);
            assert(false);
        }
    }
    if k == n_imports {
        return src.to_owned();
    }
    let pos: usize = info.imports[k].pos;
    let text_len: usize = info.imports[k].text.as_str().unicode_len();
    let src_len: usize = src.unicode_len();
    if pos <= src_len && text_len <= src_len - pos {
        splice_str(src, pos, text_len, repl)
    } else {
        src.to_owned()
    }
}

/// The full import redirection: the standard `testing` package, its
/// documented subpackages, and the wrapped third-party assertion libraries,
/// each replaced in this order.
pub open spec fn patch_imports_spec(s: Seq<char>) -> Seq<char> {
    let s1 = replace_import_spec(
        s,
        "testing"@,
        "testing \"github.com/CodSpeedHQ/codspeed-go/testing/testing\""@,
    );
    let s2 = replace_import_spec(
        s1,
        "testing/fstest"@,
        "fstest \"github.com/CodSpeedHQ/codspeed-go/testing/testing/fstest\""@,
    );
    let s3 = replace_import_spec(
        s2,
        "testing/iotest"@,
        "iotest \"github.com/CodSpeedHQ/codspeed-go/testing/testing/iotest\""@,
    );
    let s4 = replace_import_spec(
        s3,
        "testing/quick"@,
        "quick \"github.com/CodSpeedHQ/codspeed-go/testing/testing/quick\""@,
    );
    let s5 = replace_import_spec(
        s4,
        "testing/slogtest"@,
        "slogtest \"github.com/CodSpeedHQ/codspeed-go/testing/testing/slogtest\""@,
    );
    let s6 = replace_import_spec(
        s5,
        "testing/synctest"@,
        "synctest \"github.com/CodSpeedHQ/codspeed-go/testing/testing/synctest\""@,
    );
    let s7 = replace_import_spec(
        s6,
        "github.com/thejerf/slogassert"@,
        "\"github.com/CodSpeedHQ/codspeed-go/pkg/slogassert\""@,
    );
    replace_import_spec(
        s7,
        "github.com/frankban/quicktest"@,
        "\"github.com/CodSpeedHQ/codspeed-go/pkg/quicktest\""@,
    )
}

/// Rewrites the import declarations of one Go source so that the standard
/// `testing` package and the wrapped assertion libraries resolve to the
/// custom runtime's sibling packages.
pub fn patch_imports_for_source(src: &str) -> (r: String)
    ensures
        r@ == patch_imports_spec(src@),
{
    let s1 = replace_import(
        src,
        "testing",
        "testing \"github.com/CodSpeedHQ/codspeed-go/testing/testing\"",
    );
    let s2 = replace_import(
        s1.as_str(),
        "testing/fstest",
        "fstest \"github.com/CodSpeedHQ/codspeed-go/testing/testing/fstest\"",
    );
    let s3 = replace_import(
        s2.as_str(),
        "testing/iotest",
        "iotest \"github.com/CodSpeedHQ/codspeed-go/testing/testing/iotest\"",
    );
    let s4 = replace_import(
        s3.as_str(),
        "testing/quick",
        "quick \"github.com/CodSpeedHQ/codspeed-go/testing/testing/quick\"",
    );
    let s5 = replace_import(
        s4.as_str(),
        "testing/slogtest",
        "slogtest \"github.com/CodSpeedHQ/codspeed-go/testing/testing/slogtest\"",
    );
    let s6 = replace_import(
        s5.as_str(),
        "testing/synctest",
        "synctest \"github.com/CodSpeedHQ/codspeed-go/testing/testing/synctest\"",
    );
    let s7 = replace_import(
        s6.as_str(),
        "github.com/thejerf/slogassert",
        "\"github.com/CodSpeedHQ/codspeed-go/pkg/slogassert\"",
    );
    replace_import(
        s7.as_str(),
        "github.com/frankban/quicktest",
        "\"github.com/CodSpeedHQ/codspeed-go/pkg/quicktest\"",
    )
}

/// The source could not be parsed, so no rewrite was possible.
#[derive(Debug, Clone, Copy, PartialEq, Eq, Structural)]
pub struct ParseFailed;

/// The new name for a package clause: the entry-point package becomes
/// importable, an external test package becomes linkable, anything else is
/// kept.
pub open spec fn renamed_package_spec(name: Seq<char>) -> Option<Seq<char>> {
    if name == "main"@ {
        Option::Some("main_compat"@)
    } else if ends_with_spec(name, "_test"@) {
        Option::Some("main"@)
    } else {
        Option::None
    }
}

/// The result of renaming the package clause of `s`: `None` when `s` does not
/// parse; otherwise the clause's identifier range spliced with the new name,
/// or `s` unchanged when no rename applies or the range does not fit.
pub open spec fn patch_package_spec(s: Seq<char>) -> Option<Seq<char>> {
    match go_parse(s) {
        Option::None => Option::None,
        Option::Some(info) => {
            let pos = info.0;
            let name = info.1;
            match renamed_package_spec(name) {
                Option::None => Option::Some(s),
                Option::Some(new_name) => {
                    if 0 <= pos && pos + name.len() <= s.len() {
                        Option::Some(splice_spec(s, pos, name.len() as int, new_name))
                    } else {
                        Option::Some(s)
                    }
                },
            }
        },
    }
}

/// Renames `package main` to `package main_compat`, and the clause of an
/// external test package (`package foo_test`) to `package main`.
pub fn patch_package_for_source(src: &str) -> (r: Result<String, ParseFailed>)
    ensures
        match r {
            Ok(out) => patch_package_spec(src@) == Option::Some(out@),
            Err(_) => patch_package_spec(src@) is None,
        },
{
    let parsed = parse_go_source(src);
    let info: GoSourceInfo = match parsed {
        Option::None => {
            return Err(ParseFailed);
        },
        Option::Some(info) => info,
    };
    let new_name: Option<&str> = if str_eq(info.package_name.as_str(), "main") {
        Option::Some("main_compat")
    } else if ends_with(info.package_name.as_str(), "_test") {
        Option::Some("main")
    } else {
        Option::None
    };
    match new_name {
        Option::None => Ok(src.to_owned()),
        Option::Some(nn) => {
            let pos: usize = info.package_pos;
            let name_len: usize = info.package_name.as_str().unicode_len();
            let src_len: usize = src.unicode_len();
            if pos <= src_len && name_len <= src_len - pos {
                Ok(splice_str(src, pos, name_len, nn))
            } else {
                Ok(src.to_owned())
            }
        },
    }
}

/// Applies the package-clause rename to every source in order; the first
/// unparsable source fails the whole batch, as walking a package directory
/// does.
pub fn patch_package_sources(sources: &Vec<String>) -> (r: Result<Vec<String>, ParseFailed>)
    ensures
        match r {
            Ok(out) => out@.len() == sources@.len() && forall|i: int|
                0 <= i < out@.len() ==> patch_package_spec(sources@[i]@) == Option::Some(
                    out@[i]@,
                ),
            Err(_) => exists|i: int|
                0 <= i < sources@.len() && patch_package_spec(sources@[i]@) is None,
        },
{
    let mut out: Vec<String> = Vec::new();
    let mut i: usize = 0;
    while i < sources.len()
        invariant
            i <= sources@.len(),
            out@.len() == i,
            forall|j: int|
                0 <= j < i ==> patch_package_spec(sources@[j]@) == Option::Some(out@[j]@),
        decreases sources@.len() - i,
    {
        match patch_package_for_source(sources[i].as_str()) {
            Ok(p) => {
                out.push(p);
            },
            Err(e) => {
                return Err(e);
            },
        }
        i += 1;
    }
    Ok(out)
}

/// `q` is the quoted form of one of the import paths the patcher redirects.
pub open spec fn is_redirected_import(q: Seq<char>) -> bool {
    ||| q == quoted_spec("testing"@)
    ||| q == quoted_spec("testing/fstest"@)
    ||| q == quoted_spec("testing/iotest"@)
    ||| q == quoted_spec("testing/quick"@)
    ||| q == quoted_spec("testing/slogtest"@)
    ||| q == quoted_spec("testing/synctest"@)
    ||| q == quoted_spec("github.com/thejerf/slogassert"@)
    ||| q == quoted_spec("github.com/frankban/quicktest"@)
}

/// Redirecting an import that no import declaration of `t` carries leaves `t`
/// unchanged.
pub proof fn lemma_replace_import_unchanged(t: Seq<char>, path: Seq<char>, repl: Seq<char>)
    requires
        match go_parse(t) {
            Option::Some(info) => forall|i: int|
                0 <= i < info.2.len() ==> info.2[i].1 != quoted_spec(path),
            Option::None => true,
        },
    ensures
        replace_import_spec(t, path, repl) == t,
{
    if contains_spec(t, path) {
        match go_parse(t) {
            Option::Some(info) => {
                lemma_first_import_match(info.2, quoted_spec(path));
                let k = first_import_match(info.2, quoted_spec(path));
                if k < info.2.len() {
                    assert(info.2[k].1 == quoted_spec(path));
                    assert(false);
                }
            },
            Option::None => {},
        }
    }
}

/// A source whose parsed imports name none of the redirected paths is a fixed
/// point of the import patch: patching it again returns it unchanged. This is
/// the shape of the patcher's own output, whose redirected imports carry the
/// custom runtime's paths instead.
pub proof fn lemma_patch_imports_fixed_point(t: Seq<char>)
    requires
        match go_parse(t) {
            Option::Some(info) => forall|i: int|
                0 <= i < info.2.len() ==> !is_redirected_import(#[trigger] info.2[i].1),
            Option::None => true,
        },
    ensures
        patch_imports_spec(t) == t,
{
    lemma_replace_import_unchanged(
        t,
        "testing"@,
        "testing \"github.com/CodSpeedHQ/codspeed-go/testing/testing\""@,
    );
    lemma_replace_import_unchanged(
        t,
        "testing/fstest"@,
        "fstest \"github.com/CodSpeedHQ/codspeed-go/testing/testing/fstest\""@,
    );
    lemma_replace_import_unchanged(
        t,
        "testing/iotest"@,
        "iotest \"github.com/CodSpeedHQ/codspeed-go/testing/testing/iotest\""@,
    );
    lemma_replace_import_unchanged(
        t,
        "testing/quick"@,
        "quick \"github.com/CodSpeedHQ/codspeed-go/testing/testing/quick\""@,
    );
    lemma_replace_import_unchanged(
        t,
        "testing/slogtest"@,
        "slogtest \"github.com/CodSpeedHQ/codspeed-go/testing/testing/slogtest\""@,
    );
    lemma_replace_import_unchanged(
        t,
        "testing/synctest"@,
        "synctest \"github.com/CodSpeedHQ/codspeed-go/testing/testing/synctest\""@,
    );
    lemma_replace_import_unchanged(
        t,
        "github.com/thejerf/slogassert"@,
        "\"github.com/CodSpeedHQ/codspeed-go/pkg/slogassert\""@,
    );
    lemma_replace_import_unchanged(
        t,
        "github.com/frankban/quicktest"@,
        "\"github.com/CodSpeedHQ/codspeed-go/pkg/quicktest\""@,
    );
}

/// A source whose parsed package name needs no rename is a fixed point of the
/// package patch. This is the shape of the package patcher's own output,
/// whose clause reads `main_compat`, or `main` in a file that declared an
/// external test package.
pub proof fn lemma_patch_package_fixed_point(t: Seq<char>)
    requires
        match go_parse(t) {
            Option::Some(info) => renamed_package_spec(info.1) is None,
            Option::None => false,
        },
    ensures
        patch_package_spec(t) == Option::Some(t),
{
}

} // verus!
