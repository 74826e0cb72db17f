//! Go toolchain version handling: reading the version a module requires
//! from its `go.mod`, reading the toolchain's own reported version, and
//! deciding whether the toolchain can build the module.

use vstd::prelude::*;
use vstd::string::*;

use crate::text::{
    skip_spaces_from, split_lines, split_lines_spec, starts_with, starts_with_spec,
    token_end_from, trim, trim_spec,
};

verus! {

/// Whether a requirement text is a well-formed SemVer requirement.
pub uninterp spec fn semver_req_ok(req: Seq<char>) -> bool;

/// Relies on `semver::VersionReq::parse`: whether a requirement text parses
/// is a function of the text alone.
#[verifier::external_body]
fn version_req_parses(req: &str) -> (r: bool)
    ensures
        r == semver_req_ok(req@),
{
    semver::VersionReq::parse(req).is_ok()
}

/// Whether a requirement admits a version, both given as text; `None`
/// stands for either text failing to parse.
pub uninterp spec fn semver_req_matches(req: Seq<char>, ver: Seq<char>) -> Option<bool>;

/// Relies on `semver::VersionReq::matches`, with `semver::VersionReq::parse`
/// and `semver::Version::parse` converting the two arguments: whether a
/// requirement admits a version is a function of the two texts alone.
#[verifier::external_body]
fn version_req_matches(req: &str, ver: &str) -> (r: Option<bool>)
    ensures
        r == semver_req_matches(req@, ver@),
{
    let req = match semver::VersionReq::parse(req) {
        Ok(r) => r,
        Err(_) => return None,
    };
    let ver = match semver::Version::parse(ver) {
        Ok(v) => v,
        Err(_) => return None,
    };
    Some(req.matches(&ver))
}

/// The version requirement a `go.mod` declares: what follows `go ` on the
/// first line carrying that prefix.
pub open spec fn spec_go_mod_version(content: Seq<char>) -> Option<Seq<char>> {
    spec_go_mod_version_from(split_lines_spec(content), 0)
}

pub open spec fn spec_go_mod_version_from(lines: Seq<Seq<char>>, i: int) -> Option<Seq<char>>
    decreases lines.len() - i,
{
    if i < 0 || i >= lines.len() {
        Option::None
    } else if starts_with_spec(lines[i], "go "@) {
        Option::Some(lines[i].subrange("go "@.len() as int, lines[i].len() as int))
    } else {
        spec_go_mod_version_from(lines, i + 1)
    }
}

/// Reads the `go <version>` line of a `go.mod` file's contents.
pub fn go_mod_version(content: &str) -> (r: Option<String>)
    ensures
        r.deep_view() == spec_go_mod_version(content@),
{
    let lines: Vec<String> = split_lines(content);
    let ghost lines_v = lines.deep_view();
    let n: usize = lines.len();
    let mut i: usize = 0;
    while i < n
        invariant
            i <= n,
            n == lines@.len(),
            lines_v == lines.deep_view(),
            lines_v == split_lines_spec(content@),
            lines_v.len() == lines@.len(),
            spec_go_mod_version(content@) == spec_go_mod_version_from(lines_v, i as int),
        decreases n - i,
    {
        proof {
            assert(lines_v[i as int] == lines@[i as int]@);
        }
        if starts_with(lines[i].as_str(), "go ") {
            proof {
                reveal_strlit("go ");
            }
            let line_len: usize = lines[i].as_str().unicode_len();
            return Option::Some(lines[i].as_str().substring_char(3, line_len).to_owned());
        }
        i += 1;
    }
    Option::None
}

/// The bounds of the whitespace-delimited token number `k` of `s`: where it
/// starts (the length of `s` when there is none) and where it ends.
pub open spec fn spec_token_bounds(s: Seq<char>, k: int) -> (int, int)
    decreases k,
{
    if k <= 0 {
        let a = skip_spaces_from(s, 0);
        (a, token_end_from(s, a))
    } else {
        let prev = spec_token_bounds(s, k - 1);
        let a = skip_spaces_from(s, prev.1);
        (a, token_end_from(s, a))
    }
}

/// The token at index `k`, when `s` has that many.
pub open spec fn spec_nth_token(s: Seq<char>, k: int) -> Option<Seq<char>> {
    let b = spec_token_bounds(s, k);
    if b.0 >= s.len() {
        Option::None
    } else {
        Option::Some(s.subrange(b.0, b.1))
    }
}

proof fn lemma_token_bounds(s: Seq<char>, k: int)
    requires
        k >= 0,
    ensures
        0 <= spec_token_bounds(s, k).0 <= s.len(),
        spec_token_bounds(s, k).0 <= spec_token_bounds(s, k).1 <= s.len(),
    decreases k,
{
    if k == 0 {
        crate::text::lemma_skip_spaces_from(s, 0);
        crate::text::lemma_token_end_from(s, spec_token_bounds(s, 0).0);
    } else {
        lemma_token_bounds(s, k - 1);
        crate::text::lemma_skip_spaces_from(s, spec_token_bounds(s, k - 1).1);
        crate::text::lemma_token_end_from(s, spec_token_bounds(s, k).0);
    }
}

/// The whitespace-delimited token at index `k` of `s`.
pub fn nth_token(s: &str, k: usize) -> (r: Option<String>)
    ensures
        r.deep_view() == spec_nth_token(s@, k as int),
{
    let n: usize = s.unicode_len();
    let mut idx: usize = 0;
    let mut pos: usize = 0;
    proof {
        lemma_token_bounds(s@, 0);
    }
    let mut a: usize = skip_spaces(s, pos);
    let mut b: usize = token_end(s, a);
    while idx < k
        invariant
            idx <= k,
            n == s@.len(),
            a as int == spec_token_bounds(s@, idx as int).0,
            b as int == spec_token_bounds(s@, idx as int).1,
            a <= b <= n,
        decreases k - idx,
    {
        idx += 1;
        proof {
            lemma_token_bounds(s@, idx as int);
        }
        a = skip_spaces(s, b);
        b = token_end(s, a);
    }
    if a >= n {
        Option::None
    } else {
        Option::Some(s.substring_char(a, b).to_owned())
    }
}

/// The first index at or after `i` holding a non-whitespace character.
fn skip_spaces(s: &str, i: usize) -> (r: usize)
    requires
        i <= s@.len(),
    ensures
        r as int == skip_spaces_from(s@, i as int),
        i <= r <= s@.len(),
{
    let n: usize = s.unicode_len();
    let mut j: usize = i;
    while j < n && crate::text::is_space_exec(s.get_char(j))
        invariant
            i <= j <= n,
            n == s@.len(),
            forall|p: int| i <= p < j ==> crate::text::is_space_spec(s@[p]),
        decreases n - j,
    {
        j += 1;
    }
    proof {
        crate::text::lemma_skip_spaces_from(s@, i as int);
        let sj = skip_spaces_from(s@, i as int);
        if (j as int) < sj {
            assert(crate::text::is_space_spec(s@[j as int]));
            assert(false);
        }
        if sj < (j as int) {
            assert(crate::text::is_space_spec(s@[sj]));
            assert(false);
        }
    }
    j
}

/// The first index at or after `i` holding a whitespace character.
fn token_end(s: &str, i: usize) -> (r: usize)
    requires
        i <= s@.len(),
    ensures
        r as int == token_end_from(s@, i as int),
        i <= r <= s@.len(),
{
    let n: usize = s.unicode_len();
    let mut j: usize = i;
    while j < n && !crate::text::is_space_exec(s.get_char(j))
        invariant
            i <= j <= n,
            n == s@.len(),
            forall|p: int| i <= p < j ==> !crate::text::is_space_spec(s@[p]),
        decreases n - j,
    {
        j += 1;
    }
    proof {
        crate::text::lemma_token_end_from(s@, i as int);
        let sj = token_end_from(s@, i as int);
        if (j as int) < sj {
            assert(!crate::text::is_space_spec(s@[j as int]));
            assert(false);
        }
        if sj < (j as int) {
            assert(crate::text::is_space_spec(s@[sj]));
            assert(false);
        }
    }
    j
}

/// The version number in the toolchain's `version` report: the third
/// whitespace-delimited token, without its `go` prefix. The report reads
/// like `go version go1.24.9 linux/amd64`.
pub open spec fn spec_go_version_number(output: Seq<char>) -> Option<Seq<char>> {
    match spec_nth_token(output, 2) {
        Option::None => Option::None,
        Option::Some(tok) => {
            if starts_with_spec(tok, "go"@) {
                Option::Some(tok.subrange("go"@.len() as int, tok.len() as int))
            } else {
                Option::None
            }
        },
    }
}

/// Reads the version number out of the toolchain's `version` report.
pub fn go_version_number(output: &str) -> (r: Option<String>)
    ensures
        r.deep_view() == spec_go_version_number(output@),
{
    let tok: String = match nth_token(output, 2) {
        Option::Some(t) => t,
        Option::None => {
            return Option::None;
        },
    };
    if starts_with(tok.as_str(), "go") {
        proof {
            reveal_strlit("go");
        }
        let tok_len: usize = tok.as_str().unicode_len();
        Option::Some(tok.as_str().substring_char(2, tok_len).to_owned())
    } else {
        Option::None
    }
}

/// The version number in the toolchain's environment report: the trimmed
/// text without its `go` prefix, as in `go1.25.2`.
pub open spec fn spec_goversion_env_number(output: Seq<char>) -> Option<Seq<char>> {
    let t = trim_spec(output);
    if starts_with_spec(t, "go"@) {
        Option::Some(t.subrange("go"@.len() as int, t.len() as int))
    } else {
        Option::None
    }
}

/// Reads the version number out of the toolchain's environment report.
pub fn goversion_env_number(output: &str) -> (r: Option<String>)
    ensures
        r.deep_view() == spec_goversion_env_number(output@),
{
    let t: String = trim(output);
    if starts_with(t.as_str(), "go") {
        proof {
            reveal_strlit("go");
        }
        let t_len: usize = t.as_str().unicode_len();
        Option::Some(t.as_str().substring_char(2, t_len).to_owned())
    } else {
        Option::None
    }
}

/// Whether the toolchain at `current_version` can build a module with the
/// given `go.mod` contents: a module that names no version, or one whose
/// requirement text is not SemVer, constrains nothing; otherwise the
/// requirement decides. `None` stands for a current version that SemVer
/// cannot read.
pub open spec fn spec_can_build_project(
    go_mod_content: Option<Seq<char>>,
    current_version: Seq<char>,
) -> Option<bool> {
    match go_mod_content {
        Option::None => Option::Some(true),
        Option::Some(content) => match spec_go_mod_version(content) {
            Option::None => Option::Some(true),
            Option::Some(req) => {
                if !semver_req_ok(req) {
                    Option::Some(true)
                } else {
                    match semver_req_matches(req, current_version) {
                        Option::Some(b) => Option::Some(b),
                        Option::None => Option::None,
                    }
                }
            },
        },
    }
}

/// Decides whether the toolchain can build the project, from the project's
/// `go.mod` contents (when it has one) and the toolchain's version number.
pub fn can_build_project(go_mod_content: Option<&String>, current_version: &str) -> (r: Option<
    bool,
>)
    ensures
        r == spec_can_build_project(go_mod_content.deep_view(), current_version@),
{
    let content: &String = match go_mod_content {
        Option::None => {
            return Option::Some(true);
        },
        Option::Some(c) => c,
    };
    let req: String = match go_mod_version(content.as_str()) {
        Option::None => {
            return Option::Some(true);
        },
        Option::Some(r) => r,
    };
    if !version_req_parses(req.as_str()) {
        return Option::Some(true);
    }
    match version_req_matches(req.as_str(), current_version) {
        Option::Some(b) => Option::Some(b),
        Option::None => Option::None,
    }
}

} // verus!
