//! Path arithmetic around the version-control root, and the overlay
//! template's placeholders.

use vstd::prelude::*;
use vstd::string::*;

use crate::text::{
    replace_all, replace_all_spec, str_eq, strip_dir, strip_dir_spec,
};

verus! {

/// A path relative to the enclosing version-control root: the part below
/// the root when one encloses it, the path itself otherwise.
pub open spec fn spec_git_relative_path(abs_path: Seq<char>, repo_path: Option<Seq<char>>) -> Seq<
    char,
> {
    match repo_path {
        Option::None => abs_path,
        Option::Some(root) => {
            if abs_path == root {
                Seq::empty()
            } else {
                match strip_dir_spec(abs_path, root) {
                    Option::Some(rel) => rel,
                    Option::None => abs_path,
                }
            }
        },
    }
}

/// Makes `abs_path` relative to the version-control root that encloses it,
/// when the caller found one.
pub fn get_git_relative_path(abs_path: &str, repo_path: Option<&str>) -> (r: String)
    ensures
        r@ == spec_git_relative_path(abs_path@, repo_path.deep_view()),
{
    match repo_path {
        Option::None => abs_path.to_owned(),
        Option::Some(root) => {
            if str_eq(abs_path, root) {
                proof {
                    reveal_strlit("");
                }
                "".to_owned()
            } else {
                match strip_dir(abs_path, root) {
                    Option::Some(rel) => rel,
                    Option::None => abs_path.to_owned(),
                }
            }
        },
    }
}

/// An overlay template with its three placeholders filled: the directory of
/// the instrumentation hooks, the profile directory, and this tool's
/// version.
pub open spec fn spec_fill_overlay_template(
    content: Seq<char>,
    hooks_dir: Seq<char>,
    profile_dir: Seq<char>,
    version: Seq<char>,
) -> Seq<char> {
    replace_all_spec(
        replace_all_spec(
            replace_all_spec(content, "@@INSTRUMENT_HOOKS_DIR@@"@, hooks_dir),
            "@@CODSPEED_PROFILE_DIR@@"@,
            profile_dir,
        ),
        "@@GO_RUNNER_VERSION@@"@,
        version,
    )
}

/// Fills the placeholders of one overlay template.
pub fn fill_overlay_template(
    content: &str,
    hooks_dir: &str,
    profile_dir: &str,
    version: &str,
) -> (r: String)
    ensures
        r@ == spec_fill_overlay_template(content@, hooks_dir@, profile_dir@, version@),
{
    let s1: String = replace_all(content, "@@INSTRUMENT_HOOKS_DIR@@", hooks_dir);
    let s2: String = replace_all(s1.as_str(), "@@CODSPEED_PROFILE_DIR@@", profile_dir);
    replace_all(s2.as_str(), "@@GO_RUNNER_VERSION@@", version)
}

} // verus!
