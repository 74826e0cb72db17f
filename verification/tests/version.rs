use codspeed_go_runner::version::{
    can_build_project, go_mod_version, go_version_number, goversion_env_number,
};

#[test]
fn test_go_mod_version() {
    let content = "module local.dev/example\n\ngo 1.21\n\nrequire (\n)\n";
    assert_eq!(go_mod_version(content), Some("1.21".to_string()));

    let content = "module local.dev/example\n";
    assert_eq!(go_mod_version(content), None);
}

#[test]
fn test_go_version_number() {
    assert_eq!(
        go_version_number("go version go1.24.9 linux/amd64"),
        Some("1.24.9".to_string())
    );
    assert_eq!(go_version_number("go version"), None);
}

#[test]
fn test_goversion_env_number() {
    assert_eq!(goversion_env_number("go1.25.2\n"), Some("1.25.2".to_string()));
    assert_eq!(goversion_env_number("unknown"), None);
}

// The requirement in go.mod decides through the real SemVer matcher.
#[test]
fn test_can_build_project() {
    // No go.mod at all: anything builds.
    assert_eq!(can_build_project(None, "1.24.9"), Some(true));

    // No version line: anything builds.
    let bare = "module local.dev/example\n".to_string();
    assert_eq!(can_build_project(Some(&bare), "1.24.9"), Some(true));

    // A satisfied requirement.
    let modern = "module m\n\ngo 1.21\n".to_string();
    assert_eq!(can_build_project(Some(&modern), "1.24.9"), Some(true));

    // An unsatisfied requirement: the project wants a newer toolchain.
    assert_eq!(can_build_project(Some(&modern), "1.20.0"), Some(false));

    // A requirement SemVer cannot read constrains nothing.
    let odd = "module m\n\ngo weird-version\n".to_string();
    assert_eq!(can_build_project(Some(&odd), "1.24.9"), Some(true));

    // A current version SemVer cannot read is reported, not guessed.
    assert_eq!(can_build_project(Some(&modern), "not-a-version"), None);
}
