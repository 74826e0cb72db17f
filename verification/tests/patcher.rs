use codspeed_go_runner::patcher::{
    patch_imports_for_source, patch_package_for_source, patch_package_sources,
};

const SINGLE_IMPORT: &str = r#"package main

import "testing"

func TestExample(t *testing.T) {
    // test code
}
"#;

const MULTILINE_IMPORT: &str = r#"package main

import (
    "fmt"
    "testing"
    "strings"
)

func TestExample(t *testing.T) {
    // test code
}
"#;

#[test]
fn test_patch_single_import() {
    let patched = patch_imports_for_source(SINGLE_IMPORT);
    assert!(patched.contains("import testing \"github.com/CodSpeedHQ/codspeed-go/testing/testing\""));
    assert!(!patched.contains("import \"testing\""));
}

#[test]
fn test_patch_multiline_import() {
    let patched = patch_imports_for_source(MULTILINE_IMPORT);
    assert!(patched.contains("testing \"github.com/CodSpeedHQ/codspeed-go/testing/testing\""));
    assert!(patched.contains("\"fmt\""));
    assert!(patched.contains("\"strings\""));
}

// The string "testing" inside a function body is not an import and is left
// alone; only the import path literal is rewritten.
#[test]
fn test_patch_leaves_string_literals() {
    let src = "package main\nimport \"testing\"\nimport \"fmt\"\n\nfunc TestExample(t *testing.T) {\n    fmt.Println(\"testing\")\n}\n";
    let patched = patch_imports_for_source(src);
    assert!(patched.contains("fmt.Println(\"testing\")"));
    assert!(patched.contains("testing \"github.com/CodSpeedHQ/codspeed-go/testing/testing\""));
}

// A wrapped third-party assertion library is redirected beside `testing`.
#[test]
fn test_patch_testing_and_slogassert() {
    let src = "package main\nimport (\n    \"testing\"\n    \"fmt\"\n    \"github.com/thejerf/slogassert\"\n)\n";
    let patched = patch_imports_for_source(src);
    assert!(patched.contains("testing \"github.com/CodSpeedHQ/codspeed-go/testing/testing\""));
    assert!(patched.contains("\"github.com/CodSpeedHQ/codspeed-go/pkg/slogassert\""));
    assert!(!patched.contains("\"github.com/thejerf/slogassert\""));
}

// Patching is idempotent: the patcher's output is a fixed point.
#[test]
fn test_patch_imports_fixed_point() {
    for src in [
        SINGLE_IMPORT,
        MULTILINE_IMPORT,
        "package main\nimport (\n    \"fmt\"\n    \"testing\"\n)\n\nfunc TestExample(t *testing.T) {\n    fmt.Println(\"testing\")\n}\n",
    ] {
        let once = patch_imports_for_source(src);
        let twice = patch_imports_for_source(&once);
        assert_eq!(once, twice);
    }
}

// An already-patched import is recognized as patched and left unchanged.
#[test]
fn test_patch_already_patched() {
    let src = "package main\n\nimport testing \"github.com/CodSpeedHQ/codspeed-go/testing/testing\"\n\nfunc BenchmarkExample(b *testing.B) {\n}\n";
    assert_eq!(patch_imports_for_source(src), src);
}

// `package main` becomes `package main_compat`, so the package can be
// imported by the generated runner; the rename is idempotent.
#[test]
fn test_patch_package_main() {
    let src = "package main\n\nimport \"testing\"\n\nfunc BenchmarkExample(b *testing.B) {\n}\n";
    let patched = patch_package_for_source(src).unwrap();
    assert!(patched.starts_with("package main_compat\n"));
    let again = patch_package_for_source(&patched).unwrap();
    assert_eq!(patched, again);
}

// A `package main` rename does not touch the words `package main` inside a
// string literal; only the declaration identifier moves.
#[test]
fn test_patch_package_main_leaves_literals() {
    let src = "package main\n\nfunc f() string {\n    return \"package main\"\n}\n";
    let patched = patch_package_for_source(src).unwrap();
    assert!(patched.starts_with("package main_compat\n"));
    assert!(patched.contains("return \"package main\""));
}

// An external test package's clause becomes `package main`, so its files
// can be built as a standalone binary from the `codspeed/` subdirectory.
#[test]
fn test_patch_package_external_test() {
    let src = "package foo_test\n\nimport \"testing\"\n\nfunc BenchmarkExternal(b *testing.B) {\n}\n";
    let patched = patch_package_for_source(src).unwrap();
    assert!(patched.starts_with("package main\n"));
}

// An ordinary package keeps its clause.
#[test]
fn test_patch_package_ordinary_unchanged() {
    let src = "package foo\n\nfunc BenchmarkFoo(b *testing.B) {\n}\n";
    assert_eq!(patch_package_for_source(src).unwrap(), src);
}

// A source that does not parse fails the whole batch, like a package
// directory with a broken file.
#[test]
fn test_patch_package_sources_propagates_failure() {
    let sources = vec![
        "package main\n".to_string(),
        "package (".to_string(),
    ];
    assert!(patch_package_sources(&sources).is_err());

    let sources = vec![
        "package main\n".to_string(),
        "package other\n".to_string(),
    ];
    let patched = patch_package_sources(&sources).unwrap();
    assert_eq!(patched.len(), 2);
    assert!(patched[0].starts_with("package main_compat"));
    assert_eq!(patched[1], "package other\n");
}

// Unicode text before the import keeps the rewrite aligned: positions are
// counted in characters, the parser's own coordinate system.
#[test]
fn test_patch_with_unicode_comment() {
    let src = "package main\n\n// caf\u{00e9} na\u{00ef}ve \u{2603}\nimport \"testing\"\n";
    let patched = patch_imports_for_source(src);
    assert!(patched.contains("import testing \"github.com/CodSpeedHQ/codspeed-go/testing/testing\""));
    assert!(patched.contains("caf\u{00e9} na\u{00ef}ve \u{2603}"));
}
