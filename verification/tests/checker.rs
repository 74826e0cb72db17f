use codspeed_go_runner::checker::{FuncVisitor, GoExpr, GoFuncDecl, GoParam, GoStmt};

fn bench_decl(name: &str, body: Vec<GoStmt>) -> GoFuncDecl {
    GoFuncDecl {
        name: name.to_string(),
        params: vec![GoParam {
            names: vec!["b".to_string()],
            is_testing_b_pointer: true,
        }],
        body: Some(body),
    }
}

fn ident(name: &str) -> GoExpr {
    GoExpr::Ident {
        name: name.to_string(),
    }
}

// A benchmark that only loops and calls methods on values other than the
// harness parameter is valid.
#[test]
fn test_valid_benchmark() {
    // for i := 0; i < b.N; i++ { fib(20) }
    let decl = bench_decl(
        "BenchmarkValid",
        vec![GoStmt::For {
            init: Some(Box::new(GoStmt::Other)),
            cond: Some(Box::new(GoStmt::Other)),
            post: Some(Box::new(GoStmt::Other)),
            body: vec![GoStmt::Expr {
                expr: GoExpr::Call {
                    selector: false,
                    args: vec![GoExpr::Other],
                },
            }],
        }],
    );
    let decls = vec![decl];
    let valid = FuncVisitor::verify_file(decls, &vec!["BenchmarkValid".to_string()]);
    assert_eq!(valid.len(), 1);
    assert!(valid.contains(&"BenchmarkValid".to_string()));
}

// A benchmark whose body hands `b` to another function is rejected.
#[test]
fn test_invalid_benchmark_function_call() {
    // otherFunc(b)
    let decl = bench_decl(
        "BenchmarkInvalid",
        vec![GoStmt::Expr {
            expr: GoExpr::Call {
                selector: false,
                args: vec![ident("b")],
            },
        }],
    );
    let decls = vec![decl];
    let valid = FuncVisitor::verify_file(decls, &vec!["BenchmarkInvalid".to_string()]);
    assert!(valid.is_empty());
}

// Method calls on `b` itself (b.ResetTimer(), b.N) are fine: only handing
// `b` over as an argument is rejected.
#[test]
fn test_valid_benchmark_method_calls() {
    // b.ResetTimer(); b.ReportAllocs()
    let decl = bench_decl(
        "BenchmarkValidMethods",
        vec![
            GoStmt::Expr {
                expr: GoExpr::Call {
                    selector: true,
                    args: vec![],
                },
            },
            GoStmt::Expr {
                expr: GoExpr::Call {
                    selector: true,
                    args: vec![GoExpr::Other],
                },
            },
        ],
    );
    let decls = vec![decl];
    let valid = FuncVisitor::verify_file(decls, &vec!["BenchmarkValidMethods".to_string()]);
    assert_eq!(valid.len(), 1);
    assert!(valid.contains(&"BenchmarkValidMethods".to_string()));
}

// Of two benchmarks in one file, only the one that keeps `b` to itself
// survives.
#[test]
fn test_multiple_benchmarks_mixed_validity() {
    let valid_decl = bench_decl(
        "BenchmarkValid",
        vec![GoStmt::Expr {
            expr: GoExpr::Call {
                selector: false,
                args: vec![GoExpr::Other],
            },
        }],
    );
    let invalid_decl = bench_decl(
        "BenchmarkInvalid",
        vec![GoStmt::If {
            cond: GoExpr::Other,
            body: vec![GoStmt::Assign {
                right: vec![GoExpr::Call {
                    selector: true,
                    args: vec![ident("b")],
                }],
            }],
            alt: None,
        }],
    );
    let decls = vec![valid_decl, invalid_decl];
    let valid = FuncVisitor::verify_file(
        decls,
        &vec!["BenchmarkValid".to_string(), "BenchmarkInvalid".to_string()],
    );
    assert_eq!(valid.len(), 1);
    assert!(valid.contains(&"BenchmarkValid".to_string()));
}

// A declaration without a `*testing.B` parameter is no benchmark.
#[test]
fn test_no_harness_parameter() {
    let decl = GoFuncDecl {
        name: "BenchmarkBroken".to_string(),
        params: vec![GoParam {
            names: vec!["t".to_string()],
            is_testing_b_pointer: false,
        }],
        body: Some(vec![]),
    };
    assert!(FuncVisitor::new(decl).is_err());
}

// The harness parameter may appear inside operations, but not as a call
// argument below them.
#[test]
fn test_nested_call_in_operation() {
    let decl = bench_decl(
        "BenchmarkNested",
        vec![GoStmt::Expr {
            expr: GoExpr::Operation {
                x: Box::new(GoExpr::Call {
                    selector: false,
                    args: vec![ident("b")],
                }),
                y: None,
            },
        }],
    );
    let valid = FuncVisitor::verify_file(vec![decl], &vec!["BenchmarkNested".to_string()]);
    assert!(valid.is_empty());
}
