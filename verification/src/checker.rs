//! A pre-filter over benchmark bodies: a benchmark that hands its harness
//! parameter to another function cannot run under the custom runtime, and is
//! reported before any build is attempted.
//!
//! The checker walks a plain model of the parsed function: only the node
//! kinds whose shape the check reads are distinguished; everything else is
//! `Other` and passes.

use vstd::prelude::*;

verus! {

/// An expression of a benchmark body, as far as the checker reads it.
pub enum GoExpr {
    /// A bare identifier.
    Ident { name: String },
    /// A call; `selector` says whether the callee is a field or method
    /// selection.
    Call { selector: bool, args: Vec<GoExpr> },
    /// A unary or binary operation.
    Operation { x: Box<GoExpr>, y: Option<Box<GoExpr>> },
    /// Any other expression.
    Other,
}

/// The expression is the harness parameter itself.
pub open spec fn spec_uses_ident(param: Seq<char>, e: GoExpr) -> bool {
    match e {
        GoExpr::Ident { name } => name@ == param,
        _ => false,
    }
}

/// No call anywhere inside `e` takes the harness parameter as an argument.
pub open spec fn spec_valid_expr(param: Seq<char>, e: GoExpr) -> bool
    decreases e,
{
    match e {
        GoExpr::Call { selector: _, args } => forall|i: int|
            0 <= i < args.len() ==> !spec_uses_ident(param, #[trigger] args[i])
                && spec_valid_expr(param, args[i]),
        GoExpr::Operation { x, y } => spec_valid_expr(param, *x) && match y {
            Option::Some(e2) => spec_valid_expr(param, *e2),
            Option::None => true,
        },
        _ => true,
    }
}

/// A statement of a benchmark body, as far as the checker reads it.
pub enum GoStmt {
    /// A bare expression.
    Expr { expr: GoExpr },
    /// An assignment; only its right-hand sides are checked.
    Assign { right: Vec<GoExpr> },
    /// A conditional.
    If { cond: GoExpr, body: Vec<GoStmt>, alt: Option<Box<GoStmt>> },
    /// A loop, with its optional clauses.
    For {
        init: Option<Box<GoStmt>>,
        cond: Option<Box<GoStmt>>,
        post: Option<Box<GoStmt>>,
        body: Vec<GoStmt>,
    },
    /// A braced block.
    Block { body: Vec<GoStmt> },
    /// Any other statement.
    Other,
}

/// Every call inside the statement keeps its hands off the harness
/// parameter.
pub open spec fn spec_valid_stmt(param: Seq<char>, s: GoStmt) -> bool
    decreases s,
{
    match s {
        GoStmt::Expr { expr } => spec_valid_expr(param, expr),
        GoStmt::Assign { right } => forall|i: int|
            0 <= i < right.len() ==> spec_valid_expr(param, #[trigger] right[i]),
        GoStmt::If { cond, body, alt } => spec_valid_expr(param, cond) && (forall|i: int|
            0 <= i < body.len() ==> spec_valid_stmt(param, #[trigger] body[i])) && match alt {
            Option::Some(s2) => spec_valid_stmt(param, *s2),
            Option::None => true,
        },
        GoStmt::For { init, cond, post, body } => {
            &&& match cond {
                Option::Some(s2) => spec_valid_stmt(param, *s2),
                Option::None => true,
            }
            &&& match init {
                Option::Some(s2) => spec_valid_stmt(param, *s2),
                Option::None => true,
            }
            &&& match post {
                Option::Some(s2) => spec_valid_stmt(param, *s2),
                Option::None => true,
            }
            &&& forall|i: int| 0 <= i < body.len() ==> spec_valid_stmt(param, #[trigger] body[i])
        },
        GoStmt::Block { body } => forall|i: int|
            0 <= i < body.len() ==> spec_valid_stmt(param, #[trigger] body[i]),
        GoStmt::Other => true,
    }
}

/// One parameter group of a function declaration: its names, and whether
/// its type is the harness pointer `*testing.B`.
pub struct GoParam {
    pub names: Vec<String>,
    pub is_testing_b_pointer: bool,
}

/// A top-level function declaration, as far as the checker reads it.
pub struct GoFuncDecl {
    pub name: String,
    pub params: Vec<GoParam>,
    pub body: Option<Vec<GoStmt>>,
}

/// The name bound to the function's `*testing.B` parameter: the first name
/// of the first parameter group with that type.
pub open spec fn spec_testing_b_param(params: Seq<GoParam>) -> Option<Seq<char>>
    decreases params.len(),
{
    if params.len() == 0 {
        Option::None
    } else if params[0].is_testing_b_pointer && params[0].names.len() > 0 {
        Option::Some(params[0].names[0]@)
    } else {
        spec_testing_b_param(params.drop_first())
    }
}

/// The whole function body is valid for the harness parameter `param`.
pub open spec fn spec_valid_body(param: Seq<char>, body: Option<Vec<GoStmt>>) -> bool {
    match body {
        Option::None => true,
        Option::Some(stmts) => forall|i: int|
            0 <= i < stmts.len() ==> spec_valid_stmt(param, #[trigger] stmts[i]),
    }
}

/// A benchmark declaration is valid when it has a `*testing.B` parameter
/// and no call in its body receives that parameter.
pub open spec fn spec_valid_benchmark(f: GoFuncDecl) -> bool {
    match spec_testing_b_param(f.params@) {
        Option::None => false,
        Option::Some(param) => spec_valid_body(param, f.body),
    }
}

/// Whether `e` is the identifier `param`.
fn uses_ident(param: &str, e: &GoExpr) -> (r: bool)
    ensures
        r == spec_uses_ident(param@, *e),
{
    match e {
        GoExpr::Ident { name } => crate::text::str_eq(name.as_str(), param),
        _ => false,
    }
}

/// Whether no call inside `e` takes the harness parameter as an argument.
fn valid_expr(param: &str, e: &GoExpr) -> (r: bool)
    ensures
        r == spec_valid_expr(param@, *e),
    decreases *e,
{
    match e {
        GoExpr::Call { selector: _, args } => valid_call_args(param, args),
        GoExpr::Operation { x, y } => {
            if !valid_expr(param, x) {
                return false;
            }
            match y {
                Option::Some(e2) => valid_expr(param, e2),
                Option::None => true,
            }
        },
        _ => true,
    }
}

/// Whether none of a call's arguments is or misuses the harness parameter.
fn valid_call_args(param: &str, args: &Vec<GoExpr>) -> (r: bool)
    ensures
        r == forall|j: int|
            0 <= j < args@.len() ==> !spec_uses_ident(param@, #[trigger] args@[j])
                && spec_valid_expr(param@, args@[j]),
    decreases *args,
{
    let n: usize = args.len();
    let mut i: usize = 0;
    while i < n
        invariant
            i <= n,
            n == args@.len(),
            forall|j: int|
                0 <= j < i ==> !spec_uses_ident(param@, #[trigger] args@[j]) && spec_valid_expr(
                    param@,
                    args@[j],
                ),
        decreases n - i,
    {
        if uses_ident(param, &args[i]) {
            return false;
        }
        if !valid_expr(param, &args[i]) {
            return false;
        }
        i += 1;
    }
    true
}

/// Whether every expression of the list is valid.
fn valid_expr_list(param: &str, list: &Vec<GoExpr>) -> (r: bool)
    ensures
        r == forall|j: int| 0 <= j < list@.len() ==> spec_valid_expr(param@, #[trigger] list@[j]),
    decreases *list,
{
    let n: usize = list.len();
    let mut i: usize = 0;
    while i < n
        invariant
            i <= n,
            n == list@.len(),
            forall|j: int| 0 <= j < i ==> spec_valid_expr(param@, #[trigger] list@[j]),
        decreases n - i,
    {
        if !valid_expr(param, &list[i]) {
            return false;
        }
        i += 1;
    }
    true
}

/// Whether every call inside `s` keeps its hands off the harness parameter.
fn valid_stmt(param: &str, s: &GoStmt) -> (r: bool)
    ensures
        r == spec_valid_stmt(param@, *s),
    decreases *s,
{
    match s {
        GoStmt::Expr { expr } => valid_expr(param, expr),
        GoStmt::Assign { right } => valid_expr_list(param, right),
        GoStmt::If { cond, body, alt } => {
            if !valid_expr(param, cond) {
                return false;
            }
            if !valid_block(param, body) {
                return false;
            }
            match alt {
                Option::Some(s2) => valid_stmt(param, s2),
                Option::None => true,
            }
        },
        GoStmt::For { init, cond, post, body } => {
            let cond_ok: bool = match cond {
                Option::Some(s2) => valid_stmt(param, s2),
                Option::None => true,
            };
            if !cond_ok {
                return false;
            }
            let init_ok: bool = match init {
                Option::Some(s2) => valid_stmt(param, s2),
                Option::None => true,
            };
            if !init_ok {
                return false;
            }
            let post_ok: bool = match post {
                Option::Some(s2) => valid_stmt(param, s2),
                Option::None => true,
            };
            if !post_ok {
                return false;
            }
            valid_block(param, body)
        },
        GoStmt::Block { body } => valid_block(param, body),
        GoStmt::Other => true,
    }
}

/// Whether every statement of the block is valid.
fn valid_block(param: &str, body: &Vec<GoStmt>) -> (r: bool)
    ensures
        r == forall|i: int| 0 <= i < body@.len() ==> spec_valid_stmt(param@, #[trigger] body@[i]),
    decreases *body,
{
    let n: usize = body.len();
    let mut i: usize = 0;
    while i < n
        invariant
            i <= n,
            n == body@.len(),
            forall|j: int| 0 <= j < i ==> spec_valid_stmt(param@, #[trigger] body@[j]),
        decreases n - i,
    {
        if !valid_stmt(param, &body[i]) {
            return false;
        }
        i += 1;
    }
    true
}

/// The checker for one declared function.
pub struct FuncVisitor {
    pub param_name: String,
    pub func_decl: GoFuncDecl,
}

impl FuncVisitor {
    /// Finds the function's `*testing.B` parameter; a function without one
    /// is no benchmark.
    pub fn new(func: GoFuncDecl) -> (r: Result<FuncVisitor, ()>)
        ensures
            match r {
                Ok(v) => spec_testing_b_param(func.params@) == Option::Some(v.param_name@)
                    && v.func_decl == func,
                Err(_) => spec_testing_b_param(func.params@) is None,
            },
    {
        let n: usize = func.params.len();
        proof {
            assert(func.params@.subrange(0, func.params@.len() as int) =~= func.params@);
        }
        let mut i: usize = 0;
        while i < n
            invariant
                i <= n,
                n == func.params@.len(),
                spec_testing_b_param(func.params@) == spec_testing_b_param(
                    func.params@.subrange(i as int, n as int),
                ),
            decreases n - i,
        {
            proof {
                assert(func.params@.subrange(i as int, n as int)[0] == func.params@[i as int]);
                assert(func.params@.subrange(i as int, n as int).drop_first()
                    =~= func.params@.subrange(i + 1, n as int));
            }
            if func.params[i].is_testing_b_pointer && func.params[i].names.len() > 0 {
                let param_name: String = func.params[i].names[0].clone();
                return Ok(FuncVisitor { param_name, func_decl: func });
            }
            i += 1;
        }
        Err(())
    }

    /// Whether the function's body never hands the harness parameter to a
    /// call.
    pub fn is_valid(&self) -> (r: bool)
        ensures
            r == spec_valid_body(self.param_name@, self.func_decl.body),
    {
        match &self.func_decl.body {
            Option::None => true,
            Option::Some(stmts) => valid_block(self.param_name.as_str(), stmts),
        }
    }

    /// The names among `benchmarks` whose declarations in `decls` are valid
    /// benchmarks, in declaration order.
    pub fn verify_file(decls: Vec<GoFuncDecl>, benchmarks: &Vec<String>) -> (r: Vec<String>)
        ensures
            r.deep_view() == spec_verify_file(decls@, benchmarks.deep_view()),
    {
        let ghost decls_v = decls@;
        let mut rest: Vec<GoFuncDecl> = decls;
        let total: usize = rest.len();
        let mut out: Vec<String> = Vec::new();
        let mut done: usize = 0;
        while rest.len() > 0
            invariant
                done + rest@.len() == total,
                total == decls_v.len(),
                rest@ =~= decls_v.subrange(done as int, decls_v.len() as int),
                out.deep_view() == spec_verify_file(
                    decls_v.subrange(0, done as int),
                    benchmarks.deep_view(),
                ),
            decreases rest@.len(),
        {
            let ghost rest_seq_pre = rest@;
            let f: GoFuncDecl = rest.remove(0);
            proof {
                assert(f == rest_seq_pre[0]);
                assert(f == decls_v[done as int]);
                assert(rest@ =~= decls_v.subrange(done + 1, decls_v.len() as int));
            }
            let ghost pre = out.deep_view();
            let is_named: bool = contains_name(benchmarks, f.name.as_str());
            let fname: String = f.name.clone();
            let keep: bool = if is_named {
                match FuncVisitor::new(f) {
                    Ok(v) => v.is_valid(),
                    Err(_) => false,
                }
            } else {
                false
            };
            if keep {
                out.push(fname);
                proof {
                    assert(out.deep_view() =~= pre.push(decls_v[done as int].name@));
                }
            }
            done += 1;
            proof {
                assert(decls_v.subrange(0, done as int).drop_last() =~= decls_v.subrange(
                    0,
                    done - 1,
                ));
                assert(decls_v.subrange(0, done as int).last() == decls_v[done - 1]);
            }
        }
        proof {
            assert(decls_v.subrange(0, decls_v.len() as int) =~= decls_v);
        }
        out
    }
}

/// A declaration is kept when its name is on the benchmark list, it has a
/// `*testing.B` parameter, and its body is valid.
pub open spec fn spec_keep_decl(f: GoFuncDecl, benchmarks: Seq<Seq<char>>) -> bool {
    benchmarks.contains(f.name@) && spec_valid_benchmark(f)
}

/// The names of the valid benchmark declarations, in declaration order.
pub open spec fn spec_verify_file(decls: Seq<GoFuncDecl>, benchmarks: Seq<Seq<char>>) -> Seq<
    Seq<char>,
>
    decreases decls.len(),
{
    if decls.len() == 0 {
        Seq::empty()
    } else if spec_keep_decl(decls.last(), benchmarks) {
        spec_verify_file(decls.drop_last(), benchmarks).push(decls.last().name@)
    } else {
        spec_verify_file(decls.drop_last(), benchmarks)
    }
}

/// Whether `name` appears in the list.
fn contains_name(list: &Vec<String>, name: &str) -> (r: bool)
    ensures
        r == list.deep_view().contains(name@),
{
    let n: usize = list.len();
    let mut i: usize = 0;
    while i < n
        invariant
            i <= n,
            n == list@.len(),
            forall|j: int| 0 <= j < i ==> list.deep_view()[j] != name@,
        decreases n - i,
    {
        proof {
            assert(list.deep_view()[i as int] == list@[i as int]@);
        }
        if crate::text::str_eq(list[i].as_str(), name) {
            proof {
                assert(list.deep_view()[i as int] == name@);
            }
            return true;
        }
        i += 1;
    }
    proof {
        if list.deep_view().contains(name@) {
            let j = choose|j: int| 0 <= j < list.deep_view().len() && list.deep_view()[j] == name@;
            assert(false);
        }
    }
    false
}

} // verus!
