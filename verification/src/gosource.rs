//! The one gateway to the Go source parser.
//!
//! Everything the rest of the crate reads from a parsed Go file is carried by
//! [`GoSourceInfo`]: plain positions, names and import path literals. All
//! positions index the sequence of characters (Unicode scalar values) of the
//! source text, which is the parser's own coordinate system.

use vstd::prelude::*;

verus! {

/// The character position and quoted text of one import path literal.
pub struct ImportSpan {
    pub pos: usize,
    pub text: String,
}

impl View for ImportSpan {
    type V = (int, Seq<char>);

    open spec fn view(&self) -> (int, Seq<char>) {
        (self.pos as int, self.text@)
    }
}

/// What one parse of a Go source file yields: the position and name of the
/// package-clause identifier, each import path literal with its position, and
/// the names of the top-level function declarations, in source order.
pub struct GoSourceInfo {
    pub package_pos: usize,
    pub package_name: String,
    pub imports: Vec<ImportSpan>,
    pub func_names: Vec<String>,
}

impl View for GoSourceInfo {
    type V = (int, Seq<char>, Seq<(int, Seq<char>)>, Seq<Seq<char>>);

    open spec fn view(&self) -> (int, Seq<char>, Seq<(int, Seq<char>)>, Seq<Seq<char>>) {
        (
            self.package_pos as int,
            self.package_name@,
            self.imports@.map_values(|sp: ImportSpan| sp@),
            self.func_names.deep_view(),
        )
    }
}

/// What parsing a Go source yields, `None` when the text does not parse.
pub uninterp spec fn go_parse(src: Seq<char>) -> Option<
    (int, Seq<char>, Seq<(int, Seq<char>)>, Seq<Seq<char>>),
>;

/// Relies on `gosyn::parse_source`: the parse is a function of the source
/// text alone; `pkg_name` and each `Import::path` carry the position of the
/// identifier or path literal in the source's characters; `decl` lists the
/// top-level declarations in source order.
#[verifier::external_body]
pub fn parse_go_source(src: &str) -> (r: Option<GoSourceInfo>)
    ensures
        match r {
            Some(info) => go_parse(src@) == Some(info@),
            None => go_parse(src@) is None,
        },
{
    let ast = gosyn::parse_source(src).ok()?;
    let imports = ast.imports.iter().map(
        |im| ImportSpan { pos: im.path.pos, text: im.path.value.clone() },
    ).collect();
    let func_names = ast.decl.iter().filter_map(|d| match d {
        gosyn::ast::Declaration::Function(f) => Some(f.name.name.clone()),
        _ => None,
    }).collect();
    let (package_pos, package_name) = (ast.pkg_name.pos, ast.pkg_name.name.clone());
    Some(GoSourceInfo { package_pos, package_name, imports, func_names })
}

} // verus!
