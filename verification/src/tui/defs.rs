use vstd::prelude::*;
use rustpython_ast::Visitor;
use rustpython_parser::Parse;

verus! {

/// A range of byte offsets in a source text, as `rustpython` records where a
/// node stands.
#[verifier::external_type_specification]
#[verifier::external_body]
pub struct ExTextRange(rustpython_ast::text_size::TextRange);

/// A `def` statement of a parsed Python module.
#[verifier::external_type_specification]
#[verifier::external_body]
#[verifier::reject_recursive_types(R)]
pub struct ExStmtFunctionDef<R>(rustpython_ast::StmtFunctionDef<R>);

/// An `async def` statement of a parsed Python module.
#[verifier::external_type_specification]
#[verifier::external_body]
#[verifier::reject_recursive_types(R)]
pub struct ExStmtAsyncFunctionDef<R>(rustpython_ast::StmtAsyncFunctionDef<R>);

/// The function definitions of a Python source, as `rustpython` parses it:
/// for each `def` and `async def` statement, in the order its visitor meets
/// them (a statement before the statements in its body), the byte offset
/// where the statement starts and the function's name; `None` where the
/// source does not parse.
pub uninterp spec fn python_defs(source: Seq<char>) -> Option<Seq<(usize, Seq<char>)>>;

/// The start offsets and names of definitions, as values.
pub open spec fn defs_view(defs: Seq<(usize, String)>) -> Seq<(usize, Seq<char>)> {
    defs.map_values(|p: (usize, String)| (p.0, p.1@))
}

/// Collects where each function definition starts and its name, in the order
/// the parser's visitor meets them.
pub struct FunctionVisitor {
    pub defs: Vec<(usize, String)>,
}

impl rustpython_ast::Visitor<rustpython_ast::text_size::TextRange> for FunctionVisitor {
    #[verifier::external_body]
    fn visit_stmt_function_def(
        &mut self,
        node: rustpython_ast::StmtFunctionDef<rustpython_ast::text_size::TextRange>,
    ) {
        let name = node.name.as_str().to_string();
        self.defs.push((node.range.start().to_usize(), name));
        self.generic_visit_stmt_function_def(node)
    }

    #[verifier::external_body]
    fn visit_stmt_async_function_def(
        &mut self,
        node: rustpython_ast::StmtAsyncFunctionDef<rustpython_ast::text_size::TextRange>,
    ) {
        let name = node.name.as_str().to_string();
        self.defs.push((node.range.start().to_usize(), name));
        self.generic_visit_stmt_async_function_def(node)
    }
}

/// Trusted: `rustpython_ast::Suite::parse` parses a Python source (the path
/// names it in error messages), and the visitor above walks its statements;
/// the definitions it finds are named `python_defs`. A parse error gives its
/// message (the error's `Display`), whose text is not stated.
#[verifier::external_body]
pub fn function_defs(source: &str, path: &str) -> (r: Result<Vec<(usize, String)>, String>)
    ensures
        match r {
            Ok(d) => python_defs(source@) == Some(defs_view(d@)),
            Err(_) => python_defs(source@) is None,
        },
{
    let suite = rustpython_ast::Suite::parse(source, path).map_err(|e| e.to_string())?;
    let mut visitor = FunctionVisitor { defs: Vec::new() };
    for stmt in suite.into_iter() {
        visitor.visit_stmt(stmt);
    }
    Ok(visitor.defs)
}

} // verus!
