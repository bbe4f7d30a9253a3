//! The syntax tree of a Python source, as `rustpython_parser` builds it and
//! as the scanner reads it.

use crate::parser::{Handler, HandlerKind, ImportedName, Statement};
use rustpython_parser::ast;
use rustpython_parser::text_size::TextRange;
use rustpython_parser::Parse;
use vstd::prelude::*;
use vstd::string::StringSliceAdditionalSpecFns;

verus! {

/// A statement of the syntax tree that `rustpython_parser` builds.
#[verifier::external_type_specification]
#[verifier::external_body]
#[verifier::reject_recursive_types(R)]
pub struct ExSyntaxStmt<R>(ast::Stmt<R>);

/// An `except` clause of that tree.
#[verifier::external_type_specification]
#[verifier::external_body]
#[verifier::reject_recursive_types(R)]
pub struct ExSyntaxHandler<R>(ast::ExceptHandler<R>);

/// A name of an import statement of that tree.
#[verifier::external_type_specification]
#[verifier::external_body]
#[verifier::reject_recursive_types(R)]
pub struct ExSyntaxAlias<R>(ast::Alias<R>);

/// An expression of that tree.
#[verifier::external_type_specification]
#[verifier::external_body]
#[verifier::reject_recursive_types(R)]
pub struct ExSyntaxExpr<R>(ast::Expr<R>);

/// The byte range of a node of that tree.
#[verifier::external_type_specification]
#[verifier::external_body]
pub struct ExTextRange(TextRange);

/// What `rustpython_parser` makes of a source text: the statements of the
/// module, or the message of the syntax error.
pub uninterp spec fn parsed_module(source: Seq<char>) -> Result<Seq<Statement>, Seq<char>>;

/// Parses `source` as a whole module with `rustpython_parser`'s
/// `Suite::parse`, and hands its statements over as `Statement`s; of a
/// syntax error, the message as the parser prints it. The parser counts
/// bytes in 32 bits, so longer sources are left out. The contract claims
/// that the outcome depends on the text alone, and names it
/// `parsed_module`; nothing more is claimed of it.
#[verifier::external_body]
pub(crate) fn parse_module(source: &str) -> (r: Result<Vec<Statement>, String>)
    requires
        source.spec_bytes().len() <= u32::MAX,
    ensures
        match r {
            Ok(module) => parsed_module(source@) == Ok::<Seq<Statement>, Seq<char>>(module@),
            Err(message) => parsed_module(source@) == Err::<Seq<Statement>, Seq<char>>(message@),
        },
{
    match ast::Suite::parse(source, "<string>") {
        Ok(suite) => Ok(lower_body(&suite)),
        Err(error) => Err(error.to_string()),
    }
}

/// Hands a run of `ast::Stmt` over, one `Statement` for each, in order.
/// Nothing is claimed of the result here: it is part of what
/// `parsed_module` names.
#[verifier::external_body]
fn lower_body(body: &[ast::Stmt]) -> (statements: Vec<Statement>) {
    body.iter().map(lower_stmt).collect()
}

/// Hands one `ast::Stmt` over. Of `Import` it takes the names and the
/// start of the range; of `ImportFrom` the module, the names, the level
/// and the start of the range. The other kinds go to
/// `lower_compound`.
#[verifier::external_body]
fn lower_stmt(stmt: &ast::Stmt) -> (statement: Statement) {
    match stmt {
        ast::Stmt::Import(s) => Statement::Import {
            names: lower_aliases(&s.names),
            offset: s.range.start().to_usize(),
        },
        ast::Stmt::ImportFrom(s) => Statement::ImportFrom {
            module: s.module.as_ref().map(|m| m.to_string()),
            names: lower_aliases(&s.names),
            level: s.level.map(|l| l.to_usize()),
            offset: s.range.start().to_usize(),
        },
        other => lower_compound(other),
    }
}

/// Hands a definition or an `if` of `ast::Stmt` over with its bodies. The
/// other kinds go to `lower_loop`.
#[verifier::external_body]
fn lower_compound(stmt: &ast::Stmt) -> (statement: Statement) {
    match stmt {
        ast::Stmt::FunctionDef(s) => Statement::FunctionDef { body: lower_body(&s.body) },
        ast::Stmt::AsyncFunctionDef(s) => Statement::AsyncFunctionDef { body: lower_body(&s.body) },
        ast::Stmt::ClassDef(s) => Statement::ClassDef { body: lower_body(&s.body) },
        ast::Stmt::If(s) => Statement::If { body: lower_body(&s.body), orelse: lower_body(&s.orelse) },
        other => lower_loop(other),
    }
}

/// Hands a loop or a `try` of `ast::Stmt` over with its bodies and
/// handlers. Every other kind of statement becomes `Statement::Other`.
#[verifier::external_body]
fn lower_loop(stmt: &ast::Stmt) -> (statement: Statement) {
    match stmt {
        ast::Stmt::While(s) => Statement::While { body: lower_body(&s.body), orelse: lower_body(&s.orelse) },
        ast::Stmt::For(s) => Statement::For { body: lower_body(&s.body), orelse: lower_body(&s.orelse) },
        ast::Stmt::AsyncFor(s) => Statement::AsyncFor { body: lower_body(&s.body), orelse: lower_body(&s.orelse) },
        ast::Stmt::Try(s) => Statement::Try {
            body: lower_body(&s.body),
            handlers: lower_handlers(&s.handlers),
            orelse: lower_body(&s.orelse),
            finalbody: lower_body(&s.finalbody),
        },
        _ => Statement::Other,
    }
}

/// Hands the `ast::Alias`es of an import statement over: each with its
/// name and, where it has one, the name behind `as`.
#[verifier::external_body]
fn lower_aliases(names: &[ast::Alias]) -> (imported: Vec<ImportedName>) {
    names.iter().map(|a| ImportedName {
        name: a.name.to_string(),
        asname: a.asname.as_ref().map(|n| n.to_string()),
    }).collect()
}

/// Hands the `ast::ExceptHandler`s of a `try` statement over: each with
/// what it names and with its body.
#[verifier::external_body]
fn lower_handlers(handlers: &[ast::ExceptHandler]) -> (lowered: Vec<Handler>) {
    handlers.iter().map(|h| match h {
        ast::ExceptHandler::ExceptHandler(e) => Handler {
            exception: lower_handler_type(e.type_.as_deref()),
            body: lower_body(&e.body),
        },
    }).collect()
}

/// Tells what the `type_` of an `except` clause is: nothing, an
/// `ast::Expr::Name` with its identifier, or another expression.
#[verifier::external_body]
fn lower_handler_type(type_: Option<&ast::Expr>) -> (kind: HandlerKind) {
    match type_ {
        None => HandlerKind::Bare,
        Some(ast::Expr::Name(name)) => HandlerKind::Name(name.id.to_string()),
        Some(_) => HandlerKind::Other,
    }
}

} // verus!
