//! What holds of the records of the scanner, whatever the source.

use crate::parser::{
    alias_names, body_imports, catches_import_error, enter_definition, enter_try, from_import,
    guards_imports, handler_imports, is_import_error_name, module_imports, module_scope,
    plain_imports, stmt_imports, text_of, dots, Handler, HandlerKind, ImportModel, Scope, Statement,
};
use vstd::prelude::*;

verus! {

/// Whether no function or class is defined in `stmt` or in what it holds.
pub open spec fn has_no_definition(stmt: Statement) -> bool
    decreases stmt,
{
    match stmt {
        Statement::Import { .. } => true,
        Statement::ImportFrom { .. } => true,
        Statement::FunctionDef { .. } => false,
        Statement::AsyncFunctionDef { .. } => false,
        Statement::ClassDef { .. } => false,
        Statement::If { body, orelse } => no_definition_in(body@) && no_definition_in(orelse@),
        Statement::While { body, orelse } => no_definition_in(body@) && no_definition_in(orelse@),
        Statement::For { body, orelse } => no_definition_in(body@) && no_definition_in(orelse@),
        Statement::AsyncFor { body, orelse } => no_definition_in(body@) && no_definition_in(orelse@),
        Statement::Try { body, handlers, orelse, finalbody } => no_definition_in(body@)
            && no_definition_in_handlers(handlers@) && no_definition_in(orelse@)
            && no_definition_in(finalbody@),
        Statement::Other => true,
    }
}

/// Whether no function or class is defined in a run of statements.
pub open spec fn no_definition_in(stmts: Seq<Statement>) -> bool
    decreases stmts,
{
    stmts.len() == 0 || (no_definition_in(stmts.drop_last()) && has_no_definition(stmts.last()))
}

/// Whether no function or class is defined in the bodies of a run of handlers.
pub open spec fn no_definition_in_handlers(handlers: Seq<Handler>) -> bool
    decreases handlers,
{
    handlers.len() == 0 || (no_definition_in_handlers(handlers.drop_last()) && no_definition_in(
        handlers.last().body@,
    ))
}

/// Whether no `try` stands in `stmt` or in what it holds.
pub open spec fn has_no_try(stmt: Statement) -> bool
    decreases stmt,
{
    match stmt {
        Statement::Import { .. } => true,
        Statement::ImportFrom { .. } => true,
        Statement::FunctionDef { body } => no_try_in(body@),
        Statement::AsyncFunctionDef { body } => no_try_in(body@),
        Statement::ClassDef { body } => no_try_in(body@),
        Statement::If { body, orelse } => no_try_in(body@) && no_try_in(orelse@),
        Statement::While { body, orelse } => no_try_in(body@) && no_try_in(orelse@),
        Statement::For { body, orelse } => no_try_in(body@) && no_try_in(orelse@),
        Statement::AsyncFor { body, orelse } => no_try_in(body@) && no_try_in(orelse@),
        Statement::Try { .. } => false,
        Statement::Other => true,
    }
}

/// Whether no `try` stands in a run of statements.
pub open spec fn no_try_in(stmts: Seq<Statement>) -> bool
    decreases stmts,
{
    stmts.len() == 0 || (no_try_in(stmts.drop_last()) && has_no_try(stmts.last()))
}

/// Whether no `try` stands in the bodies of a run of handlers.
pub open spec fn no_try_in_handlers(handlers: Seq<Handler>) -> bool
    decreases handlers,
{
    handlers.len() == 0 || (no_try_in_handlers(handlers.drop_last()) && no_try_in(
        handlers.last().body@,
    ))
}

/// Whether every record says of being at the top level what `top` says.
pub open spec fn all_top_level(records: Seq<ImportModel>, top: bool) -> bool {
    forall|k: int| 0 <= k < records.len() ==> (#[trigger] records[k]).is_top_level_import == top
}

/// Whether every record says of being guarded what `guarded` says.
pub open spec fn all_guarded(records: Seq<ImportModel>, guarded: bool) -> bool {
    forall|k: int|
        0 <= k < records.len() ==> (#[trigger] records[k]).is_likely_exception_guarded == guarded
}

/// A plain import gives one record for each of its names, in order, each
/// with the module and the alias of its name.
pub proof fn lemma_plain_import_gives_a_record_for_each_name(
    stmt: Statement,
    source: Seq<u8>,
    scope: Scope,
)
    requires
        stmt is Import,
    ensures
        stmt_imports(stmt, source, scope).len() == stmt->Import_names@.len(),
        forall|i: int|
            0 <= i < stmt->Import_names@.len() ==> {
                let record = #[trigger] stmt_imports(stmt, source, scope)[i];
                let name = stmt->Import_names@[i];
                &&& record.module_name == Some(name.name@)
                &&& record.alias == text_of(name.asname)
                &&& !record.is_from_import
                &&& !record.is_relative
                &&& record.relative_level == 0
                &&& record.imported_names.len() == 0
            },
{
}

/// A `from` import gives one record. Its level is the number of leading
/// dots, it is relative where there is a dot, and its module is the dotted
/// path behind the dots, if there is one.
pub proof fn lemma_from_import_keeps_its_level(stmt: Statement, source: Seq<u8>, scope: Scope)
    requires
        stmt is ImportFrom,
    ensures
        stmt_imports(stmt, source, scope).len() == 1,
        stmt_imports(stmt, source, scope)[0].relative_level == dots(stmt->ImportFrom_level),
        stmt_imports(stmt, source, scope)[0].is_relative == (dots(stmt->ImportFrom_level) > 0),
        stmt_imports(stmt, source, scope)[0].module_name == text_of(stmt->ImportFrom_module),
        stmt_imports(stmt, source, scope)[0].imported_names == alias_names(stmt->ImportFrom_names@),
        stmt_imports(stmt, source, scope)[0].is_from_import,
{
}

/// Inside a function or class, no import is at the top level, whatever
/// else encloses it.
pub proof fn lemma_nested_statement_is_not_top_level(stmt: Statement, source: Seq<u8>, scope: Scope)
    requires
        scope.nesting_level > 0,
    ensures
        all_top_level(stmt_imports(stmt, source, scope), false),
    decreases stmt,
{
    match stmt {
        Statement::FunctionDef { body } => {
            lemma_nested_body_is_not_top_level(body@, source, enter_definition(scope));
        },
        Statement::AsyncFunctionDef { body } => {
            lemma_nested_body_is_not_top_level(body@, source, enter_definition(scope));
        },
        Statement::ClassDef { body } => {
            lemma_nested_body_is_not_top_level(body@, source, enter_definition(scope));
        },
        Statement::If { body, orelse } => {
            lemma_nested_body_is_not_top_level(body@, source, scope);
            lemma_nested_body_is_not_top_level(orelse@, source, scope);
        },
        Statement::While { body, orelse } => {
            lemma_nested_body_is_not_top_level(body@, source, scope);
            lemma_nested_body_is_not_top_level(orelse@, source, scope);
        },
        Statement::For { body, orelse } => {
            lemma_nested_body_is_not_top_level(body@, source, scope);
            lemma_nested_body_is_not_top_level(orelse@, source, scope);
        },
        Statement::AsyncFor { body, orelse } => {
            lemma_nested_body_is_not_top_level(body@, source, scope);
            lemma_nested_body_is_not_top_level(orelse@, source, scope);
        },
        Statement::Try { body, handlers, orelse, finalbody } => {
            let inner = enter_try(scope, handlers@);
            lemma_nested_body_is_not_top_level(body@, source, inner);
            lemma_nested_handlers_are_not_top_level(handlers@, source, inner);
            lemma_nested_body_is_not_top_level(orelse@, source, inner);
            lemma_nested_body_is_not_top_level(finalbody@, source, inner);
        },
        _ => {},
    }
}

/// Inside a function or class, no import of a run of statements is at the
/// top level.
pub proof fn lemma_nested_body_is_not_top_level(stmts: Seq<Statement>, source: Seq<u8>, scope: Scope)
    requires
        scope.nesting_level > 0,
    ensures
        all_top_level(body_imports(stmts, source, scope), false),
    decreases stmts,
{
    if stmts.len() > 0 {
        lemma_nested_body_is_not_top_level(stmts.drop_last(), source, scope);
        lemma_nested_statement_is_not_top_level(stmts.last(), source, scope);
    }
}

/// Inside a function or class, no import of a handler is at the top level.
pub proof fn lemma_nested_handlers_are_not_top_level(
    handlers: Seq<Handler>,
    source: Seq<u8>,
    scope: Scope,
)
    requires
        scope.nesting_level > 0,
    ensures
        all_top_level(handler_imports(handlers, source, scope), false),
    decreases handlers,
{
    if handlers.len() > 0 {
        lemma_nested_handlers_are_not_top_level(handlers.drop_last(), source, scope);
        lemma_nested_body_is_not_top_level(handlers.last().body@, source, scope);
    }
}

/// The imports of a function, an async function or a class are not at the
/// top level, wherever the definition stands.
pub proof fn lemma_imports_of_a_definition_are_not_top_level(
    stmt: Statement,
    source: Seq<u8>,
    scope: Scope,
)
    requires
        stmt is FunctionDef || stmt is AsyncFunctionDef || stmt is ClassDef,
    ensures
        all_top_level(stmt_imports(stmt, source, scope), false),
{
    let inner = enter_definition(scope);
    match stmt {
        Statement::FunctionDef { body } => {
            lemma_nested_body_is_not_top_level(body@, source, inner);
        },
        Statement::AsyncFunctionDef { body } => {
            lemma_nested_body_is_not_top_level(body@, source, inner);
        },
        Statement::ClassDef { body } => {
            lemma_nested_body_is_not_top_level(body@, source, inner);
        },
        _ => {},
    }
}

/// Where no function or class is defined, every import is at the top level
/// exactly if the statement itself stands outside every function and
/// class: `if`, `while`, `for` and `try` change nothing.
pub proof fn lemma_top_level_without_definitions(stmt: Statement, source: Seq<u8>, scope: Scope)
    requires
        has_no_definition(stmt),
    ensures
        all_top_level(stmt_imports(stmt, source, scope), scope.nesting_level == 0),
    decreases stmt,
{
    match stmt {
        Statement::If { body, orelse } => {
            lemma_top_level_body_without_definitions(body@, source, scope);
            lemma_top_level_body_without_definitions(orelse@, source, scope);
        },
        Statement::While { body, orelse } => {
            lemma_top_level_body_without_definitions(body@, source, scope);
            lemma_top_level_body_without_definitions(orelse@, source, scope);
        },
        Statement::For { body, orelse } => {
            lemma_top_level_body_without_definitions(body@, source, scope);
            lemma_top_level_body_without_definitions(orelse@, source, scope);
        },
        Statement::AsyncFor { body, orelse } => {
            lemma_top_level_body_without_definitions(body@, source, scope);
            lemma_top_level_body_without_definitions(orelse@, source, scope);
        },
        Statement::Try { body, handlers, orelse, finalbody } => {
            let inner = enter_try(scope, handlers@);
            lemma_top_level_body_without_definitions(body@, source, inner);
            lemma_top_level_handlers_without_definitions(handlers@, source, inner);
            lemma_top_level_body_without_definitions(orelse@, source, inner);
            lemma_top_level_body_without_definitions(finalbody@, source, inner);
        },
        _ => {},
    }
}

/// The same of a run of statements.
pub proof fn lemma_top_level_body_without_definitions(
    stmts: Seq<Statement>,
    source: Seq<u8>,
    scope: Scope,
)
    requires
        no_definition_in(stmts),
    ensures
        all_top_level(body_imports(stmts, source, scope), scope.nesting_level == 0),
    decreases stmts,
{
    if stmts.len() > 0 {
        lemma_top_level_body_without_definitions(stmts.drop_last(), source, scope);
        lemma_top_level_without_definitions(stmts.last(), source, scope);
    }
}

/// The same of the bodies of a run of handlers.
pub proof fn lemma_top_level_handlers_without_definitions(
    handlers: Seq<Handler>,
    source: Seq<u8>,
    scope: Scope,
)
    requires
        no_definition_in_handlers(handlers),
    ensures
        all_top_level(handler_imports(handlers, source, scope), scope.nesting_level == 0),
    decreases handlers,
{
    if handlers.len() > 0 {
        lemma_top_level_handlers_without_definitions(handlers.drop_last(), source, scope);
        lemma_top_level_body_without_definitions(handlers.last().body@, source, scope);
    }
}

/// Where no `try` stands, every import is guarded exactly if the scope of
/// the statement is: functions, classes, conditionals and loops change nothing.
pub proof fn lemma_guard_without_try(stmt: Statement, source: Seq<u8>, scope: Scope)
    requires
        has_no_try(stmt),
    ensures
        all_guarded(
            stmt_imports(stmt, source, scope),
            scope.in_try_block && scope.has_import_error_handler,
        ),
    decreases stmt,
{
    match stmt {
        Statement::FunctionDef { body } => {
            lemma_guard_of_body_without_try(body@, source, enter_definition(scope));
        },
        Statement::AsyncFunctionDef { body } => {
            lemma_guard_of_body_without_try(body@, source, enter_definition(scope));
        },
        Statement::ClassDef { body } => {
            lemma_guard_of_body_without_try(body@, source, enter_definition(scope));
        },
        Statement::If { body, orelse } => {
            lemma_guard_of_body_without_try(body@, source, scope);
            lemma_guard_of_body_without_try(orelse@, source, scope);
        },
        Statement::While { body, orelse } => {
            lemma_guard_of_body_without_try(body@, source, scope);
            lemma_guard_of_body_without_try(orelse@, source, scope);
        },
        Statement::For { body, orelse } => {
            lemma_guard_of_body_without_try(body@, source, scope);
            lemma_guard_of_body_without_try(orelse@, source, scope);
        },
        Statement::AsyncFor { body, orelse } => {
            lemma_guard_of_body_without_try(body@, source, scope);
            lemma_guard_of_body_without_try(orelse@, source, scope);
        },
        _ => {},
    }
}

/// The same of a run of statements.
pub proof fn lemma_guard_of_body_without_try(stmts: Seq<Statement>, source: Seq<u8>, scope: Scope)
    requires
        no_try_in(stmts),
    ensures
        all_guarded(
            body_imports(stmts, source, scope),
            scope.in_try_block && scope.has_import_error_handler,
        ),
    decreases stmts,
{
    if stmts.len() > 0 {
        lemma_guard_of_body_without_try(stmts.drop_last(), source, scope);
        lemma_guard_without_try(stmts.last(), source, scope);
    }
}

/// The same of the bodies of a run of handlers.
pub proof fn lemma_guard_of_handlers_without_try(
    handlers: Seq<Handler>,
    source: Seq<u8>,
    scope: Scope,
)
    requires
        no_try_in_handlers(handlers),
    ensures
        all_guarded(
            handler_imports(handlers, source, scope),
            scope.in_try_block && scope.has_import_error_handler,
        ),
    decreases handlers,
{
    if handlers.len() > 0 {
        lemma_guard_of_handlers_without_try(handlers.drop_last(), source, scope);
        lemma_guard_of_body_without_try(handlers.last().body@, source, scope);
    }
}

/// What encloses a `try` does not decide the guard of its imports: in two
/// scopes of the same depth a `try` gives the same records.
pub proof fn lemma_enclosing_scope_does_not_guard_a_try(
    stmt: Statement,
    source: Seq<u8>,
    first: Scope,
    second: Scope,
)
    requires
        stmt is Try,
        first.nesting_level == second.nesting_level,
    ensures
        stmt_imports(stmt, source, first) == stmt_imports(stmt, source, second),
{
}

/// The imports of a `try` that holds no further `try` are guarded exactly
/// if one of its handlers names no type, or names `ImportError`,
/// `ModuleNotFoundError`, `Exception` or `BaseException`: whatever the
/// scope of the `try` itself, and in its body, its handlers, its `else` and
/// its `finally` alike.
pub proof fn lemma_nearest_try_decides_the_guard(stmt: Statement, source: Seq<u8>, scope: Scope)
    requires
        stmt is Try,
        no_try_in(stmt->Try_body@),
        no_try_in_handlers(stmt->Try_handlers@),
        no_try_in(stmt->Try_orelse@),
        no_try_in(stmt->Try_finalbody@),
    ensures
        all_guarded(
            stmt_imports(stmt, source, scope),
            exists|i: int|
                0 <= i < stmt->Try_handlers@.len() && match (#[trigger] stmt->Try_handlers@[i]).exception {
                    HandlerKind::Bare => true,
                    HandlerKind::Name(name) => is_import_error_name(name@),
                    HandlerKind::Other => false,
                },
        ),
{
    let handlers = stmt->Try_handlers@;
    let inner = enter_try(scope, handlers);
    lemma_guard_of_body_without_try(stmt->Try_body@, source, inner);
    lemma_guard_of_handlers_without_try(handlers, source, inner);
    lemma_guard_of_body_without_try(stmt->Try_orelse@, source, inner);
    lemma_guard_of_body_without_try(stmt->Try_finalbody@, source, inner);
    assert(guards_imports(handlers) == (exists|i: int|
        0 <= i < handlers.len() && match (#[trigger] handlers[i]).exception {
            HandlerKind::Bare => true,
            HandlerKind::Name(name) => is_import_error_name(name@),
            HandlerKind::Other => false,
        })) by {
        if guards_imports(handlers) {
            let i = choose|i: int| 0 <= i < handlers.len() && catches_import_error(#[trigger] handlers[i]);
            assert(catches_import_error(handlers[i]));
        }
        if exists|i: int|
            0 <= i < handlers.len() && match (#[trigger] handlers[i]).exception {
                HandlerKind::Bare => true,
                HandlerKind::Name(name) => is_import_error_name(name@),
                HandlerKind::Other => false,
            } {
            let i = choose|i: int|
                0 <= i < handlers.len() && match (#[trigger] handlers[i]).exception {
                    HandlerKind::Bare => true,
                    HandlerKind::Name(name) => is_import_error_name(name@),
                    HandlerKind::Other => false,
                };
            assert(catches_import_error(handlers[i]));
        }
    }
}

/// What encloses a statement, as far as its imports depend on it: whether a
/// function or class does, and the handlers of the nearest `try` that does.
pub ghost struct Enclosure {
    pub in_definition: bool,
    pub nearest_try: Option<Seq<Handler>>,
}

/// Whether the nearest enclosing `try` catches a failing import.
pub open spec fn is_guarded(enclosure: Enclosure) -> bool {
    enclosure.nearest_try matches Some(handlers) && guards_imports(handlers)
}

/// A scope for what encloses a statement.
pub open spec fn scope_of(enclosure: Enclosure) -> Scope {
    Scope {
        nesting_level: if enclosure.in_definition {
            1
        } else {
            0
        },
        in_try_block: enclosure.nearest_try is Some,
        has_import_error_handler: is_guarded(enclosure),
    }
}

/// Whether a scope says of a statement what its enclosure says.
pub open spec fn agrees_with(scope: Scope, enclosure: Enclosure) -> bool {
    &&& (scope.nesting_level > 0) == enclosure.in_definition
    &&& (scope.in_try_block && scope.has_import_error_handler) == is_guarded(enclosure)
}

/// The records of a statement by what encloses it: an import is at the top
/// level exactly if no function or class encloses it, and guarded exactly
/// if the nearest `try` around it catches a failing import.
pub open spec fn enclosed_imports(stmt: Statement, source: Seq<u8>, enclosure: Enclosure) -> Seq<
    ImportModel,
>
    decreases stmt,
{
    let inside = Enclosure { in_definition: true, ..enclosure };
    match stmt {
        Statement::Import { names, offset } => plain_imports(
            names@,
            source,
            offset,
            scope_of(enclosure),
        ),
        Statement::ImportFrom { module, names, level, offset } => seq![
            from_import(module, names@, level, source, offset, scope_of(enclosure)),
        ],
        Statement::FunctionDef { body } => enclosed_body_imports(body@, source, inside),
        Statement::AsyncFunctionDef { body } => enclosed_body_imports(body@, source, inside),
        Statement::ClassDef { body } => enclosed_body_imports(body@, source, inside),
        Statement::If { body, orelse } => enclosed_body_imports(body@, source, enclosure)
            + enclosed_body_imports(orelse@, source, enclosure),
        Statement::While { body, orelse } => enclosed_body_imports(body@, source, enclosure)
            + enclosed_body_imports(orelse@, source, enclosure),
        Statement::For { body, orelse } => enclosed_body_imports(body@, source, enclosure)
            + enclosed_body_imports(orelse@, source, enclosure),
        Statement::AsyncFor { body, orelse } => enclosed_body_imports(body@, source, enclosure)
            + enclosed_body_imports(orelse@, source, enclosure),
        Statement::Try { body, handlers, orelse, finalbody } => {
            let within = Enclosure { nearest_try: Some(handlers@), ..enclosure };
            enclosed_body_imports(body@, source, within) + enclosed_handler_imports(
                handlers@,
                source,
                within,
            ) + enclosed_body_imports(orelse@, source, within) + enclosed_body_imports(
                finalbody@,
                source,
                within,
            )
        },
        Statement::Other => Seq::empty(),
    }
}

/// The records of a run of statements by what encloses it.
pub open spec fn enclosed_body_imports(
    stmts: Seq<Statement>,
    source: Seq<u8>,
    enclosure: Enclosure,
) -> Seq<ImportModel>
    decreases stmts,
{
    if stmts.len() == 0 {
        Seq::empty()
    } else {
        enclosed_body_imports(stmts.drop_last(), source, enclosure) + enclosed_imports(
            stmts.last(),
            source,
            enclosure,
        )
    }
}

/// The records of the bodies of a run of handlers by what encloses it.
pub open spec fn enclosed_handler_imports(
    handlers: Seq<Handler>,
    source: Seq<u8>,
    enclosure: Enclosure,
) -> Seq<ImportModel>
    decreases handlers,
{
    if handlers.len() == 0 {
        Seq::empty()
    } else {
        enclosed_handler_imports(handlers.drop_last(), source, enclosure) + enclosed_body_imports(
            handlers.last().body@,
            source,
            enclosure,
        )
    }
}

/// The scanner gives the records that the enclosure of each import calls
/// for: at the top level exactly if no function or class encloses the
/// import, whatever `if`, `for`, `while` or `try` does; guarded exactly if
/// the nearest enclosing `try` has a handler that catches a failing import.
pub proof fn lemma_imports_follow_their_enclosure(
    stmt: Statement,
    source: Seq<u8>,
    scope: Scope,
    enclosure: Enclosure,
)
    requires
        agrees_with(scope, enclosure),
    ensures
        stmt_imports(stmt, source, scope) == enclosed_imports(stmt, source, enclosure),
    decreases stmt,
{
    let inside = Enclosure { in_definition: true, ..enclosure };
    match stmt {
        Statement::Import { names, offset } => {
            assert(plain_imports(names@, source, offset, scope) =~= plain_imports(
                names@,
                source,
                offset,
                scope_of(enclosure),
            ));
        },
        Statement::ImportFrom { .. } => {},
        Statement::FunctionDef { body } => {
            lemma_body_imports_follow_their_enclosure(
                body@,
                source,
                enter_definition(scope),
                inside,
            );
        },
        Statement::AsyncFunctionDef { body } => {
            lemma_body_imports_follow_their_enclosure(
                body@,
                source,
                enter_definition(scope),
                inside,
            );
        },
        Statement::ClassDef { body } => {
            lemma_body_imports_follow_their_enclosure(
                body@,
                source,
                enter_definition(scope),
                inside,
            );
        },
        Statement::If { body, orelse } => {
            lemma_body_imports_follow_their_enclosure(body@, source, scope, enclosure);
            lemma_body_imports_follow_their_enclosure(orelse@, source, scope, enclosure);
        },
        Statement::While { body, orelse } => {
            lemma_body_imports_follow_their_enclosure(body@, source, scope, enclosure);
            lemma_body_imports_follow_their_enclosure(orelse@, source, scope, enclosure);
        },
        Statement::For { body, orelse } => {
            lemma_body_imports_follow_their_enclosure(body@, source, scope, enclosure);
            lemma_body_imports_follow_their_enclosure(orelse@, source, scope, enclosure);
        },
        Statement::AsyncFor { body, orelse } => {
            lemma_body_imports_follow_their_enclosure(body@, source, scope, enclosure);
            lemma_body_imports_follow_their_enclosure(orelse@, source, scope, enclosure);
        },
        Statement::Try { body, handlers, orelse, finalbody } => {
            let inner = enter_try(scope, handlers@);
            let within = Enclosure { nearest_try: Some(handlers@), ..enclosure };
            lemma_body_imports_follow_their_enclosure(body@, source, inner, within);
            lemma_handler_imports_follow_their_enclosure(handlers@, source, inner, within);
            lemma_body_imports_follow_their_enclosure(orelse@, source, inner, within);
            lemma_body_imports_follow_their_enclosure(finalbody@, source, inner, within);
        },
        Statement::Other => {},
    }
}

/// The same of a run of statements.
pub proof fn lemma_body_imports_follow_their_enclosure(
    stmts: Seq<Statement>,
    source: Seq<u8>,
    scope: Scope,
    enclosure: Enclosure,
)
    requires
        agrees_with(scope, enclosure),
    ensures
        body_imports(stmts, source, scope) == enclosed_body_imports(stmts, source, enclosure),
    decreases stmts,
{
    if stmts.len() > 0 {
        lemma_body_imports_follow_their_enclosure(stmts.drop_last(), source, scope, enclosure);
        lemma_imports_follow_their_enclosure(stmts.last(), source, scope, enclosure);
    }
}

/// The same of the bodies of a run of handlers.
pub proof fn lemma_handler_imports_follow_their_enclosure(
    handlers: Seq<Handler>,
    source: Seq<u8>,
    scope: Scope,
    enclosure: Enclosure,
)
    requires
        agrees_with(scope, enclosure),
    ensures
        handler_imports(handlers, source, scope) == enclosed_handler_imports(
            handlers,
            source,
            enclosure,
        ),
    decreases handlers,
{
    if handlers.len() > 0 {
        lemma_handler_imports_follow_their_enclosure(
            handlers.drop_last(),
            source,
            scope,
            enclosure,
        );
        lemma_body_imports_follow_their_enclosure(handlers.last().body@, source, scope, enclosure);
    }
}

/// The imports of a module are those that the enclosure of each import
/// calls for, nothing enclosing the module itself.
pub proof fn lemma_module_imports_follow_their_enclosure(module: Seq<Statement>, source: Seq<u8>)
    ensures
        module_imports(module, source) == enclosed_body_imports(
            module,
            source,
            Enclosure { in_definition: false, nearest_try: None },
        ),
{
    lemma_body_imports_follow_their_enclosure(
        module,
        source,
        module_scope(),
        Enclosure { in_definition: false, nearest_try: None },
    );
}

} // verus!
