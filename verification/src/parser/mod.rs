//! The import scanner: every import statement of a Python module, with the
//! scope it stands in.

use crate::error::AnalysisError;
use crate::text::{concat, from_chars, same_text, string_views, to_chars};
use vstd::prelude::*;
use vstd::string::StringSliceAdditionalSpecFns;
use vstd::utf8::encode_utf8;

pub mod laws;
pub mod syntax;

use syntax::parse_module;
pub use syntax::parsed_module;

verus! {

/// One name of an import statement: `name`, or `name as asname`.
#[derive(Debug, Clone)]
pub struct ImportedName {
    pub name: String,
    pub asname: Option<String>,
}

/// What an exception handler catches.
#[derive(Debug)]
pub enum HandlerKind {
    /// `except:` without a type.
    Bare,
    /// `except Name:`.
    Name(String),
    /// Any other expression.
    Other,
}

/// One `except` clause of a `try` statement.
#[derive(Debug)]
pub struct Handler {
    pub exception: HandlerKind,
    pub body: Vec<Statement>,
}

/// A statement, as far as the scanner reads it.
#[derive(Debug)]
pub enum Statement {
    /// `import a.b as c, d`, at byte `offset` of the source.
    Import { names: Vec<ImportedName>, offset: usize },
    /// `from ..module import a, b`, with the number of leading dots where
    /// the parser gives one.
    ImportFrom {
        module: Option<String>,
        names: Vec<ImportedName>,
        level: Option<usize>,
        offset: usize,
    },
    FunctionDef { body: Vec<Statement> },
    AsyncFunctionDef { body: Vec<Statement> },
    ClassDef { body: Vec<Statement> },
    If { body: Vec<Statement>, orelse: Vec<Statement> },
    While { body: Vec<Statement>, orelse: Vec<Statement> },
    For { body: Vec<Statement>, orelse: Vec<Statement> },
    AsyncFor { body: Vec<Statement>, orelse: Vec<Statement> },
    Try { body: Vec<Statement>, handlers: Vec<Handler>, orelse: Vec<Statement>, finalbody: Vec<Statement> },
    /// A statement of any other kind; the scanner passes over it.
    Other,
}

/// Where the scanner stands: how many function and class bodies enclose the
/// statement, and what the nearest enclosing `try` says.
#[derive(Debug, Clone, Copy)]
pub struct Scope {
    pub nesting_level: usize,
    pub in_try_block: bool,
    pub has_import_error_handler: bool,
}

/// One import statement of a Python source.
#[derive(Debug, Clone)]
pub struct PythonImport {
    /// The module imported from; `None` for `from . import x`.
    pub module_name: Option<String>,
    pub imported_names: Vec<String>,
    pub is_from_import: bool,
    pub is_relative: bool,
    pub alias: Option<String>,
    pub line_number: usize,
    pub relative_level: usize,
    /// Whether the import stands outside every function and class body.
    pub is_top_level_import: bool,
    /// Whether the nearest enclosing `try` catches a failing import.
    pub is_likely_exception_guarded: bool,
}

/// A `PythonImport` with its texts as character sequences.
pub ghost struct ImportModel {
    pub module_name: Option<Seq<char>>,
    pub imported_names: Seq<Seq<char>>,
    pub is_from_import: bool,
    pub is_relative: bool,
    pub alias: Option<Seq<char>>,
    pub line_number: usize,
    pub relative_level: usize,
    pub is_top_level_import: bool,
    pub is_likely_exception_guarded: bool,
}

/// The view of an optional string.
pub open spec fn text_of(s: Option<String>) -> Option<Seq<char>> {
    match s {
        Some(t) => Some(t@),
        None => None,
    }
}

impl View for PythonImport {
    type V = ImportModel;

    open spec fn view(&self) -> ImportModel {
        ImportModel {
            module_name: text_of(self.module_name),
            imported_names: string_views(self.imported_names@),
            is_from_import: self.is_from_import,
            is_relative: self.is_relative,
            alias: text_of(self.alias),
            line_number: self.line_number,
            relative_level: self.relative_level,
            is_top_level_import: self.is_top_level_import,
            is_likely_exception_guarded: self.is_likely_exception_guarded,
        }
    }
}

/// The views of a sequence of imports.
pub open spec fn import_views(s: Seq<PythonImport>) -> Seq<ImportModel> {
    Seq::new(s.len(), |i: int| s[i]@)
}

/// How many of the first `pos` bytes are line feeds.
pub open spec fn newlines_before(bytes: Seq<u8>, pos: int) -> int
    decreases pos,
{
    if 0 < pos <= bytes.len() {
        newlines_before(bytes, pos - 1) + if bytes[pos - 1] == 10u8 {
            1int
        } else {
            0int
        }
    } else if pos > bytes.len() {
        newlines_before(bytes, bytes.len() as int)
    } else {
        0
    }
}

/// The 1-based line that holds byte `pos`: one more than the line feeds
/// before it, held to the range of `usize`.
pub open spec fn line_number_at(bytes: Seq<u8>, pos: usize) -> usize {
    let n = newlines_before(bytes, pos as int);
    if n < usize::MAX {
        (n + 1) as usize
    } else {
        usize::MAX
    }
}

/// The scope of the body of a function or class that stands in `scope`:
/// one level deeper, the level held to the range of `usize`.
pub open spec fn enter_definition(scope: Scope) -> Scope {
    Scope {
        nesting_level: if scope.nesting_level < usize::MAX {
            (scope.nesting_level + 1) as usize
        } else {
            scope.nesting_level
        },
        ..scope
    }
}

/// Whether `name` is an exception class whose handler catches a failing import.
pub open spec fn is_import_error_name(name: Seq<char>) -> bool {
    ||| name == "ImportError"@
    ||| name == "ModuleNotFoundError"@
    ||| name == "Exception"@
    ||| name == "BaseException"@
}

/// Whether a handler catches a failing import: it names no type, or one of
/// the recognised classes.
pub open spec fn catches_import_error(handler: Handler) -> bool {
    match handler.exception {
        HandlerKind::Bare => true,
        HandlerKind::Name(name) => is_import_error_name(name@),
        HandlerKind::Other => false,
    }
}

/// Whether one of the handlers catches a failing import.
pub open spec fn guards_imports(handlers: Seq<Handler>) -> bool {
    exists|i: int| 0 <= i < handlers.len() && catches_import_error(#[trigger] handlers[i])
}

/// The scope of every part of a `try` statement with these handlers.
pub open spec fn enter_try(scope: Scope, handlers: Seq<Handler>) -> Scope {
    Scope { in_try_block: true, has_import_error_handler: guards_imports(handlers), ..scope }
}

/// The record of one name of a plain `import`.
pub open spec fn plain_import(alias: ImportedName, source: Seq<u8>, offset: usize, scope: Scope) -> ImportModel {
    ImportModel {
        module_name: Some(alias.name@),
        imported_names: Seq::empty(),
        is_from_import: false,
        is_relative: false,
        alias: text_of(alias.asname),
        line_number: line_number_at(source, offset),
        relative_level: 0,
        is_top_level_import: scope.nesting_level == 0,
        is_likely_exception_guarded: scope.in_try_block && scope.has_import_error_handler,
    }
}

/// The records of a plain `import`: one for each name, in order.
pub open spec fn plain_imports(names: Seq<ImportedName>, source: Seq<u8>, offset: usize, scope: Scope) -> Seq<
    ImportModel,
> {
    Seq::new(names.len(), |i: int| plain_import(names[i], source, offset, scope))
}

/// The names that a `from` import brings in, `*` among them as it stands.
pub open spec fn alias_names(names: Seq<ImportedName>) -> Seq<Seq<char>> {
    Seq::new(names.len(), |i: int| names[i].name@)
}

/// The number of leading dots of a `from` import: none where none is given.
pub open spec fn dots(level: Option<usize>) -> usize {
    match level {
        Some(n) => n,
        None => 0,
    }
}

/// The record of a `from` import.
pub open spec fn from_import(
    module: Option<String>,
    names: Seq<ImportedName>,
    level: Option<usize>,
    source: Seq<u8>,
    offset: usize,
    scope: Scope,
) -> ImportModel {
    ImportModel {
        module_name: text_of(module),
        imported_names: alias_names(names),
        is_from_import: true,
        is_relative: dots(level) > 0,
        alias: None,
        line_number: line_number_at(source, offset),
        relative_level: dots(level),
        is_top_level_import: scope.nesting_level == 0,
        is_likely_exception_guarded: scope.in_try_block && scope.has_import_error_handler,
    }
}

/// The records of one statement and of all that it holds, in source order.
pub open spec fn stmt_imports(stmt: Statement, source: Seq<u8>, scope: Scope) -> Seq<ImportModel>
    decreases stmt,
{
    match stmt {
        Statement::Import { names, offset } => plain_imports(names@, source, offset, scope),
        Statement::ImportFrom { module, names, level, offset } => seq![
            from_import(module, names@, level, source, offset, scope),
        ],
        Statement::FunctionDef { body } => body_imports(body@, source, enter_definition(scope)),
        Statement::AsyncFunctionDef { body } => body_imports(body@, source, enter_definition(scope)),
        Statement::ClassDef { body } => body_imports(body@, source, enter_definition(scope)),
        Statement::If { body, orelse } => body_imports(body@, source, scope) + body_imports(
            orelse@,
            source,
            scope,
        ),
        Statement::While { body, orelse } => body_imports(body@, source, scope) + body_imports(
            orelse@,
            source,
            scope,
        ),
        Statement::For { body, orelse } => body_imports(body@, source, scope) + body_imports(
            orelse@,
            source,
            scope,
        ),
        Statement::AsyncFor { body, orelse } => body_imports(body@, source, scope) + body_imports(
            orelse@,
            source,
            scope,
        ),
        Statement::Try { body, handlers, orelse, finalbody } => {
            let inner = enter_try(scope, handlers@);
            body_imports(body@, source, inner) + handler_imports(handlers@, source, inner)
                + body_imports(orelse@, source, inner) + body_imports(finalbody@, source, inner)
        },
        Statement::Other => Seq::empty(),
    }
}

/// The records of a run of statements.
pub open spec fn body_imports(stmts: Seq<Statement>, source: Seq<u8>, scope: Scope) -> Seq<ImportModel>
    decreases stmts,
{
    if stmts.len() == 0 {
        Seq::empty()
    } else {
        body_imports(stmts.drop_last(), source, scope) + stmt_imports(stmts.last(), source, scope)
    }
}

/// The records of the bodies of a run of handlers.
pub open spec fn handler_imports(handlers: Seq<Handler>, source: Seq<u8>, scope: Scope) -> Seq<
    ImportModel,
>
    decreases handlers,
{
    if handlers.len() == 0 {
        Seq::empty()
    } else {
        handler_imports(handlers.drop_last(), source, scope) + body_imports(
            handlers.last().body@,
            source,
            scope,
        )
    }
}

/// The scope of a module's own statements.
pub open spec fn module_scope() -> Scope {
    Scope { nesting_level: 0, in_try_block: false, has_import_error_handler: false }
}

/// The records of a module, in source order.
pub open spec fn module_imports(module: Seq<Statement>, source: Seq<u8>) -> Seq<ImportModel> {
    body_imports(module, source, module_scope())
}

/// A copy of an optional string.
fn clone_text(s: &Option<String>) -> (r: Option<String>)
    ensures
        text_of(r) == text_of(*s),
{
    match s {
        Some(t) => Some(t.clone()),
        None => None,
    }
}

/// The 1-based number of the line that holds byte `pos` of `source`.
pub fn line_number(source: &[u8], pos: usize) -> (line: usize)
    ensures
        line == line_number_at(source@, pos),
{
    let end: usize = if pos < source.len() {
        pos
    } else {
        source.len()
    };
    let mut count: usize = 0;
    let mut i: usize = 0;
    while i < end
        invariant
            i <= end <= source.len(),
            count == newlines_before(source@, i as int),
            count <= i,
        decreases end - i,
    {
        if source[i] == 10u8 {
            count += 1;
        }
        i += 1;
    }
    if count < usize::MAX {
        count + 1
    } else {
        count
    }
}

/// Whether `name` is one of the exception classes that a handler for a
/// failing import names.
pub fn is_import_error(name: &str) -> (r: bool)
    ensures
        r == is_import_error_name(name@),
{
    same_text(name, "ImportError") || same_text(name, "Exception") || same_text(
        name,
        "BaseException",
    ) || same_text(name, "ModuleNotFoundError")
}

/// Whether one of the handlers catches a failing import. The handlers are
/// tried in order, and the first that does settles it.
pub fn has_import_guard(handlers: &Vec<Handler>) -> (r: bool)
    ensures
        r == guards_imports(handlers@),
{
    let mut i: usize = 0;
    while i < handlers.len()
        invariant
            i <= handlers.len(),
            forall|k: int| 0 <= k < i ==> !catches_import_error(#[trigger] handlers@[k]),
        decreases handlers.len() - i,
    {
        let caught = match &handlers[i].exception {
            HandlerKind::Bare => true,
            HandlerKind::Name(name) => is_import_error(name.as_str()),
            HandlerKind::Other => false,
        };
        if caught {
            assert(catches_import_error(handlers@[i as int]));
            return true;
        }
        i += 1;
    }
    false
}

/// Appends the records of one statement, and of all that it holds, to `imports`.
pub fn process_statement(stmt: &Statement, source: &[u8], scope: Scope, imports: &mut Vec<PythonImport>)
    ensures
        import_views(final(imports)@) == import_views(old(imports)@) + stmt_imports(
            *stmt,
            source@,
            scope,
        ),
    decreases stmt,
{
    let ghost before = import_views(imports@);
    match stmt {
        Statement::Import { names, offset } => {
            let line = line_number(source, *offset);
            let mut i: usize = 0;
            while i < names.len()
                invariant
                    i <= names.len(),
                    line == line_number_at(source@, *offset),
                    import_views(imports@) == before + plain_imports(
                        names@,
                        source@,
                        *offset,
                        scope,
                    ).take(i as int),
                decreases names.len() - i,
            {
                let record = PythonImport {
                    module_name: Some(names[i].name.clone()),
                    imported_names: Vec::new(),
                    is_from_import: false,
                    is_relative: false,
                    alias: clone_text(&names[i].asname),
                    line_number: line,
                    relative_level: 0,
                    is_top_level_import: scope.nesting_level == 0,
                    is_likely_exception_guarded: scope.in_try_block
                        && scope.has_import_error_handler,
                };
                proof {
                    let all = plain_imports(names@, source@, *offset, scope);
                    assert(record@.imported_names =~= Seq::<Seq<char>>::empty());
                    assert(record@ == all[i as int]);
                    assert(all.take(i + 1) == all.take(i as int).push(all[i as int]));
                    assert(import_views(imports@.push(record)) == import_views(imports@).push(
                        record@,
                    ));
                }
                imports.push(record);
                i += 1;
            }
            proof {
                let all = plain_imports(names@, source@, *offset, scope);
                assert(all.take(names.len() as int) == all);
            }
        },
        Statement::ImportFrom { module, names, level, offset } => {
            let mut imported_names: Vec<String> = Vec::new();
            let mut i: usize = 0;
            while i < names.len()
                invariant
                    i <= names.len(),
                    string_views(imported_names@) == alias_names(names@).take(i as int),
                decreases names.len() - i,
            {
                let name = names[i].name.clone();
                proof {
                    let all = alias_names(names@);
                    assert(all.take(i + 1) == all.take(i as int).push(all[i as int]));
                    assert(string_views(imported_names@.push(name)) == string_views(
                        imported_names@,
                    ).push(name@));
                }
                imported_names.push(name);
                i += 1;
            }
            proof {
                assert(alias_names(names@).take(names.len() as int) == alias_names(names@));
            }
            let level: usize = match level {
                Some(n) => *n,
                None => 0,
            };
            let record = PythonImport {
                module_name: clone_text(module),
                imported_names,
                is_from_import: true,
                is_relative: level > 0,
                alias: None,
                line_number: line_number(source, *offset),
                relative_level: level,
                is_top_level_import: scope.nesting_level == 0,
                is_likely_exception_guarded: scope.in_try_block && scope.has_import_error_handler,
            };
            proof {
                assert(record@ == from_import(
                    *module,
                    names@,
                    stmt->ImportFrom_level,
                    source@,
                    *offset,
                    scope,
                ));
                assert(import_views(imports@.push(record)) == import_views(imports@).push(record@));
            }
            imports.push(record);
        },
        Statement::FunctionDef { body } => {
            process_body(body, source, definition_scope(scope), imports);
        },
        Statement::AsyncFunctionDef { body } => {
            process_body(body, source, definition_scope(scope), imports);
        },
        Statement::ClassDef { body } => {
            process_body(body, source, definition_scope(scope), imports);
        },
        Statement::If { body, orelse } => {
            process_body(body, source, scope, imports);
            process_body(orelse, source, scope, imports);
        },
        Statement::While { body, orelse } => {
            process_body(body, source, scope, imports);
            process_body(orelse, source, scope, imports);
        },
        Statement::For { body, orelse } => {
            process_body(body, source, scope, imports);
            process_body(orelse, source, scope, imports);
        },
        Statement::AsyncFor { body, orelse } => {
            process_body(body, source, scope, imports);
            process_body(orelse, source, scope, imports);
        },
        Statement::Try { body, handlers, orelse, finalbody } => {
            let inner = Scope {
                nesting_level: scope.nesting_level,
                in_try_block: true,
                has_import_error_handler: has_import_guard(handlers),
            };
            process_body(body, source, inner, imports);
            process_handlers(handlers, source, inner, imports);
            process_body(orelse, source, inner, imports);
            process_body(finalbody, source, inner, imports);
        },
        Statement::Other => {
            assert(before + Seq::<ImportModel>::empty() == before);
        },
    }
}

/// The scope of the body of a function or class that stands in `scope`.
pub fn definition_scope(scope: Scope) -> (inner: Scope)
    ensures
        inner == enter_definition(scope),
{
    Scope {
        nesting_level: if scope.nesting_level < usize::MAX {
            scope.nesting_level + 1
        } else {
            scope.nesting_level
        },
        in_try_block: scope.in_try_block,
        has_import_error_handler: scope.has_import_error_handler,
    }
}

/// Appends the records of a run of statements to `imports`.
pub fn process_body(stmts: &Vec<Statement>, source: &[u8], scope: Scope, imports: &mut Vec<PythonImport>)
    ensures
        import_views(final(imports)@) == import_views(old(imports)@) + body_imports(
            stmts@,
            source@,
            scope,
        ),
    decreases stmts,
{
    let ghost before = import_views(imports@);
    let mut i: usize = 0;
    proof {
        assert(before + body_imports(stmts@.take(0), source@, scope) == before);
    }
    while i < stmts.len()
        invariant
            i <= stmts.len(),
            import_views(imports@) == before + body_imports(stmts@.take(i as int), source@, scope),
        decreases stmts.len() - i,
    {
        process_statement(&stmts[i], source, scope, imports);
        proof {
            let next = stmts@.take(i + 1);
            assert(next.drop_last() == stmts@.take(i as int));
            assert(next.last() == stmts@[i as int]);
        }
        i += 1;
    }
    proof {
        assert(stmts@.take(stmts.len() as int) == stmts@);
    }
}

/// Appends the records of the bodies of a run of handlers to `imports`.
pub fn process_handlers(
    handlers: &Vec<Handler>,
    source: &[u8],
    scope: Scope,
    imports: &mut Vec<PythonImport>,
)
    ensures
        import_views(final(imports)@) == import_views(old(imports)@) + handler_imports(
            handlers@,
            source@,
            scope,
        ),
    decreases handlers,
{
    let ghost before = import_views(imports@);
    let mut i: usize = 0;
    proof {
        assert(before + handler_imports(handlers@.take(0), source@, scope) == before);
    }
    while i < handlers.len()
        invariant
            i <= handlers.len(),
            import_views(imports@) == before + handler_imports(
                handlers@.take(i as int),
                source@,
                scope,
            ),
        decreases handlers.len() - i,
    {
        process_body(&handlers[i].body, source, scope, imports);
        proof {
            let next = handlers@.take(i + 1);
            assert(next.drop_last() == handlers@.take(i as int));
            assert(next.last() == handlers@[i as int]);
        }
        i += 1;
    }
    proof {
        assert(handlers@.take(handlers.len() as int) == handlers@);
    }
}

/// The imports of a module whose text is `source`, in source order.
pub fn collect_imports(source: &str, module: &Vec<Statement>) -> (imports: Vec<PythonImport>)
    ensures
        import_views(imports@) == module_imports(module@, source.spec_bytes()),
{
    let mut imports: Vec<PythonImport> = Vec::new();
    let scope = Scope { nesting_level: 0, in_try_block: false, has_import_error_handler: false };
    proof {
        assert(import_views(imports@) + module_imports(module@, source.spec_bytes())
            == module_imports(module@, source.spec_bytes()));
    }
    process_body(module, source.as_bytes(), scope, &mut imports);
    imports
}

/// Parser for Python source code.
pub struct PythonParser {
    source: String,
}

/// The error for a source that is no valid module, from the parser's message.
pub open spec fn parse_failure(message: Seq<char>) -> crate::error::AnalysisErrorView {
    crate::error::AnalysisErrorView::ParseFileError(
        "Failed to parse Python source: "@ + message,
        Seq::empty(),
        Seq::empty(),
    )
}

/// The error for a source that is too long to parse.
pub open spec fn source_too_long() -> crate::error::AnalysisErrorView {
    parse_failure("source is longer than 4 GiB"@)
}

/// What scanning a source gives, from what the parser made of it.
pub open spec fn scan_result(parsed: Result<Seq<Statement>, Seq<char>>, source: Seq<u8>) -> Result<
    Seq<ImportModel>,
    crate::error::AnalysisErrorView,
> {
    match parsed {
        Ok(module) => Ok(module_imports(module, source)),
        Err(message) => Err(parse_failure(message)),
    }
}

/// The view of the result of a scan.
pub open spec fn scan_view(r: Result<Vec<PythonImport>, AnalysisError>) -> Result<
    Seq<ImportModel>,
    crate::error::AnalysisErrorView,
> {
    match r {
        Ok(imports) => Ok(import_views(imports@)),
        Err(e) => Err(e@),
    }
}

/// The error for a source that is no valid module.
fn parse_error(message: &str) -> (e: AnalysisError)
    ensures
        e@ == parse_failure(message@),
{
    let text = concat(&to_chars("Failed to parse Python source: "), &to_chars(message));
    AnalysisError::ParseFileError(from_chars(&text), String::new(), String::new())
}

/// The outcome of a scan, from what the parser made of the source: the
/// imports of the module in source order, or the error that carries the
/// parser's message.
pub fn imports_of_parsed(source: &str, parsed: Result<Vec<Statement>, String>) -> (r: Result<
    Vec<PythonImport>,
    AnalysisError,
>)
    ensures
        scan_view(r) == scan_result(
            match parsed {
                Ok(module) => Ok(module@),
                Err(message) => Err(message@),
            },
            source.spec_bytes(),
        ),
{
    match parsed {
        Ok(module) => Ok(collect_imports(source, &module)),
        Err(message) => Err(parse_error(message.as_str())),
    }
}

impl PythonParser {
    /// The text that this parser reads.
    pub closed spec fn source(&self) -> Seq<char> {
        self.source@
    }

    /// The bytes of that text, in UTF-8.
    pub open spec fn source_bytes(&self) -> Seq<u8> {
        encode_utf8(self.source())
    }

    /// Create a new Python parser from source code.
    pub fn new(source: &str) -> (parser: Self)
        ensures
            parser.source() == source@,
    {
        Self { source: source.to_owned() }
    }

    /// The 1-based number of the line that holds byte `pos` of the source.
    pub fn get_line_number(&self, pos: usize) -> (line: usize)
        ensures
            line == line_number_at(self.source_bytes(), pos),
    {
        line_number(self.source.as_str().as_bytes(), pos)
    }

    /// Parse all import statements in the source code: one record for
    /// each name of a plain import and one for each `from` import, in
    /// source order; or the error of a source that is no valid module.
    pub fn parse_imports(&mut self) -> (r: Result<Vec<PythonImport>, AnalysisError>)
        ensures
            final(self).source() == old(self).source(),
            old(self).source_bytes().len() <= u32::MAX ==> scan_view(r) == scan_result(
                parsed_module(old(self).source()),
                old(self).source_bytes(),
            ),
            old(self).source_bytes().len() > u32::MAX ==> scan_view(r) == Err::<
                Seq<ImportModel>,
                crate::error::AnalysisErrorView,
            >(source_too_long()),
    {
        let source = self.source.as_str();
        if source.as_bytes().len() > 0xFFFF_FFFF {
            return Err(parse_error("source is longer than 4 GiB"));
        }
        let parsed = parse_module(source);
        imports_of_parsed(source, parsed)
    }
}

/// The imports of a Python source, in source order, or the error of a
/// source that is no valid module.
pub fn scan(source_text: &str) -> (r: Result<Vec<PythonImport>, AnalysisError>)
    ensures
        encode_utf8(source_text@).len() <= u32::MAX ==> scan_view(r) == scan_result(
            parsed_module(source_text@),
            encode_utf8(source_text@),
        ),
        encode_utf8(source_text@).len() > u32::MAX ==> scan_view(r) == Err::<
            Seq<ImportModel>,
            crate::error::AnalysisErrorView,
        >(source_too_long()),
{
    let mut parser = PythonParser::new(source_text);
    parser.parse_imports()
}

} // verus!
