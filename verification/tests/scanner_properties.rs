use depwise_analysis::error::AnalysisError;
use depwise_analysis::parser::{
    collect_imports, has_import_guard, line_number, scan, Handler, HandlerKind, ImportedName,
    PythonImport, PythonParser, Statement,
};

fn imports_of(source: &str) -> Vec<PythonImport> {
    PythonParser::new(source).parse_imports().unwrap()
}

#[test]
fn one_record_for_each_dotted_name() {
    let imports = imports_of("import a.b.c as x, d.e as y\n");
    assert_eq!(imports.len(), 2);
    assert_eq!(imports[0].module_name, Some("a.b.c".to_string()));
    assert_eq!(imports[0].alias, Some("x".to_string()));
    assert_eq!(imports[1].module_name, Some("d.e".to_string()));
    assert_eq!(imports[1].alias, Some("y".to_string()));
    assert_eq!(imports[0].line_number, 1);
    assert_eq!(imports[1].line_number, 1);
}

#[test]
fn conditionals_and_loops_keep_imports_at_the_top_level() {
    let source = "\
if True:
    import a
else:
    import b
for i in range(3):
    import c
else:
    import d
while False:
    import e
else:
    import f
try:
    import g
except ValueError:
    import h
else:
    import i
finally:
    import j
";
    let imports = imports_of(source);
    let names: Vec<String> = imports.iter().map(|i| i.module_name.clone().unwrap()).collect();
    assert_eq!(names, vec!["a", "b", "c", "d", "e", "f", "g", "h", "i", "j"]);
    for import in &imports {
        assert!(import.is_top_level_import);
    }
    assert_eq!(imports[0].line_number, 2);
    assert_eq!(imports[9].line_number, 20);
}

#[test]
fn imports_inside_definitions_are_not_top_level() {
    let source = "\
def f():
    if True:
        import a
async def g():
    import b
class C:
    import c
    def m(self):
        for x in []:
            import d
import e
";
    let imports = imports_of(source);
    assert_eq!(imports.len(), 5);
    assert!(!imports[0].is_top_level_import);
    assert!(!imports[1].is_top_level_import);
    assert!(!imports[2].is_top_level_import);
    assert!(!imports[3].is_top_level_import);
    assert!(imports[4].is_top_level_import);
    assert_eq!(imports[4].module_name, Some("e".to_string()));
}

#[test]
fn async_for_is_walked() {
    let source = "\
async def f():
    async for x in y:
        import a
";
    let imports = imports_of(source);
    assert_eq!(imports.len(), 1);
    assert!(!imports[0].is_top_level_import);
}

#[test]
fn other_statements_are_passed_over() {
    let source = "\
with open('x') as f:
    import a
import b
";
    let imports = imports_of(source);
    assert_eq!(imports.len(), 1);
    assert_eq!(imports[0].module_name, Some("b".to_string()));
    assert_eq!(imports[0].line_number, 3);
}

#[test]
fn every_recognised_handler_guards() {
    for class in ["ImportError", "ModuleNotFoundError", "Exception", "BaseException"] {
        let source = format!("try:\n    import a\nexcept {}:\n    pass\n", class);
        let imports = imports_of(&source);
        assert_eq!(imports.len(), 1);
        assert!(imports[0].is_likely_exception_guarded);
    }
    let bare = imports_of("try:\n    import a\nexcept:\n    pass\n");
    assert!(bare[0].is_likely_exception_guarded);
}

#[test]
fn other_handlers_do_not_guard() {
    let imports = imports_of("try:\n    import a\nexcept ValueError:\n    pass\n");
    assert!(!imports[0].is_likely_exception_guarded);
    let dotted = imports_of("try:\n    import a\nexcept builtins.ImportError:\n    pass\n");
    assert!(!dotted[0].is_likely_exception_guarded);
    let tuple = imports_of("try:\n    import a\nexcept (ImportError, ValueError):\n    pass\n");
    assert!(!tuple[0].is_likely_exception_guarded);
    let none = imports_of("try:\n    import a\nfinally:\n    pass\n");
    assert!(!none[0].is_likely_exception_guarded);
    let outside = imports_of("import a\n");
    assert!(!outside[0].is_likely_exception_guarded);
}

#[test]
fn any_of_several_handlers_guards() {
    let source = "\
try:
    import a
except ValueError:
    import b
except ImportError:
    import c
else:
    import d
finally:
    import e
";
    let imports = imports_of(source);
    assert_eq!(imports.len(), 5);
    for import in &imports {
        assert!(import.is_likely_exception_guarded);
    }
}

#[test]
fn the_nearest_try_decides() {
    let source = "\
try:
    try:
        import inner
    except ValueError:
        pass
    import outer
except ImportError:
    pass
import after
";
    let imports = imports_of(source);
    assert_eq!(imports.len(), 3);
    assert_eq!(imports[0].module_name, Some("inner".to_string()));
    assert!(!imports[0].is_likely_exception_guarded);
    assert_eq!(imports[1].module_name, Some("outer".to_string()));
    assert!(imports[1].is_likely_exception_guarded);
    assert_eq!(imports[2].module_name, Some("after".to_string()));
    assert!(!imports[2].is_likely_exception_guarded);
}

#[test]
fn a_definition_inside_a_try_stays_guarded() {
    let source = "\
try:
    def f():
        import a
except ImportError:
    pass
";
    let imports = imports_of(source);
    assert_eq!(imports.len(), 1);
    assert!(imports[0].is_likely_exception_guarded);
    assert!(!imports[0].is_top_level_import);
}

#[test]
fn relative_level_is_the_number_of_dots() {
    let imports = imports_of("from . import x\nfrom .. import x\nfrom .mod import x\nfrom a import *\n");
    assert_eq!(imports[0].relative_level, 1);
    assert_eq!(imports[0].module_name, None);
    assert!(imports[0].is_relative);
    assert_eq!(imports[1].relative_level, 2);
    assert_eq!(imports[2].relative_level, 1);
    assert_eq!(imports[2].module_name, Some("mod".to_string()));
    assert_eq!(imports[3].relative_level, 0);
    assert!(!imports[3].is_relative);
    assert_eq!(imports[3].imported_names, vec!["*".to_string()]);
    assert_eq!(imports[3].alias, None);
}

#[test]
fn line_numbers_count_line_feeds_before_the_statement() {
    let source = "# caf\u{e9} \u{1F600}\n\n\nimport a\nx = '''\n\n'''\nimport b\n";
    let imports = imports_of(source);
    assert_eq!(imports[0].line_number, 4);
    assert_eq!(imports[1].line_number, 8);
    assert_eq!(line_number(b"a\nb\nc", 0), 1);
    assert_eq!(line_number(b"a\nb\nc", 2), 2);
    assert_eq!(line_number(b"a\nb\nc", 4), 3);
    assert_eq!(line_number(b"a\nb\nc", 100), 3);
    assert_eq!(line_number(b"", 0), 1);
    let parser = PythonParser::new("x\ny\n");
    assert_eq!(parser.get_line_number(2), 2);
}

#[test]
fn invalid_source_is_a_parse_error() {
    let result = PythonParser::new("import\n").parse_imports();
    match result {
        Err(AnalysisError::ParseFileError(message, line, column)) => {
            assert!(message.starts_with("Failed to parse Python source: "));
            assert!(message.len() > "Failed to parse Python source: ".len());
            assert_eq!(line, "");
            assert_eq!(column, "");
        }
        other => panic!("expected a parse error, got {:?}", other),
    }
    assert!(scan("def f(:\n").is_err());
}

#[test]
fn scan_gives_the_imports_of_the_parser() {
    let imports = scan("import os\nfrom . import x\n").unwrap();
    assert_eq!(imports.len(), 2);
    assert_eq!(imports[0].module_name, Some("os".to_string()));
    assert!(imports[1].is_from_import);
    assert_eq!(scan("").unwrap().len(), 0);
}

#[test]
fn a_tree_written_by_hand_is_walked_in_order() {
    let name = |n: &str, a: Option<&str>| ImportedName {
        name: n.to_string(),
        asname: a.map(|s| s.to_string()),
    };
    let module = vec![
        Statement::Import { names: vec![name("a", None), name("b", Some("c"))], offset: 0 },
        Statement::ClassDef {
            body: vec![Statement::ImportFrom {
                module: None,
                names: vec![name("x", None)],
                level: Some(2),
                offset: 5,
            }],
        },
        Statement::Try {
            body: vec![Statement::Other],
            handlers: vec![Handler {
                exception: HandlerKind::Name("ImportError".to_string()),
                body: vec![Statement::Import { names: vec![name("d", None)], offset: 9 }],
            }],
            orelse: vec![],
            finalbody: vec![],
        },
    ];
    let imports = collect_imports("ab\ncd\nef\ngh\n", &module);
    assert_eq!(imports.len(), 4);
    assert_eq!(imports[0].module_name, Some("a".to_string()));
    assert_eq!(imports[1].alias, Some("c".to_string()));
    assert_eq!(imports[2].relative_level, 2);
    assert_eq!(imports[2].line_number, 2);
    assert!(!imports[2].is_top_level_import);
    assert_eq!(imports[3].line_number, 4);
    assert!(imports[3].is_likely_exception_guarded);
    assert!(imports[3].is_top_level_import);
}

#[test]
fn the_first_catching_handler_settles_the_guard() {
    let handler = |kind: HandlerKind| Handler { exception: kind, body: vec![] };
    assert!(!has_import_guard(&vec![]));
    assert!(!has_import_guard(&vec![handler(HandlerKind::Other)]));
    assert!(!has_import_guard(&vec![handler(HandlerKind::Name("KeyError".to_string()))]));
    assert!(has_import_guard(&vec![
        handler(HandlerKind::Name("KeyError".to_string())),
        handler(HandlerKind::Bare),
    ]));
    assert!(has_import_guard(&vec![handler(HandlerKind::Name("Exception".to_string()))]));
}

#[test]
fn lib_test_parse_relative_imports() -> Result<(), AnalysisError> {
    let imports = scan("from ... import name\n")?;
    assert_eq!(imports[0].relative_level, 3);
    Ok(())
}
