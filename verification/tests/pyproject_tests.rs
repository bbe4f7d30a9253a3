use depwise_analysis::env_parser;
use depwise_analysis::error::AnalysisError;
use depwise_analysis::files::Halt;
use depwise_analysis::project::pyprojecttoml::{
    self, dependencies_of_parsed, get, parse_dependency_string, Entry, Item, PyProjectToml,
};
use depwise_analysis::project::requirement::{answer, Answer};
use depwise_analysis::project::Dependency;

/// Runs `step` again and again, each time with one more answer of the
/// parser, until it asks for no further answer.
fn answered<T>(step: impl Fn(&Vec<Answer>) -> Result<T, Halt>) -> Result<T, AnalysisError> {
    let mut answers: Vec<Answer> = Vec::new();
    loop {
        match step(&answers) {
            Ok(value) => return Ok(value),
            Err(Halt::Failed(error)) => return Err(error),
            Err(Halt::NeedsRequirement(text)) => {
                assert!(answers.iter().all(|known| known.text != text));
                answers.push(answer(&text));
            }
        }
    }
}

fn parse_contents(content: &str) -> Result<PyProjectToml, AnalysisError> {
    pyprojecttoml::read_contents(content)
}

fn parse_dependencies(content: &str) -> Result<Vec<Dependency>, AnalysisError> {
    env_parser::read_dependencies(content)
}

fn parse_table(table: &Item) -> Result<PyProjectToml, AnalysisError> {
    pyprojecttoml::read_table(table)
}

fn extract_dependencies_from_table(table: &Item) -> Result<Vec<Dependency>, AnalysisError> {
    env_parser::read_dependencies_from_table(table)
}

fn name_of(dependency: &Dependency) -> String {
    match dependency {
        Dependency::PyPI(requirement) => requirement.name.clone(),
        _ => panic!("Expected a PyPI dependency"),
    }
}

fn names_of(dependencies: &[Dependency]) -> Vec<String> {
    dependencies.iter().map(name_of).collect()
}

#[test]
fn test_parse_simple_dependencies() -> Result<(), AnalysisError> {
    let content = r#"
[project]
dependencies = [
    "requests >= 2.8.1",
    "flask == 1.0.0",
]
"#;
    let deps = parse_dependencies(content)?;

    assert_eq!(deps.len(), 2);
    match &deps[0] {
        Dependency::PyPI(req) => {
            assert_eq!(req.name.as_str(), "requests");
        }
        _ => panic!("Expected a PyPI dependency"),
    };

    Ok(())
}

#[test]
fn test_parse_dependencies_with_extras() -> Result<(), AnalysisError> {
    let content = r#"
[project]
dependencies = [
    "requests[security,tests] >= 2.8.1",
]

[project.optional-dependencies]
dev = ["pytest >= 6.0.0"]
"#;
    let deps = parse_dependencies(content)?;

    assert_eq!(deps.len(), 2);
    match &deps[0] {
        Dependency::PyPI(req) => {
            assert_eq!(req.name.as_str(), "requests");
        }
        _ => panic!("Expected a PyPI dependency"),
    };

    Ok(())
}

#[test]
fn pyprojecttoml_test_parse_simple_dependencies() -> Result<(), AnalysisError> {
    let content = r#"
[project]
dependencies = [
    "requests >= 2.8.1",
    "flask == 1.0.0",
]
"#;
    let deps = parse_contents(content)?;

    assert_eq!(deps.all_dependencies().len(), 2);
    match &deps.all_dependencies()[0] {
        Dependency::PyPI(req) => {
            assert_eq!(req.name.as_str(), "requests");
        }
        _ => panic!("Expected a PyPI dependency"),
    };

    Ok(())
}

#[test]
fn pyprojecttoml_test_parse_dependencies_with_extras() -> Result<(), AnalysisError> {
    let content = r#"
[project]
dependencies = [
    "requests[security,tests] >= 2.8.1",
]

[project.optional-dependencies]
dev = ["pytest >= 6.0.0"]
"#;
    let deps = parse_contents(content)?;

    assert_eq!(deps.all_dependencies().len(), 2);
    match &deps.all_dependencies()[0] {
        Dependency::PyPI(req) => {
            assert_eq!(req.name.as_str(), "requests");
            assert_eq!(req.extras, vec!["security".to_string(), "tests".to_string()]);
            assert_eq!(req.version_specifier, Some(">=2.8.1".to_string()));
            assert_eq!(req.url, None);
            assert_eq!(req.markers, None);
        }
        _ => panic!("Expected a PyPI dependency"),
    };

    Ok(())
}

#[test]
fn required_and_optional_dependencies_are_kept_apart() {
    let content = r#"
[project]
dependencies = ["requests>=2.8.1", "flask"]

[project.optional-dependencies]
test = ["pytest>=6.0.0", "coverage"]
docs = ["sphinx"]
empty = []
odd = "not an array"
"#;
    let project = parse_contents(content).unwrap();
    assert_eq!(names_of(project.required_dependencies()), vec!["requests", "flask"]);
    assert_eq!(
        names_of(&project.all_dependencies()),
        vec!["requests", "flask", "sphinx", "pytest", "coverage"]
    );
    assert_eq!(project.optional_configurations(), vec!["docs", "test"]);
    assert_eq!(
        names_of(&project.get_dependencies_for_configuration(&["test"])),
        vec!["requests", "flask", "pytest", "coverage"]
    );
    assert_eq!(
        names_of(&project.get_dependencies_for_configuration(&["test", "docs", "test"])),
        vec!["requests", "flask", "pytest", "coverage", "sphinx", "pytest", "coverage"]
    );
    assert_eq!(
        names_of(&project.get_dependencies_for_configuration(&["missing"])),
        vec!["requests", "flask"]
    );
    assert_eq!(
        names_of(&project.get_dependencies_for_configuration(&[])),
        vec!["requests", "flask"]
    );
}

#[test]
fn a_table_of_versions_gives_name_and_version() {
    let content = r#"
[project.dependencies]
requests = ">=2.8.1"
flask = "==1.0.0"
skipped = 3
"#;
    let project = parse_contents(content).unwrap();
    let required = project.required_dependencies();
    assert_eq!(names_of(required), vec!["flask", "requests"]);
    match pyprojecttoml::parse_contents(content, &vec![]) {
        Err(Halt::NeedsRequirement(text)) => assert_eq!(text, "flask ==1.0.0"),
        other => panic!("expected a request, got {:?}", other),
    }
    match &required[1] {
        Dependency::PyPI(req) => {
            assert_eq!(req.version_specifier, Some(">=2.8.1".to_string()));
        }
        _ => panic!("Expected a PyPI dependency"),
    }
}

#[test]
fn values_that_are_no_strings_are_passed_over() {
    let content = "[project]\ndependencies = [1, \"flask\", true]\n";
    let project = parse_contents(content).unwrap();
    assert_eq!(names_of(project.required_dependencies()), vec!["flask"]);
}

#[test]
fn a_document_without_project_declares_nothing() {
    let project = parse_contents("[tool.x]\ny = 1\n").unwrap();
    assert_eq!(project.all_dependencies().len(), 0);
    assert_eq!(project.required_dependencies().len(), 0);
    assert_eq!(project.optional_configurations().len(), 0);
    let empty = PyProjectToml::new();
    assert_eq!(empty.all_dependencies().len(), 0);
    let scalar = parse_contents("project = 3\n").unwrap();
    assert_eq!(scalar.all_dependencies().len(), 0);
}

#[test]
fn invalid_toml_is_an_error() {
    match parse_contents("[project\n") {
        Err(AnalysisError::PyProjectTomlError(message)) => assert_eq!(message, "Invalid TOML"),
        other => panic!("expected an error, got {:?}", other),
    }
    match dependencies_of_parsed(None, &vec![]) {
        Err(Halt::Failed(AnalysisError::PyProjectTomlError(message))) => {
            assert_eq!(message, "Invalid TOML")
        }
        other => panic!("expected an error, got {:?}", other),
    }
}

#[test]
fn dependencies_of_another_shape_are_an_error() {
    match parse_contents("[project]\ndependencies = \"requests\"\n") {
        Err(AnalysisError::PyProjectTomlError(message)) => {
            assert_eq!(message, "Invalid dependencies format")
        }
        other => panic!("expected an error, got {:?}", other),
    }
}

#[test]
fn a_string_that_states_no_requirement_is_an_error() {
    match parse_contents("[project]\ndependencies = [\"flask\", \"not a requirement!\"]\n") {
        Err(AnalysisError::PyProjectTomlError(message)) => assert!(!message.is_empty()),
        other => panic!("expected an error, got {:?}", other),
    }
    let optional = "[project]\ndependencies = []\n[project.optional-dependencies]\ndev = [\"==\"]\n";
    assert!(matches!(parse_contents(optional), Err(AnalysisError::PyProjectTomlError(_))));
    match parse_dependency_string("requests >=", &vec![]) {
        Err(Halt::NeedsRequirement(text)) => assert_eq!(text, "requests >="),
        other => panic!("expected a request, got {:?}", other),
    }
    assert!(matches!(
        parse_dependency_string("requests >=", &vec![answer("requests >=")]),
        Err(Halt::Failed(AnalysisError::PyProjectTomlError(_)))
    ));
    let made_up = Answer {
        text: "anything at all".to_string(),
        outcome: pyprojecttoml::parse_dependency_string("flask", &vec![answer("flask")])
            .map(|d| match d {
                Dependency::PyPI(requirement) => requirement,
                _ => panic!("Expected a PyPI dependency"),
            })
            .map_err(|_| String::new()),
    };
    match parse_dependency_string("anything at all", &vec![made_up]) {
        Ok(Dependency::PyPI(requirement)) => assert_eq!(requirement.name, "flask"),
        other => panic!("expected the answer that was given, got {:?}", other),
    }
}

#[test]
fn a_document_written_by_hand_is_read_like_a_parsed_one() {
    let text = |s: &str| Item::Text(s.to_string());
    let entry = |k: &str, v: Item| Entry { key: k.to_string(), value: v };
    let document = Item::Table(vec![entry(
        "project",
        Item::Table(vec![
            entry("dependencies", Item::List(vec![text("requests>=2.8.1"), Item::Other])),
            entry(
                "optional-dependencies",
                Item::Table(vec![
                    entry("dev", Item::List(vec![text("pytest")])),
                    entry("dev", Item::List(vec![text("tox")])),
                    entry("doc", Item::Other),
                ]),
            ),
        ]),
    )]);
    let project = parse_table(&document).unwrap();
    assert_eq!(names_of(project.required_dependencies()), vec!["requests"]);
    assert_eq!(project.optional_configurations(), vec!["dev"]);
    assert_eq!(
        names_of(&project.get_dependencies_for_configuration(&["dev"])),
        vec!["requests", "pytest", "tox"]
    );
    assert_eq!(names_of(&project.all_dependencies()), vec!["requests", "pytest", "tox"]);
    assert_eq!(
        names_of(&extract_dependencies_from_table(&document).unwrap()),
        vec!["requests", "pytest", "tox"]
    );
    assert!(get(&document, "project").is_some());
    assert!(get(&document, "tool").is_none());
    assert!(get(&Item::Other, "project").is_none());
}

#[test]
fn a_document_is_read_by_the_answers_that_are_given() {
    let content = "[project]\ndependencies = [\"flask\", \"requests>=2\"]\n[project.optional-dependencies]\ndev = [\"pytest\"]\n";
    let by_answers = answered(|answers| pyprojecttoml::parse_contents(content, answers)).unwrap();
    let at_once = pyprojecttoml::read_contents(content).unwrap();
    assert_eq!(names_of(&by_answers.all_dependencies()), vec!["flask", "requests", "pytest"]);
    assert_eq!(names_of(&at_once.all_dependencies()), vec!["flask", "requests", "pytest"]);
    let flat = answered(|answers| env_parser::parse_dependencies(content, answers)).unwrap();
    assert_eq!(names_of(&flat), vec!["flask", "requests", "pytest"]);
    let texts: Vec<String> = pyprojecttoml::requirement_texts(&Item::Table(vec![Entry {
        key: "project".to_string(),
        value: Item::Table(vec![
            Entry {
                key: "dependencies".to_string(),
                value: Item::List(vec![Item::Text("a".to_string()), Item::Other]),
            },
            Entry {
                key: "optional-dependencies".to_string(),
                value: Item::Table(vec![Entry {
                    key: "x".to_string(),
                    value: Item::List(vec![Item::Text("b".to_string())]),
                }]),
            },
        ]),
    }]));
    assert_eq!(texts, vec!["a", "b"]);
    let document = Item::Table(vec![]);
    assert!(answered(|answers| pyprojecttoml::parse_table(&document, answers)).is_ok());
    assert!(
        answered(|answers| env_parser::extract_dependencies_from_table(&document, answers)).is_ok()
    );
}
