use depwise_analysis::error::AnalysisError;
use depwise_analysis::files::{Outcome, SourceFile};
use depwise_analysis::project::requirement::{answer, answer_all, parse_requirement, Answer};
use depwise_analysis::project::requirementstxt::{
    self, classify_chars, parse_requirement_line, RequirementLine,
};
use depwise_analysis::project::Dependency;

/// Runs `step` again and again, each time with one more answer of the
/// parser, until it asks for no further answer.
fn answered<T>(mut step: impl FnMut(&Vec<Answer>) -> Outcome<T>) -> Outcome<T> {
    let mut answers: Vec<Answer> = Vec::new();
    loop {
        match step(&answers) {
            Outcome::NeedsRequirement(text) => {
                assert!(answers.iter().all(|known| known.text != text));
                answers.push(answer(&text));
            }
            other => return other,
        }
    }
}

fn parse(files: &Vec<SourceFile>, path: &str) -> Outcome<Vec<Dependency>> {
    requirementstxt::read_dependencies_file(files, path)
}

fn parse_dependencies_file(files: &Vec<SourceFile>, path: &str) -> Outcome<Vec<Dependency>> {
    requirementstxt::read_dependencies_file(files, path)
}

fn parse_dependencies(files: &Vec<SourceFile>, content: &str) -> Outcome<Vec<Dependency>> {
    requirementstxt::read_dependencies(files, content)
}

fn parse_dependencies_file_with_visited(
    files: &Vec<SourceFile>,
    path: &str,
    visited: &mut Vec<String>,
) -> Outcome<Vec<Dependency>> {
    let start = visited.clone();
    answered(|answers| {
        *visited = start.clone();
        requirementstxt::parse_dependencies_file_with_visited(answers, files, path, visited)
    })
}

fn file(path: &str, content: &str) -> SourceFile {
    SourceFile { path: path.to_string(), content: Ok(content.to_string()) }
}

fn done(outcome: Outcome<Vec<Dependency>>) -> Result<Vec<Dependency>, AnalysisError> {
    match outcome {
        Outcome::Done(deps) => Ok(deps),
        Outcome::Failed(e) => Err(e),
        Outcome::NeedsFile(path) => panic!("the file {} is needed", path),
        Outcome::NeedsRequirement(text) => panic!("the answer to {} is needed", text),
    }
}

fn names_of(dependencies: &[Dependency]) -> Vec<String> {
    dependencies
        .iter()
        .map(|d| match d {
            Dependency::PyPI(requirement) => requirement.name.clone(),
            Dependency::PackageUrl(url) => format!("url {}", url),
            Dependency::PackagePath(path) => format!("path {}", path),
            Dependency::Conda(spec) => format!("conda {}", spec.name()),
        })
        .collect()
}

fn cycle_message(outcome: Outcome<Vec<Dependency>>) -> String {
    match outcome {
        Outcome::Failed(AnalysisError::DependencyParseError(message)) => message,
        other => panic!("expected a cycle error, got {:?}", other),
    }
}

#[test]
fn test_parse_simple_requirements() -> Result<(), AnalysisError> {
    let files = vec![
        file(
            "/tmp/project/requirements.txt",
            "requests==2.28.1\n# This is a comment\nflask>=2.0.0\n-r other-requirements.txt\npandas~=1.5.0\n",
        ),
        file("/tmp/project/other-requirements.txt", "torch==2.6.0\n"),
    ];

    let deps = done(parse_dependencies_file(&files, "/tmp/project/requirements.txt"))?;
    assert_eq!(deps.len(), 4);
    assert_eq!(names_of(&deps), vec!["requests", "flask", "torch", "pandas"]);

    // Test that we can parse the content directly
    let content = "requests==2.28.1\n# Comment\nflask>=2.0.0\n\npandas~=1.5.0";
    let deps = done(parse_dependencies(&vec![], content))?;
    assert_eq!(deps.len(), 3);

    Ok(())
}

#[test]
fn test_parse_complex_requirements() -> Result<(), AnalysisError> {
    let content = r#"
# This is a comment
requests==2.28.1    # Inline comment
flask>=2.0.0,<3.0.0
pandas~=1.5.0
numpy>=1.20.0; python_version>="3.8"
wxPathon @ http://wxpython.org/Phoenix/snapshot-builds/wxPython_Phoenix-3.0.3.dev1820+49a8884-cp34-none-win_amd64.whl
"#;
    let deps = done(parse_dependencies(&vec![], content))?;
    assert_eq!(deps.len(), 5); // Should skip the -r line

    Ok(())
}

#[test]
fn a_requirement_string_gives_a_named_requirement() {
    let requirement = parse_requirement("requests>=2.8.1").unwrap();
    assert_eq!(requirement.name, "requests");
    assert_eq!(requirement.version_specifier, Some(">=2.8.1".to_string()));
    assert!(requirement.extras.is_empty());
    assert_eq!(requirement.url, None);
    assert_eq!(requirement.markers, None);

    let full = parse_requirement("Requests_OAuth [security] >= 2.8.1 ; python_version > '3.8'")
        .unwrap();
    assert_eq!(full.name, "requests-oauth");
    assert_eq!(full.extras, vec!["security".to_string()]);
    assert!(full.markers.is_some());

    let direct = parse_requirement("pkg @ https://example.com/pkg-1.0.tar.gz").unwrap();
    assert_eq!(direct.name, "pkg");
    assert_eq!(direct.url, Some("https://example.com/pkg-1.0.tar.gz".to_string()));
    assert_eq!(direct.version_specifier, None);
}

#[test]
fn texts_that_the_parser_cannot_take_are_refused() {
    for text in [
        "foo- >=1",
        "foo[a-]",
        "foo_",
        "a. b",
        "a; python_version > '3.18446744073709551615'",
        "a ~= 1.18446744073709551615",
        "a == 00000000000000000001",
        "pkg @ file://${PROJECT_ROOT}/x.whl",
    ] {
        let refused = parse_requirement(text);
        assert_eq!(
            refused,
            Err(
                "Not a requirement that can be read: a name ends in '.', '-' or '_', a number is too long, or the text holds '${PROJECT_ROOT}'"
                    .to_string()
            ),
            "{}",
            text
        );
    }
    assert_eq!(parse_requirement("a.-b").unwrap().name, "a-b");
    assert!(parse_requirement("").is_err());
    assert!(parse_requirement("a.b-c_d").is_ok());
    assert!(parse_requirement("a; python_version > '3.1844674407370955161'").is_ok());
    assert!(parse_requirement("a == 1234567890123456789").is_ok());
}

#[test]
fn a_text_that_names_the_environment_is_handed_to_the_parser() {
    let requirement = parse_requirement("mypkg @ https://${DEPWISE_NO_SUCH_TOKEN}@host/x.whl")
        .unwrap();
    assert_eq!(requirement.name, "mypkg");
    assert!(requirement.url.is_some());
    match parse_requirement_line("mypkg @ https://${DEPWISE_NO_SUCH_TOKEN}@host/x.whl") {
        Ok(RequirementLine::Dependency(Dependency::PyPI(found))) => {
            assert_eq!(found.name, "mypkg")
        }
        other => panic!("expected a requirement, got {:?}", other),
    }
}

#[test]
fn a_line_is_what_the_answer_of_the_parser_makes_it() {
    let line: Vec<char> = "flask>=2 # web".chars().collect();
    match classify_chars(&line, &vec![]) {
        Err(depwise_analysis::files::Halt::NeedsRequirement(text)) => assert_eq!(text, "flask>=2"),
        other => panic!("expected a request, got {:?}", other),
    }
    let answers = answer_all(&vec!["other".to_string(), "flask>=2".to_string()]);
    assert_eq!(answers.len(), 2);
    assert_eq!(answers[1].text, "flask>=2");
    match classify_chars(&line, &answers) {
        Ok(RequirementLine::Dependency(Dependency::PyPI(found))) => assert_eq!(found.name, "flask"),
        other => panic!("expected a requirement, got {:?}", other),
    }
    let failing = vec![Answer { text: "flask>=2".to_string(), outcome: Err("no".to_string()) }];
    match classify_chars(&line, &failing) {
        Err(depwise_analysis::files::Halt::Failed(AnalysisError::DependencyParseError(m))) => {
            assert_eq!(m, "no")
        }
        other => panic!("expected the error of the answer, got {:?}", other),
    }
    let path: Vec<char> = "./pkg dir".chars().collect();
    let refused = vec![Answer { text: "./pkg dir".to_string(), outcome: Err("no".to_string()) }];
    assert!(matches!(classify_chars(&path, &refused), Ok(RequirementLine::Path(_))));
    let option: Vec<char> = "-r other.txt".chars().collect();
    assert!(matches!(classify_chars(&option, &vec![]), Ok(RequirementLine::RequirementFile(_))));
}

#[test]
fn lines_are_classified_by_the_first_rule_that_applies() {
    assert!(matches!(parse_requirement_line(""), Ok(RequirementLine::Noop)));
    assert!(matches!(parse_requirement_line("   \t"), Ok(RequirementLine::Noop)));
    assert!(matches!(parse_requirement_line("# comment"), Ok(RequirementLine::Noop)));
    assert!(matches!(parse_requirement_line("## comment"), Ok(RequirementLine::Noop)));
    assert!(matches!(parse_requirement_line("--index-url https://x"), Ok(RequirementLine::Noop)));
    assert!(matches!(parse_requirement_line("-e ."), Ok(RequirementLine::Noop)));
    assert!(matches!(parse_requirement_line("-r"), Ok(RequirementLine::Noop)));
    assert!(matches!(parse_requirement_line("-r # gone"), Ok(RequirementLine::Noop)));
    match parse_requirement_line("  -r   other.txt  extra # why\r") {
        Ok(RequirementLine::RequirementFile(path)) => assert_eq!(path, "other.txt"),
        other => panic!("expected an inclusion, got {:?}", other),
    }
    match parse_requirement_line("requests==2.28.1    # Inline comment") {
        Ok(RequirementLine::Dependency(Dependency::PyPI(requirement))) => {
            assert_eq!(requirement.name, "requests");
            assert_eq!(requirement.version_specifier, Some("==2.28.1".to_string()));
        }
        other => panic!("expected a requirement, got {:?}", other),
    }
}

#[test]
fn what_is_no_requirement_may_be_a_url_or_a_path() {
    for url in [
        "http://example.com/a b",
        "https://example.com/package 1.0",
        "ftp://example.com/x y",
        "file:///home/me/pkg dir",
    ] {
        match parse_requirement_line(url) {
            Ok(RequirementLine::Url(found)) => assert_eq!(found, url),
            other => panic!("expected a URL for {}, got {:?}", url, other),
        }
    }
    for path in [
        "/opt/pkg",
        "./local/pkg",
        "../pkg",
        "my pkg.whl",
        "my pkg.tar.gz",
        "my pkg.zip",
        "my pkg.tar.bz2",
        "my pkg.tar",
        "my pkg.egg",
        "my pkg.tar.xz",
        "requests-2.26.0.tar.gz",
    ] {
        match parse_requirement_line(path) {
            Ok(RequirementLine::Path(found)) => assert_eq!(found, path),
            other => panic!("expected a path for {}, got {:?}", path, other),
        }
    }
}

#[test]
fn what_is_neither_is_a_parse_error() {
    match parse_requirement_line("not a requirement!") {
        Err(AnalysisError::DependencyParseError(message)) => assert!(!message.is_empty()),
        other => panic!("expected an error, got {:?}", other),
    }
    assert!(matches!(
        parse_requirement_line("foo- >=1"),
        Err(AnalysisError::DependencyParseError(_))
    ));
    let failed = parse_dependencies(&vec![], "flask\n===\nrequests\n");
    assert!(matches!(failed, Outcome::Failed(AnalysisError::DependencyParseError(_))));
}

#[test]
fn urls_and_paths_become_dependencies() {
    let deps = done(parse_dependencies(
        &vec![],
        "https://example.com/a b.whl\n./local dir\nflask\r\n",
    ))
    .unwrap();
    assert_eq!(
        names_of(&deps),
        vec!["url https://example.com/a b.whl", "path ./local dir", "flask"]
    );
}

#[test]
fn a_file_that_includes_itself_fails() {
    let files = vec![file("a.txt", "flask\n-r a.txt\n")];
    let message = cycle_message(parse(&files, "a.txt"));
    assert_eq!(message, "Circular dependency detected in requirements file: a.txt");
}

#[test]
fn files_that_include_each_other_fail() {
    let files = vec![file("a.txt", "-r b.txt\n"), file("b.txt", "-r a.txt\n")];
    let message = cycle_message(parse(&files, "a.txt"));
    assert_eq!(message, "Circular dependency detected in requirements file: a.txt");

    let longer = vec![
        file("dir/a.txt", "flask\n-r b.txt\n"),
        file("dir/b.txt", "-r sub/c.txt\n"),
        file("dir/sub/c.txt", "requests\n-r /abs/d.txt\n"),
        file("/abs/d.txt", "-r /dir/../dir/a.txt\n-r ../dir/b.txt\n"),
        file("/dir/a.txt", "-r /abs/./d.txt\n"),
    ];
    let message = cycle_message(parse(&longer, "dir/a.txt"));
    assert_eq!(message, "Circular dependency detected in requirements file: /abs/./d.txt");
}

#[test]
fn a_file_that_is_included_twice_fails() {
    let files = vec![
        file("a.txt", "-r b.txt\n-r c.txt\n"),
        file("b.txt", "-r d.txt\n"),
        file("c.txt", "-r d.txt\n"),
        file("d.txt", "torch\n"),
    ];
    let message = cycle_message(parse(&files, "a.txt"));
    assert_eq!(message, "Circular dependency detected in requirements file: d.txt");

    let twice = vec![file("a.txt", "-r d.txt\n-r d.txt\n"), file("d.txt", "torch\n")];
    let message = cycle_message(parse(&twice, "a.txt"));
    assert_eq!(message, "Circular dependency detected in requirements file: d.txt");
}

#[test]
fn an_included_file_stands_in_the_place_of_its_line() {
    let files = vec![
        file("a.txt", "flask\n-r b.txt\npandas\n"),
        file("b.txt", "torch==2.6.0\n"),
    ];
    let deps = done(parse(&files, "a.txt")).unwrap();
    assert_eq!(names_of(&deps), vec!["flask", "torch", "pandas"]);
    match &deps[1] {
        Dependency::PyPI(requirement) => {
            assert_eq!(requirement.version_specifier, Some("==2.6.0".to_string()))
        }
        _ => panic!("Expected a PyPI dependency"),
    }
}

#[test]
fn the_first_error_is_the_error() {
    let files = vec![
        file("a.txt", "-r b.txt\n-r a.txt\n"),
        file("b.txt", "not a requirement!\n"),
    ];
    match parse(&files, "a.txt") {
        Outcome::Failed(AnalysisError::DependencyParseError(message)) => {
            assert!(!message.starts_with("Circular"))
        }
        other => panic!("expected an error, got {:?}", other),
    }
}

#[test]
fn a_file_that_is_not_there_is_asked_for() {
    match parse(&vec![], "requirements.txt") {
        Outcome::NeedsFile(path) => assert_eq!(path, "requirements.txt"),
        other => panic!("expected a request, got {:?}", other),
    }
    let files = vec![file("reqs/base.txt", "flask\n-r extra/more.txt\n")];
    match parse(&files, "reqs/base.txt") {
        Outcome::NeedsFile(path) => assert_eq!(path, "reqs/extra/more.txt"),
        other => panic!("expected a request, got {:?}", other),
    }
    match parse_dependencies(&vec![], "-r other.txt\n") {
        Outcome::NeedsFile(path) => assert_eq!(path, "other.txt"),
        other => panic!("expected a request, got {:?}", other),
    }
    let rooted = vec![file("/base.txt", "-r more.txt\n")];
    match parse(&rooted, "/base.txt") {
        Outcome::NeedsFile(path) => assert_eq!(path, "/more.txt"),
        other => panic!("expected a request, got {:?}", other),
    }
}

#[test]
fn a_file_that_cannot_be_read_is_a_read_error() {
    let files = vec![
        file("a.txt", "-r b.txt\n"),
        SourceFile { path: "b.txt".to_string(), content: Err("permission denied".to_string()) },
    ];
    match parse(&files, "a.txt") {
        Outcome::Failed(AnalysisError::FileReadError(path, cause)) => {
            assert_eq!(path, "b.txt");
            assert_eq!(cause, "permission denied");
        }
        other => panic!("expected a read error, got {:?}", other),
    }
}

#[test]
fn the_files_that_are_entered_are_visited() {
    let files = vec![file("a.txt", "-r b.txt\n"), file("b.txt", "flask\n")];
    let mut visited = vec!["z.txt".to_string()];
    let deps = done(parse_dependencies_file_with_visited(&files, "a.txt", &mut visited)).unwrap();
    assert_eq!(names_of(&deps), vec!["flask"]);
    assert_eq!(visited, vec!["z.txt", "a.txt", "b.txt"]);

    let mut already = vec!["a.txt".to_string()];
    let message =
        cycle_message(parse_dependencies_file_with_visited(&files, "a.txt", &mut already));
    assert_eq!(message, "Circular dependency detected in requirements file: a.txt");
    assert_eq!(already, vec!["a.txt"]);
}

#[test]
fn the_parser_returns_on_every_text_that_it_is_handed() {
    let alphabet: Vec<char> =
        "ab1.-_ []()<>=!~@;:,/#'\"*\t\u{e9}xpython_version".chars().collect();
    let mut state: u64 = 0x9E37_79B9_7F4A_7C15;
    let mut next = move || {
        state = state.wrapping_mul(6364136223846793005).wrapping_add(1442695040888963407);
        (state >> 33) as usize
    };
    let mut parsed = 0;
    for _ in 0..200_000 {
        let length = next() % 14;
        let text: String = (0..length).map(|_| alphabet[next() % alphabet.len()]).collect();
        if parse_requirement(&text).is_ok() {
            parsed += 1;
        }
        let _ = parse_requirement_line(&text);
    }
    assert!(parsed > 0);
}

#[test]
fn a_requirement_with_extras_and_markers_is_read() {
    let text = "numpy[a,b] >=1.20.0, <2 ; python_version >= '3.8' and (os_name == 'nt' or extra == 'x')";
    let found = parse_requirement(text).unwrap();
    assert_eq!(found.name, "numpy");
    assert_eq!(found.extras, vec!["a".to_string(), "b".to_string()]);
    assert_eq!(found.version_specifier, Some(">=1.20.0, <2".to_string()));
    assert!(found.markers.is_some());
    assert!(parse_requirement("numpy >=").is_err());
}

#[test]
fn a_file_is_known_by_the_canonical_form_of_its_path() {
    let files = vec![file("d/a.txt", "flask\n-r ../d/a.txt\n")];
    let message = cycle_message(parse(&files, "d/a.txt"));
    assert_eq!(message, "Circular dependency detected in requirements file: d/../d/a.txt");

    let dotted = vec![file("d/a.txt", "-r ./b.txt\n"), file("d/b.txt", "-r .//./a.txt\n")];
    let message = cycle_message(parse(&dotted, "d/./a.txt"));
    assert_eq!(message, "Circular dependency detected in requirements file: d/.//./a.txt");

    let mut visited = vec!["d/a.txt".to_string()];
    let message =
        cycle_message(parse_dependencies_file_with_visited(&files, "d/./a.txt", &mut visited));
    assert_eq!(message, "Circular dependency detected in requirements file: d/./a.txt");
    assert_eq!(visited, vec!["d/a.txt"]);

    match parse(&vec![], "x/../../y/./z.txt") {
        Outcome::NeedsFile(path) => assert_eq!(path, "../y/z.txt"),
        other => panic!("expected a request, got {:?}", other),
    }
    match parse(&vec![], "/../a//b/") {
        Outcome::NeedsFile(path) => assert_eq!(path, "/a/b"),
        other => panic!("expected a request, got {:?}", other),
    }
}

#[test]
fn a_list_is_read_by_the_answers_that_are_given() {
    let files = vec![file("a.txt", "flask\n-r b.txt\n"), file("b.txt", "torch==2.6.0\n")];
    match requirementstxt::parse(&vec![], &files, "a.txt") {
        Outcome::NeedsRequirement(text) => assert_eq!(text, "flask"),
        other => panic!("expected a request, got {:?}", other),
    }
    let by_answers = answered(|answers| requirementstxt::parse(answers, &files, "a.txt"));
    assert_eq!(names_of(&done(by_answers).unwrap()), vec!["flask", "torch"]);
    let same = answered(|answers| requirementstxt::parse_dependencies_file(answers, &files, "a.txt"));
    assert_eq!(names_of(&done(same).unwrap()), vec!["flask", "torch"]);
    let content = answered(|answers| {
        requirementstxt::parse_dependencies(answers, &files, "pandas\n-r a.txt\n")
    });
    assert_eq!(names_of(&done(content).unwrap()), vec!["pandas", "flask", "torch"]);
    assert_eq!(requirementstxt::statements("flask\n# no\n-r x\n\nrequests>=2 # yes\n"), vec![
        "flask",
        "requests>=2"
    ]);
}
