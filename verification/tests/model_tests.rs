use depwise_analysis::error::AnalysisError;
use depwise_analysis::files::{join, normalize, parent_directory, Outcome, SourceFile};
use depwise_analysis::project::requirementstxt::{parse_requirement_line, RequirementLine};
use depwise_analysis::project::requirement::answer;
use depwise_analysis::project::{
    self, configuration_name, CondaMatchSpec, Configuration, Dependency,
};
use depwise_analysis::text::{from_chars, is_whitespace, lines, to_chars, trim};
use depwise_analysis::{Analysis, EnvironmentBackend, EnvironmentBuilderSource, ProjectDirectory};

fn extract_configurations(
    source: EnvironmentBuilderSource,
    files: &Vec<SourceFile>,
) -> Outcome<Vec<Configuration>> {
    project::read_configurations(source, files)
}

fn parse_dependency_file(
    source: EnvironmentBuilderSource,
    files: &Vec<SourceFile>,
) -> Outcome<Vec<Dependency>> {
    depwise_analysis::env_parser::read_dependency_file(source, files)
}

fn resolve(
    manifest: Option<EnvironmentBuilderSource>,
    path: &str,
    directory: &ProjectDirectory,
    files: &Vec<SourceFile>,
) -> Outcome<Vec<Configuration>> {
    depwise_analysis::read_project(manifest, path, directory, files)
}

fn analyze_project(
    source: Option<EnvironmentBuilderSource>,
    backend: EnvironmentBackend,
    path: &str,
    directory: &ProjectDirectory,
    files: &Vec<SourceFile>,
) -> Outcome<Analysis> {
    depwise_analysis::read_analysis(source, backend, path, directory, files)
}

fn file(path: &str, content: &str) -> SourceFile {
    SourceFile { path: path.to_string(), content: Ok(content.to_string()) }
}

fn names_of(dependencies: &[Dependency]) -> Vec<String> {
    dependencies
        .iter()
        .map(|d| match d {
            Dependency::PyPI(requirement) => requirement.name.clone(),
            _ => panic!("Expected a PyPI dependency"),
        })
        .collect()
}

fn configurations(outcome: Outcome<Vec<Configuration>>) -> Vec<Configuration> {
    match outcome {
        Outcome::Done(found) => found,
        other => panic!("expected configurations, got {:?}", other),
    }
}

fn text(chars: &[char]) -> String {
    chars.iter().collect()
}

#[test]
fn a_conda_spec_gives_the_name_of_its_package() {
    let spec = CondaMatchSpec::new("pkg::numpy=1.2[build=3]");
    assert_eq!(spec.name(), "numpy");
    assert_eq!(spec.raw_spec(), "pkg::numpy=1.2[build=3]");

    assert_eq!(CondaMatchSpec::new("package").name(), "package");
    assert_eq!(CondaMatchSpec::new("package=1.0").name(), "package");
    assert_eq!(CondaMatchSpec::new("package>=1.0").name(), "package");
    assert_eq!(CondaMatchSpec::new("package<2").name(), "package");
    assert_eq!(CondaMatchSpec::new("package~=2").name(), "package");
    assert_eq!(CondaMatchSpec::new("package[build=*]").name(), "package");
    assert_eq!(CondaMatchSpec::new("channel::package").name(), "package");
    assert_eq!(CondaMatchSpec::new("a::b::c >= 1").name(), "c");
    assert_eq!(CondaMatchSpec::new("a:::b").name(), ":b");
    assert_eq!(CondaMatchSpec::new("a::").name(), "");
    assert_eq!(CondaMatchSpec::new("=1.0").name(), "");
    assert_eq!(CondaMatchSpec::new("").name(), "");

    let padded = CondaMatchSpec::new("  conda-forge:: scipy >=1.0 \n");
    assert_eq!(padded.name(), "scipy");
    assert_eq!(padded.raw_spec(), "  conda-forge:: scipy >=1.0 \n");
    let verbatim = CondaMatchSpec::new("  numpy=1.2 ");
    assert_eq!(verbatim.raw_spec(), "  numpy=1.2 ");
    assert_eq!(verbatim.name(), "numpy");
    assert_eq!(padded.duplicate(), padded);
    assert_eq!(text(&CondaMatchSpec::extract_name(&to_chars("x::y[z]"))), "y");
}

#[test]
fn white_space_is_what_unicode_says() {
    for c in [' ', '\t', '\n', '\r', '\u{0B}', '\u{0C}', '\u{85}', '\u{A0}', '\u{1680}', '\u{2000}',
        '\u{200A}', '\u{2028}', '\u{2029}', '\u{202F}', '\u{205F}', '\u{3000}']
    {
        assert!(is_whitespace(c));
    }
    for c in ['a', '0', '-', '\u{08}', '\u{0E}', '\u{1F}', '\u{200B}', '\u{180E}', '\u{FEFF}'] {
        assert!(!is_whitespace(c));
    }
    for code in 0..0x11_0000u32 {
        if let Some(c) = char::from_u32(code) {
            assert_eq!(is_whitespace(c), c.is_whitespace());
        }
    }
}

#[test]
fn text_is_trimmed_and_split_like_strings() {
    for s in ["", " ", "a", "  a b \t", "\u{A0}x\u{3000}", "\n\n", "a\n"] {
        assert_eq!(text(&trim(&to_chars(s))), s.trim());
        assert_eq!(from_chars(&to_chars(s)), s);
    }
    for s in ["", "a", "a\n", "a\nb", "\n", "\n\na\n\n", "a\r\nb"] {
        let found: Vec<String> = lines(&to_chars(s)).iter().map(|l| text(l)).collect();
        let expected: Vec<String> = s.split_terminator('\n').map(|l| l.to_string()).collect();
        assert_eq!(found, expected);
    }
}

#[test]
fn paths_are_joined_with_slashes() {
    let joined = |base: &str, relative: &str| text(&join(&to_chars(base), &to_chars(relative)));
    assert_eq!(joined("dir", "a.txt"), "dir/a.txt");
    assert_eq!(joined("dir/", "a.txt"), "dir/a.txt");
    assert_eq!(joined("", "a.txt"), "a.txt");
    assert_eq!(joined("dir", "/abs/a.txt"), "/abs/a.txt");
    assert_eq!(joined("/", "a.txt"), "/a.txt");
    assert_eq!(joined(".", "a.txt"), "./a.txt");
    assert_eq!(joined("dir", ""), "dir/");
    let canonical = |path: &str| text(&normalize(&to_chars(path)));
    assert_eq!(canonical("d/./a.txt"), "d/a.txt");
    assert_eq!(canonical("d/../d/a.txt"), "d/a.txt");
    assert_eq!(canonical("./a.txt"), "a.txt");
    assert_eq!(canonical("../a.txt"), "../a.txt");
    assert_eq!(canonical("a/../../b"), "../b");
    assert_eq!(canonical("/../a"), "/a");
    assert_eq!(canonical("/a/b/../../.."), "/");
    assert_eq!(canonical("a//b/"), "a/b");
    assert_eq!(canonical(""), "");
    assert_eq!(canonical("."), "");
    assert_eq!(canonical("/"), "/");
    let parent = |path: &str| text(&parent_directory(&to_chars(path)));
    assert_eq!(parent("dir/sub/a.txt"), "dir/sub");
    assert_eq!(parent("a.txt"), "");
    assert_eq!(parent("/a.txt"), "/");
    assert_eq!(parent("/dir/a.txt"), "/dir");
    assert_eq!(parent(""), "");
}

#[test]
fn a_project_resolves_to_its_base_and_one_configuration_for_each_extra() {
    let manifest = r#"
[project]
dependencies = ["requests>=2.8.1"]

[project.optional-dependencies]
dev = ["pytest>=6.0.0"]
"#;
    let files = vec![file("proj/pyproject.toml", manifest)];
    let source = EnvironmentBuilderSource::PyProjectToml("proj/pyproject.toml".to_string());
    let found = configurations(extract_configurations(source.clone(), &files));
    assert_eq!(found.len(), 2);
    assert_eq!(found[0].name(), "proj/pyproject.toml");
    assert_eq!(names_of(found[0].dependencies()), vec!["requests"]);
    assert_eq!(found[0].source(), &source);
    assert_eq!(found[1].name(), "proj/pyproject.toml[dev]");
    assert_eq!(names_of(found[1].dependencies()), vec!["requests", "pytest"]);
    assert_eq!(found[1].source(), &source);
    assert_eq!(configuration_name("a.toml", "x"), "a.toml[x]");
}

#[test]
fn a_requirements_file_resolves_to_one_configuration() {
    let files = vec![file("a.txt", "flask\n-r b.txt\n"), file("b.txt", "torch==2.6.0\n")];
    let source = EnvironmentBuilderSource::RequirementsTxt("a.txt".to_string());
    let found = configurations(extract_configurations(source.clone(), &files));
    assert_eq!(found.len(), 1);
    assert_eq!(found[0].name(), "a.txt");
    assert_eq!(names_of(found[0].dependencies()), vec!["flask", "torch"]);
    assert_eq!(found[0].source(), &source);

    let cyclic = vec![file("a.txt", "-r b.txt\n"), file("b.txt", "-r a.txt\n")];
    match extract_configurations(source, &cyclic) {
        Outcome::Failed(AnalysisError::DependencyParseError(message)) => {
            assert_eq!(message, "Circular dependency detected in requirements file: a.txt")
        }
        other => panic!("expected a cycle error, got {:?}", other),
    }
}

#[test]
fn manifests_of_other_kinds_are_not_read() {
    let conda = EnvironmentBuilderSource::CondaEnvironmentYml("environment.yml".to_string());
    match extract_configurations(conda.clone(), &vec![]) {
        Outcome::Failed(AnalysisError::UnsupportedProjectFormat(path)) => {
            assert_eq!(path, "environment.yml")
        }
        other => panic!("expected an error, got {:?}", other),
    }
    let pixi = EnvironmentBuilderSource::PixiToml("pixi.toml".to_string());
    assert!(matches!(
        extract_configurations(pixi.clone(), &vec![]),
        Outcome::Failed(AnalysisError::UnsupportedProjectFormat(_))
    ));
    match parse_dependency_file(conda, &vec![]) {
        Outcome::Failed(AnalysisError::UnsupportedDependencyFile(path)) => {
            assert_eq!(path, "environment.yml")
        }
        other => panic!("expected an error, got {:?}", other),
    }
    assert!(matches!(
        parse_dependency_file(pixi, &vec![]),
        Outcome::Failed(AnalysisError::UnsupportedDependencyFile(_))
    ));
}

#[test]
fn a_manifest_that_is_not_there_is_asked_for() {
    let source = EnvironmentBuilderSource::PyProjectToml("pyproject.toml".to_string());
    match extract_configurations(source.clone(), &vec![]) {
        Outcome::NeedsFile(path) => assert_eq!(path, "pyproject.toml"),
        other => panic!("expected a request, got {:?}", other),
    }
    let unreadable = vec![SourceFile {
        path: "pyproject.toml".to_string(),
        content: Err("permission denied".to_string()),
    }];
    match extract_configurations(source.clone(), &unreadable) {
        Outcome::Failed(AnalysisError::FileReadError(path, cause)) => {
            assert_eq!(path, "pyproject.toml");
            assert_eq!(cause, "permission denied");
        }
        other => panic!("expected an error, got {:?}", other),
    }
    let invalid = vec![file("pyproject.toml", "[project\n")];
    match extract_configurations(source, &invalid) {
        Outcome::Failed(AnalysisError::PyProjectTomlError(cause)) => {
            assert_eq!(cause, "Invalid TOML")
        }
        other => panic!("expected an error, got {:?}", other),
    }
}

#[test]
fn the_manifest_is_found_in_a_fixed_order() {
    let directory = |pyproject: Option<&str>, requirements: bool, environment: bool| {
        ProjectDirectory {
            is_dir: true,
            pyproject_toml: pyproject.map(|s| s.to_string()),
            has_requirements_txt: requirements,
            has_environment_yml: environment,
        }
    };
    let infer = |d: &ProjectDirectory| EnvironmentBuilderSource::infer_from_source_path("proj", d);
    assert_eq!(
        infer(&directory(Some("[project]\nname = \"x\"\n"), true, true)).unwrap(),
        EnvironmentBuilderSource::PyProjectToml("proj/pyproject.toml".to_string())
    );
    assert_eq!(
        infer(&directory(Some("[tool.x]\n"), true, true)).unwrap(),
        EnvironmentBuilderSource::RequirementsTxt("proj/requirements.txt".to_string())
    );
    assert_eq!(
        infer(&directory(Some("project = 1\n"), true, false)).unwrap(),
        EnvironmentBuilderSource::RequirementsTxt("proj/requirements.txt".to_string())
    );
    assert_eq!(
        infer(&directory(Some("[project\n"), false, true)).unwrap(),
        EnvironmentBuilderSource::CondaEnvironmentYml("proj/environment.yml".to_string())
    );
    assert_eq!(
        infer(&directory(None, true, true)).unwrap(),
        EnvironmentBuilderSource::RequirementsTxt("proj/requirements.txt".to_string())
    );
    match infer(&directory(None, false, false)) {
        Err(AnalysisError::NoProjectOrRequirementsFile(path)) => assert_eq!(path, "proj"),
        other => panic!("expected an error, got {:?}", other),
    }
    let no_directory = ProjectDirectory {
        is_dir: false,
        pyproject_toml: Some("[project]\n".to_string()),
        has_requirements_txt: true,
        has_environment_yml: true,
    };
    assert!(matches!(
        infer(&no_directory),
        Err(AnalysisError::NoProjectOrRequirementsFile(_))
    ));
}

#[test]
fn resolve_reads_the_manifest_that_is_given_or_found() {
    let files = vec![
        file("proj/pyproject.toml", "[project]\ndependencies = [\"flask\"]\n"),
        file("proj/requirements.txt", "torch\n"),
    ];
    let directory = ProjectDirectory {
        is_dir: true,
        pyproject_toml: Some("[project]\ndependencies = [\"flask\"]\n".to_string()),
        has_requirements_txt: true,
        has_environment_yml: false,
    };
    let found = configurations(resolve(None, "proj", &directory, &files));
    assert_eq!(found.len(), 1);
    assert_eq!(names_of(found[0].dependencies()), vec!["flask"]);

    let given = EnvironmentBuilderSource::RequirementsTxt("proj/requirements.txt".to_string());
    let found = configurations(resolve(Some(given), "proj", &directory, &files));
    assert_eq!(names_of(found[0].dependencies()), vec!["torch"]);

    let nothing = ProjectDirectory {
        is_dir: true,
        pyproject_toml: None,
        has_requirements_txt: false,
        has_environment_yml: false,
    };
    match resolve(None, "proj", &nothing, &files) {
        Outcome::Failed(AnalysisError::NoProjectOrRequirementsFile(path)) => {
            assert_eq!(path, "proj")
        }
        other => panic!("expected an error, got {:?}", other),
    }
}

#[test]
fn an_analysis_reads_the_dependencies_and_is_empty() {
    let nothing = ProjectDirectory {
        is_dir: false,
        pyproject_toml: None,
        has_requirements_txt: false,
        has_environment_yml: false,
    };
    match analyze_project(None, EnvironmentBackend::Auto, "proj", &nothing, &vec![]) {
        Outcome::Done(analysis) => {
            assert!(analysis.found_imports.is_empty());
            assert!(analysis.unused_imports.is_empty());
            assert!(analysis.missing_imports.is_empty());
        }
        other => panic!("expected an analysis, got {:?}", other),
    }
    let given = EnvironmentBuilderSource::RequirementsTxt("r.txt".to_string());
    match analyze_project(Some(given.clone()), EnvironmentBackend::UV, "proj", &nothing, &vec![]) {
        Outcome::NeedsFile(path) => assert_eq!(path, "r.txt"),
        other => panic!("expected a request, got {:?}", other),
    }
    let bad = vec![file("r.txt", "not a requirement!\n")];
    assert!(matches!(
        analyze_project(Some(given.clone()), EnvironmentBackend::Pixi, "proj", &nothing, &bad),
        Outcome::Failed(AnalysisError::DependencyParseError(_))
    ));
    let good = vec![file("r.txt", "flask\n")];
    assert!(matches!(
        analyze_project(Some(given), EnvironmentBackend::Current, "proj", &nothing, &good),
        Outcome::Done(_)
    ));
    let empty = Analysis::default();
    assert!(empty.found_imports.is_empty());
    assert_eq!(given_path(), "r.txt");
}

fn given_path() -> String {
    EnvironmentBuilderSource::RequirementsTxt("r.txt".to_string()).path().to_string()
}

#[test]
fn errors_say_what_failed() {
    assert_eq!(
        AnalysisError::ParseFileError("a".to_string(), "3".to_string(), "4".to_string()).message(),
        "Failed to parse file: a. Error reading line 3 column 4"
    );
    assert_eq!(
        AnalysisError::PyProjectTomlError("Invalid TOML".to_string()).message(),
        "Failed to parse pyproject.toml: Invalid TOML"
    );
    assert_eq!(
        AnalysisError::UnsupportedDependencyFile("pixi.toml".to_string()).message(),
        "Unsupported dependency file: pixi.toml"
    );
    assert_eq!(
        AnalysisError::UnsupportedProjectFormat("pixi.toml".to_string()).message(),
        "Unsupported project format: pixi.toml"
    );
    assert_eq!(
        AnalysisError::FileReadError("a.txt".to_string(), "gone".to_string()).message(),
        "Failed to read file a.txt: gone"
    );
    assert_eq!(
        AnalysisError::DependencyParseError("x".to_string()).message(),
        "Failed to parse dependency x"
    );
    assert_eq!(
        AnalysisError::NoProjectOrRequirementsFile("proj".to_string()).message(),
        "No project or requirements file could be automatically discovered in proj"
    );
}

#[test]
fn conda_names_agree_with_splitting_by_hand() {
    let alphabet: Vec<char> = ": =<>~[]ab1-\t".chars().collect();
    let mut state: u64 = 42;
    let mut next = move || {
        state = state.wrapping_mul(6364136223846793005).wrapping_add(1442695040888963407);
        (state >> 33) as usize
    };
    for _ in 0..50_000 {
        let length = next() % 12;
        let spec: String = (0..length).map(|_| alphabet[next() % alphabet.len()]).collect();
        let raw = spec.trim();
        let without_channel = raw.split("::").last().unwrap_or(raw);
        let expected = without_channel
            .split(|c: char| c == '=' || c == '>' || c == '<' || c == '~' || c == '[')
            .next()
            .unwrap_or(without_channel)
            .trim();
        let found = CondaMatchSpec::new(&spec);
        assert_eq!(found.name(), expected, "{:?}", spec);
        assert_eq!(found.raw_spec(), spec);
    }
}

#[test]
fn lines_are_read_like_those_of_a_string() {
    let alphabet: Vec<char> = "#-r ab1=.\t\r/:".chars().collect();
    let mut state: u64 = 4242;
    let mut next = move || {
        state = state.wrapping_mul(6364136223846793005).wrapping_add(1442695040888963407);
        (state >> 33) as usize
    };
    for _ in 0..50_000 {
        let length = next() % 10;
        let line: String = (0..length).map(|_| alphabet[next() % alphabet.len()]).collect();
        let trimmed = line.trim();
        let trimmed = trimmed.rsplit_once('#').unwrap_or((trimmed, "")).0.trim();
        let found = parse_requirement_line(&line);
        if trimmed.is_empty() || trimmed.starts_with('#') {
            assert!(matches!(found, Ok(RequirementLine::Noop)));
        } else if trimmed.starts_with("-r ") {
            let expected = trimmed.split_whitespace().nth(1).unwrap();
            match found {
                Ok(RequirementLine::RequirementFile(path)) => {
                    assert_eq!(path, expected, "{:?}", line)
                }
                other => panic!("expected an inclusion for {:?}, got {:?}", line, other),
            }
        } else if trimmed.starts_with('-') {
            assert!(matches!(found, Ok(RequirementLine::Noop)));
        }
    }
}

#[test]
fn a_manifest_is_read_by_the_answers_that_are_given() {
    let files = vec![file("r.txt", "flask\n")];
    let source = EnvironmentBuilderSource::RequirementsTxt("r.txt".to_string());
    match project::extract_configurations(source.clone(), &vec![], &files) {
        Outcome::NeedsRequirement(text) => assert_eq!(text, "flask"),
        other => panic!("expected a request, got {:?}", other),
    }
    let answers = vec![answer("flask")];
    let found = configurations(project::extract_configurations(source.clone(), &answers, &files));
    assert_eq!(names_of(found[0].dependencies()), vec!["flask"]);
    let nothing = ProjectDirectory {
        is_dir: false,
        pyproject_toml: None,
        has_requirements_txt: false,
        has_environment_yml: false,
    };
    assert!(matches!(
        depwise_analysis::resolve(Some(source.clone()), "p", &nothing, &answers, &files),
        Outcome::Done(_)
    ));
    assert!(matches!(
        depwise_analysis::analyze_project(
            Some(source.clone()),
            EnvironmentBackend::Auto,
            "p",
            &nothing,
            &vec![],
            &files
        ),
        Outcome::NeedsRequirement(_)
    ));
    assert!(matches!(
        depwise_analysis::env_parser::parse_dependency_file(source, &answers, &files),
        Outcome::Done(_)
    ));
    let given = project::manifest_answers(
        &EnvironmentBuilderSource::PyProjectToml("p.toml".to_string()),
        &vec![file("p.toml", "[project]\ndependencies = [\"flask\", \"x y z\"]\n")],
    );
    assert_eq!(given.len(), 2);
    assert_eq!(given[0].text, "flask");
    assert!(given[0].outcome.is_ok());
    assert!(given[1].outcome.is_err());
}
