//! Declared dependencies: what one dependency is, and the named sets of them
//! that a manifest gives.

use crate::error::{AnalysisError, AnalysisErrorView};
use crate::files::{
    file_at, file_views, find_file, has_file, Halt, HaltView, Outcome, SourceFile, SourceFileView,
};
use crate::project::requirement::{
    answer_texts, answer_views, answers_all, are_parser_answers, Answer, AnswerView,
};
use crate::text::{concat, from_chars, slice, string_views, to_chars, trim, trimmed};
use crate::{EnvironmentBuilderSource, SourceView};
use vstd::prelude::*;

pub mod pyprojecttoml;
pub mod requirement;
pub mod requirements_laws;
pub mod requirementstxt;

verus! {

/// Whether `c` ends the package name in a Conda match spec: it opens a
/// version or build constraint.
pub open spec fn is_constraint_start(c: char) -> bool {
    c == '=' || c == '>' || c == '<' || c == '~' || c == '['
}

/// Where the part of `s` after its channel begins. `s` is read from index `i`
/// on, and `start` is where the part began so far: each `::` moves it behind
/// itself.
pub open spec fn channel_end(s: Seq<char>, i: int, start: int) -> int
    decreases s.len() - i,
{
    if 0 <= i && i + 1 < s.len() {
        if s[i] == ':' && s[i + 1] == ':' {
            channel_end(s, i + 2, i + 2)
        } else {
            channel_end(s, i + 1, start)
        }
    } else {
        start
    }
}

/// The first index at or after `i` that opens a constraint, or the length.
pub open spec fn constraint_start(s: Seq<char>, i: int) -> int
    decreases s.len() - i,
{
    if 0 <= i < s.len() && !is_constraint_start(s[i]) {
        constraint_start(s, i + 1)
    } else {
        i
    }
}

/// The package name of a Conda match spec: what follows the channel, up to
/// the first constraint, without white space around it.
pub open spec fn conda_name(spec: Seq<char>) -> Seq<char> {
    let from = channel_end(spec, 0, 0);
    trimmed(spec.subrange(from, constraint_start(spec, from)))
}

/// A match spec for a Conda package: its package name, and the spec as it
/// was written, white space included.
#[derive(Debug, Clone, PartialEq, Eq)]
pub struct CondaMatchSpec {
    name: String,
    raw_spec: String,
}

/// A `CondaMatchSpec` with its texts as character sequences.
pub ghost struct CondaMatchSpecView {
    pub name: Seq<char>,
    pub raw_spec: Seq<char>,
}

impl View for CondaMatchSpec {
    type V = CondaMatchSpecView;

    closed spec fn view(&self) -> CondaMatchSpecView {
        CondaMatchSpecView { name: self.name@, raw_spec: self.raw_spec@ }
    }
}

impl CondaMatchSpec {
    /// Create a new CondaMatchSpec from a spec string: the spec is kept as
    /// it is written, and the package name is taken from the spec without
    /// the white space around it.
    pub fn new(spec: &str) -> (r: Self)
        ensures
            r@.raw_spec == spec@,
            r@.name == conda_name(trimmed(spec@)),
    {
        let written = to_chars(spec);
        let name = Self::extract_name(&trim(&written));
        Self { name: from_chars(&name), raw_spec: from_chars(&written) }
    }

    /// The package name of a spec: without the channel before the last
    /// `::`, and up to the first of `=`, `>`, `<`, `~`, `[`.
    pub fn extract_name(spec: &Vec<char>) -> (name: Vec<char>)
        ensures
            name@ == conda_name(spec@),
    {
        let mut from: usize = 0;
        let mut i: usize = 0;
        while i < spec.len() && i + 1 < spec.len()
            invariant
                from <= i <= spec.len(),
                channel_end(spec@, i as int, from as int) == channel_end(spec@, 0, 0),
            decreases spec.len() - i,
        {
            if spec[i] == ':' && spec[i + 1] == ':' {
                i += 2;
                from = i;
            } else {
                i += 1;
            }
        }
        let mut end: usize = from;
        while end < spec.len() && !Self::opens_constraint(spec[end])
            invariant
                from <= end <= spec.len(),
                constraint_start(spec@, end as int) == constraint_start(spec@, from as int),
            decreases spec.len() - end,
        {
            end += 1;
        }
        trim(&slice(spec, from, end))
    }

    /// Whether `c` opens a version or build constraint.
    fn opens_constraint(c: char) -> (r: bool)
        ensures
            r == is_constraint_start(c),
    {
        c == '=' || c == '>' || c == '<' || c == '~' || c == '['
    }

    /// Get the package name.
    pub fn name(&self) -> (name: &str)
        ensures
            name@ == self@.name,
    {
        self.name.as_str()
    }

    /// Get the spec as it was written.
    pub fn raw_spec(&self) -> (raw: &str)
        ensures
            raw@ == self@.raw_spec,
    {
        self.raw_spec.as_str()
    }

    /// A copy of this spec.
    pub fn duplicate(&self) -> (r: Self)
        ensures
            r@ == self@,
    {
        Self { name: self.name.clone(), raw_spec: self.raw_spec.clone() }
    }
}

/// The views of a sequence of optional strings.
pub open spec fn optional_text(s: Option<String>) -> Option<Seq<char>> {
    match s {
        Some(t) => Some(t@),
        None => None,
    }
}

/// A copy of a list of strings.
pub fn duplicate_strings(v: &Vec<String>) -> (r: Vec<String>)
    ensures
        string_views(r@) == string_views(v@),
{
    let mut r: Vec<String> = Vec::new();
    let mut i: usize = 0;
    while i < v.len()
        invariant
            i <= v.len(),
            string_views(r@) == string_views(v@).take(i as int),
        decreases v.len() - i,
    {
        let item = v[i].clone();
        proof {
            let all = string_views(v@);
            assert(all.take(i + 1) == all.take(i as int).push(all[i as int]));
            assert(string_views(r@.push(item)) == string_views(r@).push(item@));
        }
        r.push(item);
        i += 1;
    }
    proof {
        assert(string_views(v@).take(v.len() as int) == string_views(v@));
    }
    r
}

/// A copy of an optional string.
pub fn duplicate_text(s: &Option<String>) -> (r: Option<String>)
    ensures
        optional_text(r) == optional_text(*s),
{
    match s {
        Some(t) => Some(t.clone()),
        None => None,
    }
}

/// A requirement on a PyPI package, as a requirement string states it.
#[derive(Debug, Clone, PartialEq, Eq)]
pub struct PyPIRequirement {
    /// The normalised name of the distribution.
    pub name: String,
    /// The extras asked for, such as `security` in `requests[security]`.
    pub extras: Vec<String>,
    /// The version specifiers, such as `>=2.8.1`.
    pub version_specifier: Option<String>,
    /// The URL of a direct reference, as in `name @ https://...`.
    pub url: Option<String>,
    /// The environment markers, such as `python_version > "3.8"`.
    pub markers: Option<String>,
}

/// A `PyPIRequirement` with its texts as character sequences.
pub ghost struct PyPIRequirementView {
    pub name: Seq<char>,
    pub extras: Seq<Seq<char>>,
    pub version_specifier: Option<Seq<char>>,
    pub url: Option<Seq<char>>,
    pub markers: Option<Seq<char>>,
}

impl View for PyPIRequirement {
    type V = PyPIRequirementView;

    open spec fn view(&self) -> PyPIRequirementView {
        PyPIRequirementView {
            name: self.name@,
            extras: string_views(self.extras@),
            version_specifier: optional_text(self.version_specifier),
            url: optional_text(self.url),
            markers: optional_text(self.markers),
        }
    }
}

impl PyPIRequirement {
    /// A copy of this requirement.
    pub fn duplicate(&self) -> (r: Self)
        ensures
            r@ == self@,
    {
        Self {
            name: self.name.clone(),
            extras: duplicate_strings(&self.extras),
            version_specifier: duplicate_text(&self.version_specifier),
            url: duplicate_text(&self.url),
            markers: duplicate_text(&self.markers),
        }
    }
}

/// A declared dependency.
#[derive(Debug, Clone, PartialEq, Eq)]
pub enum Dependency {
    /// A dependency on a PyPI package.
    PyPI(PyPIRequirement),
    /// A dependency on a Conda package.
    Conda(CondaMatchSpec),
    /// A package given by its URL; its name is not known.
    PackageUrl(String),
    /// A package given by a path on this machine; its name is not known.
    PackagePath(String),
}

/// A `Dependency` with its texts as character sequences.
pub ghost enum DependencyView {
    PyPI(PyPIRequirementView),
    Conda(CondaMatchSpecView),
    PackageUrl(Seq<char>),
    PackagePath(Seq<char>),
}

impl View for Dependency {
    type V = DependencyView;

    open spec fn view(&self) -> DependencyView {
        match *self {
            Dependency::PyPI(r) => DependencyView::PyPI(r@),
            Dependency::Conda(c) => DependencyView::Conda(c@),
            Dependency::PackageUrl(u) => DependencyView::PackageUrl(u@),
            Dependency::PackagePath(p) => DependencyView::PackagePath(p@),
        }
    }
}

/// The views of a sequence of dependencies.
pub open spec fn dependency_views(s: Seq<Dependency>) -> Seq<DependencyView> {
    Seq::new(s.len(), |i: int| s[i]@)
}

impl Dependency {
    /// A copy of this dependency.
    pub fn duplicate(&self) -> (r: Self)
        ensures
            r@ == self@,
    {
        match self {
            Dependency::PyPI(r) => Dependency::PyPI(r.duplicate()),
            Dependency::Conda(c) => Dependency::Conda(c.duplicate()),
            Dependency::PackageUrl(u) => Dependency::PackageUrl(u.clone()),
            Dependency::PackagePath(p) => Dependency::PackagePath(p.clone()),
        }
    }
}

/// Appends copies of the dependencies of `more` to `list`.
pub fn extend_with_copies(list: &mut Vec<Dependency>, more: &Vec<Dependency>)
    ensures
        dependency_views(final(list)@) == dependency_views(old(list)@) + dependency_views(more@),
{
    let ghost before = dependency_views(list@);
    let mut i: usize = 0;
    proof {
        assert(before + dependency_views(more@).take(0) == before);
    }
    while i < more.len()
        invariant
            i <= more.len(),
            dependency_views(list@) == before + dependency_views(more@).take(i as int),
        decreases more.len() - i,
    {
        let item = more[i].duplicate();
        proof {
            let all = dependency_views(more@);
            assert(all.take(i + 1) == all.take(i as int).push(all[i as int]));
            assert(dependency_views(list@.push(item)) == dependency_views(list@).push(item@));
        }
        list.push(item);
        i += 1;
    }
    proof {
        assert(dependency_views(more@).take(more.len() as int) == dependency_views(more@));
    }
}

/// A copy of a list of dependencies.
pub fn duplicate_dependencies(list: &Vec<Dependency>) -> (r: Vec<Dependency>)
    ensures
        dependency_views(r@) == dependency_views(list@),
{
    let mut r: Vec<Dependency> = Vec::new();
    proof {
        assert(dependency_views(r@) + dependency_views(list@) == dependency_views(list@));
    }
    extend_with_copies(&mut r, list);
    r
}

/// A named set of dependencies of a project: those of the base install,
/// or those of the base install together with one extra.
#[derive(Debug)]
pub struct Configuration {
    dependencies: Vec<Dependency>,
    name: String,
    source: EnvironmentBuilderSource,
}

/// A `Configuration` over character sequences.
pub ghost struct ConfigurationView {
    pub dependencies: Seq<DependencyView>,
    pub name: Seq<char>,
    pub source: SourceView,
}

impl View for Configuration {
    type V = ConfigurationView;

    closed spec fn view(&self) -> ConfigurationView {
        ConfigurationView {
            dependencies: dependency_views(self.dependencies@),
            name: self.name@,
            source: self.source@,
        }
    }
}

impl Configuration {
    /// The configuration with these dependencies, this name and this source.
    pub fn new(dependencies: Vec<Dependency>, name: String, source: EnvironmentBuilderSource) -> (r:
        Self)
        ensures
            r@ == (ConfigurationView {
                dependencies: dependency_views(dependencies@),
                name: name@,
                source: source@,
            }),
    {
        Self { dependencies, name, source }
    }

    /// The dependencies of the configuration.
    pub fn dependencies(&self) -> (r: &Vec<Dependency>)
        ensures
            dependency_views(r@) == self@.dependencies,
    {
        &self.dependencies
    }

    /// The name of the configuration.
    pub fn name(&self) -> (r: &str)
        ensures
            r@ == self@.name,
    {
        self.name.as_str()
    }

    /// The manifest that the configuration comes from.
    pub fn source(&self) -> (r: &EnvironmentBuilderSource)
        ensures
            r@ == self@.source,
    {
        &self.source
    }
}

/// The views of a sequence of configurations.
pub open spec fn configuration_views(s: Seq<Configuration>) -> Seq<ConfigurationView> {
    Seq::new(s.len(), |i: int| s[i]@)
}

/// How the reading of a manifest ended.
pub ghost enum ResolutionView {
    /// With the configurations of the manifest.
    Done(Seq<ConfigurationView>),
    /// For want of the file with this path.
    NeedsFile(Seq<char>),
    /// For want of the parser's answer to this requirement text.
    NeedsRequirement(Seq<char>),
    /// With an error.
    Failed(AnalysisErrorView),
}

/// The view of the outcome of reading a manifest.
pub open spec fn resolution_view(o: Outcome<Vec<Configuration>>) -> ResolutionView {
    match o {
        Outcome::Done(configurations) => ResolutionView::Done(configuration_views(configurations@)),
        Outcome::NeedsFile(path) => ResolutionView::NeedsFile(path@),
        Outcome::NeedsRequirement(text) => ResolutionView::NeedsRequirement(text@),
        Outcome::Failed(e) => ResolutionView::Failed(e@),
    }
}

/// The name of the configuration of an extra: the path of the manifest
/// and, in square brackets, the name of the extra.
pub open spec fn extra_name(path: Seq<char>, extra: Seq<char>) -> Seq<char> {
    path + seq!['['] + extra + seq![']']
}

/// The configurations of a project: the base one, named by the path, with
/// the required dependencies; then one for each extra, in order, with the
/// required dependencies followed by the extra's own.
pub open spec fn project_configurations(
    path: Seq<char>,
    project: pyprojecttoml::PyProjectTomlView,
) -> Seq<ConfigurationView> {
    seq![
        ConfigurationView {
            dependencies: project.required,
            name: path,
            source: SourceView::PyProjectToml(path),
        },
    ] + Seq::new(
        project.optional.len(),
        |i: int|
            ConfigurationView {
                dependencies: project.required + project.optional[i].dependencies,
                name: extra_name(path, project.optional[i].name),
                source: SourceView::PyProjectToml(path),
            },
    )
}

/// The configurations of a project-metadata file, from its place among the
/// files and what the TOML parser made of its text.
pub open spec fn pyproject_resolution(
    answers: Seq<AnswerView>,
    files: Seq<SourceFileView>,
    path: Seq<char>,
) -> ResolutionView {
    if !has_file(files, path) {
        ResolutionView::NeedsFile(path)
    } else {
        match file_at(files, path).content {
            Err(cause) => ResolutionView::Failed(AnalysisErrorView::FileReadError(path, cause)),
            Ok(text) => match pyprojecttoml::contents_dependencies(
                answers,
                pyprojecttoml::parsed_document(text),
            ) {
                Err(HaltView::NeedsRequirement(wanted)) => ResolutionView::NeedsRequirement(wanted),
                Err(HaltView::Failed(e)) => ResolutionView::Failed(e),
                Ok(project) => ResolutionView::Done(project_configurations(path, project)),
            },
        }
    }
}

/// The one configuration of a requirements file: named by the path, with
/// the dependencies of the file and of all that it includes.
pub open spec fn requirements_resolution(
    answers: Seq<AnswerView>,
    files: Seq<SourceFileView>,
    path: Seq<char>,
) -> ResolutionView {
    match requirementstxt::expand_file(answers, files, path, Seq::empty()).outcome {
        requirementstxt::ExpansionView::Done(deps) => ResolutionView::Done(
            seq![
                ConfigurationView {
                    dependencies: deps,
                    name: path,
                    source: SourceView::RequirementsTxt(path),
                },
            ],
        ),
        requirementstxt::ExpansionView::NeedsFile(missing) => ResolutionView::NeedsFile(missing),
        requirementstxt::ExpansionView::NeedsRequirement(wanted) => {
            ResolutionView::NeedsRequirement(wanted)
        },
        requirementstxt::ExpansionView::Failed(e) => ResolutionView::Failed(e),
    }
}

/// The configurations of a manifest; manifests of the other kinds are not read.
pub open spec fn manifest_resolution(
    answers: Seq<AnswerView>,
    files: Seq<SourceFileView>,
    source: SourceView,
) -> ResolutionView {
    match source {
        SourceView::PyProjectToml(path) => pyproject_resolution(answers, files, path),
        SourceView::RequirementsTxt(path) => requirements_resolution(answers, files, path),
        SourceView::CondaEnvironmentYml(path) => ResolutionView::Failed(
            AnalysisErrorView::UnsupportedProjectFormat(path),
        ),
        SourceView::PixiToml(path) => ResolutionView::Failed(
            AnalysisErrorView::UnsupportedProjectFormat(path),
        ),
    }
}

/// In groups with distinct names, the dependencies of the group named like
/// the group at `i` are those of the group at `i`.
pub proof fn lemma_group_at(groups: Seq<pyprojecttoml::ExtraGroupView>, i: int)
    requires
        0 <= i < groups.len(),
        pyprojecttoml::distinct_names(groups),
    ensures
        pyprojecttoml::group_dependencies(groups, groups[i].name) == groups[i].dependencies,
{
    pyprojecttoml::lemma_group_index_bounds(groups, groups[i].name, 0);
}

/// The name of the configuration of an extra.
pub fn configuration_name(path: &str, extra: &str) -> (r: String)
    ensures
        r@ == extra_name(path@, extra@),
{
    let mut chars = to_chars(path);
    chars.push('[');
    let mut all = concat(&chars, &to_chars(extra));
    all.push(']');
    from_chars(&all)
}

/// The configurations of a project, the base one first.
pub fn configurations_of_project(path: &str, project: &pyprojecttoml::PyProjectToml) -> (r: Vec<
    Configuration,
>)
    ensures
        configuration_views(r@) == project_configurations(path@, project@),
{
    let mut configurations: Vec<Configuration> = Vec::new();
    let own_path = from_chars(&to_chars(path));
    configurations.push(
        Configuration::new(
            duplicate_dependencies(project.required_dependencies()),
            own_path.clone(),
            EnvironmentBuilderSource::PyProjectToml(own_path.clone()),
        ),
    );
    let names = project.optional_configurations();
    let ghost expected = project_configurations(path@, project@);
    let mut i: usize = 0;
    proof {
        assert(pyprojecttoml::name_views(names@).len() == names@.len());
        assert(configuration_views(configurations@) =~= expected.take(1));
    }
    while i < names.len()
        invariant
            i <= names.len(),
            names@.len() == project@.optional.len(),
            pyprojecttoml::name_views(names@) == pyprojecttoml::group_names(project@.optional),
            pyprojecttoml::distinct_names(project@.optional),
            own_path@ == path@,
            expected == project_configurations(path@, project@),
            configuration_views(configurations@) == expected.take(i + 1),
        decreases names.len() - i,
    {
        let name = names[i];
        let mut one: Vec<&str> = Vec::new();
        one.push(name);
        let dependencies = project.get_dependencies_for_configuration(one.as_slice());
        let configuration = Configuration::new(
            dependencies,
            configuration_name(path, name),
            EnvironmentBuilderSource::PyProjectToml(own_path.clone()),
        );
        proof {
            let groups = project@.optional;
            assert(pyprojecttoml::name_views(names@)[i as int] == name@);
            assert(name@ == groups[i as int].name);
            lemma_group_at(groups, i as int);
            let listed = pyprojecttoml::name_views(one@);
            assert(listed.len() == 1);
            assert(listed.last() == name@);
            assert(listed.drop_last() =~= Seq::<Seq<char>>::empty());
            assert(pyprojecttoml::configuration_dependencies(project@, listed.drop_last())
                == project@.required);
            assert(configuration@ == expected[i + 1]);
            assert(expected.take(i + 2) == expected.take(i + 1).push(expected[i + 1]));
            assert(configuration_views(configurations@.push(configuration)) == configuration_views(
                configurations@,
            ).push(configuration@));
        }
        configurations.push(configuration);
        i += 1;
    }
    proof {
        assert(expected.take(expected.len() as int) == expected);
    }
    configurations
}

/// Extract the different configurations of dependencies from a manifest:
/// for a project-metadata file the base configuration and one for each
/// extra, for a requirements file the one configuration of its list.
pub fn extract_configurations(
    source: EnvironmentBuilderSource,
    answers: &Vec<Answer>,
    files: &Vec<SourceFile>,
) -> (r: Outcome<Vec<Configuration>>)
    ensures
        resolution_view(r) == manifest_resolution(
            answer_views(answers@),
            file_views(files@),
            source@,
        ),
{
    match &source {
        EnvironmentBuilderSource::PyProjectToml(path) => {
            match find_file(files, path.as_str()) {
                None => Outcome::NeedsFile(path.clone()),
                Some(file) => match &file.content {
                    Err(cause) => Outcome::Failed(
                        AnalysisError::FileReadError(path.clone(), cause.clone()),
                    ),
                    Ok(text) => match pyprojecttoml::parse_contents(text.as_str(), answers) {
                        Err(Halt::NeedsRequirement(wanted)) => Outcome::NeedsRequirement(wanted),
                        Err(Halt::Failed(e)) => Outcome::Failed(e),
                        Ok(project) => Outcome::Done(
                            configurations_of_project(path.as_str(), &project),
                        ),
                    },
                },
            }
        },
        EnvironmentBuilderSource::RequirementsTxt(path) => {
            match requirementstxt::parse(answers, files, path.as_str()) {
                Outcome::Done(dependencies) => {
                    let mut configurations: Vec<Configuration> = Vec::new();
                    let configuration = Configuration::new(
                        dependencies,
                        path.clone(),
                        EnvironmentBuilderSource::RequirementsTxt(path.clone()),
                    );
                    configurations.push(configuration);
                    proof {
                        assert(configuration_views(configurations@) =~= seq![configuration@]);
                    }
                    Outcome::Done(configurations)
                },
                Outcome::NeedsFile(missing) => Outcome::NeedsFile(missing),
                Outcome::NeedsRequirement(wanted) => Outcome::NeedsRequirement(wanted),
                Outcome::Failed(e) => Outcome::Failed(e),
            }
        },
        EnvironmentBuilderSource::CondaEnvironmentYml(path) => Outcome::Failed(
            AnalysisError::UnsupportedProjectFormat(path.clone()),
        ),
        EnvironmentBuilderSource::PixiToml(path) => Outcome::Failed(
            AnalysisError::UnsupportedProjectFormat(path.clone()),
        ),
    }
}

/// Whether everything that reading a manifest can ask the parser about has
/// an answer: the requirement strings of a project-metadata document, the
/// statements of every requirements file.
pub open spec fn answers_manifest(
    answers: Seq<AnswerView>,
    files: Seq<SourceFileView>,
    source: SourceView,
) -> bool {
    match source {
        SourceView::PyProjectToml(path) => has_file(files, path) ==> (file_at(
            files,
            path,
        ).content matches Ok(text) ==> (pyprojecttoml::parsed_document(text) matches Some(
            document,
        ) ==> answers_all(answers, pyprojecttoml::document_texts(document)))),
        SourceView::RequirementsTxt(_) => requirementstxt::answers_files(answers, files),
        _ => true,
    }
}

/// With an answer to everything that it can ask about, a manifest is read
/// without asking.
pub proof fn lemma_answered_manifest(
    answers: Seq<AnswerView>,
    files: Seq<SourceFileView>,
    source: SourceView,
)
    requires
        answers_manifest(answers, files, source),
    ensures
        !(manifest_resolution(answers, files, source) is NeedsRequirement),
{
    match source {
        SourceView::PyProjectToml(path) => {
            if has_file(files, path) {
                if let Ok(text) = file_at(files, path).content {
                    if let Some(document) = pyprojecttoml::parsed_document(text) {
                        pyprojecttoml::lemma_answered_document(answers, document);
                    }
                }
            }
        },
        SourceView::RequirementsTxt(path) => {
            requirementstxt::lemma_answered_file(answers, files, path, Seq::empty());
        },
        _ => {},
    }
}

/// Asks the requirement parser about everything that reading the manifest
/// `source` from `files` can ask about.
pub fn manifest_answers(source: &EnvironmentBuilderSource, files: &Vec<SourceFile>) -> (r: Vec<Answer>)
    ensures
        are_parser_answers(answer_views(r@)),
        answers_manifest(answer_views(r@), file_views(files@), source@),
{
    let mut answers: Vec<Answer> = Vec::new();
    proof {
        assert(are_parser_answers(answer_views(answers@)));
    }
    match source {
        EnvironmentBuilderSource::PyProjectToml(path) => {
            match find_file(files, path.as_str()) {
                Some(file) => match &file.content {
                    Ok(text) => match pyprojecttoml::parse_document(text.as_str()) {
                        Some(document) => answer_texts(&pyprojecttoml::requirement_texts(&document)),
                        None => answers,
                    },
                    Err(_) => answers,
                },
                None => answers,
            }
        },
        EnvironmentBuilderSource::RequirementsTxt(_) => {
            requirementstxt::answer_files(&mut answers, files);
            answers
        },
        _ => answers,
    }
}

/// Extracts the configurations of a manifest: asks the requirement parser
/// about everything that reading it can ask about, and gives the
/// configurations by those answers. No answer is asked for.
pub fn read_configurations(source: EnvironmentBuilderSource, files: &Vec<SourceFile>) -> (r: Outcome<
    Vec<Configuration>,
>)
    ensures
        !(r is NeedsRequirement),
        exists|answers: Seq<AnswerView>| #[trigger]
            are_parser_answers(answers) && resolution_view(r) == manifest_resolution(
                answers,
                file_views(files@),
                source@,
            ),
{
    let answers = manifest_answers(&source, files);
    proof {
        lemma_answered_manifest(answer_views(answers@), file_views(files@), source@);
    }
    extract_configurations(source, &answers, files)
}

} // verus!
