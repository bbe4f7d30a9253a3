//! Dependency analysis for Python projects: which modules the sources import,
//! and which dependencies the project's manifests declare.
//!
//! - [`parser`] scans a Python source for its import statements.
//! - [`project`] reads the manifests of a project: `pyproject.toml` and
//!   requirements lists, with the files that they include.
//! - [`env_parser`] gives all the dependencies of a manifest in one list.
//! - [`files`] holds the files that the caller has read; the library reads
//!   none itself, and says which file it needs next.
//! - [`project::requirement`] asks the requirement parser. Its answers
//!   depend on more than the text, so what reads manifests takes them as
//!   data; the functions named `read_...` ask the parser themselves.
//! - [`text`] holds the text operations that the others are stated over.

use crate::error::{AnalysisError, AnalysisErrorView};
use crate::files::{file_views, join, join_path, Outcome, SourceFile};
use crate::project::pyprojecttoml::{get, lookup, parse_document, parsed_document, Item};
use crate::project::requirement::{answer_views, are_parser_answers, Answer, AnswerView};
use crate::project::{lemma_answered_manifest, manifest_answers};
use crate::project::requirementstxt::ExpansionView;
use crate::project::{
    extract_configurations, manifest_resolution, resolution_view, Configuration, ResolutionView,
};
use crate::text::{from_chars, to_chars};
use vstd::prelude::*;

pub mod env_parser;
pub mod error;
pub mod files;
pub mod parser;
pub mod project;
pub mod text;

verus! {

/// A file that dependencies can be read from, by its kind and its path.
#[derive(Debug, Clone, PartialEq, Eq)]
pub enum EnvironmentBuilderSource {
    CondaEnvironmentYml(String),
    PixiToml(String),
    PyProjectToml(String),
    RequirementsTxt(String),
}

/// An `EnvironmentBuilderSource` with its path as a character sequence.
pub ghost enum SourceView {
    CondaEnvironmentYml(Seq<char>),
    PixiToml(Seq<char>),
    PyProjectToml(Seq<char>),
    RequirementsTxt(Seq<char>),
}

impl View for EnvironmentBuilderSource {
    type V = SourceView;

    open spec fn view(&self) -> SourceView {
        match *self {
            EnvironmentBuilderSource::CondaEnvironmentYml(p) => SourceView::CondaEnvironmentYml(p@),
            EnvironmentBuilderSource::PixiToml(p) => SourceView::PixiToml(p@),
            EnvironmentBuilderSource::PyProjectToml(p) => SourceView::PyProjectToml(p@),
            EnvironmentBuilderSource::RequirementsTxt(p) => SourceView::RequirementsTxt(p@),
        }
    }
}

impl EnvironmentBuilderSource {
    /// The path of the file.
    pub open spec fn path_of(source: SourceView) -> Seq<char> {
        match source {
            SourceView::CondaEnvironmentYml(p) => p,
            SourceView::PixiToml(p) => p,
            SourceView::PyProjectToml(p) => p,
            SourceView::RequirementsTxt(p) => p,
        }
    }

    /// The path of the file.
    pub fn path(&self) -> (r: &str)
        ensures
            r@ == Self::path_of(self@),
    {
        match self {
            EnvironmentBuilderSource::CondaEnvironmentYml(p) => p.as_str(),
            EnvironmentBuilderSource::PixiToml(p) => p.as_str(),
            EnvironmentBuilderSource::PyProjectToml(p) => p.as_str(),
            EnvironmentBuilderSource::RequirementsTxt(p) => p.as_str(),
        }
    }

    /// A copy of this source.
    pub fn duplicate(&self) -> (r: Self)
        ensures
            r@ == self@,
    {
        match self {
            EnvironmentBuilderSource::CondaEnvironmentYml(p) => {
                EnvironmentBuilderSource::CondaEnvironmentYml(p.clone())
            },
            EnvironmentBuilderSource::PixiToml(p) => EnvironmentBuilderSource::PixiToml(p.clone()),
            EnvironmentBuilderSource::PyProjectToml(p) => EnvironmentBuilderSource::PyProjectToml(
                p.clone(),
            ),
            EnvironmentBuilderSource::RequirementsTxt(p) => {
                EnvironmentBuilderSource::RequirementsTxt(p.clone())
            },
        }
    }
}

/// How the environment is built in which the dependencies are checked.
#[derive(Debug, Clone, Copy, PartialEq, Eq)]
pub enum EnvironmentBackend {
    Auto,
    Simulated,
    UV,
    Pixi,
    Current,
}

/// What an analysis found.
#[derive(Debug, Clone)]
pub struct Analysis {
    pub found_imports: Vec<String>,
    pub unused_imports: Vec<String>,
    pub missing_imports: Vec<String>,
}

impl Default for Analysis {
    fn default() -> (r: Self)
        ensures
            r.found_imports@.len() == 0,
            r.unused_imports@.len() == 0,
            r.missing_imports@.len() == 0,
    {
        Self { found_imports: Vec::new(), unused_imports: Vec::new(), missing_imports: Vec::new() }
    }
}

/// What is known of the directory of a project: whether it is a directory,
/// the text of its `pyproject.toml` where that file is there and can be
/// read, and whether a `requirements.txt` and an `environment.yml` are there.
#[derive(Debug)]
pub struct ProjectDirectory {
    pub is_dir: bool,
    pub pyproject_toml: Option<String>,
    pub has_requirements_txt: bool,
    pub has_environment_yml: bool,
}

/// Whether a text is a valid document with a table `project`, from what the
/// TOML parser made of it.
pub open spec fn declares_project(parsed: Option<Item>) -> bool {
    parsed matches Some(document) && lookup(document, "project"@) matches Some(Item::Table(_))
}

/// Whether the `pyproject.toml` of a directory describes a project.
pub open spec fn has_project_metadata(pyproject_toml: Option<String>) -> bool {
    pyproject_toml matches Some(text) && declares_project(parsed_document(text@))
}

/// The error for a path in which no manifest is found.
pub open spec fn no_manifest(path: Seq<char>) -> AnalysisErrorView {
    AnalysisErrorView::NoProjectOrRequirementsFile(path)
}

/// The manifest of the project at `path`. In a directory, the first of:
/// `pyproject.toml`, if it describes a project; `requirements.txt`;
/// `environment.yml`. Otherwise there is none.
pub open spec fn inferred_source(path: Seq<char>, directory: ProjectDirectory) -> Result<
    SourceView,
    AnalysisErrorView,
> {
    if directory.is_dir && has_project_metadata(directory.pyproject_toml) {
        Ok(SourceView::PyProjectToml(join_path(path, "pyproject.toml"@)))
    } else if directory.is_dir && directory.has_requirements_txt {
        Ok(SourceView::RequirementsTxt(join_path(path, "requirements.txt"@)))
    } else if directory.is_dir && directory.has_environment_yml {
        Ok(SourceView::CondaEnvironmentYml(join_path(path, "environment.yml"@)))
    } else {
        Err(no_manifest(path))
    }
}

/// Whether a text is a valid document with a table `project`, from what the
/// TOML parser made of it.
pub fn has_project_table(parsed: &Option<Item>) -> (r: bool)
    ensures
        r == declares_project(*parsed),
{
    match parsed {
        Some(document) => match get(document, "project") {
            Some(Item::Table(_)) => true,
            _ => false,
        },
        None => false,
    }
}

/// The path of the file `name` in the directory `path`.
fn file_in(path: &str, name: &str) -> (r: String)
    ensures
        r@ == join_path(path@, name@),
{
    from_chars(&join(&to_chars(path), &to_chars(name)))
}

impl EnvironmentBuilderSource {
    /// The manifest of the project at `path`, from what is known of that
    /// directory.
    pub fn infer_from_source_path(path: &str, directory: &ProjectDirectory) -> (r: Result<
        Self,
        AnalysisError,
    >)
        ensures
            match r {
                Ok(source) => inferred_source(path@, *directory) == Ok::<
                    SourceView,
                    AnalysisErrorView,
                >(source@),
                Err(e) => inferred_source(path@, *directory) == Err::<SourceView, AnalysisErrorView>(
                    e@,
                ),
            },
    {
        if directory.is_dir {
            let described = match &directory.pyproject_toml {
                Some(text) => has_project_table(&parse_document(text.as_str())),
                None => false,
            };
            if described {
                return Ok(Self::PyProjectToml(file_in(path, "pyproject.toml")));
            }
            if directory.has_requirements_txt {
                return Ok(Self::RequirementsTxt(file_in(path, "requirements.txt")));
            }
            if directory.has_environment_yml {
                return Ok(Self::CondaEnvironmentYml(file_in(path, "environment.yml")));
            }
        }
        Err(AnalysisError::NoProjectOrRequirementsFile(from_chars(&to_chars(path))))
    }
}

/// The manifest that an analysis reads: the one that is given, or else the
/// one that is found at the path, if any.
pub open spec fn chosen_source(
    given: Option<EnvironmentBuilderSource>,
    path: Seq<char>,
    directory: ProjectDirectory,
) -> Option<SourceView> {
    match given {
        Some(source) => Some(source@),
        None => match inferred_source(path, directory) {
            Ok(source) => Some(source),
            Err(_) => None,
        },
    }
}

/// How an analysis ended.
pub ghost enum AnalysisView {
    /// With its result.
    Done,
    /// For want of the file with this path.
    NeedsFile(Seq<char>),
    /// For want of the parser's answer to this requirement text.
    NeedsRequirement(Seq<char>),
    /// With an error.
    Failed(AnalysisErrorView),
}

/// The view of the outcome of an analysis.
pub open spec fn analysis_view(r: Outcome<Analysis>) -> AnalysisView {
    match r {
        Outcome::Done(_) => AnalysisView::Done,
        Outcome::NeedsFile(path) => AnalysisView::NeedsFile(path@),
        Outcome::NeedsRequirement(text) => AnalysisView::NeedsRequirement(text@),
        Outcome::Failed(e) => AnalysisView::Failed(e@),
    }
}

/// How the analysis of the project at `path` ends: as the reading of the
/// dependencies of its manifest ends, of the one that is given or else of
/// the one that is found at the path; without a manifest nothing is read.
pub open spec fn project_analysis(
    given: Option<EnvironmentBuilderSource>,
    path: Seq<char>,
    directory: ProjectDirectory,
    answers: Seq<AnswerView>,
    files: Seq<crate::files::SourceFileView>,
) -> AnalysisView {
    match chosen_source(given, path, directory) {
        None => AnalysisView::Done,
        Some(source) => match env_parser::manifest_dependencies(answers, files, source) {
            ExpansionView::Done(_) => AnalysisView::Done,
            ExpansionView::NeedsFile(missing) => AnalysisView::NeedsFile(missing),
            ExpansionView::NeedsRequirement(wanted) => AnalysisView::NeedsRequirement(wanted),
            ExpansionView::Failed(e) => AnalysisView::Failed(e),
        },
    }
}

/// The manifest that an analysis reads, if there is one.
fn analysis_source(
    given: Option<EnvironmentBuilderSource>,
    path: &str,
    directory: &ProjectDirectory,
) -> (r: Option<EnvironmentBuilderSource>)
    ensures
        match r {
            Some(source) => chosen_source(given, path@, *directory) == Some(source@),
            None => chosen_source(given, path@, *directory) is None,
        },
{
    match given {
        Some(source) => Some(source),
        None => match EnvironmentBuilderSource::infer_from_source_path(path, directory) {
            Ok(inferred) => Some(inferred),
            Err(_) => None,
        },
    }
}

/// Analyses the project at `path`, by the answers of the requirement
/// parser. The dependencies of its manifest are read, of the one that is
/// given or else of the one that is found at the path; without a manifest
/// nothing is read. The analysis ends as that reading ends, and is empty.
pub fn analyze_project(
    environment_builder_source: Option<EnvironmentBuilderSource>,
    backend: EnvironmentBackend,
    path: &str,
    directory: &ProjectDirectory,
    answers: &Vec<Answer>,
    files: &Vec<SourceFile>,
) -> (r: Outcome<Analysis>)
    ensures
        analysis_view(r) == project_analysis(
            environment_builder_source,
            path@,
            *directory,
            answer_views(answers@),
            file_views(files@),
        ),
        r matches Outcome::Done(analysis) ==> analysis.found_imports@.len() == 0
            && analysis.unused_imports@.len() == 0 && analysis.missing_imports@.len() == 0,
{
    if let Some(environment) = analysis_source(environment_builder_source, path, directory) {
        match env_parser::parse_dependency_file(environment, answers, files) {
            Outcome::Done(_) => {},
            Outcome::NeedsFile(missing) => {
                return Outcome::NeedsFile(missing);
            },
            Outcome::NeedsRequirement(wanted) => {
                return Outcome::NeedsRequirement(wanted);
            },
            Outcome::Failed(e) => {
                return Outcome::Failed(e);
            },
        }
    }
    Outcome::Done(Analysis::default())
}

/// Analyses the project at `path`: asks the requirement parser about
/// everything that reading the manifest can ask about, and analyses by
/// those answers. No answer is asked for.
pub fn read_analysis(
    environment_builder_source: Option<EnvironmentBuilderSource>,
    backend: EnvironmentBackend,
    path: &str,
    directory: &ProjectDirectory,
    files: &Vec<SourceFile>,
) -> (r: Outcome<Analysis>)
    ensures
        !(r is NeedsRequirement),
        exists|answers: Seq<AnswerView>| #[trigger]
            are_parser_answers(answers) && analysis_view(r) == project_analysis(
                environment_builder_source,
                path@,
                *directory,
                answers,
                file_views(files@),
            ),
        r matches Outcome::Done(analysis) ==> analysis.found_imports@.len() == 0
            && analysis.unused_imports@.len() == 0 && analysis.missing_imports@.len() == 0,
{
    match analysis_source(environment_builder_source, path, directory) {
        Some(source) => {
            let answers = manifest_answers(&source, files);
            proof {
                env_parser::lemma_answered_dependencies(
                    answer_views(answers@),
                    file_views(files@),
                    source@,
                );
            }
            match env_parser::parse_dependency_file(source, &answers, files) {
                Outcome::Done(_) => Outcome::Done(Analysis::default()),
                Outcome::NeedsFile(missing) => Outcome::NeedsFile(missing),
                Outcome::NeedsRequirement(wanted) => Outcome::NeedsRequirement(wanted),
                Outcome::Failed(e) => Outcome::Failed(e),
            }
        },
        None => {
            let none: Vec<Answer> = Vec::new();
            proof {
                assert(are_parser_answers(answer_views(none@)));
            }
            Outcome::Done(Analysis::default())
        },
    }
}

/// The configurations of the project at `path`, from the manifest that is
/// given; without one, from the manifest that is found at the path, or
/// the error that none is found.
pub open spec fn project_resolution(
    given: Option<EnvironmentBuilderSource>,
    path: Seq<char>,
    directory: ProjectDirectory,
    answers: Seq<AnswerView>,
    files: Seq<crate::files::SourceFileView>,
) -> ResolutionView {
    match given {
        Some(source) => manifest_resolution(answers, files, source@),
        None => match inferred_source(path, directory) {
            Ok(source) => manifest_resolution(answers, files, source),
            Err(e) => ResolutionView::Failed(e),
        },
    }
}

/// The configurations of the project at `path`: one for each install
/// target of its manifest.
pub fn resolve(
    manifest: Option<EnvironmentBuilderSource>,
    path: &str,
    directory: &ProjectDirectory,
    answers: &Vec<Answer>,
    files: &Vec<SourceFile>,
) -> (r: Outcome<Vec<Configuration>>)
    ensures
        resolution_view(r) == project_resolution(
            manifest,
            path@,
            *directory,
            answer_views(answers@),
            file_views(files@),
        ),
{
    match manifest {
        Some(source) => extract_configurations(source, answers, files),
        None => match EnvironmentBuilderSource::infer_from_source_path(path, directory) {
            Ok(source) => extract_configurations(source, answers, files),
            Err(e) => Outcome::Failed(e),
        },
    }
}

/// The manifest that is given, or else the one that is found at the path.
fn choose_source(
    given: Option<EnvironmentBuilderSource>,
    path: &str,
    directory: &ProjectDirectory,
) -> (r: Result<EnvironmentBuilderSource, AnalysisError>)
    ensures
        match given {
            Some(source) => r matches Ok(chosen) && chosen@ == source@,
            None => match r {
                Ok(chosen) => inferred_source(path@, *directory) == Ok::<
                    SourceView,
                    AnalysisErrorView,
                >(chosen@),
                Err(e) => inferred_source(path@, *directory) == Err::<
                    SourceView,
                    AnalysisErrorView,
                >(e@),
            },
        },
{
    match given {
        Some(source) => Ok(source),
        None => EnvironmentBuilderSource::infer_from_source_path(path, directory),
    }
}

/// The configurations of the project at `path`: asks the requirement
/// parser about everything that reading the manifest can ask about, and
/// gives the configurations by those answers. No answer is asked for.
pub fn read_project(
    manifest: Option<EnvironmentBuilderSource>,
    path: &str,
    directory: &ProjectDirectory,
    files: &Vec<SourceFile>,
) -> (r: Outcome<Vec<Configuration>>)
    ensures
        !(r is NeedsRequirement),
        exists|answers: Seq<AnswerView>| #[trigger]
            are_parser_answers(answers) && resolution_view(r) == project_resolution(
                manifest,
                path@,
                *directory,
                answers,
                file_views(files@),
            ),
{
    match choose_source(manifest, path, directory) {
        Ok(source) => {
            let answers = manifest_answers(&source, files);
            proof {
                lemma_answered_manifest(answer_views(answers@), file_views(files@), source@);
            }
            extract_configurations(source, &answers, files)
        },
        Err(e) => {
            let none: Vec<Answer> = Vec::new();
            proof {
                assert(are_parser_answers(answer_views(none@)));
            }
            Outcome::Failed(e)
        },
    }
}

} // verus!
