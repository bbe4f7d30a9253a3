//! The flat view of a manifest: all the dependencies that it declares, in
//! one list.

use crate::error::{AnalysisError, AnalysisErrorView};
use crate::files::{
    file_at, file_views, find_file, has_file, Halt, HaltView, Outcome, SourceFile, SourceFileView,
};
use crate::project::pyprojecttoml::lemma_answered_document;
use crate::project::requirement::{answer_views, are_parser_answers, Answer, AnswerView};
use crate::project::requirementstxt::lemma_answered_file;
use crate::project::{answers_manifest, manifest_answers};
use crate::project::pyprojecttoml::{
    contents_dependencies, dependencies_view, document_dependencies, parse_contents, parse_table,
    parsed_document, read_contents, read_table, Item, PyProjectTomlView,
};
use crate::project::requirementstxt::{expand_file, expansion_view, ExpansionView};
use crate::project::{requirementstxt, Dependency, DependencyView};
use crate::{EnvironmentBuilderSource, SourceView};
use vstd::prelude::*;

verus! {

/// All the dependencies of what a document declares.
pub open spec fn all_of(project: Result<PyProjectTomlView, HaltView>) -> Result<
    Seq<DependencyView>,
    HaltView,
> {
    match project {
        Ok(view) => Ok(view.all),
        Err(e) => Err(e),
    }
}

/// All the dependencies that a document declares, those of every extra
/// included: the required ones first, then the optional ones, extra by
/// extra in the order of their keys; the items of an array in the order of
/// the document.
pub fn extract_dependencies_from_table(table: &Item, answers: &Vec<Answer>) -> (r: Result<
    Vec<Dependency>,
    Halt,
>)
    ensures
        dependencies_view(r) == all_of(document_dependencies(answer_views(answers@), *table)),
{
    match parse_table(table, answers) {
        Ok(project) => Ok(project.all_dependencies()),
        Err(e) => Err(e),
    }
}

/// All the dependencies that the text of a project-metadata document declares.
pub fn parse_dependencies(contents: &str, answers: &Vec<Answer>) -> (r: Result<
    Vec<Dependency>,
    Halt,
>)
    ensures
        dependencies_view(r) == all_of(
            contents_dependencies(answer_views(answers@), parsed_document(contents@)),
        ),
{
    match parse_contents(contents, answers) {
        Ok(project) => Ok(project.all_dependencies()),
        Err(e) => Err(e),
    }
}

/// All the dependencies of a project-metadata file, from its place among
/// the files.
pub open spec fn pyproject_dependencies(
    answers: Seq<AnswerView>,
    files: Seq<SourceFileView>,
    path: Seq<char>,
) -> ExpansionView {
    if !has_file(files, path) {
        ExpansionView::NeedsFile(path)
    } else {
        match file_at(files, path).content {
            Err(cause) => ExpansionView::Failed(AnalysisErrorView::FileReadError(path, cause)),
            Ok(text) => match all_of(contents_dependencies(answers, parsed_document(text))) {
                Ok(deps) => ExpansionView::Done(deps),
                Err(HaltView::NeedsRequirement(wanted)) => ExpansionView::NeedsRequirement(wanted),
                Err(HaltView::Failed(e)) => ExpansionView::Failed(e),
            },
        }
    }
}

/// All the dependencies of a manifest; manifests of the other kinds are not read.
pub open spec fn manifest_dependencies(
    answers: Seq<AnswerView>,
    files: Seq<SourceFileView>,
    source: SourceView,
) -> ExpansionView {
    match source {
        SourceView::PyProjectToml(path) => pyproject_dependencies(answers, files, path),
        SourceView::RequirementsTxt(path) => expand_file(
            answers,
            files,
            path,
            Seq::empty(),
        ).outcome,
        SourceView::CondaEnvironmentYml(path) => ExpansionView::Failed(
            AnalysisErrorView::UnsupportedDependencyFile(path),
        ),
        SourceView::PixiToml(path) => ExpansionView::Failed(
            AnalysisErrorView::UnsupportedDependencyFile(path),
        ),
    }
}

/// All the dependencies that a manifest declares, read from `files`.
pub fn parse_dependency_file(
    source: EnvironmentBuilderSource,
    answers: &Vec<Answer>,
    files: &Vec<SourceFile>,
) -> (r: Outcome<Vec<Dependency>>)
    ensures
        expansion_view(r) == manifest_dependencies(
            answer_views(answers@),
            file_views(files@),
            source@,
        ),
{
    match &source {
        EnvironmentBuilderSource::PyProjectToml(path) => {
            match find_file(files, path.as_str()) {
                None => Outcome::NeedsFile(path.clone()),
                Some(file) => match &file.content {
                    Err(cause) => Outcome::Failed(
                        AnalysisError::FileReadError(path.clone(), cause.clone()),
                    ),
                    Ok(text) => match parse_dependencies(text.as_str(), answers) {
                        Ok(deps) => Outcome::Done(deps),
                        Err(Halt::NeedsRequirement(wanted)) => Outcome::NeedsRequirement(wanted),
                        Err(Halt::Failed(e)) => Outcome::Failed(e),
                    },
                },
            }
        },
        EnvironmentBuilderSource::RequirementsTxt(path) => requirementstxt::parse_dependencies_file(
            answers,
            files,
            path.as_str(),
        ),
        EnvironmentBuilderSource::CondaEnvironmentYml(path) => Outcome::Failed(
            AnalysisError::UnsupportedDependencyFile(path.clone()),
        ),
        EnvironmentBuilderSource::PixiToml(path) => Outcome::Failed(
            AnalysisError::UnsupportedDependencyFile(path.clone()),
        ),
    }
}

/// With an answer to everything that it can ask about, the dependencies of
/// a manifest are read without asking.
pub proof fn lemma_answered_dependencies(
    answers: Seq<AnswerView>,
    files: Seq<SourceFileView>,
    source: SourceView,
)
    requires
        answers_manifest(answers, files, source),
    ensures
        !(manifest_dependencies(answers, files, source) is NeedsRequirement),
{
    match source {
        SourceView::PyProjectToml(path) => {
            if has_file(files, path) {
                if let Ok(text) = file_at(files, path).content {
                    if let Some(document) = parsed_document(text) {
                        lemma_answered_document(answers, document);
                    }
                }
            }
        },
        SourceView::RequirementsTxt(path) => {
            lemma_answered_file(answers, files, path, Seq::empty());
        },
        _ => {},
    }
}

/// All the dependencies that a manifest declares: asks the requirement
/// parser about everything that reading the manifest can ask about, and
/// gives the dependencies by those answers. No answer is asked for.
pub fn read_dependency_file(source: EnvironmentBuilderSource, files: &Vec<SourceFile>) -> (r: Outcome<
    Vec<Dependency>,
>)
    ensures
        !(r is NeedsRequirement),
        exists|answers: Seq<AnswerView>| #[trigger]
            are_parser_answers(answers) && expansion_view(r) == manifest_dependencies(
                answers,
                file_views(files@),
                source@,
            ),
{
    let answers = manifest_answers(&source, files);
    proof {
        lemma_answered_dependencies(answer_views(answers@), file_views(files@), source@);
    }
    parse_dependency_file(source, &answers, files)
}

/// The view of a list of dependencies that was read, once nothing is asked for.
pub open spec fn settled_dependencies(r: Result<Vec<Dependency>, AnalysisError>) -> Result<
    Seq<DependencyView>,
    HaltView,
> {
    match r {
        Ok(deps) => Ok(crate::project::dependency_views(deps@)),
        Err(e) => Err(HaltView::Failed(e@)),
    }
}

/// All the dependencies that a document declares: asks the requirement
/// parser about each of its requirement strings, and gives the
/// dependencies by those answers.
pub fn read_dependencies_from_table(table: &Item) -> (r: Result<Vec<Dependency>, AnalysisError>)
    ensures
        exists|answers: Seq<AnswerView>| #[trigger]
            are_parser_answers(answers) && settled_dependencies(r) == all_of(
                document_dependencies(answers, *table),
            ),
{
    match read_table(table) {
        Ok(project) => Ok(project.all_dependencies()),
        Err(e) => Err(e),
    }
}

/// All the dependencies that the text of a project-metadata document
/// declares: parses the text, asks the requirement parser about each of
/// its requirement strings, and gives the dependencies by those answers.
pub fn read_dependencies(contents: &str) -> (r: Result<Vec<Dependency>, AnalysisError>)
    ensures
        exists|answers: Seq<AnswerView>| #[trigger]
            are_parser_answers(answers) && settled_dependencies(r) == all_of(
                contents_dependencies(answers, parsed_document(contents@)),
            ),
{
    match read_contents(contents) {
        Ok(project) => Ok(project.all_dependencies()),
        Err(e) => Err(e),
    }
}

} // verus!
