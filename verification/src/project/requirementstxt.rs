//! The requirements-list reader: the dependencies of a flat list, line by
//! line, with the files that it includes put in their place.

use crate::error::{AnalysisError, AnalysisErrorView};
use crate::files::{
    directory_of, file_at, file_index, file_views, find_file, has_file, join, join_path,
    lemma_file_index_bounds, normalize, normalized, parent_directory, Outcome, SourceFile,
    SourceFileView,
};
use crate::project::{dependency_views, extend_with_copies};
use crate::text::{concat, lines, lines_of, string_views, views};
use crate::files::{Halt, HaltView};
use crate::project::requirement::{
    add_answers, answer_to, answer_views, answers_all, are_parser_answers, find_answer,
    lemma_earlier_answers_stay, may_answer, parse_requirement, parsed_view, Answer, AnswerView,
};
use crate::project::{Dependency, DependencyView, PyPIRequirement, PyPIRequirementView};
use crate::text::{
    ends_with, from_chars, has_prefix, has_suffix, rfind_char, rfind_char_in, skip_spaces,
    skip_spaces_at, skip_word, skip_word_at, slice, starts_with, to_chars, trim, trimmed,
};
use vstd::prelude::*;

verus! {

/// What one line of a requirements list says.
#[derive(Debug)]
pub enum RequirementLine {
    /// A requirement on a package.
    Dependency(Dependency),
    /// Another requirements file is to be read in place of this line.
    RequirementFile(String),
    /// A package given by its URL.
    Url(String),
    /// A package given by a path.
    Path(String),
    /// Nothing: a blank line, a comment, or an option that is not read.
    Noop,
}

/// A `RequirementLine` over character sequences.
pub ghost enum RequirementLineView {
    Dependency(DependencyView),
    RequirementFile(Seq<char>),
    Url(Seq<char>),
    Path(Seq<char>),
    Noop,
}

impl View for RequirementLine {
    type V = RequirementLineView;

    open spec fn view(&self) -> RequirementLineView {
        match *self {
            RequirementLine::Dependency(d) => RequirementLineView::Dependency(d@),
            RequirementLine::RequirementFile(p) => RequirementLineView::RequirementFile(p@),
            RequirementLine::Url(u) => RequirementLineView::Url(u@),
            RequirementLine::Path(p) => RequirementLineView::Path(p@),
            RequirementLine::Noop => RequirementLineView::Noop,
        }
    }
}

/// The view of the outcome of reading a line.
pub open spec fn line_view(r: Result<RequirementLine, AnalysisError>) -> Result<
    RequirementLineView,
    AnalysisErrorView,
> {
    match r {
        Ok(line) => Ok(line@),
        Err(e) => Err(e@),
    }
}

/// What a line states: the line without white space around it, cut before
/// its last `#` if it has one, and again without white space around it.
pub open spec fn statement_of(line: Seq<char>) -> Seq<char> {
    let t = trimmed(line);
    let k = rfind_char(t, '#', t.len() as int);
    if 0 <= k <= t.len() {
        trimmed(t.subrange(0, k))
    } else {
        trimmed(t)
    }
}

/// The second of the words of `s` that white space separates; empty where
/// there are fewer.
pub open spec fn second_word(s: Seq<char>) -> Seq<char> {
    let a = skip_spaces(s, 0);
    let b = skip_word(s, a);
    let c = skip_spaces(s, b);
    let d = skip_word(s, c);
    if 0 <= c <= d <= s.len() {
        s.subrange(c, d)
    } else {
        Seq::empty()
    }
}

/// Whether a statement begins like a URL.
pub open spec fn looks_like_url(s: Seq<char>) -> bool {
    ||| has_prefix(s, "http:"@)
    ||| has_prefix(s, "https:"@)
    ||| has_prefix(s, "ftp:"@)
    ||| has_prefix(s, "file:"@)
}

/// Whether a statement looks like a path or an archive.
pub open spec fn looks_like_path(s: Seq<char>) -> bool {
    ||| has_prefix(s, "/"@)
    ||| has_prefix(s, "."@)
    ||| has_suffix(s, ".whl"@)
    ||| has_suffix(s, ".tar.gz"@)
    ||| has_suffix(s, ".zip"@)
    ||| has_suffix(s, ".tar.bz2"@)
    ||| has_suffix(s, ".tar"@)
    ||| has_suffix(s, ".egg"@)
    ||| has_suffix(s, ".tar.xz"@)
}

/// What a statement is, once the requirement parser has been asked: the
/// requirement that it found; failing that, a URL or a path by the looks of
/// the statement; failing those, the parser's error.
pub open spec fn requirement_line(
    statement: Seq<char>,
    parsed: Result<PyPIRequirementView, Seq<char>>,
) -> Result<RequirementLineView, AnalysisErrorView> {
    match parsed {
        Ok(requirement) => Ok(RequirementLineView::Dependency(DependencyView::PyPI(requirement))),
        Err(message) => if looks_like_url(statement) {
            Ok(RequirementLineView::Url(statement))
        } else if looks_like_path(statement) {
            Ok(RequirementLineView::Path(statement))
        } else {
            Err(AnalysisErrorView::DependencyParseError(message))
        },
    }
}

/// Whether what a line is depends on the requirement parser: it is neither
/// blank nor a comment nor an option.
pub open spec fn asks_parser(line: Seq<char>) -> bool {
    let statement = statement_of(line);
    &&& statement.len() > 0
    &&& !has_prefix(statement, "#"@)
    &&& !has_prefix(statement, "-"@)
}

/// What a line says that does not depend on the parser. The first that
/// applies: nothing, for a blank line or a comment; an included file, for
/// `-r` and a path; nothing, for any other option.
pub open spec fn plain_line(line: Seq<char>) -> RequirementLineView {
    let statement = statement_of(line);
    if statement.len() == 0 || has_prefix(statement, "#"@) {
        RequirementLineView::Noop
    } else if has_prefix(statement, "-r "@) {
        RequirementLineView::RequirementFile(second_word(statement))
    } else {
        RequirementLineView::Noop
    }
}

/// What a line says, by the answers of the parser: what it says without the
/// parser; else what its statement is by the parser's answer to it; without
/// an answer, the answer is asked for.
pub open spec fn classify_line(answers: Seq<AnswerView>, line: Seq<char>) -> Result<
    RequirementLineView,
    HaltView,
> {
    let statement = statement_of(line);
    if !asks_parser(line) {
        Ok(plain_line(line))
    } else {
        match answer_to(answers, statement) {
            None => Err(HaltView::NeedsRequirement(statement)),
            Some(parsed) => match requirement_line(statement, parsed) {
                Ok(found) => Ok(found),
                Err(e) => Err(HaltView::Failed(e)),
            },
        }
    }
}

/// The view of the outcome of reading a line by the answers of the parser.
pub open spec fn answered_line_view(r: Result<RequirementLine, Halt>) -> Result<
    RequirementLineView,
    HaltView,
> {
    match r {
        Ok(line) => Ok(line@),
        Err(e) => Err(e@),
    }
}

/// What a line states.
pub fn statement(line: &Vec<char>) -> (r: Vec<char>)
    ensures
        r@ == statement_of(line@),
{
    let t = trim(line);
    proof {
        crate::text::lemma_rfind_char_bounds(t@, '#', t.len() as int);
    }
    match rfind_char_in(&t, '#') {
        Some(k) => trim(&slice(&t, 0, k)),
        None => trim(&t),
    }
}

/// The second of the words of `s` that white space separates.
pub fn second_token(s: &Vec<char>) -> (r: Vec<char>)
    ensures
        r@ == second_word(s@),
{
    let a = skip_spaces_at(s, 0);
    let b = skip_word_at(s, a);
    let c = skip_spaces_at(s, b);
    let d = skip_word_at(s, c);
    slice(s, c, d)
}

/// Whether a statement begins like a URL.
pub fn is_url(s: &Vec<char>) -> (r: bool)
    ensures
        r == looks_like_url(s@),
{
    starts_with(s, "http:") || starts_with(s, "https:") || starts_with(s, "ftp:") || starts_with(
        s,
        "file:",
    )
}

/// Whether a statement looks like a path or an archive.
pub fn is_path(s: &Vec<char>) -> (r: bool)
    ensures
        r == looks_like_path(s@),
{
    starts_with(s, "/") || starts_with(s, ".") || ends_with(s, ".whl") || ends_with(s, ".tar.gz")
        || ends_with(s, ".zip") || ends_with(s, ".tar.bz2") || ends_with(s, ".tar") || ends_with(
        s,
        ".egg",
    ) || ends_with(s, ".tar.xz")
}

/// What a statement is, once the requirement parser has been asked.
pub fn classify_requirement(statement: &Vec<char>, parsed: Result<PyPIRequirement, String>) -> (r:
    Result<RequirementLine, AnalysisError>)
    ensures
        line_view(r) == requirement_line(
            statement@,
            match parsed {
                Ok(requirement) => Ok(requirement@),
                Err(message) => Err(message@),
            },
        ),
{
    match parsed {
        Ok(requirement) => Ok(RequirementLine::Dependency(Dependency::PyPI(requirement))),
        Err(message) => {
            if is_url(statement) {
                Ok(RequirementLine::Url(from_chars(statement)))
            } else if is_path(statement) {
                Ok(RequirementLine::Path(from_chars(statement)))
            } else {
                Err(AnalysisError::DependencyParseError(message))
            }
        },
    }
}

/// What a line says that does not depend on the parser, if it is such a line.
pub fn plain(statement: &Vec<char>) -> (r: Option<RequirementLine>)
    ensures
        forall|line: Seq<char>|
            statement_of(line) == statement@ ==> match r {
                Some(found) => !asks_parser(line) && found@ == plain_line(line),
                None => asks_parser(line),
            },
{
    proof {
        reveal_strlit("-r ");
        reveal_strlit("-");
        assert(has_prefix(statement@, "-r "@) ==> has_prefix(statement@, "-"@)) by {
            if has_prefix(statement@, "-r "@) {
                assert(statement@.subrange(0, 3)[0] == '-');
                assert(statement@.subrange(0, 1) =~= "-"@);
            }
        }
    }
    if statement.len() == 0 || starts_with(statement, "#") {
        return Some(RequirementLine::Noop);
    }
    if starts_with(statement, "-r ") {
        return Some(RequirementLine::RequirementFile(from_chars(&second_token(statement))));
    }
    if starts_with(statement, "-") {
        return Some(RequirementLine::Noop);
    }
    None
}

/// Parse a single line from a requirements.txt file. A line that is neither
/// blank nor a comment nor an option is handed to the requirement parser,
/// and is what `classify_requirement` makes of the parser's answer.
pub fn parse_requirement_line(line: &str) -> (r: Result<RequirementLine, AnalysisError>)
    ensures
        !asks_parser(line@) ==> line_view(r) == Ok::<RequirementLineView, AnalysisErrorView>(
            plain_line(line@),
        ),
        asks_parser(line@) ==> exists|parsed: Result<PyPIRequirementView, Seq<char>>|
            may_answer(statement_of(line@), parsed) && line_view(r) == #[trigger] requirement_line(
                statement_of(line@),
                parsed,
            ),
{
    let chars = to_chars(line);
    let statement = statement(&chars);
    match plain(&statement) {
        Some(found) => Ok(found),
        None => {
            let text = from_chars(&statement);
            let parsed = parse_requirement(text.as_str());
            let ghost answer = parsed_view(parsed);
            let r = classify_requirement(&statement, parsed);
            proof {
                assert(line_view(r) == requirement_line(statement_of(line@), answer));
            }
            r
        },
    }
}

/// What a line says, by the answers of the parser, the line given by its
/// characters.
pub fn classify_chars(line: &Vec<char>, answers: &Vec<Answer>) -> (r: Result<RequirementLine, Halt>)
    ensures
        answered_line_view(r) == classify_line(answer_views(answers@), line@),
{
    let statement = statement(line);
    match plain(&statement) {
        Some(found) => Ok(found),
        None => {
            let text = from_chars(&statement);
            match find_answer(answers, text.as_str()) {
                None => Err(Halt::NeedsRequirement(text)),
                Some(answer) => {
                    let parsed = match &answer.outcome {
                        Ok(requirement) => Ok(requirement.duplicate()),
                        Err(message) => Err(message.clone()),
                    };
                    match classify_requirement(&statement, parsed) {
                        Ok(found) => Ok(found),
                        Err(e) => Err(Halt::Failed(e)),
                    }
                },
            }
        },
    }
}

/// How the reading of a requirements list ended.
pub ghost enum ExpansionView {
    /// With the dependencies of the list, those of included files in place.
    Done(Seq<DependencyView>),
    /// For want of the file with this path.
    NeedsFile(Seq<char>),
    /// For want of the parser's answer to this requirement text.
    NeedsRequirement(Seq<char>),
    /// With an error.
    Failed(AnalysisErrorView),
}

/// What a reading did: the files that it entered, in order, and how it ended.
pub ghost struct Expanded {
    pub entered: Seq<Seq<char>>,
    pub outcome: ExpansionView,
}

/// How many of `files` have a path that is not among `visited`.
pub open spec fn unvisited(files: Seq<SourceFileView>, visited: Seq<Seq<char>>) -> nat
    decreases files.len(),
{
    if files.len() == 0 {
        0
    } else {
        unvisited(files.drop_last(), visited) + if visited.contains(files.last().path) {
            0nat
        } else {
            1nat
        }
    }
}

/// Visiting more files leaves no more files unvisited.
pub proof fn lemma_unvisited_monotone(
    files: Seq<SourceFileView>,
    visited: Seq<Seq<char>>,
    more: Seq<Seq<char>>,
)
    ensures
        unvisited(files, visited + more) <= unvisited(files, visited),
    decreases files.len(),
{
    if files.len() > 0 {
        lemma_unvisited_monotone(files.drop_last(), visited, more);
        if visited.contains(files.last().path) {
            let k = choose|k: int| 0 <= k < visited.len() && visited[k] == files.last().path;
            assert((visited + more)[k] == files.last().path);
        }
    }
}

/// Visiting a file that is there and was not visited leaves fewer files unvisited.
pub proof fn lemma_unvisited_strict(
    files: Seq<SourceFileView>,
    visited: Seq<Seq<char>>,
    path: Seq<char>,
)
    requires
        !visited.contains(path),
        has_file(files, path),
    ensures
        unvisited(files, visited.push(path)) < unvisited(files, visited),
    decreases files.len(),
{
    lemma_file_index_bounds(files, path, 0);
    let k = file_index(files, path, 0);
    assert(visited.push(path) == visited + seq![path]);
    if k == files.len() - 1 {
        lemma_unvisited_monotone(files.drop_last(), visited, seq![path]);
        assert(visited.push(path)[visited.len() as int] == path);
    } else {
        lemma_file_index_bounds(files.drop_last(), path, 0);
        assert(forall|j: int| 0 <= j < k ==> files.drop_last()[j].path == files[j].path);
        assert(file_index(files.drop_last(), path, 0) == k) by {
            let k2 = file_index(files.drop_last(), path, 0);
            if k2 < k {
                assert(files.drop_last()[k2].path == path);
                assert(files[k2].path != path);
            } else if k2 > k {
                assert(files.drop_last()[k].path != path);
            }
        }
        lemma_unvisited_strict(files.drop_last(), visited, path);
        if visited.contains(files.last().path) {
            let j = choose|j: int| 0 <= j < visited.len() && visited[j] == files.last().path;
            assert(visited.push(path)[j] == files.last().path);
        }
    }
}

/// The error for a file that is asked for by `path` while it is already
/// read or in reading.
pub open spec fn cycle_error(path: Seq<char>) -> AnalysisErrorView {
    AnalysisErrorView::DependencyParseError(
        "Circular dependency detected in requirements file: "@ + path,
    )
}

/// What reading the file `path` does, the files in `visited` being read or
/// in reading. The file is taken by the canonical form of its path: an
/// error that names `path` where that form is among `visited`; else the
/// file is entered, and its lines are read as seen from its directory.
pub open spec fn expand_file(
    answers: Seq<AnswerView>,
    files: Seq<SourceFileView>,
    path: Seq<char>,
    visited: Seq<Seq<char>>,
) -> Expanded
    decreases unvisited(files, visited), 0nat, 0nat,
{
    let file = normalized(path);
    if visited.contains(file) {
        Expanded { entered: Seq::empty(), outcome: ExpansionView::Failed(cycle_error(path)) }
    } else if !has_file(files, file) {
        Expanded { entered: seq![file], outcome: ExpansionView::NeedsFile(file) }
    } else {
        match file_at(files, file).content {
            Err(cause) => Expanded {
                entered: seq![file],
                outcome: ExpansionView::Failed(AnalysisErrorView::FileReadError(file, cause)),
            },
            Ok(text) => {
                proof {
                    lemma_unvisited_strict(files, visited, file);
                }
                let inner = expand_lines(
                    answers,
                    files,
                    lines_of(text),
                    directory_of(file),
                    visited.push(file),
                );
                Expanded { entered: seq![file] + inner.entered, outcome: inner.outcome }
            },
        }
    }
}

/// What reading `lines` does, seen from the directory `base`: each line
/// adds what it says to the dependencies, an included file all of its own in
/// the place of its line; the first line that fails ends the reading.
pub open spec fn expand_lines(
    answers: Seq<AnswerView>,
    files: Seq<SourceFileView>,
    lines: Seq<Seq<char>>,
    base: Seq<char>,
    visited: Seq<Seq<char>>,
) -> Expanded
    decreases unvisited(files, visited), 1nat, lines.len(),
{
    if lines.len() == 0 {
        Expanded { entered: Seq::empty(), outcome: ExpansionView::Done(Seq::empty()) }
    } else {
        let before = expand_lines(answers, files, lines.drop_last(), base, visited);
        match before.outcome {
            ExpansionView::Done(deps) => match classify_line(answers, lines.last()) {
                Err(HaltView::NeedsRequirement(text)) => Expanded {
                    entered: before.entered,
                    outcome: ExpansionView::NeedsRequirement(text),
                },
                Err(HaltView::Failed(e)) => Expanded {
                    entered: before.entered,
                    outcome: ExpansionView::Failed(e),
                },
                Ok(RequirementLineView::Noop) => before,
                Ok(RequirementLineView::Dependency(dep)) => Expanded {
                    entered: before.entered,
                    outcome: ExpansionView::Done(deps.push(dep)),
                },
                Ok(RequirementLineView::Url(url)) => Expanded {
                    entered: before.entered,
                    outcome: ExpansionView::Done(deps.push(DependencyView::PackageUrl(url))),
                },
                Ok(RequirementLineView::Path(path)) => Expanded {
                    entered: before.entered,
                    outcome: ExpansionView::Done(deps.push(DependencyView::PackagePath(path))),
                },
                Ok(RequirementLineView::RequirementFile(relative)) => {
                    proof {
                        lemma_unvisited_monotone(files, visited, before.entered);
                    }
                    let inner = expand_file(
                        answers,
                        files,
                        join_path(base, relative),
                        visited + before.entered,
                    );
                    Expanded {
                        entered: before.entered + inner.entered,
                        outcome: match inner.outcome {
                            ExpansionView::Done(more) => ExpansionView::Done(deps + more),
                            other => other,
                        },
                    }
                },
            },
            _ => before,
        }
    }
}

/// A reading that has stopped stays as it is, whatever lines follow.
pub proof fn lemma_stopped_reading_stays(
    answers: Seq<AnswerView>,
    files: Seq<SourceFileView>,
    lines: Seq<Seq<char>>,
    base: Seq<char>,
    visited: Seq<Seq<char>>,
    i: int,
)
    requires
        0 <= i <= lines.len(),
        !(expand_lines(answers, files, lines.take(i), base, visited).outcome is Done),
    ensures
        expand_lines(answers, files, lines, base, visited) == expand_lines(
            answers,
            files,
            lines.take(i),
            base,
            visited,
        ),
    decreases lines.len() - i,
{
    if i < lines.len() {
        assert(lines.take(i + 1).drop_last() == lines.take(i));
        lemma_stopped_reading_stays(answers, files, lines, base, visited, i + 1);
    } else {
        assert(lines.take(i) == lines);
    }
}

/// The view of the outcome of a reading.
pub open spec fn expansion_view(o: Outcome<Vec<Dependency>>) -> ExpansionView {
    match o {
        Outcome::Done(deps) => ExpansionView::Done(dependency_views(deps@)),
        Outcome::NeedsFile(path) => ExpansionView::NeedsFile(path@),
        Outcome::NeedsRequirement(text) => ExpansionView::NeedsRequirement(text@),
        Outcome::Failed(e) => ExpansionView::Failed(e@),
    }
}

/// The error for a file that is included while it is already read.
fn circular(path: &str) -> (e: AnalysisError)
    ensures
        e@ == cycle_error(path@),
{
    let text = concat(
        &to_chars("Circular dependency detected in requirements file: "),
        &to_chars(path),
    );
    AnalysisError::DependencyParseError(from_chars(&text))
}

/// Whether `path` is among `visited`.
fn is_visited(visited: &Vec<String>, path: &str) -> (r: bool)
    ensures
        r == string_views(visited@).contains(path@),
{
    let mut i: usize = 0;
    while i < visited.len()
        invariant
            i <= visited.len(),
            forall|k: int| 0 <= k < i ==> string_views(visited@)[k] != path@,
        decreases visited.len() - i,
    {
        if crate::text::same_text(visited[i].as_str(), path) {
            assert(string_views(visited@)[i as int] == path@);
            return true;
        }
        i += 1;
    }
    false
}

/// Reads the requirements file `file_path` from `files`, the files in
/// `visited` being read already, and adds the files that it enters to
/// `visited`. Files are told apart by the canonical form of their paths.
pub fn parse_dependencies_file_with_visited(
    answers: &Vec<Answer>,
    files: &Vec<SourceFile>,
    file_path: &str,
    visited: &mut Vec<String>,
) -> (r: Outcome<Vec<Dependency>>)
    ensures
        expansion_view(r) == expand_file(
            answer_views(answers@),
            file_views(files@),
            file_path@,
            string_views(old(visited)@),
        ).outcome,
        string_views(final(visited)@) == string_views(old(visited)@) + expand_file(
            answer_views(answers@),
            file_views(files@),
            file_path@,
            string_views(old(visited)@),
        ).entered,
    decreases unvisited(file_views(files@), string_views(old(visited)@)), 0nat, 0nat,
{
    let ghost before = string_views(visited@);
    let file = from_chars(&normalize(&to_chars(file_path)));
    if is_visited(visited, file.as_str()) {
        proof {
            assert(before + Seq::<Seq<char>>::empty() == before);
        }
        return Outcome::Failed(circular(file_path));
    }
    proof {
        assert(string_views(visited@.push(file)) == before.push(file@));
        assert(before.push(file@) == before + seq![file@]);
    }
    visited.push(file.clone());
    match find_file(files, file.as_str()) {
        None => Outcome::NeedsFile(file),
        Some(found) => match &found.content {
            Err(cause) => Outcome::Failed(AnalysisError::FileReadError(file, cause.clone())),
            Ok(text) => {
                let base = parent_directory(&to_chars(file.as_str()));
                proof {
                    lemma_unvisited_strict(file_views(files@), before, file@);
                    let inner = expand_lines(
                        answer_views(answers@),
                        file_views(files@),
                        lines_of(text@),
                        directory_of(file@),
                        before.push(file@),
                    );
                    assert(before + (seq![file@] + inner.entered) == before.push(file@)
                        + inner.entered);
                }
                parse_lines_with_visited(
                    answers,
                    files,
                    &lines(&to_chars(text.as_str())),
                    &base,
                    visited,
                )
            },
        },
    }
}

/// Reads the lines of a requirements list, seen from the directory `base_dir`.
pub fn parse_lines_with_visited(
    answers: &Vec<Answer>,
    files: &Vec<SourceFile>,
    lines: &Vec<Vec<char>>,
    base_dir: &Vec<char>,
    visited: &mut Vec<String>,
) -> (r: Outcome<Vec<Dependency>>)
    ensures
        expansion_view(r) == expand_lines(
            answer_views(answers@),
            file_views(files@),
            views(lines@),
            base_dir@,
            string_views(old(visited)@),
        ).outcome,
        string_views(final(visited)@) == string_views(old(visited)@) + expand_lines(
            answer_views(answers@),
            file_views(files@),
            views(lines@),
            base_dir@,
            string_views(old(visited)@),
        ).entered,
    decreases unvisited(file_views(files@), string_views(old(visited)@)), 1nat, lines.len(),
{
    let ghost before = string_views(visited@);
    let ghost all = views(lines@);
    let ghost table = file_views(files@);
    let ghost known = answer_views(answers@);
    let ghost entered: Seq<Seq<char>> = Seq::empty();
    let mut dependencies: Vec<Dependency> = Vec::new();
    let mut i: usize = 0;
    proof {
        assert(dependency_views(dependencies@) =~= Seq::empty());
        assert(before + entered == before);
        assert(all.take(0) =~= Seq::empty());
    }
    while i < lines.len()
        invariant
            i <= lines.len(),
            all == views(lines@),
            table == file_views(files@),
            known == answer_views(answers@),
            before == string_views(old(visited)@),
            string_views(visited@) == before + entered,
            expand_lines(known, table, all.take(i as int), base_dir@, before) == (Expanded {
                entered,
                outcome: ExpansionView::Done(dependency_views(dependencies@)),
            }),
        decreases lines.len() - i,
    {
        proof {
            assert(all.take(i + 1).drop_last() == all.take(i as int));
            assert(all.take(i + 1).last() == lines@[i as int]@);
        }
        let ghost sofar = dependency_views(dependencies@);
        match classify_chars(&lines[i], answers) {
            Err(Halt::NeedsRequirement(text)) => {
                proof {
                    lemma_stopped_reading_stays(known, table, all, base_dir@, before, i + 1);
                }
                return Outcome::NeedsRequirement(text);
            },
            Err(Halt::Failed(e)) => {
                proof {
                    lemma_stopped_reading_stays(known, table, all, base_dir@, before, i + 1);
                }
                return Outcome::Failed(e);
            },
            Ok(RequirementLine::Noop) => {},
            Ok(RequirementLine::Dependency(dep)) => {
                proof {
                    assert(dependency_views(dependencies@.push(dep)) == sofar.push(dep@));
                }
                dependencies.push(dep);
            },
            Ok(RequirementLine::Url(url)) => {
                let dep = Dependency::PackageUrl(url);
                proof {
                    assert(dependency_views(dependencies@.push(dep)) == sofar.push(dep@));
                }
                dependencies.push(dep);
            },
            Ok(RequirementLine::Path(path)) => {
                let dep = Dependency::PackagePath(path);
                proof {
                    assert(dependency_views(dependencies@.push(dep)) == sofar.push(dep@));
                }
                dependencies.push(dep);
            },
            Ok(RequirementLine::RequirementFile(relative)) => {
                let target = from_chars(&join(base_dir, &to_chars(relative.as_str())));
                proof {
                    lemma_unvisited_monotone(table, before, entered);
                }
                let ghost inner = expand_file(known, table, target@, before + entered);
                proof {
                    assert(before + (entered + inner.entered) == before + entered + inner.entered);
                }
                match parse_dependencies_file_with_visited(
                    answers,
                    files,
                    target.as_str(),
                    visited,
                ) {
                    Outcome::Done(more) => {
                        extend_with_copies(&mut dependencies, &more);
                        proof {
                            entered = entered + inner.entered;
                        }
                    },
                    Outcome::NeedsFile(path) => {
                        proof {
                            lemma_stopped_reading_stays(known, table, all, base_dir@, before, i + 1);
                        }
                        return Outcome::NeedsFile(path);
                    },
                    Outcome::NeedsRequirement(text) => {
                        proof {
                            lemma_stopped_reading_stays(known, table, all, base_dir@, before, i + 1);
                        }
                        return Outcome::NeedsRequirement(text);
                    },
                    Outcome::Failed(e) => {
                        proof {
                            lemma_stopped_reading_stays(known, table, all, base_dir@, before, i + 1);
                        }
                        return Outcome::Failed(e);
                    },
                }
            },
        }
        i += 1;
    }
    proof {
        assert(all.take(lines.len() as int) == all);
    }
    Outcome::Done(dependencies)
}

/// What reading the text of a requirements list gives, seen from the
/// directory `base`.
pub open spec fn expand_content(
    answers: Seq<AnswerView>,
    files: Seq<SourceFileView>,
    content: Seq<char>,
    base: Seq<char>,
    visited: Seq<Seq<char>>,
) -> Expanded {
    expand_lines(answers, files, lines_of(content), base, visited)
}

/// Reads the text of a requirements list, seen from the directory
/// `base_dir`, the files in `visited` being read already.
pub fn parse_dependencies_with_visited(
    answers: &Vec<Answer>,
    files: &Vec<SourceFile>,
    content: &str,
    base_dir: &str,
    visited: &mut Vec<String>,
) -> (r: Outcome<Vec<Dependency>>)
    ensures
        expansion_view(r) == expand_content(
            answer_views(answers@),
            file_views(files@),
            content@,
            base_dir@,
            string_views(old(visited)@),
        ).outcome,
        string_views(final(visited)@) == string_views(old(visited)@) + expand_content(
            answer_views(answers@),
            file_views(files@),
            content@,
            base_dir@,
            string_views(old(visited)@),
        ).entered,
{
    parse_lines_with_visited(
        answers,
        files,
        &lines(&to_chars(content)),
        &to_chars(base_dir),
        visited,
    )
}

/// Reads the requirements file `file_path` from `files`: its dependencies
/// and those of the files that it includes, in the order of the lines.
pub fn parse_dependencies_file(answers: &Vec<Answer>, files: &Vec<SourceFile>, file_path: &str) -> (r:
    Outcome<Vec<Dependency>>)
    ensures
        expansion_view(r) == expand_file(
            answer_views(answers@),
            file_views(files@),
            file_path@,
            Seq::empty(),
        ).outcome,
{
    let mut visited: Vec<String> = Vec::new();
    proof {
        assert(string_views(visited@) =~= Seq::empty());
    }
    parse_dependencies_file_with_visited(answers, files, file_path, &mut visited)
}

/// Reads the text of a requirements list that stands in the directory `.`.
pub fn parse_dependencies(answers: &Vec<Answer>, files: &Vec<SourceFile>, content: &str) -> (r:
    Outcome<Vec<Dependency>>)
    ensures
        expansion_view(r) == expand_content(
            answer_views(answers@),
            file_views(files@),
            content@,
            "."@,
            Seq::empty(),
        ).outcome,
{
    let mut visited: Vec<String> = Vec::new();
    proof {
        assert(string_views(visited@) =~= Seq::empty());
    }
    parse_dependencies_with_visited(answers, files, content, ".", &mut visited)
}

/// Reads the requirements file `file_path` from `files`.
pub fn parse(answers: &Vec<Answer>, files: &Vec<SourceFile>, file_path: &str) -> (r: Outcome<
    Vec<Dependency>,
>)
    ensures
        expansion_view(r) == expand_file(
            answer_views(answers@),
            file_views(files@),
            file_path@,
            Seq::empty(),
        ).outcome,
{
    parse_dependencies_file(answers, files, file_path)
}

/// The statements among `lines` that the parser is asked about, in order.
pub open spec fn line_texts(lines: Seq<Seq<char>>) -> Seq<Seq<char>>
    decreases lines.len(),
{
    if lines.len() == 0 {
        Seq::empty()
    } else if asks_parser(lines.last()) {
        line_texts(lines.drop_last()).push(statement_of(lines.last()))
    } else {
        line_texts(lines.drop_last())
    }
}

/// Whether every statement of every file that can be read has an answer.
pub open spec fn answers_files(answers: Seq<AnswerView>, files: Seq<SourceFileView>) -> bool {
    forall|k: int|
        0 <= k < files.len() && (#[trigger] files[k]).content is Ok ==> answers_all(
            answers,
            line_texts(lines_of(files[k].content->Ok_0)),
        )
}

/// With an answer to each of their statements, lines are read without
/// asking, whatever files they include.
pub proof fn lemma_answered_lines(
    answers: Seq<AnswerView>,
    files: Seq<SourceFileView>,
    lines: Seq<Seq<char>>,
    base: Seq<char>,
    visited: Seq<Seq<char>>,
)
    requires
        answers_all(answers, line_texts(lines)),
        answers_files(answers, files),
    ensures
        !(expand_lines(answers, files, lines, base, visited).outcome is NeedsRequirement),
    decreases unvisited(files, visited), 1nat, lines.len(),
{
    if lines.len() > 0 {
        let before = line_texts(lines.drop_last());
        assert forall|i: int| 0 <= i < before.len() implies #[trigger] answer_to(
            answers,
            before[i],
        ) is Some by {
            assert(line_texts(lines)[i] == before[i]);
        }
        lemma_answered_lines(answers, files, lines.drop_last(), base, visited);
        let sofar = expand_lines(answers, files, lines.drop_last(), base, visited);
        if sofar.outcome is Done {
            if asks_parser(lines.last()) {
                assert(line_texts(lines)[before.len() as int] == statement_of(lines.last()));
            } else if let Ok(RequirementLineView::RequirementFile(relative)) = classify_line(
                answers,
                lines.last(),
            ) {
                lemma_unvisited_monotone(files, visited, sofar.entered);
                lemma_answered_file(
                    answers,
                    files,
                    join_path(base, relative),
                    visited + sofar.entered,
                );
            }
        }
    }
}

/// With an answer to each statement of each file, a file is read without
/// asking.
pub proof fn lemma_answered_file(
    answers: Seq<AnswerView>,
    files: Seq<SourceFileView>,
    path: Seq<char>,
    visited: Seq<Seq<char>>,
)
    requires
        answers_files(answers, files),
    ensures
        !(expand_file(answers, files, path, visited).outcome is NeedsRequirement),
    decreases unvisited(files, visited), 0nat, 0nat,
{
    let file = normalized(path);
    if !visited.contains(file) && has_file(files, file) {
        lemma_file_index_bounds(files, file, 0);
        let k = file_index(files, file, 0);
        if let Ok(text) = files[k].content {
            lemma_unvisited_strict(files, visited, file);
            lemma_answered_lines(
                answers,
                files,
                lines_of(text),
                directory_of(file),
                visited.push(file),
            );
        }
    }
}

/// Appends the statements among `lines` that the parser is asked about to `out`.
fn add_line_texts(lines: &Vec<Vec<char>>, out: &mut Vec<String>)
    ensures
        string_views(final(out)@) == string_views(old(out)@) + line_texts(views(lines@)),
{
    let ghost before = string_views(out@);
    let ghost all = views(lines@);
    let mut i: usize = 0;
    proof {
        assert(all.take(0) =~= Seq::empty());
        assert(before + line_texts(all.take(0)) == before);
    }
    while i < lines.len()
        invariant
            i <= lines.len(),
            all == views(lines@),
            string_views(out@) == before + line_texts(all.take(i as int)),
        decreases lines.len() - i,
    {
        proof {
            assert(all.take(i + 1).drop_last() == all.take(i as int));
            assert(all.take(i + 1).last() == lines@[i as int]@);
        }
        let text = statement(&lines[i]);
        match plain(&text) {
            Some(_) => {},
            None => {
                let own = from_chars(&text);
                proof {
                    assert(string_views(out@.push(own)) == string_views(out@).push(own@));
                    assert(before + line_texts(all.take(i as int)).push(own@) == (before
                        + line_texts(all.take(i as int))).push(own@));
                }
                out.push(own);
            },
        }
        i += 1;
    }
    proof {
        assert(all.take(lines.len() as int) == all);
    }
}

/// The statements of the text of a requirements list that the parser is
/// asked about.
pub fn statements(content: &str) -> (r: Vec<String>)
    ensures
        string_views(r@) == line_texts(lines_of(content@)),
{
    let mut out: Vec<String> = Vec::new();
    proof {
        assert(string_views(out@) =~= Seq::empty());
        assert(string_views(out@) + line_texts(lines_of(content@)) == line_texts(
            lines_of(content@),
        ));
    }
    add_line_texts(&lines(&to_chars(content)), &mut out);
    out
}

/// Asks the parser about every statement of every file that can be read,
/// and adds the answers to `answers`.
pub fn answer_files(answers: &mut Vec<Answer>, files: &Vec<SourceFile>)
    requires
        are_parser_answers(answer_views(old(answers)@)),
    ensures
        are_parser_answers(answer_views(final(answers)@)),
        answers_files(answer_views(final(answers)@), file_views(files@)),
        exists|more: Seq<AnswerView>|
            #![trigger answer_views(old(answers)@) + more]
            answer_views(final(answers)@) == answer_views(old(answers)@) + more,
{
    let ghost start = answer_views(answers@);
    let ghost table = file_views(files@);
    let ghost added: Seq<AnswerView> = Seq::empty();
    let mut i: usize = 0;
    proof {
        assert(start + added == start);
    }
    while i < files.len()
        invariant
            i <= files.len(),
            table == file_views(files@),
            start == answer_views(old(answers)@),
            answer_views(answers@) == start + added,
            are_parser_answers(answer_views(answers@)),
            forall|k: int|
                0 <= k < i && (#[trigger] table[k]).content is Ok ==> answers_all(
                    answer_views(answers@),
                    line_texts(lines_of(table[k].content->Ok_0)),
                ),
        decreases files.len() - i,
    {
        let ghost known = answer_views(answers@);
        assert(table[i as int] == files@[i as int]@);
        match &files[i].content {
            Ok(text) => {
                let texts = statements(text.as_str());
                add_answers(answers, &texts);
                proof {
                    let more = choose|more: Seq<AnswerView>|
                        #![trigger known + more]
                        answer_views(answers@) == known + more;
                    assert(start + (added + more) == start + added + more);
                    added = added + more;
                    assert forall|k: int|
                        0 <= k < i && (#[trigger] table[k]).content is Ok implies answers_all(
                        answer_views(answers@),
                        line_texts(lines_of(table[k].content->Ok_0)),
                    ) by {
                        lemma_earlier_answers_stay(
                            known,
                            more,
                            line_texts(lines_of(table[k].content->Ok_0)),
                        );
                    }
                }
            },
            Err(_) => {},
        }
        i += 1;
    }
    proof {
        assert(answer_views(answers@) == start + added);
    }
}

/// Reads the requirements file `file_path` from `files`: asks the
/// requirement parser about every statement of every file, and gives the
/// dependencies of the file by those answers. No answer is asked for.
pub fn read_dependencies_file(files: &Vec<SourceFile>, file_path: &str) -> (r: Outcome<
    Vec<Dependency>,
>)
    ensures
        !(r is NeedsRequirement),
        exists|answers: Seq<AnswerView>| #[trigger]
            are_parser_answers(answers) && expansion_view(r) == expand_file(
                answers,
                file_views(files@),
                file_path@,
                Seq::empty(),
            ).outcome,
{
    let mut answers: Vec<Answer> = Vec::new();
    proof {
        assert(are_parser_answers(answer_views(answers@)));
    }
    answer_files(&mut answers, files);
    proof {
        lemma_answered_file(
            answer_views(answers@),
            file_views(files@),
            file_path@,
            Seq::empty(),
        );
    }
    parse_dependencies_file(&answers, files, file_path)
}

/// Reads the text of a requirements list that stands in the directory `.`:
/// asks the requirement parser about every statement of the text and of
/// every file, and gives the dependencies of the list by those answers. No
/// answer is asked for.
pub fn read_dependencies(files: &Vec<SourceFile>, content: &str) -> (r: Outcome<Vec<Dependency>>)
    ensures
        !(r is NeedsRequirement),
        exists|answers: Seq<AnswerView>| #[trigger]
            are_parser_answers(answers) && expansion_view(r) == expand_content(
                answers,
                file_views(files@),
                content@,
                "."@,
                Seq::empty(),
            ).outcome,
{
    let mut answers: Vec<Answer> = Vec::new();
    proof {
        assert(are_parser_answers(answer_views(answers@)));
    }
    let texts = statements(content);
    add_answers(&mut answers, &texts);
    let ghost own = answer_views(answers@);
    answer_files(&mut answers, files);
    proof {
        let more = choose|more: Seq<AnswerView>|
            #![trigger own + more]
            answer_views(answers@) == own + more;
        lemma_earlier_answers_stay(own, more, line_texts(lines_of(content@)));
        lemma_answered_lines(
            answer_views(answers@),
            file_views(files@),
            lines_of(content@),
            "."@,
            Seq::empty(),
        );
    }
    parse_dependencies(&answers, files, content)
}

} // verus!
