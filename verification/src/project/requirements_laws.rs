//! What holds of the reading of requirements lists, whatever the files and
//! whatever the parser answers: no file is read twice.

use crate::files::{directory_of, file_at, has_file, join_path, normalized, SourceFileView};
use crate::project::requirement::AnswerView;
use crate::project::requirementstxt::{
    asks_parser, classify_line, cycle_error, expand_file, expand_lines,
    lemma_stopped_reading_stays, lemma_unvisited_monotone, lemma_unvisited_strict, statement_of, unvisited, ExpansionView, RequirementLineView,
};
use crate::text::{
    has_prefix, is_space, lemma_leading_spaces, lemma_trimmed_is_the_text_between_spaces,
    lemma_word, lines_of, rfind_char, skip_spaces, skip_word, trimmed,
};
use vstd::prelude::*;

verus! {

/// The path that line `i` of `lines` includes, as the line gives it, seen
/// from the directory `base`.
pub open spec fn included_path(
    answers: Seq<AnswerView>,
    lines: Seq<Seq<char>>,
    base: Seq<char>,
    i: int,
) -> Seq<char> {
    match classify_line(answers, lines[i]) {
        Ok(RequirementLineView::RequirementFile(relative)) => join_path(base, relative),
        _ => Seq::empty(),
    }
}

/// Whether line `i` of `lines` is reached without a stop and includes the
/// file `target`, seen from the directory `base`: the path that it gives
/// has the canonical form `target`.
pub open spec fn includes_at(
    answers: Seq<AnswerView>,
    files: Seq<SourceFileView>,
    lines: Seq<Seq<char>>,
    base: Seq<char>,
    visited: Seq<Seq<char>>,
    i: int,
    target: Seq<char>,
) -> bool {
    &&& 0 <= i < lines.len()
    &&& expand_lines(answers, files, lines.take(i), base, visited).outcome is Done
    &&& classify_line(answers, lines[i]) matches Ok(RequirementLineView::RequirementFile(_))
    &&& normalized(included_path(answers, lines, base, i)) == target
}

/// The files that are read or in reading when line `i` of `lines` is reached.
pub open spec fn visited_at(
    answers: Seq<AnswerView>,
    files: Seq<SourceFileView>,
    lines: Seq<Seq<char>>,
    base: Seq<char>,
    visited: Seq<Seq<char>>,
    i: int,
) -> Seq<Seq<char>> {
    visited + expand_lines(answers, files, lines.take(i), base, visited).entered
}

/// A file that is read already cannot be read again, by whatever path it
/// is named: the reading fails with the error that names the path, and no
/// file is entered. A file that is not read yet is entered.
pub proof fn lemma_revisited_file_fails(
    answers: Seq<AnswerView>,
    files: Seq<SourceFileView>,
    path: Seq<char>,
    visited: Seq<Seq<char>>,
)
    ensures
        visited.contains(normalized(path)) ==> expand_file(answers, files, path, visited) == (
        crate::project::requirementstxt::Expanded {
            entered: Seq::empty(),
            outcome: ExpansionView::Failed(cycle_error(path)),
        }),
        !visited.contains(normalized(path)) ==> expand_file(
            answers,
            files,
            path,
            visited,
        ).entered.len() > 0 && expand_file(answers, files, path, visited).entered[0] == normalized(
            path,
        ),
{
}

/// Where the file that a line includes does not give its dependencies, the
/// whole reading ends as the reading of that file ended.
pub proof fn lemma_stop_in_included_file_stops_all(
    answers: Seq<AnswerView>,
    files: Seq<SourceFileView>,
    lines: Seq<Seq<char>>,
    base: Seq<char>,
    visited: Seq<Seq<char>>,
    i: int,
    target: Seq<char>,
)
    requires
        includes_at(answers, files, lines, base, visited, i, target),
        !(expand_file(
            answers,
            files,
            included_path(answers, lines, base, i),
            visited_at(answers, files, lines, base, visited, i),
        ).outcome is Done),
    ensures
        expand_lines(answers, files, lines, base, visited).outcome == expand_file(
            answers,
            files,
            included_path(answers, lines, base, i),
            visited_at(answers, files, lines, base, visited, i),
        ).outcome,
{
    assert(lines.take(i + 1).drop_last() == lines.take(i));
    assert(lines.take(i + 1).last() == lines[i]);
    lemma_stopped_reading_stays(answers, files, lines, base, visited, i + 1);
}

/// A line that includes a file which is read already, or in reading, fails
/// the whole reading with the error that names the path of the line, by
/// whatever path the line names the file. So does the second of two inclusions of one file,
/// wherever the first one stood: in an earlier line, or in a file that an
/// earlier line included.
pub proof fn lemma_include_of_visited_file_fails(
    answers: Seq<AnswerView>,
    files: Seq<SourceFileView>,
    lines: Seq<Seq<char>>,
    base: Seq<char>,
    visited: Seq<Seq<char>>,
    i: int,
    target: Seq<char>,
)
    requires
        includes_at(answers, files, lines, base, visited, i, target),
        visited_at(answers, files, lines, base, visited, i).contains(target),
    ensures
        expand_lines(answers, files, lines, base, visited).outcome == ExpansionView::Failed(
            cycle_error(included_path(answers, lines, base, i)),
        ),
{
    lemma_stop_in_included_file_stops_all(answers, files, lines, base, visited, i, target);
}

/// A file that includes itself, by whatever path, fails with the error
/// that names that path, if the lines before the inclusion are read without
/// a stop.
pub proof fn lemma_file_including_itself_fails(
    answers: Seq<AnswerView>,
    files: Seq<SourceFileView>,
    path: Seq<char>,
    visited: Seq<Seq<char>>,
    i: int,
)
    requires
        has_file(files, normalized(path)),
        file_at(files, normalized(path)).content is Ok,
        includes_at(
            answers,
            files,
            lines_of(file_at(files, normalized(path)).content->Ok_0),
            directory_of(normalized(path)),
            visited.push(normalized(path)),
            i,
            normalized(path),
        ),
    ensures
        !visited.contains(normalized(path)) ==> expand_file(
            answers,
            files,
            path,
            visited,
        ).outcome == ExpansionView::Failed(
            cycle_error(
                included_path(
                    answers,
                    lines_of(file_at(files, normalized(path)).content->Ok_0),
                    directory_of(normalized(path)),
                    i,
                ),
            ),
        ),
        visited.contains(normalized(path)) ==> expand_file(
            answers,
            files,
            path,
            visited,
        ).outcome == ExpansionView::Failed(cycle_error(path)),
{
    let file = normalized(path);
    if !visited.contains(file) {
        let lines = lines_of(file_at(files, file).content->Ok_0);
        let inside = visited.push(file);
        assert(inside[visited.len() as int] == file);
        assert(visited_at(answers, files, lines, directory_of(file), inside, i)[visited.len() as int]
            == file);
        lemma_include_of_visited_file_fails(
            answers,
            files,
            lines,
            directory_of(file),
            inside,
            i,
            file,
        );
    }
}

/// Two files that include each other fail with the error that names the
/// first, by the path by which the second includes it: the file at `path`
/// includes `second` in its line `i`, and `second` includes the first in
/// its line `j`, the lines before each inclusion being read without a stop.
pub proof fn lemma_files_including_each_other_fail(
    answers: Seq<AnswerView>,
    files: Seq<SourceFileView>,
    path: Seq<char>,
    second: Seq<char>,
    i: int,
    j: int,
)
    requires
        normalized(path) != second,
        has_file(files, normalized(path)),
        has_file(files, second),
        file_at(files, normalized(path)).content is Ok,
        file_at(files, second).content is Ok,
        includes_at(
            answers,
            files,
            lines_of(file_at(files, normalized(path)).content->Ok_0),
            directory_of(normalized(path)),
            seq![normalized(path)],
            i,
            second,
        ),
        !visited_at(
            answers,
            files,
            lines_of(file_at(files, normalized(path)).content->Ok_0),
            directory_of(normalized(path)),
            seq![normalized(path)],
            i,
        ).contains(second),
        includes_at(
            answers,
            files,
            lines_of(file_at(files, second).content->Ok_0),
            directory_of(second),
            visited_at(
                answers,
                files,
                lines_of(file_at(files, normalized(path)).content->Ok_0),
                directory_of(normalized(path)),
                seq![normalized(path)],
                i,
            ).push(second),
            j,
            normalized(path),
        ),
    ensures
        expand_file(answers, files, path, Seq::empty()).outcome == ExpansionView::Failed(
            cycle_error(
                included_path(
                    answers,
                    lines_of(file_at(files, second).content->Ok_0),
                    directory_of(second),
                    j,
                ),
            ),
        ),
{
    let first = normalized(path);
    let outer = lines_of(file_at(files, first).content->Ok_0);
    let inner = lines_of(file_at(files, second).content->Ok_0);
    let start: Seq<Seq<char>> = Seq::empty();
    assert(start.push(first) == seq![first]);
    let reached = visited_at(answers, files, outer, directory_of(first), seq![first], i);
    assert(reached[0] == first);
    let inside = reached.push(second);
    assert(inside[0] == first);
    assert(visited_at(answers, files, inner, directory_of(second), inside, j)[0] == first);
    lemma_include_of_visited_file_fails(
        answers,
        files,
        inner,
        directory_of(second),
        inside,
        j,
        first,
    );
    let raw = included_path(answers, outer, directory_of(first), i);
    assert(expand_file(answers, files, raw, reached).outcome == ExpansionView::Failed(
        cycle_error(included_path(answers, inner, directory_of(second), j)),
    ));
    lemma_stop_in_included_file_stops_all(
        answers,
        files,
        outer,
        directory_of(first),
        seq![first],
        i,
        second,
    );
}

/// Whether no path occurs twice in `entered`, and none of them is in `visited`.
pub open spec fn entered_once(entered: Seq<Seq<char>>, visited: Seq<Seq<char>>) -> bool {
    &&& forall|a: int, b: int| 0 <= a < b < entered.len() ==> entered[a] != entered[b]
    &&& forall|a: int| 0 <= a < entered.len() ==> !visited.contains(#[trigger] entered[a])
}

/// No reading enters a file twice, nor a file that was read before it began.
pub proof fn lemma_file_is_entered_once(
    answers: Seq<AnswerView>,
    files: Seq<SourceFileView>,
    path: Seq<char>,
    visited: Seq<Seq<char>>,
)
    ensures
        entered_once(expand_file(answers, files, path, visited).entered, visited),
    decreases unvisited(files, visited), 0nat, 0nat,
{
    let file = normalized(path);
    if !visited.contains(file) && has_file(files, file) {
        if let Ok(text) = file_at(files, file).content {
            lemma_unvisited_strict(files, visited, file);
            let inside = visited.push(file);
            lemma_lines_enter_once(answers, files, lines_of(text), directory_of(file), inside);
            let inner = expand_lines(answers, files, lines_of(text), directory_of(file), inside);
            let all = seq![file] + inner.entered;
            assert(inside[visited.len() as int] == file);
            assert forall|a: int| 0 <= a < all.len() implies !visited.contains(
                #[trigger] all[a],
            ) by {
                if a > 0 {
                    assert(all[a] == inner.entered[a - 1]);
                    if visited.contains(all[a]) {
                        let k = choose|k: int| 0 <= k < visited.len() && visited[k] == all[a];
                        assert(inside[k] == all[a]);
                    }
                }
            }
            assert forall|a: int, b: int| 0 <= a < b < all.len() implies all[a] != all[b] by {
                assert(all[b] == inner.entered[b - 1]);
                if a > 0 {
                    assert(all[a] == inner.entered[a - 1]);
                } else {
                    assert(!inside.contains(inner.entered[b - 1]));
                }
            }
        }
    }
}

/// The same of the reading of a run of lines.
pub proof fn lemma_lines_enter_once(
    answers: Seq<AnswerView>,
    files: Seq<SourceFileView>,
    lines: Seq<Seq<char>>,
    base: Seq<char>,
    visited: Seq<Seq<char>>,
)
    ensures
        entered_once(expand_lines(answers, files, lines, base, visited).entered, visited),
    decreases unvisited(files, visited), 1nat, lines.len(),
{
    if lines.len() > 0 {
        lemma_lines_enter_once(answers, files, lines.drop_last(), base, visited);
        let before = expand_lines(answers, files, lines.drop_last(), base, visited);
        if before.outcome is Done {
            if let Ok(RequirementLineView::RequirementFile(relative)) = classify_line(
                answers,
                lines.last(),
            ) {
                lemma_unvisited_monotone(files, visited, before.entered);
                let reached = visited + before.entered;
                lemma_file_is_entered_once(answers, files, join_path(base, relative), reached);
                let inner = expand_file(answers, files, join_path(base, relative), reached);
                let all = before.entered + inner.entered;
                assert forall|a: int| 0 <= a < all.len() implies !visited.contains(
                    #[trigger] all[a],
                ) by {
                    if a >= before.entered.len() {
                        assert(all[a] == inner.entered[a - before.entered.len()]);
                        if visited.contains(all[a]) {
                            let k = choose|k: int| 0 <= k < visited.len() && visited[k] == all[a];
                            assert(reached[k] == all[a]);
                        }
                    }
                }
                assert forall|a: int, b: int| 0 <= a < b < all.len() implies all[a] != all[b] by {
                    if b >= before.entered.len() {
                        assert(all[b] == inner.entered[b - before.entered.len()]);
                        if a < before.entered.len() {
                            assert(reached[visited.len() + a] == all[a]);
                        } else {
                            assert(all[a] == inner.entered[a - before.entered.len()]);
                        }
                    }
                }
            }
        }
    }
}

/// A line that begins with `-r` and white space always names a file, and
/// needs no answer of the parser: the path of an inclusion is never empty.
pub proof fn lemma_inclusion_names_a_file(answers: Seq<AnswerView>, line: Seq<char>)
    requires
        has_prefix(statement_of(line), "-r "@),
    ensures
        classify_line(answers, line) matches Ok(RequirementLineView::RequirementFile(path))
            && path.len() > 0,
{
    reveal_strlit("-r ");
    reveal_strlit("-");
    reveal_strlit("#");
    let t = statement_of(line);
    let whole = trimmed(line);
    let k = rfind_char(whole, '#', whole.len() as int);
    let cut = if 0 <= k <= whole.len() {
        whole.subrange(0, k)
    } else {
        whole
    };
    assert(t == trimmed(cut));
    lemma_trimmed_is_the_text_between_spaces(cut);
    assert(t.subrange(0, 3)[0] == '-');
    assert(t.subrange(0, 3)[1] == 'r');
    assert(t.subrange(0, 3)[2] == ' ');
    assert(!is_space(t.last()));
    reveal_with_fuel(skip_word, 3);
    assert(skip_spaces(t, 0) == 0);
    assert(skip_word(t, 0) == 2);
    lemma_leading_spaces(t, 2);
    let c = skip_spaces(t, 2);
    assert(c < t.len()) by {
        if c >= t.len() {
            assert(is_space(t[t.len() - 1]));
        }
    }
    lemma_word(t, c);
    assert(skip_word(t, c) > c) by {
        reveal_with_fuel(skip_word, 2);
    }
    assert(!(t.subrange(0, 1) =~= "#"@)) by {
        assert(t.subrange(0, 1)[0] == '-');
    }
    assert(t.subrange(0, 1) =~= "-"@);
    assert(!asks_parser(line));
}

/// What is entered before a line is reached stays entered, in the same
/// order, when the lines after it are read; and a reading that reaches a
/// later line has reached every line before it.
pub proof fn lemma_entered_files_stay(
    answers: Seq<AnswerView>,
    files: Seq<SourceFileView>,
    lines: Seq<Seq<char>>,
    base: Seq<char>,
    visited: Seq<Seq<char>>,
    i: int,
    j: int,
)
    requires
        0 <= i <= j <= lines.len(),
        expand_lines(answers, files, lines.take(j), base, visited).outcome is Done,
    ensures
        expand_lines(answers, files, lines.take(i), base, visited).outcome is Done,
        expand_lines(answers, files, lines.take(i), base, visited).entered.is_prefix_of(
            expand_lines(answers, files, lines.take(j), base, visited).entered,
        ),
    decreases j - i,
{
    if i < j {
        assert(lines.take(j).drop_last() == lines.take(j - 1));
        lemma_entered_files_stay(answers, files, lines, base, visited, i, j - 1);
        let shorter = expand_lines(answers, files, lines.take(j - 1), base, visited).entered;
        let longer = expand_lines(answers, files, lines.take(j), base, visited).entered;
        assert(shorter.is_prefix_of(longer)) by {
            assert(longer.subrange(0, shorter.len() as int) =~= shorter);
        }
    }
}

/// A file that two lines of one list include, by whatever paths, fails the
/// reading at the second of them, with the error that names the path of
/// that line: the lines `i` and `j` include `target`, and the reading
/// reaches line `j`.
pub proof fn lemma_file_included_twice_fails(
    answers: Seq<AnswerView>,
    files: Seq<SourceFileView>,
    lines: Seq<Seq<char>>,
    base: Seq<char>,
    visited: Seq<Seq<char>>,
    i: int,
    j: int,
    target: Seq<char>,
)
    requires
        0 <= i < j,
        includes_at(answers, files, lines, base, visited, i, target),
        includes_at(answers, files, lines, base, visited, j, target),
    ensures
        expand_lines(answers, files, lines, base, visited).outcome == ExpansionView::Failed(
            cycle_error(included_path(answers, lines, base, j)),
        ),
{
    let upto = expand_lines(answers, files, lines.take(i), base, visited);
    let next = expand_lines(answers, files, lines.take(i + 1), base, visited);
    let reached = expand_lines(answers, files, lines.take(j), base, visited);
    lemma_entered_files_stay(answers, files, lines, base, visited, i + 1, j);
    assert(lines.take(i + 1).drop_last() == lines.take(i));
    assert(lines.take(i + 1).last() == lines[i]);
    let seen = visited + upto.entered;
    if seen.contains(target) {
        assert(!(next.outcome is Done));
    } else {
        let inner = expand_file(answers, files, included_path(answers, lines, base, i), seen);
        assert(inner.entered[0] == target);
        assert(next.entered == upto.entered + inner.entered);
        let at = upto.entered.len() as int;
        assert(next.entered[at] == target);
        assert(reached.entered[at] == target) by {
            assert(reached.entered.subrange(0, next.entered.len() as int) == next.entered);
            assert(reached.entered.subrange(0, next.entered.len() as int)[at]
                == reached.entered[at]);
        }
        assert((visited + reached.entered)[visited.len() + at] == target);
        lemma_include_of_visited_file_fails(answers, files, lines, base, visited, j, target);
    }
}

} // verus!
