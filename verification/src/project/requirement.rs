//! Requirement strings: the text of one PyPI requirement, read by `pep508_rs`.
//!
//! What that parser makes of a text depends on more than the text: it
//! replaces `${NAME}` by what the environment holds, and it prints a marker
//! in the form in which the process first met it. So the answers of the
//! parser are data: `parse_requirement` asks the parser, and what reads
//! manifests takes the answers in a table and says which text it still
//! needs an answer for.

use crate::project::{PyPIRequirement, PyPIRequirementView};
use crate::text::{from_chars, same_text, string_views, to_chars};
use pep508_rs::VersionOrUrl;
use std::str::FromStr;
use vstd::prelude::*;

verus! {

/// Whether `c` is a digit.
pub open spec fn is_digit(c: char) -> bool {
    '0' <= c <= '9'
}

/// Whether `c` can stand in a package or extra name.
pub open spec fn is_name_char(c: char) -> bool {
    ||| 'A' <= c <= 'Z'
    ||| 'a' <= c <= 'z'
    ||| is_digit(c)
    ||| is_name_punctuation(c)
}

/// Whether `c` is one of the marks that a name may hold inside, but not end in.
pub open spec fn is_name_punctuation(c: char) -> bool {
    c == '.' || c == '-' || c == '_'
}

/// Whether `c` ends the part of a requirement that holds the name and the
/// extras: it opens a URL, a version specifier or a marker.
pub open spec fn ends_head(c: char) -> bool {
    c == '@' || c == '(' || c == '<' || c == '=' || c == '>' || c == '~' || c == '!' || c == ';'
}

/// The length of the head of `s`: the first index at or after `i` that ends
/// the head, or the length of `s`.
pub open spec fn head_end(s: Seq<char>, i: int) -> int
    decreases s.len() - i,
{
    if 0 <= i < s.len() && !ends_head(s[i]) {
        head_end(s, i + 1)
    } else {
        i
    }
}

/// Whether every mark in `s[from..to]` is followed by a character of a name.
pub open spec fn marks_are_inside(s: Seq<char>, from: int, to: int) -> bool {
    forall|i: int|
        from <= i < to && is_name_punctuation(#[trigger] s[i]) ==> i + 1 < s.len() && is_name_char(
            s[i + 1],
        )
}

/// How many digits stand in a row just before index `i`.
pub open spec fn digits_before(s: Seq<char>, i: int) -> int
    decreases i,
{
    if 0 < i <= s.len() && is_digit(s[i - 1]) {
        digits_before(s, i - 1) + 1
    } else {
        0
    }
}

/// The most digits in a row that a text may hold to be handed to the
/// parser: a number of so many digits is below the largest that 64 bits
/// hold, to which the parser cannot add one.
pub const MAX_DIGITS: usize = 19;

/// Whether no more than `MAX_DIGITS` digits stand in a row in `s`.
pub open spec fn numbers_are_short(s: Seq<char>) -> bool {
    forall|i: int| 0 <= i <= s.len() ==> #[trigger] digits_before(s, i) <= MAX_DIGITS
}

/// Whether `p` stands in `s` at index `i`.
pub open spec fn stands_at(s: Seq<char>, p: Seq<char>, i: int) -> bool {
    0 <= i && i + p.len() <= s.len() && s.subrange(i, i + p.len()) == p
}

/// Whether `p` stands somewhere in `s`.
pub open spec fn holds_text(s: Seq<char>, p: Seq<char>) -> bool {
    exists|i: int| stands_at(s, p, i)
}

/// The texts that are handed to the requirement parser. Left out are those
/// on which it can abort: it aborts where a name or an extra ends in `.`,
/// `-` or `_` with more text behind it, so texts with such a mark in the
/// head are left out; where it adds one to the largest number that 64 bits
/// hold, so texts with more than `MAX_DIGITS` digits in a row are left out;
/// and, where there is no working directory, on `${PROJECT_ROOT}`.
pub open spec fn is_callable_text(s: Seq<char>) -> bool {
    &&& marks_are_inside(s, 0, head_end(s, 0))
    &&& numbers_are_short(s)
    &&& !holds_text(s, "${PROJECT_ROOT}"@)
}

/// The head ends at or after `i`, and within the text.
pub proof fn lemma_head_end_bounds(s: Seq<char>, i: int)
    requires
        0 <= i <= s.len(),
    ensures
        i <= head_end(s, i) <= s.len(),
    decreases s.len() - i,
{
    if i < s.len() && !ends_head(s[i]) {
        lemma_head_end_bounds(s, i + 1);
    }
}

/// Whether `name` is a normalised package name: not empty, and made of
/// lower-case letters, digits and `-`.
pub open spec fn is_normal_name(name: Seq<char>) -> bool {
    &&& name.len() > 0
    &&& forall|i: int|
        0 <= i < name.len() ==> 'a' <= #[trigger] name[i] <= 'z' || is_digit(name[i]) || name[i]
            == '-'
}

/// The view of an answer of the parser.
pub open spec fn parsed_view(r: Result<PyPIRequirement, String>) -> Result<
    PyPIRequirementView,
    Seq<char>,
> {
    match r {
        Ok(requirement) => Ok(requirement@),
        Err(message) => Err(message@),
    }
}

/// Parses `text` with `pep508_rs`'s `Requirement::from_str`, and hands over
/// the name, the extras, the version specifiers or the URL, and the markers
/// as that crate prints them; of an error, its message. The texts on which
/// that parser aborts are left out. What it returns depends on the
/// environment and on what the process has parsed before, so the contract
/// claims only what holds of every requirement that it returns: the name is
/// normalised.
#[verifier::external_body]
fn parse_pep508(text: &str) -> (r: Result<PyPIRequirement, String>)
    requires
        is_callable_text(text@),
    ensures
        r matches Ok(requirement) ==> is_normal_name(requirement.name@),
{
    pep508_rs::Requirement::<pep508_rs::VerbatimUrl>::from_str(text)
        .map(|req| PyPIRequirement {
            name: req.name.to_string(),
            extras: req.extras.iter().map(|extra| extra.to_string()).collect(),
            version_specifier: match &req.version_or_url {
                Some(VersionOrUrl::VersionSpecifier(v)) => Some(v.to_string()),
                _ => None,
            },
            url: match &req.version_or_url {
                Some(VersionOrUrl::Url(url)) => Some(url.to_string()),
                _ => None,
            },
            markers: req.marker.try_to_string(),
        })
        .map_err(|error| error.message.to_string())
}

/// The message for a text that cannot be handed to the parser.
pub open spec fn unparsable_text_message() -> Seq<char> {
    "Not a requirement that can be read: a name ends in '.', '-' or '_', a number is too long, or the text holds '${PROJECT_ROOT}'"@
}

/// What holds of every answer to `text`: for a text that cannot be handed
/// to the parser it is the error with a message of its own; a requirement
/// has a normalised name.
pub open spec fn may_answer(text: Seq<char>, outcome: Result<PyPIRequirementView, Seq<char>>) -> bool {
    &&& !is_callable_text(text) ==> outcome == Err::<PyPIRequirementView, Seq<char>>(
        unparsable_text_message(),
    )
    &&& outcome matches Ok(requirement) ==> is_normal_name(requirement.name)
}

/// Whether `c` can stand in a package or extra name.
fn name_char(c: char) -> (r: bool)
    ensures
        r == is_name_char(c),
{
    ('A' <= c && c <= 'Z') || ('a' <= c && c <= 'z') || ('0' <= c && c <= '9') || c == '.' || c
        == '-' || c == '_'
}

/// Whether every name in the head of `text` ends in a letter or digit.
fn names_end_well(text: &Vec<char>) -> (r: bool)
    ensures
        r == marks_are_inside(text@, 0, head_end(text@, 0)),
{
    let mut j: usize = 0;
    while j < text.len() && !(text[j] == '@' || text[j] == '(' || text[j] == '<' || text[j] == '='
        || text[j] == '>' || text[j] == '~' || text[j] == '!' || text[j] == ';')
        invariant
            j <= text.len(),
            head_end(text@, j as int) == head_end(text@, 0),
            marks_are_inside(text@, 0, j as int),
        decreases text.len() - j,
    {
        let c = text[j];
        if c == '.' || c == '-' || c == '_' {
            if j + 1 >= text.len() || !name_char(text[j + 1]) {
                proof {
                    lemma_head_end_bounds(text@, j + 1);
                    assert(is_name_punctuation(text@[j as int]));
                }
                return false;
            }
        }
        j += 1;
    }
    true
}

/// Whether no more than `MAX_DIGITS` digits stand in a row in `text`.
fn has_short_numbers(text: &Vec<char>) -> (r: bool)
    ensures
        r == numbers_are_short(text@),
{
    let mut i: usize = 0;
    let mut run: usize = 0;
    while i < text.len()
        invariant
            i <= text.len(),
            run == digits_before(text@, i as int),
            run <= MAX_DIGITS,
            forall|k: int| 0 <= k <= i ==> #[trigger] digits_before(text@, k) <= MAX_DIGITS,
        decreases text.len() - i,
    {
        if '0' <= text[i] && text[i] <= '9' {
            run += 1;
            if run > MAX_DIGITS {
                assert(digits_before(text@, i + 1) > MAX_DIGITS);
                return false;
            }
        } else {
            run = 0;
        }
        i += 1;
    }
    true
}

/// Whether the characters of `pattern` stand in `text` at index `at`.
fn stands_here(text: &Vec<char>, pattern: &Vec<char>, at: usize) -> (r: bool)
    requires
        at + pattern.len() <= text.len(),
    ensures
        r == stands_at(text@, pattern@, at as int),
{
    let mut k: usize = 0;
    while k < pattern.len()
        invariant
            k <= pattern.len(),
            at + pattern.len() <= text.len(),
            forall|j: int| 0 <= j < k ==> text@[at + j] == pattern@[j],
        decreases pattern.len() - k,
    {
        if text[at + k] != pattern[k] {
            assert(text@.subrange(at as int, at + pattern.len())[k as int] == text@[at + k]);
            return false;
        }
        k += 1;
    }
    assert(text@.subrange(at as int, at + pattern.len()) =~= pattern@);
    true
}

/// Whether the characters of `pattern` stand somewhere in `text`.
fn holds(text: &Vec<char>, pattern: &str) -> (r: bool)
    ensures
        r == holds_text(text@, pattern@),
{
    let wanted = to_chars(pattern);
    if wanted.len() > text.len() {
        return false;
    }
    if wanted.len() == 0 {
        assert(text@.subrange(0, 0) =~= pattern@);
        assert(stands_at(text@, pattern@, 0));
        return true;
    }
    let last: usize = text.len() - wanted.len();
    let mut i: usize = 0;
    while i <= last
        invariant
            i <= last + 1,
            last == text.len() - wanted.len(),
            wanted.len() > 0,
            wanted@ == pattern@,
            forall|k: int| 0 <= k < i ==> !stands_at(text@, pattern@, k),
        decreases last + 1 - i,
    {
        if stands_here(text, &wanted, i) {
            return true;
        }
        i += 1;
    }
    false
}

/// Whether `text` can be handed to the requirement parser.
pub fn is_callable(text: &Vec<char>) -> (r: bool)
    ensures
        r == is_callable_text(text@),
{
    names_end_well(text) && has_short_numbers(text) && !holds(text, "${PROJECT_ROOT}")
}

/// Asks the parser what requirement `text` states: the requirement, or the
/// message that says why it states none. A text that cannot be handed to
/// the parser gets a message of its own.
pub fn parse_requirement(text: &str) -> (r: Result<PyPIRequirement, String>)
    ensures
        may_answer(text@, parsed_view(r)),
{
    let chars = to_chars(text);
    if is_callable(&chars) {
        parse_pep508(text)
    } else {
        Err(
            from_chars(
                &to_chars(
                    "Not a requirement that can be read: a name ends in '.', '-' or '_', a number is too long, or the text holds '${PROJECT_ROOT}'",
                ),
            ),
        )
    }
}

/// What the parser answered to a text.
#[derive(Debug)]
pub struct Answer {
    pub text: String,
    pub outcome: Result<PyPIRequirement, String>,
}

/// An `Answer` over character sequences.
pub ghost struct AnswerView {
    pub text: Seq<char>,
    pub outcome: Result<PyPIRequirementView, Seq<char>>,
}

impl View for Answer {
    type V = AnswerView;

    open spec fn view(&self) -> AnswerView {
        AnswerView { text: self.text@, outcome: parsed_view(self.outcome) }
    }
}

/// The views of a sequence of answers.
pub open spec fn answer_views(s: Seq<Answer>) -> Seq<AnswerView> {
    Seq::new(s.len(), |i: int| s[i]@)
}

/// The first index at or after `i` whose answer is to `text`, or the length.
pub open spec fn answer_index(answers: Seq<AnswerView>, text: Seq<char>, i: int) -> int
    decreases answers.len() - i,
{
    if 0 <= i < answers.len() && answers[i].text != text {
        answer_index(answers, text, i + 1)
    } else {
        i
    }
}

/// The first answer to `text` among `answers`, if there is one.
pub open spec fn answer_to(answers: Seq<AnswerView>, text: Seq<char>) -> Option<
    Result<PyPIRequirementView, Seq<char>>,
> {
    let k = answer_index(answers, text, 0);
    if 0 <= k < answers.len() {
        Some(answers[k].outcome)
    } else {
        None
    }
}

/// The first answer to `text` among `answers`, if there is one.
pub fn find_answer<'a>(answers: &'a Vec<Answer>, text: &str) -> (r: Option<&'a Answer>)
    ensures
        match r {
            Some(answer) => answer_to(answer_views(answers@), text@) == Some(answer@.outcome),
            None => answer_to(answer_views(answers@), text@) is None,
        },
{
    let mut i: usize = 0;
    while i < answers.len()
        invariant
            i <= answers.len(),
            answer_index(answer_views(answers@), text@, i as int) == answer_index(
                answer_views(answers@),
                text@,
                0,
            ),
        decreases answers.len() - i,
    {
        assert(answer_views(answers@)[i as int] == answers@[i as int]@);
        if same_text(answers[i].text.as_str(), text) {
            return Some(&answers[i]);
        }
        i += 1;
    }
    None
}

/// Asks the parser about `text`, and keeps the answer with the text.
pub fn answer(text: &str) -> (r: Answer)
    ensures
        r@.text == text@,
        may_answer(text@, r@.outcome),
{
    Answer { text: from_chars(&to_chars(text)), outcome: parse_requirement(text) }
}

/// Asks the parser about each of `texts`, in order.
pub fn answer_all(texts: &Vec<String>) -> (r: Vec<Answer>)
    ensures
        r@.len() == texts@.len(),
        forall|i: int|
            0 <= i < r@.len() ==> (#[trigger] r@[i])@.text == texts@[i]@ && may_answer(
                texts@[i]@,
                r@[i]@.outcome,
            ),
{
    let mut answers: Vec<Answer> = Vec::new();
    let mut i: usize = 0;
    while i < texts.len()
        invariant
            i <= texts.len(),
            answers@.len() == i,
            forall|k: int|
                0 <= k < i ==> (#[trigger] answers@[k])@.text == texts@[k]@ && may_answer(
                    texts@[k]@,
                    answers@[k]@.outcome,
                ),
        decreases texts.len() - i,
    {
        answers.push(answer(texts[i].as_str()));
        i += 1;
    }
    answers
}

/// Whether each of `answers` is one that the parser may give to its text.
pub open spec fn are_parser_answers(answers: Seq<AnswerView>) -> bool {
    forall|k: int|
        0 <= k < answers.len() ==> may_answer((#[trigger] answers[k]).text, answers[k].outcome)
}

/// Whether each of `texts` has an answer among `answers`.
pub open spec fn answers_all(answers: Seq<AnswerView>, texts: Seq<Seq<char>>) -> bool {
    forall|i: int| 0 <= i < texts.len() ==> #[trigger] answer_to(answers, texts[i]) is Some
}

/// A text that stands in the table of answers has an answer.
pub proof fn lemma_answer_is_found(answers: Seq<AnswerView>, text: Seq<char>, k: int, from: int)
    requires
        0 <= from <= k < answers.len(),
        answers[k].text == text,
    ensures
        from <= answer_index(answers, text, from) <= k,
    decreases answers.len() - from,
{
    if answers[from].text != text {
        lemma_answer_is_found(answers, text, k, from + 1);
    }
}

/// Asks the parser about each of `texts`, in order: every text has an
/// answer then, and every answer is the parser's.
pub fn answer_texts(texts: &Vec<String>) -> (r: Vec<Answer>)
    ensures
        are_parser_answers(answer_views(r@)),
        answers_all(answer_views(r@), string_views(texts@)),
{
    let answers = answer_all(texts);
    proof {
        let known = answer_views(answers@);
        assert forall|i: int| 0 <= i < texts@.len() implies #[trigger] answer_to(
            known,
            string_views(texts@)[i],
        ) is Some by {
            assert(known[i] == answers@[i]@);
            lemma_answer_is_found(known, texts@[i]@, i, 0);
        }
        assert forall|k: int| 0 <= k < known.len() implies may_answer(
            (#[trigger] known[k]).text,
            known[k].outcome,
        ) by {
            assert(known[k] == answers@[k]@);
        }
    }
    answers
}

/// The answer that is found is the first to its text: none before it is,
/// and without such an answer the result is the length.
pub proof fn lemma_answer_index_bounds(answers: Seq<AnswerView>, text: Seq<char>, i: int)
    requires
        0 <= i <= answers.len(),
    ensures
        i <= answer_index(answers, text, i) <= answers.len(),
        answer_index(answers, text, i) < answers.len() ==> answers[answer_index(
            answers,
            text,
            i,
        )].text == text,
    decreases answers.len() - i,
{
    if i < answers.len() && answers[i].text != text {
        lemma_answer_index_bounds(answers, text, i + 1);
    }
}

/// Answers that follow change no answer: what was answered stays answered.
pub proof fn lemma_earlier_answers_stay(
    answers: Seq<AnswerView>,
    more: Seq<AnswerView>,
    texts: Seq<Seq<char>>,
)
    requires
        answers_all(answers, texts),
    ensures
        answers_all(answers + more, texts),
{
    assert forall|i: int| 0 <= i < texts.len() implies #[trigger] answer_to(
        answers + more,
        texts[i],
    ) is Some by {
        assert(answer_to(answers, texts[i]) is Some);
        lemma_answer_index_bounds(answers, texts[i], 0);
        let k = answer_index(answers, texts[i], 0);
        assert((answers + more)[k].text == texts[i]);
        lemma_answer_is_found(answers + more, texts[i], k, 0);
    }
}

/// Answers that follow others answer what they answered alone.
pub proof fn lemma_later_answers_count(
    answers: Seq<AnswerView>,
    more: Seq<AnswerView>,
    texts: Seq<Seq<char>>,
)
    requires
        answers_all(more, texts),
    ensures
        answers_all(answers + more, texts),
{
    assert forall|i: int| 0 <= i < texts.len() implies #[trigger] answer_to(
        answers + more,
        texts[i],
    ) is Some by {
        assert(answer_to(more, texts[i]) is Some);
        lemma_answer_index_bounds(more, texts[i], 0);
        let k = answer_index(more, texts[i], 0);
        assert((answers + more)[answers.len() + k].text == texts[i]);
        lemma_answer_is_found(answers + more, texts[i], answers.len() + k, 0);
    }
}

/// Asks the parser about each of `texts`, and adds the answers to `answers`.
pub fn add_answers(answers: &mut Vec<Answer>, texts: &Vec<String>)
    requires
        are_parser_answers(answer_views(old(answers)@)),
    ensures
        are_parser_answers(answer_views(final(answers)@)),
        answers_all(answer_views(final(answers)@), string_views(texts@)),
        exists|more: Seq<AnswerView>|
            #![trigger answer_views(old(answers)@) + more]
            answer_views(final(answers)@) == answer_views(old(answers)@) + more,
{
    let ghost before = answer_views(answers@);
    let mut more = answer_texts(texts);
    let ghost added = answer_views(more@);
    answers.append(&mut more);
    proof {
        assert(answer_views(answers@) =~= before + added);
        lemma_later_answers_count(before, added, string_views(texts@));
    }
}

} // verus!
