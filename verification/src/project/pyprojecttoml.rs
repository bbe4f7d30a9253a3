//! The project-metadata reader: the required dependencies of a project and
//! its named groups of optional ones, from a `pyproject.toml` document.

use crate::error::{AnalysisError, AnalysisErrorView};
use crate::files::{Halt, HaltView};
use crate::project::requirement::{
    answer_texts, answer_to, answer_views, answers_all, are_parser_answers, find_answer, Answer,
    AnswerView,
};
use crate::text::string_views;
use crate::project::{
    dependency_views, duplicate_dependencies, extend_with_copies, Dependency, DependencyView,
};
use crate::text::{concat, from_chars, same_text, to_chars};
use vstd::prelude::*;

verus! {

/// A value of a structured document, as far as the reader looks at it.
#[derive(Debug)]
pub enum Item {
    /// A string.
    Text(String),
    /// An array.
    List(Vec<Item>),
    /// A table: its entries, in the order of their keys.
    Table(Vec<Entry>),
    /// A value of any other kind.
    Other,
}

/// One entry of a table.
#[derive(Debug)]
pub struct Entry {
    pub key: String,
    pub value: Item,
}

/// A value of the document tree that `toml` builds.
#[verifier::external_type_specification]
#[verifier::external_body]
pub struct ExTomlValue(toml::Value);

/// What `toml` makes of a text: the document, or nothing where the text is
/// no valid TOML.
pub uninterp spec fn parsed_document(contents: Seq<char>) -> Option<Item>;

/// Parses `contents` as a TOML document with `toml`'s `Value::from_str`, and
/// hands the document over as an `Item`; of a text that is no valid TOML,
/// nothing. The contract claims that the outcome depends on the text alone,
/// and names it `parsed_document`; nothing more is claimed of it.
#[verifier::external_body]
pub(crate) fn parse_document(contents: &str) -> (r: Option<Item>)
    ensures
        r == parsed_document(contents@),
{
    match contents.parse::<toml::Value>() {
        Ok(value) => Some(lower_value(&value)),
        Err(_) => None,
    }
}

/// Hands one `toml::Value` over: strings, arrays and tables with what
/// they hold, a table's entries in the order in which `toml` walks them,
/// which is the order of their keys;
/// every other kind of value becomes `Item::Other`. Nothing is claimed of
/// the result here: it is part of what `parsed_document` names.
#[verifier::external_body]
fn lower_value(value: &toml::Value) -> (item: Item) {
    match value {
        toml::Value::String(text) => Item::Text(text.clone()),
        toml::Value::Array(items) => Item::List(items.iter().map(lower_value).collect()),
        toml::Value::Table(table) => Item::Table(
            table.iter().map(|(k, v)| Entry { key: k.clone(), value: lower_value(v) }).collect(),
        ),
        _ => Item::Other,
    }
}

/// The first index at or after `i` whose entry has the key `key`, or the length.
pub open spec fn entry_index(entries: Seq<Entry>, key: Seq<char>, i: int) -> int
    decreases entries.len() - i,
{
    if 0 <= i < entries.len() && entries[i].key@ != key {
        entry_index(entries, key, i + 1)
    } else {
        i
    }
}

/// What a table holds under `key`; nothing where `item` is no table or has
/// no such key.
pub open spec fn lookup(item: Item, key: Seq<char>) -> Option<Item> {
    match item {
        Item::Table(entries) => {
            let k = entry_index(entries@, key, 0);
            if 0 <= k < entries@.len() {
                Some(entries@[k].value)
            } else {
                None
            }
        },
        _ => None,
    }
}

/// A named group of optional dependencies.
#[derive(Debug)]
pub struct ExtraGroup {
    name: String,
    dependencies: Vec<Dependency>,
}

/// An `ExtraGroup` over character sequences.
pub ghost struct ExtraGroupView {
    pub name: Seq<char>,
    pub dependencies: Seq<DependencyView>,
}

impl View for ExtraGroup {
    type V = ExtraGroupView;

    closed spec fn view(&self) -> ExtraGroupView {
        ExtraGroupView { name: self.name@, dependencies: dependency_views(self.dependencies@) }
    }
}

/// The views of a sequence of groups.
pub open spec fn group_views(s: Seq<ExtraGroup>) -> Seq<ExtraGroupView> {
    Seq::new(s.len(), |i: int| s[i]@)
}

/// The dependencies that a project-metadata document declares.
#[derive(Debug)]
pub struct PyProjectToml {
    /// All dependencies, those of every extra included: the required ones
    /// first, then those of each extra; arrays in the order of the document,
    /// tables and extras in the order of their keys.
    all_dependencies: Vec<Dependency>,
    /// The dependencies that are always required.
    required_dependencies: Vec<Dependency>,
    /// The optional dependencies, grouped by the name of their extra.
    optional_dependencies: Vec<ExtraGroup>,
}

/// A `PyProjectToml` over character sequences.
pub ghost struct PyProjectTomlView {
    pub all: Seq<DependencyView>,
    pub required: Seq<DependencyView>,
    pub optional: Seq<ExtraGroupView>,
}

impl View for PyProjectToml {
    type V = PyProjectTomlView;

    closed spec fn view(&self) -> PyProjectTomlView {
        PyProjectTomlView {
            all: dependency_views(self.all_dependencies@),
            required: dependency_views(self.required_dependencies@),
            optional: group_views(self.optional_dependencies@),
        }
    }
}

/// The first index at or after `i` whose group is named `name`, or the length.
pub open spec fn group_index(groups: Seq<ExtraGroupView>, name: Seq<char>, i: int) -> int
    decreases groups.len() - i,
{
    if 0 <= i < groups.len() && groups[i].name != name {
        group_index(groups, name, i + 1)
    } else {
        i
    }
}

/// Whether no two groups have the same name.
pub open spec fn distinct_names(groups: Seq<ExtraGroupView>) -> bool {
    forall|i: int, j: int| 0 <= i < j < groups.len() ==> groups[i].name != groups[j].name
}

/// The groups once `deps` have joined the group `name`: at the end of that
/// group where it exists, as a new last group where it does not. Without
/// dependencies nothing changes.
pub open spec fn extend_group(
    groups: Seq<ExtraGroupView>,
    name: Seq<char>,
    deps: Seq<DependencyView>,
) -> Seq<ExtraGroupView> {
    let k = group_index(groups, name, 0);
    if deps.len() == 0 {
        groups
    } else if 0 <= k < groups.len() {
        groups.update(k, ExtraGroupView { name, dependencies: groups[k].dependencies + deps })
    } else {
        groups.push(ExtraGroupView { name, dependencies: deps })
    }
}

/// The dependencies of the group `name`; none where there is no such group.
pub open spec fn group_dependencies(groups: Seq<ExtraGroupView>, name: Seq<char>) -> Seq<
    DependencyView,
> {
    let k = group_index(groups, name, 0);
    if 0 <= k < groups.len() {
        groups[k].dependencies
    } else {
        Seq::empty()
    }
}

/// The required dependencies, followed by those of each named group in the
/// order of the names; a group that is named twice comes twice.
pub open spec fn configuration_dependencies(
    project: PyProjectTomlView,
    names: Seq<Seq<char>>,
) -> Seq<DependencyView>
    decreases names.len(),
{
    if names.len() == 0 {
        project.required
    } else {
        configuration_dependencies(project, names.drop_last()) + group_dependencies(
            project.optional,
            names.last(),
        )
    }
}

/// The error for a requirement string that states no requirement.
pub open spec fn requirement_error(message: Seq<char>) -> HaltView {
    HaltView::Failed(AnalysisErrorView::PyProjectTomlError(message))
}

/// The dependency that a requirement string of the document states, by the
/// parser's answer to it; without an answer, the answer is asked for.
pub open spec fn declared_dependency(answers: Seq<AnswerView>, text: Seq<char>) -> Result<
    DependencyView,
    HaltView,
> {
    match answer_to(answers, text) {
        None => Err(HaltView::NeedsRequirement(text)),
        Some(Ok(requirement)) => Ok(DependencyView::PyPI(requirement)),
        Some(Err(message)) => Err(requirement_error(message)),
    }
}

/// The dependencies of an array: one for each string in it, in order, or
/// the error of the first string that states none. Other values are passed over.
pub open spec fn list_dependencies(answers: Seq<AnswerView>, items: Seq<Item>) -> Result<
    Seq<DependencyView>,
    HaltView,
>
    decreases items.len(),
{
    if items.len() == 0 {
        Ok(Seq::empty())
    } else {
        match list_dependencies(answers, items.drop_last()) {
            Err(e) => Err(e),
            Ok(deps) => match items.last() {
                Item::Text(text) => match declared_dependency(answers, text@) {
                    Ok(dep) => Ok(deps.push(dep)),
                    Err(e) => Err(e),
                },
                _ => Ok(deps),
            },
        }
    }
}

/// The requirement string for an entry of a table of versions: the name, a
/// space, the version.
pub open spec fn versioned_name(name: Seq<char>, version: Seq<char>) -> Seq<char> {
    name + seq![' '] + version
}

/// The dependencies of a table from names to versions: one for each entry
/// whose value is a string, in order, or the error of the first that
/// states none.
pub open spec fn table_dependencies(answers: Seq<AnswerView>, entries: Seq<Entry>) -> Result<
    Seq<DependencyView>,
    HaltView,
>
    decreases entries.len(),
{
    if entries.len() == 0 {
        Ok(Seq::empty())
    } else {
        match table_dependencies(answers, entries.drop_last()) {
            Err(e) => Err(e),
            Ok(deps) => match entries.last().value {
                Item::Text(version) => match declared_dependency(
                    answers,
                    versioned_name(entries.last().key@, version@),
                ) {
                    Ok(dep) => Ok(deps.push(dep)),
                    Err(e) => Err(e),
                },
                _ => Ok(deps),
            },
        }
    }
}

/// The optional dependencies of a project: by group, and all in one list.
pub ghost struct OptionalView {
    pub groups: Seq<ExtraGroupView>,
    pub flat: Seq<DependencyView>,
}

/// The optional dependencies that a table of groups declares: each entry
/// whose value is an array gives its dependencies to the group of its key.
/// Other entries are passed over.
pub open spec fn optional_dependencies(answers: Seq<AnswerView>, entries: Seq<Entry>) -> Result<
    OptionalView,
    HaltView,
>
    decreases entries.len(),
{
    if entries.len() == 0 {
        Ok(OptionalView { groups: Seq::empty(), flat: Seq::empty() })
    } else {
        match optional_dependencies(answers, entries.drop_last()) {
            Err(e) => Err(e),
            Ok(sofar) => match entries.last().value {
                Item::List(items) => match list_dependencies(answers, items@) {
                    Err(e) => Err(e),
                    Ok(deps) => Ok(
                        OptionalView {
                            groups: extend_group(sofar.groups, entries.last().key@, deps),
                            flat: sofar.flat + deps,
                        },
                    ),
                },
                _ => Ok(sofar),
            },
        }
    }
}

/// The error for a `dependencies` value that is neither an array nor a table.
pub open spec fn invalid_dependencies_format() -> HaltView {
    HaltView::Failed(AnalysisErrorView::PyProjectTomlError("Invalid dependencies format"@))
}

/// The required dependencies that a project table declares.
pub open spec fn required_of(answers: Seq<AnswerView>, project: Item) -> Result<
    Seq<DependencyView>,
    HaltView,
> {
    match lookup(project, "dependencies"@) {
        None => Ok(Seq::empty()),
        Some(Item::List(items)) => list_dependencies(answers, items@),
        Some(Item::Table(entries)) => table_dependencies(answers, entries@),
        Some(_) => Err(invalid_dependencies_format()),
    }
}

/// The optional dependencies that a project table declares.
pub open spec fn optional_of(answers: Seq<AnswerView>, project: Item) -> Result<
    OptionalView,
    HaltView,
> {
    match lookup(project, "optional-dependencies"@) {
        Some(Item::Table(entries)) => optional_dependencies(answers, entries@),
        _ => Ok(OptionalView { groups: Seq::empty(), flat: Seq::empty() }),
    }
}

/// What a document declares: the dependencies under its `project` table,
/// the required ones first; nothing where it has no such table; or the
/// first error met on the way.
pub open spec fn document_dependencies(answers: Seq<AnswerView>, document: Item) -> Result<
    PyProjectTomlView,
    HaltView,
> {
    match lookup(document, "project"@) {
        None => Ok(
            PyProjectTomlView { all: Seq::empty(), required: Seq::empty(), optional: Seq::empty() },
        ),
        Some(project) => match required_of(answers, project) {
            Err(e) => Err(e),
            Ok(required) => match optional_of(answers, project) {
                Err(e) => Err(e),
                Ok(optional) => Ok(
                    PyProjectTomlView {
                        all: required + optional.flat,
                        required,
                        optional: optional.groups,
                    },
                ),
            },
        },
    }
}

/// The view of the outcome of reading a list of dependencies.
pub open spec fn dependencies_view(r: Result<Vec<Dependency>, Halt>) -> Result<
    Seq<DependencyView>,
    HaltView,
> {
    match r {
        Ok(deps) => Ok(dependency_views(deps@)),
        Err(e) => Err(e@),
    }
}

/// The view of the outcome of reading a document.
pub open spec fn project_view(r: Result<PyProjectToml, Halt>) -> Result<
    PyProjectTomlView,
    HaltView,
> {
    match r {
        Ok(project) => Ok(project@),
        Err(e) => Err(e@),
    }
}

/// An error in a longer array stays the error of the whole array.
pub proof fn lemma_list_error_stays(answers: Seq<AnswerView>, items: Seq<Item>, i: int)
    requires
        0 <= i <= items.len(),
        list_dependencies(answers, items.take(i)) is Err,
    ensures
        list_dependencies(answers, items) == list_dependencies(answers, items.take(i)),
    decreases items.len() - i,
{
    if i < items.len() {
        assert(items.take(i + 1).drop_last() == items.take(i));
        lemma_list_error_stays(answers, items, i + 1);
    } else {
        assert(items.take(i) == items);
    }
}

/// An error in a longer table stays the error of the whole table.
pub proof fn lemma_table_error_stays(answers: Seq<AnswerView>, entries: Seq<Entry>, i: int)
    requires
        0 <= i <= entries.len(),
        table_dependencies(answers, entries.take(i)) is Err,
    ensures
        table_dependencies(answers, entries) == table_dependencies(answers, entries.take(i)),
    decreases entries.len() - i,
{
    if i < entries.len() {
        assert(entries.take(i + 1).drop_last() == entries.take(i));
        lemma_table_error_stays(answers, entries, i + 1);
    } else {
        assert(entries.take(i) == entries);
    }
}

/// An error in a longer table of groups stays the error of the whole table.
pub proof fn lemma_optional_error_stays(answers: Seq<AnswerView>, entries: Seq<Entry>, i: int)
    requires
        0 <= i <= entries.len(),
        optional_dependencies(answers, entries.take(i)) is Err,
    ensures
        optional_dependencies(answers, entries) == optional_dependencies(answers, entries.take(i)),
    decreases entries.len() - i,
{
    if i < entries.len() {
        assert(entries.take(i + 1).drop_last() == entries.take(i));
        lemma_optional_error_stays(answers, entries, i + 1);
    } else {
        assert(entries.take(i) == entries);
    }
}

/// What `item` holds under `key`, if it is a table with that key.
pub fn get<'a>(item: &'a Item, key: &str) -> (r: Option<&'a Item>)
    ensures
        match r {
            Some(found) => lookup(*item, key@) == Some(*found),
            None => lookup(*item, key@) is None,
        },
{
    match item {
        Item::Table(entries) => {
            let mut i: usize = 0;
            while i < entries.len()
                invariant
                    i <= entries.len(),
                    *item == Item::Table(*entries),
                    entry_index(entries@, key@, i as int) == entry_index(entries@, key@, 0),
                decreases entries.len() - i,
            {
                if same_text(entries[i].key.as_str(), key) {
                    assert(entry_index(entries@, key@, i as int) == i);
                    return Some(&entries[i].value);
                }
                i += 1;
            }
            None
        },
        _ => None,
    }
}

/// The dependency that a requirement string of the document states, by the
/// parser's answer to it; without an answer, the answer is asked for.
pub fn parse_dependency_string(dep_str: &str, answers: &Vec<Answer>) -> (r: Result<Dependency, Halt>)
    ensures
        match r {
            Ok(dep) => declared_dependency(answer_views(answers@), dep_str@) == Ok::<
                DependencyView,
                HaltView,
            >(dep@),
            Err(e) => declared_dependency(answer_views(answers@), dep_str@) == Err::<
                DependencyView,
                HaltView,
            >(e@),
        },
{
    match find_answer(answers, dep_str) {
        None => Err(Halt::NeedsRequirement(from_chars(&to_chars(dep_str)))),
        Some(answer) => match &answer.outcome {
            Ok(requirement) => Ok(Dependency::PyPI(requirement.duplicate())),
            Err(message) => Err(Halt::Failed(AnalysisError::PyProjectTomlError(message.clone()))),
        },
    }
}

/// The dependencies of an array of requirement strings.
pub fn parse_list(items: &Vec<Item>, answers: &Vec<Answer>) -> (r: Result<Vec<Dependency>, Halt>)
    ensures
        dependencies_view(r) == list_dependencies(answer_views(answers@), items@),
{
    let mut out: Vec<Dependency> = Vec::new();
    let mut i: usize = 0;
    proof {
        assert(dependency_views(out@) =~= Seq::empty());
    }
    while i < items.len()
        invariant
            i <= items.len(),
            list_dependencies(answer_views(answers@), items@.take(i as int)) == Ok::<
                Seq<DependencyView>,
                HaltView,
            >(dependency_views(out@)),
        decreases items.len() - i,
    {
        proof {
            assert(items@.take(i + 1).drop_last() == items@.take(i as int));
            assert(items@.take(i + 1).last() == items@[i as int]);
        }
        match &items[i] {
            Item::Text(text) => {
                match parse_dependency_string(text.as_str(), answers) {
                    Ok(dep) => {
                        proof {
                            assert(dependency_views(out@.push(dep)) == dependency_views(out@).push(
                                dep@,
                            ));
                        }
                        out.push(dep);
                    },
                    Err(e) => {
                        proof {
                            lemma_list_error_stays(answer_views(answers@), items@, i + 1);
                        }
                        return Err(e);
                    },
                }
            },
            _ => {},
        }
        i += 1;
    }
    proof {
        assert(items@.take(items.len() as int) == items@);
    }
    Ok(out)
}

/// The requirement string for an entry of a table of versions.
pub fn name_with_version(name: &str, version: &str) -> (r: String)
    ensures
        r@ == versioned_name(name@, version@),
{
    let mut chars = to_chars(name);
    chars.push(' ');
    let all = concat(&chars, &to_chars(version));
    from_chars(&all)
}

/// The dependencies of a table from names to versions.
pub fn parse_versions(entries: &Vec<Entry>, answers: &Vec<Answer>) -> (r: Result<
    Vec<Dependency>,
    Halt,
>)
    ensures
        dependencies_view(r) == table_dependencies(answer_views(answers@), entries@),
{
    let mut out: Vec<Dependency> = Vec::new();
    let mut i: usize = 0;
    proof {
        assert(dependency_views(out@) =~= Seq::empty());
    }
    while i < entries.len()
        invariant
            i <= entries.len(),
            table_dependencies(answer_views(answers@), entries@.take(i as int)) == Ok::<
                Seq<DependencyView>,
                HaltView,
            >(dependency_views(out@)),
        decreases entries.len() - i,
    {
        proof {
            assert(entries@.take(i + 1).drop_last() == entries@.take(i as int));
            assert(entries@.take(i + 1).last() == entries@[i as int]);
        }
        match &entries[i].value {
            Item::Text(version) => {
                let text = name_with_version(entries[i].key.as_str(), version.as_str());
                match parse_dependency_string(text.as_str(), answers) {
                    Ok(dep) => {
                        proof {
                            assert(dependency_views(out@.push(dep)) == dependency_views(out@).push(
                                dep@,
                            ));
                        }
                        out.push(dep);
                    },
                    Err(e) => {
                        proof {
                            lemma_table_error_stays(answer_views(answers@), entries@, i + 1);
                        }
                        return Err(e);
                    },
                }
            },
            _ => {},
        }
        i += 1;
    }
    proof {
        assert(entries@.take(entries.len() as int) == entries@);
    }
    Ok(out)
}

/// The group that is found is the first with that name: none before it
/// has it, and without such a group the result is the length.
pub proof fn lemma_group_index_bounds(groups: Seq<ExtraGroupView>, name: Seq<char>, i: int)
    requires
        0 <= i <= groups.len(),
    ensures
        i <= group_index(groups, name, i) <= groups.len(),
        forall|k: int| i <= k < group_index(groups, name, i) ==> groups[k].name != name,
        group_index(groups, name, i) < groups.len() ==> groups[group_index(groups, name, i)].name
            == name,
    decreases groups.len() - i,
{
    if i < groups.len() && groups[i].name != name {
        lemma_group_index_bounds(groups, name, i + 1);
    }
}

/// Groups with distinct names keep distinct names when dependencies join one.
pub proof fn lemma_extend_group_distinct(
    groups: Seq<ExtraGroupView>,
    name: Seq<char>,
    deps: Seq<DependencyView>,
)
    requires
        distinct_names(groups),
    ensures
        distinct_names(extend_group(groups, name, deps)),
{
    lemma_group_index_bounds(groups, name, 0);
}

/// Adds `deps` to the group `name`, which is made where it does not exist.
pub fn add_to_group(groups: &mut Vec<ExtraGroup>, name: &str, deps: &Vec<Dependency>)
    ensures
        group_views(final(groups)@) == extend_group(
            group_views(old(groups)@),
            name@,
            dependency_views(deps@),
        ),
{
    let ghost before = group_views(groups@);
    if deps.len() == 0 {
        return ;
    }
    let mut k: usize = 0;
    while k < groups.len() && !same_text(groups[k].name.as_str(), name)
        invariant
            k <= groups.len(),
            group_views(groups@) == before,
            group_index(before, name@, k as int) == group_index(before, name@, 0),
        decreases groups.len() - k,
    {
        assert(before[k as int].name == groups@[k as int]@.name);
        k += 1;
    }
    if k < groups.len() {
        assert(before[k as int].name == groups@[k as int]@.name);
        let mut merged = duplicate_dependencies(&groups[k].dependencies);
        extend_with_copies(&mut merged, deps);
        let group = ExtraGroup { name: from_chars(&to_chars(name)), dependencies: merged };
        groups.set(k, group);
        proof {
            assert(group_views(groups@) =~= extend_group(before, name@, dependency_views(deps@)));
        }
    } else {
        let group = ExtraGroup {
            name: from_chars(&to_chars(name)),
            dependencies: duplicate_dependencies(deps),
        };
        groups.push(group);
        proof {
            assert(group_views(groups@) =~= extend_group(before, name@, dependency_views(deps@)));
        }
    }
}

/// The optional dependencies that a table of groups declares: by group,
/// and all in one list.
pub fn parse_groups(entries: &Vec<Entry>, answers: &Vec<Answer>) -> (r: Result<
    (Vec<ExtraGroup>, Vec<Dependency>),
    Halt,
>)
    ensures
        match r {
            Ok((groups, flat)) => optional_dependencies(answer_views(answers@), entries@) == Ok::<
                OptionalView,
                HaltView,
            >(OptionalView { groups: group_views(groups@), flat: dependency_views(flat@) })
                && distinct_names(group_views(groups@)),
            Err(e) => optional_dependencies(answer_views(answers@), entries@) == Err::<
                OptionalView,
                HaltView,
            >(e@),
        },
{
    let mut groups: Vec<ExtraGroup> = Vec::new();
    let mut flat: Vec<Dependency> = Vec::new();
    let mut i: usize = 0;
    proof {
        assert(dependency_views(flat@) =~= Seq::empty());
        assert(group_views(groups@) =~= Seq::empty());
    }
    while i < entries.len()
        invariant
            i <= entries.len(),
            distinct_names(group_views(groups@)),
            optional_dependencies(answer_views(answers@), entries@.take(i as int)) == Ok::<
                OptionalView,
                HaltView,
            >(OptionalView { groups: group_views(groups@), flat: dependency_views(flat@) }),
        decreases entries.len() - i,
    {
        proof {
            assert(entries@.take(i + 1).drop_last() == entries@.take(i as int));
            assert(entries@.take(i + 1).last() == entries@[i as int]);
        }
        match &entries[i].value {
            Item::List(items) => {
                match parse_list(items, answers) {
                    Ok(deps) => {
                        proof {
                            lemma_extend_group_distinct(
                                group_views(groups@),
                                entries@[i as int].key@,
                                dependency_views(deps@),
                            );
                        }
                        add_to_group(&mut groups, entries[i].key.as_str(), &deps);
                        extend_with_copies(&mut flat, &deps);
                    },
                    Err(e) => {
                        proof {
                            lemma_optional_error_stays(answer_views(answers@), entries@, i + 1);
                        }
                        return Err(e);
                    },
                }
            },
            _ => {},
        }
        i += 1;
    }
    proof {
        assert(entries@.take(entries.len() as int) == entries@);
    }
    Ok((groups, flat))
}

/// The error for a text that is no valid TOML.
pub open spec fn invalid_toml() -> HaltView {
    HaltView::Failed(AnalysisErrorView::PyProjectTomlError("Invalid TOML"@))
}

/// What a text declares, from what the TOML parser made of it.
pub open spec fn contents_dependencies(answers: Seq<AnswerView>, parsed: Option<Item>) -> Result<
    PyProjectTomlView,
    HaltView,
> {
    match parsed {
        Some(document) => document_dependencies(answers, document),
        None => Err(invalid_toml()),
    }
}

/// An error with a message of the reader's own.
fn format_error(message: &str) -> (e: Halt)
    ensures
        e@ == HaltView::Failed(AnalysisErrorView::PyProjectTomlError(message@)),
{
    Halt::Failed(AnalysisError::PyProjectTomlError(from_chars(&to_chars(message))))
}

/// The required dependencies that a project table declares.
pub fn parse_required(project: &Item, answers: &Vec<Answer>) -> (r: Result<Vec<Dependency>, Halt>)
    ensures
        dependencies_view(r) == required_of(answer_views(answers@), *project),
{
    match get(project, "dependencies") {
        None => {
            let out: Vec<Dependency> = Vec::new();
            proof {
                assert(dependency_views(out@) =~= Seq::empty());
            }
            Ok(out)
        },
        Some(Item::List(items)) => parse_list(items, answers),
        Some(Item::Table(entries)) => parse_versions(entries, answers),
        Some(_) => Err(format_error("Invalid dependencies format")),
    }
}

/// The dependencies that a document declares.
pub fn parse_table(table: &Item, answers: &Vec<Answer>) -> (r: Result<PyProjectToml, Halt>)
    ensures
        project_view(r) == document_dependencies(answer_views(answers@), *table),
{
    match get(table, "project") {
        None => Ok(PyProjectToml::new()),
        Some(project_table) => {
            let required = match parse_required(project_table, answers) {
                Ok(required) => required,
                Err(e) => {
                    return Err(e);
                },
            };
            let (groups, flat) = match get(project_table, "optional-dependencies") {
                Some(Item::Table(entries)) => match parse_groups(entries, answers) {
                    Ok(optional) => optional,
                    Err(e) => {
                        return Err(e);
                    },
                },
                _ => {
                    let groups: Vec<ExtraGroup> = Vec::new();
                    let flat: Vec<Dependency> = Vec::new();
                    proof {
                        assert(dependency_views(flat@) =~= Seq::empty());
                        assert(group_views(groups@) =~= Seq::empty());
                    }
                    (groups, flat)
                },
            };
            let mut all = duplicate_dependencies(&required);
            extend_with_copies(&mut all, &flat);
            Ok(
                PyProjectToml {
                    all_dependencies: all,
                    required_dependencies: required,
                    optional_dependencies: groups,
                },
            )
        },
    }
}

/// What a text declares, from what the TOML parser made of it: the
/// dependencies of the document, or the error of a text that is no valid TOML.
pub fn dependencies_of_parsed(parsed: Option<Item>, answers: &Vec<Answer>) -> (r: Result<
    PyProjectToml,
    Halt,
>)
    ensures
        project_view(r) == contents_dependencies(answer_views(answers@), parsed),
{
    match parsed {
        Some(document) => parse_table(&document, answers),
        None => Err(format_error("Invalid TOML")),
    }
}

/// The dependencies that the text of a project-metadata document declares.
pub fn parse_contents(contents: &str, answers: &Vec<Answer>) -> (r: Result<PyProjectToml, Halt>)
    ensures
        project_view(r) == contents_dependencies(
            answer_views(answers@),
            parsed_document(contents@),
        ),
{
    dependencies_of_parsed(parse_document(contents), answers)
}

/// The requirement strings of an array, in order.
pub open spec fn list_texts(items: Seq<Item>) -> Seq<Seq<char>>
    decreases items.len(),
{
    if items.len() == 0 {
        Seq::empty()
    } else {
        match items.last() {
            Item::Text(text) => list_texts(items.drop_last()).push(text@),
            _ => list_texts(items.drop_last()),
        }
    }
}

/// The requirement strings of a table of versions, in order.
pub open spec fn table_texts(entries: Seq<Entry>) -> Seq<Seq<char>>
    decreases entries.len(),
{
    if entries.len() == 0 {
        Seq::empty()
    } else {
        match entries.last().value {
            Item::Text(version) => table_texts(entries.drop_last()).push(
                versioned_name(entries.last().key@, version@),
            ),
            _ => table_texts(entries.drop_last()),
        }
    }
}

/// The requirement strings of a table of groups, in order.
pub open spec fn group_texts(entries: Seq<Entry>) -> Seq<Seq<char>>
    decreases entries.len(),
{
    if entries.len() == 0 {
        Seq::empty()
    } else {
        match entries.last().value {
            Item::List(items) => group_texts(entries.drop_last()) + list_texts(items@),
            _ => group_texts(entries.drop_last()),
        }
    }
}

/// The requirement strings of the required dependencies of a project table.
pub open spec fn required_texts(project: Item) -> Seq<Seq<char>> {
    match lookup(project, "dependencies"@) {
        Some(Item::List(items)) => list_texts(items@),
        Some(Item::Table(entries)) => table_texts(entries@),
        _ => Seq::empty(),
    }
}

/// The requirement strings of the optional dependencies of a project table.
pub open spec fn optional_texts(project: Item) -> Seq<Seq<char>> {
    match lookup(project, "optional-dependencies"@) {
        Some(Item::Table(entries)) => group_texts(entries@),
        _ => Seq::empty(),
    }
}

/// All the requirement strings of a document: those that reading it can
/// need an answer for.
pub open spec fn document_texts(document: Item) -> Seq<Seq<char>> {
    match lookup(document, "project"@) {
        Some(project) => required_texts(project) + optional_texts(project),
        None => Seq::empty(),
    }
}

/// With an answer to each of its strings, an array is read without asking.
pub proof fn lemma_answered_list(answers: Seq<AnswerView>, items: Seq<Item>)
    requires
        answers_all(answers, list_texts(items)),
    ensures
        !(list_dependencies(answers, items) matches Err(HaltView::NeedsRequirement(_))),
    decreases items.len(),
{
    if items.len() > 0 {
        let before = list_texts(items.drop_last());
        assert forall|i: int| 0 <= i < before.len() implies #[trigger] answer_to(
            answers,
            before[i],
        ) is Some by {
            assert(list_texts(items)[i] == before[i]);
        }
        lemma_answered_list(answers, items.drop_last());
        if let Item::Text(text) = items.last() {
            assert(list_texts(items)[before.len() as int] == text@);
        }
    }
}

/// With an answer to each of its strings, a table of versions is read
/// without asking.
pub proof fn lemma_answered_table(answers: Seq<AnswerView>, entries: Seq<Entry>)
    requires
        answers_all(answers, table_texts(entries)),
    ensures
        !(table_dependencies(answers, entries) matches Err(HaltView::NeedsRequirement(_))),
    decreases entries.len(),
{
    if entries.len() > 0 {
        let before = table_texts(entries.drop_last());
        assert forall|i: int| 0 <= i < before.len() implies #[trigger] answer_to(
            answers,
            before[i],
        ) is Some by {
            assert(table_texts(entries)[i] == before[i]);
        }
        lemma_answered_table(answers, entries.drop_last());
        if let Item::Text(version) = entries.last().value {
            assert(table_texts(entries)[before.len() as int] == versioned_name(
                entries.last().key@,
                version@,
            ));
        }
    }
}

/// With an answer to each of its strings, a table of groups is read
/// without asking.
pub proof fn lemma_answered_groups(answers: Seq<AnswerView>, entries: Seq<Entry>)
    requires
        answers_all(answers, group_texts(entries)),
    ensures
        !(optional_dependencies(answers, entries) matches Err(HaltView::NeedsRequirement(_))),
    decreases entries.len(),
{
    if entries.len() > 0 {
        let before = group_texts(entries.drop_last());
        assert forall|i: int| 0 <= i < before.len() implies #[trigger] answer_to(
            answers,
            before[i],
        ) is Some by {
            assert(group_texts(entries)[i] == before[i]);
        }
        lemma_answered_groups(answers, entries.drop_last());
        if let Item::List(items) = entries.last().value {
            let own = list_texts(items@);
            assert forall|i: int| 0 <= i < own.len() implies #[trigger] answer_to(
                answers,
                own[i],
            ) is Some by {
                assert(group_texts(entries)[before.len() + i] == own[i]);
            }
            lemma_answered_list(answers, items@);
        }
    }
}

/// With an answer to each of its requirement strings, a document is read
/// without asking.
pub proof fn lemma_answered_document(answers: Seq<AnswerView>, document: Item)
    requires
        answers_all(answers, document_texts(document)),
    ensures
        !(document_dependencies(answers, document) matches Err(HaltView::NeedsRequirement(_))),
{
    if let Some(project) = lookup(document, "project"@) {
        let required = required_texts(project);
        let optional = optional_texts(project);
        assert forall|i: int| 0 <= i < required.len() implies #[trigger] answer_to(
            answers,
            required[i],
        ) is Some by {
            assert(document_texts(document)[i] == required[i]);
        }
        assert forall|i: int| 0 <= i < optional.len() implies #[trigger] answer_to(
            answers,
            optional[i],
        ) is Some by {
            assert(document_texts(document)[required.len() + i] == optional[i]);
        }
        match lookup(project, "dependencies"@) {
            Some(Item::List(items)) => {
                lemma_answered_list(answers, items@);
            },
            Some(Item::Table(entries)) => {
                lemma_answered_table(answers, entries@);
            },
            _ => {},
        }
        match lookup(project, "optional-dependencies"@) {
            Some(Item::Table(entries)) => {
                lemma_answered_groups(answers, entries@);
            },
            _ => {},
        }
    }
}

/// Appends the requirement strings of an array to `out`.
fn add_list_texts(items: &Vec<Item>, out: &mut Vec<String>)
    ensures
        string_views(final(out)@) == string_views(old(out)@) + list_texts(items@),
{
    let ghost before = string_views(out@);
    let mut i: usize = 0;
    proof {
        assert(items@.take(0) =~= Seq::empty());
        assert(before + list_texts(items@.take(0)) == before);
    }
    while i < items.len()
        invariant
            i <= items.len(),
            string_views(out@) == before + list_texts(items@.take(i as int)),
        decreases items.len() - i,
    {
        proof {
            assert(items@.take(i + 1).drop_last() == items@.take(i as int));
            assert(items@.take(i + 1).last() == items@[i as int]);
        }
        match &items[i] {
            Item::Text(text) => {
                let own = text.clone();
                proof {
                    assert(string_views(out@.push(own)) == string_views(out@).push(own@));
                    assert(before + list_texts(items@.take(i as int)).push(text@) == (before
                        + list_texts(items@.take(i as int))).push(text@));
                }
                out.push(own);
            },
            _ => {},
        }
        i += 1;
    }
    proof {
        assert(items@.take(items.len() as int) == items@);
    }
}

/// Appends the requirement strings of a table of versions to `out`.
fn add_table_texts(entries: &Vec<Entry>, out: &mut Vec<String>)
    ensures
        string_views(final(out)@) == string_views(old(out)@) + table_texts(entries@),
{
    let ghost before = string_views(out@);
    let mut i: usize = 0;
    proof {
        assert(entries@.take(0) =~= Seq::empty());
        assert(before + table_texts(entries@.take(0)) == before);
    }
    while i < entries.len()
        invariant
            i <= entries.len(),
            string_views(out@) == before + table_texts(entries@.take(i as int)),
        decreases entries.len() - i,
    {
        proof {
            assert(entries@.take(i + 1).drop_last() == entries@.take(i as int));
            assert(entries@.take(i + 1).last() == entries@[i as int]);
        }
        match &entries[i].value {
            Item::Text(version) => {
                let own = name_with_version(entries[i].key.as_str(), version.as_str());
                proof {
                    assert(string_views(out@.push(own)) == string_views(out@).push(own@));
                    assert(before + table_texts(entries@.take(i as int)).push(own@) == (before
                        + table_texts(entries@.take(i as int))).push(own@));
                }
                out.push(own);
            },
            _ => {},
        }
        i += 1;
    }
    proof {
        assert(entries@.take(entries.len() as int) == entries@);
    }
}

/// Appends the requirement strings of a table of groups to `out`.
fn add_group_texts(entries: &Vec<Entry>, out: &mut Vec<String>)
    ensures
        string_views(final(out)@) == string_views(old(out)@) + group_texts(entries@),
{
    let ghost before = string_views(out@);
    let mut i: usize = 0;
    proof {
        assert(entries@.take(0) =~= Seq::empty());
        assert(before + group_texts(entries@.take(0)) == before);
    }
    while i < entries.len()
        invariant
            i <= entries.len(),
            string_views(out@) == before + group_texts(entries@.take(i as int)),
        decreases entries.len() - i,
    {
        proof {
            assert(entries@.take(i + 1).drop_last() == entries@.take(i as int));
            assert(entries@.take(i + 1).last() == entries@[i as int]);
        }
        match &entries[i].value {
            Item::List(items) => {
                proof {
                    assert(before + group_texts(entries@.take(i as int)) + list_texts(items@)
                        == before + (group_texts(entries@.take(i as int)) + list_texts(items@)));
                }
                add_list_texts(items, out);
            },
            _ => {},
        }
        i += 1;
    }
    proof {
        assert(entries@.take(entries.len() as int) == entries@);
    }
}

/// All the requirement strings of a document, in the order in which
/// reading it meets them.
pub fn requirement_texts(document: &Item) -> (r: Vec<String>)
    ensures
        string_views(r@) == document_texts(*document),
{
    let mut out: Vec<String> = Vec::new();
    proof {
        assert(string_views(out@) =~= Seq::empty());
    }
    match get(document, "project") {
        None => {},
        Some(project) => {
            let ghost start = string_views(out@);
            match get(project, "dependencies") {
                Some(Item::List(items)) => {
                    add_list_texts(items, &mut out);
                },
                Some(Item::Table(entries)) => {
                    add_table_texts(entries, &mut out);
                },
                _ => {},
            }
            proof {
                assert(start + required_texts(*project) == required_texts(*project));
                assert(string_views(out@) + Seq::<Seq<char>>::empty() == string_views(out@));
            }
            match get(project, "optional-dependencies") {
                Some(Item::Table(entries)) => {
                    add_group_texts(entries, &mut out);
                },
                _ => {},
            }
        },
    }
    out
}

/// The view of what reading a document gave, once nothing is asked for.
pub open spec fn settled_view(r: Result<PyProjectToml, AnalysisError>) -> Result<
    PyProjectTomlView,
    HaltView,
> {
    match r {
        Ok(project) => Ok(project@),
        Err(e) => Err(HaltView::Failed(e@)),
    }
}

/// Reads a document: asks the requirement parser about each of its
/// requirement strings, and gives what the document declares by those
/// answers.
pub fn read_table(table: &Item) -> (r: Result<PyProjectToml, AnalysisError>)
    ensures
        exists|answers: Seq<AnswerView>| #[trigger]
            are_parser_answers(answers) && settled_view(r) == document_dependencies(
                answers,
                *table,
            ),
{
    let texts = requirement_texts(table);
    let answers = answer_texts(&texts);
    proof {
        lemma_answered_document(answer_views(answers@), *table);
        assert(are_parser_answers(answer_views(answers@)));
    }
    match parse_table(table, &answers) {
        Ok(project) => Ok(project),
        Err(Halt::Failed(e)) => Err(e),
        Err(Halt::NeedsRequirement(text)) => Err(AnalysisError::DependencyParseError(text)),
    }
}

/// Reads the text of a project-metadata document: parses it, asks the
/// requirement parser about each of its requirement strings, and gives
/// what the document declares by those answers.
pub fn read_contents(contents: &str) -> (r: Result<PyProjectToml, AnalysisError>)
    ensures
        exists|answers: Seq<AnswerView>| #[trigger]
            are_parser_answers(answers) && settled_view(r) == contents_dependencies(
                answers,
                parsed_document(contents@),
            ),
{
    match parse_document(contents) {
        Some(document) => read_table(&document),
        None => {
            let none: Vec<Answer> = Vec::new();
            proof {
                assert(are_parser_answers(answer_views(none@)));
            }
            match dependencies_of_parsed(None, &none) {
                Ok(project) => Ok(project),
                Err(Halt::Failed(e)) => Err(e),
                Err(Halt::NeedsRequirement(text)) => Err(AnalysisError::DependencyParseError(text)),
            }
        },
    }
}

/// The views of a sequence of string slices.
pub open spec fn name_views(names: Seq<&str>) -> Seq<Seq<char>> {
    Seq::new(names.len(), |i: int| names[i]@)
}

/// The names of a sequence of groups.
pub open spec fn group_names(groups: Seq<ExtraGroupView>) -> Seq<Seq<char>> {
    Seq::new(groups.len(), |i: int| groups[i].name)
}

impl PyProjectToml {
    /// No two groups of optional dependencies have the same name.
    #[verifier::type_invariant]
    spec fn well_formed(&self) -> bool {
        distinct_names(group_views(self.optional_dependencies@))
    }


    /// A project that declares nothing.
    pub fn new() -> (r: Self)
        ensures
            r@.all == Seq::<DependencyView>::empty(),
            r@.required == Seq::<DependencyView>::empty(),
            r@.optional == Seq::<ExtraGroupView>::empty(),
    {
        let groups: Vec<ExtraGroup> = Vec::new();
        proof {
            assert(group_views(groups@) =~= Seq::empty());
        }
        let r = Self {
            all_dependencies: Vec::new(),
            required_dependencies: Vec::new(),
            optional_dependencies: groups,
        };
        proof {
            assert(r@.all =~= Seq::empty());
            assert(r@.required =~= Seq::empty());
            assert(r@.optional =~= Seq::empty());
        }
        r
    }

    /// All dependencies, those of every extra included.
    pub fn all_dependencies(&self) -> (r: Vec<Dependency>)
        ensures
            dependency_views(r@) == self@.all,
    {
        duplicate_dependencies(&self.all_dependencies)
    }

    /// The dependencies that are always required.
    pub fn required_dependencies(&self) -> (r: &Vec<Dependency>)
        ensures
            dependency_views(r@) == self@.required,
    {
        &self.required_dependencies
    }

    /// The names of the groups of optional dependencies, in the order of
    /// the keys; no name comes twice.
    pub fn optional_configurations(&self) -> (r: Vec<&str>)
        ensures
            name_views(r@) == group_names(self@.optional),
            distinct_names(self@.optional),
    {
        proof {
            use_type_invariant(self);
        }
        let mut names: Vec<&str> = Vec::new();
        let mut i: usize = 0;
        while i < self.optional_dependencies.len()
            invariant
                i <= self.optional_dependencies.len(),
                name_views(names@) == group_names(self@.optional).take(i as int),
            decreases self.optional_dependencies.len() - i,
        {
            let name = self.optional_dependencies[i].name.as_str();
            proof {
                let all = group_names(self@.optional);
                assert(all.take(i + 1) == all.take(i as int).push(all[i as int]));
                assert(name_views(names@.push(name)) == name_views(names@).push(name@));
            }
            names.push(name);
            i += 1;
        }
        proof {
            let all = group_names(self@.optional);
            assert(all.take(all.len() as int) == all);
        }
        names
    }

    /// The dependencies of the group `name`, if there is such a group.
    fn group(&self, name: &str) -> (r: Option<&Vec<Dependency>>)
        ensures
            match r {
                Some(deps) => dependency_views(deps@) == group_dependencies(self@.optional, name@),
                None => group_dependencies(self@.optional, name@) == Seq::<DependencyView>::empty(),
            },
    {
        let mut k: usize = 0;
        while k < self.optional_dependencies.len()
            invariant
                k <= self.optional_dependencies.len(),
                group_index(self@.optional, name@, k as int) == group_index(
                    self@.optional,
                    name@,
                    0,
                ),
            decreases self.optional_dependencies.len() - k,
        {
            assert(self@.optional[k as int].name == self.optional_dependencies@[k as int]@.name);
            if same_text(self.optional_dependencies[k].name.as_str(), name) {
                assert(self@.optional[k as int].dependencies
                    == self.optional_dependencies@[k as int]@.dependencies);
                return Some(&self.optional_dependencies[k].dependencies);
            }
            k += 1;
        }
        None
    }

    /// The dependencies of a configuration: the required ones, followed by
    /// those of each named group, in the order of the names.
    pub fn get_dependencies_for_configuration(&self, configurations: &[&str]) -> (r: Vec<Dependency>)
        ensures
            dependency_views(r@) == configuration_dependencies(self@, name_views(configurations@)),
    {
        let mut dependencies = duplicate_dependencies(&self.required_dependencies);
        let mut i: usize = 0;
        let ghost names = name_views(configurations@);
        proof {
            assert(names.take(0) =~= Seq::empty());
        }
        while i < configurations.len()
            invariant
                i <= configurations.len(),
                names == name_views(configurations@),
                dependency_views(dependencies@) == configuration_dependencies(
                    self@,
                    names.take(i as int),
                ),
            decreases configurations.len() - i,
        {
            proof {
                assert(names.take(i + 1).drop_last() == names.take(i as int));
                assert(names.take(i + 1).last() == configurations@[i as int]@);
            }
            match self.group(configurations[i]) {
                Some(deps) => {
                    extend_with_copies(&mut dependencies, deps);
                },
                None => {
                    assert(dependency_views(dependencies@) + Seq::<DependencyView>::empty()
                        == dependency_views(dependencies@));
                },
            }
            i += 1;
        }
        proof {
            assert(names.take(names.len() as int) == names);
        }
        dependencies
    }
}

} // verus!
