//! Locating a dependency group in a document and classifying its entries.
use crate::document::{
    distinct_keys, document_get, document_items, formatted_literal, formatted_raw, formatted_string,
    formatted_text, inline_get, inline_value, lemma_lookup_finds, lookup, table_entries,
    table_items,
};
use crate::handle::{CellPath, HandleView, Version};
use crate::version::{parsed_version, SemVerView};
use toml_edit::{Document, Formatted, Item, Value};
use vstd::prelude::*;

verus! {

/// Which dependency table to work on.
#[derive(Debug, Clone, Copy, PartialEq, Eq, Structural)]
pub enum DependencyType {
    Standard,
    Dev,
}

impl DependencyType {
    pub open spec fn table_name(self) -> Seq<char> {
        match self {
            DependencyType::Standard => "dependencies"@,
            DependencyType::Dev => "dev-dependencies"@,
        }
    }

    /// The name of the table this selector stands for.
    pub fn table(&self) -> (r: &'static str)
        ensures
            r@ == self.table_name(),
    {
        match self {
            DependencyType::Standard => "dependencies",
            DependencyType::Dev => "dev-dependencies",
        }
    }
}

/// Why a dependency group could not be read.
#[derive(Debug)]
pub enum FetchDependenciesError {
    /// The document has no table of that name.
    MissingDependencyGroup,
    /// The group is there but is not a table.
    UnexpectedGroupShape { actual_kind: &'static str },
    /// An entry is neither a version string nor an inline table.
    UnexpectedEntryShape { key: String, actual_kind: &'static str },
    /// An entry is written as a full sub-table, which is not supported.
    UnsupportedEntryShape { key: String },
    /// An inline-table entry has no `version` field.
    MissingVersionField { key: String },
    /// The `version` field of an inline-table entry is not a string.
    UnexpectedVersionFieldType { key: String, actual_kind: &'static str },
    /// The version string is not a semantic version.
    SemverParseFailure { key: String, cause: String },
}

/// What a `FetchDependenciesError` denotes.
pub enum FetchFailure {
    MissingDependencyGroup,
    UnexpectedGroupShape { actual_kind: Seq<char> },
    UnexpectedEntryShape { key: Seq<char>, actual_kind: Seq<char> },
    UnsupportedEntryShape { key: Seq<char> },
    MissingVersionField { key: Seq<char> },
    UnexpectedVersionFieldType { key: Seq<char>, actual_kind: Seq<char> },
    SemverParseFailure { key: Seq<char>, cause: Seq<char> },
}

impl View for FetchDependenciesError {
    type V = FetchFailure;

    open spec fn view(&self) -> FetchFailure {
        match self {
            FetchDependenciesError::MissingDependencyGroup => FetchFailure::MissingDependencyGroup,
            FetchDependenciesError::UnexpectedGroupShape { actual_kind } => {
                FetchFailure::UnexpectedGroupShape { actual_kind: actual_kind@ }
            },
            FetchDependenciesError::UnexpectedEntryShape { key, actual_kind } => {
                FetchFailure::UnexpectedEntryShape { key: key@, actual_kind: actual_kind@ }
            },
            FetchDependenciesError::UnsupportedEntryShape { key } => {
                FetchFailure::UnsupportedEntryShape { key: key@ }
            },
            FetchDependenciesError::MissingVersionField { key } => {
                FetchFailure::MissingVersionField { key: key@ }
            },
            FetchDependenciesError::UnexpectedVersionFieldType { key, actual_kind } => {
                FetchFailure::UnexpectedVersionFieldType { key: key@, actual_kind: actual_kind@ }
            },
            FetchDependenciesError::SemverParseFailure { key, cause } => {
                FetchFailure::SemverParseFailure { key: key@, cause: cause@ }
            },
        }
    }
}

/// One dependency of a group: its name and a handle on its version.
#[derive(Debug)]
pub struct Dependency {
    pub name: String,
    pub version: Version,
}

pub open spec fn value_type_name(v: Value) -> Seq<char> {
    match v {
        Value::String(_) => "String"@,
        Value::Integer(_) => "Integer"@,
        Value::Float(_) => "Float"@,
        Value::Boolean(_) => "Boolean"@,
        Value::Datetime(_) => "Datetime"@,
        Value::Array(_) => "Array"@,
        Value::InlineTable(_) => "InlineTable"@,
    }
}

pub open spec fn item_type_name(i: Item) -> Seq<char> {
    match i {
        Item::None => "None"@,
        Item::Value(_) => "Value"@,
        Item::Table(_) => "Table"@,
        Item::ArrayOfTables(_) => "ArrayOfTables"@,
    }
}

/// The name of a value's kind, as errors report it.
pub fn value_to_type(value: &Value) -> (r: &'static str)
    ensures
        r@ == value_type_name(*value),
{
    match value {
        Value::String(_) => "String",
        Value::Integer(_) => "Integer",
        Value::Float(_) => "Float",
        Value::Boolean(_) => "Boolean",
        Value::Datetime(_) => "Datetime",
        Value::Array(_) => "Array",
        Value::InlineTable(_) => "InlineTable",
    }
}

/// The name of an item's kind, as errors report it.
pub fn item_to_type(item: &Item) -> (r: &'static str)
    ensures
        r@ == item_type_name(*item),
{
    match item {
        Item::None => "None",
        Item::Value(_) => "Value",
        Item::Table(_) => "Table",
        Item::ArrayOfTables(_) => "ArrayOfTables",
    }
}

/// The field of an inline-table entry that holds its version.
pub open spec fn version_field() -> Seq<char> {
    "version"@
}

/// The handle that a fresh fetch gives for a cell holding version `v`.
pub open spec fn fresh_handle(cell: CellPath, v: SemVerView, single_quoted: bool) -> HandleView {
    HandleView { cell, current: v, original: v, single_quoted }
}

/// The literal as written starts with a single quote.
pub open spec fn single_quoted(raw: Option<Seq<char>>) -> bool {
    raw matches Some(r) && r.len() > 0 && r[0] == '\''
}

/// Whether the cell's literal is written in single quotes.
fn is_single_quoted(f: &Formatted<String>) -> (r: bool)
    ensures
        r == single_quoted(formatted_raw(*f)),
{
    match formatted_literal(f) {
        Some(raw) => {
            let s = raw.as_str();
            if s.unicode_len() > 0 {
                s.get_char(0) == '\''
            } else {
                false
            }
        },
        None => false,
    }
}

/// What one entry of `group` gives: a clean handle on its version, or the
/// error it is rejected with.
pub open spec fn entry_result(group: Seq<char>, key: Seq<char>, item: Item) -> Result<
    HandleView,
    FetchFailure,
> {
    match item {
        Item::Value(Value::String(f)) => match parsed_version(formatted_text(f)) {
            Ok(v) => Ok(
                fresh_handle(
                    CellPath { group, key, field: None },
                    v,
                    single_quoted(formatted_raw(f)),
                ),
            ),
            Err(cause) => Err(FetchFailure::SemverParseFailure { key, cause }),
        },
        Item::Value(Value::InlineTable(t)) => match inline_value(t, version_field()) {
            None => Err(FetchFailure::MissingVersionField { key }),
            Some(Value::String(f)) => match parsed_version(formatted_text(f)) {
                Ok(v) => Ok(
                    fresh_handle(
                        CellPath { group, key, field: Some(version_field()) },
                        v,
                        single_quoted(formatted_raw(f)),
                    ),
                ),
                Err(cause) => Err(FetchFailure::SemverParseFailure { key, cause }),
            },
            Some(other) => Err(
                FetchFailure::UnexpectedVersionFieldType { key, actual_kind: value_type_name(other) },
            ),
        },
        Item::Value(other) => Err(
            FetchFailure::UnexpectedEntryShape { key, actual_kind: value_type_name(other) },
        ),
        Item::Table(_) => Err(FetchFailure::UnsupportedEntryShape { key }),
        other => Err(FetchFailure::UnexpectedEntryShape { key, actual_kind: item_type_name(other) }),
    }
}

/// The entries of a group in order, or the error of the first entry that is
/// rejected.
pub open spec fn group_result(group: Seq<char>, items: Seq<(Seq<char>, Item)>) -> Result<
    Seq<(Seq<char>, HandleView)>,
    FetchFailure,
>
    decreases items.len(),
{
    if items.len() == 0 {
        Ok(Seq::empty())
    } else {
        match group_result(group, items.drop_last()) {
            Err(e) => Err(e),
            Ok(done) => match entry_result(group, items.last().0, items.last().1) {
                Ok(h) => Ok(done.push((items.last().0, h))),
                Err(e) => Err(e),
            },
        }
    }
}

/// What fetching the group `ty` of `d` gives.
pub open spec fn fetch_result(d: Document, ty: DependencyType) -> Result<
    Seq<(Seq<char>, HandleView)>,
    FetchFailure,
> {
    match lookup(document_items(d), ty.table_name()) {
        None => Err(FetchFailure::MissingDependencyGroup),
        Some(Item::Table(t)) => group_result(ty.table_name(), table_items(t)),
        Some(other) => Err(FetchFailure::UnexpectedGroupShape { actual_kind: item_type_name(other) }),
    }
}

/// The dependencies agree with the entries `s`, one for one and in order.
pub open spec fn lists_entries(deps: Seq<Dependency>, s: Seq<(Seq<char>, HandleView)>) -> bool {
    &&& deps.len() == s.len()
    &&& forall|i: int|
        0 <= i < deps.len() ==> {
            &&& (#[trigger] deps[i]).name@ == s[i].0
            &&& deps[i].version@ == s[i].1
            &&& deps[i].version.wf()
        }
}

fn version_entry(
    group: &str,
    key: String,
    field: Option<String>,
    single: bool,
    text: &str,
) -> (r: Result<
    Dependency,
    FetchDependenciesError,
>)
    ensures
        match r {
            Ok(dep) => {
                &&& dep.name@ == key@
                &&& dep.version.wf()
                &&& parsed_version(text@) == Ok::<SemVerView, Seq<char>>(dep.version@.current)
                &&& dep.version@ == fresh_handle(
                    CellPath {
                        group: group@,
                        key: key@,
                        field: match field {
                            Some(f) => Some(f@),
                            None => None,
                        },
                    },
                    dep.version@.current,
                    single,
                )
            },
            Err(e) => parsed_version(text@) matches Err(cause) && e@
                == FetchFailure::SemverParseFailure { key: key@, cause },
        },
{
    let name = key.clone();
    match Version::new(group.to_string(), key, field, single, text) {
        Ok(version) => Ok(Dependency { name, version }),
        Err(cause) => Err(FetchDependenciesError::SemverParseFailure { key: name, cause }),
    }
}

/// Classifies one entry of `group` and builds its dependency.
fn classify_entry(group: &str, key: String, item: &Item) -> (r: Result<
    Dependency,
    FetchDependenciesError,
>)
    ensures
        match (r, entry_result(group@, key@, *item)) {
            (Ok(dep), Ok(h)) => dep.name@ == key@ && dep.version@ == h && dep.version.wf(),
            (Err(e), Err(f)) => e@ == f,
            _ => false,
        },
{
    match item {
        Item::Value(Value::String(f)) => {
            let text = formatted_string(f);
            version_entry(group, key, None, is_single_quoted(f), text.as_str())
        },
        Item::Value(Value::InlineTable(t)) => {
            let field = "version";
            match inline_get(t, field) {
                None => Err(FetchDependenciesError::MissingVersionField { key }),
                Some(Value::String(f)) => {
                    let text = formatted_string(f);
                    let single = is_single_quoted(f);
                    version_entry(group, key, Some(field.to_string()), single, text.as_str())
                },
                Some(other) => Err(
                    FetchDependenciesError::UnexpectedVersionFieldType {
                        key,
                        actual_kind: value_to_type(other),
                    },
                ),
            }
        },
        Item::Value(other) => Err(
            FetchDependenciesError::UnexpectedEntryShape { key, actual_kind: value_to_type(other) },
        ),
        Item::Table(_) => Err(FetchDependenciesError::UnsupportedEntryShape { key }),
        other => Err(
            FetchDependenciesError::UnexpectedEntryShape { key, actual_kind: item_to_type(other) },
        ),
    }
}

/// Reads every dependency of the group `ty`, in document order, each with a
/// clean handle on its version cell. The first entry that cannot be read
/// fails the whole fetch.
pub fn fetch_dependencies(document: &Document, ty: DependencyType) -> (r: Result<
    Vec<Dependency>,
    FetchDependenciesError,
>)
    ensures
        match (r, fetch_result(*document, ty)) {
            (Ok(deps), Ok(s)) => lists_entries(deps@, s),
            (Err(e), Err(f)) => e@ == f,
            _ => false,
        },
        r matches Ok(deps) ==> forall|i: int|
            0 <= i < deps@.len() ==> (#[trigger] deps@[i]).version@.agrees_with(*document),
        r matches Ok(deps) ==> forall|i: int, j: int|
            0 <= i < j < deps@.len() ==> #[trigger] deps@[i].name@ != #[trigger] deps@[j].name@,
{
    let group = ty.table();
    let found = document_get(document, group);
    let table = match found {
        None => return Err(FetchDependenciesError::MissingDependencyGroup),
        Some(Item::Table(t)) => t,
        Some(other) => {
            return Err(
                FetchDependenciesError::UnexpectedGroupShape { actual_kind: item_to_type(other) },
            )
        },
    };
    assert(lookup(document_items(*document), group@) == Some(Item::Table(*table)));
    let entries = table_entries(table);
    let ghost items = table_items(*table);
    assert(distinct_keys(items)) by {
        assert forall|a: int, b: int| 0 <= a < b < items.len() implies items[a].0 != items[b].0 by {
            assert(entries@[a].0@ != entries@[b].0@);
        }
    }
    let mut deps: Vec<Dependency> = Vec::new();
    let mut i: usize = 0;
    while i < entries.len()
        invariant
            0 <= i <= entries@.len(),
            entries@.len() == items.len(),
            fetch_result(*document, ty) == group_result(group@, items),
            forall|j: int|
                0 <= j < entries@.len() ==> (#[trigger] entries@[j]).0@ == items[j].0
                    && *entries@[j].1 == items[j].1,
            group_result(group@, items.take(i as int)) matches Ok(s) && lists_entries(deps@, s),
            distinct_keys(items),
        decreases entries.len() - i,
    {
        let ghost done = items.take(i as int);
        assert(items.take(i + 1).drop_last() =~= done);
        let key = entries[i].0.clone();
        match classify_entry(group, key, entries[i].1) {
            Ok(dep) => {
                assert(items.take(i + 1).last() == items[i as int]);
                deps.push(dep);
            },
            Err(e) => {
                assert(items.take(i + 1).last() == items[i as int]);
                assert(group_result(group@, items.take(i + 1)) == Err::<
                    Seq<(Seq<char>, HandleView)>,
                    FetchFailure,
                >(e@));
                proof {
                    lemma_failure_persists(group@, items, i as int + 1);
                }
                assert(items.take(items.len() as int) =~= items);
                return Err(e);
            },
        }
        i = i + 1;
    }
    assert(items.take(items.len() as int) =~= items);
    proof {
        lemma_fetched_handles_agree(*document, ty);
    }
    Ok(deps)
}

/// A successful group lists one entry per item, in order, each as its item
/// classifies it.
proof fn lemma_group_entries(group: Seq<char>, items: Seq<(Seq<char>, Item)>)
    requires
        group_result(group, items) is Ok,
    ensures
        group_result(group, items) matches Ok(s) && s.len() == items.len() && forall|i: int|
            0 <= i < s.len() ==> (#[trigger] s[i]).0 == items[i].0 && entry_result(
                group,
                items[i].0,
                items[i].1,
            ) == Ok::<HandleView, FetchFailure>(s[i].1),
    decreases items.len(),
{
    if items.len() > 0 {
        lemma_group_entries(group, items.drop_last());
    }
}

/// Every dependency that a successful fetch lists is read from a cell of the
/// document that holds the text of its version, bare (`name = "X.Y.Z"`) or
/// in an inline table (`name = { version = "X.Y.Z" }`) alike; the handle is
/// clean, and no two dependencies share a cell.
pub proof fn lemma_fetched_handles_agree(d: Document, ty: DependencyType)
    requires
        fetch_result(d, ty) is Ok,
        lookup(document_items(d), ty.table_name()) matches Some(Item::Table(t)) ==> distinct_keys(
            table_items(t),
        ),
    ensures
        fetch_result(d, ty) matches Ok(s) && forall|i: int|
            0 <= i < s.len() ==> {
                &&& (#[trigger] s[i]).1.agrees_with(d)
                &&& !s[i].1.dirty()
                &&& s[i].1.cell.group == ty.table_name()
                &&& s[i].1.cell.key == s[i].0
            },
        fetch_result(d, ty) matches Ok(s) && forall|i: int, j: int|
            0 <= i < j < s.len() ==> #[trigger] s[i].0 != #[trigger] s[j].0,
{
    let g = ty.table_name();
    if let Some(Item::Table(t)) = lookup(document_items(d), g) {
        let items = table_items(t);
        lemma_group_entries(g, items);
        let s = group_result(g, items)->Ok_0;
        assert forall|i: int| 0 <= i < s.len() implies {
            &&& (#[trigger] s[i]).1.agrees_with(d)
            &&& !s[i].1.dirty()
            &&& s[i].1.cell.group == g
            &&& s[i].1.cell.key == s[i].0
        } by {
            lemma_lookup_finds(items, i);
        }
    }
}

/// Once a prefix of the entries fails, every longer prefix fails the same way.
proof fn lemma_failure_persists(group: Seq<char>, items: Seq<(Seq<char>, Item)>, n: int)
    requires
        0 < n <= items.len(),
        group_result(group, items.take(n)) is Err,
    ensures
        group_result(group, items.take(items.len() as int)) == group_result(group, items.take(n)),
    decreases items.len() - n,
{
    if n < items.len() {
        assert(items.take(n + 1).drop_last() =~= items.take(n));
        lemma_failure_persists(group, items, n + 1);
    }
}

} // verus!
