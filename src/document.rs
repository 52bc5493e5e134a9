//! The parts of a `toml_edit` document that the engine reads and writes.
//!
//! `Item` and `Value` are visible to the verifier as the enums they are; the
//! tables and the formatted cells are opaque and are reached through the
//! small trusted functions below.
use toml_edit::{
    Array, ArrayOfTables, Datetime, Decor, Document, Formatted, InlineTable, Item, Table, Value,
};
use vstd::prelude::*;

verus! {

#[verifier::external_type_specification]
#[verifier::external_body]
pub struct ExDocument(Document);

#[verifier::external_type_specification]
#[verifier::external_body]
pub struct ExTable(Table);

#[verifier::external_type_specification]
#[verifier::external_body]
pub struct ExInlineTable(InlineTable);

#[verifier::external_type_specification]
#[verifier::external_body]
pub struct ExArrayOfTables(ArrayOfTables);

#[verifier::external_type_specification]
#[verifier::external_body]
pub struct ExArray(Array);

#[verifier::external_type_specification]
#[verifier::external_body]
pub struct ExDatetime(Datetime);

#[verifier::external_type_specification]
#[verifier::external_body]
pub struct ExDecor(Decor);

#[verifier::external_type_specification]
#[verifier::external_body]
#[verifier::reject_recursive_types(T)]
pub struct ExFormatted<T>(Formatted<T>);

#[verifier::external_type_specification]
pub struct ExItem(Item);

#[verifier::external_type_specification]
pub struct ExValue(Value);

/// The non-empty items of a document's root table, in source order; none
/// when the root is not a table.
pub uninterp spec fn document_items(d: Document) -> Seq<(Seq<char>, Item)>;

/// The non-empty items of a table, in source order.
pub uninterp spec fn table_items(t: Table) -> Seq<(Seq<char>, Item)>;

/// The value stored under a key of an inline table, if any.
pub uninterp spec fn inline_value(t: InlineTable, key: Seq<char>) -> Option<Value>;

/// The string held by a formatted string cell.
pub uninterp spec fn formatted_text(f: Formatted<String>) -> Seq<char>;

/// The literal as written in the source (quotes included), if the cell has one.
pub uninterp spec fn formatted_raw(f: Formatted<String>) -> Option<Seq<char>>;

/// The whitespace and comments around a cell.
pub uninterp spec fn formatted_decor(f: Formatted<String>) -> Decor;

/// The item of the first entry named `key`; keys of a table are unique.
pub open spec fn lookup(items: Seq<(Seq<char>, Item)>, key: Seq<char>) -> Option<Item>
    decreases items.len(),
{
    if items.len() == 0 {
        None
    } else if items[0].0 == key {
        Some(items[0].1)
    } else {
        lookup(items.drop_first(), key)
    }
}

/// No key occurs twice.
pub open spec fn distinct_keys(items: Seq<(Seq<char>, Item)>) -> bool {
    forall|a: int, b: int| 0 <= a < b < items.len() ==> items[a].0 != items[b].0
}

/// With distinct keys, looking up the key of an entry finds that entry.
pub proof fn lemma_lookup_finds(items: Seq<(Seq<char>, Item)>, i: int)
    requires
        distinct_keys(items),
        0 <= i < items.len(),
    ensures
        lookup(items, items[i].0) == Some(items[i].1),
    decreases i,
{
    if i > 0 {
        let rest = items.drop_first();
        assert(items[0].0 != items[i].0);
        assert(rest[i - 1] == items[i]);
        lemma_lookup_finds(rest, i - 1);
    }
}

/// The table of the group `group`, if it is one.
pub open spec fn group_table(d: Document, group: Seq<char>) -> Option<Table> {
    match lookup(document_items(d), group) {
        Some(Item::Table(t)) => Some(t),
        _ => None,
    }
}

/// The value of the entry `group.key`, if it is a plain value.
pub open spec fn entry_value(d: Document, group: Seq<char>, key: Seq<char>) -> Option<Value> {
    match group_table(d, group) {
        Some(t) => match lookup(table_items(t), key) {
            Some(Item::Value(v)) => Some(v),
            _ => None,
        },
        None => None,
    }
}

/// The string cell at `group.key` (or `group.key.field` when the entry is an
/// inline table), if there is such a cell.
pub open spec fn string_cell(
    d: Document,
    group: Seq<char>,
    key: Seq<char>,
    field: Option<Seq<char>>,
) -> Option<Formatted<String>> {
    match entry_value(d, group, key) {
        Some(v) => match field {
            None => match v {
                Value::String(f) => Some(f),
                _ => None,
            },
            Some(name) => match v {
                Value::InlineTable(it) => match inline_value(it, name) {
                    Some(Value::String(f)) => Some(f),
                    _ => None,
                },
                _ => None,
            },
        },
        None => None,
    }
}

/// The text of the string cell at `group.key` (or `group.key.field`).
pub open spec fn cell_text(
    d: Document,
    group: Seq<char>,
    key: Seq<char>,
    field: Option<Seq<char>>,
) -> Option<Seq<char>> {
    match string_cell(d, group, key, field) {
        Some(f) => Some(formatted_text(f)),
        None => None,
    }
}

/// A character that a version literal may hold without escaping.
pub open spec fn plain_char(c: char) -> bool {
    ('0' <= c <= '9') || ('a' <= c <= 'z') || ('A' <= c <= 'Z') || c == '.' || c == '-' || c
        == '+'
}

/// `raw` is a quoted TOML string, in single or double quotes, whose content
/// needs no escaping.
pub open spec fn plain_literal(raw: Seq<char>) -> bool {
    &&& raw.len() >= 2
    &&& raw[0] == raw[raw.len() - 1]
    &&& (raw[0] == '\'' || raw[0] == '"')
    &&& forall|i: int| 1 <= i < raw.len() - 1 ==> plain_char(#[trigger] raw[i])
}

/// The string a plain literal stands for.
pub open spec fn literal_content(raw: Seq<char>) -> Seq<char> {
    raw.subrange(1, raw.len() - 1)
}

/// The keys of a list of entries, in order.
pub open spec fn keys_of(items: Seq<(Seq<char>, Item)>) -> Seq<Seq<char>> {
    items.map_values(|e: (Seq<char>, Item)| e.0)
}

/// `after` is `before` with only the string cell at `group.key` (or
/// `group.key.field`) rewritten to the literal `raw`: every other group and
/// entry, every other inline-table field, and the order of keys are as they
/// were, and the cell keeps its surrounding whitespace and comments.
pub open spec fn cell_rewritten(
    before: Document,
    after: Document,
    group: Seq<char>,
    key: Seq<char>,
    field: Option<Seq<char>>,
    raw: Seq<char>,
) -> bool {
    &&& keys_of(document_items(after)) == keys_of(document_items(before))
    &&& forall|g: Seq<char>|
        g != group ==> #[trigger] lookup(document_items(after), g) == lookup(
            document_items(before),
            g,
        )
    &&& group_table(before, group) matches Some(t1) && group_table(after, group) matches Some(t2)
        && keys_of(table_items(t2)) == keys_of(table_items(t1)) && forall|k: Seq<char>|
        k != key ==> #[trigger] lookup(table_items(t2), k) == lookup(table_items(t1), k)
    &&& field matches Some(name) ==> (entry_value(before, group, key) matches Some(
        Value::InlineTable(it1),
    ) && entry_value(after, group, key) matches Some(Value::InlineTable(it2)) && forall|
        n: Seq<char>,
    | n != name ==> #[trigger] inline_value(it2, n) == inline_value(it1, n))
    &&& string_cell(before, group, key, field) matches Some(f1) && string_cell(
        after,
        group,
        key,
        field,
    ) matches Some(f2) && formatted_text(f2) == literal_content(raw) && formatted_raw(f2)
        == Some(raw) && formatted_decor(f2) == formatted_decor(f1)
    &&& forall|g: Seq<char>, k: Seq<char>, f: Option<Seq<char>>|
        !(g == group && k == key && f == field) ==> #[trigger] cell_text(after, g, k, f)
            == cell_text(before, g, k, f)
}

/// Relies on `Document::as_item`, `Item::as_table` and `Table::get`: the
/// item under `key` in the root table, skipping empty items.
#[verifier::external_body]
pub(crate) fn document_get<'a>(d: &'a Document, key: &str) -> (r: Option<&'a Item>)
    ensures
        match r {
            Some(i) => lookup(document_items(*d), key@) == Some(*i),
            None => lookup(document_items(*d), key@) is None,
        },
{
    d.as_item().as_table().and_then(|t| t.get(key))
}

/// Relies on `Table::iter`: the non-empty items of the table, in order; the
/// table keeps its items in an `IndexMap`, so no key comes twice.
#[verifier::external_body]
pub(crate) fn table_entries<'a>(t: &'a Table) -> (r: Vec<(String, &'a Item)>)
    ensures
        r@.len() == table_items(*t).len(),
        forall|a: int, b: int| 0 <= a < b < r@.len() ==> r@[a].0@ != r@[b].0@,
        forall|i: int|
            0 <= i < r@.len() ==> (#[trigger] r@[i]).0@ == table_items(*t)[i].0 && *r@[i].1
                == table_items(*t)[i].1,
{
    t.iter().map(|(k, i)| (k.to_string(), i)).collect()
}

/// Relies on `InlineTable::get`: the value under `key`, if any.
#[verifier::external_body]
pub(crate) fn inline_get<'a>(t: &'a InlineTable, key: &str) -> (r: Option<&'a Value>)
    ensures
        match r {
            Some(v) => inline_value(*t, key@) == Some(*v),
            None => inline_value(*t, key@) is None,
        },
{
    t.get(key)
}

/// Relies on `Formatted::value`: the string a string cell holds.
#[verifier::external_body]
pub(crate) fn formatted_string(f: &Formatted<String>) -> (r: String)
    ensures
        r@ == formatted_text(*f),
{
    f.value().clone()
}

/// Relies on `Formatted::as_repr`, `Repr::as_raw` and `RawString::as_str`:
/// the literal as written, quotes included. A parsed document holds it as
/// text, not as a span.
#[verifier::external_body]
pub(crate) fn formatted_literal(f: &Formatted<String>) -> (r: Option<String>)
    ensures
        match r {
            Some(s) => formatted_raw(*f) == Some(s@),
            None => formatted_raw(*f) is None,
        },
{
    f.as_repr().and_then(|r| r.as_raw().as_str()).map(|s| s.to_string())
}

/// Relies on `Document::as_item_mut`, `Item::as_table_mut`, `Table::get_mut`,
/// `Value`'s `FromStr` (which keeps the literal as written and no decor) and
/// `Formatted::decor`/`decor_mut`: puts the literal `raw` into the string
/// cell `group.key`, keeping the cell's surrounding whitespace and comments.
/// Where there is no such string cell, the document is left as it is.
#[verifier::external_body]
pub(crate) fn write_entry_text(d: &mut Document, group: &str, key: &str, raw: &str)
    requires
        plain_literal(raw@),
    ensures
        cell_text(*old(d), group@, key@, None) is None ==> *final(d) == *old(d),
        cell_text(*old(d), group@, key@, None) is Some ==> cell_rewritten(
            *old(d),
            *final(d),
            group@,
            key@,
            None,
            raw@,
        ),
        string_cell(*old(d), group@, key@, None) matches Some(f1) ==> string_cell(
            *final(d),
            group@,
            key@,
            None,
        ) matches Some(f2) && formatted_decor(f2) == formatted_decor(f1),
{
    let root = d.as_item_mut().as_table_mut();
    let group = root.and_then(|t| t.get_mut(group)).and_then(Item::as_table_mut);
    if let (Some(Item::Value(Value::String(f))), Ok(Value::String(new))) =
        (group.and_then(|t| t.get_mut(key)), raw.parse::<Value>())
    {
        let decor = f.decor().clone();
        *f = new;
        *f.decor_mut() = decor;
    }
}

/// Relies on the same calls as `write_entry_text`, and on
/// `Item::as_value_mut`, `Value::as_inline_table_mut` and
/// `InlineTable::get_mut`: puts the literal `raw` into the string cell
/// `group.key.field` of an inline table.
#[verifier::external_body]
pub(crate) fn write_field_text(d: &mut Document, group: &str, key: &str, field: &str, raw: &str)
    requires
        plain_literal(raw@),
    ensures
        cell_text(*old(d), group@, key@, Some(field@)) is None ==> *final(d) == *old(d),
        cell_text(*old(d), group@, key@, Some(field@)) is Some ==> cell_rewritten(
            *old(d),
            *final(d),
            group@,
            key@,
            Some(field@),
            raw@,
        ),
        string_cell(*old(d), group@, key@, Some(field@)) matches Some(f1) ==> string_cell(
            *final(d),
            group@,
            key@,
            Some(field@),
        ) matches Some(f2) && formatted_decor(f2) == formatted_decor(f1),
{
    let root = d.as_item_mut().as_table_mut();
    let group = root.and_then(|t| t.get_mut(group)).and_then(Item::as_table_mut);
    let entry = group.and_then(|t| t.get_mut(key)).and_then(Item::as_value_mut);
    let inline = entry.and_then(Value::as_inline_table_mut);
    if let (Some(Value::String(f)), Ok(Value::String(new))) =
        (inline.and_then(|t| t.get_mut(field)), raw.parse::<Value>())
    {
        let decor = f.decor().clone();
        *f = new;
        *f.decor_mut() = decor;
    }
}

} // verus!
