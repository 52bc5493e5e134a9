//! A parsed version bound to the document cell it was read from.
//!
//! The handle tracks whether its version has moved away from the one that was
//! parsed, and writes the new text back into the cell only then, once, when it
//! is released.
use crate::document::{
    cell_rewritten, cell_text, document_items, group_table, literal_content, lookup, plain_literal,
    table_items, write_entry_text, write_field_text,
};
use crate::version::{
    lemma_version_text_chars, minimal, parsed_version, version_text, SemVer, SemVerView,
};
use toml_edit::Document;
use vstd::prelude::*;

verus! {

/// Where a version string lives: `group.key`, or `group.key.field` for an
/// inline table.
pub struct CellPath {
    pub group: Seq<char>,
    pub key: Seq<char>,
    pub field: Option<Seq<char>>,
}

/// What a handle denotes: its cell, the version it holds now, the version
/// the cell holds as far as the handle knows, and whether the cell's literal
/// is written in single quotes.
pub struct HandleView {
    pub cell: CellPath,
    pub current: SemVerView,
    pub original: SemVerView,
    pub single_quoted: bool,
}

impl HandleView {
    /// The handle holds a version that its cell does not.
    pub open spec fn dirty(self) -> bool {
        self.current != self.original
    }

    pub open spec fn set(self, v: SemVerView) -> HandleView {
        HandleView { current: v, ..self }
    }

    pub open spec fn released(self) -> HandleView {
        HandleView { original: self.current, ..self }
    }

    /// The literal a release writes: the canonical text of the held
    /// version, in the quotes the cell was written with.
    pub open spec fn literal(self) -> Seq<char> {
        let q = if self.single_quoted {
            '\''
        } else {
            '"'
        };
        seq![q] + version_text(self.current) + seq![q]
    }

    /// The text of the handle's cell in `d`.
    pub open spec fn text_in(self, d: Document) -> Option<Seq<char>> {
        cell_text(d, self.cell.group, self.cell.key, self.cell.field)
    }

    /// The handle agrees with `d`: its cell holds the text its original
    /// version was parsed from.
    pub open spec fn agrees_with(self, d: Document) -> bool {
        &&& self.text_in(d) is Some
        &&& parsed_version(self.text_in(d).unwrap()) == Ok::<SemVerView, Seq<char>>(self.original)
    }

    /// How releasing the handle changes the document `before` into `after`.
    pub open spec fn release_effect(self, before: Document, after: Document) -> bool {
        if !self.dirty() || self.text_in(before) is None {
            after == before
        } else {
            &&& self.text_in(after) == Some(version_text(self.current))
            &&& cell_rewritten(
                before,
                after,
                self.cell.group,
                self.cell.key,
                self.cell.field,
                self.literal(),
            )
        }
    }
}

/// A semantic version read from a cell of a document.
#[derive(Debug)]
pub struct Version {
    group: String,
    key: String,
    field: Option<String>,
    version: SemVer,
    parsed: SemVer,
    changed: bool,
    single_quoted: bool,
}

impl View for Version {
    type V = HandleView;

    closed spec fn view(&self) -> HandleView {
        HandleView {
            cell: CellPath {
                group: self.group@,
                key: self.key@,
                field: match self.field {
                    Some(f) => Some(f@),
                    None => None,
                },
            },
            current: self.version@,
            original: self.parsed@,
            single_quoted: self.single_quoted,
        }
    }
}

impl Version {
    /// The dirty flag agrees with the versions, and the held version is
    /// well-formed.
    pub closed spec fn wf(&self) -> bool {
        &&& self.changed == (self.version@ != self.parsed@)
        &&& self.version@.valid()
    }

    /// Parses `text`, the content of the cell `group.key` (or
    /// `group.key.field`), into a clean handle on that cell.
    pub fn new(
        group: String,
        key: String,
        field: Option<String>,
        single_quoted: bool,
        text: &str,
    ) -> (r: Result<
        Version,
        String,
    >)
        ensures
            match r {
                Ok(h) => {
                    &&& h.wf()
                    &&& parsed_version(text@) == Ok::<SemVerView, Seq<char>>(h@.current)
                    &&& h@.original == h@.current
                    &&& h@.single_quoted == single_quoted
                    &&& h@.cell == (CellPath {
                        group: group@,
                        key: key@,
                        field: match field {
                            Some(f) => Some(f@),
                            None => None,
                        },
                    })
                },
                Err(e) => parsed_version(text@) == Err::<SemVerView, Seq<char>>(e@),
            },
    {
        match SemVer::parse(text) {
            Ok(v) => {
                let parsed = v.duplicate();
                Ok(Version { group, key, field, version: v, parsed, changed: false, single_quoted })
            },
            Err(e) => Err(e),
        }
    }

    /// The version the handle holds now.
    pub fn get(&self) -> (r: &SemVer)
        ensures
            r@ == self@.current,
    {
        &self.version
    }

    /// Whether the handle holds a version that its cell does not.
    pub fn is_dirty(&self) -> (r: bool)
        requires
            self.wf(),
        ensures
            r == self@.dirty(),
    {
        self.changed
    }

    /// Replaces the held version; setting the version it already holds
    /// changes nothing.
    pub fn set(&mut self, version: SemVer)
        requires
            old(self).wf(),
            version@.valid(),
        ensures
            final(self).wf(),
            final(self)@ == old(self)@.set(version@),
            version@ == old(self)@.current ==> *final(self) == *old(self),
    {
        if !version.same_as(&self.version) {
            self.changed = !version.same_as(&self.parsed);
            self.version = version;
        }
    }

    /// Applies the minimal-version rule to the held version.
    pub fn minimize(&mut self)
        requires
            old(self).wf(),
        ensures
            final(self).wf(),
            final(self)@ == old(self)@.set(minimal(old(self)@.current)),
    {
        let v = self.version.minimal();
        self.set(v);
    }

    /// Writes the held version into its cell if it differs from the one
    /// parsed; afterwards the handle is clean, and a second release does
    /// nothing.
    pub fn release(&mut self, document: &mut Document)
        requires
            old(self).wf(),
        ensures
            final(self).wf(),
            final(self)@ == old(self)@.released(),
            old(self)@.release_effect(*old(document), *final(document)),
    {
        if self.changed {
            let text = self.version.to_text();
            let quote = if self.single_quoted {
                "'"
            } else {
                "\""
            };
            proof {
                reveal_strlit("'");
                reveal_strlit("\"");
                lemma_version_text_chars(self.version@);
            }
            let mut raw = String::new();
            raw.append(quote);
            raw.append(text.as_str());
            raw.append(quote);
            assert(raw@ =~= self@.literal());
            assert(literal_content(raw@) =~= text@);
            assert(plain_literal(raw@)) by {
                assert forall|i: int| 1 <= i < raw@.len() - 1 implies crate::document::plain_char(
                    #[trigger] raw@[i],
                ) by {
                    assert(raw@[i] == text@[i - 1]);
                }
            }
            match &self.field {
                Some(f) => write_field_text(
                    document,
                    self.group.as_str(),
                    self.key.as_str(),
                    f.as_str(),
                    raw.as_str(),
                ),
                None => write_entry_text(
                    document,
                    self.group.as_str(),
                    self.key.as_str(),
                    raw.as_str(),
                ),
            }
            self.parsed = self.version.duplicate();
            self.changed = false;
        }
    }
}

/// Setting the version a clean handle already holds leaves it clean, and
/// releasing it then leaves the document as it was.
pub proof fn lemma_set_same_is_noop(h: HandleView, before: Document, after: Document)
    requires
        !h.dirty(),
        h.set(h.current).release_effect(before, after),
    ensures
        !h.set(h.current).dirty(),
        after == before,
{
}

/// After setting `v` and releasing, the cell holds text that stands for `v`:
/// either the canonical text of `v`, or, where `v` is the version the cell
/// already held, that cell's text unchanged, which parses to `v`.
pub proof fn lemma_set_release_round_trip(
    h: HandleView,
    v: SemVerView,
    before: Document,
    after: Document,
)
    requires
        h.agrees_with(before),
        h.set(v).release_effect(before, after),
    ensures
        h.set(v).dirty() ==> h.text_in(after) == Some(version_text(v)),
        !h.set(v).dirty() ==> h.text_in(after) == h.text_in(before) && parsed_version(
            h.text_in(after).unwrap(),
        ) == Ok::<SemVerView, Seq<char>>(v),
{
}

/// A clean handle whose version is already minimal: applying the rule and
/// releasing leaves the document byte for byte as it was.
pub proof fn lemma_minimal_version_keeps_document(h: HandleView, before: Document, after: Document)
    requires
        !h.dirty(),
        minimal(h.current) == h.current,
        h.set(minimal(h.current)).release_effect(before, after),
    ensures
        after == before,
{
}

/// A release leaves every entry but the handle's own as it was, in every
/// group, formatting included.
pub proof fn lemma_release_keeps_other_entries(
    h: HandleView,
    group: Seq<char>,
    key: Seq<char>,
    before: Document,
    after: Document,
)
    requires
        !(group == h.cell.group && key == h.cell.key),
        h.release_effect(before, after),
    ensures
        match (group_table(after, group), group_table(before, group)) {
            (Some(t2), Some(t1)) => lookup(table_items(t2), key) == lookup(table_items(t1), key),
            (None, None) => true,
            _ => false,
        },
        group != h.cell.group ==> lookup(document_items(after), group) == lookup(
            document_items(before),
            group,
        ),
{
    if h.dirty() && h.text_in(before) is Some && group != h.cell.group {
        assert(lookup(document_items(after), group) == lookup(document_items(before), group));
    }
}

/// Every other cell of the document is left as it was by a release.
pub proof fn lemma_release_keeps_other_cells(
    h: HandleView,
    other: CellPath,
    before: Document,
    after: Document,
)
    requires
        other != h.cell,
        h.release_effect(before, after),
    ensures
        cell_text(after, other.group, other.key, other.field) == cell_text(
            before,
            other.group,
            other.key,
            other.field,
        ),
{
}

} // verus!
