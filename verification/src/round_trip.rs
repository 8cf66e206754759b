//! What a document holds apart from its comments, and what reading a written
//! document back yields. For documents without repeated sections, and without tables
//! and date-times inside values, the second reading holds the same sections, field
//! names and values wherever the parser reads the written text as the tree it stands
//! for; whether it does so for a given text is tested by `round_trip_keeps_triples`.

use vstd::prelude::*;
use crate::document::{section_views, ConfigSection, FieldView, SectionView};
use crate::extract::{array_fields, document_sections, is_array_of_tables};
use crate::manager::ConfigManager;
use crate::parser::toml_document;
use crate::reconstruct::reconstructed;
use crate::text::same_text;
use crate::value::{ConfigValue, ConfigValueView, TableEntryView};

verus! {

/// What the sections of a document hold, one triple for each field: the name of the
/// section, the name of the field and its value.
pub open spec fn triples(sections: Seq<SectionView>) -> Set<(Seq<char>, Seq<char>, ConfigValueView)> {
    Set::new(
        |t: (Seq<char>, Seq<char>, ConfigValueView)|
            exists|i: int, j: int|
                0 <= i < sections.len() && 0 <= j < sections[i].fields.len() && t == (
                    sections[i].name,
                    (#[trigger] sections[i].fields[j]).name,
                    sections[i].fields[j].value,
                ),
    )
}

/// Two sequences of fields agree in the names and values of their fields, in order.
pub open spec fn same_fields(a: Seq<FieldView>, b: Seq<FieldView>) -> bool {
    &&& a.len() == b.len()
    &&& forall|j: int|
        #![trigger a[j]]
        #![trigger b[j]]
        0 <= j < a.len() ==> a[j].name == b[j].name && a[j].value == b[j].value
}

/// Two sequences of sections agree in the names of their sections and in the names
/// and values of their fields, in order.
pub open spec fn same_data(a: Seq<SectionView>, b: Seq<SectionView>) -> bool {
    &&& a.len() == b.len()
    &&& forall|i: int|
        #![trigger a[i]]
        #![trigger b[i]]
        0 <= i < a.len() ==> a[i].name == b[i].name && same_fields(a[i].fields, b[i].fields)
}

/// Sections that agree in their data hold the same triples.
pub proof fn lemma_same_data_same_triples(a: Seq<SectionView>, b: Seq<SectionView>)
    requires
        same_data(a, b),
    ensures
        triples(a) == triples(b),
{
    assert forall|t: (Seq<char>, Seq<char>, ConfigValueView)| triples(a).contains(t)
        <==> triples(b).contains(t) by {
        if triples(a).contains(t) {
            let (i, j) = choose|i: int, j: int|
                0 <= i < a.len() && 0 <= j < a[i].fields.len() && t == (
                    a[i].name,
                    (#[trigger] a[i].fields[j]).name,
                    a[i].fields[j].value,
                );
            assert(same_fields(a[i].fields, b[i].fields));
            assert(t == (b[i].name, b[i].fields[j].name, b[i].fields[j].value));
        }
        if triples(b).contains(t) {
            let (i, j) = choose|i: int, j: int|
                0 <= i < b.len() && 0 <= j < b[i].fields.len() && t == (
                    b[i].name,
                    (#[trigger] b[i].fields[j]).name,
                    b[i].fields[j].value,
                );
            assert(same_fields(a[i].fields, b[i].fields));
            assert(t == (a[i].name, a[i].fields[j].name, a[i].fields[j].value));
        }
    }
    assert(triples(a) =~= triples(b));
}

/// The fields of a repeated section have the same names and values whatever the raw
/// text is: the text decides their comments only.
pub proof fn lemma_array_fields_from_tree(
    first: Seq<char>,
    second: Seq<char>,
    section_name: Seq<char>,
    items: Seq<ConfigValueView>,
    count: nat,
)
    ensures
        same_fields(
            array_fields(first, section_name, items, count),
            array_fields(second, section_name, items, count),
        ),
    decreases count,
{
    if count > 0 {
        lemma_array_fields_from_tree(first, second, section_name, items, (count - 1) as nat);
        let a = array_fields(first, section_name, items, count);
        let b = array_fields(second, section_name, items, count);
        let earlier_a = array_fields(first, section_name, items, (count - 1) as nat);
        let earlier_b = array_fields(second, section_name, items, (count - 1) as nat);
        assert forall|j: int| 0 <= j < a.len() implies a[j].name == b[j].name && a[j].value
            == b[j].value by {
            if j < earlier_a.len() {
                assert(a[j] == earlier_a[j]);
                assert(b[j] == earlier_b[j]);
            }
        }
    }
}

/// The sections of a document have the same names, and their fields the same names
/// and values, whatever the raw text is: the text decides the comments only.
pub proof fn lemma_sections_from_tree(first: Seq<char>, second: Seq<char>, tree: ConfigValueView)
    ensures
        same_data(document_sections(first, tree), document_sections(second, tree)),
{
    let a = document_sections(first, tree);
    let b = document_sections(second, tree);
    assert forall|i: int| 0 <= i < a.len() implies a[i].name == b[i].name && same_fields(
        a[i].fields,
        b[i].fields,
    ) by {
        let entry = tree->Table_0[i];
        if is_array_of_tables(entry.value) {
            lemma_array_fields_from_tree(
                first,
                second,
                entry.key,
                entry.value->Array_0,
                entry.value->Array_0.len(),
            );
        }
    }
}

/// Reading one tree beside two different texts yields the same triples of section
/// name, field name and value.
pub proof fn lemma_triples_from_tree(first: Seq<char>, second: Seq<char>, tree: ConfigValueView)
    ensures
        triples(document_sections(first, tree)) == triples(document_sections(second, tree)),
{
    lemma_sections_from_tree(first, second, tree);
    lemma_same_data_same_triples(
        document_sections(first, tree),
        document_sections(second, tree),
    );
}

/// A value whose written form keeps what it is. A table is written as an empty
/// placeholder and a date-time as a string, so neither stands anywhere inside such
/// a value.
pub open spec fn kept_in_writing(value: ConfigValueView) -> bool
    decreases value,
{
    match value {
        ConfigValueView::Table(_) => false,
        ConfigValueView::Datetime(_) => false,
        ConfigValueView::Array(items) => forall|i: int|
            0 <= i < items.len() ==> kept_in_writing(#[trigger] items[i]),
        _ => true,
    }
}

/// A value of the top level whose written form keeps all it holds: a table whose
/// values are kept in writing, or a value that is kept in writing itself.
pub open spec fn flat_section(value: ConfigValueView) -> bool {
    match value {
        ConfigValueView::Table(entries) => forall|j: int|
            0 <= j < entries.len() ==> kept_in_writing((#[trigger] entries[j]).value),
        _ => kept_in_writing(value),
    }
}

/// A document without repeated sections, and without tables and date-times inside
/// values.
pub open spec fn flat_document(tree: ConfigValueView) -> bool {
    &&& tree is Table
    &&& forall|i: int|
        0 <= i < tree->Table_0.len() ==> flat_section((#[trigger] tree->Table_0[i]).value)
}

/// The top-level entry that the written form of `entry` stands for. A table is
/// written under its header and stays what it is; any other value is written under a
/// header of its own name, and so becomes a table with one entry.
pub open spec fn written_entry(entry: TableEntryView) -> TableEntryView {
    if entry.value is Table {
        entry
    } else {
        TableEntryView { key: entry.key, value: ConfigValueView::Table(seq![entry]) }
    }
}

/// The tree that the written form of a flat document stands for.
pub open spec fn written_tree(tree: ConfigValueView) -> ConfigValueView {
    ConfigValueView::Table(
        Seq::new(tree->Table_0.len(), |i: int| written_entry(tree->Table_0[i])),
    )
}

/// A value that is kept in writing is neither a table nor an array of tables.
pub proof fn lemma_no_table_no_array_of_tables(value: ConfigValueView)
    requires
        kept_in_writing(value),
    ensures
        !is_array_of_tables(value),
        !(value is Table),
{
    if is_array_of_tables(value) {
        assert(value->Array_0[0] is Table);
        assert(kept_in_writing(value->Array_0[0]));
    }
}

/// Reading the tree that the written form of a flat document stands for, beside
/// whatever text, yields the triples of the document itself.
pub proof fn lemma_written_tree_keeps_triples(
    content: Seq<char>,
    written: Seq<char>,
    tree: ConfigValueView,
)
    requires
        flat_document(tree),
    ensures
        triples(document_sections(written, written_tree(tree))) == triples(
            document_sections(content, tree),
        ),
{
    let a = document_sections(written, written_tree(tree));
    let b = document_sections(content, tree);
    assert forall|i: int| 0 <= i < a.len() implies a[i].name == b[i].name && same_fields(
        a[i].fields,
        b[i].fields,
    ) by {
        let entry = tree->Table_0[i];
        assert(flat_section(entry.value));
        assert(written_tree(tree)->Table_0[i] == written_entry(entry));
        if !(entry.value is Table) {
            lemma_no_table_no_array_of_tables(entry.value);
        }
    }
    lemma_same_data_same_triples(a, b);
}

/// Whether a document that is read from `content` as `tree`, written out and read
/// again, holds the same triples of section name, field name and value at the second
/// reading as at the first. It does not where the written text is refused.
pub open spec fn reread_keeps_triples(content: Seq<char>, tree: ConfigValueView) -> bool {
    let first = document_sections(content, tree);
    let written = reconstructed(first);
    match toml_document(written) {
        Ok(reread) => triples(document_sections(written, reread)) == triples(first),
        Err(_) => false,
    }
}

/// Round trip. A flat document is read from `content`, written out and read again.
/// Wherever the parser makes of the written text the tree that it stands for, the
/// second reading yields the same triples of section name, field name and value as
/// the first.
pub proof fn lemma_round_trip(content: Seq<char>, tree: ConfigValueView)
    requires
        flat_document(tree),
    ensures
        toml_document(reconstructed(document_sections(content, tree))) == Ok::<
            ConfigValueView,
            Seq<char>,
        >(written_tree(tree)) ==> reread_keeps_triples(content, tree),
{
    lemma_written_tree_keeps_triples(
        content,
        reconstructed(document_sections(content, tree)),
        tree,
    );
}

/// Whether `sections` hold a field of the name `name` with the value `value` in a
/// section of the name `section`.
pub fn holds_triple(
    sections: &Vec<ConfigSection>,
    section: &str,
    name: &str,
    value: &ConfigValue,
) -> (found: bool)
    ensures
        found == triples(section_views(sections@)).contains((section@, name@, value@)),
{
    let ghost views = section_views(sections@);
    let mut i: usize = 0;
    while i < sections.len()
        invariant
            i <= sections.len(),
            views == section_views(sections@),
            forall|a: int, b: int|
                0 <= a < i && 0 <= b < views[a].fields.len() ==> !(views[a].name == section@ && (
                #[trigger] views[a].fields[b]).name == name@ && views[a].fields[b].value
                    == value@),
        decreases sections.len() - i,
    {
        let fields = &sections[i].fields;
        if same_text(sections[i].name.as_str(), section) {
            let mut j: usize = 0;
            while j < fields.len()
                invariant
                    j <= fields.len(),
                    i < sections.len(),
                    views == section_views(sections@),
                    *fields == sections@[i as int].fields,
                    views[i as int].name == section@,
                    forall|b: int|
                        0 <= b < j ==> !((#[trigger] views[i as int].fields[b]).name == name@
                            && views[i as int].fields[b].value == value@),
                decreases fields.len() - j,
            {
                proof {
                    assert(views[i as int].fields[j as int] == fields@[j as int]@);
                }
                if same_text(fields[j].name.as_str(), name) && fields[j].value.same_as(value) {
                    return true;
                }
                j += 1;
            }
        }
        i += 1;
    }
    false
}

/// Whether every triple of `first` is one of `second`.
pub fn triples_within(first: &Vec<ConfigSection>, second: &Vec<ConfigSection>) -> (within: bool)
    ensures
        within == triples(section_views(first@)).subset_of(triples(section_views(second@))),
{
    let ghost views = section_views(first@);
    let ghost others = triples(section_views(second@));
    let mut i: usize = 0;
    while i < first.len()
        invariant
            i <= first.len(),
            views == section_views(first@),
            others == triples(section_views(second@)),
            forall|a: int, b: int|
                0 <= a < i && 0 <= b < views[a].fields.len() ==> others.contains(
                    (
                        views[a].name,
                        (#[trigger] views[a].fields[b]).name,
                        views[a].fields[b].value,
                    ),
                ),
        decreases first.len() - i,
    {
        let fields = &first[i].fields;
        let mut j: usize = 0;
        while j < fields.len()
            invariant
                j <= fields.len(),
                i < first.len(),
                views == section_views(first@),
                others == triples(section_views(second@)),
                *fields == first@[i as int].fields,
                forall|b: int|
                    0 <= b < j ==> others.contains(
                        (
                            views[i as int].name,
                            (#[trigger] views[i as int].fields[b]).name,
                            views[i as int].fields[b].value,
                        ),
                    ),
            decreases fields.len() - j,
        {
            proof {
                assert(views[i as int].fields[j as int] == fields@[j as int]@);
            }
            if !holds_triple(
                second,
                first[i].name.as_str(),
                fields[j].name.as_str(),
                &fields[j].value,
            ) {
                proof {
                    let t = (
                        views[i as int].name,
                        views[i as int].fields[j as int].name,
                        views[i as int].fields[j as int].value,
                    );
                    assert(triples(views).contains(t));
                    assert(!others.contains(t));
                }
                return false;
            }
            j += 1;
        }
        i += 1;
    }
    proof {
        assert forall|t: (Seq<char>, Seq<char>, ConfigValueView)| triples(views).contains(
            t,
        ) implies others.contains(t) by {
            let (a, b) = choose|a: int, b: int|
                0 <= a < views.len() && 0 <= b < views[a].fields.len() && t == (
                    views[a].name,
                    (#[trigger] views[a].fields[b]).name,
                    views[a].fields[b].value,
                );
            assert(others.contains((views[a].name, views[a].fields[b].name, views[a].fields[b].value)));
        }
    }
    true
}

/// Whether `first` and `second` hold the same triples of section name, field name and
/// value.
pub fn same_triples(first: &Vec<ConfigSection>, second: &Vec<ConfigSection>) -> (same: bool)
    ensures
        same == (triples(section_views(first@)) == triples(section_views(second@))),
{
    let same = triples_within(first, second) && triples_within(second, first);
    proof {
        if same {
            assert(triples(section_views(first@)) =~= triples(section_views(second@)));
        }
    }
    same
}

impl ConfigManager {
    /// Reads a document from `content`, writes it out and reads the written text
    /// again. The result is `None` where `content` is refused; else it tells whether
    /// the second reading holds the same triples of section name, field name and value
    /// as the first, which it does not where the written text is refused.
    pub fn round_trip_keeps_triples(&self, content: &str) -> (kept: Option<bool>)
        ensures
            match toml_document(content@) {
                Ok(tree) => kept == Some(reread_keeps_triples(content@, tree)),
                Err(_) => kept is None,
            },
    {
        match self.parse_config_file(content, "", "") {
            Ok(first) => {
                let written = self.reconstruct_toml_with_comments(&first);
                match self.parse_config_file(written.as_str(), "", "") {
                    Ok(second) => Some(same_triples(&second.sections, &first.sections)),
                    Err(_) => Some(false),
                }
            },
            Err(_) => None,
        }
    }
}

} // verus!
