//! Turns the tree of a parsed document, together with its raw text, into sections of
//! fields.

use vstd::prelude::*;
use vstd::string::StringExecFns;
use crate::comments::{field_comment, section_comment};
use crate::document::{
    field_views, section_names_distinct, section_views, sections_well_formed, ConfigField,
    ConfigSection, FieldView, SectionView,
};
use crate::manager::ConfigManager;
use crate::text::{decimal, push_decimal};
use crate::value::{
    classify, entry_views, keys_distinct, lemma_view_of_children, value_views, ConfigValue,
    ConfigValueView,
    TableEntry, TableEntryView,
};

verus! {

/// The field that an entry of a section's table stands for.
pub open spec fn plain_field(
    content: Seq<char>,
    section_name: Seq<char>,
    entry: TableEntryView,
) -> FieldView {
    FieldView {
        name: entry.key,
        value: entry.value,
        field_type: classify(entry.value),
        comment: field_comment(content, entry.key),
        section: section_name,
    }
}

/// The name under which the field `key` of the table at `index` of a repeated
/// section is shown.
pub open spec fn indexed_name(index: nat, key: Seq<char>) -> Seq<char> {
    "["@ + decimal(index) + "]."@ + key
}

/// The field that an entry of the table at `index` of a repeated section stands for.
/// Its comment is looked up under the entry's own key.
pub open spec fn indexed_field(
    content: Seq<char>,
    section_name: Seq<char>,
    index: nat,
    entry: TableEntryView,
) -> FieldView {
    FieldView {
        name: indexed_name(index, entry.key),
        value: entry.value,
        field_type: classify(entry.value),
        comment: field_comment(content, entry.key),
        section: section_name,
    }
}

/// The field of a value that stands at the top level, outside any table.
pub open spec fn bare_field(content: Seq<char>, name: Seq<char>, value: ConfigValueView) -> FieldView {
    FieldView {
        name,
        value,
        field_type: classify(value),
        comment: field_comment(content, name),
        section: Seq::empty(),
    }
}

/// The fields of a table: one for each entry, in order.
pub open spec fn table_fields(
    content: Seq<char>,
    section_name: Seq<char>,
    entries: Seq<TableEntryView>,
) -> Seq<FieldView> {
    Seq::new(entries.len(), |j: int| plain_field(content, section_name, entries[j]))
}

/// The fields of the table at `index` of a repeated section: one for each entry, in
/// order.
pub open spec fn element_fields(
    content: Seq<char>,
    section_name: Seq<char>,
    index: nat,
    entries: Seq<TableEntryView>,
) -> Seq<FieldView> {
    Seq::new(entries.len(), |j: int| indexed_field(content, section_name, index, entries[j]))
}

/// The fields of the first `count` tables of a repeated section, table after table.
pub open spec fn array_fields(
    content: Seq<char>,
    section_name: Seq<char>,
    items: Seq<ConfigValueView>,
    count: nat,
) -> Seq<FieldView>
    decreases count,
{
    if count == 0 {
        Seq::empty()
    } else {
        array_fields(content, section_name, items, (count - 1) as nat) + element_fields(
            content,
            section_name,
            (count - 1) as nat,
            items[count - 1]->Table_0,
        )
    }
}

/// An array of tables: an array that is not empty and holds nothing but tables.
pub open spec fn is_array_of_tables(value: ConfigValueView) -> bool {
    &&& value is Array
    &&& value->Array_0.len() > 0
    &&& forall|i: int| 0 <= i < value->Array_0.len() ==> (#[trigger] value->Array_0[i]) is Table
}

/// The fields of the section `section_name` whose value is `value`.
pub open spec fn section_fields(
    content: Seq<char>,
    section_name: Seq<char>,
    value: ConfigValueView,
) -> Seq<FieldView> {
    if value is Table {
        table_fields(content, section_name, value->Table_0)
    } else if is_array_of_tables(value) {
        array_fields(content, section_name, value->Array_0, value->Array_0.len())
    } else {
        seq![bare_field(content, section_name, value)]
    }
}

/// The section that a top-level entry of the document stands for.
pub open spec fn section_of(content: Seq<char>, entry: TableEntryView) -> SectionView {
    SectionView {
        name: entry.key,
        fields: section_fields(content, entry.key, entry.value),
        comment: section_comment(content, entry.key),
    }
}

/// The sections of a document: one for each top-level entry of its tree, in order.
/// A tree that is no table has none.
pub open spec fn document_sections(content: Seq<char>, tree: ConfigValueView) -> Seq<SectionView> {
    if tree is Table {
        Seq::new(tree->Table_0.len(), |i: int| section_of(content, tree->Table_0[i]))
    } else {
        Seq::empty()
    }
}

/// Every field of `array_fields` carries the type tag of its value.
pub proof fn lemma_array_fields_well_formed(
    content: Seq<char>,
    section_name: Seq<char>,
    items: Seq<ConfigValueView>,
    count: nat,
)
    ensures
        forall|j: int|
            0 <= j < array_fields(content, section_name, items, count).len() ==> (
            #[trigger] array_fields(content, section_name, items, count)[j]).well_formed(),
    decreases count,
{
    if count > 0 {
        lemma_array_fields_well_formed(content, section_name, items, (count - 1) as nat);
        let earlier = array_fields(content, section_name, items, (count - 1) as nat);
        let all = array_fields(content, section_name, items, count);
        assert forall|j: int| 0 <= j < all.len() implies (#[trigger] all[j]).well_formed() by {
            if j < earlier.len() {
                assert(all[j] == earlier[j]);
            }
        }
    }
}

/// Every field of every extracted section carries the type tag of its value.
pub proof fn lemma_extracted_tags(content: Seq<char>, tree: ConfigValueView)
    ensures
        sections_well_formed(document_sections(content, tree)),
{
    let sections = document_sections(content, tree);
    assert forall|i: int| 0 <= i < sections.len() implies (#[trigger] sections[i]).well_formed() by {
        let entry = tree->Table_0[i];
        if is_array_of_tables(entry.value) {
            lemma_array_fields_well_formed(
                content,
                entry.key,
                entry.value->Array_0,
                entry.value->Array_0.len(),
            );
        }
    }
}

/// Where no two top-level entries of the tree have the same key, no two sections have
/// the same name.
pub proof fn lemma_distinct_section_names(content: Seq<char>, tree: ConfigValueView)
    requires
        tree is Table ==> keys_distinct(tree->Table_0),
    ensures
        section_names_distinct(document_sections(content, tree)),
{
    let sections = document_sections(content, tree);
    assert forall|i: int, j: int| 0 <= i < j < sections.len() implies (#[trigger] sections[i]).name
        != (#[trigger] sections[j]).name by {
        assert(tree->Table_0[i].key != tree->Table_0[j].key);
    }
}

/// The comment of a field depends on its name alone: two fields of the same name, in
/// whatever sections that are tables, carry the same comment, which is that of the
/// first line of the text that assigns to the name.
pub proof fn lemma_same_name_same_comment(
    content: Seq<char>,
    tree: ConfigValueView,
    first: int,
    first_field: int,
    second: int,
    second_field: int,
)
    requires
        tree is Table,
        0 <= first < tree->Table_0.len(),
        0 <= second < tree->Table_0.len(),
        tree->Table_0[first].value is Table,
        tree->Table_0[second].value is Table,
        0 <= first_field < tree->Table_0[first].value->Table_0.len(),
        0 <= second_field < tree->Table_0[second].value->Table_0.len(),
        tree->Table_0[first].value->Table_0[first_field].key
            == tree->Table_0[second].value->Table_0[second_field].key,
    ensures
        document_sections(content, tree)[first].fields[first_field].comment
            == document_sections(content, tree)[second].fields[second_field].comment,
        document_sections(content, tree)[first].fields[first_field].comment == field_comment(
            content,
            tree->Table_0[first].value->Table_0[first_field].key,
        ),
{
}

impl ConfigManager {
    /// Whether `value` is an array of tables.
    pub fn holds_tables_only(&self, value: &ConfigValue) -> (b: bool)
        ensures
            b == is_array_of_tables(value@),
    {
        proof {
            lemma_view_of_children(*value);
        }
        match value {
            ConfigValue::Array(items) => {
                if items.len() == 0 {
                    return false;
                }
                let mut i: usize = 0;
                while i < items.len()
                    invariant
                        i <= items.len(),
                        items.len() > 0,
                        value@ == ConfigValueView::Array(value_views(items@)),
                        forall|k: int| 0 <= k < i ==> (#[trigger] value_views(items@)[k]) is Table,
                    decreases items.len() - i,
                {
                    match &items[i] {
                        ConfigValue::Table(_) => {},
                        _ => {
                            proof {
                                assert(!(value_views(items@)[i as int] is Table));
                            }
                            return false;
                        },
                    }
                    i += 1;
                }
                true
            },
            _ => false,
        }
    }

    /// Appends to `fields` one field for each entry of `table`. Where `index` is given,
    /// the table is the one at that index of a repeated section, and the fields are
    /// named after the index and the key.
    fn push_fields_of_table(
        &self,
        fields: &mut Vec<ConfigField>,
        content: &str,
        section_name: &str,
        index: Option<usize>,
        table: &Vec<TableEntry>,
    )
        ensures
            field_views(final(fields)@) == field_views(old(fields)@) + match index {
                Some(i) => element_fields(content@, section_name@, i as nat, entry_views(table@)),
                None => table_fields(content@, section_name@, entry_views(table@)),
            },
    {
        let ghost before = field_views(fields@);
        let ghost all = match index {
            Some(i) => element_fields(content@, section_name@, i as nat, entry_views(table@)),
            None => table_fields(content@, section_name@, entry_views(table@)),
        };
        let mut j: usize = 0;
        proof {
            assert(field_views(fields@) =~= before + all.take(0));
        }
        while j < table.len()
            invariant
                j <= table.len(),
                all == match index {
                    Some(i) => element_fields(
                        content@,
                        section_name@,
                        i as nat,
                        entry_views(table@),
                    ),
                    None => table_fields(content@, section_name@, entry_views(table@)),
                },
                field_views(fields@) == before + all.take(j as int),
            decreases table.len() - j,
        {
            let entry = &table[j];
            let comment = self.extract_field_comment(content, section_name, entry.key.as_str());
            let field_type = self.determine_field_type(&entry.value);
            let name = match index {
                Some(i) => {
                    let mut name = "[".to_owned();
                    push_decimal(&mut name, i as u64);
                    name.append("].");
                    name.append(entry.key.as_str());
                    name
                },
                None => entry.key.clone(),
            };
            let ghost done = field_views(fields@);
            fields.push(
                ConfigField {
                    name,
                    value: entry.value.clone(),
                    field_type,
                    comment,
                    section: section_name.to_owned(),
                },
            );
            proof {
                assert(field_views(fields@) =~= done.push(all[j as int]));
                assert(all.take(j + 1) =~= all.take(j as int).push(all[j as int]));
                assert(field_views(fields@) =~= before + all.take(j + 1));
            }
            j += 1;
        }
        proof {
            assert(all.take(j as int) =~= all);
        }
    }

    /// The fields of the section `section_name` whose value is `section_value`, each
    /// with the comment that `content` holds for it. A table gives one field for each
    /// entry. An array of tables gives one field for each entry of each table, named
    /// after the table's index and the key. Any other value gives one field, named as
    /// the section and belonging to no section.
    pub fn extract_fields_from_section(
        &self,
        content: &str,
        section_name: &str,
        section_value: &ConfigValue,
    ) -> (fields: Vec<ConfigField>)
        ensures
            field_views(fields@) == section_fields(content@, section_name@, section_value@),
    {
        let mut fields: Vec<ConfigField> = Vec::new();
        proof {
            lemma_view_of_children(*section_value);
            assert(field_views(fields@) =~= Seq::<FieldView>::empty());
        }
        let repeated = self.holds_tables_only(section_value);
        match section_value {
            ConfigValue::Table(table) => {
                self.push_fields_of_table(&mut fields, content, section_name, None, table);
                proof {
                    assert(field_views(fields@) =~= table_fields(
                        content@,
                        section_name@,
                        entry_views(table@),
                    ));
                }
            },
            ConfigValue::Array(items) if repeated => {
                let mut index: usize = 0;
                while index < items.len()
                    invariant
                        index <= items.len(),
                        is_array_of_tables(section_value@),
                        section_value@ == ConfigValueView::Array(value_views(items@)),
                        field_views(fields@) == array_fields(
                            content@,
                            section_name@,
                            value_views(items@),
                            index as nat,
                        ),
                    decreases items.len() - index,
                {
                    proof {
                        lemma_view_of_children(items[index as int]);
                        assert(value_views(items@)[index as int] is Table);
                    }
                    match &items[index] {
                        ConfigValue::Table(table) => {
                            self.push_fields_of_table(
                                &mut fields,
                                content,
                                section_name,
                                Some(index),
                                table,
                            );
                        },
                        _ => {},
                    }
                    index += 1;
                }
            },
            _ => {
                let comment = self.extract_field_comment(content, "", section_name);
                let field_type = self.determine_field_type(section_value);
                fields.push(
                    ConfigField {
                        name: section_name.to_owned(),
                        value: section_value.clone(),
                        field_type,
                        comment,
                        section: String::new(),
                    },
                );
                proof {
                    assert(field_views(fields@) =~= seq![
                        bare_field(content@, section_name@, section_value@),
                    ]);
                }
            },
        }
        fields
    }

    /// The sections of the document whose text is `content` and whose tree is `parsed`:
    /// one for each top-level entry of the tree, in order, each with the comment that
    /// `content` holds for it. Every field carries the type tag of its value.
    pub fn extract_sections_with_comments(&self, content: &str, parsed: &ConfigValue) -> (sections:
        Vec<ConfigSection>)
        ensures
            section_views(sections@) == document_sections(content@, parsed@),
            sections_well_formed(section_views(sections@)),
    {
        let mut sections: Vec<ConfigSection> = Vec::new();
        proof {
            lemma_view_of_children(*parsed);
            lemma_extracted_tags(content@, parsed@);
        }
        match parsed {
            ConfigValue::Table(table) => {
                let mut i: usize = 0;
                while i < table.len()
                    invariant
                        i <= table.len(),
                        sections.len() == i,
                        parsed@ == ConfigValueView::Table(entry_views(table@)),
                        section_views(sections@) == document_sections(content@, parsed@).take(
                            i as int,
                        ),
                    decreases table.len() - i,
                {
                    let entry = &table[i];
                    let comment = self.extract_section_comment(content, entry.key.as_str());
                    let fields = self.extract_fields_from_section(
                        content,
                        entry.key.as_str(),
                        &entry.value,
                    );
                    let ghost done = sections@;
                    sections.push(ConfigSection { name: entry.key.clone(), fields, comment });
                    proof {
                        let all = document_sections(content@, parsed@);
                        assert forall|k: int| 0 <= k <= i implies section_views(sections@)[k]
                            == all[k] by {
                            if k < i {
                                assert(section_views(done)[k] == all.take(i as int)[k]);
                            }
                        }
                        assert(section_views(sections@) =~= all.take(i + 1));
                    }
                    i += 1;
                }
                proof {
                    let all = document_sections(content@, parsed@);
                    assert(all.take(i as int) =~= all);
                }
            },
            _ => {
                proof {
                    assert(section_views(sections@) =~= document_sections(content@, parsed@));
                }
            },
        }
        sections
    }
}

} // verus!
