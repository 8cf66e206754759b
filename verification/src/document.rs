//! The structured form of a configuration document: sections of fields, each with
//! the comment that its author attached to it.

use vstd::prelude::*;
use crate::manager::ConfigManager;
use crate::text::{clone_option_text, option_text};
use crate::value::{classify, ConfigValue, ConfigValueView};

verus! {

/// One typed `name = value` pair with its comment. `field_type` is the type tag of
/// `value`; `section` names the section that the field belongs to.
#[derive(Debug, PartialEq, Eq)]
pub struct ConfigField {
    pub name: String,
    pub value: ConfigValue,
    pub field_type: String,
    pub comment: Option<String>,
    pub section: String,
}

/// A named group of fields, in the order in which they were found.
#[derive(Debug, PartialEq, Eq)]
pub struct ConfigSection {
    pub name: String,
    pub fields: Vec<ConfigField>,
    pub comment: Option<String>,
}

/// One configuration document: its sections, and beside them the text that they were
/// read from. The text is not kept up to date when the sections are edited.
#[derive(Debug, PartialEq, Eq)]
pub struct ConfigFile {
    pub filename: String,
    pub path: String,
    pub sections: Vec<ConfigSection>,
    pub raw_content: String,
}

/// The document of one plugin.
#[derive(Debug, PartialEq, Eq)]
pub struct PluginConfig {
    pub name: String,
    pub path: String,
    pub config: ConfigFile,
}

/// The view of a field.
pub ghost struct FieldView {
    pub name: Seq<char>,
    pub value: ConfigValueView,
    pub field_type: Seq<char>,
    pub comment: Option<Seq<char>>,
    pub section: Seq<char>,
}

/// The view of a section: its name, the views of its fields and its comment.
pub ghost struct SectionView {
    pub name: Seq<char>,
    pub fields: Seq<FieldView>,
    pub comment: Option<Seq<char>>,
}

/// The view of a document.
pub ghost struct FileView {
    pub filename: Seq<char>,
    pub path: Seq<char>,
    pub sections: Seq<SectionView>,
    pub raw_content: Seq<char>,
}

/// The view of a plugin's document.
pub ghost struct PluginView {
    pub name: Seq<char>,
    pub path: Seq<char>,
    pub config: FileView,
}

/// The views of the fields in `fields`.
pub open spec fn field_views(fields: Seq<ConfigField>) -> Seq<FieldView> {
    Seq::new(fields.len(), |i: int| fields[i]@)
}

/// The views of the sections in `sections`.
pub open spec fn section_views(sections: Seq<ConfigSection>) -> Seq<SectionView> {
    Seq::new(sections.len(), |i: int| sections[i]@)
}

/// The views of the plugin documents in `plugins`.
pub open spec fn plugin_views(plugins: Seq<PluginConfig>) -> Seq<PluginView> {
    Seq::new(plugins.len(), |i: int| plugins[i]@)
}

impl View for ConfigField {
    type V = FieldView;

    open spec fn view(&self) -> FieldView {
        FieldView {
            name: self.name@,
            value: self.value@,
            field_type: self.field_type@,
            comment: option_text(self.comment),
            section: self.section@,
        }
    }
}

impl View for ConfigSection {
    type V = SectionView;

    open spec fn view(&self) -> SectionView {
        SectionView {
            name: self.name@,
            fields: field_views(self.fields@),
            comment: option_text(self.comment),
        }
    }
}

impl View for ConfigFile {
    type V = FileView;

    open spec fn view(&self) -> FileView {
        FileView {
            filename: self.filename@,
            path: self.path@,
            sections: section_views(self.sections@),
            raw_content: self.raw_content@,
        }
    }
}

impl View for PluginConfig {
    type V = PluginView;

    open spec fn view(&self) -> PluginView {
        PluginView { name: self.name@, path: self.path@, config: self.config@ }
    }
}

impl Clone for ConfigField {
    fn clone(&self) -> (copy: Self)
        ensures
            copy@ == self@,
    {
        ConfigField {
            name: self.name.clone(),
            value: self.value.clone(),
            field_type: self.field_type.clone(),
            comment: clone_option_text(&self.comment),
            section: self.section.clone(),
        }
    }
}

impl Clone for ConfigSection {
    fn clone(&self) -> (copy: Self)
        ensures
            copy@ == self@,
    {
        let mut fields: Vec<ConfigField> = Vec::new();
        let mut i: usize = 0;
        while i < self.fields.len()
            invariant
                i <= self.fields.len(),
                fields.len() == i,
                forall|j: int| 0 <= j < i ==> fields@[j]@ == self.fields@[j]@,
            decreases self.fields.len() - i,
        {
            fields.push(self.fields[i].clone());
            i += 1;
        }
        proof {
            assert(field_views(fields@) =~= field_views(self.fields@));
        }
        ConfigSection {
            name: self.name.clone(),
            fields,
            comment: clone_option_text(&self.comment),
        }
    }
}

impl Clone for ConfigFile {
    fn clone(&self) -> (copy: Self)
        ensures
            copy@ == self@,
    {
        let mut sections: Vec<ConfigSection> = Vec::new();
        let mut i: usize = 0;
        while i < self.sections.len()
            invariant
                i <= self.sections.len(),
                sections.len() == i,
                forall|j: int| 0 <= j < i ==> sections@[j]@ == self.sections@[j]@,
            decreases self.sections.len() - i,
        {
            sections.push(self.sections[i].clone());
            i += 1;
        }
        proof {
            assert(section_views(sections@) =~= section_views(self.sections@));
        }
        ConfigFile {
            filename: self.filename.clone(),
            path: self.path.clone(),
            sections,
            raw_content: self.raw_content.clone(),
        }
    }
}

impl Clone for PluginConfig {
    fn clone(&self) -> (copy: Self)
        ensures
            copy@ == self@,
    {
        PluginConfig {
            name: self.name.clone(),
            path: self.path.clone(),
            config: self.config.clone(),
        }
    }
}

impl FieldView {
    /// The type tag is the one that belongs to the value.
    pub open spec fn well_formed(self) -> bool {
        self.field_type == classify(self.value)
    }
}

impl SectionView {
    /// Every field is well formed.
    pub open spec fn well_formed(self) -> bool {
        forall|j: int| 0 <= j < self.fields.len() ==> (#[trigger] self.fields[j]).well_formed()
    }
}

/// No two of `sections` have the same name.
pub open spec fn section_names_distinct(sections: Seq<SectionView>) -> bool {
    forall|i: int, j: int|
        #![trigger sections[i], sections[j]]
        0 <= i < j < sections.len() ==> sections[i].name != sections[j].name
}

/// Every section of `sections` is well formed.
pub open spec fn sections_well_formed(sections: Seq<SectionView>) -> bool {
    forall|i: int| 0 <= i < sections.len() ==> (#[trigger] sections[i]).well_formed()
}

impl FileView {
    /// Every field of every section carries the type tag of its value.
    pub open spec fn well_formed(self) -> bool {
        sections_well_formed(self.sections)
    }
}

impl ConfigManager {
    /// Replaces the value of `field` and gives the field the type tag of the new value.
    /// The rest of the field stays as it is.
    pub fn set_field_value(&self, field: &mut ConfigField, value: ConfigValue)
        ensures
            final(field)@ == (FieldView {
                value: value@,
                field_type: classify(value@),
                ..old(field)@
            }),
            final(field)@.well_formed(),
    {
        field.field_type = self.determine_field_type(&value);
        field.value = value;
    }
}

} // verus!
