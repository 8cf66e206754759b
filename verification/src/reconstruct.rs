//! Writes the sections of a document back as text, comments included.

use vstd::prelude::*;
use vstd::string::StringExecFns;
use crate::document::{field_views, section_views, ConfigFile, FieldView, SectionView};
use crate::manager::ConfigManager;
use crate::value::render;

verus! {

/// The line that carries `comment`, or nothing where there is no comment.
pub open spec fn written_comment(comment: Option<Seq<char>>) -> Seq<char> {
    match comment {
        Some(text) => "# "@ + text + "\n"@,
        None => Seq::empty(),
    }
}

/// The text of one field: its comment line, if it has a comment, and the assignment.
pub open spec fn written_field(field: FieldView) -> Seq<char> {
    written_comment(field.comment) + field.name + " = "@ + render(field.value) + "\n"@
}

/// The text of the first `count` fields of `fields`, one after the other.
pub open spec fn written_fields(fields: Seq<FieldView>, count: nat) -> Seq<char>
    decreases count,
{
    if count == 0 {
        Seq::empty()
    } else {
        written_fields(fields, (count - 1) as nat) + written_field(fields[count - 1])
    }
}

/// The header line of a section, or nothing where the section has no name.
pub open spec fn written_header(name: Seq<char>) -> Seq<char> {
    if name.len() > 0 {
        "["@ + name + "]\n"@
    } else {
        Seq::empty()
    }
}

/// The text of one section: its comment line, its header, its fields and an empty
/// line.
pub open spec fn written_section(section: SectionView) -> Seq<char> {
    written_comment(section.comment) + written_header(section.name) + written_fields(
        section.fields,
        section.fields.len(),
    ) + "\n"@
}

/// The text of the first `count` sections of `sections`, one after the other.
pub open spec fn written_sections(sections: Seq<SectionView>, count: nat) -> Seq<char>
    decreases count,
{
    if count == 0 {
        Seq::empty()
    } else {
        written_sections(sections, (count - 1) as nat) + written_section(sections[count - 1])
    }
}

/// The text of a document with the sections `sections`.
pub open spec fn reconstructed(sections: Seq<SectionView>) -> Seq<char> {
    written_sections(sections, sections.len())
}

impl ConfigManager {
    /// Appends the comment line for `comment` to `out`.
    fn write_comment(&self, out: &mut String, comment: &Option<String>)
        ensures
            final(out)@ == old(out)@ + written_comment(crate::text::option_text(*comment)),
    {
        match comment {
            Some(text) => {
                out.append("# ");
                out.append(text.as_str());
                out.append("\n");
                proof {
                    assert(final(out)@ =~= old(out)@ + ("# "@ + text@ + "\n"@));
                }
            },
            None => {
                proof {
                    assert(final(out)@ =~= old(out)@ + Seq::<char>::empty());
                }
            },
        }
    }

    /// The text of the document `config`: its sections in order, each with its comment,
    /// its header and its fields, and an empty line after each.
    pub fn reconstruct_toml_with_comments(&self, config: &ConfigFile) -> (text: String)
        ensures
            text@ == reconstructed(config@.sections),
    {
        let mut result = String::new();
        let ghost sections = section_views(config.sections@);
        let mut i: usize = 0;
        while i < config.sections.len()
            invariant
                i <= config.sections.len(),
                sections == section_views(config.sections@),
                result@ == written_sections(sections, i as nat),
            decreases config.sections.len() - i,
        {
            let section = &config.sections[i];
            let ghost before = result@;
            let ghost fields = field_views(section.fields@);
            self.write_comment(&mut result, &section.comment);
            if !section.name.as_str().is_empty() {
                result.append("[");
                result.append(section.name.as_str());
                result.append("]\n");
            }
            let ghost head = result@;
            proof {
                assert(head =~= before + written_comment(sections[i as int].comment)
                    + written_header(sections[i as int].name));
            }
            let mut j: usize = 0;
            while j < section.fields.len()
                invariant
                    j <= section.fields.len(),
                    fields == field_views(section.fields@),
                    result@ == head + written_fields(fields, j as nat),
                decreases section.fields.len() - j,
            {
                let field = &section.fields[j];
                let ghost start = result@;
                self.write_comment(&mut result, &field.comment);
                let value_text = self.value_to_toml_string(&field.value);
                result.append(field.name.as_str());
                result.append(" = ");
                result.append(value_text.as_str());
                result.append("\n");
                proof {
                    assert(result@ =~= start + written_field(fields[j as int]));
                    assert(result@ =~= head + written_fields(fields, (j + 1) as nat));
                }
                j += 1;
            }
            result.append("\n");
            proof {
                assert(result@ =~= before + written_section(sections[i as int]));
            }
            i += 1;
        }
        result
    }
}

} // verus!
