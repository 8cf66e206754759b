//! The typed values of a configuration document, their type tags and their
//! written form.

use vstd::prelude::*;
use vstd::string::StringExecFns;
use crate::manager::ConfigManager;
use crate::literal::{
    escaped_text, float_literal, float_literal_of, opening_quotes, quoted_literal, render_quoted,
    render_string, stands_as_it_is, string_literal, written_range,
};
use crate::text::{join, push_signed_decimal, same_text, signed_decimal};

verus! {

/// One `key = value` pair of a table.
#[derive(Debug, PartialEq, Eq)]
pub struct TableEntry {
    pub key: String,
    pub value: ConfigValue,
}

/// A typed configuration value. A float is held by the decimal text of its number, a
/// date-time by its text; the entries of a table stand in the order in which the table
/// is walked. Nothing keeps two entries of a table built by hand from having the same
/// key; the tables of a tree that comes from the parser have none such: see
/// `keys_distinct_throughout`.
#[derive(Debug, PartialEq, Eq)]
pub enum ConfigValue {
    String(String),
    Integer(i64),
    Float(String),
    Boolean(bool),
    Datetime(String),
    Array(Vec<ConfigValue>),
    Table(Vec<TableEntry>),
}

/// The view of a table entry: its key as text, and the view of its value.
pub ghost struct TableEntryView {
    pub key: Seq<char>,
    pub value: ConfigValueView,
}

/// The view of a value: the same tree, with texts in place of strings.
pub ghost enum ConfigValueView {
    String(Seq<char>),
    Integer(i64),
    Float(Seq<char>),
    Boolean(bool),
    Datetime(Seq<char>),
    Array(Seq<ConfigValueView>),
    Table(Seq<TableEntryView>),
}

/// The view of a value: the same tree over texts.
pub open spec fn value_view(value: ConfigValue) -> ConfigValueView
    decreases value,
{
    match value {
        ConfigValue::String(s) => ConfigValueView::String(s@),
        ConfigValue::Integer(i) => ConfigValueView::Integer(i),
        ConfigValue::Float(s) => ConfigValueView::Float(s@),
        ConfigValue::Boolean(b) => ConfigValueView::Boolean(b),
        ConfigValue::Datetime(s) => ConfigValueView::Datetime(s@),
        ConfigValue::Array(items) => ConfigValueView::Array(
            Seq::new(
                items@.len(),
                |i: int|
                    if 0 <= i < items@.len() {
                        value_view(items@[i])
                    } else {
                        arbitrary()
                    },
            ),
        ),
        ConfigValue::Table(entries) => ConfigValueView::Table(
            Seq::new(
                entries@.len(),
                |i: int|
                    if 0 <= i < entries@.len() {
                        TableEntryView {
                            key: entries@[i].key@,
                            value: value_view(entries@[i].value),
                        }
                    } else {
                        arbitrary()
                    },
            ),
        ),
    }
}

impl View for TableEntry {
    type V = TableEntryView;

    open spec fn view(&self) -> TableEntryView {
        TableEntryView { key: self.key@, value: value_view(self.value) }
    }
}

impl View for ConfigValue {
    type V = ConfigValueView;

    open spec fn view(&self) -> ConfigValueView {
        value_view(*self)
    }
}

/// The views of the values in `items`.
pub open spec fn value_views(items: Seq<ConfigValue>) -> Seq<ConfigValueView> {
    Seq::new(items.len(), |i: int| items[i]@)
}

/// The views of the entries in `entries`.
pub open spec fn entry_views(entries: Seq<TableEntry>) -> Seq<TableEntryView> {
    Seq::new(entries.len(), |i: int| entries[i]@)
}

/// The view of an array is the array of its items' views, that of a table the
/// sequence of its entries' views.
pub proof fn lemma_view_of_children(value: ConfigValue)
    ensures
        value matches ConfigValue::Array(items) ==> value@ == ConfigValueView::Array(
            value_views(items@),
        ),
        value matches ConfigValue::Table(entries) ==> value@ == ConfigValueView::Table(
            entry_views(entries@),
        ),
{
    reveal_with_fuel(value_view, 2);
    match value {
        ConfigValue::Array(items) => {
            assert(value@->Array_0 =~= value_views(items@));
        },
        ConfigValue::Table(entries) => {
            assert(value@->Table_0 =~= entry_views(entries@));
        },
        _ => {},
    }
}

impl Clone for TableEntry {
    fn clone(&self) -> (copy: Self)
        ensures
            copy@ == self@,
        decreases self,
    {
        TableEntry { key: self.key.clone(), value: self.value.clone() }
    }
}

impl Clone for ConfigValue {
    fn clone(&self) -> (copy: Self)
        ensures
            copy@ == self@,
        decreases self,
    {
        proof {
            lemma_view_of_children(*self);
        }
        match self {
            ConfigValue::String(s) => ConfigValue::String(s.clone()),
            ConfigValue::Integer(i) => ConfigValue::Integer(*i),
            ConfigValue::Float(s) => ConfigValue::Float(s.clone()),
            ConfigValue::Boolean(b) => ConfigValue::Boolean(*b),
            ConfigValue::Datetime(s) => ConfigValue::Datetime(s.clone()),
            ConfigValue::Array(items) => {
                let mut copies: Vec<ConfigValue> = Vec::new();
                let mut i: usize = 0;
                while i < items.len()
                    invariant
                        i <= items.len(),
                        *self == ConfigValue::Array(*items),
                        copies.len() == i,
                        value_views(copies@) == value_views(items@).take(i as int),
                    decreases items.len() - i,
                {
                    proof {
                        assert(decreases_to!(*self => self->Array_0));
                        assert(decreases_to!(*items => items[i as int]));
                    }
                    let ghost done = copies@;
                    let copy = items[i].clone();
                    copies.push(copy);
                    i += 1;
                    proof {
                        assert forall|j: int| 0 <= j < i implies value_views(copies@)[j]
                            == value_views(items@)[j] by {
                            if j < i - 1 {
                                assert(value_views(done)[j] == value_views(items@).take(i - 1)[j]);
                            }
                        }
                        assert(value_views(copies@) =~= value_views(items@).take(i as int));
                    }
                }
                let copy = ConfigValue::Array(copies);
                proof {
                    lemma_view_of_children(copy);
                    assert(value_views(items@).take(i as int) =~= value_views(items@));
                }
                copy
            },
            ConfigValue::Table(entries) => {
                let mut copies: Vec<TableEntry> = Vec::new();
                let mut i: usize = 0;
                while i < entries.len()
                    invariant
                        i <= entries.len(),
                        *self == ConfigValue::Table(*entries),
                        copies.len() == i,
                        entry_views(copies@) == entry_views(entries@).take(i as int),
                    decreases entries.len() - i,
                {
                    proof {
                        assert(decreases_to!(*self => self->Table_0));
                        assert(decreases_to!(*entries => entries[i as int]));
                    }
                    let ghost done = copies@;
                    let copy = entries[i].clone();
                    copies.push(copy);
                    i += 1;
                    proof {
                        assert forall|j: int| 0 <= j < i implies entry_views(copies@)[j]
                            == entry_views(entries@)[j] by {
                            if j < i - 1 {
                                assert(entry_views(done)[j] == entry_views(entries@).take(i - 1)[j]);
                            }
                        }
                        assert(entry_views(copies@) =~= entry_views(entries@).take(i as int));
                    }
                }
                let copy = ConfigValue::Table(copies);
                proof {
                    lemma_view_of_children(copy);
                    assert(entry_views(entries@).take(i as int) =~= entry_views(entries@));
                }
                copy
            },
        }
    }
}

impl TableEntry {
    /// Whether this entry and `other` hold the same key and the same value.
    pub fn same_as(&self, other: &TableEntry) -> (same: bool)
        ensures
            same == (self@ == other@),
        decreases self,
    {
        same_text(self.key.as_str(), other.key.as_str()) && self.value.same_as(&other.value)
    }
}

impl ConfigValue {
    /// Whether this value and `other` hold the same tree.
    pub fn same_as(&self, other: &ConfigValue) -> (same: bool)
        ensures
            same == (self@ == other@),
        decreases self,
    {
        proof {
            lemma_view_of_children(*self);
            lemma_view_of_children(*other);
        }
        match (self, other) {
            (ConfigValue::String(a), ConfigValue::String(b)) => same_text(a.as_str(), b.as_str()),
            (ConfigValue::Integer(a), ConfigValue::Integer(b)) => *a == *b,
            (ConfigValue::Float(a), ConfigValue::Float(b)) => same_text(a.as_str(), b.as_str()),
            (ConfigValue::Boolean(a), ConfigValue::Boolean(b)) => *a == *b,
            (ConfigValue::Datetime(a), ConfigValue::Datetime(b)) => same_text(
                a.as_str(),
                b.as_str(),
            ),
            (ConfigValue::Array(a), ConfigValue::Array(b)) => {
                if a.len() != b.len() {
                    proof {
                        assert(value_views(a@).len() != value_views(b@).len());
                    }
                    return false;
                }
                let mut i: usize = 0;
                while i < a.len()
                    invariant
                        i <= a.len(),
                        a.len() == b.len(),
                        *self == ConfigValue::Array(*a),
                        self@ == ConfigValueView::Array(value_views(a@)),
                        other@ == ConfigValueView::Array(value_views(b@)),
                        forall|j: int| 0 <= j < i ==> value_views(a@)[j] == value_views(b@)[j],
                    decreases a.len() - i,
                {
                    proof {
                        assert(decreases_to!(*self => self->Array_0));
                        assert(decreases_to!(*a => a[i as int]));
                    }
                    if !a[i].same_as(&b[i]) {
                        proof {
                            assert(value_views(a@)[i as int] != value_views(b@)[i as int]);
                        }
                        return false;
                    }
                    i += 1;
                }
                proof {
                    assert(value_views(a@) =~= value_views(b@));
                }
                true
            },
            (ConfigValue::Table(a), ConfigValue::Table(b)) => {
                if a.len() != b.len() {
                    proof {
                        assert(entry_views(a@).len() != entry_views(b@).len());
                    }
                    return false;
                }
                let mut i: usize = 0;
                while i < a.len()
                    invariant
                        i <= a.len(),
                        a.len() == b.len(),
                        *self == ConfigValue::Table(*a),
                        self@ == ConfigValueView::Table(entry_views(a@)),
                        other@ == ConfigValueView::Table(entry_views(b@)),
                        forall|j: int| 0 <= j < i ==> entry_views(a@)[j] == entry_views(b@)[j],
                    decreases a.len() - i,
                {
                    proof {
                        assert(decreases_to!(*self => self->Table_0));
                        assert(decreases_to!(*a => a[i as int]));
                    }
                    if !a[i].same_as(&b[i]) {
                        proof {
                            assert(entry_views(a@)[i as int] != entry_views(b@)[i as int]);
                        }
                        return false;
                    }
                    i += 1;
                }
                proof {
                    assert(entry_views(a@) =~= entry_views(b@));
                }
                true
            },
            _ => false,
        }
    }
}

/// No two of `entries` have the same key.
pub open spec fn keys_distinct(entries: Seq<TableEntryView>) -> bool {
    forall|i: int, j: int|
        #![trigger entries[i], entries[j]]
        0 <= i < j < entries.len() ==> entries[i].key != entries[j].key
}

/// No table anywhere in `value` has two entries of the same key.
pub open spec fn keys_distinct_throughout(value: ConfigValueView) -> bool
    decreases value,
{
    match value {
        ConfigValueView::Table(entries) => keys_distinct(entries) && forall|i: int|
            0 <= i < entries.len() ==> keys_distinct_throughout((#[trigger] entries[i]).value),
        ConfigValueView::Array(items) => forall|i: int|
            0 <= i < items.len() ==> keys_distinct_throughout(#[trigger] items[i]),
        _ => true,
    }
}

/// Whether no two of `entries` have the same key.
pub fn has_distinct_keys(entries: &Vec<TableEntry>) -> (distinct: bool)
    ensures
        distinct == keys_distinct(entry_views(entries@)),
{
    let ghost views = entry_views(entries@);
    let mut j: usize = 0;
    while j < entries.len()
        invariant
            j <= entries.len(),
            views == entry_views(entries@),
            forall|a: int, b: int|
                #![trigger views[a], views[b]]
                0 <= a < b < j ==> views[a].key != views[b].key,
        decreases entries.len() - j,
    {
        let mut i: usize = 0;
        while i < j
            invariant
                i <= j < entries.len(),
                views == entry_views(entries@),
                forall|a: int| 0 <= a < i ==> (#[trigger] views[a]).key != views[j as int].key,
            decreases j - i,
        {
            if same_text(entries[i].key.as_str(), entries[j].key.as_str()) {
                proof {
                    assert(views[i as int].key == views[j as int].key);
                }
                return false;
            }
            i += 1;
        }
        j += 1;
    }
    true
}

/// The type tag of a value: one tag for each kind of value.
pub open spec fn classify(value: ConfigValueView) -> Seq<char> {
    match value {
        ConfigValueView::String(_) => "string"@,
        ConfigValueView::Integer(_) => "integer"@,
        ConfigValueView::Float(_) => "float"@,
        ConfigValueView::Boolean(_) => "boolean"@,
        ConfigValueView::Array(_) => "array"@,
        ConfigValueView::Table(_) => "table"@,
        ConfigValueView::Datetime(_) => "datetime"@,
    }
}

/// Two values are of the same kind.
pub open spec fn same_kind(a: ConfigValueView, b: ConfigValueView) -> bool {
    ||| a is String && b is String
    ||| a is Integer && b is Integer
    ||| a is Float && b is Float
    ||| a is Boolean && b is Boolean
    ||| a is Datetime && b is Datetime
    ||| a is Array && b is Array
    ||| a is Table && b is Table
}

/// The type tag tells the kind: two values have the same tag exactly when they are
/// of the same kind.
pub proof fn lemma_tag_tells_kind(a: ConfigValueView, b: ConfigValueView)
    ensures
        classify(a) == classify(b) <==> same_kind(a, b),
{
    reveal_strlit("string");
    reveal_strlit("integer");
    reveal_strlit("float");
    reveal_strlit("boolean");
    reveal_strlit("array");
    reveal_strlit("table");
    reveal_strlit("datetime");
    assert("string"@.len() == 6);
    assert("datetime"@.len() == 8);
    assert("integer"@.len() == 7 && "integer"@[0] == 'i');
    assert("boolean"@.len() == 7 && "boolean"@[0] == 'b');
    assert("float"@.len() == 5 && "float"@[0] == 'f');
    assert("array"@.len() == 5 && "array"@[0] == 'a');
    assert("table"@.len() == 5 && "table"@[0] == 't');
}

/// The written form of a value.
pub open spec fn render(value: ConfigValueView) -> Seq<char>
    decreases value,
{
    match value {
        ConfigValueView::String(text) => render_string(text),
        ConfigValueView::Integer(i) => signed_decimal(i as int),
        ConfigValueView::Float(text) => float_literal(text),
        ConfigValueView::Boolean(b) => if b {
            "true"@
        } else {
            "false"@
        },
        ConfigValueView::Array(items) => "["@ + join(render_each(items), ", "@) + "]"@,
        ConfigValueView::Table(_) => "{}"@,
        ConfigValueView::Datetime(text) => render_quoted(text),
    }
}

/// The written forms of `items`, one for each.
pub open spec fn render_each(items: Seq<ConfigValueView>) -> Seq<Seq<char>>
    decreases items,
{
    Seq::new(
        items.len(),
        |i: int|
            if 0 <= i < items.len() {
                render(items[i])
            } else {
                arbitrary()
            },
    )
}

/// `render_each` holds the written form of each item, in order.
pub proof fn lemma_render_each(items: Seq<ConfigValueView>)
    ensures
        render_each(items).len() == items.len(),
        forall|i: int| 0 <= i < items.len() ==> #[trigger] render_each(items)[i] == render(items[i]),
{
    reveal_with_fuel(render_each, 2);
}

/// A string that holds a line feed is written between three double quotes on each
/// side, after a line feed of the opening where the text itself begins with one; any
/// other string between one double quote on each side.
pub proof fn lemma_written_form_of_string(text: Seq<char>)
    ensures
        text.contains('\n') ==> render(ConfigValueView::String(text)) == opening_quotes(text)
            + escaped_text(text, true) + "\"\"\""@,
        !text.contains('\n') ==> render(ConfigValueView::String(text)) == "\""@ + escaped_text(
            text,
            false,
        ) + "\""@,
{
}

/// A text of several lines in which every character reads back as itself where it
/// stands is written as it is between triple quotes: nothing is put before it, after
/// it or into it.
pub proof fn lemma_plain_multi_line_string(text: Seq<char>)
    requires
        text.contains('\n'),
        text[0] != '\n',
        forall|i: int| 0 <= i < text.len() ==> stands_as_it_is(text, i, true),
    ensures
        render(ConfigValueView::String(text)) == "\"\"\""@ + text + "\"\"\""@,
{
    lemma_written_as_it_is(text, text.len() as int);
    assert(text.take(text.len() as int) =~= text);
}

/// Where every character up to `count` stands as it is, what stands for them is
/// they themselves.
pub proof fn lemma_written_as_it_is(text: Seq<char>, count: int)
    requires
        0 <= count <= text.len(),
        forall|i: int| 0 <= i < count ==> stands_as_it_is(text, i, true),
    ensures
        written_range(text, 0, count, true) == text.take(count),
    decreases count,
{
    if count == 0 {
        assert(written_range(text, 0, 0, true) =~= text.take(0));
    } else {
        lemma_written_as_it_is(text, count - 1);
        assert(written_range(text, 0, count, true) =~= text.take(count));
    }
}

impl ConfigManager {
    /// The type tag of `value`.
    pub fn determine_field_type(&self, value: &ConfigValue) -> (tag: String)
        ensures
            tag@ == classify(value@),
    {
        match value {
            ConfigValue::String(_) => "string".to_owned(),
            ConfigValue::Integer(_) => "integer".to_owned(),
            ConfigValue::Float(_) => "float".to_owned(),
            ConfigValue::Boolean(_) => "boolean".to_owned(),
            ConfigValue::Array(_) => "array".to_owned(),
            ConfigValue::Table(_) => "table".to_owned(),
            ConfigValue::Datetime(_) => "datetime".to_owned(),
        }
    }

    /// The written form of `value`.
    pub fn value_to_toml_string(&self, value: &ConfigValue) -> (text: String)
        ensures
            text@ == render(value@),
        decreases value,
    {
        match value {
            ConfigValue::String(s) => string_literal(s.as_str()),
            ConfigValue::Integer(i) => {
                let mut text = String::new();
                push_signed_decimal(&mut text, *i);
                text
            },
            ConfigValue::Float(s) => float_literal_of(s.as_str()),
            ConfigValue::Boolean(b) => {
                if *b {
                    "true".to_owned()
                } else {
                    "false".to_owned()
                }
            },
            ConfigValue::Array(items) => {
                let ghost parts = render_each(value_views(items@));
                let mut joined = String::new();
                let mut i: usize = 0;
                while i < items.len()
                    invariant
                        i <= items.len(),
                        *value == ConfigValue::Array(*items),
                        parts == render_each(value_views(items@)),
                        joined@ == join(parts.take(i as int), ", "@),
                    decreases items.len() - i,
                {
                    if i > 0 {
                        joined.append(", ");
                    }
                    proof {
                        assert(decreases_to!(*value => value->Array_0));
                        assert(decreases_to!(*items => items[i as int]));
                    }
                    let part = self.value_to_toml_string(&items[i]);
                    joined.append(part.as_str());
                    proof {
                        lemma_render_each(value_views(items@));
                        assert(parts.take(i + 1).drop_last() =~= parts.take(i as int));
                        assert(parts.take(i + 1).last() == part@);
                    }
                    i += 1;
                }
                let mut text = "[".to_owned();
                text.append(joined.as_str());
                text.append("]");
                proof {
                    assert(parts.take(i as int) =~= parts);
                    lemma_view_of_children(*value);
                }
                text
            },
            ConfigValue::Table(_) => "{}".to_owned(),
            ConfigValue::Datetime(s) => quoted_literal(s.as_str()),
        }
    }
}

} // verus!
