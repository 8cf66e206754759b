use mofox_ui::document::{ConfigField, ConfigFile, ConfigSection};
use mofox_ui::document::PluginConfig;
use mofox_ui::manager::{
    ConfigManager, FileWrite, PluginError, PluginListing, PluginSource, SyntaxError,
};
use mofox_ui::round_trip::{holds_triple, same_triples, triples_within};
use mofox_ui::value::{ConfigValue, TableEntry};

fn some(s: &str) -> Option<String> {
    Some(s.to_string())
}

fn field(name: &str, value: ConfigValue, tag: &str, comment: Option<&str>, section: &str) -> ConfigField {
    ConfigField {
        name: name.to_string(),
        value,
        field_type: tag.to_string(),
        comment: comment.map(|c| c.to_string()),
        section: section.to_string(),
    }
}

fn triples(file: &ConfigFile) -> Vec<(String, String, ConfigValue)> {
    let mut out = Vec::new();
    for s in &file.sections {
        for f in &s.fields {
            out.push((s.name.clone(), f.name.clone(), f.value.clone()));
        }
    }
    out
}

#[test]
fn new_manager_points_at_the_usual_places() {
    let m = ConfigManager::new();
    assert_eq!(m.bot_config_path(), "../Bot/config/bot_config.toml");
    assert_eq!(m.model_config_path(), "../Bot/config/model_config.toml");
    assert_eq!(m.plugins_dir(), "../Bot/config/plugins");
}

#[test]
fn document_keeps_name_path_and_raw_text() {
    let m = ConfigManager::new();
    let content = "# hello\n[sec]\nkey = 1 # inline\n";
    let file = m.parse_config_file(content, "some/where.toml", "where.toml").unwrap();
    assert_eq!(file.filename, "where.toml");
    assert_eq!(file.path, "some/where.toml");
    assert_eq!(file.raw_content, content);
    assert_eq!(
        file.sections,
        vec![ConfigSection {
            name: "sec".to_string(),
            fields: vec![field("key", ConfigValue::Integer(1), "integer", Some("inline"), "sec")],
            comment: some("hello"),
        }]
    );
}

#[test]
fn bot_and_model_documents_carry_their_names() {
    let m = ConfigManager::new();
    let bot = m.get_bot_config("[bot]\nname = \"fox\"\n").unwrap();
    assert_eq!(bot.filename, "bot_config.toml");
    assert_eq!(bot.path, "../Bot/config/bot_config.toml");
    assert_eq!(bot.sections[0].fields[0].value, ConfigValue::String("fox".to_string()));
    let model = m.get_model_config("[model]\ntemperature = 0.5\n").unwrap();
    assert_eq!(model.filename, "model_config.toml");
    assert_eq!(model.path, "../Bot/config/model_config.toml");
    assert_eq!(model.sections[0].fields[0].value, ConfigValue::Float("0.5".to_string()));
    assert_eq!(model.sections[0].fields[0].field_type, "float");
}

#[test]
fn malformed_text_is_a_syntax_error() {
    let m = ConfigManager::new();
    let err = m.parse_config_file("key = \n", "p", "f").unwrap_err();
    assert!(!err.message.is_empty());
    assert!(m.parse_config_file("[sec\n", "p", "f").is_err());
    assert!(m.parse_config_file("a = 1\na = 2\n", "p", "f").is_err());
    assert!(m.get_bot_config("= 1").is_err());
    assert!(m.get_model_config("[[x]\n").is_err());
}

#[test]
fn empty_text_is_a_document_without_sections() {
    let m = ConfigManager::new();
    let file = m.parse_config_file("", "p", "f").unwrap();
    assert!(file.sections.is_empty());
    let file = m.parse_config_file("# only a comment\n", "p", "f").unwrap();
    assert!(file.sections.is_empty());
}

#[test]
fn array_of_tables() {
    let m = ConfigManager::new();
    let file = m.parse_config_file("[[p]]\na=1\n[[p]]\na=2\n", "p", "f").unwrap();
    assert_eq!(file.sections.len(), 1);
    let section = &file.sections[0];
    assert_eq!(section.name, "p");
    assert_eq!(section.fields.len(), 2);
    assert_eq!(section.fields[0].name, "[0].a");
    assert_eq!(section.fields[0].value, ConfigValue::Integer(1));
    assert_eq!(section.fields[0].section, "p");
    assert_eq!(section.fields[1].name, "[1].a");
    assert_eq!(section.fields[1].value, ConfigValue::Integer(2));
    assert_eq!(section.fields[1].section, "p");
}

#[test]
fn array_of_tables_looks_comments_up_by_the_plain_key() {
    let m = ConfigManager::new();
    let content = "[[p]]\n# the name\nname = \"a\"\nurl = \"u\" # where\n[[p]]\nname = \"b\"\n";
    let file = m.parse_config_file(content, "p", "f").unwrap();
    let fields = &file.sections[0].fields;
    assert_eq!(fields.len(), 3);
    assert_eq!(fields[0].name, "[0].name");
    assert_eq!(fields[0].comment, some("the name"));
    assert_eq!(fields[1].name, "[0].url");
    assert_eq!(fields[1].comment, some("where"));
    assert_eq!(fields[2].name, "[1].name");
    assert_eq!(fields[2].comment, some("the name"));
}

#[test]
fn array_of_tables_counts_past_nine() {
    let m = ConfigManager::new();
    let mut items = Vec::new();
    for i in 0..12 {
        items.push(ConfigValue::Table(vec![TableEntry {
            key: "k".to_string(),
            value: ConfigValue::Integer(i),
        }]));
    }
    let fields = m.extract_fields_from_section("", "s", &ConfigValue::Array(items));
    assert_eq!(fields.len(), 12);
    assert_eq!(fields[9].name, "[9].k");
    assert_eq!(fields[10].name, "[10].k");
    assert_eq!(fields[11].name, "[11].k");
    assert_eq!(fields[11].value, ConfigValue::Integer(11));
}

#[test]
fn table_gives_one_field_for_each_entry() {
    let m = ConfigManager::new();
    let table = ConfigValue::Table(vec![
        TableEntry { key: "a".to_string(), value: ConfigValue::Integer(1) },
        TableEntry { key: "b".to_string(), value: ConfigValue::Boolean(true) },
    ]);
    let fields = m.extract_fields_from_section("a = 1 # one\n# two\nb = true\n", "s", &table);
    assert_eq!(
        fields,
        vec![
            field("a", ConfigValue::Integer(1), "integer", Some("one"), "s"),
            field("b", ConfigValue::Boolean(true), "boolean", Some("two"), "s"),
        ]
    );
    assert_eq!(m.extract_fields_from_section("", "s", &ConfigValue::Table(vec![])), vec![]);
}

#[test]
fn bare_value_gives_one_field_outside_any_section() {
    let m = ConfigManager::new();
    let fields = m.extract_fields_from_section("title = \"x\" # t\n", "title", &ConfigValue::String("x".to_string()));
    assert_eq!(fields, vec![field("title", ConfigValue::String("x".to_string()), "string", Some("t"), "")]);
}

#[test]
fn array_that_holds_no_tables_is_a_bare_value() {
    let m = ConfigManager::new();
    let list = ConfigValue::Array(vec![ConfigValue::Integer(1), ConfigValue::Integer(2)]);
    let fields = m.extract_fields_from_section("", "ports", &list);
    assert_eq!(fields, vec![field("ports", list.clone(), "array", None, "")]);
    let empty = ConfigValue::Array(vec![]);
    let fields = m.extract_fields_from_section("", "ports", &empty);
    assert_eq!(fields, vec![field("ports", empty.clone(), "array", None, "")]);
    let mixed = ConfigValue::Array(vec![ConfigValue::Table(vec![]), ConfigValue::Integer(2)]);
    let fields = m.extract_fields_from_section("", "ports", &mixed);
    assert_eq!(fields, vec![field("ports", mixed.clone(), "array", None, "")]);
}

#[test]
fn holds_tables_only_tells_arrays_of_tables() {
    let m = ConfigManager::new();
    assert!(m.holds_tables_only(&ConfigValue::Array(vec![ConfigValue::Table(vec![])])));
    assert!(!m.holds_tables_only(&ConfigValue::Array(vec![])));
    assert!(!m.holds_tables_only(&ConfigValue::Array(vec![
        ConfigValue::Table(vec![]),
        ConfigValue::Integer(1)
    ])));
    assert!(!m.holds_tables_only(&ConfigValue::Table(vec![])));
    assert!(!m.holds_tables_only(&ConfigValue::Integer(1)));
}

#[test]
fn top_level_values_become_sections_of_their_own() {
    let m = ConfigManager::new();
    let content = "# the title\ntitle = \"x\"\nports = [1, 2]\n";
    let file = m.parse_config_file(content, "p", "f").unwrap();
    assert_eq!(file.sections.len(), 2);
    assert_eq!(file.sections[0].name, "ports");
    assert_eq!(file.sections[0].fields.len(), 1);
    assert_eq!(file.sections[0].fields[0].name, "ports");
    assert_eq!(file.sections[0].fields[0].section, "");
    assert_eq!(file.sections[0].fields[0].field_type, "array");
    assert_eq!(file.sections[1].name, "title");
    assert_eq!(file.sections[1].fields[0].name, "title");
    assert_eq!(file.sections[1].fields[0].section, "");
    assert_eq!(file.sections[1].fields[0].comment, some("the title"));
}

#[test]
fn tree_that_is_no_table_has_no_sections() {
    let m = ConfigManager::new();
    assert!(m.extract_sections_with_comments("", &ConfigValue::Integer(1)).is_empty());
    assert!(m.extract_sections_with_comments("", &ConfigValue::Array(vec![])).is_empty());
    assert!(m.extract_sections_with_comments("", &ConfigValue::Table(vec![])).is_empty());
}

#[test]
fn every_kind_of_value_is_read_with_its_tag() {
    let m = ConfigManager::new();
    let content = "[all]\ns = \"text\"\ni = -12\nf = 2.5\nb = false\nd = 1979-05-27T07:32:00Z\na = [1, \"two\"]\nt = { x = 1 }\n";
    let file = m.parse_config_file(content, "p", "f").unwrap();
    let fields = &file.sections[0].fields;
    let find = |name: &str| fields.iter().find(|f| f.name == name).unwrap();
    assert_eq!(find("s").value, ConfigValue::String("text".to_string()));
    assert_eq!(find("s").field_type, "string");
    assert_eq!(find("i").value, ConfigValue::Integer(-12));
    assert_eq!(find("i").field_type, "integer");
    assert_eq!(find("f").value, ConfigValue::Float("2.5".to_string()));
    assert_eq!(find("f").field_type, "float");
    assert_eq!(find("b").value, ConfigValue::Boolean(false));
    assert_eq!(find("b").field_type, "boolean");
    assert_eq!(find("d").value, ConfigValue::Datetime("1979-05-27T07:32:00Z".to_string()));
    assert_eq!(find("d").field_type, "datetime");
    assert_eq!(
        find("a").value,
        ConfigValue::Array(vec![ConfigValue::Integer(1), ConfigValue::String("two".to_string())])
    );
    assert_eq!(find("a").field_type, "array");
    assert_eq!(
        find("t").value,
        ConfigValue::Table(vec![TableEntry { key: "x".to_string(), value: ConfigValue::Integer(1) }])
    );
    assert_eq!(find("t").field_type, "table");
}

#[test]
fn type_tag_matches_the_value_of_every_field() {
    let m = ConfigManager::new();
    let content = "top = 1\n[a]\ns = \"x\"\nf = 1.5\nl = [true]\n[b]\nd = 2024-01-02\nt = { k = \"v\" }\n[[c]]\nn = 1\n[[c]]\nn = \"two\"\n";
    let file = m.parse_config_file(content, "p", "f").unwrap();
    let mut seen = 0;
    for section in &file.sections {
        for f in &section.fields {
            assert_eq!(f.field_type, m.determine_field_type(&f.value));
            seen += 1;
        }
    }
    assert_eq!(seen, 8);
}

#[test]
fn document_is_written_with_comments_headers_and_empty_lines() {
    let m = ConfigManager::new();
    let file = ConfigFile {
        filename: "f".to_string(),
        path: "p".to_string(),
        sections: vec![
            ConfigSection {
                name: "server".to_string(),
                fields: vec![
                    field("host", ConfigValue::String("localhost".to_string()), "string", Some("where"), "server"),
                    field("port", ConfigValue::Integer(8080), "integer", None, "server"),
                ],
                comment: some("the server"),
            },
            ConfigSection { name: "".to_string(), fields: vec![
                field("debug", ConfigValue::Boolean(true), "boolean", None, ""),
            ], comment: None },
            ConfigSection { name: "empty".to_string(), fields: vec![], comment: None },
        ],
        raw_content: "ignored".to_string(),
    };
    assert_eq!(
        m.reconstruct_toml_with_comments(&file),
        "# the server\n[server]\n# where\nhost = \"localhost\"\nport = 8080\n\ndebug = true\n\n[empty]\n\n"
    );
}

#[test]
fn document_without_sections_is_written_as_nothing() {
    let m = ConfigManager::new();
    let file = ConfigFile {
        filename: "f".to_string(),
        path: "p".to_string(),
        sections: vec![],
        raw_content: "x = 1".to_string(),
    };
    assert_eq!(m.reconstruct_toml_with_comments(&file), "");
}

#[test]
fn indexed_names_are_written_back_as_they_are() {
    let m = ConfigManager::new();
    let file = m.parse_config_file("[[p]]\na=1\n[[p]]\na=2\n", "p", "f").unwrap();
    assert_eq!(m.reconstruct_toml_with_comments(&file), "[p]\n[0].a = 1\n[1].a = 2\n\n");
}

#[test]
fn save_writes_the_document_to_the_given_path() {
    let m = ConfigManager::new();
    let file = m.parse_config_file("# c\n[s]\nk = \"v\" # i\n", "from.toml", "from.toml").unwrap();
    assert_eq!(
        m.save_config("to/other.toml", &file),
        FileWrite {
            path: "to/other.toml".to_string(),
            content: "# c\n[s]\n# i\nk = \"v\"\n\n".to_string(),
        }
    );
}

#[test]
fn round_trip_keeps_sections_names_and_values() {
    let m = ConfigManager::new();
    let content = "# bot\n[bot]\nname = \"fox\" # the name\nage = 3\nratio = 0.25\nactive = true\ntags = [\"a\", \"b\"]\n\n# model\n[model]\n# how many\ncount = -7\n";
    let first = m.parse_config_file(content, "p", "f").unwrap();
    let text = m.reconstruct_toml_with_comments(&first);
    let second = m.parse_config_file(&text, "p", "f").unwrap();
    assert_eq!(triples(&second), triples(&first));
    assert_eq!(second.sections, first.sections);
}

#[test]
fn multi_line_string_round_trip() {
    let m = ConfigManager::new();
    let content = "[s]\ntext = \"\"\"line1\nline2\"\"\"\n";
    let first = m.parse_config_file(content, "p", "f").unwrap();
    assert_eq!(first.sections[0].fields[0].value, ConfigValue::String("line1\nline2".to_string()));
    let text = m.reconstruct_toml_with_comments(&first);
    assert_eq!(text, "[s]\ntext = \"\"\"line1\nline2\"\"\"\n\n");
    let second = m.parse_config_file(&text, "p", "f").unwrap();
    assert_eq!(second.sections[0].fields[0].value, ConfigValue::String("line1\nline2".to_string()));
    assert_eq!(m.round_trip_keeps_triples(content), Some(true));
}

#[test]
fn sections_follow_the_order_of_the_tree() {
    let m = ConfigManager::new();
    let file = m.parse_config_file("[b]\ny = 1\nx = 2\n[a]\nz = 3\n", "p", "f").unwrap();
    let names: Vec<&str> = file.sections.iter().map(|s| s.name.as_str()).collect();
    assert_eq!(names, vec!["a", "b"]);
    let fields: Vec<&str> = file.sections[1].fields.iter().map(|f| f.name.as_str()).collect();
    assert_eq!(fields, vec!["x", "y"]);
    let tree = ConfigValue::Table(vec![
        TableEntry { key: "z".to_string(), value: ConfigValue::Table(vec![]) },
        TableEntry { key: "a".to_string(), value: ConfigValue::Table(vec![]) },
    ]);
    let sections = m.extract_sections_with_comments("", &tree);
    let names: Vec<&str> = sections.iter().map(|s| s.name.as_str()).collect();
    assert_eq!(names, vec!["z", "a"]);
}

#[test]
fn no_plugins_found_gives_an_empty_list() {
    let m = ConfigManager::new();
    assert!(m.get_plugin_configs(&vec![]).is_empty());
}

fn plugin_sources() -> Vec<PluginSource> {
    vec![
        PluginSource {
            name: "good".to_string(),
            config_path: "plugins/good/config.toml".to_string(),
            content: Ok("# main\n[main]\non = true\n".to_string()),
        },
        PluginSource {
            name: "broken".to_string(),
            config_path: "plugins/broken/config.toml".to_string(),
            content: Ok("a = 1\na = 2\n".to_string()),
        },
        PluginSource {
            name: "unreadable".to_string(),
            config_path: "plugins/unreadable/config.toml".to_string(),
            content: Err("permission denied".to_string()),
        },
        PluginSource {
            name: "other".to_string(),
            config_path: "plugins/other/config.toml".to_string(),
            content: Ok("".to_string()),
        },
    ]
}

#[test]
fn plugin_that_fails_is_left_out_and_the_others_are_served() {
    let m = ConfigManager::new();
    let sources = plugin_sources();
    let plugins = m.get_plugin_configs(&sources);
    assert_eq!(plugins.len(), 2);
    assert_eq!(plugins[0].name, "good");
    assert_eq!(plugins[0].path, "plugins/good/config.toml");
    assert_eq!(plugins[0].config.filename, "good/config.toml");
    assert_eq!(plugins[0].config.path, "plugins/good/config.toml");
    assert_eq!(plugins[0].config.sections[0].comment, some("main"));
    assert_eq!(plugins[1].name, "other");
    assert_eq!(plugins[1].config.filename, "other/config.toml");
    assert!(plugins[1].config.sections.is_empty());
    assert_eq!(m.load_plugin_config(&sources[0]), Ok(plugins[0].clone()));
}

#[test]
fn failure_of_a_plugin_carries_its_name_and_the_message() {
    let m = ConfigManager::new();
    let sources = plugin_sources();
    let broken = m.load_plugin_config(&sources[1]).unwrap_err();
    assert_eq!(broken.name, "broken");
    assert!(broken.message.contains("duplicate key"));
    assert_eq!(
        m.load_plugin_config(&sources[2]),
        Err(PluginError { name: "unreadable".to_string(), message: "permission denied".to_string() })
    );
    let listing = m.list_plugin_configs(&sources);
    assert_eq!(listing.plugins, m.get_plugin_configs(&sources));
    assert_eq!(listing.failures.len(), 2);
    assert_eq!(listing.failures[0], broken);
    assert_eq!(listing.failures[1].name, "unreadable");
    assert_eq!(listing.failures[1].message, "permission denied");
    assert_eq!(
        m.list_plugin_configs(&vec![]),
        PluginListing { plugins: vec![], failures: vec![] }
    );
}

#[test]
fn build_config_file_works_on_a_given_tree() {
    let m = ConfigManager::new();
    let tree = ConfigValue::Table(vec![TableEntry {
        key: "sec".to_string(),
        value: ConfigValue::Table(vec![TableEntry {
            key: "key".to_string(),
            value: ConfigValue::Integer(1),
        }]),
    }]);
    let content = "# hello\n[sec]\nkey = 1 # inline\n";
    let file = m.build_config_file(content, &tree, "path", "name");
    assert_eq!(file, m.parse_config_file(content, "path", "name").unwrap());
}

#[test]
fn round_trip_keeps_values_of_the_top_level() {
    let m = ConfigManager::new();
    let content = "# the title\ntitle = \"x\"\nports = [1, 2]\n[a]\nk = 1\n";
    let first = m.parse_config_file(content, "p", "f").unwrap();
    let text = m.reconstruct_toml_with_comments(&first);
    assert_eq!(
        text,
        "[a]\nk = 1\n\n[ports]\nports = [1, 2]\n\n[title]\n# the title\ntitle = \"x\"\n\n"
    );
    let second = m.parse_config_file(&text, "p", "f").unwrap();
    assert_eq!(triples(&second), triples(&first));
}

#[test]
fn round_trip_loses_the_shape_of_a_repeated_section() {
    let m = ConfigManager::new();
    let first = m.parse_config_file("[[p]]\na=1\n[[p]]\na=2\n", "p", "f").unwrap();
    let text = m.reconstruct_toml_with_comments(&first);
    assert!(m.parse_config_file(&text, "p", "f").is_err());
}

#[test]
fn a_copy_holds_what_was_copied() {
    let m = ConfigManager::new();
    let content = "# c\n[s]\nk = \"v\" # i\nlist = [1, [2.5, true]]\n[[p]]\nd = 2024-01-02\n";
    let file = m.parse_config_file(content, "path", "name").unwrap();
    assert_eq!(file.clone(), file);
    assert_eq!(file.sections[0].clone(), file.sections[0]);
    assert_eq!(file.sections[0].fields[0].clone(), file.sections[0].fields[0]);
    let plugin = PluginConfig { name: "n".to_string(), path: "p".to_string(), config: file };
    assert_eq!(plugin.clone(), plugin);
    let source = PluginSource {
        name: "n".to_string(),
        config_path: "p".to_string(),
        content: Ok("x = 1".to_string()),
    };
    assert_eq!(source.clone(), source);
    let missing = PluginSource {
        name: "n".to_string(),
        config_path: "p".to_string(),
        content: Err("gone".to_string()),
    };
    assert_eq!(missing.clone(), missing);
    let failure = PluginError { name: "n".to_string(), message: "m".to_string() };
    assert_eq!(failure.clone(), failure);
    let write = FileWrite { path: "p".to_string(), content: "c".to_string() };
    assert_eq!(write.clone(), write);
    let error = SyntaxError { message: "m".to_string() };
    assert_eq!(error.clone(), error);
}

#[test]
fn syntax_error_carries_the_message_of_the_parser() {
    let m = ConfigManager::new();
    let err = m.parse_config_file("a = 1\na = 2\n", "p", "f").unwrap_err();
    assert!(err.message.contains("duplicate key"));
}

fn written_and_read_again(m: &ConfigManager, value: ConfigValue) -> ConfigValue {
    let tree = ConfigValue::Table(vec![TableEntry {
        key: "s".to_string(),
        value: ConfigValue::Table(vec![TableEntry { key: "k".to_string(), value }]),
    }]);
    let first = m.build_config_file("", &tree, "p", "f");
    let text = m.reconstruct_toml_with_comments(&first);
    let second = m.parse_config_file(&text, "p", "f").unwrap();
    second.sections[0].fields[0].value.clone()
}

#[test]
fn floats_are_read_back_as_the_same_floats() {
    let m = ConfigManager::new();
    let content = "[v]\na = 1.0\nb = -0.5\nc = 1e3\nd = 6.02e23\ne = inf\nf = -inf\ng = 0.1\nh = -0.0\n";
    let first = m.parse_config_file(content, "p", "f").unwrap();
    let text = m.reconstruct_toml_with_comments(&first);
    assert_eq!(
        text,
        "[v]\na = 1.0\nb = -0.5\nc = 1000.0\nd = 602000000000000000000000.0\ne = inf\nf = -inf\ng = 0.1\nh = -0.0\n\n"
    );
    let second = m.parse_config_file(&text, "p", "f").unwrap();
    assert_eq!(second.sections, first.sections);
    for f in &second.sections[0].fields {
        assert_eq!(f.field_type, "float");
    }
    assert_eq!(m.round_trip_keeps_triples(content), Some(true));
}

#[test]
fn whole_float_stays_a_float() {
    let m = ConfigManager::new();
    let first = m.parse_config_file("[v]\na = 1.0\n", "p", "f").unwrap();
    let text = m.reconstruct_toml_with_comments(&first);
    assert_eq!(text, "[v]\na = 1.0\n\n");
    let second = m.parse_config_file(&text, "p", "f").unwrap();
    assert_eq!(second.sections[0].fields[0].value, first.sections[0].fields[0].value);
    assert_eq!(second.sections[0].fields[0].field_type, "float");
}

#[test]
fn not_a_number_is_written_as_the_literal_of_the_format() {
    let m = ConfigManager::new();
    let first = m.parse_config_file("[v]\na = nan\n", "p", "f").unwrap();
    assert_eq!(m.reconstruct_toml_with_comments(&first), "[v]\na = nan\n\n");
    assert_eq!(m.round_trip_keeps_triples("[v]\na = nan\n"), Some(true));
}

#[test]
fn strings_are_read_back_as_the_same_strings() {
    let m = ConfigManager::new();
    for s in [
        "",
        "plain",
        "say \"hi\"",
        "back\\slash",
        "ends with \\",
        "tab\there",
        "\u{0}\u{1}\u{8}\u{b}\u{c}\u{1f}\u{7f}",
        "carriage\rreturn",
        "line1\nline2",
        "\nbegins with a line feed",
        "ends with a line feed\n",
        "\n",
        "\n\n\n",
        "windows\r\nline",
        "quotes \"\"\" inside\nand \\ backslash\\\nat the end of a line",
        "  spaces kept  \n\t",
        "注释 # not a comment\n狐",
        "'single' # [x] = {}",
    ] {
        let value = ConfigValue::String(s.to_string());
        assert_eq!(written_and_read_again(&m, value.clone()), value);
    }
}

#[test]
fn string_with_a_double_quote_is_read_back() {
    let m = ConfigManager::new();
    let content = "[s]\ntext = 'say \"hi\"'\n";
    let first = m.parse_config_file(content, "p", "f").unwrap();
    assert_eq!(first.sections[0].fields[0].value, ConfigValue::String("say \"hi\"".to_string()));
    let text = m.reconstruct_toml_with_comments(&first);
    assert_eq!(text, "[s]\ntext = \"say \\\"hi\\\"\"\n\n");
    let second = m.parse_config_file(&text, "p", "f").unwrap();
    assert_eq!(second.sections, first.sections);
    assert_eq!(m.round_trip_keeps_triples(content), Some(true));
}

#[test]
fn other_values_are_read_back_as_the_same_values() {
    let m = ConfigManager::new();
    for value in [
        ConfigValue::Integer(0),
        ConfigValue::Integer(i64::MIN),
        ConfigValue::Integer(i64::MAX),
        ConfigValue::Boolean(true),
        ConfigValue::Boolean(false),
        ConfigValue::Array(vec![]),
        ConfigValue::Array(vec![
            ConfigValue::Integer(1),
            ConfigValue::String("a\"b\nc".to_string()),
            ConfigValue::Float("2".to_string()),
            ConfigValue::Array(vec![ConfigValue::Boolean(true)]),
        ]),
    ] {
        assert_eq!(written_and_read_again(&m, value.clone()), value);
    }
}

#[test]
fn date_time_is_read_back_as_a_string() {
    let m = ConfigManager::new();
    let content = "[v]\nd = 1979-05-27T07:32:00Z\n";
    let first = m.parse_config_file(content, "p", "f").unwrap();
    assert_eq!(
        first.sections[0].fields[0].value,
        ConfigValue::Datetime("1979-05-27T07:32:00Z".to_string())
    );
    let text = m.reconstruct_toml_with_comments(&first);
    assert_eq!(text, "[v]\nd = \"1979-05-27T07:32:00Z\"\n\n");
    let second = m.parse_config_file(&text, "p", "f").unwrap();
    assert_eq!(
        second.sections[0].fields[0].value,
        ConfigValue::String("1979-05-27T07:32:00Z".to_string())
    );
    assert_eq!(m.round_trip_keeps_triples(content), Some(false));
}

#[test]
fn round_trip_is_tested_on_the_text_itself() {
    let m = ConfigManager::new();
    let content = "# bot\n[bot]\nname = \"fox\" # the name\nage = 3\nratio = 2.0\ntags = [\"a\", \"b\"]\n\n[model]\ncount = -7\n";
    assert_eq!(m.round_trip_keeps_triples(content), Some(true));
    assert_eq!(m.round_trip_keeps_triples("top = 1\nlist = [1.0, 2.5]\n[a]\nk = 'x'\n"), Some(true));
    assert_eq!(m.round_trip_keeps_triples(""), Some(true));
    assert_eq!(m.round_trip_keeps_triples("[a\n"), None);
    assert_eq!(m.round_trip_keeps_triples("[[p]]\na=1\n[[p]]\na=2\n"), Some(false));
    assert_eq!(m.round_trip_keeps_triples("[a]\nt = { x = 1 }\n"), Some(false));
    assert_eq!(m.round_trip_keeps_triples("[a.b]\nx = 1\n"), Some(false));
}

#[test]
fn setting_a_value_refreshes_the_type_tag() {
    let m = ConfigManager::new();
    let mut f = field("k", ConfigValue::Integer(1), "integer", Some("c"), "s");
    m.set_field_value(&mut f, ConfigValue::String("one".to_string()));
    assert_eq!(f, field("k", ConfigValue::String("one".to_string()), "string", Some("c"), "s"));
    m.set_field_value(&mut f, ConfigValue::Array(vec![]));
    assert_eq!(f.field_type, "array");
    assert_eq!(f.value, ConfigValue::Array(vec![]));
}

#[test]
fn multi_line_string_that_begins_with_a_line_feed_keeps_it() {
    let m = ConfigManager::new();
    let tree = ConfigValue::Table(vec![TableEntry {
        key: "s".to_string(),
        value: ConfigValue::Table(vec![TableEntry {
            key: "text".to_string(),
            value: ConfigValue::String("\nabc\ndef".to_string()),
        }]),
    }]);
    let first = m.build_config_file("", &tree, "p", "f");
    let text = m.reconstruct_toml_with_comments(&first);
    assert_eq!(text, "[s]\ntext = \"\"\"\n\nabc\ndef\"\"\"\n\n");
    let second = m.parse_config_file(&text, "p", "f").unwrap();
    assert_eq!(second.sections[0].fields[0].value, ConfigValue::String("\nabc\ndef".to_string()));
}

#[test]
fn triples_are_compared_as_sets() {
    let m = ConfigManager::new();
    let a = m.parse_config_file("[s]\nx = 1\ny = 2\n[t]\nx = 1\n", "p", "f").unwrap().sections;
    let b = m.parse_config_file("[t]\nx = 1\n[s]\ny = 2\nx = 1\n", "p", "f").unwrap().sections;
    let c = m.parse_config_file("[s]\nx = 1\ny = 2\n", "p", "f").unwrap().sections;
    let d = m.parse_config_file("[s]\nx = 1\ny = 3\n[t]\nx = 1\n", "p", "f").unwrap().sections;
    assert!(same_triples(&a, &b));
    assert!(same_triples(&a, &a));
    assert!(!same_triples(&a, &c));
    assert!(!same_triples(&a, &d));
    assert!(triples_within(&c, &a));
    assert!(!triples_within(&a, &c));
    assert!(triples_within(&vec![], &a));
    assert!(same_triples(&vec![], &vec![]));
    assert!(holds_triple(&a, "t", "x", &ConfigValue::Integer(1)));
    assert!(!holds_triple(&a, "t", "y", &ConfigValue::Integer(2)));
    assert!(!holds_triple(&a, "s", "x", &ConfigValue::Integer(2)));
    assert!(!holds_triple(&a, "u", "x", &ConfigValue::Integer(1)));
}

#[test]
fn parsed_tables_have_distinct_keys_and_sections_distinct_names() {
    let m = ConfigManager::new();
    let file = m.parse_config_file("[b]\nx = 1\n[a]\nx = 2\ny = 3\n[c]\n", "p", "f").unwrap();
    for (i, s) in file.sections.iter().enumerate() {
        for t in &file.sections[i + 1..] {
            assert_ne!(s.name, t.name);
        }
    }
}

#[test]
fn every_character_of_a_string_is_read_back() {
    let m = ConfigManager::new();
    let mut codes: Vec<u32> = (0..0x200).collect();
    codes.extend([0x2028, 0x2029, 0x3000, 0xD7FF, 0xE000, 0xFEFF, 0xFFFD, 0x1F98A, 0x10FFFF]);
    for code in codes {
        let c = char::from_u32(code).unwrap();
        let one_line = ConfigValue::String(format!("a{}b{}", c, c));
        let several = ConfigValue::String(format!("{}a\n{}b\n{}", c, c, c));
        if c != '\n' {
            assert!(!m.value_to_toml_string(&one_line).contains('\n'));
        }
        assert_eq!(written_and_read_again(&m, one_line.clone()), one_line);
        assert_eq!(written_and_read_again(&m, several.clone()), several);
    }
}

#[test]
fn runs_of_double_quotes_are_read_back() {
    let m = ConfigManager::new();
    for n in 0..8 {
        let q = "\"".repeat(n);
        for s in [
            format!("{}", q),
            format!("a{}b", q),
            format!("{}a\nb", q),
            format!("a{}\nb", q),
            format!("a\n{}b", q),
            format!("a\nb{}", q),
            format!("\n{}", q),
            format!("{}\n", q),
            format!("{}\n{}\n{}", q, q, q),
            format!("\\{}\n{}\\", q, q),
            format!("\t{}\t\n", q),
        ] {
            let value = ConfigValue::String(s);
            assert_eq!(written_and_read_again(&m, value.clone()), value);
        }
    }
}
