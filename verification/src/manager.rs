//! The configuration manager: the places of the documents it serves, and what it
//! makes of their text once that has been read.

use vstd::prelude::*;
use vstd::string::StringExecFns;
use crate::document::{
    plugin_views, section_names_distinct, ConfigFile, FileView, PluginConfig, PluginView,
};
use crate::extract::{document_sections, lemma_distinct_section_names};
use crate::parser::{parse_toml, toml_document, tree_of};
use crate::reconstruct::reconstructed;
use crate::value::{keys_distinct_throughout, ConfigValue, ConfigValueView};

verus! {

/// Serves the configuration documents: the bot's settings, the model settings and
/// one document per plugin.
pub struct ConfigManager {
    bot_config_path: String,
    model_config_path: String,
    plugins_dir: String,
}

/// The text of a document is not in the format.
#[derive(Debug, PartialEq, Eq)]
pub struct SyntaxError {
    pub message: String,
}

/// What was found of one plugin: the name of its directory, the path of its document
/// and the text of the document, or, where it could not be read, the message of the
/// failure.
#[derive(Debug, PartialEq, Eq)]
pub struct PluginSource {
    pub name: String,
    pub config_path: String,
    pub content: Result<String, String>,
}

/// The document of a plugin could not be had: its text could not be read, or is not
/// in the format. `message` says what went wrong.
#[derive(Debug, PartialEq, Eq)]
pub struct PluginError {
    pub name: String,
    pub message: String,
}

/// The plugins found: the documents of those that could be read, and what went wrong
/// with each of the others.
#[derive(Debug, PartialEq, Eq)]
pub struct PluginListing {
    pub plugins: Vec<PluginConfig>,
    pub failures: Vec<PluginError>,
}

/// A file to write: `content` is to replace what `path` holds.
#[derive(Debug, PartialEq, Eq)]
pub struct FileWrite {
    pub path: String,
    pub content: String,
}

/// The view of what was found of one plugin.
pub ghost struct PluginSourceView {
    pub name: Seq<char>,
    pub config_path: Seq<char>,
    pub content: Result<Seq<char>, Seq<char>>,
}

/// The view of a plugin's failure.
pub ghost struct PluginErrorView {
    pub name: Seq<char>,
    pub message: Seq<char>,
}

/// The text that was read, or the message of the failure.
pub open spec fn result_text(r: Result<String, String>) -> Result<Seq<char>, Seq<char>> {
    match r {
        Ok(text) => Ok(text@),
        Err(message) => Err(message@),
    }
}

impl View for PluginError {
    type V = PluginErrorView;

    open spec fn view(&self) -> PluginErrorView {
        PluginErrorView { name: self.name@, message: self.message@ }
    }
}

/// The views of the failures in `failures`.
pub open spec fn failure_views(failures: Seq<PluginError>) -> Seq<PluginErrorView> {
    Seq::new(failures.len(), |i: int| failures[i]@)
}

impl View for PluginSource {
    type V = PluginSourceView;

    open spec fn view(&self) -> PluginSourceView {
        PluginSourceView {
            name: self.name@,
            config_path: self.config_path@,
            content: result_text(self.content),
        }
    }
}

impl Clone for SyntaxError {
    fn clone(&self) -> (copy: Self)
        ensures
            copy.message@ == self.message@,
    {
        SyntaxError { message: self.message.clone() }
    }
}

impl Clone for PluginSource {
    fn clone(&self) -> (copy: Self)
        ensures
            copy@ == self@,
    {
        PluginSource {
            name: self.name.clone(),
            config_path: self.config_path.clone(),
            content: match &self.content {
                Ok(text) => Ok(text.clone()),
                Err(message) => Err(message.clone()),
            },
        }
    }
}

impl Clone for PluginError {
    fn clone(&self) -> (copy: Self)
        ensures
            copy@ == self@,
    {
        PluginError { name: self.name.clone(), message: self.message.clone() }
    }
}

impl Clone for FileWrite {
    fn clone(&self) -> (copy: Self)
        ensures
            copy.path@ == self.path@,
            copy.content@ == self.content@,
    {
        FileWrite { path: self.path.clone(), content: self.content.clone() }
    }
}

/// The views of the sources in `sources`.
pub open spec fn source_views(sources: Seq<PluginSource>) -> Seq<PluginSourceView> {
    Seq::new(sources.len(), |i: int| sources[i]@)
}

/// The document with the text `content` and the tree `tree`.
pub open spec fn document_of(
    content: Seq<char>,
    tree: ConfigValueView,
    path: Seq<char>,
    filename: Seq<char>,
) -> FileView {
    FileView { filename, path, sections: document_sections(content, tree), raw_content: content }
}

/// The document that `content` parses to, or the message of the parser's failure.
pub open spec fn parsed_document(content: Seq<char>, path: Seq<char>, filename: Seq<char>) -> Result<
    FileView,
    Seq<char>,
> {
    match toml_document(content) {
        Ok(tree) => Ok(document_of(content, tree, path, filename)),
        Err(message) => Err(message),
    }
}

/// What a reading ended in, seen as a view: the document's view, or the message.
pub open spec fn reading_view(r: Result<ConfigFile, SyntaxError>) -> Result<FileView, Seq<char>> {
    match r {
        Ok(file) => Ok(file@),
        Err(e) => Err(e.message@),
    }
}

/// What loading one plugin ended in, seen as a view.
pub open spec fn loading_view(r: Result<PluginConfig, PluginError>) -> Result<
    PluginView,
    PluginErrorView,
> {
    match r {
        Ok(plugin) => Ok(plugin@),
        Err(e) => Err(e@),
    }
}

/// The name under which the document of the plugin `name` is shown.
pub open spec fn plugin_filename(name: Seq<char>) -> Seq<char> {
    name + "/config.toml"@
}

/// What `source` gives: the plugin's document, or, where its text could not be read
/// or does not parse, the name of the plugin with the message of the failure.
pub open spec fn plugin_of(source: PluginSourceView) -> Result<PluginView, PluginErrorView> {
    match source.content {
        Ok(content) => match parsed_document(
            content,
            source.config_path,
            plugin_filename(source.name),
        ) {
            Ok(config) => Ok(PluginView { name: source.name, path: source.config_path, config }),
            Err(message) => Err(PluginErrorView { name: source.name, message }),
        },
        Err(message) => Err(PluginErrorView { name: source.name, message }),
    }
}

/// The plugin documents that the first `count` of `sources` give, in order.
pub open spec fn plugins_of(sources: Seq<PluginSourceView>, count: nat) -> Seq<PluginView>
    decreases count,
{
    if count == 0 {
        Seq::empty()
    } else {
        match plugin_of(sources[count - 1]) {
            Ok(plugin) => plugins_of(sources, (count - 1) as nat).push(plugin),
            Err(_) => plugins_of(sources, (count - 1) as nat),
        }
    }
}

/// The failures among the first `count` of `sources`, in order.
pub open spec fn failures_of(sources: Seq<PluginSourceView>, count: nat) -> Seq<PluginErrorView>
    decreases count,
{
    if count == 0 {
        Seq::empty()
    } else {
        match plugin_of(sources[count - 1]) {
            Ok(_) => failures_of(sources, (count - 1) as nat),
            Err(failure) => failures_of(sources, (count - 1) as nat).push(failure),
        }
    }
}

impl ConfigManager {
    /// The path of the bot's settings document.
    pub closed spec fn spec_bot_config_path(&self) -> Seq<char> {
        self.bot_config_path@
    }

    /// The path of the model settings document.
    pub closed spec fn spec_model_config_path(&self) -> Seq<char> {
        self.model_config_path@
    }

    /// The directory that holds one directory per plugin.
    pub closed spec fn spec_plugins_dir(&self) -> Seq<char> {
        self.plugins_dir@
    }

    /// A manager for the documents at their usual places, relative to the working
    /// directory.
    pub fn new() -> (manager: Self)
        ensures
            manager.spec_bot_config_path() == "../Bot/config/bot_config.toml"@,
            manager.spec_model_config_path() == "../Bot/config/model_config.toml"@,
            manager.spec_plugins_dir() == "../Bot/config/plugins"@,
    {
        ConfigManager {
            bot_config_path: "../Bot/config/bot_config.toml".to_owned(),
            model_config_path: "../Bot/config/model_config.toml".to_owned(),
            plugins_dir: "../Bot/config/plugins".to_owned(),
        }
    }

    /// The path of the bot's settings document.
    pub fn bot_config_path(&self) -> (path: &str)
        ensures
            path@ == self.spec_bot_config_path(),
    {
        self.bot_config_path.as_str()
    }

    /// The path of the model settings document.
    pub fn model_config_path(&self) -> (path: &str)
        ensures
            path@ == self.spec_model_config_path(),
    {
        self.model_config_path.as_str()
    }

    /// The directory that holds one directory per plugin.
    pub fn plugins_dir(&self) -> (path: &str)
        ensures
            path@ == self.spec_plugins_dir(),
    {
        self.plugins_dir.as_str()
    }

    /// The document with the text `content`, whose tree is `parsed`.
    pub fn build_config_file(
        &self,
        content: &str,
        parsed: &ConfigValue,
        path: &str,
        filename: &str,
    ) -> (file: ConfigFile)
        ensures
            file@ == document_of(content@, parsed@, path@, filename@),
            file@.well_formed(),
            keys_distinct_throughout(parsed@) ==> section_names_distinct(file@.sections),
    {
        proof {
            if keys_distinct_throughout(parsed@) {
                lemma_distinct_section_names(content@, parsed@);
            }
        }
        let sections = self.extract_sections_with_comments(content, parsed);
        ConfigFile {
            filename: filename.to_owned(),
            path: path.to_owned(),
            sections,
            raw_content: content.to_owned(),
        }
    }

    /// Parses `content`, the text read from `path`, into a document. The result is an
    /// error exactly where the parser refuses the text, and then carries the parser's
    /// message. No two sections of the document have the same name.
    pub fn parse_config_file(&self, content: &str, path: &str, filename: &str) -> (r: Result<
        ConfigFile,
        SyntaxError,
    >)
        ensures
            reading_view(r) == parsed_document(content@, path@, filename@),
            r matches Ok(file) ==> file@.well_formed() && section_names_distinct(file@.sections),
    {
        match parse_toml(content) {
            Ok(parsed) => {
                let tree = tree_of(&parsed);
                Ok(self.build_config_file(content, &tree, path, filename))
            },
            Err(message) => Err(SyntaxError { message }),
        }
    }

    /// The bot's settings document, from the text read at `bot_config_path`.
    pub fn get_bot_config(&self, content: &str) -> (r: Result<ConfigFile, SyntaxError>)
        ensures
            reading_view(r) == parsed_document(
                content@,
                self.spec_bot_config_path(),
                "bot_config.toml"@,
            ),
            r matches Ok(file) ==> file@.well_formed() && section_names_distinct(file@.sections),
    {
        self.parse_config_file(content, self.bot_config_path.as_str(), "bot_config.toml")
    }

    /// The model settings document, from the text read at `model_config_path`.
    pub fn get_model_config(&self, content: &str) -> (r: Result<ConfigFile, SyntaxError>)
        ensures
            reading_view(r) == parsed_document(
                content@,
                self.spec_model_config_path(),
                "model_config.toml"@,
            ),
            r matches Ok(file) ==> file@.well_formed() && section_names_distinct(file@.sections),
    {
        self.parse_config_file(content, self.model_config_path.as_str(), "model_config.toml")
    }

    /// The document of one plugin, or what went wrong: the message of the reading
    /// where its text could not be read, that of the parser where it does not parse.
    pub fn load_plugin_config(&self, source: &PluginSource) -> (r: Result<
        PluginConfig,
        PluginError,
    >)
        ensures
            loading_view(r) == plugin_of(source@),
    {
        match &source.content {
            Ok(content) => {
                let mut filename = source.name.clone();
                filename.append("/config.toml");
                match self.parse_config_file(
                    content.as_str(),
                    source.config_path.as_str(),
                    filename.as_str(),
                ) {
                    Ok(config) => Ok(
                        PluginConfig {
                            name: source.name.clone(),
                            path: source.config_path.clone(),
                            config,
                        },
                    ),
                    Err(e) => Err(PluginError { name: source.name.clone(), message: e.message }),
                }
            },
            Err(message) => Err(
                PluginError { name: source.name.clone(), message: message.clone() },
            ),
        }
    }

    /// The plugins found, in the order of `sources`: the documents of those whose text
    /// was read and parses, and the failure of each of the others. A failure of one
    /// plugin does not keep the others from being served.
    pub fn list_plugin_configs(&self, sources: &Vec<PluginSource>) -> (listing: PluginListing)
        ensures
            plugin_views(listing.plugins@) == plugins_of(
                source_views(sources@),
                sources.len() as nat,
            ),
            failure_views(listing.failures@) == failures_of(
                source_views(sources@),
                sources.len() as nat,
            ),
    {
        let mut plugins: Vec<PluginConfig> = Vec::new();
        let mut failures: Vec<PluginError> = Vec::new();
        let mut i: usize = 0;
        proof {
            assert(plugin_views(plugins@) =~= Seq::<PluginView>::empty());
            assert(failure_views(failures@) =~= Seq::<PluginErrorView>::empty());
        }
        while i < sources.len()
            invariant
                i <= sources.len(),
                plugin_views(plugins@) == plugins_of(source_views(sources@), i as nat),
                failure_views(failures@) == failures_of(source_views(sources@), i as nat),
            decreases sources.len() - i,
        {
            let ghost done = plugin_views(plugins@);
            let ghost failed = failure_views(failures@);
            match self.load_plugin_config(&sources[i]) {
                Ok(plugin) => {
                    plugins.push(plugin);
                    proof {
                        assert(plugin_views(plugins@) =~= done.push(plugin@));
                    }
                },
                Err(failure) => {
                    failures.push(failure);
                    proof {
                        assert(failure_views(failures@) =~= failed.push(failure@));
                    }
                },
            }
            i += 1;
        }
        PluginListing { plugins, failures }
    }

    /// The documents of the plugins found, in the order of `sources`. A plugin whose
    /// text could not be read or does not parse is left out; the others are served.
    pub fn get_plugin_configs(&self, sources: &Vec<PluginSource>) -> (plugins: Vec<PluginConfig>)
        ensures
            plugin_views(plugins@) == plugins_of(source_views(sources@), sources.len() as nat),
    {
        self.list_plugin_configs(sources).plugins
    }

    /// What saving `config` at `file_path` writes: the text of the document, to that
    /// very path.
    pub fn save_config(&self, file_path: &str, config: &ConfigFile) -> (write: FileWrite)
        ensures
            write.path@ == file_path@,
            write.content@ == reconstructed(config@.sections),
    {
        FileWrite {
            path: file_path.to_owned(),
            content: self.reconstruct_toml_with_comments(config),
        }
    }
}

} // verus!
