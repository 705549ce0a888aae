//! The options that steer a run, and the two tests that select input files.

use crate::paths::{extension_of, path_extension};
use crate::text::same_text;
use vstd::prelude::*;
use vstd::string::*;

verus! {

/// One import that every schema file begins with.
#[derive(Debug, Clone)]
pub struct ImportConfig {
    pub name: String,
    pub path: String,
}

/// The mathematical value of an `ImportConfig`.
pub struct ImportModel {
    pub name: Seq<char>,
    pub path: Seq<char>,
}

impl View for ImportConfig {
    type V = ImportModel;

    open spec fn view(&self) -> ImportModel {
        ImportModel { name: self.name@, path: self.path@ }
    }
}

impl DeepView for ImportConfig {
    type V = ImportModel;

    open spec fn deep_view(&self) -> ImportModel {
        self.view()
    }
}

/// The options of a run.
#[derive(Debug, Clone)]
pub struct Config {
    /// File extensions to process, without the dot.
    pub extensions: Vec<String>,
    /// Glob patterns; a path that matches one is passed over.
    pub ignore: Vec<String>,
    /// Default input directory.
    pub input_dir: Option<String>,
    /// Default output directory.
    pub output_dir: Option<String>,
    /// Whether schemas take their messages from a translator.
    pub localized: bool,
    /// The module that localized schemas import the translator from.
    pub i18n_library: String,
    /// Imports that every schema file begins with, in order.
    pub additional_imports: Vec<ImportConfig>,
}

/// The mathematical value of a `Config`.
pub struct ConfigModel {
    pub extensions: Seq<Seq<char>>,
    pub ignore: Seq<Seq<char>>,
    pub input_dir: Option<Seq<char>>,
    pub output_dir: Option<Seq<char>>,
    pub localized: bool,
    pub i18n_library: Seq<char>,
    pub additional_imports: Seq<ImportModel>,
}

impl View for Config {
    type V = ConfigModel;

    open spec fn view(&self) -> ConfigModel {
        ConfigModel {
            extensions: self.extensions.deep_view(),
            ignore: self.ignore.deep_view(),
            input_dir: self.input_dir.deep_view(),
            output_dir: self.output_dir.deep_view(),
            localized: self.localized,
            i18n_library: self.i18n_library@,
            additional_imports: self.additional_imports.deep_view(),
        }
    }
}

/// The options of a run for which nothing was configured.
pub open spec fn default_config() -> ConfigModel {
    ConfigModel {
        extensions: seq!["cs"@],
        ignore: Seq::empty(),
        input_dir: None,
        output_dir: None,
        localized: false,
        i18n_library: "vue-i18n"@,
        additional_imports: Seq::empty(),
    }
}

/// The extensions that are processed where none are configured.
pub fn default_extensions() -> (r: Vec<String>)
    ensures
        r.deep_view() == seq!["cs"@],
{
    let mut r: Vec<String> = Vec::new();
    r.push("cs".to_owned());
    assert(r.deep_view() =~= seq!["cs"@]);
    r
}

/// The module that localized schemas import the translator from where none
/// is configured.
pub fn default_i18n_import() -> (r: String)
    ensures
        r@ == "vue-i18n"@,
{
    "vue-i18n".to_owned()
}

/// The additional imports where none are configured: none.
pub fn default_imports() -> (r: Vec<ImportConfig>)
    ensures
        r.deep_view() == Seq::<ImportModel>::empty(),
{
    let r: Vec<ImportConfig> = Vec::new();
    assert(r.deep_view() =~= Seq::<ImportModel>::empty());
    r
}

impl Default for Config {
    fn default() -> (r: Config)
        ensures
            r@ == default_config(),
    {
        let ignore: Vec<String> = Vec::new();
        assert(ignore.deep_view() =~= Seq::<Seq<char>>::empty());
        Config {
            extensions: default_extensions(),
            ignore,
            input_dir: None,
            output_dir: None,
            localized: false,
            i18n_library: default_i18n_import(),
            additional_imports: default_imports(),
        }
    }
}

/// Why no configuration could be loaded.
#[derive(Debug)]
pub enum ConfigError {
    /// No configuration file was found.
    NotFound,
    /// The configuration file could not be read; the text says why.
    IoError(String),
    /// The configuration file is not valid; the text says why.
    ParseError(String),
}

/// The mathematical value of a `ConfigError`.
pub enum ConfigErrorModel {
    NotFound,
    IoError(Seq<char>),
    ParseError(Seq<char>),
}

impl View for ConfigError {
    type V = ConfigErrorModel;

    open spec fn view(&self) -> ConfigErrorModel {
        match self {
            ConfigError::NotFound => ConfigErrorModel::NotFound,
            ConfigError::IoError(why) => ConfigErrorModel::IoError(why@),
            ConfigError::ParseError(why) => ConfigErrorModel::ParseError(why@),
        }
    }
}

/// What an error says.
pub open spec fn error_text(error: ConfigErrorModel) -> Seq<char> {
    match error {
        ConfigErrorModel::NotFound => "Failed to find configuration file"@,
        ConfigErrorModel::IoError(why) => "Failed to read configuration: "@ + why,
        ConfigErrorModel::ParseError(why) => "Failed to parse configuration: "@ + why,
    }
}

/// The configuration that a run starts with, given what loading gave: the
/// loaded one; the default one where no file was found or the file could
/// not be read; none, and the error, where the file is not valid.
pub open spec fn startup_config(loaded: Result<ConfigModel, ConfigErrorModel>) -> Result<
    ConfigModel,
    ConfigErrorModel,
> {
    match loaded {
        Ok(config) => Ok(config),
        Err(ConfigErrorModel::ParseError(why)) => Err(ConfigErrorModel::ParseError(why)),
        Err(_) => Ok(default_config()),
    }
}

impl ConfigError {
    /// What the error says.
    pub fn message(&self) -> (r: String)
        ensures
            r@ == error_text(self@),
    {
        match self {
            ConfigError::NotFound => "Failed to find configuration file".to_owned(),
            ConfigError::IoError(why) => {
                let mut r = "Failed to read configuration: ".to_owned();
                r.append(why.as_str());
                r
            },
            ConfigError::ParseError(why) => {
                let mut r = "Failed to parse configuration: ".to_owned();
                r.append(why.as_str());
                r
            },
        }
    }

    /// Whether the error ends the run: only a file that is not valid does.
    pub fn is_fatal(&self) -> (r: bool)
        ensures
            r == (self@ is ParseError),
    {
        match self {
            ConfigError::ParseError(_) => true,
            _ => false,
        }
    }
}

/// The configuration that a run starts with, given what loading gave.
pub fn config_at_startup(loaded: Result<Config, ConfigError>) -> (r: Result<Config, ConfigError>)
    ensures
        match (r, startup_config(
            match loaded {
                Ok(config) => Ok(config@),
                Err(error) => Err(error@),
            },
        )) {
            (Ok(config), Ok(expected)) => config@ == expected,
            (Err(error), Err(expected)) => error@ == expected,
            _ => false,
        },
{
    match loaded {
        Ok(config) => Ok(config),
        Err(error) => {
            if error.is_fatal() {
                Err(error)
            } else {
                Ok(Config::default())
            }
        },
    }
}

/// Whether the glob `pattern` matches `path`, as `glob::Pattern::matches`
/// decides it; `None` for a pattern that `glob::Pattern::new` refuses.
pub uninterp spec fn glob_match(pattern: Seq<char>, path: Seq<char>) -> Option<bool>;

/// Calls `glob::Pattern::new` on `pattern` and `Pattern::matches` on `path`.
/// Trusted: that the outcome is a function of the two texts.
#[verifier::external_body]
pub(crate) fn glob_matches(pattern: &str, path: &str) -> (r: Option<bool>)
    ensures
        r == glob_match(pattern@, path@),
{
    match glob::Pattern::new(pattern) {
        Ok(compiled) => Some(compiled.matches(path)),
        Err(_) => None,
    }
}

impl ConfigModel {
    /// Whether `extension` is one of the configured extensions.
    pub open spec fn lists(self, extension: Option<Seq<char>>) -> bool {
        match extension {
            Some(e) => self.extensions.contains(e),
            None => false,
        }
    }

    /// Whether the extension of `path` is one of the configured extensions.
    pub open spec fn has_valid_extension(self, path: Seq<char>) -> bool {
        self.lists(path_extension(path))
    }

    /// Whether one of the ignore patterns is a glob that matches `path`.
    pub open spec fn ignores(self, path: Seq<char>) -> bool {
        exists|i: int|
            0 <= i < self.ignore.len() && glob_match(#[trigger] self.ignore[i], path) == Some(true)
    }

    /// Whether `path` is an input: its extension is configured and no ignore
    /// pattern matches it.
    pub open spec fn selects(self, path: Seq<char>) -> bool {
        self.has_valid_extension(path) && !self.ignores(path)
    }
}

/// Whether a glob outcome makes a path ignored: a pattern that is no glob
/// ignores nothing.
pub fn pattern_ignores(outcome: Option<bool>) -> (r: bool)
    ensures
        r == (outcome == Some(true)),
{
    match outcome {
        Some(matched) => matched,
        None => false,
    }
}

impl Config {
    /// Whether `extension` is one of the configured extensions; a path
    /// without an extension has none of them.
    pub fn lists_extension(&self, extension: Option<&str>) -> (r: bool)
        ensures
            r == self@.lists(extension.deep_view()),
    {
        match extension {
            None => false,
            Some(e) => {
                let mut i: usize = 0;
                while i < self.extensions.len()
                    invariant
                        i <= self.extensions.len(),
                        extension == Some(e),
                        forall|j: int| 0 <= j < i ==> self.extensions.deep_view()[j] != e@,
                    decreases self.extensions.len() - i,
                {
                    if same_text(self.extensions[i].as_str(), e) {
                        assert(self@.extensions[i as int] == e@);
                        assert(self@.extensions.contains(e@));
                        return true;
                    }
                    i += 1;
                }
                false
            },
        }
    }

    /// Whether the extension of `path` is one of the configured extensions.
    pub fn is_valid_extension(&self, path: &str) -> (r: bool)
        ensures
            r == self@.has_valid_extension(path@),
    {
        let extension = extension_of(path);
        match &extension {
            Some(e) => self.lists_extension(Some(e.as_str())),
            None => self.lists_extension(None),
        }
    }

    /// Whether one of the ignore patterns matches `path`.
    pub fn should_ignore(&self, path: &str) -> (r: bool)
        ensures
            r == self@.ignores(path@),
    {
        let mut i: usize = 0;
        while i < self.ignore.len()
            invariant
                i <= self.ignore.len(),
                forall|j: int|
                    0 <= j < i ==> glob_match(#[trigger] self.ignore.deep_view()[j], path@) != Some(
                        true,
                    ),
            decreases self.ignore.len() - i,
        {
            if pattern_ignores(glob_matches(self.ignore[i].as_str(), path)) {
                assert(self.ignore.deep_view()[i as int] == self.ignore@[i as int]@);
                return true;
            }
            assert(self.ignore.deep_view()[i as int] == self.ignore@[i as int]@);
            i += 1;
        }
        false
    }

    /// Whether `path` is an input.
    pub fn selects(&self, path: &str) -> (r: bool)
        ensures
            r == self@.selects(path@),
    {
        self.is_valid_extension(path) && !self.should_ignore(path)
    }
}

} // verus!
