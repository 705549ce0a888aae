use cs2ts::config::{
    config_at_startup, default_extensions, default_i18n_import, default_imports, pattern_ignores,
    Config, ConfigError,
};

#[test]
fn defaults_of_the_configuration() {
    let config = Config::default();
    assert_eq!(config.extensions, vec!["cs"]);
    assert!(config.ignore.is_empty());
    assert_eq!(config.input_dir, None);
    assert_eq!(config.output_dir, None);
    assert!(!config.localized);
    assert_eq!(config.i18n_library, "vue-i18n");
    assert!(config.additional_imports.is_empty());
    assert_eq!(default_extensions(), vec!["cs"]);
    assert_eq!(default_i18n_import(), "vue-i18n");
    assert!(default_imports().is_empty());
}

#[test]
fn extension_must_be_listed() {
    let config = Config::default();
    assert!(config.is_valid_extension("Color.cs"));
    assert!(config.is_valid_extension("src/models/Color.cs"));
    assert!(config.is_valid_extension("a.b.cs"));
    assert!(!config.is_valid_extension("Color.ts"));
    assert!(!config.is_valid_extension("Color.CS"));
    assert!(!config.is_valid_extension("Color.css"));
    assert!(!config.is_valid_extension("Color"));
    assert!(!config.is_valid_extension(".cs"));
    assert!(!config.is_valid_extension("dir.cs/Color"));
    assert!(!config.is_valid_extension(""));
}

#[test]
fn every_listed_extension_is_valid() {
    let mut config = Config::default();
    config.extensions = vec!["cs".to_string(), "csx".to_string()];
    assert!(config.is_valid_extension("a.cs"));
    assert!(config.is_valid_extension("a.csx"));
    assert!(!config.is_valid_extension("a.c"));
    config.extensions = Vec::new();
    assert!(!config.is_valid_extension("a.cs"));
}

#[test]
fn listed_extension_from_parts() {
    let config = Config::default();
    assert!(config.lists_extension(Some("cs")));
    assert!(!config.lists_extension(Some("ts")));
    assert!(!config.lists_extension(Some("")));
    assert!(!config.lists_extension(None));
}

#[test]
fn ignore_patterns_are_globs() {
    let mut config = Config::default();
    assert!(!config.should_ignore("src/bin/Color.cs"));
    config.ignore = vec!["**/bin/**".to_string(), "*.g.cs".to_string()];
    assert!(config.should_ignore("src/bin/Color.cs"));
    assert!(config.should_ignore("Color.g.cs"));
    assert!(config.should_ignore("src/Color.g.cs"));
    assert!(!config.should_ignore("src/Color.cs"));
}

#[test]
fn a_pattern_that_is_no_glob_ignores_nothing() {
    let mut config = Config::default();
    config.ignore = vec!["a**b".to_string(), "[".to_string()];
    assert!(!config.should_ignore("a**b"));
    assert!(!config.should_ignore("["));
    config.ignore.push("src/*".to_string());
    assert!(config.should_ignore("src/x"));
    assert!(!pattern_ignores(None));
    assert!(!pattern_ignores(Some(false)));
    assert!(pattern_ignores(Some(true)));
}

#[test]
fn an_input_has_a_listed_extension_and_is_not_ignored() {
    let mut config = Config::default();
    config.ignore = vec!["**/obj/**".to_string()];
    assert!(config.selects("src/Color.cs"));
    assert!(!config.selects("src/obj/Color.cs"));
    assert!(!config.selects("src/Color.txt"));
}

#[test]
fn errors_say_what_went_wrong() {
    assert_eq!(ConfigError::NotFound.message(), "Failed to find configuration file");
    assert_eq!(
        ConfigError::IoError("denied".to_string()).message(),
        "Failed to read configuration: denied"
    );
    assert_eq!(
        ConfigError::ParseError("line 3".to_string()).message(),
        "Failed to parse configuration: line 3"
    );
    assert!(!ConfigError::NotFound.is_fatal());
    assert!(!ConfigError::IoError(String::new()).is_fatal());
    assert!(ConfigError::ParseError(String::new()).is_fatal());
}

#[test]
fn a_run_starts_with_defaults_unless_the_file_is_not_valid() {
    let mut loaded = Config::default();
    loaded.localized = true;
    loaded.extensions = vec!["csx".to_string()];
    let kept = config_at_startup(Ok(loaded)).unwrap();
    assert!(kept.localized);
    assert_eq!(kept.extensions, vec!["csx"]);
    let missing = config_at_startup(Err(ConfigError::NotFound)).unwrap();
    assert_eq!(missing.extensions, vec!["cs"]);
    assert_eq!(missing.i18n_library, "vue-i18n");
    let unread = config_at_startup(Err(ConfigError::IoError("denied".to_string()))).unwrap();
    assert!(!unread.localized);
    match config_at_startup(Err(ConfigError::ParseError("bad".to_string()))) {
        Err(ConfigError::ParseError(why)) => assert_eq!(why, "bad"),
        other => panic!("{:?}", other),
    }
}
