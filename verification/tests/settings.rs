use meow_auth::cli::settings::generate::GenerateSettings;
use meow_auth::cli::settings::update::{
    find_key, update_toml_keys, update_toml_table, Entry, Item, UpdateSettings,
};
use meow_auth::cli::settings::{Settings as SettingsCli, SettingsCommand};
use meow_auth::cli::Commands;
use meow_auth::global::GlobalState;
use meow_auth::settings::{
    Logging, LoggingFile, LoggingFormat, LoggingLevel, PostgresDB, Settings,
};

fn value(key: &str, text: &str) -> Entry {
    Entry { key: key.to_string(), item: Item::Value(text.to_string()) }
}

fn table(key: &str, entries: Vec<Entry>) -> Entry {
    Entry { key: key.to_string(), item: Item::Table(entries) }
}

#[test]
fn settings_defaults() {
    let settings = Settings::default();
    assert!(settings.logging.enabled);
    assert_eq!(settings.logging.level, LoggingLevel::Info);
    assert_eq!(settings.logging.format, LoggingFormat::Full);
    assert!(!settings.logging.file.enabled);
    assert_eq!(settings.logging.file.path, "logs");
    assert_eq!(settings.logging.file.max_count, 7);
    assert_eq!(settings.logging.file.format, LoggingFormat::Full);
    assert_eq!(settings.logging, Logging::default());
    assert_eq!(settings.logging.file, LoggingFile::default());
    assert_eq!(settings.postgres_db, PostgresDB::default());
    assert_eq!(LoggingLevel::default(), LoggingLevel::Info);
    assert_eq!(LoggingFormat::default(), LoggingFormat::Full);
}

#[test]
fn logging_names_are_lower_case() {
    assert_eq!(LoggingLevel::Error.name(), "error");
    assert_eq!(LoggingLevel::Warn.name(), "warn");
    assert_eq!(LoggingLevel::Info.name(), "info");
    assert_eq!(LoggingLevel::Debug.name(), "debug");
    assert_eq!(LoggingLevel::Trace.name(), "trace");
    assert_eq!(LoggingFormat::Full.name(), "full");
    assert_eq!(LoggingFormat::Compact.name(), "compact");
    assert_eq!(LoggingFormat::Pretty.name(), "pretty");
    assert_eq!(LoggingFormat::Json.name(), "json");
}

#[test]
fn global_state_keeps_its_settings() {
    let mut settings = Settings::default();
    settings.logging.level = LoggingLevel::Trace;
    let state = GlobalState::new(settings.clone());
    assert_eq!(state.settings(), &settings);
}

#[test]
fn merge_takes_values_from_the_existing_file() {
    let mut new = vec![
        table("logging", vec![value("enabled", "true"), value("level", "\"info\"")]),
        table("postgres_db", vec![value("uri", "\"a\"")]),
    ];
    let old = vec![table("logging", vec![value("level", "\"debug\"")])];
    update_toml_keys(&mut new, old, false);
    assert_eq!(
        new,
        vec![
            table("logging", vec![value("enabled", "true"), value("level", "\"debug\"")]),
            table("postgres_db", vec![value("uri", "\"a\"")]),
        ]
    );
}

#[test]
fn merge_keeps_unknown_entries_after_the_known_ones() {
    let mut new = vec![value("a", "1"), table("t", vec![value("x", "1")])];
    let old = vec![
        value("zeta", "26"),
        table("t", vec![value("y", "2"), value("x", "9")]),
        table("extra", vec![value("k", "v")]),
        value("a", "5"),
    ];
    update_toml_table(&mut new, &old, false);
    assert_eq!(
        new,
        vec![
            value("a", "5"),
            table("t", vec![value("x", "9"), value("y", "2")]),
            value("zeta", "26"),
            table("extra", vec![value("k", "v")]),
        ]
    );
}

#[test]
fn merge_drops_unknown_entries_on_request() {
    let mut new = vec![value("a", "1"), table("t", vec![value("x", "1")])];
    let old = vec![
        value("zeta", "26"),
        table("t", vec![value("y", "2"), value("x", "9")]),
        table("extra", vec![value("k", "v")]),
    ];
    update_toml_table(&mut new, &old, true);
    assert_eq!(new, vec![value("a", "1"), table("t", vec![value("x", "9")])]);
}

#[test]
fn merge_takes_leaves_over_whole() {
    // A list is a leaf: it is not merged element by element.
    let mut new = vec![value("hosts", "[\"a\", \"b\", \"c\"]"), table("t", vec![value("x", "1")])];
    let old = vec![value("hosts", "[\"z\"]"), value("t", "\"no table any more\"")];
    update_toml_table(&mut new, &old, false);
    assert_eq!(new, vec![value("hosts", "[\"z\"]"), value("t", "\"no table any more\"")]);

    let mut new = vec![value("t", "1")];
    let old = vec![table("t", vec![value("x", "1")])];
    update_toml_table(&mut new, &old, true);
    assert_eq!(new, vec![table("t", vec![value("x", "1")])]);
}

#[test]
fn merge_with_an_empty_side() {
    let mut new = vec![value("a", "1")];
    update_toml_table(&mut new, &vec![], false);
    assert_eq!(new, vec![value("a", "1")]);
    let mut new: Vec<Entry> = vec![];
    update_toml_table(&mut new, &vec![value("a", "1")], false);
    assert_eq!(new, vec![value("a", "1")]);
    let mut new: Vec<Entry> = vec![];
    update_toml_table(&mut new, &vec![value("a", "1")], true);
    assert_eq!(new, vec![]);
}

#[test]
fn merge_goes_down_nested_tables() {
    let mut new = vec![table(
        "logging",
        vec![value("enabled", "true"), table("file", vec![value("path", "\"logs\"")])],
    )];
    let old = vec![table(
        "logging",
        vec![table("file", vec![value("path", "\"/var/log\""), value("old", "1")])],
    )];
    update_toml_table(&mut new, &old, true);
    assert_eq!(
        new,
        vec![table(
            "logging",
            vec![value("enabled", "true"), table("file", vec![value("path", "\"/var/log\"")])],
        )]
    );
}

#[test]
fn find_key_gives_the_first_place() {
    let entries = vec![value("a", "1"), value("b", "2"), value("a", "3")];
    assert_eq!(find_key(&entries, &"a".to_string()), Some(0));
    assert_eq!(find_key(&entries, &"b".to_string()), Some(1));
    assert_eq!(find_key(&entries, &"c".to_string()), None);
}

#[test]
fn item_duplicate_copies_the_whole_tree() {
    let item = Item::Table(vec![value("a", "1"), table("t", vec![value("x", "1")])]);
    assert_eq!(item.duplicate(), item);
}

#[test]
fn update_passes_over_an_environment_without_a_file() {
    let command = UpdateSettings::new(vec!["development".to_string()], false);
    assert_eq!(command.envs(), &vec!["development".to_string()]);
    assert!(!command.delete_unknown());
    assert_eq!(command.run(vec![value("a", "1")], None), None);
    assert_eq!(
        command.run(vec![value("a", "1")], Some(vec![value("a", "2"), value("b", "3")])),
        Some(vec![value("a", "2"), value("b", "3")])
    );
    let command = UpdateSettings::new(vec![], true);
    assert_eq!(
        command.run(vec![value("a", "1")], Some(vec![value("a", "2"), value("b", "3")])),
        Some(vec![value("a", "2")])
    );
}

#[test]
fn generate_stops_at_the_first_existing_file() {
    let envs = vec!["a".to_string(), "b".to_string(), "c".to_string()];
    let command = GenerateSettings::new(envs.clone(), false);
    assert_eq!(command.envs(), &envs);
    assert!(command.may_write(false));
    assert!(!command.may_write(true));
    assert_eq!(command.run(&vec![false, false, false]), (3, None));
    assert_eq!(command.run(&vec![false, true, true]), (1, Some(1)));
    assert_eq!(command.run(&vec![true, false, false]), (0, Some(0)));
    let command = GenerateSettings::new(envs, true);
    assert!(command.may_write(true));
    assert_eq!(command.run(&vec![true, true, false]), (3, None));
    assert_eq!(GenerateSettings::new(vec![], false).run(&vec![]), (0, None));
}

#[test]
fn settings_commands_nest() {
    assert_eq!(SettingsCli::default().command, None);
    let command = Commands::Settings(SettingsCli {
        command: Some(SettingsCommand::Generate(GenerateSettings::new(vec![], false))),
    });
    assert!(matches!(command, Commands::Settings(_)));
}
