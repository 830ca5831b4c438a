use meow_auth::migrate::definition::{MigrationDefinition, MigrationKind};
use meow_auth::migrate::error::ParseError;
use meow_auth::migrate::source::{
    parse_file_name, FileName, MigrationSource, SourceFile, Variant,
};
use meow_auth::migrate::text::{
    chars_of, find_first, has_suffix, parse_decimal, replace, slice_of,
};

fn file(name: &str, content: &str) -> SourceFile {
    SourceFile { name: name.to_string(), content: Some(content.to_string()) }
}

fn chars(s: &str) -> Vec<char> {
    s.chars().collect()
}

const DIGEST_OF_CREATE_TABLE_A: [u8; 48] = [
    77, 250, 230, 139, 166, 89, 22, 255, 36, 47, 207, 180, 161, 104, 71, 38, 6, 75, 76, 210, 105,
    90, 93, 139, 193, 208, 250, 246, 11, 10, 135, 250, 121, 246, 197, 63, 99, 173, 91, 202, 202,
    69, 88, 120, 128, 100, 103, 181,
];

const DIGEST_OF_NOTHING: [u8; 48] = [
    56, 176, 96, 167, 81, 172, 150, 56, 76, 217, 50, 126, 177, 177, 227, 106, 33, 253, 183, 17,
    20, 190, 7, 67, 76, 12, 199, 191, 99, 246, 225, 218, 39, 78, 222, 191, 231, 111, 101, 251,
    213, 26, 210, 241, 72, 152, 185, 91,
];

#[test]
fn load_of_no_files_defines_nothing() {
    let source = MigrationSource::load(&vec![]).unwrap();
    assert_eq!(source.len(), 0);
}

#[test]
fn load_computes_the_checksum_of_the_up_script() {
    let source = MigrationSource::load(&vec![file("1_first.sql", "create table a ();")]).unwrap();
    assert_eq!(source.len(), 1);
    assert_eq!(
        source.get(0),
        &MigrationDefinition {
            version: 1,
            description: "first".to_string(),
            content_checksum: DIGEST_OF_CREATE_TABLE_A.to_vec(),
            kind: MigrationKind::Simple { up_script: "create table a ();".to_string() },
        }
    );
}

#[test]
fn load_checksum_of_an_empty_script() {
    let source = MigrationSource::load(&vec![file("3_empty.sql", "")]).unwrap();
    assert_eq!(source.get(0).content_checksum, DIGEST_OF_NOTHING.to_vec());
}

#[test]
fn load_checksum_depends_on_the_up_script_alone() {
    let source = MigrationSource::load(&vec![
        file("5_x.down.sql", "drop table a;"),
        file("5_other_words.up.sql", "create table a ();"),
    ])
    .unwrap();
    assert_eq!(source.get(0).content_checksum, DIGEST_OF_CREATE_TABLE_A.to_vec());
}

#[test]
fn load_sorts_by_version() {
    let source = MigrationSource::load(&vec![
        file("30_c.sql", "c"),
        file("10_a.sql", "a"),
        file("20_b.sql", "b"),
    ])
    .unwrap();
    let versions: Vec<i64> = (0..source.len()).map(|i| source.get(i).version).collect();
    assert_eq!(versions, vec![10, 20, 30]);
    assert!(source.contains(20));
    assert!(!source.contains(25));
    assert_eq!(source.find(30).unwrap().description, "c");
    assert!(source.find(31).is_none());
}

#[test]
fn load_pairs_up_and_down_scripts() {
    let source = MigrationSource::load(&vec![
        file("2_add_users.down.sql", "drop table users;"),
        file("1_init.sql", "create table a ();"),
        file("2_add_users.up.sql", "create table users (id int);"),
        file("3_lonely.up.sql", "select 1;"),
    ])
    .unwrap();
    assert_eq!(source.len(), 3);
    assert_eq!(
        source.get(0).kind,
        MigrationKind::Simple { up_script: "create table a ();".to_string() }
    );
    assert_eq!(
        source.get(1).kind,
        MigrationKind::Reversible {
            up_script: "create table users (id int);".to_string(),
            down_script: "drop table users;".to_string(),
        }
    );
    assert_eq!(source.get(1).description, "add users");
    assert!(source.get(1).is_reversible());
    // An up script without a down script beside it cannot be undone.
    assert_eq!(source.get(2).kind, MigrationKind::Simple { up_script: "select 1;".to_string() });
    assert!(!source.get(2).is_reversible());
}

#[test]
fn load_takes_a_plain_script_with_a_down_script_as_reversible() {
    let source = MigrationSource::load(&vec![
        file("4_a.sql", "up"),
        file("4_a.down.sql", "down"),
    ])
    .unwrap();
    assert_eq!(
        source.get(0).kind,
        MigrationKind::Reversible { up_script: "up".to_string(), down_script: "down".to_string() }
    );
}

#[test]
fn load_passes_over_a_down_script_without_an_up_script() {
    let source = MigrationSource::load(&vec![file("9_gone.down.sql", "drop table a;")]).unwrap();
    assert_eq!(source.len(), 0);
}

#[test]
fn load_passes_over_files_that_are_no_migrations() {
    let source = MigrationSource::load(&vec![
        file("README.md", "read me"),
        file("notes_for_later.txt", "later"),
        file("nounderscore.sql", "select 1;"),
        SourceFile { name: "unreadable.bin".to_string(), content: None },
        file("1_a.sql", "a"),
    ])
    .unwrap();
    assert_eq!(source.len(), 1);
}

#[test]
fn load_fails_on_a_version_that_is_none() {
    let r = MigrationSource::load(&vec![file("1_a.sql", "a"), file("abc_b.sql", "b")]);
    assert_eq!(r, Err(ParseError::InvalidVersion { name: "abc_b.sql".to_string() }));
    let r = MigrationSource::load(&vec![file("_b.sql", "b")]);
    assert_eq!(r, Err(ParseError::InvalidVersion { name: "_b.sql".to_string() }));
    let r = MigrationSource::load(&vec![file("9223372036854775808_b.sql", "b")]);
    assert_eq!(
        r,
        Err(ParseError::InvalidVersion { name: "9223372036854775808_b.sql".to_string() })
    );
}

#[test]
fn load_fails_on_a_shared_version() {
    let r = MigrationSource::load(&vec![
        file("1_a.sql", "a"),
        file("2_b.sql", "b"),
        file("01_again.sql", "c"),
    ]);
    assert_eq!(r, Err(ParseError::DuplicateVersion { version: 1 }));
    let r = MigrationSource::load(&vec![file("1_a.up.sql", "a"), file("1_b.sql", "b")]);
    assert_eq!(r, Err(ParseError::DuplicateVersion { version: 1 }));
    let r = MigrationSource::load(&vec![
        file("1_a.up.sql", "a"),
        file("1_a.down.sql", "b"),
        file("1_b.down.sql", "c"),
    ]);
    assert_eq!(r, Err(ParseError::DuplicateVersion { version: 1 }));
}

#[test]
fn load_fails_on_unreadable_content() {
    let r = MigrationSource::load(&vec![
        file("1_a.sql", "a"),
        SourceFile { name: "2_b.sql".to_string(), content: None },
    ]);
    assert_eq!(r, Err(ParseError::UnreadableContent { name: "2_b.sql".to_string() }));
}

#[test]
fn load_reports_the_first_failure_in_the_order_given() {
    let r = MigrationSource::load(&vec![
        SourceFile { name: "2_b.sql".to_string(), content: None },
        file("x_a.sql", "a"),
    ]);
    assert_eq!(r, Err(ParseError::UnreadableContent { name: "2_b.sql".to_string() }));
    let r = MigrationSource::load(&vec![
        file("x_a.sql", "a"),
        SourceFile { name: "2_b.sql".to_string(), content: None },
    ]);
    assert_eq!(r, Err(ParseError::InvalidVersion { name: "x_a.sql".to_string() }));
}

#[test]
fn insert_refuses_a_defined_version() {
    let mut source = MigrationSource::new();
    let definition = MigrationDefinition {
        version: 1,
        description: "a".to_string(),
        content_checksum: vec![1],
        kind: MigrationKind::Simple { up_script: "a".to_string() },
    };
    assert!(source.insert(definition.duplicate()));
    assert!(!source.insert(definition));
    assert_eq!(source.len(), 1);
}

#[test]
fn file_names_are_read_as_documented() {
    assert_eq!(
        parse_file_name("20240101120000_create_users_table.sql"),
        FileName::Entry {
            version: 20240101120000,
            description: "create users table".to_string(),
            variant: Variant::Up
        }
    );
    assert_eq!(
        parse_file_name("0002_add_index.up.sql"),
        FileName::Entry {
            version: 2,
            description: "add index".to_string(),
            variant: Variant::Up
        }
    );
    assert_eq!(
        parse_file_name("0002_add_index.down.sql"),
        FileName::Entry {
            version: 2,
            description: "add index".to_string(),
            variant: Variant::Down
        }
    );
    assert_eq!(
        parse_file_name("-5_neg.sql"),
        FileName::Entry { version: -5, description: "neg".to_string(), variant: Variant::Up }
    );
    assert_eq!(
        parse_file_name("7_.sql"),
        FileName::Entry { version: 7, description: "".to_string(), variant: Variant::Up }
    );
    assert_eq!(
        parse_file_name("7_é_ü.sql"),
        FileName::Entry { version: 7, description: "é ü".to_string(), variant: Variant::Up }
    );
    assert_eq!(parse_file_name("7_a.sql.bak"), FileName::Ignored);
    assert_eq!(parse_file_name("7.sql"), FileName::Ignored);
    assert_eq!(parse_file_name(""), FileName::Ignored);
    assert_eq!(parse_file_name("7_sql"), FileName::Ignored);
    assert_eq!(parse_file_name("v7_a.sql"), FileName::Invalid);
    assert_eq!(parse_file_name("7 _a.sql"), FileName::Invalid);
    assert_eq!(parse_file_name("__a.sql"), FileName::Invalid);
}

#[test]
fn decimal_numbers_are_read_like_an_i64() {
    assert_eq!(parse_decimal(&chars("0")), Some(0));
    assert_eq!(parse_decimal(&chars("42")), Some(42));
    assert_eq!(parse_decimal(&chars("+42")), Some(42));
    assert_eq!(parse_decimal(&chars("-42")), Some(-42));
    assert_eq!(parse_decimal(&chars("000123")), Some(123));
    assert_eq!(parse_decimal(&chars("9223372036854775807")), Some(i64::MAX));
    assert_eq!(parse_decimal(&chars("-9223372036854775808")), Some(i64::MIN));
    assert_eq!(parse_decimal(&chars("00000000000000000000000000000001")), Some(1));
    assert_eq!(parse_decimal(&chars("9223372036854775808")), None);
    assert_eq!(parse_decimal(&chars("-9223372036854775809")), None);
    assert_eq!(parse_decimal(&chars("99999999999999999999")), None);
    assert_eq!(parse_decimal(&chars("")), None);
    assert_eq!(parse_decimal(&chars("+")), None);
    assert_eq!(parse_decimal(&chars("-")), None);
    assert_eq!(parse_decimal(&chars("1a")), None);
    assert_eq!(parse_decimal(&chars("--1")), None);
    assert_eq!(parse_decimal(&chars(" 1")), None);
    assert_eq!(parse_decimal(&chars("١")), None);
}

#[test]
fn decimal_numbers_agree_with_the_standard_parser() {
    for text in ["17", "-0", "+0", "0x10", "1_000", "123456789012", "-1", "٣"] {
        assert_eq!(parse_decimal(&chars(text)), text.parse::<i64>().ok(), "{text}");
    }
}

#[test]
fn text_helpers() {
    assert_eq!(chars_of("aé_b"), vec!['a', 'é', '_', 'b']);
    assert_eq!(chars_of(""), Vec::<char>::new());
    assert_eq!(find_first(&chars("ab_cd_e"), '_'), Some(2));
    assert_eq!(find_first(&chars("abc"), '_'), None);
    assert!(has_suffix(&chars("a.up.sql"), &chars(".sql")));
    assert!(has_suffix(&chars(".sql"), &chars(".sql")));
    assert!(!has_suffix(&chars("sql"), &chars(".sql")));
    assert!(!has_suffix(&chars("a.sqlx"), &chars(".sql")));
    assert!(has_suffix(&chars("abc"), &chars("")));
    assert_eq!(slice_of(&chars("abcdef"), 2, 4), chars("cd"));
    assert_eq!(slice_of(&chars("abcdef"), 3, 3), chars(""));
    assert_eq!(replace(&chars("a_b__c"), '_', ' '), chars("a b  c"));
}
