use meow_auth::cli::database::env_file::{matches_at, replace_all, root_env_file};

fn chars(s: &str) -> Vec<char> {
    s.chars().collect()
}

#[test]
fn a_file_without_the_line_gets_one_at_its_end() {
    assert_eq!(root_env_file("", "postgres://db"), Some("\nDATABASE_URL=postgres://db".to_string()));
    assert_eq!(
        root_env_file("A=1\nB=2", "postgres://db"),
        Some("A=1\nB=2\nDATABASE_URL=postgres://db".to_string())
    );
    assert_eq!(
        root_env_file("A=1\n", "postgres://db"),
        Some("A=1\n\nDATABASE_URL=postgres://db".to_string())
    );
}

#[test]
fn a_line_that_names_the_address_is_left_alone() {
    assert_eq!(root_env_file("DATABASE_URL=postgres://db", "postgres://db"), None);
    assert_eq!(root_env_file("A=1\nDATABASE_URL=postgres://db\nB=2", "postgres://db"), None);
    assert_eq!(root_env_file("DATABASE_URL=a=b", "a=b"), None);
}

#[test]
fn a_line_that_names_another_address_is_replaced() {
    assert_eq!(
        root_env_file("A=1\nDATABASE_URL=old\nB=2", "new"),
        Some("A=1\nDATABASE_URL=new\nB=2".to_string())
    );
    assert_eq!(root_env_file("DATABASE_URL=old", "new"), Some("DATABASE_URL=new".to_string()));
    assert_eq!(root_env_file("DATABASE_URL=", "new"), Some("DATABASE_URL=new".to_string()));
}

#[test]
fn the_first_line_with_the_name_decides() {
    assert_eq!(
        root_env_file("DATABASE_URL=same\nDATABASE_URL=other", "same"),
        None
    );
    assert_eq!(
        root_env_file("DATABASE_URL=old\nDATABASE_URL=other", "new"),
        Some("DATABASE_URL=new\nDATABASE_URL=other".to_string())
    );
    // The name has to stand at the start of a line.
    assert_eq!(
        root_env_file("MY_DATABASE_URL=x", "new"),
        Some("MY_DATABASE_URL=x\nDATABASE_URL=new".to_string())
    );
}

#[test]
fn the_line_is_replaced_wherever_its_text_occurs() {
    assert_eq!(
        root_env_file("DATABASE_URL=old\nX_DATABASE_URL=old\nDATABASE_URL=old", "new"),
        Some("DATABASE_URL=new\nX_DATABASE_URL=new\nDATABASE_URL=new".to_string())
    );
}

#[test]
fn a_line_without_an_assignment_sets_nothing() {
    assert_eq!(root_env_file("DATABASE_URL", "new"), Some("DATABASE_URL=new".to_string()));
    assert_eq!(root_env_file("DATABASE_URL_OLD=x", "x"), None);
    assert_eq!(root_env_file("DATABASE_URL", ""), None);
}

#[test]
fn replace_all_agrees_with_the_standard_library() {
    for (text, pattern, with) in [
        ("aaaa", "aa", "b"),
        ("abcabc", "bc", "xyz"),
        ("abc", "abcd", "x"),
        ("", "a", "x"),
        ("aXbXc", "X", ""),
        ("ababa", "aba", "c"),
    ] {
        let replaced: String = replace_all(&chars(text), &chars(pattern), &chars(with)).iter().collect();
        assert_eq!(replaced, text.replace(pattern, with));
    }
}

#[test]
fn matches_at_checks_the_bounds() {
    assert!(matches_at(&chars("hello"), 1, &chars("ell")));
    assert!(matches_at(&chars("hello"), 5, &chars("")));
    assert!(!matches_at(&chars("hello"), 6, &chars("")));
    assert!(!matches_at(&chars("hello"), 3, &chars("low")));
    assert!(!matches_at(&chars("hello"), usize::MAX, &chars("l")));
}
