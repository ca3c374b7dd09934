use laraploy::collector::{collect_entry, collect_env_values, prompt_for_key, store_value};
use laraploy::env_example::{extract_env_keys, holds_key, key_of_line};
use laraploy::env_file::{env_file_contents, make_env_file_contents};
use laraploy::settings::{env_example_path, env_file_path};

fn pair(key: &str, value: &str) -> (String, String) {
    (key.to_string(), value.to_string())
}

fn letters(s: &str) -> Vec<char> {
    s.chars().collect()
}

#[test]
fn keys_come_in_the_order_of_the_file() {
    let keys = extract_env_keys("APP_NAME=Laravel\nAPP_ENV=local\nDB_HOST=127.0.0.1\n");
    assert_eq!(keys, vec!["APP_NAME", "APP_ENV", "DB_HOST"]);
}

#[test]
fn blank_lines_and_comments_name_no_key() {
    let keys = extract_env_keys("# first\nA=1\n\n   \n  # indented = comment\n#B=2\nC=3\n");
    assert_eq!(keys, vec!["A", "C"]);
}

#[test]
fn a_key_that_is_listed_twice_counts_where_it_is_first() {
    let keys = extract_env_keys("A=1\nB=2\nA=3\nC=4\nB=5\n");
    assert_eq!(keys, vec!["A", "B", "C"]);
}

#[test]
fn a_line_without_an_equals_sign_names_no_key() {
    let keys = extract_env_keys("A=1\nNOT_A_PAIR\nB=2");
    assert_eq!(keys, vec!["A", "B"]);
}

#[test]
fn a_key_ends_at_the_first_equals_sign() {
    let keys = extract_env_keys("A=b=c\nB==\n");
    assert_eq!(keys, vec!["A", "B"]);
}

#[test]
fn a_key_is_taken_as_it_is_written() {
    let keys = extract_env_keys("  A =1\n=2\n");
    assert_eq!(keys, vec!["  A ", ""]);
}

#[test]
fn keys_of_a_file_with_carriage_returns() {
    let keys = extract_env_keys("A=1\r\n\r\n# c\r\nB=2\r\n");
    assert_eq!(keys, vec!["A", "B"]);
}

#[test]
fn an_empty_file_lists_no_key() {
    assert_eq!(extract_env_keys(""), Vec::<String>::new());
    assert_eq!(extract_env_keys("\n\n# only a comment\n"), Vec::<String>::new());
}

#[test]
fn key_of_line_tells_the_lines_apart() {
    assert_eq!(key_of_line(&letters("A=1")), Some(letters("A")));
    assert_eq!(key_of_line(&letters("")), None);
    assert_eq!(key_of_line(&letters("#A=1")), None);
    assert_eq!(key_of_line(&letters(" \t#A=1")), None);
    assert_eq!(key_of_line(&letters("A")), None);
    assert_eq!(key_of_line(&letters("A#=1")), Some(letters("A#")));
    assert_eq!(key_of_line(&letters("   ")), None);
}

#[test]
fn holds_key_finds_whole_keys_only() {
    let keys = vec![letters("A"), letters("BC")];
    assert!(holds_key(&keys, &letters("BC")));
    assert!(!holds_key(&keys, &letters("B")));
    assert!(!holds_key(&Vec::new(), &letters("A")));
}

#[test]
fn the_prompt_names_the_key() {
    assert_eq!(prompt_for_key("APP_NAME"), "Enter the value for APP_NAME: ");
}

#[test]
fn the_name_of_the_application_is_stored_between_quotes() {
    assert_eq!(collect_entry("APP_NAME".to_string(), "MyApp".to_string()), Some(pair("APP_NAME", "\"MyApp\"")));
}

#[test]
fn a_name_that_is_quoted_already_is_stored_as_it_is() {
    assert_eq!(
        collect_entry("APP_NAME".to_string(), "\"MyApp\"".to_string()),
        Some(pair("APP_NAME", "\"MyApp\""))
    );
}

#[test]
fn an_empty_name_is_left_out() {
    assert_eq!(collect_entry("APP_NAME".to_string(), String::new()), None);
}

#[test]
fn a_name_with_a_quote_at_one_end_only_is_stored_between_quotes() {
    assert_eq!(store_value("APP_NAME", "\"MyApp".to_string()), "\"\"MyApp\"");
    assert_eq!(store_value("APP_NAME", "MyApp\"".to_string()), "\"MyApp\"\"");
    assert_eq!(store_value("APP_NAME", "My\"App".to_string()), "\"My\"App\"");
    assert_eq!(
        collect_env_values(&vec![pair("APP_NAME", "\"MyApp")]),
        vec![pair("APP_NAME", "\"\"MyApp\"")]
    );
}

#[test]
fn a_name_between_quotes_is_stored_as_it_is() {
    assert_eq!(store_value("APP_NAME", "\"My App\"".to_string()), "\"My App\"");
    assert_eq!(store_value("APP_NAME", "\"\"".to_string()), "\"\"");
    assert_eq!(store_value("APP_NAME", "\"".to_string()), "\"");
}

#[test]
fn what_is_stored_for_the_name_always_stands_between_quotes() {
    for answer in ["a", "\"", "\"a", "a\"", "\"a\"", "a\"b", " \"a\" ", "\"\"a"] {
        let stored = store_value("APP_NAME", answer.to_string());
        assert!(stored.starts_with('"') && stored.ends_with('"'));
        if answer.starts_with('"') && answer.ends_with('"') {
            assert_eq!(stored, answer);
        } else {
            assert_eq!(stored, format!("\"{}\"", answer));
        }
    }
}

#[test]
fn only_the_name_of_the_application_is_quoted() {
    assert_eq!(store_value("APP_ENV", "local".to_string()), "local");
    assert_eq!(store_value("APP_NAMES", "MyApp".to_string()), "MyApp");
    assert_eq!(store_value("app_name", "MyApp".to_string()), "MyApp");
    assert_eq!(collect_entry("DB_HOST".to_string(), "db".to_string()), Some(pair("DB_HOST", "db")));
    assert_eq!(collect_entry("DB_HOST".to_string(), String::new()), None);
}

#[test]
fn an_entry_is_kept_if_and_only_if_its_answer_is_not_empty() {
    let answers = vec![
        pair("APP_NAME", "Shop"),
        pair("APP_ENV", ""),
        pair("DB_HOST", "127.0.0.1"),
        pair("DB_PASSWORD", ""),
        pair("REVERB_PORT", "9000"),
    ];
    let entries = collect_env_values(&answers);
    assert_eq!(
        entries,
        vec![pair("APP_NAME", "\"Shop\""), pair("DB_HOST", "127.0.0.1"), pair("REVERB_PORT", "9000")]
    );
    for (key, value) in &answers {
        let kept = entries.iter().any(|(k, _)| k == key);
        assert_eq!(kept, !value.is_empty());
    }
}

#[test]
fn nothing_is_kept_of_no_answers() {
    assert_eq!(collect_env_values(&Vec::new()), Vec::<(String, String)>::new());
    assert_eq!(collect_env_values(&vec![pair("A", ""), pair("B", "")]), Vec::<(String, String)>::new());
}

#[test]
fn the_environment_file_holds_one_line_per_entry() {
    let contents = make_env_file_contents(vec![
        pair("APP_NAME", "\"Shop\""),
        pair("APP_ENV", "production"),
        pair("DB_HOST", "127.0.0.1"),
    ]);
    assert_eq!(contents, "APP_NAME=\"Shop\"\nAPP_ENV=production\nDB_HOST=127.0.0.1");
}

#[test]
fn the_environment_file_of_no_entries_is_empty() {
    assert_eq!(make_env_file_contents(Vec::new()), "");
}

#[test]
fn the_environment_file_of_one_entry_is_one_line() {
    assert_eq!(make_env_file_contents(vec![pair("A", "1")]), "A=1");
}

#[test]
fn the_environment_file_is_trimmed_as_a_whole() {
    assert_eq!(make_env_file_contents(vec![pair(" A", "1"), pair("B", "2 ")]), "A=1\nB=2");
    assert_eq!(make_env_file_contents(vec![pair("A", " 1 "), pair("B", "2")]), "A= 1 \nB=2");
}

#[test]
fn the_environment_file_is_the_same_by_reference() {
    let entries = vec![pair("A", "1"), pair("B", "x=y")];
    assert_eq!(env_file_contents(&entries), "A=1\nB=x=y");
    assert_eq!(make_env_file_contents(entries.clone()), env_file_contents(&entries));
}

#[test]
fn the_files_of_the_environment_lie_in_the_project_directory() {
    assert_eq!(env_example_path(), "/var/www/laravel/.env.example");
    assert_eq!(env_file_path(), "/var/www/laravel/.env");
}

#[test]
fn what_is_collected_of_a_file_is_written_back_in_order() {
    let keys = extract_env_keys("APP_NAME=Laravel\n# database\nDB_HOST=\nDB_PORT=3306\nAPP_NAME=again\n");
    assert_eq!(keys, vec!["APP_NAME", "DB_HOST", "DB_PORT"]);
    let answers: Vec<(String, String)> =
        keys.into_iter().zip(["Blog".to_string(), String::new(), "5432".to_string()]).collect();
    let contents = make_env_file_contents(collect_env_values(&answers));
    assert_eq!(contents, "APP_NAME=\"Blog\"\nDB_PORT=5432");
}

#[test]
fn an_entry_in_the_middle_is_written_as_it_is() {
    let contents = make_env_file_contents(vec![pair("A", "1 "), pair(" B", "2\t"), pair(" C", "3")]);
    assert_eq!(contents, "A=1 \n B=2\t\n C=3");
    let lines: Vec<&str> = contents.lines().collect();
    assert_eq!(lines, vec!["A=1 ", " B=2\t", " C=3"]);
}
