use floatctf_api::filter::{
    cross_filter_clauses, filter_groups, json_clauses_exec, token_filter_groups, JsonEntry,
};
use floatctf_api::views::parse_flag;
use floatctf_api::text::{generate_safe_name, split_whitespace, trimmed};

fn keys(ks: &[&str]) -> Vec<String> {
    ks.iter().map(|k| k.to_string()).collect()
}

#[test]
fn safe_names_replace_unsafe_ascii_only() {
    assert_eq!(generate_safe_name("Web/Easy: SQLi!"), "Web_Easy_ SQLi_");
    assert_eq!(generate_safe_name("a-b_c.d 1"), "a-b_c.d 1");
    assert_eq!(generate_safe_name("中文题目#1"), "中文题目_1");
    assert_eq!(generate_safe_name(""), "");
}

#[test]
fn trimming_and_words() {
    assert_eq!(trimmed("  \t hi there \n"), "hi there");
    assert_eq!(split_whitespace("  a  bb\tccc \n"), vec!["a", "bb", "ccc"]);
    assert!(split_whitespace("   ").is_empty());
}

#[test]
fn filter_groups_split_on_or_and_join_values() {
    let ks = keys(&["name", "category"]);
    let groups = filter_groups(&Some("name:hello world & category:web | name:x".to_string()), &ks);
    assert_eq!(groups.len(), 2);
    assert_eq!(groups[0].len(), 2);
    assert_eq!(groups[0][0].mapping, 0);
    assert_eq!(groups[0][0].value, "hello world");
    assert_eq!(groups[0][1].mapping, 1);
    assert_eq!(groups[0][1].value, "web");
    assert_eq!(groups[1].len(), 1);
    assert_eq!(groups[1][0].value, "x");
}

#[test]
fn filter_ignores_unknown_keys_and_words_without_colon() {
    let ks = keys(&["name"]);
    let groups = filter_groups(&Some("title:abc junk | name:q".to_string()), &ks);
    assert_eq!(groups.len(), 1);
    assert_eq!(groups[0][0].value, "q");
    assert!(filter_groups(&None, &ks).is_empty());
}

#[test]
fn cross_filter_is_the_flattened_groups() {
    let ks = keys(&["name", "category"]);
    let f = Some("name:a | category:b c".to_string());
    let groups = filter_groups(&f, &ks);
    let cross = cross_filter_clauses(&f, &ks).unwrap();
    let flat: Vec<(usize, String)> = groups.iter().flatten().map(|c| (c.mapping, c.value.clone())).collect();
    let got: Vec<(usize, String)> = cross.iter().map(|c| (c.mapping, c.value.clone())).collect();
    assert_eq!(flat, got);
    assert!(cross_filter_clauses(&Some("other:1".to_string()), &ks).is_none());
    assert!(cross_filter_clauses(&None, &ks).is_none());
}

#[test]
fn flag_values() {
    assert!(parse_flag("true"));
    assert!(!parse_flag("True"));
    assert!(!parse_flag("false"));
    assert!(!parse_flag("1"));
}

#[test]
fn json_filters_give_one_group() {
    let ks = keys(&["name", "hidden"]);
    let f = Some(r#"{"name": "web", "hidden": false, "bogus": 1}"#.to_string());
    let groups = filter_groups(&f, &ks);
    assert_eq!(groups.len(), 1);
    let got: Vec<(usize, String)> = groups[0].iter().map(|c| (c.mapping, c.value.clone())).collect();
    assert_eq!(got, vec![(1, "false".to_string()), (0, "web".to_string())]);
    let cross = cross_filter_clauses(&f, &ks).unwrap();
    assert_eq!(cross.len(), 2);
    assert!(filter_groups(&Some(r#"{"other": "x"}"#.to_string()), &ks).is_empty());
    assert!(cross_filter_clauses(&Some(r#"{"other": "x"}"#.to_string()), &ks).is_none());
    // not an object: the word form
    let words = filter_groups(&Some("[1, 2] name:x".to_string()), &ks);
    assert_eq!(words.len(), 1);
    assert_eq!(words[0][0].value, "x");
}

#[test]
fn json_entries_give_clauses_for_known_keys() {
    let ks = keys(&["name", "hidden"]);
    let entries = vec![
        JsonEntry { key: "hidden".into(), value: "false".into() },
        JsonEntry { key: "other".into(), value: "x".into() },
        JsonEntry { key: "name".into(), value: "web 1".into() },
    ];
    let clauses = json_clauses_exec(entries, &ks);
    assert_eq!(clauses.len(), 2);
    assert_eq!((clauses[0].mapping, clauses[0].value.as_str()), (1, "false"));
    assert_eq!((clauses[1].mapping, clauses[1].value.as_str()), (0, "web 1"));
    assert!(json_clauses_exec(vec![], &ks).is_empty());
}

#[test]
fn word_form_groups_ignore_json_reading() {
    let ks = keys(&["name"]);
    let groups = token_filter_groups(&Some("name:a b | name:c".to_string()), &ks);
    assert_eq!(groups.len(), 2);
    assert_eq!(groups[0][0].value, "a b");
    assert_eq!(groups[1][0].value, "c");
    let raw = token_filter_groups(&Some("{\"name\":\"a\"}".to_string()), &ks);
    assert!(raw.iter().all(|g| g.is_empty()));
    assert!(token_filter_groups(&None, &ks).is_empty());
}
