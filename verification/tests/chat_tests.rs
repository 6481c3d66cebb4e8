use utterance::chat::{Chat, Entry};

#[test]
fn chat_pushes_and_last() {
    let mut c = Chat::new();
    assert!(c.last().is_none());
    c.push_system("be helpful");
    c.push_assistant("ok");
    c.push_user("hello");
    let last = c.last().expect("entry");
    assert!(matches!(last, Entry::User(_)));
    assert_eq!(last.content(), "hello");
}

#[test]
fn record_completion_appends_entry() {
    let mut c = Chat::new();
    c.push_user("question");
    c.record_completion(Entry::Assistant("answer".to_string()), 42);
    assert_eq!(c.last().expect("entry").content(), "answer");
}

#[test]
fn token_counter_accumulates() {
    let mut c = Chat::new();
    assert_eq!(c.tokens_used(), 0);
    c.record_completion(Entry::Assistant("a".to_string()), 42);
    c.record_completion(Entry::Assistant("b".to_string()), 8);
    assert_eq!(c.tokens_used(), 50);
}

#[test]
fn model_and_entries_are_exposed() {
    let mut c = Chat::new();
    assert_eq!(c.model_name(), "gpt-3.5-turbo");
    assert!(c.entries().is_empty());
    c.push_user("hi");
    assert_eq!(c.entries().len(), 1);
    assert_eq!(c.entries()[0].content(), "hi");
}

#[test]
fn content_returns_text_of_each_role() {
    assert_eq!(Entry::System("a".to_string()).content(), "a");
    assert_eq!(Entry::Assistant("b".to_string()).content(), "b");
    assert_eq!(Entry::User("c".to_string()).content(), "c");
}

#[test]
fn as_table_extracts_rows_and_cells() {
    let e = Entry::Assistant(
        "Here you go:\n|name | age|\n|----|----|\n| ada| 36|\nthanks".to_string(),
    );
    let t = e.as_table().expect("table");
    assert_eq!(
        t,
        vec![
            vec!["name".to_string(), "age".to_string()],
            vec!["ada".to_string(), "36".to_string()],
        ]
    );
}

#[test]
fn as_table_without_pipes_is_none() {
    let e = Entry::Assistant("no table here".to_string());
    assert!(e.as_table().is_none());
}

#[test]
fn as_table_keeps_rows_after_separator() {
    let e = Entry::User("|h1|h2|\n|-|-|\n|a|b|\n|c|d|".to_string());
    let t = e.as_table().expect("table");
    assert_eq!(t.len(), 3);
    assert_eq!(t[0], vec!["h1".to_string(), "h2".to_string()]);
    assert_eq!(t[1], vec!["a".to_string(), "b".to_string()]);
    assert_eq!(t[2], vec!["c".to_string(), "d".to_string()]);
}

#[test]
fn as_json_extracts_object() {
    let e = Entry::Assistant("noise before {\"a\": 1} noise after".to_string());
    let v = e.as_json().expect("json");
    assert!(v.is_object());
    assert_eq!(v.get("a").and_then(|x| x.as_i64()), Some(1));
}

#[test]
fn as_json_collapses_singleton_array() {
    let e = Entry::Assistant("[{\"a\": 1}]".to_string());
    let v = e.as_json().expect("json");
    assert!(v.is_object());
    assert_eq!(v.get("a").and_then(|x| x.as_i64()), Some(1));
}

#[test]
fn as_json_keeps_longer_array() {
    let e = Entry::Assistant("[1, 2]".to_string());
    let v = e.as_json().expect("json");
    assert!(v.is_array());
    assert_eq!(v.as_array().map(|a| a.len()), Some(2));
}

#[test]
fn as_json_prefers_earlier_bracket() {
    let e = Entry::Assistant("x [1, 2] then {\"a\": 1}".to_string());
    let v = e.as_json().expect("json");
    assert!(v.is_array());
}

#[test]
fn as_json_none_without_document() {
    assert!(Entry::Assistant("plain words".to_string()).as_json().is_none());
    assert!(Entry::Assistant("{ not json".to_string()).as_json().is_none());
}
