use cal_rem::todo::{parse_todo_file, sliding_todo};
use cal_rem::Todo;

#[test]
fn todo_parsing_test() {
    let todos = parse_todo_file("Do A\n  Do B\n\n   \n Do C  \n\n--- Ferdig ---\nDo D\n");
    assert_eq!(todos[0], "Do A");
    assert_eq!(todos[1], "Do B");
    assert_eq!(todos[2], "Do C");
}

#[test]
fn todo_sentinel_stops_parsing() {
    let todos = parse_todo_file("Do A\n--- Ferdig ---\nDo B\n");
    assert_eq!(vec!["Do A".to_string()], todos);
}

#[test]
fn todo_empty_file_is_empty() {
    assert!(parse_todo_file("").is_empty());
    assert!(parse_todo_file("\n  \n\t\n").is_empty());
}

#[test]
fn sliding_todo_joins_done_items() {
    let todos = vec![
        Todo { description: "One".to_string(), done: true },
        Todo { description: "Two".to_string(), done: false },
        Todo { description: "Three".to_string(), done: true },
    ];
    assert_eq!("One --------- Three --------- ", sliding_todo(&todos));
    assert_eq!("", sliding_todo(&Vec::new()));
}
