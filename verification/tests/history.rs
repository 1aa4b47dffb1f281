use cita_shell::history::History;

fn words(list: &[&str]) -> Vec<String> {
    list.iter().map(|word| word.to_string()).collect()
}

#[test]
fn new_history_is_empty() {
    let history = History::new();
    assert_eq!(history.len(), 0);
    assert!(history.entries().is_empty());
    assert!(!history.contains(&"info".to_string()));
}

#[test]
fn a_new_line_is_appended() {
    let mut history = History::new();
    assert!(history.add_unique("info".to_string()));
    assert!(history.add_unique("rpc blockNumber".to_string()));
    assert_eq!(history.len(), 2);
    assert_eq!(history.entries(), &words(&["info", "rpc blockNumber"]));
    assert!(history.contains(&"info".to_string()));
}

#[test]
fn a_known_line_does_not_grow_the_history() {
    let mut history = History::new();
    history.add_unique("info".to_string());
    history.add_unique("rpc blockNumber".to_string());
    assert!(!history.add_unique("info".to_string()));
    assert_eq!(history.len(), 2);
    assert!(!history.add_unique("rpc blockNumber".to_string()));
    assert_eq!(history.len(), 2);
    assert_eq!(history.entries(), &words(&["info", "rpc blockNumber"]));
}

#[test]
fn lines_differ_by_every_character() {
    let mut history = History::new();
    assert!(history.add_unique("info".to_string()));
    assert!(history.add_unique("info ".to_string()));
    assert!(history.add_unique("Info".to_string()));
    assert!(history.add_unique("".to_string()));
    assert!(!history.add_unique("".to_string()));
    assert_eq!(history.len(), 4);
}

#[test]
fn loaded_lines_are_kept_once() {
    let history = History::from_lines(words(&["a", "b", "a", "c", "b", "a"]));
    assert_eq!(history.entries(), &words(&["a", "b", "c"]));
    assert_eq!(History::from_lines(Vec::new()).len(), 0);
}
