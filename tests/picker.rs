use histpick::paging::Cursor;
use histpick::picker::{Event, Outcome, Picker};

fn history() -> Vec<String> {
    vec![
        "ls -la".to_string(),
        "git status".to_string(),
        "git commit -m x".to_string(),
        "cd /tmp".to_string(),
    ]
}

fn words(n: usize) -> Vec<String> {
    (0..n).map(|i| format!("a{}", i)).collect()
}

#[test]
fn end_to_end_query_and_commit() {
    let mut p = Picker::new(history(), 2);
    assert_eq!(p.visible(), vec!["ls -la".to_string(), "git status".to_string()]);
    assert_eq!(p.selected(), Some("ls -la".to_string()));
    assert_eq!(p.step(Event::Down), Outcome::Running);
    assert_eq!(p.step(Event::Down), Outcome::Running);
    assert_eq!(p.cursor(), Cursor { page: 1, index: 0 });
    assert_eq!(p.selected(), Some("git commit -m x".to_string()));
    assert_eq!(p.step(Event::Edit("git".to_string())), Outcome::Running);
    assert_eq!(
        p.matches(),
        &vec!["git status".to_string(), "git commit -m x".to_string()]
    );
    assert_eq!(p.cursor(), Cursor { page: 0, index: 0 });
    assert_eq!(p.selected(), Some("git status".to_string()));
    assert_eq!(
        p.step(Event::Commit),
        Outcome::Committed(Some("git status".to_string()))
    );
}

#[test]
fn empty_history_has_no_selection() {
    let mut p = Picker::new(Vec::new(), 3);
    assert!(p.matches().is_empty());
    assert_eq!(p.selected(), None);
    assert_eq!(p.highlighted_row(), None);
    assert!(p.visible().is_empty());
    assert_eq!(p.step(Event::Down), Outcome::Running);
    assert_eq!(p.step(Event::Up), Outcome::Running);
    assert_eq!(p.step(Event::Edit("x".to_string())), Outcome::Running);
    assert_eq!(p.cursor(), Cursor { page: 0, index: 0 });
    assert_eq!(p.step(Event::Commit), Outcome::Committed(None));
}

#[test]
fn query_change_resets_cursor() {
    let mut entries = words(8);
    entries.push("ab".to_string());
    entries.push("abc".to_string());
    let mut p = Picker::new(entries, 4);
    p.set_query("a".to_string());
    assert_eq!(p.matches().len(), 10);
    for _ in 0..6 {
        p.move_down();
    }
    assert_eq!(p.cursor(), Cursor { page: 1, index: 2 });
    p.set_query("ab".to_string());
    assert_eq!(p.matches().len(), 2);
    assert_eq!(p.cursor(), Cursor { page: 0, index: 0 });
    assert_eq!(p.selected(), Some("ab".to_string()));
}

#[test]
fn same_query_keeps_cursor() {
    let mut p = Picker::new(words(5), 2);
    p.move_down();
    p.move_down();
    p.move_down();
    p.set_query(String::new());
    assert_eq!(p.cursor(), Cursor { page: 1, index: 1 });
    assert_eq!(p.query(), "");
}

#[test]
fn down_holds_on_last_match_of_short_page() {
    let mut p = Picker::new(words(5), 3);
    for _ in 0..10 {
        p.step(Event::Down);
    }
    assert_eq!(p.cursor(), Cursor { page: 1, index: 1 });
    assert_eq!(p.selected(), Some("a4".to_string()));
    assert_eq!(p.visible(), vec!["a3".to_string(), "a4".to_string()]);
    assert_eq!(p.highlighted_row(), Some(1));
}

#[test]
fn up_crosses_pages_and_holds_on_first() {
    let mut p = Picker::new(words(5), 3);
    for _ in 0..3 {
        p.step(Event::Down);
    }
    assert_eq!(p.cursor(), Cursor { page: 1, index: 0 });
    p.step(Event::Up);
    assert_eq!(p.cursor(), Cursor { page: 0, index: 2 });
    for _ in 0..5 {
        p.step(Event::Up);
    }
    assert_eq!(p.cursor(), Cursor { page: 0, index: 0 });
    assert_eq!(p.selected(), Some("a0".to_string()));
}

#[test]
fn cancel_and_idle() {
    let mut p = Picker::new(history(), 2);
    p.step(Event::Down);
    assert_eq!(p.step(Event::Idle), Outcome::Running);
    assert_eq!(p.cursor(), Cursor { page: 0, index: 1 });
    assert_eq!(p.step(Event::Cancel), Outcome::Cancelled);
    assert_eq!(p.cursor(), Cursor { page: 0, index: 1 });
}

#[test]
fn query_without_matches() {
    let mut p = Picker::new(history(), 2);
    p.step(Event::Edit("zzz".to_string()));
    assert!(p.matches().is_empty());
    assert_eq!(p.selected(), None);
    assert_eq!(p.step(Event::Commit), Outcome::Committed(None));
}
