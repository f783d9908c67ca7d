use todolist::command::{confirms_exit, parse_command, Command};
use todolist::number::parse_decimal;
use todolist::text::{is_white, trim};
use todolist::todo::{DoneError, Entry, TodoList};
use todolist::todo_file::{parse_lines, render_tasks};

fn listing(entries: &[Entry]) -> Vec<(usize, String, bool)> {
    entries.iter().map(|e| (e.number, e.text.clone(), e.saved)).collect()
}

fn texts(list: &TodoList) -> Vec<String> {
    list.show().into_iter().map(|e| e.text).collect()
}

#[test]
fn example_session() {
    let mut list = TodoList::new();
    list.add("buy milk");
    list.add("walk dog");
    assert_eq!(
        listing(&list.show()),
        vec![(1, "buy milk".to_string(), false), (2, "walk dog".to_string(), false)]
    );
    let contents = list.save_text().expect("a non-empty list has text to save");
    assert_eq!(contents, "buy milk\nwalk dog\n");
    list.mark_saved();
    assert_eq!(
        listing(&list.show()),
        vec![(1, "buy milk".to_string(), true), (2, "walk dog".to_string(), true)]
    );
    assert_eq!(list.mark_done(1), Ok(()));
    assert_eq!(listing(&list.show()), vec![(1, "walk dog".to_string(), true)]);
}

#[test]
fn add_then_show_lists_in_order() {
    let mut list = TodoList::new();
    let items = ["one", "two", "three", "four", "five"];
    for t in items.iter() {
        list.add(t);
    }
    let shown = list.show();
    assert_eq!(shown.len(), 5);
    for (i, e) in shown.iter().enumerate() {
        assert_eq!(e.number, i + 1);
        assert_eq!(e.text, items[i]);
        assert!(!e.saved);
    }
}

#[test]
fn add_trims_text() {
    let mut list = TodoList::new();
    list.add("  \t read book \r\n");
    list.add("");
    assert_eq!(texts(&list), vec!["read book".to_string(), "".to_string()]);
}

#[test]
fn save_marks_every_task_saved() {
    let mut list = TodoList::from_file("a\nb\n");
    list.add("c");
    list.add("d");
    assert!(list.has_unsaved());
    assert_eq!(list.saved_count(), 2);
    list.mark_saved();
    assert!(!list.has_unsaved());
    assert_eq!(list.saved_count(), 4);
    assert!(list.show().iter().all(|e| e.saved));
}

#[test]
fn save_of_empty_list_has_nothing_to_write() {
    let list = TodoList::new();
    assert_eq!(list.save_text(), None);
    assert!(!list.has_unsaved());
}

#[test]
fn done_out_of_range_changes_nothing() {
    let mut list = TodoList::new();
    list.add("a");
    list.add("b");
    let before = listing(&list.show());
    assert_eq!(list.mark_done(0), Err(DoneError::OutOfRange));
    assert_eq!(list.mark_done(3), Err(DoneError::OutOfRange));
    assert_eq!(list.mark_done_text("7"), Err(DoneError::OutOfRange));
    assert_eq!(list.mark_done_text("0"), Err(DoneError::OutOfRange));
    assert_eq!(listing(&list.show()), before);
}

#[test]
fn done_with_bad_number_changes_nothing() {
    let mut list = TodoList::new();
    list.add("a");
    assert_eq!(list.mark_done_text("one"), Err(DoneError::NotANumber));
    assert_eq!(list.mark_done_text("-1"), Err(DoneError::NotANumber));
    assert_eq!(list.mark_done_text(""), Err(DoneError::NotANumber));
    assert_eq!(list.mark_done_text("99999999999999999999999"), Err(DoneError::NotANumber));
    assert_eq!(texts(&list), vec!["a".to_string()]);
}

#[test]
fn done_removes_task_and_shifts_later_ones() {
    let mut list = TodoList::new();
    for t in ["a", "b", "c", "d"].iter() {
        list.add(t);
    }
    assert_eq!(list.mark_done_text(" 2\n"), Ok(2));
    assert_eq!(
        listing(&list.show()),
        vec![
            (1, "a".to_string(), false),
            (2, "c".to_string(), false),
            (3, "d".to_string(), false)
        ]
    );
}

#[test]
fn done_inside_saved_prefix_shrinks_it() {
    let mut list = TodoList::from_file("a\nb\nc\n");
    list.add("d");
    assert_eq!(list.saved_count(), 3);
    assert_eq!(list.mark_done(2), Ok(()));
    assert_eq!(list.saved_count(), 2);
    assert_eq!(list.mark_done(3), Ok(()));
    assert_eq!(list.saved_count(), 2);
    assert_eq!(
        listing(&list.show()),
        vec![(1, "a".to_string(), true), (2, "c".to_string(), true)]
    );
}

#[test]
fn done_of_first_task_in_fresh_list() {
    let mut list = TodoList::new();
    list.add("only");
    assert_eq!(list.mark_done(1), Ok(()));
    assert_eq!(list.len(), 0);
    assert_eq!(list.saved_count(), 0);
}

#[test]
fn save_then_load_round_trip() {
    let mut list = TodoList::new();
    for t in ["  buy milk ", "walk dog", "", "pay rent\t"].iter() {
        list.add(t);
    }
    let contents = list.save_text().unwrap();
    let loaded = TodoList::from_file(&contents);
    assert_eq!(texts(&loaded), texts(&list));
    assert_eq!(loaded.saved_count(), 4);
    assert!(!loaded.has_unsaved());
}

#[test]
fn load_of_empty_file_is_empty() {
    let list = TodoList::from_file("");
    assert_eq!(list.len(), 0);
    assert!(list.show().is_empty());
}

#[test]
fn parse_lines_follows_line_endings() {
    assert_eq!(parse_lines("a\r\nb\nc"), vec!["a", "b", "c"]);
    assert_eq!(parse_lines("\n\nx\n"), vec!["", "", "x"]);
    assert_eq!(parse_lines("a\rb\n"), vec!["a\rb"]);
    assert_eq!(parse_lines("é ü\n"), vec!["é ü"]);
    assert!(parse_lines("").is_empty());
}

#[test]
fn render_writes_newline_after_each_task() {
    let tasks = vec!["x".to_string(), "".to_string(), "y z".to_string()];
    assert_eq!(render_tasks(&tasks), "x\n\ny z\n");
    assert_eq!(render_tasks(&Vec::new()), "");
}

#[test]
fn decimal_parsing() {
    assert_eq!(parse_decimal("42"), Some(42));
    assert_eq!(parse_decimal("+7"), Some(7));
    assert_eq!(parse_decimal("007"), Some(7));
    assert_eq!(parse_decimal("0"), Some(0));
    assert_eq!(parse_decimal("+"), None);
    assert_eq!(parse_decimal(""), None);
    assert_eq!(parse_decimal("-3"), None);
    assert_eq!(parse_decimal("4 2"), None);
    assert_eq!(parse_decimal(" 4"), None);
    let max = usize::MAX.to_string();
    assert_eq!(parse_decimal(&max), Some(usize::MAX));
    let over = format!("{}0", max);
    assert_eq!(parse_decimal(&over), None);
}

#[test]
fn trimming_and_white_space() {
    assert_eq!(trim("  a b  "), "a b");
    assert_eq!(trim("\u{3000}x\u{a0}"), "x");
    assert_eq!(trim(" \t\n "), "");
    assert_eq!(trim("\u{200b}x"), "\u{200b}x");
    for c in ['\t', '\n', '\r', ' ', '\u{85}', '\u{2009}', '\u{2028}', '\u{205f}'] {
        assert!(is_white(c));
        assert!(c.is_whitespace());
    }
    for c in ['a', '0', '\u{200b}', '\u{180e}', '_'] {
        assert!(!is_white(c));
        assert_eq!(is_white(c), c.is_whitespace());
    }
}

#[test]
fn command_parsing() {
    assert!(matches!(parse_command("add buy milk"), Command::Add(t) if t == "buy milk"));
    assert!(matches!(parse_command("  add   spaced \n"), Command::Add(t) if t == "  spaced"));
    assert!(matches!(parse_command("done 3\n"), Command::Done(t) if t == "3"));
    assert!(matches!(parse_command("add"), Command::AddPrompt));
    assert!(matches!(parse_command(" done \n"), Command::DonePrompt));
    assert!(matches!(parse_command("show"), Command::Show));
    assert!(matches!(parse_command("save\n"), Command::Save));
    assert!(matches!(parse_command("exit"), Command::Exit));
    assert!(matches!(parse_command("adds"), Command::Unknown));
    assert!(matches!(parse_command("Show"), Command::Unknown));
    assert!(matches!(parse_command(""), Command::Unknown));
}

#[test]
fn exit_confirmation() {
    assert!(confirms_exit("y\n"));
    assert!(confirms_exit(" Y "));
    assert!(!confirms_exit("yes"));
    assert!(!confirms_exit("n"));
    assert!(!confirms_exit(""));
}
