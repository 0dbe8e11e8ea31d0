use mymathboard::board::OutputHistoryItem;
use mymathboard::board::OutputHistoryItemType;
use mymathboard::session::Session;

fn entry(value: &str, kind: OutputHistoryItemType) -> OutputHistoryItem {
    OutputHistoryItem { value: value.to_string(), kind }
}

#[test]
fn a_session_begins_empty() {
    let session = Session::new();
    assert_eq!(session.repl_input, "");
    assert!(session.repl_input_history.is_empty());
    assert!(session.repl_output_history.is_empty());
    assert!(session.repl_should_input_be_in_focus);
    assert_eq!(session.current_open_file_path, None);
    assert!(!session.board_has_unsaved_changes);
    assert_eq!(session.name(), "untitled");
}

#[test]
fn a_submitted_line_is_kept_and_shown() {
    let mut session = Session::new();
    session.change_input("1 + 1".to_string());
    assert_eq!(session.repl_input, "1 + 1");
    session.submit("Ok(Number(2.0))", true);
    assert_eq!(session.repl_input, "");
    assert_eq!(session.repl_input_history, vec!["1 + 1".to_string()]);
    assert_eq!(
        session.repl_output_history,
        vec![
            entry(">>> 1 + 1\n", OutputHistoryItemType::PreviousInput),
            entry("=> Ok(Number(2.0))\n", OutputHistoryItemType::OkOutput),
        ]
    );
    assert!(session.repl_should_input_be_in_focus);
    assert!(!session.board_has_unsaved_changes);
    session.change_input("oops(".to_string());
    session.submit("Err(InvalidArgument)", false);
    assert_eq!(session.repl_input_history.len(), 2);
    assert_eq!(
        session.repl_output_history[3],
        entry("=> Err(InvalidArgument)\n", OutputHistoryItemType::ErrOutput)
    );
}

#[test]
fn a_board_in_a_file_has_a_change_after_a_line() {
    let mut session = Session::new();
    session.saved(Some("/tmp/sums.mymathboard".to_string()));
    assert_eq!(session.current_open_file_path, Some("/tmp/sums.mymathboard".to_string()));
    assert!(!session.board_has_unsaved_changes);
    assert_eq!(session.name(), "sums");
    session.change_input("2".to_string());
    session.submit("Ok(Number(2.0))", true);
    assert!(session.board_has_unsaved_changes);
    assert_eq!(session.name(), "sums*");
    session.saved(Some("/tmp/other.mymathboard".to_string()));
    assert_eq!(session.current_open_file_path, Some("/tmp/sums.mymathboard".to_string()));
    assert!(!session.board_has_unsaved_changes);
}

#[test]
fn saving_counts_even_where_no_file_was_chosen() {
    let mut session = Session::new();
    session.change_input("2".to_string());
    session.submit("Ok(Number(2.0))", true);
    session.saved(None);
    assert_eq!(session.current_open_file_path, None);
    assert!(!session.board_has_unsaved_changes);
}

#[test]
fn clearing_is_a_change_of_a_board_in_a_file() {
    let mut session = Session::new();
    session.change_input("2".to_string());
    session.submit("Ok(Number(2.0))", true);
    session.clear();
    assert!(session.repl_input_history.is_empty());
    assert!(session.repl_output_history.is_empty());
    assert!(!session.board_has_unsaved_changes);
    session.saved_as("b.mymathboard".to_string());
    session.clear();
    assert!(session.board_has_unsaved_changes);
}

#[test]
fn saving_under_another_file_keeps_the_changes_counted() {
    let mut session = Session::new();
    session.saved_as("a.mymathboard".to_string());
    session.change_input("1".to_string());
    session.submit("Ok(Number(1.0))", true);
    session.saved_as("b.mymathboard".to_string());
    assert_eq!(session.current_open_file_path, Some("b.mymathboard".to_string()));
    assert!(session.board_has_unsaved_changes);
}

#[test]
fn an_opened_file_is_entered_again_line_by_line() {
    let mut session = Session::new();
    session.change_input("old".to_string());
    session.submit("Ok(Empty)", true);
    session.change_input("half typed".to_string());
    session.begin_open();
    assert_eq!(session.repl_input, "");
    assert!(session.repl_input_history.is_empty());
    assert!(session.repl_output_history.is_empty());
    let lines = vec!["x = 1".to_string(), "x + 1".to_string()];
    session.opened("c.mymathboard".to_string(), lines.clone());
    assert_eq!(session.repl_input_history, lines);
    assert_eq!(session.current_open_file_path, Some("c.mymathboard".to_string()));
    for line in lines {
        session.change_input(line);
        session.record("Ok(Empty)", true);
    }
    assert_eq!(session.repl_input, "x + 1");
    assert_eq!(session.repl_input_history.len(), 2);
    assert_eq!(session.repl_output_history.len(), 4);
    assert_eq!(
        session.repl_output_history[2],
        entry(">>> x + 1\n", OutputHistoryItemType::PreviousInput)
    );
    assert!(!session.board_has_unsaved_changes);
}
