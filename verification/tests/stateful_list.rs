use watchbind::keybindings::{exec_operation, Operation};
use watchbind::stateful_list::StatefulList;
use watchbind::tui::RequestedAction;

fn ten_lines() -> Vec<String> {
    (0..10).map(|i| format!("line {}", i)).collect()
}

#[test]
fn down_steps_clamp_at_the_last_row() {
    let mut state = StatefulList::new();
    state.set_lines(ten_lines());
    assert_eq!(state.cursor(), Some(0));

    let down3 = Operation::from_str("down 3").unwrap();
    let act = exec_operation(&down3, &mut state);
    assert_eq!(act, RequestedAction::Continue);
    assert_eq!(state.cursor(), Some(3));

    exec_operation(&down3, &mut state);
    assert_eq!(state.cursor(), Some(6));

    let down10 = Operation::from_str("down 10").unwrap();
    exec_operation(&down10, &mut state);
    assert_eq!(state.cursor(), Some(9));
}

#[test]
fn up_steps_clamp_at_the_first_row() {
    let mut state = StatefulList::new();
    state.set_lines(ten_lines());
    state.last();
    assert_eq!(state.cursor(), Some(9));
    state.up(4);
    assert_eq!(state.cursor(), Some(5));
    state.up(100);
    assert_eq!(state.cursor(), Some(0));
    state.first();
    assert_eq!(state.cursor(), Some(0));
}

#[test]
fn empty_list_keeps_the_cursor_undefined() {
    let mut state = StatefulList::new();
    assert_eq!(state.cursor(), None);
    state.down(3);
    state.up(1);
    state.first();
    state.last();
    state.select();
    state.select_toggle();
    state.select_all();
    assert_eq!(state.cursor(), None);
    assert_eq!(state.get_selected_line(), None);
}

#[test]
fn toggle_twice_restores_the_selection() {
    let mut state = StatefulList::new();
    state.set_lines(ten_lines());
    state.down(2);
    state.select();
    state.down(1);
    assert!(state.is_selected(2));
    assert!(!state.is_selected(3));

    state.select_toggle();
    assert!(state.is_selected(3));
    state.select_toggle();
    assert!(!state.is_selected(3));
    assert!(state.is_selected(2));
}

#[test]
fn select_all_then_unselect_all_clears_everything() {
    let mut state = StatefulList::new();
    state.set_lines(ten_lines());
    state.down(5);
    state.select();
    state.select_all();
    for i in 0..10 {
        assert!(state.is_selected(i));
    }
    state.unselect_all();
    for i in 0..10 {
        assert!(!state.is_selected(i));
    }
    assert_eq!(state.cursor(), Some(5));
}

#[test]
fn select_and_unselect_touch_only_the_cursor_row() {
    let mut state = StatefulList::new();
    state.set_lines(ten_lines());
    state.down(4);
    state.select();
    assert!(state.is_selected(4));
    state.unselect();
    assert!(!state.is_selected(4));
}

#[test]
fn set_lines_clamps_cursor_and_clears_selection() {
    let mut state = StatefulList::new();
    state.set_lines(ten_lines());
    state.down(7);
    state.select();
    assert!(state.is_selected(7));

    let three: Vec<String> = vec!["a".to_string(), "b".to_string(), "c".to_string()];
    state.set_lines(three);
    assert_eq!(state.cursor(), Some(2));
    for i in 0..3 {
        assert!(!state.is_selected(i));
    }

    state.set_lines(Vec::new());
    assert_eq!(state.cursor(), None);

    state.set_lines(ten_lines());
    assert_eq!(state.cursor(), Some(0));
}

#[test]
fn get_selected_line_returns_the_cursor_row() {
    let mut state = StatefulList::new();
    state.set_lines(ten_lines());
    state.down(6);
    assert_eq!(state.get_selected_line(), Some("line 6".to_string()));
    assert_eq!(state.lines().len(), 10);
    assert_eq!(state.lines()[0], "line 0");
}
