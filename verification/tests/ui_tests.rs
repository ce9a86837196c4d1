//! Tests of the two display view states.

use ccr::chat_ui;
use ccr::ui::{UiState, ViewMode, VISIBLE_LINES};

#[test]
fn test_ui_scroll() {
    let mut state = UiState::new();
    state.event_count = 10;
    state.selected = 5;

    state.scroll_up();
    assert_eq!(state.selected, 4);

    state.scroll_down(10);
    assert_eq!(state.selected, 5);
}

#[test]
fn test_ui_scroll_window() {
    let mut state = UiState::new();
    state.event_count = 60;
    // walking down past the window pushes it along
    for _ in 0..40 {
        state.scroll_down(60);
    }
    assert_eq!(state.selected, 40);
    assert_eq!(state.scroll_pos, 40 - (VISIBLE_LINES - 1));
    // walking back up pulls it back
    for _ in 0..40 {
        state.scroll_up();
    }
    assert_eq!(state.selected, 0);
    assert_eq!(state.scroll_pos, 0);
    // at the top, scrolling up does nothing
    state.scroll_up();
    assert_eq!(state.selected, 0);
}

#[test]
fn test_ui_auto_scroll() {
    let mut state = UiState::new();
    state.auto_scroll(5);
    assert_eq!(state.event_count, 5);
    assert_eq!(state.selected, 4);
    assert_eq!(state.scroll_pos, 0);

    state.auto_scroll(40);
    assert_eq!(state.selected, 39);
    assert_eq!(state.scroll_pos, 40 - VISIBLE_LINES);

    let before = state.selected;
    state.auto_scroll(0);
    assert_eq!(state.event_count, 0);
    assert_eq!(state.selected, before);
}

#[test]
fn test_ui_permission_flow() {
    let mut state = UiState::new();
    assert!(!state.has_pending_permission());
    state.set_pending_permission("req-1");
    assert!(state.has_pending_permission());
    assert_eq!(state.pending_permission.as_deref(), Some("req-1"));
    assert!(state.permission_choice);
    state.toggle_permission_choice();
    assert!(!state.permission_choice);
    state.clear_pending_permission();
    assert!(!state.has_pending_permission());
    assert_eq!(state.view, ViewMode::List);
}

#[test]
fn test_chat_ui_input() {
    let mut state = chat_ui::UiState::new();
    assert_eq!(state.input_get(), "");
    state.input_add_char('h');
    state.input_add_char('i');
    assert_eq!(state.input_get(), "hi");
    assert_eq!(state.input_cursor, 2);
    state.input_backspace();
    assert_eq!(state.input_get(), "h");
    assert_eq!(state.input_cursor, 1);
    state.input_backspace();
    state.input_backspace();
    assert_eq!(state.input_get(), "");
    state.input_add_char('x');
    state.input_clear();
    assert_eq!(state.input_get(), "");
    assert_eq!(state.input_cursor, 0);
}

#[test]
fn test_chat_ui_input_limit() {
    let mut state = chat_ui::UiState::new();
    for _ in 0..chat_ui::MAX_INPUT_LEN + 10 {
        state.input_add_char('a');
    }
    assert_eq!(state.input_get().chars().count(), chat_ui::MAX_INPUT_LEN);
}

#[test]
fn test_chat_ui_selection() {
    let mut state = chat_ui::UiState::new();
    state.event_count = 3;
    state.selected = 1;
    assert!(state.has_selection());
    assert!(state.is_selected(1));
    assert!(!state.is_selected(2));
    state.clear_selection();
    assert!(!state.has_selection());
    assert!(!state.is_selected(usize::MAX));
}

#[test]
fn test_chat_ui_scrolling() {
    let mut state = chat_ui::UiState::new();
    state.auto_scroll(30);
    assert_eq!(state.event_count, 30);
    assert_eq!(state.selected, 29);
    // without a pending permission, half of the chat lines are visible
    assert_eq!(state.scroll_pos, 30 - chat_ui::CHAT_LINES / 2);

    state.scroll_to_bottom(30);
    assert_eq!(state.selected, 0);
    assert_eq!(state.scroll_pos, 0);

    state.scroll_to_top();
    assert_eq!(state.selected, 29);
    assert_eq!(state.scroll_pos, 29 - chat_ui::CHAT_LINES / 2);

    // with a pending permission the visible window narrows
    state.set_pending_permission("r");
    state.scroll_to_bottom(30);
    state.auto_scroll(30);
    let visible = (chat_ui::CHAT_LINES - chat_ui::PERM_HEIGHT) / 2;
    assert_eq!(state.scroll_pos, 30 - visible);
}
