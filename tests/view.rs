use cicero::view::{ApplicationState, GraphemeView, InputHandler, Key};
use cicero::Settings;

#[test]
fn typing_builds_rows_and_escape_stops() {
    let mut state = ApplicationState::new(Settings::default());
    let mut view = GraphemeView::new();
    view.handle_key_event(Key::Char('a'), &mut state);
    view.handle_key_event(Key::Char('b'), &mut state);
    assert_eq!(view.user_input, "ab");
    assert_eq!(view.graphemes.rows.len(), 3);
    view.handle_key_event(Key::Backspace, &mut state);
    assert_eq!(view.user_input, "a");
    assert!(state.keep_running);
    view.handle_key_event(Key::Esc, &mut state);
    assert!(!state.keep_running);
}

#[test]
fn details_follow_the_selection() {
    let mut state = ApplicationState::new(Settings::default());
    let mut view = GraphemeView::new();
    for c in "xy".chars() {
        view.handle_key_event(Key::Char(c), &mut state);
    }
    view.handle_key_event(Key::Enter, &mut state);
    assert_eq!(view.showing_detail, Some('x'));
    view.handle_key_event(Key::Down, &mut state);
    assert_eq!(view.graphemes.selected(), Some(2));
    assert_eq!(view.showing_detail, Some('y'));
    view.handle_key_event(Key::Char('z'), &mut state);
    assert_eq!(view.user_input, "xy");
    view.handle_key_event(Key::Char('q'), &mut state);
    assert_eq!(view.showing_detail, None);
}

#[test]
fn input_handler_edits_text() {
    let mut state = ApplicationState::new(Settings::default());
    let mut handler = InputHandler::new();
    handler.handle_event(Key::Char('h'), &mut state);
    handler.handle_event(Key::Char('i'), &mut state);
    handler.handle_event(Key::Backspace, &mut state);
    assert_eq!(handler.user_input, "h");
    handler.handle_event(Key::Esc, &mut state);
    assert!(!state.keep_running);
}

use cicero::view::{DetailAction, MainView};

#[test]
fn main_view_detail_actions() {
    let mut state = ApplicationState::new(Settings::default());
    let mut view = MainView::new("ab".to_owned());
    assert_eq!(view.handle_key_event(Key::Left, &mut state), DetailAction::Keep);
    assert_eq!(view.handle_key_event(Key::Enter, &mut state), DetailAction::Show('a'));
    assert!(view.showing_detail);
    assert_eq!(view.handle_key_event(Key::Down, &mut state), DetailAction::Show('b'));
    assert_eq!(view.handle_key_event(Key::Right, &mut state), DetailAction::NextFont);
    assert_eq!(view.handle_key_event(Key::Control('d'), &mut state), DetailAction::ScrollDown);
    assert_eq!(view.handle_key_event(Key::PageUp, &mut state), DetailAction::Show('a'));
    assert_eq!(view.handle_key_event(Key::Esc, &mut state), DetailAction::Hide);
    assert!(state.keep_running);
    view.handle_key_event(Key::Char('c'), &mut state);
    assert_eq!(view.user_input, "abc");
    view.handle_key_event(Key::Esc, &mut state);
    assert!(!state.keep_running);
}

#[test]
fn help_texts_follow_the_detail() {
    let mut state = ApplicationState::new(Settings::default());
    let mut view = MainView::new("a".to_owned());
    assert_eq!(view.help_text(), "[ESC]: Quit");
    view.handle_key_event(Key::Enter, &mut state);
    assert_eq!(view.help_text(), "[ESC]: Hide Detail | [C-D][C-U]: Scroll Detail");
    let mut older = GraphemeView::new();
    assert_eq!(older.draw_help_text(), "esc: quit");
    older.handle_key_event(Key::Char('x'), &mut state);
    older.handle_key_event(Key::Enter, &mut state);
    assert_eq!(older.draw_help_text(), "esc: quit | q: hide detail");
}
