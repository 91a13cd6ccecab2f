use dtn_chat::input::{cursor_cell, Action, Application, ChatMode, Key, QUIT_KEY};

fn typed(app: &mut Application, text: &str) {
    for c in text.chars() {
        assert!(matches!(app.handle_key(Key::Char(c)), Action::Nothing));
    }
}

#[test]
fn starts_idle_and_empty() {
    let app = Application::default();
    assert_eq!(app.input, "");
    assert_eq!(app.input_mode, ChatMode::Idle);
    assert!(app.messages.is_empty());
}

#[test]
fn quit_key_is_q() {
    assert_eq!(QUIT_KEY, 'q');
}

#[test]
fn idle_keys() {
    let mut app = Application::default();
    assert!(matches!(app.handle_key(Key::Down), Action::SelectNext));
    assert!(matches!(app.handle_key(Key::Up), Action::SelectPrevious));
    assert!(matches!(app.handle_key(Key::Char('x')), Action::Nothing));
    assert!(matches!(app.handle_key(Key::Backspace), Action::Nothing));
    assert!(matches!(app.handle_key(Key::Esc), Action::Nothing));
    assert!(matches!(app.handle_key(Key::Other), Action::Nothing));
    assert_eq!(app.input, "");
    assert_eq!(app.input_mode, ChatMode::Idle);
    assert!(matches!(app.handle_key(Key::Char('q')), Action::Quit));
    assert_eq!(app.input_mode, ChatMode::Idle);
}

#[test]
fn enter_starts_chatting_and_escape_ends_it() {
    let mut app = Application::default();
    assert!(matches!(app.handle_key(Key::Enter), Action::Nothing));
    assert_eq!(app.input_mode, ChatMode::Chatting);
    typed(&mut app, "dra");
    assert!(matches!(app.handle_key(Key::Esc), Action::Nothing));
    assert_eq!(app.input_mode, ChatMode::Idle);
    assert_eq!(app.input, "dra");
}

#[test]
fn typing_and_erasing() {
    let mut app = Application::default();
    app.handle_key(Key::Enter);
    typed(&mut app, "quiet é");
    assert_eq!(app.input, "quiet é");
    assert!(matches!(app.handle_key(Key::Backspace), Action::Nothing));
    assert_eq!(app.input, "quiet ");
    assert!(matches!(app.handle_key(Key::Down), Action::Nothing));
    assert!(matches!(app.handle_key(Key::Up), Action::Nothing));
    assert!(matches!(app.handle_key(Key::Other), Action::Nothing));
    assert_eq!(app.input, "quiet ");
    for _ in 0..10 {
        app.handle_key(Key::Backspace);
    }
    assert_eq!(app.input, "");
    assert_eq!(app.input_mode, ChatMode::Chatting);
}

#[test]
fn enter_sends_the_input_line() {
    let mut app = Application::default();
    app.handle_key(Key::Enter);
    typed(&mut app, "hello");
    match app.handle_key(Key::Enter) {
        Action::Send(text) => assert_eq!(text, "hello"),
        other => panic!("unexpected action {:?}", other),
    }
    assert_eq!(app.input, "");
    assert_eq!(app.input_mode, ChatMode::Chatting);
    assert_eq!(app.messages, vec!["hello".to_string()]);
    typed(&mut app, "again");
    assert!(matches!(app.handle_key(Key::Enter), Action::Send(_)));
    assert_eq!(app.messages, vec!["hello".to_string(), "again".to_string()]);
}

#[test]
fn enter_on_an_empty_line_sends_nothing() {
    let mut app = Application::default();
    app.handle_key(Key::Enter);
    assert!(matches!(app.handle_key(Key::Enter), Action::Nothing));
    assert!(app.messages.is_empty());
    assert_eq!(app.input_mode, ChatMode::Chatting);
}

#[test]
fn cursor_stands_behind_the_text() {
    assert_eq!(cursor_cell(10, 20, 0), Some((11, 21)));
    assert_eq!(cursor_cell(10, 20, 5), Some((16, 21)));
    assert_eq!(cursor_cell(0, 0, 65534), Some((65535, 1)));
}

#[test]
fn cursor_beyond_the_terminal_is_none() {
    assert_eq!(cursor_cell(0, 0, 65535), None);
    assert_eq!(cursor_cell(1, 0, 65534), None);
    assert_eq!(cursor_cell(65535, 0, 0), None);
    assert_eq!(cursor_cell(0, 65535, 0), None);
    assert_eq!(cursor_cell(0, 0, usize::MAX), None);
}

#[test]
fn input_cursor_counts_columns() {
    let mut app = Application::default();
    assert_eq!(app.input_cursor(3, 7), Some((4, 8)));
    app.handle_key(Key::Enter);
    typed(&mut app, "abc");
    assert_eq!(app.input_cursor(3, 7), Some((7, 8)));
    typed(&mut app, "日本");
    assert_eq!(app.input_cursor(3, 7), Some((11, 8)));
}
